//! Block-storage data: volumes and their attachments.

use vstd::prelude::*;

verus! {

#[derive(Debug, Clone)]
pub struct EvsAttachment {
    pub id: Option<String>,
    pub server_id: Option<String>,
    pub device: Option<String>,
    pub attached_at: Option<String>,
}

#[derive(Debug, Clone)]
pub struct EvsVolume {
    pub id: Option<String>,
    pub name: Option<String>,
    pub status: Option<String>,
    pub size: Option<u32>,
    pub volume_type: Option<String>,
    pub availability_zone: Option<String>,
    pub bootable: Option<bool>,
    pub multiattach: Option<bool>,
    pub created_at: Option<String>,
    pub updated_at: Option<String>,
    pub attachments: Vec<EvsAttachment>,
}

#[derive(Debug, Clone)]
pub struct EvsListResponse {
    pub volumes: Vec<EvsVolume>,
    pub count: Option<u32>,
}

} // verus!
