//! Image-service data.

use vstd::prelude::*;

verus! {

#[derive(Debug, Clone)]
pub struct Image {
    pub whole_image: Option<bool>,
    pub id: String,
    pub name: String,
    pub status: String,
    pub visibility: Option<String>,
    pub min_disk: Option<u32>,
    pub min_ram: Option<u32>,
    pub size: Option<u64>,
    pub disk_format: Option<String>,
    pub container_format: Option<String>,
    pub created_at: Option<String>,
    pub updated_at: Option<String>,
    pub os_version: Option<String>,
    pub os_type: Option<String>,
    pub platform: Option<String>,
    pub tags: Vec<String>,
    pub protected: Option<bool>,
}

#[derive(Debug)]
pub struct ImageListResponse {
    pub images: Vec<Image>,
}

} // verus!
