//! Compute-service data: server creation, deletion and stop requests, and
//! flavors.

use vstd::prelude::*;

use std::collections::HashMap;

verus! {

pub struct CreateEcsRequest {
    pub server: Server,
}

pub struct Server {
    pub name: String,
    pub image_ref: String,
    pub flavor_ref: String,
    pub vpcid: String,
    pub nics: Vec<Nic>,
    pub root_volume: RootVolume,
    pub data_volumes: Vec<DataVolume>,
    pub publicip: Option<PublicIp>,
    pub admin_pass: Option<String>,
}

pub struct Nic {
    pub subnet_id: String,
}

pub struct RootVolume {
    pub volumetype: String,
    pub size: u32,
}

pub struct DataVolume {
    pub volumetype: String,
    pub size: u32,
    pub count: Option<u32>,
    pub multiattach: Option<bool>,
    pub hw_passthrough: Option<bool>,
}

pub struct PublicIp {
    pub eip: Eip,
}

pub struct Eip {
    pub ip_type: String,
    pub bandwidth: Bandwidth,
}

pub struct Bandwidth {
    pub size: u32,
    pub share_type: String,
    pub charge_mode: String,
}

pub struct DeleteEcsRequest {
    pub servers: Vec<DeleteEcsServer>,
    pub delete_publicip: Option<bool>,
    pub delete_volume: Option<bool>,
}

pub struct DeleteEcsServer {
    pub id: String,
}

pub struct StopEcsRequest {
    pub os_stop: StopEcsAction,
}

pub struct StopEcsAction {
    pub servers: Vec<StopEcsServer>,
    pub stop_type: String,
}

pub struct StopEcsServer {
    pub id: String,
}

#[derive(Debug, Clone)]
pub struct Flavor {
    pub id: String,
    pub name: String,
    pub vcpus: Option<u32>,
    pub ram: Option<u32>,
    pub disk: Option<u32>,
    pub os_extra_specs: HashMap<String, String>,
}

#[derive(Debug)]
pub struct FlavorListResponse {
    pub flavors: Vec<Flavor>,
}

#[derive(Debug, Clone)]
pub struct EcsServerLink {
    pub rel: Option<String>,
    pub href: Option<String>,
}

} // verus!
