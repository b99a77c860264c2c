//! Container-orchestration data: cluster and node-pool creation and update
//! requests.

use vstd::prelude::*;

verus! {

#[derive(Debug, Clone)]
pub struct CceCreateClusterRequest {
    pub kind: String,
    pub api_version: String,
    pub metadata: CceClusterCreateMetadata,
    pub spec: CceClusterCreateSpec,
}

#[derive(Debug, Clone)]
pub struct CceClusterCreateMetadata {
    pub name: String,
}

#[derive(Debug, Clone)]
pub struct CceClusterCreateSpec {
    pub cluster_type: String,
    pub flavor: String,
    pub version: String,
    pub description: Option<String>,
    pub host_network: CceHostNetwork,
    pub container_network: CceContainerNetwork,
    pub kubernetes_svc_ip_range: String,
    pub authentication: Option<CceAuthentication>,
    pub cluster_tags: Vec<CceClusterTag>,
}

#[derive(Debug, Clone)]
pub struct CceHostNetwork {
    pub vpc: String,
    pub subnet: String,
}

#[derive(Debug, Clone)]
pub struct CceContainerNetwork {
    pub mode: String,
    pub cidr: String,
}

#[derive(Debug, Clone)]
pub struct CceAuthentication {
    pub mode: String,
}

#[derive(Debug, Clone)]
pub struct CceClusterTag {
    pub key: String,
    pub value: String,
}

#[derive(Debug, Clone)]
pub struct CceUpdateClusterRequest {
    pub spec: CceUpdateClusterSpec,
}

#[derive(Debug, Clone)]
pub struct CceUpdateClusterSpec {
    pub cluster_external_ip: String,
}

#[derive(Debug, Clone)]
pub struct CceClusterCertRequest {
    pub context: Option<String>,
}

#[derive(Debug, Clone)]
pub struct CceCreateNodePoolRequest {
    pub kind: String,
    pub api_version: String,
    pub metadata: CceNodePoolCreateMetadata,
    pub spec: CceNodePoolCreateSpec,
}

#[derive(Debug, Clone)]
pub struct CceNodePoolCreateMetadata {
    pub name: String,
}

#[derive(Debug, Clone)]
pub struct CceNodePoolCreateSpec {
    pub node_pool_type: String,
    pub initial_node_count: u32,
    pub node_template: CceNodePoolTemplateSpec,
}

#[derive(Debug, Clone)]
pub struct CceNodePoolTemplateSpec {
    pub flavor: String,
    pub az: String,
    pub os: Option<String>,
    pub login: Option<CceNodePoolLogin>,
    pub root_volume: CceNodePoolVolume,
    pub data_volumes: Vec<CceNodePoolVolume>,
    pub node_nic_spec: Option<CceNodePoolNicSpec>,
    pub billing_mode: u8,
    pub extend_param: Option<CceNodePoolExtendParam>,
}

#[derive(Debug, Clone)]
pub struct CceNodePoolLogin {
    pub ssh_key: String,
}

#[derive(Debug, Clone)]
pub struct CceNodePoolVolume {
    pub volumetype: String,
    pub size: u32,
    pub extend_param: Option<CceNodePoolVolumeExtendParam>,
}

#[derive(Debug, Clone)]
pub struct CceNodePoolVolumeExtendParam {
    pub use_type: String,
}

#[derive(Debug, Clone)]
pub struct CceNodePoolNicSpec {
    pub primary_nic: CceNodePoolPrimaryNic,
}

#[derive(Debug, Clone)]
pub struct CceNodePoolPrimaryNic {
    pub subnet_id: String,
}

#[derive(Debug, Clone)]
pub struct CceNodePoolExtendParam {
    pub max_pods: Option<u32>,
}

} // verus!
