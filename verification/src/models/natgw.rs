//! NAT-gateway data: gateways, source-NAT rules, and creation requests.

use vstd::prelude::*;

verus! {

#[derive(Debug, Clone)]
pub struct NatGateway {
    pub id: Option<String>,
    pub name: Option<String>,
    pub description: Option<String>,
    pub spec: Option<String>,
    pub status: Option<String>,
    pub router_id: Option<String>,
    pub internal_network_id: Option<String>,
    pub enterprise_project_id: Option<String>,
    pub created_at: Option<String>,
}

#[derive(Debug, Clone)]
pub struct NatGatewayListResponse {
    pub nat_gateways: Vec<NatGateway>,
}

#[derive(Debug, Clone)]
pub struct NatGatewaySingleResponse {
    pub nat_gateway: NatGateway,
}

#[derive(Debug, Clone)]
pub struct SnatRule {
    pub id: Option<String>,
    pub nat_gateway_id: Option<String>,
    pub network_id: Option<String>,
    pub floating_ip_id: Option<String>,
    pub status: Option<String>,
}

#[derive(Debug, Clone)]
pub struct SnatRuleListResponse {
    pub snat_rules: Vec<SnatRule>,
}

#[derive(Debug, Clone)]
pub struct NatGatewayCreateRequest {
    pub nat_gateway: NatGatewayCreateBody,
}

#[derive(Debug, Clone)]
pub struct NatGatewayCreateBody {
    pub name: String,
    pub description: Option<String>,
    pub spec: String,
    pub router_id: String,
    pub internal_network_id: String,
    pub enterprise_project_id: Option<String>,
}

#[derive(Debug, Clone)]
pub struct SnatRuleCreateRequest {
    pub snat_rule: SnatRuleCreateBody,
}

#[derive(Debug, Clone)]
pub struct SnatRuleCreateBody {
    pub nat_gateway_id: String,
    pub network_id: String,
    pub floating_ip_id: String,
}

} // verus!
