//! Virtual private clouds and subnets.

use vstd::prelude::*;

verus! {

#[derive(Debug, Clone)]
pub struct Vpc {
    pub id: String,
    pub name: String,
}

#[derive(Debug)]
pub struct VpcListResponse {
    pub vpcs: Vec<Vpc>,
}

#[derive(Debug, Clone)]
pub struct Subnet {
    pub id: String,
    pub name: String,
    pub cidr: String,
    pub availability_zone: Option<String>,
}

#[derive(Debug)]
pub struct SubnetListResponse {
    pub subnets: Vec<Subnet>,
}

} // verus!
