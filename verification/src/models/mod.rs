//! Plain data types for the resource operations: requests the transport
//! sends and responses it decodes. Serialization lives outside this crate;
//! these are the values the core computes with.

pub mod cce;
pub mod ecs;
pub mod eip;
pub mod evs;
pub mod iam;
pub mod ims;
pub mod natgw;
pub mod obs;
pub mod vpc;
