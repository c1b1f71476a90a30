use vstd::prelude::*;
use crate::models::ip::{Ipv4Address, Ipv4Inet};

verus! {

#[derive(Debug, Clone)]
pub struct BgpConfig {
    pub local_as: u32,
    pub neighbors: Vec<BgpNeighbor>,
    pub networks_to_advertise: Vec<Ipv4Inet>,
}

#[derive(Debug, Clone, Copy, PartialEq, Eq, Structural)]
pub struct BgpNeighbor {
    pub address: Ipv4Address,
    pub remote_as: u32,
}

} // verus!
