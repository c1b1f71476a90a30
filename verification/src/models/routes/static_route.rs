use vstd::prelude::*;
use crate::models::ip::{Ipv4Address, Ipv4Cidr};

verus! {

/// A route to a distant network through a gateway on an interface.
#[derive(Debug, Clone, Copy, PartialEq, Eq, Structural)]
pub struct StaticRoute {
    pub distant_network: Ipv4Cidr,
    pub gateway: Ipv4Address,
    pub interface: u16,
}

} // verus!
