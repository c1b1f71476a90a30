use vstd::prelude::*;
use crate::models::ip::Ipv4Cidr;
use crate::models::nic::NicIndex;

verus! {

/// The networks a router announces with RIP, and its interfaces to enable.
#[derive(Debug, Clone)]
pub struct RipRoute {
    pub networks: Vec<Ipv4Cidr>,
    pub interfaces_to_enable: Vec<NicIndex>,
}

} // verus!
