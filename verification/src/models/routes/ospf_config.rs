use vstd::prelude::*;
use indexmap::IndexMap;
use crate::models::ip::Ipv4Inet;

verus! {

#[derive(Debug)]
pub struct OspfConfig {
    pub areas_to_add: IndexMap<String, Vec<u8>>,
    pub networks_to_add: Vec<NetworkToAdd>,
}

#[derive(Debug, Clone, Copy, PartialEq, Eq, Structural)]
pub struct NetworkToAdd {
    pub network: Ipv4Inet,
    pub area: u8,
}

} // verus!
