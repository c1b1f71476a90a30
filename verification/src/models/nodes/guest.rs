use vstd::prelude::*;
use crate::models::ip::Ipv4Inet;

verus! {

/// A guest machine of an experiment: the end point of tests.
#[derive(Debug, Clone, Copy, PartialEq, Eq, Structural)]
pub struct Guest {
    pub ip: Ipv4Inet,
}

/// A guest of a topology, with its own hardware.
#[derive(Debug, Clone, Copy, PartialEq, Eq, Structural)]
pub struct GenericGuest {
    pub vcpu: u32,
    pub ram: u32,
    pub ip: Ipv4Inet,
}

} // verus!
