use vstd::prelude::*;
use indexmap::IndexMap;
use crate::models::ip::Ipv4Inet;
use crate::models::nic::{Nic, NicIndex};
use crate::models::protocol::RoutingProtocol;
use crate::models::routes::route::Route;

verus! {

/// A router of an experiment: its operating system, its interfaces and its
/// routes for the protocol under test.
#[derive(Debug)]
pub struct Router {
    pub os_name: String,
    pub number_nics: u32,
    pub nics: IndexMap<NicIndex, Nic>,
    pub routes: Vec<Route>,
}

/// A router of a topology: the addresses of its interfaces and its routes for
/// each protocol the topology supports.
#[derive(Debug)]
pub struct GenericRouter {
    pub number_nics: u32,
    pub ips: IndexMap<NicIndex, Ipv4Inet>,
    /// E.g. RIP and its associated routes
    pub routes: IndexMap<RoutingProtocol, Vec<Route>>,
}

} // verus!
