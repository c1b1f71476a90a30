use vstd::prelude::*;
use crate::models::network::GenericNetwork;
use crate::models::protocol::RoutingProtocol;

verus! {

/// A network layout, with the routing protocols it has routes for.
#[derive(Debug)]
pub struct Topology {
    pub supported_routing_protocols: Vec<RoutingProtocol>,
    pub network: GenericNetwork,
}

} // verus!
