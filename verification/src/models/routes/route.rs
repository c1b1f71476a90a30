use vstd::prelude::*;
use crate::models::routes::rip_route::RipRoute;
use crate::models::routes::static_route::StaticRoute;

verus! {

/// A route of a router, by protocol.
#[derive(Debug, Clone)]
pub enum Route {
    Static(StaticRoute),
    Rip(RipRoute),
    Ospf,
    Bgp,
    Mpls,
}

} // verus!
