use vstd::prelude::*;
use crate::models::protocol::RoutingProtocol;
use crate::models::routes::ospf_config::OspfConfig;
use crate::models::routes::rip_config::RipConfig;
use crate::models::routes::static_route::StaticRoute;

verus! {

/// The routing configuration of a router, by protocol.
#[derive(Debug)]
pub enum RouteConfig {
    Static(Vec<StaticRoute>),
    Rip(RipConfig),
    Ospf(OspfConfig),
    Bgp,
    Mpls,
}

/// The protocol a configuration is for.
pub open spec fn config_protocol(c: RouteConfig) -> RoutingProtocol {
    match c {
        RouteConfig::Static(_) => RoutingProtocol::Static,
        RouteConfig::Rip(_) => RoutingProtocol::Rip,
        RouteConfig::Ospf(_) => RoutingProtocol::Ospf,
        RouteConfig::Bgp => RoutingProtocol::Bgp,
        RouteConfig::Mpls => RoutingProtocol::Mpls,
    }
}

impl RouteConfig {
    /// The protocol the configuration is for.
    pub fn to_protocol_name(&self) -> (r: RoutingProtocol)
        ensures
            r == config_protocol(*self),
    {
        match self {
            RouteConfig::Static(_) => RoutingProtocol::Static,
            RouteConfig::Rip(_) => RoutingProtocol::Rip,
            RouteConfig::Ospf(_) => RoutingProtocol::Ospf,
            RouteConfig::Bgp => RoutingProtocol::Bgp,
            RouteConfig::Mpls => RoutingProtocol::Mpls,
        }
    }
}

} // verus!
