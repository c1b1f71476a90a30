use vstd::prelude::*;

verus! {

/// Routing protocols an experiment can exercise.
#[derive(Debug, Clone, Copy, Hash, PartialEq, Eq, Structural)]
pub enum RoutingProtocol {
    Static,
    Rip,
    Ospf,
    Bgp,
    Mpls,
}

/// The name of a protocol as shown to users and used in experiment names.
pub open spec fn protocol_name(p: RoutingProtocol) -> Seq<char> {
    match p {
        RoutingProtocol::Static => "static"@,
        RoutingProtocol::Rip => "RIP"@,
        RoutingProtocol::Ospf => "OSPF"@,
        RoutingProtocol::Bgp => "BGP"@,
        RoutingProtocol::Mpls => "MPLS"@,
    }
}

impl RoutingProtocol {
    /// The name under which the protocol is displayed.
    pub fn to_display_string(&self) -> (r: String)
        ensures
            r@ == protocol_name(*self),
    {
        match self {
            RoutingProtocol::Static => String::from_str("static"),
            RoutingProtocol::Rip => String::from_str("RIP"),
            RoutingProtocol::Ospf => String::from_str("OSPF"),
            RoutingProtocol::Bgp => String::from_str("BGP"),
            RoutingProtocol::Mpls => String::from_str("MPLS"),
        }
    }
}

} // verus!
