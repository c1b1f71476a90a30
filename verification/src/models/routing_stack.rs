use vstd::prelude::*;
use crate::models::os_command::DeserializedOsCommandType;

verus! {

/// Console commands that drive the routing daemon of a system, by protocol.
#[derive(Debug)]
pub struct RoutingStack {
    pub start: Vec<DeserializedOsCommandType>,
    pub rip: Option<RipCommands>,
    pub ospf: Option<OspfCommands>,
    pub bgp: Option<BgpCommands>,
    pub stop: Vec<DeserializedOsCommandType>,
}

#[derive(Debug)]
pub struct RipCommands {
    pub start: Vec<DeserializedOsCommandType>,
    pub enable_interface: Vec<DeserializedOsCommandType>,
    pub add_network: Vec<DeserializedOsCommandType>,
    pub stop: Vec<DeserializedOsCommandType>,
}

#[derive(Debug)]
pub struct OspfCommands {
    pub start: Vec<DeserializedOsCommandType>,
    pub add_area: Vec<DeserializedOsCommandType>,
    pub add_network: Vec<DeserializedOsCommandType>,
    pub stop: Vec<DeserializedOsCommandType>,
}

#[derive(Debug)]
pub struct BgpCommands {
    pub start: Vec<DeserializedOsCommandType>,
    pub add_neighbor: Vec<DeserializedOsCommandType>,
    pub add_network_to_advertise: Vec<DeserializedOsCommandType>,
    pub stop: Vec<DeserializedOsCommandType>,
}

} // verus!
