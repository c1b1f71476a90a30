use vstd::prelude::*;
use crate::models::os_command::DeserializedOsCommandType;

verus! {

/// Console commands that drive the network stack of a system.
#[derive(Debug)]
pub struct NetworkStack {
    pub start: Vec<DeserializedOsCommandType>,
    pub add_ip_address: Vec<DeserializedOsCommandType>,
    pub add_static_route: Vec<DeserializedOsCommandType>,
    pub stop: Vec<DeserializedOsCommandType>,
}

} // verus!
