use vstd::prelude::*;
use crate::models::ip::Ipv4Inet;

verus! {

#[derive(Debug, Clone)]
pub struct RipConfig {
    pub interfaces_to_enable: Vec<u16>,
    pub networks_to_add: Vec<Ipv4Inet>,
}

} // verus!
