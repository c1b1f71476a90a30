use vstd::prelude::*;

verus! {

/// A cable between an adapter of one node and an adapter of another.
#[derive(Debug, Clone)]
pub struct Link {
    pub node_a: String,
    pub adapter_a: u32,
    pub node_b: String,
    pub adapter_b: u32,
}

} // verus!
