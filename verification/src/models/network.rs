use vstd::prelude::*;
use indexmap::IndexMap;
use crate::models::link::Link;
use crate::models::nodes::node::{GenericNode, Node};

verus! {

/// The machines of an experiment by name, and the cables between them.
#[derive(Debug)]
pub struct Network {
    pub nodes: IndexMap<String, Node>,
    pub physical_links: Vec<Link>,
}

/// The machines of a topology by name, and the cables between them.
#[derive(Debug)]
pub struct GenericNetwork {
    pub nodes: IndexMap<String, GenericNode>,
    pub physical_links: Vec<Link>,
}

} // verus!
