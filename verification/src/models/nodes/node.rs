use vstd::prelude::*;
use crate::models::ip::{Ipv4Address, Ipv4Cidr};
use crate::models::nodes::guest::{GenericGuest, Guest};
use crate::models::nodes::router::{GenericRouter, Router};

verus! {

/// A machine of an experiment, with its hardware and place on the canvas.
#[derive(Debug)]
pub struct Node {
    pub vcpu: u32,
    pub ram: u32,
    pub x: i32,
    pub y: i32,
    pub node_type: NodeType,
    pub distant_networks: Vec<DistantNetwork>,
}

#[derive(Debug)]
pub enum NodeType {
    Guest(Guest),
    Router(Router),
}

/// A network reached through a gateway on one of the node's adapters.
#[derive(Debug, Clone, Copy, PartialEq, Eq, Structural)]
pub struct DistantNetwork {
    pub network: Ipv4Cidr,
    pub gateway: Ipv4Address,
    pub adapter_index: u32,
}

impl Node {
    /// The guest this node is; it must be one.
    pub fn unwrap_guest(&self) -> (r: &Guest)
        requires
            self.node_type is Guest,
        ensures
            *r == self.node_type->Guest_0,
    {
        match &self.node_type {
            NodeType::Guest(guest) => guest,
            NodeType::Router(_) => vstd::pervasive::unreached(),
        }
    }

    /// The router this node is; it must be one.
    pub fn unwrap_router(&self) -> (r: &Router)
        requires
            self.node_type is Router,
        ensures
            *r == self.node_type->Router_0,
    {
        match &self.node_type {
            NodeType::Router(router) => router,
            NodeType::Guest(_) => vstd::pervasive::unreached(),
        }
    }
}

/// A machine of a topology, before hardware and operating system are chosen.
#[derive(Debug)]
pub struct GenericNode {
    pub x: i32,
    pub y: i32,
    pub node_type: GenericNodeType,
}

#[derive(Debug)]
pub enum GenericNodeType {
    Guest(GenericGuest),
    Router(GenericRouter),
}

} // verus!
