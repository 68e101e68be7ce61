use vstd::prelude::*;

use crate::ids::{new_random_id, v4_id};
use crate::runtime::protocol::presets::str_eq;

verus! {

pub const PORT_OUT: &'static str = "out";

pub const PORT_IN: &'static str = "in";

/// A wire from an output port of one node to an input port of another.
#[derive(Debug, PartialEq, Eq)]
pub struct Edge {
    pub id: u128,
    pub source_node_id: u128,
    pub source_port: String,
    pub target_node_id: u128,
    pub target_port: String,
}

impl Clone for Edge {
    fn clone(&self) -> (c: Self)
        ensures
            c == *self,
    {
        Edge {
            id: self.id,
            source_node_id: self.source_node_id,
            source_port: self.source_port.clone(),
            target_node_id: self.target_node_id,
            target_port: self.target_port.clone(),
        }
    }
}

impl Edge {
    /// A new edge with a fresh random id.
    pub fn new(source_node_id: u128, source_port: String, target_node_id: u128, target_port: String) -> (e: Self)
        ensures
            v4_id(e.id),
            e.source_node_id == source_node_id,
            e.source_port == source_port,
            e.target_node_id == target_node_id,
            e.target_port == target_port,
    {
        Self {
            id: new_random_id(),
            source_node_id,
            source_port,
            target_node_id,
            target_port,
        }
    }
}

/// The only port names of this protocol version: `out` and `in`.
pub open spec fn valid_port(port: Seq<char>) -> bool {
    port == "out"@ || port == "in"@
}

pub fn is_valid_port(port: &str) -> (b: bool)
    ensures
        b == valid_port(port@),
{
    str_eq(port, PORT_OUT) || str_eq(port, PORT_IN)
}

} // verus!
