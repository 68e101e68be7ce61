pub mod builtin;
pub mod edge;
pub mod envelope;
pub mod graph;
pub mod lifecycle;
pub mod node;
pub mod protocol;
pub mod runner;
pub mod sdk;

use vstd::prelude::*;

use crate::runtime::edge::Edge;
use crate::runtime::graph::{graph_run_outcome, graph_run_view, node_index, views, GraphError, GraphRunResult};
use crate::runtime::node::{result_view, run_outcome, NodeInstance, RunResult, RuntimeError, RuntimeErrorView};
use crate::runtime::runner::{GraphRunner, NoopObserver};

verus! {

/// The runtime without an observer: what headless callers use.
pub struct MinimalRuntime;

impl MinimalRuntime {
    /// Runs one node with no wired input.
    pub fn run_node(nodes: &mut Vec<NodeInstance>, id: u128) -> (r: Result<RunResult, RuntimeError>)
        ensures
            match node_index(views(old(nodes)@), id) {
                None => final(nodes)@ == old(nodes)@ && (r matches Err(e) && e@ == RuntimeErrorView::NotFound(id)),
                Some(i) => final(nodes)@.len() == old(nodes)@.len()
                    && (forall|j: int| 0 <= j < old(nodes)@.len() && j != i ==> final(nodes)@[j] == old(nodes)@[j])
                    && run_outcome(old(nodes)@[i]@, None, final(nodes)@[i]@, result_view(r)),
            },
    {
        let mut observer = NoopObserver::new();
        GraphRunner::run_node_observed(nodes, id, None, &mut observer)
    }

    /// Runs the whole graph in topological order.
    pub fn run_graph(nodes: &mut Vec<NodeInstance>, edges: &[Edge]) -> (r: Result<GraphRunResult, GraphError>)
        ensures
            graph_run_outcome(views(old(nodes)@), edges@, views(final(nodes)@), graph_run_view(r)),
    {
        let mut observer = NoopObserver::new();
        GraphRunner::run_graph_observed(nodes, edges, &mut observer)
    }
}

} // verus!
