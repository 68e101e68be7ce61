use vstd::prelude::*;
use vstd::set_lib::{lemma_len_subset, lemma_subset_equality};
use vstd::seq_lib::seq_to_set_is_finite;

use crate::runtime::edge::{valid_port, Edge, PORT_IN, PORT_OUT};
use crate::runtime::envelope::MessageEnvelope;
use crate::runtime::node::{
    after_run, kind_has_port, run_refusal, NodeInstance, NodeView, RunResult,
    runtime_message, RunResultView, RuntimeError, RuntimeErrorView,
};
use crate::runtime::protocol::presets::{axis_name, decl_in, str_eq, Axis, PortDeclaration};
use crate::runtime::protocol::resolve::{
    how_rejection, resolve_ports, what_rejection, ResolutionOutcome,
};
use crate::text::{uuid_string, uuid_text};
use crate::seqs::{first_index, lemma_first_index, lemma_first_index_at, lemma_first_index_none};

verus! {

/// Why a graph operation failed.
#[derive(Debug)]
pub enum GraphError {
    NodeNotFound(u128),
    CycleDetected,
    SelfLoop,
    InvalidPort(String),
    DuplicateTarget { node_id: u128, port: String },
    MissingUpstreamOutput(u128),
    IncompatiblePorts { axis: Axis, reason: String, hint: String },
    PortNotDeclared { node_id: u128, port: String },
    Runtime(RuntimeError),
}

pub enum GraphErrorView {
    NodeNotFound(u128),
    CycleDetected,
    SelfLoop,
    InvalidPort(Seq<char>),
    DuplicateTarget { node_id: u128, port: Seq<char> },
    MissingUpstreamOutput(u128),
    IncompatiblePorts { axis: Axis, reason: Seq<char>, hint: Seq<char> },
    PortNotDeclared { node_id: u128, port: Seq<char> },
    Runtime(RuntimeErrorView),
}

impl View for GraphError {
    type V = GraphErrorView;

    open spec fn view(&self) -> GraphErrorView {
        match self {
            GraphError::NodeNotFound(id) => GraphErrorView::NodeNotFound(*id),
            GraphError::CycleDetected => GraphErrorView::CycleDetected,
            GraphError::SelfLoop => GraphErrorView::SelfLoop,
            GraphError::InvalidPort(m) => GraphErrorView::InvalidPort(m@),
            GraphError::DuplicateTarget { node_id, port } => GraphErrorView::DuplicateTarget { node_id: *node_id, port: port@ },
            GraphError::MissingUpstreamOutput(id) => GraphErrorView::MissingUpstreamOutput(*id),
            GraphError::IncompatiblePorts { axis, reason, hint } => GraphErrorView::IncompatiblePorts {
                axis: *axis,
                reason: reason@,
                hint: hint@,
            },
            GraphError::PortNotDeclared { node_id, port } => GraphErrorView::PortNotDeclared { node_id: *node_id, port: port@ },
            GraphError::Runtime(e) => GraphErrorView::Runtime(e@),
        }
    }
}

/// The message of a graph error, as the error displays it.
pub open spec fn graph_message(e: GraphErrorView) -> Seq<char> {
    match e {
        GraphErrorView::NodeNotFound(id) => "node not found: "@ + uuid_text(id),
        GraphErrorView::CycleDetected => "edge would create a cycle"@,
        GraphErrorView::SelfLoop => "cannot connect a node to itself"@,
        GraphErrorView::InvalidPort(m) => "invalid port: "@ + m + " (v2 allows only 'out' and 'in')"@,
        GraphErrorView::DuplicateTarget { node_id, port } => "target port '"@ + port + "' on node "@ + uuid_text(node_id)
            + " is already connected"@,
        GraphErrorView::MissingUpstreamOutput(id) => "upstream node "@ + uuid_text(id) + " has no output to deliver"@,
        GraphErrorView::IncompatiblePorts { axis, reason, hint } => axis_name(axis) + ": "@ + reason + " — Hint: "@ + hint,
        GraphErrorView::PortNotDeclared { node_id, port } => "port '"@ + port + "' not declared on node "@ + uuid_text(node_id),
        GraphErrorView::Runtime(r) => "runtime error: "@ + runtime_message(r),
    }
}

impl GraphError {
    /// The error's message.
    pub fn message(&self) -> (m: String)
        ensures
            m@ == graph_message(self@),
    {
        match self {
            GraphError::NodeNotFound(id) => String::from_str("node not found: ").concat(uuid_string(*id).as_str()),
            GraphError::CycleDetected => String::from_str("edge would create a cycle"),
            GraphError::SelfLoop => String::from_str("cannot connect a node to itself"),
            GraphError::InvalidPort(m) => String::from_str("invalid port: ").concat(m.as_str()).concat(
                " (v2 allows only 'out' and 'in')",
            ),
            GraphError::DuplicateTarget { node_id, port } => String::from_str("target port '").concat(port.as_str()).concat(
                "' on node ",
            ).concat(uuid_string(*node_id).as_str()).concat(" is already connected"),
            GraphError::MissingUpstreamOutput(id) => String::from_str("upstream node ").concat(
                uuid_string(*id).as_str(),
            ).concat(" has no output to deliver"),
            GraphError::IncompatiblePorts { axis, reason, hint } => axis.to_string().concat(": ").concat(
                reason.as_str(),
            ).concat(" — Hint: ").concat(hint.as_str()),
            GraphError::PortNotDeclared { node_id, port } => String::from_str("port '").concat(port.as_str()).concat(
                "' not declared on node ",
            ).concat(uuid_string(*node_id).as_str()),
            GraphError::Runtime(r) => String::from_str("runtime error: ").concat(r.message().as_str()),
        }
    }
}

/// Whether a proposed connection is compatible, and if not why.
#[derive(Debug, PartialEq, Eq)]
pub struct ConnectionValidation {
    pub compatible: bool,
    pub axis: Option<Axis>,
    pub reason: Option<String>,
    pub hint: Option<String>,
}

pub struct ConnectionValidationView {
    pub compatible: bool,
    pub axis: Option<Axis>,
    pub reason: Option<Seq<char>>,
    pub hint: Option<Seq<char>>,
}

impl View for ConnectionValidation {
    type V = ConnectionValidationView;

    open spec fn view(&self) -> ConnectionValidationView {
        ConnectionValidationView {
            compatible: self.compatible,
            axis: self.axis,
            reason: crate::runtime::node::opt_view(self.reason),
            hint: crate::runtime::node::opt_view(self.hint),
        }
    }
}

/// A message handed across an edge during a graph run.
#[derive(Debug, PartialEq, Eq)]
pub struct MessageDelivery {
    pub edge_id: u128,
    pub envelope: MessageEnvelope,
}

pub struct EnvelopeView {
    pub source_node_id: u128,
    pub source_port: Seq<char>,
    pub sequence: u64,
    pub payload: Seq<char>,
}

pub struct DeliveryView {
    pub edge_id: u128,
    pub envelope: EnvelopeView,
}

impl View for MessageDelivery {
    type V = DeliveryView;

    open spec fn view(&self) -> DeliveryView {
        DeliveryView {
            edge_id: self.edge_id,
            envelope: EnvelopeView {
                source_node_id: self.envelope.source_node_id,
                source_port: self.envelope.source_port@,
                sequence: self.envelope.sequence,
                payload: self.envelope.payload@,
            },
        }
    }
}

/// The results of a graph run, in run order.
#[derive(Debug, PartialEq)]
pub struct GraphRunResult {
    pub node_results: Vec<RunResult>,
    pub deliveries: Vec<MessageDelivery>,
}

// ---------------------------------------------------------------------------
// The graph model: edges as directed pairs of node ids.

/// Some edge runs from `s` to `t`.
pub open spec fn has_edge(edges: Seq<Edge>, s: u128, t: u128) -> bool {
    exists|k: int| 0 <= k < edges.len() && (#[trigger] edges[k]).source_node_id == s && edges[k].target_node_id == t
}

/// `p` walks along edges and returns to where it started.
pub open spec fn is_cycle(edges: Seq<Edge>, p: Seq<u128>) -> bool {
    &&& p.len() >= 2
    &&& p[0] == p[p.len() - 1]
    &&& forall|i: int| 0 <= i < p.len() - 1 ==> has_edge(edges, #[trigger] p[i], p[i + 1])
}

/// The edges contain a directed cycle.
pub open spec fn has_cycle(edges: Seq<Edge>) -> bool {
    exists|p: Seq<u128>| is_cycle(edges, p)
}

/// The ids of the nodes, in order.
pub open spec fn node_ids(nodes: Seq<NodeInstance>) -> Seq<u128> {
    nodes.map_values(|n: NodeInstance| n.id)
}

/// Every edge that enters `o[j]` comes from a node placed before it.
pub open spec fn sources_before(edges: Seq<Edge>, o: Seq<u128>, j: int) -> bool {
    forall|k: int| 0 <= k < edges.len() && (#[trigger] edges[k]).target_node_id == o[j]
        ==> exists|i: int| 0 <= i < j && o[i] == edges[k].source_node_id
}

/// `o` lists distinct ids among `ids`, each after the sources of all edges
/// that enter it.
pub open spec fn valid_prefix(ids: Seq<u128>, edges: Seq<Edge>, o: Seq<u128>) -> bool {
    &&& o.no_duplicates()
    &&& forall|j: int| 0 <= j < o.len() ==> ids.contains(#[trigger] o[j])
    &&& forall|j: int| 0 <= j < o.len() ==> #[trigger] sources_before(edges, o, j)
}

/// `o` is a topological order of `ids`: every id once, each after the sources
/// of all edges that enter it (so an edge from an unknown node blocks its target).
pub open spec fn is_topological_order(ids: Seq<u128>, edges: Seq<Edge>, o: Seq<u128>) -> bool {
    valid_prefix(ids, edges, o) && o.len() == ids.len()
}

/// The ids have a topological order.
pub open spec fn orderable(ids: Seq<u128>, edges: Seq<Edge>) -> bool {
    ids.no_duplicates() && exists|o: Seq<u128>| is_topological_order(ids, edges, o)
}

/// Every edge that enters `x` comes from an id in `o`.
pub open spec fn sources_placed(edges: Seq<Edge>, o: Seq<u128>, x: u128) -> bool {
    forall|k: int| 0 <= k < edges.len() && (#[trigger] edges[k]).target_node_id == x
        ==> o.contains(edges[k].source_node_id)
}

/// No id of `ids` outside `o` could be placed next.
pub open spec fn stuck(ids: Seq<u128>, edges: Seq<Edge>, o: Seq<u128>) -> bool {
    forall|x: u128| ids.contains(x) && !o.contains(x) ==> !#[trigger] sources_placed(edges, o, x)
}

/// Every endpoint of every edge is among `ids`.
pub open spec fn endpoints_within(ids: Seq<u128>, edges: Seq<Edge>) -> bool {
    forall|k: int| 0 <= k < edges.len() ==> ids.contains((#[trigger] edges[k]).source_node_id)
        && ids.contains(edges[k].target_node_id)
}

// ---------------------------------------------------------------------------
// Counting lemmas.

/// A sequence longer than `t` whose elements all occur in `t` repeats one.
pub proof fn lemma_pigeonhole<A>(s: Seq<A>, t: Seq<A>)
    requires
        forall|i: int| 0 <= i < s.len() ==> t.contains(#[trigger] s[i]),
        s.len() > t.len(),
    ensures
        !s.no_duplicates(),
{
    broadcast use seq_to_set_is_finite;
    if s.no_duplicates() {
        s.unique_seq_to_set();
        t.lemma_cardinality_of_set();
        assert forall|x: A| s.to_set().contains(x) implies t.to_set().contains(x) by {
            let i = choose|i: int| 0 <= i < s.len() && s[i] == x;
            assert(t.contains(s[i]));
        }
        lemma_len_subset(s.to_set(), t.to_set());
    }
}

/// A repetition-free list inside `ids` is no longer than `ids`.
pub proof fn lemma_prefix_bounded<A>(ids: Seq<A>, o: Seq<A>)
    requires
        o.no_duplicates(),
        forall|j: int| 0 <= j < o.len() ==> ids.contains(#[trigger] o[j]),
    ensures
        o.len() <= ids.len(),
{
    if o.len() > ids.len() {
        lemma_pigeonhole(o, ids);
    }
}

/// A repetition-free list inside `ids`, as long as `ids`, holds every id.
pub proof fn lemma_full_prefix_covers<A>(ids: Seq<A>, o: Seq<A>)
    requires
        o.no_duplicates(),
        forall|j: int| 0 <= j < o.len() ==> ids.contains(#[trigger] o[j]),
        o.len() == ids.len(),
    ensures
        forall|x: A| ids.contains(x) ==> o.contains(x),
        ids.no_duplicates(),
{
    broadcast use seq_to_set_is_finite;
    o.unique_seq_to_set();
    ids.lemma_cardinality_of_set();
    assert forall|x: A| o.to_set().contains(x) implies ids.to_set().contains(x) by {
        let i = choose|i: int| 0 <= i < o.len() && o[i] == x;
        assert(ids.contains(o[i]));
    }
    lemma_len_subset(o.to_set(), ids.to_set());
    lemma_subset_equality(o.to_set(), ids.to_set());
    assert forall|x: A| ids.contains(x) implies o.contains(x) by {
        assert(ids.to_set().contains(x));
        assert(o.to_set().contains(x));
    }
    ids.lemma_no_dup_set_cardinality();
}

/// Some id of `ids` is missing from a shorter repetition-free list.
pub proof fn lemma_missing_id<A>(ids: Seq<A>, o: Seq<A>) -> (x: A)
    requires
        ids.no_duplicates(),
        o.len() < ids.len(),
    ensures
        ids.contains(x),
        !o.contains(x),
{
    if forall|i: int| 0 <= i < ids.len() ==> o.contains(#[trigger] ids[i]) {
        lemma_pigeonhole(ids, o);
        assert(false);
        ids[0]
    } else {
        let i = choose|i: int| 0 <= i < ids.len() && !o.contains(#[trigger] ids[i]);
        ids[i]
    }
}

// ---------------------------------------------------------------------------
// Orders and cycles.

/// The position of `x` in `o`.
pub open spec fn position(o: Seq<u128>, x: u128) -> int {
    choose|i: int| 0 <= i < o.len() && o[i] == x
}

proof fn lemma_position(o: Seq<u128>, i: int)
    requires
        o.no_duplicates(),
        0 <= i < o.len(),
    ensures
        position(o, o[i]) == i,
{
    let x = o[i];
    assert(exists|j: int| 0 <= j < o.len() && o[j] == x);
    let p = position(o, x);
    assert(o[p] == x);
}

/// Along an edge between two ids of a topological order, the source comes first.
proof fn lemma_edge_goes_forward(ids: Seq<u128>, edges: Seq<Edge>, o: Seq<u128>, s: u128, t: u128)
    requires
        is_topological_order(ids, edges, o),
        ids.contains(t),
        has_edge(edges, s, t),
    ensures
        o.contains(s),
        o.contains(t),
        position(o, s) < position(o, t),
{
    lemma_full_prefix_covers(ids, o);
    let j = choose|j: int| 0 <= j < o.len() && o[j] == t;
    let k = choose|k: int| 0 <= k < edges.len() && (#[trigger] edges[k]).source_node_id == s && edges[k].target_node_id == t;
    assert(sources_before(edges, o, j));
    assert(edges[k].target_node_id == o[j]);
    let i = choose|i: int| 0 <= i < j && o[i] == edges[k].source_node_id;
    lemma_position(o, i);
    lemma_position(o, j);
}

/// Ordering all endpoints topologically rules out a cycle.
pub proof fn lemma_order_excludes_cycle(ids: Seq<u128>, edges: Seq<Edge>, o: Seq<u128>)
    requires
        is_topological_order(ids, edges, o),
        endpoints_within(ids, edges),
    ensures
        !has_cycle(edges),
{
    if has_cycle(edges) {
        let p = choose|p: Seq<u128>| is_cycle(edges, p);
        assert forall|m: int| 1 <= m < p.len() implies position(o, #[trigger] p[m]) > position(o, p[0]) by {
            lemma_cycle_rises(ids, edges, o, p, m);
        }
        assert(position(o, p[p.len() - 1]) > position(o, p[0]));
    }
}

proof fn lemma_cycle_rises(ids: Seq<u128>, edges: Seq<Edge>, o: Seq<u128>, p: Seq<u128>, m: int)
    requires
        is_topological_order(ids, edges, o),
        endpoints_within(ids, edges),
        is_cycle(edges, p),
        1 <= m < p.len(),
    ensures
        position(o, p[m]) > position(o, p[0]),
    decreases m,
{
    assert(has_edge(edges, p[m - 1], p[m]));
    let k = choose|k: int| 0 <= k < edges.len() && (#[trigger] edges[k]).source_node_id == p[m - 1] && edges[k].target_node_id == p[m];
    assert(ids.contains(edges[k].target_node_id));
    lemma_edge_goes_forward(ids, edges, o, p[m - 1], p[m]);
    if m > 1 {
        lemma_cycle_rises(ids, edges, o, p, m - 1);
    }
}

/// The source of some edge that enters `x` from outside `o`.
pub open spec fn blocker(edges: Seq<Edge>, o: Seq<u128>, x: u128) -> u128 {
    edges[choose|k: int| 0 <= k < edges.len() && (#[trigger] edges[k]).target_node_id == x
        && !o.contains(edges[k].source_node_id)].source_node_id
}

/// Walking backwards from `x` along blocking edges, `n` steps.
pub open spec fn back_chain(edges: Seq<Edge>, o: Seq<u128>, x: u128, n: nat) -> Seq<u128>
    decreases n,
{
    if n == 0 {
        seq![x]
    } else {
        let c = back_chain(edges, o, x, (n - 1) as nat);
        c.push(blocker(edges, o, c[c.len() - 1]))
    }
}

proof fn lemma_back_chain(ids: Seq<u128>, edges: Seq<Edge>, o: Seq<u128>, x: u128, n: nat)
    requires
        stuck(ids, edges, o),
        endpoints_within(ids, edges),
        ids.contains(x),
        !o.contains(x),
    ensures
        back_chain(edges, o, x, n).len() == n + 1,
        forall|i: int| 0 <= i < n + 1 ==> ids.contains(#[trigger] back_chain(edges, o, x, n)[i])
            && !o.contains(back_chain(edges, o, x, n)[i]),
        forall|i: int| 0 <= i < n ==> has_edge(edges, #[trigger] back_chain(edges, o, x, n)[i + 1], back_chain(edges, o, x, n)[i]),
    decreases n,
{
    if n > 0 {
        lemma_back_chain(ids, edges, o, x, (n - 1) as nat);
        let c = back_chain(edges, o, x, (n - 1) as nat);
        let y = c[c.len() - 1];
        assert(ids.contains(y) && !o.contains(y));
        assert(!sources_placed(edges, o, y));
        let k = choose|k: int| 0 <= k < edges.len() && (#[trigger] edges[k]).target_node_id == y
            && !o.contains(edges[k].source_node_id);
        let z = blocker(edges, o, y);
        let kk = choose|k: int| 0 <= k < edges.len() && (#[trigger] edges[k]).target_node_id == y
            && !o.contains(edges[k].source_node_id);
        assert(z == edges[kk].source_node_id);
        assert(ids.contains(z));
        assert(has_edge(edges, z, y));
        let d = back_chain(edges, o, x, n);
        assert(d == c.push(z));
        assert forall|i: int| 0 <= i < n + 1 implies ids.contains(#[trigger] d[i]) && !o.contains(d[i]) by {
            if i < n {
                assert(d[i] == c[i]);
            }
        }
        assert forall|i: int| 0 <= i < n implies has_edge(edges, #[trigger] d[i + 1], d[i]) by {
            if i < n - 1 {
                assert(d[i] == c[i] && d[i + 1] == c[i + 1]);
            } else {
                assert(d[i] == y && d[i + 1] == z);
            }
        }
    }
}

/// When ordering gets stuck before placing every endpoint, the edges hold a cycle.
pub proof fn lemma_stuck_means_cycle(ids: Seq<u128>, edges: Seq<Edge>, o: Seq<u128>)
    requires
        ids.no_duplicates(),
        valid_prefix(ids, edges, o),
        stuck(ids, edges, o),
        endpoints_within(ids, edges),
        o.len() < ids.len(),
    ensures
        has_cycle(edges),
{
    let x = lemma_missing_id(ids, o);
    let n = ids.len();
    lemma_back_chain(ids, edges, o, x, n);
    let c = back_chain(edges, o, x, n);
    lemma_pigeonhole(c, ids);
    let (a, b) = choose|a: int, b: int| 0 <= a < c.len() && 0 <= b < c.len() && a != b && c[a] == c[b];
    let i = if a < b { a } else { b };
    let j = if a < b { b } else { a };
    let p = Seq::new((j - i + 1) as nat, |m: int| c[j - m]);
    assert forall|m: int| 0 <= m < p.len() - 1 implies has_edge(edges, #[trigger] p[m], p[m + 1]) by {
        assert(p[m] == c[(j - m - 1) + 1]);
        assert(p[m + 1] == c[j - m - 1]);
    }
    assert(is_cycle(edges, p));
}

/// With no topological order, some id cannot be placed: when ordering gets
/// stuck short of all ids, none exists.
pub proof fn lemma_stuck_means_unorderable(ids: Seq<u128>, edges: Seq<Edge>, o: Seq<u128>)
    requires
        ids.no_duplicates(),
        valid_prefix(ids, edges, o),
        stuck(ids, edges, o),
        o.len() < ids.len(),
    ensures
        !orderable(ids, edges),
{
    if orderable(ids, edges) {
        let t = choose|t: Seq<u128>| is_topological_order(ids, edges, t);
        lemma_full_prefix_covers(ids, t);
        let x = lemma_missing_id(ids, o);
        let pred = |y: u128| !o.contains(y);
        assert(t.contains(x));
        let ix = choose|i: int| 0 <= i < t.len() && t[i] == x;
        assert(pred(t[ix]));
        crate::seqs::lemma_first_index(t, pred);
        let j = crate::seqs::first_index(t, pred).unwrap();
        let y = t[j];
        assert(ids.contains(y));
        assert(!sources_placed(edges, o, y));
        let k = choose|k: int| 0 <= k < edges.len() && (#[trigger] edges[k]).target_node_id == y
            && !o.contains(edges[k].source_node_id);
        assert(sources_before(edges, t, j));
        let i = choose|i: int| 0 <= i < j && t[i] == edges[k].source_node_id;
        assert(!pred(t[i]));
    }
}

/// A valid prefix extended by an unplaced id whose sources are all placed
/// is still a valid prefix.
pub proof fn lemma_extend_prefix(ids: Seq<u128>, edges: Seq<Edge>, before: Seq<u128>, x: u128)
    requires
        valid_prefix(ids, edges, before),
        ids.contains(x),
        !before.contains(x),
        sources_placed(edges, before, x),
    ensures
        valid_prefix(ids, edges, before.push(x)),
{
    let o = before.push(x);
    assert(o.no_duplicates()) by {
        assert forall|a: int, b: int| 0 <= a < o.len() && 0 <= b < o.len() && a != b implies o[a] != o[b] by {
            if a < before.len() && b < before.len() {
                assert(o[a] == before[a] && o[b] == before[b]);
            } else if a < before.len() {
                assert(o[a] == before[a]);
                assert(before.contains(before[a]));
            } else {
                assert(o[b] == before[b]);
                assert(before.contains(before[b]));
            }
        }
    }
    assert forall|j: int| 0 <= j < o.len() implies ids.contains(#[trigger] o[j]) by {
        if j < before.len() {
            assert(o[j] == before[j]);
        }
    }
    assert forall|j: int| 0 <= j < o.len() implies #[trigger] sources_before(edges, o, j) by {
        if j < before.len() {
            assert(sources_before(edges, before, j));
            assert forall|k: int| 0 <= k < edges.len() && (#[trigger] edges[k]).target_node_id == o[j]
                implies exists|ii: int| 0 <= ii < j && o[ii] == edges[k].source_node_id by {
                assert(o[j] == before[j]);
                let ii = choose|ii: int| 0 <= ii < j && before[ii] == edges[k].source_node_id;
                assert(o[ii] == before[ii]);
            }
        } else {
            assert forall|k: int| 0 <= k < edges.len() && (#[trigger] edges[k]).target_node_id == o[j]
                implies exists|ii: int| 0 <= ii < j && o[ii] == edges[k].source_node_id by {
                assert(before.contains(edges[k].source_node_id));
                let ii = choose|ii: int| 0 <= ii < before.len() && before[ii] == edges[k].source_node_id;
                assert(o[ii] == before[ii]);
            }
        }
    }
}

/// In a graph without cycles, every valid prefix grows into a topological order.
proof fn lemma_prefix_completes(ids: Seq<u128>, edges: Seq<Edge>, o: Seq<u128>) -> (t: Seq<u128>)
    requires
        ids.no_duplicates(),
        valid_prefix(ids, edges, o),
        !has_cycle(edges),
        endpoints_within(ids, edges),
    ensures
        is_topological_order(ids, edges, t),
    decreases ids.len() - o.len(),
{
    lemma_prefix_bounded(ids, o);
    if o.len() == ids.len() {
        o
    } else if stuck(ids, edges, o) {
        lemma_stuck_means_cycle(ids, edges, o);
        o
    } else {
        let x = choose|x: u128| ids.contains(x) && !o.contains(x) && #[trigger] sources_placed(edges, o, x);
        lemma_extend_prefix(ids, edges, o, x);
        lemma_prefix_completes(ids, edges, o.push(x))
    }
}

/// For nodes with distinct ids whose edges join known nodes, a topological
/// order exists exactly when the edges form no cycle; so a graph run is
/// refused with `CycleDetected` exactly on a cycle.
pub proof fn lemma_orderable_iff_acyclic(ids: Seq<u128>, edges: Seq<Edge>)
    requires
        ids.no_duplicates(),
        endpoints_within(ids, edges),
    ensures
        orderable(ids, edges) <==> !has_cycle(edges),
{
    if orderable(ids, edges) {
        let t = choose|t: Seq<u128>| is_topological_order(ids, edges, t);
        lemma_order_excludes_cycle(ids, edges, t);
    }
    if !has_cycle(edges) {
        let empty = Seq::<u128>::empty();
        assert(valid_prefix(ids, edges, empty));
        let t = lemma_prefix_completes(ids, edges, empty);
        assert(is_topological_order(ids, edges, t));
    }
}

// ---------------------------------------------------------------------------
// Executable ordering.

fn vec_contains(v: &Vec<u128>, x: u128) -> (b: bool)
    ensures
        b == v@.contains(x),
{
    let mut i: usize = 0;
    while i < v.len()
        invariant
            i <= v@.len(),
            forall|j: int| 0 <= j < i ==> v@[j] != x,
        decreases v@.len() - i,
    {
        if v[i] == x {
            return true;
        }
        i = i + 1;
    }
    false
}

fn all_sources_placed(edges: &[Edge], o: &Vec<u128>, x: u128) -> (b: bool)
    ensures
        b == sources_placed(edges@, o@, x),
{
    let mut k: usize = 0;
    while k < edges.len()
        invariant
            k <= edges@.len(),
            forall|m: int| 0 <= m < k && (#[trigger] edges@[m]).target_node_id == x
                ==> o@.contains(edges@[m].source_node_id),
        decreases edges@.len() - k,
    {
        if edges[k].target_node_id == x && !vec_contains(o, edges[k].source_node_id) {
            return false;
        }
        k = k + 1;
    }
    true
}

/// Places ids in rounds: each round appends every id whose entering edges all
/// come from placed ids, until a round places nothing.
fn order_by_rounds(ids: &Vec<u128>, edges: &[Edge]) -> (o: Vec<u128>)
    ensures
        valid_prefix(ids@, edges@, o@),
        stuck(ids@, edges@, o@),
        o@.len() <= ids@.len(),
{
    let mut order: Vec<u128> = Vec::new();
    let mut done = false;
    while !done
        invariant
            valid_prefix(ids@, edges@, order@),
            order@.len() <= ids@.len(),
            done ==> stuck(ids@, edges@, order@),
        decreases ids@.len() - order@.len() + (if done { 0int } else { 1int }),
    {
        let ghost start = order@;
        let mut progress = false;
        let mut i: usize = 0;
        while i < ids.len()
            invariant
                i <= ids@.len(),
                valid_prefix(ids@, edges@, order@),
                order@.len() <= ids@.len(),
                progress ==> order@.len() > start.len(),
                !progress ==> order@ == start,
                !progress ==> forall|m: int| 0 <= m < i ==> order@.contains(#[trigger] ids@[m])
                    || !sources_placed(edges@, order@, ids@[m]),
            decreases ids@.len() - i,
        {
            let x = ids[i];
            if !vec_contains(&order, x) && all_sources_placed(edges, &order, x) {
                let ghost before = order@;
                order.push(x);
                proof {
                    assert(ids@[i as int] == x);
                    lemma_extend_prefix(ids@, edges@, before, x);
                    lemma_prefix_bounded(ids@, order@);
                }
                progress = true;
            }
            i = i + 1;
        }
        if !progress {
            done = true;
            proof {
                assert forall|x: u128| ids@.contains(x) && !order@.contains(x)
                    implies !#[trigger] sources_placed(edges@, order@, x) by {
                    let m = choose|m: int| 0 <= m < ids@.len() && ids@[m] == x;
                    assert(order@.contains(ids@[m]) || !sources_placed(edges@, order@, ids@[m]));
                }
            }
        }
    }
    order
}

/// Orders the nodes so that every edge's source runs before its target.
/// Fails with `CycleDetected` exactly when the ids repeat or no such order
/// exists (a cycle, or an edge from an unknown node into a known one).
pub fn topological_order(nodes: &[NodeInstance], edges: &[Edge]) -> (r: Result<Vec<u128>, GraphError>)
    ensures
        match r {
            Ok(o) => is_topological_order(node_ids(nodes@), edges@, o@),
            Err(e) => e is CycleDetected,
        },
        r is Ok <==> orderable(node_ids(nodes@), edges@),
{
    let mut ids: Vec<u128> = Vec::new();
    let mut i: usize = 0;
    while i < nodes.len()
        invariant
            i <= nodes@.len(),
            ids@ == node_ids(nodes@).subrange(0, i as int),
        decreases nodes@.len() - i,
    {
        ids.push(nodes[i].id);
        i = i + 1;
        assert(ids@ =~= node_ids(nodes@).subrange(0, i as int));
    }
    assert(ids@ =~= node_ids(nodes@));
    let order = order_by_rounds(&ids, edges);
    if order.len() != ids.len() {
        proof {
            if ids@.no_duplicates() {
                lemma_stuck_means_unorderable(ids@, edges@, order@);
            }
        }
        return Err(GraphError::CycleDetected);
    }
    proof {
        lemma_full_prefix_covers(ids@, order@);
        assert(is_topological_order(ids@, edges@, order@));
    }
    Ok(order)
}

/// Adding `candidate` to `edges` yields a graph with a cycle.
pub fn would_create_cycle(edges: &[Edge], candidate: &Edge) -> (b: bool)
    ensures
        b == has_cycle(edges@.push(*candidate)),
{
    let mut all: Vec<Edge> = Vec::new();
    let mut k: usize = 0;
    while k < edges.len()
        invariant
            k <= edges@.len(),
            all@ == edges@.subrange(0, k as int),
        decreases edges@.len() - k,
    {
        all.push(edges[k].clone());
        k = k + 1;
        assert(all@ =~= edges@.subrange(0, k as int));
    }
    all.push(candidate.clone());
    assert(all@ =~= edges@.push(*candidate));
    let mut ids: Vec<u128> = Vec::new();
    let mut k: usize = 0;
    while k < all.len()
        invariant
            k <= all@.len(),
            ids@.no_duplicates(),
            forall|m: int| 0 <= m < k ==> ids@.contains((#[trigger] all@[m]).source_node_id)
                && ids@.contains(all@[m].target_node_id),
        decreases all@.len() - k,
    {
        broadcast use vstd::seq_lib::lemma_seq_contains_after_push;
        let s = all[k].source_node_id;
        if !vec_contains(&ids, s) {
            ids.push(s);
        }
        let t = all[k].target_node_id;
        if !vec_contains(&ids, t) {
            ids.push(t);
        }
        k = k + 1;
    }
    let order = order_by_rounds(&ids, all.as_slice());
    proof {
        if order@.len() == ids@.len() {
            lemma_order_excludes_cycle(ids@, all@, order@);
        } else {
            lemma_stuck_means_cycle(ids@, all@, order@);
        }
    }
    order.len() != ids.len()
}

// ---------------------------------------------------------------------------
// Looking nodes up.

/// The ids of the node views, in order.
pub open spec fn view_ids(nodes: Seq<NodeView>) -> Seq<u128> {
    nodes.map_values(|n: NodeView| n.id)
}

/// The contract view of each node.
pub open spec fn views(nodes: Seq<NodeInstance>) -> Seq<NodeView> {
    nodes.map_values(|n: NodeInstance| n@)
}

pub open spec fn has_id(id: u128) -> spec_fn(NodeView) -> bool {
    |n: NodeView| n.id == id
}

/// The index of the first node with the id.
pub open spec fn node_index(nodes: Seq<NodeView>, id: u128) -> Option<int> {
    first_index(nodes, has_id(id))
}

pub proof fn lemma_views_update(nodes: Seq<NodeInstance>, i: int, n: NodeInstance)
    requires
        0 <= i < nodes.len(),
    ensures
        views(nodes.update(i, n)) == views(nodes).update(i, n@),
{
    assert(views(nodes.update(i, n)) =~= views(nodes).update(i, n@));
}

/// Finds the first node with the id.
pub fn find_node(nodes: &[NodeInstance], id: u128) -> (r: Option<usize>)
    ensures
        match r {
            Some(i) => node_index(views(nodes@), id) == Some(i as int) && i < nodes@.len(),
            None => node_index(views(nodes@), id) is None,
        },
{
    let ghost vs = views(nodes@);
    let mut i: usize = 0;
    while i < nodes.len()
        invariant
            i <= nodes@.len(),
            vs == views(nodes@),
            forall|j: int| 0 <= j < i ==> !has_id(id)(#[trigger] vs[j]),
        decreases nodes@.len() - i,
    {
        if nodes[i].id == id {
            proof {
                lemma_first_index_at(vs, has_id(id), i as int);
            }
            return Some(i);
        }
        i = i + 1;
    }
    proof {
        lemma_first_index_none(vs, has_id(id));
    }
    None
}

// ---------------------------------------------------------------------------
// Validating connections.

/// The rejection of two declarations, What before How.
pub open spec fn ports_rejection(source: PortDeclaration, target: PortDeclaration) -> Option<(Axis, Seq<char>, Seq<char>)> {
    match what_rejection(source.what, target.what) {
        Some(rh) => Some((Axis::What, rh.0, rh.1)),
        None => match how_rejection(source.how, target.how) {
            Some(rh) => Some((Axis::How, rh.0, rh.1)),
            None => None,
        },
    }
}

/// Why two node ports cannot be connected; `None` when they can.
pub open spec fn port_resolution_error(s: NodeView, sp: Seq<char>, t: NodeView, tp: Seq<char>) -> Option<GraphErrorView> {
    if !kind_has_port(s.kind, sp) {
        Some(GraphErrorView::PortNotDeclared { node_id: s.id, port: sp })
    } else if !kind_has_port(t.kind, tp) {
        Some(GraphErrorView::PortNotDeclared { node_id: t.id, port: tp })
    } else if decl_in(s.port_decls, sp) is None {
        Some(GraphErrorView::PortNotDeclared { node_id: s.id, port: sp })
    } else if decl_in(t.port_decls, tp) is None {
        Some(GraphErrorView::PortNotDeclared { node_id: t.id, port: tp })
    } else {
        match ports_rejection(decl_in(s.port_decls, sp).unwrap(), decl_in(t.port_decls, tp).unwrap()) {
            Some(r) => Some(GraphErrorView::IncompatiblePorts { axis: r.0, reason: r.1, hint: r.2 }),
            None => None,
        }
    }
}

pub open spec fn error_of(r: Result<(), GraphError>) -> Option<GraphErrorView> {
    match r {
        Ok(()) => None,
        Err(e) => Some(e@),
    }
}

fn port_resolution(source: &NodeInstance, source_port: &str, target: &NodeInstance, target_port: &str) -> (r: Result<(), GraphError>)
    ensures
        error_of(r) == port_resolution_error(source@, source_port@, target@, target_port@),
{
    if !source.has_port(source_port) {
        return Err(GraphError::PortNotDeclared { node_id: source.id, port: source_port.to_owned() });
    }
    if !target.has_port(target_port) {
        return Err(GraphError::PortNotDeclared { node_id: target.id, port: target_port.to_owned() });
    }
    let source_decl = match source.port_decl(source_port) {
        Some(d) => d,
        None => {
            return Err(GraphError::PortNotDeclared { node_id: source.id, port: source_port.to_owned() });
        },
    };
    let target_decl = match target.port_decl(target_port) {
        Some(d) => d,
        None => {
            return Err(GraphError::PortNotDeclared { node_id: target.id, port: target_port.to_owned() });
        },
    };
    match resolve_ports(source_decl, target_decl) {
        ResolutionOutcome::Compatible => Ok(()),
        ResolutionOutcome::Reject { axis, reason, hint } => Err(GraphError::IncompatiblePorts { axis, reason, hint }),
    }
}

/// Why the endpoints of an edge cannot be connected; `None` when they can.
pub open spec fn compatibility_error(nodes: Seq<NodeView>, c: Edge) -> Option<GraphErrorView> {
    match node_index(nodes, c.source_node_id) {
        None => Some(GraphErrorView::NodeNotFound(c.source_node_id)),
        Some(si) => match node_index(nodes, c.target_node_id) {
            None => Some(GraphErrorView::NodeNotFound(c.target_node_id)),
            Some(ti) => port_resolution_error(nodes[si], c.source_port@, nodes[ti], c.target_port@),
        },
    }
}

fn validate_port_compatibility(nodes: &[NodeInstance], candidate: &Edge) -> (r: Result<(), GraphError>)
    ensures
        error_of(r) == compatibility_error(views(nodes@), *candidate),
{
    let si = match find_node(nodes, candidate.source_node_id) {
        Some(i) => i,
        None => {
            return Err(GraphError::NodeNotFound(candidate.source_node_id));
        },
    };
    let ti = match find_node(nodes, candidate.target_node_id) {
        Some(i) => i,
        None => {
            return Err(GraphError::NodeNotFound(candidate.target_node_id));
        },
    };
    port_resolution(&nodes[si], candidate.source_port.as_str(), &nodes[ti], candidate.target_port.as_str())
}

/// Some edge already enters the same port of the same node.
pub open spec fn target_taken(edges: Seq<Edge>, c: Edge) -> bool {
    exists|k: int| 0 <= k < edges.len() && (#[trigger] edges[k]).target_node_id == c.target_node_id
        && edges[k].target_port@ == c.target_port@
}

/// Why a new edge is refused, checked in this order: port names, direction,
/// self loop, unknown endpoints, an occupied target port, a cycle, then the
/// ports' declarations. `None` when it is accepted.
pub open spec fn new_edge_error(nodes: Seq<NodeView>, edges: Seq<Edge>, c: Edge) -> Option<GraphErrorView> {
    if !valid_port(c.source_port@) || !valid_port(c.target_port@) {
        Some(GraphErrorView::InvalidPort(c.source_port@ + " -> "@ + c.target_port@))
    } else if c.source_port@ != "out"@ || c.target_port@ != "in"@ {
        Some(GraphErrorView::InvalidPort(
            "v2 connections must be out -> in (got "@ + c.source_port@ + " -> "@ + c.target_port@ + ")"@,
        ))
    } else if c.source_node_id == c.target_node_id {
        Some(GraphErrorView::SelfLoop)
    } else if node_index(nodes, c.source_node_id) is None {
        Some(GraphErrorView::NodeNotFound(c.source_node_id))
    } else if node_index(nodes, c.target_node_id) is None {
        Some(GraphErrorView::NodeNotFound(c.target_node_id))
    } else if target_taken(edges, c) {
        Some(GraphErrorView::DuplicateTarget { node_id: c.target_node_id, port: c.target_port@ })
    } else if has_cycle(edges.push(c)) {
        Some(GraphErrorView::CycleDetected)
    } else {
        compatibility_error(nodes, c)
    }
}

/// A new edge is accepted exactly when it runs from an `out` port to an `in`
/// port between two distinct existing nodes, its target input is free, it
/// closes no cycle and the two ports' declarations are compatible. Edges
/// already leaving its source node play no part: an output may feed any
/// number of inputs.
pub proof fn lemma_new_edge_accepted(nodes: Seq<NodeView>, edges: Seq<Edge>, c: Edge)
    ensures
        new_edge_error(nodes, edges, c) is None <==> {
            &&& c.source_port@ == "out"@
            &&& c.target_port@ == "in"@
            &&& c.source_node_id != c.target_node_id
            &&& node_index(nodes, c.source_node_id) is Some
            &&& node_index(nodes, c.target_node_id) is Some
            &&& !target_taken(edges, c)
            &&& !has_cycle(edges.push(c))
            &&& compatibility_error(nodes, c) is None
        },
{
}

fn target_port_taken(edges: &[Edge], candidate: &Edge) -> (b: bool)
    ensures
        b == target_taken(edges@, *candidate),
{
    let mut k: usize = 0;
    while k < edges.len()
        invariant
            k <= edges@.len(),
            forall|m: int| 0 <= m < k ==> !((#[trigger] edges@[m]).target_node_id == candidate.target_node_id
                && edges@[m].target_port@ == candidate.target_port@),
        decreases edges@.len() - k,
    {
        if edges[k].target_node_id == candidate.target_node_id && edges[k].target_port == candidate.target_port {
            return true;
        }
        k = k + 1;
    }
    false
}

/// Checks a new edge against the nodes and the existing edges.
pub fn validate_new_edge(nodes: &[NodeInstance], edges: &[Edge], candidate: &Edge) -> (r: Result<(), GraphError>)
    ensures
        error_of(r) == new_edge_error(views(nodes@), edges@, *candidate),
{
    proof {
        reveal_strlit("out");
        reveal_strlit("in");
    }
    if !crate::runtime::edge::is_valid_port(candidate.source_port.as_str())
        || !crate::runtime::edge::is_valid_port(candidate.target_port.as_str()) {
        let m = candidate.source_port.clone().concat(" -> ").concat(candidate.target_port.as_str());
        return Err(GraphError::InvalidPort(m));
    }
    if !str_eq(candidate.source_port.as_str(), PORT_OUT) || !str_eq(candidate.target_port.as_str(), PORT_IN) {
        let m = String::from_str("v2 connections must be out -> in (got ").concat(candidate.source_port.as_str()).concat(
            " -> ",
        ).concat(candidate.target_port.as_str()).concat(")");
        return Err(GraphError::InvalidPort(m));
    }
    if candidate.source_node_id == candidate.target_node_id {
        return Err(GraphError::SelfLoop);
    }
    if find_node(nodes, candidate.source_node_id).is_none() {
        return Err(GraphError::NodeNotFound(candidate.source_node_id));
    }
    if find_node(nodes, candidate.target_node_id).is_none() {
        return Err(GraphError::NodeNotFound(candidate.target_node_id));
    }
    if target_port_taken(edges, candidate) {
        return Err(GraphError::DuplicateTarget {
            node_id: candidate.target_node_id,
            port: candidate.target_port.clone(),
        });
    }
    if would_create_cycle(edges, candidate) {
        return Err(GraphError::CycleDetected);
    }
    validate_port_compatibility(nodes, candidate)
}

pub open spec fn cv(compatible: bool, axis: Option<Axis>, reason: Option<Seq<char>>, hint: Option<Seq<char>>) -> ConnectionValidationView {
    ConnectionValidationView { compatible, axis, reason, hint }
}

/// The answer to a proposed connection: a verdict for wrong directions,
/// self loops and incompatible declarations; an error for unknown nodes and
/// undeclared ports.
pub open spec fn connection_outcome(nodes: Seq<NodeView>, sid: u128, sp: Seq<char>, tid: u128, tp: Seq<char>) -> Result<ConnectionValidationView, GraphErrorView> {
    if sp != "out"@ || tp != "in"@ {
        Ok(cv(false, None, Some("Connections must be out → in (got "@ + sp + " → "@ + tp + ")"@),
            Some("Drag from an output handle (right) to an input handle (left)."@)))
    } else if sid == tid {
        Ok(cv(false, None, Some("Cannot connect a node to itself."@), Some("Connect two different nodes."@)))
    } else {
        match node_index(nodes, sid) {
            None => Err(GraphErrorView::NodeNotFound(sid)),
            Some(si) => match node_index(nodes, tid) {
                None => Err(GraphErrorView::NodeNotFound(tid)),
                Some(ti) => match port_resolution_error(nodes[si], sp, nodes[ti], tp) {
                    None => Ok(cv(true, None, None, None)),
                    Some(GraphErrorView::IncompatiblePorts { axis, reason, hint }) => Ok(cv(false, Some(axis), Some(reason), Some(hint))),
                    Some(e) => Err(e),
                },
            },
        }
    }
}

pub open spec fn validation_view(r: Result<ConnectionValidation, GraphError>) -> Result<ConnectionValidationView, GraphErrorView> {
    match r {
        Ok(v) => Ok(v@),
        Err(e) => Err(e@),
    }
}

pub fn validate_connection(
    nodes: &[NodeInstance],
    source_node_id: u128,
    source_port: &str,
    target_node_id: u128,
    target_port: &str,
) -> (r: Result<ConnectionValidation, GraphError>)
    ensures
        validation_view(r) == connection_outcome(views(nodes@), source_node_id, source_port@, target_node_id, target_port@),
{
    proof {
        reveal_strlit("out");
        reveal_strlit("in");
    }
    if !str_eq(source_port, PORT_OUT) || !str_eq(target_port, PORT_IN) {
        let reason = String::from_str("Connections must be out → in (got ").concat(source_port).concat(" → ").concat(
            target_port,
        ).concat(")");
        return Ok(ConnectionValidation {
            compatible: false,
            axis: None,
            reason: Some(reason),
            hint: Some(String::from_str("Drag from an output handle (right) to an input handle (left).")),
        });
    }
    if source_node_id == target_node_id {
        return Ok(ConnectionValidation {
            compatible: false,
            axis: None,
            reason: Some(String::from_str("Cannot connect a node to itself.")),
            hint: Some(String::from_str("Connect two different nodes.")),
        });
    }
    let si = match find_node(nodes, source_node_id) {
        Some(i) => i,
        None => {
            return Err(GraphError::NodeNotFound(source_node_id));
        },
    };
    let ti = match find_node(nodes, target_node_id) {
        Some(i) => i,
        None => {
            return Err(GraphError::NodeNotFound(target_node_id));
        },
    };
    match port_resolution(&nodes[si], source_port, &nodes[ti], target_port) {
        Ok(()) => Ok(ConnectionValidation { compatible: true, axis: None, reason: None, hint: None }),
        Err(GraphError::IncompatiblePorts { axis, reason, hint }) => Ok(ConnectionValidation {
            compatible: false,
            axis: Some(axis),
            reason: Some(reason),
            hint: Some(hint),
        }),
        Err(other) => Err(other),
    }
}

/// Why preset ids do not name a declaration, as `PortDeclaration::from_ids` reports it.
pub open spec fn ids_error(what: Seq<char>, how: Seq<char>) -> Option<Seq<char>> {
    if crate::runtime::protocol::presets::what_from_id(what) is None {
        Some("unknown What preset: "@ + what)
    } else if crate::runtime::protocol::presets::how_from_id(how) is None {
        Some("unknown How preset: "@ + how)
    } else {
        None
    }
}

pub open spec fn decl_of_ids(what: Seq<char>, how: Seq<char>) -> PortDeclaration {
    PortDeclaration {
        what: crate::runtime::protocol::presets::what_from_id(what).unwrap(),
        how: crate::runtime::protocol::presets::how_from_id(how).unwrap(),
    }
}

/// The verdict on two declarations given by preset ids.
pub open spec fn declarations_outcome(sw: Seq<char>, sh: Seq<char>, tw: Seq<char>, th: Seq<char>) -> ConnectionValidationView {
    let hint = "Use presets: any, text, json, bytes and single, stream, request-response, broadcast."@;
    if ids_error(sw, sh) is Some {
        cv(false, None, ids_error(sw, sh), Some(hint))
    } else if ids_error(tw, th) is Some {
        cv(false, None, ids_error(tw, th), Some(hint))
    } else {
        match ports_rejection(decl_of_ids(sw, sh), decl_of_ids(tw, th)) {
            None => cv(true, None, None, None),
            Some(r) => cv(false, Some(r.0), Some(r.1), Some(r.2)),
        }
    }
}

pub fn resolve_declarations(source_what: &str, source_how: &str, target_what: &str, target_how: &str) -> (v: ConnectionValidation)
    ensures
        v@ == declarations_outcome(source_what@, source_how@, target_what@, target_how@),
{
    let source = match PortDeclaration::from_ids(source_what, source_how) {
        Ok(decl) => decl,
        Err(reason) => {
            return ConnectionValidation {
                compatible: false,
                axis: None,
                reason: Some(reason),
                hint: Some(String::from_str(
                    "Use presets: any, text, json, bytes and single, stream, request-response, broadcast.",
                )),
            };
        },
    };
    let target = match PortDeclaration::from_ids(target_what, target_how) {
        Ok(decl) => decl,
        Err(reason) => {
            return ConnectionValidation {
                compatible: false,
                axis: None,
                reason: Some(reason),
                hint: Some(String::from_str(
                    "Use presets: any, text, json, bytes and single, stream, request-response, broadcast.",
                )),
            };
        },
    };
    match resolve_ports(&source, &target) {
        ResolutionOutcome::Compatible => ConnectionValidation { compatible: true, axis: None, reason: None, hint: None },
        ResolutionOutcome::Reject { axis, reason, hint } => ConnectionValidation {
            compatible: false,
            axis: Some(axis),
            reason: Some(reason),
            hint: Some(hint),
        },
    }
}

// ---------------------------------------------------------------------------
// Running a graph.

/// The edge enters the `in` port of the node.
pub open spec fn feeds(id: u128) -> spec_fn(Edge) -> bool {
    |e: Edge| e.target_node_id == id && e.target_port@ == "in"@
}

/// At least two edges enter the `in` port of the node.
pub open spec fn fed_twice(edges: Seq<Edge>, id: u128) -> bool {
    exists|a: int, b: int| 0 <= a < b < edges.len() && feeds(id)(#[trigger] edges[a]) && feeds(id)(#[trigger] edges[b])
}

/// The payload wired into a node: none without an incoming edge; the
/// upstream node's last output with exactly one; an error with two or more,
/// an unknown upstream node, or an upstream node without output.
pub open spec fn payload_outcome(nodes: Seq<NodeView>, edges: Seq<Edge>, id: u128) -> Result<Option<Seq<char>>, GraphErrorView> {
    match first_index(edges, feeds(id)) {
        None => Ok(None),
        Some(k) => if fed_twice(edges, id) {
            Err(GraphErrorView::DuplicateTarget { node_id: id, port: "in"@ })
        } else {
            let src = edges[k].source_node_id;
            match node_index(nodes, src) {
                None => Err(GraphErrorView::NodeNotFound(src)),
                Some(i) => match nodes[i].last_output {
                    None => Err(GraphErrorView::MissingUpstreamOutput(src)),
                    Some(p) => Ok(Some(p)),
                },
            }
        },
    }
}

/// The delivery along the first edge into a node, if any.
pub open spec fn delivery_outcome(nodes: Seq<NodeView>, edges: Seq<Edge>, id: u128) -> Result<Option<DeliveryView>, GraphErrorView> {
    match first_index(edges, feeds(id)) {
        None => Ok(None),
        Some(k) => {
            let e = edges[k];
            match node_index(nodes, e.source_node_id) {
                None => Err(GraphErrorView::NodeNotFound(e.source_node_id)),
                Some(i) => match nodes[i].last_output {
                    None => Err(GraphErrorView::MissingUpstreamOutput(e.source_node_id)),
                    Some(p) => Ok(Some(DeliveryView {
                        edge_id: e.id,
                        envelope: EnvelopeView {
                            source_node_id: e.source_node_id,
                            source_port: e.source_port@,
                            sequence: 1,
                            payload: p,
                        },
                    })),
                },
            }
        },
    }
}

pub open spec fn payload_view(r: Result<Option<String>, GraphError>) -> Result<Option<Seq<char>>, GraphErrorView> {
    match r {
        Ok(Some(p)) => Ok(Some(p@)),
        Ok(None) => Ok(None),
        Err(e) => Err(e@),
    }
}

pub fn incoming_payload(target_id: u128, edges: &[Edge], nodes: &[NodeInstance]) -> (r: Result<Option<String>, GraphError>)
    ensures
        payload_view(r) == payload_outcome(views(nodes@), edges@, target_id),
{
    proof {
        reveal_strlit("in");
    }
    let mut first: Option<usize> = None;
    let mut k: usize = 0;
    while k < edges.len()
        invariant
            k <= edges@.len(),
            first is None ==> forall|j: int| 0 <= j < k ==> !feeds(target_id)(#[trigger] edges@[j]),
            first matches Some(f) ==> f < k && feeds(target_id)(edges@[f as int])
                && forall|j: int| 0 <= j < k && j != f ==> !feeds(target_id)(#[trigger] edges@[j]),
        decreases edges@.len() - k,
    {
        if edges[k].target_node_id == target_id && str_eq(edges[k].target_port.as_str(), PORT_IN) {
            match first {
                Some(f) => {
                    proof {
                        assert(feeds(target_id)(edges@[f as int]) && feeds(target_id)(edges@[k as int]));
                        assert(fed_twice(edges@, target_id));
                        let ff = f as int;
                        assert forall|j: int| 0 <= j < ff implies !feeds(target_id)(#[trigger] edges@[j]) by {}
                        lemma_first_index_at(edges@, feeds(target_id), ff);
                    }
                    return Err(GraphError::DuplicateTarget { node_id: target_id, port: String::from_str(PORT_IN) });
                },
                None => {
                    first = Some(k);
                },
            }
        }
        k = k + 1;
    }
    match first {
        None => {
            proof {
                lemma_first_index_none(edges@, feeds(target_id));
            }
            Ok(None)
        },
        Some(f) => {
            proof {
                let ff = f as int;
                assert forall|j: int| 0 <= j < ff implies !feeds(target_id)(#[trigger] edges@[j]) by {}
                lemma_first_index_at(edges@, feeds(target_id), ff);
                if fed_twice(edges@, target_id) {
                    let (a, b) = choose|a: int, b: int| 0 <= a < b < edges@.len() && feeds(target_id)(#[trigger] edges@[a])
                        && feeds(target_id)(#[trigger] edges@[b]);
                    assert(a == ff && b == ff);
                }
            }
            let src = edges[f].source_node_id;
            let i = match find_node(nodes, src) {
                Some(i) => i,
                None => {
                    return Err(GraphError::NodeNotFound(src));
                },
            };
            match &nodes[i].last_output {
                None => Err(GraphError::MissingUpstreamOutput(src)),
                Some(p) => Ok(Some(p.clone())),
            }
        },
    }
}

pub open spec fn envelope_view(r: Result<Option<(u128, MessageEnvelope)>, GraphError>) -> Result<Option<DeliveryView>, GraphErrorView> {
    match r {
        Ok(Some(d)) => Ok(Some(MessageDelivery { edge_id: d.0, envelope: d.1 }@)),
        Ok(None) => Ok(None),
        Err(e) => Err(e@),
    }
}

pub fn wired_input_envelope(target_id: u128, edges: &[Edge], nodes: &[NodeInstance]) -> (r: Result<Option<(u128, MessageEnvelope)>, GraphError>)
    ensures
        envelope_view(r) == delivery_outcome(views(nodes@), edges@, target_id),
{
    proof {
        reveal_strlit("in");
    }
    let mut k: usize = 0;
    while k < edges.len()
        invariant
            k <= edges@.len(),
            forall|j: int| 0 <= j < k ==> !feeds(target_id)(#[trigger] edges@[j]),
        decreases edges@.len() - k,
    {
        if edges[k].target_node_id == target_id && str_eq(edges[k].target_port.as_str(), PORT_IN) {
            proof {
                lemma_first_index_at(edges@, feeds(target_id), k as int);
            }
            let edge = &edges[k];
            let i = match find_node(nodes, edge.source_node_id) {
                Some(i) => i,
                None => {
                    return Err(GraphError::NodeNotFound(edge.source_node_id));
                },
            };
            let payload = match &nodes[i].last_output {
                Some(p) => p.clone(),
                None => {
                    return Err(GraphError::MissingUpstreamOutput(edge.source_node_id));
                },
            };
            return Ok(Some((edge.id, MessageEnvelope::single_shot(edge.source_node_id, edge.source_port.clone(), payload))));
        }
        k = k + 1;
    }
    proof {
        lemma_first_index_none(edges@, feeds(target_id));
    }
    Ok(None)
}

/// One node of a graph run: its wired payload, its run, then the delivery
/// along its incoming edge. Gives the nodes afterwards and the step's result.
pub open spec fn graph_step(nodes: Seq<NodeView>, edges: Seq<Edge>, id: u128) -> (Seq<NodeView>, Result<(RunResultView, Option<DeliveryView>), GraphErrorView>) {
    match payload_outcome(nodes, edges, id) {
        Err(e) => (nodes, Err(e)),
        Ok(wired) => match node_index(nodes, id) {
            None => (nodes, Err(GraphErrorView::NodeNotFound(id))),
            Some(i) => match run_refusal(nodes[i]) {
                Some(e) => (nodes, Err(GraphErrorView::Runtime(e))),
                None => {
                    let after = nodes.update(i, after_run(nodes[i], wired));
                    let result = RunResultView {
                        node_id: nodes[i].id,
                        output: after[i].last_output.unwrap(),
                        lifecycle: after[i].lifecycle,
                    };
                    match delivery_outcome(after, edges, id) {
                        Err(e) => (after, Err(e)),
                        Ok(d) => (after, Ok((result, d))),
                    }
                },
            },
        },
    }
}

/// Running the nodes of `order` one after another, stopping at the first error.
pub open spec fn run_in_order(nodes: Seq<NodeView>, edges: Seq<Edge>, order: Seq<u128>) -> (Seq<NodeView>, Result<(Seq<RunResultView>, Seq<DeliveryView>), GraphErrorView>)
    decreases order.len(),
{
    if order.len() == 0 {
        (nodes, Ok((seq![], seq![])))
    } else {
        let (before, prior) = run_in_order(nodes, edges, order.drop_last());
        match prior {
            Err(e) => (before, Err(e)),
            Ok((results, deliveries)) => {
                let (after, step) = graph_step(before, edges, order.last());
                match step {
                    Err(e) => (after, Err(e)),
                    Ok((result, delivery)) => (after, Ok((
                        results.push(result),
                        match delivery {
                            Some(d) => deliveries.push(d),
                            None => deliveries,
                        },
                    ))),
                }
            },
        }
    }
}

/// Once a run has failed, running further nodes changes nothing.
pub proof fn lemma_failed_run_stops(nodes: Seq<NodeView>, edges: Seq<Edge>, order: Seq<u128>, i: int, n: int)
    requires
        0 <= i <= n <= order.len(),
        run_in_order(nodes, edges, order.subrange(0, i)).1 is Err,
    ensures
        run_in_order(nodes, edges, order.subrange(0, n)) == run_in_order(nodes, edges, order.subrange(0, i)),
    decreases n - i,
{
    if n > i {
        lemma_failed_run_stops(nodes, edges, order, i, n - 1);
        assert(order.subrange(0, n).drop_last() =~= order.subrange(0, n - 1));
    }
}

pub open spec fn run_result_views(v: Seq<RunResult>) -> Seq<RunResultView> {
    v.map_values(|r: RunResult| r@)
}

pub open spec fn delivery_views(v: Seq<MessageDelivery>) -> Seq<DeliveryView> {
    v.map_values(|d: MessageDelivery| d@)
}

pub open spec fn graph_run_view(r: Result<GraphRunResult, GraphError>) -> Result<(Seq<RunResultView>, Seq<DeliveryView>), GraphErrorView> {
    match r {
        Ok(g) => Ok((run_result_views(g.node_results@), delivery_views(g.deliveries@))),
        Err(e) => Err(e@),
    }
}

/// A graph run: refused with `CycleDetected` and nothing run when the nodes
/// have no topological order; otherwise the nodes run in some topological
/// order, each on the output wired into it.
pub open spec fn graph_run_outcome(
    before: Seq<NodeView>,
    edges: Seq<Edge>,
    after: Seq<NodeView>,
    r: Result<(Seq<RunResultView>, Seq<DeliveryView>), GraphErrorView>,
) -> bool {
    if !orderable(view_ids(before), edges) {
        after == before && r == Err::<(Seq<RunResultView>, Seq<DeliveryView>), GraphErrorView>(GraphErrorView::CycleDetected)
    } else {
        exists|o: Seq<u128>| #[trigger] is_topological_order(view_ids(before), edges, o)
            && run_in_order(before, edges, o) == (after, r)
    }
}

pub fn run_graph(nodes: &mut Vec<NodeInstance>, edges: &[Edge]) -> (r: Result<GraphRunResult, GraphError>)
    ensures
        graph_run_outcome(views(old(nodes)@), edges@, views(final(nodes)@), graph_run_view(r)),
{
    crate::runtime::runner::GraphRunner::run_graph_observed(nodes, edges, &mut crate::runtime::runner::NoopObserver::new())
}

} // verus!
