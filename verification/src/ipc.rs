use vstd::prelude::*;

use crate::runtime::envelope::MessageEnvelope;
use crate::runtime::graph::{decl_of_ids, ids_error};
use crate::runtime::lifecycle::{Lifecycle, LifecycleMode};
use crate::runtime::node::{opt_view, NodeKind, Position, HUNDRED_BITS};
use crate::runtime::protocol::presets::{str_eq, PortDeclaration};
use crate::runtime::edge::Edge;
use crate::runtime::graph::{
    delivery_views, has_id, is_topological_order, orderable, run_result_views, topological_order, view_ids,
    GraphErrorView, GraphRunResult, delivery_outcome, incoming_payload, node_index, payload_outcome, views, wired_input_envelope, DeliveryView,
    MessageDelivery,
};
use crate::runtime::node::{
    after_run, kind_output, run_outcome, run_refusal, NodeInstance, NodeView, RunResult, RunResultView,
    RuntimeErrorView,
};
use crate::runtime::lifecycle::success_state;
use crate::runtime::runner::{node_run_events, GraphRunner, LifecycleObserver, ObserverEvent, PacedObserver};
use crate::seqs::{first_index, lemma_first_index, lemma_first_index_at, lemma_first_index_none};
use crate::state::{AppError, AppErrorView};

verus! {

/// A lifecycle change of a node, as the front end is told of it.
#[derive(Clone, Copy, Debug, PartialEq, Eq)]
pub struct LifecycleEvent {
    pub node_id: u128,
    pub lifecycle: Lifecycle,
    pub previous: Option<Lifecycle>,
    pub lifecycle_mode: LifecycleMode,
}

/// The output of a node run.
#[derive(Debug)]
pub struct OutputEvent {
    pub node_id: u128,
    pub output: String,
}

/// A message handed across an edge.
#[derive(Debug)]
pub struct MessageDeliveredEvent {
    pub edge_id: u128,
    pub envelope: MessageEnvelope,
}

/// What an update check found.
#[derive(Debug)]
pub struct UpdateInfo {
    pub available: bool,
    pub current_version: String,
    pub latest_version: Option<String>,
    pub notes: Option<String>,
}

/// A phase of checking for or installing an update.
#[derive(Debug)]
pub struct UpdateStatusEvent {
    pub phase: String,
    pub message: Option<String>,
}

/// A request to replace a node's kind.
#[derive(Debug)]
pub struct UpdateNodeRequest {
    pub id: u128,
    pub kind: String,
    pub value: Option<String>,
    pub input: Option<String>,
}

/// A request to check a connection.
#[derive(Debug)]
pub struct ValidateConnectionRequest {
    pub source_node_id: u128,
    pub source_port: String,
    pub target_node_id: u128,
    pub target_port: String,
}

/// A port declaration as the front end sends it: two preset ids.
#[derive(Debug)]
pub struct PortDeclInput {
    pub what: String,
    pub how: String,
}

/// A request to set declarations on a node's ports.
#[derive(Debug)]
pub struct UpdateNodePortsRequest {
    pub id: u128,
    pub port_decls: Vec<(String, PortDeclInput)>,
}

/// A request to set a node's lifecycle mode.
#[derive(Debug)]
pub struct UpdateNodeModeRequest {
    pub id: u128,
    pub mode: String,
}

/// A request to connect two ports.
#[derive(Debug)]
pub struct AddEdgeRequest {
    pub source_node_id: u128,
    pub source_port: String,
    pub target_node_id: u128,
    pub target_port: String,
}

/// The text, or the default when there is none.
pub open spec fn text_or(t: Option<Seq<char>>, default: Seq<char>) -> Seq<char> {
    match t {
        Some(s) => s,
        None => default,
    }
}

/// The kind a request names: "constant" (value "hello" by default),
/// "json_constant" (value "{}" by default) or "echo" (empty input by default).
pub open spec fn requested_kind(kind: Seq<char>, value: Option<Seq<char>>, input: Option<Seq<char>>, k: NodeKind) -> bool {
    if kind == "constant"@ {
        k matches NodeKind::Constant { value: v } && v@ == text_or(value, "hello"@)
    } else if kind == "json_constant"@ {
        k matches NodeKind::JsonConstant { value: v } && v@ == text_or(value, "{}"@)
    } else if kind == "echo"@ {
        k matches NodeKind::Echo { input: i } && i@ == text_or(input, ""@)
    } else {
        false
    }
}

/// What a node request yields for each kind name: a constant holds the
/// request's value, and "hello" only when the request has none; a JSON
/// constant holds the value, and "{}" only when it has none; an Echo holds
/// the request's input, and "" only when it has none. A constant never
/// reads the input field, and an Echo never reads the value field.
pub proof fn lemma_request_fields(
    kind: Seq<char>,
    value: Option<Seq<char>>,
    input: Option<Seq<char>>,
    other: Option<Seq<char>>,
    k: NodeKind,
)
    requires
        requested_kind(kind, value, input, k),
    ensures
        kind == "constant"@ ==> (k matches NodeKind::Constant { value: v } && match value {
            Some(s) => v@ == s,
            None => v@ == "hello"@,
        }),
        kind == "json_constant"@ ==> (k matches NodeKind::JsonConstant { value: v } && match value {
            Some(s) => v@ == s,
            None => v@ == "{}"@,
        }),
        kind == "echo"@ ==> (k matches NodeKind::Echo { input: i } && match input {
            Some(s) => i@ == s,
            None => i@ == ""@,
        }),
        kind == "constant"@ || kind == "json_constant"@ ==> requested_kind(kind, value, other, k),
        kind == "echo"@ ==> requested_kind(kind, other, input, k),
        known_kind(kind),
{
    reveal_strlit("constant");
    reveal_strlit("json_constant");
    reveal_strlit("echo");
    assert("constant"@.len() != "json_constant"@.len());
    assert("constant"@.len() != "echo"@.len());
    assert("json_constant"@.len() != "echo"@.len());
}

/// The kind names that a request may use.
pub open spec fn known_kind(kind: Seq<char>) -> bool {
    kind == "constant"@ || kind == "json_constant"@ || kind == "echo"@
}

fn text_or_default(t: Option<String>, default: &str) -> (s: String)
    ensures
        s@ == text_or(opt_view(t), default@),
{
    match t {
        Some(s) => s,
        None => default.to_owned(),
    }
}

/// Parses the kind of a node request.
pub fn parse_kind(kind: &str, value: Option<String>, input: Option<String>) -> (r: Result<NodeKind, String>)
    ensures
        match r {
            Ok(k) => requested_kind(kind@, opt_view(value), opt_view(input), k),
            Err(m) => !known_kind(kind@) && m@ == "unknown node kind: "@ + kind@,
        },
{
    if str_eq(kind, "constant") {
        Ok(NodeKind::Constant { value: text_or_default(value, "hello") })
    } else if str_eq(kind, "json_constant") {
        Ok(NodeKind::JsonConstant { value: text_or_default(value, "{}") })
    } else if str_eq(kind, "echo") {
        Ok(NodeKind::Echo { input: text_or_default(input, "") })
    } else {
        Err(String::from_str("unknown node kind: ").concat(kind))
    }
}

/// Parses a lifecycle mode: "ephemeral" or "persistent".
pub fn parse_lifecycle_mode(mode: &str) -> (r: Result<LifecycleMode, String>)
    ensures
        match r {
            Ok(m) => (mode@ == "ephemeral"@ && m == LifecycleMode::Ephemeral) || (mode@ == "persistent"@ && m
                == LifecycleMode::Persistent),
            Err(e) => mode@ != "ephemeral"@ && mode@ != "persistent"@ && e@ == "unknown lifecycle mode: "@ + mode@,
        },
{
    if str_eq(mode, "ephemeral") {
        Ok(LifecycleMode::Ephemeral)
    } else if str_eq(mode, "persistent") {
        Ok(LifecycleMode::Persistent)
    } else {
        Err(String::from_str("unknown lifecycle mode: ").concat(mode))
    }
}

/// The position a node request asks for; a missing coordinate is 100.
pub fn request_position(x_bits: Option<u64>, y_bits: Option<u64>) -> (p: Position)
    ensures
        p.x_bits == (match x_bits {
            Some(x) => x,
            None => HUNDRED_BITS,
        }),
        p.y_bits == (match y_bits {
            Some(y) => y,
            None => HUNDRED_BITS,
        }),
{
    Position {
        x_bits: match x_bits {
            Some(x) => x,
            None => HUNDRED_BITS,
        },
        y_bits: match y_bits {
            Some(y) => y,
            None => HUNDRED_BITS,
        },
    }
}

/// The port name and the two preset ids of each requested declaration.
pub open spec fn input_views(inputs: Seq<(String, PortDeclInput)>) -> Seq<(Seq<char>, Seq<char>, Seq<char>)> {
    inputs.map_values(|e: (String, PortDeclInput)| (e.0@, e.1.what@, e.1.how@))
}

pub open spec fn unparsable() -> spec_fn((Seq<char>, Seq<char>, Seq<char>)) -> bool {
    |e: (Seq<char>, Seq<char>, Seq<char>)| ids_error(e.1, e.2) is Some
}

/// Parses requested port declarations in order; the first pair of ids that
/// names no preset refuses the request with its error.
pub fn parse_port_decls(inputs: Vec<(String, PortDeclInput)>) -> (r: Result<Vec<(String, PortDeclaration)>, String>)
    ensures
        ({
            let es = input_views(inputs@);
            match first_index(es, unparsable()) {
                None => r matches Ok(out) && out@.len() == es.len() && forall|i: int| 0 <= i < es.len()
                    ==> (#[trigger] out@[i]).0@ == es[i].0 && out@[i].1 == decl_of_ids(es[i].1, es[i].2),
                Some(f) => r matches Err(m) && Some(m@) == ids_error(es[f].1, es[f].2),
            }
        }),
{
    let ghost es = input_views(inputs@);
    let mut out: Vec<(String, PortDeclaration)> = Vec::new();
    let mut i: usize = 0;
    while i < inputs.len()
        invariant
            i <= inputs@.len(),
            es == input_views(inputs@),
            es.len() == inputs@.len(),
            forall|j: int| 0 <= j < i ==> !unparsable()(#[trigger] es[j]),
            out@.len() == i,
            forall|j: int| 0 <= j < i ==> (#[trigger] out@[j]).0@ == es[j].0 && out@[j].1 == decl_of_ids(es[j].1, es[j].2),
        decreases inputs@.len() - i,
    {
        let entry = &inputs[i];
        match PortDeclaration::from_ids(entry.1.what.as_str(), entry.1.how.as_str()) {
            Ok(decl) => {
                out.push((entry.0.clone(), decl));
            },
            Err(m) => {
                proof {
                    assert(unparsable()(es[i as int]));
                    lemma_first_index_at(es, unparsable(), i as int);
                }
                return Err(m);
            },
        }
        i = i + 1;
    }
    proof {
        lemma_first_index_none(es, unparsable());
    }
    Ok(out)
}

pub open spec fn update_message(version: Seq<char>) -> Seq<char> {
    "Update "@ + version + " available"@
}

/// What an update check reports, given the version found, if any, and its
/// notes: the information returned, and the status shown.
pub fn update_check_outcome(current_version: String, found: Option<(String, Option<String>)>) -> (r: (
    UpdateInfo,
    UpdateStatusEvent,
))
    ensures
        r.0.current_version == current_version,
        match found {
            Some((version, notes)) => {
                &&& r.0.available
                &&& r.0.latest_version == Some(version)
                &&& r.0.notes == notes
                &&& r.1.phase@ == "ready"@
                &&& r.1.message matches Some(m) && m@ == update_message(version@)
            },
            None => {
                &&& !r.0.available
                &&& r.0.latest_version is None
                &&& r.0.notes is None
                &&& r.1.phase@ == "idle"@
                &&& r.1.message matches Some(m) && m@ == "No updates available"@
            },
        },
{
    match found {
        Some((version, notes)) => {
            let message = String::from_str("Update ").concat(version.as_str()).concat(" available");
            (
                UpdateInfo { available: true, current_version, latest_version: Some(version), notes },
                UpdateStatusEvent { phase: String::from_str("ready"), message: Some(message) },
            )
        },
        None => (
            UpdateInfo { available: false, current_version, latest_version: None, notes: None },
            UpdateStatusEvent {
                phase: String::from_str("idle"),
                message: Some(String::from_str("No updates available")),
            },
        ),
    }
}

/// Lifecycle events waiting to be sent, at most one per node: a newer event
/// of a node replaces the one waiting.
pub struct PendingLifecycleEvents {
    events: Vec<LifecycleEvent>,
}

impl View for PendingLifecycleEvents {
    type V = Seq<LifecycleEvent>;

    closed spec fn view(&self) -> Seq<LifecycleEvent> {
        self.events@
    }
}

pub open spec fn event_of(node_id: u128) -> spec_fn(LifecycleEvent) -> bool {
    |e: LifecycleEvent| e.node_id == node_id
}

/// No two waiting events are of the same node.
pub open spec fn one_per_node(events: Seq<LifecycleEvent>) -> bool {
    forall|i: int, j: int| 0 <= i < j < events.len() ==> (#[trigger] events[i]).node_id != (#[trigger] events[j]).node_id
}

/// The waiting events after one more is queued.
pub open spec fn queued(events: Seq<LifecycleEvent>, event: LifecycleEvent) -> Seq<LifecycleEvent> {
    match first_index(events, event_of(event.node_id)) {
        Some(i) => events.update(i, event),
        None => events.push(event),
    }
}

impl PendingLifecycleEvents {
    pub fn new() -> (p: Self)
        ensures
            p@ == Seq::<LifecycleEvent>::empty(),
    {
        PendingLifecycleEvents { events: Vec::new() }
    }

    /// Queues an event, replacing the one waiting for the same node.
    pub fn queue(&mut self, event: LifecycleEvent)
        ensures
            final(self)@ == queued(old(self)@, event),
            one_per_node(old(self)@) ==> one_per_node(final(self)@),
    {
        let ghost before = self.events@;
        let mut i: usize = 0;
        while i < self.events.len()
            invariant
                self.events@ == before,
                before == old(self)@,
                i <= before.len(),
                forall|j: int| 0 <= j < i ==> !event_of(event.node_id)(#[trigger] before[j]),
            decreases before.len() - i,
        {
            if self.events[i].node_id == event.node_id {
                proof {
                    lemma_first_index_at(before, event_of(event.node_id), i as int);
                }
                self.events.set(i, event);
                proof {
                    if one_per_node(before) {
                        assert forall|a: int, b: int| 0 <= a < b < self.events@.len() implies (#[trigger] self.events@[a]).node_id
                            != (#[trigger] self.events@[b]).node_id by {
                            if a == i as int {
                                assert(before[b].node_id != before[a].node_id);
                            } else if b == i as int {
                                assert(before[a].node_id != before[b].node_id);
                            }
                        }
                    }
                }
                return;
            }
            i = i + 1;
        }
        proof {
            lemma_first_index_none(before, event_of(event.node_id));
        }
        self.events.push(event);
        proof {
            if one_per_node(before) {
                assert forall|a: int, b: int| 0 <= a < b < self.events@.len() implies (#[trigger] self.events@[a]).node_id
                    != (#[trigger] self.events@[b]).node_id by {
                    if b == before.len() {
                        assert(!event_of(event.node_id)(before[a]));
                    } else {
                        assert(before[a].node_id != before[b].node_id);
                    }
                }
            }
        }
    }

    /// Hands out every waiting event, oldest first, and leaves none.
    pub fn take_all(&mut self) -> (v: Vec<LifecycleEvent>)
        ensures
            v@ == old(self)@,
            final(self)@ == Seq::<LifecycleEvent>::empty(),
    {
        let mut taken: Vec<LifecycleEvent> = Vec::new();
        std::mem::swap(&mut taken, &mut self.events);
        taken
    }

    /// Whether no event waits.
    pub fn is_empty(&self) -> (b: bool)
        ensures
            b == (self@.len() == 0),
    {
        self.events.len() == 0
    }
}

/// The delivery a step reports: the one made, or none when it cannot be made.
pub open spec fn lenient_delivery(d: Result<Option<DeliveryView>, crate::runtime::graph::GraphErrorView>) -> Option<DeliveryView> {
    match d {
        Ok(x) => x,
        Err(_) => None,
    }
}

pub open spec fn delivery_view_of(d: Option<MessageDelivery>) -> Option<DeliveryView> {
    match d {
        Some(x) => Some(x@),
        None => None,
    }
}

/// A step's run result as the node run gives it: the result, or the runtime
/// error inside the application error; `None` for any other application error.
pub open spec fn step_run_view(r: Result<(RunResult, Option<MessageDelivery>), AppError>) -> Option<Result<RunResultView, RuntimeErrorView>> {
    match r {
        Ok((res, _)) => Some(Ok(res@)),
        Err(AppError::Runtime(e)) => Some(Err(e@)),
        Err(_) => None,
    }
}

/// The delivery notification of a step, when a delivery was made.
pub open spec fn delivery_events(r: Result<(RunResult, Option<MessageDelivery>), AppError>) -> Seq<ObserverEvent> {
    match r {
        Ok((_, Some(d))) => seq![ObserverEvent::Delivery(d@)],
        _ => Seq::<ObserverEvent>::empty(),
    }
}

/// One step of a graph run in the desktop interface, on the nodes' views:
/// the node's wired payload, its run, then the delivery along its incoming
/// edge when it can be made; the nodes and the result or error.
pub open spec fn gui_step(nodes: Seq<NodeView>, edges: Seq<Edge>, id: u128) -> (
    Seq<NodeView>,
    Result<(RunResultView, Option<DeliveryView>), AppErrorView>,
) {
    match payload_outcome(nodes, edges, id) {
        Err(e) => (nodes, Err(AppErrorView::Graph(e))),
        Ok(wired) => match node_index(nodes, id) {
            None => (nodes, Err(AppErrorView::Runtime(RuntimeErrorView::NotFound(id)))),
            Some(i) => match run_refusal(nodes[i]) {
                Some(e) => (nodes, Err(AppErrorView::Runtime(e))),
                None => {
                    let after = nodes.update(i, after_run(nodes[i], wired));
                    let result = RunResultView {
                        node_id: nodes[i].id,
                        output: kind_output(nodes[i].kind, wired),
                        lifecycle: success_state(nodes[i].lifecycle_mode),
                    };
                    (after, Ok((result, lenient_delivery(delivery_outcome(after, edges, id)))))
                },
            },
        },
    }
}

/// What one step of a graph run in the desktop interface reports: the run
/// of the node, then the delivery when one is made; nothing when the step
/// fails before the run.
pub open spec fn gui_step_events(nodes: Seq<NodeView>, edges: Seq<Edge>, id: u128) -> Seq<ObserverEvent> {
    match payload_outcome(nodes, edges, id) {
        Err(_) => Seq::<ObserverEvent>::empty(),
        Ok(wired) => match node_index(nodes, id) {
            None => Seq::<ObserverEvent>::empty(),
            Some(i) => {
                let ran = node_run_events(id, nodes[i], wired);
                if run_refusal(nodes[i]) is None {
                    match lenient_delivery(delivery_outcome(nodes.update(i, after_run(nodes[i], wired)), edges, id)) {
                        Some(d) => ran.push(ObserverEvent::Delivery(d)),
                        None => ran,
                    }
                } else {
                    ran
                }
            },
        },
    }
}

pub open spec fn gui_step_view(r: Result<(RunResult, Option<MessageDelivery>), AppError>) -> Result<
    (RunResultView, Option<DeliveryView>),
    AppErrorView,
> {
    match r {
        Ok((res, d)) => Ok((res@, delivery_view_of(d))),
        Err(e) => Err(e@),
    }
}

/// A graph run in the desktop interface in the given order: each step in
/// turn, stopping at the first that fails.
pub open spec fn gui_run_in_order(nodes: Seq<NodeView>, edges: Seq<Edge>, order: Seq<u128>) -> (
    Seq<NodeView>,
    Result<(Seq<RunResultView>, Seq<DeliveryView>), AppErrorView>,
)
    decreases order.len(),
{
    if order.len() == 0 {
        (nodes, Ok((seq![], seq![])))
    } else {
        let (before, prior) = gui_run_in_order(nodes, edges, order.drop_last());
        match prior {
            Err(e) => (before, Err(e)),
            Ok((results, deliveries)) => {
                let (after, step) = gui_step(before, edges, order.last());
                match step {
                    Err(e) => (after, Err(e)),
                    Ok((result, delivery)) => (after, Ok((
                        results.push(result),
                        match delivery {
                            Some(d) => deliveries.push(d),
                            None => deliveries,
                        },
                    ))),
                }
            },
        }
    }
}

/// What a graph run in the desktop interface reports in the given order:
/// before each node but the first a pause, then that node's step
/// notifications; nothing after a step fails.
pub open spec fn gui_order_events(nodes: Seq<NodeView>, edges: Seq<Edge>, order: Seq<u128>) -> Seq<ObserverEvent>
    decreases order.len(),
{
    if order.len() == 0 {
        Seq::<ObserverEvent>::empty()
    } else {
        let prev = gui_order_events(nodes, edges, order.drop_last());
        let (before, prior) = gui_run_in_order(nodes, edges, order.drop_last());
        if prior is Ok {
            prev + pause_before(order.len() - 1) + gui_step_events(before, edges, order.last())
        } else {
            prev
        }
    }
}

/// The pause before the node at `position` of a paced run: none before the
/// first node, one before every other.
pub open spec fn pause_before(position: int) -> Seq<ObserverEvent> {
    if position > 0 {
        seq![ObserverEvent::Pause]
    } else {
        Seq::<ObserverEvent>::empty()
    }
}

/// A graph run in the desktop interface: a graph with no topological order is
/// refused, unchanged and with nothing reported; otherwise the nodes run in
/// some topological order and the observer is told each step's notifications.
pub open spec fn gui_run_outcome(
    before: Seq<NodeView>,
    edges: Seq<Edge>,
    after: Seq<NodeView>,
    r: Result<(Seq<RunResultView>, Seq<DeliveryView>), AppErrorView>,
    old_events: Seq<ObserverEvent>,
    new_events: Seq<ObserverEvent>,
) -> bool {
    if !orderable(view_ids(before), edges) {
        after == before && r == Err::<(Seq<RunResultView>, Seq<DeliveryView>), AppErrorView>(
            AppErrorView::Graph(GraphErrorView::CycleDetected),
        ) && new_events == old_events
    } else {
        exists|o: Seq<u128>| #[trigger] is_topological_order(view_ids(before), edges, o)
            && gui_run_in_order(before, edges, o) == (after, r) && new_events == old_events + gui_order_events(
            before,
            edges,
            o,
        )
    }
}

pub open spec fn gui_run_view(r: Result<GraphRunResult, AppError>) -> Result<(Seq<RunResultView>, Seq<DeliveryView>), AppErrorView> {
    match r {
        Ok(v) => Ok((run_result_views(v.node_results@), delivery_views(v.deliveries@))),
        Err(e) => Err(e@),
    }
}

/// Once a run has failed, running further nodes changes and reports nothing.
pub proof fn lemma_failed_gui_run_stops(nodes: Seq<NodeView>, edges: Seq<Edge>, order: Seq<u128>, i: int, n: int)
    requires
        0 <= i <= n <= order.len(),
        gui_run_in_order(nodes, edges, order.subrange(0, i)).1 is Err,
    ensures
        gui_run_in_order(nodes, edges, order.subrange(0, n)) == gui_run_in_order(nodes, edges, order.subrange(0, i)),
        gui_order_events(nodes, edges, order.subrange(0, n)) == gui_order_events(nodes, edges, order.subrange(0, i)),
    decreases n - i,
{
    if n > i {
        lemma_failed_gui_run_stops(nodes, edges, order, i, n - 1);
        assert(order.subrange(0, n).drop_last() =~= order.subrange(0, n - 1));
    }
}

/// One node of a graph run in the desktop interface, which paces the nodes
/// in topological order: the node's wired payload, its run, then the
/// delivery along its incoming edge; a delivery that cannot be made is
/// skipped, not reported.
pub fn run_graph_step<O: LifecycleObserver>(
    nodes: &mut Vec<NodeInstance>,
    edges: &[Edge],
    node_id: u128,
    observer: &mut O,
) -> (r: Result<(RunResult, Option<MessageDelivery>), AppError>)
    ensures
        (views(final(nodes)@), gui_step_view(r)) == gui_step(views(old(nodes)@), edges@, node_id),
        final(observer).events() == old(observer).events() + gui_step_events(views(old(nodes)@), edges@, node_id),
        match payload_outcome(views(old(nodes)@), edges@, node_id) {
            Err(ge) => final(nodes)@ == old(nodes)@ && (r matches Err(e) && e@ == AppErrorView::Graph(ge))
                && final(observer).events() == old(observer).events(),
            Ok(wired) => match node_index(views(old(nodes)@), node_id) {
                None => final(nodes)@ == old(nodes)@ && (r matches Err(e) && e@ == AppErrorView::Runtime(
                    RuntimeErrorView::NotFound(node_id),
                )) && final(observer).events() == old(observer).events(),
                Some(i) => {
                    &&& final(nodes)@.len() == old(nodes)@.len()
                    &&& forall|j: int| 0 <= j < old(nodes)@.len() && j != i ==> final(nodes)@[j] == old(nodes)@[j]
                    &&& step_run_view(r) matches Some(v) && run_outcome(old(nodes)@[i]@, wired, final(nodes)@[i]@, v)
                    &&& final(observer).events() == old(observer).events() + node_run_events(
                        node_id,
                        old(nodes)@[i]@,
                        wired,
                    ) + delivery_events(r)
                    &&& r matches Ok((_, d)) ==> delivery_view_of(d) == lenient_delivery(
                        delivery_outcome(views(final(nodes)@), edges@, node_id),
                    )
                },
            },
        },
{
    let wired = match incoming_payload(node_id, edges, nodes.as_slice()) {
        Ok(w) => w,
        Err(e) => {
            return Err(AppError::Graph(e));
        },
    };
    let wired_str: Option<&str> = match &wired {
        Some(w) => Some(w.as_str()),
        None => None,
    };
    let ghost before = views(nodes@);
    let ran = GraphRunner::run_node_observed(nodes, node_id, wired_str, observer);
    proof {
        if let Some(i) = node_index(before, node_id) {
            lemma_first_index(before, has_id(node_id));
            assert(views(nodes@) =~= before.update(i, nodes@[i]@));
            if run_refusal(before[i]) is Some {
                assert(views(nodes@) =~= before);
            }
        }
    }
    let result = match ran {
        Ok(v) => v,
        Err(e) => {
            return Err(AppError::Runtime(e));
        },
    };
    let delivery = match wired_input_envelope(node_id, edges, nodes.as_slice()) {
        Ok(Some((edge_id, envelope))) => {
            let d = MessageDelivery { edge_id, envelope };
            observer.on_delivery(&d);
            Some(d)
        },
        _ => None,
    };
    Ok((result, delivery))
}

/// A graph run in the desktop interface: the nodes in topological order,
/// with the observer asked to pause between two nodes (the front end's
/// pacing), each node's step as `run_graph_step` makes it, stopping at the
/// first failure.
pub fn run_graph_paced<O: PacedObserver>(
    nodes: &mut Vec<NodeInstance>,
    edges: &[Edge],
    observer: &mut O,
) -> (r: Result<GraphRunResult, AppError>)
    ensures
        gui_run_outcome(
            views(old(nodes)@),
            edges@,
            views(final(nodes)@),
            gui_run_view(r),
            old(observer).events(),
            final(observer).events(),
        ),
{
    let ghost start = views(nodes@);
    proof {
        assert(view_ids(start) =~= crate::runtime::graph::node_ids(nodes@));
    }
    let order = match topological_order(nodes.as_slice(), edges) {
        Ok(o) => o,
        Err(e) => {
            return Err(AppError::Graph(e));
        },
    };
    let mut node_results: Vec<RunResult> = Vec::new();
    let mut deliveries: Vec<MessageDelivery> = Vec::new();
    proof {
        assert(is_topological_order(view_ids(start), edges@, order@));
        assert(order@.subrange(0, 0) =~= Seq::<u128>::empty());
        assert(run_result_views(node_results@) =~= Seq::<RunResultView>::empty());
        assert(delivery_views(deliveries@) =~= Seq::<DeliveryView>::empty());
        assert(observer.events() =~= old(observer).events() + gui_order_events(start, edges@, order@.subrange(0, 0)));
    }
    let mut i: usize = 0;
    while i < order.len()
        invariant
            i <= order@.len(),
            orderable(view_ids(start), edges@),
            start == views(old(nodes)@),
            is_topological_order(view_ids(start), edges@, order@),
            gui_run_in_order(start, edges@, order@.subrange(0, i as int)) == (
                views(nodes@),
                Ok::<(Seq<RunResultView>, Seq<DeliveryView>), AppErrorView>(
                    (run_result_views(node_results@), delivery_views(deliveries@)),
                ),
            ),
            observer.events() == old(observer).events() + gui_order_events(start, edges@, order@.subrange(0, i as int)),
        decreases order@.len() - i,
    {
        let ghost events_start = observer.events();
        if i > 0 {
            observer.pause();
        }
        let node_id = order[i];
        let ghost prefix = order@.subrange(0, i as int);
        let ghost next = order@.subrange(0, i + 1);
        proof {
            assert(next.drop_last() =~= prefix);
            assert(next.last() == node_id);
            assert(observer.events() =~= events_start + pause_before(i as int));
        }
        let ghost before_step = views(nodes@);
        match run_graph_step(nodes, edges, node_id, observer) {
            Ok((result, delivery)) => {
                proof {
                    assert(observer.events() =~= old(observer).events() + gui_order_events(start, edges@, next));
                }
                let ghost rs = node_results@;
                let ghost ds = deliveries@;
                node_results.push(result);
                proof {
                    assert(run_result_views(node_results@) =~= run_result_views(rs).push(node_results@.last()@));
                }
                match delivery {
                    Some(d) => {
                        deliveries.push(d);
                        proof {
                            assert(delivery_views(deliveries@) =~= delivery_views(ds).push(deliveries@.last()@));
                        }
                    },
                    None => {},
                }
            },
            Err(e) => {
                proof {
                    assert(observer.events() =~= old(observer).events() + gui_order_events(start, edges@, next));
                    lemma_failed_gui_run_stops(start, edges@, order@, i + 1, order@.len() as int);
                    assert(order@.subrange(0, order@.len() as int) =~= order@);
                    assert(is_topological_order(view_ids(start), edges@, order@));
                }
                return Err(e);
            },
        }
        i = i + 1;
    }
    proof {
        assert(order@.subrange(0, order@.len() as int) =~= order@);
        assert(is_topological_order(view_ids(start), edges@, order@));
    }
    Ok(GraphRunResult { node_results, deliveries })
}

} // verus!
