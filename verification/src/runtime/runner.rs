use vstd::prelude::*;

use crate::runtime::edge::Edge;
use crate::runtime::graph::{
    delivery_outcome, orderable, payload_outcome, view_ids, find_node, graph_run_outcome, graph_run_view, graph_step, incoming_payload, is_topological_order,
    lemma_views_update, node_ids, node_index, run_in_order, topological_order, views, wired_input_envelope,
    DeliveryView, GraphError, GraphErrorView, GraphRunResult, MessageDelivery,
};
use crate::runtime::lifecycle::{Lifecycle, LifecycleMode};
use crate::runtime::node::{
    after_run, kind_output, run_refusal, run_transitions, NodeView, opt_str_view, result_view, run_outcome, NodeInstance, RunResult, RunResultView, RuntimeError,
    RuntimeErrorView,
};

verus! {

/// Inter-node delay for GUI graph runs so lifecycle transitions are visible.
pub const GUI_PACING_MS: u64 = 120;

/// Headless CLI runs use no pacing.
pub const CLI_PACING_MS: u64 = 0;

/// One notification an observer receives.
pub enum ObserverEvent {
    Lifecycle { node_id: u128, previous: Lifecycle, current: Lifecycle, mode: LifecycleMode },
    Output { node_id: u128, output: Seq<char> },
    Delivery(DeliveryView),
    /// A pause between two nodes of a paced run.
    Pause,
}

/// Receives what a run does, as it happens. `events` is what the observer
/// has been told so far: each notification adds itself to it. An observer
/// written outside verified code may leave `events` undefined; what the
/// contracts say of the notifications then tells nothing about it.
pub trait LifecycleObserver {
    closed spec fn events(&self) -> Seq<ObserverEvent> {
        Seq::empty()
    }

    fn on_lifecycle(&mut self, node_id: u128, previous: Lifecycle, current: Lifecycle, mode: LifecycleMode)
        ensures
            final(self).events() == old(self).events().push(
                ObserverEvent::Lifecycle { node_id, previous, current, mode },
            ),
    ;

    fn on_output(&mut self, node_id: u128, output: &str)
        ensures
            final(self).events() == old(self).events().push(ObserverEvent::Output { node_id, output: output@ }),
    ;

    fn on_delivery(&mut self, delivery: &MessageDelivery)
        ensures
            final(self).events() == old(self).events().push(ObserverEvent::Delivery(delivery@)),
    ;
}

/// An observer that also paces a run: it is asked to pause between two nodes
/// (the desktop interface waits `GUI_PACING_MS` there), and records the pause
/// among its notifications.
pub trait PacedObserver: LifecycleObserver {
    fn pause(&mut self)
        ensures
            final(self).events() == old(self).events().push(ObserverEvent::Pause),
    ;
}

/// An observer that does nothing; what it is told is kept as ghost state only.
pub struct NoopObserver {
    received: Ghost<Seq<ObserverEvent>>,
}

impl NoopObserver {
    pub fn new() -> (o: Self)
        ensures
            o.events() == Seq::<ObserverEvent>::empty(),
    {
        NoopObserver { received: Ghost(Seq::empty()) }
    }
}

impl LifecycleObserver for NoopObserver {
    closed spec fn events(&self) -> Seq<ObserverEvent> {
        self.received@
    }

    fn on_lifecycle(&mut self, node_id: u128, previous: Lifecycle, current: Lifecycle, mode: LifecycleMode) {
        proof {
            self.received@ = self.received@.push(ObserverEvent::Lifecycle { node_id, previous, current, mode });
        }
    }

    fn on_output(&mut self, node_id: u128, output: &str) {
        proof {
            self.received@ = self.received@.push(ObserverEvent::Output { node_id, output: output@ });
        }
    }

    fn on_delivery(&mut self, delivery: &MessageDelivery) {
        proof {
            self.received@ = self.received@.push(ObserverEvent::Delivery(delivery@));
        }
    }
}

/// The lifecycle notifications of a node's transitions, in order.
pub open spec fn lifecycle_events(node_id: u128, ts: Seq<(Lifecycle, Lifecycle)>, mode: LifecycleMode) -> Seq<ObserverEvent>
    decreases ts.len(),
{
    if ts.len() == 0 {
        Seq::<ObserverEvent>::empty()
    } else {
        lifecycle_events(node_id, ts.drop_last(), mode).push(
            ObserverEvent::Lifecycle { node_id, previous: ts.last().0, current: ts.last().1, mode },
        )
    }
}

/// What an observed run of a node reports: its transitions (into running,
/// then into the success state), then its output; a refused run reports
/// nothing.
pub open spec fn node_run_events(node_id: u128, n: NodeView, wired: Option<Seq<char>>) -> Seq<ObserverEvent> {
    let transitions = lifecycle_events(node_id, run_transitions(n), n.lifecycle_mode);
    if run_refusal(n) is None {
        transitions.push(ObserverEvent::Output { node_id, output: kind_output(n.kind, wired) })
    } else {
        transitions
    }
}

/// What one observed step of a graph run reports: the run of the node, then
/// the delivery along its incoming edge when one is made; nothing when the
/// step fails before the run.
pub open spec fn step_events(nodes: Seq<NodeView>, edges: Seq<Edge>, id: u128) -> Seq<ObserverEvent> {
    match payload_outcome(nodes, edges, id) {
        Err(_) => Seq::<ObserverEvent>::empty(),
        Ok(wired) => match node_index(nodes, id) {
            None => Seq::<ObserverEvent>::empty(),
            Some(i) => {
                let ran = node_run_events(id, nodes[i], wired);
                if run_refusal(nodes[i]) is None {
                    match delivery_outcome(nodes.update(i, after_run(nodes[i], wired)), edges, id) {
                        Ok(Some(d)) => ran.push(ObserverEvent::Delivery(d)),
                        _ => ran,
                    }
                } else {
                    ran
                }
            },
        },
    }
}

/// What an observed run in the given order reports: each step's
/// notifications, until a step fails.
pub open spec fn order_events(nodes: Seq<NodeView>, edges: Seq<Edge>, order: Seq<u128>) -> Seq<ObserverEvent>
    decreases order.len(),
{
    if order.len() == 0 {
        Seq::<ObserverEvent>::empty()
    } else {
        let prev = order_events(nodes, edges, order.drop_last());
        let (before, prior) = run_in_order(nodes, edges, order.drop_last());
        if prior is Ok {
            prev + step_events(before, edges, order.last())
        } else {
            prev
        }
    }
}

/// An observed graph run: a graph with no topological order is refused,
/// unchanged and with nothing reported; otherwise the nodes run in some
/// topological order and the observer is told, per node, what `step_events`
/// gives, after what it had been told before.
pub open spec fn observed_run(
    before: Seq<NodeView>,
    edges: Seq<Edge>,
    after: Seq<NodeView>,
    r: Result<(Seq<RunResultView>, Seq<DeliveryView>), GraphErrorView>,
    old_events: Seq<ObserverEvent>,
    new_events: Seq<ObserverEvent>,
) -> bool {
    if !orderable(view_ids(before), edges) {
        after == before && r == Err::<(Seq<RunResultView>, Seq<DeliveryView>), GraphErrorView>(
            GraphErrorView::CycleDetected,
        ) && new_events == old_events
    } else {
        exists|o: Seq<u128>| #[trigger] is_topological_order(view_ids(before), edges, o)
            && run_in_order(before, edges, o) == (after, r) && new_events == old_events + order_events(before, edges, o)
    }
}

/// Once a run in order has failed, running further nodes reports nothing more.
pub proof fn lemma_failed_run_reports_no_more(nodes: Seq<NodeView>, edges: Seq<Edge>, order: Seq<u128>, i: int, n: int)
    requires
        0 <= i <= n <= order.len(),
        run_in_order(nodes, edges, order.subrange(0, i)).1 is Err,
    ensures
        order_events(nodes, edges, order.subrange(0, n)) == order_events(nodes, edges, order.subrange(0, i)),
    decreases n - i,
{
    if n > i {
        lemma_failed_run_reports_no_more(nodes, edges, order, i, n - 1);
        crate::runtime::graph::lemma_failed_run_stops(nodes, edges, order, i, n - 1);
        assert(order.subrange(0, n).drop_last() =~= order.subrange(0, n - 1));
    }
}

fn report_transitions<O: LifecycleObserver>(
    observer: &mut O,
    node_id: u128,
    transitions: &Vec<(Lifecycle, Lifecycle)>,
    mode: LifecycleMode,
)
    ensures
        final(observer).events() == old(observer).events() + lifecycle_events(node_id, transitions@, mode),
{
    let mut i: usize = 0;
    proof {
        assert(transitions@.take(0) =~= Seq::<(Lifecycle, Lifecycle)>::empty());
        assert(observer.events() =~= old(observer).events() + lifecycle_events(node_id, transitions@.take(0), mode));
    }
    while i < transitions.len()
        invariant
            i <= transitions@.len(),
            observer.events() == old(observer).events() + lifecycle_events(node_id, transitions@.take(i as int), mode),
        decreases transitions@.len() - i,
    {
        let ghost before = observer.events();
        let (from, to) = transitions[i];
        observer.on_lifecycle(node_id, from, to, mode);
        proof {
            let t = transitions@.take(i + 1);
            assert(t.drop_last() =~= transitions@.take(i as int));
            assert(t.last() == (from, to));
            assert(observer.events() =~= old(observer).events() + lifecycle_events(node_id, t, mode));
        }
        i = i + 1;
    }
    proof {
        assert(transitions@.take(transitions@.len() as int) =~= transitions@);
    }
}

pub open spec fn step_view(r: Result<(RunResult, Option<MessageDelivery>), GraphError>) -> Result<(RunResultView, Option<DeliveryView>), GraphErrorView> {
    match r {
        Ok((res, Some(d))) => Ok((res@, Some(d@))),
        Ok((res, None)) => Ok((res@, None)),
        Err(e) => Err(e@),
    }
}

pub struct GraphRunner;

impl GraphRunner {
    /// Runs one node on an optional wired input, reporting its transitions
    /// and output to the observer.
    pub fn run_node_observed<O: LifecycleObserver>(
        nodes: &mut Vec<NodeInstance>,
        id: u128,
        wired_input: Option<&str>,
        observer: &mut O,
    ) -> (r: Result<RunResult, RuntimeError>)
        ensures
            match node_index(views(old(nodes)@), id) {
                None => final(nodes)@ == old(nodes)@ && (r matches Err(e) && e@ == RuntimeErrorView::NotFound(id)),
                Some(i) => final(nodes)@.len() == old(nodes)@.len()
                    && (forall|j: int| 0 <= j < old(nodes)@.len() && j != i ==> final(nodes)@[j] == old(nodes)@[j])
                    && run_outcome(old(nodes)@[i]@, opt_str_view(wired_input), final(nodes)@[i]@, result_view(r)),
            },
            final(observer).events() == old(observer).events() + match node_index(views(old(nodes)@), id) {
                None => Seq::<ObserverEvent>::empty(),
                Some(i) => node_run_events(id, old(nodes)@[i]@, opt_str_view(wired_input)),
            },
    {
        let idx = match find_node(nodes.as_slice(), id) {
            Some(i) => i,
            None => {
                return Err(RuntimeError::NotFound(id));
            },
        };
        let mode = nodes[idx].lifecycle_mode;
        let ghost before = nodes@[idx as int]@;
        let (r, log) = nodes[idx].run_traced(wired_input);
        report_transitions(observer, id, &log, mode);
        match r {
            Ok(output) => {
                observer.on_output(id, output.output.as_str());
                Ok(output)
            },
            Err(e) => Err(e),
        }
    }

    /// Runs one node of a graph: its wired payload, its run, then the
    /// delivery along its incoming edge, each reported to the observer.
    pub fn run_step<O: LifecycleObserver>(
        nodes: &mut Vec<NodeInstance>,
        edges: &[Edge],
        node_id: u128,
        observer: &mut O,
    ) -> (r: Result<(RunResult, Option<MessageDelivery>), GraphError>)
        ensures
            (views(final(nodes)@), step_view(r)) == graph_step(views(old(nodes)@), edges@, node_id),
            final(observer).events() == old(observer).events() + step_events(views(old(nodes)@), edges@, node_id),
    {
        let ghost before = views(nodes@);
        let wired = match incoming_payload(node_id, edges, nodes.as_slice()) {
            Ok(w) => w,
            Err(e) => {
                return Err(e);
            },
        };
        let idx = match find_node(nodes.as_slice(), node_id) {
            Some(i) => i,
            None => {
                return Err(GraphError::NodeNotFound(node_id));
            },
        };
        let mode = nodes[idx].lifecycle_mode;
        let wired_str: Option<&str> = match &wired {
            Some(w) => Some(w.as_str()),
            None => None,
        };
        let ghost old_nodes = nodes@;
        let (r, log) = nodes[idx].run_traced(wired_str);
        proof {
            lemma_views_update(old_nodes, idx as int, nodes@[idx as int]);
            assert(nodes@ == old_nodes.update(idx as int, nodes@[idx as int]));
        }
        report_transitions(observer, node_id, &log, mode);
        let result = match r {
            Ok(v) => v,
            Err(e) => {
                return Err(GraphError::Runtime(e));
            },
        };
        observer.on_output(node_id, result.output.as_str());
        let delivery = match wired_input_envelope(node_id, edges, nodes.as_slice()) {
            Ok(Some((edge_id, envelope))) => {
                let d = MessageDelivery { edge_id, envelope };
                observer.on_delivery(&d);
                Some(d)
            },
            Ok(None) => None,
            Err(e) => {
                return Err(e);
            },
        };
        Ok((result, delivery))
    }

    /// Runs the graph in topological order, reporting each node's transitions,
    /// output and delivery to the observer.
    pub fn run_graph_observed<O: LifecycleObserver>(
        nodes: &mut Vec<NodeInstance>,
        edges: &[Edge],
        observer: &mut O,
    ) -> (r: Result<GraphRunResult, GraphError>)
        ensures
            graph_run_outcome(views(old(nodes)@), edges@, views(final(nodes)@), graph_run_view(r)),
            observed_run(
                views(old(nodes)@),
                edges@,
                views(final(nodes)@),
                graph_run_view(r),
                old(observer).events(),
                final(observer).events(),
            ),
    {
        let ghost start = views(nodes@);
        proof {
            assert(crate::runtime::graph::view_ids(start) =~= node_ids(nodes@));
        }
        let order = match topological_order(nodes.as_slice(), edges) {
            Ok(o) => o,
            Err(e) => {
                return Err(e);
            },
        };
        let mut node_results: Vec<RunResult> = Vec::new();
        let mut deliveries: Vec<MessageDelivery> = Vec::new();
        proof {
            assert(is_topological_order(crate::runtime::graph::view_ids(start), edges@, order@));
            assert(crate::runtime::graph::orderable(crate::runtime::graph::view_ids(start), edges@));
            assert(order@.subrange(0, 0) =~= Seq::<u128>::empty());
            assert(crate::runtime::graph::run_result_views(node_results@) =~= Seq::<RunResultView>::empty());
            assert(crate::runtime::graph::delivery_views(deliveries@) =~= Seq::<DeliveryView>::empty());
        }
        let mut i: usize = 0;
        while i < order.len()
            invariant
                i <= order@.len(),
                crate::runtime::graph::orderable(crate::runtime::graph::view_ids(start), edges@),
                start == views(old(nodes)@),
                is_topological_order(crate::runtime::graph::view_ids(start), edges@, order@),
                run_in_order(start, edges@, order@.subrange(0, i as int))
                    == (views(nodes@), Ok::<(Seq<RunResultView>, Seq<DeliveryView>), GraphErrorView>((
                        crate::runtime::graph::run_result_views(node_results@),
                        crate::runtime::graph::delivery_views(deliveries@),
                    ))),
                observer.events() == old(observer).events() + order_events(start, edges@, order@.subrange(0, i as int)),
            decreases order@.len() - i,
        {
            let node_id = order[i];
            let ghost prefix = order@.subrange(0, i as int);
            let ghost next = order@.subrange(0, i + 1);
            proof {
                assert(next.drop_last() =~= prefix);
                assert(next.last() == node_id);
                assert(order_events(start, edges@, next) == order_events(start, edges@, prefix) + step_events(
                    views(nodes@),
                    edges@,
                    node_id,
                ));
            }
            let ghost before_step = views(nodes@);
            let ghost events_before = observer.events();
            match Self::run_step(nodes, edges, node_id, observer) {
                Ok((result, delivery)) => {
                    proof {
                        assert(observer.events() =~= old(observer).events() + order_events(start, edges@, next));
                    }
                    let ghost rs = node_results@;
                    let ghost ds = deliveries@;
                    node_results.push(result);
                    proof {
                        assert(crate::runtime::graph::run_result_views(node_results@)
                            =~= crate::runtime::graph::run_result_views(rs).push(node_results@.last()@));
                    }
                    match delivery {
                        Some(d) => {
                            deliveries.push(d);
                            proof {
                                assert(crate::runtime::graph::delivery_views(deliveries@)
                                    =~= crate::runtime::graph::delivery_views(ds).push(deliveries@.last()@));
                            }
                        },
                        None => {},
                    }
                },
                Err(e) => {
                    proof {
                        assert(graph_step(before_step, edges@, node_id) == (views(nodes@), Err::<(RunResultView, Option<DeliveryView>), GraphErrorView>(e@)));
                        assert(run_in_order(start, edges@, next) == (views(nodes@), Err::<(Seq<RunResultView>, Seq<DeliveryView>), GraphErrorView>(e@)));
                        crate::runtime::graph::lemma_failed_run_stops(start, edges@, order@, i + 1, order@.len() as int);
                        assert(order@.subrange(0, order@.len() as int) =~= order@);
                        assert(run_in_order(start, edges@, order@) == (views(nodes@), graph_run_view(Err::<GraphRunResult, GraphError>(e))));
                        assert(observer.events() =~= old(observer).events() + order_events(start, edges@, next));
                        lemma_failed_run_reports_no_more(start, edges@, order@, i + 1, order@.len() as int);
                        assert(is_topological_order(view_ids(start), edges@, order@));
                    }
                    return Err(e);
                },
            }
            i = i + 1;
        }
        proof {
            assert(order@.subrange(0, order@.len() as int) =~= order@);
            assert(is_topological_order(view_ids(start), edges@, order@));
        }
        Ok(GraphRunResult { node_results, deliveries })
    }
}

} // verus!
