use node_ide::ipc::run_graph_paced;
use node_ide::runtime::edge::{Edge, PORT_IN, PORT_OUT};
use node_ide::runtime::graph::MessageDelivery;
use node_ide::runtime::lifecycle::{Lifecycle, LifecycleMode};
use node_ide::runtime::node::{NodeInstance, NodeKind};
use node_ide::runtime::runner::{GraphRunner, LifecycleObserver, PacedObserver};
use node_ide::runtime::sdk::LifecycleHooks;

#[derive(Debug, PartialEq)]
enum Seen {
    Lifecycle(u128, Lifecycle, Lifecycle),
    Output(u128, String),
    Delivery(u128),
    Pause,
}

struct Recorder {
    seen: Vec<Seen>,
}

impl PacedObserver for Recorder {
    fn pause(&mut self) {
        self.seen.push(Seen::Pause);
    }
}

impl LifecycleObserver for Recorder {
    fn on_lifecycle(&mut self, node_id: u128, previous: Lifecycle, current: Lifecycle, _mode: LifecycleMode) {
        self.seen.push(Seen::Lifecycle(node_id, previous, current));
    }

    fn on_output(&mut self, node_id: u128, output: &str) {
        self.seen.push(Seen::Output(node_id, output.to_string()));
    }

    fn on_delivery(&mut self, delivery: &MessageDelivery) {
        self.seen.push(Seen::Delivery(delivery.edge_id));
    }
}

#[derive(Debug, PartialEq)]
enum Call {
    Transition(Lifecycle, Lifecycle),
    Init,
    Run,
    Stop,
}

struct HookLog {
    calls: Vec<Call>,
}

impl LifecycleHooks for HookLog {
    fn on_transition(&mut self, from: Lifecycle, to: Lifecycle, _mode: LifecycleMode) {
        self.calls.push(Call::Transition(from, to));
    }

    fn on_init(&mut self) {
        self.calls.push(Call::Init);
    }

    fn on_run(&mut self) {
        self.calls.push(Call::Run);
    }

    fn on_stop(&mut self) {
        self.calls.push(Call::Stop);
    }
}

#[test]
fn graph_run_reports_each_step_in_order() {
    let constant = NodeInstance::new(NodeKind::Constant { value: "hi".into() }, None);
    let echo = NodeInstance::new(NodeKind::Echo { input: "".into() }, None);
    let (c, e) = (constant.id, echo.id);
    let edge = Edge::new(c, PORT_OUT.to_string(), e, PORT_IN.to_string());
    let edge_id = edge.id;
    let mut nodes = vec![echo, constant];
    let mut recorder = Recorder { seen: Vec::new() };
    GraphRunner::run_graph_observed(&mut nodes, &[edge], &mut recorder).unwrap();
    assert_eq!(
        recorder.seen,
        vec![
            Seen::Lifecycle(c, Lifecycle::Idle, Lifecycle::Running),
            Seen::Lifecycle(c, Lifecycle::Running, Lifecycle::Done),
            Seen::Output(c, "hi".into()),
            Seen::Lifecycle(e, Lifecycle::Idle, Lifecycle::Running),
            Seen::Lifecycle(e, Lifecycle::Running, Lifecycle::Done),
            Seen::Output(e, "hi".into()),
            Seen::Delivery(edge_id),
        ]
    );
}

#[test]
fn cyclic_graph_reports_nothing() {
    let a = NodeInstance::new(NodeKind::Echo { input: "a".into() }, None);
    let b = NodeInstance::new(NodeKind::Echo { input: "b".into() }, None);
    let edges = vec![
        Edge::new(a.id, PORT_OUT.to_string(), b.id, PORT_IN.to_string()),
        Edge::new(b.id, PORT_OUT.to_string(), a.id, PORT_IN.to_string()),
    ];
    let mut nodes = vec![a, b];
    let mut recorder = Recorder { seen: Vec::new() };
    assert!(GraphRunner::run_graph_observed(&mut nodes, &edges, &mut recorder).is_err());
    assert!(recorder.seen.is_empty());
}

#[test]
fn run_hooks_see_running_then_success() {
    let mut node = NodeInstance::new(NodeKind::Constant { value: "v".into() }, None);
    let mut hooks = HookLog { calls: Vec::new() };
    node.run_with_hooks(None, &mut hooks).unwrap();
    assert_eq!(
        hooks.calls,
        vec![
            Call::Transition(Lifecycle::Idle, Lifecycle::Running),
            Call::Run,
            Call::Transition(Lifecycle::Running, Lifecycle::Done),
        ]
    );
}

#[test]
fn refused_run_calls_no_hook() {
    let mut node = NodeInstance::new(NodeKind::Constant { value: "v".into() }, None);
    node.lifecycle_mode = LifecycleMode::Persistent;
    node.lifecycle = Lifecycle::Stopped;
    let mut hooks = HookLog { calls: Vec::new() };
    assert!(node.run_with_hooks(None, &mut hooks).is_err());
    assert!(hooks.calls.is_empty());
}

#[test]
fn start_and_stop_hooks() {
    let mut node = NodeInstance::new(NodeKind::Echo { input: "".into() }, None);
    node.lifecycle_mode = LifecycleMode::Persistent;
    node.lifecycle = Lifecycle::Stopped;
    let mut hooks = HookLog { calls: Vec::new() };
    node.start_with_hooks(&mut hooks).unwrap();
    assert_eq!(
        hooks.calls,
        vec![
            Call::Transition(Lifecycle::Stopped, Lifecycle::Initializing),
            Call::Init,
            Call::Transition(Lifecycle::Initializing, Lifecycle::Waiting),
        ]
    );
    let mut hooks = HookLog { calls: Vec::new() };
    node.stop_with_hooks(&mut hooks).unwrap();
    assert_eq!(
        hooks.calls,
        vec![
            Call::Transition(Lifecycle::Waiting, Lifecycle::Stopping),
            Call::Stop,
            Call::Transition(Lifecycle::Stopping, Lifecycle::Stopped),
        ]
    );
    let mut hooks = HookLog { calls: Vec::new() };
    node.stop_with_hooks(&mut hooks).unwrap();
    assert!(hooks.calls.is_empty());
}

#[test]
fn paced_run_pauses_between_nodes() {
    let constant = NodeInstance::new(NodeKind::Constant { value: "p".into() }, None);
    let echo = NodeInstance::new(NodeKind::Echo { input: "".into() }, None);
    let (c, e) = (constant.id, echo.id);
    let edge = Edge::new(c, PORT_OUT.to_string(), e, PORT_IN.to_string());
    let edge_id = edge.id;
    let mut nodes = vec![constant, echo];
    let mut recorder = Recorder { seen: Vec::new() };
    let result = run_graph_paced(&mut nodes, &[edge], &mut recorder).unwrap();
    assert_eq!(result.node_results[1].output, "p");
    assert_eq!(result.deliveries.len(), 1);
    assert_eq!(
        recorder.seen,
        vec![
            Seen::Lifecycle(c, Lifecycle::Idle, Lifecycle::Running),
            Seen::Lifecycle(c, Lifecycle::Running, Lifecycle::Done),
            Seen::Output(c, "p".into()),
            Seen::Pause,
            Seen::Lifecycle(e, Lifecycle::Idle, Lifecycle::Running),
            Seen::Lifecycle(e, Lifecycle::Running, Lifecycle::Done),
            Seen::Output(e, "p".into()),
            Seen::Delivery(edge_id),
        ]
    );
}

#[test]
fn new_ids_have_the_version_four_layout() {
    let node = NodeInstance::new(NodeKind::Constant { value: "v".into() }, None);
    let edge = Edge::new(1, PORT_OUT.to_string(), 2, PORT_IN.to_string());
    for id in [node.id, edge.id] {
        assert_eq!(id & 0x0000_0000_0000_F000_C000_0000_0000_0000, 0x0000_0000_0000_4000_8000_0000_0000_0000);
    }
}
