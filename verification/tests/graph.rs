use node_ide::runtime::edge::{is_valid_port, Edge, PORT_IN, PORT_OUT};
use node_ide::runtime::graph::{
    resolve_declarations, run_graph, topological_order, validate_connection, validate_new_edge, would_create_cycle,
    GraphError, MessageDelivery,
};
use node_ide::runtime::lifecycle::{Lifecycle, LifecycleMode};
use node_ide::runtime::node::{NodeInstance, NodeKind, Position};
use node_ide::runtime::protocol::presets::Axis;
use node_ide::runtime::runner::{GraphRunner, LifecycleObserver};
use node_ide::runtime::MinimalRuntime;

fn edge(from: u128, to: u128) -> Edge {
    Edge::new(from, PORT_OUT.to_string(), to, PORT_IN.to_string())
}

#[test]
fn constant_to_echo_graph_run() {
    let constant = NodeInstance::new(NodeKind::Constant { value: "wired".into() }, None);
    let echo = NodeInstance::new(NodeKind::Echo { input: "fallback".into() }, None);
    let constant_id = constant.id;
    let echo_id = echo.id;

    let edge = Edge::new(constant_id, PORT_OUT.to_string(), echo_id, PORT_IN.to_string());
    let mut nodes = vec![constant, echo];

    let result = run_graph(&mut nodes, &[edge]).unwrap();
    assert_eq!(result.node_results.len(), 2);
    assert_eq!(result.node_results[1].output, "wired");
    assert_eq!(result.deliveries.len(), 1);
    assert_eq!(result.deliveries[0].envelope.sequence, 1);
}

#[test]
fn rejects_cycle() {
    let a = NodeInstance::new(NodeKind::Constant { value: "a".into() }, None);
    let b = NodeInstance::new(NodeKind::Echo { input: "".into() }, None);
    let edge1 = edge(a.id, b.id);
    let edge2 = edge(b.id, a.id);
    let nodes = vec![a, b];

    assert!(validate_new_edge(&nodes, &[edge1.clone()], &edge2).is_err());
}

#[test]
fn rejects_incompatible_what() {
    let constant = NodeInstance::new(NodeKind::JsonConstant { value: "{}".into() }, None);
    let echo = NodeInstance::new(NodeKind::Echo { input: "".into() }, None);
    let edge = edge(constant.id, echo.id);
    let nodes = vec![constant, echo];

    match validate_new_edge(&nodes, &[], &edge) {
        Err(GraphError::IncompatiblePorts { axis, .. }) => assert_eq!(axis, Axis::What),
        other => panic!("expected incompatible ports, got {other:?}"),
    }
}

struct RecordingObserver {
    events: Vec<(u128, Lifecycle, Lifecycle)>,
}

impl LifecycleObserver for RecordingObserver {
    fn on_lifecycle(&mut self, node_id: u128, previous: Lifecycle, current: Lifecycle, _mode: LifecycleMode) {
        self.events.push((node_id, previous, current));
    }

    fn on_output(&mut self, _node_id: u128, _output: &str) {}

    fn on_delivery(&mut self, _delivery: &MessageDelivery) {}
}

#[test]
fn observed_graph_emits_running_before_terminal() {
    let constant = NodeInstance::new(NodeKind::Constant { value: "hi".into() }, Some(Position::default()));
    let echo = NodeInstance::new(NodeKind::Echo { input: "".into() }, Some(Position::default()));
    let constant_id = constant.id;
    let echo_id = echo.id;
    let edge = Edge::new(constant_id, PORT_OUT.to_string(), echo_id, PORT_IN.to_string());

    let mut nodes = vec![constant, echo];
    let mut observer = RecordingObserver { events: Vec::new() };

    GraphRunner::run_graph_observed(&mut nodes, &[edge], &mut observer).unwrap();

    let events = &observer.events;
    assert!(events.iter().any(|(_, _, to)| *to == Lifecycle::Running));
    assert!(events.iter().any(|(id, _, to)| *id == echo_id && *to == Lifecycle::Done));
}

#[test]
fn graph_runs_in_topological_order_whatever_the_node_order() {
    let constant = NodeInstance::new(NodeKind::Constant { value: "first".into() }, None);
    let echo = NodeInstance::new(NodeKind::Echo { input: "x".into() }, None);
    let e = edge(constant.id, echo.id);
    let echo_id = echo.id;
    let constant_id = constant.id;
    let mut nodes = vec![echo, constant];
    let order = topological_order(&nodes, &[e.clone()]).unwrap();
    assert_eq!(order, vec![constant_id, echo_id]);
    let result = MinimalRuntime::run_graph(&mut nodes, &[e]).unwrap();
    assert_eq!(result.node_results[0].node_id, constant_id);
    assert_eq!(result.node_results[1].output, "first");
    assert_eq!(nodes[0].last_output.as_deref(), Some("first"));
}

#[test]
fn cyclic_graph_refuses_to_run_and_changes_nothing() {
    let a = NodeInstance::new(NodeKind::Echo { input: "a".into() }, None);
    let b = NodeInstance::new(NodeKind::Echo { input: "b".into() }, None);
    let edges = vec![edge(a.id, b.id), edge(b.id, a.id)];
    let mut nodes = vec![a, b];
    match run_graph(&mut nodes, &edges) {
        Err(GraphError::CycleDetected) => {}
        other => panic!("unexpected {other:?}"),
    }
    assert_eq!(nodes[0].lifecycle, Lifecycle::Idle);
    assert_eq!(nodes[1].last_output, None);
    assert_eq!(GraphError::CycleDetected.message(), "edge would create a cycle");
}

#[test]
fn would_create_cycle_detects_back_edges() {
    let (a, b, c) = (1u128, 2u128, 3u128);
    let edges = vec![edge(a, b), edge(b, c)];
    assert!(would_create_cycle(&edges, &edge(c, a)));
    assert!(!would_create_cycle(&edges, &edge(a, c)));
    assert!(would_create_cycle(&[], &edge(a, a)));
}

#[test]
fn new_edge_errors_in_order() {
    let a = NodeInstance::new(NodeKind::Constant { value: "a".into() }, None);
    let b = NodeInstance::new(NodeKind::Echo { input: "".into() }, None);
    let c = NodeInstance::new(NodeKind::Constant { value: "c".into() }, None);
    let ids = (a.id, b.id, c.id);
    let nodes = vec![a, b, c];

    let bad_port = Edge::new(ids.0, "side".into(), ids.1, "in".into());
    match validate_new_edge(&nodes, &[], &bad_port) {
        Err(GraphError::InvalidPort(m)) => assert_eq!(m, "side -> in"),
        other => panic!("unexpected {other:?}"),
    }
    let reversed = Edge::new(ids.0, "in".into(), ids.1, "out".into());
    match validate_new_edge(&nodes, &[], &reversed) {
        Err(GraphError::InvalidPort(m)) => assert_eq!(m, "v2 connections must be out -> in (got in -> out)"),
        other => panic!("unexpected {other:?}"),
    }
    assert!(matches!(validate_new_edge(&nodes, &[], &edge(ids.1, ids.1)), Err(GraphError::SelfLoop)));
    assert!(matches!(validate_new_edge(&nodes, &[], &edge(ids.0, 99)), Err(GraphError::NodeNotFound(99))));
    let first = edge(ids.0, ids.1);
    match validate_new_edge(&nodes, &[first.clone()], &edge(ids.2, ids.1)) {
        Err(GraphError::DuplicateTarget { node_id, port }) => {
            assert_eq!(node_id, ids.1);
            assert_eq!(port, "in");
        }
        other => panic!("unexpected {other:?}"),
    }
    match validate_new_edge(&nodes, &[], &edge(ids.1, ids.0)) {
        Err(GraphError::PortNotDeclared { node_id, port }) => {
            assert_eq!(node_id, ids.0);
            assert_eq!(port, "in");
        }
        other => panic!("unexpected {other:?}"),
    }
    assert!(validate_new_edge(&nodes, &[], &first).is_ok());
}

#[test]
fn connection_validation_reports_reasons() {
    let a = NodeInstance::new(NodeKind::JsonConstant { value: "{}".into() }, None);
    let b = NodeInstance::new(NodeKind::Echo { input: "".into() }, None);
    let (ida, idb) = (a.id, b.id);
    let nodes = vec![a, b];
    let v = validate_connection(&nodes, ida, "out", idb, "in").unwrap();
    assert!(!v.compatible);
    assert_eq!(v.axis, Some(Axis::What));
    let v = validate_connection(&nodes, ida, "in", idb, "in").unwrap();
    assert_eq!(v.reason.as_deref(), Some("Connections must be out → in (got in → in)"));
    let v = validate_connection(&nodes, ida, "out", ida, "in").unwrap();
    assert_eq!(v.reason.as_deref(), Some("Cannot connect a node to itself."));
    assert!(matches!(validate_connection(&nodes, 7, "out", idb, "in"), Err(GraphError::NodeNotFound(7))));
}

#[test]
fn declarations_resolve_from_ids() {
    let ok = resolve_declarations("any", "single", "text", "single");
    assert!(ok.compatible);
    let bad = resolve_declarations("xml", "single", "text", "single");
    assert!(!bad.compatible);
    assert_eq!(bad.reason.as_deref(), Some("unknown What preset: xml"));
    let how = resolve_declarations("text", "stream", "text", "single");
    assert_eq!(how.axis, Some(Axis::How));
}

#[test]
fn ports_are_out_and_in() {
    assert!(is_valid_port("out"));
    assert!(is_valid_port("in"));
    assert!(!is_valid_port("err"));
}

#[test]
fn missing_upstream_output_stops_the_run() {
    let up = NodeInstance::new(NodeKind::Constant { value: "v".into() }, None);
    let down = NodeInstance::new(NodeKind::Echo { input: "".into() }, None);
    let e = edge(up.id, down.id);
    let up_id = up.id;
    let down_id = down.id;
    let mut nodes = vec![up, down];
    let r = node_ide::runtime::runner::GraphRunner::run_step(&mut nodes, &[e], down_id, &mut node_ide::runtime::runner::NoopObserver::new());
    match r {
        Err(GraphError::MissingUpstreamOutput(id)) => assert_eq!(id, up_id),
        other => panic!("unexpected {other:?}"),
    }
}
