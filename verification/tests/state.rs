use node_ide::persistence::project::Project;
use node_ide::runtime::lifecycle::{Lifecycle, LifecycleMode};
use node_ide::runtime::node::{NodeKind, Position};
use node_ide::runtime::protocol::presets::{HowPreset, PortDeclaration, WhatPreset};
use node_ide::state::{AppError, AppState};

fn fresh_state() -> AppState {
    AppState::new(Project::default(), "node-ide-test-state".to_string())
}

fn origin() -> Position {
    Position { x_bits: 0f64.to_bits(), y_bits: 0f64.to_bits() }
}

#[test]
fn update_node_preserves_custom_port_decls() {
    let mut state = fresh_state();

    let node = state.add_node(NodeKind::Echo { input: "hello".into() }, Some(origin())).unwrap();

    let custom_decls = vec![("in".to_string(), PortDeclaration::new(WhatPreset::Json, HowPreset::Single))];
    state.update_node_ports(node.id, custom_decls).unwrap();

    state.update_node(node.id, NodeKind::Echo { input: "updated".into() }).unwrap();

    let updated = state.project.nodes.iter().find(|n| n.id == node.id).unwrap();
    assert_eq!(updated.kind, NodeKind::Echo { input: "updated".into() });
    assert_eq!(updated.port_decls.get("in").map(|d| &d.what), Some(&WhatPreset::Json));
}

#[test]
fn unknown_node_is_refused_with_its_id() {
    let mut state = fresh_state();
    match state.move_node(0x1234, origin()) {
        Err(AppError::Validation(m)) => assert_eq!(m, "node not found: 00000000-0000-0000-0000-000000001234"),
        other => panic!("unexpected {other:?}"),
    }
    match state.remove_edge(5) {
        Err(e) => assert_eq!(e.message(), "edge not found: 00000000-0000-0000-0000-000000000005"),
        Ok(()) => panic!("expected refusal"),
    }
}

#[test]
fn undeclared_port_stops_port_updates() {
    let mut state = fresh_state();
    let node = state.add_node(NodeKind::Constant { value: "v".into() }, None).unwrap();
    let updates = vec![
        ("out".to_string(), PortDeclaration::new(WhatPreset::Any, HowPreset::Single)),
        ("in".to_string(), PortDeclaration::new(WhatPreset::Json, HowPreset::Single)),
    ];
    match state.update_node_ports(node.id, updates) {
        Err(AppError::Validation(m)) => assert_eq!(m, "port 'in' is not declared on this node"),
        other => panic!("unexpected {other:?}"),
    }
    let kept = &state.project.nodes[0];
    assert_eq!(kept.port_decls.get("out").map(|d| &d.what), Some(&WhatPreset::Any));
    assert!(kept.port_decls.get("in").is_none());
}

#[test]
fn mode_switch_resets_lifecycle_unless_failed() {
    let mut state = fresh_state();
    let node = state.add_node(NodeKind::Constant { value: "v".into() }, None).unwrap();
    state.update_node_mode(node.id, LifecycleMode::Persistent).unwrap();
    assert_eq!(state.project.nodes[0].lifecycle, Lifecycle::Stopped);
    assert_eq!(state.project.nodes[0].lifecycle_mode, LifecycleMode::Persistent);
    state.project.nodes[0].lifecycle = Lifecycle::Failed;
    state.update_node_mode(node.id, LifecycleMode::Ephemeral).unwrap();
    assert_eq!(state.project.nodes[0].lifecycle, Lifecycle::Failed);
    state.project.nodes[0].lifecycle = Lifecycle::Running;
    match state.update_node_mode(node.id, LifecycleMode::Persistent) {
        Err(e) => assert_eq!(e.message(), "cannot change lifecycle mode while node is running"),
        Ok(()) => panic!("expected refusal"),
    }
    assert_eq!(state.project.nodes[0].lifecycle_mode, LifecycleMode::Ephemeral);
}

#[test]
fn start_stop_and_run_through_the_state() {
    let mut state = fresh_state();
    let node = state.add_node(NodeKind::Echo { input: "".into() }, None).unwrap();
    match state.start_node(node.id) {
        Err(AppError::Runtime(_)) => {}
        other => panic!("unexpected {other:?}"),
    }
    state.update_node_mode(node.id, LifecycleMode::Persistent).unwrap();
    let started = state.start_node(node.id).unwrap();
    assert_eq!(started.lifecycle, Lifecycle::Waiting);
    let result = state.run_node(node.id).unwrap();
    assert_eq!(result.lifecycle, Lifecycle::Idle);
    let stopped = state.stop_node(node.id).unwrap();
    assert_eq!(stopped.lifecycle, Lifecycle::Stopped);
    assert_eq!(stopped.id, node.id);
}

#[test]
fn edges_follow_the_rules_and_node_removal() {
    let mut state = fresh_state();
    let a = state.add_node(NodeKind::Constant { value: "a".into() }, None).unwrap();
    let b = state.add_node(NodeKind::Echo { input: "".into() }, None).unwrap();
    let c = state.add_node(NodeKind::Echo { input: "".into() }, None).unwrap();
    let ab = state.add_edge(a.id, "out".into(), b.id, "in".into()).unwrap();
    state.add_edge(b.id, "out".into(), c.id, "in".into()).unwrap();
    match state.add_edge(c.id, "out".into(), b.id, "in".into()) {
        Err(e) => assert_eq!(
            e.message(),
            format!("graph error: target port 'in' on node {} is already connected", uuid_text(b.id))
        ),
        Ok(_) => panic!("expected refusal"),
    }
    assert_eq!(state.project.edges.len(), 2);
    let result = state.run_graph().unwrap();
    assert_eq!(result.node_results.len(), 3);
    assert_eq!(result.node_results[2].output, "a");
    state.remove_node(b.id).unwrap();
    assert_eq!(state.project.nodes.len(), 2);
    assert!(state.project.edges.is_empty());
    assert!(state.remove_edge(ab.id).is_err());
    let snapshot = state.snapshot();
    assert_eq!(snapshot.nodes.len(), 2);
    assert_eq!(snapshot.project_path, "node-ide-test-state");
}

#[test]
fn connection_check_through_the_state() {
    let mut state = fresh_state();
    let a = state.add_node(NodeKind::JsonConstant { value: "{}".into() }, None).unwrap();
    let b = state.add_node(NodeKind::Echo { input: "".into() }, None).unwrap();
    let v = state.validate_connection(a.id, "out".into(), b.id, "in".into()).unwrap();
    assert!(!v.compatible);
    match state.validate_connection(a.id, "out".into(), 42, "in".into()) {
        Err(e) => assert_eq!(e.message(), "graph error: node not found: 00000000-0000-0000-0000-00000000002a"),
        Ok(_) => panic!("expected refusal"),
    }
}

fn uuid_text(id: u128) -> String {
    let h = format!("{id:032x}");
    format!("{}-{}-{}-{}-{}", &h[0..8], &h[8..12], &h[12..16], &h[16..20], &h[20..32])
}
