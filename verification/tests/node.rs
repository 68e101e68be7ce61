use node_ide::runtime::edge::PORT_OUT;
use node_ide::runtime::lifecycle::{Lifecycle, LifecycleMode};
use node_ide::runtime::node::{default_empty_port_decls, NodeInstance, NodeKind, Position, RuntimeError};
use node_ide::runtime::protocol::presets::{HowPreset, WhatPreset};

#[test]
fn constant_node_outputs_value() {
    let mut node = NodeInstance::new(NodeKind::Constant { value: "hello".into() }, None);
    let result = node.run(None).unwrap();
    assert_eq!(result.output, "hello");
    assert_eq!(node.lifecycle, Lifecycle::Done);
}

#[test]
fn persistent_constant_returns_to_idle() {
    let mut node = NodeInstance::new(NodeKind::Constant { value: "hello".into() }, None);
    node.lifecycle_mode = LifecycleMode::Persistent;
    node.lifecycle = Lifecycle::Stopped;
    node.start().unwrap();
    let result = node.run(None).unwrap();
    assert_eq!(result.output, "hello");
    assert_eq!(node.lifecycle, Lifecycle::Idle);
}

#[test]
fn persistent_echo_empty_input_waits_on_start() {
    let mut node = NodeInstance::new(NodeKind::Echo { input: "".into() }, None);
    node.lifecycle_mode = LifecycleMode::Persistent;
    node.lifecycle = Lifecycle::Stopped;
    node.start().unwrap();
    assert_eq!(node.lifecycle, Lifecycle::Waiting);
}

#[test]
fn persistent_stop_preserves_id() {
    let mut node = NodeInstance::new(NodeKind::Constant { value: "x".into() }, None);
    let id = node.id;
    node.lifecycle_mode = LifecycleMode::Persistent;
    node.start().unwrap();
    node.stop().unwrap();
    assert_eq!(node.id, id);
    assert_eq!(node.lifecycle, Lifecycle::Stopped);
}

#[test]
fn json_constant_has_json_port_decl() {
    let node = NodeInstance::new(NodeKind::JsonConstant { value: r#"{"a":1}"#.into() }, None);
    let out = node.port_decl(PORT_OUT).unwrap();
    assert_eq!(out.what, WhatPreset::Json);
    assert_eq!(out.how, HowPreset::Single);
}

#[test]
fn echo_prefers_wired_input() {
    let mut node = NodeInstance::new(NodeKind::Echo { input: "fallback".into() }, None);
    let result = node.run(Some("wired")).unwrap();
    assert_eq!(result.output, "wired");
}

#[test]
fn new_node_defaults() {
    let node = NodeInstance::new(NodeKind::Echo { input: "".into() }, None);
    assert_eq!(node.lifecycle, Lifecycle::Idle);
    assert_eq!(node.lifecycle_mode, LifecycleMode::Ephemeral);
    assert_eq!(node.last_output, None);
    assert_eq!(node.position, Position::default());
    assert_eq!(f64::from_bits(node.position.x_bits), 100.0);
    assert_eq!(f64::from_bits(node.position.y_bits), 100.0);
    assert!(node.has_port("in"));
    assert!(node.has_port("out"));
    assert!(!node.has_port("other"));
}

#[test]
fn stopped_persistent_node_refuses_to_run() {
    let mut node = NodeInstance::new(NodeKind::Constant { value: "v".into() }, None);
    node.lifecycle_mode = LifecycleMode::Persistent;
    node.lifecycle = Lifecycle::Stopped;
    match node.run(None) {
        Err(RuntimeError::Validation(m)) => assert_eq!(m, "persistent node is stopped; use Start before running"),
        other => panic!("unexpected {other:?}"),
    }
    assert_eq!(node.lifecycle, Lifecycle::Stopped);
    assert_eq!(node.last_output, None);
}

#[test]
fn ephemeral_node_cannot_be_started() {
    let mut node = NodeInstance::new(NodeKind::Constant { value: "v".into() }, None);
    match node.start() {
        Err(e) => assert_eq!(
            e.message(),
            "only persistent nodes can be started; switch lifecycle mode in properties"
        ),
        Ok(()) => panic!("expected refusal"),
    }
    match node.stop() {
        Err(e) => assert_eq!(e.message(), "only persistent nodes can be stopped"),
        Ok(()) => panic!("expected refusal"),
    }
}

#[test]
fn start_then_stop_returns_to_stopped() {
    let mut node = NodeInstance::new(NodeKind::Echo { input: "x".into() }, None);
    node.lifecycle_mode = LifecycleMode::Persistent;
    node.lifecycle = Lifecycle::Stopped;
    node.start().unwrap();
    assert_eq!(node.lifecycle, Lifecycle::Idle);
    node.stop().unwrap();
    assert_eq!(node.lifecycle, Lifecycle::Stopped);
}

#[test]
fn running_a_done_node_again_succeeds() {
    let mut node = NodeInstance::new(NodeKind::Constant { value: "again".into() }, None);
    node.run(None).unwrap();
    let second = node.run(None).unwrap();
    assert_eq!(second.output, "again");
    assert_eq!(second.lifecycle, Lifecycle::Done);
    assert_eq!(second.node_id, node.id);
    assert_eq!(node.last_output.as_deref(), Some("again"));
}

#[test]
fn ensure_port_decls_fills_empty_declarations() {
    let mut node = NodeInstance::new(NodeKind::Constant { value: "v".into() }, None);
    node.port_decls = default_empty_port_decls();
    assert!(node.port_decl("out").is_none());
    node.ensure_port_decls();
    assert_eq!(node.port_decl("out").unwrap().what, WhatPreset::Text);
}

#[test]
fn not_found_message_shows_hyphenated_id() {
    let e = RuntimeError::NotFound(0x0123_4567_89ab_cdef_0011_2233_4455_6677);
    assert_eq!(e.message(), "node not found: 01234567-89ab-cdef-0011-223344556677");
}

#[test]
fn new_nodes_get_distinct_version_four_ids() {
    let a = NodeInstance::new(NodeKind::Constant { value: "a".into() }, None);
    let b = NodeInstance::new(NodeKind::Constant { value: "b".into() }, None);
    assert_ne!(a.id, b.id);
    assert_eq!((a.id >> 76) & 0xf, 4);
    assert_eq!((a.id >> 62) & 0x3, 2);
}
