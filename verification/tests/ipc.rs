use node_ide::ipc::{
    parse_kind, parse_lifecycle_mode, parse_port_decls, request_position, update_check_outcome, LifecycleEvent,
    PendingLifecycleEvents, PortDeclInput,
};
use node_ide::ipc::run_graph_step;
use node_ide::runtime::edge::Edge;
use node_ide::runtime::lifecycle::{Lifecycle, LifecycleMode};
use node_ide::runtime::node::NodeInstance;
use node_ide::runtime::runner::NoopObserver;
use node_ide::runtime::node::NodeKind;
use node_ide::runtime::protocol::presets::{HowPreset, PortDeclaration, WhatPreset};

#[test]
fn kinds_parse_with_their_defaults() {
    assert_eq!(parse_kind("constant", None, None), Ok(NodeKind::Constant { value: "hello".into() }));
    assert_eq!(parse_kind("json_constant", None, None), Ok(NodeKind::JsonConstant { value: "{}".into() }));
    assert_eq!(parse_kind("echo", Some("v".into()), None), Ok(NodeKind::Echo { input: "".into() }));
    assert_eq!(parse_kind("echo", None, Some("i".into())), Ok(NodeKind::Echo { input: "i".into() }));
    assert_eq!(parse_kind("loop", None, None), Err("unknown node kind: loop".to_string()));
}

#[test]
fn modes_parse() {
    assert_eq!(parse_lifecycle_mode("ephemeral"), Ok(LifecycleMode::Ephemeral));
    assert_eq!(parse_lifecycle_mode("persistent"), Ok(LifecycleMode::Persistent));
    assert_eq!(parse_lifecycle_mode("forever"), Err("unknown lifecycle mode: forever".to_string()));
}

#[test]
fn request_positions_default_to_one_hundred() {
    let p = request_position(None, Some(5f64.to_bits()));
    assert_eq!(f64::from_bits(p.x_bits), 100.0);
    assert_eq!(f64::from_bits(p.y_bits), 5.0);
}

#[test]
fn port_declaration_inputs_parse_or_report_the_first_bad_one() {
    let good = vec![(
        "out".to_string(),
        PortDeclInput { what: "json".into(), how: "single".into() },
    )];
    let parsed = parse_port_decls(good).unwrap();
    assert_eq!(parsed, vec![("out".to_string(), PortDeclaration::new(WhatPreset::Json, HowPreset::Single))]);
    let bad = vec![
        ("out".to_string(), PortDeclInput { what: "text".into(), how: "pipe".into() }),
        ("in".to_string(), PortDeclInput { what: "xml".into(), how: "single".into() }),
    ];
    assert_eq!(parse_port_decls(bad), Err("unknown How preset: pipe".to_string()));
}

#[test]
fn update_check_reports_what_was_found() {
    let (info, status) = update_check_outcome("0.1.0".into(), Some(("0.2.0".into(), Some("notes".into()))));
    assert!(info.available);
    assert_eq!(info.latest_version.as_deref(), Some("0.2.0"));
    assert_eq!(info.notes.as_deref(), Some("notes"));
    assert_eq!(status.phase, "ready");
    assert_eq!(status.message.as_deref(), Some("Update 0.2.0 available"));
    let (info, status) = update_check_outcome("0.1.0".into(), None);
    assert!(!info.available);
    assert_eq!(info.current_version, "0.1.0");
    assert_eq!(status.phase, "idle");
    assert_eq!(status.message.as_deref(), Some("No updates available"));
}

fn event(node_id: u128, lifecycle: Lifecycle) -> LifecycleEvent {
    LifecycleEvent { node_id, lifecycle, previous: None, lifecycle_mode: LifecycleMode::Ephemeral }
}

#[test]
fn pending_events_keep_the_latest_per_node() {
    let mut pending = PendingLifecycleEvents::new();
    assert!(pending.is_empty());
    pending.queue(event(1, Lifecycle::Running));
    pending.queue(event(2, Lifecycle::Running));
    pending.queue(event(1, Lifecycle::Done));
    let events = pending.take_all();
    assert_eq!(events, vec![event(1, Lifecycle::Done), event(2, Lifecycle::Running)]);
    assert!(pending.is_empty());
}

#[test]
fn gui_step_skips_a_delivery_it_cannot_make() {
    let up = NodeInstance::new(NodeKind::Constant { value: "v".into() }, None);
    let down = NodeInstance::new(NodeKind::Echo { input: "own".into() }, None);
    let (up_id, down_id) = (up.id, down.id);
    let mut nodes = vec![up, down];
    let edges = vec![Edge::new(up_id, "out".into(), down_id, "in".into())];

    let (first, delivery) = run_graph_step(&mut nodes, &edges, up_id, &mut NoopObserver::new()).unwrap();
    assert_eq!(first.output, "v");
    assert!(delivery.is_none());

    let (second, delivery) = run_graph_step(&mut nodes, &edges, down_id, &mut NoopObserver::new()).unwrap();
    assert_eq!(second.output, "v");
    let d = delivery.unwrap();
    assert_eq!(d.edge_id, edges[0].id);
    assert_eq!(d.envelope.payload, "v");

    let mut fresh = vec![
        NodeInstance::new(NodeKind::Constant { value: "w".into() }, None),
        NodeInstance::new(NodeKind::Echo { input: "".into() }, None),
    ];
    let wire = vec![Edge::new(fresh[0].id, "out".into(), fresh[1].id, "in".into())];
    let target = fresh[1].id;
    match run_graph_step(&mut fresh, &wire, target, &mut NoopObserver::new()) {
        Err(e) => assert!(e.message().starts_with("graph error: upstream node ")),
        Ok(_) => panic!("expected a missing upstream output"),
    }
}
