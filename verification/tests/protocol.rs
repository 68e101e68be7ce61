use node_ide::runtime::node::NodeKind;
use node_ide::runtime::protocol::presets::{default_port_decls_for_kind, Axis, HowPreset, PortDeclaration, WhatPreset};
use node_ide::runtime::protocol::resolve::{resolve_how, resolve_ports, resolve_what, ResolutionOutcome};

fn decl(what: WhatPreset, how: HowPreset) -> PortDeclaration {
    PortDeclaration::new(what, how)
}

fn single() -> HowPreset {
    HowPreset::Single
}

#[test]
fn constant_defaults_text_single_out() {
    let decls = default_port_decls_for_kind(&NodeKind::Constant { value: "x".into() });
    let out = decls.get("out").unwrap();
    assert_eq!(out.what, WhatPreset::Text);
    assert_eq!(out.how, HowPreset::Single);
}

#[test]
fn json_constant_defaults_json_single_out() {
    let decls = default_port_decls_for_kind(&NodeKind::JsonConstant { value: "{}".into() });
    let out = decls.get("out").unwrap();
    assert_eq!(out.what, WhatPreset::Json);
}

#[test]
fn text_single_to_text_single_compatible() {
    let source = decl(WhatPreset::Text, single());
    let target = decl(WhatPreset::Text, single());
    assert_eq!(resolve_ports(&source, &target), ResolutionOutcome::Compatible);
}

#[test]
fn json_to_text_rejected_on_what_axis() {
    let source = decl(WhatPreset::Json, single());
    let target = decl(WhatPreset::Text, single());
    match resolve_ports(&source, &target) {
        ResolutionOutcome::Reject { axis, reason, .. } => {
            assert_eq!(axis, Axis::What);
            assert!(reason.contains("json"));
            assert!(reason.contains("text"));
        }
        _ => panic!("expected reject"),
    }
}

#[test]
fn any_matches_text() {
    let source = decl(WhatPreset::Any, single());
    let target = decl(WhatPreset::Text, single());
    assert_eq!(resolve_ports(&source, &target), ResolutionOutcome::Compatible);
}

#[test]
fn stream_to_single_rejected_on_how_axis() {
    let source = decl(WhatPreset::Text, HowPreset::Stream);
    let target = decl(WhatPreset::Text, single());
    match resolve_ports(&source, &target) {
        ResolutionOutcome::Reject { axis, reason, .. } => {
            assert_eq!(axis, Axis::How);
            assert!(reason.contains("stream"));
        }
        _ => panic!("expected reject"),
    }
}

#[test]
fn what_grid_exhaustive_non_custom() {
    let presets = [WhatPreset::Any, WhatPreset::Text, WhatPreset::Json, WhatPreset::Bytes];

    for source in &presets {
        for target in &presets {
            let outcome = resolve_what(source, target);
            let expected_compatible =
                matches!(source, WhatPreset::Any) || matches!(target, WhatPreset::Any) || source == target;
            assert_eq!(
                outcome == ResolutionOutcome::Compatible,
                expected_compatible,
                "what {source:?} -> {target:?}"
            );
        }
    }
}

#[test]
fn how_grid_exhaustive_non_custom() {
    let presets = [HowPreset::Single, HowPreset::Stream, HowPreset::RequestResponse, HowPreset::Broadcast];

    for source in &presets {
        for target in &presets {
            let outcome = resolve_how(source, target);
            let expected_compatible = matches!(source, HowPreset::Single) && matches!(target, HowPreset::Single);
            assert_eq!(
                outcome == ResolutionOutcome::Compatible,
                expected_compatible,
                "how {source:?} -> {target:?}"
            );
        }
    }
}

#[test]
fn what_rejection_texts_are_exact() {
    let outcome = resolve_what(&WhatPreset::Json, &WhatPreset::Text);
    assert_eq!(
        outcome,
        ResolutionOutcome::Reject {
            axis: Axis::What,
            reason: "What mismatch: source json cannot connect to target text.".into(),
            hint: "Change the target port to json or the source port to text.".into(),
        }
    );
}

#[test]
fn custom_presets_are_rejected() {
    let custom = WhatPreset::Custom { id: "mine".into() };
    match resolve_what(&custom, &WhatPreset::Any) {
        ResolutionOutcome::Reject { reason, .. } => assert_eq!(reason, "Custom What presets are not supported in v3."),
        _ => panic!("expected reject"),
    }
    match resolve_how(&HowPreset::Single, &HowPreset::Custom { id: "x".into() }) {
        ResolutionOutcome::Reject { axis, .. } => assert_eq!(axis, Axis::How),
        _ => panic!("expected reject"),
    }
}

#[test]
fn compatibility_is_symmetric_on_examples() {
    let presets = [WhatPreset::Any, WhatPreset::Text, WhatPreset::Json, WhatPreset::Bytes];
    for a in &presets {
        for b in &presets {
            assert_eq!(
                resolve_what(a, b) == ResolutionOutcome::Compatible,
                resolve_what(b, a) == ResolutionOutcome::Compatible
            );
        }
    }
}

#[test]
fn what_is_checked_before_how() {
    let source = decl(WhatPreset::Json, HowPreset::Stream);
    let target = decl(WhatPreset::Text, single());
    match resolve_ports(&source, &target) {
        ResolutionOutcome::Reject { axis, .. } => assert_eq!(axis, Axis::What),
        _ => panic!("expected reject"),
    }
}

#[test]
fn preset_ids_and_labels() {
    assert_eq!(WhatPreset::Bytes.id(), "bytes");
    assert_eq!(HowPreset::RequestResponse.id(), "request-response");
    assert!(WhatPreset::Custom { id: "a".into() }.is_custom());
    assert!(!HowPreset::Broadcast.is_custom());
    assert_eq!(decl(WhatPreset::Json, HowPreset::Stream).label(), "json·stream");
    assert_eq!(Axis::What.to_string(), "What");
}

#[test]
fn from_ids_parses_and_reports_unknown_ids() {
    assert_eq!(
        PortDeclaration::from_ids("text", "broadcast").unwrap(),
        decl(WhatPreset::Text, HowPreset::Broadcast)
    );
    assert_eq!(PortDeclaration::from_ids("xml", "single").unwrap_err(), "unknown What preset: xml");
    assert_eq!(PortDeclaration::from_ids("any", "push").unwrap_err(), "unknown How preset: push");
    assert_eq!(PortDeclaration::from_ids("custom", "single").unwrap_err(), "unknown What preset: custom");
}

#[test]
fn echo_defaults_declare_in_and_out() {
    let decls = default_port_decls_for_kind(&NodeKind::Echo { input: "".into() });
    assert_eq!(decls.get("in"), Some(&decl(WhatPreset::Text, single())));
    assert_eq!(decls.get("out"), Some(&decl(WhatPreset::Text, single())));
    assert_eq!(decls.get("other"), None);
    assert_eq!(decls.entries().len(), 2);
}

#[test]
fn any_io_is_any_single() {
    assert_eq!(
        node_ide::runtime::sdk::BuiltinNodeDefaults::any_io(),
        decl(WhatPreset::Any, single())
    );
}
