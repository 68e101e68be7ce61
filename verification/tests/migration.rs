use node_ide::json::{JsonNumber, JsonValue};
use node_ide::migration::registry::{MigrationError, MigrationRegistry, RegisteredMigrator};
use node_ide::migration::v1_to_v2::V1ToV2Migrator;
use node_ide::persistence::project::CURRENT_SCHEMA_VERSION;

fn obj(entries: Vec<(&str, JsonValue)>) -> JsonValue {
    JsonValue::Object(entries.into_iter().map(|(k, v)| (k.to_string(), v)).collect())
}

fn num(n: u64) -> JsonValue {
    JsonValue::Number(JsonNumber::PosInt(n))
}

fn float(x: f64) -> JsonValue {
    JsonValue::Number(JsonNumber::Float(x.to_bits()))
}

fn text(s: &str) -> JsonValue {
    JsonValue::from_str_value(s)
}

fn arr(items: Vec<JsonValue>) -> JsonValue {
    JsonValue::Array(items)
}

fn at<'a>(v: &'a JsonValue, i: usize) -> &'a JsonValue {
    match v {
        JsonValue::Array(items) => &items[i],
        _ => panic!("not an array"),
    }
}

fn key<'a>(v: &'a JsonValue, k: &str) -> &'a JsonValue {
    v.get(k).unwrap()
}

fn stored_node(extra: Vec<(&str, JsonValue)>) -> JsonValue {
    let mut entries = vec![
        ("id", text("00000000-0000-0000-0000-000000000001")),
        ("kind", obj(vec![("kind", text("constant")), ("value", text("hi"))])),
        ("lifecycle", text("created")),
        ("last_output", JsonValue::Null),
        ("position", obj(vec![("x", float(0.0)), ("y", float(0.0))])),
    ];
    entries.extend(extra);
    obj(entries)
}

fn version(v: &JsonValue) -> Option<u64> {
    v.get("schema_version").and_then(|n| n.as_u64())
}

#[test]
fn empty_registry_noop_at_current_version() {
    let registry = MigrationRegistry::new();
    let mut data = obj(vec![("schema_version", num(CURRENT_SCHEMA_VERSION as u64)), ("nodes", arr(vec![]))]);
    registry.run(&mut data).unwrap();
    assert_eq!(version(&data), Some(CURRENT_SCHEMA_VERSION as u64));
}

#[test]
fn migrates_v1_project_to_v2() {
    let registry = MigrationRegistry::new();
    let mut data = obj(vec![("schema_version", num(1)), ("nodes", arr(vec![]))]);

    registry.run(&mut data).unwrap();
    assert_eq!(version(&data), Some(CURRENT_SCHEMA_VERSION as u64));
    assert!(data.get("edges").is_some());
    assert!(matches!(key(&data, "edges"), JsonValue::Array(items) if items.is_empty()));
}

#[test]
fn migrates_v2_project_to_v3_with_port_decls() {
    let registry = MigrationRegistry::new();
    let mut data = obj(vec![
        ("schema_version", num(2)),
        ("nodes", arr(vec![stored_node(vec![])])),
        ("edges", arr(vec![])),
    ]);

    registry.run(&mut data).unwrap();
    assert_eq!(version(&data), Some(CURRENT_SCHEMA_VERSION as u64));
    let node = at(key(&data, "nodes"), 0);
    assert!(node.get("port_decls").is_some());
    let preset = key(key(key(key(node, "port_decls"), "out"), "what"), "preset");
    assert_eq!(preset.as_str(), Some("text"));
}

#[test]
fn migrates_v3_project_to_v4() {
    let registry = MigrationRegistry::new();
    let mut data = obj(vec![
        ("schema_version", num(3)),
        ("nodes", arr(vec![stored_node(vec![("port_decls", obj(vec![]))])])),
        ("edges", arr(vec![])),
    ]);

    registry.run(&mut data).unwrap();
    assert_eq!(version(&data), Some(CURRENT_SCHEMA_VERSION as u64));
    let node = at(key(&data, "nodes"), 0);
    assert_eq!(key(node, "lifecycle").as_str(), Some("idle"));
    assert_eq!(key(node, "lifecycle_mode").as_str(), Some("ephemeral"));
}

#[test]
fn migration_v1_to_v2_adds_edges() {
    let registry = MigrationRegistry::new();
    let mut data = obj(vec![("schema_version", num(1)), ("nodes", arr(vec![]))]);

    registry.run(&mut data).unwrap();
    assert_eq!(version(&data), Some(CURRENT_SCHEMA_VERSION as u64));
    assert!(matches!(key(&data, "edges"), JsonValue::Array(items) if items.is_empty()));
}

#[test]
fn migration_v2_to_v3_adds_port_decls() {
    let registry = MigrationRegistry::new();
    let mut data = obj(vec![
        ("schema_version", num(2)),
        ("nodes", arr(vec![stored_node(vec![])])),
        ("edges", arr(vec![])),
    ]);

    registry.run(&mut data).unwrap();
    assert_eq!(version(&data), Some(CURRENT_SCHEMA_VERSION as u64));
    let node = at(key(&data, "nodes"), 0);
    assert!(node.get("port_decls").is_some());
    assert_eq!(key(node, "lifecycle").as_str(), Some("idle"));
    assert_eq!(key(node, "lifecycle_mode").as_str(), Some("ephemeral"));
}

#[test]
fn newer_schema_is_refused_untouched() {
    let registry = MigrationRegistry::new();
    let mut data = obj(vec![("schema_version", num(9))]);
    assert!(registry.can_run(&data));
    match registry.run(&mut data) {
        Err(e) => {
            assert!(matches!(e, MigrationError::UnsupportedVersion(9, 4)));
            assert_eq!(e.message(), "schema version 9 is newer than supported 4");
        }
        Ok(()) => panic!("expected refusal"),
    }
    assert_eq!(version(&data), Some(9));
}

#[test]
fn missing_step_is_reported() {
    let mut registry = MigrationRegistry::new();
    registry.register(RegisteredMigrator::V1ToV2(V1ToV2Migrator));
    let mut data = obj(vec![("nodes", arr(vec![]))]);
    match registry.run(&mut data) {
        Err(MigrationError::MissingMigrator { from, to }) => {
            assert_eq!((from, to), (0, 1));
        }
        other => panic!("unexpected {other:?}"),
    }
    assert_eq!(
        MigrationError::MissingMigrator { from: 0, to: 1 }.message(),
        "no migrator registered for 0 -> 1"
    );
}

#[test]
fn second_run_changes_nothing() {
    let registry = MigrationRegistry::new();
    let mut data = obj(vec![("schema_version", num(1)), ("nodes", arr(vec![stored_node(vec![])]))]);
    registry.run(&mut data).unwrap();
    let once = data.clone();
    registry.run(&mut data).unwrap();
    assert_eq!(format!("{once:?}"), format!("{data:?}"));
}

#[test]
fn echo_and_json_nodes_get_their_kind_defaults() {
    let registry = MigrationRegistry::new();
    let echo = obj(vec![("kind", obj(vec![("kind", text("echo")), ("input", text(""))]))]);
    let json = obj(vec![("kind", obj(vec![("kind", text("json_constant")), ("value", text("{}"))]))]);
    let bare = obj(vec![]);
    let mut data = obj(vec![("schema_version", num(2)), ("nodes", arr(vec![echo, json, bare]))]);
    registry.run(&mut data).unwrap();
    let nodes = key(&data, "nodes");
    let echo_decls = key(at(nodes, 0), "port_decls");
    assert!(echo_decls.get("in").is_some());
    assert_eq!(key(key(key(echo_decls, "out"), "how"), "preset").as_str(), Some("single"));
    let json_decls = key(at(nodes, 1), "port_decls");
    assert_eq!(key(key(key(json_decls, "out"), "what"), "preset").as_str(), Some("json"));
    assert!(json_decls.get("in").is_none());
    let bare_decls = key(at(nodes, 2), "port_decls");
    assert_eq!(key(key(key(bare_decls, "out"), "what"), "preset").as_str(), Some("text"));
    assert!(bare_decls.get("in").is_none());
}

#[test]
fn existing_declarations_and_modes_are_kept() {
    let registry = MigrationRegistry::new();
    let node = obj(vec![
        ("port_decls", obj(vec![("x", num(1))])),
        ("lifecycle_mode", text("persistent")),
        ("lifecycle", text("stopped")),
    ]);
    let mut data = obj(vec![("schema_version", num(2)), ("nodes", arr(vec![node]))]);
    registry.run(&mut data).unwrap();
    let node = at(key(&data, "nodes"), 0);
    assert_eq!(key(key(node, "port_decls"), "x").as_u64(), Some(1));
    assert_eq!(key(node, "lifecycle_mode").as_str(), Some("persistent"));
    assert_eq!(key(node, "lifecycle").as_str(), Some("stopped"));
}

#[test]
fn a_node_that_is_not_an_object_cannot_be_migrated() {
    let registry = MigrationRegistry::new();
    let data = obj(vec![("schema_version", num(2)), ("nodes", arr(vec![num(5)]))]);
    assert!(!registry.can_run(&data));
    let ok = obj(vec![("schema_version", num(2)), ("nodes", arr(vec![JsonValue::Null]))]);
    assert!(registry.can_run(&ok));
}

#[test]
fn step_failure_message() {
    let e = MigrationError::StepFailed { from: 2, to: 3, message: "bad".into() };
    assert_eq!(e.message(), "migration failed at version 2 -> 3: bad");
    assert_eq!(MigrationError::Json("eof".into()).message(), "json error: eof");
}
