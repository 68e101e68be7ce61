use node_ide::persistence::backup::{backup_file_name, is_json_name, latest_backup, sorts_before, BackupError};
use node_ide::persistence::project::{Project, ProjectError, CURRENT_SCHEMA_VERSION};

#[test]
fn default_project_has_schema_version() {
    let project = Project::default();
    assert_eq!(project.schema_version, CURRENT_SCHEMA_VERSION);
}

#[test]
fn node_limit_v1() {
    let project = Project::default();
    assert!(project.can_add_node());
}

#[test]
fn project_error_messages() {
    assert_eq!(ProjectError::NodeLimitExceeded.message(), "v1 allows at most 1 node on canvas");
    assert_eq!(ProjectError::Io("denied".into()).message(), "io error: denied");
    assert_eq!(BackupError::NotFound("/tmp/p.json".into()).message(), "project file does not exist: /tmp/p.json");
}

#[test]
fn backup_names_and_latest_choice() {
    assert_eq!(backup_file_name("20240101T000000"), "pre-update-20240101T000000.json");
    assert!(is_json_name("a.json"));
    assert!(!is_json_name(".json"));
    assert!(!is_json_name("a.json.bak"));
    assert!(sorts_before("pre-update-1.json", "pre-update-2.json"));
    assert!(sorts_before("ab", "abc"));
    assert!(!sorts_before("abc", "abc"));
    let names: Vec<String> = vec![
        "pre-update-20240102T000000.json".into(),
        "notes.txt".into(),
        "pre-update-20240105T000000.json".into(),
        "zzz.bak".into(),
        "pre-update-20240103T000000.json".into(),
    ];
    assert_eq!(latest_backup(&names), Some(2));
    let none: Vec<String> = vec!["a.txt".into(), ".json".into()];
    assert_eq!(latest_backup(&none), None);
}
