pub mod registry;
pub mod v1_to_v2;
pub mod v2_to_v3;
pub mod v3_to_v4;

use vstd::prelude::*;

use crate::migration::registry::{migration_message, MigrationError, MigrationErrorView};
use crate::persistence::backup::{backup_message, BackupError, BackupErrorView};
use crate::persistence::project::{project_message, ProjectError, ProjectErrorView};

verus! {

/// Why migrating the project file failed; the I/O and JSON variants carry the
/// text of the underlying error.
#[derive(Debug)]
pub enum MigrationRunError {
    Io(String),
    Json(String),
    Migration(MigrationError),
    Project(ProjectError),
    Backup(BackupError),
}

pub enum MigrationRunErrorView {
    Io(Seq<char>),
    Json(Seq<char>),
    Migration(MigrationErrorView),
    Project(ProjectErrorView),
    Backup(BackupErrorView),
}

impl View for MigrationRunError {
    type V = MigrationRunErrorView;

    open spec fn view(&self) -> MigrationRunErrorView {
        match self {
            MigrationRunError::Io(m) => MigrationRunErrorView::Io(m@),
            MigrationRunError::Json(m) => MigrationRunErrorView::Json(m@),
            MigrationRunError::Migration(e) => MigrationRunErrorView::Migration(e@),
            MigrationRunError::Project(e) => MigrationRunErrorView::Project(e@),
            MigrationRunError::Backup(e) => MigrationRunErrorView::Backup(e@),
        }
    }
}

/// The message of a migration run error, as the error displays it.
pub open spec fn migration_run_message(e: MigrationRunErrorView) -> Seq<char> {
    match e {
        MigrationRunErrorView::Io(m) => "io error: "@ + m,
        MigrationRunErrorView::Json(m) => "json error: "@ + m,
        MigrationRunErrorView::Migration(e) => "migration error: "@ + migration_message(e),
        MigrationRunErrorView::Project(e) => "project error: "@ + project_message(e),
        MigrationRunErrorView::Backup(e) => "backup error: "@ + backup_message(e),
    }
}

impl MigrationRunError {
    /// The error's message.
    pub fn message(&self) -> (m: String)
        ensures
            m@ == migration_run_message(self@),
    {
        match self {
            MigrationRunError::Io(m) => String::from_str("io error: ").concat(m.as_str()),
            MigrationRunError::Json(m) => String::from_str("json error: ").concat(m.as_str()),
            MigrationRunError::Migration(e) => String::from_str("migration error: ").concat(e.message().as_str()),
            MigrationRunError::Project(e) => String::from_str("project error: ").concat(e.message().as_str()),
            MigrationRunError::Backup(e) => String::from_str("backup error: ").concat(e.message().as_str()),
        }
    }
}

} // verus!
