use vstd::prelude::*;

use crate::runtime::edge::Edge;
use crate::runtime::node::NodeInstance;
use crate::text::{decimal, decimal_string};

verus! {

/// The schema version this build writes; files of older versions are migrated.
pub const CURRENT_SCHEMA_VERSION: u32 = 4;

/// The most nodes the first release allowed on the canvas.
pub const MAX_NODES_V1: usize = 1;

/// The persisted project: its schema version, nodes and edges.
#[derive(Debug)]
pub struct Project {
    pub schema_version: u32,
    pub nodes: Vec<NodeInstance>,
    pub edges: Vec<Edge>,
}

impl Default for Project {
    /// An empty project at the current schema version.
    fn default() -> (p: Self)
        ensures
            p.schema_version == CURRENT_SCHEMA_VERSION,
            p.nodes@.len() == 0,
            p.edges@.len() == 0,
    {
        Project { schema_version: CURRENT_SCHEMA_VERSION, nodes: Vec::new(), edges: Vec::new() }
    }
}

impl Project {
    /// Whether one more node fits under the first release's node limit.
    pub fn can_add_node(&self) -> (b: bool)
        ensures
            b == (self.nodes@.len() < MAX_NODES_V1),
    {
        self.nodes.len() < MAX_NODES_V1
    }
}

/// Why loading or saving the project failed; the I/O and JSON variants carry
/// the text of the underlying error.
#[derive(Debug)]
pub enum ProjectError {
    Io(String),
    Json(String),
    NodeLimitExceeded,
}

pub enum ProjectErrorView {
    Io(Seq<char>),
    Json(Seq<char>),
    NodeLimitExceeded,
}

impl View for ProjectError {
    type V = ProjectErrorView;

    open spec fn view(&self) -> ProjectErrorView {
        match self {
            ProjectError::Io(m) => ProjectErrorView::Io(m@),
            ProjectError::Json(m) => ProjectErrorView::Json(m@),
            ProjectError::NodeLimitExceeded => ProjectErrorView::NodeLimitExceeded,
        }
    }
}

/// The message of a project error, as the error displays it.
pub open spec fn project_message(e: ProjectErrorView) -> Seq<char> {
    match e {
        ProjectErrorView::Io(m) => "io error: "@ + m,
        ProjectErrorView::Json(m) => "json error: "@ + m,
        ProjectErrorView::NodeLimitExceeded => "v1 allows at most "@ + decimal(MAX_NODES_V1 as nat) + " node on canvas"@,
    }
}

impl ProjectError {
    /// The error's message.
    pub fn message(&self) -> (m: String)
        ensures
            m@ == project_message(self@),
    {
        match self {
            ProjectError::Io(m) => String::from_str("io error: ").concat(m.as_str()),
            ProjectError::Json(m) => String::from_str("json error: ").concat(m.as_str()),
            ProjectError::NodeLimitExceeded => String::from_str("v1 allows at most ").concat(
                decimal_string(MAX_NODES_V1 as u32).as_str(),
            ).concat(" node on canvas"),
        }
    }
}

} // verus!
