use vstd::prelude::*;

use crate::ids::v4_id;
use crate::migration::registry::MigrationRegistry;
use crate::persistence::project::{project_message, Project, ProjectError, ProjectErrorView};
use crate::runtime::edge::Edge;
use crate::runtime::graph::{
    graph_step, is_topological_order, orderable, payload_outcome, run_in_order, endpoints_within, has_cycle, has_edge, has_id, is_cycle, new_edge_error, target_taken, validate_new_edge,
    view_ids, connection_outcome, find_node, graph_message, graph_run_outcome, graph_run_view, lemma_views_update, node_index,
    validate_connection, views, ConnectionValidation, GraphError, GraphErrorView, GraphRunResult,
};
use crate::runtime::lifecycle::{initial_state, mode_state, Lifecycle, LifecycleMode};
use crate::runtime::node::{
    hook_calls, after_run, run_refusal, kind_has_port, result_view, run_outcome, runtime_message, start_outcome, stop_outcome, NodeInstance, NodeKind,
    NodeView, Position, RunResult, RuntimeError, RuntimeErrorView, HUNDRED_BITS,
};
use crate::runtime::protocol::presets::{
    decl_in, default_decl_for, default_port_decls_for_kind, lemma_decl_in_push, PortDeclaration,
};
use crate::runtime::runner::{GraphRunner, NoopObserver};
use crate::runtime::sdk::{HookCall, LifecycleHooks, NoopLifecycleHooks};
use crate::seqs::{first_index, lemma_first_index, lemma_first_index_at, lemma_first_index_none};
use crate::text::{uuid_string, uuid_text};

verus! {

/// Why an application command failed.
#[derive(Debug)]
pub enum AppError {
    Project(ProjectError),
    Runtime(RuntimeError),
    Graph(GraphError),
    Validation(String),
}

pub enum AppErrorView {
    Project(ProjectErrorView),
    Runtime(RuntimeErrorView),
    Graph(GraphErrorView),
    Validation(Seq<char>),
}

impl View for AppError {
    type V = AppErrorView;

    open spec fn view(&self) -> AppErrorView {
        match self {
            AppError::Project(e) => AppErrorView::Project(e@),
            AppError::Runtime(e) => AppErrorView::Runtime(e@),
            AppError::Graph(e) => AppErrorView::Graph(e@),
            AppError::Validation(m) => AppErrorView::Validation(m@),
        }
    }
}

/// The message of an application error, as the error displays it.
pub open spec fn app_message(e: AppErrorView) -> Seq<char> {
    match e {
        AppErrorView::Project(p) => "project error: "@ + project_message(p),
        AppErrorView::Runtime(r) => "runtime error: "@ + runtime_message(r),
        AppErrorView::Graph(g) => "graph error: "@ + graph_message(g),
        AppErrorView::Validation(m) => m,
    }
}

impl AppError {
    /// The error's message.
    pub fn message(&self) -> (m: String)
        ensures
            m@ == app_message(self@),
    {
        match self {
            AppError::Project(e) => String::from_str("project error: ").concat(e.message().as_str()),
            AppError::Runtime(e) => String::from_str("runtime error: ").concat(e.message().as_str()),
            AppError::Graph(e) => String::from_str("graph error: ").concat(e.message().as_str()),
            AppError::Validation(m) => m.clone(),
        }
    }
}

/// The refusal of a command on a node id that no node has.
pub open spec fn node_not_found(id: u128) -> AppErrorView {
    AppErrorView::Validation("node not found: "@ + uuid_text(id))
}

/// The refusal of a command on an edge id that no edge has.
pub open spec fn edge_not_found(id: u128) -> AppErrorView {
    AppErrorView::Validation("edge not found: "@ + uuid_text(id))
}

/// What the front end is shown of the state.
#[derive(Debug)]
pub struct AppStateSnapshot {
    pub schema_version: u32,
    pub nodes: Vec<NodeInstance>,
    pub edges: Vec<Edge>,
    pub project_path: String,
}

/// The application state: the open project, where it is saved, and the
/// migrations its file goes through. Saving is the caller's part.
pub struct AppState {
    pub project: Project,
    pub project_path: String,
    pub migration_registry: MigrationRegistry,
}

/// Everything but the nodes is the same in both states.
pub open spec fn same_but_nodes(a: AppState, b: AppState) -> bool {
    &&& a.project.schema_version == b.project.schema_version
    &&& a.project.edges@ == b.project.edges@
    &&& a.project_path@ == b.project_path@
    &&& a.migration_registry.migrators_spec() == b.migration_registry.migrators_spec()
}

/// Everything but the nodes and the edges is the same in both states.
pub open spec fn same_but_graph(a: AppState, b: AppState) -> bool {
    &&& a.project.schema_version == b.project.schema_version
    &&& a.project_path@ == b.project_path@
    &&& a.migration_registry.migrators_spec() == b.migration_registry.migrators_spec()
}

/// The nodes of `b` are those of `a` with the node at `i` replaced by `n`.
pub open spec fn node_replaced(a: Seq<NodeInstance>, b: Seq<NodeInstance>, i: int, n: NodeView) -> bool {
    b.len() == a.len() && views(b) == views(a).update(i, n)
}

/// A node after its kind is replaced: the new kind's default declarations
/// are added for the ports that have none, and nothing else changes.
pub open spec fn kind_updated(before: NodeView, kind: NodeKind, after: NodeView) -> bool {
    &&& after.id == before.id
    &&& after.kind == kind
    &&& after.lifecycle == before.lifecycle
    &&& after.lifecycle_mode == before.lifecycle_mode
    &&& after.last_output == before.last_output
    &&& after.position == before.position
    &&& forall|k: Seq<char>| #[trigger] decl_in(after.port_decls, k) == if decl_in(before.port_decls, k) is Some {
        decl_in(before.port_decls, k)
    } else {
        default_decl_for(kind, k)
    }
}

/// A declaration after a list of updates, applied in order: the last update
/// of the port wins.
pub open spec fn updated_decl(
    before: Option<PortDeclaration>,
    updates: Seq<(Seq<char>, PortDeclaration)>,
    port: Seq<char>,
) -> Option<PortDeclaration>
    decreases updates.len(),
{
    if updates.len() == 0 {
        before
    } else if updates.last().0 == port {
        Some(updates.last().1)
    } else {
        updated_decl(before, updates.drop_last(), port)
    }
}

pub open spec fn undeclared_port(kind: NodeKind) -> spec_fn((Seq<char>, PortDeclaration)) -> bool {
    |u: (Seq<char>, PortDeclaration)| !kind_has_port(kind, u.0)
}

/// A node after port updates: the other fields are unchanged and each port
/// holds its last update among `updates`.
pub open spec fn ports_updated(before: NodeView, updates: Seq<(Seq<char>, PortDeclaration)>, after: NodeView) -> bool {
    &&& after.id == before.id
    &&& after.kind == before.kind
    &&& after.lifecycle == before.lifecycle
    &&& after.lifecycle_mode == before.lifecycle_mode
    &&& after.last_output == before.last_output
    &&& after.position == before.position
    &&& forall|k: Seq<char>| #[trigger] decl_in(after.port_decls, k) == updated_decl(decl_in(before.port_decls, k), updates, k)
}

/// A node after its lifecycle mode is set: a failed node stays failed, any
/// other starts over in the mode's initial state.
pub open spec fn mode_updated(before: NodeView, mode: LifecycleMode) -> NodeView {
    NodeView {
        lifecycle_mode: mode,
        lifecycle: if before.lifecycle == Lifecycle::Failed {
            Lifecycle::Failed
        } else {
            initial_state(mode)
        },
        ..before
    }
}

/// Setting a node's mode puts it in that mode and, unless it had failed, in
/// the mode's starting state: `Stopped` for a persistent node, `Idle` for an
/// ephemeral one, whatever state it was in before (a finished `Done` node
/// included). The resulting state is always one the new mode allows, and
/// nothing but the mode and the state changes.
pub proof fn lemma_mode_change_resets_lifecycle(before: NodeView, mode: LifecycleMode)
    ensures
        mode_updated(before, mode).lifecycle_mode == mode,
        before.lifecycle == Lifecycle::Failed ==> mode_updated(before, mode).lifecycle == Lifecycle::Failed,
        before.lifecycle != Lifecycle::Failed && mode == LifecycleMode::Persistent
            ==> mode_updated(before, mode).lifecycle == Lifecycle::Stopped,
        before.lifecycle != Lifecycle::Failed && mode == LifecycleMode::Ephemeral
            ==> mode_updated(before, mode).lifecycle == Lifecycle::Idle,
        mode_state(mode_updated(before, mode).lifecycle, mode),
        mode_updated(before, mode).id == before.id,
        mode_updated(before, mode).kind == before.kind,
        mode_updated(before, mode).last_output == before.last_output,
        mode_updated(before, mode).position == before.position,
        mode_updated(before, mode).port_decls == before.port_decls,
{
}

/// The text of the refusal to change the mode of a running node.
pub open spec fn mode_while_running() -> Seq<char> {
    "cannot change lifecycle mode while node is running"@
}

/// The views of the port updates.
pub open spec fn update_views(updates: Seq<(String, PortDeclaration)>) -> Seq<(Seq<char>, PortDeclaration)> {
    updates.map_values(|u: (String, PortDeclaration)| (u.0@, u.1))
}

/// The refusal of a port that the node does not have.
pub open spec fn port_not_declared(port: Seq<char>) -> AppErrorView {
    AppErrorView::Validation("port '"@ + port + "' is not declared on this node"@)
}

fn not_found_error(id: u128) -> (e: AppError)
    ensures
        e@ == node_not_found(id),
{
    AppError::Validation(String::from_str("node not found: ").concat(uuid_string(id).as_str()))
}

fn clone_nodes(nodes: &Vec<NodeInstance>) -> (out: Vec<NodeInstance>)
    ensures
        views(out@) == views(nodes@),
{
    let mut out: Vec<NodeInstance> = Vec::new();
    let mut i: usize = 0;
    while i < nodes.len()
        invariant
            i <= nodes@.len(),
            out@.len() == i,
            forall|j: int| 0 <= j < i ==> (#[trigger] out@[j])@ == nodes@[j]@,
        decreases nodes@.len() - i,
    {
        out.push(nodes[i].clone());
        i = i + 1;
    }
    assert(views(out@) =~= views(nodes@));
    out
}

fn clone_edges(edges: &Vec<Edge>) -> (out: Vec<Edge>)
    ensures
        out@ == edges@,
{
    let mut out: Vec<Edge> = Vec::new();
    let mut i: usize = 0;
    while i < edges.len()
        invariant
            i <= edges@.len(),
            out@ == edges@.take(i as int),
        decreases edges@.len() - i,
    {
        out.push(edges[i].clone());
        i = i + 1;
        assert(out@ =~= edges@.take(i as int));
    }
    assert(edges@.take(edges@.len() as int) =~= edges@);
    out
}

impl AppState {
    /// The state of an opened project, with the built-in migrations.
    pub fn new(project: Project, project_path: String) -> (s: Self)
        ensures
            s.project == project,
            s.project_path == project_path,
            s.migration_registry.migrators_spec() == crate::migration::registry::builtin_migrators(),
    {
        AppState { project, project_path, migration_registry: MigrationRegistry::new() }
    }

    /// A copy of what the front end shows.
    pub fn snapshot(&self) -> (s: AppStateSnapshot)
        ensures
            s.schema_version == self.project.schema_version,
            views(s.nodes@) == views(self.project.nodes@),
            s.edges@ == self.project.edges@,
            s.project_path@ == self.project_path@,
    {
        AppStateSnapshot {
            schema_version: self.project.schema_version,
            nodes: clone_nodes(&self.project.nodes),
            edges: clone_edges(&self.project.edges),
            project_path: self.project_path.clone(),
        }
    }

    fn node_slot(&self, id: u128) -> (r: Result<usize, AppError>)
        ensures
            match r {
                Ok(i) => node_index(views(self.project.nodes@), id) == Some(i as int) && i < self.project.nodes@.len(),
                Err(e) => node_index(views(self.project.nodes@), id) is None && e@ == node_not_found(id),
            },
    {
        match find_node(self.project.nodes.as_slice(), id) {
            Some(i) => Ok(i),
            None => Err(not_found_error(id)),
        }
    }

    fn put_node(&mut self, i: usize, node: NodeInstance)
        requires
            i < old(self).project.nodes@.len(),
        ensures
            same_but_nodes(*old(self), *final(self)),
            node_replaced(old(self).project.nodes@, final(self).project.nodes@, i as int, node@),
            node.id == old(self).project.nodes@[i as int].id ==> keeps_wf(*old(self), *final(self)),
    {
        let ghost before = self.project.nodes@;
        let ghost id = node.id;
        self.project.nodes.set(i, node);
        proof {
            lemma_views_update(before, i as int, self.project.nodes@[i as int]);
            if id == before[i as int].id {
                assert(view_ids(views(self.project.nodes@)) =~= view_ids(views(before)));
                lemma_wf_same_ids(views(before), views(self.project.nodes@), self.project.edges@);
            }
        }
    }

    /// Places a new node of the kind, at the position or the default one.
    pub fn add_node(&mut self, kind: NodeKind, position: Option<Position>) -> (r: Result<NodeInstance, AppError>)
        ensures
            keeps_wf(*old(self), *final(self)),
            same_but_nodes(*old(self), *final(self)),
            r matches Ok(n) && views(final(self).project.nodes@) == views(old(self).project.nodes@).push(n@)
                && v4_id(n.id)
                && n.kind == kind
                && n.lifecycle == Lifecycle::Idle
                && n.lifecycle_mode == LifecycleMode::Ephemeral
                && n.last_output is None
                && n.position == (match position {
                    Some(p) => p,
                    None => Position { x_bits: HUNDRED_BITS, y_bits: HUNDRED_BITS },
                })
                && forall|k: Seq<char>| #[trigger] n.port_decls.decl(k) == default_decl_for(kind, k),
    {
        let node = NodeInstance::new(kind, position);
        let ghost before = self.project.nodes@;
        self.project.nodes.push(node.clone());
        proof {
            assert(views(self.project.nodes@) =~= views(before).push(node@));
            if graph_well_formed(views(before), self.project.edges@) {
                assert forall|x: u128| #[trigger] view_ids(views(before)).contains(x) implies view_ids(
                    views(self.project.nodes@),
                ).contains(x) by {
                    let j = choose|j: int| 0 <= j < view_ids(views(before)).len() && view_ids(views(before))[j] == x;
                    assert(view_ids(views(self.project.nodes@))[j] == x);
                }
                lemma_wf_more_nodes(views(before), views(self.project.nodes@), self.project.edges@);
            }
        }
        Ok(node)
    }

    /// Replaces a node's kind; ports the new kind declares by default get
    /// that declaration unless they already have one.
    pub fn update_node(&mut self, id: u128, kind: NodeKind) -> (r: Result<NodeInstance, AppError>)
        ensures
            keeps_wf(*old(self), *final(self)),
            same_but_nodes(*old(self), *final(self)),
            match node_index(views(old(self).project.nodes@), id) {
                None => final(self).project.nodes@ == old(self).project.nodes@ && (r matches Err(e) && e@ == node_not_found(id)),
                Some(i) => r matches Ok(n) && node_replaced(old(self).project.nodes@, final(self).project.nodes@, i, n@)
                    && kind_updated(old(self).project.nodes@[i]@, kind, n@),
            },
    {
        let idx = match self.node_slot(id) {
            Ok(i) => i,
            Err(e) => {
                return Err(e);
            },
        };
        let mut node = self.project.nodes[idx].clone();
        let ghost before = node@;
        node.kind = kind;
        let defaults = default_port_decls_for_kind(&node.kind);
        let entries = defaults.entries();
        let mut j: usize = 0;
        while j < entries.len()
            invariant
                j <= entries@.len(),
                entries@.len() == defaults@.len(),
                forall|m: int| 0 <= m < entries@.len() ==> (#[trigger] entries@[m]).0@ == defaults@[m].0 && entries@[m].1 == defaults@[m].1,
                forall|k: Seq<char>| #[trigger] defaults.decl(k) == default_decl_for(kind, k),
                node.id == before.id,
                node.kind == kind,
                node.lifecycle == before.lifecycle,
                node.lifecycle_mode == before.lifecycle_mode,
                crate::runtime::node::opt_view(node.last_output) == before.last_output,
                node.position == before.position,
                forall|k: Seq<char>| #[trigger] node.port_decls.decl(k) == if decl_in(before.port_decls, k) is Some {
                    decl_in(before.port_decls, k)
                } else {
                    decl_in(defaults@.take(j as int), k)
                },
            decreases entries@.len() - j,
        {
            let port = entries[j].0.clone();
            let decl = entries[j].1.clone();
            node.port_decls.insert_if_absent(port, decl);
            proof {
                assert(defaults@.take(j + 1) =~= defaults@.take(j as int).push(defaults@[j as int]));
                assert forall|k: Seq<char>| #[trigger] decl_in(defaults@.take(j + 1), k) == if decl_in(defaults@.take(j as int), k) is Some {
                    decl_in(defaults@.take(j as int), k)
                } else if defaults@[j as int].0 == k {
                    Some(defaults@[j as int].1)
                } else {
                    None
                } by {
                    lemma_decl_in_push(defaults@.take(j as int), defaults@[j as int], k);
                }
            }
            j = j + 1;
        }
        proof {
            assert(defaults@.take(entries@.len() as int) =~= defaults@);
            assert forall|k: Seq<char>| #[trigger] decl_in(node@.port_decls, k) == if decl_in(before.port_decls, k) is Some {
                decl_in(before.port_decls, k)
            } else {
                default_decl_for(kind, k)
            } by {
                assert(node.port_decls.decl(k) == decl_in(node.port_decls@, k));
                assert(defaults.decl(k) == default_decl_for(kind, k));
            }
        }
        let result = node.clone();
        self.put_node(idx, node);
        Ok(result)
    }

    /// Sets declarations on a node's ports, in order; a port the node does
    /// not have stops the updates, keeping those made before it.
    pub fn update_node_ports(&mut self, id: u128, port_decls: Vec<(String, PortDeclaration)>) -> (r: Result<(), AppError>)
        ensures
            keeps_wf(*old(self), *final(self)),
            same_but_nodes(*old(self), *final(self)),
            match node_index(views(old(self).project.nodes@), id) {
                None => final(self).project.nodes@ == old(self).project.nodes@ && (r matches Err(e) && e@ == node_not_found(id)),
                Some(i) => {
                    let us = update_views(port_decls@);
                    let before = old(self).project.nodes@[i]@;
                    let after = views(final(self).project.nodes@)[i];
                    &&& node_replaced(old(self).project.nodes@, final(self).project.nodes@, i, after)
                    &&& match first_index(us, undeclared_port(before.kind)) {
                        None => r is Ok && ports_updated(before, us, after),
                        Some(f) => (r matches Err(e) && e@ == port_not_declared(us[f].0))
                            && ports_updated(before, us.take(f), after),
                    }
                },
            },
    {
        let idx = match self.node_slot(id) {
            Ok(i) => i,
            Err(e) => {
                return Err(e);
            },
        };
        let ghost us = update_views(port_decls@);
        let mut node = self.project.nodes[idx].clone();
        let ghost before = node@;
        let mut j: usize = 0;
        while j < port_decls.len()
            invariant
                j <= port_decls@.len(),
                us == update_views(port_decls@),
                us.len() == port_decls@.len(),
                idx < self.project.nodes@.len(),
                node_index(views(old(self).project.nodes@), id) == Some(idx as int),
                before == old(self).project.nodes@[idx as int]@,
                *self == *old(self),
                forall|m: int| 0 <= m < j ==> !undeclared_port(before.kind)(#[trigger] us[m]),
                node.id == before.id,
                node.kind == before.kind,
                node.lifecycle == before.lifecycle,
                node.lifecycle_mode == before.lifecycle_mode,
                crate::runtime::node::opt_view(node.last_output) == before.last_output,
                node.position == before.position,
                forall|k: Seq<char>| #[trigger] node.port_decls.decl(k) == updated_decl(
                    decl_in(before.port_decls, k),
                    us.take(j as int),
                    k,
                ),
            decreases port_decls@.len() - j,
        {
            let port = &port_decls[j].0;
            if !node.has_port(port.as_str()) {
                let message = String::from_str("port '").concat(port.as_str()).concat("' is not declared on this node");
                proof {
                    assert(us[j as int].0 == port@);
                    assert(undeclared_port(before.kind)(us[j as int]));
                    lemma_first_index_at(us, undeclared_port(before.kind), j as int);
                    assert forall|k: Seq<char>| #[trigger] decl_in(node@.port_decls, k) == updated_decl(
                        decl_in(before.port_decls, k),
                        us.take(j as int),
                        k,
                    ) by {
                        assert(node.port_decls.decl(k) == decl_in(node.port_decls@, k));
                    }
                }
                self.put_node(idx, node);
                return Err(AppError::Validation(message));
            }
            let ghost old_node = node@;
            node.port_decls.insert(port.clone(), port_decls[j].1.clone());
            proof {
                assert(us[j as int] == (port@, port_decls@[j as int].1));
                let t = us.take(j + 1);
                assert(t.drop_last() =~= us.take(j as int));
                assert(t.last() == us[j as int]);
            }
            j = j + 1;
        }
        proof {
            lemma_first_index_none(us, undeclared_port(before.kind));
            assert(us.take(us.len() as int) =~= us);
            assert forall|k: Seq<char>| #[trigger] decl_in(node@.port_decls, k) == updated_decl(
                decl_in(before.port_decls, k),
                us,
                k,
            ) by {
                assert(node.port_decls.decl(k) == decl_in(node.port_decls@, k));
            }
        }
        self.put_node(idx, node);
        Ok(())
    }

    /// Moves a node on the canvas.
    pub fn move_node(&mut self, id: u128, position: Position) -> (r: Result<(), AppError>)
        ensures
            keeps_wf(*old(self), *final(self)),
            same_but_nodes(*old(self), *final(self)),
            match node_index(views(old(self).project.nodes@), id) {
                None => final(self).project.nodes@ == old(self).project.nodes@ && (r matches Err(e) && e@ == node_not_found(id)),
                Some(i) => r is Ok && node_replaced(
                    old(self).project.nodes@,
                    final(self).project.nodes@,
                    i,
                    NodeView { position, ..old(self).project.nodes@[i]@ },
                ),
            },
    {
        let idx = match self.node_slot(id) {
            Ok(i) => i,
            Err(e) => {
                return Err(e);
            },
        };
        let mut node = self.project.nodes[idx].clone();
        node.position = position;
        self.put_node(idx, node);
        Ok(())
    }

    /// Sets a node's lifecycle mode; refused while the node runs.
    pub fn update_node_mode(&mut self, id: u128, mode: LifecycleMode) -> (r: Result<(), AppError>)
        ensures
            keeps_wf(*old(self), *final(self)),
            same_but_nodes(*old(self), *final(self)),
            match node_index(views(old(self).project.nodes@), id) {
                None => final(self).project.nodes@ == old(self).project.nodes@ && (r matches Err(e) && e@ == node_not_found(id)),
                Some(i) => if old(self).project.nodes@[i].lifecycle == Lifecycle::Running {
                    final(self).project.nodes@ == old(self).project.nodes@
                        && (r matches Err(e) && e@ == AppErrorView::Validation(mode_while_running()))
                } else {
                    r is Ok && node_replaced(
                        old(self).project.nodes@,
                        final(self).project.nodes@,
                        i,
                        mode_updated(old(self).project.nodes@[i]@, mode),
                    )
                },
            },
    {
        let idx = match self.node_slot(id) {
            Ok(i) => i,
            Err(e) => {
                return Err(e);
            },
        };
        if self.project.nodes[idx].lifecycle == Lifecycle::Running {
            return Err(AppError::Validation(String::from_str("cannot change lifecycle mode while node is running")));
        }
        let mut node = self.project.nodes[idx].clone();
        node.lifecycle_mode = mode;
        if node.lifecycle != Lifecycle::Failed {
            node.lifecycle = Lifecycle::initial_for_mode(mode);
        }
        self.put_node(idx, node);
        Ok(())
    }

    fn apply_start<H: LifecycleHooks>(&mut self, id: u128, hooks: &mut H) -> (r: Result<NodeInstance, AppError>)
        ensures
            final(hooks).calls() == old(hooks).calls() + command_calls(old(self).project.nodes@, id, true),
            keeps_wf(*old(self), *final(self)),
            same_but_nodes(*old(self), *final(self)),
            command_outcome(old(self).project.nodes@, final(self).project.nodes@, id, r, true),
    {
        let idx = match self.node_slot(id) {
            Ok(i) => i,
            Err(e) => {
                return Err(e);
            },
        };
        let mut node = self.project.nodes[idx].clone();
        let res = node.start_with_hooks(hooks);
        let updated = node.clone();
        self.put_node(idx, node);
        match res {
            Ok(()) => Ok(updated),
            Err(e) => Err(AppError::Runtime(e)),
        }
    }

    fn apply_stop<H: LifecycleHooks>(&mut self, id: u128, hooks: &mut H) -> (r: Result<NodeInstance, AppError>)
        ensures
            final(hooks).calls() == old(hooks).calls() + command_calls(old(self).project.nodes@, id, false),
            keeps_wf(*old(self), *final(self)),
            same_but_nodes(*old(self), *final(self)),
            command_outcome(old(self).project.nodes@, final(self).project.nodes@, id, r, false),
    {
        let idx = match self.node_slot(id) {
            Ok(i) => i,
            Err(e) => {
                return Err(e);
            },
        };
        let mut node = self.project.nodes[idx].clone();
        let res = node.stop_with_hooks(hooks);
        let updated = node.clone();
        self.put_node(idx, node);
        match res {
            Ok(()) => Ok(updated),
            Err(e) => Err(AppError::Runtime(e)),
        }
    }

    /// Starts a persistent node.
    pub fn start_node(&mut self, id: u128) -> (r: Result<NodeInstance, AppError>)
        ensures
            keeps_wf(*old(self), *final(self)),
            same_but_nodes(*old(self), *final(self)),
            command_outcome(old(self).project.nodes@, final(self).project.nodes@, id, r, true),
    {
        self.apply_start(id, &mut NoopLifecycleHooks::new())
    }

    /// Starts a persistent node, reporting its transitions to the hooks.
    pub fn start_node_with_hooks<H: LifecycleHooks>(&mut self, id: u128, hooks: &mut H) -> (r: Result<NodeInstance, AppError>)
        ensures
            final(hooks).calls() == old(hooks).calls() + command_calls(old(self).project.nodes@, id, true),
            keeps_wf(*old(self), *final(self)),
            same_but_nodes(*old(self), *final(self)),
            command_outcome(old(self).project.nodes@, final(self).project.nodes@, id, r, true),
    {
        self.apply_start(id, hooks)
    }

    /// Stops a persistent node.
    pub fn stop_node(&mut self, id: u128) -> (r: Result<NodeInstance, AppError>)
        ensures
            keeps_wf(*old(self), *final(self)),
            same_but_nodes(*old(self), *final(self)),
            command_outcome(old(self).project.nodes@, final(self).project.nodes@, id, r, false),
    {
        self.apply_stop(id, &mut NoopLifecycleHooks::new())
    }

    /// Stops a persistent node, reporting its transitions to the hooks.
    pub fn stop_node_with_hooks<H: LifecycleHooks>(&mut self, id: u128, hooks: &mut H) -> (r: Result<NodeInstance, AppError>)
        ensures
            final(hooks).calls() == old(hooks).calls() + command_calls(old(self).project.nodes@, id, false),
            keeps_wf(*old(self), *final(self)),
            same_but_nodes(*old(self), *final(self)),
            command_outcome(old(self).project.nodes@, final(self).project.nodes@, id, r, false),
    {
        self.apply_stop(id, hooks)
    }

    /// Runs one node with no wired input.
    pub fn run_node(&mut self, id: u128) -> (r: Result<RunResult, AppError>)
        ensures
            keeps_wf(*old(self), *final(self)),
            same_but_nodes(*old(self), *final(self)),
            r matches Err(e) ==> e is Runtime,
            match node_index(views(old(self).project.nodes@), id) {
                None => final(self).project.nodes@ == old(self).project.nodes@
                    && (r matches Err(e) && e@ == AppErrorView::Runtime(RuntimeErrorView::NotFound(id))),
                Some(i) => final(self).project.nodes@.len() == old(self).project.nodes@.len()
                    && (forall|j: int| 0 <= j < old(self).project.nodes@.len() && j != i
                        ==> final(self).project.nodes@[j] == old(self).project.nodes@[j])
                    && (as_runtime_result(r) matches Some(rr) && run_outcome(
                        old(self).project.nodes@[i]@,
                        None,
                        final(self).project.nodes@[i]@,
                        result_view(rr),
                    )),
            },
    {
        let mut observer = NoopObserver::new();
        let r = GraphRunner::run_node_observed(&mut self.project.nodes, id, None, &mut observer);
        proof {
            let a = old(self).project.nodes@;
            let b = self.project.nodes@;
            if let Some(i) = node_index(views(a), id) {
                lemma_first_index(views(a), has_id(id));
                assert(b[i]@.id == a[i]@.id);
                assert forall|j: int| 0 <= j < b.len() implies #[trigger] b[j].id == a[j].id by {
                    if j != i {
                        assert(b[j] == a[j]);
                    } else {
                        assert(b[j]@.id == a[j]@.id);
                    }
                }
                assert(view_ids(views(b)) =~= view_ids(views(a)));
            }
            lemma_wf_same_ids(views(a), views(b), self.project.edges@);
        }
        match r {
            Ok(v) => Ok(v),
            Err(e) => Err(AppError::Runtime(e)),
        }
    }

    fn run_whole_graph(&mut self) -> (r: Result<GraphRunResult, AppError>)
        ensures
            keeps_wf(*old(self), *final(self)),
            same_but_nodes(*old(self), *final(self)),
            r matches Err(e) ==> e is Graph,
            (as_graph_result(r) matches Some(g) && graph_run_outcome(
                views(old(self).project.nodes@),
                old(self).project.edges@,
                views(final(self).project.nodes@),
                graph_run_view(g),
            )),
    {
        let edges = clone_edges(&self.project.edges);
        let mut observer = NoopObserver::new();
        let r = GraphRunner::run_graph_observed(&mut self.project.nodes, edges.as_slice(), &mut observer);
        proof {
            let a = views(old(self).project.nodes@);
            let b = views(self.project.nodes@);
            if orderable(view_ids(a), edges@) {
                let o = choose|o: Seq<u128>| #[trigger] is_topological_order(view_ids(a), edges@, o)
                    && run_in_order(a, edges@, o) == (b, graph_run_view(r));
                lemma_run_keeps_ids(a, edges@, o);
            }
            lemma_wf_same_ids(a, b, self.project.edges@);
        }
        match r {
            Ok(v) => Ok(v),
            Err(e) => Err(AppError::Graph(e)),
        }
    }

    /// Runs the graph in topological order; the front end paces what it shows.
    pub fn run_graph(&mut self) -> (r: Result<GraphRunResult, AppError>)
        ensures
            keeps_wf(*old(self), *final(self)),
            same_but_nodes(*old(self), *final(self)),
            r matches Err(e) ==> e is Graph,
            (as_graph_result(r) matches Some(g) && graph_run_outcome(
                views(old(self).project.nodes@),
                old(self).project.edges@,
                views(final(self).project.nodes@),
                graph_run_view(g),
            )),
    {
        self.run_whole_graph()
    }

    /// Runs the graph in topological order, for headless callers.
    pub fn run_graph_headless(&mut self) -> (r: Result<GraphRunResult, AppError>)
        ensures
            keeps_wf(*old(self), *final(self)),
            same_but_nodes(*old(self), *final(self)),
            r matches Err(e) ==> e is Graph,
            (as_graph_result(r) matches Some(g) && graph_run_outcome(
                views(old(self).project.nodes@),
                old(self).project.edges@,
                views(final(self).project.nodes@),
                graph_run_view(g),
            )),
    {
        self.run_whole_graph()
    }

    /// Removes a node and every edge that touches it.
    pub fn remove_node(&mut self, id: u128) -> (r: Result<(), AppError>)
        ensures
            same_but_graph(*old(self), *final(self)),
            if node_index(views(old(self).project.nodes@), id) is None {
                &&& final(self).project.nodes@ == old(self).project.nodes@
                &&& final(self).project.edges@ == old(self).project.edges@
                &&& r matches Err(e) && e@ == node_not_found(id)
            } else {
                &&& r is Ok
                &&& views(final(self).project.nodes@) == views(old(self).project.nodes@.filter(node_kept(id)))
                &&& final(self).project.edges@ == old(self).project.edges@.filter(edge_detached(id))
            },
            graph_well_formed(views(old(self).project.nodes@), old(self).project.edges@)
                ==> graph_well_formed(views(final(self).project.nodes@), final(self).project.edges@),
    {
        let (kept, found) = kept_nodes(&self.project.nodes, id);
        if !found {
            return Err(not_found_error(id));
        }
        self.project.nodes = kept;
        let edges = kept_edges(&self.project.edges, &EdgeFilter::Detached(id));
        self.project.edges = edges;
        proof {
            if graph_well_formed(views(old(self).project.nodes@), old(self).project.edges@) {
                lemma_wf_remove_node(old(self).project.nodes@, old(self).project.edges@, id);
                lemma_wf_same_ids(
                    views(old(self).project.nodes@.filter(node_kept(id))),
                    views(self.project.nodes@),
                    self.project.edges@,
                );
            }
        }
        Ok(())
    }

    /// Connects an output port to an input port, when the connection is valid.
    pub fn add_edge(
        &mut self,
        source_node_id: u128,
        source_port: String,
        target_node_id: u128,
        target_port: String,
    ) -> (r: Result<Edge, AppError>)
        ensures
            same_but_graph(*old(self), *final(self)),
            final(self).project.nodes@ == old(self).project.nodes@,
            match new_edge_error(
                views(old(self).project.nodes@),
                old(self).project.edges@,
                candidate_edge(source_node_id, source_port, target_node_id, target_port),
            ) {
                None => r matches Ok(e) && v4_id(e.id) && e.source_node_id == source_node_id && e.source_port == source_port
                    && e.target_node_id == target_node_id && e.target_port == target_port
                    && final(self).project.edges@ == old(self).project.edges@.push(e),
                Some(ge) => final(self).project.edges@ == old(self).project.edges@
                    && (r matches Err(e) && e@ == AppErrorView::Graph(ge)),
            },
            graph_well_formed(views(old(self).project.nodes@), old(self).project.edges@)
                ==> graph_well_formed(views(final(self).project.nodes@), final(self).project.edges@),
    {
        let ghost c = candidate_edge(source_node_id, source_port, target_node_id, target_port);
        let edge = Edge::new(source_node_id, source_port, target_node_id, target_port);
        proof {
            lemma_edge_id_irrelevant(views(self.project.nodes@), self.project.edges@, edge, c);
        }
        match validate_new_edge(self.project.nodes.as_slice(), self.project.edges.as_slice(), &edge) {
            Ok(()) => {},
            Err(e) => {
                return Err(AppError::Graph(e));
            },
        }
        self.project.edges.push(edge.clone());
        proof {
            if graph_well_formed(views(old(self).project.nodes@), old(self).project.edges@) {
                lemma_wf_add_edge(views(self.project.nodes@), old(self).project.edges@, edge);
            }
        }
        Ok(edge)
    }

    /// Removes an edge.
    pub fn remove_edge(&mut self, id: u128) -> (r: Result<(), AppError>)
        ensures
            same_but_graph(*old(self), *final(self)),
            final(self).project.nodes@ == old(self).project.nodes@,
            if exists|k: int| 0 <= k < old(self).project.edges@.len() && (#[trigger] old(self).project.edges@[k]).id == id {
                r is Ok && final(self).project.edges@ == old(self).project.edges@.filter(edge_kept(id))
            } else {
                final(self).project.edges@ == old(self).project.edges@ && (r matches Err(e) && e@ == edge_not_found(id))
            },
            graph_well_formed(views(old(self).project.nodes@), old(self).project.edges@)
                ==> graph_well_formed(views(final(self).project.nodes@), final(self).project.edges@),
    {
        let before = self.project.edges.len();
        let edges = kept_edges(&self.project.edges, &EdgeFilter::Other(id));
        if edges.len() == before {
            proof {
                lemma_filter_len_same(old(self).project.edges@, edge_kept(id));
            }
            return Err(AppError::Validation(String::from_str("edge not found: ").concat(uuid_string(id).as_str())));
        }
        proof {
            lemma_filter_len_same(old(self).project.edges@, edge_kept(id));
            if graph_well_formed(views(old(self).project.nodes@), old(self).project.edges@) {
                lemma_wf_fewer_edges(views(self.project.nodes@), old(self).project.edges@, edge_kept(id));
            }
        }
        self.project.edges = edges;
        Ok(())
    }

    /// Checks whether two node ports could be connected.
    pub fn validate_connection(
        &self,
        source_node_id: u128,
        source_port: String,
        target_node_id: u128,
        target_port: String,
    ) -> (r: Result<ConnectionValidation, AppError>)
        ensures
            match connection_outcome(views(self.project.nodes@), source_node_id, source_port@, target_node_id, target_port@) {
                Ok(cv) => r matches Ok(v) && v@ == cv,
                Err(ge) => r matches Err(e) && e@ == AppErrorView::Graph(ge),
            },
    {
        match validate_connection(
            self.project.nodes.as_slice(),
            source_node_id,
            source_port.as_str(),
            target_node_id,
            target_port.as_str(),
        ) {
            Ok(v) => Ok(v),
            Err(e) => Err(AppError::Graph(e)),
        }
    }
}

/// A run's result as the runtime gives it: the result, or the runtime error
/// inside the application error; `None` for any other application error.
pub open spec fn as_runtime_result(r: Result<RunResult, AppError>) -> Option<Result<RunResult, RuntimeError>> {
    match r {
        Ok(v) => Some(Ok(v)),
        Err(AppError::Runtime(e)) => Some(Err(e)),
        Err(_) => None,
    }
}

/// A graph run's result as the graph runner gives it: the result, or the
/// graph error inside the application error; `None` for any other
/// application error.
pub open spec fn as_graph_result(r: Result<GraphRunResult, AppError>) -> Option<Result<GraphRunResult, GraphError>> {
    match r {
        Ok(v) => Some(Ok(v)),
        Err(AppError::Graph(e)) => Some(Err(e)),
        Err(_) => None,
    }
}

/// The hook calls of a start (`starting`) or stop command on the node with
/// the id: none for an unknown id, else those of the transitions it makes.
pub open spec fn command_calls(nodes: Seq<NodeInstance>, id: u128, starting: bool) -> Seq<HookCall> {
    match node_index(views(nodes), id) {
        None => Seq::<HookCall>::empty(),
        Some(i) => hook_calls(
            if starting {
                start_outcome(nodes[i]@).2
            } else {
                stop_outcome(nodes[i]@).2
            },
            nodes[i].lifecycle_mode,
        ),
    }
}

/// What a start (`starting`) or stop command does to the node with the id:
/// an unknown id is refused and changes nothing; otherwise the node takes
/// the outcome of the command, and the command returns the updated node or
/// the runtime error.
pub open spec fn command_outcome(
    before: Seq<NodeInstance>,
    after: Seq<NodeInstance>,
    id: u128,
    r: Result<NodeInstance, AppError>,
    starting: bool,
) -> bool {
    match node_index(views(before), id) {
        None => after == before && (r matches Err(e) && e@ == node_not_found(id)),
        Some(i) => {
            let outcome = if starting {
                start_outcome(before[i]@)
            } else {
                stop_outcome(before[i]@)
            };
            &&& node_replaced(before, after, i, outcome.0)
            &&& match outcome.1 {
                Ok(()) => r matches Ok(n) && n@ == outcome.0,
                Err(re) => r matches Err(e) && e@ == AppErrorView::Runtime(re),
            }
        },
    }
}


/// An operation keeps a well-formed graph well formed.
pub open spec fn keeps_wf(a: AppState, b: AppState) -> bool {
    graph_well_formed(views(a.project.nodes@), a.project.edges@) ==> graph_well_formed(
        views(b.project.nodes@),
        b.project.edges@,
    )
}

/// A graph step keeps the ids of the nodes.
proof fn lemma_step_keeps_ids(nodes: Seq<NodeView>, edges: Seq<Edge>, id: u128)
    ensures
        view_ids(graph_step(nodes, edges, id).0) == view_ids(nodes),
{
    if payload_outcome(nodes, edges, id) is Ok {
        let wired = payload_outcome(nodes, edges, id)->Ok_0;
        if let Some(i) = node_index(nodes, id) {
            lemma_first_index(nodes, has_id(id));
            if run_refusal(nodes[i]) is None {
                let after = nodes.update(i, after_run(nodes[i], wired));
                assert(view_ids(after) =~= view_ids(nodes));
            }
        }
    }
}

/// A run in any order keeps the ids of the nodes.
proof fn lemma_run_keeps_ids(nodes: Seq<NodeView>, edges: Seq<Edge>, o: Seq<u128>)
    ensures
        view_ids(run_in_order(nodes, edges, o).0) == view_ids(nodes),
    decreases o.len(),
{
    if o.len() > 0 {
        lemma_run_keeps_ids(nodes, edges, o.drop_last());
        let before = run_in_order(nodes, edges, o.drop_last()).0;
        lemma_step_keeps_ids(before, edges, o.last());
    }
}

/// Nodes other than the one with the id.
pub open spec fn node_kept(id: u128) -> spec_fn(NodeInstance) -> bool {
    |n: NodeInstance| n.id != id
}

/// Edges other than the one with the id.
pub open spec fn edge_kept(id: u128) -> spec_fn(Edge) -> bool {
    |e: Edge| e.id != id
}

/// Edges that neither leave nor enter the node with the id.
pub open spec fn edge_detached(id: u128) -> spec_fn(Edge) -> bool {
    |e: Edge| e.source_node_id != id && e.target_node_id != id
}

/// The edge a connection request describes; its id plays no part in whether
/// it is accepted.
pub open spec fn candidate_edge(source_node_id: u128, source_port: String, target_node_id: u128, target_port: String) -> Edge {
    Edge { id: 0, source_node_id, source_port, target_node_id, target_port }
}

/// The edges enter each input port at most once.
pub open spec fn targets_unique(edges: Seq<Edge>) -> bool
    decreases edges.len(),
{
    edges.len() == 0 || (targets_unique(edges.drop_last()) && !target_taken(edges.drop_last(), edges.last()))
}

/// A project graph is well formed: its edges form no cycle, join nodes of the
/// project, and enter each input port at most once.
pub open spec fn graph_well_formed(nodes: Seq<NodeView>, edges: Seq<Edge>) -> bool {
    &&& !has_cycle(edges)
    &&& endpoints_within(view_ids(nodes), edges)
    &&& targets_unique(edges)
}

/// Which edges a removal keeps.
enum EdgeFilter {
    Other(u128),
    Detached(u128),
}

spec fn filter_pred(f: EdgeFilter) -> spec_fn(Edge) -> bool {
    match f {
        EdgeFilter::Other(id) => edge_kept(id),
        EdgeFilter::Detached(id) => edge_detached(id),
    }
}

fn keeps(f: &EdgeFilter, e: &Edge) -> (b: bool)
    ensures
        b == filter_pred(*f)(*e),
{
    match f {
        EdgeFilter::Other(id) => e.id != *id,
        EdgeFilter::Detached(id) => e.source_node_id != *id && e.target_node_id != *id,
    }
}

fn kept_edges(edges: &Vec<Edge>, f: &EdgeFilter) -> (out: Vec<Edge>)
    ensures
        out@ == edges@.filter(filter_pred(*f)),
{
    let mut out: Vec<Edge> = Vec::new();
    let mut i: usize = 0;
    while i < edges.len()
        invariant
            i <= edges@.len(),
            out@ == edges@.take(i as int).filter(filter_pred(*f)),
        decreases edges@.len() - i,
    {
        proof {
            reveal(Seq::filter);
            assert(edges@.take(i + 1).drop_last() =~= edges@.take(i as int));
            assert(edges@.take(i + 1).last() == edges@[i as int]);
        }
        if keeps(f, &edges[i]) {
            out.push(edges[i].clone());
        }
        i = i + 1;
    }
    assert(edges@.take(edges@.len() as int) =~= edges@);
    out
}

fn kept_nodes(nodes: &Vec<NodeInstance>, id: u128) -> (r: (Vec<NodeInstance>, bool))
    ensures
        views(r.0@) == views(nodes@.filter(node_kept(id))),
        r.1 == (node_index(views(nodes@), id) is Some),
{
    let mut out: Vec<NodeInstance> = Vec::new();
    let mut found = false;
    let mut i: usize = 0;
    while i < nodes.len()
        invariant
            i <= nodes@.len(),
            views(out@) == views(nodes@.take(i as int).filter(node_kept(id))),
            found == exists|j: int| 0 <= j < i && (#[trigger] nodes@[j]).id == id,
        decreases nodes@.len() - i,
    {
        let ghost prev = out@;
        let ghost kept = nodes@.take(i as int).filter(node_kept(id));
        proof {
            reveal(Seq::filter);
            assert(nodes@.take(i + 1).drop_last() =~= nodes@.take(i as int));
            assert(nodes@.take(i + 1).last() == nodes@[i as int]);
        }
        if nodes[i].id != id {
            out.push(nodes[i].clone());
            proof {
                assert(views(out@) =~= views(prev).push(nodes@[i as int]@));
                assert(views(kept.push(nodes@[i as int])) =~= views(kept).push(nodes@[i as int]@));
            }
        } else {
            found = true;
        }
        i = i + 1;
    }
    proof {
        assert(nodes@.take(nodes@.len() as int) =~= nodes@);
        let vs = views(nodes@);
        lemma_first_index(vs, has_id(id));
        if found {
            let j = choose|j: int| 0 <= j < nodes@.len() && (#[trigger] nodes@[j]).id == id;
            assert(has_id(id)(vs[j]));
        } else {
            assert forall|j: int| 0 <= j < vs.len() implies !has_id(id)(#[trigger] vs[j]) by {
                assert(nodes@[j].id != id);
            }
        }
    }
    (out, found)
}

/// A filter keeps every element exactly when it keeps the length.
proof fn lemma_filter_len_same<A>(s: Seq<A>, p: spec_fn(A) -> bool)
    ensures
        (s.filter(p).len() == s.len()) == (forall|k: int| 0 <= k < s.len() ==> p(#[trigger] s[k])),
    decreases s.len(),
{
    reveal(Seq::filter);
    if s.len() > 0 {
        lemma_filter_len_same(s.drop_last(), p);
        s.drop_last().lemma_filter_len(p);
        if forall|k: int| 0 <= k < s.len() ==> p(#[trigger] s[k]) {
            assert forall|k: int| 0 <= k < s.drop_last().len() implies p(#[trigger] s.drop_last()[k]) by {
                assert(s.drop_last()[k] == s[k]);
            }
            assert(p(s[s.len() - 1]));
        } else {
            let k = choose|k: int| 0 <= k < s.len() && !p(#[trigger] s[k]);
            if k < s.len() - 1 {
                assert(s.drop_last()[k] == s[k]);
            }
        }
    }
}

/// Whether an edge is accepted does not depend on its id.
proof fn lemma_edge_id_irrelevant(nodes: Seq<NodeView>, edges: Seq<Edge>, a: Edge, b: Edge)
    requires
        a.source_node_id == b.source_node_id,
        a.source_port == b.source_port,
        a.target_node_id == b.target_node_id,
        a.target_port == b.target_port,
    ensures
        new_edge_error(nodes, edges, a) == new_edge_error(nodes, edges, b),
{
    let ea = edges.push(a);
    let eb = edges.push(b);
    assert forall|x: u128, y: u128| has_edge(ea, x, y) == has_edge(eb, x, y) by {
        if has_edge(ea, x, y) {
            let k = choose|k: int| 0 <= k < ea.len() && (#[trigger] ea[k]).source_node_id == x && ea[k].target_node_id == y;
            assert(eb[k].source_node_id == x && eb[k].target_node_id == y);
        }
        if has_edge(eb, x, y) {
            let k = choose|k: int| 0 <= k < eb.len() && (#[trigger] eb[k]).source_node_id == x && eb[k].target_node_id == y;
            assert(ea[k].source_node_id == x && ea[k].target_node_id == y);
        }
    }
    assert forall|p: Seq<u128>| is_cycle(ea, p) == is_cycle(eb, p) by {
        if is_cycle(ea, p) {
            assert forall|i: int| 0 <= i < p.len() - 1 implies has_edge(eb, #[trigger] p[i], p[i + 1]) by {
                assert(has_edge(ea, p[i], p[i + 1]));
            }
        }
        if is_cycle(eb, p) {
            assert forall|i: int| 0 <= i < p.len() - 1 implies has_edge(ea, #[trigger] p[i], p[i + 1]) by {
                assert(has_edge(eb, p[i], p[i + 1]));
            }
        }
    }
    if has_cycle(ea) {
        let p = choose|p: Seq<u128>| is_cycle(ea, p);
        assert(is_cycle(eb, p));
    }
    if has_cycle(eb) {
        let p = choose|p: Seq<u128>| is_cycle(eb, p);
        assert(is_cycle(ea, p));
    }
}

/// Edges kept from a graph without cycles form none either.
proof fn lemma_no_cycle_in_subset(edges: Seq<Edge>, sub: Seq<Edge>)
    requires
        !has_cycle(edges),
        forall|e: Edge| #[trigger] sub.contains(e) ==> edges.contains(e),
    ensures
        !has_cycle(sub),
{
    if has_cycle(sub) {
        let p = choose|p: Seq<u128>| is_cycle(sub, p);
        assert forall|i: int| 0 <= i < p.len() - 1 implies has_edge(edges, #[trigger] p[i], p[i + 1]) by {
            assert(has_edge(sub, p[i], p[i + 1]));
            let k = choose|k: int| 0 <= k < sub.len() && (#[trigger] sub[k]).source_node_id == p[i] && sub[k].target_node_id == p[i + 1];
            assert(sub.contains(sub[k]));
            assert(edges.contains(sub[k]));
            let m = choose|m: int| 0 <= m < edges.len() && edges[m] == sub[k];
            assert(edges[m].source_node_id == p[i]);
        }
        assert(is_cycle(edges, p));
    }
}

/// A filter keeps the input ports that the kept edges enter distinct.
proof fn lemma_targets_unique_filter(edges: Seq<Edge>, p: spec_fn(Edge) -> bool)
    requires
        targets_unique(edges),
    ensures
        targets_unique(edges.filter(p)),
    decreases edges.len(),
{
    broadcast use vstd::seq_lib::group_filter_ensures;
    reveal(Seq::filter);
    if edges.len() > 0 {
        let rest = edges.drop_last();
        lemma_targets_unique_filter(rest, p);
        let f = edges.filter(p);
        if p(edges.last()) {
            assert(f.drop_last() =~= rest.filter(p));
            if target_taken(rest.filter(p), edges.last()) {
                let k = choose|k: int| 0 <= k < rest.filter(p).len()
                    && (#[trigger] rest.filter(p)[k]).target_node_id == edges.last().target_node_id
                    && rest.filter(p)[k].target_port@ == edges.last().target_port@;
                let e = rest.filter(p)[k];
                assert(rest.filter(p).contains(e));
                rest.lemma_filter_contains_rev(p, e);
                let m = choose|m: int| 0 <= m < rest.len() && rest[m] == e;
                assert(target_taken(rest, edges.last()));
            }
        }
    }
}

/// Removing edges keeps a graph well formed.
pub proof fn lemma_wf_fewer_edges(nodes: Seq<NodeView>, edges: Seq<Edge>, p: spec_fn(Edge) -> bool)
    requires
        graph_well_formed(nodes, edges),
    ensures
        graph_well_formed(nodes, edges.filter(p)),
{
    broadcast use vstd::seq_lib::group_filter_ensures;
    let f = edges.filter(p);
    assert forall|e: Edge| #[trigger] f.contains(e) implies edges.contains(e) by {
        edges.lemma_filter_contains_rev(p, e);
    }
    lemma_no_cycle_in_subset(edges, f);
    lemma_targets_unique_filter(edges, p);
    assert forall|k: int| 0 <= k < f.len() implies view_ids(nodes).contains((#[trigger] f[k]).source_node_id)
        && view_ids(nodes).contains(f[k].target_node_id) by {
        assert(f.contains(f[k]));
        edges.lemma_filter_contains_rev(p, f[k]);
        let m = choose|m: int| 0 <= m < edges.len() && edges[m] == f[k];
        assert(edges[m].source_node_id == f[k].source_node_id);
    }
}

/// Whether a graph is well formed depends on its nodes only through their ids.
pub proof fn lemma_wf_same_ids(a: Seq<NodeView>, b: Seq<NodeView>, edges: Seq<Edge>)
    requires
        view_ids(a) == view_ids(b),
    ensures
        graph_well_formed(a, edges) == graph_well_formed(b, edges),
{
}

/// Adding nodes keeps a graph well formed.
pub proof fn lemma_wf_more_nodes(a: Seq<NodeView>, b: Seq<NodeView>, edges: Seq<Edge>)
    requires
        graph_well_formed(a, edges),
        forall|x: u128| #[trigger] view_ids(a).contains(x) ==> view_ids(b).contains(x),
    ensures
        graph_well_formed(b, edges),
{
    assert forall|k: int| 0 <= k < edges.len() implies view_ids(b).contains((#[trigger] edges[k]).source_node_id)
        && view_ids(b).contains(edges[k].target_node_id) by {
        assert(view_ids(a).contains(edges[k].source_node_id));
        assert(view_ids(a).contains(edges[k].target_node_id));
    }
}

/// An accepted edge keeps a graph well formed.
pub proof fn lemma_wf_add_edge(nodes: Seq<NodeView>, edges: Seq<Edge>, c: Edge)
    requires
        graph_well_formed(nodes, edges),
        new_edge_error(nodes, edges, c) is None,
    ensures
        graph_well_formed(nodes, edges.push(c)),
{
    let e2 = edges.push(c);
    assert(e2.drop_last() =~= edges);
    lemma_first_index(nodes, has_id(c.source_node_id));
    lemma_first_index(nodes, has_id(c.target_node_id));
    let si = node_index(nodes, c.source_node_id).unwrap();
    let ti = node_index(nodes, c.target_node_id).unwrap();
    assert(view_ids(nodes)[si] == c.source_node_id);
    assert(view_ids(nodes)[ti] == c.target_node_id);
    assert forall|k: int| 0 <= k < e2.len() implies view_ids(nodes).contains((#[trigger] e2[k]).source_node_id)
        && view_ids(nodes).contains(e2[k].target_node_id) by {
        if k < edges.len() {
            assert(e2[k] == edges[k]);
        }
    }
}

/// Removing a node and its edges keeps a graph well formed.
pub proof fn lemma_wf_remove_node(nodes: Seq<NodeInstance>, edges: Seq<Edge>, id: u128)
    requires
        graph_well_formed(views(nodes), edges),
    ensures
        graph_well_formed(views(nodes.filter(node_kept(id))), edges.filter(edge_detached(id))),
{
    broadcast use vstd::seq_lib::group_filter_ensures;
    lemma_wf_fewer_edges(views(nodes), edges, edge_detached(id));
    let kept = nodes.filter(node_kept(id));
    let f = edges.filter(edge_detached(id));
    assert forall|x: u128| x != id && #[trigger] view_ids(views(nodes)).contains(x) implies view_ids(views(kept)).contains(x) by {
        let j = choose|j: int| 0 <= j < view_ids(views(nodes)).len() && view_ids(views(nodes))[j] == x;
        assert(nodes[j].id == x);
        assert(node_kept(id)(nodes[j]));
        assert(kept.contains(nodes[j]));
        let m = choose|m: int| 0 <= m < kept.len() && kept[m] == nodes[j];
        assert(view_ids(views(kept))[m] == x);
    }
    assert forall|k: int| 0 <= k < f.len() implies view_ids(views(kept)).contains((#[trigger] f[k]).source_node_id)
        && view_ids(views(kept)).contains(f[k].target_node_id) by {
        assert(edge_detached(id)(f[k]));
        assert(view_ids(views(nodes)).contains(f[k].source_node_id));
        assert(view_ids(views(nodes)).contains(f[k].target_node_id));
    }
}

} // verus!
