use vstd::prelude::*;

use crate::ids::{new_random_id, v4_id};
use crate::runtime::builtin::{execute_constant, execute_echo};
use crate::runtime::edge::{PORT_IN, PORT_OUT};
use crate::runtime::lifecycle::{
    lifecycle_error_message, lifecycle_name, success_state, transition_allowed, Lifecycle, LifecycleError, LifecycleMode,
};
use crate::runtime::protocol::presets::{
    default_decl_for, default_port_decls_for_kind, str_eq, PortDecls, PortDeclaration,
};
use crate::runtime::sdk::{HookCall, LifecycleHooks, NoopLifecycleHooks};
use crate::text::{uuid_string, uuid_text};

verus! {

/// A node's canvas position; each coordinate is held as the bit pattern of
/// its IEEE-754 double, which the library carries through unchanged.
#[derive(Debug, Clone, Copy, PartialEq, Eq, Structural)]
pub struct Position {
    pub x_bits: u64,
    pub y_bits: u64,
}

/// The bit pattern of the double 100.0.
pub const HUNDRED_BITS: u64 = 0x4059_0000_0000_0000u64;

impl Default for Position {
    /// (100.0, 100.0)
    fn default() -> (p: Self)
        ensures
            p == (Position { x_bits: HUNDRED_BITS, y_bits: HUNDRED_BITS }),
    {
        Position { x_bits: HUNDRED_BITS, y_bits: HUNDRED_BITS }
    }
}

/// The built-in node kinds and their settings.
#[derive(Debug, PartialEq)]
pub enum NodeKind {
    Constant { value: String },
    JsonConstant { value: String },
    Echo { input: String },
}

impl Clone for NodeKind {
    fn clone(&self) -> (c: Self)
        ensures
            c == *self,
    {
        match self {
            NodeKind::Constant { value } => NodeKind::Constant { value: value.clone() },
            NodeKind::JsonConstant { value } => NodeKind::JsonConstant { value: value.clone() },
            NodeKind::Echo { input } => NodeKind::Echo { input: input.clone() },
        }
    }
}

/// A node placed on the canvas.
#[derive(Debug, PartialEq)]
pub struct NodeInstance {
    pub id: u128,
    pub kind: NodeKind,
    pub lifecycle: Lifecycle,
    pub lifecycle_mode: LifecycleMode,
    pub last_output: Option<String>,
    pub position: Position,
    pub port_decls: PortDecls,
}

/// A node as the contracts see it: text as character sequences.
pub struct NodeView {
    pub id: u128,
    pub kind: NodeKind,
    pub lifecycle: Lifecycle,
    pub lifecycle_mode: LifecycleMode,
    pub last_output: Option<Seq<char>>,
    pub position: Position,
    pub port_decls: Seq<(Seq<char>, PortDeclaration)>,
}

pub open spec fn opt_view(s: Option<String>) -> Option<Seq<char>> {
    match s {
        Some(t) => Some(t@),
        None => None,
    }
}

impl View for NodeInstance {
    type V = NodeView;

    open spec fn view(&self) -> NodeView {
        NodeView {
            id: self.id,
            kind: self.kind,
            lifecycle: self.lifecycle,
            lifecycle_mode: self.lifecycle_mode,
            last_output: opt_view(self.last_output),
            position: self.position,
            port_decls: self.port_decls@,
        }
    }
}

impl Clone for NodeInstance {
    fn clone(&self) -> (c: Self)
        ensures
            c@ == self@,
    {
        NodeInstance {
            id: self.id,
            kind: self.kind.clone(),
            lifecycle: self.lifecycle,
            lifecycle_mode: self.lifecycle_mode,
            last_output: match &self.last_output {
                Some(s) => Some(s.clone()),
                None => None,
            },
            position: self.position,
            port_decls: self.port_decls.clone(),
        }
    }
}

/// The result of a successful run.
#[derive(Debug, PartialEq)]
pub struct RunResult {
    pub node_id: u128,
    pub output: String,
    pub lifecycle: Lifecycle,
}

impl Clone for RunResult {
    fn clone(&self) -> (c: Self)
        ensures
            c == *self,
    {
        RunResult { node_id: self.node_id, output: self.output.clone(), lifecycle: self.lifecycle }
    }
}

pub struct RunResultView {
    pub node_id: u128,
    pub output: Seq<char>,
    pub lifecycle: Lifecycle,
}

impl View for RunResult {
    type V = RunResultView;

    open spec fn view(&self) -> RunResultView {
        RunResultView { node_id: self.node_id, output: self.output@, lifecycle: self.lifecycle }
    }
}

/// Why running, starting or stopping a node failed.
#[derive(Debug)]
pub enum RuntimeError {
    NotFound(u128),
    Lifecycle(LifecycleError),
    Execution(String),
    Validation(String),
}

pub enum RuntimeErrorView {
    NotFound(u128),
    Lifecycle(LifecycleError),
    Execution(Seq<char>),
    Validation(Seq<char>),
}

impl View for RuntimeError {
    type V = RuntimeErrorView;

    open spec fn view(&self) -> RuntimeErrorView {
        match self {
            RuntimeError::NotFound(id) => RuntimeErrorView::NotFound(*id),
            RuntimeError::Lifecycle(e) => RuntimeErrorView::Lifecycle(*e),
            RuntimeError::Execution(m) => RuntimeErrorView::Execution(m@),
            RuntimeError::Validation(m) => RuntimeErrorView::Validation(m@),
        }
    }
}

/// The message of a runtime error, as the error displays it.
pub open spec fn runtime_message(e: RuntimeErrorView) -> Seq<char> {
    match e {
        RuntimeErrorView::NotFound(id) => "node not found: "@ + uuid_text(id),
        RuntimeErrorView::Lifecycle(l) => "lifecycle error: "@ + lifecycle_error_message(l),
        RuntimeErrorView::Execution(m) => "execution failed: "@ + m,
        RuntimeErrorView::Validation(m) => m,
    }
}

impl RuntimeError {
    /// The error's message.
    pub fn message(&self) -> (m: String)
        ensures
            m@ == runtime_message(self@),
    {
        match self {
            RuntimeError::NotFound(id) => String::from_str("node not found: ").concat(uuid_string(*id).as_str()),
            RuntimeError::Lifecycle(l) => String::from_str("lifecycle error: ").concat(l.message().as_str()),
            RuntimeError::Execution(m) => String::from_str("execution failed: ").concat(m.as_str()),
            RuntimeError::Validation(m) => m.clone(),
        }
    }
}

/// The ports a kind has: `out` for constants; `in` and `out` for Echo.
pub open spec fn kind_has_port(kind: NodeKind, port: Seq<char>) -> bool {
    match kind {
        NodeKind::Constant { .. } | NodeKind::JsonConstant { .. } => port == "out"@,
        NodeKind::Echo { .. } => port == "in"@ || port == "out"@,
    }
}

/// What a node of this kind outputs given an optional wired input:
/// constants their value, Echo the wired input if any, else its own input.
pub open spec fn kind_output(kind: NodeKind, wired: Option<Seq<char>>) -> Seq<char> {
    match kind {
        NodeKind::Constant { value } => value@,
        NodeKind::JsonConstant { value } => value@,
        NodeKind::Echo { input } => match wired {
            Some(w) => w,
            None => input@,
        },
    }
}

/// Where a persistent node rests once started: `Waiting` for an Echo with
/// empty input, otherwise `Idle`.
pub open spec fn resting_state(n: NodeView) -> Lifecycle {
    if n.lifecycle_mode == LifecycleMode::Persistent && (n.kind matches NodeKind::Echo { input } && input@.len() == 0) {
        Lifecycle::Waiting
    } else {
        Lifecycle::Idle
    }
}

/// `n` with another lifecycle state.
pub open spec fn with_lifecycle(n: NodeView, state: Lifecycle) -> NodeView {
    NodeView { lifecycle: state, ..n }
}

/// Whether a run is refused, and with which error.
pub open spec fn run_refusal(n: NodeView) -> Option<RuntimeErrorView> {
    if n.lifecycle_mode == LifecycleMode::Persistent && n.lifecycle == Lifecycle::Stopped {
        Some(RuntimeErrorView::Validation("persistent node is stopped; use Start before running"@))
    } else if !transition_allowed(n.lifecycle, Lifecycle::Running, n.lifecycle_mode) {
        Some(RuntimeErrorView::Lifecycle(
            LifecycleError { from: n.lifecycle, to: Lifecycle::Running, mode: n.lifecycle_mode },
        ))
    } else {
        None
    }
}

/// The node after a successful run.
pub open spec fn after_run(n: NodeView, wired: Option<Seq<char>>) -> NodeView {
    NodeView {
        lifecycle: success_state(n.lifecycle_mode),
        last_output: Some(kind_output(n.kind, wired)),
        ..n
    }
}

/// The transitions a run makes: into `Running` and on to the success state.
pub open spec fn run_transitions(n: NodeView) -> Seq<(Lifecycle, Lifecycle)> {
    if run_refusal(n) is Some {
        seq![]
    } else {
        seq![(n.lifecycle, Lifecycle::Running), (Lifecycle::Running, success_state(n.lifecycle_mode))]
    }
}

/// The outcome of a run: refused with the node unchanged, or the node's output.
pub open spec fn run_outcome(
    before: NodeView,
    wired: Option<Seq<char>>,
    after: NodeView,
    r: Result<RunResultView, RuntimeErrorView>,
) -> bool {
    match run_refusal(before) {
        Some(e) => after == before && r == Err::<RunResultView, RuntimeErrorView>(e),
        None => after == after_run(before, wired) && r == Ok::<RunResultView, RuntimeErrorView>(
            RunResultView {
                node_id: before.id,
                output: kind_output(before.kind, wired),
                lifecycle: success_state(before.lifecycle_mode),
            },
        ),
    }
}

pub open spec fn result_view(r: Result<RunResult, RuntimeError>) -> Result<RunResultView, RuntimeErrorView> {
    match r {
        Ok(v) => Ok(v@),
        Err(e) => Err(e@),
    }
}

pub open spec fn unit_result_view(r: Result<(), RuntimeError>) -> Result<(), RuntimeErrorView> {
    match r {
        Ok(v) => Ok(v),
        Err(e) => Err(e@),
    }
}

/// The outcome of `start`, with the transitions it makes.
pub open spec fn start_outcome(n: NodeView) -> (NodeView, Result<(), RuntimeErrorView>, Seq<(Lifecycle, Lifecycle)>) {
    if n.lifecycle_mode != LifecycleMode::Persistent {
        (n, Err(RuntimeErrorView::Validation(
            "only persistent nodes can be started; switch lifecycle mode in properties"@,
        )), seq![])
    } else if n.lifecycle == Lifecycle::Stopped {
        (
            with_lifecycle(n, resting_state(n)),
            Ok(()),
            seq![(Lifecycle::Stopped, Lifecycle::Initializing), (Lifecycle::Initializing, resting_state(n))],
        )
    } else if n.lifecycle != Lifecycle::Idle && n.lifecycle != Lifecycle::Waiting {
        (n, Err(RuntimeErrorView::Validation(
            "cannot start node in "@ + lifecycle_name(n.lifecycle) + " state"@,
        )), seq![])
    } else {
        (n, Ok(()), seq![])
    }
}

/// The outcome of `stop`, with the transitions it makes.
pub open spec fn stop_outcome(n: NodeView) -> (NodeView, Result<(), RuntimeErrorView>, Seq<(Lifecycle, Lifecycle)>) {
    if n.lifecycle_mode != LifecycleMode::Persistent {
        (n, Err(RuntimeErrorView::Validation("only persistent nodes can be stopped"@)), seq![])
    } else {
        match n.lifecycle {
            Lifecycle::Stopped => (n, Ok(()), seq![]),
            Lifecycle::Stopping => (
                with_lifecycle(n, Lifecycle::Stopped),
                Ok(()),
                seq![(Lifecycle::Stopping, Lifecycle::Stopped)],
            ),
            Lifecycle::Idle | Lifecycle::Waiting | Lifecycle::Running => (
                with_lifecycle(n, Lifecycle::Stopped),
                Ok(()),
                seq![(n.lifecycle, Lifecycle::Stopping), (Lifecycle::Stopping, Lifecycle::Stopped)],
            ),
            _ => (n, Err(RuntimeErrorView::Validation(
                "cannot stop node in "@ + lifecycle_name(n.lifecycle) + " state"@,
            )), seq![]),
        }
    }
}

/// The hook calls of one transition: the transition itself, then `on_init`,
/// `on_run` or `on_stop` when it enters initializing, running or stopping.
pub open spec fn transition_calls(t: (Lifecycle, Lifecycle), mode: LifecycleMode) -> Seq<HookCall> {
    seq![HookCall::Transition(t.0, t.1, mode)] + match t.1 {
        Lifecycle::Initializing => seq![HookCall::Init],
        Lifecycle::Running => seq![HookCall::Run],
        Lifecycle::Stopping => seq![HookCall::Stop],
        _ => Seq::<HookCall>::empty(),
    }
}

/// The hook calls of a series of transitions, in order.
pub open spec fn hook_calls(ts: Seq<(Lifecycle, Lifecycle)>, mode: LifecycleMode) -> Seq<HookCall>
    decreases ts.len(),
{
    if ts.len() == 0 {
        Seq::<HookCall>::empty()
    } else {
        hook_calls(ts.drop_last(), mode) + transition_calls(ts.last(), mode)
    }
}

/// Tells the hooks about each transition, in order: `on_transition`, then
/// `on_init`, `on_run` or `on_stop` when entering initializing, running or stopping.
fn replay_hooks<H: LifecycleHooks>(hooks: &mut H, transitions: &Vec<(Lifecycle, Lifecycle)>, mode: LifecycleMode)
    ensures
        final(hooks).calls() == old(hooks).calls() + hook_calls(transitions@, mode),
{
    let mut i: usize = 0;
    proof {
        assert(transitions@.take(0) =~= Seq::<(Lifecycle, Lifecycle)>::empty());
        assert(hooks.calls() =~= old(hooks).calls() + hook_calls(transitions@.take(0), mode));
    }
    while i < transitions.len()
        invariant
            i <= transitions@.len(),
            hooks.calls() == old(hooks).calls() + hook_calls(transitions@.take(i as int), mode),
        decreases transitions@.len() - i,
    {
        let ghost before = hooks.calls();
        let (from, to) = transitions[i];
        hooks.on_transition(from, to, mode);
        match to {
            Lifecycle::Initializing => hooks.on_init(),
            Lifecycle::Running => hooks.on_run(),
            Lifecycle::Stopping => hooks.on_stop(),
            _ => {},
        }
        proof {
            let t = transitions@.take(i + 1);
            assert(t.drop_last() =~= transitions@.take(i as int));
            assert(t.last() == (from, to));
            assert(hooks.calls() =~= before + transition_calls((from, to), mode));
            assert(hooks.calls() =~= old(hooks).calls() + hook_calls(t, mode));
        }
        i = i + 1;
    }
    proof {
        assert(transitions@.take(transitions@.len() as int) =~= transitions@);
    }
}

pub fn default_empty_port_decls() -> (d: PortDecls)
    ensures
        d.empty(),
        forall|k: Seq<char>| d.decl(k) is None,
{
    PortDecls::new()
}

impl NodeInstance {
    /// A new ephemeral node, idle, with a fresh id, no output, the kind's
    /// default port declarations, and the given position or (100, 100).
    pub fn new(kind: NodeKind, position: Option<Position>) -> (n: Self)
        ensures
            v4_id(n.id),
            n.kind == kind,
            n.lifecycle == Lifecycle::Idle,
            n.lifecycle_mode == LifecycleMode::Ephemeral,
            n.last_output is None,
            n.position == (match position {
                Some(p) => p,
                None => Position { x_bits: HUNDRED_BITS, y_bits: HUNDRED_BITS },
            }),
            forall|k: Seq<char>| n.port_decls.decl(k) == default_decl_for(kind, k),
    {
        let port_decls = default_port_decls_for_kind(&kind);
        let lifecycle_mode = LifecycleMode::Ephemeral;
        Self {
            id: new_random_id(),
            kind,
            lifecycle: Lifecycle::initial_for_mode(lifecycle_mode),
            lifecycle_mode,
            last_output: None,
            position: match position {
                Some(p) => p,
                None => Position::default(),
            },
            port_decls,
        }
    }

    /// Gives a node without declarations its kind's defaults.
    pub fn ensure_port_decls(&mut self)
        ensures
            old(self).port_decls.empty() ==> forall|k: Seq<char>| final(self).port_decls.decl(k)
                == default_decl_for(old(self).kind, k),
            !old(self).port_decls.empty() ==> final(self).port_decls@ == old(self).port_decls@,
            final(self).id == old(self).id,
            final(self).kind == old(self).kind,
            final(self).lifecycle == old(self).lifecycle,
            final(self).lifecycle_mode == old(self).lifecycle_mode,
            final(self).last_output == old(self).last_output,
            final(self).position == old(self).position,
    {
        if self.port_decls.is_empty() {
            self.port_decls = default_port_decls_for_kind(&self.kind);
        }
    }

    pub fn port_decl(&self, port_id: &str) -> (r: Option<&PortDeclaration>)
        ensures
            match r {
                Some(d) => self.port_decls.decl(port_id@) == Some(*d),
                None => self.port_decls.decl(port_id@) is None,
            },
    {
        self.port_decls.get(port_id)
    }

    pub fn has_port(&self, port_id: &str) -> (b: bool)
        ensures
            b == kind_has_port(self.kind, port_id@),
    {
        proof {
            reveal_strlit("out");
            reveal_strlit("in");
        }
        match &self.kind {
            NodeKind::Constant { .. } | NodeKind::JsonConstant { .. } => str_eq(port_id, PORT_OUT),
            NodeKind::Echo { .. } => str_eq(port_id, PORT_IN) || str_eq(port_id, PORT_OUT),
        }
    }

    /// One lifecycle step under the node's mode, recorded in `log` when made.
    fn transition(&mut self, to: Lifecycle, log: &mut Vec<(Lifecycle, Lifecycle)>) -> (r: Result<(), RuntimeError>)
        ensures
            transition_allowed(old(self).lifecycle, to, old(self).lifecycle_mode) ==> r is Ok
                && final(self)@ == with_lifecycle(old(self)@, to)
                && final(log)@ == old(log)@.push((old(self).lifecycle, to)),
            !transition_allowed(old(self).lifecycle, to, old(self).lifecycle_mode) ==> (r matches Err(e)
                && e@ == RuntimeErrorView::Lifecycle(
                    LifecycleError { from: old(self).lifecycle, to, mode: old(self).lifecycle_mode },
                ))
                && final(self)@ == old(self)@ && final(log)@ == old(log)@,
    {
        let from = self.lifecycle;
        match self.lifecycle.transition_with_mode(to, self.lifecycle_mode) {
            Ok(()) => {
                log.push((from, to));
                Ok(())
            },
            Err(e) => Err(RuntimeError::Lifecycle(e)),
        }
    }

    fn resting_after_start(&self) -> (state: Lifecycle)
        ensures
            state == resting_state(self@),
    {
        if self.lifecycle_mode == LifecycleMode::Persistent && match &self.kind {
            NodeKind::Echo { input } => input.as_str().unicode_len() == 0,
            _ => false,
        } {
            Lifecycle::Waiting
        } else {
            Lifecycle::Idle
        }
    }

    /// Start a persistent node (stopped → initializing → idle/waiting),
    /// returning the transitions made.
    pub fn start_traced(&mut self) -> (r: (Result<(), RuntimeError>, Vec<(Lifecycle, Lifecycle)>))
        ensures
            final(self)@ == start_outcome(old(self)@).0,
            unit_result_view(r.0) == start_outcome(old(self)@).1,
            r.1@ == start_outcome(old(self)@).2,
    {
        let mut log: Vec<(Lifecycle, Lifecycle)> = Vec::new();
        if self.lifecycle_mode != LifecycleMode::Persistent {
            return (Err(RuntimeError::Validation(String::from_str(
                "only persistent nodes can be started; switch lifecycle mode in properties",
            ))), log);
        }
        if self.lifecycle == Lifecycle::Stopped {
            let r = self.transition(Lifecycle::Initializing, &mut log);
            if r.is_err() {
                return (r, log);
            }
        } else if self.lifecycle != Lifecycle::Idle && self.lifecycle != Lifecycle::Waiting {
            let m = String::from_str("cannot start node in ").concat(self.lifecycle.debug_name()).concat(" state");
            return (Err(RuntimeError::Validation(m)), log);
        }
        if self.lifecycle == Lifecycle::Initializing {
            let resting = self.resting_after_start();
            let r = self.transition(resting, &mut log);
            if r.is_err() {
                return (r, log);
            }
        }
        assert(log@ =~= start_outcome(old(self)@).2);
        (Ok(()), log)
    }

    /// Start a persistent node (stopped → initializing → idle/waiting).
    pub fn start(&mut self) -> (r: Result<(), RuntimeError>)
        ensures
            final(self)@ == start_outcome(old(self)@).0,
            unit_result_view(r) == start_outcome(old(self)@).1,
    {
        self.start_with_hooks(&mut NoopLifecycleHooks::new())
    }

    pub fn start_with_hooks<H: LifecycleHooks>(&mut self, hooks: &mut H) -> (r: Result<(), RuntimeError>)
        ensures
            final(self)@ == start_outcome(old(self)@).0,
            unit_result_view(r) == start_outcome(old(self)@).1,
            final(hooks).calls() == old(hooks).calls() + hook_calls(
                start_outcome(old(self)@).2,
                old(self).lifecycle_mode,
            ),
    {
        let mode = self.lifecycle_mode;
        let (r, log) = self.start_traced();
        replay_hooks(hooks, &log, mode);
        r
    }

    /// Stop a persistent node (idle/waiting/running → stopping → stopped),
    /// returning the transitions made.
    pub fn stop_traced(&mut self) -> (r: (Result<(), RuntimeError>, Vec<(Lifecycle, Lifecycle)>))
        ensures
            final(self)@ == stop_outcome(old(self)@).0,
            unit_result_view(r.0) == stop_outcome(old(self)@).1,
            r.1@ == stop_outcome(old(self)@).2,
    {
        let mut log: Vec<(Lifecycle, Lifecycle)> = Vec::new();
        if self.lifecycle_mode != LifecycleMode::Persistent {
            return (Err(RuntimeError::Validation(String::from_str("only persistent nodes can be stopped"))), log);
        }
        match self.lifecycle {
            Lifecycle::Stopped => {
                return (Ok(()), log);
            },
            Lifecycle::Stopping => {
                let r = self.transition(Lifecycle::Stopped, &mut log);
                if r.is_err() {
                    return (r, log);
                }
            },
            Lifecycle::Idle | Lifecycle::Waiting | Lifecycle::Running => {
                let r = self.transition(Lifecycle::Stopping, &mut log);
                if r.is_err() {
                    return (r, log);
                }
                let r = self.transition(Lifecycle::Stopped, &mut log);
                if r.is_err() {
                    return (r, log);
                }
            },
            other => {
                let m = String::from_str("cannot stop node in ").concat(other.debug_name()).concat(" state");
                return (Err(RuntimeError::Validation(m)), log);
            },
        }
        assert(log@ =~= stop_outcome(old(self)@).2);
        (Ok(()), log)
    }

    /// Stop a persistent node (idle/waiting/running → stopping → stopped).
    pub fn stop(&mut self) -> (r: Result<(), RuntimeError>)
        ensures
            final(self)@ == stop_outcome(old(self)@).0,
            unit_result_view(r) == stop_outcome(old(self)@).1,
    {
        self.stop_with_hooks(&mut NoopLifecycleHooks::new())
    }

    pub fn stop_with_hooks<H: LifecycleHooks>(&mut self, hooks: &mut H) -> (r: Result<(), RuntimeError>)
        ensures
            final(self)@ == stop_outcome(old(self)@).0,
            unit_result_view(r) == stop_outcome(old(self)@).1,
            final(hooks).calls() == old(hooks).calls() + hook_calls(
                stop_outcome(old(self)@).2,
                old(self).lifecycle_mode,
            ),
    {
        let mode = self.lifecycle_mode;
        let (r, log) = self.stop_traced();
        replay_hooks(hooks, &log, mode);
        r
    }

    /// Runs the node on an optional wired input, returning the transitions made.
    pub fn run_traced(&mut self, wired_input: Option<&str>) -> (r: (Result<RunResult, RuntimeError>, Vec<(Lifecycle, Lifecycle)>))
        ensures
            run_outcome(old(self)@, opt_str_view(wired_input), final(self)@, result_view(r.0)),
            r.1@ == run_transitions(old(self)@),
    {
        let mut log: Vec<(Lifecycle, Lifecycle)> = Vec::new();
        if self.lifecycle_mode == LifecycleMode::Persistent && self.lifecycle == Lifecycle::Stopped {
            return (Err(RuntimeError::Validation(String::from_str(
                "persistent node is stopped; use Start before running",
            ))), log);
        }
        let r = self.transition(Lifecycle::Running, &mut log);
        if let Err(e) = r {
            return (Err(e), log);
        }
        let output = match &self.kind {
            NodeKind::Constant { value } => execute_constant(value.as_str()),
            NodeKind::JsonConstant { value } => execute_constant(value.as_str()),
            NodeKind::Echo { input } => {
                let effective = match wired_input {
                    Some(w) => w,
                    None => input.as_str(),
                };
                execute_echo(effective)
            },
        };
        match output {
            Ok(value) => {
                self.last_output = Some(value.clone());
                let terminal = Lifecycle::after_success(self.lifecycle_mode);
                let t = self.transition(terminal, &mut log);
                if let Err(e) = t {
                    return (Err(e), log);
                }
                assert(log@ =~= run_transitions(old(self)@));
                (Ok(RunResult { node_id: self.id, output: value, lifecycle: self.lifecycle }), log)
            },
            Err(message) => {
                let t = self.transition(Lifecycle::Failed, &mut log);
                if let Err(e) = t {
                    return (Err(e), log);
                }
                (Err(RuntimeError::Execution(message)), log)
            },
        }
    }

    pub fn run(&mut self, wired_input: Option<&str>) -> (r: Result<RunResult, RuntimeError>)
        ensures
            run_outcome(old(self)@, opt_str_view(wired_input), final(self)@, result_view(r)),
    {
        self.run_with_hooks(wired_input, &mut NoopLifecycleHooks::new())
    }

    pub fn run_with_hooks<H: LifecycleHooks>(&mut self, wired_input: Option<&str>, hooks: &mut H) -> (r: Result<RunResult, RuntimeError>)
        ensures
            run_outcome(old(self)@, opt_str_view(wired_input), final(self)@, result_view(r)),
            final(hooks).calls() == old(hooks).calls() + hook_calls(run_transitions(old(self)@), old(self).lifecycle_mode),
    {
        let mode = self.lifecycle_mode;
        let (r, log) = self.run_traced(wired_input);
        replay_hooks(hooks, &log, mode);
        r
    }
}

pub open spec fn opt_str_view(s: Option<&str>) -> Option<Seq<char>> {
    match s {
        Some(t) => Some(t@),
        None => None,
    }
}

/// A node's id never changes across start, stop and run.
pub proof fn lemma_id_stable(n: NodeView, wired: Option<Seq<char>>)
    ensures
        start_outcome(n).0.id == n.id,
        stop_outcome(n).0.id == n.id,
        after_run(n, wired).id == n.id,
{
}

/// Starting a stopped persistent node and then stopping it returns it to
/// `Stopped` with every other field unchanged.
pub proof fn lemma_start_then_stop(n: NodeView)
    requires
        n.lifecycle_mode == LifecycleMode::Persistent,
        n.lifecycle == Lifecycle::Stopped,
    ensures
        start_outcome(n).1 is Ok,
        stop_outcome(start_outcome(n).0).1 is Ok,
        stop_outcome(start_outcome(n).0).0 == n,
{
}

/// Starting a stopped persistent node succeeds, passing through
/// `Initializing`; it then waits for input exactly when it is an Echo with an
/// empty input, and is `Idle` otherwise (every Constant and JsonConstant).
/// Nothing but its lifecycle state changes.
pub proof fn lemma_start_from_stopped(n: NodeView)
    requires
        n.lifecycle_mode == LifecycleMode::Persistent,
        n.lifecycle == Lifecycle::Stopped,
    ensures
        start_outcome(n).1 is Ok,
        (start_outcome(n).0.lifecycle == Lifecycle::Waiting) == (n.kind matches NodeKind::Echo { input } && input@.len() == 0),
        start_outcome(n).0.lifecycle == Lifecycle::Waiting || start_outcome(n).0.lifecycle == Lifecycle::Idle,
        n.kind is Constant ==> start_outcome(n).0.lifecycle == Lifecycle::Idle,
        n.kind is JsonConstant ==> start_outcome(n).0.lifecycle == Lifecycle::Idle,
        start_outcome(n).2 == seq![
            (Lifecycle::Stopped, Lifecycle::Initializing),
            (Lifecycle::Initializing, start_outcome(n).0.lifecycle),
        ],
        start_outcome(n).0 == with_lifecycle(n, start_outcome(n).0.lifecycle),
{
}

/// A successful run of a Constant or JsonConstant node outputs exactly the
/// node's value and keeps it as the last output, whatever is wired into it;
/// an Echo outputs its wired input when there is one and its own input
/// otherwise. The result names the node and its new resting state.
pub proof fn lemma_run_outputs(
    before: NodeView,
    wired: Option<Seq<char>>,
    after: NodeView,
    r: Result<RunResultView, RuntimeErrorView>,
)
    requires
        run_outcome(before, wired, after, r),
        r is Ok,
    ensures
        before.kind matches NodeKind::Constant { value } ==> r->Ok_0.output == value@ && after.last_output == Some(value@),
        before.kind matches NodeKind::JsonConstant { value } ==> r->Ok_0.output == value@ && after.last_output == Some(value@),
        before.kind matches NodeKind::Echo { input } ==> r->Ok_0.output == (match wired {
            Some(w) => w,
            None => input@,
        }),
        after.last_output == Some(r->Ok_0.output),
        r->Ok_0.node_id == before.id,
        r->Ok_0.lifecycle == after.lifecycle,
        after.lifecycle == success_state(before.lifecycle_mode),
{
}

/// A run of a Constant or JsonConstant node does not depend on its wiring:
/// two runs from the same node, with any two wired inputs, give the same
/// result and leave the node in the same state.
pub proof fn lemma_constant_run_ignores_wiring(
    before: NodeView,
    w1: Option<Seq<char>>,
    a1: NodeView,
    r1: Result<RunResultView, RuntimeErrorView>,
    w2: Option<Seq<char>>,
    a2: NodeView,
    r2: Result<RunResultView, RuntimeErrorView>,
)
    requires
        before.kind is Constant || before.kind is JsonConstant,
        run_outcome(before, w1, a1, r1),
        run_outcome(before, w2, a2, r2),
    ensures
        r1 == r2,
        a1 == a2,
{
}

/// Every transition that start, stop or a run makes is allowed by the
/// node's mode.
pub proof fn lemma_outcomes_follow_table(n: NodeView)
    ensures
        forall|i: int| 0 <= i < start_outcome(n).2.len() ==> transition_allowed(
            (#[trigger] start_outcome(n).2[i]).0, start_outcome(n).2[i].1, n.lifecycle_mode),
        forall|i: int| 0 <= i < stop_outcome(n).2.len() ==> transition_allowed(
            (#[trigger] stop_outcome(n).2[i]).0, stop_outcome(n).2[i].1, n.lifecycle_mode),
        forall|i: int| 0 <= i < run_transitions(n).len() ==> transition_allowed(
            (#[trigger] run_transitions(n)[i]).0, run_transitions(n)[i].1, n.lifecycle_mode),
{
}

} // verus!
