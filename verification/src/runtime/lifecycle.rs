use vstd::prelude::*;

verus! {

/// Whether a node runs once per trigger (`Ephemeral`) or stays started
/// between runs (`Persistent`).
#[derive(Clone, Copy, Debug, PartialEq, Eq, Hash, Structural)]
pub enum LifecycleMode {
    Ephemeral,
    Persistent,
}

impl Default for LifecycleMode {
    fn default() -> (m: Self)
        ensures
            m == LifecycleMode::Ephemeral,
    {
        LifecycleMode::Ephemeral
    }
}

/// The lifecycle state of a node instance.
#[derive(Clone, Copy, Debug, PartialEq, Eq, Hash, Structural)]
pub enum Lifecycle {
    Idle,
    Initializing,
    Running,
    Waiting,
    Stopping,
    Stopped,
    Done,
    Failed,
}

/// A refused lifecycle transition.
#[derive(Clone, Copy, Debug, PartialEq, Eq, Structural)]
pub struct LifecycleError {
    pub from: Lifecycle,
    pub to: Lifecycle,
    pub mode: LifecycleMode,
}

/// The state a node of the given mode starts in.
pub open spec fn initial_state(mode: LifecycleMode) -> Lifecycle {
    match mode {
        LifecycleMode::Ephemeral => Lifecycle::Idle,
        LifecycleMode::Persistent => Lifecycle::Stopped,
    }
}

/// The transition table of each mode.
pub open spec fn transition_allowed(from: Lifecycle, to: Lifecycle, mode: LifecycleMode) -> bool {
    match mode {
        LifecycleMode::Ephemeral => {
            ||| from == Lifecycle::Idle && to == Lifecycle::Running
            ||| from == Lifecycle::Done && to == Lifecycle::Running
            ||| from == Lifecycle::Failed && to == Lifecycle::Running
            ||| from == Lifecycle::Running && to == Lifecycle::Done
            ||| from == Lifecycle::Running && to == Lifecycle::Failed
        },
        LifecycleMode::Persistent => {
            ||| from == Lifecycle::Stopped && to == Lifecycle::Initializing
            ||| from == Lifecycle::Idle && to == Lifecycle::Initializing
            ||| from == Lifecycle::Initializing && to == Lifecycle::Idle
            ||| from == Lifecycle::Initializing && to == Lifecycle::Waiting
            ||| from == Lifecycle::Idle && to == Lifecycle::Running
            ||| from == Lifecycle::Waiting && to == Lifecycle::Running
            ||| from == Lifecycle::Running && to == Lifecycle::Idle
            ||| from == Lifecycle::Running && to == Lifecycle::Failed
            ||| from == Lifecycle::Idle && to == Lifecycle::Stopping
            ||| from == Lifecycle::Waiting && to == Lifecycle::Stopping
            ||| from == Lifecycle::Running && to == Lifecycle::Stopping
            ||| from == Lifecycle::Stopping && to == Lifecycle::Stopped
            ||| from == Lifecycle::Failed && to == Lifecycle::Initializing
        },
    }
}

/// The resting state after a successful run.
pub open spec fn success_state(mode: LifecycleMode) -> Lifecycle {
    match mode {
        LifecycleMode::Ephemeral => Lifecycle::Done,
        LifecycleMode::Persistent => Lifecycle::Idle,
    }
}

/// The states a node of the given mode can be in: every state but `Done` is
/// persistent-only or shared; ephemeral nodes only ever idle, run, finish or fail.
pub open spec fn mode_state(state: Lifecycle, mode: LifecycleMode) -> bool {
    match mode {
        LifecycleMode::Ephemeral => {
            ||| state == Lifecycle::Idle
            ||| state == Lifecycle::Running
            ||| state == Lifecycle::Done
            ||| state == Lifecycle::Failed
        },
        LifecycleMode::Persistent => state != Lifecycle::Done,
    }
}

/// The name of a lifecycle state as `{:?}` prints it.
pub open spec fn lifecycle_name(state: Lifecycle) -> Seq<char> {
    match state {
        Lifecycle::Idle => "Idle"@,
        Lifecycle::Initializing => "Initializing"@,
        Lifecycle::Running => "Running"@,
        Lifecycle::Waiting => "Waiting"@,
        Lifecycle::Stopping => "Stopping"@,
        Lifecycle::Stopped => "Stopped"@,
        Lifecycle::Done => "Done"@,
        Lifecycle::Failed => "Failed"@,
    }
}

/// The name of a mode as `{:?}` prints it.
pub open spec fn mode_name(mode: LifecycleMode) -> Seq<char> {
    match mode {
        LifecycleMode::Ephemeral => "Ephemeral"@,
        LifecycleMode::Persistent => "Persistent"@,
    }
}

impl Lifecycle {
    pub fn initial_for_mode(mode: LifecycleMode) -> (state: Lifecycle)
        ensures
            state == initial_state(mode),
    {
        match mode {
            LifecycleMode::Ephemeral => Lifecycle::Idle,
            LifecycleMode::Persistent => Lifecycle::Stopped,
        }
    }

    pub fn can_transition_with_mode(from: Lifecycle, to: Lifecycle, mode: LifecycleMode) -> (ok: bool)
        ensures
            ok == transition_allowed(from, to, mode),
    {
        match mode {
            LifecycleMode::Ephemeral => match (from, to) {
                (Lifecycle::Idle, Lifecycle::Running)
                | (Lifecycle::Done, Lifecycle::Running)
                | (Lifecycle::Failed, Lifecycle::Running)
                | (Lifecycle::Running, Lifecycle::Done)
                | (Lifecycle::Running, Lifecycle::Failed) => true,
                _ => false,
            },
            LifecycleMode::Persistent => match (from, to) {
                (Lifecycle::Stopped, Lifecycle::Initializing)
                | (Lifecycle::Idle, Lifecycle::Initializing)
                | (Lifecycle::Initializing, Lifecycle::Idle)
                | (Lifecycle::Initializing, Lifecycle::Waiting)
                | (Lifecycle::Idle, Lifecycle::Running)
                | (Lifecycle::Waiting, Lifecycle::Running)
                | (Lifecycle::Running, Lifecycle::Idle)
                | (Lifecycle::Running, Lifecycle::Failed)
                | (Lifecycle::Idle, Lifecycle::Stopping)
                | (Lifecycle::Waiting, Lifecycle::Stopping)
                | (Lifecycle::Running, Lifecycle::Stopping)
                | (Lifecycle::Stopping, Lifecycle::Stopped)
                | (Lifecycle::Failed, Lifecycle::Initializing) => true,
                _ => false,
            },
        }
    }

    /// Moves to `to` when the mode's table allows it; otherwise leaves the
    /// state unchanged and reports the refused transition.
    pub fn transition_with_mode(&mut self, to: Lifecycle, mode: LifecycleMode) -> (r: Result<(), LifecycleError>)
        ensures
            transition_allowed(*old(self), to, mode) ==> r is Ok && *final(self) == to,
            !transition_allowed(*old(self), to, mode) ==> r == Err::<(), LifecycleError>(
                LifecycleError { from: *old(self), to, mode },
            ) && *final(self) == *old(self),
    {
        if !Self::can_transition_with_mode(*self, to, mode) {
            return Err(LifecycleError { from: *self, to, mode });
        }
        *self = to;
        Ok(())
    }

    /// Post-run terminal state for the given mode.
    pub fn after_success(mode: LifecycleMode) -> (state: Lifecycle)
        ensures
            state == success_state(mode),
    {
        match mode {
            LifecycleMode::Ephemeral => Lifecycle::Done,
            LifecycleMode::Persistent => Lifecycle::Idle,
        }
    }

    /// The state's name as `{:?}` prints it.
    pub fn debug_name(&self) -> (name: &'static str)
        ensures
            name@ == lifecycle_name(*self),
    {
        match self {
            Lifecycle::Idle => "Idle",
            Lifecycle::Initializing => "Initializing",
            Lifecycle::Running => "Running",
            Lifecycle::Waiting => "Waiting",
            Lifecycle::Stopping => "Stopping",
            Lifecycle::Stopped => "Stopped",
            Lifecycle::Done => "Done",
            Lifecycle::Failed => "Failed",
        }
    }
}

impl LifecycleMode {
    /// The mode's name as `{:?}` prints it.
    pub fn debug_name(&self) -> (name: &'static str)
        ensures
            name@ == mode_name(*self),
    {
        match self {
            LifecycleMode::Ephemeral => "Ephemeral",
            LifecycleMode::Persistent => "Persistent",
        }
    }
}

/// The message of a refused transition:
/// `invalid lifecycle transition: {from:?} -> {to:?} (mode {mode:?})`.
pub open spec fn lifecycle_error_message(e: LifecycleError) -> Seq<char> {
    "invalid lifecycle transition: "@ + lifecycle_name(e.from) + " -> "@ + lifecycle_name(e.to) + " (mode "@
        + mode_name(e.mode) + ")"@
}

impl LifecycleError {
    /// The error's message.
    pub fn message(&self) -> (m: String)
        ensures
            m@ == lifecycle_error_message(*self),
    {
        let m = String::from_str("invalid lifecycle transition: ");
        let m = m.concat(self.from.debug_name());
        let m = m.concat(" -> ");
        let m = m.concat(self.to.debug_name());
        let m = m.concat(" (mode ");
        let m = m.concat(self.mode.debug_name());
        m.concat(")")
    }
}

/// Each mode starts in one of its own states.
pub proof fn lemma_initial_state_in_mode(mode: LifecycleMode)
    ensures
        mode_state(initial_state(mode), mode),
{
}

/// Every allowed transition keeps a node within its mode's states: an
/// ephemeral node never initializes, waits, stops or is stopped, and a
/// persistent node is never `Done`.
pub proof fn lemma_transitions_stay_in_mode(from: Lifecycle, to: Lifecycle, mode: LifecycleMode)
    requires
        mode_state(from, mode),
        transition_allowed(from, to, mode),
    ensures
        mode_state(to, mode),
{
}

/// The state after trying each pick in turn from `state`, as
/// `transition_with_mode` does: an allowed pick is taken, a refused one
/// leaves the state as it is.
pub open spec fn after_picks(state: Lifecycle, picks: Seq<Lifecycle>, mode: LifecycleMode) -> Lifecycle
    decreases picks.len(),
{
    if picks.len() == 0 {
        state
    } else {
        let s = after_picks(state, picks.drop_last(), mode);
        if transition_allowed(s, picks.last(), mode) {
            picks.last()
        } else {
            s
        }
    }
}

/// Whatever transitions are tried, in any order, from a mode's initial
/// state, the node stays in one of the mode's states: an ephemeral node in
/// idle, running, done or failed; a persistent node never in done.
pub proof fn lemma_picks_stay_in_mode(picks: Seq<Lifecycle>, mode: LifecycleMode)
    ensures
        mode_state(after_picks(initial_state(mode), picks, mode), mode),
    decreases picks.len(),
{
    if picks.len() == 0 {
        lemma_initial_state_in_mode(mode);
    } else {
        lemma_picks_stay_in_mode(picks.drop_last(), mode);
        let s = after_picks(initial_state(mode), picks.drop_last(), mode);
        if transition_allowed(s, picks.last(), mode) {
            lemma_transitions_stay_in_mode(s, picks.last(), mode);
        }
    }
}

/// Any sequence of allowed transitions from the mode's initial state only
/// visits states of that mode.
pub proof fn lemma_reachable_states_in_mode(path: Seq<Lifecycle>, mode: LifecycleMode)
    requires
        path.len() > 0,
        path[0] == initial_state(mode),
        forall|i: int| 0 <= i < path.len() - 1 ==> transition_allowed(#[trigger] path[i], path[i + 1], mode),
    ensures
        forall|i: int| 0 <= i < path.len() ==> mode_state(#[trigger] path[i], mode),
    decreases path.len(),
{
    if path.len() > 1 {
        let prefix = path.drop_last();
        assert forall|i: int| 0 <= i < prefix.len() - 1 implies transition_allowed(#[trigger] prefix[i], prefix[i + 1], mode) by {
            assert(prefix[i] == path[i] && prefix[i + 1] == path[i + 1]);
        }
        lemma_reachable_states_in_mode(prefix, mode);
        assert forall|i: int| 0 <= i < path.len() implies mode_state(#[trigger] path[i], mode) by {
            if i < path.len() - 1 {
                assert(prefix[i] == path[i]);
            } else {
                assert(prefix[i - 1] == path[i - 1]);
                assert(transition_allowed(path[i - 1], path[i], mode));
            }
        }
    }
}

/// A run can always finish: from `Running` the mode's success state is allowed,
/// and in each mode a node resting after a success may run again.
pub proof fn lemma_success_then_rerun(mode: LifecycleMode)
    ensures
        transition_allowed(Lifecycle::Running, success_state(mode), mode),
        transition_allowed(success_state(mode), Lifecycle::Running, mode),
        transition_allowed(Lifecycle::Running, Lifecycle::Failed, mode),
{
}

} // verus!
