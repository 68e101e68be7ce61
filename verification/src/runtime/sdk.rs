use vstd::prelude::*;

use crate::runtime::lifecycle::{Lifecycle, LifecycleMode};
use crate::runtime::protocol::presets::{HowPreset, PortDeclaration, WhatPreset};

verus! {

/// Minimum node-sdk defaults for builtin nodes.
pub struct BuiltinNodeDefaults;

impl BuiltinNodeDefaults {
    /// Default I/O declaration inherited by minimal nodes: any payload, single delivery.
    pub fn any_io() -> (d: PortDeclaration)
        ensures
            d == (PortDeclaration { what: WhatPreset::Any, how: HowPreset::Single }),
    {
        PortDeclaration::new(WhatPreset::Any, HowPreset::Single)
    }
}

/// One call a node makes on its lifecycle hooks.
pub enum HookCall {
    Transition(Lifecycle, Lifecycle, LifecycleMode),
    Init,
    Run,
    Stop,
}

/// Lifecycle callbacks bound to state transitions. `calls` is what the hooks
/// have been told so far: each callback adds itself to it. Hooks written
/// outside verified code may leave `calls` undefined; what the contracts say
/// of the calls then tells nothing about them.
pub trait LifecycleHooks {
    closed spec fn calls(&self) -> Seq<HookCall> {
        Seq::empty()
    }

    fn on_transition(&mut self, from: Lifecycle, to: Lifecycle, mode: LifecycleMode)
        ensures
            final(self).calls() == old(self).calls().push(HookCall::Transition(from, to, mode)),
    ;

    fn on_init(&mut self)
        ensures
            final(self).calls() == old(self).calls().push(HookCall::Init),
    ;

    fn on_run(&mut self)
        ensures
            final(self).calls() == old(self).calls().push(HookCall::Run),
    ;

    fn on_stop(&mut self)
        ensures
            final(self).calls() == old(self).calls().push(HookCall::Stop),
    ;
}

/// Hooks that do nothing; the calls they receive are kept as ghost state only.
pub struct NoopLifecycleHooks {
    received: Ghost<Seq<HookCall>>,
}

impl NoopLifecycleHooks {
    pub fn new() -> (h: Self)
        ensures
            h.calls() == Seq::<HookCall>::empty(),
    {
        NoopLifecycleHooks { received: Ghost(Seq::empty()) }
    }
}

impl LifecycleHooks for NoopLifecycleHooks {
    closed spec fn calls(&self) -> Seq<HookCall> {
        self.received@
    }

    fn on_transition(&mut self, from: Lifecycle, to: Lifecycle, mode: LifecycleMode) {
        proof {
            self.received@ = self.received@.push(HookCall::Transition(from, to, mode));
        }
    }

    fn on_init(&mut self) {
        proof {
            self.received@ = self.received@.push(HookCall::Init);
        }
    }

    fn on_run(&mut self) {
        proof {
            self.received@ = self.received@.push(HookCall::Run);
        }
    }

    fn on_stop(&mut self) {
        proof {
            self.received@ = self.received@.push(HookCall::Stop);
        }
    }
}

} // verus!
