use vstd::prelude::*;

use crate::runtime::protocol::presets::{
    how_id, what_id, Axis, HowPreset, PortDeclaration, WhatPreset,
};

verus! {

/// The outcome of resolving a source port against a target port.
#[derive(Debug, PartialEq, Eq)]
pub enum ResolutionOutcome {
    Compatible,
    Reject { axis: Axis, reason: String, hint: String },
}

/// What axis: `any` matches all, identical presets match, custom presets and
/// all other pairs are rejected.
pub open spec fn what_compatible(source: WhatPreset, target: WhatPreset) -> bool {
    &&& !(source is Custom)
    &&& !(target is Custom)
    &&& (source is Any || target is Any || source == target)
}

/// How axis: only `single` to `single` is compatible.
pub open spec fn how_compatible(source: HowPreset, target: HowPreset) -> bool {
    source is Single && target is Single
}

/// The reason and hint of a What rejection; `None` when compatible.
pub open spec fn what_rejection(source: WhatPreset, target: WhatPreset) -> Option<(Seq<char>, Seq<char>)> {
    if source is Custom || target is Custom {
        Some((
            "Custom What presets are not supported in v3."@,
            "Use a built-in What preset (any, text, json, bytes)."@,
        ))
    } else if what_compatible(source, target) {
        None
    } else {
        Some((
            "What mismatch: source "@ + what_id(source) + " cannot connect to target "@
                + what_id(target) + "."@,
            "Change the target port to "@ + what_id(source) + " or the source port to "@
                + what_id(target) + "."@,
        ))
    }
}

/// The reason and hint of a How rejection; `None` when compatible.
pub open spec fn how_rejection(source: HowPreset, target: HowPreset) -> Option<(Seq<char>, Seq<char>)> {
    if source is Custom || target is Custom {
        Some((
            "Custom How presets are not supported in v3."@,
            "Use a built-in How preset (single, stream, request-response, broadcast)."@,
        ))
    } else if how_compatible(source, target) {
        None
    } else {
        Some((
            "How mismatch: "@ + how_id(source) + " → "@ + how_id(target) + " is not supported yet."@,
            "Only single → single connections are supported in v3 (channels in v10, adapters in v13)."@,
        ))
    }
}

/// `r` is the outcome that a rejection (or `None`) on `axis` describes.
pub open spec fn outcome_is(r: ResolutionOutcome, axis: Axis, rejection: Option<(Seq<char>, Seq<char>)>) -> bool {
    match rejection {
        None => r is Compatible,
        Some(rh) => r matches ResolutionOutcome::Reject { axis: a, reason, hint }
            && a == axis && reason@ == rh.0 && hint@ == rh.1,
    }
}

/// The outcome of resolving two declarations: the What axis first, then How.
pub open spec fn ports_outcome_is(r: ResolutionOutcome, source: PortDeclaration, target: PortDeclaration) -> bool {
    if what_rejection(source.what, target.what) is Some {
        outcome_is(r, Axis::What, what_rejection(source.what, target.what))
    } else {
        outcome_is(r, Axis::How, how_rejection(source.how, target.how))
    }
}

/// Both axes must be compatible for a connection to succeed; a What rejection
/// is reported before a How one.
pub fn resolve_ports(source: &PortDeclaration, target: &PortDeclaration) -> (r: ResolutionOutcome)
    ensures
        ports_outcome_is(r, *source, *target),
        r is Compatible <==> what_compatible(source.what, target.what) && how_compatible(source.how, target.how),
{
    match resolve_what(&source.what, &target.what) {
        ResolutionOutcome::Compatible => {},
        reject => return reject,
    }
    resolve_how(&source.how, &target.how)
}

fn same_builtin_what(source: &WhatPreset, target: &WhatPreset) -> (b: bool)
    requires
        !(*source is Custom),
        !(*target is Custom),
    ensures
        b == (*source == *target),
{
    match (source, target) {
        (WhatPreset::Any, WhatPreset::Any) => true,
        (WhatPreset::Text, WhatPreset::Text) => true,
        (WhatPreset::Json, WhatPreset::Json) => true,
        (WhatPreset::Bytes, WhatPreset::Bytes) => true,
        _ => false,
    }
}

pub fn resolve_what(source: &WhatPreset, target: &WhatPreset) -> (r: ResolutionOutcome)
    ensures
        outcome_is(r, Axis::What, what_rejection(*source, *target)),
        r is Compatible <==> what_compatible(*source, *target),
{
    if source.is_custom() || target.is_custom() {
        return reject_what(
            source,
            target,
            "Custom What presets are not supported in v3.",
            "Use a built-in What preset (any, text, json, bytes).",
        );
    }
    if matches!(source, WhatPreset::Any) || matches!(target, WhatPreset::Any) {
        return ResolutionOutcome::Compatible;
    }
    if same_builtin_what(source, target) {
        return ResolutionOutcome::Compatible;
    }
    let reason = String::from_str("What mismatch: source ").concat(source.id()).concat(
        " cannot connect to target ",
    ).concat(target.id()).concat(".");
    let hint = String::from_str("Change the target port to ").concat(source.id()).concat(
        " or the source port to ",
    ).concat(target.id()).concat(".");
    reject_what(source, target, reason.as_str(), hint.as_str())
}

pub fn resolve_how(source: &HowPreset, target: &HowPreset) -> (r: ResolutionOutcome)
    ensures
        outcome_is(r, Axis::How, how_rejection(*source, *target)),
        r is Compatible <==> how_compatible(*source, *target),
{
    if source.is_custom() || target.is_custom() {
        return reject_how(
            source,
            target,
            "Custom How presets are not supported in v3.",
            "Use a built-in How preset (single, stream, request-response, broadcast).",
        );
    }
    if matches!(source, HowPreset::Single) && matches!(target, HowPreset::Single) {
        return ResolutionOutcome::Compatible;
    }
    let reason = String::from_str("How mismatch: ").concat(source.id()).concat(" → ").concat(
        target.id(),
    ).concat(" is not supported yet.");
    reject_how(
        source,
        target,
        reason.as_str(),
        "Only single → single connections are supported in v3 (channels in v10, adapters in v13).",
    )
}

pub fn reject_what(source: &WhatPreset, target: &WhatPreset, reason: &str, hint: &str) -> (r: ResolutionOutcome)
    ensures
        r matches ResolutionOutcome::Reject { axis: a, reason: re, hint: hi }
            && a == Axis::What && re@ == reason@ && hi@ == hint@,
{
    ResolutionOutcome::Reject { axis: Axis::What, reason: reason.to_owned(), hint: hint.to_owned() }
}

pub fn reject_how(source: &HowPreset, target: &HowPreset, reason: &str, hint: &str) -> (r: ResolutionOutcome)
    ensures
        r matches ResolutionOutcome::Reject { axis: a, reason: re, hint: hi }
            && a == Axis::How && re@ == reason@ && hi@ == hint@,
{
    ResolutionOutcome::Reject { axis: Axis::How, reason: reason.to_owned(), hint: hint.to_owned() }
}

/// Compatibility does not depend on direction: on each axis, a pair is
/// compatible exactly when the swapped pair is.
pub proof fn lemma_compatibility_symmetric(source: PortDeclaration, target: PortDeclaration)
    ensures
        what_compatible(source.what, target.what) == what_compatible(target.what, source.what),
        how_compatible(source.how, target.how) == how_compatible(target.how, source.how),
{
}

/// A port is compatible with itself exactly when neither axis is custom and
/// its How is `single`; `any·single` is compatible with every built-in
/// `*·single` declaration in both directions.
pub proof fn lemma_any_single_connects(other: PortDeclaration)
    ensures
        what_compatible(other.what, other.what) <==> !(other.what is Custom),
        !(other.what is Custom) && other.how is Single ==> {
            &&& what_compatible(WhatPreset::Any, other.what) && how_compatible(HowPreset::Single, other.how)
            &&& what_compatible(other.what, WhatPreset::Any) && how_compatible(other.how, HowPreset::Single)
        },
{
}

} // verus!
