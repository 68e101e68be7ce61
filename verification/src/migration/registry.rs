use vstd::prelude::*;

use crate::json::{as_u64_of, get_key, lemma_set_key, set_key, settable, JsonNumber, JsonValue, JsonView};
use crate::migration::v1_to_v2::V1ToV2Migrator;
use crate::migration::v2_to_v3::V2ToV3Migrator;
use crate::migration::v3_to_v4::V3ToV4Migrator;
use crate::persistence::project::CURRENT_SCHEMA_VERSION;
use crate::seqs::{first_index, lemma_first_index, lemma_first_index_at, lemma_first_index_none};
use crate::text::{decimal, decimal_string};

verus! {

/// Why a migration run failed.
#[derive(Debug)]
pub enum MigrationError {
    Json(String),
    StepFailed { from: u32, to: u32, message: String },
    MissingMigrator { from: u32, to: u32 },
    UnsupportedVersion(u32, u32),
}

pub enum MigrationErrorView {
    Json(Seq<char>),
    StepFailed { from: u32, to: u32, message: Seq<char> },
    MissingMigrator { from: u32, to: u32 },
    UnsupportedVersion(u32, u32),
}

impl View for MigrationError {
    type V = MigrationErrorView;

    open spec fn view(&self) -> MigrationErrorView {
        match self {
            MigrationError::Json(m) => MigrationErrorView::Json(m@),
            MigrationError::StepFailed { from, to, message } => MigrationErrorView::StepFailed {
                from: *from,
                to: *to,
                message: message@,
            },
            MigrationError::MissingMigrator { from, to } => MigrationErrorView::MissingMigrator { from: *from, to: *to },
            MigrationError::UnsupportedVersion(a, b) => MigrationErrorView::UnsupportedVersion(*a, *b),
        }
    }
}

/// The error's message.
pub open spec fn migration_message(e: MigrationErrorView) -> Seq<char> {
    match e {
        MigrationErrorView::Json(m) => "json error: "@ + m,
        MigrationErrorView::StepFailed { from, to, message } => "migration failed at version "@ + decimal(
            from as nat,
        ) + " -> "@ + decimal(to as nat) + ": "@ + message,
        MigrationErrorView::MissingMigrator { from, to } => "no migrator registered for "@ + decimal(from as nat)
            + " -> "@ + decimal(to as nat),
        MigrationErrorView::UnsupportedVersion(a, b) => "schema version "@ + decimal(a as nat)
            + " is newer than supported "@ + decimal(b as nat),
    }
}

impl MigrationError {
    pub fn message(&self) -> (m: String)
        ensures
            m@ == migration_message(self@),
    {
        match self {
            MigrationError::Json(m) => String::from_str("json error: ").concat(m.as_str()),
            MigrationError::StepFailed { from, to, message } => String::from_str("migration failed at version ").concat(
                decimal_string(*from).as_str(),
            ).concat(" -> ").concat(decimal_string(*to).as_str()).concat(": ").concat(message.as_str()),
            MigrationError::MissingMigrator { from, to } => String::from_str("no migrator registered for ").concat(
                decimal_string(*from).as_str(),
            ).concat(" -> ").concat(decimal_string(*to).as_str()),
            MigrationError::UnsupportedVersion(a, b) => String::from_str("schema version ").concat(
                decimal_string(*a).as_str(),
            ).concat(" is newer than supported ").concat(decimal_string(*b).as_str()),
        }
    }
}

/// One schema step of the project file.
pub trait Migrator {
    /// The version the step reads.
    spec fn source(&self) -> u32;

    /// The version the step writes.
    spec fn target(&self) -> u32;

    /// The step does not fail on the document.
    spec fn accepts(&self, d: JsonView) -> bool;

    /// The document after the step.
    spec fn migrated(&self, d: JsonView) -> JsonView;

    fn from_version(&self) -> (v: u32)
        ensures
            v == self.source(),
    ;

    fn to_version(&self) -> (v: u32)
        ensures
            v == self.target(),
    ;

    fn migrate(&self, data: &mut JsonValue) -> (r: Result<(), MigrationError>)
        requires
            self.accepts(old(data)@),
        ensures
            r is Ok ==> final(data)@ == self.migrated(old(data)@),
    ;
}

/// A migrator held by a registry.
pub enum RegisteredMigrator {
    V1ToV2(V1ToV2Migrator),
    V2ToV3(V2ToV3Migrator),
    V3ToV4(V3ToV4Migrator),
}

impl Migrator for RegisteredMigrator {
    open spec fn source(&self) -> u32 {
        match self {
            RegisteredMigrator::V1ToV2(m) => m.source(),
            RegisteredMigrator::V2ToV3(m) => m.source(),
            RegisteredMigrator::V3ToV4(m) => m.source(),
        }
    }

    open spec fn target(&self) -> u32 {
        match self {
            RegisteredMigrator::V1ToV2(m) => m.target(),
            RegisteredMigrator::V2ToV3(m) => m.target(),
            RegisteredMigrator::V3ToV4(m) => m.target(),
        }
    }

    open spec fn accepts(&self, d: JsonView) -> bool {
        match self {
            RegisteredMigrator::V1ToV2(m) => m.accepts(d),
            RegisteredMigrator::V2ToV3(m) => m.accepts(d),
            RegisteredMigrator::V3ToV4(m) => m.accepts(d),
        }
    }

    open spec fn migrated(&self, d: JsonView) -> JsonView {
        match self {
            RegisteredMigrator::V1ToV2(m) => m.migrated(d),
            RegisteredMigrator::V2ToV3(m) => m.migrated(d),
            RegisteredMigrator::V3ToV4(m) => m.migrated(d),
        }
    }

    fn from_version(&self) -> (v: u32) {
        match self {
            RegisteredMigrator::V1ToV2(m) => m.from_version(),
            RegisteredMigrator::V2ToV3(m) => m.from_version(),
            RegisteredMigrator::V3ToV4(m) => m.from_version(),
        }
    }

    fn to_version(&self) -> (v: u32) {
        match self {
            RegisteredMigrator::V1ToV2(m) => m.to_version(),
            RegisteredMigrator::V2ToV3(m) => m.to_version(),
            RegisteredMigrator::V3ToV4(m) => m.to_version(),
        }
    }

    fn migrate(&self, data: &mut JsonValue) -> (r: Result<(), MigrationError>)
        ensures
            r is Ok,
    {
        match self {
            RegisteredMigrator::V1ToV2(m) => m.migrate(data),
            RegisteredMigrator::V2ToV3(m) => m.migrate(data),
            RegisteredMigrator::V3ToV4(m) => m.migrate(data),
        }
    }
}

impl RegisteredMigrator {
    /// Whether `migrate` can run on the document.
    pub fn can_migrate(&self, data: &JsonValue) -> (b: bool)
        ensures
            b == self.accepts(data@),
    {
        match self {
            RegisteredMigrator::V1ToV2(_) => crate::migration::v1_to_v2::accepts_now(data),
            RegisteredMigrator::V2ToV3(_) => crate::migration::v2_to_v3::accepts_now(data),
            RegisteredMigrator::V3ToV4(_) => crate::migration::v3_to_v4::accepts_now(data),
        }
    }
}

/// The migrators of a registry, applied in version order.
pub struct MigrationRegistry {
    migrators: Vec<RegisteredMigrator>,
}

pub open spec fn steps_from(v: u32) -> spec_fn(RegisteredMigrator) -> bool {
    |m: RegisteredMigrator| m.source() == v && m.target() == v + 1
}

/// The version a document declares: its `schema_version` as an unsigned
/// integer cut to 32 bits, or 0.
pub open spec fn declared_version(d: JsonView) -> u32 {
    match as_u64_of(get_key(d, "schema_version"@)) {
        Some(n) => n as u32,
        None => 0,
    }
}

/// The document with its version set.
pub open spec fn with_version(d: JsonView, v: u32) -> JsonView {
    set_key(d, "schema_version"@, JsonView::Number(JsonNumber::PosInt(v as u64)))
}

/// Each step from version `v` on finds its migrator, which accepts the
/// document, and leaves a document whose version can be written.
pub open spec fn steps_safe(ms: Seq<RegisteredMigrator>, d: JsonView, v: u32) -> bool
    decreases CURRENT_SCHEMA_VERSION - v,
{
    if v >= CURRENT_SCHEMA_VERSION {
        true
    } else {
        match first_index(ms, steps_from(v)) {
            None => true,
            Some(i) => ms[i].accepts(d) && settable(ms[i].migrated(d)) && steps_safe(
                ms,
                with_version(ms[i].migrated(d), (v + 1) as u32),
                (v + 1) as u32,
            ),
        }
    }
}

/// The document after the steps from version `v`, and the error that stopped them.
pub open spec fn steps_outcome(ms: Seq<RegisteredMigrator>, d: JsonView, v: u32) -> (JsonView, Option<MigrationErrorView>)
    decreases CURRENT_SCHEMA_VERSION - v,
{
    if v >= CURRENT_SCHEMA_VERSION {
        (d, None)
    } else {
        match first_index(ms, steps_from(v)) {
            None => (d, Some(MigrationErrorView::MissingMigrator { from: v, to: (v + 1) as u32 })),
            Some(i) => steps_outcome(ms, with_version(ms[i].migrated(d), (v + 1) as u32), (v + 1) as u32),
        }
    }
}

/// A run refuses a document newer than this build, and otherwise steps it
/// from its declared version to the current one, writing each version reached.
pub open spec fn run_outcome(ms: Seq<RegisteredMigrator>, d: JsonView) -> (JsonView, Option<MigrationErrorView>) {
    let current = declared_version(d);
    if current > CURRENT_SCHEMA_VERSION {
        (d, Some(MigrationErrorView::UnsupportedVersion(current, CURRENT_SCHEMA_VERSION)))
    } else {
        steps_outcome(ms, d, current)
    }
}

/// A run on the document does not fail.
pub open spec fn run_safe(ms: Seq<RegisteredMigrator>, d: JsonView) -> bool {
    declared_version(d) > CURRENT_SCHEMA_VERSION || steps_safe(ms, d, declared_version(d))
}

pub open spec fn error_view(r: Result<(), MigrationError>) -> Option<MigrationErrorView> {
    match r {
        Ok(()) => None,
        Err(e) => Some(e@),
    }
}

impl Default for MigrationRegistry {
    fn default() -> (r: Self)
        ensures
            r.migrators_spec() == builtin_migrators(),
    {
        Self::new()
    }
}

/// The built-in steps: 1 → 2, 2 → 3 and 3 → 4.
pub open spec fn builtin_migrators() -> Seq<RegisteredMigrator> {
    seq![
        RegisteredMigrator::V1ToV2(V1ToV2Migrator),
        RegisteredMigrator::V2ToV3(V2ToV3Migrator),
        RegisteredMigrator::V3ToV4(V3ToV4Migrator),
    ]
}

impl MigrationRegistry {
    pub closed spec fn migrators_spec(&self) -> Seq<RegisteredMigrator> {
        self.migrators@
    }

    /// A registry with the built-in steps.
    pub fn new() -> (r: Self)
        ensures
            r.migrators_spec() == builtin_migrators(),
    {
        let mut migrators: Vec<RegisteredMigrator> = Vec::new();
        migrators.push(RegisteredMigrator::V1ToV2(V1ToV2Migrator));
        migrators.push(RegisteredMigrator::V2ToV3(V2ToV3Migrator));
        migrators.push(RegisteredMigrator::V3ToV4(V3ToV4Migrator));
        let r = Self { migrators };
        assert(r.migrators_spec() =~= builtin_migrators());
        r
    }

    /// Adds a migrator after the registered ones.
    pub fn register(&mut self, migrator: RegisteredMigrator)
        ensures
            final(self).migrators_spec() == old(self).migrators_spec().push(migrator),
    {
        self.migrators.push(migrator);
    }

    fn find_step(&self, version: u32, next: u32) -> (r: Option<usize>)
        requires
            next == version + 1,
        ensures
            match r {
                Some(i) => first_index(self.migrators@, steps_from(version)) == Some(i as int) && i < self.migrators@.len(),
                None => first_index(self.migrators@, steps_from(version)) is None,
            },
    {
        let mut i: usize = 0;
        while i < self.migrators.len()
            invariant
                i <= self.migrators@.len(),
                next == version + 1,
                forall|j: int| 0 <= j < i ==> !steps_from(version)(#[trigger] self.migrators@[j]),
            decreases self.migrators@.len() - i,
        {
            if self.migrators[i].from_version() == version && self.migrators[i].to_version() == next {
                proof {
                    lemma_first_index_at(self.migrators@, steps_from(version), i as int);
                }
                return Some(i);
            }
            i = i + 1;
        }
        proof {
            lemma_first_index_none(self.migrators@, steps_from(version));
        }
        None
    }

    fn declared(data: &JsonValue) -> (v: u32)
        ensures
            v == declared_version(data@),
    {
        match data.get("schema_version") {
            Some(value) => match value.as_u64() {
                Some(n) => n as u32,
                None => 0,
            },
            None => 0,
        }
    }

    /// Whether `run` can process the document: it is newer than this build,
    /// or every step it would take accepts it.
    pub fn can_run(&self, data: &JsonValue) -> (b: bool)
        ensures
            b == run_safe(self.migrators_spec(), data@),
    {
        let current = Self::declared(data);
        if current > CURRENT_SCHEMA_VERSION {
            return true;
        }
        let mut doc = data.clone();
        let mut version = current;
        while version < CURRENT_SCHEMA_VERSION
            invariant
                current == declared_version(data@),
                current <= version <= CURRENT_SCHEMA_VERSION,
                steps_safe(self.migrators@, data@, current) == steps_safe(self.migrators@, doc@, version),
            decreases CURRENT_SCHEMA_VERSION - version,
        {
            let next = version + 1;
            let idx = match self.find_step(version, next) {
                Some(i) => i,
                None => {
                    return true;
                },
            };
            if !self.migrators[idx].can_migrate(&doc) {
                return false;
            }
            let _ = self.migrators[idx].migrate(&mut doc);
            if !doc.is_settable() {
                return false;
            }
            doc.set("schema_version", JsonValue::Number(JsonNumber::PosInt(next as u64)));
            version = next;
        }
        true
    }

    /// Steps the document from its declared version to the current one.
    pub fn run(&self, data: &mut JsonValue) -> (r: Result<(), MigrationError>)
        requires
            run_safe(self.migrators_spec(), old(data)@),
        ensures
            (final(data)@, error_view(r)) == run_outcome(self.migrators_spec(), old(data)@),
    {
        let current = Self::declared(data);
        if current > CURRENT_SCHEMA_VERSION {
            return Err(MigrationError::UnsupportedVersion(current, CURRENT_SCHEMA_VERSION));
        }
        let mut version = current;
        while version < CURRENT_SCHEMA_VERSION
            invariant
                version <= CURRENT_SCHEMA_VERSION,
                steps_safe(self.migrators@, data@, version),
                steps_outcome(self.migrators@, data@, version) == run_outcome(self.migrators@, old(data)@),
            decreases CURRENT_SCHEMA_VERSION - version,
        {
            let next = version + 1;
            let idx = match self.find_step(version, next) {
                Some(i) => i,
                None => {
                    return Err(MigrationError::MissingMigrator { from: version, to: next });
                },
            };
            match self.migrators[idx].migrate(data) {
                Ok(()) => {},
                Err(e) => {
                    let mapped = match e {
                        MigrationError::StepFailed { .. } => e,
                        other => MigrationError::StepFailed { from: version, to: next, message: other.message() },
                    };
                    return Err(mapped);
                },
            }
            data.set("schema_version", JsonValue::Number(JsonNumber::PosInt(next as u64)));
            version = next;
        }
        Ok(())
    }
}

/// After a successful run the document declares the current version, and a
/// second run changes nothing.
pub proof fn lemma_run_reaches_current(ms: Seq<RegisteredMigrator>, d: JsonView)
    requires
        run_safe(ms, d),
        run_outcome(ms, d).1 is None,
        declared_version(d) < CURRENT_SCHEMA_VERSION,
    ensures
        declared_version(run_outcome(ms, d).0) == CURRENT_SCHEMA_VERSION,
        run_outcome(ms, run_outcome(ms, d).0) == (run_outcome(ms, d).0, None::<MigrationErrorView>),
{
    lemma_steps_reach_current(ms, d, declared_version(d));
}

proof fn lemma_steps_reach_current(ms: Seq<RegisteredMigrator>, d: JsonView, v: u32)
    requires
        steps_safe(ms, d, v),
        steps_outcome(ms, d, v).1 is None,
        v < CURRENT_SCHEMA_VERSION,
    ensures
        declared_version(steps_outcome(ms, d, v).0) == CURRENT_SCHEMA_VERSION,
    decreases CURRENT_SCHEMA_VERSION - v,
{
    lemma_first_index(ms, steps_from(v));
    let i = first_index(ms, steps_from(v)).unwrap();
    let next = (v + 1) as u32;
    let d2 = with_version(ms[i].migrated(d), next);
    if next < CURRENT_SCHEMA_VERSION {
        lemma_steps_reach_current(ms, d2, next);
    } else {
        assert(steps_outcome(ms, d2, next) == (d2, None::<MigrationErrorView>));
        lemma_with_version(ms[i].migrated(d), next);
    }
}

/// Writing a version makes the document declare it.
pub proof fn lemma_with_version(d: JsonView, v: u32)
    requires
        settable(d),
    ensures
        declared_version(with_version(d, v)) == v,
{
    lemma_set_key(d, "schema_version"@, JsonView::Number(JsonNumber::PosInt(v as u64)));
    assert((v as u64) as u32 == v);
}

/// A document already at the current version is left as it is.
pub proof fn lemma_current_is_untouched(ms: Seq<RegisteredMigrator>, d: JsonView)
    requires
        declared_version(d) == CURRENT_SCHEMA_VERSION,
    ensures
        run_outcome(ms, d) == (d, None::<MigrationErrorView>),
{
}

} // verus!
