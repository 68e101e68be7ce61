use vstd::prelude::*;

use crate::json::{get_key, set_key, settable, JsonValue, JsonView};
use crate::migration::registry::{MigrationError, Migrator};

verus! {

/// Schema 1 → 2: adds an empty `edges` list when there is none.
pub struct V1ToV2Migrator;

/// Schema 1 → 2 on a document.
pub open spec fn v1_to_v2(d: JsonView) -> JsonView {
    if get_key(d, "edges"@) is Some {
        d
    } else {
        set_key(d, "edges"@, JsonView::Array(seq![]))
    }
}

/// The migration does not fail on the document.
pub open spec fn v1_to_v2_accepts(d: JsonView) -> bool {
    get_key(d, "edges"@) is Some || settable(d)
}

/// Whether the step can run on the document.
pub fn accepts_now(data: &JsonValue) -> (b: bool)
    ensures
        b == v1_to_v2_accepts(data@),
{
    data.get("edges").is_some() || data.is_settable()
}

impl Migrator for V1ToV2Migrator {
    open spec fn source(&self) -> u32 {
        1
    }

    open spec fn target(&self) -> u32 {
        2
    }

    open spec fn accepts(&self, d: JsonView) -> bool {
        v1_to_v2_accepts(d)
    }

    open spec fn migrated(&self, d: JsonView) -> JsonView {
        v1_to_v2(d)
    }

    fn from_version(&self) -> (v: u32) {
        1
    }

    fn to_version(&self) -> (v: u32) {
        2
    }

    fn migrate(&self, data: &mut JsonValue) -> (r: Result<(), MigrationError>)
        ensures
            r is Ok,
    {
        if data.get("edges").is_none() {
            data.set("edges", JsonValue::empty_array());
        }
        Ok(())
    }
}

} // verus!
