use vstd::prelude::*;

use crate::json::{
    all_items_settable, all_settable, array_view, as_str_of, get_key, lemma_set_key, set_key, settable, JsonValue,
    JsonView,
};
use crate::migration::registry::{MigrationError, Migrator};
use crate::runtime::protocol::presets::str_eq;

verus! {

/// Schema 3 → 4: stored nodes get a lifecycle mode, and the retired
/// `created` state becomes `idle`.
pub struct V3ToV4Migrator;

/// A stored node with `lifecycle_mode` set to "ephemeral" when it has none.
pub open spec fn with_mode(node: JsonView) -> JsonView {
    if get_key(node, "lifecycle_mode"@) is None {
        set_key(node, "lifecycle_mode"@, JsonView::Str("ephemeral"@))
    } else {
        node
    }
}

/// A stored node after the step: a lifecycle mode is added when missing,
/// then a `created` lifecycle becomes `idle`.
pub open spec fn node_v3_to_v4(node: JsonView) -> JsonView {
    let n = with_mode(node);
    if as_str_of(get_key(n, "lifecycle"@)) == Some("created"@) {
        set_key(n, "lifecycle"@, JsonView::Str("idle"@))
    } else {
        n
    }
}

/// Each stored node after the step.
pub open spec fn nodes_v3_to_v4(items: Seq<JsonView>) -> Seq<JsonView> {
    items.map_values(|n: JsonView| node_v3_to_v4(n))
}

/// Schema 3 → 4 on a document: only a `nodes` array is touched.
pub open spec fn v3_to_v4(d: JsonView) -> JsonView {
    match get_key(d, "nodes"@) {
        Some(JsonView::Array(items)) => set_key(d, "nodes"@, JsonView::Array(nodes_v3_to_v4(items))),
        _ => d,
    }
}

/// The step does not fail: every stored node is an object (or null).
pub open spec fn v3_to_v4_accepts(d: JsonView) -> bool {
    match get_key(d, "nodes"@) {
        Some(JsonView::Array(items)) => all_settable(items),
        _ => true,
    }
}

/// One stored node after the step.
pub fn node_to_v4(node: &JsonValue) -> (n: JsonValue)
    requires
        settable(node@),
    ensures
        n@ == node_v3_to_v4(node@),
{
    let mut n = node.clone();
    if n.get("lifecycle_mode").is_none() {
        n.set("lifecycle_mode", JsonValue::from_str_value("ephemeral"));
    }
    proof {
        if get_key(node@, "lifecycle_mode"@) is None {
            lemma_set_key(node@, "lifecycle_mode"@, JsonView::Str("ephemeral"@));
        }
    }
    let created = match n.get("lifecycle") {
        Some(v) => match v.as_str() {
            Some(lc) => str_eq(lc, "created"),
            None => false,
        },
        None => false,
    };
    if created {
        n.set("lifecycle", JsonValue::from_str_value("idle"));
    }
    n
}

fn nodes_to_v4(items: &Vec<JsonValue>) -> (out: Vec<JsonValue>)
    requires
        all_settable(array_view(items@)),
    ensures
        array_view(out@) == nodes_v3_to_v4(array_view(items@)),
{
    let ghost view = array_view(items@);
    let mut out: Vec<JsonValue> = Vec::new();
    let mut i: usize = 0;
    while i < items.len()
        invariant
            i <= items@.len(),
            view == array_view(items@),
            view.len() == items@.len(),
            all_settable(view),
            out@.len() == i,
            forall|j: int| 0 <= j < i ==> (#[trigger] out@[j]).view() == node_v3_to_v4(view[j]),
        decreases items@.len() - i,
    {
        assert(settable(view[i as int]));
        let n = node_to_v4(&items[i]);
        out.push(n);
        i = i + 1;
    }
    proof {
        assert(array_view(out@) =~= nodes_v3_to_v4(view));
    }
    out
}

/// Whether the step can run on the document.
pub fn accepts_now(data: &JsonValue) -> (b: bool)
    ensures
        b == v3_to_v4_accepts(data@),
{
    match data.get("nodes") {
        Some(JsonValue::Array(items)) => all_items_settable(items),
        _ => true,
    }
}

impl Migrator for V3ToV4Migrator {
    open spec fn source(&self) -> u32 {
        3
    }

    open spec fn target(&self) -> u32 {
        4
    }

    open spec fn accepts(&self, d: JsonView) -> bool {
        v3_to_v4_accepts(d)
    }

    open spec fn migrated(&self, d: JsonView) -> JsonView {
        v3_to_v4(d)
    }

    fn from_version(&self) -> (v: u32) {
        3
    }

    fn to_version(&self) -> (v: u32) {
        4
    }

    fn migrate(&self, data: &mut JsonValue) -> (r: Result<(), MigrationError>)
        ensures
            r is Ok,
    {
        let updated = match data.get("nodes") {
            Some(JsonValue::Array(items)) => Some(nodes_to_v4(items)),
            _ => None,
        };
        match updated {
            Some(out) => {
                data.set("nodes", JsonValue::Array(out));
            },
            None => {},
        }
        Ok(())
    }
}

} // verus!
