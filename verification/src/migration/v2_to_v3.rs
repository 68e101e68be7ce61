use vstd::prelude::*;

use crate::json::{
    all_items_settable, all_settable, array_view, as_str_of, get_key, object_view, set_key, settable, JsonValue,
    JsonView,
};
use crate::migration::registry::{MigrationError, Migrator};
use crate::runtime::node::NodeKind;
use crate::runtime::protocol::presets::{
    default_entries, default_port_decls_for_kind, how_id, str_eq, what_id, HowPreset, PortDeclaration, PortDecls,
    WhatPreset,
};

verus! {

/// Schema 2 → 3: gives each stored node without `port_decls` the default
/// declarations of its kind.
pub struct V2ToV3Migrator;

/// A What preset as stored: `{"preset": id}`, with the id of a custom preset beside it.
pub open spec fn what_json(w: WhatPreset) -> JsonView {
    match w {
        WhatPreset::Custom { id } => JsonView::Object(
            seq![("preset"@, JsonView::Str("custom"@)), ("id"@, JsonView::Str(id@))],
        ),
        _ => JsonView::Object(seq![("preset"@, JsonView::Str(what_id(w)))]),
    }
}

/// A How preset as stored, in the same shape.
pub open spec fn how_json(h: HowPreset) -> JsonView {
    match h {
        HowPreset::Custom { id } => JsonView::Object(
            seq![("preset"@, JsonView::Str("custom"@)), ("id"@, JsonView::Str(id@))],
        ),
        _ => JsonView::Object(seq![("preset"@, JsonView::Str(how_id(h)))]),
    }
}

/// A port declaration as stored: `{"what": .., "how": ..}`.
pub open spec fn decl_json(d: PortDeclaration) -> JsonView {
    JsonView::Object(seq![("what"@, what_json(d.what)), ("how"@, how_json(d.how))])
}

/// The entries of stored port declarations, one per port.
pub open spec fn decl_entries_json(entries: Seq<(Seq<char>, PortDeclaration)>) -> Seq<(Seq<char>, JsonView)> {
    entries.map_values(|e: (Seq<char>, PortDeclaration)| (e.0, decl_json(e.1)))
}

/// Port declarations as stored: an object from port name to declaration.
pub open spec fn decls_json(entries: Seq<(Seq<char>, PortDeclaration)>) -> JsonView {
    JsonView::Object(decl_entries_json(entries))
}

/// The kind a stored node names: `kind.kind` when it is a string, else "constant".
pub open spec fn kind_tag(node: JsonView) -> Seq<char> {
    match get_key(node, "kind"@) {
        Some(k) => match as_str_of(get_key(k, "kind"@)) {
            Some(s) => s,
            None => "constant"@,
        },
        None => "constant"@,
    }
}

/// The default declarations of the kind a tag names: "constant" and
/// "json_constant" name those kinds, any other tag names an echo.
pub open spec fn tag_entries(tag: Seq<char>) -> Seq<(Seq<char>, PortDeclaration)> {
    let text_single = PortDeclaration { what: WhatPreset::Text, how: HowPreset::Single };
    let json_single = PortDeclaration { what: WhatPreset::Json, how: HowPreset::Single };
    if tag == "constant"@ {
        seq![("out"@, text_single)]
    } else if tag == "json_constant"@ {
        seq![("out"@, json_single)]
    } else {
        seq![("in"@, text_single), ("out"@, text_single)]
    }
}

/// A stored node after the step: unchanged when it has `port_decls`,
/// else given the default declarations of its kind.
pub open spec fn node_v2_to_v3(node: JsonView) -> JsonView {
    if get_key(node, "port_decls"@) is Some {
        node
    } else {
        set_key(node, "port_decls"@, decls_json(tag_entries(kind_tag(node))))
    }
}

/// Each stored node after the step.
pub open spec fn nodes_v2_to_v3(items: Seq<JsonView>) -> Seq<JsonView> {
    items.map_values(|n: JsonView| node_v2_to_v3(n))
}

/// Schema 2 → 3 on a document: only a `nodes` array is touched.
pub open spec fn v2_to_v3(d: JsonView) -> JsonView {
    match get_key(d, "nodes"@) {
        Some(JsonView::Array(items)) => set_key(d, "nodes"@, JsonView::Array(nodes_v2_to_v3(items))),
        _ => d,
    }
}

/// The step does not fail: every stored node is an object (or null).
pub open spec fn v2_to_v3_accepts(d: JsonView) -> bool {
    match get_key(d, "nodes"@) {
        Some(JsonView::Array(items)) => all_settable(items),
        _ => true,
    }
}

fn preset_object(preset: &str) -> (v: JsonValue)
    ensures
        v@ == JsonView::Object(seq![("preset"@, JsonView::Str(preset@))]),
{
    let entries = vec![(String::from_str("preset"), JsonValue::from_str_value(preset))];
    proof {
        assert(object_view(entries@) =~= seq![("preset"@, JsonView::Str(preset@))]);
    }
    JsonValue::Object(entries)
}

fn custom_object(id: &str) -> (v: JsonValue)
    ensures
        v@ == JsonView::Object(seq![("preset"@, JsonView::Str("custom"@)), ("id"@, JsonView::Str(id@))]),
{
    let entries = vec![
        (String::from_str("preset"), JsonValue::from_str_value("custom")),
        (String::from_str("id"), JsonValue::from_str_value(id)),
    ];
    proof {
        assert(object_view(entries@) =~= seq![("preset"@, JsonView::Str("custom"@)), ("id"@, JsonView::Str(id@))]);
    }
    JsonValue::Object(entries)
}

/// A What preset in its stored form.
pub fn what_to_json(w: &WhatPreset) -> (v: JsonValue)
    ensures
        v@ == what_json(*w),
{
    match w {
        WhatPreset::Custom { id } => custom_object(id.as_str()),
        _ => preset_object(w.id()),
    }
}

/// A How preset in its stored form.
pub fn how_to_json(h: &HowPreset) -> (v: JsonValue)
    ensures
        v@ == how_json(*h),
{
    match h {
        HowPreset::Custom { id } => custom_object(id.as_str()),
        _ => preset_object(h.id()),
    }
}

/// A port declaration in its stored form.
pub fn decl_to_json(d: &PortDeclaration) -> (v: JsonValue)
    ensures
        v@ == decl_json(*d),
{
    let entries = vec![
        (String::from_str("what"), what_to_json(&d.what)),
        (String::from_str("how"), how_to_json(&d.how)),
    ];
    proof {
        assert(object_view(entries@) =~= seq![("what"@, what_json(d.what)), ("how"@, how_json(d.how))]);
    }
    JsonValue::Object(entries)
}

/// Port declarations in their stored form.
pub fn decls_to_json(decls: &PortDecls) -> (v: JsonValue)
    ensures
        v@ == decls_json(decls@),
{
    let entries = decls.entries();
    let mut out: Vec<(String, JsonValue)> = Vec::new();
    let mut i: usize = 0;
    while i < entries.len()
        invariant
            i <= entries@.len(),
            entries@.len() == decls@.len(),
            forall|j: int| 0 <= j < entries@.len() ==> (#[trigger] entries@[j]).0@ == decls@[j].0 && entries@[j].1 == decls@[j].1,
            out@.len() == i,
            forall|j: int| 0 <= j < i ==> (#[trigger] out@[j]).0@ == decls@[j].0 && out@[j].1@ == decl_json(decls@[j].1),
        decreases entries@.len() - i,
    {
        let name = entries[i].0.clone();
        let value = decl_to_json(&entries[i].1);
        out.push((name, value));
        i = i + 1;
    }
    proof {
        assert(object_view(out@) =~= decl_entries_json(decls@));
    }
    JsonValue::Object(out)
}

fn kind_tag_of(node: &JsonValue) -> (t: &str)
    ensures
        t@ == kind_tag(node@),
{
    match node.get("kind") {
        Some(k) => match k.get("kind") {
            Some(v) => match v.as_str() {
                Some(s) => s,
                None => "constant",
            },
            None => "constant",
        },
        None => "constant",
    }
}

/// The `kind.<field>` string of a stored node, or the fallback.
pub open spec fn kind_field(node: JsonView, field: Seq<char>, fallback: Seq<char>) -> Seq<char> {
    match get_key(node, "kind"@) {
        Some(k) => match as_str_of(get_key(k, field)) {
            Some(s) => s,
            None => fallback,
        },
        None => fallback,
    }
}

fn kind_field_or(node: &JsonValue, field: &str, fallback: &str) -> (s: String)
    ensures
        s@ == kind_field(node@, field@, fallback@),
{
    match node.get("kind") {
        Some(k) => match k.get(field) {
            Some(v) => match v.as_str() {
                Some(s) => s.to_owned(),
                None => fallback.to_owned(),
            },
            None => fallback.to_owned(),
        },
        None => fallback.to_owned(),
    }
}

/// The node kind a stored node names, whose default declarations are those of its tag.
fn stored_kind(node: &JsonValue) -> (k: NodeKind)
    ensures
        default_entries(k) == tag_entries(kind_tag(node@)),
{
    let tag = kind_tag_of(node);
    if str_eq(tag, "constant") {
        NodeKind::Constant { value: kind_field_or(node, "value", "hello") }
    } else if str_eq(tag, "json_constant") {
        NodeKind::JsonConstant { value: kind_field_or(node, "value", "{}") }
    } else {
        NodeKind::Echo { input: kind_field_or(node, "input", "") }
    }
}

/// One stored node after the step.
pub fn node_to_v3(node: &JsonValue) -> (n: JsonValue)
    requires
        settable(node@),
    ensures
        n@ == node_v2_to_v3(node@),
{
    let mut n = node.clone();
    if n.get("port_decls").is_none() {
        let kind = stored_kind(&n);
        let decls = default_port_decls_for_kind(&kind);
        n.set("port_decls", decls_to_json(&decls));
    }
    n
}

fn nodes_to_v3(items: &Vec<JsonValue>) -> (out: Vec<JsonValue>)
    requires
        all_settable(array_view(items@)),
    ensures
        array_view(out@) == nodes_v2_to_v3(array_view(items@)),
{
    let ghost view = array_view(items@);
    let mut out: Vec<JsonValue> = Vec::new();
    let mut i: usize = 0;
    while i < items.len()
        invariant
            i <= items@.len(),
            view == array_view(items@),
            view.len() == items@.len(),
            all_settable(view),
            out@.len() == i,
            forall|j: int| 0 <= j < i ==> (#[trigger] out@[j]).view() == node_v2_to_v3(view[j]),
        decreases items@.len() - i,
    {
        assert(settable(view[i as int]));
        let n = node_to_v3(&items[i]);
        out.push(n);
        i = i + 1;
    }
    proof {
        assert(array_view(out@) =~= nodes_v2_to_v3(view));
    }
    out
}

/// Whether the step can run on the document.
pub fn accepts_now(data: &JsonValue) -> (b: bool)
    ensures
        b == v2_to_v3_accepts(data@),
{
    match data.get("nodes") {
        Some(JsonValue::Array(items)) => all_items_settable(items),
        _ => true,
    }
}

impl Migrator for V2ToV3Migrator {
    open spec fn source(&self) -> u32 {
        2
    }

    open spec fn target(&self) -> u32 {
        3
    }

    open spec fn accepts(&self, d: JsonView) -> bool {
        v2_to_v3_accepts(d)
    }

    open spec fn migrated(&self, d: JsonView) -> JsonView {
        v2_to_v3(d)
    }

    fn from_version(&self) -> (v: u32) {
        2
    }

    fn to_version(&self) -> (v: u32) {
        3
    }

    fn migrate(&self, data: &mut JsonValue) -> (r: Result<(), MigrationError>)
        ensures
            r is Ok,
    {
        let updated = match data.get("nodes") {
            Some(JsonValue::Array(items)) => Some(nodes_to_v3(items)),
            _ => None,
        };
        match updated {
            Some(out) => {
                data.set("nodes", JsonValue::Array(out));
            },
            None => {},
        }
        Ok(())
    }
}

} // verus!
