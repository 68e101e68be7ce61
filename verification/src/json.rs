use vstd::prelude::*;

use crate::runtime::protocol::presets::str_eq;
use crate::seqs::{first_index, lemma_first_index, lemma_first_index_at, lemma_first_index_none};

verus! {

/// A JSON number as the project file holds it: a non-negative integer, a
/// negative integer, or a double held as its bit pattern.
#[derive(Clone, Copy, Debug, PartialEq, Eq, Structural)]
pub enum JsonNumber {
    PosInt(u64),
    NegInt(i64),
    Float(u64),
}

/// A JSON document: objects keep their entries in order, and a key is found
/// at its first entry.
#[derive(Debug)]
pub enum JsonValue {
    Null,
    Bool(bool),
    Number(JsonNumber),
    String(String),
    Array(Vec<JsonValue>),
    Object(Vec<(String, JsonValue)>),
}

/// A JSON document as the contracts see it.
pub enum JsonView {
    Null,
    Bool(bool),
    Number(JsonNumber),
    Str(Seq<char>),
    Array(Seq<JsonView>),
    Object(Seq<(Seq<char>, JsonView)>),
}

impl JsonValue {
    pub open spec fn view(&self) -> JsonView
        decreases self,
    {
        match self {
            JsonValue::Null => JsonView::Null,
            JsonValue::Bool(b) => JsonView::Bool(*b),
            JsonValue::Number(n) => JsonView::Number(*n),
            JsonValue::String(s) => JsonView::Str(s@),
            JsonValue::Array(v) => {
                proof {
                    assert(decreases_to!(self => v));
                    assert(decreases_to!(v => v@));
                }
                JsonView::Array(array_view(v@))
            },
            JsonValue::Object(v) => {
                proof {
                    assert(decreases_to!(self => v));
                    assert(decreases_to!(v => v@));
                }
                JsonView::Object(object_view(v@))
            },
        }
    }
}

/// The views of array elements.
pub open spec fn array_view(s: Seq<JsonValue>) -> Seq<JsonView>
    decreases s,
{
    proof {
        assert forall|i: int| 0 <= i < s.len() implies decreases_to!(s => s[i]) by {
            broadcast use vstd::seq::axiom_seq_index_decreases;
        }
    }
    Seq::new(s.len(), |i: int| if 0 <= i < s.len() { s[i].view() } else { JsonView::Null })
}

/// The views of object entries.
pub open spec fn object_view(s: Seq<(String, JsonValue)>) -> Seq<(Seq<char>, JsonView)>
    decreases s,
{
    proof {
        assert forall|i: int| 0 <= i < s.len() implies decreases_to!(s => s[i].1) by {
            broadcast use vstd::seq::axiom_seq_index_decreases;
            assert(decreases_to!(s => s[i]));
            assert(decreases_to!(s[i] => s[i].1));
        }
    }
    Seq::new(s.len(), |i: int| if 0 <= i < s.len() { (s[i].0@, s[i].1.view()) } else { (Seq::empty(), JsonView::Null) })
}

pub open spec fn key_of(k: Seq<char>) -> spec_fn((Seq<char>, JsonView)) -> bool {
    |e: (Seq<char>, JsonView)| e.0 == k
}

/// `value.get(key)`: the value of the key's first entry in an object; nothing
/// for a missing key or a value that is not an object.
pub open spec fn get_key(j: JsonView, k: Seq<char>) -> Option<JsonView> {
    match j {
        JsonView::Object(es) => match first_index(es, key_of(k)) {
            Some(i) => Some(es[i].1),
            None => None,
        },
        _ => None,
    }
}

/// `value[key] = v` can be done: the value is an object, or null (which becomes one).
pub open spec fn settable(j: JsonView) -> bool {
    j is Object || j is Null
}

/// `value[key] = v`: replaces the key's first entry, appends a new entry, or
/// turns null into a one-entry object.
pub open spec fn set_key(j: JsonView, k: Seq<char>, v: JsonView) -> JsonView {
    match j {
        JsonView::Object(es) => match first_index(es, key_of(k)) {
            Some(i) => JsonView::Object(es.update(i, (k, v))),
            None => JsonView::Object(es.push((k, v))),
        },
        JsonView::Null => JsonView::Object(seq![(k, v)]),
        _ => j,
    }
}

/// `value.as_u64()`: only a non-negative integer.
pub open spec fn as_u64_of(j: Option<JsonView>) -> Option<u64> {
    match j {
        Some(JsonView::Number(JsonNumber::PosInt(n))) => Some(n),
        _ => None,
    }
}

/// `value.as_str()`: only a string.
pub open spec fn as_str_of(j: Option<JsonView>) -> Option<Seq<char>> {
    match j {
        Some(JsonView::Str(s)) => Some(s),
        _ => None,
    }
}

/// After setting a key, the key holds the value and every other key is unchanged.
pub proof fn lemma_set_key(j: JsonView, k: Seq<char>, v: JsonView)
    requires
        settable(j),
    ensures
        get_key(set_key(j, k, v), k) == Some(v),
        forall|k2: Seq<char>| k2 != k ==> get_key(set_key(j, k, v), k2) == get_key(j, k2),
        set_key(j, k, v) is Object,
{
    match j {
        JsonView::Object(es) => {
            lemma_first_index(es, key_of(k));
            match first_index(es, key_of(k)) {
                Some(i) => {
                    let es2 = es.update(i, (k, v));
                    lemma_first_index_at(es2, key_of(k), i);
                    assert forall|k2: Seq<char>| k2 != k implies get_key(set_key(j, k, v), k2) == get_key(j, k2) by {
                        lemma_first_index(es, key_of(k2));
                        match first_index(es, key_of(k2)) {
                            Some(m) => {
                                lemma_first_index_at(es2, key_of(k2), m);
                            },
                            None => {
                                lemma_first_index_none(es2, key_of(k2));
                            },
                        }
                    }
                },
                None => {
                    let es2 = es.push((k, v));
                    lemma_first_index_at(es2, key_of(k), es.len() as int);
                    assert forall|k2: Seq<char>| k2 != k implies get_key(set_key(j, k, v), k2) == get_key(j, k2) by {
                        lemma_first_index(es, key_of(k2));
                        match first_index(es, key_of(k2)) {
                            Some(m) => {
                                lemma_first_index_at(es2, key_of(k2), m);
                            },
                            None => {
                                lemma_first_index_none(es2, key_of(k2));
                            },
                        }
                    }
                },
            }
        },
        _ => {
            let es2 = seq![(k, v)];
            lemma_first_index_at(es2, key_of(k), 0);
            assert forall|k2: Seq<char>| k2 != k implies get_key(set_key(j, k, v), k2) == get_key(j, k2) by {
                lemma_first_index_none(es2, key_of(k2));
            }
        },
    }
}

/// Every element can have a key set on it.
pub open spec fn all_settable(items: Seq<JsonView>) -> bool {
    forall|i: int| 0 <= i < items.len() ==> settable(#[trigger] items[i])
}

/// Whether every element of an array can have a key set on it.
pub fn all_items_settable(items: &Vec<JsonValue>) -> (b: bool)
    ensures
        b == all_settable(array_view(items@)),
{
    let ghost view = array_view(items@);
    let mut i: usize = 0;
    while i < items.len()
        invariant
            i <= items@.len(),
            view == array_view(items@),
            view.len() == items@.len(),
            forall|j: int| 0 <= j < i ==> settable(#[trigger] view[j]),
        decreases items@.len() - i,
    {
        if !items[i].is_settable() {
            assert(!settable(view[i as int]));
            return false;
        }
        i = i + 1;
    }
    true
}

fn find_entry(entries: &Vec<(String, JsonValue)>, key: &str) -> (r: Option<usize>)
    ensures
        ({
            let es = object_view(entries@);
            match r {
                Some(i) => i < entries@.len() && first_index(es, key_of(key@)) == Some(i as int),
                None => first_index(es, key_of(key@)) is None,
            }
        }),
{
    let ghost es = object_view(entries@);
    let mut i: usize = 0;
    while i < entries.len()
        invariant
            i <= entries@.len(),
            es == object_view(entries@),
            es.len() == entries@.len(),
            forall|j: int| 0 <= j < es.len() ==> (#[trigger] es[j]).0 == entries@[j].0@,
            forall|j: int| 0 <= j < i ==> !key_of(key@)(#[trigger] es[j]),
        decreases entries@.len() - i,
    {
        if str_eq(entries[i].0.as_str(), key) {
            proof {
                assert(es[i as int].0 == key@);
                assert(key_of(key@)(es[i as int]));
                lemma_first_index_at(es, key_of(key@), i as int);
                assert(first_index(object_view(entries@), key_of(key@)) == Some(i as int));
            }
            return Some(i);
        }
        i = i + 1;
    }
    proof {
        lemma_first_index_none(es, key_of(key@));
    }
    None
}

impl JsonValue {
    /// `value.get(key)`.
    pub fn get(&self, key: &str) -> (r: Option<&JsonValue>)
        ensures
            match r {
                Some(v) => get_key(self@, key@) == Some(v@),
                None => get_key(self@, key@) is None,
            },
    {
        match self {
            JsonValue::Object(entries) => match find_entry(entries, key) {
                Some(i) => Some(&entries[i].1),
                None => None,
            },
            _ => None,
        }
    }

    /// The value is an object or null, so a key can be set on it.
    pub fn is_settable(&self) -> (b: bool)
        ensures
            b == settable(self@),
    {
        match self {
            JsonValue::Object(_) | JsonValue::Null => true,
            _ => false,
        }
    }

    /// `value[key] = v`.
    pub fn set(&mut self, key: &str, value: JsonValue)
        requires
            settable(old(self)@),
        ensures
            final(self)@ == set_key(old(self)@, key@, value@),
    {
        let ghost v = value@;
        match self {
            JsonValue::Object(entries) => {
                let ghost before = entries@;
                let ghost es = object_view(before);
                match find_entry(entries, key) {
                    Some(i) => {
                        entries.set(i, (key.to_owned(), value));
                        proof {
                            let after = entries@;
                            let es2 = object_view(after);
                            assert(es2 =~= es.update(i as int, (key@, v)));
                        }
                    },
                    None => {
                        entries.push((key.to_owned(), value));
                        proof {
                            let after = entries@;
                            let es2 = object_view(after);
                            assert(es2 =~= es.push((key@, v)));
                        }
                    },
                }
            },
            _ => {
                let entries = vec![(key.to_owned(), value)];
                *self = JsonValue::Object(entries);
                proof {
                    let es2 = object_view(entries@);
                    assert(es2 =~= seq![(key@, v)]);
                }
            },
        }
    }

    /// `value.as_u64()`.
    pub fn as_u64(&self) -> (r: Option<u64>)
        ensures
            r == as_u64_of(Some(self@)),
    {
        match self {
            JsonValue::Number(JsonNumber::PosInt(n)) => Some(*n),
            _ => None,
        }
    }

    /// `value.as_str()`.
    pub fn as_str(&self) -> (r: Option<&str>)
        ensures
            match r {
                Some(s) => as_str_of(Some(self@)) == Some(s@),
                None => as_str_of(Some(self@)) is None,
            },
    {
        match self {
            JsonValue::String(s) => Some(s.as_str()),
            _ => None,
        }
    }

    /// A string value.
    pub fn from_str_value(s: &str) -> (v: JsonValue)
        ensures
            v@ == JsonView::Str(s@),
    {
        JsonValue::String(s.to_owned())
    }

    /// An empty array.
    pub fn empty_array() -> (v: JsonValue)
        ensures
            v@ == JsonView::Array(seq![]),
    {
        let v = JsonValue::Array(Vec::new());
        proof {
            assert(array_view(Seq::<JsonValue>::empty()) =~= Seq::<JsonView>::empty());
        }
        v
    }
}

impl Clone for JsonValue {
    fn clone(&self) -> (c: Self)
        ensures
            c@ == self@,
        decreases self,
    {
        match self {
            JsonValue::Null => JsonValue::Null,
            JsonValue::Bool(b) => JsonValue::Bool(*b),
            JsonValue::Number(n) => JsonValue::Number(*n),
            JsonValue::String(s) => JsonValue::String(s.clone()),
            JsonValue::Array(v) => {
                let mut out: Vec<JsonValue> = Vec::new();
                let mut i: usize = 0;
                while i < v.len()
                    invariant
                        *self == JsonValue::Array(*v),
                        i <= v@.len(),
                        out@.len() == i,
                        forall|j: int| 0 <= j < i ==> (#[trigger] out@[j]).view() == v@[j].view(),
                    decreases v@.len() - i,
                {
                    proof {
                        broadcast use vstd::seq::axiom_seq_index_decreases;
                        let j = *self;
                        assert(j->Array_0 == *v);
                        assert(decreases_to!(j => j->Array_0));
                        assert(decreases_to!(j->Array_0 => j->Array_0@));
                        assert(decreases_to!(j => v@[i as int]));
                    }
                    let c = v[i].clone();
                    out.push(c);
                    i = i + 1;
                }
                let r = JsonValue::Array(out);
                proof {
                    assert(r.view() == self.view()) by {
                        assert(array_view(out@) =~= array_view(v@));
                    }
                }
                r
            },
            JsonValue::Object(v) => {
                let mut out: Vec<(String, JsonValue)> = Vec::new();
                let mut i: usize = 0;
                while i < v.len()
                    invariant
                        *self == JsonValue::Object(*v),
                        i <= v@.len(),
                        out@.len() == i,
                        forall|j: int| 0 <= j < i ==> (#[trigger] out@[j]).0@ == v@[j].0@ && out@[j].1.view() == v@[j].1.view(),
                    decreases v@.len() - i,
                {
                    proof {
                        broadcast use vstd::seq::axiom_seq_index_decreases;
                        let j = *self;
                        assert(j->Object_0 == *v);
                        assert(decreases_to!(j => j->Object_0));
                        assert(decreases_to!(j->Object_0 => j->Object_0@));
                        assert(decreases_to!(v@ => v@[i as int]));
                        assert(decreases_to!(v@[i as int] => v@[i as int].1));
                        assert(decreases_to!(j => v@[i as int].1));
                    }
                    let k = v[i].0.clone();
                    let c = v[i].1.clone();
                    out.push((k, c));
                    i = i + 1;
                }
                let r = JsonValue::Object(out);
                proof {
                    assert(r.view() == self.view()) by {
                        assert(object_view(out@) =~= object_view(v@));
                    }
                }
                r
            },
        }
    }
}

} // verus!
