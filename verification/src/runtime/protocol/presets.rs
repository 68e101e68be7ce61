use vstd::prelude::*;

use crate::runtime::edge::{PORT_IN, PORT_OUT};
use crate::runtime::node::NodeKind;
use crate::seqs::{first_index, lemma_first_index, lemma_first_index_at, lemma_first_index_none, lemma_first_index_push};

verus! {

pub const PROTOCOL_VERSION: u32 = 1;

/// The two declaration axes of a port.
#[derive(Clone, Copy, Debug, PartialEq, Eq, Structural)]
pub enum Axis {
    What,
    How,
}

impl Axis {
    /// The axis' display text: `What` or `How`.
    pub fn to_string(&self) -> (s: String)
        ensures
            s@ == axis_name(*self),
    {
        match self {
            Axis::What => String::from_str("What"),
            Axis::How => String::from_str("How"),
        }
    }
}

pub open spec fn axis_name(axis: Axis) -> Seq<char> {
    match axis {
        Axis::What => "What"@,
        Axis::How => "How"@,
    }
}

/// What payload flows across a port.
#[derive(Debug, PartialEq, Eq)]
pub enum WhatPreset {
    Any,
    Text,
    Json,
    Bytes,
    Custom { id: String },
}

/// How delivery across a port is shaped.
#[derive(Debug, PartialEq, Eq)]
pub enum HowPreset {
    Single,
    Stream,
    RequestResponse,
    Broadcast,
    Custom { id: String },
}

impl Clone for WhatPreset {
    fn clone(&self) -> (c: Self)
        ensures
            c == *self,
    {
        match self {
            WhatPreset::Any => WhatPreset::Any,
            WhatPreset::Text => WhatPreset::Text,
            WhatPreset::Json => WhatPreset::Json,
            WhatPreset::Bytes => WhatPreset::Bytes,
            WhatPreset::Custom { id } => WhatPreset::Custom { id: id.clone() },
        }
    }
}

impl Clone for HowPreset {
    fn clone(&self) -> (c: Self)
        ensures
            c == *self,
    {
        match self {
            HowPreset::Single => HowPreset::Single,
            HowPreset::Stream => HowPreset::Stream,
            HowPreset::RequestResponse => HowPreset::RequestResponse,
            HowPreset::Broadcast => HowPreset::Broadcast,
            HowPreset::Custom { id } => HowPreset::Custom { id: id.clone() },
        }
    }
}

/// The released id of a What preset.
pub open spec fn what_id(w: WhatPreset) -> Seq<char> {
    match w {
        WhatPreset::Any => "any"@,
        WhatPreset::Text => "text"@,
        WhatPreset::Json => "json"@,
        WhatPreset::Bytes => "bytes"@,
        WhatPreset::Custom { .. } => "custom"@,
    }
}

/// The released id of a How preset.
pub open spec fn how_id(h: HowPreset) -> Seq<char> {
    match h {
        HowPreset::Single => "single"@,
        HowPreset::Stream => "stream"@,
        HowPreset::RequestResponse => "request-response"@,
        HowPreset::Broadcast => "broadcast"@,
        HowPreset::Custom { .. } => "custom"@,
    }
}

impl WhatPreset {
    pub fn id(&self) -> (id: &'static str)
        ensures
            id@ == what_id(*self),
    {
        match self {
            WhatPreset::Any => "any",
            WhatPreset::Text => "text",
            WhatPreset::Json => "json",
            WhatPreset::Bytes => "bytes",
            WhatPreset::Custom { .. } => "custom",
        }
    }

    pub fn is_custom(&self) -> (b: bool)
        ensures
            b == (*self is Custom),
    {
        match self {
            WhatPreset::Custom { .. } => true,
            _ => false,
        }
    }
}

impl HowPreset {
    pub fn id(&self) -> (id: &'static str)
        ensures
            id@ == how_id(*self),
    {
        match self {
            HowPreset::Single => "single",
            HowPreset::Stream => "stream",
            HowPreset::RequestResponse => "request-response",
            HowPreset::Broadcast => "broadcast",
            HowPreset::Custom { .. } => "custom",
        }
    }

    pub fn is_custom(&self) -> (b: bool)
        ensures
            b == (*self is Custom),
    {
        match self {
            HowPreset::Custom { .. } => true,
            _ => false,
        }
    }
}

/// A port's declaration on the What and How axes.
#[derive(Debug, PartialEq, Eq)]
pub struct PortDeclaration {
    pub what: WhatPreset,
    pub how: HowPreset,
}

impl Clone for PortDeclaration {
    fn clone(&self) -> (c: Self)
        ensures
            c == *self,
    {
        PortDeclaration { what: self.what.clone(), how: self.how.clone() }
    }
}

/// The built-in What preset with the given id, if any (`custom` is not one).
pub open spec fn what_from_id(id: Seq<char>) -> Option<WhatPreset> {
    if id == "any"@ {
        Some(WhatPreset::Any)
    } else if id == "text"@ {
        Some(WhatPreset::Text)
    } else if id == "json"@ {
        Some(WhatPreset::Json)
    } else if id == "bytes"@ {
        Some(WhatPreset::Bytes)
    } else {
        None
    }
}

/// The built-in How preset with the given id, if any (`custom` is not one).
pub open spec fn how_from_id(id: Seq<char>) -> Option<HowPreset> {
    if id == "single"@ {
        Some(HowPreset::Single)
    } else if id == "stream"@ {
        Some(HowPreset::Stream)
    } else if id == "request-response"@ {
        Some(HowPreset::RequestResponse)
    } else if id == "broadcast"@ {
        Some(HowPreset::Broadcast)
    } else {
        None
    }
}

/// Text equality of two string slices.
pub fn str_eq(a: &str, b: &str) -> (eq: bool)
    ensures
        eq == (a@ == b@),
{
    a.to_owned() == b.to_owned()
}

impl PortDeclaration {
    pub fn new(what: WhatPreset, how: HowPreset) -> (d: Self)
        ensures
            d.what == what,
            d.how == how,
    {
        Self { what, how }
    }

    /// Parses a declaration from built-in preset ids; the What id is checked first.
    pub fn from_ids(what: &str, how: &str) -> (r: Result<Self, String>)
        ensures
            match r {
                Ok(d) => what_from_id(what@) == Some(d.what) && how_from_id(how@) == Some(d.how),
                Err(m) => if what_from_id(what@) is None {
                    m@ == "unknown What preset: "@ + what@
                } else {
                    how_from_id(how@) is None && m@ == "unknown How preset: "@ + how@
                },
            },
    {
        let what_preset = if str_eq(what, "any") {
            WhatPreset::Any
        } else if str_eq(what, "text") {
            WhatPreset::Text
        } else if str_eq(what, "json") {
            WhatPreset::Json
        } else if str_eq(what, "bytes") {
            WhatPreset::Bytes
        } else {
            return Err(String::from_str("unknown What preset: ").concat(what));
        };
        let how_preset = if str_eq(how, "single") {
            HowPreset::Single
        } else if str_eq(how, "stream") {
            HowPreset::Stream
        } else if str_eq(how, "request-response") {
            HowPreset::RequestResponse
        } else if str_eq(how, "broadcast") {
            HowPreset::Broadcast
        } else {
            return Err(String::from_str("unknown How preset: ").concat(how));
        };
        Ok(Self::new(what_preset, how_preset))
    }

    /// `what·how`, by the presets' ids.
    pub fn label(&self) -> (l: String)
        ensures
            l@ == what_id(self.what) + "·"@ + how_id(self.how),
    {
        String::from_str(self.what.id()).concat("·").concat(self.how.id())
    }
}

/// The port declarations of a node: a map from port name to declaration,
/// held as entries in insertion order; a lookup finds the first entry with
/// the name, and `insert` replaces that entry or appends a new one.
#[derive(Debug, PartialEq)]
pub struct PortDecls {
    entries: Vec<(String, PortDeclaration)>,
}

pub open spec fn key_is(k: Seq<char>) -> spec_fn((Seq<char>, PortDeclaration)) -> bool {
    |e: (Seq<char>, PortDeclaration)| e.0 == k
}

/// The declaration that entries give a port: that of the first entry with its name.
pub open spec fn decl_in(entries: Seq<(Seq<char>, PortDeclaration)>, port: Seq<char>) -> Option<PortDeclaration> {
    match first_index(entries, key_is(port)) {
        Some(i) => Some(entries[i].1),
        None => None,
    }
}

/// Appending an entry keeps every declared port, and declares its port when
/// that port had no declaration.
pub proof fn lemma_decl_in_push(entries: Seq<(Seq<char>, PortDeclaration)>, e: (Seq<char>, PortDeclaration), port: Seq<char>)
    ensures
        decl_in(entries.push(e), port) == if decl_in(entries, port) is Some {
            decl_in(entries, port)
        } else if e.0 == port {
            Some(e.1)
        } else {
            None
        },
{
    lemma_first_index_push(entries, e, key_is(port));
    lemma_first_index(entries, key_is(port));
}

/// Entries as the contracts see them: port names as character sequences.
pub open spec fn entries_view(entries: Seq<(String, PortDeclaration)>) -> Seq<(Seq<char>, PortDeclaration)> {
    entries.map_values(|e: (String, PortDeclaration)| (e.0@, e.1))
}

/// No port name occurs in two entries.
pub open spec fn unique_ports(entries: Seq<(Seq<char>, PortDeclaration)>) -> bool {
    forall|i: int, j: int| 0 <= i < j < entries.len() ==> (#[trigger] entries[i]).0 != (#[trigger] entries[j]).0
}

impl View for PortDecls {
    type V = Seq<(Seq<char>, PortDeclaration)>;

    closed spec fn view(&self) -> Seq<(Seq<char>, PortDeclaration)> {
        entries_view(self.entries@)
    }
}

impl PortDecls {
    /// A port is declared at most once.
    #[verifier::type_invariant]
    spec fn ports_declared_once(self) -> bool {
        unique_ports(entries_view(self.entries@))
    }
}

impl Clone for PortDecls {
    fn clone(&self) -> (c: Self)
        ensures
            c@ == self@,
    {
        proof {
            use_type_invariant(self);
        }
        let mut entries: Vec<(String, PortDeclaration)> = Vec::new();
        let mut i: usize = 0;
        while i < self.entries.len()
            invariant
                i <= self.entries@.len(),
                entries@.len() == i,
                forall|j: int| 0 <= j < i ==> (#[trigger] entries@[j]).0@ == self.entries@[j].0@
                    && entries@[j].1 == self.entries@[j].1,
            decreases self.entries@.len() - i,
        {
            let k = self.entries[i].0.clone();
            let d = self.entries[i].1.clone();
            entries.push((k, d));
            i = i + 1;
        }
        assert(entries_view(entries@) =~= self@);
        let c = PortDecls { entries };
        c
    }
}

impl PortDecls {
    /// The declaration of a port, if the map holds one.
    pub open spec fn decl(&self, port: Seq<char>) -> Option<PortDeclaration> {
        decl_in(self@, port)
    }

    /// True when no port is declared.
    pub open spec fn empty(&self) -> bool {
        self@.len() == 0
    }

    pub fn new() -> (m: Self)
        ensures
            m@ == Seq::<(Seq<char>, PortDeclaration)>::empty(),
            forall|k: Seq<char>| m.decl(k) is None,
    {
        let ghost none: Seq<(String, PortDeclaration)> = Seq::empty();
        assert(entries_view(none) =~= Seq::<(Seq<char>, PortDeclaration)>::empty());
        let m = PortDecls { entries: Vec::new() };
        assert(m@ =~= Seq::<(Seq<char>, PortDeclaration)>::empty());
        assert forall|k: Seq<char>| m.decl(k) is None by {
            lemma_first_index_none(m@, key_is(k));
        }
        m
    }

    pub fn is_empty(&self) -> (b: bool)
        ensures
            b == self.empty(),
            b ==> forall|k: Seq<char>| self.decl(k) is None,
    {
        proof {
            if self@.len() == 0 {
                assert forall|k: Seq<char>| self.decl(k) is None by {
                    lemma_first_index_none(self@, key_is(k));
                }
            }
        }
        self.entries.len() == 0
    }

    /// The entries in insertion order, each port name once.
    pub fn entries(&self) -> (e: &Vec<(String, PortDeclaration)>)
        ensures
            e@.len() == self@.len(),
            forall|i: int| 0 <= i < e@.len() ==> (#[trigger] e@[i]).0@ == self@[i].0 && e@[i].1 == self@[i].1,
            unique_ports(self@),
    {
        proof {
            use_type_invariant(self);
        }
        &self.entries
    }

    fn find(&self, port: &str) -> (r: Option<usize>)
        ensures
            match r {
                Some(i) => first_index(self@, key_is(port@)) == Some(i as int) && i < self@.len(),
                None => first_index(self@, key_is(port@)) is None,
            },
    {
        let mut i: usize = 0;
        while i < self.entries.len()
            invariant
                i <= self.entries@.len(),
                self@.len() == self.entries@.len(),
                forall|j: int| 0 <= j < i ==> !key_is(port@)(#[trigger] self@[j]),
            decreases self.entries@.len() - i,
        {
            if str_eq(self.entries[i].0.as_str(), port) {
                proof {
                    lemma_first_index_at(self@, key_is(port@), i as int);
                }
                return Some(i);
            }
            i = i + 1;
        }
        proof {
            lemma_first_index_none(self@, key_is(port@));
        }
        None
    }

    pub fn get(&self, port: &str) -> (r: Option<&PortDeclaration>)
        ensures
            match r {
                Some(d) => self.decl(port@) == Some(*d),
                None => self.decl(port@) is None,
            },
    {
        match self.find(port) {
            Some(i) => Some(&self.entries[i].1),
            None => None,
        }
    }

    pub fn contains_key(&self, port: &str) -> (b: bool)
        ensures
            b == self.decl(port@) is Some,
    {
        self.find(port).is_some()
    }

    /// Declares `decl` for `port`, replacing an earlier declaration of it.
    pub fn insert(&mut self, port: String, decl: PortDeclaration)
        ensures
            final(self).decl(port@) == Some(decl),
            forall|k: Seq<char>| k != port@ ==> final(self).decl(k) == old(self).decl(k),
            !final(self).empty(),
            old(self).decl(port@) is None ==> final(self)@ == old(self)@.push((port@, decl)),
            old(self).decl(port@) is Some ==> final(self)@.len() == old(self)@.len(),
    {
        let ghost key = port@;
        let ghost before = self@;
        proof {
            use_type_invariant(&*self);
        }
        let found = self.find(port.as_str());
        let mut entries: Vec<(String, PortDeclaration)> = Vec::new();
        std::mem::swap(&mut entries, &mut self.entries);
        assert(entries_view(entries@) == before);
        match found {
            Some(i) => {
                entries.set(i, (port, decl));
                proof {
                    let after = entries_view(entries@);
                    assert(after =~= before.update(i as int, (key, decl)));
                    lemma_first_index(before, key_is(key));
                    assert(unique_ports(after)) by {
                        assert forall|a: int, b: int| 0 <= a < b < after.len() implies (#[trigger] after[a]).0
                            != (#[trigger] after[b]).0 by {
                            assert(before[a].0 != before[b].0);
                        }
                    }
                    lemma_first_index_at(after, key_is(key), i as int);
                    assert forall|k: Seq<char>| k != key implies #[trigger] decl_in(after, k) == decl_in(before, k) by {
                        lemma_first_index(before, key_is(k));
                        match first_index(before, key_is(k)) {
                            Some(j) => {
                                assert(j != i);
                                lemma_first_index_at(after, key_is(k), j);
                            },
                            None => {
                                lemma_first_index_none(after, key_is(k));
                            },
                        }
                    }
                }
            },
            None => {
                entries.push((port, decl));
                proof {
                    let after = entries_view(entries@);
                    assert(after =~= before.push((key, decl)));
                    lemma_first_index(before, key_is(key));
                    assert(unique_ports(after)) by {
                        assert forall|a: int, b: int| 0 <= a < b < after.len() implies (#[trigger] after[a]).0
                            != (#[trigger] after[b]).0 by {
                            if b == before.len() {
                                assert(!key_is(key)(before[a]));
                            } else {
                                assert(before[a].0 != before[b].0);
                            }
                        }
                    }
                    lemma_first_index_at(after, key_is(key), before.len() as int);
                    assert forall|k: Seq<char>| k != key implies #[trigger] decl_in(after, k) == decl_in(before, k) by {
                        lemma_first_index(before, key_is(k));
                        match first_index(before, key_is(k)) {
                            Some(j) => {
                                lemma_first_index_at(after, key_is(k), j);
                            },
                            None => {
                                lemma_first_index_none(after, key_is(k));
                            },
                        }
                    }
                }
            },
        }
        self.entries = entries;
    }

    /// Declares `decl` for `port` unless the port already has a declaration.
    pub fn insert_if_absent(&mut self, port: String, decl: PortDeclaration)
        ensures
            old(self).decl(port@) is Some ==> final(self)@ == old(self)@,
            old(self).decl(port@) is None ==> final(self).decl(port@) == Some(decl),
            forall|k: Seq<char>| k != port@ ==> final(self).decl(k) == old(self).decl(k),
    {
        if !self.contains_key(port.as_str()) {
            self.insert(port, decl);
        }
    }
}

/// The built-in default declarations of a node kind.
pub open spec fn default_decl_for(kind: NodeKind, port: Seq<char>) -> Option<PortDeclaration> {
    match kind {
        NodeKind::Constant { .. } => if port == "out"@ {
            Some(PortDeclaration { what: WhatPreset::Text, how: HowPreset::Single })
        } else {
            None
        },
        NodeKind::JsonConstant { .. } => if port == "out"@ {
            Some(PortDeclaration { what: WhatPreset::Json, how: HowPreset::Single })
        } else {
            None
        },
        NodeKind::Echo { .. } => if port == "out"@ || port == "in"@ {
            Some(PortDeclaration { what: WhatPreset::Text, how: HowPreset::Single })
        } else {
            None
        },
    }
}

/// The entries of a kind's default declarations, in the order they are made.
pub open spec fn default_entries(kind: NodeKind) -> Seq<(Seq<char>, PortDeclaration)> {
    let text_single = PortDeclaration { what: WhatPreset::Text, how: HowPreset::Single };
    let json_single = PortDeclaration { what: WhatPreset::Json, how: HowPreset::Single };
    match kind {
        NodeKind::Constant { .. } => seq![("out"@, text_single)],
        NodeKind::JsonConstant { .. } => seq![("out"@, json_single)],
        NodeKind::Echo { .. } => seq![("in"@, text_single), ("out"@, text_single)],
    }
}

/// Constant: `out` text·single; JsonConstant: `out` json·single;
/// Echo: `in` and `out` text·single.
pub fn default_port_decls_for_kind(kind: &NodeKind) -> (decls: PortDecls)
    ensures
        forall|k: Seq<char>| decls.decl(k) == default_decl_for(*kind, k),
        !decls.empty(),
        decls@ == default_entries(*kind),
{
    let text_single = PortDeclaration::new(WhatPreset::Text, HowPreset::Single);
    let json_single = PortDeclaration::new(WhatPreset::Json, HowPreset::Single);
    let mut decls = PortDecls::new();
    proof {
        reveal_strlit("out");
        reveal_strlit("in");
    }
    match kind {
        NodeKind::Constant { .. } => {
            decls.insert(String::from_str(PORT_OUT), text_single);
            assert(decls@ =~= default_entries(*kind));
        },
        NodeKind::JsonConstant { .. } => {
            decls.insert(String::from_str(PORT_OUT), json_single);
            assert(decls@ =~= default_entries(*kind));
        },
        NodeKind::Echo { .. } => {
            decls.insert(String::from_str(PORT_IN), text_single.clone());
            assert(PORT_IN@ == "in"@ && PORT_OUT@ == "out"@);
            assert("out"@.len() == 3 && "in"@.len() == 2);
            assert(decls.decl("out"@) is None);
            decls.insert(String::from_str(PORT_OUT), text_single);
            assert(decls@ =~= default_entries(*kind));
        },
    }
    decls
}

} // verus!
