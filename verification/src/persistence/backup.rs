use vstd::prelude::*;

use crate::runtime::protocol::presets::str_eq;

verus! {

/// Why taking or restoring a backup failed; the I/O variant carries the text
/// of the underlying error, and `NotFound` the path that was missing.
#[derive(Debug)]
pub enum BackupError {
    Io(String),
    NotFound(String),
}

pub enum BackupErrorView {
    Io(Seq<char>),
    NotFound(Seq<char>),
}

impl View for BackupError {
    type V = BackupErrorView;

    open spec fn view(&self) -> BackupErrorView {
        match self {
            BackupError::Io(m) => BackupErrorView::Io(m@),
            BackupError::NotFound(p) => BackupErrorView::NotFound(p@),
        }
    }
}

/// The message of a backup error, as the error displays it.
pub open spec fn backup_message(e: BackupErrorView) -> Seq<char> {
    match e {
        BackupErrorView::Io(m) => "io error: "@ + m,
        BackupErrorView::NotFound(p) => "project file does not exist: "@ + p,
    }
}

impl BackupError {
    /// The error's message.
    pub fn message(&self) -> (m: String)
        ensures
            m@ == backup_message(self@),
    {
        match self {
            BackupError::Io(m) => String::from_str("io error: ").concat(m.as_str()),
            BackupError::NotFound(p) => String::from_str("project file does not exist: ").concat(p.as_str()),
        }
    }
}

/// The name of the backup taken at a timestamp: `pre-update-{timestamp}.json`.
pub fn backup_file_name(timestamp: &str) -> (name: String)
    ensures
        name@ == "pre-update-"@ + timestamp@ + ".json"@,
{
    String::from_str("pre-update-").concat(timestamp).concat(".json")
}

/// `a` sorts before `b`: at the first character where they differ, by code
/// point, or as a proper prefix of `b`. This is the order of file names as
/// paths compare them.
pub open spec fn text_before(a: Seq<char>, b: Seq<char>) -> bool
    decreases a.len(),
{
    if b.len() == 0 {
        false
    } else if a.len() == 0 {
        true
    } else if a[0] != b[0] {
        (a[0] as int) < (b[0] as int)
    } else {
        text_before(a.drop_first(), b.drop_first())
    }
}

/// No name sorts before itself.
pub proof fn lemma_text_before_irreflexive(a: Seq<char>)
    ensures
        !text_before(a, a),
    decreases a.len(),
{
    if a.len() > 0 {
        lemma_text_before_irreflexive(a.drop_first());
    }
}

/// The order is transitive.
pub proof fn lemma_text_before_transitive(a: Seq<char>, b: Seq<char>, c: Seq<char>)
    requires
        text_before(a, b),
        text_before(b, c),
    ensures
        text_before(a, c),
    decreases a.len(),
{
    if a.len() > 0 && b.len() > 0 && c.len() > 0 && a[0] == b[0] && b[0] == c[0] {
        lemma_text_before_transitive(a.drop_first(), b.drop_first(), c.drop_first());
    }
}

/// Of two different names, one sorts before the other.
pub proof fn lemma_text_before_total(a: Seq<char>, b: Seq<char>)
    requires
        a != b,
    ensures
        text_before(a, b) || text_before(b, a),
    decreases a.len(),
{
    if a.len() > 0 && b.len() > 0 && a[0] == b[0] {
        if a.drop_first() == b.drop_first() {
            assert(a =~= seq![a[0]] + a.drop_first());
            assert(b =~= seq![b[0]] + b.drop_first());
        }
        lemma_text_before_total(a.drop_first(), b.drop_first());
    }
    if a.len() == 0 && b.len() == 0 {
        assert(a =~= b);
    }
    if a.len() > 0 && b.len() > 0 && a[0] != b[0] {
        assert((a[0] as int) != (b[0] as int));
    }
}

/// Whether `a` sorts before `b`.
pub fn sorts_before(a: &str, b: &str) -> (r: bool)
    ensures
        r == text_before(a@, b@),
{
    let la = a.unicode_len();
    let lb = b.unicode_len();
    let mut i: usize = 0;
    proof {
        assert(a@.skip(0) =~= a@);
        assert(b@.skip(0) =~= b@);
    }
    while i < la && i < lb
        invariant
            la == a@.len(),
            lb == b@.len(),
            i <= la,
            i <= lb,
            text_before(a@, b@) == text_before(a@.skip(i as int), b@.skip(i as int)),
        decreases la - i,
    {
        let ca = a.get_char(i);
        let cb = b.get_char(i);
        proof {
            assert(a@.skip(i as int)[0] == ca);
            assert(b@.skip(i as int)[0] == cb);
            assert(a@.skip(i as int).drop_first() =~= a@.skip(i + 1));
            assert(b@.skip(i as int).drop_first() =~= b@.skip(i + 1));
        }
        if ca != cb {
            return (ca as u32) < (cb as u32);
        }
        i = i + 1;
    }
    i < lb
}

/// A backup file name: its extension (what follows the last dot, when the
/// name does not start with its only dot) is `json`.
pub open spec fn json_name(name: Seq<char>) -> bool {
    name.len() > 5 && name.subrange(name.len() - 5, name.len() as int) == ".json"@
}

/// Whether the file name has the extension `json`.
pub fn is_json_name(name: &str) -> (b: bool)
    ensures
        b == json_name(name@),
{
    let len = name.unicode_len();
    if len <= 5 {
        return false;
    }
    str_eq(name.substring_char(len - 5, len), ".json")
}

/// The most recent backup among the names in a backups directory: the
/// `json` name that sorts last, or none when there is no `json` name.
pub fn latest_backup(names: &Vec<String>) -> (r: Option<usize>)
    ensures
        match r {
            None => forall|j: int| 0 <= j < names@.len() ==> !json_name(#[trigger] names@[j]@),
            Some(i) => {
                &&& i < names@.len()
                &&& json_name(names@[i as int]@)
                &&& forall|j: int| 0 <= j < names@.len() && json_name(#[trigger] names@[j]@)
                    ==> !text_before(names@[i as int]@, names@[j]@)
            },
        },
{
    let mut best: Option<usize> = None;
    let mut i: usize = 0;
    while i < names.len()
        invariant
            i <= names@.len(),
            match best {
                None => forall|j: int| 0 <= j < i ==> !json_name(#[trigger] names@[j]@),
                Some(b) => {
                    &&& b < i
                    &&& json_name(names@[b as int]@)
                    &&& forall|j: int| 0 <= j < i && json_name(#[trigger] names@[j]@)
                        ==> !text_before(names@[b as int]@, names@[j]@)
                },
            },
        decreases names@.len() - i,
    {
        if is_json_name(names[i].as_str()) {
            match best {
                None => {
                    proof {
                        lemma_text_before_irreflexive(names@[i as int]@);
                    }
                    best = Some(i);
                },
                Some(b) => {
                    if sorts_before(names[b].as_str(), names[i].as_str()) {
                        proof {
                            let ni = names@[i as int]@;
                            let nb = names@[b as int]@;
                            lemma_text_before_irreflexive(ni);
                            assert forall|j: int| 0 <= j < i + 1 && json_name(#[trigger] names@[j]@) implies !text_before(
                                ni,
                                names@[j]@,
                            ) by {
                                let nj = names@[j]@;
                                if j < i && text_before(ni, nj) {
                                    if nj == nb {
                                        lemma_text_before_transitive(nb, ni, nb);
                                        lemma_text_before_irreflexive(nb);
                                    } else {
                                        lemma_text_before_total(nj, nb);
                                        if text_before(nj, nb) {
                                            lemma_text_before_transitive(ni, nj, nb);
                                            lemma_text_before_transitive(nb, ni, nb);
                                            lemma_text_before_irreflexive(nb);
                                        }
                                    }
                                }
                            }
                        }
                        best = Some(i);
                    }
                },
            }
        }
        i = i + 1;
    }
    best
}

} // verus!
