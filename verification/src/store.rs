use vstd::prelude::*;

use crate::errors::Error;
use crate::errors::IoErrorKind;
use crate::namer::is_timestamp_name;
use crate::namer::new_filename;
use crate::scanner::bytes_eq;
use crate::scanner::clone_bytes;

verus! {

// The persistence operations: create-empty, save-contents and
// load-contents, each acting on a single path. This module gives them
// their exact meaning over a model of the on-disk state — a sequence of
// (path, content) entries with at most one entry per path — and proves
// the laws they obey. The application mirrors these contracts with the
// real, asynchronous filesystem calls.

/// The path a save actually writes to: the given path, or the freshly
/// generated name when no path is given.
pub open spec fn resolved_save_path(path: Option<Seq<u8>>, fresh: Seq<u8>) -> Seq<u8> {
    match path {
        Some(p) => p,
        None => fresh,
    }
}

/// The path a save with the given target uses, synthesized from the
/// clock when the target is absent; the caller learns the name actually
/// used.
pub fn resolve_save_path(path: Option<Vec<u8>>) -> (r: Vec<u8>)
    ensures
        (match path {
            Some(p) => r@ == p@,
            None => is_timestamp_name(r@),
        }),
{
    match path {
        Some(p) => p,
        None => new_filename(),
    }
}

/// The content found at a path: the first entry with that path, if any.
pub open spec fn store_lookup(s: Seq<(Seq<u8>, Seq<char>)>, k: Seq<u8>) -> Option<Seq<char>>
    decreases s.len(),
{
    if s.len() == 0 {
        None
    } else if s[0].0 == k {
        Some(s[0].1)
    } else {
        store_lookup(s.drop_first(), k)
    }
}

/// The on-disk state after writing `t` to path `k`, fully overwriting
/// prior content: the first entry with that path is replaced, or an
/// entry is appended when the path is new.
pub open spec fn store_write(s: Seq<(Seq<u8>, Seq<char>)>, k: Seq<u8>, t: Seq<char>) -> Seq<
    (Seq<u8>, Seq<char>),
>
    decreases s.len(),
{
    if s.len() == 0 {
        seq![(k, t)]
    } else if s[0].0 == k {
        seq![(k, t)] + s.drop_first()
    } else {
        seq![s[0]] + store_write(s.drop_first(), k, t)
    }
}

/// The entries a vector of path/content pairs stands for.
pub open spec fn entries_view(s: Seq<(Vec<u8>, String)>) -> Seq<(Seq<u8>, Seq<char>)> {
    Seq::new(s.len(), |i: int| (s[i].0@, s[i].1@))
}

/// An in-memory model of the on-disk state the persistence operations
/// act on.
pub struct FileStore {
    files: Vec<(Vec<u8>, String)>,
}

impl View for FileStore {
    type V = Seq<(Seq<u8>, Seq<char>)>;

    closed spec fn view(&self) -> Seq<(Seq<u8>, Seq<char>)> {
        entries_view(self.files@)
    }
}

/// Writing at the first entry of a path is updating that entry in place.
proof fn lemma_write_at_first_match(s: Seq<(Seq<u8>, Seq<char>)>, k: Seq<u8>, t: Seq<char>, i: int)
    requires
        0 <= i < s.len(),
        s[i].0 == k,
        forall|j: int| 0 <= j < i ==> s[j].0 != k,
    ensures
        store_write(s, k, t) == s.update(i, (k, t)),
    decreases i,
{
    if i == 0 {
        assert(store_write(s, k, t) =~= s.update(0, (k, t)));
    } else {
        lemma_write_at_first_match(s.drop_first(), k, t, i - 1);
        assert(store_write(s, k, t) =~= s.update(i, (k, t)));
    }
}

/// Writing a path no entry has is appending an entry.
proof fn lemma_write_no_match(s: Seq<(Seq<u8>, Seq<char>)>, k: Seq<u8>, t: Seq<char>)
    requires
        forall|j: int| 0 <= j < s.len() ==> s[j].0 != k,
    ensures
        store_write(s, k, t) == s.push((k, t)),
    decreases s.len(),
{
    if s.len() == 0 {
        assert(store_write(s, k, t) =~= s.push((k, t)));
    } else {
        lemma_write_no_match(s.drop_first(), k, t);
        assert(store_write(s, k, t) =~= s.push((k, t)));
    }
}

/// The first entry of a path is what lookup finds.
proof fn lemma_lookup_at_first_match(s: Seq<(Seq<u8>, Seq<char>)>, k: Seq<u8>, i: int)
    requires
        0 <= i < s.len(),
        s[i].0 == k,
        forall|j: int| 0 <= j < i ==> s[j].0 != k,
    ensures
        store_lookup(s, k) == Some(s[i].1),
    decreases i,
{
    if i == 0 {
    } else {
        lemma_lookup_at_first_match(s.drop_first(), k, i - 1);
    }
}

/// Lookup finds nothing when no entry has the path.
proof fn lemma_lookup_no_match(s: Seq<(Seq<u8>, Seq<char>)>, k: Seq<u8>)
    requires
        forall|j: int| 0 <= j < s.len() ==> s[j].0 != k,
    ensures
        store_lookup(s, k) is None,
    decreases s.len(),
{
    if s.len() > 0 {
        lemma_lookup_no_match(s.drop_first(), k);
    }
}

/// Finds the first entry with the given path.
fn find_key(files: &Vec<(Vec<u8>, String)>, key: &Vec<u8>) -> (r: Option<usize>)
    ensures
        (match r {
            Some(i) => i < files@.len() && entries_view(files@)[i as int].0 == key@ && (forall|
                j: int,
            |
                0 <= j < i ==> entries_view(files@)[j].0 != key@),
            None => forall|j: int| 0 <= j < files@.len() ==> entries_view(files@)[j].0 != key@,
        }),
{
    let mut i: usize = 0;
    while i < files.len()
        invariant
            i <= files@.len(),
            forall|j: int| 0 <= j < i ==> entries_view(files@)[j].0 != key@,
        decreases files@.len() - i,
    {
        if bytes_eq(&files[i].0, key) {
            return Some(i);
        }
        i = i + 1;
    }
    None
}

impl FileStore {
    /// An empty directory: no file at any path.
    pub fn new() -> (s: FileStore)
        ensures
            s@ == Seq::<(Seq<u8>, Seq<char>)>::empty(),
    {
        let s = FileStore { files: Vec::new() };
        proof {
            assert(s@ =~= Seq::<(Seq<u8>, Seq<char>)>::empty());
        }
        s
    }

    /// Writes `text` at `key`, fully overwriting prior content.
    fn write_entry(&mut self, key: Vec<u8>, text: String)
        ensures
            final(self)@ == store_write(old(self)@, key@, text@),
    {
        let ghost pre = self@;
        match find_key(&self.files, &key) {
            Some(i) => {
                self.files.remove(i);
                self.files.insert(i, (key, text));
                proof {
                    assert(self@ =~= pre.update(i as int, (key@, text@)));
                    lemma_write_at_first_match(pre, key@, text@, i as int);
                }
            },
            None => {
                self.files.push((key, text));
                proof {
                    assert(self@ =~= pre.push((key@, text@)));
                    lemma_write_no_match(pre, key@, text@);
                }
            },
        }
    }

    /// Writes zero-length content to `path`, creating or truncating it,
    /// and returns the path written.
    pub fn create_empty(&mut self, path: Vec<u8>) -> (used: Vec<u8>)
        ensures
            used@ == path@,
            final(self)@ == store_write(old(self)@, path@, Seq::<char>::empty()),
    {
        let used = clone_bytes(&path);
        let empty = String::new();
        proof {
            assert(empty@ =~= Seq::<char>::empty());
        }
        self.write_entry(path, empty);
        used
    }

    /// Writes `text` verbatim to the resolved path — the given one, or
    /// `fresh` when absent — fully overwriting prior content, and
    /// returns the path actually used.
    pub fn save(&mut self, path: Option<Vec<u8>>, text: String, fresh: Vec<u8>) -> (used: Vec<u8>)
        ensures
            used@ == resolved_save_path(path.deep_view(), fresh@),
            final(self)@ == store_write(old(self)@, used@, text@),
    {
        let key = match path {
            Some(p) => p,
            None => fresh,
        };
        proof {
            assert(key.deep_view() =~= key@);
        }
        let used = clone_bytes(&key);
        self.write_entry(key, text);
        used
    }

    /// Reads the full content of `path`: exactly the text last written
    /// there, or a classified not-found failure when no file exists at
    /// `path`.
    pub fn load(&self, path: &Vec<u8>) -> (r: Result<String, Error>)
        ensures
            (match store_lookup(self@, path@) {
                Some(t) => r is Ok && r->Ok_0@ == t,
                None => r == Err::<String, Error>(Error::IoError(IoErrorKind::NotFound)),
            }),
    {
        match find_key(&self.files, path) {
            Some(i) => {
                proof {
                    lemma_lookup_at_first_match(self@, path@, i as int);
                }
                Ok(self.files[i].1.clone())
            },
            None => {
                proof {
                    lemma_lookup_no_match(self@, path@);
                }
                Err(Error::IoError(IoErrorKind::NotFound))
            },
        }
    }
}

// ---------------------------------------------------------------------
// Laws of the persistence operations.
// ---------------------------------------------------------------------

/// Idempotence of save: saving the same text to the same path twice in
/// succession leaves exactly the on-disk state of the first save, and
/// both saves use the same path.
pub proof fn lemma_save_idempotent(s: Seq<(Seq<u8>, Seq<char>)>, k: Seq<u8>, t: Seq<char>)
    ensures
        store_write(store_write(s, k, t), k, t) == store_write(s, k, t),
    decreases s.len(),
{
    let w = store_write(s, k, t);
    if s.len() == 0 {
        assert(store_write(w, k, t) =~= w);
    } else if s[0].0 == k {
        assert(store_write(w, k, t) =~= w);
    } else {
        lemma_save_idempotent(s.drop_first(), k, t);
        assert(w.drop_first() =~= store_write(s.drop_first(), k, t));
        assert(store_write(w, k, t) =~= w);
    }
}

/// Round trip: loading a path right after saving text there returns
/// exactly that text, byte for byte, for any text including the empty
/// one.
pub proof fn lemma_save_load_round_trip(s: Seq<(Seq<u8>, Seq<char>)>, k: Seq<u8>, t: Seq<char>)
    ensures
        store_lookup(store_write(s, k, t), k) == Some(t),
    decreases s.len(),
{
    let w = store_write(s, k, t);
    if s.len() == 0 {
    } else if s[0].0 == k {
    } else {
        lemma_save_load_round_trip(s.drop_first(), k, t);
        assert(w.drop_first() =~= store_write(s.drop_first(), k, t));
    }
}

/// A save touches no other path: what lookup finds elsewhere is
/// unchanged.
pub proof fn lemma_save_preserves_others(
    s: Seq<(Seq<u8>, Seq<char>)>,
    k: Seq<u8>,
    t: Seq<char>,
    other: Seq<u8>,
)
    requires
        other != k,
    ensures
        store_lookup(store_write(s, k, t), other) == store_lookup(s, other),
    decreases s.len(),
{
    let w = store_write(s, k, t);
    if s.len() == 0 {
        assert(w.drop_first() =~= Seq::<(Seq<u8>, Seq<char>)>::empty());
        assert(store_lookup(w, other) == store_lookup(w.drop_first(), other));
    } else if s[0].0 == k {
        assert(w.drop_first() =~= s.drop_first());
        assert(store_lookup(w, other) == store_lookup(w.drop_first(), other));
    } else {
        lemma_save_preserves_others(s.drop_first(), k, t, other);
        assert(w.drop_first() =~= store_write(s.drop_first(), k, t));
        assert(w[0] == s[0]);
        assert(store_lookup(w, other) == if s[0].0 == other {
            Some(s[0].1)
        } else {
            store_lookup(w.drop_first(), other)
        });
    }
}

} // verus!
