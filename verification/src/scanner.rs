use vstd::prelude::*;

use crate::errors::Error;

verus! {

broadcast use
    vstd::seq_lib::group_to_multiset_ensures,
    vstd::seq_lib::to_multiset_insert,
;

/// The direction of a navigation request relative to the current file.
#[derive(Clone, Copy, Debug, PartialEq, Eq, Structural)]
pub enum Direction {
    Previous,
    Next,
}

// ---------------------------------------------------------------------
// Lexicographic order on byte strings, the total, deterministic order
// that makes "previous"/"next" well-defined.
// ---------------------------------------------------------------------

/// Lexicographic comparison of `a` and `b` from position `i` on:
/// true iff `a` (from `i`) is less than or equal to `b` (from `i`).
pub open spec fn lex_leq_from(a: Seq<u8>, b: Seq<u8>, i: int) -> bool
    decreases a.len() - i,
{
    if i >= a.len() {
        true
    } else if i >= b.len() {
        false
    } else if a[i] < b[i] {
        true
    } else if a[i] > b[i] {
        false
    } else {
        lex_leq_from(a, b, i + 1)
    }
}

/// Lexicographic order on whole byte strings.
pub open spec fn lex_leq(a: Seq<u8>, b: Seq<u8>) -> bool {
    lex_leq_from(a, b, 0)
}

/// The order is total: any two byte strings compare one way or the other.
pub proof fn lemma_lex_leq_total(a: Seq<u8>, b: Seq<u8>, i: int)
    ensures
        lex_leq_from(a, b, i) || lex_leq_from(b, a, i),
    decreases a.len() - i,
{
    if i >= a.len() || i >= b.len() {
    } else if a[i] == b[i] {
        lemma_lex_leq_total(a, b, i + 1);
    }
}

/// The order is transitive.
pub proof fn lemma_lex_leq_trans(a: Seq<u8>, b: Seq<u8>, c: Seq<u8>, i: int)
    requires
        lex_leq_from(a, b, i),
        lex_leq_from(b, c, i),
    ensures
        lex_leq_from(a, c, i),
    decreases a.len() - i,
{
    if i >= a.len() {
    } else {
        if a[i] == b[i] && b[i] == c[i] {
            lemma_lex_leq_trans(a, b, c, i + 1);
        }
    }
}

/// The order is reflexive.
pub proof fn lemma_lex_leq_refl(a: Seq<u8>)
    ensures
        lex_leq(a, a),
{
    lemma_lex_leq_total(a, a, 0);
}

/// A byte string that agrees with another up to a position and is
/// smaller there sorts before it.
pub proof fn lemma_lex_first_diff(a: Seq<u8>, b: Seq<u8>, i: int)
    requires
        0 <= i < a.len(),
        i < b.len(),
        forall|j: int| 0 <= j < i ==> a[j] == b[j],
        a[i] < b[i],
    ensures
        lex_leq(a, b),
{
    lemma_lex_first_diff_from(a, b, 0, i);
}

proof fn lemma_lex_first_diff_from(a: Seq<u8>, b: Seq<u8>, k: int, i: int)
    requires
        0 <= k <= i < a.len(),
        i < b.len(),
        forall|j: int| k <= j < i ==> a[j] == b[j],
        a[i] < b[i],
    ensures
        lex_leq_from(a, b, k),
    decreases i - k,
{
    if k < i {
        lemma_lex_first_diff_from(a, b, k + 1, i);
    }
}

/// Compares two byte strings in lexicographic order.
pub fn lex_le(a: &Vec<u8>, b: &Vec<u8>) -> (r: bool)
    ensures
        r == lex_leq(a@, b@),
{
    let mut i: usize = 0;
    loop
        invariant
            i <= a.len(),
            i <= b.len(),
            lex_leq(a@, b@) == lex_leq_from(a@, b@, i as int),
        decreases a@.len() - i,
    {
        if i >= a.len() {
            return true;
        }
        if i >= b.len() {
            return false;
        }
        if a[i] < b[i] {
            return true;
        }
        if a[i] > b[i] {
            return false;
        }
        i = i + 1;
    }
}

// ---------------------------------------------------------------------
// The recognized text-file extension.
// ---------------------------------------------------------------------

/// Whether a path names a text file: a non-empty stem followed by the
/// ".txt" extension.
pub open spec fn has_txt_extension(p: Seq<u8>) -> bool {
    p.len() >= 5 && p[p.len() - 4] == 46u8 && p[p.len() - 3] == 116u8 && p[p.len() - 2] == 120u8
        && p[p.len() - 1] == 116u8
}

/// Decides `has_txt_extension`.
pub fn is_text_file_name(p: &Vec<u8>) -> (r: bool)
    ensures
        r == has_txt_extension(p@),
{
    let n: usize = p.len();
    n >= 5 && p[n - 4] == 46 && p[n - 3] == 116 && p[n - 2] == 120 && p[n - 1] == 116
}

// ---------------------------------------------------------------------
// Directory listings.
// ---------------------------------------------------------------------

/// The sequence of paths a vector of byte strings stands for.
pub open spec fn names_view(v: Seq<Vec<u8>>) -> Seq<Seq<u8>> {
    Seq::new(v.len(), |i: int| v[i]@)
}

/// A sequence of paths in ascending lexicographic order.
pub open spec fn lex_sorted(s: Seq<Seq<u8>>) -> bool {
    forall|i: int, j: int| 0 <= i < j < s.len() ==> lex_leq(s[i], s[j])
}

/// An ordered snapshot of the text files of a directory: the paths with
/// the recognized extension, in ascending lexicographic order.
pub struct DirectoryListing {
    entries: Vec<Vec<u8>>,
}

impl View for DirectoryListing {
    type V = Seq<Seq<u8>>;

    closed spec fn view(&self) -> Seq<Seq<u8>> {
        names_view(self.entries@)
    }
}

/// A byte string's deep view is its view.
pub broadcast proof fn lemma_bytes_deep_view(v: Vec<u8>)
    ensures
        #[trigger] v.deep_view() == v@,
{
    assert(v.deep_view() =~= v@);
}

/// Copies a byte string.
pub fn clone_bytes(v: &Vec<u8>) -> (r: Vec<u8>)
    ensures
        r@ == v@,
{
    let mut r: Vec<u8> = Vec::new();
    let mut i: usize = 0;
    while i < v.len()
        invariant
            i <= v.len(),
            r@ =~= v@.subrange(0, i as int),
        decreases v.len() - i,
    {
        r.push(v[i]);
        i = i + 1;
    }
    proof {
        assert(r@ =~= v@);
    }
    r
}

/// Decides equality of two byte strings.
pub fn bytes_eq(a: &Vec<u8>, b: &Vec<u8>) -> (r: bool)
    ensures
        r == (a@ == b@),
{
    if a.len() != b.len() {
        return false;
    }
    let mut i: usize = 0;
    while i < a.len()
        invariant
            i <= a.len(),
            a.len() == b.len(),
            forall|j: int| 0 <= j < i ==> a@[j] == b@[j],
        decreases a.len() - i,
    {
        if a[i] != b[i] {
            return false;
        }
        i = i + 1;
    }
    proof {
        assert(a@ =~= b@);
    }
    true
}

/// Inserts a path into a sorted vector, keeping it sorted.
fn insert_sorted(out: &mut Vec<Vec<u8>>, x: Vec<u8>)
    requires
        lex_sorted(names_view(old(out)@)),
    ensures
        lex_sorted(names_view(final(out)@)),
        names_view(final(out)@).to_multiset() == names_view(old(out)@).to_multiset().insert(x@),
{
    let mut j: usize = 0;
    while j < out.len() && lex_le(&out[j], &x)
        invariant
            j <= out.len(),
            forall|k: int| 0 <= k < j ==> lex_leq(names_view(out@)[k], x@),
            out@ == old(out)@,
        decreases out.len() - j,
    {
        j = j + 1;
    }
    proof {
        let s = names_view(out@);
        assert forall|k: int| j <= k < s.len() implies lex_leq(x@, s[k]) by {
            // out[j] is not <= x, so by totality x <= out[j].
            lemma_lex_leq_total(s[j as int], x@, 0);
            if k > j {
                assert(lex_leq(s[j as int], s[k]));
                lemma_lex_leq_trans(x@, s[j as int], s[k], 0);
            }
        }
    }
    let ghost pre = names_view(out@);
    let ghost gj = j as int;
    out.insert(j, x);
    proof {
        assert(names_view(out@) =~= pre.insert(gj, x@));
        assert forall|p: int, q: int|
            0 <= p < q < names_view(out@).len() implies lex_leq(
            names_view(out@)[p],
            names_view(out@)[q],
        ) by {
            let s = names_view(out@);
            if p < gj && q < gj {
            } else if p < gj && q == gj {
            } else if p < gj && q > gj {
            } else if p == gj && q > gj {
            } else if p > gj && q > gj {
            }
        }
    }
}

/// Sorts a vector of paths into ascending lexicographic order, keeping
/// exactly the same paths.
fn sort_names(names: Vec<Vec<u8>>) -> (r: Vec<Vec<u8>>)
    ensures
        lex_sorted(names_view(r@)),
        names_view(r@).to_multiset() == names_view(names@).to_multiset(),
{
    let mut rest = names;
    let mut out: Vec<Vec<u8>> = Vec::new();
    proof {
        assert(names_view(out@) =~= Seq::<Seq<u8>>::empty());
    }
    while rest.len() > 0
        invariant
            lex_sorted(names_view(out@)),
            names_view(out@).to_multiset().add(names_view(rest@).to_multiset())
                == names_view(names@).to_multiset(),
        decreases rest.len(),
    {
        let ghost pre_rest = names_view(rest@);
        let x = rest.pop().unwrap();
        proof {
            assert(pre_rest.drop_last() =~= names_view(rest@));
            assert(pre_rest =~= names_view(rest@).push(x@));
        }
        insert_sorted(&mut out, x);
        proof {
            assert(names_view(out@).to_multiset().add(names_view(rest@).to_multiset())
                =~= names_view(names@).to_multiset());
        }
    }
    proof {
        assert(names_view(rest@) =~= Seq::<Seq<u8>>::empty());
        assert(names_view(out@).to_multiset() =~= names_view(names@).to_multiset());
    }
    out
}

impl DirectoryListing {
    /// Builds the listing for a directory whose (regular-file) entries
    /// are the given paths: keeps exactly those with the recognized
    /// text extension and sorts them ascending.
    pub fn from_names(names: Vec<Vec<u8>>) -> (r: DirectoryListing)
        ensures
            lex_sorted(r@),
            r@.to_multiset() == names_view(names@).filter(
                |p: Seq<u8>| has_txt_extension(p),
            ).to_multiset(),
    {
        let ghost all = names_view(names@);
        let mut rest = names;
        let mut kept: Vec<Vec<u8>> = Vec::new();
        proof {
            assert(names_view(kept@) =~= Seq::<Seq<u8>>::empty());
            assert(all.subrange(0, 0) =~= Seq::<Seq<u8>>::empty());
        }
        let n: usize = rest.len();
        let mut i: usize = 0;
        while i < n
            invariant
                n == rest.len(),
                i <= n,
                all == names_view(rest@),
                names_view(kept@) == all.subrange(0, i as int).filter(
                    |p: Seq<u8>| has_txt_extension(p),
                ),
            decreases n - i,
        {
            let ghost pre_kept = names_view(kept@);
            let keep = is_text_file_name(&rest[i]);
            if keep {
                let x = clone_bytes(&rest[i]);
                kept.push(x);
                proof {
                    assert(names_view(kept@) =~= pre_kept.push(all[i as int]));
                }
            }
            proof {
                let pred = |p: Seq<u8>| has_txt_extension(p);
                assert(all.subrange(0, i + 1).drop_last() =~= all.subrange(0, i as int));
                assert(all.subrange(0, i + 1).last() == all[i as int]);
                reveal(Seq::filter);
                assert(names_view(kept@) =~= all.subrange(0, i + 1).filter(pred));
            }
            i = i + 1;
        }
        proof {
            assert(all.subrange(0, n as int) =~= all);
        }
        let sorted = sort_names(kept);
        DirectoryListing { entries: sorted }
    }

    /// The number of files in the listing.
    pub fn len(&self) -> (n: usize)
        ensures
            n == self@.len(),
    {
        self.entries.len()
    }

    /// The path at a position of the listing.
    pub fn entry(&self, i: usize) -> (r: &Vec<u8>)
        requires
            i < self@.len(),
        ensures
            r@ == self@[i as int],
    {
        &self.entries[i]
    }

    /// The index of the first occurrence of a path in the listing.
    fn position_of(&self, p: &Vec<u8>) -> (r: Option<usize>)
        ensures
            (match r {
                Some(i) => i < self@.len() && self@.index_of_first(p@) == Some(i as int),
                None => self@.index_of_first(p@) is None,
            }),
    {
        let mut i: usize = 0;
        while i < self.entries.len()
            invariant
                i <= self@.len(),
                self@.len() == self.entries.len(),
                forall|j: int| 0 <= j < i ==> self@[j] != p@,
            decreases self@.len() - i,
        {
            if bytes_eq(&self.entries[i], p) {
                proof {
                    assert(self@[i as int] == p@);
                    assert(self@.contains(p@));
                    self@.index_of_first_ensures(p@);
                    let idx = self@.index_of_first(p@)->Some_0;
                    if idx < i as int {
                        assert(self@[idx] != p@);
                        assert(false);
                    }
                    if idx > i as int {
                        assert(self@[i as int] != p@);
                        assert(false);
                    }
                }
                return Some(i);
            }
            i = i + 1;
        }
        proof {
            self@.index_of_first_ensures(p@);
            if self@.contains(p@) {
                let w = choose|w: int| 0 <= w < self@.len() && self@[w] == p@;
                assert(self@[w] != p@);
                assert(false);
            }
        }
        None
    }
}

// ---------------------------------------------------------------------
// The previous/next target relative to a given file, with wraparound.
// ---------------------------------------------------------------------

/// The index adjacent to `i` in a listing of length `n`: wraps around at
/// either end when more than one file exists, and is absent when the
/// sole file would be its own neighbour.
pub open spec fn adjacent_index(n: int, i: int, dir: Direction) -> Option<int> {
    match dir {
        Direction::Previous => if i == 0 {
            if n > 1 {
                Some(n - 1)
            } else {
                None
            }
        } else {
            Some(i - 1)
        },
        Direction::Next => if i == n - 1 {
            if n > 1 {
                Some(0)
            } else {
                None
            }
        } else {
            Some(i + 1)
        },
    }
}

/// The path that navigation from `current` in direction `dir` lands on,
/// if any: the first path of the listing when no current file is open or
/// the current file is not listed, the wraparound neighbour otherwise.
pub open spec fn adjacent_of(l: Seq<Seq<u8>>, current: Option<Seq<u8>>, dir: Direction) -> Option<
    Seq<u8>,
> {
    if l.len() == 0 {
        None
    } else {
        match current {
            None => Some(l[0]),
            Some(c) => match l.index_of_first(c) {
                None => Some(l[0]),
                Some(i) => match adjacent_index(l.len() as int, i, dir) {
                    None => None,
                    Some(j) => Some(l[j]),
                },
            },
        }
    }
}

impl DirectoryListing {
    /// Computes the adjacent file relative to `current` in the requested
    /// direction, exactly as `adjacent_of` describes it; fails with
    /// `Error::NotFound` iff no adjacent file exists (the listing is
    /// empty, or its sole file is the current one).
    pub fn find_adjacent(&self, current: &Option<Vec<u8>>, direction: Direction) -> (r: Result<
        Vec<u8>,
        Error,
    >)
        ensures
            (match r {
                Ok(p) => adjacent_of(self@, current.deep_view(), direction) == Some(p@),
                Err(e) => adjacent_of(self@, current.deep_view(), direction) is None && e
                    == Error::NotFound,
            }),
    {
        let n: usize = self.entries.len();
        if n == 0 {
            return Err(Error::NotFound);
        }
        let pos: Option<usize> = match current {
            Some(c) => {
                proof {
                    assert(c.deep_view() =~= c@);
                    assert(current.deep_view() == Some(c@));
                }
                self.position_of(c)
            },
            None => None,
        };
        let target: usize = match pos {
            None => 0,
            Some(i) => match direction {
                Direction::Previous => {
                    if i == 0 {
                        if n > 1 {
                            n - 1
                        } else {
                            return Err(Error::NotFound);
                        }
                    } else {
                        i - 1
                    }
                },
                Direction::Next => {
                    if i == n - 1 {
                        if n > 1 {
                            0
                        } else {
                            return Err(Error::NotFound);
                        }
                    } else {
                        i + 1
                    }
                },
            },
        };
        Ok(clone_bytes(&self.entries[target]))
    }
}

// ---------------------------------------------------------------------
// Laws of adjacency.
// ---------------------------------------------------------------------

/// Cyclic inverse law: in a listing of distinct paths with more than one
/// file, navigating Previous from any position and then Next from the
/// file landed on returns to the starting file.
pub proof fn lemma_adjacent_previous_then_next(l: Seq<Seq<u8>>, i: int)
    requires
        l.no_duplicates(),
        l.len() > 1,
        0 <= i < l.len(),
    ensures
        adjacent_of(l, Some(l[i]), Direction::Previous) is Some,
        adjacent_of(
            l,
            Some(adjacent_of(l, Some(l[i]), Direction::Previous)->Some_0),
            Direction::Next,
        ) == Some(l[i]),
{
    lemma_index_of_first_in_distinct(l, i);
    let j = adjacent_index(l.len() as int, i, Direction::Previous)->Some_0;
    lemma_index_of_first_in_distinct(l, j);
}

/// Cyclic inverse law, the other way round: Next then Previous returns
/// to the starting file.
pub proof fn lemma_adjacent_next_then_previous(l: Seq<Seq<u8>>, i: int)
    requires
        l.no_duplicates(),
        l.len() > 1,
        0 <= i < l.len(),
    ensures
        adjacent_of(l, Some(l[i]), Direction::Next) is Some,
        adjacent_of(
            l,
            Some(adjacent_of(l, Some(l[i]), Direction::Next)->Some_0),
            Direction::Previous,
        ) == Some(l[i]),
{
    lemma_index_of_first_in_distinct(l, i);
    let j = adjacent_index(l.len() as int, i, Direction::Next)->Some_0;
    lemma_index_of_first_in_distinct(l, j);
}

/// Single-file exclusion: from the sole file of a one-file listing,
/// navigation fails in either direction.
pub proof fn lemma_sole_file_has_no_adjacent(l: Seq<Seq<u8>>, dir: Direction)
    requires
        l.len() == 1,
    ensures
        adjacent_of(l, Some(l[0]), dir) is None,
{
    lemma_index_of_first_in_distinct(l, 0);
}

/// In a listing of distinct paths, the first occurrence of the path at
/// index `i` is `i` itself.
proof fn lemma_index_of_first_in_distinct(l: Seq<Seq<u8>>, i: int)
    requires
        l.no_duplicates() || l.len() == 1,
        0 <= i < l.len(),
    ensures
        l.index_of_first(l[i]) == Some(i),
{
    l.index_of_first_ensures(l[i]);
    assert(l.contains(l[i]));
    let idx = l.index_of_first(l[i])->Some_0;
    if idx < i {
        assert(l[idx] == l[i]);
        assert(false);
    }
}

} // verus!
