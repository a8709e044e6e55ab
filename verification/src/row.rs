//! One row of text, owned as a sequence of grapheme clusters.
//!
//! The view of a `Row` is the sequence of its clusters' character
//! sequences; all lengths and positions are cluster counts. Edits splice
//! whole clusters; an inserted character always forms a cluster of its
//! own, so every insertion grows the row by exactly one.

use vstd::prelude::*;

use crate::editor::SearchDirection;
use crate::graphemes::char_to_string;
use crate::graphemes::grapheme_split;
use crate::graphemes::segment_graphemes;
use crate::graphemes::views_of;

verus! {

/// A line of the document: its grapheme clusters, in order.
pub struct Row {
    graphemes: Vec<String>,
}

impl View for Row {
    type V = Seq<Seq<char>>;

    closed spec fn view(&self) -> Seq<Seq<char>> {
        views_of(self.graphemes@)
    }
}

/// The row after inserting character `c` as a new cluster at position
/// `at`; a position at or beyond the end appends.
pub open spec fn spec_row_insert(r: Seq<Seq<char>>, at: int, c: char) -> Seq<Seq<char>> {
    if at >= r.len() {
        r.push(seq![c])
    } else {
        r.insert(at, seq![c])
    }
}

/// The row after deleting the cluster at position `at`; a position at or
/// beyond the end leaves the row unchanged.
pub open spec fn spec_row_delete(r: Seq<Seq<char>>, at: int) -> Seq<Seq<char>> {
    if 0 <= at < r.len() {
        r.remove(at)
    } else {
        r
    }
}

/// The two halves of a row split at position `at`: the clusters before
/// `at`, and the clusters from `at` on. A position beyond the end splits
/// off an empty tail.
pub open spec fn spec_row_split(r: Seq<Seq<char>>, at: int) -> (Seq<Seq<char>>, Seq<Seq<char>>) {
    let cut = if at > r.len() {
        r.len() as int
    } else {
        at
    };
    (r.take(cut), r.skip(cut))
}

/// One row followed by another.
pub open spec fn spec_row_append(r: Seq<Seq<char>>, other: Seq<Seq<char>>) -> Seq<Seq<char>> {
    r + other
}

/// The query `q` matches the row `r` at cluster position `j`: the `q.len()`
/// clusters starting at `j` are exactly `q`.
pub open spec fn row_match_at(r: Seq<Seq<char>>, q: Seq<Seq<char>>, j: int) -> bool {
    0 <= j && j + q.len() <= r.len() && r.subrange(j, j + q.len()) == q
}

/// The first position `>= j` at which `q` matches `r`, scanning forward.
pub open spec fn spec_row_find_fwd(r: Seq<Seq<char>>, q: Seq<Seq<char>>, j: int) -> Option<int>
    decreases r.len() - j,
{
    if j < 0 || q.len() == 0 || j + q.len() > r.len() {
        None
    } else if r.subrange(j, j + q.len()) == q {
        Some(j)
    } else {
        spec_row_find_fwd(r, q, j + 1)
    }
}

/// The last position at which `q` matches `r` wholly before cluster
/// position `end` (the match ends at or before `end`), scanning backward.
pub open spec fn spec_row_find_back(r: Seq<Seq<char>>, q: Seq<Seq<char>>, end: int) -> Option<int>
    decreases end,
{
    if q.len() == 0 || end < q.len() || end > r.len() {
        None
    } else if r.subrange(end - q.len(), end) == q {
        Some(end - q.len())
    } else {
        spec_row_find_back(r, q, end - 1)
    }
}

/// What `Row::find` returns: nothing for an empty query or a start
/// position beyond the row; otherwise the first match at or after `at`
/// (forward), or the last match ending at or before `at` (backward).
pub open spec fn spec_row_find(
    r: Seq<Seq<char>>,
    q: Seq<Seq<char>>,
    at: int,
    direction: SearchDirection,
) -> Option<int> {
    if q.len() == 0 || at > r.len() {
        None
    } else {
        match direction {
            SearchDirection::Forward => spec_row_find_fwd(r, q, at),
            SearchDirection::Backward => spec_row_find_back(r, q, at),
        }
    }
}

impl Row {
    /// A row holding the grapheme clusters of the given text.
    pub fn from(slice: &str) -> (r: Self)
        ensures
            r@ == grapheme_split(slice@),
            r@.flatten() == slice@,
            forall|i: int| 0 <= i < r@.len() ==> #[trigger] r@[i].len() > 0,
    {
        Self { graphemes: segment_graphemes(slice) }
    }

    /// The number of grapheme clusters in the row.
    pub fn len(&self) -> (l: usize)
        ensures
            l == self@.len(),
    {
        self.graphemes.len()
    }

    pub fn is_empty(&self) -> (b: bool)
        ensures
            b == (self@.len() == 0),
    {
        self.graphemes.is_empty()
    }

    /// The row's text: its clusters, concatenated.
    #[verifier::loop_isolation(false)]
    pub fn contents(&self) -> (s: String)
        ensures
            s@ == self@.flatten(),
    {
        let mut s = String::new();
        let mut i: usize = 0;
        proof {
            assert(self@.take(0int).flatten() =~= Seq::<char>::empty());
        }
        while i < self.graphemes.len()
            invariant
                0 <= i <= self.graphemes.len(),
                self@.len() == self.graphemes@.len(),
                s@ == self@.take(i as int).flatten(),
            decreases self.graphemes.len() - i,
        {
            proof {
                broadcast use Seq::lemma_flatten_push;

                assert(self@.take(i + 1) =~= self@.take(i as int).push(self@[i as int]));
                assert(self@[i as int] == self.graphemes@[i as int]@);
            }
            s.append(self.graphemes[i].as_str());
            i += 1;
        }
        proof {
            assert(self@.take(self.graphemes@.len() as int) =~= self@);
        }
        s
    }

    /// The row's text encoded as UTF-8 bytes, as it is stored on disk.
    pub fn as_bytes(&self) -> (b: Vec<u8>)
        ensures
            b@ == vstd::utf8::encode_utf8(self@.flatten()),
    {
        let s = self.contents();
        s.as_str().as_bytes_vec()
    }

    /// The substring covering cluster positions `[start, end)`, clamped
    /// to the row's actual length; used for display only.
    #[verifier::loop_isolation(false)]
    pub fn get_display_graphemes(&self, start: usize, end: usize) -> (s: String)
        ensures
            s@ == spec_window(self@, start as int, end as int).flatten(),
    {
        let n = self.graphemes.len();
        let lo = if start > n {
            n
        } else {
            start
        };
        let hi = if end > n {
            n
        } else if end < lo {
            lo
        } else {
            end
        };
        let mut s = String::new();
        let mut i: usize = lo;
        proof {
            assert(self@.subrange(lo as int, lo as int).flatten() =~= Seq::<char>::empty());
        }
        while i < hi
            invariant
                lo <= i <= hi <= self.graphemes.len(),
                self@.len() == self.graphemes@.len(),
                s@ == self@.subrange(lo as int, i as int).flatten(),
            decreases hi - i,
        {
            proof {
                broadcast use Seq::lemma_flatten_push;

                assert(self@.subrange(lo as int, i + 1) =~= self@.subrange(
                    lo as int,
                    i as int,
                ).push(self@[i as int]));
                assert(self@[i as int] == self.graphemes@[i as int]@);
            }
            s.append(self.graphemes[i].as_str());
            i += 1;
        }
        proof {
            assert(self@.subrange(lo as int, hi as int) =~= spec_window(
                self@,
                start as int,
                end as int,
            ));
        }
        s
    }

    /// Insert character `c` at cluster position `at`; a position at or
    /// beyond the end appends. The length always grows by exactly one.
    pub fn insert(&mut self, at: usize, c: char)
        ensures
            final(self)@ == spec_row_insert(old(self)@, at as int, c),
            final(self)@.len() == old(self)@.len() + 1,
    {
        let g = char_to_string(c);
        if at >= self.graphemes.len() {
            self.graphemes.push(g);
            proof {
                assert(final(self)@ =~= old(self)@.push(seq![c]));
            }
        } else {
            self.graphemes.insert(at, g);
            proof {
                assert(final(self)@ =~= old(self)@.insert(at as int, seq![c]));
            }
        }
    }

    /// Delete the cluster at position `at`; silently a no-op when `at` is
    /// at or beyond the end of the row.
    pub fn delete(&mut self, at: usize)
        ensures
            final(self)@ == spec_row_delete(old(self)@, at as int),
    {
        if at < self.graphemes.len() {
            self.graphemes.remove(at);
            proof {
                assert(final(self)@ =~= old(self)@.remove(at as int));
            }
        }
    }

    /// Concatenate another row's clusters onto this one.
    #[verifier::loop_isolation(false)]
    pub fn append(&mut self, new: &Self)
        ensures
            final(self)@ == spec_row_append(old(self)@, new@),
            final(self)@.len() == old(self)@.len() + new@.len(),
    {
        let mut i: usize = 0;
        proof {
            assert(self.graphemes@ =~= old(self).graphemes@ + new.graphemes@.take(0int));
        }
        while i < new.graphemes.len()
            invariant
                0 <= i <= new.graphemes@.len(),
                self.graphemes@ == old(self).graphemes@ + new.graphemes@.take(i as int),
            decreases new.graphemes.len() - i,
        {
            self.graphemes.push(new.graphemes[i].clone());
            proof {
                assert(self.graphemes@ =~= old(self).graphemes@ + new.graphemes@.take(i + 1));
            }
            i += 1;
        }
        proof {
            assert(new.graphemes@.take(new.graphemes@.len() as int) =~= new.graphemes@);
            assert(self@ =~= old(self)@ + new@);
        }
    }

    /// Truncate this row to the clusters before `at` and return a new row
    /// holding the clusters from `at` on. The total cluster count across
    /// the two halves is conserved.
    pub fn split(&mut self, at: usize) -> (tail: Self)
        ensures
            final(self)@ == spec_row_split(old(self)@, at as int).0,
            tail@ == spec_row_split(old(self)@, at as int).1,
            final(self)@.len() + tail@.len() == old(self)@.len(),
    {
        let cut = if at > self.graphemes.len() {
            self.graphemes.len()
        } else {
            at
        };
        let tail_graphemes = self.graphemes.split_off(cut);
        proof {
            assert(final(self)@ =~= spec_row_split(old(self)@, at as int).0);
            assert(views_of(tail_graphemes@) =~= spec_row_split(old(self)@, at as int).1);
        }
        Self { graphemes: tail_graphemes }
    }

    /// Whether the clusters of `q` appear in this row starting exactly at
    /// cluster position `j`.
    #[verifier::loop_isolation(false)]
    fn match_at(&self, q: &Vec<String>, j: usize) -> (b: bool)
        requires
            j + q@.len() <= self@.len(),
        ensures
            b == (self@.subrange(j as int, j + q@.len()) == views_of(q@)),
    {
        let m = q.len();
        let n = self.graphemes.len();
        let mut k: usize = 0;
        while k < m
            invariant
                0 <= k <= m,
                m == q@.len(),
                j + m <= n,
                n == self.graphemes@.len(),
                self@.len() == self.graphemes@.len(),
                forall|t: int| 0 <= t < k ==> self@[j + t] == views_of(q@)[t],
            decreases m - k,
        {
            if !self.graphemes[j + k].eq(&q[k]) {
                proof {
                    assert(self@[j + k as int] != views_of(q@)[k as int]);
                    assert(self@.subrange(j as int, j + q@.len())[k as int] == self@[j
                        + k as int]);
                }
                return false;
            }
            k += 1;
        }
        proof {
            assert(self@.subrange(j as int, j + q@.len()) =~= views_of(q@));
        }
        true
    }

    /// Search this row for `q`: forward from `at` to the end of the row,
    /// or backward for the last match ending at or before `at`. Exact,
    /// case-sensitive cluster matching; an empty query never matches.
    #[verifier::loop_isolation(false)]
    pub fn find(&self, query: &str, at: usize, direction: SearchDirection) -> (r: Option<usize>)
        ensures
            ({
                let res = spec_row_find(self@, grapheme_split(query@), at as int, direction);
                match r {
                    Some(j) => res == Some(j as int),
                    None => res is None,
                }
            }),
    {
        let q = segment_graphemes(query);
        let ghost qs = grapheme_split(query@);
        let n = self.graphemes.len();
        let m = q.len();
        if at > n || m == 0 {
            return None;
        }
        match direction {
            SearchDirection::Forward => {
                if m > n || at > n - m {
                    return None;
                }
                let mut j = at;
                while j <= n - m
                    invariant
                        at <= j,
                        m <= n,
                        j <= n - m + 1,
                        m == qs.len(),
                        m >= 1,
                        n == self@.len(),
                        n == self.graphemes@.len(),
                        views_of(q@) == qs,
                        spec_row_find_fwd(self@, qs, at as int) == spec_row_find_fwd(
                            self@,
                            qs,
                            j as int,
                        ),
                    decreases n - j,
                {
                    if self.match_at(&q, j) {
                        proof {
                            assert(spec_row_find_fwd(self@, qs, j as int) == Some(j as int));
                        }
                        return Some(j);
                    }
                    j += 1;
                }
                None
            },
            SearchDirection::Backward => {
                if m > at {
                    return None;
                }
                let mut end = at;
                while end >= m
                    invariant
                        end <= at,
                        m == qs.len(),
                        m >= 1,
                        at <= n,
                        n == self@.len(),
                        n == self.graphemes@.len(),
                        views_of(q@) == qs,
                        spec_row_find_back(self@, qs, at as int) == spec_row_find_back(
                            self@,
                            qs,
                            end as int,
                        ),
                    decreases end,
                {
                    let j = end - m;
                    if self.match_at(&q, j) {
                        proof {
                            assert(spec_row_find_back(self@, qs, end as int) == Some(j as int));
                        }
                        return Some(j);
                    }
                    end -= 1;
                }
                None
            },
        }
    }
}

/// The clusters of `r` between positions `start` and `end`, both clamped
/// to the row's bounds.
pub open spec fn spec_window(r: Seq<Seq<char>>, start: int, end: int) -> Seq<Seq<char>> {
    let lo = if start > r.len() {
        r.len() as int
    } else {
        start
    };
    let hi = if end > r.len() {
        r.len() as int
    } else if end < lo {
        lo
    } else {
        end
    };
    r.subrange(lo, hi)
}

impl Default for Row {
    /// An empty row.
    fn default() -> (r: Self)
        ensures
            r@ == Seq::<Seq<char>>::empty(),
    {
        let r = Self { graphemes: Vec::new() };
        proof {
            assert(r@ =~= Seq::<Seq<char>>::empty());
        }
        r
    }
}

/// What the forward search returns is the first match: it matches, lies
/// at or after the start position, and nothing between the two matches.
pub proof fn lemma_row_find_fwd_is_first(r: Seq<Seq<char>>, q: Seq<Seq<char>>, j: int)
    requires
        0 <= j,
        q.len() > 0,
    ensures
        match spec_row_find_fwd(r, q, j) {
            Some(k) => j <= k && row_match_at(r, q, k) && (forall|t: int|
                j <= t < k ==> !row_match_at(r, q, t)),
            None => forall|t: int| j <= t ==> !row_match_at(r, q, t),
        },
    decreases r.len() - j,
{
    if j + q.len() > r.len() {
        assert forall|t: int| j <= t implies !row_match_at(r, q, t) by {
            assert(t + q.len() > r.len());
        }
    } else if r.subrange(j, j + q.len()) == q {
    } else {
        lemma_row_find_fwd_is_first(r, q, j + 1);
        assert(!row_match_at(r, q, j));
    }
}

/// What the backward search returns is the last match ending at or
/// before the bound: it matches, it fits under the bound, and no later
/// position under the bound matches.
pub proof fn lemma_row_find_back_is_last(r: Seq<Seq<char>>, q: Seq<Seq<char>>, end: int)
    requires
        q.len() > 0,
        end <= r.len(),
    ensures
        match spec_row_find_back(r, q, end) {
            Some(k) => row_match_at(r, q, k) && k + q.len() <= end && (forall|t: int|
                k < t && t + q.len() <= end ==> !row_match_at(r, q, t)),
            None => forall|t: int| t + q.len() <= end ==> !row_match_at(r, q, t),
        },
    decreases end,
{
    if end < q.len() {
        assert forall|t: int| t + q.len() <= end implies !row_match_at(r, q, t) by {
            assert(t < 0);
        }
    } else if r.subrange(end - q.len(), end) == q {
        assert forall|t: int| end - q.len() < t && t + q.len() <= end implies !row_match_at(
            r,
            q,
            t,
        ) by {
            assert(t > end - q.len() && t <= end - q.len());
        }
    } else {
        lemma_row_find_back_is_last(r, q, end - 1);
        assert(!row_match_at(r, q, end - q.len()));
    }
}

/// Inserting a cluster and then deleting at the same position restores
/// the original row, and the insertion grows the length by exactly one.
pub proof fn lemma_row_insert_delete_round_trip(r: Seq<Seq<char>>, p: int, c: char)
    requires
        0 <= p <= r.len(),
    ensures
        spec_row_insert(r, p, c).len() == r.len() + 1,
        spec_row_delete(spec_row_insert(r, p, c), p) == r,
{
    assert(spec_row_delete(spec_row_insert(r, p, c), p) =~= r);
}

/// Appending the two halves of a split reconstructs the original row,
/// and the halves' lengths sum back to the original length.
pub proof fn lemma_row_split_append_round_trip(r: Seq<Seq<char>>, p: int)
    requires
        0 <= p,
    ensures
        spec_row_append(spec_row_split(r, p).0, spec_row_split(r, p).1) == r,
        spec_row_split(r, p).0.len() + spec_row_split(r, p).1.len() == r.len(),
{
    assert(spec_row_append(spec_row_split(r, p).0, spec_row_split(r, p).1) =~= r);
}

} // verus!
