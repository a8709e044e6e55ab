//! Segmentation of text into user-perceived characters.
//!
//! Every length, column and search offset in this library is measured in
//! extended grapheme clusters, not bytes or code points. The
//! segmentation itself comes from the `unicode_segmentation` crate; the
//! library holds each cluster as an owned `String` and reasons about the
//! sequence of cluster views.

use unicode_segmentation::UnicodeSegmentation;
use vstd::prelude::*;

verus! {

/// The extended grapheme clusters of a text, in order, each cluster
/// given as its sequence of code points. The exact cluster boundaries
/// are fixed by Unicode's segmentation rules (UAX #29) and are not
/// restated here; `segment_graphemes` supplies the facts that callers
/// rely on.
pub uninterp spec fn grapheme_split(s: Seq<char>) -> Seq<Seq<char>>;

/// The character views of a sequence of owned strings.
pub open spec fn views_of(gs: Seq<String>) -> Seq<Seq<char>> {
    gs.map_values(|g: String| g@)
}

/// Relies on unicode_segmentation's `UnicodeSegmentation::graphemes`
/// (extended clusters): the iterator yields the grapheme clusters of the
/// string in order; the clusters are non-empty substrings whose
/// concatenation is exactly the original string; and the segmentation
/// depends on the characters alone.
#[verifier::external_body]
pub fn segment_graphemes(s: &str) -> (r: Vec<String>)
    ensures
        views_of(r@) == grapheme_split(s@),
        views_of(r@).flatten() == s@,
        forall|i: int| 0 <= i < r@.len() ==> #[trigger] views_of(r@)[i].len() > 0,
{
    s.graphemes(true).map(|g| g.to_string()).collect()
}

/// Relies on std's `String::from` for `char`: the returned string holds
/// exactly the one given character.
#[verifier::external_body]
pub fn char_to_string(c: char) -> (s: String)
    ensures
        s@ == seq![c],
{
    String::from(c)
}

} // verus!
