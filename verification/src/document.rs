//! The document buffer: an ordered sequence of rows, a file identity,
//! and a dirty flag. Whole-document editing composes row operations and
//! handles the cross-line effects: splitting a row on a newline, joining
//! two rows when deleting at a line's end, and silently ignoring
//! positions outside the document. Loading and saving are phrased over
//! plain text: the caller reads or writes the file, the buffer parses
//! and serialises it.

use vstd::prelude::*;

use crate::editor::SearchDirection;
use crate::filetype::spec_extension;
use crate::filetype::spec_type_label;
use crate::filetype::FileType;
use crate::graphemes::grapheme_split;
use crate::position::Position;
use crate::row::row_match_at;
use crate::row::spec_row_append;
use crate::row::spec_row_delete;
use crate::row::spec_row_find;
use crate::row::spec_row_find_back;
use crate::row::spec_row_find_fwd;
use crate::row::spec_row_insert;
use crate::row::spec_row_split;
use crate::row::Row;

verus! {

/// The mathematical content of a document: each row as its sequence of
/// cluster views, the optional file name, the dirty flag, and the file
/// type label.
pub struct DocView {
    pub rows: Seq<Seq<Seq<char>>>,
    pub file_name: Option<Seq<char>>,
    pub dirty: bool,
    pub file_type: Seq<char>,
}

/// A document being edited.
pub struct Document {
    pub file_name: Option<String>,
    rows: Vec<Row>,
    dirty: bool,
    file_type: FileType,
}

impl View for Document {
    type V = DocView;

    closed spec fn view(&self) -> DocView {
        DocView {
            rows: self.rows@.map_values(|r: Row| r@),
            file_name: match self.file_name {
                Some(s) => Some(s@),
                None => None,
            },
            dirty: self.dirty,
            file_type: self.file_type.spec_name(),
        }
    }
}

/// The document's rows after inserting character `c` at `(x, y)`: a row
/// past the end is untouched, a position one line past the end appends a
/// new one-cluster row, anything else splices into the addressed row.
pub open spec fn spec_doc_insert(rows: Seq<Seq<Seq<char>>>, x: int, y: int, c: char) -> Seq<
    Seq<Seq<char>>,
> {
    if y > rows.len() {
        rows
    } else if y == rows.len() {
        rows.push(seq![seq![c]])
    } else {
        rows.update(y, spec_row_insert(rows[y], x, c))
    }
}

/// The document's rows after a newline at `(x, y)`: past the end nothing
/// happens, one line past the end appends an empty row, otherwise the
/// addressed row is split at `x` and its tail becomes the next row.
pub open spec fn spec_doc_insert_newline(rows: Seq<Seq<Seq<char>>>, x: int, y: int) -> Seq<
    Seq<Seq<char>>,
> {
    if y > rows.len() {
        rows
    } else if y == rows.len() {
        rows.push(Seq::empty())
    } else {
        rows.update(y, spec_row_split(rows[y], x).0).insert(y + 1, spec_row_split(rows[y], x).1)
    }
}

/// The document's rows after a delete at `(x, y)`: nothing past the end;
/// at the exact end of a row that has a successor, the successor is
/// joined onto it; otherwise one cluster of the addressed row goes.
pub open spec fn spec_doc_delete(rows: Seq<Seq<Seq<char>>>, x: int, y: int) -> Seq<Seq<Seq<char>>> {
    if y >= rows.len() {
        rows
    } else if x == rows[y].len() && y + 1 < rows.len() {
        rows.update(y, spec_row_append(rows[y], rows[y + 1])).remove(y + 1)
    } else {
        rows.update(y, spec_row_delete(rows[y], x))
    }
}

/// The nearest match at or after `(x, y)` in document scan order:
/// within row `y` from column `x`, then each later row from column 0.
/// Search never wraps past the end of the document.
pub open spec fn spec_doc_find_fwd(
    rows: Seq<Seq<Seq<char>>>,
    q: Seq<Seq<char>>,
    x: int,
    y: int,
) -> Option<(int, int)>
    decreases rows.len() - y,
{
    if y < 0 || y >= rows.len() {
        None
    } else {
        match spec_row_find(rows[y], q, x, SearchDirection::Forward) {
            Some(j) => Some((j, y)),
            None => spec_doc_find_fwd(rows, q, 0, y + 1),
        }
    }
}

/// The nearest match before `(x, y)` in reverse scan order: within row
/// `y` the match must end at or before column `x`, earlier rows are
/// searched whole, from row `y` back to row 0. Search never wraps.
pub open spec fn spec_doc_find_back(
    rows: Seq<Seq<Seq<char>>>,
    q: Seq<Seq<char>>,
    x: int,
    y: int,
) -> Option<(int, int)>
    decreases y,
{
    if y < 0 || y >= rows.len() {
        None
    } else {
        match spec_row_find(rows[y], q, x, SearchDirection::Backward) {
            Some(j) => Some((j, y)),
            None => if y == 0 {
                None
            } else {
                spec_doc_find_back(rows, q, rows[y - 1].len() as int, y - 1)
            },
        }
    }
}

/// What `Document::find` returns for each direction.
pub open spec fn spec_doc_find(
    rows: Seq<Seq<Seq<char>>>,
    q: Seq<Seq<char>>,
    x: int,
    y: int,
    direction: SearchDirection,
) -> Option<(int, int)> {
    match direction {
        SearchDirection::Forward => spec_doc_find_fwd(rows, q, x, y),
        SearchDirection::Backward => spec_doc_find_back(rows, q, x, y),
    }
}

/// The position of the first `'\n'` in a text, or its length if none.
pub open spec fn first_nl(s: Seq<char>) -> int
    decreases s.len(),
{
    if s.len() == 0 {
        0
    } else if s[0] == '\n' {
        0
    } else {
        1 + first_nl(s.drop_first())
    }
}

pub proof fn lemma_first_nl_bounds(s: Seq<char>)
    ensures
        0 <= first_nl(s) <= s.len(),
        forall|j: int| 0 <= j < first_nl(s) ==> s[j] != '\n',
        first_nl(s) < s.len() ==> s[first_nl(s)] == '\n',
    decreases s.len(),
{
    if s.len() > 0 && s[0] != '\n' {
        lemma_first_nl_bounds(s.drop_first());
        assert forall|j: int| 0 <= j < first_nl(s) implies s[j] != '\n' by {
            if j > 0 {
                assert(s.drop_first()[j - 1] == s[j]);
            }
        }
    }
}

/// A scan that saw no `'\n'` before `k` and one at `k` (or ran off the
/// end) has found exactly `first_nl`.
pub proof fn lemma_first_nl_is(s: Seq<char>, k: int)
    requires
        0 <= k <= s.len(),
        forall|j: int| 0 <= j < k ==> s[j] != '\n',
        k < s.len() ==> s[k] == '\n',
    ensures
        first_nl(s) == k,
    decreases s.len(),
{
    if k > 0 {
        lemma_first_nl_is(s.drop_first(), k - 1);
    }
}

/// The lines of a text: maximal `'\n'`-free runs, each ended by a `'\n'`
/// or by the end of the text; a final `'\n'` opens no further line.
pub open spec fn spec_lines(s: Seq<char>) -> Seq<Seq<char>>
    decreases s.len() via spec_lines_dec
{
    if s.len() == 0 {
        Seq::empty()
    } else {
        let i = first_nl(s);
        if i < s.len() {
            seq![s.take(i)] + spec_lines(s.skip(i + 1))
        } else {
            seq![s]
        }
    }
}

#[via_fn]
proof fn spec_lines_dec(s: Seq<char>) {
    lemma_first_nl_bounds(s);
}

/// The on-disk form of a document: each row's text followed by one
/// newline, in order.
pub open spec fn spec_serialize(rows: Seq<Seq<Seq<char>>>) -> Seq<char>
    decreases rows.len(),
{
    if rows.len() == 0 {
        Seq::empty()
    } else {
        rows[0].flatten() + seq!['\n'] + spec_serialize(rows.drop_first())
    }
}

/// The character lines of a text, each as an owned string.
#[verifier::loop_isolation(false)]
fn split_lines(text: &str) -> (lines: Vec<String>)
    ensures
        lines@.map_values(|l: String| l@) == spec_lines(text@),
{
    let n = text.unicode_len();
    let mut lines: Vec<String> = Vec::new();
    let mut start: usize = 0;
    proof {
        assert(text@.skip(0int) =~= text@);
        assert(lines@.map_values(|l: String| l@) =~= Seq::<Seq<char>>::empty());
    }
    while start < n
        invariant
            0 <= start <= n,
            lines@.map_values(|l: String| l@) + spec_lines(text@.skip(start as int)) == spec_lines(
                text@,
            ),
        decreases n - start,
    {
        let mut i = start;
        while i < n
            invariant
                start <= i <= n,
                forall|j: int| start <= j < i ==> text@[j] != '\n',
            decreases n - i,
        {
            if text.get_char(i) == '\n' {
                break ;
            }
            i += 1;
        }
        proof {
            assert forall|j: int| 0 <= j < i - start implies text@.skip(start as int)[j]
                != '\n' by {
                assert(text@.skip(start as int)[j] == text@[start + j]);
            }
            lemma_first_nl_is(text@.skip(start as int), i - start);
        }
        let line = text.substring_char(start, i);
        lines.push(String::from_str(line));
        proof {
            let prev = lines@.drop_last().map_values(|l: String| l@);
            let rest = text@.skip(start as int);
            assert(lines@.map_values(|l: String| l@) =~= prev.push(line@));
            assert(rest.take(i - start) =~= text@.subrange(start as int, i as int));
            if i < n {
                assert(rest.skip(i - start + 1) =~= text@.skip(i + 1));
                assert(spec_lines(rest) =~= seq![line@] + spec_lines(text@.skip(i + 1)));
                assert(prev.push(line@) + spec_lines(text@.skip(i + 1)) =~= prev + spec_lines(
                    rest,
                ));
            } else {
                assert(rest.take(i - start) =~= rest);
                assert(spec_lines(rest) =~= seq![line@]);
                assert(text@.skip(n as int) =~= Seq::<char>::empty());
                assert(prev.push(line@) + spec_lines(text@.skip(n as int)) =~= prev + spec_lines(
                    rest,
                ));
            }
        }
        if i < n {
            start = i + 1;
        } else {
            start = n;
        }
    }
    proof {
        assert(text@.skip(n as int) =~= Seq::<char>::empty());
        assert(lines@.map_values(|l: String| l@) + spec_lines(text@.skip(n as int)) =~= lines@
            .map_values(|l: String| l@));
        if n == 0 {
            assert(lines@.map_values(|l: String| l@) =~= spec_lines(text@));
        }
    }
    lines
}

impl Document {
    /// An empty document that remembers the path it was meant to hold,
    /// so that a later save creates the file fresh. This is the recovery
    /// path when a file cannot be read: the editor stays usable.
    pub fn open_non_existent(file_name: &str) -> (d: Self)
        ensures
            d@.rows.len() == 0,
            d@.dirty == false,
            d@.file_name == Some(file_name@),
            d@.file_type == spec_type_label(spec_extension(file_name@)),
    {
        let d = Self {
            file_name: Some(file_name.to_owned()),
            rows: Vec::new(),
            dirty: false,
            file_type: FileType::from(file_name),
        };
        proof {
            assert(d@.rows =~= Seq::<Seq<Seq<char>>>::empty());
        }
        d
    }

    /// The document parsed from a file's whole text: one row per line,
    /// clean, remembering the file name. The caller reads the file; this
    /// does the splitting.
    #[verifier::loop_isolation(false)]
    pub fn from_text(file_name: &str, text: &str) -> (d: Self)
        ensures
            d@.rows.len() == spec_lines(text@).len(),
            forall|i: int|
                0 <= i < d@.rows.len() ==> d@.rows[i] == grapheme_split(
                    #[trigger] spec_lines(text@)[i],
                ),
            forall|i: int|
                0 <= i < d@.rows.len() ==> (#[trigger] d@.rows[i]).flatten() == spec_lines(
                    text@,
                )[i],
            d@.dirty == false,
            d@.file_name == Some(file_name@),
            d@.file_type == spec_type_label(spec_extension(file_name@)),
    {
        let lines = split_lines(text);
        let mut rows: Vec<Row> = Vec::new();
        let mut i: usize = 0;
        while i < lines.len()
            invariant
                0 <= i <= lines@.len(),
                rows@.len() == i,
                forall|k: int|
                    0 <= k < i ==> (#[trigger] rows@[k])@ == grapheme_split(lines@[k]@),
                forall|k: int| 0 <= k < i ==> (#[trigger] rows@[k])@.flatten() == lines@[k]@,
            decreases lines.len() - i,
        {
            rows.push(Row::from(lines[i].as_str()));
            i += 1;
        }
        let d = Self {
            file_name: Some(file_name.to_owned()),
            rows,
            dirty: false,
            file_type: FileType::from(file_name),
        };
        proof {
            assert(lines@.map_values(|l: String| l@).len() == lines@.len());
            assert forall|k: int| 0 <= k < d@.rows.len() implies d@.rows[k] == grapheme_split(
                #[trigger] spec_lines(text@)[k],
            ) && (d@.rows[k]).flatten() == spec_lines(text@)[k] by {
                assert(spec_lines(text@)[k] == lines@[k]@);
            }
        }
        d
    }

    /// The whole text of the document as it is written to disk: each
    /// row's clusters, then a newline, in document order.
    #[verifier::loop_isolation(false)]
    pub fn to_text(&self) -> (s: String)
        ensures
            s@ == spec_serialize(self@.rows),
    {
        let mut s = String::new();
        let mut i: usize = 0;
        proof {
            assert(self@.rows.skip(0int) =~= self@.rows);
        }
        while i < self.rows.len()
            invariant
                0 <= i <= self.rows@.len(),
                s@ + spec_serialize(self@.rows.skip(i as int)) == spec_serialize(self@.rows),
            decreases self.rows.len() - i,
        {
            let line = self.rows[i].contents();
            s.append(line.as_str());
            s.append("\n");
            proof {
                reveal_strlit("\n");
                let tail = self@.rows.skip(i as int);
                assert("\n"@ =~= seq!['\n']);
                assert(tail[0] == self@.rows[i as int]);
                assert(tail.drop_first() =~= self@.rows.skip(i + 1));
                assert(s@ =~= (s@ + Seq::<char>::empty()));
                assert(spec_serialize(tail) == tail[0].flatten() + seq!['\n'] + spec_serialize(
                    tail.drop_first(),
                ));
            }
            i += 1;
        }
        proof {
            assert(self@.rows.skip(self.rows@.len() as int) =~= Seq::<Seq<Seq<char>>>::empty());
            assert(s@ + spec_serialize(self@.rows.skip(self.rows@.len() as int)) =~= s@);
        }
        s
    }

    /// Record a successful save: the buffer is clean again and the file
    /// type is rederived from the file name. The caller performs the
    /// write and calls this only when it succeeded; on failure the
    /// buffer is left untouched and stays dirty.
    pub fn mark_saved(&mut self)
        ensures
            final(self)@.rows == old(self)@.rows,
            final(self)@.file_name == old(self)@.file_name,
            final(self)@.dirty == false,
            final(self)@.file_type == match old(self)@.file_name {
                Some(n) => spec_type_label(spec_extension(n)),
                None => old(self)@.file_type,
            },
    {
        let name = match &self.file_name {
            Some(n) => Some(n.clone()),
            None => None,
        };
        match name {
            Some(n) => {
                self.file_type = FileType::from(n.as_str());
            },
            None => {},
        }
        self.dirty = false;
    }

    /// The row at the given index, if the document has one there.
    pub fn row(&self, index: usize) -> (r: Option<&Row>)
        ensures
            match r {
                Some(row) => index < self@.rows.len() && row@ == self@.rows[index as int],
                None => index >= self@.rows.len(),
            },
    {
        if index < self.rows.len() {
            Some(&self.rows[index])
        } else {
            None
        }
    }

    /// The file type label, for display.
    pub fn file_type(&self) -> (r: String)
        ensures
            r@ == self@.file_type,
    {
        self.file_type.name()
    }

    pub fn is_empty(&self) -> (b: bool)
        ensures
            b == (self@.rows.len() == 0),
    {
        self.rows.is_empty()
    }

    /// Whether the document has unsaved changes.
    pub fn is_dirty(&self) -> (b: bool)
        ensures
            b == self@.dirty,
    {
        self.dirty
    }

    /// The number of rows.
    pub fn len(&self) -> (l: usize)
        ensures
            l == self@.rows.len(),
    {
        self.rows.len()
    }

    /// Insert character `c` at `at`, marking the document dirty unless
    /// the row lies past the end (then nothing happens at all).
    pub fn insert(&mut self, at: &Position, c: char)
        ensures
            final(self)@.rows == spec_doc_insert(old(self)@.rows, at.x as int, at.y as int, c),
            final(self)@.dirty == (old(self)@.dirty || at.y <= old(self)@.rows.len()),
            final(self)@.file_name == old(self)@.file_name,
            final(self)@.file_type == old(self)@.file_type,
    {
        if at.y > self.rows.len() {
            return ;
        }
        self.dirty = true;
        if at.y == self.rows.len() {
            let mut new_row = Row::default();
            new_row.insert(0, c);
            self.rows.push(new_row);
            proof {
                assert(new_row@ =~= seq![seq![c]]);
                assert(final(self)@.rows =~= old(self)@.rows.push(seq![seq![c]]));
            }
        } else {
            let row = &mut self.rows[at.y];
            row.insert(at.x, c);
            proof {
                assert(final(self)@.rows =~= old(self)@.rows.update(
                    at.y as int,
                    spec_row_insert(old(self)@.rows[at.y as int], at.x as int, c),
                ));
            }
        }
    }

    /// Break the line at `at`: the addressed row keeps the clusters
    /// before the column, the tail becomes a new row right after it.
    /// The cursor is not moved; that is the mode engine's concern.
    pub fn insert_newline(&mut self, at: &Position)
        ensures
            final(self)@.rows == spec_doc_insert_newline(old(self)@.rows, at.x as int, at.y as int),
            final(self)@.dirty == old(self)@.dirty,
            final(self)@.file_name == old(self)@.file_name,
            final(self)@.file_type == old(self)@.file_type,
    {
        if at.y > self.rows.len() {
            return ;
        }
        if at.y == self.rows.len() {
            self.rows.push(Row::default());
            proof {
                assert(final(self)@.rows =~= old(self)@.rows.push(Seq::empty()));
            }
            return ;
        }
        let row = &mut self.rows[at.y];
        let new_row = row.split(at.x);
        self.rows.insert(at.y + 1, new_row);
        proof {
            assert(final(self)@.rows =~= old(self)@.rows.update(
                at.y as int,
                spec_row_split(old(self)@.rows[at.y as int], at.x as int).0,
            ).insert(at.y + 1, spec_row_split(old(self)@.rows[at.y as int], at.x as int).1));
        }
    }

    /// Delete at `at`: at the end of a row that has a successor the two
    /// rows join; otherwise one cluster goes. Positions past the last
    /// row are silently ignored.
    pub fn delete(&mut self, at: &Position)
        ensures
            final(self)@.rows == spec_doc_delete(old(self)@.rows, at.x as int, at.y as int),
            final(self)@.dirty == (old(self)@.dirty || at.y < old(self)@.rows.len()),
            final(self)@.file_name == old(self)@.file_name,
            final(self)@.file_type == old(self)@.file_type,
    {
        let len = self.rows.len();
        if at.y >= len {
            return ;
        }
        self.dirty = true;
        if at.x == self.rows[at.y].len() && at.y + 1 < len {
            let next_row = self.rows.remove(at.y + 1);
            let row = &mut self.rows[at.y];
            row.append(&next_row);
            proof {
                assert(final(self)@.rows =~= old(self)@.rows.update(
                    at.y as int,
                    spec_row_append(old(self)@.rows[at.y as int], old(self)@.rows[at.y + 1]),
                ).remove(at.y + 1));
            }
        } else {
            let row = &mut self.rows[at.y];
            row.delete(at.x);
            proof {
                assert(final(self)@.rows =~= old(self)@.rows.update(
                    at.y as int,
                    spec_row_delete(old(self)@.rows[at.y as int], at.x as int),
                ));
            }
        }
    }

    /// Document-wide search from `at` in the given direction, returning
    /// the nearest match's position in scan order, without wrapping.
    #[verifier::loop_isolation(false)]
    pub fn find(&self, query: &str, at: &Position, direction: SearchDirection) -> (r: Option<
        Position,
    >)
        ensures
            ({
                let res = spec_doc_find(
                    self@.rows,
                    grapheme_split(query@),
                    at.x as int,
                    at.y as int,
                    direction,
                );
                match r {
                    Some(p) => res == Some((p.x as int, p.y as int)),
                    None => res is None,
                }
            }),
    {
        let ghost qs = grapheme_split(query@);
        if at.y > self.rows.len() {
            return None;
        }
        let mut x = at.x;
        let mut y = at.y;
        match direction {
            SearchDirection::Forward => {
                while y < self.rows.len()
                    invariant
                        at.y <= y,
                        spec_doc_find_fwd(self@.rows, qs, at.x as int, at.y as int)
                            == spec_doc_find_fwd(self@.rows, qs, x as int, y as int),
                    decreases self.rows.len() - y,
                {
                    match self.rows[y].find(query, x, direction) {
                        Some(j) => {
                            return Some(Position::new(j, y));
                        },
                        None => {
                            y += 1;
                            x = 0;
                        },
                    }
                }
                None
            },
            SearchDirection::Backward => {
                if y == self.rows.len() {
                    return None;
                }
                loop
                    invariant
                        0 <= y < self.rows@.len(),
                        spec_doc_find_back(self@.rows, qs, at.x as int, at.y as int)
                            == spec_doc_find_back(self@.rows, qs, x as int, y as int),
                    decreases y,
                {
                    match self.rows[y].find(query, x, direction) {
                        Some(j) => {
                            return Some(Position::new(j, y));
                        },
                        None => {
                            if y == 0 {
                                return None;
                            }
                            y -= 1;
                            x = self.rows[y].len();
                        },
                    }
                }
            },
        }
    }

    /// Recompute rendering annotations for a search word. Highlighting
    /// is a rendering concern handled by the display collaborator; the
    /// buffer itself carries no annotation state, so this changes
    /// nothing.
    pub fn highlight(&mut self, word: Option<&str>)
        ensures
            *final(self) == *old(self),
    {
    }
}

impl Default for Document {
    /// An empty, unnamed, clean document.
    fn default() -> (d: Self)
        ensures
            d@.rows.len() == 0,
            d@.dirty == false,
            d@.file_name is None,
            d@.file_type == "Unknown or no file type"@,
    {
        let d = Self {
            file_name: None,
            rows: Vec::new(),
            dirty: false,
            file_type: FileType::default(),
        };
        proof {
            assert(d@.rows =~= Seq::<Seq<Seq<char>>>::empty());
        }
        d
    }
}

/// Deleting at the end of a row that has a successor joins the two: the
/// row count drops by one and the joined row's length is the sum of the
/// two originals' lengths.
pub proof fn lemma_delete_joins_rows(rows: Seq<Seq<Seq<char>>>, x: int, y: int)
    requires
        0 <= y,
        y + 1 < rows.len(),
        x == rows[y].len(),
    ensures
        spec_doc_delete(rows, x, y).len() == rows.len() - 1,
        spec_doc_delete(rows, x, y)[y].len() == rows[y].len() + rows[y + 1].len(),
{
}

/// Breaking a line at its end and deleting at that same boundary is the
/// identity on the document's rows: split and join are inverses.
pub proof fn lemma_newline_then_delete_identity(rows: Seq<Seq<Seq<char>>>, x: int, y: int)
    requires
        0 <= y < rows.len(),
        x == rows[y].len(),
    ensures
        spec_doc_delete(spec_doc_insert_newline(rows, x, y), x, y) == rows,
{
    let mid = spec_doc_insert_newline(rows, x, y);
    assert(spec_row_split(rows[y], x).0 =~= rows[y]);
    assert(spec_row_split(rows[y], x).1 =~= Seq::<Seq<char>>::empty());
    assert(mid[y] == rows[y]);
    assert(mid[y + 1].len() == 0);
    assert(spec_row_append(mid[y], mid[y + 1]) =~= rows[y]);
    assert(spec_doc_delete(mid, x, y) =~= rows);
}

/// A position lies in the forward scan range from `(fx, fy)`: at or
/// after the starting position, in document order.
pub open spec fn in_fwd_range(fx: int, fy: int, tx: int, ty: int) -> bool {
    ty > fy || (ty == fy && tx >= fx)
}

/// The forward search returns the first match in scan order: a match in
/// range, with no match in range at any earlier position.
pub proof fn lemma_doc_find_fwd_is_first(rows: Seq<Seq<Seq<char>>>, q: Seq<Seq<char>>, x: int, y: int)
    requires
        q.len() > 0,
        0 <= x,
        0 <= y,
    ensures
        match spec_doc_find_fwd(rows, q, x, y) {
            Some(p) => y <= p.1 < rows.len() && row_match_at(rows[p.1], q, p.0) && in_fwd_range(
                x,
                y,
                p.0,
                p.1,
            ) && (forall|tx: int, ty: int|
                in_fwd_range(x, y, tx, ty) && 0 <= ty < rows.len() && (ty < p.1 || (ty == p.1 && tx
                    < p.0)) ==> !row_match_at(rows[ty], q, tx)),
            None => forall|tx: int, ty: int|
                in_fwd_range(x, y, tx, ty) && 0 <= ty < rows.len() ==> !row_match_at(
                    rows[ty],
                    q,
                    tx,
                ),
        },
    decreases rows.len() - y,
{
    if y >= rows.len() {
    } else if x > rows[y].len() {
        lemma_doc_find_fwd_is_first(rows, q, 0, y + 1);
        assert forall|tx: int| tx >= x implies !row_match_at(rows[y], q, tx) by {
            assert(tx + q.len() > rows[y].len());
        }
        match spec_doc_find_fwd(rows, q, 0, y + 1) {
            Some(p) => {
                assert forall|tx: int, ty: int|
                    in_fwd_range(x, y, tx, ty) && 0 <= ty < rows.len() && (ty < p.1 || (ty == p.1
                        && tx < p.0)) implies !row_match_at(rows[ty], q, tx) by {
                    if ty == y {
                        assert(tx >= x);
                    } else if tx >= 0 {
                        assert(in_fwd_range(0, y + 1, tx, ty));
                    }
                }
            },
            None => {
                assert forall|tx: int, ty: int|
                    in_fwd_range(x, y, tx, ty) && 0 <= ty < rows.len() implies !row_match_at(
                    rows[ty],
                    q,
                    tx,
                ) by {
                    if ty == y {
                        assert(tx >= x);
                    } else if tx >= 0 {
                        assert(in_fwd_range(0, y + 1, tx, ty));
                    }
                }
            },
        }
    } else {
        crate::row::lemma_row_find_fwd_is_first(rows[y], q, x);
        match spec_row_find_fwd(rows[y], q, x) {
            Some(j) => {
                assert(spec_doc_find_fwd(rows, q, x, y) == Some((j, y)));
            },
            None => {
                lemma_doc_find_fwd_is_first(rows, q, 0, y + 1);
                match spec_doc_find_fwd(rows, q, 0, y + 1) {
                    Some(p) => {
                        assert forall|tx: int, ty: int|
                            in_fwd_range(x, y, tx, ty) && 0 <= ty < rows.len() && (ty < p.1 || (ty
                                == p.1 && tx < p.0)) implies !row_match_at(rows[ty], q, tx) by {
                            if ty == y {
                                assert(tx >= x);
                            } else if tx >= 0 {
                                assert(in_fwd_range(0, y + 1, tx, ty));
                            }
                        }
                    },
                    None => {
                        assert forall|tx: int, ty: int|
                            in_fwd_range(x, y, tx, ty) && 0 <= ty
                                < rows.len() implies !row_match_at(rows[ty], q, tx) by {
                            if ty == y {
                                assert(tx >= x);
                            } else if tx >= 0 {
                                assert(in_fwd_range(0, y + 1, tx, ty));
                            }
                        }
                    },
                }
            },
        }
    }
}

/// How far into row `ty` the backward scan from `(fx, fy)` may look: up
/// to column `fx` on the starting row (not at all if `fx` lies beyond
/// that row), the whole row earlier.
pub open spec fn back_scan_bound(rows: Seq<Seq<Seq<char>>>, fx: int, fy: int, ty: int) -> int {
    if ty == fy {
        if fx <= rows[ty].len() {
            fx
        } else {
            -1
        }
    } else {
        rows[ty].len() as int
    }
}

/// A match position lies in the backward scan range from `(fx, fy)`: in
/// a row at or before the starting row, ending within that row's bound.
pub open spec fn in_back_range(
    rows: Seq<Seq<Seq<char>>>,
    q_len: int,
    fx: int,
    fy: int,
    tx: int,
    ty: int,
) -> bool {
    0 <= ty <= fy && ty < rows.len() && tx + q_len <= back_scan_bound(rows, fx, fy, ty)
}

/// The backward search returns the last match in scan order: a match in
/// range, with no match in range at any position nearer the cursor.
pub proof fn lemma_doc_find_back_is_last(
    rows: Seq<Seq<Seq<char>>>,
    q: Seq<Seq<char>>,
    x: int,
    y: int,
)
    requires
        q.len() > 0,
        0 <= x,
        0 <= y < rows.len(),
    ensures
        match spec_doc_find_back(rows, q, x, y) {
            Some(p) => row_match_at(rows[p.1], q, p.0) && in_back_range(
                rows,
                q.len() as int,
                x,
                y,
                p.0,
                p.1,
            ) && (forall|tx: int, ty: int|
                in_back_range(rows, q.len() as int, x, y, tx, ty) && (ty > p.1 || (ty == p.1 && tx
                    > p.0)) ==> !row_match_at(rows[ty], q, tx)),
            None => forall|tx: int, ty: int|
                in_back_range(rows, q.len() as int, x, y, tx, ty) ==> !row_match_at(
                    rows[ty],
                    q,
                    tx,
                ),
        },
    decreases y,
{
    let m = q.len() as int;
    if x > rows[y].len() {
        // The starting row is skipped entirely when the column lies
        // beyond it; its scan bound is negative, so it holds no range.
        assert(spec_row_find(rows[y], q, x, SearchDirection::Backward) is None);
        if y == 0 {
        } else {
            lemma_doc_find_back_is_last(rows, q, rows[y - 1].len() as int, y - 1);
            match spec_doc_find_back(rows, q, rows[y - 1].len() as int, y - 1) {
                Some(p) => {
                    assert forall|tx: int, ty: int|
                        in_back_range(rows, m, x, y, tx, ty) && (ty > p.1 || (ty == p.1 && tx
                            > p.0)) implies !row_match_at(rows[ty], q, tx) by {
                        if ty == y {
                            assert(tx + m <= back_scan_bound(rows, x, y, ty));
                            assert(back_scan_bound(rows, x, y, ty) == -1);
                        } else {
                            assert(in_back_range(
                                rows,
                                m,
                                rows[y - 1].len() as int,
                                y - 1,
                                tx,
                                ty,
                            ));
                        }
                    }
                },
                None => {
                    assert forall|tx: int, ty: int|
                        in_back_range(rows, m, x, y, tx, ty) implies !row_match_at(
                        rows[ty],
                        q,
                        tx,
                    ) by {
                        if ty == y {
                            assert(back_scan_bound(rows, x, y, ty) == -1);
                        } else {
                            assert(in_back_range(
                                rows,
                                m,
                                rows[y - 1].len() as int,
                                y - 1,
                                tx,
                                ty,
                            ));
                        }
                    }
                },
            }
        }
    } else {
        crate::row::lemma_row_find_back_is_last(rows[y], q, x);
        match spec_row_find_back(rows[y], q, x) {
            Some(j) => {
                assert(spec_doc_find_back(rows, q, x, y) == Some((j, y)));
                assert forall|tx: int, ty: int|
                    in_back_range(rows, m, x, y, tx, ty) && (ty > y || (ty == y && tx
                        > j)) implies !row_match_at(rows[ty], q, tx) by {
                    assert(ty == y);
                    assert(tx + m <= x);
                }
            },
            None => {
                if y == 0 {
                    assert forall|tx: int, ty: int|
                        in_back_range(rows, m, x, y, tx, ty) implies !row_match_at(
                        rows[ty],
                        q,
                        tx,
                    ) by {
                        assert(ty == 0);
                        assert(tx + m <= x);
                    }
                } else {
                    lemma_doc_find_back_is_last(rows, q, rows[y - 1].len() as int, y - 1);
                    match spec_doc_find_back(rows, q, rows[y - 1].len() as int, y - 1) {
                        Some(p) => {
                            assert forall|tx: int, ty: int|
                                in_back_range(rows, m, x, y, tx, ty) && (ty > p.1 || (ty == p.1
                                    && tx > p.0)) implies !row_match_at(rows[ty], q, tx) by {
                                if ty == y {
                                    assert(tx + m <= x);
                                } else {
                                    assert(in_back_range(
                                        rows,
                                        m,
                                        rows[y - 1].len() as int,
                                        y - 1,
                                        tx,
                                        ty,
                                    ));
                                }
                            }
                        },
                        None => {
                            assert forall|tx: int, ty: int|
                                in_back_range(rows, m, x, y, tx, ty) implies !row_match_at(
                                rows[ty],
                                q,
                                tx,
                            ) by {
                                if ty == y {
                                    assert(tx + m <= x);
                                } else {
                                    assert(in_back_range(
                                        rows,
                                        m,
                                        rows[y - 1].len() as int,
                                        y - 1,
                                        tx,
                                        ty,
                                    ));
                                }
                            }
                        },
                    }
                }
            },
        }
    }
}

/// Parsing the serialised form of a document recovers exactly its rows'
/// texts, provided no row contains a raw newline (the serialiser writes
/// the only newlines).
pub proof fn lemma_lines_of_serialized(rows: Seq<Seq<Seq<char>>>)
    requires
        forall|i: int| 0 <= i < rows.len() ==> !(#[trigger] rows[i].flatten()).contains('\n'),
    ensures
        spec_lines(spec_serialize(rows)) == rows.map_values(|r: Seq<Seq<char>>| r.flatten()),
    decreases rows.len(),
{
    if rows.len() == 0 {
        assert(spec_lines(spec_serialize(rows)) =~= rows.map_values(
            |r: Seq<Seq<char>>| r.flatten(),
        ));
    } else {
        let head = rows[0].flatten();
        let s = spec_serialize(rows);
        let rest = rows.drop_first();
        assert(!(rows[0].flatten()).contains('\n'));
        assert forall|j: int| 0 <= j < head.len() implies s[j] != '\n' by {
            assert(s[j] == head[j]);
            if head[j] == '\n' {
                assert(head.contains('\n'));
            }
        }
        assert(s[head.len() as int] == '\n');
        lemma_first_nl_is(s, head.len() as int);
        assert(s.take(head.len() as int) =~= head);
        assert(s.skip(head.len() as int + 1) =~= spec_serialize(rest));
        assert forall|i: int| 0 <= i < rest.len() implies !(#[trigger] rest[i].flatten()).contains(
            '\n',
        ) by {
            assert(rest[i] == rows[i + 1]);
        }
        lemma_lines_of_serialized(rest);
        assert(spec_lines(s) =~= rows.map_values(|r: Seq<Seq<char>>| r.flatten()));
    }
}

} // verus!
