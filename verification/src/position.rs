//! A logical position inside a document: a column and a row, both
//! measured in grapheme clusters and line indices, never bytes.

use vstd::prelude::*;

verus! {

/// A `(column, row)` address in the document. `x` counts grapheme
/// clusters from the start of the line; `y` counts lines from the top.
#[derive(Clone, Copy, PartialEq, Eq, Structural, Debug)]
pub struct Position {
    pub x: usize,
    pub y: usize,
}

impl Position {
    pub fn new(x: usize, y: usize) -> (p: Self)
        ensures
            p.x == x,
            p.y == y,
    {
        Self { x, y }
    }
}

impl Default for Position {
    /// The document origin: column 0 of line 0.
    fn default() -> (p: Self)
        ensures
            p.x == 0,
            p.y == 0,
    {
        Self::new(0, 0)
    }
}

} // verus!
