//! Token kinds and colors for syntax highlighting. The buffer treats
//! highlighting as a pure rendering annotation: these types only label
//! text for the display collaborator and never affect editing.

use vstd::prelude::*;

verus! {

/// The kind of token a span of text was recognised as. `Plain` is
/// unhighlighted text.
#[derive(PartialEq, Eq, Clone, Copy, Structural, Debug)]
pub enum Type {
    Plain,
    Match,
    Number,
    Character,
    String,
    Comment,
    MultilineComment,
    PrimaryKeywords,
    SecondaryKeywords,
}

/// A terminal color, named after the classic 16-color palette.
#[derive(PartialEq, Eq, Clone, Copy, Structural, Debug)]
pub enum Color {
    Reset,
    Black,
    Red,
    Green,
    Yellow,
    Blue,
    Magenta,
    Cyan,
    White,
    BrightBlack,
    BrightRed,
    BrightGreen,
    BrightYellow,
    BrightBlue,
    BrightMagenta,
    BrightCyan,
    BrightWhite,
}

/// The ANSI escape sequence that colors each token kind.
pub open spec fn spec_color_code(t: Type) -> Seq<char> {
    match t {
        Type::Match => "\x1b[7m\x1b[33m"@,
        Type::Number => "\x1b[31m"@,
        Type::String => "\x1b[32m"@,
        Type::Character => "\x1b[33m"@,
        Type::Comment => "\x1b[34m"@,
        Type::MultilineComment => "\x1b[35m"@,
        Type::PrimaryKeywords => "\x1b[36m"@,
        Type::SecondaryKeywords => "\x1b[36m"@,
        Type::Plain => "\x1b[0m"@,
    }
}

impl Type {
    /// The ANSI escape sequence that selects this token kind's color.
    pub fn to_color(self) -> (r: String)
        ensures
            r@ == spec_color_code(self),
    {
        match self {
            Type::Match => "\x1b[7m\x1b[33m".to_owned(),
            Type::Number => "\x1b[31m".to_owned(),
            Type::String => "\x1b[32m".to_owned(),
            Type::Character => "\x1b[33m".to_owned(),
            Type::Comment => "\x1b[34m".to_owned(),
            Type::MultilineComment => "\x1b[35m".to_owned(),
            Type::PrimaryKeywords => "\x1b[36m".to_owned(),
            Type::SecondaryKeywords => "\x1b[36m".to_owned(),
            Type::Plain => "\x1b[0m".to_owned(),
        }
    }
}

} // verus!
