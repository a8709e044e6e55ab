//! The editing modes and transitions between them. Every switch also
//! yields a cursor-shape hint for the terminal; applying the hint is
//! cosmetic and the caller may ignore a failure to do so.

use vstd::prelude::*;

use crate::highlighting::Color;

verus! {

/// The active keystroke interpretation table. Exactly one mode is
/// active at a time; the editor starts in `Normal`.
#[derive(PartialEq, Eq, Clone, Copy, Structural, Debug)]
pub enum PossibleModes {
    Normal,
    Insert,
    Visual,
    Command,
    Search,
    OperatorPending,
}

/// The terminal cursor shape that signals each mode.
#[derive(PartialEq, Eq, Clone, Copy, Structural, Debug)]
pub enum CursorStyle {
    BlinkingBlock,
    BlinkingBar,
    SteadyBlock,
    SteadyUnderScore,
}

/// The current editing mode.
#[derive(PartialEq, Eq, Clone, Copy, Structural, Debug)]
pub struct Mode {
    pub current_mode: PossibleModes,
}

/// The mode actually entered when switching, and the cursor shape that
/// goes with it. Modes that run as prompts (`Command`, `Search`) leave
/// the machine in `Normal`.
pub open spec fn spec_switch(new_mode: PossibleModes) -> (PossibleModes, CursorStyle) {
    match new_mode {
        PossibleModes::Normal => (PossibleModes::Normal, CursorStyle::BlinkingBlock),
        PossibleModes::Insert => (PossibleModes::Insert, CursorStyle::BlinkingBar),
        PossibleModes::Visual => (PossibleModes::Visual, CursorStyle::SteadyBlock),
        PossibleModes::OperatorPending => (
            PossibleModes::OperatorPending,
            CursorStyle::SteadyUnderScore,
        ),
        _ => (PossibleModes::Normal, CursorStyle::BlinkingBlock),
    }
}

impl PossibleModes {
    /// The mode's display name for the status bar.
    pub fn label(&self) -> (r: String)
        ensures
            r@ == spec_mode_label(*self),
    {
        match self {
            PossibleModes::Normal => "Normal".to_owned(),
            PossibleModes::Insert => "Insert".to_owned(),
            PossibleModes::Visual => "Visual".to_owned(),
            PossibleModes::Command => "Command".to_owned(),
            PossibleModes::Search => "Search".to_owned(),
            PossibleModes::OperatorPending => "Operator pending".to_owned(),
        }
    }

    /// The status-bar accent color of each mode.
    pub fn to_color(&self) -> (r: Color)
        ensures
            r == spec_mode_color(*self),
    {
        match self {
            PossibleModes::Normal => Color::Blue,
            PossibleModes::Insert => Color::Red,
            PossibleModes::Visual => Color::Green,
            PossibleModes::Command => Color::Magenta,
            PossibleModes::Search => Color::Yellow,
            PossibleModes::OperatorPending => Color::Cyan,
        }
    }
}

/// Each mode's display name.
pub open spec fn spec_mode_label(m: PossibleModes) -> Seq<char> {
    match m {
        PossibleModes::Normal => "Normal"@,
        PossibleModes::Insert => "Insert"@,
        PossibleModes::Visual => "Visual"@,
        PossibleModes::Command => "Command"@,
        PossibleModes::Search => "Search"@,
        PossibleModes::OperatorPending => "Operator pending"@,
    }
}

/// Each mode's status-bar accent color.
pub open spec fn spec_mode_color(m: PossibleModes) -> Color {
    match m {
        PossibleModes::Normal => Color::Blue,
        PossibleModes::Insert => Color::Red,
        PossibleModes::Visual => Color::Green,
        PossibleModes::Command => Color::Magenta,
        PossibleModes::Search => Color::Yellow,
        PossibleModes::OperatorPending => Color::Cyan,
    }
}

impl Mode {
    /// Enter a new mode and hand back the cursor-shape hint to emit.
    pub fn switch(&mut self, new_mode: PossibleModes) -> (style: CursorStyle)
        ensures
            final(self).current_mode == spec_switch(new_mode).0,
            style == spec_switch(new_mode).1,
    {
        let (mode, style) = match new_mode {
            PossibleModes::Normal => (PossibleModes::Normal, CursorStyle::BlinkingBlock),
            PossibleModes::Insert => (PossibleModes::Insert, CursorStyle::BlinkingBar),
            PossibleModes::Visual => (PossibleModes::Visual, CursorStyle::SteadyBlock),
            PossibleModes::OperatorPending => (
                PossibleModes::OperatorPending,
                CursorStyle::SteadyUnderScore,
            ),
            _ => (PossibleModes::Normal, CursorStyle::BlinkingBlock),
        };
        self.current_mode = mode;
        style
    }
}

impl Default for Mode {
    /// Editing starts in `Normal` mode.
    fn default() -> (m: Self)
        ensures
            m.current_mode == PossibleModes::Normal,
    {
        Mode { current_mode: PossibleModes::Normal }
    }
}

} // verus!
