//! Key events as the core sees them, and the beginnings of a
//! keystroke-to-action grammar. The surrounding application translates
//! the terminal's raw events into `Key` values before handing them in.

use vstd::prelude::*;

use crate::mode::Mode;

verus! {

/// One keystroke, already decoded: a printable character, a control
/// chord, or a special key. Anything else is `Other`.
#[derive(PartialEq, Eq, Clone, Copy, Structural, Debug)]
pub enum Key {
    Char(char),
    Ctrl(char),
    Enter,
    Esc,
    Backspace,
    Delete,
    Tab,
    Up,
    Down,
    Left,
    Right,
    PageUp,
    PageDown,
    Home,
    End,
    Other,
}

/// A command a pending-operator grammar could issue.
#[derive(PartialEq, Eq, Clone, Copy, Structural, Debug)]
#[allow(dead_code)]
enum Command {
    Save,
    Quit,
}

/// Where a motion goes.
#[derive(PartialEq, Eq, Clone, Copy, Structural, Debug)]
pub enum Direction {
    Forward,
    Backward,
    Down,
    Up,
}

/// What a motion moves over.
#[derive(PartialEq, Eq, Clone, Copy, Structural, Debug)]
pub enum MovementType {
    Word,
    Line,
    Character,
}

/// How often a motion repeats.
#[derive(PartialEq, Eq, Clone, Copy, Structural, Debug)]
pub enum Count {
    Number(u32),
    Infinity,
}

/// An editing action a keystroke can map to.
#[derive(PartialEq, Eq, Clone, Copy, Structural, Debug)]
pub enum Action {
    Move(MovementType, Direction, Count),
    Delete,
    Yank,
    Change,
}

/// The action a keystroke maps to. Only the arrow-up motion is wired so
/// far; every other key falls back to a zero-step forward motion.
pub open spec fn spec_keypress_action(key: Key) -> Action {
    match key {
        Key::Up => Action::Move(MovementType::Character, Direction::Up, Count::Number(1)),
        _ => Action::Move(MovementType::Character, Direction::Forward, Count::Number(0)),
    }
}

/// Translate one keystroke into an editing action under the given mode.
pub fn convert_keypress_to_action(key: Key, current_mode: &Mode) -> (r: Option<Action>)
    ensures
        r == Some(spec_keypress_action(key)),
{
    let action: Action = match key {
        Key::Up => Action::Move(MovementType::Character, Direction::Up, Count::Number(1)),
        _ => Action::Move(MovementType::Character, Direction::Forward, Count::Number(0)),
    };
    Some(action)
}

} // verus!
