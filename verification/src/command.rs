//! The command interpreter: a stateless mapping from one key event and the
//! current mode to an abstract command, or to nothing for an unmapped key.

use crate::editor::Mode;
use vstd::prelude::*;

verus! {

/// A key event from the input source, reduced to what the interpreter reads:
/// a typed character, backspace, escape, or any other key.
#[derive(Clone, Copy, PartialEq, Eq, Structural, Debug)]
pub enum Key {
    /// A character key; the newline character stands for the enter key.
    Char(char),
    /// The backspace key.
    Backspace,
    /// The escape key.
    Esc,
    /// Any key the interpreter never maps.
    Other,
}

/// An abstract, mode-resolved editor action, created per input event and
/// consumed immediately by the controller.
#[derive(Clone, Copy, PartialEq, Eq, Structural, Debug)]
pub enum Command {
    /// End the session.
    Quit,
    /// Shift the cursor by the given column and line deltas.
    Move(isize, isize),
    /// Persist the buffer to its file.
    Save,
    /// Switch between Normal and Insert mode.
    ToggleMode,
    /// Insert this character at the cursor.
    Insert(char),
    /// Split the current line at the cursor.
    InsertNewLine,
    /// Remove the byte before the cursor.
    Delete,
}

/// The full key map: which command, if any, a key yields under a mode.
pub open spec fn spec_parse(key: Key, mode: Mode) -> Option<Command> {
    match mode {
        Mode::Normal => match key {
            Key::Char(c) => if c == 'q' {
                Some(Command::Quit)
            } else if c == 'h' {
                Some(Command::Move(-1isize, 0isize))
            } else if c == 'l' {
                Some(Command::Move(1isize, 0isize))
            } else if c == 'j' {
                Some(Command::Move(0isize, 1isize))
            } else if c == 'k' {
                Some(Command::Move(0isize, -1isize))
            } else if c == 'i' {
                Some(Command::ToggleMode)
            } else if c == 's' {
                Some(Command::Save)
            } else {
                None
            },
            _ => None,
        },
        Mode::Insert => match key {
            Key::Char(c) => if c == '\n' {
                Some(Command::InsertNewLine)
            } else {
                Some(Command::Insert(c))
            },
            Key::Backspace => Some(Command::Delete),
            Key::Esc => Some(Command::ToggleMode),
            Key::Other => None,
        },
    }
}

impl Command {
    /// Interprets one key event under the current mode. An unmapped key
    /// yields nothing: the caller performs no action, and it is no error.
    pub fn parse(key: Key, mode: &Mode) -> (r: Option<Command>)
        ensures
            r == spec_parse(key, *mode),
    {
        match mode {
            Mode::Normal => match key {
                Key::Char(c) => {
                    if c == 'q' {
                        Some(Command::Quit)
                    } else if c == 'h' {
                        Some(Command::Move(-1, 0))
                    } else if c == 'l' {
                        Some(Command::Move(1, 0))
                    } else if c == 'j' {
                        Some(Command::Move(0, 1))
                    } else if c == 'k' {
                        Some(Command::Move(0, -1))
                    } else if c == 'i' {
                        Some(Command::ToggleMode)
                    } else if c == 's' {
                        Some(Command::Save)
                    } else {
                        None
                    }
                },
                _ => None,
            },
            Mode::Insert => match key {
                Key::Char(c) => {
                    if c == '\n' {
                        Some(Command::InsertNewLine)
                    } else {
                        Some(Command::Insert(c))
                    }
                },
                Key::Backspace => Some(Command::Delete),
                Key::Esc => Some(Command::ToggleMode),
                Key::Other => None,
            },
        }
    }
}

} // verus!
