//! User actions and the keys that produce them.
use vstd::prelude::*;

verus! {

/// All possible user actions.
#[derive(Debug, Clone, Copy, PartialEq, Eq, Structural)]
pub enum Action {
    /// Quit the application (Ctrl+X).
    Quit,
    /// Navigate up in a list (Arrow Up).
    NavigateUp,
    /// Navigate down in a list (Arrow Down).
    NavigateDown,
    /// Select/confirm the current item (Enter).
    Select,
    /// Toggle a specific option by number (1-9).
    ToggleOption(usize),
    /// Input a character (for the question count).
    InputChar(char),
    /// Delete the last character (Backspace).
    Backspace,
    /// Go back to the previous screen (Escape).
    Back,
    /// No action (unknown key or timeout).
    NoAction,
}

/// The key of a key press, as far as the application tells keys apart.
#[derive(Debug, Clone, Copy, PartialEq, Eq, Structural)]
pub enum Key {
    Up,
    Down,
    Enter,
    Esc,
    Backspace,
    Char(char),
    /// Any other key.
    Other,
}

/// A key press: the key, and whether Control was held.
#[derive(Debug, Clone, Copy, PartialEq, Eq, Structural)]
pub struct KeyPress {
    pub key: Key,
    pub ctrl: bool,
}

/// The action that a key press stands for.
pub open spec fn key_action(press: KeyPress) -> Action {
    if press.ctrl && (press.key == Key::Char('x') || press.key == Key::Char('X')) {
        Action::Quit
    } else {
        match press.key {
            Key::Up => Action::NavigateUp,
            Key::Down => Action::NavigateDown,
            Key::Enter => Action::Select,
            Key::Esc => Action::Back,
            Key::Backspace => Action::Backspace,
            Key::Char(c) => if '1' <= c <= '9' {
                Action::ToggleOption((c as u32 - '0' as u32) as usize)
            } else if c == '0' {
                Action::InputChar(c)
            } else {
                Action::NoAction
            },
            Key::Other => Action::NoAction,
        }
    }
}

/// Maps a key press to an action.
pub fn map_key_to_action(press: KeyPress) -> (action: Action)
    ensures
        action == key_action(press),
{
    if press.ctrl {
        match press.key {
            Key::Char(c) => {
                if c == 'x' || c == 'X' {
                    return Action::Quit;
                }
            },
            _ => {},
        }
    }
    match press.key {
        Key::Up => Action::NavigateUp,
        Key::Down => Action::NavigateDown,
        Key::Enter => Action::Select,
        Key::Esc => Action::Back,
        Key::Backspace => Action::Backspace,
        Key::Char(c) => {
            if '1' <= c && c <= '9' {
                Action::ToggleOption((c as u32 - '0' as u32) as usize)
            } else if c == '0' {
                Action::InputChar(c)
            } else {
                Action::NoAction
            }
        },
        Key::Other => Action::NoAction,
    }
}

} // verus!
