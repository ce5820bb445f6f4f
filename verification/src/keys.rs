//! Key presses, as the navigator reads them.

use vstd::prelude::*;

verus! {

/// The key that was pressed.
#[derive(Clone, Copy, Debug, PartialEq, Eq)]
pub enum KeyCode {
    Char(char),
    Backspace,
    Enter,
    Esc,
    Up,
    Down,
    Tab,
    /// Any key the navigator has no binding for.
    Other,
}

/// One key press: the key, and whether Control was held.
#[derive(Clone, Copy, Debug, PartialEq, Eq)]
pub struct KeyEvent {
    pub code: KeyCode,
    pub ctrl: bool,
}

impl KeyEvent {
    /// A key pressed with or without Control.
    pub fn new(code: KeyCode, ctrl: bool) -> (event: Self)
        ensures
            event.code == code,
            event.ctrl == ctrl,
    {
        KeyEvent { code, ctrl }
    }

    /// A key pressed without Control.
    pub fn plain(code: KeyCode) -> (event: Self)
        ensures
            event.code == code,
            !event.ctrl,
    {
        KeyEvent { code, ctrl: false }
    }
}

} // verus!
