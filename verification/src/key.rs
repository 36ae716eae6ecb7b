//! The library's own model of a key press: a key code plus modifier
//! flags.  The terminal input layer decodes its events into this type
//! before calling any mode handler.

use vstd::prelude::*;

verus! {

/// A key code: a printable character or one of the editing keys the
/// handlers act on.  Anything else maps to `Other`.
#[derive(Debug, Clone, Copy, PartialEq, Eq, Structural)]
pub enum Key {
    Char(char),
    Esc,
    Enter,
    Backspace,
    Tab,
    Left,
    Right,
    Up,
    Down,
    Other,
}

/// One key press with its modifiers.
#[derive(Debug, Clone, Copy, PartialEq, Eq, Structural)]
pub struct KeyInput {
    pub code: Key,
    pub ctrl: bool,
    pub alt: bool,
    pub shift: bool,
}

impl KeyInput {
    /// A plain (unmodified) key press.
    pub fn plain(code: Key) -> (k: KeyInput)
        ensures
            k == (KeyInput { code, ctrl: false, alt: false, shift: false }),
    {
        KeyInput { code, ctrl: false, alt: false, shift: false }
    }
}

} // verus!
