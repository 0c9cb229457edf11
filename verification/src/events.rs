//! The input events the widgets consume: plain values handed in by
//! whatever reads the real terminal.

use vstd::prelude::*;

verus! {

/// A key press.
#[derive(Clone, Debug, PartialEq, Eq, Structural, Copy)]
pub enum KeyCode {
    Backspace,
    Enter,
    Left,
    Right,
    Up,
    Down,
    Tab,
    Delete,
    Esc,
    Char(char),
    Other,
}

/// A terminal input event: a key, a pasted string, or anything else.
#[derive(Clone, Debug)]
pub enum Event {
    Key(KeyCode),
    Paste(String),
    Other,
}

} // verus!
