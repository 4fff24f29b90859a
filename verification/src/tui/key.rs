//! Keys the terminal UI reacts to.

use vstd::prelude::*;

verus! {

/// A key press, as far as the UI tells keys apart.
#[derive(Debug, Clone, Copy, PartialEq, Eq, Structural)]
pub enum Key {
    Char(char),
    Backspace,
    Enter,
    Esc,
    Tab,
    BackTab,
    Up,
    Down,
    Left,
    Right,
    /// Any other key.
    Other,
}

} // verus!
