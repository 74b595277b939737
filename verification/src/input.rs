//! What the editor is told: keys and changes of the window.

use vstd::prelude::*;

verus! {

/// A key, as far as the editor tells keys apart.
#[derive(Debug, Clone, Copy, PartialEq, Eq, Structural)]
pub enum Key {
    /// The escape key.
    Esc,
    /// The return key.
    Enter,
    /// A key that stands for a character.
    Char(char),
    /// Any other key.
    Other,
}

/// One event from the terminal.
#[derive(Debug, Clone, Copy, PartialEq, Eq, Structural)]
pub enum InputEvent {
    /// A key was pressed.
    Key(Key),
    /// The window now has this many columns and rows.
    Resize(u16, u16),
    /// Anything else the terminal reports.
    Other,
}

/// True for the characters that typing inserts into the text: all but the
/// control characters.
pub open spec fn is_printable(c: char) -> bool {
    !(c as u32 <= 0x1f || 0x7f <= c as u32 <= 0x9f)
}

/// Decides [`is_printable`].
pub fn printable(c: char) -> (yes: bool)
    ensures
        yes == is_printable(c),
{
    let u: u32 = c as u32;
    !(u <= 0x1f || (0x7f <= u && u <= 0x9f))
}

} // verus!
