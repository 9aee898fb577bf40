//! Terminal colors.

use vstd::prelude::*;

verus! {

/// A terminal color.
#[derive(Clone, Copy, Debug, PartialEq, Eq, Structural)]
pub enum Color {
    /// Resets the terminal color.
    Reset,
    Black,
    DarkGrey,
    Red,
    DarkRed,
    Green,
    DarkGreen,
    Yellow,
    DarkYellow,
    Blue,
    DarkBlue,
    Magenta,
    DarkMagenta,
    Cyan,
    DarkCyan,
    White,
    Grey,
    /// A color given by its red, green and blue parts.
    Rgb { r: u8, g: u8, b: u8 },
    /// A color of the 256-color palette.
    AnsiValue(u8),
}

} // verus!
