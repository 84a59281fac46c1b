//! Colors of the terminal.

use vstd::prelude::*;

verus! {

/// A color that a terminal can show.
#[derive(Debug, Clone, Copy, PartialEq, Eq, Hash, Structural)]
pub enum Color {
    /// The terminal's own default color.
    Reset,
    Black,
    Red,
    Green,
    Yellow,
    Blue,
    Magenta,
    Cyan,
    Gray,
    DarkGray,
    LightRed,
    LightGreen,
    LightYellow,
    LightBlue,
    LightMagenta,
    LightCyan,
    White,
    /// Red, green and blue, each from 0 to 255.
    Rgb(u8, u8, u8),
    /// An entry of the terminal's table of 256 colors.
    Indexed(u8),
}

} // verus!
