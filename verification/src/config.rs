//! The default appearance parameters of the core.
//!
//! Reading a configuration file is host work and stays with the
//! integration layer; the colour defaults below are part of the core's
//! deterministic appearance rules.

use vstd::prelude::*;

use crate::colour::{Colour, Colours};

verus! {

/// The default background: one flat colour for every cell.
pub fn bg_colour() -> (c: Colours)
    ensures
        c == Colours::One(Colour(0x3c3836ffu32)),
        c.wf(),
{
    Colours::One(Colour::from_rgba(0x3c, 0x38, 0x36, 0xff))
}

/// The default foreground (text) colour.
pub fn fg_colour() -> (c: Colour)
    ensures
        c == Colour(0xa89984ffu32),
{
    Colour::from_rgba(0xa8, 0x99, 0x84, 0xff)
}

/// The default background colour of the cell under the cursor.
pub fn active_bg_colour() -> (c: Colour)
    ensures
        c == Colour(0xfabd2fffu32),
{
    Colour::from_rgba(0xfa, 0xbd, 0x2f, 0xff)
}

/// The default foreground colour of the cell under the cursor.
pub fn active_fg_colour() -> (c: Colour)
    ensures
        c == Colour(0x282828ffu32),
{
    Colour::from_rgba(0x28, 0x28, 0x28, 0xff)
}

/// The default colour of every cell border.
pub fn border_colour() -> (c: Colour)
    ensures
        c == Colour(0xebdbb2ffu32),
{
    Colour::from_rgba(0xeb, 0xdb, 0xb2, 0xff)
}

} // verus!
