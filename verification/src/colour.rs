//! Colours, packed as `0xRRGGBBAA`, and the deterministic cycling rule
//! that assigns a background colour to each item.

use vstd::prelude::*;

verus! {

/// An RGBA colour, packed big-endian as `0xRRGGBBAA`.
#[derive(Clone, Copy, PartialEq, Eq, Structural, Debug)]
pub struct Colour(pub u32);

impl Colour {
    pub fn from_rgba(r: u8, g: u8, b: u8, a: u8) -> (c: Colour)
        ensures
            c.0 == r * 0x100_0000 + g * 0x1_0000 + b * 0x100 + a,
    {
        Colour((r as u32) * 0x100_0000 + (g as u32) * 0x1_0000 + (b as u32) * 0x100 + (a as u32))
    }

    /// The four channels, most significant byte first.
    pub fn to_rgba(&self) -> (bytes: [u8; 4])
        ensures
            bytes@.len() == 4,
            bytes@[0] as int == self.0 as int / 0x100_0000,
            bytes@[1] as int == (self.0 as int / 0x1_0000) % 0x100,
            bytes@[2] as int == (self.0 as int / 0x100) % 0x100,
            bytes@[3] as int == self.0 as int % 0x100,
    {
        let v = self.0;
        [(v / 0x100_0000) as u8, ((v / 0x1_0000) % 0x100) as u8, ((v / 0x100) % 0x100) as u8, (
        v % 0x100) as u8]
    }
}

/// One flat background colour, or a list that is cycled over the items in
/// spiral emission order.
pub enum Colours {
    One(Colour),
    Many(Vec<Colour>),
}

impl Colours {
    /// A colour list must not be empty.
    pub open spec fn wf(self) -> bool {
        match self {
            Colours::One(_) => true,
            Colours::Many(cs) => cs@.len() > 0,
        }
    }

    /// The colour assigned to the item at index `i`: constant for a single
    /// colour, modulo arithmetic over a list.
    pub open spec fn spec_cycle(self, i: int) -> Colour
        recommends
            self.wf(),
            0 <= i,
    {
        match self {
            Colours::One(c) => c,
            Colours::Many(cs) => cs@[i % cs@.len() as int],
        }
    }

    /// The colour for the item at index `i`.
    pub fn cycle(&self, i: usize) -> (c: Colour)
        requires
            self.wf(),
        ensures
            c == self.spec_cycle(i as int),
    {
        match self {
            Colours::One(c) => *c,
            Colours::Many(cs) => {
                let idx = i % cs.len();
                cs[idx]
            },
        }
    }
}

} // verus!
