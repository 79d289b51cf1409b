//! A plain RGBA color value, one byte per channel.

use vstd::prelude::*;

verus! {

/// A color with red, green, blue and alpha channels of one byte each.
#[derive(Clone, Copy, Debug, PartialEq, Eq, Structural)]
pub struct Rgba {
    pub r: u8,
    pub g: u8,
    pub b: u8,
    pub a: u8,
}

/// The channel-wise midpoint of two colors, each channel rounded down.
pub open spec fn spec_midpoint(a: Rgba, b: Rgba) -> Rgba {
    Rgba {
        r: (((a.r + b.r) / 2) as u8),
        g: (((a.g + b.g) / 2) as u8),
        b: (((a.b + b.b) / 2) as u8),
        a: (((a.a + b.a) / 2) as u8),
    }
}

impl Rgba {
    /// Builds a color from its four channels.
    pub fn new(r: u8, g: u8, b: u8, a: u8) -> (c: Rgba)
        ensures
            c == (Rgba { r, g, b, a }),
    {
        Rgba { r, g, b, a }
    }

    /// Opaque black, the background the effects start from.
    pub fn black() -> (c: Rgba)
        ensures
            c == (Rgba { r: 0u8, g: 0u8, b: 0u8, a: 255u8 }),
    {
        Rgba { r: 0, g: 0, b: 0, a: 255 }
    }

    /// Blends this color half-way toward `other`, channel by channel.
    pub fn midpoint(&self, other: &Rgba) -> (c: Rgba)
        ensures
            c == spec_midpoint(*self, *other),
    {
        Rgba {
            r: ((self.r as u16 + other.r as u16) / 2) as u8,
            g: ((self.g as u16 + other.g as u16) / 2) as u8,
            b: ((self.b as u16 + other.b as u16) / 2) as u8,
            a: ((self.a as u16 + other.a as u16) / 2) as u8,
        }
    }
}

} // verus!
