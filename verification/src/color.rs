//! RGBA palette colors for rendering the display buffer.
//!
//! A pixel of the display is a binary on/off state; its displayed color
//! is purely a function of that state and the two configured palette
//! colors, so the core only ever hands colors out as plain bytes.

use vstd::prelude::*;

verus! {

/// An RGBA color with 8-bit channels. The alpha channel is kept for the
/// benefit of renderers that upload the buffer as 4-byte texels; the
/// core always leaves it at zero.
#[derive(Clone, Copy, PartialEq, Eq, Structural, Debug)]
pub struct Color {
    pub r: u8,
    pub g: u8,
    pub b: u8,
    pub a: u8,
}

impl Color {
    /// Builds a color from its three channels, with alpha zero.
    pub fn new(r: u8, g: u8, b: u8) -> (c: Color)
        ensures
            c == (Color { r, g, b, a: 0 }),
    {
        Color { r, g, b, a: 0 }
    }

    /// A color with random channels, used by drivers that paint noise
    /// frames while no program is running. Only the alpha channel is
    /// pinned down; the rest is up to the entropy source.
    pub fn rand() -> (c: Color)
        ensures
            c.a == 0,
    {
        Color::new(
            crate::entropy::random_byte(),
            crate::entropy::random_byte(),
            crate::entropy::random_byte(),
        )
    }
}

} // verus!
