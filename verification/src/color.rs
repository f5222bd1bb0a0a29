//! RGBA color values carried by atoms and elements.

use vstd::prelude::*;

verus! {

/// An 8-bit-per-channel RGBA color.
#[derive(Debug, Clone, Copy, PartialEq, Eq, Structural)]
pub struct AtomColor {
    pub r: u8,
    pub g: u8,
    pub b: u8,
    pub a: u8,
}

impl AtomColor {
    /// The fully transparent color, `#00000000`.
    pub fn invisible() -> (c: AtomColor)
        ensures
            c == AtomColor::invisible_spec(),
    {
        AtomColor { r: 0, g: 0, b: 0, a: 0 }
    }

    pub open spec fn invisible_spec() -> AtomColor {
        AtomColor { r: 0, g: 0, b: 0, a: 0 }
    }

    /// The fully opaque white color, `#ffffffff`.
    pub fn white() -> (c: AtomColor)
        ensures
            c == AtomColor::white_spec(),
    {
        AtomColor { r: 0xff, g: 0xff, b: 0xff, a: 0xff }
    }

    pub open spec fn white_spec() -> AtomColor {
        AtomColor { r: 0xff, g: 0xff, b: 0xff, a: 0xff }
    }

    pub open spec fn from_u32_spec(val: u32) -> AtomColor {
        AtomColor {
            r: (val >> 24) as u8,
            g: ((val >> 16) & 0xff) as u8,
            b: ((val >> 8) & 0xff) as u8,
            a: (val & 0xff) as u8,
        }
    }

    /// Unpacks a color from its `0xrrggbbaa` encoding.
    pub fn from_u32(val: u32) -> (c: AtomColor)
        ensures
            c == AtomColor::from_u32_spec(val),
    {
        proof {
            assert((val >> 24) <= 0xff && ((val >> 16) & 0xff) <= 0xff && ((val >> 8) & 0xff)
                <= 0xff && (val & 0xff) <= 0xff) by (bit_vector);
        }
        AtomColor {
            r: (val >> 24) as u8,
            g: ((val >> 16) & 0xff) as u8,
            b: ((val >> 8) & 0xff) as u8,
            a: (val & 0xff) as u8,
        }
    }

    pub fn from_parts(r: u8, g: u8, b: u8, a: u8) -> (c: AtomColor)
        ensures
            c == (AtomColor { r, g, b, a }),
    {
        AtomColor { r, g, b, a }
    }

    pub open spec fn from_grey_spec(grey: u8) -> AtomColor {
        AtomColor { r: grey, g: grey, b: grey, a: 0xff }
    }

    /// A fully opaque greyscale color with every channel set to `grey`.
    pub fn from_grey(grey: u8) -> (c: AtomColor)
        ensures
            c == AtomColor::from_grey_spec(grey),
    {
        AtomColor { r: grey, g: grey, b: grey, a: 0xff }
    }
}

} // verus!
