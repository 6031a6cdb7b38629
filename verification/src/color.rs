//! RGBA colors over fixed-point channels, with conversion to 8-bit pixels.
//!
//! A channel value of `SCALE` means full intensity.  Shading and blending do
//! not clamp channels; the conversion to bytes saturates into `0..=255`.

use vstd::prelude::*;
use crate::fixed::SCALE;

verus! {

/// An RGBA color; each channel is a fixed-point scalar, nominally in
/// `[0, SCALE]` though shading sums may exceed it.
#[derive(Clone, Copy, Debug, PartialEq, Eq, Structural)]
pub struct Color {
    pub r: i64,
    pub g: i64,
    pub b: i64,
    pub a: i64,
}

/// Opaque black, the background color.
pub open spec fn spec_black() -> Color {
    Color { r: 0, g: 0, b: 0, a: SCALE }
}

/// An 8-bit channel: the fixed-point channel times 255, rounded down and
/// saturated into `0..=255`.
pub open spec fn channel_byte(c: int) -> int {
    let v = (c * 255) / (SCALE as int);
    if v < 0 {
        0
    } else if v > 255 {
        255
    } else {
        v
    }
}

impl Color {
    pub fn black() -> (c: Color)
        ensures
            c == spec_black(),
    {
        Color { r: 0, g: 0, b: 0, a: SCALE }
    }

    pub fn red() -> (c: Color)
        ensures
            c == (Color { r: SCALE, g: 0, b: 0, a: SCALE }),
    {
        Color { r: SCALE, g: 0, b: 0, a: SCALE }
    }

    pub fn green() -> (c: Color)
        ensures
            c == (Color { r: 0, g: SCALE, b: 0, a: SCALE }),
    {
        Color { r: 0, g: SCALE, b: 0, a: SCALE }
    }

    pub fn blue() -> (c: Color)
        ensures
            c == (Color { r: 0, g: 0, b: SCALE, a: SCALE }),
    {
        Color { r: 0, g: 0, b: SCALE, a: SCALE }
    }

    pub fn yellow() -> (c: Color)
        ensures
            c == (Color { r: SCALE, g: SCALE, b: 0, a: SCALE }),
    {
        Color { r: SCALE, g: SCALE, b: 0, a: SCALE }
    }

    /// The color's red, green and blue channels as bytes.
    pub fn to_rgb(&self) -> (rgb: (u8, u8, u8))
        ensures
            rgb.0 as int == channel_byte(self.r as int),
            rgb.1 as int == channel_byte(self.g as int),
            rgb.2 as int == channel_byte(self.b as int),
    {
        (channel_to_byte(self.r), channel_to_byte(self.g), channel_to_byte(self.b))
    }
}

/// One fixed-point channel as a byte.
pub fn channel_to_byte(c: i64) -> (b: u8)
    ensures
        b as int == channel_byte(c as int),
{
    proof {
        assert((c as int) * 255 <= 0x4000_0000_0000_0000_0000_0000_0000_0000int
            && (c as int) * 255 >= -0x4000_0000_0000_0000_0000_0000_0000_0000int) by (nonlinear_arith)
            requires
                -0x8000_0000_0000_0000int <= c <= 0x8000_0000_0000_0000int,
        ;
    }
    let p: i128 = (c as i128) * 255;
    let v: i128 = crate::fixed::div_floor_i128(p, SCALE as i128);
    if v < 0 {
        0
    } else if v > 255 {
        255
    } else {
        v as u8
    }
}

} // verus!
