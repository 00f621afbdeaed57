//! Colors with three 8-bit channels.
use crate::fixed::SCALE;
use crate::fixed::clamped;
use crate::fixed::wide_floor_div;
use crate::fixed::wide_mul;
use vstd::prelude::*;

verus! {

/// A color; each channel runs from 0 to 255.
#[derive(Clone, Copy, Debug, PartialEq, Eq, Structural)]
pub struct Color {
    pub r: u8,
    pub g: u8,
    pub b: u8,
}

/// The sum of two channels, held at 255.
pub open spec fn channel_sum(a: u8, b: u8) -> u8 {
    if a + b > 255 {
        255u8
    } else {
        (a + b) as u8
    }
}

/// A channel multiplied by the scalar `k`, rounded down and held in 0..=255.
pub open spec fn channel_scaled(c: u8, k: int) -> u8 {
    clamped((c * k) / (SCALE as int), 0, 255) as u8
}

/// Channel-wise sum of two colors, each channel held at 255.
pub open spec fn color_sum(a: Color, b: Color) -> Color {
    Color { r: channel_sum(a.r, b.r), g: channel_sum(a.g, b.g), b: channel_sum(a.b, b.b) }
}

/// A color with each channel multiplied by the scalar `k`.
pub open spec fn color_scaled(c: Color, k: int) -> Color {
    Color { r: channel_scaled(c.r, k), g: channel_scaled(c.g, k), b: channel_scaled(c.b, k) }
}

/// The color packed as `0xRRGGBB`.
pub open spec fn packed(c: Color) -> int {
    c.r * 65536 + c.g * 256 + c.b
}

/// Black.
pub open spec fn black() -> Color {
    Color { r: 0, g: 0, b: 0 }
}

fn add_channel(a: u8, b: u8) -> (r: u8)
    ensures
        r == channel_sum(a, b),
{
    let s: u16 = a as u16 + b as u16;
    if s > 255 {
        255
    } else {
        s as u8
    }
}

fn scale_channel(c: u8, k: i64) -> (r: u8)
    ensures
        r == channel_scaled(c, k as int),
{
    let q: i128 = wide_floor_div(wide_mul(c as i64, k), SCALE as i128);
    if q < 0 {
        0
    } else if q > 255 {
        255
    } else {
        q as u8
    }
}

impl Color {
    /// Builds a color from its channels.
    pub fn new(r: u8, g: u8, b: u8) -> (c: Color)
        ensures
            c == (Color { r, g, b }),
    {
        Color { r, g, b }
    }

    /// Black.
    pub fn black() -> (c: Color)
        ensures
            c == black(),
    {
        Color { r: 0, g: 0, b: 0 }
    }

    /// Packs the color as `0xRRGGBB`.
    pub fn to_hex(&self) -> (h: u32)
        ensures
            h == packed(*self),
    {
        (self.r as u32) * 65536 + (self.g as u32) * 256 + (self.b as u32)
    }

    /// Adds `other` channel by channel, holding each channel at 255.
    pub fn add(&self, other: &Color) -> (c: Color)
        ensures
            c == color_sum(*self, *other),
    {
        Color {
            r: add_channel(self.r, other.r),
            g: add_channel(self.g, other.g),
            b: add_channel(self.b, other.b),
        }
    }

    /// Multiplies every channel by the scalar `k`.
    pub fn scale(&self, k: i64) -> (c: Color)
        ensures
            c == color_scaled(*self, k as int),
    {
        Color {
            r: scale_channel(self.r, k),
            g: scale_channel(self.g, k),
            b: scale_channel(self.b, k),
        }
    }
}

} // verus!
