//! Textures: a grid of colors with nearest-pixel lookup.
use crate::color::Color;
use crate::fixed::SCALE;
use crate::fixed::difference;
use crate::fixed::fx_sub;
use crate::fixed::wide_floor_div;
use vstd::prelude::*;

verus! {

/// A grid of `width` by `height` colors, stored row by row from the top.
#[derive(Debug)]
pub struct Texture {
    pub width: usize,
    pub height: usize,
    pub pixels: Vec<Color>,
}

/// The column or row that the surface coordinate `s` selects on an axis of
/// `extent` pixels: `s * (extent - 1)`, rounded down.
pub open spec fn texel(s: int, extent: int) -> int {
    (s * (extent - 1)) / (SCALE as int)
}

/// The color a texture holds at the surface coordinates `(u, v)`, if they
/// select a pixel that the texture has. `v` counts upward, rows downward.
pub open spec fn sampled(t: Texture, u: int, v: int) -> Option<Color> {
    t.pixel(texel(u, t.width as int), texel(difference(SCALE as int, v), t.height as int))
}

impl Texture {
    /// The grid holds exactly `width * height` pixels.
    pub open spec fn wf(&self) -> bool {
        self.pixels@.len() == self.width * self.height
    }

    /// The color at column `x` and row `y`, if the texture has that pixel.
    pub open spec fn pixel(&self, x: int, y: int) -> Option<Color> {
        if 0 <= x < self.width && 0 <= y < self.height && y * self.width + x < self.pixels@.len() {
            Some(self.pixels@[y * self.width + x])
        } else {
            None
        }
    }

    /// Builds a texture from its rows laid end to end; `None` unless there
    /// are exactly `width * height` pixels.
    pub fn new(width: usize, height: usize, pixels: Vec<Color>) -> (t: Option<Texture>)
        ensures
            t.is_some() <==> pixels@.len() == width * height,
            t matches Some(tex) ==> tex.wf() && tex.width == width && tex.height == height
                && tex.pixels == pixels,
    {
        assert(width * height <= 0xffff_ffff_ffff_ffff * 0xffff_ffff_ffff_ffff) by (nonlinear_arith)
            requires
                0 <= width <= 0xffff_ffff_ffff_ffff,
                0 <= height <= 0xffff_ffff_ffff_ffff,
        ;
        let area: u128 = (width as u128) * (height as u128);
        if pixels.len() as u128 == area {
            Some(Texture { width, height, pixels })
        } else {
            None
        }
    }

    /// The color at column `x` and row `y`, if the texture has that pixel.
    pub fn get_color(&self, x: usize, y: usize) -> (c: Option<Color>)
        ensures
            c == self.pixel(x as int, y as int),
    {
        if x < self.width && y < self.height {
            assert(y * self.width <= 0xffff_ffff_ffff_ffff * 0xffff_ffff_ffff_ffff) by (nonlinear_arith)
                requires
                    0 <= y <= 0xffff_ffff_ffff_ffff,
                    0 <= self.width <= 0xffff_ffff_ffff_ffff,
            ;
            let index: u128 = (y as u128) * (self.width as u128) + (x as u128);
            if index < self.pixels.len() as u128 {
                Some(self.pixels[index as usize])
            } else {
                None
            }
        } else {
            None
        }
    }

    /// The column or row that the surface coordinate `s` selects on an axis
    /// of `extent` pixels, if it lies on the axis.
    fn locate(s: i64, extent: usize) -> (r: Option<usize>)
        ensures
            r.is_some() <==> 0 <= texel(s as int, extent as int) < extent,
            r matches Some(i) ==> i == texel(s as int, extent as int),
    {
        let span: i128 = extent as i128 - 1;
        assert(-0x8000_0000_0000_0000_0000_0000_0000_0000 < s * span
            < 0x7fff_ffff_ffff_ffff_ffff_ffff_ffff_ffff) by (nonlinear_arith)
            requires
                -0x8000_0000_0000_0000 <= s <= 0x7fff_ffff_ffff_ffff,
                -1 <= span <= 0xffff_ffff_ffff_ffff,
        ;
        let q: i128 = wide_floor_div((s as i128) * span, SCALE as i128);
        if 0 <= q && q < extent as i128 {
            Some(q as usize)
        } else {
            None
        }
    }

    /// The color at the surface coordinates `(u, v)`, if they select a pixel
    /// that the texture has.
    pub fn sample(&self, u: i64, v: i64) -> (c: Option<Color>)
        ensures
            c == sampled(*self, u as int, v as int),
    {
        let column = Texture::locate(u, self.width);
        let row = Texture::locate(fx_sub(SCALE, v), self.height);
        match (column, row) {
            (Some(x), Some(y)) => self.get_color(x, y),
            _ => None,
        }
    }
}

} // verus!
