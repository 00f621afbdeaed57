//! Surface materials: color, shading weights, and optional texture.
use crate::color::Color;
use crate::color::color_scaled;
use crate::fixed::SCALE;
use crate::texture::Texture;
use crate::texture::sampled;
use crate::vector::Vec3;
use crate::vector::normalized;
use std::sync::Arc;
use vstd::prelude::*;

verus! {

/// How a surface looks and how it passes light on.
///
/// `albedo` holds the diffuse, specular, reflective and transmissive weights,
/// in that order, as fixed-point scalars. `specular` is the whole exponent of
/// the highlight. A flag that asks for the texture has effect only while a
/// texture is attached and has the pixel asked for; otherwise the solid value
/// of the same property is used.
#[derive(Debug, Clone)]
pub struct Material {
    pub diffuse: Color,
    pub specular: u32,
    pub albedo: [i64; 4],
    pub refractive_index: i64,
    pub has_texture: bool,
    pub has_normal_map: bool,
    pub texture: Option<Arc<Texture>>,
    pub emission: Color,
    pub emission_strength: i64,
    pub has_emission: bool,
}

/// The color the attached texture holds at `(u, v)`, if there is a texture
/// and it has that pixel.
pub open spec fn texture_color(m: Material, u: int, v: int) -> Option<Color> {
    match m.texture {
        Some(t) => sampled(*t, u, v),
        None => None,
    }
}

/// The diffuse color at the surface coordinates `(u, v)`.
pub open spec fn diffuse_at(m: Material, u: int, v: int) -> Color {
    match texture_color(m, u, v) {
        Some(c) if m.has_texture => c,
        _ => m.diffuse,
    }
}

/// The emitted color at the surface coordinates `(u, v)`: the texture's color
/// times the emission strength where emission is on, else the solid emission.
pub open spec fn emission_at(m: Material, u: int, v: int) -> Color {
    match texture_color(m, u, v) {
        Some(c) if m.has_emission => color_scaled(c, m.emission_strength as int),
        _ => m.emission,
    }
}

/// The direction a normal-map color stands for, before normalizing: red and
/// green run from minus one to one, blue from zero to one.
pub open spec fn decoded_normal(c: Color) -> Vec3 {
    Vec3 {
        x: ((c.r * 2 * SCALE) / 255 - SCALE) as i64,
        y: ((c.g * 2 * SCALE) / 255 - SCALE) as i64,
        z: ((c.b * SCALE) / 255) as i64,
    }
}

/// The unit normal along the third axis, used where no normal map applies.
pub open spec fn flat_normal() -> Vec3 {
    Vec3 { x: 0, y: 0, z: SCALE }
}

/// The normal the normal map gives at `(u, v)`.
pub open spec fn normal_at(m: Material, u: int, v: int) -> Vec3 {
    match texture_color(m, u, v) {
        Some(c) if m.has_normal_map => normalized(decoded_normal(c)),
        _ => flat_normal(),
    }
}

impl Material {
    /// The reflective and transmissive weights together exceed one, so the
    /// locally shaded color enters the final blend with a negative weight.
    pub open spec fn overdrawn(&self) -> bool {
        self.albedo[2] + self.albedo[3] > SCALE
    }

    /// A material of one solid color.
    pub fn new(diffuse: Color, specular: u32, albedo: [i64; 4], refractive_index: i64) -> (m:
        Material)
        ensures
            m == (Material {
                diffuse,
                specular,
                albedo,
                refractive_index,
                has_texture: false,
                has_normal_map: false,
                texture: None,
                emission: crate::color::black(),
                emission_strength: 0,
                has_emission: false,
            }),
    {
        Material {
            diffuse,
            specular,
            albedo,
            refractive_index,
            has_texture: false,
            has_normal_map: false,
            texture: None,
            emission: Color::new(0, 0, 0),
            emission_strength: 0,
            has_emission: false,
        }
    }

    /// A textured material that also emits its texture's color, scaled by
    /// `emission_strength`; `emission` is the solid color emitted where the
    /// texture has no pixel.
    pub fn new_with_emission_texture(
        specular: u32,
        albedo: [i64; 4],
        refractive_index: i64,
        texture: Arc<Texture>,
        emission: Color,
        emission_strength: i64,
    ) -> (m: Material)
        ensures
            m == (Material {
                diffuse: Color { r: 255, g: 255, b: 255 },
                specular,
                albedo,
                refractive_index,
                has_texture: true,
                has_normal_map: false,
                texture: Some(texture),
                emission,
                emission_strength,
                has_emission: true,
            }),
    {
        Material {
            diffuse: Color::new(255, 255, 255),
            specular,
            albedo,
            refractive_index,
            has_texture: true,
            has_normal_map: false,
            texture: Some(texture),
            emission,
            emission_strength,
            has_emission: true,
        }
    }

    /// The color this material emits at the surface coordinates `(u, v)`.
    pub fn get_emission_color(&self, u: i64, v: i64) -> (c: Color)
        ensures
            c == emission_at(*self, u as int, v as int),
    {
        if self.has_emission {
            match &self.texture {
                Some(texture) => match texture.sample(u, v) {
                    Some(color) => color.scale(self.emission_strength),
                    None => self.emission,
                },
                None => self.emission,
            }
        } else {
            self.emission
        }
    }

    /// A material that takes its diffuse color from `texture`; white where
    /// the texture has no pixel.
    pub fn new_with_texture(
        specular: u32,
        albedo: [i64; 4],
        refractive_index: i64,
        texture: Arc<Texture>,
    ) -> (m: Material)
        ensures
            m == (Material {
                diffuse: Color { r: 255, g: 255, b: 255 },
                specular,
                albedo,
                refractive_index,
                has_texture: true,
                has_normal_map: false,
                texture: Some(texture),
                emission: crate::color::black(),
                emission_strength: 0,
                has_emission: false,
            }),
    {
        Material {
            diffuse: Color::new(255, 255, 255),
            specular,
            albedo,
            refractive_index,
            has_texture: true,
            has_normal_map: false,
            texture: Some(texture),
            emission: Color::new(0, 0, 0),
            emission_strength: 0,
            has_emission: false,
        }
    }

    /// The diffuse color at the surface coordinates `(u, v)`.
    pub fn get_diffuse_color(&self, u: i64, v: i64) -> (c: Color)
        ensures
            c == diffuse_at(*self, u as int, v as int),
    {
        if self.has_texture {
            match &self.texture {
                Some(texture) => match texture.sample(u, v) {
                    Some(color) => color,
                    None => self.diffuse,
                },
                None => self.diffuse,
            }
        } else {
            self.diffuse
        }
    }

    /// The normal that the normal map gives at `(u, v)`; the unit normal
    /// along the third axis where no normal map applies.
    pub fn get_normal_from_map(&self, u: i64, v: i64) -> (n: Vec3)
        ensures
            n == normal_at(*self, u as int, v as int),
    {
        if self.has_normal_map {
            match &self.texture {
                Some(texture) => match texture.sample(u, v) {
                    Some(color) => {
                        let nx: i64 = (color.r as i64 * 2 * SCALE) / 255 - SCALE;
                        let ny: i64 = (color.g as i64 * 2 * SCALE) / 255 - SCALE;
                        let nz: i64 = (color.b as i64 * SCALE) / 255;
                        Vec3::new(nx, ny, nz).normalize()
                    },
                    None => Vec3::new(0, 0, SCALE),
                },
                None => Vec3::new(0, 0, SCALE),
            }
        } else {
            Vec3::new(0, 0, SCALE)
        }
    }

    /// The material that reflects and emits nothing.
    pub fn black() -> (m: Material)
        ensures
            m == (Material {
                diffuse: crate::color::black(),
                specular: 0,
                albedo: [0i64, 0i64, 0i64, 0i64],
                refractive_index: 0,
                has_texture: false,
                has_normal_map: false,
                texture: None,
                emission: crate::color::black(),
                emission_strength: 0,
                has_emission: false,
            }),
    {
        Material {
            diffuse: Color::new(0, 0, 0),
            specular: 0,
            albedo: [0, 0, 0, 0],
            refractive_index: 0,
            has_texture: false,
            has_normal_map: false,
            texture: None,
            emission: Color::new(0, 0, 0),
            emission_strength: 0,
            has_emission: false,
        }
    }

    /// Whether the reflective and transmissive weights together exceed one.
    pub fn is_overdrawn(&self) -> (r: bool)
        ensures
            r == self.overdrawn(),
    {
        self.albedo[2] as i128 + self.albedo[3] as i128 > SCALE as i128
    }
}

} // verus!
