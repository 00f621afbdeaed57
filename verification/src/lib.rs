//! A ray caster for scenes of axis-aligned boxes, on fixed-point numbers.
pub mod camera;
pub mod castray;
pub mod color;
pub mod cube;
pub mod fixed;
pub mod framebuffer;
pub mod light;
pub mod material;
pub mod ray_intersect;
pub mod render;
pub mod square;
pub mod texture;
pub mod vector;
