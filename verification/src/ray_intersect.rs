//! The record of where a ray meets a surface.
use crate::fixed::FX_MAX;
use crate::material::Material;
use crate::vector::Vec3;
use vstd::prelude::*;

verus! {

/// Where a ray met a surface, or that it met none.
///
/// While `is_intersecting` is false the record is the empty one: the distance
/// is `FX_MAX` and no material is attached.
#[derive(Debug)]
pub struct Intersect<'a> {
    pub point: Vec3,
    pub normal: Vec3,
    pub distance: i64,
    pub is_intersecting: bool,
    pub material: Option<&'a Material>,
    pub u: i64,
    pub v: i64,
}

/// The record of a ray that met nothing.
pub open spec fn no_hit<'a>() -> Intersect<'a> {
    Intersect {
        point: Vec3 { x: 0, y: 0, z: 0 },
        normal: Vec3 { x: 0, y: 0, z: 0 },
        distance: FX_MAX,
        is_intersecting: false,
        material: None,
        u: 0,
        v: 0,
    }
}

impl<'a> Intersect<'a> {
    /// The record of a hit.
    pub fn new(point: Vec3, normal: Vec3, distance: i64, material: &'a Material, u: i64, v: i64) -> (i:
        Intersect<'a>)
        ensures
            i == (Intersect {
                point,
                normal,
                distance,
                is_intersecting: true,
                material: Some(material),
                u,
                v,
            }),
    {
        Intersect { point, normal, distance, is_intersecting: true, material: Some(material), u, v }
    }

    /// The record of a ray that met nothing.
    pub fn empty() -> (i: Intersect<'a>)
        ensures
            i == no_hit(),
    {
        Intersect {
            point: Vec3::zeros(),
            normal: Vec3::zeros(),
            distance: FX_MAX,
            is_intersecting: false,
            material: None,
            u: 0,
            v: 0,
        }
    }
}

} // verus!
