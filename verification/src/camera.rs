//! The camera: where the eye is and which way it looks.
use crate::vector::Vec3;
use crate::vector::cross_product;
use crate::vector::normalized;
use crate::vector::vec_diff;
use crate::vector::vec_scaled;
use crate::vector::vec_sum;
use vstd::prelude::*;

verus! {

/// An eye at `eye` that looks at `center`, with `up` pointing upward.
#[derive(Clone, Copy, Debug, PartialEq, Eq, Structural)]
pub struct Camera {
    pub eye: Vec3,
    pub center: Vec3,
    pub up: Vec3,
}

/// The unit vector from the eye toward what it looks at.
pub open spec fn forward_axis(c: Camera) -> Vec3 {
    normalized(vec_diff(c.center, c.eye))
}

/// The unit vector to the right of the view.
pub open spec fn right_axis(c: Camera) -> Vec3 {
    normalized(cross_product(forward_axis(c), c.up))
}

/// The unit vector up the view, square to the other two axes.
pub open spec fn up_axis(c: Camera) -> Vec3 {
    normalized(cross_product(right_axis(c), forward_axis(c)))
}

/// The direction `v`, given in the camera's own axes (x to the right, y up,
/// z toward the eye), as a unit vector in the axes of the scene.
pub open spec fn basis_changed(c: Camera, v: Vec3) -> Vec3 {
    normalized(
        vec_diff(
            vec_sum(vec_scaled(right_axis(c), v.x as int), vec_scaled(up_axis(c), v.y as int)),
            vec_scaled(forward_axis(c), v.z as int),
        ),
    )
}

impl Camera {
    /// Builds a camera.
    pub fn new(eye: Vec3, center: Vec3, up: Vec3) -> (c: Camera)
        ensures
            c == (Camera { eye, center, up }),
    {
        Camera { eye, center, up }
    }

    /// Turns a direction given in the camera's axes into one in the axes of
    /// the scene.
    pub fn basis_change(&self, vector: &Vec3) -> (r: Vec3)
        ensures
            r == basis_changed(*self, *vector),
    {
        let forward: Vec3 = self.center.sub(&self.eye).normalize();
        let right: Vec3 = forward.cross(&self.up).normalize();
        let up: Vec3 = right.cross(&forward).normalize();
        let rotated: Vec3 = right.scale(vector.x).add(&up.scale(vector.y)).sub(
            &forward.scale(vector.z),
        );
        rotated.normalize()
    }
}

} // verus!
