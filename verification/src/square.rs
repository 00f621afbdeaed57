//! Flat squares.
use crate::fixed::fx_div;
use crate::fixed::quotient;
use crate::material::Material;
use crate::ray_intersect::Intersect;
use crate::ray_intersect::no_hit;
use crate::vector::Vec3;
use crate::vector::dot_product;
use crate::vector::point_along;
use crate::vector::vec_diff;
use vstd::prelude::*;

verus! {

/// Below this magnitude of `normal . direction` a ray counts as parallel to
/// the plane: a millionth.
pub const PARALLEL_EPSILON: i64 = 1;

/// A square of side `size` around `center`, in the plane through `center`
/// with normal `normal`; its sides are measured along the x and y axes.
#[derive(Debug, Clone)]
pub struct Square {
    pub center: Vec3,
    pub normal: Vec3,
    pub size: i64,
    pub material: Material,
}

/// The ray parameter at which the ray from `o` along `d` crosses the plane
/// of the square; meaningful while the ray is not parallel to the plane.
pub open spec fn plane_distance(s: Square, o: Vec3, d: Vec3) -> int {
    quotient(dot_product(vec_diff(s.center, o), s.normal), dot_product(s.normal, d))
}

/// The ray is not parallel to the plane of the square, crosses it in front
/// of its origin, and does so within half a side of the center along x and
/// along y.
pub open spec fn ray_meets_square(s: Square, o: Vec3, d: Vec3) -> bool {
    let denom = dot_product(s.normal, d);
    let t = plane_distance(s, o, d);
    let local = vec_diff(point_along(o, d, t), s.center);
    &&& !(-PARALLEL_EPSILON < denom < PARALLEL_EPSILON)
    &&& t >= 0
    &&& -s.size <= 2 * local.x <= s.size
    &&& -s.size <= 2 * local.y <= s.size
}

/// What a ray from `o` along `d` meets of the square `s`.
pub open spec fn square_hit<'a>(s: &'a Square, o: Vec3, d: Vec3) -> Intersect<'a> {
    if ray_meets_square(*s, o, d) {
        Intersect {
            point: point_along(o, d, plane_distance(*s, o, d)),
            normal: s.normal,
            distance: plane_distance(*s, o, d) as i64,
            is_intersecting: true,
            material: Some(&s.material),
            u: 0,
            v: 0,
        }
    } else {
        no_hit()
    }
}

impl Square {
    /// Finds where the ray from `origin` along `direction` crosses the
    /// square.
    pub fn ray_intersect<'a>(&'a self, origin: &Vec3, direction: &Vec3) -> (hit: Intersect<'a>)
        ensures
            hit == square_hit(self, *origin, *direction),
            hit.is_intersecting == ray_meets_square(*self, *origin, *direction),
            hit.is_intersecting ==> hit.distance >= 0 && hit.normal == self.normal,
            !hit.is_intersecting ==> hit == no_hit(),
    {
        let denom: i64 = self.normal.dot(direction);
        if -PARALLEL_EPSILON < denom && denom < PARALLEL_EPSILON {
            return Intersect::empty();
        }
        let d: i64 = fx_div(self.center.sub(origin).dot(&self.normal), denom);
        if d < 0 {
            return Intersect::empty();
        }
        let hit_point: Vec3 = origin.along(direction, d);
        let local: Vec3 = hit_point.sub(&self.center);
        let size: i128 = self.size as i128;
        let twice_x: i128 = 2 * (local.x as i128);
        let twice_y: i128 = 2 * (local.y as i128);
        if -size <= twice_x && twice_x <= size && -size <= twice_y && twice_y <= size {
            Intersect::new(hit_point, self.normal, d, &self.material, 0, 0)
        } else {
            Intersect::empty()
        }
    }
}

} // verus!
