//! Axis-aligned boxes and the slab test that finds where a ray enters one.
use crate::fixed::FX_MAX;
use crate::fixed::SCALE;
use crate::fixed::floor_div;
use crate::fixed::lemma_floor_div_bounds;
use crate::fixed::lemma_floor_div_monotone;
use crate::fixed::lemma_floor_div_of_equal_fractions;
use crate::fixed::lemma_floor_div_unique;
use crate::fixed::sat;
use crate::fixed::saturate;
use crate::fixed::wide_floor_div;
use crate::fixed::wide_scaled_diff;
use crate::material::Material;
use crate::ray_intersect::Intersect;
use crate::ray_intersect::no_hit;
use crate::vector::Vec3;
use crate::vector::at_most_unit;
use crate::vector::point_along;
use vstd::math::max;
use vstd::math::min;
use vstd::prelude::*;

verus! {

/// How close to a face plane a hit point must lie to count as on that face:
/// a ten-thousandth.
pub const FACE_EPSILON: i64 = 100;

/// An axis-aligned box between the corners `min` and `max`.
///
/// `has_shadow` says whether the box takes part in shadow queries.
#[derive(Debug, Clone)]
pub struct Cube {
    pub min: Vec3,
    pub max: Vec3,
    pub material: Material,
    pub has_shadow: bool,
    pub is_transparent: bool,
}

/// The ray parameter at which a ray that starts at coordinate `o` and moves
/// by `d` per unit reaches the plane at coordinate `bound`, rounded down.
pub open spec fn crossing(bound: int, o: int, d: int) -> int
    recommends
        d != 0,
{
    sat(floor_div((bound - o) * SCALE, d))
}

/// The coordinate `o` lies in the slab between the planes at `lo` and `hi`,
/// the planes included, whichever of the two is the lower.
pub open spec fn between(lo: int, hi: int, o: int) -> bool {
    lo <= o <= hi || hi <= o <= lo
}

/// The ray parameter from which the ray is inside the slab between `lo` and
/// `hi` on one axis. A ray that does not move on the axis is inside for every
/// parameter if it starts inside, and for none otherwise.
pub open spec fn slab_enter(lo: int, hi: int, o: int, d: int) -> int {
    if d == 0 {
        if between(lo, hi, o) {
            -FX_MAX
        } else {
            FX_MAX as int
        }
    } else {
        min(crossing(lo, o, d), crossing(hi, o, d))
    }
}

/// The ray parameter up to which the ray is inside the slab between `lo` and
/// `hi` on one axis.
pub open spec fn slab_leave(lo: int, hi: int, o: int, d: int) -> int {
    if d == 0 {
        if between(lo, hi, o) {
            FX_MAX as int
        } else {
            -FX_MAX
        }
    } else {
        max(crossing(lo, o, d), crossing(hi, o, d))
    }
}

/// The ray parameter from which the ray is inside all three slabs.
pub open spec fn entry_distance(c: Cube, o: Vec3, d: Vec3) -> int {
    max(
        slab_enter(c.min.x as int, c.max.x as int, o.x as int, d.x as int),
        max(
            slab_enter(c.min.y as int, c.max.y as int, o.y as int, d.y as int),
            slab_enter(c.min.z as int, c.max.z as int, o.z as int, d.z as int),
        ),
    )
}

/// The ray parameter up to which the ray is inside all three slabs.
pub open spec fn exit_distance(c: Cube, o: Vec3, d: Vec3) -> int {
    min(
        slab_leave(c.min.x as int, c.max.x as int, o.x as int, d.x as int),
        min(
            slab_leave(c.min.y as int, c.max.y as int, o.y as int, d.y as int),
            slab_leave(c.min.z as int, c.max.z as int, o.z as int, d.z as int),
        ),
    )
}

/// The ray enters the box in front of its origin.
pub open spec fn ray_meets(c: Cube, o: Vec3, d: Vec3) -> bool {
    0 <= entry_distance(c, o, d) <= exit_distance(c, o, d)
}

/// Two coordinates are less than `FACE_EPSILON` apart.
pub open spec fn close(a: int, b: int) -> bool {
    -FACE_EPSILON < a - b < FACE_EPSILON
}

/// The outward unit normal of the face that the point `p` lies on: the first
/// face, in the order x, y, z and low before high, whose plane is close to
/// `p`; the high z face where none is.
pub open spec fn face_normal(c: Cube, p: Vec3) -> Vec3 {
    if close(p.x as int, c.min.x as int) {
        Vec3 { x: (-SCALE) as i64, y: 0, z: 0 }
    } else if close(p.x as int, c.max.x as int) {
        Vec3 { x: SCALE, y: 0, z: 0 }
    } else if close(p.y as int, c.min.y as int) {
        Vec3 { x: 0, y: (-SCALE) as i64, z: 0 }
    } else if close(p.y as int, c.max.y as int) {
        Vec3 { x: 0, y: SCALE, z: 0 }
    } else if close(p.z as int, c.min.z as int) {
        Vec3 { x: 0, y: 0, z: (-SCALE) as i64 }
    } else {
        Vec3 { x: 0, y: 0, z: SCALE }
    }
}

/// `n` is one of the six signed unit vectors along the axes.
pub open spec fn is_axis_unit(n: Vec3) -> bool {
    ||| n == (Vec3 { x: (-SCALE) as i64, y: 0, z: 0 })
    ||| n == (Vec3 { x: SCALE, y: 0, z: 0 })
    ||| n == (Vec3 { x: 0, y: (-SCALE) as i64, z: 0 })
    ||| n == (Vec3 { x: 0, y: SCALE, z: 0 })
    ||| n == (Vec3 { x: 0, y: 0, z: (-SCALE) as i64 })
    ||| n == (Vec3 { x: 0, y: 0, z: SCALE })
}

/// How far `p` lies from `lo` toward `hi`, as a fraction of the way; zero
/// where the two coincide.
pub open spec fn span_fraction(p: int, lo: int, hi: int) -> int {
    if hi == lo {
        0
    } else {
        sat(floor_div((p - lo) * SCALE, hi - lo))
    }
}

/// The first surface coordinate of `p` on the face with normal `n`: along z
/// on an x face, along x on the others.
pub open spec fn face_u(c: Cube, p: Vec3, n: Vec3) -> int {
    if n.x != 0 {
        span_fraction(p.z as int, c.min.z as int, c.max.z as int)
    } else {
        span_fraction(p.x as int, c.min.x as int, c.max.x as int)
    }
}

/// The second surface coordinate of `p` on the face with normal `n`: along z
/// on a y face, along y on the others.
pub open spec fn face_v(c: Cube, p: Vec3, n: Vec3) -> int {
    if n.x == 0 && n.y != 0 {
        span_fraction(p.z as int, c.min.z as int, c.max.z as int)
    } else {
        span_fraction(p.y as int, c.min.y as int, c.max.y as int)
    }
}

/// What a ray from `o` along `d` meets of the box `c`.
pub open spec fn cube_hit<'a>(c: &'a Cube, o: Vec3, d: Vec3) -> Intersect<'a> {
    if ray_meets(*c, o, d) {
        let t = entry_distance(*c, o, d);
        let p = point_along(o, d, t);
        let n = face_normal(*c, p);
        Intersect {
            point: p,
            normal: n,
            distance: t as i64,
            is_intersecting: true,
            material: Some(&c.material),
            u: face_u(*c, p, n) as i64,
            v: face_v(*c, p, n) as i64,
        }
    } else {
        no_hit()
    }
}

fn crossing_at(bound: i64, o: i64, d: i64) -> (t: i64)
    requires
        d != 0,
    ensures
        t == crossing(bound as int, o as int, d as int),
{
    saturate(wide_floor_div(wide_scaled_diff(bound, o), d as i128))
}

fn slab(lo: i64, hi: i64, o: i64, d: i64) -> (r: (i64, i64))
    ensures
        r.0 == slab_enter(lo as int, hi as int, o as int, d as int),
        r.1 == slab_leave(lo as int, hi as int, o as int, d as int),
{
    if d == 0 {
        if lo <= o && o <= hi || hi <= o && o <= lo {
            (-FX_MAX, FX_MAX)
        } else {
            (FX_MAX, -FX_MAX)
        }
    } else {
        let a: i64 = crossing_at(lo, o, d);
        let b: i64 = crossing_at(hi, o, d);
        if a <= b {
            (a, b)
        } else {
            (b, a)
        }
    }
}

fn is_close(a: i64, b: i64) -> (r: bool)
    ensures
        r == close(a as int, b as int),
{
    let gap: i128 = a as i128 - b as i128;
    -(FACE_EPSILON as i128) < gap && gap < FACE_EPSILON as i128
}

fn fraction_of_span(p: i64, lo: i64, hi: i64) -> (r: i64)
    ensures
        r == span_fraction(p as int, lo as int, hi as int),
{
    if hi == lo {
        0
    } else {
        saturate(wide_floor_div(wide_scaled_diff(p, lo), hi as i128 - lo as i128))
    }
}

impl Cube {
    /// No corner coordinate of `min` lies above that of `max`.
    pub open spec fn wf(&self) -> bool {
        self.min.x <= self.max.x && self.min.y <= self.max.y && self.min.z <= self.max.z
    }

    /// The outward unit normal of the face that `point` lies on.
    pub fn normal_at(&self, point: &Vec3) -> (n: Vec3)
        ensures
            n == face_normal(*self, *point),
            is_axis_unit(n),
    {
        if is_close(point.x, self.min.x) {
            Vec3::new(-SCALE, 0, 0)
        } else if is_close(point.x, self.max.x) {
            Vec3::new(SCALE, 0, 0)
        } else if is_close(point.y, self.min.y) {
            Vec3::new(0, -SCALE, 0)
        } else if is_close(point.y, self.max.y) {
            Vec3::new(0, SCALE, 0)
        } else if is_close(point.z, self.min.z) {
            Vec3::new(0, 0, -SCALE)
        } else {
            Vec3::new(0, 0, SCALE)
        }
    }

    /// The surface coordinates of `point` on the face with normal `normal`.
    pub fn surface_coordinates(&self, point: &Vec3, normal: &Vec3) -> (uv: (i64, i64))
        ensures
            uv.0 == face_u(*self, *point, *normal),
            uv.1 == face_v(*self, *point, *normal),
    {
        if normal.x != 0 {
            (
                fraction_of_span(point.z, self.min.z, self.max.z),
                fraction_of_span(point.y, self.min.y, self.max.y),
            )
        } else if normal.y != 0 {
            (
                fraction_of_span(point.x, self.min.x, self.max.x),
                fraction_of_span(point.z, self.min.z, self.max.z),
            )
        } else {
            (
                fraction_of_span(point.x, self.min.x, self.max.x),
                fraction_of_span(point.y, self.min.y, self.max.y),
            )
        }
    }

    /// Finds where the ray from `origin` along `direction` enters the box.
    ///
    /// The ray meets the box when the parameter at which it has entered all
    /// three slabs is not negative and not beyond the parameter at which it
    /// leaves the first of them. The record then holds that parameter as the
    /// distance, the point reached, the normal of the face there, and the
    /// surface coordinates on that face. A ray that starts inside the box
    /// meets nothing of it.
    pub fn ray_intersect<'a>(&'a self, origin: &Vec3, direction: &Vec3) -> (hit: Intersect<'a>)
        ensures
            hit == cube_hit(self, *origin, *direction),
            hit.is_intersecting == ray_meets(*self, *origin, *direction),
            hit.is_intersecting ==> 0 <= hit.distance && is_axis_unit(hit.normal),
            !hit.is_intersecting ==> hit == no_hit(),
    {
        let sx = slab(self.min.x, self.max.x, origin.x, direction.x);
        let sy = slab(self.min.y, self.max.y, origin.y, direction.y);
        let sz = slab(self.min.z, self.max.z, origin.z, direction.z);
        let mut t_near: i64 = sx.0;
        if sy.0 > t_near {
            t_near = sy.0;
        }
        if sz.0 > t_near {
            t_near = sz.0;
        }
        let mut t_far: i64 = sx.1;
        if sy.1 < t_far {
            t_far = sy.1;
        }
        if sz.1 < t_far {
            t_far = sz.1;
        }
        if t_near < 0 || t_near > t_far {
            return Intersect::empty();
        }
        let point = origin.along(direction, t_near);
        let normal = self.normal_at(&point);
        let uv = self.surface_coordinates(&point, &normal);
        Intersect::new(point, normal, t_near, &self.material, uv.0, uv.1)
    }
}

/// The point lies strictly outside the box on at least one axis.
pub open spec fn outside(c: Cube, o: Vec3) -> bool {
    ||| o.x < c.min.x
    ||| o.x > c.max.x
    ||| o.y < c.min.y
    ||| o.y > c.max.y
    ||| o.z < c.min.z
    ||| o.z > c.max.z
}

/// Twice the vector from the point `o` to the center of the box, exact.
pub open spec fn twice_to_center(c: Cube, o: Vec3) -> (int, int, int) {
    (c.min.x + c.max.x - 2 * o.x, c.min.y + c.max.y - 2 * o.y, c.min.z + c.max.z - 2 * o.z)
}

/// The direction `d` points from `o` exactly at the center of the box: it
/// is not zero, parallel to the vector to the center, and of the same sense.
pub open spec fn aims_at_center(c: Cube, o: Vec3, d: Vec3) -> bool {
    let t = twice_to_center(c, o);
    &&& d.x != 0 || d.y != 0 || d.z != 0
    &&& d.x * t.1 == d.y * t.0
    &&& d.y * t.2 == d.z * t.1
    &&& d.z * t.0 == d.x * t.2
    &&& d.x * t.0 >= 0
    &&& d.y * t.1 >= 0
    &&& d.z * t.2 >= 0
}

/// The ray parameter of the center of a slab, for a ray that moves on the
/// axis: `toward` is twice the way from the origin to the center.
spec fn center_param(toward: int, d: int) -> int {
    sat(floor_div(toward * SCALE, 2 * d))
}

/// On an axis on which the ray moves toward the center of the slab, it is
/// inside the slab when it is level with the center.
proof fn lemma_slab_holds_center(lo: int, hi: int, o: int, d: int)
    requires
        lo <= hi,
        d != 0,
    ensures
        slab_enter(lo, hi, o, d) <= center_param(lo + hi - 2 * o, d) <= slab_leave(lo, hi, o, d),
{
    let toward = lo + hi - 2 * o;
    assert(((lo - o) * SCALE) * (2 * d) == (2 * ((lo - o) * SCALE)) * d) by (nonlinear_arith);
    lemma_floor_div_of_equal_fractions((lo - o) * SCALE, d, 2 * ((lo - o) * SCALE), 2 * d);
    assert(((hi - o) * SCALE) * (2 * d) == (2 * ((hi - o) * SCALE)) * d) by (nonlinear_arith);
    lemma_floor_div_of_equal_fractions((hi - o) * SCALE, d, 2 * ((hi - o) * SCALE), 2 * d);
    if d > 0 {
        lemma_floor_div_monotone(2 * ((lo - o) * SCALE), toward * SCALE, 2 * d);
        lemma_floor_div_monotone(toward * SCALE, 2 * ((hi - o) * SCALE), 2 * d);
    } else {
        lemma_floor_div_monotone(-(toward * SCALE), -(2 * ((lo - o) * SCALE)), -(2 * d));
        lemma_floor_div_monotone(-(2 * ((hi - o) * SCALE)), -(toward * SCALE), -(2 * d));
    }
}

/// On an axis on which the origin lies strictly outside the slab and the ray
/// moves toward the slab's center by at most one per unit, the ray enters
/// the slab at a positive parameter.
proof fn lemma_slab_entered_late(lo: int, hi: int, o: int, d: int)
    requires
        lo <= hi,
        o < lo || o > hi,
        d != 0,
        d * (lo + hi - 2 * o) >= 0,
        -SCALE <= d <= SCALE,
    ensures
        slab_enter(lo, hi, o, d) >= 1,
{
    let toward = lo + hi - 2 * o;
    if o < lo {
        assert(d > 0) by (nonlinear_arith)
            requires
                d != 0,
                d * toward >= 0,
                toward > 0,
        ;
        lemma_floor_div_monotone(d, (lo - o) * SCALE, d);
        lemma_floor_div_monotone(d, (hi - o) * SCALE, d);
        assert(1 * d <= d < (1 + 1) * d) by (nonlinear_arith)
            requires
                d >= 1,
        ;
        lemma_floor_div_unique(d, d, 1);
    } else {
        assert(d < 0) by (nonlinear_arith)
            requires
                d != 0,
                d * toward >= 0,
                toward < 0,
        ;
        lemma_floor_div_monotone(-d, -((lo - o) * SCALE), -d);
        lemma_floor_div_monotone(-d, -((hi - o) * SCALE), -d);
        assert(1 * (-d) <= -d < (1 + 1) * (-d)) by (nonlinear_arith)
            requires
                -d >= 1,
        ;
        lemma_floor_div_unique(-d, -d, 1);
    }
}

/// On two axes on which the ray moves, a ray aimed at the center is level
/// with the center at the same parameter.
proof fn lemma_center_params_agree(t1: int, d1: int, t2: int, d2: int)
    requires
        d1 != 0,
        d2 != 0,
        d1 * t2 == d2 * t1,
    ensures
        center_param(t1, d1) == center_param(t2, d2),
{
    assert((t1 * SCALE) * (2 * d2) == (t2 * SCALE) * (2 * d1)) by (nonlinear_arith)
        requires
            d1 * t2 == d2 * t1,
    ;
    lemma_floor_div_of_equal_fractions(t1 * SCALE, 2 * d1, t2 * SCALE, 2 * d2);
}

/// A ray fired from strictly outside a box straight at its center, along a
/// direction no coordinate of which exceeds one, meets the box: the record
/// is a hit at a positive distance whose normal is one of the six signed
/// unit vectors along the axes.
pub proof fn lemma_ray_at_center_hits(c: Cube, o: Vec3, d: Vec3)
    requires
        c.wf(),
        outside(c, o),
        aims_at_center(c, o, d),
        at_most_unit(d),
    ensures
        cube_hit(&c, o, d).is_intersecting,
        cube_hit(&c, o, d).distance > 0,
        is_axis_unit(cube_hit(&c, o, d).normal),
{
    let t = twice_to_center(c, o);
    // An axis on which the origin is outside: the ray moves on it.
    let out_x = o.x < c.min.x || o.x > c.max.x;
    let out_y = o.y < c.min.y || o.y > c.max.y;
    let out_z = o.z < c.min.z || o.z > c.max.z;
    assert(out_x ==> t.0 != 0);
    assert(out_y ==> t.1 != 0);
    assert(out_z ==> t.2 != 0);
    // Where the vector to the center has a coordinate, so has the direction,
    // and the other way round.
    assert(t.0 != 0 ==> d.x != 0) by (nonlinear_arith)
        requires
            d.x * t.1 == d.y * t.0,
            d.z * t.0 == d.x * t.2,
            d.x != 0 || d.y != 0 || d.z != 0,
    ;
    assert(t.1 != 0 ==> d.y != 0) by (nonlinear_arith)
        requires
            d.x * t.1 == d.y * t.0,
            d.y * t.2 == d.z * t.1,
            d.x != 0 || d.y != 0 || d.z != 0,
    ;
    assert(t.2 != 0 ==> d.z != 0) by (nonlinear_arith)
        requires
            d.y * t.2 == d.z * t.1,
            d.z * t.0 == d.x * t.2,
            d.x != 0 || d.y != 0 || d.z != 0,
    ;
    assert(d.x == 0 ==> t.0 == 0) by (nonlinear_arith)
        requires
            out_x ==> d.x != 0,
            out_y ==> d.y != 0,
            out_z ==> d.z != 0,
            out_x || out_y || out_z,
            out_y ==> t.1 != 0,
            out_z ==> t.2 != 0,
            d.x * t.1 == d.y * t.0,
            d.z * t.0 == d.x * t.2,
    ;
    assert(d.y == 0 ==> t.1 == 0) by (nonlinear_arith)
        requires
            out_x ==> d.x != 0,
            out_y ==> d.y != 0,
            out_z ==> d.z != 0,
            out_x || out_y || out_z,
            out_x ==> t.0 != 0,
            out_z ==> t.2 != 0,
            d.x * t.1 == d.y * t.0,
            d.y * t.2 == d.z * t.1,
    ;
    assert(d.z == 0 ==> t.2 == 0) by (nonlinear_arith)
        requires
            out_x ==> d.x != 0,
            out_y ==> d.y != 0,
            out_z ==> d.z != 0,
            out_x || out_y || out_z,
            out_x ==> t.0 != 0,
            out_y ==> t.1 != 0,
            d.y * t.2 == d.z * t.1,
            d.z * t.0 == d.x * t.2,
    ;
    // The parameter at which the ray is level with the center.
    let level = if out_x {
        center_param(t.0, d.x as int)
    } else if out_y {
        center_param(t.1, d.y as int)
    } else {
        center_param(t.2, d.z as int)
    };
    let ex = slab_enter(c.min.x as int, c.max.x as int, o.x as int, d.x as int);
    let lx = slab_leave(c.min.x as int, c.max.x as int, o.x as int, d.x as int);
    let ey = slab_enter(c.min.y as int, c.max.y as int, o.y as int, d.y as int);
    let ly = slab_leave(c.min.y as int, c.max.y as int, o.y as int, d.y as int);
    let ez = slab_enter(c.min.z as int, c.max.z as int, o.z as int, d.z as int);
    let lz = slab_leave(c.min.z as int, c.max.z as int, o.z as int, d.z as int);
    assert(-FX_MAX <= level <= FX_MAX);
    assert(ex <= level <= lx) by {
        if d.x != 0 {
            lemma_slab_holds_center(c.min.x as int, c.max.x as int, o.x as int, d.x as int);
            if !out_x && out_y {
                lemma_center_params_agree(t.0, d.x as int, t.1, d.y as int);
            } else if !out_x {
                lemma_center_params_agree(t.2, d.z as int, t.0, d.x as int);
            }
        }
    }
    assert(ey <= level <= ly) by {
        if d.y != 0 {
            lemma_slab_holds_center(c.min.y as int, c.max.y as int, o.y as int, d.y as int);
            if out_x {
                lemma_center_params_agree(t.0, d.x as int, t.1, d.y as int);
            } else if !out_y {
                lemma_center_params_agree(t.1, d.y as int, t.2, d.z as int);
            }
        }
    }
    assert(ez <= level <= lz) by {
        if d.z != 0 {
            lemma_slab_holds_center(c.min.z as int, c.max.z as int, o.z as int, d.z as int);
            if out_x {
                lemma_center_params_agree(t.2, d.z as int, t.0, d.x as int);
            } else if out_y {
                lemma_center_params_agree(t.1, d.y as int, t.2, d.z as int);
            }
        }
    }
    assert(ex >= 1 || ey >= 1 || ez >= 1) by {
        if out_x {
            lemma_slab_entered_late(c.min.x as int, c.max.x as int, o.x as int, d.x as int);
        } else if out_y {
            lemma_slab_entered_late(c.min.y as int, c.max.y as int, o.y as int, d.y as int);
        } else {
            lemma_slab_entered_late(c.min.z as int, c.max.z as int, o.z as int, d.z as int);
        }
    }
}

/// A ray that does not move on an axis on which its origin lies outside the
/// box runs past the box: the record is the empty one, with the distance
/// `FX_MAX`.
pub proof fn lemma_parallel_ray_misses(c: Cube, o: Vec3, d: Vec3)
    requires
        ({
            ||| d.x == 0 && !between(c.min.x as int, c.max.x as int, o.x as int)
            ||| d.y == 0 && !between(c.min.y as int, c.max.y as int, o.y as int)
            ||| d.z == 0 && !between(c.min.z as int, c.max.z as int, o.z as int)
        }),
    ensures
        !cube_hit(&c, o, d).is_intersecting,
        cube_hit(&c, o, d).distance == FX_MAX,
        cube_hit(&c, o, d) == no_hit(),
{
}

/// A ray that moves away from a box on an axis on which its origin lies
/// beyond the box leaves the box behind: the record is the empty one.
pub proof fn lemma_receding_ray_misses(c: Cube, o: Vec3, d: Vec3)
    requires
        c.wf(),
        ({
            ||| d.x > 0 && o.x > c.max.x
            ||| d.x < 0 && o.x < c.min.x
            ||| d.y > 0 && o.y > c.max.y
            ||| d.y < 0 && o.y < c.min.y
            ||| d.z > 0 && o.z > c.max.z
            ||| d.z < 0 && o.z < c.min.z
        }),
    ensures
        !cube_hit(&c, o, d).is_intersecting,
        cube_hit(&c, o, d).distance == FX_MAX,
        cube_hit(&c, o, d) == no_hit(),
{
    if d.x > 0 && o.x > c.max.x || d.x < 0 && o.x < c.min.x {
        lemma_slab_left_behind(c.min.x as int, c.max.x as int, o.x as int, d.x as int);
    } else if d.y > 0 && o.y > c.max.y || d.y < 0 && o.y < c.min.y {
        lemma_slab_left_behind(c.min.y as int, c.max.y as int, o.y as int, d.y as int);
    } else {
        lemma_slab_left_behind(c.min.z as int, c.max.z as int, o.z as int, d.z as int);
    }
}

/// On an axis on which the ray moves away from a slab that it starts
/// beyond, it has left the slab before it starts.
proof fn lemma_slab_left_behind(lo: int, hi: int, o: int, d: int)
    requires
        lo <= hi,
        d > 0 && o > hi || d < 0 && o < lo,
    ensures
        slab_leave(lo, hi, o, d) <= -1,
{
    if d > 0 {
        lemma_floor_div_monotone((lo - o) * SCALE, -1, d);
        lemma_floor_div_monotone((hi - o) * SCALE, -1, d);
        assert((-1) * d <= -1 < (-1 + 1) * d) by (nonlinear_arith)
            requires
                d >= 1,
        ;
        lemma_floor_div_unique(-1, d, -1);
    } else {
        lemma_floor_div_monotone(-((lo - o) * SCALE), -1, -d);
        lemma_floor_div_monotone(-((hi - o) * SCALE), -1, -d);
        assert((-1) * (-d) <= -1 < (-1 + 1) * (-d)) by (nonlinear_arith)
            requires
                -d >= 1,
        ;
        lemma_floor_div_unique(-1, -d, -1);
    }
}

/// The largest magnitude of a coordinate for which no ray parameter of a
/// direction of at most unit length saturates: four million.
pub const REACH: i64 = 4_000_000_000_000;

/// Every coordinate of the vector is at most `REACH` in magnitude.
pub open spec fn in_reach(v: Vec3) -> bool {
    &&& -REACH <= v.x <= REACH
    &&& -REACH <= v.y <= REACH
    &&& -REACH <= v.z <= REACH
}

/// The point lies in the box, or at most one raw unit below it.
pub open spec fn on_box(c: Cube, p: Vec3) -> bool {
    &&& c.min.x - 1 <= p.x <= c.max.x
    &&& c.min.y - 1 <= p.y <= c.max.y
    &&& c.min.z - 1 <= p.z <= c.max.z
}

/// The point lies within `FACE_EPSILON` of the plane of the face whose
/// outward normal is `n`.
pub open spec fn on_face(c: Cube, p: Vec3, n: Vec3) -> bool {
    &&& n.x < 0 ==> close(p.x as int, c.min.x as int)
    &&& n.x > 0 ==> close(p.x as int, c.max.x as int)
    &&& n.y < 0 ==> close(p.y as int, c.min.y as int)
    &&& n.y > 0 ==> close(p.y as int, c.max.y as int)
    &&& n.z < 0 ==> close(p.z as int, c.min.z as int)
    &&& n.z > 0 ==> close(p.z as int, c.max.z as int)
}

/// A quotient by a whole number of magnitude at least one is no larger in
/// magnitude than its numerator.
proof fn lemma_quotient_shrinks(x: int, e: int)
    requires
        e > 0,
    ensures
        x >= 0 ==> 0 <= x / e <= x,
        x < 0 ==> x <= x / e <= -1,
{
    lemma_floor_div_bounds(x, e);
    let q = x / e;
    assert(x >= 0 ==> 0 <= q <= x) by (nonlinear_arith)
        requires
            e >= 1,
            q * e <= x < (q + 1) * e,
    ;
    assert(x < 0 ==> x <= q <= -1) by (nonlinear_arith)
        requires
            e >= 1,
            q * e <= x < (q + 1) * e,
    ;
}

/// On one axis, at a parameter at which the ray is inside the slab, its
/// coordinate lies in the slab or at most one raw unit below it; and at the
/// parameter at which it enters the slab, within one raw unit of one of the
/// two planes.
proof fn lemma_slab_point(lo: int, hi: int, o: int, d: int, t: int)
    requires
        lo <= hi,
        -REACH <= lo,
        hi <= REACH,
        -REACH <= o <= REACH,
        -SCALE <= d <= SCALE,
        0 <= t <= FX_MAX,
        slab_enter(lo, hi, o, d) <= t <= slab_leave(lo, hi, o, d),
    ensures
        lo - 1 <= o + (d * t) / (SCALE as int) <= hi,
        d != 0 && t == slab_enter(lo, hi, o, d) ==> close(o + (d * t) / (SCALE as int), lo) || close(
            o + (d * t) / (SCALE as int),
            hi,
        ),
{
    let step = (d * t) / (SCALE as int);
    assert(SCALE * step <= d * t < SCALE * step + SCALE);
    if d == 0 {
        assert(d * t == 0) by (nonlinear_arith)
            requires
                d == 0,
        ;
    } else {
        let e = if d > 0 { d } else { -d };
        let n_lo = if d > 0 { (lo - o) * SCALE } else { (o - lo) * SCALE };
        let n_hi = if d > 0 { (hi - o) * SCALE } else { (o - hi) * SCALE };
        let q_lo = n_lo / e;
        let q_hi = n_hi / e;
        assert(floor_div((lo - o) * SCALE, d) == q_lo);
        assert(floor_div((hi - o) * SCALE, d) == q_hi);
        lemma_quotient_shrinks(n_lo, e);
        lemma_quotient_shrinks(n_hi, e);
        lemma_floor_div_bounds(n_lo, e);
        lemma_floor_div_bounds(n_hi, e);
        assert(crossing(lo, o, d) == q_lo);
        assert(crossing(hi, o, d) == q_hi);
        if d > 0 {
            lemma_floor_div_monotone(n_lo, n_hi, e);
            assert(q_lo <= t <= q_hi);
            assert(d * t > (lo - o - 1) * SCALE) by (nonlinear_arith)
                requires
                    0 < d <= SCALE,
                    q_lo <= t,
                    (lo - o) * SCALE < (q_lo + 1) * d,
            ;
            assert(d * t <= (hi - o) * SCALE) by (nonlinear_arith)
                requires
                    0 < d,
                    t <= q_hi,
                    q_hi * d <= (hi - o) * SCALE,
            ;
            if t == q_lo {
                assert(d * t <= (lo - o) * SCALE) by (nonlinear_arith)
                    requires
                        t == q_lo,
                        q_lo * d <= (lo - o) * SCALE,
                ;
            }
        } else {
            lemma_floor_div_monotone(n_hi, n_lo, e);
            assert(q_hi <= t <= q_lo);
            assert(d * t >= (lo - o) * SCALE) by (nonlinear_arith)
                requires
                    e == -d,
                    e > 0,
                    t <= q_lo,
                    q_lo * e <= (o - lo) * SCALE,
            ;
            assert(d * t < (hi - o + 1) * SCALE) by (nonlinear_arith)
                requires
                    e == -d,
                    0 < e <= SCALE,
                    q_hi <= t,
                    (o - hi) * SCALE < (q_hi + 1) * e,
            ;
            if t == q_hi {
                assert(d * t >= (hi - o) * SCALE) by (nonlinear_arith)
                    requires
                        e == -d,
                        t == q_hi,
                        q_hi * e <= (o - hi) * SCALE,
                ;
            }
        }
    }
}

/// Where a ray along a direction of at most unit length meets a box, and all
/// coordinates are within `REACH`, the hit point lies on the box: in it or
/// at most one raw unit below it on every axis, and within `FACE_EPSILON`
/// of the plane of the face that the normal names. The surface coordinates
/// are at most one in magnitude.
pub proof fn lemma_hit_point_on_box(c: Cube, o: Vec3, d: Vec3)
    requires
        c.wf(),
        in_reach(c.min),
        in_reach(c.max),
        in_reach(o),
        at_most_unit(d),
        cube_hit(&c, o, d).is_intersecting,
    ensures
        on_box(c, cube_hit(&c, o, d).point),
        on_face(c, cube_hit(&c, o, d).point, cube_hit(&c, o, d).normal),
        -SCALE <= cube_hit(&c, o, d).u <= SCALE,
        -SCALE <= cube_hit(&c, o, d).v <= SCALE,
{
    let t = entry_distance(c, o, d);
    lemma_slab_point(c.min.x as int, c.max.x as int, o.x as int, d.x as int, t);
    lemma_slab_point(c.min.y as int, c.max.y as int, o.y as int, d.y as int, t);
    lemma_slab_point(c.min.z as int, c.max.z as int, o.z as int, d.z as int, t);
    let p = point_along(o, d, t);
    assert(p.x == o.x + (d.x * t) / (SCALE as int));
    assert(p.y == o.y + (d.y * t) / (SCALE as int));
    assert(p.z == o.z + (d.z * t) / (SCALE as int));
    let ex = slab_enter(c.min.x as int, c.max.x as int, o.x as int, d.x as int);
    let ey = slab_enter(c.min.y as int, c.max.y as int, o.y as int, d.y as int);
    let ez = slab_enter(c.min.z as int, c.max.z as int, o.z as int, d.z as int);
    assert(t == ex && d.x != 0 || t == ey && d.y != 0 || t == ez && d.z != 0);
    let n = face_normal(c, p);
    assert(on_face(c, p, n));
    lemma_span_fraction_range(p.x as int, c.min.x as int, c.max.x as int);
    lemma_span_fraction_range(p.y as int, c.min.y as int, c.max.y as int);
    lemma_span_fraction_range(p.z as int, c.min.z as int, c.max.z as int);
}

/// The fraction of the way that a point in a slab, or at most one raw unit
/// below it, has gone across the slab is at most one in magnitude.
proof fn lemma_span_fraction_range(p: int, lo: int, hi: int)
    requires
        lo <= hi,
        lo - 1 <= p <= hi,
    ensures
        -SCALE <= span_fraction(p, lo, hi) <= SCALE,
{
    if hi != lo {
        let w = hi - lo;
        lemma_floor_div_monotone((p - lo) * SCALE, w * SCALE, w);
        lemma_floor_div_monotone(-(w * SCALE), (p - lo) * SCALE, w);
        assert(SCALE * w == w * SCALE && (SCALE + 1) * w == w * SCALE + w) by (nonlinear_arith);
        lemma_floor_div_unique(w * SCALE, w, SCALE as int);
        assert((-SCALE) * w == -(w * SCALE) && (-SCALE + 1) * w == -(w * SCALE) + w)
            by (nonlinear_arith);
        lemma_floor_div_unique(-(w * SCALE), w, -SCALE);
    }
}

} // verus!
