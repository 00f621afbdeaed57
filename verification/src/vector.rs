//! Three-dimensional vectors of fixed-point scalars.
use crate::fixed::SCALE;
use crate::fixed::floor_div;
use crate::fixed::floor_sqrt;
use crate::fixed::fx_add;
use crate::fixed::fx_mul;
use crate::fixed::fx_neg;
use crate::fixed::fx_sub;
use crate::fixed::is_floor_sqrt;
use crate::fixed::isqrt;
use crate::fixed::lemma_floor_div_monotone;
use crate::fixed::lemma_floor_div_unique;
use crate::fixed::lemma_floor_sqrt_exists;
use crate::fixed::product;
use crate::fixed::sat;
use crate::fixed::saturate;
use crate::fixed::wide_floor_div;
use crate::fixed::wide_mul;
use vstd::prelude::*;

verus! {

/// A point or a direction; each coordinate is a fixed-point scalar.
#[derive(Clone, Copy, Debug, PartialEq, Eq, Structural)]
pub struct Vec3 {
    pub x: i64,
    pub y: i64,
    pub z: i64,
}

/// The vector with the given coordinates, each first saturated into the
/// scalar range.
pub open spec fn vec3(x: int, y: int, z: int) -> Vec3 {
    Vec3 { x: sat(x) as i64, y: sat(y) as i64, z: sat(z) as i64 }
}

/// Coordinate-wise sum.
pub open spec fn vec_sum(a: Vec3, b: Vec3) -> Vec3 {
    vec3(a.x + b.x, a.y + b.y, a.z + b.z)
}

/// Coordinate-wise difference.
pub open spec fn vec_diff(a: Vec3, b: Vec3) -> Vec3 {
    vec3(a.x - b.x, a.y - b.y, a.z - b.z)
}

/// The opposite vector.
pub open spec fn vec_neg(a: Vec3) -> Vec3 {
    vec3(-a.x, -a.y, -a.z)
}

/// The vector stretched by the scalar `k`.
pub open spec fn vec_scaled(a: Vec3, k: int) -> Vec3 {
    Vec3 {
        x: product(a.x as int, k) as i64,
        y: product(a.y as int, k) as i64,
        z: product(a.z as int, k) as i64,
    }
}

/// The dot product: each coordinate product is rounded down to millionths,
/// then the three are added.
pub open spec fn dot_product(a: Vec3, b: Vec3) -> int {
    sat((a.x * b.x) / (SCALE as int) + (a.y * b.y) / (SCALE as int) + (a.z * b.z) / (SCALE as int))
}

/// The cross product: each coordinate product is rounded down to
/// millionths before the two of a coordinate are subtracted.
pub open spec fn cross_product(a: Vec3, b: Vec3) -> Vec3 {
    vec3(
        (a.y * b.z) / (SCALE as int) - (a.z * b.y) / (SCALE as int),
        (a.z * b.x) / (SCALE as int) - (a.x * b.z) / (SCALE as int),
        (a.x * b.y) / (SCALE as int) - (a.y * b.x) / (SCALE as int),
    )
}

/// The squared length in squared raw units, exact.
pub open spec fn norm_squared(a: Vec3) -> int {
    a.x * a.x + a.y * a.y + a.z * a.z
}

/// The length in raw units, rounded down, before saturation.
pub open spec fn raw_length(a: Vec3) -> int {
    floor_sqrt(norm_squared(a))
}

/// The length as a scalar.
pub open spec fn magnitude(a: Vec3) -> int {
    sat(raw_length(a))
}

/// The vector divided by its length; the zero vector stays zero.
pub open spec fn normalized(a: Vec3) -> Vec3 {
    let len = raw_length(a);
    if len == 0 {
        a
    } else {
        vec3(
            floor_div(a.x * SCALE, len),
            floor_div(a.y * SCALE, len),
            floor_div(a.z * SCALE, len),
        )
    }
}

/// No coordinate of the vector exceeds one in magnitude, as is the case for
/// every vector of length one.
pub open spec fn at_most_unit(d: Vec3) -> bool {
    &&& -SCALE <= d.x <= SCALE
    &&& -SCALE <= d.y <= SCALE
    &&& -SCALE <= d.z <= SCALE
}

/// A coordinate is no longer than the vector it belongs to, so dividing it
/// by the vector's length gives at most one in magnitude.
proof fn lemma_coordinate_over_length(c: int, rest: int, len: int)
    requires
        0 <= rest,
        len > 0,
        is_floor_sqrt(c * c + rest, len),
    ensures
        -SCALE <= floor_div(c * SCALE, len) <= SCALE,
{
    assert(-len <= c <= len) by (nonlinear_arith)
        requires
            c * c + rest < (len + 1) * (len + 1),
            0 <= rest,
            len > 0,
    ;
    lemma_floor_div_monotone(c * SCALE, len * SCALE, len);
    lemma_floor_div_monotone(-(len * SCALE), c * SCALE, len);
    assert(SCALE * len == len * SCALE && (SCALE + 1) * len == len * SCALE + len) by (nonlinear_arith);
    lemma_floor_div_unique(len * SCALE, len, SCALE as int);
    assert((-SCALE) * len == -(len * SCALE) && (-SCALE + 1) * len == -(len * SCALE) + len)
        by (nonlinear_arith);
    lemma_floor_div_unique(-(len * SCALE), len, -SCALE);
}

/// No coordinate of a normalized vector exceeds one in magnitude.
pub proof fn lemma_normalized_at_most_unit(a: Vec3)
    ensures
        at_most_unit(normalized(a)),
{
    let len = raw_length(a);
    assert(a.x * a.x >= 0 && a.y * a.y >= 0 && a.z * a.z >= 0) by (nonlinear_arith);
    lemma_floor_sqrt_exists(norm_squared(a));
    if len == 0 {
        assert((len + 1) * (len + 1) == 1) by (nonlinear_arith)
            requires
                len == 0,
        ;
        assert(a.x == 0 && a.y == 0 && a.z == 0) by (nonlinear_arith)
            requires
                a.x * a.x + a.y * a.y + a.z * a.z < 1,
                a.x * a.x >= 0 && a.y * a.y >= 0 && a.z * a.z >= 0,
        ;
    } else {
        lemma_coordinate_over_length(a.x as int, a.y * a.y + a.z * a.z, len);
        lemma_coordinate_over_length(a.y as int, a.x * a.x + a.z * a.z, len);
        lemma_coordinate_over_length(a.z as int, a.x * a.x + a.y * a.y, len);
    }
}

/// The point reached from `origin` after travelling `t` along `direction`.
pub open spec fn point_along(origin: Vec3, direction: Vec3, t: int) -> Vec3 {
    vec3(
        origin.x + (direction.x * t) / (SCALE as int),
        origin.y + (direction.y * t) / (SCALE as int),
        origin.z + (direction.z * t) / (SCALE as int),
    )
}

/// One coordinate of `point_along`.
fn coordinate_along(o: i64, d: i64, t: i64) -> (r: i64)
    ensures
        r == sat(o + (d * t) / (SCALE as int)),
{
    let step: i128 = wide_floor_div(wide_mul(d, t), SCALE as i128);
    saturate(o as i128 + step)
}

/// One coordinate of `normalized`, for a vector of raw length `len`.
fn coordinate_over(c: i64, len: u64) -> (r: i64)
    requires
        len > 0,
    ensures
        r == sat(floor_div(c * SCALE, len as int)),
{
    saturate(wide_floor_div(wide_mul(c, SCALE), len as i128))
}

/// One coordinate of `cross_product`.
fn coordinate_across(a1: i64, b1: i64, a2: i64, b2: i64) -> (r: i64)
    ensures
        r == sat((a1 * b1) / (SCALE as int) - (a2 * b2) / (SCALE as int)),
{
    let p: i128 = wide_floor_div(wide_mul(a1, b1), SCALE as i128);
    let q: i128 = wide_floor_div(wide_mul(a2, b2), SCALE as i128);
    saturate(p - q)
}

impl Vec3 {
    /// Builds a vector from its coordinates.
    pub fn new(x: i64, y: i64, z: i64) -> (v: Vec3)
        ensures
            v == (Vec3 { x, y, z }),
    {
        Vec3 { x, y, z }
    }

    /// The zero vector.
    pub fn zeros() -> (v: Vec3)
        ensures
            v == (Vec3 { x: 0, y: 0, z: 0 }),
    {
        Vec3 { x: 0, y: 0, z: 0 }
    }

    /// Adds `other`.
    pub fn add(&self, other: &Vec3) -> (v: Vec3)
        ensures
            v == vec_sum(*self, *other),
    {
        Vec3 { x: fx_add(self.x, other.x), y: fx_add(self.y, other.y), z: fx_add(self.z, other.z) }
    }

    /// Subtracts `other`.
    pub fn sub(&self, other: &Vec3) -> (v: Vec3)
        ensures
            v == vec_diff(*self, *other),
    {
        Vec3 { x: fx_sub(self.x, other.x), y: fx_sub(self.y, other.y), z: fx_sub(self.z, other.z) }
    }

    /// The opposite vector.
    pub fn neg(&self) -> (v: Vec3)
        ensures
            v == vec_neg(*self),
    {
        Vec3 { x: fx_neg(self.x), y: fx_neg(self.y), z: fx_neg(self.z) }
    }

    /// Stretches by the scalar `k`.
    pub fn scale(&self, k: i64) -> (v: Vec3)
        ensures
            v == vec_scaled(*self, k as int),
    {
        Vec3 { x: fx_mul(self.x, k), y: fx_mul(self.y, k), z: fx_mul(self.z, k) }
    }

    /// The dot product with `other`.
    pub fn dot(&self, other: &Vec3) -> (r: i64)
        ensures
            r == dot_product(*self, *other),
    {
        let px: i128 = wide_floor_div(wide_mul(self.x, other.x), SCALE as i128);
        let py: i128 = wide_floor_div(wide_mul(self.y, other.y), SCALE as i128);
        let pz: i128 = wide_floor_div(wide_mul(self.z, other.z), SCALE as i128);
        saturate(px + py + pz)
    }

    /// The cross product with `other`.
    pub fn cross(&self, other: &Vec3) -> (v: Vec3)
        ensures
            v == cross_product(*self, *other),
    {
        Vec3 {
            x: coordinate_across(self.y, other.z, self.z, other.y),
            y: coordinate_across(self.z, other.x, self.x, other.z),
            z: coordinate_across(self.x, other.y, self.y, other.x),
        }
    }

    /// The length before saturation, in raw units.
    fn length_raw(&self) -> (r: u64)
        ensures
            r == raw_length(*self),
            is_floor_sqrt(norm_squared(*self), r as int),
    {
        let sx: i128 = wide_mul(self.x, self.x);
        let sy: i128 = wide_mul(self.y, self.y);
        let sz: i128 = wide_mul(self.z, self.z);
        proof {
            assert(self.x * self.x >= 0) by (nonlinear_arith);
            assert(self.y * self.y >= 0) by (nonlinear_arith);
            assert(self.z * self.z >= 0) by (nonlinear_arith);
        }
        isqrt(sx as u128 + sy as u128 + sz as u128)
    }

    /// The length.
    pub fn magnitude(&self) -> (r: i64)
        ensures
            r == magnitude(*self),
    {
        let len: u64 = self.length_raw();
        saturate(len as i128)
    }

    /// The vector of length one that points the same way; the zero vector
    /// stays zero.
    pub fn normalize(&self) -> (v: Vec3)
        ensures
            v == normalized(*self),
            at_most_unit(v),
    {
        let len: u64 = self.length_raw();
        proof {
            lemma_normalized_at_most_unit(*self);
        }
        if len == 0 {
            *self
        } else {
            Vec3 {
                x: coordinate_over(self.x, len),
                y: coordinate_over(self.y, len),
                z: coordinate_over(self.z, len),
            }
        }
    }

    /// The point reached from here after travelling `t` along `direction`.
    pub fn along(&self, direction: &Vec3, t: i64) -> (p: Vec3)
        ensures
            p == point_along(*self, *direction, t as int),
    {
        Vec3 {
            x: coordinate_along(self.x, direction.x, t),
            y: coordinate_along(self.y, direction.y, t),
            z: coordinate_along(self.z, direction.z, t),
        }
    }
}

} // verus!
