//! Fixed-point scalars.
//!
//! A scalar is an `i64` that counts millionths: the raw value `1_000_000`
//! stands for one. Every operation computes its mathematical result in wide
//! integers, rounds once toward negative infinity, and saturates into
//! `[-FX_MAX, FX_MAX]`; `FX_MAX` doubles as "infinitely far".
use vstd::arithmetic::div_mod::lemma_fundamental_div_mod;
use vstd::arithmetic::div_mod::lemma_fundamental_div_mod_converse;
use vstd::prelude::*;

verus! {

/// Raw units in the value one.
pub const SCALE: i64 = 1_000_000;

/// Largest magnitude a scalar takes; also the "no hit" distance.
pub const FX_MAX: i64 = 0x7fff_ffff_ffff_ffff;

/// Clamps a mathematical integer into the scalar range.
pub open spec fn sat(x: int) -> int {
    if x > FX_MAX {
        FX_MAX as int
    } else if x < -FX_MAX {
        -FX_MAX
    } else {
        x
    }
}

/// The quotient `a / b` rounded toward negative infinity, for `b != 0`.
pub open spec fn floor_div(a: int, b: int) -> int
    recommends
        b != 0,
{
    if b > 0 {
        a / b
    } else {
        (-a) / (-b)
    }
}

/// `q` is the floor of `a / b` exactly when `a` lies in the half-open
/// interval that `q` and `q + 1` span on multiples of `b`.
pub proof fn lemma_floor_div_bounds(a: int, b: int)
    requires
        b != 0,
    ensures
        b > 0 ==> floor_div(a, b) * b <= a < (floor_div(a, b) + 1) * b,
        b < 0 ==> floor_div(a, b) * b >= a > (floor_div(a, b) + 1) * b,
{
    if b > 0 {
        lemma_fundamental_div_mod(a, b);
        assert(b * (a / b) == (a / b) * b) by (nonlinear_arith);
        assert((a / b + 1) * b == (a / b) * b + b) by (nonlinear_arith);
    } else {
        let m = -b;
        let q = (-a) / m;
        lemma_fundamental_div_mod(-a, m);
        assert(m * q == -(q * b)) by (nonlinear_arith)
            requires
                m == -b,
        ;
        assert((q + 1) * b == q * b + b) by (nonlinear_arith);
    }
}

/// Any `q` whose interval on multiples of `b` holds `a` is the floor of `a / b`.
pub proof fn lemma_floor_div_unique(a: int, b: int, q: int)
    requires
        b > 0,
        q * b <= a < (q + 1) * b,
    ensures
        floor_div(a, b) == q,
{
    assert((q + 1) * b == q * b + b) by (nonlinear_arith);
    lemma_fundamental_div_mod_converse(a, b, q, a - q * b);
}

/// Rounding down keeps order: a larger numerator over the same positive
/// denominator never gives a smaller quotient.
pub proof fn lemma_floor_div_monotone(a1: int, a2: int, b: int)
    requires
        b > 0,
        a1 <= a2,
    ensures
        floor_div(a1, b) <= floor_div(a2, b),
{
    lemma_floor_div_bounds(a1, b);
    lemma_floor_div_bounds(a2, b);
    let q1 = floor_div(a1, b);
    let q2 = floor_div(a2, b);
    assert(q1 <= q2) by (nonlinear_arith)
        requires
            b > 0,
            q1 * b <= a1,
            a1 <= a2,
            a2 < (q2 + 1) * b,
    ;
}

/// Two fractions of equal value have equal floors.
pub proof fn lemma_floor_div_of_equal_fractions(a1: int, b1: int, a2: int, b2: int)
    requires
        b1 != 0,
        b2 != 0,
        a1 * b2 == a2 * b1,
    ensures
        floor_div(a1, b1) == floor_div(a2, b2),
{
    let n1 = if b1 > 0 { a1 } else { -a1 };
    let m1 = if b1 > 0 { b1 } else { -b1 };
    let n2 = if b2 > 0 { a2 } else { -a2 };
    let m2 = if b2 > 0 { b2 } else { -b2 };
    assert(n1 * m2 == n2 * m1) by (nonlinear_arith)
        requires
            a1 * b2 == a2 * b1,
            n1 == a1 && m1 == b1 || n1 == -a1 && m1 == -b1,
            n2 == a2 && m2 == b2 || n2 == -a2 && m2 == -b2,
    ;
    let q = floor_div(n1, m1);
    lemma_floor_div_bounds(n1, m1);
    assert(q * m2 <= n2 < (q + 1) * m2) by (nonlinear_arith)
        requires
            m1 > 0,
            m2 > 0,
            n1 * m2 == n2 * m1,
            q * m1 <= n1 < (q + 1) * m1,
    ;
    lemma_floor_div_unique(n2, m2, q);
}

/// Saturates a wide integer into the scalar range.
pub fn saturate(x: i128) -> (r: i64)
    ensures
        r == sat(x as int),
{
    if x > FX_MAX as i128 {
        FX_MAX
    } else if x < -(FX_MAX as i128) {
        -FX_MAX
    } else {
        x as i64
    }
}

/// Floor division on wide integers.
pub fn wide_floor_div(a: i128, b: i128) -> (q: i128)
    requires
        b != 0,
        a > i128::MIN,
        b > i128::MIN,
    ensures
        q == floor_div(a as int, b as int),
{
    let ua: u128 = if a < 0 { (-a) as u128 } else { a as u128 };
    let ub: u128 = if b < 0 { (-b) as u128 } else { b as u128 };
    let uq: u128 = ua / ub;
    let ur: u128 = ua % ub;
    proof {
        lemma_fundamental_div_mod(ua as int, ub as int);
        assert(ub * uq == uq * ub) by (nonlinear_arith);
        assert(uq <= ua) by (nonlinear_arith)
            requires
                ua == uq * ub + ur,
                ub >= 1,
                uq >= 0,
                ur >= 0,
        ;
    }
    let same_sign: bool = (a < 0) == (b < 0);
    if same_sign {
        proof {
            if b > 0 {
                assert(a as int == ua as int && b as int == ub as int);
            } else {
                assert(-(a as int) == ua as int && -(b as int) == ub as int);
            }
        }
        uq as i128
    } else if ur == 0 {
        proof {
            assert(-(ua as int) == (-(uq as int)) * (ub as int)) by (nonlinear_arith)
                requires
                    ua == uq * ub,
            ;
            lemma_fundamental_div_mod_converse(-(ua as int), ub as int, -(uq as int), 0);
        }
        -(uq as i128)
    } else {
        proof {
            let r2: int = ub as int - ur as int;
            assert(-(ua as int) == (-(uq as int) - 1) * (ub as int) + r2) by (nonlinear_arith)
                requires
                    ua == uq * ub + ur,
                    r2 == ub - ur,
            ;
            lemma_fundamental_div_mod_converse(-(ua as int), ub as int, -(uq as int) - 1, r2);
        }
        -(uq as i128) - 1
    }
}

/// The sum of two scalars.
pub open spec fn sum(a: int, b: int) -> int {
    sat(a + b)
}

/// The difference of two scalars.
pub open spec fn difference(a: int, b: int) -> int {
    sat(a - b)
}

/// The negation of a scalar.
pub open spec fn negation(a: int) -> int {
    sat(-a)
}

/// The product of two scalars: `a * b` counted in millionths, rounded down.
pub open spec fn product(a: int, b: int) -> int {
    sat((a * b) / (SCALE as int))
}

/// The quotient of two scalars, rounded down. Dividing by zero gives the
/// extreme of the numerator's sign, and zero for zero over zero.
pub open spec fn quotient(a: int, b: int) -> int {
    if b == 0 {
        if a > 0 {
            FX_MAX as int
        } else if a < 0 {
            -FX_MAX
        } else {
            0
        }
    } else {
        sat(floor_div(a * SCALE, b))
    }
}

/// `v` limited to the interval from `lo` to `hi`.
pub open spec fn clamped(v: int, lo: int, hi: int) -> int {
    if v < lo {
        lo
    } else if v > hi {
        hi
    } else {
        v
    }
}

/// Adds two scalars.
pub fn fx_add(a: i64, b: i64) -> (r: i64)
    ensures
        r == sum(a as int, b as int),
{
    saturate(a as i128 + b as i128)
}

/// Subtracts `b` from `a`.
pub fn fx_sub(a: i64, b: i64) -> (r: i64)
    ensures
        r == difference(a as int, b as int),
{
    saturate(a as i128 - b as i128)
}

/// Negates a scalar.
pub fn fx_neg(a: i64) -> (r: i64)
    ensures
        r == negation(a as int),
{
    saturate(-(a as i128))
}

/// The exact product of two 64-bit values, which always fits 128 bits.
pub fn wide_mul(a: i64, b: i64) -> (p: i128)
    ensures
        p == a * b,
        -0x4000_0000_0000_0000_0000_0000_0000_0000 <= p <= 0x4000_0000_0000_0000_0000_0000_0000_0000,
{
    proof {
        assert(-0x4000_0000_0000_0000_0000_0000_0000_0000 <= a * b
            <= 0x4000_0000_0000_0000_0000_0000_0000_0000) by (nonlinear_arith)
            requires
                -0x8000_0000_0000_0000 <= a <= 0x7fff_ffff_ffff_ffff,
                -0x8000_0000_0000_0000 <= b <= 0x7fff_ffff_ffff_ffff,
        ;
    }
    (a as i128) * (b as i128)
}

/// The difference `a - b` counted in millionths, exact.
pub fn wide_scaled_diff(a: i64, b: i64) -> (n: i128)
    ensures
        n == (a - b) * SCALE,
        -0x1_0000_0000_0000_0000 * 1_000_000 <= n <= 0x1_0000_0000_0000_0000 * 1_000_000,
{
    (a as i128 - b as i128) * 1_000_000
}

/// Multiplies two scalars.
pub fn fx_mul(a: i64, b: i64) -> (r: i64)
    ensures
        r == product(a as int, b as int),
{
    let p: i128 = wide_mul(a, b);
    saturate(wide_floor_div(p, SCALE as i128))
}

/// Divides `a` by `b`.
pub fn fx_div(a: i64, b: i64) -> (r: i64)
    ensures
        r == quotient(a as int, b as int),
{
    if b == 0 {
        if a > 0 {
            FX_MAX
        } else if a < 0 {
            -FX_MAX
        } else {
            0
        }
    } else {
        let n: i128 = wide_mul(a, SCALE);
        saturate(wide_floor_div(n, b as i128))
    }
}

/// Limits `v` to the interval from `lo` to `hi`.
pub fn fx_clamp(v: i64, lo: i64, hi: i64) -> (r: i64)
    ensures
        r == clamped(v as int, lo as int, hi as int),
{
    if v < lo {
        lo
    } else if v > hi {
        hi
    } else {
        v
    }
}

/// `r` is the square root of `n`, rounded down.
pub open spec fn is_floor_sqrt(n: int, r: int) -> bool {
    0 <= r && r * r <= n && n < (r + 1) * (r + 1)
}

/// The square root of a non-negative integer, rounded down.
pub open spec fn floor_sqrt(n: int) -> int {
    choose|r: int| is_floor_sqrt(n, r)
}

/// At most one integer is the rounded-down square root of `n`.
pub proof fn lemma_floor_sqrt_unique(n: int, r1: int, r2: int)
    requires
        is_floor_sqrt(n, r1),
        is_floor_sqrt(n, r2),
    ensures
        r1 == r2,
{
    assert(r1 <= r2) by (nonlinear_arith)
        requires
            0 <= r1,
            0 <= r2,
            r1 * r1 <= n,
            n < (r2 + 1) * (r2 + 1),
    ;
    assert(r2 <= r1) by (nonlinear_arith)
        requires
            0 <= r1,
            0 <= r2,
            r2 * r2 <= n,
            n < (r1 + 1) * (r1 + 1),
    ;
}

/// An integer with the defining property is the rounded-down square root.
pub proof fn lemma_floor_sqrt_is(n: int, r: int)
    requires
        is_floor_sqrt(n, r),
    ensures
        floor_sqrt(n) == r,
{
    lemma_floor_sqrt_unique(n, r, floor_sqrt(n));
}

/// Every non-negative integer has a rounded-down square root.
pub proof fn lemma_floor_sqrt_exists(n: int)
    requires
        n >= 0,
    ensures
        is_floor_sqrt(n, floor_sqrt(n)),
    decreases n,
{
    if n == 0 {
        assert(is_floor_sqrt(0, 0));
    } else {
        lemma_floor_sqrt_exists(n - 1);
        let r = floor_sqrt(n - 1);
        if (r + 1) * (r + 1) <= n {
            assert(n < (r + 2) * (r + 2)) by (nonlinear_arith)
                requires
                    n - 1 < (r + 1) * (r + 1),
                    r >= 0,
            ;
            assert(is_floor_sqrt(n, r + 1));
        } else {
            assert(is_floor_sqrt(n, r));
        }
    }
}

/// Square root of a wide unsigned integer, rounded down.
pub fn isqrt(n: u128) -> (r: u64)
    ensures
        is_floor_sqrt(n as int, r as int),
        r == floor_sqrt(n as int),
{
    let mut lo: u128 = 0;
    let mut hi: u128 = 0x1_0000_0000_0000_0000;
    assert(0x1_0000_0000_0000_0000int * 0x1_0000_0000_0000_0000int
        == 0x1_0000_0000_0000_0000_0000_0000_0000_0000int) by (nonlinear_arith);
    while hi - lo > 1
        invariant
            lo < hi <= 0x1_0000_0000_0000_0000,
            lo * lo <= n,
            n < hi * hi,
        decreases hi - lo,
    {
        let mid: u128 = lo + (hi - lo) / 2;
        assert(mid * mid <= 0xffff_ffff_ffff_ffff * 0xffff_ffff_ffff_ffff) by (nonlinear_arith)
            requires
                0 <= mid <= 0xffff_ffff_ffff_ffff,
        ;
        if mid * mid <= n {
            lo = mid;
        } else {
            hi = mid;
        }
    }
    proof {
        lemma_floor_sqrt_is(n as int, lo as int);
    }
    lo as u64
}

/// The square root of a scalar, rounded down; zero for a negative scalar.
pub open spec fn square_root(a: int) -> int {
    if a <= 0 {
        0
    } else {
        floor_sqrt(a * SCALE)
    }
}

/// Takes the square root of a scalar.
pub fn fx_sqrt(a: i64) -> (r: i64)
    ensures
        r == square_root(a as int),
{
    if a <= 0 {
        0
    } else {
        let n: i128 = wide_mul(a, SCALE);
        assert(n as int == a * SCALE && n > 0) by (nonlinear_arith)
            requires
                n == a * 1_000_000,
                a > 0,
        ;
        let r: u64 = isqrt(n as u128);
        assert(r <= 0x400_0000_0000) by (nonlinear_arith)
            requires
                r * r <= a * 1_000_000,
                a <= 0x7fff_ffff_ffff_ffff,
        ;
        r as i64
    }
}

/// A scalar raised to a whole power by repeated multiplication, each step
/// rounded as `product` rounds.
pub open spec fn power(base: int, n: nat) -> int
    decreases n,
{
    if n == 0 {
        SCALE as int
    } else {
        product(power(base, (n - 1) as nat), base)
    }
}

/// Once a power has reached zero, every higher power is zero.
pub proof fn lemma_power_stays_zero(base: int, m: nat, n: nat)
    requires
        m <= n,
        power(base, m) == 0,
    ensures
        power(base, n) == 0,
    decreases n - m,
{
    if m < n {
        lemma_power_stays_zero(base, m, (n - 1) as nat);
        assert(0 * base == 0) by (nonlinear_arith);
    }
}

/// Raises a scalar to a whole power.
pub fn fx_pow(base: i64, n: u32) -> (r: i64)
    ensures
        r == power(base as int, n as nat),
{
    let mut acc: i64 = SCALE;
    let mut i: u32 = 0;
    while i < n
        invariant
            i <= n,
            acc == power(base as int, i as nat),
        decreases n - i,
    {
        if acc == 0 {
            proof {
                lemma_power_stays_zero(base as int, i as nat, n as nat);
            }
            return 0;
        }
        acc = fx_mul(acc, base);
        i = i + 1;
    }
    acc
}

} // verus!
