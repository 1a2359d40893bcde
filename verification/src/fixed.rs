//! Saturating fixed-point arithmetic on `i128` raw values.
//!
//! A raw value stands for `raw / SCALE` in the simulated unit (metres,
//! metres per second, kilograms, seconds). Results of the saturating
//! operations always lie in `[-LIMIT, LIMIT]`; divisions truncate toward
//! zero, as the contracts state exactly.

use vstd::prelude::*;
use vstd::arithmetic::div_mod::lemma_fundamental_div_mod;
use vstd::arithmetic::mul::lemma_mul_inequality;

verus! {

/// Raw fixed-point values carry this many sub-units per unit.
pub const SCALE: i128 = 1_000_000;

/// Saturation bound for kinematic quantities (positions, velocities,
/// accelerations, time deltas). Chosen so that any product of two bounded
/// values, and any sum of two squared pairwise offsets, fits in `i128`.
pub const LIMIT: i128 = 4_500_000_000_000_000_000;

/// Pairwise distances below this raw value (one millimetre) are raised to
/// this value before dividing by a distance, so a pair of coincident or
/// nearly coincident bodies never divides by zero.
pub const DIST_FLOOR: i128 = 1_000;

/// Largest admissible raw mass. Chosen so that the scaled gravitational
/// parameter of any pair of admissible masses stays within `i128` through
/// every intermediate product of the acceleration formula.
pub const MASS_LIMIT: i128 = 4_000_000_000_000_000_000_000_000_000_000_000_000;

/// Gravitational constant as the exact rational `G_NUM / G_DEN`
/// (6.67430e-11 in SI units).
pub const G_NUM: i128 = 66_743;

/// See [`G_NUM`].
pub const G_DEN: i128 = 1_000_000_000_000_000;

/// A kinematic raw value the saturating operations accept and produce.
pub open spec fn in_range(x: int) -> bool {
    -(LIMIT as int) <= x <= LIMIT as int
}

/// Clamp an unbounded integer into `[-LIMIT, LIMIT]`.
pub open spec fn sat(x: int) -> int {
    if x > LIMIT as int {
        LIMIT as int
    } else if x < -(LIMIT as int) {
        -(LIMIT as int)
    } else {
        x
    }
}

/// Division truncating toward zero, for a positive divisor; this is the
/// behaviour of machine division, whereas `/` on `int` rounds toward
/// negative infinity.
pub open spec fn div_tz(a: int, b: int) -> int
    recommends
        b > 0,
{
    if a >= 0 {
        a / b
    } else {
        -((-a) / b)
    }
}

/// Fixed-point product: rescale the raw product and saturate.
pub open spec fn mul_fp(a: int, b: int) -> int {
    sat(div_tz(a * b, SCALE as int))
}

/// `r` is the integer square root of `n` rounded down.
pub open spec fn is_sqrt(n: int, r: int) -> bool {
    0 <= r && r * r <= n && n < (r + 1) * (r + 1)
}

/// The integer square root of a non-negative integer, rounded down.
pub open spec fn sqrt_floor(n: int) -> int {
    choose|r: int| is_sqrt(n, r)
}

/// The square root rounded down is unique.
pub proof fn lemma_sqrt_unique(n: int, r1: int, r2: int)
    requires
        is_sqrt(n, r1),
        is_sqrt(n, r2),
    ensures
        r1 == r2,
{
    if r1 < r2 {
        assert((r1 + 1) * (r1 + 1) <= r2 * r2) by (nonlinear_arith)
            requires
                0 <= r1,
                0 <= r2,
                r1 < r2,
        ;
    }
    if r2 < r1 {
        assert((r2 + 1) * (r2 + 1) <= r1 * r1) by (nonlinear_arith)
            requires
                0 <= r1,
                0 <= r2,
                r2 < r1,
        ;
    }
}

/// Any value whose square is at most `n` is at most the square root of `n`.
pub proof fn lemma_sqrt_dominates(n: int, r: int, x: int)
    requires
        is_sqrt(n, r),
        x * x <= n,
    ensures
        -r <= x <= r,
{
    if x > r {
        assert((r + 1) * (r + 1) <= x * x) by (nonlinear_arith)
            requires
                0 <= r,
                r < x,
        ;
    }
    if x < -r {
        assert((r + 1) * (r + 1) <= x * x) by (nonlinear_arith)
            requires
                0 <= r,
                x < -r,
        ;
    }
}

/// Magnitude bound for a product of bounded factors.
pub proof fn lemma_mul_magnitude(a: int, b: int, ab: int, bb: int)
    requires
        -ab <= a <= ab,
        -bb <= b <= bb,
    ensures
        -(ab * bb) <= a * b <= ab * bb,
{
    assert(-(ab * bb) <= a * b <= ab * bb) by (nonlinear_arith)
        requires
            -ab <= a <= ab,
            -bb <= b <= bb,
    ;
}

/// Truncating division shrinks magnitudes and keeps the dividend's sign.
pub proof fn lemma_div_tz_magnitude(a: int, b: int, ab: int)
    requires
        b > 0,
        -ab <= a <= ab,
        0 <= ab,
    ensures
        -ab <= div_tz(a, b) <= ab,
        a >= 0 ==> 0 <= div_tz(a, b) <= a,
        a <= 0 ==> a <= div_tz(a, b) <= 0,
{
    if a >= 0 {
        lemma_div_bounds_nonneg(a, b);
    } else {
        lemma_div_bounds_nonneg(-a, b);
    }
}

/// Euclidean division of non-negative integers lies between zero and the
/// dividend.
pub proof fn lemma_div_bounds_nonneg(a: int, b: int)
    requires
        a >= 0,
        b > 0,
    ensures
        0 <= a / b <= a,
{
    lemma_fundamental_div_mod(a, b);
    assert(0 <= a / b <= a) by (nonlinear_arith)
        requires
            a >= 0,
            b > 0,
            a == b * (a / b) + a % b,
            0 <= a % b < b,
    ;
}

/// Multiplying a truncated quotient back by the divisor stays at or below
/// the original non-negative dividend.
pub proof fn lemma_div_mul_le(a: int, b: int)
    requires
        a >= 0,
        b > 0,
    ensures
        (a / b) * b <= a,
{
    lemma_fundamental_div_mod(a, b);
    assert((a / b) * b <= a) by (nonlinear_arith)
        requires
            a == b * (a / b) + a % b,
            0 <= a % b,
    ;
}

/// A non-negative quotient is capped by any `cap` whose product with the
/// divisor dominates the dividend.
pub proof fn lemma_div_cap(a: int, b: int, cap: int)
    requires
        b > 0,
        cap >= 0,
        0 <= a <= cap * b,
    ensures
        0 <= a / b <= cap,
{
    vstd::arithmetic::div_mod::lemma_div_is_ordered(a, cap * b, b);
    vstd::arithmetic::div_mod::lemma_div_by_multiple(cap, b);
    lemma_div_bounds_nonneg(a, b);
}

/// A truncated quotient is capped by any `cap` whose product with the
/// divisor dominates the dividend's magnitude.
pub proof fn lemma_div_tz_le(p: int, d: int, cap: int)
    requires
        d > 0,
        cap >= 0,
        -(cap * d) <= p <= cap * d,
    ensures
        -cap <= div_tz(p, d) <= cap,
{
    if p >= 0 {
        vstd::arithmetic::div_mod::lemma_div_is_ordered(p, cap * d, d);
        vstd::arithmetic::div_mod::lemma_div_by_multiple(cap, d);
        lemma_div_bounds_nonneg(p, d);
    } else {
        vstd::arithmetic::div_mod::lemma_div_is_ordered(-p, cap * d, d);
        vstd::arithmetic::div_mod::lemma_div_by_multiple(cap, d);
        lemma_div_bounds_nonneg(-p, d);
    }
}

/// The scaled gravitational parameter grows with the mass.
pub proof fn lemma_mu_monotone(m1: int, m2: int)
    requires
        0 <= m1 <= m2,
    ensures
        0 <= mu_scaled(m1) <= mu_scaled(m2),
{
    lemma_mul_inequality(m1, m2, G_NUM as int);
    vstd::arithmetic::div_mod::lemma_div_is_ordered(
        m1 * G_NUM as int,
        m2 * G_NUM as int,
        G_DEN as int,
    );
    lemma_div_bounds_nonneg(m1 * G_NUM as int, G_DEN as int);
    assert(m1 * G_NUM as int >= 0) by (nonlinear_arith)
        requires
            m1 >= 0,
    ;
}

/// Saturate an `i128` into `[-LIMIT, LIMIT]`.
pub fn saturate(x: i128) -> (r: i128)
    ensures
        r == sat(x as int),
{
    if x > LIMIT {
        LIMIT
    } else if x < -LIMIT {
        -LIMIT
    } else {
        x
    }
}

/// Saturating addition of two bounded raw values.
pub fn add_sat(a: i128, b: i128) -> (r: i128)
    requires
        in_range(a as int),
        in_range(b as int),
    ensures
        r == sat(a + b),
{
    saturate(a + b)
}

/// Saturating subtraction of two bounded raw values.
pub fn sub_sat(a: i128, b: i128) -> (r: i128)
    requires
        in_range(a as int),
        in_range(b as int),
    ensures
        r == sat(a - b),
{
    saturate(a - b)
}

/// Machine division truncating toward zero.
pub fn div_trunc(a: i128, b: i128) -> (r: i128)
    requires
        b > 0,
        a > i128::MIN,
    ensures
        r == div_tz(a as int, b as int),
{
    if a >= 0 {
        proof {
            lemma_div_bounds_nonneg(a as int, b as int);
        }
        ((a as u128) / (b as u128)) as i128
    } else {
        proof {
            lemma_div_bounds_nonneg(-(a as int), b as int);
        }
        let m = (-a) as u128;
        -((m / (b as u128)) as i128)
    }
}

/// Saturating fixed-point multiplication of two bounded raw values.
pub fn mul_sat(a: i128, b: i128) -> (r: i128)
    requires
        in_range(a as int),
        in_range(b as int),
    ensures
        r == mul_fp(a as int, b as int),
{
    proof {
        lemma_mul_magnitude(a as int, b as int, LIMIT as int, LIMIT as int);
        lemma_div_tz_magnitude(a as int * b as int, SCALE as int, LIMIT as int * LIMIT as int);
    }
    let p = a * b;
    let q = div_trunc(p, SCALE);
    saturate(q)
}

/// Integer square root, rounded down.
pub fn isqrt(n: u128) -> (r: u128)
    ensures
        is_sqrt(n as int, r as int),
        r == sqrt_floor(n as int),
{
    let mut lo: u128 = 0;
    let mut hi: u128 = 0x1_0000_0000_0000_0000;
    assert((hi as int) * (hi as int) > n as int) by (nonlinear_arith)
        requires
            hi == 0x1_0000_0000_0000_0000u128,
            n <= u128::MAX,
    ;
    while lo + 1 < hi
        invariant
            0 <= lo < hi <= 0x1_0000_0000_0000_0000u128,
            (lo as int) * (lo as int) <= n as int,
            (n as int) < (hi as int) * (hi as int),
        decreases hi - lo,
    {
        let mid = lo + (hi - lo) / 2;
        assert((mid as int) * (mid as int) < 0x1_0000_0000_0000_0000_0000_0000_0000_0000int)
            by (nonlinear_arith)
            requires
                mid < 0x1_0000_0000_0000_0000u128,
        ;
        if mid * mid <= n {
            lo = mid;
        } else {
            hi = mid;
        }
    }
    proof {
        assert(is_sqrt(n as int, lo as int)) by (nonlinear_arith)
            requires
                (lo as int) * (lo as int) <= n as int,
                (n as int) < (hi as int) * (hi as int),
                hi == lo + 1,
        ;
        assert(is_sqrt(n as int, sqrt_floor(n as int))) by {
            assert(is_sqrt(n as int, lo as int));
        }
        lemma_sqrt_unique(n as int, lo as int, sqrt_floor(n as int));
    }
    lo
}

/// The scaled standard gravitational parameter of a raw mass: the mass
/// multiplied by the gravitational constant, rounded down. Positive
/// admissible masses give a value that every intermediate product of the
/// acceleration formula keeps within `i128`.
pub open spec fn mu_scaled(m: int) -> int {
    (m * G_NUM as int) / G_DEN as int
}

/// Compute [`mu_scaled`] without overflowing, by splitting the mass at
/// `G_DEN`.
pub fn mass_mu(m: i128) -> (r: i128)
    requires
        0 <= m <= 2 * MASS_LIMIT,
    ensures
        r == mu_scaled(m as int),
        r >= 0,
{
    let q = m / G_DEN;
    let rem = m % G_DEN;
    proof {
        lemma_mu_split(m as int, q as int, rem as int);
        lemma_div_bounds_nonneg(m as int, G_DEN as int);
        vstd::arithmetic::div_mod::lemma_div_is_ordered(
            m as int,
            2 * MASS_LIMIT as int,
            G_DEN as int,
        );
        lemma_mul_inequality(q as int, 2 * MASS_LIMIT as int / G_DEN as int, G_NUM as int);
        lemma_mul_magnitude(rem as int, G_NUM as int, G_DEN as int, G_NUM as int);
        lemma_div_bounds_nonneg(rem as int * G_NUM as int, G_DEN as int);
    }
    q * G_NUM + (rem * G_NUM) / G_DEN
}

/// Splitting a non-negative dividend at the divisor distributes over the
/// scaled product: this justifies computing `mu_scaled` piecewise.
proof fn lemma_mu_split(m: int, q: int, rem: int)
    requires
        m >= 0,
        q == m / G_DEN as int,
        rem == m % G_DEN as int,
    ensures
        mu_scaled(m) == q * G_NUM as int + (rem * G_NUM as int) / G_DEN as int,
{
    lemma_fundamental_div_mod(m, G_DEN as int);
    let d = G_DEN as int;
    let g = G_NUM as int;
    assert(m * g == (q * g) * d + rem * g) by (nonlinear_arith)
        requires
            m == d * q + rem,
    ;
    lemma_div_multiple_plus(q * g, rem * g, d);
}

/// `(k * d + x) / d == k + x / d` for non-negative `x` and positive `d`.
proof fn lemma_div_multiple_plus(k: int, x: int, d: int)
    requires
        d > 0,
        x >= 0,
        k >= 0,
    ensures
        (k * d + x) / d == k + x / d,
{
    lemma_fundamental_div_mod(x, d);
    lemma_fundamental_div_mod(k * d + x, d);
    let q1 = x / d;
    let r1 = x % d;
    let q2 = (k * d + x) / d;
    let r2 = (k * d + x) % d;
    assert(q2 == k + q1) by (nonlinear_arith)
        requires
            x == d * q1 + r1,
            k * d + x == d * q2 + r2,
            0 <= r1 < d,
            0 <= r2 < d,
            d > 0,
    ;
}

} // verus!
