//! The stable-orbit initializer: from a parent body's frozen motion and
//! mass, a target orbital radius, a mass and a phase, derive the position
//! and velocity of a new orbiting body.
//!
//! The phase is a fixed-point value in `[0, 2)` turns of pi: the new body
//! is placed at angle `pi * phase` on the circle of the given radius
//! around the parent. Its speed is the circular-orbit speed
//! `sqrt(mu / r)` for the pair's gravitational parameter `mu` and the
//! *achieved* radius `r`, directed perpendicular to the radius vector
//! (prograde), and the parent's own velocity is added on top — which is
//! what lets a moon-around-planet-around-star hierarchy compose.
//!
//! The sine and cosine of the phase angle are evaluated by an odd/even
//! Taylor polynomial on the first quadrant, spelled out exactly in the
//! specification; the orbit speed uses the achieved distance, so the
//! small polynomial error does not disturb the circularity of the orbit.

use vstd::prelude::*;
use crate::fixed::{
    SCALE, LIMIT, DIST_FLOOR, MASS_LIMIT, in_range, sat, div_tz, mul_fp, sqrt_floor, mu_scaled,
    add_sat, sub_sat, mul_sat, div_trunc, isqrt, mass_mu, lemma_mul_magnitude,
    lemma_div_bounds_nonneg, lemma_div_cap, lemma_div_tz_le, lemma_mu_monotone,
    lemma_sqrt_dominates,
};
use crate::vec2::{Vec2, vec_in_range, sat_vec};
use crate::body::{
    Body, BodyKind, PhysicsData, body_wf, dist_with_floor, MU_PAIR_CAP, ACCEL_W_CAP,
    lemma_mu_pair_cap,
};
use vstd::arithmetic::mul::lemma_mul_inequality;

verus! {

/// Fixed-point value of pi, rounded down.
pub const PI_RAW: i128 = 3_141_592;

/// A quarter turn, half turn, three-quarter turn and full turn of the
/// phase input, whose unit is half a turn (`SCALE` = one half-turn = pi).
pub const PHASE_QUARTER: i128 = 500_000;

/// See [`PHASE_QUARTER`].
pub const PHASE_HALF: i128 = 1_000_000;

/// See [`PHASE_QUARTER`].
pub const PHASE_THREE_QUARTERS: i128 = 1_500_000;

/// See [`PHASE_QUARTER`].
pub const PHASE_FULL: i128 = 2_000_000;

/// The angle, in fixed-point radians, of a phase in `[0, 1/2]` turns of
/// pi.
pub open spec fn angle_raw(t: int) -> int {
    (t * PI_RAW as int) / SCALE as int
}

/// Truncated even Taylor polynomial for the cosine of a fixed-point
/// radian value in `[0, pi/2]`.
pub open spec fn cos_poly(x: int) -> int {
    let x2 = (x * x) / SCALE as int;
    let x4 = (x2 * x2) / SCALE as int;
    let x6 = (x4 * x2) / SCALE as int;
    let x8 = (x6 * x2) / SCALE as int;
    SCALE as int - x2 / 2 + x4 / 24 - x6 / 720 + x8 / 40320
}

/// Truncated odd Taylor polynomial for the sine of a fixed-point radian
/// value in `[0, pi/2]`.
pub open spec fn sin_poly(x: int) -> int {
    let x2 = (x * x) / SCALE as int;
    let x4 = (x2 * x2) / SCALE as int;
    let x6 = (x4 * x2) / SCALE as int;
    let x8 = (x6 * x2) / SCALE as int;
    let x3 = (x2 * x) / SCALE as int;
    let x5 = (x4 * x) / SCALE as int;
    let x7 = (x6 * x) / SCALE as int;
    let x9 = (x8 * x) / SCALE as int;
    x - x3 / 6 + x5 / 120 - x7 / 5040 + x9 / 362880
}

/// Cosine of `pi * t / SCALE` for a phase `t` in `[0, 2 * SCALE)`, by
/// quadrant symmetry over the first-quadrant polynomial.
pub open spec fn cos_phase(t: int) -> int {
    if t < PHASE_QUARTER as int {
        cos_poly(angle_raw(t))
    } else if t < PHASE_HALF as int {
        -cos_poly(angle_raw(PHASE_HALF as int - t))
    } else if t < PHASE_THREE_QUARTERS as int {
        -cos_poly(angle_raw(t - PHASE_HALF as int))
    } else {
        cos_poly(angle_raw(PHASE_FULL as int - t))
    }
}

/// Sine of `pi * t / SCALE` for a phase `t` in `[0, 2 * SCALE)`.
pub open spec fn sin_phase(t: int) -> int {
    if t < PHASE_QUARTER as int {
        sin_poly(angle_raw(t))
    } else if t < PHASE_HALF as int {
        sin_poly(angle_raw(PHASE_HALF as int - t))
    } else if t < PHASE_THREE_QUARTERS as int {
        -sin_poly(angle_raw(t - PHASE_HALF as int))
    } else {
        -sin_poly(angle_raw(PHASE_FULL as int - t))
    }
}

/// The position of the new body: the parent's position displaced by the
/// rotated radius vector.
pub open spec fn orbit_position(pp: Vec2, height: int, phase: int) -> Vec2 {
    sat_vec(
        pp.x + mul_fp(height, cos_phase(phase)),
        pp.y + mul_fp(height, sin_phase(phase)),
    )
}

/// The circular-orbit speed for a floored distance `d` and scaled
/// gravitational parameter `mu`: the square root of `mu / d`, rescaled.
pub open spec fn orbit_speed(d: int, mu: int) -> int {
    sqrt_floor(((SCALE as int * mu) / d) * SCALE as int)
}

/// The orbital velocity of the new body relative to its parent: the
/// circular-orbit speed along the radius vector rotated a quarter turn
/// clockwise (prograde). Depends only on the two positions and the two
/// masses — never on the parent's velocity.
pub open spec fn orbit_rel_velocity(pp: Vec2, position: Vec2, parent_mass: int, mass: int) -> (
    int,
    int,
) {
    let rx = sat(pp.x - position.x);
    let ry = sat(pp.y - position.y);
    let d = dist_with_floor(rx * rx + ry * ry);
    let mu = mu_scaled(parent_mass + mass);
    let s = orbit_speed(d, mu);
    (div_tz(s * ry, d), div_tz(-(s * rx), d))
}

/// The complete new body: placed on the orbit circle, moving with its
/// parent plus its own relative orbital velocity.
pub open spec fn stable_orbit_spec(
    parent: PhysicsData,
    id: u64,
    parent_id: u64,
    mass: i128,
    size: i128,
    height: i128,
    phase: i128,
) -> Body {
    let position = orbit_position(parent.position, height as int, phase as int);
    let rel = orbit_rel_velocity(parent.position, position, parent.mass as int, mass as int);
    Body {
        id,
        kind: BodyKind::Orbiting,
        parent_id: Some(parent_id),
        mass,
        size,
        position,
        velocity: sat_vec(parent.velocity.x + rel.0, parent.velocity.y + rel.1),
    }
}

/// Evaluate [`cos_poly`] on the first quadrant.
fn cos_poly_fx(x: i128) -> (r: i128)
    requires
        0 <= x <= 1_600_000,
    ensures
        r == cos_poly(x as int),
        -(2 * SCALE) <= r <= 2 * SCALE,
{
    proof {
        assert(0 <= x as int * x as int <= 2_560_000 * 1_000_000) by (nonlinear_arith)
            requires
                0 <= x as int <= 1_600_000,
        ;
    }
    let x2 = (x * x) / SCALE;
    proof {
        lemma_div_cap(x as int * x as int, SCALE as int, 2_560_000);
        assert(0 <= x2 as int * x2 as int <= 6_553_600 * 1_000_000) by (nonlinear_arith)
            requires
                0 <= x2 as int <= 2_560_000,
        ;
    }
    let x4 = (x2 * x2) / SCALE;
    proof {
        lemma_div_cap(x2 as int * x2 as int, SCALE as int, 6_553_600);
        assert(0 <= x4 as int * x2 as int <= 16_777_216 * 1_000_000) by (nonlinear_arith)
            requires
                0 <= x2 as int <= 2_560_000,
                0 <= x4 as int <= 6_553_600,
        ;
    }
    let x6 = (x4 * x2) / SCALE;
    proof {
        lemma_div_cap(x4 as int * x2 as int, SCALE as int, 16_777_216);
        assert(0 <= x6 as int * x2 as int <= 42_949_673 * 1_000_000) by (nonlinear_arith)
            requires
                0 <= x2 as int <= 2_560_000,
                0 <= x6 as int <= 16_777_216,
        ;
    }
    let x8 = (x6 * x2) / SCALE;
    proof {
        lemma_div_cap(x6 as int * x2 as int, SCALE as int, 42_949_673);
        lemma_div_bounds_nonneg(x2 as int, 2);
        lemma_div_bounds_nonneg(x4 as int, 24);
        lemma_div_bounds_nonneg(x6 as int, 720);
        lemma_div_bounds_nonneg(x8 as int, 40320);
        lemma_div_cap(x2 as int, 2, 1_280_000);
        lemma_div_cap(x4 as int, 24, 273_067);
        lemma_div_cap(x6 as int, 720, 23_303);
        lemma_div_cap(x8 as int, 40320, 1_066);
    }
    SCALE - x2 / 2 + x4 / 24 - x6 / 720 + x8 / 40320
}

/// Evaluate [`sin_poly`] on the first quadrant.
fn sin_poly_fx(x: i128) -> (r: i128)
    requires
        0 <= x <= 1_600_000,
    ensures
        r == sin_poly(x as int),
        -(2 * SCALE) <= r <= 2 * SCALE,
{
    proof {
        assert(0 <= x as int * x as int <= 2_560_000 * 1_000_000) by (nonlinear_arith)
            requires
                0 <= x as int <= 1_600_000,
        ;
    }
    let x2 = (x * x) / SCALE;
    proof {
        lemma_div_cap(x as int * x as int, SCALE as int, 2_560_000);
        assert(0 <= x2 as int * x2 as int <= 6_553_600 * 1_000_000) by (nonlinear_arith)
            requires
                0 <= x2 as int <= 2_560_000,
        ;
    }
    let x4 = (x2 * x2) / SCALE;
    proof {
        lemma_div_cap(x2 as int * x2 as int, SCALE as int, 6_553_600);
        assert(0 <= x4 as int * x2 as int <= 16_777_216 * 1_000_000) by (nonlinear_arith)
            requires
                0 <= x2 as int <= 2_560_000,
                0 <= x4 as int <= 6_553_600,
        ;
    }
    let x6 = (x4 * x2) / SCALE;
    proof {
        lemma_div_cap(x4 as int * x2 as int, SCALE as int, 16_777_216);
        assert(0 <= x6 as int * x2 as int <= 42_949_673 * 1_000_000) by (nonlinear_arith)
            requires
                0 <= x2 as int <= 2_560_000,
                0 <= x6 as int <= 16_777_216,
        ;
    }
    let x8 = (x6 * x2) / SCALE;
    proof {
        lemma_div_cap(x6 as int * x2 as int, SCALE as int, 42_949_673);
        assert(0 <= x2 as int * x as int <= 4_096_000 * 1_000_000) by (nonlinear_arith)
            requires
                0 <= x as int <= 1_600_000,
                0 <= x2 as int <= 2_560_000,
        ;
        assert(0 <= x4 as int * x as int <= 10_485_760 * 1_000_000) by (nonlinear_arith)
            requires
                0 <= x as int <= 1_600_000,
                0 <= x4 as int <= 6_553_600,
        ;
        assert(0 <= x6 as int * x as int <= 26_843_546 * 1_000_000) by (nonlinear_arith)
            requires
                0 <= x as int <= 1_600_000,
                0 <= x6 as int <= 16_777_216,
        ;
        assert(0 <= x8 as int * x as int <= 68_719_477 * 1_000_000) by (nonlinear_arith)
            requires
                0 <= x as int <= 1_600_000,
                0 <= x8 as int <= 42_949_673,
        ;
    }
    let x3 = (x2 * x) / SCALE;
    let x5 = (x4 * x) / SCALE;
    let x7 = (x6 * x) / SCALE;
    let x9 = (x8 * x) / SCALE;
    proof {
        lemma_div_cap(x2 as int * x as int, SCALE as int, 4_096_000);
        lemma_div_cap(x4 as int * x as int, SCALE as int, 10_485_760);
        lemma_div_cap(x6 as int * x as int, SCALE as int, 26_843_546);
        lemma_div_cap(x8 as int * x as int, SCALE as int, 68_719_477);
        lemma_div_cap(x3 as int, 6, 682_667);
        lemma_div_cap(x5 as int, 120, 87_382);
        lemma_div_cap(x7 as int, 5040, 5_327);
        lemma_div_cap(x9 as int, 362880, 190);
        lemma_div_bounds_nonneg(x3 as int, 6);
        lemma_div_bounds_nonneg(x5 as int, 120);
        lemma_div_bounds_nonneg(x7 as int, 5040);
        lemma_div_bounds_nonneg(x9 as int, 362880);
    }
    x - x3 / 6 + x5 / 120 - x7 / 5040 + x9 / 362880
}

/// Evaluate [`cos_phase`] for a phase in `[0, 2)` half-turns.
pub fn cos_phase_fx(t: i128) -> (r: i128)
    requires
        0 <= t < PHASE_FULL,
    ensures
        r == cos_phase(t as int),
        -(2 * SCALE) <= r <= 2 * SCALE,
{
    if t < PHASE_QUARTER {
        cos_poly_fx(angle_raw_fx(t))
    } else if t < PHASE_HALF {
        -cos_poly_fx(angle_raw_fx(PHASE_HALF - t))
    } else if t < PHASE_THREE_QUARTERS {
        -cos_poly_fx(angle_raw_fx(t - PHASE_HALF))
    } else {
        cos_poly_fx(angle_raw_fx(PHASE_FULL - t))
    }
}

/// Evaluate [`sin_phase`] for a phase in `[0, 2)` half-turns.
pub fn sin_phase_fx(t: i128) -> (r: i128)
    requires
        0 <= t < PHASE_FULL,
    ensures
        r == sin_phase(t as int),
        -(2 * SCALE) <= r <= 2 * SCALE,
{
    if t < PHASE_QUARTER {
        sin_poly_fx(angle_raw_fx(t))
    } else if t < PHASE_HALF {
        sin_poly_fx(angle_raw_fx(PHASE_HALF - t))
    } else if t < PHASE_THREE_QUARTERS {
        -sin_poly_fx(angle_raw_fx(t - PHASE_HALF))
    } else {
        -sin_poly_fx(angle_raw_fx(PHASE_FULL - t))
    }
}

/// Evaluate [`angle_raw`] for a phase in `[0, 1/2]` half-turns.
fn angle_raw_fx(t: i128) -> (r: i128)
    requires
        0 <= t <= PHASE_QUARTER,
    ensures
        r == angle_raw(t as int),
        0 <= r <= 1_600_000,
{
    proof {
        assert(0 <= t as int * PI_RAW as int <= 1_570_796 * 1_000_000) by (nonlinear_arith)
            requires
                0 <= t as int <= PHASE_QUARTER as int,
        ;
        lemma_div_cap(t as int * PI_RAW as int, SCALE as int, 1_570_796);
    }
    (t * PI_RAW) / SCALE
}

impl Body {
    /// Construct a body in a (two-body) stable circular orbit around a
    /// parent, from the parent's frozen snapshot. The parent's velocity
    /// is inherited exactly; the relative orbital velocity depends only
    /// on the geometry and the two masses.
    pub fn new_stable_orbit(
        parent: &PhysicsData,
        id: u64,
        parent_id: u64,
        mass: i128,
        size: i128,
        height: i128,
        phase: i128,
    ) -> (b: Body)
        requires
            0 < parent.mass <= MASS_LIMIT,
            vec_in_range(parent.position),
            vec_in_range(parent.velocity),
            0 < mass <= MASS_LIMIT,
            0 < size <= LIMIT,
            0 < height <= LIMIT,
            0 <= phase < PHASE_FULL,
        ensures
            b == stable_orbit_spec(*parent, id, parent_id, mass, size, height, phase),
            body_wf(b),
    {
        let c = cos_phase_fx(phase);
        let s = sin_phase_fx(phase);
        let position = Vec2 {
            x: add_sat(parent.position.x, mul_sat(height, c)),
            y: add_sat(parent.position.y, mul_sat(height, s)),
        };
        let rx = sub_sat(parent.position.x, position.x);
        let ry = sub_sat(parent.position.y, position.y);
        proof {
            lemma_mul_magnitude(rx as int, rx as int, LIMIT as int, LIMIT as int);
            lemma_mul_magnitude(ry as int, ry as int, LIMIT as int, LIMIT as int);
            assert(rx as int * rx as int >= 0) by (nonlinear_arith);
            assert(ry as int * ry as int >= 0) by (nonlinear_arith);
        }
        let d2 = rx * rx + ry * ry;
        let droot_u = isqrt(d2 as u128);
        proof {
            assert(droot_u as int <= 7_000_000_000_000_000_000int) by (nonlinear_arith)
                requires
                    (droot_u as int) * (droot_u as int) <= d2 as int,
                    d2 as int <= 2 * (LIMIT as int) * (LIMIT as int),
                    droot_u as int >= 0,
            ;
        }
        let droot = droot_u as i128;
        let d = if droot < DIST_FLOOR {
            DIST_FLOOR
        } else {
            droot
        };
        let mu = mass_mu(parent.mass + mass);
        proof {
            lemma_mu_monotone(parent.mass as int + mass as int, 2 * MASS_LIMIT as int);
            lemma_mu_pair_cap();
            lemma_mul_inequality(mu as int, MU_PAIR_CAP as int, SCALE as int);
            lemma_div_bounds_nonneg(SCALE as int * mu as int, d as int);
            vstd::arithmetic::div_mod::lemma_div_is_ordered_by_denominator(
                SCALE as int * mu as int,
                DIST_FLOOR as int,
                d as int,
            );
            vstd::arithmetic::div_mod::lemma_div_is_ordered(
                SCALE as int * mu as int,
                SCALE as int * MU_PAIR_CAP as int,
                DIST_FLOOR as int,
            );
            assert(SCALE as int * MU_PAIR_CAP as int == ACCEL_W_CAP as int * DIST_FLOOR as int);
            vstd::arithmetic::div_mod::lemma_div_by_multiple(ACCEL_W_CAP as int, DIST_FLOOR as int);
        }
        let y = (SCALE * mu) / d;
        proof {
            lemma_mul_inequality(y as int, ACCEL_W_CAP as int, SCALE as int);
            assert(y as int * SCALE as int >= 0) by (nonlinear_arith)
                requires
                    y as int >= 0,
            ;
        }
        let spd_u = isqrt((y * SCALE) as u128);
        proof {
            assert(spd_u as int <= 800_000_000_000_000_000int) by (nonlinear_arith)
                requires
                    (spd_u as int) * (spd_u as int) <= y as int * SCALE as int,
                    y as int * SCALE as int <= ACCEL_W_CAP as int * SCALE as int,
                    spd_u as int >= 0,
            ;
        }
        let spd = spd_u as i128;
        proof {
            lemma_sqrt_dominates(d2 as int, droot as int, rx as int);
            lemma_sqrt_dominates(d2 as int, droot as int, ry as int);
            assert(-(spd as int * d as int) <= spd as int * rx as int <= spd as int * d as int)
                by (nonlinear_arith)
                requires
                    -(d as int) <= rx as int <= d as int,
                    spd as int >= 0,
            ;
            assert(-(spd as int * d as int) <= spd as int * ry as int <= spd as int * d as int)
                by (nonlinear_arith)
                requires
                    -(d as int) <= ry as int <= d as int,
                    spd as int >= 0,
            ;
            assert(spd as int * d as int <= 800_000_000_000_000_000int * 15_000_000_000_000_000_000int)
                by (nonlinear_arith)
                requires
                    0 <= spd as int <= 800_000_000_000_000_000int,
                    0 < d as int <= 15_000_000_000_000_000_000int,
            ;
            lemma_div_tz_le(spd as int * ry as int, d as int, spd as int);
            lemma_div_tz_le(-(spd as int * rx as int), d as int, spd as int);
        }
        let vx = div_trunc(spd * ry, d);
        let vy = div_trunc(-(spd * rx), d);
        let velocity = Vec2 {
            x: add_sat(parent.velocity.x, vx),
            y: add_sat(parent.velocity.y, vy),
        };
        Body {
            id,
            kind: BodyKind::Orbiting,
            parent_id: Some(parent_id),
            mass,
            size,
            position,
            velocity,
        }
    }
}

/// The initializer is a pure function of its inputs: identical parent
/// motion, masses, radius and phase give identical output.
pub proof fn lemma_orbit_deterministic(
    parent: PhysicsData,
    id: u64,
    parent_id: u64,
    mass: i128,
    size: i128,
    height: i128,
    phase: i128,
    b1: Body,
    b2: Body,
)
    requires
        b1 == stable_orbit_spec(parent, id, parent_id, mass, size, height, phase),
        b2 == stable_orbit_spec(parent, id, parent_id, mass, size, height, phase),
    ensures
        b1 == b2,
{
}

/// A new orbiting body's velocity is exactly its parent's velocity plus
/// its own relative orbital velocity, whenever the sum stays within the
/// representable range; and the relative part reads only the geometry
/// and the masses, never the parent's motion.
pub proof fn lemma_orbit_velocity_composes(
    parent: PhysicsData,
    id: u64,
    parent_id: u64,
    mass: i128,
    size: i128,
    height: i128,
    phase: i128,
    b: Body,
)
    requires
        b == stable_orbit_spec(parent, id, parent_id, mass, size, height, phase),
        in_range(
            parent.velocity.x + orbit_rel_velocity(
                parent.position,
                orbit_position(parent.position, height as int, phase as int),
                parent.mass as int,
                mass as int,
            ).0,
        ),
        in_range(
            parent.velocity.y + orbit_rel_velocity(
                parent.position,
                orbit_position(parent.position, height as int, phase as int),
                parent.mass as int,
                mass as int,
            ).1,
        ),
    ensures
        b.velocity.x == parent.velocity.x + orbit_rel_velocity(
            parent.position,
            orbit_position(parent.position, height as int, phase as int),
            parent.mass as int,
            mass as int,
        ).0,
        b.velocity.y == parent.velocity.y + orbit_rel_velocity(
            parent.position,
            orbit_position(parent.position, height as int, phase as int),
            parent.mass as int,
            mass as int,
        ).1,
{
}

} // verus!
