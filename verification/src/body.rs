//! Bodies and their per-step physics: the capability set every body offers
//! (`mass`, `size`, `motion`, `tick`, `commit`), pairwise gravitational
//! acceleration, and the semi-implicit Euler integration of one frame.
//!
//! `tick` is a pure read of the body and a frozen snapshot of its
//! neighbours: it returns a [`PhysicsFrame`], a pending write that only
//! [`Body::commit`] applies. A [`BodyKind::Anchored`] body is a fixed
//! reference frame: its tick hands back its current motion and its commit
//! changes nothing.

use vstd::prelude::*;
use crate::fixed::{
    SCALE, LIMIT, DIST_FLOOR, MASS_LIMIT, G_NUM, G_DEN, in_range, sat, div_tz, mul_fp, sqrt_floor,
    mu_scaled, is_sqrt, add_sat, sub_sat, mul_sat, saturate, div_trunc, isqrt, mass_mu,
    lemma_mul_magnitude, lemma_div_bounds_nonneg, lemma_div_mul_le, lemma_div_tz_le,
    lemma_mu_monotone, lemma_sqrt_dominates,
};
use vstd::arithmetic::mul::lemma_mul_inequality;
use crate::vec2::{Vec2, vec_in_range, sat_vec};

verus! {

/// Largest number of bodies a snapshot handed to `tick` may hold; keeps
/// the accumulated acceleration within `i128`.
pub const MAX_BODIES: usize = 100_000;

/// Upper bound on the scaled gravitational parameter of two admissible
/// masses: `2 * MASS_LIMIT / G_DEN * G_NUM`.
pub const MU_PAIR_CAP: i128 = 533_944_000_000_000_000_000_000_000;

/// Upper bound on the first truncated quotient of the acceleration
/// formula: `SCALE * MU_PAIR_CAP / DIST_FLOOR`.
pub const ACCEL_W_CAP: i128 = 533_944_000_000_000_000_000_000_000_000;

/// Magnitude bound for one neighbour's contribution to the acceleration:
/// `ACCEL_W_CAP * SCALE / DIST_FLOOR`.
pub const ACCEL_TERM_CAP: i128 = 533_944_000_000_000_000_000_000_000_000_000;

/// A read-only snapshot of one body's position and velocity.
#[derive(Clone, Copy, PartialEq, Eq, Debug)]
pub struct Motion {
    pub position: Vec2,
    pub velocity: Vec2,
}

/// The computed next-step motion of one body: a pending write, applied
/// only by `commit`.
#[derive(Clone, Copy, PartialEq, Eq, Debug)]
pub struct PhysicsFrame {
    pub position: Vec2,
    pub velocity: Vec2,
}

/// Everything force computation reads of a neighbour, frozen before the
/// step: identity, motion and mass (size rides along for renderers).
#[derive(Clone, Copy, PartialEq, Eq, Debug)]
pub struct PhysicsData {
    pub id: u64,
    pub position: Vec2,
    pub velocity: Vec2,
    pub mass: i128,
    pub size: i128,
}

/// The two body kinds: a fixed reference frame, or a body that responds
/// to accumulated gravity.
#[derive(Clone, Copy, PartialEq, Eq, Structural, Debug)]
pub enum BodyKind {
    Anchored,
    Orbiting,
}

/// A simulated point-mass. `id`, `kind`, `parent_id`, `mass` and `size`
/// are fixed for the body's lifetime; only `position` and `velocity`
/// change, and only through `commit`.
#[derive(Clone, Copy, PartialEq, Eq, Debug)]
pub struct Body {
    pub id: u64,
    pub kind: BodyKind,
    pub parent_id: Option<u64>,
    pub mass: i128,
    pub size: i128,
    pub position: Vec2,
    pub velocity: Vec2,
}

/// Admissible field values for a body: positive bounded mass and size,
/// kinematics within the saturation range.
pub open spec fn body_wf(b: Body) -> bool {
    &&& 0 < b.mass <= MASS_LIMIT
    &&& 0 < b.size <= LIMIT
    &&& vec_in_range(b.position)
    &&& vec_in_range(b.velocity)
}

/// Admissible field values for a snapshot entry.
pub open spec fn data_wf(d: PhysicsData) -> bool {
    &&& 0 < d.mass <= MASS_LIMIT
    &&& 0 < d.size <= LIMIT
    &&& vec_in_range(d.position)
    &&& vec_in_range(d.velocity)
}

/// The snapshot a body publishes of itself.
pub open spec fn data_of(b: Body) -> PhysicsData {
    PhysicsData {
        id: b.id,
        position: b.position,
        velocity: b.velocity,
        mass: b.mass,
        size: b.size,
    }
}

/// The divisor used in place of a pairwise distance: the rounded-down
/// square root of the squared distance, raised to `DIST_FLOOR` when the
/// pair is closer than that, so the quotients below are always defined.
pub open spec fn dist_with_floor(d2: int) -> int {
    if sqrt_floor(d2) < DIST_FLOOR as int {
        DIST_FLOOR as int
    } else {
        sqrt_floor(d2)
    }
}

/// One neighbour's contribution to a body's acceleration, exactly as
/// computed: the scaled gravitational parameter of the pair divided twice
/// by the floored distance, then projected on the offset. The `x`
/// component is `.0`, the `y` component `.1`.
pub open spec fn accel_term(position: Vec2, mass: int, o: PhysicsData) -> (int, int) {
    let dx = sat(o.position.x - position.x);
    let dy = sat(o.position.y - position.y);
    let d = dist_with_floor(dx * dx + dy * dy);
    let mu = mu_scaled(mass + o.mass);
    let w = (SCALE as int * mu) / d;
    let xq = (w * SCALE as int) / d;
    (div_tz(xq * dx, d), div_tz(xq * dy, d))
}

/// Acceleration accumulated over the first `n` snapshot entries, skipping
/// every entry that carries the body's own id.
pub open spec fn accel_sum(
    position: Vec2,
    mass: int,
    self_id: u64,
    others: Seq<PhysicsData>,
    n: int,
) -> (int, int)
    decreases n,
{
    if n <= 0 {
        (0int, 0int)
    } else {
        let prev = accel_sum(position, mass, self_id, others, n - 1);
        let o = others[n - 1];
        if o.id == self_id {
            prev
        } else {
            let t = accel_term(position, mass, o);
            (prev.0 + t.0, prev.1 + t.1)
        }
    }
}

/// The frame `tick` computes: an anchored body's unchanged motion, or one
/// semi-implicit Euler step — the velocity advanced by the saturated
/// acceleration times `dt`, the position advanced by the *pre-step*
/// velocity times `dt`.
pub open spec fn tick_spec(b: Body, others: Seq<PhysicsData>, dt: int) -> PhysicsFrame {
    match b.kind {
        BodyKind::Anchored => PhysicsFrame { position: b.position, velocity: b.velocity },
        BodyKind::Orbiting => {
            let a = accel_sum(b.position, b.mass as int, b.id, others, others.len() as int);
            PhysicsFrame {
                position: sat_vec(
                    b.position.x + mul_fp(b.velocity.x as int, dt),
                    b.position.y + mul_fp(b.velocity.y as int, dt),
                ),
                velocity: sat_vec(
                    b.velocity.x + mul_fp(sat(a.0), dt),
                    b.velocity.y + mul_fp(sat(a.1), dt),
                ),
            }
        },
    }
}

/// The body after a frame is applied: an anchored body is left as it is;
/// an orbiting body takes the frame's position and velocity. Nothing else
/// ever changes.
pub open spec fn commit_spec(b: Body, f: PhysicsFrame) -> Body {
    match b.kind {
        BodyKind::Anchored => b,
        BodyKind::Orbiting => Body { position: f.position, velocity: f.velocity, ..b },
    }
}

/// Compute one neighbour's acceleration contribution, with every
/// intermediate product proved to fit in `i128`.
pub fn accel_from(position: Vec2, mass: i128, o: &PhysicsData) -> (a: (i128, i128))
    requires
        vec_in_range(position),
        0 < mass <= MASS_LIMIT,
        0 < o.mass <= MASS_LIMIT,
        vec_in_range(o.position),
    ensures
        a.0 == accel_term(position, mass as int, *o).0,
        a.1 == accel_term(position, mass as int, *o).1,
        -ACCEL_TERM_CAP <= a.0 <= ACCEL_TERM_CAP,
        -ACCEL_TERM_CAP <= a.1 <= ACCEL_TERM_CAP,
{
    let dx = sub_sat(o.position.x, position.x);
    let dy = sub_sat(o.position.y, position.y);
    proof {
        lemma_mul_magnitude(dx as int, dx as int, LIMIT as int, LIMIT as int);
        lemma_mul_magnitude(dy as int, dy as int, LIMIT as int, LIMIT as int);
        assert(dx as int * dx as int >= 0) by (nonlinear_arith);
        assert(dy as int * dy as int >= 0) by (nonlinear_arith);
    }
    let d2 = dx * dx + dy * dy;
    let droot_u = isqrt(d2 as u128);
    proof {
        assert(droot_u as int <= 7_000_000_000_000_000_000int) by (nonlinear_arith)
            requires
                (droot_u as int) * (droot_u as int) <= d2 as int,
                d2 as int <= 2 * (LIMIT as int) * (LIMIT as int),
                droot_u as int >= 0,
        ;
    }
    let droot = droot_u as i128;
    let d = if droot < DIST_FLOOR {
        DIST_FLOOR
    } else {
        droot
    };
    let mu = mass_mu(mass + o.mass);
    proof {
        lemma_mu_monotone(mass as int + o.mass as int, 2 * MASS_LIMIT as int);
        lemma_mu_pair_cap();
        lemma_mul_inequality(mu as int, MU_PAIR_CAP as int, SCALE as int);
        lemma_div_bounds_nonneg(SCALE as int * mu as int, d as int);
        vstd::arithmetic::div_mod::lemma_div_is_ordered_by_denominator(
            SCALE as int * mu as int,
            DIST_FLOOR as int,
            d as int,
        );
        vstd::arithmetic::div_mod::lemma_div_is_ordered(
            SCALE as int * mu as int,
            SCALE as int * MU_PAIR_CAP as int,
            DIST_FLOOR as int,
        );
        assert(SCALE as int * MU_PAIR_CAP as int == ACCEL_W_CAP as int * DIST_FLOOR as int);
        vstd::arithmetic::div_mod::lemma_div_by_multiple(ACCEL_W_CAP as int, DIST_FLOOR as int);
    }
    let w = (SCALE * mu) / d;
    proof {
        lemma_mul_inequality(w as int, ACCEL_W_CAP as int, SCALE as int);
        lemma_div_bounds_nonneg(w as int * SCALE as int, d as int);
        vstd::arithmetic::div_mod::lemma_div_is_ordered_by_denominator(
            w as int * SCALE as int,
            DIST_FLOOR as int,
            d as int,
        );
        vstd::arithmetic::div_mod::lemma_div_is_ordered(
            w as int * SCALE as int,
            ACCEL_W_CAP as int * SCALE as int,
            DIST_FLOOR as int,
        );
        assert(ACCEL_W_CAP as int * SCALE as int == ACCEL_TERM_CAP as int * DIST_FLOOR as int);
        vstd::arithmetic::div_mod::lemma_div_by_multiple(ACCEL_TERM_CAP as int, DIST_FLOOR as int);
    }
    let xq = (w * SCALE) / d;
    proof {
        lemma_sqrt_dominates(d2 as int, droot as int, dx as int);
        lemma_sqrt_dominates(d2 as int, droot as int, dy as int);
        lemma_div_mul_le(w as int * SCALE as int, d as int);
        assert(-(xq as int * d as int) <= xq as int * dx as int <= xq as int * d as int)
            by (nonlinear_arith)
            requires
                -(d as int) <= dx as int <= d as int,
                xq as int >= 0,
        ;
        assert(-(xq as int * d as int) <= xq as int * dy as int <= xq as int * d as int)
            by (nonlinear_arith)
            requires
                -(d as int) <= dy as int <= d as int,
                xq as int >= 0,
        ;
        assert(xq as int * d as int <= w as int * SCALE as int) by (nonlinear_arith)
            requires
                xq as int == (w as int * SCALE as int) / (d as int),
                ((w as int * SCALE as int) / (d as int)) * d as int <= w as int * SCALE as int,
        ;
        lemma_div_tz_le(xq as int * dx as int, d as int, xq as int);
        lemma_div_tz_le(xq as int * dy as int, d as int, xq as int);
    }
    let tx = div_trunc(xq * dx, d);
    let ty = div_trunc(xq * dy, d);
    (tx, ty)
}

/// The pair cap really is the scaled gravitational parameter of two
/// masses at the admissible limit.
pub proof fn lemma_mu_pair_cap()
    ensures
        mu_scaled(2 * MASS_LIMIT as int) == MU_PAIR_CAP as int,
{
    let k = 2 * MASS_LIMIT as int / G_DEN as int;
    assert(2 * MASS_LIMIT as int * G_NUM as int == (k * G_NUM as int) * G_DEN as int);
    vstd::arithmetic::div_mod::lemma_div_by_multiple(k * G_NUM as int, G_DEN as int);
}

impl Body {
    /// The body's mass.
    pub fn mass(&self) -> (r: i128)
        ensures
            r == self.mass,
    {
        self.mass
    }

    /// The body's radius, read only by renderers.
    pub fn size(&self) -> (r: i128)
        ensures
            r == self.size,
    {
        self.size
    }

    /// The body's id.
    pub fn id(&self) -> (r: u64)
        ensures
            r == self.id,
    {
        self.id
    }

    /// The body's kind.
    pub fn kind(&self) -> (r: BodyKind)
        ensures
            r == self.kind,
    {
        self.kind
    }

    /// The id of the body this one was constructed to orbit, if any.
    pub fn parent_id(&self) -> (r: Option<u64>)
        ensures
            r == self.parent_id,
    {
        self.parent_id
    }

    /// A read-only snapshot of the body's current motion.
    pub fn motion(&self) -> (m: Motion)
        ensures
            m == (Motion { position: self.position, velocity: self.velocity }),
    {
        Motion { position: self.position, velocity: self.velocity }
    }

    /// The full snapshot force computation reads of this body.
    pub fn physics_data(&self) -> (d: PhysicsData)
        ensures
            d == data_of(*self),
    {
        PhysicsData {
            id: self.id,
            position: self.position,
            velocity: self.velocity,
            mass: self.mass,
            size: self.size,
        }
    }

    /// A new anchored body, at rest at `position`, with no parent.
    pub fn new_anchored(id: u64, mass: i128, size: i128, position: Vec2) -> (b: Body)
        requires
            0 < mass <= MASS_LIMIT,
            0 < size <= LIMIT,
            vec_in_range(position),
        ensures
            b == (Body {
                id,
                kind: BodyKind::Anchored,
                parent_id: None,
                mass,
                size,
                position,
                velocity: Vec2 { x: 0, y: 0 },
            }),
            body_wf(b),
    {
        Body {
            id,
            kind: BodyKind::Anchored,
            parent_id: None,
            mass,
            size,
            position,
            velocity: Vec2 { x: 0, y: 0 },
        }
    }

    /// Phase 1 of a step: compute this body's next frame from a frozen
    /// snapshot of the world. Reads only `self` and `others`; every entry
    /// carrying this body's own id is skipped, so a body never attracts
    /// itself.
    #[verifier::loop_isolation(false)]
    pub fn tick(&self, others: &Vec<PhysicsData>, dt: i128) -> (f: PhysicsFrame)
        requires
            body_wf(*self),
            forall|i: int| 0 <= i < others@.len() ==> data_wf(#[trigger] others@[i]),
            others@.len() <= MAX_BODIES as int,
            in_range(dt as int),
        ensures
            f == tick_spec(*self, others@, dt as int),
    {
        match self.kind {
            BodyKind::Anchored => PhysicsFrame { position: self.position, velocity: self.velocity },
            BodyKind::Orbiting => {
                let mut sx: i128 = 0;
                let mut sy: i128 = 0;
                let mut i: usize = 0;
                while i < others.len()
                    invariant
                        0 <= i <= others@.len(),
                        sx == accel_sum(
                            self.position,
                            self.mass as int,
                            self.id,
                            others@,
                            i as int,
                        ).0,
                        sy == accel_sum(
                            self.position,
                            self.mass as int,
                            self.id,
                            others@,
                            i as int,
                        ).1,
                        -(i as int) * ACCEL_TERM_CAP as int <= sx as int
                            <= (i as int) * ACCEL_TERM_CAP as int,
                        -(i as int) * ACCEL_TERM_CAP as int <= sy as int
                            <= (i as int) * ACCEL_TERM_CAP as int,
                    decreases others@.len() - i,
                {
                    let o = others[i];
                    if o.id != self.id {
                        let a = accel_from(self.position, self.mass, &o);
                        sx = sx + a.0;
                        sy = sy + a.1;
                    }
                    i = i + 1;
                }
                let dvx = saturate(sx);
                let dvy = saturate(sy);
                let velocity = Vec2 {
                    x: add_sat(self.velocity.x, mul_sat(dvx, dt)),
                    y: add_sat(self.velocity.y, mul_sat(dvy, dt)),
                };
                let position = Vec2 {
                    x: add_sat(self.position.x, mul_sat(self.velocity.x, dt)),
                    y: add_sat(self.position.y, mul_sat(self.velocity.y, dt)),
                };
                PhysicsFrame { position, velocity }
            },
        }
    }

    /// Phase 2 of a step: apply a previously computed frame. Only the
    /// position and velocity of an orbiting body change; an anchored body
    /// ignores the frame entirely.
    pub fn commit(&mut self, f: PhysicsFrame)
        ensures
            *final(self) == commit_spec(*old(self), f),
    {
        match self.kind {
            BodyKind::Anchored => {},
            BodyKind::Orbiting => {
                self.position = f.position;
                self.velocity = f.velocity;
            },
        }
    }
}

} // verus!
