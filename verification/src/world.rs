//! The world: an ordered arena of bodies with unique, sequential ids,
//! and the two-phase integrator that advances all of them by one step.
//!
//! A step is strictly compute-then-commit: phase 1 evaluates every
//! body's `tick` against the same frozen pre-step snapshot, phase 2
//! commits all computed frames. No body's phase-1 computation can
//! observe another body's phase-2 write, so the committed result is a
//! function of the pre-step world alone, body by body.

use vstd::prelude::*;
use crate::fixed::{LIMIT, MASS_LIMIT, in_range};
use crate::vec2::{Vec2, vec_in_range};
use crate::body::{
    Body, BodyKind, PhysicsData, PhysicsFrame, body_wf, data_wf, data_of, tick_spec, commit_spec,
    MAX_BODIES,
};
use crate::orbit::{stable_orbit_spec, PHASE_FULL};
use crate::rng::draw_phase;

verus! {

/// Why world construction rejected a body record. Every variant names
/// the first check that failed; construction aborts before any stepping
/// begins.
#[derive(Clone, Copy, PartialEq, Eq, Structural, Debug)]
pub enum ConfigurationError {
    /// The world already holds `MAX_BODIES` bodies.
    TooManyBodies,
    /// A record referred to a parent id no body carries.
    UnknownParent,
    /// A mass was not positive, or exceeded `MASS_LIMIT`.
    InvalidMass,
    /// A size was not positive, or exceeded `LIMIT`.
    InvalidSize,
    /// An anchor position lay outside the representable range.
    InvalidPosition,
    /// An orbital radius was not positive, or exceeded `LIMIT`.
    InvalidHeight,
    /// An orbital phase lay outside `[0, 2)` half-turns.
    InvalidPhase,
    /// A configuration held no anchor body to build orbits around.
    NoAnchor,
}

/// The ordered collection of bodies. Bodies are appended during setup
/// and never removed; a body's id equals its index.
pub struct World {
    pub bodies: Vec<Body>,
}

/// The world invariant: at most `MAX_BODIES` bodies, each well-formed,
/// each carrying its own index as id (so ids are unique and stable).
pub open spec fn world_wf(w: Seq<Body>) -> bool {
    &&& w.len() <= MAX_BODIES as int
    &&& (forall|i: int| 0 <= i < w.len() ==> body_wf(#[trigger] w[i]))
    &&& (forall|i: int| 0 <= i < w.len() ==> (#[trigger] w[i]).id == i as u64)
}

/// The frozen pre-step snapshot: every body's published data, in order.
pub open spec fn snapshot_spec(w: Seq<Body>) -> Seq<PhysicsData> {
    w.map_values(|b: Body| data_of(b))
}

/// One body's committed post-step state: its tick against the frozen
/// snapshot of the whole world, applied.
pub open spec fn stepped_body(w: Seq<Body>, i: int, dt: int) -> Body {
    commit_spec(w[i], tick_spec(w[i], snapshot_spec(w), dt))
}

/// The whole world after one step: every body stepped against the same
/// pre-step snapshot.
pub open spec fn step_spec(w: Seq<Body>, dt: int) -> Seq<Body> {
    Seq::new(w.len(), |i: int| stepped_body(w, i, dt))
}

/// Outcome of appending an anchored body: the first failed check's
/// error, or the world with the new body at the end, carrying the next
/// sequential id.
pub open spec fn add_anchored_spec(w: Seq<Body>, mass: i128, size: i128, position: Vec2) -> Result<
    Seq<Body>,
    ConfigurationError,
> {
    if w.len() >= MAX_BODIES as int {
        Err(ConfigurationError::TooManyBodies)
    } else if mass <= 0 || mass > MASS_LIMIT {
        Err(ConfigurationError::InvalidMass)
    } else if size <= 0 || size > LIMIT {
        Err(ConfigurationError::InvalidSize)
    } else if !vec_in_range(position) {
        Err(ConfigurationError::InvalidPosition)
    } else {
        Ok(
            w.push(
                Body {
                    id: w.len() as u64,
                    kind: BodyKind::Anchored,
                    parent_id: None,
                    mass,
                    size,
                    position,
                    velocity: Vec2 { x: 0, y: 0 },
                },
            ),
        )
    }
}

/// Outcome of appending an orbiting body around the body with id
/// `parent_id`: the first failed check's error, or the world extended
/// with the stable-orbit body.
pub open spec fn add_orbiting_spec(
    w: Seq<Body>,
    parent_id: u64,
    mass: i128,
    size: i128,
    height: i128,
    phase: i128,
) -> Result<Seq<Body>, ConfigurationError> {
    if w.len() >= MAX_BODIES as int {
        Err(ConfigurationError::TooManyBodies)
    } else if parent_id as int >= w.len() {
        Err(ConfigurationError::UnknownParent)
    } else if mass <= 0 || mass > MASS_LIMIT {
        Err(ConfigurationError::InvalidMass)
    } else if size <= 0 || size > LIMIT {
        Err(ConfigurationError::InvalidSize)
    } else if height <= 0 || height > LIMIT {
        Err(ConfigurationError::InvalidHeight)
    } else if phase < 0 || phase >= PHASE_FULL {
        Err(ConfigurationError::InvalidPhase)
    } else {
        Ok(
            w.push(
                stable_orbit_spec(
                    data_of(w[parent_id as int]),
                    w.len() as u64,
                    parent_id,
                    mass,
                    size,
                    height,
                    phase,
                ),
            ),
        )
    }
}

/// Every body of a well-formed world steps to a well-formed body: the
/// step changes only positions and velocities, and both come saturated.
pub proof fn lemma_step_preserves_wf(w: Seq<Body>, dt: int)
    requires
        world_wf(w),
    ensures
        world_wf(step_spec(w, dt)),
{
    assert forall|i: int| 0 <= i < step_spec(w, dt).len() implies body_wf(
        #[trigger] step_spec(w, dt)[i],
    ) && step_spec(w, dt)[i].id == i as u64 by {
        let b = w[i];
        let f = tick_spec(b, snapshot_spec(w), dt);
        match b.kind {
            BodyKind::Anchored => {},
            BodyKind::Orbiting => {},
        }
    }
}

impl World {
    /// An empty world.
    pub fn new() -> (w: World)
        ensures
            w.bodies@ == Seq::<Body>::empty(),
            world_wf(w.bodies@),
    {
        World { bodies: Vec::new() }
    }

    /// How many bodies the world holds.
    pub fn len(&self) -> (n: usize)
        ensures
            n == self.bodies@.len(),
    {
        self.bodies.len()
    }

    /// The body at a given index, in world order.
    pub fn body_at(&self, i: usize) -> (b: Body)
        requires
            i < self.bodies@.len(),
        ensures
            b == self.bodies@[i as int],
    {
        self.bodies[i]
    }

    /// Id-based lookup into the arena: ids are indices, so the body with
    /// id `id` exists exactly when `id` is below the body count.
    pub fn body_by_id(&self, id: u64) -> (r: Option<Body>)
        requires
            world_wf(self.bodies@),
        ensures
            r == if (id as int) < self.bodies@.len() {
                Some(self.bodies@[id as int])
            } else {
                None::<Body>
            },
    {
        if id < self.bodies.len() as u64 {
            Some(self.bodies[id as usize])
        } else {
            None
        }
    }

    /// The frozen snapshot phase 1 reads: every body's published data.
    pub fn snapshot(&self) -> (s: Vec<PhysicsData>)
        ensures
            s@ == snapshot_spec(self.bodies@),
    {
        let mut s: Vec<PhysicsData> = Vec::new();
        let mut i: usize = 0;
        while i < self.bodies.len()
            invariant
                i <= self.bodies@.len(),
                s@.len() == i as int,
                forall|j: int| 0 <= j < i as int ==> s@[j] == data_of(self.bodies@[j]),
            decreases self.bodies@.len() - i,
        {
            let d = self.bodies[i].physics_data();
            s.push(d);
            i = i + 1;
        }
        proof {
            assert(s@ =~= snapshot_spec(self.bodies@));
        }
        s
    }

    /// Advance the whole world by one step of `dt`. Phase 1 computes
    /// every body's frame from the same frozen snapshot; phase 2 commits
    /// them all. The result is exactly `step_spec` of the pre-step
    /// world: no partially applied step is ever observable.
    #[verifier::loop_isolation(false)]
    pub fn step(&mut self, dt: i128)
        requires
            world_wf(old(self).bodies@),
            in_range(dt as int),
        ensures
            final(self).bodies@ == step_spec(old(self).bodies@, dt as int),
            world_wf(final(self).bodies@),
    {
        let ghost w0 = self.bodies@;
        let snap = self.snapshot();
        proof {
            assert forall|k: int| 0 <= k < snap@.len() implies data_wf(#[trigger] snap@[k]) by {
                assert(snap@[k] == data_of(w0[k]));
                assert(body_wf(w0[k]));
            }
        }
        let mut frames: Vec<PhysicsFrame> = Vec::new();
        let mut i: usize = 0;
        while i < self.bodies.len()
            invariant
                self.bodies@ == w0,
                i <= w0.len(),
                frames@.len() == i as int,
                forall|j: int| 0 <= j < i as int ==> frames@[j] == tick_spec(
                    w0[j],
                    snapshot_spec(w0),
                    dt as int,
                ),
            decreases w0.len() - i,
        {
            let f = self.bodies[i].tick(&snap, dt);
            frames.push(f);
            i = i + 1;
        }
        let mut i: usize = 0;
        while i < self.bodies.len()
            invariant
                self.bodies@.len() == w0.len(),
                i <= w0.len(),
                forall|j: int| 0 <= j < i as int ==> self.bodies@[j] == stepped_body(
                    w0,
                    j,
                    dt as int,
                ),
                forall|j: int| i as int <= j < w0.len() ==> self.bodies@[j] == w0[j],
            decreases w0.len() - i,
        {
            let f = frames[i];
            self.bodies[i].commit(f);
            i = i + 1;
        }
        proof {
            assert(self.bodies@ =~= step_spec(w0, dt as int));
            lemma_step_preserves_wf(w0, dt as int);
        }
    }

    /// Append an anchored body, validating its record; on success the
    /// new body's id (the next sequential id) is returned. On failure
    /// the world is unchanged.
    pub fn add_anchored(&mut self, mass: i128, size: i128, position: Vec2) -> (r: Result<
        u64,
        ConfigurationError,
    >)
        requires
            world_wf(old(self).bodies@),
        ensures
            world_wf(final(self).bodies@),
            (r is Ok) == (add_anchored_spec(old(self).bodies@, mass, size, position) is Ok),
            r is Ok ==> final(self).bodies@ == add_anchored_spec(
                old(self).bodies@,
                mass,
                size,
                position,
            )->Ok_0 && r->Ok_0 == old(self).bodies@.len() as u64,
            r is Err ==> final(self).bodies@ == old(self).bodies@ && r->Err_0 == add_anchored_spec(
                old(self).bodies@,
                mass,
                size,
                position,
            )->Err_0,
    {
        if self.bodies.len() >= MAX_BODIES {
            return Err(ConfigurationError::TooManyBodies);
        }
        if mass <= 0 || mass > MASS_LIMIT {
            return Err(ConfigurationError::InvalidMass);
        }
        if size <= 0 || size > LIMIT {
            return Err(ConfigurationError::InvalidSize);
        }
        if position.x < -LIMIT || position.x > LIMIT || position.y < -LIMIT || position.y > LIMIT {
            return Err(ConfigurationError::InvalidPosition);
        }
        let id = self.bodies.len() as u64;
        let b = Body::new_anchored(id, mass, size, position);
        self.bodies.push(b);
        Ok(id)
    }

    /// Append an orbiting body around the body with id `parent_id`,
    /// validating its record against the checks of `add_orbiting_spec`;
    /// on success the new body's id is returned. On failure the world is
    /// unchanged.
    pub fn add_orbiting(
        &mut self,
        parent_id: u64,
        mass: i128,
        size: i128,
        height: i128,
        phase: i128,
    ) -> (r: Result<u64, ConfigurationError>)
        requires
            world_wf(old(self).bodies@),
        ensures
            world_wf(final(self).bodies@),
            (r is Ok) == (add_orbiting_spec(old(self).bodies@, parent_id, mass, size, height, phase)
                is Ok),
            r is Ok ==> final(self).bodies@ == add_orbiting_spec(
                old(self).bodies@,
                parent_id,
                mass,
                size,
                height,
                phase,
            )->Ok_0 && r->Ok_0 == old(self).bodies@.len() as u64,
            r is Err ==> final(self).bodies@ == old(self).bodies@ && r->Err_0 == add_orbiting_spec(
                old(self).bodies@,
                parent_id,
                mass,
                size,
                height,
                phase,
            )->Err_0,
    {
        if self.bodies.len() >= MAX_BODIES {
            return Err(ConfigurationError::TooManyBodies);
        }
        if parent_id >= self.bodies.len() as u64 {
            return Err(ConfigurationError::UnknownParent);
        }
        if mass <= 0 || mass > MASS_LIMIT {
            return Err(ConfigurationError::InvalidMass);
        }
        if size <= 0 || size > LIMIT {
            return Err(ConfigurationError::InvalidSize);
        }
        if height <= 0 || height > LIMIT {
            return Err(ConfigurationError::InvalidHeight);
        }
        if phase < 0 || phase >= PHASE_FULL {
            return Err(ConfigurationError::InvalidPhase);
        }
        let id = self.bodies.len() as u64;
        let parent = self.bodies[parent_id as usize].physics_data();
        let b = Body::new_stable_orbit(&parent, id, parent_id, mass, size, height, phase);
        self.bodies.push(b);
        Ok(id)
    }

    /// Append an orbiting body whose phase is drawn from the given
    /// seedable generator: the result is `add_orbiting` for *some* phase
    /// in `[0, 2)` half-turns.
    pub fn add_orbiting_drawn(
        &mut self,
        parent_id: u64,
        mass: i128,
        size: i128,
        height: i128,
        rng: &mut rand::rngs::StdRng,
    ) -> (r: Result<u64, ConfigurationError>)
        requires
            world_wf(old(self).bodies@),
        ensures
            world_wf(final(self).bodies@),
            exists|phase: i128|
                {
                    &&& 0 <= phase < PHASE_FULL
                    &&& ((r is Ok) == (#[trigger] add_orbiting_spec(
                        old(self).bodies@,
                        parent_id,
                        mass,
                        size,
                        height,
                        phase,
                    ) is Ok))
                    &&& (r is Ok ==> final(self).bodies@ == add_orbiting_spec(
                        old(self).bodies@,
                        parent_id,
                        mass,
                        size,
                        height,
                        phase,
                    )->Ok_0 && r->Ok_0 == old(self).bodies@.len() as u64)
                    &&& (r is Err ==> final(self).bodies@ == old(self).bodies@ && r->Err_0
                        == add_orbiting_spec(
                        old(self).bodies@,
                        parent_id,
                        mass,
                        size,
                        height,
                        phase,
                    )->Err_0)
                },
    {
        let phase = draw_phase(rng);
        let r = self.add_orbiting(parent_id, mass, size, height, phase);
        proof {
            let w0 = old(self).bodies@;
            assert(0 <= phase < PHASE_FULL && ((r is Ok) == (add_orbiting_spec(
                w0,
                parent_id,
                mass,
                size,
                height,
                phase,
            ) is Ok)));
        }
        r
    }
}

} // verus!
