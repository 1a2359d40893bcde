//! The laws the simulation obeys, each proved from the contracts of the
//! step and of its pieces: what a step may never change, how worlds too
//! small for forces behave, that anchored bodies are truly fixed, and
//! that the committed result of a step does not depend on the order in
//! which bodies are iterated.

use vstd::prelude::*;
use crate::fixed::sat;
use crate::vec2::{Vec2, vec_in_range};
use crate::body::{
    Body, BodyKind, PhysicsData, body_wf, data_of, accel_term, accel_sum, tick_spec, commit_spec,
};
use crate::world::{world_wf, snapshot_spec, stepped_body, step_spec};

verus! {

/// The world after a whole sequence of steps, each with its own time
/// delta.
pub open spec fn run_spec(w: Seq<Body>, dts: Seq<int>) -> Seq<Body>
    decreases dts.len(),
{
    if dts.len() == 0 {
        w
    } else {
        run_spec(step_spec(w, dts[0]), dts.drop_first())
    }
}

/// Mass, size, id, kind and parent are invariant under any number of
/// steps with any time deltas; only position and velocity ever change.
pub proof fn lemma_run_preserves_identity(w: Seq<Body>, dts: Seq<int>, i: int)
    requires
        0 <= i < w.len(),
    ensures
        run_spec(w, dts).len() == w.len(),
        run_spec(w, dts)[i].id == w[i].id,
        run_spec(w, dts)[i].kind == w[i].kind,
        run_spec(w, dts)[i].parent_id == w[i].parent_id,
        run_spec(w, dts)[i].mass == w[i].mass,
        run_spec(w, dts)[i].size == w[i].size,
    decreases dts.len(),
{
    if dts.len() > 0 {
        lemma_run_preserves_identity(step_spec(w, dts[0]), dts.drop_first(), i);
    }
}

/// An anchored body is a fixed reference frame: its position and
/// velocity are unchanged by any sequence of steps with any time
/// deltas.
pub proof fn lemma_anchored_fixed(w: Seq<Body>, dts: Seq<int>, i: int)
    requires
        0 <= i < w.len(),
        w[i].kind is Anchored,
    ensures
        run_spec(w, dts).len() == w.len(),
        run_spec(w, dts)[i] == w[i],
    decreases dts.len(),
{
    if dts.len() > 0 {
        assert(step_spec(w, dts[0])[i] == w[i]);
        lemma_anchored_fixed(step_spec(w, dts[0]), dts.drop_first(), i);
    }
}

/// In a world of at most one body no forces arise: one step keeps every
/// body's velocity, and keeps the position of a body that is anchored
/// or at rest.
pub proof fn lemma_small_world_step(w: Seq<Body>, dt: int)
    requires
        world_wf(w),
        w.len() <= 1,
    ensures
        step_spec(w, dt).len() == w.len(),
        forall|i: int| 0 <= i < w.len() ==> (#[trigger] step_spec(w, dt)[i]).velocity == w[i].velocity,
        forall|i: int|
            0 <= i < w.len() && (w[i].kind is Anchored || w[i].velocity == (Vec2 { x: 0, y: 0 }))
                ==> (#[trigger] step_spec(w, dt)[i]) == w[i],
{
    if w.len() == 1 {
        let b = w[0];
        match b.kind {
            BodyKind::Anchored => {},
            BodyKind::Orbiting => {
                let snap = snapshot_spec(w);
                assert(snap.len() == 1 && snap[0] == data_of(b));
                assert(accel_sum(b.position, b.mass as int, b.id, snap, 1) == accel_sum(
                    b.position,
                    b.mass as int,
                    b.id,
                    snap,
                    0,
                ));
                assert(step_spec(w, dt)[0].velocity == w[0].velocity);
            },
        }
    }
}

/// A world of at most one body survives any number of steps: velocities
/// never change, and a body that is anchored or at rest does not move
/// at all.
pub proof fn lemma_small_world_run(w: Seq<Body>, dts: Seq<int>)
    requires
        world_wf(w),
        w.len() <= 1,
    ensures
        run_spec(w, dts).len() == w.len(),
        forall|i: int| 0 <= i < w.len() ==> (#[trigger] run_spec(w, dts)[i]).velocity
            == w[i].velocity,
        forall|i: int|
            0 <= i < w.len() && (w[i].kind is Anchored || w[i].velocity == (Vec2 { x: 0, y: 0 }))
                ==> (#[trigger] run_spec(w, dts)[i]) == w[i],
    decreases dts.len(),
{
    if dts.len() > 0 {
        lemma_small_world_step(w, dts[0]);
        crate::world::lemma_step_preserves_wf(w, dts[0]);
        lemma_small_world_run(step_spec(w, dts[0]), dts.drop_first());
    }
}

/// Whatever the neighbours, a well-formed body's computed frame holds
/// only representable values: every component is saturated, so no step
/// can commit an out-of-range (let alone undefined) position or
/// velocity.
pub proof fn lemma_tick_in_range(b: Body, others: Seq<PhysicsData>, dt: int)
    requires
        body_wf(b),
    ensures
        vec_in_range(tick_spec(b, others, dt).position),
        vec_in_range(tick_spec(b, others, dt).velocity),
{
    match b.kind {
        BodyKind::Anchored => {},
        BodyKind::Orbiting => {},
    }
}

/// A neighbour standing exactly on a body's position contributes no
/// acceleration at all: the offset is zero, so both projected
/// components vanish — coincident bodies are safe, not explosive.
pub proof fn lemma_coincident_term_zero(position: Vec2, mass: int, o: PhysicsData)
    requires
        o.position == position,
    ensures
        accel_term(position, mass, o) == (0int, 0int),
{
    assert(sat(0) == 0);
    assert(exists|r: int| crate::fixed::is_sqrt(0, r)) by {
        assert(crate::fixed::is_sqrt(0, 0));
    }
    crate::fixed::lemma_sqrt_unique(0, crate::fixed::sqrt_floor(0), 0);
    let dx = sat(o.position.x - position.x);
    assert(dx == 0);
    let d = crate::body::dist_with_floor(dx * dx + dx * dx);
    assert(d == crate::fixed::DIST_FLOOR as int);
    assert(accel_term(position, mass, o).0 == crate::fixed::div_tz(0, d));
    assert(accel_term(position, mass, o).1 == crate::fixed::div_tz(0, d));
    assert(crate::fixed::div_tz(0, d) == 0);
}

/// One entry's contribution, as `accel_sum` counts it: nothing for the
/// body's own id, the full term otherwise.
pub open spec fn term_of(position: Vec2, mass: int, self_id: u64, o: PhysicsData) -> (int, int) {
    if o.id == self_id {
        (0int, 0int)
    } else {
        accel_term(position, mass, o)
    }
}

/// Two snapshots that agree entrywise below `n` accumulate the same
/// acceleration over their first `n` entries.
proof fn lemma_accel_sum_congruence(
    position: Vec2,
    mass: int,
    self_id: u64,
    s1: Seq<PhysicsData>,
    s2: Seq<PhysicsData>,
    n: int,
)
    requires
        forall|j: int| 0 <= j < n ==> s1[j] == s2[j],
    ensures
        accel_sum(position, mass, self_id, s1, n) == accel_sum(position, mass, self_id, s2, n),
    decreases n,
{
    if n > 0 {
        lemma_accel_sum_congruence(position, mass, self_id, s1, s2, n - 1);
    }
}

/// Taking one entry out of the accumulation: the sum over the first `n`
/// entries equals the sum without entry `j` plus that entry's own
/// contribution.
proof fn lemma_accel_sum_remove(
    position: Vec2,
    mass: int,
    self_id: u64,
    s: Seq<PhysicsData>,
    j: int,
    n: int,
)
    requires
        0 <= j < n <= s.len(),
    ensures
        accel_sum(position, mass, self_id, s, n).0 == accel_sum(
            position,
            mass,
            self_id,
            s.remove(j),
            n - 1,
        ).0 + term_of(position, mass, self_id, s[j]).0,
        accel_sum(position, mass, self_id, s, n).1 == accel_sum(
            position,
            mass,
            self_id,
            s.remove(j),
            n - 1,
        ).1 + term_of(position, mass, self_id, s[j]).1,
    decreases n,
{
    s.remove_ensures(j);
    if j == n - 1 {
        lemma_accel_sum_congruence(position, mass, self_id, s, s.remove(j), n - 1);
    } else {
        lemma_accel_sum_remove(position, mass, self_id, s, j, n - 1);
        assert(s.remove(j)[n - 2] == s[n - 1]);
    }
}

/// Accumulated acceleration only depends on the multiset of snapshot
/// entries: any permutation of the neighbours gives the same sums.
pub proof fn lemma_accel_sum_permutation(
    position: Vec2,
    mass: int,
    self_id: u64,
    s1: Seq<PhysicsData>,
    s2: Seq<PhysicsData>,
)
    requires
        s1.to_multiset() == s2.to_multiset(),
    ensures
        accel_sum(position, mass, self_id, s1, s1.len() as int) == accel_sum(
            position,
            mass,
            self_id,
            s2,
            s2.len() as int,
        ),
    decreases s1.len(),
{
    broadcast use vstd::seq_lib::group_to_multiset_ensures;

    assert(s1.to_multiset().len() == s1.len());
    assert(s2.to_multiset().len() == s2.len());
    if s1.len() > 0 {
        let n = s1.len() as int;
        let o = s1[n - 1];
        assert(s1.contains(o));
        assert(s2.to_multiset().count(o) > 0);
        assert(s2.contains(o));
        let j = choose|j: int| 0 <= j < s2.len() && s2[j] == o;
        let s1p = s1.remove(n - 1);
        let s2p = s2.remove(j);
        s1.remove_ensures(n - 1);
        s2.remove_ensures(j);
        assert(s1p.to_multiset() =~= s1.to_multiset().remove(o));
        assert(s2p.to_multiset() =~= s2.to_multiset().remove(o));
        lemma_accel_sum_permutation(position, mass, self_id, s1p, s2p);
        lemma_accel_sum_remove(position, mass, self_id, s1, n - 1, n);
        lemma_accel_sum_remove(position, mass, self_id, s2, j, s2.len() as int);
        assert(term_of(position, mass, self_id, s1[n - 1]) == term_of(
            position,
            mass,
            self_id,
            s2[j],
        ));
    }
}

/// Reordering the bodies reorders their published snapshots: worlds
/// equal as multisets publish snapshots equal as multisets.
proof fn lemma_snapshot_multiset(w1: Seq<Body>, w2: Seq<Body>)
    requires
        w1.to_multiset() == w2.to_multiset(),
    ensures
        snapshot_spec(w1).to_multiset() == snapshot_spec(w2).to_multiset(),
    decreases w1.len(),
{
    broadcast use vstd::seq_lib::group_to_multiset_ensures;
    broadcast use vstd::multiset::group_multiset_axioms;

    assert(w1.to_multiset().len() == w1.len());
    assert(w2.to_multiset().len() == w2.len());
    if w1.len() == 0 {
        assert(w2.len() == 0);
        assert(snapshot_spec(w1) =~= Seq::<PhysicsData>::empty());
        assert(snapshot_spec(w2) =~= Seq::<PhysicsData>::empty());
        assert(snapshot_spec(w1).to_multiset() =~= snapshot_spec(w2).to_multiset());
    } else {
        let n = w1.len() as int;
        let o = w1[n - 1];
        assert(w1.contains(o));
        assert(w2.to_multiset().count(o) > 0);
        assert(w2.contains(o));
        let j = choose|j: int| 0 <= j < w2.len() && w2[j] == o;
        let w1p = w1.remove(n - 1);
        let w2p = w2.remove(j);
        assert(w1p.to_multiset() =~= w1.to_multiset().remove(o));
        assert(w2p.to_multiset() =~= w2.to_multiset().remove(o));
        lemma_snapshot_multiset(w1p, w2p);
        w1.remove_ensures(n - 1);
        w2.remove_ensures(j);
        let d = data_of(o);
        let snap1 = snapshot_spec(w1);
        let snap2 = snapshot_spec(w2);
        assert(snap1.remove(n - 1) =~= snapshot_spec(w1p));
        assert(snap2.remove(j) =~= snapshot_spec(w2p));
        assert(snap1[n - 1] == d);
        assert(snap2[j] == d);
        assert(snap1.remove(n - 1).to_multiset() =~= snap1.to_multiset().remove(d));
        assert(snap2.remove(j).to_multiset() =~= snap2.to_multiset().remove(d));
        assert(snap1.contains(d));
        assert(snap2.contains(d));
        assert(snap1.to_multiset().count(d) > 0);
        assert(snap2.to_multiset().count(d) > 0);
        assert forall|x: PhysicsData| snap1.to_multiset().count(x) == snap2.to_multiset().count(
            x,
        ) by {
            if x == d {
                assert(snap1.to_multiset().remove(d).count(d) == snap1.to_multiset().count(d) - 1);
                assert(snap2.to_multiset().remove(d).count(d) == snap2.to_multiset().count(d) - 1);
            } else {
                assert(snap1.to_multiset().remove(d).count(x) == snap1.to_multiset().count(x));
                assert(snap2.to_multiset().remove(d).count(x) == snap2.to_multiset().count(x));
            }
        }
        assert(snap1.to_multiset() =~= snap2.to_multiset());
    }
}

/// Order independence of the step: if two worlds hold the same bodies,
/// merely iterated in different orders, then any body present in both
/// steps to exactly the same committed state. The two-phase protocol
/// makes each body's post-step state a function of the frozen pre-step
/// snapshot as a multiset, never of iteration order.
pub proof fn lemma_step_order_independent(w1: Seq<Body>, w2: Seq<Body>, i: int, j: int, dt: int)
    requires
        w1.to_multiset() == w2.to_multiset(),
        0 <= i < w1.len(),
        0 <= j < w2.len(),
        w1[i] == w2[j],
    ensures
        stepped_body(w1, i, dt) == stepped_body(w2, j, dt),
{
    broadcast use vstd::seq_lib::group_to_multiset_ensures;

    lemma_snapshot_multiset(w1, w2);
    let b = w1[i];
    match b.kind {
        BodyKind::Anchored => {},
        BodyKind::Orbiting => {
            lemma_accel_sum_permutation(
                b.position,
                b.mass as int,
                b.id,
                snapshot_spec(w1),
                snapshot_spec(w2),
            );
        },
    }
}

} // verus!
