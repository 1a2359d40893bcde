use rusty_planets::body::{Body, BodyKind, PhysicsData, PhysicsFrame};
use rusty_planets::fixed::{DIST_FLOOR, SCALE};
use rusty_planets::vec2::Vec2;
use rusty_planets::world::World;

const STAR_MASS: i128 = 1_000_000_000_000_000_000_000_000 * SCALE; // 1e24 kg
const CHILD_MASS: i128 = 1000 * SCALE; // 1e3 kg
const ORBIT_RADIUS: i128 = 1_000_000_000_000; // 1000 km

fn star_and_child() -> World {
    let mut w = World::new();
    let star = w.add_anchored(STAR_MASS, SCALE, Vec2 { x: 0, y: 0 }).unwrap();
    w.add_orbiting(star, CHILD_MASS, SCALE, ORBIT_RADIUS, 0).unwrap();
    w
}

#[test]
fn one_step_has_exact_committed_state() {
    let mut w = star_and_child();
    w.step(SCALE); // dt = 1 s
    let star = w.body_at(0);
    assert_eq!(star.position, Vec2 { x: 0, y: 0 });
    assert_eq!(star.velocity, Vec2 { x: 0, y: 0 });
    let child = w.body_at(1);
    // position advanced by the pre-step velocity; velocity pulled inward
    assert_eq!(child.position, Vec2 { x: 1_000_000_000_000, y: 8_169_638_914 });
    assert_eq!(child.velocity, Vec2 { x: -66_743_000, y: 8_169_638_914 });
}

#[test]
fn orbit_closes_after_one_period() {
    // period T = 2*pi*sqrt(h^3 / mu) = 769.09 s; dt = 0.01 s
    let mut w = star_and_child();
    let start = w.body_at(1).position;
    let dt: i128 = 10_000;
    let steps: usize = 76_909;
    let mut farthest: i128 = 0;
    for i in 0..steps {
        w.step(dt);
        if i == steps / 2 {
            let p = w.body_at(1).position;
            let (dx, dy) = (p.x - start.x, p.y - start.y);
            farthest = dx * dx + dy * dy;
        }
    }
    // half-way round it is about two radii from its start
    let three_halves = 3 * ORBIT_RADIUS / 2;
    assert!(farthest > three_halves * three_halves);
    // after a full period it is back within one percent of the radius
    let p = w.body_at(1).position;
    let (dx, dy) = (p.x - start.x, p.y - start.y);
    let allow = ORBIT_RADIUS / 100;
    assert!(dx * dx + dy * dy < allow * allow);
}

#[test]
fn mass_size_and_identity_never_change() {
    let mut w = star_and_child();
    w.add_orbiting(0, 500 * SCALE, 2 * SCALE, 2_000_000_000_000, 250_000).unwrap();
    let before: Vec<Body> = (0..w.len()).map(|i| w.body_at(i)).collect();
    for _ in 0..100 {
        w.step(7 * SCALE);
    }
    assert_eq!(w.len(), before.len());
    for (i, b) in before.iter().enumerate() {
        let now = w.body_at(i);
        assert_eq!(now.id, b.id);
        assert_eq!(now.kind, b.kind);
        assert_eq!(now.parent_id, b.parent_id);
        assert_eq!(now.mass, b.mass);
        assert_eq!(now.size, b.size);
    }
}

#[test]
fn tiny_worlds_survive_any_stepping() {
    // empty world
    let mut w = World::new();
    for _ in 0..10 {
        w.step(SCALE);
    }
    assert_eq!(w.len(), 0);

    // one anchored body: nothing moves
    let mut w = World::new();
    w.add_anchored(STAR_MASS, SCALE, Vec2 { x: 42, y: -42 }).unwrap();
    for _ in 0..10 {
        w.step(1_000_000_000 * SCALE);
    }
    assert_eq!(w.body_at(0).position, Vec2 { x: 42, y: -42 });
    assert_eq!(w.body_at(0).velocity, Vec2 { x: 0, y: 0 });

    // one orbiting body: no neighbours, no forces; it coasts
    let lone = Body {
        id: 0,
        kind: BodyKind::Orbiting,
        parent_id: None,
        mass: CHILD_MASS,
        size: SCALE,
        position: Vec2 { x: 0, y: 0 },
        velocity: Vec2 { x: 3 * SCALE, y: 4 * SCALE },
    };
    let mut w = World { bodies: vec![lone] };
    w.step(10 * SCALE);
    assert_eq!(w.body_at(0).velocity, Vec2 { x: 3 * SCALE, y: 4 * SCALE });
    assert_eq!(w.body_at(0).position, Vec2 { x: 30 * SCALE, y: 40 * SCALE });
}

#[test]
fn anchored_bodies_never_move() {
    let mut w = star_and_child();
    w.add_orbiting(0, CHILD_MASS, SCALE, 3_000_000_000_000, 1_200_000).unwrap();
    for _ in 0..50 {
        w.step(13 * SCALE / 10);
    }
    let star = w.body_at(0);
    assert_eq!(star.position, Vec2 { x: 0, y: 0 });
    assert_eq!(star.velocity, Vec2 { x: 0, y: 0 });
    assert_eq!(star.kind, BodyKind::Anchored);
}

#[test]
fn tick_result_ignores_neighbour_order() {
    let w = {
        let mut w = World::new();
        let star = w.add_anchored(STAR_MASS, SCALE, Vec2 { x: 0, y: 0 }).unwrap();
        w.add_orbiting(star, CHILD_MASS, SCALE, ORBIT_RADIUS, 0).unwrap();
        w.add_orbiting(star, 500 * SCALE, SCALE, 2_000_000_000_000, 700_000).unwrap();
        w.add_orbiting(star, 700 * SCALE, SCALE, 1_500_000_000_000, 1_400_000).unwrap();
        w
    };
    let body = w.body_at(1);
    let forward: Vec<PhysicsData> = (0..w.len()).map(|i| w.body_at(i).physics_data()).collect();
    let mut backward = forward.clone();
    backward.reverse();
    let f1 = body.tick(&forward, 55 * SCALE);
    let f2 = body.tick(&backward, 55 * SCALE);
    assert_eq!(f1, f2);
}

#[test]
fn coincident_bodies_stay_finite() {
    // the distance floor is one millimetre in raw units
    assert_eq!(DIST_FLOOR, 1_000);

    // two bodies on the very same point attract each other not at all:
    // the offset, and with it both projected components, is zero
    let at = Vec2 { x: 5, y: 5 };
    let mk = |id: u64| Body {
        id,
        kind: BodyKind::Orbiting,
        parent_id: None,
        mass: 1_000_000_000_000 * SCALE,
        size: SCALE,
        position: at,
        velocity: Vec2 { x: 0, y: 0 },
    };
    let mut w = World { bodies: vec![mk(0), mk(1)] };
    w.step(SCALE);
    assert_eq!(w.body_at(0).position, at);
    assert_eq!(w.body_at(1).position, at);
    assert_eq!(w.body_at(0).velocity, Vec2 { x: 0, y: 0 });

    // one micrometre apart: the floored distance caps the pull at a
    // finite, exactly defined value
    let b0 = mk(0);
    let b1 = Body { position: Vec2 { x: 6, y: 5 }, ..mk(1) };
    let mut w = World { bodies: vec![b0, b1] };
    w.step(SCALE);
    assert_eq!(w.body_at(0).velocity, Vec2 { x: 133_486_000_000, y: 0 });
    assert_eq!(w.body_at(1).velocity, Vec2 { x: -133_486_000_000, y: 0 });
}

#[test]
fn capability_accessors_report_the_fields() {
    let w = star_and_child();
    let child = w.body_at(1);
    assert_eq!(child.mass(), CHILD_MASS);
    assert_eq!(child.size(), SCALE);
    assert_eq!(child.id(), 1);
    assert_eq!(child.kind(), BodyKind::Orbiting);
    assert_eq!(child.parent_id(), Some(0));
    let m = child.motion();
    assert_eq!(m.position, child.position);
    assert_eq!(m.velocity, child.velocity);
    let d: PhysicsData = child.physics_data();
    assert_eq!(d.id, 1);
    assert_eq!(d.mass, CHILD_MASS);
    assert_eq!(d.position, child.position);
    assert_eq!(d.velocity, child.velocity);
}

#[test]
fn commit_applies_only_to_orbiting_bodies() {
    let w = star_and_child();
    let frame = PhysicsFrame {
        position: Vec2 { x: 777, y: -777 },
        velocity: Vec2 { x: 1, y: -1 },
    };

    // an anchored body ignores any frame
    let mut star = w.body_at(0);
    let before = star;
    star.commit(frame);
    assert_eq!(star, before);

    // an orbiting body takes position and velocity, and nothing else
    let mut child = w.body_at(1);
    child.commit(frame);
    assert_eq!(child.position, frame.position);
    assert_eq!(child.velocity, frame.velocity);
    assert_eq!(child.mass, w.body_at(1).mass);
    assert_eq!(child.size, w.body_at(1).size);
    assert_eq!(child.id, 1);
}
