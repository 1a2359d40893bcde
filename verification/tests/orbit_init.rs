use rusty_planets::body::{Body, BodyKind, PhysicsData};
use rusty_planets::fixed::SCALE;
use rusty_planets::orbit::{cos_phase_fx, sin_phase_fx, PHASE_FULL, PHASE_HALF, PHASE_QUARTER};
use rusty_planets::vec2::Vec2;

fn parent_at_rest(mass: i128) -> PhysicsData {
    PhysicsData {
        id: 0,
        position: Vec2 { x: 0, y: 0 },
        velocity: Vec2 { x: 0, y: 0 },
        mass,
        size: SCALE,
    }
}

#[test]
fn trigonometry_hits_the_axes() {
    assert_eq!(cos_phase_fx(0), 1_000_000);
    assert_eq!(sin_phase_fx(0), 0);
    // a quarter turn: cosine vanishes to within the polynomial's error
    assert_eq!(cos_phase_fx(PHASE_QUARTER), -25);
    assert_eq!(sin_phase_fx(PHASE_QUARTER), 1_000_004);
    assert_eq!(cos_phase_fx(PHASE_HALF), -1_000_000);
    assert_eq!(sin_phase_fx(PHASE_HALF), 0);
    assert_eq!(cos_phase_fx(PHASE_HALF + PHASE_QUARTER), 25);
    assert_eq!(sin_phase_fx(PHASE_HALF + PHASE_QUARTER), -1_000_004);
    assert!(PHASE_FULL == 2 * SCALE);
}

#[test]
fn trigonometry_mid_quadrant() {
    // cos(pi/4) = sin(pi/4) = 0.7071067...
    assert_eq!(cos_phase_fx(250_000), 707_107);
    assert_eq!(sin_phase_fx(250_000), 707_107);
}

#[test]
fn stable_orbit_at_phase_zero_is_exact() {
    // a 1e24 kg parent, a 1000 kg child on a 1000 km orbit
    let parent = parent_at_rest(1_000_000_000_000_000_000_000_000 * SCALE);
    let b = Body::new_stable_orbit(&parent, 1, 0, 1000 * SCALE, SCALE, 1_000_000_000_000, 0);
    assert_eq!(b.id, 1);
    assert_eq!(b.kind, BodyKind::Orbiting);
    assert_eq!(b.parent_id, Some(0));
    assert_eq!(b.position, Vec2 { x: 1_000_000_000_000, y: 0 });
    // circular-orbit speed sqrt(mu / h) = 8169.638914... m/s, prograde
    assert_eq!(b.velocity, Vec2 { x: 0, y: 8_169_638_914 });
}

#[test]
fn stable_orbit_is_deterministic() {
    let parent = PhysicsData {
        id: 7,
        position: Vec2 { x: 123_456, y: -654_321 },
        velocity: Vec2 { x: 1_000, y: -2_000 },
        mass: 5_000_000 * SCALE,
        size: SCALE,
    };
    let b1 = Body::new_stable_orbit(&parent, 8, 7, 40 * SCALE, SCALE, 900_000_000, 731_552);
    let b2 = Body::new_stable_orbit(&parent, 8, 7, 40 * SCALE, SCALE, 900_000_000, 731_552);
    assert_eq!(b1, b2);
}

#[test]
fn nested_orbit_velocity_is_exact_vector_sum() {
    // star (1e24 kg) -> planet (1e20 kg, 1e9 m) -> moon (1e3 kg, 1e6 m)
    let star = parent_at_rest(1_000_000_000_000_000_000_000_000 * SCALE);
    let planet_mass = 100_000_000_000_000_000_000 * SCALE;
    let planet = Body::new_stable_orbit(&star, 1, 0, planet_mass, SCALE, 1_000_000_000_000_000, 0);
    assert_eq!(planet.position, Vec2 { x: 1_000_000_000_000_000, y: 0 });
    assert_eq!(planet.velocity, Vec2 { x: 0, y: 258_359_583 });

    let moon = Body::new_stable_orbit(
        &planet.physics_data(),
        2,
        1,
        1000 * SCALE,
        SCALE,
        1_000_000_000_000,
        500_000,
    );
    // the same construction against a motionless copy of the parent
    // isolates the moon's own relative orbital velocity
    let still = PhysicsData {
        velocity: Vec2 { x: 0, y: 0 },
        ..planet.physics_data()
    };
    let relative = Body::new_stable_orbit(&still, 2, 1, 1000 * SCALE, SCALE, 1_000_000_000_000, 500_000);
    assert_eq!(
        moon.velocity.x,
        planet.velocity.x + relative.velocity.x,
    );
    assert_eq!(
        moon.velocity.y,
        planet.velocity.y + relative.velocity.y,
    );
    // and the concrete numbers
    assert_eq!(moon.position, Vec2 { x: 999_999_975_000_000, y: 1_000_004_000_000 });
    assert_eq!(moon.velocity, Vec2 { x: -81_696_224, y: 258_357_541 });
    assert_eq!(relative.velocity, Vec2 { x: -81_696_224, y: -2_042 });
}
