use rusty_planets::body::{BodyKind, MAX_BODIES};
use rusty_planets::fixed::{LIMIT, MASS_LIMIT, SCALE};
use rusty_planets::params::{BodyParams, WorldParams};
use rusty_planets::rng::{draw_phase, seed_rng};
use rusty_planets::vec2::Vec2;
use rusty_planets::world::{ConfigurationError, World};

const STAR_MASS: i128 = 1_000_000_000_000_000_000_000_000 * SCALE;

fn leaf(mass: i128, height: i128, phase: i128) -> BodyParams {
    BodyParams { mass, diameter: SCALE, height, phase, children: Vec::new() }
}

#[test]
fn builder_assigns_sequential_ids_and_parents() {
    let params = WorldParams {
        stars: vec![leaf(STAR_MASS, 0, 0)],
        planets: vec![
            BodyParams {
                children: vec![leaf(1000 * SCALE, 1_000_000_000_000, 500_000)],
                ..leaf(100_000_000_000_000_000_000 * SCALE, 1_000_000_000_000_000, 0)
            },
            leaf(500 * SCALE, 2_000_000_000_000, 250_000),
        ],
    };
    let w = World::new_from_params(&params).unwrap();
    assert_eq!(w.len(), 4);
    for i in 0..4 {
        assert_eq!(w.body_at(i).id, i as u64);
    }
    let star = w.body_at(0);
    assert_eq!(star.kind, BodyKind::Anchored);
    assert_eq!(star.parent_id, None);
    assert_eq!(star.position, Vec2 { x: 0, y: 0 });
    // planet, then its moon, then the second planet
    assert_eq!(w.body_at(1).kind, BodyKind::Orbiting);
    assert_eq!(w.body_at(1).parent_id, Some(0));
    assert_eq!(w.body_at(2).parent_id, Some(1));
    assert_eq!(w.body_at(3).parent_id, Some(0));
    // the moon was resolved against the planet's motion at construction
    assert_eq!(w.body_at(1).position, Vec2 { x: 1_000_000_000_000_000, y: 0 });
    assert_eq!(w.body_at(2).position, Vec2 { x: 999_999_975_000_000, y: 1_000_004_000_000 });
    assert_eq!(w.body_at(2).velocity, Vec2 { x: -81_696_224, y: 258_357_541 });
}

#[test]
fn builder_rejects_empty_configurations() {
    let params = WorldParams { stars: Vec::new(), planets: Vec::new() };
    assert!(matches!(
        World::new_from_params(&params),
        Err(ConfigurationError::NoAnchor)
    ));
}

#[test]
fn builder_rejects_bad_masses() {
    let params = WorldParams { stars: vec![leaf(0, 0, 0)], planets: Vec::new() };
    assert!(matches!(
        World::new_from_params(&params),
        Err(ConfigurationError::InvalidMass)
    ));
    let params = WorldParams { stars: vec![leaf(MASS_LIMIT + 1, 0, 0)], planets: Vec::new() };
    assert!(matches!(
        World::new_from_params(&params),
        Err(ConfigurationError::InvalidMass)
    ));
}

#[test]
fn builder_rejects_bad_sizes() {
    let star = BodyParams { diameter: 0, ..leaf(STAR_MASS, 0, 0) };
    let params = WorldParams { stars: vec![star], planets: Vec::new() };
    assert!(matches!(
        World::new_from_params(&params),
        Err(ConfigurationError::InvalidSize)
    ));
}

#[test]
fn builder_rejects_bad_heights_and_phases() {
    let params = WorldParams {
        stars: vec![leaf(STAR_MASS, 0, 0)],
        planets: vec![leaf(1000 * SCALE, 0, 0)],
    };
    assert!(matches!(
        World::new_from_params(&params),
        Err(ConfigurationError::InvalidHeight)
    ));
    let params = WorldParams {
        stars: vec![leaf(STAR_MASS, 0, 0)],
        planets: vec![leaf(1000 * SCALE, 1_000_000_000, 2_000_000)],
    };
    assert!(matches!(
        World::new_from_params(&params),
        Err(ConfigurationError::InvalidPhase)
    ));
    let params = WorldParams {
        stars: vec![leaf(STAR_MASS, 0, 0)],
        planets: vec![leaf(1000 * SCALE, 1_000_000_000, -1)],
    };
    assert!(matches!(
        World::new_from_params(&params),
        Err(ConfigurationError::InvalidPhase)
    ));
}

#[test]
fn adding_rejects_out_of_range_anchors_and_parents() {
    let mut w = World::new();
    assert_eq!(
        w.add_anchored(STAR_MASS, SCALE, Vec2 { x: LIMIT + 1, y: 0 }),
        Err(ConfigurationError::InvalidPosition),
    );
    w.add_anchored(STAR_MASS, SCALE, Vec2 { x: 0, y: 0 }).unwrap();
    assert_eq!(
        w.add_orbiting(5, 1000 * SCALE, SCALE, 1_000_000_000, 0),
        Err(ConfigurationError::UnknownParent),
    );
}

#[test]
fn world_is_capacity_bounded() {
    let mut w = World::new();
    for _ in 0..MAX_BODIES {
        w.add_anchored(SCALE, SCALE, Vec2 { x: 0, y: 0 }).unwrap();
    }
    assert_eq!(
        w.add_anchored(SCALE, SCALE, Vec2 { x: 0, y: 0 }),
        Err(ConfigurationError::TooManyBodies),
    );
}

#[test]
fn lookup_by_id_is_exact() {
    let mut w = World::new();
    let star = w.add_anchored(STAR_MASS, SCALE, Vec2 { x: 1, y: 2 }).unwrap();
    let planet = w.add_orbiting(star, 1000 * SCALE, SCALE, 1_000_000_000_000, 0).unwrap();
    assert_eq!(star, 0);
    assert_eq!(planet, 1);
    assert_eq!(w.body_by_id(0).unwrap().position, Vec2 { x: 1, y: 2 });
    assert_eq!(w.body_by_id(1).unwrap().parent_id, Some(0));
    assert!(w.body_by_id(2).is_none());
}

#[test]
fn drawn_phases_are_in_range_and_reproducible() {
    let mut rng = seed_rng(2024);
    for _ in 0..100 {
        let p = draw_phase(&mut rng);
        assert!(0 <= p && p < 2_000_000);
    }

    // the same seed gives the same construction
    let build = |seed: u64| {
        let mut rng = seed_rng(seed);
        let mut w = World::new();
        let star = w.add_anchored(STAR_MASS, SCALE, Vec2 { x: 0, y: 0 }).unwrap();
        w.add_orbiting_drawn(star, 1000 * SCALE, SCALE, 1_000_000_000_000, &mut rng).unwrap();
        w
    };
    let w1 = build(99);
    let w2 = build(99);
    assert_eq!(w1.body_at(1), w2.body_at(1));

    // and the drawn body really sits on the orbit circle of its parent
    let p = w1.body_at(1).position;
    let r2 = p.x * p.x + p.y * p.y;
    let h: i128 = 1_000_000_000_000;
    // |position|^2 within a percent of h^2 (trigonometry is approximate)
    assert!(r2 > h * h / 100 * 99 && r2 < h * h / 100 * 101);
}
