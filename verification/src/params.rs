//! World construction from an ordered list of body parameter records.
//!
//! A configuration names its anchor bodies (stars) first, then its
//! orbiting bodies (planets), each with optional child records (moons)
//! one level deep. Ids are assigned sequentially from a single counter
//! across all kinds: stars in order, then, for each planet, the planet
//! followed by its children. Every planet orbits the first star (id 0);
//! every child orbits its planet. A child's orbit is resolved against
//! its parent's motion at construction time only.

use vstd::prelude::*;
use crate::vec2::Vec2;
use crate::body::Body;
use crate::world::{
    World, ConfigurationError, world_wf, add_anchored_spec, add_orbiting_spec,
};

verus! {

/// One body record of a configuration: mass, diameter (size), orbital
/// radius and phase (both ignored for anchors), and child records.
pub struct BodyParams {
    pub mass: i128,
    pub diameter: i128,
    pub height: i128,
    pub phase: i128,
    pub children: Vec<BodyParams>,
}

/// A whole configuration: anchor records first, then orbiting records.
pub struct WorldParams {
    pub stars: Vec<BodyParams>,
    pub planets: Vec<BodyParams>,
}

/// Fold the first `n` star records into the world, anchoring each at
/// the origin; the first failed record's error wins.
pub open spec fn build_stars(w: Seq<Body>, stars: Seq<BodyParams>, n: int) -> Result<
    Seq<Body>,
    ConfigurationError,
>
    decreases n,
{
    if n <= 0 {
        Ok(w)
    } else {
        match build_stars(w, stars, n - 1) {
            Err(e) => Err(e),
            Ok(w1) => add_anchored_spec(w1, stars[n - 1].mass, stars[n - 1].diameter, Vec2 { x: 0, y: 0 }),
        }
    }
}

/// Fold the first `n` child records into the world, each orbiting the
/// body with id `parent`.
pub open spec fn build_children(
    w: Seq<Body>,
    children: Seq<BodyParams>,
    parent: u64,
    n: int,
) -> Result<Seq<Body>, ConfigurationError>
    decreases n,
{
    if n <= 0 {
        Ok(w)
    } else {
        match build_children(w, children, parent, n - 1) {
            Err(e) => Err(e),
            Ok(w1) => add_orbiting_spec(
                w1,
                parent,
                children[n - 1].mass,
                children[n - 1].diameter,
                children[n - 1].height,
                children[n - 1].phase,
            ),
        }
    }
}

/// Fold the first `n` planet records into the world: each planet orbits
/// the first star (id 0) and takes the next id; its children follow,
/// orbiting the planet.
pub open spec fn build_planets(w: Seq<Body>, planets: Seq<BodyParams>, n: int) -> Result<
    Seq<Body>,
    ConfigurationError,
>
    decreases n,
{
    if n <= 0 {
        Ok(w)
    } else {
        match build_planets(w, planets, n - 1) {
            Err(e) => Err(e),
            Ok(w1) => {
                let p = planets[n - 1];
                let pid = w1.len() as u64;
                match add_orbiting_spec(w1, 0, p.mass, p.diameter, p.height, p.phase) {
                    Err(e) => Err(e),
                    Ok(w2) => build_children(w2, p.children@, pid, p.children@.len() as int),
                }
            },
        }
    }
}

/// The world a configuration builds: its stars, then its planets with
/// their children; or the first error met, with nothing built.
pub open spec fn build_world_spec(params: WorldParams) -> Result<Seq<Body>, ConfigurationError> {
    if params.stars@.len() == 0 {
        Err(ConfigurationError::NoAnchor)
    } else {
        match build_stars(Seq::empty(), params.stars@, params.stars@.len() as int) {
            Err(e) => Err(e),
            Ok(w) => build_planets(w, params.planets@, params.planets@.len() as int),
        }
    }
}

/// An error in a star-record prefix decides the whole fold.
proof fn lemma_build_stars_extend_err(w: Seq<Body>, stars: Seq<BodyParams>, n1: int, n2: int)
    requires
        0 <= n1 <= n2,
        build_stars(w, stars, n1) is Err,
    ensures
        build_stars(w, stars, n2) == build_stars(w, stars, n1),
    decreases n2 - n1,
{
    if n2 > n1 {
        lemma_build_stars_extend_err(w, stars, n1, n2 - 1);
    }
}

/// An error in a child-record prefix decides the whole fold.
proof fn lemma_build_children_extend_err(
    w: Seq<Body>,
    children: Seq<BodyParams>,
    parent: u64,
    n1: int,
    n2: int,
)
    requires
        0 <= n1 <= n2,
        build_children(w, children, parent, n1) is Err,
    ensures
        build_children(w, children, parent, n2) == build_children(w, children, parent, n1),
    decreases n2 - n1,
{
    if n2 > n1 {
        lemma_build_children_extend_err(w, children, parent, n1, n2 - 1);
    }
}

/// An error in a planet-record prefix decides the whole fold.
proof fn lemma_build_planets_extend_err(w: Seq<Body>, planets: Seq<BodyParams>, n1: int, n2: int)
    requires
        0 <= n1 <= n2,
        build_planets(w, planets, n1) is Err,
    ensures
        build_planets(w, planets, n2) == build_planets(w, planets, n1),
    decreases n2 - n1,
{
    if n2 > n1 {
        lemma_build_planets_extend_err(w, planets, n1, n2 - 1);
    }
}

impl World {
    /// Build the initial world from a configuration: exactly the fold
    /// `build_world_spec` describes — stars first, then each planet and
    /// its children, ids assigned sequentially across all of them. The
    /// first invalid record's error aborts construction.
    #[verifier::loop_isolation(false)]
    pub fn new_from_params(params: &WorldParams) -> (r: Result<World, ConfigurationError>)
        ensures
            (r is Ok) == (build_world_spec(*params) is Ok),
            r is Ok ==> r->Ok_0.bodies@ == build_world_spec(*params)->Ok_0 && world_wf(
                r->Ok_0.bodies@,
            ),
            r is Err ==> r->Err_0 == build_world_spec(*params)->Err_0,
    {
        if params.stars.len() == 0 {
            return Err(ConfigurationError::NoAnchor);
        }
        let mut w = World::new();
        let mut i: usize = 0;
        while i < params.stars.len()
            invariant
                world_wf(w.bodies@),
                i <= params.stars@.len(),
                build_stars(Seq::empty(), params.stars@, i as int) == Ok::<
                    Seq<Body>,
                    ConfigurationError,
                >(w.bodies@),
            decreases params.stars@.len() - i,
        {
            let s = &params.stars[i];
            match w.add_anchored(s.mass, s.diameter, Vec2 { x: 0, y: 0 }) {
                Ok(_) => {},
                Err(e) => {
                    proof {
                        lemma_build_stars_extend_err(
                            Seq::empty(),
                            params.stars@,
                            i as int + 1,
                            params.stars@.len() as int,
                        );
                    }
                    return Err(e);
                },
            }
            i = i + 1;
        }
        let ghost wstars = w.bodies@;
        let mut j: usize = 0;
        while j < params.planets.len()
            invariant
                world_wf(w.bodies@),
                j <= params.planets@.len(),
                build_planets(wstars, params.planets@, j as int) == Ok::<
                    Seq<Body>,
                    ConfigurationError,
                >(w.bodies@),
            decreases params.planets@.len() - j,
        {
            let ghost w1 = w.bodies@;
            let p = &params.planets[j];
            let pid = w.len() as u64;
            match w.add_orbiting(0, p.mass, p.diameter, p.height, p.phase) {
                Ok(_) => {},
                Err(e) => {
                    proof {
                        lemma_build_planets_extend_err(
                            wstars,
                            params.planets@,
                            j as int + 1,
                            params.planets@.len() as int,
                        );
                    }
                    return Err(e);
                },
            }
            let ghost w2 = w.bodies@;
            let mut k: usize = 0;
            while k < p.children.len()
                invariant
                    world_wf(w.bodies@),
                    k <= p.children@.len(),
                    build_children(w2, p.children@, pid, k as int) == Ok::<
                        Seq<Body>,
                        ConfigurationError,
                    >(w.bodies@),
                decreases p.children@.len() - k,
            {
                let c = &p.children[k];
                match w.add_orbiting(pid, c.mass, c.diameter, c.height, c.phase) {
                    Ok(_) => {},
                    Err(e) => {
                        proof {
                            lemma_build_children_extend_err(
                                w2,
                                p.children@,
                                pid,
                                k as int + 1,
                                p.children@.len() as int,
                            );
                            lemma_build_planets_extend_err(
                                wstars,
                                params.planets@,
                                j as int + 1,
                                params.planets@.len() as int,
                            );
                        }
                        return Err(e);
                    },
                }
                k = k + 1;
            }
            j = j + 1;
        }
        Ok(w)
    }
}

} // verus!
