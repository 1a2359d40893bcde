//! Two-dimensional vectors of raw fixed-point components.

use vstd::prelude::*;
use crate::fixed::{in_range, sat};

verus! {

/// A 2D point or vector; each component is a raw fixed-point value.
#[derive(Clone, Copy, PartialEq, Eq, Structural, Debug)]
pub struct Vec2 {
    pub x: i128,
    pub y: i128,
}

/// Both components lie within the saturation range.
pub open spec fn vec_in_range(v: Vec2) -> bool {
    in_range(v.x as int) && in_range(v.y as int)
}

/// Build a vector by saturating two unbounded components.
pub open spec fn sat_vec(x: int, y: int) -> Vec2 {
    Vec2 { x: sat(x) as i128, y: sat(y) as i128 }
}

} // verus!
