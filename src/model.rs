//! The simulated entities.
use vstd::prelude::*;

use crate::geometry::Vec3;

verus! {

/// One fluid sample.
#[derive(Clone, Copy, Debug, PartialEq, Eq)]
pub struct Particle {
    pub position: Vec3,
    pub velocity: Vec3,
    /// Reserved: the wall stage adds a damping term here, and nothing reads it.
    pub acceleration: Vec3,
    pub density: i64,
    pub pressure: i64,
    pub force: Vec3,
}

/// The rigid obstacle's dynamic state.
#[derive(Clone, Copy, Debug, PartialEq, Eq)]
pub struct Body {
    pub position: Vec3,
    pub velocity: Vec3,
    pub force: Vec3,
}

/// The obstacle's collision surface, as the coupling stage sees it: the
/// world-space origin from which rays are cast toward the particles.
#[derive(Clone, Copy, Debug, PartialEq, Eq)]
pub struct BoxCollision {
    pub origin: Vec3,
}

impl Particle {
    /// A particle as the spawn feed creates it, with cleared accumulators.
    pub fn new(position: Vec3, velocity: Vec3) -> (r: Particle)
        ensures
            r.position == position,
            r.velocity == velocity,
            r.acceleration == Vec3::spec_zero(),
            r.density == 0,
            r.pressure == 0,
            r.force == Vec3::spec_zero(),
    {
        Particle {
            position,
            velocity,
            acceleration: Vec3::zero(),
            density: 0,
            pressure: 0,
            force: Vec3::zero(),
        }
    }
}

impl Body {
    pub fn new(position: Vec3, velocity: Vec3) -> (r: Body)
        ensures
            r.position == position,
            r.velocity == velocity,
            r.force == Vec3::spec_zero(),
    {
        Body { position, velocity, force: Vec3::zero() }
    }
}

} // verus!
