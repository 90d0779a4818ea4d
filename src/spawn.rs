//! The spawn feed: waves of particles, their schedule, and the one-time
//! obstacle.
use vstd::prelude::*;

use crate::geometry::Vec3;
use crate::model::{Body, Particle};
use crate::units::{SIZE_X, SIZE_Y};

verus! {

/// Radius of a particle (40 world units): the spacing within a wave.
pub const PARTICLE_RADIUS: i64 = 4000;

/// Particles in a wave: a quarter of the domain's width, one per radius.
pub const SPAWN_COUNT: usize = 5;

/// Downward speed of a new particle: two radii per wave at five waves a second.
pub const SPAWN_SPEED: i64 = 40_000;

/// Where the obstacle appears, and how fast it falls.
pub const OBSTACLE_START_X: i64 = -30_000;

pub const OBSTACLE_START_Y: i64 = 1_000_000;

pub const OBSTACLE_START_SPEED: i64 = 100_000;

/// Particle `k` of a wave, with lateral velocity `(vx, vz)`: on the top face,
/// one radius in from the left wall and one radius after the previous one,
/// falling.
pub open spec fn spawned(k: int, vx: i64, vz: i64) -> Particle {
    Particle {
        position: Vec3 {
            x: (-(SIZE_X / 2) + PARTICLE_RADIUS + k * PARTICLE_RADIUS) as i64,
            y: (SIZE_Y / 2) as i64,
            z: 0,
        },
        velocity: Vec3 { x: vx, y: (-SPAWN_SPEED) as i64, z: vz },
        acceleration: Vec3::spec_zero(),
        density: 0,
        pressure: 0,
        force: Vec3::spec_zero(),
    }
}

/// One wave of particles; `jitter[k]` is the small random lateral velocity
/// of particle `k` that keeps them from stacking.
pub fn spawn_particles(jitter: &Vec<(i64, i64)>) -> (wave: Vec<Particle>)
    requires
        jitter.len() == SPAWN_COUNT,
    ensures
        wave.len() == SPAWN_COUNT,
        forall|k: int|
            0 <= k < SPAWN_COUNT ==> #[trigger] wave@[k] == spawned(k, jitter@[k].0, jitter@[k].1),
{
    let mut wave: Vec<Particle> = Vec::new();
    let mut k: usize = 0;
    while k < SPAWN_COUNT
        invariant
            0 <= k <= SPAWN_COUNT,
            jitter.len() == SPAWN_COUNT,
            wave.len() == k,
            forall|i: int|
                0 <= i < k ==> #[trigger] wave@[i] == spawned(i, jitter@[i].0, jitter@[i].1),
        decreases SPAWN_COUNT - k,
    {
        let (vx, vz) = jitter[k];
        let x = -(SIZE_X / 2) + PARTICLE_RADIUS + k as i64 * PARTICLE_RADIUS;
        let position = Vec3 { x, y: SIZE_Y / 2, z: 0 };
        let velocity = Vec3 { x: vx, y: -SPAWN_SPEED, z: vz };
        wave.push(Particle::new(position, velocity));
        k += 1;
    }
    wave
}

/// The waves of particles that are due.
#[derive(Clone, Copy, Debug, PartialEq, Eq)]
pub struct ParticleScheduled {
    pub wave: usize,
}

impl ParticleScheduled {
    pub fn new() -> (r: ParticleScheduled)
        ensures
            r.wave == 0,
    {
        ParticleScheduled { wave: 0 }
    }

    /// While the button is held and no wave is due, one becomes due.
    pub fn mouse_handler(&mut self, pressed: bool)
        ensures
            final(self).wave == if pressed && old(self).wave == 0 {
                1
            } else {
                old(self).wave as int
            },
    {
        if pressed && self.wave == 0 {
            self.wave = 1;
        }
    }

    /// At each spawn tick: whether a wave is to be spawned now, which takes
    /// it off the schedule.
    pub fn scheduled_spawner(&mut self) -> (spawn: bool)
        ensures
            spawn == (old(self).wave > 0),
            final(self).wave == if spawn {
                old(self).wave - 1
            } else {
                old(self).wave as int
            },
    {
        if self.wave > 0 {
            self.wave = self.wave - 1;
            true
        } else {
            false
        }
    }
}

/// The obstacle appears once, at the first press of its key: the body it
/// brings in, high above the domain and falling. `spawned` records that it
/// has appeared.
pub fn add_mesh(spawned: &mut bool, key_just_pressed: bool) -> (body: Option<Body>)
    ensures
        body.is_some() == (key_just_pressed && !*old(spawned)),
        *final(spawned) == (*old(spawned) || key_just_pressed),
        body.is_some() ==> body.unwrap() == (Body {
            position: Vec3 { x: OBSTACLE_START_X, y: OBSTACLE_START_Y, z: 0 },
            velocity: Vec3 { x: 0, y: (-OBSTACLE_START_SPEED) as i64, z: 0 },
            force: Vec3::spec_zero(),
        }),
{
    if key_just_pressed && !*spawned {
        *spawned = true;
        Some(
            Body::new(
                Vec3::new(OBSTACLE_START_X, OBSTACLE_START_Y, 0),
                Vec3::new(0, -OBSTACLE_START_SPEED, 0),
            ),
        )
    } else {
        None
    }
}

} // verus!
