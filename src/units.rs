//! Fixed-point units and the physical constants of the simulation.
//!
//! Lengths are hundredths of a world unit, velocities hundredths of a world
//! unit per second, densities and pressures 1e-12 of their world unit,
//! forces 1e-12 of a world force, and time steps microseconds.
use vstd::prelude::*;

verus! {

/// Length units per world unit.
pub const LENGTH_SCALE: i64 = 100;

/// Microseconds per second.
pub const MICROS_PER_SECOND: i128 = 1_000_000;

/// Smoothing length `h` (80 world units).
pub const SMOOTHING_LENGTH: i128 = 8000;

/// `h * h`.
pub const SMOOTHING_LENGTH_SQ: i128 = 64_000_000;

/// The poly6 kernel gives `(h^2 - r^2)^3 / DENSITY_KERNEL_DIVISOR`: the
/// normalisation `315 m / (64 pi h^9)` for a particle mass of 50, as the
/// reciprocal of a factor in these units.
pub const DENSITY_KERNEL_DIVISOR: i128 = 1_713_401_613_272_637;

/// The density that a particle contributes to itself: the kernel at `r = 0`.
pub const SELF_DENSITY: i64 = 152_996_237;

/// Stiffness of the equation of state `p = k (rho - rho0)`.
pub const ISOTROPIC_EXPONENT: i64 = 300_000;

/// Rest density `rho0` (0.00025).
pub const BASE_DENSITY: i64 = 250_000_000;

/// Pressure-force normalisation `-45 m / (pi h^6)`, as a fraction.
pub const PRESSURE_FORCE_NUM: i128 = -273_208;

pub const PRESSURE_FORCE_DEN: i128 = 1_000_000;

/// Viscous-force normalisation `45 mu m / (pi h^6)` (viscosity 2).
pub const VISCOUS_FORCE: i128 = 546_415_133_601;

/// Gravity, in length units per second squared (-200 world units).
pub const GRAVITY: i128 = -20_000;

/// Force units per unit of the rigid body's acceleration (mass 0.01).
pub const BODY_FORCE_PER_ACCEL: i128 = 100_000_000;

/// Edge length of the rigid body (150 world units).
pub const BODY_SIZE: i64 = 15_000;

/// Edges of the domain box (800 x 400 x 400 world units).
pub const SIZE_X: i64 = 80_000;

pub const SIZE_Y: i64 = 40_000;

pub const SIZE_Z: i64 = 40_000;

/// The speed that the rigid body gets back from a wall (one world unit).
pub const BODY_BOUNCE_SPEED: i64 = 100;

/// Restitution coefficient `e = 0.828` at the walls, as a fraction.
pub const COEF_REST_NUM: i128 = 828;

pub const COEF_REST_DEN: i128 = 1000;

/// Damping and mass of a particle, for the reserved damping term.
pub const PARTICLE_DAMPING: i128 = 10;

pub const PARTICLE_MASS: i128 = 50;

/// Stiffness of the obstacle's push, per length unit of deflection (0.04).
pub const PARTICLE_STIFFNESS: i128 = 400_000_000;

/// How far the obstacle's hull is inflated beyond a ray hit (50 world units).
pub const HULL_MARGIN: i64 = 5000;

/// Largest number of particles that the stages accept: each particle's
/// force sums one bounded term per other particle into an `i64`, and this
/// many terms of the largest pair force still fit beside the largest input
/// force.
pub const MAX_PARTICLES: usize = 4096;

/// Largest coordinate magnitude that the stages accept.
pub const MAX_COORD: i64 = 0x4000_0000;

/// Largest velocity component that the force and integration stages accept.
pub const MAX_SPEED: i64 = 0x100_0000;

/// Largest force component that the stages accept on input.
pub const MAX_FORCE: i64 = 0x4000_0000_0000_0000;

/// Largest magnitude of the reserved acceleration field on input.
pub const MAX_ACCELERATION: i64 = 0x4000_0000_0000_0000;

/// Largest ray-hit distance that the obstacle stage accepts.
pub const MAX_HIT_DISTANCE: i64 = 0x10_0000;

/// Largest time step, in microseconds (ten seconds).
pub const MAX_DT: i64 = 10_000_000;

/// A bound on each component of the pressure force of one pair.
pub const PAIR_PRESSURE_BOUND: i128 = 15_736_780_800_000;

/// A bound on each component of the viscous force of one pair.
pub const PAIR_VISCOUS_BOUND: i128 = 479_349_029_850_602;

} // verus!
