//! Time integration: semi-implicit Euler.
use vstd::prelude::*;

use crate::geometry::{abs, bounded, comp, div_toward_zero, lemma_tdiv_bound, tdiv, Vec3};
use crate::model::{Body, Particle};
use crate::units::{
    BODY_FORCE_PER_ACCEL, GRAVITY, LENGTH_SCALE, MAX_COORD, MAX_DT, MAX_SPEED, MICROS_PER_SECOND,
    SELF_DENSITY,
};

verus! {

/// Component `c` of gravity: it points down the y axis.
pub open spec fn gravity(c: int) -> int {
    if c == 1 {
        GRAVITY as int
    } else {
        0
    }
}

/// A coordinate after a step of `dt` microseconds at velocity `v`.
pub open spec fn step_position(p: int, v: int, dt: int) -> int {
    p + tdiv(v * dt, MICROS_PER_SECOND as int)
}

/// A particle's velocity component after a step of `dt` microseconds under
/// force `f`, density `rho` and gravity `g`: `v + dt (f / rho + g)`, rounded
/// toward zero once.
pub open spec fn step_velocity(v: int, f: int, g: int, rho: int, dt: int) -> int {
    v + tdiv(dt * (LENGTH_SCALE * f + g * rho), rho * MICROS_PER_SECOND)
}

/// The rigid body's velocity component after a step: `v + dt (f / m + g)`.
pub open spec fn body_step_velocity(v: int, f: int, g: int, dt: int) -> int {
    v + tdiv(dt * (f + g * BODY_FORCE_PER_ACCEL), BODY_FORCE_PER_ACCEL * MICROS_PER_SECOND)
}

/// What the integration asks of a particle: a density of this step (at least
/// the self term), and a position and velocity within the accepted ranges.
pub open spec fn integration_ready(p: Particle) -> bool {
    &&& bounded(p.position, MAX_COORD as int)
    &&& bounded(p.velocity, MAX_SPEED as int)
    &&& SELF_DENSITY <= p.density
}

/// A particle after one step.
pub open spec fn particle_stepped(old: Particle, new: Particle, dt: int) -> bool {
    &&& new.density == 0
    &&& new.pressure == 0
    &&& new.force == Vec3::spec_zero()
    &&& new.acceleration == old.acceleration
    &&& forall|c: int|
        0 <= c < 3 ==> #[trigger] comp(new.position, c) == step_position(
            comp(old.position, c),
            comp(old.velocity, c),
            dt,
        ) && comp(new.velocity, c) == step_velocity(
            comp(old.velocity, c),
            comp(old.force, c),
            gravity(c),
            old.density as int,
            dt,
        )
}

/// The rigid body after one step.
pub open spec fn body_stepped(old: Body, new: Body, dt: int) -> bool {
    &&& new.force == Vec3::spec_zero()
    &&& forall|c: int|
        0 <= c < 3 ==> #[trigger] comp(new.position, c) == step_position(
            comp(old.position, c),
            comp(old.velocity, c),
            dt,
        ) && comp(new.velocity, c) == body_step_velocity(
            comp(old.velocity, c),
            comp(old.force, c),
            gravity(c),
            dt,
        )
}

fn position_component(p: i64, v: i64, dt: i64) -> (r: i64)
    requires
        -MAX_COORD <= p <= MAX_COORD,
        -MAX_SPEED <= v <= MAX_SPEED,
        0 <= dt <= MAX_DT,
    ensures
        r == step_position(p as int, v as int, dt as int),
{
    proof {
        assert(abs(v * dt) <= MAX_SPEED * MAX_DT) by (nonlinear_arith)
            requires
                abs(v as int) <= MAX_SPEED,
                0 <= dt <= MAX_DT,
        ;
        assert(abs(v * dt) <= 0x1_0000_0000 * MICROS_PER_SECOND);
        lemma_tdiv_bound(v * dt, MICROS_PER_SECOND as int, 0x1_0000_0000);
    }
    let q = div_toward_zero(v as i128 * dt as i128, MICROS_PER_SECOND);
    (p as i128 + q) as i64
}

fn velocity_component(v: i64, f: i64, g: i128, rho: i64, dt: i64) -> (r: i64)
    requires
        -MAX_SPEED <= v <= MAX_SPEED,
        -20_000 <= g <= 20_000,
        SELF_DENSITY <= rho,
        0 <= dt <= MAX_DT,
    ensures
        r == step_velocity(v as int, f as int, g as int, rho as int, dt as int),
{
    proof {
        assert(abs(LENGTH_SCALE * f) <= 100 * 0x8000_0000_0000_0000) by (nonlinear_arith)
            requires
                LENGTH_SCALE == 100,
                -0x8000_0000_0000_0000 <= f < 0x8000_0000_0000_0000,
        ;
        assert(abs(g * rho) <= 20_000 * 0x8000_0000_0000_0000) by (nonlinear_arith)
            requires
                -20_000 <= g <= 20_000,
                0 < rho < 0x8000_0000_0000_0000,
        ;
    }
    let scaled_force = LENGTH_SCALE as i128 * f as i128;
    let weight = g * rho as i128;
    let num_inner = scaled_force + weight;
    let den = rho as i128 * MICROS_PER_SECOND;
    proof {
        assert(abs(num_inner as int) <= 100 * 0x8000_0000_0000_0000 + 20_000 * rho) by (
        nonlinear_arith)
            requires
                num_inner == 100 * f + g * rho,
                -0x8000_0000_0000_0000 <= f < 0x8000_0000_0000_0000,
                -20_000 <= g <= 20_000,
                rho > 0,
        ;
        assert(abs(dt * num_inner) <= 10_000_000 * (100 * 0x8000_0000_0000_0000 + 20_000
            * 0x8000_0000_0000_0000)) by (nonlinear_arith)
            requires
                abs(num_inner as int) <= 100 * 0x8000_0000_0000_0000 + 20_000 * rho,
                0 <= dt <= 10_000_000,
                0 < rho < 0x8000_0000_0000_0000,
        ;
        assert(abs(dt * num_inner) <= 0x4_0000_0000_0000_0000 * rho) by (nonlinear_arith)
            requires
                abs(num_inner as int) <= 100 * 0x8000_0000_0000_0000 + 20_000 * rho,
                0 <= dt <= 10_000_000,
                rho >= 152_996_237,
        ;
        assert(0x4_0000_0000_0000_0000 * rho <= 100_000_000_000_000 * den) by (nonlinear_arith)
            requires
                den == rho * 1_000_000,
                rho > 0,
        ;
        lemma_tdiv_bound(dt * num_inner, den as int, 100_000_000_000_000);
    }
    let q = div_toward_zero(dt as i128 * num_inner, den);
    (v as i128 + q) as i64
}

fn body_velocity_component(v: i64, f: i64, g: i128, dt: i64) -> (r: i64)
    requires
        -MAX_SPEED <= v <= MAX_SPEED,
        -20_000 <= g <= 20_000,
        0 <= dt <= MAX_DT,
    ensures
        r == body_step_velocity(v as int, f as int, g as int, dt as int),
{
    let num_inner = f as i128 + g * BODY_FORCE_PER_ACCEL;
    let den = BODY_FORCE_PER_ACCEL * MICROS_PER_SECOND;
    proof {
        assert(abs(dt * num_inner) <= 10_000_000 * 0x1_0000_0000_0000_0000) by (nonlinear_arith)
            requires
                abs(num_inner as int) <= 0x1_0000_0000_0000_0000,
                0 <= dt <= 10_000_000,
        ;
        assert(10_000_000 * 0x1_0000_0000_0000_0000 <= 0x1_0000_0000_0000 * den);
        lemma_tdiv_bound(dt * num_inner, den as int, 0x1_0000_0000_0000);
    }
    let q = div_toward_zero(dt as i128 * num_inner, den);
    (v as i128 + q) as i64
}

/// Advances every particle and the rigid body, if there is one, by `dt`
/// microseconds: each position moves by the velocity it had before the step,
/// then the velocity takes the force over the density (the body: over its
/// mass) and gravity. The accumulators are cleared for the next step; the
/// reserved acceleration is left as it is.
pub fn movement_system(particles: &mut Vec<Particle>, body: &mut Option<Body>, dt: i64)
    requires
        0 <= dt <= MAX_DT,
        forall|k: int|
            0 <= k < old(particles).len() ==> integration_ready(#[trigger] old(particles)@[k]),
        match *old(body) {
            Some(b) => bounded(b.position, MAX_COORD as int) && bounded(
                b.velocity,
                MAX_SPEED as int,
            ),
            None => true,
        },
    ensures
        final(particles).len() == old(particles).len(),
        forall|k: int|
            0 <= k < old(particles).len() ==> particle_stepped(
                old(particles)@[k],
                #[trigger] final(particles)@[k],
                dt as int,
            ),
        final(body).is_some() == old(body).is_some(),
        old(body).is_some() ==> body_stepped(old(body).unwrap(), final(body).unwrap(), dt as int),
{
    let n = particles.len();
    let ghost start = particles@;
    let mut i: usize = 0;
    while i < n
        invariant
            0 <= i <= n,
            n == particles.len(),
            start.len() == n,
            0 <= dt <= MAX_DT,
            forall|k: int| 0 <= k < n ==> integration_ready(#[trigger] start[k]),
            forall|k: int|
                0 <= k < i ==> particle_stepped(start[k], #[trigger] particles@[k], dt as int),
            forall|k: int| i <= k < n ==> #[trigger] particles@[k] == start[k],
        decreases n - i,
    {
        let p = particles[i];
        let position = Vec3 {
            x: position_component(p.position.x, p.velocity.x, dt),
            y: position_component(p.position.y, p.velocity.y, dt),
            z: position_component(p.position.z, p.velocity.z, dt),
        };
        let velocity = Vec3 {
            x: velocity_component(p.velocity.x, p.force.x, 0, p.density, dt),
            y: velocity_component(p.velocity.y, p.force.y, GRAVITY, p.density, dt),
            z: velocity_component(p.velocity.z, p.force.z, 0, p.density, dt),
        };
        particles[i] = Particle {
            position,
            velocity,
            acceleration: p.acceleration,
            density: 0,
            pressure: 0,
            force: Vec3::zero(),
        };
        i += 1;
    }
    if let Some(b) = body {
        let position = Vec3 {
            x: position_component(b.position.x, b.velocity.x, dt),
            y: position_component(b.position.y, b.velocity.y, dt),
            z: position_component(b.position.z, b.velocity.z, dt),
        };
        let velocity = Vec3 {
            x: body_velocity_component(b.velocity.x, b.force.x, 0, dt),
            y: body_velocity_component(b.velocity.y, b.force.y, GRAVITY, dt),
            z: body_velocity_component(b.velocity.z, b.force.z, 0, dt),
        };
        *b = Body { position, velocity, force: Vec3::zero() };
    }
}

} // verus!
