//! The domain walls.
use vstd::prelude::*;

use crate::geometry::{tdiv, Vec3};
use crate::model::{Body, Particle};
use crate::units::{
    BODY_BOUNCE_SPEED, BODY_SIZE, COEF_REST_DEN, COEF_REST_NUM, MAX_ACCELERATION,
    PARTICLE_DAMPING, PARTICLE_MASS, SIZE_X, SIZE_Y, SIZE_Z,
};

verus! {

pub open spec fn magnitude(v: int) -> int {
    if v >= 0 {
        v
    } else {
        -v
    }
}

/// A velocity component after the two walls of one axis, at half extent
/// `half`: past a wall it points back inward, scaled by the restitution
/// coefficient.
pub open spec fn wall_velocity(p: int, v: int, half: int) -> int {
    if p > half {
        -(magnitude(v) * (COEF_REST_NUM as int) / (COEF_REST_DEN as int))
    } else if p < -half {
        magnitude(v) * (COEF_REST_NUM as int) / (COEF_REST_DEN as int)
    } else {
        v
    }
}

/// The position lies beyond one of the six walls.
pub open spec fn out_of_bounds(p: Vec3) -> bool {
    p.x > SIZE_X / 2 || p.x < -(SIZE_X / 2) || p.y > SIZE_Y / 2 || p.y < -(SIZE_Y / 2) || p.z
        > SIZE_Z / 2 || p.z < -(SIZE_Z / 2)
}

/// The damping term `-v damping / mass` for one velocity component.
pub open spec fn damping(v: int) -> int {
    tdiv(-v * PARTICLE_DAMPING, PARTICLE_MASS as int)
}

/// A particle after the walls: velocities reflected where it is outside,
/// and then, if it was outside anywhere, the damping term of its new
/// velocity added to the reserved acceleration.
pub open spec fn particle_after_walls(p: Particle) -> Particle {
    let v = Vec3 {
        x: wall_velocity(p.position.x as int, p.velocity.x as int, SIZE_X / 2) as i64,
        y: wall_velocity(p.position.y as int, p.velocity.y as int, SIZE_Y / 2) as i64,
        z: wall_velocity(p.position.z as int, p.velocity.z as int, SIZE_Z / 2) as i64,
    };
    let a = if out_of_bounds(p.position) {
        Vec3 {
            x: (p.acceleration.x + damping(v.x as int)) as i64,
            y: (p.acceleration.y + damping(v.y as int)) as i64,
            z: (p.acceleration.z + damping(v.z as int)) as i64,
        }
    } else {
        p.acceleration
    };
    Particle { velocity: v, acceleration: a, ..p }
}

/// The rigid body's bounds: the domain inset by half the body's size.
pub open spec fn body_limit(size: int) -> int {
    size / 2 - BODY_SIZE / 2
}

/// The rigid body after the walls. Past a wall its velocity component is set
/// to the unit speed pointing inward. Only four walls are checked: upper x,
/// lower y, and lower and upper z; the lower x and upper y walls are not.
pub open spec fn body_after_walls(b: Body) -> Body {
    let p = b.position;
    let v = Vec3 {
        x: if p.x > body_limit(SIZE_X as int) {
            (-BODY_BOUNCE_SPEED) as i64
        } else {
            b.velocity.x
        },
        y: if p.y < -body_limit(SIZE_Y as int) {
            BODY_BOUNCE_SPEED
        } else {
            b.velocity.y
        },
        z: if p.z < -body_limit(SIZE_Z as int) {
            BODY_BOUNCE_SPEED
        } else if p.z > body_limit(SIZE_Z as int) {
            (-BODY_BOUNCE_SPEED) as i64
        } else {
            b.velocity.z
        },
    };
    Body { velocity: v, ..b }
}

/// The reserved acceleration lies within the accepted range.
pub open spec fn acceleration_bounded(p: Particle) -> bool {
    -MAX_ACCELERATION <= p.acceleration.x <= MAX_ACCELERATION && -MAX_ACCELERATION
        <= p.acceleration.y <= MAX_ACCELERATION && -MAX_ACCELERATION <= p.acceleration.z
        <= MAX_ACCELERATION
}

fn wall_component(p: i64, v: i64, half: i64) -> (r: i64)
    requires
        half >= 0,
    ensures
        r == wall_velocity(p as int, v as int, half as int),
{
    let m: i128 = if v < 0 {
        -(v as i128)
    } else {
        v as i128
    };
    let scaled = m * COEF_REST_NUM / COEF_REST_DEN;
    proof {
        vstd::arithmetic::div_mod::lemma_div_is_ordered(m * 828, m * 1000, 1000);
        vstd::arithmetic::div_mod::lemma_div_multiples_vanish(m as int, 1000);
        vstd::arithmetic::div_mod::lemma_div_pos_is_pos(m * 828, 1000);
        assert(m * 1000 == 1000 * m);
    }
    if p > half {
        -scaled as i64
    } else if p < -half {
        scaled as i64
    } else {
        v
    }
}

fn damping_component(v: i64) -> (r: i64)
    ensures
        r == damping(v as int),
        -0x2000_0000_0000_0000 <= r <= 0x2000_0000_0000_0000,
{
    let n: i128 = -(v as i128) * PARTICLE_DAMPING;
    proof {
        crate::geometry::lemma_tdiv_bound(n as int, 50, 0x2000_0000_0000_0000);
    }
    crate::geometry::div_toward_zero(n, PARTICLE_MASS) as i64
}

/// Applies the walls of the domain box to the rigid body, if there is one,
/// and to every particle.
pub fn wall_collision_system(particles: &mut Vec<Particle>, body: &mut Option<Body>)
    requires
        forall|k: int|
            0 <= k < old(particles).len() ==> acceleration_bounded(#[trigger] old(particles)@[k]),
    ensures
        final(particles).len() == old(particles).len(),
        forall|k: int|
            0 <= k < old(particles).len() ==> #[trigger] final(particles)@[k]
                == particle_after_walls(old(particles)@[k]),
        *final(body) == match *old(body) {
            Some(b) => Some(body_after_walls(b)),
            None => None,
        },
{
    if let Some(b) = body {
        let p = b.position;
        let limit_x = SIZE_X / 2 - BODY_SIZE / 2;
        let limit_y = SIZE_Y / 2 - BODY_SIZE / 2;
        let limit_z = SIZE_Z / 2 - BODY_SIZE / 2;
        if p.x > limit_x {
            b.velocity.x = -BODY_BOUNCE_SPEED;
        }
        if p.y < -limit_y {
            b.velocity.y = BODY_BOUNCE_SPEED;
        }
        if p.z < -limit_z {
            b.velocity.z = BODY_BOUNCE_SPEED;
        }
        if p.z > limit_z {
            b.velocity.z = -BODY_BOUNCE_SPEED;
        }
    }
    let n = particles.len();
    let ghost start = particles@;
    let mut i: usize = 0;
    while i < n
        invariant
            0 <= i <= n,
            n == particles.len(),
            start.len() == n,
            forall|k: int| 0 <= k < n ==> acceleration_bounded(#[trigger] start[k]),
            forall|k: int| 0 <= k < i ==> #[trigger] particles@[k] == particle_after_walls(start[k]),
            forall|k: int| i <= k < n ==> #[trigger] particles@[k] == start[k],
        decreases n - i,
    {
        let p = particles[i];
        let pos = p.position;
        let v = Vec3 {
            x: wall_component(pos.x, p.velocity.x, SIZE_X / 2),
            y: wall_component(pos.y, p.velocity.y, SIZE_Y / 2),
            z: wall_component(pos.z, p.velocity.z, SIZE_Z / 2),
        };
        let out = pos.x > SIZE_X / 2 || pos.x < -(SIZE_X / 2) || pos.y > SIZE_Y / 2 || pos.y < -(
        SIZE_Y / 2) || pos.z > SIZE_Z / 2 || pos.z < -(SIZE_Z / 2);
        let a = if out {
            Vec3 {
                x: p.acceleration.x + damping_component(v.x),
                y: p.acceleration.y + damping_component(v.y),
                z: p.acceleration.z + damping_component(v.z),
            }
        } else {
            p.acceleration
        };
        particles[i] = Particle { velocity: v, acceleration: a, ..p };
        i += 1;
    }
}

} // verus!
