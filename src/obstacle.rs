//! Coupling between the rigid obstacle and the fluid.
use vstd::prelude::*;

use crate::geometry::{
    abs, add_vec, bounded, comp, dist2, distance_squared, div_toward_zero, is_root, isqrt,
    lemma_component_le_root, lemma_root_exists, lemma_tdiv_bound, root,
    sub_vec, tdiv, Vec3,
};
use crate::model::{Body, BoxCollision, Particle};
use crate::units::{
    HULL_MARGIN, MAX_COORD, MAX_FORCE, MAX_HIT_DISTANCE, MAX_PARTICLES, PARTICLE_STIFFNESS,
};

verus! {

/// How far a particle at `p` lies inside the obstacle's hull, inflated by the
/// margin, along the ray from `origin` that met the surface at distance `hit`.
pub open spec fn deflection(origin: Vec3, p: Vec3, hit: int) -> int {
    hit + HULL_MARGIN - root(dist2(origin, p))
}

/// Component `c` of the obstacle's push on a particle at `p`: the stiffness
/// times the deflection along the unit ray direction, when the ray met the
/// surface and the particle lies inside the inflated hull. A particle at the
/// origin itself has no ray direction and is not pushed.
pub open spec fn push(origin: Vec3, p: Vec3, hit: Option<i64>, c: int) -> int {
    match hit {
        Some(d) => {
            let d2 = dist2(origin, p);
            let defl = deflection(origin, p, d as int);
            if d2 > 0 && defl > 0 {
                tdiv(PARTICLE_STIFFNESS * defl * (comp(p, c) - comp(origin, c)), root(d2))
            } else {
                0
            }
        },
        None => 0,
    }
}

/// Component `c` of the pushes on the particles `k < hi`.
pub open spec fn push_sum(origin: Vec3, ps: Seq<Particle>, hits: Seq<Option<i64>>, hi: int, c: int) -> int
    decreases hi,
{
    if hi <= 0 {
        0
    } else {
        push_sum(origin, ps, hits, hi - 1, c) + push(origin, ps[hi - 1].position, hits[hi - 1], c)
    }
}

/// A ray-hit distance that the coupling accepts.
pub open spec fn hit_ok(hit: Option<i64>) -> bool {
    match hit {
        Some(d) => 0 <= d <= MAX_HIT_DISTANCE,
        None => true,
    }
}

/// A bound on each component of one push.
pub open spec fn push_bound() -> int {
    PARTICLE_STIFFNESS * (MAX_HIT_DISTANCE + HULL_MARGIN)
}

proof fn lemma_positive_root(x: int)
    requires
        x > 0,
    ensures
        is_root(x, root(x)),
        root(x) >= 1,
{
    lemma_root_exists(x);
    let r = root(x);
    assert(r >= 1) by (nonlinear_arith)
        requires
            0 <= r,
            x < (r + 1) * (r + 1),
            x > 0,
    ;
}

pub proof fn lemma_push_bound(origin: Vec3, p: Vec3, hit: Option<i64>, c: int)
    requires
        hit_ok(hit),
        0 <= c < 3,
    ensures
        abs(push(origin, p, hit, c)) <= push_bound(),
{
    if let Some(d) = hit {
        let d2 = dist2(origin, p);
        let defl = deflection(origin, p, d as int);
        if d2 > 0 && defl > 0 {
            lemma_positive_root(d2);
            let r = root(d2);
            lemma_component_le_root(origin, p, r, c);
            let diff = comp(p, c) - comp(origin, c);
            assert(defl <= MAX_HIT_DISTANCE + HULL_MARGIN);
            assert(abs(PARTICLE_STIFFNESS * defl * diff) <= push_bound() * r) by (nonlinear_arith)
                requires
                    0 < defl <= MAX_HIT_DISTANCE + HULL_MARGIN,
                    abs(diff) <= r,
                    PARTICLE_STIFFNESS == 400_000_000,
            ;
            lemma_tdiv_bound(PARTICLE_STIFFNESS * defl * diff, r, push_bound());
        }
    }
}

pub proof fn lemma_push_sum_bound(
    origin: Vec3,
    ps: Seq<Particle>,
    hits: Seq<Option<i64>>,
    hi: int,
    c: int,
)
    requires
        0 <= hi <= ps.len(),
        hits.len() == ps.len(),
        0 <= c < 3,
        forall|k: int| 0 <= k < hits.len() ==> hit_ok(#[trigger] hits[k]),
    ensures
        abs(push_sum(origin, ps, hits, hi, c)) <= hi * push_bound(),
    decreases hi,
{
    if hi > 0 {
        lemma_push_sum_bound(origin, ps, hits, hi - 1, c);
        lemma_push_bound(origin, ps[hi - 1].position, hits[hi - 1], c);
        assert((hi - 1) * push_bound() + push_bound() == hi * push_bound()) by (nonlinear_arith);
    }
}

/// Outside the inflated hull a particle is not pushed. Inside it, each
/// component of the push points along the ray, away from the obstacle, and
/// at least one component is not zero.
pub proof fn lemma_push_direction(origin: Vec3, p: Vec3, d: i64)
    requires
        dist2(origin, p) > 0,
    ensures
        deflection(origin, p, d as int) <= 0 ==> forall|c: int| #[trigger] push(origin, p, Some(d), c) == 0,
        deflection(origin, p, d as int) > 0 ==> {
            &&& forall|c: int|
                #[trigger] push(origin, p, Some(d), c) * (comp(p, c) - comp(origin, c)) >= 0
            &&& exists|c: int| 0 <= c < 3 && #[trigger] push(origin, p, Some(d), c) != 0
        },
{
    let d2 = dist2(origin, p);
    let defl = deflection(origin, p, d as int);
    if defl > 0 {
        lemma_positive_root(d2);
        let len = root(d2);
        assert forall|c: int| #[trigger] push(origin, p, Some(d), c) * (comp(p, c) - comp(origin, c)) >= 0 by {
            let diff = comp(p, c) - comp(origin, c);
            let n = PARTICLE_STIFFNESS * defl * diff;
            assert(n * diff >= 0) by (nonlinear_arith)
                requires
                    n == PARTICLE_STIFFNESS * defl * diff,
                    PARTICLE_STIFFNESS > 0,
                    defl > 0,
            ;
            if n > 0 {
                vstd::arithmetic::div_mod::lemma_div_pos_is_pos(n, len);
                assert(diff > 0) by (nonlinear_arith)
                    requires
                        n == PARTICLE_STIFFNESS * defl * diff,
                        PARTICLE_STIFFNESS > 0,
                        defl > 0,
                        n > 0,
                ;
                assert((n / len) * diff >= 0) by (nonlinear_arith)
                    requires
                        n / len >= 0,
                        diff > 0,
                ;
            } else if n < 0 {
                vstd::arithmetic::div_mod::lemma_div_pos_is_pos(-n, len);
                assert(diff < 0) by (nonlinear_arith)
                    requires
                        n == PARTICLE_STIFFNESS * defl * diff,
                        PARTICLE_STIFFNESS > 0,
                        defl > 0,
                        n < 0,
                ;
                assert(-((-n) / len) * diff >= 0) by (nonlinear_arith)
                    requires
                        (-n) / len >= 0,
                        diff < 0,
                ;
            }
        }
        let dx = p.x - origin.x;
        let dy = p.y - origin.y;
        let dz = p.z - origin.z;
        let c: int = if dx * dx >= dy * dy && dx * dx >= dz * dz {
            0
        } else if dy * dy >= dz * dz {
            1
        } else {
            2
        };
        let diff = comp(p, c) - comp(origin, c);
        assert(3 * (diff * diff) >= d2) by (nonlinear_arith)
            requires
                d2 == dx * dx + dy * dy + dz * dz,
                diff * diff >= dx * dx,
                diff * diff >= dy * dy,
                diff * diff >= dz * dz,
        ;
        assert(len <= 2 * abs(diff)) by (nonlinear_arith)
            requires
                3 * (diff * diff) >= d2,
                len * len <= d2,
                len >= 1,
        ;
        let n = PARTICLE_STIFFNESS * defl * diff;
        assert(abs(n) >= len) by (nonlinear_arith)
            requires
                n == PARTICLE_STIFFNESS * defl * diff,
                PARTICLE_STIFFNESS == 400_000_000,
                defl >= 1,
                len <= 2 * abs(diff),
        ;
        vstd::arithmetic::div_mod::lemma_div_is_ordered(len, abs(n), len);
        vstd::arithmetic::div_mod::lemma_div_multiples_vanish(1, len);
        assert(push(origin, p, Some(d), c) != 0);
    }
}

/// The obstacle's push on a particle at `p`.
pub fn push_of(origin: &Vec3, p: &Vec3, hit: Option<i64>) -> (f: Vec3)
    requires
        bounded(*origin, MAX_COORD as int),
        bounded(*p, MAX_COORD as int),
        hit_ok(hit),
    ensures
        forall|c: int| 0 <= c < 3 ==> #[trigger] comp(f, c) == push(*origin, *p, hit, c),
{
    let d = match hit {
        Some(d) => d,
        None => {
            return Vec3::zero();
        },
    };
    let d2 = distance_squared(origin, p);
    if d2 == 0 {
        return Vec3::zero();
    }
    let len = isqrt(d2);
    let defl = d as i128 + HULL_MARGIN as i128 - len;
    if defl <= 0 {
        return Vec3::zero();
    }
    proof {
        lemma_positive_root(d2 as int);
        lemma_push_bound(*origin, *p, hit, 0);
        lemma_push_bound(*origin, *p, hit, 1);
        lemma_push_bound(*origin, *p, hit, 2);
        lemma_component_le_root(*origin, *p, len as int, 0);
        lemma_component_le_root(*origin, *p, len as int, 1);
        lemma_component_le_root(*origin, *p, len as int, 2);
    }
    let k = PARTICLE_STIFFNESS * defl;
    let dx = p.x as i128 - origin.x as i128;
    let dy = p.y as i128 - origin.y as i128;
    let dz = p.z as i128 - origin.z as i128;
    proof {
        assert(0 < k <= push_bound());
        assert(abs(k * dx) <= push_bound() * 0x1_0000_0000) by (nonlinear_arith)
            requires
                0 < k <= push_bound(),
                abs(dx as int) <= 0x1_0000_0000,
        ;
        assert(abs(k * dy) <= push_bound() * 0x1_0000_0000) by (nonlinear_arith)
            requires
                0 < k <= push_bound(),
                abs(dy as int) <= 0x1_0000_0000,
        ;
        assert(abs(k * dz) <= push_bound() * 0x1_0000_0000) by (nonlinear_arith)
            requires
                0 < k <= push_bound(),
                abs(dz as int) <= 0x1_0000_0000,
        ;
    }
    let x = div_toward_zero(k * dx, len) as i64;
    let y = div_toward_zero(k * dy, len) as i64;
    let z = div_toward_zero(k * dz, len) as i64;
    Vec3 { x, y, z }
}

proof fn lemma_push_accumulated_bound(m: int)
    requires
        0 <= m <= MAX_PARTICLES,
    ensures
        MAX_FORCE + m * push_bound() < i64::MAX,
{
    assert(m * push_bound() <= MAX_PARTICLES * push_bound()) by (nonlinear_arith)
        requires
            0 <= m <= MAX_PARTICLES,
    ;
}

/// When there is a rigid body, pushes every particle out of the obstacle's
/// inflated hull, `hits[k]` being the distance at which the ray from the
/// obstacle's origin toward particle `k` meets its surface (`None`: it does
/// not), and applies the opposite of each push to the body. Without a body
/// nothing changes.
pub fn box_collision_system(
    particles: &mut Vec<Particle>,
    body: &mut Option<Body>,
    obstacle: &BoxCollision,
    hits: &Vec<Option<i64>>,
)
    requires
        old(particles).len() <= MAX_PARTICLES,
        hits.len() == old(particles).len(),
        bounded(obstacle.origin, MAX_COORD as int),
        forall|k: int| 0 <= k < hits.len() ==> hit_ok(#[trigger] hits@[k]),
        forall|k: int|
            0 <= k < old(particles).len() ==> bounded(
                #[trigger] old(particles)@[k].position,
                MAX_COORD as int,
            ) && bounded(old(particles)@[k].force, MAX_FORCE as int),
        match *old(body) {
            Some(b) => bounded(b.force, MAX_FORCE as int),
            None => true,
        },
    ensures
        final(particles).len() == old(particles).len(),
        old(body).is_none() ==> *final(particles) == *old(particles) && *final(body) == *old(body),
        old(body).is_some() ==> {
            &&& final(body).is_some()
            &&& final(body).unwrap().position == old(body).unwrap().position
            &&& final(body).unwrap().velocity == old(body).unwrap().velocity
            &&& forall|c: int|
                0 <= c < 3 ==> #[trigger] comp(final(body).unwrap().force, c) == comp(
                    old(body).unwrap().force,
                    c,
                ) - push_sum(
                    obstacle.origin,
                    old(particles)@,
                    hits@,
                    old(particles).len() as int,
                    c,
                )
            &&& forall|k: int|
                0 <= k < old(particles).len() ==> #[trigger] final(particles)@[k]
                    == (Particle { force: final(particles)@[k].force, ..old(particles)@[k] })
            &&& forall|k: int, c: int|
                0 <= k < old(particles).len() && 0 <= c < 3 ==> #[trigger] comp(
                    final(particles)@[k].force,
                    c,
                ) == comp(old(particles)@[k].force, c) + push(
                    obstacle.origin,
                    old(particles)@[k].position,
                    hits@[k],
                    c,
                )
        },
{
    let b = match body {
        Some(b) => b,
        None => {
            return ;
        },
    };
    let origin = obstacle.origin;
    let n = particles.len();
    let ghost start = particles@;
    let ghost body_start = *b;
    let mut body_force = b.force;
    let mut i: usize = 0;
    while i < n
        invariant
            0 <= i <= n <= MAX_PARTICLES,
            n == particles.len(),
            n == hits.len(),
            start.len() == n,
            origin == obstacle.origin,
            bounded(origin, MAX_COORD as int),
            bounded(body_start.force, MAX_FORCE as int),
            forall|k: int| 0 <= k < n ==> hit_ok(#[trigger] hits@[k]),
            forall|k: int|
                0 <= k < n ==> bounded(#[trigger] start[k].position, MAX_COORD as int) && bounded(
                    start[k].force,
                    MAX_FORCE as int,
                ),
            forall|c: int|
                0 <= c < 3 ==> #[trigger] comp(body_force, c) == comp(body_start.force, c)
                    - push_sum(origin, start, hits@, i as int, c),
            forall|k: int|
                0 <= k < n ==> #[trigger] particles@[k] == (Particle {
                    force: particles@[k].force,
                    ..start[k]
                }),
            forall|k: int, c: int|
                0 <= k < i && 0 <= c < 3 ==> #[trigger] comp(particles@[k].force, c) == comp(
                    start[k].force,
                    c,
                ) + push(origin, start[k].position, hits@[k], c),
            forall|k: int| i <= k < n ==> #[trigger] particles@[k] == start[k],
        decreases n - i,
    {
        let p = particles[i];
        let f = push_of(&origin, &p.position, hits[i]);
        proof {
            lemma_push_accumulated_bound(i + 1);
            assert forall|c: int| 0 <= c < 3 implies i64::MIN <= #[trigger] comp(body_force, c)
                - comp(f, c) <= i64::MAX by {
                lemma_push_sum_bound(origin, start, hits@, i + 1, c);
                assert(comp(f, c) == push(origin, start[i as int].position, hits@[i as int], c));
            }
            assert forall|c: int| 0 <= c < 3 implies i64::MIN <= #[trigger] comp(p.force, c) + comp(
                f,
                c,
            ) <= i64::MAX by {
                lemma_push_bound(origin, start[i as int].position, hits@[i as int], c);
            }
        }
        body_force = sub_vec(body_force, f);
        let pf = add_vec(p.force, f);
        particles[i].force = pf;
        i += 1;
    }
    b.force = body_force;
}

} // verus!
