//! The density and pressure stage, and the density field it is built on.
use vstd::prelude::*;

use crate::geometry::{
    bounded, dist2, distance_squared, lemma_dist2_nonneg, lemma_dist2_symmetric, Vec3,
};
use crate::model::Particle;
use crate::units::{
    BASE_DENSITY, DENSITY_KERNEL_DIVISOR, ISOTROPIC_EXPONENT, MAX_COORD, MAX_PARTICLES,
    SELF_DENSITY, SMOOTHING_LENGTH_SQ,
};

verus! {

pub open spec fn cube(x: int) -> int {
    x * x * x
}

/// The poly6 kernel: the density that a sample at `b` lends to one at `a`.
/// It is zero at distance `h` or more.
pub open spec fn kernel(a: Vec3, b: Vec3) -> int {
    let d2 = dist2(a, b);
    if d2 < SMOOTHING_LENGTH_SQ {
        cube(SMOOTHING_LENGTH_SQ - d2) / (DENSITY_KERNEL_DIVISOR as int)
    } else {
        0
    }
}

/// The positions of a population, in order.
pub open spec fn positions(ps: Seq<Particle>) -> Seq<Vec3> {
    ps.map_values(|p: Particle| p.position)
}

/// The kernel contributions to sample `k` from the samples `j < hi`, `j != k`.
pub open spec fn neighbor_density(pos: Seq<Vec3>, k: int, hi: int) -> int
    decreases hi,
{
    if hi <= 0 {
        0
    } else {
        neighbor_density(pos, k, hi - 1) + if hi - 1 == k {
            0
        } else {
            kernel(pos[k], pos[hi - 1])
        }
    }
}

/// The density of sample `k`: its own kernel term and those of all others.
pub open spec fn density_at(pos: Seq<Vec3>, k: int) -> int {
    SELF_DENSITY + neighbor_density(pos, k, pos.len() as int)
}

/// The equation of state.
pub open spec fn pressure_of(density: int) -> int {
    ISOTROPIC_EXPONENT * (density - BASE_DENSITY)
}

/// Every position lies within the accepted coordinate range.
pub open spec fn coords_bounded(ps: Seq<Particle>) -> bool {
    forall|i: int| 0 <= i < ps.len() ==> bounded(#[trigger] ps[i].position, MAX_COORD as int)
}

/// `a` and `b` agree on everything but density and pressure.
pub open spec fn same_but_density(a: Particle, b: Particle) -> bool {
    a.position == b.position && a.velocity == b.velocity && a.acceleration == b.acceleration
        && a.force == b.force
}

pub proof fn lemma_self_density()
    ensures
        cube(SMOOTHING_LENGTH_SQ as int) / (DENSITY_KERNEL_DIVISOR as int) == SELF_DENSITY,
{
    assert(cube(64_000_000) == 262_144_000_000_000_000_000_000int) by (nonlinear_arith);
}

pub proof fn lemma_kernel_bound(a: Vec3, b: Vec3)
    ensures
        0 <= kernel(a, b) <= SELF_DENSITY,
        kernel(a, b) == kernel(b, a),
{
    lemma_dist2_symmetric(a, b);
    let d2 = dist2(a, b);
    lemma_dist2_nonneg(a, b);
    if d2 < SMOOTHING_LENGTH_SQ {
        let t = SMOOTHING_LENGTH_SQ - d2;
        let hh = SMOOTHING_LENGTH_SQ as int;
        assert(0 <= cube(t) <= cube(hh)) by (nonlinear_arith)
            requires
                0 < t <= hh,
        ;
        lemma_self_density();
        vstd::arithmetic::div_mod::lemma_div_is_ordered(cube(t), cube(hh), DENSITY_KERNEL_DIVISOR as int);
        vstd::arithmetic::div_mod::lemma_div_pos_is_pos(cube(t), DENSITY_KERNEL_DIVISOR as int);
    }
}

pub proof fn lemma_neighbor_density_bound(pos: Seq<Vec3>, k: int, hi: int)
    requires
        hi >= 0,
    ensures
        0 <= neighbor_density(pos, k, hi) <= hi * SELF_DENSITY,
    decreases hi,
{
    if hi > 0 {
        lemma_neighbor_density_bound(pos, k, hi - 1);
        lemma_kernel_bound(pos[k], pos[hi - 1]);
    }
}

proof fn lemma_count_bound(m: int)
    requires
        0 <= m <= MAX_PARTICLES,
    ensures
        m * SELF_DENSITY <= MAX_PARTICLES * SELF_DENSITY,
{
    assert(m * SELF_DENSITY <= MAX_PARTICLES * SELF_DENSITY) by (nonlinear_arith)
        requires
            0 <= m <= MAX_PARTICLES,
    ;
}

/// The densities depend on the positions alone, and the density stage moves
/// nothing: run again on its own output, it assigns the same densities.
pub proof fn lemma_density_recompute(before: Seq<Particle>, after: Seq<Particle>)
    requires
        after.len() == before.len(),
        forall|k: int| 0 <= k < before.len() ==> same_but_density(#[trigger] after[k], before[k]),
    ensures
        forall|k: int|
            0 <= k < before.len() ==> #[trigger] density_at(positions(after), k) == density_at(
                positions(before),
                k,
            ),
{
    assert(positions(after) =~= positions(before));
}

/// The kernel between two positions.
pub fn kernel_weight(a: &Vec3, b: &Vec3) -> (w: i64)
    requires
        bounded(*a, MAX_COORD as int),
        bounded(*b, MAX_COORD as int),
    ensures
        w == kernel(*a, *b),
        0 <= w <= SELF_DENSITY,
{
    proof {
        lemma_kernel_bound(*a, *b);
    }
    let d2 = distance_squared(a, b);
    if d2 < SMOOTHING_LENGTH_SQ {
        let t = SMOOTHING_LENGTH_SQ - d2;
        proof {
            assert(0 <= t * t <= 64_000_000 * 64_000_000) by (nonlinear_arith)
                requires
                    0 < t <= 64_000_000,
            ;
            assert(0 <= t * t * t <= 64_000_000 * 64_000_000 * 64_000_000) by (nonlinear_arith)
                requires
                    0 < t <= 64_000_000,
            ;
        }
        (t * t * t / DENSITY_KERNEL_DIVISOR) as i64
    } else {
        0
    }
}

/// Recomputes every particle's density and pressure from its position and
/// those of the others, discarding the values they held: each unordered
/// pair within the smoothing length adds the kernel to both members, each
/// particle adds its own kernel term, and the pressure follows from the
/// equation of state. Nothing else changes.
pub fn pressure_and_density_system(particles: &mut Vec<Particle>)
    requires
        old(particles).len() <= MAX_PARTICLES,
        coords_bounded(old(particles)@),
    ensures
        final(particles).len() == old(particles).len(),
        forall|k: int|
            0 <= k < old(particles).len() ==> {
                &&& same_but_density(#[trigger] final(particles)@[k], old(particles)@[k])
                &&& final(particles)@[k].density == density_at(positions(old(particles)@), k)
                &&& final(particles)@[k].pressure == pressure_of(final(particles)@[k].density as int)
            },
{
    let n = particles.len();
    let ghost pos = positions(particles@);
    let ghost start = particles@;
    let mut i: usize = 0;
    while i < n
        invariant
            0 <= i <= n,
            n == particles.len(),
            start.len() == n,
            pos == positions(start),
            forall|k: int| 0 <= k < n ==> same_but_density(#[trigger] particles@[k], start[k]),
            forall|k: int| 0 <= k < i ==> #[trigger] particles@[k].density == 0,
        decreases n - i,
    {
        particles[i].density = 0;
        i += 1;
    }
    assert forall|k: int| 0 <= k < n implies #[trigger] particles@[k].density == neighbor_density(
        pos,
        k,
        0,
    ) by {}
    let mut i: usize = 0;
    while i < n
        invariant
            0 <= i <= n <= MAX_PARTICLES,
            n == particles.len(),
            start.len() == n,
            pos == positions(start),
            coords_bounded(start),
            forall|k: int| 0 <= k < n ==> same_but_density(#[trigger] particles@[k], start[k]),
            forall|k: int|
                0 <= k < i ==> #[trigger] particles@[k].density == neighbor_density(pos, k, n as int),
            forall|k: int|
                i <= k < n ==> #[trigger] particles@[k].density == neighbor_density(pos, k, i as int),
        decreases n - i,
    {
        let pi = particles[i].position;
        assert(pi == pos[i as int]);
        let mut acc: i64 = particles[i].density;
        let mut j: usize = i + 1;
        while j < n
            invariant
                0 <= i < j <= n <= MAX_PARTICLES,
                n == particles.len(),
                start.len() == n,
                pos == positions(start),
                coords_bounded(start),
                pi == pos[i as int],
                forall|k: int| 0 <= k < n ==> same_but_density(#[trigger] particles@[k], start[k]),
                forall|k: int|
                    0 <= k < i ==> #[trigger] particles@[k].density == neighbor_density(
                        pos,
                        k,
                        n as int,
                    ),
                acc == neighbor_density(pos, i as int, j as int),
                forall|k: int|
                    i < k < j ==> #[trigger] particles@[k].density == neighbor_density(
                        pos,
                        k,
                        i + 1,
                    ),
                forall|k: int|
                    j <= k < n ==> #[trigger] particles@[k].density == neighbor_density(
                        pos,
                        k,
                        i as int,
                    ),
            decreases n - j,
        {
            let pj = particles[j].position;
            assert(pj == pos[j as int]);
            let w = kernel_weight(&pi, &pj);
            proof {
                lemma_kernel_bound(pi, pj);
                lemma_neighbor_density_bound(pos, i as int, j + 1);
                lemma_neighbor_density_bound(pos, j as int, i + 1);
                lemma_count_bound(j + 1);
                lemma_count_bound(i + 1);
            }
            acc = acc + w;
            particles[j].density = particles[j].density + w;
            j += 1;
        }
        particles[i].density = acc;
        i += 1;
    }
    let mut i: usize = 0;
    while i < n
        invariant
            0 <= i <= n <= MAX_PARTICLES,
            n == particles.len(),
            start.len() == n,
            pos == positions(start),
            forall|k: int| 0 <= k < n ==> same_but_density(#[trigger] particles@[k], start[k]),
            forall|k: int|
                0 <= k < i ==> #[trigger] particles@[k].density == density_at(pos, k)
                    && particles@[k].pressure == pressure_of(particles@[k].density as int),
            forall|k: int|
                i <= k < n ==> #[trigger] particles@[k].density == neighbor_density(pos, k, n as int),
        decreases n - i,
    {
        proof {
            lemma_neighbor_density_bound(pos, i as int, n as int);
            lemma_count_bound(n as int);
        }
        let d = particles[i].density + SELF_DENSITY;
        particles[i].density = d;
        particles[i].pressure = ISOTROPIC_EXPONENT * (d - BASE_DENSITY);
        i += 1;
    }
}

} // verus!
