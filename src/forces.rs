//! The pairwise pressure and viscosity forces.
use vstd::prelude::*;

use crate::geometry::{
    abs, adiv, add_vec, bounded, comp, dist2, distance_squared, div_away_from_zero, div_toward_zero, is_root, isqrt,
    lemma_adiv_bound, lemma_adiv_neg, lemma_adiv_zero, lemma_component_le_root, lemma_dist2_symmetric, lemma_root_exists, lemma_tdiv_bound,
    lemma_tdiv_neg, root, sub_vec, tdiv, Vec3,
};
use crate::density::kernel;
use crate::model::Particle;
use crate::units::{
    BASE_DENSITY, ISOTROPIC_EXPONENT, MAX_COORD, MAX_FORCE, MAX_PARTICLES, MAX_SPEED,
    PAIR_PRESSURE_BOUND, PAIR_VISCOUS_BOUND, PRESSURE_FORCE_DEN, PRESSURE_FORCE_NUM,
    SELF_DENSITY, SMOOTHING_LENGTH, SMOOTHING_LENGTH_SQ, VISCOUS_FORCE,
};

verus! {

/// Two distinct positions closer than the smoothing length interact.
/// Coincident samples are skipped: they have no direction between them.
pub open spec fn in_reach(a: Vec3, b: Vec3) -> bool {
    0 < dist2(a, b) < SMOOTHING_LENGTH_SQ
}

/// Component `c` of the pressure force on `a` from `b`:
/// `k_pf ((p_a + p_b) / (rho_a + rho_b)) (h - r)^2 u`, with `u` the unit
/// vector from `a` to `b`, rounded toward zero once.
pub open spec fn pressure_force(a: Particle, b: Particle, c: int) -> int {
    let r = root(dist2(a.position, b.position));
    let hr = SMOOTHING_LENGTH - r;
    tdiv(
        PRESSURE_FORCE_NUM * (a.pressure + b.pressure) * (hr * hr) * (comp(b.position, c) - comp(
            a.position,
            c,
        )),
        PRESSURE_FORCE_DEN * (a.density + b.density) * r,
    )
}

/// Component `c` of the viscous force on `a` from `b`:
/// `k_vf ((v_b - v_a) / (rho_a + rho_b)) (h - r)`, rounded away from zero so
/// that it vanishes only where the velocities agree.
pub open spec fn viscous_force(a: Particle, b: Particle, c: int) -> int {
    let r = root(dist2(a.position, b.position));
    adiv(
        VISCOUS_FORCE * (comp(b.velocity, c) - comp(a.velocity, c)) * (SMOOTHING_LENGTH - r),
        a.density + b.density,
    )
}

/// Component `c` of the whole force that `b` exerts on `a`.
pub open spec fn pair_force(a: Particle, b: Particle, c: int) -> int {
    if in_reach(a.position, b.position) {
        pressure_force(a, b, c) + viscous_force(a, b, c)
    } else {
        0
    }
}

/// Component `c` of the forces on sample `k` from the samples `j < hi`, `j != k`.
pub open spec fn force_sum(ps: Seq<Particle>, k: int, hi: int, c: int) -> int
    decreases hi,
{
    if hi <= 0 {
        0
    } else {
        force_sum(ps, k, hi - 1, c) + if hi - 1 == k {
            0
        } else {
            pair_force(ps[k], ps[hi - 1], c)
        }
    }
}

/// A bound on each component of the force of one pair.
pub open spec fn pair_force_bound() -> int {
    PAIR_PRESSURE_BOUND + PAIR_VISCOUS_BOUND
}

/// What the force stage asks of a particle: the state that the density stage
/// leaves (a density at least the self term, a pressure that the equation of
/// state allows) within the accepted ranges.
pub open spec fn force_ready(p: Particle) -> bool {
    &&& pair_ready(p)
    &&& bounded(p.force, MAX_FORCE as int)
}

/// What a pair's force is computed from lies within the accepted ranges.
pub open spec fn pair_ready(p: Particle) -> bool {
    &&& bounded(p.position, MAX_COORD as int)
    &&& bounded(p.velocity, MAX_SPEED as int)
    &&& SELF_DENSITY <= p.density
    &&& abs(p.pressure as int) <= ISOTROPIC_EXPONENT * (p.density + BASE_DENSITY)
}

/// `a` and `b` agree on everything but the force.
pub open spec fn same_but_force(a: Particle, b: Particle) -> bool {
    a.position == b.position && a.velocity == b.velocity && a.acceleration == b.acceleration
        && a.density == b.density && a.pressure == b.pressure
}

proof fn lemma_abs_mul_le(x: int, y: int, bx: int, by: int)
    requires
        abs(x) <= bx,
        abs(y) <= by,
    ensures
        abs(x * y) <= bx * by,
        abs(x * y) == abs(x) * abs(y),
{
    assert(abs(x * y) == abs(x) * abs(y)) by (nonlinear_arith);
    assert(abs(x) * abs(y) <= bx * by) by (nonlinear_arith)
        requires
            0 <= abs(x) <= bx,
            0 <= abs(y) <= by,
    ;
}

/// A pair at the smoothing length or farther apart adds nothing: neither
/// density nor any component of force.
pub proof fn lemma_far_pair_no_effect(a: Particle, b: Particle)
    requires
        dist2(a.position, b.position) >= SMOOTHING_LENGTH_SQ,
    ensures
        kernel(a.position, b.position) == 0,
        kernel(b.position, a.position) == 0,
        forall|c: int| #[trigger] pair_force(a, b, c) == 0 && pair_force(b, a, c) == 0,
{
    lemma_dist2_symmetric(a.position, b.position);
}

/// Within reach, the viscous force of a pair vanishes in a component exactly
/// where the two velocities agree in it.
pub proof fn lemma_viscous_zero_iff_same_velocity(a: Particle, b: Particle, c: int)
    requires
        in_reach(a.position, b.position),
        a.density + b.density > 0,
    ensures
        viscous_force(a, b, c) == 0 <==> comp(b.velocity, c) == comp(a.velocity, c),
{
    lemma_reach_root(a.position, b.position);
    let hr = SMOOTHING_LENGTH - root(dist2(a.position, b.position));
    let dv = comp(b.velocity, c) - comp(a.velocity, c);
    assert(VISCOUS_FORCE * dv * hr == 0 <==> dv == 0) by (nonlinear_arith)
        requires
            VISCOUS_FORCE > 0,
            hr > 0,
    ;
    lemma_adiv_zero(VISCOUS_FORCE * dv * hr, a.density + b.density);
}

/// The force of one pair on its first member is the exact negation of its
/// force on the second: each pair conserves momentum.
pub proof fn lemma_pair_force_antisymmetric(a: Particle, b: Particle, c: int)
    ensures
        pair_force(b, a, c) == -pair_force(a, b, c),
        pressure_force(b, a, c) == -pressure_force(a, b, c),
        viscous_force(b, a, c) == -viscous_force(a, b, c),
{
    lemma_dist2_symmetric(a.position, b.position);
    let r = root(dist2(a.position, b.position));
    let hr = SMOOTHING_LENGTH - r;
    let (pa, pb) = (comp(a.position, c), comp(b.position, c));
    let (va, vb) = (comp(a.velocity, c), comp(b.velocity, c));
    let s = a.pressure + b.pressure;
    let np = PRESSURE_FORCE_NUM * s * (hr * hr) * (pb - pa);
    assert(PRESSURE_FORCE_NUM * s * (hr * hr) * (pa - pb) == -np) by (nonlinear_arith)
        requires
            np == PRESSURE_FORCE_NUM * s * (hr * hr) * (pb - pa),
    ;
    let dp = PRESSURE_FORCE_DEN * (a.density + b.density) * r;
    assert(PRESSURE_FORCE_DEN * (b.density + a.density) * r == dp);
    let nv = VISCOUS_FORCE * (vb - va) * hr;
    assert(VISCOUS_FORCE * (va - vb) * hr == -nv) by (nonlinear_arith)
        requires
            nv == VISCOUS_FORCE * (vb - va) * hr,
    ;
    lemma_tdiv_neg(np, dp);
    lemma_adiv_neg(nv, a.density + b.density);
}

/// The bound on one component of each of the two forces of a pair, over the
/// quantities they are made of.
proof fn lemma_component_bound(ps: int, rho: int, r: int, dd: int, dv: int)
    requires
        rho >= 2 * SELF_DENSITY,
        abs(ps) <= ISOTROPIC_EXPONENT * (rho + 2 * BASE_DENSITY),
        1 <= r < SMOOTHING_LENGTH,
        abs(dd) <= r,
        abs(dv) <= 2 * MAX_SPEED,
    ensures
        abs(
            tdiv(
                PRESSURE_FORCE_NUM * ps * ((SMOOTHING_LENGTH - r) * (SMOOTHING_LENGTH - r)) * dd,
                PRESSURE_FORCE_DEN * rho * r,
            ),
        ) <= PAIR_PRESSURE_BOUND,
        abs(adiv(VISCOUS_FORCE * dv * (SMOOTHING_LENGTH - r), rho)) <= PAIR_VISCOUS_BOUND,
{
    let hr = SMOOTHING_LENGTH - r;
    let ps_b = 3 * ISOTROPIC_EXPONENT * rho;
    assert(abs(ps) <= ps_b) by (nonlinear_arith)
        requires
            abs(ps) <= 300_000 * (rho + 2 * 250_000_000),
            rho >= 2 * 152_996_237,
            ps_b == 3 * 300_000 * rho,
    ;
    lemma_abs_mul_le(PRESSURE_FORCE_NUM as int, ps, 273_208, ps_b);
    assert(0 <= hr * hr <= SMOOTHING_LENGTH_SQ) by (nonlinear_arith)
        requires
            0 < hr <= 8000,
    ;
    lemma_abs_mul_le(PRESSURE_FORCE_NUM * ps, hr * hr, 273_208 * ps_b, SMOOTHING_LENGTH_SQ as int);
    lemma_abs_mul_le(
        PRESSURE_FORCE_NUM * ps * (hr * hr),
        dd,
        273_208 * ps_b * SMOOTHING_LENGTH_SQ,
        r,
    );
    let den = PRESSURE_FORCE_DEN * rho * r;
    assert(273_208 * ps_b * SMOOTHING_LENGTH_SQ * r == PAIR_PRESSURE_BOUND * den)
        by (nonlinear_arith)
        requires
            ps_b == 3 * ISOTROPIC_EXPONENT * rho,
            den == PRESSURE_FORCE_DEN * rho * r,
    ;
    assert(den > 0) by (nonlinear_arith)
        requires
            rho > 0,
            r > 0,
            den == PRESSURE_FORCE_DEN * rho * r,
    ;
    lemma_tdiv_bound(PRESSURE_FORCE_NUM * ps * (hr * hr) * dd, den, PAIR_PRESSURE_BOUND as int);
    lemma_abs_mul_le(VISCOUS_FORCE as int, dv, VISCOUS_FORCE as int, 2 * MAX_SPEED);
    lemma_abs_mul_le(VISCOUS_FORCE * dv, hr, VISCOUS_FORCE * (2 * MAX_SPEED), SMOOTHING_LENGTH as int);
    assert(VISCOUS_FORCE * (2 * MAX_SPEED) * SMOOTHING_LENGTH <= PAIR_VISCOUS_BOUND * (2
        * SELF_DENSITY));
    assert(PAIR_VISCOUS_BOUND * (2 * SELF_DENSITY) <= PAIR_VISCOUS_BOUND * rho) by (nonlinear_arith)
        requires
            rho >= 2 * SELF_DENSITY,
    ;
    lemma_adiv_bound(VISCOUS_FORCE * dv * hr, rho, PAIR_VISCOUS_BOUND as int);
}

/// The distance of a pair in reach is at least one and below the smoothing length.
proof fn lemma_reach_root(a: Vec3, b: Vec3)
    requires
        in_reach(a, b),
    ensures
        is_root(dist2(a, b), root(dist2(a, b))),
        1 <= root(dist2(a, b)) < SMOOTHING_LENGTH,
{
    let x = dist2(a, b);
    lemma_root_exists(x);
    let r = root(x);
    assert(1 <= r < SMOOTHING_LENGTH) by (nonlinear_arith)
        requires
            0 <= r,
            r * r <= x,
            x < (r + 1) * (r + 1),
            0 < x < 64_000_000,
            SMOOTHING_LENGTH == 8000,
    ;
}

/// Each component of the force of a pair of ready particles is bounded.
pub proof fn lemma_pair_force_bound(a: Particle, b: Particle, c: int)
    requires
        pair_ready(a),
        pair_ready(b),
        0 <= c < 3,
    ensures
        abs(pair_force(a, b, c)) <= pair_force_bound(),
{
    if in_reach(a.position, b.position) {
        lemma_reach_root(a.position, b.position);
        let r = root(dist2(a.position, b.position));
        lemma_component_le_root(a.position, b.position, r, c);
        lemma_component_bound(
            a.pressure + b.pressure,
            a.density + b.density,
            r,
            comp(b.position, c) - comp(a.position, c),
            comp(b.velocity, c) - comp(a.velocity, c),
        );
    }
}

pub proof fn lemma_force_sum_bound(ps: Seq<Particle>, k: int, hi: int, c: int)
    requires
        0 <= k < ps.len(),
        0 <= hi <= ps.len(),
        0 <= c < 3,
        forall|j: int| 0 <= j < ps.len() ==> pair_ready(#[trigger] ps[j]),
    ensures
        abs(force_sum(ps, k, hi, c)) <= hi * pair_force_bound(),
    decreases hi,
{
    if hi > 0 {
        lemma_force_sum_bound(ps, k, hi - 1, c);
        lemma_pair_force_bound(ps[k], ps[hi - 1], c);
    }
}

/// One component of the force of a pair, from the quantities it is made of.
fn pair_component(pa: i64, pb: i64, va: i64, vb: i64, ps: i128, rho: i128, r: i128) -> (f: i64)
    requires
        -MAX_COORD <= pa <= MAX_COORD,
        -MAX_COORD <= pb <= MAX_COORD,
        -MAX_SPEED <= va <= MAX_SPEED,
        -MAX_SPEED <= vb <= MAX_SPEED,
        2 * SELF_DENSITY <= rho <= 2 * i64::MAX,
        abs(ps as int) <= ISOTROPIC_EXPONENT * (rho + 2 * BASE_DENSITY),
        abs(ps as int) <= 2 * i64::MAX + 2,
        1 <= r < SMOOTHING_LENGTH,
        abs(pb - pa) <= r,
    ensures
        f == tdiv(
            PRESSURE_FORCE_NUM * ps * ((SMOOTHING_LENGTH - r) * (SMOOTHING_LENGTH - r)) * (pb
                - pa),
            PRESSURE_FORCE_DEN * rho * r,
        ) + adiv(VISCOUS_FORCE * (vb - va) * (SMOOTHING_LENGTH - r), rho as int),
{
    let hr = SMOOTHING_LENGTH - r;
    let dd = pb as i128 - pa as i128;
    let dv = vb as i128 - va as i128;
    proof {
        lemma_component_bound(ps as int, rho as int, r as int, dd as int, dv as int);
        lemma_abs_mul_le(PRESSURE_FORCE_NUM as int, ps as int, 273_208, 0x1_0000_0000_0000_0000int);
        assert(0 <= hr * hr <= SMOOTHING_LENGTH_SQ) by (nonlinear_arith)
            requires
                0 < hr <= 8000,
        ;
        lemma_abs_mul_le(
            PRESSURE_FORCE_NUM * ps,
            hr * hr,
            273_208int * 0x1_0000_0000_0000_0000int,
            SMOOTHING_LENGTH_SQ as int,
        );
        lemma_abs_mul_le(
            PRESSURE_FORCE_NUM * ps * (hr * hr),
            dd as int,
            273_208int * 0x1_0000_0000_0000_0000int * SMOOTHING_LENGTH_SQ,
            SMOOTHING_LENGTH as int,
        );
        assert(0 < PRESSURE_FORCE_DEN * rho * r <= PRESSURE_FORCE_DEN * (2 * i64::MAX)
            * SMOOTHING_LENGTH) by (nonlinear_arith)
            requires
                0 < rho <= 2 * i64::MAX,
                0 < r <= SMOOTHING_LENGTH,
        ;
        lemma_abs_mul_le(VISCOUS_FORCE as int, dv as int, VISCOUS_FORCE as int, 2 * MAX_SPEED);
        lemma_abs_mul_le(
            VISCOUS_FORCE * dv,
            hr as int,
            VISCOUS_FORCE * (2 * MAX_SPEED),
            SMOOTHING_LENGTH as int,
        );
    }
    let fp = div_toward_zero(
        PRESSURE_FORCE_NUM * ps * (hr * hr) * dd,
        PRESSURE_FORCE_DEN * rho * r,
    );
    let fv = div_away_from_zero(VISCOUS_FORCE * dv * hr, rho);
    (fp + fv) as i64
}

/// Component `c` of the forces on the samples `k < hi` from the samples
/// `j < m`.
pub open spec fn total_force(ps: Seq<Particle>, hi: int, m: int, c: int) -> int
    decreases hi,
{
    if hi <= 0 {
        0
    } else {
        total_force(ps, hi - 1, m, c) + force_sum(ps, hi - 1, m, c)
    }
}

/// Component `c` of the forces that sample `m` exerts on the samples `k < hi`.
pub open spec fn column_sum(ps: Seq<Particle>, m: int, hi: int, c: int) -> int
    decreases hi,
{
    if hi <= 0 {
        0
    } else {
        column_sum(ps, m, hi - 1, c) + pair_force(ps[hi - 1], ps[m], c)
    }
}

proof fn lemma_total_force_extend(ps: Seq<Particle>, hi: int, m: int, c: int)
    requires
        0 <= hi <= m,
    ensures
        total_force(ps, hi, m + 1, c) == total_force(ps, hi, m, c) + column_sum(ps, m, hi, c),
    decreases hi,
{
    if hi > 0 {
        lemma_total_force_extend(ps, hi - 1, m, c);
    }
}

proof fn lemma_row_is_negated_column(ps: Seq<Particle>, m: int, hi: int, c: int)
    requires
        0 <= hi <= m,
    ensures
        force_sum(ps, m, hi, c) == -column_sum(ps, m, hi, c),
    decreases hi,
{
    if hi > 0 {
        lemma_row_is_negated_column(ps, m, hi - 1, c);
        lemma_pair_force_antisymmetric(ps[hi - 1], ps[m], c);
    }
}

/// The forces that the pairwise stage adds sum to zero over the whole
/// population, in each component: momentum is conserved.
pub proof fn lemma_momentum_conserved(ps: Seq<Particle>, c: int)
    ensures
        total_force(ps, ps.len() as int, ps.len() as int, c) == 0,
{
    lemma_momentum_conserved_prefix(ps, ps.len() as int, c);
}

proof fn lemma_momentum_conserved_prefix(ps: Seq<Particle>, m: int, c: int)
    requires
        m >= 0,
    ensures
        total_force(ps, m, m, c) == 0,
    decreases m,
{
    if m > 0 {
        let k = m - 1;
        lemma_momentum_conserved_prefix(ps, k, c);
        lemma_total_force_extend(ps, k, k, c);
        lemma_row_is_negated_column(ps, k, k, c);
        assert(force_sum(ps, k, m, c) == force_sum(ps, k, k, c));
    }
}

/// The force that `b` exerts on `a`.
pub fn pair_force_of(a: &Particle, b: &Particle) -> (f: Vec3)
    requires
        pair_ready(*a),
        pair_ready(*b),
    ensures
        forall|c: int| 0 <= c < 3 ==> #[trigger] comp(f, c) == pair_force(*a, *b, c),
{
    let d2 = distance_squared(&a.position, &b.position);
    if d2 == 0 || d2 >= SMOOTHING_LENGTH_SQ {
        return Vec3::zero();
    }
    let r = isqrt(d2);
    proof {
        lemma_reach_root(a.position, b.position);
        lemma_component_le_root(a.position, b.position, r as int, 0);
        lemma_component_le_root(a.position, b.position, r as int, 1);
        lemma_component_le_root(a.position, b.position, r as int, 2);
    }
    let rho = a.density as i128 + b.density as i128;
    let ps = a.pressure as i128 + b.pressure as i128;
    let x = pair_component(a.position.x, b.position.x, a.velocity.x, b.velocity.x, ps, rho, r);
    let y = pair_component(a.position.y, b.position.y, a.velocity.y, b.velocity.y, ps, rho, r);
    let z = pair_component(a.position.z, b.position.z, a.velocity.z, b.velocity.z, ps, rho, r);
    Vec3 { x, y, z }
}

proof fn lemma_accumulated_bound(m: int)
    requires
        0 <= m <= MAX_PARTICLES,
    ensures
        MAX_FORCE + m * pair_force_bound() < i64::MAX,
{
    assert(m * pair_force_bound() <= MAX_PARTICLES * pair_force_bound()) by (nonlinear_arith)
        requires
            0 <= m <= MAX_PARTICLES,
    ;
}

/// Adds to every particle's force the pressure and viscous forces of all the
/// unordered pairs it belongs to, each pair computed once and applied to
/// both members with opposite signs. Nothing else changes.
pub fn particle_collision_system(particles: &mut Vec<Particle>)
    requires
        old(particles).len() <= MAX_PARTICLES,
        forall|k: int| 0 <= k < old(particles).len() ==> force_ready(#[trigger] old(particles)@[k]),
    ensures
        final(particles).len() == old(particles).len(),
        forall|k: int|
            0 <= k < old(particles).len() ==> same_but_force(
                #[trigger] final(particles)@[k],
                old(particles)@[k],
            ),
        forall|k: int, c: int|
            0 <= k < old(particles).len() && 0 <= c < 3 ==> #[trigger] comp(
                final(particles)@[k].force,
                c,
            ) == comp(old(particles)@[k].force, c) + force_sum(
                old(particles)@,
                k,
                old(particles).len() as int,
                c,
            ),
{
    let n = particles.len();
    let ghost start = particles@;
    let mut i: usize = 0;
    while i < n
        invariant
            0 <= i <= n <= MAX_PARTICLES,
            n == particles.len(),
            start.len() == n,
            forall|k: int| 0 <= k < n ==> force_ready(#[trigger] start[k]),
            forall|k: int| 0 <= k < n ==> same_but_force(#[trigger] particles@[k], start[k]),
            forall|k: int, c: int|
                0 <= k < i && 0 <= c < 3 ==> #[trigger] comp(particles@[k].force, c) == comp(
                    start[k].force,
                    c,
                ) + force_sum(start, k, n as int, c),
            forall|k: int, c: int|
                i <= k < n && 0 <= c < 3 ==> #[trigger] comp(particles@[k].force, c) == comp(
                    start[k].force,
                    c,
                ) + force_sum(start, k, i as int, c),
        decreases n - i,
    {
        let pi = particles[i];
        let mut acc: Vec3 = pi.force;
        let mut j: usize = i + 1;
        while j < n
            invariant
                0 <= i < j <= n <= MAX_PARTICLES,
                n == particles.len(),
                start.len() == n,
                same_but_force(pi, start[i as int]),
                forall|k: int| 0 <= k < n ==> force_ready(#[trigger] start[k]),
                forall|k: int| 0 <= k < n ==> same_but_force(#[trigger] particles@[k], start[k]),
                forall|k: int, c: int|
                    0 <= k < i && 0 <= c < 3 ==> #[trigger] comp(particles@[k].force, c) == comp(
                        start[k].force,
                        c,
                    ) + force_sum(start, k, n as int, c),
                forall|c: int|
                    0 <= c < 3 ==> #[trigger] comp(acc, c) == comp(start[i as int].force, c)
                        + force_sum(start, i as int, j as int, c),
                forall|k: int, c: int|
                    i < k < j && 0 <= c < 3 ==> #[trigger] comp(particles@[k].force, c) == comp(
                        start[k].force,
                        c,
                    ) + force_sum(start, k, i + 1, c),
                forall|k: int, c: int|
                    j <= k < n && 0 <= c < 3 ==> #[trigger] comp(particles@[k].force, c) == comp(
                        start[k].force,
                        c,
                    ) + force_sum(start, k, i as int, c),
            decreases n - j,
        {
            let pj = particles[j];
            let f = pair_force_of(&pi, &pj);
            proof {
                lemma_accumulated_bound(j + 1);
                lemma_accumulated_bound(i + 1);
                assert forall|c: int| 0 <= c < 3 implies {
                    &&& #[trigger] pair_force(pi, pj, c) == pair_force(start[i as int], start[j as int], c)
                    &&& pair_force(start[j as int], start[i as int], c) == -pair_force(start[i as int], start[j as int], c)
                    &&& abs(force_sum(start, i as int, j + 1, c)) <= (j + 1) * pair_force_bound()
                    &&& abs(force_sum(start, j as int, i + 1, c)) <= (i + 1) * pair_force_bound()
                } by {
                    lemma_pair_force_antisymmetric(start[i as int], start[j as int], c);
                    lemma_force_sum_bound(start, i as int, j + 1, c);
                    lemma_force_sum_bound(start, j as int, i + 1, c);
                }
            }
            acc = add_vec(acc, f);
            let fj = sub_vec(pj.force, f);
            particles[j].force = fj;
            j += 1;
        }
        particles[i].force = acc;
        i += 1;
    }
}

} // verus!
