use vstd::prelude::*;

use crate::units::MAX_COORD;


verus! {

/// A point or a vector in fixed-point length (or velocity, force) units.
#[derive(Clone, Copy, Debug, PartialEq, Eq)]
pub struct Vec3 {
    pub x: i64,
    pub y: i64,
    pub z: i64,
}

impl Vec3 {
    pub fn new(x: i64, y: i64, z: i64) -> (r: Vec3)
        ensures
            r == (Vec3 { x, y, z }),
    {
        Vec3 { x, y, z }
    }

    pub open spec fn spec_zero() -> Vec3 {
        Vec3 { x: 0, y: 0, z: 0 }
    }

    pub fn zero() -> (r: Vec3)
        ensures
            r == Vec3::spec_zero(),
    {
        Vec3 { x: 0, y: 0, z: 0 }
    }
}

/// Component `c` (0, 1 or 2) of a vector.
pub open spec fn comp(v: Vec3, c: int) -> int {
    if c == 0 {
        v.x as int
    } else if c == 1 {
        v.y as int
    } else {
        v.z as int
    }
}

/// Every component lies within `[-bound, bound]`.
pub open spec fn bounded(v: Vec3, bound: int) -> bool {
    -bound <= v.x <= bound && -bound <= v.y <= bound && -bound <= v.z <= bound
}

/// Squared Euclidean distance from `a` to `b`.
pub open spec fn dist2(a: Vec3, b: Vec3) -> int {
    (b.x - a.x) * (b.x - a.x) + (b.y - a.y) * (b.y - a.y) + (b.z - a.z) * (b.z - a.z)
}

pub open spec fn abs(x: int) -> int {
    if x >= 0 {
        x
    } else {
        -x
    }
}

/// `r` is the integer square root of `x`: the largest `r` with `r * r <= x`.
pub open spec fn is_root(x: int, r: int) -> bool {
    0 <= r && r * r <= x < (r + 1) * (r + 1)
}

/// The integer square root of a non-negative `x`.
pub open spec fn root(x: int) -> int {
    choose|r: int| is_root(x, r)
}

/// Division that rounds toward zero.
pub open spec fn tdiv(n: int, d: int) -> int {
    if n > 0 {
        n / d
    } else if n < 0 {
        -((-n) / d)
    } else {
        0
    }
}

/// Division that rounds away from zero: a non-zero numerator never gives zero.
pub open spec fn adiv(n: int, d: int) -> int {
    if n > 0 {
        (n + d - 1) / d
    } else if n < 0 {
        -((-n + d - 1) / d)
    } else {
        0
    }
}

pub proof fn lemma_adiv_neg(n: int, d: int)
    ensures
        adiv(-n, d) == -adiv(n, d),
{
}

/// Rounding away from zero gives zero only for a zero numerator.
pub proof fn lemma_adiv_zero(n: int, d: int)
    requires
        d > 0,
    ensures
        adiv(n, d) == 0 <==> n == 0,
{
    if n != 0 {
        let m = if n > 0 {
            n
        } else {
            -n
        };
        vstd::arithmetic::div_mod::lemma_div_is_ordered(d, m + d - 1, d);
        vstd::arithmetic::div_mod::lemma_div_multiples_vanish(1, d);
    }
}

/// A bound on the quotient: `|n| <= c * d` gives `|adiv(n, d)| <= c`.
pub proof fn lemma_adiv_bound(n: int, d: int, c: int)
    requires
        d > 0,
        c >= 0,
        -(c * d) <= n <= c * d,
    ensures
        -c <= adiv(n, d) <= c,
{
    if n != 0 {
        let m = if n > 0 {
            n
        } else {
            -n
        };
        vstd::arithmetic::div_mod::lemma_div_is_ordered(m + d - 1, d * c + (d - 1), d);
        vstd::arithmetic::div_mod::lemma_div_multiples_vanish_fancy(c, d - 1, d);
        vstd::arithmetic::div_mod::lemma_div_pos_is_pos(m + d - 1, d);
        assert(d * c == c * d) by (nonlinear_arith);
    }
}

pub proof fn lemma_root_unique(x: int, a: int, b: int)
    requires
        is_root(x, a),
        is_root(x, b),
    ensures
        a == b,
{
    if a < b {
        assert((a + 1) * (a + 1) <= b * b) by (nonlinear_arith)
            requires
                0 <= a,
                a + 1 <= b,
        ;
    } else if b < a {
        assert((b + 1) * (b + 1) <= a * a) by (nonlinear_arith)
            requires
                0 <= b,
                b + 1 <= a,
        ;
    }
}

pub proof fn lemma_root_exists(x: int)
    requires
        x >= 0,
    ensures
        is_root(x, root(x)),
    decreases x,
{
    if x == 0 {
        assert(is_root(0, 0));
    } else {
        lemma_root_exists(x - 1);
        let r = root(x - 1);
        if (r + 1) * (r + 1) <= x {
            assert(is_root(x, r + 1)) by (nonlinear_arith)
                requires
                    0 <= r,
                    (r + 1) * (r + 1) <= x,
                    x - 1 < (r + 1) * (r + 1),
            ;
        } else {
            assert(is_root(x, r));
        }
    }
}

pub proof fn lemma_root_is_root(x: int, r: int)
    requires
        is_root(x, r),
    ensures
        root(x) == r,
{
    lemma_root_unique(x, root(x), r);
}

/// Each coordinate difference is at most the (rounded-down) distance.
pub proof fn lemma_component_le_root(a: Vec3, b: Vec3, r: int, c: int)
    requires
        is_root(dist2(a, b), r),
        0 <= c < 3,
    ensures
        abs(comp(b, c) - comp(a, c)) <= r,
{
    let d = comp(b, c) - comp(a, c);
    assert(d * d <= dist2(a, b)) by {
        assert((b.x - a.x) * (b.x - a.x) >= 0) by (nonlinear_arith);
        assert((b.y - a.y) * (b.y - a.y) >= 0) by (nonlinear_arith);
        assert((b.z - a.z) * (b.z - a.z) >= 0) by (nonlinear_arith);
    }
    if abs(d) > r {
        assert(d * d >= (r + 1) * (r + 1)) by (nonlinear_arith)
            requires
                abs(d) >= r + 1,
                r >= 0,
        ;
    }
}

pub proof fn lemma_dist2_symmetric(a: Vec3, b: Vec3)
    ensures
        dist2(a, b) == dist2(b, a),
{
    assert((b.x - a.x) * (b.x - a.x) == (a.x - b.x) * (a.x - b.x)) by (nonlinear_arith);
    assert((b.y - a.y) * (b.y - a.y) == (a.y - b.y) * (a.y - b.y)) by (nonlinear_arith);
    assert((b.z - a.z) * (b.z - a.z) == (a.z - b.z) * (a.z - b.z)) by (nonlinear_arith);
}

pub proof fn lemma_dist2_nonneg(a: Vec3, b: Vec3)
    ensures
        dist2(a, b) >= 0,
{
    lemma_square_bound(b.x - a.x, if b.x >= a.x { b.x - a.x } else { a.x - b.x });
    lemma_square_bound(b.y - a.y, if b.y >= a.y { b.y - a.y } else { a.y - b.y });
    lemma_square_bound(b.z - a.z, if b.z >= a.z { b.z - a.z } else { a.z - b.z });
}

pub proof fn lemma_tdiv_neg(n: int, d: int)
    ensures
        tdiv(-n, d) == -tdiv(n, d),
{
}

/// A bound on the quotient: `|n| <= c * d` gives `|tdiv(n, d)| <= c`.
pub proof fn lemma_tdiv_bound(n: int, d: int, c: int)
    requires
        d > 0,
        c >= 0,
        -(c * d) <= n <= c * d,
    ensures
        -c <= tdiv(n, d) <= c,
{
    let m = if n >= 0 {
        n
    } else {
        -n
    };
    assert(m <= c * d);
    vstd::arithmetic::div_mod::lemma_div_is_ordered(m, c * d, d);
    vstd::arithmetic::div_mod::lemma_div_multiples_vanish(c, d);
    vstd::arithmetic::div_mod::lemma_div_pos_is_pos(m, d);
    assert(d * c == c * d) by (nonlinear_arith);
}

/// The component-wise sum of two vectors.
pub fn add_vec(a: Vec3, b: Vec3) -> (r: Vec3)
    requires
        forall|c: int| 0 <= c < 3 ==> i64::MIN <= #[trigger] comp(a, c) + comp(b, c) <= i64::MAX,
    ensures
        forall|c: int| 0 <= c < 3 ==> #[trigger] comp(r, c) == comp(a, c) + comp(b, c),
{
    assert(i64::MIN <= comp(a, 0) + comp(b, 0) <= i64::MAX);
    assert(i64::MIN <= comp(a, 1) + comp(b, 1) <= i64::MAX);
    assert(i64::MIN <= comp(a, 2) + comp(b, 2) <= i64::MAX);
    Vec3 { x: a.x + b.x, y: a.y + b.y, z: a.z + b.z }
}

/// The component-wise difference of two vectors.
pub fn sub_vec(a: Vec3, b: Vec3) -> (r: Vec3)
    requires
        forall|c: int| 0 <= c < 3 ==> i64::MIN <= #[trigger] comp(a, c) - comp(b, c) <= i64::MAX,
    ensures
        forall|c: int| 0 <= c < 3 ==> #[trigger] comp(r, c) == comp(a, c) - comp(b, c),
{
    assert(i64::MIN <= comp(a, 0) - comp(b, 0) <= i64::MAX);
    assert(i64::MIN <= comp(a, 1) - comp(b, 1) <= i64::MAX);
    assert(i64::MIN <= comp(a, 2) - comp(b, 2) <= i64::MAX);
    Vec3 { x: a.x - b.x, y: a.y - b.y, z: a.z - b.z }
}

/// Division rounded toward zero, by a positive divisor.
pub fn div_toward_zero(n: i128, d: i128) -> (q: i128)
    requires
        d > 0,
        n > i128::MIN,
    ensures
        q == tdiv(n as int, d as int),
{
    if n > 0 {
        n / d
    } else if n < 0 {
        proof {
            vstd::arithmetic::div_mod::lemma_div_is_ordered(-n, i128::MAX as int, d as int);
            vstd::arithmetic::div_mod::lemma_div_pos_is_pos(-n, d as int);
            vstd::arithmetic::div_mod::lemma_div_is_ordered_by_denominator(i128::MAX as int, 1, d as int);
        }
        -((-n) / d)
    } else {
        0
    }
}

/// Division rounded away from zero, by a positive divisor.
pub fn div_away_from_zero(n: i128, d: i128) -> (q: i128)
    requires
        d > 0,
        -0x2000_0000_0000_0000_0000_0000_0000_0000 <= n <= 0x2000_0000_0000_0000_0000_0000_0000_0000,
        d <= 0x2000_0000_0000_0000_0000_0000_0000_0000,
    ensures
        q == adiv(n as int, d as int),
{
    if n > 0 {
        proof {
            vstd::arithmetic::div_mod::lemma_div_is_ordered(n + d - 1, i128::MAX as int, d as int);
            vstd::arithmetic::div_mod::lemma_div_pos_is_pos(n + d - 1, d as int);
            vstd::arithmetic::div_mod::lemma_div_is_ordered_by_denominator(i128::MAX as int, 1, d as int);
        }
        (n + d - 1) / d
    } else if n < 0 {
        proof {
            vstd::arithmetic::div_mod::lemma_div_is_ordered(-n + d - 1, i128::MAX as int, d as int);
            vstd::arithmetic::div_mod::lemma_div_pos_is_pos(-n + d - 1, d as int);
            vstd::arithmetic::div_mod::lemma_div_is_ordered_by_denominator(i128::MAX as int, 1, d as int);
        }
        -((-n + d - 1) / d)
    } else {
        0
    }
}

/// The squared distance between two points whose coordinates lie within
/// `MAX_COORD`, computed exactly.
pub fn distance_squared(a: &Vec3, b: &Vec3) -> (r: i128)
    requires
        bounded(*a, MAX_COORD as int),
        bounded(*b, MAX_COORD as int),
    ensures
        r == dist2(*a, *b),
        0 <= r <= 3 * 0x4000_0000_0000_0000,
{
    let dx = b.x as i128 - a.x as i128;
    let dy = b.y as i128 - a.y as i128;
    let dz = b.z as i128 - a.z as i128;
    proof {
        lemma_square_bound(dx as int, 0x8000_0000);
        lemma_square_bound(dy as int, 0x8000_0000);
        lemma_square_bound(dz as int, 0x8000_0000);
    }
    dx * dx + dy * dy + dz * dz
}

pub proof fn lemma_square_bound(v: int, m: int)
    requires
        -m <= v <= m,
    ensures
        0 <= v * v <= m * m,
{
    assert(0 <= v * v <= m * m) by (nonlinear_arith)
        requires
            -m <= v <= m,
    ;
}

/// The integer square root of `x`, by bisection.
pub fn isqrt(x: i128) -> (r: i128)
    requires
        0 <= x < 0x1_0000_0000_0000_0000,
    ensures
        is_root(x as int, r as int),
        r == root(x as int),
        0 <= r <= 0xFFFF_FFFF,
{
    let mut lo: i128 = 0;
    let mut hi: i128 = 0x1_0000_0000;
    while hi - lo > 1
        invariant
            0 <= lo < hi <= 0x1_0000_0000,
            lo * lo <= x,
            x < hi * hi,
        decreases hi - lo,
    {
        let mid = lo + (hi - lo) / 2;
        proof {
            assert(0 <= mid * mid <= 0x1_0000_0000 * 0x1_0000_0000) by (nonlinear_arith)
                requires
                    0 <= mid <= 0x1_0000_0000,
            ;
        }
        if mid * mid <= x {
            lo = mid;
        } else {
            hi = mid;
        }
    }
    proof {
        assert(hi == lo + 1);
        lemma_root_is_root(x as int, lo as int);
    }
    lo
}

} // verus!
