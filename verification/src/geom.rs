use vstd::prelude::*;

use crate::algebra::{dot_spec, FpVec3, DIR_BOUND};
use crate::fixed::{FP_ONE, FP_ONE_I64};

verus! {

/// Largest admitted magnitude of a fixed-point scene coordinate (a center
/// offset component or a radius): `2^38`, enough for coordinates up to
/// about `2 * 10^5` units at 20 fractional bits.
pub const COORD_BOUND: i64 = 0x40_0000_0000;

/// The square of the fixed-point unit, `2^40`: distances along a ray and
/// the guard `eps` are carried at this scale, the discriminant at its
/// square.
pub const FP_SQ: i128 = 0x100_0000_0000;

/// Largest admitted magnitude of the quadratic's linear coefficient `b`
/// at the `2^40` scale.
pub const B_BOUND: i128 = 0x2000_0000_0000_0000;

/// Largest admitted discriminant at the `2^80` scale.
pub const DISC_BOUND: i128 = 0x800_0000_0000_0000_0000_0000_0000_0000;

/// The floor of the square root of a non-negative integer.
pub open spec fn isqrt_spec(n: int) -> int
    recommends
        n >= 0,
{
    choose|r: int| 0 <= r && #[trigger] (r * r) <= n && n < (r + 1) * (r + 1)
}

/// The floor of the square root is the unique non-negative `r` with
/// `r * r <= n < (r + 1) * (r + 1)`.
pub proof fn lemma_isqrt_unique(n: int, r: int)
    requires
        0 <= r,
        r * r <= n,
        n < (r + 1) * (r + 1),
    ensures
        isqrt_spec(n) == r,
{
    assert(exists|q: int| 0 <= q && #[trigger] (q * q) <= n && n < (q + 1) * (q + 1)) by {
        assert(0 <= r && r * r <= n && n < (r + 1) * (r + 1));
    }
    let c = isqrt_spec(n);
    assert(0 <= c && c * c <= n && n < (c + 1) * (c + 1));
    assert(c == r) by (nonlinear_arith)
        requires
            0 <= c,
            c * c <= n,
            n < (c + 1) * (c + 1),
            0 <= r,
            r * r <= n,
            n < (r + 1) * (r + 1),
    ;
}

/// Floor of the square root, by binary search on the root.
pub fn isqrt(n: u128) -> (r: u128)
    ensures
        r * r <= n,
        n < (r + 1) * (r + 1),
        r as int == isqrt_spec(n as int),
{
    let mut lo: u128 = 0;
    let mut hi: u128 = 0x1_0000_0000_0000_0000;
    proof {
        assert(n < hi * hi);
    }
    while hi - lo > 1
        invariant
            lo < hi,
            hi <= 0x1_0000_0000_0000_0000,
            lo * lo <= n,
            n < hi * hi,
        decreases hi - lo,
    {
        let mid = lo + (hi - lo) / 2;
        proof {
            assert(mid * mid <= 0xffff_ffff_ffff_ffff * 0xffff_ffff_ffff_ffff)
                by (nonlinear_arith)
                requires
                    0 <= mid < 0x1_0000_0000_0000_0000,
            ;
        }
        if mid * mid <= n {
            lo = mid;
        } else {
            hi = mid;
        }
    }
    proof {
        lemma_isqrt_unique(n as int, lo as int);
    }
    lo
}

/// The magnitude of a product is bounded by the product of the factors'
/// bounds.
pub proof fn lemma_abs_product_bound(a: int, b: int, ca: int, cb: int)
    requires
        -ca <= a <= ca,
        -cb <= b <= cb,
        0 <= ca,
        0 <= cb,
    ensures
        -(ca * cb) <= a * b <= ca * cb,
{
    assert(-(ca * cb) <= a * b <= ca * cb) by (nonlinear_arith)
        requires
            -ca <= a <= ca,
            -cb <= b <= cb,
            0 <= ca,
            0 <= cb,
    ;
}

/// Root selection of the ray/sphere quadratic: with `b` the projection of
/// the center offset onto the ray and `root` the square root of the
/// discriminant, the candidate distances are `b - root` (near) and
/// `b + root` (far); the near one is returned if it clears the
/// self-intersection guard `eps`, else the far one, else there is no hit.
pub open spec fn select_root(b: int, root: int, eps: int) -> Option<int> {
    if b - root > eps {
        Some(b - root)
    } else if b + root > eps {
        Some(b + root)
    } else {
        None
    }
}

/// Ray/sphere intersection outcome from the quadratic's pieces: a negative
/// discriminant is a miss; otherwise the roots `b -/+ sqrt(disc)` are
/// filtered through the `eps` guard by `select_root`. `b` and `eps` carry
/// 40 fractional bits, the discriminant 80, so the root comes out in the
/// same scale as `b`.
pub open spec fn sphere_hit_spec(b: int, disc: int, eps: int) -> Option<int> {
    if disc < 0 {
        None
    } else {
        select_root(b, isqrt_spec(disc), eps)
    }
}

/// Distance along a ray to a sphere, from the quadratic's coefficients,
/// or `None` for a miss. Every returned distance clears the positive
/// guard `eps`.
pub fn sphere_hit(b: i128, disc: i128, eps: i128) -> (r: Option<i128>)
    requires
        -B_BOUND <= b <= B_BOUND,
        disc <= DISC_BOUND,
        0 < eps,
    ensures
        match r {
            None => sphere_hit_spec(b as int, disc as int, eps as int) is None,
            Some(t) => sphere_hit_spec(b as int, disc as int, eps as int) == Some(t as int),
        },
        r matches Some(t) ==> eps < t,
{
    if disc < 0 {
        None
    } else {
        let root128 = isqrt(disc as u128);
        proof {
            assert(root128 <= 0x4000_0000_0000_0000u128) by (nonlinear_arith)
                requires
                    root128 * root128 <= disc as u128,
                    disc as u128 <= 0x800_0000_0000_0000_0000_0000_0000_0000u128,
            ;
        }
        let root = root128 as i128;
        if b - root > eps {
            Some(b - root)
        } else if b + root > eps {
            Some(b + root)
        } else {
            None
        }
    }
}

/// The linear coefficient of the ray/sphere quadratic: the projection of
/// the center offset onto the ray direction, at the `2^40` scale for a
/// unit direction.
pub open spec fn quad_b_spec(op: FpVec3, dir: FpVec3) -> int {
    dot_spec(op, dir)
}

/// The discriminant of the ray/sphere quadratic, at the `2^80` scale:
/// `b^2 - dot(op, op) + radius^2`, each term brought to that scale.
pub open spec fn quad_disc_spec(op: FpVec3, dir: FpVec3, rad: int) -> int {
    dot_spec(op, dir) * dot_spec(op, dir) - dot_spec(op, op) * FP_SQ + rad * rad * FP_SQ
}

/// The full ray/sphere intersection from fixed-point geometry: `op` the
/// center offset `center - origin`, `dir` the unit ray direction, `rad`
/// the radius; the distance comes out at the `2^40` scale.
pub open spec fn sphere_intersect_spec(op: FpVec3, dir: FpVec3, rad: int, eps: int) -> Option<
    int,
> {
    sphere_hit_spec(quad_b_spec(op, dir), quad_disc_spec(op, dir, rad), eps)
}

/// A fixed-point vector whose components are admitted scene coordinates.
pub open spec fn in_coord_bounds(v: FpVec3) -> bool {
    &&& -COORD_BOUND <= v.x <= COORD_BOUND
    &&& -COORD_BOUND <= v.y <= COORD_BOUND
    &&& -COORD_BOUND <= v.z <= COORD_BOUND
}

/// A fixed-point vector whose components are admitted direction
/// components.
pub open spec fn in_dir_bounds(v: FpVec3) -> bool {
    &&& -DIR_BOUND <= v.x <= DIR_BOUND
    &&& -DIR_BOUND <= v.y <= DIR_BOUND
    &&& -DIR_BOUND <= v.z <= DIR_BOUND
}

/// The two coefficients of the ray/sphere quadratic, exactly
/// `quad_b_spec` and `quad_disc_spec`, with their admitted ranges.
pub fn sphere_coeffs(op: FpVec3, dir: FpVec3, rad: i64) -> (r: (i128, i128))
    requires
        in_coord_bounds(op),
        in_dir_bounds(dir),
        0 <= rad <= COORD_BOUND,
    ensures
        r.0 == quad_b_spec(op, dir),
        r.1 == quad_disc_spec(op, dir, rad as int),
        -B_BOUND <= r.0 <= B_BOUND,
        r.1 <= DISC_BOUND,
{
    proof {
        lemma_abs_product_bound(op.x as int, dir.x as int, COORD_BOUND as int, DIR_BOUND as int);
        lemma_abs_product_bound(op.y as int, dir.y as int, COORD_BOUND as int, DIR_BOUND as int);
        lemma_abs_product_bound(op.z as int, dir.z as int, COORD_BOUND as int, DIR_BOUND as int);
        lemma_abs_product_bound(op.x as int, op.x as int, COORD_BOUND as int, COORD_BOUND as int);
        lemma_abs_product_bound(op.y as int, op.y as int, COORD_BOUND as int, COORD_BOUND as int);
        lemma_abs_product_bound(op.z as int, op.z as int, COORD_BOUND as int, COORD_BOUND as int);
        lemma_abs_product_bound(rad as int, rad as int, COORD_BOUND as int, COORD_BOUND as int);
    }
    let b2: i128 = (op.x as i128) * (dir.x as i128) + (op.y as i128) * (dir.y as i128) + (
    op.z as i128) * (dir.z as i128);
    let oo: i128 = (op.x as i128) * (op.x as i128) + (op.y as i128) * (op.y as i128) + (
    op.z as i128) * (op.z as i128);
    let rr: i128 = (rad as i128) * (rad as i128);
    proof {
        lemma_abs_product_bound(b2 as int, b2 as int, 0x1800_0000_0000_0000, 0x1800_0000_0000_0000);
        lemma_abs_product_bound(
            oo as int,
            FP_SQ as int,
            0x3000_0000_0000_0000_0000,
            FP_SQ as int,
        );
        lemma_abs_product_bound(
            rr as int,
            FP_SQ as int,
            0x3000_0000_0000_0000_0000,
            FP_SQ as int,
        );
    }
    let disc: i128 = b2 * b2 - oo * FP_SQ + rr * FP_SQ;
    (b2, disc)
}

/// Distance along a ray to a sphere, from fixed-point geometry, or `None`
/// for a miss: the quadratic's coefficients are formed exactly and the
/// root selected under the `eps` guard.
pub fn sphere_intersect(op: FpVec3, dir: FpVec3, rad: i64, eps: i128) -> (r: Option<i128>)
    requires
        in_coord_bounds(op),
        in_dir_bounds(dir),
        0 <= rad <= COORD_BOUND,
        0 < eps,
    ensures
        match r {
            None => sphere_intersect_spec(op, dir, rad as int, eps as int) is None,
            Some(t) => sphere_intersect_spec(op, dir, rad as int, eps as int) == Some(t as int),
        },
        r matches Some(t) ==> eps < t,
{
    let (b, disc) = sphere_coeffs(op, dir, rad);
    sphere_hit(b, disc, eps)
}

/// A ray aimed from outside a sphere straight at its center hits at the
/// distance to the center minus the radius: for a unit direction and a
/// center offset that is exactly `m` units of it, the discriminant is
/// exactly the squared radius, so the near root lands at `(m - rad)`
/// units whenever it clears the guard.
pub proof fn lemma_aimed_at_center_hits(op: FpVec3, dir: FpVec3, m: int, rad: int, eps: int)
    requires
        op.x * FP_ONE == m * dir.x,
        op.y * FP_ONE == m * dir.y,
        op.z * FP_ONE == m * dir.z,
        dot_spec(dir, dir) == FP_ONE * FP_ONE,
        0 <= rad,
        (m - rad) * FP_ONE > eps,
    ensures
        sphere_intersect_spec(op, dir, rad, eps) == Some((m - rad) * FP_ONE),
{
    let s = FP_ONE as int;
    let b = dot_spec(op, dir);
    let oo = dot_spec(op, op);
    assert(op.x * dir.x * s == m * (dir.x * dir.x)) by (nonlinear_arith)
        requires
            op.x * s == m * dir.x,
    ;
    assert(op.y * dir.y * s == m * (dir.y * dir.y)) by (nonlinear_arith)
        requires
            op.y * s == m * dir.y,
    ;
    assert(op.z * dir.z * s == m * (dir.z * dir.z)) by (nonlinear_arith)
        requires
            op.z * s == m * dir.z,
    ;
    assert(b * s == op.x * dir.x * s + op.y * dir.y * s + op.z * dir.z * s) by (nonlinear_arith)
        requires
            b == op.x * dir.x + op.y * dir.y + op.z * dir.z,
    ;
    assert(m * (dir.x * dir.x) + m * (dir.y * dir.y) + m * (dir.z * dir.z) == m * (dir.x * dir.x
        + dir.y * dir.y + dir.z * dir.z)) by (nonlinear_arith);
    assert(b * s == m * (s * s));
    assert(b == m * s) by (nonlinear_arith)
        requires
            b * s == m * (s * s),
            s == 1048576,
    ;
    assert(op.x * op.x * (s * s) == m * m * (dir.x * dir.x)) by (nonlinear_arith)
        requires
            op.x * s == m * dir.x,
    ;
    assert(op.y * op.y * (s * s) == m * m * (dir.y * dir.y)) by (nonlinear_arith)
        requires
            op.y * s == m * dir.y,
    ;
    assert(op.z * op.z * (s * s) == m * m * (dir.z * dir.z)) by (nonlinear_arith)
        requires
            op.z * s == m * dir.z,
    ;
    assert(oo * (s * s) == op.x * op.x * (s * s) + op.y * op.y * (s * s) + op.z * op.z * (s * s))
        by (nonlinear_arith)
        requires
            oo == op.x * op.x + op.y * op.y + op.z * op.z,
    ;
    assert(m * m * (dir.x * dir.x) + m * m * (dir.y * dir.y) + m * m * (dir.z * dir.z) == m * m * (
    dir.x * dir.x + dir.y * dir.y + dir.z * dir.z)) by (nonlinear_arith);
    assert(m * m * (s * s) == (m * s) * (m * s)) by (nonlinear_arith);
    assert(oo * (s * s) == (m * s) * (m * s));
    let disc = quad_disc_spec(op, dir, rad);
    assert(s * s == FP_SQ);
    assert(b * b == (m * s) * (m * s));
    assert(rad * rad * (s * s) == (rad * s) * (rad * s)) by (nonlinear_arith);
    assert(disc == (rad * s) * (rad * s));
    assert((rad * s) * (rad * s) < (rad * s + 1) * (rad * s + 1)) by (nonlinear_arith)
        requires
            0 <= rad,
            s == 1048576,
    ;
    assert(disc >= 0) by (nonlinear_arith)
        requires
            disc == (rad * s) * (rad * s),
    ;
    lemma_isqrt_unique(disc, rad * s);
    assert(b - rad * s == (m - rad) * s) by (nonlinear_arith)
        requires
            b == m * s,
    ;
}

/// A ray tangent to a sphere (perpendicular offset equal to the radius)
/// has discriminant zero: near and far root coincide at `b`, and the hit
/// is reported there whenever `b` clears the guard.
pub proof fn lemma_tangent_ray(b: int, eps: int)
    requires
        0 < eps,
    ensures
        b > eps ==> sphere_hit_spec(b, 0, eps) == Some(b),
        b <= eps ==> sphere_hit_spec(b, 0, eps) is None,
{
    lemma_isqrt_unique(0, 0);
}

/// A ray whose perpendicular offset from the center exceeds the radius
/// has a negative discriminant, and misses.
pub proof fn lemma_negative_discriminant_misses(b: int, disc: int, eps: int)
    requires
        disc < 0,
    ensures
        sphere_hit_spec(b, disc, eps) is None,
{
}

/// A component of a normalized vector: the component's magnitude scaled
/// to the fixed-point unit and divided by the vector's length `l`, its
/// sign kept (the division truncates the magnitude).
pub open spec fn normalize_comp_spec(c: int, l: int) -> int {
    if c < 0 {
        -((-c) * FP_ONE / l)
    } else {
        c * FP_ONE / l
    }
}

/// Bounds on the squared magnitude of a normalized triple: with `l` the
/// floor square root of `a1^2 + a2^2 + a3^2` and each `qi` the truncated
/// quotient `ai * FP_ONE / l`, the sum of the `qi^2` reaches the squared
/// unit up to a few units of truncation below, and exceeds it by at most
/// `2 * FP_ONE^2 / l` above.
proof fn lemma_norm_bounds(a1: int, a2: int, a3: int, l: int, q1: int, q2: int, q3: int)
    requires
        0 <= a1,
        0 <= a2,
        0 <= a3,
        1 <= l,
        l * l <= a1 * a1 + a2 * a2 + a3 * a3,
        a1 * a1 + a2 * a2 + a3 * a3 < (l + 1) * (l + 1),
        q1 == a1 * FP_ONE / l,
        q2 == a2 * FP_ONE / l,
        q3 == a3 * FP_ONE / l,
    ensures
        0 <= q1 <= FP_ONE,
        0 <= q2 <= FP_ONE,
        0 <= q3 <= FP_ONE,
        q1 * q1 + q2 * q2 + q3 * q3 >= FP_ONE * FP_ONE - 6 * FP_ONE - 3,
        l * (q1 * q1 + q2 * q2 + q3 * q3) <= FP_ONE * FP_ONE * l + 2 * (FP_ONE * FP_ONE),
{
    let s = FP_ONE as int;
    assert(a1 <= l && a2 <= l && a3 <= l) by (nonlinear_arith)
        requires
            0 <= a1,
            0 <= a2,
            0 <= a3,
            0 <= l,
            a1 * a1 + a2 * a2 + a3 * a3 < (l + 1) * (l + 1),
    ;
    vstd::arithmetic::div_mod::lemma_fundamental_div_mod(a1 * s, l);
    vstd::arithmetic::div_mod::lemma_mod_bound(a1 * s, l);
    vstd::arithmetic::div_mod::lemma_div_pos_is_pos(a1 * s, l);
    vstd::arithmetic::div_mod::lemma_fundamental_div_mod(a2 * s, l);
    vstd::arithmetic::div_mod::lemma_mod_bound(a2 * s, l);
    vstd::arithmetic::div_mod::lemma_div_pos_is_pos(a2 * s, l);
    vstd::arithmetic::div_mod::lemma_fundamental_div_mod(a3 * s, l);
    vstd::arithmetic::div_mod::lemma_mod_bound(a3 * s, l);
    vstd::arithmetic::div_mod::lemma_div_pos_is_pos(a3 * s, l);
    assert(l * q1 <= a1 * s && a1 * s <= l * q1 + l - 1);
    assert(l * q2 <= a2 * s && a2 * s <= l * q2 + l - 1);
    assert(l * q3 <= a3 * s && a3 * s <= l * q3 + l - 1);
    assert(q1 <= s && q2 <= s && q3 <= s) by (nonlinear_arith)
        requires
            l * q1 <= a1 * s,
            l * q2 <= a2 * s,
            l * q3 <= a3 * s,
            a1 <= l,
            a2 <= l,
            a3 <= l,
            1 <= l,
            0 <= s,
            0 <= a1,
            0 <= a2,
            0 <= a3,
    ;
    // upper bound: l^2 * sum(qi^2) <= (sum ai^2) * s^2 < (l^2 + 2l + 1) * s^2
    assert(l * l * (q1 * q1) <= (a1 * a1) * (s * s)) by (nonlinear_arith)
        requires
            0 <= l * q1,
            l * q1 <= a1 * s,
    ;
    assert(l * l * (q2 * q2) <= (a2 * a2) * (s * s)) by (nonlinear_arith)
        requires
            0 <= l * q2,
            l * q2 <= a2 * s,
    ;
    assert(l * l * (q3 * q3) <= (a3 * a3) * (s * s)) by (nonlinear_arith)
        requires
            0 <= l * q3,
            l * q3 <= a3 * s,
    ;
    assert(l * l * (q1 * q1 + q2 * q2 + q3 * q3) <= (a1 * a1 + a2 * a2 + a3 * a3) * (s * s))
        by (nonlinear_arith)
        requires
            l * l * (q1 * q1) <= (a1 * a1) * (s * s),
            l * l * (q2 * q2) <= (a2 * a2) * (s * s),
            l * l * (q3 * q3) <= (a3 * a3) * (s * s),
    ;
    assert((a1 * a1 + a2 * a2 + a3 * a3) * (s * s) <= (l * l + 2 * l) * (s * s))
        by (nonlinear_arith)
        requires
            a1 * a1 + a2 * a2 + a3 * a3 < (l + 1) * (l + 1),
            0 <= s,
    ;
    assert(l * (q1 * q1 + q2 * q2 + q3 * q3) <= (s * s) * l + 2 * (s * s)) by (nonlinear_arith)
        requires
            l * l * (q1 * q1 + q2 * q2 + q3 * q3) <= (l * l + 2 * l) * (s * s),
            1 <= l,
    ;
    // lower bound: (sum ai^2) * s^2 <= l^2 * sum((qi + 1)^2)
    assert((a1 * a1) * (s * s) <= l * l * ((q1 + 1) * (q1 + 1))) by (nonlinear_arith)
        requires
            a1 * s <= l * q1 + l - 1,
            0 <= a1,
            0 <= s,
            0 <= l,
            0 <= q1,
    ;
    assert((a2 * a2) * (s * s) <= l * l * ((q2 + 1) * (q2 + 1))) by (nonlinear_arith)
        requires
            a2 * s <= l * q2 + l - 1,
            0 <= a2,
            0 <= s,
            0 <= l,
            0 <= q2,
    ;
    assert((a3 * a3) * (s * s) <= l * l * ((q3 + 1) * (q3 + 1))) by (nonlinear_arith)
        requires
            a3 * s <= l * q3 + l - 1,
            0 <= a3,
            0 <= s,
            0 <= l,
            0 <= q3,
    ;
    assert((s * s) * (l * l) <= (a1 * a1 + a2 * a2 + a3 * a3) * (s * s)) by (nonlinear_arith)
        requires
            l * l <= a1 * a1 + a2 * a2 + a3 * a3,
            0 <= s,
    ;
    assert((s * s) * (l * l) <= l * l * ((q1 + 1) * (q1 + 1) + (q2 + 1) * (q2 + 1) + (q3 + 1) * (
    q3 + 1))) by (nonlinear_arith)
        requires
            (s * s) * (l * l) <= (a1 * a1 + a2 * a2 + a3 * a3) * (s * s),
            (a1 * a1) * (s * s) <= l * l * ((q1 + 1) * (q1 + 1)),
            (a2 * a2) * (s * s) <= l * l * ((q2 + 1) * (q2 + 1)),
            (a3 * a3) * (s * s) <= l * l * ((q3 + 1) * (q3 + 1)),
    ;
    assert(s * s <= (q1 + 1) * (q1 + 1) + (q2 + 1) * (q2 + 1) + (q3 + 1) * (q3 + 1))
        by (nonlinear_arith)
        requires
            (s * s) * (l * l) <= l * l * ((q1 + 1) * (q1 + 1) + (q2 + 1) * (q2 + 1) + (q3 + 1) * (
            q3 + 1)),
            1 <= l,
    ;
    assert((q1 + 1) * (q1 + 1) + (q2 + 1) * (q2 + 1) + (q3 + 1) * (q3 + 1) == q1 * q1 + q2 * q2
        + q3 * q3 + 2 * (q1 + q2 + q3) + 3) by (nonlinear_arith);
}

/// Normalizes a fixed-point vector: each component's magnitude is scaled
/// to the fixed-point unit and divided by the vector's length
/// `isqrt(dot(v, v))`, its sign kept. The squared magnitude of the result
/// is the squared fixed-point unit, up to a handful of units of
/// truncation below and a `2 / length` relative excess above: the
/// fixed-point form of the invariant that a normalized vector has
/// magnitude 1. A zero vector is excluded by precondition.
pub fn normalize(v: FpVec3) -> (r: FpVec3)
    requires
        -COORD_BOUND <= v.x <= COORD_BOUND,
        -COORD_BOUND <= v.y <= COORD_BOUND,
        -COORD_BOUND <= v.z <= COORD_BOUND,
        1 <= dot_spec(v, v),
    ensures
        r.x as int == normalize_comp_spec(v.x as int, isqrt_spec(dot_spec(v, v))),
        r.y as int == normalize_comp_spec(v.y as int, isqrt_spec(dot_spec(v, v))),
        r.z as int == normalize_comp_spec(v.z as int, isqrt_spec(dot_spec(v, v))),
        -FP_ONE_I64 <= r.x <= FP_ONE_I64,
        -FP_ONE_I64 <= r.y <= FP_ONE_I64,
        -FP_ONE_I64 <= r.z <= FP_ONE_I64,
        dot_spec(r, r) >= FP_ONE * FP_ONE - 6 * FP_ONE - 3,
        isqrt_spec(dot_spec(v, v)) * dot_spec(r, r) <= FP_ONE * FP_ONE * isqrt_spec(
            dot_spec(v, v),
        ) + 2 * (FP_ONE * FP_ONE),
{
    let ax: u64 = if v.x < 0 {
        (-v.x) as u64
    } else {
        v.x as u64
    };
    let ay: u64 = if v.y < 0 {
        (-v.y) as u64
    } else {
        v.y as u64
    };
    let az: u64 = if v.z < 0 {
        (-v.z) as u64
    } else {
        v.z as u64
    };
    proof {
        assert(ax * ax == v.x * v.x && ay * ay == v.y * v.y && az * az == v.z * v.z)
            by (nonlinear_arith)
            requires
                ax == if v.x < 0 {
                    -v.x as int
                } else {
                    v.x as int
                },
                ay == if v.y < 0 {
                    -v.y as int
                } else {
                    v.y as int
                },
                az == if v.z < 0 {
                    -v.z as int
                } else {
                    v.z as int
                },
        ;
        lemma_abs_product_bound(ax as int, ax as int, COORD_BOUND as int, COORD_BOUND as int);
        lemma_abs_product_bound(ay as int, ay as int, COORD_BOUND as int, COORD_BOUND as int);
        lemma_abs_product_bound(az as int, az as int, COORD_BOUND as int, COORD_BOUND as int);
    }
    let vv: u128 = (ax as u128) * (ax as u128) + (ay as u128) * (ay as u128) + (az as u128) * (
    az as u128);
    let l = isqrt(vv);
    proof {
        assert(vv as int == dot_spec(v, v));
        let li = l as int;
        let vvi = vv as int;
        assert(1 <= li) by (nonlinear_arith)
            requires
                vvi < (li + 1) * (li + 1),
                1 <= vvi,
                0 <= li,
        ;
        assert(l as int == isqrt_spec(dot_spec(v, v)));
        // each quotient fits: the dividend already does
        vstd::arithmetic::div_mod::lemma_fundamental_div_mod((ax as int) * (FP_ONE as int),
            l as int);
        vstd::arithmetic::div_mod::lemma_mod_bound((ax as int) * (FP_ONE as int), l as int);
        vstd::arithmetic::div_mod::lemma_fundamental_div_mod((ay as int) * (FP_ONE as int),
            l as int);
        vstd::arithmetic::div_mod::lemma_mod_bound((ay as int) * (FP_ONE as int), l as int);
        vstd::arithmetic::div_mod::lemma_fundamental_div_mod((az as int) * (FP_ONE as int),
            l as int);
        vstd::arithmetic::div_mod::lemma_mod_bound((az as int) * (FP_ONE as int), l as int);
    }
    let qx128: u128 = (ax as u128) * (FP_ONE as u128) / l;
    let qy128: u128 = (ay as u128) * (FP_ONE as u128) / l;
    let qz128: u128 = (az as u128) * (FP_ONE as u128) / l;
    proof {
        lemma_norm_bounds(
            ax as int,
            ay as int,
            az as int,
            l as int,
            qx128 as int,
            qy128 as int,
            qz128 as int,
        );
    }
    let qx = qx128 as u64;
    let qy = qy128 as u64;
    let qz = qz128 as u64;
    let rx: i64 = if v.x < 0 {
        -(qx as i64)
    } else {
        qx as i64
    };
    let ry: i64 = if v.y < 0 {
        -(qy as i64)
    } else {
        qy as i64
    };
    let rz: i64 = if v.z < 0 {
        -(qz as i64)
    } else {
        qz as i64
    };
    let r = FpVec3 { x: rx, y: ry, z: rz };
    proof {
        assert(rx * rx == qx * qx && ry * ry == qy * qy && rz * rz == qz * qz)
            by (nonlinear_arith)
            requires
                rx == if v.x < 0 {
                    -(qx as int)
                } else {
                    qx as int
                },
                ry == if v.y < 0 {
                    -(qy as int)
                } else {
                    qy as int
                },
                rz == if v.z < 0 {
                    -(qz as int)
                } else {
                    qz as int
                },
    ;
    }
    r
}

/// Nearest hit over the scene, by linear scan: spheres are presented as
/// parallel vectors of center offsets and radii, in scene order, and the
/// result is the index and distance of the strictly first sphere
/// attaining the minimal hit distance, or `None` if every sphere misses.
pub fn scene_nearest(ops: &Vec<FpVec3>, rads: &Vec<i64>, dir: FpVec3, eps: i128) -> (r: Option<
    (usize, i128),
>)
    requires
        ops@.len() == rads@.len(),
        forall|j: int| 0 <= j < ops@.len() ==> in_coord_bounds(#[trigger] ops@[j]),
        forall|j: int| 0 <= j < rads@.len() ==> 0 <= #[trigger] rads@[j] <= COORD_BOUND,
        in_dir_bounds(dir),
        0 < eps,
    ensures
        r is None ==> forall|j: int|
            0 <= j < ops@.len() ==> #[trigger] sphere_intersect_spec(
                ops@[j],
                dir,
                rads@[j] as int,
                eps as int,
            ) is None,
        r matches Some((i, t)) ==> {
            &&& i < ops@.len()
            &&& sphere_intersect_spec(ops@[i as int], dir, rads@[i as int] as int, eps as int)
                == Some(t as int)
            &&& eps < t
            &&& forall|j: int|
                0 <= j < ops@.len() ==> (#[trigger] sphere_intersect_spec(
                    ops@[j],
                    dir,
                    rads@[j] as int,
                    eps as int,
                ) matches Some(u) ==> t <= u)
            &&& forall|j: int|
                0 <= j < i ==> !(#[trigger] sphere_intersect_spec(
                    ops@[j],
                    dir,
                    rads@[j] as int,
                    eps as int,
                ) matches Some(u) && u <= t)
        },
{
    let n = ops.len();
    let mut best: Option<(usize, i128)> = None;
    let mut k: usize = 0;
    while k < n
        invariant
            n == ops@.len() == rads@.len(),
            k <= n,
            forall|j: int| 0 <= j < n ==> in_coord_bounds(#[trigger] ops@[j]),
            forall|j: int| 0 <= j < n ==> 0 <= #[trigger] rads@[j] <= COORD_BOUND,
            in_dir_bounds(dir),
            0 < eps,
            best is None ==> forall|j: int|
                0 <= j < k ==> #[trigger] sphere_intersect_spec(
                    ops@[j],
                    dir,
                    rads@[j] as int,
                    eps as int,
                ) is None,
            best matches Some((i, t)) ==> {
                &&& i < k
                &&& sphere_intersect_spec(ops@[i as int], dir, rads@[i as int] as int, eps as int)
                    == Some(t as int)
                &&& eps < t
                &&& forall|j: int|
                    0 <= j < k ==> (#[trigger] sphere_intersect_spec(
                        ops@[j],
                        dir,
                        rads@[j] as int,
                        eps as int,
                    ) matches Some(u) ==> t <= u)
                &&& forall|j: int|
                    0 <= j < i ==> !(#[trigger] sphere_intersect_spec(
                        ops@[j],
                        dir,
                        rads@[j] as int,
                        eps as int,
                    ) matches Some(u) && u <= t)
            },
        decreases n - k,
    {
        let d = sphere_intersect(ops[k], dir, rads[k], eps);
        match d {
            Some(t) => {
                match best {
                    None => {
                        best = Some((k, t));
                    },
                    Some((_bi, bt)) => {
                        if t < bt {
                            best = Some((k, t));
                        }
                    },
                }
            },
            None => {},
        }
        k = k + 1;
    }
    best
}

} // verus!
