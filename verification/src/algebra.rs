use vstd::prelude::*;

verus! {

/// Largest admitted magnitude of a fixed-point direction component:
/// directions are unit vectors up to rounding, so twice the fixed-point
/// unit (`2^21`) leaves ample slack.
pub const DIR_BOUND: i64 = 2097152;

/// A 3-component vector in the library's fixed-point scale.
#[derive(Clone, Copy, PartialEq, Eq, Structural, Debug)]
pub struct FpVec3 {
    pub x: i64,
    pub y: i64,
    pub z: i64,
}

/// A 3-component vector carrying products of fixed-point values, so twice
/// the fractional bits and a wider integer type.
#[derive(Clone, Copy, PartialEq, Eq, Structural, Debug)]
pub struct WideVec3 {
    pub x: i128,
    pub y: i128,
    pub z: i128,
}

/// The inner product of two fixed-point vectors, unscaled: the result
/// carries twice the fractional bits of the inputs.
pub open spec fn dot_spec(a: FpVec3, b: FpVec3) -> int {
    a.x * b.x + a.y * b.y + a.z * b.z
}

/// The inner product of an integer triple with a fixed-point vector.
pub open spec fn dot_triple_spec(v: (int, int, int), n: FpVec3) -> int {
    v.0 * n.x + v.1 * n.y + v.2 * n.z
}

/// The mirror reflection `d - n * 2 * dot(n, d)`, scaled by `dot(n, n)` so
/// that it stays integral: `reflect_scaled = d * dot(n, n) - n * 2 *
/// dot(n, d)`. By construction it lies in the plane spanned by `d` and `n`
/// (the plane of incidence). For a normal of exact unit length the scale
/// factor is the square of the fixed-point unit.
pub open spec fn reflect_scaled_spec(d: FpVec3, n: FpVec3) -> (int, int, int) {
    (
        d.x * dot_spec(n, n) - 2 * dot_spec(n, d) * n.x,
        d.y * dot_spec(n, n) - 2 * dot_spec(n, d) * n.y,
        d.z * dot_spec(n, n) - 2 * dot_spec(n, d) * n.z,
    )
}

/// The reflection law: the outgoing direction makes the opposite angle
/// with the normal that the incoming one does. In the scaled form,
/// `dot(reflect_scaled(d, n), n) == -dot(d, n) * dot(n, n)`: dividing both
/// sides by the scale `dot(n, n)` gives `dot(out, n) == -dot(d, n)` for
/// the unscaled outgoing direction, whatever the normal's length.
pub proof fn lemma_reflection_law(d: FpVec3, n: FpVec3)
    ensures
        dot_triple_spec(reflect_scaled_spec(d, n), n) == -dot_spec(d, n) * dot_spec(n, n),
{
    let m = dot_spec(n, d);
    let nn = dot_spec(n, n);
    let rx = d.x * nn - 2 * m * n.x;
    let ry = d.y * nn - 2 * m * n.y;
    let rz = d.z * nn - 2 * m * n.z;
    assert(rx * n.x == d.x * n.x * nn - 2 * m * (n.x * n.x)) by (nonlinear_arith)
        requires
            rx == d.x * nn - 2 * m * n.x,
    ;
    assert(ry * n.y == d.y * n.y * nn - 2 * m * (n.y * n.y)) by (nonlinear_arith)
        requires
            ry == d.y * nn - 2 * m * n.y,
    ;
    assert(rz * n.z == d.z * n.z * nn - 2 * m * (n.z * n.z)) by (nonlinear_arith)
        requires
            rz == d.z * nn - 2 * m * n.z,
    ;
    assert(d.x * n.x * nn + d.y * n.y * nn + d.z * n.z * nn == (d.x * n.x + d.y * n.y + d.z * n.z)
        * nn) by (nonlinear_arith);
    assert(2 * m * (n.x * n.x) + 2 * m * (n.y * n.y) + 2 * m * (n.z * n.z) == 2 * m * nn)
        by (nonlinear_arith)
        requires
            nn == n.x * n.x + n.y * n.y + n.z * n.z,
    ;
    assert(d.x * n.x + d.y * n.y + d.z * n.z == m) by (nonlinear_arith)
        requires
            m == n.x * d.x + n.y * d.y + n.z * d.z,
    ;
    assert((d.x * n.x + d.y * n.y + d.z * n.z) * nn - 2 * m * nn == -m * nn) by (nonlinear_arith)
        requires
            m == d.x * n.x + d.y * n.y + d.z * n.z,
    ;
    assert(-m * nn == -dot_spec(d, n) * dot_spec(n, n)) by (nonlinear_arith)
        requires
            m == dot_spec(d, n),
            nn == dot_spec(n, n),
    ;
}

/// The shading normal at a hit: the outward normal itself where it
/// already opposes the incoming ray, else its negation, so that shading
/// always sees a normal on the viewer's side of the surface.
pub open spec fn shading_normal_spec(n: FpVec3, d: FpVec3) -> (int, int, int) {
    if dot_spec(n, d) < 0 {
        (n.x as int, n.y as int, n.z as int)
    } else {
        (-n.x as int, -n.y as int, -n.z as int)
    }
}

/// The shading normal never points along the incoming ray.
pub proof fn lemma_shading_normal_opposes_ray(n: FpVec3, d: FpVec3)
    ensures
        dot_triple_spec(shading_normal_spec(n, d), d) <= 0,
{
    assert((-n.x) * d.x + (-n.y) * d.y + (-n.z) * d.z == -(n.x * d.x + n.y * d.y + n.z * d.z))
        by (nonlinear_arith);
}

/// Whether the outward normal already opposes the incoming ray, i.e.
/// whether the ray hits the surface from outside: exactly the test that
/// orients the shading normal.
pub fn faces_against(n: FpVec3, d: FpVec3) -> (r: bool)
    requires
        -DIR_BOUND <= n.x <= DIR_BOUND,
        -DIR_BOUND <= n.y <= DIR_BOUND,
        -DIR_BOUND <= n.z <= DIR_BOUND,
        -DIR_BOUND <= d.x <= DIR_BOUND,
        -DIR_BOUND <= d.y <= DIR_BOUND,
        -DIR_BOUND <= d.z <= DIR_BOUND,
    ensures
        r == (dot_spec(n, d) < 0),
{
    proof {
        lemma_dir_product(n.x as int, d.x as int);
        lemma_dir_product(n.y as int, d.y as int);
        lemma_dir_product(n.z as int, d.z as int);
    }
    let dt: i128 = (n.x as i128) * (d.x as i128) + (n.y as i128) * (d.y as i128) + (n.z as i128)
        * (d.z as i128);
    dt < 0
}

/// The cross product of two fixed-point vectors, unscaled: the result
/// carries twice the fractional bits and follows the right-hand rule.
pub open spec fn cross_spec(a: FpVec3, b: FpVec3) -> (int, int, int) {
    (a.y * b.z - a.z * b.y, a.z * b.x - a.x * b.z, a.x * b.y - a.y * b.x)
}

/// The cross product is orthogonal to both of its factors: the pillar of
/// the orthonormal-basis construction around a shading normal.
pub proof fn lemma_cross_orthogonal(a: FpVec3, b: FpVec3)
    ensures
        dot_triple_spec(cross_spec(a, b), a) == 0,
        dot_triple_spec(cross_spec(a, b), b) == 0,
{
    assert((a.y * b.z - a.z * b.y) * a.x + (a.z * b.x - a.x * b.z) * a.y + (a.x * b.y - a.y
        * b.x) * a.z == 0) by (nonlinear_arith);
    assert((a.y * b.z - a.z * b.y) * b.x + (a.z * b.x - a.x * b.z) * b.y + (a.x * b.y - a.y
        * b.x) * b.z == 0) by (nonlinear_arith);
}

/// The cross product of two bounded directions, exactly `cross_spec`.
pub fn cross(a: FpVec3, b: FpVec3) -> (r: WideVec3)
    requires
        -DIR_BOUND <= a.x <= DIR_BOUND,
        -DIR_BOUND <= a.y <= DIR_BOUND,
        -DIR_BOUND <= a.z <= DIR_BOUND,
        -DIR_BOUND <= b.x <= DIR_BOUND,
        -DIR_BOUND <= b.y <= DIR_BOUND,
        -DIR_BOUND <= b.z <= DIR_BOUND,
    ensures
        r.x == cross_spec(a, b).0,
        r.y == cross_spec(a, b).1,
        r.z == cross_spec(a, b).2,
{
    proof {
        lemma_dir_product(a.y as int, b.z as int);
        lemma_dir_product(a.z as int, b.y as int);
        lemma_dir_product(a.z as int, b.x as int);
        lemma_dir_product(a.x as int, b.z as int);
        lemma_dir_product(a.x as int, b.y as int);
        lemma_dir_product(a.y as int, b.x as int);
    }
    WideVec3 {
        x: (a.y as i128) * (b.z as i128) - (a.z as i128) * (b.y as i128),
        y: (a.z as i128) * (b.x as i128) - (a.x as i128) * (b.z as i128),
        z: (a.x as i128) * (b.y as i128) - (a.y as i128) * (b.x as i128),
    }
}

/// The product of two direction components stays below the squared
/// direction bound.
pub proof fn lemma_dir_product(a: int, b: int)
    requires
        -2097152 <= a <= 2097152,
        -2097152 <= b <= 2097152,
    ensures
        -0x400_0000_0000 <= a * b <= 0x400_0000_0000,
{
    assert(-0x400_0000_0000 <= a * b <= 0x400_0000_0000) by (nonlinear_arith)
        requires
            -2097152 <= a <= 2097152,
            -2097152 <= b <= 2097152,
    ;
}

/// The product of a direction component with an unscaled inner product
/// stays far inside the wide integer range.
pub proof fn lemma_mixed_product(a: int, b: int)
    requires
        -2097152 <= a <= 2097152,
        -0x1800_0000_0000 <= b <= 0x1800_0000_0000,
    ensures
        -0x3_0000_0000_0000_0000 <= a * b <= 0x3_0000_0000_0000_0000,
{
    assert(-0x3_0000_0000_0000_0000 <= a * b <= 0x3_0000_0000_0000_0000) by (nonlinear_arith)
        requires
            -2097152 <= a <= 2097152,
            -0x1800_0000_0000 <= b <= 0x1800_0000_0000,
    ;
}

/// As `lemma_mixed_product`, with the wide factor on the left.
pub proof fn lemma_wide_product(a: int, b: int)
    requires
        -0x1800_0000_0000 <= a <= 0x1800_0000_0000,
        -2097152 <= b <= 2097152,
    ensures
        -0x3_0000_0000_0000_0000 <= a * b <= 0x3_0000_0000_0000_0000,
{
    assert(-0x3_0000_0000_0000_0000 <= a * b <= 0x3_0000_0000_0000_0000) by (nonlinear_arith)
        requires
            -0x1800_0000_0000 <= a <= 0x1800_0000_0000,
            -2097152 <= b <= 2097152,
    ;
}

/// The scaled mirror reflection of direction `d` about normal `n`, exactly
/// `reflect_scaled_spec`: the caller divides by `dot(n, n)` to come back
/// to the direction scale.
pub fn reflect_scaled(d: FpVec3, n: FpVec3) -> (r: WideVec3)
    requires
        -DIR_BOUND <= d.x <= DIR_BOUND,
        -DIR_BOUND <= d.y <= DIR_BOUND,
        -DIR_BOUND <= d.z <= DIR_BOUND,
        -DIR_BOUND <= n.x <= DIR_BOUND,
        -DIR_BOUND <= n.y <= DIR_BOUND,
        -DIR_BOUND <= n.z <= DIR_BOUND,
    ensures
        r.x == reflect_scaled_spec(d, n).0,
        r.y == reflect_scaled_spec(d, n).1,
        r.z == reflect_scaled_spec(d, n).2,
{
    proof {
        lemma_dir_product(n.x as int, n.x as int);
        lemma_dir_product(n.y as int, n.y as int);
        lemma_dir_product(n.z as int, n.z as int);
        lemma_dir_product(n.x as int, d.x as int);
        lemma_dir_product(n.y as int, d.y as int);
        lemma_dir_product(n.z as int, d.z as int);
    }
    let nn: i128 = (n.x as i128) * (n.x as i128) + (n.y as i128) * (n.y as i128) + (n.z as i128)
        * (n.z as i128);
    let nd: i128 = (n.x as i128) * (d.x as i128) + (n.y as i128) * (d.y as i128) + (n.z as i128)
        * (d.z as i128);
    proof {
        lemma_mixed_product(d.x as int, nn as int);
        lemma_mixed_product(d.y as int, nn as int);
        lemma_mixed_product(d.z as int, nn as int);
        lemma_wide_product(2 * nd as int, n.x as int);
        lemma_wide_product(2 * nd as int, n.y as int);
        lemma_wide_product(2 * nd as int, n.z as int);
    }
    WideVec3 {
        x: (d.x as i128) * nn - 2 * nd * (n.x as i128),
        y: (d.y as i128) * nn - 2 * nd * (n.y as i128),
        z: (d.z as i128) * nn - 2 * nd * (n.z as i128),
    }
}

} // verus!
