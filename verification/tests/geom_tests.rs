use pathtrace::algebra::FpVec3;
use pathtrace::fixed::FP_ONE_I64;
use pathtrace::geom::{isqrt, normalize, scene_nearest, sphere_hit, sphere_intersect};

/// The self-intersection guard used by the driver: about 1e-4 scene
/// units, at the squared fixed-point scale distances are carried in.
const EPS: i128 = 109951163;

/// The fixed-point unit.
const S: i64 = FP_ONE_I64;

/// Distances along a ray come out at the squared fixed-point scale.
const S2: i128 = (S as i128) * (S as i128);

fn v(x: i64, y: i64, z: i64) -> FpVec3 {
    FpVec3 { x: x * S, y: y * S, z: z * S }
}

/// A unit direction along +x.
fn plus_x() -> FpVec3 {
    FpVec3 { x: S, y: 0, z: 0 }
}

#[test]
fn isqrt_of_perfect_squares() {
    assert_eq!(isqrt(0), 0);
    assert_eq!(isqrt(1), 1);
    assert_eq!(isqrt(4), 2);
    assert_eq!(isqrt(1 << 42), 1 << 21);
    assert_eq!(isqrt(1_000_000_000_000_000_000), 1_000_000_000);
}

#[test]
fn isqrt_rounds_down() {
    assert_eq!(isqrt(2), 1);
    assert_eq!(isqrt(3), 1);
    assert_eq!(isqrt(8), 2);
    assert_eq!(isqrt(999_999_999_999_999_999), 999_999_999);
    let big: u128 = (1u128 << 80) - 1;
    assert_eq!(isqrt(big), (1u128 << 40) - 1);
}

#[test]
fn ray_aimed_at_center_hits_at_distance_minus_radius() {
    // Center 10 units ahead along the ray, radius 2: the hit is at 8.
    let hit = sphere_intersect(v(10, 0, 0), plus_x(), 2 * S, EPS);
    assert_eq!(hit, Some(8 * S2));
}

#[test]
fn perpendicular_offset_beyond_radius_misses() {
    // Center 3 units aside of the ray, radius 2: negative discriminant.
    assert_eq!(sphere_intersect(v(0, 3, 0), plus_x(), 2 * S, EPS), None);
    assert_eq!(sphere_intersect(v(10, 0, 5), plus_x(), 4 * S, EPS), None);
}

#[test]
fn tangent_ray_hits_at_projection_distance() {
    // Offset exactly the radius: discriminant 0, near and far root
    // coincide at the projection distance 10.
    let hit = sphere_intersect(v(10, 2, 0), plus_x(), 2 * S, EPS);
    assert_eq!(hit, Some(10 * S2));
    // The same tangent point behind the origin is no hit.
    assert_eq!(sphere_intersect(v(-10, 2, 0), plus_x(), 2 * S, EPS), None);
}

#[test]
fn origin_inside_sphere_returns_far_root() {
    // Origin at the center: the near root is behind the ray, the far one
    // at the radius.
    assert_eq!(sphere_intersect(v(0, 0, 0), plus_x(), 3 * S, EPS), Some(3 * S2));
}

#[test]
fn sphere_entirely_behind_origin_misses() {
    assert_eq!(sphere_intersect(v(-10, 0, 0), plus_x(), 2 * S, EPS), None);
}

#[test]
fn hit_just_past_guard_is_rejected() {
    // Both roots at or below the guard: no hit (coefficient level, with
    // a zero discriminant).
    assert_eq!(sphere_hit(EPS, 0, EPS), None);
    assert_eq!(sphere_hit(EPS + 1, 0, EPS), Some(EPS + 1));
}

#[test]
fn nearest_hit_picks_minimal_distance() {
    let ops = vec![v(30, 0, 0), v(10, 0, 0), v(20, 0, 0)];
    let rads = vec![2 * S, 2 * S, 2 * S];
    assert_eq!(scene_nearest(&ops, &rads, plus_x(), EPS), Some((1, 8 * S2)));
}

#[test]
fn nearest_hit_tie_breaks_to_first_in_scene_order() {
    let ops = vec![v(30, 0, 0), v(10, 0, 0), v(10, 0, 0), v(20, 0, 0)];
    let rads = vec![2 * S, 2 * S, 2 * S, 2 * S];
    assert_eq!(scene_nearest(&ops, &rads, plus_x(), EPS), Some((1, 8 * S2)));
}

#[test]
fn nearest_hit_skips_missing_spheres() {
    // The first sphere lies aside of the ray, the second ahead of it.
    let ops = vec![v(5, 9, 0), v(25, 0, 0)];
    let rads = vec![2 * S, 2 * S];
    assert_eq!(scene_nearest(&ops, &rads, plus_x(), EPS), Some((1, 23 * S2)));
}

#[test]
fn all_rays_missing_means_no_hit() {
    // Every sphere misses: aimed away from the whole scene.
    let ops = vec![v(-10, 0, 0), v(3, 40, 0), v(0, 0, -7)];
    let rads = vec![2 * S, 2 * S, 2 * S];
    assert_eq!(scene_nearest(&ops, &rads, plus_x(), EPS), None);
    assert_eq!(scene_nearest(&vec![], &vec![], plus_x(), EPS), None);
}

#[test]
fn normalize_keeps_an_axis_direction() {
    let r = normalize(FpVec3 { x: 7 * S, y: 0, z: 0 });
    assert_eq!(r, FpVec3 { x: S, y: 0, z: 0 });
    let r = normalize(FpVec3 { x: 0, y: 0, z: -S / 4 });
    assert_eq!(r, FpVec3 { x: 0, y: 0, z: -S });
}

#[test]
fn normalize_of_a_pythagorean_triple() {
    // (3, 4, 0) normalizes to (0.6, 0.8, 0): the length 5 is exact, the
    // quotients truncate at the fixed-point scale.
    let r = normalize(FpVec3 { x: 3 * S, y: 4 * S, z: 0 });
    assert_eq!(r, FpVec3 { x: 629_145, y: 838_860, z: 0 });
    // Signs are kept per component.
    let r = normalize(FpVec3 { x: -3 * S, y: 4 * S, z: 0 });
    assert_eq!(r, FpVec3 { x: -629_145, y: 838_860, z: 0 });
}

#[test]
fn normalized_vectors_have_unit_magnitude() {
    // The proved invariant, sampled: the squared magnitude stays within
    // a relative hair of the squared unit.
    let vs = [
        FpVec3 { x: S, y: S, z: S },
        FpVec3 { x: 123_456_789, y: -987_654, z: 3_333 },
        FpVec3 { x: -41, y: 5_000_000, z: -5_000_000 },
        FpVec3 { x: 104_857_600_000, y: 1, z: -70_000_000_000 },
    ];
    let unit2 = (S as i128) * (S as i128);
    for v in vs {
        let r = normalize(v);
        let m2 = (r.x as i128) * (r.x as i128) + (r.y as i128) * (r.y as i128) + (r.z as i128)
            * (r.z as i128);
        assert!(m2 >= unit2 - 6 * (S as i128) - 3);
        assert!(m2 <= unit2 + unit2 / 256);
    }
}

#[test]
fn reference_scene_scale_fits_the_admitted_bounds() {
    // The walls of the reference scene are spheres of radius 1e5: such
    // coordinates stay inside the bounds the intersection admits.
    let hit = sphere_intersect(v(150_000, 0, 0), plus_x(), 100_000 * S, EPS);
    assert_eq!(hit, Some(50_000 * S2));
}
