use pathtrace::engine::{combine_bounce, radiance_step, Step, DEPTH_CEILING, ROULETTE_THRESHOLD};
use pathtrace::fixed::FP_ONE;
use pathtrace::material::Material;
use pathtrace::sample::{bernoulli_fp, tent_offset};
use rand::SeedableRng;

fn step_default(hit: Option<Material>, depth: u32, pass: bool, tir: bool, reflect: bool) -> Step {
    radiance_step(hit, depth, ROULETTE_THRESHOLD, DEPTH_CEILING, pass, tir, reflect)
}

#[test]
fn miss_is_background() {
    // A ray that hits nothing contributes zero radiance, at any depth.
    assert_eq!(step_default(None, 0, false, false, false), Step::Background);
    assert_eq!(step_default(None, 7, true, true, true), Step::Background);
}

#[test]
fn depth_ceiling_returns_emission_only() {
    // At the hard ceiling the path ends even if the roulette draw passed.
    assert_eq!(
        step_default(Some(Material::Diffuse), DEPTH_CEILING, true, false, false),
        Step::EmissionOnly
    );
    assert_eq!(
        step_default(Some(Material::Refractive), DEPTH_CEILING + 3, true, false, true),
        Step::EmissionOnly
    );
}

#[test]
fn failed_roulette_returns_emission_only() {
    assert_eq!(
        step_default(Some(Material::Diffuse), ROULETTE_THRESHOLD, false, false, false),
        Step::EmissionOnly
    );
    assert_eq!(
        step_default(Some(Material::Specular), 20, false, false, false),
        Step::EmissionOnly
    );
}

#[test]
fn surviving_roulette_rescales() {
    assert_eq!(
        step_default(Some(Material::Diffuse), ROULETTE_THRESHOLD, true, false, false),
        Step::DiffuseBounce { rescale: true }
    );
}

#[test]
fn shallow_diffuse_bounces_unscaled() {
    // Below the roulette threshold the path always continues, unscaled.
    assert_eq!(
        step_default(Some(Material::Diffuse), 0, false, false, false),
        Step::DiffuseBounce { rescale: false }
    );
}

#[test]
fn shallow_specular_bounces_unscaled() {
    assert_eq!(
        step_default(Some(Material::Specular), 0, false, false, false),
        Step::SpecularBounce { rescale: false }
    );
}

#[test]
fn total_internal_reflection_wins_over_split() {
    // Past the critical angle there is no transmitted branch, at any depth.
    assert_eq!(
        step_default(Some(Material::Refractive), 0, false, true, false),
        Step::TotalInternalReflection { rescale: false }
    );
    assert_eq!(
        step_default(Some(Material::Refractive), 10, true, true, true),
        Step::TotalInternalReflection { rescale: true }
    );
}

#[test]
fn shallow_dielectric_splits_both_branches() {
    // Incremented depth 1 and 2 are at or below the split depth.
    assert_eq!(
        step_default(Some(Material::Refractive), 0, false, false, true),
        Step::FresnelSplit { rescale: false }
    );
    assert_eq!(
        step_default(Some(Material::Refractive), 1, false, false, false),
        Step::FresnelSplit { rescale: false }
    );
}

#[test]
fn deep_dielectric_follows_branch_choice() {
    assert_eq!(
        step_default(Some(Material::Refractive), 2, false, false, true),
        Step::FresnelReflect { rescale: false }
    );
    assert_eq!(
        step_default(Some(Material::Refractive), 2, false, false, false),
        Step::FresnelRefract { rescale: false }
    );
}

#[test]
fn direct_emission_path_never_survives_roulette() {
    // An emissive sphere with zero reflectance: past the threshold the
    // roulette probability is 0, so the draw can never pass and the
    // estimate is the emission alone.
    let mut rng = rand::rngs::StdRng::seed_from_u64(7);
    for _ in 0..200 {
        assert!(!bernoulli_fp(0, &mut rng));
    }
    assert_eq!(
        step_default(Some(Material::Diffuse), ROULETTE_THRESHOLD, false, false, false),
        Step::EmissionOnly
    );
}

#[test]
fn sure_draw_always_passes() {
    let mut rng = rand::rngs::StdRng::seed_from_u64(7);
    for _ in 0..200 {
        assert!(bernoulli_fp(FP_ONE, &mut rng));
        assert!(bernoulli_fp(FP_ONE + 12345, &mut rng));
    }
}

#[test]
fn bernoulli_is_reproducible_for_a_seed() {
    let p = FP_ONE / 2;
    let mut a = rand::rngs::StdRng::seed_from_u64(99);
    let mut b = rand::rngs::StdRng::seed_from_u64(99);
    for _ in 0..100 {
        assert_eq!(bernoulli_fp(p, &mut a), bernoulli_fp(p, &mut b));
    }
}

#[test]
fn bernoulli_rate_tracks_probability() {
    // A rough frequency check: a fair draw lands near half over many trials.
    let mut rng = rand::rngs::StdRng::seed_from_u64(3);
    let trials = 10000;
    let mut hits = 0;
    for _ in 0..trials {
        if bernoulli_fp(FP_ONE / 2, &mut rng) {
            hits += 1;
        }
    }
    assert!(hits > 4500 && hits < 5500);
}

#[test]
fn tent_filter_endpoints_and_center() {
    let s = FP_ONE as i64;
    // Draw 0 lands at the far left, draw 1 exactly at the center, draw 2
    // at the far right of the two-pixel support.
    assert_eq!(tent_offset(0), -s);
    assert_eq!(tent_offset(FP_ONE), 0);
    assert_eq!(tent_offset(2 * FP_ONE), s);
}

#[test]
fn tent_filter_quarter_points() {
    // Draw 1/2: offset sqrt(1/2) - 1, about -0.2929 of a pixel; the
    // mirror draw 3/2 lands at the opposite offset.
    assert_eq!(tent_offset(FP_ONE / 2), 741_455 - 1_048_576);
    assert_eq!(tent_offset(3 * FP_ONE / 2), 1_048_576 - 741_455);
}

#[test]
fn tent_filter_stays_within_one_pixel() {
    let s = FP_ONE as i64;
    let mut xi = 0u64;
    while xi <= 2 * FP_ONE {
        let d = tent_offset(xi);
        assert!(-s <= d && d <= s);
        xi += 65_537;
    }
}

#[test]
fn zero_reflectance_returns_emission_exactly() {
    // The emissive sphere has reflectance (0, 0, 0): whatever the
    // recursive estimate, each channel of the bounce is exactly the
    // emission, 12 units per channel.
    let twelve = 12 * FP_ONE;
    assert_eq!(combine_bounce(twelve, 0, 999_999_999), twelve);
    assert_eq!(combine_bounce(twelve, 0, 0), twelve);
}

#[test]
fn unit_reflectance_passes_the_estimate_through() {
    assert_eq!(combine_bounce(0, FP_ONE, 5 * FP_ONE), 5 * FP_ONE);
    assert_eq!(combine_bounce(FP_ONE, FP_ONE / 2, FP_ONE), FP_ONE + FP_ONE / 2);
}

#[test]
fn bounce_never_returns_less_than_the_emission() {
    let mut f = 0u64;
    while f <= FP_ONE {
        assert!(combine_bounce(3 * FP_ONE, f, 7 * FP_ONE) >= 3 * FP_ONE);
        f += 99_991;
    }
}

#[test]
fn mirror_bounce_then_escape() {
    // A specular sphere hit past the roulette threshold with a passing
    // draw scatters along the mirror direction; if that ray then escapes
    // the scene the recursive estimate is the background, so the whole
    // path contributes only the mirror sphere's (zero) emission.
    let first = step_default(Some(Material::Specular), ROULETTE_THRESHOLD, true, false, false);
    assert_eq!(first, Step::SpecularBounce { rescale: true });
    let second = step_default(None, ROULETTE_THRESHOLD + 1, false, false, false);
    assert_eq!(second, Step::Background);
    // Zero emission plus reflectance times the zero background: exactly
    // black, whatever the mirror's reflectance.
    assert_eq!(combine_bounce(0, 1_047_527, 0), 0);
}
