use vstd::prelude::*;

use crate::fixed::FP_ONE;
use crate::material::Material;

verus! {

/// Largest admitted fixed-point emission channel: 16 units.
pub const EMISSION_BOUND: u64 = 16777216;

/// Largest admitted fixed-point reflectance weight: 2 units (a
/// reflectance channel rescaled by the roulette probability never exceeds
/// 1, since the probability is the largest channel).
pub const WEIGHT_BOUND: u64 = 2097152;

/// Largest admitted fixed-point recursive radiance channel: `2^24` units.
pub const RADIANCE_BOUND: u64 = 0x1000_0000_0000;

/// Recursion depth at which Russian roulette starts: once the incremented
/// depth exceeds this, a path survives a bounce only with probability equal
/// to the surface's maximum reflectance, and a surviving path is rescaled by
/// the reciprocal of that probability to keep the estimator unbiased.
pub const ROULETTE_THRESHOLD: u32 = 5;

/// Hard recursion ceiling: beyond it a path contributes its emission only,
/// whatever the roulette draw said. A runaway-recursion guard, not physics.
pub const DEPTH_CEILING: u32 = 50;

/// Up to this incremented depth a dielectric hit evaluates both the
/// reflected and the transmitted branch deterministically; beyond it one
/// branch is chosen stochastically.
pub const SPLIT_DEPTH: u32 = 2;

/// What the radiance estimator must do for one traced ray, decided from the
/// hit, the recursion depth and the stochastic draws. The driver performs
/// the floating-point work the variant calls for:
///
/// - `Background`: the ray hit nothing; the estimate is zero radiance.
/// - `EmissionOnly`: the path ends at this surface; the estimate is the
///   surface's own emission, with no scattered ray.
/// - `DiffuseBounce`: emission plus reflectance times the estimate along a
///   cosine-weighted hemisphere sample about the shading normal.
/// - `SpecularBounce`: emission plus reflectance times the estimate along
///   the mirror reflection.
/// - `TotalInternalReflection`: a dielectric hit past the critical angle;
///   as `SpecularBounce`, with weight 1 on the reflected ray.
/// - `FresnelSplit`: a shallow dielectric hit; both branches are traced and
///   weighted by the Fresnel reflectance `Re` and transmittance `1 - Re`.
/// - `FresnelReflect` / `FresnelRefract`: a deep dielectric hit; the chosen
///   branch alone is traced, weighted by `Re / P` or `(1 - Re) / (1 - P)`
///   for branch probability `P`.
///
/// In every bounce variant, `rescale` true means the path survived a
/// roulette draw and the reflectance must be rescaled by `1 / p`.
#[derive(Clone, Copy, PartialEq, Eq, Structural, Debug)]
pub enum Step {
    Background,
    EmissionOnly,
    DiffuseBounce { rescale: bool },
    SpecularBounce { rescale: bool },
    TotalInternalReflection { rescale: bool },
    FresnelSplit { rescale: bool },
    FresnelReflect { rescale: bool },
    FresnelRefract { rescale: bool },
}

/// The bounce decision of the radiance estimator, in order: a miss is
/// background; the incremented depth is held to the hard ceiling; past the
/// roulette threshold the path continues only on a passed draw, rescaled;
/// then the hit material picks the scatter, with a dielectric testing total
/// internal reflection first, splitting deterministically while shallow and
/// otherwise following the stochastic branch choice.
pub open spec fn step_spec(
    hit: Option<Material>,
    depth: u32,
    threshold: u32,
    ceiling: u32,
    roulette_pass: bool,
    total_internal: bool,
    choose_reflect: bool,
) -> Step {
    match hit {
        None => Step::Background,
        Some(m) => {
            if depth + 1 > ceiling {
                Step::EmissionOnly
            } else if depth + 1 > threshold && !roulette_pass {
                Step::EmissionOnly
            } else {
                let rescale = depth + 1 > threshold;
                match m {
                    Material::Diffuse => Step::DiffuseBounce { rescale },
                    Material::Specular => Step::SpecularBounce { rescale },
                    Material::Refractive => if total_internal {
                        Step::TotalInternalReflection { rescale }
                    } else if depth + 1 <= SPLIT_DEPTH {
                        Step::FresnelSplit { rescale }
                    } else if choose_reflect {
                        Step::FresnelReflect { rescale }
                    } else {
                        Step::FresnelRefract { rescale }
                    },
                }
            }
        },
    }
}

/// One channel of a bounce's radiance estimate: the surface's own
/// emission plus its (possibly rescaled) reflectance times the estimate
/// along the scattered ray, the product rescaled by the fixed-point unit.
pub open spec fn combine_channel_spec(e: u64, f: u64, rec: u64) -> int {
    e + f * rec / (FP_ONE as int)
}

/// Combines one channel of a bounce: exactly `combine_channel_spec`.
/// A black surface contributes its emission alone, and no bounce returns
/// less than the surface's own emission (so a physically valid scene
/// never yields a negative channel).
pub fn combine_bounce(e: u64, f: u64, rec: u64) -> (r: u64)
    requires
        e <= EMISSION_BOUND,
        f <= WEIGHT_BOUND,
        rec <= RADIANCE_BOUND,
    ensures
        r as int == combine_channel_spec(e, f, rec),
        f == 0 ==> r == e,
        r >= e,
{
    proof {
        assert(f * rec <= 2097152 * 0x1000_0000_0000) by (nonlinear_arith)
            requires
                f <= 2097152u64,
                rec <= 0x1000_0000_0000u64,
        ;
        vstd::arithmetic::div_mod::lemma_div_is_ordered(
            f * rec,
            (2097152 * 0x1000_0000_0000) as int,
            FP_ONE as int,
        );
    }
    let prod: u128 = (f as u128) * (rec as u128);
    let scaled: u64 = (prod / (FP_ONE as u128)) as u64;
    e + scaled
}

/// The Russian-roulette survival probability of a surface: the largest of
/// its three reflectance channels.
pub fn max_reflectance(r: u64, g: u64, b: u64) -> (m: u64)
    ensures
        m == r || m == g || m == b,
        r <= m && g <= m && b <= m,
{
    if r >= g && r >= b {
        r
    } else if g >= b {
        g
    } else {
        b
    }
}

/// One step of the radiance estimator's control flow (the material dispatch
/// and termination policy): the depth is that of the current invocation,
/// before the increment; `roulette_pass` and `choose_reflect` are the
/// stochastic draws, consulted only where `step_spec` says they decide.
pub fn radiance_step(
    hit: Option<Material>,
    depth: u32,
    threshold: u32,
    ceiling: u32,
    roulette_pass: bool,
    total_internal: bool,
    choose_reflect: bool,
) -> (r: Step)
    requires
        depth < u32::MAX,
    ensures
        r == step_spec(hit, depth, threshold, ceiling, roulette_pass, total_internal,
            choose_reflect),
        hit is None ==> r is Background,
        hit is Some && depth + 1 > ceiling ==> r is EmissionOnly,
        hit is Some && ceiling >= depth + 1 > threshold && !roulette_pass ==> r is EmissionOnly,
        hit == Some(Material::Diffuse) && depth + 1 <= threshold && depth + 1 <= ceiling ==> r
            == (Step::DiffuseBounce { rescale: false }),
        hit == Some(Material::Specular) && depth + 1 <= threshold && depth + 1 <= ceiling ==> r
            == (Step::SpecularBounce { rescale: false }),
{
    match hit {
        None => Step::Background,
        Some(m) => {
            let d = depth + 1;
            if d > ceiling {
                Step::EmissionOnly
            } else if d > threshold && !roulette_pass {
                Step::EmissionOnly
            } else {
                let rescale = d > threshold;
                match m {
                    Material::Diffuse => Step::DiffuseBounce { rescale },
                    Material::Specular => Step::SpecularBounce { rescale },
                    Material::Refractive => if total_internal {
                        Step::TotalInternalReflection { rescale }
                    } else if d <= SPLIT_DEPTH {
                        Step::FresnelSplit { rescale }
                    } else if choose_reflect {
                        Step::FresnelReflect { rescale }
                    } else {
                        Step::FresnelRefract { rescale }
                    },
                }
            }
        },
    }
}

} // verus!
