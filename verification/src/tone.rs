use vstd::prelude::*;

use crate::fixed::FP_ONE;

verus! {

/// Rounding offset of the tone map: one half in the fixed-point scale.
pub const FP_HALF: u64 = 524288;

/// A linear radiance channel clamped to the displayable range `[0, 1)`:
/// values at or above 1.0 saturate to the largest representable value
/// below it.
pub open spec fn clamp_unit_spec(v: u64) -> u64 {
    if v >= FP_ONE {
        (FP_ONE - 1) as u64
    } else {
        v
    }
}

/// The tone-map policy of this renderer, applied identically and
/// independently to each channel: the accumulated linear value is clamped
/// to `[0, 1)`, scaled to the 8-bit display range, and rounded to nearest
/// by adding one half before truncating. The policy is linear: no gamma
/// curve is applied between accumulation and quantization.
pub open spec fn display_spec(v: u64) -> int {
    (255 * clamp_unit_spec(v) + FP_HALF) / (FP_ONE as int)
}

/// Every tone-mapped value fits the 8-bit display range.
pub proof fn lemma_display_in_range(v: u64)
    ensures
        0 <= display_spec(v) <= 255,
{
    vstd::arithmetic::div_mod::lemma_div_is_ordered(
        255 * clamp_unit_spec(v) + FP_HALF,
        255 * (FP_ONE - 1) + FP_HALF,
        FP_ONE as int,
    );
}

/// The tone map is monotonically non-decreasing in its input.
pub proof fn lemma_display_monotone(a: u64, b: u64)
    requires
        a <= b,
    ensures
        display_spec(a) <= display_spec(b),
{
    vstd::arithmetic::div_mod::lemma_div_is_ordered(
        255 * clamp_unit_spec(a) + FP_HALF,
        255 * clamp_unit_spec(b) + FP_HALF,
        FP_ONE as int,
    );
}

/// The tone map pins black to 0 and full-scale white to 255.
pub proof fn lemma_display_endpoints()
    ensures
        display_spec(0) == 0,
        display_spec(FP_ONE) == 255,
{
}

/// Maps one accumulated linear channel, in fixed point, to its 8-bit
/// display value under `display_spec`.
pub fn to_display_value(v: u64) -> (r: u8)
    ensures
        r as int == display_spec(v),
{
    proof {
        lemma_display_in_range(v);
    }
    let c: u64 = if v >= FP_ONE {
        FP_ONE - 1
    } else {
        v
    };
    ((255 * c + FP_HALF) / FP_ONE) as u8
}

} // verus!
