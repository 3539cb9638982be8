use vstd::prelude::*;

use crate::fixed::FP_ONE;

verus! {

/// One quarter of the fixed-point unit: the weight of one sub-pixel pass.
pub const FP_QUARTER: u64 = 262144;

/// A sub-pixel average clamped to the unit interval.
pub open spec fn clamp_to_one_spec(v: u64) -> u64 {
    if v >= FP_ONE {
        FP_ONE
    } else {
        v
    }
}

/// One accumulation step of a pixel channel: the sub-pixel average is
/// clamped to `[0, 1]`, weighted by one quarter (each pixel is covered by
/// four sub-pixel passes), and added to the channel's accumulator.
pub open spec fn accumulate_spec(acc: u64, sub: u64) -> int {
    acc + clamp_to_one_spec(sub) / 4
}

/// Each of the four quarter-weighted contributions stays at or below a
/// quarter, so an accumulator that has taken `k` of them stays at or below
/// `k` quarters: after all four passes the channel lies in `[0, 1]`.
pub proof fn lemma_accumulator_stays_in_unit(acc: u64, sub: u64, k: nat)
    requires
        acc <= k * FP_QUARTER,
    ensures
        accumulate_spec(acc, sub) <= (k + 1) * FP_QUARTER,
        k + 1 <= 4 ==> accumulate_spec(acc, sub) <= FP_ONE,
{
}

/// Adds one clamped, quarter-weighted sub-pixel average into a pixel
/// channel accumulator.
pub fn accumulate_subpixel(acc: u64, sub: u64) -> (r: u64)
    requires
        acc <= 3 * FP_QUARTER,
    ensures
        r == accumulate_spec(acc, sub),
        r <= FP_ONE,
{
    let clamped = if sub >= FP_ONE {
        FP_ONE
    } else {
        sub
    };
    acc + clamped / 4
}

/// Flat index of pixel `(x, y)` in the accumulator buffer. The buffer is
/// stored bottom-up: row `y` of the rendered image (counted from the top)
/// lands at row `height - 1 - y` of the buffer, in row-major order.
pub fn pixel_index(x: usize, y: usize, width: usize, height: usize) -> (r: usize)
    requires
        x < width,
        y < height,
        width * height <= usize::MAX,
    ensures
        r == (height - 1 - y) * width + x,
        r < width * height,
{
    proof {
        assert((height - 1 - y) * width + x < width * height) by (nonlinear_arith)
            requires
                x < width,
                y < height,
        ;
    }
    (height - 1 - y) * width + x
}

/// Per-sub-pixel sample count from the total sample budget: each pixel is
/// covered by a 2x2 sub-pixel grid, so a given budget is divided by 4
/// (flooring; a budget below 4 yields 0 samples, which is legal and gives a
/// black image), and an absent budget defaults to 1 sample per sub-pixel.
pub fn samples_per_subpixel(budget: Option<u64>) -> (r: u64)
    ensures
        budget matches Some(t) ==> r == t / 4,
        budget is None ==> r == 1,
{
    match budget {
        Some(t) => t / 4,
        None => 1,
    }
}

} // verus!
