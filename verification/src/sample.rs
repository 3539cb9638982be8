use vstd::prelude::*;

use crate::fixed::{FP_ONE, FP_ONE_I64};
use crate::geom::{isqrt, isqrt_spec};

verus! {

/// The tent-filter jitter: a uniform draw `xi` in `[0, 2]` is reshaped to
/// an offset in `[-1, 1]` with a triangular density peaked at 0,
/// `sqrt(xi) - 1` on the lower half and `1 - sqrt(2 - xi)` on the upper,
/// each square root taken at the fixed-point scale.
pub open spec fn tent_offset_spec(xi: int) -> int {
    if xi < FP_ONE {
        isqrt_spec(xi * FP_ONE) - FP_ONE
    } else {
        FP_ONE - isqrt_spec((2 * FP_ONE - xi) * FP_ONE)
    }
}

/// The tent-filtered sub-pixel offset for a uniform draw in `[0, 2]`: the
/// offset never leaves `[-1, 1]`, so a jittered sample stays within one
/// pixel of the sub-pixel center.
pub fn tent_offset(xi: u64) -> (r: i64)
    requires
        xi <= 2 * FP_ONE,
    ensures
        r as int == tent_offset_spec(xi as int),
        -FP_ONE_I64 <= r <= FP_ONE_I64,
{
    if xi < FP_ONE {
        proof {
            assert((xi as u128) * (FP_ONE as u128) <= 1048576u128 * 1048576u128)
                by (nonlinear_arith)
                requires
                    xi as u128 <= 1048576u128,
            ;
        }
        let root = isqrt((xi as u128) * (FP_ONE as u128));
        proof {
            assert(root < FP_ONE) by (nonlinear_arith)
                requires
                    root * root <= (xi as u128) * (FP_ONE as u128),
                    xi < FP_ONE,
                    FP_ONE == 1048576u64,
            ;
        }
        (root as i64) - FP_ONE_I64
    } else {
        let rest = 2 * FP_ONE - xi;
        proof {
            assert((rest as u128) * (FP_ONE as u128) <= 1048576u128 * 1048576u128)
                by (nonlinear_arith)
                requires
                    rest as u128 <= 1048576u128,
            ;
        }
        let root = isqrt((rest as u128) * (FP_ONE as u128));
        proof {
            assert(root <= FP_ONE) by (nonlinear_arith)
                requires
                    root * root <= (rest as u128) * (FP_ONE as u128),
                    rest <= FP_ONE,
                    FP_ONE == 1048576u64,
            ;
        }
        FP_ONE_I64 - (root as i64)
    }
}

/// rand's seedable standard generator, declared so that a generator owned
/// by the driver can flow through verified signatures. The library reads
/// nothing inside it.
#[verifier::external_type_specification]
#[verifier::external_body]
pub struct ExStdRng(rand::rngs::StdRng);

/// Relies on rand::RngCore::next_u64: one draw from the generator. Nothing
/// is assumed of the value; callers state what holds of every outcome.
#[verifier::external_body]
pub(crate) fn rng_next_u64(rng: &mut rand::rngs::StdRng) -> u64 {
    rand::RngCore::next_u64(rng)
}

/// A Bernoulli draw at fixed-point probability `p / FP_ONE`, from the top
/// 20 bits of one uniform draw (which are themselves uniform on
/// `[0, FP_ONE)`). Whatever the draw, an impossible event never fires and
/// a sure one always does; this drives both Russian roulette (`p` the
/// surface's maximal reflectance) and the dielectric branch choice (`p`
/// the reflection probability).
pub fn bernoulli_fp(p: u64, rng: &mut rand::rngs::StdRng) -> (r: bool)
    ensures
        p == 0 ==> !r,
        p >= FP_ONE ==> r,
{
    let draw = rng_next_u64(rng);
    let top = draw >> 44;
    proof {
        assert(draw >> 44u64 < 0x100000u64) by (bit_vector);
    }
    top < p
}

} // verus!
