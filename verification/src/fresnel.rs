use vstd::prelude::*;

use crate::fixed::{FP_ONE, FP_ONE_I64};

verus! {

/// Quotients of non-negative values bounded by the fixed-point unit stay
/// bounded by it: for `0 <= a, b <= FP_ONE`, `a * b / FP_ONE <= FP_ONE`.
pub proof fn lemma_fp_product_in_unit(a: int, b: int)
    requires
        0 <= a <= FP_ONE,
        0 <= b <= FP_ONE,
    ensures
        0 <= a * b / (FP_ONE as int) <= FP_ONE,
{
    assert(0 <= a * b <= FP_ONE * FP_ONE) by (nonlinear_arith)
        requires
            0 <= a <= FP_ONE,
            0 <= b <= FP_ONE,
    ;
    vstd::arithmetic::div_mod::lemma_div_is_ordered(0, a * b, FP_ONE as int);
    vstd::arithmetic::div_mod::lemma_div_is_ordered(a * b, FP_ONE * FP_ONE, FP_ONE as int);
}

/// The squared cosine of the transmitted angle at a dielectric boundary,
/// in fixed point: `1 - eta^2 * (1 - cos^2 incident)`, with the fixed
/// indices of refraction 1.0 outside and 1.5 inside, so `eta^2` is `4/9`
/// entering and `9/4` exiting. Negative exactly when the incident angle
/// is past the critical angle (total internal reflection).
pub open spec fn cos2t_spec(ddn: int, entering: bool) -> int {
    let dd2 = ddn * ddn / (FP_ONE as int);
    let sub = FP_ONE - dd2;
    if entering {
        FP_ONE - 4 * sub / 9
    } else {
        FP_ONE - 9 * sub / 4
    }
}

/// The squared transmitted cosine for an incident cosine `ddn` (the
/// projection of the incoming direction onto the shading normal, in
/// `[-1, 1]`). A ray entering the denser medium can never be past the
/// critical angle, so the result is negative only when exiting.
pub fn refraction_cos2t(ddn: i64, entering: bool) -> (r: i64)
    requires
        -FP_ONE_I64 <= ddn <= FP_ONE_I64,
    ensures
        r as int == cos2t_spec(ddn as int, entering),
        entering ==> r > 0,
{
    let a: u64 = if ddn < 0 {
        (-ddn) as u64
    } else {
        ddn as u64
    };
    proof {
        assert(a * a == ddn * ddn) by (nonlinear_arith)
            requires
                a == if ddn < 0 {
                    -ddn as int
                } else {
                    ddn as int
                },
        ;
        lemma_fp_product_in_unit(a as int, a as int);
    }
    let dd2: u64 = a * a / FP_ONE;
    let sub: u64 = FP_ONE - dd2;
    if entering {
        proof {
            vstd::arithmetic::div_mod::lemma_div_is_ordered(
                4 * sub,
                4 * (FP_ONE as int),
                9,
            );
        }
        FP_ONE_I64 - (4 * sub / 9) as i64
    } else {
        proof {
            vstd::arithmetic::div_mod::lemma_div_is_ordered(
                9 * sub,
                9 * (FP_ONE as int),
                4,
            );
        }
        FP_ONE_I64 - (9 * sub / 4) as i64
    }
}

/// Schlick's approximation of the Fresnel reflectance for the fixed
/// indices 1.0 and 1.5: `R0 + (1 - R0) * c^5` with
/// `R0 = ((1.5 - 1) / (1.5 + 1))^2 = 0.04`, evaluated in fixed point as
/// `(4 + 96 * c^5) / 100` with each power truncated at the fixed-point
/// scale.
pub open spec fn schlick_spec(c: int) -> int {
    let s = FP_ONE as int;
    let c2 = c * c / s;
    let c4 = c2 * c2 / s;
    let c5 = c4 * c / s;
    (4 * s + 96 * c5) / 100
}

/// The Schlick reflectance for a cosine term `c` in `[0, 1]`: the result
/// lies between `R0 = 0.04` and 1, so the transmittance `1 - Re` is never
/// negative.
pub fn schlick_reflectance(c: u64) -> (r: u64)
    requires
        c <= FP_ONE,
    ensures
        r as int == schlick_spec(c as int),
        41943 <= r <= FP_ONE,
{
    proof {
        lemma_fp_product_in_unit(c as int, c as int);
    }
    let c2: u64 = c * c / FP_ONE;
    proof {
        lemma_fp_product_in_unit(c2 as int, c2 as int);
    }
    let c4: u64 = c2 * c2 / FP_ONE;
    proof {
        lemma_fp_product_in_unit(c4 as int, c as int);
    }
    let c5: u64 = c4 * c / FP_ONE;
    proof {
        vstd::arithmetic::div_mod::lemma_div_is_ordered(
            4 * (FP_ONE as int),
            4 * (FP_ONE as int) + 96 * c5,
            100,
        );
        vstd::arithmetic::div_mod::lemma_div_is_ordered(
            4 * (FP_ONE as int) + 96 * c5,
            100 * (FP_ONE as int),
            100,
        );
    }
    (4 * FP_ONE + 96 * c5) / 100
}

/// The probability of sampling the reflected branch at a deep dielectric
/// hit: `0.25 + 0.5 * Re`, biased toward reflection for variance
/// reduction.
pub open spec fn branch_prob_spec(re: int) -> int {
    FP_ONE / 4 + re / 2
}

/// The reflected-branch probability for a reflectance in `[0, 1]`: it
/// stays within `[0.25, 0.75]`, so neither branch's weight divides by
/// zero.
pub fn branch_probability(re: u64) -> (r: u64)
    requires
        re <= FP_ONE,
    ensures
        r as int == branch_prob_spec(re as int),
        FP_ONE / 4 <= r <= 3 * FP_ONE / 4,
{
    FP_ONE / 4 + re / 2
}

} // verus!
