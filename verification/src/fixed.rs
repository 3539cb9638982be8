use vstd::prelude::*;

verus! {

/// The fixed-point unit used across the library: a real quantity `q` is
/// carried as the integer `q * 2^20`, rounded by the caller, so 1.0 is
/// `2^20`.
pub const FP_ONE: u64 = 1048576;

/// `FP_ONE` as a signed value, for signed fixed-point quantities such as
/// distances along a ray.
pub const FP_ONE_I64: i64 = 1048576;

} // verus!
