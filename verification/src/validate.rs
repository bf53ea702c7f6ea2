//! Ground truth and agreement checking.
//!
//! The oracle for the dot product is the plain sequential left-to-right
//! scalar reduction; a strategy's scalar result is accepted when its
//! relative error against the oracle is below a tolerance. The elementwise
//! oracle is the per-index scalar sum, compared bit-for-bit.

use vstd::prelude::*;
use crate::ops::{
    ZERO_BITS,
    fadd,
    fsub,
    fdiv,
    flt,
    abs_bits,
    abs_value_bits,
    add_bits,
    sub_bits,
    div_bits,
    lt_bits,
};
use crate::kernels::{
    KernelError,
    dot_seq,
    dot_scalar_onto,
    dot_lane,
    dot_multi,
    dot_lane_spec,
    dot_multi_spec,
};
use crate::compose::{
    dot_lane_partitioned,
    dot_multi_partitioned,
    lane_partials_fold,
    multi_partials_fold,
};

verus! {

/// Bit pattern of the default relative tolerance, ten times the machine
/// epsilon of a double: `10 * 2^-52 = 1.25 * 2^-49`.
pub const TOLERANCE_BITS: u64 = 0x3ce4_0000_0000_0000;

/// Whether `result` agrees with `oracle` within relative tolerance `tol`:
/// `|result - oracle| / |oracle| < tol`, evaluated in IEEE-754 doubles.
/// When the oracle is zero the quotient is not finite and the comparison
/// comes out false; no special case is made for it.
pub open spec fn within_rel_tolerance(result: u64, oracle: u64, tol: u64) -> bool {
    flt(fdiv(abs_bits(fsub(result, oracle)), abs_bits(oracle)), tol)
}

/// Compares a strategy's scalar result against the oracle value under the
/// relative-error rule.
pub fn check_tolerance(result: u64, oracle: u64, tol: u64) -> (r: bool)
    ensures
        r == within_rel_tolerance(result, oracle, tol),
{
    let diff = sub_bits(result, oracle);
    let rel = div_bits(abs_value_bits(diff), abs_value_bits(oracle));
    lt_bits(rel, tol)
}

/// The dot-product oracle: the sequential left-to-right scalar reduction,
/// starting from zero.
pub fn oracle_dot(x: &Vec<u64>, y: &Vec<u64>) -> (r: Result<u64, KernelError>)
    ensures
        x@.len() == y@.len() ==> r == Ok::<u64, KernelError>(dot_seq(x@, y@)),
        x@.len() != y@.len() ==> r == Err::<u64, KernelError>(KernelError::LengthMismatch),
{
    if x.len() != y.len() {
        return Err(KernelError::LengthMismatch);
    }
    Ok(dot_scalar_onto(x, y, 0, x.len(), ZERO_BITS))
}

/// Validates a dot-product strategy's result against the sequential oracle
/// under the default relative tolerance.
pub fn validate_dot(x: &Vec<u64>, y: &Vec<u64>, result: u64) -> (r: Result<bool, KernelError>)
    ensures
        x@.len() == y@.len() ==> r == Ok::<bool, KernelError>(
            within_rel_tolerance(result, dot_seq(x@, y@), TOLERANCE_BITS),
        ),
        x@.len() != y@.len() ==> r == Err::<bool, KernelError>(KernelError::LengthMismatch),
{
    let oracle = match oracle_dot(x, y) {
        Ok(v) => v,
        Err(e) => {
            return Err(e);
        },
    };
    Ok(check_tolerance(result, oracle, TOLERANCE_BITS))
}

/// Runs every dot-product strategy — the lane kernel, the
/// multi-accumulator kernel, and both of their partitioned compositions —
/// and accepts exactly when each result agrees with the sequential oracle
/// within the default relative tolerance.
pub fn validate_all_dot_strategies(x: &Vec<u64>, y: &Vec<u64>, w: usize, k: usize, p: usize) -> (r:
    Result<bool, KernelError>)
    requires
        1 <= w,
        1 <= k,
        k * w <= usize::MAX,
        1 <= p,
    ensures
        x@.len() != y@.len() ==> r == Err::<bool, KernelError>(KernelError::LengthMismatch),
        x@.len() == y@.len() ==> r == Ok::<bool, KernelError>(
            within_rel_tolerance(
                dot_lane_spec(x@, y@, 0, x@.len() as int, w as int),
                dot_seq(x@, y@),
                TOLERANCE_BITS,
            ) && within_rel_tolerance(
                dot_multi_spec(x@, y@, 0, x@.len() as int, w as int, k as int),
                dot_seq(x@, y@),
                TOLERANCE_BITS,
            ) && within_rel_tolerance(
                lane_partials_fold(x@, y@, p as int, w as int, p as int),
                dot_seq(x@, y@),
                TOLERANCE_BITS,
            ) && within_rel_tolerance(
                multi_partials_fold(x@, y@, p as int, w as int, k as int, p as int),
                dot_seq(x@, y@),
                TOLERANCE_BITS,
            ),
        ),
{
    if x.len() != y.len() {
        return Err(KernelError::LengthMismatch);
    }
    let oracle = match oracle_dot(x, y) {
        Ok(v) => v,
        Err(e) => {
            return Err(e);
        },
    };
    let lane = match dot_lane(x, y, w) {
        Ok(v) => v,
        Err(e) => {
            return Err(e);
        },
    };
    let multi = match dot_multi(x, y, w, k) {
        Ok(v) => v,
        Err(e) => {
            return Err(e);
        },
    };
    let lane_parts = match dot_lane_partitioned(x, y, w, p) {
        Ok(v) => v,
        Err(e) => {
            return Err(e);
        },
    };
    let multi_parts = match dot_multi_partitioned(x, y, w, k, p) {
        Ok(v) => v,
        Err(e) => {
            return Err(e);
        },
    };
    let ok = check_tolerance(lane, oracle, TOLERANCE_BITS) && check_tolerance(
        multi,
        oracle,
        TOLERANCE_BITS,
    ) && check_tolerance(lane_parts, oracle, TOLERANCE_BITS) && check_tolerance(
        multi_parts,
        oracle,
        TOLERANCE_BITS,
    );
    Ok(ok)
}

/// Validates an elementwise-sum candidate against the per-index scalar
/// oracle: accepted exactly when it has the right length and every element
/// is bit-for-bit the one IEEE-754 sum at its index.
pub fn validate_add(x: &Vec<u64>, y: &Vec<u64>, candidate: &Vec<u64>) -> (r: Result<
    bool,
    KernelError,
>)
    ensures
        x@.len() == y@.len() ==> r == Ok::<bool, KernelError>(
            candidate@.len() == x@.len() && (forall|i: int|
                0 <= i < x@.len() ==> candidate@[i] == fadd(x@[i], y@[i])),
        ),
        x@.len() != y@.len() ==> r == Err::<bool, KernelError>(KernelError::LengthMismatch),
{
    if x.len() != y.len() {
        return Err(KernelError::LengthMismatch);
    }
    if candidate.len() != x.len() {
        return Ok(false);
    }
    let n: usize = x.len();
    let mut i: usize = 0;
    while i < n
        invariant
            x@.len() == y@.len(),
            candidate@.len() == x@.len(),
            n == x@.len(),
            i <= n,
            forall|t: int| 0 <= t < i ==> candidate@[t] == fadd(x@[t], y@[t]),
        decreases n - i,
    {
        let expected = add_bits(x[i], y[i]);
        if candidate[i] != expected {
            proof {
                assert(candidate@[i as int] != fadd(x@[i as int], y@[i as int]));
            }
            return Ok(false);
        }
        i = i + 1;
    }
    Ok(true)
}

} // verus!
