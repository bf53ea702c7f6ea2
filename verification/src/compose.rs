//! Composition of a kernel over a partitioning of the index range.
//!
//! The composer runs the chosen kernel once per partition and joins the
//! results: partial scalars are folded onto zero for the reduction kernels,
//! and disjoint output ranges are left in place for the elementwise kernel.
//! The partitions are read-disjoint (reduction) or write-disjoint
//! (elementwise), so a fork-join runner may execute them in any order; the
//! join stated here is the left-to-right fold over the partition index.

use vstd::prelude::*;
use crate::ops::{ZERO_BITS, fadd, add_bits};
use crate::partition::{
    part_start,
    part_end,
    is_partition_seq,
    partition_ranges,
    lemma_partition_coverage,
};
use crate::kernels::{
    KernelError,
    dot_to,
    dot_seq,
    dot_lane_spec,
    dot_multi_spec,
    dot_lane_range,
    dot_multi_range,
    add_lane_range,
    lemma_dot_to_split,
};

verus! {

/// The partial scalar the lane kernel yields on partition `i` of `p`.
pub open spec fn lane_partial(x: Seq<u64>, y: Seq<u64>, p: int, w: int, i: int) -> u64 {
    dot_lane_spec(x, y, part_start(x.len() as int, p, i), part_end(x.len() as int, p, i), w)
}

/// The first `i` lane-kernel partials folded left-to-right onto zero.
pub open spec fn lane_partials_fold(x: Seq<u64>, y: Seq<u64>, p: int, w: int, i: int) -> u64
    decreases i,
{
    if i <= 0 {
        ZERO_BITS
    } else {
        fadd(lane_partials_fold(x, y, p, w, i - 1), lane_partial(x, y, p, w, i - 1))
    }
}

/// The partial scalar the multi-accumulator kernel yields on partition `i`.
pub open spec fn multi_partial(x: Seq<u64>, y: Seq<u64>, p: int, w: int, k: int, i: int) -> u64 {
    dot_multi_spec(x, y, part_start(x.len() as int, p, i), part_end(x.len() as int, p, i), w, k)
}

/// The first `i` multi-accumulator partials folded left-to-right onto zero.
pub open spec fn multi_partials_fold(x: Seq<u64>, y: Seq<u64>, p: int, w: int, k: int, i: int) -> u64
    decreases i,
{
    if i <= 0 {
        ZERO_BITS
    } else {
        fadd(multi_partials_fold(x, y, p, w, k, i - 1), multi_partial(x, y, p, w, k, i - 1))
    }
}

/// The partitioned lane-kernel dot product: splits `[0, len)` into `p`
/// partitions, runs the lane kernel on each, and folds the `p` partial
/// scalars onto zero, each exactly once.
pub fn dot_lane_partitioned(x: &Vec<u64>, y: &Vec<u64>, w: usize, p: usize) -> (r: Result<
    u64,
    KernelError,
>)
    requires
        1 <= w,
        1 <= p,
    ensures
        x@.len() == y@.len() ==> r == Ok::<u64, KernelError>(
            lane_partials_fold(x@, y@, p as int, w as int, p as int),
        ),
        x@.len() != y@.len() ==> r == Err::<u64, KernelError>(KernelError::LengthMismatch),
{
    if x.len() != y.len() {
        return Err(KernelError::LengthMismatch);
    }
    let len: usize = x.len();
    let parts = partition_ranges(len, p);
    proof {
        lemma_partition_coverage(parts@, len as int, p as int);
    }
    let mut total: u64 = ZERO_BITS;
    let mut i: usize = 0;
    while i < p
        invariant
            x@.len() == y@.len(),
            x@.len() == len,
            1 <= w,
            1 <= p,
            is_partition_seq(parts@, len as int, p as int),
            forall|t: int|
                0 <= t < p ==> (#[trigger] parts@[t]).start <= parts@[t].end && parts@[t].end
                    <= len,
            i <= p,
            total == lane_partials_fold(x@, y@, p as int, w as int, i as int),
        decreases p - i,
    {
        let part = parts[i];
        let partial = dot_lane_range(x, y, part.start, part.end, w);
        total = add_bits(total, partial);
        i = i + 1;
    }
    Ok(total)
}

/// The partitioned multi-accumulator dot product.
pub fn dot_multi_partitioned(x: &Vec<u64>, y: &Vec<u64>, w: usize, k: usize, p: usize) -> (r:
    Result<u64, KernelError>)
    requires
        1 <= w,
        1 <= k,
        k * w <= usize::MAX,
        1 <= p,
    ensures
        x@.len() == y@.len() ==> r == Ok::<u64, KernelError>(
            multi_partials_fold(x@, y@, p as int, w as int, k as int, p as int),
        ),
        x@.len() != y@.len() ==> r == Err::<u64, KernelError>(KernelError::LengthMismatch),
{
    if x.len() != y.len() {
        return Err(KernelError::LengthMismatch);
    }
    let len: usize = x.len();
    let parts = partition_ranges(len, p);
    proof {
        lemma_partition_coverage(parts@, len as int, p as int);
    }
    let mut total: u64 = ZERO_BITS;
    let mut i: usize = 0;
    while i < p
        invariant
            x@.len() == y@.len(),
            x@.len() == len,
            1 <= w,
            1 <= k,
            k * w <= usize::MAX,
            1 <= p,
            is_partition_seq(parts@, len as int, p as int),
            forall|t: int|
                0 <= t < p ==> (#[trigger] parts@[t]).start <= parts@[t].end && parts@[t].end
                    <= len,
            i <= p,
            total == multi_partials_fold(x@, y@, p as int, w as int, k as int, i as int),
        decreases p - i,
    {
        let part = parts[i];
        let partial = dot_multi_range(x, y, part.start, part.end, w, k);
        total = add_bits(total, partial);
        i = i + 1;
    }
    Ok(total)
}

/// How much of `[0, len)` the first `i` partitions have filled: their
/// union is exactly `[0, part_start(len, p, i))`, or all of `[0, len)` once
/// every partition has run.
pub open spec fn filled_up_to(len: int, p: int, i: int) -> int {
    if i >= p {
        len
    } else {
        part_start(len, p, i)
    }
}

/// The sequential oracle threaded through the partitions in order: the
/// running scalar after the first `i` partitions, each partition folding
/// its own products onto the value left by the one before it.
pub open spec fn chained_oracle(x: Seq<u64>, y: Seq<u64>, len: int, p: int, i: int) -> u64
    decreases i,
{
    if i <= 0 {
        ZERO_BITS
    } else {
        dot_to(
            x,
            y,
            part_start(len, p, i - 1),
            part_end(len, p, i - 1) - part_start(len, p, i - 1),
            chained_oracle(x, y, len, p, i - 1),
        )
    }
}

/// After the first `i` partitions the chained traversal has folded exactly
/// the products of `[0, filled_up_to(len, p, i))`, left to right.
proof fn lemma_chained_oracle_prefix(x: Seq<u64>, y: Seq<u64>, len: int, p: int, i: int)
    requires
        0 <= len,
        1 <= p,
        0 <= i <= p,
    ensures
        chained_oracle(x, y, len, p, i) == dot_to(
            x,
            y,
            0,
            filled_up_to(len, p, i),
            ZERO_BITS,
        ),
    decreases i,
{
    if i > 0 {
        lemma_chained_oracle_prefix(x, y, len, p, i - 1);
        crate::partition::lemma_part_bounds(len, p, i - 1);
        lemma_dot_to_split(
            x,
            y,
            0,
            part_start(len, p, i - 1),
            part_end(len, p, i - 1) - part_start(len, p, i - 1),
            ZERO_BITS,
        );
    }
}

/// The partitions lose nothing and repeat nothing: threading the scalar
/// accumulator through them in order reproduces the sequential oracle over
/// the whole vectors bit for bit.
pub proof fn lemma_chained_oracle_is_sequential(x: Seq<u64>, y: Seq<u64>, p: int)
    requires
        1 <= p,
        x.len() == y.len(),
    ensures
        chained_oracle(x, y, x.len() as int, p, p) == dot_seq(x, y),
{
    lemma_chained_oracle_prefix(x, y, x.len() as int, p, p);
}

/// The partitioned elementwise sum: each partition's kernel writes only its
/// own disjoint output range, and after the join every index holds exactly
/// the one IEEE-754 sum of the inputs at that index.
pub fn add_partitioned(x: &Vec<u64>, y: &Vec<u64>, w: usize, p: usize) -> (r: Result<
    Vec<u64>,
    KernelError,
>)
    requires
        1 <= w,
        1 <= p,
    ensures
        r is Ok <==> x@.len() == y@.len(),
        r matches Ok(v) ==> v@.len() == x@.len() && forall|i: int|
            0 <= i < x@.len() ==> v@[i] == fadd(x@[i], y@[i]),
        r is Err ==> r == Err::<Vec<u64>, KernelError>(KernelError::LengthMismatch),
{
    if x.len() != y.len() {
        return Err(KernelError::LengthMismatch);
    }
    let len: usize = x.len();
    let parts = partition_ranges(len, p);
    proof {
        lemma_partition_coverage(parts@, len as int, p as int);
    }
    let mut out: Vec<u64> = Vec::new();
    let mut i: usize = 0;
    while i < len
        invariant
            i <= len,
            out@.len() == i,
        decreases len - i,
    {
        out.push(ZERO_BITS);
        i = i + 1;
    }
    let mut i: usize = 0;
    while i < p
        invariant
            x@.len() == y@.len(),
            x@.len() == len,
            1 <= w,
            1 <= p,
            is_partition_seq(parts@, len as int, p as int),
            forall|t: int|
                0 <= t < p ==> (#[trigger] parts@[t]).start <= parts@[t].end && parts@[t].end
                    <= len,
            forall|t: int| 0 <= t < p - 1 ==> (#[trigger] parts@[t]).end == parts@[t + 1].start,
            parts@[p as int - 1].end == len,
            i <= p,
            out@.len() == len,
            forall|t: int|
                0 <= t < filled_up_to(len as int, p as int, i as int) ==> out@[t] == fadd(
                    x@[t],
                    y@[t],
                ),
        decreases p - i,
    {
        let part = parts[i];
        proof {
            if i < p - 1 {
                assert(parts@[i as int].end == parts@[i as int + 1].start);
            }
        }
        add_lane_range(x, y, &mut out, part.start, part.end, w);
        i = i + 1;
    }
    Ok(out)
}

} // verus!
