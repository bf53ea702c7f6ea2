//! Splitting an index range `[0, len)` into `P` contiguous sub-ranges.
//!
//! The split is deterministic: partition `i` starts at `i * floor(len / P)`,
//! and the last partition absorbs the remainder so that its end is `len`.
//! When `P >= len` some partitions are empty (`start == end`); kernels treat
//! an empty partition as a no-op.

use vstd::prelude::*;
use vstd::arithmetic::div_mod::lemma_fundamental_div_mod;

verus! {

/// A half-open index range `[start, end)` assigned to one worker.
#[derive(Clone, Copy, PartialEq, Eq, Structural, Debug)]
pub struct Partition {
    pub start: usize,
    pub end: usize,
}

/// Where partition `i` of `p` over `[0, len)` starts.
pub open spec fn part_start(len: int, p: int, i: int) -> int {
    i * (len / p)
}

/// Where partition `i` of `p` over `[0, len)` ends: the next partition's
/// start, except that the last partition runs to `len`.
pub open spec fn part_end(len: int, p: int, i: int) -> int {
    if i == p - 1 {
        len
    } else {
        (i + 1) * (len / p)
    }
}

/// The sequence holds exactly the `p` partitions of `[0, len)`.
pub open spec fn is_partition_seq(parts: Seq<Partition>, len: int, p: int) -> bool {
    &&& parts.len() == p
    &&& forall|i: int|
        0 <= i < p ==> (#[trigger] parts[i]).start == part_start(len, p, i) && parts[i].end
            == part_end(len, p, i)
}

/// Index `k` lies inside the partition.
pub open spec fn in_partition(part: Partition, k: int) -> bool {
    part.start <= k < part.end
}

/// Some one of the `p` partitions contains index `k`.
pub open spec fn covered(parts: Seq<Partition>, p: int, k: int) -> bool {
    exists|i: int| 0 <= i < p && in_partition(#[trigger] parts[i], k)
}

/// The chunk size times the number of chunks never exceeds the total.
proof fn lemma_div_mul_le(len: int, p: int)
    requires
        0 <= len,
        1 <= p,
    ensures
        p * (len / p) <= len,
        0 <= len / p,
{
    lemma_fundamental_div_mod(len, p);
}

/// Multiplication by a non-negative quantity is monotone.
proof fn lemma_mul_le_mono(a: int, b: int, q: int)
    requires
        a <= b,
        0 <= q,
    ensures
        a * q <= b * q,
{
    assert(a * q <= b * q) by (nonlinear_arith)
        requires
            a <= b,
            0 <= q,
    ;
}

/// Bounds on every partition boundary: starts and ends are ordered and lie
/// inside `[0, len]`.
pub(crate) proof fn lemma_part_bounds(len: int, p: int, i: int)
    requires
        0 <= len,
        1 <= p,
        0 <= i < p,
    ensures
        0 <= part_start(len, p, i),
        part_start(len, p, i) <= part_end(len, p, i),
        part_end(len, p, i) <= len,
{
    let q = len / p;
    lemma_div_mul_le(len, p);
    assert(0 <= i * q) by (nonlinear_arith)
        requires
            0 <= i,
            0 <= q,
    ;
    lemma_mul_le_mono(i, i + 1, q);
    lemma_mul_le_mono(i + 1, p, q);
}

/// Coverage and disjointness of the partitioning scheme: for every `len` and
/// `p >= 1` the partitions are pairwise disjoint, ordered, contiguous, and
/// their union is exactly `[0, len)`.
pub proof fn lemma_partition_coverage(parts: Seq<Partition>, len: int, p: int)
    requires
        0 <= len,
        1 <= p,
        is_partition_seq(parts, len, p),
    ensures
        parts.len() == p,
        parts[0].start == 0,
        parts[p - 1].end == len,
        forall|i: int|
            0 <= i < p ==> (#[trigger] parts[i]).start <= parts[i].end && parts[i].end <= len,
        forall|i: int| 0 <= i < p - 1 ==> (#[trigger] parts[i]).end == parts[i + 1].start,
        forall|i: int, j: int|
            0 <= i < j < p ==> (#[trigger] parts[i]).end <= (#[trigger] parts[j]).start,
        forall|k: int| 0 <= k < len ==> #[trigger] covered(parts, p, k),
{
    let q = len / p;
    lemma_div_mul_le(len, p);
    assert forall|i: int| 0 <= i < p implies (#[trigger] parts[i]).start <= parts[i].end
        && parts[i].end <= len by {
        lemma_part_bounds(len, p, i);
    }
    assert forall|i: int, j: int|
        0 <= i < j < p implies (#[trigger] parts[i]).end <= (#[trigger] parts[j]).start by {
        if i < p - 1 {
            lemma_mul_le_mono(i + 1, j, q);
        }
    }
    assert forall|k: int| 0 <= k < len implies #[trigger] covered(parts, p, k) by {
        if q == 0 {
            // every earlier partition is empty; the last one is [0, len)
            let i = p - 1;
            assert((p - 1) * 0 == 0);
            assert(in_partition(parts[i], k));
        } else {
            lemma_fundamental_div_mod(k, q);
            let d = k / q;
            assert(0 <= d) by (nonlinear_arith)
                requires
                    0 <= k,
                    1 <= q,
                    k == q * d + k % q,
                    0 <= k % q < q,
            ;
            if d >= p - 1 {
                let i = p - 1;
                // k >= (p - 1) * q because k / q >= p - 1
                assert((p - 1) * q <= d * q) by {
                    lemma_mul_le_mono(p - 1, d, q);
                }
                assert(d * q <= k) by (nonlinear_arith)
                    requires
                        k == q * d + k % q,
                        0 <= k % q,
                ;
                assert(in_partition(parts[i], k));
            } else {
                let i = d;
                assert(d * q <= k < (d + 1) * q) by (nonlinear_arith)
                    requires
                        k == q * d + k % q,
                        0 <= k % q < q,
                ;
                assert(in_partition(parts[i], k));
            }
        }
    }
}

/// Splits `[0, len)` into `p` contiguous, disjoint partitions whose union is
/// the whole range; the last partition absorbs the remainder.
pub fn partition_ranges(len: usize, p: usize) -> (parts: Vec<Partition>)
    requires
        1 <= p,
    ensures
        is_partition_seq(parts@, len as int, p as int),
{
    let q: usize = len / p;
    let mut parts: Vec<Partition> = Vec::new();
    let mut i: usize = 0;
    while i < p
        invariant
            1 <= p,
            i <= p,
            q == len as int / p as int,
            parts@.len() == i,
            forall|t: int|
                0 <= t < i ==> (#[trigger] parts@[t]).start == part_start(len as int, p as int, t)
                    && parts@[t].end == part_end(len as int, p as int, t),
        decreases p - i,
    {
        proof {
            lemma_part_bounds(len as int, p as int, i as int);
            assert(i as int * q as int == part_start(len as int, p as int, i as int));
            if i < p - 1 {
                assert((i as int + 1) * q as int == part_end(len as int, p as int, i as int));
            }
        }
        let start: usize = i * q;
        let end: usize = if i == p - 1 {
            len
        } else {
            (i + 1) * q
        };
        parts.push(Partition { start, end });
        i = i + 1;
    }
    parts
}

} // verus!
