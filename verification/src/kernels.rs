//! The reduction and elementwise kernels.
//!
//! Every kernel is stated exactly: its contract gives the precise order in
//! which the IEEE-754 additions and multiplications are applied, over the
//! named operations of `ops`. Vectors are `Vec<u64>` of double bit patterns.

use vstd::prelude::*;
use crate::ops::{ZERO_BITS, fadd, fmul, add_bits, mul_bits};

verus! {

/// The one failure a kernel knows: its two vectors differ in length.
#[derive(Clone, Copy, PartialEq, Eq, Structural, Debug)]
pub enum KernelError {
    LengthMismatch,
}

/// Sequential scalar accumulation of `n` products starting at index `lo`,
/// folded left-to-right onto `init`:
/// `fadd(..fadd(init, x[lo]*y[lo]).., x[lo+n-1]*y[lo+n-1])`.
pub open spec fn dot_to(x: Seq<u64>, y: Seq<u64>, lo: int, n: int, init: u64) -> u64
    decreases n,
{
    if n <= 0 {
        init
    } else {
        fadd(dot_to(x, y, lo, n - 1, init), fmul(x[lo + n - 1], y[lo + n - 1]))
    }
}

/// The oracle: the plain left-to-right scalar dot product of the whole
/// vectors, starting from zero.
pub open spec fn dot_seq(x: Seq<u64>, y: Seq<u64>) -> u64 {
    dot_to(x, y, 0, x.len() as int, ZERO_BITS)
}

/// Lane `j` of a `w`-wide accumulator after `c` full chunks taken from
/// index `lo` on: each chunk contributes one product to each lane.
pub open spec fn lane_acc(x: Seq<u64>, y: Seq<u64>, lo: int, w: int, j: int, c: int) -> u64
    decreases c,
{
    if c <= 0 {
        ZERO_BITS
    } else {
        fadd(
            lane_acc(x, y, lo, w, j, c - 1),
            fmul(x[lo + (c - 1) * w + j], y[lo + (c - 1) * w + j]),
        )
    }
}

/// Horizontal reduction of the accumulator: lanes `0..=j` folded
/// left-to-right after `c` chunks.
pub open spec fn lane_hsum(x: Seq<u64>, y: Seq<u64>, lo: int, w: int, c: int, j: int) -> u64
    decreases j,
{
    if j <= 0 {
        lane_acc(x, y, lo, w, 0, c)
    } else {
        fadd(lane_hsum(x, y, lo, w, c, j - 1), lane_acc(x, y, lo, w, j, c))
    }
}

/// What the single-accumulator lane kernel returns on `[lo, hi)`: all full
/// `w`-chunks accumulated lane-wise, the `w` lanes reduced horizontally,
/// then the `(hi-lo) % w` trailing elements folded in scalarly.
pub open spec fn dot_lane_spec(x: Seq<u64>, y: Seq<u64>, lo: int, hi: int, w: int) -> u64 {
    let n = hi - lo;
    let nc = n / w;
    dot_to(x, y, lo + nc * w, n % w, lane_hsum(x, y, lo, w, nc, w - 1))
}

/// The multi-accumulator combine stage: at lane `j`, the partial
/// accumulators `0..=a` folded left-to-right after `s` steps. Accumulator
/// `a`'s lane `j` is lane `a*w + j` of one flat `k*w`-wide accumulator,
/// since each step feeds accumulator `a` the chunk at offset `a*w`.
pub open spec fn multi_comb(
    x: Seq<u64>,
    y: Seq<u64>,
    lo: int,
    w: int,
    k: int,
    s: int,
    j: int,
    a: int,
) -> u64
    decreases a,
{
    if a <= 0 {
        lane_acc(x, y, lo, k * w, j, s)
    } else {
        fadd(multi_comb(x, y, lo, w, k, s, j, a - 1), lane_acc(x, y, lo, k * w, a * w + j, s))
    }
}

/// Horizontal reduction of the combined `w`-wide vector: lanes `0..=j`
/// folded left-to-right.
pub open spec fn multi_hsum(x: Seq<u64>, y: Seq<u64>, lo: int, w: int, k: int, s: int, j: int) -> u64
    decreases j,
{
    if j <= 0 {
        multi_comb(x, y, lo, w, k, s, 0, k - 1)
    } else {
        fadd(multi_hsum(x, y, lo, w, k, s, j - 1), multi_comb(x, y, lo, w, k, s, j, k - 1))
    }
}

/// What the multi-accumulator kernel returns on `[lo, hi)`: `k` independent
/// `w`-wide accumulators advance `k*w` elements per step; the accumulators
/// are combined into one `w`-wide vector, reduced horizontally, and the
/// `(hi-lo) % (k*w)` trailing elements are folded in scalarly.
pub open spec fn dot_multi_spec(x: Seq<u64>, y: Seq<u64>, lo: int, hi: int, w: int, k: int) -> u64 {
    let n = hi - lo;
    let step = k * w;
    let ns = n / step;
    dot_to(x, y, lo + ns * step, n % step, multi_hsum(x, y, lo, w, k, ns, w - 1))
}

/// Sequential accumulation splits at any point: folding `n1 + n2` products
/// onto `init` is folding the last `n2` onto the fold of the first `n1`.
pub proof fn lemma_dot_to_split(x: Seq<u64>, y: Seq<u64>, lo: int, n1: int, n2: int, init: u64)
    requires
        0 <= n1,
        0 <= n2,
    ensures
        dot_to(x, y, lo, n1 + n2, init) == dot_to(x, y, lo + n1, n2, dot_to(x, y, lo, n1, init)),
    decreases n2,
{
    if n2 > 0 {
        lemma_dot_to_split(x, y, lo, n1, n2 - 1, init);
    }
}

/// At lane width one the single accumulator lane receives the products one
/// by one, exactly as the sequential fold does.
proof fn lemma_lane_acc_width_one(x: Seq<u64>, y: Seq<u64>, lo: int, c: int)
    requires
        0 <= c,
    ensures
        lane_acc(x, y, lo, 1, 0, c) == dot_to(x, y, lo, c, ZERO_BITS),
    decreases c,
{
    if c > 0 {
        lemma_lane_acc_width_one(x, y, lo, c - 1);
    }
}

/// Exact agreement of the degenerate lane kernel with the oracle: at lane
/// width one the lane kernel's summation order is the sequential
/// left-to-right order, so the two results are bit-for-bit equal.
pub proof fn lemma_lane_width_one_is_sequential(x: Seq<u64>, y: Seq<u64>, lo: int, hi: int)
    requires
        lo <= hi,
    ensures
        dot_lane_spec(x, y, lo, hi, 1) == dot_to(x, y, lo, hi - lo, ZERO_BITS),
{
    let n = hi - lo;
    assert(n / 1 == n);
    assert(n % 1 == 0);
    lemma_lane_acc_width_one(x, y, lo, n);
    assert(lane_hsum(x, y, lo, 1, n, 0) == lane_acc(x, y, lo, 1, 0, n));
}

/// With a single accumulator stream the combine stage is the identity and
/// the multi-accumulator horizontal sum is the lane kernel's.
proof fn lemma_multi_hsum_single(x: Seq<u64>, y: Seq<u64>, lo: int, w: int, s: int, j: int)
    requires
        0 <= j,
    ensures
        multi_hsum(x, y, lo, w, 1, s, j) == lane_hsum(x, y, lo, w, s, j),
    decreases j,
{
    if j > 0 {
        lemma_multi_hsum_single(x, y, lo, w, s, j - 1);
    }
}

/// Exact agreement of the degenerate multi-accumulator kernel with the lane
/// kernel: with one accumulator stream both process the same chunks in the
/// same order, so the two results are bit-for-bit equal.
pub proof fn lemma_multi_single_accumulator_is_lane(
    x: Seq<u64>,
    y: Seq<u64>,
    lo: int,
    hi: int,
    w: int,
)
    requires
        lo <= hi,
        1 <= w,
    ensures
        dot_multi_spec(x, y, lo, hi, w, 1) == dot_lane_spec(x, y, lo, hi, w),
{
    let n = hi - lo;
    assert(1 * w == w);
    lemma_multi_hsum_single(x, y, lo, w, n / w, w - 1);
}

/// `c` full chunks of width `w` fit inside `n` elements.
proof fn lemma_chunks_fit(n: int, w: int, c: int)
    requires
        1 <= w,
        0 <= n,
        0 <= c <= n / w,
    ensures
        c * w <= n,
        n % w == n - (n / w) * w,
{
    vstd::arithmetic::div_mod::lemma_fundamental_div_mod(n, w);
    assert(c * w <= (n / w) * w) by (nonlinear_arith)
        requires
            c <= n / w,
            0 <= w,
    ;
    assert((n / w) * w <= n) by (nonlinear_arith)
        requires
            n == w * (n / w) + n % w,
            0 <= n % w,
    ;
}

/// Scalar accumulation of the products over `[lo, lo + n)` onto `init`.
pub(crate) fn dot_scalar_onto(x: &Vec<u64>, y: &Vec<u64>, lo: usize, n: usize, init: u64) -> (r: u64)
    requires
        x@.len() == y@.len(),
        lo + n <= x@.len(),
    ensures
        r == dot_to(x@, y@, lo as int, n as int, init),
{
    let xl: usize = x.len();
    let mut res: u64 = init;
    let mut t: usize = 0;
    while t < n
        invariant
            x@.len() == y@.len(),
            lo + n <= x@.len(),
            x@.len() == xl,
            t <= n,
            res == dot_to(x@, y@, lo as int, t as int, init),
        decreases n - t,
    {
        res = add_bits(res, mul_bits(x[lo + t], y[lo + t]));
        t = t + 1;
    }
    res
}

/// The fixed-width lane kernel on the range `[lo, hi)`: consumes `w`
/// elements at a time into a `w`-wide accumulator, reduces the lanes
/// horizontally, and handles the trailing remainder scalarly. An empty
/// range yields the reduction identity's bit pattern at run time.
pub fn dot_lane_range(x: &Vec<u64>, y: &Vec<u64>, lo: usize, hi: usize, w: usize) -> (r: u64)
    requires
        x@.len() == y@.len(),
        lo <= hi <= x@.len(),
        1 <= w,
    ensures
        r == dot_lane_spec(x@, y@, lo as int, hi as int, w as int),
{
    let xl: usize = x.len();
    let n: usize = hi - lo;
    let nc: usize = n / w;
    proof {
        lemma_chunks_fit(n as int, w as int, nc as int);
    }

    let mut acc: Vec<u64> = Vec::new();
    let mut j: usize = 0;
    while j < w
        invariant
            j <= w,
            acc@.len() == j,
            forall|t: int| 0 <= t < j ==> acc@[t] == ZERO_BITS,
        decreases w - j,
    {
        acc.push(ZERO_BITS);
        j = j + 1;
    }

    let mut c: usize = 0;
    while c < nc
        invariant
            x@.len() == y@.len(),
            lo <= hi <= x@.len(),
            1 <= w,
            n == hi - lo,
            nc == n as int / w as int,
            x@.len() == xl,
            c <= nc,
            acc@.len() == w,
            forall|t: int|
                0 <= t < w ==> acc@[t] == lane_acc(x@, y@, lo as int, w as int, t, c as int),
        decreases nc - c,
    {
        proof {
            lemma_chunks_fit(n as int, w as int, c as int);
            lemma_chunks_fit(n as int, w as int, c as int + 1);
        }
        let base: usize = lo + c * w;
        let mut j: usize = 0;
        while j < w
            invariant
                x@.len() == y@.len(),
                lo <= hi <= x@.len(),
                1 <= w,
                n == hi - lo,
                nc == n as int / w as int,
                c < nc,
                base == lo + c * w,
                (c + 1) * w <= n,
                j <= w,
                acc@.len() == w,
                forall|t: int|
                    0 <= t < j ==> acc@[t] == lane_acc(x@, y@, lo as int, w as int, t, c as int
                        + 1),
                forall|t: int|
                    j <= t < w ==> acc@[t] == lane_acc(x@, y@, lo as int, w as int, t, c as int),
            decreases w - j,
        {
            proof {
                assert(c as int * w as int + j < (c as int + 1) * w as int) by (nonlinear_arith)
                    requires
                        j < w,
                ;
            }
            let v = add_bits(acc[j], mul_bits(x[base + j], y[base + j]));
            acc.set(j, v);
            j = j + 1;
        }
        c = c + 1;
    }

    let mut hsum: u64 = acc[0];
    let mut j: usize = 1;
    while j < w
        invariant
            1 <= j <= w,
            acc@.len() == w,
            forall|t: int|
                0 <= t < w ==> acc@[t] == lane_acc(x@, y@, lo as int, w as int, t, nc as int),
            hsum == lane_hsum(x@, y@, lo as int, w as int, nc as int, j as int - 1),
        decreases w - j,
    {
        hsum = add_bits(hsum, acc[j]);
        j = j + 1;
    }

    dot_scalar_onto(x, y, lo + nc * w, n % w, hsum)
}

/// The multi-accumulator kernel on the range `[lo, hi)`: `k` independent
/// `w`-wide accumulator streams shorten the dependency chain; they are
/// combined pairwise per lane, reduced horizontally, and the remainder is
/// handled scalarly.
pub fn dot_multi_range(
    x: &Vec<u64>,
    y: &Vec<u64>,
    lo: usize,
    hi: usize,
    w: usize,
    k: usize,
) -> (r: u64)
    requires
        x@.len() == y@.len(),
        lo <= hi <= x@.len(),
        1 <= w,
        1 <= k,
        k * w <= usize::MAX,
    ensures
        r == dot_multi_spec(x@, y@, lo as int, hi as int, w as int, k as int),
{
    let xl: usize = x.len();
    let n: usize = hi - lo;
    proof {
        assert(1 <= k * w && w <= k * w) by (nonlinear_arith)
            requires
                1 <= w,
                1 <= k,
        ;
    }
    let step: usize = k * w;
    let ns: usize = n / step;
    proof {
        lemma_chunks_fit(n as int, step as int, ns as int);
    }

    let mut acc: Vec<u64> = Vec::new();
    let mut t: usize = 0;
    while t < step
        invariant
            t <= step,
            acc@.len() == t,
            forall|u: int| 0 <= u < t ==> acc@[u] == ZERO_BITS,
        decreases step - t,
    {
        acc.push(ZERO_BITS);
        t = t + 1;
    }

    let mut s: usize = 0;
    while s < ns
        invariant
            x@.len() == y@.len(),
            lo <= hi <= x@.len(),
            1 <= w,
            1 <= k,
            step == k * w,
            1 <= step,
            n == hi - lo,
            ns == n as int / step as int,
            x@.len() == xl,
            s <= ns,
            acc@.len() == step,
            forall|t: int|
                0 <= t < step ==> acc@[t] == lane_acc(x@, y@, lo as int, step as int, t, s as int),
        decreases ns - s,
    {
        proof {
            lemma_chunks_fit(n as int, step as int, s as int);
            lemma_chunks_fit(n as int, step as int, s as int + 1);
        }
        let base: usize = lo + s * step;
        let mut t: usize = 0;
        while t < step
            invariant
                x@.len() == y@.len(),
                lo <= hi <= x@.len(),
                1 <= step,
                n == hi - lo,
                ns == n as int / step as int,
                s < ns,
                base == lo + s * step,
                (s + 1) * step <= n,
                t <= step,
                acc@.len() == step,
                forall|u: int|
                    0 <= u < t ==> acc@[u] == lane_acc(x@, y@, lo as int, step as int, u, s as int
                        + 1),
                forall|u: int|
                    t <= u < step ==> acc@[u] == lane_acc(x@, y@, lo as int, step as int, u,
                    s as int),
            decreases step - t,
        {
            proof {
                assert(s as int * step as int + t < (s as int + 1) * step as int)
                    by (nonlinear_arith)
                    requires
                        t < step,
                ;
            }
            let v = add_bits(acc[t], mul_bits(x[base + t], y[base + t]));
            acc.set(t, v);
            t = t + 1;
        }
        s = s + 1;
    }

    // combine the k accumulators into one w-wide vector, lane by lane
    let mut comb: Vec<u64> = Vec::new();
    let mut j: usize = 0;
    while j < w
        invariant
            1 <= w,
            1 <= k,
            step == k * w,
            w <= step,
            acc@.len() == step,
            forall|t: int|
                0 <= t < step ==> acc@[t] == lane_acc(x@, y@, lo as int, step as int, t, ns as int),
            j <= w,
            comb@.len() == j,
            forall|t: int|
                0 <= t < j ==> comb@[t] == multi_comb(x@, y@, lo as int, w as int, k as int,
                ns as int, t, k as int - 1),
        decreases w - j,
    {
        let mut cval: u64 = acc[j];
        proof {
            assert(multi_comb(x@, y@, lo as int, w as int, k as int, ns as int, j as int, 0)
                == lane_acc(x@, y@, lo as int, k as int * w as int, j as int, ns as int));
        }
        let mut a: usize = 1;
        while a < k
            invariant
                1 <= w,
                1 <= k,
                step == k * w,
                j < w,
                acc@.len() == step,
                forall|t: int|
                    0 <= t < step ==> acc@[t] == lane_acc(x@, y@, lo as int, step as int, t,
                    ns as int),
                1 <= a <= k,
                cval == multi_comb(x@, y@, lo as int, w as int, k as int, ns as int, j as int,
                a as int - 1),
            decreases k - a,
        {
            proof {
                assert(a as int * w as int + j < k as int * w as int) by (nonlinear_arith)
                    requires
                        a < k,
                        j < w,
                        0 <= a,
                        0 <= j,
                ;
            }
            cval = add_bits(cval, acc[a * w + j]);
            a = a + 1;
        }
        comb.push(cval);
        j = j + 1;
    }

    // horizontal reduction of the combined lanes
    let mut hsum: u64 = comb[0];
    let mut j: usize = 1;
    while j < w
        invariant
            1 <= j <= w,
            comb@.len() == w,
            forall|t: int|
                0 <= t < w ==> comb@[t] == multi_comb(x@, y@, lo as int, w as int, k as int,
                ns as int, t, k as int - 1),
            hsum == multi_hsum(x@, y@, lo as int, w as int, k as int, ns as int, j as int - 1),
        decreases w - j,
    {
        hsum = add_bits(hsum, comb[j]);
        j = j + 1;
    }

    dot_scalar_onto(x, y, lo + ns * step, n % step, hsum)
}

/// The elementwise lane kernel on the range `[lo, hi)`: writes
/// `fadd(x[i], y[i])` into `out[i]` for every `i` in the range, consuming
/// `w` elements per chunk and finishing the remainder scalarly; indices
/// outside the range are left untouched, so disjoint ranges can be filled
/// independently.
pub fn add_lane_range(x: &Vec<u64>, y: &Vec<u64>, out: &mut Vec<u64>, lo: usize, hi: usize, w: usize)
    requires
        x@.len() == y@.len(),
        old(out)@.len() == x@.len(),
        lo <= hi <= x@.len(),
        1 <= w,
    ensures
        final(out)@.len() == old(out)@.len(),
        forall|i: int| lo <= i < hi ==> final(out)@[i] == fadd(x@[i], y@[i]),
        forall|i: int|
            0 <= i < final(out)@.len() && !(lo <= i < hi) ==> final(out)@[i] == old(out)@[i],
{
    let mut i: usize = lo;
    while w <= hi - i
        invariant
            x@.len() == y@.len(),
            out@.len() == old(out)@.len() == x@.len(),
            lo <= i <= hi <= x@.len(),
            1 <= w,
            forall|t: int| lo <= t < i ==> out@[t] == fadd(x@[t], y@[t]),
            forall|t: int| 0 <= t < out@.len() && !(lo <= t < i) ==> out@[t] == old(out)@[t],
        decreases hi - i,
    {
        let mut j: usize = 0;
        while j < w
            invariant
                x@.len() == y@.len(),
                out@.len() == old(out)@.len() == x@.len(),
                lo <= i,
                i + w <= hi <= x@.len(),
                j <= w,
                forall|t: int| lo <= t < i + j ==> out@[t] == fadd(x@[t], y@[t]),
                forall|t: int|
                    0 <= t < out@.len() && !(lo <= t < i + j) ==> out@[t] == old(out)@[t],
            decreases w - j,
        {
            let v = add_bits(x[i + j], y[i + j]);
            out.set(i + j, v);
            j = j + 1;
        }
        i = i + w;
    }
    while i < hi
        invariant
            x@.len() == y@.len(),
            out@.len() == old(out)@.len() == x@.len(),
            lo <= i <= hi <= x@.len(),
            forall|t: int| lo <= t < i ==> out@[t] == fadd(x@[t], y@[t]),
            forall|t: int| 0 <= t < out@.len() && !(lo <= t < i) ==> out@[t] == old(out)@[t],
        decreases hi - i,
    {
        let v = add_bits(x[i], y[i]);
        out.set(i, v);
        i = i + 1;
    }
}

/// The lane-kernel dot product of two whole vectors: rejects a length
/// mismatch, otherwise returns exactly the chunked-then-linear sum that
/// `dot_lane_spec` states.
pub fn dot_lane(x: &Vec<u64>, y: &Vec<u64>, w: usize) -> (r: Result<u64, KernelError>)
    requires
        1 <= w,
    ensures
        x@.len() == y@.len() ==> r == Ok::<u64, KernelError>(
            dot_lane_spec(x@, y@, 0, x@.len() as int, w as int),
        ),
        x@.len() != y@.len() ==> r == Err::<u64, KernelError>(KernelError::LengthMismatch),
{
    if x.len() != y.len() {
        return Err(KernelError::LengthMismatch);
    }
    Ok(dot_lane_range(x, y, 0, x.len(), w))
}

/// The multi-accumulator dot product of two whole vectors.
pub fn dot_multi(x: &Vec<u64>, y: &Vec<u64>, w: usize, k: usize) -> (r: Result<u64, KernelError>)
    requires
        1 <= w,
        1 <= k,
        k * w <= usize::MAX,
    ensures
        x@.len() == y@.len() ==> r == Ok::<u64, KernelError>(
            dot_multi_spec(x@, y@, 0, x@.len() as int, w as int, k as int),
        ),
        x@.len() != y@.len() ==> r == Err::<u64, KernelError>(KernelError::LengthMismatch),
{
    if x.len() != y.len() {
        return Err(KernelError::LengthMismatch);
    }
    Ok(dot_multi_range(x, y, 0, x.len(), w, k))
}

/// The lane-vectorized dot product at the widely used width of four lanes.
pub fn dot_product_simd(x: &Vec<u64>, y: &Vec<u64>) -> (r: Result<u64, KernelError>)
    ensures
        x@.len() == y@.len() ==> r == Ok::<u64, KernelError>(
            dot_lane_spec(x@, y@, 0, x@.len() as int, 4),
        ),
        x@.len() != y@.len() ==> r == Err::<u64, KernelError>(KernelError::LengthMismatch),
{
    dot_lane(x, y, 4)
}

/// The elementwise sum of two whole vectors: rejects a length mismatch,
/// otherwise every output element is exactly the one IEEE-754 addition of
/// the two inputs at its index.
pub fn add_lane(x: &Vec<u64>, y: &Vec<u64>, w: usize) -> (r: Result<Vec<u64>, KernelError>)
    requires
        1 <= w,
    ensures
        r is Ok <==> x@.len() == y@.len(),
        r matches Ok(v) ==> v@.len() == x@.len() && forall|i: int|
            0 <= i < x@.len() ==> v@[i] == fadd(x@[i], y@[i]),
        r is Err ==> r == Err::<Vec<u64>, KernelError>(KernelError::LengthMismatch),
{
    if x.len() != y.len() {
        return Err(KernelError::LengthMismatch);
    }
    let n: usize = x.len();
    let mut out: Vec<u64> = Vec::new();
    let mut i: usize = 0;
    while i < n
        invariant
            i <= n,
            out@.len() == i,
        decreases n - i,
    {
        out.push(ZERO_BITS);
        i = i + 1;
    }
    add_lane_range(x, y, &mut out, 0, n, w);
    Ok(out)
}

} // verus!
