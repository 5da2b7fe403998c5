//! Decision logic of the running-stats reducer: it consumes three parallel
//! accumulator datasets (sum, sum of squares, count) in fixed-size batches
//! and produces per-cell mean and standard deviation, writing the sentinel
//! `-1` into the standard deviation wherever a cell has zero observations.
//!
//! The floating-point quotients themselves are computed by the caller, cell
//! by cell; everything the reducer decides — which index windows to read and
//! write, which cells carry no observations, and what the sentinel policy
//! overwrites — is here, and is stated over plain values, so the result of a
//! run is pinned for every batch size.

use vstd::prelude::*;

use crate::reverse::read_window;

verus! {

/// A fatal condition of one reversal or stats run; the caller logs the
/// dataset or group it belongs to and goes on with its siblings.
pub enum CoreError {
    /// A required input dataset does not exist.
    MissingInput,
    /// The accumulator datasets of one group disagree in length.
    SizeMismatch,
    /// The underlying store rejected a read or a write.
    IoFailure,
}

/// How many windows of at most `chunk` elements cover `total` elements.
pub open spec fn num_windows(total: int, chunk: int) -> int {
    (total + chunk - 1) / chunk
}

/// `ws` is exactly the sequence of half-open index windows that a batched
/// pass over `[0, total)` reads and writes: window `k` is
/// `[k * chunk, min(k * chunk + chunk, total))`.
pub open spec fn windows_exact(ws: Seq<(usize, usize)>, total: int, chunk: int) -> bool {
    &&& ws.len() == num_windows(total, chunk)
    &&& forall|k: int|
        0 <= k < ws.len() ==> (#[trigger] ws[k]).0 == k * chunk && ws[k].1 == if k * chunk + chunk
            <= total {
            k * chunk + chunk
        } else {
            total
        }
}

/// The half-open index windows of a batched pass over a dataset of `total`
/// elements, read and written `chunk` elements at a time.
pub fn batch_windows(total: usize, chunk: usize) -> (ws: Vec<(usize, usize)>)
    requires
        chunk >= 1,
    ensures
        windows_exact(ws@, total as int, chunk as int),
{
    let mut ws: Vec<(usize, usize)> = Vec::new();
    let mut ii: usize = 0;
    proof {
        assert(ws@.len() * chunk == 0) by (nonlinear_arith)
            requires
                ws@.len() == 0,
        ;
    }
    while ii < total
        invariant
            chunk >= 1,
            ii < total || ws@.len() == 0,
            ii == ws@.len() * chunk,
            ws@.len() >= 1 ==> (ws@.len() - 1) * chunk < total,
            forall|k: int|
                0 <= k < ws@.len() ==> (#[trigger] ws@[k]).0 == k * chunk && ws@[k].1 == if k
                    * chunk + chunk <= total {
                    k * chunk + chunk
                } else {
                    total as int
                },
        decreases total - ii,
    {
        let hi: usize = if chunk < total - ii {
            ii + chunk
        } else {
            total
        };
        ws.push((ii, hi));
        proof {
            assert((ws@.len() - 1) * chunk == ii as int - chunk + chunk) by (nonlinear_arith)
                requires
                    ii == (ws@.len() - 1) * chunk,
            ;
            assert(ws@.len() * chunk == ii + chunk) by (nonlinear_arith)
                requires
                    ii == (ws@.len() - 1) * chunk,
            ;
        }
        if hi == total {
            proof {
                let n = ws@.len() as int;
                assert(num_windows(total as int, chunk as int) == n) by (nonlinear_arith)
                    requires
                        chunk >= 1,
                        (n - 1) * chunk < total,
                        total <= n * chunk,
                ;
            }
            return ws;
        }
        ii = ii + chunk;
    }
    proof {
        assert(total == 0);
        assert(num_windows(0, chunk as int) == 0) by (nonlinear_arith)
            requires
                chunk >= 1,
        ;
    }
    ws
}

/// Which window of a batched pass an index lands in: index `i` is read and
/// written by window `i / chunk` and by no other.
pub proof fn lemma_batch_windows_cover(ws: Seq<(usize, usize)>, total: int, chunk: int, i: int)
    requires
        chunk >= 1,
        windows_exact(ws, total, chunk),
        0 <= i < total,
    ensures
        0 <= i / chunk < ws.len(),
        ws[i / chunk].0 <= i < ws[i / chunk].1,
        forall|k: int| 0 <= k < ws.len() && k != i / chunk ==> !((#[trigger] ws[k]).0 <= i < ws[k].1),
{
    let q = i / chunk;
    assert(q * chunk <= i < q * chunk + chunk && 0 <= q) by (nonlinear_arith)
        requires
            chunk >= 1,
            0 <= i,
            q == i / chunk,
    ;
    assert(q < num_windows(total, chunk)) by (nonlinear_arith)
        requires
            chunk >= 1,
            0 <= q,
            q * chunk <= i < total,
    ;
    assert forall|k: int| 0 <= k < ws.len() && k != q implies !((#[trigger] ws[k]).0 <= i < ws[k].1) by {
        assert(k < q ==> k * chunk + chunk <= q * chunk) by (nonlinear_arith)
            requires
                chunk >= 1,
        ;
        assert(k > q ==> q * chunk + chunk <= k * chunk) by (nonlinear_arith)
            requires
                chunk >= 1,
        ;
    }
}

/// Mark the cells with zero observations.  The mask is taken from the raw
/// unsigned counts, before any conversion of the counts for arithmetic, so
/// no division artifact can lose the zero condition.
pub fn zero_mask(counts: &Vec<u8>) -> (m: Vec<bool>)
    ensures
        m@.len() == counts@.len(),
        forall|i: int| 0 <= i < counts@.len() ==> m@[i] == (counts@[i] == 0),
{
    let n: usize = counts.len();
    let mut m: Vec<bool> = Vec::new();
    let mut i: usize = 0;
    while i < n
        invariant
            n == counts@.len(),
            i <= n,
            m@.len() == i,
            forall|k: int| 0 <= k < i ==> m@[k] == (counts@[k] == 0),
        decreases n - i,
    {
        m.push(counts[i] == 0);
        i = i + 1;
    }
    m
}

/// Overwrite with `sentinel` every value whose mask bit is set, and keep
/// every other value exactly as it came in.  Wherever the mask is set the
/// output equals the sentinel whatever the incoming value was, so an
/// undefined quotient can never reach a masked cell of the output.
pub fn apply_sentinel<T: Copy>(vals: &Vec<T>, mask: &Vec<bool>, sentinel: T) -> (out: Vec<T>)
    requires
        vals@.len() == mask@.len(),
    ensures
        out@.len() == vals@.len(),
        forall|i: int|
            0 <= i < vals@.len() ==> out@[i] == if mask@[i] {
                sentinel
            } else {
                vals@[i]
            },
{
    let n: usize = vals.len();
    let mut out: Vec<T> = Vec::new();
    let mut i: usize = 0;
    while i < n
        invariant
            n == vals@.len(),
            vals@.len() == mask@.len(),
            i <= n,
            out@.len() == i,
            forall|k: int|
                0 <= k < i ==> out@[k] == if mask@[k] {
                    sentinel
                } else {
                    vals@[k]
                },
        decreases n - i,
    {
        if mask[i] {
            out.push(sentinel);
        } else {
            out.push(vals[i]);
        }
        i = i + 1;
    }
    out
}

/// The sentinel pass of the reducer as it runs against the store: the
/// standard-deviation values and the raw counts are read window by window,
/// each window is masked on its own, and the windows are written back in
/// order.  The result equals the unbatched pass for every batch size.
pub fn apply_sentinel_batched<T: Copy>(
    vals: &Vec<T>,
    counts: &Vec<u8>,
    sentinel: T,
    chunk: usize,
) -> (out: Vec<T>)
    requires
        vals@.len() == counts@.len(),
        chunk >= 1,
    ensures
        out@.len() == vals@.len(),
        forall|i: int|
            0 <= i < vals@.len() ==> out@[i] == if counts@[i] == 0 {
                sentinel
            } else {
                vals@[i]
            },
{
    let total: usize = vals.len();
    let ws = batch_windows(total, chunk);
    let nw: usize = ws.len();
    proof {
        assert(nw == 0 ==> total == 0) by (nonlinear_arith)
            requires
                chunk >= 1,
                total >= 0,
                nw == num_windows(total as int, chunk as int),
        ;
    }
    let mut out: Vec<T> = Vec::new();
    let mut k: usize = 0;
    while k < nw
        invariant
            total == vals@.len(),
            vals@.len() == counts@.len(),
            chunk >= 1,
            windows_exact(ws@, total as int, chunk as int),
            nw == ws@.len(),
            k <= nw,
            out@.len() == if k < nw {
                ws@[k as int].0 as int
            } else {
                total as int
            },
            forall|i: int|
                0 <= i < out@.len() ==> out@[i] == if counts@[i] == 0 {
                    sentinel
                } else {
                    vals@[i]
                },
        decreases nw - k,
    {
        let lo = ws[k].0;
        let hi = ws[k].1;
        proof {
            assert(lo == k * chunk);
            assert(k * chunk < total) by (nonlinear_arith)
                requires
                    chunk >= 1,
                    0 <= k,
                    k < num_windows(total as int, chunk as int),
            ;
            assert(lo <= hi <= total);
            if k + 1 < nw {
                assert(ws@[k + 1].0 == (k + 1) * chunk);
                assert((k + 1) * chunk == k * chunk + chunk) by (nonlinear_arith);
                assert((k + 1) * chunk < total) by (nonlinear_arith)
                    requires
                        chunk >= 1,
                        0 <= k,
                        k + 1 < num_windows(total as int, chunk as int),
                ;
                assert(hi == ws@[k + 1].0 as int);
            } else {
                assert(k * chunk + chunk >= total) by (nonlinear_arith)
                    requires
                        chunk >= 1,
                        total >= 1,
                        k + 1 == num_windows(total as int, chunk as int),
                ;
                assert(hi == total);
            }
        }
        let sd_win = read_window(vals, lo, hi);
        let count_win = read_window(counts, lo, hi);
        let mask = zero_mask(&count_win);
        let mut masked = apply_sentinel(&sd_win, &mask, sentinel);
        out.append(&mut masked);
        k = k + 1;
    }
    proof {
        if nw == 0 {
            assert(num_windows(total as int, chunk as int) >= 1 || total == 0)
                by (nonlinear_arith)
                requires
                    chunk >= 1,
                    total >= 0,
            ;
        }
    }
    out
}

/// What a guarded stats run decides to do.
pub enum StatsPlan {
    /// The mean output already exists: the whole computation is skipped and
    /// the existing outputs are left exactly as they were.
    AlreadyDone,
    /// The index windows to process, in order.
    Compute(Vec<(usize, usize)>),
}

/// Decide one mean / standard-deviation run: skip it when its output is
/// already there, reject accumulator datasets that disagree in length, and
/// otherwise fix the exact batch windows of the pass.
pub fn plan_mean_sd(
    mean_exists: bool,
    sum_len: usize,
    sumsq_len: usize,
    count_len: usize,
    chunk: usize,
) -> (r: Result<StatsPlan, CoreError>)
    requires
        chunk >= 1,
    ensures
        mean_exists ==> r == Ok::<StatsPlan, CoreError>(StatsPlan::AlreadyDone),
        !mean_exists && !(sum_len == sumsq_len && sum_len == count_len) ==> r == Err::<
            StatsPlan,
            CoreError,
        >(CoreError::SizeMismatch),
        !mean_exists && sum_len == sumsq_len && sum_len == count_len ==> (r matches Ok(
            StatsPlan::Compute(ws),
        ) && windows_exact(ws@, sum_len as int, chunk as int)),
{
    if mean_exists {
        return Ok(StatsPlan::AlreadyDone);
    }
    if sum_len != sumsq_len || sum_len != count_len {
        return Err(CoreError::SizeMismatch);
    }
    Ok(StatsPlan::Compute(batch_windows(sum_len, chunk)))
}

} // verus!
