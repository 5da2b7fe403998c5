//! Chunked row-order reversal of a dataset too large to hold in memory.
//!
//! The array is processed as mirrored pairs of chunk windows: a forward
//! window of `rows` rows starting at row `yy` and its mirror window at the
//! opposite end of the array.  Each window is read, row-reversed within the
//! batch, and written to the other window's position, so one pass over the
//! first `ceil(height / 2)` rows reverses the whole array.

use vstd::prelude::*;

use crate::names::has_suffix;
use crate::names::ends_with_rev;
use crate::names::rev_suffix;
use crate::rows::lemma_flat_bounds;
use crate::rows::lemma_flat_index;
use crate::rows::lemma_row_rev_idx_bounds;
use crate::rows::rev_array;
use crate::rows::row_rev_idx;
use crate::rows::row_rev_seq;

verus! {

/// Number of leading rows that one half-pass must visit: `ceil(height / 2)`.
pub open spec fn half_rows(height: int) -> int {
    height / 2 + height % 2
}

/// A mirrored pair of chunk windows over the flat index space: the forward
/// window `[lo, hi)` holds `rows` rows starting at row `yy`; the mirror
/// window `[rev_lo, rev_hi)` holds the `rows` rows ending at row
/// `height - yy`.
pub struct MirrorPair {
    /// Rows in each of the two windows.
    pub rows: usize,
    /// Start of the forward window, in flat elements.
    pub lo: usize,
    /// End of the forward window, in flat elements.
    pub hi: usize,
    /// Start of the mirror window, in flat elements.
    pub rev_lo: usize,
    /// End of the mirror window, in flat elements.
    pub rev_hi: usize,
}

/// Compute the mirrored pair of chunk windows for the batch that starts at
/// row `yy`, in an array of `height` rows of `width` elements, reading at
/// most `batch` rows per window.
pub fn mirror_pair(yy: usize, height: usize, width: usize, batch: usize) -> (p: MirrorPair)
    requires
        batch >= 1,
        yy < half_rows(height as int),
        height * width <= usize::MAX,
    ensures
        p.rows == if batch <= half_rows(height as int) - yy {
            batch as int
        } else {
            half_rows(height as int) - yy
        },
        1 <= p.rows,
        yy + p.rows <= half_rows(height as int),
        2 * yy + p.rows <= height,
        p.lo == yy * width,
        p.hi == (yy + p.rows) * width,
        p.rev_lo == (height - yy - p.rows) * width,
        p.rev_hi == (height - yy) * width,
        p.lo <= p.hi <= p.rev_hi <= height * width,
        p.lo <= p.rev_lo <= p.rev_hi,
{
    let half: usize = height / 2 + height % 2;
    let rows: usize = if batch <= half - yy {
        batch
    } else {
        half - yy
    };
    proof {
        assert(2 * yy + rows <= height);
        assert(yy * width <= height * width && (yy + rows) * width <= (height - yy) * width
            && (height - yy - rows) * width <= (height - yy) * width && (height - yy) * width
            <= height * width) by (nonlinear_arith)
            requires
                0 <= yy,
                0 <= width,
                1 <= rows,
                yy + rows <= height,
                2 * yy + rows <= height,
        ;
        assert(yy * width <= (yy + rows) * width && yy * width <= (height - yy - rows) * width)
            by (nonlinear_arith)
            requires
                0 <= yy,
                0 <= width,
                1 <= rows,
                2 * yy + rows <= height,
        ;
    }
    let lo: usize = yy * width;
    let hi: usize = (yy + rows) * width;
    let rev_lo: usize = (height - yy - rows) * width;
    let rev_hi: usize = (height - yy) * width;
    MirrorPair { rows, lo, hi, rev_lo, rev_hi }
}

/// Copy the window `[lo, hi)` of a flat dataset into a fresh buffer:
/// the single read of one chunked I/O round trip.
pub fn read_window<T: Copy>(data: &Vec<T>, lo: usize, hi: usize) -> (out: Vec<T>)
    requires
        lo <= hi <= data@.len(),
    ensures
        out@ == data@.subrange(lo as int, hi as int),
{
    let mut out: Vec<T> = Vec::new();
    let mut j: usize = lo;
    while j < hi
        invariant
            lo <= j <= hi <= data@.len(),
            out@ == data@.subrange(lo as int, j as int),
        decreases hi - j,
    {
        out.push(data[j]);
        proof {
            assert(out@ =~= data@.subrange(lo as int, j + 1));
        }
        j = j + 1;
    }
    out
}

/// Overwrite the window starting at `lo` of a flat dataset with the whole
/// of `buf`: the single write of one chunked I/O round trip.
pub fn write_window<T: Copy>(data: &mut Vec<T>, lo: usize, buf: &Vec<T>)
    requires
        lo + buf@.len() <= old(data)@.len(),
    ensures
        final(data)@.len() == old(data)@.len(),
        forall|k: int| lo <= k < lo + buf@.len() ==> final(data)@[k] == buf@[k - lo],
        forall|k: int|
            0 <= k < old(data)@.len() && !(lo <= k < lo + buf@.len()) ==> final(data)@[k] == old(
                data,
            )@[k],
{
    let n: usize = buf.len();
    let dlen: usize = data.len();
    let mut j: usize = 0;
    while j < n
        invariant
            n == buf@.len(),
            dlen == data@.len(),
            lo + n <= data@.len(),
            j <= n,
            data@.len() == old(data)@.len(),
            forall|k: int| lo <= k < lo + j ==> data@[k] == buf@[k - lo],
            forall|k: int|
                0 <= k < old(data)@.len() && !(lo <= k < lo + j) ==> data@[k] == old(data)@[k],
        decreases n - j,
    {
        data[lo + j] = buf[j];
        j = j + 1;
    }
}

/// The content that a window of whole rows holds, row-reversed within the
/// batch, equals the row-reversed image of the whole array over the mirror
/// window's position: the heart of the cross-write step.
proof fn lemma_window_rev_maps<T>(s: Seq<T>, height: int, width: int, a: int, rows: int, t: int)
    requires
        0 < width,
        0 <= a,
        1 <= rows,
        a + rows <= height,
        s.len() == height * width,
        0 <= t < rows * width,
    ensures
        row_rev_seq(s.subrange(a * width, (a + rows) * width), rows, width)[t] == row_rev_seq(
            s,
            height,
            width,
        )[(height - a - rows) * width + t],
{
    assert(0 <= a * width && a * width <= (a + rows) * width && (a + rows) * width <= height
        * width) by (nonlinear_arith)
        requires
            0 <= a,
            1 <= rows,
            a + rows <= height,
            0 < width,
    ;
    let sub = s.subrange(a * width, (a + rows) * width);
    assert(sub.len() == rows * width) by (nonlinear_arith)
        requires
            sub.len() == (a + rows) * width - a * width,
    ;
    lemma_flat_bounds(t, rows, width);
    lemma_row_rev_idx_bounds(t, rows, width);
    let q = t / width;
    let r = t % width;
    let rri = row_rev_idx(t, rows, width);
    assert(sub[rri] == s[a * width + rri]);
    let d = (height - a - rows) * width + t;
    assert(d == (height - a - rows + q) * width + r) by (nonlinear_arith)
        requires
            t == q * width + r,
            d == (height - a - rows) * width + t,
    ;
    lemma_flat_index(height - a - rows + q, r, width);
    assert(d / width == height - a - rows + q && d % width == r);
    assert(0 <= d < height * width) by (nonlinear_arith)
        requires
            0 <= a,
            1 <= rows,
            a + rows <= height,
            0 < width,
            0 <= t < rows * width,
            d == (height - a - rows) * width + t,
    ;
    assert(row_rev_idx(d, height, width) == (a + rows - 1 - q) * width + r);
    assert(a * width + rri == (a + rows - 1 - q) * width + r) by (nonlinear_arith)
        requires
            rri == (rows - 1 - q) * width + r,
    ;
}

/// Reverse the row order of a flat row-major dataset of `height` rows of
/// `width` elements, reading and writing mirrored chunk windows of at most
/// `batch` rows, exactly as the streaming pass does against the store.
///
/// The result is pinned to `row_rev_seq` of the input alone, so every batch
/// size produces the same output.
pub fn reverse_ds_rows<T: Copy>(input: &Vec<T>, height: usize, width: usize, batch: usize) -> (out:
    Vec<T>)
    requires
        input@.len() == height * width,
        batch >= 1,
    ensures
        out@ == row_rev_seq(input@, height as int, width as int),
{
    let ghost rev = row_rev_seq(input@, height as int, width as int);
    let total: usize = input.len();
    // the output dataset, created at the input's total size; its initial
    // contents do not matter, since the mirrored pass overwrites every element
    let mut out: Vec<T> = read_window(input, 0, total);
    proof {
        assert(out@ =~= input@);
    }
    let half: usize = height / 2 + height % 2;
    let mut yy: usize = 0;
    while yy < half
        invariant
            total == input@.len(),
            input@.len() == height * width,
            half == half_rows(height as int),
            rev == row_rev_seq(input@, height as int, width as int),
            batch >= 1,
            yy <= half,
            out@.len() == total,
            forall|k: int| 0 <= k < yy * width ==> out@[k] == rev[k],
            forall|k: int| (height - yy) * width <= k < total ==> out@[k] == rev[k],
        decreases half - yy,
    {
        let p = mirror_pair(yy, height, width, batch);
        let rows = p.rows;
        let fwd = read_window(input, p.lo, p.hi);
        let mir = read_window(input, p.rev_lo, p.rev_hi);
        proof {
            assert(p.hi - p.lo == rows * width && p.rev_hi - p.rev_lo == rows * width)
                by (nonlinear_arith)
                requires
                    p.lo == yy * width,
                    p.hi == (yy + rows) * width,
                    p.rev_lo == (height - yy - rows) * width,
                    p.rev_hi == (height - yy) * width,
            ;
        }
        let fwd_rev = rev_array(&fwd, rows, width);
        let mir_rev = rev_array(&mir, rows, width);
        let ghost out_before = out@;
        write_window(&mut out, p.lo, &mir_rev);
        let ghost out_mid = out@;
        write_window(&mut out, p.rev_lo, &fwd_rev);
        proof {
            let h = height as int;
            let w = width as int;
            let rs = rows as int;
            let y = yy as int;
            if width > 0 {
                // the mirror window, row-reversed, is the reversed image over
                // the forward window, and the other way round
                assert forall|t: int| 0 <= t < rs * w implies mir_rev@[t] == rev[p.lo + t] by {
                    lemma_window_rev_maps(input@, h, w, h - y - rs, rs, t);
                }
                assert forall|t: int| 0 <= t < rs * w implies fwd_rev@[t] == rev[p.rev_lo + t] by {
                    lemma_window_rev_maps(input@, h, w, y, rs, t);
                }
            }
            // after both cross-writes, both windows hold the reversed image
            assert forall|k: int| p.rev_lo <= k < p.rev_hi implies out@[k] == rev[k] by {
                assert(out@[k] == fwd_rev@[k - p.rev_lo]);
            }
            assert forall|k: int| p.lo <= k < p.hi implies out@[k] == rev[k] by {
                if !(p.rev_lo <= k < p.rev_hi) {
                    assert(out@[k] == out_mid[k]);
                    assert(out_mid[k] == mir_rev@[k - p.lo]);
                }
            }
            // everything already settled lies outside both windows
            assert((yy + rows) * width <= (height - yy - rows) * width + rows * width)
                by (nonlinear_arith)
                requires
                    2 * yy + rows <= height,
                    0 <= width,
                    0 <= yy,
                    1 <= rows,
            ;
            assert forall|k: int|
                0 <= k < (yy + rows) * width || (height - yy - rows) * width <= k
                    < total implies out@[k] == rev[k] by {
                if k < yy * width || (height - yy) * width <= k {
                    assert(out_mid[k] == out_before[k]);
                    assert(out@[k] == out_mid[k]);
                }
            }
        }
        yy = yy + rows;
    }
    proof {
        assert((height - half_rows(height as int)) * width <= half_rows(height as int) * width)
            by (nonlinear_arith)
            requires
                0 <= height,
                0 <= width,
                height - half_rows(height as int) <= half_rows(height as int),
                half_rows(height as int) == height / 2 + height % 2,
        ;
        assert(out@ =~= rev);
    }
    out
}

/// What a guarded reversal run did.
pub enum ReverseOutcome<T> {
    /// The source name already carries the `_rev` suffix: reversing it again
    /// would undo the work, so the dataset is rejected untouched.
    SourceAlreadyReversed,
    /// The output dataset already exists: the run is skipped and the
    /// existing output is left exactly as it was.
    AlreadyDone,
    /// The freshly computed reversed dataset.
    Written(Vec<T>),
}

/// Reverse the row order of the named dataset unless the idempotency guards
/// short-circuit: a source that is itself a reversed output is rejected, and
/// an output that already exists is left untouched.
pub fn reverse_dataset<T: Copy>(
    base_ds: &str,
    output_exists: bool,
    input: &Vec<T>,
    height: usize,
    width: usize,
    batch: usize,
) -> (r: ReverseOutcome<T>)
    requires
        input@.len() == height * width,
        batch >= 1,
    ensures
        has_suffix(base_ds@, rev_suffix()) ==> r is SourceAlreadyReversed,
        !has_suffix(base_ds@, rev_suffix()) && output_exists ==> r is AlreadyDone,
        !has_suffix(base_ds@, rev_suffix()) && !output_exists ==> (r matches ReverseOutcome::Written(
            v,
        ) && v@ == row_rev_seq(input@, height as int, width as int)),
{
    if ends_with_rev(base_ds) {
        return ReverseOutcome::SourceAlreadyReversed;
    }
    if output_exists {
        return ReverseOutcome::AlreadyDone;
    }
    ReverseOutcome::Written(reverse_ds_rows(input, height, width, batch))
}

} // verus!
