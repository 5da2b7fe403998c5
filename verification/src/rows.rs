//! Row-order reversal of a flat, row-major 2D array held in a single buffer.
//!
//! An array of `rows` rows of `width` elements is stored as one sequence of
//! `rows * width` elements; element `i` lies in row `i / width`, column
//! `i % width`.  Reversing the row order moves row `r` to row
//! `rows - 1 - r` while keeping the columns of each row in place.

use vstd::prelude::*;

verus! {

/// Source index, in a flat row-major array of `rows` rows of `width`
/// elements, of element `i` of the row-reversed array.
pub open spec fn row_rev_idx(i: int, rows: int, width: int) -> int {
    (rows - 1 - i / width) * width + i % width
}

/// The row-reversed image of a flat row-major array of `rows` rows of
/// `width` elements.
pub open spec fn row_rev_seq<T>(s: Seq<T>, rows: int, width: int) -> Seq<T> {
    Seq::new((rows * width) as nat, |i: int| s[row_rev_idx(i, rows, width)])
}

/// Dividing a flat row-major index back into its row and column:
/// `r * width + c` lies in row `r`, column `c`.
pub proof fn lemma_flat_index(r: int, c: int, width: int)
    by (nonlinear_arith)
    requires
        0 <= r,
        0 <= c < width,
    ensures
        (r * width + c) / width == r,
        (r * width + c) % width == c,
{
}

/// A flat index of an array of `rows` rows lies in a row below `rows`.
pub proof fn lemma_flat_bounds(i: int, rows: int, width: int)
    by (nonlinear_arith)
    requires
        0 < width,
        0 <= i < rows * width,
    ensures
        0 <= i / width < rows,
        0 <= i % width < width,
        i == (i / width) * width + i % width,
{
}

/// The source index of the row-reversed array is again a valid flat index.
pub proof fn lemma_row_rev_idx_bounds(i: int, rows: int, width: int)
    requires
        0 < width,
        0 <= i < rows * width,
    ensures
        0 <= row_rev_idx(i, rows, width) < rows * width,
        row_rev_idx(i, rows, width) / width == rows - 1 - i / width,
        row_rev_idx(i, rows, width) % width == i % width,
{
    lemma_flat_bounds(i, rows, width);
    lemma_flat_index(rows - 1 - i / width, i % width, width);
    assert(0 <= (rows - 1 - i / width) * width + i % width < rows * width)
        by (nonlinear_arith)
        requires
            0 < width,
            0 <= i / width < rows,
            0 <= i % width < width,
    ;
}

/// Reversing the row order twice restores the array exactly.
pub proof fn lemma_row_rev_involution<T>(s: Seq<T>, rows: int, width: int)
    requires
        0 <= rows,
        0 <= width,
        s.len() == rows * width,
    ensures
        row_rev_seq(row_rev_seq(s, rows, width), rows, width) == s,
{
    if width == 0 {
        assert(rows * width == 0) by (nonlinear_arith)
            requires
                width == 0,
        ;
        assert(row_rev_seq(row_rev_seq(s, rows, width), rows, width) =~= s);
    } else {
        let inner = row_rev_seq(s, rows, width);
        assert forall|i: int| 0 <= i < rows * width implies row_rev_seq(
            inner,
            rows,
            width,
        )[i] == s[i] by {
            lemma_row_rev_idx_bounds(i, rows, width);
            let j = row_rev_idx(i, rows, width);
            lemma_row_rev_idx_bounds(j, rows, width);
            assert(row_rev_idx(j, rows, width) == (i / width) * width + i % width);
            lemma_flat_bounds(i, rows, width);
        }
        assert(row_rev_seq(row_rev_seq(s, rows, width), rows, width) =~= s);
    }
}

/// Reverse the row order of a flat row-major batch of `nrows` rows of
/// `ncols` elements, by explicit index arithmetic over the flat buffer.
pub fn rev_array<T: Copy>(input: &Vec<T>, nrows: usize, ncols: usize) -> (out: Vec<T>)
    requires
        input@.len() == nrows * ncols,
    ensures
        out@ == row_rev_seq(input@, nrows as int, ncols as int),
{
    let total: usize = input.len();
    let mut out: Vec<T> = Vec::new();
    let mut i: usize = 0;
    while i < total
        invariant
            total == input@.len(),
            input@.len() == nrows * ncols,
            i <= total,
            out@.len() == i,
            forall|k: int|
                0 <= k < i ==> out@[k] == row_rev_seq(input@, nrows as int, ncols as int)[k],
        decreases total - i,
    {
        proof {
            assert(ncols > 0) by (nonlinear_arith)
                requires
                    i < nrows * ncols,
                    0 <= i,
            ;
            lemma_row_rev_idx_bounds(i as int, nrows as int, ncols as int);
            lemma_flat_bounds(i as int, nrows as int, ncols as int);
        }
        let rr: usize = i / ncols;
        let cc: usize = i % ncols;
        let src: usize = (nrows - 1 - rr) * ncols + cc;
        out.push(input[src]);
        i = i + 1;
    }
    proof {
        assert(out@ =~= row_rev_seq(input@, nrows as int, ncols as int));
    }
    out
}

} // verus!
