use rasterstream::reverse::{mirror_pair, reverse_dataset, reverse_ds_rows, ReverseOutcome};
use rasterstream::rows::rev_array;

#[test]
fn rev_array_reverses_batch_rows() {
    let input: Vec<u8> = vec![1, 2, 3, 4, 5, 6];
    let out = rev_array(&input, 2, 3);
    assert_eq!(out, vec![4, 5, 6, 1, 2, 3]);
}

#[test]
fn rev_array_single_row_is_identity() {
    let input: Vec<u8> = vec![7, 8, 9];
    let out = rev_array(&input, 1, 3);
    assert_eq!(out, vec![7, 8, 9]);
}

#[test]
fn odd_height_places_middle_row_once() {
    // height = 5, width = 2: the middle row [5, 6] must stay in place,
    // neither duplicated nor dropped.
    let input: Vec<u8> = vec![1, 2, 3, 4, 5, 6, 7, 8, 9, 10];
    let out = reverse_ds_rows(&input, 5, 2, 100);
    assert_eq!(out, vec![9, 10, 7, 8, 5, 6, 3, 4, 1, 2]);
}

#[test]
fn even_height_reversal() {
    let input: Vec<u16> = vec![1, 2, 3, 4, 5, 6, 7, 8];
    let out = reverse_ds_rows(&input, 4, 2, 1);
    assert_eq!(out, vec![7, 8, 5, 6, 3, 4, 1, 2]);
}

#[test]
fn reversal_involution_bytes() {
    let input: Vec<u8> = (0..60).collect();
    let once = reverse_ds_rows(&input, 12, 5, 4);
    let twice = reverse_ds_rows(&once, 12, 5, 4);
    assert_eq!(twice, input);
}

#[test]
fn reversal_involution_floats_bit_for_bit() {
    // pure data movement: floats come back bit-identical, NaN included
    let input: Vec<f32> = vec![1.5, -0.0, f32::NAN, f32::INFINITY, 2.5e-38, -3.25];
    let once = reverse_ds_rows(&input, 3, 2, 1);
    let twice = reverse_ds_rows(&once, 3, 2, 1);
    let input_bits: Vec<u32> = input.iter().map(|x| x.to_bits()).collect();
    let twice_bits: Vec<u32> = twice.iter().map(|x| x.to_bits()).collect();
    assert_eq!(twice_bits, input_bits);
}

#[test]
fn batch_size_invariance() {
    let input: Vec<u8> = (0..70).collect();
    // height 7, width 10: batch sizes 1, 3 and the full half-height
    let a = reverse_ds_rows(&input, 7, 10, 1);
    let b = reverse_ds_rows(&input, 7, 10, 3);
    let c = reverse_ds_rows(&input, 7, 10, 4);
    let d = reverse_ds_rows(&input, 7, 10, 100);
    assert_eq!(a, b);
    assert_eq!(b, c);
    assert_eq!(c, d);
}

#[test]
fn empty_dataset_reversal() {
    let input: Vec<u8> = vec![];
    let out = reverse_ds_rows(&input, 0, 7, 10);
    assert!(out.is_empty());
}

#[test]
fn single_column_reversal() {
    let input: Vec<u8> = vec![1, 2, 3, 4, 5];
    let out = reverse_ds_rows(&input, 5, 1, 2);
    assert_eq!(out, vec![5, 4, 3, 2, 1]);
}

#[test]
fn mirror_pair_windows() {
    // height 5, width 2, batch 3: forward rows [0, 3), mirror rows [2, 5)
    let p = mirror_pair(0, 5, 2, 3);
    assert_eq!(p.rows, 3);
    assert_eq!((p.lo, p.hi), (0, 6));
    assert_eq!((p.rev_lo, p.rev_hi), (4, 10));
}

#[test]
fn mirror_pair_last_partial_batch() {
    // height 10, batch 3: the batch at row 3 shrinks to the 2 rows left
    let p = mirror_pair(3, 10, 4, 3);
    assert_eq!(p.rows, 2);
    assert_eq!((p.lo, p.hi), (12, 20));
    assert_eq!((p.rev_lo, p.rev_hi), (20, 28));
}

#[test]
fn guard_rejects_already_reversed_source() {
    let input: Vec<u8> = vec![1, 2, 3, 4];
    let r = reverse_dataset("sum_rev", false, &input, 2, 2, 1);
    assert!(matches!(r, ReverseOutcome::SourceAlreadyReversed));
}

#[test]
fn guard_skips_existing_output() {
    let input: Vec<u8> = vec![1, 2, 3, 4];
    let r = reverse_dataset("sum", true, &input, 2, 2, 1);
    assert!(matches!(r, ReverseOutcome::AlreadyDone));
}

#[test]
fn guard_writes_when_output_missing() {
    let input: Vec<u8> = vec![1, 2, 3, 4];
    let r = reverse_dataset("sum", false, &input, 2, 2, 1);
    match r {
        ReverseOutcome::Written(v) => assert_eq!(v, vec![3, 4, 1, 2]),
        _ => panic!("expected a written output"),
    }
}
