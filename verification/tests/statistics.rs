use rasterstream::stats::{
    apply_sentinel, apply_sentinel_batched, batch_windows, plan_mean_sd, zero_mask, CoreError,
    StatsPlan,
};

#[test]
fn batch_windows_partial_tail() {
    assert_eq!(batch_windows(10, 3), vec![(0, 3), (3, 6), (6, 9), (9, 10)]);
}

#[test]
fn batch_windows_exact_multiple() {
    assert_eq!(batch_windows(6, 3), vec![(0, 3), (3, 6)]);
}

#[test]
fn batch_windows_single_window() {
    assert_eq!(batch_windows(5, 10), vec![(0, 5)]);
}

#[test]
fn batch_windows_empty_dataset() {
    assert_eq!(batch_windows(0, 5), vec![]);
}

#[test]
fn batch_windows_match_across_chunk_sizes() {
    // a pass over 2,500,000 elements in batches of 1,000,000 touches the
    // same index space as a single batch
    let small = batch_windows(2_500_000, 1_000_000);
    assert_eq!(
        small,
        vec![(0, 1_000_000), (1_000_000, 2_000_000), (2_000_000, 2_500_000)]
    );
    let whole = batch_windows(2_500_000, 2_500_000);
    assert_eq!(whole, vec![(0, 2_500_000)]);
    assert_eq!(small.last().unwrap().1, whole.last().unwrap().1);
}

#[test]
fn zero_mask_marks_only_zero_counts() {
    let counts: Vec<u8> = vec![0, 1, 255, 0, 4];
    assert_eq!(zero_mask(&counts), vec![true, false, false, true, false]);
}

#[test]
fn sentinel_overwrites_masked_cells_exactly() {
    let vals: Vec<f32> = vec![f32::NAN, 1.2909944, f32::INFINITY, 0.5];
    let mask = vec![true, false, true, false];
    let out = apply_sentinel(&vals, &mask, -1.0f32);
    assert_eq!(out[0].to_bits(), (-1.0f32).to_bits());
    assert_eq!(out[1], 1.2909944);
    assert_eq!(out[2].to_bits(), (-1.0f32).to_bits());
    assert_eq!(out[3], 0.5);
}

#[test]
fn zero_count_cells_never_leak_nan() {
    // count == 0 must yield exactly -1 in the sd output, whatever the
    // division produced for that cell
    let sd_raw: Vec<f32> = vec![f32::NAN, f32::NEG_INFINITY, 0.25];
    let counts: Vec<u8> = vec![0, 0, 2];
    let out = apply_sentinel_batched(&sd_raw, &counts, -1.0f32, 2);
    assert_eq!(out[0], -1.0);
    assert_eq!(out[1], -1.0);
    assert_eq!(out[2], 0.25);
    assert!(out.iter().all(|x| !x.is_nan() && x.is_finite()));
}

#[test]
fn sentinel_pass_is_batch_size_invariant() {
    let sd_raw: Vec<f32> = (0..25).map(|i| i as f32 * 0.5).collect();
    let counts: Vec<u8> = (0..25).map(|i| (i % 3) as u8).collect();
    let mask = zero_mask(&counts);
    let unbatched = apply_sentinel(&sd_raw, &mask, -1.0f32);
    for chunk in [1usize, 3, 7, 25, 100] {
        let batched = apply_sentinel_batched(&sd_raw, &counts, -1.0f32, chunk);
        let a: Vec<u32> = batched.iter().map(|x| x.to_bits()).collect();
        let b: Vec<u32> = unbatched.iter().map(|x| x.to_bits()).collect();
        assert_eq!(a, b);
    }
}

#[test]
fn plan_skips_when_mean_output_exists() {
    let r = plan_mean_sd(true, 10, 10, 10, 4);
    assert!(matches!(r, Ok(StatsPlan::AlreadyDone)));
}

#[test]
fn plan_rejects_size_mismatch() {
    let r = plan_mean_sd(false, 10, 11, 10, 4);
    assert!(matches!(r, Err(CoreError::SizeMismatch)));
    let r = plan_mean_sd(false, 10, 10, 9, 4);
    assert!(matches!(r, Err(CoreError::SizeMismatch)));
}

#[test]
fn plan_fixes_the_batch_windows() {
    match plan_mean_sd(false, 10, 10, 10, 4) {
        Ok(StatsPlan::Compute(ws)) => assert_eq!(ws, vec![(0, 4), (4, 8), (8, 10)]),
        _ => panic!("expected a compute plan"),
    }
}
