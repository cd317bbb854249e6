use bindless::num::{div_ceil_u32, div_ceil_u64, low_u32};

/// Workgroup ceil-div: (n + 255) / 256 must match the dispatch sizing used throughout.
#[test]
fn workgroup_ceil_div_rounds_up_correctly() {
    assert_eq!(div_ceil_u32(256, 256), 1); // exact multiple
    assert_eq!(div_ceil_u32(257, 256), 2); // one over
    assert_eq!(div_ceil_u32(1, 256), 1); // minimum
    assert_eq!(div_ceil_u32(512, 256), 2); // exact double
    assert_eq!((256 + 255) / 256, 1);
    assert_eq!((257 + 255) / 256, 2);
    assert_eq!((1 + 255) / 256, 1);
    assert_eq!((512 + 255) / 256, 2);
}

/// RoPE softmax temperature denominator: sum of exp-shifted values for a 3-element slice.
#[test]
fn softmax_sum_is_positive_finite() {
    let logits = [1.0_f32, 2.0, 3.0];
    let max_val = logits.iter().cloned().fold(f32::NEG_INFINITY, f32::max);
    let sum: f32 = logits.iter().map(|x| (x - max_val).exp()).sum();
    assert!(sum.is_finite() && sum > 0.0);
}

/// KV cache ring index: position modulo context length stays in bounds.
#[test]
fn kv_cache_ring_index_wraps_within_bounds() {
    let ctx = 2048_usize;
    for pos in [0, 1, ctx - 1, ctx, ctx + 1, ctx * 2] {
        let idx = pos % ctx;
        assert!(idx < ctx, "ring index {idx} out of bounds for ctx={ctx}");
    }
}

#[test]
fn test_rope_formula() {
    // For each (real, imag) pair at dimension (2i, 2i+1):
    //   theta_i = base^(-2i/dim) where base=10000, dim=head_dim=64
    //   angle = position * theta_i
    //   new_real = real * cos(angle) - imag * sin(angle)
    //   new_imag = real * sin(angle) + imag * cos(angle)
    let head_dim = 64;
    let base = 10000.0f32;

    // Test position 1, pair 0 (dimensions 0,1)
    let pair_idx = 0;
    let theta = base.powf(-2.0 * pair_idx as f32 / head_dim as f32);
    let position = 1;
    let angle = position as f32 * theta;

    println!("Pair {}, Position {}:", pair_idx, position);
    println!("  theta = {:.10}", theta);
    println!("  angle = {:.10}", angle);

    // Example values before RoPE
    let real = 0.5f32;
    let imag = 0.3f32;

    let new_real = real * angle.cos() - imag * angle.sin();
    let new_imag = real * angle.sin() + imag * angle.cos();

    // Verify inverse (should recover original with -angle)
    let recovered_real = new_real * angle.cos() + new_imag * angle.sin();
    let recovered_imag = -new_real * angle.sin() + new_imag * angle.cos();

    assert!(
        (recovered_real - real).abs() < 1e-6,
        "RoPE inverse failed (real)"
    );
    assert!(
        (recovered_imag - imag).abs() < 1e-6,
        "RoPE inverse failed (imag)"
    );
}

#[test]
fn groups_cover_all_items_and_no_group_is_idle() {
    assert_eq!(div_ceil_u32(0, 64), 0);
    assert_eq!(div_ceil_u32(63, 64), 1);
    assert_eq!(div_ceil_u32(65, 64), 2);
    assert_eq!(div_ceil_u32(u32::MAX, 1), u32::MAX);
    assert_eq!(div_ceil_u64(8_000_000_001, 1_000_000_000), 9);
    assert_eq!(div_ceil_u64(u64::MAX, 2), 1 << 63);
}

#[test]
fn only_the_low_word_is_kept() {
    assert_eq!(low_u32(0x1_0000_0005), 5);
    assert_eq!(low_u32(0xFFFF_FFFF), u32::MAX);
    assert_eq!(low_u32(0x1234_5678_9ABC_DEF0), 0x9ABC_DEF0);
}
