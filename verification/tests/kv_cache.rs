use bindless::kv_cache::KVCache;

#[test]
fn test_kv_cache_allocation() {
    // TinyLlama 1.1B specs
    let n_layers = 22;
    let n_head_kv = 4; // GQA: 4 KV heads (32 Q heads share these)
    let head_dim = 64;
    let max_seq_len = 2048;

    let cache = KVCache::new(n_layers, n_head_kv, head_dim, max_seq_len);

    assert_eq!(
        cache.get_k_buffers().len(),
        22,
        "Should have 22 K buffers (one per layer)"
    );
    assert_eq!(
        cache.get_v_buffers().len(),
        22,
        "Should have 22 V buffers (one per layer)"
    );
    assert_eq!(cache.get_seq_len(), 0, "Initial seq_len should be 0");
    assert_eq!(cache.max_len(), 2048, "Max seq len should be 2048");

    // Per buffer: 2048 × 4 × 64 × 4 bytes (F32) = 2,097,152 bytes
    let buffer_size = max_seq_len * n_head_kv * head_dim * 4;
    let total_vram = buffer_size * (n_layers as u32) * 2; // K + V

    assert_eq!(cache.get_k_buffer(0).size, buffer_size as u64);
    assert_eq!(cache.get_v_buffer(0).size, buffer_size as u64);

    // Expected: ~88 MB for GQA (4 KV heads)
    let expected_mb = 88.0;
    let actual_mb = total_vram as f64 / 1_048_576.0;
    assert!(
        (actual_mb - expected_mb).abs() < 1.0,
        "Expected ~{:.0} MB, got {:.2} MB",
        expected_mb,
        actual_mb
    );
}

#[test]
fn test_sequence_management() {
    let mut cache = KVCache::new(22, 4, 64, 2048);

    // Test increment
    assert_eq!(cache.get_seq_len(), 0);
    assert!(cache.increment().is_ok());
    assert_eq!(cache.get_seq_len(), 1);
    assert!(cache.increment().is_ok());
    assert_eq!(cache.get_seq_len(), 2);

    // Test reset
    cache.reset();
    assert_eq!(cache.get_seq_len(), 0);
}

#[test]
fn test_offset_calculation() {
    let cache = KVCache::new(22, 4, 64, 2048);

    // Test offset for position 0, head 0, dim 0
    let offset = cache.calculate_offset(0, 0, 0);
    assert_eq!(offset, 0, "First element should be at offset 0");

    // Test offset for position 0, head 1, dim 0 (should skip 64 dims)
    let offset = cache.calculate_offset(0, 1, 0);
    assert_eq!(offset, 64 * 4, "Second head should be 64 F32s after first");

    // Test offset for position 1, head 0, dim 0 (should skip all heads)
    let offset = cache.calculate_offset(1, 0, 0);
    assert_eq!(
        offset,
        4 * 64 * 4,
        "Second position should be 4 heads * 64 dims * 4 bytes"
    );
}

#[test]
#[should_panic(expected = "KV cache overflow")]
fn test_overflow_panic() {
    let mut cache = KVCache::new(22, 4, 64, 8); // Small context for test

    // Increment beyond max_seq_len
    for _ in 0..9 {
        cache.increment().unwrap(); // Should panic at 9th call
    }
}
