use bindless::pools::{EncoderPool, TimestampPool};
use bindless::tdr::{
    default_max_safe_workgroups, derive_tdr_risk_from_metadata, risk_level_string,
    should_increase_tiles, yield_limit_ms,
};

#[test]
fn encoders_are_used_in_turn() {
    let mut pool = EncoderPool::new(vec!["a", "b", "c"]);
    assert_eq!(pool.max_pending(), 3);
    assert_eq!(pool.acquire(), "a");
    pool.submit_and_recycle("a2");
    assert_eq!(pool.acquire(), "b");
    pool.submit_and_recycle("b2");
    assert_eq!(pool.acquire(), "c");
    pool.submit_and_recycle("c2");
    assert_eq!(pool.acquire(), "a2");
}

#[test]
fn a_pool_hands_out_no_more_than_it_has() {
    let mut pool = EncoderPool::new(vec![1, 2]);
    assert!(pool.is_ready());
    pool.acquire();
    assert!(pool.is_ready());
    pool.acquire();
    assert!(!pool.is_ready());
    pool.submit_and_recycle(9);
    assert!(pool.is_ready());
    assert_eq!(pool.acquire(), 9);
    assert!(!pool.is_ready());
    let empty: EncoderPool<u32> = EncoderPool::new(vec![]);
    assert!(!empty.is_ready());
}

#[test]
fn as_many_recycles_as_acquires_fill_the_pool() {
    let mut pool = EncoderPool::new(vec![1, 2]);
    assert_eq!(pool.acquire(), 1);
    assert_eq!(pool.acquire(), 2);
    pool.submit_and_recycle(3);
    pool.submit_and_recycle(4);
    assert!(pool.is_ready());
    assert_eq!(pool.acquire(), 3);
    assert!(pool.is_ready());
    assert_eq!(pool.acquire(), 4);
    assert!(!pool.is_ready());
}

#[test]
fn the_encoder_that_is_out_longest_is_replaced_first() {
    let mut pool = EncoderPool::new(vec!["a", "b", "c"]);
    pool.acquire();
    pool.acquire();
    pool.submit_and_recycle("a2");
    assert_eq!(pool.acquire(), "c");
    pool.submit_and_recycle("b2");
    assert_eq!(pool.acquire(), "a2");
    assert_eq!(pool.acquire(), "b2");
    assert!(!pool.is_ready());
}

#[test]
fn a_recycle_beyond_what_is_out_replaces_the_last_used() {
    let mut pool = EncoderPool::new(vec![1, 2]);
    pool.submit_and_recycle(9);
    assert_eq!(pool.acquire(), 1);
    assert_eq!(pool.acquire(), 9);
}

#[test]
fn draining_gives_all_waiting_encoders() {
    let mut pool = EncoderPool::new(vec![1, 2, 3]);
    pool.acquire();
    assert_eq!(pool.drain(), vec![2, 3]);
    assert!(pool.drain().is_empty());
    pool.refill(vec![4, 5, 6]);
    assert_eq!(pool.acquire(), 5);
}

#[test]
fn timestamps_need_support() {
    assert!(TimestampPool::new(false, 8).is_none());
    let pool = TimestampPool::new(true, 8).unwrap();
    assert!(pool.is_supported());
    assert_eq!(pool.pair_count(), 8);
    assert_eq!(pool.query_count(), 16);
    assert_eq!(pool.buffer_size(), 128);
    assert_eq!(pool.resolve(), Some((16, 128)));
}

#[test]
fn each_pair_is_handed_out_once_per_frame() {
    let mut pool = TimestampPool::new(true, 2).unwrap();
    assert_eq!(pool.write_start(), Some(0));
    assert_eq!(pool.write_end(0), Some(1));
    assert_eq!(pool.write_start(), Some(1));
    assert_eq!(pool.write_end(1), Some(3));
    assert_eq!(pool.write_start(), None);
    pool.reset();
    assert_eq!(pool.write_start(), Some(0));
}

#[test]
fn elapsed_ticks_never_run_backwards() {
    let pool = TimestampPool::new(true, 2).unwrap();
    let data = [100, 350, 900, 800];
    assert_eq!(pool.elapsed_ticks(0, &data), Some(250));
    assert_eq!(pool.elapsed_ticks(1, &data), Some(0));
    assert_eq!(pool.elapsed_ticks(2, &data), None);
    let off = TimestampPool {
        supported: false,
        ..pool
    };
    assert_eq!(off.elapsed_ticks(0, &[]), None);
    assert_eq!(off.write_end(0), None);
    assert_eq!(off.resolve(), None);
}

#[test]
fn the_risk_grows_with_the_vocabulary() {
    assert_eq!(derive_tdr_risk_from_metadata(32_000), "Low");
    assert_eq!(derive_tdr_risk_from_metadata(100_000), "Low");
    assert_eq!(derive_tdr_risk_from_metadata(100_001), "Medium");
    assert_eq!(derive_tdr_risk_from_metadata(200_000), "Medium");
    assert_eq!(derive_tdr_risk_from_metadata(200_001), "High");
    assert_eq!(risk_level_string(32_000), "TDR_RISK_LOW");
    assert_eq!(risk_level_string(151_936), "TDR_RISK_MEDIUM");
    assert_eq!(risk_level_string(256_000), "TDR_RISK_HIGH");
    assert_eq!(yield_limit_ms(32_000), 50);
    assert_eq!(yield_limit_ms(151_936), 20);
    assert_eq!(yield_limit_ms(256_000), 10);
}

#[test]
fn more_tiles_are_due_above_four_fifths() {
    // 32000 / 32 = 1000 workgroups are safe.
    assert_eq!(default_max_safe_workgroups(32_000), 1000);
    assert!(!should_increase_tiles(800, 32_000));
    assert!(should_increase_tiles(801, 32_000));
    assert_eq!(default_max_safe_workgroups(0), 1);
    assert!(should_increase_tiles(1, 0));
    assert!(!should_increase_tiles(0, 0));
    assert_eq!(default_max_safe_workgroups(100_000_000), 199_999);
}

/// The same decisions, computed in floating point.
#[test]
fn tile_decisions_agree_with_floating_point() {
    fn max_safe(n_vocab: usize, budget_ms: f64) -> u32 {
        let head_wgs = n_vocab / 32;
        let per_group = if head_wgs > 4000 { 500.0 } else { 100.0 };
        ((budget_ms * 1_000_000.0 - 500.0) / per_group)
            .min(head_wgs as f64)
            .max(1.0) as u32
    }
    for n_vocab in [0, 31, 32, 1000, 32_000, 128_000, 128_032, 256_000, 6_400_000, 9_999_999] {
        let safe = max_safe(n_vocab, 100.0);
        assert_eq!(default_max_safe_workgroups(n_vocab), safe);
        let edge = safe as u64 * 4 / 5;
        for wgs in [0, edge.saturating_sub(1), edge, edge + 1, edge + 2] {
            let wgs = wgs as u32;
            let due = (wgs as f64 / safe as f64) > 0.8;
            assert_eq!(should_increase_tiles(wgs, n_vocab), due);
        }
    }
}
