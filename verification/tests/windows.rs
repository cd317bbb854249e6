use bindless::loader::{blob_ranges, compute_chunk_plan, BlobRange, ChunkPlan};
use bindless::offsets::{
    pack_blob_offset, pack_relative, plan_layer_window, rebase_head_weight_off,
    relative_packed_offset, LayerOffsets, OffsetError,
};
use bindless::quant::{
    checked_row_bytes, formula_index_for_ggml, quant_block_geometry, quant_type_row_bytes,
};
use bindless::window::{BlobBinding, BlobWindow};

fn no_offsets() -> LayerOffsets {
    LayerOffsets {
        attn_norm: 0,
        attn_norm_bias: 0,
        attn_q: 0,
        attn_k: 0,
        attn_v: 0,
        attn_out: 0,
        ffn_norm: 0,
        ffn_norm_bias: 0,
        ffn_gate: 0,
        ffn_down: 0,
        ffn_up: 0,
        layer_idx: 0,
        attn_q_norm: 0,
        attn_k_norm: 0,
        attn_q_bias: 0,
        attn_k_bias: 0,
        attn_v_bias: 0,
        v_is_q4k: 0,
        ffn_down_is_q4k: 0,
        ple_inp_gate: 0,
        ple_proj: 0,
        ple_layer_output_scale: 0,
        ple_rope_freqs: 0,
        ple_attn_post_norm: 0,
        ple_ffn_post_norm: 0,
        ple_post_norm: 0,
        ple_enabled: 0,
    }
}

#[test]
fn chunks_are_capped_and_aligned() {
    let plan = compute_chunk_plan(5_000_000_000, u64::MAX);
    assert_eq!(plan.effective_chunk, 2_000_000_000);
    assert_eq!(plan.num_chunks, 3);
    let small = compute_chunk_plan(1000, 300);
    assert_eq!(small.effective_chunk, 256);
    assert_eq!(small.num_chunks, 4);
    assert_eq!(compute_chunk_plan(0, 256).num_chunks, 0);
}

#[test]
fn words_are_found_in_their_chunk() {
    let plan = ChunkPlan {
        effective_chunk: 256,
        num_chunks: 3,
    };
    assert_eq!(plan.buffer_for_word(0), (0, 0));
    assert_eq!(plan.buffer_for_word(63), (0, 63));
    assert_eq!(plan.buffer_for_word(64), (1, 0));
    assert_eq!(plan.buffer_for_word(191), (2, 63));
    // All of the 32-bit word space is in range.
    let large = ChunkPlan {
        effective_chunk: 1 << 30,
        num_chunks: 16,
    };
    assert_eq!(large.buffer_for_word(5), (0, 5));
    assert_eq!(large.buffer_for_word(u32::MAX), (15, (1 << 28) - 1));
}

#[test]
fn ranges_tile_the_file() {
    let plan = compute_chunk_plan(600, 256);
    let ranges = blob_ranges(600, &plan).unwrap();
    assert_eq!(
        ranges,
        vec![
            BlobRange {
                offset: 0,
                len: 256
            },
            BlobRange {
                offset: 256,
                len: 256
            },
            BlobRange {
                offset: 512,
                len: 88
            },
        ]
    );
}

#[test]
fn a_file_of_broken_words_is_refused() {
    let plan = compute_chunk_plan(601, 256);
    assert_eq!(
        blob_ranges(601, &plan).unwrap_err(),
        "blob buffer 2 size 89 must be 4-byte aligned for wgpu"
    );
}

#[test]
fn windows_are_refused_with_a_reason() {
    assert_eq!(
        BlobWindow::new(5, 1, 64, 5).unwrap_err(),
        "window start_chunk 5 >= total_resident_chunks 5"
    );
    assert_eq!(
        BlobWindow::new(0, 0, 64, 5).unwrap_err(),
        "slot_count 0 must be in [1, BLOB_BINDING_SLOTS=8]"
    );
    assert_eq!(
        BlobWindow::new(0, 9, 64, 20).unwrap_err(),
        "slot_count 9 must be in [1, BLOB_BINDING_SLOTS=8]"
    );
    assert_eq!(
        BlobWindow::new(3, 4, 64, 5).unwrap_err(),
        "window [3, 7) exceeds total_resident_chunks 5"
    );
    assert_eq!(
        BlobWindow::full(0, 64, 7).unwrap_err(),
        "window [0, 8) exceeds total_resident_chunks 7"
    );
    let w = BlobWindow::new(2, 3, 64, 5).unwrap();
    assert_eq!((w.start_chunk, w.slot_count), (2, 3));
}

#[test]
fn a_range_gets_the_narrowest_window() {
    let w = BlobWindow::for_range(64, 191, 64, 10).unwrap();
    assert_eq!((w.start_chunk, w.slot_count), (1, 2));
    let w = BlobWindow::for_range(63, 64, 64, 10).unwrap();
    assert_eq!((w.start_chunk, w.slot_count), (0, 2));
    assert!(BlobWindow::for_range(0, 64 * 8, 64, 10).is_err());
}

#[test]
fn local_and_absolute_words_lead_to_each_other() {
    let w = BlobWindow::new(2, 3, 64, 5).unwrap();
    assert_eq!(w.window_base_words(), 128);
    assert_eq!(w.absolute_to_local(128), Ok((0, 0)));
    assert_eq!(w.absolute_to_local(200), Ok((1, 8)));
    assert_eq!(w.local_to_absolute(1, 8), 200);
    assert_eq!(
        w.absolute_to_local(127).unwrap_err(),
        "word 127 before window base 128"
    );
    assert_eq!(
        w.absolute_to_local(320).unwrap_err(),
        "word 320 at/after window end 320 (slot_count=3, chunk_words=64)"
    );
    assert!(w.contains(128) && w.contains(319));
    assert!(!w.contains(127) && !w.contains(320));
}

#[test]
fn a_window_binds_its_chunks_and_dummies() {
    let w = BlobWindow::new(2, 3, 64, 5).unwrap();
    let slots = w.bindings(4);
    assert_eq!(slots[0], BlobBinding::Chunk(2));
    assert_eq!(slots[1], BlobBinding::Chunk(3));
    assert_eq!(slots[2], BlobBinding::Dummy);
    assert_eq!(slots[7], BlobBinding::Dummy);
}

#[test]
fn offsets_pack_to_half() {
    assert_eq!(pack_blob_offset(0), 0);
    assert_eq!(pack_blob_offset(4096), 2048);
    assert_eq!(pack_blob_offset(8_589_934_590), u32::MAX);
}

#[test]
fn relative_offsets_lead_back_to_their_byte() {
    assert_eq!(relative_packed_offset(0, 4096), Ok(0));
    assert_eq!(relative_packed_offset(4100, 4096), Ok(2));
    let packed = relative_packed_offset(123_456, 1000).unwrap();
    assert_eq!(1000 + 2 * packed as u64, 123_456);
}

#[test]
fn offsets_that_cannot_be_packed_are_explained() {
    assert_eq!(
        relative_packed_offset(16, 32).unwrap_err(),
        "underflow: abs=16 (0x10) < base=32 (0x20)"
    );
    assert_eq!(
        relative_packed_offset(35, 32).unwrap_err(),
        "relative offset 3 (0x3) is not 2-byte aligned"
    );
    assert_eq!(
        relative_packed_offset(1 << 33, 0).unwrap_err(),
        "relative offset 8589934592 (0x200000000) packs to 4294967296 which exceeds u32::MAX"
    );
}

#[test]
fn offsets_that_cannot_be_packed_are_told_apart() {
    assert_eq!(pack_relative(4100, 4096), Ok(2));
    assert_eq!(pack_relative(0, 4096), Ok(0));
    assert_eq!(pack_relative(16, 32), Err(OffsetError::Underflow));
    assert_eq!(pack_relative(35, 32), Err(OffsetError::Misaligned));
    assert_eq!(pack_relative(1 << 33, 0), Err(OffsetError::TooLarge));
}

#[test]
fn a_layer_spans_its_present_tensors() {
    assert_eq!(no_offsets().word_span(7), None);
    let offsets = LayerOffsets {
        attn_norm: 20,
        ffn_up: 2000,
        ple_post_norm: 11,
        layer_idx: 9999,
        ..no_offsets()
    };
    assert_eq!(offsets.word_span(100), Some((105, 1100)));
    let post_norm = LayerOffsets {
        ple_attn_post_norm: 10,
        ..no_offsets()
    };
    assert_eq!(post_norm.word_span(100), Some((105, 105)));
    let both = LayerOffsets {
        ple_rope_freqs: 40,
        ..post_norm
    };
    assert_eq!(both.word_span(100), Some((105, 120)));
}

#[test]
fn a_layer_window_rebases_the_layer() {
    let offsets = LayerOffsets {
        attn_norm: 20,
        ffn_up: 400,
        ..no_offsets()
    };
    // Words 300 + 10 and 300 + 200, in chunks 4 and 7 of 64 words.
    let (window, base) = plan_layer_window(&offsets, 300, 64, 10).unwrap();
    let window = window.unwrap();
    assert_eq!((window.start_chunk, window.slot_count), (4, 4));
    assert_eq!(base, 300 - 256);
    // The shader's word, counted from the window's start, is the tensor's word.
    assert_eq!(window.window_base_words() + base + 20 / 2, 310);
    assert_eq!(plan_layer_window(&no_offsets(), 300, 64, 10), Ok((None, 300)));
    assert!(plan_layer_window(&offsets, 300, 64, 7).is_err());
}

#[test]
fn a_layer_base_before_its_window_wraps() {
    // The first tensor stands at word 64, a chunk start, and the base before it.
    let offsets = LayerOffsets {
        attn_norm: 2,
        ..no_offsets()
    };
    let (window, base) = plan_layer_window(&offsets, 63, 64, 4).unwrap();
    assert_eq!(window.unwrap().window_base_words(), 64);
    assert_eq!(base, u32::MAX);
    // The shader's sum is the first word of the window.
    assert_eq!((2u32 / 2).wrapping_add(base), 0);
    let (window, base) = plan_layer_window(&offsets, 99, 100, 4).unwrap();
    let window = window.unwrap();
    assert_eq!((window.start_chunk, window.slot_count), (1, 1));
    assert_eq!(base, 4294967295);
    assert_eq!(window.absolute_to_local(100), Ok((0, 0)));
}

#[test]
fn every_word_can_be_a_chunk() {
    let window = BlobWindow::for_range(7, 9, 1, 12).unwrap();
    assert_eq!((window.start_chunk, window.slot_count), (7, 3));
    assert_eq!(
        BlobWindow::for_range(0, u32::MAX, 1, 12).unwrap_err(),
        "slot_count 4294967296 must be in [1, BLOB_BINDING_SLOTS=8]"
    );
    assert!(BlobWindow::for_range(u32::MAX, u32::MAX, 1, 12).is_err());
}

#[test]
fn a_rebased_head_wraps_to_the_local_word() {
    let window = BlobWindow::new(3, 2, 64, 8).unwrap();
    let rebased = rebase_head_weight_off(100, &window);
    assert_eq!(rebased, 100u32.wrapping_sub(192));
    // Word 130 of the weights is absolute word 230, local word 38.
    assert_eq!(rebased.wrapping_add(130), 38);
}

#[test]
fn tensor_types_have_a_block_geometry() {
    assert_eq!(quant_block_geometry(0), Some((1, 4)));
    assert_eq!(quant_block_geometry(1), Some((1, 2)));
    assert_eq!(quant_block_geometry(2), Some((32, 18)));
    assert_eq!(quant_block_geometry(6), Some((32, 22)));
    assert_eq!(quant_block_geometry(8), Some((32, 34)));
    assert_eq!(quant_block_geometry(12), Some((256, 144)));
    assert_eq!(quant_block_geometry(13), Some((256, 176)));
    assert_eq!(quant_block_geometry(14), Some((256, 210)));
    assert_eq!(quant_block_geometry(3), None);
}

#[test]
fn formula_slots_are_distinct() {
    let slots: Vec<u32> = [0u32, 1, 2, 6, 8, 12, 13, 14]
        .iter()
        .map(|t| formula_index_for_ggml(*t))
        .collect();
    assert_eq!(slots, vec![0, 1, 2, 3, 4, 5, 6, 7]);
    assert_eq!(formula_index_for_ggml(99), 0);
}

#[test]
fn rows_count_their_blocks() {
    assert_eq!(quant_type_row_bytes(2, 4096), 128 * 18);
    assert_eq!(quant_type_row_bytes(6, 64), 44);
    assert_eq!(quant_type_row_bytes(8, 4096), 128 * 34);
    assert_eq!(quant_type_row_bytes(13, 4096), 16 * 176);
    assert_eq!(quant_type_row_bytes(99, 4096), 128 * 18);
    assert_eq!(checked_row_bytes(0, u64::MAX), None);
    assert_eq!(checked_row_bytes(2, 64), Some(36));
}
