use bindless::bytes::uniform_bytes;
use bindless::dispatch::{Buf, Entry, NewBuffer, Plan, Source, Step};
use bindless::head::Head;
use bindless::kernels::{
    kernel_source, layout_entries, Access, BindlessPipeline, Kernel, Layout, ResamplerPipeline,
    RopeShiftPipeline, VitPipeline,
};
use bindless::kv_cache::{CacheKind, KVCache};
use bindless::offsets::LayerOffsets;
use bindless::params::{
    CompactionParams, LayerParams, MatMulParams, RMSNormParams, ResamplerOffsets, ResamplerParams,
    VitBlockOffsets, VitParams,
};
use bindless::single::pad_to_words;
use bindless::window::BlobBinding;

fn slots() -> [BlobBinding; 8] {
    [
        BlobBinding::Chunk(0),
        BlobBinding::Chunk(1),
        BlobBinding::Dummy,
        BlobBinding::Dummy,
        BlobBinding::Dummy,
        BlobBinding::Dummy,
        BlobBinding::Dummy,
        BlobBinding::Dummy,
    ]
}

fn run(kernel: Kernel, group: usize, x: u32, y: u32, z: u32) -> Step {
    Step::Run {
        kernel,
        group,
        x,
        y,
        z,
    }
}

/// Each kernel is compiled and runs with a complete bind group of its layout, and
/// what is read was created.
fn assert_wired(plan: &Plan, kernels: &[Kernel]) {
    for group in &plan.groups {
        let wanted: Vec<u32> = layout_entries(group.layout)
            .iter()
            .map(|e| e.binding)
            .collect();
        let found: Vec<u32> = group.entries.iter().map(|e| e.binding).collect();
        assert_eq!(found, wanted);
    }
    for step in &plan.steps {
        if let Step::Run { kernel, group, .. } = step {
            assert!(kernels.contains(kernel));
            assert_eq!(plan.groups[*group].layout, kernel_source(*kernel).layout);
        }
    }
    for read in &plan.reads {
        assert!(plan.buffers.iter().any(|b| b.buf == *read));
    }
    for filled in &plan.filled {
        assert!(plan.buffers.iter().any(|b| b.buf == *filled));
    }
}

fn layer_offsets() -> LayerOffsets {
    LayerOffsets {
        attn_norm: 2,
        attn_norm_bias: 0,
        attn_q: 4,
        attn_k: 6,
        attn_v: 8,
        attn_out: 10,
        ffn_norm: 12,
        ffn_norm_bias: 0,
        ffn_gate: 14,
        ffn_down: 16,
        ffn_up: 18,
        layer_idx: 0,
        attn_q_norm: 0,
        attn_k_norm: 0,
        attn_q_bias: 0,
        attn_k_bias: 0,
        attn_v_bias: 0,
        v_is_q4k: 0,
        ffn_down_is_q4k: 0,
        ple_inp_gate: 0,
        ple_proj: 0,
        ple_layer_output_scale: 0,
        ple_rope_freqs: 0,
        ple_attn_post_norm: 0,
        ple_ffn_post_norm: 0,
        ple_post_norm: 0,
        ple_enabled: 0,
    }
}

fn layer_params() -> LayerParams {
    LayerParams {
        dim: 2048,
        head_count: 32,
        head_count_kv: 4,
        head_dim: 64,
        rope_dim: 64,
        rms_eps: 0,
        ffn_dim: 5632,
        temp_stride: 16384,
        quant_qk: 2,
        quant_v: 2,
        quant_attn_out: 2,
        quant_ffn_down: 2,
        quant_ffn_gate: 2,
        quant_ffn_up: 2,
        attn_logit_softcap: 0,
        post_norm_enabled: 0,
        qk_norm_enabled: 0,
        layer_norm_enabled: 0,
        ffn_kind_policy: 0,
        qkv_layout_policy: 0,
        batch_offset: 0,
        batch_count: 1,
        q_weight_k: 0,
        k_weight_k: 0,
        formula_qk: 2,
        formula_v: 2,
        formula_attn_out: 2,
        formula_ffn_down: 2,
        formula_ffn_gate: 2,
        formula_ffn_up: 2,
        blob_base_words: 0,
        chunk_words: 64,
        v_plain_rms_norm: 0,
        out_scale_enabled: 0,
        ple_latent_dim: 0,
        ple_enabled: 0,
        attn_scale_override: 0,
    }
}

#[test]
fn layer_params_size_is_gpu_aligned() {
    // The words are copied verbatim into WGSL uniforms; the size in bytes must be
    // a multiple of 4 (WebGPU minimum alignment).
    assert_eq!(std::mem::size_of::<LayerParams>() % 4, 0);
    assert_eq!(uniform_bytes(&layer_params().words()).len(), 37 * 4);
}

#[test]
fn uniforms_become_bytes_least_significant_first() {
    let bytes = uniform_bytes(&vec![0x0403_0201, 0xFFFF_FF00]);
    assert_eq!(bytes, vec![1, 2, 3, 4, 0, 0xFF, 0xFF, 0xFF]);
    assert!(uniform_bytes(&Vec::new()).is_empty());
}

#[test]
fn uniform_words_keep_the_order_of_the_fields() {
    let words = layer_offsets().words();
    assert_eq!(words.len(), 27);
    assert_eq!(&words[..6], &[2, 0, 4, 6, 8, 10]);
    let params = layer_params().words();
    assert_eq!(params[0], 2048);
    assert_eq!(params[3], 64);
    assert_eq!(params[31], 64);
}

#[test]
fn layouts_have_distinct_bindings() {
    let layer = layout_entries(Layout::Layer);
    let bindings: Vec<u32> = layer.iter().map(|e| e.binding).collect();
    assert_eq!(bindings, (0..18).collect::<Vec<u32>>());
    assert_eq!(layer[3].access, Access::Uniform);
    assert_eq!(layer[7].access, Access::ReadWrite);
    assert_eq!(layer[10].access, Access::ReadOnly);
    assert_eq!(layout_entries(Layout::Probe).len(), 2);
    assert_eq!(layout_entries(Layout::RopeShiftInt4).len(), 9);
}

#[test]
fn kernels_come_from_their_shaders() {
    let qkv = kernel_source(Kernel::Qkv);
    assert_eq!(
        (qkv.shader, qkv.entry, qkv.layout),
        ("sh_layer_v1.wgsl", "main_qkv", Layout::Layer)
    );
    let head = kernel_source(Kernel::LmHeadBlob);
    assert_eq!(
        (head.shader, head.entry),
        ("sh_head_blob.wgsl", "main_lm_head")
    );
}

#[test]
fn every_kernel_is_compiled_once() {
    let mut all = BindlessPipeline::new().kernels;
    all.extend(RopeShiftPipeline::new().kernels);
    all.extend(VitPipeline::new().kernels);
    all.extend(ResamplerPipeline::new().kernels);
    assert_eq!(all.len(), 48);
    for i in 0..all.len() {
        for j in 0..i {
            assert_ne!(all[i], all[j]);
        }
    }
}

#[test]
fn the_probe_copies_two_words() {
    let pipeline = BindlessPipeline::new();
    let plan = pipeline.run_probe(&slots());
    assert_wired(&plan, &pipeline.kernels);
    assert_eq!(plan.steps[0], run(Kernel::Probe, 0, 1, 1, 1));
    assert_eq!(plan.buffers[0].size, 8);
    assert!(plan.filled.is_empty());
    assert_eq!(
        plan.groups[0].entries[0],
        Entry {
            binding: 0,
            source: Source::Blob(BlobBinding::Chunk(0))
        }
    );
}

#[test]
fn dequantization_takes_a_workgroup_per_64_elements() {
    let pipeline = BindlessPipeline::new();
    let test = pipeline.run_dequant_test(&slots());
    assert_wired(&test, &pipeline.kernels);
    assert_eq!(test.uniforms[0].words, vec![0, 32, 0, 0]);
    assert_eq!(test.buffers[0].size, 128);
    let plan = pipeline.run_dequant_request(&slots(), 1000, 65);
    assert_wired(&plan, &pipeline.kernels);
    assert_eq!(plan.steps[0], run(Kernel::Dequant, 0, 2, 1, 1));
    assert_eq!(plan.uniforms[0].words, vec![1000, 65, 0, 0]);
    assert_eq!(plan.reads, vec![Buf::Read(0)]);
    let any = pipeline.run_dequant_any_request(&slots(), 500, 1002, 128, 12);
    assert_wired(&any, &pipeline.kernels);
    assert_eq!(any.uniforms[0].words, vec![0, 250, 128, 5, 500]);
    assert_eq!(any.steps[0], run(Kernel::DequantAny, 0, 2, 1, 1));
}

#[test]
fn raw_bytes_are_padded_to_words() {
    assert_eq!(pad_to_words(&[1, 2, 3, 4, 5]), vec![1, 2, 3, 4, 5, 0, 0, 0]);
    assert_eq!(pad_to_words(&[1, 2, 3, 4]), vec![1, 2, 3, 4]);
    assert!(pad_to_words(&[]).is_empty());
    let pipeline = BindlessPipeline::new();
    let plan = pipeline.run_dequant_any_blob(5, 0, 1, 8);
    assert_eq!(plan.filled, vec![Buf::RawBlob]);
    assert_wired(&plan, &pipeline.kernels);
    assert_eq!(
        plan.buffers[0],
        NewBuffer {
            buf: Buf::RawBlob,
            size: 8
        }
    );
    assert_eq!(plan.uniforms[0].words, vec![0, 0, 1, 4, 2]);
}

#[test]
fn products_and_norms_are_planned() {
    let pipeline = BindlessPipeline::new();
    let params = MatMulParams {
        n: 257,
        k: 64,
        weights_offset: 9,
        padding: 0,
    };
    let plan = pipeline.run_matmul_test(&slots(), 64, params);
    assert_wired(&plan, &pipeline.kernels);
    assert_eq!(plan.steps[0], run(Kernel::MatMul, 0, 2, 1, 1));
    assert_eq!(plan.buffers[0].size, 256);
    assert_eq!(plan.buffers[1].size, 257 * 4);
    let plain = pipeline.run_matmul_f32(64, 65, 64);
    assert_wired(&plain, &pipeline.kernels);
    assert_eq!(plain.steps[0], run(Kernel::MatMulF32, 0, 2, 1, 1));
    assert_eq!(plain.uniforms[0].words, vec![65, 64, 0, 0]);
    let norm = RMSNormParams {
        count: 2048,
        weights_offset: 5,
        bias_offset: 0,
        eps: 1e-5f32.to_bits(),
        norm_type: 0,
        chunk_words: 64,
    };
    let plan = pipeline.run_rmsnorm_test(&slots(), 2048, norm);
    assert_wired(&plan, &pipeline.kernels);
    assert_eq!(plan.steps[0], run(Kernel::RmsNorm, 0, 1, 1, 1));
}

fn head(vocab_size: u32) -> Head {
    Head {
        vocab_size,
        dim: 64,
        weight_off: 1000,
        quant_type: 14,
        softcap: 0,
        chunk_words: 4096,
    }
}

#[test]
fn tiles_share_out_the_rows() {
    let pipeline = BindlessPipeline::new();
    // 1000 rows make 16 workgroups of 64 rows.
    let plan = pipeline.run_lm_head_blob_tiled(&slots(), 64, &head(1000), 7);
    assert_wired(&plan, &pipeline.kernels);
    assert_eq!(plan.groups.len(), 3);
    assert_eq!(plan.steps[0], run(Kernel::LmHeadBlob, 0, 7, 1, 1));
    assert_eq!(plan.steps[1], run(Kernel::LmHeadBlob, 1, 7, 1, 1));
    assert_eq!(plan.steps[2], run(Kernel::LmHeadBlob, 2, 2, 1, 1));
    let rows: Vec<u32> = plan.uniforms.iter().map(|u| u.words[5]).collect();
    assert_eq!(rows, vec![0, 448, 896]);
    assert_eq!(plan.uniforms[0].words, vec![1000, 64, 1000, 7, 0, 0, 4096]);
}

#[test]
fn one_tile_is_the_whole_head() {
    let pipeline = BindlessPipeline::new();
    let whole = pipeline.run_lm_head_blob(&slots(), 64, &head(1000));
    assert_eq!(whole.filled, vec![Buf::Input]);
    let tiled = pipeline.run_lm_head_blob_tiled(&slots(), 64, &head(1000), 16);
    assert_wired(&whole, &pipeline.kernels);
    assert_eq!(whole.steps, tiled.steps);
    assert_eq!(whole.buffers, tiled.buffers);
    assert_eq!(whole.uniforms[0].words, tiled.uniforms[0].words);
    assert_eq!(whole.groups[0].entries, tiled.groups[0].entries);
}

#[test]
fn a_layer_runs_all_its_kernels() {
    let pipeline = BindlessPipeline::new();
    let cache = KVCache::new(22, 4, 64, 2048);
    let plan = pipeline.run_layer_with_cache(
        &slots(),
        &cache,
        3,
        2048,
        layer_offsets(),
        layer_params(),
    );
    assert_wired(&plan, &pipeline.kernels);
    let kernels: Vec<Step> = plan.steps[..10].to_vec();
    assert_eq!(
        kernels,
        vec![
            run(Kernel::AttnNorm, 0, 8, 1, 1),
            run(Kernel::Qkv, 0, 10, 1, 1),
            run(Kernel::QkNorm, 0, 9, 1, 1),
            run(Kernel::AttnOut, 0, 8, 1, 1),
            run(Kernel::AttnProj, 0, 8, 1, 1),
            run(Kernel::PostAttnNorm, 0, 8, 1, 1),
            run(Kernel::FfnNorm, 0, 1, 1, 1),
            run(Kernel::FfnProj, 0, 44, 1, 1),
            run(Kernel::FfnDown, 0, 8, 1, 1),
            run(Kernel::PostFfwNorm, 0, 8, 1, 1),
        ]
    );
    assert_eq!(
        plan.groups[0].entries[7].source,
        Source::Whole(Buf::Cache(CacheKind::K, 3))
    );
}

#[test]
fn an_int4_layer_quantizes_before_it_attends() {
    let pipeline = BindlessPipeline::new();
    let mut cache = KVCache::new_int4(22, 4, 64, 2048);
    cache.set_seq_len(5);
    let plan = pipeline.run_layer_with_cache_int4(
        &slots(),
        &cache,
        0,
        2048,
        layer_offsets(),
        layer_params(),
    );
    assert_wired(&plan, &pipeline.kernels);
    assert_eq!(plan.steps[3], run(Kernel::QuantizeKv, 2, 4, 1, 1));
    assert_eq!(plan.steps[4], run(Kernel::AttnOutInt4, 1, 8, 1, 1));
    assert_eq!(plan.uniforms[3].words, vec![4, 64, 5, 0]);
}

#[test]
fn requantizing_covers_every_layer() {
    let pipeline = BindlessPipeline::new();
    let cache = KVCache::new_int4(3, 4, 64, 2048);
    let plan = pipeline.requantize_all_kv_int4(&cache, 4, 64, 100, 3);
    assert_wired(&plan, &pipeline.kernels);
    assert_eq!(plan.steps.len(), 4);
    assert_eq!(plan.steps[2], run(Kernel::QuantizeKv, 2, 4, 100, 1));
    assert_eq!(plan.steps[3], Step::Submit);
    let nothing = pipeline.requantize_all_kv_int4(&cache, 4, 64, 0, 3);
    assert!(nothing.steps.is_empty());
}

#[test]
fn a_debug_run_reads_the_next_position() {
    let pipeline = BindlessPipeline::new();
    let mut cache = KVCache::new(22, 4, 64, 2048);
    cache.set_seq_len(9);
    let plan = pipeline.run_layer_with_cache_debug(
        &slots(),
        &cache,
        2,
        2048,
        layer_offsets(),
        layer_params(),
    );
    assert_wired(&plan, &pipeline.kernels);
    assert_eq!(
        plan.steps[3],
        Step::Copy {
            from: Buf::Cache(CacheKind::K, 2),
            at: cache.calculate_offset(9, 0, 0) as u64,
            to: Buf::Read(4),
            size: 4 * 64 * 4,
        }
    );
}

#[test]
fn test_layers_run_on_a_first_token() {
    let pipeline = BindlessPipeline::new();
    let qkv = pipeline.run_qkv_only_test(&slots(), 2048, layer_offsets(), layer_params());
    assert_wired(&qkv, &pipeline.kernels);
    assert_eq!(qkv.reads.len(), 3);
    let halfway =
        pipeline.run_layer_stepwise_test(&slots(), 2048, layer_offsets(), layer_params(), true);
    assert_wired(&halfway, &pipeline.kernels);
    assert_eq!(halfway.reads, vec![Buf::Read(0), Buf::Read(1)]);
    let plain = pipeline.run_layer_test(&slots(), 2048, layer_offsets(), layer_params());
    assert_wired(&plain, &pipeline.kernels);
    assert_eq!(plain.reads, vec![Buf::Read(1)]);
    assert_eq!(plain.filled, vec![Buf::Activation]);
    assert_eq!(halfway.steps.len(), plain.steps.len() + 1);
}

fn compaction(keep_sink: u32, shift_amt: u32, old_seq_len: u32) -> CompactionParams {
    CompactionParams {
        keep_sink,
        shift_amt,
        old_seq_len,
        n_head_kv: 4,
        head_dim: 64,
        rope_dim: 64,
        rope_base: 500000.0f32.to_bits(),
        max_seq_len: 16,
    }
}

#[test]
fn a_shift_snapshots_before_it_moves() {
    let pipeline = RopeShiftPipeline::new();
    let plan = pipeline.execute(5, 16384, &compaction(2, 4, 12));
    assert_wired(&plan, &pipeline.kernels);
    assert_eq!(
        plan.steps,
        vec![
            Step::Copy {
                from: Buf::Cache(CacheKind::K, 5),
                at: 0,
                to: Buf::Scratch(CacheKind::K),
                size: 16384,
            },
            Step::Copy {
                from: Buf::Cache(CacheKind::V, 5),
                at: 0,
                to: Buf::Scratch(CacheKind::V),
                size: 16384,
            },
            run(Kernel::RopeShift, 0, 1, 1, 6),
            Step::Submit,
        ]
    );
    assert_eq!(
        plan.uniforms[0].words,
        vec![2, 4, 12, 4, 64, 64, 500000.0f32.to_bits(), 16]
    );
}

#[test]
fn a_shift_without_tokens_behind_moves_none() {
    let pipeline = RopeShiftPipeline::new();
    let plan = pipeline.execute(0, 64, &compaction(8, 4, 12));
    assert_eq!(plan.steps.len(), 3);
    assert_eq!(plan.steps[2], Step::Submit);
    assert!(pipeline
        .execute_int4(0, 64, 8, 4, &compaction(8, 4, 12))
        .is_none());
    assert_eq!(
        bindless::shift::elements_to_shift(&compaction(8, 4, 5)),
        0
    );
}

#[test]
fn an_int4_shift_moves_all_six_buffers() {
    let pipeline = RopeShiftPipeline::new();
    let plan = pipeline
        .execute_int4(1, 16384, 2048, 256, &compaction(2, 4, 12))
        .unwrap();
    assert_wired(&plan, &pipeline.kernels);
    assert_eq!(plan.steps[6], run(Kernel::RopeShift, 0, 1, 1, 6));
    assert_eq!(plan.steps[7], run(Kernel::RopeShiftInt4, 1, 1, 1, 6));
    assert_eq!(plan.uniforms[0].words[6], 10000.0f32.to_bits());
    let sizes: Vec<u64> = plan.buffers.iter().map(|b| b.size).collect();
    assert_eq!(sizes, vec![16384, 16384, 2048, 2048, 256, 256]);
}

/// A cache buffer of 16 positions, 2 heads and 64 dimensions.
fn cache_pattern(pos_step: f32, head_step: f32, dim_step: f32) -> Vec<f32> {
    let mut data = Vec::new();
    for pos in 0..16 {
        for h in 0..2 {
            for d in 0..64 {
                data.push(pos as f32 * pos_step + h as f32 * head_step + d as f32 * dim_step);
            }
        }
    }
    data
}

/// Carries a shift plan out on plain vectors. A dispatch runs 64 dimensions by 4
/// heads per workgroup, and the kernel copies one element, in any order: here the
/// tokens go backwards, which would smear an overlapping copy without snapshots.
fn carried_out(plan: &Plan, k: &[f32], v: &[f32]) -> (Vec<f32>, Vec<f32>) {
    let mut bufs = vec![
        (Buf::Cache(CacheKind::K, 0), k.to_vec()),
        (Buf::Cache(CacheKind::V, 0), v.to_vec()),
    ];
    for b in &plan.buffers {
        bufs.push((b.buf, vec![0.0; b.size as usize / 4]));
    }
    let find = |bufs: &Vec<(Buf, Vec<f32>)>, buf: Buf| -> usize {
        bufs.iter().position(|(b, _)| *b == buf).unwrap()
    };
    let words = &plan.uniforms[0].words;
    let (keep, shift, heads, dims) = (words[0], words[1], words[3], words[4]);
    for step in &plan.steps {
        match step {
            Step::Copy { from, at, to, size } => {
                let n = *size as usize / 4;
                let start = *at as usize / 4;
                let source = bufs[find(&bufs, *from)].1[start..start + n].to_vec();
                let target = find(&bufs, *to);
                bufs[target].1[..n].copy_from_slice(&source);
            }
            Step::Run { group, x, y, z, .. } => {
                let bound = |binding: u32| -> Buf {
                    match plan.groups[*group].entries[binding as usize].source {
                        Source::Whole(buf) => buf,
                        _ => panic!("a shift binds whole buffers"),
                    }
                };
                for (source, target) in [(0, 2), (1, 3)] {
                    let source = find(&bufs, bound(source));
                    let target = find(&bufs, bound(target));
                    for token in (0..*z).rev() {
                        for h in (0..y * 4).filter(|h| *h < heads) {
                            for d in (0..x * 64).filter(|d| *d < dims) {
                                let old = ((keep + shift + token) * heads + h) * dims + d;
                                let new = ((keep + token) * heads + h) * dims + d;
                                bufs[target].1[new as usize] = bufs[source].1[old as usize];
                            }
                        }
                    }
                }
            }
            Step::Submit => {}
            other => panic!("unexpected step {:?}", other),
        }
    }
    (bufs[0].1.clone(), bufs[1].1.clone())
}

fn helical(keep_sink: u32, shift_amt: u32, old_seq_len: u32) -> CompactionParams {
    CompactionParams {
        n_head_kv: 2,
        rope_base: 10000.0f32.to_bits(),
        ..compaction(keep_sink, shift_amt, old_seq_len)
    }
}

#[test]
fn test_helical_gpu_shift_pure_copy() {
    let (keep_sink, shift_amt, old_seq_len) = (4, 5, 12);
    let (n_head_kv, head_dim) = (2, 64);
    let k_data = cache_pattern(0.1, 0.01, 0.001);
    let v_data = cache_pattern(1.0, 0.1, 0.01);
    let pipeline = RopeShiftPipeline::new();
    let plan = pipeline.execute(0, 8192, &helical(keep_sink, shift_amt, old_seq_len));
    assert_wired(&plan, &pipeline.kernels);
    let (gpu_k, _) = carried_out(&plan, &k_data, &v_data);

    // Data from the old positions [9,10,11] must now be at [4,5,6].
    let elements_to_shift = old_seq_len - (keep_sink + shift_amt);
    assert_eq!(elements_to_shift, 3);
    assert_eq!(plan.steps[2], run(Kernel::RopeShift, 0, 1, 1, 3));
    let mut max_err: f32 = 0.0;
    for offset in 0..elements_to_shift {
        let old_pos = keep_sink + shift_amt + offset;
        let new_pos = keep_sink + offset;
        for h in 0..n_head_kv {
            for d in 0..head_dim {
                let old_idx = (old_pos * n_head_kv * head_dim + h * head_dim + d) as usize;
                let new_idx = (new_pos * n_head_kv * head_dim + h * head_dim + d) as usize;
                max_err = max_err.max((gpu_k[new_idx] - k_data[old_idx]).abs());
            }
        }
    }
    assert!(
        max_err == 0.0,
        "K shift must be bit-exact copy, got max_err={:.2e}",
        max_err
    );
}

#[test]
fn test_helical_gpu_shift_overlapping() {
    let (keep_sink, shift_amt, old_seq_len) = (2, 3, 16);
    let (n_head_kv, head_dim) = (2, 64);
    let k_data = cache_pattern(0.1, 0.01, 0.001);
    let v_data = cache_pattern(1.0, 0.1, 0.01);
    let pipeline = RopeShiftPipeline::new();
    let plan = pipeline.execute(0, 8192, &helical(keep_sink, shift_amt, old_seq_len));
    assert_wired(&plan, &pipeline.kernels);
    let (gpu_k, gpu_v) = carried_out(&plan, &k_data, &v_data);

    // Positions 5..16 move to 2..13.
    let elements_to_shift = old_seq_len - (keep_sink + shift_amt);
    assert_eq!(elements_to_shift, 11);
    assert_eq!(plan.steps[2], run(Kernel::RopeShift, 0, 1, 1, 11));
    let mut max_k_err: f32 = 0.0;
    let mut max_v_err: f32 = 0.0;
    for offset in 0..elements_to_shift {
        let old_pos = keep_sink + shift_amt + offset;
        let new_pos = keep_sink + offset;
        for h in 0..n_head_kv {
            for d in 0..head_dim {
                let old_idx = (old_pos * n_head_kv * head_dim + h * head_dim + d) as usize;
                let new_idx = (new_pos * n_head_kv * head_dim + h * head_dim + d) as usize;
                max_k_err = max_k_err.max((gpu_k[new_idx] - k_data[old_idx]).abs());
                max_v_err = max_v_err.max((gpu_v[new_idx] - v_data[old_idx]).abs());
            }
        }
    }
    assert!(
        max_k_err == 0.0,
        "K must be bit-exact copy, got max_err={:.2e}",
        max_k_err
    );
    assert!(
        max_v_err == 0.0,
        "V must be bit-exact copy, got max_err={:.2e}",
        max_v_err
    );
}

fn vit_offsets() -> VitBlockOffsets {
    VitBlockOffsets {
        ln1_w: 1,
        ln1_b: 2,
        attn_q_w: 3,
        attn_q_b: 4,
        attn_k_w: 5,
        attn_k_b: 6,
        attn_v_w: 7,
        attn_v_b: 8,
        attn_o_w: 9,
        attn_o_b: 10,
        ln2_w: 11,
        ln2_b: 12,
        ffn_up_w: 13,
        ffn_up_b: 14,
        ffn_dn_w: 15,
        ffn_dn_b: 16,
    }
}

fn vit_params() -> VitParams {
    VitParams {
        hidden_dim: 1152,
        n_heads: 16,
        head_dim: 72,
        mlp_dim: 4304,
        n_tokens: 1024,
        ln_eps: 1e-6f32.to_bits(),
        pad0: 0,
        pad1: 0,
    }
}

#[test]
fn a_vit_block_runs_seven_kernels_in_one_submission() {
    let pipeline = VitPipeline::new();
    let plan = pipeline.run_vit_block(&vit_offsets(), &vit_params());
    assert_wired(&plan, &pipeline.kernels);
    assert_eq!(
        plan.steps,
        vec![
            run(Kernel::VitLn1, 0, 4, 1, 1),
            run(Kernel::VitQkv, 0, 13824, 1, 1),
            run(Kernel::VitAttn, 0, 64, 1, 1),
            run(Kernel::VitAttnProj, 0, 4608, 1, 1),
            run(Kernel::VitLn2, 0, 4, 1, 1),
            run(Kernel::VitFfnUp, 0, 17216, 1, 1),
            run(Kernel::VitFfnDown, 0, 4608, 1, 1),
            Step::Submit,
        ]
    );
    assert_eq!(plan.uniforms[0].words, (1..17).collect::<Vec<u32>>());
    let post = pipeline.run_post_ln(&vit_offsets(), &vit_params());
    assert_wired(&post, &pipeline.kernels);
    assert_eq!(
        post.steps,
        vec![run(Kernel::VitPostLn, 0, 4, 1, 1), Step::Submit]
    );
}

#[test]
fn the_resampler_submits_each_kernel() {
    let pipeline = ResamplerPipeline::new();
    let offsets = ResamplerOffsets {
        query_embeds: 0,
        kv_weight: 1,
        ln_q_w: 2,
        ln_q_b: 3,
        ln_kv_w: 4,
        ln_kv_b: 5,
        attn_q_w: 6,
        attn_q_b: 7,
        attn_k_w: 8,
        attn_k_b: 9,
        attn_v_w: 10,
        attn_v_b: 11,
        attn_out_w: 12,
        attn_out_b: 13,
        pos_embed_k: 14,
        ln_post_w: 15,
        ln_post_b: 16,
        proj_w: 17,
        pad0: 0,
        pad1: 0,
    };
    let params = ResamplerParams {
        n_queries: 64,
        n_vit: 1024,
        d_model: 3584,
        kv_dim: 1152,
        n_heads: 16,
        head_dim: 224,
        ln_eps: 0,
        pad0: 0,
    };
    let plan = pipeline.run_resampler(&offsets, &params);
    assert_wired(&plan, &pipeline.kernels);
    assert_eq!(plan.steps.len(), 24);
    assert_eq!(plan.steps[0], run(Kernel::RspInitQ, 0, 896, 1, 1));
    assert_eq!(plan.steps[1], Step::Submit);
    assert_eq!(plan.steps[2], run(Kernel::RspKvLin, 0, 14336, 1, 1));
    assert_eq!(plan.steps[4], run(Kernel::RspLnKv, 0, 4, 1, 1));
    assert_eq!(plan.steps[16], run(Kernel::RspAttn, 0, 4, 1, 1));
    assert_eq!(plan.steps[22], run(Kernel::RspFinalProj, 0, 896, 1, 1));
    assert_eq!(plan.steps[23], Step::Submit);
}
