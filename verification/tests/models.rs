use bindless::dispatch::{Buf, Source, Step};
use bindless::full_model::{prefill_step, ForwardOptions, Prefill, PrefillChunk};
use bindless::gguf::GgufError;
use bindless::kernels::{BindlessPipeline, Kernel};
use bindless::kv_cache::KVCache;
use bindless::metadata::BindlessMetadata;
use bindless::model::{blob_bindings_for, resolve_layer_window, BindlessModel, LoadError};
use bindless::offsets::LayerOffsets;
use bindless::preflight::build_norm_bank_from_ram;
use bindless::spec::{ModelArch, ModelSpec};
use bindless::text::{push_decimal, push_hex};
use bindless::window::{BlobBinding, BlobWindow};

fn put_string(out: &mut Vec<u8>, text: &str) {
    out.extend_from_slice(&(text.len() as u64).to_le_bytes());
    out.extend_from_slice(text.as_bytes());
}

fn gguf(tensors: &[(&str, Vec<u64>, u32, u64)], data_len: usize) -> Vec<u8> {
    let mut out = b"GGUF".to_vec();
    out.extend_from_slice(&3u32.to_le_bytes());
    out.extend_from_slice(&(tensors.len() as u64).to_le_bytes());
    out.extend_from_slice(&0u64.to_le_bytes());
    for (name, dims, ty, offset) in tensors {
        put_string(&mut out, name);
        out.extend_from_slice(&(dims.len() as u32).to_le_bytes());
        for d in dims {
            out.extend_from_slice(&d.to_le_bytes());
        }
        out.extend_from_slice(&ty.to_le_bytes());
        out.extend_from_slice(&offset.to_le_bytes());
    }
    let start = (out.len() + 31) / 32 * 32;
    out.resize(start, 0);
    for i in 0..data_len {
        out.push((i % 251) as u8);
    }
    out
}

/// One layer of width 4, with an output norm and a tied head.
fn tensors(query_type: u32) -> Vec<(&'static str, Vec<u64>, u32, u64)> {
    vec![
        ("blk.0.attn_norm.weight", vec![4], 0, 0),
        ("blk.0.attn_q.weight", vec![4, 4], query_type, 32),
        ("blk.0.attn_k.weight", vec![4, 2], 0, 96),
        ("blk.0.attn_v.weight", vec![4, 2], 0, 128),
        ("blk.0.attn_output.weight", vec![4, 4], 0, 160),
        ("blk.0.ffn_norm.weight", vec![4], 0, 224),
        ("blk.0.ffn_gate.weight", vec![4, 8], 0, 256),
        ("blk.0.ffn_up.weight", vec![4, 8], 0, 384),
        ("blk.0.ffn_down.weight", vec![8, 4], 0, 512),
        ("output_norm.weight", vec![4], 0, 640),
        ("token_embd.weight", vec![4, 16], 0, 672),
    ]
}

fn spec() -> ModelSpec {
    ModelSpec {
        arch: ModelArch::Other,
        n_vocab: 130,
        n_embd: 4,
        n_layer: 1,
        n_head: 2,
        n_head_kv: 1,
        head_dim: 2,
        ff_dim: 8,
        n_ctx: 16,
        rope_dim: 2,
        temp_buffer_size: 64,
        kv_cache_size_per_layer: 128,
        q_weight_k: 0,
        k_weight_k: 0,
        rms_eps: 1e-5f32.to_bits(),
        attn_logit_softcap: 0,
        final_logit_softcap: 0,
        has_qk_norm: false,
        post_norm_enabled: false,
        uses_layer_norm: false,
    }
}

fn options() -> ForwardOptions {
    ForwardOptions {
        prefill_chunk: 2,
        ffn_kind_policy: 0,
        qkv_layout_policy: 0,
        pingpong: false,
        trace_layers: false,
        disable_output_norm: false,
        override_head: false,
        external_cache: false,
    }
}

fn slots() -> [BlobBinding; 8] {
    [BlobBinding::Dummy; 8]
}

fn run(kernel: Kernel, group: usize, x: u32, y: u32) -> Step {
    Step::Run {
        kernel,
        group,
        x,
        y,
        z: 1,
    }
}

#[test]
fn a_model_is_split_over_its_chunks() {
    let bytes = gguf(&tensors(0), 1024);
    let model = BindlessModel::load(&bytes, 1000).unwrap();
    assert_eq!(model.effective_chunk, 768);
    assert_eq!(model.chunk_words(), 192);
    let chunks = (bytes.len() + 767) / 768;
    assert_eq!(model.total_resident_chunks, chunks);
    assert_eq!(model.blobs.len(), chunks);
    assert_eq!(model.blob_binding_0(), BlobBinding::Chunk(0));
    assert_eq!(model.blob_binding_1(), BlobBinding::Chunk(1));
    assert_eq!(model.blob_binding_7(), BlobBinding::Dummy);
    assert_eq!(model.buffer_for_word(200), (1, 8));
    let plain = blob_bindings_for(&model, None);
    assert_eq!(plain[1], BlobBinding::Chunk(1));
    assert_eq!(plain[7], BlobBinding::Dummy);
    // Each slot holds the chunk of its own number, as far as there are chunks.
    let single = [
        model.blob_binding_2(),
        model.blob_binding_3(),
        model.blob_binding_4(),
        model.blob_binding_5(),
        model.blob_binding_6(),
    ];
    for (i, binding) in single.into_iter().enumerate() {
        let expected = if i + 2 < chunks {
            BlobBinding::Chunk(i + 2)
        } else {
            BlobBinding::Dummy
        };
        assert_eq!(binding, expected);
        assert_eq!(plain[i + 2], expected);
    }
}

#[test]
fn no_window_binds_like_a_window_from_chunk_zero() {
    let bytes = gguf(&tensors(0), 8192);
    let model = BindlessModel::load(&bytes, 1000).unwrap();
    let first = model.layer_window(0).unwrap();
    assert_eq!(
        blob_bindings_for(&model, Some(&first)),
        blob_bindings_for(&model, None)
    );
    let second = model.layer_window(1).unwrap();
    assert_eq!(
        blob_bindings_for(&model, Some(&second))[0],
        BlobBinding::Chunk(1)
    );
}

#[test]
fn models_that_cannot_be_loaded_are_explained() {
    let bytes = gguf(&tensors(0), 1024);
    assert!(matches!(
        BindlessModel::load(&bytes, 255),
        Err(LoadError::LimitTooSmall)
    ));
    assert!(matches!(
        BindlessModel::load(b"not a model", 4096),
        Err(LoadError::Metadata(GgufError::InvalidMagic))
    ));
    match BindlessModel::load(&bytes[..bytes.len() - 1], 1 << 20) {
        Err(LoadError::Misaligned(text)) => assert!(text.starts_with("blob buffer 0 size ")),
        _ => panic!("Expected a misaligned blob"),
    }
}

#[test]
fn windows_cover_what_a_dispatch_reads() {
    let bytes = gguf(&tensors(0), 8192);
    let model = BindlessModel::load(&bytes, 256).unwrap();
    // 64 words per chunk.
    let w = model.window_for_range(64, 128).unwrap();
    assert_eq!((w.start_chunk, w.slot_count), (1, 2));
    let w = model.dequant_window(60, 4).unwrap();
    assert_eq!((w.start_chunk, w.slot_count), (0, 2));
    let w = model.rmsnorm_window(64, None, 64).unwrap();
    assert_eq!((w.start_chunk, w.slot_count), (1, 1));
    let w = model.rmsnorm_window(200, Some(64), 10).unwrap();
    assert_eq!((w.start_chunk, w.slot_count), (1, 3));
    assert!(model.window_for_range(0, 64 * 8).is_err());
}

#[test]
fn the_head_window_counts_the_rows_of_its_type() {
    let bytes = gguf(&tensors(0), 8192);
    let model = BindlessModel::load(&bytes, 256).unwrap();
    let at = model.metadata.get_tensor_offset("token_embd.weight").unwrap();
    // F32 rows of 4 columns take 16 bytes.
    let w = model.lm_head_window(16, 16, 4).unwrap();
    let first = (at + 16 * 16) / 256;
    let last = (at + 32 * 16 - 1) / 256;
    assert_eq!(w.start_chunk as u64, first);
    assert_eq!(w.slot_count as u64, last - first + 1);
}

#[test]
fn a_head_of_broken_rows_has_no_window() {
    let mut all = tensors(0);
    all[10].2 = 2;
    let model = BindlessModel::load(&gguf(&all, 1024), 256).unwrap();
    assert_eq!(
        model.lm_head_window(0, 1, 4).unwrap_err(),
        "token_embd.weight row dim 4 is not a multiple of block_elems 32 for quant type 2"
    );
    all[10].2 = 3;
    let model = BindlessModel::load(&gguf(&all, 1024), 256).unwrap();
    assert_eq!(
        model.lm_head_window(0, 1, 4).unwrap_err(),
        "unknown quant type 3 for token_embd.weight"
    );
}

#[test]
fn a_layer_window_of_a_model_is_resolved() {
    let model = BindlessModel::load(&gguf(&tensors(0), 8192), 256).unwrap();
    let entry = model.metadata.compiled_layers[0];
    let (window, base) = resolve_layer_window(&model, &entry.offsets, entry.blob_base_words);
    let window = window.unwrap();
    let query = model
        .metadata
        .get_tensor_offset("blk.0.attn_q.weight")
        .unwrap()
        / 4;
    if entry.blob_base_words >= window.window_base_words() {
        assert_eq!(
            (window.window_base_words() + base + entry.offsets.attn_q / 2) as u64,
            query
        );
    }
    assert!(window.contains(query as u32));
    let bound: [BlobBinding; 8] = window.binding_resources(&model);
    assert_eq!(bound[0], BlobBinding::Chunk(window.start_chunk));
    let none = LayerOffsets {
        attn_norm: 0,
        attn_q: 0,
        attn_k: 0,
        attn_v: 0,
        attn_out: 0,
        ffn_norm: 0,
        ffn_gate: 0,
        ffn_up: 0,
        ffn_down: 0,
        ..entry.offsets
    };
    let nothing: (Option<BlobWindow>, u32) = resolve_layer_window(&model, &none, 77);
    assert_eq!(nothing, (None, 77));
}

#[test]
fn a_hot_dequantization_reads_the_first_chunk() {
    let model = BindlessModel::load(&gguf(&tensors(0), 8192), 256).unwrap();
    let plan = BindlessPipeline::new().run_dequant_any_hot(&model);
    assert_eq!(
        plan.steps[0],
        Step::Copy {
            from: Buf::Chunk(0),
            at: 0,
            to: Buf::Read(0),
            size: 256,
        }
    );
}

#[test]
fn a_forward_pass_runs_every_layer_and_the_head() {
    let metadata = BindlessMetadata::new(&gguf(&tensors(0), 1024)).unwrap();
    let pipeline = BindlessPipeline::new();
    // Three tokens, projected two at a time.
    let plan = pipeline
        .run_full_model_with_cache_state(&slots(), 64, &metadata, &spec(), &options(), 12, 5, 8)
        .unwrap();
    let chunk = |batch_offset: u32, batch_count: u32| Step::SetChunk {
        layer: 0,
        batch_offset,
        batch_count,
    };
    assert_eq!(
        plan.steps,
        vec![
            run(Kernel::AttnNorm, 0, 1, 3),
            Step::ForceYield,
            chunk(0, 2),
            run(Kernel::Qkv, 0, 1, 2),
            Step::ForceYield,
            chunk(0, 3),
            Step::ForceYield,
            chunk(2, 1),
            run(Kernel::Qkv, 0, 1, 1),
            Step::ForceYield,
            chunk(0, 3),
            run(Kernel::QkNorm, 0, 1, 3),
            run(Kernel::AttnOut, 0, 1, 3),
            Step::YieldIfNeeded,
            run(Kernel::AttnProj, 0, 1, 3),
            run(Kernel::PostAttnNorm, 0, 1, 3),
            run(Kernel::FfnNorm, 0, 1, 3),
            run(Kernel::FfnProj, 0, 1, 3),
            run(Kernel::FfnDown, 0, 1, 3),
            Step::YieldIfNeeded,
            run(Kernel::PostFfwNorm, 0, 1, 3),
            Step::YieldIfNeeded,
            Step::Copy {
                from: Buf::Activation,
                at: 32,
                to: Buf::PreNorm,
                size: 16,
            },
            run(Kernel::RmsNorm, 1, 1, 1),
            run(Kernel::LmHeadBlob, 2, 3, 1),
            Step::Copy {
                from: Buf::Temp,
                at: 0,
                to: Buf::FinalNorm,
                size: 16,
            },
            Step::Copy {
                from: Buf::Logits,
                at: 0,
                to: Buf::Read(0),
                size: 520,
            },
            Step::Submit,
        ]
    );
    assert_eq!(plan.uniforms[0].words, vec![5, 8, 16, 3, 0, 0, 0, 0]);
    assert_eq!(
        plan.groups[1].entries[1].source,
        Source::Part(Buf::Activation, 32, 16)
    );
    assert_eq!(plan.reads, vec![Buf::PreNorm, Buf::FinalNorm, Buf::Read(0)]);
    // The residual stream starts as the input, the second one not.
    assert_eq!(plan.filled, vec![Buf::Activation]);
    assert_eq!((plan.buffers[0].size, plan.buffers[1].size), (48, 4));
    // Seven buffers of its own and two per layer for the cache.
    assert_eq!(plan.buffers.len(), 9);
}

#[test]
fn q4k_models_run_their_own_kernels() {
    let metadata = BindlessMetadata::new(&gguf(&tensors(12), 1024)).unwrap();
    let asked = ForwardOptions {
        prefill_chunk: 0,
        override_head: true,
        disable_output_norm: true,
        trace_layers: true,
        external_cache: true,
        pingpong: true,
        ..options()
    };
    let plan = BindlessPipeline::new()
        .run_full_model_with_cache_state(&slots(), 64, &metadata, &spec(), &asked, 4, 0, 1)
        .unwrap();
    assert!(plan.steps.contains(&run(Kernel::Q4kQkv, 0, 1, 1)));
    assert!(plan.steps.contains(&run(Kernel::Q4kFfnDown, 0, 1, 1)));
    // The Q4_K projection has the feed-forward norm inside.
    assert!(plan.steps.contains(&run(Kernel::Q4kFfnProj, 0, 1, 1)));
    assert!(!plan
        .steps
        .iter()
        .any(|s| matches!(s, Step::Run { kernel: Kernel::FfnNorm, .. })));
    assert!(plan.steps.contains(&run(Kernel::MatMulF32, 2, 1, 1)));
    assert!(plan.steps.contains(&Step::Trace(0)));
    assert!(!plan
        .steps
        .iter()
        .any(|s| matches!(s, Step::Run { kernel: Kernel::RmsNorm, .. })));
    assert_eq!(plan.buffers.len(), 7);
    // With two residual streams, both start as the input.
    assert_eq!(plan.filled, vec![Buf::Activation, Buf::ActivationB]);
    assert_eq!(plan.buffers[1].size, 16);
}

#[test]
fn a_first_token_has_position_zero() {
    let metadata = BindlessMetadata::new(&gguf(&tensors(0), 1024)).unwrap();
    let pipeline = BindlessPipeline::new();
    let asked = ForwardOptions {
        external_cache: true,
        ..options()
    };
    let plan = pipeline
        .run_full_model(&slots(), 64, &metadata, &spec(), &asked, 4)
        .unwrap();
    assert_eq!(plan.uniforms[0].words, vec![0, 1, 16, 1, 0, 0, 0, 0]);
    assert_eq!(plan.buffers.len(), 9);
    let later = pipeline
        .run_full_model_with_cache(&slots(), 64, &metadata, &spec(), &asked, 4, 3, 4)
        .unwrap();
    assert_eq!(later.uniforms[0].words, vec![3, 4, 16, 1, 0, 0, 0, 0]);
}

#[test]
fn models_that_cannot_run_have_no_plan() {
    let metadata = BindlessMetadata::new(&gguf(&tensors(0), 1024)).unwrap();
    let pipeline = BindlessPipeline::new();
    // No whole token.
    assert!(pipeline
        .run_full_model(&slots(), 64, &metadata, &spec(), &options(), 3)
        .is_none());
    // More layers than the file has.
    let deep = ModelSpec {
        n_layer: 2,
        ..spec()
    };
    assert!(pipeline
        .run_full_model(&slots(), 64, &metadata, &deep, &options(), 4)
        .is_none());
    // No output norm.
    let mut fewer = tensors(0);
    fewer.remove(9);
    let metadata = BindlessMetadata::new(&gguf(&fewer, 1024)).unwrap();
    assert!(pipeline
        .run_full_model(&slots(), 64, &metadata, &spec(), &options(), 4)
        .is_none());
}

#[test]
fn prefill_chunks_follow_each_other() {
    let pipeline = BindlessPipeline::new();
    let chunks = pipeline.run_full_model_prefill_chunked_with_cache_state(4, 28, 10, 3);
    assert_eq!(
        chunks,
        vec![
            PrefillChunk {
                start: 0,
                len: 12,
                current_pos: 10,
                seq_len: 13,
            },
            PrefillChunk {
                start: 12,
                len: 12,
                current_pos: 13,
                seq_len: 16,
            },
            PrefillChunk {
                start: 24,
                len: 4,
                current_pos: 16,
                seq_len: 17,
            },
        ]
    );
    assert_eq!(
        pipeline.run_full_model_prefill_chunked_with_cache_state(4, 0, 10, 3),
        vec![PrefillChunk {
            start: 0,
            len: 0,
            current_pos: 10,
            seq_len: 10,
        }]
    );
}

#[test]
fn norms_lie_in_their_slots() {
    let bytes = gguf(&tensors(0), 1024);
    let metadata = BindlessMetadata::new(&bytes).unwrap();
    let bank = build_norm_bank_from_ram(&bytes, &metadata, 1, 4);
    assert_eq!(bank.len(), 5 * 16);
    let at = |name: &str| metadata.get_tensor_offset(name).unwrap() as usize;
    let attn = at("blk.0.attn_norm.weight");
    let ffn = at("blk.0.ffn_norm.weight");
    let output = at("output_norm.weight");
    assert_eq!(&bank[0..16], &bytes[attn..attn + 16]);
    assert_eq!(&bank[16..32], &bytes[ffn..ffn + 16]);
    assert_eq!(&bank[32..64], &[0u8; 32]);
    assert_eq!(&bank[64..80], &bytes[output..output + 16]);
    // A norm that the file does not hold is left zero.
    let cut = build_norm_bank_from_ram(&bytes[..output], &metadata, 1, 4);
    assert_eq!(&cut[64..80], &[0u8; 16]);
    assert_eq!(&cut[0..64], &bank[0..64]);
}

#[test]
fn cache_elements_do_not_overlap() {
    let cache = KVCache::new(2, 2, 3, 4);
    let mut seen = Vec::new();
    for pos in 0..4 {
        for head in 0..2 {
            for dim in 0..3 {
                let at = cache.calculate_offset(pos, head, dim);
                assert!(at as u64 + 4 <= cache.get_k_buffer(0).size);
                assert!(!seen.contains(&at));
                seen.push(at);
            }
        }
    }
}

#[test]
fn an_int4_cache_has_packed_buffers_and_scales() {
    let cache = KVCache::new_int4(2, 4, 64, 2048);
    assert!(cache.is_int4());
    assert_eq!(cache.get_k_packed_buffer(1).size, 2048 * 4 * 8 * 4);
    assert_eq!(cache.get_v_packed_buffer(1).size, 2048 * 4 * 8 * 4);
    assert_eq!(cache.get_k_scale_buffer(0).size, 2048 * 4 * 4);
    assert_eq!(cache.get_v_scale_buffer(0).size, 2048 * 4 * 4);
    assert!(!KVCache::new(2, 4, 64, 2048).is_int4());
}

#[test]
fn the_window_base_advances_and_saturates() {
    let mut cache = KVCache::new(2, 4, 64, 2048);
    cache.advance_window_base(100);
    assert_eq!(cache.get_window_base(), 100);
    cache.advance_window_base(u32::MAX);
    assert_eq!(cache.get_window_base(), u32::MAX);
    cache.set_seq_len(7);
    cache.reset();
    assert_eq!(cache.get_seq_len(), 0);
    assert_eq!(cache.get_window_base(), 0);
}

#[test]
fn an_overflowing_cache_says_so() {
    let mut cache = KVCache::new(2, 4, 64, 1);
    assert!(cache.increment().is_ok());
    assert_eq!(
        cache.increment().unwrap_err(),
        "KV cache overflow: 2 > 1 (context window exceeded)"
    );
}

#[test]
fn numerals_are_faithful() {
    let mut out = String::new();
    push_decimal(&mut out, 0);
    push_decimal(&mut out, u64::MAX);
    push_hex(&mut out, 0xdead_beef);
    push_hex(&mut out, 0);
    assert_eq!(out, "018446744073709551615deadbeef0");
}

#[test]
fn a_prefill_ends_with_its_last_result() {
    assert_eq!(
        prefill_step(3, 0, Ok::<&str, String>("a")),
        Prefill::Run(1)
    );
    assert_eq!(
        prefill_step(3, 1, Ok::<&str, String>("b")),
        Prefill::Run(2)
    );
    assert_eq!(
        prefill_step(3, 2, Ok::<&str, String>("c")),
        Prefill::Done("c")
    );
}

#[test]
fn a_prefill_ends_with_its_first_error() {
    assert_eq!(
        prefill_step(3, 1, Err::<u32, &str>("device lost")),
        Prefill::Failed("device lost")
    );
    assert_eq!(
        prefill_step(3, 2, Err::<u32, &str>("device lost")),
        Prefill::Failed("device lost")
    );
}
