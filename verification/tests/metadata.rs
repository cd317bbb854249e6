use bindless::gguf::{GgufError, GgufValue};
use bindless::layers::LayerError;
use bindless::metadata::BindlessMetadata;
use bindless::names::{layer_key, NameMap};
use bindless::offsets::relative_packed_offset;
use bindless::quant::quant_type_row_bytes;
use bindless::spec::{ModelArch, ModelSpec};

fn base_spec() -> ModelSpec {
    ModelSpec {
        arch: ModelArch::Qwen3,
        n_vocab: 32000,
        n_embd: 2048,
        n_layer: 28,
        n_head: 16,
        n_head_kv: 8,
        head_dim: 64,
        ff_dim: 5632,
        n_ctx: 131072,
        rope_dim: 128,
        temp_buffer_size: 16384,
        kv_cache_size_per_layer: 4096,
        q_weight_k: 0,
        k_weight_k: 0,
        rms_eps: 0,
        attn_logit_softcap: 0,
        final_logit_softcap: 0,
        has_qk_norm: false,
        post_norm_enabled: false,
        uses_layer_norm: false,
    }
}

fn bare(
    tensor_offsets: NameMap<u64>,
    tensor_types: NameMap<u32>,
    tensor_dims: NameMap<Vec<u64>>,
) -> BindlessMetadata {
    BindlessMetadata {
        version: 3,
        tensor_count: tensor_offsets.len() as u64,
        tensor_offsets,
        tensor_types,
        tensor_dims,
        data_start_offset: 0,
        gguf_metadata: NameMap::new(),
        compiled_layers: vec![],
    }
}

fn put_string(out: &mut Vec<u8>, text: &str) {
    out.extend_from_slice(&(text.len() as u64).to_le_bytes());
    out.extend_from_slice(text.as_bytes());
}

struct Tensor {
    name: String,
    dims: Vec<u64>,
    ty: u32,
    offset: u64,
}

fn tensor(name: &str, dims: &[u64], ty: u32, offset: u64) -> Tensor {
    Tensor {
        name: name.to_string(),
        dims: dims.to_vec(),
        ty,
        offset,
    }
}

fn gguf(arch: &str, tensors: &[Tensor]) -> Vec<u8> {
    let mut out = b"GGUF".to_vec();
    out.extend_from_slice(&3u32.to_le_bytes());
    out.extend_from_slice(&(tensors.len() as u64).to_le_bytes());
    out.extend_from_slice(&1u64.to_le_bytes());
    put_string(&mut out, "general.architecture");
    out.extend_from_slice(&8u32.to_le_bytes());
    put_string(&mut out, arch);
    for t in tensors {
        put_string(&mut out, &t.name);
        out.extend_from_slice(&(t.dims.len() as u32).to_le_bytes());
        for d in &t.dims {
            out.extend_from_slice(&d.to_le_bytes());
        }
        out.extend_from_slice(&t.ty.to_le_bytes());
        out.extend_from_slice(&t.offset.to_le_bytes());
    }
    out
}

fn plain_layer() -> Vec<Tensor> {
    vec![
        tensor("blk.0.attn_norm.weight", &[64], 0, 0),
        tensor("blk.0.attn_q.weight", &[64, 64], 2, 256),
        tensor("blk.0.attn_k.weight", &[64, 32], 2, 4096),
        tensor("blk.0.attn_v.weight", &[64, 32], 14, 8192),
        tensor("blk.0.attn_output.weight", &[64, 64], 2, 12288),
        tensor("blk.0.ffn_norm.weight", &[64], 0, 16384),
        tensor("blk.0.ffn_gate.weight", &[64, 128], 2, 16640),
        tensor("blk.0.ffn_up.weight", &[64, 128], 2, 24576),
        tensor("blk.0.ffn_down.weight", &[128, 64], 12, 32768),
        tensor("output_norm.weight", &[64], 0, 40960),
    ]
}

#[test]
fn test_get_layer_offsets_missing_layer_returns_none() {
    let meta = bare(NameMap::new(), NameMap::new(), NameMap::new());
    assert!(meta.get_layer_offsets(0, "llama").is_none());
}

#[test]
fn test_get_layer_offsets_separate_qkv() {
    let mut tensor_offsets = NameMap::new();
    for (suffix, off) in [
        ("ffn_gate.weight", 100u64),
        ("attn_norm.weight", 200u64),
        ("attn_q.weight", 300u64),
        ("attn_k.weight", 400u64),
        ("attn_v.weight", 500u64),
        ("attn_output.weight", 600u64),
        ("ffn_norm.weight", 700u64),
        ("ffn_down.weight", 800u64),
        ("ffn_up.weight", 900u64),
    ] {
        tensor_offsets.insert(format!("blk.0.{suffix}"), off);
    }
    let mut tensor_types = NameMap::new();
    tensor_types.insert("blk.0.attn_q.weight".to_string(), 2u32);
    tensor_types.insert("blk.0.attn_v.weight".to_string(), 2u32);
    tensor_types.insert("blk.0.ffn_down.weight".to_string(), 12u32);

    let meta = bare(tensor_offsets, tensor_types, NameMap::new());
    let offs = meta.get_layer_offsets(0, "llama").expect("layer 0 exists");
    // The base is one aligned word before the minimum tensor offset so a
    // present ffn_gate never collides with the zero/missing sentinel.
    let base = 96;
    assert_eq!(offs.ffn_gate, relative_packed_offset(100, base).unwrap());
    assert_ne!(offs.ffn_gate, 0);
    assert_eq!(offs.attn_norm, relative_packed_offset(200, base).unwrap());
    assert_eq!(offs.attn_q, relative_packed_offset(300, base).unwrap());
    assert_eq!(offs.attn_k, relative_packed_offset(400, base).unwrap());
    assert_eq!(offs.attn_v, relative_packed_offset(500, base).unwrap());
    assert_eq!(offs.ffn_down, relative_packed_offset(800, base).unwrap());
    assert_eq!(offs.v_is_q4k, 0);
    assert_eq!(offs.ffn_down_is_q4k, 1);
    assert_eq!(offs.ffn_gate, 2);
    assert_eq!(offs.attn_norm, 52);
}

#[test]
fn test_quant_type_row_bytes_matches_fused_qkv_pattern() {
    // phi-4 merged ffn_up: Q4_K (12), in_dim 5120 => (5120/256)*144 = 2880.
    assert_eq!(quant_type_row_bytes(12, 5120), 2880);
    // F16 (1): in_dim * 2. F32 (0): in_dim * 4.
    assert_eq!(quant_type_row_bytes(1, 5120), 10240);
    assert_eq!(quant_type_row_bytes(0, 5120), 20480);
    // Q6_K (14): (cols/256)*210.
    assert_eq!(quant_type_row_bytes(14, 2560), 2100);
}

#[test]
fn test_merged_gate_up_detection_shapes() {
    // GGUF dims are [in, out]. Merged SWIGLU (phi-3/4):
    //   ffn_up  = [n_embd, 2*ff_dim]  (5120, 35840)
    //   ffn_down = [ff_dim, n_embd]   (17920, 5120)
    // Detection: up_out (35840) == 2 * down_in (17920) AND no ffn_gate tensor.
    let up_out_dim = 35840u64;
    let down_in_dim = 17920u64;
    assert_eq!(up_out_dim, down_in_dim * 2, "phi-4 merged ffn_up shape");

    // Non-merged (tinyllama): ffn_up = [n_embd, ffn_dim], ffn_down = [ffn_dim, n_embd].
    let tl_up_out = 5632u64;
    let tl_down_in = 5632u64;
    assert_ne!(tl_up_out, tl_down_in * 2, "tinyllama ffn_up is NOT merged");

    // Row stride: ff_dim rows of the merged up tensor at 2880 B/row.
    let ff_dim = down_in_dim;
    let bpr = quant_type_row_bytes(12, 5120);
    assert_eq!(ff_dim * bpr, 17920 * 2880);
    assert_eq!(ff_dim * bpr, 51_609_600);
}

#[test]
fn test_to_model_spec_head_dim_correction() {
    let mut tensor_dims = NameMap::new();
    tensor_dims.insert("blk.0.attn_q.weight".to_string(), vec![2048, 2048]);
    let meta = bare(NameMap::new(), NameMap::new(), tensor_dims);
    let (spec, corrected) = meta.to_model_spec(base_spec());
    // n_embd / n_head = 2048 / 16 = 128
    assert_eq!(spec.head_dim, 128);
    assert!(corrected);
    assert_eq!(spec.q_weight_k, 2048);
    assert_eq!(spec.k_weight_k, 0);
    assert!(!spec.has_qk_norm);
}

#[test]
fn the_head_size_is_found_under_a_longer_query_name() {
    let mut tensor_dims = NameMap::new();
    tensor_dims.insert("blk.0.extra.attn_q.weight".to_string(), vec![2048, 4096]);
    tensor_dims.insert("blk.0.attn_q_norm.weight".to_string(), vec![128]);
    tensor_dims.insert("blk.0.attn_k_norm.weight".to_string(), vec![128]);
    tensor_dims.insert("blk.0.post_attention_norm.weight".to_string(), vec![1]);
    tensor_dims.insert("blk.0.post_ffw_norm.weight".to_string(), vec![1]);
    let meta = bare(NameMap::new(), NameMap::new(), tensor_dims);
    let (spec, corrected) = meta.to_model_spec(base_spec());
    assert_eq!(spec.head_dim, 256);
    assert!(corrected);
    assert_eq!(spec.q_weight_k, 0);
    assert!(spec.has_qk_norm && spec.post_norm_enabled);
}

#[test]
fn a_head_size_that_agrees_is_kept() {
    let mut tensor_dims = NameMap::new();
    tensor_dims.insert("blk.0.attn_q.weight".to_string(), vec![2048, 1024]);
    let meta = bare(NameMap::new(), NameMap::new(), tensor_dims);
    let (spec, corrected) = meta.to_model_spec(base_spec());
    assert_eq!(spec.head_dim, 64);
    assert!(!corrected);
    let no_heads = ModelSpec {
        n_head: 0,
        ..base_spec()
    };
    assert_eq!(meta.to_model_spec(no_heads).0.head_dim, 64);
}

#[test]
fn a_file_is_scanned_into_absolute_offsets() {
    let bytes = gguf("llama", &plain_layer());
    let meta = BindlessMetadata::new(&bytes).unwrap();
    assert_eq!(meta.version, 3);
    assert_eq!(meta.tensor_count, 10);
    let start = (bytes.len() as u64 + 31) / 32 * 32;
    assert_eq!(meta.data_start_offset, start);
    assert_eq!(
        meta.get_tensor_offset("output_norm.weight"),
        Some(start + 40960)
    );
    assert_eq!(meta.get_tensor_type("blk.0.attn_v.weight"), Some(14));
    assert_eq!(meta.get_tensor_offset("no such tensor"), None);
    assert_eq!(meta.get_tensor_type("no such tensor"), None);
    match meta.gguf_metadata.get("general.architecture") {
        Some(GgufValue::String(s)) => assert_eq!(s, "llama"),
        _ => panic!("Expected the architecture"),
    }
}

#[test]
fn layers_are_compiled_relative_to_their_base() {
    let bytes = gguf("llama", &plain_layer());
    let meta = BindlessMetadata::new(&bytes).unwrap();
    assert_eq!(meta.compiled_layers.len(), 1);
    let entry = meta.compiled_layers[0];
    let base = meta.data_start_offset - 4;
    assert_eq!(entry.blob_base_words as u64, base / 4);
    assert_eq!(entry.offsets.attn_norm, 2);
    assert_eq!(entry.offsets.attn_q, 2 + 128);
    assert_eq!(entry.offsets.ffn_down, 2 + 16384);
    assert_eq!(entry.offsets.v_is_q4k, 0);
    assert_eq!(entry.offsets.ffn_down_is_q4k, 1);
    assert_eq!(entry.offsets.layer_idx, 0);
    assert_eq!(entry.quant_qk, 2);
    assert_eq!(entry.quant_v, 14);
    assert_eq!(entry.quant_ffn_down, 12);
    // A direct lookup gives what the table holds.
    assert_eq!(meta.get_layer_offsets(0, "llama"), Some(entry.offsets));
    assert_eq!(meta.get_layer_offsets(1, "llama"), None);
}

#[test]
fn merged_gate_and_up_are_told_apart() {
    let mut tensors = plain_layer();
    tensors.retain(|t| t.name != "blk.0.ffn_gate.weight" && t.name != "blk.0.ffn_up.weight");
    tensors.push(tensor("blk.0.ffn_up.weight", &[64, 256], 1, 49152));
    let bytes = gguf("phi3", &tensors);
    let meta = BindlessMetadata::new(&bytes).unwrap();
    let offsets = meta.compiled_layers[0].offsets;
    assert_eq!(offsets.ffn_gate, 2 + 49152 / 2);
    // 128 rows of 64 F16 columns lie between the two halves.
    assert_eq!(offsets.ffn_up, offsets.ffn_gate + 128 * 128 / 2);
}

#[test]
fn a_phi_block_reuses_its_only_norm() {
    let mut tensors = plain_layer();
    tensors.retain(|t| t.name != "blk.0.ffn_norm.weight");
    let phi = BindlessMetadata::new(&gguf("phi", &tensors)).unwrap();
    let offsets = phi.compiled_layers[0].offsets;
    assert_eq!(offsets.ffn_norm, offsets.attn_norm);
    assert_ne!(offsets.ffn_norm, 0);
    let other = BindlessMetadata::new(&gguf("llama", &tensors)).unwrap();
    assert_eq!(other.compiled_layers[0].offsets.ffn_norm, 0);
}

#[test]
fn a_layer_without_a_needed_tensor_is_reported() {
    let mut offsets = NameMap::new();
    offsets.insert("blk.0.attn_norm.weight".to_string(), 64u64);
    let meta = bare(offsets, NameMap::new(), NameMap::new());
    assert_eq!(
        meta.lookup_layer_offsets(0),
        Err(LayerError::MissingTensor)
    );
    assert_eq!(meta.lookup_layer_offsets(1), Ok(None));
}

#[test]
fn a_layer_that_cannot_be_packed_is_reported() {
    let mut offsets = NameMap::new();
    for (i, suffix) in [
        "attn_norm.weight",
        "attn_q.weight",
        "attn_k.weight",
        "attn_v.weight",
        "attn_output.weight",
        "ffn_norm.weight",
        "ffn_down.weight",
        "ffn_up.weight",
    ]
    .iter()
    .enumerate()
    {
        offsets.insert(format!("blk.0.{suffix}"), 64 + 4 * i as u64);
    }
    offsets.insert("blk.0.attn_q.bias".to_string(), 101);
    let meta = bare(offsets, NameMap::new(), NameMap::new());
    assert_eq!(meta.lookup_layer_offsets(0), Err(LayerError::Unpackable));
}

#[test]
fn a_file_whose_layer_cannot_be_packed_is_refused() {
    let mut tensors = plain_layer();
    tensors[1].offset = 257;
    assert_eq!(
        BindlessMetadata::new(&gguf("llama", &tensors)).unwrap_err(),
        GgufError::LayerOffsets(0)
    );
}

#[test]
fn other_files_are_refused() {
    assert_eq!(
        BindlessMetadata::new(b"GGM").unwrap_err(),
        GgufError::UnexpectedEnd
    );
    assert_eq!(
        BindlessMetadata::new(b"GGML and more").unwrap_err(),
        GgufError::InvalidMagic
    );
    assert_eq!(
        BindlessMetadata::new(b"GGUF").unwrap_err(),
        GgufError::UnexpectedEnd
    );
    let whole = gguf("llama", &plain_layer());
    assert_eq!(
        BindlessMetadata::new(&whole[..whole.len() - 1]).unwrap_err(),
        GgufError::UnexpectedEnd
    );
}

#[test]
fn an_offset_beyond_every_file_is_refused() {
    let bytes = gguf("llama", &[tensor("x", &[1], 0, u64::MAX - 8)]);
    assert_eq!(
        BindlessMetadata::new(&bytes).unwrap_err(),
        GgufError::OffsetOverflow
    );
}

#[test]
fn a_later_entry_replaces_an_earlier_one_in_place() {
    let mut map: NameMap<u64> = NameMap::new();
    map.insert("a".to_string(), 1);
    map.insert("b".to_string(), 2);
    map.insert("a".to_string(), 3);
    assert_eq!(map.len(), 2);
    assert_eq!(map.get("a"), Some(&3));
    assert!(map.contains_key("b"));
    assert!(!map.contains_key("c"));
    assert_eq!(map.entry(0).0, "a");
    assert_eq!(*map.entry(0).1, 3);
}

#[test]
fn names_of_different_layers_differ() {
    assert_eq!(layer_key(12, "attn_q.weight"), "blk.12.attn_q.weight");
    assert_ne!(layer_key(1, "attn_q.weight"), layer_key(11, "attn_q.weight"));
}

#[test]
fn a_fused_tensor_is_split_into_its_parts() {
    let mut tensors = plain_layer();
    tensors.retain(|t| {
        t.name != "blk.0.attn_q.weight"
            && t.name != "blk.0.attn_k.weight"
            && t.name != "blk.0.attn_v.weight"
    });
    tensors.push(tensor("blk.0.attn_qkv.weight", &[64, 128], 1, 49152));
    tensors.push(tensor("blk.0.attn_qkv.bias", &[128], 0, 81920));
    let meta = BindlessMetadata::new(&gguf("phi3", &tensors)).unwrap();
    let offsets = meta.compiled_layers[0].offsets;
    // Rows of 64 F16 columns: 64 of the query, then 32 each of key and value.
    assert_eq!(offsets.attn_q, 2 + 49152 / 2);
    assert_eq!(offsets.attn_k, offsets.attn_q + 64 * 128 / 2);
    assert_eq!(offsets.attn_v, offsets.attn_k + 32 * 128 / 2);
    // The fused bias splits alike, four bytes to a row.
    assert_eq!(offsets.attn_q_bias, 2 + 81920 / 2);
    assert_eq!(offsets.attn_k_bias, offsets.attn_q_bias + 64 * 4 / 2);
    assert_eq!(offsets.attn_v_bias, offsets.attn_k_bias + 32 * 4 / 2);
}

#[test]
fn tensor_data_does_not_change_the_header() {
    let header = gguf("llama", &plain_layer());
    let mut whole = header.clone();
    whole.extend_from_slice(&[0xffu8; 4096]);
    let a = BindlessMetadata::new(&header).unwrap();
    let b = BindlessMetadata::new(&whole).unwrap();
    assert_eq!(a.data_start_offset, b.data_start_offset);
    assert_eq!(a.tensor_count, b.tensor_count);
    assert_eq!(a.data_start_offset % 32, 0);
    for t in plain_layer() {
        assert_eq!(a.get_tensor_offset(&t.name), b.get_tensor_offset(&t.name));
        assert!(b.get_tensor_offset(&t.name).unwrap() >= b.data_start_offset);
    }
    assert_eq!(
        a.compiled_layers[0].offsets,
        b.compiled_layers[0].offsets
    );
}
