//! Uniform blocks of the kernels.
//!
//! Every block is a run of 32-bit words in the order of its fields, as the
//! shaders declare it. Floating-point fields are held as their bit patterns.

use crate::offsets::LayerOffsets;
use vstd::prelude::*;

verus! {

/// Uniforms of the Q4_0 dequant kernel.
#[derive(Debug, Clone, Copy, PartialEq, Eq, Structural)]
pub struct DequantParams {
    pub offset_bytes: u32,
    pub count: u32,
    pub pad1: u32,
    pub pad2: u32,
}

impl DequantParams {
    /// The words of the block.
    pub open spec fn block(self) -> Seq<u32> {
        seq![
            self.offset_bytes,
            self.count,
            self.pad1,
            self.pad2,
        ]
    }

    /// The words of the block, 4 of them.
    pub fn words(&self) -> (w: Vec<u32>)
        ensures
            w@ == self.block(),
            w@.len() == 4,
    {
        let w: Vec<u32> = vec![
            self.offset_bytes,
            self.count,
            self.pad1,
            self.pad2,
        ];
        assert(w@ =~= self.block());
        w
    }
}

/// Uniforms of the dequant kernel for any tensor type.
#[derive(Debug, Clone, Copy, PartialEq, Eq, Structural)]
pub struct DequantAnyParams {
    pub blob_base_words: u32,
    pub offset_words: u32,
    pub count: u32,
    pub formula_index: u32,
    pub chunk_words: u32,
}

impl DequantAnyParams {
    /// The words of the block.
    pub open spec fn block(self) -> Seq<u32> {
        seq![
            self.blob_base_words,
            self.offset_words,
            self.count,
            self.formula_index,
            self.chunk_words,
        ]
    }

    /// The words of the block, 5 of them.
    pub fn words(&self) -> (w: Vec<u32>)
        ensures
            w@ == self.block(),
            w@.len() == 5,
    {
        let w: Vec<u32> = vec![
            self.blob_base_words,
            self.offset_words,
            self.count,
            self.formula_index,
            self.chunk_words,
        ];
        assert(w@ =~= self.block());
        w
    }
}

/// Uniforms of the matrix-vector kernels.
#[derive(Debug, Clone, Copy, PartialEq, Eq, Structural)]
pub struct MatMulParams {
    pub n: u32,
    pub k: u32,
    pub weights_offset: u32,
    pub padding: u32,
}

impl MatMulParams {
    /// The words of the block.
    pub open spec fn block(self) -> Seq<u32> {
        seq![
            self.n,
            self.k,
            self.weights_offset,
            self.padding,
        ]
    }

    /// The words of the block, 4 of them.
    pub fn words(&self) -> (w: Vec<u32>)
        ensures
            w@ == self.block(),
            w@.len() == 4,
    {
        let w: Vec<u32> = vec![
            self.n,
            self.k,
            self.weights_offset,
            self.padding,
        ];
        assert(w@ =~= self.block());
        w
    }
}

/// Uniforms of the norm kernel.
#[derive(Debug, Clone, Copy, PartialEq, Eq, Structural)]
pub struct RMSNormParams {
    pub count: u32,
    pub weights_offset: u32,
    /// 0 = disabled; otherwise word index (byte_offset / 4)
    pub bias_offset: u32,
    /// Bits of an `f32`.
    pub eps: u32,
    /// 0 = RMSNorm, 1 = LayerNorm (mean+variance)
    pub norm_type: u32,
    /// Words per blob chunk.
    pub chunk_words: u32,
}

impl RMSNormParams {
    /// The words of the block.
    pub open spec fn block(self) -> Seq<u32> {
        seq![
            self.count,
            self.weights_offset,
            self.bias_offset,
            self.eps,
            self.norm_type,
            self.chunk_words,
        ]
    }

    /// The words of the block, 6 of them.
    pub fn words(&self) -> (w: Vec<u32>)
        ensures
            w@ == self.block(),
            w@.len() == 6,
    {
        let w: Vec<u32> = vec![
            self.count,
            self.weights_offset,
            self.bias_offset,
            self.eps,
            self.norm_type,
            self.chunk_words,
        ];
        assert(w@ =~= self.block());
        w
    }
}

/// Uniforms of the layer kernels.
#[derive(Debug, Clone, Copy, PartialEq, Eq, Structural)]
pub struct LayerParams {
    pub dim: u32,
    pub head_count: u32,
    pub head_count_kv: u32,
    pub head_dim: u32,
    pub rope_dim: u32,
    /// Bits of an `f32`.
    pub rms_eps: u32,
    /// Feed-forward intermediate dimension
    pub ffn_dim: u32,
    /// Per-token temp buffer stride in floats
    pub temp_stride: u32,
    /// attn_q / attn_k
    pub quant_qk: u32,
    /// attn_v
    pub quant_v: u32,
    /// attn_output
    pub quant_attn_out: u32,
    /// ffn_down
    pub quant_ffn_down: u32,
    /// ffn_gate
    pub quant_ffn_gate: u32,
    /// ffn_up
    pub quant_ffn_up: u32,
    /// Bits of an `f32`; 0.0 = disabled.
    pub attn_logit_softcap: u32,
    /// 1 = apply post-attn and post-ffw norm (Gemma-2)
    pub post_norm_enabled: u32,
    /// 1 = apply per-head Q/K RMSNorm before RoPE (Qwen3)
    pub qk_norm_enabled: u32,
    /// 1 = use LayerNorm math in layer norms (Phi-family)
    pub layer_norm_enabled: u32,
    /// 0 = infer from offsets, 1 = gated, 2 = non-gated
    pub ffn_kind_policy: u32,
    /// 0 = infer from offsets, 1 = separate, 2 = fused
    pub qkv_layout_policy: u32,
    /// First token of this QKV chunk.
    pub batch_offset: u32,
    /// Number of tokens of this QKV chunk.
    pub batch_count: u32,
    /// Stored columns of attn_q.weight; 0 = use dim.
    pub q_weight_k: u32,
    /// Stored columns of attn_k.weight; 0 = use dim.
    pub k_weight_k: u32,
    /// Formula slot of attn_q / attn_k.
    pub formula_qk: u32,
    /// Formula slot of attn_v.
    pub formula_v: u32,
    /// Formula slot of attn_output.
    pub formula_attn_out: u32,
    /// Formula slot of ffn_down.
    pub formula_ffn_down: u32,
    /// Formula slot of ffn_gate.
    pub formula_ffn_gate: u32,
    /// Formula slot of ffn_up.
    pub formula_ffn_up: u32,
    /// Word offset of the layer's base byte in the blob.
    pub blob_base_words: u32,
    /// Words per blob chunk.
    pub chunk_words: u32,
    /// 1 = plain RMSNorm on V before attention
    pub v_plain_rms_norm: u32,
    /// 1 = scale the final block residual
    pub out_scale_enabled: u32,
    /// Latent embedding dim per layer; 0 = disabled
    pub ple_latent_dim: u32,
    /// 1 = this layer runs the PLE block
    pub ple_enabled: u32,
    /// Bits of an `f32`; 0.0 = use 1/sqrt(head_dim).
    pub attn_scale_override: u32,
}

impl LayerParams {
    /// The words of the block.
    pub open spec fn block(self) -> Seq<u32> {
        seq![
            self.dim,
            self.head_count,
            self.head_count_kv,
            self.head_dim,
            self.rope_dim,
            self.rms_eps,
            self.ffn_dim,
            self.temp_stride,
            self.quant_qk,
            self.quant_v,
            self.quant_attn_out,
            self.quant_ffn_down,
            self.quant_ffn_gate,
            self.quant_ffn_up,
            self.attn_logit_softcap,
            self.post_norm_enabled,
            self.qk_norm_enabled,
            self.layer_norm_enabled,
            self.ffn_kind_policy,
            self.qkv_layout_policy,
            self.batch_offset,
            self.batch_count,
            self.q_weight_k,
            self.k_weight_k,
            self.formula_qk,
            self.formula_v,
            self.formula_attn_out,
            self.formula_ffn_down,
            self.formula_ffn_gate,
            self.formula_ffn_up,
            self.blob_base_words,
            self.chunk_words,
            self.v_plain_rms_norm,
            self.out_scale_enabled,
            self.ple_latent_dim,
            self.ple_enabled,
            self.attn_scale_override,
        ]
    }

    /// The words of the block, 37 of them.
    pub fn words(&self) -> (w: Vec<u32>)
        ensures
            w@ == self.block(),
            w@.len() == 37,
    {
        let w: Vec<u32> = vec![
            self.dim,
            self.head_count,
            self.head_count_kv,
            self.head_dim,
            self.rope_dim,
            self.rms_eps,
            self.ffn_dim,
            self.temp_stride,
            self.quant_qk,
            self.quant_v,
            self.quant_attn_out,
            self.quant_ffn_down,
            self.quant_ffn_gate,
            self.quant_ffn_up,
            self.attn_logit_softcap,
            self.post_norm_enabled,
            self.qk_norm_enabled,
            self.layer_norm_enabled,
            self.ffn_kind_policy,
            self.qkv_layout_policy,
            self.batch_offset,
            self.batch_count,
            self.q_weight_k,
            self.k_weight_k,
            self.formula_qk,
            self.formula_v,
            self.formula_attn_out,
            self.formula_ffn_down,
            self.formula_ffn_gate,
            self.formula_ffn_up,
            self.blob_base_words,
            self.chunk_words,
            self.v_plain_rms_norm,
            self.out_scale_enabled,
            self.ple_latent_dim,
            self.ple_enabled,
            self.attn_scale_override,
        ];
        assert(w@ =~= self.block());
        w
    }
}

/// Where the first token of the chunk stands among the words of [`LayerParams`].
pub const BATCH_OFFSET_WORD: usize = 20;

/// Where the number of tokens of the chunk stands among the words of
/// [`LayerParams`].
pub const BATCH_COUNT_WORD: usize = 21;

/// Rewrites the words of layer uniforms for a chunk of the batch.
pub fn rewrite_chunk(words: &mut Vec<u32>, batch_offset: u32, batch_count: u32)
    requires
        old(words)@.len() == 37,
    ensures
        final(words)@ == old(words)@.update(BATCH_OFFSET_WORD as int, batch_offset).update(
            BATCH_COUNT_WORD as int,
            batch_count,
        ),
{
    words.set(BATCH_OFFSET_WORD, batch_offset);
    words.set(BATCH_COUNT_WORD, batch_count);
}

/// Rewriting the words for a chunk gives the words of the uniforms with that chunk:
/// nothing else changes, and the whole batch can be restored.
pub proof fn law_rewriting_sets_the_chunk(p: LayerParams, batch_offset: u32, batch_count: u32)
    ensures
        p.block().update(BATCH_OFFSET_WORD as int, batch_offset).update(
            BATCH_COUNT_WORD as int,
            batch_count,
        ) == (LayerParams { batch_offset, batch_count, ..p }).block(),
{
    assert(p.block().update(BATCH_OFFSET_WORD as int, batch_offset).update(
        BATCH_COUNT_WORD as int,
        batch_count,
    ) =~= (LayerParams { batch_offset, batch_count, ..p }).block());
}

/// Uniforms of the KV quantization kernel.
#[derive(Debug, Clone, Copy, PartialEq, Eq, Structural)]
pub struct QuantizeKvParams {
    /// Number of KV heads
    pub n_head_kv: u32,
    /// Elements per head-vector (a multiple of 8)
    pub head_dim: u32,
    /// Base position
    pub pos_offset: u32,
    pub _pad: u32,
}

impl QuantizeKvParams {
    /// The words of the block.
    pub open spec fn block(self) -> Seq<u32> {
        seq![
            self.n_head_kv,
            self.head_dim,
            self.pos_offset,
            self._pad,
        ]
    }

    /// The words of the block, 4 of them.
    pub fn words(&self) -> (w: Vec<u32>)
        ensures
            w@ == self.block(),
            w@.len() == 4,
    {
        let w: Vec<u32> = vec![
            self.n_head_kv,
            self.head_dim,
            self.pos_offset,
            self._pad,
        ];
        assert(w@ =~= self.block());
        w
    }
}

/// Uniforms that say where a dispatch writes and reads the KV cache.
#[derive(Debug, Clone, Copy, PartialEq, Eq, Structural)]
pub struct CacheParams {
    /// Position to write new K/V (0-based)
    pub current_pos: u32,
    /// Total cached positions
    pub seq_len: u32,
    /// Context window
    pub max_seq_len: u32,
    /// Number of tokens in current batch
    pub batch_size: u32,
    /// Logical base of the compacted sliding window
    pub logical_pos_base: u32,
    pub pad1: u32,
    pub pad2: u32,
    pub pad3: u32,
}

impl CacheParams {
    /// The words of the block.
    pub open spec fn block(self) -> Seq<u32> {
        seq![
            self.current_pos,
            self.seq_len,
            self.max_seq_len,
            self.batch_size,
            self.logical_pos_base,
            self.pad1,
            self.pad2,
            self.pad3,
        ]
    }

    /// The words of the block, 8 of them.
    pub fn words(&self) -> (w: Vec<u32>)
        ensures
            w@ == self.block(),
            w@.len() == 8,
    {
        let w: Vec<u32> = vec![
            self.current_pos,
            self.seq_len,
            self.max_seq_len,
            self.batch_size,
            self.logical_pos_base,
            self.pad1,
            self.pad2,
            self.pad3,
        ];
        assert(w@ =~= self.block());
        w
    }
}

/// Uniforms of the blob-based head kernel.
#[derive(Debug, Clone, Copy, PartialEq, Eq, Structural)]
pub struct HeadBlobParams {
    /// Rows of the head weights
    pub vocab_size: u32,
    /// Columns of the head weights
    pub dim: u32,
    /// Word offset of the head weights in the blob
    pub weight_off: u32,
    /// Formula slot of the head weights
    pub formula_index: u32,
    /// Bits of an `f32`; 0.0 = disabled.
    pub softcap: u32,
    /// First output row of this tile
    pub base_row: u32,
    /// Words per blob chunk
    pub chunk_words: u32,
}

impl HeadBlobParams {
    /// The words of the block.
    pub open spec fn block(self) -> Seq<u32> {
        seq![
            self.vocab_size,
            self.dim,
            self.weight_off,
            self.formula_index,
            self.softcap,
            self.base_row,
            self.chunk_words,
        ]
    }

    /// The words of the block, 7 of them.
    pub fn words(&self) -> (w: Vec<u32>)
        ensures
            w@ == self.block(),
            w@.len() == 7,
    {
        let w: Vec<u32> = vec![
            self.vocab_size,
            self.dim,
            self.weight_off,
            self.formula_index,
            self.softcap,
            self.base_row,
            self.chunk_words,
        ];
        assert(w@ =~= self.block());
        w
    }
}

/// Uniforms of the PLE per-layer latent input kernel.
#[derive(Debug, Clone, Copy, PartialEq, Eq, Structural)]
pub struct PleInputParams {
    pub latent: u32,
    pub n_layer: u32,
    pub n_tokens: u32,
    pub n_embd: u32,
    /// Packed offset of per_layer_token_embd
    pub token_embd_off: u32,
    /// Bytes per token row
    pub token_embd_row_bytes: u32,
    /// Packed offset of per_layer_model_proj
    pub model_proj_off: u32,
    /// Packed offset of per_layer_proj_norm
    pub proj_norm_off: u32,
    /// Bits of an `f32`.
    pub rms_eps: u32,
    pub blob_base_words: u32,
    pub chunk_words: u32,
}

impl PleInputParams {
    /// The words of the block.
    pub open spec fn block(self) -> Seq<u32> {
        seq![
            self.latent,
            self.n_layer,
            self.n_tokens,
            self.n_embd,
            self.token_embd_off,
            self.token_embd_row_bytes,
            self.model_proj_off,
            self.proj_norm_off,
            self.rms_eps,
            self.blob_base_words,
            self.chunk_words,
        ]
    }

    /// The words of the block, 11 of them.
    pub fn words(&self) -> (w: Vec<u32>)
        ensures
            w@ == self.block(),
            w@.len() == 11,
    {
        let w: Vec<u32> = vec![
            self.latent,
            self.n_layer,
            self.n_tokens,
            self.n_embd,
            self.token_embd_off,
            self.token_embd_row_bytes,
            self.model_proj_off,
            self.proj_norm_off,
            self.rms_eps,
            self.blob_base_words,
            self.chunk_words,
        ];
        assert(w@ =~= self.block());
        w
    }
}

/// Uniforms of the PLE block residual kernel.
#[derive(Debug, Clone, Copy, PartialEq, Eq, Structural)]
pub struct PleBlockParams {
    pub dim: u32,
    pub latent: u32,
    pub temp_stride: u32,
    /// Bits of an `f32`.
    pub rms_eps: u32,
    pub out_scale_enabled: u32,
    pub scratch_base: u32,
    pub blob_base_words: u32,
    pub chunk_words: u32,
}

impl PleBlockParams {
    /// The words of the block.
    pub open spec fn block(self) -> Seq<u32> {
        seq![
            self.dim,
            self.latent,
            self.temp_stride,
            self.rms_eps,
            self.out_scale_enabled,
            self.scratch_base,
            self.blob_base_words,
            self.chunk_words,
        ]
    }

    /// The words of the block, 8 of them.
    pub fn words(&self) -> (w: Vec<u32>)
        ensures
            w@ == self.block(),
            w@.len() == 8,
    {
        let w: Vec<u32> = vec![
            self.dim,
            self.latent,
            self.temp_stride,
            self.rms_eps,
            self.out_scale_enabled,
            self.scratch_base,
            self.blob_base_words,
            self.chunk_words,
        ];
        assert(w@ =~= self.block());
        w
    }
}

/// Uniforms of the context shift kernels.
#[derive(Debug, Clone, Copy, PartialEq, Eq, Structural)]
pub struct CompactionParams {
    /// Tokens kept at the start
    pub keep_sink: u32,
    /// Tokens dropped behind them
    pub shift_amt: u32,
    pub old_seq_len: u32,
    pub n_head_kv: u32,
    pub head_dim: u32,
    pub rope_dim: u32,
    /// Bits of an `f32`.
    pub rope_base: u32,
    pub max_seq_len: u32,
}

impl CompactionParams {
    /// The words of the block.
    pub open spec fn block(self) -> Seq<u32> {
        seq![
            self.keep_sink,
            self.shift_amt,
            self.old_seq_len,
            self.n_head_kv,
            self.head_dim,
            self.rope_dim,
            self.rope_base,
            self.max_seq_len,
        ]
    }

    /// The words of the block, 8 of them.
    pub fn words(&self) -> (w: Vec<u32>)
        ensures
            w@ == self.block(),
            w@.len() == 8,
    {
        let w: Vec<u32> = vec![
            self.keep_sink,
            self.shift_amt,
            self.old_seq_len,
            self.n_head_kv,
            self.head_dim,
            self.rope_dim,
            self.rope_base,
            self.max_seq_len,
        ];
        assert(w@ =~= self.block());
        w
    }
}

/// Byte offsets into the vision blob for one ViT transformer block.
#[derive(Debug, Clone, Copy, PartialEq, Eq, Structural)]
pub struct VitBlockOffsets {
    pub ln1_w: u32,
    pub ln1_b: u32,
    pub attn_q_w: u32,
    pub attn_q_b: u32,
    pub attn_k_w: u32,
    pub attn_k_b: u32,
    pub attn_v_w: u32,
    pub attn_v_b: u32,
    pub attn_o_w: u32,
    pub attn_o_b: u32,
    pub ln2_w: u32,
    pub ln2_b: u32,
    pub ffn_up_w: u32,
    pub ffn_up_b: u32,
    pub ffn_dn_w: u32,
    pub ffn_dn_b: u32,
}

impl VitBlockOffsets {
    /// The words of the block.
    pub open spec fn block(self) -> Seq<u32> {
        seq![
            self.ln1_w,
            self.ln1_b,
            self.attn_q_w,
            self.attn_q_b,
            self.attn_k_w,
            self.attn_k_b,
            self.attn_v_w,
            self.attn_v_b,
            self.attn_o_w,
            self.attn_o_b,
            self.ln2_w,
            self.ln2_b,
            self.ffn_up_w,
            self.ffn_up_b,
            self.ffn_dn_w,
            self.ffn_dn_b,
        ]
    }

    /// The words of the block, 16 of them.
    pub fn words(&self) -> (w: Vec<u32>)
        ensures
            w@ == self.block(),
            w@.len() == 16,
    {
        let w: Vec<u32> = vec![
            self.ln1_w,
            self.ln1_b,
            self.attn_q_w,
            self.attn_q_b,
            self.attn_k_w,
            self.attn_k_b,
            self.attn_v_w,
            self.attn_v_b,
            self.attn_o_w,
            self.attn_o_b,
            self.ln2_w,
            self.ln2_b,
            self.ffn_up_w,
            self.ffn_up_b,
            self.ffn_dn_w,
            self.ffn_dn_b,
        ];
        assert(w@ =~= self.block());
        w
    }
}

/// ViT model dimensions and runtime parameters.
#[derive(Debug, Clone, Copy, PartialEq, Eq, Structural)]
pub struct VitParams {
    pub hidden_dim: u32,
    pub n_heads: u32,
    pub head_dim: u32,
    pub mlp_dim: u32,
    /// Patches per tile
    pub n_tokens: u32,
    /// Bits of an `f32`.
    pub ln_eps: u32,
    pub pad0: u32,
    pub pad1: u32,
}

impl VitParams {
    /// The words of the block.
    pub open spec fn block(self) -> Seq<u32> {
        seq![
            self.hidden_dim,
            self.n_heads,
            self.head_dim,
            self.mlp_dim,
            self.n_tokens,
            self.ln_eps,
            self.pad0,
            self.pad1,
        ]
    }

    /// The words of the block, 8 of them.
    pub fn words(&self) -> (w: Vec<u32>)
        ensures
            w@ == self.block(),
            w@.len() == 8,
    {
        let w: Vec<u32> = vec![
            self.hidden_dim,
            self.n_heads,
            self.head_dim,
            self.mlp_dim,
            self.n_tokens,
            self.ln_eps,
            self.pad0,
            self.pad1,
        ];
        assert(w@ =~= self.block());
        w
    }
}

/// Byte offsets into the vision blob for the Resampler module.
#[derive(Debug, Clone, Copy, PartialEq, Eq, Structural)]
pub struct ResamplerOffsets {
    pub query_embeds: u32,
    pub kv_weight: u32,
    pub ln_q_w: u32,
    pub ln_q_b: u32,
    pub ln_kv_w: u32,
    pub ln_kv_b: u32,
    pub attn_q_w: u32,
    pub attn_q_b: u32,
    pub attn_k_w: u32,
    pub attn_k_b: u32,
    pub attn_v_w: u32,
    pub attn_v_b: u32,
    pub attn_out_w: u32,
    pub attn_out_b: u32,
    pub pos_embed_k: u32,
    pub ln_post_w: u32,
    pub ln_post_b: u32,
    pub proj_w: u32,
    pub pad0: u32,
    pub pad1: u32,
}

impl ResamplerOffsets {
    /// The words of the block.
    pub open spec fn block(self) -> Seq<u32> {
        seq![
            self.query_embeds,
            self.kv_weight,
            self.ln_q_w,
            self.ln_q_b,
            self.ln_kv_w,
            self.ln_kv_b,
            self.attn_q_w,
            self.attn_q_b,
            self.attn_k_w,
            self.attn_k_b,
            self.attn_v_w,
            self.attn_v_b,
            self.attn_out_w,
            self.attn_out_b,
            self.pos_embed_k,
            self.ln_post_w,
            self.ln_post_b,
            self.proj_w,
            self.pad0,
            self.pad1,
        ]
    }

    /// The words of the block, 20 of them.
    pub fn words(&self) -> (w: Vec<u32>)
        ensures
            w@ == self.block(),
            w@.len() == 20,
    {
        let w: Vec<u32> = vec![
            self.query_embeds,
            self.kv_weight,
            self.ln_q_w,
            self.ln_q_b,
            self.ln_kv_w,
            self.ln_kv_b,
            self.attn_q_w,
            self.attn_q_b,
            self.attn_k_w,
            self.attn_k_b,
            self.attn_v_w,
            self.attn_v_b,
            self.attn_out_w,
            self.attn_out_b,
            self.pos_embed_k,
            self.ln_post_w,
            self.ln_post_b,
            self.proj_w,
            self.pad0,
            self.pad1,
        ];
        assert(w@ =~= self.block());
        w
    }
}

/// Resampler dimensions.
#[derive(Debug, Clone, Copy, PartialEq, Eq, Structural)]
pub struct ResamplerParams {
    pub n_queries: u32,
    pub n_vit: u32,
    pub d_model: u32,
    pub kv_dim: u32,
    pub n_heads: u32,
    pub head_dim: u32,
    /// Bits of an `f32`.
    pub ln_eps: u32,
    pub pad0: u32,
}

impl ResamplerParams {
    /// The words of the block.
    pub open spec fn block(self) -> Seq<u32> {
        seq![
            self.n_queries,
            self.n_vit,
            self.d_model,
            self.kv_dim,
            self.n_heads,
            self.head_dim,
            self.ln_eps,
            self.pad0,
        ]
    }

    /// The words of the block, 8 of them.
    pub fn words(&self) -> (w: Vec<u32>)
        ensures
            w@ == self.block(),
            w@.len() == 8,
    {
        let w: Vec<u32> = vec![
            self.n_queries,
            self.n_vit,
            self.d_model,
            self.kv_dim,
            self.n_heads,
            self.head_dim,
            self.ln_eps,
            self.pad0,
        ];
        assert(w@ =~= self.block());
        w
    }
}

impl LayerOffsets {
    /// The words of the block.
    pub open spec fn block(self) -> Seq<u32> {
        seq![
            self.attn_norm,
            self.attn_norm_bias,
            self.attn_q,
            self.attn_k,
            self.attn_v,
            self.attn_out,
            self.ffn_norm,
            self.ffn_norm_bias,
            self.ffn_gate,
            self.ffn_down,
            self.ffn_up,
            self.layer_idx,
            self.attn_q_norm,
            self.attn_k_norm,
            self.attn_q_bias,
            self.attn_k_bias,
            self.attn_v_bias,
            self.v_is_q4k,
            self.ffn_down_is_q4k,
            self.ple_inp_gate,
            self.ple_proj,
            self.ple_layer_output_scale,
            self.ple_rope_freqs,
            self.ple_attn_post_norm,
            self.ple_ffn_post_norm,
            self.ple_post_norm,
            self.ple_enabled,
        ]
    }

    /// The words of the block, 27 of them.
    pub fn words(&self) -> (w: Vec<u32>)
        ensures
            w@ == self.block(),
            w@.len() == 27,
    {
        let w: Vec<u32> = vec![
            self.attn_norm,
            self.attn_norm_bias,
            self.attn_q,
            self.attn_k,
            self.attn_v,
            self.attn_out,
            self.ffn_norm,
            self.ffn_norm_bias,
            self.ffn_gate,
            self.ffn_down,
            self.ffn_up,
            self.layer_idx,
            self.attn_q_norm,
            self.attn_k_norm,
            self.attn_q_bias,
            self.attn_k_bias,
            self.attn_v_bias,
            self.v_is_q4k,
            self.ffn_down_is_q4k,
            self.ple_inp_gate,
            self.ple_proj,
            self.ple_layer_output_scale,
            self.ple_rope_freqs,
            self.ple_attn_post_norm,
            self.ple_ffn_post_norm,
            self.ple_post_norm,
            self.ple_enabled,
        ];
        assert(w@ =~= self.block());
        w
    }
}

} // verus!
