//! Where each uniform stands.
//!
//! A shader declares its uniforms as a struct of 32-bit words and reads them by
//! position. The laws here say which word of a block each field is.

use crate::offsets::LayerOffsets;
use crate::params::{
    CacheParams, CompactionParams, DequantAnyParams, DequantParams, HeadBlobParams,
    LayerParams, MatMulParams, PleBlockParams, PleInputParams, QuantizeKvParams, RMSNormParams,
    ResamplerOffsets, ResamplerParams, VitBlockOffsets, VitParams,
};
use vstd::prelude::*;

verus! {

/// The words of the Q4_0 dequant kernel.
pub proof fn law_dequant_words(p: DequantParams)
    ensures
        p.block().len() == 4,
        p.block()[0] == p.offset_bytes,
        p.block()[1] == p.count,
        p.block()[2] == p.pad1,
        p.block()[3] == p.pad2,
{
}

/// The words of the dequant kernel for any tensor type.
pub proof fn law_dequant_any_words(p: DequantAnyParams)
    ensures
        p.block().len() == 5,
        p.block()[0] == p.blob_base_words,
        p.block()[1] == p.offset_words,
        p.block()[2] == p.count,
        p.block()[3] == p.formula_index,
        p.block()[4] == p.chunk_words,
{
}

/// The words of the matrix-vector kernels.
pub proof fn law_matmul_words(p: MatMulParams)
    ensures
        p.block().len() == 4,
        p.block()[0] == p.n,
        p.block()[1] == p.k,
        p.block()[2] == p.weights_offset,
        p.block()[3] == p.padding,
{
}

/// The words of the norm kernel.
pub proof fn law_norm_words(p: RMSNormParams)
    ensures
        p.block().len() == 6,
        p.block()[0] == p.count,
        p.block()[1] == p.weights_offset,
        p.block()[2] == p.bias_offset,
        p.block()[3] == p.eps,
        p.block()[4] == p.norm_type,
        p.block()[5] == p.chunk_words,
{
}

/// The words of the layer kernels.
pub proof fn law_layer_words(p: LayerParams)
    ensures
        p.block().len() == 37,
        p.block()[0] == p.dim,
        p.block()[1] == p.head_count,
        p.block()[2] == p.head_count_kv,
        p.block()[3] == p.head_dim,
        p.block()[4] == p.rope_dim,
        p.block()[5] == p.rms_eps,
        p.block()[6] == p.ffn_dim,
        p.block()[7] == p.temp_stride,
        p.block()[8] == p.quant_qk,
        p.block()[9] == p.quant_v,
        p.block()[10] == p.quant_attn_out,
        p.block()[11] == p.quant_ffn_down,
        p.block()[12] == p.quant_ffn_gate,
        p.block()[13] == p.quant_ffn_up,
        p.block()[14] == p.attn_logit_softcap,
        p.block()[15] == p.post_norm_enabled,
        p.block()[16] == p.qk_norm_enabled,
        p.block()[17] == p.layer_norm_enabled,
        p.block()[18] == p.ffn_kind_policy,
        p.block()[19] == p.qkv_layout_policy,
        p.block()[20] == p.batch_offset,
        p.block()[21] == p.batch_count,
        p.block()[22] == p.q_weight_k,
        p.block()[23] == p.k_weight_k,
        p.block()[24] == p.formula_qk,
        p.block()[25] == p.formula_v,
        p.block()[26] == p.formula_attn_out,
        p.block()[27] == p.formula_ffn_down,
        p.block()[28] == p.formula_ffn_gate,
        p.block()[29] == p.formula_ffn_up,
        p.block()[30] == p.blob_base_words,
        p.block()[31] == p.chunk_words,
        p.block()[32] == p.v_plain_rms_norm,
        p.block()[33] == p.out_scale_enabled,
        p.block()[34] == p.ple_latent_dim,
        p.block()[35] == p.ple_enabled,
        p.block()[36] == p.attn_scale_override,
{
}

/// The words of the KV quantization kernel.
pub proof fn law_quantize_words(p: QuantizeKvParams)
    ensures
        p.block().len() == 4,
        p.block()[0] == p.n_head_kv,
        p.block()[1] == p.head_dim,
        p.block()[2] == p.pos_offset,
        p.block()[3] == p._pad,
{
}

/// The words of the kernels that use the KV cache.
pub proof fn law_cache_words(p: CacheParams)
    ensures
        p.block().len() == 8,
        p.block()[0] == p.current_pos,
        p.block()[1] == p.seq_len,
        p.block()[2] == p.max_seq_len,
        p.block()[3] == p.batch_size,
        p.block()[4] == p.logical_pos_base,
        p.block()[5] == p.pad1,
        p.block()[6] == p.pad2,
        p.block()[7] == p.pad3,
{
}

/// The words of the head kernel.
pub proof fn law_head_words(p: HeadBlobParams)
    ensures
        p.block().len() == 7,
        p.block()[0] == p.vocab_size,
        p.block()[1] == p.dim,
        p.block()[2] == p.weight_off,
        p.block()[3] == p.formula_index,
        p.block()[4] == p.softcap,
        p.block()[5] == p.base_row,
        p.block()[6] == p.chunk_words,
{
}

/// The words of the PLE input kernel.
pub proof fn law_ple_input_words(p: PleInputParams)
    ensures
        p.block().len() == 11,
        p.block()[0] == p.latent,
        p.block()[1] == p.n_layer,
        p.block()[2] == p.n_tokens,
        p.block()[3] == p.n_embd,
        p.block()[4] == p.token_embd_off,
        p.block()[5] == p.token_embd_row_bytes,
        p.block()[6] == p.model_proj_off,
        p.block()[7] == p.proj_norm_off,
        p.block()[8] == p.rms_eps,
        p.block()[9] == p.blob_base_words,
        p.block()[10] == p.chunk_words,
{
}

/// The words of the PLE block kernel.
pub proof fn law_ple_block_words(p: PleBlockParams)
    ensures
        p.block().len() == 8,
        p.block()[0] == p.dim,
        p.block()[1] == p.latent,
        p.block()[2] == p.temp_stride,
        p.block()[3] == p.rms_eps,
        p.block()[4] == p.out_scale_enabled,
        p.block()[5] == p.scratch_base,
        p.block()[6] == p.blob_base_words,
        p.block()[7] == p.chunk_words,
{
}

/// The words of the context shift.
pub proof fn law_shift_words(p: CompactionParams)
    ensures
        p.block().len() == 8,
        p.block()[0] == p.keep_sink,
        p.block()[1] == p.shift_amt,
        p.block()[2] == p.old_seq_len,
        p.block()[3] == p.n_head_kv,
        p.block()[4] == p.head_dim,
        p.block()[5] == p.rope_dim,
        p.block()[6] == p.rope_base,
        p.block()[7] == p.max_seq_len,
{
}

/// The words of a ViT block, which say where its tensors lie.
pub proof fn law_vit_offset_words(p: VitBlockOffsets)
    ensures
        p.block().len() == 16,
        p.block()[0] == p.ln1_w,
        p.block()[1] == p.ln1_b,
        p.block()[2] == p.attn_q_w,
        p.block()[3] == p.attn_q_b,
        p.block()[4] == p.attn_k_w,
        p.block()[5] == p.attn_k_b,
        p.block()[6] == p.attn_v_w,
        p.block()[7] == p.attn_v_b,
        p.block()[8] == p.attn_o_w,
        p.block()[9] == p.attn_o_b,
        p.block()[10] == p.ln2_w,
        p.block()[11] == p.ln2_b,
        p.block()[12] == p.ffn_up_w,
        p.block()[13] == p.ffn_up_b,
        p.block()[14] == p.ffn_dn_w,
        p.block()[15] == p.ffn_dn_b,
{
}

/// The words of the ViT kernels.
pub proof fn law_vit_words(p: VitParams)
    ensures
        p.block().len() == 8,
        p.block()[0] == p.hidden_dim,
        p.block()[1] == p.n_heads,
        p.block()[2] == p.head_dim,
        p.block()[3] == p.mlp_dim,
        p.block()[4] == p.n_tokens,
        p.block()[5] == p.ln_eps,
        p.block()[6] == p.pad0,
        p.block()[7] == p.pad1,
{
}

/// The words of the resampler, which say where its tensors lie.
pub proof fn law_resampler_offset_words(p: ResamplerOffsets)
    ensures
        p.block().len() == 20,
        p.block()[0] == p.query_embeds,
        p.block()[1] == p.kv_weight,
        p.block()[2] == p.ln_q_w,
        p.block()[3] == p.ln_q_b,
        p.block()[4] == p.ln_kv_w,
        p.block()[5] == p.ln_kv_b,
        p.block()[6] == p.attn_q_w,
        p.block()[7] == p.attn_q_b,
        p.block()[8] == p.attn_k_w,
        p.block()[9] == p.attn_k_b,
        p.block()[10] == p.attn_v_w,
        p.block()[11] == p.attn_v_b,
        p.block()[12] == p.attn_out_w,
        p.block()[13] == p.attn_out_b,
        p.block()[14] == p.pos_embed_k,
        p.block()[15] == p.ln_post_w,
        p.block()[16] == p.ln_post_b,
        p.block()[17] == p.proj_w,
        p.block()[18] == p.pad0,
        p.block()[19] == p.pad1,
{
}

/// The words of the resampler kernels.
pub proof fn law_resampler_words(p: ResamplerParams)
    ensures
        p.block().len() == 8,
        p.block()[0] == p.n_queries,
        p.block()[1] == p.n_vit,
        p.block()[2] == p.d_model,
        p.block()[3] == p.kv_dim,
        p.block()[4] == p.n_heads,
        p.block()[5] == p.head_dim,
        p.block()[6] == p.ln_eps,
        p.block()[7] == p.pad0,
{
}

/// The words of a layer, which say where its tensors lie.
pub proof fn law_layer_offset_words(p: LayerOffsets)
    ensures
        p.block().len() == 27,
        p.block()[0] == p.attn_norm,
        p.block()[1] == p.attn_norm_bias,
        p.block()[2] == p.attn_q,
        p.block()[3] == p.attn_k,
        p.block()[4] == p.attn_v,
        p.block()[5] == p.attn_out,
        p.block()[6] == p.ffn_norm,
        p.block()[7] == p.ffn_norm_bias,
        p.block()[8] == p.ffn_gate,
        p.block()[9] == p.ffn_down,
        p.block()[10] == p.ffn_up,
        p.block()[11] == p.layer_idx,
        p.block()[12] == p.attn_q_norm,
        p.block()[13] == p.attn_k_norm,
        p.block()[14] == p.attn_q_bias,
        p.block()[15] == p.attn_k_bias,
        p.block()[16] == p.attn_v_bias,
        p.block()[17] == p.v_is_q4k,
        p.block()[18] == p.ffn_down_is_q4k,
        p.block()[19] == p.ple_inp_gate,
        p.block()[20] == p.ple_proj,
        p.block()[21] == p.ple_layer_output_scale,
        p.block()[22] == p.ple_rope_freqs,
        p.block()[23] == p.ple_attn_post_norm,
        p.block()[24] == p.ple_ffn_post_norm,
        p.block()[25] == p.ple_post_norm,
        p.block()[26] == p.ple_enabled,
{
}

} // verus!
