//! Plans of whole forward passes.

use crate::dispatch::{
    further_slot_entries, push_further_slots, push_slot, push_whole, slot, whole, BindGroup, Buf,
    Entry, GroupModel, NewBuffer, Plan, PlanModel, Source, Step, UniformBlock, UniformModel,
};
use crate::head::Head;
use crate::kernels::{BindlessPipeline, Kernel, Layout};
use crate::kv_cache::CacheKind;
use crate::layer_plan::{
    cached_layer_group, check_lengths, compute_layer_sizes, layer_bind_group, layer_sizes,
    lengths_fit, LayerShape, LayerSizes,
};
use crate::loader::BLOB_BINDING_SLOTS;
use crate::metadata::BindlessMetadata;
use crate::model::{head_offset, head_quant};
use crate::num::{ceil_div, div_ceil_u32, low_u32};
use crate::offsets::CompiledLayerEntry;
use crate::params::{CacheParams, LayerParams, MatMulParams, RMSNormParams};
use crate::quant::{formula_index_for_ggml, formula_slot};
use crate::spec::{ModelArch, ModelSpec};
use crate::window::BlobBinding;
use vstd::prelude::*;

verus! {

/// Choices that a forward pass leaves to the caller.
#[derive(Debug, Clone, Copy, PartialEq, Eq, Structural)]
pub struct ForwardOptions {
    /// Tokens per dispatch of the query/key/value projection.
    pub prefill_chunk: u32,
    /// 0 = infer, 1 = gated, 2 = non-gated.
    pub ffn_kind_policy: u32,
    /// 0 = infer, 1 = separate, 2 = fused.
    pub qkv_layout_policy: u32,
    /// Keep a second residual stream.
    pub pingpong: bool,
    /// Show the residual stream behind every layer.
    pub trace_layers: bool,
    /// Feed the head with the residual stream as it is.
    pub disable_output_norm: bool,
    /// Compute the head with dequantized weights.
    pub override_head: bool,
    /// Use the caller's cache buffers instead of new ones.
    pub external_cache: bool,
}

/// The low 32 bits of a size.
pub open spec fn low(x: usize) -> u32 {
    (x as int % 0x1_0000_0000) as u32
}

fn low_exec(x: usize) -> (r: u32)
    ensures
        r == low(x),
{
    low_u32(x as u64)
}

/// 1 for true, 0 for false.
pub open spec fn flag(b: bool) -> u32 {
    if b {
        1
    } else {
        0
    }
}

/// Tokens of an input of `input_len` floats.
pub open spec fn batch_size(spec: ModelSpec, input_len: usize) -> u32 {
    low(input_len) / low(spec.n_embd)
}

/// The layer uniforms of one layer of a model. Qwen3 stores query and key weights
/// at twice the width; Gemma-2 has post norms.
pub open spec fn layer_params(
    spec: ModelSpec,
    options: ForwardOptions,
    entry: CompiledLayerEntry,
    batch: u32,
    chunk_words: u32,
) -> LayerParams {
    let dim = low(spec.n_embd);
    let packed_k = if spec.arch == ModelArch::Qwen3 {
        (2 * dim) as u32
    } else {
        0u32
    };
    LayerParams {
        dim,
        head_count: low(spec.n_head),
        head_count_kv: low(spec.n_head_kv),
        head_dim: low(spec.head_dim),
        rope_dim: low(spec.rope_dim),
        rms_eps: spec.rms_eps,
        ffn_dim: low(spec.ff_dim),
        temp_stride: low(spec.temp_buffer_size),
        quant_qk: entry.quant_qk,
        quant_v: entry.quant_v,
        quant_attn_out: entry.quant_attn_out,
        quant_ffn_down: entry.quant_ffn_down,
        quant_ffn_gate: entry.quant_ffn_gate,
        quant_ffn_up: entry.quant_ffn_up,
        attn_logit_softcap: spec.attn_logit_softcap,
        post_norm_enabled: flag(spec.arch == ModelArch::Gemma2),
        qk_norm_enabled: flag(spec.has_qk_norm),
        layer_norm_enabled: flag(spec.uses_layer_norm),
        ffn_kind_policy: options.ffn_kind_policy,
        qkv_layout_policy: options.qkv_layout_policy,
        batch_offset: 0,
        batch_count: batch,
        q_weight_k: packed_k,
        k_weight_k: packed_k,
        formula_qk: formula_slot(entry.quant_qk),
        formula_v: formula_slot(entry.quant_v),
        formula_attn_out: formula_slot(entry.quant_attn_out),
        formula_ffn_down: formula_slot(entry.quant_ffn_down),
        formula_ffn_gate: formula_slot(entry.quant_ffn_gate),
        formula_ffn_up: formula_slot(entry.quant_ffn_up),
        blob_base_words: entry.blob_base_words,
        chunk_words,
        v_plain_rms_norm: 0,
        out_scale_enabled: 0,
        ple_latent_dim: 0,
        ple_enabled: 0,
        attn_scale_override: 0,
    }
}

/// Computes the layer uniforms of one layer of a model.
pub fn compute_layer_params(
    spec: &ModelSpec,
    options: &ForwardOptions,
    entry: &CompiledLayerEntry,
    batch: u32,
    chunk_words: u32,
) -> (p: LayerParams)
    requires
        spec.arch == ModelArch::Qwen3 ==> 2 * low(spec.n_embd) <= u32::MAX,
    ensures
        p == layer_params(*spec, *options, *entry, batch, chunk_words),
{
    let dim: u32 = low_exec(spec.n_embd);
    let packed_k: u32 = if spec.arch == ModelArch::Qwen3 {
        2 * dim
    } else {
        0
    };
    LayerParams {
        dim,
        head_count: low_exec(spec.n_head),
        head_count_kv: low_exec(spec.n_head_kv),
        head_dim: low_exec(spec.head_dim),
        rope_dim: low_exec(spec.rope_dim),
        rms_eps: spec.rms_eps,
        ffn_dim: low_exec(spec.ff_dim),
        temp_stride: low_exec(spec.temp_buffer_size),
        quant_qk: entry.quant_qk,
        quant_v: entry.quant_v,
        quant_attn_out: entry.quant_attn_out,
        quant_ffn_down: entry.quant_ffn_down,
        quant_ffn_gate: entry.quant_ffn_gate,
        quant_ffn_up: entry.quant_ffn_up,
        attn_logit_softcap: spec.attn_logit_softcap,
        post_norm_enabled: if spec.arch == ModelArch::Gemma2 {
            1
        } else {
            0
        },
        qk_norm_enabled: if spec.has_qk_norm {
            1
        } else {
            0
        },
        layer_norm_enabled: if spec.uses_layer_norm {
            1
        } else {
            0
        },
        ffn_kind_policy: options.ffn_kind_policy,
        qkv_layout_policy: options.qkv_layout_policy,
        batch_offset: 0,
        batch_count: batch,
        q_weight_k: packed_k,
        k_weight_k: packed_k,
        formula_qk: formula_index_for_ggml(entry.quant_qk),
        formula_v: formula_index_for_ggml(entry.quant_v),
        formula_attn_out: formula_index_for_ggml(entry.quant_attn_out),
        formula_ffn_down: formula_index_for_ggml(entry.quant_ffn_down),
        formula_ffn_gate: formula_index_for_ggml(entry.quant_ffn_gate),
        formula_ffn_up: formula_index_for_ggml(entry.quant_ffn_up),
        blob_base_words: entry.blob_base_words,
        chunk_words,
        v_plain_rms_norm: 0,
        out_scale_enabled: 0,
        ple_latent_dim: 0,
        ple_enabled: 0,
        attn_scale_override: 0,
    }
}

/// Tokens per dispatch of the query/key/value projection: what the caller asks
/// for, but at least one and at most the batch.
pub open spec fn qkv_chunk(asked: u32, batch: u32) -> u32 {
    let most = if batch > 1 {
        batch
    } else {
        1u32
    };
    if asked < 1 {
        1
    } else if asked > most {
        most
    } else {
        asked
    }
}

/// The steps of a layer's query/key/value projection, from token `at` on. Each
/// chunk of tokens is dispatched alone: the uniforms are rewritten for it and
/// restored behind it, with all work done in between.
pub open spec fn qkv_steps(
    layer: usize,
    kernel: Kernel,
    x: u32,
    batch: u32,
    chunk: u32,
    at: u32,
) -> Seq<Step>
    decreases batch - at,
{
    if at >= batch || chunk == 0 {
        Seq::empty()
    } else {
        let count = if batch - at < chunk {
            (batch - at) as u32
        } else {
            chunk
        };
        seq![
            Step::ForceYield,
            Step::SetChunk { layer, batch_offset: at, batch_count: count },
            Step::Run { kernel, group: layer, x, y: count, z: 1 },
            Step::ForceYield,
            Step::SetChunk { layer, batch_offset: 0, batch_count: batch },
        ] + qkv_steps(layer, kernel, x, batch, chunk, (at + count) as u32)
    }
}

/// The kernels of a layer: those for Q4_K weights where the model has them.
pub open spec fn pick(q4k: bool, general: Kernel, special: Kernel) -> Kernel {
    if q4k {
        special
    } else {
        general
    }
}

fn pick_exec(q4k: bool, general: Kernel, special: Kernel) -> (k: Kernel)
    ensures
        k == pick(q4k, general, special),
{
    if q4k {
        special
    } else {
        general
    }
}

/// A kernel of a layer on all tokens of the batch.
pub open spec fn on_batch(kernel: Kernel, layer: usize, x: u32, batch: u32) -> Step {
    Step::Run { kernel, group: layer, x, y: batch, z: 1 }
}

/// The steps of a layer behind the query/key/value projection, up to the end of
/// the attention part.
pub open spec fn attention_steps(layer: usize, s: LayerSizes, q4k: bool, batch: u32) -> Seq<Step> {
    seq![
        on_batch(Kernel::QkNorm, layer, s.wg_qknorm, batch),
        on_batch(pick(q4k, Kernel::AttnOut, Kernel::Q4kAttnOut), layer, s.wg_dim, batch),
        Step::YieldIfNeeded,
        on_batch(pick(q4k, Kernel::AttnProj, Kernel::Q4kAttnProj), layer, s.wg_dim, batch),
        on_batch(Kernel::PostAttnNorm, layer, s.wg_dim, batch),
    ]
}

/// The steps of a layer's feed-forward part. The norm is left out where the Q4_K
/// projection kernel runs: that kernel has the norm inside.
pub open spec fn ffn_steps(
    layer: usize,
    s: LayerSizes,
    q4k: bool,
    batch: u32,
    trace: bool,
) -> Seq<Step> {
    let norm = if q4k {
        Seq::empty()
    } else {
        seq![on_batch(Kernel::FfnNorm, layer, 1, batch)]
    };
    let shown = if trace {
        seq![Step::Trace(layer)]
    } else {
        Seq::empty()
    };
    norm + seq![
        on_batch(pick(q4k, Kernel::FfnProj, Kernel::Q4kFfnProj), layer, s.wg_ffn, batch),
        on_batch(pick(q4k, Kernel::FfnDown, Kernel::Q4kFfnDown), layer, s.wg_dim, batch),
        Step::YieldIfNeeded,
        on_batch(Kernel::PostFfwNorm, layer, s.wg_dim, batch),
        Step::YieldIfNeeded,
    ] + shown
}

/// The steps of a layer.
pub open spec fn layer_steps(
    layer: usize,
    s: LayerSizes,
    q4k: bool,
    batch: u32,
    chunk: u32,
    trace: bool,
) -> Seq<Step> {
    seq![on_batch(Kernel::AttnNorm, layer, s.wg_dim, batch)] + qkv_steps(
        layer,
        pick(q4k, Kernel::Qkv, Kernel::Q4kQkv),
        s.wg_qkv,
        batch,
        chunk,
        0,
    ) + attention_steps(layer, s, q4k, batch) + ffn_steps(layer, s, q4k, batch, trace)
}

fn push_qkv_steps(
    steps: &mut Vec<Step>,
    layer: usize,
    kernel: Kernel,
    x: u32,
    batch: u32,
    chunk: u32,
)
    requires
        chunk > 0,
    ensures
        final(steps)@ == old(steps)@ + qkv_steps(layer, kernel, x, batch, chunk, 0),
{
    let ghost before = steps@;
    let ghost all = qkv_steps(layer, kernel, x, batch, chunk, 0);
    let mut at: u32 = 0;
    while at < batch
        invariant
            chunk > 0,
            at <= batch,
            before + all == steps@ + qkv_steps(layer, kernel, x, batch, chunk, at),
        decreases batch - at,
    {
        let left: u32 = batch - at;
        let count: u32 = if left < chunk {
            left
        } else {
            chunk
        };
        let ghost head = steps@;
        steps.push(Step::ForceYield);
        steps.push(Step::SetChunk { layer, batch_offset: at, batch_count: count });
        steps.push(Step::Run { kernel, group: layer, x, y: count, z: 1 });
        steps.push(Step::ForceYield);
        steps.push(Step::SetChunk { layer, batch_offset: 0, batch_count: batch });
        proof {
            let rest = qkv_steps(layer, kernel, x, batch, chunk, (at + count) as u32);
            assert(steps@ + rest =~= head + qkv_steps(layer, kernel, x, batch, chunk, at));
        }
        at = at + count;
    }
    assert(steps@ =~= before + all);
}

fn push_attention_steps(
    steps: &mut Vec<Step>,
    layer: usize,
    s: &LayerSizes,
    q4k: bool,
    batch: u32,
)
    ensures
        final(steps)@ == old(steps)@ + attention_steps(layer, *s, q4k, batch),
{
    let attn_out = pick_exec(q4k, Kernel::AttnOut, Kernel::Q4kAttnOut);
    let attn_proj = pick_exec(q4k, Kernel::AttnProj, Kernel::Q4kAttnProj);
    steps.push(Step::Run { kernel: Kernel::QkNorm, group: layer, x: s.wg_qknorm, y: batch, z: 1 });
    steps.push(Step::Run { kernel: attn_out, group: layer, x: s.wg_dim, y: batch, z: 1 });
    steps.push(Step::YieldIfNeeded);
    steps.push(Step::Run { kernel: attn_proj, group: layer, x: s.wg_dim, y: batch, z: 1 });
    steps.push(
        Step::Run { kernel: Kernel::PostAttnNorm, group: layer, x: s.wg_dim, y: batch, z: 1 },
    );
    assert(steps@ =~= old(steps)@ + attention_steps(layer, *s, q4k, batch));
}

fn push_ffn_steps(
    steps: &mut Vec<Step>,
    layer: usize,
    s: &LayerSizes,
    q4k: bool,
    batch: u32,
    trace: bool,
)
    ensures
        final(steps)@ == old(steps)@ + ffn_steps(layer, *s, q4k, batch, trace),
{
    let ffn_proj = pick_exec(q4k, Kernel::FfnProj, Kernel::Q4kFfnProj);
    let ffn_down = pick_exec(q4k, Kernel::FfnDown, Kernel::Q4kFfnDown);
    if !q4k {
        steps.push(Step::Run { kernel: Kernel::FfnNorm, group: layer, x: 1, y: batch, z: 1 });
    }
    steps.push(Step::Run { kernel: ffn_proj, group: layer, x: s.wg_ffn, y: batch, z: 1 });
    steps.push(Step::Run { kernel: ffn_down, group: layer, x: s.wg_dim, y: batch, z: 1 });
    steps.push(Step::YieldIfNeeded);
    steps.push(
        Step::Run { kernel: Kernel::PostFfwNorm, group: layer, x: s.wg_dim, y: batch, z: 1 },
    );
    steps.push(Step::YieldIfNeeded);
    if trace {
        steps.push(Step::Trace(layer));
    }
    assert(steps@ =~= old(steps)@ + ffn_steps(layer, *s, q4k, batch, trace));
}

fn push_layer_steps(
    steps: &mut Vec<Step>,
    layer: usize,
    s: &LayerSizes,
    q4k: bool,
    batch: u32,
    chunk: u32,
    trace: bool,
)
    requires
        chunk > 0,
    ensures
        final(steps)@ == old(steps)@ + layer_steps(layer, *s, q4k, batch, chunk, trace),
{
    steps.push(Step::Run { kernel: Kernel::AttnNorm, group: layer, x: s.wg_dim, y: batch, z: 1 });
    let qkv = pick_exec(q4k, Kernel::Qkv, Kernel::Q4kQkv);
    push_qkv_steps(steps, layer, qkv, s.wg_qkv, batch, chunk);
    push_attention_steps(steps, layer, s, q4k, batch);
    push_ffn_steps(steps, layer, s, q4k, batch, trace);
    assert(steps@ =~= old(steps)@ + layer_steps(layer, *s, q4k, batch, chunk, trace));
}

/// The steps of the first `n` layers.
pub open spec fn all_layer_steps(
    n: nat,
    s: LayerSizes,
    q4k: bool,
    batch: u32,
    chunk: u32,
    trace: bool,
) -> Seq<Step>
    decreases n,
{
    if n == 0 {
        Seq::empty()
    } else {
        all_layer_steps((n - 1) as nat, s, q4k, batch, chunk, trace) + layer_steps(
            (n - 1) as usize,
            s,
            q4k,
            batch,
            chunk,
            trace,
        )
    }
}

fn layers_step_list(
    n: usize,
    s: &LayerSizes,
    q4k: bool,
    batch: u32,
    chunk: u32,
    trace: bool,
) -> (steps: Vec<Step>)
    requires
        chunk > 0,
    ensures
        steps@ == all_layer_steps(n as nat, *s, q4k, batch, chunk, trace),
{
    let mut steps: Vec<Step> = Vec::new();
    let mut i: usize = 0;
    while i < n
        invariant
            i <= n,
            chunk > 0,
            steps@ == all_layer_steps(i as nat, *s, q4k, batch, chunk, trace),
        decreases n - i,
    {
        push_layer_steps(&mut steps, i, s, q4k, batch, chunk, trace);
        i += 1;
    }
    steps
}

/// Key and value buffers of `n` layers, layer by layer.
pub open spec fn cache_buffers(n: nat, size: u64) -> Seq<NewBuffer> {
    Seq::new(
        2 * n,
        |j: int|
            NewBuffer {
                buf: Buf::Cache(
                    if j % 2 == 0 {
                        CacheKind::K
                    } else {
                        CacheKind::V
                    },
                    (j / 2) as usize,
                ),
                size,
            },
    )
}

fn push_cache_buffers(buffers: &mut Vec<NewBuffer>, n: usize, size: u64)
    ensures
        final(buffers)@ == old(buffers)@ + cache_buffers(n as nat, size),
{
    let ghost all = cache_buffers(n as nat, size);
    let mut i: usize = 0;
    while i < n
        invariant
            i <= n,
            all == cache_buffers(n as nat, size),
            buffers@ == old(buffers)@ + all.take(2 * i),
        decreases n - i,
    {
        buffers.push(NewBuffer { buf: Buf::Cache(CacheKind::K, i), size });
        buffers.push(NewBuffer { buf: Buf::Cache(CacheKind::V, i), size });
        i += 1;
        assert(buffers@ =~= old(buffers)@ + all.take(2 * i));
    }
    assert(all.take(2 * n) =~= all);
}

/// Layer uniforms and tensor offsets of `n` layers, layer by layer.
pub open spec fn layer_blocks(
    spec: ModelSpec,
    options: ForwardOptions,
    entries: Seq<CompiledLayerEntry>,
    n: nat,
    batch: u32,
    chunk_words: u32,
) -> Seq<UniformModel> {
    Seq::new(
        2 * n,
        |j: int|
            if j % 2 == 0 {
                UniformModel {
                    buf: Buf::Params((j / 2) as usize),
                    words: layer_params(
                        spec,
                        options,
                        entries[j / 2],
                        batch,
                        chunk_words,
                    ).block(),
                }
            } else {
                UniformModel {
                    buf: Buf::Offsets((j / 2) as usize),
                    words: entries[j / 2].offsets.block(),
                }
            },
    )
}

/// The models of some uniform buffers.
pub open spec fn block_models(blocks: Seq<UniformBlock>) -> Seq<UniformModel> {
    blocks.map_values(|u: UniformBlock| u@)
}

fn push_block(blocks: &mut Vec<UniformBlock>, buf: Buf, words: Vec<u32>)
    ensures
        block_models(final(blocks)@) == block_models(old(blocks)@).push(
            UniformModel { buf, words: words@ },
        ),
{
    blocks.push(UniformBlock { buf, words });
    assert(block_models(blocks@) =~~= block_models(old(blocks)@).push(
        UniformModel { buf, words: words@ },
    ));
}

fn push_layer_blocks(
    blocks: &mut Vec<UniformBlock>,
    spec: &ModelSpec,
    options: &ForwardOptions,
    entries: &Vec<CompiledLayerEntry>,
    n: usize,
    batch: u32,
    chunk_words: u32,
)
    requires
        n <= entries@.len(),
        spec.arch == ModelArch::Qwen3 && n > 0 ==> 2 * low(spec.n_embd) <= u32::MAX,
    ensures
        block_models(final(blocks)@) == block_models(old(blocks)@) + layer_blocks(
            *spec,
            *options,
            entries@,
            n as nat,
            batch,
            chunk_words,
        ),
{
    let ghost all = layer_blocks(*spec, *options, entries@, n as nat, batch, chunk_words);
    let ghost before = block_models(blocks@);
    let mut i: usize = 0;
    assert(before + all.take(0) =~= before);
    while i < n
        invariant
            i <= n,
            n <= entries@.len(),
            spec.arch == ModelArch::Qwen3 && n > 0 ==> 2 * low(spec.n_embd) <= u32::MAX,
            all == layer_blocks(*spec, *options, entries@, n as nat, batch, chunk_words),
            block_models(blocks@) == before + all.take(2 * i),
        decreases n - i,
    {
        let params = compute_layer_params(spec, options, &entries[i], batch, chunk_words);
        push_block(blocks, Buf::Params(i), params.words());
        push_block(blocks, Buf::Offsets(i), entries[i].offsets.words());
        i += 1;
        assert(block_models(blocks@) =~~= before + all.take(2 * i)) by {
            assert(all[2 * i - 2] == (UniformModel {
                buf: Buf::Params((i - 1) as usize),
                words: params.block(),
            }));
            assert(all[2 * i - 1] == (UniformModel {
                buf: Buf::Offsets((i - 1) as usize),
                words: entries@[i - 1].offsets.block(),
            }));
        }
    }
    assert(all.take(2 * n) =~= all);
}

/// The models of some bind groups.
pub open spec fn group_models(groups: Seq<BindGroup>) -> Seq<GroupModel> {
    groups.map_values(|g: BindGroup| g@)
}

fn push_group(groups: &mut Vec<BindGroup>, group: BindGroup)
    ensures
        group_models(final(groups)@) == group_models(old(groups)@).push(group@),
{
    groups.push(group);
    assert(group_models(groups@) =~~= group_models(old(groups)@).push(group@));
}

fn layer_groups(slots: &[BlobBinding; BLOB_BINDING_SLOTS], n: usize) -> (groups: Vec<BindGroup>)
    ensures
        group_models(groups@) == Seq::new(
            n as nat,
            |l: int| cached_layer_group(slots@, l as usize),
        ),
{
    let mut groups: Vec<BindGroup> = Vec::new();
    let ghost all = Seq::new(n as nat, |l: int| cached_layer_group(slots@, l as usize));
    let mut i: usize = 0;
    assert(group_models(groups@) =~~= all.take(0));
    while i < n
        invariant
            i <= n,
            all == Seq::new(n as nat, |l: int| cached_layer_group(slots@, l as usize)),
            group_models(groups@) == all.take(i as int),
        decreases n - i,
    {
        let group = layer_bind_group(
            slots,
            i,
            Buf::Cache(CacheKind::K, i),
            Buf::Cache(CacheKind::V, i),
            Buf::CacheParams,
        );
        push_group(&mut groups, group);
        i += 1;
        assert(group_models(groups@) =~~= all.take(i as int));
    }
    assert(all.take(n as int) =~= all);
    groups
}

/// Word offset of a tensor in the file, as a 32-bit index; 0 where the model
/// lacks it.
pub open spec fn tensor_word(metadata: BindlessMetadata, name: Seq<char>) -> u32 {
    if metadata.tensor_offsets@.contains_key(name) {
        ((metadata.tensor_offsets@[name] as int / 4) % 0x1_0000_0000) as u32
    } else {
        0
    }
}

/// The uniforms of the final norm. Phi models have a layer norm there.
pub open spec fn final_norm_params(
    metadata: BindlessMetadata,
    spec: ModelSpec,
    chunk_words: u32,
) -> RMSNormParams {
    RMSNormParams {
        count: low(spec.n_embd),
        weights_offset: tensor_word(metadata, "output_norm.weight"@),
        bias_offset: tensor_word(metadata, "output_norm.bias"@),
        eps: spec.rms_eps,
        norm_type: flag(spec.arch == ModelArch::Phi),
        chunk_words,
    }
}

/// The head of a model.
pub open spec fn model_head(
    metadata: BindlessMetadata,
    spec: ModelSpec,
    chunk_words: u32,
) -> Head {
    Head {
        vocab_size: low(spec.n_vocab),
        dim: low(spec.n_embd),
        weight_off: ((head_offset(metadata) / 4) % 0x1_0000_0000) as u32,
        quant_type: head_quant(metadata, 2),
        softcap: spec.final_logit_softcap,
        chunk_words,
    }
}

/// Words of the head's uniforms: those of the blob head, or those of a product
/// with dequantized weights.
pub open spec fn head_words(head: Head, override_head: bool) -> Seq<u32> {
    if override_head {
        (MatMulParams {
            n: head.vocab_size,
            k: head.dim,
            weights_offset: head.weight_off,
            padding: 0,
        }).block()
    } else {
        head.params(0).block()
    }
}

/// First byte of the last token in the residual stream.
pub open spec fn last_token(dim: u32, batch: u32) -> int {
    (batch - 1) * dim * 4
}

/// A binding of some bytes of a buffer.
pub open spec fn part(binding: u32, buf: Buf, at: u64, size: u64) -> Entry {
    Entry { binding, source: Source::Part(buf, at, size) }
}

/// The bind group of the final norm: from the last token of the residual stream
/// to the start of the scratch space.
pub open spec fn final_norm_group(slots: Seq<BlobBinding>, dim: u32, batch: u32) -> GroupModel {
    GroupModel {
        layout: Layout::RmsNorm,
        entries: seq![
            slot(0, slots[0]),
            part(1, Buf::Activation, last_token(dim, batch) as u64, (dim * 4) as u64),
            part(2, Buf::Temp, 0, (dim * 4) as u64),
            whole(3, Buf::Uniforms(0)),
        ] + further_slot_entries(slots),
    }
}

/// The bind group of the head: from the start of the scratch space to the
/// logits.
pub open spec fn final_head_group(
    slots: Seq<BlobBinding>,
    dim: u32,
    override_head: bool,
) -> GroupModel {
    if override_head {
        GroupModel {
            layout: Layout::MatMulF32,
            entries: seq![
                whole(0, Buf::Weights),
                part(1, Buf::Temp, 0, (dim * 4) as u64),
                whole(2, Buf::Logits),
                whole(3, Buf::Uniforms(1)),
            ],
        }
    } else {
        GroupModel {
            layout: Layout::LmHeadBlob,
            entries: seq![
                slot(0, slots[0]),
                part(1, Buf::Temp, 0, (dim * 4) as u64),
                whole(2, Buf::Logits),
                whole(3, Buf::Uniforms(1)),
            ] + further_slot_entries(slots),
        }
    }
}

fn final_norm_bind_group(
    slots: &[BlobBinding; BLOB_BINDING_SLOTS],
    dim: u32,
    batch: u32,
    last: u64,
) -> (g: BindGroup)
    requires
        last == last_token(dim, batch),
    ensures
        g@ == final_norm_group(slots@, dim, batch),
{
    let size: u64 = dim as u64 * 4;
    let mut entries: Vec<Entry> = Vec::new();
    push_slot(&mut entries, 0, slots[0]);
    entries.push(Entry { binding: 1, source: Source::Part(Buf::Activation, last, size) });
    entries.push(Entry { binding: 2, source: Source::Part(Buf::Temp, 0, size) });
    push_whole(&mut entries, 3, Buf::Uniforms(0));
    push_further_slots(&mut entries, slots);
    let g = BindGroup { layout: Layout::RmsNorm, entries };
    assert(g@ =~~= final_norm_group(slots@, dim, batch));
    g
}

fn final_head_bind_group(
    slots: &[BlobBinding; BLOB_BINDING_SLOTS],
    dim: u32,
    override_head: bool,
) -> (g: BindGroup)
    ensures
        g@ == final_head_group(slots@, dim, override_head),
{
    let size: u64 = dim as u64 * 4;
    let mut entries: Vec<Entry> = Vec::new();
    if override_head {
        push_whole(&mut entries, 0, Buf::Weights);
    } else {
        push_slot(&mut entries, 0, slots[0]);
    }
    entries.push(Entry { binding: 1, source: Source::Part(Buf::Temp, 0, size) });
    push_whole(&mut entries, 2, Buf::Logits);
    push_whole(&mut entries, 3, Buf::Uniforms(1));
    let layout = if override_head {
        Layout::MatMulF32
    } else {
        push_further_slots(&mut entries, slots);
        Layout::LmHeadBlob
    };
    let g = BindGroup { layout, entries };
    assert(g@ =~~= final_head_group(slots@, dim, override_head));
    g
}

/// The steps behind the layers: the last token is kept for reading, normed, and
/// run through the head.
pub open spec fn tail_steps(
    spec: ModelSpec,
    options: ForwardOptions,
    dim: u32,
    batch: u32,
) -> Seq<Step> {
    let size = (dim * 4) as u64;
    let last = last_token(dim, batch) as u64;
    let n = spec.n_layer;
    let vocab = low(spec.n_vocab);
    seq![
        Step::Copy { from: Buf::Activation, at: last, to: Buf::PreNorm, size },
        if options.disable_output_norm {
            Step::Copy { from: Buf::Activation, at: last, to: Buf::Temp, size }
        } else {
            Step::Run {
                kernel: Kernel::RmsNorm,
                group: n,
                x: ceil_div(dim as int, 256) as u32,
                y: 1,
                z: 1,
            }
        },
        if options.override_head {
            Step::Run {
                kernel: Kernel::MatMulF32,
                group: (n + 1) as usize,
                x: ceil_div(vocab as int, 256) as u32,
                y: 1,
                z: 1,
            }
        } else {
            Step::Run {
                kernel: Kernel::LmHeadBlob,
                group: (n + 1) as usize,
                x: ceil_div(vocab as int, 64) as u32,
                y: 1,
                z: 1,
            }
        },
        Step::Copy { from: Buf::Temp, at: 0, to: Buf::FinalNorm, size },
        Step::Copy { from: Buf::Logits, at: 0, to: Buf::Read(0), size: (vocab * 4) as u64 },
        Step::Submit,
    ]
}

fn push_tail_steps(
    steps: &mut Vec<Step>,
    spec: &ModelSpec,
    options: &ForwardOptions,
    dim: u32,
    batch: u32,
    last: u64,
)
    requires
        last == last_token(dim, batch),
        spec.n_layer < usize::MAX,
        low(spec.n_vocab) * 4 <= u32::MAX,
    ensures
        final(steps)@ == old(steps)@ + tail_steps(*spec, *options, dim, batch),
{
    let size: u64 = dim as u64 * 4;
    let vocab: u32 = low_exec(spec.n_vocab);
    let n: usize = spec.n_layer;
    steps.push(Step::Copy { from: Buf::Activation, at: last, to: Buf::PreNorm, size });
    if options.disable_output_norm {
        steps.push(Step::Copy { from: Buf::Activation, at: last, to: Buf::Temp, size });
    } else {
        steps.push(
            Step::Run { kernel: Kernel::RmsNorm, group: n, x: div_ceil_u32(dim, 256), y: 1, z: 1 },
        );
    }
    if options.override_head {
        steps.push(
            Step::Run {
                kernel: Kernel::MatMulF32,
                group: n + 1,
                x: div_ceil_u32(vocab, 256),
                y: 1,
                z: 1,
            },
        );
    } else {
        steps.push(
            Step::Run {
                kernel: Kernel::LmHeadBlob,
                group: n + 1,
                x: div_ceil_u32(vocab, 64),
                y: 1,
                z: 1,
            },
        );
    }
    steps.push(Step::Copy { from: Buf::Temp, at: 0, to: Buf::FinalNorm, size });
    steps.push(
        Step::Copy { from: Buf::Logits, at: 0, to: Buf::Read(0), size: (vocab * 4) as u64 },
    );
    steps.push(Step::Submit);
    assert(steps@ =~= old(steps)@ + tail_steps(*spec, *options, dim, batch));
}

/// The cache uniforms of a forward pass.
pub open spec fn forward_cache_params(
    spec: ModelSpec,
    current_pos: u32,
    seq_len: u32,
    batch: u32,
) -> CacheParams {
    CacheParams {
        current_pos,
        seq_len,
        max_seq_len: low(spec.n_ctx),
        batch_size: batch,
        logical_pos_base: 0,
        pad1: 0,
        pad2: 0,
        pad3: 0,
    }
}

/// The lengths of a model's layers.
pub open spec fn model_shape(spec: ModelSpec) -> LayerShape {
    LayerShape {
        dim: low(spec.n_embd),
        head_count: low(spec.n_head),
        head_count_kv: low(spec.n_head_kv),
        head_dim: low(spec.head_dim),
        ffn_dim: low(spec.ff_dim),
    }
}

fn model_shape_exec(spec: &ModelSpec) -> (s: LayerShape)
    ensures
        s == model_shape(*spec),
{
    LayerShape {
        dim: low_exec(spec.n_embd),
        head_count: low_exec(spec.n_head),
        head_count_kv: low_exec(spec.n_head_kv),
        head_dim: low_exec(spec.head_dim),
        ffn_dim: low_exec(spec.ff_dim),
    }
}

/// Whether a model can run on an input: the input holds a token, the metadata
/// has every layer and the final norm, and all sizes can be counted.
pub open spec fn can_run(metadata: BindlessMetadata, spec: ModelSpec, input_len: usize) -> bool {
    &&& low(spec.n_embd) > 0
    &&& batch_size(spec, input_len) > 0
    &&& input_len * 4 <= u64::MAX
    &&& batch_size(spec, input_len) * low(spec.temp_buffer_size) * 4 <= u64::MAX
    &&& last_token(low(spec.n_embd), batch_size(spec, input_len)) <= u64::MAX
    &&& low(spec.n_vocab) * 4 <= u32::MAX
    &&& spec.n_layer < usize::MAX
    &&& spec.n_layer <= metadata.compiled_layers@.len()
    &&& metadata.tensor_offsets@.contains_key("output_norm.weight"@)
    &&& spec.arch == ModelArch::Qwen3 && spec.n_layer > 0 ==> 2 * low(spec.n_embd) <= u32::MAX
    &&& lengths_fit(model_shape(spec))
}

/// Whether a model's first query weights are Q4_K, so that it runs the kernels
/// for those.
pub open spec fn runs_q4k(metadata: BindlessMetadata) -> bool {
    metadata.tensor_types@.contains_key("blk.0.attn_q.weight"@)
        && metadata.tensor_types@["blk.0.attn_q.weight"@] == 12
}

/// The residual streams that start as the input: the one there is, or both.
pub open spec fn filled_streams(pingpong: bool) -> Seq<Buf> {
    if pingpong {
        seq![Buf::Activation, Buf::ActivationB]
    } else {
        seq![Buf::Activation]
    }
}

fn filled_stream_list(pingpong: bool) -> (filled: Vec<Buf>)
    ensures
        filled@ == filled_streams(pingpong),
{
    let mut filled: Vec<Buf> = vec![Buf::Activation];
    if pingpong {
        filled.push(Buf::ActivationB);
    }
    assert(filled@ =~= filled_streams(pingpong));
    filled
}

/// A forward pass over a batch of tokens, up to the logits of the last one.
pub open spec fn forward_model(
    slots: Seq<BlobBinding>,
    chunk_words: u32,
    metadata: BindlessMetadata,
    spec: ModelSpec,
    options: ForwardOptions,
    input_len: usize,
    current_pos: u32,
    seq_len: u32,
) -> PlanModel {
    let dim = low(spec.n_embd);
    let vocab = low(spec.n_vocab);
    let batch = batch_size(spec, input_len);
    let n = spec.n_layer as nat;
    let entries = metadata.compiled_layers@;
    let input_size = (input_len * 4) as u64;
    PlanModel {
        buffers: seq![
            NewBuffer { buf: Buf::Activation, size: input_size },
            NewBuffer {
                buf: Buf::ActivationB,
                size: if options.pingpong {
                    input_size
                } else {
                    4
                },
            },
            NewBuffer { buf: Buf::Temp, size: (batch * low(spec.temp_buffer_size) * 4) as u64 },
            NewBuffer { buf: Buf::Logits, size: (vocab * 4) as u64 },
            NewBuffer { buf: Buf::FinalNorm, size: (dim * 4) as u64 },
            NewBuffer { buf: Buf::PreNorm, size: (dim * 4) as u64 },
            NewBuffer { buf: Buf::Read(0), size: (vocab * 4) as u64 },
        ] + (if options.external_cache {
            Seq::empty()
        } else {
            cache_buffers(n, spec.kv_cache_size_per_layer as u64)
        }),
        uniforms: seq![
            UniformModel {
                buf: Buf::CacheParams,
                words: forward_cache_params(spec, current_pos, seq_len, batch).block(),
            },
            UniformModel {
                buf: Buf::Uniforms(0),
                words: final_norm_params(metadata, spec, chunk_words).block(),
            },
            UniformModel {
                buf: Buf::Uniforms(1),
                words: head_words(
                    model_head(metadata, spec, chunk_words),
                    options.override_head,
                ),
            },
        ] + layer_blocks(spec, options, entries, n, batch, chunk_words),
        groups: Seq::new(n, |l: int| cached_layer_group(slots, l as usize)) + seq![
            final_norm_group(slots, dim, batch),
            final_head_group(slots, dim, options.override_head),
        ],
        steps: all_layer_steps(
            n,
            layer_sizes(model_shape(spec)),
            runs_q4k(metadata),
            batch,
            qkv_chunk(options.prefill_chunk, batch),
            options.trace_layers,
        ) + tail_steps(spec, options, dim, batch),
        filled: filled_streams(options.pingpong),
        reads: seq![Buf::PreNorm, Buf::FinalNorm, Buf::Read(0)],
    }
}

fn tensor_word_exec(metadata: &BindlessMetadata, name: &str) -> (w: u32)
    ensures
        w == tensor_word(*metadata, name@),
{
    match metadata.get_tensor_offset(name) {
        Some(o) => low_u32(o / 4),
        None => 0,
    }
}

fn compute_model_head(
    metadata: &BindlessMetadata,
    spec: &ModelSpec,
    chunk_words: u32,
) -> (h: Head)
    ensures
        h == model_head(*metadata, *spec, chunk_words),
{
    let name = if metadata.get_tensor_type("output.weight").is_some() {
        "output.weight"
    } else {
        "token_embd.weight"
    };
    let offset: u64 = match metadata.get_tensor_offset(name) {
        Some(o) => o,
        None => 0,
    };
    let quant_type: u32 = match metadata.get_tensor_type(name) {
        Some(q) => q,
        None => 2,
    };
    Head {
        vocab_size: low_exec(spec.n_vocab),
        dim: low_exec(spec.n_embd),
        weight_off: low_u32(offset / 4),
        quant_type,
        softcap: spec.final_logit_softcap,
        chunk_words,
    }
}

fn compute_head_words(head: &Head, override_head: bool) -> (w: Vec<u32>)
    ensures
        w@ == head_words(*head, override_head),
{
    if override_head {
        let params = MatMulParams {
            n: head.vocab_size,
            k: head.dim,
            weights_offset: head.weight_off,
            padding: 0,
        };
        params.words()
    } else {
        let params = head.head_params(0);
        params.words()
    }
}

/// Tests whether a model can run on an input.
fn check_can_run(metadata: &BindlessMetadata, spec: &ModelSpec, input_len: usize) -> (ok: bool)
    ensures
        ok == can_run(*metadata, *spec, input_len),
{
    let dim: u32 = low_exec(spec.n_embd);
    if dim == 0 {
        return false;
    }
    let batch: u32 = low_exec(input_len) / dim;
    let stride: u32 = low_exec(spec.temp_buffer_size);
    let vocab: u32 = low_exec(spec.n_vocab);
    if batch == 0 || input_len as u64 > u64::MAX / 4 || vocab > u32::MAX / 4 {
        return false;
    }
    proof {
        assert(0 <= batch * stride <= u32::MAX * u32::MAX) by (nonlinear_arith);
        assert(0 <= (batch - 1) * dim <= u32::MAX * u32::MAX) by (nonlinear_arith)
            requires
                1 <= batch <= u32::MAX,
                0 <= dim <= u32::MAX,
        ;
    }
    let temp: u64 = batch as u64 * stride as u64;
    let last: u64 = (batch as u64 - 1) * dim as u64;
    if temp > u64::MAX / 4 || last > u64::MAX / 4 {
        return false;
    }
    if spec.n_layer == usize::MAX || spec.n_layer > metadata.compiled_layers.len() {
        return false;
    }
    if !metadata.tensor_offsets.contains_key("output_norm.weight") {
        return false;
    }
    if spec.arch == ModelArch::Qwen3 && spec.n_layer > 0 && dim > u32::MAX / 2 {
        return false;
    }
    check_lengths(&model_shape_exec(spec))
}

impl BindlessPipeline {
    /// Plans a forward pass over a batch of tokens with the state of the KV cache:
    /// the tokens take the positions from `current_pos` on, and `seq_len` positions
    /// are cached behind them.
    ///
    /// Each kernel runs in a pass of its own. The query/key/value projection is
    /// dispatched in chunks of tokens, so that no dispatch runs too long. `None`
    /// where the model cannot run on the input.
    pub fn run_full_model_with_cache_state(
        &self,
        slots: &[BlobBinding; BLOB_BINDING_SLOTS],
        chunk_words: u32,
        metadata: &BindlessMetadata,
        spec: &ModelSpec,
        options: &ForwardOptions,
        input_len: usize,
        current_pos: u32,
        seq_len: u32,
    ) -> (r: Option<Plan>)
        ensures
            r is Some <==> can_run(*metadata, *spec, input_len),
            r matches Some(p) ==> p@ == forward_model(
                slots@,
                chunk_words,
                *metadata,
                *spec,
                *options,
                input_len,
                current_pos,
                seq_len,
            ),
    {
        if !check_can_run(metadata, spec, input_len) {
            return None;
        }
        let dim: u32 = low_exec(spec.n_embd);
        let vocab: u32 = low_exec(spec.n_vocab);
        let stride: u32 = low_exec(spec.temp_buffer_size);
        let batch: u32 = low_exec(input_len) / dim;
        let n: usize = spec.n_layer;
        let size: u64 = dim as u64 * 4;
        let input_size: u64 = input_len as u64 * 4;
        let output_size: u64 = (vocab * 4) as u64;
        proof {
            assert(0 <= batch * stride) by (nonlinear_arith);
            assert(0 <= (batch - 1) * dim) by (nonlinear_arith)
                requires
                    1 <= batch,
                    0 <= dim,
            ;
        }
        let last: u64 = (batch as u64 - 1) * dim as u64 * 4;
        let mut buffers: Vec<NewBuffer> = vec![
            NewBuffer { buf: Buf::Activation, size: input_size },
            NewBuffer {
                buf: Buf::ActivationB,
                size: if options.pingpong {
                    input_size
                } else {
                    4
                },
            },
            NewBuffer { buf: Buf::Temp, size: batch as u64 * stride as u64 * 4 },
            NewBuffer { buf: Buf::Logits, size: output_size },
            NewBuffer { buf: Buf::FinalNorm, size },
            NewBuffer { buf: Buf::PreNorm, size },
            NewBuffer { buf: Buf::Read(0), size: output_size },
        ];
        if !options.external_cache {
            push_cache_buffers(&mut buffers, n, spec.kv_cache_size_per_layer as u64);
        }
        let cache = CacheParams {
            current_pos,
            seq_len,
            max_seq_len: low_exec(spec.n_ctx),
            batch_size: batch,
            logical_pos_base: 0,
            pad1: 0,
            pad2: 0,
            pad3: 0,
        };
        let norm = RMSNormParams {
            count: dim,
            weights_offset: tensor_word_exec(metadata, "output_norm.weight"),
            bias_offset: tensor_word_exec(metadata, "output_norm.bias"),
            eps: spec.rms_eps,
            norm_type: if spec.arch == ModelArch::Phi {
                1
            } else {
                0
            },
            chunk_words,
        };
        let head = compute_model_head(metadata, spec, chunk_words);
        let mut uniforms: Vec<UniformBlock> = Vec::new();
        assert(block_models(uniforms@) =~= Seq::<UniformModel>::empty());
        push_block(&mut uniforms, Buf::CacheParams, cache.words());
        push_block(&mut uniforms, Buf::Uniforms(0), norm.words());
        push_block(
            &mut uniforms,
            Buf::Uniforms(1),
            compute_head_words(&head, options.override_head),
        );
        push_layer_blocks(
            &mut uniforms,
            spec,
            options,
            &metadata.compiled_layers,
            n,
            batch,
            chunk_words,
        );
        let mut groups = layer_groups(slots, n);
        push_group(&mut groups, final_norm_bind_group(slots, dim, batch, last));
        push_group(&mut groups, final_head_bind_group(slots, dim, options.override_head));
        let q4k: bool = match metadata.get_tensor_type("blk.0.attn_q.weight") {
            Some(q) => q == 12,
            None => false,
        };
        let most: u32 = if batch > 1 {
            batch
        } else {
            1
        };
        let chunk: u32 = if options.prefill_chunk < 1 {
            1
        } else if options.prefill_chunk > most {
            most
        } else {
            options.prefill_chunk
        };
        let sizes = compute_layer_sizes(&model_shape_exec(spec));
        let mut steps = layers_step_list(
            n,
            &sizes,
            q4k,
            batch,
            chunk,
            options.trace_layers,
        );
        push_tail_steps(&mut steps, spec, options, dim, batch, last);
        let reads: Vec<Buf> = vec![Buf::PreNorm, Buf::FinalNorm, Buf::Read(0)];
        let filled = filled_stream_list(options.pingpong);
        let p = Plan { buffers, filled, uniforms, groups, steps, reads };
        proof {
            let goal = forward_model(
                slots@,
                chunk_words,
                *metadata,
                *spec,
                *options,
                input_len,
                current_pos,
                seq_len,
            );
            assert(p@.buffers =~= goal.buffers);
            assert(p@.uniforms =~= goal.uniforms);
            assert(p@.groups =~= goal.groups);
            assert(p@.steps =~= goal.steps);
            assert(p@.reads =~= goal.reads);
        }
        Some(p)
    }
}

impl BindlessPipeline {
    /// Plans a forward pass with a cache of its own.
    pub fn run_full_model_with_cache(
        &self,
        slots: &[BlobBinding; BLOB_BINDING_SLOTS],
        chunk_words: u32,
        metadata: &BindlessMetadata,
        spec: &ModelSpec,
        options: &ForwardOptions,
        input_len: usize,
        current_pos: u32,
        seq_len: u32,
    ) -> (r: Option<Plan>)
        ensures
            r is Some <==> can_run(*metadata, *spec, input_len),
            r matches Some(p) ==> p@ == forward_model(
                slots@,
                chunk_words,
                *metadata,
                *spec,
                (ForwardOptions { external_cache: false, ..*options }),
                input_len,
                current_pos,
                seq_len,
            ),
            r matches Some(p) ==> p@.buffers.len() == 7 + 2 * spec.n_layer,
    {
        let own = ForwardOptions { external_cache: false, ..*options };
        self.run_full_model_with_cache_state(
            slots,
            chunk_words,
            metadata,
            spec,
            &own,
            input_len,
            current_pos,
            seq_len,
        )
    }
}

impl BindlessPipeline {
    /// Plans a forward pass of a first token.
    pub fn run_full_model(
        &self,
        slots: &[BlobBinding; BLOB_BINDING_SLOTS],
        chunk_words: u32,
        metadata: &BindlessMetadata,
        spec: &ModelSpec,
        options: &ForwardOptions,
        input_len: usize,
    ) -> (r: Option<Plan>)
        ensures
            r is Some <==> can_run(*metadata, *spec, input_len),
            r matches Some(p) ==> p@ == forward_model(
                slots@,
                chunk_words,
                *metadata,
                *spec,
                (ForwardOptions { external_cache: false, ..*options }),
                input_len,
                0,
                1,
            ),
            r matches Some(p) ==> {
                let w = p@.uniforms[0].words;
                p@.uniforms[0].buf == Buf::CacheParams && w[0] == 0 && w[1] == 1
            },
            r matches Some(p) ==> p@.buffers.len() == 7 + 2 * spec.n_layer,
    {
        self.run_full_model_with_cache(slots, chunk_words, metadata, spec, options, input_len, 0, 1)
    }
}

/// One forward pass of a chunked prefill: `len` floats of the input from float
/// `start` on, at these positions.
#[derive(Debug, Clone, Copy, PartialEq, Eq, Structural)]
pub struct PrefillChunk {
    pub start: usize,
    pub len: usize,
    pub current_pos: u32,
    pub seq_len: u32,
}

/// Chunk `i` of a prefill of `total` tokens, `chunk` at a time.
pub open spec fn prefill_chunk(
    dim: int,
    total: int,
    chunk: int,
    current_pos: int,
    i: int,
) -> PrefillChunk {
    let from = i * chunk;
    let count = if total - from < chunk {
        total - from
    } else {
        chunk
    };
    PrefillChunk {
        start: (from * dim) as usize,
        len: (count * dim) as usize,
        current_pos: (current_pos + from) as u32,
        seq_len: (current_pos + from + count) as u32,
    }
}

/// The forward passes of a chunked prefill. Without tokens there is one pass on
/// the empty input.
pub open spec fn prefill_chunks(
    dim: int,
    total: int,
    chunk: int,
    current_pos: u32,
) -> Seq<PrefillChunk> {
    if total == 0 {
        seq![PrefillChunk { start: 0, len: 0, current_pos, seq_len: current_pos }]
    } else {
        Seq::new(
            ceil_div(total, chunk) as nat,
            |i: int| prefill_chunk(dim, total, chunk, current_pos as int, i),
        )
    }
}

impl BindlessPipeline {
    /// Splits a prefill of `input_len` floats into forward passes of at most
    /// `chunk_tokens` tokens each.
    pub fn run_full_model_prefill_chunked_with_cache_state(
        &self,
        n_embd: usize,
        input_len: usize,
        current_pos: u32,
        chunk_tokens: u32,
    ) -> (chunks: Vec<PrefillChunk>)
        requires
            n_embd > 0,
            input_len % n_embd == 0,
            chunk_tokens > 0,
            chunk_tokens * n_embd <= usize::MAX,
            current_pos + input_len / n_embd <= u32::MAX,
        ensures
            chunks@ == prefill_chunks(
                n_embd as int,
                input_len as int / n_embd as int,
                chunk_tokens as int,
                current_pos,
            ),
    {
        let total: usize = input_len / n_embd;
        let ghost goal = prefill_chunks(
            n_embd as int,
            total as int,
            chunk_tokens as int,
            current_pos,
        );
        let mut chunks: Vec<PrefillChunk> = Vec::new();
        if total == 0 {
            chunks.push(PrefillChunk { start: 0, len: 0, current_pos, seq_len: current_pos });
            assert(chunks@ =~= goal);
            return chunks;
        }
        let ghost c = chunk_tokens as int;
        let ghost n = ceil_div(total as int, c);
        let mut done: usize = 0;
        proof {
            crate::num::law_groups_cover_items(total as int, c);
            assert(0 * c == 0);
        }
        while done < total
            invariant
                n_embd > 0,
                c == chunk_tokens,
                c > 0,
                total == input_len as int / n_embd as int,
                total > 0,
                current_pos + total <= u32::MAX,
                n == ceil_div(total as int, c),
                goal == prefill_chunks(n_embd as int, total as int, c, current_pos),
                done <= total,
                chunks@.len() <= n,
                done < total ==> done == chunks@.len() * c,
                done == total ==> chunks@.len() == n,
                chunks@ == goal.take(chunks@.len() as int),
            decreases total - done,
        {
            let left: usize = total - done;
            let chunk: usize = chunk_tokens as usize;
            let count: usize = if left < chunk {
                left
            } else {
                chunk
            };
            let ghost i = chunks@.len() as int;
            proof {
                crate::num::law_groups_cover_items(total as int, c);
                let d = n_embd as int;
                assert(total * d <= input_len && 0 <= done * d <= total * d && 0 <= count * d <= total
                    * d) by (nonlinear_arith)
                    requires
                        total == input_len as int / d,
                        d > 0,
                        0 <= done <= total,
                        0 <= count <= total,
                ;
                assert(i < n) by (nonlinear_arith)
                    requires
                        i * c < total,
                        n * c >= total,
                        c > 0,
                ;
                assert((i + 1) * c == i * c + c) by (nonlinear_arith);
                if done + count == total {
                    assert(n <= i + 1) by (nonlinear_arith)
                        requires
                            (n - 1) * c < total,
                            total <= (i + 1) * c,
                            c > 0,
                    ;
                }
            }
            chunks.push(
                PrefillChunk {
                    start: done * n_embd,
                    len: count * n_embd,
                    current_pos: current_pos + done as u32,
                    seq_len: current_pos + done as u32 + count as u32,
                },
            );
            proof {
                assert(goal[i] == chunks@[i]);
                assert(chunks@ =~= goal.take(i + 1));
            }
            done = done + count;
        }
        assert(goal.take(n) =~= goal);
        chunks
    }
}

/// How far a chunked prefill has come.
#[derive(Debug, Clone, Copy, PartialEq, Eq)]
pub enum Prefill<R, E> {
    /// The pass of this chunk is to run next.
    Run(usize),
    /// All passes have run; this is the result.
    Done(R),
    /// A pass has failed. None runs any more.
    Failed(E),
}

/// How far a prefill of `chunks` chunks has come once chunk `at` has given
/// `result`.
pub open spec fn prefill_after<R, E>(
    chunks: int,
    at: usize,
    result: Result<R, E>,
) -> Prefill<R, E> {
    match result {
        Err(e) => Prefill::Failed(e),
        Ok(r) => if at + 1 < chunks {
            Prefill::Run((at + 1) as usize)
        } else {
            Prefill::Done(r)
        },
    }
}

/// Goes on with a prefill of `chunks` chunks once chunk `at` has given `result`:
/// to the next chunk, or to the end with the last chunk's result or the first
/// error.
pub fn prefill_step<R, E>(chunks: usize, at: usize, result: Result<R, E>) -> (next: Prefill<R, E>)
    requires
        at < chunks,
    ensures
        next == prefill_after(chunks as int, at, result),
{
    match result {
        Err(e) => Prefill::Failed(e),
        Ok(r) => if at + 1 < chunks {
            Prefill::Run(at + 1)
        } else {
            Prefill::Done(r)
        },
    }
}

/// How far a prefill has come whose passes have given these results, one after the
/// other.
pub open spec fn prefill_outcome<R, E>(chunks: int, results: Seq<Result<R, E>>) -> Prefill<R, E>
    decreases results.len(),
{
    if results.len() == 0 {
        Prefill::Run(0)
    } else {
        match prefill_outcome(chunks, results.drop_last()) {
            Prefill::Run(at) => prefill_after(chunks, at, results.last()),
            ended => ended,
        }
    }
}

/// The chunks of a prefill run in order, each once all before it have succeeded.
/// The first error ends the prefill with that error; without one, the prefill ends
/// with the result of the last chunk.
pub proof fn law_prefill_gives_last_result_or_first_error<R, E>(
    chunks: usize,
    results: Seq<Result<R, E>>,
    k: int,
)
    requires
        0 < results.len() <= chunks,
        0 <= k < results.len(),
        forall|i: int| 0 <= i < k ==> #[trigger] results[i] is Ok,
    ensures
        prefill_outcome(chunks as int, results.take(k)) == Prefill::<R, E>::Run(k as usize),
        results[k] matches Err(e) ==> forall|n: int|
            k < n <= results.len() ==> #[trigger] prefill_outcome(
                chunks as int,
                results.take(n),
            ) == Prefill::<R, E>::Failed(e),
        results[k] is Ok && k == chunks - 1 ==> prefill_outcome(chunks as int, results)
            == Prefill::<R, E>::Done(results[k]->Ok_0),
{
    lemma_prefill_runs_on(chunks, results, k);
    let upto = results.take(k + 1);
    assert(upto.drop_last() =~= results.take(k));
    assert(upto.last() == results[k]);
    if let Err(e) = results[k] {
        assert forall|n: int| k < n <= results.len() implies #[trigger] prefill_outcome(
            chunks as int,
            results.take(n),
        ) == Prefill::<R, E>::Failed(e) by {
            lemma_prefill_stays_failed(chunks, results, k, n, e);
        }
    } else if k == chunks - 1 {
        assert(upto =~= results);
    }
}

proof fn lemma_prefill_runs_on<R, E>(chunks: usize, results: Seq<Result<R, E>>, k: int)
    requires
        0 <= k < results.len() <= chunks,
        forall|i: int| 0 <= i < k ==> #[trigger] results[i] is Ok,
    ensures
        prefill_outcome(chunks as int, results.take(k)) == Prefill::<R, E>::Run(k as usize),
    decreases k,
{
    if k > 0 {
        lemma_prefill_runs_on(chunks, results, k - 1);
        assert(results.take(k).drop_last() =~= results.take(k - 1));
        assert(results.take(k).last() == results[k - 1]);
    }
}

proof fn lemma_prefill_stays_failed<R, E>(
    chunks: usize,
    results: Seq<Result<R, E>>,
    k: int,
    n: int,
    e: E,
)
    requires
        0 <= k < n <= results.len() <= chunks,
        prefill_outcome(chunks as int, results.take(k)) == Prefill::<R, E>::Run(k as usize),
        results[k] == Err::<R, E>(e),
    ensures
        prefill_outcome(chunks as int, results.take(n)) == Prefill::<R, E>::Failed(e),
    decreases n,
{
    assert(results.take(n).drop_last() =~= results.take(n - 1));
    assert(results.take(n).last() == results[n - 1]);
    if n > k + 1 {
        lemma_prefill_stays_failed(chunks, results, k, n - 1, e);
    }
}

/// A forward pass creates just the streams that it fills with the size of the
/// input, so that they start as the input, and fills no other buffer.
pub proof fn law_streams_start_as_the_input(
    slots: Seq<BlobBinding>,
    chunk_words: u32,
    metadata: BindlessMetadata,
    spec: ModelSpec,
    options: ForwardOptions,
    input_len: usize,
    current_pos: u32,
    seq_len: u32,
)
    ensures
        ({
            let plan = forward_model(
                slots,
                chunk_words,
                metadata,
                spec,
                options,
                input_len,
                current_pos,
                seq_len,
            );
            let size = (input_len * 4) as u64;
            &&& plan.filled.contains(Buf::Activation)
            &&& plan.filled.contains(Buf::ActivationB) <==> options.pingpong
            &&& forall|b: Buf| #[trigger] plan.filled.contains(b) ==> plan.buffers.contains(
                NewBuffer { buf: b, size },
            )
        }),
{
    let plan = forward_model(
        slots,
        chunk_words,
        metadata,
        spec,
        options,
        input_len,
        current_pos,
        seq_len,
    );
    let size = (input_len * 4) as u64;
    assert(plan.filled[0] == Buf::Activation);
    assert(plan.buffers[0] == (NewBuffer { buf: Buf::Activation, size }));
    if options.pingpong {
        assert(plan.filled[1] == Buf::ActivationB);
        assert(plan.buffers[1] == (NewBuffer { buf: Buf::ActivationB, size }));
    }
}

/// The chunks of a prefill follow each other without gap or overlap, in the input
/// and in the cache, and the last one ends with the input.
pub proof fn law_prefill_chunks_follow(dim: int, total: int, chunk: int, current_pos: u32, i: int)
    requires
        dim > 0,
        total > 0,
        chunk > 0,
        total * dim <= usize::MAX,
        current_pos + total <= u32::MAX,
        0 <= i < ceil_div(total, chunk),
    ensures
        ({
            let chunks = prefill_chunks(dim, total, chunk, current_pos);
            let last = i + 1 == chunks.len();
            &&& chunks.len() == ceil_div(total, chunk)
            &&& chunks[0].start == 0 && chunks[0].current_pos == current_pos
            &&& 0 < chunks[i].len <= chunk * dim
            &&& chunks[i].seq_len - chunks[i].current_pos <= chunk
            &&& !last ==> chunks[i].start + chunks[i].len == chunks[i + 1].start
            &&& !last ==> chunks[i].seq_len == chunks[i + 1].current_pos
            &&& last ==> chunks[i].start + chunks[i].len == total * dim
            &&& last ==> chunks[i].seq_len == current_pos + total
        }),
{
    let n = ceil_div(total, chunk);
    crate::num::law_groups_cover_items(total, chunk);
    let from = i * chunk;
    assert(0 * chunk == 0);
    assert((i + 1) * chunk == from + chunk) by (nonlinear_arith)
        requires
            from == i * chunk,
    ;
    assert(0 <= from <= (n - 1) * chunk) by (nonlinear_arith)
        requires
            from == i * chunk,
            0 <= i <= n - 1,
            chunk > 0,
    ;
    let count = if total - from < chunk {
        total - from
    } else {
        chunk
    };
    assert(0 < count <= chunk && from + count <= total);
    assert(0 <= from * dim && 0 < count * dim && from * dim + count * dim == (from + count) * dim
        && (from + count) * dim <= total * dim && count * dim <= chunk * dim) by (nonlinear_arith)
        requires
            0 <= from,
            0 < count <= chunk,
            from + count <= total,
            dim > 0,
    ;
    assert(0 * dim == 0);
    if i + 1 < n {
        assert((i + 1) * chunk <= (n - 1) * chunk) by (nonlinear_arith)
            requires
                i + 1 <= n - 1,
                chunk > 0,
        ;
        assert((from + chunk) * dim <= total * dim) by (nonlinear_arith)
            requires
                from + chunk <= total,
                dim > 0,
        ;
    } else {
        assert(n * chunk == from + chunk) by (nonlinear_arith)
            requires
                n == i + 1,
                from == i * chunk,
        ;
    }
}

/// Tokens of chunk `i` of a batch.
pub open spec fn chunk_tokens(batch: int, chunk: int, i: int) -> int {
    if batch - i * chunk < chunk {
        batch - i * chunk
    } else {
        chunk
    }
}

/// The steps of chunk `i` of the query/key/value projection.
pub open spec fn qkv_chunk_steps(
    layer: usize,
    kernel: Kernel,
    x: u32,
    batch: u32,
    chunk: u32,
    i: int,
) -> Seq<Step> {
    let count = chunk_tokens(batch as int, chunk as int, i) as u32;
    seq![
        Step::ForceYield,
        Step::SetChunk { layer, batch_offset: (i * chunk) as u32, batch_count: count },
        Step::Run { kernel, group: layer, x, y: count, z: 1 },
        Step::ForceYield,
        Step::SetChunk { layer, batch_offset: 0, batch_count: batch },
    ]
}

proof fn lemma_qkv_chunks(
    layer: usize,
    kernel: Kernel,
    x: u32,
    batch: u32,
    chunk: u32,
    k: int,
    i: int,
)
    requires
        chunk > 0,
        0 <= k <= i < ceil_div(batch as int, chunk as int),
    ensures
        ({
            let n = ceil_div(batch as int, chunk as int);
            let steps = qkv_steps(layer, kernel, x, batch, chunk, (k * chunk) as u32);
            &&& 0 <= k * chunk < batch
            &&& steps.len() == 5 * (n - k)
            &&& steps.subrange(5 * (i - k), 5 * (i - k) + 5) == qkv_chunk_steps(
                layer,
                kernel,
                x,
                batch,
                chunk,
                i,
            )
        }),
    decreases ceil_div(batch as int, chunk as int) - k,
{
    let c = chunk as int;
    let n = ceil_div(batch as int, c);
    crate::num::law_groups_cover_items(batch as int, c);
    assert(0 <= k * c <= (n - 1) * c) by (nonlinear_arith)
        requires
            0 <= k <= n - 1,
            c > 0,
    ;
    assert((k + 1) * c == k * c + c) by (nonlinear_arith);
    let at = (k * c) as u32;
    let count = chunk_tokens(batch as int, c, k) as u32;
    let steps = qkv_steps(layer, kernel, x, batch, chunk, at);
    let head = qkv_chunk_steps(layer, kernel, x, batch, chunk, k);
    let rest = qkv_steps(layer, kernel, x, batch, chunk, (at + count) as u32);
    assert(steps =~= head + rest);
    if k + 1 < n {
        assert((k + 1) * c <= (n - 1) * c) by (nonlinear_arith)
            requires
                k + 1 <= n - 1,
                c > 0,
        ;
        assert(at + count == (k + 1) * c);
        if i > k {
            lemma_qkv_chunks(layer, kernel, x, batch, chunk, k + 1, i);
            assert(steps.subrange(5 * (i - k), 5 * (i - k) + 5) =~= rest.subrange(
                5 * (i - k - 1),
                5 * (i - k - 1) + 5,
            ));
        } else {
            lemma_qkv_chunks(layer, kernel, x, batch, chunk, k + 1, k + 1);
            assert(steps.subrange(0, 5) =~= head);
        }
    } else {
        assert(n * c == k * c + c) by (nonlinear_arith)
            requires
                n == k + 1,
        ;
        assert(at + count == batch);
        assert(rest =~= Seq::empty());
        assert(steps.subrange(0, 5) =~= head);
    }
}

/// The dispatches of the query/key/value projection share out the batch: chunk `i`
/// starts where the one before it ends, none is empty or too large, the last ends
/// with the batch, and each dispatch runs between the uniforms for its chunk and
/// those for the whole batch.
pub proof fn law_qkv_chunks_share_out_batch(
    layer: usize,
    kernel: Kernel,
    x: u32,
    batch: u32,
    chunk: u32,
    i: int,
)
    requires
        chunk > 0,
        0 <= i < ceil_div(batch as int, chunk as int),
    ensures
        ({
            let b = batch as int;
            let c = chunk as int;
            let n = ceil_div(b, c);
            let steps = qkv_steps(layer, kernel, x, batch, chunk, 0);
            &&& steps.len() == 5 * n
            &&& steps.subrange(5 * i, 5 * i + 5) == qkv_chunk_steps(
                layer,
                kernel,
                x,
                batch,
                chunk,
                i,
            )
            &&& 0 < chunk_tokens(b, c, i) <= c
            &&& i + 1 < n ==> i * c + chunk_tokens(b, c, i) == (i + 1) * c
            &&& i + 1 == n ==> i * c + chunk_tokens(b, c, i) == b
        }),
{
    let c = chunk as int;
    let n = ceil_div(batch as int, c);
    assert(0 * chunk == 0);
    lemma_qkv_chunks(layer, kernel, x, batch, chunk, 0, i);
    lemma_qkv_chunks(layer, kernel, x, batch, chunk, i, i);
    crate::num::law_groups_cover_items(batch as int, c);
    assert((i + 1) * c == i * c + c) by (nonlinear_arith);
    if i + 1 < n {
        assert((i + 1) * c <= (n - 1) * c) by (nonlinear_arith)
            requires
                i + 1 <= n - 1,
                c > 0,
        ;
    } else {
        assert(n * c == (i + 1) * c);
    }
}

/// A model runs on an input just when the input holds a token, the table has an entry
/// for each of its layers, the header names the output norm, and all lengths and
/// sizes can be counted.
pub proof fn law_model_runs_when_it_is_complete(
    metadata: BindlessMetadata,
    spec: ModelSpec,
    input_len: usize,
)
    requires
        spec.n_embd <= u32::MAX,
        spec.n_vocab <= u32::MAX,
        spec.temp_buffer_size <= u32::MAX,
        spec.n_head <= u32::MAX,
        spec.n_head_kv <= u32::MAX,
        spec.head_dim <= u32::MAX,
        spec.ff_dim <= u32::MAX,
        input_len <= u32::MAX,
    ensures
        ({
            let tokens = input_len as int / spec.n_embd as int;
            let heads = spec.n_head * spec.head_dim + spec.n_head_kv * spec.head_dim * 2;
            can_run(metadata, spec, input_len) <==> {
                &&& spec.n_embd > 0
                &&& input_len >= spec.n_embd
                &&& spec.n_layer <= metadata.compiled_layers@.len()
                &&& spec.n_layer < usize::MAX
                &&& metadata.tensor_offsets@.contains_key("output_norm.weight"@)
                &&& spec.n_vocab * 4 <= u32::MAX
                &&& tokens * spec.temp_buffer_size * 4 <= u64::MAX
                &&& heads <= u32::MAX
                &&& spec.ff_dim * 2 <= u32::MAX
                &&& spec.arch == ModelArch::Qwen3 && spec.n_layer > 0 ==> 2 * spec.n_embd
                    <= u32::MAX
            }
        }),
{
    let d = spec.n_embd as int;
    let x = input_len as int;
    assert(low(spec.n_embd) == d && low(input_len) == x);
    assert(low(spec.n_vocab) == spec.n_vocab);
    assert(low(spec.temp_buffer_size) == spec.temp_buffer_size);
    let p = model_shape(spec);
    assert(p.head_count == spec.n_head && p.head_count_kv == spec.n_head_kv);
    assert(p.head_dim == spec.head_dim && p.ffn_dim == spec.ff_dim);
    if d > 0 {
        let b = x / d;
        assert(batch_size(spec, input_len) == b);
        vstd::arithmetic::div_mod::lemma_fundamental_div_mod(x, d);
        assert(b > 0 <==> x >= d) by (nonlinear_arith)
            requires
                b == x / d,
                x == d * (x / d) + x % d,
                0 <= x % d < d,
                x >= 0,
                d > 0,
        ;
        assert((b - 1) * d * 4 <= x * 4) by (nonlinear_arith)
            requires
                b == x / d,
                x == d * (x / d) + x % d,
                0 <= x % d < d,
                d > 0,
        ;
    }
}

/// The passes of a prefill run on whole tokens: each on as many floats as its
/// positions have, from the float of its first position on; all but the last are
/// full. Without tokens there is one pass, on nothing.
pub proof fn law_prefill_passes_run_on_whole_tokens(
    dim: int,
    total: int,
    chunk: int,
    current_pos: u32,
    i: int,
)
    requires
        dim > 0,
        total >= 0,
        chunk > 0,
        total * dim <= usize::MAX,
        current_pos + total <= u32::MAX,
        0 <= i < prefill_chunks(dim, total, chunk, current_pos).len(),
    ensures
        ({
            let chunks = prefill_chunks(dim, total, chunk, current_pos);
            let c = chunks[i];
            &&& c.len == (c.seq_len - c.current_pos) * dim
            &&& c.start == (c.current_pos - current_pos) * dim
            &&& i + 1 < chunks.len() ==> c.seq_len - c.current_pos == chunk
            &&& total == 0 ==> chunks.len() == 1 && c.len == 0 && c.start == 0 && c.current_pos
                == current_pos
        }),
{
    if total > 0 {
        let n = ceil_div(total, chunk);
        crate::num::law_groups_cover_items(total, chunk);
        law_prefill_chunks_follow(dim, total, chunk, current_pos, i);
        let from = i * chunk;
        let count = if total - from < chunk {
            total - from
        } else {
            chunk
        };
        assert((i + 1) * chunk == from + chunk) by (nonlinear_arith)
            requires
                from == i * chunk,
        ;
        assert(0 <= from <= (n - 1) * chunk) by (nonlinear_arith)
            requires
                from == i * chunk,
                0 <= i <= n - 1,
                chunk > 0,
        ;
        if i + 1 < n {
            assert((i + 1) * chunk <= (n - 1) * chunk) by (nonlinear_arith)
                requires
                    i + 1 <= n - 1,
                    chunk > 0,
            ;
        }
        assert(0 < count <= chunk && from + count <= total);
        assert(0 <= from * dim <= total * dim && 0 <= count * dim <= total * dim)
            by (nonlinear_arith)
            requires
                0 <= from <= total,
                0 <= count <= total,
                dim > 0,
        ;
    } else {
        assert(0 * dim == 0);
    }
}

} // verus!
