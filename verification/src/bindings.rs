//! What the bind groups of plans hold.
//!
//! A kernel knows its buffers by their binding numbers alone. The laws here say what
//! each kernel takes each of its bindings for, and that every plan binds just that:
//! all bindings of a group belong to one layer, each cache buffer stands where the
//! kernel expects its kind, and each uniform binding holds a block of the plan.

use crate::dispatch::{Buf, GroupModel, PlanModel, Source, Step};
use crate::full_model::{
    batch_size, can_run, final_head_group, final_norm_group, forward_model, layer_blocks, low,
    ForwardOptions,
};
use crate::head::{head_group, tile_count, tiled_head, whole_head, Head};
use crate::kernels::{layout_table, Access, Layout};
use crate::kv_cache::{CacheKind, CacheState};
use crate::layer_plan::{
    cached_layer_group, cached_layer_model, debug_layer_model, int4_group, int4_layer_model,
    qkv_only_model, quantize_group, requantize_model, stepwise_model,
};
use crate::metadata::BindlessMetadata;
use crate::offsets::LayerOffsets;
use crate::params::{
    CompactionParams, LayerParams, ResamplerOffsets, ResamplerParams, VitBlockOffsets, VitParams,
};
use crate::shift::{shift_group, shift_int4_group, shift_int4_model, shift_model};
use crate::spec::ModelSpec;
use crate::vision::{resampler_group, vision_model, vit_group};
use crate::window::BlobBinding;
use vstd::prelude::*;

verus! {

/// What a kernel takes a binding for.
pub enum Role {
    /// A slot of the blob.
    Blob(int),
    /// A buffer that all layers share.
    Shared(Buf),
    /// The tensor offsets of the layer.
    Offsets,
    /// The uniforms of the layer.
    Params,
    /// A buffer of the layer's cache.
    Live(CacheKind),
    /// The snapshot of a buffer of the layer's cache.
    Snapshot(CacheKind),
    /// Uniforms of the kernel itself.
    Uniforms,
    /// What a kernel on one vector reads.
    Input,
    /// What such a kernel writes.
    Output,
    /// Nothing that the kernel knows.
    Unknown,
}

/// What a kernel of some layout takes a binding for.
pub open spec fn role(layout: Layout, binding: u32) -> Role {
    match layout {
        Layout::Layer | Layout::LayerInt4 => if binding == 0 {
            Role::Blob(0)
        } else if binding == 1 {
            Role::Shared(Buf::Activation)
        } else if binding == 2 {
            Role::Shared(Buf::Temp)
        } else if binding == 3 {
            Role::Offsets
        } else if binding == 4 {
            Role::Params
        } else if binding == 5 {
            Role::Shared(Buf::NormBank)
        } else if binding == 6 {
            Role::Shared(Buf::RopeCache)
        } else if binding == 7 {
            Role::Live(CacheKind::K)
        } else if binding == 8 {
            Role::Live(CacheKind::V)
        } else if binding == 9 {
            Role::Shared(Buf::CacheParams)
        } else if layout == Layout::Layer {
            if 10 <= binding <= 16 {
                Role::Blob(binding - 9)
            } else {
                Role::Shared(Buf::Dummy)
            }
        } else if binding == 10 {
            Role::Live(CacheKind::KPacked)
        } else if binding == 11 {
            Role::Live(CacheKind::KScale)
        } else if binding == 12 {
            Role::Live(CacheKind::VPacked)
        } else {
            Role::Live(CacheKind::VScale)
        },
        Layout::QuantizeKv => if binding == 0 {
            Role::Live(CacheKind::K)
        } else if binding == 1 {
            Role::Live(CacheKind::V)
        } else if binding == 2 {
            Role::Live(CacheKind::KPacked)
        } else if binding == 3 {
            Role::Live(CacheKind::VPacked)
        } else if binding == 4 {
            Role::Live(CacheKind::KScale)
        } else if binding == 5 {
            Role::Live(CacheKind::VScale)
        } else {
            Role::Uniforms
        },
        Layout::RopeShift => if binding == 0 {
            Role::Snapshot(CacheKind::K)
        } else if binding == 1 {
            Role::Snapshot(CacheKind::V)
        } else if binding == 2 {
            Role::Live(CacheKind::K)
        } else if binding == 3 {
            Role::Live(CacheKind::V)
        } else {
            Role::Uniforms
        },
        Layout::RopeShiftInt4 => if binding == 0 {
            Role::Uniforms
        } else if binding == 1 {
            Role::Snapshot(CacheKind::KPacked)
        } else if binding == 2 {
            Role::Snapshot(CacheKind::KScale)
        } else if binding == 3 {
            Role::Snapshot(CacheKind::VPacked)
        } else if binding == 4 {
            Role::Snapshot(CacheKind::VScale)
        } else if binding == 5 {
            Role::Live(CacheKind::KPacked)
        } else if binding == 6 {
            Role::Live(CacheKind::KScale)
        } else if binding == 7 {
            Role::Live(CacheKind::VPacked)
        } else {
            Role::Live(CacheKind::VScale)
        },
        Layout::Vit => if binding == 0 {
            Role::Shared(Buf::VisionBlob)
        } else if binding == 1 {
            Role::Shared(Buf::VisionActivations)
        } else if binding == 2 {
            Role::Shared(Buf::VisionKqv)
        } else if binding == 3 {
            Role::Shared(Buf::VisionFfn)
        } else {
            Role::Uniforms
        },
        Layout::Resampler => if binding == 0 {
            Role::Shared(Buf::VisionBlob)
        } else if binding == 1 {
            Role::Shared(Buf::VisionFeatures)
        } else if binding == 2 {
            Role::Shared(Buf::QueryState)
        } else if binding == 3 {
            Role::Shared(Buf::KvState)
        } else {
            Role::Uniforms
        },
        Layout::RmsNorm | Layout::LmHeadBlob | Layout::MatMul => if binding == 0 {
            Role::Blob(0)
        } else if binding == 1 {
            Role::Input
        } else if binding == 2 {
            Role::Output
        } else if binding == 3 {
            Role::Uniforms
        } else {
            Role::Blob(binding - 9)
        },
        Layout::MatMulF32 => if binding == 0 {
            Role::Shared(Buf::Weights)
        } else if binding == 1 {
            Role::Input
        } else if binding == 2 {
            Role::Output
        } else {
            Role::Uniforms
        },
        Layout::Probe | Layout::Dequant | Layout::DequantAny => if binding == 0 {
            Role::Blob(0)
        } else if binding == 1 {
            Role::Output
        } else if binding == 2 {
            Role::Uniforms
        } else {
            Role::Blob(binding - 9)
        },
        _ => Role::Unknown,
    }
}

/// Whether a source fills a role in a run on layer `layer` with these blob slots,
/// where a kernel on one vector goes from `input` to `output`.
pub open spec fn fills(
    source: Source,
    role: Role,
    layer: usize,
    slots: Seq<BlobBinding>,
    input: Source,
    output: Source,
) -> bool {
    match role {
        Role::Blob(i) => source == Source::Blob(slots[i]),
        Role::Shared(buf) => source == Source::Whole(buf),
        Role::Offsets => source == Source::Whole(Buf::Offsets(layer)),
        Role::Params => source == Source::Whole(Buf::Params(layer)),
        Role::Live(kind) => source == Source::Whole(Buf::Cache(kind, layer)),
        Role::Snapshot(kind) => source == Source::Whole(Buf::Scratch(kind)),
        Role::Uniforms => source matches Source::Whole(Buf::Uniforms(_)),
        Role::Input => source == input,
        Role::Output => source == output,
        Role::Unknown => false,
    }
}

/// Whether every binding of a group fills its role.
pub open spec fn group_fills(
    group: GroupModel,
    layer: usize,
    slots: Seq<BlobBinding>,
    input: Source,
    output: Source,
) -> bool {
    forall|i: int|
        0 <= i < group.entries.len() ==> fills(
            (#[trigger] group.entries[i]).source,
            role(group.layout, group.entries[i].binding),
            layer,
            slots,
            input,
            output,
        )
}

/// Whether every binding of a group of layer kernels fills its role.
pub open spec fn layer_fills(group: GroupModel, layer: usize, slots: Seq<BlobBinding>) -> bool {
    group_fills(
        group,
        layer,
        slots,
        Source::Whole(Buf::Dummy),
        Source::Whole(Buf::Dummy),
    )
}

/// Words of the uniforms that a kernel reads at a binding.
pub open spec fn uniform_words(layout: Layout, binding: u32) -> int {
    match layout {
        Layout::Layer | Layout::LayerInt4 => if binding == 3 {
            27
        } else if binding == 4 {
            37
        } else {
            8
        },
        Layout::RmsNorm => 6,
        Layout::LmHeadBlob => 7,
        Layout::DequantAny => 5,
        Layout::Vit => if binding == 4 {
            16
        } else {
            8
        },
        Layout::Resampler => if binding == 4 {
            20
        } else {
            8
        },
        Layout::RopeShift | Layout::RopeShiftInt4 => 8,
        _ => 4,
    }
}

/// Whether a plan writes a block of `words` words for a buffer.
pub open spec fn has_block(plan: PlanModel, buf: Buf, words: int) -> bool {
    exists|i: int|
        0 <= i < plan.uniforms.len() && #[trigger] plan.uniforms[i].buf == buf
            && plan.uniforms[i].words.len() == words
}

/// Whether every uniform binding of a group holds a whole block of the plan, as many
/// words as the kernel reads there.
pub open spec fn group_fed(plan: PlanModel, group: GroupModel) -> bool {
    forall|i: int|
        0 <= i < group.entries.len() && layout_table(group.layout)[i].access == Access::Uniform
            ==> {
            &&& (#[trigger] group.entries[i]).source is Whole
            &&& has_block(
                plan,
                group.entries[i].source->Whole_0,
                uniform_words(group.layout, group.entries[i].binding),
            )
        }
}

/// The bind groups of a layer hold the buffers of that layer, each where its kernels
/// expect it: of the general kernels, of INT4 attention, and of quantization.
pub proof fn law_layer_groups_belong_to_their_layer(
    slots: Seq<BlobBinding>,
    layer: usize,
    uniforms: usize,
)
    requires
        slots.len() == 8,
    ensures
        layer_fills(cached_layer_group(slots, layer), layer, slots),
        layer_fills(int4_group(slots, layer), layer, slots),
        layer_fills(quantize_group(layer, uniforms), layer, slots),
        cached_layer_group(slots, layer).layout == Layout::Layer,
        int4_group(slots, layer).layout == Layout::LayerInt4,
        quantize_group(layer, uniforms).layout == Layout::QuantizeKv,
        quantize_group(layer, uniforms).entries[6].source == Source::Whole(Buf::Uniforms(uniforms)),
{
}

/// The kind that holds keys, or values, in packed form.
pub open spec fn packed_kind(kind: CacheKind) -> CacheKind {
    match kind {
        CacheKind::K => CacheKind::KPacked,
        _ => CacheKind::VPacked,
    }
}

/// The kind that holds the scales of packed keys, or values.
pub open spec fn scale_kind(kind: CacheKind) -> CacheKind {
    match kind {
        CacheKind::K => CacheKind::KScale,
        _ => CacheKind::VScale,
    }
}

/// Quantization packs keys into packed keys and values into packed values: the
/// binding that it reads a kind from, the one that it packs it to and the one that
/// it writes its scales to hold the same kind of the same layer. INT4 attention
/// reads all of them where quantization wrote them.
pub proof fn law_quantization_keeps_keys_and_values_apart(
    slots: Seq<BlobBinding>,
    layer: usize,
    uniforms: usize,
    i: int,
    kind: CacheKind,
)
    requires
        0 <= i < 2,
        kind == CacheKind::K || kind == CacheKind::V,
    ensures
        ({
            let q = quantize_group(layer, uniforms).entries;
            let a = int4_group(slots, layer).entries;
            &&& q[i].source == Source::Whole(Buf::Cache(kind, layer)) <==> q[i + 2].source
                == Source::Whole(Buf::Cache(packed_kind(kind), layer))
            &&& q[i].source == Source::Whole(Buf::Cache(kind, layer)) <==> q[i + 4].source
                == Source::Whole(Buf::Cache(scale_kind(kind), layer))
            &&& a[i + 7].source == q[i].source
            &&& a[2 * i + 10].source == q[i + 2].source
            &&& a[2 * i + 11].source == q[i + 4].source
        }),
{
    assert(i == 0 || i == 1);
}

/// A shift moves every kind of cache data onto itself: where a kernel writes a kind
/// of the layer, the binding that it reads for it holds the snapshot of that same
/// kind. Keys come before values, and packed data before its scales.
pub proof fn law_shift_moves_each_kind_onto_itself(layer: usize, i: int, kind: CacheKind)
    ensures
        ({
            let f = shift_group(layer).entries;
            0 <= i < 2 ==> {
                &&& f[i].binding == i && f[i + 2].binding == i + 2
                &&& f[i].source == Source::Whole(Buf::Scratch(kind)) <==> f[i + 2].source
                    == Source::Whole(Buf::Cache(kind, layer))
            }
        }),
        ({
            let q = shift_int4_group(layer).entries;
            1 <= i < 5 ==> {
                &&& q[i].binding == i && q[i + 4].binding == i + 4
                &&& q[i].source == Source::Whole(Buf::Scratch(kind)) <==> q[i + 4].source
                    == Source::Whole(Buf::Cache(kind, layer))
            }
        }),
        layer_fills(shift_group(layer), layer, Seq::empty()),
        layer_fills(shift_int4_group(layer), layer, Seq::empty()),
{
    if 0 <= i < 2 {
        assert(i == 0 || i == 1);
    }
    if 1 <= i < 5 {
        assert(i == 1 || i == 2 || i == 3 || i == 4);
    }
}

/// The plans of a shift bind the shift's groups for the layer, and write the
/// uniforms that they bind.
pub proof fn law_shift_plans_are_bound(
    layer: usize,
    size: u64,
    packed_size: u64,
    scale_size: u64,
    p: CompactionParams,
)
    ensures
        ({
            let plain = shift_model(layer, size, p);
            let int4 = shift_int4_model(layer, size, packed_size, scale_size, p);
            &&& plain.groups.len() == 1
            &&& int4.groups.len() == 2
            &&& layer_fills(plain.groups[0], layer, Seq::empty())
            &&& layer_fills(int4.groups[0], layer, Seq::empty())
            &&& layer_fills(int4.groups[1], layer, Seq::empty())
            &&& group_fed(plain, plain.groups[0])
            &&& group_fed(int4, int4.groups[0])
            &&& group_fed(int4, int4.groups[1])
        }),
{
    let plain = shift_model(layer, size, p);
    let int4 = shift_int4_model(layer, size, packed_size, scale_size, p);
    assert(plain.uniforms[0].buf == Buf::Uniforms(0));
    assert(int4.uniforms[0].buf == Buf::Uniforms(0));
}

/// The plans of one layer bind the buffers of that layer, and write the uniforms
/// that they bind. A run without a cache is a run on layer 0.
pub proof fn law_layer_plans_are_bound(
    slots: Seq<BlobBinding>,
    cache: CacheState,
    layer: usize,
    input_len: usize,
    offsets: LayerOffsets,
    params: LayerParams,
    read_halfway: bool,
)
    requires
        slots.len() == 8,
    ensures
        ({
            let cached = cached_layer_model(slots, cache, layer, input_len, offsets, params);
            let debug = debug_layer_model(slots, cache, layer, input_len, offsets, params);
            let first = stepwise_model(slots, input_len, offsets, params, read_halfway);
            &&& cached.groups.len() == 1 && debug.groups.len() == 1 && first.groups.len() == 1
            &&& layer_fills(cached.groups[0], layer, slots)
            &&& layer_fills(debug.groups[0], layer, slots)
            &&& layer_fills(first.groups[0], 0, slots)
            &&& group_fed(cached, cached.groups[0])
            &&& group_fed(debug, debug.groups[0])
            &&& group_fed(first, first.groups[0])
        }),
{
    let cached = cached_layer_model(slots, cache, layer, input_len, offsets, params);
    let debug = debug_layer_model(slots, cache, layer, input_len, offsets, params);
    let first = stepwise_model(slots, input_len, offsets, params, read_halfway);
    lemma_layer_fed(cached, slots, layer);
    lemma_layer_fed(debug, slots, layer);
    lemma_layer_fed(first, slots, 0);
}

proof fn lemma_layer_fed(plan: PlanModel, slots: Seq<BlobBinding>, layer: usize)
    requires
        slots.len() == 8,
        plan.uniforms.len() >= 3,
        plan.uniforms[0].buf == Buf::Offsets(layer),
        plan.uniforms[1].buf == Buf::Params(layer),
        plan.uniforms[2].buf == Buf::CacheParams,
        plan.uniforms[0].words.len() == 27,
        plan.uniforms[1].words.len() == 37,
        plan.uniforms[2].words.len() == 8,
    ensures
        group_fed(plan, cached_layer_group(slots, layer)),
        group_fed(plan, int4_group(slots, layer)),
{
    assert(has_block(plan, Buf::Offsets(layer), 27));
    assert(has_block(plan, Buf::Params(layer), 37));
    assert(has_block(plan, Buf::CacheParams, 8));
    let a = cached_layer_group(slots, layer);
    assert forall|i: int|
        0 <= i < a.entries.len() && layout_table(a.layout)[i].access == Access::Uniform implies {
        &&& (#[trigger] a.entries[i]).source is Whole
        &&& has_block(
            plan,
            a.entries[i].source->Whole_0,
            uniform_words(a.layout, a.entries[i].binding),
        )
    } by {
        assert(i == 3 || i == 4 || i == 9);
    }
}

/// A layer on an INT4 cache binds the buffers of that layer for all of its kernels,
/// and writes the uniforms that they bind.
pub proof fn law_int4_layer_plan_is_bound(
    slots: Seq<BlobBinding>,
    cache: CacheState,
    layer: usize,
    input_len: usize,
    offsets: LayerOffsets,
    params: LayerParams,
)
    requires
        slots.len() == 8,
    ensures
        ({
            let plan = int4_layer_model(slots, cache, layer, input_len, offsets, params);
            &&& plan.groups.len() == 3
            &&& layer_fills(plan.groups[0], layer, slots)
            &&& layer_fills(plan.groups[1], layer, slots)
            &&& layer_fills(plan.groups[2], layer, slots)
            &&& group_fed(plan, plan.groups[0])
            &&& group_fed(plan, plan.groups[1])
            &&& group_fed(plan, plan.groups[2])
        }),
{
    let plan = int4_layer_model(slots, cache, layer, input_len, offsets, params);
    lemma_layer_fed(plan, slots, layer);
    assert(plan.uniforms[3].buf == Buf::Uniforms(0));
}

/// Quantizing a whole cache binds the buffers of each layer in turn, each with
/// uniforms of its own.
pub proof fn law_requantizing_plan_is_bound(
    n_head_kv: u32,
    head_dim: u32,
    seq_len: u32,
    n_layers: usize,
    layer: usize,
)
    requires
        seq_len > 0,
        layer < n_layers,
    ensures
        ({
            let plan = requantize_model(n_head_kv, head_dim, seq_len, n_layers);
            &&& plan.groups.len() == n_layers
            &&& layer_fills(plan.groups[layer as int], layer, Seq::empty())
            &&& group_fed(plan, plan.groups[layer as int])
        }),
{
    let plan = requantize_model(n_head_kv, head_dim, seq_len, n_layers);
    assert(plan.groups[layer as int] == quantize_group(layer, layer));
    assert(plan.uniforms[layer as int].buf == Buf::Uniforms(layer));
}

/// A query/key/value run binds the buffers of layer 0; its keys and values go to one
/// buffer of their own, in place of a cache.
pub proof fn law_qkv_run_is_bound(
    slots: Seq<BlobBinding>,
    input_len: usize,
    offsets: LayerOffsets,
    params: LayerParams,
    i: int,
)
    requires
        slots.len() == 8,
    ensures
        ({
            let plan = qkv_only_model(slots, input_len, offsets, params);
            let g = plan.groups[0];
            let e = g.entries[i];
            &&& plan.groups.len() == 1
            &&& 0 <= i < g.entries.len() && i != 7 && i != 8 && i != 9 ==> fills(
                e.source,
                role(g.layout, e.binding),
                0,
                slots,
                Source::Whole(Buf::Dummy),
                Source::Whole(Buf::Dummy),
            )
            &&& g.entries[7].binding == 7 && g.entries[7].source == Source::Whole(Buf::LocalKv)
            &&& g.entries[8].binding == 8 && g.entries[8].source == Source::Whole(Buf::Dummy)
            &&& g.entries[9].binding == 9 && g.entries[9].source == Source::Whole(Buf::Dummy)
        }),
{
}

/// A forward pass binds for each layer the buffers of that layer, and writes the
/// uniforms that the layer's kernels bind.
pub proof fn law_forward_layers_are_bound(
    slots: Seq<BlobBinding>,
    chunk_words: u32,
    metadata: BindlessMetadata,
    spec: ModelSpec,
    options: ForwardOptions,
    input_len: usize,
    current_pos: u32,
    seq_len: u32,
    layer: usize,
)
    requires
        slots.len() == 8,
        can_run(metadata, spec, input_len),
        layer < spec.n_layer,
    ensures
        ({
            let plan = forward_model(
                slots,
                chunk_words,
                metadata,
                spec,
                options,
                input_len,
                current_pos,
                seq_len,
            );
            &&& plan.groups.len() == spec.n_layer + 2
            &&& layer_fills(plan.groups[layer as int], layer, slots)
            &&& group_fed(plan, plan.groups[layer as int])
        }),
{
    let plan = forward_model(
        slots,
        chunk_words,
        metadata,
        spec,
        options,
        input_len,
        current_pos,
        seq_len,
    );
    let batch = batch_size(spec, input_len);
    let blocks = layer_blocks(
        spec,
        options,
        metadata.compiled_layers@,
        spec.n_layer as nat,
        batch,
        chunk_words,
    );
    let l = layer as int;
    let g = plan.groups[l];
    assert(g == cached_layer_group(slots, layer));
    assert(plan.uniforms[3 + 2 * l] == blocks[2 * l]);
    assert(plan.uniforms[4 + 2 * l] == blocks[2 * l + 1]);
    assert(plan.uniforms[0].buf == Buf::CacheParams);
    assert(plan.uniforms[3 + 2 * l].buf == Buf::Params(layer));
    assert(plan.uniforms[4 + 2 * l].buf == Buf::Offsets(layer));
    assert(has_block(plan, Buf::CacheParams, 8));
    assert(has_block(plan, Buf::Params(layer), 37));
    assert(has_block(plan, Buf::Offsets(layer), 27));
    assert forall|i: int|
        0 <= i < g.entries.len() && layout_table(g.layout)[i].access == Access::Uniform implies {
        &&& (#[trigger] g.entries[i]).source is Whole
        &&& has_block(
            plan,
            g.entries[i].source->Whole_0,
            uniform_words(g.layout, g.entries[i].binding),
        )
    } by {
        assert(i == 3 || i == 4 || i == 9);
    }
}

/// Behind the layers the norm goes from the last token of the residual stream to the
/// start of the scratch space, and the head from there to the logits: the head reads
/// just what the norm writes. Each binds its own uniforms.
pub proof fn law_head_reads_what_the_norm_writes(
    slots: Seq<BlobBinding>,
    chunk_words: u32,
    metadata: BindlessMetadata,
    spec: ModelSpec,
    options: ForwardOptions,
    input_len: usize,
    current_pos: u32,
    seq_len: u32,
)
    requires
        slots.len() == 8,
        can_run(metadata, spec, input_len),
        batch_size(spec, input_len) * low(spec.n_embd) * 4 <= u64::MAX,
    ensures
        ({
            let plan = forward_model(
                slots,
                chunk_words,
                metadata,
                spec,
                options,
                input_len,
                current_pos,
                seq_len,
            );
            let dim = low(spec.n_embd);
            let size = 4 * dim;
            let end = batch_size(spec, input_len) * dim * 4;
            let norm = plan.groups[spec.n_layer as int];
            let head = plan.groups[spec.n_layer + 1];
            let last = Source::Part(Buf::Activation, (end - size) as u64, size as u64);
            let normed = Source::Part(Buf::Temp, 0, size as u64);
            &&& norm.layout == Layout::RmsNorm
            &&& head.layout == if options.override_head {
                Layout::MatMulF32
            } else {
                Layout::LmHeadBlob
            }
            &&& group_fills(norm, 0, slots, last, normed)
            &&& group_fills(head, 0, slots, normed, Source::Whole(Buf::Logits))
            &&& norm.entries[3].source == Source::Whole(Buf::Uniforms(0))
            &&& head.entries[3].source == Source::Whole(Buf::Uniforms(1))
            &&& group_fed(plan, norm)
            &&& group_fed(plan, head)
        }),
{
    let plan = forward_model(
        slots,
        chunk_words,
        metadata,
        spec,
        options,
        input_len,
        current_pos,
        seq_len,
    );
    let dim = low(spec.n_embd);
    let d = dim as int;
    let b = batch_size(spec, input_len) as int;
    assert((b - 1) * d * 4 == b * d * 4 - 4 * d && 0 <= (b - 1) * d * 4) by (nonlinear_arith)
        requires
            b > 0,
            d >= 0,
    ;
    let norm = plan.groups[spec.n_layer as int];
    let head = plan.groups[spec.n_layer + 1];
    assert(norm == final_norm_group(slots, dim, b as u32));
    assert(head == final_head_group(slots, dim, options.override_head));
    assert(plan.uniforms[1].buf == Buf::Uniforms(0));
    assert(plan.uniforms[2].buf == Buf::Uniforms(1));
    assert(has_block(plan, Buf::Uniforms(0), 6));
    assert(has_block(plan, Buf::Uniforms(1), uniform_words(head.layout, 3)));
    assert forall|i: int|
        0 <= i < norm.entries.len() && layout_table(norm.layout)[i].access == Access::Uniform
            implies i == 3 by {}
    assert forall|i: int|
        0 <= i < head.entries.len() && layout_table(head.layout)[i].access == Access::Uniform
            implies i == 3 by {}
}

/// The head binds the input, the output, and for each tile the uniforms of that
/// tile.
pub proof fn law_head_plans_are_bound(
    slots: Seq<BlobBinding>,
    input_len: usize,
    head: Head,
    max_wgs: u32,
    t: int,
)
    requires
        slots.len() == 8,
        0 <= t < tile_count(head.workgroups(), max_wgs as int) <= usize::MAX,
    ensures
        ({
            let one = whole_head(slots, input_len, head);
            let plan = tiled_head(slots, input_len, head, max_wgs);
            let input = Source::Whole(Buf::Input);
            let output = Source::Whole(Buf::Output);
            &&& group_fills(one.groups[0], 0, slots, input, output)
            &&& group_fed(one, one.groups[0])
            &&& group_fills(plan.groups[t], 0, slots, input, output)
            &&& group_fed(plan, plan.groups[t])
            &&& plan.groups[t].entries[3].source == Source::Whole(plan.uniforms[t].buf)
            &&& forall|u: int|
                0 <= u < plan.uniforms.len() && #[trigger] plan.uniforms[u].buf
                    == plan.uniforms[t].buf ==> u == t
        }),
{
    let one = whole_head(slots, input_len, head);
    let plan = tiled_head(slots, input_len, head, max_wgs);
    assert(one.uniforms[0].buf == Buf::Uniforms(0));
    assert(plan.uniforms[t].buf == Buf::Uniforms(t as usize));
    assert(plan.groups[t] == head_group(slots, t as usize));
    assert(one.groups[0] == head_group(slots, 0));
}

/// The vision model's plans bind its buffers, and write the uniforms that they bind.
pub proof fn law_vision_plans_are_bound(
    vit_offsets: VitBlockOffsets,
    vit: VitParams,
    resampler_offsets: ResamplerOffsets,
    resampler: ResamplerParams,
    steps: Seq<Step>,
)
    ensures
        ({
            let a = vision_model(vit_offsets.block(), vit.block(), vit_group(), steps);
            let b = vision_model(
                resampler_offsets.block(),
                resampler.block(),
                resampler_group(),
                steps,
            );
            &&& a.groups.len() == 1 && b.groups.len() == 1
            &&& layer_fills(a.groups[0], 0, Seq::empty())
            &&& layer_fills(b.groups[0], 0, Seq::empty())
            &&& a.groups[0].layout == Layout::Vit && b.groups[0].layout == Layout::Resampler
            &&& group_fed(a, a.groups[0])
            &&& group_fed(b, b.groups[0])
            &&& a.uniforms.len() == 2 && b.uniforms.len() == 2
            &&& a.groups[0].entries[4].source == Source::Whole(a.uniforms[0].buf)
            &&& a.groups[0].entries[5].source == Source::Whole(a.uniforms[1].buf)
            &&& b.groups[0].entries[4].source == Source::Whole(b.uniforms[0].buf)
            &&& b.groups[0].entries[5].source == Source::Whole(b.uniforms[1].buf)
            &&& a.uniforms[0].words == vit_offsets.block()
            &&& a.uniforms[1].words == vit.block()
            &&& b.uniforms[0].words == resampler_offsets.block()
            &&& b.uniforms[1].words == resampler.block()
            &&& a.uniforms[0].buf != a.uniforms[1].buf && b.uniforms[0].buf != b.uniforms[1].buf
            &&& a.steps == steps && b.steps == steps
        }),
{
}

/// How a kernel has to be able to use a binding of some role: what it computes is
/// writable, and nothing else is.
pub open spec fn needed_access(layout: Layout, role: Role) -> Access {
    match role {
        Role::Blob(_) => Access::ReadOnly,
        Role::Shared(buf) => if buf == Buf::CacheParams {
            Access::Uniform
        } else if buf == Buf::Activation || buf == Buf::Temp || buf == Buf::VisionActivations || buf
            == Buf::VisionKqv || buf == Buf::VisionFfn || buf == Buf::QueryState || buf
            == Buf::KvState {
            Access::ReadWrite
        } else {
            Access::ReadOnly
        },
        Role::Offsets | Role::Params | Role::Uniforms => Access::Uniform,
        Role::Live(kind) => {
            let packed = kind != CacheKind::K && kind != CacheKind::V;
            if layout == Layout::LayerInt4 && packed || layout == Layout::QuantizeKv && !packed {
                Access::ReadOnly
            } else {
                Access::ReadWrite
            }
        },
        Role::Snapshot(_) => Access::ReadOnly,
        Role::Input => Access::ReadOnly,
        Role::Output => Access::ReadWrite,
        Role::Unknown => Access::ReadOnly,
    }
}

/// Every binding of a layout can be used as its role needs. Attention reads the
/// packed cache that quantization writes; quantization reads the F32 cache that the
/// projection writes.
pub proof fn law_bindings_can_be_used_as_needed(layout: Layout, i: int)
    requires
        layout != Layout::PleInput,
        layout != Layout::PleBlock,
        0 <= i < layout_table(layout).len(),
    ensures
        ({
            let e = layout_table(layout)[i];
            e.access == needed_access(layout, role(layout, e.binding))
        }),
{
    let table = layout_table(layout);
    if layout == Layout::Layer && 10 <= i < 17 {
        assert(table[i].binding == i);
    }
}

/// The bindings of a layout are numbered from 0 on without a gap, but for those of
/// the further blob slots, which are 10 to 16.
pub proof fn law_bindings_are_numbered(layout: Layout, i: int)
    requires
        layout != Layout::PleInput,
        layout != Layout::PleBlock,
        0 <= i < layout_table(layout).len(),
    ensures
        ({
            let table = layout_table(layout);
            let first = match layout {
                Layout::Probe => 2int,
                Layout::Dequant | Layout::DequantAny => 3int,
                Layout::MatMul | Layout::MatMulF32 | Layout::RmsNorm | Layout::LmHeadBlob => 4int,
                Layout::RopeShift => 5int,
                Layout::Vit | Layout::Resampler => 6int,
                Layout::QuantizeKv => 7int,
                Layout::RopeShiftInt4 => 9int,
                Layout::Layer => 10int,
                _ => 14int,
            };
            let further = layout == Layout::DequantAny || layout == Layout::RmsNorm || layout
                == Layout::LmHeadBlob || layout == Layout::Layer;
            &&& i < first ==> table[i].binding == i
            &&& further && first <= i < first + 7 ==> table[i].binding == 10 + (i - first)
            &&& layout == Layout::Layer ==> table.len() == 18 && table[17].binding == 17
            &&& further && layout != Layout::Layer ==> table.len() == first + 7
            &&& !further ==> table.len() == first
        }),
{
}

} // verus!
