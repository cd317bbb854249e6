//! How plans fit together with the kernels that they run.
//!
//! A plan is wired when each of its kernels is compiled and runs with a complete
//! bind group of its own layout, and when the host fills and reads only buffers
//! that the plan has created. Every plan of this crate is.

use crate::dispatch::{Buf, GroupModel, NewBuffer, PlanModel, Step};
use crate::full_model::{
    all_layer_steps, attention_steps, batch_size, can_run, ffn_steps, final_head_group,
    final_norm_group, forward_model, layer_steps, low, model_shape, on_batch, pick, qkv_chunk,
    qkv_steps, runs_q4k, tail_steps, ForwardOptions,
};
use crate::head::{head_group, tile_count, tiled_head, whole_head, Head};
use crate::kernels::{
    kernel_layout, layout_table, model_kernels, resampler_kernel_list, shift_kernels,
    vit_kernels, Kernel, Layout,
};
use crate::kv_cache::{CacheKind, CacheState};
use crate::layer_plan::{
    cached_layer_group, cached_layer_model, debug_layer_model, int4_group, int4_layer_model,
    layer_group, layer_sizes, qkv_only_model, quantize_group, requantize_model, state_buffers,
    stepwise_model, LayerSizes,
};
use crate::metadata::BindlessMetadata;
use crate::offsets::LayerOffsets;
use crate::params::{CompactionParams, LayerParams, ResamplerParams, VitParams};
use crate::shift::{shift_group, shift_int4_group, shift_int4_model, shift_model};
use crate::single::{
    chunk_readback, dequant_any_group, dequant_group, input_buffer, matmul_f32_group,
    matmul_group, one_kernel, probe_model, raw_dequant_group, rmsnorm_group,
};
use crate::spec::ModelSpec;
use crate::vision::{
    over_items, resampler_group, resampler_kernels, resampler_steps, vision_model,
    vit_block_steps, vit_group,
};
use crate::window::BlobBinding;
use vstd::prelude::*;

verus! {

/// Whether a bind group lists just the bindings of its layout, in order.
pub open spec fn fits_layout(group: GroupModel) -> bool {
    let table = layout_table(group.layout);
    &&& group.entries.len() == table.len()
    &&& forall|i: int|
        0 <= i < table.len() ==> #[trigger] group.entries[i].binding == table[i].binding
}

/// Whether a step's kernel is one of `kernels` and its bind group exists and has
/// the kernel's layout.
pub open spec fn step_fits(step: Step, groups: Seq<GroupModel>, kernels: Seq<Kernel>) -> bool {
    step matches Step::Run { kernel, group, .. } ==> kernels.contains(kernel) && group
        < groups.len() && groups[group as int].layout == kernel_layout(kernel)
}

/// Whether a plan fits together, where `kernels` are compiled.
pub open spec fn wired(plan: PlanModel, kernels: Seq<Kernel>) -> bool {
    &&& forall|i: int| 0 <= i < plan.groups.len() ==> fits_layout(#[trigger] plan.groups[i])
    &&& forall|i: int|
        0 <= i < plan.steps.len() ==> step_fits(#[trigger] plan.steps[i], plan.groups, kernels)
    &&& forall|i: int|
        0 <= i < plan.reads.len() ==> exists|j: int|
            0 <= j < plan.buffers.len() && #[trigger] plan.buffers[j].buf
                == #[trigger] plan.reads[i]
    &&& forall|i: int|
        0 <= i < plan.filled.len() ==> exists|j: int|
            0 <= j < plan.buffers.len() && #[trigger] plan.buffers[j].buf
                == #[trigger] plan.filled[i]
}

/// Where a kernel of the language model stands in the list of its pipeline.
spec fn model_kernel_at(kernel: Kernel) -> int {
    match kernel {
        Kernel::Probe => 0,
        Kernel::Dequant => 1,
        Kernel::DequantAny => 2,
        Kernel::MatMul => 3,
        Kernel::MatMulF32 => 4,
        Kernel::RmsNorm => 5,
        Kernel::AttnNorm => 6,
        Kernel::Qkv => 7,
        Kernel::QkNorm => 8,
        Kernel::AttnOut => 9,
        Kernel::AttnProj => 10,
        Kernel::FfnNorm => 11,
        Kernel::FfnProj => 12,
        Kernel::FfnDown => 13,
        Kernel::PostAttnNorm => 14,
        Kernel::PostFfwNorm => 15,
        Kernel::Q4kQkv => 16,
        Kernel::Q4kAttnOut => 17,
        Kernel::Q4kAttnProj => 18,
        Kernel::Q4kFfnProj => 19,
        Kernel::Q4kFfnDown => 20,
        Kernel::LmHeadBlob => 21,
        Kernel::AttnOutInt4 => 22,
        Kernel::QuantizeKv => 23,
        Kernel::PleInput => 24,
        Kernel::PleBlock => 25,
        _ => -1,
    }
}

proof fn lemma_model_kernels()
    ensures
        forall|k: Kernel|
            #![trigger model_kernels().contains(k)]
            model_kernel_at(k) >= 0 ==> model_kernels().contains(k),
{
    assert forall|k: Kernel|
        #![trigger model_kernels().contains(k)]
        model_kernel_at(k) >= 0 implies model_kernels().contains(k) by {
        assert(model_kernels()[model_kernel_at(k)] == k);
    }
}

/// A run of one kernel is wired, where its bind group fits.
proof fn lemma_one_kernel(
    inputs: Seq<NewBuffer>,
    output_size: u64,
    words: Seq<u32>,
    group: GroupModel,
    kernel: Kernel,
    x: u32,
)
    requires
        fits_layout(group),
        group.layout == kernel_layout(kernel),
        model_kernel_at(kernel) >= 0,
    ensures
        wired(
            one_kernel(inputs, output_size, words, group, kernel, x),
            model_kernels(),
        ),
{
    lemma_model_kernels();
    let plan = one_kernel(inputs, output_size, words, group, kernel, x);
    assert(plan.buffers[inputs.len() as int + 1].buf == plan.reads[0]);
    assert forall|i: int| 0 <= i < plan.filled.len() implies exists|j: int|
        0 <= j < plan.buffers.len() && #[trigger] plan.buffers[j].buf
            == #[trigger] plan.filled[i] by {
        assert(plan.buffers[i].buf == plan.filled[i]);
    }
}

/// The plans of single kernels are wired.
pub proof fn law_single_kernels_are_wired(
    slots: Seq<BlobBinding>,
    inputs: Seq<NewBuffer>,
    size: u64,
    words: Seq<u32>,
    x: u32,
)
    requires
        slots.len() == 8,
    ensures
        wired(probe_model(slots), model_kernels()),
        wired(
            one_kernel(
                inputs,
                size,
                words,
                dequant_group(slots),
                Kernel::Dequant,
                x,
            ),
            model_kernels(),
        ),
        wired(
            one_kernel(
                inputs,
                size,
                words,
                raw_dequant_group(),
                Kernel::DequantAny,
                x,
            ),
            model_kernels(),
        ),
        wired(
            one_kernel(
                inputs,
                size,
                words,
                dequant_any_group(slots),
                Kernel::DequantAny,
                x,
            ),
            model_kernels(),
        ),
        wired(chunk_readback(size), model_kernels()),
        wired(
            one_kernel(
                inputs,
                size,
                words,
                matmul_group(slots),
                Kernel::MatMul,
                x,
            ),
            model_kernels(),
        ),
        wired(
            one_kernel(
                inputs,
                size,
                words,
                matmul_f32_group(),
                Kernel::MatMulF32,
                x,
            ),
            model_kernels(),
        ),
        wired(
            one_kernel(
                inputs,
                size,
                words,
                rmsnorm_group(slots),
                Kernel::RmsNorm,
                x,
            ),
            model_kernels(),
        ),
{
    lemma_model_kernels();
    let probe = probe_model(slots);
    assert(fits_layout(probe.groups[0]));
    assert(probe.buffers[1].buf == probe.reads[0]);
    let chunk = chunk_readback(size);
    assert(chunk.buffers[0].buf == chunk.reads[0]);
    assert(fits_layout(dequant_group(slots)));
    lemma_one_kernel(
        inputs,
        size,
        words,
        dequant_group(slots),
        Kernel::Dequant,
        x,
    );
    assert(fits_layout(raw_dequant_group()));
    lemma_one_kernel(
        inputs,
        size,
        words,
        raw_dequant_group(),
        Kernel::DequantAny,
        x,
    );
    assert(fits_layout(dequant_any_group(slots)));
    lemma_one_kernel(
        inputs,
        size,
        words,
        dequant_any_group(slots),
        Kernel::DequantAny,
        x,
    );
    assert(fits_layout(matmul_group(slots)));
    lemma_one_kernel(
        inputs,
        size,
        words,
        matmul_group(slots),
        Kernel::MatMul,
        x,
    );
    assert(fits_layout(matmul_f32_group()));
    lemma_one_kernel(
        inputs,
        size,
        words,
        matmul_f32_group(),
        Kernel::MatMulF32,
        x,
    );
    assert(fits_layout(rmsnorm_group(slots)));
    lemma_one_kernel(
        inputs,
        size,
        words,
        rmsnorm_group(slots),
        Kernel::RmsNorm,
        x,
    );
}

/// The head is wired, in one tile or many.
pub proof fn law_head_is_wired(
    slots: Seq<BlobBinding>,
    input_len: usize,
    head: Head,
    max_wgs: u32,
)
    requires
        slots.len() == 8,
        tile_count(head.workgroups(), max_wgs as int) <= usize::MAX,
    ensures
        wired(whole_head(slots, input_len, head), model_kernels()),
        wired(tiled_head(slots, input_len, head, max_wgs), model_kernels()),
{
    assert(fits_layout(head_group(slots, 0)));
    lemma_one_kernel(
        input_buffer(input_len),
        (head.vocab_size * 4) as u64,
        head.params(0).block(),
        head_group(slots, 0),
        Kernel::LmHeadBlob,
        head.workgroups() as u32,
    );
    lemma_model_kernels();
    let plan = tiled_head(slots, input_len, head, max_wgs);
    assert(plan.buffers[2].buf == plan.reads[0]);
    assert(plan.buffers[0].buf == plan.filled[0]);
    assert forall|i: int| 0 <= i < plan.groups.len() implies fits_layout(
        #[trigger] plan.groups[i],
    ) by {
        assert(plan.groups[i] == head_group(slots, i as usize));
    }
}

/// The plans of single layers are wired.
pub proof fn law_layers_are_wired(
    slots: Seq<BlobBinding>,
    cache: CacheState,
    layer: usize,
    input_len: usize,
    offsets: LayerOffsets,
    params: LayerParams,
    read_halfway: bool,
)
    requires
        slots.len() == 8,
    ensures
        wired(
            qkv_only_model(slots, input_len, offsets, params),
            model_kernels(),
        ),
        wired(
            stepwise_model(slots, input_len, offsets, params, read_halfway),
            model_kernels(),
        ),
        wired(
            cached_layer_model(
                slots,
                cache,
                layer,
                input_len,
                offsets,
                params,
            ),
            model_kernels(),
        ),
        wired(
            int4_layer_model(slots, cache, layer, input_len, offsets, params),
            model_kernels(),
        ),
        wired(
            debug_layer_model(slots, cache, layer, input_len, offsets, params),
            model_kernels(),
        ),
{
    lemma_qkv_only(slots, input_len, offsets, params);
    lemma_stepwise(slots, input_len, offsets, params, read_halfway);
    lemma_cached_layer(slots, cache, layer, input_len, offsets, params);
    lemma_int4_layer(slots, cache, layer, input_len, offsets, params);
    lemma_debug_layer(slots, cache, layer, input_len, offsets, params);
}

proof fn lemma_layer_group(
    slots: Seq<BlobBinding>,
    layer: usize,
    k: Buf,
    v: Buf,
    cache_params: Buf,
)
    requires
        slots.len() == 8,
    ensures
        fits_layout(layer_group(slots, layer, k, v, cache_params)),
        layer_group(slots, layer, k, v, cache_params).layout == Layout::Layer,
{
}

proof fn lemma_qkv_only(
    slots: Seq<BlobBinding>,
    input_len: usize,
    offsets: LayerOffsets,
    params: LayerParams,
)
    requires
        slots.len() == 8,
    ensures
        wired(
            qkv_only_model(slots, input_len, offsets, params),
            model_kernels(),
        ),
{
    lemma_model_kernels();
    let plan = qkv_only_model(slots, input_len, offsets, params);
    let n = state_buffers(input_len, params).len() as int;
    lemma_layer_group(
        slots,
        0,
        Buf::LocalKv,
        Buf::Dummy,
        Buf::Dummy,
    );
    assert(plan.buffers[0].buf == plan.filled[0]);
    assert(plan.buffers[n + 1].buf == plan.reads[0]);
    assert(plan.buffers[n + 2].buf == plan.reads[1]);
    assert(plan.buffers[n + 3].buf == plan.reads[2]);
}

proof fn lemma_stepwise(
    slots: Seq<BlobBinding>,
    input_len: usize,
    offsets: LayerOffsets,
    params: LayerParams,
    read_halfway: bool,
)
    requires
        slots.len() == 8,
    ensures
        wired(
            stepwise_model(slots, input_len, offsets, params, read_halfway),
            model_kernels(),
        ),
{
    lemma_model_kernels();
    let plan = stepwise_model(slots, input_len, offsets, params, read_halfway);
    let n = state_buffers(input_len, params).len() as int;
    lemma_layer_group(
        slots,
        0,
        Buf::Cache(CacheKind::K, 0),
        Buf::Cache(CacheKind::V, 0),
        Buf::CacheParams,
    );
    assert(plan.buffers[0].buf == plan.filled[0]);
    assert(plan.buffers[n + 2].buf == Buf::Read(0));
    assert(plan.buffers[n + 3].buf == Buf::Read(1));
}

proof fn lemma_cached_layer(
    slots: Seq<BlobBinding>,
    cache: CacheState,
    layer: usize,
    input_len: usize,
    offsets: LayerOffsets,
    params: LayerParams,
)
    requires
        slots.len() == 8,
    ensures
        wired(
            cached_layer_model(
                slots,
                cache,
                layer,
                input_len,
                offsets,
                params,
            ),
            model_kernels(),
        ),
{
    lemma_model_kernels();
    let plan = cached_layer_model(
        slots,
        cache,
        layer,
        input_len,
        offsets,
        params,
    );
    let n = state_buffers(input_len, params).len() as int;
    lemma_layer_group(
        slots,
        layer,
        Buf::Cache(CacheKind::K, layer),
        Buf::Cache(CacheKind::V, layer),
        Buf::CacheParams,
    );
    assert(plan.buffers[0].buf == plan.filled[0]);
    assert(plan.buffers[n].buf == plan.reads[0]);
}

proof fn lemma_int4_layer(
    slots: Seq<BlobBinding>,
    cache: CacheState,
    layer: usize,
    input_len: usize,
    offsets: LayerOffsets,
    params: LayerParams,
)
    requires
        slots.len() == 8,
    ensures
        wired(
            int4_layer_model(slots, cache, layer, input_len, offsets, params),
            model_kernels(),
        ),
{
    lemma_model_kernels();
    let plan = int4_layer_model(
        slots,
        cache,
        layer,
        input_len,
        offsets,
        params,
    );
    let n = state_buffers(input_len, params).len() as int;
    lemma_layer_group(
        slots,
        layer,
        Buf::Cache(CacheKind::K, layer),
        Buf::Cache(CacheKind::V, layer),
        Buf::CacheParams,
    );
    assert(fits_layout(int4_group(slots, layer)));
    assert(fits_layout(quantize_group(layer, 0)));
    assert(plan.buffers[0].buf == plan.filled[0]);
    assert(plan.buffers[n].buf == plan.reads[0]);
}

proof fn lemma_debug_layer(
    slots: Seq<BlobBinding>,
    cache: CacheState,
    layer: usize,
    input_len: usize,
    offsets: LayerOffsets,
    params: LayerParams,
)
    requires
        slots.len() == 8,
    ensures
        wired(
            debug_layer_model(slots, cache, layer, input_len, offsets, params),
            model_kernels(),
        ),
{
    lemma_model_kernels();
    let plan = debug_layer_model(
        slots,
        cache,
        layer,
        input_len,
        offsets,
        params,
    );
    let n = state_buffers(input_len, params).len() as int;
    lemma_layer_group(
        slots,
        layer,
        Buf::Cache(CacheKind::K, layer),
        Buf::Cache(CacheKind::V, layer),
        Buf::CacheParams,
    );
    assert(plan.buffers[0].buf == plan.filled[0]);
    assert(plan.buffers[n].buf == Buf::Read(0));
    assert(plan.buffers[n + 1].buf == Buf::Read(1));
    assert(plan.buffers[n + 2].buf == Buf::Read(2));
    assert(plan.buffers[n + 3].buf == Buf::Read(3));
    assert(plan.buffers[n + 4].buf == Buf::Read(4));
    assert(plan.buffers[n + 5].buf == Buf::Read(5));
}

/// Quantizing the whole cache is wired.
pub proof fn law_requantizing_is_wired(
    n_head_kv: u32,
    head_dim: u32,
    seq_len: u32,
    n_layers: usize,
)
    ensures
        wired(
            requantize_model(n_head_kv, head_dim, seq_len, n_layers),
            model_kernels(),
        ),
{
    lemma_model_kernels();
    let plan = requantize_model(n_head_kv, head_dim, seq_len, n_layers);
    assert forall|i: int| 0 <= i < plan.groups.len() implies fits_layout(
        #[trigger] plan.groups[i],
    ) by {
        assert(plan.groups[i] == quantize_group(i as usize, i as usize));
    }
}

/// The context shift is wired.
pub proof fn law_shift_is_wired(
    layer: usize,
    size: u64,
    packed_size: u64,
    scale_size: u64,
    p: CompactionParams,
)
    ensures
        wired(shift_model(layer, size, p), shift_kernels()),
        wired(
            shift_int4_model(layer, size, packed_size, scale_size, p),
            shift_kernels(),
        ),
{
    assert(shift_kernels()[0] == Kernel::RopeShift);
    assert(shift_kernels()[1] == Kernel::RopeShiftInt4);
    assert(fits_layout(shift_group(layer)));
    assert(fits_layout(shift_int4_group(layer)));
}

/// The vision model is wired.
pub proof fn law_vision_is_wired(
    offsets: Seq<u32>,
    words: Seq<u32>,
    vit: VitParams,
    resampler: ResamplerParams,
)
    ensures
        wired(
            vision_model(
                offsets,
                words,
                vit_group(),
                vit_block_steps(vit),
            ),
            vit_kernels(),
        ),
        wired(
            vision_model(
                offsets,
                words,
                vit_group(),
                seq![
                    over_items(Kernel::VitPostLn, vit.n_tokens as int),
                    Step::Submit,
                ],
            ),
            vit_kernels(),
        ),
        wired(
            vision_model(
                offsets,
                words,
                resampler_group(),
                resampler_steps(resampler),
            ),
            resampler_kernel_list(),
        ),
{
    assert(fits_layout(vit_group()));
    assert(fits_layout(resampler_group()));
    assert(vit_kernels()[0] == Kernel::VitLn1);
    assert(vit_kernels()[1] == Kernel::VitQkv);
    assert(vit_kernels()[2] == Kernel::VitAttn);
    assert(vit_kernels()[3] == Kernel::VitAttnProj);
    assert(vit_kernels()[4] == Kernel::VitLn2);
    assert(vit_kernels()[5] == Kernel::VitFfnUp);
    assert(vit_kernels()[6] == Kernel::VitFfnDown);
    assert(vit_kernels()[7] == Kernel::VitPostLn);
    let kernels = resampler_kernels(resampler);
    let list = resampler_kernel_list();
    assert forall|i: int| 0 <= i < 12 implies list.contains(#[trigger] kernels[i].0) by {
        assert(list[i] == kernels[i].0);
    }
    assert forall|i: int| 0 <= i < 12 implies #[trigger] kernel_layout(kernels[i].0)
        == Layout::Resampler by {
        assert(list[i] == kernels[i].0);
    }
}

/// Whether a step fits a plan whose first `n` bind groups are those of layers.
spec fn fits_layers(step: Step, n: int) -> bool {
    step matches Step::Run { kernel, group, .. } ==> model_kernel_at(kernel) >= 0 && group < n
        && kernel_layout(kernel) == Layout::Layer
}

spec fn all_fit_layers(steps: Seq<Step>, n: int) -> bool {
    forall|i: int| 0 <= i < steps.len() ==> fits_layers(#[trigger] steps[i], n)
}

proof fn lemma_concat_fits(a: Seq<Step>, b: Seq<Step>, n: int)
    requires
        all_fit_layers(a, n),
        all_fit_layers(b, n),
    ensures
        all_fit_layers(a + b, n),
{
    assert forall|i: int| 0 <= i < (a + b).len() implies fits_layers(
        #[trigger] (a + b)[i],
        n,
    ) by {
        if i < a.len() {
            assert((a + b)[i] == a[i]);
        } else {
            assert((a + b)[i] == b[i - a.len()]);
        }
    }
}

proof fn lemma_qkv_fits(
    layer: usize,
    kernel: Kernel,
    x: u32,
    batch: u32,
    chunk: u32,
    at: u32,
    n: int,
)
    requires
        layer < n,
        model_kernel_at(kernel) >= 0,
        kernel_layout(kernel) == Layout::Layer,
    ensures
        all_fit_layers(qkv_steps(layer, kernel, x, batch, chunk, at), n),
    decreases batch - at,
{
    if at < batch && chunk != 0 {
        let count = if batch - at < chunk {
            (batch - at) as u32
        } else {
            chunk
        };
        let next = (at + count) as u32;
        lemma_qkv_fits(layer, kernel, x, batch, chunk, next, n);
        let head = seq![
            Step::ForceYield,
            Step::SetChunk { layer, batch_offset: at, batch_count: count },
            Step::Run { kernel, group: layer, x, y: count, z: 1 },
            Step::ForceYield,
            Step::SetChunk { layer, batch_offset: 0, batch_count: batch },
        ];
        lemma_concat_fits(
            head,
            qkv_steps(layer, kernel, x, batch, chunk, next),
            n,
        );
    }
}

proof fn lemma_layer_fits(
    layer: usize,
    s: LayerSizes,
    q4k: bool,
    batch: u32,
    chunk: u32,
    trace: bool,
    n: int,
)
    requires
        layer < n,
    ensures
        all_fit_layers(
            layer_steps(layer, s, q4k, batch, chunk, trace),
            n,
        ),
{
    let kernel = pick(q4k, Kernel::Qkv, Kernel::Q4kQkv);
    let norm = seq![on_batch(Kernel::AttnNorm, layer, s.wg_dim, batch)];
    let qkv = qkv_steps(layer, kernel, s.wg_qkv, batch, chunk, 0);
    let attention = attention_steps(layer, s, q4k, batch);
    let ffn = ffn_steps(layer, s, q4k, batch, trace);
    lemma_qkv_fits(layer, kernel, s.wg_qkv, batch, chunk, 0, n);
    assert(all_fit_layers(norm, n));
    assert(all_fit_layers(attention, n));
    assert(all_fit_layers(ffn, n));
    lemma_concat_fits(norm, qkv, n);
    lemma_concat_fits(norm + qkv, attention, n);
    lemma_concat_fits(norm + qkv + attention, ffn, n);
}

proof fn lemma_layers_fit(
    k: nat,
    s: LayerSizes,
    q4k: bool,
    batch: u32,
    chunk: u32,
    trace: bool,
    n: int,
)
    requires
        k <= n <= usize::MAX,
    ensures
        all_fit_layers(
            all_layer_steps(k, s, q4k, batch, chunk, trace),
            n,
        ),
    decreases k,
{
    if k > 0 {
        let rest = (k - 1) as nat;
        lemma_layers_fit(rest, s, q4k, batch, chunk, trace, n);
        lemma_layer_fits((k - 1) as usize, s, q4k, batch, chunk, trace, n);
        lemma_concat_fits(
            all_layer_steps(rest, s, q4k, batch, chunk, trace),
            layer_steps(
                (k - 1) as usize,
                s,
                q4k,
                batch,
                chunk,
                trace,
            ),
            n,
        );
    }
}

/// A forward pass of the whole model is wired.
pub proof fn law_forward_pass_is_wired(
    slots: Seq<BlobBinding>,
    chunk_words: u32,
    metadata: BindlessMetadata,
    spec: ModelSpec,
    options: ForwardOptions,
    input_len: usize,
    current_pos: u32,
    seq_len: u32,
)
    requires
        slots.len() == 8,
        can_run(metadata, spec, input_len),
    ensures
        wired(
            forward_model(
                slots,
                chunk_words,
                metadata,
                spec,
                options,
                input_len,
                current_pos,
                seq_len,
            ),
            model_kernels(),
        ),
{
    lemma_model_kernels();
    let plan = forward_model(
        slots,
        chunk_words,
        metadata,
        spec,
        options,
        input_len,
        current_pos,
        seq_len,
    );
    let n = spec.n_layer as int;
    let dim = low(spec.n_embd);
    let batch = batch_size(spec, input_len);
    let layers = all_layer_steps(
        n as nat,
        layer_sizes(model_shape(spec)),
        runs_q4k(metadata),
        batch,
        qkv_chunk(options.prefill_chunk, batch),
        options.trace_layers,
    );
    let tail = tail_steps(spec, options, dim, batch);
    lemma_layers_fit(
        n as nat,
        layer_sizes(model_shape(spec)),
        runs_q4k(metadata),
        batch,
        qkv_chunk(options.prefill_chunk, batch),
        options.trace_layers,
        n,
    );
    assert(plan.groups.len() == n + 2);
    assert forall|i: int| 0 <= i < plan.groups.len() implies fits_layout(
        #[trigger] plan.groups[i],
    ) by {
        if i < n {
            assert(plan.groups[i] == cached_layer_group(slots, i as usize));
            lemma_layer_group(
                slots,
                i as usize,
                Buf::Cache(CacheKind::K, i as usize),
                Buf::Cache(CacheKind::V, i as usize),
                Buf::CacheParams,
            );
        } else if i == n {
            assert(plan.groups[i] == final_norm_group(slots, dim, batch));
        } else {
            assert(plan.groups[i] == final_head_group(
                slots,
                dim,
                options.override_head,
            ));
        }
    }
    assert forall|i: int| 0 <= i < plan.steps.len() implies step_fits(
        #[trigger] plan.steps[i],
        plan.groups,
        model_kernels(),
    ) by {
        if i < layers.len() {
            assert(plan.steps[i] == layers[i]);
            assert(fits_layers(layers[i], n));
        } else {
            assert(plan.steps[i] == tail[i - layers.len()]);
        }
    }
    assert(plan.buffers[0].buf == plan.filled[0]);
    assert(options.pingpong ==> plan.buffers[1].buf == plan.filled[1]);
    assert(plan.buffers[5].buf == plan.reads[0]);
    assert(plan.buffers[4].buf == plan.reads[1]);
    assert(plan.buffers[6].buf == plan.reads[2]);
}

} // verus!
