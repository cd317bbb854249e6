//! How plans schedule their kernels: in which order, over how many workgroups, and
//! with which yields in between.

use crate::dispatch::{Buf, Step};
use crate::full_model::{
    all_layer_steps, attention_steps, batch_size, can_run, ffn_steps, forward_model,
    layer_steps, low, model_shape, on_batch, pick, qkv_chunk, qkv_steps, runs_q4k, tail_steps,
    ForwardOptions,
};
use crate::head::{tile_count, tiled_head, whole_head, Head};
use crate::kernels::Kernel;
use crate::kv_cache::CacheState;
use crate::layer_plan::{
    cached_layer_model, debug_layer_model, int4_layer_model, layer_sizes, lengths_fit,
    qkv_only_model, requantize_model, shape_of, stepwise_model, LayerShape, LayerSizes,
};
use crate::metadata::BindlessMetadata;
use crate::num::law_groups_cover_items;
use crate::offsets::LayerOffsets;
use crate::params::{LayerParams, ResamplerParams, VitParams};
use crate::spec::ModelSpec;
use crate::vision::{dispatchable, over_items, resampler_kernels, resampler_steps, vit_block_steps};
use crate::window::BlobBinding;
use vstd::prelude::*;

verus! {

/// Whether `groups` workgroups of `threads` threads reach every one of `items` items,
/// and no fewer do.
pub open spec fn covers(groups: int, threads: int, items: int) -> bool {
    &&& groups * threads >= items
    &&& items > 0 ==> (groups - 1) * threads < items
    &&& items == 0 ==> groups == 0
}

/// Elements that a layer's kernel writes per token: query, key and value; query and
/// key; gate and up; or else a vector of the residual stream.
pub open spec fn layer_elements(kernel: Kernel, p: LayerShape) -> int {
    let query = p.head_count * p.head_dim;
    let key = p.head_count_kv * p.head_dim;
    match kernel {
        Kernel::Qkv | Kernel::Q4kQkv => query + key + key,
        Kernel::QkNorm => query + key,
        Kernel::FfnProj | Kernel::Q4kFfnProj => p.ffn_dim + p.ffn_dim,
        _ => p.dim as int,
    }
}

/// Whether a kernel belongs to the layers of a model.
pub open spec fn of_layer(kernel: Kernel) -> bool {
    0 <= stage(kernel) <= 10 && kernel != Kernel::QuantizeKv
}

/// Where a kernel stands in the computation of a token. What runs at one stage reads
/// what earlier stages wrote.
pub open spec fn stage(kernel: Kernel) -> int {
    match kernel {
        Kernel::AttnNorm => 0,
        Kernel::Qkv | Kernel::Q4kQkv => 1,
        Kernel::QkNorm => 2,
        Kernel::QuantizeKv => 3,
        Kernel::AttnOut | Kernel::Q4kAttnOut | Kernel::AttnOutInt4 => 4,
        Kernel::AttnProj | Kernel::Q4kAttnProj => 5,
        Kernel::PostAttnNorm => 6,
        Kernel::FfnNorm => 7,
        Kernel::FfnProj | Kernel::Q4kFfnProj => 8,
        Kernel::FfnDown | Kernel::Q4kFfnDown => 9,
        Kernel::PostFfwNorm => 10,
        Kernel::RmsNorm => 11,
        Kernel::LmHeadBlob | Kernel::MatMulF32 => 12,
        _ => -1,
    }
}

/// Whether a step of a layer runs over enough workgroups of 256 threads: one per
/// element and token. The feed-forward norm takes one workgroup per token.
pub open spec fn step_covers(step: Step, p: LayerShape) -> bool {
    step matches Step::Run { kernel, x, z, .. } ==> of_layer(kernel) ==> z == 1 && (
    if kernel == Kernel::FfnNorm {
        x == 1
    } else {
        covers(x as int, 256, layer_elements(kernel, p))
    })
}

/// Whether all steps of a layer on one token run over enough workgroups.
pub open spec fn steps_cover(steps: Seq<Step>, p: LayerShape) -> bool {
    forall|i: int|
        0 <= i < steps.len() ==> step_covers(#[trigger] steps[i], p) && (steps[i] is Run
            ==> steps[i]->y == 1)
}

proof fn lemma_sizes_cover(p: LayerShape)
    requires
        lengths_fit(p),
    ensures
        ({
            let s = layer_sizes(p);
            let query = p.head_count * p.head_dim;
            let key = p.head_count_kv * p.head_dim;
            &&& covers(s.wg_dim as int, 256, p.dim as int)
            &&& covers(s.wg_qkv as int, 256, query + key + key)
            &&& covers(s.wg_qknorm as int, 256, query + key)
            &&& covers(s.wg_ffn as int, 256, p.ffn_dim + p.ffn_dim)
            &&& s.q_len == query
            &&& s.kv_len == key
        }),
{
    let query = p.head_count * p.head_dim;
    let key = p.head_count_kv * p.head_dim;
    assert(0 <= query) by (nonlinear_arith)
        requires
            query == p.head_count * p.head_dim,
    ;
    assert(0 <= key) by (nonlinear_arith)
        requires
            key == p.head_count_kv * p.head_dim,
    ;
    law_groups_cover_items(p.dim as int, 256);
    law_groups_cover_items(query + key * 2, 256);
    law_groups_cover_items(query + key, 256);
    law_groups_cover_items(p.ffn_dim * 2, 256);
}

/// The lengths of a layer's vectors are those of its heads, and the dispatch sizes
/// reach every element of what the kernels write.
pub proof fn law_layer_sizes_reach_every_element(p: LayerShape)
    requires
        lengths_fit(p),
    ensures
        layer_sizes(p).q_len == p.head_count * p.head_dim,
        layer_sizes(p).kv_len == p.head_count_kv * p.head_dim,
        covers(layer_sizes(p).wg_dim as int, 256, p.dim as int),
        covers(
            layer_sizes(p).wg_qkv as int,
            256,
            layer_sizes(p).q_len + layer_sizes(p).kv_len + layer_sizes(p).kv_len,
        ),
        covers(
            layer_sizes(p).wg_qknorm as int,
            256,
            layer_sizes(p).q_len + layer_sizes(p).kv_len,
        ),
        covers(layer_sizes(p).wg_ffn as int, 256, p.ffn_dim + p.ffn_dim),
{
    lemma_sizes_cover(p);
}

/// Whether the kernels among some steps run in the order of their stages, none of
/// them twice.
pub open spec fn in_order(steps: Seq<Step>) -> bool {
    forall|i: int, j: int|
        #![trigger steps[i], steps[j]]
        0 <= i < j < steps.len() && steps[i] is Run && steps[j] is Run ==> stage(
            steps[i]->Run_kernel,
        ) < stage(steps[j]->Run_kernel)
}

/// Whether `kernel` is among the steps.
pub open spec fn runs(steps: Seq<Step>, kernel: Kernel) -> bool {
    exists|i: int|
        0 <= i < steps.len() && #[trigger] steps[i] is Run && steps[i]->Run_kernel == kernel
}

/// Whether every copy comes right behind a stage: behind the kernels up to the stage
/// that `after` gives for the buffer copied to, and before all others.
pub open spec fn copied_after(steps: Seq<Step>, after: spec_fn(Buf) -> int) -> bool {
    forall|i: int, j: int|
        #![trigger steps[i], steps[j]]
        0 <= i < steps.len() && 0 <= j < steps.len() && steps[i] is Copy && steps[j] is Run ==> (j
            < i <==> stage(steps[j]->Run_kernel) <= after(steps[i]->Copy_to))
}

/// Whether the last step, and no other, submits the work.
pub open spec fn submitted_once(steps: Seq<Step>) -> bool {
    &&& steps.len() > 0
    &&& forall|i: int|
        0 <= i < steps.len() ==> (#[trigger] steps[i] == Step::Submit <==> i == steps.len() - 1)
}

/// A layer on a cache runs its kernels in order over every element, and its output
/// is read behind all of them.
pub proof fn law_cached_layer_runs_in_order(
    slots: Seq<BlobBinding>,
    cache: CacheState,
    layer: usize,
    input_len: usize,
    offsets: LayerOffsets,
    params: LayerParams,
)
    requires
        lengths_fit(shape_of(params)),
    ensures
        ({
            let steps = cached_layer_model(slots, cache, layer, input_len, offsets, params).steps;
            &&& in_order(steps)
            &&& steps_cover(steps, shape_of(params))
            &&& runs(steps, Kernel::AttnNorm)
            &&& runs(steps, Kernel::Qkv)
            &&& runs(steps, Kernel::QkNorm)
            &&& runs(steps, Kernel::AttnOut)
            &&& runs(steps, Kernel::AttnProj)
            &&& runs(steps, Kernel::PostAttnNorm)
            &&& runs(steps, Kernel::FfnNorm)
            &&& runs(steps, Kernel::FfnProj)
            &&& runs(steps, Kernel::FfnDown)
            &&& runs(steps, Kernel::PostFfwNorm)
            &&& copied_after(steps, |to: Buf| 10)
            &&& submitted_once(steps)
        }),
{
    lemma_sizes_cover(shape_of(params));
    let steps = cached_layer_model(slots, cache, layer, input_len, offsets, params).steps;
    assert(steps[0]->Run_kernel == Kernel::AttnNorm);
    assert(steps[1]->Run_kernel == Kernel::Qkv);
    assert(steps[2]->Run_kernel == Kernel::QkNorm);
    assert(steps[3]->Run_kernel == Kernel::AttnOut);
    assert(steps[4]->Run_kernel == Kernel::AttnProj);
    assert(steps[5]->Run_kernel == Kernel::PostAttnNorm);
    assert(steps[6]->Run_kernel == Kernel::FfnNorm);
    assert(steps[7]->Run_kernel == Kernel::FfnProj);
    assert(steps[8]->Run_kernel == Kernel::FfnDown);
    assert(steps[9]->Run_kernel == Kernel::PostFfwNorm);
}

/// A layer on an INT4 cache runs its kernels in order over every element. What it
/// projects is quantized, a workgroup per head, before attention reads it. The
/// feed-forward norm is left out.
pub proof fn law_int4_layer_runs_in_order(
    slots: Seq<BlobBinding>,
    cache: CacheState,
    layer: usize,
    input_len: usize,
    offsets: LayerOffsets,
    params: LayerParams,
)
    requires
        lengths_fit(shape_of(params)),
    ensures
        ({
            let steps = int4_layer_model(slots, cache, layer, input_len, offsets, params).steps;
            &&& in_order(steps)
            &&& steps_cover(steps, shape_of(params))
            &&& runs(steps, Kernel::AttnNorm)
            &&& runs(steps, Kernel::Qkv)
            &&& runs(steps, Kernel::QkNorm)
            &&& runs(steps, Kernel::QuantizeKv)
            &&& runs(steps, Kernel::AttnOutInt4)
            &&& runs(steps, Kernel::AttnProj)
            &&& runs(steps, Kernel::PostAttnNorm)
            &&& !runs(steps, Kernel::FfnNorm)
            &&& runs(steps, Kernel::FfnProj)
            &&& runs(steps, Kernel::FfnDown)
            &&& runs(steps, Kernel::PostFfwNorm)
            &&& forall|i: int|
                0 <= i < steps.len() && #[trigger] steps[i] is Run && steps[i]->Run_kernel
                    == Kernel::QuantizeKv ==> {
                    &&& steps[i]->x == params.head_count_kv
                    &&& steps[i]->y == 1
                    &&& steps[i]->z == 1
                }
            &&& copied_after(steps, |to: Buf| 10)
            &&& submitted_once(steps)
        }),
{
    lemma_sizes_cover(shape_of(params));
    let steps = int4_layer_model(slots, cache, layer, input_len, offsets, params).steps;
    assert(steps[0]->Run_kernel == Kernel::AttnNorm);
    assert(steps[1]->Run_kernel == Kernel::Qkv);
    assert(steps[2]->Run_kernel == Kernel::QkNorm);
    assert(steps[3]->Run_kernel == Kernel::QuantizeKv);
    assert(steps[4]->Run_kernel == Kernel::AttnOutInt4);
    assert(steps[5]->Run_kernel == Kernel::AttnProj);
    assert(steps[6]->Run_kernel == Kernel::PostAttnNorm);
    assert(steps[7]->Run_kernel == Kernel::FfnProj);
    assert(steps[8]->Run_kernel == Kernel::FfnDown);
    assert(steps[9]->Run_kernel == Kernel::PostFfwNorm);
}

/// A debug run of a layer runs its kernels in order over every element. Query, key
/// and value are read as the projection leaves them, the residual stream behind the
/// attention part, and the rest at the end.
#[verifier::rlimit(30)]
pub proof fn law_debug_layer_runs_in_order(
    slots: Seq<BlobBinding>,
    cache: CacheState,
    layer: usize,
    input_len: usize,
    offsets: LayerOffsets,
    params: LayerParams,
)
    requires
        lengths_fit(shape_of(params)),
    ensures
        ({
            let steps = debug_layer_model(slots, cache, layer, input_len, offsets, params).steps;
            &&& in_order(steps)
            &&& steps_cover(steps, shape_of(params))
            &&& runs(steps, Kernel::AttnNorm)
            &&& runs(steps, Kernel::Qkv)
            &&& runs(steps, Kernel::QkNorm)
            &&& runs(steps, Kernel::AttnOut)
            &&& runs(steps, Kernel::AttnProj)
            &&& runs(steps, Kernel::PostAttnNorm)
            &&& runs(steps, Kernel::FfnNorm)
            &&& runs(steps, Kernel::FfnProj)
            &&& runs(steps, Kernel::FfnDown)
            &&& runs(steps, Kernel::PostFfwNorm)
            &&& copied_after(
                steps,
                |to: Buf|
                    if to == Buf::Read(3) || to == Buf::Read(4) || to == Buf::Read(5) {
                        1
                    } else if to == Buf::Read(1) {
                        6
                    } else {
                        10
                    },
            )
            &&& submitted_once(steps)
        }),
{
    lemma_sizes_cover(shape_of(params));
    let steps = debug_layer_model(slots, cache, layer, input_len, offsets, params).steps;
    assert(steps[0]->Run_kernel == Kernel::AttnNorm);
    assert(steps[1]->Run_kernel == Kernel::Qkv);
    assert(steps[5]->Run_kernel == Kernel::QkNorm);
    assert(steps[6]->Run_kernel == Kernel::AttnOut);
    assert(steps[7]->Run_kernel == Kernel::AttnProj);
    assert(steps[8]->Run_kernel == Kernel::PostAttnNorm);
    assert(steps[10]->Run_kernel == Kernel::FfnNorm);
    assert(steps[11]->Run_kernel == Kernel::FfnProj);
    assert(steps[12]->Run_kernel == Kernel::FfnDown);
    assert(steps[13]->Run_kernel == Kernel::PostFfwNorm);
}

/// A layer on a first token runs its kernels in order over every element, without
/// post norms. The residual stream is read behind the attention part, where asked
/// for, and at the end.
#[verifier::rlimit(30)]
pub proof fn law_first_token_layer_runs_in_order(
    slots: Seq<BlobBinding>,
    input_len: usize,
    offsets: LayerOffsets,
    params: LayerParams,
    read_halfway: bool,
)
    requires
        lengths_fit(shape_of(params)),
    ensures
        ({
            let steps = stepwise_model(slots, input_len, offsets, params, read_halfway).steps;
            &&& in_order(steps)
            &&& steps_cover(steps, shape_of(params))
            &&& runs(steps, Kernel::AttnNorm)
            &&& runs(steps, Kernel::Qkv)
            &&& runs(steps, Kernel::QkNorm)
            &&& runs(steps, Kernel::AttnOut)
            &&& runs(steps, Kernel::AttnProj)
            &&& !runs(steps, Kernel::PostAttnNorm)
            &&& runs(steps, Kernel::FfnNorm)
            &&& runs(steps, Kernel::FfnProj)
            &&& runs(steps, Kernel::FfnDown)
            &&& !runs(steps, Kernel::PostFfwNorm)
            &&& copied_after(
                steps,
                |to: Buf|
                    if to == Buf::Read(0) {
                        6
                    } else {
                        10
                    },
            )
            &&& submitted_once(steps)
        }),
{
    lemma_sizes_cover(shape_of(params));
    let steps = stepwise_model(slots, input_len, offsets, params, read_halfway).steps;
    if read_halfway {
        assert(steps.len() == 11);
        assert(steps[0]->Run_kernel == Kernel::AttnNorm);
        assert(steps[1]->Run_kernel == Kernel::Qkv);
        assert(steps[2]->Run_kernel == Kernel::QkNorm);
        assert(steps[3]->Run_kernel == Kernel::AttnOut);
        assert(steps[4]->Run_kernel == Kernel::AttnProj);
        assert(steps[6]->Run_kernel == Kernel::FfnNorm);
        assert(steps[7]->Run_kernel == Kernel::FfnProj);
        assert(steps[8]->Run_kernel == Kernel::FfnDown);
        assert(steps[10] == Step::Submit);
    } else {
        assert(steps.len() == 10);
        assert(steps[0]->Run_kernel == Kernel::AttnNorm);
        assert(steps[1]->Run_kernel == Kernel::Qkv);
        assert(steps[2]->Run_kernel == Kernel::QkNorm);
        assert(steps[3]->Run_kernel == Kernel::AttnOut);
        assert(steps[4]->Run_kernel == Kernel::AttnProj);
        assert(steps[5]->Run_kernel == Kernel::FfnNorm);
        assert(steps[6]->Run_kernel == Kernel::FfnProj);
        assert(steps[7]->Run_kernel == Kernel::FfnDown);
        assert(steps[9] == Step::Submit);
    }
}

/// A query/key/value run norms and projects over every element, and reads all three
/// at the end.
pub proof fn law_qkv_run_in_order(
    slots: Seq<BlobBinding>,
    input_len: usize,
    offsets: LayerOffsets,
    params: LayerParams,
)
    requires
        lengths_fit(shape_of(params)),
    ensures
        ({
            let steps = qkv_only_model(slots, input_len, offsets, params).steps;
            &&& in_order(steps)
            &&& steps_cover(steps, shape_of(params))
            &&& runs(steps, Kernel::AttnNorm)
            &&& runs(steps, Kernel::Qkv)
            &&& forall|k: Kernel| #[trigger] runs(steps, k) ==> stage(k) <= 1
            &&& copied_after(steps, |to: Buf| 1)
            &&& submitted_once(steps)
        }),
{
    lemma_sizes_cover(shape_of(params));
    let steps = qkv_only_model(slots, input_len, offsets, params).steps;
    assert(steps[0]->Run_kernel == Kernel::AttnNorm);
    assert(steps[1]->Run_kernel == Kernel::Qkv);
}

/// Quantizing a whole cache reaches every head of every position of every layer: one
/// workgroup each.
pub proof fn law_requantizing_reaches_every_position(
    n_head_kv: u32,
    head_dim: u32,
    seq_len: u32,
    n_layers: usize,
    layer: usize,
)
    requires
        seq_len > 0,
        layer < n_layers,
    ensures
        ({
            let plan = requantize_model(n_head_kv, head_dim, seq_len, n_layers);
            &&& plan.steps.len() == n_layers + 1
            &&& plan.steps[layer as int] matches Step::Run { kernel, group, x, y, z }
                && kernel == Kernel::QuantizeKv && group == layer && x == n_head_kv && y == seq_len
                && z == 1
            &&& plan.steps[n_layers as int] == Step::Submit
        }),
{
}

/// Whether a kernel is one for the weights that a model has: there are kernels for
/// Q4_K weights, which take the place of the general ones, and one of them has the
/// feed-forward norm inside.
pub open spec fn suits(kernel: Kernel, q4k: bool) -> bool {
    match kernel {
        Kernel::Qkv
        | Kernel::AttnOut
        | Kernel::AttnProj
        | Kernel::FfnNorm
        | Kernel::FfnProj
        | Kernel::FfnDown => !q4k,
        Kernel::Q4kQkv
        | Kernel::Q4kAttnOut
        | Kernel::Q4kAttnProj
        | Kernel::Q4kFfnProj
        | Kernel::Q4kFfnDown => q4k,
        Kernel::AttnOutInt4 => false,
        _ => true,
    }
}

/// Whether a step may stand among those of a layer on a batch: a kernel of the layer
/// runs with the layer's bind group on all tokens, or, where it projects query, key
/// and value, on some of them.
pub open spec fn step_of_layer(
    step: Step,
    layer: usize,
    p: LayerShape,
    q4k: bool,
    batch: u32,
) -> bool {
    match step {
        Step::Run { kernel, group, y, .. } => {
            &&& of_layer(kernel)
            &&& suits(kernel, q4k)
            &&& group == layer
            &&& step_covers(step, p)
            &&& 0 < y <= batch
            &&& stage(kernel) != 1 ==> y == batch
        },
        Step::SetChunk { layer: l, .. } => l == layer,
        Step::Trace(l) => l == layer,
        Step::ForceYield => true,
        Step::YieldIfNeeded => true,
        _ => false,
    }
}

/// Whether all steps may stand among those of a layer on a batch.
pub open spec fn steps_of_layer(
    steps: Seq<Step>,
    layer: usize,
    p: LayerShape,
    q4k: bool,
    batch: u32,
) -> bool {
    forall|i: int| 0 <= i < steps.len() ==> step_of_layer(#[trigger] steps[i], layer, p, q4k, batch)
}

/// Whether the kernels among some steps run in the order of their stages, none of
/// them twice but for the projection of query, key and value.
pub open spec fn in_chunked_order(steps: Seq<Step>) -> bool {
    forall|i: int, j: int|
        #![trigger steps[i], steps[j]]
        0 <= i < j < steps.len() && steps[i] is Run && steps[j] is Run ==> {
            ||| stage(steps[i]->Run_kernel) < stage(steps[j]->Run_kernel)
            ||| stage(steps[i]->Run_kernel) == 1 && stage(steps[j]->Run_kernel) == 1
        }
}

/// Whether a run tests the time budget behind a kernel of this stage: behind the
/// attention itself, behind the feed-forward part, and at the end of the layer.
pub open spec fn pauses_after(stage: int) -> bool {
    stage == 4 || stage == 9 || stage == 10
}

/// Whether two steps may follow each other: uniforms are rewritten only when all work
/// is done, and the time budget is tested where it has to be.
pub open spec fn may_follow(a: Step, b: Step) -> bool {
    &&& b is SetChunk ==> a == Step::ForceYield
    &&& a is Run && pauses_after(stage(a->Run_kernel)) ==> b == Step::YieldIfNeeded
}

/// Whether steps follow each other as they may, also behind and before other steps.
pub open spec fn paced(steps: Seq<Step>) -> bool {
    &&& steps.len() > 0 ==> !(steps[0] is SetChunk) && !(steps.last() is Run && pauses_after(
        stage(steps.last()->Run_kernel),
    ))
    &&& forall|i: int, j: int|
        #![trigger steps[i], steps[j]]
        0 <= i < steps.len() && j == i + 1 && j < steps.len() ==> may_follow(steps[i], steps[j])
}

spec fn stages_within(steps: Seq<Step>, lo: int, hi: int) -> bool {
    forall|i: int|
        0 <= i < steps.len() && #[trigger] steps[i] is Run ==> lo <= stage(steps[i]->Run_kernel)
            <= hi
}

#[verifier::opaque]
spec fn sound(
    steps: Seq<Step>,
    lo: int,
    hi: int,
    layer: usize,
    p: LayerShape,
    q4k: bool,
    batch: u32,
) -> bool {
    &&& stages_within(steps, lo, hi)
    &&& in_chunked_order(steps)
    &&& paced(steps)
    &&& steps_of_layer(steps, layer, p, q4k, batch)
}

proof fn lemma_concat_sound(
    a: Seq<Step>,
    b: Seq<Step>,
    lo: int,
    mid: int,
    mid2: int,
    hi: int,
    layer: usize,
    p: LayerShape,
    q4k: bool,
    batch: u32,
)
    requires
        sound(a, lo, mid, layer, p, q4k, batch),
        sound(b, mid2, hi, layer, p, q4k, batch),
        lo <= mid <= hi,
        mid < mid2 || mid == 1 && mid2 == 1 && lo == 1 && hi == 1,
        lo <= mid2 <= hi,
    ensures
        sound(a + b, lo, hi, layer, p, q4k, batch),
{
    reveal(sound);
    let c = a + b;
    assert forall|i: int| 0 <= i < c.len() implies step_of_layer(
        #[trigger] c[i],
        layer,
        p,
        q4k,
        batch,
    ) && (c[i] is Run ==> lo <= stage(c[i]->Run_kernel) <= hi) by {
        if i < a.len() {
            assert(c[i] == a[i]);
        } else {
            assert(c[i] == b[i - a.len()]);
        }
    }
    assert forall|i: int, j: int|
        #![trigger c[i], c[j]]
        0 <= i < j < c.len() && c[i] is Run && c[j] is Run implies {
        ||| stage(c[i]->Run_kernel) < stage(c[j]->Run_kernel)
        ||| stage(c[i]->Run_kernel) == 1 && stage(c[j]->Run_kernel) == 1
    } by {
        if i < a.len() {
            assert(c[i] == a[i]);
        } else {
            assert(c[i] == b[i - a.len()]);
        }
        if j < a.len() {
            assert(c[j] == a[j]);
        } else {
            assert(c[j] == b[j - a.len()]);
        }
    }
    assert forall|i: int, j: int|
        #![trigger c[i], c[j]]
        0 <= i < c.len() && j == i + 1 && j < c.len() implies may_follow(c[i], c[j]) by {
        if j < a.len() {
            assert(c[i] == a[i]);
            assert(c[j] == a[j]);
        } else if i >= a.len() {
            assert(c[i] == b[i - a.len()]);
            assert(c[j] == b[j - a.len()]);
        } else {
            assert(c[i] == a.last());
            assert(c[j] == b[0]);
        }
    }
    if c.len() > 0 {
        if a.len() > 0 {
            assert(c[0] == a[0]);
        } else {
            assert(c[0] == b[0]);
        }
        if b.len() > 0 {
            assert(c.last() == b.last());
        } else {
            assert(c.last() == a.last());
        }
    }
}

proof fn lemma_qkv_sound(
    layer: usize,
    kernel: Kernel,
    x: u32,
    batch: u32,
    chunk: u32,
    at: u32,
    p: LayerShape,
    q4k: bool,
)
    requires
        chunk > 0,
        stage(kernel) == 1,
        suits(kernel, q4k),
        covers(x as int, 256, layer_elements(kernel, p)),
    ensures
        sound(qkv_steps(layer, kernel, x, batch, chunk, at), 1, 1, layer, p, q4k, batch),
        at < batch ==> runs(qkv_steps(layer, kernel, x, batch, chunk, at), kernel),
    decreases batch - at,
{
    if at >= batch {
        reveal(sound);
    } else {
        let count = if batch - at < chunk {
            (batch - at) as u32
        } else {
            chunk
        };
        let next = (at + count) as u32;
        let head = seq![
            Step::ForceYield,
            Step::SetChunk { layer, batch_offset: at, batch_count: count },
            Step::Run { kernel, group: layer, x, y: count, z: 1 },
            Step::ForceYield,
            Step::SetChunk { layer, batch_offset: 0, batch_count: batch },
        ];
        let rest = qkv_steps(layer, kernel, x, batch, chunk, next);
        lemma_qkv_sound(layer, kernel, x, batch, chunk, next, p, q4k);
        assert(sound(head, 1, 1, layer, p, q4k, batch)) by {
            reveal(sound);
        }
        lemma_concat_sound(head, rest, 1, 1, 1, 1, layer, p, q4k, batch);
        assert((head + rest)[2] == head[2]);
    }
}

proof fn lemma_runs_in_concat(a: Seq<Step>, b: Seq<Step>, kernel: Kernel)
    requires
        runs(a, kernel) || runs(b, kernel),
    ensures
        runs(a + b, kernel),
{
    if runs(a, kernel) {
        let i = choose|i: int|
            0 <= i < a.len() && #[trigger] a[i] is Run && a[i]->Run_kernel == kernel;
        assert((a + b)[i] == a[i]);
    } else {
        let i = choose|i: int|
            0 <= i < b.len() && #[trigger] b[i] is Run && b[i]->Run_kernel == kernel;
        assert((a + b)[a.len() + i] == b[i]);
    }
}

/// A layer of a forward pass runs every kernel that it needs, in the order of their
/// stages, over every element of every token. Uniforms are rewritten only when all
/// work is done, the time budget is tested behind attention, feed-forward part and
/// layer, and the residual stream is shown at the end where that is asked for.
pub proof fn law_layer_of_forward_pass_runs_in_order(
    layer: usize,
    p: LayerShape,
    q4k: bool,
    batch: u32,
    chunk: u32,
    trace: bool,
)
    requires
        lengths_fit(p),
        batch > 0,
        chunk > 0,
    ensures
        ({
            let steps = layer_steps(layer, layer_sizes(p), q4k, batch, chunk, trace);
            &&& steps_of_layer(steps, layer, p, q4k, batch)
            &&& in_chunked_order(steps)
            &&& paced(steps)
            &&& runs(steps, Kernel::AttnNorm)
            &&& runs(steps, Kernel::QkNorm)
            &&& runs(steps, Kernel::PostAttnNorm)
            &&& runs(steps, Kernel::PostFfwNorm)
            &&& q4k ==> {
                &&& runs(steps, Kernel::Q4kQkv)
                &&& runs(steps, Kernel::Q4kAttnOut)
                &&& runs(steps, Kernel::Q4kAttnProj)
                &&& runs(steps, Kernel::Q4kFfnProj)
                &&& runs(steps, Kernel::Q4kFfnDown)
            }
            &&& !q4k ==> {
                &&& runs(steps, Kernel::Qkv)
                &&& runs(steps, Kernel::AttnOut)
                &&& runs(steps, Kernel::AttnProj)
                &&& runs(steps, Kernel::FfnNorm)
                &&& runs(steps, Kernel::FfnProj)
                &&& runs(steps, Kernel::FfnDown)
            }
            &&& forall|i: int|
                0 <= i < steps.len() ==> (#[trigger] steps[i] is Trace <==> trace && i
                    == steps.len() - 1)
        }),
{
    lemma_layer_sound(layer, p, q4k, batch, chunk, trace);
    lemma_layer_runs(layer, p, q4k, batch, chunk, trace);
    lemma_layer_traces(layer, p, q4k, batch, chunk, trace);
    reveal(sound);
}

proof fn lemma_layer_sound(
    layer: usize,
    p: LayerShape,
    q4k: bool,
    batch: u32,
    chunk: u32,
    trace: bool,
)
    requires
        lengths_fit(p),
        batch > 0,
        chunk > 0,
    ensures
        sound(
            layer_steps(layer, layer_sizes(p), q4k, batch, chunk, trace),
            0,
            10,
            layer,
            p,
            q4k,
            batch,
        ),
{
    lemma_sizes_cover(p);
    let s = layer_sizes(p);
    let kernel = pick(q4k, Kernel::Qkv, Kernel::Q4kQkv);
    let norm = seq![on_batch(Kernel::AttnNorm, layer, s.wg_dim, batch)];
    let qkv = qkv_steps(layer, kernel, s.wg_qkv, batch, chunk, 0);
    let attention = attention_steps(layer, s, q4k, batch);
    let ffn = ffn_steps(layer, s, q4k, batch, trace);
    lemma_qkv_sound(layer, kernel, s.wg_qkv, batch, chunk, 0, p, q4k);
    assert(sound(norm, 0, 0, layer, p, q4k, batch)) by {
        reveal(sound);
    }
    lemma_attention_sound(layer, p, q4k, batch);
    lemma_ffn_sound(layer, p, q4k, batch, trace);
    lemma_concat_sound(norm, qkv, 0, 0, 1, 1, layer, p, q4k, batch);
    lemma_concat_sound(norm + qkv, attention, 0, 1, 2, 6, layer, p, q4k, batch);
    lemma_concat_sound(norm + qkv + attention, ffn, 0, 6, 7, 10, layer, p, q4k, batch);
}

proof fn lemma_layer_runs(
    layer: usize,
    p: LayerShape,
    q4k: bool,
    batch: u32,
    chunk: u32,
    trace: bool,
)
    requires
        lengths_fit(p),
        batch > 0,
        chunk > 0,
    ensures
        ({
            let steps = layer_steps(layer, layer_sizes(p), q4k, batch, chunk, trace);
            &&& runs(steps, Kernel::AttnNorm)
            &&& runs(steps, pick(q4k, Kernel::Qkv, Kernel::Q4kQkv))
            &&& runs(steps, Kernel::QkNorm)
            &&& runs(steps, pick(q4k, Kernel::AttnOut, Kernel::Q4kAttnOut))
            &&& runs(steps, pick(q4k, Kernel::AttnProj, Kernel::Q4kAttnProj))
            &&& runs(steps, Kernel::PostAttnNorm)
            &&& !q4k ==> runs(steps, Kernel::FfnNorm)
            &&& runs(steps, pick(q4k, Kernel::FfnProj, Kernel::Q4kFfnProj))
            &&& runs(steps, pick(q4k, Kernel::FfnDown, Kernel::Q4kFfnDown))
            &&& runs(steps, Kernel::PostFfwNorm)
        }),
{
    lemma_sizes_cover(p);
    let s = layer_sizes(p);
    let kernel = pick(q4k, Kernel::Qkv, Kernel::Q4kQkv);
    let norm = seq![on_batch(Kernel::AttnNorm, layer, s.wg_dim, batch)];
    let qkv = qkv_steps(layer, kernel, s.wg_qkv, batch, chunk, 0);
    let attention = attention_steps(layer, s, q4k, batch);
    let ffn = ffn_steps(layer, s, q4k, batch, trace);
    lemma_qkv_sound(layer, kernel, s.wg_qkv, batch, chunk, 0, p, q4k);
    assert(norm[0]->Run_kernel == Kernel::AttnNorm);
    lemma_runs_in_concat(norm, qkv, Kernel::AttnNorm);
    lemma_runs_in_concat(norm + qkv, attention, Kernel::AttnNorm);
    lemma_runs_in_concat(norm + qkv + attention, ffn, Kernel::AttnNorm);
    lemma_runs_in_concat(norm, qkv, kernel);
    lemma_runs_in_concat(norm + qkv, attention, kernel);
    lemma_runs_in_concat(norm + qkv + attention, ffn, kernel);
    lemma_attention_runs(norm + qkv, attention, ffn, layer, s, q4k, batch);
    lemma_ffn_runs(norm + qkv + attention, ffn, layer, s, q4k, batch, trace);
}

proof fn lemma_layer_traces(
    layer: usize,
    p: LayerShape,
    q4k: bool,
    batch: u32,
    chunk: u32,
    trace: bool,
)
    requires
        lengths_fit(p),
        batch > 0,
    ensures
        ({
            let steps = layer_steps(layer, layer_sizes(p), q4k, batch, chunk, trace);
            forall|i: int|
                0 <= i < steps.len() ==> (#[trigger] steps[i] is Trace <==> trace && i
                    == steps.len() - 1)
        }),
{
    let s = layer_sizes(p);
    let kernel = pick(q4k, Kernel::Qkv, Kernel::Q4kQkv);
    let norm = seq![on_batch(Kernel::AttnNorm, layer, s.wg_dim, batch)];
    let qkv = qkv_steps(layer, kernel, s.wg_qkv, batch, chunk, 0);
    let attention = attention_steps(layer, s, q4k, batch);
    let ffn = ffn_steps(layer, s, q4k, batch, trace);
    lemma_qkv_never_traces(layer, kernel, s.wg_qkv, batch, chunk, 0);
    lemma_ffn_sound(layer, p, q4k, batch, trace);
    let a = norm + qkv;
    let b = a + attention;
    let steps = b + ffn;
    assert forall|i: int| 0 <= i < steps.len() implies (#[trigger] steps[i] is Trace <==> trace && i
        == steps.len() - 1) by {
        if i < norm.len() {
            assert(steps[i] == norm[i]);
        } else if i < a.len() {
            assert(steps[i] == qkv[i - norm.len()]);
        } else if i < b.len() {
            assert(steps[i] == attention[i - a.len()]);
        } else {
            assert(steps[i] == ffn[i - b.len()]);
        }
    }
}

proof fn lemma_attention_sound(layer: usize, p: LayerShape, q4k: bool, batch: u32)
    requires
        lengths_fit(p),
        batch > 0,
    ensures
        sound(attention_steps(layer, layer_sizes(p), q4k, batch), 2, 6, layer, p, q4k, batch),
{
    reveal(sound);
    lemma_sizes_cover(p);
}

proof fn lemma_ffn_sound(layer: usize, p: LayerShape, q4k: bool, batch: u32, trace: bool)
    requires
        lengths_fit(p),
        batch > 0,
    ensures
        sound(ffn_steps(layer, layer_sizes(p), q4k, batch, trace), 7, 10, layer, p, q4k, batch),
        ({
            let ffn = ffn_steps(layer, layer_sizes(p), q4k, batch, trace);
            forall|i: int|
                0 <= i < ffn.len() ==> (#[trigger] ffn[i] is Trace <==> trace && i == ffn.len()
                    - 1)
        }),
{
    reveal(sound);
    lemma_sizes_cover(p);
    let s = layer_sizes(p);
    let ffn = ffn_steps(layer, s, q4k, batch, trace);
    if q4k {
        assert(ffn.len() == if trace {
            6int
        } else {
            5int
        });
    } else {
        assert(ffn.len() == if trace {
            7int
        } else {
            6int
        });
    }
}

proof fn lemma_qkv_never_traces(
    layer: usize,
    kernel: Kernel,
    x: u32,
    batch: u32,
    chunk: u32,
    at: u32,
)
    ensures
        ({
            let steps = qkv_steps(layer, kernel, x, batch, chunk, at);
            forall|i: int| 0 <= i < steps.len() ==> !(#[trigger] steps[i] is Trace)
        }),
    decreases batch - at,
{
    if at < batch && chunk != 0 {
        let count = if batch - at < chunk {
            (batch - at) as u32
        } else {
            chunk
        };
        lemma_qkv_never_traces(layer, kernel, x, batch, chunk, (at + count) as u32);
    }
}

proof fn lemma_attention_runs(
    before: Seq<Step>,
    attention: Seq<Step>,
    behind: Seq<Step>,
    layer: usize,
    s: LayerSizes,
    q4k: bool,
    batch: u32,
)
    requires
        attention == attention_steps(layer, s, q4k, batch),
    ensures
        ({
            let steps = before + attention + behind;
            &&& runs(steps, Kernel::QkNorm)
            &&& runs(steps, pick(q4k, Kernel::AttnOut, Kernel::Q4kAttnOut))
            &&& runs(steps, pick(q4k, Kernel::AttnProj, Kernel::Q4kAttnProj))
            &&& runs(steps, Kernel::PostAttnNorm)
        }),
{
    let steps = before + attention + behind;
    let n = before.len() as int;
    assert(steps[n] == attention[0]);
    assert(steps[n + 1] == attention[1]);
    assert(steps[n + 3] == attention[3]);
    assert(steps[n + 4] == attention[4]);
}

proof fn lemma_ffn_runs(
    before: Seq<Step>,
    ffn: Seq<Step>,
    layer: usize,
    s: LayerSizes,
    q4k: bool,
    batch: u32,
    trace: bool,
)
    requires
        ffn == ffn_steps(layer, s, q4k, batch, trace),
    ensures
        ({
            let steps = before + ffn;
            &&& !q4k ==> runs(steps, Kernel::FfnNorm)
            &&& runs(steps, pick(q4k, Kernel::FfnProj, Kernel::Q4kFfnProj))
            &&& runs(steps, pick(q4k, Kernel::FfnDown, Kernel::Q4kFfnDown))
            &&& runs(steps, Kernel::PostFfwNorm)
        }),
{
    let steps = before + ffn;
    let n = before.len() as int;
    if q4k {
        assert(steps[n] == ffn[0]);
        assert(steps[n + 1] == ffn[1]);
        assert(steps[n + 3] == ffn[3]);
    } else {
        assert(steps[n] == ffn[0]);
        assert(steps[n + 1] == ffn[1]);
        assert(steps[n + 2] == ffn[2]);
        assert(steps[n + 4] == ffn[4]);
    }
}

/// The chunk of the query/key/value projection is what was asked for where that is
/// possible, and never empty nor larger than the batch.
pub proof fn law_chunk_is_what_was_asked_for(asked: u32, batch: u32)
    requires
        batch > 0,
    ensures
        1 <= qkv_chunk(asked, batch) <= batch,
        1 <= asked <= batch ==> qkv_chunk(asked, batch) == asked,
        asked > batch ==> qkv_chunk(asked, batch) == batch,
        asked == 0 ==> qkv_chunk(asked, batch) == 1,
{
}

/// Where the steps of a layer begin among those of all layers.
pub open spec fn layer_start(
    layer: nat,
    p: LayerShape,
    q4k: bool,
    batch: u32,
    chunk: u32,
    trace: bool,
) -> int {
    all_layer_steps(layer, layer_sizes(p), q4k, batch, chunk, trace).len() as int
}

proof fn lemma_layers_follow(
    n: nat,
    layer: nat,
    p: LayerShape,
    q4k: bool,
    batch: u32,
    chunk: u32,
    trace: bool,
)
    requires
        layer < n,
    ensures
        ({
            let from = layer_start(layer, p, q4k, batch, chunk, trace);
            let to = layer_start(layer + 1, p, q4k, batch, chunk, trace);
            let all = all_layer_steps(n, layer_sizes(p), q4k, batch, chunk, trace);
            &&& 0 <= from <= to <= all.len()
            &&& all.subrange(from, to) == layer_steps(
                layer as usize,
                layer_sizes(p),
                q4k,
                batch,
                chunk,
                trace,
            )
        }),
    decreases n,
{
    let s = layer_sizes(p);
    let before = all_layer_steps((n - 1) as nat, s, q4k, batch, chunk, trace);
    let last = layer_steps((n - 1) as usize, s, q4k, batch, chunk, trace);
    let all = all_layer_steps(n, s, q4k, batch, chunk, trace);
    let from = layer_start(layer, p, q4k, batch, chunk, trace);
    let to = layer_start(layer + 1, p, q4k, batch, chunk, trace);
    if layer + 1 == n {
        assert(all.subrange(from, to) =~= last);
    } else {
        lemma_layers_follow((n - 1) as nat, layer, p, q4k, batch, chunk, trace);
        assert(all.subrange(from, to) =~= before.subrange(from, to));
    }
}

/// A forward pass runs its layers one behind the other, from the first on, each over
/// the model's lengths and the whole batch; behind them come the final norm and the
/// head. The kernels for Q4_K weights run where the first layer's query weights have
/// that type.
pub proof fn law_forward_pass_runs_layer_by_layer(
    slots: Seq<BlobBinding>,
    chunk_words: u32,
    metadata: BindlessMetadata,
    spec: ModelSpec,
    options: ForwardOptions,
    input_len: usize,
    current_pos: u32,
    seq_len: u32,
    layer: usize,
)
    requires
        can_run(metadata, spec, input_len),
        layer < spec.n_layer,
    ensures
        ({
            let steps = forward_model(
                slots,
                chunk_words,
                metadata,
                spec,
                options,
                input_len,
                current_pos,
                seq_len,
            ).steps;
            let p = model_shape(spec);
            let types = metadata.tensor_types@;
            let q4k = types.contains_key("blk.0.attn_q.weight"@) && types["blk.0.attn_q.weight"@]
                == 12;
            let batch = batch_size(spec, input_len);
            let chunk = qkv_chunk(options.prefill_chunk, batch);
            let trace = options.trace_layers;
            let from = layer_start(layer as nat, p, q4k, batch, chunk, trace);
            let to = layer_start(layer as nat + 1, p, q4k, batch, chunk, trace);
            let end = layer_start(spec.n_layer as nat, p, q4k, batch, chunk, trace);
            &&& layer == 0 ==> from == 0
            &&& 0 <= from <= to <= end <= steps.len()
            &&& steps.subrange(from, to) == layer_steps(
                layer,
                layer_sizes(p),
                q4k,
                batch,
                chunk,
                trace,
            )
            &&& steps.skip(end) == tail_steps(spec, options, p.dim, batch)
        }),
{
    let plan = forward_model(
        slots,
        chunk_words,
        metadata,
        spec,
        options,
        input_len,
        current_pos,
        seq_len,
    );
    let p = model_shape(spec);
    let q4k = runs_q4k(metadata);
    let batch = batch_size(spec, input_len);
    let chunk = qkv_chunk(options.prefill_chunk, batch);
    let trace = options.trace_layers;
    let n = spec.n_layer as nat;
    lemma_layers_follow(n, layer as nat, p, q4k, batch, chunk, trace);
    let all = all_layer_steps(n, layer_sizes(p), q4k, batch, chunk, trace);
    let from = layer_start(layer as nat, p, q4k, batch, chunk, trace);
    let to = layer_start(layer as nat + 1, p, q4k, batch, chunk, trace);
    assert(plan.steps.subrange(from, to) =~= all.subrange(from, to));
    assert(plan.steps.skip(all.len() as int) =~= tail_steps(spec, options, p.dim, batch));
}

/// Behind the layers the last token of the batch, which ends where the residual
/// stream does, is kept for reading and normed, unless the caller leaves the norm
/// out, over all of its elements. The head then computes every row. What the norm
/// gives and all logits are read at the end.
pub proof fn law_forward_pass_ends_with_the_head(
    spec: ModelSpec,
    options: ForwardOptions,
    batch: u32,
)
    requires
        batch > 0,
        low(spec.n_vocab) * 4 <= u32::MAX,
        batch * low(spec.n_embd) * 4 <= u64::MAX,
        spec.n_layer < usize::MAX,
    ensures
        ({
            let dim = low(spec.n_embd);
            let vocab = low(spec.n_vocab);
            let t = tail_steps(spec, options, dim, batch);
            &&& in_order(t)
            &&& submitted_once(t)
            &&& t[0] matches Step::Copy { from, at, to, size } && from == Buf::Activation && to
                == Buf::PreNorm && size == 4 * dim && at + size == batch * dim * 4
            &&& options.disable_output_norm ==> (t[1] matches Step::Copy { from, at, to, size }
                && from == Buf::Activation && to == Buf::Temp && size == 4 * dim && at + size
                == batch * dim * 4)
            &&& !options.disable_output_norm ==> (t[1] matches Step::Run { kernel, group, x, y, z }
                && kernel == Kernel::RmsNorm && group == spec.n_layer && covers(
                x as int,
                256,
                dim as int,
            ) && y == 1 && z == 1)
            &&& t[2] matches Step::Run { kernel, group, x, y, z } && group == spec.n_layer + 1 && y
                == 1 && z == 1 && (if options.override_head {
                kernel == Kernel::MatMulF32 && covers(x as int, 256, vocab as int)
            } else {
                kernel == Kernel::LmHeadBlob && covers(x as int, 64, vocab as int)
            })
            &&& t[3] matches Step::Copy { from, at, to, size } && from == Buf::Temp && at == 0
                && to == Buf::FinalNorm && size == 4 * dim
            &&& t[4] matches Step::Copy { from, at, to, size } && from == Buf::Logits && at == 0
                && to == Buf::Read(0) && size == 4 * vocab
            &&& t.len() == 6
        }),
{
    let dim = low(spec.n_embd) as int;
    law_groups_cover_items(dim, 256);
    law_groups_cover_items(low(spec.n_vocab) as int, 256);
    law_groups_cover_items(low(spec.n_vocab) as int, 64);
    let b = batch as int;
    assert((b - 1) * dim * 4 + dim * 4 == b * dim * 4 && 0 <= (b - 1) * dim * 4) by (nonlinear_arith)
        requires
            b > 0,
            dim >= 0,
    ;
}

/// Elements that a kernel of a ViT block writes: a norm has a thread per token, the
/// projections one per element of what they write, attention one per token and head.
pub open spec fn vit_elements(kernel: Kernel, p: VitParams) -> int {
    match kernel {
        Kernel::VitLn1 | Kernel::VitLn2 | Kernel::VitPostLn => p.n_tokens as int,
        Kernel::VitQkv => 3 * (p.n_tokens * p.hidden_dim),
        Kernel::VitAttn => p.n_tokens * p.n_heads,
        Kernel::VitFfnUp => p.n_tokens * p.mlp_dim,
        _ => p.n_tokens * p.hidden_dim,
    }
}

/// Where a kernel of the vision model stands in its computation.
pub open spec fn vision_stage(kernel: Kernel) -> int {
    match kernel {
        Kernel::VitLn1 => 0,
        Kernel::VitQkv => 1,
        Kernel::VitAttn => 2,
        Kernel::VitAttnProj => 3,
        Kernel::VitLn2 => 4,
        Kernel::VitFfnUp => 5,
        Kernel::VitFfnDown => 6,
        Kernel::VitPostLn => 7,
        Kernel::RspInitQ => 10,
        Kernel::RspKvLin => 11,
        Kernel::RspLnKv => 12,
        Kernel::RspProjK => 13,
        Kernel::RspProjV => 14,
        Kernel::RspLnQ => 15,
        Kernel::RspProjQ => 16,
        Kernel::RspCopyQ => 17,
        Kernel::RspAttn => 18,
        Kernel::RspOutProj => 19,
        Kernel::RspPostLn => 20,
        Kernel::RspFinalProj => 21,
        _ => -1,
    }
}

/// The kernels of a ViT block reach every element that they write, each of them
/// runs once and in order, and all are submitted at once.
pub proof fn law_vit_block_reaches_every_element(p: VitParams, i: int)
    requires
        dispatchable(p.n_tokens as int),
        dispatchable(p.n_tokens * p.hidden_dim * 3),
        dispatchable(p.n_tokens * p.n_heads),
        dispatchable(p.n_tokens * p.mlp_dim),
    ensures
        ({
            let steps = vit_block_steps(p);
            &&& steps.len() == 8
            &&& submitted_once(steps)
            &&& 0 <= i < 7 ==> (steps[i] matches Step::Run { kernel, group, x, y, z }
                && vision_stage(kernel) == i && group == 0 && covers(
                x as int,
                256,
                vit_elements(kernel, p),
            ) && y == 1 && z == 1)
        }),
{
    let n = p.n_tokens as int;
    let h = p.hidden_dim as int;
    assert(0 <= n * h && 0 <= n * p.n_heads && 0 <= n * p.mlp_dim) by (nonlinear_arith)
        requires
            n >= 0,
            h >= 0,
    ;
    law_groups_cover_items(n, 256);
    law_groups_cover_items(n * h * 3, 256);
    law_groups_cover_items(n * p.n_heads, 256);
    law_groups_cover_items(n * h, 256);
    law_groups_cover_items(n * p.mlp_dim, 256);
    let steps = vit_block_steps(p);
    assert(i == 0 || i == 1 || i == 2 || i == 3 || i == 4 || i == 5 || i == 6 || i < 0 || i >= 7);
}

/// The norm behind all ViT blocks reaches every token.
pub proof fn law_post_norm_reaches_every_token(p: VitParams)
    requires
        dispatchable(p.n_tokens as int),
    ensures
        over_items(Kernel::VitPostLn, p.n_tokens as int) matches Step::Run {
            kernel,
            group,
            x,
            y,
            z,
        } && kernel == Kernel::VitPostLn && group == 0 && covers(
            x as int,
            256,
            vit_elements(kernel, p),
        ) && y == 1 && z == 1,
{
    law_groups_cover_items(p.n_tokens as int, 256);
}

/// Elements that a kernel of the resampler writes: those that work on patches write
/// a vector per patch, those that work on queries a vector per query; norms have a
/// thread per vector, and attention one per query and head.
pub open spec fn resampler_elements(kernel: Kernel, p: ResamplerParams) -> int {
    match kernel {
        Kernel::RspKvLin | Kernel::RspProjK | Kernel::RspProjV => p.n_vit * p.d_model,
        Kernel::RspLnKv => p.n_vit as int,
        Kernel::RspLnQ | Kernel::RspPostLn => p.n_queries as int,
        Kernel::RspAttn => p.n_queries * p.n_heads,
        _ => p.n_queries * p.d_model,
    }
}

/// The kernels of the resampler reach every element that they write: the key and
/// value projections one per element of every patch, those on queries one per
/// element of every query. Each kernel runs once and in order, and is submitted
/// before the next begins.
pub proof fn law_resampler_reaches_every_element(p: ResamplerParams, i: int)
    requires
        dispatchable(p.n_queries as int),
        dispatchable(p.n_vit as int),
        dispatchable(p.n_queries * p.d_model),
        dispatchable(p.n_vit * p.d_model),
        dispatchable(p.n_queries * p.n_heads),
    ensures
        ({
            let steps = resampler_steps(p);
            &&& steps.len() == 24
            &&& 0 <= i < 12 ==> (steps[2 * i] matches Step::Run { kernel, group, x, y, z }
                && vision_stage(kernel) == 10 + i && group == 0 && covers(
                x as int,
                256,
                resampler_elements(kernel, p),
            ) && y == 1 && z == 1)
            &&& 0 <= i < 12 ==> steps[2 * i + 1] == Step::Submit
        }),
{
    let q = p.n_queries as int;
    let v = p.n_vit as int;
    let d = p.d_model as int;
    assert(0 <= q * d && 0 <= v * d && 0 <= q * p.n_heads) by (nonlinear_arith)
        requires
            q >= 0,
            v >= 0,
            d >= 0,
    ;
    law_groups_cover_items(q, 256);
    law_groups_cover_items(v, 256);
    law_groups_cover_items(q * d, 256);
    law_groups_cover_items(v * d, 256);
    law_groups_cover_items(q * p.n_heads, 256);
    let kernels = resampler_kernels(p);
    if 0 <= i < 12 {
        assert(resampler_steps(p)[2 * i] == over_items(kernels[i].0, kernels[i].1));
        if i < 6 {
            assert(i == 0 || i == 1 || i == 2 || i == 3 || i == 4 || i == 5);
        } else {
            assert(i == 6 || i == 7 || i == 8 || i == 9 || i == 10 || i == 11);
        }
    }
}

/// The head in one piece computes every row, 64 per workgroup. In tiles it does so
/// too: the workgroups of all tiles are as many as those of the head in one piece.
pub proof fn law_head_reaches_every_row(
    slots: Seq<BlobBinding>,
    input_len: usize,
    head: Head,
    max_wgs: u32,
    t: int,
)
    requires
        max_wgs > 0,
        0 <= t < tile_count(head.workgroups(), max_wgs as int),
    ensures
        ({
            let one = whole_head(slots, input_len, head).steps;
            let plan = tiled_head(slots, input_len, head, max_wgs);
            let n = tile_count(head.workgroups(), max_wgs as int);
            &&& one[0] matches Step::Run { kernel, group, x, y, z } && kernel
                == Kernel::LmHeadBlob && group == 0 && covers(
                x as int,
                64,
                head.vocab_size as int,
            ) && y == 1 && z == 1
            &&& plan.steps.len() == n + 2
            &&& plan.steps[t] matches Step::Run { kernel, group, x, y, z } && kernel
                == Kernel::LmHeadBlob && group == t as usize && 0 < x <= max_wgs && y == 1 && z == 1
                && (t + 1 < n ==> x == max_wgs) && (t + 1 == n ==> t * max_wgs + x == one[0]->x)
            &&& plan.steps[n] is Copy
            &&& plan.steps[n + 1] == Step::Submit
        }),
{
    let m = max_wgs as int;
    let total = head.workgroups();
    let n = tile_count(total, m);
    law_groups_cover_items(head.vocab_size as int, 64);
    law_groups_cover_items(total, m);
    assert((t + 1) * m == t * m + m) by (nonlinear_arith);
    assert((n - 1) * m == n * m - m) by (nonlinear_arith);
    if t + 1 < n {
        assert((t + 1) * m <= (n - 1) * m) by (nonlinear_arith)
            requires
                t + 1 <= n - 1,
                m > 0,
        ;
    }
    assert(t * m <= (n - 1) * m) by (nonlinear_arith)
        requires
            t <= n - 1,
            m > 0,
    ;
    assert(t * m >= 0) by (nonlinear_arith)
        requires
            t >= 0,
            m > 0,
    ;
}

} // verus!
