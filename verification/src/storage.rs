//! Which buffers plans create, how large they are, and what the host reads of them.

use crate::bindings::{group_fed, group_fills, has_block};
use crate::dispatch::{Buf, GroupModel, PlanModel, Source, Step};
use crate::full_model::{
    all_layer_steps, attention_steps, batch_size, cache_buffers, can_run, ffn_steps,
    forward_model, layer_steps, low, model_shape, pick, qkv_chunk, qkv_steps, runs_q4k,
    tail_steps, ForwardOptions,
};
use crate::head::{tile_count, tiled_head, whole_head, Head};
use crate::kernels::Kernel;
use crate::kv_cache::{CacheKind, CacheState};
use crate::layer_plan::{
    cached_layer_model, debug_layer_model, int4_layer_model, layer_sizes, lengths_fit,
    local_kv_size, position_start, qkv_only_model, requantize_model, shape_of, stepwise_model,
    LayerSizes,
};
use crate::metadata::BindlessMetadata;
use crate::num::ceil_div;
use crate::offsets::LayerOffsets;
use crate::params::{CompactionParams, LayerParams, MatMulParams, RMSNormParams};
use crate::quant::formula_slot;
use crate::schedule::covers;
use crate::shift::{shift_int4_model, shift_model};
use crate::single::{
    chunk_readback, dequant_any_model, dequant_model, matmul_f32_model, matmul_model,
    probe_model, raw_dequant_model, rmsnorm_model,
};
use crate::spec::ModelSpec;
use crate::vision::vision_model;
use crate::window::BlobBinding;
use vstd::prelude::*;

verus! {

/// Whether a plan creates `buf` once, with `size` bytes.
pub open spec fn creates(plan: PlanModel, buf: Buf, size: int) -> bool {
    &&& exists|i: int|
        0 <= i < plan.buffers.len() && #[trigger] plan.buffers[i].buf == buf
            && plan.buffers[i].size == size
    &&& forall|i: int, j: int|
        #![trigger plan.buffers[i], plan.buffers[j]]
        0 <= i < plan.buffers.len() && 0 <= j < plan.buffers.len() && plan.buffers[i].buf == buf
            && plan.buffers[j].buf == buf ==> i == j
}

/// Whether `size` bytes of `from`, from byte `at` on, are all that a plan copies to
/// `to`, once.
pub open spec fn copies(plan: PlanModel, from: Buf, at: int, to: Buf, size: int) -> bool {
    &&& exists|i: int|
        0 <= i < plan.steps.len() && #[trigger] plan.steps[i] is Copy && plan.steps[i]->Copy_to
            == to
    &&& forall|i: int|
        0 <= i < plan.steps.len() && #[trigger] plan.steps[i] is Copy && plan.steps[i]->Copy_to
            == to ==> {
            &&& plan.steps[i]->Copy_from == from
            &&& plan.steps[i]->Copy_at == at
            &&& plan.steps[i]->Copy_size == size
        }
}

/// Whether the host reads, in a buffer of that size, `size` bytes of `from`, from byte
/// `at` on.
pub open spec fn reads_back(plan: PlanModel, from: Buf, at: int, to: Buf, size: int) -> bool {
    &&& creates(plan, to, size)
    &&& copies(plan, from, at, to, size)
    &&& plan.reads.contains(to)
}

/// Whether a plan's residual stream is the caller's input of `input_len` floats, and
/// its scratch space has the stride of the layer's uniforms.
pub open spec fn has_state(plan: PlanModel, input_len: usize, params: LayerParams) -> bool {
    &&& creates(plan, Buf::Activation, 4 * input_len)
    &&& creates(plan, Buf::Temp, 4 * params.temp_stride)
    &&& plan.filled == seq![Buf::Activation]
}

/// A layer on a cache, F32 or INT4, reads back the token that it computed: the first
/// vector of the residual stream.
pub proof fn law_layer_reads_its_output(
    slots: Seq<BlobBinding>,
    cache: CacheState,
    layer: usize,
    input_len: usize,
    offsets: LayerOffsets,
    params: LayerParams,
)
    requires
        input_len * 4 <= u64::MAX,
    ensures
        ({
            let a = cached_layer_model(slots, cache, layer, input_len, offsets, params);
            let b = int4_layer_model(slots, cache, layer, input_len, offsets, params);
            &&& has_state(a, input_len, params)
            &&& has_state(b, input_len, params)
            &&& reads_back(a, Buf::Activation, 0, Buf::Read(0), 4 * params.dim)
            &&& reads_back(b, Buf::Activation, 0, Buf::Read(0), 4 * params.dim)
            &&& a.reads.len() == 1 && b.reads.len() == 1
            &&& a.buffers.len() == 3 && b.buffers.len() == 3
        }),
{
    let a = cached_layer_model(slots, cache, layer, input_len, offsets, params);
    let b = int4_layer_model(slots, cache, layer, input_len, offsets, params);
    assert(a.buffers[0].buf == Buf::Activation);
    assert(a.buffers[1].buf == Buf::Temp);
    assert(a.buffers[2].buf == Buf::Read(0));
    assert(b.buffers[0].buf == Buf::Activation);
    assert(b.buffers[1].buf == Buf::Temp);
    assert(b.buffers[2].buf == Buf::Read(0));
    assert(a.reads[0] == Buf::Read(0));
    assert(b.reads[0] == Buf::Read(0));
    assert(a.steps[10] is Copy);
    assert(b.steps[10] is Copy);
}

/// A layer on a first token reads back the residual stream, at the end and, where
/// asked for, halfway. Its keys and values have room for 2048 positions.
pub proof fn law_first_token_layer_reads_its_output(
    slots: Seq<BlobBinding>,
    input_len: usize,
    offsets: LayerOffsets,
    params: LayerParams,
    read_halfway: bool,
)
    requires
        input_len * 4 <= u64::MAX,
        params.head_count > 0,
        params.dim as int / params.head_count as int * params.head_count_kv * 2048 * 4 <= u64::MAX,
    ensures
        ({
            let plan = stepwise_model(slots, input_len, offsets, params, read_halfway);
            let position = params.dim as int / params.head_count as int * params.head_count_kv;
            &&& has_state(plan, input_len, params)
            &&& creates(plan, Buf::Cache(CacheKind::K, 0), position * 2048 * 4)
            &&& creates(plan, Buf::Cache(CacheKind::V, 0), position * 2048 * 4)
            &&& reads_back(plan, Buf::Activation, 0, Buf::Read(1), 4 * params.dim)
            &&& read_halfway ==> reads_back(plan, Buf::Activation, 0, Buf::Read(0), 4 * params.dim)
            &&& !read_halfway ==> !plan.reads.contains(Buf::Read(0))
        }),
{
    let plan = stepwise_model(slots, input_len, offsets, params, read_halfway);
    let position = params.dim as int / params.head_count as int * params.head_count_kv;
    assert(position * 2048 * 4 >= 0) by {
        vstd::arithmetic::div_mod::lemma_div_pos_is_pos(
            params.dim as int,
            params.head_count as int,
        );
        assert(position >= 0) by (nonlinear_arith)
            requires
                position == (params.dim as int / params.head_count as int) * params.head_count_kv,
                params.dim as int / params.head_count as int >= 0,
        ;
    }
    assert(plan.buffers[0].buf == Buf::Activation);
    assert(plan.buffers[1].buf == Buf::Temp);
    assert(plan.buffers[2].buf == Buf::Cache(CacheKind::K, 0));
    assert(plan.buffers[3].buf == Buf::Cache(CacheKind::V, 0));
    assert(plan.buffers[4].buf == Buf::Read(0));
    assert(plan.buffers[5].buf == Buf::Read(1));
    if read_halfway {
        assert(plan.steps[5] is Copy);
        assert(plan.steps[9] is Copy);
        assert(plan.reads[0] == Buf::Read(0));
        assert(plan.reads[1] == Buf::Read(1));
    } else {
        assert(plan.steps[8] is Copy);
        assert(plan.reads[0] == Buf::Read(1));
    }
}

/// A query/key/value run reads back the query, which stands behind the residual
/// vector in the scratch space, and the key and the value of one position, which
/// stand one behind the other in a buffer with room for 4096 such vectors.
pub proof fn law_qkv_run_reads_query_key_and_value(
    slots: Seq<BlobBinding>,
    input_len: usize,
    offsets: LayerOffsets,
    params: LayerParams,
)
    requires
        input_len * 4 <= u64::MAX,
        lengths_fit(shape_of(params)),
    ensures
        ({
            let plan = qkv_only_model(slots, input_len, offsets, params);
            let query = 4 * (params.head_count * params.head_dim);
            let key = 4 * (params.head_count_kv * params.head_dim);
            &&& has_state(plan, input_len, params)
            &&& creates(plan, Buf::LocalKv, 4096 * key)
            &&& reads_back(plan, Buf::Temp, 4 * params.dim, Buf::Read(0), query)
            &&& reads_back(plan, Buf::LocalKv, 0, Buf::Read(1), key)
            &&& reads_back(plan, Buf::LocalKv, key, Buf::Read(2), key)
            &&& plan.reads.len() == 3
        }),
{
    let plan = qkv_only_model(slots, input_len, offsets, params);
    lemma_lengths(params);
    assert(plan.buffers[0].buf == Buf::Activation);
    assert(plan.buffers[1].buf == Buf::Temp);
    assert(plan.buffers[2].buf == Buf::LocalKv);
    assert(plan.buffers[3].buf == Buf::Read(0));
    assert(plan.buffers[4].buf == Buf::Read(1));
    assert(plan.buffers[5].buf == Buf::Read(2));
    assert(plan.reads[0] == Buf::Read(0));
    assert(plan.reads[1] == Buf::Read(1));
    assert(plan.reads[2] == Buf::Read(2));
    assert(plan.steps[2] is Copy);
    assert(plan.steps[3] is Copy);
    assert(plan.steps[4] is Copy);
    let h = params.head_count_kv as int;
    let d = params.head_dim as int;
    let c = crate::layer_plan::TEST_CONTEXT as int;
    assert(c * h * d * 4 * 2 == 4096 * (4 * (h * d))) by (nonlinear_arith)
        requires
            c == 2048,
    ;
    assert(local_kv_size(params) == c * h * d * 4 * 2);
}

proof fn lemma_lengths(params: LayerParams)
    requires
        lengths_fit(shape_of(params)),
    ensures
        0 <= params.head_count * params.head_dim <= u32::MAX,
        0 <= params.head_count_kv * params.head_dim <= u32::MAX,
        layer_sizes(shape_of(params)).q_len == params.head_count * params.head_dim,
        layer_sizes(shape_of(params)).kv_len == params.head_count_kv * params.head_dim,
{
    assert(0 <= params.head_count * params.head_dim) by (nonlinear_arith);
    assert(0 <= params.head_count_kv * params.head_dim) by (nonlinear_arith);
}

/// A debug run reads back, besides the token that it computed, the residual stream
/// halfway, the output of the feed-forward part behind gate and up in the scratch
/// space, the query behind the residual vector there, and the key and the value of
/// the new position, all of that position and nothing else of the cache.
#[verifier::rlimit(40)]
pub proof fn law_debug_run_reads_inner_results(
    slots: Seq<BlobBinding>,
    cache: CacheState,
    layer: usize,
    input_len: usize,
    offsets: LayerOffsets,
    params: LayerParams,
)
    requires
        input_len * 4 <= u64::MAX,
        lengths_fit(shape_of(params)),
        params.head_count_kv == cache.n_head_kv,
        params.head_dim == cache.head_dim,
        cache.offset(cache.seq_len as int, 0, 0) <= u64::MAX,
    ensures
        ({
            let plan = debug_layer_model(slots, cache, layer, input_len, offsets, params);
            let token = 4 * params.dim;
            let query = 4 * (params.head_count * params.head_dim);
            let key = 4 * (params.head_count_kv * params.head_dim);
            let at = cache.offset(cache.seq_len as int, 0, 0);
            &&& has_state(plan, input_len, params)
            &&& reads_back(plan, Buf::Activation, 0, Buf::Read(0), token)
            &&& reads_back(plan, Buf::Activation, 0, Buf::Read(1), token)
            &&& reads_back(plan, Buf::Temp, 4 * (2 * params.ffn_dim), Buf::Read(2), token)
            &&& reads_back(plan, Buf::Temp, token, Buf::Read(3), query)
            &&& reads_back(plan, Buf::Cache(CacheKind::K, layer), at, Buf::Read(4), key)
            &&& reads_back(plan, Buf::Cache(CacheKind::V, layer), at, Buf::Read(5), key)
            &&& plan.reads.len() == 6
        }),
{
    let plan = debug_layer_model(slots, cache, layer, input_len, offsets, params);
    lemma_lengths(params);
    let at = cache.offset(cache.seq_len as int, 0, 0);
    assert(position_start(cache.seq_len, params) == at && at >= 0) by {
        let pos = cache.seq_len as int;
        let h = cache.n_head_kv as int;
        let d = cache.head_dim as int;
        assert(0 * d == 0);
        assert(pos * h * d >= 0) by (nonlinear_arith)
            requires
                pos >= 0,
                h >= 0,
                d >= 0,
        ;
    }
    assert(plan.buffers[0].buf == Buf::Activation);
    assert(plan.buffers[1].buf == Buf::Temp);
    assert(plan.buffers[2].buf == Buf::Read(0));
    assert(plan.buffers[3].buf == Buf::Read(1));
    assert(plan.buffers[4].buf == Buf::Read(2));
    assert(plan.buffers[5].buf == Buf::Read(3));
    assert(plan.buffers[6].buf == Buf::Read(4));
    assert(plan.buffers[7].buf == Buf::Read(5));
    assert(plan.reads[0] == Buf::Read(0));
    assert(plan.reads[1] == Buf::Read(1));
    assert(plan.reads[2] == Buf::Read(2));
    assert(plan.reads[3] == Buf::Read(3));
    assert(plan.reads[4] == Buf::Read(4));
    assert(plan.reads[5] == Buf::Read(5));
    assert(plan.steps[2] is Copy);
    assert(plan.steps[3] is Copy);
    assert(plan.steps[4] is Copy);
    assert(plan.steps[9] is Copy);
    assert(plan.steps[14] is Copy);
    assert(plan.steps[15] is Copy);
}

/// A shift snapshots all of every buffer that it moves data in, into a buffer of the
/// same size: keys and values are as large as each other, and so are their packed
/// forms and their scales.
pub proof fn law_shift_snapshots_whole_buffers(
    layer: usize,
    size: u64,
    packed_size: u64,
    scale_size: u64,
    p: CompactionParams,
    kind: CacheKind,
)
    ensures
        ({
            let plain = shift_model(layer, size, p);
            let int4 = shift_int4_model(layer, size, packed_size, scale_size, p);
            let bytes = match kind {
                CacheKind::K | CacheKind::V => size,
                CacheKind::KPacked | CacheKind::VPacked => packed_size,
                CacheKind::KScale | CacheKind::VScale => scale_size,
            } as int;
            let live = Buf::Cache(kind, layer);
            let kept = Buf::Scratch(kind);
            &&& creates(int4, kept, bytes)
            &&& copies(int4, live, 0, kept, bytes)
            &&& kind == CacheKind::K || kind == CacheKind::V ==> creates(plain, kept, bytes)
                && copies(plain, live, 0, kept, bytes)
        }),
{
    let plain = shift_model(layer, size, p);
    let int4 = shift_int4_model(layer, size, packed_size, scale_size, p);
    assert(plain.buffers[0].buf == Buf::Scratch(CacheKind::K));
    assert(plain.buffers[1].buf == Buf::Scratch(CacheKind::V));
    assert(plain.steps[0] is Copy);
    assert(plain.steps[1] is Copy);
    assert(int4.buffers[0].buf == Buf::Scratch(CacheKind::K));
    assert(int4.buffers[1].buf == Buf::Scratch(CacheKind::V));
    assert(int4.buffers[2].buf == Buf::Scratch(CacheKind::KPacked));
    assert(int4.buffers[3].buf == Buf::Scratch(CacheKind::VPacked));
    assert(int4.buffers[4].buf == Buf::Scratch(CacheKind::KScale));
    assert(int4.buffers[5].buf == Buf::Scratch(CacheKind::VScale));
    assert(int4.steps[0] is Copy);
    assert(int4.steps[1] is Copy);
    assert(int4.steps[2] is Copy);
    assert(int4.steps[3] is Copy);
    assert(int4.steps[4] is Copy);
    assert(int4.steps[5] is Copy);
}

/// The head takes the caller's input and reads back a float per row, whether it runs
/// in one piece or in tiles.
pub proof fn law_head_reads_every_logit(
    slots: Seq<BlobBinding>,
    input_len: usize,
    head: Head,
    max_wgs: u32,
)
    requires
        input_len * 4 <= u64::MAX,
        max_wgs > 0,
    ensures
        ({
            let one = whole_head(slots, input_len, head);
            let tiled = tiled_head(slots, input_len, head, max_wgs);
            let size = 4 * head.vocab_size;
            &&& one.buffers == tiled.buffers
            &&& one.filled == tiled.filled
            &&& one.reads == tiled.reads
            &&& creates(one, Buf::Input, 4 * input_len)
            &&& one.filled == seq![Buf::Input]
            &&& creates(one, Buf::Output, size)
            &&& reads_back(one, Buf::Output, 0, Buf::Read(0), size)
            &&& reads_back(tiled, Buf::Output, 0, Buf::Read(0), size)
        }),
{
    let one = whole_head(slots, input_len, head);
    let tiled = tiled_head(slots, input_len, head, max_wgs);
    let n = tile_count(head.workgroups(), max_wgs as int);
    crate::num::law_groups_cover_items(head.vocab_size as int, 64);
    crate::num::law_groups_cover_items(head.workgroups(), max_wgs as int);
    assert(one.buffers =~= tiled.buffers);
    assert(one.filled =~= tiled.filled);
    assert(one.buffers[0].buf == Buf::Input);
    assert(one.buffers[1].buf == Buf::Output);
    assert(one.buffers[2].buf == Buf::Read(0));
    assert(tiled.buffers[2].buf == Buf::Read(0));
    assert(one.reads[0] == Buf::Read(0));
    assert(tiled.reads[0] == Buf::Read(0));
    assert(one.steps[1] is Copy);
    assert(tiled.steps[n] is Copy);
}

spec fn no_copy(steps: Seq<Step>) -> bool {
    forall|i: int| 0 <= i < steps.len() ==> !(#[trigger] steps[i] is Copy)
}

proof fn lemma_concat_without_copies(a: Seq<Step>, b: Seq<Step>)
    requires
        no_copy(a),
        no_copy(b),
    ensures
        no_copy(a + b),
{
}

proof fn lemma_qkv_without_copies(
    layer: usize,
    kernel: Kernel,
    x: u32,
    batch: u32,
    chunk: u32,
    at: u32,
)
    ensures
        no_copy(qkv_steps(layer, kernel, x, batch, chunk, at)),
    decreases batch - at,
{
    if at < batch && chunk != 0 {
        let count = if batch - at < chunk {
            (batch - at) as u32
        } else {
            chunk
        };
        lemma_qkv_without_copies(layer, kernel, x, batch, chunk, (at + count) as u32);
    }
}

proof fn lemma_layers_without_copies(
    n: nat,
    s: LayerSizes,
    q4k: bool,
    batch: u32,
    chunk: u32,
    trace: bool,
)
    ensures
        no_copy(all_layer_steps(n, s, q4k, batch, chunk, trace)),
    decreases n,
{
    if n > 0 {
        lemma_layers_without_copies((n - 1) as nat, s, q4k, batch, chunk, trace);
        let layer = (n - 1) as usize;
        let kernel = pick(q4k, Kernel::Qkv, Kernel::Q4kQkv);
        lemma_qkv_without_copies(layer, kernel, s.wg_qkv, batch, chunk, 0);
        assert(no_copy(attention_steps(layer, s, q4k, batch)));
        assert(no_copy(ffn_steps(layer, s, q4k, batch, trace)));
        assert(no_copy(layer_steps(layer, s, q4k, batch, chunk, trace)));
    }
}

/// A forward pass creates the residual stream for the whole input, a second one of
/// that size where the caller asks for it, scratch space of the model's stride for
/// each token, and a float for each logit. It reads back the last token before and
/// behind the final norm, and all logits.
pub proof fn law_forward_pass_reads_logits(
    slots: Seq<BlobBinding>,
    chunk_words: u32,
    metadata: BindlessMetadata,
    spec: ModelSpec,
    options: ForwardOptions,
    input_len: usize,
    current_pos: u32,
    seq_len: u32,
)
    requires
        can_run(metadata, spec, input_len),
        batch_size(spec, input_len) * low(spec.n_embd) * 4 <= u64::MAX,
    ensures
        ({
            let plan = forward_model(
                slots,
                chunk_words,
                metadata,
                spec,
                options,
                input_len,
                current_pos,
                seq_len,
            );
            let batch = batch_size(spec, input_len);
            let token = 4 * low(spec.n_embd);
            let logits = 4 * low(spec.n_vocab);
            let last = batch * low(spec.n_embd) * 4 - token;
            &&& creates(plan, Buf::Activation, 4 * input_len)
            &&& options.pingpong ==> creates(plan, Buf::ActivationB, 4 * input_len)
            &&& !options.pingpong ==> creates(plan, Buf::ActivationB, 4)
            &&& creates(plan, Buf::Temp, batch * low(spec.temp_buffer_size) * 4)
            &&& creates(plan, Buf::Logits, logits)
            &&& reads_back(plan, Buf::Activation, last, Buf::PreNorm, token)
            &&& reads_back(plan, Buf::Temp, 0, Buf::FinalNorm, token)
            &&& reads_back(plan, Buf::Logits, 0, Buf::Read(0), logits)
            &&& plan.reads.len() == 3
        }),
{
    let plan = forward_model(
        slots,
        chunk_words,
        metadata,
        spec,
        options,
        input_len,
        current_pos,
        seq_len,
    );
    let p = model_shape(spec);
    let batch = batch_size(spec, input_len);
    let d = low(spec.n_embd) as int;
    let b = batch as int;
    assert((b - 1) * d * 4 == b * d * 4 - 4 * d && 0 <= (b - 1) * d * 4) by (nonlinear_arith)
        requires
            b > 0,
            d >= 0,
    ;
    assert(0 <= b * low(spec.temp_buffer_size) * 4) by (nonlinear_arith)
        requires
            b > 0,
    ;
    let layers = all_layer_steps(
        spec.n_layer as nat,
        layer_sizes(p),
        runs_q4k(metadata),
        batch,
        qkv_chunk(options.prefill_chunk, batch),
        options.trace_layers,
    );
    lemma_layers_without_copies(
        spec.n_layer as nat,
        layer_sizes(p),
        runs_q4k(metadata),
        batch,
        qkv_chunk(options.prefill_chunk, batch),
        options.trace_layers,
    );
    let tail = tail_steps(spec, options, p.dim, batch);
    let n = layers.len() as int;
    assert forall|i: int| 0 <= i < plan.steps.len() && #[trigger] plan.steps[i] is Copy implies {
        &&& i >= n
        &&& plan.steps[i] == tail[i - n]
    } by {
        if i < n {
            assert(plan.steps[i] == layers[i]);
        }
    }
    assert(plan.steps[n] == tail[0]);
    assert(plan.steps[n + 3] == tail[3]);
    assert(plan.steps[n + 4] == tail[4]);
    let cache = cache_buffers(spec.n_layer as nat, spec.kv_cache_size_per_layer as u64);
    assert forall|i: int| 7 <= i < plan.buffers.len() implies #[trigger] plan.buffers[i].buf
        is Cache by {
        assert(plan.buffers[i] == cache[i - 7]);
    }
    assert(plan.buffers[0].buf == Buf::Activation);
    assert(plan.buffers[1].buf == Buf::ActivationB);
    assert(plan.buffers[2].buf == Buf::Temp);
    assert(plan.buffers[3].buf == Buf::Logits);
    assert(plan.buffers[4].buf == Buf::FinalNorm);
    assert(plan.buffers[5].buf == Buf::PreNorm);
    assert(plan.buffers[6].buf == Buf::Read(0));
    assert(plan.reads[0] == Buf::PreNorm);
    assert(plan.reads[1] == Buf::FinalNorm);
    assert(plan.reads[2] == Buf::Read(0));
}

/// A forward pass without a cache of the caller's creates keys and values for every
/// layer, as large as the model says; with one it creates none.
pub proof fn law_forward_pass_creates_its_cache(
    slots: Seq<BlobBinding>,
    chunk_words: u32,
    metadata: BindlessMetadata,
    spec: ModelSpec,
    options: ForwardOptions,
    input_len: usize,
    current_pos: u32,
    seq_len: u32,
    layer: usize,
)
    requires
        can_run(metadata, spec, input_len),
    ensures
        ({
            let plan = forward_model(
                slots,
                chunk_words,
                metadata,
                spec,
                options,
                input_len,
                current_pos,
                seq_len,
            );
            let size = spec.kv_cache_size_per_layer as int;
            &&& !options.external_cache && layer < spec.n_layer ==> {
                &&& creates(plan, Buf::Cache(CacheKind::K, layer), size)
                &&& creates(plan, Buf::Cache(CacheKind::V, layer), size)
            }
            &&& options.external_cache ==> forall|i: int|
                0 <= i < plan.buffers.len() ==> !(#[trigger] plan.buffers[i].buf is Cache)
        }),
{
    let plan = forward_model(
        slots,
        chunk_words,
        metadata,
        spec,
        options,
        input_len,
        current_pos,
        seq_len,
    );
    if !options.external_cache && layer < spec.n_layer {
        let l = layer as int;
        let cache = cache_buffers(spec.n_layer as nat, spec.kv_cache_size_per_layer as u64);
        assert(plan.buffers[7 + 2 * l] == cache[2 * l]);
        assert(plan.buffers[8 + 2 * l] == cache[2 * l + 1]);
        assert(plan.buffers[7 + 2 * l].buf == Buf::Cache(CacheKind::K, layer));
        assert(plan.buffers[8 + 2 * l].buf == Buf::Cache(CacheKind::V, layer));
        assert forall|i: int| 0 <= i < plan.buffers.len() implies {
            &&& #[trigger] plan.buffers[i].buf == Buf::Cache(CacheKind::K, layer) ==> i == 7 + 2 * l
            &&& plan.buffers[i].buf == Buf::Cache(CacheKind::V, layer) ==> i == 8 + 2 * l
        } by {
            if i >= 7 {
                assert(plan.buffers[i] == cache[i - 7]);
            }
        }
    }
}

/// Whether a plan runs one kernel in `x` workgroups on the caller's `inputs`, if any,
/// and reads back all of the `size` bytes that it writes; with one block of uniforms.
pub open spec fn runs_alone(
    plan: PlanModel,
    kernel: Kernel,
    x: int,
    inputs: Seq<Buf>,
    size: int,
) -> bool {
    &&& plan.steps.len() == 3
    &&& plan.steps[0] == (Step::Run { kernel, group: 0, x: x as u32, y: 1, z: 1 })
    &&& plan.steps[2] == Step::Submit
    &&& plan.groups.len() == 1
    &&& plan.uniforms.len() == 1
    &&& plan.uniforms[0].buf == Buf::Uniforms(0)
    &&& plan.filled == inputs
    &&& creates(plan, Buf::Output, size)
    &&& reads_back(plan, Buf::Output, 0, Buf::Read(0), size)
    &&& plan.reads.len() == 1
}

/// Dequantization takes 64 elements per workgroup, as many workgroups as the elements
/// need, and gives a float for each. The kernel is told where to start, how many
/// elements there are and, where it takes any type, the formula of the type.
pub proof fn law_dequantization_gives_every_element(
    slots: Seq<BlobBinding>,
    chunk_words: u32,
    blob_len: usize,
    offset_bytes: u32,
    count: u32,
    quant_type: u32,
    x: u32,
)
    requires
        blob_len <= usize::MAX - 3,
        slots.len() == 8,
        covers(x as int, 64, count as int),
    ensures
        ({
            let a = dequant_model(slots, offset_bytes, count);
            let b = dequant_any_model(slots, chunk_words, offset_bytes, count, quant_type);
            let c = raw_dequant_model(blob_len, offset_bytes, count, quant_type);
            let w = a.uniforms[0].words;
            let v = b.uniforms[0].words;
            let u = c.uniforms[0].words;
            let output = Source::Whole(Buf::Output);
            &&& runs_alone(a, Kernel::Dequant, x as int, Seq::empty(), 4 * count)
            &&& runs_alone(b, Kernel::DequantAny, x as int, Seq::empty(), 4 * count)
            &&& runs_alone(c, Kernel::DequantAny, x as int, seq![Buf::RawBlob], 4 * count)
            &&& w == seq![offset_bytes, count, 0, 0]
            &&& v == seq![0, offset_bytes / 4, count, formula_slot(quant_type), chunk_words]
            &&& u == v.update(4, u[4])
            &&& blob_len <= 0x3_ffff_fffc ==> blob_len <= 4 * u[4] < blob_len + 4
            &&& blob_len <= 0x3_ffff_fffc ==> creates(c, Buf::RawBlob, 4 * u[4])
            &&& group_fills(a.groups[0], 0, slots, output, output)
            &&& group_fed(a, a.groups[0])
            &&& group_fills(b.groups[0], 0, slots, output, output)
            &&& group_fed(b, b.groups[0])
            &&& group_fed(c, c.groups[0])
            &&& c.groups[0].entries[0].source == Source::Whole(Buf::RawBlob)
            &&& c.groups[0].entries[1].source == output
            &&& forall|i: int|
                3 <= i < c.groups[0].entries.len() ==> (#[trigger] c.groups[0].entries[i]).source
                    == Source::Whole(Buf::Dummy)
        }),
{
    let a = dequant_model(slots, offset_bytes, count);
    let b = dequant_any_model(slots, chunk_words, offset_bytes, count, quant_type);
    let c = raw_dequant_model(blob_len, offset_bytes, count, quant_type);
    crate::num::law_groups_cover_items(count as int, 64);
    crate::num::law_groups_cover_items(blob_len as int, 4);
    lemma_same_cover(x as int, ceil_div(count as int, 64), 64, count as int);
    assert(a.uniforms[0].words =~= seq![offset_bytes, count, 0, 0]);
    assert(b.uniforms[0].words =~= seq![
        0,
        offset_bytes / 4,
        count,
        formula_slot(quant_type),
        chunk_words,
    ]);
    let u = c.uniforms[0].words;
    assert(u =~= b.uniforms[0].words.update(4, u[4]));
    lemma_runs_alone(a, Seq::empty());
    lemma_runs_alone(b, Seq::empty());
    lemma_runs_alone(c, seq![Buf::RawBlob]);
    assert(a.filled =~= Seq::empty());
    assert(b.filled =~= Seq::empty());
    assert(c.filled =~= seq![Buf::RawBlob]);
    assert(c.buffers[0].buf == Buf::RawBlob);
    assert(a.uniforms[0].buf == Buf::Uniforms(0));
    assert(b.uniforms[0].buf == Buf::Uniforms(0));
    assert(c.uniforms[0].buf == Buf::Uniforms(0));
    assert(has_block(a, Buf::Uniforms(0), 4));
    assert(has_block(b, Buf::Uniforms(0), 5));
    assert(has_block(c, Buf::Uniforms(0), 5));
}

proof fn lemma_same_cover(x: int, y: int, threads: int, items: int)
    requires
        threads > 0,
        items >= 0,
        covers(x, threads, items),
        covers(y, threads, items),
    ensures
        x == y,
{
    if items > 0 {
        assert(x == y) by (nonlinear_arith)
            requires
                threads > 0,
                x * threads >= items,
                (x - 1) * threads < items,
                y * threads >= items,
                (y - 1) * threads < items,
        ;
    }
}

proof fn lemma_runs_alone(plan: PlanModel, inputs: Seq<Buf>)
    requires
        plan.buffers.len() == inputs.len() + 2,
        forall|i: int| 0 <= i < inputs.len() ==> #[trigger] plan.buffers[i].buf == inputs[i],
        forall|i: int|
            0 <= i < inputs.len() ==> #[trigger] inputs[i] != Buf::Output && inputs[i] != Buf::Read(
                0,
            ),
        plan.buffers[inputs.len() as int].buf == Buf::Output,
        plan.buffers[inputs.len() as int + 1].buf == Buf::Read(0),
        plan.buffers[inputs.len() as int + 1].size == plan.buffers[inputs.len() as int].size,
        plan.steps.len() == 3,
        plan.steps[0] is Run,
        plan.steps[1] == (Step::Copy {
            from: Buf::Output,
            at: 0,
            to: Buf::Read(0),
            size: plan.buffers[inputs.len() as int].size,
        }),
        plan.steps[2] == Step::Submit,
        plan.reads == seq![Buf::Read(0)],
    ensures
        creates(plan, Buf::Output, plan.buffers[inputs.len() as int].size as int),
        reads_back(
            plan,
            Buf::Output,
            0,
            Buf::Read(0),
            plan.buffers[inputs.len() as int].size as int,
        ),
{
    let n = inputs.len() as int;
    assert(plan.reads[0] == Buf::Read(0));
    assert(plan.steps[1] is Copy);
    assert forall|i: int| 0 <= i < plan.buffers.len() implies {
        &&& #[trigger] plan.buffers[i].buf == Buf::Output ==> i == n
        &&& plan.buffers[i].buf == Buf::Read(0) ==> i == n + 1
    } by {
        if i < n {
            assert(plan.buffers[i].buf == inputs[i]);
        }
    }
}

/// A product takes 256 rows of quantized weights per workgroup, or 64 rows of
/// dequantized ones, as many workgroups as the rows need, and gives a float for each
/// row. A norm takes one workgroup and gives a float for each element. All of them
/// take the caller's input.
pub proof fn law_products_and_norms_give_every_row(
    slots: Seq<BlobBinding>,
    input_len: usize,
    params: MatMulParams,
    n: u32,
    k: u32,
    norm: RMSNormParams,
    x: u32,
    y: u32,
)
    requires
        slots.len() == 8,
        input_len * 4 <= u64::MAX,
        covers(x as int, 256, params.n as int),
        covers(y as int, 64, n as int),
    ensures
        ({
            let a = matmul_model(slots, input_len, params);
            let b = matmul_f32_model(input_len, n, k);
            let c = rmsnorm_model(slots, input_len, norm);
            let input = Source::Whole(Buf::Input);
            let output = Source::Whole(Buf::Output);
            &&& runs_alone(a, Kernel::MatMul, x as int, seq![Buf::Input], 4 * params.n)
            &&& runs_alone(b, Kernel::MatMulF32, y as int, seq![Buf::Input], 4 * n)
            &&& runs_alone(c, Kernel::RmsNorm, 1, seq![Buf::Input], 4 * norm.count)
            &&& creates(a, Buf::Input, 4 * input_len)
            &&& creates(b, Buf::Input, 4 * input_len)
            &&& creates(c, Buf::Input, 4 * input_len)
            &&& a.uniforms[0].words == params.block()
            &&& b.uniforms[0].words == seq![n, k, 0, 0]
            &&& c.uniforms[0].words == norm.block()
            &&& group_fills(a.groups[0], 0, slots, input, output)
            &&& group_fills(b.groups[0], 0, slots, input, output)
            &&& group_fills(c.groups[0], 0, slots, input, output)
            &&& group_fed(a, a.groups[0])
            &&& group_fed(b, b.groups[0])
            &&& group_fed(c, c.groups[0])
        }),
{
    let a = matmul_model(slots, input_len, params);
    let b = matmul_f32_model(input_len, n, k);
    let c = rmsnorm_model(slots, input_len, norm);
    crate::num::law_groups_cover_items(params.n as int, 256);
    crate::num::law_groups_cover_items(n as int, 64);
    lemma_same_cover(x as int, ceil_div(params.n as int, 256), 256, params.n as int);
    lemma_same_cover(y as int, ceil_div(n as int, 64), 64, n as int);
    lemma_runs_alone(a, seq![Buf::Input]);
    lemma_runs_alone(b, seq![Buf::Input]);
    lemma_runs_alone(c, seq![Buf::Input]);
    assert(a.filled =~= seq![Buf::Input]);
    assert(b.filled =~= seq![Buf::Input]);
    assert(c.filled =~= seq![Buf::Input]);
    assert(a.buffers[0].buf == Buf::Input);
    assert(b.buffers[0].buf == Buf::Input);
    assert(c.buffers[0].buf == Buf::Input);
    assert(b.uniforms[0].words =~= seq![n, k, 0, 0]);
    assert(a.uniforms[0].buf == Buf::Uniforms(0));
    assert(b.uniforms[0].buf == Buf::Uniforms(0));
    assert(c.uniforms[0].buf == Buf::Uniforms(0));
    assert(has_block(a, Buf::Uniforms(0), 4));
    assert(has_block(b, Buf::Uniforms(0), 4));
    assert(has_block(c, Buf::Uniforms(0), 6));
}

/// The probe reads back the first two words of the blob, through one workgroup. A
/// readback of a chunk copies all of it, from its start.
pub proof fn law_probe_and_readback(slots: Seq<BlobBinding>, size: u64)
    requires
        slots.len() == 8,
    ensures
        ({
            let p = probe_model(slots);
            let output = Source::Whole(Buf::Output);
            &&& p.steps[0] == (Step::Run { kernel: Kernel::Probe, group: 0, x: 1, y: 1, z: 1 })
            &&& p.uniforms.len() == 0 && p.filled.len() == 0
            &&& creates(p, Buf::Output, 8)
            &&& reads_back(p, Buf::Output, 0, Buf::Read(0), 8)
            &&& p.steps[2] == Step::Submit
            &&& group_fills(p.groups[0], 0, slots, output, output)
            &&& reads_back(chunk_readback(size), Buf::Chunk(0), 0, Buf::Read(0), size as int)
            &&& chunk_readback(size).steps[1] == Step::Submit
        }),
{
    let p = probe_model(slots);
    lemma_runs_alone(p, Seq::empty());
    let c = chunk_readback(size);
    assert(c.buffers[0].buf == Buf::Read(0));
    assert(c.steps[0] is Copy);
    assert(c.reads[0] == Buf::Read(0));
}

/// Shifts, quantization and the vision model work on buffers that are there already:
/// beside the snapshots of a shift they create none, the host hands nothing in, and it
/// reads nothing. Without positions there is nothing to quantize at all.
pub proof fn law_runs_in_place_keep_to_their_buffers(
    layer: usize,
    size: u64,
    packed_size: u64,
    scale_size: u64,
    p: CompactionParams,
    n_head_kv: u32,
    head_dim: u32,
    seq_len: u32,
    n_layers: usize,
    offsets: Seq<u32>,
    words: Seq<u32>,
    group: GroupModel,
    steps: Seq<Step>,
)
    ensures
        ({
            let a = shift_model(layer, size, p);
            let b = shift_int4_model(layer, size, packed_size, scale_size, p);
            let c = requantize_model(n_head_kv, head_dim, seq_len, n_layers);
            let d = vision_model(offsets, words, group, steps);
            &&& a.buffers.len() == 2 && b.buffers.len() == 6
            &&& c.buffers.len() == 0 && d.buffers.len() == 0
            &&& a.filled.len() == 0 && b.filled.len() == 0
            &&& c.filled.len() == 0 && d.filled.len() == 0
            &&& a.reads.len() == 0 && b.reads.len() == 0
            &&& c.reads.len() == 0 && d.reads.len() == 0
            &&& a.uniforms.len() == 1 && b.uniforms.len() == 1
            &&& seq_len == 0 ==> c.steps.len() == 0 && c.groups.len() == 0 && c.uniforms.len() == 0
        }),
{
}

} // verus!
