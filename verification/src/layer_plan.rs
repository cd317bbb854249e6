//! Plans of single transformer layers.

use crate::dispatch::{
    further_slot_entries, push_further_slots, push_slot, push_whole, slot, whole, BindGroup, Buf,
    Entry, GroupModel, NewBuffer, Plan, PlanModel, Step, UniformBlock, UniformModel,
};
use crate::kernels::{BindlessPipeline, Kernel, Layout};
use crate::kv_cache::{CacheKind, CacheState, KVCache};
use crate::loader::BLOB_BINDING_SLOTS;
use crate::num::{ceil_div, div_ceil_u32};
use crate::offsets::LayerOffsets;
use crate::params::{CacheParams, LayerParams, QuantizeKvParams};
use crate::window::BlobBinding;
use vstd::prelude::*;

verus! {

/// Positions of the caches that single-layer runs make for themselves.
pub const TEST_CONTEXT: u64 = 2048;

/// The lengths that decide how many threads a layer needs.
#[derive(Debug, Clone, Copy, PartialEq, Eq, Structural)]
pub struct LayerShape {
    pub dim: u32,
    pub head_count: u32,
    pub head_count_kv: u32,
    pub head_dim: u32,
    pub ffn_dim: u32,
}

/// The lengths in a layer's uniforms.
pub open spec fn shape_of(p: LayerParams) -> LayerShape {
    LayerShape {
        dim: p.dim,
        head_count: p.head_count,
        head_count_kv: p.head_count_kv,
        head_dim: p.head_dim,
        ffn_dim: p.ffn_dim,
    }
}

fn layer_shape(p: &LayerParams) -> (s: LayerShape)
    ensures
        s == shape_of(*p),
{
    LayerShape {
        dim: p.dim,
        head_count: p.head_count,
        head_count_kv: p.head_count_kv,
        head_dim: p.head_dim,
        ffn_dim: p.ffn_dim,
    }
}

/// The vector lengths of a layer, and the workgroups that its kernels need.
#[derive(Debug, Clone, Copy, PartialEq, Eq, Structural)]
pub struct LayerSizes {
    /// Elements of the query.
    pub q_len: u32,
    /// Elements of the key, and of the value.
    pub kv_len: u32,
    pub wg_dim: u32,
    pub wg_qkv: u32,
    pub wg_qknorm: u32,
    pub wg_ffn: u32,
}

/// Whether the vector lengths of a layer fit 32 bits.
pub open spec fn lengths_fit(p: LayerShape) -> bool {
    &&& p.head_count * p.head_dim + p.head_count_kv * p.head_dim * 2 <= u32::MAX
    &&& p.ffn_dim * 2 <= u32::MAX
}

/// The sizes of a layer. Kernels run 256 threads per workgroup: one per element
/// of the residual stream; of query, key and value; of query and key; of gate
/// and up.
pub open spec fn layer_sizes(p: LayerShape) -> LayerSizes {
    let q_len = p.head_count * p.head_dim;
    let kv_len = p.head_count_kv * p.head_dim;
    LayerSizes {
        q_len: q_len as u32,
        kv_len: kv_len as u32,
        wg_dim: ceil_div(p.dim as int, 256) as u32,
        wg_qkv: ceil_div(q_len + kv_len * 2, 256) as u32,
        wg_qknorm: ceil_div(q_len + kv_len, 256) as u32,
        wg_ffn: ceil_div(p.ffn_dim * 2, 256) as u32,
    }
}

/// Tests whether the vector lengths of a layer fit 32 bits.
pub fn check_lengths(p: &LayerShape) -> (fits: bool)
    ensures
        fits == lengths_fit(*p),
{
    assert(0 <= p.head_count * p.head_dim <= u32::MAX * u32::MAX) by (nonlinear_arith);
    assert(0 <= p.head_count_kv * p.head_dim <= u32::MAX * u32::MAX) by (nonlinear_arith);
    let q_len: u64 = p.head_count as u64 * p.head_dim as u64;
    let kv_len: u64 = p.head_count_kv as u64 * p.head_dim as u64;
    q_len <= u32::MAX as u64 && kv_len <= u32::MAX as u64 && q_len + kv_len * 2 <= u32::MAX as u64
        && p.ffn_dim as u64 * 2 <= u32::MAX as u64
}

/// Computes the sizes of a layer.
pub fn compute_layer_sizes(p: &LayerShape) -> (s: LayerSizes)
    requires
        lengths_fit(*p),
    ensures
        s == layer_sizes(*p),
        s.q_len == p.head_count * p.head_dim,
        s.kv_len == p.head_count_kv * p.head_dim,
{
    assert(0 <= p.head_count * p.head_dim) by (nonlinear_arith);
    assert(0 <= p.head_count_kv * p.head_dim) by (nonlinear_arith);
    let q_len: u32 = p.head_count * p.head_dim;
    let kv_len: u32 = p.head_count_kv * p.head_dim;
    LayerSizes {
        q_len,
        kv_len,
        wg_dim: div_ceil_u32(p.dim, 256),
        wg_qkv: div_ceil_u32(q_len + kv_len * 2, 256),
        wg_qknorm: div_ceil_u32(q_len + kv_len, 256),
        wg_ffn: div_ceil_u32(p.ffn_dim * 2, 256),
    }
}

/// The bind group of a layer.
pub open spec fn layer_group(
    slots: Seq<BlobBinding>,
    layer: usize,
    k: Buf,
    v: Buf,
    cache_params: Buf,
) -> GroupModel {
    GroupModel {
        layout: Layout::Layer,
        entries: seq![
            slot(0, slots[0]),
            whole(1, Buf::Activation),
            whole(2, Buf::Temp),
            whole(3, Buf::Offsets(layer)),
            whole(4, Buf::Params(layer)),
            whole(5, Buf::NormBank),
            whole(6, Buf::RopeCache),
            whole(7, k),
            whole(8, v),
            whole(9, cache_params),
        ] + further_slot_entries(slots) + seq![whole(17, Buf::Dummy)],
    }
}

/// Makes the bind group of a layer.
pub fn layer_bind_group(
    slots: &[BlobBinding; BLOB_BINDING_SLOTS],
    layer: usize,
    k: Buf,
    v: Buf,
    cache_params: Buf,
) -> (g: BindGroup)
    ensures
        g@ == layer_group(slots@, layer, k, v, cache_params),
{
    let mut entries: Vec<Entry> = Vec::new();
    push_slot(&mut entries, 0, slots[0]);
    push_whole(&mut entries, 1, Buf::Activation);
    push_whole(&mut entries, 2, Buf::Temp);
    push_whole(&mut entries, 3, Buf::Offsets(layer));
    push_whole(&mut entries, 4, Buf::Params(layer));
    push_whole(&mut entries, 5, Buf::NormBank);
    push_whole(&mut entries, 6, Buf::RopeCache);
    push_whole(&mut entries, 7, k);
    push_whole(&mut entries, 8, v);
    push_whole(&mut entries, 9, cache_params);
    push_further_slots(&mut entries, slots);
    push_whole(&mut entries, 17, Buf::Dummy);
    let g = BindGroup { layout: Layout::Layer, entries };
    assert(g@ =~~= layer_group(slots@, layer, k, v, cache_params));
    g
}

/// The bind group of a layer with its own cache buffers.
pub open spec fn cached_layer_group(slots: Seq<BlobBinding>, layer: usize) -> GroupModel {
    layer_group(
        slots,
        layer,
        Buf::Cache(CacheKind::K, layer),
        Buf::Cache(CacheKind::V, layer),
        Buf::CacheParams,
    )
}

/// The bind group of INT4 attention.
pub open spec fn int4_group(slots: Seq<BlobBinding>, layer: usize) -> GroupModel {
    GroupModel {
        layout: Layout::LayerInt4,
        entries: seq![
            slot(0, slots[0]),
            whole(1, Buf::Activation),
            whole(2, Buf::Temp),
            whole(3, Buf::Offsets(layer)),
            whole(4, Buf::Params(layer)),
            whole(5, Buf::NormBank),
            whole(6, Buf::RopeCache),
            whole(7, Buf::Cache(CacheKind::K, layer)),
            whole(8, Buf::Cache(CacheKind::V, layer)),
            whole(9, Buf::CacheParams),
            whole(10, Buf::Cache(CacheKind::KPacked, layer)),
            whole(11, Buf::Cache(CacheKind::KScale, layer)),
            whole(12, Buf::Cache(CacheKind::VPacked, layer)),
            whole(13, Buf::Cache(CacheKind::VScale, layer)),
        ],
    }
}

fn int4_bind_group(slots: &[BlobBinding; BLOB_BINDING_SLOTS], layer: usize) -> (g: BindGroup)
    ensures
        g@ == int4_group(slots@, layer),
{
    let mut entries: Vec<Entry> = Vec::new();
    push_slot(&mut entries, 0, slots[0]);
    push_whole(&mut entries, 1, Buf::Activation);
    push_whole(&mut entries, 2, Buf::Temp);
    push_whole(&mut entries, 3, Buf::Offsets(layer));
    push_whole(&mut entries, 4, Buf::Params(layer));
    push_whole(&mut entries, 5, Buf::NormBank);
    push_whole(&mut entries, 6, Buf::RopeCache);
    push_whole(&mut entries, 7, Buf::Cache(CacheKind::K, layer));
    push_whole(&mut entries, 8, Buf::Cache(CacheKind::V, layer));
    push_whole(&mut entries, 9, Buf::CacheParams);
    push_whole(&mut entries, 10, Buf::Cache(CacheKind::KPacked, layer));
    push_whole(&mut entries, 11, Buf::Cache(CacheKind::KScale, layer));
    push_whole(&mut entries, 12, Buf::Cache(CacheKind::VPacked, layer));
    push_whole(&mut entries, 13, Buf::Cache(CacheKind::VScale, layer));
    let g = BindGroup { layout: Layout::LayerInt4, entries };
    assert(g@ =~~= int4_group(slots@, layer));
    g
}

/// The bind group that quantizes a layer's cache, with the given uniforms.
pub open spec fn quantize_group(layer: usize, uniforms: usize) -> GroupModel {
    GroupModel {
        layout: Layout::QuantizeKv,
        entries: seq![
            whole(0, Buf::Cache(CacheKind::K, layer)),
            whole(1, Buf::Cache(CacheKind::V, layer)),
            whole(2, Buf::Cache(CacheKind::KPacked, layer)),
            whole(3, Buf::Cache(CacheKind::VPacked, layer)),
            whole(4, Buf::Cache(CacheKind::KScale, layer)),
            whole(5, Buf::Cache(CacheKind::VScale, layer)),
            whole(6, Buf::Uniforms(uniforms)),
        ],
    }
}

fn quantize_bind_group(layer: usize, uniforms: usize) -> (g: BindGroup)
    ensures
        g@ == quantize_group(layer, uniforms),
{
    let mut entries: Vec<Entry> = Vec::new();
    push_whole(&mut entries, 0, Buf::Cache(CacheKind::K, layer));
    push_whole(&mut entries, 1, Buf::Cache(CacheKind::V, layer));
    push_whole(&mut entries, 2, Buf::Cache(CacheKind::KPacked, layer));
    push_whole(&mut entries, 3, Buf::Cache(CacheKind::VPacked, layer));
    push_whole(&mut entries, 4, Buf::Cache(CacheKind::KScale, layer));
    push_whole(&mut entries, 5, Buf::Cache(CacheKind::VScale, layer));
    push_whole(&mut entries, 6, Buf::Uniforms(uniforms));
    let g = BindGroup { layout: Layout::QuantizeKv, entries };
    assert(g@ =~~= quantize_group(layer, uniforms));
    g
}

/// A kernel that runs on one token with bind group 0.
pub open spec fn on_token(kernel: Kernel, x: u32) -> Step {
    Step::Run { kernel, group: 0, x, y: 1, z: 1 }
}

/// A copy of a whole result to a buffer that the host reads.
pub open spec fn read_back(from: Buf, at: u64, read: usize, size: u64) -> Step {
    Step::Copy { from, at, to: Buf::Read(read), size }
}

/// The uniforms of one layer's run on one token.
pub open spec fn layer_uniforms(
    layer: usize,
    offsets: LayerOffsets,
    params: LayerParams,
    cache: CacheParams,
) -> Seq<UniformModel> {
    seq![
        UniformModel { buf: Buf::Offsets(layer), words: offsets.block() },
        UniformModel { buf: Buf::Params(layer), words: params.block() },
        UniformModel { buf: Buf::CacheParams, words: cache.block() },
    ]
}

fn layer_uniform_blocks(
    layer: usize,
    offsets: &LayerOffsets,
    params: &LayerParams,
    cache: &CacheParams,
) -> (v: Vec<UniformBlock>)
    ensures
        v@.map_values(|u: UniformBlock| u@) == layer_uniforms(layer, *offsets, *params, *cache),
{
    let v: Vec<UniformBlock> = vec![
        UniformBlock { buf: Buf::Offsets(layer), words: offsets.words() },
        UniformBlock { buf: Buf::Params(layer), words: params.words() },
        UniformBlock { buf: Buf::CacheParams, words: cache.words() },
    ];
    assert(v@.map_values(|u: UniformBlock| u@) =~~= layer_uniforms(
        layer,
        *offsets,
        *params,
        *cache,
    ));
    v
}

/// The cache uniforms of appending one token.
pub open spec fn append_params(cache: CacheState) -> CacheParams {
    CacheParams {
        current_pos: cache.seq_len,
        seq_len: (cache.seq_len + 1) as u32,
        max_seq_len: cache.max_seq_len,
        batch_size: 1,
        logical_pos_base: cache.window_base,
        pad1: 0,
        pad2: 0,
        pad3: 0,
    }
}

fn append_params_exec(cache: &KVCache) -> (p: CacheParams)
    requires
        cache@.seq_len < u32::MAX,
    ensures
        p == append_params(cache@),
{
    CacheParams {
        current_pos: cache.get_seq_len(),
        seq_len: cache.get_seq_len() + 1,
        max_seq_len: cache.max_len(),
        batch_size: 1,
        logical_pos_base: cache.get_window_base(),
        pad1: 0,
        pad2: 0,
        pad3: 0,
    }
}

/// The cache uniforms of a first token in a context of 2048.
pub open spec fn first_token_params() -> CacheParams {
    CacheParams {
        current_pos: 0,
        seq_len: 1,
        max_seq_len: 2048,
        batch_size: 1,
        logical_pos_base: 0,
        pad1: 0,
        pad2: 0,
        pad3: 0,
    }
}

/// Activation and scratch of a run on `input_len` floats.
pub open spec fn state_buffers(input_len: usize, params: LayerParams) -> Seq<NewBuffer> {
    seq![
        NewBuffer { buf: Buf::Activation, size: (input_len * 4) as u64 },
        NewBuffer { buf: Buf::Temp, size: (params.temp_stride * 4) as u64 },
    ]
}

fn state_buffers_exec(input_len: usize, params: &LayerParams) -> (v: Vec<NewBuffer>)
    requires
        input_len * 4 <= u64::MAX,
    ensures
        v@ == state_buffers(input_len, *params),
{
    let v: Vec<NewBuffer> = vec![
        NewBuffer { buf: Buf::Activation, size: input_len as u64 * 4 },
        NewBuffer { buf: Buf::Temp, size: params.temp_stride as u64 * 4 },
    ];
    assert(v@ =~= state_buffers(input_len, *params));
    v
}

/// Bytes of the key and value buffer of a query/key/value run.
pub open spec fn local_kv_size(p: LayerParams) -> int {
    TEST_CONTEXT * p.head_count_kv * p.head_dim * 4 * 2
}

/// Norm and query/key/value projection alone: what they write is read back.
pub open spec fn qkv_only_model(
    slots: Seq<BlobBinding>,
    input_len: usize,
    offsets: LayerOffsets,
    params: LayerParams,
) -> PlanModel {
    let s = layer_sizes(shape_of(params));
    let q_size = (s.q_len * 4) as u64;
    let kv_unit = (s.kv_len * 4) as u64;
    PlanModel {
        buffers: state_buffers(input_len, params) + seq![
            NewBuffer { buf: Buf::LocalKv, size: local_kv_size(params) as u64 },
            NewBuffer { buf: Buf::Read(0), size: q_size },
            NewBuffer { buf: Buf::Read(1), size: kv_unit },
            NewBuffer { buf: Buf::Read(2), size: kv_unit },
        ],
        uniforms: seq![
            UniformModel { buf: Buf::Offsets(0), words: offsets.block() },
            UniformModel { buf: Buf::Params(0), words: params.block() },
        ],
        groups: seq![layer_group(slots, 0, Buf::LocalKv, Buf::Dummy, Buf::Dummy)],
        steps: seq![
            on_token(Kernel::AttnNorm, s.wg_dim),
            on_token(Kernel::Qkv, s.wg_qkv),
            read_back(Buf::Temp, (params.dim * 4) as u64, 0, q_size),
            read_back(Buf::LocalKv, 0, 1, kv_unit),
            read_back(Buf::LocalKv, kv_unit, 2, kv_unit),
            Step::Submit,
        ],
        filled: seq![Buf::Activation],
        reads: seq![Buf::Read(0), Buf::Read(1), Buf::Read(2)],
    }
}

impl BindlessPipeline {
    /// Plans norm and query/key/value projection alone. The query is read from the
    /// scratch space behind the residual stream, key and value from their own
    /// buffer, one behind the other.
    pub fn run_qkv_only_test(
        &self,
        slots: &[BlobBinding; BLOB_BINDING_SLOTS],
        input_len: usize,
        offsets: LayerOffsets,
        params: LayerParams,
    ) -> (p: Plan)
        requires
            input_len * 4 <= u64::MAX,
            lengths_fit(shape_of(params)),
        ensures
            p@ == qkv_only_model(slots@, input_len, offsets, params),
    {
        let s = compute_layer_sizes(&layer_shape(&params));
        let q_size: u64 = s.q_len as u64 * 4;
        let kv_unit: u64 = s.kv_len as u64 * 4;
        assert(local_kv_size(params) == 2048 * s.kv_len * 4 * 2) by {
            assert(2048 * params.head_count_kv * params.head_dim == 2048 * (params.head_count_kv
                * params.head_dim)) by (nonlinear_arith);
        }
        let kv_size: u64 = 2048 * (s.kv_len as u64) * 4 * 2;
        let mut buffers = state_buffers_exec(input_len, &params);
        buffers.push(NewBuffer { buf: Buf::LocalKv, size: kv_size });
        buffers.push(NewBuffer { buf: Buf::Read(0), size: q_size });
        buffers.push(NewBuffer { buf: Buf::Read(1), size: kv_unit });
        buffers.push(NewBuffer { buf: Buf::Read(2), size: kv_unit });
        let p = Plan {
            buffers,
            uniforms: vec![
                UniformBlock { buf: Buf::Offsets(0), words: offsets.words() },
                UniformBlock { buf: Buf::Params(0), words: params.words() },
            ],
            groups: vec![layer_bind_group(slots, 0, Buf::LocalKv, Buf::Dummy, Buf::Dummy)],
            steps: vec![
                Step::Run { kernel: Kernel::AttnNorm, group: 0, x: s.wg_dim, y: 1, z: 1 },
                Step::Run { kernel: Kernel::Qkv, group: 0, x: s.wg_qkv, y: 1, z: 1 },
                Step::Copy {
                    from: Buf::Temp,
                    at: params.dim as u64 * 4,
                    to: Buf::Read(0),
                    size: q_size,
                },
                Step::Copy { from: Buf::LocalKv, at: 0, to: Buf::Read(1), size: kv_unit },
                Step::Copy { from: Buf::LocalKv, at: kv_unit, to: Buf::Read(2), size: kv_unit },
                Step::Submit,
            ],
            filled: vec![Buf::Activation],
            reads: vec![Buf::Read(0), Buf::Read(1), Buf::Read(2)],
        };
        assert(p@ =~~= qkv_only_model(slots@, input_len, offsets, params));
        p
    }
}

/// Bytes of a key or value buffer of a stepwise layer run.
pub open spec fn stepwise_kv_size(p: LayerParams) -> int {
    p.dim as int / p.head_count as int * p.head_count_kv * TEST_CONTEXT * 4
}

/// A layer on a first token; the residual stream is read behind the attention
/// part, if asked for, and at the end.
pub open spec fn stepwise_model(
    slots: Seq<BlobBinding>,
    input_len: usize,
    offsets: LayerOffsets,
    params: LayerParams,
    read_halfway: bool,
) -> PlanModel {
    let s = layer_sizes(shape_of(params));
    let size = (params.dim * 4) as u64;
    let kv_size = stepwise_kv_size(params) as u64;
    let halfway = if read_halfway {
        seq![read_back(Buf::Activation, 0, 0, size)]
    } else {
        Seq::empty()
    };
    PlanModel {
        buffers: state_buffers(input_len, params) + seq![
            NewBuffer { buf: Buf::Cache(CacheKind::K, 0), size: kv_size },
            NewBuffer { buf: Buf::Cache(CacheKind::V, 0), size: kv_size },
            NewBuffer { buf: Buf::Read(0), size },
            NewBuffer { buf: Buf::Read(1), size },
        ],
        uniforms: layer_uniforms(0, offsets, params, first_token_params()),
        groups: seq![cached_layer_group(slots, 0)],
        steps: seq![
            on_token(Kernel::AttnNorm, s.wg_dim),
            on_token(Kernel::Qkv, s.wg_qkv),
            on_token(Kernel::QkNorm, s.wg_qknorm),
            on_token(Kernel::AttnOut, s.wg_dim),
            on_token(Kernel::AttnProj, s.wg_dim),
        ] + halfway + seq![
            on_token(Kernel::FfnNorm, 1),
            on_token(Kernel::FfnProj, s.wg_ffn),
            on_token(Kernel::FfnDown, s.wg_dim),
            read_back(Buf::Activation, 0, 1, size),
            Step::Submit,
        ],
        filled: seq![Buf::Activation],
        reads: if read_halfway {
            seq![Buf::Read(0), Buf::Read(1)]
        } else {
            seq![Buf::Read(1)]
        },
    }
}

impl BindlessPipeline {
    /// Plans a layer on a first token, without post norms. With `read_halfway` the
    /// residual stream behind the attention part is read too.
    pub fn run_layer_stepwise_test(
        &self,
        slots: &[BlobBinding; BLOB_BINDING_SLOTS],
        input_len: usize,
        offsets: LayerOffsets,
        params: LayerParams,
        read_halfway: bool,
    ) -> (p: Plan)
        requires
            input_len * 4 <= u64::MAX,
            lengths_fit(shape_of(params)),
            params.head_count > 0,
            stepwise_kv_size(params) <= u64::MAX,
        ensures
            p@ == stepwise_model(slots@, input_len, offsets, params, read_halfway),
    {
        let s = compute_layer_sizes(&layer_shape(&params));
        let size: u64 = params.dim as u64 * 4;
        let ghost per_head = params.dim as int / params.head_count as int;
        proof {
            assert(0 <= per_head <= params.dim) by (nonlinear_arith)
                requires
                    per_head == params.dim as int / params.head_count as int,
                    params.head_count > 0,
                    params.dim >= 0,
            ;
            assert(0 <= per_head * params.head_count_kv <= u32::MAX * u32::MAX) by (nonlinear_arith)
                requires
                    0 <= per_head <= u32::MAX,
                    0 <= params.head_count_kv <= u32::MAX,
            ;
        }
        let kv_size: u64 = (params.dim as u64 / params.head_count as u64) * (params.head_count_kv
            as u64) * TEST_CONTEXT * 4;
        let cache = CacheParams {
            current_pos: 0,
            seq_len: 1,
            max_seq_len: 2048,
            batch_size: 1,
            logical_pos_base: 0,
            pad1: 0,
            pad2: 0,
            pad3: 0,
        };
        let mut buffers = state_buffers_exec(input_len, &params);
        buffers.push(NewBuffer { buf: Buf::Cache(CacheKind::K, 0), size: kv_size });
        buffers.push(NewBuffer { buf: Buf::Cache(CacheKind::V, 0), size: kv_size });
        buffers.push(NewBuffer { buf: Buf::Read(0), size });
        buffers.push(NewBuffer { buf: Buf::Read(1), size });
        let mut steps: Vec<Step> = vec![
            Step::Run { kernel: Kernel::AttnNorm, group: 0, x: s.wg_dim, y: 1, z: 1 },
            Step::Run { kernel: Kernel::Qkv, group: 0, x: s.wg_qkv, y: 1, z: 1 },
            Step::Run { kernel: Kernel::QkNorm, group: 0, x: s.wg_qknorm, y: 1, z: 1 },
            Step::Run { kernel: Kernel::AttnOut, group: 0, x: s.wg_dim, y: 1, z: 1 },
            Step::Run { kernel: Kernel::AttnProj, group: 0, x: s.wg_dim, y: 1, z: 1 },
        ];
        let mut reads: Vec<Buf> = Vec::new();
        if read_halfway {
            steps.push(Step::Copy { from: Buf::Activation, at: 0, to: Buf::Read(0), size });
            reads.push(Buf::Read(0));
        }
        steps.push(Step::Run { kernel: Kernel::FfnNorm, group: 0, x: 1, y: 1, z: 1 });
        steps.push(Step::Run { kernel: Kernel::FfnProj, group: 0, x: s.wg_ffn, y: 1, z: 1 });
        steps.push(Step::Run { kernel: Kernel::FfnDown, group: 0, x: s.wg_dim, y: 1, z: 1 });
        steps.push(Step::Copy { from: Buf::Activation, at: 0, to: Buf::Read(1), size });
        steps.push(Step::Submit);
        reads.push(Buf::Read(1));
        let group = layer_bind_group(
            slots,
            0,
            Buf::Cache(CacheKind::K, 0),
            Buf::Cache(CacheKind::V, 0),
            Buf::CacheParams,
        );
        let p = Plan {
            buffers,
            filled: vec![Buf::Activation],
            uniforms: layer_uniform_blocks(0, &offsets, &params, &cache),
            groups: vec![group],
            steps,
            reads,
        };
        assert(p@ =~~= stepwise_model(slots@, input_len, offsets, params, read_halfway));
        p
    }
}

impl BindlessPipeline {
    /// Plans a layer on a first token and reads the residual stream at its end.
    pub fn run_layer_test(
        &self,
        slots: &[BlobBinding; BLOB_BINDING_SLOTS],
        input_len: usize,
        offsets: LayerOffsets,
        params: LayerParams,
    ) -> (p: Plan)
        requires
            input_len * 4 <= u64::MAX,
            lengths_fit(shape_of(params)),
            params.head_count > 0,
            stepwise_kv_size(params) <= u64::MAX,
        ensures
            p@ == stepwise_model(slots@, input_len, offsets, params, false),
    {
        self.run_layer_stepwise_test(slots, input_len, offsets, params, false)
    }
}

/// A layer on one token with the KV cache.
pub open spec fn cached_layer_model(
    slots: Seq<BlobBinding>,
    cache: CacheState,
    layer: usize,
    input_len: usize,
    offsets: LayerOffsets,
    params: LayerParams,
) -> PlanModel {
    let s = layer_sizes(shape_of(params));
    let size = (params.dim * 4) as u64;
    PlanModel {
        buffers: state_buffers(input_len, params).push(NewBuffer { buf: Buf::Read(0), size }),
        uniforms: layer_uniforms(layer, offsets, params, append_params(cache)),
        groups: seq![cached_layer_group(slots, layer)],
        steps: seq![
            on_token(Kernel::AttnNorm, s.wg_dim),
            on_token(Kernel::Qkv, s.wg_qkv),
            on_token(Kernel::QkNorm, s.wg_qknorm),
            on_token(Kernel::AttnOut, s.wg_dim),
            on_token(Kernel::AttnProj, s.wg_dim),
            on_token(Kernel::PostAttnNorm, s.wg_dim),
            on_token(Kernel::FfnNorm, 1),
            on_token(Kernel::FfnProj, s.wg_ffn),
            on_token(Kernel::FfnDown, s.wg_dim),
            on_token(Kernel::PostFfwNorm, s.wg_dim),
            read_back(Buf::Activation, 0, 0, size),
            Step::Submit,
        ],
        filled: seq![Buf::Activation],
        reads: seq![Buf::Read(0)],
    }
}

impl BindlessPipeline {
    /// Plans a layer on one token with the KV cache: new keys and values go to the
    /// cache's next position, and attention reads all positions up to it.
    ///
    /// The cache does not grow here: the caller increments it once per token, behind
    /// the last layer.
    pub fn run_layer_with_cache(
        &self,
        slots: &[BlobBinding; BLOB_BINDING_SLOTS],
        kv_cache: &KVCache,
        layer_idx: usize,
        input_len: usize,
        offsets: LayerOffsets,
        params: LayerParams,
    ) -> (p: Plan)
        requires
            input_len * 4 <= u64::MAX,
            lengths_fit(shape_of(params)),
            kv_cache@.seq_len < u32::MAX,
            layer_idx < kv_cache@.n_layers,
        ensures
            p@ == cached_layer_model(slots@, kv_cache@, layer_idx, input_len, offsets, params),
    {
        let s = compute_layer_sizes(&layer_shape(&params));
        let size: u64 = params.dim as u64 * 4;
        let cache = append_params_exec(kv_cache);
        let mut buffers = state_buffers_exec(input_len, &params);
        buffers.push(NewBuffer { buf: Buf::Read(0), size });
        let group = layer_bind_group(
            slots,
            layer_idx,
            Buf::Cache(CacheKind::K, layer_idx),
            Buf::Cache(CacheKind::V, layer_idx),
            Buf::CacheParams,
        );
        let p = Plan {
            buffers,
            uniforms: layer_uniform_blocks(layer_idx, &offsets, &params, &cache),
            groups: vec![group],
            steps: vec![
                Step::Run { kernel: Kernel::AttnNorm, group: 0, x: s.wg_dim, y: 1, z: 1 },
                Step::Run { kernel: Kernel::Qkv, group: 0, x: s.wg_qkv, y: 1, z: 1 },
                Step::Run { kernel: Kernel::QkNorm, group: 0, x: s.wg_qknorm, y: 1, z: 1 },
                Step::Run { kernel: Kernel::AttnOut, group: 0, x: s.wg_dim, y: 1, z: 1 },
                Step::Run { kernel: Kernel::AttnProj, group: 0, x: s.wg_dim, y: 1, z: 1 },
                Step::Run { kernel: Kernel::PostAttnNorm, group: 0, x: s.wg_dim, y: 1, z: 1 },
                Step::Run { kernel: Kernel::FfnNorm, group: 0, x: 1, y: 1, z: 1 },
                Step::Run { kernel: Kernel::FfnProj, group: 0, x: s.wg_ffn, y: 1, z: 1 },
                Step::Run { kernel: Kernel::FfnDown, group: 0, x: s.wg_dim, y: 1, z: 1 },
                Step::Run { kernel: Kernel::PostFfwNorm, group: 0, x: s.wg_dim, y: 1, z: 1 },
                Step::Copy { from: Buf::Activation, at: 0, to: Buf::Read(0), size },
                Step::Submit,
            ],
            filled: vec![Buf::Activation],
            reads: vec![Buf::Read(0)],
        };
        assert(p@ =~~= cached_layer_model(slots@, kv_cache@, layer_idx, input_len, offsets, params));
        p
    }
}

/// The uniforms that quantize from position `pos_offset` on.
pub open spec fn quantize_params(n_head_kv: u32, head_dim: u32, pos_offset: u32) -> QuantizeKvParams {
    QuantizeKvParams { n_head_kv, head_dim, pos_offset, _pad: 0 }
}

/// A layer on one token with the INT4 KV cache: what the projection writes to
/// the F32 cache is quantized, and attention reads the quantized cache.
pub open spec fn int4_layer_model(
    slots: Seq<BlobBinding>,
    cache: CacheState,
    layer: usize,
    input_len: usize,
    offsets: LayerOffsets,
    params: LayerParams,
) -> PlanModel {
    let s = layer_sizes(shape_of(params));
    let size = (params.dim * 4) as u64;
    PlanModel {
        buffers: state_buffers(input_len, params).push(NewBuffer { buf: Buf::Read(0), size }),
        uniforms: layer_uniforms(layer, offsets, params, append_params(cache)).push(
            UniformModel {
                buf: Buf::Uniforms(0),
                words: quantize_params(
                    params.head_count_kv,
                    params.head_dim,
                    cache.seq_len,
                ).block(),
            },
        ),
        groups: seq![
            cached_layer_group(slots, layer),
            int4_group(slots, layer),
            quantize_group(layer, 0),
        ],
        steps: seq![
            on_token(Kernel::AttnNorm, s.wg_dim),
            on_token(Kernel::Qkv, s.wg_qkv),
            on_token(Kernel::QkNorm, s.wg_qknorm),
            Step::Run {
                kernel: Kernel::QuantizeKv,
                group: 2,
                x: params.head_count_kv,
                y: 1,
                z: 1,
            },
            Step::Run { kernel: Kernel::AttnOutInt4, group: 1, x: s.wg_dim, y: 1, z: 1 },
            on_token(Kernel::AttnProj, s.wg_dim),
            on_token(Kernel::PostAttnNorm, s.wg_dim),
            on_token(Kernel::FfnProj, s.wg_ffn),
            on_token(Kernel::FfnDown, s.wg_dim),
            on_token(Kernel::PostFfwNorm, s.wg_dim),
            read_back(Buf::Activation, 0, 0, size),
            Step::Submit,
        ],
        filled: seq![Buf::Activation],
        reads: seq![Buf::Read(0)],
    }
}

impl BindlessPipeline {
    /// Plans a layer on one token with an INT4 KV cache.
    pub fn run_layer_with_cache_int4(
        &self,
        slots: &[BlobBinding; BLOB_BINDING_SLOTS],
        kv_cache: &KVCache,
        layer_idx: usize,
        input_len: usize,
        offsets: LayerOffsets,
        params: LayerParams,
    ) -> (p: Plan)
        requires
            input_len * 4 <= u64::MAX,
            lengths_fit(shape_of(params)),
            kv_cache@.seq_len < u32::MAX,
            layer_idx < kv_cache@.n_layers,
            kv_cache@.int4,
        ensures
            p@ == int4_layer_model(slots@, kv_cache@, layer_idx, input_len, offsets, params),
    {
        let s = compute_layer_sizes(&layer_shape(&params));
        let size: u64 = params.dim as u64 * 4;
        let cache = append_params_exec(kv_cache);
        let quantize = QuantizeKvParams {
            n_head_kv: params.head_count_kv,
            head_dim: params.head_dim,
            pos_offset: kv_cache.get_seq_len(),
            _pad: 0,
        };
        let mut buffers = state_buffers_exec(input_len, &params);
        buffers.push(NewBuffer { buf: Buf::Read(0), size });
        let mut uniforms = layer_uniform_blocks(layer_idx, &offsets, &params, &cache);
        let ghost before = uniforms@;
        let words = quantize.words();
        uniforms.push(UniformBlock { buf: Buf::Uniforms(0), words });
        assert(uniforms@.map_values(|u: UniformBlock| u@) =~~= before.map_values(
            |u: UniformBlock| u@,
        ).push(UniformModel { buf: Buf::Uniforms(0), words: words@ }));
        let group = layer_bind_group(
            slots,
            layer_idx,
            Buf::Cache(CacheKind::K, layer_idx),
            Buf::Cache(CacheKind::V, layer_idx),
            Buf::CacheParams,
        );
        let p = Plan {
            buffers,
            uniforms,
            groups: vec![
                group,
                int4_bind_group(slots, layer_idx),
                quantize_bind_group(layer_idx, 0),
            ],
            steps: vec![
                Step::Run { kernel: Kernel::AttnNorm, group: 0, x: s.wg_dim, y: 1, z: 1 },
                Step::Run { kernel: Kernel::Qkv, group: 0, x: s.wg_qkv, y: 1, z: 1 },
                Step::Run { kernel: Kernel::QkNorm, group: 0, x: s.wg_qknorm, y: 1, z: 1 },
                Step::Run {
                    kernel: Kernel::QuantizeKv,
                    group: 2,
                    x: params.head_count_kv,
                    y: 1,
                    z: 1,
                },
                Step::Run { kernel: Kernel::AttnOutInt4, group: 1, x: s.wg_dim, y: 1, z: 1 },
                Step::Run { kernel: Kernel::AttnProj, group: 0, x: s.wg_dim, y: 1, z: 1 },
                Step::Run { kernel: Kernel::PostAttnNorm, group: 0, x: s.wg_dim, y: 1, z: 1 },
                Step::Run { kernel: Kernel::FfnProj, group: 0, x: s.wg_ffn, y: 1, z: 1 },
                Step::Run { kernel: Kernel::FfnDown, group: 0, x: s.wg_dim, y: 1, z: 1 },
                Step::Run { kernel: Kernel::PostFfwNorm, group: 0, x: s.wg_dim, y: 1, z: 1 },
                Step::Copy { from: Buf::Activation, at: 0, to: Buf::Read(0), size },
                Step::Submit,
            ],
            filled: vec![Buf::Activation],
            reads: vec![Buf::Read(0)],
        };
        assert(p@ =~~= int4_layer_model(slots@, kv_cache@, layer_idx, input_len, offsets, params));
        p
    }
}

/// Quantizing the first `seq_len` positions of the first `n_layers` layers.
pub open spec fn requantize_model(
    n_head_kv: u32,
    head_dim: u32,
    seq_len: u32,
    n_layers: usize,
) -> PlanModel {
    if seq_len == 0 {
        PlanModel {
            buffers: Seq::empty(),
            uniforms: Seq::empty(),
            groups: Seq::empty(),
            steps: Seq::empty(),
            filled: Seq::empty(),
            reads: Seq::empty(),
        }
    } else {
        PlanModel {
            buffers: Seq::empty(),
            uniforms: Seq::new(
                n_layers as nat,
                |l: int|
                    UniformModel {
                        buf: Buf::Uniforms(l as usize),
                        words: quantize_params(n_head_kv, head_dim, 0).block(),
                    },
            ),
            groups: Seq::new(n_layers as nat, |l: int| quantize_group(l as usize, l as usize)),
            steps: Seq::new(
                n_layers as nat,
                |l: int|
                    Step::Run {
                        kernel: Kernel::QuantizeKv,
                        group: l as usize,
                        x: n_head_kv,
                        y: seq_len,
                        z: 1,
                    },
            ).push(Step::Submit),
            filled: Seq::empty(),
            reads: Seq::empty(),
        }
    }
}

impl BindlessPipeline {
    /// Plans the quantization of all prefilled positions across every layer, one
    /// workgroup per head and position. Without positions there is nothing to do.
    pub fn requantize_all_kv_int4(
        &self,
        kv_cache: &KVCache,
        n_head_kv: u32,
        head_dim: u32,
        seq_len: u32,
        n_layers: usize,
    ) -> (p: Plan)
        requires
            seq_len > 0 && n_layers > 0 ==> kv_cache@.int4 && n_layers <= kv_cache@.n_layers,
        ensures
            p@ == requantize_model(n_head_kv, head_dim, seq_len, n_layers),
    {
        let ghost goal = requantize_model(n_head_kv, head_dim, seq_len, n_layers);
        let mut uniforms: Vec<UniformBlock> = Vec::new();
        let mut groups: Vec<BindGroup> = Vec::new();
        let mut steps: Vec<Step> = Vec::new();
        if seq_len > 0 {
            let params = QuantizeKvParams { n_head_kv, head_dim, pos_offset: 0, _pad: 0 };
            let mut layer: usize = 0;
            while layer < n_layers
                invariant
                    layer <= n_layers,
                    seq_len > 0,
                    goal == requantize_model(n_head_kv, head_dim, seq_len, n_layers),
                    params == quantize_params(n_head_kv, head_dim, 0),
                    uniforms@.len() == layer,
                    groups@.len() == layer,
                    steps@.len() == layer,
                    uniforms@.map_values(|u: UniformBlock| u@) =~~= goal.uniforms.take(layer as int),
                    groups@.map_values(|g: BindGroup| g@) =~~= goal.groups.take(layer as int),
                    steps@ =~= goal.steps.take(layer as int),
                decreases n_layers - layer,
            {
                let ghost u0 = uniforms@;
                let ghost g0 = groups@;
                let words = params.words();
                uniforms.push(UniformBlock { buf: Buf::Uniforms(layer), words });
                groups.push(quantize_bind_group(layer, layer));
                steps.push(
                    Step::Run {
                        kernel: Kernel::QuantizeKv,
                        group: layer,
                        x: n_head_kv,
                        y: seq_len,
                        z: 1,
                    },
                );
                proof {
                    assert(uniforms@.map_values(|u: UniformBlock| u@) =~~= u0.map_values(
                        |u: UniformBlock| u@,
                    ).push(UniformModel { buf: Buf::Uniforms(layer), words: words@ }));
                    assert(uniforms@.map_values(|u: UniformBlock| u@) =~~= goal.uniforms.take(
                        layer + 1,
                    ));
                    assert(groups@.map_values(|g: BindGroup| g@) =~~= g0.map_values(
                        |g: BindGroup| g@,
                    ).push(quantize_group(layer, layer)));
                    assert(groups@.map_values(|g: BindGroup| g@) =~~= goal.groups.take(layer + 1));
                    assert(steps@ =~= goal.steps.take(layer + 1));
                }
                layer += 1;
            }
            steps.push(Step::Submit);
            proof {
                assert(goal.uniforms.take(n_layers as int) =~~= goal.uniforms);
                assert(goal.groups.take(n_layers as int) =~~= goal.groups);
            }
        }
        let p = Plan {
            buffers: Vec::new(),
            filled: Vec::new(),
            uniforms,
            groups,
            steps,
            reads: Vec::new(),
        };
        assert(p@ =~~= goal);
        p
    }
}

/// First byte of a position's keys, or values.
pub open spec fn position_start(pos: u32, p: LayerParams) -> int {
    pos * p.head_count_kv * p.head_dim * 4
}

/// A layer on one token with the KV cache, whose inner results are read too:
/// the query, the position's keys and values, the residual stream behind the
/// attention part, and the output of the feed-forward part.
pub open spec fn debug_layer_model(
    slots: Seq<BlobBinding>,
    cache: CacheState,
    layer: usize,
    input_len: usize,
    offsets: LayerOffsets,
    params: LayerParams,
) -> PlanModel {
    let s = layer_sizes(shape_of(params));
    let size = (params.dim * 4) as u64;
    let q_size = (s.q_len * 4) as u64;
    let kv_size = (s.kv_len * 4) as u64;
    let kv_at = position_start(cache.seq_len, params) as u64;
    PlanModel {
        buffers: state_buffers(input_len, params) + seq![
            NewBuffer { buf: Buf::Read(0), size },
            NewBuffer { buf: Buf::Read(1), size },
            NewBuffer { buf: Buf::Read(2), size },
            NewBuffer { buf: Buf::Read(3), size: q_size },
            NewBuffer { buf: Buf::Read(4), size: kv_size },
            NewBuffer { buf: Buf::Read(5), size: kv_size },
        ],
        uniforms: layer_uniforms(layer, offsets, params, append_params(cache)),
        groups: seq![cached_layer_group(slots, layer)],
        steps: seq![
            on_token(Kernel::AttnNorm, s.wg_dim),
            on_token(Kernel::Qkv, s.wg_qkv),
            read_back(Buf::Temp, (params.dim * 4) as u64, 3, q_size),
            read_back(Buf::Cache(CacheKind::K, layer), kv_at, 4, kv_size),
            read_back(Buf::Cache(CacheKind::V, layer), kv_at, 5, kv_size),
            on_token(Kernel::QkNorm, s.wg_qknorm),
            on_token(Kernel::AttnOut, s.wg_dim),
            on_token(Kernel::AttnProj, s.wg_dim),
            on_token(Kernel::PostAttnNorm, s.wg_dim),
            read_back(Buf::Activation, 0, 1, size),
            on_token(Kernel::FfnNorm, 1),
            on_token(Kernel::FfnProj, s.wg_ffn),
            on_token(Kernel::FfnDown, s.wg_dim),
            on_token(Kernel::PostFfwNorm, s.wg_dim),
            read_back(Buf::Temp, (params.ffn_dim * 2 * 4) as u64, 2, size),
            read_back(Buf::Activation, 0, 0, size),
            Step::Submit,
        ],
        filled: seq![Buf::Activation],
        reads: seq![
            Buf::Read(0),
            Buf::Read(1),
            Buf::Read(2),
            Buf::Read(3),
            Buf::Read(4),
            Buf::Read(5),
        ],
    }
}

impl BindlessPipeline {
    /// Plans a layer on one token with the KV cache and reads, in this order: its
    /// output, the residual stream behind the attention part, the output of the
    /// feed-forward part, query, keys and values.
    pub fn run_layer_with_cache_debug(
        &self,
        slots: &[BlobBinding; BLOB_BINDING_SLOTS],
        kv_cache: &KVCache,
        layer_idx: usize,
        input_len: usize,
        offsets: LayerOffsets,
        params: LayerParams,
    ) -> (p: Plan)
        requires
            input_len * 4 <= u64::MAX,
            lengths_fit(shape_of(params)),
            kv_cache@.seq_len < u32::MAX,
            layer_idx < kv_cache@.n_layers,
            position_start(kv_cache@.seq_len, params) <= u64::MAX,
        ensures
            p@ == debug_layer_model(slots@, kv_cache@, layer_idx, input_len, offsets, params),
    {
        let s = compute_layer_sizes(&layer_shape(&params));
        let size: u64 = params.dim as u64 * 4;
        let q_size: u64 = s.q_len as u64 * 4;
        let kv_size: u64 = s.kv_len as u64 * 4;
        let cache = append_params_exec(kv_cache);
        proof {
            let pos = kv_cache@.seq_len;
            assert(pos * params.head_count_kv * params.head_dim == pos * s.kv_len) by (nonlinear_arith)
                requires
                    s.kv_len == params.head_count_kv * params.head_dim,
            ;
            assert(0 <= pos * s.kv_len) by (nonlinear_arith);
        }
        let kv_at: u64 = cache.current_pos as u64 * s.kv_len as u64 * 4;
        let mut buffers = state_buffers_exec(input_len, &params);
        buffers.push(NewBuffer { buf: Buf::Read(0), size });
        buffers.push(NewBuffer { buf: Buf::Read(1), size });
        buffers.push(NewBuffer { buf: Buf::Read(2), size });
        buffers.push(NewBuffer { buf: Buf::Read(3), size: q_size });
        buffers.push(NewBuffer { buf: Buf::Read(4), size: kv_size });
        buffers.push(NewBuffer { buf: Buf::Read(5), size: kv_size });
        let group = layer_bind_group(
            slots,
            layer_idx,
            Buf::Cache(CacheKind::K, layer_idx),
            Buf::Cache(CacheKind::V, layer_idx),
            Buf::CacheParams,
        );
        let p = Plan {
            buffers,
            uniforms: layer_uniform_blocks(layer_idx, &offsets, &params, &cache),
            groups: vec![group],
            steps: vec![
                Step::Run { kernel: Kernel::AttnNorm, group: 0, x: s.wg_dim, y: 1, z: 1 },
                Step::Run { kernel: Kernel::Qkv, group: 0, x: s.wg_qkv, y: 1, z: 1 },
                Step::Copy {
                    from: Buf::Temp,
                    at: params.dim as u64 * 4,
                    to: Buf::Read(3),
                    size: q_size,
                },
                Step::Copy {
                    from: Buf::Cache(CacheKind::K, layer_idx),
                    at: kv_at,
                    to: Buf::Read(4),
                    size: kv_size,
                },
                Step::Copy {
                    from: Buf::Cache(CacheKind::V, layer_idx),
                    at: kv_at,
                    to: Buf::Read(5),
                    size: kv_size,
                },
                Step::Run { kernel: Kernel::QkNorm, group: 0, x: s.wg_qknorm, y: 1, z: 1 },
                Step::Run { kernel: Kernel::AttnOut, group: 0, x: s.wg_dim, y: 1, z: 1 },
                Step::Run { kernel: Kernel::AttnProj, group: 0, x: s.wg_dim, y: 1, z: 1 },
                Step::Run { kernel: Kernel::PostAttnNorm, group: 0, x: s.wg_dim, y: 1, z: 1 },
                Step::Copy { from: Buf::Activation, at: 0, to: Buf::Read(1), size },
                Step::Run { kernel: Kernel::FfnNorm, group: 0, x: 1, y: 1, z: 1 },
                Step::Run { kernel: Kernel::FfnProj, group: 0, x: s.wg_ffn, y: 1, z: 1 },
                Step::Run { kernel: Kernel::FfnDown, group: 0, x: s.wg_dim, y: 1, z: 1 },
                Step::Run { kernel: Kernel::PostFfwNorm, group: 0, x: s.wg_dim, y: 1, z: 1 },
                Step::Copy {
                    from: Buf::Temp,
                    at: params.ffn_dim as u64 * 2 * 4,
                    to: Buf::Read(2),
                    size,
                },
                Step::Copy { from: Buf::Activation, at: 0, to: Buf::Read(0), size },
                Step::Submit,
            ],
            filled: vec![Buf::Activation],
            reads: vec![
                Buf::Read(0),
                Buf::Read(1),
                Buf::Read(2),
                Buf::Read(3),
                Buf::Read(4),
                Buf::Read(5),
            ],
        };
        assert(p@ =~~= debug_layer_model(slots@, kv_cache@, layer_idx, input_len, offsets, params));
        p
    }
}

/// What a debug run reads of the cache is the next position, all of it and nothing
/// else: it starts at the position's first element, ends where the following
/// position starts, and lies in the buffer.
pub proof fn law_debug_run_reads_next_position(cache: CacheState, params: LayerParams)
    requires
        params.head_count_kv == cache.n_head_kv,
        params.head_dim == cache.head_dim,
        cache.seq_len < cache.max_seq_len,
        lengths_fit(shape_of(params)),
    ensures
        ({
            let from = position_start(cache.seq_len, params);
            let size = layer_sizes(shape_of(params)).kv_len * 4;
            &&& from == cache.offset(cache.seq_len as int, 0, 0)
            &&& from + size == cache.offset(cache.seq_len + 1, 0, 0)
            &&& from + size <= cache.size(CacheKind::K)
        }),
{
    let pos = cache.seq_len as int;
    let h = cache.n_head_kv as int;
    let d = cache.head_dim as int;
    let m = cache.max_seq_len as int;
    assert(0 <= h * d) by (nonlinear_arith)
        requires
            0 <= h,
            0 <= d,
    ;
    assert(pos * h * d * 4 + h * d * 4 == (pos + 1) * h * d * 4) by (nonlinear_arith);
    assert((pos + 1) * h * d <= m * h * d) by (nonlinear_arith)
        requires
            pos + 1 <= m,
            0 <= h,
            0 <= d,
    ;
    assert(0 * d == 0);
}

} // verus!
