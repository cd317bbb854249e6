//! Plans of single kernels: probe, dequantization, matrix products, norms and
//! the output head.

use crate::dispatch::{
    further_slot_entries, push_further_slots, push_slot, push_whole, slot, whole, BindGroup, Buf,
    Entry, GroupModel, NewBuffer, Plan, PlanModel, Step, UniformBlock, UniformModel,
};
use crate::kernels::{BindlessPipeline, Kernel, Layout};
use crate::loader::BLOB_BINDING_SLOTS;
use crate::num::{ceil_div, div_ceil_u32, div_ceil_u64, low_u32};
use crate::params::{
    DequantAnyParams, DequantParams, MatMulParams, RMSNormParams,
};
use crate::quant::{formula_index_for_ggml, formula_slot};
use crate::window::BlobBinding;
use vstd::prelude::*;

verus! {

/// A run of one kernel that writes `Output`, which the host then reads. Its inputs
/// start with what the caller hands in.
pub open spec fn one_kernel(
    inputs: Seq<NewBuffer>,
    output_size: u64,
    words: Seq<u32>,
    group: GroupModel,
    kernel: Kernel,
    x: u32,
) -> PlanModel {
    PlanModel {
        buffers: inputs + seq![
            NewBuffer { buf: Buf::Output, size: output_size },
            NewBuffer { buf: Buf::Read(0), size: output_size },
        ],
        uniforms: seq![UniformModel { buf: Buf::Uniforms(0), words }],
        groups: seq![group],
        steps: seq![
            Step::Run { kernel, group: 0, x, y: 1, z: 1 },
            Step::Copy { from: Buf::Output, at: 0, to: Buf::Read(0), size: output_size },
            Step::Submit,
        ],
        filled: inputs.map_values(|b: NewBuffer| b.buf),
        reads: seq![Buf::Read(0)],
    }
}

fn bufs_of(buffers: &Vec<NewBuffer>) -> (bufs: Vec<Buf>)
    ensures
        bufs@ == buffers@.map_values(|b: NewBuffer| b.buf),
{
    let ghost all = buffers@.map_values(|b: NewBuffer| b.buf);
    let mut bufs: Vec<Buf> = Vec::new();
    let mut i: usize = 0;
    while i < buffers.len()
        invariant
            i <= buffers@.len(),
            all == buffers@.map_values(|b: NewBuffer| b.buf),
            bufs@ == all.take(i as int),
        decreases buffers@.len() - i,
    {
        bufs.push(buffers[i].buf);
        i += 1;
        assert(bufs@ =~= all.take(i as int));
    }
    assert(bufs@ =~= all);
    bufs
}

pub(crate) fn one_kernel_plan(
    inputs: Vec<NewBuffer>,
    output_size: u64,
    words: Vec<u32>,
    group: BindGroup,
    kernel: Kernel,
    x: u32,
) -> (p: Plan)
    ensures
        p@ == one_kernel(inputs@, output_size, words@, group@, kernel, x),
{
    let filled = bufs_of(&inputs);
    let mut buffers = inputs;
    buffers.push(NewBuffer { buf: Buf::Output, size: output_size });
    buffers.push(NewBuffer { buf: Buf::Read(0), size: output_size });
    let uniforms: Vec<UniformBlock> = vec![UniformBlock { buf: Buf::Uniforms(0), words }];
    let groups: Vec<BindGroup> = vec![group];
    let steps: Vec<Step> = vec![
        Step::Run { kernel, group: 0, x, y: 1, z: 1 },
        Step::Copy { from: Buf::Output, at: 0, to: Buf::Read(0), size: output_size },
        Step::Submit,
    ];
    let reads: Vec<Buf> = vec![Buf::Read(0)];
    let p = Plan { buffers, filled, uniforms, groups, steps, reads };
    assert(p@ =~~= one_kernel(inputs@, output_size, words@, group@, kernel, x));
    p
}

/// The probe: copies the first two words of the blob.
pub open spec fn probe_model(slots: Seq<BlobBinding>) -> PlanModel {
    PlanModel {
        buffers: seq![
            NewBuffer { buf: Buf::Output, size: 8 },
            NewBuffer { buf: Buf::Read(0), size: 8 },
        ],
        uniforms: Seq::empty(),
        groups: seq![
            GroupModel {
                layout: Layout::Probe,
                entries: seq![slot(0, slots[0]), whole(1, Buf::Output)],
            },
        ],
        steps: seq![
            Step::Run { kernel: Kernel::Probe, group: 0, x: 1, y: 1, z: 1 },
            Step::Copy { from: Buf::Output, at: 0, to: Buf::Read(0), size: 8 },
            Step::Submit,
        ],
        filled: Seq::empty(),
        reads: seq![Buf::Read(0)],
    }
}

impl BindlessPipeline {
    /// Plans the probe that verifies that the GGUF magic number can be read.
    pub fn run_probe(&self, slots: &[BlobBinding; BLOB_BINDING_SLOTS]) -> (p: Plan)
        ensures
            p@ == probe_model(slots@),
    {
        let mut entries: Vec<Entry> = Vec::new();
        push_slot(&mut entries, 0, slots[0]);
        push_whole(&mut entries, 1, Buf::Output);
        let p = Plan {
            buffers: vec![
                NewBuffer { buf: Buf::Output, size: 8 },
                NewBuffer { buf: Buf::Read(0), size: 8 },
            ],
            uniforms: Vec::new(),
            groups: vec![BindGroup { layout: Layout::Probe, entries }],
            steps: vec![
                Step::Run { kernel: Kernel::Probe, group: 0, x: 1, y: 1, z: 1 },
                Step::Copy { from: Buf::Output, at: 0, to: Buf::Read(0), size: 8 },
                Step::Submit,
            ],
            filled: Vec::new(),
            reads: vec![Buf::Read(0)],
        };
        assert(p@ =~~= probe_model(slots@));
        p
    }
}

/// The bind group of the Q4_0 dequant kernel.
pub open spec fn dequant_group(slots: Seq<BlobBinding>) -> GroupModel {
    GroupModel {
        layout: Layout::Dequant,
        entries: seq![slot(0, slots[0]), whole(1, Buf::Output), whole(2, Buf::Uniforms(0))],
    }
}

fn dequant_group_exec(slots: &[BlobBinding; BLOB_BINDING_SLOTS]) -> (g: BindGroup)
    ensures
        g@ == dequant_group(slots@),
{
    let mut entries: Vec<Entry> = Vec::new();
    push_slot(&mut entries, 0, slots[0]);
    push_whole(&mut entries, 1, Buf::Output);
    push_whole(&mut entries, 2, Buf::Uniforms(0));
    let g = BindGroup { layout: Layout::Dequant, entries };
    assert(g@ =~~= dequant_group(slots@));
    g
}

/// The dequantization of `count` Q4_0 elements from byte `offset_bytes` on.
pub open spec fn dequant_model(
    slots: Seq<BlobBinding>,
    offset_bytes: u32,
    count: u32,
) -> PlanModel {
    one_kernel(
        Seq::empty(),
        (count * 4) as u64,
        (DequantParams { offset_bytes, count, pad1: 0, pad2: 0 }).block(),
        dequant_group(slots),
        Kernel::Dequant,
        ceil_div(count as int, 64) as u32,
    )
}

impl BindlessPipeline {
    /// Plans the dequantization of the first 32 elements of the blob as Q4_0.
    pub fn run_dequant_test(&self, slots: &[BlobBinding; BLOB_BINDING_SLOTS]) -> (p: Plan)
        ensures
            p@ == one_kernel(
                Seq::empty(),
                128,
                (DequantParams { offset_bytes: 0, count: 32, pad1: 0, pad2: 0 }).block(),
                dequant_group(slots@),
                Kernel::Dequant,
                1,
            ),
            p@ == dequant_model(slots@, 0, 32),
    {
        let params = DequantParams { offset_bytes: 0, count: 32, pad1: 0, pad2: 0 };
        one_kernel_plan(
            Vec::new(),
            128,
            params.words(),
            dequant_group_exec(slots),
            Kernel::Dequant,
            1,
        )
    }
}

impl BindlessPipeline {
    /// Plans the dequantization of `count` Q4_0 elements from byte `offset_bytes` on,
    /// 64 elements per workgroup.
    pub fn run_dequant_request(
        &self,
        slots: &[BlobBinding; BLOB_BINDING_SLOTS],
        offset_bytes: u32,
        count: u32,
    ) -> (p: Plan)
        ensures
            p@ == one_kernel(
                Seq::empty(),
                (count * 4) as u64,
                (DequantParams { offset_bytes, count, pad1: 0, pad2: 0 }).block(),
                dequant_group(slots@),
                Kernel::Dequant,
                ceil_div(count as int, 64) as u32,
            ),
            p@ == dequant_model(slots@, offset_bytes, count),
    {
        let params = DequantParams { offset_bytes, count, pad1: 0, pad2: 0 };
        one_kernel_plan(
            Vec::new(),
            count as u64 * 4,
            params.words(),
            dequant_group_exec(slots),
            Kernel::Dequant,
            div_ceil_u32(count, 64),
        )
    }
}

/// The uniforms of a dequantization of any type. Offsets are word-granular.
pub open spec fn dequant_any_params(
    offset_bytes: u32,
    count: u32,
    quant_type: u32,
    chunk_words: u32,
) -> DequantAnyParams {
    DequantAnyParams {
        blob_base_words: 0,
        offset_words: offset_bytes / 4,
        count,
        formula_index: formula_slot(quant_type),
        chunk_words,
    }
}

/// The bind group of a dequantization of raw bytes: they stand in blob slot 0.
pub open spec fn raw_dequant_group() -> GroupModel {
    GroupModel {
        layout: Layout::DequantAny,
        entries: seq![
            whole(0, Buf::RawBlob),
            whole(1, Buf::Output),
            whole(2, Buf::Uniforms(0)),
        ] + Seq::new(7, |i: int| whole((10 + i) as u32, Buf::Dummy)),
    }
}

/// `bytes` with zero bytes behind them up to a whole number of words.
pub open spec fn padded_to_words(bytes: Seq<u8>) -> Seq<u8> {
    bytes + Seq::new((ceil_div(bytes.len() as int, 4) * 4 - bytes.len()) as nat, |i: int| 0u8)
}

/// Pads bytes with zeros to a whole number of words.
pub fn pad_to_words(bytes: &[u8]) -> (r: Vec<u8>)
    requires
        bytes@.len() <= usize::MAX - 3,
    ensures
        r@ == padded_to_words(bytes@),
        r@.len() % 4 == 0,
{
    let mut r: Vec<u8> = vstd::slice::slice_to_vec(bytes);
    let ghost all = padded_to_words(bytes@);
    assert(r@ =~= all.take(bytes@.len() as int));
    while r.len() % 4 != 0
        invariant
            all == padded_to_words(bytes@),
            bytes@.len() <= r@.len() <= all.len(),
            all.len() % 4 == 0,
            all.len() < bytes@.len() + 4,
            bytes@.len() <= usize::MAX - 3,
            r@ == all.take(r@.len() as int),
        decreases all.len() - r@.len(),
    {
        let ghost before = r@;
        r.push(0);
        assert(r@ =~= all.take(r@.len() as int));
    }
    assert(r@ =~= all);
    r
}

/// The dequantization of `count` elements out of `blob_len` raw bytes.
pub open spec fn raw_dequant_model(
    blob_len: usize,
    offset_bytes: u32,
    count: u32,
    quant_type: u32,
) -> PlanModel {
    let words = ceil_div(blob_len as int, 4);
    one_kernel(
        seq![NewBuffer { buf: Buf::RawBlob, size: (words * 4) as u64 }],
        (count * 4) as u64,
        dequant_any_params(
            offset_bytes,
            count,
            quant_type,
            (words % 0x1_0000_0000) as u32,
        ).block(),
        raw_dequant_group(),
        Kernel::DequantAny,
        ceil_div(count as int, 64) as u32,
    )
}

impl BindlessPipeline {
    /// Plans the dequantization of `count` elements of any supported type out of raw
    /// bytes, `blob_len` of them, that stand in a buffer of their own.
    ///
    /// The buffer is one chunk, padded to whole words.
    pub fn run_dequant_any_blob(
        &self,
        blob_len: usize,
        offset_bytes: u32,
        count: u32,
        quant_type: u32,
    ) -> (p: Plan)
        requires
            blob_len <= usize::MAX - 3,
        ensures
            ({
                let words = ceil_div(blob_len as int, 4);
                p@ == one_kernel(
                    seq![NewBuffer { buf: Buf::RawBlob, size: (words * 4) as u64 }],
                    (count * 4) as u64,
                    dequant_any_params(
                        offset_bytes,
                        count,
                        quant_type,
                        (words % 0x1_0000_0000) as u32,
                    ).block(),
                    raw_dequant_group(),
                    Kernel::DequantAny,
                    ceil_div(count as int, 64) as u32,
                )
            }),
            p@ == raw_dequant_model(blob_len, offset_bytes, count, quant_type),
    {
        let words: u64 = div_ceil_u64(blob_len as u64, 4);
        let params = DequantAnyParams {
            blob_base_words: 0,
            offset_words: offset_bytes / 4,
            count,
            formula_index: formula_index_for_ggml(quant_type),
            chunk_words: low_u32(words),
        };
        let mut entries: Vec<Entry> = Vec::new();
        push_whole(&mut entries, 0, Buf::RawBlob);
        push_whole(&mut entries, 1, Buf::Output);
        push_whole(&mut entries, 2, Buf::Uniforms(0));
        push_whole(&mut entries, 10, Buf::Dummy);
        push_whole(&mut entries, 11, Buf::Dummy);
        push_whole(&mut entries, 12, Buf::Dummy);
        push_whole(&mut entries, 13, Buf::Dummy);
        push_whole(&mut entries, 14, Buf::Dummy);
        push_whole(&mut entries, 15, Buf::Dummy);
        push_whole(&mut entries, 16, Buf::Dummy);
        let group = BindGroup { layout: Layout::DequantAny, entries };
        assert(group@ =~~= raw_dequant_group());
        let inputs: Vec<NewBuffer> = vec![NewBuffer { buf: Buf::RawBlob, size: words * 4 }];
        assert(inputs@ =~= seq![
            NewBuffer { buf: Buf::RawBlob, size: (words * 4) as u64 },
        ]);
        one_kernel_plan(
            inputs,
            count as u64 * 4,
            params.words(),
            group,
            Kernel::DequantAny,
            div_ceil_u32(count, 64),
        )
    }
}

/// The bind group of a dequantization out of a loaded model.
pub open spec fn dequant_any_group(slots: Seq<BlobBinding>) -> GroupModel {
    GroupModel {
        layout: Layout::DequantAny,
        entries: seq![slot(0, slots[0]), whole(1, Buf::Output), whole(2, Buf::Uniforms(0))]
            + further_slot_entries(slots),
    }
}

/// The dequantization of `count` elements out of a loaded model.
pub open spec fn dequant_any_model(
    slots: Seq<BlobBinding>,
    chunk_words: u32,
    offset_bytes: u32,
    count: u32,
    quant_type: u32,
) -> PlanModel {
    one_kernel(
        Seq::empty(),
        (count * 4) as u64,
        dequant_any_params(offset_bytes, count, quant_type, chunk_words).block(),
        dequant_any_group(slots),
        Kernel::DequantAny,
        ceil_div(count as int, 64) as u32,
    )
}

impl BindlessPipeline {
    /// Plans the dequantization of `count` elements of any supported type from byte
    /// `offset_bytes` of a loaded model on.
    pub fn run_dequant_any_request(
        &self,
        slots: &[BlobBinding; BLOB_BINDING_SLOTS],
        chunk_words: u32,
        offset_bytes: u32,
        count: u32,
        quant_type: u32,
    ) -> (p: Plan)
        ensures
            p@ == one_kernel(
                Seq::empty(),
                (count * 4) as u64,
                dequant_any_params(offset_bytes, count, quant_type, chunk_words).block(),
                dequant_any_group(slots@),
                Kernel::DequantAny,
                ceil_div(count as int, 64) as u32,
            ),
            p@ == dequant_any_model(slots@, chunk_words, offset_bytes, count, quant_type),
    {
        let params = DequantAnyParams {
            blob_base_words: 0,
            offset_words: offset_bytes / 4,
            count,
            formula_index: formula_index_for_ggml(quant_type),
            chunk_words,
        };
        let mut entries: Vec<Entry> = Vec::new();
        push_slot(&mut entries, 0, slots[0]);
        push_whole(&mut entries, 1, Buf::Output);
        push_whole(&mut entries, 2, Buf::Uniforms(0));
        push_further_slots(&mut entries, slots);
        let group = BindGroup { layout: Layout::DequantAny, entries };
        assert(group@ =~~= dequant_any_group(slots@));
        one_kernel_plan(
            Vec::new(),
            count as u64 * 4,
            params.words(),
            group,
            Kernel::DequantAny,
            div_ceil_u32(count, 64),
        )
    }
}

/// Reading the first chunk of a model back to the host.
pub open spec fn chunk_readback(size: u64) -> PlanModel {
    PlanModel {
        buffers: seq![NewBuffer { buf: Buf::Read(0), size }],
        uniforms: Seq::empty(),
        groups: Seq::empty(),
        steps: seq![
            Step::Copy { from: Buf::Chunk(0), at: 0, to: Buf::Read(0), size },
            Step::Submit,
        ],
        filled: Seq::empty(),
        reads: seq![Buf::Read(0)],
    }
}

impl BindlessPipeline {
    /// Plans the first half of a hot-path dequantization: the raw bytes of the
    /// model's first chunk, which [`Self::run_dequant_any_blob`] then takes.
    pub fn run_dequant_any_hot(&self, model: &crate::model::BindlessModel) -> (p: Plan)
        requires
            model.blobs@.len() > 0,
        ensures
            p@ == chunk_readback(model.blobs@[0].len),
    {
        let size: u64 = model.blobs[0].len;
        let p = Plan {
            buffers: vec![NewBuffer { buf: Buf::Read(0), size }],
            uniforms: Vec::new(),
            groups: Vec::new(),
            steps: vec![
                Step::Copy { from: Buf::Chunk(0), at: 0, to: Buf::Read(0), size },
                Step::Submit,
            ],
            filled: Vec::new(),
            reads: vec![Buf::Read(0)],
        };
        assert(p@ =~~= chunk_readback(size));
        p
    }
}

/// The buffer of an input vector of `len` floats.
pub open spec fn input_buffer(len: usize) -> Seq<NewBuffer> {
    seq![NewBuffer { buf: Buf::Input, size: (len * 4) as u64 }]
}

pub(crate) fn input_buffer_exec(len: usize) -> (v: Vec<NewBuffer>)
    requires
        len * 4 <= u64::MAX,
    ensures
        v@ == input_buffer(len),
{
    let v: Vec<NewBuffer> = vec![NewBuffer { buf: Buf::Input, size: len as u64 * 4 }];
    assert(v@ =~= input_buffer(len));
    v
}

/// The bind group of a product with quantized weights.
pub open spec fn matmul_group(slots: Seq<BlobBinding>) -> GroupModel {
    GroupModel {
        layout: Layout::MatMul,
        entries: seq![
            slot(0, slots[0]),
            whole(1, Buf::Input),
            whole(2, Buf::Output),
            whole(3, Buf::Uniforms(0)),
        ],
    }
}

/// The product of Q4_0 weights and an input vector.
pub open spec fn matmul_model(
    slots: Seq<BlobBinding>,
    input_len: usize,
    params: MatMulParams,
) -> PlanModel {
    one_kernel(
        input_buffer(input_len),
        (params.n * 4) as u64,
        params.block(),
        matmul_group(slots),
        Kernel::MatMul,
        ceil_div(params.n as int, 256) as u32,
    )
}

impl BindlessPipeline {
    /// Plans the product of Q4_0 weights and an input vector, 256 rows per workgroup.
    pub fn run_matmul_test(
        &self,
        slots: &[BlobBinding; BLOB_BINDING_SLOTS],
        input_len: usize,
        params: MatMulParams,
    ) -> (p: Plan)
        requires
            input_len * 4 <= u64::MAX,
        ensures
            p@ == one_kernel(
                input_buffer(input_len),
                (params.n * 4) as u64,
                params.block(),
                matmul_group(slots@),
                Kernel::MatMul,
                ceil_div(params.n as int, 256) as u32,
            ),
            p@ == matmul_model(slots@, input_len, params),
    {
        let mut entries: Vec<Entry> = Vec::new();
        push_slot(&mut entries, 0, slots[0]);
        push_whole(&mut entries, 1, Buf::Input);
        push_whole(&mut entries, 2, Buf::Output);
        push_whole(&mut entries, 3, Buf::Uniforms(0));
        let group = BindGroup { layout: Layout::MatMul, entries };
        assert(group@ =~~= matmul_group(slots@));
        one_kernel_plan(
            input_buffer_exec(input_len),
            params.n as u64 * 4,
            params.words(),
            group,
            Kernel::MatMul,
            div_ceil_u32(params.n, 256),
        )
    }
}

/// The bind group of a product with dequantized weights.
pub open spec fn matmul_f32_group() -> GroupModel {
    GroupModel {
        layout: Layout::MatMulF32,
        entries: seq![
            whole(0, Buf::Weights),
            whole(1, Buf::Input),
            whole(2, Buf::Output),
            whole(3, Buf::Uniforms(0)),
        ],
    }
}

/// The product of dequantized weights and an input vector.
pub open spec fn matmul_f32_model(input_len: usize, n: u32, k: u32) -> PlanModel {
    one_kernel(
        input_buffer(input_len),
        (n * 4) as u64,
        (MatMulParams { n, k, weights_offset: 0, padding: 0 }).block(),
        matmul_f32_group(),
        Kernel::MatMulF32,
        ceil_div(n as int, 64) as u32,
    )
}

impl BindlessPipeline {
    /// Plans the product of pre-dequantized F32 weights and an input vector, 64 rows
    /// per workgroup.
    pub fn run_matmul_f32(&self, input_len: usize, n: u32, k: u32) -> (p: Plan)
        requires
            input_len * 4 <= u64::MAX,
        ensures
            p@ == one_kernel(
                input_buffer(input_len),
                (n * 4) as u64,
                (MatMulParams { n, k, weights_offset: 0, padding: 0 }).block(),
                matmul_f32_group(),
                Kernel::MatMulF32,
                ceil_div(n as int, 64) as u32,
            ),
            p@ == matmul_f32_model(input_len, n, k),
    {
        let params = MatMulParams { n, k, weights_offset: 0, padding: 0 };
        let mut entries: Vec<Entry> = Vec::new();
        push_whole(&mut entries, 0, Buf::Weights);
        push_whole(&mut entries, 1, Buf::Input);
        push_whole(&mut entries, 2, Buf::Output);
        push_whole(&mut entries, 3, Buf::Uniforms(0));
        let group = BindGroup { layout: Layout::MatMulF32, entries };
        assert(group@ =~~= matmul_f32_group());
        one_kernel_plan(
            input_buffer_exec(input_len),
            n as u64 * 4,
            params.words(),
            group,
            Kernel::MatMulF32,
            div_ceil_u32(n, 64),
        )
    }
}

/// The bind group of a norm of `Input`.
pub open spec fn rmsnorm_group(slots: Seq<BlobBinding>) -> GroupModel {
    GroupModel {
        layout: Layout::RmsNorm,
        entries: seq![
            slot(0, slots[0]),
            whole(1, Buf::Input),
            whole(2, Buf::Output),
            whole(3, Buf::Uniforms(0)),
        ] + further_slot_entries(slots),
    }
}

/// The norm of an input vector.
pub open spec fn rmsnorm_model(
    slots: Seq<BlobBinding>,
    input_len: usize,
    params: RMSNormParams,
) -> PlanModel {
    one_kernel(
        input_buffer(input_len),
        (params.count * 4) as u64,
        params.block(),
        rmsnorm_group(slots),
        Kernel::RmsNorm,
        1,
    )
}

impl BindlessPipeline {
    /// Plans the norm of an input vector, in one workgroup.
    pub fn run_rmsnorm_test(
        &self,
        slots: &[BlobBinding; BLOB_BINDING_SLOTS],
        input_len: usize,
        params: RMSNormParams,
    ) -> (p: Plan)
        requires
            input_len * 4 <= u64::MAX,
        ensures
            p@ == one_kernel(
                input_buffer(input_len),
                (params.count * 4) as u64,
                params.block(),
                rmsnorm_group(slots@),
                Kernel::RmsNorm,
                1,
            ),
            p@ == rmsnorm_model(slots@, input_len, params),
    {
        let mut entries: Vec<Entry> = Vec::new();
        push_slot(&mut entries, 0, slots[0]);
        push_whole(&mut entries, 1, Buf::Input);
        push_whole(&mut entries, 2, Buf::Output);
        push_whole(&mut entries, 3, Buf::Uniforms(0));
        push_further_slots(&mut entries, slots);
        let group = BindGroup { layout: Layout::RmsNorm, entries };
        assert(group@ =~~= rmsnorm_group(slots@));
        one_kernel_plan(
            input_buffer_exec(input_len),
            params.count as u64 * 4,
            params.words(),
            group,
            Kernel::RmsNorm,
            1,
        )
    }
}

/// Padding keeps the bytes, adds zeros behind them, and adds no more than it takes to
/// make whole words.
pub proof fn law_padding_makes_whole_words(bytes: Seq<u8>, i: int)
    ensures
        ({
            let r = padded_to_words(bytes);
            &&& r.len() % 4 == 0
            &&& bytes.len() <= r.len() < bytes.len() + 4
            &&& 0 <= i < bytes.len() ==> r[i] == bytes[i]
            &&& bytes.len() <= i < r.len() ==> r[i] == 0
        }),
{
    crate::num::law_groups_cover_items(bytes.len() as int, 4);
}

} // verus!
