//! Dispatch plans: which buffers a run needs, what its kernels bind, and in
//! which order they run.

use crate::kernels::{Kernel, Layout};
use crate::kv_cache::CacheKind;
use crate::loader::BLOB_BINDING_SLOTS;
use crate::window::BlobBinding;
use vstd::prelude::*;

verus! {

/// The buffers that plans speak of.
#[derive(Debug, Clone, Copy, PartialEq, Eq, Structural)]
pub enum Buf {
    /// The dummy that fills unused bindings.
    Dummy,
    /// A resident blob chunk.
    Chunk(usize),
    /// Raw tensor bytes that are no part of a loaded model.
    RawBlob,
    /// Norm weights of all layers.
    NormBank,
    /// The RoPE table.
    RopeCache,
    /// Input vector of a single kernel.
    Input,
    /// Output of a single kernel.
    Output,
    /// Dequantized weights.
    Weights,
    /// Residual stream.
    Activation,
    /// Second residual stream.
    ActivationB,
    /// Scratch space per token.
    Temp,
    /// Tensor offsets of a layer.
    Offsets(usize),
    /// Layer uniforms of a layer.
    Params(usize),
    /// Cache uniforms.
    CacheParams,
    /// Other uniforms of a run.
    Uniforms(usize),
    /// A buffer of the KV cache.
    Cache(CacheKind, usize),
    /// A snapshot of a buffer of the KV cache.
    Scratch(CacheKind),
    /// Keys and values of one position, in one buffer.
    LocalKv,
    /// Output of the head.
    Logits,
    /// Output of the final norm, for reading.
    FinalNorm,
    /// Input of the final norm, for reading.
    PreNorm,
    /// Buffers that the host reads.
    Read(usize),
    /// The vision model's file.
    VisionBlob,
    /// Residual stream of the vision model.
    VisionActivations,
    /// Query, key and value scratch of the vision model.
    VisionKqv,
    /// Feed-forward scratch of the vision model.
    VisionFfn,
    /// Output of the vision model.
    VisionFeatures,
    /// Queries of the resampler.
    QueryState,
    /// Keys and values of the resampler.
    KvState,
}

/// What a binding holds.
#[derive(Debug, Clone, Copy, PartialEq, Eq, Structural)]
pub enum Source {
    /// A whole buffer.
    Whole(Buf),
    /// Some bytes of a buffer: from the first number on, as many as the second.
    Part(Buf, u64, u64),
    /// A blob slot.
    Blob(BlobBinding),
}

/// One binding of a bind group.
#[derive(Debug, Clone, Copy, PartialEq, Eq, Structural)]
pub struct Entry {
    pub binding: u32,
    pub source: Source,
}

/// A bind group.
#[derive(Debug)]
pub struct BindGroup {
    pub layout: Layout,
    pub entries: Vec<Entry>,
}

/// What a [`BindGroup`] stands for.
#[verifier::ext_equal]
pub struct GroupModel {
    pub layout: Layout,
    pub entries: Seq<Entry>,
}

impl View for BindGroup {
    type V = GroupModel;

    open spec fn view(&self) -> GroupModel {
        GroupModel { layout: self.layout, entries: self.entries@ }
    }
}

/// A buffer to create, and its size in bytes.
#[derive(Debug, Clone, Copy, PartialEq, Eq, Structural)]
pub struct NewBuffer {
    pub buf: Buf,
    pub size: u64,
}

/// A uniform buffer to create, and the words it holds.
#[derive(Debug)]
pub struct UniformBlock {
    pub buf: Buf,
    pub words: Vec<u32>,
}

/// What a [`UniformBlock`] stands for.
#[verifier::ext_equal]
pub struct UniformModel {
    pub buf: Buf,
    pub words: Seq<u32>,
}

impl View for UniformBlock {
    type V = UniformModel;

    open spec fn view(&self) -> UniformModel {
        UniformModel { buf: self.buf, words: self.words@ }
    }
}

/// A step of a run.
#[derive(Debug, Clone, Copy, PartialEq, Eq, Structural)]
pub enum Step {
    /// Runs a kernel in a compute pass of its own, with the bind group of this
    /// number and this many workgroups.
    Run { kernel: Kernel, group: usize, x: u32, y: u32, z: u32 },
    /// Copies bytes from a buffer, from `at` on, to the start of another.
    Copy { from: Buf, at: u64, to: Buf, size: u64 },
    /// Submits what was recorded.
    Submit,
    /// Submits what was recorded and waits for it.
    ForceYield,
    /// Submits what was recorded and waits for it, if the time budget is used up.
    YieldIfNeeded,
    /// Rewrites the uniforms of a layer for a chunk of the batch.
    SetChunk { layer: usize, batch_offset: u32, batch_count: u32 },
    /// Shows the residual stream behind a layer, for tracing.
    Trace(usize),
}

/// A dispatch plan.
#[derive(Debug)]
pub struct Plan {
    /// Buffers to create.
    pub buffers: Vec<NewBuffer>,
    /// Those among them that start with the bytes that the caller hands in.
    pub filled: Vec<Buf>,
    /// Uniform buffers to create.
    pub uniforms: Vec<UniformBlock>,
    /// Bind groups to create.
    pub groups: Vec<BindGroup>,
    /// What to do, in order.
    pub steps: Vec<Step>,
    /// Buffers to read when all is done.
    pub reads: Vec<Buf>,
}

/// What a [`Plan`] stands for.
#[verifier::ext_equal]
pub struct PlanModel {
    pub buffers: Seq<NewBuffer>,
    pub filled: Seq<Buf>,
    pub uniforms: Seq<UniformModel>,
    pub groups: Seq<GroupModel>,
    pub steps: Seq<Step>,
    pub reads: Seq<Buf>,
}

impl View for Plan {
    type V = PlanModel;

    open spec fn view(&self) -> PlanModel {
        PlanModel {
            buffers: self.buffers@,
            filled: self.filled@,
            uniforms: self.uniforms@.map_values(|u: UniformBlock| u@),
            groups: self.groups@.map_values(|g: BindGroup| g@),
            steps: self.steps@,
            reads: self.reads@,
        }
    }
}

/// A binding of a whole buffer.
pub open spec fn whole(binding: u32, buf: Buf) -> Entry {
    Entry { binding, source: Source::Whole(buf) }
}

/// A binding of a blob slot.
pub open spec fn slot(binding: u32, blob: BlobBinding) -> Entry {
    Entry { binding, source: Source::Blob(blob) }
}

/// The bindings of the blob slots 1 to 7.
pub open spec fn further_slot_entries(slots: Seq<BlobBinding>) -> Seq<Entry> {
    Seq::new(7, |i: int| slot((10 + i) as u32, slots[i + 1]))
}

pub(crate) fn push_whole(entries: &mut Vec<Entry>, binding: u32, buf: Buf)
    ensures
        final(entries)@ == old(entries)@.push(whole(binding, buf)),
{
    entries.push(Entry { binding, source: Source::Whole(buf) });
}

pub(crate) fn push_slot(entries: &mut Vec<Entry>, binding: u32, blob: BlobBinding)
    ensures
        final(entries)@ == old(entries)@.push(slot(binding, blob)),
{
    entries.push(Entry { binding, source: Source::Blob(blob) });
}

pub(crate) fn push_further_slots(
    entries: &mut Vec<Entry>,
    slots: &[BlobBinding; BLOB_BINDING_SLOTS],
)
    ensures
        final(entries)@ == old(entries)@ + further_slot_entries(slots@),
{
    let ghost all = further_slot_entries(slots@);
    let mut i: usize = 0;
    while i < 7
        invariant
            i <= 7,
            all == further_slot_entries(slots@),
            entries@ == old(entries)@ + all.take(i as int),
        decreases 7 - i,
    {
        entries.push(Entry { binding: 10 + i as u32, source: Source::Blob(slots[i + 1]) });
        i += 1;
        assert(entries@ =~= old(entries)@ + all.take(i as int));
    }
    assert(all.take(7) =~= all);
}

} // verus!
