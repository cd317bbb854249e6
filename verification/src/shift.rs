//! Plans of the context shift: dropping tokens out of the middle of a full KV
//! cache.
//!
//! A shift keeps the first `keep_sink` tokens, drops the `shift_amt` tokens behind
//! them and moves the rest down. The kernels copy; they read from a snapshot of
//! the cache, since source and destination may overlap.

use crate::dispatch::{
    push_whole, whole, BindGroup, Buf, Entry, GroupModel, NewBuffer, Plan, PlanModel, Source,
    Step, UniformBlock, UniformModel,
};
use crate::kernels::{layout_table, Access, Kernel, Layout, RopeShiftPipeline};
use crate::kv_cache::CacheKind;
use crate::num::{ceil_div, div_ceil_u32, law_groups_cover_items};
use crate::params::CompactionParams;
use vstd::prelude::*;

verus! {

/// Bits of the `f32` 10000.0, the RoPE base of an INT4 shift.
pub const DEFAULT_ROPE_BASE: u32 = 0x461C_4000;

/// How many tokens move: those behind what is kept and dropped.
pub open spec fn moved(p: CompactionParams) -> int {
    if p.old_seq_len > p.keep_sink + p.shift_amt {
        p.old_seq_len - (p.keep_sink + p.shift_amt)
    } else {
        0
    }
}

/// Computes how many tokens move.
pub fn elements_to_shift(p: &CompactionParams) -> (n: u32)
    requires
        p.keep_sink + p.shift_amt <= u32::MAX,
    ensures
        n == moved(*p),
{
    p.old_seq_len.saturating_sub(p.keep_sink + p.shift_amt)
}

/// Where the token at position `pos` ends up; `None` where it is dropped.
pub open spec fn position_after(p: CompactionParams, pos: int) -> Option<int> {
    if pos < p.keep_sink {
        Some(pos)
    } else if pos < p.keep_sink + p.shift_amt {
        None
    } else {
        Some(pos - p.shift_amt)
    }
}

/// The snapshot of `size` bytes of a layer's cache buffer.
pub open spec fn snapshot(kind: CacheKind, layer: usize, size: u64) -> Step {
    Step::Copy { from: Buf::Cache(kind, layer), at: 0, to: Buf::Scratch(kind), size }
}

/// The bind group of the F32 shift: reads the snapshots, writes the cache.
pub open spec fn shift_group(layer: usize) -> GroupModel {
    GroupModel {
        layout: Layout::RopeShift,
        entries: seq![
            whole(0, Buf::Scratch(CacheKind::K)),
            whole(1, Buf::Scratch(CacheKind::V)),
            whole(2, Buf::Cache(CacheKind::K, layer)),
            whole(3, Buf::Cache(CacheKind::V, layer)),
            whole(4, Buf::Uniforms(0)),
        ],
    }
}

/// The bind group of the INT4 shift.
pub open spec fn shift_int4_group(layer: usize) -> GroupModel {
    GroupModel {
        layout: Layout::RopeShiftInt4,
        entries: seq![
            whole(0, Buf::Uniforms(0)),
            whole(1, Buf::Scratch(CacheKind::KPacked)),
            whole(2, Buf::Scratch(CacheKind::KScale)),
            whole(3, Buf::Scratch(CacheKind::VPacked)),
            whole(4, Buf::Scratch(CacheKind::VScale)),
            whole(5, Buf::Cache(CacheKind::KPacked, layer)),
            whole(6, Buf::Cache(CacheKind::KScale, layer)),
            whole(7, Buf::Cache(CacheKind::VPacked, layer)),
            whole(8, Buf::Cache(CacheKind::VScale, layer)),
        ],
    }
}

/// The F32 shift: workgroups of 64 dimensions by 4 heads, one layer of them per
/// moved token.
pub open spec fn shift_run(p: CompactionParams) -> Step {
    Step::Run {
        kernel: Kernel::RopeShift,
        group: 0,
        x: ceil_div(p.head_dim as int, 64) as u32,
        y: ceil_div(p.n_head_kv as int, 4) as u32,
        z: moved(p) as u32,
    }
}

/// The INT4 shift, which moves words of 8 dimensions each.
pub open spec fn shift_int4_run(p: CompactionParams) -> Step {
    Step::Run {
        kernel: Kernel::RopeShiftInt4,
        group: 1,
        x: ceil_div(p.head_dim as int / 8, 64) as u32,
        y: ceil_div(p.n_head_kv as int, 4) as u32,
        z: moved(p) as u32,
    }
}

/// The shift of a layer's F32 cache, whose buffers have `size` bytes each. The
/// snapshots are taken even where no token moves.
pub open spec fn shift_model(layer: usize, size: u64, p: CompactionParams) -> PlanModel {
    PlanModel {
        buffers: seq![
            NewBuffer { buf: Buf::Scratch(CacheKind::K), size },
            NewBuffer { buf: Buf::Scratch(CacheKind::V), size },
        ],
        uniforms: seq![UniformModel { buf: Buf::Uniforms(0), words: p.block() }],
        groups: seq![shift_group(layer)],
        steps: seq![snapshot(CacheKind::K, layer, size), snapshot(CacheKind::V, layer, size)] + (
        if moved(p) > 0 {
            seq![shift_run(p)]
        } else {
            Seq::empty()
        }) + seq![Step::Submit],
        filled: Seq::empty(),
        reads: Seq::empty(),
    }
}

/// The uniforms of an INT4 shift: all of a head is rotated, with the default
/// base.
pub open spec fn int4_params(p: CompactionParams) -> CompactionParams {
    CompactionParams { rope_dim: p.head_dim, rope_base: DEFAULT_ROPE_BASE, ..p }
}

/// The shift of a layer's INT4 cache: its F32 staging buffers of `size` bytes, its
/// packed ones of `packed_size` and their scales of `scale_size`, in one
/// submission.
pub open spec fn shift_int4_model(
    layer: usize,
    size: u64,
    packed_size: u64,
    scale_size: u64,
    p: CompactionParams,
) -> PlanModel {
    PlanModel {
        buffers: seq![
            NewBuffer { buf: Buf::Scratch(CacheKind::K), size },
            NewBuffer { buf: Buf::Scratch(CacheKind::V), size },
            NewBuffer { buf: Buf::Scratch(CacheKind::KPacked), size: packed_size },
            NewBuffer { buf: Buf::Scratch(CacheKind::VPacked), size: packed_size },
            NewBuffer { buf: Buf::Scratch(CacheKind::KScale), size: scale_size },
            NewBuffer { buf: Buf::Scratch(CacheKind::VScale), size: scale_size },
        ],
        uniforms: seq![UniformModel { buf: Buf::Uniforms(0), words: int4_params(p).block() }],
        groups: seq![shift_group(layer), shift_int4_group(layer)],
        steps: seq![
            snapshot(CacheKind::K, layer, size),
            snapshot(CacheKind::V, layer, size),
            snapshot(CacheKind::KPacked, layer, packed_size),
            snapshot(CacheKind::VPacked, layer, packed_size),
            snapshot(CacheKind::KScale, layer, scale_size),
            snapshot(CacheKind::VScale, layer, scale_size),
            shift_run(p),
            shift_int4_run(p),
            Step::Submit,
        ],
        filled: Seq::empty(),
        reads: Seq::empty(),
    }
}

fn new_scratch(kind: CacheKind, size: u64) -> (b: NewBuffer)
    ensures
        b == (NewBuffer { buf: Buf::Scratch(kind), size }),
{
    NewBuffer { buf: Buf::Scratch(kind), size }
}

fn take_snapshot(kind: CacheKind, layer: usize, size: u64) -> (s: Step)
    ensures
        s == snapshot(kind, layer, size),
{
    Step::Copy { from: Buf::Cache(kind, layer), at: 0, to: Buf::Scratch(kind), size }
}

fn shift_bind_group(layer: usize) -> (g: BindGroup)
    ensures
        g@ == shift_group(layer),
{
    let mut entries: Vec<Entry> = Vec::new();
    push_whole(&mut entries, 0, Buf::Scratch(CacheKind::K));
    push_whole(&mut entries, 1, Buf::Scratch(CacheKind::V));
    push_whole(&mut entries, 2, Buf::Cache(CacheKind::K, layer));
    push_whole(&mut entries, 3, Buf::Cache(CacheKind::V, layer));
    push_whole(&mut entries, 4, Buf::Uniforms(0));
    let g = BindGroup { layout: Layout::RopeShift, entries };
    assert(g@ =~~= shift_group(layer));
    g
}

fn shift_int4_bind_group(layer: usize) -> (g: BindGroup)
    ensures
        g@ == shift_int4_group(layer),
{
    let mut entries: Vec<Entry> = Vec::new();
    push_whole(&mut entries, 0, Buf::Uniforms(0));
    push_whole(&mut entries, 1, Buf::Scratch(CacheKind::KPacked));
    push_whole(&mut entries, 2, Buf::Scratch(CacheKind::KScale));
    push_whole(&mut entries, 3, Buf::Scratch(CacheKind::VPacked));
    push_whole(&mut entries, 4, Buf::Scratch(CacheKind::VScale));
    push_whole(&mut entries, 5, Buf::Cache(CacheKind::KPacked, layer));
    push_whole(&mut entries, 6, Buf::Cache(CacheKind::KScale, layer));
    push_whole(&mut entries, 7, Buf::Cache(CacheKind::VPacked, layer));
    push_whole(&mut entries, 8, Buf::Cache(CacheKind::VScale, layer));
    let g = BindGroup { layout: Layout::RopeShiftInt4, entries };
    assert(g@ =~~= shift_int4_group(layer));
    g
}

fn shift_step(p: &CompactionParams) -> (s: Step)
    requires
        p.keep_sink + p.shift_amt <= u32::MAX,
    ensures
        s == shift_run(*p),
{
    Step::Run {
        kernel: Kernel::RopeShift,
        group: 0,
        x: div_ceil_u32(p.head_dim, 64),
        y: div_ceil_u32(p.n_head_kv, 4),
        z: elements_to_shift(p),
    }
}

fn shift_int4_step(p: &CompactionParams) -> (s: Step)
    requires
        p.keep_sink + p.shift_amt <= u32::MAX,
    ensures
        s == shift_int4_run(*p),
{
    Step::Run {
        kernel: Kernel::RopeShiftInt4,
        group: 1,
        x: div_ceil_u32(p.head_dim / 8, 64),
        y: div_ceil_u32(p.n_head_kv, 4),
        z: elements_to_shift(p),
    }
}

impl RopeShiftPipeline {
    /// Plans the shift of a layer's F32 cache.
    pub fn execute(&self, layer: usize, size: u64, params: &CompactionParams) -> (plan: Plan)
        requires
            params.keep_sink + params.shift_amt <= u32::MAX,
        ensures
            plan@ == shift_model(layer, size, *params),
    {
        let mut steps: Vec<Step> = vec![
            take_snapshot(CacheKind::K, layer, size),
            take_snapshot(CacheKind::V, layer, size),
        ];
        if elements_to_shift(params) > 0 {
            steps.push(shift_step(params));
        }
        steps.push(Step::Submit);
        let plan = Plan {
            buffers: vec![new_scratch(CacheKind::K, size), new_scratch(CacheKind::V, size)],
            uniforms: vec![UniformBlock { buf: Buf::Uniforms(0), words: params.words() }],
            groups: vec![shift_bind_group(layer)],
            steps,
            filled: Vec::new(),
            reads: Vec::new(),
        };
        assert(plan@ =~~= shift_model(layer, size, *params));
        plan
    }
}

impl RopeShiftPipeline {
    /// Plans the shift of a layer's INT4 cache; `None` where no token moves. Of the
    /// uniforms, the rotation is fixed: all of a head, with the default base.
    pub fn execute_int4(
        &self,
        layer: usize,
        size: u64,
        packed_size: u64,
        scale_size: u64,
        params: &CompactionParams,
    ) -> (r: Option<Plan>)
        requires
            params.keep_sink + params.shift_amt <= u32::MAX,
        ensures
            r is Some <==> moved(*params) > 0,
            r matches Some(plan) ==> plan@ == shift_int4_model(
                layer,
                size,
                packed_size,
                scale_size,
                *params,
            ),
    {
        if elements_to_shift(params) == 0 {
            return None;
        }
        let words = CompactionParams {
            rope_dim: params.head_dim,
            rope_base: DEFAULT_ROPE_BASE,
            ..*params
        };
        let plan = Plan {
            buffers: vec![
                new_scratch(CacheKind::K, size),
                new_scratch(CacheKind::V, size),
                new_scratch(CacheKind::KPacked, packed_size),
                new_scratch(CacheKind::VPacked, packed_size),
                new_scratch(CacheKind::KScale, scale_size),
                new_scratch(CacheKind::VScale, scale_size),
            ],
            uniforms: vec![UniformBlock { buf: Buf::Uniforms(0), words: words.words() }],
            groups: vec![shift_bind_group(layer), shift_int4_bind_group(layer)],
            steps: vec![
                take_snapshot(CacheKind::K, layer, size),
                take_snapshot(CacheKind::V, layer, size),
                take_snapshot(CacheKind::KPacked, layer, packed_size),
                take_snapshot(CacheKind::VPacked, layer, packed_size),
                take_snapshot(CacheKind::KScale, layer, scale_size),
                take_snapshot(CacheKind::VScale, layer, scale_size),
                shift_step(params),
                shift_int4_step(params),
                Step::Submit,
            ],
            filled: Vec::new(),
            reads: Vec::new(),
        };
        assert(plan@ =~~= shift_int4_model(layer, size, packed_size, scale_size, *params));
        Some(plan)
    }
}

/// A shift keeps the order of the tokens and leaves no gap: the tokens that are
/// left take the positions from 0 on, each kept one stays, and the number of moved
/// tokens is the number of positions that change hands behind the kept ones.
pub proof fn law_shift_closes_the_gap(p: CompactionParams, a: int, b: int)
    requires
        p.keep_sink + p.shift_amt <= p.old_seq_len,
        0 <= a < b < p.old_seq_len,
    ensures
        a < p.keep_sink ==> position_after(p, a) == Some(a),
        position_after(p, a) is Some && position_after(p, b) is Some ==> position_after(p, a)->0
            < position_after(p, b)->0,
        position_after(p, b) matches Some(q) ==> 0 <= q < p.old_seq_len - p.shift_amt,
        p.old_seq_len - p.shift_amt == p.keep_sink + moved(p),
        b < p.old_seq_len - p.shift_amt ==> exists|pos: int|
            0 <= pos < p.old_seq_len && #[trigger] position_after(p, pos) == Some(b),
{
    if b < p.old_seq_len - p.shift_amt {
        let pos = if b < p.keep_sink {
            b
        } else {
            b + p.shift_amt
        };
        assert(position_after(p, pos) == Some(b));
    }
}

/// A shift's workgroups cover every element that moves: each dimension of each head
/// of each moved token, and for packed keys and values each of their words.
pub proof fn law_shift_covers_every_element(p: CompactionParams, dim: int, head: int, token: int)
    requires
        p.keep_sink + p.shift_amt <= u32::MAX,
        0 <= dim < p.head_dim,
        0 <= head < p.n_head_kv,
        0 <= token < moved(p),
    ensures
        shift_run(p) matches Step::Run { x, y, z, .. } && dim < x * 64 && head < y * 4 && token < z,
        p.head_dim % 8 == 0 ==> (shift_int4_run(p) matches Step::Run { x, y, z, .. } && dim / 8
            < x * 64 && head < y * 4 && token < z),
{
    law_groups_cover_items(p.head_dim as int, 64);
    law_groups_cover_items(p.n_head_kv as int, 4);
    law_groups_cover_items(p.head_dim as int / 8, 64);
}

/// The kernels of a shift never read what they write: every binding that they
/// read is a snapshot or holds uniforms, every binding that they write is a live
/// cache buffer, and every snapshot is taken before the first kernel runs.
pub proof fn law_shift_reads_snapshots(
    layer: usize,
    size: u64,
    packed_size: u64,
    scale_size: u64,
    p: CompactionParams,
    group: int,
    i: int,
)
    ensures
        ({
            let plan = shift_int4_model(layer, size, packed_size, scale_size, p);
            let entries = plan.groups[group].entries;
            let table = layout_table(plan.groups[group].layout);
            0 <= group < plan.groups.len() && 0 <= i < entries.len() ==> match table[i].access {
                Access::ReadWrite => entries[i].source matches
                    Source::Whole(Buf::Cache(_, _)),
                Access::ReadOnly => entries[i].source matches
                    Source::Whole(Buf::Scratch(kind)) && exists|j: int|
                        0 <= j < 6 && #[trigger] plan.steps[j] == snapshot(
                            kind,
                            layer,
                            match kind {
                                CacheKind::K | CacheKind::V => size,
                                CacheKind::KPacked | CacheKind::VPacked => packed_size,
                                CacheKind::KScale | CacheKind::VScale => scale_size,
                            },
                        ),
                Access::Uniform => entries[i].source
                    == Source::Whole(Buf::Uniforms(0)),
            }
        }),
{
    let plan = shift_int4_model(layer, size, packed_size, scale_size, p);
    assert(plan.steps[0] == snapshot(CacheKind::K, layer, size));
    assert(plan.steps[1] == snapshot(CacheKind::V, layer, size));
    assert(plan.steps[2] == snapshot(CacheKind::KPacked, layer, packed_size));
    assert(plan.steps[3] == snapshot(CacheKind::VPacked, layer, packed_size));
    assert(plan.steps[4] == snapshot(CacheKind::KScale, layer, scale_size));
    assert(plan.steps[5] == snapshot(CacheKind::VScale, layer, scale_size));
}

/// No token moves where none is left behind those kept and dropped; else all of those
/// do. The F32 shift runs its kernel just when a token moves.
pub proof fn law_shift_moves_what_is_left(layer: usize, size: u64, p: CompactionParams)
    ensures
        moved(p) >= 0,
        moved(p) == 0 <==> p.old_seq_len <= p.keep_sink + p.shift_amt,
        moved(p) > 0 ==> p.keep_sink + p.shift_amt + moved(p) == p.old_seq_len,
        ({
            let steps = shift_model(layer, size, p).steps;
            &&& moved(p) > 0 ==> steps.len() == 4 && steps[2] is Run && steps[3] == Step::Submit
            &&& moved(p) == 0 ==> steps.len() == 3 && steps[2] == Step::Submit
        }),
{
}

/// A shift runs no more workgroups than it needs, with the bind group of its kernel:
/// 64 dimensions by 4 heads each, a layer of them per moved token. The INT4 kernel
/// takes 8 dimensions for one.
pub proof fn law_shift_runs_no_more_than_needed(p: CompactionParams)
    requires
        p.keep_sink + p.shift_amt <= u32::MAX,
    ensures
        shift_run(p) matches Step::Run { kernel, group, x, y, z } && kernel == Kernel::RopeShift
            && group == 0 && z == moved(p) && (p.head_dim > 0 ==> (x - 1) * 64 < p.head_dim) && (
        p.n_head_kv > 0 ==> (y - 1) * 4 < p.n_head_kv),
        shift_int4_run(p) matches Step::Run { kernel, group, x, y, z } && kernel
            == Kernel::RopeShiftInt4 && group == 1 && z == moved(p) && (p.head_dim >= 8 ==> (x - 1)
            * 64 * 8 < p.head_dim) && (p.n_head_kv > 0 ==> (y - 1) * 4 < p.n_head_kv),
{
    law_groups_cover_items(p.head_dim as int, 64);
    law_groups_cover_items(p.n_head_kv as int, 4);
    law_groups_cover_items(p.head_dim as int / 8, 64);
}

/// An INT4 shift takes its snapshots first, then moves the F32 staging data, then the
/// packed data, all in one submission.
pub proof fn law_int4_shift_order(
    layer: usize,
    size: u64,
    packed_size: u64,
    scale_size: u64,
    p: CompactionParams,
    i: int,
)
    ensures
        ({
            let steps = shift_int4_model(layer, size, packed_size, scale_size, p).steps;
            &&& steps.len() == 9
            &&& 0 <= i < 6 ==> steps[i] is Copy
            &&& steps[6] is Run && steps[6]->Run_kernel == Kernel::RopeShift
            &&& steps[7] is Run && steps[7]->Run_kernel == Kernel::RopeShiftInt4
            &&& steps[8] == Step::Submit
        }),
{
}

} // verus!
