//! Plans of the output head, whole and in tiles.

use crate::dispatch::{
    further_slot_entries, push_further_slots, push_slot, push_whole, slot, whole, BindGroup, Buf,
    Entry, GroupModel, NewBuffer, Plan, PlanModel, Step, UniformBlock, UniformModel,
};
use crate::kernels::{BindlessPipeline, Kernel, Layout};
use crate::loader::BLOB_BINDING_SLOTS;
use crate::num::{ceil_div, div_ceil_u32};
use crate::params::HeadBlobParams;
use crate::quant::{formula_index_for_ggml, formula_slot};
use crate::single::{input_buffer, input_buffer_exec, one_kernel, one_kernel_plan};
use crate::window::BlobBinding;
use vstd::prelude::*;

verus! {

/// Rows that a workgroup of the head kernel computes.
pub const HEAD_ROWS_PER_GROUP: u32 = 64;

/// What the head kernel computes: `vocab_size` rows of `dim` columns, from word
/// `weight_off` of the blob on.
#[derive(Debug, Clone, Copy, PartialEq, Eq, Structural)]
pub struct Head {
    pub vocab_size: u32,
    pub dim: u32,
    /// Word offset of the weights in the blob.
    pub weight_off: u32,
    /// GGML type of the weights.
    pub quant_type: u32,
    /// Bits of an `f32`; 0.0 = disabled.
    pub softcap: u32,
    /// Words per blob chunk.
    pub chunk_words: u32,
}

impl Head {
    /// The uniforms of the rows from `base_row` on.
    pub open spec fn params(self, base_row: u32) -> HeadBlobParams {
        HeadBlobParams {
            vocab_size: self.vocab_size,
            dim: self.dim,
            weight_off: self.weight_off,
            formula_index: formula_slot(self.quant_type),
            softcap: self.softcap,
            base_row,
            chunk_words: self.chunk_words,
        }
    }

    /// Makes the uniforms of the rows from `base_row` on.
    pub fn head_params(&self, base_row: u32) -> (p: HeadBlobParams)
        ensures
            p == self.params(base_row),
    {
        HeadBlobParams {
            vocab_size: self.vocab_size,
            dim: self.dim,
            weight_off: self.weight_off,
            formula_index: formula_index_for_ggml(self.quant_type),
            softcap: self.softcap,
            base_row,
            chunk_words: self.chunk_words,
        }
    }

    /// Workgroups of the whole head.
    pub open spec fn workgroups(self) -> int {
        ceil_div(self.vocab_size as int, 64)
    }
}

/// The bind group of head tile `tile`.
pub open spec fn head_group(slots: Seq<BlobBinding>, tile: usize) -> GroupModel {
    GroupModel {
        layout: Layout::LmHeadBlob,
        entries: seq![
            slot(0, slots[0]),
            whole(1, Buf::Input),
            whole(2, Buf::Output),
            whole(3, Buf::Uniforms(tile)),
        ] + further_slot_entries(slots),
    }
}

fn head_group_exec(slots: &[BlobBinding; BLOB_BINDING_SLOTS], tile: usize) -> (g: BindGroup)
    ensures
        g@ == head_group(slots@, tile),
{
    let mut entries: Vec<Entry> = Vec::new();
    push_slot(&mut entries, 0, slots[0]);
    push_whole(&mut entries, 1, Buf::Input);
    push_whole(&mut entries, 2, Buf::Output);
    push_whole(&mut entries, 3, Buf::Uniforms(tile));
    push_further_slots(&mut entries, slots);
    let g = BindGroup { layout: Layout::LmHeadBlob, entries };
    assert(g@ =~~= head_group(slots@, tile));
    g
}

/// How many tiles of at most `max_wgs` workgroups cover `total` workgroups.
pub open spec fn tile_count(total: int, max_wgs: int) -> int {
    ceil_div(total, max_wgs)
}

/// Workgroups of a tile: the most there may be, or what is left.
pub open spec fn tile_width(total: int, max_wgs: int, tile: int) -> int {
    if total - tile * max_wgs <= max_wgs {
        total - tile * max_wgs
    } else {
        max_wgs
    }
}

/// First row of a tile.
pub open spec fn tile_row(max_wgs: int, tile: int) -> int {
    tile * max_wgs * 64
}

/// The head in tiles of at most `max_wgs` workgroups, all of which write to one
/// output.
pub open spec fn tiled_head(
    slots: Seq<BlobBinding>,
    input_len: usize,
    head: Head,
    max_wgs: u32,
) -> PlanModel {
    let total = head.workgroups();
    let m = max_wgs as int;
    let n = tile_count(total, m) as nat;
    let size = (head.vocab_size * 4) as u64;
    PlanModel {
        buffers: seq![
            NewBuffer { buf: Buf::Input, size: (input_len * 4) as u64 },
            NewBuffer { buf: Buf::Output, size },
            NewBuffer { buf: Buf::Read(0), size },
        ],
        uniforms: Seq::new(
            n,
            |t: int|
                UniformModel {
                    buf: Buf::Uniforms(t as usize),
                    words: head.params(tile_row(m, t) as u32).block(),
                },
        ),
        groups: Seq::new(n, |t: int| head_group(slots, t as usize)),
        steps: Seq::new(
            n,
            |t: int|
                Step::Run {
                    kernel: Kernel::LmHeadBlob,
                    group: t as usize,
                    x: tile_width(total, m, t) as u32,
                    y: 1,
                    z: 1,
                },
        ) + seq![Step::Copy { from: Buf::Output, at: 0, to: Buf::Read(0), size }, Step::Submit],
        filled: seq![Buf::Input],
        reads: seq![Buf::Read(0)],
    }
}

/// The head in one dispatch.
pub open spec fn whole_head(slots: Seq<BlobBinding>, input_len: usize, head: Head) -> PlanModel {
    one_kernel(
        input_buffer(input_len),
        (head.vocab_size * 4) as u64,
        head.params(0).block(),
        head_group(slots, 0),
        Kernel::LmHeadBlob,
        head.workgroups() as u32,
    )
}

impl BindlessPipeline {
    /// Plans the head in one dispatch.
    pub fn run_lm_head_blob(
        &self,
        slots: &[BlobBinding; BLOB_BINDING_SLOTS],
        input_len: usize,
        head: &Head,
    ) -> (p: Plan)
        requires
            input_len * 4 <= u64::MAX,
        ensures
            p@ == whole_head(slots@, input_len, *head),
    {
        let params = head.head_params(0);
        one_kernel_plan(
            input_buffer_exec(input_len),
            head.vocab_size as u64 * 4,
            params.words(),
            head_group_exec(slots, 0),
            Kernel::LmHeadBlob,
            div_ceil_u32(head.vocab_size, HEAD_ROWS_PER_GROUP),
        )
    }
}

impl BindlessPipeline {
    /// Plans the head in tiles of at most `max_safe_wgs` workgroups, so that no
    /// dispatch runs too long.
    pub fn run_lm_head_blob_tiled(
        &self,
        slots: &[BlobBinding; BLOB_BINDING_SLOTS],
        input_len: usize,
        head: &Head,
        max_safe_wgs: u32,
    ) -> (p: Plan)
        requires
            input_len * 4 <= u64::MAX,
            max_safe_wgs > 0,
        ensures
            p@ == tiled_head(slots@, input_len, *head, max_safe_wgs),
    {
        let size: u64 = head.vocab_size as u64 * 4;
        let total: u32 = div_ceil_u32(head.vocab_size, HEAD_ROWS_PER_GROUP);
        let ghost m = max_safe_wgs as int;
        let ghost n = tile_count(total as int, m) as nat;
        let ghost goal = tiled_head(slots@, input_len, *head, max_safe_wgs);
        let mut uniforms: Vec<UniformBlock> = Vec::new();
        let mut groups: Vec<BindGroup> = Vec::new();
        let mut steps: Vec<Step> = Vec::new();
        let mut dispatched: u32 = 0;
        let mut tile: usize = 0;
        proof {
            lemma_tiles(head.vocab_size as int, m, 0);
            assert(0 * m == 0);
        }
        while dispatched < total
            invariant
                max_safe_wgs > 0,
                m == max_safe_wgs,
                total == head.workgroups(),
                n == tile_count(total as int, m),
                goal == tiled_head(slots@, input_len, *head, max_safe_wgs),
                dispatched <= total,
                tile <= n,
                tile <= dispatched,
                dispatched < total ==> dispatched == tile * m,
                dispatched == total ==> tile == n,
                uniforms@.map_values(|u: UniformBlock| u@) =~~= goal.uniforms.take(tile as int),
                groups@.map_values(|g: BindGroup| g@) =~~= goal.groups.take(tile as int),
                steps@ =~= goal.steps.take(tile as int),
                uniforms@.len() == tile,
                groups@.len() == tile,
                steps@.len() == tile,
            decreases total - dispatched,
        {
            let left: u32 = total - dispatched;
            let width: u32 = if left < max_safe_wgs {
                left
            } else {
                max_safe_wgs
            };
            proof {
                lemma_tiles(head.vocab_size as int, m, tile as int);
            }
            let base_row: u32 = dispatched * HEAD_ROWS_PER_GROUP;
            let ghost u0 = uniforms@;
            let ghost g0 = groups@;
            let params = head.head_params(base_row);
            let words = params.words();
            uniforms.push(UniformBlock { buf: Buf::Uniforms(tile), words });
            groups.push(head_group_exec(slots, tile));
            steps.push(Step::Run { kernel: Kernel::LmHeadBlob, group: tile, x: width, y: 1, z: 1 });
            proof {
                assert(tile_row(m, tile as int) == base_row);
                assert(uniforms@.map_values(|u: UniformBlock| u@) =~~= u0.map_values(
                    |u: UniformBlock| u@,
                ).push(UniformModel { buf: Buf::Uniforms(tile), words: words@ }));
                assert(uniforms@.map_values(|u: UniformBlock| u@) =~~= goal.uniforms.take(tile + 1));
                assert(groups@.map_values(|g: BindGroup| g@) =~~= g0.map_values(|g: BindGroup| g@).push(
                    head_group(slots@, tile),
                ));
                assert(groups@.map_values(|g: BindGroup| g@) =~~= goal.groups.take(tile + 1));
                assert(steps@ =~= goal.steps.take(tile + 1));
                assert((tile + 1) * m == tile * m + m) by (nonlinear_arith);
                lemma_tiles(head.vocab_size as int, m, tile + 1);
            }
            dispatched = dispatched + width;
            tile = tile + 1;
        }
        steps.push(Step::Copy { from: Buf::Output, at: 0, to: Buf::Read(0), size });
        steps.push(Step::Submit);
        let p = Plan {
            buffers: vec![
                NewBuffer { buf: Buf::Input, size: input_len as u64 * 4 },
                NewBuffer { buf: Buf::Output, size },
                NewBuffer { buf: Buf::Read(0), size },
            ],
            uniforms,
            groups,
            steps,
            filled: vec![Buf::Input],
            reads: vec![Buf::Read(0)],
        };
        proof {
            assert(goal.uniforms.take(n as int) =~~= goal.uniforms);
            assert(goal.groups.take(n as int) =~~= goal.groups);
            assert(p@.steps =~= goal.steps);
            assert(p@ =~~= goal);
        }
        p
    }
}

/// Where tile `t` stands among the tiles.
proof fn lemma_tiles(vocab: int, m: int, t: int)
    requires
        vocab >= 0,
        m > 0,
        t >= 0,
    ensures
        ({
            let total = ceil_div(vocab, 64);
            let n = tile_count(total, m);
            &&& total >= 0
            &&& n >= 0
            &&& t * m >= t
            &&& t < n <==> t * m < total
            &&& n <= total
            &&& t * m < total ==> t * m * 64 < vocab
            &&& n * m >= total
        }),
{
    let total = ceil_div(vocab, 64);
    crate::num::law_groups_cover_items(vocab, 64);
    crate::num::law_groups_cover_items(total, m);
    let n = tile_count(total, m);
    assert(t * m >= t) by (nonlinear_arith)
        requires
            m >= 1,
            t >= 0,
    ;
    if t < n {
        assert(t * m <= (n - 1) * m) by (nonlinear_arith)
            requires
                t <= n - 1,
                m > 0,
        ;
    } else {
        assert(t * m >= n * m) by (nonlinear_arith)
            requires
                t >= n,
                m > 0,
        ;
    }
    assert(n <= total) by (nonlinear_arith)
        requires
            total > 0 ==> (n - 1) * m < total,
            total == 0 ==> n == 0,
            m >= 1,
            n >= 0,
            total >= 0,
    ;
}

/// The tiles of a head share out its rows: row `r` lies in just one tile, no tile
/// is wider than allowed, and none is empty.
pub proof fn law_tiles_share_out_rows(vocab: int, max_wgs: int, r: int, t: int)
    requires
        0 <= r < vocab,
        max_wgs > 0,
        0 <= t < tile_count(ceil_div(vocab, 64), max_wgs),
    ensures
        0 < tile_width(ceil_div(vocab, 64), max_wgs, t) <= max_wgs,
        0 <= r / 64 / max_wgs < tile_count(ceil_div(vocab, 64), max_wgs),
        (tile_row(max_wgs, t) <= r < tile_row(max_wgs, t) + 64 * tile_width(
            ceil_div(vocab, 64),
            max_wgs,
            t,
        )) <==> t == r / 64 / max_wgs,
{
    let total = ceil_div(vocab, 64);
    let m = max_wgs;
    let w = r / 64;
    let q = w / m;
    lemma_tiles(vocab, m, t);
    crate::num::law_groups_cover_items(vocab, 64);
    assert(w < total);
    vstd::arithmetic::div_mod::lemma_fundamental_div_mod(w, m);
    assert(0 <= q && q * m <= w < q * m + m) by (nonlinear_arith)
        requires
            w == m * q + w % m,
            0 <= w % m < m,
            q == w / m,
            w >= 0,
            m > 0,
    ;
    lemma_tiles(vocab, m, q);
    assert((t + 1) * m == t * m + m) by (nonlinear_arith);
    assert((q + 1) * m == q * m + m) by (nonlinear_arith);
    if t < q {
        assert((t + 1) * m <= q * m) by (nonlinear_arith)
            requires
                t + 1 <= q,
                m > 0,
        ;
    } else if t > q {
        assert((q + 1) * m <= t * m) by (nonlinear_arith)
            requires
                q + 1 <= t,
                m > 0,
        ;
    }
}

/// Where one tile has room for the whole head, tiling changes nothing.
pub proof fn law_one_tile_is_the_whole_head(
    slots: Seq<BlobBinding>,
    input_len: usize,
    head: Head,
    max_wgs: u32,
)
    requires
        0 < head.workgroups() <= max_wgs,
    ensures
        tiled_head(slots, input_len, head, max_wgs) == whole_head(slots, input_len, head),
{
    let total = head.workgroups();
    let m = max_wgs as int;
    assert(tile_count(total, m) == 1) by {
        crate::num::law_groups_cover_items(total, m);
        let n = tile_count(total, m);
        assert(n == 1) by (nonlinear_arith)
            requires
                (n - 1) * m < total,
                n * m >= total,
                0 < total <= m,
        ;
    }
    assert(0 * m == 0);
    assert(0 * m * 64 == 0);
    assert(tiled_head(slots, input_len, head, max_wgs) =~~= whole_head(slots, input_len, head));
}

} // verus!
