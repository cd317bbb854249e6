//! From tensor tables to packed layer offsets.

use crate::names::{layer_key, layer_name, NameMap};
use crate::num::low_u32;
use crate::offsets::{
    pack_relative, relative_pack, CompiledLayerEntry, LayerOffsets, OffsetError,
};
use crate::quant::{checked_row_bytes, row_bytes};
use crate::text::{chars_of, occurs_at, starts_with};
use vstd::prelude::*;

verus! {

/// What is known of a model's tensors: where they lie, their types and shapes.
pub struct TensorTable {
    pub offsets: Map<Seq<char>, u64>,
    pub types: Map<Seq<char>, u32>,
    pub dims: Map<Seq<char>, Seq<u64>>,
}

/// Whether `m` is the least positive number of `s`, or 0 where there is none.
pub open spec fn is_least_positive(s: Set<int>, m: int) -> bool {
    if m == 0 {
        forall|x: int| s.contains(x) ==> x <= 0
    } else {
        &&& m > 0
        &&& s.contains(m)
        &&& forall|x: int| s.contains(x) && x > 0 ==> m <= x
    }
}

/// The least positive number of `s`, or 0 where there is none.
pub open spec fn least_positive(s: Set<int>) -> int {
    choose|m: int| is_least_positive(s, m)
}

proof fn lemma_least_positive(s: Set<int>, m: int)
    requires
        is_least_positive(s, m),
    ensures
        least_positive(s) == m,
{
    let l = least_positive(s);
    assert(is_least_positive(s, l));
}

/// The byte a layer's offsets are relative to: one word before the word of the
/// layer's first tensor, so that no present tensor packs to zero.
pub open spec fn base_below(min_offset: int) -> int {
    if min_offset / 4 * 4 >= 4 {
        min_offset / 4 * 4 - 4
    } else {
        0
    }
}

fn base_below_exec(min_offset: u64) -> (base: u64)
    ensures
        base == base_below(min_offset as int),
{
    let aligned: u64 = min_offset / 4 * 4;
    if aligned >= 4 {
        aligned - 4
    } else {
        0
    }
}

/// A tensor at or behind the layer's first one never packs to the mark of an
/// absent tensor.
pub proof fn law_present_tensor_is_not_zero(min_offset: int, abs: int)
    requires
        0 < min_offset <= abs,
        relative_pack(abs, base_below(min_offset)) is Ok,
    ensures
        relative_pack(abs, base_below(min_offset))->Ok_0 != 0,
{
}

/// A set with a positive number has a least one.
proof fn lemma_least_positive_exists(s: Set<int>, x: int)
    requires
        s.contains(x),
        x > 0,
    ensures
        is_least_positive(s, least_positive(s)),
        0 < least_positive(s) <= x,
    decreases x,
{
    if exists|y: int| s.contains(y) && 0 < y < x {
        let y = choose|y: int| s.contains(y) && 0 < y < x;
        lemma_least_positive_exists(s, y);
    } else {
        assert(is_least_positive(s, x));
        lemma_least_positive(s, x);
    }
}

/// The offsets of all tensors of a layer.
pub open spec fn layer_offset_set(offsets: Map<Seq<char>, u64>, layer: nat) -> Set<int> {
    Set::new(
        |o: int|
            exists|name: Seq<char>| #[trigger]
                offsets.contains_key(name) && occurs_at(name, layer_name(layer, Seq::empty()), 0)
                    && offsets[name] == o,
    )
}

/// The base byte of a layer in the compiled table.
pub open spec fn layer_base(offsets: Map<Seq<char>, u64>, layer: nat) -> int {
    base_below(least_positive(layer_offset_set(offsets, layer)))
}

fn layer_base_exec(offsets: &NameMap<u64>, layer: usize) -> (base: u64)
    ensures
        base == layer_base(offsets@, layer as nat),
{
    let key = layer_key(layer, "");
    proof {
        reveal_strlit("");
        assert(""@ =~= Seq::<char>::empty());
    }
    let prefix = chars_of(key.as_str());
    let ghost all = layer_offset_set(offsets@, layer as nat);
    let n: usize = offsets.len();
    let ghost mut seen: Set<int> = Set::empty();
    let mut best: u64 = 0;
    let mut i: usize = 0;
    while i < n
        invariant
            n == offsets.names().len(),
            i <= n,
            prefix@ == layer_name(layer as nat, Seq::empty()),
            all == layer_offset_set(offsets@, layer as nat),
            is_least_positive(seen, best as int),
            forall|o: int| #[trigger] seen.contains(o) ==> all.contains(o),
            forall|k: int|
                0 <= k < i && occurs_at(#[trigger] offsets.names()[k], prefix@, 0)
                    ==> seen.contains(offsets@[offsets.names()[k]] as int),
        decreases n - i,
    {
        let (name, offset) = offsets.entry(i);
        let text = chars_of(name.as_str());
        if starts_with(&text, &prefix) {
            proof {
                assert(all.contains(*offset as int));
                seen = seen.insert(*offset as int);
            }
            if *offset > 0 && (best == 0 || *offset < best) {
                best = *offset;
            }
        }
        i += 1;
    }
    proof {
        assert forall|o: int| #[trigger] all.contains(o) implies seen.contains(o) by {
            let name = choose|name: Seq<char>| #[trigger]
                offsets@.contains_key(name) && occurs_at(
                    name,
                    layer_name(layer as nat, Seq::empty()),
                    0,
                ) && offsets@[name] == o;
            let k = choose|k: int| 0 <= k < n && offsets.names()[k] == name;
            assert(occurs_at(offsets.names()[k], prefix@, 0));
        }
        assert(seen =~= all);
        lemma_least_positive(all, best as int);
    }
    base_below_exec(best)
}

impl TensorTable {
    /// Where a layer's tensor lies; 0 where the layer lacks it.
    pub open spec fn at(self, layer: nat, suffix: Seq<char>) -> int {
        let name = layer_name(layer, suffix);
        if self.offsets.contains_key(name) {
            self.offsets[name] as int
        } else {
            0
        }
    }

    /// Whether a layer has a tensor.
    pub open spec fn has(self, layer: nat, suffix: Seq<char>) -> bool {
        self.offsets.contains_key(layer_name(layer, suffix))
    }

    /// The type of a layer's tensor; Q4_0 where none is known.
    pub open spec fn quant(self, layer: nat, suffix: Seq<char>) -> u32 {
        let name = layer_name(layer, suffix);
        if self.types.contains_key(name) {
            self.types[name]
        } else {
            2
        }
    }

    /// Dimension `k` of a layer's tensor, or `default` where none is known.
    pub open spec fn dim(self, layer: nat, suffix: Seq<char>, k: int, default: int) -> int {
        let name = layer_name(layer, suffix);
        if self.dims.contains_key(name) && k < self.dims[name].len() {
            self.dims[name][k] as int
        } else {
            default
        }
    }
}

/// Borrowed tensor tables.
pub struct Tables<'a> {
    pub offsets: &'a NameMap<u64>,
    pub types: &'a NameMap<u32>,
    pub dims: &'a NameMap<Vec<u64>>,
}

impl<'a> View for Tables<'a> {
    type V = TensorTable;

    open spec fn view(&self) -> TensorTable {
        TensorTable { offsets: self.offsets@, types: self.types@, dims: self.dims@ }
    }
}

impl<'a> Tables<'a> {
    fn at(&self, layer: usize, suffix: &str) -> (o: u64)
        ensures
            o == self@.at(layer as nat, suffix@),
    {
        match self.offsets.get(layer_key(layer, suffix).as_str()) {
            Some(o) => *o,
            None => 0,
        }
    }

    pub(crate) fn has(&self, layer: usize, suffix: &str) -> (r: bool)
        ensures
            r == self@.has(layer as nat, suffix@),
    {
        self.offsets.contains_key(layer_key(layer, suffix).as_str())
    }

    fn quant(&self, layer: usize, suffix: &str) -> (q: u32)
        ensures
            q == self@.quant(layer as nat, suffix@),
    {
        match self.types.get(layer_key(layer, suffix).as_str()) {
            Some(q) => *q,
            None => 2,
        }
    }

    fn dim(&self, layer: usize, suffix: &str, k: usize, default: u64) -> (d: u64)
        ensures
            d == self@.dim(layer as nat, suffix@, k as int, default as int),
    {
        match self.dims.get(layer_key(layer, suffix).as_str()) {
            Some(dims) => if k < dims.len() {
                dims[k]
            } else {
                default
            },
            None => default,
        }
    }
}

/// The parts that a fused QKV tensor is split into: rows of the query, rows of
/// the key and of the value each, and the bytes of a row.
pub struct QkvSplit {
    pub dim_q: int,
    pub dim_k: int,
    pub row: int,
}

/// How the fused QKV tensor of a layer splits. The query's rows are as many as
/// the output projection has columns; key and value share the rest.
pub open spec fn qkv_split(t: TensorTable, layer: nat) -> QkvSplit {
    let dim_in = t.dim(layer, "attn_qkv.weight"@, 0, 0);
    let total_out = t.dim(layer, "attn_qkv.weight"@, 1, 0);
    let dim_q = t.dim(layer, "attn_output.weight"@, 0, dim_in);
    QkvSplit {
        dim_q,
        dim_k: if total_out >= dim_q {
            (total_out - dim_q) / 2
        } else {
            0
        },
        row: row_bytes(t.quant(layer, "attn_qkv.weight"@), dim_in),
    }
}

fn qkv_split_dims(t: &Tables, layer: usize) -> (r: (u64, u64))
    ensures
        r.0 == qkv_split(t@, layer as nat).dim_q,
        r.1 == qkv_split(t@, layer as nat).dim_k,
{
    let dim_in: u64 = t.dim(layer, "attn_qkv.weight", 0, 0);
    let total_out: u64 = t.dim(layer, "attn_qkv.weight", 1, 0);
    let dim_q: u64 = t.dim(layer, "attn_output.weight", 0, dim_in);
    (dim_q, total_out.saturating_sub(dim_q) / 2)
}

/// Three places, for the query, the key and the value.
pub struct Qkv {
    pub q: int,
    pub k: int,
    pub v: int,
}

/// Where the parts of a fused tensor begin, when it lies at `start` and has rows
/// of `row` bytes.
pub open spec fn split_at(start: int, split: QkvSplit, row: int) -> Qkv {
    Qkv {
        q: start,
        k: start + split.dim_q * row,
        v: start + (split.dim_q + split.dim_k) * row,
    }
}

/// Whether the parts of a fused tensor can be counted in 64 bits.
pub open spec fn split_fits(split: QkvSplit, row: int) -> bool {
    split.dim_q + split.dim_k <= u64::MAX && row <= u64::MAX
}

/// Where a layer's query, key and value weights begin: in tensors of their own,
/// in a fused tensor, or nowhere.
pub open spec fn qkv_weights(t: TensorTable, layer: nat) -> Qkv {
    if t.has(layer, "attn_q.weight"@) {
        Qkv {
            q: t.at(layer, "attn_q.weight"@),
            k: t.at(layer, "attn_k.weight"@),
            v: t.at(layer, "attn_v.weight"@),
        }
    } else if t.has(layer, "attn_qkv.weight"@) {
        let split = qkv_split(t, layer);
        split_at(t.at(layer, "attn_qkv.weight"@), split, split.row)
    } else {
        Qkv { q: 0, k: 0, v: 0 }
    }
}

/// The types of a layer's query/key weights and of its value weights.
pub open spec fn qkv_quants(t: TensorTable, layer: nat) -> (u32, u32) {
    if t.has(layer, "attn_q.weight"@) {
        (t.quant(layer, "attn_q.weight"@), t.quant(layer, "attn_v.weight"@))
    } else if t.has(layer, "attn_qkv.weight"@) {
        (t.quant(layer, "attn_qkv.weight"@), t.quant(layer, "attn_qkv.weight"@))
    } else {
        (2, 2)
    }
}

/// The packed offset of byte `abs`, where it packs.
pub open spec fn packed_or_zero(abs: int, base: int) -> u32 {
    match relative_pack(abs, base) {
        Ok(packed) => packed,
        Err(_) => 0,
    }
}

/// Whether three places all pack.
pub open spec fn qkv_packs(places: Qkv, base: int) -> bool {
    &&& relative_pack(places.q, base) is Ok
    &&& relative_pack(places.k, base) is Ok
    &&& relative_pack(places.v, base) is Ok
}

/// Where a layer's own query, key and value biases lie.
pub open spec fn separate_biases(t: TensorTable, layer: nat) -> Qkv {
    Qkv {
        q: t.at(layer, "attn_q.bias"@),
        k: t.at(layer, "attn_k.bias"@),
        v: t.at(layer, "attn_v.bias"@),
    }
}

/// The parts of a fused tensor lie behind each other and fill it: query rows, key
/// rows and value rows, where key and value share the rest evenly.
pub proof fn law_fused_parts_fill_tensor(t: TensorTable, layer: nat, start: int, row: int)
    requires
        qkv_split(t, layer).dim_q <= t.dim(layer, "attn_qkv.weight"@, 1, 0),
        (t.dim(layer, "attn_qkv.weight"@, 1, 0) - qkv_split(t, layer).dim_q) % 2 == 0,
    ensures
        ({
            let split = qkv_split(t, layer);
            let parts = split_at(start, split, row);
            &&& parts.q == start
            &&& parts.q + split.dim_q * row == parts.k
            &&& parts.k + split.dim_k * row == parts.v
            &&& parts.v + split.dim_k * row == start + t.dim(layer, "attn_qkv.weight"@, 1, 0) * row
        }),
{
    let split = qkv_split(t, layer);
    let total = t.dim(layer, "attn_qkv.weight"@, 1, 0);
    assert(total == split.dim_q + 2 * split.dim_k);
    assert((split.dim_q + split.dim_k) * row == split.dim_q * row + split.dim_k * row)
        by (nonlinear_arith);
    assert(total * row == split.dim_q * row + split.dim_k * row + split.dim_k * row)
        by (nonlinear_arith)
        requires
            total == split.dim_q + 2 * split.dim_k,
    ;
}

/// Whether a layer's biases are the parts of a fused bias: it has no biases of
/// its own, but a fused QKV tensor and a fused bias.
pub open spec fn has_fused_bias(t: TensorTable, layer: nat, base: int) -> bool {
    let own = separate_biases(t, layer);
    &&& packed_or_zero(own.q, base) == 0
    &&& packed_or_zero(own.k, base) == 0
    &&& packed_or_zero(own.v, base) == 0
    &&& t.has(layer, "attn_qkv.weight"@)
    &&& t.has(layer, "attn_qkv.bias"@)
}

/// Where a layer's query, key and value biases begin. A fused bias holds one
/// `f32` per row.
pub open spec fn qkv_biases(t: TensorTable, layer: nat, base: int) -> Qkv {
    if has_fused_bias(t, layer, base) {
        split_at(t.at(layer, "attn_qkv.bias"@), qkv_split(t, layer), 4)
    } else {
        separate_biases(t, layer)
    }
}

/// Whether a layer stores gate and up concatenated in `ffn_up.weight`: there is
/// no gate tensor, and the up tensor has twice as many rows as the down tensor
/// has columns.
pub open spec fn merged_gate_up(t: TensorTable, layer: nat) -> bool {
    let down_in = t.dim(layer, "ffn_down.weight"@, 0, 0);
    &&& !t.has(layer, "ffn_gate.weight"@)
    &&& t.at(layer, "ffn_up.weight"@) != 0
    &&& down_in != 0
    &&& t.dim(layer, "ffn_up.weight"@, 1, 0) == down_in * 2
}

/// Bytes of a row of the up tensor.
pub open spec fn up_row(t: TensorTable, layer: nat) -> int {
    row_bytes(t.quant(layer, "ffn_up.weight"@), t.dim(layer, "ffn_up.weight"@, 0, 0))
}

/// Where a layer's gate and up weights begin.
pub open spec fn gate_and_up(t: TensorTable, layer: nat) -> (int, int) {
    let up = t.at(layer, "ffn_up.weight"@);
    if merged_gate_up(t, layer) {
        (up, up + t.dim(layer, "ffn_down.weight"@, 0, 0) * up_row(t, layer))
    } else {
        (t.at(layer, "ffn_gate.weight"@), up)
    }
}

/// The halves of a merged gate and up tensor lie behind each other and fill it.
pub proof fn law_merged_halves_fill_tensor(t: TensorTable, layer: nat)
    requires
        merged_gate_up(t, layer),
    ensures
        ({
            let (gate, up) = gate_and_up(t, layer);
            let half = t.dim(layer, "ffn_down.weight"@, 0, 0) * up_row(t, layer);
            &&& gate == t.at(layer, "ffn_up.weight"@)
            &&& gate + half == up
            &&& up + half == gate + t.dim(layer, "ffn_up.weight"@, 1, 0) * up_row(t, layer)
        }),
{
    let rows = t.dim(layer, "ffn_down.weight"@, 0, 0);
    let row = up_row(t, layer);
    assert((rows * 2) * row == rows * row + rows * row) by (nonlinear_arith);
}

/// Whether all that has to be counted for a layer fits 64 bits.
pub open spec fn layer_counts_fit(t: TensorTable, layer: nat, base: int) -> bool {
    let split = qkv_split(t, layer);
    let down_in = t.dim(layer, "ffn_down.weight"@, 0, 0);
    &&& !t.has(layer, "attn_q.weight"@) && t.has(layer, "attn_qkv.weight"@) ==> split_fits(
        split,
        split.row,
    )
    &&& has_fused_bias(t, layer, base) ==> split_fits(split, 4)
    &&& !t.has(layer, "ffn_gate.weight"@) && t.at(layer, "ffn_up.weight"@) != 0 ==> down_in * 2
        <= u64::MAX
    &&& merged_gate_up(t, layer) ==> up_row(t, layer) <= u64::MAX
}

/// Whether every tensor of a layer has a packed offset.
pub open spec fn layer_packs(t: TensorTable, layer: nat) -> bool {
    let base = layer_base(t.offsets, layer);
    let (gate, up) = gate_and_up(t, layer);
    &&& layer_counts_fit(t, layer, base)
    &&& qkv_packs(qkv_weights(t, layer), base)
    &&& qkv_packs(separate_biases(t, layer), base)
    &&& qkv_packs(qkv_biases(t, layer, base), base)
    &&& relative_pack(t.at(layer, "attn_norm.weight"@), base) is Ok
    &&& relative_pack(t.at(layer, "ffn_norm.weight"@), base) is Ok
    &&& relative_pack(t.at(layer, "attn_norm.bias"@), base) is Ok
    &&& relative_pack(t.at(layer, "ffn_norm.bias"@), base) is Ok
    &&& relative_pack(gate, base) is Ok
    &&& relative_pack(up, base) is Ok
    &&& relative_pack(t.at(layer, "attn_output.weight"@), base) is Ok
    &&& relative_pack(t.at(layer, "ffn_down.weight"@), base) is Ok
    &&& relative_pack(t.at(layer, "attn_q_norm.weight"@), base) is Ok
    &&& relative_pack(t.at(layer, "attn_k_norm.weight"@), base) is Ok
}

/// The first of two packed offsets, or the second where the first is absent and
/// the model shares its block norm.
pub open spec fn norm_or_shared(own: u32, other: u32, shared: bool) -> u32 {
    if shared && own == 0 {
        other
    } else {
        own
    }
}

/// 1 for a Q4_K tensor, else 0.
pub open spec fn is_q4k(quant: u32) -> u32 {
    if quant == 12 {
        1
    } else {
        0
    }
}

/// The packed offsets of a layer. Phi models may ship one norm per block, which
/// then serves the feed-forward part too.
pub open spec fn packed_layer(t: TensorTable, phi: bool, layer: nat) -> LayerOffsets {
    let base = layer_base(t.offsets, layer);
    let w = qkv_weights(t, layer);
    let b = qkv_biases(t, layer, base);
    let (gate, up) = gate_and_up(t, layer);
    let norm = packed_or_zero(t.at(layer, "attn_norm.weight"@), base);
    let norm_bias = packed_or_zero(t.at(layer, "attn_norm.bias"@), base);
    LayerOffsets {
        attn_norm: norm,
        attn_norm_bias: norm_bias,
        attn_q: packed_or_zero(w.q, base),
        attn_k: packed_or_zero(w.k, base),
        attn_v: packed_or_zero(w.v, base),
        attn_out: packed_or_zero(t.at(layer, "attn_output.weight"@), base),
        ffn_norm: norm_or_shared(
            packed_or_zero(t.at(layer, "ffn_norm.weight"@), base),
            norm,
            phi,
        ),
        ffn_norm_bias: norm_or_shared(
            packed_or_zero(t.at(layer, "ffn_norm.bias"@), base),
            norm_bias,
            phi,
        ),
        ffn_gate: packed_or_zero(gate, base),
        ffn_down: packed_or_zero(t.at(layer, "ffn_down.weight"@), base),
        ffn_up: packed_or_zero(up, base),
        layer_idx: (layer % 0x1_0000_0000) as u32,
        attn_q_norm: packed_or_zero(t.at(layer, "attn_q_norm.weight"@), base),
        attn_k_norm: packed_or_zero(t.at(layer, "attn_k_norm.weight"@), base),
        attn_q_bias: packed_or_zero(b.q, base),
        attn_k_bias: packed_or_zero(b.k, base),
        attn_v_bias: packed_or_zero(b.v, base),
        v_is_q4k: is_q4k(qkv_quants(t, layer).1),
        ffn_down_is_q4k: is_q4k(t.quant(layer, "ffn_down.weight"@)),
        ple_inp_gate: 0,
        ple_proj: 0,
        ple_layer_output_scale: 0,
        ple_rope_freqs: 0,
        ple_attn_post_norm: 0,
        ple_ffn_post_norm: 0,
        ple_post_norm: 0,
        ple_enabled: 0,
    }
}

/// The compiled table's entry for a layer. A layer without a gate tensor takes
/// the up tensor's type for its gate.
pub open spec fn layer_entry(t: TensorTable, phi: bool, layer: nat) -> CompiledLayerEntry {
    let up = t.quant(layer, "ffn_up.weight"@);
    CompiledLayerEntry {
        offsets: packed_layer(t, phi, layer),
        blob_base_words: ((layer_base(t.offsets, layer) / 4) % 0x1_0000_0000) as u32,
        quant_qk: qkv_quants(t, layer).0,
        quant_v: qkv_quants(t, layer).1,
        quant_attn_out: t.quant(layer, "attn_output.weight"@),
        quant_ffn_down: t.quant(layer, "ffn_down.weight"@),
        quant_ffn_gate: if t.has(layer, "ffn_gate.weight"@) {
            t.quant(layer, "ffn_gate.weight"@)
        } else {
            up
        },
        quant_ffn_up: up,
    }
}

/// Where the key and value parts of a fused tensor begin, where they can be
/// counted in 64 bits.
fn split_exec(start: u64, dim_q: u64, dim_k: u64, row: u64) -> (r: Option<(u64, u64)>)
    ensures
        ({
            let split = QkvSplit { dim_q: dim_q as int, dim_k: dim_k as int, row: 0 };
            let places = split_at(start as int, split, row as int);
            match r {
                Some((k, v)) => {
                    &&& split_fits(split, row as int)
                    &&& k == places.k
                    &&& v == places.v
                },
                None => !split_fits(split, row as int) || places.v > u64::MAX,
            }
        }),
{
    let rows: u64 = match dim_q.checked_add(dim_k) {
        Some(rows) => rows,
        None => {
            return None;
        },
    };
    let bytes: u64 = match rows.checked_mul(row) {
        Some(bytes) => bytes,
        None => {
            return None;
        },
    };
    let v: u64 = match start.checked_add(bytes) {
        Some(v) => v,
        None => {
            return None;
        },
    };
    assert(0 <= dim_q * row <= rows * row) by (nonlinear_arith)
        requires
            0 <= dim_q <= rows,
            row >= 0,
    ;
    Some((start + dim_q * row, v))
}

/// Packs three places relative to `base`.
fn pack_three(q: u64, k: u64, v: u64, base: u64) -> (r: Option<(u32, u32, u32)>)
    ensures
        ({
            let places = Qkv { q: q as int, k: k as int, v: v as int };
            match r {
                Some((pq, pk, pv)) => {
                    &&& qkv_packs(places, base as int)
                    &&& pq == packed_or_zero(places.q, base as int)
                    &&& pk == packed_or_zero(places.k, base as int)
                    &&& pv == packed_or_zero(places.v, base as int)
                },
                None => !qkv_packs(places, base as int),
            }
        }),
{
    match (pack_relative(q, base), pack_relative(k, base), pack_relative(v, base)) {
        (Ok(pq), Ok(pk), Ok(pv)) => Some((pq, pk, pv)),
        _ => None,
    }
}

/// Packs a layer's query, key and value weights.
fn pack_qkv_weights(t: &Tables, layer: usize, base: u64) -> (r: Option<(u32, u32, u32)>)
    ensures
        ({
            let split = qkv_split(t@, layer as nat);
            let w = qkv_weights(t@, layer as nat);
            let fits = !t@.has(layer as nat, "attn_q.weight"@) && t@.has(
                layer as nat,
                "attn_qkv.weight"@,
            ) ==> split_fits(split, split.row);
            match r {
                Some((q, k, v)) => {
                    &&& fits
                    &&& qkv_packs(w, base as int)
                    &&& q == packed_or_zero(w.q, base as int)
                    &&& k == packed_or_zero(w.k, base as int)
                    &&& v == packed_or_zero(w.v, base as int)
                },
                None => !fits || !qkv_packs(w, base as int),
            }
        }),
{
    if t.has(layer, "attn_q.weight") {
        let q: u64 = t.at(layer, "attn_q.weight");
        let k: u64 = t.at(layer, "attn_k.weight");
        let v: u64 = t.at(layer, "attn_v.weight");
        pack_three(q, k, v, base)
    } else if t.has(layer, "attn_qkv.weight") {
        let start: u64 = t.at(layer, "attn_qkv.weight");
        let (dim_q, dim_k) = qkv_split_dims(t, layer);
        let dim_in: u64 = t.dim(layer, "attn_qkv.weight", 0, 0);
        let row: u64 = match checked_row_bytes(t.quant(layer, "attn_qkv.weight"), dim_in) {
            Some(row) => row,
            None => {
                return None;
            },
        };
        match split_exec(start, dim_q, dim_k, row) {
            Some((k, v)) => pack_three(start, k, v, base),
            None => None,
        }
    } else {
        pack_three(0, 0, 0, base)
    }
}

/// Packs a layer's query, key and value biases.
fn pack_qkv_biases(t: &Tables, layer: usize, base: u64) -> (r: Option<(u32, u32, u32)>)
    ensures
        ({
            let own = separate_biases(t@, layer as nat);
            let b = qkv_biases(t@, layer as nat, base as int);
            let fits = has_fused_bias(t@, layer as nat, base as int) ==> split_fits(
                qkv_split(t@, layer as nat),
                4,
            );
            match r {
                Some((q, k, v)) => {
                    &&& fits
                    &&& qkv_packs(own, base as int)
                    &&& qkv_packs(b, base as int)
                    &&& q == packed_or_zero(b.q, base as int)
                    &&& k == packed_or_zero(b.k, base as int)
                    &&& v == packed_or_zero(b.v, base as int)
                },
                None => !fits || !qkv_packs(own, base as int) || !qkv_packs(b, base as int),
            }
        }),
{
    let q: u64 = t.at(layer, "attn_q.bias");
    let k: u64 = t.at(layer, "attn_k.bias");
    let v: u64 = t.at(layer, "attn_v.bias");
    let own = match pack_three(q, k, v, base) {
        Some(own) => own,
        None => {
            return None;
        },
    };
    if own.0 != 0 || own.1 != 0 || own.2 != 0 {
        return Some(own);
    }
    if !t.has(layer, "attn_qkv.weight") || !t.has(layer, "attn_qkv.bias") {
        return Some(own);
    }
    let start: u64 = t.at(layer, "attn_qkv.bias");
    let (dim_q, dim_k) = qkv_split_dims(t, layer);
    match split_exec(start, dim_q, dim_k, 4) {
        Some((k, v)) => pack_three(start, k, v, base),
        None => None,
    }
}

/// Packs a layer's gate and up weights.
fn pack_gate_and_up(t: &Tables, layer: usize, base: u64) -> (r: Option<(u32, u32)>)
    ensures
        ({
            let l = layer as nat;
            let down_in = t@.dim(l, "ffn_down.weight"@, 0, 0);
            let (gate, up) = gate_and_up(t@, l);
            let fits = {
                &&& !t@.has(l, "ffn_gate.weight"@) && t@.at(l, "ffn_up.weight"@) != 0 ==> down_in
                    * 2 <= u64::MAX
                &&& merged_gate_up(t@, l) ==> up_row(t@, l) <= u64::MAX
            };
            match r {
                Some((g, u)) => {
                    &&& fits
                    &&& relative_pack(gate, base as int) == Ok::<u32, OffsetError>(g)
                    &&& relative_pack(up, base as int) == Ok::<u32, OffsetError>(u)
                },
                None => !fits || relative_pack(gate, base as int) is Err || relative_pack(
                    up,
                    base as int,
                ) is Err,
            }
        }),
{
    let up_at: u64 = t.at(layer, "ffn_up.weight");
    let mut gate: u64 = t.at(layer, "ffn_gate.weight");
    let mut up: u64 = up_at;
    if !t.has(layer, "ffn_gate.weight") && up_at != 0 {
        let down_in: u64 = t.dim(layer, "ffn_down.weight", 0, 0);
        let up_out: u64 = t.dim(layer, "ffn_up.weight", 1, 0);
        if down_in > u64::MAX / 2 {
            return None;
        }
        if down_in != 0 && up_out == down_in * 2 {
            let in_dim: u64 = t.dim(layer, "ffn_up.weight", 0, 0);
            let row: u64 = match checked_row_bytes(t.quant(layer, "ffn_up.weight"), in_dim) {
                Some(row) => row,
                None => {
                    return None;
                },
            };
            let bytes: u64 = match down_in.checked_mul(row) {
                Some(bytes) => bytes,
                None => {
                    return None;
                },
            };
            gate = up_at;
            up = match up_at.checked_add(bytes) {
                Some(up) => up,
                None => {
                    return None;
                },
            };
        }
    }
    match (pack_relative(gate, base), pack_relative(up, base)) {
        (Ok(g), Ok(u)) => Some((g, u)),
        _ => None,
    }
}

/// Compiles the table entry of a layer; `None` where some tensor of the layer
/// has no packed offset.
pub fn compile_layer(t: &Tables, phi: bool, layer: usize) -> (r: Option<CompiledLayerEntry>)
    ensures
        r == (if layer_packs(t@, layer as nat) {
            Some(layer_entry(t@, phi, layer as nat))
        } else {
            None
        }),
{
    let base: u64 = layer_base_exec(t.offsets, layer);
    let (attn_q, attn_k, attn_v) = match pack_qkv_weights(t, layer, base) {
        Some(w) => w,
        None => {
            return None;
        },
    };
    let (attn_q_bias, attn_k_bias, attn_v_bias) = match pack_qkv_biases(t, layer, base) {
        Some(b) => b,
        None => {
            return None;
        },
    };
    let (ffn_gate, ffn_up) = match pack_gate_and_up(t, layer, base) {
        Some(g) => g,
        None => {
            return None;
        },
    };
    let (attn_norm, own_ffn_norm) = match (
        pack_relative(t.at(layer, "attn_norm.weight"), base),
        pack_relative(t.at(layer, "ffn_norm.weight"), base),
    ) {
        (Ok(a), Ok(f)) => (a, f),
        _ => {
            return None;
        },
    };
    let (attn_norm_bias, own_ffn_norm_bias) = match (
        pack_relative(t.at(layer, "attn_norm.bias"), base),
        pack_relative(t.at(layer, "ffn_norm.bias"), base),
    ) {
        (Ok(a), Ok(f)) => (a, f),
        _ => {
            return None;
        },
    };
    let (attn_out, ffn_down) = match (
        pack_relative(t.at(layer, "attn_output.weight"), base),
        pack_relative(t.at(layer, "ffn_down.weight"), base),
    ) {
        (Ok(a), Ok(f)) => (a, f),
        _ => {
            return None;
        },
    };
    let (attn_q_norm, attn_k_norm) = match (
        pack_relative(t.at(layer, "attn_q_norm.weight"), base),
        pack_relative(t.at(layer, "attn_k_norm.weight"), base),
    ) {
        (Ok(a), Ok(f)) => (a, f),
        _ => {
            return None;
        },
    };
    let (quant_qk, quant_v): (u32, u32) = if t.has(layer, "attn_q.weight") {
        (t.quant(layer, "attn_q.weight"), t.quant(layer, "attn_v.weight"))
    } else if t.has(layer, "attn_qkv.weight") {
        let fused: u32 = t.quant(layer, "attn_qkv.weight");
        (fused, fused)
    } else {
        (2, 2)
    };
    let quant_ffn_down: u32 = t.quant(layer, "ffn_down.weight");
    let quant_ffn_up: u32 = t.quant(layer, "ffn_up.weight");
    let quant_ffn_gate: u32 = if t.has(layer, "ffn_gate.weight") {
        t.quant(layer, "ffn_gate.weight")
    } else {
        quant_ffn_up
    };
    let offsets = LayerOffsets {
        attn_norm,
        attn_norm_bias,
        attn_q,
        attn_k,
        attn_v,
        attn_out,
        ffn_norm: if phi && own_ffn_norm == 0 {
            attn_norm
        } else {
            own_ffn_norm
        },
        ffn_norm_bias: if phi && own_ffn_norm_bias == 0 {
            attn_norm_bias
        } else {
            own_ffn_norm_bias
        },
        ffn_gate,
        ffn_down,
        ffn_up,
        layer_idx: low_u32(layer as u64),
        attn_q_norm,
        attn_k_norm,
        attn_q_bias,
        attn_k_bias,
        attn_v_bias,
        v_is_q4k: if quant_v == 12 {
            1
        } else {
            0
        },
        ffn_down_is_q4k: if quant_ffn_down == 12 {
            1
        } else {
            0
        },
        ple_inp_gate: 0,
        ple_proj: 0,
        ple_layer_output_scale: 0,
        ple_rope_freqs: 0,
        ple_attn_post_norm: 0,
        ple_ffn_post_norm: 0,
        ple_post_norm: 0,
        ple_enabled: 0,
    };
    Some(
        CompiledLayerEntry {
            offsets,
            blob_base_words: low_u32(base / 4),
            quant_qk,
            quant_v,
            quant_attn_out: t.quant(layer, "attn_output.weight"),
            quant_ffn_down,
            quant_ffn_gate,
            quant_ffn_up,
        },
    )
}

/// A tensor of a layer that lies past byte 0 is found again from its packed
/// offset, which is never the mark of an absent tensor.
pub proof fn law_layer_tensor_is_found_again(t: TensorTable, layer: nat, suffix: Seq<char>)
    requires
        t.has(layer, suffix),
        t.at(layer, suffix) > 0,
        relative_pack(t.at(layer, suffix), layer_base(t.offsets, layer)) is Ok,
    ensures
        packed_or_zero(t.at(layer, suffix), layer_base(t.offsets, layer)) != 0,
        layer_base(t.offsets, layer) + 2 * packed_or_zero(
            t.at(layer, suffix),
            layer_base(t.offsets, layer),
        ) == t.at(layer, suffix),
        layer_base(t.offsets, layer) % 4 == 0,
{
    let name = layer_name(layer, suffix);
    let prefix = layer_name(layer, Seq::empty());
    let all = layer_offset_set(t.offsets, layer);
    assert(name.subrange(0, prefix.len() as int) =~= prefix);
    assert(t.offsets.contains_key(name) && occurs_at(name, prefix, 0));
    assert(all.contains(t.at(layer, suffix)));
    lemma_least_positive_exists(all, t.at(layer, suffix));
    law_present_tensor_is_not_zero(least_positive(all), t.at(layer, suffix));
}

/// Whether a model has `n` layers: those whose attention norm it has, counted
/// from 0 to the first that lacks it.
pub open spec fn is_layer_count(t: TensorTable, n: nat) -> bool {
    &&& forall|i: nat| i < n ==> #[trigger] t.has(i, "attn_norm.weight"@)
    &&& !t.has(n, "attn_norm.weight"@)
}

/// Whether `r` is the compiled table of a model: an entry for each layer, or the
/// first layer that has none.
pub open spec fn is_compiled_table(
    t: TensorTable,
    phi: bool,
    r: Result<Seq<CompiledLayerEntry>, usize>,
) -> bool {
    match r {
        Ok(table) => {
            &&& is_layer_count(t, table.len())
            &&& forall|i: nat|
                i < table.len() ==> layer_packs(t, i) && #[trigger] table[i as int] == layer_entry(
                    t,
                    phi,
                    i,
                )
        },
        Err(layer) => {
            &&& forall|i: nat| i <= layer ==> #[trigger] t.has(i, "attn_norm.weight"@)
            &&& forall|i: nat| i < layer ==> #[trigger] layer_packs(t, i)
            &&& !layer_packs(t, layer as nat)
        },
    }
}

/// A table of `n` names does not hold the attention norms of more than `n`
/// layers.
proof fn lemma_layers_have_names(t: &Tables, n: nat)
    requires
        forall|i: nat| i < n ==> #[trigger] t@.has(i, "attn_norm.weight"@),
        forall|name: Seq<char>| #[trigger]
            t.offsets@.contains_key(name) <==> exists|i: int|
                0 <= i < t.offsets.names().len() && t.offsets.names()[i] == name,
    ensures
        n <= t.offsets.names().len(),
{
    let names = t.offsets.names();
    let suffix = "attn_norm.weight"@;
    let of = |i: int| choose|k: int| 0 <= k < names.len() && names[k] == layer_name(i as nat, suffix);
    let places = Seq::new(n, of);
    assert forall|i: int| 0 <= i < n implies 0 <= #[trigger] places[i] < names.len()
        && names[places[i]] == layer_name(i as nat, suffix) by {
        assert(t@.has(i as nat, suffix));
    }
    assert(places.no_duplicates()) by {
        assert forall|i: int, j: int|
            0 <= i < places.len() && 0 <= j < places.len() && i != j implies places[i]
            != places[j] by {
            if places[i] == places[j] {
                crate::names::law_layer_names_differ(i as nat, j as nat, suffix);
            }
        }
    }
    places.unique_seq_to_set();
    let all = Set::new(|k: int| 0 <= k < names.len());
    vstd::set_lib::lemma_int_range(0, names.len() as int);
    assert(all =~= vstd::set_lib::set_int_range(0, names.len() as int));
    assert(places.to_set().subset_of(all));
    vstd::set_lib::lemma_len_subset(places.to_set(), all);
}

/// Compiles the table entries of all layers.
///
/// `Err` gives the first layer some tensor of which has no packed offset.
pub fn compile_layers(t: &Tables, phi: bool) -> (r: Result<Vec<CompiledLayerEntry>, usize>)
    ensures
        is_compiled_table(
            t@,
            phi,
            match r {
                Ok(table) => Ok(table@),
                Err(layer) => Err(layer),
            },
        ),
{
    let mut table: Vec<CompiledLayerEntry> = Vec::new();
    let n: usize = t.offsets.len();
    let mut layer: usize = 0;
    while t.has(layer, "attn_norm.weight")
        invariant
            n == t.offsets.names().len(),
            forall|name: Seq<char>| #[trigger]
                t.offsets@.contains_key(name) <==> exists|i: int|
                    0 <= i < t.offsets.names().len() && t.offsets.names()[i] == name,
            layer == table@.len(),
            layer <= n,
            forall|i: nat| i < layer ==> #[trigger] t@.has(i, "attn_norm.weight"@),
            forall|i: nat| i < layer ==> #[trigger] layer_packs(t@, i),
            forall|i: nat| i < layer ==> #[trigger] table@[i as int] == layer_entry(t@, phi, i),
        decreases n - layer,
    {
        proof {
            lemma_layers_have_names(t, (layer + 1) as nat);
        }
        match compile_layer(t, phi, layer) {
            Some(entry) => {
                table.push(entry);
            },
            None => {
                return Err(layer);
            },
        }
        layer += 1;
    }
    Ok(table)
}

/// The tensors that fix the base byte when a layer is looked up directly.
pub open spec fn base_suffixes() -> Seq<Seq<char>> {
    seq![
        "attn_norm.weight"@,
        "attn_norm.bias"@,
        "attn_q.weight"@,
        "attn_k.weight"@,
        "attn_v.weight"@,
        "attn_qkv.weight"@,
        "attn_output.weight"@,
        "ffn_norm.weight"@,
        "ffn_norm.bias"@,
        "ffn_gate.weight"@,
        "ffn_down.weight"@,
        "ffn_up.weight"@,
        "attn_q_norm.weight"@,
        "attn_k_norm.weight"@,
        "attn_q.bias"@,
        "attn_k.bias"@,
        "attn_v.bias"@,
    ]
}

/// The base byte of a layer that is looked up directly.
pub open spec fn direct_base(t: TensorTable, layer: nat) -> int {
    base_below(
        least_positive(
            Set::new(
                |o: int|
                    exists|i: int|
                        0 <= i < base_suffixes().len() && t.has(
                            layer,
                            #[trigger] base_suffixes()[i],
                        ) && t.at(layer, base_suffixes()[i]) == o,
            ),
        ),
    )
}

fn direct_base_exec(t: &Tables, layer: usize) -> (base: u64)
    ensures
        base == direct_base(t@, layer as nat),
{
    let suffixes: [&str; 17] = [
        "attn_norm.weight",
        "attn_norm.bias",
        "attn_q.weight",
        "attn_k.weight",
        "attn_v.weight",
        "attn_qkv.weight",
        "attn_output.weight",
        "ffn_norm.weight",
        "ffn_norm.bias",
        "ffn_gate.weight",
        "ffn_down.weight",
        "ffn_up.weight",
        "attn_q_norm.weight",
        "attn_k_norm.weight",
        "attn_q.bias",
        "attn_k.bias",
        "attn_v.bias",
    ];
    let ghost l = layer as nat;
    let ghost all = Set::new(
        |o: int|
            exists|i: int|
                0 <= i < base_suffixes().len() && t@.has(l, #[trigger] base_suffixes()[i]) && t@.at(
                    l,
                    base_suffixes()[i],
                ) == o,
    );
    let ghost mut seen: Set<int> = Set::empty();
    let mut best: u64 = 0;
    let mut i: usize = 0;
    while i < 17
        invariant
            i <= 17,
            l == layer,
            suffixes@.len() == 17,
            base_suffixes().len() == 17,
            forall|k: int| 0 <= k < 17 ==> #[trigger] suffixes@[k]@ == base_suffixes()[k],
            is_least_positive(seen, best as int),
            forall|o: int| #[trigger]
                seen.contains(o) ==> exists|k: int|
                    0 <= k < 17 && t@.has(l, #[trigger] base_suffixes()[k]) && t@.at(
                        l,
                        base_suffixes()[k],
                    ) == o,
            forall|k: int|
                0 <= k < i && t@.has(l, #[trigger] base_suffixes()[k]) ==> seen.contains(
                    t@.at(l, base_suffixes()[k]),
                ),
        decreases 17 - i,
    {
        let suffix = suffixes[i];
        assert(suffix@ == base_suffixes()[i as int]);
        if t.has(layer, suffix) {
            let o: u64 = t.at(layer, suffix);
            proof {
                seen = seen.insert(o as int);
            }
            if o > 0 && (best == 0 || o < best) {
                best = o;
            }
        }
        i += 1;
    }
    proof {
        assert(seen =~= all);
        lemma_least_positive(all, best as int);
    }
    base_below_exec(best)
}

/// Why a layer that exists cannot be looked up directly.
#[derive(Debug, Clone, Copy, PartialEq, Eq, Structural)]
pub enum LayerError {
    /// The layer lacks a tensor that every layer needs.
    MissingTensor,
    /// The layer has its tensors, but some offset does not pack.
    Unpackable,
}

/// A place and the fused tensor that stands in where it is missing.
pub open spec fn at_or_fused(
    t: TensorTable,
    layer: nat,
    suffix: Seq<char>,
    fused: Seq<char>,
) -> Option<int> {
    if t.has(layer, suffix) {
        Some(t.at(layer, suffix))
    } else if t.has(layer, fused) {
        Some(t.at(layer, fused))
    } else {
        None
    }
}

/// Whether a layer has every tensor that a layer needs; query, key and value may
/// be fused, and so may gate and up.
pub open spec fn direct_is_complete(t: TensorTable, layer: nat) -> bool {
    &&& t.has(layer, "attn_norm.weight"@)
    &&& at_or_fused(t, layer, "attn_q.weight"@, "attn_qkv.weight"@) is Some
    &&& at_or_fused(t, layer, "attn_k.weight"@, "attn_qkv.weight"@) is Some
    &&& at_or_fused(t, layer, "attn_v.weight"@, "attn_qkv.weight"@) is Some
    &&& t.has(layer, "attn_output.weight"@)
    &&& t.has(layer, "ffn_norm.weight"@)
    &&& t.has(layer, "ffn_down.weight"@)
    &&& at_or_fused(t, layer, "ffn_up.weight"@, "ffn_gate_up.weight"@) is Some
}

/// The places of a layer's tensors in a direct lookup, in the order of the
/// offsets' fields from `attn_norm` to `ffn_up`, then the norms and biases of
/// query, key and value.
pub open spec fn direct_places(t: TensorTable, layer: nat) -> Seq<int> {
    seq![
        t.at(layer, "attn_norm.weight"@),
        t.at(layer, "attn_norm.bias"@),
        at_or_fused(t, layer, "attn_q.weight"@, "attn_qkv.weight"@)->0,
        at_or_fused(t, layer, "attn_k.weight"@, "attn_qkv.weight"@)->0,
        at_or_fused(t, layer, "attn_v.weight"@, "attn_qkv.weight"@)->0,
        t.at(layer, "attn_output.weight"@),
        t.at(layer, "ffn_norm.weight"@),
        t.at(layer, "ffn_norm.bias"@),
        t.at(layer, "ffn_gate.weight"@),
        t.at(layer, "ffn_down.weight"@),
        at_or_fused(t, layer, "ffn_up.weight"@, "ffn_gate_up.weight"@)->0,
        t.at(layer, "attn_q_norm.weight"@),
        t.at(layer, "attn_k_norm.weight"@),
        t.at(layer, "attn_q.bias"@),
        t.at(layer, "attn_k.bias"@),
        t.at(layer, "attn_v.bias"@),
    ]
}

/// Whether all of a layer's places pack in a direct lookup.
pub open spec fn direct_packs(t: TensorTable, layer: nat) -> bool {
    forall|i: int|
        0 <= i < 16 ==> relative_pack(#[trigger] direct_places(t, layer)[i], direct_base(t, layer))
            is Ok
}

/// Whether a layer's tensor is known to be Q4_K.
pub open spec fn known_q4k(t: TensorTable, layer: nat, suffix: Seq<char>) -> u32 {
    let name = layer_name(layer, suffix);
    if t.types.contains_key(name) {
        is_q4k(t.types[name])
    } else {
        0
    }
}

/// The packed offsets of a layer in a direct lookup.
pub open spec fn direct_layer(t: TensorTable, layer: nat) -> LayerOffsets {
    let base = direct_base(t, layer);
    let at = direct_places(t, layer);
    LayerOffsets {
        attn_norm: packed_or_zero(at[0], base),
        attn_norm_bias: packed_or_zero(at[1], base),
        attn_q: packed_or_zero(at[2], base),
        attn_k: packed_or_zero(at[3], base),
        attn_v: packed_or_zero(at[4], base),
        attn_out: packed_or_zero(at[5], base),
        ffn_norm: packed_or_zero(at[6], base),
        ffn_norm_bias: packed_or_zero(at[7], base),
        ffn_gate: packed_or_zero(at[8], base),
        ffn_down: packed_or_zero(at[9], base),
        ffn_up: packed_or_zero(at[10], base),
        layer_idx: (layer % 0x1_0000_0000) as u32,
        attn_q_norm: packed_or_zero(at[11], base),
        attn_k_norm: packed_or_zero(at[12], base),
        attn_q_bias: packed_or_zero(at[13], base),
        attn_k_bias: packed_or_zero(at[14], base),
        attn_v_bias: packed_or_zero(at[15], base),
        v_is_q4k: known_q4k(t, layer, "attn_v.weight"@),
        ffn_down_is_q4k: known_q4k(t, layer, "ffn_down.weight"@),
        ple_inp_gate: 0,
        ple_proj: 0,
        ple_layer_output_scale: 0,
        ple_rope_freqs: 0,
        ple_attn_post_norm: 0,
        ple_ffn_post_norm: 0,
        ple_post_norm: 0,
        ple_enabled: 0,
    }
}

/// The outcome of looking a layer up directly.
pub open spec fn direct_lookup(t: TensorTable, layer: nat) -> Result<
    Option<LayerOffsets>,
    LayerError,
> {
    if !t.has(layer, "attn_norm.weight"@) {
        Ok(None)
    } else if !direct_is_complete(t, layer) {
        Err(LayerError::MissingTensor)
    } else if !direct_packs(t, layer) {
        Err(LayerError::Unpackable)
    } else {
        Ok(Some(direct_layer(t, layer)))
    }
}

/// Whether all tensors of a layer are among those that fix its base byte in a
/// direct lookup.
pub open spec fn has_only_base_tensors(t: TensorTable, layer: nat) -> bool {
    forall|name: Seq<char>| #[trigger]
        t.offsets.contains_key(name) && occurs_at(name, layer_name(layer, Seq::empty()), 0)
            ==> exists|i: int|
            0 <= i < base_suffixes().len() && name == layer_name(
                layer,
                #[trigger] base_suffixes()[i],
            )
}

/// Names of one layer differ where their suffixes do, and begin with the layer's
/// prefix.
proof fn lemma_layer_name_parts(layer: nat, a: Seq<char>, b: Seq<char>)
    ensures
        occurs_at(layer_name(layer, a), layer_name(layer, Seq::empty()), 0),
        layer_name(layer, a) == layer_name(layer, b) ==> a == b,
{
    let prefix = layer_name(layer, Seq::empty());
    let n = prefix.len() as int;
    assert(layer_name(layer, a) =~= prefix + a);
    assert(layer_name(layer, b) =~= prefix + b);
    assert((prefix + a).subrange(0, n) =~= prefix);
    assert((prefix + a).skip(n) =~= a);
    assert((prefix + b).skip(n) =~= b);
}

/// Where a layer has no tensors beyond those of a direct lookup, both ways of
/// reading it count from the same base.
proof fn lemma_bases_agree(t: TensorTable, layer: nat)
    requires
        has_only_base_tensors(t, layer),
    ensures
        direct_base(t, layer) == layer_base(t.offsets, layer),
{
    let direct = Set::new(
        |o: int|
            exists|i: int|
                0 <= i < base_suffixes().len() && t.has(layer, #[trigger] base_suffixes()[i])
                    && t.at(layer, base_suffixes()[i]) == o,
    );
    let table = layer_offset_set(t.offsets, layer);
    assert forall|o: int| direct.contains(o) implies table.contains(o) by {
        let i = choose|i: int|
            0 <= i < base_suffixes().len() && t.has(layer, #[trigger] base_suffixes()[i]) && t.at(
                layer,
                base_suffixes()[i],
            ) == o;
        lemma_layer_name_parts(layer, base_suffixes()[i], base_suffixes()[i]);
        assert(t.offsets.contains_key(layer_name(layer, base_suffixes()[i])));
    }
    assert forall|o: int| table.contains(o) implies direct.contains(o) by {
        let name = choose|name: Seq<char>| #[trigger]
            t.offsets.contains_key(name) && occurs_at(name, layer_name(layer, Seq::empty()), 0)
                && t.offsets[name] == o;
        let i = choose|i: int|
            0 <= i < base_suffixes().len() && name == layer_name(
                layer,
                #[trigger] base_suffixes()[i],
            );
        assert(t.has(layer, base_suffixes()[i]));
    }
    assert(direct =~= table);
}

/// Such a layer has no fused bias.
proof fn lemma_no_fused_bias(t: TensorTable, layer: nat)
    requires
        has_only_base_tensors(t, layer),
    ensures
        !t.has(layer, "attn_qkv.bias"@),
{
    if t.has(layer, "attn_qkv.bias"@) {
        let name = layer_name(layer, "attn_qkv.bias"@);
        lemma_layer_name_parts(layer, "attn_qkv.bias"@, "attn_qkv.bias"@);
        let i = choose|i: int|
            0 <= i < base_suffixes().len() && name == layer_name(
                layer,
                #[trigger] base_suffixes()[i],
            );
        lemma_layer_name_parts(layer, "attn_qkv.bias"@, base_suffixes()[i]);
        reveal_strlit("attn_qkv.bias");
        reveal_strlit("attn_norm.weight");
        reveal_strlit("attn_norm.bias");
        reveal_strlit("attn_q.weight");
        reveal_strlit("attn_k.weight");
        reveal_strlit("attn_v.weight");
        reveal_strlit("attn_qkv.weight");
        reveal_strlit("attn_output.weight");
        reveal_strlit("ffn_norm.weight");
        reveal_strlit("ffn_norm.bias");
        reveal_strlit("ffn_gate.weight");
        reveal_strlit("ffn_down.weight");
        reveal_strlit("ffn_up.weight");
        reveal_strlit("attn_q_norm.weight");
        reveal_strlit("attn_k_norm.weight");
        reveal_strlit("attn_q.bias");
        reveal_strlit("attn_k.bias");
        reveal_strlit("attn_v.bias");
        assert("attn_qkv.bias"@[5] == 'q' && "attn_qkv.bias"@[6] == 'k');
        assert("attn_qkv.bias"@.len() == 13);
        assert(base_suffixes()[i].len() != 13 || base_suffixes()[i][6] != 'k');
    }
}

/// For a layer that has tensors of its own for everything, and none beyond those
/// that a direct lookup counts, the direct lookup gives the offsets of the
/// compiled table.
pub proof fn law_direct_lookup_mirrors_table(t: TensorTable, layer: nat)
    requires
        t.has(layer, "attn_norm.weight"@),
        t.has(layer, "attn_q.weight"@),
        t.has(layer, "attn_k.weight"@),
        t.has(layer, "attn_v.weight"@),
        t.has(layer, "attn_output.weight"@),
        t.has(layer, "ffn_norm.weight"@),
        t.has(layer, "ffn_gate.weight"@),
        t.has(layer, "ffn_down.weight"@),
        t.has(layer, "ffn_up.weight"@),
        has_only_base_tensors(t, layer),
        layer_packs(t, layer),
    ensures
        direct_lookup(t, layer) == Ok::<Option<LayerOffsets>, LayerError>(
            Some(packed_layer(t, false, layer)),
        ),
{
    lemma_bases_agree(t, layer);
    lemma_no_fused_bias(t, layer);
}

fn at_or_fused_exec(t: &Tables, layer: usize, suffix: &str, fused: &str) -> (r: Option<u64>)
    ensures
        match at_or_fused(t@, layer as nat, suffix@, fused@) {
            Some(o) => r == Some(o as u64) && 0 <= o <= u64::MAX,
            None => r is None,
        },
{
    if t.has(layer, suffix) {
        Some(t.at(layer, suffix))
    } else if t.has(layer, fused) {
        Some(t.at(layer, fused))
    } else {
        None
    }
}

fn known_q4k_exec(t: &Tables, layer: usize, suffix: &str) -> (r: u32)
    ensures
        r == known_q4k(t@, layer as nat, suffix@),
{
    match t.types.get(layer_key(layer, suffix).as_str()) {
        Some(q) => if *q == 12 {
            1
        } else {
            0
        },
        None => 0,
    }
}

/// Looks the offsets of a layer up in the tensor tables. `Ok(None)` where the
/// model has no such layer.
pub fn lookup_layer(t: &Tables, layer: usize) -> (r: Result<Option<LayerOffsets>, LayerError>)
    ensures
        r == direct_lookup(t@, layer as nat),
{
    if !t.has(layer, "attn_norm.weight") {
        return Ok(None);
    }
    let (q, k, v, up) = match (
        at_or_fused_exec(t, layer, "attn_q.weight", "attn_qkv.weight"),
        at_or_fused_exec(t, layer, "attn_k.weight", "attn_qkv.weight"),
        at_or_fused_exec(t, layer, "attn_v.weight", "attn_qkv.weight"),
        at_or_fused_exec(t, layer, "ffn_up.weight", "ffn_gate_up.weight"),
    ) {
        (Some(q), Some(k), Some(v), Some(up)) => (q, k, v, up),
        _ => {
            return Err(LayerError::MissingTensor);
        },
    };
    if !t.has(layer, "attn_output.weight") || !t.has(layer, "ffn_norm.weight") || !t.has(
        layer,
        "ffn_down.weight",
    ) {
        return Err(LayerError::MissingTensor);
    }
    let places: [u64; 16] = [
        t.at(layer, "attn_norm.weight"),
        t.at(layer, "attn_norm.bias"),
        q,
        k,
        v,
        t.at(layer, "attn_output.weight"),
        t.at(layer, "ffn_norm.weight"),
        t.at(layer, "ffn_norm.bias"),
        t.at(layer, "ffn_gate.weight"),
        t.at(layer, "ffn_down.weight"),
        up,
        t.at(layer, "attn_q_norm.weight"),
        t.at(layer, "attn_k_norm.weight"),
        t.at(layer, "attn_q.bias"),
        t.at(layer, "attn_k.bias"),
        t.at(layer, "attn_v.bias"),
    ];
    let ghost spots = direct_places(t@, layer as nat);
    let base: u64 = direct_base_exec(t, layer);
    let mut packed: Vec<u32> = Vec::new();
    let mut i: usize = 0;
    assert(forall|j: int| 0 <= j < 16 ==> #[trigger] places@[j] == spots[j]);
    while i < 16
        invariant
            i <= 16,
            base == direct_base(t@, layer as nat),
            spots == direct_places(t@, layer as nat),
            places@.len() == 16,
            packed@.len() == i,
            direct_is_complete(t@, layer as nat),
            forall|j: int| 0 <= j < 16 ==> #[trigger] places@[j] == spots[j],
            forall|j: int|
                0 <= j < i ==> relative_pack(#[trigger] spots[j], base as int) is Ok
                    && packed@[j] == packed_or_zero(spots[j], base as int),
        decreases 16 - i,
    {
        assert(places@[i as int] == spots[i as int]);
        match pack_relative(places[i], base) {
            Ok(p) => {
                packed.push(p);
            },
            Err(_) => {
                return Err(LayerError::Unpackable);
            },
        }
        i += 1;
    }
    Ok(
        Some(
            LayerOffsets {
                attn_norm: packed[0],
                attn_norm_bias: packed[1],
                attn_q: packed[2],
                attn_k: packed[3],
                attn_v: packed[4],
                attn_out: packed[5],
                ffn_norm: packed[6],
                ffn_norm_bias: packed[7],
                ffn_gate: packed[8],
                ffn_down: packed[9],
                ffn_up: packed[10],
                layer_idx: low_u32(layer as u64),
                attn_q_norm: packed[11],
                attn_k_norm: packed[12],
                attn_q_bias: packed[13],
                attn_k_bias: packed[14],
                attn_v_bias: packed[15],
                v_is_q4k: known_q4k_exec(t, layer, "attn_v.weight"),
                ffn_down_is_q4k: known_q4k_exec(t, layer, "ffn_down.weight"),
                ple_inp_gate: 0,
                ple_proj: 0,
                ple_layer_output_scale: 0,
                ple_rope_freqs: 0,
                ple_attn_post_norm: 0,
                ple_ffn_post_norm: 0,
                ple_post_norm: 0,
                ple_enabled: 0,
            },
        ),
    )
}

/// The base of a layer lies one word before the word of its first tensor: every
/// tensor of the layer past byte 3 lies at least four bytes behind it, and one of
/// them less than eight.
pub proof fn law_base_is_a_word_before_the_first_tensor(
    t: TensorTable,
    layer: nat,
    suffix: Seq<char>,
)
    requires
        t.has(layer, suffix),
        t.at(layer, suffix) > 0,
    ensures
        ({
            let base = layer_base(t.offsets, layer);
            let all = layer_offset_set(t.offsets, layer);
            &&& base >= 0 && base % 4 == 0
            &&& base <= t.at(layer, suffix)
            &&& base > 0 ==> base + 4 <= t.at(layer, suffix)
            &&& exists|o: int| #[trigger] all.contains(o) && 0 < o < base + 8
        }),
{
    let name = layer_name(layer, suffix);
    let prefix = layer_name(layer, Seq::empty());
    let all = layer_offset_set(t.offsets, layer);
    assert(name.subrange(0, prefix.len() as int) =~= prefix);
    assert(t.offsets.contains_key(name) && occurs_at(name, prefix, 0));
    assert(all.contains(t.at(layer, suffix)));
    lemma_least_positive_exists(all, t.at(layer, suffix));
    assert(all.contains(least_positive(all)));
}

/// The base of a direct lookup lies one word before the word of the first tensor that
/// the lookup can lead to: none of them lies before it.
pub proof fn law_direct_base_lies_before_every_tensor(t: TensorTable, layer: nat, suffix: Seq<char>)
    requires
        t.has(layer, suffix),
        t.at(layer, suffix) > 0,
        ({
            ||| suffix == "attn_norm.weight"@ || suffix == "attn_norm.bias"@
            ||| suffix == "attn_q.weight"@ || suffix == "attn_k.weight"@
            ||| suffix == "attn_v.weight"@ || suffix == "attn_qkv.weight"@
            ||| suffix == "attn_output.weight"@
            ||| suffix == "ffn_norm.weight"@ || suffix == "ffn_norm.bias"@
            ||| suffix == "ffn_gate.weight"@ || suffix == "ffn_down.weight"@
            ||| suffix == "ffn_up.weight"@
            ||| suffix == "attn_q_norm.weight"@ || suffix == "attn_k_norm.weight"@
            ||| suffix == "attn_q.bias"@ || suffix == "attn_k.bias"@ || suffix == "attn_v.bias"@
        }),
    ensures
        ({
            let base = direct_base(t, layer);
            &&& base >= 0 && base % 4 == 0
            &&& base <= t.at(layer, suffix)
            &&& base > 0 ==> base + 4 <= t.at(layer, suffix)
        }),
{
    let s = base_suffixes();
    let all = Set::new(
        |o: int|
            exists|i: int|
                0 <= i < base_suffixes().len() && t.has(layer, #[trigger] base_suffixes()[i])
                    && t.at(layer, base_suffixes()[i]) == o,
    );
    let i = choose|i: int| 0 <= i < s.len() && #[trigger] s[i] == suffix;
    assert(0 <= i < s.len() && s[i] == suffix) by {
        assert(s[0] == "attn_norm.weight"@);
        assert(s[1] == "attn_norm.bias"@);
        assert(s[2] == "attn_q.weight"@);
        assert(s[3] == "attn_k.weight"@);
        assert(s[4] == "attn_v.weight"@);
        assert(s[5] == "attn_qkv.weight"@);
        assert(s[6] == "attn_output.weight"@);
        assert(s[7] == "ffn_norm.weight"@);
        assert(s[8] == "ffn_norm.bias"@);
        assert(s[9] == "ffn_gate.weight"@);
        assert(s[10] == "ffn_down.weight"@);
        assert(s[11] == "ffn_up.weight"@);
        assert(s[12] == "attn_q_norm.weight"@);
        assert(s[13] == "attn_k_norm.weight"@);
        assert(s[14] == "attn_q.bias"@);
        assert(s[15] == "attn_k.bias"@);
        assert(s[16] == "attn_v.bias"@);
    }
    assert(t.has(layer, base_suffixes()[i]));
    assert(all.contains(t.at(layer, suffix)));
    lemma_least_positive_exists(all, t.at(layer, suffix));
}

/// A layer without a tensor past byte 0 has its base at byte 0.
pub proof fn law_base_of_a_layer_without_tensors(t: TensorTable, layer: nat)
    requires
        forall|name: Seq<char>| #[trigger]
            t.offsets.contains_key(name) && occurs_at(name, layer_name(layer, Seq::empty()), 0)
                ==> t.offsets[name] == 0,
    ensures
        layer_base(t.offsets, layer) == 0,
{
    let all = layer_offset_set(t.offsets, layer);
    assert(is_least_positive(all, 0));
    lemma_least_positive(all, 0);
}

} // verus!
