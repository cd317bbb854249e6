//! Where the table of a model's layers leads.
//!
//! A shader finds a tensor of a layer from the layer's base word and the tensor's
//! packed offset, and decodes it by the type that the table gives. The laws here say
//! that both are those of the tensor that the header of the file names.

use crate::layers::{
    direct_base, direct_lookup, gate_and_up, has_fused_bias, is_compiled_table, is_layer_count,
    law_layer_tensor_is_found_again, layer_base, layer_entry, layer_packs, merged_gate_up,
    packed_or_zero, qkv_biases, qkv_split, qkv_weights, up_row, LayerError, TensorTable,
};
use crate::names::layer_name;
use crate::offsets::{CompiledLayerEntry, LayerOffsets};
use crate::quant::row_bytes;
use vstd::prelude::*;

verus! {

/// Whether a packed offset leads, from the base word, to the tensor of this name, or
/// says that there is none.
pub open spec fn leads_to(packed: u32, base_words: u32, t: TensorTable, name: Seq<char>) -> bool {
    if t.offsets.contains_key(name) && t.offsets[name] > 0 {
        packed != 0 && 4 * base_words + 2 * packed == t.offsets[name]
    } else {
        packed == 0
    }
}

/// Whether `quant` is the type of the tensor of this name; where the header gives
/// none, it is Q4_0.
pub open spec fn is_type_of(quant: u32, t: TensorTable, name: Seq<char>) -> bool {
    if t.types.contains_key(name) {
        quant == t.types[name]
    } else {
        quant == 2
    }
}

/// Whether a layer lies in 32-bit word space.
pub open spec fn in_word_space(t: TensorTable, layer: nat) -> bool {
    layer_base(t.offsets, layer) < 0x4_0000_0000
}

proof fn lemma_leads(t: TensorTable, layer: nat, suffix: Seq<char>, e: CompiledLayerEntry)
    requires
        in_word_space(t, layer),
        e.blob_base_words == (layer_base(t.offsets, layer) / 4) % 0x1_0000_0000,
        crate::offsets::relative_pack(t.at(layer, suffix), layer_base(t.offsets, layer)) is Ok,
    ensures
        leads_to(
            packed_or_zero(t.at(layer, suffix), layer_base(t.offsets, layer)),
            e.blob_base_words,
            t,
            layer_name(layer, suffix),
        ),
{
    if t.has(layer, suffix) && t.at(layer, suffix) > 0 {
        law_layer_tensor_is_found_again(t, layer, suffix);
    }
}

/// Every type of a table entry is the one that the header gives for the tensor that
/// the entry's offset of the same name leads to. Gate weights without a tensor of
/// their own have the type of the up tensor, which they lie in; a fused tensor has
/// one type for query, key and value. The marks for Q4_K agree with the types.
pub proof fn law_entry_types_are_those_of_its_tensors(t: TensorTable, phi: bool, layer: nat)
    ensures
        ({
            let e = layer_entry(t, phi, layer);
            let own = t.offsets.contains_key(layer_name(layer, "attn_q.weight"@));
            let fused = t.offsets.contains_key(layer_name(layer, "attn_qkv.weight"@));
            let gate = t.offsets.contains_key(layer_name(layer, "ffn_gate.weight"@));
            &&& is_type_of(e.quant_attn_out, t, layer_name(layer, "attn_output.weight"@))
            &&& is_type_of(e.quant_ffn_down, t, layer_name(layer, "ffn_down.weight"@))
            &&& is_type_of(e.quant_ffn_up, t, layer_name(layer, "ffn_up.weight"@))
            &&& gate ==> is_type_of(e.quant_ffn_gate, t, layer_name(layer, "ffn_gate.weight"@))
            &&& !gate ==> e.quant_ffn_gate == e.quant_ffn_up
            &&& own ==> is_type_of(e.quant_qk, t, layer_name(layer, "attn_q.weight"@))
            &&& own ==> is_type_of(e.quant_v, t, layer_name(layer, "attn_v.weight"@))
            &&& !own && fused ==> is_type_of(e.quant_qk, t, layer_name(layer, "attn_qkv.weight"@))
            &&& !own && fused ==> e.quant_v == e.quant_qk
            &&& !own && !fused ==> e.quant_qk == 2 && e.quant_v == 2
            &&& e.offsets.v_is_q4k <= 1 && e.offsets.ffn_down_is_q4k <= 1
            &&& e.offsets.v_is_q4k == 1 <==> e.quant_v == 12
            &&& e.offsets.ffn_down_is_q4k == 1 <==> e.quant_ffn_down == 12
        }),
{
}

/// The offsets of a table entry lead to the tensors of the layer, each to the one of
/// its name.
pub proof fn law_entry_offsets_lead_to_its_tensors(t: TensorTable, phi: bool, layer: nat)
    requires
        layer_packs(t, layer),
        in_word_space(t, layer),
    ensures
        ({
            let e = layer_entry(t, phi, layer);
            let o = e.offsets;
            let b = e.blob_base_words;
            &&& leads_to(o.attn_norm, b, t, layer_name(layer, "attn_norm.weight"@))
            &&& leads_to(o.attn_norm_bias, b, t, layer_name(layer, "attn_norm.bias"@))
            &&& leads_to(o.attn_out, b, t, layer_name(layer, "attn_output.weight"@))
            &&& leads_to(o.ffn_down, b, t, layer_name(layer, "ffn_down.weight"@))
            &&& leads_to(o.attn_q_norm, b, t, layer_name(layer, "attn_q_norm.weight"@))
            &&& leads_to(o.attn_k_norm, b, t, layer_name(layer, "attn_k_norm.weight"@))
            &&& !phi ==> leads_to(o.ffn_norm, b, t, layer_name(layer, "ffn_norm.weight"@))
            &&& !phi ==> leads_to(o.ffn_norm_bias, b, t, layer_name(layer, "ffn_norm.bias"@))
            &&& layer < 0x1_0000_0000 ==> o.layer_idx == layer
            &&& o.ple_inp_gate == 0 && o.ple_proj == 0 && o.ple_layer_output_scale == 0
            &&& o.ple_rope_freqs == 0 && o.ple_attn_post_norm == 0 && o.ple_ffn_post_norm == 0
            &&& o.ple_post_norm == 0 && o.ple_enabled == 0
        }),
{
    let e = layer_entry(t, phi, layer);
    lemma_leads(t, layer, "attn_norm.weight"@, e);
    lemma_leads(t, layer, "attn_norm.bias"@, e);
    lemma_leads(t, layer, "attn_output.weight"@, e);
    lemma_leads(t, layer, "ffn_down.weight"@, e);
    lemma_leads(t, layer, "attn_q_norm.weight"@, e);
    lemma_leads(t, layer, "attn_k_norm.weight"@, e);
    lemma_leads(t, layer, "ffn_norm.weight"@, e);
    lemma_leads(t, layer, "ffn_norm.bias"@, e);
}

/// Phi models share one norm per block: where a layer has no feed-forward norm of its
/// own, its attention norm serves in its place, and likewise its bias. A norm of its
/// own is taken where there is one.
pub proof fn law_phi_shares_the_block_norm(t: TensorTable, layer: nat)
    requires
        layer_packs(t, layer),
        in_word_space(t, layer),
    ensures
        ({
            let e = layer_entry(t, true, layer);
            let o = e.offsets;
            let b = e.blob_base_words;
            let norm = layer_name(layer, "ffn_norm.weight"@);
            let bias = layer_name(layer, "ffn_norm.bias"@);
            &&& t.offsets.contains_key(norm) && t.offsets[norm] > 0 ==> leads_to(
                o.ffn_norm,
                b,
                t,
                norm,
            )
            &&& !t.offsets.contains_key(norm) ==> o.ffn_norm == o.attn_norm
            &&& t.offsets.contains_key(bias) && t.offsets[bias] > 0 ==> leads_to(
                o.ffn_norm_bias,
                b,
                t,
                bias,
            )
            &&& !t.offsets.contains_key(bias) ==> o.ffn_norm_bias == o.attn_norm_bias
        }),
{
    let e = layer_entry(t, true, layer);
    lemma_leads(t, layer, "ffn_norm.weight"@, e);
    lemma_leads(t, layer, "ffn_norm.bias"@, e);
}

/// Query, key and value weights of their own are led to one by one. In a fused
/// tensor the query comes first; the key begins as many rows behind it as the output
/// projection has columns, or, where its shape is not known, as the fused tensor has;
/// and the value as many rows behind the key as are left for each of the two.
pub proof fn law_entry_leads_to_query_key_and_value(t: TensorTable, phi: bool, layer: nat)
    requires
        layer_packs(t, layer),
        in_word_space(t, layer),
    ensures
        ({
            let e = layer_entry(t, phi, layer);
            let o = e.offsets;
            let b = e.blob_base_words;
            let own = t.offsets.contains_key(layer_name(layer, "attn_q.weight"@));
            let name = layer_name(layer, "attn_qkv.weight"@);
            let fused = t.offsets.contains_key(name);
            &&& own ==> leads_to(o.attn_q, b, t, layer_name(layer, "attn_q.weight"@))
            &&& own ==> leads_to(o.attn_k, b, t, layer_name(layer, "attn_k.weight"@))
            &&& own ==> leads_to(o.attn_v, b, t, layer_name(layer, "attn_v.weight"@))
            &&& !own && fused ==> leads_to(o.attn_q, b, t, name)
            &&& !own && !fused ==> o.attn_q == 0 && o.attn_k == 0 && o.attn_v == 0
            &&& !own && fused && t.offsets[name] > 0 && t.dims.contains_key(name)
                && t.dims[name].len() >= 2 && t.dims.contains_key(
                layer_name(layer, "attn_output.weight"@),
            ) && t.dims[layer_name(layer, "attn_output.weight"@)].len() >= 1 ==> {
                let columns = t.dims[layer_name(layer, "attn_output.weight"@)][0] as int;
                let rows = t.dims[name][1] as int;
                let row = row_bytes(e.quant_qk, t.dims[name][0] as int);
                &&& 2 * (o.attn_k - o.attn_q) == columns * row
                &&& rows >= columns ==> 2 * (o.attn_v - o.attn_k) == (rows - columns) / 2 * row
                &&& rows < columns ==> o.attn_v == o.attn_k
            }
            &&& !own && fused && t.offsets[name] > 0 && t.dims.contains_key(name)
                && t.dims[name].len() >= 1 && !t.dims.contains_key(
                layer_name(layer, "attn_output.weight"@),
            ) ==> {
                let columns = t.dims[name][0] as int;
                2 * (o.attn_k - o.attn_q) == columns * row_bytes(e.quant_qk, columns)
            }
        }),
{
    let e = layer_entry(t, phi, layer);
    let base = layer_base(t.offsets, layer);
    let w = qkv_weights(t, layer);
    if t.has(layer, "attn_q.weight"@) {
        lemma_leads(t, layer, "attn_q.weight"@, e);
        lemma_leads(t, layer, "attn_k.weight"@, e);
        lemma_leads(t, layer, "attn_v.weight"@, e);
    } else if t.has(layer, "attn_qkv.weight"@) {
        lemma_leads(t, layer, "attn_qkv.weight"@, e);
        let split = qkv_split(t, layer);
        let row = split.row;
        lemma_row_is_not_negative(e.quant_qk, t.dim(layer, "attn_qkv.weight"@, 0, 0));
        if t.at(layer, "attn_qkv.weight"@) > 0 {
            law_layer_tensor_is_found_again(t, layer, "attn_qkv.weight"@);
            assert(0 <= split.dim_q * row && split.dim_q * row + split.dim_k * row == (split.dim_q
                + split.dim_k) * row && 0 <= split.dim_k * row) by (nonlinear_arith)
                requires
                    split.dim_q >= 0,
                    split.dim_k >= 0,
                    row >= 0,
            ;
            lemma_packs_back(w.k, base);
            lemma_packs_back(w.v, base);
        }
    }
}

proof fn lemma_row_is_not_negative(qt: u32, cols: int)
    requires
        cols >= 0,
    ensures
        row_bytes(qt, cols) >= 0,
{
}

proof fn lemma_packs_back(abs: int, base: int)
    requires
        abs > 0,
        crate::offsets::relative_pack(abs, base) is Ok,
    ensures
        base + 2 * packed_or_zero(abs, base) == abs,
{
}

/// Gate and up weights of their own are led to one by one. Where the up tensor holds
/// both, gate weights come first, and the up part begins as many rows behind them as
/// the down projection has columns.
pub proof fn law_entry_leads_to_gate_and_up(t: TensorTable, phi: bool, layer: nat)
    requires
        layer_packs(t, layer),
        in_word_space(t, layer),
    ensures
        ({
            let e = layer_entry(t, phi, layer);
            let o = e.offsets;
            let b = e.blob_base_words;
            let gate = layer_name(layer, "ffn_gate.weight"@);
            let up = layer_name(layer, "ffn_up.weight"@);
            let down = layer_name(layer, "ffn_down.weight"@);
            let known = t.dims.contains_key(up) && t.dims[up].len() >= 2 && t.dims.contains_key(
                down,
            ) && t.dims[down].len() >= 1;
            let both = !t.offsets.contains_key(gate) && t.offsets.contains_key(up) && t.offsets[up]
                > 0 && known && t.dims[down][0] > 0 && t.dims[up][1] == 2 * t.dims[down][0];
            &&& t.offsets.contains_key(gate) ==> leads_to(o.ffn_gate, b, t, gate) && leads_to(
                o.ffn_up,
                b,
                t,
                up,
            )
            &&& both ==> leads_to(o.ffn_gate, b, t, up) && 2 * (o.ffn_up - o.ffn_gate)
                == t.dims[down][0] * row_bytes(e.quant_ffn_up, t.dims[up][0] as int)
            &&& known && !both ==> leads_to(o.ffn_gate, b, t, gate) && leads_to(o.ffn_up, b, t, up)
        }),
{
    let e = layer_entry(t, phi, layer);
    let base = layer_base(t.offsets, layer);
    let (gate, up) = gate_and_up(t, layer);
    if merged_gate_up(t, layer) {
        lemma_leads(t, layer, "ffn_up.weight"@, e);
        law_layer_tensor_is_found_again(t, layer, "ffn_up.weight"@);
        let rows = t.dim(layer, "ffn_down.weight"@, 0, 0);
        let row = up_row(t, layer);
        lemma_row_is_not_negative(e.quant_ffn_up, t.dim(layer, "ffn_up.weight"@, 0, 0));
        assert(rows * row >= 0) by (nonlinear_arith)
            requires
                rows >= 0,
                row >= 0,
        ;
        lemma_packs_back(up, base);
    } else {
        lemma_leads(t, layer, "ffn_gate.weight"@, e);
        lemma_leads(t, layer, "ffn_up.weight"@, e);
    }
}

/// Biases of their own are led to one by one. Where a layer has none of its own, but
/// a fused weight and a fused bias, each part of the bias has an `f32` per row of the
/// weight's part.
pub proof fn law_entry_leads_to_biases(t: TensorTable, phi: bool, layer: nat)
    requires
        layer_packs(t, layer),
        in_word_space(t, layer),
    ensures
        ({
            let e = layer_entry(t, phi, layer);
            let o = e.offsets;
            let b = e.blob_base_words;
            let q = layer_name(layer, "attn_q.bias"@);
            let k = layer_name(layer, "attn_k.bias"@);
            let v = layer_name(layer, "attn_v.bias"@);
            let bias = layer_name(layer, "attn_qkv.bias"@);
            let none = !t.offsets.contains_key(q) && !t.offsets.contains_key(k)
                && !t.offsets.contains_key(v);
            let own = t.offsets.contains_key(q) && t.offsets[q] > 0 || t.offsets.contains_key(k)
                && t.offsets[k] > 0 || t.offsets.contains_key(v) && t.offsets[v] > 0;
            let fused = t.offsets.contains_key(bias) && t.offsets.contains_key(
                layer_name(layer, "attn_qkv.weight"@),
            );
            &&& own || !fused ==> leads_to(o.attn_q_bias, b, t, q) && leads_to(
                o.attn_k_bias,
                b,
                t,
                k,
            ) && leads_to(o.attn_v_bias, b, t, v)
            &&& none && fused ==> leads_to(o.attn_q_bias, b, t, bias)
            &&& none && fused && t.offsets[bias] > 0 && !t.offsets.contains_key(
                layer_name(layer, "attn_q.weight"@),
            ) && t.offsets[layer_name(layer, "attn_qkv.weight"@)] > 0 ==> {
                let row = row_bytes(
                    e.quant_qk,
                    t.dim(layer, "attn_qkv.weight"@, 0, 0),
                );
                &&& (o.attn_k_bias - o.attn_q_bias) * row == (o.attn_k - o.attn_q) * 4
                &&& (o.attn_v_bias - o.attn_k_bias) * row == (o.attn_v - o.attn_k) * 4
            }
        }),
{
    let e = layer_entry(t, phi, layer);
    let base = layer_base(t.offsets, layer);
    lemma_leads(t, layer, "attn_q.bias"@, e);
    lemma_leads(t, layer, "attn_k.bias"@, e);
    lemma_leads(t, layer, "attn_v.bias"@, e);
    if has_fused_bias(t, layer, base) {
        lemma_leads(t, layer, "attn_qkv.bias"@, e);
        let split = qkv_split(t, layer);
        let p = qkv_biases(t, layer, base);
        let w = qkv_weights(t, layer);
        let row = split.row;
        if t.at(layer, "attn_qkv.bias"@) > 0 {
            law_layer_tensor_is_found_again(t, layer, "attn_qkv.bias"@);
            lemma_packs_back(p.k, base);
            lemma_packs_back(p.v, base);
            if !t.has(layer, "attn_q.weight"@) && t.at(layer, "attn_qkv.weight"@) > 0 {
                law_layer_tensor_is_found_again(t, layer, "attn_qkv.weight"@);
                lemma_row_is_not_negative(e.quant_qk, t.dim(layer, "attn_qkv.weight"@, 0, 0));
                assert(0 <= split.dim_q * row && 0 <= (split.dim_q + split.dim_k) * row)
                    by (nonlinear_arith)
                    requires
                        split.dim_q >= 0,
                        split.dim_k >= 0,
                        row >= 0,
                ;
                lemma_packs_back(w.k, base);
                lemma_packs_back(w.v, base);
                let o = e.offsets;
                let kb = o.attn_k_bias - o.attn_q_bias;
                let vb = o.attn_v_bias - o.attn_k_bias;
                let kw = o.attn_k - o.attn_q;
                let vw = o.attn_v - o.attn_k;
                assert((split.dim_q + split.dim_k) * row == split.dim_q * row + split.dim_k * row)
                    by (nonlinear_arith);
                assert(2 * kb == split.dim_q * 4);
                assert(2 * vb == split.dim_k * 4);
                assert(2 * kw == split.dim_q * row);
                assert(2 * vw == split.dim_k * row);
                assert(kb * row == kw * 4) by (nonlinear_arith)
                    requires
                        2 * kb == split.dim_q * 4,
                        2 * kw == split.dim_q * row,
                ;
                assert(vb * row == vw * 4) by (nonlinear_arith)
                    requires
                        2 * vb == split.dim_k * 4,
                        2 * vw == split.dim_k * row,
                ;
            }
        }
    }
}

/// The compiled table of a model has an entry for every layer of the model, from the
/// first on: those whose attention norm the header names without a gap.
pub proof fn law_table_has_every_layer(
    t: TensorTable,
    phi: bool,
    table: Seq<CompiledLayerEntry>,
    layer: nat,
)
    requires
        is_compiled_table(t, phi, Ok(table)),
    ensures
        layer < table.len() ==> t.offsets.contains_key(layer_name(layer, "attn_norm.weight"@))
            && layer_packs(t, layer) && table[layer as int] == layer_entry(t, phi, layer),
        layer == table.len() ==> !t.offsets.contains_key(
            layer_name(layer, "attn_norm.weight"@),
        ),
{
    assert(is_layer_count(t, table.len()));
    if layer < table.len() {
        assert(t.has(layer, "attn_norm.weight"@));
        assert(table[layer as int] == layer_entry(t, phi, layer));
    }
}

/// A direct lookup finds a layer just when the header names its attention norm, and
/// then leads to the tensor of each name from a base of its own. A fused tensor
/// stands in for each of query, key and value that the layer lacks.
pub proof fn law_direct_lookup_leads_to_tensors(t: TensorTable, layer: nat)
    ensures
        direct_lookup(t, layer) == Ok::<Option<LayerOffsets>, LayerError>(None)
            <==> !t.offsets.contains_key(layer_name(layer, "attn_norm.weight"@)),
        direct_lookup(t, layer) matches Ok(Some(o)) ==> {
            let base = direct_base(t, layer);
            &&& found_from(o.attn_norm, base, t, layer_name(layer, "attn_norm.weight"@))
            &&& found_from(o.attn_norm_bias, base, t, layer_name(layer, "attn_norm.bias"@))
            &&& found_or_fused(
                o.attn_q,
                base,
                t,
                layer_name(layer, "attn_q.weight"@),
                layer_name(layer, "attn_qkv.weight"@),
            )
            &&& found_or_fused(
                o.attn_k,
                base,
                t,
                layer_name(layer, "attn_k.weight"@),
                layer_name(layer, "attn_qkv.weight"@),
            )
            &&& found_or_fused(
                o.attn_v,
                base,
                t,
                layer_name(layer, "attn_v.weight"@),
                layer_name(layer, "attn_qkv.weight"@),
            )
            &&& found_from(o.attn_out, base, t, layer_name(layer, "attn_output.weight"@))
            &&& found_from(o.ffn_norm, base, t, layer_name(layer, "ffn_norm.weight"@))
            &&& found_from(o.ffn_norm_bias, base, t, layer_name(layer, "ffn_norm.bias"@))
            &&& found_from(o.ffn_gate, base, t, layer_name(layer, "ffn_gate.weight"@))
            &&& found_from(o.ffn_down, base, t, layer_name(layer, "ffn_down.weight"@))
            &&& found_or_fused(
                o.ffn_up,
                base,
                t,
                layer_name(layer, "ffn_up.weight"@),
                layer_name(layer, "ffn_gate_up.weight"@),
            )
            &&& found_from(o.attn_q_norm, base, t, layer_name(layer, "attn_q_norm.weight"@))
            &&& found_from(o.attn_k_norm, base, t, layer_name(layer, "attn_k_norm.weight"@))
            &&& found_from(o.attn_q_bias, base, t, layer_name(layer, "attn_q.bias"@))
            &&& found_from(o.attn_k_bias, base, t, layer_name(layer, "attn_k.bias"@))
            &&& found_from(o.attn_v_bias, base, t, layer_name(layer, "attn_v.bias"@))
            &&& o.v_is_q4k <= 1 && o.ffn_down_is_q4k <= 1
            &&& o.v_is_q4k == 1 <==> is_known_as(t, layer_name(layer, "attn_v.weight"@), 12)
            &&& o.ffn_down_is_q4k == 1 <==> is_known_as(
                t,
                layer_name(layer, "ffn_down.weight"@),
                12,
            )
            &&& layer < 0x1_0000_0000 ==> o.layer_idx == layer
        },
{
    if direct_lookup(t, layer) matches Ok(Some(o)) {
        let places = crate::layers::direct_places(t, layer);
        let base = direct_base(t, layer);
        assert forall|i: int| 0 <= i < 16 implies crate::offsets::relative_pack(
            #[trigger] places[i],
            base,
        ) is Ok by {}
        assert(crate::offsets::relative_pack(places[0], base) is Ok);
        assert(crate::offsets::relative_pack(places[1], base) is Ok);
        assert(crate::offsets::relative_pack(places[2], base) is Ok);
        assert(crate::offsets::relative_pack(places[3], base) is Ok);
        assert(crate::offsets::relative_pack(places[4], base) is Ok);
        assert(crate::offsets::relative_pack(places[5], base) is Ok);
        assert(crate::offsets::relative_pack(places[6], base) is Ok);
        assert(crate::offsets::relative_pack(places[7], base) is Ok);
        assert(crate::offsets::relative_pack(places[8], base) is Ok);
        assert(crate::offsets::relative_pack(places[9], base) is Ok);
        assert(crate::offsets::relative_pack(places[10], base) is Ok);
        assert(crate::offsets::relative_pack(places[11], base) is Ok);
        assert(crate::offsets::relative_pack(places[12], base) is Ok);
        assert(crate::offsets::relative_pack(places[13], base) is Ok);
        assert(crate::offsets::relative_pack(places[14], base) is Ok);
        assert(crate::offsets::relative_pack(places[15], base) is Ok);
    }
}

/// Whether a packed offset leads, from the base byte, to the tensor of this name, or
/// says that there is none.
pub open spec fn found_from(packed: u32, base: int, t: TensorTable, name: Seq<char>) -> bool {
    if t.offsets.contains_key(name) && t.offsets[name] > 0 {
        base + 2 * packed == t.offsets[name]
    } else {
        packed == 0
    }
}

/// As [`found_from`], where the tensor `fused` stands in for one that is missing.
pub open spec fn found_or_fused(
    packed: u32,
    base: int,
    t: TensorTable,
    name: Seq<char>,
    fused: Seq<char>,
) -> bool {
    if t.offsets.contains_key(name) {
        found_from(packed, base, t, name)
    } else {
        found_from(packed, base, t, fused)
    }
}

/// Whether the header gives this type for a tensor.
pub open spec fn is_known_as(t: TensorTable, name: Seq<char>, quant: u32) -> bool {
    t.types.contains_key(name) && t.types[name] == quant
}

/// A layer with tensors of its own for everything gets a table entry as soon as each
/// of its tensors packs: nothing else keeps it out.
pub proof fn law_packable_layer_gets_an_entry(t: TensorTable, layer: nat)
    requires
        t.has(layer, "attn_q.weight"@),
        t.has(layer, "ffn_gate.weight"@),
        !t.has(layer, "attn_qkv.weight"@),
        forall|suffix: Seq<char>| #[trigger]
            t.has(layer, suffix) ==> {
                let at = t.offsets[layer_name(layer, suffix)] as int;
                let rel = at - layer_base(t.offsets, layer);
                at == 0 || 0 <= rel && rel % 2 == 0 && rel <= 2 * u32::MAX
            },
    ensures
        layer_packs(t, layer),
{
    let base = layer_base(t.offsets, layer);
    lemma_packs(t, layer, "attn_q.weight"@);
    lemma_packs(t, layer, "attn_k.weight"@);
    lemma_packs(t, layer, "attn_v.weight"@);
    lemma_packs(t, layer, "attn_q.bias"@);
    lemma_packs(t, layer, "attn_k.bias"@);
    lemma_packs(t, layer, "attn_v.bias"@);
    lemma_packs(t, layer, "attn_norm.weight"@);
    lemma_packs(t, layer, "ffn_norm.weight"@);
    lemma_packs(t, layer, "attn_norm.bias"@);
    lemma_packs(t, layer, "ffn_norm.bias"@);
    lemma_packs(t, layer, "ffn_gate.weight"@);
    lemma_packs(t, layer, "ffn_up.weight"@);
    lemma_packs(t, layer, "attn_output.weight"@);
    lemma_packs(t, layer, "ffn_down.weight"@);
    lemma_packs(t, layer, "attn_q_norm.weight"@);
    lemma_packs(t, layer, "attn_k_norm.weight"@);
}

proof fn lemma_packs(t: TensorTable, layer: nat, suffix: Seq<char>)
    requires
        forall|suffix: Seq<char>| #[trigger]
            t.has(layer, suffix) ==> {
                let at = t.offsets[layer_name(layer, suffix)] as int;
                let rel = at - layer_base(t.offsets, layer);
                at == 0 || 0 <= rel && rel % 2 == 0 && rel <= 2 * u32::MAX
            },
    ensures
        crate::offsets::relative_pack(t.at(layer, suffix), layer_base(t.offsets, layer)) is Ok,
{
    if t.has(layer, suffix) {
        assert(t.at(layer, suffix) == t.offsets[layer_name(layer, suffix)]);
    }
}

/// A direct lookup asks for the tensors that every layer needs: it fails for want of
/// one just when the layer is there and lacks one of them.
pub proof fn law_direct_lookup_needs_every_tensor(t: TensorTable, layer: nat)
    ensures
        ({
            let has = |suffix: Seq<char>| t.offsets.contains_key(layer_name(layer, suffix));
            let fused = has("attn_qkv.weight"@);
            direct_lookup(t, layer) == Err::<Option<LayerOffsets>, LayerError>(
                LayerError::MissingTensor,
            ) <==> has("attn_norm.weight"@) && !({
                &&& has("attn_q.weight"@) || fused
                &&& has("attn_k.weight"@) || fused
                &&& has("attn_v.weight"@) || fused
                &&& has("attn_output.weight"@)
                &&& has("ffn_norm.weight"@)
                &&& has("ffn_down.weight"@)
                &&& has("ffn_up.weight"@) || has("ffn_gate_up.weight"@)
            })
        }),
{
}

} // verus!
