//! The norm bank: all norm weights of a model, pulled out of the file into one
//! aligned buffer.
//!
//! Each layer has four slots: the norms before attention and feed-forward, then
//! those behind them. The model's output norm comes last.

use crate::metadata::BindlessMetadata;
use crate::names::{layer_key, layer_name};
use vstd::prelude::*;

verus! {

/// Norm slots per layer.
pub const NORMS_PER_LAYER: usize = 4;

/// The tensor of norm slot `slot`, where `n_layers` layers come before the output
/// norm.
pub open spec fn norm_name(n_layers: nat, slot: nat) -> Seq<char> {
    let layer = slot / 4;
    if slot >= 4 * n_layers {
        "output_norm.weight"@
    } else if slot % 4 == 0 {
        layer_name(layer, "attn_norm.weight"@)
    } else if slot % 4 == 1 {
        layer_name(layer, "ffn_norm.weight"@)
    } else if slot % 4 == 2 {
        layer_name(layer, "post_attention_norm.weight"@)
    } else {
        layer_name(layer, "post_ffw_norm.weight"@)
    }
}

/// The weights of a norm, `size` bytes of the file; zeros where the model has no
/// such tensor or the file ends before it does.
pub open spec fn norm_block(
    data: Seq<u8>,
    offsets: Map<Seq<char>, u64>,
    name: Seq<char>,
    size: nat,
) -> Seq<u8> {
    if offsets.contains_key(name) && offsets[name] + size <= data.len() {
        data.subrange(offsets[name] as int, offsets[name] + size)
    } else {
        Seq::new(size, |i: int| 0u8)
    }
}

/// The first `slots` slots of the norm bank.
pub open spec fn norm_bank(
    data: Seq<u8>,
    offsets: Map<Seq<char>, u64>,
    n_layers: nat,
    size: nat,
    slots: nat,
) -> Seq<u8>
    decreases slots,
{
    if slots == 0 {
        Seq::empty()
    } else {
        norm_bank(data, offsets, n_layers, size, (slots - 1) as nat) + norm_block(
            data,
            offsets,
            norm_name(n_layers, (slots - 1) as nat),
            size,
        )
    }
}

fn norm_key(n_layers: usize, slot: usize) -> (name: String)
    requires
        4 * n_layers <= usize::MAX,
    ensures
        name@ == norm_name(n_layers as nat, slot as nat),
{
    let layer: usize = slot / NORMS_PER_LAYER;
    if slot >= NORMS_PER_LAYER * n_layers {
        "output_norm.weight".to_string()
    } else if slot % NORMS_PER_LAYER == 0 {
        layer_key(layer, "attn_norm.weight")
    } else if slot % NORMS_PER_LAYER == 1 {
        layer_key(layer, "ffn_norm.weight")
    } else if slot % NORMS_PER_LAYER == 2 {
        layer_key(layer, "post_attention_norm.weight")
    } else {
        layer_key(layer, "post_ffw_norm.weight")
    }
}

fn push_zeros(bank: &mut Vec<u8>, n: usize)
    ensures
        final(bank)@ == old(bank)@ + Seq::new(n as nat, |i: int| 0u8),
{
    let ghost zeros = Seq::new(n as nat, |i: int| 0u8);
    let mut k: usize = 0;
    assert(bank@ =~= old(bank)@ + zeros.take(0));
    while k < n
        invariant
            k <= n,
            zeros == Seq::new(n as nat, |i: int| 0u8),
            bank@ == old(bank)@ + zeros.take(k as int),
        decreases n - k,
    {
        bank.push(0);
        k += 1;
        assert(bank@ =~= old(bank)@ + zeros.take(k as int));
    }
    assert(zeros.take(n as int) =~= zeros);
}

fn push_bytes(bank: &mut Vec<u8>, data: &[u8], from: usize, n: usize)
    requires
        from + n <= data@.len(),
    ensures
        final(bank)@ == old(bank)@ + data@.subrange(from as int, from + n),
{
    let len: usize = data.len();
    let ghost block = data@.subrange(from as int, from + n);
    let mut k: usize = 0;
    assert(bank@ =~= old(bank)@ + block.take(0));
    while k < n
        invariant
            k <= n,
            len == data@.len(),
            from + n <= len,
            block == data@.subrange(from as int, from + n),
            bank@ == old(bank)@ + block.take(k as int),
        decreases n - k,
    {
        bank.push(data[from + k]);
        k += 1;
        assert(bank@ =~= old(bank)@ + block.take(k as int));
    }
    assert(block.take(n as int) =~= block);
}

/// Builds the norm bank of a model of `n_layers` layers of width `dim` from the
/// bytes of its file.
pub fn build_norm_bank_from_ram(
    raw_data: &[u8],
    metadata: &BindlessMetadata,
    n_layers: usize,
    dim: usize,
) -> (bank: Vec<u8>)
    requires
        (n_layers * 4 + 1) * (dim * 4) <= usize::MAX,
        n_layers * 4 + 1 <= usize::MAX,
        dim * 4 <= usize::MAX,
    ensures
        bank@ == norm_bank(
            raw_data@,
            metadata.tensor_offsets@,
            n_layers as nat,
            (dim * 4) as nat,
            (n_layers * 4 + 1) as nat,
        ),
{
    let size: usize = dim * 4;
    let slots: usize = n_layers * NORMS_PER_LAYER + 1;
    let len: usize = raw_data.len();
    let ghost offsets = metadata.tensor_offsets@;
    let mut bank: Vec<u8> = Vec::new();
    let mut slot: usize = 0;
    while slot < slots
        invariant
            slot <= slots,
            slots == n_layers * 4 + 1,
            size == dim * 4,
            len == raw_data@.len(),
            offsets == metadata.tensor_offsets@,
            bank@ == norm_bank(
                raw_data@,
                offsets,
                n_layers as nat,
                size as nat,
                slot as nat,
            ),
        decreases slots - slot,
    {
        let name = norm_key(n_layers, slot);
        match metadata.get_tensor_offset(name.as_str()) {
            Some(offset) => {
                if offset <= len as u64 && size as u64 <= len as u64 - offset {
                    push_bytes(&mut bank, raw_data, offset as usize, size);
                } else {
                    push_zeros(&mut bank, size);
                }
            },
            None => push_zeros(&mut bank, size),
        }
        slot += 1;
    }
    bank
}

proof fn lemma_bank_len(
    data: Seq<u8>,
    offsets: Map<Seq<char>, u64>,
    n_layers: nat,
    size: nat,
    slots: nat,
)
    ensures
        norm_bank(data, offsets, n_layers, size, slots).len() == slots * size,
    decreases slots,
{
    if slots > 0 {
        lemma_bank_len(data, offsets, n_layers, size, (slots - 1) as nat);
        assert((slots - 1) * size + size == slots * size) by (nonlinear_arith);
    } else {
        assert(0 * size == 0);
    }
}

proof fn lemma_bank_slot(
    data: Seq<u8>,
    offsets: Map<Seq<char>, u64>,
    n_layers: nat,
    size: nat,
    slots: nat,
    slot: nat,
)
    requires
        slot < slots,
    ensures
        slot * size + size <= slots * size,
        norm_bank(data, offsets, n_layers, size, slots).subrange(
            (slot * size) as int,
            (slot * size + size) as int,
        ) == norm_block(data, offsets, norm_name(n_layers, slot), size),
    decreases slots,
{
    let rest = (slots - 1) as nat;
    let bank = norm_bank(data, offsets, n_layers, size, slots);
    let before = norm_bank(data, offsets, n_layers, size, rest);
    let block = norm_block(data, offsets, norm_name(n_layers, slot), size);
    lemma_bank_len(data, offsets, n_layers, size, slots);
    lemma_bank_len(data, offsets, n_layers, size, rest);
    assert(rest * size + size == slots * size) by (nonlinear_arith)
        requires
            rest == slots - 1,
    ;
    let from = (slot * size) as int;
    if slot == rest {
        assert(bank.subrange(from, from + size) =~= block);
    } else {
        lemma_bank_slot(data, offsets, n_layers, size, rest, slot);
        assert(bank.subrange(from, from + size) =~= before.subrange(from, from + size));
    }
}

/// Each norm lies in the bank where the kernels look for it: norm `which` of layer
/// `layer` in slot `4 * layer + which`, and the output norm behind all layers.
pub proof fn law_norm_bank_slots(
    data: Seq<u8>,
    offsets: Map<Seq<char>, u64>,
    n_layers: nat,
    size: nat,
    layer: nat,
    which: nat,
)
    requires
        layer < n_layers && which < 4 || layer == n_layers && which == 0,
    ensures
        ({
            let bank = norm_bank(data, offsets, n_layers, size, n_layers * 4 + 1);
            let slot = (layer * 4 + which) * size;
            let name = if layer == n_layers {
                "output_norm.weight"@
            } else {
                layer_name(
                    layer,
                    if which == 0 {
                        "attn_norm.weight"@
                    } else if which == 1 {
                        "ffn_norm.weight"@
                    } else if which == 2 {
                        "post_attention_norm.weight"@
                    } else {
                        "post_ffw_norm.weight"@
                    },
                )
            };
            &&& bank.len() == (n_layers * 4 + 1) * size
            &&& slot + size <= bank.len()
            &&& bank.subrange(slot as int, (slot + size) as int) == norm_block(
                data,
                offsets,
                name,
                size,
            )
        }),
{
    lemma_bank_len(data, offsets, n_layers, size, n_layers * 4 + 1);
    lemma_bank_slot(data, offsets, n_layers, size, n_layers * 4 + 1, layer * 4 + which);
}

/// Each byte of the norm bank is that of the norm's weights in the file, or zero where
/// the file has none.
pub proof fn law_norm_bank_holds_the_weights(
    data: Seq<u8>,
    offsets: Map<Seq<char>, u64>,
    n_layers: nat,
    size: nat,
    slot: nat,
    i: int,
)
    requires
        slot <= 4 * n_layers,
        0 <= i < size,
    ensures
        ({
            let bank = norm_bank(data, offsets, n_layers, size, n_layers * 4 + 1);
            let name = norm_name(n_layers, slot);
            let held = offsets.contains_key(name) && offsets[name] + size <= data.len();
            &&& slot * size + i < bank.len()
            &&& held ==> bank[slot * size + i] == data[offsets[name] + i]
            &&& !held ==> bank[slot * size + i] == 0
        }),
{
    let slots = n_layers * 4 + 1;
    let bank = norm_bank(data, offsets, n_layers, size, slots);
    lemma_bank_len(data, offsets, n_layers, size, slots);
    lemma_bank_slot(data, offsets, n_layers, size, slots, slot);
    let at = (slot * size) as int;
    assert(bank.subrange(at, at + size)[i] == bank[at + i]);
}

} // verus!
