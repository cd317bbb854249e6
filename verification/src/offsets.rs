//! Packed tensor offsets of a layer, and the blob window a layer dispatch binds.

use crate::text::{decimal, hex, push_decimal, push_hex};
use crate::window::{range_refusal, range_window, BlobWindow};
use vstd::prelude::*;

verus! {

/// GGUF blob offsets packed for WGSL `u32` (files up to 8 GiB).
///
/// The host stores `byte_offset / 2`; shaders turn that into a word index with
/// `packed / 2`. Zero stays zero: it marks an absent tensor.
pub fn pack_blob_offset(byte_offset: u64) -> (packed: u32)
    requires
        byte_offset % 2 == 0,
        byte_offset / 2 <= u32::MAX,
    ensures
        packed == byte_offset / 2,
        2 * packed == byte_offset,
{
    if byte_offset == 0 {
        return 0;
    }
    (byte_offset / 2) as u32
}

/// Why an offset cannot be packed relative to a base.
#[derive(Debug, Clone, Copy, PartialEq, Eq, Structural)]
pub enum OffsetError {
    /// The offset lies before the base.
    Underflow,
    /// The distance to the base is odd.
    Misaligned,
    /// The packed distance does not fit 32 bits.
    TooLarge,
    /// The absolute offset itself does not fit 64 bits.
    Overflow,
}

/// The packed distance of byte `abs` from byte `base`; an `abs` of 0 marks an
/// absent tensor and packs to 0.
pub open spec fn relative_pack(abs: int, base: int) -> Result<u32, OffsetError> {
    if abs > u64::MAX {
        Err(OffsetError::Overflow)
    } else if abs == 0 {
        Ok(0)
    } else if abs < base {
        Err(OffsetError::Underflow)
    } else if (abs - base) % 2 != 0 {
        Err(OffsetError::Misaligned)
    } else if (abs - base) / 2 > u32::MAX {
        Err(OffsetError::TooLarge)
    } else {
        Ok(((abs - base) / 2) as u32)
    }
}

/// As [`relative_packed_offset`], with the kind of failure in place of a message.
pub fn pack_relative(abs: u64, base: u64) -> (r: Result<u32, OffsetError>)
    ensures
        r == relative_pack(abs as int, base as int),
{
    if abs == 0 {
        return Ok(0);
    }
    if abs < base {
        return Err(OffsetError::Underflow);
    }
    let rel: u64 = abs - base;
    if rel % 2 != 0 {
        return Err(OffsetError::Misaligned);
    }
    let packed: u64 = rel / 2;
    if packed > u32::MAX as u64 {
        return Err(OffsetError::TooLarge);
    }
    Ok(packed as u32)
}

/// A number as the messages show it: in decimal, then in hexadecimal.
pub open spec fn both_bases(n: nat) -> Seq<char> {
    decimal(n) + " (0x"@ + hex(n) + ")"@
}

fn push_both_bases(out: &mut String, n: u64)
    ensures
        final(out)@ == old(out)@ + both_bases(n as nat),
{
    push_decimal(out, n);
    out.append(" (0x");
    push_hex(out, n);
    out.append(")");
    assert(out@ =~= old(out)@ + both_bases(n as nat));
}

/// What is said of an offset that cannot be packed.
pub open spec fn offset_error_text(error: OffsetError, abs: u64, base: u64) -> Seq<char> {
    let rel = (abs - base) as nat;
    match error {
        OffsetError::Underflow => "underflow: abs="@ + both_bases(abs as nat) + " < base="@
            + both_bases(base as nat),
        OffsetError::Misaligned => "relative offset "@ + both_bases(rel)
            + " is not 2-byte aligned"@,
        _ => "relative offset "@ + both_bases(rel) + " packs to "@ + decimal(rel / 2)
            + " which exceeds u32::MAX"@,
    }
}

/// Safe base-relative offset packing: `(abs - base) / 2` as `u32`.
///
/// Fails, with the numbers in the message, where `abs` lies before `base`, where
/// the distance is odd, and where the packed distance exceeds 32 bits.
pub fn relative_packed_offset(abs: u64, base: u64) -> (r: Result<u32, String>)
    ensures
        match relative_pack(abs as int, base as int) {
            Ok(packed) => r == Ok::<u32, String>(packed),
            Err(error) => r matches Err(e) && e@ == offset_error_text(error, abs, base),
        },
{
    match pack_relative(abs, base) {
        Ok(packed) => Ok(packed),
        Err(OffsetError::Underflow) => {
            let mut e = "underflow: abs=".to_string();
            push_both_bases(&mut e, abs);
            e.append(" < base=");
            push_both_bases(&mut e, base);
            Err(e)
        },
        Err(OffsetError::Misaligned) => {
            let mut e = "relative offset ".to_string();
            push_both_bases(&mut e, abs - base);
            e.append(" is not 2-byte aligned");
            Err(e)
        },
        Err(_) => {
            let rel: u64 = abs - base;
            let mut e = "relative offset ".to_string();
            push_both_bases(&mut e, rel);
            e.append(" packs to ");
            push_decimal(&mut e, rel / 2);
            e.append(" which exceeds u32::MAX");
            Err(e)
        },
    }
}

/// A packed offset leads back to the byte it was made from.
pub proof fn law_packed_offset_leads_back(abs: u64, base: u64)
    requires
        abs > 0,
        relative_pack(abs as int, base as int) is Ok,
    ensures
        base + 2 * relative_pack(abs as int, base as int)->Ok_0 == abs,
{
}

/// Tensor offsets of a single transformer layer.
///
/// All offsets are packed, relative to the layer's base byte. Zero means
/// disabled / missing.
#[derive(Debug, Clone, Copy, PartialEq, Eq, Structural)]
pub struct LayerOffsets {
    pub attn_norm: u32,
    /// Bias of the attention norm (F32).
    pub attn_norm_bias: u32,
    pub attn_q: u32,
    pub attn_k: u32,
    pub attn_v: u32,
    pub attn_out: u32,
    pub ffn_norm: u32,
    /// Bias of the feed-forward norm (F32).
    pub ffn_norm_bias: u32,
    pub ffn_gate: u32,
    pub ffn_down: u32,
    pub ffn_up: u32,
    /// Layer index, for the norm bank lookup.
    pub layer_idx: u32,
    pub attn_q_norm: u32,
    pub attn_k_norm: u32,
    pub attn_q_bias: u32,
    pub attn_k_bias: u32,
    pub attn_v_bias: u32,
    /// 1 if attn_v uses Q4_K.
    pub v_is_q4k: u32,
    /// 1 if ffn_down uses Q4_K.
    pub ffn_down_is_q4k: u32,
    /// Per-layer embedding (PLE) tensors.
    pub ple_inp_gate: u32,
    pub ple_proj: u32,
    pub ple_layer_output_scale: u32,
    pub ple_rope_freqs: u32,
    pub ple_attn_post_norm: u32,
    pub ple_ffn_post_norm: u32,
    pub ple_post_norm: u32,
    pub ple_enabled: u32,
}

/// Pre-compiled per-layer lookup table entry, built once when a model is loaded.
#[derive(Debug, Clone, Copy, PartialEq, Eq, Structural)]
pub struct CompiledLayerEntry {
    /// All tensor offsets of this layer.
    pub offsets: LayerOffsets,
    /// Word offset of the layer's base byte in the GGUF blob.
    pub blob_base_words: u32,
    pub quant_qk: u32,
    pub quant_v: u32,
    pub quant_attn_out: u32,
    pub quant_ffn_down: u32,
    pub quant_ffn_gate: u32,
    pub quant_ffn_up: u32,
}

impl LayerOffsets {
    /// The offsets of all of the layer's tensors.
    pub open spec fn span_offsets(self) -> Seq<u32> {
        seq![
            self.attn_norm,
            self.attn_norm_bias,
            self.attn_q,
            self.attn_k,
            self.attn_v,
            self.attn_out,
            self.ffn_norm,
            self.ffn_norm_bias,
            self.ffn_gate,
            self.ffn_down,
            self.ffn_up,
            self.attn_q_norm,
            self.attn_k_norm,
            self.attn_q_bias,
            self.attn_k_bias,
            self.attn_v_bias,
            self.ple_inp_gate,
            self.ple_proj,
            self.ple_layer_output_scale,
            self.ple_rope_freqs,
            self.ple_attn_post_norm,
            self.ple_ffn_post_norm,
            self.ple_post_norm,
        ]
    }

    /// Whether `word` is where some present tensor of the layer starts.
    pub open spec fn starts_at(self, blob_base_words: u32, word: int) -> bool {
        exists|i: int|
            0 <= i < self.span_offsets().len() && #[trigger] self.span_offsets()[i] != 0
                && word_of(self.span_offsets()[i], blob_base_words) == word
    }

    /// Whether every present tensor starts within 32-bit word space.
    pub open spec fn addressable(self, blob_base_words: u32) -> bool {
        forall|i: int|
            0 <= i < self.span_offsets().len() && #[trigger] self.span_offsets()[i] != 0
                ==> word_of(self.span_offsets()[i], blob_base_words) <= u32::MAX
    }

    /// Whether `[lo, hi]` is the layer's span: both ends are tensor starts, and
    /// no tensor starts outside.
    pub open spec fn spans(self, blob_base_words: u32, lo: int, hi: int) -> bool {
        &&& self.starts_at(blob_base_words, lo)
        &&& self.starts_at(blob_base_words, hi)
        &&& forall|i: int|
            0 <= i < self.span_offsets().len() && #[trigger] self.span_offsets()[i] != 0 ==> lo
                <= word_of(self.span_offsets()[i], blob_base_words) <= hi
    }

    /// Whether the layer declares no tensor.
    pub open spec fn is_empty(self) -> bool {
        forall|i: int| 0 <= i < self.span_offsets().len() ==> #[trigger] self.span_offsets()[i] == 0
    }

    /// Returns the minimum and maximum absolute word index at which this layer's
    /// tensors start. Absolute word = (packed_offset / 2) + blob_base_words.
    /// Only considers non-zero (present) tensors.
    pub fn word_span(&self, blob_base_words: u32) -> (r: Option<(u32, u32)>)
        requires
            self.addressable(blob_base_words),
        ensures
            r is None <==> self.is_empty(),
            r matches Some((lo, hi)) ==> self.spans(blob_base_words, lo as int, hi as int),
    {
        let offsets: [u32; 23] = [
            self.attn_norm,
            self.attn_norm_bias,
            self.attn_q,
            self.attn_k,
            self.attn_v,
            self.attn_out,
            self.ffn_norm,
            self.ffn_norm_bias,
            self.ffn_gate,
            self.ffn_down,
            self.ffn_up,
            self.attn_q_norm,
            self.attn_k_norm,
            self.attn_q_bias,
            self.attn_k_bias,
            self.attn_v_bias,
            self.ple_inp_gate,
            self.ple_proj,
            self.ple_layer_output_scale,
            self.ple_rope_freqs,
            self.ple_attn_post_norm,
            self.ple_ffn_post_norm,
            self.ple_post_norm,
        ];
        let ghost all = self.span_offsets();
        assert(offsets@ =~= all);
        let mut min_word: u32 = u32::MAX;
        let mut max_word: u32 = 0;
        let mut has_tensor: bool = false;
        let mut i: usize = 0;
        while i < 23
            invariant
                i <= 23,
                offsets@ == all,
                all == self.span_offsets(),
                all.len() == 23,
                self.addressable(blob_base_words),
                !has_tensor ==> forall|k: int| 0 <= k < i ==> #[trigger] all[k] == 0,
                has_tensor ==> {
                    &&& self.starts_at(blob_base_words, min_word as int)
                    &&& self.starts_at(blob_base_words, max_word as int)
                    &&& forall|k: int|
                        0 <= k < i && #[trigger] all[k] != 0 ==> min_word <= word_of(
                            all[k],
                            blob_base_words,
                        ) <= max_word
                },
                !has_tensor ==> min_word == u32::MAX && max_word == 0,
            decreases 23 - i,
        {
            let packed: u32 = offsets[i];
            assert(packed == all[i as int]);
            if packed != 0 {
                let word: u32 = packed / 2 + blob_base_words;
                assert(word_of(all[i as int], blob_base_words) == word);
                assert(self.starts_at(blob_base_words, word as int));
                has_tensor = true;
                if word < min_word {
                    min_word = word;
                }
                if word > max_word {
                    max_word = word;
                }
            }
            i += 1;
        }
        if has_tensor {
            Some((min_word, max_word))
        } else {
            None
        }
    }
}

impl LayerOffsets {
    /// A layer with a tensor has a span.
    pub proof fn lemma_span_exists(self, blob_base_words: u32)
        ensures
            self.is_empty() || exists|lo: int, hi: int| self.spans(blob_base_words, lo, hi),
    {
        if !self.is_empty() {
            let all = self.span_offsets();
            let first = choose|i: int| 0 <= i < all.len() && #[trigger] all[i] != 0;
            let lo = lemma_extreme(self, blob_base_words, all.len() as int, first, true);
            let hi = lemma_extreme(self, blob_base_words, all.len() as int, first, false);
            assert(self.spans(blob_base_words, lo, hi));
        }
    }
}

/// The lowest or the highest tensor start among the first `n` offsets and offset
/// `some`.
proof fn lemma_extreme(
    offsets: LayerOffsets,
    base: u32,
    n: int,
    some: int,
    lowest: bool,
) -> (word: int)
    requires
        0 <= n <= offsets.span_offsets().len(),
        0 <= some < offsets.span_offsets().len(),
        offsets.span_offsets()[some] != 0,
    ensures
        offsets.starts_at(base, word),
        forall|i: int|
            0 <= i < n && #[trigger] offsets.span_offsets()[i] != 0 ==> (if lowest {
                word <= word_of(offsets.span_offsets()[i], base)
            } else {
                word >= word_of(offsets.span_offsets()[i], base)
            }),
    decreases n,
{
    let all = offsets.span_offsets();
    if n == 0 {
        word_of(all[some], base)
    } else {
        let w = lemma_extreme(offsets, base, n - 1, some, lowest);
        let x = word_of(all[n - 1], base);
        if all[n - 1] != 0 && (if lowest {
            x < w
        } else {
            x > w
        }) {
            x
        } else {
            w
        }
    }
}

/// The absolute word of a packed offset.
pub open spec fn word_of(packed: u32, blob_base_words: u32) -> int {
    packed / 2 + blob_base_words
}

/// Pure window algebra for a layer dispatch: given the layer's packed tensor
/// offsets and the loaded chunk plan, returns the [`BlobWindow`] to bind and
/// the window-local `blob_base_words` the shader must receive.
///
/// Returns `Ok((None, blob_base_words))` unchanged when the layer declares no
/// tensors, and `Err` when the span cannot be covered by `BLOB_BINDING_SLOTS`
/// consecutive resident chunks.
///
/// The shader adds the base to the packed offsets. A layer's base lies one word
/// before its first tensor, so it can lie before the window; the difference then
/// wraps, and so does the shader's addition.
pub fn plan_layer_window(
    offsets: &LayerOffsets,
    blob_base_words: u32,
    chunk_words: u32,
    total_resident_chunks: usize,
) -> (r: Result<(Option<BlobWindow>, u32), String>)
    requires
        offsets.addressable(blob_base_words),
        !offsets.is_empty() ==> chunk_words > 0,
    ensures
        offsets.is_empty() ==> r == Ok::<(Option<BlobWindow>, u32), String>(
            (None, blob_base_words),
        ),
        forall|lo: int, hi: int| #[trigger]
            offsets.spans(blob_base_words, lo, hi) ==> layer_window_outcome(
                r,
                lo,
                hi,
                chunk_words,
                total_resident_chunks,
                blob_base_words,
            ),
{
    let (min_word, max_word) = match offsets.word_span(blob_base_words) {
        Some(span) => span,
        None => {
            proof {
                assert forall|lo: int, hi: int| !offsets.spans(blob_base_words, lo, hi) by {}
            }
            return Ok((None, blob_base_words));
        },
    };
    proof {
        lemma_span_is_unique(*offsets, blob_base_words, min_word as int, max_word as int);
        assert(min_word / chunk_words <= max_word / chunk_words) by (nonlinear_arith)
            requires
                min_word <= max_word,
                chunk_words > 0,
        ;
    }
    match BlobWindow::for_range(min_word, max_word, chunk_words, total_resident_chunks) {
        Err(e) => Err(e),
        Ok(window) => {
            proof {
                lemma_start_of_range(min_word, max_word, chunk_words, total_resident_chunks);
            }
            let adjusted: u32 = blob_base_words.wrapping_sub(window.window_base_words());
            Ok((Some(window), adjusted))
        },
    }
}

/// The base that the shader of a layer receives with the window `w`.
pub open spec fn rebased(blob_base_words: u32, w: BlobWindow) -> int {
    (blob_base_words - w.base()) % 0x1_0000_0000
}

/// The outcome of planning the window of a layer that spans `[lo, hi]`: the
/// window with the base rebased onto it, or the reason why there is none.
pub open spec fn layer_window_outcome(
    r: Result<(Option<BlobWindow>, u32), String>,
    lo: int,
    hi: int,
    chunk_words: u32,
    total_resident_chunks: usize,
    blob_base_words: u32,
) -> bool {
    match range_refusal(lo, hi, chunk_words, total_resident_chunks) {
        None => {
            let w = range_window(lo, hi, chunk_words, total_resident_chunks);
            r matches Ok((window, base)) && window == Some(w) && base == rebased(
                blob_base_words,
                w,
            )
        },
        Some(reason) => r matches Err(e) && e@ == reason,
    }
}

/// The start of a range window lies at or before the range.
proof fn lemma_start_of_range(lo: u32, hi: u32, chunk_words: u32, total: usize)
    requires
        chunk_words > 0,
        range_refusal(lo as int, hi as int, chunk_words, total) is None,
    ensures
        0 <= range_window(lo as int, hi as int, chunk_words, total).base() <= lo,
        range_window(lo as int, hi as int, chunk_words, total).start_chunk < 0x1_0000_0000,
{
    let c = chunk_words as int;
    let q = lo as int / c;
    assert(0 <= q <= lo && q * c <= lo && q * c >= 0) by (nonlinear_arith)
        requires
            q == lo as int / c,
            c > 0,
            lo >= 0,
    ;
}

/// A layer has at most one span.
proof fn lemma_span_is_unique(offsets: LayerOffsets, base: u32, lo: int, hi: int)
    requires
        offsets.spans(base, lo, hi),
    ensures
        forall|l: int, h: int| #[trigger] offsets.spans(base, l, h) ==> l == lo && h == hi,
        lo <= hi,
{
}

/// The window of a layer covers every tensor start of the layer, and the rebased
/// base leads the shader to the same word inside the window: its wrapping sum with
/// the tensor's offset is the word's distance from the window's start, which the
/// window's slots and chunks count alike.
pub proof fn law_layer_window_rebases_every_tensor(
    offsets: LayerOffsets,
    blob_base_words: u32,
    chunk_words: u32,
    total_resident_chunks: usize,
    lo: u32,
    hi: u32,
    i: int,
)
    requires
        chunk_words > 0,
        offsets.spans(blob_base_words, lo as int, hi as int),
        range_refusal(lo as int, hi as int, chunk_words, total_resident_chunks) is None,
        0 <= i < offsets.span_offsets().len(),
        offsets.span_offsets()[i] != 0,
    ensures
        ({
            let w = range_window(lo as int, hi as int, chunk_words, total_resident_chunks);
            let packed = offsets.span_offsets()[i];
            let local = word_of(packed, blob_base_words) - w.base();
            &&& w.covers(word_of(packed, blob_base_words))
            &&& (packed / 2 + rebased(blob_base_words, w)) % 0x1_0000_0000 == local
            &&& w.base() <= blob_base_words ==> packed / 2 + rebased(blob_base_words, w) == local
            &&& (local / chunk_words as int) * chunk_words + local % chunk_words as int == local
        }),
{
    let w = range_window(lo as int, hi as int, chunk_words, total_resident_chunks);
    let packed = offsets.span_offsets()[i];
    let c = chunk_words as int;
    let local = word_of(packed, blob_base_words) - w.base();
    lemma_span_is_unique(offsets, blob_base_words, lo as int, hi as int);
    lemma_start_of_range(lo, hi, chunk_words, total_resident_chunks);
    crate::window::law_range_window_is_narrowest(
        lo,
        hi,
        chunk_words,
        total_resident_chunks,
        word_of(packed, blob_base_words),
        (BlobWindow { start_chunk: 0, slot_count: 0, chunk_words, total_resident_chunks }),
    );
    vstd::arithmetic::div_mod::lemma_fundamental_div_mod(local, c);
    assert(c * (local / c) == (local / c) * c) by (nonlinear_arith);
}

/// Rebases an LM-head `weight_off` (absolute word index of the weight tensor)
/// onto a bound [`BlobWindow`].
///
/// The head shader reads `weight_off + rel_word`. For a tile whose rows begin
/// well past the tensor start, the window base can exceed `weight_off`; the
/// difference then wraps, and so does the shader's addition.
pub fn rebase_head_weight_off(weight_off: u32, window: &BlobWindow) -> (r: u32)
    requires
        window.base() <= u32::MAX,
    ensures
        r == (weight_off - window.base()) % 0x1_0000_0000,
        (r + window.base()) % 0x1_0000_0000 == weight_off,
{
    assert(window.base() >= 0) by (nonlinear_arith)
        requires
            window.base() == (window.start_chunk as int % 0x1_0000_0000) * window.chunk_words,
    ;
    weight_off.wrapping_sub(window.window_base_words())
}

/// The rebased head offset reaches the true window-local word for every read
/// inside the window, under the shader's wrapping addition.
pub proof fn law_rebased_head_reads_inside_window(
    weight_off: u32,
    window: BlobWindow,
    rel_word: u32,
)
    requires
        window.addressable(),
        window.covers(weight_off + rel_word),
    ensures
        ((weight_off - window.base()) % 0x1_0000_0000 + rel_word) % 0x1_0000_0000 == weight_off
            + rel_word - window.base(),
{
    assert(window.base() >= 0) by (nonlinear_arith)
        requires
            window.base() == (window.start_chunk as int % 0x1_0000_0000) * window.chunk_words,
    ;
}

/// An offset packs just where it marks an absent tensor, or lies at an even distance
/// behind the base that 32 bits can hold the half of; and each failure has its own
/// reason, the first that holds of these.
pub proof fn law_offset_packs_or_says_why(abs: u64, base: u64)
    ensures
        ({
            let r = relative_pack(abs as int, base as int);
            let rel = abs - base;
            &&& r is Ok <==> abs == 0 || 0 <= rel && rel % 2 == 0 && rel <= 2 * u32::MAX
            &&& abs == 0 ==> r == Ok::<u32, OffsetError>(0)
            &&& r == Err::<u32, OffsetError>(OffsetError::Underflow) <==> abs > 0 && rel < 0
            &&& r == Err::<u32, OffsetError>(OffsetError::Misaligned) <==> abs > 0 && rel >= 0 && rel
                % 2 == 1
            &&& r == Err::<u32, OffsetError>(OffsetError::TooLarge) <==> abs > 0 && rel % 2 == 0
                && rel > 2 * u32::MAX
            &&& r != Err::<u32, OffsetError>(OffsetError::Overflow)
        }),
{
}

/// The span of a layer counts every tensor that the layer can have, and nothing else.
pub proof fn law_span_counts_every_tensor(o: LayerOffsets)
    ensures
        ({
            let s = o.span_offsets();
            &&& s.len() == 23
            &&& s.contains(o.attn_norm) && s.contains(o.attn_norm_bias)
            &&& s.contains(o.attn_q) && s.contains(o.attn_k) && s.contains(o.attn_v)
            &&& s.contains(o.attn_out)
            &&& s.contains(o.ffn_norm) && s.contains(o.ffn_norm_bias)
            &&& s.contains(o.ffn_gate) && s.contains(o.ffn_down) && s.contains(o.ffn_up)
            &&& s.contains(o.attn_q_norm) && s.contains(o.attn_k_norm)
            &&& s.contains(o.attn_q_bias) && s.contains(o.attn_k_bias) && s.contains(o.attn_v_bias)
            &&& s.contains(o.ple_inp_gate) && s.contains(o.ple_proj)
            &&& s.contains(o.ple_layer_output_scale) && s.contains(o.ple_rope_freqs)
            &&& s.contains(o.ple_attn_post_norm) && s.contains(o.ple_ffn_post_norm)
            &&& s.contains(o.ple_post_norm)
        }),
{
    let s = o.span_offsets();
    assert(s[0] == o.attn_norm && s[1] == o.attn_norm_bias);
    assert(s[2] == o.attn_q && s[3] == o.attn_k && s[4] == o.attn_v && s[5] == o.attn_out);
    assert(s[6] == o.ffn_norm && s[7] == o.ffn_norm_bias);
    assert(s[8] == o.ffn_gate && s[9] == o.ffn_down && s[10] == o.ffn_up);
    assert(s[11] == o.attn_q_norm && s[12] == o.attn_k_norm);
    assert(s[13] == o.attn_q_bias && s[14] == o.attn_k_bias && s[15] == o.attn_v_bias);
    assert(s[16] == o.ple_inp_gate && s[17] == o.ple_proj);
    assert(s[18] == o.ple_layer_output_scale && s[19] == o.ple_rope_freqs);
    assert(s[20] == o.ple_attn_post_norm && s[21] == o.ple_ffn_post_norm);
    assert(s[22] == o.ple_post_norm);
}

} // verus!
