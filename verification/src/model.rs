//! A loaded model: its blob chunks, its metadata, and the windows of chunks that
//! its dispatches bind.

use crate::gguf::GgufError;
use crate::loader::{
    blob_range, blob_ranges, compute_chunk_plan, misaligned_blob_text, planned_chunk,
    words_of_chunk, BlobRange, BLOB_BINDING_SLOTS, REQUIRED_ALIGNMENT,
};
use crate::metadata::{metadata_outcome, BindlessMetadata};
use crate::num::{ceil_div, lemma_quotient_and_rest, low_u32};
use crate::offsets::{layer_window_outcome, plan_layer_window, LayerOffsets};
use crate::quant::{block_geometry, quant_block_geometry, row_bytes};
use crate::text::{decimal, push_decimal};
use crate::window::{
    law_range_window_is_narrowest, range_outcome, range_refusal, range_window, window_outcome,
    BlobBinding, BlobWindow,
};
use vstd::prelude::*;

verus! {

/// A GPU-resident GGUF model, stored as N independent read-only storage
/// buffers (one per chunk of the file).
#[derive(Debug)]
pub struct BindlessModel {
    /// What each storage buffer holds of the file, one range per chunk.
    pub blobs: Vec<BlobRange>,
    /// Size of the file in bytes.
    pub size: u64,
    /// Size of each blob buffer in bytes; the last one may be smaller.
    pub effective_chunk: u64,
    /// Total number of resident chunks (may exceed BLOB_BINDING_SLOTS).
    pub total_resident_chunks: usize,
    /// Parsed Metadata (tensor offsets)
    pub metadata: BindlessMetadata,
}

/// Why a model cannot be loaded.
#[derive(Debug)]
pub enum LoadError {
    /// The adapter binds less than one aligned block.
    LimitTooSmall,
    /// The file's metadata cannot be read.
    Metadata(GgufError),
    /// A blob buffer would not hold whole words; the message says which.
    Misaligned(String),
}

/// What slot `i` binds when each chunk goes to the slot of its own number.
pub open spec fn identity_binding(resident: int, i: int) -> BlobBinding {
    if i < resident {
        BlobBinding::Chunk(i as usize)
    } else {
        BlobBinding::Dummy
    }
}

/// The tensor that a model's output head reads: its own, or the token embedding
/// where the model ties the two.
pub open spec fn head_tensor(metadata: BindlessMetadata) -> Seq<char> {
    if metadata.tensor_types@.contains_key("output.weight"@) {
        "output.weight"@
    } else {
        "token_embd.weight"@
    }
}

/// Byte offset of the head tensor, 0 where it is unknown.
pub open spec fn head_offset(metadata: BindlessMetadata) -> int {
    let name = head_tensor(metadata);
    if metadata.tensor_offsets@.contains_key(name) {
        metadata.tensor_offsets@[name] as int
    } else {
        0
    }
}

/// Type of the head tensor, or `default` where it is unknown.
pub open spec fn head_quant(metadata: BindlessMetadata, default: u32) -> u32 {
    let name = head_tensor(metadata);
    if metadata.tensor_types@.contains_key(name) {
        metadata.tensor_types@[name]
    } else {
        default
    }
}

/// Bytes of a head row of `dim` elements.
pub open spec fn head_row_bytes(quant: u32, dim: u32) -> int {
    let (elems, bytes) = block_geometry(quant)->0;
    dim as int / elems as int * bytes
}

/// First byte of the head rows from `base_row` on.
pub open spec fn head_start(metadata: BindlessMetadata, base_row: u32, row: int) -> int {
    head_offset(metadata) + base_row * row
}

/// Last byte of `rows` head rows from `base_row` on; without rows, their start.
pub open spec fn head_end(metadata: BindlessMetadata, base_row: u32, rows: u32, row: int) -> int {
    head_offset(metadata) + (base_row + rows) * row - (if rows == 0 {
        0int
    } else {
        1int
    })
}

/// Why no window can be told for the head; `None` where one can.
pub open spec fn head_refusal(metadata: BindlessMetadata, dim: u32) -> Option<Seq<char>> {
    let name = head_tensor(metadata);
    let quant = head_quant(metadata, 0);
    match block_geometry(quant) {
        None => Some("unknown quant type "@ + decimal(quant as nat) + " for "@ + name),
        Some((elems, _)) => if dim as int % elems as int != 0 {
            Some(
                name + " row dim "@ + decimal(dim as nat) + " is not a multiple of block_elems "@
                    + decimal(elems as nat) + " for quant type "@ + decimal(quant as nat),
            )
        } else {
            None
        },
    }
}

/// The word of a byte, as a 32-bit index.
pub open spec fn word_index(byte: int) -> int {
    (byte / 4) % 0x1_0000_0000
}

proof fn lemma_no_more_chunks_than_bytes(size: int, chunk: int)
    requires
        size >= 0,
        chunk >= 256,
    ensures
        ceil_div(size, chunk) <= size,
{
    crate::num::lemma_ceil_div(size, chunk);
    assert(size / chunk <= size && (size % chunk != 0 ==> size / chunk < size))
        by (nonlinear_arith)
        requires
            chunk >= 256,
            size >= 0,
    ;
}

impl BindlessModel {
    /// Words per blob chunk.
    pub open spec fn words(self) -> int {
        words_of_chunk(self.effective_chunk)
    }

    /// The window of the chunks that hold the words from `lo` to `hi`.
    pub open spec fn range(self, lo: int, hi: int) -> BlobWindow {
        range_window(lo, hi, self.words() as u32, self.total_resident_chunks)
    }

    /// Why there is no such window; `None` where there is.
    pub open spec fn refusal(self, lo: int, hi: int) -> Option<Seq<char>> {
        range_refusal(lo, hi, self.words() as u32, self.total_resident_chunks)
    }

    /// Whether `r` is the outcome of asking for that window.
    pub open spec fn range_outcome(self, r: Result<BlobWindow, String>, lo: int, hi: int) -> bool {
        range_outcome(r, lo, hi, self.words() as u32, self.total_resident_chunks)
    }

    /// Plans how a GGUF file is held on an adapter that binds at most
    /// `adapter_limit` bytes: which bytes go to which buffer, and where the
    /// tensors lie.
    pub fn load(data: &[u8], adapter_limit: u64) -> (r: Result<Self, LoadError>)
        ensures
            match r {
                Ok(m) => {
                    let chunks = ceil_div(data@.len() as int, planned_chunk(adapter_limit));
                    &&& adapter_limit >= REQUIRED_ALIGNMENT
                    &&& data@.len() % 4 == 0
                    &&& metadata_outcome(data@, Ok(m.metadata))
                    &&& m.size == data@.len()
                    &&& m.effective_chunk == planned_chunk(adapter_limit)
                    &&& m.total_resident_chunks == chunks
                    &&& m.blobs@ == Seq::new(
                        chunks as nat,
                        |i: int| blob_range(m.size, m.effective_chunk, i),
                    )
                },
                Err(LoadError::LimitTooSmall) => adapter_limit < REQUIRED_ALIGNMENT,
                Err(LoadError::Metadata(e)) => {
                    &&& adapter_limit >= REQUIRED_ALIGNMENT
                    &&& metadata_outcome(data@, Err(e))
                },
                Err(LoadError::Misaligned(text)) => {
                    let chunk = planned_chunk(adapter_limit);
                    let last = ceil_div(data@.len() as int, chunk) - 1;
                    &&& adapter_limit >= REQUIRED_ALIGNMENT
                    &&& exists|m: BindlessMetadata| metadata_outcome(data@, Ok(m))
                    &&& data@.len() % 4 != 0
                    &&& text@ == misaligned_blob_text(
                        last as nat,
                        blob_range(data@.len() as u64, chunk as u64, last).len as nat,
                    )
                },
            },
    {
        if adapter_limit < REQUIRED_ALIGNMENT {
            return Err(LoadError::LimitTooSmall);
        }
        let size: u64 = data.len() as u64;
        proof {
            lemma_no_more_chunks_than_bytes(size as int, planned_chunk(adapter_limit));
        }
        let plan = compute_chunk_plan(size, adapter_limit);
        let metadata = match BindlessMetadata::new(data) {
            Ok(m) => m,
            Err(e) => {
                return Err(LoadError::Metadata(e));
            },
        };
        match blob_ranges(size, &plan) {
            Ok(blobs) => Ok(
                BindlessModel {
                    blobs,
                    size,
                    effective_chunk: plan.effective_chunk,
                    total_resident_chunks: plan.num_chunks,
                    metadata,
                },
            ),
            Err(text) => {
                assert(metadata_outcome(data@, Ok(metadata)));
                Err(LoadError::Misaligned(text))
            },
        }
    }

    fn blob_binding(&self, i: usize) -> (b: BlobBinding)
        ensures
            b == identity_binding(self.blobs@.len() as int, i as int),
    {
        if self.blobs.len() > i {
            BlobBinding::Chunk(i)
        } else {
            BlobBinding::Dummy
        }
    }

    /// Binding for blob_0: the first chunk.
    pub fn blob_binding_0(&self) -> (b: BlobBinding)
        ensures
            b == identity_binding(self.blobs@.len() as int, 0),
    {
        self.blob_binding(0)
    }

    /// Binding for blob_1; the dummy for models of one chunk.
    pub fn blob_binding_1(&self) -> (b: BlobBinding)
        ensures
            b == identity_binding(self.blobs@.len() as int, 1),
    {
        self.blob_binding(1)
    }

    /// Binding for blob_2; the dummy for models of fewer than 3 chunks.
    pub fn blob_binding_2(&self) -> (b: BlobBinding)
        ensures
            b == identity_binding(self.blobs@.len() as int, 2),
    {
        self.blob_binding(2)
    }

    /// Binding for blob_3; the dummy for models of fewer than 4 chunks.
    pub fn blob_binding_3(&self) -> (b: BlobBinding)
        ensures
            b == identity_binding(self.blobs@.len() as int, 3),
    {
        self.blob_binding(3)
    }

    /// Binding for blob_4; the dummy for models of fewer than 5 chunks.
    pub fn blob_binding_4(&self) -> (b: BlobBinding)
        ensures
            b == identity_binding(self.blobs@.len() as int, 4),
    {
        self.blob_binding(4)
    }

    /// Binding for blob_5; the dummy for models of fewer than 6 chunks.
    pub fn blob_binding_5(&self) -> (b: BlobBinding)
        ensures
            b == identity_binding(self.blobs@.len() as int, 5),
    {
        self.blob_binding(5)
    }

    /// Binding for blob_6; the dummy for models of fewer than 7 chunks.
    pub fn blob_binding_6(&self) -> (b: BlobBinding)
        ensures
            b == identity_binding(self.blobs@.len() as int, 6),
    {
        self.blob_binding(6)
    }

    /// Binding for blob_7; the dummy for models of fewer than 8 chunks.
    pub fn blob_binding_7(&self) -> (b: BlobBinding)
        ensures
            b == identity_binding(self.blobs@.len() as int, 7),
    {
        self.blob_binding(7)
    }

    /// Words per blob chunk (effective_chunk / 4). Shaders use this to resolve
    /// an absolute word index to `(chunk_index, offset_in_chunk)`.
    pub fn chunk_words(&self) -> (r: u32)
        ensures
            r == self.words(),
    {
        low_u32(self.effective_chunk / 4)
    }

    /// Resolves an absolute word index to `(buffer_index, word_offset_in_buffer)`.
    pub fn buffer_for_word(&self, word_idx: u32) -> (r: (usize, u32))
        requires
            self.words() > 0,
            word_idx as int / self.words() < self.blobs@.len(),
        ensures
            r.0 == word_idx as int / self.words(),
            r.1 == word_idx as int % self.words(),
            r.0 * self.words() + r.1 == word_idx,
            r.1 < self.words(),
    {
        let chunk_words: u32 = self.chunk_words();
        proof {
            lemma_quotient_and_rest(word_idx as int, chunk_words as int);
        }
        ((word_idx / chunk_words) as usize, word_idx % chunk_words)
    }

    /// Creates a full window (8 slots) starting at `start_chunk` for layer
    /// dispatches.
    pub fn layer_window(&self, start_chunk: usize) -> (r: Result<BlobWindow, String>)
        requires
            start_chunk < self.total_resident_chunks ==> start_chunk + BLOB_BINDING_SLOTS
                <= u64::MAX,
        ensures
            window_outcome(
                r,
                (BlobWindow {
                    start_chunk,
                    slot_count: BLOB_BINDING_SLOTS,
                    chunk_words: self.words() as u32,
                    total_resident_chunks: self.total_resident_chunks,
                }),
            ),
    {
        BlobWindow::full(start_chunk, self.chunk_words(), self.total_resident_chunks)
    }

    /// Creates a window covering the exact chunks needed for a tensor range.
    /// Fails if the range spans more than BLOB_BINDING_SLOTS chunks.
    pub fn window_for_range(&self, start_word: u32, end_word: u32) -> (r: Result<
        BlobWindow,
        String,
    >)
        requires
            self.words() > 0,
            start_word as int / self.words() <= end_word as int / self.words(),
        ensures
            self.range_outcome(r, start_word as int, end_word as int),
    {
        BlobWindow::for_range(
            start_word,
            end_word,
            self.chunk_words(),
            self.total_resident_chunks,
        )
    }

    /// Creates a window for the dequant hot path (single tensor row), covering
    /// the words from `offset_words` to `offset_words + count`.
    pub fn dequant_window(&self, offset_words: u32, count: u32) -> (r: Result<BlobWindow, String>)
        requires
            self.words() > 0,
            offset_words + count <= u32::MAX,
        ensures
            self.range_outcome(r, offset_words as int, offset_words + count),
            r matches Ok(w) ==> w.covers(offset_words as int) && w.covers(offset_words + count),
    {
        let end: u32 = offset_words + count;
        proof {
            let c = self.words();
            assert(offset_words as int / c <= end as int / c) by (nonlinear_arith)
                requires
                    offset_words <= end,
                    c > 0,
            ;
        }
        let r = self.window_for_range(offset_words, end);
        proof {
            if r is Ok {
                let c = self.words() as u32;
                let total = self.total_resident_chunks;
                law_range_window_is_narrowest(
                    offset_words,
                    end,
                    c,
                    total,
                    offset_words as int,
                    r->Ok_0,
                );
                law_range_window_is_narrowest(offset_words, end, c, total, end as int, r->Ok_0);
            }
        }
        r
    }

    /// Creates a window for RMSNorm covering the full weight (and bias) span.
    ///
    /// `count` is the element count of the norm tensor: the shader reads
    /// `weight_offset .. weight_offset + count`, so the window must cover the
    /// whole run, not just the word the tensor starts at.
    pub fn rmsnorm_window(&self, weight_offset: u32, bias_offset: Option<u32>, count: u32) -> (r:
        Result<BlobWindow, String>)
        requires
            self.words() > 0,
        ensures
            self.range_outcome(
                r,
                norm_first_word(weight_offset, bias_offset),
                norm_last_word(weight_offset, bias_offset, count),
            ),
    {
        let last: u32 = count.saturating_sub(1);
        let mut start_word: u32 = weight_offset;
        let mut end_word: u32 = weight_offset.saturating_add(last);
        if let Some(b) = bias_offset {
            if b < start_word {
                start_word = b;
            }
            let bias_end: u32 = b.saturating_add(last);
            if bias_end > end_word {
                end_word = bias_end;
            }
        }
        proof {
            let c = self.words();
            assert(start_word as int / c <= end_word as int / c) by (nonlinear_arith)
                requires
                    start_word <= end_word,
                    c > 0,
            ;
        }
        self.window_for_range(start_word, end_word)
    }

    /// Creates a window covering the LM-head weight rows `base_row..base_row+rows`.
    ///
    /// Row stride is derived from the head tensor's quant type, not assumed to
    /// be 4 bytes per element. Falls back to `token_embd.weight` when the model
    /// ties its head weights.
    pub fn lm_head_window(&self, base_row: u32, rows: u32, dim: u32) -> (r: Result<
        BlobWindow,
        String,
    >)
        requires
            head_refusal(self.metadata, dim) is None ==> self.head_span_fits(base_row, rows, dim),
        ensures
            match head_refusal(self.metadata, dim) {
                Some(reason) => r matches Err(e) && e@ == reason,
                None => self.range_outcome(
                    r,
                    self.head_first_word(base_row, dim),
                    self.head_last_word(base_row, rows, dim),
                ),
            },
    {
        let name = if self.metadata.get_tensor_type("output.weight").is_some() {
            "output.weight"
        } else {
            "token_embd.weight"
        };
        let weight_bytes: u64 = match self.metadata.get_tensor_offset(name) {
            Some(o) => o,
            None => 0,
        };
        let quant: u32 = match self.metadata.get_tensor_type(name) {
            Some(q) => q,
            None => 0,
        };
        let (elems, bytes) = match quant_block_geometry(quant) {
            Some(g) => g,
            None => {
                let mut e = "unknown quant type ".to_string();
                push_decimal(&mut e, quant as u64);
                e.append(" for ");
                e.append(name);
                return Err(e);
            },
        };
        if (dim as u64) % (elems as u64) != 0 {
            let mut e = name.to_string();
            e.append(" row dim ");
            push_decimal(&mut e, dim as u64);
            e.append(" is not a multiple of block_elems ");
            push_decimal(&mut e, elems as u64);
            e.append(" for quant type ");
            push_decimal(&mut e, quant as u64);
            return Err(e);
        }
        let ghost row = head_row_bytes(quant, dim);
        assert(0 <= dim as int / elems as int <= dim && 0 <= row <= dim * 210) by (nonlinear_arith)
            requires
                1 <= elems,
                bytes <= 210,
                row == dim as int / elems as int * bytes,
        ;
        let row_bytes: u64 = (dim as u64 / elems as u64) * bytes as u64;
        assert(0 <= base_row * row <= (base_row + rows) * row) by (nonlinear_arith)
            requires
                row >= 0,
                base_row >= 0,
                rows >= 0,
        ;
        let start_byte: u64 = weight_bytes + (base_row as u64) * row_bytes;
        let end: u64 = weight_bytes + (base_row as u64 + rows as u64) * row_bytes;
        let end_byte: u64 = if rows == 0 {
            end
        } else {
            end - 1
        };
        self.window_for_range(low_u32(start_byte / 4), low_u32(end_byte / 4))
    }

    /// The first word of the head rows from `base_row` on.
    pub open spec fn head_first_word(self, base_row: u32, dim: u32) -> int {
        let row = head_row_bytes(head_quant(self.metadata, 0), dim);
        word_index(head_start(self.metadata, base_row, row))
    }

    /// The last word of `rows` head rows from `base_row` on.
    pub open spec fn head_last_word(self, base_row: u32, rows: u32, dim: u32) -> int {
        let row = head_row_bytes(head_quant(self.metadata, 0), dim);
        word_index(head_end(self.metadata, base_row, rows, row))
    }

    /// Whether the span of head rows can be counted in 64 bits, and still ends
    /// at or behind its start when counted in 32-bit words.
    pub open spec fn head_span_fits(self, base_row: u32, rows: u32, dim: u32) -> bool {
        let row = head_row_bytes(head_quant(self.metadata, 0), dim);
        let end = head_end(self.metadata, base_row, rows, row);
        &&& self.words() > 0
        &&& 0 <= end
        &&& head_offset(self.metadata) + (base_row + rows) * row <= u64::MAX
        &&& self.head_first_word(base_row, dim) / self.words() <= self.head_last_word(
            base_row,
            rows,
            dim,
        ) / self.words()
    }

    /// Plans the window of a layer dispatch, see [`plan_layer_window`].
    pub fn plan_window(&self, offsets: &LayerOffsets, blob_base_words: u32) -> (r: Result<
        (Option<BlobWindow>, u32),
        String,
    >)
        requires
            offsets.addressable(blob_base_words),
            !offsets.is_empty() ==> self.words() > 0,
        ensures
            offsets.is_empty() ==> r == Ok::<(Option<BlobWindow>, u32), String>(
                (None, blob_base_words),
            ),
            forall|lo: int, hi: int| #[trigger]
                offsets.spans(blob_base_words, lo, hi) ==> layer_window_outcome(
                    r,
                    lo,
                    hi,
                    self.words() as u32,
                    self.total_resident_chunks,
                    blob_base_words,
                ),
    {
        plan_layer_window(
            offsets,
            blob_base_words,
            self.chunk_words(),
            self.total_resident_chunks,
        )
    }
}

/// The first word that a norm dispatch reads.
pub open spec fn norm_first_word(weight_offset: u32, bias_offset: Option<u32>) -> int {
    match bias_offset {
        Some(b) => if b < weight_offset {
            b as int
        } else {
            weight_offset as int
        },
        None => weight_offset as int,
    }
}

/// The last word of a run of `count` words from `offset` on, or the last word
/// there is.
pub open spec fn run_end(offset: u32, count: u32) -> int {
    let last = if count == 0 {
        0int
    } else {
        count - 1
    };
    if offset + last <= u32::MAX {
        offset + last
    } else {
        u32::MAX as int
    }
}

/// The last word that a norm dispatch reads.
pub open spec fn norm_last_word(weight_offset: u32, bias_offset: Option<u32>, count: u32) -> int {
    match bias_offset {
        Some(b) => if run_end(b, count) > run_end(weight_offset, count) {
            run_end(b, count)
        } else {
            run_end(weight_offset, count)
        },
        None => run_end(weight_offset, count),
    }
}

/// Whether a layer's window is granted.
pub open spec fn layer_window_granted(
    model: BindlessModel,
    offsets: LayerOffsets,
    blob_base_words: u32,
) -> bool {
    forall|lo: int, hi: int| #[trigger]
        offsets.spans(blob_base_words, lo, hi) ==> model.refusal(lo, hi) is None
}

/// The window of a layer dispatch and the base that its shader receives, where
/// the window is granted.
pub fn resolve_layer_window(
    model: &BindlessModel,
    offsets: &LayerOffsets,
    blob_base_words: u32,
) -> (r: (Option<BlobWindow>, u32))
    requires
        offsets.addressable(blob_base_words),
        !offsets.is_empty() ==> model.words() > 0,
        layer_window_granted(*model, *offsets, blob_base_words),
    ensures
        offsets.is_empty() ==> r == (None::<BlobWindow>, blob_base_words),
        forall|lo: int, hi: int| #[trigger]
            offsets.spans(blob_base_words, lo, hi) ==> layer_window_outcome(
                Ok(r),
                lo,
                hi,
                model.words() as u32,
                model.total_resident_chunks,
                blob_base_words,
            ),
{
    match model.plan_window(offsets, blob_base_words) {
        Ok(r) => r,
        Err(_) => {
            proof {
                offsets.lemma_span_exists(blob_base_words);
            }
            (None, blob_base_words)
        },
    }
}

impl BlobWindow {
    /// Returns the bindings for this window's slots.
    /// Slot `i` binds resident chunk `start_chunk + i` (or the dummy if missing).
    pub fn binding_resources(&self, model: &BindlessModel) -> (slots: [BlobBinding;
        BLOB_BINDING_SLOTS])
        requires
            self.slots_exist(),
        ensures
            forall|i: int|
                0 <= i < BLOB_BINDING_SLOTS ==> #[trigger] slots@[i] == self.slot_binding(
                    model.blobs@.len() as int,
                    i,
                ),
    {
        self.bindings(model.blobs.len())
    }
}

/// Returns the eight blob bindings for a dispatch.
///
/// With a window, slot `i` binds resident chunk `window.start_chunk + i`.
/// Without one it binds chunk `i`.
pub fn blob_bindings_for(model: &BindlessModel, window: Option<&BlobWindow>) -> (slots: [BlobBinding;
    BLOB_BINDING_SLOTS])
    requires
        window matches Some(w) ==> w.slots_exist(),
    ensures
        forall|i: int|
            0 <= i < BLOB_BINDING_SLOTS ==> #[trigger] slots@[i] == (match window {
                Some(w) => w.slot_binding(model.blobs@.len() as int, i),
                None => identity_binding(model.blobs@.len() as int, i),
            }),
{
    match window {
        Some(w) => w.binding_resources(model),
        None => [
            model.blob_binding_0(),
            model.blob_binding_1(),
            model.blob_binding_2(),
            model.blob_binding_3(),
            model.blob_binding_4(),
            model.blob_binding_5(),
            model.blob_binding_6(),
            model.blob_binding_7(),
        ],
    }
}

/// Binding without a window is what a full window from chunk 0 on binds.
pub proof fn law_no_window_is_window_from_zero(
    resident: usize,
    chunk_words: u32,
    total: usize,
    i: int,
)
    requires
        0 <= i < BLOB_BINDING_SLOTS,
    ensures
        identity_binding(resident as int, i) == (BlobWindow {
            start_chunk: 0,
            slot_count: BLOB_BINDING_SLOTS,
            chunk_words,
            total_resident_chunks: total,
        }).slot_binding(resident as int, i),
{
}

/// A granted norm window covers every word of the weight and of the bias, and no
/// window of fewer slots covers them all.
pub proof fn law_norm_window_covers_reads(
    model: BindlessModel,
    weight_offset: u32,
    bias_offset: Option<u32>,
    count: u32,
    word: int,
    other: BlobWindow,
)
    requires
        model.words() > 0,
        model.refusal(
            norm_first_word(weight_offset, bias_offset),
            norm_last_word(weight_offset, bias_offset, count),
        ) is None,
        word <= u32::MAX,
        is_norm_word(weight_offset, bias_offset, count, word),
        other.chunk_words == model.words(),
        other.start_chunk < 0x1_0000_0000,
        other.slot_count < 0x1_0000_0000,
    ensures
        ({
            let w = model.range(
                norm_first_word(weight_offset, bias_offset),
                norm_last_word(weight_offset, bias_offset, count),
            );
            &&& w.covers(word)
            &&& (forall|x: int|
                x <= u32::MAX && is_norm_word(weight_offset, bias_offset, count, x)
                    ==> #[trigger] other.covers(x)) ==> other.slot_count >= w.slot_count
        }),
{
    let first = norm_first_word(weight_offset, bias_offset);
    let last = norm_last_word(weight_offset, bias_offset, count);
    assert(is_norm_word(weight_offset, bias_offset, count, first));
    assert(is_norm_word(weight_offset, bias_offset, count, last));
    if forall|x: int|
        x <= u32::MAX && is_norm_word(weight_offset, bias_offset, count, x)
            ==> #[trigger] other.covers(x) {
        assert(other.covers(first) && other.covers(last));
    }
    law_range_window_is_narrowest(
        first as u32,
        last as u32,
        model.words() as u32,
        model.total_resident_chunks,
        word,
        other,
    );
}

/// Whether a norm dispatch reads `word`: from the weight, or from the bias.
pub open spec fn is_norm_word(
    weight_offset: u32,
    bias_offset: Option<u32>,
    count: u32,
    word: int,
) -> bool {
    ||| weight_offset <= word < weight_offset + count
    ||| bias_offset matches Some(b) && b <= word < b + count
}

/// A granted head window covers the word of every byte of the head rows, and no
/// window of fewer slots covers the first and the last of them, as long as the
/// rows lie in 32-bit word space.
pub proof fn law_head_window_covers_rows(
    model: BindlessModel,
    base_row: u32,
    rows: u32,
    dim: u32,
    byte: int,
    other: BlobWindow,
)
    requires
        model.words() > 0,
        head_refusal(model.metadata, dim) is None,
        model.refusal(
            model.head_first_word(base_row, dim),
            model.head_last_word(base_row, rows, dim),
        ) is None,
        ({
            let row = head_row_bytes(head_quant(model.metadata, 0), dim);
            &&& head_start(model.metadata, base_row, row) <= byte < head_start(
                model.metadata,
                base_row,
                row,
            ) + rows * row
            &&& head_end(model.metadata, base_row, rows, row) / 4 <= u32::MAX
        }),
        other.chunk_words == model.words(),
        other.start_chunk < 0x1_0000_0000,
        other.slot_count < 0x1_0000_0000,
    ensures
        ({
            let row = head_row_bytes(head_quant(model.metadata, 0), dim);
            let first = head_start(model.metadata, base_row, row);
            let last = first + rows * row - 1;
            let w = model.range(
                model.head_first_word(base_row, dim),
                model.head_last_word(base_row, rows, dim),
            );
            &&& model.head_first_word(base_row, dim) == first / 4
            &&& model.head_last_word(base_row, rows, dim) == last / 4
            &&& w.covers(byte / 4)
            &&& other.covers(first / 4) && other.covers(last / 4) ==> other.slot_count
                >= w.slot_count
        }),
{
    let row = head_row_bytes(head_quant(model.metadata, 0), dim);
    let start = head_start(model.metadata, base_row, row);
    let end = head_end(model.metadata, base_row, rows, row);
    assert((base_row + rows) * row == base_row * row + rows * row) by (nonlinear_arith);
    let elems = (block_geometry(head_quant(model.metadata, 0))->0).0 as int;
    let bytes = (block_geometry(head_quant(model.metadata, 0))->0).1 as int;
    assert(row >= 0) by (nonlinear_arith)
        requires
            row == dim as int / elems * bytes,
            elems > 0,
            bytes > 0,
            dim >= 0,
    ;
    assert(base_row * row >= 0) by (nonlinear_arith)
        requires
            row >= 0,
            base_row >= 0,
    ;
    assert(rows > 0) by (nonlinear_arith)
        requires
            0 < rows * row,
            row >= 0,
    ;
    law_range_window_is_narrowest(
        (start / 4) as u32,
        (end / 4) as u32,
        model.words() as u32,
        model.total_resident_chunks,
        byte / 4,
        other,
    );
}

/// The head tensor is refused just where its type has no known geometry or its rows
/// are not whole blocks. Its rows are as long as any rows of that type.
pub proof fn law_head_is_refused_for_broken_rows(metadata: BindlessMetadata, dim: u32)
    ensures
        ({
            let types = metadata.tensor_types@;
            let name = if types.contains_key("output.weight"@) {
                "output.weight"@
            } else {
                "token_embd.weight"@
            };
            let quant = if types.contains_key(name) {
                types[name]
            } else {
                0
            };
            &&& head_tensor(metadata) == name
            &&& head_quant(metadata, 0) == quant
            &&& head_refusal(metadata, dim) is None <==> {
                &&& block_geometry(quant) is Some
                &&& dim as int % (block_geometry(quant)->0).0 as int == 0
            }
            &&& block_geometry(quant) is Some ==> head_row_bytes(quant, dim) == row_bytes(
                quant,
                dim as int,
            )
        }),
{
    let quant = head_quant(metadata, 0);
    let d = dim as int;
    if block_geometry(quant) is Some {
        let (elems, bytes) = block_geometry(quant)->0;
        let q = d / elems as int;
        let e = elems as int;
        let b = bytes as int;
        assert(e == 1 ==> q == d) by (nonlinear_arith)
            requires
                q == d / e,
        ;
    }
}

/// The head lies where the header says, and its rows follow each other: the rows from
/// one on start where those before end.
pub proof fn law_head_rows_follow(metadata: BindlessMetadata, base_row: u32, rows: u32, row: int)
    requires
        base_row + rows <= u32::MAX,
        rows > 0,
    ensures
        ({
            let offsets = metadata.tensor_offsets@;
            let name = head_tensor(metadata);
            &&& offsets.contains_key(name) ==> head_start(metadata, 0, row) == offsets[name]
            &&& !offsets.contains_key(name) ==> head_start(metadata, 0, row) == 0
            &&& head_end(metadata, base_row, rows, row) + 1 == head_start(
                metadata,
                (base_row + rows) as u32,
                row,
            )
            &&& head_start(metadata, (base_row + rows) as u32, row) == head_start(
                metadata,
                base_row,
                row,
            ) + rows * row
        }),
{
    assert((base_row + rows) * row == base_row * row + rows * row) by (nonlinear_arith);
    assert(0 * row == 0);
}

/// The refusal of a head with broken rows names the tensor, the row's length, the
/// length of a block and the type.
pub proof fn law_head_refusal_names_the_numbers(metadata: BindlessMetadata, dim: u32)
    requires
        head_refusal(metadata, dim) is Some,
        block_geometry(head_quant(metadata, 0)) is Some,
    ensures
        ({
            let quant = head_quant(metadata, 0);
            let elems = (block_geometry(quant)->0).0;
            head_refusal(metadata, dim)->0 == head_tensor(metadata) + " row dim "@ + decimal(
                dim as nat,
            ) + " is not a multiple of block_elems "@ + decimal(elems as nat) + " for quant type "@
                + decimal(quant as nat)
        }),
{
}

} // verus!
