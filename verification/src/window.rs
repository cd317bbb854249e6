//! Sliding windows over resident blob chunks.

use crate::loader::BLOB_BINDING_SLOTS;
use crate::num::low_u32;
use crate::text::{decimal, push_decimal};
use vstd::prelude::*;

verus! {

/// A sliding window over resident blob chunks for a single GPU dispatch.
///
/// The shader layout has a fixed `BLOB_BINDING_SLOTS` (8) blob bindings.
/// A model may have more resident chunks than binding slots. `BlobWindow`
/// selects a consecutive range of `slot_count` resident chunks starting at
/// `start_chunk` and maps absolute word indices to window-local
/// `(slot_index, word_offset)` pairs. Out-of-window accesses are rejected
/// before dispatch.
///
/// The host subtracts `start_chunk * chunk_words` from all absolute word indices
/// passed to the shader, so the shader sees a contiguous window starting at
/// word 0.
#[derive(Debug, Clone, Copy, PartialEq, Eq, Structural)]
pub struct BlobWindow {
    /// Index of the first resident chunk, bound to slot 0.
    pub start_chunk: usize,
    /// Number of slots to bind.
    pub slot_count: usize,
    /// Words per chunk.
    pub chunk_words: u32,
    /// Total number of resident chunks in the model.
    pub total_resident_chunks: usize,
}

/// What a blob binding slot holds: a resident chunk, or the dummy buffer that
/// fills the slots a dispatch does not use.
#[derive(Debug, Clone, Copy, PartialEq, Eq, Structural)]
pub enum BlobBinding {
    Chunk(usize),
    Dummy,
}

/// Why a window of `slots` chunks from `start` on is refused when `total`
/// chunks are resident; `None` where it is granted.
pub open spec fn window_refusal(start: nat, slots: nat, total: nat) -> Option<Seq<char>> {
    if start >= total {
        Some(
            "window start_chunk "@ + decimal(start) + " >= total_resident_chunks "@ + decimal(
                total,
            ),
        )
    } else if slots == 0 || slots > BLOB_BINDING_SLOTS {
        Some(
            "slot_count "@ + decimal(slots) + " must be in [1, BLOB_BINDING_SLOTS="@ + decimal(
                BLOB_BINDING_SLOTS as nat,
            ) + "]"@,
        )
    } else if start + slots > total {
        Some(
            "window ["@ + decimal(start) + ", "@ + decimal(start + slots)
                + ") exceeds total_resident_chunks "@ + decimal(total),
        )
    } else {
        None
    }
}

/// Whether `r` is the outcome of asking for the window `w`: `w` itself, or the
/// reason of its refusal.
pub open spec fn window_outcome(r: Result<BlobWindow, String>, w: BlobWindow) -> bool {
    match window_refusal(
        w.start_chunk as nat,
        w.slot_count as nat,
        w.total_resident_chunks as nat,
    ) {
        None => r == Ok::<BlobWindow, String>(w),
        Some(reason) => r matches Err(e) && e@ == reason,
    }
}

/// The window that `for_range` grants.
pub open spec fn range_window(
    start_word: int,
    end_word: int,
    chunk_words: u32,
    total: usize,
) -> BlobWindow {
    BlobWindow {
        start_chunk: (start_word / chunk_words as int) as usize,
        slot_count: range_slots(start_word, end_word, chunk_words) as usize,
        chunk_words,
        total_resident_chunks: total,
    }
}

/// How many chunks the words from `start_word` to `end_word` lie in.
pub open spec fn range_slots(start_word: int, end_word: int, chunk_words: u32) -> nat {
    (end_word / chunk_words as int - start_word / chunk_words as int + 1) as nat
}

/// Why no window is granted for a range of words; `None` where one is.
pub open spec fn range_refusal(
    start_word: int,
    end_word: int,
    chunk_words: u32,
    total: usize,
) -> Option<Seq<char>> {
    window_refusal(
        (start_word / chunk_words as int) as nat,
        range_slots(start_word, end_word, chunk_words),
        total as nat,
    )
}

/// Whether `r` is the outcome of asking for a window of the words from
/// `start_word` to `end_word`.
pub open spec fn range_outcome(
    r: Result<BlobWindow, String>,
    start_word: int,
    end_word: int,
    chunk_words: u32,
    total: usize,
) -> bool {
    match range_refusal(start_word, end_word, chunk_words, total) {
        None => r == Ok::<BlobWindow, String>(
            range_window(start_word, end_word, chunk_words, total),
        ),
        Some(reason) => r matches Err(e) && e@ == reason,
    }
}

impl BlobWindow {
    /// A window as `new` grants it.
    pub open spec fn wf(self) -> bool {
        &&& 1 <= self.slot_count <= BLOB_BINDING_SLOTS
        &&& self.start_chunk + self.slot_count <= self.total_resident_chunks
    }

    /// First absolute word of the window, over the 32-bit chunk index.
    pub open spec fn base(self) -> int {
        (self.start_chunk as int % 0x1_0000_0000) * self.chunk_words
    }

    /// The absolute word right behind the window.
    pub open spec fn end(self) -> int {
        self.base() + (self.slot_count as int % 0x1_0000_0000) * self.chunk_words
    }

    /// Whether the window lies within the 32-bit word space.
    pub open spec fn addressable(self) -> bool {
        self.end() <= u32::MAX
    }

    /// Whether an absolute word lies in the window.
    pub open spec fn covers(self, word: int) -> bool {
        self.base() <= word < self.end()
    }

    /// Grants the window of `slots` chunks from `start` on, or tells why not.
    fn granted(start: u64, slots: u64, chunk_words: u32, total: usize) -> (r: Result<Self, String>)
        requires
            start < total && 1 <= slots <= BLOB_BINDING_SLOTS ==> start + slots <= u64::MAX,
        ensures
            match window_refusal(start as nat, slots as nat, total as nat) {
                None => {
                    &&& start <= usize::MAX
                    &&& r == Ok::<Self, String>(
                        BlobWindow {
                            start_chunk: start as usize,
                            slot_count: slots as usize,
                            chunk_words,
                            total_resident_chunks: total,
                        },
                    )
                    &&& r->Ok_0.wf()
                },
                Some(reason) => r matches Err(e) && e@ == reason,
            },
    {
        if start >= total as u64 {
            let mut e = "window start_chunk ".to_string();
            push_decimal(&mut e, start);
            e.append(" >= total_resident_chunks ");
            push_decimal(&mut e, total as u64);
            return Err(e);
        }
        if slots == 0 || slots > BLOB_BINDING_SLOTS as u64 {
            let mut e = "slot_count ".to_string();
            push_decimal(&mut e, slots);
            e.append(" must be in [1, BLOB_BINDING_SLOTS=");
            push_decimal(&mut e, BLOB_BINDING_SLOTS as u64);
            e.append("]");
            return Err(e);
        }
        if start + slots > total as u64 {
            let mut e = "window [".to_string();
            push_decimal(&mut e, start);
            e.append(", ");
            push_decimal(&mut e, start + slots);
            e.append(") exceeds total_resident_chunks ");
            push_decimal(&mut e, total as u64);
            return Err(e);
        }
        Ok(
            BlobWindow {
                start_chunk: start as usize,
                slot_count: slots as usize,
                chunk_words,
                total_resident_chunks: total,
            },
        )
    }

    /// Creates a new window covering `slot_count` chunks starting at `start_chunk`.
    ///
    /// Fails if:
    /// - `start_chunk >= total_resident_chunks`
    /// - `slot_count == 0` or `slot_count > BLOB_BINDING_SLOTS`
    /// - `start_chunk + slot_count > total_resident_chunks`
    pub fn new(
        start_chunk: usize,
        slot_count: usize,
        chunk_words: u32,
        total_resident_chunks: usize,
    ) -> (r: Result<Self, String>)
        requires
            start_chunk < total_resident_chunks && 1 <= slot_count <= BLOB_BINDING_SLOTS
                ==> start_chunk + slot_count <= u64::MAX,
        ensures
            window_outcome(
                r,
                (BlobWindow { start_chunk, slot_count, chunk_words, total_resident_chunks }),
            ),
            r is Ok ==> r->Ok_0.wf(),
    {
        Self::granted(start_chunk as u64, slot_count as u64, chunk_words, total_resident_chunks)
    }

    /// Creates the narrowest window covering the absolute word range
    /// `[start_word, end_word]`.
    ///
    /// Fails if the range spans more than `BLOB_BINDING_SLOTS` chunks, or
    /// extends past the resident chunk count.
    pub fn for_range(
        start_word: u32,
        end_word: u32,
        chunk_words: u32,
        total_resident_chunks: usize,
    ) -> (r: Result<Self, String>)
        requires
            chunk_words > 0,
            start_word / chunk_words <= end_word / chunk_words,
        ensures
            range_outcome(
                r,
                start_word as int,
                end_word as int,
                chunk_words,
                total_resident_chunks,
            ),
            r is Ok ==> r->Ok_0.wf(),
    {
        let start_chunk: u32 = start_word / chunk_words;
        let end_chunk: u32 = end_word / chunk_words;
        let slots: u64 = (end_chunk - start_chunk) as u64 + 1;
        Self::granted(start_chunk as u64, slots, chunk_words, total_resident_chunks)
    }

    /// Creates a window covering exactly `BLOB_BINDING_SLOTS` chunks (8) starting
    /// at `start_chunk`. This is the normal dispatch window for layer shaders.
    pub fn full(start_chunk: usize, chunk_words: u32, total_resident_chunks: usize) -> (r: Result<
        Self,
        String,
    >)
        requires
            start_chunk < total_resident_chunks ==> start_chunk + BLOB_BINDING_SLOTS <= u64::MAX,
        ensures
            window_outcome(
                r,
                (BlobWindow {
                    start_chunk,
                    slot_count: BLOB_BINDING_SLOTS,
                    chunk_words,
                    total_resident_chunks,
                }),
            ),
    {
        Self::new(start_chunk, BLOB_BINDING_SLOTS, chunk_words, total_resident_chunks)
    }

    /// Returns the word offset of the window's start in the absolute GGUF space.
    pub fn window_base_words(&self) -> (r: u32)
        requires
            self.base() <= u32::MAX,
        ensures
            r == self.base(),
    {
        low_u32(self.start_chunk as u64) * self.chunk_words
    }

    fn window_end_words(&self) -> (r: u32)
        requires
            self.addressable(),
        ensures
            r == self.end(),
    {
        proof {
            self.lemma_end_parts();
        }
        self.window_base_words() + low_u32(self.slot_count as u64) * self.chunk_words
    }

    proof fn lemma_end_parts(self)
        ensures
            0 <= self.base() <= self.end(),
            0 <= (self.slot_count as int % 0x1_0000_0000) * self.chunk_words <= self.end(),
    {
        assert(0 <= (self.slot_count as int % 0x1_0000_0000) * self.chunk_words)
            by (nonlinear_arith);
        assert(0 <= (self.start_chunk as int % 0x1_0000_0000) * self.chunk_words)
            by (nonlinear_arith);
    }

    /// Why `absolute_word` has no place in the window; `None` where it has one.
    pub open spec fn word_refusal(self, absolute_word: u32) -> Option<Seq<char>> {
        if absolute_word < self.base() {
            Some(
                "word "@ + decimal(absolute_word as nat) + " before window base "@ + decimal(
                    self.base() as nat,
                ),
            )
        } else if absolute_word >= self.end() {
            Some(
                "word "@ + decimal(absolute_word as nat) + " at/after window end "@ + decimal(
                    self.end() as nat,
                ) + " (slot_count="@ + decimal(self.slot_count as nat) + ", chunk_words="@
                    + decimal(self.chunk_words as nat) + ")"@,
            )
        } else {
            None
        }
    }

    /// Maps an absolute word index to `(slot_index, local_word_offset)` within
    /// this window.
    ///
    /// Returns an error if the word is not covered by this window (before start
    /// or at/after end).
    pub fn absolute_to_local(&self, absolute_word: u32) -> (r: Result<(usize, u32), String>)
        requires
            self.addressable(),
        ensures
            match self.word_refusal(absolute_word) {
                None => r matches Ok((slot, offset)) && {
                    &&& slot == (absolute_word - self.base()) / self.chunk_words as int
                    &&& offset == (absolute_word - self.base()) % self.chunk_words as int
                },
                Some(reason) => r matches Err(e) && e@ == reason,
            },
            r is Ok <==> self.covers(absolute_word as int),
            r matches Ok((slot, offset)) ==> {
                &&& self.base() + slot * self.chunk_words + offset == absolute_word
                &&& offset < self.chunk_words
            },
    {
        proof {
            self.lemma_end_parts();
        }
        let base: u32 = self.window_base_words();
        let end: u32 = self.window_end_words();
        if absolute_word < base {
            let mut e = "word ".to_string();
            push_decimal(&mut e, absolute_word as u64);
            e.append(" before window base ");
            push_decimal(&mut e, base as u64);
            return Err(e);
        }
        if absolute_word >= end {
            let mut e = "word ".to_string();
            push_decimal(&mut e, absolute_word as u64);
            e.append(" at/after window end ");
            push_decimal(&mut e, end as u64);
            e.append(" (slot_count=");
            push_decimal(&mut e, self.slot_count as u64);
            e.append(", chunk_words=");
            push_decimal(&mut e, self.chunk_words as u64);
            e.append(")");
            return Err(e);
        }
        assert(self.chunk_words > 0) by {
            assert((self.slot_count as int % 0x1_0000_0000) * 0 == 0) by (nonlinear_arith);
        }
        let rel: u32 = absolute_word - base;
        proof {
            lemma_quotient_bounds(rel as int, self.chunk_words as int);
        }
        Ok(((rel / self.chunk_words) as usize, rel % self.chunk_words))
    }

    /// The absolute word that slot `slot_index` holds at `local_word`.
    pub open spec fn absolute(self, slot_index: usize, local_word: u32) -> int {
        self.base() + (slot_index as int % 0x1_0000_0000) * self.chunk_words + local_word
    }

    /// Reconstructs an absolute word index from a window-local
    /// `(slot_index, local_word)`.
    pub fn local_to_absolute(&self, slot_index: usize, local_word: u32) -> (r: u32)
        requires
            self.absolute(slot_index, local_word) <= u32::MAX,
        ensures
            r == self.absolute(slot_index, local_word),
    {
        assert(0 <= self.base()) by (nonlinear_arith)
            requires
                self.base() == (self.start_chunk as int % 0x1_0000_0000) * self.chunk_words,
        ;
        assert(0 <= (slot_index as int % 0x1_0000_0000) * self.chunk_words) by (nonlinear_arith);
        let base: u32 = self.window_base_words();
        base + low_u32(slot_index as u64) * self.chunk_words + local_word
    }

    /// Checks if an absolute word index is covered by this window.
    pub fn contains(&self, absolute_word: u32) -> (r: bool)
        requires
            self.addressable(),
        ensures
            r == self.covers(absolute_word as int),
    {
        proof {
            self.lemma_end_parts();
        }
        let base: u32 = self.window_base_words();
        let end: u32 = self.window_end_words();
        absolute_word >= base && absolute_word < end
    }

    /// What slot `i` binds when `resident` chunks are loaded.
    pub open spec fn slot_binding(self, resident: int, i: int) -> BlobBinding {
        if i < self.slot_count && self.start_chunk + i < resident {
            BlobBinding::Chunk((self.start_chunk + i) as usize)
        } else {
            BlobBinding::Dummy
        }
    }

    /// Whether every bound slot has a chunk number.
    pub open spec fn slots_exist(self) -> bool {
        &&& self.slot_count <= BLOB_BINDING_SLOTS ==> self.start_chunk + self.slot_count
            <= usize::MAX + 1
        &&& self.slot_count > BLOB_BINDING_SLOTS ==> self.start_chunk + BLOB_BINDING_SLOTS
            <= usize::MAX + 1
    }

    fn slot_resource(&self, resident: usize, i: usize) -> (b: BlobBinding)
        requires
            i < self.slot_count ==> self.start_chunk + i <= usize::MAX,
        ensures
            b == self.slot_binding(resident as int, i as int),
    {
        if i < self.slot_count {
            let chunk_idx: usize = self.start_chunk + i;
            if chunk_idx < resident {
                return BlobBinding::Chunk(chunk_idx);
            }
        }
        BlobBinding::Dummy
    }

    /// The bindings of this window's slots when `resident` chunks are loaded:
    /// slot `i` binds chunk `start_chunk + i`, or the dummy where there is none.
    pub fn bindings(&self, resident: usize) -> (slots: [BlobBinding; BLOB_BINDING_SLOTS])
        requires
            self.slots_exist(),
        ensures
            forall|i: int|
                0 <= i < BLOB_BINDING_SLOTS ==> #[trigger] slots@[i] == self.slot_binding(
                    resident as int,
                    i,
                ),
    {
        [
            self.slot_resource(resident, 0),
            self.slot_resource(resident, 1),
            self.slot_resource(resident, 2),
            self.slot_resource(resident, 3),
            self.slot_resource(resident, 4),
            self.slot_resource(resident, 5),
            self.slot_resource(resident, 6),
            self.slot_resource(resident, 7),
        ]
    }
}

/// A window is refused for a range exactly where the range lies in more chunks
/// than there are binding slots, or reaches past the resident chunks.
pub proof fn law_range_is_refused_beyond_slots_or_chunks(
    start_word: u32,
    end_word: u32,
    chunk_words: u32,
    total: usize,
)
    requires
        chunk_words > 0,
        start_word <= end_word,
    ensures
        range_refusal(start_word as int, end_word as int, chunk_words, total) is Some <==> {
            ||| end_word as int / chunk_words as int - start_word as int / chunk_words as int + 1
                > BLOB_BINDING_SLOTS
            ||| end_word as int / chunk_words as int >= total
        },
{
    lemma_quotients_ascend(start_word as int, end_word as int, chunk_words as int);
}

/// A granted range window covers the whole range, and every window of the same
/// chunks that covers both ends of the range has at least as many slots.
pub proof fn law_range_window_is_narrowest(
    start_word: u32,
    end_word: u32,
    chunk_words: u32,
    total: usize,
    word: int,
    other: BlobWindow,
)
    requires
        chunk_words > 0,
        start_word <= end_word,
        range_refusal(start_word as int, end_word as int, chunk_words, total) is None,
        start_word <= word <= end_word,
        other.chunk_words == chunk_words,
        other.start_chunk < 0x1_0000_0000,
        other.slot_count < 0x1_0000_0000,
    ensures
        range_window(start_word as int, end_word as int, chunk_words, total).wf(),
        range_window(start_word as int, end_word as int, chunk_words, total).covers(word),
        other.covers(start_word as int) && other.covers(end_word as int) ==> other.slot_count
            >= range_window(start_word as int, end_word as int, chunk_words, total).slot_count,
{
    let c = chunk_words as int;
    let s = start_word as int / c;
    let e = end_word as int / c;
    let w = range_window(start_word as int, end_word as int, chunk_words, total);
    lemma_quotient_bounds(start_word as int, c);
    lemma_quotient_bounds(end_word as int, c);
    lemma_quotients_ascend(start_word as int, end_word as int, c);
    lemma_quotient_small(start_word as int, c);
    assert(w.base() == s * c);
    assert(w.end() == s * c + (e - s + 1) * c);
    assert(s * c + (e - s + 1) * c == (e + 1) * c) by (nonlinear_arith);
    if other.covers(start_word as int) && other.covers(end_word as int) {
        let a = other.start_chunk as int;
        let b = a + other.slot_count;
        assert(a * c + other.slot_count * c == b * c) by (nonlinear_arith)
            requires
                b == a + other.slot_count,
        ;
        assert(a <= s) by (nonlinear_arith)
            requires
                a * c <= start_word,
                start_word < (s + 1) * c,
                c > 0,
        ;
        assert(e < b) by (nonlinear_arith)
            requires
                end_word < b * c,
                e * c <= end_word,
                c > 0,
        ;
    }
}

proof fn lemma_quotients_ascend(x: int, y: int, c: int)
    by (nonlinear_arith)
    requires
        0 <= x <= y,
        c > 0,
    ensures
        0 <= x / c <= y / c,
{
}

proof fn lemma_quotient_bounds(x: int, c: int)
    requires
        x >= 0,
        c > 0,
    ensures
        (x / c) * c <= x < (x / c + 1) * c,
        x == (x / c) * c + x % c,
        0 <= x % c < c,
{
    vstd::arithmetic::div_mod::lemma_fundamental_div_mod(x, c);
    let q = x / c;
    assert(c * q == q * c) by (nonlinear_arith);
    assert((q + 1) * c == q * c + c) by (nonlinear_arith);
}

proof fn lemma_quotient_small(x: int, c: int)
    by (nonlinear_arith)
    requires
        0 <= x < 0x1_0000_0000,
        c > 0,
    ensures
        0 <= x / c < 0x1_0000_0000,
{
}

/// A word of the window and its place in a slot determine each other.
pub proof fn law_local_and_absolute_are_inverse(
    w: BlobWindow,
    word: u32,
    slot: usize,
    offset: u32,
)
    requires
        w.slot_count < 0x1_0000_0000,
    ensures
        w.covers(word as int) ==> {
            let rel = word - w.base();
            &&& 0 <= rel / (w.chunk_words as int) < w.slot_count
            &&& w.absolute(
                (rel / w.chunk_words as int) as usize,
                (rel % w.chunk_words as int) as u32,
            ) == word
        },
        slot < w.slot_count && offset < w.chunk_words ==> {
            let word = w.absolute(slot, offset);
            &&& w.covers(word)
            &&& (word - w.base()) / w.chunk_words as int == slot
            &&& (word - w.base()) % w.chunk_words as int == offset
        },
{
    let c = w.chunk_words as int;
    let n = w.slot_count as int;
    assert(w.base() >= 0) by (nonlinear_arith)
        requires
            w.base() == (w.start_chunk as int % 0x1_0000_0000) * w.chunk_words,
    ;
    if w.covers(word as int) {
        let rel = word - w.base();
        assert(c > 0) by (nonlinear_arith)
            requires
                0 <= rel < n * c,
                c >= 0,
        ;
        lemma_quotient_bounds(rel, c);
        let q = rel / c;
        assert(0 <= q < n) by (nonlinear_arith)
            requires
                q * c <= rel,
                rel < n * c,
                0 <= rel,
                rel < (q + 1) * c,
                c > 0,
        ;
    }
    if slot < w.slot_count && offset < w.chunk_words {
        let rel = slot * c + offset;
        assert(0 <= slot * c && slot * c + c <= n * c) by (nonlinear_arith)
            requires
                0 <= slot < n,
                c > 0,
        ;
        vstd::arithmetic::div_mod::lemma_fundamental_div_mod_converse(
            rel,
            c,
            slot as int,
            offset as int,
        );
    }
}

/// The window agrees with the plan of resident chunks: the slot a word maps to
/// binds the very chunk that holds the word, at the same offset.
pub proof fn law_window_agrees_with_chunks(w: BlobWindow, word: u32)
    requires
        w.start_chunk < 0x1_0000_0000,
        w.slot_count < 0x1_0000_0000,
        w.covers(word as int),
    ensures
        w.start_chunk + (word - w.base()) / w.chunk_words as int == word as int
            / w.chunk_words as int,
        (word - w.base()) % w.chunk_words as int == word as int % w.chunk_words as int,
        w.wf() ==> w.slot_binding(
            w.total_resident_chunks as int,
            (word - w.base()) / w.chunk_words as int,
        ) == BlobBinding::Chunk((word as int / w.chunk_words as int) as usize),
{
    let c = w.chunk_words as int;
    let a = w.start_chunk as int;
    let rel = word - a * c;
    assert(c > 0) by (nonlinear_arith)
        requires
            0 <= rel < w.slot_count * c,
            c >= 0,
    ;
    lemma_quotient_bounds(rel, c);
    let q = rel / c;
    assert((a + q) * c == a * c + q * c) by (nonlinear_arith);
    vstd::arithmetic::div_mod::lemma_fundamental_div_mod_converse(
        word as int,
        c,
        a + q,
        rel % c,
    );
    assert(0 <= q < w.slot_count) by (nonlinear_arith)
        requires
            q * c <= rel,
            rel < w.slot_count * c,
            0 <= rel,
            rel < (q + 1) * c,
            c > 0,
    ;
}

/// A window is granted just where it has one to eight slots that all bind resident
/// chunks. Else the first reason that holds is given, with its numbers: it starts
/// behind the chunks, it has no slot or too many, or it ends behind the chunks.
pub proof fn law_window_is_refused_for_the_first_reason(start: nat, slots: nat, total: nat)
    ensures
        ({
            let r = window_refusal(start, slots, total);
            &&& r is None <==> 1 <= slots <= 8 && start + slots <= total
            &&& start >= total ==> r == Some(
                "window start_chunk "@ + decimal(start) + " >= total_resident_chunks "@ + decimal(
                    total,
                ),
            )
            &&& start < total && !(1 <= slots <= 8) ==> r == Some(
                "slot_count "@ + decimal(slots) + " must be in [1, BLOB_BINDING_SLOTS="@ + decimal(8)
                    + "]"@,
            )
            &&& start < total && 1 <= slots <= 8 && start + slots > total ==> r == Some(
                "window ["@ + decimal(start) + ", "@ + decimal(start + slots)
                    + ") exceeds total_resident_chunks "@ + decimal(total),
            )
        }),
{
}

/// A word has a place in a window just where the window covers it; else the reason
/// names the word and the end of the window that it lies beyond.
pub proof fn law_word_is_refused_outside_the_window(w: BlobWindow, word: u32)
    ensures
        w.word_refusal(word) is None <==> w.covers(word as int),
        word < w.base() ==> w.word_refusal(word) == Some(
            "word "@ + decimal(word as nat) + " before window base "@ + decimal(w.base() as nat),
        ),
        word >= w.base() && word >= w.end() ==> w.word_refusal(word) == Some(
            "word "@ + decimal(word as nat) + " at/after window end "@ + decimal(w.end() as nat)
                + " (slot_count="@ + decimal(w.slot_count as nat) + ", chunk_words="@ + decimal(
                w.chunk_words as nat,
            ) + ")"@,
        ),
{
}

/// A window begins with its first chunk and ends with its last, each of the chunk's
/// words.
pub proof fn law_window_spans_its_chunks(w: BlobWindow)
    requires
        w.start_chunk + w.slot_count <= 0xffff_ffff,
    ensures
        w.base() == w.start_chunk * w.chunk_words,
        w.end() == (w.start_chunk + w.slot_count) * w.chunk_words,
        w.start_chunk == 0 ==> w.base() == 0,
{
    let s = w.start_chunk as int;
    let n = w.slot_count as int;
    let c = w.chunk_words as int;
    assert((s + n) * c == s * c + n * c) by (nonlinear_arith);
    assert(0 * c == 0);
}

} // verus!
