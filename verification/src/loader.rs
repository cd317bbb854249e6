//! The split of a GGUF file into resident blob chunks.

use crate::num::{ceil_div, div_ceil_u64, lemma_quotient_and_rest, low_u32};
use crate::text::{decimal, push_decimal};
use vstd::prelude::*;

verus! {

/// Hard ceiling for a single blob buffer, in bytes. It stays below the 2 GB
/// storage-buffer binding limit and is a multiple of 256.
pub const BLOB_CHUNK_BYTES: u64 = 2_000_000_000;

/// Alignment in bytes that every full blob buffer keeps.
pub const REQUIRED_ALIGNMENT: u64 = 256;

/// Fixed number of blob binding slots in the shader layout (bindings 0..7).
/// This is the shader-layout width and does NOT limit resident chunk count.
pub const BLOB_BINDING_SLOTS: usize = 8;

/// The multi-buffer plan for a loaded model.
#[derive(Debug, Clone, Copy, PartialEq, Eq, Structural)]
pub struct ChunkPlan {
    /// Size of each blob buffer in bytes (256-aligned, within the binding limit).
    pub effective_chunk: u64,
    /// Number of independent blob buffers the model is split into.
    pub num_chunks: usize,
}

/// Words in a chunk of `chunk_bytes` bytes, as the 32-bit count that shaders use.
pub open spec fn words_of_chunk(chunk_bytes: u64) -> int {
    (chunk_bytes as int / 4) % 0x1_0000_0000
}

impl ChunkPlan {
    /// All words that the plan's buffers hold.
    pub open spec fn total_words(self) -> int {
        self.effective_chunk * self.num_chunks / 4
    }

    /// What `compute_chunk_plan` gives for a file of `file_size` bytes.
    pub open spec fn plans(self, file_size: u64, adapter_limit: u64) -> bool {
        &&& self.effective_chunk == planned_chunk(adapter_limit)
        &&& self.num_chunks == ceil_div(file_size as int, self.effective_chunk as int)
    }

    /// Resolves an absolute word index to `(buffer_index, word_offset_in_buffer)`
    /// under this plan.
    pub fn buffer_for_word(&self, word_idx: u32) -> (r: (usize, u32))
        requires
            self.effective_chunk * self.num_chunks <= u64::MAX,
            words_of_chunk(self.effective_chunk) > 0,
            word_idx < self.total_words(),
        ensures
            r.0 == word_idx as int / words_of_chunk(self.effective_chunk),
            r.1 == word_idx as int % words_of_chunk(self.effective_chunk),
            r.0 * words_of_chunk(self.effective_chunk) + r.1 == word_idx,
            r.1 < words_of_chunk(self.effective_chunk),
    {
        let chunk_words: u32 = low_u32(self.effective_chunk / 4);
        proof {
            lemma_quotient_and_rest(word_idx as int, chunk_words as int);
        }
        ((word_idx / chunk_words) as usize, word_idx % chunk_words)
    }
}

/// The chunk size for an adapter that binds at most `adapter_limit` bytes: the
/// smaller of the limit and the ceiling, rounded down to the alignment.
pub open spec fn planned_chunk(adapter_limit: u64) -> int {
    let cap = if BLOB_CHUNK_BYTES <= adapter_limit {
        BLOB_CHUNK_BYTES
    } else {
        adapter_limit
    };
    cap as int / 256 * 256
}

/// Computes the multi-buffer chunk plan for a file of `file_size` bytes given the
/// adapter's storage-buffer binding limit.
///
/// `num_chunks` is the total resident chunk count. It is not capped by
/// [`BLOB_BINDING_SLOTS`]: that limit holds per dispatch, see [`crate::window::BlobWindow`].
pub fn compute_chunk_plan(file_size: u64, adapter_limit: u64) -> (plan: ChunkPlan)
    requires
        adapter_limit >= REQUIRED_ALIGNMENT,
        ceil_div(file_size as int, planned_chunk(adapter_limit)) <= usize::MAX,
    ensures
        plan.plans(file_size, adapter_limit),
{
    let cap: u64 = if BLOB_CHUNK_BYTES <= adapter_limit {
        BLOB_CHUNK_BYTES
    } else {
        adapter_limit
    };
    let effective_chunk: u64 = (cap / REQUIRED_ALIGNMENT) * REQUIRED_ALIGNMENT;
    let num_chunks: usize = div_ceil_u64(file_size, effective_chunk) as usize;
    ChunkPlan { effective_chunk, num_chunks }
}

/// One blob buffer's share of the file: `len` bytes from byte `offset` on.
#[derive(Debug, Clone, Copy, PartialEq, Eq, Structural)]
pub struct BlobRange {
    pub offset: u64,
    pub len: u64,
}

/// The share of chunk `i`: a full chunk, or what is left of the file.
pub open spec fn blob_range(size: u64, chunk: u64, i: int) -> BlobRange {
    let offset = i * chunk;
    BlobRange {
        offset: offset as u64,
        len: if size - offset <= chunk {
            (size - offset) as u64
        } else {
            chunk
        },
    }
}

/// Why chunk `i` cannot become a buffer, when its size is not a whole number of
/// words.
pub open spec fn misaligned_blob_text(i: nat, len: nat) -> Seq<char> {
    "blob buffer "@ + decimal(i) + " size "@ + decimal(len)
        + " must be 4-byte aligned for wgpu"@
}

/// The byte ranges of the file that become blob buffers, one per chunk.
pub fn blob_ranges(size: u64, plan: &ChunkPlan) -> (r: Result<Vec<BlobRange>, String>)
    requires
        plan.effective_chunk > 0,
        plan.effective_chunk % REQUIRED_ALIGNMENT == 0,
        plan.num_chunks == ceil_div(size as int, plan.effective_chunk as int),
    ensures
        r is Ok <==> size % 4 == 0,
        r matches Ok(v) ==> v@ == Seq::new(
            plan.num_chunks as nat,
            |i: int| blob_range(size, plan.effective_chunk, i),
        ),
        r matches Err(e) ==> e@ == misaligned_blob_text(
            (plan.num_chunks - 1) as nat,
            blob_range(size, plan.effective_chunk, plan.num_chunks - 1).len as nat,
        ),
{
    let chunk: u64 = plan.effective_chunk;
    let n: usize = plan.num_chunks;
    let mut ranges: Vec<BlobRange> = Vec::new();
    let mut i: usize = 0;
    proof {
        crate::num::law_groups_cover_items(size as int, chunk as int);
        assert(0 * chunk == 0);
    }
    while i < n
        invariant
            chunk > 0,
            chunk % 256 == 0,
            chunk == plan.effective_chunk,
            n == plan.num_chunks,
            n == ceil_div(size as int, chunk as int),
            i <= n,
            ranges@ == Seq::new(i as nat, |k: int| blob_range(size, chunk, k)),
            i > 0 && i == n ==> size % 4 == 0,
            n == 0 ==> size == 0,
        decreases n - i,
    {
        proof {
            crate::num::law_groups_cover_items(size as int, chunk as int);
            assert(i * chunk <= (n - 1) * chunk) by (nonlinear_arith)
                requires
                    i <= n - 1,
            ;
            assert(i * chunk >= 0) by (nonlinear_arith);
        }
        let offset: u64 = (i as u64) * chunk;
        let left: u64 = size - offset;
        let len: u64 = if left <= chunk {
            left
        } else {
            chunk
        };
        proof {
            crate::num::lemma_multiple(i as int, chunk as int, 4);
            if i + 1 < n {
                assert((i + 1) * chunk <= (n - 1) * chunk) by (nonlinear_arith)
                    requires
                        i + 1 <= n - 1,
                ;
                assert((i + 1) * chunk == i * chunk + chunk) by (nonlinear_arith);
            } else {
                assert(n * chunk == i * chunk + chunk) by (nonlinear_arith)
                    requires
                        n == i + 1,
                ;
            }
        }
        if len % 4 != 0 {
            let mut e = "blob buffer ".to_string();
            push_decimal(&mut e, i as u64);
            e.append(" size ");
            push_decimal(&mut e, len);
            e.append(" must be 4-byte aligned for wgpu");
            return Err(e);
        }
        ranges.push(BlobRange { offset, len });
        i += 1;
        assert(ranges@ =~= Seq::new(i as nat, |k: int| blob_range(size, chunk, k)));
    }
    Ok(ranges)
}

/// Every resident chunk is aligned, within the binding limit and within the
/// ceiling, and the plan has just as many chunks as the file needs.
pub proof fn law_plan_covers_file(plan: ChunkPlan, file_size: u64, adapter_limit: u64)
    requires
        adapter_limit >= REQUIRED_ALIGNMENT,
        plan.plans(file_size, adapter_limit),
    ensures
        0 < plan.effective_chunk <= BLOB_CHUNK_BYTES,
        plan.effective_chunk <= adapter_limit,
        plan.effective_chunk % REQUIRED_ALIGNMENT == 0,
        plan.effective_chunk * plan.num_chunks >= file_size,
        file_size > 0 ==> plan.effective_chunk * (plan.num_chunks - 1) < file_size,
        file_size == 0 ==> plan.num_chunks == 0,
        words_of_chunk(plan.effective_chunk) * 4 == plan.effective_chunk,
{
    crate::num::law_groups_cover_items(file_size as int, plan.effective_chunk as int);
    let c = plan.effective_chunk as int;
    let n = plan.num_chunks as int;
    assert(n * c == c * n) by (nonlinear_arith);
    assert((n - 1) * c == c * (n - 1)) by (nonlinear_arith);
}

/// The blob ranges tile the file: they start at byte 0, each begins where the
/// one before ends, and the last one ends with the file.
pub proof fn law_blob_ranges_tile_file(plan: ChunkPlan, size: u64, i: int)
    requires
        plan.effective_chunk > 0,
        plan.num_chunks == ceil_div(size as int, plan.effective_chunk as int),
        0 <= i < plan.num_chunks,
    ensures
        blob_range(size, plan.effective_chunk, 0).offset == 0,
        blob_range(size, plan.effective_chunk, i).len > 0,
        i + 1 < plan.num_chunks ==> blob_range(size, plan.effective_chunk, i).offset + blob_range(
            size,
            plan.effective_chunk,
            i,
        ).len == blob_range(size, plan.effective_chunk, i + 1).offset,
        i + 1 == plan.num_chunks ==> blob_range(size, plan.effective_chunk, i).offset + blob_range(
            size,
            plan.effective_chunk,
            i,
        ).len == size,
{
    let c = plan.effective_chunk as int;
    let n = plan.num_chunks as int;
    crate::num::law_groups_cover_items(size as int, c);
    assert(0 * c == 0);
    assert((i + 1) * c == i * c + c) by (nonlinear_arith);
    assert(0 <= i * c <= (n - 1) * c) by (nonlinear_arith)
        requires
            0 <= i <= n - 1,
            c > 0,
    ;
    if i + 1 < n {
        assert((i + 1) * c <= (n - 1) * c) by (nonlinear_arith)
            requires
                i + 1 <= n - 1,
                c > 0,
        ;
    }
}

/// The chunk is the largest that is allowed: another aligned block would exceed the
/// binding limit or the ceiling of 2000000000 bytes. All chunks but the last are full.
pub proof fn law_chunks_are_as_large_as_allowed(
    plan: ChunkPlan,
    size: u64,
    adapter_limit: u64,
    i: int,
)
    requires
        adapter_limit >= REQUIRED_ALIGNMENT,
        plan.plans(size, adapter_limit),
        0 <= i < plan.num_chunks,
    ensures
        plan.effective_chunk + 256 > adapter_limit || plan.effective_chunk + 256 > 2_000_000_000,
        plan.effective_chunk <= 2_000_000_000,
        blob_range(size, plan.effective_chunk, i).len <= plan.effective_chunk,
        i + 1 < plan.num_chunks ==> blob_range(size, plan.effective_chunk, i).len
            == plan.effective_chunk,
{
    law_plan_covers_file(plan, size, adapter_limit);
    law_blob_ranges_tile_file(plan, size, i);
    let c = plan.effective_chunk as int;
    let n = plan.num_chunks as int;
    assert(i * c <= (n - 1) * c && (i + 1 < n ==> (i + 1) * c <= (n - 1) * c)) by (nonlinear_arith)
        requires
            0 <= i <= n - 1,
            c > 0,
    ;
    assert((i + 1) * c == i * c + c) by (nonlinear_arith);
    assert((n - 1) * c == c * (n - 1)) by (nonlinear_arith);
    assert(0 <= i * c) by (nonlinear_arith)
        requires
            i >= 0,
            c > 0,
    ;
}

/// A word lies in the chunk that holds it: the byte of the word is that chunk's first
/// byte and the distance within.
pub proof fn law_word_lies_in_its_chunk(plan: ChunkPlan, size: u64, adapter_limit: u64, word: u32)
    requires
        adapter_limit >= REQUIRED_ALIGNMENT,
        plan.plans(size, adapter_limit),
        word * 4 < size,
    ensures
        ({
            let w = words_of_chunk(plan.effective_chunk);
            let chunk = word as int / w;
            let r = blob_range(size, plan.effective_chunk, chunk);
            &&& 0 <= chunk < plan.num_chunks
            &&& r.offset + 4 * (word as int % w) == 4 * word
            &&& 4 * (word as int % w) < r.len
        }),
{
    law_plan_covers_file(plan, size, adapter_limit);
    let c = plan.effective_chunk as int;
    let w = words_of_chunk(plan.effective_chunk);
    let n = plan.num_chunks as int;
    let x = word as int;
    let k = x / w;
    vstd::arithmetic::div_mod::lemma_fundamental_div_mod(x, w);
    assert(0 <= k && k * w + x % w == x && 0 <= x % w < w) by (nonlinear_arith)
        requires
            x == w * (x / w) + x % w,
            0 <= x % w < w,
            k == x / w,
            x >= 0,
            w > 0,
    ;
    assert(k * c == 4 * (k * w)) by (nonlinear_arith)
        requires
            c == 4 * w,
    ;
    assert(k < n) by (nonlinear_arith)
        requires
            k * c <= 4 * x,
            4 * x < size,
            c * n >= size,
            c > 0,
    ;
}

} // verus!
