//! Layout and position bookkeeping of the key/value cache.

use crate::text::{decimal, push_decimal};
use vstd::prelude::*;

verus! {

/// What a cache buffer holds.
#[derive(Debug, Clone, Copy, PartialEq, Eq, Structural)]
pub enum CacheKind {
    /// Keys, `[max_seq, n_head_kv, head_dim]` in F32.
    K,
    /// Values, laid out as the keys.
    V,
    /// INT4 keys, `[max_seq, n_head_kv, head_dim / 8]` in U32, 8 nibbles each.
    KPacked,
    /// INT4 values, laid out as the packed keys.
    VPacked,
    /// Scales of the packed keys, `[max_seq, n_head_kv]` in F32.
    KScale,
    /// Scales of the packed values, laid out as those of the keys.
    VScale,
}

/// One buffer of the cache.
#[derive(Debug, Clone, Copy, PartialEq, Eq, Structural)]
pub struct CacheBuffer {
    pub kind: CacheKind,
    pub layer: usize,
    /// Size in bytes.
    pub size: u64,
}

/// The state of a cache.
pub struct CacheState {
    /// Number of tokens cached.
    pub seq_len: u32,
    /// Logical base position of the compacted sliding window.
    pub window_base: u32,
    /// Context window size.
    pub max_seq_len: u32,
    pub n_layers: nat,
    pub n_head_kv: u32,
    pub head_dim: u32,
    /// Whether the cache has INT4 buffers beside the F32 ones.
    pub int4: bool,
}

impl CacheState {
    /// Bytes of a layer's buffer of some kind.
    pub open spec fn size(self, kind: CacheKind) -> int {
        let vectors = self.max_seq_len * self.n_head_kv;
        match kind {
            CacheKind::K | CacheKind::V => vectors * self.head_dim * 4,
            CacheKind::KPacked | CacheKind::VPacked => vectors * (self.head_dim as int / 8) * 4,
            CacheKind::KScale | CacheKind::VScale => vectors * 4,
        }
    }

    /// The buffers of some kind, one per layer.
    pub open spec fn buffers(self, kind: CacheKind) -> Seq<CacheBuffer> {
        Seq::new(
            self.n_layers,
            |i: int| CacheBuffer { kind, layer: i as usize, size: self.size(kind) as u64 },
        )
    }

    /// Byte offset of an element of a key or value buffer.
    pub open spec fn offset(self, pos: int, head: int, dim: int) -> int {
        (pos * self.n_head_kv * self.head_dim + head * self.head_dim + dim) * 4
    }

    /// A cache without tokens.
    pub open spec fn empty(
        n_layers: nat,
        n_head_kv: u32,
        head_dim: u32,
        max_seq_len: u32,
        int4: bool,
    ) -> CacheState {
        CacheState {
            seq_len: 0,
            window_base: 0,
            max_seq_len,
            n_layers,
            n_head_kv,
            head_dim,
            int4,
        }
    }

    /// The cache once it has forgotten its tokens.
    pub open spec fn emptied(self) -> CacheState {
        CacheState { seq_len: 0, window_base: 0, ..self }
    }

    /// The cache once it holds `len` tokens.
    pub open spec fn cut_to(self, len: u32) -> CacheState {
        CacheState { seq_len: len, ..self }
    }

    /// The cache once one more token is appended.
    pub open spec fn grown(self) -> CacheState {
        CacheState { seq_len: (self.seq_len + 1) as u32, ..self }
    }

    /// The cache once its window has moved on by `shift_amt` tokens.
    pub open spec fn advanced(self, shift_amt: u32) -> CacheState {
        CacheState {
            window_base: if self.window_base + shift_amt <= u32::MAX {
                (self.window_base + shift_amt) as u32
            } else {
                u32::MAX
            },
            ..self
        }
    }

    /// Whether the buffer sizes can be counted: in 32 bits per layer, in 64 bits
    /// over all layers.
    pub open spec fn sizes_fit(self) -> bool {
        &&& self.max_seq_len * self.n_head_kv <= u32::MAX
        &&& self.size(CacheKind::K) <= u32::MAX
        &&& self.size(CacheKind::K) * self.n_layers * 2 <= u64::MAX
        &&& self.int4 ==> self.head_dim % 8 == 0 && self.size(CacheKind::KScale) <= u32::MAX
    }
}

/// Key/value cache for multi-token transformer inference.
///
/// Stores where key and value tensors lie for all layers, and how far the
/// cache is filled.
#[derive(Debug)]
pub struct KVCache {
    k_buffers: Vec<CacheBuffer>,
    v_buffers: Vec<CacheBuffer>,
    k_packed_buffers: Option<Vec<CacheBuffer>>,
    v_packed_buffers: Option<Vec<CacheBuffer>>,
    k_scale_buffers: Option<Vec<CacheBuffer>>,
    v_scale_buffers: Option<Vec<CacheBuffer>>,
    seq_len: u32,
    window_base: u32,
    max_seq_len: u32,
    n_layers: usize,
    n_head_kv: u32,
    head_dim: u32,
}

impl View for KVCache {
    type V = CacheState;

    closed spec fn view(&self) -> CacheState {
        CacheState {
            seq_len: self.seq_len,
            window_base: self.window_base,
            max_seq_len: self.max_seq_len,
            n_layers: self.n_layers as nat,
            n_head_kv: self.n_head_kv,
            head_dim: self.head_dim,
            int4: self.k_packed_buffers is Some,
        }
    }
}

/// Whether an optional set of buffers is there just when the cache is INT4.
spec fn optional_buffers(
    state: CacheState,
    buffers: Option<Vec<CacheBuffer>>,
    kind: CacheKind,
) -> bool {
    match buffers {
        Some(v) => state.int4 && v@ == state.buffers(kind),
        None => !state.int4,
    }
}

fn layer_buffers(n_layers: usize, kind: CacheKind, size: u64) -> (v: Vec<CacheBuffer>)
    ensures
        v@ == Seq::new(n_layers as nat, |i: int| CacheBuffer { kind, layer: i as usize, size }),
{
    let mut v: Vec<CacheBuffer> = Vec::new();
    let mut i: usize = 0;
    while i < n_layers
        invariant
            i <= n_layers,
            v@ == Seq::new(i as nat, |k: int| CacheBuffer { kind, layer: k as usize, size }),
        decreases n_layers - i,
    {
        v.push(CacheBuffer { kind, layer: i, size });
        i += 1;
        assert(v@ =~= Seq::new(i as nat, |k: int| CacheBuffer { kind, layer: k as usize, size }));
    }
    v
}

impl KVCache {
    #[verifier::type_invariant]
    spec fn consistent(self) -> bool {
        &&& self.k_buffers@ == self@.buffers(CacheKind::K)
        &&& self.v_buffers@ == self@.buffers(CacheKind::V)
        &&& optional_buffers(self@, self.k_packed_buffers, CacheKind::KPacked)
        &&& optional_buffers(self@, self.v_packed_buffers, CacheKind::VPacked)
        &&& optional_buffers(self@, self.k_scale_buffers, CacheKind::KScale)
        &&& optional_buffers(self@, self.v_scale_buffers, CacheKind::VScale)
    }

    /// Lays out a new KV cache with F32 buffers.
    pub fn new(n_layers: usize, n_head_kv: u32, head_dim: u32, max_seq_len: u32) -> (c: Self)
        requires
            CacheState::empty(
                n_layers as nat,
                n_head_kv,
                head_dim,
                max_seq_len,
                false,
            ).sizes_fit(),
        ensures
            c@ == CacheState::empty(n_layers as nat, n_head_kv, head_dim, max_seq_len, false),
    {
        Self::new_inner(n_layers, n_head_kv, head_dim, max_seq_len, false)
    }

    /// Lays out a KV cache with INT4 packed+scale buffers beside the F32 ones.
    pub fn new_int4(n_layers: usize, n_head_kv: u32, head_dim: u32, max_seq_len: u32) -> (c: Self)
        requires
            CacheState::empty(
                n_layers as nat,
                n_head_kv,
                head_dim,
                max_seq_len,
                true,
            ).sizes_fit(),
        ensures
            c@ == CacheState::empty(n_layers as nat, n_head_kv, head_dim, max_seq_len, true),
    {
        Self::new_inner(n_layers, n_head_kv, head_dim, max_seq_len, true)
    }

    fn new_inner(
        n_layers: usize,
        n_head_kv: u32,
        head_dim: u32,
        max_seq_len: u32,
        enable_int4: bool,
    ) -> (c: Self)
        requires
            CacheState::empty(
                n_layers as nat,
                n_head_kv,
                head_dim,
                max_seq_len,
                enable_int4,
            ).sizes_fit(),
        ensures
            c@ == CacheState::empty(
                n_layers as nat,
                n_head_kv,
                head_dim,
                max_seq_len,
                enable_int4,
            ),
    {
        let ghost state = CacheState::empty(
            n_layers as nat,
            n_head_kv,
            head_dim,
            max_seq_len,
            enable_int4,
        );
        let ghost whole = max_seq_len * n_head_kv;
        proof {
            assert(0 <= whole) by (nonlinear_arith)
                requires
                    whole == max_seq_len * n_head_kv,
            ;
            assert(0 <= whole * head_dim) by (nonlinear_arith)
                requires
                    0 <= whole,
            ;
        }
        let vectors: u32 = max_seq_len * n_head_kv;
        let buffer_size: u64 = (vectors * head_dim * 4) as u64;
        let k_buffers = layer_buffers(n_layers, CacheKind::K, buffer_size);
        let v_buffers = layer_buffers(n_layers, CacheKind::V, buffer_size);
        let c = if enable_int4 {
            assert(0 <= whole * (head_dim as int / 8) <= whole * head_dim) by (nonlinear_arith)
                requires
                    0 <= whole,
                    0 <= head_dim,
            ;
            let packed_size: u64 = (vectors * (head_dim / 8) * 4) as u64;
            let scale_size: u64 = (vectors * 4) as u64;
            KVCache {
                k_buffers,
                v_buffers,
                k_packed_buffers: Some(layer_buffers(n_layers, CacheKind::KPacked, packed_size)),
                v_packed_buffers: Some(layer_buffers(n_layers, CacheKind::VPacked, packed_size)),
                k_scale_buffers: Some(layer_buffers(n_layers, CacheKind::KScale, scale_size)),
                v_scale_buffers: Some(layer_buffers(n_layers, CacheKind::VScale, scale_size)),
                seq_len: 0,
                window_base: 0,
                max_seq_len,
                n_layers,
                n_head_kv,
                head_dim,
            }
        } else {
            KVCache {
                k_buffers,
                v_buffers,
                k_packed_buffers: None,
                v_packed_buffers: None,
                k_scale_buffers: None,
                v_scale_buffers: None,
                seq_len: 0,
                window_base: 0,
                max_seq_len,
                n_layers,
                n_head_kv,
                head_dim,
            }
        };
        c
    }

    /// Get current sequence length (number of cached positions)
    pub fn get_seq_len(&self) -> (r: u32)
        ensures
            r == self@.seq_len,
    {
        self.seq_len
    }

    /// Get the logical base position for the shifted sliding window.
    pub fn get_window_base(&self) -> (r: u32)
        ensures
            r == self@.window_base,
    {
        self.window_base
    }

    /// All K buffers.
    pub fn get_k_buffers(&self) -> (r: &[CacheBuffer])
        ensures
            r@ == self@.buffers(CacheKind::K),
    {
        proof {
            use_type_invariant(self);
        }
        self.k_buffers.as_slice()
    }

    /// All V buffers.
    pub fn get_v_buffers(&self) -> (r: &[CacheBuffer])
        ensures
            r@ == self@.buffers(CacheKind::V),
    {
        proof {
            use_type_invariant(self);
        }
        self.v_buffers.as_slice()
    }

    /// Reset cache to empty state (for new conversation/prompt). Buffers remain
    /// allocated, only the position counters are reset.
    pub fn reset(&mut self)
        ensures
            final(self)@ == (CacheState { seq_len: 0, window_base: 0, ..old(self)@ }),
            final(self)@ == old(self)@.emptied(),
    {
        proof {
            use_type_invariant(&*self);
        }
        self.seq_len = 0;
        self.window_base = 0;
    }

    /// Explicitly override sequence length (used during helical cache compaction)
    pub fn set_seq_len(&mut self, new_len: u32)
        requires
            new_len <= old(self)@.max_seq_len,
        ensures
            final(self)@ == (CacheState { seq_len: new_len, ..old(self)@ }),
            final(self)@ == old(self)@.cut_to(new_len),
    {
        proof {
            use_type_invariant(&*self);
        }
        self.seq_len = new_len;
    }

    /// Advance the logical base after helical compaction.
    pub fn advance_window_base(&mut self, shift_amt: u32)
        ensures
            final(self)@ == (CacheState {
                window_base: if old(self)@.window_base + shift_amt <= u32::MAX {
                    (old(self)@.window_base + shift_amt) as u32
                } else {
                    u32::MAX
                },
                ..old(self)@
            }),
            final(self)@ == old(self)@.advanced(shift_amt),
    {
        proof {
            use_type_invariant(&*self);
        }
        self.window_base = self.window_base.saturating_add(shift_amt);
    }

    /// Increment sequence length after appending new K/V pair
    ///
    /// Returns `Err` if the sequence exceeds max_seq_len (context overflow); the
    /// length has then grown all the same.
    pub fn increment(&mut self) -> (r: Result<(), String>)
        requires
            old(self)@.seq_len < u32::MAX,
        ensures
            final(self)@ == (CacheState {
                seq_len: (old(self)@.seq_len + 1) as u32,
                ..old(self)@
            }),
            final(self)@ == old(self)@.grown(),
            r is Err <==> old(self)@.seq_len + 1 > old(self)@.max_seq_len,
            r matches Err(e) ==> e@ == "KV cache overflow: "@ + decimal(
                (old(self)@.seq_len + 1) as nat,
            ) + " > "@ + decimal(old(self)@.max_seq_len as nat) + " (context window exceeded)"@,
    {
        proof {
            use_type_invariant(&*self);
        }
        self.seq_len = self.seq_len + 1;
        if self.seq_len > self.max_seq_len {
            let mut e = "KV cache overflow: ".to_string();
            push_decimal(&mut e, self.seq_len as u64);
            e.append(" > ");
            push_decimal(&mut e, self.max_seq_len as u64);
            e.append(" (context window exceeded)");
            return Err(e);
        }
        Ok(())
    }

    /// Get K buffer for a specific layer
    pub fn get_k_buffer(&self, layer: usize) -> (r: &CacheBuffer)
        requires
            layer < self@.n_layers,
        ensures
            *r == self@.buffers(CacheKind::K)[layer as int],
            r.kind == CacheKind::K && r.layer == layer,
    {
        proof {
            use_type_invariant(self);
        }
        &self.k_buffers[layer]
    }

    /// Get V buffer for a specific layer
    pub fn get_v_buffer(&self, layer: usize) -> (r: &CacheBuffer)
        requires
            layer < self@.n_layers,
        ensures
            *r == self@.buffers(CacheKind::V)[layer as int],
            r.kind == CacheKind::V && r.layer == layer,
    {
        proof {
            use_type_invariant(self);
        }
        &self.v_buffers[layer]
    }

    /// Get INT4 packed K buffer for a specific layer.
    pub fn get_k_packed_buffer(&self, layer: usize) -> (r: &CacheBuffer)
        requires
            self@.int4,
            layer < self@.n_layers,
        ensures
            *r == self@.buffers(CacheKind::KPacked)[layer as int],
            r.kind == CacheKind::KPacked && r.layer == layer,
    {
        proof {
            use_type_invariant(self);
        }
        &self.k_packed_buffers.as_ref().unwrap()[layer]
    }

    /// Get INT4 packed V buffer for a specific layer.
    pub fn get_v_packed_buffer(&self, layer: usize) -> (r: &CacheBuffer)
        requires
            self@.int4,
            layer < self@.n_layers,
        ensures
            *r == self@.buffers(CacheKind::VPacked)[layer as int],
            r.kind == CacheKind::VPacked && r.layer == layer,
    {
        proof {
            use_type_invariant(self);
        }
        &self.v_packed_buffers.as_ref().unwrap()[layer]
    }

    /// Get K scale buffer for a specific layer.
    pub fn get_k_scale_buffer(&self, layer: usize) -> (r: &CacheBuffer)
        requires
            self@.int4,
            layer < self@.n_layers,
        ensures
            *r == self@.buffers(CacheKind::KScale)[layer as int],
            r.kind == CacheKind::KScale && r.layer == layer,
    {
        proof {
            use_type_invariant(self);
        }
        &self.k_scale_buffers.as_ref().unwrap()[layer]
    }

    /// Get V scale buffer for a specific layer.
    pub fn get_v_scale_buffer(&self, layer: usize) -> (r: &CacheBuffer)
        requires
            self@.int4,
            layer < self@.n_layers,
        ensures
            *r == self@.buffers(CacheKind::VScale)[layer as int],
            r.kind == CacheKind::VScale && r.layer == layer,
    {
        proof {
            use_type_invariant(self);
        }
        &self.v_scale_buffers.as_ref().unwrap()[layer]
    }

    /// Returns true if this cache was laid out with INT4 packed+scale buffers.
    pub fn is_int4(&self) -> (r: bool)
        ensures
            r == self@.int4,
    {
        self.k_packed_buffers.is_some()
    }

    /// Get maximum sequence length (context window size)
    pub fn max_len(&self) -> (r: u32)
        ensures
            r == self@.max_seq_len,
    {
        self.max_seq_len
    }

    /// Calculate byte offset for accessing cache at position/head/dimension
    pub fn calculate_offset(&self, pos: u32, head: u32, dim: u32) -> (r: usize)
        requires
            pos * self@.n_head_kv <= u32::MAX,
            self@.offset(pos as int, head as int, dim as int) <= u32::MAX,
        ensures
            r == self@.offset(pos as int, head as int, dim as int),
    {
        let ghost rows = pos * self.n_head_kv;
        proof {
            assert(0 <= rows) by (nonlinear_arith)
                requires
                    rows == pos * self.n_head_kv,
            ;
            assert(0 <= rows * self.head_dim) by (nonlinear_arith)
                requires
                    0 <= rows,
            ;
            assert(0 <= head * self.head_dim) by (nonlinear_arith);
        }
        let element_offset: u32 = pos * self.n_head_kv * self.head_dim + head * self.head_dim + dim;
        (element_offset * 4) as usize
    }
}

/// Every element of the cache lies within its buffer.
pub proof fn law_offsets_stay_in_buffer(state: CacheState, pos: int, head: int, dim: int)
    requires
        0 <= pos < state.max_seq_len,
        0 <= head < state.n_head_kv,
        0 <= dim < state.head_dim,
    ensures
        0 <= state.offset(pos, head, dim),
        state.offset(pos, head, dim) + 4 <= state.size(CacheKind::K),
{
    let h = state.n_head_kv as int;
    let d = state.head_dim as int;
    let m = state.max_seq_len as int;
    assert(0 <= pos * h * d && 0 <= head * d && head * d + d <= h * d && pos * h * d + h * d <= m * h
        * d) by (nonlinear_arith)
        requires
            0 <= pos < m,
            0 <= head < h,
            0 < d,
    ;
}

/// Different elements of the cache lie at different offsets.
pub proof fn law_offsets_are_distinct(
    state: CacheState,
    pos: int,
    head: int,
    dim: int,
    pos2: int,
    head2: int,
    dim2: int,
)
    requires
        0 <= pos,
        0 <= pos2,
        0 <= head < state.n_head_kv,
        0 <= head2 < state.n_head_kv,
        0 <= dim < state.head_dim,
        0 <= dim2 < state.head_dim,
        state.offset(pos, head, dim) == state.offset(pos2, head2, dim2),
    ensures
        pos == pos2 && head == head2 && dim == dim2,
{
    let h = state.n_head_kv as int;
    let d = state.head_dim as int;
    let row = pos * h + head;
    let row2 = pos2 * h + head2;
    assert(pos * h * d + head * d == row * d) by (nonlinear_arith)
        requires
            row == pos * h + head,
    ;
    assert(pos2 * h * d + head2 * d == row2 * d) by (nonlinear_arith)
        requires
            row2 == pos2 * h + head2,
    ;
    lemma_digits(row, dim, row2, dim2, d);
    lemma_digits(pos, head, pos2, head2, h);
}

proof fn lemma_digits(a: int, b: int, a2: int, b2: int, n: int)
    requires
        0 <= b < n,
        0 <= b2 < n,
        a * n + b == a2 * n + b2,
    ensures
        a == a2,
        b == b2,
{
    vstd::arithmetic::div_mod::lemma_fundamental_div_mod_converse(a * n + b, n, a, b);
    vstd::arithmetic::div_mod::lemma_fundamental_div_mod_converse(a2 * n + b2, n, a2, b2);
}

/// The elements of a cache buffer lie one behind the other, 4 bytes each: dimensions
/// within a head, heads within a position, positions from the first on; the last one
/// ends with the buffer.
pub proof fn law_elements_lie_one_behind_the_other(state: CacheState, pos: int, head: int, dim: int)
    ensures
        state.offset(0, 0, 0) == 0,
        state.offset(pos, head, dim + 1) == state.offset(pos, head, dim) + 4,
        state.offset(pos, head + 1, 0) == state.offset(pos, head, state.head_dim as int),
        state.offset(pos + 1, 0, 0) == state.offset(pos, state.n_head_kv as int, 0),
        state.offset(state.max_seq_len as int, 0, 0) == state.size(CacheKind::K),
{
    let h = state.n_head_kv as int;
    let d = state.head_dim as int;
    let m = state.max_seq_len as int;
    assert((head + 1) * d == head * d + d) by (nonlinear_arith);
    assert((pos + 1) * h * d == pos * h * d + h * d) by (nonlinear_arith);
    assert(0 * h * d == 0 && 0 * d == 0) by (nonlinear_arith);
}

/// Keys and values take the same room, and so do their packed forms and their scales.
/// Packed data takes an eighth of the room, and there is a scale for every vector.
pub proof fn law_cache_sizes_agree(state: CacheState)
    ensures
        state.size(CacheKind::V) == state.size(CacheKind::K),
        state.size(CacheKind::VPacked) == state.size(CacheKind::KPacked),
        state.size(CacheKind::VScale) == state.size(CacheKind::KScale),
        state.head_dim % 8 == 0 ==> 8 * state.size(CacheKind::KPacked) == state.size(CacheKind::K),
        state.head_dim * state.size(CacheKind::KScale) == state.size(CacheKind::K),
        state.size(CacheKind::KScale) == 4 * (state.max_seq_len * state.n_head_kv),
{
    let v = state.max_seq_len * state.n_head_kv;
    let d = state.head_dim as int;
    assert(d * (v * 4) == v * d * 4) by (nonlinear_arith);
    if state.head_dim % 8 == 0 {
        assert(8 * (v * (d / 8) * 4) == v * d * 4) by (nonlinear_arith)
            requires
                d == 8 * (d / 8),
        ;
    }
}

/// A cache has a buffer of each kind for every layer, under the layer's number and of
/// the kind's size. A new cache has the asked-for shape and holds no token.
pub proof fn law_cache_has_a_buffer_per_layer(
    n_layers: nat,
    n_head_kv: u32,
    head_dim: u32,
    max_seq_len: u32,
    int4: bool,
    kind: CacheKind,
    layer: usize,
)
    requires
        layer < n_layers,
        CacheState::empty(n_layers, n_head_kv, head_dim, max_seq_len, int4).size(kind) <= u64::MAX,
    ensures
        ({
            let state = CacheState::empty(n_layers, n_head_kv, head_dim, max_seq_len, int4);
            let b = state.buffers(kind)[layer as int];
            &&& state.buffers(kind).len() == n_layers
            &&& b.kind == kind && b.layer == layer && b.size == state.size(kind)
            &&& state.seq_len == 0 && state.window_base == 0
            &&& state.n_layers == n_layers && state.n_head_kv == n_head_kv
            &&& state.head_dim == head_dim && state.max_seq_len == max_seq_len
            &&& state.int4 == int4
        }),
{
    let state = CacheState::empty(n_layers, n_head_kv, head_dim, max_seq_len, int4);
    let v = max_seq_len * n_head_kv;
    let d = head_dim as int;
    assert(0 <= v) by (nonlinear_arith)
        requires
            v == max_seq_len * n_head_kv,
    ;
    assert(0 <= v * d && 0 <= v * (d / 8)) by (nonlinear_arith)
        requires
            v >= 0,
            d >= 0,
    ;
}

/// A cache that has forgotten its tokens is as good as new. Growing takes in one token
/// and nothing else; the window only moves forward, by what it is told, until it stands
/// at the last position; and no operation changes the shape of the cache, so that all
/// of its buffers stay as they are.
pub proof fn law_cache_operations(state: CacheState, len: u32, shift_amt: u32, kind: CacheKind)
    requires
        state.seq_len < u32::MAX,
    ensures
        state.emptied() == CacheState::empty(
            state.n_layers,
            state.n_head_kv,
            state.head_dim,
            state.max_seq_len,
            state.int4,
        ),
        state.emptied().grown().seq_len == 1,
        state.grown().seq_len == state.seq_len + 1,
        state.grown().window_base == state.window_base,
        state.cut_to(len).seq_len == len,
        state.cut_to(len).window_base == state.window_base,
        state.grown().cut_to(state.seq_len) == state,
        state.advanced(shift_amt).seq_len == state.seq_len,
        state.advanced(shift_amt).window_base >= state.window_base,
        state.window_base + shift_amt <= u32::MAX ==> state.advanced(shift_amt).window_base
            == state.window_base + shift_amt,
        state.window_base + shift_amt > u32::MAX ==> state.advanced(shift_amt).window_base
            == u32::MAX,
        state.advanced(0) == state,
        state.emptied().buffers(kind) == state.buffers(kind),
        state.grown().buffers(kind) == state.buffers(kind),
        state.cut_to(len).buffers(kind) == state.buffers(kind),
        state.advanced(shift_amt).buffers(kind) == state.buffers(kind),
{
    assert(state.emptied().buffers(kind) =~= state.buffers(kind));
    assert(state.grown().buffers(kind) =~= state.buffers(kind));
    assert(state.cut_to(len).buffers(kind) =~= state.buffers(kind));
    assert(state.advanced(shift_amt).buffers(kind) =~= state.buffers(kind));
}

} // verus!
