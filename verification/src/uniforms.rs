//! What the uniforms of plans tell the kernels.
//!
//! The laws here speak of the words that a plan writes, by their position, and of
//! the model, the cache and the request that the plan was made for.

use crate::dispatch::{Buf, PlanModel};
use crate::full_model::{
    batch_size, can_run, final_norm_params, forward_cache_params, forward_model, head_words,
    layer_blocks, layer_params, low, model_head, model_shape, ForwardOptions,
};
use crate::head::{tile_count, tiled_head, whole_head, Head};
use crate::kv_cache::CacheState;
use crate::layer_plan::{
    append_params, cached_layer_model, debug_layer_model, int4_layer_model, qkv_only_model,
    requantize_model, shape_of, stepwise_model,
};
use crate::metadata::BindlessMetadata;
use crate::offsets::{CompiledLayerEntry, LayerOffsets};
use crate::params::{CompactionParams, LayerParams};
use crate::quant::formula_slot;
use crate::shift::{shift_int4_model, shift_model};
use crate::spec::{ModelArch, ModelSpec};
use crate::window::BlobBinding;
use vstd::prelude::*;

verus! {

/// Whether the words of `buf` that a plan writes are `words`: one block of the plan
/// is for `buf`, and it holds them.
pub open spec fn writes(plan: PlanModel, buf: Buf, words: Seq<u32>) -> bool {
    &&& exists|i: int|
        0 <= i < plan.uniforms.len() && #[trigger] plan.uniforms[i].buf == buf
            && plan.uniforms[i].words == words
    &&& forall|i: int|
        0 <= i < plan.uniforms.len() && #[trigger] plan.uniforms[i].buf == buf
            ==> plan.uniforms[i].words == words
}

/// The uniforms of a layer hold the shape of the model: width, heads, heads of keys
/// and values, elements per head, and feed-forward width, each in its own word. The
/// dispatch sizes of the model's layers are computed from the same lengths.
pub proof fn law_layer_uniforms_hold_the_shape(
    spec: ModelSpec,
    options: ForwardOptions,
    entry: CompiledLayerEntry,
    batch: u32,
    chunk_words: u32,
)
    ensures
        ({
            let w = layer_params(spec, options, entry, batch, chunk_words).block();
            &&& w[0] == spec.n_embd as int % 0x1_0000_0000
            &&& w[1] == spec.n_head as int % 0x1_0000_0000
            &&& w[2] == spec.n_head_kv as int % 0x1_0000_0000
            &&& w[3] == spec.head_dim as int % 0x1_0000_0000
            &&& w[6] == spec.ff_dim as int % 0x1_0000_0000
        }),
        shape_of(layer_params(spec, options, entry, batch, chunk_words)) == model_shape(spec),
        model_shape(spec).dim == spec.n_embd as int % 0x1_0000_0000,
        model_shape(spec).head_count == spec.n_head as int % 0x1_0000_0000,
        model_shape(spec).head_count_kv == spec.n_head_kv as int % 0x1_0000_0000,
        model_shape(spec).head_dim == spec.head_dim as int % 0x1_0000_0000,
        model_shape(spec).ffn_dim == spec.ff_dim as int % 0x1_0000_0000,
{
}

/// The uniforms of a layer hold what its table entry says of its tensors: the type
/// of each, behind it the formula slot of that very type, and the layer's base.
pub proof fn law_layer_uniforms_hold_the_types(
    spec: ModelSpec,
    options: ForwardOptions,
    entry: CompiledLayerEntry,
    batch: u32,
    chunk_words: u32,
)
    ensures
        ({
            let w = layer_params(spec, options, entry, batch, chunk_words).block();
            &&& w[8] == entry.quant_qk
            &&& w[9] == entry.quant_v
            &&& w[10] == entry.quant_attn_out
            &&& w[11] == entry.quant_ffn_down
            &&& w[12] == entry.quant_ffn_gate
            &&& w[13] == entry.quant_ffn_up
            &&& forall|i: int| 8 <= i < 14 ==> #[trigger] w[i + 16] == formula_slot(w[i])
            &&& w[30] == entry.blob_base_words
            &&& w[31] == chunk_words
        }),
{
    let w = layer_params(spec, options, entry, batch, chunk_words).block();
    assert forall|i: int| 8 <= i < 14 implies #[trigger] w[i + 16] == formula_slot(w[i]) by {
        assert(w[24] == formula_slot(w[8]));
        assert(w[25] == formula_slot(w[9]));
        assert(w[26] == formula_slot(w[10]));
        assert(w[27] == formula_slot(w[11]));
        assert(w[28] == formula_slot(w[12]));
        assert(w[29] == formula_slot(w[13]));
        assert(i == 8 || i == 9 || i == 10 || i == 11 || i == 12 || i == 13);
    }
}

/// The uniforms of a layer hold the model's other parameters and the caller's
/// choices. Post norms run for Gemma-2 alone; Qwen3 alone stores query and key
/// weights at another width, which is twice that of the model; the whole batch is
/// one chunk; and what no model of these architectures has is switched off.
pub proof fn law_layer_uniforms_hold_the_choices(
    spec: ModelSpec,
    options: ForwardOptions,
    entry: CompiledLayerEntry,
    batch: u32,
    chunk_words: u32,
)
    requires
        spec.arch == ModelArch::Qwen3 ==> 2 * low(spec.n_embd) <= u32::MAX,
    ensures
        ({
            let w = layer_params(spec, options, entry, batch, chunk_words).block();
            &&& w.len() == 37
            &&& w[4] == spec.rope_dim as int % 0x1_0000_0000
            &&& w[5] == spec.rms_eps
            &&& w[7] == spec.temp_buffer_size as int % 0x1_0000_0000
            &&& w[14] == spec.attn_logit_softcap
            &&& w[15] <= 1 && w[16] <= 1 && w[17] <= 1
            &&& w[15] == 1 <==> spec.arch == ModelArch::Gemma2
            &&& w[16] == 1 <==> spec.has_qk_norm
            &&& w[17] == 1 <==> spec.uses_layer_norm
            &&& w[18] == options.ffn_kind_policy
            &&& w[19] == options.qkv_layout_policy
            &&& w[20] == 0
            &&& w[21] == batch
            &&& w[22] == w[23]
            &&& w[22] == if spec.arch == ModelArch::Qwen3 {
                2 * w[0]
            } else {
                0
            }
            &&& forall|i: int| 32 <= i < 37 ==> #[trigger] w[i] == 0
        }),
{
}

/// A forward pass writes the uniforms of each layer, and for each layer the offsets
/// that the model's table has for it.
pub proof fn law_forward_pass_writes_every_layer(
    slots: Seq<BlobBinding>,
    chunk_words: u32,
    metadata: BindlessMetadata,
    spec: ModelSpec,
    options: ForwardOptions,
    input_len: usize,
    current_pos: u32,
    seq_len: u32,
    layer: usize,
)
    requires
        can_run(metadata, spec, input_len),
        layer < spec.n_layer,
    ensures
        ({
            let plan = forward_model(
                slots,
                chunk_words,
                metadata,
                spec,
                options,
                input_len,
                current_pos,
                seq_len,
            );
            let entry = metadata.compiled_layers@[layer as int];
            &&& writes(
                plan,
                Buf::Params(layer),
                layer_params(
                    spec,
                    options,
                    entry,
                    batch_size(spec, input_len),
                    chunk_words,
                ).block(),
            )
            &&& writes(plan, Buf::Offsets(layer), entry.offsets.block())
        }),
{
    let plan = forward_model(
        slots,
        chunk_words,
        metadata,
        spec,
        options,
        input_len,
        current_pos,
        seq_len,
    );
    let batch = batch_size(spec, input_len);
    let blocks = layer_blocks(
        spec,
        options,
        metadata.compiled_layers@,
        spec.n_layer as nat,
        batch,
        chunk_words,
    );
    let l = layer as int;
    assert(plan.uniforms[3 + 2 * l] == blocks[2 * l]);
    assert(plan.uniforms[4 + 2 * l] == blocks[2 * l + 1]);
    assert forall|i: int| 0 <= i < plan.uniforms.len() implies {
        &&& #[trigger] plan.uniforms[i].buf == Buf::Params(layer) ==> i == 3 + 2 * l
        &&& plan.uniforms[i].buf == Buf::Offsets(layer) ==> i == 4 + 2 * l
    } by {
        if i >= 3 {
            assert(plan.uniforms[i] == blocks[i - 3]);
        }
    }
}

/// A forward pass over a batch writes how many tokens it runs on: as many as the
/// input has room for; they take the positions from `current_pos` on in a context of
/// the model's size.
pub proof fn law_forward_pass_writes_positions(
    slots: Seq<BlobBinding>,
    chunk_words: u32,
    metadata: BindlessMetadata,
    spec: ModelSpec,
    options: ForwardOptions,
    input_len: usize,
    current_pos: u32,
    seq_len: u32,
)
    requires
        can_run(metadata, spec, input_len),
        spec.n_embd <= u32::MAX,
        input_len <= u32::MAX,
    ensures
        ({
            let plan = forward_model(
                slots,
                chunk_words,
                metadata,
                spec,
                options,
                input_len,
                current_pos,
                seq_len,
            );
            let w = forward_cache_params(
                spec,
                current_pos,
                seq_len,
                batch_size(spec, input_len),
            ).block();
            &&& writes(plan, Buf::CacheParams, w)
            &&& w.len() == 8
            &&& w[0] == current_pos
            &&& w[1] == seq_len
            &&& w[2] == spec.n_ctx as int % 0x1_0000_0000
            &&& w[3] * spec.n_embd <= input_len < (w[3] + 1) * spec.n_embd
            &&& w[4] == 0
            &&& w[5] == 0
            &&& w[6] == 0
            &&& w[7] == 0
        }),
{
    let plan = forward_model(
        slots,
        chunk_words,
        metadata,
        spec,
        options,
        input_len,
        current_pos,
        seq_len,
    );
    let batch = batch_size(spec, input_len);
    lemma_first_blocks(
        slots,
        chunk_words,
        metadata,
        spec,
        options,
        input_len,
        current_pos,
        seq_len,
    );
    let d = spec.n_embd as int;
    let x = input_len as int;
    assert(batch == x / d);
    vstd::arithmetic::div_mod::lemma_fundamental_div_mod(x, d);
    assert(batch * d <= x < (batch + 1) * d) by (nonlinear_arith)
        requires
            x == d * (x / d) + x % d,
            0 <= x % d < d,
            batch == x / d,
    ;
}

proof fn lemma_first_blocks(
    slots: Seq<BlobBinding>,
    chunk_words: u32,
    metadata: BindlessMetadata,
    spec: ModelSpec,
    options: ForwardOptions,
    input_len: usize,
    current_pos: u32,
    seq_len: u32,
)
    ensures
        ({
            let plan = forward_model(
                slots,
                chunk_words,
                metadata,
                spec,
                options,
                input_len,
                current_pos,
                seq_len,
            );
            let batch = batch_size(spec, input_len);
            &&& writes(
                plan,
                Buf::CacheParams,
                forward_cache_params(spec, current_pos, seq_len, batch).block(),
            )
            &&& writes(
                plan,
                Buf::Uniforms(0),
                final_norm_params(metadata, spec, chunk_words).block(),
            )
            &&& writes(
                plan,
                Buf::Uniforms(1),
                head_words(model_head(metadata, spec, chunk_words), options.override_head),
            )
        }),
{
    let plan = forward_model(
        slots,
        chunk_words,
        metadata,
        spec,
        options,
        input_len,
        current_pos,
        seq_len,
    );
    let batch = batch_size(spec, input_len);
    let blocks = layer_blocks(
        spec,
        options,
        metadata.compiled_layers@,
        spec.n_layer as nat,
        batch,
        chunk_words,
    );
    assert(plan.uniforms[0].buf == Buf::CacheParams);
    assert(plan.uniforms[1].buf == Buf::Uniforms(0));
    assert(plan.uniforms[2].buf == Buf::Uniforms(1));
    assert forall|i: int| 3 <= i < plan.uniforms.len() implies {
        ||| #[trigger] plan.uniforms[i].buf is Params
        ||| plan.uniforms[i].buf is Offsets
    } by {
        assert(plan.uniforms[i] == blocks[i - 3]);
    }
}

/// The final norm of a forward pass is told to norm one token with the output
/// norm's weights, which start at the word of the file that it finds there, and with
/// its bias, where there is one. Phi models alone take a layer norm.
pub proof fn law_final_norm_reads_the_output_norm(
    slots: Seq<BlobBinding>,
    chunk_words: u32,
    metadata: BindlessMetadata,
    spec: ModelSpec,
    options: ForwardOptions,
    input_len: usize,
    current_pos: u32,
    seq_len: u32,
)
    requires
        can_run(metadata, spec, input_len),
    ensures
        ({
            let plan = forward_model(
                slots,
                chunk_words,
                metadata,
                spec,
                options,
                input_len,
                current_pos,
                seq_len,
            );
            let offsets = metadata.tensor_offsets@;
            let w = final_norm_params(metadata, spec, chunk_words).block();
            &&& writes(plan, Buf::Uniforms(0), w)
            &&& w.len() == 6
            &&& w[0] == spec.n_embd as int % 0x1_0000_0000
            &&& w[1] == offsets["output_norm.weight"@] as int / 4 % 0x1_0000_0000
            &&& w[2] == if offsets.contains_key("output_norm.bias"@) {
                offsets["output_norm.bias"@] as int / 4 % 0x1_0000_0000
            } else {
                0
            }
            &&& w[3] == spec.rms_eps
            &&& w[4] <= 1
            &&& w[4] == 1 <==> spec.arch == ModelArch::Phi
            &&& w[5] == chunk_words
        }),
{
    lemma_first_blocks(
        slots,
        chunk_words,
        metadata,
        spec,
        options,
        input_len,
        current_pos,
        seq_len,
    );
}

/// The head of a forward pass is told to compute all rows of the model's output
/// weights: of the tensor of that name, or of the token embedding where the header
/// gives no type for the former. The first words mean the same whether the weights
/// lie in the file or were dequantized by the caller.
pub proof fn law_head_reads_the_output_weights(
    slots: Seq<BlobBinding>,
    chunk_words: u32,
    metadata: BindlessMetadata,
    spec: ModelSpec,
    options: ForwardOptions,
    input_len: usize,
    current_pos: u32,
    seq_len: u32,
)
    requires
        can_run(metadata, spec, input_len),
    ensures
        ({
            let plan = forward_model(
                slots,
                chunk_words,
                metadata,
                spec,
                options,
                input_len,
                current_pos,
                seq_len,
            );
            let w = head_words(model_head(metadata, spec, chunk_words), options.override_head);
            let offsets = metadata.tensor_offsets@;
            let types = metadata.tensor_types@;
            let own = types.contains_key("output.weight"@);
            let name = if own {
                "output.weight"@
            } else {
                "token_embd.weight"@
            };
            &&& writes(plan, Buf::Uniforms(1), w)
            &&& w.len() == if options.override_head {
                4int
            } else {
                7int
            }
            &&& w[0] == spec.n_vocab as int % 0x1_0000_0000
            &&& w[1] == spec.n_embd as int % 0x1_0000_0000
            &&& offsets.contains_key(name) ==> w[2] == offsets[name] as int / 4 % 0x1_0000_0000
            &&& !offsets.contains_key(name) ==> w[2] == 0
            &&& options.override_head ==> w[3] == 0
            &&& !options.override_head ==> {
                &&& types.contains_key(name) ==> w[3] == formula_slot(types[name])
                &&& !types.contains_key(name) ==> w[3] == 2
                &&& w[4] == spec.final_logit_softcap
                &&& w[5] == 0
                &&& w[6] == chunk_words
            }
        }),
{
    lemma_first_blocks(
        slots,
        chunk_words,
        metadata,
        spec,
        options,
        input_len,
        current_pos,
        seq_len,
    );
}

/// Appending a token to a cache: the token takes the position behind those cached,
/// the cache is one token of a batch longer after the run than before, it may grow
/// to its own context size, and positions count from the base of its window.
pub proof fn law_appending_grows_the_cache_by_the_batch(cache: CacheState)
    requires
        cache.seq_len < u32::MAX,
    ensures
        ({
            let p = append_params(cache);
            &&& p.current_pos == cache.seq_len
            &&& p.batch_size == 1
            &&& p.seq_len == p.current_pos + p.batch_size
            &&& p.max_seq_len == cache.max_seq_len
            &&& p.logical_pos_base == cache.window_base
            &&& p.pad1 == 0 && p.pad2 == 0 && p.pad3 == 0
        }),
{
}

/// Whether the first words of cache uniforms append `batch` tokens to `before`
/// tokens.
pub open spec fn appends(w: Seq<u32>, before: int, batch: int) -> bool {
    &&& w.len() == 8
    &&& w[0] == before
    &&& w[1] == before + batch
    &&& w[3] == batch
}

/// The plans of one layer write the caller's uniforms and offsets for that layer,
/// and append one token to what is cached: to the cache, or, without one, to
/// nothing.
pub proof fn law_layer_runs_append_one_token(
    slots: Seq<BlobBinding>,
    cache: CacheState,
    layer: usize,
    input_len: usize,
    offsets: LayerOffsets,
    params: LayerParams,
    read_halfway: bool,
)
    requires
        cache.seq_len < u32::MAX,
    ensures
        ({
            let cached = cached_layer_model(slots, cache, layer, input_len, offsets, params);
            let int4 = int4_layer_model(slots, cache, layer, input_len, offsets, params);
            let debug = debug_layer_model(slots, cache, layer, input_len, offsets, params);
            let first = stepwise_model(slots, input_len, offsets, params, read_halfway);
            let w = append_params(cache).block();
            let f = first.uniforms[2].words;
            &&& writes(cached, Buf::CacheParams, w)
            &&& writes(int4, Buf::CacheParams, w)
            &&& writes(debug, Buf::CacheParams, w)
            &&& appends(w, cache.seq_len as int, 1)
            &&& w[2] == cache.max_seq_len
            &&& w[4] == cache.window_base
            &&& writes(first, Buf::CacheParams, f)
            &&& appends(f, 0, 1)
            &&& f[2] == 2048
            &&& f[4] == 0
        }),
        writes_layer(
            cached_layer_model(slots, cache, layer, input_len, offsets, params),
            layer,
            offsets,
            params,
        ),
        writes_layer(
            int4_layer_model(slots, cache, layer, input_len, offsets, params),
            layer,
            offsets,
            params,
        ),
        writes_layer(
            debug_layer_model(slots, cache, layer, input_len, offsets, params),
            layer,
            offsets,
            params,
        ),
        writes_layer(
            stepwise_model(slots, input_len, offsets, params, read_halfway),
            0,
            offsets,
            params,
        ),
        writes_layer(qkv_only_model(slots, input_len, offsets, params), 0, offsets, params),
{
    let cached = cached_layer_model(slots, cache, layer, input_len, offsets, params);
    let int4 = int4_layer_model(slots, cache, layer, input_len, offsets, params);
    let debug = debug_layer_model(slots, cache, layer, input_len, offsets, params);
    let first = stepwise_model(slots, input_len, offsets, params, read_halfway);
    let qkv = qkv_only_model(slots, input_len, offsets, params);
    assert(cached.uniforms[0].buf == Buf::Offsets(layer));
    assert(cached.uniforms[1].buf == Buf::Params(layer));
    assert(cached.uniforms[2].buf == Buf::CacheParams);
    assert(int4.uniforms[0].buf == Buf::Offsets(layer));
    assert(int4.uniforms[1].buf == Buf::Params(layer));
    assert(int4.uniforms[2].buf == Buf::CacheParams);
    assert(debug.uniforms[0].buf == Buf::Offsets(layer));
    assert(debug.uniforms[1].buf == Buf::Params(layer));
    assert(debug.uniforms[2].buf == Buf::CacheParams);
    assert(first.uniforms[0].buf == Buf::Offsets(0));
    assert(first.uniforms[1].buf == Buf::Params(0));
    assert(first.uniforms[2].buf == Buf::CacheParams);
    assert(qkv.uniforms[0].buf == Buf::Offsets(0));
    assert(qkv.uniforms[1].buf == Buf::Params(0));
}

/// Whether a plan writes a layer's offsets and uniforms.
pub open spec fn writes_layer(
    plan: PlanModel,
    layer: usize,
    offsets: LayerOffsets,
    params: LayerParams,
) -> bool {
    &&& writes(plan, Buf::Offsets(layer), offsets.block())
    &&& writes(plan, Buf::Params(layer), params.block())
}

/// An INT4 layer quantizes the position that it appends, for the heads of the layer.
/// Quantizing a whole cache starts at position 0 in each layer.
pub proof fn law_quantizing_starts_at_the_new_position(
    slots: Seq<BlobBinding>,
    cache: CacheState,
    layer: usize,
    input_len: usize,
    offsets: LayerOffsets,
    params: LayerParams,
    n_head_kv: u32,
    head_dim: u32,
    seq_len: u32,
    n_layers: usize,
    l: usize,
)
    requires
        seq_len > 0,
        l < n_layers,
    ensures
        ({
            let plan = int4_layer_model(slots, cache, layer, input_len, offsets, params);
            let w = plan.uniforms[3].words;
            let c = append_params(cache).block();
            &&& writes(plan, Buf::Uniforms(0), w)
            &&& w.len() == 4
            &&& w[0] == params.head_count_kv
            &&& w[1] == params.head_dim
            &&& w[2] == c[0]
            &&& w[3] == 0
        }),
        ({
            let plan = requantize_model(n_head_kv, head_dim, seq_len, n_layers);
            let w = plan.uniforms[l as int].words;
            &&& writes(plan, Buf::Uniforms(l), w)
            &&& w.len() == 4
            &&& w[0] == n_head_kv
            &&& w[1] == head_dim
            &&& w[2] == 0
            &&& w[3] == 0
        }),
{
    let plan = int4_layer_model(slots, cache, layer, input_len, offsets, params);
    assert(plan.uniforms[3].buf == Buf::Uniforms(0));
    let all = requantize_model(n_head_kv, head_dim, seq_len, n_layers);
    assert(all.uniforms[l as int].buf == Buf::Uniforms(l));
}

/// A shift writes what it was asked for: how many tokens to keep and to drop, out of
/// how many, and the shape of the cache. The F32 shift rotates as the caller says;
/// the INT4 shift rotates whole heads, with a base of 10000.
pub proof fn law_shift_writes_the_request(
    layer: usize,
    size: u64,
    packed_size: u64,
    scale_size: u64,
    p: CompactionParams,
)
    ensures
        ({
            let plain = shift_model(layer, size, p);
            let int4 = shift_int4_model(layer, size, packed_size, scale_size, p);
            let a = plain.uniforms[0].words;
            let b = int4.uniforms[0].words;
            &&& writes(plain, Buf::Uniforms(0), a)
            &&& writes(int4, Buf::Uniforms(0), b)
            &&& a.len() == 8 && b.len() == 8
            &&& a[0] == p.keep_sink
            &&& a[1] == p.shift_amt
            &&& a[2] == p.old_seq_len
            &&& a[3] == p.n_head_kv
            &&& a[4] == p.head_dim
            &&& a[5] == p.rope_dim
            &&& a[6] == p.rope_base
            &&& a[7] == p.max_seq_len
            &&& forall|i: int| 0 <= i < 8 && i != 5 && i != 6 ==> #[trigger] b[i] == a[i]
            &&& b[5] == b[4]
            &&& b[6] == 0x461C_4000
        }),
{
    assert(shift_model(layer, size, p).uniforms[0].buf == Buf::Uniforms(0));
    assert(shift_int4_model(layer, size, packed_size, scale_size, p).uniforms[0].buf
        == Buf::Uniforms(0));
}

/// The tiles of a head write one set of uniforms each, which differ in the first row
/// alone; the rows of each start where those of the tile before end. A head in one
/// piece starts at row 0.
pub proof fn law_tiles_differ_in_their_first_row(
    slots: Seq<BlobBinding>,
    input_len: usize,
    head: Head,
    max_wgs: u32,
    t: int,
)
    requires
        max_wgs > 0,
        0 <= t < tile_count(head.workgroups(), max_wgs as int),
        head.workgroups() * 64 <= u32::MAX,
    ensures
        ({
            let one = whole_head(slots, input_len, head).uniforms[0];
            let plan = tiled_head(slots, input_len, head, max_wgs);
            let tile = plan.uniforms[t];
            &&& one.buf == Buf::Uniforms(0)
            &&& tile.buf == Buf::Uniforms(t as usize)
            &&& one.words.len() == 7
            &&& one.words[0] == head.vocab_size
            &&& one.words[1] == head.dim
            &&& one.words[2] == head.weight_off
            &&& one.words[3] == formula_slot(head.quant_type)
            &&& one.words[4] == head.softcap
            &&& one.words[5] == 0
            &&& one.words[6] == head.chunk_words
            &&& tile.words == one.words.update(5, tile.words[5])
            &&& t == 0 ==> tile.words[5] == 0
            &&& t > 0 ==> tile.words[5] == plan.uniforms[t - 1].words[5] + 64 * max_wgs
        }),
{
    let m = max_wgs as int;
    let total = head.workgroups();
    let n = tile_count(total, m);
    crate::num::law_groups_cover_items(head.vocab_size as int, 64);
    crate::num::law_groups_cover_items(total, m);
    assert(t * m <= total) by (nonlinear_arith)
        requires
            0 <= t <= n - 1,
            m > 0,
            total > 0 ==> (n - 1) * m < total,
            total == 0 ==> n == 0,
            total >= 0,
    ;
    assert(t * m >= 0) by (nonlinear_arith)
        requires
            t >= 0,
            m > 0,
    ;
    assert((t - 1) * m == t * m - m) by (nonlinear_arith);
    assert(t > 0 ==> (t - 1) * m >= 0) by (nonlinear_arith)
        requires
            t >= 0,
            m > 0,
    ;
    assert(0 * m == 0);
    let one = whole_head(slots, input_len, head).uniforms[0];
    let tile = tiled_head(slots, input_len, head, max_wgs).uniforms[t];
    assert(tile.words =~= one.words.update(5, tile.words[5]));
}

/// A run that appends a token tells its kernels the length that the cache has once it
/// has grown behind the last layer, and the next run appends behind it.
pub proof fn law_next_token_follows(cache: CacheState)
    requires
        cache.seq_len + 1 < u32::MAX,
    ensures
        append_params(cache).seq_len == cache.grown().seq_len,
        append_params(cache.grown()).current_pos == append_params(cache).seq_len,
        append_params(cache.grown()).max_seq_len == append_params(cache).max_seq_len,
        append_params(cache.emptied()).current_pos == 0,
{
}

} // verus!
