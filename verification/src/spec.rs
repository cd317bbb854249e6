//! The shape of a model, and its correction from the tensors that it has.

use crate::metadata::BindlessMetadata;
use crate::names::NameMap;
use crate::text::{chars_of, contains, occurs, occurs_at, starts_with};
use vstd::prelude::*;

verus! {

/// The architectures that the dispatch logic tells apart.
#[derive(Debug, Clone, Copy, PartialEq, Eq, Structural)]
pub enum ModelArch {
    Gemma2,
    Qwen3,
    Phi,
    Other,
}

/// The shape of a model. Floating-point parameters are held as their bit
/// patterns.
#[derive(Debug, Clone, Copy, PartialEq, Eq, Structural)]
pub struct ModelSpec {
    pub arch: ModelArch,
    pub n_vocab: usize,
    pub n_embd: usize,
    pub n_layer: usize,
    pub n_head: usize,
    pub n_head_kv: usize,
    pub head_dim: usize,
    pub ff_dim: usize,
    pub n_ctx: usize,
    pub rope_dim: usize,
    /// Scratch floats per token.
    pub temp_buffer_size: usize,
    /// Bytes of a layer's key or value cache.
    pub kv_cache_size_per_layer: usize,
    /// Stored columns of the query weights, 0 where they equal `n_embd`.
    pub q_weight_k: usize,
    /// Stored columns of the key weights, 0 where they equal `n_embd`.
    pub k_weight_k: usize,
    pub rms_eps: u32,
    pub attn_logit_softcap: u32,
    pub final_logit_softcap: u32,
    pub has_qk_norm: bool,
    pub post_norm_enabled: bool,
    pub uses_layer_norm: bool,
}

/// Whether a tensor name stands for the query weights of layer 0.
pub open spec fn names_first_query(name: Seq<char>) -> bool {
    occurs(name, "attn_q.weight"@) && occurs_at(name, "blk.0"@, 0)
}

/// The first name that stands for the query weights of layer 0.
pub open spec fn first_query_name(names: Seq<Seq<char>>) -> Option<Seq<char>>
    decreases names.len(),
{
    if names.len() == 0 {
        None
    } else if names_first_query(names[0]) {
        Some(names[0])
    } else {
        first_query_name(names.skip(1))
    }
}

/// The shape of the query weights of layer 0: under their usual name, or else
/// under the first name that stands for them.
pub open spec fn query_shape(dims: &NameMap<Vec<u64>>) -> Option<Seq<u64>> {
    if dims@.contains_key("blk.0.attn_q.weight"@) {
        Some(dims@["blk.0.attn_q.weight"@])
    } else {
        match first_query_name(dims.names()) {
            Some(name) => Some(dims@[name]),
            None => None,
        }
    }
}

/// The rows of a tensor, where its shape has them.
pub open spec fn rows_or(
    dims: Map<Seq<char>, Seq<u64>>,
    name: Seq<char>,
    default: usize,
) -> usize {
    if dims.contains_key(name) && dims[name].len() >= 2 {
        dims[name][1] as usize
    } else {
        default
    }
}

/// The head size that the query weights imply, where that differs from the
/// model's own: their rows divided over the heads.
pub open spec fn implied_head_dim(dims: &NameMap<Vec<u64>>, spec: ModelSpec) -> Option<usize> {
    match query_shape(dims) {
        Some(shape) => if spec.n_head != 0 && shape.len() >= 2 && (shape[1] as usize)
            / spec.n_head > 0 && (shape[1] as usize) / spec.n_head != spec.head_dim {
            Some((shape[1] as usize) / spec.n_head)
        } else {
            None
        },
        None => None,
    }
}

fn first_query_index(dims: &NameMap<Vec<u64>>) -> (r: Option<usize>)
    ensures
        match first_query_name(dims.names()) {
            Some(name) => r matches Some(i) && i < dims.names().len() && dims.names()[i as int]
                == name,
            None => r is None,
        },
{
    let weight = chars_of("attn_q.weight");
    let layer = chars_of("blk.0");
    let n: usize = dims.len();
    let mut i: usize = 0;
    assert(dims.names().skip(0) =~= dims.names());
    while i < n
        invariant
            n == dims.names().len(),
            i <= n,
            weight@ == "attn_q.weight"@,
            layer@ == "blk.0"@,
            first_query_name(dims.names()) == first_query_name(dims.names().skip(i as int)),
        decreases n - i,
    {
        let name = chars_of(dims.entry(i).0.as_str());
        assert(dims.names().skip(i as int)[0] == name@);
        assert(dims.names().skip(i as int).skip(1) =~= dims.names().skip(i + 1));
        if contains(&name, &weight) && starts_with(&name, &layer) {
            return Some(i);
        }
        i += 1;
    }
    None
}

fn rows_or_exec(dims: &NameMap<Vec<u64>>, name: &str, default: usize) -> (r: usize)
    ensures
        r == rows_or(dims@, name@, default),
{
    match dims.get(name) {
        Some(shape) => if shape.len() >= 2 {
            shape[1] as usize
        } else {
            default
        },
        None => default,
    }
}

/// The shape of a model, completed from the tensors it has.
pub open spec fn completed(dims: &NameMap<Vec<u64>>, base: ModelSpec) -> ModelSpec {
    ModelSpec {
        has_qk_norm: dims@.contains_key("blk.0.attn_q_norm.weight"@) && dims@.contains_key(
            "blk.0.attn_k_norm.weight"@,
        ),
        post_norm_enabled: dims@.contains_key("blk.0.post_attention_norm.weight"@)
            && dims@.contains_key("blk.0.post_ffw_norm.weight"@),
        q_weight_k: rows_or(dims@, "blk.0.attn_q.weight"@, base.q_weight_k),
        k_weight_k: rows_or(dims@, "blk.0.attn_k.weight"@, base.k_weight_k),
        head_dim: match implied_head_dim(dims, base) {
            Some(head_dim) => head_dim,
            None => base.head_dim,
        },
        ..base
    }
}

impl BindlessMetadata {
    /// Completes a model's shape from the tensors it has.
    ///
    /// `base` is the shape that the key-value pairs give. Norms and stored widths
    /// follow the tensors of layer 0, and so does the head size where the pairs
    /// give another. The second result says whether the head size was corrected,
    /// so that sizes derived from it have to be computed anew.
    pub fn to_model_spec(&self, base: ModelSpec) -> (r: (ModelSpec, bool))
        ensures
            ({
                let dims = self.tensor_dims@;
                let implied = implied_head_dim(&self.tensor_dims, base);
                r.1 == (implied is Some) && r.0 == (ModelSpec {
                    has_qk_norm: dims.contains_key("blk.0.attn_q_norm.weight"@)
                        && dims.contains_key("blk.0.attn_k_norm.weight"@),
                    post_norm_enabled: dims.contains_key("blk.0.post_attention_norm.weight"@)
                        && dims.contains_key("blk.0.post_ffw_norm.weight"@),
                    q_weight_k: rows_or(dims, "blk.0.attn_q.weight"@, base.q_weight_k),
                    k_weight_k: rows_or(dims, "blk.0.attn_k.weight"@, base.k_weight_k),
                    head_dim: match implied {
                        Some(head_dim) => head_dim,
                        None => base.head_dim,
                    },
                    ..base
                })
            }),
            r.0 == completed(&self.tensor_dims, base),
            r.1 <==> r.0.head_dim != base.head_dim,
    {
        let dims = &self.tensor_dims;
        let has_qk_norm: bool = dims.contains_key("blk.0.attn_q_norm.weight")
            && dims.contains_key("blk.0.attn_k_norm.weight");
        let post_norm_enabled: bool = dims.contains_key("blk.0.post_attention_norm.weight")
            && dims.contains_key("blk.0.post_ffw_norm.weight");
        let q_weight_k: usize = rows_or_exec(dims, "blk.0.attn_q.weight", base.q_weight_k);
        let k_weight_k: usize = rows_or_exec(dims, "blk.0.attn_k.weight", base.k_weight_k);
        let mut head_dim: usize = base.head_dim;
        let mut corrected: bool = false;
        let shape = match dims.get("blk.0.attn_q.weight") {
            Some(shape) => Some(shape),
            None => match first_query_index(dims) {
                Some(i) => Some(dims.entry(i).1),
                None => None,
            },
        };
        if base.n_head != 0 {
            if let Some(shape) = shape {
                if shape.len() >= 2 {
                    let inferred: usize = (shape[1] as usize) / base.n_head;
                    if inferred > 0 && inferred != base.head_dim {
                        head_dim = inferred;
                        corrected = true;
                    }
                }
            }
        }
        (
            ModelSpec {
                has_qk_norm,
                post_norm_enabled,
                q_weight_k,
                k_weight_k,
                head_dim,
                ..base
            },
            corrected,
        )
    }
}

/// A head size is implied just where the shape of the query weights gives another one
/// than the model's own: it is the number of rows per head, and never zero.
pub proof fn law_implied_head_size_shares_out_rows(dims: &NameMap<Vec<u64>>, spec: ModelSpec)
    ensures
        implied_head_dim(dims, spec) matches Some(d) ==> {
            let rows = (query_shape(dims)->0)[1] as usize;
            &&& query_shape(dims) is Some
            &&& (query_shape(dims)->0).len() >= 2
            &&& spec.n_head > 0
            &&& d > 0
            &&& d != spec.head_dim
            &&& d * spec.n_head <= rows < (d + 1) * spec.n_head
        },
        implied_head_dim(dims, spec) is None && query_shape(dims) is Some && (query_shape(
            dims,
        )->0).len() >= 2 && spec.n_head > 0 ==> {
            let rows = (query_shape(dims)->0)[1] as usize;
            ||| rows < spec.n_head
            ||| spec.head_dim * spec.n_head <= rows < (spec.head_dim + 1) * spec.n_head
        },
{
    if query_shape(dims) is Some && (query_shape(dims)->0).len() >= 2 && spec.n_head > 0 {
        let rows = ((query_shape(dims)->0)[1] as usize) as int;
        let h = spec.n_head as int;
        let q = rows / h;
        vstd::arithmetic::div_mod::lemma_fundamental_div_mod(rows, h);
        assert(q * h <= rows < (q + 1) * h) by (nonlinear_arith)
            requires
                rows == h * (rows / h) + rows % h,
                0 <= rows % h < h,
                q == rows / h,
        ;
        assert(q == 0 ==> rows < h) by (nonlinear_arith)
            requires
                rows < (q + 1) * h,
        ;
        if implied_head_dim(dims, spec) is Some {
            assert(implied_head_dim(dims, spec)->0 == q);
        } else {
            assert(q == 0 || q == spec.head_dim);
        }
    }
}

/// The shape of the query weights is that of the tensor of their usual name; without
/// it, that of a tensor whose name begins with the first layer's and holds theirs.
pub proof fn law_query_shape_is_that_of_the_first_layer(dims: &NameMap<Vec<u64>>)
    ensures
        dims@.contains_key("blk.0.attn_q.weight"@) ==> query_shape(dims) == Some(
            dims@["blk.0.attn_q.weight"@],
        ),
        !dims@.contains_key("blk.0.attn_q.weight"@) ==> match query_shape(dims) {
            Some(shape) => exists|i: int|
                0 <= i < dims.names().len() && is_query_of_first_layer(
                    #[trigger] dims.names()[i],
                ) && shape == dims@[dims.names()[i]],
            None => forall|i: int|
                0 <= i < dims.names().len() ==> !is_query_of_first_layer(
                    #[trigger] dims.names()[i],
                ),
        },
{
    if !dims@.contains_key("blk.0.attn_q.weight"@) {
        lemma_first_query_name(dims.names());
    }
}

/// Whether a name begins with the first layer's and holds that of query weights.
pub open spec fn is_query_of_first_layer(name: Seq<char>) -> bool {
    &&& name.len() >= "blk.0"@.len()
    &&& name.subrange(0, "blk.0"@.len() as int) == "blk.0"@
    &&& exists|at: int|
        0 <= at && at + "attn_q.weight"@.len() <= name.len() && #[trigger] name.subrange(
            at,
            at + "attn_q.weight"@.len(),
        ) == "attn_q.weight"@
}

proof fn lemma_names_first_query(name: Seq<char>)
    ensures
        names_first_query(name) <==> is_query_of_first_layer(name),
{
    if names_first_query(name) {
        let at = choose|at: int| occurs_at(name, "attn_q.weight"@, at);
        assert(name.subrange(at, at + "attn_q.weight"@.len()) == "attn_q.weight"@);
    }
    if is_query_of_first_layer(name) {
        let at = choose|at: int|
            0 <= at && at + "attn_q.weight"@.len() <= name.len() && #[trigger] name.subrange(
                at,
                at + "attn_q.weight"@.len(),
            ) == "attn_q.weight"@;
        assert(occurs_at(name, "attn_q.weight"@, at));
    }
}

proof fn lemma_first_query_name(names: Seq<Seq<char>>)
    ensures
        match first_query_name(names) {
            Some(name) => exists|i: int|
                0 <= i < names.len() && is_query_of_first_layer(#[trigger] names[i]) && names[i]
                    == name,
            None => forall|i: int|
                0 <= i < names.len() ==> !is_query_of_first_layer(#[trigger] names[i]),
        },
    decreases names.len(),
{
    if names.len() > 0 {
        lemma_names_first_query(names[0]);
        if !names_first_query(names[0]) {
            let rest = names.skip(1);
            lemma_first_query_name(rest);
            match first_query_name(rest) {
                Some(name) => {
                    let i = choose|i: int|
                        0 <= i < rest.len() && is_query_of_first_layer(#[trigger] rest[i])
                            && rest[i] == name;
                    assert(names[i + 1] == rest[i]);
                },
                None => {
                    assert forall|i: int|
                        0 <= i < names.len() implies !is_query_of_first_layer(
                        #[trigger] names[i],
                    ) by {
                        if i > 0 {
                            assert(names[i] == rest[i - 1]);
                        }
                    }
                },
            }
        }
    }
}

/// A stored width is the second dimension of the tensor, where it has one.
pub proof fn law_stored_width_is_the_second_dimension(
    dims: Map<Seq<char>, Seq<u64>>,
    name: Seq<char>,
    default: usize,
)
    ensures
        dims.contains_key(name) && dims[name].len() >= 2 && dims[name][1] <= usize::MAX ==> rows_or(
            dims,
            name,
            default,
        ) == dims[name][1],
        !dims.contains_key(name) || dims[name].len() < 2 ==> rows_or(dims, name, default)
            == default,
{
}

/// Completing a model's shape changes what the tensors of layer 0 tell, and nothing
/// else: norms run just where both of their tensors are there, the stored widths are
/// those of query and key weights, and the head size shares out the query's rows.
/// Completing it once more changes nothing.
pub proof fn law_completing_follows_the_tensors(dims: &NameMap<Vec<u64>>, base: ModelSpec)
    ensures
        ({
            let s = completed(dims, base);
            &&& s.arch == base.arch && s.n_vocab == base.n_vocab && s.n_embd == base.n_embd
            &&& s.n_layer == base.n_layer && s.n_head == base.n_head
            &&& s.n_head_kv == base.n_head_kv && s.ff_dim == base.ff_dim
            &&& s.n_ctx == base.n_ctx && s.rope_dim == base.rope_dim
            &&& s.temp_buffer_size == base.temp_buffer_size
            &&& s.kv_cache_size_per_layer == base.kv_cache_size_per_layer
            &&& s.rms_eps == base.rms_eps && s.attn_logit_softcap == base.attn_logit_softcap
            &&& s.final_logit_softcap == base.final_logit_softcap
            &&& s.uses_layer_norm == base.uses_layer_norm
            &&& s.has_qk_norm <==> dims@.contains_key("blk.0.attn_q_norm.weight"@)
                && dims@.contains_key("blk.0.attn_k_norm.weight"@)
            &&& s.post_norm_enabled <==> dims@.contains_key("blk.0.post_attention_norm.weight"@)
                && dims@.contains_key("blk.0.post_ffw_norm.weight"@)
            &&& s.q_weight_k == rows_or(dims@, "blk.0.attn_q.weight"@, base.q_weight_k)
            &&& s.k_weight_k == rows_or(dims@, "blk.0.attn_k.weight"@, base.k_weight_k)
            &&& s.head_dim != base.head_dim ==> {
                let rows = (query_shape(dims)->0)[1] as usize;
                &&& query_shape(dims) is Some
                &&& s.head_dim * s.n_head <= rows < (s.head_dim + 1) * s.n_head
            }
            &&& completed(dims, s) == s
        }),
{
    law_implied_head_size_shares_out_rows(dims, base);
}

} // verus!
