//! The experts of a layer: their sizes, and tokens as rows that are routed to
//! them.
use candle_core::Tensor;
use vstd::prelude::*;

use crate::paged::info::{check_rank, elements, rank_check};
use crate::qwen3_next::attention::{dims3, shaped};
use crate::qwen3_next::config::Config;
use crate::tensor::{
    at2, at3, countable, dims_of, flat, in_shape, lemma_spread2, lemma_spread3, one_or_more,
    same_kind, same_order, takes_shape, tensor_cell, tensor_dims,
};
use crate::text::{outcome, Fault};

verus! {

/// The sizes of the experts of a layer, and how tokens are routed to them.
#[derive(Clone, Copy, Debug, PartialEq, Eq, Structural)]
pub struct MoeSizes {
    /// The router takes hidden states to one score for each expert.
    pub router_in: usize,
    pub router_out: usize,
    pub num_experts: usize,
    pub top_k: usize,
    /// Whether the scores of the chosen experts are made to add up to one.
    pub renormalize: bool,
    pub expert_width: usize,
    pub shared_width: usize,
    /// The weight of the shared expert comes from one score of its own.
    pub shared_score_rows: usize,
    pub shared_score_in: usize,
}

/// The sizes of the experts of a model's layers.
pub open spec fn moe_sizes_of(config: Config) -> MoeSizes {
    MoeSizes {
        router_in: config.hidden_size,
        router_out: config.num_experts,
        num_experts: config.num_experts,
        top_k: config.num_experts_per_tok,
        renormalize: config.norm_topk_prob,
        expert_width: config.moe_intermediate_size,
        shared_width: config.shared_expert_intermediate_size,
        shared_score_rows: 1,
        shared_score_in: config.hidden_size,
    }
}

/// The sizes of the experts of a layer.
pub fn moe_sizes(config: &Config) -> (sizes: MoeSizes)
    ensures
        sizes == (MoeSizes {
            router_in: config.hidden_size,
            router_out: config.num_experts,
            num_experts: config.num_experts,
            top_k: config.num_experts_per_tok,
            renormalize: config.norm_topk_prob,
            expert_width: config.moe_intermediate_size,
            shared_width: config.shared_expert_intermediate_size,
            shared_score_rows: 1,
            shared_score_in: config.hidden_size,
        }),
        sizes == moe_sizes_of(*config),
{
    MoeSizes {
        router_in: config.hidden_size,
        router_out: config.num_experts,
        num_experts: config.num_experts,
        top_k: config.num_experts_per_tok,
        renormalize: config.norm_topk_prob,
        expert_width: config.moe_intermediate_size,
        shared_width: config.shared_expert_intermediate_size,
        shared_score_rows: 1,
        shared_score_in: config.hidden_size,
    }
}

/// Whether a router tries the kernel for single rows first: where a device has it,
/// and no adapter changes its weights.
pub fn tries_router_kernel(device_kernels: bool, has_adapter: bool) -> (tries: bool)
    ensures
        tries == (device_kernels && !has_adapter),
{
    device_kernels && !has_adapter
}

// Tokens as rows.

pub open spec fn flat_check(dims: Seq<usize>) -> Result<(), Seq<char>> {
    match rank_check(3, dims) {
        Err(message) => Err(message),
        Ok(()) => if dims[2] == 0 {
            Err("cannot reshape tensor of 0 elements to ((), 0)"@)
        } else {
            Ok(())
        },
    }
}

/// Whether `rows` holds the tokens of all sequences one after another.
pub open spec fn are_flat_tokens(rows: Tensor, tokens: Tensor) -> bool {
    let dims = tensor_dims(tokens);
    &&& same_kind(rows, tokens)
    &&& tensor_dims(rows) == seq![(dims[0] * dims[1]) as usize, dims[2]]
    &&& forall|i: int, j: int, e: int|
        0 <= i < dims[0] && 0 <= j < dims[1] && 0 <= e < dims[2] ==> #[trigger] tensor_cell(
            tokens,
            at3(i, j, e),
        ) == tensor_cell(rows, at2(i * dims[1] + j, e))
}

proof fn lemma_flat23(rows: Tensor, tokens: Tensor, b: usize, s: usize, w: usize)
    requires
        b * s <= usize::MAX,
        tensor_dims(rows) == seq![(b * s) as usize, w],
        tensor_dims(tokens) == seq![b, s, w],
        same_order(rows, tokens) || same_order(tokens, rows),
    ensures
        forall|i: int, j: int, e: int|
            0 <= i < b && 0 <= j < s && 0 <= e < w ==> #[trigger] tensor_cell(
                tokens,
                at3(i, j, e),
            ) == tensor_cell(rows, at2(i * s + j, e)),
{
    assert forall|i: int, j: int, e: int| 0 <= i < b && 0 <= j < s && 0 <= e < w implies #[trigger] tensor_cell(
        tokens,
        at3(i, j, e),
    ) == tensor_cell(rows, at2(i * s + j, e)) by {
        let from = at2(i * s + j, e);
        let to = at3(i, j, e);
        assert(0 <= i * s + j < b * s) by (nonlinear_arith)
            requires
                0 <= i < b,
                0 <= j < s,
        ;
        assert(in_shape(from, tensor_dims(rows)));
        assert(in_shape(to, tensor_dims(tokens)));
        let (x, y) = (tensor_dims(rows), tensor_dims(tokens));
        reveal_with_fuel(flat, 4);
        assert(x.drop_last().drop_last() =~= Seq::<usize>::empty());
        assert(y.drop_last().drop_last().drop_last() =~= Seq::<usize>::empty());
        assert(0 * x[0] == 0);
        assert(0 * y[0] == 0);
        assert(flat(from, x) == (i * s + j) * w + e);
        assert(flat(to, y) == (i * s + j) * w + e);
    }
}

fn dims2(a: usize, b: usize) -> (dims: Vec<usize>)
    ensures
        dims@ == seq![a, b],
{
    let mut dims: Vec<usize> = Vec::new();
    dims.push(a);
    dims.push(b);
    assert(dims@ =~= seq![a, b]);
    dims
}

proof fn lemma_rows_count(b: usize, s: usize, w: usize)
    requires
        countable(seq![b, s, w]),
    ensures
        0 <= b * s <= usize::MAX,
        countable(seq![(b * s) as usize, w]),
        elements(seq![(b * s) as usize, w]) == elements(seq![b, s, w]),
{
    lemma_spread3(b, s, w);
    let (x, y, z) = (one_or_more(b), one_or_more(s), one_or_more(w));
    assert(0 <= b * s <= x * y) by (nonlinear_arith)
        requires
            0 <= b <= x,
            0 <= s <= y,
    ;
    assert(x * y <= x * y * z) by (nonlinear_arith)
        requires
            x >= 1,
            y >= 1,
            z >= 1,
    ;
    let rows = (b * s) as usize;
    lemma_spread2(rows, w);
    let m = one_or_more(rows);
    assert(m <= x * y) by (nonlinear_arith)
        requires
            x >= 1,
            y >= 1,
            m == 1 || m <= x * y,
    ;
    assert(m * z <= x * y * z) by (nonlinear_arith)
        requires
            m <= x * y,
    ;
    reveal_with_fuel(elements, 4);
    let (p, q) = (seq![rows, w], seq![b, s, w]);
    assert(p.drop_last() =~= seq![rows]);
    assert(p.drop_last().drop_last() =~= Seq::<usize>::empty());
    assert(q.drop_last() =~= seq![b, s]);
    assert(q.drop_last().drop_last() =~= seq![b]);
    assert(q.drop_last().drop_last().drop_last() =~= Seq::<usize>::empty());
    assert(1 * (rows as nat) == rows);
    assert(1 * (b as nat) == b);
}

/// The tokens of all sequences as rows, one after another.
pub fn flat_tokens(tokens: &Tensor) -> (rows: Result<Tensor, Fault>)
    requires
        countable(tensor_dims(*tokens)),
    ensures
        match flat_check(tensor_dims(*tokens)) {
            Err(message) => outcome(rows) == Err::<Tensor, Seq<char>>(message),
            Ok(()) => {
                &&& takes_shape(*tokens) ==> rows is Ok
                &&& rows matches Ok(rows) ==> are_flat_tokens(rows, *tokens)
            },
        },
{
    let dims: Vec<usize> = dims_of(tokens);
    check_rank(3, &dims)?;
    let (b, s, w): (usize, usize, usize) = (dims[0], dims[1], dims[2]);
    if w == 0 {
        return Err(Fault::of("cannot reshape tensor of 0 elements to ((), 0)"));
    }
    proof {
        assert(tensor_dims(*tokens) =~= seq![b, s, w]);
        lemma_rows_count(b, s, w);
    }
    let rows: Tensor = shaped(tokens, &dims2(b * s, w))?;
    proof {
        lemma_flat23(rows, *tokens, b, s, w);
    }
    Ok(rows)
}

/// Rows as the tokens of `batch` sequences of `seq_len` tokens.
pub fn token_rows(rows: &Tensor, batch: usize, seq_len: usize, width: usize) -> (tokens: Result<
    Tensor,
    Fault,
>)
    requires
        countable(seq![batch, seq_len, width]),
        countable(tensor_dims(*rows)),
    ensures
        elements(tensor_dims(*rows)) != elements(seq![batch, seq_len, width]) ==> tokens is Err,
        elements(tensor_dims(*rows)) == elements(seq![batch, seq_len, width]) && takes_shape(*rows)
            ==> tokens is Ok,
        tokens matches Ok(tokens) ==> {
            &&& tensor_dims(tokens) == seq![batch, seq_len, width]
            &&& same_order(tokens, *rows)
            &&& tensor_dims(*rows) == seq![(batch * seq_len) as usize, width] ==> are_flat_tokens(
                *rows,
                tokens,
            )
        },
{
    proof {
        lemma_rows_count(batch, seq_len, width);
    }
    let tokens: Tensor = shaped(rows, &dims3(batch, seq_len, width))?;
    proof {
        if tensor_dims(*rows) == seq![(batch * seq_len) as usize, width] {
            lemma_flat23(*rows, tokens, batch, seq_len, width);
        }
    }
    Ok(tokens)
}

/// Tokens that are laid out as rows and taken as tokens again are the same.
pub proof fn law_flat_tokens_are_tokens_again(tokens: Tensor, rows: Tensor, again: Tensor)
    requires
        tensor_dims(tokens).len() == 3,
        tensor_dims(again) == tensor_dims(tokens),
        are_flat_tokens(rows, tokens),
        are_flat_tokens(rows, again),
    ensures
        forall|i: int, j: int, e: int|
            0 <= i < tensor_dims(tokens)[0] && 0 <= j < tensor_dims(tokens)[1] && 0 <= e
                < tensor_dims(tokens)[2] ==> #[trigger] tensor_cell(again, at3(i, j, e))
                == tensor_cell(tokens, at3(i, j, e)),
        same_kind(again, tokens),
{
    assert forall|i: int, j: int, e: int|
        0 <= i < tensor_dims(tokens)[0] && 0 <= j < tensor_dims(tokens)[1] && 0 <= e < tensor_dims(
            tokens,
        )[2] implies #[trigger] tensor_cell(again, at3(i, j, e)) == tensor_cell(
        tokens,
        at3(i, j, e),
    ) by {
        assert(tensor_cell(tokens, at3(i, j, e)) == tensor_cell(
            rows,
            at2(i * tensor_dims(tokens)[1] + j, e),
        ));
    }
}

/// Row `p` of the rows is token `p % s` of sequence `p / s`, where sequences have `s`
/// tokens.
pub proof fn law_rows_are_tokens_in_order(rows: Tensor, tokens: Tensor, p: int, e: int)
    requires
        are_flat_tokens(rows, tokens),
        tensor_dims(tokens).len() == 3,
        0 <= p < tensor_dims(tokens)[0] * tensor_dims(tokens)[1],
        0 <= e < tensor_dims(tokens)[2],
    ensures
        tensor_cell(rows, at2(p, e)) == tensor_cell(
            tokens,
            at3(p / tensor_dims(tokens)[1] as int, p % tensor_dims(tokens)[1] as int, e),
        ),
{
    let (b, s) = (tensor_dims(tokens)[0] as int, tensor_dims(tokens)[1] as int);
    assert(s > 0) by (nonlinear_arith)
        requires
            0 <= p < b * s,
            s >= 0,
    ;
    let (i, j) = (p / s, p % s);
    vstd::arithmetic::div_mod::lemma_fundamental_div_mod(p, s);
    assert(s * i == i * s) by (nonlinear_arith);
    assert(0 <= i < b) by (nonlinear_arith)
        requires
            p == i * s + j,
            0 <= j < s,
            0 <= p < b * s,
    ;
    assert(tensor_cell(tokens, at3(i, j, e)) == tensor_cell(
        rows,
        at2(i * tensor_dims(tokens)[1] + j, e),
    ));
}

/// Tokens are laid out as rows exactly where they have three dimensions and a feature.
pub proof fn law_tokens_are_laid_out(dims: Seq<usize>)
    ensures
        flat_check(dims) is Ok <==> dims.len() == 3 && dims[2] > 0,
{
}

/// The router takes hidden states to a score for each expert, so many of which are chosen
/// as the configuration says. The shared expert is scored once, by the same states, and
/// each kind of expert has its own width.
pub proof fn law_experts_are_sized(config: Config)
    ensures
        ({
            let sizes = moe_sizes_of(config);
            &&& sizes.router_in == config.hidden_size && sizes.shared_score_in
                == config.hidden_size
            &&& sizes.router_out == sizes.num_experts && sizes.num_experts == config.num_experts
            &&& sizes.top_k == config.num_experts_per_tok
            &&& sizes.renormalize <==> config.norm_topk_prob
            &&& sizes.expert_width == config.moe_intermediate_size
            &&& sizes.shared_width == config.shared_expert_intermediate_size
            &&& sizes.shared_score_rows == 1
        }),
{
}

} // verus!
