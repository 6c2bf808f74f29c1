//! Full attention: the sizes of its projections, and the split of what they
//! give into heads.
use candle_core::Tensor;
use vstd::prelude::*;

use crate::paged::info::elements;
use crate::qwen3_next::config::{holds_heads, lemma_holds_heads, Config};
use crate::tensor::{
    at3, at4, countable, exchanged, flat, handy, in_shape, is_narrowed, lemma_elements_exchanged,
    lemma_spread3, lemma_spread4, lemma_spread_exchanged, narrow, one_or_more, reshape, row_major,
    same_kind, same_order, takes_shape, tensor_cell, tensor_dims, tensor_fault, transpose,
};
use crate::text::Fault;

verus! {

/// The sizes of an attention layer that is spread over several devices.
#[derive(Clone, Copy, Debug, PartialEq, Eq, Structural)]
pub struct AttentionSizes {
    /// Queries and gates, side by side for each head.
    pub q_out: usize,
    pub kv_out: usize,
    pub o_in: usize,
    /// The heads of one device.
    pub num_heads: usize,
    /// The key-value heads of one device, of which each has at least one.
    pub num_kv_heads: usize,
    pub head_dim: usize,
}

pub open spec fn at_least_one(n: usize) -> usize {
    if n < 1 {
        1
    } else {
        n
    }
}

pub open spec fn attention_sizes(config: Config, world_size: usize) -> AttentionSizes {
    AttentionSizes {
        q_out: (config.num_attention_heads * config.head_dim * 2) as usize,
        kv_out: (config.num_key_value_heads * config.head_dim) as usize,
        o_in: (config.num_attention_heads * config.head_dim) as usize,
        num_heads: config.num_attention_heads / world_size,
        num_kv_heads: at_least_one(config.num_key_value_heads / world_size),
        head_dim: config.head_dim,
    }
}

/// Whether the projections can be sized: there is a device, and the widths fit
/// a `usize`.
pub open spec fn attention_fits(config: Config, world_size: usize) -> bool {
    &&& world_size > 0
    &&& config.num_attention_heads * config.head_dim * 2 <= usize::MAX
    &&& config.num_key_value_heads * config.head_dim <= usize::MAX
}

/// The sizes of a full-attention layer, spread over `world_size` devices.
pub fn full_attention_sizes(config: &Config, world_size: usize) -> (sizes: AttentionSizes)
    requires
        attention_fits(*config, world_size),
    ensures
        sizes == attention_sizes(*config, world_size),
{
    let kv_heads: usize = config.num_key_value_heads / world_size;
    AttentionSizes {
        q_out: config.num_attention_heads * config.head_dim * 2,
        kv_out: config.num_key_value_heads * config.head_dim,
        o_in: config.num_attention_heads * config.head_dim,
        num_heads: config.num_attention_heads / world_size,
        num_kv_heads: if kv_heads < 1 {
            1
        } else {
            kv_heads
        },
        head_dim: config.head_dim,
    }
}

/// Tests whether the projections can be sized.
pub fn attention_does_fit(config: &Config, world_size: usize) -> (fits: bool)
    ensures
        fits == attention_fits(*config, world_size),
{
    if world_size == 0 {
        return false;
    }
    let width: usize = match config.num_attention_heads.checked_mul(config.head_dim) {
        Some(width) => width,
        None => return false,
    };
    width.checked_mul(2).is_some() && config.num_key_value_heads.checked_mul(
        config.head_dim,
    ).is_some()
}

/// The query projection holds as much for gates as for queries.
pub proof fn law_query_projection_is_doubled(config: Config, world_size: usize)
    requires
        attention_fits(config, world_size),
    ensures
        attention_sizes(config, world_size).q_out == 2 * attention_sizes(config, world_size).o_in,
{
    let (a, b) = (config.num_attention_heads as int, config.head_dim as int);
    assert(0 <= a * b) by (nonlinear_arith)
        requires
            a >= 0,
            b >= 0,
    ;
}

// Heads.

/// The places of a tensor of three dimensions.
proof fn lemma_flat3(index: Seq<int>, dims: Seq<usize>)
    requires
        index.len() == 3,
        dims.len() == 3,
    ensures
        flat(index, dims) == (index[0] * dims[1] + index[1]) * dims[2] + index[2],
{
    reveal_with_fuel(flat, 4);
    assert(dims.drop_last().drop_last().drop_last() =~= Seq::<usize>::empty());
    assert(0 * dims[0] == 0);
}

/// The places of a tensor of four dimensions.
proof fn lemma_flat4(index: Seq<int>, dims: Seq<usize>)
    requires
        index.len() == 4,
        dims.len() == 4,
    ensures
        flat(index, dims) == ((index[0] * dims[1] + index[1]) * dims[2] + index[2]) * dims[3]
            + index[3],
{
    reveal_with_fuel(flat, 5);
    assert(dims.drop_last().drop_last().drop_last().drop_last() =~= Seq::<usize>::empty());
    assert(0 * dims[0] == 0);
}

/// Heads that lie side by side in a row spread no further than heads of their
/// own.
pub(crate) proof fn lemma_row_counts(b: usize, s: usize, h: usize, d: usize)
    requires
        countable(seq![b, s, h, d]),
    ensures
        h * d <= usize::MAX,
        countable(seq![b, s, (h * d) as usize]),
{
    lemma_spread4(b, s, h, d);
    let (x, y, z, w) = (one_or_more(b), one_or_more(s), one_or_more(h), one_or_more(d));
    assert(0 <= h * d <= z * w) by (nonlinear_arith)
        requires
            0 <= h <= z,
            0 <= d <= w,
    ;
    assert(z * w <= x * y * z * w) by (nonlinear_arith)
        requires
            x >= 1,
            y >= 1,
            z >= 1,
            w >= 1,
    ;
    let width = (h * d) as usize;
    lemma_spread3(b, s, width);
    let m = one_or_more(width);
    assert(m <= z * w) by (nonlinear_arith)
        requires
            z >= 1,
            w >= 1,
            m == 1 || m <= z * w,
    ;
    assert(x * y * m <= x * y * z * w) by (nonlinear_arith)
        requires
            m <= z * w,
    ;
}

/// Fewer entries in the last dimension spread no further.
proof fn lemma_last_counts(b: usize, s: usize, h: usize, d: usize, wide: usize)
    requires
        d <= wide,
        countable(seq![b, s, h, wide]),
    ensures
        countable(seq![b, s, h, d]),
{
    lemma_spread4(b, s, h, wide);
    lemma_spread4(b, s, h, d);
    let n = one_or_more(b) * one_or_more(s) * one_or_more(h);
    let (x, y) = (one_or_more(d), one_or_more(wide));
    assert(n * x <= n * y) by (nonlinear_arith)
        requires
            x <= y,
    ;
}

pub(crate) fn dims4(a: usize, b: usize, c: usize, d: usize) -> (dims: Vec<usize>)
    ensures
        dims@ == seq![a, b, c, d],
{
    let mut dims: Vec<usize> = Vec::new();
    dims.push(a);
    dims.push(b);
    dims.push(c);
    dims.push(d);
    assert(dims@ =~= seq![a, b, c, d]);
    dims
}

pub(crate) fn dims3(a: usize, b: usize, c: usize) -> (dims: Vec<usize>)
    ensures
        dims@ == seq![a, b, c],
{
    let mut dims: Vec<usize> = Vec::new();
    dims.push(a);
    dims.push(b);
    dims.push(c);
    assert(dims@ =~= seq![a, b, c]);
    dims
}

pub(crate) fn shaped(tensor: &Tensor, dims: &Vec<usize>) -> (result: Result<Tensor, Fault>)
    requires
        countable(dims@),
        countable(tensor_dims(*tensor)),
    ensures
        elements(dims@) != elements(tensor_dims(*tensor)) ==> result is Err,
        elements(dims@) == elements(tensor_dims(*tensor)) && takes_shape(*tensor) ==> result is Ok,
        result matches Ok(result) ==> {
            &&& tensor_dims(result) == dims@
            &&& same_order(result, *tensor)
            &&& same_kind(result, *tensor)
            &&& row_major(result)
        },
{
    match reshape(tensor, dims) {
        Ok(result) => Ok(result),
        Err(error) => Err(tensor_fault(error)),
    }
}

/// Whether a tensor of shape batch, tokens and heads times size holds in each
/// head the elements of `wide` from `start` on, where `wide` has `stride`
/// elements for each head.
pub open spec fn heads_match(
    heads: Tensor,
    wide: Tensor,
    sizes: (usize, usize, usize, usize),
    stride: int,
    start: int,
) -> bool {
    let (b, s, h, d) = sizes;
    &&& tensor_dims(heads) == seq![b, s, h, d]
    &&& forall|i: int, j: int, k: int, e: int|
        0 <= i < b && 0 <= j < s && 0 <= k < h && 0 <= e < d ==> #[trigger] tensor_cell(
            heads,
            at4(i, j, k, e),
        ) == tensor_cell(wide, at3(i, j, k * stride + start + e))
}

/// Queries and gates of an attention layer.
pub struct QueryGate {
    /// Of shape batch, tokens, heads and head size.
    pub query: Tensor,
    /// Of shape batch, tokens and heads times head size.
    pub gate: Tensor,
}

/// Whether queries and gates are those of a projection: in each head, queries
/// come before gates.
pub open spec fn is_split(
    split: QueryGate,
    q_gate: Tensor,
    sizes: (usize, usize, usize, usize),
) -> bool {
    let (b, s, h, d) = sizes;
    &&& heads_match(split.query, q_gate, sizes, d * 2, 0)
    &&& tensor_dims(split.gate) == seq![b, s, (h * d) as usize]
    &&& forall|i: int, j: int, k: int, e: int|
        0 <= i < b && 0 <= j < s && 0 <= k < h && 0 <= e < d ==> tensor_cell(
            split.gate,
            #[trigger] gate_index(i, j, k, e, d as int),
        ) == tensor_cell(q_gate, at3(i, j, k * (d * 2) + d + e))
}

/// Whether queries and gates are the halves of a tensor with both for each head.
pub open spec fn are_halves(
    split: QueryGate,
    per_head: Tensor,
    wide_gate: Tensor,
    sizes: (usize, usize, usize, usize),
) -> bool {
    let (b, s, h, d) = sizes;
    &&& tensor_dims(per_head) == seq![b, s, h, (d * 2) as usize]
    &&& is_narrowed(split.query, per_head, 3, 0, d)
    &&& is_narrowed(wide_gate, per_head, 3, d, d)
    &&& tensor_dims(split.gate) == seq![b, s, (h * d) as usize]
    &&& same_order(split.gate, wide_gate)
}

/// Whether queries and gates are those of a projection of any shape: the halves
/// of its elements, as they are counted.
pub open spec fn splits(
    split: QueryGate,
    q_gate: Tensor,
    sizes: (usize, usize, usize, usize),
) -> bool {
    exists|per_head: Tensor, wide_gate: Tensor| #[trigger]
        are_halves(split, per_head, wide_gate, sizes) && same_order(per_head, q_gate)
}

/// Splits a projection into queries and gates, which it holds side by side for
/// each head. It fails where the projection has another number of elements, or
/// where the device cannot copy.
pub fn split_query_gate(
    q_gate: &Tensor,
    batch: usize,
    seq_len: usize,
    num_heads: usize,
    head_dim: usize,
) -> (split: Result<QueryGate, Fault>)
    requires
        head_dim * 2 <= usize::MAX,
        countable(seq![batch, seq_len, num_heads, (head_dim * 2) as usize]),
        countable(tensor_dims(*q_gate)),
    ensures
        elements(tensor_dims(*q_gate)) != elements(
            seq![batch, seq_len, num_heads, (head_dim * 2) as usize],
        ) ==> split is Err,
        elements(tensor_dims(*q_gate)) == elements(
            seq![batch, seq_len, num_heads, (head_dim * 2) as usize],
        ) && handy(*q_gate) ==> split is Ok,
        split matches Ok(split) ==> same_kind(split.query, *q_gate) && same_kind(
            split.gate,
            *q_gate,
        ),
        split matches Ok(split) ==> splits(
            split,
            *q_gate,
            (batch, seq_len, num_heads, head_dim),
        ),
        split matches Ok(split) ==> tensor_dims(*q_gate) == seq![
            batch,
            seq_len,
            (num_heads * head_dim * 2) as usize,
        ] ==> is_split(split, *q_gate, (batch, seq_len, num_heads, head_dim)),
{
    let double: usize = head_dim * 2;
    proof {
        lemma_row_counts(batch, seq_len, num_heads, double);
        lemma_last_counts(batch, seq_len, num_heads, head_dim, double);
        lemma_row_counts(batch, seq_len, num_heads, head_dim);
        assert(num_heads * (head_dim * 2) == num_heads * head_dim * 2) by (nonlinear_arith);
        lemma_row_elements(batch, seq_len, num_heads, head_dim);
    }
    let per_head: Tensor = shaped(q_gate, &dims4(batch, seq_len, num_heads, double))?;
    let query: Tensor = match narrow(&per_head, 3, 0, head_dim) {
        Ok(query) => query,
        Err(error) => return Err(tensor_fault(error)),
    };
    let wide_gate: Tensor = match narrow(&per_head, 3, head_dim, head_dim) {
        Ok(gate) => gate,
        Err(error) => return Err(tensor_fault(error)),
    };
    let width: usize = num_heads * head_dim;
    assert(tensor_dims(wide_gate) =~= seq![batch, seq_len, num_heads, head_dim]);
    let gate: Tensor = shaped(&wide_gate, &dims3(batch, seq_len, width))?;
    proof {
        if tensor_dims(*q_gate) == seq![batch, seq_len, (num_heads * head_dim * 2) as usize] {
            lemma_split(*q_gate, per_head, query, wide_gate, gate, batch, seq_len, num_heads, head_dim);
        }
    }
    let split: QueryGate = QueryGate { query, gate };
    assert(are_halves(split, per_head, wide_gate, (batch, seq_len, num_heads, head_dim)));
    Ok(split)
}

/// Heads that lie side by side in a row have as many elements as heads of their
/// own.
pub(crate) proof fn lemma_row_elements(b: usize, s: usize, h: usize, d: usize)
    requires
        h * d <= usize::MAX,
    ensures
        elements(seq![b, s, (h * d) as usize]) == elements(seq![b, s, h, d]),
{
    assert(h * d >= 0) by (nonlinear_arith)
        requires
            h >= 0,
            d >= 0,
    ;
    let (row, own) = (seq![b, s, (h * d) as usize], seq![b, s, h, d]);
    assert(row.drop_last() =~= seq![b, s]);
    assert(own.drop_last() =~= seq![b, s, h]);
    assert(own.drop_last().drop_last() =~= seq![b, s]);
    let n = elements(seq![b, s]);
    assert(elements(own.drop_last()) == n * (h as nat));
    assert(n * (h as nat) * (d as nat) == n * ((h * d) as nat)) by (nonlinear_arith)
        requires
            h * d >= 0,
    ;
}

/// The index of a gate.
pub open spec fn gate_index(i: int, j: int, k: int, e: int, head_dim: int) -> Seq<int> {
    at3(i, j, k * head_dim + e)
}

/// The place of an element that a head of size `d` holds.
proof fn lemma_head_place(i: int, j: int, k: int, e: int, s: int, h: int, d: int)
    ensures
        ((i * s + j) * h + k) * d + e == (i * s + j) * (h * d) + (k * d + e),
{
    assert(((i * s + j) * h + k) * d == (i * s + j) * (h * d) + k * d) by (nonlinear_arith);
}

pub(crate) proof fn lemma_in_row(k: int, e: int, h: int, d: int)
    requires
        0 <= k < h,
        0 <= e < d,
    ensures
        0 <= k * d + e < h * d,
{
    assert(0 <= k * d + e < h * d) by (nonlinear_arith)
        requires
            0 <= k < h,
            0 <= e < d,
    ;
}

/// A tensor of heads holds what the row of heads holds.
pub(crate) proof fn lemma_heads_of_row(heads: Tensor, row: Tensor, b: usize, s: usize, h: usize, d: usize)
    requires
        h * d <= usize::MAX,
        tensor_dims(heads) == seq![b, s, h, d],
        tensor_dims(row) == seq![b, s, (h * d) as usize],
        same_order(heads, row),
    ensures
        forall|i: int, j: int, k: int, e: int|
            0 <= i < b && 0 <= j < s && 0 <= k < h && 0 <= e < d ==> #[trigger] tensor_cell(
                heads,
                at4(i, j, k, e),
            ) == tensor_cell(row, at3(i, j, k * d + e)),
{
    assert forall|i: int, j: int, k: int, e: int|
        0 <= i < b && 0 <= j < s && 0 <= k < h && 0 <= e < d implies #[trigger] tensor_cell(
        heads,
        at4(i, j, k, e),
    ) == tensor_cell(row, at3(i, j, k * d + e)) by {
        let from = at4(i, j, k, e);
        let to = at3(i, j, k * d + e);
        lemma_in_row(k, e, h as int, d as int);
        assert(h * d >= 0) by (nonlinear_arith)
            requires
                h >= 0,
                d >= 0,
        ;
        assert(in_shape(from, tensor_dims(heads)));
        assert(in_shape(to, tensor_dims(row)));
        lemma_flat4(from, tensor_dims(heads));
        lemma_flat3(to, tensor_dims(row));
        lemma_head_place(i, j, k, e, s as int, h as int, d as int);
        assert(flat(from, tensor_dims(heads)) == flat(to, tensor_dims(row)));
    }
}

proof fn lemma_split(
    q_gate: Tensor,
    per_head: Tensor,
    query: Tensor,
    wide_gate: Tensor,
    gate: Tensor,
    b: usize,
    s: usize,
    h: usize,
    d: usize,
)
    requires
        d * 2 <= usize::MAX,
        h * d * 2 <= usize::MAX,
        h * d <= usize::MAX,
        tensor_dims(q_gate) == seq![b, s, (h * d * 2) as usize],
        tensor_dims(per_head) == seq![b, s, h, (d * 2) as usize],
        same_order(per_head, q_gate),
        is_narrowed(query, per_head, 3, 0, d),
        is_narrowed(wide_gate, per_head, 3, d, d),
        tensor_dims(gate) == seq![b, s, (h * d) as usize],
        same_order(gate, wide_gate),
    ensures
        heads_match(query, q_gate, (b, s, h, d), d * 2, 0),
        forall|i: int, j: int, k: int, e: int|
            0 <= i < b && 0 <= j < s && 0 <= k < h && 0 <= e < d ==> tensor_cell(
                gate,
                #[trigger] gate_index(i, j, k, e, d as int),
            ) == tensor_cell(q_gate, at3(i, j, k * (d * 2) + d + e)),
{
    assert(h * (d * 2) == h * d * 2) by (nonlinear_arith);
    lemma_heads_of_row(per_head, q_gate, b, s, h, (d * 2) as usize);
    assert(tensor_dims(query) =~= seq![b, s, h, d]);
    assert(tensor_dims(wide_gate) =~= seq![b, s, h, d]);
    assert forall|i: int, j: int, k: int, e: int|
        0 <= i < b && 0 <= j < s && 0 <= k < h && 0 <= e < d implies #[trigger] tensor_cell(
        query,
        at4(i, j, k, e),
    ) == tensor_cell(q_gate, at3(i, j, k * (d * 2) + 0 + e)) by {
        let index = at4(i, j, k, e);
        assert(in_shape(index, tensor_dims(query)));
        assert(index.update(3, index[3] + 0) =~= index);
        assert(tensor_cell(per_head, index) == tensor_cell(q_gate, at3(i, j, k * (d * 2) + e)));
    }
    assert(same_order(wide_gate, gate)) by {
        assert forall|x: Seq<int>, y: Seq<int>|
            in_shape(x, tensor_dims(wide_gate)) && in_shape(y, tensor_dims(gate)) && flat(
                x,
                tensor_dims(wide_gate),
            ) == flat(y, tensor_dims(gate)) implies #[trigger] tensor_cell(wide_gate, x)
            == #[trigger] tensor_cell(gate, y) by {}
    }
    lemma_heads_of_row(wide_gate, gate, b, s, h, d);
    assert forall|i: int, j: int, k: int, e: int|
        0 <= i < b && 0 <= j < s && 0 <= k < h && 0 <= e < d implies tensor_cell(
        gate,
        #[trigger] gate_index(i, j, k, e, d as int),
    ) == tensor_cell(q_gate, at3(i, j, k * (d * 2) + d + e)) by {
        let index = at4(i, j, k, e);
        assert(in_shape(index, tensor_dims(wide_gate)));
        assert(tensor_cell(wide_gate, index) == tensor_cell(gate, at3(i, j, k * d + e)));
        let there = at4(i, j, k, d + e);
        assert(index.update(3, index[3] + d) =~= there);
        assert(tensor_cell(per_head, there) == tensor_cell(
            q_gate,
            at3(i, j, k * (d * 2) + (d + e)),
        ));
    }
}

/// Whether a tensor holds the heads of `heads` before its tokens.
pub open spec fn heads_come_first(
    first: Tensor,
    heads: Tensor,
    sizes: (usize, usize, usize, usize),
) -> bool {
    let (b, s, h, d) = sizes;
    &&& same_kind(first, heads)
    &&& tensor_dims(first) == seq![b, h, s, d]
    &&& forall|i: int, j: int, k: int, e: int|
        0 <= i < b && 0 <= j < s && 0 <= k < h && 0 <= e < d ==> #[trigger] tensor_cell(
            first,
            at4(i, k, j, e),
        ) == tensor_cell(heads, at4(i, j, k, e))
}

/// Puts the heads of a tensor before its tokens. A single token needs no more
/// than another shape.
pub fn heads_first(heads: &Tensor, batch: usize, seq_len: usize, num_heads: usize, head_dim: usize) -> (first:
    Result<Tensor, Fault>)
    requires
        tensor_dims(*heads) == seq![batch, seq_len, num_heads, head_dim],
        countable(tensor_dims(*heads)),
    ensures
        first matches Ok(first) ==> heads_come_first(
            first,
            *heads,
            (batch, seq_len, num_heads, head_dim),
        ),
        seq_len != 1 || takes_shape(*heads) ==> first is Ok,
{
    if seq_len != 1 {
        match transpose(heads, 1, 2) {
            Ok(first) => {
                proof {
                    assert(tensor_dims(first) =~= seq![batch, num_heads, seq_len, head_dim]);
                    assert forall|i: int, j: int, k: int, e: int|
                        0 <= i < batch && 0 <= j < seq_len && 0 <= k < num_heads && 0 <= e
                            < head_dim implies #[trigger] tensor_cell(first, at4(i, k, j, e))
                        == tensor_cell(*heads, at4(i, j, k, e)) by {
                        let index = at4(i, k, j, e);
                        assert(in_shape(index, tensor_dims(first)));
                        assert(exchanged(index, 1, 2) =~= at4(i, j, k, e));
                    }
                }
                Ok(first)
            },
            Err(error) => Err(tensor_fault(error)),
        }
    } else {
        proof {
            lemma_spread_exchanged(tensor_dims(*heads));
            assert(exchanged(tensor_dims(*heads), 1, 2) =~= seq![
                batch,
                num_heads,
                seq_len,
                head_dim,
            ]);
            lemma_elements_exchanged(tensor_dims(*heads));
        }
        let first: Tensor = shaped(heads, &dims4(batch, num_heads, seq_len, head_dim))?;
        proof {
            assert forall|i: int, j: int, k: int, e: int|
                0 <= i < batch && 0 <= j < seq_len && 0 <= k < num_heads && 0 <= e
                    < head_dim implies #[trigger] tensor_cell(first, at4(i, k, j, e))
                == tensor_cell(*heads, at4(i, j, k, e)) by {
                let from = at4(i, k, j, e);
                let to = at4(i, j, k, e);
                assert(in_shape(from, tensor_dims(first)));
                assert(in_shape(to, tensor_dims(*heads)));
                lemma_flat4(from, tensor_dims(first));
                lemma_flat4(to, tensor_dims(*heads));
                assert(j == 0);
                assert((i * num_heads + k) * 1 + 0 == (i * 1 + 0) * num_heads + k);
            }
        }
        Ok(first)
    }
}

// Routing.

/// Where a full-attention layer runs.
#[derive(Clone, Copy, Debug, PartialEq, Eq, Structural)]
pub enum AttentionRoute {
    /// Over the paged cache of the layer.
    Paged,
    /// By the paged kernel, without a cache, under the given mask.
    PagedDummy,
    /// Over a cache that keys and values are appended to.
    Eager,
}

/// Where a layer with or without the paged kernel and a cache runs.
pub open spec fn route_of(has_paged_kernel: bool, has_cache: bool) -> AttentionRoute {
    if !has_paged_kernel {
        AttentionRoute::Eager
    } else if has_cache {
        AttentionRoute::Paged
    } else {
        AttentionRoute::PagedDummy
    }
}

/// Where a full-attention layer runs. A paged layer without a cache needs a
/// mask.
pub fn attention_route(has_paged_kernel: bool, has_cache: bool, has_mask: bool) -> (route:
    AttentionRoute)
    requires
        has_paged_kernel && !has_cache ==> has_mask,
    ensures
        route == if !has_paged_kernel {
            AttentionRoute::Eager
        } else if has_cache {
            AttentionRoute::Paged
        } else {
            AttentionRoute::PagedDummy
        },
        route == route_of(has_paged_kernel, has_cache),
{
    if !has_paged_kernel {
        AttentionRoute::Eager
    } else if has_cache {
        AttentionRoute::Paged
    } else {
        AttentionRoute::PagedDummy
    }
}

/// The projections hold the heads of the model, queries with a gate each, and each device
/// takes an even share of the heads, of key-value heads at least one.
pub proof fn law_attention_sizes(config: Config, world_size: usize)
    requires
        attention_fits(config, world_size),
    ensures
        ({
            let sizes = attention_sizes(config, world_size);
            let (heads, kv_heads) = (config.num_attention_heads, config.num_key_value_heads);
            &&& sizes.head_dim == config.head_dim
            &&& holds_heads(sizes.q_out as int, heads as int, config.head_dim * 2)
            &&& holds_heads(sizes.o_in as int, heads as int, config.head_dim as int)
            &&& holds_heads(sizes.kv_out as int, kv_heads as int, config.head_dim as int)
            &&& sizes.num_heads * world_size <= heads < (sizes.num_heads + 1) * world_size
            &&& kv_heads < world_size ==> sizes.num_kv_heads == 1
            &&& kv_heads >= world_size ==> sizes.num_kv_heads * world_size <= kv_heads < (
            sizes.num_kv_heads + 1) * world_size
        }),
{
    let (heads, d) = (config.num_attention_heads as int, config.head_dim as int);
    let (kv, n) = (config.num_key_value_heads as int, world_size as int);
    assert(heads * d * 2 == heads * (d * 2)) by (nonlinear_arith);
    lemma_holds_heads(heads, d * 2);
    lemma_holds_heads(heads, d);
    lemma_holds_heads(kv, d);
    assert(0 <= heads * d && 0 <= kv * d) by (nonlinear_arith)
        requires
            heads >= 0,
            kv >= 0,
            d >= 0,
    ;
    vstd::arithmetic::div_mod::lemma_fundamental_div_mod(heads, n);
    vstd::arithmetic::div_mod::lemma_fundamental_div_mod(kv, n);
    let (x, y) = (heads / n, kv / n);
    assert(n * x == x * n && (x + 1) * n == x * n + n) by (nonlinear_arith);
    assert(n * y == y * n && (y + 1) * n == y * n + n) by (nonlinear_arith);
    if kv >= n {
        assert(y >= 1) by (nonlinear_arith)
            requires
                kv == n * y + kv % n,
                kv % n < n,
                kv >= n,
                n > 0,
        ;
    } else {
        vstd::arithmetic::div_mod::lemma_basic_div(kv, n);
    }
}

/// In each head of a projection the queries come first and the gates behind them; queries
/// are kept by heads, and gates side by side.
pub proof fn law_queries_come_before_gates(
    split: QueryGate,
    q_gate: Tensor,
    sizes: (usize, usize, usize, usize),
    i: int,
    j: int,
    k: int,
    e: int,
)
    requires
        is_split(split, q_gate, sizes),
        0 <= i < sizes.0,
        0 <= j < sizes.1,
        0 <= k < sizes.2,
        0 <= e < sizes.3,
    ensures
        tensor_dims(split.query) == seq![sizes.0, sizes.1, sizes.2, sizes.3],
        tensor_cell(split.query, seq![i, j, k, e]) == tensor_cell(
            q_gate,
            seq![i, j, 2 * sizes.3 * k + e],
        ),
        tensor_cell(split.gate, seq![i, j, sizes.3 * k + e]) == tensor_cell(
            q_gate,
            seq![i, j, 2 * sizes.3 * k + sizes.3 + e],
        ),
{
    let d = sizes.3 as int;
    assert(k * (d * 2) == 2 * d * k && k * d == d * k) by (nonlinear_arith);
    assert(at4(i, j, k, e) =~= seq![i, j, k, e]);
    assert(at3(i, j, k * (d * 2) + 0 + e) =~= seq![i, j, 2 * sizes.3 * k + e]);
    assert(at3(i, j, k * (d * 2) + d + e) =~= seq![i, j, 2 * sizes.3 * k + sizes.3 + e]);
    assert(gate_index(i, j, k, e, d) =~= seq![i, j, sizes.3 * k + e]);
    assert(tensor_cell(split.query, at4(i, j, k, e)) == tensor_cell(
        q_gate,
        at3(i, j, k * (d * 2) + 0 + e),
    ));
    assert(tensor_cell(split.gate, gate_index(i, j, k, e, d)) == tensor_cell(
        q_gate,
        at3(i, j, k * (d * 2) + d + e),
    ));
}

/// Heads that come first are the same heads, with tokens and heads exchanged.
pub proof fn law_heads_come_first(
    first: Tensor,
    heads: Tensor,
    sizes: (usize, usize, usize, usize),
    i: int,
    j: int,
    k: int,
    e: int,
)
    requires
        heads_come_first(first, heads, sizes),
        0 <= i < sizes.0,
        0 <= j < sizes.1,
        0 <= k < sizes.2,
        0 <= e < sizes.3,
    ensures
        tensor_dims(first) == seq![sizes.0, sizes.2, sizes.1, sizes.3],
        tensor_cell(first, seq![i, k, j, e]) == tensor_cell(heads, seq![i, j, k, e]),
{
    assert(at4(i, k, j, e) =~= seq![i, k, j, e]);
    assert(at4(i, j, k, e) =~= seq![i, j, k, e]);
    assert(tensor_cell(first, at4(i, k, j, e)) == tensor_cell(heads, at4(i, j, k, e)));
}

/// The paged kernel runs wherever there is one, over the cache exactly where there is one.
pub proof fn law_routes(has_paged_kernel: bool, has_cache: bool)
    ensures
        route_of(has_paged_kernel, has_cache) == AttentionRoute::Eager <==> !has_paged_kernel,
        route_of(has_paged_kernel, has_cache) == AttentionRoute::Paged <==> has_paged_kernel
            && has_cache,
        route_of(has_paged_kernel, has_cache) == AttentionRoute::PagedDummy <==> has_paged_kernel
            && !has_cache,
{
}

} // verus!
