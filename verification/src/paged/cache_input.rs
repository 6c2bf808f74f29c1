//! The rows that are written to a paged cache.
use vstd::prelude::*;
use vstd::string::*;

use crate::arith::{law_products_saturate, saturated, saturating_product};
use crate::paged::info::{elements, lemma_dot3, lemma_dot4, place, Layout};
use crate::text::{answer, lemma_names, outcome, says, Fault, Refusal};

verus! {

/// The stride from one token's row to the next.
pub open spec fn row_stride(layout: Layout) -> usize {
    if layout.rank() == 4 && layout.dims@[1] != 1 {
        layout.stride@[1]
    } else {
        layout.stride@[0]
    }
}

/// Whether batches follow each other as the tokens within one do.
pub open spec fn flattens(layout: Layout) -> bool {
    layout.rank() == 4 && layout.dims@[0] > 1 && layout.dims@[1] > 1 ==> layout.stride@[0]
        == saturated(layout.dims@[1], row_stride(layout))
}

/// Whether the heads of a token lie next to each other, and rows do not
/// overlap.
pub open spec fn dense_heads(layout: Layout) -> bool {
    let rank = layout.rank() as int;
    let heads = layout.dims@[rank - 2];
    let head_size = layout.dims@[rank - 1];
    &&& layout.stride@[rank - 1] == 1
    &&& layout.stride@[rank - 2] == head_size
    &&& row_stride(layout) >= saturated(heads, head_size)
}

pub open spec fn cache_input_refusal(layout: Layout, name: Seq<char>, op: Seq<char>) -> Refusal {
    Refusal::none().unless(
        layout.rank() == 3 || layout.rank() == 4,
        op + " expects rank-3 or rank-4 "@ + name + " input, got "@ + layout.text(),
    ).unless(
        layout.rank() == 4 ==> layout.dims@[0] * layout.dims@[1] <= usize::MAX,
        "cache input token count overflow"@,
    ).unless(
        flattens(layout),
        op + " cannot flatten "@ + name + " batch/sequence strides: "@ + layout.text(),
    ).unless(
        dense_heads(layout),
        op + " expects dense "@ + name + " heads, got "@ + layout.text(),
    )
}

/// The tokens, the heads of a token, the size of a head, and the stride of
/// rows.
pub open spec fn cache_input(layout: Layout) -> (usize, usize, usize, usize) {
    let d = layout.dims@;
    if layout.rank() == 4 {
        ((d[0] * d[1]) as usize, d[2], d[3], row_stride(layout))
    } else {
        (d[0], d[1], d[2], row_stride(layout))
    }
}

/// What a cache input answers.
pub open spec fn cache_input_answer(layout: Layout, name: Seq<char>, op: Seq<char>) -> Result<
    (usize, usize, usize, usize),
    Seq<char>,
> {
    answer(cache_input_refusal(layout, name, op), cache_input(layout))
}

/// Reads a key or value tensor of three or four dimensions as rows of tokens:
/// the number of tokens, the heads of a token, the size of a head, and the
/// stride from row to row.
pub fn cache_input_layout(layout: &Layout, name: &str, op: &str) -> (rows: Result<
    (usize, usize, usize, usize),
    Fault,
>)
    requires
        layout.wf(),
    ensures
        outcome(rows) == cache_input_answer(*layout, name@, op@),
{
    let rank: usize = layout.dims.len();
    let (tokens, heads, head_size, stride): (usize, usize, usize, usize) = if rank == 3 {
        (layout.dims[0], layout.dims[1], layout.dims[2], layout.stride[0])
    } else if rank == 4 {
        let batch: usize = layout.dims[0];
        let seq_len: usize = layout.dims[1];
        let tokens: usize = match batch.checked_mul(seq_len) {
            Some(tokens) => tokens,
            None => return Err(Fault::of("cache input token count overflow")),
        };
        let stride: usize = if seq_len == 1 {
            layout.stride[0]
        } else {
            layout.stride[1]
        };
        if batch > 1 && seq_len > 1 && layout.stride[0] != saturating_product(seq_len, stride) {
            return Err(
                Fault::new(
                    String::from_str(op).concat(" cannot flatten ").concat(name).concat(
                        " batch/sequence strides: ",
                    ).concat(layout.describe().as_str()),
                ),
            );
        }
        (tokens, layout.dims[2], layout.dims[3], stride)
    } else {
        return Err(
            Fault::new(
                String::from_str(op).concat(" expects rank-3 or rank-4 ").concat(name).concat(
                    " input, got ",
                ).concat(layout.describe().as_str()),
            ),
        );
    };
    if layout.stride[rank - 1] != 1 || layout.stride[rank - 2] != head_size || stride
        < saturating_product(heads, head_size) {
        return Err(
            Fault::new(
                String::from_str(op).concat(" expects dense ").concat(name).concat(
                    " heads, got ",
                ).concat(layout.describe().as_str()),
            ),
        );
    }
    Ok((tokens, heads, head_size, stride))
}

/// The place of element `d` of head `h` in the row of token `token`.
pub open spec fn row_place(layout: Layout, token: int, h: int, d: int) -> int {
    let (_, _, head_size, stride) = cache_input(layout);
    layout.start_offset + token * stride + h * head_size + d
}

/// An accepted tensor of three dimensions holds each element where the rows
/// put it.
pub proof fn law_rows_of_rank_three(layout: Layout, token: int, h: int, d: int)
    requires
        layout.wf(),
        layout.rank() == 3,
        dense_heads(layout),
    ensures
        place(layout, seq![token, h, d]) == row_place(layout, token, h, d),
{
    lemma_dot3(token, h, d, layout.stride@);
}

/// An accepted tensor of four dimensions holds token `s` of batch `b` where the
/// rows put token `b * seq_len + s`, so flattening moves nothing. The stride
/// between batches must be a true product: one that saturates at the greatest
/// size says nothing of where batches are.
pub proof fn law_rows_of_rank_four(layout: Layout, b: int, s: int, h: int, d: int)
    requires
        layout.wf(),
        layout.rank() == 4,
        flattens(layout),
        dense_heads(layout),
        layout.dims@[1] * row_stride(layout) <= usize::MAX,
        0 <= b < layout.dims@[0],
        0 <= s < layout.dims@[1],
    ensures
        place(layout, seq![b, s, h, d]) == row_place(layout, b * layout.dims@[1] + s, h, d),
{
    let seq_len = layout.dims@[1] as int;
    let stride = row_stride(layout) as int;
    lemma_dot4(b, s, h, d, layout.stride@);
    assert((b * seq_len + s) * stride == b * (seq_len * stride) + s * stride) by (nonlinear_arith);
    if layout.dims@[1] == 1 {
        assert(s == 0);
        assert(0 * stride == 0 && 0 * layout.stride@[1] == 0);
        assert(1 * stride == stride);
    } else if layout.dims@[0] == 1 {
        assert(b == 0);
        assert(0 * (seq_len * stride) == 0 && 0 * layout.stride@[0] == 0);
    }
}

/// Tokens of an accepted tensor do not share elements: each row ends before the
/// next begins, where the size of a row is a true product.
pub proof fn law_rows_are_disjoint(layout: Layout, token: int, h: int, d: int)
    requires
        layout.wf(),
        layout.rank() == 3 || layout.rank() == 4,
        dense_heads(layout),
        cache_input(layout).1 * cache_input(layout).2 <= usize::MAX,
        0 <= h < cache_input(layout).1,
        0 <= d < cache_input(layout).2,
    ensures
        row_place(layout, token, h, d) < row_place(layout, token + 1, 0, 0),
{
    let (_, heads, head_size, stride) = cache_input(layout);
    assert(h * head_size + d < heads * head_size) by (nonlinear_arith)
        requires
            0 <= h < heads,
            0 <= d < head_size,
    ;
    assert((token + 1) * stride == token * stride + stride) by (nonlinear_arith);
}

/// Rows are read exactly where the tensor has three or four dimensions, its tokens can be
/// counted, batches follow each other as tokens do, and the heads of a token lie next to
/// each other, with the next token behind them.
pub proof fn law_rows_are_read(layout: Layout, name: Seq<char>, op: Seq<char>)
    requires
        layout.wf(),
    ensures
        cache_input_refusal(layout, name, op).message is None <==> {
            let (d, s) = (layout.dims@, layout.stride@);
            let n = d.len() as int;
            let step = if n == 4 && d[1] != 1 {
                s[1]
            } else {
                s[0]
            };
            &&& n == 3 || n == 4
            &&& n == 4 ==> d[0] * d[1] <= usize::MAX
            &&& n == 4 && d[0] > 1 && d[1] > 1 ==> {
                ||| s[0] == d[1] * s[1]
                ||| d[1] * s[1] > usize::MAX && s[0] == usize::MAX
            }
            &&& s[n - 1] == 1
            &&& s[n - 2] == d[n - 1]
            &&& step >= d[n - 2] * d[n - 1] || (d[n - 2] * d[n - 1] > usize::MAX && step
                == usize::MAX)
        },
{
    let (d, s) = (layout.dims@, layout.stride@);
    if d.len() == 3 || d.len() == 4 {
        let n = d.len() as int;
        law_products_saturate(d[n - 2], d[n - 1]);
        law_products_saturate(d[1], s[1]);
    }
}

/// The rows hold the elements of the tensor: so many tokens, heads and elements of a head
/// as its dimensions say, with the batch and its tokens counted together.
pub proof fn law_rows_count_elements(layout: Layout, name: Seq<char>, op: Seq<char>)
    requires
        layout.wf(),
        cache_input_refusal(layout, name, op).message is None,
    ensures
        ({
            let (tokens, heads, head_size, stride) = cache_input(layout);
            let d = layout.dims@;
            &&& tokens * heads * head_size == elements(d)
            &&& d.last() == head_size
            &&& d[d.len() - 2] == heads
            &&& d.len() == 4 ==> tokens == d[0] * d[1]
            &&& d.len() == 3 ==> tokens == d[0]
        }),
{
    let d = layout.dims@;
    reveal_with_fuel(elements, 5);
    assert(d.drop_last().drop_last().drop_last().len() == d.len() - 3);
    if d.len() == 3 {
        assert(d.drop_last().drop_last().drop_last() =~= Seq::<usize>::empty());
    } else {
        assert(d.drop_last().drop_last().drop_last().drop_last() =~= Seq::<usize>::empty());
    }
    assert(1 * (d[0] as nat) == d[0]);
    assert(d[0] * d[1] >= 0) by (nonlinear_arith);
}

/// An input that is refused is told by the operation and its own name: by its layout where
/// it is of another rank, where its strides do not flatten and where its heads are not dense.
pub proof fn law_odd_inputs_are_told(layout: Layout, name: Seq<char>, op: Seq<char>)
    ensures
        layout.rank() != 3 && layout.rank() != 4 ==> (cache_input_refusal(
            layout,
            name,
            op,
        ).message matches Some(message) && says(
            message,
            op + " expects rank-3 or rank-4 "@ + name,
            " input, got "@ + layout.text(),
        )),
        layout.rank() == 3 && !dense_heads(layout) && flattens(layout) ==> (cache_input_refusal(
            layout,
            name,
            op,
        ).message matches Some(message) && says(
            message,
            op + " expects dense "@ + name,
            " heads, got "@ + layout.text(),
        )),
        layout.rank() == 4 && layout.dims@[0] * layout.dims@[1] <= usize::MAX && !flattens(layout)
            ==> (cache_input_refusal(layout, name, op).message matches Some(message) && says(
            message,
            op + " cannot flatten "@ + name,
            " batch/sequence strides: "@ + layout.text(),
        )),
{
    lemma_names(op + " expects rank-3 or rank-4 "@, name, " input, got "@ + layout.text());
    lemma_names(op + " expects dense "@, name, " heads, got "@ + layout.text());
    lemma_names(op + " cannot flatten "@, name, " batch/sequence strides: "@ + layout.text());
    assert(op + " expects rank-3 or rank-4 "@ + name + (" input, got "@ + layout.text()) =~= op
        + " expects rank-3 or rank-4 "@ + name + " input, got "@ + layout.text());
    assert(op + " expects dense "@ + name + (" heads, got "@ + layout.text()) =~= op
        + " expects dense "@ + name + " heads, got "@ + layout.text());
    assert(op + " cannot flatten "@ + name + (" batch/sequence strides: "@ + layout.text()) =~= op
        + " cannot flatten "@ + name + " batch/sequence strides: "@ + layout.text());
}

} // verus!
