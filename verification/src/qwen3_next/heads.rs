//! Keys and values as heads, and the heads of an answer as rows again.
use candle_core::Tensor;
use vstd::prelude::*;

use crate::paged::info::elements;
use crate::qwen3_next::attention::{
    dims3, dims4, lemma_heads_of_row, lemma_in_row, lemma_row_counts, shaped,
};
use crate::tensor::{
    at3, at4, countable, dims_of, exchanged, flat, handy, in_shape, is_turned,
    lemma_elements_exchanged, lemma_elements_within, lemma_spread3, lemma_spread_exchanged,
    lemma_spread_grows, same_kind, same_order, takes_shape, tensor_cell, tensor_dims, tensor_fault,
    transpose,
};
use crate::text::{dec, decimal, outcome, Fault};

verus! {

/// Whether a tensor holds, heads before tokens, the heads that lie side by side
/// in each row of `row`.
pub open spec fn heads_of_rows(
    heads: Tensor,
    row: Tensor,
    sizes: (usize, usize, usize, usize),
) -> bool {
    let (b, s, h, d) = sizes;
    &&& same_kind(heads, row)
    &&& tensor_dims(heads) == seq![b, h, s, d]
    &&& forall|i: int, j: int, k: int, e: int|
        0 <= i < b && 0 <= j < s && 0 <= k < h && 0 <= e < d ==> #[trigger] tensor_cell(
            heads,
            at4(i, k, j, e),
        ) == tensor_cell(row, at3(i, j, k * d + e))
}

proof fn lemma_flat_single(row: Tensor, heads: Tensor, b: usize, h: usize, d: usize)
    requires
        h * d <= usize::MAX,
        tensor_dims(row) == seq![b, 1usize, (h * d) as usize],
        tensor_dims(heads) == seq![b, h, 1usize, d],
        same_order(heads, row),
    ensures
        heads_of_rows(heads, row, (b, 1, h, d)),
{
    assert forall|i: int, j: int, k: int, e: int|
        0 <= i < b && 0 <= j < 1 && 0 <= k < h && 0 <= e < d implies #[trigger] tensor_cell(
        heads,
        at4(i, k, j, e),
    ) == tensor_cell(row, at3(i, j, k * d + e)) by {
        let from = at4(i, k, j, e);
        let to = at3(i, j, k * d + e);
        lemma_in_row(k, e, h as int, d as int);
        assert(in_shape(from, tensor_dims(heads)));
        assert(in_shape(to, tensor_dims(row)));
        let (x, y) = (tensor_dims(heads), tensor_dims(row));
        reveal_with_fuel(flat, 5);
        assert(x.drop_last().drop_last().drop_last().drop_last() =~= Seq::<usize>::empty());
        assert(y.drop_last().drop_last().drop_last() =~= Seq::<usize>::empty());
        assert(flat(from, x) == ((i * h + k) * 1 + j) * d + e);
        assert(flat(to, y) == (i * 1 + j) * (h * d) + (k * d + e));
        assert((i * h + k) * d + e == i * (h * d) + (k * d + e)) by (nonlinear_arith);
    }
}

/// Whether a tensor holds, heads before tokens, the elements of a row of any shape
/// as they are counted.
pub open spec fn heads_as_counted(
    heads: Tensor,
    row: Tensor,
    sizes: (usize, usize, usize, usize),
) -> bool {
    let (b, s, h, d) = sizes;
    if s == 1 {
        tensor_dims(heads) == seq![b, h, s, d] && same_order(heads, row)
    } else {
        exists|wide: Tensor| #[trigger]
            is_turned(heads, wide, 1, 2) && tensor_dims(wide) == seq![b, s, h, d] && same_order(
                wide,
                row,
            )
    }
}

/// Keys or values as heads, which come before the tokens. It fails where the
/// projection has another number of elements, or where the device cannot copy.
pub fn split_heads(row: &Tensor, batch: usize, seq_len: usize, num_heads: usize, head_dim: usize) -> (heads:
    Result<Tensor, Fault>)
    requires
        countable(seq![batch, seq_len, num_heads, head_dim]),
        countable(tensor_dims(*row)),
    ensures
        elements(tensor_dims(*row)) != elements(seq![batch, seq_len, num_heads, head_dim])
            ==> heads is Err,
        elements(tensor_dims(*row)) == elements(seq![batch, seq_len, num_heads, head_dim])
            && takes_shape(*row) ==> heads is Ok,
        heads matches Ok(heads) ==> heads_as_counted(
            heads,
            *row,
            (batch, seq_len, num_heads, head_dim),
        ),
        heads matches Ok(heads) ==> tensor_dims(*row) == seq![
            batch,
            seq_len,
            (num_heads * head_dim) as usize,
        ] ==> heads_of_rows(heads, *row, (batch, seq_len, num_heads, head_dim)),
{
    proof {
        let dims = seq![batch, seq_len, num_heads, head_dim];
        lemma_row_counts(batch, seq_len, num_heads, head_dim);
        lemma_spread_exchanged(dims);
        assert(exchanged(dims, 1, 2) =~= seq![batch, num_heads, seq_len, head_dim]);
        lemma_elements_exchanged(dims);
    }
    if seq_len == 1 {
        let heads: Tensor = shaped(row, &dims4(batch, num_heads, seq_len, head_dim))?;
        proof {
            if tensor_dims(*row) == seq![batch, seq_len, (num_heads * head_dim) as usize] {
                lemma_flat_single(*row, heads, batch, num_heads, head_dim);
            }
        }
        return Ok(heads);
    }
    let wide: Tensor = shaped(row, &dims4(batch, seq_len, num_heads, head_dim))?;
    match transpose(&wide, 1, 2) {
        Ok(heads) => {
            proof {
                assert(tensor_dims(heads) =~= seq![batch, num_heads, seq_len, head_dim]);
                if tensor_dims(*row) == seq![batch, seq_len, (num_heads * head_dim) as usize] {
                    lemma_heads_of_row(wide, *row, batch, seq_len, num_heads, head_dim);
                    assert forall|i: int, j: int, k: int, e: int|
                        0 <= i < batch && 0 <= j < seq_len && 0 <= k < num_heads && 0 <= e
                            < head_dim implies #[trigger] tensor_cell(heads, at4(i, k, j, e))
                        == tensor_cell(*row, at3(i, j, k * head_dim + e)) by {
                        let index = at4(i, k, j, e);
                        assert(in_shape(index, tensor_dims(heads)));
                        assert(exchanged(index, 1, 2) =~= at4(i, j, k, e));
                        assert(tensor_cell(wide, at4(i, j, k, e)) == tensor_cell(
                            *row,
                            at3(i, j, k * head_dim + e),
                        ));
                    }
                }
            }
            Ok(heads)
        },
        Err(error) => Err(tensor_fault(error)),
    }
}

// The way back.

/// The refusal of a tensor that cannot be laid out as rows.
pub open spec fn rows_check(count: nat, batch: usize, seq_len: usize) -> Result<(), Seq<char>> {
    let tail = dec(count) + " elements to ("@ + dec(batch as nat) + ", "@ + dec(seq_len as nat)
        + ", ())"@;
    if batch * seq_len == 0 {
        Err("cannot reshape tensor of "@ + tail)
    } else if count % ((batch * seq_len) as nat) != 0 {
        Err("cannot reshape tensor with "@ + tail)
    } else {
        Ok(())
    }
}

fn count_elements(dims: &Vec<usize>) -> (count: usize)
    requires
        countable(dims@),
    ensures
        count == elements(dims@),
{
    let mut count: usize = 1;
    let mut i: usize = 0;
    assert(dims@.take(0) =~= Seq::<usize>::empty());
    while i < dims.len()
        invariant
            i <= dims@.len(),
            countable(dims@),
            count == elements(dims@.take(i as int)),
        decreases dims@.len() - i,
    {
        proof {
            let next = dims@.take(i + 1);
            assert(next.drop_last() =~= dims@.take(i as int));
            assert(next.last() == dims@[i as int]);
            lemma_elements_within(next);
            lemma_spread_grows(dims@, i + 1);
        }
        count = count * dims[i];
        i = i + 1;
    }
    assert(dims@.take(i as int) =~= dims@);
    count
}

fn check_rows(count: usize, batch: usize, seq_len: usize) -> (r: Result<(), Fault>)
    requires
        batch * seq_len <= usize::MAX,
    ensures
        outcome(r) == rows_check(count as nat, batch, seq_len),
{
    proof {
        assert(batch * seq_len >= 0) by (nonlinear_arith)
            requires
                batch >= 0,
                seq_len >= 0,
        ;
    }
    let rows: usize = batch * seq_len;
    if rows != 0 && count % rows == 0 {
        return Ok(());
    }
    let tail: String = decimal(count as u64).concat(" elements to (").concat(
        decimal(batch as u64).as_str(),
    ).concat(", ").concat(decimal(seq_len as u64).as_str()).concat(", ())");
    if rows == 0 {
        Err(Fault::new(String::from_str("cannot reshape tensor of ").concat(tail.as_str())))
    } else {
        Err(Fault::new(String::from_str("cannot reshape tensor with ").concat(tail.as_str())))
    }
}

/// Whether each row of `rows` holds the heads of a token side by side.
pub open spec fn rows_of_heads(
    rows: Tensor,
    heads: Tensor,
    sizes: (usize, usize, usize, usize),
) -> bool {
    let (b, s, h, d) = sizes;
    &&& same_kind(rows, heads)
    &&& tensor_dims(rows) == seq![b, s, (h * d) as usize]
    &&& forall|i: int, j: int, k: int, e: int|
        0 <= i < b && 0 <= j < s && 0 <= k < h && 0 <= e < d ==> #[trigger] tensor_cell(
            heads,
            at4(i, k, j, e),
        ) == tensor_cell(rows, at3(i, j, k * d + e))
}

proof fn lemma_four_elements(b: usize, s: usize, h: usize, d: usize)
    requires
        b * s > 0,
    ensures
        elements(seq![b, s, h, d]) == b * s * (h * d),
        elements(seq![b, s, h, d]) % ((b * s) as nat) == 0,
        elements(seq![b, s, h, d]) / ((b * s) as nat) == h * d,
{
    let dims = seq![b, s, h, d];
    let two = seq![b, s];
    let one = seq![b];
    let three = seq![b, s, h];
    assert(dims.drop_last() =~= three);
    assert(three.drop_last() =~= two);
    assert(two.drop_last() =~= one);
    assert(one.drop_last() =~= Seq::<usize>::empty());
    assert(elements(Seq::<usize>::empty()) == 1);
    assert(elements(one) == elements(Seq::<usize>::empty()) * one.last() as nat);
    assert(elements(one) == b);
    assert(elements(two) == elements(one) * two.last() as nat);
    assert(elements(three) == elements(two) * three.last() as nat);
    assert(elements(dims) == elements(three) * dims.last() as nat);
    let rows = b * s;
    let width = h * d;
    assert(b * s * h * d == rows * width) by (nonlinear_arith)
        requires
            rows == b * s,
            width == h * d,
    ;
    assert(width >= 0) by (nonlinear_arith)
        requires
            width == h * d,
            h >= 0,
            d >= 0,
    ;
    assert((rows * width) % rows == 0 && (rows * width) / rows == width) by (nonlinear_arith)
        requires
            rows > 0,
            width >= 0,
    ;
}

/// The answer of attention as rows, one for each token. Under a mask, heads come
/// before tokens in the answer; without one, it is already in the order of rows.
pub fn join_heads(answer: &Tensor, batch: usize, seq_len: usize, has_mask: bool) -> (rows: Result<
    Tensor,
    Fault,
>)
    requires
        batch * seq_len <= usize::MAX,
        countable(tensor_dims(*answer)),
    ensures
        has_mask && tensor_dims(*answer).len() < 3 ==> rows is Err,
        (if has_mask {
            tensor_dims(*answer).len() >= 3 && handy(*answer)
        } else {
            takes_shape(*answer)
        }) && rows_check(elements(tensor_dims(*answer)), batch, seq_len) is Ok ==> rows is Ok,
        ({
            let count = elements(tensor_dims(*answer));
            match rows_check(count, batch, seq_len) {
                Err(message) => !has_mask || tensor_dims(*answer).len() >= 3 ==> outcome(rows)
                    == Err::<Tensor, Seq<char>>(message),
                Ok(()) => rows matches Ok(rows) ==> {
                    &&& tensor_dims(rows) == seq![
                        batch,
                        seq_len,
                        (count / ((batch * seq_len) as nat)) as usize,
                    ]
                    &&& !has_mask ==> same_order(rows, *answer)
                    &&& has_mask ==> exists|turned: Tensor| #[trigger]
                        is_turned(turned, *answer, 1, 2) && same_order(rows, turned)
                    &&& has_mask ==> forall|h: usize, d: usize|
                        tensor_dims(*answer) == #[trigger] heads_dims(batch, h, seq_len, d)
                            ==> rows_of_heads(rows, *answer, (batch, seq_len, h, d))
                },
            }
        }),
{
    let dims: Vec<usize> = dims_of(answer);
    let count: usize = count_elements(&dims);
    if !has_mask {
        check_rows(count, batch, seq_len)?;
        proof {
            assert(batch * seq_len > 0);
        }
        let width: usize = count / (batch * seq_len);
        proof {
            lemma_width_fits(count, batch, seq_len, width);
        }
        return shaped(answer, &dims3(batch, seq_len, width));
    }
    let turned: Tensor = match transpose(answer, 1, 2) {
        Ok(turned) => turned,
        Err(error) => return Err(tensor_fault(error)),
    };
    check_rows(count, batch, seq_len)?;
    let width: usize = count / (batch * seq_len);
    proof {
        lemma_spread_exchanged(tensor_dims(*answer));
        lemma_elements_exchanged(tensor_dims(*answer));
        lemma_width_fits(count, batch, seq_len, width);
    }
    let rows: Tensor = shaped(&turned, &dims3(batch, seq_len, width))?;
    proof {
        assert(is_turned(turned, *answer, 1, 2) && same_order(rows, turned));
        assert forall|h: usize, d: usize|
            tensor_dims(*answer) == #[trigger] heads_dims(
                batch,
                h,
                seq_len,
                d,
            ) implies rows_of_heads(rows, *answer, (batch, seq_len, h, d)) by {
            assert(exchanged(tensor_dims(*answer), 1, 2) =~= seq![batch, seq_len, h, d]);
            lemma_four_elements(batch, seq_len, h, d);
            assert(tensor_dims(turned) =~= seq![batch, seq_len, h, d]);
            lemma_rows_of_turned(rows, turned, *answer, batch, seq_len, h, d);
        }
    }
    Ok(rows)
}

/// The dimensions of heads that come before their tokens.
pub open spec fn heads_dims(b: usize, h: usize, s: usize, d: usize) -> Seq<usize> {
    seq![b, h, s, d]
}

proof fn lemma_width_fits(count: usize, batch: usize, seq_len: usize, width: usize)
    requires
        batch * seq_len > 0,
        batch * seq_len <= usize::MAX,
        count % (batch * seq_len) as usize == 0,
        width == count / (batch * seq_len) as usize,
    ensures
        countable(seq![batch, seq_len, width]),
        elements(seq![batch, seq_len, width]) == count,
{
    let rows = (batch * seq_len) as int;
    assert(rows * (count as int / rows) == count - count as int % rows) by (nonlinear_arith)
        requires
            rows > 0,
    ;
    assert(batch * seq_len * width == count);
    lemma_spread3(batch, seq_len, width);
    assert(batch > 0 && seq_len > 0) by (nonlinear_arith)
        requires
            batch * seq_len > 0,
            batch >= 0,
            seq_len >= 0,
    ;
    if width == 0 {
        assert(rows * 1 == rows);
    }
    reveal_with_fuel(elements, 4);
    let dims = seq![batch, seq_len, width];
    assert(dims.drop_last() =~= seq![batch, seq_len]);
    assert(dims.drop_last().drop_last() =~= seq![batch]);
    assert(dims.drop_last().drop_last().drop_last() =~= Seq::<usize>::empty());
    assert(1 * (batch as nat) == batch);
}

proof fn lemma_rows_of_turned(
    rows: Tensor,
    turned: Tensor,
    heads: Tensor,
    b: usize,
    s: usize,
    h: usize,
    d: usize,
)
    requires
        h * d <= usize::MAX,
        tensor_dims(rows) == seq![b, s, (h * d) as usize],
        tensor_dims(turned) == seq![b, s, h, d],
        tensor_dims(heads) == seq![b, h, s, d],
        same_order(rows, turned),
        is_turned(turned, heads, 1, 2),
    ensures
        rows_of_heads(rows, heads, (b, s, h, d)),
{
    assert(same_order(turned, rows)) by {
        assert forall|x: Seq<int>, y: Seq<int>|
            in_shape(x, tensor_dims(turned)) && in_shape(y, tensor_dims(rows)) && flat(
                x,
                tensor_dims(turned),
            ) == flat(y, tensor_dims(rows)) implies #[trigger] tensor_cell(turned, x)
            == #[trigger] tensor_cell(rows, y) by {}
    }
    lemma_heads_of_row(turned, rows, b, s, h, d);
    assert forall|i: int, j: int, k: int, e: int|
        0 <= i < b && 0 <= j < s && 0 <= k < h && 0 <= e < d implies #[trigger] tensor_cell(
        heads,
        at4(i, k, j, e),
    ) == tensor_cell(rows, at3(i, j, k * d + e)) by {
        let index = at4(i, j, k, e);
        assert(in_shape(index, tensor_dims(turned)));
        assert(exchanged(index, 1, 2) =~= at4(i, k, j, e));
        assert(tensor_cell(turned, index) == tensor_cell(rows, at3(i, j, k * d + e)));
    }
}

/// Rows that are split into heads and joined again are the rows that they were.
pub proof fn law_split_heads_join_again(
    row: Tensor,
    heads: Tensor,
    rows: Tensor,
    b: usize,
    s: usize,
    h: usize,
    d: usize,
)
    requires
        h * d <= usize::MAX,
        tensor_dims(row) == seq![b, s, (h * d) as usize],
        heads_of_rows(heads, row, (b, s, h, d)),
        rows_of_heads(rows, heads, (b, s, h, d)),
    ensures
        tensor_dims(rows) == tensor_dims(row),
        same_kind(rows, row),
        forall|i: int, j: int, c: int|
            0 <= i < b && 0 <= j < s && 0 <= c < h * d ==> #[trigger] tensor_cell(
                rows,
                at3(i, j, c),
            ) == tensor_cell(row, at3(i, j, c)),
{
    assert forall|i: int, j: int, c: int| 0 <= i < b && 0 <= j < s && 0 <= c < h * d implies #[trigger] tensor_cell(
        rows,
        at3(i, j, c),
    ) == tensor_cell(row, at3(i, j, c)) by {
        let size = d as int;
        let count = h as int;
        assert(size > 0) by (nonlinear_arith)
            requires
                0 <= c < count * size,
                size >= 0,
        ;
        let k = c / size;
        let e = c % size;
        assert(c == k * size + e && 0 <= e < size) by (nonlinear_arith)
            requires
                size > 0,
                k == c / size,
                e == c % size,
        ;
        assert(0 <= k < count) by (nonlinear_arith)
            requires
                size > 0,
                0 <= c < count * size,
                k == c / size,
        ;
        assert(tensor_cell(heads, at4(i, k, j, e)) == tensor_cell(row, at3(i, j, k * d + e)));
        assert(tensor_cell(heads, at4(i, k, j, e)) == tensor_cell(rows, at3(i, j, k * d + e)));
    }
}

/// The head that predicts several tokens runs over a paged cache only.
pub fn explicit_attention_check(has_paged_kernel: bool) -> (r: Result<(), Fault>)
    ensures
        outcome(r) == if has_paged_kernel {
            Ok::<(), Seq<char>>(())
        } else {
            Err("Qwen3Next MTP head requires paged attention"@)
        },
{
    if has_paged_kernel {
        Ok(())
    } else {
        Err(Fault::of("Qwen3Next MTP head requires paged attention"))
    }
}

/// Head `k` of a token takes the elements of its row from `k` times the head size on.
pub proof fn law_heads_lie_side_by_side(
    heads: Tensor,
    row: Tensor,
    sizes: (usize, usize, usize, usize),
    i: int,
    j: int,
    k: int,
    e: int,
)
    requires
        heads_of_rows(heads, row, sizes) || rows_of_heads(row, heads, sizes),
        0 <= i < sizes.0,
        0 <= j < sizes.1,
        0 <= k < sizes.2,
        0 <= e < sizes.3,
    ensures
        same_kind(heads, row) || same_kind(row, heads),
        tensor_cell(heads, seq![i, k, j, e]) == tensor_cell(row, seq![i, j, sizes.3 * k + e]),
{
    let d = sizes.3 as int;
    assert(k * d == d * k) by (nonlinear_arith);
    assert(at4(i, k, j, e) =~= seq![i, k, j, e]);
    assert(at3(i, j, k * d + e) =~= seq![i, j, sizes.3 * k + e]);
    assert(tensor_cell(heads, at4(i, k, j, e)) == tensor_cell(row, at3(i, j, k * d + e)));
}

/// Elements are laid out as rows exactly where there are rows, and each gets as many.
pub proof fn law_rows_are_even(count: nat, batch: usize, seq_len: usize)
    ensures
        rows_check(count, batch, seq_len) is Ok <==> batch * seq_len != 0 && exists|width: nat|
            count == #[trigger] (width * (batch * seq_len)),
{
    let rows = (batch * seq_len) as nat;
    assert(batch * seq_len >= 0) by (nonlinear_arith);
    if rows != 0 {
        vstd::arithmetic::div_mod::lemma_fundamental_div_mod(count as int, rows as int);
        let width = count / rows;
        assert(rows * width == width * rows) by (nonlinear_arith);
        if count % rows == 0 {
            assert(count == width * (batch * seq_len));
        }
        if exists|w: nat| count == #[trigger] (w * (batch * seq_len)) {
            let w = choose|w: nat| count == #[trigger] (w * (batch * seq_len));
            vstd::arithmetic::div_mod::lemma_mod_multiples_basic(w as int, rows as int);
        }
    }
}

} // verus!
