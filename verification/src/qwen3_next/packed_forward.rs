//! A linear-attention layer over sequences that are packed one after another:
//! the tokens and states of each sequence, and what is made of the answers.
use candle_core::Tensor;
use std::ops::Range;
use vstd::prelude::*;

use crate::paged::info::{check_rank, rank_check};
use crate::qwen3_next::packed::{
    law_segments_partition_tokens, lemma_lengths_hold, packed_gdn_segments, segment_at, segments,
    segments_refusal, state_rows_refusal, tokens_before, validate_packed_gdn_state_rows,
    PackedGdnSegment, RecurrentBatchKind,
};
use crate::tensor::{
    all_count, all_span, can_join, cat, countable, dims_of, in_shape, is_joined, is_narrowed,
    join_on_host, joined_entries, narrow, on_one_device, same_device, same_kind, shape_is_made,
    tensor_cell, tensor_counts, tensor_dims, tensor_fault, tensor_type, type_of,
};
use crate::text::{answer, same_text, Fault, Refusal};

verus! {

/// What a layer reads of one sequence: its tokens, where they stand in the pack,
/// and its states.
pub struct PackedPiece {
    pub token_range: Range<usize>,
    pub tokens: Tensor,
    pub conv_state: Tensor,
    pub recurrent_state: Tensor,
}

pub open spec fn packed_refusal(
    batch_kind: RecurrentBatchKind,
    query_lens: Seq<usize>,
    tokens: Tensor,
    conv_state: Tensor,
    recurrent_state: Tensor,
) -> Refusal {
    let dims = tensor_dims(tokens);
    let conv = tensor_dims(conv_state);
    let recurrent = tensor_dims(recurrent_state);
    Refusal::none().unless(
        batch_kind == RecurrentBatchKind::Prefill,
        "Qwen3-Next packed GDN cannot run a decode batch"@,
    ).or(rank_check(3, dims)).or(rank_check(3, conv)).or(rank_check(4, recurrent)).or(
        answer(segments_refusal(dims[0], dims[1], query_lens), ()),
    ).or(answer(state_rows_refusal(query_lens.len() as usize, conv[0], recurrent[0]), ())).unless(
        tensor_type(tokens) == tensor_type(conv_state),
        "Qwen3-Next packed GDN dtype mismatch: tokens are "@ + tensor_type(tokens)
            + ", convolution state is "@ + tensor_type(conv_state),
    ).unless(
        on_one_device(tokens, conv_state) && on_one_device(tokens, recurrent_state),
        "Qwen3-Next packed GDN tokens and recurrent states are on different devices"@,
    )
}

/// Whether piece `k` holds the tokens of sequence `k` and its states.
pub open spec fn piece_is(
    piece: PackedPiece,
    k: int,
    query_lens: Seq<usize>,
    tokens: Tensor,
    conv_state: Tensor,
    recurrent_state: Tensor,
) -> bool {
    &&& piece.token_range == segment_at(query_lens, k).token_range
    &&& is_narrowed(piece.tokens, tokens, 1, tokens_before(query_lens, k) as usize, query_lens[k])
    &&& is_narrowed(piece.conv_state, conv_state, 0, k as usize, 1)
    &&& is_narrowed(piece.recurrent_state, recurrent_state, 0, k as usize, 1)
}

pub open spec fn pieces_are(
    pieces: Seq<PackedPiece>,
    query_lens: Seq<usize>,
    tokens: Tensor,
    conv_state: Tensor,
    recurrent_state: Tensor,
) -> bool {
    &&& pieces.len() == query_lens.len()
    &&& forall|k: int|
        0 <= k < pieces.len() ==> piece_is(
            #[trigger] pieces[k],
            k,
            query_lens,
            tokens,
            conv_state,
            recurrent_state,
        )
}

/// The entries of a dimension that are known to be there.
fn take_entries(tensor: &Tensor, dim: usize, start: usize, len: usize) -> (part: Result<
    Tensor,
    Fault,
>)
    requires
        dim < tensor_dims(*tensor).len(),
        start + len <= tensor_dims(*tensor)[dim as int],
    ensures
        part matches Ok(part) && is_narrowed(part, *tensor, dim as int, start, len),
{
    match narrow(tensor, dim, start, len) {
        Ok(part) => Ok(part),
        Err(error) => Err(tensor_fault(error)),
    }
}

/// The tokens and the states of each packed sequence.
pub fn split_packed(
    batch_kind: RecurrentBatchKind,
    query_lens: &[usize],
    tokens: &Tensor,
    conv_state: &Tensor,
    recurrent_state: &Tensor,
) -> (pieces: Result<Vec<PackedPiece>, Fault>)
    ensures
        ({
            let refusal = packed_refusal(
                batch_kind,
                query_lens@,
                *tokens,
                *conv_state,
                *recurrent_state,
            );
            match pieces {
                Ok(pieces) => refusal.message is None && pieces_are(
                    pieces@,
                    query_lens@,
                    *tokens,
                    *conv_state,
                    *recurrent_state,
                ),
                Err(fault) => refusal.message == Some(fault@),
            }
        }),
{
    let ghost lens = query_lens@;
    if batch_kind != RecurrentBatchKind::Prefill {
        return Err(Fault::of("Qwen3-Next packed GDN cannot run a decode batch"));
    }
    let dims: Vec<usize> = dims_of(tokens);
    let conv: Vec<usize> = dims_of(conv_state);
    let recurrent: Vec<usize> = dims_of(recurrent_state);
    check_rank(3, &dims)?;
    check_rank(3, &conv)?;
    check_rank(4, &recurrent)?;
    let split: Vec<PackedGdnSegment> = packed_gdn_segments(dims[0], dims[1], query_lens)?;
    assert(split@ == segments(lens));
    validate_packed_gdn_state_rows(split.len(), conv[0], recurrent[0])?;
    let tokens_type: String = type_of(tokens);
    let conv_type: String = type_of(conv_state);
    if !same_text(tokens_type.as_str(), conv_type.as_str()) {
        return Err(
            Fault::new(
                String::from_str("Qwen3-Next packed GDN dtype mismatch: tokens are ").concat(
                    tokens_type.as_str(),
                ).concat(", convolution state is ").concat(conv_type.as_str()),
            ),
        );
    }
    if !same_device(tokens, conv_state) || !same_device(tokens, recurrent_state) {
        return Err(
            Fault::of("Qwen3-Next packed GDN tokens and recurrent states are on different devices"),
        );
    }
    proof {
        law_segments_partition_tokens(dims@[0], dims@[1], lens);
    }
    let ghost physical = dims@[1];
    let mut pieces: Vec<PackedPiece> = Vec::new();
    let mut i: usize = 0;
    while i < split.len()
        invariant
            i <= split@.len(),
            lens == query_lens@,
            split@ == segments(lens),
            split@.len() == lens.len(),
            tensor_dims(*tokens).len() == 3,
            tensor_dims(*tokens)[1] == physical,
            tensor_dims(*conv_state).len() == 3,
            tensor_dims(*conv_state)[0] == lens.len(),
            tensor_dims(*recurrent_state).len() == 4,
            tensor_dims(*recurrent_state)[0] == lens.len(),
            forall|k: int|
                0 <= k < split@.len() ==> {
                    &&& (#[trigger] split@[k]).state_index == k
                    &&& split@[k].token_range.start < split@[k].token_range.end <= physical
                    &&& split@[k].token_range.end - split@[k].token_range.start == lens[k]
                },
            packed_refusal(
                batch_kind,
                lens,
                *tokens,
                *conv_state,
                *recurrent_state,
            ).message is None,
            pieces@.len() == i,
            forall|k: int|
                0 <= k < i ==> piece_is(
                    #[trigger] pieces@[k],
                    k,
                    lens,
                    *tokens,
                    *conv_state,
                    *recurrent_state,
                ),
        decreases split@.len() - i,
    {
        let start: usize = split[i].token_range.start;
        let end: usize = split[i].token_range.end;
        let row: usize = split[i].state_index;
        assert(split@[i as int] == segment_at(lens, i as int));
        let piece: PackedPiece = PackedPiece {
            token_range: Range { start, end },
            tokens: take_entries(tokens, 1, start, end - start)?,
            conv_state: take_entries(conv_state, 0, row, 1)?,
            recurrent_state: take_entries(recurrent_state, 0, row, 1)?,
        };
        pieces.push(piece);
        i = i + 1;
    }
    Ok(pieces)
}

/// What a layer makes of all sequences together.
pub struct PackedResult {
    pub output: Tensor,
    pub conv_state: Tensor,
    pub recurrent_state: Tensor,
}

/// Whether a tensor is what others make in dimension `dim`: a single one as it
/// is, and several joined.
pub open spec fn is_whole(whole: Tensor, tensors: Seq<Tensor>, dim: usize) -> bool {
    &&& tensors.len() > 0
    &&& tensors.len() == 1 ==> whole == tensors[0]
    &&& tensors.len() > 1 ==> all_span(tensors, dim)
    &&& all_span(tensors, dim) ==> is_joined(whole, tensors, dim as int)
}

/// Whether tensors are joined without the help of a device.
pub open spec fn joins_alone(tensors: Seq<Tensor>, dim: usize) -> bool {
    tensors.len() == 1 || join_on_host(tensors, dim)
}

fn join(tensors: &Vec<Tensor>, dim: usize) -> (whole: Result<Tensor, Fault>)
    requires
        can_join(tensors@, dim),
    ensures
        tensors@.len() == 0 ==> whole is Err,
        tensors@.len() == 1 ==> (whole matches Ok(whole) && whole == tensors@[0]),
        tensors@.len() > 1 && !all_span(tensors@, dim) ==> whole is Err,
        joins_alone(tensors@, dim) ==> whole is Ok,
        whole matches Ok(whole) ==> all_span(tensors@, dim) ==> is_joined(
            whole,
            tensors@,
            dim as int,
        ),
{
    match cat(tensors, dim) {
        Ok(whole) => Ok(whole),
        Err(error) => Err(tensor_fault(error)),
    }
}

fn all_do_count(tensors: &Vec<Tensor>) -> (count: bool)
    ensures
        count == all_count(tensors@),
{
    let mut i: usize = 0;
    while i < tensors.len()
        invariant
            i <= tensors@.len(),
            forall|k: int| 0 <= k < i ==> countable(tensor_dims(#[trigger] tensors@[k])),
        decreases tensors@.len() - i,
    {
        if !tensor_counts(&tensors[i]) {
            assert(!countable(tensor_dims(tensors@[i as int])));
            return false;
        }
        i = i + 1;
    }
    true
}

/// Whether the elements of the tensors can be counted, and so can what they make.
pub fn join_fits(tensors: &Vec<Tensor>, dim: usize) -> (fits: bool)
    ensures
        fits == can_join(tensors@, dim),
{
    if !all_do_count(tensors) {
        return false;
    }
    if tensors.len() == 0 {
        return true;
    }
    let mut sum: usize = 0;
    let mut i: usize = 0;
    let mut overflows: bool = false;
    while i < tensors.len()
        invariant
            i <= tensors@.len(),
            all_count(tensors@),
            forall|k: int| 0 <= k < i ==> dim < tensor_dims(#[trigger] tensors@[k]).len(),
            overflows == (joined_entries(tensors@, dim as int, i as int) > usize::MAX),
            !overflows ==> sum == joined_entries(tensors@, dim as int, i as int),
        decreases tensors@.len() - i,
    {
        let dims: Vec<usize> = dims_of(&tensors[i]);
        if dim >= dims.len() {
            assert(dim >= tensor_dims(tensors@[i as int]).len());
            return true;
        }
        if !overflows {
            match sum.checked_add(dims[dim]) {
                Some(more) => {
                    sum = more;
                },
                None => {
                    overflows = true;
                },
            }
        }
        i = i + 1;
    }
    if overflows {
        return false;
    }
    let mut whole: Vec<usize> = dims_of(&tensors[0]);
    assert(dim < tensor_dims(tensors@[0]).len());
    whole.set(dim, sum);
    shape_is_made(&whole)
}

/// Puts what a layer made of each sequence together again: the outputs one after
/// another as tokens, and the states one after another as rows.
pub fn join_packed(outputs: &Vec<Tensor>, conv_states: &Vec<Tensor>, recurrent_states: &Vec<Tensor>) -> (joined:
    Result<PackedResult, Fault>)
    requires
        can_join(conv_states@, 0),
        can_join(recurrent_states@, 0),
        can_join(outputs@, 1),
    ensures
        outputs@.len() == 0 || conv_states@.len() == 0 || recurrent_states@.len() == 0
            ==> joined is Err,
        joins_alone(outputs@, 1) && joins_alone(conv_states@, 0) && joins_alone(recurrent_states@, 0)
            ==> joined is Ok,
        joined matches Ok(joined) ==> {
            &&& is_whole(joined.output, outputs@, 1)
            &&& is_whole(joined.conv_state, conv_states@, 0)
            &&& is_whole(joined.recurrent_state, recurrent_states@, 0)
        },
{
    let conv_state: Tensor = join(conv_states, 0)?;
    let recurrent_state: Tensor = join(recurrent_states, 0)?;
    let output: Tensor = join(outputs, 1)?;
    Ok(PackedResult { output, conv_state, recurrent_state })
}

// Nothing is lost between the split and the join.

pub open spec fn piece_tokens(pieces: Seq<PackedPiece>) -> Seq<Tensor> {
    pieces.map_values(|piece: PackedPiece| piece.tokens)
}

pub open spec fn piece_conv_states(pieces: Seq<PackedPiece>) -> Seq<Tensor> {
    pieces.map_values(|piece: PackedPiece| piece.conv_state)
}

pub open spec fn piece_recurrent_states(pieces: Seq<PackedPiece>) -> Seq<Tensor> {
    pieces.map_values(|piece: PackedPiece| piece.recurrent_state)
}

/// Whether two tensors have one shape and the same bits.
pub open spec fn same_cells(a: Tensor, b: Tensor) -> bool {
    &&& same_kind(a, b)
    &&& tensor_dims(a) == tensor_dims(b)
    &&& forall|index: Seq<int>|
        in_shape(index, tensor_dims(b)) ==> #[trigger] tensor_cell(a, index) == tensor_cell(
            b,
            index,
        )
}

/// Whether the parts are the entries of dimension `dim` of `whole`, cut at the
/// places that `starts` gives.
spec fn cuts(parts: Seq<Tensor>, whole: Tensor, dim: int, starts: spec_fn(int) -> int) -> bool {
    &&& 0 <= dim < tensor_dims(whole).len()
    &&& parts.len() > 0
    &&& starts(0) == 0
    &&& starts(parts.len() as int) == tensor_dims(whole)[dim]
    &&& forall|k: int|
        0 <= k < parts.len() ==> {
            &&& 0 <= #[trigger] starts(k) <= starts(k + 1) <= tensor_dims(whole)[dim]
            &&& is_narrowed(
                parts[k],
                whole,
                dim,
                starts(k) as usize,
                (starts(k + 1) - starts(k)) as usize,
            )
        }
}

proof fn lemma_joined_starts(
    parts: Seq<Tensor>,
    whole: Tensor,
    dim: int,
    starts: spec_fn(int) -> int,
    n: int,
)
    requires
        cuts(parts, whole, dim, starts),
        0 <= n <= parts.len(),
    ensures
        joined_entries(parts, dim, n) == starts(n),
    decreases n,
{
    if n > 0 {
        lemma_joined_starts(parts, whole, dim, starts, n - 1);
        assert(starts(n - 1) <= starts(n - 1 + 1));
    }
}

/// The part that holds an entry.
proof fn lemma_find_part(
    parts: Seq<Tensor>,
    whole: Tensor,
    dim: int,
    starts: spec_fn(int) -> int,
    entry: int,
    n: int,
) -> (k: int)
    requires
        cuts(parts, whole, dim, starts),
        0 < n <= parts.len(),
        0 <= entry < starts(n),
    ensures
        0 <= k < n,
        starts(k) <= entry < starts(k + 1),
    decreases n,
{
    if starts(n - 1) <= entry {
        n - 1
    } else {
        if n == 1 {
            assert(false);
        }
        lemma_find_part(parts, whole, dim, starts, entry, n - 1)
    }
}

proof fn lemma_cut_and_joined(
    parts: Seq<Tensor>,
    whole: Tensor,
    again: Tensor,
    dim: int,
    starts: spec_fn(int) -> int,
)
    requires
        cuts(parts, whole, dim, starts),
        is_joined(again, parts, dim),
    ensures
        same_cells(again, whole),
{
    let n = parts.len() as int;
    lemma_joined_starts(parts, whole, dim, starts, n);
    assert(0 <= starts(0));
    assert(same_kind(parts[0], whole));
    assert(tensor_dims(again) =~= tensor_dims(whole));
    assert forall|index: Seq<int>| in_shape(index, tensor_dims(whole)) implies #[trigger] tensor_cell(
        again,
        index,
    ) == tensor_cell(whole, index) by {
        let entry = index[dim];
        let k = lemma_find_part(parts, whole, dim, starts, entry, n);
        lemma_joined_starts(parts, whole, dim, starts, k);
        let inner = index.update(dim, entry - starts(k));
        assert forall|i: int| 0 <= i < tensor_dims(parts[k]).len() implies 0 <= #[trigger] inner[i]
            < tensor_dims(parts[k])[i] by {
            if i != dim {
                assert(inner[i] == index[i]);
            }
        }
        assert(in_shape(inner, tensor_dims(parts[k])));
        assert(inner.update(dim, inner[dim] + starts(k)) =~= index);
        assert(inner.update(dim, inner[dim] + joined_entries(parts, dim, k)) =~= index);
        assert(tensor_cell(parts[k], inner) == tensor_cell(whole, index));
    }
}

#[verifier::rlimit(40)]
proof fn lemma_tokens_are_cut(
    query_lens: Seq<usize>,
    tokens: Tensor,
    conv_state: Tensor,
    recurrent_state: Tensor,
    pieces: Seq<PackedPiece>,
)
    requires
        tensor_dims(tokens).len() == 3,
        segments_refusal(tensor_dims(tokens)[0], tensor_dims(tokens)[1], query_lens).message
            is None,
        pieces_are(pieces, query_lens, tokens, conv_state, recurrent_state),
    ensures
        cuts(piece_tokens(pieces), tokens, 1, |k: int| tokens_before(query_lens, k) as int),
{
    let starts = |k: int| tokens_before(query_lens, k) as int;
    let n = query_lens.len() as int;
    let parts = piece_tokens(pieces);
    assert forall|k: int| 0 <= k < parts.len() implies {
        &&& 0 <= #[trigger] starts(k) <= starts(k + 1) <= tensor_dims(tokens)[1]
        &&& is_narrowed(
            parts[k],
            tokens,
            1,
            starts(k) as usize,
            (starts(k + 1) - starts(k)) as usize,
        )
    } by {
        lemma_lengths_hold(query_lens, n, k);
        assert(piece_is(pieces[k], k, query_lens, tokens, conv_state, recurrent_state));
        assert(starts(k + 1) - starts(k) == query_lens[k]);
    }
}

proof fn lemma_rows_are_cut(parts: Seq<Tensor>, whole: Tensor)
    requires
        0 < parts.len() <= usize::MAX,
        tensor_dims(whole).len() > 0,
        tensor_dims(whole)[0] == parts.len(),
        forall|k: int|
            0 <= k < parts.len() ==> is_narrowed(#[trigger] parts[k], whole, 0, k as usize, 1),
    ensures
        cuts(parts, whole, 0, |k: int| k),
{
    let starts = |k: int| k;
    assert forall|k: int| 0 <= k < parts.len() implies {
        &&& 0 <= #[trigger] starts(k) <= starts(k + 1) <= tensor_dims(whole)[0]
        &&& is_narrowed(
            parts[k],
            whole,
            0,
            starts(k) as usize,
            (starts(k + 1) - starts(k)) as usize,
        )
    } by {
        assert(is_narrowed(parts[k], whole, 0, k as usize, 1));
    }
}

/// Putting the pieces together again, as they are, gives back the tokens and the
/// states that were split.
pub proof fn law_packed_pieces_join_to_the_whole(
    batch_kind: RecurrentBatchKind,
    query_lens: Seq<usize>,
    tokens: Tensor,
    conv_state: Tensor,
    recurrent_state: Tensor,
    pieces: Seq<PackedPiece>,
    joined: PackedResult,
)
    requires
        packed_refusal(
            batch_kind,
            query_lens,
            tokens,
            conv_state,
            recurrent_state,
        ).message is None,
        query_lens.len() <= usize::MAX,
        pieces_are(pieces, query_lens, tokens, conv_state, recurrent_state),
        is_joined(joined.output, piece_tokens(pieces), 1),
        is_joined(joined.conv_state, piece_conv_states(pieces), 0),
        is_joined(joined.recurrent_state, piece_recurrent_states(pieces), 0),
    ensures
        same_cells(joined.output, tokens),
        same_cells(joined.conv_state, conv_state),
        same_cells(joined.recurrent_state, recurrent_state),
{
    let parts = piece_tokens(pieces);
    let conv = piece_conv_states(pieces);
    let recurrent = piece_recurrent_states(pieces);
    assert(tensor_dims(tokens).len() == 3);
    lemma_tokens_are_cut(query_lens, tokens, conv_state, recurrent_state, pieces);
    lemma_cut_and_joined(
        parts,
        tokens,
        joined.output,
        1,
        |k: int| tokens_before(query_lens, k) as int,
    );
    assert forall|k: int| 0 <= k < conv.len() implies is_narrowed(
        #[trigger] conv[k],
        conv_state,
        0,
        k as usize,
        1,
    ) by {
        assert(piece_is(pieces[k], k, query_lens, tokens, conv_state, recurrent_state));
    }
    assert forall|k: int| 0 <= k < recurrent.len() implies is_narrowed(
        #[trigger] recurrent[k],
        recurrent_state,
        0,
        k as usize,
        1,
    ) by {
        assert(piece_is(pieces[k], k, query_lens, tokens, conv_state, recurrent_state));
    }
    lemma_rows_are_cut(conv, conv_state);
    lemma_rows_are_cut(recurrent, recurrent_state);
    lemma_cut_and_joined(conv, conv_state, joined.conv_state, 0, |k: int| k);
    lemma_cut_and_joined(recurrent, recurrent_state, joined.recurrent_state, 0, |k: int| k);
}

/// A pack is split exactly where it is a prefill whose tokens have three dimensions and
/// whose states have three and four, its row splits into its sequences, there is a row
/// of each state for each sequence, tokens and convolution states have one type, and all
/// are on one device.
pub proof fn law_packs_are_split(
    batch_kind: RecurrentBatchKind,
    query_lens: Seq<usize>,
    tokens: Tensor,
    conv_state: Tensor,
    recurrent_state: Tensor,
)
    requires
        query_lens.len() <= usize::MAX,
    ensures
        packed_refusal(batch_kind, query_lens, tokens, conv_state, recurrent_state).message is None
            <==> {
            &&& batch_kind == RecurrentBatchKind::Prefill
            &&& tensor_dims(tokens).len() == 3
            &&& tensor_dims(conv_state).len() == 3
            &&& tensor_dims(recurrent_state).len() == 4
            &&& segments_refusal(
                tensor_dims(tokens)[0],
                tensor_dims(tokens)[1],
                query_lens,
            ).message is None
            &&& tensor_dims(conv_state)[0] == query_lens.len()
            &&& tensor_dims(recurrent_state)[0] == query_lens.len()
            &&& tensor_type(tokens) == tensor_type(conv_state)
            &&& on_one_device(tokens, conv_state)
            &&& on_one_device(tokens, recurrent_state)
        },
{
}

/// Piece `k` holds the tokens of sequence `k`, which stand behind those of the sequences
/// before it, and row `k` of each state.
pub proof fn law_pieces_hold_their_sequences(
    batch_kind: RecurrentBatchKind,
    query_lens: Seq<usize>,
    tokens: Tensor,
    conv_state: Tensor,
    recurrent_state: Tensor,
    pieces: Seq<PackedPiece>,
    k: int,
    index: Seq<int>,
)
    requires
        packed_refusal(
            batch_kind,
            query_lens,
            tokens,
            conv_state,
            recurrent_state,
        ).message is None,
        query_lens.len() <= usize::MAX,
        pieces_are(pieces, query_lens, tokens, conv_state, recurrent_state),
        0 <= k < query_lens.len(),
    ensures
        ({
            let start = tokens_before(query_lens, k) as int;
            let piece = pieces[k];
            &&& pieces.len() == query_lens.len()
            &&& piece.token_range.start == start
            &&& piece.token_range.end == start + query_lens[k]
            &&& tensor_dims(piece.tokens)[1] == query_lens[k]
            &&& in_shape(index, tensor_dims(piece.tokens)) ==> tensor_cell(piece.tokens, index)
                == tensor_cell(tokens, index.update(1, index[1] + start))
            &&& in_shape(index, tensor_dims(piece.conv_state)) ==> index[0] == 0 && tensor_cell(
                piece.conv_state,
                index,
            ) == tensor_cell(conv_state, index.update(0, k))
            &&& in_shape(index, tensor_dims(piece.recurrent_state)) ==> index[0] == 0
                && tensor_cell(piece.recurrent_state, index) == tensor_cell(
                recurrent_state,
                index.update(0, k),
            )
        }),
{
    let n = query_lens.len() as int;
    assert(piece_is(pieces[k], k, query_lens, tokens, conv_state, recurrent_state));
    lemma_lengths_hold(query_lens, n, k);
    assert(tensor_dims(tokens).len() == 3 && tensor_dims(conv_state).len() == 3);
    assert(tensor_dims(recurrent_state).len() == 4);
    if in_shape(index, tensor_dims(pieces[k].conv_state)) {
        assert(0 <= index[0] < tensor_dims(pieces[k].conv_state)[0]);
        assert(index.update(0, index[0] + k as usize) =~= index.update(0, k));
    }
    if in_shape(index, tensor_dims(pieces[k].recurrent_state)) {
        assert(0 <= index[0] < tensor_dims(pieces[k].recurrent_state)[0]);
        assert(index.update(0, index[0] + k as usize) =~= index.update(0, k));
    }
}

/// What is made of several sequences holds what was made of each, behind those before.
pub proof fn law_wholes_hold_their_parts(
    whole: Tensor,
    tensors: Seq<Tensor>,
    dim: usize,
    k: int,
    index: Seq<int>,
)
    requires
        is_whole(whole, tensors, dim),
        all_span(tensors, dim),
        0 <= k < tensors.len(),
        in_shape(index, tensor_dims(tensors[k])),
    ensures
        tensor_cell(
            whole,
            index.update(dim as int, index[dim as int] + joined_entries(tensors, dim as int, k)),
        ) == tensor_cell(tensors[k], index),
        tensors.len() == 1 ==> whole == tensors[0],
{
}

/// A single tensor is joined anywhere, and several on the host where they are of one type,
/// differ in the dimension at most, and make a tensor that can be counted.
pub proof fn law_parts_are_joined_on_the_host(tensors: Seq<Tensor>, dim: usize)
    ensures
        tensors.len() == 1 ==> joins_alone(tensors, dim),
        join_on_host(tensors, dim) ==> joins_alone(tensors, dim),
        tensors.len() == 0 ==> !joins_alone(tensors, dim),
{
}

} // verus!
