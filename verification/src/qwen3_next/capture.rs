//! Reading captured hidden states and recurrent states.
use candle_core::Tensor;
use vstd::prelude::*;
use vstd::string::*;

use crate::qwen3_next::spec_graph::SpecCapture;
use crate::tensor::{
    at1, at2, at3, can_select, clone_tensor, contiguous, countable, dims_of, end_counts, handy,
    has_entries, in_shape, index_select, lemma_makes2, lemma_spread1, makes_shape, narrow, on_host,
    plain_type, same_kind, selected_dims, squeeze, stack_on_host, stack_rows, tensor_cell, tensor_dims, tensor_fault, tensor_type, tensor_u32,
    to_rows, to_u32, unsqueeze,
};
use crate::text::{dec, decimal, outcome, Fault};

verus! {

/// Hidden states with a dimension for the rows of a sequence, and positions as
/// numbers.
pub struct CaptureView {
    pub hidden: Tensor,
    pub positions: Vec<Vec<u32>>,
}

/// Whether `wide` is a tensor of hidden states with sequences, rows and
/// features. Hidden states without rows have one row.
pub open spec fn is_wide_hidden(wide: Tensor, hidden: Tensor) -> bool {
    let dims = tensor_dims(hidden);
    if dims.len() == 3 {
        wide == hidden
    } else {
        &&& dims.len() == 2
        &&& same_kind(wide, hidden)
        &&& tensor_dims(wide) == seq![dims[0], 1, dims[1]]
        &&& forall|b: int, h: int|
            0 <= b < dims[0] && 0 <= h < dims[1] ==> #[trigger] tensor_cell(wide, at3(b, 0, h))
                == tensor_cell(hidden, at2(b, h))
    }
}

/// Whether `rows` are the numbers of a tensor of two dimensions.
pub open spec fn are_rows(rows: Seq<Vec<u32>>, tensor: Tensor) -> bool {
    &&& tensor_dims(tensor).len() == 2
    &&& rows.len() == tensor_dims(tensor)[0]
    &&& forall|i: int| 0 <= i < rows.len() ==> (#[trigger] rows[i])@.len() == tensor_dims(tensor)[1]
    &&& forall|i: int, j: int|
        0 <= i < rows.len() && 0 <= j < tensor_dims(tensor)[1] ==> #[trigger] rows[i]@[j]
            == tensor_u32(tensor, at2(i, j))
}

fn rank_fault(before: &str, rank: usize) -> (fault: Fault)
    ensures
        fault@ == before@ + dec(rank as nat),
{
    Fault::new(String::from_str(before).concat(decimal(rank as u64).as_str()))
}

/// Whether a capture is refused with a message: that of the rank of its hidden
/// states, or that of the rank of its positions, where these are read without the
/// help of a device.
pub open spec fn is_unreadable(capture: SpecCapture, message: Seq<char>) -> bool {
    let rank = tensor_dims(capture.hidden).len();
    let position_rank = tensor_dims(capture.positions).len();
    if rank != 2 && rank != 3 {
        message == "unexpected MTP hidden rank "@ + dec(rank)
    } else {
        handy(capture.positions) ==> position_rank != 2 && message
            == "unexpected MTP position rank "@ + dec(position_rank)
    }
}

/// Reads a capture. Hidden states have two or three dimensions, and positions
/// two; where the ranks are right, only the device can fail to give the
/// positions.
pub fn capture_view(capture: &SpecCapture) -> (view: Result<CaptureView, Fault>)
    requires
        countable(tensor_dims(capture.positions)),
    ensures
        match view {
            Ok(view) => {
                &&& is_wide_hidden(view.hidden, capture.hidden)
                &&& tensor_dims(view.hidden).len() == 3
                &&& are_rows(view.positions@, capture.positions)
            },
            Err(fault) => is_unreadable(*capture, fault@),
        },
{
    let rank: usize = dims_of(&capture.hidden).len();
    let hidden: Tensor = if rank == 3 {
        clone_tensor(&capture.hidden)
    } else if rank == 2 {
        match unsqueeze(&capture.hidden, 1) {
            Ok(wide) => {
                proof {
                    let dims = tensor_dims(capture.hidden);
                    assert(tensor_dims(wide) =~= seq![dims[0], 1, dims[1]]);
                    assert forall|b: int, h: int|
                        0 <= b < dims[0] && 0 <= h < dims[1] implies #[trigger] tensor_cell(
                        wide,
                        at3(b, 0, h),
                    ) == tensor_cell(capture.hidden, at2(b, h)) by {
                        let index = at3(b, 0, h);
                        assert(in_shape(index, tensor_dims(wide)));
                        assert(index.remove(1) =~= at2(b, h));
                    }
                }
                wide
            },
            Err(error) => return Err(tensor_fault(error)),
        }
    } else {
        return Err(rank_fault("unexpected MTP hidden rank ", rank));
    };
    let positions: Tensor = match to_u32(&capture.positions) {
        Ok(positions) => positions,
        Err(error) => return Err(tensor_fault(error)),
    };
    let position_rank: usize = dims_of(&positions).len();
    if position_rank != 2 {
        return Err(rank_fault("unexpected MTP position rank ", position_rank));
    }
    match to_rows(&positions) {
        Ok(rows) => {
            proof {
                assert forall|i: int, j: int|
                    0 <= i < rows@.len() && 0 <= j < tensor_dims(
                        capture.positions,
                    )[1] implies #[trigger] rows@[i]@[j] == tensor_u32(
                    capture.positions,
                    at2(i, j),
                ) by {
                    assert(in_shape(at2(i, j), tensor_dims(positions)));
                    assert(tensor_u32(positions, at2(i, j)) == tensor_u32(
                        capture.positions,
                        at2(i, j),
                    ));
                }
            }
            Ok(CaptureView { hidden, positions: rows })
        },
        Err(error) => Err(tensor_fault(error)),
    }
}

pub open spec fn position_check(positions: Seq<Vec<u32>>, batch_idx: usize, row: usize) -> Result<
    u32,
    Seq<char>,
> {
    if batch_idx < positions.len() && row < positions[batch_idx as int]@.len() {
        Ok(positions[batch_idx as int]@[row as int])
    } else {
        Err(
            "MTP position ids missing for batch "@ + dec(batch_idx as nat) + " row "@ + dec(
                row as nat,
            ),
        )
    }
}

/// The position of a row of a sequence.
pub fn position_at(positions: &Vec<Vec<u32>>, batch_idx: usize, row: usize) -> (position: Result<
    u32,
    Fault,
>)
    ensures
        outcome(position) == position_check(positions@, batch_idx, row),
{
    if batch_idx < positions.len() && row < positions[batch_idx].len() {
        Ok(positions[batch_idx][row])
    } else {
        Err(
            Fault::new(
                String::from_str("MTP position ids missing for batch ").concat(
                    decimal(batch_idx as u64).as_str(),
                ).concat(" row ").concat(decimal(row as u64).as_str()),
            ),
        )
    }
}

/// Whether `rows` are the rows of a tensor that are listed, in order.
pub open spec fn are_selected(rows: Tensor, source: Tensor, indices: Seq<u32>) -> bool {
    &&& same_kind(rows, source)
    &&& tensor_dims(rows) == tensor_dims(source).update(0, indices.len() as usize)
    &&& forall|index: Seq<int>|
        in_shape(index, tensor_dims(rows)) && indices[index[0]] < tensor_dims(source)[0]
            && indices[index[0]] < u32::MAX ==> #[trigger] tensor_cell(rows, index) == tensor_cell(
            source,
            index.update(0, indices[index[0]] as int),
        )
}

/// The listed rows of a recurrent state. Nothing is said of rows that are not
/// there, nor of row `u32::MAX`: the device decides.
pub fn index_select_replay_rows(source: &Tensor, indices: &Vec<u32>) -> (rows: Result<Tensor, Fault>)
    requires
        countable(tensor_dims(*source)),
        tensor_dims(*source).len() > 0 ==> makes_shape(
            selected_dims(tensor_dims(*source), indices@.len(), 0),
        ),
    ensures
        match rows {
            Ok(rows) => tensor_dims(*source).len() > 0 && are_selected(rows, *source, indices@),
            Err(_) => !(handy(*source) && can_select(tensor_dims(*source), indices@, 0)),
        },
{
    let dense: Tensor = match contiguous(source) {
        Ok(dense) => dense,
        Err(error) => return Err(tensor_fault(error)),
    };
    match index_select(&dense, indices, 0) {
        Ok(rows) => {
            proof {
                assert forall|index: Seq<int>|
                    in_shape(index, tensor_dims(rows)) && indices@[index[0]] < tensor_dims(
                        *source,
                    )[0] && indices@[index[0]] < u32::MAX implies #[trigger] tensor_cell(
                    rows,
                    index,
                ) == tensor_cell(*source, index.update(0, indices@[index[0]] as int)) by {
                    let there = index.update(0, indices@[index[0]] as int);
                    assert(in_shape(there, tensor_dims(*source))) by {
                        assert forall|i: int| 0 <= i < tensor_dims(*source).len() implies 0
                            <= #[trigger] there[i] < tensor_dims(*source)[i] by {
                            assert(0 <= index[i] < tensor_dims(rows)[i]);
                        }
                    }
                    assert(tensor_cell(dense, there) == tensor_cell(*source, there));
                }
            }
            Ok(rows)
        },
        Err(error) => Err(tensor_fault(error)),
    }
}

/// Whether hidden states of three dimensions have a row of a sequence.
pub open spec fn has_row(dims: Seq<usize>, batch_idx: usize, row: usize) -> bool {
    has_entries(dims, 0, batch_idx, 1) && has_entries(dims, 1, row, 1)
}

/// Tests whether the ends of a sequence, and of `count` of its rows from `row` on,
/// can be counted.
pub(crate) fn ends_count(hidden: &Tensor, batch_idx: usize, row: usize, count: usize) -> (counts:
    bool)
    requires
        tensor_dims(*hidden).len() == 3,
    ensures
        counts == (end_counts(tensor_dims(*hidden), 0, batch_idx, 1) && end_counts(
            tensor_dims(*hidden),
            1,
            row,
            count,
        )),
{
    let dims: Vec<usize> = dims_of(hidden);
    (dims[0] != usize::MAX || batch_idx < usize::MAX) && (dims[1] != usize::MAX || row <= usize::MAX
        - count)
}

/// The features of one row of one sequence.
fn gather_row(hidden: &Tensor, batch_idx: usize, row: usize) -> (features: Result<Tensor, Fault>)
    requires
        tensor_dims(*hidden).len() == 3,
    ensures
        match features {
            Ok(features) => {
                let dims = tensor_dims(*hidden);
                &&& has_row(dims, batch_idx, row)
                &&& same_kind(features, *hidden)
                &&& tensor_dims(features) == seq![dims[2]]
                &&& forall|h: int|
                    0 <= h < dims[2] ==> #[trigger] tensor_cell(features, at1(h)) == tensor_cell(
                        *hidden,
                        at3(batch_idx as int, row as int, h),
                    )
            },
            Err(_) => !has_row(tensor_dims(*hidden), batch_idx, row),
        },
{
    let ghost dims = tensor_dims(*hidden);
    if !ends_count(hidden, batch_idx, row, 1) {
        return Err(Fault::of("MTP hidden row is out of range"));
    }
    let sequence: Tensor = match narrow(hidden, 0, batch_idx, 1) {
        Ok(part) => part,
        Err(error) => return Err(tensor_fault(error)),
    };
    assert(tensor_dims(sequence) =~= seq![1usize, dims[1], dims[2]]);
    let one: Tensor = match narrow(&sequence, 1, row, 1) {
        Ok(part) => part,
        Err(error) => return Err(tensor_fault(error)),
    };
    assert(tensor_dims(one) =~= seq![1usize, 1, dims[2]]);
    let thin: Tensor = match squeeze(&one, 0) {
        Ok(part) => part,
        Err(error) => return Err(tensor_fault(error)),
    };
    assert(tensor_dims(thin) =~= seq![1usize, dims[2]]);
    let features: Tensor = match squeeze(&thin, 0) {
        Ok(part) => part,
        Err(error) => return Err(tensor_fault(error)),
    };
    proof {
        assert(tensor_dims(features) =~= seq![dims[2]]);
        assert forall|h: int| 0 <= h < dims[2] implies #[trigger] tensor_cell(
            features,
            at1(h),
        ) == tensor_cell(*hidden, at3(batch_idx as int, row as int, h)) by {
            assert(in_shape(at1(h), tensor_dims(features)));
            assert(at1(h).insert(0, 0) =~= at2(0, h));
            assert(in_shape(at2(0, h), tensor_dims(thin)));
            assert(at2(0, h).insert(0, 0) =~= at3(0, 0, h));
            assert(in_shape(at3(0, 0, h), tensor_dims(one)));
            assert(at3(0, 0, h).update(1, 0 + row as int) =~= at3(0, row as int, h));
            assert(in_shape(at3(0, row as int, h), tensor_dims(sequence)));
            assert(at3(0, row as int, h).update(0, 0 + batch_idx as int) =~= at3(batch_idx as int, row as int, h));
        }
    }
    Ok(features)
}

/// The dimensions of hidden states with sequences, rows and features.
pub open spec fn wide_dims(dims: Seq<usize>) -> Seq<usize> {
    if dims.len() == 3 {
        dims
    } else {
        seq![dims[0], 1, dims[1]]
    }
}

/// Whether the rows are there: each is a row of a sequence of the hidden states.
pub open spec fn rows_are_there(hidden: Tensor, rows: Seq<(usize, usize)>) -> bool {
    forall|k: int|
        0 <= k < rows.len() ==> has_row(
            wide_dims(tensor_dims(hidden)),
            (#[trigger] rows[k]).0,
            rows[k].1,
        )
}

/// The feature `h` of row `s` of sequence `b` of hidden states of two or three
/// dimensions.
pub open spec fn hidden_feature(hidden: Tensor, b: int, s: int, h: int) -> int {
    if tensor_dims(hidden).len() == 3 {
        tensor_cell(hidden, at3(b, s, h))
    } else {
        tensor_cell(hidden, at2(b, h))
    }
}

/// Whether `gathered` holds one row of features for each listed row.
pub open spec fn are_gathered(gathered: Tensor, hidden: Tensor, rows: Seq<(usize, usize)>) -> bool {
    let dims = wide_dims(tensor_dims(hidden));
    &&& same_kind(gathered, hidden)
    &&& tensor_dims(gathered) == seq![rows.len() as usize, dims[2]]
    &&& forall|k: int, h: int|
        0 <= k < rows.len() && 0 <= h < dims[2] ==> #[trigger] tensor_cell(gathered, at2(k, h)) == hidden_feature(
            hidden,
            rows[k].0 as int,
            rows[k].1 as int,
            h,
        )
}

/// Whether a capture has the ranks that it is read with, and positions that are
/// read without the help of a device.
pub open spec fn is_readable(capture: SpecCapture) -> bool {
    let rank = tensor_dims(capture.hidden).len();
    &&& rank == 2 || rank == 3
    &&& tensor_dims(capture.positions).len() == 2
    &&& handy(capture.positions)
}

/// Whether the listed rows are there, and are gathered without the help of a
/// device.
pub open spec fn can_gather(capture: SpecCapture, rows: Seq<(usize, usize)>) -> bool {
    &&& is_readable(capture)
    &&& rows.len() > 0
    &&& rows_are_there(capture.hidden, rows)
    &&& on_host(capture.hidden)
    &&& plain_type(tensor_type(capture.hidden))
    &&& countable(seq![rows.len() as usize, wide_dims(tensor_dims(capture.hidden))[2]])
}

/// The hidden states of the listed rows, each a place in the batch and a row of
/// that sequence. `None` where nothing was captured.
pub fn speculative_target_hiddens(capture: &Option<SpecCapture>, rows: &[(usize, usize)]) -> (gathered:
    Result<Option<Tensor>, Fault>)
    requires
        capture matches Some(capture) ==> countable(tensor_dims(capture.positions)),
    ensures
        match (capture, gathered) {
            (None, Ok(None)) => true,
            (Some(capture), Ok(Some(gathered))) => {
                &&& rows@.len() > 0
                &&& rows_are_there(capture.hidden, rows@)
                &&& are_gathered(gathered, capture.hidden, rows@)
            },
            (Some(capture), Err(fault)) => {
                &&& !can_gather(*capture, rows@)
                &&& is_readable(*capture) || is_unreadable(*capture, fault@)
            },
            _ => false,
        },
{
    let captured: &SpecCapture = match capture {
        Some(captured) => captured,
        None => return Ok(None),
    };
    let view: CaptureView = match capture_view(captured) {
        Ok(view) => view,
        Err(fault) => return Err(fault),
    };
    let hidden: Tensor = view.hidden;
    let ghost dims = tensor_dims(hidden);
    assert(dims =~= wide_dims(tensor_dims(captured.hidden)));
    let mut parts: Vec<Tensor> = Vec::new();
    let mut i: usize = 0;
    while i < rows.len()
        invariant
            i <= rows@.len(),
            capture is Some,
            dims == tensor_dims(hidden),
            dims.len() == 3,
            parts@.len() == i,
            forall|k: int| 0 <= k < i ==> has_row(dims, (#[trigger] rows@[k]).0, rows@[k].1),
            forall|k: int|
                0 <= k < i ==> tensor_dims(#[trigger] parts@[k]) == seq![dims[2]] && same_kind(
                    parts@[k],
                    hidden,
                ),
            same_kind(hidden, captured.hidden),
            tensor_dims(captured.hidden).len() == 2 || tensor_dims(captured.hidden).len() == 3,
            tensor_dims(captured.positions).len() == 2,
            dims == wide_dims(tensor_dims(captured.hidden)),
            *capture == Some(*captured),
            forall|k: int, h: int|
                0 <= k < i && 0 <= h < dims[2] ==> #[trigger] tensor_cell(parts@[k], at1(h)) == tensor_cell(
                    hidden,
                    at3(rows@[k].0 as int, rows@[k].1 as int, h),
                ),
        decreases rows@.len() - i,
    {
        let (batch_idx, row): (usize, usize) = rows[i];
        match gather_row(&hidden, batch_idx, row) {
            Ok(part) => {
                parts.push(part);
            },
            Err(fault) => return Err(fault),
        }
        i = i + 1;
    }
    proof {
        assert forall|k: int| 0 <= k < parts@.len() implies countable(
            tensor_dims(#[trigger] parts@[k]),
        ) by {
            lemma_spread1(dims[2]);
        }
        if parts@.len() > 0 {
            assert(tensor_dims(parts@[0]).insert(0, parts@.len() as usize) =~= seq![
                rows@.len() as usize,
                dims[2],
            ]);
            lemma_makes2(rows@.len() as usize, dims[2]);
        }
        if can_gather(*captured, rows@) {
            assert(same_kind(parts@[0], hidden));
            assert(tensor_dims(parts@[0]).insert(0, parts@.len() as usize) =~= seq![
                rows@.len() as usize,
                dims[2],
            ]);
            assert(stack_on_host(parts@));
        }
    }
    match stack_rows(&parts) {
        Ok(gathered) => {
            proof {
                let source = tensor_dims(captured.hidden);
                assert(tensor_dims(gathered) =~= seq![rows@.len() as usize, dims[2]]);
                assert(dims =~= wide_dims(source));
                assert forall|k: int, h: int|
                    0 <= k < rows@.len() && 0 <= h < dims[2] implies #[trigger] tensor_cell(
                    gathered,
                    at2(k, h),
                ) == hidden_feature(
                    captured.hidden,
                    rows@[k].0 as int,
                    rows@[k].1 as int,
                    h,
                ) by {
                    assert(in_shape(at1(h), tensor_dims(parts@[k])));
                    assert(at1(h).insert(0, k) =~= at2(k, h));
                    assert(tensor_cell(parts@[k], at1(h)) == tensor_cell(
                        hidden,
                        at3(rows@[k].0 as int, rows@[k].1 as int, h),
                    ));
                    let there = at3(rows@[k].0 as int, rows@[k].1 as int, h);
                    if source.len() == 3 {
                        assert(in_shape(there, source));
                        assert(tensor_cell(hidden, there) == tensor_cell(captured.hidden, there));
                    } else {
                        assert(rows@[k].1 == 0);
                        assert(there =~= at3(rows@[k].0 as int, 0, h));
                    }
                }
            }
            Ok(Some(gathered))
        },
        Err(error) => Err(tensor_fault(error)),
    }
}

/// A listed row is gathered from its sequence: the first number is the place in the batch,
/// and the second the row. Hidden states without rows have one, of number 0.
pub proof fn law_gathered_rows_are_those_listed(
    gathered: Tensor,
    hidden: Tensor,
    rows: Seq<(usize, usize)>,
    k: int,
    h: int,
)
    requires
        are_gathered(gathered, hidden, rows),
        rows_are_there(hidden, rows),
        rows.len() <= usize::MAX,
        0 <= k < rows.len(),
    ensures
        tensor_dims(gathered).len() == 2 && tensor_dims(gathered)[0] == rows.len(),
        tensor_dims(hidden).len() == 3 ==> {
            &&& rows[k].0 < tensor_dims(hidden)[0]
            &&& rows[k].1 < tensor_dims(hidden)[1]
            &&& tensor_dims(gathered)[1] == tensor_dims(hidden)[2]
            &&& 0 <= h < tensor_dims(hidden)[2] ==> tensor_cell(gathered, at2(k, h))
                == tensor_cell(hidden, at3(rows[k].0 as int, rows[k].1 as int, h))
        },
        tensor_dims(hidden).len() == 2 ==> {
            &&& rows[k].0 < tensor_dims(hidden)[0]
            &&& rows[k].1 == 0
            &&& tensor_dims(gathered)[1] == tensor_dims(hidden)[1]
            &&& 0 <= h < tensor_dims(hidden)[1] ==> tensor_cell(gathered, at2(k, h))
                == tensor_cell(hidden, at2(rows[k].0 as int, h))
        },
{
    assert(has_row(wide_dims(tensor_dims(hidden)), rows[k].0, rows[k].1));
}

/// A position is that of a row of a sequence, where both are there.
pub proof fn law_positions_are_of_rows(positions: Seq<Vec<u32>>, batch_idx: usize, row: usize)
    ensures
        position_check(positions, batch_idx, row) is Ok <==> batch_idx < positions.len() && row
            < positions[batch_idx as int]@.len(),
        position_check(positions, batch_idx, row) matches Ok(position) ==> position
            == positions[batch_idx as int]@[row as int],
{
}

/// A selected row is the one that is listed in its place.
pub proof fn law_selected_rows_are_those_listed(
    rows: Tensor,
    source: Tensor,
    indices: Seq<u32>,
    k: int,
    there: Seq<int>,
)
    requires
        are_selected(rows, source, indices),
        tensor_dims(source).len() > 0,
        0 <= k < indices.len() <= usize::MAX,
        indices[k] < u32::MAX,
        in_shape(there, tensor_dims(source)),
        there[0] == indices[k],
    ensures
        tensor_dims(rows)[0] == indices.len(),
        tensor_cell(rows, there.update(0, k)) == tensor_cell(source, there),
{
    let index = there.update(0, k);
    assert forall|i: int| 0 <= i < tensor_dims(rows).len() implies 0 <= #[trigger] index[i]
        < tensor_dims(rows)[i] by {
        if i > 0 {
            assert(0 <= there[i] < tensor_dims(source)[i]);
        }
    }
    assert(in_shape(index, tensor_dims(rows)));
    assert(0 <= there[0] < tensor_dims(source)[0]);
    assert(index.update(0, indices[index[0]] as int) =~= there);
}

/// A capture is read exactly where its ranks are right, and refused for that of its hidden
/// states before that of its positions, as far as no device is asked.
pub proof fn law_ranks_are_read(capture: SpecCapture, message: Seq<char>)
    requires
        handy(capture.positions),
    ensures
        is_readable(capture) ==> !is_unreadable(capture, message),
        tensor_dims(capture.hidden).len() != 2 && tensor_dims(capture.hidden).len() != 3
            && is_unreadable(capture, message) ==> message == "unexpected MTP hidden rank "@ + dec(
            tensor_dims(capture.hidden).len(),
        ),
        (tensor_dims(capture.hidden).len() == 2 || tensor_dims(capture.hidden).len() == 3)
            && tensor_dims(capture.positions).len() != 2 && is_unreadable(capture, message)
            ==> message == "unexpected MTP position rank "@ + dec(
            tensor_dims(capture.positions).len(),
        ),
{
}

/// Hidden states are read with a dimension for rows: as they are where they have one, and
/// with a single row where they have none.
pub proof fn law_hidden_states_have_rows(wide: Tensor, hidden: Tensor, b: int, h: int)
    requires
        is_wide_hidden(wide, hidden),
    ensures
        tensor_dims(hidden).len() == 3 ==> wide == hidden,
        tensor_dims(hidden).len() == 2 ==> {
            &&& tensor_dims(wide) == seq![tensor_dims(hidden)[0], 1, tensor_dims(hidden)[1]]
            &&& 0 <= b < tensor_dims(hidden)[0] && 0 <= h < tensor_dims(hidden)[1]
                ==> tensor_cell(wide, seq![b, 0, h]) == tensor_cell(hidden, seq![b, h])
        },
{
    assert(at3(b, 0, h) =~= seq![b, 0, h]);
    assert(at2(b, h) =~= seq![b, h]);
    if tensor_dims(hidden).len() == 2 && 0 <= b < tensor_dims(hidden)[0] && 0 <= h < tensor_dims(
        hidden,
    )[1] {
        assert(tensor_cell(wide, at3(b, 0, h)) == tensor_cell(hidden, at2(b, h)));
    }
}

/// Rows that are there are gathered from any capture that the host holds.
pub proof fn law_rows_are_gathered_on_the_host(capture: SpecCapture, rows: Seq<(usize, usize)>)
    requires
        tensor_dims(capture.hidden).len() == 3,
        tensor_dims(capture.positions).len() == 2,
        handy(capture.positions),
        on_host(capture.hidden),
        plain_type(tensor_type(capture.hidden)),
        rows.len() > 0,
        countable(seq![rows.len() as usize, tensor_dims(capture.hidden)[2]]),
        forall|k: int|
            0 <= k < rows.len() ==> (#[trigger] rows[k]).0 < tensor_dims(capture.hidden)[0]
                && rows[k].1 < tensor_dims(capture.hidden)[1],
    ensures
        can_gather(capture, rows),
{
    assert forall|k: int| 0 <= k < rows.len() implies has_row(
        wide_dims(tensor_dims(capture.hidden)),
        (#[trigger] rows[k]).0,
        rows[k].1,
    ) by {
        assert(rows[k].0 < tensor_dims(capture.hidden)[0]);
    }
}

} // verus!
