//! The rows that the head reads before it drafts, and the drafting itself.
use candle_core::Tensor;
use std::collections::HashMap;
use vstd::prelude::*;

use crate::qwen3_next::capture::{ends_count, position_at, position_check};
use crate::qwen3_next::mtp::DraftRow;
use crate::tensor::{
    all_span, at3, can_join, can_select, cat, countable, handy, has_entries, in_shape,
    index_select, is_joined, join_on_host, joined_dims, joined_entries, lemma_makes3,
    lemma_spread3, makes_shape, moved_to, narrow, on_host, on_one_device, one_or_more, plain_type,
    row_major, same_bits, same_kind, selected_dims, tensor_cell, tensor_dims, tensor_fault,
    tensor_type,
};
use crate::text::{dec, decimal, outcome, Fault};

verus! {

/// The last hidden state of a prompt, which waits for the token after it.
pub struct PendingPromptTail {
    pub position: usize,
    pub hidden: Tensor,
}

/// Whether a tensor is the hidden state of one token.
pub open spec fn is_one_state(hidden: Tensor) -> bool {
    &&& tensor_dims(hidden).len() == 3
    &&& tensor_dims(hidden)[0] == 1
    &&& tensor_dims(hidden)[1] == 1
}

pub open spec fn tails_wf(tails: Map<usize, PendingPromptTail>) -> bool {
    forall|id: usize| #[trigger] tails.contains_key(id) ==> is_one_state(tails[id].hidden)
}

/// The sequences of a batch, each with its tokens.
#[derive(Debug)]
pub struct DraftBatch {
    /// The sequences as the cache knows them.
    pub seq_ids: Vec<usize>,
    /// The sequences as they know themselves.
    pub own_ids: Vec<usize>,
    pub tokens: Vec<Vec<u32>>,
    /// The place of each sequence among the hidden states, and how many of them
    /// it has.
    pub target_rows: Vec<(usize, usize)>,
    /// The tokens of each sequence that the target has read.
    pub base_lens: Vec<usize>,
}

impl DraftBatch {
    pub open spec fn wf(&self) -> bool {
        let n = self.tokens@.len();
        &&& self.own_ids@.len() == n
        &&& self.seq_ids@.len() >= n
        &&& self.target_rows@.len() == n
        &&& self.base_lens@.len() == n
    }
}

// Whether there is anything to draft.

pub open spec fn propose_outcome(
    batch: usize,
    max_n: usize,
    n_predict: usize,
    target_rows: usize,
    base_lens: usize,
) -> Result<bool, Seq<char>> {
    if batch == 0 || max_n == 0 {
        Ok(false)
    } else if n_predict == 0 || n_predict > max_n {
        Err(
            "MTP proposal length "@ + dec(n_predict as nat)
                + " is outside the configured range 1..="@ + dec(max_n as nat),
        )
    } else if target_rows != batch || base_lens != batch {
        Err(
            "MTP batch shape mismatch: sequences="@ + dec(batch as nat) + ", target_rows="@ + dec(
                target_rows as nat,
            ) + ", base_lens="@ + dec(base_lens as nat),
        )
    } else {
        Ok(true)
    }
}

/// Checks what is asked of the head; `false` where there is nothing to draft.
pub fn check_proposal(
    batch: usize,
    max_n: usize,
    n_predict: usize,
    target_rows: usize,
    base_lens: usize,
) -> (go: Result<bool, Fault>)
    ensures
        outcome(go) == propose_outcome(batch, max_n, n_predict, target_rows, base_lens),
{
    if batch == 0 || max_n == 0 {
        return Ok(false);
    }
    if n_predict == 0 || n_predict > max_n {
        return Err(
            Fault::new(
                String::from_str("MTP proposal length ").concat(
                    decimal(n_predict as u64).as_str(),
                ).concat(" is outside the configured range 1..=").concat(
                    decimal(max_n as u64).as_str(),
                ),
            ),
        );
    }
    if target_rows != batch || base_lens != batch {
        return Err(
            Fault::new(
                String::from_str("MTP batch shape mismatch: sequences=").concat(
                    decimal(batch as u64).as_str(),
                ).concat(", target_rows=").concat(decimal(target_rows as u64).as_str()).concat(
                    ", base_lens=",
                ).concat(decimal(base_lens as u64).as_str()),
            ),
        );
    }
    Ok(true)
}

/// The tokens that each sequence needs room for.
pub open spec fn room_needed(seq_ids: Seq<usize>, base_lens: Seq<usize>, n_predict: usize) -> Seq<
    (usize, usize),
> {
    Seq::new(
        if seq_ids.len() < base_lens.len() {
            seq_ids.len()
        } else {
            base_lens.len()
        },
        |i: int| (seq_ids[i], (base_lens[i] + n_predict) as usize),
    )
}

/// The tokens that each sequence needs room for, for those that both lists name.
pub fn slot_requests(seq_ids: &Vec<usize>, base_lens: &Vec<usize>, n_predict: usize) -> (requests: Vec<
    (usize, usize),
>)
    requires
        forall|i: int|
            0 <= i < base_lens@.len() ==> #[trigger] base_lens@[i] + n_predict <= usize::MAX,
    ensures
        requests@.len() == if seq_ids@.len() < base_lens@.len() {
            seq_ids@.len()
        } else {
            base_lens@.len()
        },
        forall|i: int|
            0 <= i < requests@.len() ==> #[trigger] requests@[i] == (
                seq_ids@[i],
                (base_lens@[i] + n_predict) as usize,
            ),
        requests@ == room_needed(seq_ids@, base_lens@, n_predict),
{
    let mut requests: Vec<(usize, usize)> = Vec::new();
    let mut i: usize = 0;
    while i < seq_ids.len() && i < base_lens.len()
        invariant
            i <= seq_ids@.len(),
            i <= base_lens@.len(),
            forall|k: int|
                0 <= k < base_lens@.len() ==> #[trigger] base_lens@[k] + n_predict <= usize::MAX,
            requests@.len() == i,
            forall|k: int|
                0 <= k < i ==> #[trigger] requests@[k] == (
                    seq_ids@[k],
                    (base_lens@[k] + n_predict) as usize,
                ),
        decreases seq_ids@.len() - i,
    {
        requests.push((seq_ids[i], base_lens[i] + n_predict));
        i = i + 1;
    }
    assert(requests@ =~= room_needed(seq_ids@, base_lens@, n_predict));
    requests
}

// Hidden states by rows.

/// Whether `part` holds `count` rows of a sequence from `start` on.
pub open spec fn is_rows_of(
    part: Tensor,
    hidden: Tensor,
    batch_idx: usize,
    start: usize,
    count: usize,
) -> bool {
    &&& same_kind(part, hidden)
    &&& tensor_dims(part) == seq![1, count, tensor_dims(hidden)[2]]
    &&& forall|r: int, h: int|
        0 <= r < count && 0 <= h < tensor_dims(hidden)[2] ==> #[trigger] tensor_cell(
            part,
            at3(0, r, h),
        ) == tensor_cell(hidden, at3(batch_idx as int, start + r, h))
}

pub open spec fn has_rows(hidden: Tensor, batch_idx: usize, start: usize, count: usize) -> bool {
    has_entries(tensor_dims(hidden), 0, batch_idx, 1) && has_entries(
        tensor_dims(hidden),
        1,
        start,
        count,
    )
}

pub(crate) fn take_rows(hidden: &Tensor, batch_idx: usize, start: usize, count: usize) -> (part: Result<
    Tensor,
    Fault,
>)
    requires
        tensor_dims(*hidden).len() == 3,
        start + count <= usize::MAX,
    ensures
        part is Ok == has_rows(*hidden, batch_idx, start, count),
        part matches Ok(part) ==> is_rows_of(part, *hidden, batch_idx, start, count),
{
    let ghost dims = tensor_dims(*hidden);
    if !ends_count(hidden, batch_idx, start, count) {
        return Err(Fault::of("MTP hidden row is out of range"));
    }
    let sequence: Tensor = match narrow(hidden, 0, batch_idx, 1) {
        Ok(part) => part,
        Err(error) => return Err(tensor_fault(error)),
    };
    assert(tensor_dims(sequence) =~= seq![1usize, dims[1], dims[2]]);
    let part: Tensor = match narrow(&sequence, 1, start, count) {
        Ok(part) => part,
        Err(error) => return Err(tensor_fault(error)),
    };
    proof {
        assert(tensor_dims(part) =~= seq![1usize, count, dims[2]]);
        assert forall|r: int, h: int| 0 <= r < count && 0 <= h < dims[2] implies #[trigger] tensor_cell(
            part,
            at3(0, r, h),
        ) == tensor_cell(*hidden, at3(batch_idx as int, start + r, h)) by {
            assert(in_shape(at3(0, r, h), tensor_dims(part)));
            assert(at3(0, r, h).update(1, r + start as int) =~= at3(0, start + r, h));
            assert(in_shape(at3(0, start + r, h), tensor_dims(sequence)));
            assert(at3(0, start + r, h).update(0, 0 + batch_idx as int) =~= at3(
                batch_idx as int,
                start + r,
                h,
            ));
        }
    }
    Ok(part)
}

/// The first row of a sequence, of `count` rows, that has no position.
pub open spec fn missing_row(positions: Seq<Vec<u32>>, batch_idx: usize, count: usize) -> Option<usize> {
    if count == 0 {
        None
    } else if batch_idx >= positions.len() {
        Some(0)
    } else if positions[batch_idx as int]@.len() < count {
        Some(positions[batch_idx as int]@.len() as usize)
    } else {
        None
    }
}

/// Why a list of rows comes to an end before its last sequence.
pub enum Stop {
    /// It does not.
    Nowhere,
    /// With a message.
    Said(Seq<char>),
    /// The hidden states lack the rows.
    Lacking,
}

pub open spec fn positions_stop(
    positions: Seq<Vec<u32>>,
    hidden: Tensor,
    batch_idx: usize,
    count: usize,
) -> Stop {
    match missing_row(positions, batch_idx, count) {
        Some(row) => Stop::Said(position_check(positions, batch_idx, row)->Err_0),
        None => if has_rows(hidden, batch_idx, 0, count) {
            Stop::Nowhere
        } else {
            Stop::Lacking
        },
    }
}

/// The rows of a sequence from `first` on.
pub open spec fn sequence_rows(seq_id: usize, toks: Seq<u32>, first: int, count: usize) -> Seq<
    DraftRow,
> {
    Seq::new(
        count as nat,
        |r: int| DraftRow { seq_id, position: (first + r) as usize, token: toks[first + r + 1] },
    )
}

/// Checks that the rows of a sequence have positions, and lists them.
pub(crate) fn push_rows(
    rows: &mut Vec<DraftRow>,
    seq_id: usize,
    toks: &Vec<u32>,
    first: usize,
    count: usize,
    positions: &Vec<Vec<u32>>,
    batch_idx: usize,
) -> (r: Result<(), Fault>)
    requires
        first + count < toks@.len(),
    ensures
        match missing_row(positions@, batch_idx, count) {
            Some(row) => outcome(r) == Err::<(), Seq<char>>(
                position_check(positions@, batch_idx, row)->Err_0,
            ),
            None => r is Ok && final(rows)@ == old(rows)@ + sequence_rows(
                seq_id,
                toks@,
                first as int,
                count,
            ),
        },
{
    let ghost before = rows@;
    let ghost list = sequence_rows(seq_id, toks@, first as int, count);
    let len: usize = toks.len();
    let mut i: usize = 0;
    while i < count
        invariant
            i <= count,
            len == toks@.len(),
            first + count < len,
            list == sequence_rows(seq_id, toks@, first as int, count),
            rows@ == before + list.take(i as int),
            i > 0 ==> batch_idx < positions@.len() && i <= positions@[batch_idx as int]@.len(),
        decreases count - i,
    {
        match position_at(positions, batch_idx, i) {
            Ok(_) => {},
            Err(fault) => return Err(fault),
        }
        let position: usize = first + i;
        rows.push(DraftRow { seq_id, position, token: toks[position + 1] });
        i = i + 1;
        assert(rows@ =~= before + list.take(i as int));
    }
    assert(list.take(i as int) =~= list);
    Ok(())
}

// The rows of a refresh.

/// Where hidden states come from: a tail that waited, or rows of a sequence.
pub enum HiddenSource {
    Tail(Tensor),
    Rows { batch_idx: usize, count: usize },
}

pub open spec fn is_source(part: Tensor, source: HiddenSource, hidden: Tensor) -> bool {
    match source {
        HiddenSource::Tail(tail) => {
            &&& same_bits(part, tail)
            &&& tensor_type(part) == tensor_type(tail)
            &&& on_one_device(part, hidden)
        },
        HiddenSource::Rows { batch_idx, count } => is_rows_of(part, hidden, batch_idx, 0, count),
    }
}

/// Whether a tail is a row like those of hidden states.
pub open spec fn fits_beside(tail: Tensor, hidden: Tensor) -> bool {
    tensor_type(tail) == tensor_type(hidden) && tensor_dims(tail) == seq![
        1,
        1,
        tensor_dims(hidden)[2],
    ]
}

/// Whether sources of `total` rows are joined without the help of a device: a
/// single one is as it is, and several are joined on the host.
pub open spec fn joins_freely(sources: Seq<HiddenSource>, total: nat, hidden: Tensor) -> bool {
    ||| sources.len() == 1
    ||| {
        &&& sources.len() > 0
        &&& on_host(hidden)
        &&& plain_type(tensor_type(hidden))
        &&& countable(seq![1, total as usize, tensor_dims(hidden)[2]])
        &&& forall|k: int|
            0 <= k < sources.len() ==> (#[trigger] sources[k] matches HiddenSource::Tail(tail)
                ==> fits_beside(tail, hidden))
    }
}

pub(crate) proof fn lemma_joins_freely(
    parts: Seq<Tensor>,
    sources: Seq<HiddenSource>,
    total: nat,
    hidden: Tensor,
)
    requires
        tensor_dims(hidden).len() == 3,
        parts_are(parts, sources, hidden),
        joined_entries(parts, 1, parts.len() as int) == total,
        joins_freely(sources, total, hidden),
    ensures
        parts.len() == 1 || join_on_host(parts, 1),
{
    if parts.len() != 1 {
        let width = tensor_dims(hidden)[2];
        assert forall|k: int| 0 <= k < parts.len() implies {
            &&& on_host(#[trigger] parts[k])
            &&& tensor_type(parts[k]) == tensor_type(hidden)
            &&& tensor_dims(parts[k]) == seq![1, tensor_dims(parts[k])[1], width]
        } by {
            assert(is_source(parts[k], sources[k], hidden));
            match sources[k] {
                HiddenSource::Tail(tail) => {
                    assert(fits_beside(tail, hidden));
                    assert(tensor_dims(parts[k]) =~= seq![1, tensor_dims(parts[k])[1], width]);
                },
                HiddenSource::Rows { batch_idx, count } => {
                    assert(tensor_dims(parts[k]) =~= seq![1, tensor_dims(parts[k])[1], width]);
                },
            }
        }
        assert(on_host(parts[0]));
        assert(tensor_dims(parts[0]).update(1, total as usize) =~= seq![1, total as usize, width]);
        assert forall|k: int| 0 <= k < parts.len() implies {
            &&& on_host(#[trigger] parts[k])
            &&& tensor_type(parts[k]) == tensor_type(parts[0])
            &&& tensor_dims(parts[k]) == tensor_dims(parts[0]).update(1, tensor_dims(parts[k])[1])
        } by {
            assert(tensor_dims(parts[k]) =~= tensor_dims(parts[0]).update(
                1,
                tensor_dims(parts[k])[1],
            ));
        }
    }
}

pub open spec fn parts_are(parts: Seq<Tensor>, sources: Seq<HiddenSource>, hidden: Tensor) -> bool {
    &&& parts.len() == sources.len()
    &&& forall|k: int| 0 <= k < parts.len() ==> is_source(#[trigger] parts[k], sources[k], hidden)
}

/// Whether `whole` holds the hidden states of the sources one after another.
pub open spec fn joins_sources(whole: Tensor, sources: Seq<HiddenSource>, hidden: Tensor) -> bool {
    exists|parts: Seq<Tensor>| #[trigger]
        parts_are(parts, sources, hidden) && is_joined(whole, parts, 1)
}

/// The tails that still wait after those of the first `n` sequences are taken.
pub open spec fn tails_after(tails: Map<usize, PendingPromptTail>, ids: Seq<usize>, n: int) -> Map<
    usize,
    PendingPromptTail,
>
    decreases n,
{
    if n <= 0 {
        tails
    } else {
        tails_after(tails, ids, n - 1).remove(ids[n - 1])
    }
}

/// The tail that sequence `i` takes, where its next token is known.
pub open spec fn tail_of(batch: DraftBatch, tails: Map<usize, PendingPromptTail>, i: int) -> Option<
    PendingPromptTail,
> {
    let waiting = tails_after(tails, batch.own_ids@, i);
    let id = batch.own_ids@[i];
    if waiting.contains_key(id) && waiting[id].position + 1 < batch.tokens@[i]@.len() {
        Some(waiting[id])
    } else {
        None
    }
}

pub open spec fn rows_in_range(batch: DraftBatch, i: int) -> bool {
    &&& batch.target_rows@[i].1 > 0
    &&& batch.base_lens@[i] >= batch.target_rows@[i].1
    &&& batch.tokens@[i]@.len() > batch.base_lens@[i]
}

pub open spec fn refresh_stop(
    batch: DraftBatch,
    hidden: Tensor,
    positions: Seq<Vec<u32>>,
    i: int,
) -> Stop {
    let (batch_idx, count) = batch.target_rows@[i];
    if !rows_in_range(batch, i) {
        Stop::Said(
            "MTP refresh rows out of range: base_len="@ + dec(batch.base_lens@[i] as nat)
                + ", count="@ + dec(count as nat) + ", toks="@ + dec(batch.tokens@[i]@.len()),
        )
    } else {
        positions_stop(positions, hidden, batch_idx, count)
    }
}

/// The rows of one sequence: its tail, then the rows that the target just read.
pub open spec fn rows_of(batch: DraftBatch, tails: Map<usize, PendingPromptTail>, i: int) -> Seq<
    DraftRow,
> {
    let toks = batch.tokens@[i]@;
    let seq_id = batch.seq_ids@[i];
    let count = batch.target_rows@[i].1;
    let first = batch.base_lens@[i] - count;
    let own = sequence_rows(seq_id, toks, first, count);
    match tail_of(batch, tails, i) {
        Some(tail) => seq![
            DraftRow { seq_id, position: tail.position, token: toks[tail.position + 1] },
        ] + own,
        None => own,
    }
}

pub open spec fn sources_of(batch: DraftBatch, tails: Map<usize, PendingPromptTail>, i: int) -> Seq<
    HiddenSource,
> {
    let (batch_idx, count) = batch.target_rows@[i];
    match tail_of(batch, tails, i) {
        Some(tail) => seq![
            HiddenSource::Tail(tail.hidden),
            HiddenSource::Rows { batch_idx, count },
        ],
        None => seq![HiddenSource::Rows { batch_idx, count }],
    }
}

pub open spec fn refresh_rows(batch: DraftBatch, tails: Map<usize, PendingPromptTail>, n: int) -> Seq<
    DraftRow,
>
    decreases n,
{
    if n <= 0 {
        Seq::empty()
    } else {
        refresh_rows(batch, tails, n - 1) + rows_of(batch, tails, n - 1)
    }
}

pub open spec fn refresh_sources(
    batch: DraftBatch,
    tails: Map<usize, PendingPromptTail>,
    n: int,
) -> Seq<HiddenSource>
    decreases n,
{
    if n <= 0 {
        Seq::empty()
    } else {
        refresh_sources(batch, tails, n - 1) + sources_of(batch, tails, n - 1)
    }
}

/// The last row of each sequence.
pub open spec fn last_rows(batch: DraftBatch, tails: Map<usize, PendingPromptTail>, n: int) -> Seq<
    usize,
> {
    Seq::new(n as nat, |i: int| (refresh_rows(batch, tails, i + 1).len() - 1) as usize)
}

/// Whether no device has a say in what becomes of sequence `i`: its rows are out
/// of range, or it has no tail that another device would have to move.
pub open spec fn is_decided(
    batch: DraftBatch,
    tails: Map<usize, PendingPromptTail>,
    hidden: Tensor,
    i: int,
) -> bool {
    rows_in_range(batch, i) ==> (tail_of(batch, tails, i) matches Some(tail) ==> on_one_device(
        tail.hidden,
        hidden,
    ))
}

/// Whether all sequences before `i` are read, and `i` is decided.
pub open spec fn comes_to(
    batch: DraftBatch,
    tails: Map<usize, PendingPromptTail>,
    hidden: Tensor,
    positions: Seq<Vec<u32>>,
    i: int,
) -> bool {
    &&& is_decided(batch, tails, hidden, i)
    &&& forall|k: int|
        0 <= k < i ==> #[trigger] is_decided(batch, tails, hidden, k) && refresh_stop(
            batch,
            hidden,
            positions,
            k,
        ) is Nowhere
}

/// Whether a refresh succeeds without the help of a device.
pub open spec fn refreshes_freely(
    batch: DraftBatch,
    tails: Map<usize, PendingPromptTail>,
    hidden: Tensor,
    positions: Seq<Vec<u32>>,
) -> bool {
    let n = batch.tokens@.len() as int;
    &&& forall|i: int|
        0 <= i < n ==> #[trigger] is_decided(batch, tails, hidden, i) && refresh_stop(
            batch,
            hidden,
            positions,
            i,
        ) is Nowhere
    &&& joins_freely(
        refresh_sources(batch, tails, n),
        refresh_rows(batch, tails, n).len(),
        hidden,
    )
}

/// The tails that are left where a refresh stops at sequence `i`. Its own is taken
/// unless its rows are out of range.
pub open spec fn tails_at(
    batch: DraftBatch,
    tails: Map<usize, PendingPromptTail>,
    i: int,
) -> Map<usize, PendingPromptTail> {
    tails_after(
        tails,
        batch.own_ids@,
        if rows_in_range(batch, i) {
            i + 1
        } else {
            i
        },
    )
}

/// The tails of the listed sequences.
pub open spec fn kept(tails: Map<usize, PendingPromptTail>, ids: Seq<usize>) -> Map<
    usize,
    PendingPromptTail,
> {
    tails.restrict(Set::new(|id: usize| ids.contains(id)))
}

/// The tails of all sequences but the listed ones.
spec fn unlisted(tails: Map<usize, PendingPromptTail>, ids: Seq<usize>) -> Map<
    usize,
    PendingPromptTail,
> {
    tails.restrict(Set::new(|id: usize| !ids.contains(id)))
}

/// Drops the tails of all sequences but the listed ones.
fn keep_listed(tails: &mut HashMap<usize, PendingPromptTail>, ids: &Vec<usize>)
    ensures
        final(tails)@ == kept(old(tails)@, ids@),
{
    broadcast use vstd::std_specs::hash::group_hash_axioms;

    let ghost all = tails@;
    let mut listed: HashMap<usize, PendingPromptTail> = HashMap::new();
    let mut i: usize = 0;
    assert(kept(all, ids@.take(0)) =~= Map::empty());
    assert(unlisted(all, ids@.take(0)) =~= all);
    while i < ids.len()
        invariant
            i <= ids@.len(),
            listed@ == kept(all, ids@.take(i as int)),
            tails@ == unlisted(all, ids@.take(i as int)),
        decreases ids@.len() - i,
    {
        let id: usize = ids[i];
        proof {
            let (some, more) = (ids@.take(i as int), ids@.take(i + 1));
            assert forall|other: usize| #[trigger] more.contains(other) == (some.contains(other)
                || other == id) by {
                if some.contains(other) {
                    let k = choose|k: int| 0 <= k < some.len() && some[k] == other;
                    assert(more[k] == other);
                }
                if more.contains(other) && other != id {
                    let k = choose|k: int| 0 <= k < more.len() && more[k] == other;
                    assert(some[k] == other);
                }
                assert(more[i as int] == id);
            }
            assert(unlisted(all, more) =~= unlisted(all, some).remove(id));
            assert(kept(all, more) =~= if unlisted(all, some).contains_key(id) {
                kept(all, some).insert(id, all[id])
            } else {
                kept(all, some)
            });
        }
        match tails.remove(&id) {
            Some(tail) => {
                listed.insert(id, tail);
            },
            None => {},
        }
        i = i + 1;
    }
    assert(ids@.take(i as int) =~= ids@);
    *tails = listed;
}

/// The tails that are left where all sequences are read.
pub open spec fn tails_at_end(batch: DraftBatch, tails: Map<usize, PendingPromptTail>) -> Map<
    usize,
    PendingPromptTail,
> {
    kept(tails_after(tails, batch.own_ids@, batch.tokens@.len() as int), batch.seq_ids@)
}

/// Whether a refresh that fails has read the first `i` sequences, and leaves the
/// tails that it then does: at a sequence that stops, or that a device fails, or
/// past the last.
pub open spec fn fails_at(
    left: Map<usize, PendingPromptTail>,
    tails: Map<usize, PendingPromptTail>,
    batch: DraftBatch,
    hidden: Tensor,
    positions: Seq<Vec<u32>>,
    i: int,
) -> bool {
    &&& 0 <= i <= batch.tokens@.len()
    &&& forall|k: int|
        0 <= k < i ==> #[trigger] refresh_stop(batch, hidden, positions, k) is Nowhere
    &&& i < batch.tokens@.len() ==> left == tails_at(batch, tails, i) && (is_decided(
        batch,
        tails,
        hidden,
        i,
    ) ==> !(refresh_stop(batch, hidden, positions, i) is Nowhere))
    &&& i == batch.tokens@.len() ==> left == tails_at_end(batch, tails)
}

/// What the head reads, and the last row of each sequence.
pub struct DraftReads {
    pub rows: Vec<DraftRow>,
    pub hidden: Tensor,
    pub last_row_idx: Vec<usize>,
}

struct Gathering {
    rows: Vec<DraftRow>,
    parts: Vec<Tensor>,
}

spec fn gathered(
    g: Gathering,
    rows: Seq<DraftRow>,
    sources: Seq<HiddenSource>,
    hidden: Tensor,
) -> bool {
    &&& g.rows@ == rows
    &&& parts_are(g.parts@, sources, hidden)
    &&& parts_count(g.parts@)
    &&& joined_entries(g.parts@, 1, g.parts@.len() as int) == rows.len()
}

/// Whether parts have rows of one sequence each, whose elements can be counted.
pub(crate) open spec fn parts_count(parts: Seq<Tensor>) -> bool {
    forall|k: int|
        0 <= k < parts.len() ==> {
            &&& tensor_dims(#[trigger] parts[k]).len() == 3
            &&& tensor_dims(parts[k])[0] == 1
            &&& countable(tensor_dims(parts[k]))
        }
}

/// Parts of which rows can be counted can be joined.
pub(crate) proof fn lemma_parts_join(parts: Seq<Tensor>)
    requires
        parts_count(parts),
        joined_entries(parts, 1, parts.len() as int) <= usize::MAX,
    ensures
        can_join(parts, 1),
        all_span(parts, 1),
{
    if parts.len() > 0 {
        let dims = joined_dims(parts, 1);
        assert(tensor_dims(parts[0]).len() == 3);
        assert(dims =~= seq![1usize, dims[1], dims[2]]);
        lemma_makes3(dims[1], dims[2]);
    }
}

/// The elements of the hidden state of one token can be counted.
proof fn lemma_state_counts(hidden: Tensor)
    requires
        is_one_state(hidden),
    ensures
        countable(tensor_dims(hidden)),
{
    let d = tensor_dims(hidden);
    assert(d =~= seq![1usize, 1usize, d[2]]);
    lemma_spread3(1, 1, d[2]);
    let m = one_or_more(d[2]);
    assert(one_or_more(1) * one_or_more(1) * m == m) by (nonlinear_arith)
        requires
            one_or_more(1) == 1,
    ;
}

/// Rows of hidden states that can be counted can be counted too.
pub(crate) proof fn lemma_rows_count(part: Tensor, hidden: Tensor, batch_idx: usize, start: usize, count: usize)
    requires
        tensor_dims(hidden).len() == 3,
        countable(tensor_dims(hidden)),
        has_rows(hidden, batch_idx, start, count),
        is_rows_of(part, hidden, batch_idx, start, count),
    ensures
        countable(tensor_dims(part)),
{
    let d = tensor_dims(hidden);
    assert(d =~= seq![d[0], d[1], d[2]]);
    lemma_spread3(d[0], d[1], d[2]);
    lemma_spread3(1, count, d[2]);
    let (x, y, z, n) = (one_or_more(d[0]), one_or_more(d[1]), one_or_more(d[2]), one_or_more(count));
    assert(1 * n * z <= x * y * z) by (nonlinear_arith)
        requires
            x >= 1,
            1 <= n <= y,
            z >= 1,
    ;
}

proof fn lemma_joined_prefix(tensors: Seq<Tensor>, more: Seq<Tensor>, dim: int, n: int)
    requires
        n <= tensors.len() <= more.len(),
        forall|k: int| 0 <= k < tensors.len() ==> #[trigger] more[k] == tensors[k],
    ensures
        joined_entries(more, dim, n) == joined_entries(tensors, dim, n),
    decreases n,
{
    if n > 0 {
        lemma_joined_prefix(tensors, more, dim, n - 1);
        assert(more[n - 1] == tensors[n - 1]);
    }
}

/// Adding a part keeps what was gathered.
pub(crate) proof fn lemma_push_part(
    parts: Seq<Tensor>,
    sources: Seq<HiddenSource>,
    hidden: Tensor,
    part: Tensor,
    source: HiddenSource,
)
    requires
        parts_are(parts, sources, hidden),
        parts_count(parts),
        is_source(part, source, hidden),
        tensor_dims(part).len() == 3,
        tensor_dims(part)[0] == 1,
        countable(tensor_dims(part)),
    ensures
        parts_are(parts.push(part), sources.push(source), hidden),
        parts_count(parts.push(part)),
        joined_entries(parts.push(part), 1, parts.push(part).len() as int) == joined_entries(
            parts,
            1,
            parts.len() as int,
        ) + tensor_dims(part)[1],
{
    let more = parts.push(part);
    assert forall|k: int| 0 <= k < more.len() implies is_source(
        #[trigger] more[k],
        sources.push(source)[k],
        hidden,
    ) by {
        if k < parts.len() {
            assert(is_source(parts[k], sources[k], hidden));
        }
    }
    assert forall|k: int| 0 <= k < more.len() implies {
        &&& tensor_dims(#[trigger] more[k]).len() == 3
        &&& tensor_dims(more[k])[0] == 1
        &&& countable(tensor_dims(more[k]))
    } by {
        if k < parts.len() {
            assert(tensor_dims(parts[k]).len() == 3);
        }
    }
    lemma_joined_prefix(parts, more, 1, parts.len() as int);
}

proof fn lemma_tails_after_wf(tails: Map<usize, PendingPromptTail>, ids: Seq<usize>, n: int)
    requires
        tails_wf(tails),
    ensures
        tails_wf(tails_after(tails, ids, n)),
    decreases n,
{
    if n > 0 {
        lemma_tails_after_wf(tails, ids, n - 1);
    }
}

fn refresh_fault(base_len: usize, count: usize, toks: usize) -> (fault: Fault)
    ensures
        fault@ == "MTP refresh rows out of range: base_len="@ + dec(base_len as nat) + ", count="@
            + dec(count as nat) + ", toks="@ + dec(toks as nat),
{
    Fault::new(
        String::from_str("MTP refresh rows out of range: base_len=").concat(
            decimal(base_len as u64).as_str(),
        ).concat(", count=").concat(decimal(count as u64).as_str()).concat(", toks=").concat(
            decimal(toks as u64).as_str(),
        ),
    )
}

/// Adds the rows and the hidden states of one sequence.
fn gather_sequence(
    g: &mut Gathering,
    batch: &DraftBatch,
    i: usize,
    tails: &mut HashMap<usize, PendingPromptTail>,
    hidden: &Tensor,
    positions: &Vec<Vec<u32>>,
    Ghost(first): Ghost<Map<usize, PendingPromptTail>>,
) -> (r: Result<(), Fault>)
    requires
        batch.wf(),
        i < batch.tokens@.len(),
        tails_wf(first),
        old(tails)@ == tails_after(first, batch.own_ids@, i as int),
        tensor_dims(*hidden).len() == 3,
        countable(tensor_dims(*hidden)),
        gathered(
            *old(g),
            refresh_rows(*batch, first, i as int),
            refresh_sources(*batch, first, i as int),
            *hidden,
        ),
    ensures
        final(tails)@ == tails_at(*batch, first, i as int),
        match r {
            Ok(()) => {
                &&& refresh_stop(*batch, *hidden, positions@, i as int) is Nowhere
                &&& final(tails)@ == tails_after(first, batch.own_ids@, i + 1)
                &&& gathered(
                    *final(g),
                    refresh_rows(*batch, first, i + 1),
                    refresh_sources(*batch, first, i + 1),
                    *hidden,
                )
                &&& final(g).rows@.len() > 0
            },
            Err(fault) => is_decided(*batch, first, *hidden, i as int) ==> match refresh_stop(
                *batch,
                *hidden,
                positions@,
                i as int,
            ) {
                Stop::Nowhere => false,
                Stop::Said(message) => fault@ == message,
                Stop::Lacking => true,
            },
        },
{
    let (batch_idx, count): (usize, usize) = batch.target_rows[i];
    let base_len: usize = batch.base_lens[i];
    let toks: &Vec<u32> = &batch.tokens[i];
    let seq_id: usize = batch.seq_ids[i];
    let ghost rows = g.rows@;
    let ghost sources = refresh_sources(*batch, first, i as int);
    if count == 0 || base_len < count || toks.len() <= base_len {
        return Err(refresh_fault(base_len, count, toks.len()));
    }
    let ghost tail_state = tail_of(*batch, first, i as int);
    proof {
        lemma_tails_after_wf(first, batch.own_ids@, i as int);
    }
    broadcast use vstd::std_specs::hash::group_hash_axioms;

    match tails.remove(&batch.own_ids[i]) {
        Some(tail) => {
            if tail.position < toks.len() - 1 {
                assert(tail_state == Some(tail));
                g.rows.push(
                    DraftRow { seq_id, position: tail.position, token: toks[tail.position + 1] },
                );
                match moved_to(&tail.hidden, hidden) {
                    Ok(part) => {
                        proof {
                            lemma_state_counts(tail.hidden);
                            lemma_push_part(
                                g.parts@,
                                sources,
                                *hidden,
                                part,
                                HiddenSource::Tail(tail.hidden),
                            );
                        }
                        g.parts.push(part);
                    },
                    Err(error) => return Err(tensor_fault(error)),
                }
            }
        },
        None => {},
    }
    let ghost rows_now = g.rows@;
    let ghost sources_now = match tail_state {
        Some(tail) => sources.push(HiddenSource::Tail(tail.hidden)),
        None => sources,
    };
    assert(gathered(*g, rows_now, sources_now, *hidden));
    match push_rows(&mut g.rows, seq_id, toks, base_len - count, count, positions, batch_idx) {
        Ok(()) => {},
        Err(fault) => return Err(fault),
    }
    match take_rows(hidden, batch_idx, 0, count) {
        Ok(part) => {
            proof {
                lemma_rows_count(part, *hidden, batch_idx, 0, count);
                lemma_push_part(
                    g.parts@,
                    sources_now,
                    *hidden,
                    part,
                    HiddenSource::Rows { batch_idx, count },
                );
            }
            g.parts.push(part);
        },
        Err(fault) => return Err(fault),
    }
    proof {
        assert(g.rows@ =~= refresh_rows(*batch, first, i + 1));
        assert(sources_now.push(HiddenSource::Rows { batch_idx, count }) =~= refresh_sources(
            *batch,
            first,
            i + 1,
        ));
    }
    Ok(())
}

/// The rows that the head reads to catch up with the target: for each sequence
/// the tail of its prompt, where one waits, and the rows that the target just
/// read. Tails of sequences that are not in the batch are dropped.
pub fn gather_refresh(
    batch: &DraftBatch,
    tails: &mut HashMap<usize, PendingPromptTail>,
    hidden: &Tensor,
    positions: &Vec<Vec<u32>>,
) -> (reads: Result<DraftReads, Fault>)
    requires
        batch.wf(),
        tails_wf(old(tails)@),
        tensor_dims(*hidden).len() == 3,
        countable(tensor_dims(*hidden)),
    ensures
        tails_wf(final(tails)@),
        ({
            let n = batch.tokens@.len() as int;
            let first = old(tails)@;
            match reads {
                Ok(reads) => {
                    &&& forall|i: int|
                        0 <= i < n ==> #[trigger] refresh_stop(*batch, *hidden, positions@, i) is Nowhere
                    &&& reads.rows@ == refresh_rows(*batch, first, n)
                    &&& reads.last_row_idx@ == last_rows(*batch, first, n)
                    &&& joins_sources(reads.hidden, refresh_sources(*batch, first, n), *hidden)
                    &&& tensor_dims(reads.hidden)[1] == reads.rows@.len()
                    &&& on_one_device(reads.hidden, *hidden)
                    &&& final(tails)@ == tails_at_end(*batch, first)
                },
                Err(fault) => {
                    &&& !refreshes_freely(*batch, first, *hidden, positions@)
                    &&& exists|i: int| #[trigger]
                        fails_at(final(tails)@, first, *batch, *hidden, positions@, i)
                    &&& forall|i: int|
                        0 <= i < n && #[trigger] comes_to(*batch, first, *hidden, positions@, i)
                            ==> match refresh_stop(*batch, *hidden, positions@, i) {
                            Stop::Nowhere => true,
                            Stop::Said(message) => final(tails)@ == tails_at(*batch, first, i)
                                && fault@ == message,
                            Stop::Lacking => final(tails)@ == tails_at(*batch, first, i),
                        }
                },
            }
        }),
{
    let ghost first = tails@;
    let ghost n = batch.tokens@.len() as int;
    let mut g: Gathering = Gathering { rows: Vec::new(), parts: Vec::new() };
    let mut last_row_idx: Vec<usize> = Vec::new();
    let mut i: usize = 0;
    assert(last_row_idx@ =~= last_rows(*batch, first, 0));
    while i < batch.tokens.len()
        invariant
            i <= batch.tokens@.len(),
            n == batch.tokens@.len(),
            batch.wf(),
            tails_wf(first),
            first == old(tails)@,
            tails@ == tails_after(first, batch.own_ids@, i as int),
            tensor_dims(*hidden).len() == 3,
            countable(tensor_dims(*hidden)),
            forall|k: int|
                0 <= k < i ==> #[trigger] refresh_stop(*batch, *hidden, positions@, k) is Nowhere,
            gathered(
                g,
                refresh_rows(*batch, first, i as int),
                refresh_sources(*batch, first, i as int),
                *hidden,
            ),
            last_row_idx@ == last_rows(*batch, first, i as int),
        decreases batch.tokens@.len() - i,
    {
        match gather_sequence(&mut g, batch, i, tails, hidden, positions, Ghost(first)) {
            Ok(()) => {},
            Err(fault) => {
                proof {
                    lemma_tails_after_wf(first, batch.own_ids@, i as int);
                    lemma_tails_after_wf(first, batch.own_ids@, i + 1);
                    if is_decided(*batch, first, *hidden, i as int) {
                        assert(!(refresh_stop(*batch, *hidden, positions@, i as int) is Nowhere));
                    }
                    assert(fails_at(tails@, first, *batch, *hidden, positions@, i as int));
                    assert forall|j: int|
                        0 <= j < n && #[trigger] comes_to(
                            *batch,
                            first,
                            *hidden,
                            positions@,
                            j,
                        ) implies refresh_stop(*batch, *hidden, positions@, j) is Nowhere || j == i by {
                        if j > i {
                            assert(is_decided(*batch, first, *hidden, i as int));
                        }
                    }
                }
                return Err(fault);
            },
        }
        last_row_idx.push(g.rows.len() - 1);
        i = i + 1;
        assert(last_row_idx@ =~= last_rows(*batch, first, i as int));
    }
    keep_listed(tails, &batch.seq_ids);
    proof {
        lemma_tails_after_wf(first, batch.own_ids@, n);
    }
    let len: usize = g.rows.len();
    let ghost parts = g.parts@;
    assert(parts_are(parts, refresh_sources(*batch, first, n), *hidden));
    proof {
        lemma_parts_join(parts);
        if refreshes_freely(*batch, first, *hidden, positions@) {
            lemma_joins_freely(parts, refresh_sources(*batch, first, n), len as nat, *hidden);
        }
        assert(fails_at(tails@, first, *batch, *hidden, positions@, n));
    }
    match cat(&g.parts, 1) {
        Ok(joined) => {
            proof {
                assert(is_joined(joined, parts, 1));
                assert(1 < tensor_dims(parts[0]).len());
                assert(is_source(parts[0], refresh_sources(*batch, first, n)[0], *hidden));
            }
            Ok(DraftReads { rows: g.rows, hidden: joined, last_row_idx })
        },
        Err(error) => Err(tensor_fault(error)),
    }
}

proof fn lemma_refresh_prefix(
    batch: DraftBatch,
    tails: Map<usize, PendingPromptTail>,
    m: int,
    n: int,
    k: int,
)
    requires
        0 <= m <= n,
        0 <= k < refresh_rows(batch, tails, m).len(),
    ensures
        refresh_rows(batch, tails, m).len() <= refresh_rows(batch, tails, n).len(),
        refresh_rows(batch, tails, n)[k] == refresh_rows(batch, tails, m)[k],
    decreases n - m,
{
    if m < n {
        lemma_refresh_prefix(batch, tails, m, n - 1, k);
    }
}

/// The last row of each sequence is the last that the target read: its place is
/// the last of the tokens that were read, and its token the one after them.
pub proof fn law_last_row_is_the_newest(
    batch: DraftBatch,
    tails: Map<usize, PendingPromptTail>,
    i: int,
)
    requires
        batch.wf(),
        0 <= i < batch.tokens@.len(),
        rows_in_range(batch, i),
        refresh_rows(batch, tails, batch.tokens@.len() as int).len() <= usize::MAX,
    ensures
        ({
            let n = batch.tokens@.len() as int;
            let rows = refresh_rows(batch, tails, n);
            let last = last_rows(batch, tails, n)[i];
            &&& last < rows.len()
            &&& rows[last as int] == (DraftRow {
                seq_id: batch.seq_ids@[i],
                position: (batch.base_lens@[i] - 1) as usize,
                token: batch.tokens@[i]@[batch.base_lens@[i] as int],
            })
        }),
{
    let n = batch.tokens@.len() as int;
    let own = rows_of(batch, tails, i);
    let upto = refresh_rows(batch, tails, i + 1);
    assert(upto == refresh_rows(batch, tails, i) + own);
    assert(own.len() > 0);
    let k = upto.len() - 1;
    assert(upto[k] == own[own.len() - 1]);
    lemma_refresh_prefix(batch, tails, i + 1, n, k);
    assert(last_rows(batch, tails, n)[i] == k as usize);
}

// Drafting.

/// Whether all rows that are listed are there and counted by a `u32`, and what
/// they make can be counted.
pub open spec fn can_select_rows(dims: Seq<usize>, rows: Seq<usize>) -> bool {
    &&& dims.len() > 1
    &&& countable(selected_dims(dims, rows.len(), 1))
    &&& forall|k: int| 0 <= k < rows.len() ==> #[trigger] rows[k] < dims[1] && rows[k] < u32::MAX
}

/// The hidden states of the last rows, which the first drafts come from. Nothing
/// is said of rows past the last that a `u32` counts.
pub fn last_states(normed: &Tensor, last_row_idx: &Vec<usize>) -> (states: Result<Tensor, Fault>)
    requires
        countable(tensor_dims(*normed)),
        tensor_dims(*normed).len() > 1 ==> makes_shape(
            selected_dims(tensor_dims(*normed), last_row_idx@.len(), 1),
        ),
    ensures
        tensor_dims(*normed).len() <= 1 ==> states is Err,
        row_major(*normed) && handy(*normed) && can_select_rows(tensor_dims(*normed), last_row_idx@)
            ==> states is Ok,
        states matches Ok(states) ==> {
            &&& same_kind(states, *normed)
            &&& tensor_dims(states) == selected_dims(tensor_dims(*normed), last_row_idx@.len(), 1)
            &&& forall|index: Seq<int>|
                in_shape(index, tensor_dims(states)) && last_row_idx@[index[1]] < tensor_dims(
                    *normed,
                )[1] && last_row_idx@[index[1]] < u32::MAX ==> #[trigger] tensor_cell(states, index)
                    == tensor_cell(*normed, index.update(1, last_row_idx@[index[1]] as int))
        },
{
    let mut indexes: Vec<u32> = Vec::new();
    let mut i: usize = 0;
    while i < last_row_idx.len()
        invariant
            i <= last_row_idx@.len(),
            indexes@.len() == i,
            forall|k: int|
                0 <= k < i && last_row_idx@[k] <= u32::MAX ==> #[trigger] indexes@[k]
                    == last_row_idx@[k],
        decreases last_row_idx@.len() - i,
    {
        indexes.push(#[verifier::truncate] (last_row_idx[i] as u32));
        i = i + 1;
    }
    proof {
        if can_select_rows(tensor_dims(*normed), last_row_idx@) {
            assert forall|k: int| 0 <= k < indexes@.len() implies #[trigger] indexes@[k] < tensor_dims(
                *normed,
            )[1] && indexes@[k] < u32::MAX by {
                assert(last_row_idx@[k] < u32::MAX);
            }
            assert(can_select(tensor_dims(*normed), indexes@, 1));
        }
    }
    match index_select(normed, &indexes, 1) {
        Ok(states) => {
            proof {
                assert forall|index: Seq<int>|
                    in_shape(index, tensor_dims(states)) && last_row_idx@[index[1]] < tensor_dims(
                        *normed,
                    )[1] && last_row_idx@[index[1]] < u32::MAX implies #[trigger] tensor_cell(
                    states,
                    index,
                ) == tensor_cell(*normed, index.update(1, last_row_idx@[index[1]] as int)) by {
                    assert(0 <= index[1] < tensor_dims(states)[1]);
                    assert(indexes@[index[1]] == last_row_idx@[index[1]]);
                }
            }
            Ok(states)
        },
        Err(error) => Err(tensor_fault(error)),
    }
}

/// Drafting, one token of each sequence at a time.
#[derive(Debug)]
pub struct DraftLoop {
    pub seq_ids: Vec<usize>,
    /// The place of the last row of each sequence.
    pub cursor: Vec<usize>,
    /// The drafts of each sequence.
    pub tokens: Vec<Vec<u32>>,
    pub n_predict: usize,
    pub step: usize,
}

pub open spec fn least(a: nat, b: nat, c: nat) -> nat {
    if a <= b && a <= c {
        a
    } else if b <= c {
        b
    } else {
        c
    }
}

/// Whether a loop begins after the rows that the head has read.
pub open spec fn begins_drafting(drafting: DraftLoop, reads: DraftReads) -> bool {
    &&& drafting.step == 0
    &&& drafting.cursor@.len() == reads.last_row_idx@.len()
    &&& forall|k: int|
        0 <= k < drafting.cursor@.len() ==> #[trigger] drafting.cursor@[k]
            == reads.rows@[reads.last_row_idx@[k] as int].position
}

/// Whether a loop takes the drafts of a step, and gives the rows of a further one.
pub open spec fn takes_drafts(
    before: DraftLoop,
    after: DraftLoop,
    drafts: Seq<u32>,
    chained: Option<Vec<DraftRow>>,
) -> bool {
    &&& after.seq_ids == before.seq_ids
    &&& after.n_predict == before.n_predict
    &&& after.step == before.step + 1
    &&& after.tokens@.len() == before.tokens@.len()
    &&& forall|i: int|
        0 <= i < drafts.len() ==> (#[trigger] after.tokens@[i])@ == before.tokens@[i]@.push(
            drafts[i],
        )
    &&& chained is None == (after.step == after.n_predict)
    &&& chained matches Some(rows) ==> {
        let m = least(before.seq_ids@.len(), before.cursor@.len(), drafts.len());
        &&& rows@.len() == m
        &&& after.cursor@.len() == before.cursor@.len()
        &&& forall|i: int|
            0 <= i < m ==> #[trigger] rows@[i] == (DraftRow {
                seq_id: before.seq_ids@[i],
                position: (before.cursor@[i] + 1) as usize,
                token: drafts[i],
            }) && after.cursor@[i] == before.cursor@[i] + 1
    }
}

impl DraftLoop {
    /// Whether each sequence has one draft for each step that is done.
    pub open spec fn wf(&self) -> bool {
        &&& self.cursor@.len() == self.tokens@.len()
        &&& self.step <= self.n_predict
        &&& forall|i: int|
            0 <= i < self.tokens@.len() ==> (#[trigger] self.tokens@[i])@.len() == self.step
    }

    /// Begins after the rows that the head has read.
    pub fn begin(seq_ids: Vec<usize>, reads: &DraftReads, n_predict: usize) -> (drafting: DraftLoop)
        requires
            forall|k: int|
                0 <= k < reads.last_row_idx@.len() ==> #[trigger] reads.last_row_idx@[k]
                    < reads.rows@.len(),
        ensures
            drafting.wf(),
            drafting.seq_ids == seq_ids,
            drafting.n_predict == n_predict,
            drafting.step == 0,
            drafting.cursor@.len() == reads.last_row_idx@.len(),
            forall|k: int|
                0 <= k < drafting.cursor@.len() ==> #[trigger] drafting.cursor@[k]
                    == reads.rows@[reads.last_row_idx@[k] as int].position,
            begins_drafting(drafting, *reads),
    {
        let mut cursor: Vec<usize> = Vec::new();
        let mut tokens: Vec<Vec<u32>> = Vec::new();
        let mut i: usize = 0;
        while i < reads.last_row_idx.len()
            invariant
                i <= reads.last_row_idx@.len(),
                forall|k: int|
                    0 <= k < reads.last_row_idx@.len() ==> #[trigger] reads.last_row_idx@[k]
                        < reads.rows@.len(),
                cursor@.len() == i,
                tokens@.len() == i,
                forall|k: int| 0 <= k < i ==> (#[trigger] tokens@[k])@.len() == 0,
                forall|k: int|
                    0 <= k < i ==> #[trigger] cursor@[k]
                        == reads.rows@[reads.last_row_idx@[k] as int].position,
            decreases reads.last_row_idx@.len() - i,
        {
            cursor.push(reads.rows[reads.last_row_idx[i]].position);
            tokens.push(Vec::new());
            i = i + 1;
        }
        DraftLoop { seq_ids, cursor, tokens, n_predict, step: 0 }
    }

    /// Takes the drafts of a step. Where a further step follows, gives the rows
    /// that the head reads for it.
    pub fn accept(&mut self, drafts: &Vec<u32>) -> (chained: Option<Vec<DraftRow>>)
        requires
            old(self).wf(),
            old(self).step < old(self).n_predict,
            drafts@.len() == old(self).tokens@.len(),
            forall|i: int|
                0 <= i < old(self).cursor@.len() ==> #[trigger] old(self).cursor@[i] < usize::MAX,
        ensures
            final(self).wf(),
            final(self).seq_ids == old(self).seq_ids,
            final(self).n_predict == old(self).n_predict,
            final(self).step == old(self).step + 1,
            final(self).tokens@.len() == old(self).tokens@.len(),
            forall|i: int|
                0 <= i < drafts@.len() ==> (#[trigger] final(self).tokens@[i])@ == old(
                    self,
                ).tokens@[i]@.push(drafts@[i]),
            chained is None == (final(self).step == final(self).n_predict),
            takes_drafts(*old(self), *final(self), drafts@, chained),
            match chained {
                None => final(self).cursor@ == old(self).cursor@,
                Some(rows) => {
                    let m = least(
                        old(self).seq_ids@.len(),
                        old(self).cursor@.len(),
                        drafts@.len(),
                    );
                    &&& rows@.len() == m
                    &&& forall|i: int|
                        0 <= i < m ==> #[trigger] rows@[i] == (DraftRow {
                            seq_id: old(self).seq_ids@[i],
                            position: (old(self).cursor@[i] + 1) as usize,
                            token: drafts@[i],
                        })
                    &&& forall|i: int|
                        0 <= i < m ==> (#[trigger] rows@[i]).position == final(self).cursor@[i]
                            && rows@[i].token == final(self).tokens@[i]@.last()
                    &&& final(self).cursor@.len() == old(self).cursor@.len()
                    &&& forall|i: int|
                        0 <= i < final(self).cursor@.len() ==> #[trigger] final(self).cursor@[i]
                            == if i < m {
                            (old(self).cursor@[i] + 1) as usize
                        } else {
                            old(self).cursor@[i]
                        }
                },
            },
    {
        let ghost before = self.tokens@;
        let ghost places = self.cursor@;
        let n_predict: usize = self.n_predict;
        let step: usize = self.step;
        let mut i: usize = 0;
        while i < drafts.len()
            invariant
                i <= drafts@.len(),
                drafts@.len() == before.len(),
                self.tokens@.len() == before.len(),
                self.cursor@ == places,
                self.seq_ids == old(self).seq_ids,
                self.n_predict == n_predict,
                self.step == step,
                forall|k: int|
                    0 <= k < i ==> (#[trigger] self.tokens@[k])@ == before[k]@.push(drafts@[k]),
                forall|k: int| i <= k < before.len() ==> #[trigger] self.tokens@[k] == before[k],
            decreases drafts@.len() - i,
        {
            self.tokens[i].push(drafts[i]);
            i = i + 1;
        }
        self.step = step + 1;
        if step + 1 == n_predict {
            return None;
        }
        let mut rows: Vec<DraftRow> = Vec::new();
        let ghost m = least(self.seq_ids@.len(), places.len(), drafts@.len());
        let ghost tokens = self.tokens@;
        let mut j: usize = 0;
        while j < self.seq_ids.len() && j < self.cursor.len() && j < drafts.len()
            invariant
                j <= m,
                m == least(self.seq_ids@.len(), places.len(), drafts@.len()),
                self.seq_ids == old(self).seq_ids,
                self.n_predict == n_predict,
                self.step == step + 1,
                self.tokens@ == tokens,
                self.cursor@.len() == places.len(),
                forall|k: int| 0 <= k < places.len() ==> #[trigger] places[k] < usize::MAX,
                rows@.len() == j,
                forall|k: int|
                    0 <= k < j ==> #[trigger] rows@[k] == (DraftRow {
                        seq_id: self.seq_ids@[k],
                        position: (places[k] + 1) as usize,
                        token: drafts@[k],
                    }),
                forall|k: int|
                    0 <= k < places.len() ==> #[trigger] self.cursor@[k] == if k < j {
                        (places[k] + 1) as usize
                    } else {
                        places[k]
                    },
            decreases m - j,
        {
            assert(self.cursor@[j as int] == places[j as int]);
            let position: usize = self.cursor[j] + 1;
            self.cursor.set(j, position);
            rows.push(DraftRow { seq_id: self.seq_ids[j], position, token: drafts[j] });
            j = j + 1;
        }
        Some(rows)
    }
}

// What each row stands for.

/// Proposals are made where there are sequences and drafts, each sequence has a place
/// and a length, and no more drafts are asked for than the head predicts.
pub proof fn law_proposals_are_within_bounds(
    batch: usize,
    max_n: usize,
    n_predict: usize,
    target_rows: usize,
    base_lens: usize,
)
    ensures
        propose_outcome(batch, max_n, n_predict, target_rows, base_lens) == Ok::<bool, Seq<char>>(
            true,
        ) <==> {
            &&& batch > 0 && 1 <= n_predict <= max_n
            &&& target_rows == batch && base_lens == batch
        },
        propose_outcome(batch, max_n, n_predict, target_rows, base_lens) == Ok::<bool, Seq<char>>(
            false,
        ) <==> batch == 0 || max_n == 0,
{
}

/// A tail is taken once: by the first sequence of its number, and only where the token
/// after it is known.
pub proof fn law_tails_are_taken_once(
    batch: DraftBatch,
    tails: Map<usize, PendingPromptTail>,
    i: int,
)
    requires
        batch.wf(),
        0 <= i < batch.tokens@.len(),
    ensures
        tail_of(batch, tails, i) is Some <==> {
            &&& tails.contains_key(batch.own_ids@[i])
            &&& forall|j: int| 0 <= j < i ==> #[trigger] batch.own_ids@[j] != batch.own_ids@[i]
            &&& tails[batch.own_ids@[i]].position + 1 < batch.tokens@[i]@.len()
        },
        tail_of(batch, tails, i) matches Some(tail) ==> tail == tails[batch.own_ids@[i]],
{
    law_tails_that_wait(tails, batch.own_ids@, i);
}

/// The tails that still wait are those of sequences that did not come yet, as they were.
pub proof fn law_tails_that_wait(tails: Map<usize, PendingPromptTail>, ids: Seq<usize>, n: int)
    requires
        0 <= n <= ids.len(),
    ensures
        forall|id: usize| #[trigger]
            tails_after(tails, ids, n).contains_key(id) <==> tails.contains_key(id) && forall|
                j: int,
            |
                0 <= j < n ==> #[trigger] ids[j] != id,
        forall|id: usize| #[trigger]
            tails_after(tails, ids, n).contains_key(id) ==> tails_after(tails, ids, n)[id]
                == tails[id],
    decreases n,
{
    if n > 0 {
        law_tails_that_wait(tails, ids, n - 1);
        let before = tails_after(tails, ids, n - 1);
        let after = tails_after(tails, ids, n);
        assert forall|id: usize| #[trigger] after.contains_key(id) <==> tails.contains_key(id)
            && forall|j: int| 0 <= j < n ==> #[trigger] ids[j] != id by {
            assert(before.contains_key(id) <==> tails.contains_key(id) && forall|j: int|
                0 <= j < n - 1 ==> #[trigger] ids[j] != id);
            if id == ids[n - 1] {
                assert(!after.contains_key(id));
            } else if before.contains_key(id) {
                assert forall|j: int| 0 <= j < n implies #[trigger] ids[j] != id by {}
            }
        }
    }
}

/// The rows that the first `n` sequences have before the others: one for each tail that
/// is taken, and one for each row that the target read.
pub open spec fn rows_before(batch: DraftBatch, tails: Map<usize, PendingPromptTail>, n: int) -> nat
    decreases n,
{
    if n <= 0 {
        0
    } else {
        rows_before(batch, tails, n - 1) + tail_rows(batch, tails, n - 1)
            + batch.target_rows@[n - 1].1 as nat
    }
}

/// The rows that sequence `i` has for a tail.
pub open spec fn tail_rows(
    batch: DraftBatch,
    tails: Map<usize, PendingPromptTail>,
    i: int,
) -> nat {
    if tail_of(batch, tails, i) is Some {
        1
    } else {
        0
    }
}

proof fn lemma_rows_before(batch: DraftBatch, tails: Map<usize, PendingPromptTail>, n: int)
    ensures
        refresh_rows(batch, tails, n).len() == rows_before(batch, tails, n),
    decreases n,
{
    if n > 0 {
        lemma_rows_before(batch, tails, n - 1);
    }
}

proof fn lemma_rows_before_rise(
    batch: DraftBatch,
    tails: Map<usize, PendingPromptTail>,
    m: int,
    n: int,
)
    requires
        0 <= m <= n,
    ensures
        rows_before(batch, tails, m) <= rows_before(batch, tails, n),
    decreases n,
{
    if m < n {
        lemma_rows_before_rise(batch, tails, m, n - 1);
    }
}

proof fn lemma_sources_prefix(
    batch: DraftBatch,
    tails: Map<usize, PendingPromptTail>,
    m: int,
    n: int,
)
    requires
        0 <= m <= n,
    ensures
        refresh_sources(batch, tails, m).len() <= refresh_sources(batch, tails, n).len(),
        forall|k: int|
            0 <= k < refresh_sources(batch, tails, m).len() ==> #[trigger] refresh_sources(
                batch,
                tails,
                n,
            )[k] == refresh_sources(batch, tails, m)[k],
    decreases n,
{
    if m < n {
        lemma_sources_prefix(batch, tails, m, n - 1);
        let less = refresh_sources(batch, tails, n - 1);
        assert forall|k: int|
            0 <= k < refresh_sources(batch, tails, m).len() implies #[trigger] refresh_sources(
            batch,
            tails,
            n,
        )[k] == refresh_sources(batch, tails, m)[k] by {
            assert(refresh_sources(batch, tails, n)[k] == less[k]);
        }
    }
}

/// The rows of a part.
pub(crate) open spec fn source_rows(source: HiddenSource) -> nat {
    match source {
        HiddenSource::Tail(_) => 1,
        HiddenSource::Rows { count, .. } => count as nat,
    }
}

proof fn lemma_joined_rows(
    batch: DraftBatch,
    tails: Map<usize, PendingPromptTail>,
    hidden: Tensor,
    parts: Seq<Tensor>,
    m: int,
    n: int,
)
    requires
        batch.wf(),
        tails_wf(tails),
        tensor_dims(hidden).len() == 3,
        0 <= m <= n <= batch.tokens@.len(),
        parts_are(parts, refresh_sources(batch, tails, n), hidden),
    ensures
        joined_entries(parts, 1, refresh_sources(batch, tails, m).len() as int) == rows_before(
            batch,
            tails,
            m,
        ),
    decreases m,
{
    if m > 0 {
        lemma_joined_rows(batch, tails, hidden, parts, m - 1, n);
        lemma_sources_prefix(batch, tails, m, n);
        law_tails_are_taken_once(batch, tails, m - 1);
        let sources = refresh_sources(batch, tails, n);
        let start = refresh_sources(batch, tails, m - 1).len() as int;
        let own = sources_of(batch, tails, m - 1);
        assert(refresh_sources(batch, tails, m) == refresh_sources(batch, tails, m - 1) + own);
        assert forall|k: int| 0 <= k < own.len() implies tensor_dims(#[trigger] parts[start + k])[1]
            == source_rows(own[k]) by {
            assert(sources[start + k] == refresh_sources(batch, tails, m)[start + k]);
            assert(is_source(parts[start + k], sources[start + k], hidden));
            if let Some(tail) = tail_of(batch, tails, m - 1) {
                assert(is_one_state(tail.hidden));
            }
        }
        reveal_with_fuel(joined_entries, 3);
        assert(tensor_dims(parts[start + 0])[1] == source_rows(own[0]));
        if own.len() == 2 {
            assert(tensor_dims(parts[start + 1])[1] == source_rows(own[1]));
        }
    }
}

/// Each row goes with its hidden state: row `r` that the target read of sequence `i`
/// stands behind the rows of the sequences before it and behind its own tail, at
/// the place that it has in the sequence, with the token after that place, and
/// its hidden state is the one that the target has for it.
pub proof fn law_refresh_pairs_states_with_next_tokens(
    batch: DraftBatch,
    tails: Map<usize, PendingPromptTail>,
    hidden: Tensor,
    whole: Tensor,
    i: int,
    r: int,
    h: int,
)
    requires
        batch.wf(),
        tails_wf(tails),
        tensor_dims(hidden).len() == 3,
        0 <= i < batch.tokens@.len(),
        rows_in_range(batch, i),
        joins_sources(whole, refresh_sources(batch, tails, batch.tokens@.len() as int), hidden),
        0 <= r < batch.target_rows@[i].1,
        0 <= h < tensor_dims(hidden)[2],
    ensures
        ({
            let rows = refresh_rows(batch, tails, batch.tokens@.len() as int);
            let k = rows_before(batch, tails, i) + tail_rows(batch, tails, i) + r;
            &&& k < rows.len() == rows_before(batch, tails, batch.tokens@.len() as int)
            &&& rows[k].seq_id == batch.seq_ids@[i]
            &&& rows[k].position == batch.base_lens@[i] - batch.target_rows@[i].1 + r
            &&& rows[k].token == batch.tokens@[i]@[rows[k].position + 1]
            &&& tensor_cell(whole, at3(0, k, h)) == tensor_cell(
                hidden,
                at3(batch.target_rows@[i].0 as int, r, h),
            )
        }),
{
    let n = batch.tokens@.len() as int;
    let sources = refresh_sources(batch, tails, n);
    let parts = choose|parts: Seq<Tensor>| #[trigger]
        parts_are(parts, sources, hidden) && is_joined(whole, parts, 1);
    let k = rows_before(batch, tails, i) + tail_rows(batch, tails, i) + r;
    lemma_rows_before(batch, tails, i);
    lemma_rows_before(batch, tails, i + 1);
    lemma_rows_before(batch, tails, n);
    lemma_rows_before_rise(batch, tails, i + 1, n);
    let own = rows_of(batch, tails, i);
    let at = tail_rows(batch, tails, i) + r;
    assert(refresh_rows(batch, tails, i + 1) == refresh_rows(batch, tails, i) + own);
    assert(refresh_rows(batch, tails, i + 1)[k] == own[at]);
    lemma_refresh_prefix(batch, tails, i + 1, n, k);
    let p = refresh_sources(batch, tails, i + 1).len() - 1;
    lemma_joined_rows(batch, tails, hidden, parts, i, n);
    lemma_joined_rows(batch, tails, hidden, parts, i + 1, n);
    lemma_sources_prefix(batch, tails, i + 1, n);
    let from = sources_of(batch, tails, i);
    assert(refresh_sources(batch, tails, i + 1) == refresh_sources(batch, tails, i) + from);
    assert(sources[p] == from[from.len() - 1]);
    assert(is_source(parts[p], sources[p], hidden));
    assert(joined_entries(parts, 1, p) == rows_before(batch, tails, i) + tail_rows(batch, tails, i));
    let index = at3(0, r, h);
    assert(in_shape(index, tensor_dims(parts[p])));
    assert(index.update(1, index[1] + joined_entries(parts, 1, p)) =~= at3(0, k, h));
    assert(tensor_cell(parts[p], index) == tensor_cell(whole, at3(0, k, h)));
}

/// A tail that is taken is the first row of its sequence: its place is the one that it
/// waited at, its token the one after, and its hidden state the one that was kept.
pub proof fn law_refresh_pairs_tails_with_next_tokens(
    batch: DraftBatch,
    tails: Map<usize, PendingPromptTail>,
    hidden: Tensor,
    whole: Tensor,
    i: int,
    h: int,
)
    requires
        batch.wf(),
        tails_wf(tails),
        tensor_dims(hidden).len() == 3,
        0 <= i < batch.tokens@.len(),
        tail_of(batch, tails, i) is Some,
        joins_sources(whole, refresh_sources(batch, tails, batch.tokens@.len() as int), hidden),
        0 <= h < tensor_dims(tails[batch.own_ids@[i]].hidden)[2],
    ensures
        ({
            let rows = refresh_rows(batch, tails, batch.tokens@.len() as int);
            let tail = tails[batch.own_ids@[i]];
            let k = rows_before(batch, tails, i) as int;
            &&& k < rows.len()
            &&& rows[k].seq_id == batch.seq_ids@[i]
            &&& rows[k].position == tail.position
            &&& rows[k].token == batch.tokens@[i]@[tail.position + 1]
            &&& tensor_cell(whole, at3(0, k, h)) == tensor_cell(tail.hidden, at3(0, 0, h))
        }),
{
    let n = batch.tokens@.len() as int;
    let tail = tails[batch.own_ids@[i]];
    law_tails_are_taken_once(batch, tails, i);
    assert(is_one_state(tail.hidden));
    let sources = refresh_sources(batch, tails, n);
    let parts = choose|parts: Seq<Tensor>| #[trigger]
        parts_are(parts, sources, hidden) && is_joined(whole, parts, 1);
    let k = rows_before(batch, tails, i) as int;
    lemma_rows_before(batch, tails, i);
    lemma_rows_before(batch, tails, i + 1);
    lemma_rows_before(batch, tails, n);
    lemma_rows_before_rise(batch, tails, i + 1, n);
    let own = rows_of(batch, tails, i);
    assert(refresh_rows(batch, tails, i + 1) == refresh_rows(batch, tails, i) + own);
    assert(refresh_rows(batch, tails, i + 1)[k] == own[0]);
    lemma_refresh_prefix(batch, tails, i + 1, n, k);
    let p = refresh_sources(batch, tails, i).len() as int;
    lemma_joined_rows(batch, tails, hidden, parts, i, n);
    lemma_sources_prefix(batch, tails, i + 1, n);
    let from = sources_of(batch, tails, i);
    assert(refresh_sources(batch, tails, i + 1) == refresh_sources(batch, tails, i) + from);
    assert(sources[p] == from[0]);
    assert(is_source(parts[p], sources[p], hidden));
    let index = at3(0, 0, h);
    assert(in_shape(index, tensor_dims(tail.hidden)));
    assert(in_shape(index, tensor_dims(parts[p])));
    assert(index.update(1, index[1] + joined_entries(parts, 1, p)) =~= at3(0, k, h));
    assert(tensor_cell(parts[p], index) == tensor_cell(whole, at3(0, k, h)));
}

/// Every row that a refresh lists pairs a place of a sequence with the token after it.
pub proof fn law_refresh_rows_have_next_tokens(
    batch: DraftBatch,
    tails: Map<usize, PendingPromptTail>,
    n: int,
    k: int,
)
    requires
        batch.wf(),
        0 <= n <= batch.tokens@.len(),
        forall|i: int| 0 <= i < n ==> #[trigger] rows_in_range(batch, i),
        0 <= k < refresh_rows(batch, tails, n).len(),
    ensures
        exists|i: int| 0 <= i < n && #[trigger] has_next_token(batch, refresh_rows(batch, tails, n)[k], i),
    decreases n,
{
    if n > 0 {
        let before = refresh_rows(batch, tails, n - 1);
        let own = rows_of(batch, tails, n - 1);
        assert(refresh_rows(batch, tails, n) == before + own);
        if k < before.len() {
            law_refresh_rows_have_next_tokens(batch, tails, n - 1, k);
            let i = choose|i: int| 0 <= i < n - 1 && #[trigger] has_next_token(batch, before[k], i);
            assert(has_next_token(batch, refresh_rows(batch, tails, n)[k], i));
        } else {
            assert(rows_in_range(batch, n - 1));
            law_tails_are_taken_once(batch, tails, n - 1);
            assert(own[k - before.len()] == refresh_rows(batch, tails, n)[k]);
            assert(has_next_token(batch, refresh_rows(batch, tails, n)[k], n - 1));
        }
    }
}

/// Whether a row is one of sequence `i`, with the token after its place.
pub open spec fn has_next_token(batch: DraftBatch, row: DraftRow, i: int) -> bool {
    &&& row.seq_id == batch.seq_ids@[i]
    &&& row.position + 1 < batch.tokens@[i]@.len()
    &&& row.token == batch.tokens@[i]@[row.position + 1]
}

/// A sequence is read where the target read rows of it, the token after each is known,
/// each has a position, and the hidden states have them.
pub proof fn law_refresh_reads_where_it_can(
    batch: DraftBatch,
    hidden: Tensor,
    positions: Seq<Vec<u32>>,
    i: int,
)
    requires
        tensor_dims(hidden).len() == 3,
    ensures
        refresh_stop(batch, hidden, positions, i) is Nowhere <==> {
            let (batch_idx, count) = batch.target_rows@[i];
            &&& 0 < count <= batch.base_lens@[i] < batch.tokens@[i]@.len()
            &&& batch_idx < positions.len() && count <= positions[batch_idx as int]@.len()
            &&& batch_idx < tensor_dims(hidden)[0] && count <= tensor_dims(hidden)[1]
        },
{
}

/// Each sequence needs room for its tokens and for so many more as are drafted, and
/// sequences are listed in order.
pub proof fn law_room_is_for_drafts(
    seq_ids: Seq<usize>,
    base_lens: Seq<usize>,
    n_predict: usize,
    i: int,
)
    requires
        seq_ids.len() == base_lens.len(),
        0 <= i < seq_ids.len(),
        base_lens[i] + n_predict <= usize::MAX,
    ensures
        room_needed(seq_ids, base_lens, n_predict).len() == seq_ids.len(),
        room_needed(seq_ids, base_lens, n_predict)[i].0 == seq_ids[i],
        room_needed(seq_ids, base_lens, n_predict)[i].1 - base_lens[i] == n_predict,
{
}

/// Rows that are taken of a sequence are its rows, from the first that is asked for on.
pub proof fn law_rows_are_those_of_the_sequence(
    part: Tensor,
    hidden: Tensor,
    batch_idx: usize,
    start: usize,
    count: usize,
    r: int,
    h: int,
)
    requires
        is_rows_of(part, hidden, batch_idx, start, count),
        0 <= r < count,
        0 <= h < tensor_dims(hidden)[2],
    ensures
        tensor_dims(part).len() == 3 && tensor_dims(part)[1] == count,
        tensor_cell(part, seq![0, r, h]) == tensor_cell(
            hidden,
            seq![batch_idx as int, start + r, h],
        ),
{
    assert(at3(0, r, h) =~= seq![0, r, h]);
    assert(at3(batch_idx as int, start + r, h) =~= seq![batch_idx as int, start + r, h]);
    assert(tensor_cell(part, at3(0, r, h)) == tensor_cell(
        hidden,
        at3(batch_idx as int, start + r, h),
    ));
}

/// A sequence lacks no position exactly where each of its rows has one, and else the
/// first that has none is named.
pub proof fn law_missing_positions_are_found(
    positions: Seq<Vec<u32>>,
    batch_idx: usize,
    count: usize,
)
    ensures
        missing_row(positions, batch_idx, count) is None <==> forall|row: usize|
            row < count ==> #[trigger] position_check(positions, batch_idx, row) is Ok,
        missing_row(positions, batch_idx, count) matches Some(row) ==> {
            &&& row < count
            &&& position_check(positions, batch_idx, row) is Err
            &&& forall|other: usize|
                other < row ==> #[trigger] position_check(positions, batch_idx, other) is Ok
        },
{
    match missing_row(positions, batch_idx, count) {
        Some(row) => {
            assert(position_check(positions, batch_idx, row) is Err);
        },
        None => {},
    }
}

/// The least of three counts is one of them and none is less.
pub proof fn law_least(a: nat, b: nat, c: nat)
    ensures
        least(a, b, c) <= a && least(a, b, c) <= b && least(a, b, c) <= c,
        least(a, b, c) == a || least(a, b, c) == b || least(a, b, c) == c,
{
}

/// A draft is added behind those before it, and the head reads it next, in the place after
/// the last row of its sequence; after the last step nothing is read.
pub proof fn law_drafts_are_chained(
    before: DraftLoop,
    after: DraftLoop,
    drafts: Seq<u32>,
    chained: Option<Vec<DraftRow>>,
    i: int,
)
    requires
        before.wf(),
        before.step < before.n_predict,
        takes_drafts(before, after, drafts, chained),
        drafts.len() == before.tokens@.len(),
        before.seq_ids@.len() == drafts.len(),
        0 <= i < drafts.len(),
        before.cursor@[i] < usize::MAX,
    ensures
        after.tokens@[i]@.len() == before.tokens@[i]@.len() + 1,
        after.tokens@[i]@.last() == drafts[i],
        forall|k: int|
            0 <= k < before.tokens@[i]@.len() ==> #[trigger] after.tokens@[i]@[k]
                == before.tokens@[i]@[k],
        chained is Some <==> before.step + 1 < before.n_predict,
        chained matches Some(rows) ==> {
            &&& rows@.len() == drafts.len()
            &&& rows@[i].seq_id == before.seq_ids@[i]
            &&& rows@[i].token == after.tokens@[i]@.last()
            &&& rows@[i].position == before.cursor@[i] + 1
            &&& rows@[i].position == after.cursor@[i]
        },
{
    assert(after.tokens@[i]@ == before.tokens@[i]@.push(drafts[i]));
    if let Some(rows) = chained {
        assert(rows@[i].position == before.cursor@[i] + 1);
    }
}

/// The first draft of a sequence comes from the place of its last row.
pub proof fn law_drafting_begins_at_the_last_rows(drafting: DraftLoop, reads: DraftReads, i: int)
    requires
        begins_drafting(drafting, reads),
        0 <= i < reads.last_row_idx@.len(),
    ensures
        drafting.step == 0,
        i < drafting.cursor@.len(),
        drafting.cursor@[i] == reads.rows@[reads.last_row_idx@[i] as int].position,
{
    assert(drafting.cursor@[i] == reads.rows@[reads.last_row_idx@[i] as int].position);
}

/// Where all sequences are read, a tail still waits exactly where it waited, none of the
/// sequences took it, and its own is listed. It is as it was.
pub proof fn law_tails_left_at_the_end(
    batch: DraftBatch,
    tails: Map<usize, PendingPromptTail>,
    id: usize,
)
    requires
        batch.wf(),
    ensures
        tails_at_end(batch, tails).contains_key(id) <==> {
            &&& tails.contains_key(id)
            &&& batch.seq_ids@.contains(id)
            &&& forall|j: int| 0 <= j < batch.tokens@.len() ==> #[trigger] batch.own_ids@[j] != id
        },
        tails_at_end(batch, tails).contains_key(id) ==> tails_at_end(batch, tails)[id] == tails[id],
{
    let n = batch.tokens@.len() as int;
    law_tails_that_wait(tails, batch.own_ids@, n);
    let rest = tails_after(tails, batch.own_ids@, n);
    assert(rest.contains_key(id) <==> tails.contains_key(id) && forall|j: int|
        0 <= j < n ==> #[trigger] batch.own_ids@[j] != id);
}

/// Where a refresh stops at a sequence, the tails of those before it are taken, and its own
/// exactly where its rows are in range.
pub proof fn law_tails_left_where_it_stops(
    batch: DraftBatch,
    tails: Map<usize, PendingPromptTail>,
    i: int,
    id: usize,
)
    requires
        batch.wf(),
        0 <= i < batch.tokens@.len(),
        forall|j: int| 0 <= j < i ==> #[trigger] batch.own_ids@[j] != id,
        tails.contains_key(id),
    ensures
        batch.own_ids@[i] != id ==> tails_at(batch, tails, i).contains_key(id),
        batch.own_ids@[i] == id ==> (tails_at(batch, tails, i).contains_key(id) <==> !(
        batch.target_rows@[i].1 > 0 && batch.target_rows@[i].1 <= batch.base_lens@[i]
            && batch.base_lens@[i] < batch.tokens@[i]@.len())),
        tails_at(batch, tails, i).contains_key(id) ==> tails_at(batch, tails, i)[id] == tails[id],
{
    law_tails_that_wait(tails, batch.own_ids@, i);
    law_tails_that_wait(tails, batch.own_ids@, i + 1);
    let (before, after) = (
        tails_after(tails, batch.own_ids@, i),
        tails_after(tails, batch.own_ids@, i + 1),
    );
    assert(before.contains_key(id));
    assert(after.contains_key(id) <==> batch.own_ids@[i] != id);
}

/// The hidden states of a source are in their places: those of a tail, or those of
/// the rows of a sequence from its first on.
pub proof fn law_sources_are_read(part: Tensor, source: HiddenSource, hidden: Tensor, r: int, h: int)
    requires
        is_source(part, source, hidden),
        tensor_dims(hidden).len() == 3,
        0 <= r,
        0 <= h < tensor_dims(hidden)[2],
    ensures
        source matches HiddenSource::Rows { batch_idx, count } ==> r < count ==> tensor_cell(
            part,
            at3(0, r, h),
        ) == tensor_cell(hidden, at3(batch_idx as int, r, h)),
        source matches HiddenSource::Tail(tail) ==> in_shape(at3(0, r, h), tensor_dims(tail))
            ==> tensor_cell(part, at3(0, r, h)) == tensor_cell(tail, at3(0, r, h)),
{
}

/// A refresh of sequences that can be read succeeds on the host: where hidden states and
/// tails are there, tails are rows like those of the hidden states, and all rows together
/// are counted.
pub proof fn law_refresh_succeeds_on_the_host(
    batch: DraftBatch,
    tails: Map<usize, PendingPromptTail>,
    hidden: Tensor,
    positions: Seq<Vec<u32>>,
)
    requires
        batch.wf(),
        batch.tokens@.len() > 0,
        tensor_dims(hidden).len() == 3,
        on_host(hidden),
        plain_type(tensor_type(hidden)),
        forall|i: int|
            0 <= i < batch.tokens@.len() ==> #[trigger] refresh_stop(
                batch,
                hidden,
                positions,
                i,
            ) is Nowhere,
        forall|id: usize| #[trigger]
            tails.contains_key(id) ==> on_one_device(tails[id].hidden, hidden) && tensor_type(
                tails[id].hidden,
            ) == tensor_type(hidden) && tensor_dims(tails[id].hidden) == seq![
                1,
                1,
                tensor_dims(hidden)[2],
            ],
        countable(
            seq![
                1,
                refresh_rows(batch, tails, batch.tokens@.len() as int).len() as usize,
                tensor_dims(hidden)[2],
            ],
        ),
    ensures
        refreshes_freely(batch, tails, hidden, positions),
{
    let n = batch.tokens@.len() as int;
    assert forall|i: int| 0 <= i < n implies #[trigger] is_decided(batch, tails, hidden, i)
        && refresh_stop(batch, hidden, positions, i) is Nowhere by {
        law_tails_are_taken_once(batch, tails, i);
        if tail_of(batch, tails, i) is Some {
            assert(tails.contains_key(batch.own_ids@[i]));
        }
    }
    lemma_sources_fit(batch, tails, hidden, n);
}

proof fn lemma_sources_fit(
    batch: DraftBatch,
    tails: Map<usize, PendingPromptTail>,
    hidden: Tensor,
    n: int,
)
    requires
        batch.wf(),
        0 <= n <= batch.tokens@.len(),
        forall|id: usize| #[trigger]
            tails.contains_key(id) ==> tensor_type(tails[id].hidden) == tensor_type(hidden)
                && tensor_dims(tails[id].hidden) == seq![1, 1, tensor_dims(hidden)[2]],
    ensures
        n > 0 ==> refresh_sources(batch, tails, n).len() > 0,
        forall|k: int|
            0 <= k < refresh_sources(batch, tails, n).len() ==> (#[trigger] refresh_sources(
                batch,
                tails,
                n,
            )[k] matches HiddenSource::Tail(tail) ==> fits_beside(tail, hidden)),
    decreases n,
{
    if n > 0 {
        lemma_sources_fit(batch, tails, hidden, n - 1);
        law_tails_are_taken_once(batch, tails, n - 1);
        let before = refresh_sources(batch, tails, n - 1);
        let own = sources_of(batch, tails, n - 1);
        let all = refresh_sources(batch, tails, n);
        assert forall|k: int| 0 <= k < all.len() implies (#[trigger] all[k] matches HiddenSource::Tail(
            tail,
        ) ==> fits_beside(tail, hidden)) by {
            if k < before.len() {
                assert(all[k] == before[k]);
            } else {
                assert(all[k] == own[k - before.len()]);
                if tail_of(batch, tails, n - 1) is Some {
                    assert(tails.contains_key(batch.own_ids@[n - 1]));
                }
            }
        }
    }
}

/// The states of rows that are there, and counted by a `u32`, are selected.
pub proof fn law_last_rows_are_selected(dims: Seq<usize>, rows: Seq<usize>)
    requires
        dims.len() == 3,
        countable(selected_dims(dims, rows.len(), 1)),
    ensures
        can_select_rows(dims, rows) <==> forall|k: int|
            0 <= k < rows.len() ==> #[trigger] rows[k] < dims[1] && rows[k] < u32::MAX,
{
}

} // verus!
