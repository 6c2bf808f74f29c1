//! The rows that the head reads of a chunk of prompts.
use candle_core::Tensor;
use std::collections::HashMap;
use vstd::prelude::*;

use crate::qwen3_next::draft::{
    has_rows, is_rows_of, is_source, joins_freely, joins_sources, lemma_joins_freely,
    lemma_parts_join, lemma_push_part, lemma_rows_count, parts_are, parts_count, positions_stop,
    push_rows, sequence_rows, tails_wf, take_rows, HiddenSource, PendingPromptTail, Stop,
};
use crate::qwen3_next::mtp::DraftRow;
use crate::tensor::{
    at3, cat, countable, dims_of, in_shape, is_joined, joined_entries, on_host, plain_type,
    same_kind, tensor_cell, tensor_dims, tensor_fault, tensor_type,
};
use crate::text::{dec, decimal, Fault};

verus! {

/// The sequences of a chunk.
#[derive(Debug)]
pub struct PrefillBatch {
    pub seq_ids: Vec<usize>,
    /// The place of each sequence among the hidden states.
    pub batch_indices: Vec<usize>,
    pub tokens: Vec<Vec<u32>>,
    /// The places that the chunk has of each sequence.
    pub chunk_ranges: Vec<(usize, usize)>,
    /// Whether the prompts end with the chunk.
    pub is_final: bool,
    /// Whether the head reads the chunk as one block, as the target did.
    pub as_block: bool,
}

impl PrefillBatch {
    pub open spec fn wf(&self) -> bool {
        let n = self.seq_ids@.len();
        &&& self.batch_indices@.len() >= n
        &&& self.tokens@.len() >= n
        &&& self.chunk_ranges@.len() >= n
    }

    /// The rows of sequence `i` that are read now. That of the last token of a
    /// prompt waits for the token after it.
    pub open spec fn count(&self, i: int) -> int {
        let (start, end) = self.chunk_ranges@[i];
        if self.is_final {
            end - 1 - start
        } else {
            end - start
        }
    }

    /// Whether the rows of sequence `i` are listed.
    pub open spec fn lists(&self, i: int) -> bool {
        !self.as_block && self.count(i) > 0
    }
}

pub open spec fn prefill_stop(
    batch: PrefillBatch,
    hidden: Tensor,
    positions: Seq<Vec<u32>>,
    i: int,
) -> Stop {
    let (start, end) = batch.chunk_ranges@[i];
    let batch_idx = batch.batch_indices@[i];
    let toks = batch.tokens@[i]@;
    let room = tensor_dims(hidden)[1];
    if end <= start || room < end - start {
        Stop::Said(
            "MTP prefill rows out of range: chunk=("@ + dec(start as nat) + ", "@ + dec(end as nat)
                + "), hidden rows="@ + dec(room as nat),
        )
    } else if batch.is_final && !has_rows(hidden, batch_idx, (end - 1 - start) as usize, 1) {
        Stop::Lacking
    } else if !batch.lists(i) {
        Stop::Nowhere
    } else if toks.len() <= start + batch.count(i) {
        Stop::Said(
            "MTP prefill tokens out of range: chunk=("@ + dec(start as nat) + ", "@ + dec(
                end as nat,
            ) + "), toks="@ + dec(toks.len()),
        )
    } else {
        positions_stop(positions, hidden, batch_idx, batch.count(i) as usize)
    }
}

pub open spec fn prefill_rows(batch: PrefillBatch, n: int) -> Seq<DraftRow>
    decreases n,
{
    if n <= 0 {
        Seq::empty()
    } else if batch.lists(n - 1) {
        prefill_rows(batch, n - 1) + sequence_rows(
            batch.seq_ids@[n - 1],
            batch.tokens@[n - 1]@,
            batch.chunk_ranges@[n - 1].0 as int,
            batch.count(n - 1) as usize,
        )
    } else {
        prefill_rows(batch, n - 1)
    }
}

pub open spec fn prefill_sources(batch: PrefillBatch, n: int) -> Seq<HiddenSource>
    decreases n,
{
    if n <= 0 {
        Seq::empty()
    } else if batch.lists(n - 1) {
        prefill_sources(batch, n - 1).push(
            HiddenSource::Rows {
                batch_idx: batch.batch_indices@[n - 1],
                count: batch.count(n - 1) as usize,
            },
        )
    } else {
        prefill_sources(batch, n - 1)
    }
}

/// Whether a tail is the last hidden state of the prompt of sequence `i`.
pub open spec fn is_tail_of(
    tail: PendingPromptTail,
    batch: PrefillBatch,
    hidden: Tensor,
    i: int,
) -> bool {
    let (start, end) = batch.chunk_ranges@[i];
    &&& tail.position == end - 1
    &&& is_rows_of(
        tail.hidden,
        hidden,
        batch.batch_indices@[i],
        (end - 1 - start) as usize,
        1,
    )
}

/// Whether sequence `i` is the last of the first `n` with its number.
pub open spec fn is_newest(batch: PrefillBatch, i: int, n: int) -> bool {
    forall|k: int| i < k < n ==> #[trigger] batch.seq_ids@[k] != batch.seq_ids@[i]
}

/// Whether the tails are those that were there, and the new ones of the first
/// `n` sequences of prompts that end.
pub open spec fn tails_are(
    tails: Map<usize, PendingPromptTail>,
    before: Map<usize, PendingPromptTail>,
    batch: PrefillBatch,
    hidden: Tensor,
    n: int,
) -> bool {
    &&& forall|id: usize| #[trigger]
        tails.contains_key(id) == (before.contains_key(id) || (batch.is_final
            && batch.seq_ids@.take(n).contains(id)))
    &&& forall|id: usize|
        before.contains_key(id) && !(batch.is_final && batch.seq_ids@.take(n).contains(id))
            ==> #[trigger] tails[id] == before[id]
    &&& batch.is_final ==> forall|i: int|
        0 <= i < n && #[trigger] is_newest(batch, i, n) ==> is_tail_of(
            tails[batch.seq_ids@[i]],
            batch,
            hidden,
            i,
        )
}

/// What the head reads of a chunk.
pub enum PrefillReads {
    Nothing,
    /// The chunk as one block.
    Block,
    /// Rows, and the hidden states that go with them.
    Rows { rows: Vec<DraftRow>, hidden: Tensor },
}

proof fn lemma_tails_insert(
    tails: Map<usize, PendingPromptTail>,
    before: Map<usize, PendingPromptTail>,
    batch: PrefillBatch,
    hidden: Tensor,
    i: int,
    tail: PendingPromptTail,
)
    requires
        batch.wf(),
        batch.is_final,
        0 <= i < batch.seq_ids@.len(),
        tails_are(tails, before, batch, hidden, i),
        is_tail_of(tail, batch, hidden, i),
    ensures
        tails_are(tails.insert(batch.seq_ids@[i], tail), before, batch, hidden, i + 1),
{
    let ids = batch.seq_ids@;
    let id = ids[i];
    let now = tails.insert(id, tail);
    let old_ids = ids.take(i);
    let new_ids = ids.take(i + 1);
    assert(new_ids =~= old_ids.push(id));
    assert forall|other: usize| #[trigger]
        new_ids.contains(other) == (old_ids.contains(other) || other == id) by {
        if old_ids.contains(other) {
            let k = choose|k: int| 0 <= k < old_ids.len() && old_ids[k] == other;
            assert(new_ids[k] == other);
        }
        if other == id {
            assert(new_ids[i] == other);
        }
        if new_ids.contains(other) && other != id {
            let k = choose|k: int| 0 <= k < new_ids.len() && new_ids[k] == other;
            assert(old_ids[k] == other);
        }
    }
    assert forall|other: usize| #[trigger]
        now.contains_key(other) == (before.contains_key(other) || (batch.is_final && ids.take(
            i + 1,
        ).contains(other))) by {
        assert(tails.contains_key(other) == (before.contains_key(other) || ids.take(i).contains(
            other,
        )));
    }
    assert forall|k: int| 0 <= k < i + 1 && #[trigger] is_newest(batch, k, i + 1) implies is_tail_of(
        now[ids[k]],
        batch,
        hidden,
        k,
    ) by {
        if k < i {
            assert(ids[i] != ids[k]);
            assert(is_newest(batch, k, i));
            assert(now[ids[k]] == tails[ids[k]]);
        }
    }
}

fn rows_fault(start: usize, end: usize, room: usize) -> (fault: Fault)
    ensures
        fault@ == "MTP prefill rows out of range: chunk=("@ + dec(start as nat) + ", "@ + dec(
            end as nat,
        ) + "), hidden rows="@ + dec(room as nat),
{
    Fault::new(
        String::from_str("MTP prefill rows out of range: chunk=(").concat(
            decimal(start as u64).as_str(),
        ).concat(", ").concat(decimal(end as u64).as_str()).concat("), hidden rows=").concat(
            decimal(room as u64).as_str(),
        ),
    )
}

fn tokens_fault(start: usize, end: usize, toks: usize) -> (fault: Fault)
    ensures
        fault@ == "MTP prefill tokens out of range: chunk=("@ + dec(start as nat) + ", "@ + dec(
            end as nat,
        ) + "), toks="@ + dec(toks as nat),
{
    Fault::new(
        String::from_str("MTP prefill tokens out of range: chunk=(").concat(
            decimal(start as u64).as_str(),
        ).concat(", ").concat(decimal(end as u64).as_str()).concat("), toks=").concat(
            decimal(toks as u64).as_str(),
        ),
    )
}

struct Gathering {
    rows: Vec<DraftRow>,
    parts: Vec<Tensor>,
}

spec fn gathered(g: Gathering, batch: PrefillBatch, hidden: Tensor, n: int) -> bool {
    &&& g.rows@ == prefill_rows(batch, n)
    &&& parts_are(g.parts@, prefill_sources(batch, n), hidden)
    &&& parts_count(g.parts@)
    &&& joined_entries(g.parts@, 1, g.parts@.len() as int) == g.rows@.len()
}

spec fn stop_says(stop: Stop, fault: Fault) -> bool {
    match stop {
        Stop::Nowhere => false,
        Stop::Said(message) => fault@ == message,
        Stop::Lacking => true,
    }
}

pub open spec fn in_chunk(batch: PrefillBatch, hidden: Tensor, i: int) -> bool {
    let (start, end) = batch.chunk_ranges@[i];
    start < end && end - start <= tensor_dims(hidden)[1]
}

/// The sequences whose tails are kept where the reading stops at sequence `i`. Its
/// own is, unless its chunk or its last hidden state is not there.
pub open spec fn kept_at(batch: PrefillBatch, hidden: Tensor, i: int) -> int {
    let (start, end) = batch.chunk_ranges@[i];
    if in_chunk(batch, hidden, i) && (batch.is_final ==> has_rows(
        hidden,
        batch.batch_indices@[i],
        (end - 1 - start) as usize,
        1,
    )) {
        i + 1
    } else {
        i
    }
}

/// Keeps the tail of a sequence whose prompt ends.
fn keep_tail(
    batch: &PrefillBatch,
    i: usize,
    tails: &mut HashMap<usize, PendingPromptTail>,
    hidden: &Tensor,
    Ghost(before): Ghost<Map<usize, PendingPromptTail>>,
) -> (r: Result<(), Fault>)
    requires
        batch.wf(),
        i < batch.seq_ids@.len(),
        tensor_dims(*hidden).len() == 3,
        in_chunk(*batch, *hidden, i as int),
        tails_wf(old(tails)@),
        tails_are(old(tails)@, before, *batch, *hidden, i as int),
    ensures
        tails_wf(final(tails)@),
        match r {
            Ok(()) => {
                let (start, end) = batch.chunk_ranges@[i as int];
                &&& tails_are(final(tails)@, before, *batch, *hidden, i + 1)
                &&& batch.is_final ==> has_rows(
                    *hidden,
                    batch.batch_indices@[i as int],
                    (end - 1 - start) as usize,
                    1,
                )
            },
            Err(_) => {
                let (start, end) = batch.chunk_ranges@[i as int];
                &&& final(tails)@ == old(tails)@
                &&& batch.is_final
                &&& !has_rows(
                    *hidden,
                    batch.batch_indices@[i as int],
                    (end - 1 - start) as usize,
                    1,
                )
            },
        },
{
    if !batch.is_final {
        proof {
            lemma_no_tails(tails@, before, *batch, *hidden, i as int);
        }
        return Ok(());
    }
    let (start, end): (usize, usize) = batch.chunk_ranges[i];
    match take_rows(hidden, batch.batch_indices[i], end - 1 - start, 1) {
        Ok(part) => {
            let tail: PendingPromptTail = PendingPromptTail { position: end - 1, hidden: part };
            proof {
                lemma_tails_insert(tails@, before, *batch, *hidden, i as int, tail);
            }
            broadcast use vstd::std_specs::hash::group_hash_axioms;

            tails.insert(batch.seq_ids[i], tail);
            Ok(())
        },
        Err(fault) => Err(fault),
    }
}

/// Lists the rows of a sequence that are read now.
fn list_rows(
    g: &mut Gathering,
    batch: &PrefillBatch,
    i: usize,
    hidden: &Tensor,
    positions: &Vec<Vec<u32>>,
) -> (r: Result<(), Fault>)
    requires
        batch.wf(),
        i < batch.seq_ids@.len(),
        tensor_dims(*hidden).len() == 3,
        countable(tensor_dims(*hidden)),
        in_chunk(*batch, *hidden, i as int),
        batch.is_final ==> has_rows(
            *hidden,
            batch.batch_indices@[i as int],
            (batch.chunk_ranges@[i as int].1 - 1 - batch.chunk_ranges@[i as int].0) as usize,
            1,
        ),
        gathered(*old(g), *batch, *hidden, i as int),
    ensures
        match r {
            Ok(()) => prefill_stop(*batch, *hidden, positions@, i as int) is Nowhere && gathered(
                *final(g),
                *batch,
                *hidden,
                i + 1,
            ),
            Err(fault) => stop_says(prefill_stop(*batch, *hidden, positions@, i as int), fault),
        },
{
    let batch_idx: usize = batch.batch_indices[i];
    let toks: &Vec<u32> = &batch.tokens[i];
    let (start, end): (usize, usize) = batch.chunk_ranges[i];
    let last: usize = if batch.is_final {
        end - 1
    } else {
        end
    };
    let count: usize = last - start;
    assert(count == batch.count(i as int));
    if batch.as_block || count == 0 {
        return Ok(());
    }
    if toks.len() <= last {
        return Err(tokens_fault(start, end, toks.len()));
    }
    match push_rows(&mut g.rows, batch.seq_ids[i], toks, start, count, positions, batch_idx) {
        Ok(()) => {},
        Err(fault) => return Err(fault),
    }
    match take_rows(hidden, batch_idx, 0, count) {
        Ok(part) => {
            proof {
                lemma_rows_count(part, *hidden, batch_idx, 0, count);
                lemma_push_part(
                    g.parts@,
                    prefill_sources(*batch, i as int),
                    *hidden,
                    part,
                    HiddenSource::Rows { batch_idx, count },
                );
            }
            g.parts.push(part);
        },
        Err(fault) => return Err(fault),
    }
    Ok(())
}

/// Keeps the tail of a sequence whose prompt ends, and lists the rows that are
/// read now.
fn gather_chunk(
    g: &mut Gathering,
    batch: &PrefillBatch,
    i: usize,
    tails: &mut HashMap<usize, PendingPromptTail>,
    hidden: &Tensor,
    positions: &Vec<Vec<u32>>,
    Ghost(before): Ghost<Map<usize, PendingPromptTail>>,
) -> (r: Result<(), Fault>)
    requires
        batch.wf(),
        i < batch.seq_ids@.len(),
        tensor_dims(*hidden).len() == 3,
        countable(tensor_dims(*hidden)),
        tails_wf(old(tails)@),
        tails_are(old(tails)@, before, *batch, *hidden, i as int),
        gathered(*old(g), *batch, *hidden, i as int),
    ensures
        tails_wf(final(tails)@),
        tails_are(
            final(tails)@,
            before,
            *batch,
            *hidden,
            kept_at(*batch, *hidden, i as int),
        ),
        match r {
            Ok(()) => {
                &&& prefill_stop(*batch, *hidden, positions@, i as int) is Nowhere
                &&& tails_are(final(tails)@, before, *batch, *hidden, i + 1)
                &&& gathered(*final(g), *batch, *hidden, i + 1)
            },
            Err(fault) => stop_says(prefill_stop(*batch, *hidden, positions@, i as int), fault),
        },
{
    let (start, end): (usize, usize) = batch.chunk_ranges[i];
    let dims: Vec<usize> = dims_of(hidden);
    if end <= start || dims[1] < end - start {
        return Err(rows_fault(start, end, dims[1]));
    }
    match keep_tail(batch, i, tails, hidden, Ghost(before)) {
        Ok(()) => {},
        Err(fault) => return Err(fault),
    }
    list_rows(g, batch, i, hidden, positions)
}

proof fn lemma_no_tails(
    tails: Map<usize, PendingPromptTail>,
    before: Map<usize, PendingPromptTail>,
    batch: PrefillBatch,
    hidden: Tensor,
    i: int,
)
    requires
        !batch.is_final,
        tails_are(tails, before, batch, hidden, i),
    ensures
        tails_are(tails, before, batch, hidden, i + 1),
{
}

/// Whether the reading of a chunk fails at sequence `i`, the first that stops, with
/// its message, and leaves the tails that were kept by then. It fails past the
/// last sequence where a device does.
pub open spec fn breaks_at(
    left: Map<usize, PendingPromptTail>,
    tails: Map<usize, PendingPromptTail>,
    batch: PrefillBatch,
    hidden: Tensor,
    positions: Seq<Vec<u32>>,
    message: Seq<char>,
    i: int,
) -> bool {
    let n = batch.seq_ids@.len() as int;
    &&& 0 <= i <= n
    &&& forall|k: int|
        0 <= k < i ==> #[trigger] prefill_stop(batch, hidden, positions, k) is Nowhere
    &&& if i == n {
        tails_are(left, tails, batch, hidden, n)
    } else {
        &&& tails_are(left, tails, batch, hidden, kept_at(batch, hidden, i))
        &&& match prefill_stop(batch, hidden, positions, i) {
            Stop::Nowhere => false,
            Stop::Said(said) => message == said,
            Stop::Lacking => true,
        }
    }
}

/// Whether the reading of a chunk fails at some sequence, or past the last.
pub open spec fn breaks(
    left: Map<usize, PendingPromptTail>,
    tails: Map<usize, PendingPromptTail>,
    batch: PrefillBatch,
    hidden: Tensor,
    positions: Seq<Vec<u32>>,
    message: Seq<char>,
) -> bool {
    exists|i: int| #[trigger] breaks_at(left, tails, batch, hidden, positions, message, i)
}

/// Whether a chunk is read without the help of a device.
pub open spec fn reads_freely(
    batch: PrefillBatch,
    hidden: Tensor,
    positions: Seq<Vec<u32>>,
) -> bool {
    let n = batch.seq_ids@.len() as int;
    &&& forall|i: int|
        0 <= i < n ==> #[trigger] prefill_stop(batch, hidden, positions, i) is Nowhere
    &&& {
        ||| batch.as_block
        ||| prefill_rows(batch, n).len() == 0
        ||| joins_freely(prefill_sources(batch, n), prefill_rows(batch, n).len(), hidden)
    }
}

/// What the head reads of a chunk of prompts. The last hidden state of each
/// prompt that ends is kept until the token after it is known.
pub fn gather_prefill(
    batch: &PrefillBatch,
    tails: &mut HashMap<usize, PendingPromptTail>,
    hidden: &Tensor,
    positions: &Vec<Vec<u32>>,
) -> (reads: Result<PrefillReads, Fault>)
    requires
        batch.wf(),
        tails_wf(old(tails)@),
        tensor_dims(*hidden).len() == 3,
        countable(tensor_dims(*hidden)),
    ensures
        tails_wf(final(tails)@),
        ({
            let n = batch.seq_ids@.len() as int;
            let rows = prefill_rows(*batch, n);
            match reads {
                Ok(reads) => {
                    &&& forall|i: int|
                        0 <= i < n ==> #[trigger] prefill_stop(*batch, *hidden, positions@, i) is Nowhere
                    &&& tails_are(final(tails)@, old(tails)@, *batch, *hidden, n)
                    &&& match reads {
                        PrefillReads::Block => batch.as_block,
                        PrefillReads::Nothing => !batch.as_block && rows.len() == 0,
                        PrefillReads::Rows { rows: list, hidden: joined } => {
                            &&& !batch.as_block
                            &&& rows.len() > 0
                            &&& list@ == rows
                            &&& joins_sources(joined, prefill_sources(*batch, n), *hidden)
                            &&& tensor_dims(joined)[1] == rows.len()
                            &&& same_kind(joined, *hidden)
                        },
                    }
                },
                Err(fault) => {
                    &&& !reads_freely(*batch, *hidden, positions@)
                    &&& breaks(final(tails)@, old(tails)@, *batch, *hidden, positions@, fault@)
                },
            }
        }),
{
    let ghost before = tails@;
    let ghost n = batch.seq_ids@.len() as int;
    let mut g: Gathering = Gathering { rows: Vec::new(), parts: Vec::new() };
    let mut i: usize = 0;
    assert(batch.seq_ids@.take(0) =~= Seq::<usize>::empty());
    while i < batch.seq_ids.len()
        invariant
            i <= batch.seq_ids@.len(),
            n == batch.seq_ids@.len(),
            batch.wf(),
            before == old(tails)@,
            tensor_dims(*hidden).len() == 3,
            countable(tensor_dims(*hidden)),
            tails_wf(tails@),
            tails_are(tails@, before, *batch, *hidden, i as int),
            forall|k: int|
                0 <= k < i ==> #[trigger] prefill_stop(*batch, *hidden, positions@, k) is Nowhere,
            gathered(g, *batch, *hidden, i as int),
        decreases batch.seq_ids@.len() - i,
    {
        match gather_chunk(&mut g, batch, i, tails, hidden, positions, Ghost(before)) {
            Ok(()) => {},
            Err(fault) => {
                assert(!(prefill_stop(*batch, *hidden, positions@, i as int) is Nowhere));
                assert(breaks_at(
                    tails@,
                    before,
                    *batch,
                    *hidden,
                    positions@,
                    fault@,
                    i as int,
                ));
                return Err(fault);
            },
        }
        i = i + 1;
    }
    if batch.as_block {
        return Ok(PrefillReads::Block);
    }
    if g.rows.len() == 0 {
        return Ok(PrefillReads::Nothing);
    }
    let len: usize = g.rows.len();
    let ghost parts = g.parts@;
    assert(parts_are(parts, prefill_sources(*batch, n), *hidden));
    proof {
        lemma_parts_join(parts);
        if reads_freely(*batch, *hidden, positions@) {
            lemma_joins_freely(parts, prefill_sources(*batch, n), len as nat, *hidden);
        }
    }
    match cat(&g.parts, 1) {
        Ok(joined) => {
            proof {
                assert(is_joined(joined, parts, 1));
                assert(1 < tensor_dims(parts[0]).len());
                assert(is_source(parts[0], prefill_sources(*batch, n)[0], *hidden));
                lemma_only_rows(*batch, n);
            }
            Ok(PrefillReads::Rows { rows: g.rows, hidden: joined })
        },
        Err(error) => {
            let fault: Fault = tensor_fault(error);
            assert(breaks_at(tails@, before, *batch, *hidden, positions@, fault@, n));
            Err(fault)
        },
    }
}

/// The hidden states of a chunk are rows of its own.
proof fn lemma_only_rows(batch: PrefillBatch, n: int)
    ensures
        forall|k: int|
            0 <= k < prefill_sources(batch, n).len() ==> #[trigger] prefill_sources(batch, n)[k] is Rows,
    decreases n,
{
    if n > 0 {
        lemma_only_rows(batch, n - 1);
    }
}

/// Nothing of a chunk is lost: each of its places is that of a row that is read
/// now, or that of the tail.
pub proof fn law_chunk_rows_are_complete(batch: PrefillBatch, hidden: Tensor, i: int, place: int)
    requires
        batch.wf(),
        0 <= i < batch.seq_ids@.len(),
        in_chunk(batch, hidden, i),
        batch.chunk_ranges@[i].0 <= place < batch.chunk_ranges@[i].1,
    ensures
        ({
            let (start, end) = batch.chunk_ranges@[i];
            let rows = sequence_rows(
                batch.seq_ids@[i],
                batch.tokens@[i]@,
                start as int,
                batch.count(i) as usize,
            );
            ||| batch.is_final && place == end - 1 && rows.len() == end - 1 - start
            ||| place - start < rows.len() && rows[place - start].position == place
        }),
{
}

// What each row stands for.

/// The places of sequence `i` that are read now: all of its chunk, but for the last of a
/// prompt that ends, and none where the chunk is read as a block.
pub open spec fn read_now(batch: PrefillBatch, i: int) -> int {
    let (start, end) = batch.chunk_ranges@[i];
    if batch.as_block || end <= start {
        0
    } else if batch.is_final {
        end - start - 1
    } else {
        end - start
    }
}

/// The rows that the first `n` sequences have before the others.
pub open spec fn rows_before(batch: PrefillBatch, n: int) -> int
    decreases n,
{
    if n <= 0 {
        0
    } else {
        rows_before(batch, n - 1) + read_now(batch, n - 1)
    }
}

pub open spec fn ranges_rise(batch: PrefillBatch) -> bool {
    forall|i: int|
        0 <= i < batch.seq_ids@.len() ==> (#[trigger] batch.chunk_ranges@[i]).0
            < batch.chunk_ranges@[i].1
}

proof fn lemma_rows_before(batch: PrefillBatch, n: int)
    requires
        batch.wf(),
        ranges_rise(batch),
        0 <= n <= batch.seq_ids@.len(),
    ensures
        prefill_rows(batch, n).len() == rows_before(batch, n),
    decreases n,
{
    if n > 0 {
        lemma_rows_before(batch, n - 1);
        assert(batch.chunk_ranges@[n - 1].0 < batch.chunk_ranges@[n - 1].1);
    }
}

proof fn lemma_prefill_prefix(batch: PrefillBatch, m: int, n: int)
    requires
        0 <= m <= n,
    ensures
        prefill_rows(batch, m).len() <= prefill_rows(batch, n).len(),
        forall|k: int|
            0 <= k < prefill_rows(batch, m).len() ==> #[trigger] prefill_rows(batch, n)[k]
                == prefill_rows(batch, m)[k],
        prefill_sources(batch, m).len() <= prefill_sources(batch, n).len(),
        forall|k: int|
            0 <= k < prefill_sources(batch, m).len() ==> #[trigger] prefill_sources(batch, n)[k]
                == prefill_sources(batch, m)[k],
    decreases n,
{
    if m < n {
        lemma_prefill_prefix(batch, m, n - 1);
    }
}

proof fn lemma_joined_rows(
    batch: PrefillBatch,
    hidden: Tensor,
    parts: Seq<Tensor>,
    m: int,
    n: int,
)
    requires
        batch.wf(),
        ranges_rise(batch),
        tensor_dims(hidden).len() == 3,
        0 <= m <= n <= batch.seq_ids@.len(),
        parts_are(parts, prefill_sources(batch, n), hidden),
    ensures
        joined_entries(parts, 1, prefill_sources(batch, m).len() as int) == rows_before(batch, m),
    decreases m,
{
    if m > 0 {
        lemma_joined_rows(batch, hidden, parts, m - 1, n);
        lemma_prefill_prefix(batch, m, n);
        assert(batch.chunk_ranges@[m - 1].0 < batch.chunk_ranges@[m - 1].1);
        if batch.lists(m - 1) {
            let p = prefill_sources(batch, m - 1).len() as int;
            let sources = prefill_sources(batch, n);
            assert(sources[p] == prefill_sources(batch, m)[p]);
            assert(is_source(parts[p], sources[p], hidden));
        }
    }
}

/// Each row goes with its hidden state: the row of place `start + r` of sequence `i`
/// stands behind the rows of the sequences before it, with the token after its
/// place, and its hidden state is row `r` of the sequence's chunk.
pub proof fn law_prefill_pairs_states_with_next_tokens(
    batch: PrefillBatch,
    hidden: Tensor,
    whole: Tensor,
    i: int,
    r: int,
    h: int,
)
    requires
        batch.wf(),
        ranges_rise(batch),
        tensor_dims(hidden).len() == 3,
        0 <= i < batch.seq_ids@.len(),
        joins_sources(whole, prefill_sources(batch, batch.seq_ids@.len() as int), hidden),
        0 <= r < read_now(batch, i),
        0 <= h < tensor_dims(hidden)[2],
    ensures
        ({
            let n = batch.seq_ids@.len() as int;
            let rows = prefill_rows(batch, n);
            let k = rows_before(batch, i) + r;
            &&& k < rows.len() == rows_before(batch, n)
            &&& rows[k].seq_id == batch.seq_ids@[i]
            &&& rows[k].position == batch.chunk_ranges@[i].0 + r
            &&& rows[k].token == batch.tokens@[i]@[batch.chunk_ranges@[i].0 + r + 1]
            &&& tensor_cell(whole, at3(0, k, h)) == tensor_cell(
                hidden,
                at3(batch.batch_indices@[i] as int, r, h),
            )
        }),
{
    let n = batch.seq_ids@.len() as int;
    let sources = prefill_sources(batch, n);
    let parts = choose|parts: Seq<Tensor>| #[trigger]
        parts_are(parts, sources, hidden) && is_joined(whole, parts, 1);
    let k = rows_before(batch, i) + r;
    lemma_rows_before(batch, i);
    lemma_rows_before(batch, i + 1);
    lemma_rows_before(batch, n);
    lemma_prefill_prefix(batch, i + 1, n);
    assert(batch.lists(i));
    assert(prefill_rows(batch, n)[k] == prefill_rows(batch, i + 1)[k]);
    let p = prefill_sources(batch, i).len() as int;
    lemma_joined_rows(batch, hidden, parts, i, n);
    assert(sources[p] == prefill_sources(batch, i + 1)[p]);
    assert(is_source(parts[p], sources[p], hidden));
    let index = at3(0, r, h);
    assert(in_shape(index, tensor_dims(parts[p])));
    assert(index.update(1, index[1] + joined_entries(parts, 1, p)) =~= at3(0, k, h));
    assert(tensor_cell(parts[p], index) == tensor_cell(whole, at3(0, k, h)));
}

/// The tail of a prompt is what is not read now: it waits at the last place of the
/// chunk, and its hidden state is the one that the target has for that place.
pub proof fn law_tail_is_the_last_state(
    tail: PendingPromptTail,
    batch: PrefillBatch,
    hidden: Tensor,
    i: int,
    h: int,
)
    requires
        batch.wf(),
        batch.is_final,
        0 <= i < batch.seq_ids@.len(),
        in_chunk(batch, hidden, i),
        is_tail_of(tail, batch, hidden, i),
        tensor_dims(hidden).len() == 3,
        0 <= h < tensor_dims(hidden)[2],
    ensures
        !batch.as_block ==> tail.position == batch.chunk_ranges@[i].0 + read_now(batch, i),
        tail.position + 1 == batch.chunk_ranges@[i].1,
        tensor_dims(tail.hidden) == seq![1, 1, tensor_dims(hidden)[2]],
        tensor_cell(tail.hidden, at3(0, 0, h)) == tensor_cell(
            hidden,
            at3(
                batch.batch_indices@[i] as int,
                batch.chunk_ranges@[i].1 - batch.chunk_ranges@[i].0 - 1,
                h,
            ),
        ),
{
}

/// A sequence is read where its chunk has places, the target has a hidden state for each,
/// and where rows are listed, the token after each is known and each has a position.
pub proof fn law_prefill_reads_where_it_can(
    batch: PrefillBatch,
    hidden: Tensor,
    positions: Seq<Vec<u32>>,
    i: int,
)
    requires
        tensor_dims(hidden).len() == 3,
    ensures
        prefill_stop(batch, hidden, positions, i) is Nowhere <==> {
            let (start, end) = batch.chunk_ranges@[i];
            let batch_idx = batch.batch_indices@[i];
            let now = read_now(batch, i);
            &&& start < end
            &&& end - start <= tensor_dims(hidden)[1]
            &&& batch.is_final || now > 0 ==> batch_idx < tensor_dims(hidden)[0]
            &&& now > 0 ==> {
                &&& start + now < batch.tokens@[i]@.len()
                &&& batch_idx < positions.len() && now <= positions[batch_idx as int]@.len()
            }
        },
{
}

/// A prompt that ends leaves its last state as the tail of its sequence, in place of the
/// one that waited; the last chunk of a number counts. Any other tail is as it was, and
/// where no prompt ends all are.
pub proof fn law_tails_left_by_prompts(
    tails: Map<usize, PendingPromptTail>,
    before: Map<usize, PendingPromptTail>,
    batch: PrefillBatch,
    hidden: Tensor,
    n: int,
    i: int,
    id: usize,
)
    requires
        batch.wf(),
        0 <= i < n <= batch.seq_ids@.len(),
        tails_are(tails, before, batch, hidden, n),
    ensures
        !batch.is_final ==> {
            &&& tails.contains_key(id) <==> before.contains_key(id)
            &&& before.contains_key(id) ==> tails[id] == before[id]
        },
        batch.is_final ==> tails.contains_key(batch.seq_ids@[i]),
        batch.is_final && (forall|k: int|
            i < k < n ==> #[trigger] batch.seq_ids@[k] != batch.seq_ids@[i]) ==> {
            &&& tails[batch.seq_ids@[i]].position + 1 == batch.chunk_ranges@[i].1
            &&& is_tail_of(tails[batch.seq_ids@[i]], batch, hidden, i)
        },
        (forall|k: int| 0 <= k < n ==> #[trigger] batch.seq_ids@[k] != id) ==> {
            &&& tails.contains_key(id) <==> before.contains_key(id)
            &&& before.contains_key(id) ==> tails[id] == before[id]
        },
{
    let listed = batch.seq_ids@.take(n);
    assert(listed[i] == batch.seq_ids@[i]);
    assert(listed.contains(batch.seq_ids@[i]));
    assert(tails.contains_key(batch.seq_ids@[i]) == (before.contains_key(batch.seq_ids@[i])
        || (batch.is_final && listed.contains(batch.seq_ids@[i]))));
    assert(tails.contains_key(id) == (before.contains_key(id) || (batch.is_final
        && listed.contains(id))));
    if forall|k: int| 0 <= k < n ==> #[trigger] batch.seq_ids@[k] != id {
        if listed.contains(id) {
            let k = choose|k: int| 0 <= k < listed.len() && listed[k] == id;
            assert(batch.seq_ids@[k] != id);
        }
    }
    if forall|k: int| i < k < n ==> #[trigger] batch.seq_ids@[k] != batch.seq_ids@[i] {
        assert(is_newest(batch, i, n));
    }
}

/// Where a chunk breaks at a sequence, tails are left by those before it, and by it exactly
/// where its last state is there.
pub proof fn law_tails_left_where_it_breaks(batch: PrefillBatch, hidden: Tensor, i: int)
    requires
        tensor_dims(hidden).len() == 3,
    ensures
        ({
            let (start, end) = batch.chunk_ranges@[i];
            &&& kept_at(batch, hidden, i) == i || kept_at(batch, hidden, i) == i + 1
            &&& kept_at(batch, hidden, i) == i + 1 <==> {
                &&& start < end && end - start <= tensor_dims(hidden)[1]
                &&& batch.is_final ==> batch.batch_indices@[i] < tensor_dims(hidden)[0]
            }
        }),
{
}

/// A chunk of sequences that can be read is read on the host, and as one block anywhere.
pub proof fn law_chunks_are_read_on_the_host(
    batch: PrefillBatch,
    hidden: Tensor,
    positions: Seq<Vec<u32>>,
)
    requires
        batch.wf(),
        forall|i: int|
            0 <= i < batch.seq_ids@.len() ==> #[trigger] prefill_stop(
                batch,
                hidden,
                positions,
                i,
            ) is Nowhere,
        batch.as_block || {
            &&& on_host(hidden)
            &&& plain_type(tensor_type(hidden))
            &&& countable(
                seq![
                    1,
                    prefill_rows(batch, batch.seq_ids@.len() as int).len() as usize,
                    tensor_dims(hidden)[2],
                ],
            )
        },
    ensures
        reads_freely(batch, hidden, positions),
{
    lemma_rows_have_sources(batch, batch.seq_ids@.len() as int);
}

proof fn lemma_rows_have_sources(batch: PrefillBatch, n: int)
    requires
        0 <= n,
    ensures
        prefill_rows(batch, n).len() > 0 ==> prefill_sources(batch, n).len() > 0,
        forall|k: int|
            0 <= k < prefill_sources(batch, n).len() ==> #[trigger] prefill_sources(
                batch,
                n,
            )[k] is Rows,
    decreases n,
{
    if n > 0 {
        lemma_rows_have_sources(batch, n - 1);
    }
}

} // verus!
