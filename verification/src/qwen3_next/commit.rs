//! What a speculative step commits: how many rows of each sequence are kept, and
//! the recurrent slots they go to.
use vstd::prelude::*;
use vstd::string::*;


use crate::text::{dec, decimal, Fault, Refusal};

verus! {

/// What is kept of one sequence of a speculative batch.
#[derive(Clone, Copy, Debug, PartialEq, Eq, Structural)]
pub struct SpeculativeCommitRow {
    pub batch_idx: usize,
    pub keep_rows: usize,
    pub accepted_all: bool,
    /// Whether the sequence ends here.
    pub terminal: bool,
}

// Replay batches.

/// The rows of a batch that keep the same number of tokens, and their slots.
#[derive(Debug, PartialEq, Eq)]
pub struct GdnReplayBatch {
    pub keep_rows: usize,
    pub batch_indices: Vec<u32>,
    pub slots: Vec<u32>,
}

/// The refusal of the first `n` rows: each must be a row of the stash.
pub open spec fn replay_rows_refusal(rows: Seq<(usize, usize)>, slots: nat, n: int) -> Refusal
    decreases n,
{
    if n <= 0 {
        Refusal::none()
    } else {
        let row = rows[n - 1].0;
        replay_rows_refusal(rows, slots, n - 1).unless(
            row <= u32::MAX,
            "GDN replay batch row "@ + dec(row as nat) + " exceeds u32"@,
        ).unless(row < slots, "GDN replay stash has no batch row "@ + dec(row as nat))
    }
}

/// The batch rows, among the first `n`, that keep `keep` tokens, in order.
pub open spec fn rows_keeping(rows: Seq<(usize, usize)>, keep: usize, n: int) -> Seq<usize>
    decreases n,
{
    if n <= 0 {
        Seq::empty()
    } else if rows[n - 1].1 == keep {
        rows_keeping(rows, keep, n - 1).push(rows[n - 1].0)
    } else {
        rows_keeping(rows, keep, n - 1)
    }
}

/// Whether a batch holds exactly the rows that keep its number of tokens, in
/// order, each with its slot.
pub open spec fn is_replay_batch(
    batch: GdnReplayBatch,
    rows: Seq<(usize, usize)>,
    slots: Seq<u32>,
) -> bool {
    let kept = rows_keeping(rows, batch.keep_rows, rows.len() as int);
    &&& batch.batch_indices@ == kept.map_values(|row: usize| row as u32)
    &&& batch.slots@ == kept.map_values(|row: usize| slots[row as int])
}

/// Whether some row keeps `keep` tokens.
pub open spec fn some_row_keeps(rows: Seq<(usize, usize)>, keep: usize) -> bool {
    exists|i: int| 0 <= i < rows.len() && (#[trigger] rows[i]).1 == keep
}

/// Whether the batches group the rows: one batch for each number of tokens that
/// some row keeps, in rising order.
pub open spec fn is_grouping(
    batches: Seq<GdnReplayBatch>,
    rows: Seq<(usize, usize)>,
    slots: Seq<u32>,
) -> bool {
    &&& forall|i: int| 0 <= i < batches.len() ==> is_replay_batch(#[trigger] batches[i], rows, slots)
    &&& forall|i: int, j: int|
        0 <= i < j < batches.len() ==> (#[trigger] batches[i]).keep_rows < (
        #[trigger] batches[j]).keep_rows
    &&& forall|i: int|
        0 <= i < batches.len() ==> some_row_keeps(rows, (#[trigger] batches[i]).keep_rows)
    &&& forall|keep: usize| #[trigger]
        some_row_keeps(rows, keep) ==> exists|i: int|
            0 <= i < batches.len() && (#[trigger] batches[i]).keep_rows == keep
}

/// Whether the numbers rise.
pub open spec fn rising(s: Seq<usize>) -> bool {
    forall|i: int, j: int| 0 <= i < j < s.len() ==> #[trigger] s[i] < #[trigger] s[j]
}

/// Puts a number in its place among rising ones, unless it is there.
fn insert_rising(numbers: &mut Vec<usize>, number: usize)
    requires
        rising(old(numbers)@),
    ensures
        rising(final(numbers)@),
        forall|x: usize| #[trigger]
            final(numbers)@.contains(x) <==> old(numbers)@.contains(x) || x == number,
{
    let ghost before = numbers@;
    let mut i: usize = 0;
    while i < numbers.len() && numbers[i] < number
        invariant
            i <= numbers@.len(),
            numbers@ == before,
            forall|k: int| 0 <= k < i ==> #[trigger] numbers@[k] < number,
        decreases numbers@.len() - i,
    {
        i = i + 1;
    }
    if i < numbers.len() && numbers[i] == number {
        assert(before.contains(number));
        return;
    }
    numbers.insert(i, number);
    proof {
        let after = numbers@;
        assert(after =~= before.insert(i as int, number));
        assert(after[i as int] == number);
        assert forall|x: usize| #[trigger] after.contains(x) <==> before.contains(x) || x
            == number by {
            if before.contains(x) {
                let k = choose|k: int| 0 <= k < before.len() && before[k] == x;
                if k < i {
                    assert(after[k] == x);
                } else {
                    assert(after[k + 1] == x);
                }
            }
            if after.contains(x) && x != number {
                let k = choose|k: int| 0 <= k < after.len() && after[k] == x;
                if k < i {
                    assert(before[k] == x);
                } else {
                    assert(before[k - 1] == x);
                }
            }
        }
        assert forall|a: int, b: int| 0 <= a < b < after.len() implies #[trigger] after[a]
            < #[trigger] after[b] by {
            if a < i && b > i {
                assert(before[a] < before[b - 1]);
            } else if a == i && i < before.len() {
                assert(number < before[i as int]);
                if b > i + 1 {
                    assert(before[i as int] < before[b - 1]);
                }
            }
        }
    }
}

proof fn lemma_replay_rows_refuse(rows: Seq<(usize, usize)>, slots: nat, m: int, n: int)
    requires
        0 <= m <= n,
        replay_rows_refusal(rows, slots, m).message is Some,
    ensures
        replay_rows_refusal(rows, slots, n) == replay_rows_refusal(rows, slots, m),
    decreases n,
{
    if m < n {
        lemma_replay_rows_refuse(rows, slots, m, n - 1);
    }
}

proof fn lemma_replay_rows_hold(rows: Seq<(usize, usize)>, slots: nat, n: int, i: int)
    requires
        0 <= i < n <= rows.len(),
        replay_rows_refusal(rows, slots, n).message is None,
    ensures
        rows[i].0 <= u32::MAX,
        rows[i].0 < slots,
    decreases n,
{
    if i < n - 1 {
        lemma_replay_rows_hold(rows, slots, n - 1, i);
    }
}

fn replay_batch(rows: &[(usize, usize)], slots: &[u32], keep: usize) -> (batch: GdnReplayBatch)
    requires
        replay_rows_refusal(rows@, slots@.len(), rows@.len() as int).message is None,
    ensures
        batch.keep_rows == keep,
        is_replay_batch(batch, rows@, slots@),
{
    let mut batch_indices: Vec<u32> = Vec::new();
    let mut batch_slots: Vec<u32> = Vec::new();
    let mut i: usize = 0;
    while i < rows.len()
        invariant
            i <= rows@.len(),
            replay_rows_refusal(rows@, slots@.len(), rows@.len() as int).message is None,
            batch_indices@ == rows_keeping(rows@, keep, i as int).map_values(
                |row: usize| row as u32,
            ),
            batch_slots@ == rows_keeping(rows@, keep, i as int).map_values(
                |row: usize| slots@[row as int],
            ),
        decreases rows@.len() - i,
    {
        let (row, row_keep): (usize, usize) = rows[i];
        let ghost before = rows_keeping(rows@, keep, i as int);
        proof {
            lemma_replay_rows_hold(rows@, slots@.len(), rows@.len() as int, i as int);
        }
        if row_keep == keep {
            batch_indices.push(row as u32);
            batch_slots.push(slots[row]);
            assert(batch_indices@ =~= before.push(row).map_values(|row: usize| row as u32));
            assert(batch_slots@ =~= before.push(row).map_values(
                |row: usize| slots@[row as int],
            ));
        }
        i = i + 1;
    }
    GdnReplayBatch { keep_rows: keep, batch_indices, slots: batch_slots }
}

/// Groups the rows of a batch by the number of tokens that they keep. A row is a
/// place in the batch and that number.
pub fn group_gdn_replay_batches(rows: &[(usize, usize)], slots: &[u32]) -> (batches: Result<
    Vec<GdnReplayBatch>,
    Fault,
>)
    ensures
        match batches {
            Ok(batches) => {
                &&& replay_rows_refusal(rows@, slots@.len(), rows@.len() as int).message is None
                &&& is_grouping(batches@, rows@, slots@)
            },
            Err(fault) => replay_rows_refusal(rows@, slots@.len(), rows@.len() as int).message
                == Some(fault@),
        },
{
    let mut keeps: Vec<usize> = Vec::new();
    let mut i: usize = 0;
    while i < rows.len()
        invariant
            i <= rows@.len(),
            replay_rows_refusal(rows@, slots@.len(), i as int).message is None,
            rising(keeps@),
            forall|keep: usize| #[trigger]
                keeps@.contains(keep) <==> some_row_keeps(rows@.take(i as int), keep),
        decreases rows@.len() - i,
    {
        let (row, keep): (usize, usize) = rows[i];
        if row as u64 > u32::MAX as u64 {
            proof {
                lemma_replay_rows_refuse(rows@, slots@.len(), i + 1, rows@.len() as int);
            }
            return Err(
                Fault::new(
                    String::from_str("GDN replay batch row ").concat(
                        decimal(row as u64).as_str(),
                    ).concat(" exceeds u32"),
                ),
            );
        }
        if row >= slots.len() {
            proof {
                lemma_replay_rows_refuse(rows@, slots@.len(), i + 1, rows@.len() as int);
            }
            return Err(
                Fault::new(
                    String::from_str("GDN replay stash has no batch row ").concat(
                        decimal(row as u64).as_str(),
                    ),
                ),
            );
        }
        let ghost earlier = keeps@;
        insert_rising(&mut keeps, keep);
        proof {
            let before = rows@.take(i as int);
            let after = rows@.take(i + 1);
            assert forall|k: usize| #[trigger] keeps@.contains(k) <==> some_row_keeps(
                after,
                k,
            ) by {
                assert(keeps@.contains(k) <==> earlier.contains(k) || k == keep);
                assert(earlier.contains(k) <==> some_row_keeps(before, k));
                if some_row_keeps(before, k) {
                    let j = choose|j: int| 0 <= j < before.len() && (#[trigger] before[j]).1 == k;
                    assert(after[j].1 == k);
                }
                if k == keep {
                    assert(after[i as int].1 == k);
                }
                if some_row_keeps(after, k) && k != keep {
                    let j = choose|j: int| 0 <= j < after.len() && (#[trigger] after[j]).1 == k;
                    assert(before[j].1 == k);
                }
            }
        }
        i = i + 1;
    }
    assert(rows@.take(i as int) =~= rows@);
    let mut batches: Vec<GdnReplayBatch> = Vec::new();
    let mut g: usize = 0;
    while g < keeps.len()
        invariant
            g <= keeps@.len(),
            replay_rows_refusal(rows@, slots@.len(), rows@.len() as int).message is None,
            batches@.len() == g,
            forall|k: int|
                0 <= k < g ==> (#[trigger] batches@[k]).keep_rows == keeps@[k] && is_replay_batch(
                    batches@[k],
                    rows@,
                    slots@,
                ),
        decreases keeps@.len() - g,
    {
        batches.push(replay_batch(rows, slots, keeps[g]));
        g = g + 1;
    }
    proof {
        assert forall|a: int| 0 <= a < batches@.len() implies some_row_keeps(
            rows@,
            (#[trigger] batches@[a]).keep_rows,
        ) by {
            assert(keeps@.contains(keeps@[a]));
        }
        assert forall|keep: usize| #[trigger] some_row_keeps(rows@, keep) implies exists|a: int|
            0 <= a < batches@.len() && (#[trigger] batches@[a]).keep_rows == keep by {
            assert(keeps@.contains(keep));
            let a = choose|a: int| 0 <= a < keeps@.len() && keeps@[a] == keep;
            assert(batches@[a].keep_rows == keep);
        }
    }
    Ok(batches)
}

proof fn lemma_rows_keeping_contains(rows: Seq<(usize, usize)>, keep: usize, n: int, i: int)
    requires
        0 <= i < n <= rows.len(),
        rows[i].1 == keep,
    ensures
        rows_keeping(rows, keep, n).contains(rows[i].0),
    decreases n,
{
    let all = rows_keeping(rows, keep, n);
    if i == n - 1 {
        assert(all[all.len() - 1] == rows[i].0);
    } else {
        lemma_rows_keeping_contains(rows, keep, n - 1, i);
        let before = rows_keeping(rows, keep, n - 1);
        let k = choose|k: int| 0 <= k < before.len() && before[k] == rows[i].0;
        assert(all[k] == rows[i].0);
    }
}

/// Every row is in the batch of its number of tokens, and in no other batch.
pub proof fn law_grouping_covers_rows(
    batches: Seq<GdnReplayBatch>,
    rows: Seq<(usize, usize)>,
    slots: Seq<u32>,
    i: int,
)
    requires
        is_grouping(batches, rows, slots),
        0 <= i < rows.len(),
    ensures
        exists|b: int|
            0 <= b < batches.len() && (#[trigger] batches[b]).keep_rows == rows[i].1
                && batches[b].batch_indices@.contains(rows[i].0 as u32),
        forall|a: int, b: int|
            0 <= a < batches.len() && 0 <= b < batches.len() && (
            #[trigger] batches[a]).keep_rows == (#[trigger] batches[b]).keep_rows ==> a == b,
{
    assert(some_row_keeps(rows, rows[i].1));
    let b = choose|b: int|
        0 <= b < batches.len() && (#[trigger] batches[b]).keep_rows == rows[i].1;
    lemma_rows_keeping_contains(rows, rows[i].1, rows.len() as int, i);
    let kept = rows_keeping(rows, rows[i].1, rows.len() as int);
    let k = choose|k: int| 0 <= k < kept.len() && kept[k] == rows[i].0;
    assert(is_replay_batch(batches[b], rows, slots));
    assert(batches[b].batch_indices@[k] == rows[i].0 as u32);
    assert forall|a: int, c: int|
        0 <= a < batches.len() && 0 <= c < batches.len() && (#[trigger] batches[a]).keep_rows == (
        #[trigger] batches[c]).keep_rows implies a == c by {
        if a < c {
        } else if c < a {
        }
    }
}

/// Two groupings of the same rows are the same.
pub proof fn law_grouping_is_unique(
    a: Seq<GdnReplayBatch>,
    b: Seq<GdnReplayBatch>,
    rows: Seq<(usize, usize)>,
    slots: Seq<u32>,
    n: nat,
)
    requires
        is_grouping(a, rows, slots),
        is_grouping(b, rows, slots),
        n <= a.len(),
    ensures
        n <= b.len(),
        forall|i: int|
            0 <= i < n ==> (#[trigger] a[i]).keep_rows == b[i].keep_rows
                && a[i].batch_indices@ == b[i].batch_indices@ && a[i].slots@ == b[i].slots@,
    decreases n,
{
    if n > 0 {
        let last = n - 1;
        law_grouping_is_unique(a, b, rows, slots, last as nat);
        assert(some_row_keeps(rows, a[last].keep_rows));
        let j = choose|j: int|
            0 <= j < b.len() && (#[trigger] b[j]).keep_rows == a[last].keep_rows;
        if j < last {
            assert(a[j].keep_rows == b[j].keep_rows);
            assert(false);
        }
        if j > last {
            assert(b[last].keep_rows < b[j].keep_rows);
            assert(some_row_keeps(rows, b[last].keep_rows));
            let k = choose|k: int|
                0 <= k < a.len() && (#[trigger] a[k]).keep_rows == b[last].keep_rows;
            if k < last {
                assert(a[k].keep_rows == b[k].keep_rows);
                assert(false);
            } else if k > last {
                assert(a[last].keep_rows < a[k].keep_rows);
                assert(false);
            } else {
                assert(false);
            }
        }
        assert(is_replay_batch(a[last], rows, slots));
        assert(is_replay_batch(b[last], rows, slots));
    }
}

/// Rows are refused exactly where one is not a row of the stash, or is past what a
/// device counts.
pub proof fn law_replay_rows_are_refused(rows: Seq<(usize, usize)>, slots: nat, n: int)
    requires
        0 <= n <= rows.len(),
    ensures
        replay_rows_refusal(rows, slots, n).message is None <==> forall|i: int|
            0 <= i < n ==> (#[trigger] rows[i]).0 < slots && rows[i].0 <= u32::MAX,
    decreases n,
{
    if n > 0 {
        law_replay_rows_are_refused(rows, slots, n - 1);
        if replay_rows_refusal(rows, slots, n).message is Some && replay_rows_refusal(
            rows,
            slots,
            n - 1,
        ).message is None {
            assert(!(rows[n - 1].0 < slots && rows[n - 1].0 <= u32::MAX));
        }
    }
}

/// How many of the first `n` rows keep `keep` tokens.
pub open spec fn keepers(rows: Seq<(usize, usize)>, keep: usize, n: int) -> nat
    decreases n,
{
    if n <= 0 {
        0
    } else if rows[n - 1].1 == keep {
        keepers(rows, keep, n - 1) + 1
    } else {
        keepers(rows, keep, n - 1)
    }
}

/// The rows that keep a number of tokens are rows that keep it, and they stand in the
/// order in which they come.
pub proof fn law_kept_rows_are_rows(rows: Seq<(usize, usize)>, keep: usize, n: int)
    requires
        0 <= n <= rows.len(),
    ensures
        rows_keeping(rows, keep, n).len() == keepers(rows, keep, n),
        forall|i: int|
            0 <= i < n && (#[trigger] rows[i]).1 == keep ==> keepers(rows, keep, i) < keepers(
                rows,
                keep,
                n,
            ) && rows_keeping(rows, keep, n)[keepers(rows, keep, i) as int] == rows[i].0,
        forall|k: int|
            0 <= k < rows_keeping(rows, keep, n).len() ==> exists|i: int|
                0 <= i < n && #[trigger] rows[i] == (
                    #[trigger] rows_keeping(rows, keep, n)[k],
                    keep,
                ),
    decreases n,
{
    if n > 0 {
        law_kept_rows_are_rows(rows, keep, n - 1);
        let before = rows_keeping(rows, keep, n - 1);
        let after = rows_keeping(rows, keep, n);
        assert forall|k: int| 0 <= k < after.len() implies exists|i: int|
            0 <= i < n && #[trigger] rows[i] == (#[trigger] after[k], keep) by {
            if k < before.len() {
                let i = choose|i: int| 0 <= i < n - 1 && #[trigger] rows[i] == (before[k], keep);
                assert(rows[i] == (after[k], keep));
            } else {
                assert(rows[n - 1] == (after[k], keep));
            }
        }
    }
}

} // verus!
