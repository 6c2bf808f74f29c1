//! The slots of recurrent states that a batch touches.
use vstd::prelude::*;
use vstd::string::*;

use crate::gguf::value::list_outcome;
use crate::qwen3_next::commit::SpeculativeCommitRow;
use crate::text::{answer, dec, decimal, Fault, Refusal};

verus! {

// Rows that are kept.

/// The refusal of the first `n` rows.
pub open spec fn keep_rows_refusal(
    rows: Seq<SpeculativeCommitRow>,
    batch_size: usize,
    max_rows: usize,
    n: int,
) -> Refusal
    decreases n,
{
    if n <= 0 {
        Refusal::none()
    } else {
        let row = rows[n - 1];
        keep_rows_refusal(rows, batch_size, max_rows, n - 1).unless(
            row.batch_idx < batch_size,
            "GDN transition batch row "@ + dec(row.batch_idx as nat) + " exceeds captured batch "@
                + dec(batch_size as nat),
        ).unless(
            row.keep_rows <= u32::MAX,
            "GDN commit row count "@ + dec(row.keep_rows as nat) + " exceeds u32"@,
        ).unless(
            row.keep_rows <= max_rows,
            "GDN commit row count "@ + dec(row.keep_rows as nat) + " exceeds checkpoint lanes "@
                + dec(max_rows as nat),
        )
    }
}

/// The number of rows that each sequence keeps, by the first `n` rows: what the
/// last row of a sequence says, and none where no row speaks of it.
pub open spec fn kept_rows(rows: Seq<SpeculativeCommitRow>, batch_size: usize, n: int) -> Seq<u32>
    decreases n,
{
    if n <= 0 {
        Seq::new(batch_size as nat, |i: int| 0u32)
    } else {
        kept_rows(rows, batch_size, n - 1).update(
            rows[n - 1].batch_idx as int,
            rows[n - 1].keep_rows as u32,
        )
    }
}

proof fn lemma_keep_rows_refuse(
    rows: Seq<SpeculativeCommitRow>,
    batch_size: usize,
    max_rows: usize,
    m: int,
    n: int,
)
    requires
        0 <= m <= n,
        keep_rows_refusal(rows, batch_size, max_rows, m).message is Some,
    ensures
        keep_rows_refusal(rows, batch_size, max_rows, n) == keep_rows_refusal(
            rows,
            batch_size,
            max_rows,
            m,
        ),
    decreases n,
{
    if m < n {
        lemma_keep_rows_refuse(rows, batch_size, max_rows, m, n - 1);
    }
}

fn zeros(n: usize) -> (list: Vec<u32>)
    ensures
        list@ == Seq::new(n as nat, |i: int| 0u32),
{
    let mut list: Vec<u32> = Vec::new();
    let mut i: usize = 0;
    while i < n
        invariant
            i <= n,
            list@.len() == i,
            forall|k: int| 0 <= k < i ==> #[trigger] list@[k] == 0,
        decreases n - i,
    {
        list.push(0);
        i = i + 1;
    }
    assert(list@ =~= Seq::new(n as nat, |i: int| 0u32));
    list
}

fn numbers_fault(before: &str, first: usize, between: &str, second: usize) -> (fault: Fault)
    ensures
        fault@ == before@ + dec(first as nat) + between@ + dec(second as nat),
{
    Fault::new(
        String::from_str(before).concat(decimal(first as u64).as_str()).concat(between).concat(
            decimal(second as u64).as_str(),
        ),
    )
}

fn number_fault(before: &str, number: usize, after: &str) -> (fault: Fault)
    ensures
        fault@ == before@ + dec(number as nat) + after@,
{
    Fault::new(String::from_str(before).concat(decimal(number as u64).as_str()).concat(after))
}

fn missing_row_fault(before: &str, row: usize) -> (fault: Fault)
    ensures
        fault@ == before@ + dec(row as nat),
{
    Fault::new(String::from_str(before).concat(decimal(row as u64).as_str()))
}

/// The number of rows that each sequence of a batch keeps.
pub fn gdn_transition_keep_rows(
    rows: &[SpeculativeCommitRow],
    batch_size: usize,
    max_rows: usize,
) -> (kept: Result<Vec<u32>, Fault>)
    ensures
        list_outcome(kept) == answer(
            keep_rows_refusal(rows@, batch_size, max_rows, rows@.len() as int),
            kept_rows(rows@, batch_size, rows@.len() as int),
        ),
{
    let ghost n = rows@.len() as int;
    let mut kept: Vec<u32> = zeros(batch_size);
    let mut i: usize = 0;
    while i < rows.len()
        invariant
            i <= rows@.len(),
            n == rows@.len(),
            kept@.len() == batch_size,
            keep_rows_refusal(rows@, batch_size, max_rows, i as int).message is None,
            kept@ == kept_rows(rows@, batch_size, i as int),
        decreases rows@.len() - i,
    {
        let row: SpeculativeCommitRow = rows[i];
        if row.batch_idx >= batch_size {
            proof {
                lemma_keep_rows_refuse(rows@, batch_size, max_rows, i + 1, n);
            }
            return Err(
                numbers_fault(
                    "GDN transition batch row ",
                    row.batch_idx,
                    " exceeds captured batch ",
                    batch_size,
                ),
            );
        }
        if row.keep_rows as u64 > u32::MAX as u64 {
            proof {
                lemma_keep_rows_refuse(rows@, batch_size, max_rows, i + 1, n);
            }
            return Err(number_fault("GDN commit row count ", row.keep_rows, " exceeds u32"));
        }
        if row.keep_rows > max_rows {
            proof {
                lemma_keep_rows_refuse(rows@, batch_size, max_rows, i + 1, n);
            }
            return Err(
                numbers_fault(
                    "GDN commit row count ",
                    row.keep_rows,
                    " exceeds checkpoint lanes ",
                    max_rows,
                ),
            );
        }
        kept.set(row.batch_idx, row.keep_rows as u32);
        i = i + 1;
    }
    Ok(kept)
}

/// Where nothing is refused, every sequence keeps at most as many rows as there
/// are checkpoint lanes, the last row that speaks of a sequence decides, and a
/// sequence that no row speaks of keeps none.
pub proof fn law_kept_rows(
    rows: Seq<SpeculativeCommitRow>,
    batch_size: usize,
    max_rows: usize,
    n: int,
)
    requires
        0 <= n <= rows.len(),
        keep_rows_refusal(rows, batch_size, max_rows, n).message is None,
    ensures
        kept_rows(rows, batch_size, n).len() == batch_size,
        forall|b: int| 0 <= b < batch_size ==> #[trigger] kept_rows(rows, batch_size, n)[b] <= max_rows,
        forall|b: int|
            0 <= b < batch_size && (forall|i: int|
                0 <= i < n ==> (#[trigger] rows[i]).batch_idx != b) ==> #[trigger] kept_rows(
                rows,
                batch_size,
                n,
            )[b] == 0,
        forall|i: int|
            0 <= i < n && (forall|j: int|
                i < j < n ==> (#[trigger] rows[j]).batch_idx != rows[i].batch_idx) ==> kept_rows(
                rows,
                batch_size,
                n,
            )[(#[trigger] rows[i]).batch_idx as int] == rows[i].keep_rows,
    decreases n,
{
    if n > 0 {
        law_kept_rows(rows, batch_size, max_rows, n - 1);
        let before = kept_rows(rows, batch_size, n - 1);
        let after = kept_rows(rows, batch_size, n);
        assert forall|b: int|
            0 <= b < batch_size && (forall|i: int|
                0 <= i < n ==> (#[trigger] rows[i]).batch_idx != b) implies #[trigger] after[b]
            == 0 by {
            assert(rows[n - 1].batch_idx != b);
            assert(before[b] == 0);
        }
        assert forall|i: int|
            0 <= i < n && (forall|j: int|
                i < j < n ==> (#[trigger] rows[j]).batch_idx != rows[i].batch_idx) implies after[(
        #[trigger] rows[i]).batch_idx as int] == rows[i].keep_rows by {
            if i < n - 1 {
                assert(rows[n - 1].batch_idx != rows[i].batch_idx);
                lemma_keep_rows_hold(rows, batch_size, max_rows, n - 1, i);
            }
        }
    }
}

proof fn lemma_keep_rows_hold(
    rows: Seq<SpeculativeCommitRow>,
    batch_size: usize,
    max_rows: usize,
    n: int,
    i: int,
)
    requires
        0 <= i < n <= rows.len(),
        keep_rows_refusal(rows, batch_size, max_rows, n).message is None,
    ensures
        rows[i].batch_idx < batch_size,
        rows[i].keep_rows <= u32::MAX,
        rows[i].keep_rows <= max_rows,
    decreases n,
{
    if i < n - 1 {
        lemma_keep_rows_hold(rows, batch_size, max_rows, n - 1, i);
    }
}

// Rows that a replay keeps.

/// The refusal of the first `n` rows of a replay that a device commits at once.
pub open spec fn fused_rows_refusal(rows: Seq<(usize, usize)>, batch_size: usize, n: int) -> Refusal
    decreases n,
{
    if n <= 0 {
        Refusal::none()
    } else {
        fused_rows_refusal(rows, batch_size, n - 1).unless(
            rows[n - 1].1 <= u32::MAX,
            "GDN commit row count "@ + dec(rows[n - 1].1 as nat) + " exceeds u32"@,
        ).unless(
            rows[n - 1].0 < batch_size,
            "GDN replay stash has no batch row "@ + dec(rows[n - 1].0 as nat),
        )
    }
}

pub open spec fn fused_rows(rows: Seq<(usize, usize)>, batch_size: usize, n: int) -> Seq<u32>
    decreases n,
{
    if n <= 0 {
        Seq::new(batch_size as nat, |i: int| 0u32)
    } else {
        fused_rows(rows, batch_size, n - 1).update(rows[n - 1].0 as int, rows[n - 1].1 as u32)
    }
}

proof fn lemma_fused_rows_refuse(rows: Seq<(usize, usize)>, batch_size: usize, m: int, n: int)
    requires
        0 <= m <= n,
        fused_rows_refusal(rows, batch_size, m).message is Some,
    ensures
        fused_rows_refusal(rows, batch_size, n) == fused_rows_refusal(rows, batch_size, m),
    decreases n,
{
    if m < n {
        lemma_fused_rows_refuse(rows, batch_size, m, n - 1);
    }
}

/// The number of rows that each sequence of a replay keeps, where a device
/// commits them at once. A row is a place in the batch and that number.
pub fn gdn_replay_keep_rows(rows: &[(usize, usize)], batch_size: usize) -> (kept: Result<
    Vec<u32>,
    Fault,
>)
    ensures
        list_outcome(kept) == answer(
            fused_rows_refusal(rows@, batch_size, rows@.len() as int),
            fused_rows(rows@, batch_size, rows@.len() as int),
        ),
{
    let ghost n = rows@.len() as int;
    let mut kept: Vec<u32> = zeros(batch_size);
    let mut i: usize = 0;
    while i < rows.len()
        invariant
            i <= rows@.len(),
            n == rows@.len(),
            kept@.len() == batch_size,
            fused_rows_refusal(rows@, batch_size, i as int).message is None,
            kept@ == fused_rows(rows@, batch_size, i as int),
        decreases rows@.len() - i,
    {
        let (row, keep): (usize, usize) = rows[i];
        if keep as u64 > u32::MAX as u64 {
            proof {
                lemma_fused_rows_refuse(rows@, batch_size, i + 1, n);
            }
            return Err(number_fault("GDN commit row count ", keep, " exceeds u32"));
        }
        if row >= batch_size {
            proof {
                lemma_fused_rows_refuse(rows@, batch_size, i + 1, n);
            }
            return Err(missing_row_fault("GDN replay stash has no batch row ", row));
        }
        kept.set(row, keep as u32);
        i = i + 1;
    }
    Ok(kept)
}

// Sequences that end.

/// The refusal of the first `n` rows: a row that ends must be in the stash.
pub open spec fn terminal_refusal(rows: Seq<SpeculativeCommitRow>, slots: nat, n: int) -> Refusal
    decreases n,
{
    if n <= 0 {
        Refusal::none()
    } else {
        terminal_refusal(rows, slots, n - 1).unless(
            rows[n - 1].terminal ==> rows[n - 1].batch_idx < slots,
            "GDN transition stash has no terminal batch row "@ + dec(rows[n - 1].batch_idx as nat),
        )
    }
}

/// The slots of the rows, among the first `n`, that end, in order.
pub open spec fn terminal_slots(
    rows: Seq<SpeculativeCommitRow>,
    slots: Seq<u32>,
    n: int,
) -> Seq<u32>
    decreases n,
{
    if n <= 0 {
        Seq::empty()
    } else if rows[n - 1].terminal {
        terminal_slots(rows, slots, n - 1).push(slots[rows[n - 1].batch_idx as int])
    } else {
        terminal_slots(rows, slots, n - 1)
    }
}

proof fn lemma_terminal_refuse(rows: Seq<SpeculativeCommitRow>, slots: nat, m: int, n: int)
    requires
        0 <= m <= n,
        terminal_refusal(rows, slots, m).message is Some,
    ensures
        terminal_refusal(rows, slots, n) == terminal_refusal(rows, slots, m),
    decreases n,
{
    if m < n {
        lemma_terminal_refuse(rows, slots, m, n - 1);
    }
}

/// The slots of the sequences that end.
pub fn terminal_gdn_transition_slots(rows: &[SpeculativeCommitRow], slots: &[u32]) -> (ending:
    Result<Vec<u32>, Fault>)
    ensures
        list_outcome(ending) == answer(
            terminal_refusal(rows@, slots@.len(), rows@.len() as int),
            terminal_slots(rows@, slots@, rows@.len() as int),
        ),
{
    let mut ending: Vec<u32> = Vec::new();
    let mut i: usize = 0;
    while i < rows.len()
        invariant
            i <= rows@.len(),
            terminal_refusal(rows@, slots@.len(), i as int).message is None,
            ending@ == terminal_slots(rows@, slots@, i as int),
        decreases rows@.len() - i,
    {
        if rows[i].terminal {
            let row: usize = rows[i].batch_idx;
            if row >= slots.len() {
                proof {
                    lemma_terminal_refuse(rows@, slots@.len(), i + 1, rows@.len() as int);
                }
                return Err(
                    missing_row_fault("GDN transition stash has no terminal batch row ", row),
                );
            }
            ending.push(slots[row]);
        }
        i = i + 1;
    }
    Ok(ending)
}

// Slots that are live.

/// The numbers of a list in rising order, each once.
pub open spec fn is_sorted_set(list: Seq<u32>) -> bool {
    forall|i: int, j: int| 0 <= i < j < list.len() ==> #[trigger] list[i] < #[trigger] list[j]
}

/// Whether `live` lists the slots but for the padding, in rising order and each
/// once.
pub open spec fn is_live(live: Seq<u32>, slots: Seq<u32>, pad: u32) -> bool {
    &&& is_sorted_set(live)
    &&& forall|slot: u32| #[trigger] live.contains(slot) <==> slots.contains(slot) && slot != pad
}

fn insert_sorted(list: &mut Vec<u32>, number: u32) -> (added: bool)
    requires
        is_sorted_set(old(list)@),
    ensures
        is_sorted_set(final(list)@),
        added == !old(list)@.contains(number),
        forall|x: u32| #[trigger]
            final(list)@.contains(x) <==> old(list)@.contains(x) || x == number,
{
    let ghost before = list@;
    let mut i: usize = 0;
    while i < list.len() && list[i] < number
        invariant
            i <= list@.len(),
            list@ == before,
            forall|k: int| 0 <= k < i ==> #[trigger] list@[k] < number,
        decreases list@.len() - i,
    {
        i = i + 1;
    }
    if i < list.len() && list[i] == number {
        assert(before.contains(number));
        return false;
    }
    list.insert(i, number);
    proof {
        let after = list@;
        assert(after =~= before.insert(i as int, number));
        assert(after[i as int] == number);
        assert forall|a: int, b: int| 0 <= a < b < after.len() implies #[trigger] after[a]
            < #[trigger] after[b] by {
            if a < i && b > i {
                assert(before[a] < before[b - 1]);
            } else if a == i && i < before.len() {
                assert(number < before[i as int]);
                if b > i + 1 {
                    assert(before[i as int] < before[b - 1]);
                }
            }
        }
        if before.contains(number) {
            let k = choose|k: int| 0 <= k < before.len() && before[k] == number;
            assert(k >= i);
            if k > i {
                assert(before[i as int] < before[k]);
            }
            assert(before[i as int] > number);
            assert(false);
        }
        assert forall|x: u32| #[trigger] after.contains(x) <==> before.contains(x) || x
            == number by {
            if before.contains(x) {
                let k = choose|k: int| 0 <= k < before.len() && before[k] == x;
                if k < i {
                    assert(after[k] == x);
                } else {
                    assert(after[k + 1] == x);
                }
            }
            if after.contains(x) && x != number {
                let k = choose|k: int| 0 <= k < after.len() && after[k] == x;
                if k < i {
                    assert(before[k] == x);
                } else {
                    assert(before[k - 1] == x);
                }
            }
        }
    }
    true
}

/// The slots of a list but for the padding, in rising order and each once.
pub fn live_slots(slots: &[u32], pad: u32) -> (live: Vec<u32>)
    ensures
        is_live(live@, slots@, pad),
{
    let mut live: Vec<u32> = Vec::new();
    let mut i: usize = 0;
    while i < slots.len()
        invariant
            i <= slots@.len(),
            is_live(live@, slots@.take(i as int), pad),
        decreases slots@.len() - i,
    {
        let slot: u32 = slots[i];
        let ghost before = live@;
        if slot != pad {
            let _added: bool = insert_sorted(&mut live, slot);
        }
        proof {
            lemma_take_contains(slots@, i as int);
            assert forall|x: u32| #[trigger] live@.contains(x) <==> slots@.take(i + 1).contains(x) && x
                != pad by {
                assert(before.contains(x) <==> slots@.take(i as int).contains(x) && x != pad);
            }
        }
        i = i + 1;
    }
    assert(slots@.take(i as int) =~= slots@);
    live
}

proof fn lemma_take_contains(s: Seq<u32>, i: int)
    requires
        0 <= i < s.len(),
    ensures
        forall|x: u32| #[trigger]
            s.take(i + 1).contains(x) <==> s.take(i).contains(x) || x == s[i],
{
    assert forall|x: u32| #[trigger] s.take(i + 1).contains(x) <==> s.take(i).contains(x) || x
        == s[i] by {
        if s.take(i).contains(x) {
            let k = choose|k: int| 0 <= k < i && s.take(i)[k] == x;
            assert(s.take(i + 1)[k] == x);
        }
        if x == s[i] {
            assert(s.take(i + 1)[i] == x);
        }
        if s.take(i + 1).contains(x) && x != s[i] {
            let t = s.take(i + 1);
            let k = choose|k: int| 0 <= k < t.len() && t[k] == x;
            assert(s.take(i)[k] == x);
        }
    }
}

/// Whether a slot other than the padding comes twice.
pub open spec fn has_twin(slots: Seq<u32>, pad: u32) -> bool {
    exists|i: int, j: int|
        0 <= i < j < slots.len() && #[trigger] slots[i] == #[trigger] slots[j] && slots[i] != pad
}

/// The slots of a list but for the padding, in rising order; `None` where one
/// comes twice.
pub fn distinct_live_slots(slots: &[u32], pad: u32) -> (live: Option<Vec<u32>>)
    ensures
        match live {
            Some(live) => !has_twin(slots@, pad) && is_live(live@, slots@, pad),
            None => has_twin(slots@, pad),
        },
{
    let mut live: Vec<u32> = Vec::new();
    let mut i: usize = 0;
    while i < slots.len()
        invariant
            i <= slots@.len(),
            is_live(live@, slots@.take(i as int), pad),
            !has_twin(slots@.take(i as int), pad),
        decreases slots@.len() - i,
    {
        let slot: u32 = slots[i];
        let ghost before = live@;
        if slot != pad {
            if !insert_sorted(&mut live, slot) {
                proof {
                    assert(before.contains(slot));
                    assert(slots@.take(i as int).contains(slot));
                    let k = choose|k: int| 0 <= k < i && slots@.take(i as int)[k] == slot;
                    assert(slots@[k] == slots@[i as int]);
                    assert(has_twin(slots@, pad));
                }
                return None;
            }
        }
        proof {
            lemma_take_contains(slots@, i as int);
            assert forall|x: u32| #[trigger] live@.contains(x) <==> slots@.take(i + 1).contains(x) && x
                != pad by {
                assert(before.contains(x) <==> slots@.take(i as int).contains(x) && x != pad);
            }
            if has_twin(slots@.take(i + 1), pad) {
                let (a, b) = choose|a: int, b: int|
                    0 <= a < b < slots@.take(i + 1).len() && #[trigger] slots@.take(i + 1)[a]
                        == #[trigger] slots@.take(i + 1)[b] && slots@.take(i + 1)[a] != pad;
                if b < i {
                    assert(slots@.take(i as int)[a] == slots@.take(i as int)[b]);
                    assert(false);
                } else {
                    assert(slots@.take(i as int)[a] == slot);
                    assert(slots@.take(i as int).contains(slot));
                    assert(before.contains(slot));
                    assert(false);
                }
            }
        }
        i = i + 1;
    }
    assert(slots@.take(i as int) =~= slots@);
    Some(live)
}

/// The live slots are settled: there is one list of them.
pub proof fn law_live_slots_are_unique(a: Seq<u32>, b: Seq<u32>, slots: Seq<u32>, pad: u32, n: nat)
    requires
        is_live(a, slots, pad),
        is_live(b, slots, pad),
        n <= a.len(),
    ensures
        n <= b.len(),
        a.take(n as int) == b.take(n as int),
    decreases n,
{
    if n > 0 {
        let last = n - 1;
        law_live_slots_are_unique(a, b, slots, pad, last as nat);
        assert(a.contains(a[last]));
        assert(b.contains(a[last]));
        let j = choose|j: int| 0 <= j < b.len() && b[j] == a[last];
        if j < last {
            assert(a.take(last)[j] == b.take(last)[j]);
            assert(a[j] == b[j]);
            assert(false);
        }
        if j > last {
            assert(b[last] < b[j]);
            assert(b.contains(b[last]));
            assert(a.contains(b[last]));
            let k = choose|k: int| 0 <= k < a.len() && a[k] == b[last];
            if k < last {
                assert(a.take(last)[k] == b.take(last)[k]);
                assert(a[k] == b[k]);
                assert(b[k] < b[last]);
                assert(false);
            }
            if k > last {
                assert(a[last] < a[k]);
            }
            assert(false);
        }
        assert(a.take(n as int) =~= a.take(last).push(a[last]));
        assert(b.take(n as int) =~= b.take(last).push(b[last]));
    } else {
        assert(a.take(0) =~= b.take(0));
    }
}

/// Taking the live slots again changes nothing.
pub proof fn law_live_slots_are_settled(live: Seq<u32>, slots: Seq<u32>, pad: u32)
    requires
        is_live(live, slots, pad),
    ensures
        is_live(live, live, pad),
{
}

// What the lists say of each row.

/// Where nothing is refused, a fused replay keeps of each sequence what the last row
/// that speaks of it says, and nothing of a sequence that no row speaks of.
pub proof fn law_fused_rows(rows: Seq<(usize, usize)>, batch_size: usize, n: int)
    requires
        0 <= n <= rows.len(),
        fused_rows_refusal(rows, batch_size, n).message is None,
    ensures
        fused_rows(rows, batch_size, n).len() == batch_size,
        forall|b: int|
            0 <= b < batch_size && (forall|i: int| 0 <= i < n ==> (#[trigger] rows[i]).0 != b)
                ==> #[trigger] fused_rows(rows, batch_size, n)[b] == 0,
        forall|i: int|
            0 <= i < n && (forall|j: int| i < j < n ==> (#[trigger] rows[j]).0 != rows[i].0)
                ==> fused_rows(rows, batch_size, n)[(#[trigger] rows[i]).0 as int] == rows[i].1,
    decreases n,
{
    if n > 0 {
        law_fused_rows(rows, batch_size, n - 1);
        let before = fused_rows(rows, batch_size, n - 1);
        let after = fused_rows(rows, batch_size, n);
        assert forall|b: int|
            0 <= b < batch_size && (forall|i: int|
                0 <= i < n ==> (#[trigger] rows[i]).0 != b) implies #[trigger] after[b] == 0 by {
            assert(rows[n - 1].0 != b);
            assert(before[b] == 0);
        }
        assert forall|i: int|
            0 <= i < n && (forall|j: int|
                i < j < n ==> (#[trigger] rows[j]).0 != rows[i].0) implies after[(
        #[trigger] rows[i]).0 as int] == rows[i].1 by {
            if i < n - 1 {
                assert(rows[n - 1].0 != rows[i].0);
                law_fused_rows_are_refused(rows, batch_size, n - 1);
            }
        }
    }
}

/// A fused replay is refused exactly where a row keeps more than a device counts, or
/// is not a row of the batch.
pub proof fn law_fused_rows_are_refused(rows: Seq<(usize, usize)>, batch_size: usize, n: int)
    requires
        0 <= n <= rows.len(),
    ensures
        fused_rows_refusal(rows, batch_size, n).message is None <==> forall|i: int|
            0 <= i < n ==> (#[trigger] rows[i]).0 < batch_size && rows[i].1 <= u32::MAX,
    decreases n,
{
    if n > 0 {
        law_fused_rows_are_refused(rows, batch_size, n - 1);
        if fused_rows_refusal(rows, batch_size, n).message is None {
            assert forall|i: int| 0 <= i < n implies (#[trigger] rows[i]).0 < batch_size
                && rows[i].1 <= u32::MAX by {}
        } else if fused_rows_refusal(rows, batch_size, n - 1).message is None {
            assert(!(rows[n - 1].0 < batch_size && rows[n - 1].1 <= u32::MAX));
        }
    }
}

/// Transitions are refused exactly where a row is not one of the batch, or keeps more
/// than a device counts or than there are checkpoint lanes.
pub proof fn law_kept_rows_are_refused(
    rows: Seq<SpeculativeCommitRow>,
    batch_size: usize,
    max_rows: usize,
    n: int,
)
    requires
        0 <= n <= rows.len(),
    ensures
        keep_rows_refusal(rows, batch_size, max_rows, n).message is None <==> forall|i: int|
            0 <= i < n ==> (#[trigger] rows[i]).batch_idx < batch_size && rows[i].keep_rows
                <= u32::MAX && rows[i].keep_rows <= max_rows,
    decreases n,
{
    if n > 0 {
        law_kept_rows_are_refused(rows, batch_size, max_rows, n - 1);
        let last = rows[n - 1];
        if keep_rows_refusal(rows, batch_size, max_rows, n).message is Some && keep_rows_refusal(
            rows,
            batch_size,
            max_rows,
            n - 1,
        ).message is None {
            assert(!(last.batch_idx < batch_size && last.keep_rows <= u32::MAX && last.keep_rows
                <= max_rows));
        }
    }
}

/// How many of the first `n` rows end their sequence.
pub open spec fn endings(rows: Seq<SpeculativeCommitRow>, n: int) -> nat
    decreases n,
{
    if n <= 0 {
        0
    } else if rows[n - 1].terminal {
        endings(rows, n - 1) + 1
    } else {
        endings(rows, n - 1)
    }
}

/// The slots that end are those of the rows that end, in the order of the rows: a row
/// that ends has its slot behind as many as rows end before it, and no other slot
/// is listed.
pub proof fn law_terminal_slots(rows: Seq<SpeculativeCommitRow>, slots: Seq<u32>, n: int)
    requires
        0 <= n <= rows.len(),
    ensures
        terminal_slots(rows, slots, n).len() == endings(rows, n),
        forall|i: int|
            0 <= i < n && (#[trigger] rows[i]).terminal ==> endings(rows, i) < endings(rows, n)
                && terminal_slots(rows, slots, n)[endings(rows, i) as int]
                == slots[rows[i].batch_idx as int],
        terminal_refusal(rows, slots.len(), n).message is None <==> forall|i: int|
            0 <= i < n && (#[trigger] rows[i]).terminal ==> rows[i].batch_idx < slots.len(),
    decreases n,
{
    if n > 0 {
        law_terminal_slots(rows, slots, n - 1);
        if terminal_refusal(rows, slots.len(), n).message is Some && terminal_refusal(
            rows,
            slots.len(),
            n - 1,
        ).message is None {
            assert(rows[n - 1].terminal && rows[n - 1].batch_idx >= slots.len());
        }
    }
}

/// Two rows of one live slot are found wherever they stand, and only they are.
pub proof fn law_twins_are_found(slots: Seq<u32>, pad: u32, i: int, j: int)
    ensures
        0 <= i < slots.len() && 0 <= j < slots.len() && i != j && slots[i] == slots[j] && slots[i]
            != pad ==> has_twin(slots, pad),
        has_twin(slots, pad) ==> !slots.no_duplicates(),
        slots.len() < 2 ==> !has_twin(slots, pad),
{
    if 0 <= i < slots.len() && 0 <= j < slots.len() && i != j && slots[i] == slots[j] {
        let (a, b) = if i < j {
            (i, j)
        } else {
            (j, i)
        };
        assert(slots[a] == slots[b]);
    }
    if has_twin(slots, pad) && slots.no_duplicates() {
        let (a, b) = choose|a: int, b: int|
            0 <= a < b < slots.len() && #[trigger] slots[a] == #[trigger] slots[b] && slots[a]
                != pad;
        assert(slots[a] != slots[b]);
    }
}

} // verus!
