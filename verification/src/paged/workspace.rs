//! The workspace of partitioned attention.
use std::collections::HashMap;
use vstd::prelude::*;

use crate::arith::{align_up, aligned, checked_align_up, law_align_up};

verus! {

/// Where the parts of a workspace begin, in bytes, and what they take together.
/// Partial outputs come first, then the sums of exponentials, then the greatest
/// logits.
#[derive(Clone, Copy, Debug, PartialEq, Eq, Structural)]
pub struct Workspace {
    pub tmp_out: usize,
    pub exp_sums: usize,
    pub max_logits: usize,
    pub bytes: usize,
}

/// The bytes of the partial outputs of `rows` heads in `partitions` parts.
pub open spec fn tmp_out_bytes(rows: nat, partitions: nat, head_size: nat, elem: nat) -> nat {
    rows * partitions * head_size * elem
}

/// The bytes of one number for each head and part.
pub open spec fn exp_sums_bytes(rows: nat, partitions: nat) -> nat {
    rows * partitions * 4
}

pub open spec fn exp_sums_offset(rows: nat, partitions: nat, head_size: nat, elem: nat) -> nat {
    aligned(tmp_out_bytes(rows, partitions, head_size, elem), 16)
}

pub open spec fn max_logits_offset(rows: nat, partitions: nat, head_size: nat, elem: nat) -> nat {
    aligned(
        exp_sums_offset(rows, partitions, head_size, elem) + exp_sums_bytes(rows, partitions),
        16,
    )
}

pub open spec fn workspace_bytes(rows: nat, partitions: nat, head_size: nat, elem: nat) -> nat {
    max_logits_offset(rows, partitions, head_size, elem) + exp_sums_bytes(rows, partitions)
}

pub open spec fn workspace_plan(
    rows: nat,
    partitions: nat,
    head_size: nat,
    elem: nat,
) -> Workspace {
    Workspace {
        tmp_out: 0,
        exp_sums: exp_sums_offset(rows, partitions, head_size, elem) as usize,
        max_logits: max_logits_offset(rows, partitions, head_size, elem) as usize,
        bytes: workspace_bytes(rows, partitions, head_size, elem) as usize,
    }
}

/// Lays out the workspace for `rows` heads of `head_size` elements of `elem`
/// bytes.
pub fn plan_workspace(rows: usize, partitions: usize, head_size: usize, elem: usize) -> (plan:
    Workspace)
    requires
        head_size > 0,
        elem > 0,
        workspace_bytes(rows as nat, partitions as nat, head_size as nat, elem as nat)
            <= usize::MAX,
    ensures
        plan == workspace_plan(rows as nat, partitions as nat, head_size as nat, elem as nat),
{
    proof {
        lemma_parts(rows as nat, partitions as nat, head_size as nat, elem as nat);
    }
    let parts: usize = rows * partitions;
    let tmp_bytes: usize = parts * head_size * elem;
    let exp_bytes: usize = parts * 4;
    let exp_sums: usize = align_up(tmp_bytes, 16);
    let max_logits: usize = align_up(exp_sums + exp_bytes, 16);
    Workspace { tmp_out: 0, exp_sums, max_logits, bytes: max_logits + exp_bytes }
}

proof fn lemma_parts(rows: nat, partitions: nat, head_size: nat, elem: nat)
    requires
        head_size > 0,
        elem > 0,
    ensures
        rows * partitions <= rows * partitions * head_size,
        rows * partitions * head_size <= tmp_out_bytes(rows, partitions, head_size, elem),
        tmp_out_bytes(rows, partitions, head_size, elem) <= exp_sums_offset(
            rows,
            partitions,
            head_size,
            elem,
        ),
        exp_sums_offset(rows, partitions, head_size, elem) + exp_sums_bytes(rows, partitions)
            <= max_logits_offset(rows, partitions, head_size, elem),
        max_logits_offset(rows, partitions, head_size, elem) <= workspace_bytes(
            rows,
            partitions,
            head_size,
            elem,
        ),
{
    law_align_up(tmp_out_bytes(rows, partitions, head_size, elem), 16);
    law_align_up(
        exp_sums_offset(rows, partitions, head_size, elem) + exp_sums_bytes(rows, partitions),
        16,
    );
    let r = rows as int;
    let p = partitions as int;
    let h = head_size as int;
    let e = elem as int;
    assert(0 <= r * p <= r * p * h && 0 <= r * p * h <= r * p * h * e) by (nonlinear_arith)
        requires
            r >= 0,
            p >= 0,
            h >= 1,
            e >= 1,
    ;
}

/// Tests whether a workspace can be counted in a `usize`.
pub fn workspace_fits(rows: usize, partitions: usize, head_size: usize, elem: usize) -> (fits: bool)
    requires
        head_size > 0,
        elem > 0,
    ensures
        fits == (workspace_bytes(rows as nat, partitions as nat, head_size as nat, elem as nat)
            <= usize::MAX),
{
    proof {
        lemma_parts(rows as nat, partitions as nat, head_size as nat, elem as nat);
    }
    let parts: usize = match rows.checked_mul(partitions) {
        Some(parts) => parts,
        None => return false,
    };
    let row: usize = match parts.checked_mul(head_size) {
        Some(row) => row,
        None => return false,
    };
    let tmp_bytes: usize = match row.checked_mul(elem) {
        Some(bytes) => bytes,
        None => return false,
    };
    let exp_bytes: usize = match parts.checked_mul(4) {
        Some(bytes) => bytes,
        None => return false,
    };
    let exp_sums: usize = match checked_align_up(tmp_bytes, 16) {
        Some(offset) => offset,
        None => return false,
    };
    let end: usize = match exp_sums.checked_add(exp_bytes) {
        Some(end) => end,
        None => return false,
    };
    match checked_align_up(end, 16) {
        Some(offset) => offset.checked_add(exp_bytes).is_some(),
        None => false,
    }
}

/// The parts of a workspace do not overlap, lie within it, and begin at
/// multiples of 16.
pub proof fn law_workspace_parts(rows: nat, partitions: nat, head_size: nat, elem: nat)
    requires
        workspace_bytes(rows, partitions, head_size, elem) <= usize::MAX,
    ensures
        ({
            let plan = workspace_plan(rows, partitions, head_size, elem);
            &&& plan.tmp_out + tmp_out_bytes(rows, partitions, head_size, elem) <= plan.exp_sums
            &&& plan.exp_sums + exp_sums_bytes(rows, partitions) <= plan.max_logits
            &&& plan.max_logits + exp_sums_bytes(rows, partitions) == plan.bytes
            &&& plan.exp_sums % 16 == 0
            &&& plan.max_logits % 16 == 0
        }),
{
    law_align_up(tmp_out_bytes(rows, partitions, head_size, elem), 16);
    law_align_up(
        exp_sums_offset(rows, partitions, head_size, elem) + exp_sums_bytes(rows, partitions),
        16,
    );
}

// Workspaces that outlive a call.

/// The capacity of the workspace of each device. A workspace grows and is never
/// given back.
pub struct Workspaces {
    slots: HashMap<u64, usize>,
}

impl View for Workspaces {
    type V = Map<u64, usize>;

    closed spec fn view(&self) -> Map<u64, usize> {
        self.slots@
    }
}

/// What has to be allocated so that a device has a workspace of `bytes` bytes:
/// nothing where it has one that is large enough. A first workspace is never
/// empty.
pub open spec fn allocation(slots: Map<u64, usize>, device: u64, bytes: usize) -> Option<usize> {
    if !slots.contains_key(device) {
        Some(
            if bytes == 0 {
                1
            } else {
                bytes
            },
        )
    } else if slots[device] < bytes {
        Some(bytes)
    } else {
        None
    }
}

impl Workspaces {
    pub fn new() -> (slots: Workspaces)
        ensures
            slots@ == Map::<u64, usize>::empty(),
    {
        broadcast use vstd::std_specs::hash::group_hash_axioms;

        Workspaces { slots: HashMap::new() }
    }

    /// What has to be allocated so that `device` has a workspace of `bytes`
    /// bytes.
    pub fn workspace_ensure(&self, device: u64, bytes: usize) -> (needed: Option<usize>)
        ensures
            needed == allocation(self@, device, bytes),
    {
        broadcast use vstd::std_specs::hash::group_hash_axioms;

        match self.slots.get(&device) {
            None => Some(
                if bytes == 0 {
                    1
                } else {
                    bytes
                },
            ),
            Some(capacity) => if *capacity < bytes {
                Some(bytes)
            } else {
                None
            },
        }
    }

    /// Notes that a workspace of `capacity` bytes was allocated for `device`.
    pub fn allocated(&mut self, device: u64, capacity: usize)
        ensures
            final(self)@ == old(self)@.insert(device, capacity),
    {
        broadcast use vstd::std_specs::hash::group_hash_axioms;

        self.slots.insert(device, capacity);
    }
}

/// The workspaces after what a call needs has been allocated.
pub open spec fn ensured(slots: Map<u64, usize>, device: u64, bytes: usize) -> Map<u64, usize> {
    match allocation(slots, device, bytes) {
        Some(capacity) => slots.insert(device, capacity),
        None => slots,
    }
}

/// Once ensured, a workspace is large enough, no workspace has shrunk, no other
/// device is touched, and ensuring again allocates nothing.
pub proof fn law_workspaces_grow(slots: Map<u64, usize>, device: u64, bytes: usize, other: u64)
    ensures
        ensured(slots, device, bytes).contains_key(device),
        ensured(slots, device, bytes)[device] >= bytes,
        slots.contains_key(other) ==> ensured(slots, device, bytes).contains_key(other)
            && ensured(slots, device, bytes)[other] >= slots[other],
        other != device ==> ensured(slots, device, bytes).contains_key(other)
            == slots.contains_key(other),
        allocation(ensured(slots, device, bytes), device, bytes) is None,
{
}

/// The workspace has a place of its own for each partial result: element `d` of head
/// `r` in partition `p` among the outputs, and one number for that head and that
/// partition among the sums and among the greatest logits. Between the parts
/// there is less padding than 16 bytes.
pub proof fn law_workspace_holds_partial_results(
    rows: nat,
    partitions: nat,
    head_size: nat,
    elem: nat,
    r: int,
    p: int,
    d: int,
)
    requires
        workspace_bytes(rows, partitions, head_size, elem) <= usize::MAX,
        0 <= r < rows,
        0 <= p < partitions,
        0 <= d < head_size,
    ensures
        ({
            let plan = workspace_plan(rows, partitions, head_size, elem);
            let place = r * partitions + p;
            &&& plan.tmp_out == 0
            &&& (place * head_size + d) * elem + elem <= plan.exp_sums
            &&& plan.exp_sums + place * 4 + 4 <= plan.max_logits
            &&& plan.max_logits + place * 4 + 4 <= plan.bytes
            &&& plan.bytes == plan.max_logits + rows * partitions * 4
            &&& plan.exp_sums < rows * partitions * head_size * elem + 16
            &&& plan.max_logits < plan.exp_sums + rows * partitions * 4 + 16
        }),
{
    law_workspace_parts(rows, partitions, head_size, elem);
    law_align_up(tmp_out_bytes(rows, partitions, head_size, elem), 16);
    law_align_up(
        exp_sums_offset(rows, partitions, head_size, elem) + exp_sums_bytes(rows, partitions),
        16,
    );
    let place = r * partitions + p;
    let (n, m, h, e) = (rows as int, partitions as int, head_size as int, elem as int);
    assert(place + 1 <= n * m) by (nonlinear_arith)
        requires
            place == r * m + p,
            0 <= r < n,
            0 <= p < m,
    ;
    assert((place * h + d) * e + e <= n * m * h * e) by (nonlinear_arith)
        requires
            place + 1 <= n * m,
            0 <= d < h,
            e >= 0,
    ;
}

/// What is allocated is what was asked for, a byte at least, and only where the device
/// has less.
pub proof fn law_allocations_are_needed(slots: Map<u64, usize>, device: u64, bytes: usize)
    ensures
        allocation(slots, device, bytes) matches Some(capacity) ==> {
            &&& capacity == bytes || (bytes == 0 && capacity == 1)
            &&& slots.contains_key(device) ==> slots[device] < capacity
        },
        allocation(slots, device, bytes) is None <==> slots.contains_key(device) && slots[device]
            >= bytes,
        ensured(slots, device, bytes)[device] > 0 || slots.contains_key(device),
        forall|other: u64|
            other != device && slots.contains_key(other) ==> #[trigger] ensured(
                slots,
                device,
                bytes,
            )[other] == slots[other],
{
}

} // verus!
