//! What a speculative step publishes of its transitions, or replays, when part of
//! it is kept.
use vstd::prelude::*;
use vstd::string::*;

use crate::qwen3_next::commit::{
    group_gdn_replay_batches, is_grouping, law_grouping_covers_rows, law_kept_rows_are_rows,
    law_replay_rows_are_refused, replay_rows_refusal, rows_keeping, GdnReplayBatch,
    SpeculativeCommitRow,
};
use crate::qwen3_next::slots::{
    distinct_live_slots, endings, fused_rows, fused_rows_refusal, gdn_replay_keep_rows,
    gdn_transition_keep_rows, has_twin, keep_rows_refusal, kept_rows, law_fused_rows,
    law_fused_rows_are_refused, law_kept_rows, law_kept_rows_are_refused, law_terminal_slots,
    terminal_gdn_transition_slots, terminal_refusal, terminal_slots,
};
use crate::qwen3_next::spec_graph::StateLayout;
use crate::text::{dec, decimal, outcome, same_text, Fault};

verus! {

/// What is known of a layer of a stash.
#[derive(Debug)]
pub struct StashLayerFacts {
    pub layer_idx: usize,
    /// Whether it holds a log of transitions, and not what it takes to replay.
    pub transition: bool,
    pub stash_layout: StateLayout,
    /// Whether the layer of the stack is a linear-attention layer.
    pub is_gdn: bool,
    /// Whether the cache holds a pool of states for it.
    pub has_pool: bool,
    pub pool_layout: StateLayout,
    pub has_pending: bool,
    pub transitions_supported: bool,
    pub pending_capacity: usize,
    pub pending_k_heads: usize,
    pub commit_k_heads: usize,
    pub pending_max_rows: usize,
    /// A number that stands for the device of the pool.
    pub pool_device: usize,
    /// A number that stands for the device of what it takes to replay.
    pub device: usize,
    pub device_is_cuda: bool,
    /// Whether the device can commit the layer at once.
    pub commit_supported: bool,
}

/// What is known of a stash.
#[derive(Debug)]
pub struct StashFacts {
    pub slots: Vec<u32>,
    pub layers: Vec<StashLayerFacts>,
}

pub open spec fn same_layout(layer: StashLayerFacts) -> bool {
    layer.pool_layout.name@ == layer.stash_layout.name@
}

fn layouts_match(layer: &StashLayerFacts) -> (same: bool)
    ensures
        same == same_layout(*layer),
{
    same_text(layer.pool_layout.name.as_str(), layer.stash_layout.name.as_str())
}

// Devices.

/// The distinct numbers among the first `n`, in the order in which they come.
pub open spec fn distinct(numbers: Seq<usize>, n: int) -> Seq<usize>
    decreases n,
{
    if n <= 0 {
        Seq::empty()
    } else {
        let before = distinct(numbers, n - 1);
        if before.contains(numbers[n - 1]) {
            before
        } else {
            before.push(numbers[n - 1])
        }
    }
}

/// The places, among the first `n`, of a number, in order.
pub open spec fn places(numbers: Seq<usize>, number: usize, n: int) -> Seq<usize>
    decreases n,
{
    if n <= 0 {
        Seq::empty()
    } else if numbers[n - 1] == number {
        places(numbers, number, n - 1).push((n - 1) as usize)
    } else {
        places(numbers, number, n - 1)
    }
}

fn contains_number(numbers: &Vec<usize>, number: usize) -> (found: bool)
    ensures
        found == numbers@.contains(number),
{
    let mut i: usize = 0;
    while i < numbers.len()
        invariant
            i <= numbers@.len(),
            forall|k: int| 0 <= k < i ==> #[trigger] numbers@[k] != number,
        decreases numbers@.len() - i,
    {
        if numbers[i] == number {
            assert(numbers@[i as int] == number);
            return true;
        }
        i = i + 1;
    }
    false
}

pub(crate) fn distinct_numbers(numbers: &Vec<usize>) -> (list: Vec<usize>)
    ensures
        list@ == distinct(numbers@, numbers@.len() as int),
{
    let mut list: Vec<usize> = Vec::new();
    let mut i: usize = 0;
    while i < numbers.len()
        invariant
            i <= numbers@.len(),
            list@ == distinct(numbers@, i as int),
        decreases numbers@.len() - i,
    {
        if !contains_number(&list, numbers[i]) {
            list.push(numbers[i]);
        }
        i = i + 1;
    }
    list
}

fn number_places(numbers: &Vec<usize>, number: usize) -> (list: Vec<usize>)
    ensures
        list@ == places(numbers@, number, numbers@.len() as int),
{
    let mut list: Vec<usize> = Vec::new();
    let mut i: usize = 0;
    while i < numbers.len()
        invariant
            i <= numbers@.len(),
            list@ == places(numbers@, number, i as int),
        decreases numbers@.len() - i,
    {
        if numbers[i] == number {
            list.push(i);
        }
        i = i + 1;
    }
    list
}

/// Layers of a stash on one device.
#[derive(Debug)]
pub struct PublishGroup {
    pub device: usize,
    pub layers: Vec<usize>,
}

/// Whether the groups are those of the devices: one for each, in the order in
/// which they come, with the places of its layers in order.
pub open spec fn are_device_groups(groups: Seq<PublishGroup>, devices: Seq<usize>) -> bool {
    let n = devices.len() as int;
    &&& groups.len() == distinct(devices, n).len()
    &&& forall|g: int|
        0 <= g < groups.len() ==> (#[trigger] groups[g]).device == distinct(devices, n)[g]
            && groups[g].layers@ == places(devices, groups[g].device, n)
}

fn group_by_device(devices: &Vec<usize>) -> (groups: Vec<PublishGroup>)
    ensures
        are_device_groups(groups@, devices@),
{
    let list: Vec<usize> = distinct_numbers(devices);
    let mut groups: Vec<PublishGroup> = Vec::new();
    let mut g: usize = 0;
    while g < list.len()
        invariant
            g <= list@.len(),
            list@ == distinct(devices@, devices@.len() as int),
            groups@.len() == g,
            forall|k: int|
                0 <= k < g ==> (#[trigger] groups@[k]).device == list@[k] && groups@[k].layers@
                    == places(devices@, groups@[k].device, devices@.len() as int),
        decreases list@.len() - g,
    {
        groups.push(PublishGroup { device: list[g], layers: number_places(devices, list[g]) });
        g = g + 1;
    }
    groups
}

/// Every number is among the distinct ones, and its place among its places.
pub proof fn law_distinct_covers(numbers: Seq<usize>, n: int)
    requires
        0 <= n <= numbers.len() <= usize::MAX,
    ensures
        distinct(numbers, n).no_duplicates(),
        forall|i: int|
            0 <= i < n ==> distinct(numbers, n).contains(#[trigger] numbers[i]) && places(
                numbers,
                numbers[i],
                n,
            ).contains(i as usize),
    decreases n,
{
    if n > 0 {
        law_distinct_covers(numbers, n - 1);
        let before = distinct(numbers, n - 1);
        let after = distinct(numbers, n);
        assert forall|i: int| 0 <= i < n implies after.contains(#[trigger] numbers[i]) && places(
            numbers,
            numbers[i],
            n,
        ).contains(i as usize) by {
            let all = places(numbers, numbers[i], n);
            if i == n - 1 {
                if !before.contains(numbers[i]) {
                    assert(after[after.len() - 1] == numbers[i]);
                }
                assert(all[all.len() - 1] == i as usize);
            } else {
                assert(before.contains(numbers[i]));
                let k = choose|k: int| 0 <= k < before.len() && before[k] == numbers[i];
                assert(after[k] == numbers[i]);
                let earlier = places(numbers, numbers[i], n - 1);
                assert(earlier.contains(i as usize));
                let j = choose|j: int| 0 <= j < earlier.len() && earlier[j] == i as usize;
                assert(all[j] == i as usize);
            }
        }
    }
}

// Publishing transitions.

/// What is published of a speculative step: how many rows each sequence keeps,
/// for the layers of each device, and the slots of the sequences that end.
#[derive(Debug)]
pub struct PublishPlan {
    pub keep_rows: Vec<u32>,
    pub groups: Vec<PublishGroup>,
    pub terminal_slots: Vec<u32>,
}

#[derive(Debug)]
pub enum StagePlan {
    /// There is nothing to publish, and that is well.
    Staged,
    /// The step has to be replayed.
    NotStaged,
    Publish(PublishPlan),
}

pub open spec fn all_transitions(layers: Seq<StashLayerFacts>) -> bool {
    forall|i: int| 0 <= i < layers.len() ==> (#[trigger] layers[i]).transition
}

/// Whether the transitions of a layer can be published.
pub open spec fn can_publish(layer: StashLayerFacts, max_rows: usize, capacity: usize) -> bool {
    &&& layer.is_gdn
    &&& layer.has_pool
    &&& layer.has_pending
    &&& layer.transitions_supported
    &&& same_layout(layer)
    &&& layer.pending_capacity == capacity
    &&& layer.pending_k_heads == layer.commit_k_heads
    &&& layer.pending_max_rows == max_rows
}

pub open spec fn all_publish(layers: Seq<StashLayerFacts>, max_rows: usize, capacity: usize) -> bool {
    forall|i: int| 0 <= i < layers.len() ==> can_publish(#[trigger] layers[i], max_rows, capacity)
}

pub open spec fn pool_devices(layers: Seq<StashLayerFacts>) -> Seq<usize> {
    layers.map_values(|layer: StashLayerFacts| layer.pool_device)
}

/// Whether a slot other than the padding is past the capacity.
pub open spec fn some_slot_exceeds(slots: Seq<u32>, pad: u32, capacity: usize) -> bool {
    exists|i: int| 0 <= i < slots.len() && #[trigger] slots[i] != pad && slots[i] >= capacity
}

pub open spec fn stage_is(
    plan: Result<StagePlan, Seq<char>>,
    rows: Seq<SpeculativeCommitRow>,
    stash: Option<StashFacts>,
    max_rows: usize,
    uses_log: bool,
    capacity: usize,
    pad: u32,
) -> bool {
    let n = rows.len() as int;
    if n == 0 {
        plan matches Ok(plan) && plan is Staged
    } else {
        match stash {
            None => plan == Err::<StagePlan, Seq<char>>(
                "no GDN transition stash for speculative commit"@,
            ),
            Some(stash) => {
                let batch = stash.slots@.len() as usize;
                let refusal = keep_rows_refusal(rows, batch, max_rows, n);
                if stash.layers@.len() == 0 || !all_transitions(stash.layers@) {
                    plan matches Ok(plan) && plan is NotStaged
                } else if refusal.message is Some {
                    plan == Err::<StagePlan, Seq<char>>(refusal.message->0)
                } else if has_twin(stash.slots@, pad) {
                    plan == Err::<StagePlan, Seq<char>>(
                        "GDN transition batch contains duplicate recurrent slots"@,
                    )
                } else if !uses_log || !all_publish(stash.layers@, max_rows, capacity) {
                    plan matches Ok(plan) && plan is NotStaged
                } else if some_slot_exceeds(stash.slots@, pad, capacity) {
                    plan == Err::<StagePlan, Seq<char>>(
                        "GDN transition slot exceeds recurrent capacity"@,
                    )
                } else {
                    plan matches Ok(StagePlan::Publish(publish)) && {
                        &&& publish.keep_rows@ == kept_rows(rows, batch, n)
                        &&& are_device_groups(publish.groups@, pool_devices(stash.layers@))
                        &&& publish.terminal_slots@ == terminal_slots(rows, stash.slots@, n)
                    }
                }
            },
        }
    }
}

fn only_transitions(layers: &Vec<StashLayerFacts>) -> (only: bool)
    ensures
        only == all_transitions(layers@),
{
    let mut i: usize = 0;
    while i < layers.len()
        invariant
            i <= layers@.len(),
            forall|k: int| 0 <= k < i ==> (#[trigger] layers@[k]).transition,
        decreases layers@.len() - i,
    {
        if !layers[i].transition {
            return false;
        }
        i = i + 1;
    }
    true
}

fn all_can_publish(layers: &Vec<StashLayerFacts>, max_rows: usize, capacity: usize) -> (all: bool)
    ensures
        all == all_publish(layers@, max_rows, capacity),
{
    let mut i: usize = 0;
    while i < layers.len()
        invariant
            i <= layers@.len(),
            forall|k: int| 0 <= k < i ==> can_publish(#[trigger] layers@[k], max_rows, capacity),
        decreases layers@.len() - i,
    {
        let layer: &StashLayerFacts = &layers[i];
        if !(layer.is_gdn && layer.has_pool && layer.has_pending && layer.transitions_supported
            && layouts_match(layer) && layer.pending_capacity == capacity && layer.pending_k_heads
            == layer.commit_k_heads && layer.pending_max_rows == max_rows) {
            assert(!can_publish(layers@[i as int], max_rows, capacity));
            return false;
        }
        i = i + 1;
    }
    true
}

fn list_pool_devices(layers: &Vec<StashLayerFacts>) -> (devices: Vec<usize>)
    ensures
        devices@ == pool_devices(layers@),
{
    let mut devices: Vec<usize> = Vec::new();
    let mut i: usize = 0;
    while i < layers.len()
        invariant
            i <= layers@.len(),
            devices@ == pool_devices(layers@).take(i as int),
        decreases layers@.len() - i,
    {
        devices.push(layers[i].pool_device);
        i = i + 1;
        assert(devices@ =~= pool_devices(layers@).take(i as int));
    }
    assert(devices@ =~= pool_devices(layers@));
    devices
}

fn exceeds(live: &Vec<u32>, capacity: usize) -> (past: bool)
    ensures
        past == exists|i: int| 0 <= i < live@.len() && #[trigger] live@[i] >= capacity,
{
    let mut i: usize = 0;
    while i < live.len()
        invariant
            i <= live@.len(),
            forall|k: int| 0 <= k < i ==> #[trigger] live@[k] < capacity,
        decreases live@.len() - i,
    {
        if live[i] as usize >= capacity {
            assert(live@[i as int] >= capacity);
            return true;
        }
        i = i + 1;
    }
    false
}

proof fn lemma_rows_in_batch(
    rows: Seq<SpeculativeCommitRow>,
    batch: usize,
    max_rows: usize,
    n: int,
)
    requires
        0 <= n <= rows.len(),
        keep_rows_refusal(rows, batch, max_rows, n).message is None,
    ensures
        terminal_refusal(rows, batch as nat, n).message is None,
    decreases n,
{
    if n > 0 {
        lemma_rows_in_batch(rows, batch, max_rows, n - 1);
    }
}

/// What is published of a speculative step whose layers log their transitions.
/// `capacity` is the number of recurrent slots, and `max_rows` the rows that a
/// log holds.
pub fn stage_recurrent_prefixes(
    rows: &[SpeculativeCommitRow],
    stash: &Option<StashFacts>,
    max_rows: usize,
    uses_log: bool,
    capacity: usize,
    pad: u32,
) -> (plan: Result<StagePlan, Fault>)
    ensures
        stage_is(outcome(plan), rows@, *stash, max_rows, uses_log, capacity, pad),
{
    if rows.len() == 0 {
        return Ok(StagePlan::Staged);
    }
    let stash: &StashFacts = match stash {
        Some(stash) => stash,
        None => return Err(Fault::of("no GDN transition stash for speculative commit")),
    };
    if stash.layers.len() == 0 || !only_transitions(&stash.layers) {
        return Ok(StagePlan::NotStaged);
    }
    let keep_rows: Vec<u32> = gdn_transition_keep_rows(rows, stash.slots.len(), max_rows)?;
    let live: Vec<u32> = match distinct_live_slots(stash.slots.as_slice(), pad) {
        Some(live) => live,
        None => return Err(
            Fault::of("GDN transition batch contains duplicate recurrent slots"),
        ),
    };
    if !uses_log || !all_can_publish(&stash.layers, max_rows, capacity) {
        return Ok(StagePlan::NotStaged);
    }
    let past: bool = exceeds(&live, capacity);
    proof {
        if past {
            let i = choose|i: int| 0 <= i < live@.len() && #[trigger] live@[i] >= capacity;
            assert(live@.contains(live@[i]));
            let k = choose|k: int| 0 <= k < stash.slots@.len() && stash.slots@[k] == live@[i];
            assert(stash.slots@[k] != pad);
            assert(some_slot_exceeds(stash.slots@, pad, capacity));
        }
        if some_slot_exceeds(stash.slots@, pad, capacity) {
            let k = choose|k: int|
                0 <= k < stash.slots@.len() && #[trigger] stash.slots@[k] != pad && stash.slots@[k]
                    >= capacity;
            assert(stash.slots@.contains(stash.slots@[k]));
            assert(live@.contains(stash.slots@[k]));
            let i = choose|i: int| 0 <= i < live@.len() && live@[i] == stash.slots@[k];
            assert(live@[i] >= capacity);
        }
        lemma_rows_in_batch(rows@, stash.slots@.len() as usize, max_rows, rows@.len() as int);
    }
    if past {
        return Err(Fault::of("GDN transition slot exceeds recurrent capacity"));
    }
    let devices: Vec<usize> = list_pool_devices(&stash.layers);
    let groups: Vec<PublishGroup> = group_by_device(&devices);
    let terminal: Vec<u32> = terminal_gdn_transition_slots(rows, stash.slots.as_slice())?;
    Ok(StagePlan::Publish(PublishPlan { keep_rows, groups, terminal_slots: terminal }))
}

/// Checks that the transitions of the sequences that end were applied.
pub fn terminal_transitions_check(any_terminal: bool, applied: bool) -> (r: Result<(), Fault>)
    ensures
        outcome(r) == if any_terminal && !applied {
            Err::<(), Seq<char>>("Qwen3Next terminal recurrent transitions cannot be applied"@)
        } else {
            Ok(())
        },
{
    if any_terminal && !applied {
        return Err(Fault::of("Qwen3Next terminal recurrent transitions cannot be applied"));
    }
    Ok(())
}

// Replaying.

/// The first refusal of a replay layer, where the layer cannot take its state
/// back.
pub open spec fn replay_layer_check(layer: StashLayerFacts) -> Result<(), Seq<char>> {
    if !layer.is_gdn {
        Err("GDN replay stash points at a full-attention layer"@)
    } else if !layer.has_pool {
        Err(
            "GDN replay stash layer "@ + dec(layer.layer_idx as nat)
                + " has no recurrent state pool"@,
        )
    } else if !same_layout(layer) {
        Err(
            "GDN replay state layout mismatch: stash "@ + layer.stash_layout.name@ + ", pool "@
                + layer.pool_layout.name@,
        )
    } else {
        Ok(())
    }
}

/// How the steps of a replay come to an end.
#[derive(Debug)]
pub enum ReplayEnd {
    Done,
    /// The next layer cannot take its state back.
    Refused(Fault),
}

/// What it takes to replay a speculative step in batches: the layers that are
/// replayed, in order, each with the place of its device.
#[derive(Debug)]
pub struct BatchReplay {
    pub batches: Vec<GdnReplayBatch>,
    pub devices: Vec<usize>,
    pub device_of_layer: Vec<usize>,
    pub end: ReplayEnd,
}

/// What it takes to commit a speculative step at once: the rows that each
/// sequence keeps, the devices, and the place of the device of each layer.
#[derive(Debug)]
pub struct FusedReplay {
    pub keep_rows: Vec<u32>,
    pub devices: Vec<usize>,
    pub device_of_layer: Vec<usize>,
}

#[derive(Debug)]
pub enum ReplayPlan {
    Nothing,
    Fused(FusedReplay),
    Batches(BatchReplay),
}

pub open spec fn no_transitions(layers: Seq<StashLayerFacts>) -> bool {
    forall|i: int| 0 <= i < layers.len() ==> !(#[trigger] layers[i]).transition
}

/// Whether a device can commit all layers at once.
pub open spec fn can_fuse(layers: Seq<StashLayerFacts>) -> bool {
    &&& layers.len() > 0
    &&& forall|i: int|
        0 <= i < layers.len() ==> {
            let layer = #[trigger] layers[i];
            layer.device_is_cuda && layer.is_gdn && layer.has_pool && same_layout(layer)
                && layer.commit_supported
        }
}

pub open spec fn stash_devices(layers: Seq<StashLayerFacts>) -> Seq<usize> {
    layers.map_values(|layer: StashLayerFacts| layer.device)
}

/// The number of layers before the first that cannot take its state back.
pub open spec fn leading_layers(layers: Seq<StashLayerFacts>, n: int) -> int
    decreases n,
{
    if n <= 0 {
        0
    } else {
        let before = leading_layers(layers, n - 1);
        if before == n - 1 && replay_layer_check(layers[n - 1]) is Ok {
            n
        } else {
            before
        }
    }
}

/// Whether each of the first `n` entries is the place of the layer's device.
pub open spec fn points_at_devices(
    device_of_layer: Seq<usize>,
    devices: Seq<usize>,
    layers: Seq<StashLayerFacts>,
    n: int,
) -> bool {
    &&& device_of_layer.len() == n
    &&& forall|i: int|
        0 <= i < n ==> (#[trigger] device_of_layer[i]) < devices.len()
            && devices[device_of_layer[i] as int] == layers[i].device
}

pub open spec fn replay_end_is(end: ReplayEnd, layers: Seq<StashLayerFacts>, steps: int) -> bool {
    match end {
        ReplayEnd::Done => steps == layers.len(),
        ReplayEnd::Refused(fault) => steps < layers.len() && replay_layer_check(layers[steps])
            == Err::<(), Seq<char>>(fault@),
    }
}

pub open spec fn replay_is(
    plan: Result<ReplayPlan, Seq<char>>,
    rows: Seq<(usize, usize)>,
    stash: Option<StashFacts>,
) -> bool {
    let n = rows.len() as int;
    if n == 0 {
        plan matches Ok(plan) && plan is Nothing
    } else {
        match stash {
            None => plan == Err::<ReplayPlan, Seq<char>>(
                "no GDN replay stash for speculative rollback"@,
            ),
            Some(stash) => {
                let layers = stash.layers@;
                let total = layers.len() as int;
                let batch = stash.slots@.len() as usize;
                let devices = distinct(stash_devices(layers), total);
                let fused_refusal = fused_rows_refusal(rows, batch, n);
                let batch_refusal = replay_rows_refusal(rows, stash.slots@.len(), n);
                if !no_transitions(layers) && !all_transitions(layers) {
                    plan == Err::<ReplayPlan, Seq<char>>(
                        "GDN speculative stash mixes replay and transition layers"@,
                    )
                } else if total > 0 && all_transitions(layers) {
                    plan == Err::<ReplayPlan, Seq<char>>(
                        "GDN direct transitions must be published before replay fallback"@,
                    )
                } else if can_fuse(layers) {
                    if fused_refusal.message is Some {
                        plan == Err::<ReplayPlan, Seq<char>>(fused_refusal.message->0)
                    } else {
                        plan matches Ok(ReplayPlan::Fused(fused)) && {
                            &&& fused.keep_rows@ == fused_rows(rows, batch, n)
                            &&& fused.devices@ == devices
                            &&& points_at_devices(
                                fused.device_of_layer@,
                                fused.devices@,
                                layers,
                                total,
                            )
                        }
                    }
                } else if batch_refusal.message is Some {
                    plan == Err::<ReplayPlan, Seq<char>>(batch_refusal.message->0)
                } else {
                    plan matches Ok(ReplayPlan::Batches(replay)) && {
                        &&& is_grouping(replay.batches@, rows, stash.slots@)
                        &&& replay.devices@ == devices
                        &&& points_at_devices(
                            replay.device_of_layer@,
                            replay.devices@,
                            layers,
                            leading_layers(layers, total),
                        )
                        &&& replay_end_is(replay.end, layers, leading_layers(layers, total))
                    }
                }
            },
        }
    }
}

fn count_transitions(layers: &Vec<StashLayerFacts>) -> (counted: (bool, bool))
    ensures
        counted.0 == no_transitions(layers@),
        counted.1 == all_transitions(layers@),
{
    let mut none: bool = true;
    let mut all: bool = true;
    let mut i: usize = 0;
    while i < layers.len()
        invariant
            i <= layers@.len(),
            none <==> forall|k: int| 0 <= k < i ==> !(#[trigger] layers@[k]).transition,
            all <==> forall|k: int| 0 <= k < i ==> (#[trigger] layers@[k]).transition,
        decreases layers@.len() - i,
    {
        if layers[i].transition {
            none = false;
        } else {
            all = false;
        }
        i = i + 1;
    }
    (none, all)
}

fn can_fuse_layers(layers: &Vec<StashLayerFacts>) -> (fuse: bool)
    ensures
        fuse == can_fuse(layers@),
{
    if layers.len() == 0 {
        return false;
    }
    let mut i: usize = 0;
    while i < layers.len()
        invariant
            i <= layers@.len(),
            forall|k: int|
                0 <= k < i ==> {
                    let layer = #[trigger] layers@[k];
                    layer.device_is_cuda && layer.is_gdn && layer.has_pool && same_layout(layer)
                        && layer.commit_supported
                },
        decreases layers@.len() - i,
    {
        let layer: &StashLayerFacts = &layers[i];
        if !(layer.device_is_cuda && layer.is_gdn && layer.has_pool && layouts_match(layer)
            && layer.commit_supported) {
            assert(!can_fuse(layers@)) by {
                let bad = layers@[i as int];
                assert(!(bad.device_is_cuda && bad.is_gdn && bad.has_pool && same_layout(bad)
                    && bad.commit_supported));
            }
            return false;
        }
        i = i + 1;
    }
    true
}

fn list_devices(layers: &Vec<StashLayerFacts>) -> (devices: Vec<usize>)
    ensures
        devices@ == stash_devices(layers@),
{
    let mut devices: Vec<usize> = Vec::new();
    let mut i: usize = 0;
    while i < layers.len()
        invariant
            i <= layers@.len(),
            devices@ == stash_devices(layers@).take(i as int),
        decreases layers@.len() - i,
    {
        devices.push(layers[i].device);
        i = i + 1;
        assert(devices@ =~= stash_devices(layers@).take(i as int));
    }
    assert(devices@ =~= stash_devices(layers@));
    devices
}

fn place_of(numbers: &Vec<usize>, number: usize) -> (place: usize)
    requires
        numbers@.contains(number),
    ensures
        place < numbers@.len(),
        numbers@[place as int] == number,
{
    let len: usize = numbers.len();
    let mut i: usize = 0;
    while numbers[i] != number
        invariant
            len == numbers@.len(),
            i < len,
            numbers@.contains(number),
            forall|k: int| 0 <= k < i ==> #[trigger] numbers@[k] != number,
        decreases numbers@.len() - i,
    {
        proof {
            let at = choose|at: int| 0 <= at < numbers@.len() && numbers@[at] == number;
            assert(numbers@[i as int] != number);
            assert(at > i);
        }
        i = i + 1;
    }
    i
}

fn devices_of_layers(layers: &Vec<StashLayerFacts>, devices: &Vec<usize>, count: usize) -> (list: Vec<
    usize,
>)
    requires
        count <= layers@.len(),
        devices@ == distinct(stash_devices(layers@), layers@.len() as int),
    ensures
        points_at_devices(list@, devices@, layers@, count as int),
{
    let len: usize = layers.len();
    let mut list: Vec<usize> = Vec::new();
    let mut i: usize = 0;
    while i < count
        invariant
            i <= count <= layers@.len(),
            len == layers@.len(),
            devices@ == distinct(stash_devices(layers@), layers@.len() as int),
            points_at_devices(list@, devices@, layers@, i as int),
        decreases count - i,
    {
        proof {
            law_distinct_covers(stash_devices(layers@), layers@.len() as int);
            assert(stash_devices(layers@)[i as int] == layers@[i as int].device);
        }
        list.push(place_of(devices, layers[i].device));
        i = i + 1;
    }
    list
}

fn check_replay_layer(layer: &StashLayerFacts) -> (r: Result<(), Fault>)
    ensures
        outcome(r) == replay_layer_check(*layer),
{
    if !layer.is_gdn {
        return Err(Fault::of("GDN replay stash points at a full-attention layer"));
    }
    if !layer.has_pool {
        return Err(
            Fault::new(
                String::from_str("GDN replay stash layer ").concat(
                    decimal(layer.layer_idx as u64).as_str(),
                ).concat(" has no recurrent state pool"),
            ),
        );
    }
    if !layouts_match(layer) {
        return Err(
            Fault::new(
                String::from_str("GDN replay state layout mismatch: stash ").concat(
                    layer.stash_layout.name.as_str(),
                ).concat(", pool ").concat(layer.pool_layout.name.as_str()),
            ),
        );
    }
    Ok(())
}

proof fn lemma_leading_stops(layers: Seq<StashLayerFacts>, m: int, n: int)
    requires
        0 <= m < n <= layers.len(),
        leading_layers(layers, m) == m,
        replay_layer_check(layers[m]) is Err,
    ensures
        leading_layers(layers, n) == m,
    decreases n,
{
    if m < n - 1 {
        lemma_leading_stops(layers, m, n - 1);
    }
}

fn replay_steps(layers: &Vec<StashLayerFacts>) -> (steps: (usize, ReplayEnd))
    ensures
        steps.0 == leading_layers(layers@, layers@.len() as int),
        steps.0 <= layers@.len(),
        replay_end_is(steps.1, layers@, steps.0 as int),
{
    let mut i: usize = 0;
    while i < layers.len()
        invariant
            i <= layers@.len(),
            leading_layers(layers@, i as int) == i,
        decreases layers@.len() - i,
    {
        match check_replay_layer(&layers[i]) {
            Ok(()) => {},
            Err(fault) => {
                proof {
                    lemma_leading_stops(layers@, i as int, layers@.len() as int);
                }
                return (i, ReplayEnd::Refused(fault));
            },
        }
        i = i + 1;
    }
    (i, ReplayEnd::Done)
}

/// What it takes to replay the part of a speculative step that is kept. A row is
/// a place in the batch and the number of tokens that it keeps.
pub fn replay_recurrent_prefixes(rows: &[(usize, usize)], stash: &Option<StashFacts>) -> (plan:
    Result<ReplayPlan, Fault>)
    ensures
        replay_is(outcome(plan), rows@, *stash),
{
    if rows.len() == 0 {
        return Ok(ReplayPlan::Nothing);
    }
    let stash: &StashFacts = match stash {
        Some(stash) => stash,
        None => return Err(Fault::of("no GDN replay stash for speculative rollback")),
    };
    let (none, all): (bool, bool) = count_transitions(&stash.layers);
    if !none && !all {
        return Err(Fault::of("GDN speculative stash mixes replay and transition layers"));
    }
    if stash.layers.len() > 0 && all {
        return Err(
            Fault::of("GDN direct transitions must be published before replay fallback"),
        );
    }
    let listed: Vec<usize> = list_devices(&stash.layers);
    let devices: Vec<usize> = distinct_numbers(&listed);
    if can_fuse_layers(&stash.layers) {
        let keep_rows: Vec<u32> = gdn_replay_keep_rows(rows, stash.slots.len())?;
        let device_of_layer: Vec<usize> = devices_of_layers(
            &stash.layers,
            &devices,
            stash.layers.len(),
        );
        return Ok(ReplayPlan::Fused(FusedReplay { keep_rows, devices, device_of_layer }));
    }
    let batches: Vec<GdnReplayBatch> = group_gdn_replay_batches(rows, stash.slots.as_slice())?;
    let (count, end): (usize, ReplayEnd) = replay_steps(&stash.layers);
    let device_of_layer: Vec<usize> = devices_of_layers(&stash.layers, &devices, count);
    Ok(ReplayPlan::Batches(BatchReplay { batches, devices, device_of_layer, end }))
}

/// Checks that a device committed a layer that it said it could.
pub fn fused_commit_check(committed: bool) -> (r: Result<(), Fault>)
    ensures
        outcome(r) == if committed {
            Ok::<(), Seq<char>>(())
        } else {
            Err("CUDA GDN speculative state commit was unavailable"@)
        },
{
    if committed {
        Ok(())
    } else {
        Err(Fault::of("CUDA GDN speculative state commit was unavailable"))
    }
}

// The commit of a step.

/// What a commit does next.
#[derive(Debug)]
pub enum CommitStep {
    /// Publish the transitions of the rows.
    Stage,
    /// Commit the checkpoints of the rows, if they are kept.
    Checkpoint(Vec<(usize, usize)>),
    /// Replay the rows.
    Replay(Vec<(usize, usize)>),
    /// Drop the stash: the commit is done.
    Clear,
}

/// The place in the batch and the kept tokens of each row.
pub open spec fn commit_pairs(rows: Seq<SpeculativeCommitRow>) -> Seq<(usize, usize)> {
    rows.map_values(|row: SpeculativeCommitRow| (row.batch_idx, row.keep_rows))
}

/// The place in the batch and the kept tokens of each of the first `n` rows that
/// was not accepted whole.
pub open spec fn rejected_pairs(rows: Seq<SpeculativeCommitRow>, n: int) -> Seq<(usize, usize)>
    decreases n,
{
    if n <= 0 {
        Seq::empty()
    } else if rows[n - 1].accepted_all {
        rejected_pairs(rows, n - 1)
    } else {
        rejected_pairs(rows, n - 1).push((rows[n - 1].batch_idx, rows[n - 1].keep_rows))
    }
}

fn list_pairs(rows: &[SpeculativeCommitRow]) -> (pairs: Vec<(usize, usize)>)
    ensures
        pairs@ == commit_pairs(rows@),
{
    let mut pairs: Vec<(usize, usize)> = Vec::new();
    let mut i: usize = 0;
    while i < rows.len()
        invariant
            i <= rows@.len(),
            pairs@ == commit_pairs(rows@).take(i as int),
        decreases rows@.len() - i,
    {
        pairs.push((rows[i].batch_idx, rows[i].keep_rows));
        i = i + 1;
        assert(pairs@ =~= commit_pairs(rows@).take(i as int));
    }
    assert(pairs@ =~= commit_pairs(rows@));
    pairs
}

fn list_rejected(rows: &[SpeculativeCommitRow]) -> (pairs: Vec<(usize, usize)>)
    ensures
        pairs@ == rejected_pairs(rows@, rows@.len() as int),
{
    let mut pairs: Vec<(usize, usize)> = Vec::new();
    let mut i: usize = 0;
    while i < rows.len()
        invariant
            i <= rows@.len(),
            pairs@ == rejected_pairs(rows@, i as int),
        decreases rows@.len() - i,
    {
        if !rows[i].accepted_all {
            pairs.push((rows[i].batch_idx, rows[i].keep_rows));
        }
        i = i + 1;
    }
    pairs
}

/// Whether a step replays the listed rows.
pub open spec fn replays_rows(step: CommitStep, pairs: Seq<(usize, usize)>) -> bool {
    step matches CommitStep::Replay(own) && own@ == pairs
}

/// Whether a commit begins with a step.
pub open spec fn begins_commit(
    step: CommitStep,
    rows: Seq<SpeculativeCommitRow>,
    uses_log: bool,
    checkpoints_supported: bool,
) -> bool {
    if uses_log {
        step is Stage
    } else if checkpoints_supported {
        step matches CommitStep::Checkpoint(pairs) && pairs@ == commit_pairs(rows)
    } else {
        replays_rows(step, rejected_pairs(rows, rows.len() as int))
    }
}

/// Whether a step comes after transitions were tried.
pub open spec fn follows_stage(
    step: CommitStep,
    rows: Seq<SpeculativeCommitRow>,
    staged: bool,
) -> bool {
    if staged {
        step is Clear
    } else {
        replays_rows(step, commit_pairs(rows))
    }
}

/// Whether a step comes after checkpoints were tried.
pub open spec fn follows_checkpoint(
    step: CommitStep,
    rows: Seq<SpeculativeCommitRow>,
    checkpointed: bool,
) -> bool {
    if checkpointed {
        step is Clear
    } else {
        replays_rows(step, rejected_pairs(rows, rows.len() as int))
    }
}

/// What a commit does first: publish transitions where a log is kept; else try
/// checkpoints where they are supported; else replay what was rejected.
pub fn speculative_commit(
    rows: &[SpeculativeCommitRow],
    uses_log: bool,
    checkpoints_supported: bool,
) -> (step: CommitStep)
    ensures
        if uses_log {
            step is Stage
        } else if checkpoints_supported {
            step matches CommitStep::Checkpoint(pairs) && pairs@ == commit_pairs(rows@)
        } else {
            step matches CommitStep::Replay(pairs) && pairs@ == rejected_pairs(
                rows@,
                rows@.len() as int,
            )
        },
        begins_commit(step, rows@, uses_log, checkpoints_supported),
{
    if uses_log {
        CommitStep::Stage
    } else if checkpoints_supported {
        CommitStep::Checkpoint(list_pairs(rows))
    } else {
        CommitStep::Replay(list_rejected(rows))
    }
}

/// What a commit does after it tried to publish transitions: all rows are
/// replayed where that was not possible.
pub fn after_stage(rows: &[SpeculativeCommitRow], staged: bool) -> (step: CommitStep)
    ensures
        if staged {
            step is Clear
        } else {
            step matches CommitStep::Replay(pairs) && pairs@ == commit_pairs(rows@)
        },
        follows_stage(step, rows@, staged),
{
    if staged {
        CommitStep::Clear
    } else {
        CommitStep::Replay(list_pairs(rows))
    }
}

/// What a commit does after it tried checkpoints: rejected rows are replayed
/// where there were none.
pub fn after_checkpoint(rows: &[SpeculativeCommitRow], checkpointed: bool) -> (step: CommitStep)
    ensures
        if checkpointed {
            step is Clear
        } else {
            step matches CommitStep::Replay(pairs) && pairs@ == rejected_pairs(
                rows@,
                rows@.len() as int,
            )
        },
        follows_checkpoint(step, rows@, checkpointed),
{
    if checkpointed {
        CommitStep::Clear
    } else {
        CommitStep::Replay(list_rejected(rows))
    }
}

/// A step that is accepted whole has nothing to replay.
pub proof fn law_accepted_steps_replay_nothing(rows: Seq<SpeculativeCommitRow>, n: int)
    requires
        0 <= n <= rows.len(),
        forall|i: int| 0 <= i < n ==> (#[trigger] rows[i]).accepted_all,
    ensures
        rejected_pairs(rows, n) == Seq::<(usize, usize)>::empty(),
    decreases n,
{
    if n > 0 {
        law_accepted_steps_replay_nothing(rows, n - 1);
    }
}

// What the plans say of each layer and of each row.

/// The places of a number are the places where it stands, in rising order.
pub proof fn law_places_are_where_it_stands(numbers: Seq<usize>, number: usize, n: int)
    requires
        0 <= n <= numbers.len() <= usize::MAX,
    ensures
        forall|k: int|
            0 <= k < places(numbers, number, n).len() ==> (#[trigger] places(numbers, number, n)[k])
                < n && numbers[places(numbers, number, n)[k] as int] == number,
        forall|j: int, k: int|
            0 <= j < k < places(numbers, number, n).len() ==> #[trigger] places(
                numbers,
                number,
                n,
            )[j] < #[trigger] places(numbers, number, n)[k],
        forall|i: int|
            0 <= i < n && #[trigger] numbers[i] == number ==> places(numbers, number, n).contains(
                i as usize,
            ),
    decreases n,
{
    if n > 0 {
        law_places_are_where_it_stands(numbers, number, n - 1);
        law_distinct_covers(numbers, n);
        let before = places(numbers, number, n - 1);
        let after = places(numbers, number, n);
        assert forall|k: int| 0 <= k < after.len() implies (#[trigger] after[k]) < n
            && numbers[after[k] as int] == number by {
            if k < before.len() {
                assert(after[k] == before[k]);
            }
        }
        assert forall|j: int, k: int| 0 <= j < k < after.len() implies #[trigger] after[j]
            < #[trigger] after[k] by {
            assert(after[j] == before[j]);
            if k < before.len() {
                assert(after[k] == before[k]);
            }
        }
    }
}

/// The distinct numbers are numbers of the list, in the order in which they first
/// come: one that is listed before another also comes before it.
pub proof fn law_distinct_keeps_order(numbers: Seq<usize>, n: int)
    requires
        0 <= n <= numbers.len() <= usize::MAX,
    ensures
        forall|k: int|
            0 <= k < distinct(numbers, n).len() ==> first_comes(
                numbers,
                #[trigger] distinct(numbers, n)[k],
                n,
            ),
        forall|j: int, k: int, i: int|
            0 <= j < k < distinct(numbers, n).len() && 0 <= i < n && numbers[i] == distinct(
                numbers,
                n,
            )[k] ==> #[trigger] comes_before(
                numbers,
                #[trigger] distinct(numbers, n)[j],
                i,
                #[trigger] distinct(numbers, n)[k],
            ),
    decreases n,
{
    if n > 0 {
        law_distinct_keeps_order(numbers, n - 1);
        law_distinct_covers(numbers, n - 1);
        law_distinct_covers(numbers, n);
        let before = distinct(numbers, n - 1);
        let after = distinct(numbers, n);
        assert forall|k: int| 0 <= k < after.len() implies first_comes(
            numbers,
            #[trigger] after[k],
            n,
        ) by {
            if k < before.len() {
                assert(first_comes(numbers, before[k], n - 1));
                let i = choose|i: int| 0 <= i < n - 1 && #[trigger] numbers[i] == before[k];
                assert(numbers[i] == after[k]);
            } else {
                assert(numbers[n - 1] == after[k]);
            }
        }
        assert forall|j: int, k: int, i: int|
            0 <= j < k < after.len() && 0 <= i < n && numbers[i]
                == after[k] implies #[trigger] comes_before(
            numbers,
            #[trigger] after[j],
            i,
            #[trigger] after[k],
        ) by {
            if k < before.len() {
                if i < n - 1 {
                    assert(comes_before(numbers, before[j], i, before[k]));
                } else {
                    assert(first_comes(numbers, before[k], n - 1));
                    let i0 = choose|i0: int| 0 <= i0 < n - 1 && #[trigger] numbers[i0] == before[k];
                    assert(comes_before(numbers, before[j], i0, before[k]));
                    let h = choose|h: int| 0 <= h < i0 && #[trigger] numbers[h] == before[j];
                    assert(numbers[h] == after[j]);
                }
            } else {
                assert(first_comes(numbers, before[j], n - 1));
                let h = choose|h: int| 0 <= h < n - 1 && #[trigger] numbers[h] == before[j];
                if i < n - 1 {
                    assert(before.contains(numbers[i]));
                }
                assert(numbers[h] == after[j]);
            }
        }
    }
}

/// Whether a number stands among the first `n`.
pub open spec fn first_comes(numbers: Seq<usize>, number: usize, n: int) -> bool {
    exists|i: int| 0 <= i < n && #[trigger] numbers[i] == number
}

/// Whether a number stands before place `i`, where another stands.
pub open spec fn comes_before(numbers: Seq<usize>, number: usize, i: int, other: usize) -> bool {
    numbers[i] == other ==> exists|h: int| 0 <= h < i && #[trigger] numbers[h] == number
}

/// Every layer is in one group, that of its device, and a group holds no others.
pub proof fn law_groups_partition_layers(groups: Seq<PublishGroup>, devices: Seq<usize>)
    requires
        are_device_groups(groups, devices),
        devices.len() <= usize::MAX,
    ensures
        forall|g: int, k: int|
            0 <= g < groups.len() && 0 <= k < groups[g].layers@.len() ==> (
            #[trigger] groups[g].layers@[k]) < devices.len() && devices[groups[g].layers@[k] as int]
                == groups[g].device,
        forall|i: int|
            0 <= i < devices.len() ==> exists|g: int|
                0 <= g < groups.len() && (#[trigger] groups[g]).device == #[trigger] devices[i]
                    && groups[g].layers@.contains(i as usize),
        forall|g: int, h: int|
            0 <= g < h < groups.len() ==> (#[trigger] groups[g]).device != (
            #[trigger] groups[h]).device,
{
    let n = devices.len() as int;
    law_distinct_covers(devices, n);
    assert forall|g: int, k: int|
        0 <= g < groups.len() && 0 <= k < groups[g].layers@.len() implies (
    #[trigger] groups[g].layers@[k]) < devices.len() && devices[groups[g].layers@[k] as int]
        == groups[g].device by {
        law_places_are_where_it_stands(devices, groups[g].device, n);
    }
    assert forall|i: int| 0 <= i < devices.len() implies exists|g: int|
        0 <= g < groups.len() && (#[trigger] groups[g]).device == #[trigger] devices[i]
            && groups[g].layers@.contains(i as usize) by {
        let list = distinct(devices, n);
        assert(list.contains(devices[i]));
        let g = choose|g: int| 0 <= g < list.len() && list[g] == devices[i];
        assert(groups[g].device == devices[i]);
    }
}

/// Whether a plan publishes for each sequence what its row keeps: the last row that
/// speaks of it decides, and one that no row speaks of keeps nothing.
pub open spec fn publishes_kept_rows(
    keep_rows: Seq<u32>,
    rows: Seq<SpeculativeCommitRow>,
    batch: nat,
) -> bool {
    &&& keep_rows.len() == batch
    &&& forall|i: int|
        0 <= i < rows.len() && (forall|j: int|
            i < j < rows.len() ==> (#[trigger] rows[j]).batch_idx != rows[i].batch_idx)
            ==> keep_rows[(#[trigger] rows[i]).batch_idx as int] == rows[i].keep_rows
    &&& forall|b: int|
        0 <= b < batch && (forall|i: int|
            0 <= i < rows.len() ==> (#[trigger] rows[i]).batch_idx != b)
            ==> #[trigger] keep_rows[b] == 0
}

/// What is published is what the rows keep, for every layer on the device of its pool,
/// and the sequences that end are told by their slots.
pub proof fn law_stage_publishes_what_is_kept(
    publish: PublishPlan,
    rows: Seq<SpeculativeCommitRow>,
    stash: StashFacts,
    max_rows: usize,
    uses_log: bool,
    capacity: usize,
    pad: u32,
)
    requires
        stage_is(
            Ok::<StagePlan, Seq<char>>(StagePlan::Publish(publish)),
            rows,
            Some(stash),
            max_rows,
            uses_log,
            capacity,
            pad,
        ),
    ensures
        publishes_kept_rows(publish.keep_rows@, rows, stash.slots@.len()),
        forall|g: int, k: int|
            0 <= g < publish.groups@.len() && 0 <= k < publish.groups@[g].layers@.len() ==> (
            #[trigger] publish.groups@[g].layers@[k]) < stash.layers@.len()
                && stash.layers@[publish.groups@[g].layers@[k] as int].pool_device
                == publish.groups@[g].device,
        forall|l: int|
            0 <= l < stash.layers@.len() ==> exists|g: int|
                0 <= g < publish.groups@.len() && (#[trigger] publish.groups@[g]).device == (
                #[trigger] stash.layers@[l]).pool_device
                    && publish.groups@[g].layers@.contains(l as usize),
        publish.terminal_slots@.len() == endings(rows, rows.len() as int),
        forall|i: int|
            0 <= i < rows.len() && (#[trigger] rows[i]).terminal
                ==> publish.terminal_slots@[endings(rows, i) as int]
                == stash.slots@[rows[i].batch_idx as int],
{
    let n = rows.len() as int;
    let batch = stash.slots@.len() as usize;
    assert(stash.slots.len() == stash.slots@.len());
    assert(stash.layers.len() == stash.layers@.len());
    law_kept_rows(rows, batch, max_rows, n);
    law_terminal_slots(rows, stash.slots@, n);
    let devices = pool_devices(stash.layers@);
    law_groups_partition_layers(publish.groups@, devices);
    assert forall|l: int| 0 <= l < stash.layers@.len() implies exists|g: int|
        0 <= g < publish.groups@.len() && (#[trigger] publish.groups@[g]).device == (
        #[trigger] stash.layers@[l]).pool_device && publish.groups@[g].layers@.contains(
            l as usize,
        ) by {
        assert(devices[l] == stash.layers@[l].pool_device);
    }
    assert forall|g: int, k: int|
        0 <= g < publish.groups@.len() && 0 <= k < publish.groups@[g].layers@.len() implies (
    #[trigger] publish.groups@[g].layers@[k]) < stash.layers@.len()
        && stash.layers@[publish.groups@[g].layers@[k] as int].pool_device
        == publish.groups@[g].device by {
        assert(devices[publish.groups@[g].layers@[k] as int]
            == stash.layers@[publish.groups@[g].layers@[k] as int].pool_device);
    }
}

/// Transitions are published exactly where there are rows, every layer holds a log that
/// fits its pool, every row is in range, and every slot is one of the pool and no
/// other row's.
pub proof fn law_stage_publishes_where_it_can(
    plan: Result<StagePlan, Seq<char>>,
    rows: Seq<SpeculativeCommitRow>,
    stash: Option<StashFacts>,
    max_rows: usize,
    uses_log: bool,
    capacity: usize,
    pad: u32,
)
    requires
        stage_is(plan, rows, stash, max_rows, uses_log, capacity, pad),
    ensures
        (plan matches Ok(StagePlan::Publish(_))) <==> {
            &&& rows.len() > 0
            &&& stash matches Some(stash)
            &&& stash.layers@.len() > 0
            &&& uses_log
            &&& forall|i: int|
                0 <= i < rows.len() ==> (#[trigger] rows[i]).batch_idx < stash.slots@.len()
                    && rows[i].keep_rows <= u32::MAX && rows[i].keep_rows <= max_rows
            &&& forall|l: int|
                0 <= l < stash.layers@.len() ==> {
                    let layer = #[trigger] stash.layers@[l];
                    &&& layer.transition && layer.is_gdn && layer.has_pool && layer.has_pending
                    &&& layer.transitions_supported
                    &&& layer.pool_layout.name@ == layer.stash_layout.name@
                    &&& layer.pending_capacity == capacity && layer.pending_max_rows == max_rows
                    &&& layer.pending_k_heads == layer.commit_k_heads
                }
            &&& forall|i: int|
                0 <= i < stash.slots@.len() && #[trigger] stash.slots@[i] != pad ==> stash.slots@[i]
                    < capacity
            &&& forall|i: int, j: int|
                0 <= i < j < stash.slots@.len() && #[trigger] stash.slots@[i] != pad
                    ==> stash.slots@[i] != #[trigger] stash.slots@[j]
        },
        (plan matches Ok(StagePlan::Staged)) <==> rows.len() == 0,
        plan is Ok && rows.len() > 0 && !(plan matches Ok(StagePlan::Publish(_))) ==> {
            let layers = stash->0.layers@;
            ||| layers.len() == 0
            ||| !uses_log
            ||| exists|l: int|
                0 <= l < layers.len() && !((#[trigger] layers[l]).transition && can_publish(
                    layers[l],
                    max_rows,
                    capacity,
                ))
        },
{
    let n = rows.len() as int;
    if let Some(stash) = stash {
        assert(stash.slots.len() == stash.slots@.len());
        law_kept_rows_are_refused(rows, stash.slots@.len() as usize, max_rows, n);
        let layers = stash.layers@;
        if !all_transitions(layers) {
            let l = choose|l: int| 0 <= l < layers.len() && !(#[trigger] layers[l]).transition;
            assert(!(layers[l].transition && can_publish(layers[l], max_rows, capacity)));
        }
        if !all_publish(layers, max_rows, capacity) {
            let l = choose|l: int|
                0 <= l < layers.len() && !can_publish(#[trigger] layers[l], max_rows, capacity);
            assert(!(layers[l].transition && can_publish(layers[l], max_rows, capacity)));
        }
    }
}

/// A commit that is made at once keeps of each sequence what its row says, and finds
/// each layer on its device.
pub proof fn law_fused_replay_keeps_what_is_kept(
    fused: FusedReplay,
    rows: Seq<(usize, usize)>,
    stash: StashFacts,
)
    requires
        replay_is(Ok::<ReplayPlan, Seq<char>>(ReplayPlan::Fused(fused)), rows, Some(stash)),
    ensures
        fused.keep_rows@.len() == stash.slots@.len(),
        forall|i: int|
            0 <= i < rows.len() && (forall|j: int|
                i < j < rows.len() ==> (#[trigger] rows[j]).0 != rows[i].0)
                ==> fused.keep_rows@[(#[trigger] rows[i]).0 as int] == rows[i].1,
        forall|b: int|
            0 <= b < stash.slots@.len() && (forall|i: int|
                0 <= i < rows.len() ==> (#[trigger] rows[i]).0 != b)
                ==> #[trigger] fused.keep_rows@[b] == 0,
        fused.device_of_layer@.len() == stash.layers@.len(),
        forall|l: int|
            0 <= l < stash.layers@.len() ==> fused.devices@[(
            #[trigger] fused.device_of_layer@[l]) as int] == stash.layers@[l].device,
        fused.devices@.no_duplicates(),
        forall|l: int|
            0 <= l < stash.layers@.len() ==> {
                let layer = #[trigger] stash.layers@[l];
                &&& !layer.transition && layer.device_is_cuda && layer.is_gdn && layer.has_pool
                &&& layer.commit_supported && layer.pool_layout.name@ == layer.stash_layout.name@
            },
{
    let batch = stash.slots@.len() as usize;
    assert(stash.slots.len() == stash.slots@.len());
    assert(stash.layers.len() == stash.layers@.len());
    law_fused_rows(rows, batch, rows.len() as int);
    law_distinct_covers(stash_devices(stash.layers@), stash.layers@.len() as int);
}

/// A replay in batches has each row in the batch of what it keeps, with the slot that
/// stands at its place, and every entry of a batch is such a row. It goes through
/// the layers in order, each on its device, up to the first that cannot take its
/// state back.
pub proof fn law_batch_replay_keeps_what_is_kept(
    replay: BatchReplay,
    rows: Seq<(usize, usize)>,
    stash: StashFacts,
)
    requires
        replay_is(Ok::<ReplayPlan, Seq<char>>(ReplayPlan::Batches(replay)), rows, Some(stash)),
    ensures
        forall|i: int| 0 <= i < rows.len() ==> in_its_batch(replay.batches@, #[trigger] rows[i]),
        forall|b: int, k: int|
            0 <= b < replay.batches@.len() && 0 <= k
                < replay.batches@[b].batch_indices@.len() ==> stands_for_row(
                replay.batches@[b],
                #[trigger] replay.batches@[b].batch_indices@[k],
                k,
                rows,
                stash.slots@,
            ),
        forall|a: int, b: int|
            0 <= a < b < replay.batches@.len() ==> (#[trigger] replay.batches@[a]).keep_rows < (
            #[trigger] replay.batches@[b]).keep_rows,
        replay.device_of_layer@.len() <= stash.layers@.len(),
        forall|l: int|
            0 <= l < replay.device_of_layer@.len() ==> replay.devices@[(
            #[trigger] replay.device_of_layer@[l]) as int] == stash.layers@[l].device,
        forall|l: int|
            0 <= l < replay.device_of_layer@.len() ==> takes_back(#[trigger] stash.layers@[l]),
        replay.end is Done <==> replay.device_of_layer@.len() == stash.layers@.len(),
        replay.end is Refused ==> !takes_back(
            stash.layers@[replay.device_of_layer@.len() as int],
        ),
{
    let layers = stash.layers@;
    law_leading_layers(layers, layers.len() as int);
    law_replay_rows_are_refused(
        rows,
        stash.slots@.len(),
        rows.len() as int,
    );
    assert forall|i: int| 0 <= i < rows.len() implies in_its_batch(
        replay.batches@,
        #[trigger] rows[i],
    ) by {
        law_grouping_covers_rows(
            replay.batches@,
            rows,
            stash.slots@,
            i,
        );
    }
    assert forall|b: int, k: int|
        0 <= b < replay.batches@.len() && 0 <= k
            < replay.batches@[b].batch_indices@.len() implies stands_for_row(
        replay.batches@[b],
        #[trigger] replay.batches@[b].batch_indices@[k],
        k,
        rows,
        stash.slots@,
    ) by {
        let batch = replay.batches@[b];
        let n = rows.len() as int;
        law_kept_rows_are_rows(rows, batch.keep_rows, n);
        let kept = rows_keeping(rows, batch.keep_rows, n);
        let i = choose|i: int| 0 <= i < n && #[trigger] rows[i] == (kept[k], batch.keep_rows);
        assert(rows[i].0 <= u32::MAX);
    }
}

/// Whether a row is in the batch of what it keeps.
pub open spec fn in_its_batch(batches: Seq<GdnReplayBatch>, row: (usize, usize)) -> bool {
    exists|b: int|
        0 <= b < batches.len() && (#[trigger] batches[b]).keep_rows == row.1
            && batches[b].batch_indices@.contains(row.0 as u32)
}

/// Whether entry `k` of a batch stands for a row: its place in the batch, what it keeps,
/// and the slot of that place.
pub open spec fn stands_for_row(
    batch: GdnReplayBatch,
    index: u32,
    k: int,
    rows: Seq<(usize, usize)>,
    slots: Seq<u32>,
) -> bool {
    &&& batch.slots@.len() == batch.batch_indices@.len()
    &&& batch.slots@[k] == slots[index as int]
    &&& exists|i: int|
        0 <= i < rows.len() && (#[trigger] rows[i]).0 == index && rows[i].1 == batch.keep_rows
}

/// Whether a layer can take its state back.
pub open spec fn takes_back(layer: StashLayerFacts) -> bool {
    layer.is_gdn && layer.has_pool && layer.pool_layout.name@ == layer.stash_layout.name@
}

/// A replay goes as far as layers can take their state back.
pub proof fn law_leading_layers(layers: Seq<StashLayerFacts>, n: int)
    requires
        0 <= n <= layers.len(),
    ensures
        0 <= leading_layers(layers, n) <= n,
        forall|l: int|
            0 <= l < leading_layers(layers, n) ==> takes_back(#[trigger] layers[l]),
        leading_layers(layers, n) < n ==> !takes_back(layers[leading_layers(layers, n)]),
    decreases n,
{
    if n > 0 {
        law_leading_layers(layers, n - 1);
    }
}

/// Which way a step is replayed: at once where every layer can be committed so, and in
/// batches where no layer holds a log and one cannot. A log must be published first,
/// and a row must be one of the batch.
pub proof fn law_replays_go_one_way(
    plan: Result<ReplayPlan, Seq<char>>,
    rows: Seq<(usize, usize)>,
    stash: Option<StashFacts>,
)
    requires
        replay_is(plan, rows, stash),
    ensures
        (plan matches Ok(ReplayPlan::Nothing)) <==> rows.len() == 0,
        rows.len() > 0 && stash is None ==> plan is Err,
        plan is Ok && rows.len() > 0 ==> {
            let stash = stash->0;
            &&& forall|l: int|
                0 <= l < stash.layers@.len() ==> !(#[trigger] stash.layers@[l]).transition
            &&& forall|i: int| 0 <= i < rows.len() ==> (#[trigger] rows[i]).0 < stash.slots@.len()
        },
        rows.len() > 0 && stash is Some ==> {
            let stash = stash->0;
            let fits = forall|i: int|
                0 <= i < rows.len() ==> (#[trigger] rows[i]).0 < stash.slots@.len();
            let logs = exists|l: int|
                0 <= l < stash.layers@.len() && (#[trigger] stash.layers@[l]).transition;
            let at_once = stash.layers@.len() > 0 && forall|l: int|
                0 <= l < stash.layers@.len() ==> {
                    let layer = #[trigger] stash.layers@[l];
                    layer.device_is_cuda && layer.commit_supported && takes_back(layer)
                };
            &&& (plan matches Ok(ReplayPlan::Fused(_))) <==> {
                &&& !logs && fits && at_once
                &&& forall|i: int| 0 <= i < rows.len() ==> (#[trigger] rows[i]).1 <= u32::MAX
            }
            &&& (plan matches Ok(ReplayPlan::Batches(_))) <==> {
                &&& !logs && fits && !at_once
                &&& forall|i: int| 0 <= i < rows.len() ==> (#[trigger] rows[i]).0 <= u32::MAX
            }
        },
{
    let n = rows.len() as int;
    if let Some(stash) = stash {
        let batch = stash.slots@.len() as usize;
        assert(stash.slots.len() == stash.slots@.len());
        law_fused_rows_are_refused(rows, batch, n);
        law_replay_rows_are_refused(rows, stash.slots@.len(), n);
        let layers = stash.layers@;
        let at_once = layers.len() > 0 && forall|l: int|
            0 <= l < layers.len() ==> {
                let layer = #[trigger] layers[l];
                layer.device_is_cuda && layer.commit_supported && takes_back(layer)
            };
        assert(at_once == can_fuse(layers)) by {
            if can_fuse(layers) {
                assert forall|l: int| 0 <= l < layers.len() implies ({
                    let layer = #[trigger] layers[l];
                    layer.device_is_cuda && layer.commit_supported && takes_back(layer)
                }) by {}
            }
            if at_once {
                assert forall|l: int| 0 <= l < layers.len() implies ({
                    let layer = #[trigger] layers[l];
                    layer.device_is_cuda && layer.is_gdn && layer.has_pool && same_layout(layer)
                        && layer.commit_supported
                }) by {
                    assert(takes_back(layers[l]));
                }
            }
        }
        assert(no_transitions(layers) <==> !(exists|l: int|
            0 <= l < layers.len() && (#[trigger] layers[l]).transition));
        if layers.len() > 0 && all_transitions(layers) {
            assert(layers[0].transition);
        }
    }
}

/// How many of the first `n` rows were not accepted whole.
pub open spec fn rejections(rows: Seq<SpeculativeCommitRow>, n: int) -> nat
    decreases n,
{
    if n <= 0 {
        0
    } else if rows[n - 1].accepted_all {
        rejections(rows, n - 1)
    } else {
        rejections(rows, n - 1) + 1
    }
}

/// What is replayed after a rejection are the rows that were not accepted whole, each
/// with its place and what it keeps, in order. What is committed are all rows.
pub proof fn law_rejected_rows_are_replayed(rows: Seq<SpeculativeCommitRow>, n: int)
    requires
        0 <= n <= rows.len(),
    ensures
        rejected_pairs(rows, n).len() == rejections(rows, n),
        forall|i: int|
            0 <= i < n && !(#[trigger] rows[i]).accepted_all ==> rejections(rows, i) < rejections(
                rows,
                n,
            ) && rejected_pairs(rows, n)[rejections(rows, i) as int].0 == rows[i].batch_idx
                && rejected_pairs(rows, n)[rejections(rows, i) as int].1 == rows[i].keep_rows,
        commit_pairs(rows).len() == rows.len(),
        forall|i: int|
            0 <= i < rows.len() ==> (#[trigger] commit_pairs(rows)[i]).0 == rows[i].batch_idx
                && commit_pairs(rows)[i].1 == rows[i].keep_rows,
    decreases n,
{
    if n > 0 {
        law_rejected_rows_are_replayed(rows, n - 1);
    }
}

/// A commit goes one way: with a log its transitions are published, without one its
/// checkpoints are taken where they are supported, and what neither does is replayed.
/// Published transitions and taken checkpoints leave nothing to replay.
pub proof fn law_commits_go_one_way(
    step: CommitStep,
    rows: Seq<SpeculativeCommitRow>,
    uses_log: bool,
    checkpoints_supported: bool,
)
    requires
        begins_commit(step, rows, uses_log, checkpoints_supported),
    ensures
        step is Stage <==> uses_log,
        step is Checkpoint <==> !uses_log && checkpoints_supported,
        step is Replay <==> !uses_log && !checkpoints_supported,
{
}

/// A commit that failed to publish replays every row, in order, and one that failed to take
/// checkpoints, or has none, replays those that were not accepted whole.
pub proof fn law_commits_fall_back(
    step: CommitStep,
    rows: Seq<SpeculativeCommitRow>,
    done: bool,
    i: int,
)
    requires
        0 <= i < rows.len(),
    ensures
        follows_stage(step, rows, done) ==> (step is Clear <==> done),
        follows_checkpoint(step, rows, done) ==> (step is Clear <==> done),
        follows_stage(step, rows, done) && !done ==> {
            &&& step is Replay
            &&& step->Replay_0@.len() == rows.len()
            &&& step->Replay_0@[i] == (rows[i].batch_idx, rows[i].keep_rows)
        },
        follows_checkpoint(step, rows, done) && !done ==> {
            &&& step is Replay
            &&& !rows[i].accepted_all ==> step->Replay_0@.contains(
                (rows[i].batch_idx, rows[i].keep_rows),
            )
        },
{
    if !rows[i].accepted_all {
        lemma_rejected_is_listed(rows, rows.len() as int, i);
    }
}

proof fn lemma_rejected_is_listed(rows: Seq<SpeculativeCommitRow>, n: int, i: int)
    requires
        0 <= i < n <= rows.len(),
        !rows[i].accepted_all,
    ensures
        rejected_pairs(rows, n).contains((rows[i].batch_idx, rows[i].keep_rows)),
    decreases n,
{
    let list = rejected_pairs(rows, n);
    if i == n - 1 {
        assert(list[list.len() - 1] == (rows[i].batch_idx, rows[i].keep_rows));
    } else {
        lemma_rejected_is_listed(rows, n - 1, i);
        let before = rejected_pairs(rows, n - 1);
        let k = choose|k: int|
            0 <= k < before.len() && before[k] == (rows[i].batch_idx, rows[i].keep_rows);
        assert(list[k] == before[k]);
    }
}

} // verus!
