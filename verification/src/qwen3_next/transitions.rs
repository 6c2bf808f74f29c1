//! When pending transitions are applied and deferred states are flushed, and in
//! what steps.
use vstd::prelude::*;

use crate::arith::{ceil_div, divide_up, law_ceil_div};
use crate::qwen3_next::recurrent::{
    all_can_apply, apply_groups, group_views, law_groups_are_given, law_groups_cover_layers,
    pending_apply_groups, GdnLayerFacts, GdnPendingApplyGroup, GroupView,
};
use crate::qwen3_next::slots::{is_live, live_slots};
use crate::text::{outcome, Fault};

verus! {

/// The most layers that one launch applies.
pub const GDN_PENDING_APPLY_MAX_LAYERS: usize = 32;

// Chunks.

pub open spec fn chunk_end(len: nat, k: int) -> int {
    if (k + 1) * 32 < len {
        (k + 1) * 32
    } else {
        len as int
    }
}

/// A list cut into chunks of 32, the last of which may be shorter.
pub open spec fn chunks(list: Seq<usize>) -> Seq<Seq<usize>> {
    Seq::new(ceil_div(list.len(), 32), |k: int| list.subrange(k * 32, chunk_end(list.len(), k)))
}

pub open spec fn lists(chunks: Seq<Vec<usize>>) -> Seq<Seq<usize>> {
    chunks.map_values(|chunk: Vec<usize>| chunk@)
}

/// Cuts the layers of a group into launches.
pub fn layer_chunks(layers: &Vec<usize>) -> (cut: Vec<Vec<usize>>)
    ensures
        lists(cut@) == chunks(layers@),
{
    let len: usize = layers.len();
    let count: usize = divide_up(len, GDN_PENDING_APPLY_MAX_LAYERS);
    proof {
        law_ceil_div(len as nat, 32);
    }
    let mut cut: Vec<Vec<usize>> = Vec::new();
    let mut k: usize = 0;
    let mut i: usize = 0;
    while k < count
        invariant
            k <= count,
            len == layers@.len(),
            count == ceil_div(len as nat, 32),
            len <= count * 32 < len + 32,
            i == if k * 32 < len {
                k * 32
            } else {
                len as int
            },
            cut@.len() == k,
            forall|j: int|
                0 <= j < k ==> (#[trigger] cut@[j])@ == layers@.subrange(
                    j * 32,
                    chunk_end(len as nat, j),
                ),
        decreases count - k,
    {
        let ghost start = i as int;
        let mut chunk: Vec<usize> = Vec::new();
        while i < len && chunk.len() < GDN_PENDING_APPLY_MAX_LAYERS
            invariant
                0 <= start <= i <= len,
                len == layers@.len(),
                chunk@ == layers@.subrange(start, i as int),
                chunk@.len() == i - start,
                i - start <= 32,
            decreases len - i,
        {
            chunk.push(layers[i]);
            i = i + 1;
            assert(chunk@ =~= layers@.subrange(start, i as int));
        }
        assert(chunk@.len() == i - start);
        assert(i == chunk_end(len as nat, k as int));
        cut.push(chunk);
        k = k + 1;
    }
    assert(lists(cut@) =~= chunks(layers@));
    cut
}

/// The chunks hold the list in order and nothing else: entry `i` is in chunk
/// `i / 32`, and no chunk is empty or longer than 32.
pub proof fn law_chunks_hold_the_list(list: Seq<usize>)
    ensures
        forall|i: int|
            0 <= i < list.len() ==> {
                &&& 0 <= i / 32 < chunks(list).len()
                &&& chunks(list)[i / 32][i % 32] == #[trigger] list[i]
            },
        forall|k: int| 0 <= k < chunks(list).len() ==> 0 < (#[trigger] chunks(list)[k]).len() <= 32,
{
    law_ceil_div(list.len(), 32);
    assert forall|i: int| 0 <= i < list.len() implies {
        &&& 0 <= i / 32 < chunks(list).len()
        &&& chunks(list)[i / 32][i % 32] == #[trigger] list[i]
    } by {
        let k = i / 32;
        assert(chunks(list)[k] == list.subrange(k * 32, chunk_end(list.len(), k)));
    }
}

// Applying pending transitions.

/// The launches of one group.
#[derive(Debug)]
pub struct ApplyLaunch {
    pub group: GdnPendingApplyGroup,
    pub chunks: Vec<Vec<usize>>,
}

pub open spec fn launches_match(launches: Seq<ApplyLaunch>, groups: Seq<GroupView>) -> bool {
    &&& launches.len() == groups.len()
    &&& forall|g: int|
        0 <= g < launches.len() ==> (#[trigger] launches[g]).group@ == groups[g] && lists(
            launches[g].chunks@,
        ) == chunks(groups[g].layers)
}

/// What it takes to apply pending transitions.
#[derive(Debug)]
pub enum ApplyPlan {
    /// There is nothing to apply, and that is well.
    Nothing,
    /// They cannot be applied.
    Unavailable,
    Launch(Vec<ApplyLaunch>),
}

/// Whether transitions can be applied in groups.
pub open spec fn can_launch(layers: Seq<GdnLayerFacts>) -> bool {
    match apply_groups(layers, layers.len() as int) {
        Some(groups) => groups.len() > 0,
        None => false,
    }
}

pub open spec fn apply_plan_is(
    plan: ApplyPlan,
    active_slots: nat,
    uses_log: bool,
    layers: Seq<GdnLayerFacts>,
) -> bool {
    if active_slots == 0 {
        plan is Nothing
    } else if !uses_log || !can_launch(layers) {
        plan is Unavailable
    } else {
        plan matches ApplyPlan::Launch(launches) && launches_match(
            launches@,
            apply_groups(layers, layers.len() as int)->0,
        )
    }
}

fn launch_group(group: GdnPendingApplyGroup) -> (launch: ApplyLaunch)
    ensures
        launch.group == group,
        lists(launch.chunks@) == chunks(group.layers@),
{
    let cut: Vec<Vec<usize>> = layer_chunks(&group.layers);
    ApplyLaunch { group, chunks: cut }
}

fn launch_groups(groups: Vec<GdnPendingApplyGroup>) -> (launches: Vec<ApplyLaunch>)
    ensures
        launches_match(launches@, group_views(groups@)),
{
    let ghost views = group_views(groups@);
    let mut rest: Vec<GdnPendingApplyGroup> = groups;
    let mut launches: Vec<ApplyLaunch> = Vec::new();
    let ghost mut taken: int = 0;
    while rest.len() > 0
        invariant
            0 <= taken <= views.len(),
            rest@.len() == views.len() - taken,
            group_views(rest@) == views.skip(taken),
            launches@.len() == taken,
            forall|g: int|
                0 <= g < taken ==> (#[trigger] launches@[g]).group@ == views[g] && lists(
                    launches@[g].chunks@,
                ) == chunks(views[g].layers),
        decreases rest@.len(),
    {
        let ghost before = rest@;
        assert(group_views(before)[0] == before[0]@);
        let group: GdnPendingApplyGroup = rest.remove(0);
        assert(group@ == views.skip(taken)[0]);
        launches.push(launch_group(group));
        proof {
            assert forall|k: int| 0 <= k < rest@.len() implies #[trigger] group_views(rest@)[k]
                == views.skip(taken + 1)[k] by {
                assert(rest@[k] == before[k + 1]);
                assert(group_views(before)[k + 1] == views.skip(taken)[k + 1]);
            }
            assert(group_views(rest@) =~= views.skip(taken + 1));
            taken = taken + 1;
        }
    }
    assert(group_views(rest@).len() == 0);
    launches
}

/// The launches that apply the pending transitions of `active_slots` slots.
pub fn apply_pending_recurrent_transitions(
    active_slots: usize,
    uses_log: bool,
    layers: &[GdnLayerFacts],
) -> (plan: ApplyPlan)
    ensures
        apply_plan_is(plan, active_slots as nat, uses_log, layers@),
{
    if active_slots == 0 {
        return ApplyPlan::Nothing;
    }
    if !uses_log {
        return ApplyPlan::Unavailable;
    }
    match pending_apply_groups(layers) {
        Some(groups) => ApplyPlan::Launch(launch_groups(groups)),
        None => ApplyPlan::Unavailable,
    }
}

/// The slots to apply pending transitions for, and the launches that do it.
#[derive(Debug)]
pub struct SlotApply {
    pub slots: Vec<u32>,
    pub plan: ApplyPlan,
}

/// The launches that apply the pending transitions of the listed slots, but for
/// the padding.
pub fn apply_pending_recurrent_transitions_with_cache(
    slots: &[u32],
    pad: u32,
    uses_log: bool,
    layers: &[GdnLayerFacts],
) -> (apply: SlotApply)
    ensures
        is_live(apply.slots@, slots@, pad),
        apply_plan_is(apply.plan, apply.slots@.len(), uses_log, layers@),
{
    let live: Vec<u32> = live_slots(slots, pad);
    let plan: ApplyPlan = apply_pending_recurrent_transitions(live.len(), uses_log, layers);
    SlotApply { slots: live, plan }
}

/// Checks that the slots of the current batch are on the device of a group.
pub fn device_slots_check(has_device_slots: bool) -> (r: Result<(), Fault>)
    ensures
        outcome(r) == if has_device_slots {
            Ok::<(), Seq<char>>(())
        } else {
            Err("GDN transition batch has no device-local state slots"@)
        },
{
    if has_device_slots {
        Ok(())
    } else {
        Err(Fault::of("GDN transition batch has no device-local state slots"))
    }
}

// Flushing deferred states.

/// How the layers that can be flushed come to an end.
#[derive(Clone, Copy, Debug, PartialEq, Eq, Structural)]
pub enum FlushEnd {
    /// All recurrent layers are flushed.
    Done,
    /// The next one has no pool of states.
    MissingPool,
    /// The slots of the batch are not on the device of the next one.
    MissingSlots,
}

/// The layers to flush, in order, and what comes after them.
#[derive(Debug)]
pub struct FlushSteps {
    /// The slots to flush; those of the current batch where none are listed.
    pub slots: Option<Vec<u32>>,
    pub layers: Vec<usize>,
    pub end: FlushEnd,
}

#[derive(Debug)]
pub enum FlushPlan {
    /// No deferred states are kept.
    Unavailable,
    /// There is nothing to flush, and that is well.
    Nothing,
    Flush(FlushSteps),
}

/// How the first `n` layers end the flush, if they do.
pub open spec fn flush_end(layers: Seq<GdnLayerFacts>, listed: bool, n: int) -> FlushEnd
    decreases n,
{
    if n <= 0 {
        FlushEnd::Done
    } else {
        let layer = layers[n - 1];
        match flush_end(layers, listed, n - 1) {
            FlushEnd::Done => if !layer.linear {
                FlushEnd::Done
            } else if !layer.has_pool {
                FlushEnd::MissingPool
            } else if !listed && !layer.has_device_slots {
                FlushEnd::MissingSlots
            } else {
                FlushEnd::Done
            },
            end => end,
        }
    }
}

/// The layers among the first `n` that are flushed, up to the end.
pub open spec fn flushed_layers(layers: Seq<GdnLayerFacts>, listed: bool, n: int) -> Seq<usize>
    decreases n,
{
    if n <= 0 {
        Seq::empty()
    } else {
        let before = flushed_layers(layers, listed, n - 1);
        if layers[n - 1].linear && flush_end(layers, listed, n) == FlushEnd::Done {
            before.push((n - 1) as usize)
        } else {
            before
        }
    }
}

proof fn lemma_flush_ends(layers: Seq<GdnLayerFacts>, listed: bool, m: int, n: int)
    requires
        0 <= m <= n,
        flush_end(layers, listed, m) != FlushEnd::Done,
    ensures
        flush_end(layers, listed, n) == flush_end(layers, listed, m),
        flushed_layers(layers, listed, n) == flushed_layers(layers, listed, m),
    decreases n,
{
    if m < n {
        lemma_flush_ends(layers, listed, m, n - 1);
    }
}

/// Whether a list of slots holds nothing but padding.
pub open spec fn all_padding(slots: Seq<u32>, pad: u32) -> bool {
    forall|i: int| 0 <= i < slots.len() ==> #[trigger] slots[i] == pad
}

pub open spec fn flush_plan_is(
    plan: FlushPlan,
    uses_deferred: bool,
    slots: Option<Seq<u32>>,
    pad: u32,
    layers: Seq<GdnLayerFacts>,
) -> bool {
    let n = layers.len() as int;
    if !uses_deferred {
        plan is Unavailable
    } else if slots matches Some(slots) && all_padding(slots, pad) {
        plan is Nothing
    } else {
        plan matches FlushPlan::Flush(steps) && {
            &&& steps.layers@ == flushed_layers(layers, slots is Some, n)
            &&& steps.end == flush_end(layers, slots is Some, n)
            &&& match (steps.slots, slots) {
                (Some(live), Some(slots)) => is_live(live@, slots, pad),
                (None, None) => true,
                _ => false,
            }
        }
    }
}

pub open spec fn slot_seq(slots: Option<&[u32]>) -> Option<Seq<u32>> {
    match slots {
        Some(slots) => Some(slots@),
        None => None,
    }
}

/// The layers whose deferred states are flushed: for the listed slots but for
/// the padding, or for those of the current batch where none are listed.
pub fn flush_deferred_recurrent_state(
    uses_deferred: bool,
    slots: Option<&[u32]>,
    pad: u32,
    layers: &[GdnLayerFacts],
) -> (plan: FlushPlan)
    ensures
        flush_plan_is(plan, uses_deferred, slot_seq(slots), pad, layers@),
{
    if !uses_deferred {
        return FlushPlan::Unavailable;
    }
    let live: Option<Vec<u32>> = match slots {
        Some(slots) => {
            let live: Vec<u32> = live_slots(slots, pad);
            if live.len() == 0 {
                assert forall|i: int| 0 <= i < slots@.len() implies #[trigger] slots@[i] == pad by {
                    assert(slots@.contains(slots@[i]));
                    assert(!live@.contains(slots@[i]));
                }
                return FlushPlan::Nothing;
            }
            proof {
                assert(live@.contains(live@[0]));
                let i = choose|i: int| 0 <= i < slots@.len() && slots@[i] == live@[0];
                assert(slots@[i] != pad);
                assert(!all_padding(slots@, pad));
            }
            Some(live)
        },
        None => None,
    };
    let listed: bool = live.is_some();
    let ghost total = layers@.len() as int;
    let mut order: Vec<usize> = Vec::new();
    let mut i: usize = 0;
    while i < layers.len()
        invariant
            i <= layers@.len(),
            total == layers@.len(),
            uses_deferred,
            listed == slots is Some,
            listed == live is Some,
            match (live, slot_seq(slots)) {
                (Some(live), Some(slots)) => is_live(live@, slots, pad),
                (None, None) => true,
                _ => false,
            },
            slot_seq(slots) matches Some(s) ==> !all_padding(s, pad),
            flush_end(layers@, listed, i as int) == FlushEnd::Done,
            order@ == flushed_layers(layers@, listed, i as int),
        decreases layers@.len() - i,
    {
        let layer: GdnLayerFacts = layers[i];
        if layer.linear {
            if !layer.has_pool {
                proof {
                    lemma_flush_ends(layers@, listed, i + 1, total);
                }
                return FlushPlan::Flush(
                    FlushSteps { slots: live, layers: order, end: FlushEnd::MissingPool },
                );
            }
            if !listed && !layer.has_device_slots {
                proof {
                    lemma_flush_ends(layers@, listed, i + 1, total);
                }
                return FlushPlan::Flush(
                    FlushSteps { slots: live, layers: order, end: FlushEnd::MissingSlots },
                );
            }
            order.push(i);
        }
        i = i + 1;
    }
    FlushPlan::Flush(FlushSteps { slots: live, layers: order, end: FlushEnd::Done })
}

/// What a flush answers.
pub open spec fn flush_answer(count: usize, all_flushed: bool, end: FlushEnd) -> Result<
    bool,
    Seq<char>,
> {
    if !all_flushed {
        Ok(false)
    } else {
        match end {
            FlushEnd::Done => Ok(count > 0),
            FlushEnd::MissingPool => Ok(false),
            FlushEnd::MissingSlots => Err(
                "GDN deferred-state flush has no device-local state slots"@,
            ),
        }
    }
}

/// What a flush answers once its layers were tried. `count` is their number, and
/// `all_flushed` says whether each was flushed.
pub fn deferred_flush_answer(count: usize, all_flushed: bool, end: FlushEnd) -> (answer: Result<
    bool,
    Fault,
>)
    ensures
        outcome(answer) == if !all_flushed {
            Ok::<bool, Seq<char>>(false)
        } else {
            match end {
                FlushEnd::Done => Ok(count > 0),
                FlushEnd::MissingPool => Ok(false),
                FlushEnd::MissingSlots => Err(
                    "GDN deferred-state flush has no device-local state slots"@,
                ),
            }
        },
        outcome(answer) == flush_answer(count, all_flushed, end),
{
    if !all_flushed {
        return Ok(false);
    }
    match end {
        FlushEnd::Done => Ok(count > 0),
        FlushEnd::MissingPool => Ok(false),
        FlushEnd::MissingSlots => Err(
            Fault::of("GDN deferred-state flush has no device-local state slots"),
        ),
    }
}

/// What a flush of all recurrent state answers.
pub open spec fn flush_all_answer(
    has_slots: bool,
    uses_log: bool,
    applied: bool,
    uses_deferred: bool,
    flushed: bool,
) -> Result<(), Seq<char>> {
    if has_slots && uses_log && !applied {
        Err("Qwen3Next pending recurrent transitions cannot be applied"@)
    } else if has_slots && uses_deferred && !flushed {
        Err("Qwen3Next deferred recurrent state cannot be materialized"@)
    } else {
        Ok(())
    }
}

/// What a flush of all recurrent state answers: `applied` and `flushed` say how
/// the pending transitions and the deferred states fared. Without slots there
/// was nothing to do.
pub fn flush_recurrent_state_answer(
    has_slots: bool,
    uses_log: bool,
    applied: bool,
    uses_deferred: bool,
    flushed: bool,
) -> (r: Result<(), Fault>)
    ensures
        outcome(r) == if has_slots && uses_log && !applied {
            Err::<(), Seq<char>>("Qwen3Next pending recurrent transitions cannot be applied"@)
        } else if has_slots && uses_deferred && !flushed {
            Err("Qwen3Next deferred recurrent state cannot be materialized"@)
        } else {
            Ok(())
        },
        outcome(r) == flush_all_answer(has_slots, uses_log, applied, uses_deferred, flushed),
{
    if has_slots && uses_log && !applied {
        return Err(Fault::of("Qwen3Next pending recurrent transitions cannot be applied"));
    }
    if has_slots && uses_deferred && !flushed {
        return Err(Fault::of("Qwen3Next deferred recurrent state cannot be materialized"));
    }
    Ok(())
}

/// Whether a launch holds a layer: it is for the device and the sizes of the layer, and
/// one of its chunks lists it.
pub open spec fn launch_holds(
    launch: ApplyLaunch,
    layers: Seq<GdnLayerFacts>,
    i: int,
) -> bool {
    &&& launch.group.device == layers[i].device
    &&& launch.group.config == layers[i].config
    &&& exists|c: int| 0 <= c < launch.chunks@.len() && (#[trigger] launch.chunks@[c])@.contains(i as usize)
}

/// Nothing is applied where no slot is active. Else, where a log is kept, there is a
/// linear layer, and the transitions of every linear layer can be applied, each of them
/// is applied on its device; and in any other case none can be.
pub proof fn law_plans_apply_transitions(
    plan: ApplyPlan,
    active_slots: nat,
    uses_log: bool,
    layers: Seq<GdnLayerFacts>,
)
    requires
        layers.len() <= usize::MAX,
        apply_plan_is(plan, active_slots, uses_log, layers),
    ensures
        plan is Nothing <==> active_slots == 0,
        plan is Launch <==> active_slots > 0 && uses_log && all_can_apply(
            layers,
            layers.len() as int,
        ) && exists|i: int| 0 <= i < layers.len() && (#[trigger] layers[i]).linear,
        plan matches ApplyPlan::Launch(launches) ==> forall|i: int|
            0 <= i < layers.len() && (#[trigger] layers[i]).linear ==> exists|g: int|
                0 <= g < launches@.len() && launch_holds(#[trigger] launches@[g], layers, i),
{
    let n = layers.len() as int;
    law_groups_are_given(layers, n);
    if plan is Launch {
        let launches = plan->Launch_0@;
        law_groups_cover_layers(layers, n);
        let groups = apply_groups(layers, n)->0;
        assert forall|i: int| 0 <= i < n && (#[trigger] layers[i]).linear implies exists|g: int|
            0 <= g < launches.len() && launch_holds(#[trigger] launches[g], layers, i) by {
            let g = choose|g: int|
                0 <= g < groups.len() && (#[trigger] groups[g]).layers.contains(i as usize);
            let list = groups[g].layers;
            let p = choose|p: int| 0 <= p < list.len() && list[p] == i as usize;
            assert(groups[g].layers[p] == i as usize);
            law_chunks_hold_the_list(list);
            assert(launches[g].group@ == groups[g]);
            assert(list[p] == i as usize);
            let c = p / 32;
            assert(chunks(list)[c][p % 32] == list[p]);
            assert(lists(launches[g].chunks@)[c] == chunks(list)[c]);
            assert(chunks(list)[c].len() > p % 32) by {
                law_ceil_div(list.len(), 32);
            }
            assert(launches[g].chunks@[c]@[p % 32] == i as usize);
            assert(launches[g].chunks@[c]@.contains(i as usize));
            assert(launch_holds(launches[g], layers, i));
        }
    }
}

/// Whether a layer can be flushed: it has a pool, and its slots are known, because they
/// are listed or because those of the batch are on its device.
pub open spec fn can_flush(layer: GdnLayerFacts, listed: bool) -> bool {
    layer.has_pool && (listed || layer.has_device_slots)
}

/// The linear layers in front of the first that cannot be flushed are, in order.
pub proof fn law_layers_are_flushed(layers: Seq<GdnLayerFacts>, listed: bool, n: int)
    requires
        0 <= n <= layers.len() <= usize::MAX,
    ensures
        flush_end(layers, listed, n) == FlushEnd::Done <==> forall|i: int|
            0 <= i < n && (#[trigger] layers[i]).linear ==> can_flush(layers[i], listed),
        forall|k: int|
            0 <= k < flushed_layers(layers, listed, n).len() ==> {
                let i = #[trigger] flushed_layers(layers, listed, n)[k];
                &&& i < n
                &&& layers[i as int].linear
                &&& flush_end(layers, listed, i + 1) == FlushEnd::Done
            },
        forall|i: int|
            0 <= i < n && (#[trigger] layers[i]).linear && flush_end(layers, listed, i + 1)
                == FlushEnd::Done ==> flushed_layers(layers, listed, n).contains(i as usize),
        forall|j: int, k: int|
            0 <= j < k < flushed_layers(layers, listed, n).len() ==> #[trigger] flushed_layers(
                layers,
                listed,
                n,
            )[j] < #[trigger] flushed_layers(layers, listed, n)[k],
    decreases n,
{
    if n > 0 {
        law_layers_are_flushed(layers, listed, n - 1);
        let before = flushed_layers(layers, listed, n - 1);
        let after = flushed_layers(layers, listed, n);
        if flush_end(layers, listed, n) == FlushEnd::Done {
            assert forall|i: int| 0 <= i < n && (#[trigger] layers[i]).linear implies can_flush(
                layers[i],
                listed,
            ) by {
                if i == n - 1 {
                }
            }
        }
        assert forall|k: int| 0 <= k < after.len() implies {
            let i = #[trigger] after[k];
            &&& i < n
            &&& layers[i as int].linear
            &&& flush_end(layers, listed, i + 1) == FlushEnd::Done
        } by {
            if k < before.len() {
                assert(after[k] == before[k]);
            }
        }
        assert forall|i: int|
            0 <= i < n && (#[trigger] layers[i]).linear && flush_end(layers, listed, i + 1)
                == FlushEnd::Done implies after.contains(i as usize) by {
            if i == n - 1 {
                assert(after[before.len() as int] == i as usize);
            } else {
                let k = choose|k: int| 0 <= k < before.len() && before[k] == i as usize;
                assert(after[k] == i as usize);
            }
        }
        assert forall|j: int, k: int| 0 <= j < k < after.len() implies #[trigger] after[j]
            < #[trigger] after[k] by {
            assert(after[j] == before[j]);
            if k < before.len() {
                assert(after[k] == before[k]);
            }
        }
    }
}

/// The first linear layer that cannot be flushed tells why: its pool is missing, or else
/// its slots are.
pub proof fn law_first_missing_ends_the_flush(
    layers: Seq<GdnLayerFacts>,
    listed: bool,
    i: int,
    n: int,
)
    requires
        0 <= i < n <= layers.len() <= usize::MAX,
        layers[i].linear,
        !can_flush(layers[i], listed),
        forall|k: int|
            0 <= k < i && (#[trigger] layers[k]).linear ==> can_flush(layers[k], listed),
    ensures
        layers[i].has_pool ==> flush_end(layers, listed, n) == FlushEnd::MissingSlots,
        !layers[i].has_pool ==> flush_end(layers, listed, n) == FlushEnd::MissingPool,
        flushed_layers(layers, listed, n) == flushed_layers(layers, listed, i),
{
    law_layers_are_flushed(layers, listed, i);
    lemma_flush_ends(layers, listed, i + 1, n);
}

/// Where no deferred states are kept nothing can be flushed, where only padding is listed
/// nothing needs to be, and else the layers are flushed for each slot that is listed and
/// is no padding.
pub proof fn law_plans_flush_states(
    plan: FlushPlan,
    uses_deferred: bool,
    slots: Option<Seq<u32>>,
    pad: u32,
    layers: Seq<GdnLayerFacts>,
)
    requires
        flush_plan_is(plan, uses_deferred, slots, pad, layers),
    ensures
        plan is Unavailable <==> !uses_deferred,
        plan is Nothing <==> uses_deferred && slots is Some && forall|slot: u32| #[trigger]
            slots->0.contains(slot) ==> slot == pad,
        plan matches FlushPlan::Flush(steps) ==> {
            &&& steps.slots is Some <==> slots is Some
            &&& slots is Some ==> forall|slot: u32| #[trigger]
                steps.slots->0@.contains(slot) <==> slots->0.contains(slot) && slot != pad
            &&& steps.layers@ == flushed_layers(layers, slots is Some, layers.len() as int)
            &&& steps.end == flush_end(layers, slots is Some, layers.len() as int)
        },
{
    if slots is Some {
        let list = slots->0;
        if all_padding(list, pad) {
            assert forall|slot: u32| #[trigger] list.contains(slot) implies slot == pad by {
                let i = choose|i: int| 0 <= i < list.len() && list[i] == slot;
                assert(list[i] == pad);
            }
        }
        if forall|slot: u32| #[trigger] list.contains(slot) ==> slot == pad {
            assert forall|i: int| 0 <= i < list.len() implies #[trigger] list[i] == pad by {
                assert(list.contains(list[i]));
            }
        }
    }
}

/// A flush says that it is done exactly where there was a layer and each was flushed, and
/// fails exactly where all were up to one whose slots are missing.
pub proof fn law_flushes_are_answered(count: usize, all_flushed: bool, end: FlushEnd)
    ensures
        flush_answer(count, all_flushed, end) == Ok::<bool, Seq<char>>(true) <==> count > 0
            && all_flushed && end == FlushEnd::Done,
        flush_answer(count, all_flushed, end) is Err <==> all_flushed && end
            == FlushEnd::MissingSlots,
{
}

/// All recurrent state is flushed unless some slot has transitions that were not applied
/// or states that were not flushed, of those that are kept.
pub proof fn law_state_is_flushed(
    has_slots: bool,
    uses_log: bool,
    applied: bool,
    uses_deferred: bool,
    flushed: bool,
)
    ensures
        flush_all_answer(has_slots, uses_log, applied, uses_deferred, flushed) is Ok <==> {
            ||| !has_slots
            ||| (uses_log ==> applied) && (uses_deferred ==> flushed)
        },
{
}

} // verus!
