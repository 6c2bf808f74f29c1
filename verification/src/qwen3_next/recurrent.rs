//! The recurrent layers of a model: what they support, the storage they need,
//! and the order in which their pending transitions are applied.
use vstd::prelude::*;

use crate::qwen3_next::packed::{all_set, recurrent_checkpoint_devices_supported};

use crate::text::{outcome, Fault};

verus! {

/// The sizes with which a device commits the transitions of a layer.
#[derive(Clone, Copy, Debug, PartialEq, Eq, Structural)]
pub struct GdnTransitionCommitConfig {
    pub num_k_heads: usize,
    pub num_v_heads: usize,
    pub head_k_dim: usize,
    pub head_v_dim: usize,
    pub conv_dim: usize,
    pub conv_width: usize,
    pub tiled_v_heads: bool,
    /// A number that stands for the layout of the states.
    pub state_layout: usize,
}

/// What is known of a layer of the stack.
#[derive(Clone, Copy, Debug, PartialEq, Eq, Structural)]
pub struct GdnLayerFacts {
    /// Whether the layer is a linear-attention layer.
    pub linear: bool,
    /// Whether it was loaded as one and the cache holds a pool of states for it.
    pub has_pool: bool,
    pub transitions_supported: bool,
    pub checkpoints_supported: bool,
    pub deferred_supported: bool,
    /// Whether the pool has room for pending transitions.
    pub has_pending: bool,
    /// A number that stands for the sizes of its pending transitions.
    pub transition_spec: usize,
    /// A number that stands for the sizes of its deferred state.
    pub deferred_spec: usize,
    pub config: GdnTransitionCommitConfig,
    /// A number that stands for the device of the pool.
    pub device: usize,
    /// Whether the slots of the current batch are on that device.
    pub has_device_slots: bool,
}

// Support.

/// Whether every linear layer has a pool and a flag, and there is one.
pub open spec fn all_linear(layers: Seq<GdnLayerFacts>, flag: spec_fn(GdnLayerFacts) -> bool) -> bool {
    &&& exists|i: int| 0 <= i < layers.len() && (#[trigger] layers[i]).linear
    &&& forall|i: int|
        0 <= i < layers.len() && (#[trigger] layers[i]).linear ==> layers[i].has_pool && flag(
            layers[i],
        )
}

/// Whether devices can keep checkpoints of recurrent states.
pub open spec fn devices_keep_checkpoints(cuda_kernels: bool, is_cuda: Seq<bool>) -> bool {
    cuda_kernels && is_cuda.len() > 0 && all_set(is_cuda)
}

/// Whether the transitions of all recurrent layers can be logged.
pub open spec fn logs_transitions_of(
    cuda_kernels: bool,
    is_cuda: Seq<bool>,
    layers: Seq<GdnLayerFacts>,
) -> bool {
    devices_keep_checkpoints(cuda_kernels, is_cuda) && all_linear(
        layers,
        |layer: GdnLayerFacts| layer.transitions_supported,
    )
}

/// Whether checkpoints of all recurrent layers can be kept.
pub open spec fn keeps_checkpoints_of(
    cuda_kernels: bool,
    is_cuda: Seq<bool>,
    layers: Seq<GdnLayerFacts>,
) -> bool {
    devices_keep_checkpoints(cuda_kernels, is_cuda) && all_linear(
        layers,
        |layer: GdnLayerFacts| layer.checkpoints_supported,
    )
}

/// Whether a speculative step can log the transitions of all recurrent layers.
pub fn supports_recurrent_speculative_transitions(
    cuda_kernels: bool,
    is_cuda: &[bool],
    layers: &[GdnLayerFacts],
) -> (supported: bool)
    ensures
        supported == (devices_keep_checkpoints(cuda_kernels, is_cuda@) && all_linear(
            layers@,
            |layer: GdnLayerFacts| layer.transitions_supported,
        )),
        supported == logs_transitions_of(cuda_kernels, is_cuda@, layers@),
{
    if !recurrent_checkpoint_devices_supported(cuda_kernels, is_cuda) {
        return false;
    }
    let ghost flag = |layer: GdnLayerFacts| layer.transitions_supported;
    let mut found: bool = false;
    let mut i: usize = 0;
    while i < layers.len()
        invariant
            i <= layers@.len(),
            flag == |layer: GdnLayerFacts| layer.transitions_supported,
            found <==> exists|k: int| 0 <= k < i && (#[trigger] layers@[k]).linear,
            forall|k: int|
                0 <= k < i && (#[trigger] layers@[k]).linear ==> layers@[k].has_pool && flag(
                    layers@[k],
                ),
        decreases layers@.len() - i,
    {
        let layer: GdnLayerFacts = layers[i];
        if layer.linear {
            found = true;
            if !layer.has_pool || !layer.transitions_supported {
                return false;
            }
        }
        i = i + 1;
    }
    found
}

/// Whether a speculative step can keep checkpoints of all recurrent layers.
pub fn supports_recurrent_speculative_checkpoints(
    cuda_kernels: bool,
    is_cuda: &[bool],
    layers: &[GdnLayerFacts],
) -> (supported: bool)
    ensures
        supported == (devices_keep_checkpoints(cuda_kernels, is_cuda@) && all_linear(
            layers@,
            |layer: GdnLayerFacts| layer.checkpoints_supported,
        )),
        supported == keeps_checkpoints_of(cuda_kernels, is_cuda@, layers@),
{
    if !recurrent_checkpoint_devices_supported(cuda_kernels, is_cuda) {
        return false;
    }
    let ghost flag = |layer: GdnLayerFacts| layer.checkpoints_supported;
    let mut found: bool = false;
    let mut i: usize = 0;
    while i < layers.len()
        invariant
            i <= layers@.len(),
            flag == |layer: GdnLayerFacts| layer.checkpoints_supported,
            found <==> exists|k: int| 0 <= k < i && (#[trigger] layers@[k]).linear,
            forall|k: int|
                0 <= k < i && (#[trigger] layers@[k]).linear ==> layers@[k].has_pool && flag(
                    layers@[k],
                ),
        decreases layers@.len() - i,
    {
        let layer: GdnLayerFacts = layers[i];
        if layer.linear {
            found = true;
            if !layer.has_pool || !layer.checkpoints_supported {
                return false;
            }
        }
        i = i + 1;
    }
    found
}

// Storage.

/// What the layers so far ask for.
#[derive(Clone, Copy, Debug, PartialEq, Eq, Structural)]
pub enum StorageNeed {
    /// A layer does not support it.
    Unsupported,
    /// Room of the sizes that a number stands for, if there was a layer.
    Sizes(Option<usize>),
}

/// What one more layer makes of what was asked for so far. Layers of one model
/// must ask for the same sizes.
pub open spec fn storage_step(
    need: StorageNeed,
    layer: GdnLayerFacts,
    supported: bool,
    sizes: usize,
    diverge: Seq<char>,
) -> Result<StorageNeed, Seq<char>> {
    match need {
        StorageNeed::Unsupported => Ok(need),
        StorageNeed::Sizes(so_far) => if !layer.linear {
            Ok(need)
        } else if !layer.has_pool {
            Err("Qwen3Next GDN layer has no recurrent state pool"@)
        } else if !supported {
            Ok(StorageNeed::Unsupported)
        } else if so_far is Some && so_far->0 != sizes {
            Err(diverge)
        } else {
            Ok(StorageNeed::Sizes(Some(sizes)))
        },
    }
}

/// What the first `n` layers ask for. `deferred` says whether it is for deferred
/// states or for pending transitions.
pub open spec fn storage_need(layers: Seq<GdnLayerFacts>, deferred: bool, n: int) -> Result<
    StorageNeed,
    Seq<char>,
>
    decreases n,
{
    if n <= 0 {
        Ok(StorageNeed::Sizes(None))
    } else {
        let layer = layers[n - 1];
        match storage_need(layers, deferred, n - 1) {
            Err(message) => Err(message),
            Ok(need) => if deferred {
                storage_step(
                    need,
                    layer,
                    layer.deferred_supported,
                    layer.deferred_spec,
                    "Qwen3Next GDN deferred-state dimensions diverge across layers"@,
                )
            } else {
                storage_step(
                    need,
                    layer,
                    layer.transitions_supported,
                    layer.transition_spec,
                    "Qwen3Next GDN transition dimensions diverge across layers"@,
                )
            },
        }
    }
}

/// The sizes to reserve room for, if any.
pub open spec fn reserved_sizes(need: Result<StorageNeed, Seq<char>>) -> Result<
    Option<usize>,
    Seq<char>,
> {
    match need {
        Err(message) => Err(message),
        Ok(StorageNeed::Unsupported) => Ok(None),
        Ok(StorageNeed::Sizes(sizes)) => Ok(sizes),
    }
}

proof fn lemma_storage_settles(layers: Seq<GdnLayerFacts>, deferred: bool, m: int, n: int)
    requires
        0 <= m <= n,
        storage_need(layers, deferred, m) is Err || storage_need(layers, deferred, m) == Ok::<
            StorageNeed,
            Seq<char>,
        >(StorageNeed::Unsupported),
    ensures
        storage_need(layers, deferred, n) == storage_need(layers, deferred, m),
    decreases n,
{
    if m < n {
        lemma_storage_settles(layers, deferred, m, n - 1);
    }
}

fn storage_sizes(layers: &[GdnLayerFacts], deferred: bool) -> (sizes: Result<Option<usize>, Fault>)
    ensures
        outcome(sizes) == reserved_sizes(storage_need(layers@, deferred, layers@.len() as int)),
{
    let ghost total = layers@.len() as int;
    let mut so_far: Option<usize> = None;
    let mut i: usize = 0;
    while i < layers.len()
        invariant
            i <= layers@.len(),
            total == layers@.len(),
            storage_need(layers@, deferred, i as int) == Ok::<StorageNeed, Seq<char>>(
                StorageNeed::Sizes(so_far),
            ),
        decreases layers@.len() - i,
    {
        let layer: GdnLayerFacts = layers[i];
        let (supported, sizes): (bool, usize) = if deferred {
            (layer.deferred_supported, layer.deferred_spec)
        } else {
            (layer.transitions_supported, layer.transition_spec)
        };
        if layer.linear {
            if !layer.has_pool {
                proof {
                    lemma_storage_settles(layers@, deferred, i + 1, total);
                }
                return Err(Fault::of("Qwen3Next GDN layer has no recurrent state pool"));
            }
            if !supported {
                proof {
                    lemma_storage_settles(layers@, deferred, i + 1, total);
                }
                return Ok(None);
            }
            if let Some(other) = so_far {
                if other != sizes {
                    proof {
                        lemma_storage_settles(layers@, deferred, i + 1, total);
                    }
                    return Err(
                        if deferred {
                            Fault::of(
                                "Qwen3Next GDN deferred-state dimensions diverge across layers",
                            )
                        } else {
                            Fault::of("Qwen3Next GDN transition dimensions diverge across layers")
                        },
                    );
                }
            }
            so_far = Some(sizes);
        }
        i = i + 1;
    }
    Ok(so_far)
}

/// The room that is reserved for pending transitions.
pub open spec fn transition_room(uses_log: bool, layers: Seq<GdnLayerFacts>) -> Result<
    Option<usize>,
    Seq<char>,
> {
    if uses_log {
        reserved_sizes(storage_need(layers, false, layers.len() as int))
    } else {
        Ok(None)
    }
}

/// The room that is reserved for deferred states.
pub open spec fn deferred_room(has_proposer: bool, layers: Seq<GdnLayerFacts>) -> Result<
    Option<usize>,
    Seq<char>,
> {
    if has_proposer {
        Ok(None)
    } else {
        reserved_sizes(storage_need(layers, true, layers.len() as int))
    }
}

/// The sizes to reserve room for pending transitions with; none where no log is
/// kept, where a layer does not support one, or where no layer is recurrent.
pub fn reserve_recurrent_transition_storage(uses_log: bool, layers: &[GdnLayerFacts]) -> (sizes:
    Result<Option<usize>, Fault>)
    ensures
        outcome(sizes) == if uses_log {
            reserved_sizes(storage_need(layers@, false, layers@.len() as int))
        } else {
            Ok::<Option<usize>, Seq<char>>(None)
        },
        outcome(sizes) == transition_room(uses_log, layers@),
{
    if !uses_log {
        return Ok(None);
    }
    storage_sizes(layers, false)
}

/// The sizes to reserve room for deferred states with; none where drafts are
/// proposed, where a layer does not support them, or where no layer is
/// recurrent.
pub fn reserve_recurrent_decode_deferred_storage(has_proposer: bool, layers: &[GdnLayerFacts]) -> (sizes:
    Result<Option<usize>, Fault>)
    ensures
        outcome(sizes) == if has_proposer {
            Ok::<Option<usize>, Seq<char>>(None)
        } else {
            reserved_sizes(storage_need(layers@, true, layers@.len() as int))
        },
        outcome(sizes) == deferred_room(has_proposer, layers@),
{
    if has_proposer {
        return Ok(None);
    }
    storage_sizes(layers, true)
}

/// Where room is reserved, it has the sizes of every recurrent layer.
pub proof fn law_reserved_sizes_are_uniform(layers: Seq<GdnLayerFacts>, n: int, sizes: usize)
    requires
        0 <= n <= layers.len(),
        storage_need(layers, false, n) == Ok::<StorageNeed, Seq<char>>(
            StorageNeed::Sizes(Some(sizes)),
        ),
    ensures
        forall|i: int|
            0 <= i < n && (#[trigger] layers[i]).linear ==> layers[i].has_pool
                && layers[i].transitions_supported && layers[i].transition_spec == sizes,
    decreases n,
{
    if n > 0 {
        let layer = layers[n - 1];
        match storage_need(layers, false, n - 1) {
            Ok(StorageNeed::Sizes(Some(before))) => {
                law_reserved_sizes_are_uniform(layers, n - 1, before);
            },
            Ok(StorageNeed::Sizes(None)) => {
                lemma_no_sizes_no_layers(layers, n - 1);
            },
            _ => {},
        }
    }
}

proof fn lemma_no_sizes_no_layers(layers: Seq<GdnLayerFacts>, n: int)
    requires
        0 <= n <= layers.len(),
        storage_need(layers, false, n) == Ok::<StorageNeed, Seq<char>>(StorageNeed::Sizes(None)),
    ensures
        forall|i: int| 0 <= i < n ==> !(#[trigger] layers[i]).linear,
    decreases n,
{
    if n > 0 {
        lemma_no_sizes_no_layers(layers, n - 1);
    }
}

// Groups of layers that a device treats at once.

/// Layers whose pending transitions are applied together: they share sizes and
/// device.
#[derive(Debug)]
pub struct GdnPendingApplyGroup {
    pub device: usize,
    pub config: GdnTransitionCommitConfig,
    pub layers: Vec<usize>,
}

/// A group, with its layers as a sequence.
pub struct GroupView {
    pub device: usize,
    pub config: GdnTransitionCommitConfig,
    pub layers: Seq<usize>,
}

impl View for GdnPendingApplyGroup {
    type V = GroupView;

    open spec fn view(&self) -> GroupView {
        GroupView { device: self.device, config: self.config, layers: self.layers@ }
    }
}

pub open spec fn group_views(groups: Seq<GdnPendingApplyGroup>) -> Seq<GroupView> {
    groups.map_values(|group: GdnPendingApplyGroup| group@)
}

pub open spec fn group_fits(group: GroupView, layer: GdnLayerFacts) -> bool {
    group.config == layer.config && group.device == layer.device
}

/// Whether group `g` is the first that a layer fits.
pub open spec fn first_fit(groups: Seq<GroupView>, layer: GdnLayerFacts, g: int) -> bool {
    &&& 0 <= g < groups.len()
    &&& group_fits(groups[g], layer)
    &&& forall|k: int| 0 <= k < g ==> !group_fits(#[trigger] groups[k], layer)
}

/// The groups with layer `index` added to the first that it fits, or to a new
/// one at the end.
pub open spec fn with_layer(groups: Seq<GroupView>, layer: GdnLayerFacts, index: usize) -> Seq<
    GroupView,
> {
    if exists|g: int| first_fit(groups, layer, g) {
        let g = choose|g: int| first_fit(groups, layer, g);
        groups.update(
            g,
            GroupView {
                device: groups[g].device,
                config: groups[g].config,
                layers: groups[g].layers.push(index),
            },
        )
    } else {
        groups.push(
            GroupView { device: layer.device, config: layer.config, layers: seq![index] },
        )
    }
}

/// Whether the pending transitions of a layer can be applied.
pub open spec fn can_apply(layer: GdnLayerFacts) -> bool {
    layer.has_pool && layer.transitions_supported && layer.has_pending
}

/// The groups of the first `n` layers; `None` where the transitions of a linear
/// layer cannot be applied.
pub open spec fn apply_groups(layers: Seq<GdnLayerFacts>, n: int) -> Option<Seq<GroupView>>
    decreases n,
{
    if n <= 0 {
        Some(Seq::empty())
    } else {
        match apply_groups(layers, n - 1) {
            None => None,
            Some(groups) => if !layers[n - 1].linear {
                Some(groups)
            } else if !can_apply(layers[n - 1]) {
                None
            } else {
                Some(with_layer(groups, layers[n - 1], (n - 1) as usize))
            },
        }
    }
}

proof fn lemma_apply_groups_stay_none(layers: Seq<GdnLayerFacts>, m: int, n: int)
    requires
        0 <= m <= n,
        apply_groups(layers, m) is None,
    ensures
        apply_groups(layers, n) is None,
    decreases n,
{
    if m < n {
        lemma_apply_groups_stay_none(layers, m, n - 1);
    }
}

fn find_group(groups: &Vec<GdnPendingApplyGroup>, layer: &GdnLayerFacts) -> (found: Option<usize>)
    ensures
        match found {
            Some(g) => first_fit(group_views(groups@), *layer, g as int),
            None => forall|k: int|
                0 <= k < groups@.len() ==> !group_fits(
                    #[trigger] group_views(groups@)[k],
                    *layer,
                ),
        },
{
    let ghost views = group_views(groups@);
    let mut g: usize = 0;
    while g < groups.len()
        invariant
            g <= groups@.len(),
            views == group_views(groups@),
            forall|k: int| 0 <= k < g ==> !group_fits(#[trigger] views[k], *layer),
        decreases groups@.len() - g,
    {
        assert(views[g as int] == groups@[g as int]@);
        if groups[g].config == layer.config && groups[g].device == layer.device {
            return Some(g);
        }
        g = g + 1;
    }
    None
}

fn add_layer(groups: &mut Vec<GdnPendingApplyGroup>, layer: &GdnLayerFacts, index: usize)
    ensures
        group_views(final(groups)@) == with_layer(group_views(old(groups)@), *layer, index),
{
    let ghost before = group_views(groups@);
    match find_group(groups, layer) {
        Some(g) => {
            proof {
                let chosen = choose|k: int| first_fit(before, *layer, k);
                assert(first_fit(before, *layer, chosen));
                if chosen < g {
                    assert(!group_fits(before[chosen], *layer));
                } else if chosen > g {
                    assert(!group_fits(before[g as int], *layer));
                }
            }
            let old_group: GdnPendingApplyGroup = groups.remove(g);
            let mut members: Vec<usize> = old_group.layers;
            members.push(index);
            groups.insert(
                g,
                GdnPendingApplyGroup {
                    device: old_group.device,
                    config: old_group.config,
                    layers: members,
                },
            );
            assert(group_views(groups@) =~= with_layer(before, *layer, index));
        },
        None => {
            assert forall|g: int| !first_fit(before, *layer, g) by {
                if 0 <= g < before.len() {
                    assert(!group_fits(before[g], *layer));
                }
            }
            let mut members: Vec<usize> = Vec::new();
            members.push(index);
            assert(members@ =~= seq![index]);
            groups.push(
                GdnPendingApplyGroup {
                    device: layer.device,
                    config: layer.config,
                    layers: members,
                },
            );
            assert(group_views(groups@) =~= with_layer(before, *layer, index));
        },
    }
}

/// The groups in which pending transitions are applied; `None` where they cannot
/// be, or where no layer has any.
pub fn pending_apply_groups(layers: &[GdnLayerFacts]) -> (groups: Option<Vec<GdnPendingApplyGroup>>)
    ensures
        match groups {
            Some(groups) => groups@.len() > 0 && apply_groups(layers@, layers@.len() as int)
                == Some(group_views(groups@)),
            None => apply_groups(layers@, layers@.len() as int) is None || apply_groups(
                layers@,
                layers@.len() as int,
            ) == Some(Seq::<GroupView>::empty()),
        },
{
    let mut groups: Vec<GdnPendingApplyGroup> = Vec::new();
    let mut i: usize = 0;
    assert(group_views(groups@) =~= Seq::<GroupView>::empty());
    while i < layers.len()
        invariant
            i <= layers@.len(),
            apply_groups(layers@, i as int) == Some(group_views(groups@)),
        decreases layers@.len() - i,
    {
        let layer: GdnLayerFacts = layers[i];
        if layer.linear {
            if !layer.has_pool || !layer.transitions_supported || !layer.has_pending {
                proof {
                    lemma_apply_groups_stay_none(layers@, i + 1, layers@.len() as int);
                }
                return None;
            }
            add_layer(&mut groups, &layer, i);
        }
        i = i + 1;
    }
    if groups.len() == 0 {
        assert(group_views(groups@) =~= Seq::<GroupView>::empty());
        return None;
    }
    Some(groups)
}

/// Whether the groups hold exactly the linear layers below `n`, each in a group
/// that it fits, and no two groups fit the same layers.
pub open spec fn groups_cover(groups: Seq<GroupView>, layers: Seq<GdnLayerFacts>, n: int) -> bool {
    &&& forall|g: int, k: int|
        0 <= g < groups.len() && 0 <= k < groups[g].layers.len() ==> {
            let index = #[trigger] groups[g].layers[k];
            index < n && layers[index as int].linear && group_fits(groups[g], layers[index as int])
        }
    &&& forall|i: int|
        0 <= i < n && (#[trigger] layers[i]).linear ==> exists|g: int|
            0 <= g < groups.len() && (#[trigger] groups[g]).layers.contains(i as usize)
    &&& forall|g: int, h: int|
        0 <= g < h < groups.len() ==> (#[trigger] groups[g]).config != (
        #[trigger] groups[h]).config || groups[g].device != groups[h].device
}

/// The groups hold each linear layer once, with layers of its sizes and device,
/// and none is split.
pub proof fn law_groups_cover_layers(layers: Seq<GdnLayerFacts>, n: int)
    requires
        0 <= n <= layers.len() <= usize::MAX,
        apply_groups(layers, n) is Some,
    ensures
        groups_cover(apply_groups(layers, n)->0, layers, n),
    decreases n,
{
    if n > 0 {
        law_groups_cover_layers(layers, n - 1);
        let before = apply_groups(layers, n - 1)->0;
        let after = apply_groups(layers, n)->0;
        let layer = layers[n - 1];
        if layer.linear {
            if exists|g: int| first_fit(before, layer, g) {
                let g = choose|g: int| first_fit(before, layer, g);
                assert(first_fit(before, layer, g));
                assert forall|a: int, k: int|
                    0 <= a < after.len() && 0 <= k < after[a].layers.len() implies {
                    let index = #[trigger] after[a].layers[k];
                    index < n && layers[index as int].linear && group_fits(
                        after[a],
                        layers[index as int],
                    )
                } by {
                    if a != g || k < before[g].layers.len() {
                        assert(after[a].layers[k] == before[a].layers[k]);
                    }
                }
                assert forall|i: int| 0 <= i < n && (#[trigger] layers[i]).linear implies exists|a: int|
                    0 <= a < after.len() && (#[trigger] after[a]).layers.contains(i as usize) by {
                    if i == n - 1 {
                        let m = before[g].layers.len() as int;
                        assert(after[g].layers[m] == i as usize);
                        assert(after[g].layers.contains(i as usize));
                    } else {
                        let a = choose|a: int|
                            0 <= a < before.len() && (#[trigger] before[a]).layers.contains(
                                i as usize,
                            );
                        let k = choose|k: int|
                            0 <= k < before[a].layers.len() && before[a].layers[k] == i as usize;
                        assert(after[a].layers[k] == i as usize);
                        assert(after[a].layers.contains(i as usize));
                    }
                }
            } else {
                let last = before.len() as int;
                assert forall|a: int, k: int|
                    0 <= a < after.len() && 0 <= k < after[a].layers.len() implies {
                    let index = #[trigger] after[a].layers[k];
                    index < n && layers[index as int].linear && group_fits(
                        after[a],
                        layers[index as int],
                    )
                } by {
                    if a < last {
                        assert(after[a].layers[k] == before[a].layers[k]);
                    }
                }
                assert forall|i: int| 0 <= i < n && (#[trigger] layers[i]).linear implies exists|a: int|
                    0 <= a < after.len() && (#[trigger] after[a]).layers.contains(i as usize) by {
                    if i == n - 1 {
                        assert(after[last].layers[0] == i as usize);
                        assert(after[last].layers.contains(i as usize));
                    } else {
                        let a = choose|a: int|
                            0 <= a < before.len() && (#[trigger] before[a]).layers.contains(
                                i as usize,
                            );
                        assert(after[a] == before[a]);
                    }
                }
                assert forall|a: int, b: int| 0 <= a < b < after.len() implies (
                #[trigger] after[a]).config != (#[trigger] after[b]).config || after[a].device
                    != after[b].device by {
                    if b == last {
                        lemma_no_first_fit(before, layer, a);
                    }
                }
            }
        } else {
            assert(after == before);
            assert forall|i: int| 0 <= i < n && (#[trigger] layers[i]).linear implies exists|a: int|
                0 <= a < after.len() && (#[trigger] after[a]).layers.contains(i as usize) by {
                assert(i < n - 1);
            }
        }
    }
}

/// Where no group is the first fit, none fits.
proof fn lemma_no_first_fit(groups: Seq<GroupView>, layer: GdnLayerFacts, g: int)
    requires
        0 <= g < groups.len(),
        !(exists|k: int| first_fit(groups, layer, k)),
    ensures
        !group_fits(groups[g], layer),
    decreases g,
{
    if group_fits(groups[g], layer) {
        assert forall|k: int| 0 <= k < g implies !group_fits(#[trigger] groups[k], layer) by {
            lemma_no_first_fit(groups, layer, k);
        }
        assert(first_fit(groups, layer, g));
    }
}

/// Every device is a CUDA device, there is one, and there are kernels for it.
pub proof fn law_devices_keep_checkpoints(cuda_kernels: bool, is_cuda: Seq<bool>)
    ensures
        devices_keep_checkpoints(cuda_kernels, is_cuda) <==> cuda_kernels && is_cuda.len() > 0
            && !is_cuda.contains(false),
{
    if devices_keep_checkpoints(cuda_kernels, is_cuda) {
        if is_cuda.contains(false) {
            let i = choose|i: int| 0 <= i < is_cuda.len() && !is_cuda[i];
            assert(is_cuda[i]);
        }
    }
    if !is_cuda.contains(false) {
        assert forall|i: int| 0 <= i < is_cuda.len() implies #[trigger] is_cuda[i] by {
            if !is_cuda[i] {
                assert(is_cuda.contains(false));
            }
        }
    }
}

/// The linear layers support something together exactly where there is one and none of
/// them lacks a pool or the flag; other layers do not matter.
pub proof fn law_linear_layers_agree(
    layers: Seq<GdnLayerFacts>,
    flag: spec_fn(GdnLayerFacts) -> bool,
)
    ensures
        ({
            let linear = layers.filter(|layer: GdnLayerFacts| layer.linear);
            all_linear(layers, flag) <==> linear.len() > 0 && forall|k: int|
                0 <= k < linear.len() ==> (#[trigger] linear[k]).has_pool && flag(linear[k])
        }),
{
    let keep = |layer: GdnLayerFacts| layer.linear;
    let linear = layers.filter(keep);
    assert forall|i: int| 0 <= i < layers.len() && (
    #[trigger] layers[i]).linear implies linear.contains(layers[i]) by {
        assert(keep(layers[i]));
        layers.lemma_filter_contains(keep, i);
    }
    assert forall|k: int| 0 <= k < linear.len() implies layers.contains(#[trigger] linear[k])
        && linear[k].linear by {
        layers.lemma_filter_pred(keep, k);
        layers.lemma_filter_contains_rev(keep, linear[k]);
    }
    if all_linear(layers, flag) {
        let i = choose|i: int| 0 <= i < layers.len() && (#[trigger] layers[i]).linear;
        assert(linear.contains(layers[i]));
        assert forall|k: int| 0 <= k < linear.len() implies (#[trigger] linear[k]).has_pool && flag(
            linear[k],
        ) by {
            let j = choose|j: int| 0 <= j < layers.len() && layers[j] == linear[k];
            assert(layers[j].linear);
        }
    }
    if linear.len() > 0 && forall|k: int|
        0 <= k < linear.len() ==> (#[trigger] linear[k]).has_pool && flag(linear[k]) {
        let j = choose|j: int| 0 <= j < layers.len() && layers[j] == linear[0];
        assert(layers[j].linear);
        assert forall|i: int| 0 <= i < layers.len() && (
        #[trigger] layers[i]).linear implies layers[i].has_pool && flag(layers[i]) by {
            let k = choose|k: int| 0 <= k < linear.len() && linear[k] == layers[i];
            assert(linear[k].has_pool);
        }
    }
}

/// Whether a layer supports what room is reserved for.
pub open spec fn supports(layer: GdnLayerFacts, deferred: bool) -> bool {
    if deferred {
        layer.deferred_supported
    } else {
        layer.transitions_supported
    }
}

/// The sizes that a layer asks for.
pub open spec fn asks_for(layer: GdnLayerFacts, deferred: bool) -> usize {
    if deferred {
        layer.deferred_spec
    } else {
        layer.transition_spec
    }
}

/// Whether the linear layers below `n` have pools, support what room is reserved for, and
/// ask for the given sizes.
pub open spec fn all_ask_for(
    layers: Seq<GdnLayerFacts>,
    deferred: bool,
    n: int,
    sizes: usize,
) -> bool {
    forall|i: int|
        0 <= i < n && (#[trigger] layers[i]).linear ==> layers[i].has_pool && supports(
            layers[i],
            deferred,
        ) && asks_for(layers[i], deferred) == sizes
}

/// As long as the linear layers ask for the same, what they ask for is reserved, and
/// nothing where there is none.
pub proof fn law_room_is_reserved(
    layers: Seq<GdnLayerFacts>,
    deferred: bool,
    n: int,
    sizes: usize,
)
    requires
        0 <= n <= layers.len(),
        all_ask_for(layers, deferred, n, sizes),
    ensures
        reserved_sizes(storage_need(layers, deferred, n)) == Ok::<Option<usize>, Seq<char>>(
            if exists|i: int| 0 <= i < n && (#[trigger] layers[i]).linear {
                Some(sizes)
            } else {
                None
            },
        ),
        storage_need(layers, deferred, n) matches Ok(StorageNeed::Sizes(_)),
    decreases n,
{
    if n > 0 {
        law_room_is_reserved(layers, deferred, n - 1, sizes);
        if exists|i: int| 0 <= i < n - 1 && (#[trigger] layers[i]).linear {
            let i = choose|i: int| 0 <= i < n - 1 && (#[trigger] layers[i]).linear;
            assert(0 <= i < n && layers[i].linear);
        } else if exists|i: int| 0 <= i < n && (#[trigger] layers[i]).linear {
            assert(layers[n - 1].linear);
        }
    }
}

/// The first linear layer that differs settles the matter: without a pool the model is
/// refused, without support nothing is reserved, and with other sizes than those before
/// it is refused.
pub proof fn law_odd_layers_settle_room(
    layers: Seq<GdnLayerFacts>,
    deferred: bool,
    i: int,
    n: int,
    sizes: usize,
)
    requires
        0 <= i < n <= layers.len(),
        all_ask_for(layers, deferred, i, sizes),
        layers[i].linear,
    ensures
        ({
            let reserved = reserved_sizes(storage_need(layers, deferred, n));
            let before = exists|k: int| 0 <= k < i && (#[trigger] layers[k]).linear;
            &&& !layers[i].has_pool ==> reserved == Err::<Option<usize>, Seq<char>>(
                "Qwen3Next GDN layer has no recurrent state pool"@,
            )
            &&& layers[i].has_pool && !supports(layers[i], deferred) ==> reserved == Ok::<
                Option<usize>,
                Seq<char>,
            >(None)
            &&& layers[i].has_pool && supports(layers[i], deferred) && before && asks_for(
                layers[i],
                deferred,
            ) != sizes ==> reserved is Err
        }),
{
    law_room_is_reserved(layers, deferred, i, sizes);
    let settled = storage_need(layers, deferred, i + 1);
    if settled is Err || settled == Ok::<StorageNeed, Seq<char>>(StorageNeed::Unsupported) {
        lemma_storage_settles(layers, deferred, i + 1, n);
    }
}

/// Whether the transitions of every linear layer below `n` can be applied.
pub open spec fn all_can_apply(layers: Seq<GdnLayerFacts>, n: int) -> bool {
    forall|i: int|
        0 <= i < n && (#[trigger] layers[i]).linear ==> layers[i].has_pool
            && layers[i].transitions_supported && layers[i].has_pending
}

/// Layers are grouped exactly where the transitions of every linear one can be applied,
/// and there is a group exactly where there is a linear layer.
pub proof fn law_groups_are_given(layers: Seq<GdnLayerFacts>, n: int)
    requires
        0 <= n <= layers.len(),
    ensures
        apply_groups(layers, n) is Some <==> all_can_apply(layers, n),
        apply_groups(layers, n) is Some ==> (apply_groups(layers, n)->0.len() > 0
            <==> exists|i: int| 0 <= i < n && (#[trigger] layers[i]).linear),
    decreases n,
{
    if n > 0 {
        law_groups_are_given(layers, n - 1);
        if all_can_apply(layers, n) {
            assert(all_can_apply(layers, n - 1));
        }
        if all_can_apply(layers, n - 1) && (layers[n - 1].linear ==> can_apply(layers[n - 1])) {
            assert(all_can_apply(layers, n));
        }
        if exists|i: int| 0 <= i < n - 1 && (#[trigger] layers[i]).linear {
            let i = choose|i: int| 0 <= i < n - 1 && (#[trigger] layers[i]).linear;
            assert(0 <= i < n && layers[i].linear);
        }
        if layers[n - 1].linear {
            assert(0 <= n - 1 < n && layers[n - 1].linear);
        }
    }
}

/// Whether groups list their layers in rising order, none is empty, and they come in the
/// order of their first layers.
pub open spec fn groups_rise(groups: Seq<GroupView>) -> bool {
    &&& forall|g: int| 0 <= g < groups.len() ==> (#[trigger] groups[g]).layers.len() > 0
    &&& forall|g: int, j: int, k: int|
        0 <= g < groups.len() && 0 <= j < k < groups[g].layers.len()
            ==> #[trigger] groups[g].layers[j] < #[trigger] groups[g].layers[k]
    &&& forall|g: int, h: int|
        0 <= g < h < groups.len() ==> (#[trigger] groups[g]).layers[0] < (
        #[trigger] groups[h]).layers[0]
}

/// Groups keep the order of the layers.
pub proof fn law_groups_rise(layers: Seq<GdnLayerFacts>, n: int)
    requires
        0 <= n <= layers.len() <= usize::MAX,
        apply_groups(layers, n) is Some,
    ensures
        groups_rise(apply_groups(layers, n)->0),
    decreases n,
{
    if n > 0 {
        law_groups_rise(layers, n - 1);
        law_groups_cover_layers(layers, n - 1);
        let before = apply_groups(layers, n - 1)->0;
        let after = apply_groups(layers, n)->0;
        let layer = layers[n - 1];
        if layer.linear {
            assert forall|g: int, k: int|
                0 <= g < before.len() && 0 <= k < before[g].layers.len() implies #[trigger] before[g].layers[k]
                < n - 1 by {}
            if exists|g: int| first_fit(before, layer, g) {
                let g = choose|g: int| first_fit(before, layer, g);
                assert(first_fit(before, layer, g));
                assert(after[g].layers[0] == before[g].layers[0]);
                assert forall|a: int, j: int, k: int|
                    0 <= a < after.len() && 0 <= j < k
                        < after[a].layers.len() implies #[trigger] after[a].layers[j]
                    < #[trigger] after[a].layers[k] by {
                    assert(after[a].layers[j] == before[a].layers[j]);
                    if a != g || k < before[g].layers.len() {
                        assert(after[a].layers[k] == before[a].layers[k]);
                    } else {
                        assert(before[a].layers[j] < n - 1);
                    }
                }
                assert forall|a: int, b: int| 0 <= a < b < after.len() implies (
                #[trigger] after[a]).layers[0] < (#[trigger] after[b]).layers[0] by {
                    assert(before[a].layers[0] < before[b].layers[0]);
                }
            } else {
                let last = before.len() as int;
                assert forall|a: int, j: int, k: int|
                    0 <= a < after.len() && 0 <= j < k
                        < after[a].layers.len() implies #[trigger] after[a].layers[j]
                    < #[trigger] after[a].layers[k] by {
                    assert(after[a] == before[a]);
                    assert(before[a].layers[j] < before[a].layers[k]);
                }
                assert forall|a: int, b: int| 0 <= a < b < after.len() implies (
                #[trigger] after[a]).layers[0] < (#[trigger] after[b]).layers[0] by {
                    assert(after[a] == before[a]);
                    assert(before[a].layers[0] < n - 1);
                    if b < last {
                        assert(before[a].layers[0] < before[b].layers[0]);
                    }
                }
            }
        }
    }
}

/// Room for transitions is reserved with a log alone, and room for deferred states where
/// nothing drafts; each as large as all linear layers ask for.
pub proof fn law_room_follows_use(
    uses_log: bool,
    has_proposer: bool,
    layers: Seq<GdnLayerFacts>,
    sizes: usize,
)
    ensures
        !uses_log ==> transition_room(uses_log, layers) == Ok::<Option<usize>, Seq<char>>(None),
        has_proposer ==> deferred_room(has_proposer, layers) == Ok::<Option<usize>, Seq<char>>(
            None,
        ),
        (exists|i: int| 0 <= i < layers.len() && (#[trigger] layers[i]).linear) ==> {
            &&& uses_log && all_ask_for(layers, false, layers.len() as int, sizes)
                ==> transition_room(uses_log, layers) == Ok::<Option<usize>, Seq<char>>(
                Some(sizes),
            )
            &&& !has_proposer && all_ask_for(layers, true, layers.len() as int, sizes)
                ==> deferred_room(has_proposer, layers) == Ok::<Option<usize>, Seq<char>>(
                Some(sizes),
            )
        },
{
    let n = layers.len() as int;
    if all_ask_for(layers, false, n, sizes) {
        law_room_is_reserved(layers, false, n, sizes);
    }
    if all_ask_for(layers, true, n, sizes) {
        law_room_is_reserved(layers, true, n, sizes);
    }
}

/// A way back is supported exactly where there are kernels, every device is a CUDA device
/// and there is one, there is a linear layer, and each has a pool and supports it.
pub proof fn law_ways_back_are_supported(
    cuda_kernels: bool,
    is_cuda: Seq<bool>,
    layers: Seq<GdnLayerFacts>,
)
    ensures
        ({
            let devices = cuda_kernels && is_cuda.len() > 0 && !is_cuda.contains(false);
            let any = exists|i: int| 0 <= i < layers.len() && (#[trigger] layers[i]).linear;
            &&& logs_transitions_of(cuda_kernels, is_cuda, layers) <==> devices && any && forall|
                i: int,
            |
                0 <= i < layers.len() && (#[trigger] layers[i]).linear ==> layers[i].has_pool
                    && layers[i].transitions_supported
            &&& keeps_checkpoints_of(cuda_kernels, is_cuda, layers) <==> devices && any && forall|
                i: int,
            |
                0 <= i < layers.len() && (#[trigger] layers[i]).linear ==> layers[i].has_pool
                    && layers[i].checkpoints_supported
        }),
{
    law_devices_keep_checkpoints(cuda_kernels, is_cuda);
}

} // verus!
