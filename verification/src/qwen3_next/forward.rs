//! A forward pass: what it refuses, how it treats the recurrent layers, and what
//! it does at each layer.
use candle_core::Tensor;
use vstd::prelude::*;

use crate::paged::info::{check_rank, elements, rank_check};
use crate::qwen3_next::capture::are_rows;
use crate::qwen3_next::config::LayerType;
use crate::qwen3_next::packed::{
    packed_gdn_segments, segments_refusal, should_stash_gdn_replay, RecurrentBatchKind,
};
use crate::qwen3_next::spec_graph::{
    GdnForwardStash, GdnLayerRollback, GdnLayerStash, GdnReplayStash, StateLayout,
};
use crate::tensor::{
    at1, at2, at3, countable, flat, in_shape, is_squeezed, is_unsqueezed, reshape, same_kind,
    same_order, squeeze, takes_shape, tensor_cell, tensor_dims, tensor_fault, tensor_u32, unsqueeze,
};
use crate::text::{answer, dec, decimal, outcome, Fault, Refusal};

verus! {

// What a pass refuses.

/// The lengths that a pass goes by.
pub open spec fn lens_answer(packed: bool, query_lens: Option<Vec<usize>>) -> Result<
    Option<Vec<usize>>,
    Seq<char>,
> {
    if !packed {
        Ok(None)
    } else if query_lens is None {
        Err("Qwen3-Next packed GDN requires logical query lengths"@)
    } else {
        Ok(query_lens)
    }
}

/// The lengths of the sequences of a pass: those of a packed pass are needed, and
/// those of any other are not looked at.
pub fn packed_query_lens(packed: bool, query_lens: Option<Vec<usize>>) -> (lens: Result<
    Option<Vec<usize>>,
    Fault,
>)
    ensures
        outcome(lens) == if !packed {
            Ok::<Option<Vec<usize>>, Seq<char>>(None)
        } else if query_lens is None {
            Err("Qwen3-Next packed GDN requires logical query lengths"@)
        } else {
            Ok(query_lens)
        },
        outcome(lens) == lens_answer(packed, query_lens),
{
    if !packed {
        return Ok(None);
    }
    match query_lens {
        Some(lens) => Ok(Some(lens)),
        None => Err(Fault::of("Qwen3-Next packed GDN requires logical query lengths")),
    }
}

/// What is known of the recurrent states of a batch.
#[derive(Debug)]
pub struct RecurrentFacts {
    pub batch_kind: RecurrentBatchKind,
    /// The dimensions of the indexes of the states.
    pub index_dims: Vec<usize>,
    /// The same indexes, where the host has them.
    pub host_indices: Option<Vec<u32>>,
}

pub open spec fn has_linear(kinds: Seq<LayerType>) -> bool {
    exists|i: int| 0 <= i < kinds.len() && #[trigger] kinds[i] == LayerType::LinearAttention
}

pub open spec fn host_count_check(host: Option<Vec<u32>>, logical: nat) -> Result<(), Seq<char>> {
    match host {
        Some(host) => if host@.len() == logical {
            Ok(())
        } else {
            Err(
                "Qwen3-Next packed GDN has "@ + dec(host@.len()) + " host state indices but "@
                    + dec(logical) + " logical sequences"@,
            )
        },
        None => Ok(()),
    }
}

/// The refusal of a packed pass over recurrent layers.
pub open spec fn packed_pass_refusal(
    query_lens: Seq<usize>,
    hidden_dims: Seq<usize>,
    first_prompt_chunk: bool,
    facts: RecurrentFacts,
) -> Refusal {
    Refusal::none().unless(
        first_prompt_chunk,
        "Qwen3-Next packed GDN requires the first prompt chunk"@,
    ).unless(
        facts.batch_kind == RecurrentBatchKind::Prefill,
        "Qwen3-Next packed GDN cannot run a decode batch"@,
    ).or(rank_check(3, hidden_dims)).or(
        answer(segments_refusal(hidden_dims[0], hidden_dims[1], query_lens), ()),
    ).or(rank_check(1, facts.index_dims@)).unless(
        facts.index_dims@[0] == query_lens.len(),
        "Qwen3-Next packed GDN has "@ + dec(facts.index_dims@[0] as nat) + " state indices but "@
            + dec(query_lens.len()) + " logical sequences"@,
    ).or(host_count_check(facts.host_indices, query_lens.len()))
}

pub open spec fn pass_refusal(
    kinds: Seq<LayerType>,
    query_lens: Option<Vec<usize>>,
    hidden_dims: Seq<usize>,
    first_prompt_chunk: bool,
    facts: Option<RecurrentFacts>,
) -> Refusal {
    if !has_linear(kinds) {
        Refusal::none()
    } else {
        match facts {
            None => Refusal {
                message: Some(
                    "Hybrid recurrent metadata is required for linear-attention layers."@,
                ),
            },
            Some(facts) => match query_lens {
                None => Refusal::none(),
                Some(lens) => packed_pass_refusal(lens@, hidden_dims, first_prompt_chunk, facts),
            },
        }
    }
}

fn find_linear(kinds: &Vec<LayerType>) -> (found: bool)
    ensures
        found == has_linear(kinds@),
{
    let mut i: usize = 0;
    while i < kinds.len()
        invariant
            i <= kinds@.len(),
            forall|k: int| 0 <= k < i ==> #[trigger] kinds@[k] != LayerType::LinearAttention,
        decreases kinds@.len() - i,
    {
        if kinds[i] == LayerType::LinearAttention {
            return true;
        }
        i = i + 1;
    }
    false
}

fn check_packed_pass(
    query_lens: &Vec<usize>,
    hidden_dims: &Vec<usize>,
    first_prompt_chunk: bool,
    facts: &RecurrentFacts,
) -> (r: Result<(), Fault>)
    ensures
        outcome(r) == answer(
            packed_pass_refusal(query_lens@, hidden_dims@, first_prompt_chunk, *facts),
            (),
        ),
{
    if !first_prompt_chunk {
        return Err(Fault::of("Qwen3-Next packed GDN requires the first prompt chunk"));
    }
    if facts.batch_kind != RecurrentBatchKind::Prefill {
        return Err(Fault::of("Qwen3-Next packed GDN cannot run a decode batch"));
    }
    check_rank(3, hidden_dims)?;
    packed_gdn_segments(hidden_dims[0], hidden_dims[1], query_lens.as_slice())?;
    check_rank(1, &facts.index_dims)?;
    let index_count: usize = facts.index_dims[0];
    if index_count != query_lens.len() {
        return Err(
            Fault::new(
                String::from_str("Qwen3-Next packed GDN has ").concat(
                    decimal(index_count as u64).as_str(),
                ).concat(" state indices but ").concat(
                    decimal(query_lens.len() as u64).as_str(),
                ).concat(" logical sequences"),
            ),
        );
    }
    match &facts.host_indices {
        Some(host) => {
            if host.len() != query_lens.len() {
                return Err(
                    Fault::new(
                        String::from_str("Qwen3-Next packed GDN has ").concat(
                            decimal(host.len() as u64).as_str(),
                        ).concat(" host state indices but ").concat(
                            decimal(query_lens.len() as u64).as_str(),
                        ).concat(" logical sequences"),
                    ),
                );
            }
        },
        None => {},
    }
    Ok(())
}

/// Checks a pass before its layers run. `query_lens` are those of a packed pass.
pub fn check_forward(
    kinds: &Vec<LayerType>,
    query_lens: &Option<Vec<usize>>,
    hidden_dims: &Vec<usize>,
    first_prompt_chunk: bool,
    facts: &Option<RecurrentFacts>,
) -> (r: Result<(), Fault>)
    ensures
        outcome(r) == answer(
            pass_refusal(kinds@, *query_lens, hidden_dims@, first_prompt_chunk, *facts),
            (),
        ),
{
    if !find_linear(kinds) {
        return Ok(());
    }
    match facts {
        None => Err(
            Fault::of("Hybrid recurrent metadata is required for linear-attention layers."),
        ),
        Some(facts) => match query_lens {
            None => Ok(()),
            Some(lens) => check_packed_pass(lens, hidden_dims, first_prompt_chunk, facts),
        },
    }
}

// How a pass treats the recurrent layers.

/// What decides how a pass treats the recurrent layers.
#[derive(Clone, Copy, Debug, PartialEq, Eq, Structural)]
pub struct ModeFacts {
    pub checkpoint_lanes: usize,
    pub query_len: usize,
    pub batch_kind: Option<RecurrentBatchKind>,
    /// Whether the cache keeps a log of transitions.
    pub uses_log: bool,
    /// The most tokens that a device takes in one transition.
    pub fused_max_tokens: usize,
    pub transitions_supported: bool,
    pub checkpoints_supported: bool,
    pub store_spec_hidden: bool,
    /// Whether the pass goes on after the first prompt chunk without cached
    /// tokens.
    pub continuation_without_cache: bool,
}

/// How a pass treats the recurrent layers.
#[derive(Clone, Copy, Debug, PartialEq, Eq, Structural)]
pub struct ForwardMode {
    /// The layers log their transitions.
    pub transition: bool,
    /// Transitions that wait are applied first.
    pub apply_pending: bool,
    /// The layers keep a checkpoint of each token.
    pub checkpoint: bool,
    /// The lanes that the layers keep.
    pub lanes: usize,
    /// The states before the pass are kept.
    pub stash_replay: bool,
    /// The layers give what it takes to undo them.
    pub stash: bool,
}

pub open spec fn is_speculative(facts: ModeFacts) -> bool {
    &&& facts.checkpoint_lanes > 1
    &&& 1 <= facts.query_len <= facts.checkpoint_lanes
    &&& facts.batch_kind == Some(RecurrentBatchKind::SpeculativeDecode)
}

pub open spec fn logs_transitions(facts: ModeFacts) -> bool {
    &&& is_speculative(facts)
    &&& facts.uses_log
    &&& facts.query_len <= facts.fused_max_tokens
    &&& facts.transitions_supported
}

pub open spec fn keeps_checkpoints(facts: ModeFacts) -> bool {
    is_speculative(facts) && !logs_transitions(facts) && facts.checkpoints_supported
}

/// Whether the states before the pass are needed to undo it: for a speculative
/// step that leaves neither transitions nor checkpoints.
pub open spec fn needs_replay(facts: ModeFacts) -> bool {
    &&& !keeps_checkpoints(facts)
    &&& !logs_transitions(facts)
    &&& facts.store_spec_hidden
    &&& facts.query_len > 1
    &&& facts.batch_kind == Some(RecurrentBatchKind::SpeculativeDecode)
    &&& facts.continuation_without_cache
}

pub open spec fn mode_of(facts: ModeFacts) -> ForwardMode {
    ForwardMode {
        transition: logs_transitions(facts),
        apply_pending: !logs_transitions(facts) && facts.uses_log,
        checkpoint: keeps_checkpoints(facts),
        lanes: if logs_transitions(facts) || keeps_checkpoints(facts) {
            facts.checkpoint_lanes
        } else {
            1
        },
        stash_replay: needs_replay(facts),
        stash: needs_replay(facts) || (logs_transitions(facts) && facts.store_spec_hidden),
    }
}

/// A pass prepares for at most one way back: transitions, checkpoints or a
/// replay. Transitions wait only where none are logged. A speculative step that
/// is captured, with more than one token and no cached ones, has a way back.
pub proof fn law_one_way_back(facts: ModeFacts)
    ensures
        ({
            let mode = mode_of(facts);
            &&& !(mode.transition && mode.checkpoint)
            &&& !(mode.transition && mode.stash_replay)
            &&& !(mode.checkpoint && mode.stash_replay)
            &&& !(mode.transition && mode.apply_pending)
            &&& mode.lanes != 1 ==> mode.transition || mode.checkpoint
            &&& facts.batch_kind == Some(RecurrentBatchKind::SpeculativeDecode)
                && facts.store_spec_hidden && facts.query_len > 1
                && facts.continuation_without_cache ==> mode.transition || mode.checkpoint
                || mode.stash_replay
        }),
{
}

/// How a pass treats the recurrent layers.
pub fn forward_mode(facts: &ModeFacts) -> (mode: ForwardMode)
    ensures
        mode == mode_of(*facts),
{
    let speculative: bool = facts.checkpoint_lanes > 1 && 1 <= facts.query_len && facts.query_len
        <= facts.checkpoint_lanes && facts.batch_kind == Some(
        RecurrentBatchKind::SpeculativeDecode,
    );
    let transition: bool = speculative && facts.uses_log && facts.query_len
        <= facts.fused_max_tokens && facts.transitions_supported;
    let checkpoint: bool = speculative && !transition && facts.checkpoints_supported;
    let stash_replay: bool = should_stash_gdn_replay(
        checkpoint || transition,
        facts.store_spec_hidden,
        facts.query_len,
        facts.batch_kind,
        facts.continuation_without_cache,
    );
    ForwardMode {
        transition,
        apply_pending: !transition && facts.uses_log,
        checkpoint,
        lanes: if transition || checkpoint {
            facts.checkpoint_lanes
        } else {
            1
        },
        stash_replay,
        stash: stash_replay || (transition && facts.store_spec_hidden),
    }
}

/// What becomes of a pass once waiting transitions were tried.
pub open spec fn pending_answer(applied: bool, has_slots: bool) -> Result<(), Seq<char>> {
    if applied || !has_slots {
        Ok(())
    } else {
        Err("Qwen3Next pending recurrent transitions cannot be applied"@)
    }
}

/// Checks that waiting transitions were applied, where any sequence has a slot.
pub fn pending_check(applied: bool, has_slots: bool) -> (r: Result<(), Fault>)
    ensures
        outcome(r) == if applied || !has_slots {
            Ok::<(), Seq<char>>(())
        } else {
            Err("Qwen3Next pending recurrent transitions cannot be applied"@)
        },
        outcome(r) == pending_answer(applied, has_slots),
{
    if !applied && has_slots {
        Err(Fault::of("Qwen3Next pending recurrent transitions cannot be applied"))
    } else {
        Ok(())
    }
}

/// Whether a pass begins with a stash.
pub open spec fn begins_stash(
    stash: Option<GdnReplayStash>,
    mode: ForwardMode,
    slots: Option<Vec<u32>>,
) -> bool {
    &&& stash is Some == mode.stash
    &&& stash matches Some(stash) ==> {
        &&& stash.slots@ == match slots {
            Some(slots) => slots@,
            None => Seq::<u32>::empty(),
        }
        &&& stash.layers@ == Seq::<GdnLayerStash>::empty()
    }
}

/// The stash that a pass begins with, for the slots of its sequences.
pub fn begin_stash(mode: &ForwardMode, slots: Option<Vec<u32>>) -> (stash: Option<GdnReplayStash>)
    ensures
        stash is Some == mode.stash,
        stash matches Some(stash) ==> {
            &&& stash.slots@ == match slots {
                Some(slots) => slots@,
                None => Seq::<u32>::empty(),
            }
            &&& stash.layers@ == Seq::<GdnLayerStash>::empty()
        },
        begins_stash(stash, *mode, slots),
{
    if !mode.stash {
        return None;
    }
    let slots: Vec<u32> = match slots {
        Some(slots) => slots,
        None => Vec::new(),
    };
    Some(GdnReplayStash { slots, layers: Vec::new() })
}

// What a pass does at each layer.

/// What the cache holds for a layer.
#[derive(Clone, Copy, Debug, PartialEq, Eq, Structural)]
pub enum LayerCache {
    Missing,
    Attention,
    Recurrent,
}

/// What a pass does at a layer.
#[derive(Clone, Copy, Debug, PartialEq, Eq, Structural)]
pub enum LayerStep {
    /// Nothing: the hidden states go on as they are.
    Pass,
    Attention,
    /// Linear attention over packed sequences, on states that are gathered.
    Packed,
    /// Linear attention over a batch.
    Linear {
        lanes: usize,
        transition: bool,
        /// Gather the states before.
        gather: bool,
        /// Ask for what it takes to undo the layer.
        capture: bool,
    },
}

pub open spec fn step_at(
    layer_idx: usize,
    kind: LayerType,
    cache: LayerCache,
    has_indices: bool,
    packed: bool,
    mode: ForwardMode,
) -> Result<LayerStep, Seq<char>> {
    match kind {
        LayerType::FullAttention => Ok(
            if cache == LayerCache::Attention {
                LayerStep::Attention
            } else {
                LayerStep::Pass
            },
        ),
        LayerType::LinearAttention => if !has_indices {
            Err(
                "Hybrid cache layer "@ + dec(layer_idx as nat)
                    + " is missing recurrent state indices"@,
            )
        } else if cache != LayerCache::Recurrent {
            Err(
                "Hybrid cache layer "@ + dec(layer_idx as nat)
                    + " is not recurrent for a linear-attention layer."@,
            )
        } else if packed {
            Ok(LayerStep::Packed)
        } else {
            Ok(
                LayerStep::Linear {
                    lanes: mode.lanes,
                    transition: mode.transition,
                    gather: mode.stash_replay,
                    capture: mode.stash,
                },
            )
        },
    }
}

/// What a pass does at a layer.
pub fn layer_step(
    layer_idx: usize,
    kind: LayerType,
    cache: LayerCache,
    has_indices: bool,
    packed: bool,
    mode: &ForwardMode,
) -> (step: Result<LayerStep, Fault>)
    ensures
        outcome(step) == step_at(layer_idx, kind, cache, has_indices, packed, *mode),
{
    match kind {
        LayerType::FullAttention => {
            if cache == LayerCache::Attention {
                Ok(LayerStep::Attention)
            } else {
                Ok(LayerStep::Pass)
            }
        },
        LayerType::LinearAttention => {
            if !has_indices {
                Err(
                    Fault::new(
                        String::from_str("Hybrid cache layer ").concat(
                            decimal(layer_idx as u64).as_str(),
                        ).concat(" is missing recurrent state indices"),
                    ),
                )
            } else if cache != LayerCache::Recurrent {
                Err(
                    Fault::new(
                        String::from_str("Hybrid cache layer ").concat(
                            decimal(layer_idx as u64).as_str(),
                        ).concat(" is not recurrent for a linear-attention layer."),
                    ),
                )
            } else if packed {
                Ok(LayerStep::Packed)
            } else {
                Ok(
                    LayerStep::Linear {
                        lanes: mode.lanes,
                        transition: mode.transition,
                        gather: mode.stash_replay,
                        capture: mode.stash,
                    },
                )
            }
        },
    }
}

/// What a layer gives of what it takes to undo it.
pub enum GdnSpeculativeStash {
    Replay(GdnForwardStash),
    Transition(usize),
}

/// The states of a layer before a pass.
pub struct GdnStates {
    pub conv_state: Tensor,
    pub recurrent_state: Tensor,
}

/// What it takes to undo a layer, of what the layer gave and what was gathered.
pub open spec fn rollback_of(captured: Option<GdnSpeculativeStash>, states: Option<GdnStates>) -> Result<
    GdnLayerRollback,
    Seq<char>,
> {
    match (captured, states) {
        (None, _) => Err("GDN forward returned no stash"@),
        (Some(GdnSpeculativeStash::Replay(projected)), Some(states)) => Ok(
            GdnLayerRollback::Replay {
                projected,
                conv_state: states.conv_state,
                recurrent_state: states.recurrent_state,
            },
        ),
        (Some(GdnSpeculativeStash::Transition(transition)), None) => Ok(
            GdnLayerRollback::Transition(transition),
        ),
        _ => Err("GDN speculative capture mode does not match cache storage"@),
    }
}

/// Adds a layer to the stash.
pub fn record_layer(
    stash: &mut GdnReplayStash,
    layer_idx: usize,
    state_layout: StateLayout,
    captured: Option<GdnSpeculativeStash>,
    states: Option<GdnStates>,
) -> (r: Result<(), Fault>)
    ensures
        final(stash).slots == old(stash).slots,
        match rollback_of(captured, states) {
            Ok(rollback) => r is Ok && final(stash).layers@ == old(stash).layers@.push(
                (GdnLayerStash { layer_idx, state_layout, rollback }),
            ),
            Err(message) => outcome(r) == Err::<(), Seq<char>>(message) && final(stash).layers
                == old(stash).layers,
        },
{
    let captured: GdnSpeculativeStash = match captured {
        Some(captured) => captured,
        None => return Err(Fault::of("GDN forward returned no stash")),
    };
    let rollback: GdnLayerRollback = match (captured, states) {
        (GdnSpeculativeStash::Replay(projected), Some(states)) => GdnLayerRollback::Replay {
            projected,
            conv_state: states.conv_state,
            recurrent_state: states.recurrent_state,
        },
        (GdnSpeculativeStash::Transition(transition), None) => GdnLayerRollback::Transition(
            transition,
        ),
        _ => {
            return Err(Fault::of("GDN speculative capture mode does not match cache storage"));
        },
    };
    stash.layers.push(GdnLayerStash { layer_idx, state_layout, rollback });
    Ok(())
}

// The positions of a pass.

/// The positions of the tokens, one row for each sequence.
pub fn position_rows(text_positions: Option<&Tensor>, batch: usize, seq_len: usize) -> (rows: Result<
    Tensor,
    Fault,
>)
    requires
        countable(seq![batch, seq_len]),
        text_positions matches Some(positions) ==> countable(tensor_dims(*positions)),
    ensures
        match text_positions {
            None => outcome(rows) == Err::<Tensor, Seq<char>>(
                "Qwen3Next is missing text positions"@,
            ),
            Some(positions) => {
                &&& batch * seq_len != elements(tensor_dims(*positions)) ==> rows is Err
                &&& batch * seq_len == elements(tensor_dims(*positions)) && takes_shape(*positions)
                    ==> rows is Ok
                &&& rows matches Ok(rows) ==> tensor_dims(rows) == seq![batch, seq_len]
                    && same_order(rows, *positions)
            },
        },
{
    let positions: &Tensor = match text_positions {
        Some(positions) => positions,
        None => return Err(Fault::of("Qwen3Next is missing text positions")),
    };
    let mut shape: Vec<usize> = Vec::new();
    shape.push(batch);
    shape.push(seq_len);
    proof {
        assert(shape@ =~= seq![batch, seq_len]);
        lemma_pair_elements(batch, seq_len);
    }
    match reshape(positions, &shape) {
        Ok(rows) => Ok(rows),
        Err(error) => Err(tensor_fault(error)),
    }
}

/// Whether `wide` holds, as one feature for each token, the positions of `rows`.
pub open spec fn are_wide_positions(wide: Tensor, rows: Tensor) -> bool {
    let dims = tensor_dims(rows);
    &&& same_kind(wide, rows)
    &&& tensor_dims(wide) == seq![dims[0], dims[1], 1]
    &&& forall|b: int, s: int|
        0 <= b < dims[0] && 0 <= s < dims[1] ==> #[trigger] tensor_cell(wide, at3(b, s, 0))
            == tensor_cell(rows, at2(b, s))
    &&& forall|b: int, s: int|
        0 <= b < dims[0] && 0 <= s < dims[1] ==> #[trigger] tensor_u32(wide, at3(b, s, 0))
            == tensor_u32(rows, at2(b, s))
}

/// The positions as hidden states of one feature, from which those that give
/// logits are picked as the hidden states are.
pub fn logits_positions(rows: &Tensor) -> (wide: Result<Tensor, Fault>)
    requires
        tensor_dims(*rows).len() == 2,
    ensures
        wide matches Ok(wide) && {
            &&& is_unsqueezed(wide, *rows, 2)
            &&& are_wide_positions(wide, *rows)
        },
{
    match unsqueeze(rows, 2) {
        Ok(wide) => {
            proof {
                let dims = tensor_dims(*rows);
                assert(tensor_dims(wide) =~= seq![dims[0], dims[1], 1]);
                assert forall|b: int, s: int| 0 <= b < dims[0] && 0 <= s < dims[1] implies #[trigger] tensor_cell(
                    wide,
                    at3(b, s, 0),
                ) == tensor_cell(*rows, at2(b, s)) by {
                    assert(in_shape(at3(b, s, 0), tensor_dims(wide)));
                    assert(at3(b, s, 0).remove(2) =~= at2(b, s));
                }
                assert forall|b: int, s: int| 0 <= b < dims[0] && 0 <= s < dims[1] implies #[trigger] tensor_u32(
                    wide,
                    at3(b, s, 0),
                ) == tensor_u32(*rows, at2(b, s)) by {
                    assert(in_shape(at3(b, s, 0), tensor_dims(wide)));
                    assert(at3(b, s, 0).remove(2) =~= at2(b, s));
                }
            }
            Ok(wide)
        },
        Err(error) => Err(tensor_fault(error)),
    }
}

/// The positions that were picked, one row for each sequence.
pub fn picked_positions(wide: &Tensor) -> (rows: Result<Tensor, Fault>)
    ensures
        rows is Ok == (tensor_dims(*wide).len() > 2),
        rows matches Ok(rows) ==> is_squeezed(rows, *wide, 2),
        rows matches Ok(rows) ==> tensor_dims(*wide).len() == 3 && tensor_dims(*wide)[2] == 1 ==> {
            &&& tensor_dims(rows) == seq![tensor_dims(*wide)[0], tensor_dims(*wide)[1]]
            &&& are_wide_positions(*wide, rows)
        },
{
    match squeeze(wide, 2) {
        Ok(rows) => {
            proof {
                let dims = tensor_dims(*wide);
                if dims.len() == 3 && dims[2] == 1 {
                    assert(tensor_dims(rows) =~= seq![dims[0], dims[1]]);
                    assert(dims =~= seq![dims[0], dims[1], 1]);
                    assert forall|b: int, s: int| 0 <= b < dims[0] && 0 <= s < dims[1] implies #[trigger] tensor_cell(
                        *wide,
                        at3(b, s, 0),
                    ) == tensor_cell(rows, at2(b, s)) by {
                        assert(in_shape(at2(b, s), tensor_dims(rows)));
                        assert(at2(b, s).insert(2, 0) =~= at3(b, s, 0));
                    }
                    assert forall|b: int, s: int| 0 <= b < dims[0] && 0 <= s < dims[1] implies #[trigger] tensor_u32(
                        *wide,
                        at3(b, s, 0),
                    ) == tensor_u32(rows, at2(b, s)) by {
                        assert(in_shape(at2(b, s), tensor_dims(rows)));
                        assert(at2(b, s).insert(2, 0) =~= at3(b, s, 0));
                    }
                }
            }
            Ok(rows)
        },
        Err(error) => Err(tensor_fault(error)),
    }
}

/// Positions that are widened and, all of them picked, made rows again are the
/// same, and so is what is read of them.
pub proof fn law_positions_come_back(rows: Tensor, wide: Tensor, picked: Tensor)
    requires
        tensor_dims(rows).len() == 2,
        tensor_dims(picked).len() == 2,
        are_wide_positions(wide, rows),
        are_wide_positions(wide, picked),
    ensures
        same_kind(picked, rows),
        tensor_dims(picked) == tensor_dims(rows),
        forall|b: int, s: int|
            0 <= b < tensor_dims(rows)[0] && 0 <= s < tensor_dims(rows)[1] ==> #[trigger] tensor_u32(
                picked,
                at2(b, s),
            ) == tensor_u32(rows, at2(b, s)),
{
    let dims = tensor_dims(rows);
    assert(tensor_dims(wide)[0] == dims[0] && tensor_dims(wide)[1] == dims[1]);
    assert(tensor_dims(picked) =~= dims);
    assert forall|b: int, s: int| 0 <= b < dims[0] && 0 <= s < dims[1] implies #[trigger] tensor_u32(
        picked,
        at2(b, s),
    ) == tensor_u32(rows, at2(b, s)) by {
        assert(tensor_u32(wide, at3(b, s, 0)) == tensor_u32(rows, at2(b, s)));
        assert(tensor_u32(wide, at3(b, s, 0)) == tensor_u32(picked, at2(b, s)));
    }
}

/// The positions that are read back of a capture are those of the text, in order.
pub proof fn law_positions_are_read_back(text: Tensor, rows: Tensor, read: Seq<Vec<u32>>, b: int, s: int)
    requires
        tensor_dims(text).len() == 1,
        same_order(rows, text),
        are_rows(read, rows),
        0 <= b < tensor_dims(rows)[0],
        0 <= s < tensor_dims(rows)[1],
        elements(tensor_dims(rows)) == elements(tensor_dims(text)),
    ensures
        read[b]@[s] == tensor_u32(text, at1(b * tensor_dims(rows)[1] + s)),
{
    let (d, t) = (tensor_dims(rows), tensor_dims(text));
    let from = at2(b, s);
    let to = at1(b * d[1] + s);
    assert(d =~= seq![d[0], d[1]]);
    assert(t =~= seq![t[0]]);
    lemma_pair_elements(d[0], d[1]);
    reveal_with_fuel(elements, 2);
    assert(seq![t[0]].drop_last() =~= Seq::<usize>::empty());
    assert(1 * (t[0] as nat) == t[0]);
    assert(0 <= b * d[1] + s < d[0] * d[1]) by (nonlinear_arith)
        requires
            0 <= b < d[0],
            0 <= s < d[1],
    ;
    assert(in_shape(from, d));
    assert(in_shape(to, t));
    reveal_with_fuel(flat, 3);
    assert(d.drop_last().drop_last() =~= Seq::<usize>::empty());
    assert(t.drop_last() =~= Seq::<usize>::empty());
    assert(0 * d[0] == 0);
    assert(0 * t[0] == 0);
    assert(flat(from, d) == b * d[1] + s);
    assert(flat(to, t) == b * d[1] + s);
}

proof fn lemma_pair_elements(a: usize, b: usize)
    ensures
        elements(seq![a, b]) == a * b,
{
    let dims = seq![a, b];
    reveal_with_fuel(elements, 3);
    assert(dims.drop_last() =~= seq![a]);
    assert(seq![a].drop_last() =~= Seq::<usize>::empty());
    assert(1 * (a as nat) == a);
}

/// A pass is taken exactly where it has no linear layer, or where its states are known and,
/// if it is packed, it is the first chunk of a prefill, its row splits into its
/// sequences, and there is a state for each of them, on the host too where that has any.
pub proof fn law_passes_are_taken(
    kinds: Seq<LayerType>,
    query_lens: Option<Vec<usize>>,
    hidden_dims: Seq<usize>,
    first_prompt_chunk: bool,
    facts: Option<RecurrentFacts>,
)
    ensures
        pass_refusal(kinds, query_lens, hidden_dims, first_prompt_chunk, facts).message is None
            <==> {
            ||| forall|i: int|
                0 <= i < kinds.len() ==> #[trigger] kinds[i] == LayerType::FullAttention
            ||| facts is Some && (query_lens matches Some(lens) ==> {
                &&& first_prompt_chunk
                &&& facts->0.batch_kind == RecurrentBatchKind::Prefill
                &&& hidden_dims.len() == 3
                &&& segments_refusal(hidden_dims[0], hidden_dims[1], lens@).message is None
                &&& facts->0.index_dims@.len() == 1
                &&& facts->0.index_dims@[0] == lens@.len()
                &&& facts->0.host_indices matches Some(host) ==> host@.len() == lens@.len()
            })
        },
{
    if !has_linear(kinds) {
        assert forall|i: int| 0 <= i < kinds.len() implies #[trigger] kinds[i]
            == LayerType::FullAttention by {
            assert(kinds[i] != LayerType::LinearAttention);
        }
    } else {
        let i = choose|i: int|
            0 <= i < kinds.len() && #[trigger] kinds[i] == LayerType::LinearAttention;
        assert(kinds[i] != LayerType::FullAttention);
    }
}

/// A speculative step of no more tokens than lanes, of which there are several, logs its
/// transitions where a log is kept that takes them, and else keeps checkpoints where it
/// can; one that is captured and does neither is replayed.
pub proof fn law_ways_back(facts: ModeFacts)
    ensures
        ({
            let mode = mode_of(facts);
            let speculative = facts.batch_kind == Some(RecurrentBatchKind::SpeculativeDecode);
            let in_lanes = speculative && facts.query_len != 0 && facts.query_len
                <= facts.checkpoint_lanes && facts.checkpoint_lanes != 0
                && facts.checkpoint_lanes != 1;
            let fused = facts.transitions_supported && facts.query_len <= facts.fused_max_tokens;
            &&& mode.transition <==> in_lanes && facts.uses_log && fused
            &&& mode.checkpoint <==> in_lanes && facts.checkpoints_supported && !(facts.uses_log
                && fused)
            &&& mode.apply_pending <==> facts.uses_log && !(in_lanes && fused)
            &&& mode.transition || mode.checkpoint ==> mode.lanes == facts.checkpoint_lanes
                && mode.lanes > 1
            &&& !mode.transition && !mode.checkpoint ==> mode.lanes == 1
            &&& mode.stash_replay <==> speculative && facts.store_spec_hidden && facts.query_len
                >= 2 && facts.continuation_without_cache && mode.lanes == 1
            &&& mode.stash <==> mode.stash_replay || (mode.transition && facts.store_spec_hidden)
        }),
{
}

/// A layer with full attention attends where the cache has room for its keys and values,
/// and else hands on what it got. A linear one runs exactly where its states are
/// indexed and kept, over packed sequences where the pass is packed, and else as the
/// mode of the pass says.
pub proof fn law_layer_steps(
    layer_idx: usize,
    kind: LayerType,
    cache: LayerCache,
    has_indices: bool,
    packed: bool,
    mode: ForwardMode,
)
    ensures
        ({
            let step = step_at(layer_idx, kind, cache, has_indices, packed, mode);
            let full = kind == LayerType::FullAttention;
            let runs = has_indices && cache == LayerCache::Recurrent;
            &&& step is Err <==> !full && !runs
            &&& step == Ok::<LayerStep, Seq<char>>(LayerStep::Attention) <==> full && cache
                == LayerCache::Attention
            &&& step == Ok::<LayerStep, Seq<char>>(LayerStep::Pass) <==> full && cache
                != LayerCache::Attention
            &&& step == Ok::<LayerStep, Seq<char>>(LayerStep::Packed) <==> !full && runs && packed
            &&& !full && runs && !packed ==> (step matches Ok(
                LayerStep::Linear { lanes, transition, gather, capture },
            ) && {
                &&& lanes == mode.lanes
                &&& transition == mode.transition
                &&& gather == mode.stash_replay
                &&& capture == mode.stash
            })
        }),
{
}

/// A layer is undone by what it gave: a replay needs the states before, each in its place,
/// and a transition must not have them.
pub proof fn law_layers_are_undone(
    captured: Option<GdnSpeculativeStash>,
    states: Option<GdnStates>,
)
    ensures
        rollback_of(captured, states) is Ok <==> {
            ||| captured is Some && captured->0 is Replay && states is Some
            ||| captured is Some && captured->0 is Transition && states is None
        },
        rollback_of(captured, states) matches Ok(
            GdnLayerRollback::Replay { projected, conv_state, recurrent_state },
        ) ==> {
            &&& captured == Some(GdnSpeculativeStash::Replay(projected))
            &&& states == Some(GdnStates { conv_state, recurrent_state })
        },
        rollback_of(captured, states) matches Ok(GdnLayerRollback::Transition(transition))
            ==> captured == Some(GdnSpeculativeStash::Transition(transition)),
{
}

/// A packed pass goes by the lengths of its sequences, and is refused without them; any
/// other goes by none.
pub proof fn law_packed_passes_need_lengths(packed: bool, query_lens: Option<Vec<usize>>)
    ensures
        lens_answer(packed, query_lens) is Err <==> packed && query_lens is None,
        lens_answer(packed, query_lens) matches Ok(lens) ==> lens is Some == packed,
        lens_answer(packed, query_lens) matches Ok(Some(lens)) ==> query_lens == Some(lens),
{
}

/// A pass goes on unless some sequence has a slot whose transitions could not be applied.
pub proof fn law_passes_wait_for_transitions(applied: bool, has_slots: bool)
    ensures
        pending_answer(applied, has_slots) is Err <==> has_slots && !applied,
{
}

/// A stash begins empty, with the slots of its sequences in order, exactly where the mode
/// asks for one.
pub proof fn law_stashes_begin_empty(
    stash: Option<GdnReplayStash>,
    mode: ForwardMode,
    slots: Option<Vec<u32>>,
)
    requires
        begins_stash(stash, mode, slots),
    ensures
        stash is Some <==> mode.stash,
        stash is Some && slots is Some ==> stash->0.slots@ == slots->0@,
        stash is Some && slots is None ==> stash->0.slots@.len() == 0,
        stash is Some ==> stash->0.layers@.len() == 0,
{
}

} // verus!
