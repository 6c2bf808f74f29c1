//! The state of a captured speculative step as a list of tensors.
use candle_core::Tensor;
use vstd::prelude::*;
use vstd::string::*;

use crate::qwen3_next::spec_graph::{
    capture_narrowed, capture_refusal, clone_layout, narrow_gdn_replay_stash, narrow_spec_capture,
    stash_narrowed, stash_refusal, GdnForwardStash, GdnLayerRollback, GdnLayerStash, GdnReplayStash,
    SpecCapture, SpecGraphState,
};
use crate::tensor::{clone_tensor, tensor_dims};
use crate::text::{answer, dec, decimal, outcome, Fault, Refusal};

verus! {

pub open spec fn capture_tensors(capture: Option<SpecCapture>) -> Seq<Tensor> {
    match capture {
        Some(capture) => seq![capture.hidden, capture.positions],
        None => Seq::empty(),
    }
}

pub open spec fn rollback_tensors(rollback: GdnLayerRollback) -> Seq<Tensor> {
    match rollback {
        GdnLayerRollback::Replay { projected, conv_state, recurrent_state } => seq![
            projected.mixed_qkv,
            projected.convolved_qkv,
            projected.b,
            projected.a,
            conv_state,
            recurrent_state,
        ],
        GdnLayerRollback::Transition(_) => Seq::empty(),
    }
}

/// The tensors of the first `n` layers.
pub open spec fn layer_tensors(layers: Seq<GdnLayerStash>, n: int) -> Seq<Tensor>
    decreases n,
{
    if n <= 0 {
        Seq::empty()
    } else {
        layer_tensors(layers, n - 1) + rollback_tensors(layers[n - 1].rollback)
    }
}

pub open spec fn stash_tensors(stash: Option<GdnReplayStash>) -> Seq<Tensor> {
    match stash {
        Some(stash) => layer_tensors(stash.layers@, stash.layers@.len() as int),
        None => Seq::empty(),
    }
}

/// All tensors of a state: those of the two captures, then those of the layers.
pub open spec fn state_tensors(state: SpecGraphState) -> Seq<Tensor> {
    capture_tensors(state.spec_capture) + capture_tensors(state.full_capture) + stash_tensors(
        state.gdn_stash,
    )
}

/// Whether two layers are the same but for their tensors.
pub open spec fn same_layer_frame(a: GdnLayerStash, b: GdnLayerStash) -> bool {
    &&& a.layer_idx == b.layer_idx
    &&& a.state_layout.name@ == b.state_layout.name@
    &&& match (a.rollback, b.rollback) {
        (GdnLayerRollback::Replay { .. }, GdnLayerRollback::Replay { .. }) => true,
        (GdnLayerRollback::Transition(x), GdnLayerRollback::Transition(y)) => x == y,
        _ => false,
    }
}

pub open spec fn same_stash_frame(a: Option<GdnReplayStash>, b: Option<GdnReplayStash>) -> bool {
    match (a, b) {
        (Some(a), Some(b)) => {
            &&& a.slots@ == b.slots@
            &&& a.layers@.len() == b.layers@.len()
            &&& forall|i: int|
                0 <= i < a.layers@.len() ==> same_layer_frame(#[trigger] a.layers@[i], b.layers@[i])
        },
        (None, None) => true,
        _ => false,
    }
}

/// Whether two states are the same but for their tensors.
pub open spec fn same_frame(a: SpecGraphState, b: SpecGraphState) -> bool {
    &&& a.spec_capture is Some == b.spec_capture is Some
    &&& a.full_capture is Some == b.full_capture is Some
    &&& same_stash_frame(a.gdn_stash, b.gdn_stash)
}

/// Whether two states are the same.
pub open spec fn same_state(a: SpecGraphState, b: SpecGraphState) -> bool {
    same_frame(a, b) && state_tensors(a) == state_tensors(b)
}

fn push_capture(tensors: &mut Vec<Tensor>, capture: &Option<SpecCapture>)
    ensures
        final(tensors)@ == old(tensors)@ + capture_tensors(*capture),
{
    match capture {
        Some(capture) => {
            tensors.push(clone_tensor(&capture.hidden));
            tensors.push(clone_tensor(&capture.positions));
        },
        None => {},
    }
}

fn push_layer(tensors: &mut Vec<Tensor>, rollback: &GdnLayerRollback)
    ensures
        final(tensors)@ == old(tensors)@ + rollback_tensors(*rollback),
{
    match rollback {
        GdnLayerRollback::Replay { projected, conv_state, recurrent_state } => {
            tensors.push(clone_tensor(&projected.mixed_qkv));
            tensors.push(clone_tensor(&projected.convolved_qkv));
            tensors.push(clone_tensor(&projected.b));
            tensors.push(clone_tensor(&projected.a));
            tensors.push(clone_tensor(conv_state));
            tensors.push(clone_tensor(recurrent_state));
        },
        GdnLayerRollback::Transition(_) => {},
    }
}

const MISMATCH: &'static str = "speculative graph state tensor count mismatch";

fn take_capture(tensors: &Vec<Tensor>, at: usize, like: &Option<SpecCapture>) -> (taken: Result<
    Option<SpecCapture>,
    Fault,
>)
    requires
        at <= tensors@.len(),
    ensures
        match taken {
            Ok(capture) => {
                &&& capture is Some == like is Some
                &&& at + capture_tensors(*like).len() <= tensors@.len()
                &&& capture_tensors(capture) == tensors@.subrange(
                    at as int,
                    at + capture_tensors(*like).len(),
                )
            },
            Err(fault) => at + capture_tensors(*like).len() > tensors@.len() && fault@ == MISMATCH@,
        },
{
    let len: usize = tensors.len();
    match like {
        Some(_) => {
            if len - at < 2 {
                return Err(Fault::of(MISMATCH));
            }
            let hidden: Tensor = clone_tensor(&tensors[at]);
            let positions: Tensor = clone_tensor(&tensors[at + 1]);
            Ok(Some(SpecCapture { hidden, positions }))
        },
        None => Ok(None),
    }
}

fn take_layer(tensors: &Vec<Tensor>, at: usize, like: &GdnLayerStash) -> (taken: Result<
    GdnLayerStash,
    Fault,
>)
    requires
        at <= tensors@.len(),
    ensures
        match taken {
            Ok(layer) => {
                &&& same_layer_frame(layer, *like)
                &&& at + rollback_tensors(like.rollback).len() <= tensors@.len()
                &&& rollback_tensors(layer.rollback) == tensors@.subrange(
                    at as int,
                    at + rollback_tensors(like.rollback).len(),
                )
            },
            Err(fault) => at + rollback_tensors(like.rollback).len() > tensors@.len() && fault@
                == MISMATCH@,
        },
{
    let len: usize = tensors.len();
    let rollback: GdnLayerRollback = match &like.rollback {
        GdnLayerRollback::Replay { .. } => {
            if len - at < 6 {
                return Err(Fault::of(MISMATCH));
            }
            let mixed_qkv: Tensor = clone_tensor(&tensors[at]);
            let convolved_qkv: Tensor = clone_tensor(&tensors[at + 1]);
            let b: Tensor = clone_tensor(&tensors[at + 2]);
            let a: Tensor = clone_tensor(&tensors[at + 3]);
            let conv_state: Tensor = clone_tensor(&tensors[at + 4]);
            let recurrent_state: Tensor = clone_tensor(&tensors[at + 5]);
            GdnLayerRollback::Replay {
                projected: GdnForwardStash { mixed_qkv, convolved_qkv, b, a },
                conv_state,
                recurrent_state,
            }
        },
        GdnLayerRollback::Transition(log) => GdnLayerRollback::Transition(*log),
    };
    Ok(
        GdnLayerStash {
            layer_idx: like.layer_idx,
            state_layout: clone_layout(&like.state_layout),
            rollback,
        },
    )
}

fn copy_slots(slots: &Vec<u32>) -> (copy: Vec<u32>)
    ensures
        copy@ == slots@,
{
    let mut copy: Vec<u32> = Vec::new();
    let mut i: usize = 0;
    while i < slots.len()
        invariant
            i <= slots@.len(),
            copy@ == slots@.take(i as int),
        decreases slots@.len() - i,
    {
        copy.push(slots[i]);
        i = i + 1;
        assert(copy@ =~= slots@.take(i as int));
    }
    assert(copy@ =~= slots@);
    copy
}

/// A longer list of layers has at least the tensors of a shorter one.
proof fn lemma_layer_tensors_grow(layers: Seq<GdnLayerStash>, m: int, n: int)
    requires
        0 <= m <= n,
    ensures
        layer_tensors(layers, m).len() <= layer_tensors(layers, n).len(),
    decreases n,
{
    if m < n {
        lemma_layer_tensors_grow(layers, m, n - 1);
    }
}

/// The tensors of the first layers depend on those layers alone.
proof fn lemma_layer_tensors_agree(a: Seq<GdnLayerStash>, b: Seq<GdnLayerStash>, n: int)
    requires
        n <= a.len(),
        n <= b.len(),
        forall|i: int| 0 <= i < n ==> #[trigger] a[i] == b[i],
    ensures
        layer_tensors(a, n) == layer_tensors(b, n),
    decreases n,
{
    if n > 0 {
        lemma_layer_tensors_agree(a, b, n - 1);
        assert(a[n - 1] == b[n - 1]);
    }
}

fn take_stash(tensors: &Vec<Tensor>, start: usize, like: &GdnReplayStash) -> (taken: Result<
    GdnReplayStash,
    Fault,
>)
    requires
        start <= tensors@.len(),
    ensures
        match taken {
            Ok(stash) => {
                let wanted = stash_tensors(Some(*like)).len();
                &&& same_stash_frame(Some(stash), Some(*like))
                &&& start + wanted == tensors@.len()
                &&& stash_tensors(Some(stash)) == tensors@.subrange(start as int, start + wanted)
            },
            Err(fault) => start + stash_tensors(Some(*like)).len() != tensors@.len() && fault@
                == MISMATCH@,
        },
{
    let ghost all = like.layers@;
    let len: usize = tensors.len();
    let mut at: usize = start;
    let mut layers: Vec<GdnLayerStash> = Vec::new();
    let mut i: usize = 0;
    while i < like.layers.len()
        invariant
            i <= like.layers@.len(),
            all == like.layers@,
            len == tensors@.len(),
            start <= at <= tensors@.len(),
            at == start + layer_tensors(all, i as int).len(),
            layers@.len() == i,
            forall|k: int| 0 <= k < i ==> same_layer_frame(#[trigger] layers@[k], all[k]),
            layer_tensors(layers@, i as int) == tensors@.subrange(start as int, at as int),
        decreases like.layers@.len() - i,
    {
        let ghost before = layers@;
        match take_layer(tensors, at, &like.layers[i]) {
            Ok(layer) => {
                let ghost taken = layer;
                let used: usize = match &layer.rollback {
                    GdnLayerRollback::Replay { .. } => 6,
                    GdnLayerRollback::Transition(_) => 0,
                };
                layers.push(layer);
                proof {
                    lemma_layer_tensors_agree(layers@, before, i as int);
                    assert(layer_tensors(layers@, i + 1) == layer_tensors(before, i as int)
                        + rollback_tensors(taken.rollback));
                    let head = tensors@.subrange(start as int, at as int);
                    let tail = tensors@.subrange(at as int, at + used);
                    assert(tensors@.subrange(start as int, at + used) =~= head + tail);
                }
                at = at + used;
            },
            Err(fault) => {
                proof {
                    lemma_layer_tensors_grow(all, i + 1, all.len() as int);
                }
                return Err(fault);
            },
        }
        i = i + 1;
    }
    if at != tensors.len() {
        return Err(Fault::of(MISMATCH));
    }
    Ok(GdnReplayStash { slots: copy_slots(&like.slots), layers })
}

impl SpecGraphState {
    /// All tensors of the state, in a fixed order.
    pub fn tensors(&self) -> (tensors: Vec<Tensor>)
        ensures
            tensors@ == state_tensors(*self),
    {
        let mut tensors: Vec<Tensor> = Vec::new();
        push_capture(&mut tensors, &self.spec_capture);
        push_capture(&mut tensors, &self.full_capture);
        let ghost captures = capture_tensors(self.spec_capture) + capture_tensors(
            self.full_capture,
        );
        assert(tensors@ =~= captures);
        match &self.gdn_stash {
            Some(stash) => {
                let mut i: usize = 0;
                assert(captures + layer_tensors(stash.layers@, 0) =~= captures);
                while i < stash.layers.len()
                    invariant
                        i <= stash.layers@.len(),
                        tensors@ == captures + layer_tensors(stash.layers@, i as int),
                    decreases stash.layers@.len() - i,
                {
                    push_layer(&mut tensors, &stash.layers[i].rollback);
                    assert(tensors@ =~= captures + layer_tensors(stash.layers@, i + 1));
                    i = i + 1;
                }
            },
            None => {
                assert(captures + stash_tensors(self.gdn_stash) =~= captures);
            },
        }
        tensors
    }

    /// The state with other tensors in the places of its own.
    pub fn with_tensors(&self, tensors: &Vec<Tensor>) -> (state: Result<SpecGraphState, Fault>)
        ensures
            match state {
                Ok(state) => {
                    &&& tensors@.len() == state_tensors(*self).len()
                    &&& same_frame(state, *self)
                    &&& state_tensors(state) == tensors@
                },
                Err(fault) => tensors@.len() != state_tensors(*self).len() && fault@
                    == "speculative graph state tensor count mismatch"@,
            },
    {
        let spec_capture: Option<SpecCapture> = take_capture(tensors, 0, &self.spec_capture)?;
        let first: usize = match &self.spec_capture {
            Some(_) => 2,
            None => 0,
        };
        let full_capture: Option<SpecCapture> = take_capture(tensors, first, &self.full_capture)?;
        let second: usize = match &self.full_capture {
            Some(_) => first + 2,
            None => first,
        };
        let gdn_stash: Option<GdnReplayStash> = match &self.gdn_stash {
            Some(stash) => Some(take_stash(tensors, second, stash)?),
            None => {
                if second != tensors.len() {
                    return Err(Fault::of(MISMATCH));
                }
                None
            },
        };
        let state: SpecGraphState = SpecGraphState { spec_capture, full_capture, gdn_stash };
        proof {
            let n = tensors@.len() as int;
            let a = tensors@.subrange(0, first as int);
            let b = tensors@.subrange(first as int, second as int);
            let c = tensors@.subrange(second as int, n);
            assert(tensors@ =~= a + b + c);
            assert(capture_tensors(state.spec_capture) =~= a);
            assert(capture_tensors(state.full_capture) =~= b);
            assert(stash_tensors(state.gdn_stash) =~= c);
        }
        Ok(state)
    }
}

// Narrowing, and the slots of the live batch.

pub open spec fn optional_capture_refusal(
    so_far: Refusal,
    capture: Option<SpecCapture>,
    real_batch: usize,
) -> Refusal {
    match capture {
        Some(capture) => so_far.or(answer(capture_refusal(capture, real_batch), ())),
        None => so_far,
    }
}

pub open spec fn state_refusal(state: SpecGraphState, real_batch: usize) -> Refusal {
    let captures = optional_capture_refusal(
        optional_capture_refusal(Refusal::none(), state.spec_capture, real_batch),
        state.full_capture,
        real_batch,
    );
    match state.gdn_stash {
        Some(stash) => captures.or(answer(stash_refusal(stash, real_batch), ())),
        None => captures,
    }
}

pub open spec fn optional_capture_narrowed(
    part: Option<SpecCapture>,
    whole: Option<SpecCapture>,
    real_batch: usize,
) -> bool {
    match (part, whole) {
        (Some(part), Some(whole)) => capture_narrowed(part, whole, real_batch),
        (None, None) => true,
        _ => false,
    }
}

/// Whether a state is that of the first `real_batch` sequences of another.
pub open spec fn state_narrowed(
    part: SpecGraphState,
    whole: SpecGraphState,
    real_batch: usize,
) -> bool {
    &&& optional_capture_narrowed(part.spec_capture, whole.spec_capture, real_batch)
    &&& optional_capture_narrowed(part.full_capture, whole.full_capture, real_batch)
    &&& match (part.gdn_stash, whole.gdn_stash) {
        (Some(part), Some(whole)) => stash_narrowed(part, whole, real_batch),
        (None, None) => true,
        _ => false,
    }
}

fn narrow_optional(capture: &Option<SpecCapture>, real_batch: usize) -> (part: Result<
    Option<SpecCapture>,
    Fault,
>)
    ensures
        match part {
            Ok(part) => {
                &&& optional_capture_refusal(Refusal::none(), *capture, real_batch).message is None
                &&& optional_capture_narrowed(part, *capture, real_batch)
            },
            Err(fault) => optional_capture_refusal(
                Refusal::none(),
                *capture,
                real_batch,
            ).message == Some(fault@),
        },
{
    match capture {
        Some(capture) => Ok(Some(narrow_spec_capture(capture, real_batch)?)),
        None => Ok(None),
    }
}

impl SpecGraphState {
    /// The state of the first `real_batch` sequences.
    pub fn for_real_batch(&self, real_batch: usize) -> (part: Result<SpecGraphState, Fault>)
        ensures
            match part {
                Ok(part) => {
                    &&& state_refusal(*self, real_batch).message is None
                    &&& state_narrowed(part, *self, real_batch)
                },
                Err(fault) => state_refusal(*self, real_batch).message == Some(fault@),
            },
    {
        let spec_capture: Option<SpecCapture> = narrow_optional(&self.spec_capture, real_batch)?;
        let full_capture: Option<SpecCapture> = narrow_optional(&self.full_capture, real_batch)?;
        let gdn_stash: Option<GdnReplayStash> = match &self.gdn_stash {
            Some(stash) => Some(narrow_gdn_replay_stash(stash, real_batch)?),
            None => None,
        };
        Ok(SpecGraphState { spec_capture, full_capture, gdn_stash })
    }
}

pub open spec fn refresh_refusal(rows: nat, live: nat) -> Refusal {
    Refusal::none().unless(
        rows <= live,
        "GDN graph state has "@ + dec(rows) + " rows, but the live slot table has "@ + dec(live),
    )
}

/// Gives a stash the slots of the batch that is live, as many as it has rows.
pub fn refresh_gdn_stash_slots(stash: &mut GdnReplayStash, slots: &[u32]) -> (r: Result<(), Fault>)
    ensures
        outcome(r) == answer(refresh_refusal(old(stash).slots@.len(), slots@.len()), ()),
        final(stash).layers == old(stash).layers,
        r is Ok ==> final(stash).slots@ == slots@.take(old(stash).slots@.len() as int),
        r is Err ==> final(stash).slots == old(stash).slots,
{
    let batch_size: usize = stash.slots.len();
    if slots.len() < batch_size {
        return Err(
            Fault::new(
                String::from_str("GDN graph state has ").concat(
                    decimal(batch_size as u64).as_str(),
                ).concat(" rows, but the live slot table has ").concat(
                    decimal(slots.len() as u64).as_str(),
                ),
            ),
        );
    }
    let mut fresh: Vec<u32> = Vec::new();
    let mut i: usize = 0;
    while i < batch_size
        invariant
            i <= batch_size <= slots@.len(),
            fresh@ == slots@.take(i as int),
        decreases batch_size - i,
    {
        fresh.push(slots[i]);
        i = i + 1;
        assert(fresh@ =~= slots@.take(i as int));
    }
    stash.slots = fresh;
    Ok(())
}

// Laws.

/// Putting a state's own tensors back gives the same state.
pub proof fn law_own_tensors_give_the_state_back(
    state: SpecGraphState,
    listed: Seq<Tensor>,
    rebuilt: SpecGraphState,
)
    requires
        listed == state_tensors(state),
        same_frame(rebuilt, state),
        state_tensors(rebuilt) == listed,
    ensures
        same_state(rebuilt, state),
{
}

/// States that are the same have the same captures.
pub proof fn law_same_states_have_same_captures(a: SpecGraphState, b: SpecGraphState)
    requires
        same_state(a, b),
    ensures
        a.spec_capture == b.spec_capture,
        a.full_capture == b.full_capture,
{
    let (x, y) = (state_tensors(a), state_tensors(b));
    match (a.spec_capture, b.spec_capture) {
        (Some(c), Some(d)) => {
            assert(x[0] == c.hidden && y[0] == d.hidden);
            assert(x[1] == c.positions && y[1] == d.positions);
        },
        _ => {},
    }
    let at = capture_tensors(a.spec_capture).len() as int;
    match (a.full_capture, b.full_capture) {
        (Some(c), Some(d)) => {
            assert(x[at] == c.hidden && y[at] == d.hidden);
            assert(x[at + 1] == c.positions && y[at + 1] == d.positions);
        },
        _ => {},
    }
}

/// A state that is narrowed to all its sequences keeps its captures.
pub proof fn law_narrowing_to_all_keeps_captures(part: SpecCapture, whole: SpecCapture)
    requires
        capture_refusal(whole, tensor_dims(whole.hidden)[0]).message is None,
        capture_narrowed(part, whole, tensor_dims(whole.hidden)[0]),
    ensures
        part == whole,
{
}

/// A batch narrowed twice is the batch narrowed once.
pub proof fn law_narrowing_composes(
    small: SpecCapture,
    middle: SpecCapture,
    whole: SpecCapture,
    m: usize,
    n: usize,
)
    requires
        m <= n,
        capture_refusal(whole, n).message is None,
        capture_narrowed(middle, whole, n),
        capture_narrowed(small, middle, m),
    ensures
        capture_narrowed(small, whole, m),
{
    crate::tensor::law_narrow_composes(small.hidden, middle.hidden, whole.hidden, 0, m, n);
    crate::tensor::law_narrow_composes(small.positions, middle.positions, whole.positions, 0, m, n);
}

/// The tensors that a capture takes in the list of a state.
pub open spec fn capture_room(capture: Option<SpecCapture>) -> int {
    if capture is Some {
        2
    } else {
        0
    }
}

/// The layers among the first `n` that are undone by a replay.
pub open spec fn replays(layers: Seq<GdnLayerStash>, n: int) -> int
    decreases n,
{
    if n <= 0 {
        0
    } else {
        replays(layers, n - 1) + if layers[n - 1].rollback is Replay {
            1int
        } else {
            0
        }
    }
}

proof fn lemma_layer_tensors_len(layers: Seq<GdnLayerStash>, n: int)
    requires
        0 <= n,
    ensures
        layer_tensors(layers, n).len() == 6 * replays(layers, n),
    decreases n,
{
    if n > 0 {
        lemma_layer_tensors_len(layers, n - 1);
    }
}

proof fn lemma_layer_tensors_at(layers: Seq<GdnLayerStash>, m: int, n: int, j: int)
    requires
        0 <= m <= n,
        0 <= j < layer_tensors(layers, m).len(),
    ensures
        j < layer_tensors(layers, n).len(),
        layer_tensors(layers, n)[j] == layer_tensors(layers, m)[j],
    decreases n,
{
    if m < n {
        lemma_layer_tensors_at(layers, m, n - 1, j);
    }
}

/// The list of a state begins with the hidden states and the positions of the capture that
/// gives logits, and goes on with those of the full capture, as far as there are any.
pub proof fn law_captures_are_listed_first(state: SpecGraphState)
    ensures
        ({
            let list = state_tensors(state);
            let at = capture_room(state.spec_capture);
            &&& state.spec_capture matches Some(capture) ==> {
                &&& list.len() >= 2
                &&& list[0] == capture.hidden && list[1] == capture.positions
            }
            &&& state.full_capture matches Some(capture) ==> {
                &&& list.len() >= at + 2
                &&& list[at] == capture.hidden && list[at + 1] == capture.positions
            }
        }),
{
}

/// Behind the captures come the tensors of the layers that are replayed, six for each:
/// what the layer mixed and convolved, `b`, `a`, and the states before. Nothing else is
/// listed.
pub proof fn law_layers_are_listed_in_order(state: SpecGraphState, i: int)
    requires
        state.gdn_stash is Some,
        0 <= i < state.gdn_stash->0.layers@.len(),
    ensures
        ({
            let list = state_tensors(state);
            let layers = state.gdn_stash->0.layers@;
            let start = capture_room(state.spec_capture) + capture_room(state.full_capture);
            let at = start + 6 * replays(layers, i);
            &&& list.len() == start + 6 * replays(layers, layers.len() as int)
            &&& layers[i].rollback matches GdnLayerRollback::Replay {
                projected,
                conv_state,
                recurrent_state,
            } ==> {
                &&& 0 <= at && at + 6 <= list.len()
                &&& list[at] == projected.mixed_qkv
                &&& list[at + 1] == projected.convolved_qkv
                &&& list[at + 2] == projected.b
                &&& list[at + 3] == projected.a
                &&& list[at + 4] == conv_state
                &&& list[at + 5] == recurrent_state
            }
        }),
{
    let layers = state.gdn_stash->0.layers@;
    let n = layers.len() as int;
    lemma_layer_tensors_len(layers, n);
    lemma_layer_tensors_len(layers, i);
    lemma_layer_tensors_len(layers, i + 1);
    let start = capture_room(state.spec_capture) + capture_room(state.full_capture);
    let at = 6 * replays(layers, i);
    if layers[i].rollback is Replay {
        lemma_layer_tensors_at(layers, i + 1, n, at);
        lemma_layer_tensors_at(layers, i + 1, n, at + 1);
        lemma_layer_tensors_at(layers, i + 1, n, at + 2);
        lemma_layer_tensors_at(layers, i + 1, n, at + 3);
        lemma_layer_tensors_at(layers, i + 1, n, at + 4);
        lemma_layer_tensors_at(layers, i + 1, n, at + 5);
        let list = state_tensors(state);
        let own = layer_tensors(layers, n);
        assert(list[start + at] == own[at]);
        assert(list[start + at + 1] == own[at + 1]);
        assert(list[start + at + 2] == own[at + 2]);
        assert(list[start + at + 3] == own[at + 3]);
        assert(list[start + at + 4] == own[at + 4]);
        assert(list[start + at + 5] == own[at + 5]);
    }
}

/// States that are the same undo their layers alike.
pub proof fn law_same_states_have_same_rollbacks(a: SpecGraphState, b: SpecGraphState, i: int)
    requires
        same_state(a, b),
        a.gdn_stash is Some,
        0 <= i < a.gdn_stash->0.layers@.len(),
    ensures
        b.gdn_stash is Some,
        a.gdn_stash->0.slots@ == b.gdn_stash->0.slots@,
        i < b.gdn_stash->0.layers@.len(),
        a.gdn_stash->0.layers@[i].layer_idx == b.gdn_stash->0.layers@[i].layer_idx,
        a.gdn_stash->0.layers@[i].state_layout.name@
            == b.gdn_stash->0.layers@[i].state_layout.name@,
        a.gdn_stash->0.layers@[i].rollback == b.gdn_stash->0.layers@[i].rollback,
{
    law_layers_are_listed_in_order(a, i);
    law_layers_are_listed_in_order(b, i);
    let (x, y) = (a.gdn_stash->0.layers@, b.gdn_stash->0.layers@);
    assert(same_layer_frame(x[i], y[i]));
    lemma_replays_agree(x, y, i);
}

proof fn lemma_replays_agree(a: Seq<GdnLayerStash>, b: Seq<GdnLayerStash>, n: int)
    requires
        0 <= n <= a.len(),
        a.len() == b.len(),
        forall|i: int| 0 <= i < a.len() ==> same_layer_frame(#[trigger] a[i], b[i]),
    ensures
        replays(a, n) == replays(b, n),
    decreases n,
{
    if n > 0 {
        lemma_replays_agree(a, b, n - 1);
        assert(same_layer_frame(a[n - 1], b[n - 1]));
    }
}

/// A state is narrowed exactly where everything that it holds is.
pub proof fn law_states_are_narrowed(state: SpecGraphState, real_batch: usize)
    ensures
        state_refusal(state, real_batch).message is None <==> {
            &&& state.spec_capture matches Some(capture) ==> capture_refusal(
                capture,
                real_batch,
            ).message is None
            &&& state.full_capture matches Some(capture) ==> capture_refusal(
                capture,
                real_batch,
            ).message is None
            &&& state.gdn_stash matches Some(stash) ==> stash_refusal(
                stash,
                real_batch,
            ).message is None
        },
{
}

/// A narrowed state has what the whole one has, each narrowed from its own.
pub proof fn law_narrowed_states_keep_their_parts(
    part: SpecGraphState,
    whole: SpecGraphState,
    real_batch: usize,
)
    requires
        state_narrowed(part, whole, real_batch),
    ensures
        part.spec_capture is Some <==> whole.spec_capture is Some,
        part.full_capture is Some <==> whole.full_capture is Some,
        part.gdn_stash is Some <==> whole.gdn_stash is Some,
        whole.spec_capture is Some ==> capture_narrowed(
            part.spec_capture->0,
            whole.spec_capture->0,
            real_batch,
        ),
        whole.full_capture is Some ==> capture_narrowed(
            part.full_capture->0,
            whole.full_capture->0,
            real_batch,
        ),
        whole.gdn_stash is Some ==> stash_narrowed(
            part.gdn_stash->0,
            whole.gdn_stash->0,
            real_batch,
        ),
{
}

/// Slots are refreshed exactly where there are enough.
pub proof fn law_slots_are_refreshed(rows: nat, live: nat)
    ensures
        refresh_refusal(rows, live).message is None <==> live >= rows,
{
}

} // verus!
