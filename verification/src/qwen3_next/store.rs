//! What a model keeps of its last forward pass, for speculative decoding.
use candle_core::Tensor;
use vstd::prelude::*;

use crate::qwen3_next::graph_state::{
    law_own_tensors_give_the_state_back, law_same_states_have_same_captures,
    refresh_gdn_stash_slots, refresh_refusal,
    same_layer_frame, same_state, state_tensors,
};
use crate::qwen3_next::packed::RecurrentBatchKind;
use crate::qwen3_next::spec_graph::{GdnReplayStash, SpecCapture, SpecGraphState};
use crate::tensor::clone_tensor;
use crate::text::{Fault, Refusal};

verus! {

/// The captures and the stash of the last pass. Nothing is captured unless
/// `store` is set.
pub struct SpecStore {
    pub store: bool,
    pub state: SpecGraphState,
}

pub open spec fn is_empty_state(state: SpecGraphState) -> bool {
    state.spec_capture is None && state.full_capture is None && state.gdn_stash is None
}

/// Whether a capture holds the hidden states and their positions.
pub open spec fn captures(capture: Option<SpecCapture>, hidden: Tensor, positions: Tensor) -> bool {
    capture == Some(SpecCapture { hidden, positions })
}

/// The stash that is kept after one is recorded.
pub open spec fn stash_after(store: SpecStore, stash: Option<GdnReplayStash>) -> Option<
    GdnReplayStash,
> {
    if store.store {
        stash
    } else {
        store.state.gdn_stash
    }
}

/// The full capture that is kept after a pass.
pub open spec fn full_capture_after(
    store: SpecStore,
    hidden: Tensor,
    positions: Tensor,
    batch_kind: Option<RecurrentBatchKind>,
) -> Option<SpecCapture> {
    if !store.store {
        store.state.full_capture
    } else if batch_kind == Some(RecurrentBatchKind::Prefill) {
        Some(SpecCapture { hidden, positions })
    } else {
        None
    }
}

/// The capture of what gives logits that is kept after a pass.
pub open spec fn spec_capture_after(
    store: SpecStore,
    hidden: Tensor,
    positions: Tensor,
) -> Option<SpecCapture> {
    if store.store {
        Some(SpecCapture { hidden, positions })
    } else {
        store.state.spec_capture
    }
}

/// The slots that a stash of `slots` has once it is installed: those of the live
/// batch, where there is one.
pub open spec fn live_slots_of(slots: Seq<u32>, live: Option<Seq<u32>>) -> Seq<u32> {
    match live {
        Some(live) => live.take(slots.len() as int),
        None => slots,
    }
}

/// Whether `now` is `state` with the slots of the live batch.
pub open spec fn is_installed(
    now: SpecGraphState,
    state: SpecGraphState,
    live: Option<Seq<u32>>,
) -> bool {
    &&& now.spec_capture == state.spec_capture
    &&& now.full_capture == state.full_capture
    &&& state_tensors(now) == state_tensors(state)
    &&& match (now.gdn_stash, state.gdn_stash) {
        (Some(a), Some(b)) => {
            &&& a.slots@ == live_slots_of(b.slots@, live)
            &&& a.layers@.len() == b.layers@.len()
            &&& forall|i: int|
                0 <= i < a.layers@.len() ==> same_layer_frame(#[trigger] a.layers@[i], b.layers@[i])
        },
        (None, None) => true,
        _ => false,
    }
}

/// The refusal of a state with more rows than the live batch has slots.
pub open spec fn install_refusal(state: SpecGraphState, live: Option<Seq<u32>>) -> Refusal {
    match (state.gdn_stash, live) {
        (Some(stash), Some(live)) => refresh_refusal(stash.slots@.len(), live.len()),
        _ => Refusal::none(),
    }
}

pub open spec fn live_seq(live: Option<&[u32]>) -> Option<Seq<u32>> {
    match live {
        Some(live) => Some(live@),
        None => None,
    }
}

fn copy_capture(capture: &Option<SpecCapture>) -> (copy: Option<SpecCapture>)
    ensures
        copy == *capture,
{
    match capture {
        Some(capture) => Some(
            SpecCapture {
                hidden: clone_tensor(&capture.hidden),
                positions: clone_tensor(&capture.positions),
            },
        ),
        None => None,
    }
}

fn copy_state(state: &SpecGraphState) -> (copy: SpecGraphState)
    ensures
        same_state(copy, *state),
        copy.spec_capture == state.spec_capture,
        copy.full_capture == state.full_capture,
{
    let tensors: Vec<Tensor> = state.tensors();
    match state.with_tensors(&tensors) {
        Ok(copy) => {
            proof {
                law_own_tensors_give_the_state_back(*state, tensors@, copy);
                law_same_states_have_same_captures(copy, *state);
            }
            copy
        },
        Err(_) => {
            assert(false);
            SpecGraphState { spec_capture: None, full_capture: None, gdn_stash: None }
        },
    }
}

impl SpecStore {
    /// A store that keeps nothing.
    pub fn new() -> (store: SpecStore)
        ensures
            !store.store,
            is_empty_state(store.state),
    {
        SpecStore {
            store: false,
            state: SpecGraphState { spec_capture: None, full_capture: None, gdn_stash: None },
        }
    }

    /// Sets whether passes are captured. Where they are not, nothing stays.
    pub fn set_store_spec_hidden(&mut self, store: bool)
        ensures
            final(self).store == store,
            if store {
                final(self).state == old(self).state
            } else {
                is_empty_state(final(self).state)
            },
    {
        self.store = store;
        if !store {
            self.state =
            SpecGraphState { spec_capture: None, full_capture: None, gdn_stash: None };
        }
    }

    /// Keeps the stash of a pass, or that it has none.
    pub fn record_stash(&mut self, stash: Option<GdnReplayStash>)
        ensures
            final(self).store == old(self).store,
            final(self).state.spec_capture == old(self).state.spec_capture,
            final(self).state.full_capture == old(self).state.full_capture,
            final(self).state.gdn_stash == if old(self).store {
                stash
            } else {
                old(self).state.gdn_stash
            },
            final(self).state.gdn_stash == stash_after(*old(self), stash),
    {
        if self.store {
            self.state.gdn_stash = stash;
        }
    }

    /// Keeps all hidden states of a prefill pass, and that any other has none.
    pub fn record_full_capture(
        &mut self,
        hidden: &Tensor,
        positions: &Tensor,
        batch_kind: Option<RecurrentBatchKind>,
    )
        ensures
            final(self).store == old(self).store,
            final(self).state.spec_capture == old(self).state.spec_capture,
            final(self).state.gdn_stash == old(self).state.gdn_stash,
            if !old(self).store {
                final(self).state.full_capture == old(self).state.full_capture
            } else if batch_kind == Some(RecurrentBatchKind::Prefill) {
                captures(final(self).state.full_capture, *hidden, *positions)
            } else {
                final(self).state.full_capture is None
            },
            final(self).state.full_capture == full_capture_after(
                *old(self),
                *hidden,
                *positions,
                batch_kind,
            ),
    {
        if self.store {
            self.state.full_capture =
            if batch_kind == Some(RecurrentBatchKind::Prefill) {
                Some(
                    SpecCapture { hidden: clone_tensor(hidden), positions: clone_tensor(positions) },
                )
            } else {
                None
            };
        }
    }

    /// Keeps the hidden states that give logits.
    pub fn record_spec_capture(&mut self, hidden: &Tensor, positions: &Tensor)
        ensures
            final(self).store == old(self).store,
            final(self).state.full_capture == old(self).state.full_capture,
            final(self).state.gdn_stash == old(self).state.gdn_stash,
            if old(self).store {
                captures(final(self).state.spec_capture, *hidden, *positions)
            } else {
                final(self).state.spec_capture == old(self).state.spec_capture
            },
            final(self).state.spec_capture == spec_capture_after(*old(self), *hidden, *positions),
    {
        if self.store {
            self.state.spec_capture = Some(
                SpecCapture { hidden: clone_tensor(hidden), positions: clone_tensor(positions) },
            );
        }
    }

    /// Drops the stash.
    pub fn clear_gdn_replay_stash(&mut self)
        ensures
            final(self).store == old(self).store,
            final(self).state.spec_capture == old(self).state.spec_capture,
            final(self).state.full_capture == old(self).state.full_capture,
            final(self).state.gdn_stash is None,
    {
        self.state.gdn_stash = None;
    }

    pub fn last_spec_capture(&self) -> (capture: Option<SpecCapture>)
        ensures
            capture == self.state.spec_capture,
    {
        copy_capture(&self.state.spec_capture)
    }

    pub fn last_full_capture(&self) -> (capture: Option<SpecCapture>)
        ensures
            capture == self.state.full_capture,
    {
        copy_capture(&self.state.full_capture)
    }

    /// Takes out what was kept, where passes are captured.
    pub fn take_spec_graph_state(&mut self) -> (state: Option<SpecGraphState>)
        ensures
            final(self).store == old(self).store,
            if old(self).store {
                state == Some(old(self).state) && is_empty_state(final(self).state)
            } else {
                state is None && final(self).state == old(self).state
            },
    {
        if !self.store {
            return None;
        }
        let mut state: SpecGraphState = SpecGraphState {
            spec_capture: None,
            full_capture: None,
            gdn_stash: None,
        };
        std::mem::swap(&mut state, &mut self.state);
        Some(state)
    }

    /// Puts a copy of a state in, with the slots of the live batch, where it has
    /// any.
    pub fn install_spec_graph_state(&mut self, state: &SpecGraphState, live: Option<&[u32]>) -> (r:
        Result<(), Fault>)
        ensures
            final(self).store == old(self).store,
            match r {
                Ok(()) => install_refusal(*state, live_seq(live)).message is None && is_installed(
                    final(self).state,
                    *state,
                    live_seq(live),
                ),
                Err(fault) => install_refusal(*state, live_seq(live)).message == Some(fault@)
                    && final(self).state == old(self).state,
            },
    {
        let copy: SpecGraphState = copy_state(state);
        let gdn_stash: Option<GdnReplayStash> = match copy.gdn_stash {
            Some(stash) => {
                let mut stash: GdnReplayStash = stash;
                if let Some(live) = live {
                    refresh_gdn_stash_slots(&mut stash, live)?;
                }
                Some(stash)
            },
            None => None,
        };
        self.state =
        SpecGraphState {
            spec_capture: copy.spec_capture,
            full_capture: copy.full_capture,
            gdn_stash,
        };
        Ok(())
    }
}

/// A state that is put in without a live batch is the state itself.
pub proof fn law_installed_state_is_the_same(now: SpecGraphState, state: SpecGraphState)
    requires
        is_installed(now, state, None),
    ensures
        same_state(now, state),
        install_refusal(state, None).message is None,
{
}

/// A state that is put in has its captures and its layers, and the slots of the live batch
/// in order, where there is one. It is refused exactly where the live batch has fewer
/// slots than it.
pub proof fn law_installed_states_have_live_slots(
    now: SpecGraphState,
    state: SpecGraphState,
    live: Option<Seq<u32>>,
    k: int,
)
    requires
        is_installed(now, state, live),
        install_refusal(state, live).message is None,
    ensures
        now.spec_capture == state.spec_capture,
        now.full_capture == state.full_capture,
        now.gdn_stash is Some <==> state.gdn_stash is Some,
        state.gdn_stash matches Some(stash) ==> {
            &&& now.gdn_stash->0.slots@.len() == stash.slots@.len()
            &&& now.gdn_stash->0.layers@.len() == stash.layers@.len()
            &&& 0 <= k < stash.slots@.len() ==> now.gdn_stash->0.slots@[k] == match live {
                Some(live) => live[k],
                None => stash.slots@[k],
            }
        },
{
}

/// A state is refused exactly where it has more rows than there are live slots.
pub proof fn law_states_are_installed(state: SpecGraphState, live: Option<Seq<u32>>)
    ensures
        install_refusal(state, live).message is Some <==> state.gdn_stash is Some && live is Some
            && state.gdn_stash->0.slots@.len() > live->0.len(),
{
}

/// What a capture holds can be told from it.
pub proof fn law_captures_hold_their_own(
    capture: Option<SpecCapture>,
    hidden: Tensor,
    positions: Tensor,
)
    requires
        captures(capture, hidden, positions),
    ensures
        capture is Some,
        capture->0.hidden == hidden,
        capture->0.positions == positions,
{
}

/// A store without anything has no tensor.
pub proof fn law_empty_states_hold_nothing(state: SpecGraphState)
    requires
        is_empty_state(state),
    ensures
        state_tensors(state).len() == 0,
{
}

/// A pass is recorded only where passes are captured. Then what gives logits is kept with
/// its positions, all of a pass where it is a prefill and nothing of it where it is not,
/// and its stash in place of the last.
pub proof fn law_passes_are_recorded(
    store: SpecStore,
    hidden: Tensor,
    positions: Tensor,
    batch_kind: Option<RecurrentBatchKind>,
    stash: Option<GdnReplayStash>,
)
    ensures
        !store.store ==> {
            &&& stash_after(store, stash) == store.state.gdn_stash
            &&& spec_capture_after(store, hidden, positions) == store.state.spec_capture
            &&& full_capture_after(store, hidden, positions, batch_kind)
                == store.state.full_capture
        },
        store.store ==> {
            &&& stash_after(store, stash) == stash
            &&& captures(spec_capture_after(store, hidden, positions), hidden, positions)
            &&& full_capture_after(store, hidden, positions, batch_kind) is Some <==> batch_kind
                == Some(RecurrentBatchKind::Prefill)
            &&& full_capture_after(store, hidden, positions, batch_kind) is Some ==> captures(
                full_capture_after(store, hidden, positions, batch_kind),
                hidden,
                positions,
            )
        },
{
}

} // verus!
