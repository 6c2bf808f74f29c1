//! What a captured speculative step leaves behind: hidden states, positions, and
//! what it takes to replay the recurrent layers.
use candle_core::Tensor;
use vstd::prelude::*;
use vstd::string::*;

use crate::tensor::{
    clone_tensor, dims_of, in_shape, is_narrowed, narrow, narrowed_dims, tensor_cell, tensor_dims,
    tensor_fault, tensor_u32,
};
use crate::text::{bracketed, bracketed_text, dec, decimal, Fault, Refusal};

verus! {

/// Hidden states and their positions, one row for each sequence.
pub struct SpecCapture {
    pub hidden: Tensor,
    pub positions: Tensor,
}

/// The layout of a recurrent state, by its name.
#[derive(Debug)]
pub struct StateLayout {
    pub name: String,
}

/// The projections that a linear-attention layer made.
pub struct GdnForwardStash {
    pub mixed_qkv: Tensor,
    pub convolved_qkv: Tensor,
    pub b: Tensor,
    pub a: Tensor,
}

/// What it takes to undo a layer: its projections and the states before them, or
/// a log of transitions that is held elsewhere and known by a number.
pub enum GdnLayerRollback {
    Replay { projected: GdnForwardStash, conv_state: Tensor, recurrent_state: Tensor },
    Transition(usize),
}

pub struct GdnLayerStash {
    pub layer_idx: usize,
    pub state_layout: StateLayout,
    pub rollback: GdnLayerRollback,
}

/// The recurrent slots of a batch, and what it takes to undo each layer.
pub struct GdnReplayStash {
    pub slots: Vec<u32>,
    pub layers: Vec<GdnLayerStash>,
}

pub struct SpecGraphState {
    pub spec_capture: Option<SpecCapture>,
    pub full_capture: Option<SpecCapture>,
    pub gdn_stash: Option<GdnReplayStash>,
}

// Narrowing to the sequences that are really there.

/// The refusal of a tensor whose batch is not the one that was captured.
pub open spec fn batch_check(
    dims: Seq<usize>,
    batch_dim: usize,
    captured: usize,
    name: Seq<char>,
) -> Result<(), Seq<char>> {
    if batch_dim >= dims.len() {
        Err(
            "dim: dimension index "@ + dec(batch_dim as nat) + " out of range for shape "@
                + bracketed(dims),
        )
    } else if dims[batch_dim as int] != captured {
        Err(
            "speculative graph "@ + name + " has batch "@ + dec(dims[batch_dim as int] as nat)
                + ", expected "@ + dec(captured as nat),
        )
    } else {
        Ok(())
    }
}

proof fn lemma_same_is_narrowed(whole: Tensor, dim: int)
    requires
        0 <= dim < tensor_dims(whole).len(),
    ensures
        is_narrowed(whole, whole, dim, 0, tensor_dims(whole)[dim]),
{
    assert(tensor_dims(whole) =~= narrowed_dims(tensor_dims(whole), dim, tensor_dims(whole)[dim]));
    assert forall|index: Seq<int>| in_shape(index, tensor_dims(whole)) implies #[trigger] tensor_cell(
        whole,
        index,
    ) == tensor_cell(whole, index.update(dim, index[dim] + 0)) by {
        assert(index.update(dim, index[dim] + 0) =~= index);
    }
    assert forall|index: Seq<int>| in_shape(index, tensor_dims(whole)) implies #[trigger] tensor_u32(
        whole,
        index,
    ) == tensor_u32(whole, index.update(dim, index[dim] + 0)) by {
        assert(index.update(dim, index[dim] + 0) =~= index);
    }
}

/// The first `real_batch` rows of a captured tensor.
pub fn narrow_spec_graph_tensor(
    tensor: &Tensor,
    batch_dim: usize,
    captured_batch: usize,
    real_batch: usize,
    name: &str,
) -> (part: Result<Tensor, Fault>)
    requires
        batch_dim <= i32::MAX,
    ensures
        match part {
            Ok(part) => {
                &&& batch_check(tensor_dims(*tensor), batch_dim, captured_batch, name@) is Ok
                &&& real_batch <= captured_batch
                &&& is_narrowed(part, *tensor, batch_dim as int, 0, real_batch)
                &&& real_batch == captured_batch ==> part == *tensor
            },
            Err(fault) => match batch_check(
                tensor_dims(*tensor),
                batch_dim,
                captured_batch,
                name@,
            ) {
                Ok(()) => real_batch > captured_batch,
                Err(message) => fault@ == message,
            },
        },
{
    let dims: Vec<usize> = dims_of(tensor);
    if batch_dim >= dims.len() {
        return Err(
            Fault::new(
                String::from_str("dim: dimension index ").concat(
                    decimal(batch_dim as u64).as_str(),
                ).concat(" out of range for shape ").concat(
                    bracketed_text(dims.as_slice()).as_str(),
                ),
            ),
        );
    }
    let tensor_batch: usize = dims[batch_dim];
    if tensor_batch != captured_batch {
        return Err(
            Fault::new(
                String::from_str("speculative graph ").concat(name).concat(" has batch ").concat(
                    decimal(tensor_batch as u64).as_str(),
                ).concat(", expected ").concat(decimal(captured_batch as u64).as_str()),
            ),
        );
    }
    if real_batch == captured_batch {
        let part: Tensor = clone_tensor(tensor);
        proof {
            lemma_same_is_narrowed(*tensor, batch_dim as int);
        }
        Ok(part)
    } else {
        match narrow(tensor, batch_dim, 0, real_batch) {
            Ok(part) => Ok(part),
            Err(error) => Err(tensor_fault(error)),
        }
    }
}

pub open spec fn capture_refusal(capture: SpecCapture, real_batch: usize) -> Refusal {
    let dims = tensor_dims(capture.hidden);
    Refusal::none().unless(
        dims.len() > 0,
        "dim: dimension index 0 out of range for shape []"@,
    ).unless(
        real_batch <= dims[0],
        "speculative graph batch "@ + dec(real_batch as nat) + " exceeds captured batch "@ + dec(
            dims[0] as nat,
        ),
    ).or(batch_check(tensor_dims(capture.positions), 0, dims[0], "positions"@))
}

/// Whether a tensor is the first rows of another, which is that tensor itself where
/// it has no more.
pub open spec fn is_first_rows(part: Tensor, whole: Tensor, rows: usize) -> bool {
    &&& is_narrowed(part, whole, 0, 0, rows)
    &&& rows == tensor_dims(whole)[0] ==> part == whole
}

/// Whether a capture is the first `real_batch` rows of another.
pub open spec fn capture_narrowed(part: SpecCapture, whole: SpecCapture, real_batch: usize) -> bool {
    &&& is_first_rows(part.hidden, whole.hidden, real_batch)
    &&& is_first_rows(part.positions, whole.positions, real_batch)
}

/// The first `real_batch` rows of a capture.
pub fn narrow_spec_capture(capture: &SpecCapture, real_batch: usize) -> (part: Result<
    SpecCapture,
    Fault,
>)
    ensures
        match part {
            Ok(part) => {
                &&& capture_refusal(*capture, real_batch).message is None
                &&& capture_narrowed(part, *capture, real_batch)
            },
            Err(fault) => capture_refusal(*capture, real_batch).message == Some(fault@),
        },
{
    let dims: Vec<usize> = dims_of(&capture.hidden);
    if dims.len() == 0 {
        return Err(Fault::of("dim: dimension index 0 out of range for shape []"));
    }
    let captured_batch: usize = dims[0];
    if real_batch > captured_batch {
        return Err(
            Fault::new(
                String::from_str("speculative graph batch ").concat(
                    decimal(real_batch as u64).as_str(),
                ).concat(" exceeds captured batch ").concat(
                    decimal(captured_batch as u64).as_str(),
                ),
            ),
        );
    }
    let hidden: Tensor = narrow_spec_graph_tensor(
        &capture.hidden,
        0,
        captured_batch,
        real_batch,
        "hidden state",
    )?;
    let positions: Tensor = narrow_spec_graph_tensor(
        &capture.positions,
        0,
        captured_batch,
        real_batch,
        "positions",
    )?;
    Ok(SpecCapture { hidden, positions })
}

/// What is refused of one layer of a stash.
pub open spec fn layer_refusal(so_far: Refusal, layer: GdnLayerStash, captured: usize) -> Refusal {
    match layer.rollback {
        GdnLayerRollback::Replay { projected, conv_state, recurrent_state } => so_far.or(
            batch_check(tensor_dims(projected.mixed_qkv), 0, captured, "mixed_qkv"@),
        ).or(batch_check(tensor_dims(projected.convolved_qkv), 0, captured, "convolved_qkv"@)).or(
            batch_check(tensor_dims(projected.b), 0, captured, "b"@),
        ).or(batch_check(tensor_dims(projected.a), 0, captured, "a"@)).or(
            batch_check(tensor_dims(conv_state), 0, captured, "conv_state"@),
        ).or(batch_check(tensor_dims(recurrent_state), 0, captured, "recurrent_state"@)),
        GdnLayerRollback::Transition(_) => so_far,
    }
}

/// What is refused of the first `n` layers of a stash.
pub open spec fn layers_refusal(
    so_far: Refusal,
    layers: Seq<GdnLayerStash>,
    captured: usize,
    n: int,
) -> Refusal
    decreases n,
{
    if n <= 0 {
        so_far
    } else {
        layer_refusal(layers_refusal(so_far, layers, captured, n - 1), layers[n - 1], captured)
    }
}

pub open spec fn stash_refusal(stash: GdnReplayStash, real_batch: usize) -> Refusal {
    let captured = stash.slots@.len() as usize;
    let size = Refusal::none().unless(
        real_batch <= captured,
        "GDN replay batch "@ + dec(real_batch as nat) + " exceeds captured batch "@ + dec(
            captured as nat,
        ),
    );
    layers_refusal(size, stash.layers@, captured, stash.layers@.len() as int)
}

pub open spec fn rollback_narrowed(
    part: GdnLayerRollback,
    whole: GdnLayerRollback,
    real_batch: usize,
) -> bool {
    match (part, whole) {
        (
            GdnLayerRollback::Replay { projected: p, conv_state: pc, recurrent_state: pr },
            GdnLayerRollback::Replay { projected: w, conv_state: wc, recurrent_state: wr },
        ) => {
            &&& is_first_rows(p.mixed_qkv, w.mixed_qkv, real_batch)
            &&& is_first_rows(p.convolved_qkv, w.convolved_qkv, real_batch)
            &&& is_first_rows(p.b, w.b, real_batch)
            &&& is_first_rows(p.a, w.a, real_batch)
            &&& is_first_rows(pc, wc, real_batch)
            &&& is_first_rows(pr, wr, real_batch)
        },
        (GdnLayerRollback::Transition(p), GdnLayerRollback::Transition(w)) => p == w,
        _ => false,
    }
}

pub open spec fn layer_narrowed(part: GdnLayerStash, whole: GdnLayerStash, real_batch: usize) -> bool {
    &&& part.layer_idx == whole.layer_idx
    &&& part.state_layout.name@ == whole.state_layout.name@
    &&& rollback_narrowed(part.rollback, whole.rollback, real_batch)
}

/// Whether a stash is that of the first `real_batch` sequences of another. Logs
/// of transitions stay whole.
pub open spec fn stash_narrowed(
    part: GdnReplayStash,
    whole: GdnReplayStash,
    real_batch: usize,
) -> bool {
    &&& part.slots@ == whole.slots@.take(real_batch as int)
    &&& part.layers@.len() == whole.layers@.len()
    &&& forall|i: int|
        0 <= i < whole.layers@.len() ==> layer_narrowed(
            #[trigger] part.layers@[i],
            whole.layers@[i],
            real_batch,
        )
}

pub(crate) fn clone_layout(layout: &StateLayout) -> (copy: StateLayout)
    ensures
        copy.name@ == layout.name@,
{
    StateLayout { name: String::from_str(layout.name.as_str()) }
}

fn narrow_layer(layer: &GdnLayerStash, captured: usize, real_batch: usize) -> (part: Result<
    GdnLayerStash,
    Fault,
>)
    requires
        real_batch <= captured,
    ensures
        match part {
            Ok(part) => {
                &&& layer_refusal(Refusal::none(), *layer, captured).message is None
                &&& layer_narrowed(part, *layer, real_batch)
            },
            Err(fault) => layer_refusal(Refusal::none(), *layer, captured).message == Some(fault@),
        },
{
    let rollback: GdnLayerRollback = match &layer.rollback {
        GdnLayerRollback::Replay { projected, conv_state, recurrent_state } => {
            let mixed_qkv: Tensor = narrow_spec_graph_tensor(
                &projected.mixed_qkv,
                0,
                captured,
                real_batch,
                "mixed_qkv",
            )?;
            let convolved_qkv: Tensor = narrow_spec_graph_tensor(
                &projected.convolved_qkv,
                0,
                captured,
                real_batch,
                "convolved_qkv",
            )?;
            let b: Tensor = narrow_spec_graph_tensor(&projected.b, 0, captured, real_batch, "b")?;
            let a: Tensor = narrow_spec_graph_tensor(&projected.a, 0, captured, real_batch, "a")?;
            let conv: Tensor = narrow_spec_graph_tensor(
                conv_state,
                0,
                captured,
                real_batch,
                "conv_state",
            )?;
            let recurrent: Tensor = narrow_spec_graph_tensor(
                recurrent_state,
                0,
                captured,
                real_batch,
                "recurrent_state",
            )?;
            GdnLayerRollback::Replay {
                projected: GdnForwardStash { mixed_qkv, convolved_qkv, b, a },
                conv_state: conv,
                recurrent_state: recurrent,
            }
        },
        GdnLayerRollback::Transition(log) => GdnLayerRollback::Transition(*log),
    };
    Ok(
        GdnLayerStash {
            layer_idx: layer.layer_idx,
            state_layout: clone_layout(&layer.state_layout),
            rollback,
        },
    )
}

proof fn lemma_layers_refuse(
    so_far: Refusal,
    layers: Seq<GdnLayerStash>,
    captured: usize,
    m: int,
    n: int,
)
    requires
        0 <= m <= n,
        layers_refusal(so_far, layers, captured, m).message is Some,
    ensures
        layers_refusal(so_far, layers, captured, n) == layers_refusal(so_far, layers, captured, m),
    decreases n,
{
    if m < n {
        lemma_layers_refuse(so_far, layers, captured, m, n - 1);
    }
}

/// The stash of the first `real_batch` sequences.
pub fn narrow_gdn_replay_stash(stash: &GdnReplayStash, real_batch: usize) -> (part: Result<
    GdnReplayStash,
    Fault,
>)
    ensures
        match part {
            Ok(part) => {
                &&& stash_refusal(*stash, real_batch).message is None
                &&& stash_narrowed(part, *stash, real_batch)
            },
            Err(fault) => stash_refusal(*stash, real_batch).message == Some(fault@),
        },
{
    let captured: usize = stash.slots.len();
    let ghost total = stash.layers@.len() as int;
    if real_batch > captured {
        proof {
            lemma_layers_refuse(
                Refusal::none().unless(
                    false,
                    "GDN replay batch "@ + dec(real_batch as nat) + " exceeds captured batch "@
                        + dec(captured as nat),
                ),
                stash.layers@,
                captured,
                0,
                total,
            );
        }
        return Err(
            Fault::new(
                String::from_str("GDN replay batch ").concat(
                    decimal(real_batch as u64).as_str(),
                ).concat(" exceeds captured batch ").concat(decimal(captured as u64).as_str()),
            ),
        );
    }
    let mut layers: Vec<GdnLayerStash> = Vec::new();
    let mut i: usize = 0;
    while i < stash.layers.len()
        invariant
            i <= stash.layers@.len(),
            total == stash.layers@.len(),
            real_batch <= captured,
            captured == stash.slots@.len(),
            layers_refusal(Refusal::none(), stash.layers@, captured, i as int).message is None,
            layers@.len() == i,
            forall|k: int|
                0 <= k < i ==> layer_narrowed(
                    #[trigger] layers@[k],
                    stash.layers@[k],
                    real_batch,
                ),
        decreases stash.layers@.len() - i,
    {
        match narrow_layer(&stash.layers[i], captured, real_batch) {
            Ok(layer) => {
                layers.push(layer);
            },
            Err(fault) => {
                proof {
                    lemma_layers_refuse(Refusal::none(), stash.layers@, captured, i + 1, total);
                }
                return Err(fault);
            },
        }
        i = i + 1;
    }
    let mut slots: Vec<u32> = Vec::new();
    let mut k: usize = 0;
    while k < real_batch
        invariant
            k <= real_batch <= stash.slots@.len(),
            slots@ == stash.slots@.take(k as int),
        decreases real_batch - k,
    {
        slots.push(stash.slots[k]);
        k = k + 1;
        assert(slots@ =~= stash.slots@.take(k as int));
    }
    Ok(GdnReplayStash { slots, layers })
}

// Laws.

/// Whether a tensor has a row for each sequence of a captured batch.
pub open spec fn has_batch(tensor: Tensor, captured: usize) -> bool {
    tensor_dims(tensor).len() > 0 && tensor_dims(tensor)[0] == captured
}

/// Whether all that it takes to undo a layer has a row for each sequence.
pub open spec fn layer_has_batch(layer: GdnLayerStash, captured: usize) -> bool {
    match layer.rollback {
        GdnLayerRollback::Replay { projected, conv_state, recurrent_state } => {
            &&& has_batch(projected.mixed_qkv, captured)
            &&& has_batch(projected.convolved_qkv, captured)
            &&& has_batch(projected.b, captured)
            &&& has_batch(projected.a, captured)
            &&& has_batch(conv_state, captured)
            &&& has_batch(recurrent_state, captured)
        },
        GdnLayerRollback::Transition(_) => true,
    }
}

/// A tensor is narrowed exactly where it has the dimension and as many entries in it as
/// were captured.
pub proof fn law_batches_are_checked(
    dims: Seq<usize>,
    batch_dim: usize,
    captured: usize,
    name: Seq<char>,
)
    ensures
        batch_check(dims, batch_dim, captured, name) is Ok <==> batch_dim < dims.len()
            && dims[batch_dim as int] == captured,
{
}

/// A capture is narrowed exactly where hidden states and positions have a row for each
/// sequence that was captured, and no more sequences are asked for.
pub proof fn law_captures_are_narrowed(capture: SpecCapture, real_batch: usize)
    ensures
        capture_refusal(capture, real_batch).message is None <==> {
            let captured = tensor_dims(capture.hidden)[0];
            &&& has_batch(capture.hidden, captured)
            &&& has_batch(capture.positions, captured)
            &&& real_batch <= captured
        },
{
}

proof fn lemma_layers_have_batches(
    so_far: Refusal,
    layers: Seq<GdnLayerStash>,
    captured: usize,
    n: int,
)
    requires
        0 <= n <= layers.len(),
    ensures
        layers_refusal(so_far, layers, captured, n).message is None <==> so_far.message is None
            && forall|i: int| 0 <= i < n ==> layer_has_batch(#[trigger] layers[i], captured),
    decreases n,
{
    if n > 0 {
        lemma_layers_have_batches(so_far, layers, captured, n - 1);
        let before = layers_refusal(so_far, layers, captured, n - 1);
        assert(layer_refusal(before, layers[n - 1], captured).message is None
            <==> before.message is None && layer_has_batch(layers[n - 1], captured));
    }
}

/// A stash is narrowed exactly where every layer has a row for each of its slots, and no
/// more sequences are asked for than it has slots.
pub proof fn law_stashes_are_narrowed(stash: GdnReplayStash, real_batch: usize)
    requires
        stash.slots@.len() <= usize::MAX,
    ensures
        stash_refusal(stash, real_batch).message is None <==> real_batch <= stash.slots@.len()
            && forall|i: int|
            0 <= i < stash.layers@.len() ==> layer_has_batch(
                #[trigger] stash.layers@[i],
                stash.slots@.len() as usize,
            ),
{
    let captured = stash.slots@.len() as usize;
    let size = Refusal::none().unless(
        real_batch <= captured,
        "GDN replay batch "@ + dec(real_batch as nat) + " exceeds captured batch "@ + dec(
            captured as nat,
        ),
    );
    lemma_layers_have_batches(size, stash.layers@, captured, stash.layers@.len() as int);
}

/// Whether a tensor holds the rows of another, up to a number of them.
pub open spec fn holds_rows(part: Tensor, whole: Tensor, rows: usize) -> bool {
    &&& tensor_dims(part).len() == tensor_dims(whole).len()
    &&& tensor_dims(part)[0] == rows
    &&& forall|i: int|
        0 < i < tensor_dims(whole).len() ==> #[trigger] tensor_dims(part)[i] == tensor_dims(
            whole,
        )[i]
    &&& forall|index: Seq<int>|
        in_shape(index, tensor_dims(whole)) && index[0] < rows ==> #[trigger] tensor_cell(
            part,
            index,
        ) == tensor_cell(whole, index)
}

/// The first rows of a tensor are rows that it holds in the same places.
pub proof fn law_first_rows_stay(part: Tensor, whole: Tensor, rows: usize)
    requires
        is_first_rows(part, whole, rows),
        tensor_dims(whole).len() > 0,
        rows <= tensor_dims(whole)[0],
    ensures
        holds_rows(part, whole, rows),
{
    assert forall|index: Seq<int>|
        in_shape(index, tensor_dims(whole)) && index[0] < rows implies #[trigger] tensor_cell(
        part,
        index,
    ) == tensor_cell(whole, index) by {
        assert forall|i: int| 0 <= i < tensor_dims(part).len() implies 0 <= #[trigger] index[i]
            < tensor_dims(part)[i] by {
            if i > 0 {
                assert(0 <= index[i] < tensor_dims(whole)[i]);
            }
        }
        assert(in_shape(index, tensor_dims(part)));
        assert(index.update(0, index[0] + 0) =~= index);
    }
}

/// A narrowed capture holds the first rows of its hidden states as hidden states, and of
/// its positions as positions.
pub proof fn law_narrowed_captures_hold_their_rows(
    part: SpecCapture,
    whole: SpecCapture,
    real_batch: usize,
)
    requires
        capture_refusal(whole, real_batch).message is None,
        capture_narrowed(part, whole, real_batch),
    ensures
        holds_rows(part.hidden, whole.hidden, real_batch),
        holds_rows(part.positions, whole.positions, real_batch),
{
    law_first_rows_stay(part.hidden, whole.hidden, real_batch);
    law_first_rows_stay(part.positions, whole.positions, real_batch);
}

/// A narrowed stash keeps its first slots in order and its layers, each with the first
/// rows of its own tensors, or with its log.
pub proof fn law_narrowed_stashes_hold_their_rows(
    part: GdnReplayStash,
    whole: GdnReplayStash,
    real_batch: usize,
    i: int,
    k: int,
)
    requires
        whole.slots@.len() <= usize::MAX,
        stash_refusal(whole, real_batch).message is None,
        stash_narrowed(part, whole, real_batch),
        0 <= i < whole.layers@.len(),
        0 <= k < real_batch,
    ensures
        part.slots@.len() == real_batch,
        part.slots@[k] == whole.slots@[k],
        part.layers@.len() == whole.layers@.len(),
        part.layers@[i].layer_idx == whole.layers@[i].layer_idx,
        part.layers@[i].state_layout.name@ == whole.layers@[i].state_layout.name@,
        whole.layers@[i].rollback matches GdnLayerRollback::Replay {
            projected: w,
            conv_state: wc,
            recurrent_state: wr,
        } ==> (part.layers@[i].rollback matches GdnLayerRollback::Replay {
            projected: p,
            conv_state: pc,
            recurrent_state: pr,
        } && {
            &&& holds_rows(p.mixed_qkv, w.mixed_qkv, real_batch)
            &&& holds_rows(p.convolved_qkv, w.convolved_qkv, real_batch)
            &&& holds_rows(p.b, w.b, real_batch)
            &&& holds_rows(p.a, w.a, real_batch)
            &&& holds_rows(pc, wc, real_batch)
            &&& holds_rows(pr, wr, real_batch)
        }),
        whole.layers@[i].rollback is Transition ==> part.layers@[i].rollback
            == whole.layers@[i].rollback,
{
    law_stashes_are_narrowed(whole, real_batch);
    assert(layer_narrowed(part.layers@[i], whole.layers@[i], real_batch));
    assert(layer_has_batch(whole.layers@[i], whole.slots@.len() as usize));
    match (part.layers@[i].rollback, whole.layers@[i].rollback) {
        (
            GdnLayerRollback::Replay { projected: p, conv_state: pc, recurrent_state: pr },
            GdnLayerRollback::Replay { projected: w, conv_state: wc, recurrent_state: wr },
        ) => {
            law_first_rows_stay(p.mixed_qkv, w.mixed_qkv, real_batch);
            law_first_rows_stay(p.convolved_qkv, w.convolved_qkv, real_batch);
            law_first_rows_stay(p.b, w.b, real_batch);
            law_first_rows_stay(p.a, w.a, real_batch);
            law_first_rows_stay(pc, wc, real_batch);
            law_first_rows_stay(pr, wr, real_batch);
        },
        _ => {},
    }
}

} // verus!
