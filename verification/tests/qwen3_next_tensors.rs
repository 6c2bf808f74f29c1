use std::collections::HashMap;

use candle_core::{DType, Device, Tensor, D};
use mistral_plan::ck_flash::ck_operands;
use mistral_plan::qwen3_next::attention::{heads_first, split_query_gate};
use mistral_plan::qwen3_next::capture::{
    capture_view, index_select_replay_rows, position_at, speculative_target_hiddens,
};
use mistral_plan::qwen3_next::draft::{
    gather_refresh, last_states, DraftBatch, DraftLoop, PendingPromptTail,
};
use mistral_plan::qwen3_next::forward::{
    logits_positions, picked_positions, position_rows, record_layer, GdnSpeculativeStash,
    GdnStates,
};
use mistral_plan::qwen3_next::graph_state::refresh_gdn_stash_slots;
use mistral_plan::qwen3_next::heads::{join_heads, split_heads};
use mistral_plan::qwen3_next::moe::{flat_tokens, token_rows};
use mistral_plan::qwen3_next::mtp::{chunk_mask, head_input, ChunkMask, DraftRow};
use mistral_plan::qwen3_next::packed::RecurrentBatchKind;
use mistral_plan::qwen3_next::packed_forward::{join_fits, join_packed, split_packed};
use mistral_plan::qwen3_next::prefill::{gather_prefill, PrefillBatch, PrefillReads};
use mistral_plan::qwen3_next::spec_graph::{
    narrow_gdn_replay_stash, narrow_spec_capture, narrow_spec_graph_tensor, GdnForwardStash,
    GdnLayerRollback, GdnLayerStash, GdnReplayStash, SpecCapture, SpecGraphState, StateLayout,
};
use mistral_plan::qwen3_next::store::SpecStore;
use mistral_plan::tensor::{is_handy, is_row_major, shape_counts, shape_is_made, tensor_counts};
use mistral_plan::text::Fault;

fn message<T>(outcome: Result<T, Fault>) -> String {
    match outcome {
        Ok(_) => panic!("expected a refusal"),
        Err(fault) => fault.message,
    }
}

/// A tensor that counts up from `first`.
fn counting(first: u32, dims: &[usize]) -> Tensor {
    let count = dims.iter().product::<usize>() as u32;
    let values = (first..first + count).map(|n| n as f32).collect::<Vec<_>>();
    Tensor::from_vec(values, dims, &Device::Cpu).unwrap()
}

fn indexes(rows: &[&[u32]]) -> Tensor {
    let width = rows[0].len();
    Tensor::from_vec(rows.concat(), (rows.len(), width), &Device::Cpu).unwrap()
}

fn values(tensor: &Tensor) -> Vec<f32> {
    tensor.flatten_all().unwrap().to_vec1::<f32>().unwrap()
}

fn capture(batch: usize, rows: usize) -> SpecCapture {
    let positions = (0..batch * rows).map(|n| n as u32).collect::<Vec<_>>();
    SpecCapture {
        hidden: counting(0, &[batch, rows, 2]),
        positions: Tensor::from_vec(positions, (batch, rows), &Device::Cpu).unwrap(),
    }
}

// Shapes.

#[test]
fn shapes_count_in_whichever_order_they_are_read() {
    assert!(shape_counts(&vec![]));
    assert!(shape_counts(&vec![usize::MAX, 1]));
    assert!(shape_counts(&vec![0, usize::MAX]));
    assert!(!shape_counts(&vec![usize::MAX, 2]));
    assert!(!shape_counts(&vec![usize::MAX, 0, 2]));
    assert!(tensor_counts(&counting(0, &[2, 3])));
    let repeated = counting(0, &[1]).broadcast_as((usize::MAX, 2)).unwrap();
    assert!(!tensor_counts(&repeated));
    assert!(is_handy(&counting(0, &[2, 3])));
    assert!(is_handy(&indexes(&[&[1, 2]])));
    assert!(!is_handy(&repeated));
}

#[test]
fn shapes_without_elements_are_made_where_they_count() {
    assert!(shape_is_made(&vec![2, 3]));
    assert!(shape_is_made(&vec![0, usize::MAX]));
    assert!(!shape_is_made(&vec![usize::MAX, 2, 0]));
}

#[test]
fn operands_of_the_flash_kernel_are_in_row_major_order() {
    let turned = counting(0, &[2, 3]).t().unwrap();
    let k = counting(10, &[2, 2]);
    let operands = ck_operands(&turned, &k, &k).unwrap();
    assert!(!is_row_major(&turned) && is_row_major(&operands.q));
    assert_eq!(operands.q.dims(), &[3, 2]);
    assert_eq!(values(&operands.q), vec![0.0, 3.0, 1.0, 4.0, 2.0, 5.0]);
    assert_eq!(values(&operands.k), values(&k));
    assert_eq!(values(&operands.v), values(&k));
}

#[test]
fn turned_tensors_are_not_in_row_major_order() {
    let tensor = counting(0, &[2, 3]);
    assert!(is_row_major(&tensor));
    assert!(!is_row_major(&tensor.t().unwrap()));
    assert!(is_row_major(&tensor.t().unwrap().contiguous().unwrap()));
}

// Captures.

#[test]
fn captures_are_viewed_with_rows() {
    let view = capture_view(&capture(2, 3)).unwrap();
    assert_eq!(view.hidden.dims(), &[2, 3, 2]);
    assert_eq!(view.positions, vec![vec![0, 1, 2], vec![3, 4, 5]]);
    let thin = SpecCapture { hidden: counting(0, &[2, 4]), positions: indexes(&[&[7], &[8]]) };
    let view = capture_view(&thin).unwrap();
    assert_eq!(view.hidden.dims(), &[2, 1, 4]);
    assert_eq!(position_at(&view.positions, 1, 0).unwrap(), 8);
    assert_eq!(
        message(position_at(&view.positions, 1, 1)),
        "MTP position ids missing for batch 1 row 1"
    );
    let flat = SpecCapture { hidden: counting(0, &[4]), positions: indexes(&[&[7]]) };
    assert_eq!(message(capture_view(&flat)), "unexpected MTP hidden rank 1");
    let flat = SpecCapture {
        hidden: counting(0, &[2, 4]),
        positions: Tensor::new(&[1u32, 2], &Device::Cpu).unwrap(),
    };
    assert_eq!(message(capture_view(&flat)), "unexpected MTP position rank 1");
}

#[test]
fn target_rows_are_gathered_in_order() {
    let captured = Some(capture(2, 3));
    let gathered = speculative_target_hiddens(&captured, &[(1, 0), (0, 2)]).unwrap().unwrap();
    assert_eq!(gathered.dims(), &[2, 2]);
    assert_eq!(values(&gathered), vec![6.0, 7.0, 4.0, 5.0]);
    assert!(speculative_target_hiddens(&None, &[(0, 0)]).unwrap().is_none());
    assert!(speculative_target_hiddens(&captured, &[(2, 0)]).is_err());
    assert!(speculative_target_hiddens(&captured, &[(0, usize::MAX)]).is_err());
}

#[test]
fn replay_rows_are_selected() {
    let rows = index_select_replay_rows(&counting(0, &[3, 2]), &vec![2, 0]).unwrap();
    assert_eq!(values(&rows), vec![4.0, 5.0, 0.0, 1.0]);
}

// What a captured graph leaves.

fn layer(batch: usize) -> GdnLayerStash {
    GdnLayerStash {
        layer_idx: 3,
        state_layout: StateLayout { name: "Dense".to_string() },
        rollback: GdnLayerRollback::Replay {
            projected: GdnForwardStash {
                mixed_qkv: counting(0, &[batch, 2, 2]),
                convolved_qkv: counting(100, &[batch, 2, 2]),
                b: counting(200, &[batch, 2, 2]),
                a: counting(300, &[batch, 2, 2]),
            },
            conv_state: counting(400, &[batch, 2, 2]),
            recurrent_state: counting(500, &[batch, 2, 2, 2]),
        },
    }
}

fn state(batch: usize) -> SpecGraphState {
    SpecGraphState {
        spec_capture: Some(capture(batch, 2)),
        full_capture: None,
        gdn_stash: Some(GdnReplayStash {
            slots: (0..batch as u32).collect(),
            layers: vec![layer(batch)],
        }),
    }
}

#[test]
fn states_are_narrowed_to_real_sequences() {
    let part = state(3).for_real_batch(2).unwrap();
    assert_eq!(part.spec_capture.as_ref().unwrap().hidden.dims(), &[2, 2, 2]);
    let stash = part.gdn_stash.unwrap();
    assert_eq!(stash.slots, vec![0, 1]);
    match &stash.layers[0].rollback {
        GdnLayerRollback::Replay { projected, recurrent_state, .. } => {
            assert_eq!(values(&projected.b), values(&counting(200, &[2, 2, 2])));
            assert_eq!(recurrent_state.dims(), &[2, 2, 2, 2]);
        }
        GdnLayerRollback::Transition(_) => panic!("the layer is replayed"),
    }
    let narrowed = narrow_spec_capture(&capture(3, 2), 1).unwrap();
    assert_eq!(values(&narrowed.hidden), vec![0.0, 1.0, 2.0, 3.0]);
    assert!(narrow_spec_capture(&capture(2, 2), 3).is_err());
    let stash = GdnReplayStash { slots: vec![4, 5], layers: vec![layer(2)] };
    assert_eq!(narrow_gdn_replay_stash(&stash, 1).unwrap().slots, vec![4]);
    assert_eq!(
        message(narrow_spec_graph_tensor(&counting(0, &[2, 2]), 0, 3, 1, "hidden")),
        "speculative graph hidden has batch 2, expected 3"
    );
}

#[test]
fn a_state_is_rebuilt_of_its_tensors() {
    let whole = state(2);
    let tensors = whole.tensors();
    assert_eq!(tensors.len(), 2 + 6);
    let again = whole.with_tensors(&tensors).unwrap();
    assert_eq!(
        values(&again.spec_capture.unwrap().hidden),
        values(&whole.spec_capture.as_ref().unwrap().hidden)
    );
    assert_eq!(again.gdn_stash.unwrap().slots, vec![0, 1]);
    let few = tensors[..7].to_vec();
    assert_eq!(
        message(whole.with_tensors(&few)),
        "speculative graph state tensor count mismatch"
    );
}

#[test]
fn live_slots_replace_captured_ones() {
    let mut stash = GdnReplayStash { slots: vec![0, 1], layers: vec![] };
    refresh_gdn_stash_slots(&mut stash, &[8, 9, 10]).unwrap();
    assert_eq!(stash.slots, vec![8, 9]);
    assert_eq!(
        message(refresh_gdn_stash_slots(&mut stash, &[8])),
        "GDN graph state has 2 rows, but the live slot table has 1"
    );
    assert_eq!(stash.slots, vec![8, 9]);
}

#[test]
fn what_is_taken_can_be_installed() {
    let mut store = SpecStore::new();
    assert!(store.take_spec_graph_state().is_none());
    store.record_stash(Some(GdnReplayStash { slots: vec![1], layers: vec![] }));
    assert!(store.state.gdn_stash.is_none());
    store.set_store_spec_hidden(true);
    store.record_stash(Some(GdnReplayStash { slots: vec![1], layers: vec![] }));
    let (hidden, positions) = (counting(0, &[1, 2, 2]), indexes(&[&[0, 1]]));
    store.record_full_capture(&hidden, &positions, Some(RecurrentBatchKind::Decode));
    assert!(store.last_full_capture().is_none());
    store.record_full_capture(&hidden, &positions, Some(RecurrentBatchKind::Prefill));
    store.record_spec_capture(&hidden, &positions);
    let taken = store.take_spec_graph_state().unwrap();
    assert!(store.last_spec_capture().is_none());
    assert!(store.state.gdn_stash.is_none());

    store.install_spec_graph_state(&taken, None).unwrap();
    assert_eq!(values(&store.last_full_capture().unwrap().hidden), values(&hidden));
    assert_eq!(store.state.gdn_stash.as_ref().unwrap().slots, vec![1]);
    store.install_spec_graph_state(&taken, Some(&[7, 8])).unwrap();
    assert_eq!(store.state.gdn_stash.as_ref().unwrap().slots, vec![7]);
    assert_eq!(
        message(store.install_spec_graph_state(&taken, Some(&[]))),
        "GDN graph state has 1 rows, but the live slot table has 0"
    );
    store.clear_gdn_replay_stash();
    assert!(store.state.gdn_stash.is_none());
    store.set_store_spec_hidden(false);
    assert!(store.last_spec_capture().is_none());
}

#[test]
fn layers_are_recorded_in_the_mode_of_the_pass() {
    let mut stash = GdnReplayStash { slots: vec![0], layers: vec![] };
    let layout = || StateLayout { name: "Dense".to_string() };
    let states = || GdnStates {
        conv_state: counting(0, &[1, 2, 2]),
        recurrent_state: counting(0, &[1, 2, 2, 2]),
    };
    let transition = Some(GdnSpeculativeStash::Transition(5));
    record_layer(&mut stash, 4, layout(), transition, None).unwrap();
    assert_eq!(stash.layers[0].layer_idx, 4);
    assert!(matches!(stash.layers[0].rollback, GdnLayerRollback::Transition(5)));
    assert_eq!(
        message(record_layer(&mut stash, 5, layout(), None, Some(states()))),
        "GDN forward returned no stash"
    );
    let transition = Some(GdnSpeculativeStash::Transition(5));
    assert_eq!(
        message(record_layer(&mut stash, 5, layout(), transition, Some(states()))),
        "GDN speculative capture mode does not match cache storage"
    );
    assert_eq!(stash.layers.len(), 1);
}

// Packed sequences.

#[test]
fn packed_pieces_join_to_the_whole() {
    let tokens = counting(0, &[1, 5, 2]);
    let conv = counting(100, &[2, 3, 2]);
    let recurrent = counting(200, &[2, 2, 2, 2]);
    let prefill = RecurrentBatchKind::Prefill;
    let pieces = split_packed(prefill, &[2, 3], &tokens, &conv, &recurrent).unwrap();
    assert_eq!(pieces[1].token_range, 2..5);
    assert_eq!(values(&pieces[0].tokens), vec![0.0, 1.0, 2.0, 3.0]);
    assert_eq!(values(&pieces[1].conv_state), values(&counting(106, &[6])));
    let list = |pick: fn(&mistral_plan::qwen3_next::packed_forward::PackedPiece) -> &Tensor| {
        pieces.iter().map(|piece| pick(piece).clone()).collect::<Vec<_>>()
    };
    let outputs = list(|piece| &piece.tokens);
    let convs = list(|piece| &piece.conv_state);
    let recurrents = list(|piece| &piece.recurrent_state);
    assert!(join_fits(&outputs, 1) && join_fits(&convs, 0) && join_fits(&recurrents, 0));
    let joined = join_packed(&outputs, &convs, &recurrents).unwrap();
    assert_eq!(joined.output.dims(), tokens.dims());
    assert_eq!(values(&joined.output), values(&tokens));
    assert_eq!(values(&joined.conv_state), values(&conv));
    assert_eq!(values(&joined.recurrent_state), values(&recurrent));
    assert!(join_packed(&vec![], &vec![], &vec![]).is_err());
}

#[test]
fn packed_layers_refuse_mismatches() {
    let tokens = counting(0, &[1, 5, 2]);
    let conv = counting(100, &[2, 3, 2]);
    let recurrent = counting(200, &[2, 2, 2, 2]);
    let prefill = RecurrentBatchKind::Prefill;
    assert_eq!(
        message(split_packed(RecurrentBatchKind::Decode, &[2, 3], &tokens, &conv, &recurrent)),
        "Qwen3-Next packed GDN cannot run a decode batch"
    );
    assert_eq!(
        message(split_packed(prefill, &[2, 3], &conv, &conv, &conv)),
        "unexpected rank, expected: 4, got: 3 ([2, 3, 2])"
    );
    assert_eq!(
        message(split_packed(prefill, &[2, 2], &tokens, &conv, &recurrent)),
        "Qwen3-Next packed GDN has 4 logical tokens but 5 physical tokens"
    );
    assert_eq!(
        message(split_packed(prefill, &[2, 2, 1], &tokens, &conv, &recurrent)),
        "Qwen3-Next packed GDN has 2 convolution state rows but 3 logical sequences"
    );
    let double = conv.to_dtype(DType::F64).unwrap();
    assert_eq!(
        message(split_packed(prefill, &[2, 3], &tokens, &double, &recurrent)),
        "Qwen3-Next packed GDN dtype mismatch: tokens are F32, convolution state is F64"
    );
}

// Heads and tokens.

#[test]
fn queries_and_gates_lie_side_by_side() {
    let projection = counting(0, &[1, 2, 8]);
    let split = split_query_gate(&projection, 1, 2, 2, 2).unwrap();
    assert_eq!(values(&split.query), vec![0.0, 1.0, 4.0, 5.0, 8.0, 9.0, 12.0, 13.0]);
    assert_eq!(split.gate.dims(), &[1, 2, 4]);
    assert_eq!(values(&split.gate), vec![2.0, 3.0, 6.0, 7.0, 10.0, 11.0, 14.0, 15.0]);
    let first = heads_first(&split.query, 1, 2, 2, 2).unwrap();
    assert_eq!(first.dims(), &[1, 2, 2, 2]);
    assert_eq!(values(&first), vec![0.0, 1.0, 8.0, 9.0, 4.0, 5.0, 12.0, 13.0]);
    assert!(split_query_gate(&projection, 1, 2, 3, 2).is_err());
}

#[test]
fn heads_are_split_and_joined() {
    let row = counting(0, &[2, 3, 4]);
    let heads = split_heads(&row, 2, 3, 2, 2).unwrap();
    assert_eq!(heads.dims(), &[2, 2, 3, 2]);
    assert_eq!(values(&heads)[..6], [0.0, 1.0, 4.0, 5.0, 8.0, 9.0]);
    let rows = join_heads(&heads, 2, 3, true).unwrap();
    assert_eq!(rows.dims(), row.dims());
    assert_eq!(values(&rows), values(&row));
    let single = counting(0, &[2, 1, 4]);
    let heads = split_heads(&single, 2, 1, 2, 2).unwrap();
    assert_eq!(heads.dims(), &[2, 2, 1, 2]);
    let rows = join_heads(&heads, 2, 1, false).unwrap();
    assert_eq!(values(&rows), values(&single));
    assert_eq!(
        message(join_heads(&row, 0, 3, false)),
        "cannot reshape tensor of 24 elements to (0, 3, ())"
    );
    assert_eq!(
        message(join_heads(&row, 5, 1, false)),
        "cannot reshape tensor with 24 elements to (5, 1, ())"
    );
}

#[test]
fn tokens_are_routed_as_rows() {
    let tokens = counting(0, &[2, 3, 4]);
    let rows = flat_tokens(&tokens).unwrap();
    assert_eq!(rows.dims(), &[6, 4]);
    let again = token_rows(&rows, 2, 3, 4).unwrap();
    assert_eq!(again.dims(), tokens.dims());
    assert_eq!(values(&again), values(&tokens));
    assert!(token_rows(&rows, 2, 3, 5).is_err());
    assert_eq!(
        message(flat_tokens(&counting(0, &[2, 3]))),
        "unexpected rank, expected: 3, got: 2 ([2, 3])"
    );
    assert_eq!(
        message(flat_tokens(&counting(0, &[2, 3, 0]))),
        "cannot reshape tensor of 0 elements to ((), 0)"
    );
}

#[test]
fn positions_follow_the_rows_that_give_logits() {
    let text = Tensor::new(&[4u32, 5, 6, 7], &Device::Cpu).unwrap();
    let rows = position_rows(Some(&text), 2, 2).unwrap();
    assert_eq!(rows.to_vec2::<u32>().unwrap(), vec![vec![4, 5], vec![6, 7]]);
    let wide = logits_positions(&rows).unwrap();
    assert_eq!(wide.dims(), &[2, 2, 1]);
    let last = wide.narrow(1, 1, 1).unwrap();
    let picked = picked_positions(&last).unwrap();
    assert_eq!(picked.to_vec2::<u32>().unwrap(), vec![vec![5], vec![7]]);
    assert!(position_rows(Some(&text), 2, 3).is_err());
    assert_eq!(message(position_rows(None, 2, 2)), "Qwen3Next is missing text positions");
}

// Drafting.

#[test]
fn heads_read_embeddings_beside_hidden_states() {
    let embeds = counting(0, &[1, 2, 2]);
    let hidden = counting(10, &[1, 2, 3]);
    assert!(join_fits(&vec![embeds.clone(), hidden.clone()], 2));
    let joined = head_input(&embeds, &hidden).unwrap();
    assert_eq!(joined.dims(), &[1, 2, 5]);
    assert_eq!(
        values(&joined),
        vec![0.0, 1.0, 10.0, 11.0, 12.0, 2.0, 3.0, 13.0, 14.0, 15.0]
    );
    assert_eq!(joined.dtype(), DType::F32);
    assert!(head_input(&embeds, &counting(0, &[1, 3, 2])).is_err());
    assert!(head_input(&embeds, &counting(0, &[2, 2])).is_err());
    let scalar = Tensor::new(1.0f32, &Device::Cpu).unwrap();
    let refusal = message(head_input(&scalar, &hidden));
    assert_eq!(refusal, "cat: dimension index -1 out of range for shape []");
    let said = Tensor::cat(&[&scalar, &hidden], D::Minus1).unwrap_err().to_string();
    assert!(said.starts_with(&refusal));
}

#[test]
fn first_chunks_are_masked() {
    assert_eq!(chunk_mask(true), ChunkMask::Causal);
    assert_eq!(chunk_mask(false), ChunkMask::Absent);
}

fn draft_batch() -> DraftBatch {
    DraftBatch {
        seq_ids: vec![70, 71],
        own_ids: vec![70, 71],
        tokens: vec![vec![10, 11, 12, 13], vec![20, 21, 22]],
        target_rows: vec![(1, 2), (0, 1)],
        base_lens: vec![3, 2],
    }
}

fn draft_row(seq_id: usize, position: usize, token: u32) -> DraftRow {
    DraftRow { seq_id, position, token }
}

#[test]
fn heads_catch_up_with_the_target() {
    let mut tails: HashMap<usize, PendingPromptTail> = HashMap::new();
    tails.insert(71, PendingPromptTail { position: 0, hidden: counting(900, &[1, 1, 2]) });
    tails.insert(99, PendingPromptTail { position: 0, hidden: counting(990, &[1, 1, 2]) });
    let hidden = counting(0, &[2, 2, 2]);
    let positions = vec![vec![1], vec![1, 2]];
    let reads = gather_refresh(&draft_batch(), &mut tails, &hidden, &positions).unwrap();
    assert_eq!(
        reads.rows,
        vec![
            draft_row(70, 1, 12),
            draft_row(70, 2, 13),
            draft_row(71, 0, 21),
            draft_row(71, 1, 22),
        ]
    );
    assert_eq!(reads.last_row_idx, vec![1, 3]);
    assert_eq!(reads.hidden.dims(), &[1, 4, 2]);
    assert_eq!(values(&reads.hidden), vec![4.0, 5.0, 6.0, 7.0, 900.0, 901.0, 0.0, 1.0]);
    assert!(tails.get(&71).is_none() && tails.get(&99).is_none());

    let states = last_states(&reads.hidden, &reads.last_row_idx).unwrap();
    assert_eq!(values(&states), vec![6.0, 7.0, 0.0, 1.0]);

    let mut drafting = DraftLoop::begin(vec![70, 71], &reads, 2);
    assert_eq!(drafting.cursor, vec![2, 1]);
    let chained = drafting.accept(&vec![100, 200]).unwrap();
    assert_eq!(chained, vec![draft_row(70, 3, 100), draft_row(71, 2, 200)]);
    assert!(drafting.accept(&vec![101, 201]).is_none());
    assert_eq!(drafting.tokens, vec![vec![100, 101], vec![200, 201]]);
}

#[test]
fn refreshes_refuse_rows_out_of_range() {
    let hidden = counting(0, &[2, 2, 2]);
    let positions = vec![vec![1], vec![1, 2]];
    let mut batch = draft_batch();
    batch.base_lens = vec![4, 2];
    assert_eq!(
        message(gather_refresh(&batch, &mut HashMap::new(), &hidden, &positions)),
        "MTP refresh rows out of range: base_len=4, count=2, toks=4"
    );
    assert_eq!(
        message(gather_refresh(&draft_batch(), &mut HashMap::new(), &hidden, &vec![vec![1]])),
        "MTP position ids missing for batch 1 row 0"
    );
    let mut batch = draft_batch();
    batch.target_rows[1] = (2, 1);
    let more = vec![vec![1], vec![1, 2], vec![1]];
    assert!(gather_refresh(&batch, &mut HashMap::new(), &hidden, &more).is_err());
}

#[test]
fn refused_refreshes_leave_the_tails_they_have_not_reached() {
    let hidden = counting(0, &[2, 2, 2]);
    let tail = |first: u32| PendingPromptTail {
        position: 0,
        hidden: counting(first, &[1, 1, 2]),
    };
    let mut tails: HashMap<usize, PendingPromptTail> = HashMap::new();
    tails.insert(70, tail(700));
    tails.insert(71, tail(710));
    tails.insert(99, tail(990));
    let positions = vec![vec![], vec![1, 2]];
    assert_eq!(
        message(gather_refresh(&draft_batch(), &mut tails, &hidden, &positions)),
        "MTP position ids missing for batch 0 row 0"
    );
    assert!(tails.get(&70).is_none() && tails.get(&71).is_none());
    assert_eq!(values(&tails.get(&99).unwrap().hidden), vec![990.0, 991.0]);

    tails.insert(70, tail(700));
    tails.insert(71, tail(710));
    let mut batch = draft_batch();
    batch.base_lens = vec![3, 3];
    assert_eq!(
        message(gather_refresh(&batch, &mut tails, &hidden, &positions)),
        "MTP refresh rows out of range: base_len=3, count=1, toks=3"
    );
    assert!(tails.get(&70).is_none());
    assert_eq!(values(&tails.get(&71).unwrap().hidden), vec![710.0, 711.0]);
}

#[test]
fn rows_past_all_counts_are_refused_by_the_tensor() {
    let capture = Some(capture(2, 2));
    let last = usize::MAX;
    assert!(message(speculative_target_hiddens(&capture, &[(0, last)])).contains("narrow"));
    assert!(message(speculative_target_hiddens(&capture, &[(last, 0)])).contains("narrow"));
    let mut batch = draft_batch();
    batch.target_rows[1] = (last, 1);
    let positions = vec![vec![1], vec![1, 2]];
    assert_eq!(
        message(gather_refresh(
            &batch,
            &mut HashMap::new(),
            &counting(0, &[2, 2, 2]),
            &positions
        )),
        format!("MTP position ids missing for batch {last} row 0")
    );
}

fn prefill_batch(is_final: bool) -> PrefillBatch {
    PrefillBatch {
        seq_ids: vec![70, 71],
        batch_indices: vec![0, 1],
        tokens: vec![vec![10, 11, 12, 13], vec![20, 21]],
        chunk_ranges: vec![(1, 3), (0, 1)],
        is_final,
        as_block: false,
    }
}

#[test]
fn tails_wait_for_the_next_token() {
    let mut tails: HashMap<usize, PendingPromptTail> = HashMap::new();
    let hidden = counting(0, &[2, 2, 2]);
    let positions = vec![vec![1, 2], vec![0, 1]];
    match gather_prefill(&prefill_batch(true), &mut tails, &hidden, &positions).unwrap() {
        PrefillReads::Rows { rows, hidden } => {
            assert_eq!(rows, vec![draft_row(70, 1, 12)]);
            assert_eq!(values(&hidden), vec![0.0, 1.0]);
        }
        _ => panic!("the first sequence has a row"),
    }
    let tail = tails.get(&70).unwrap();
    assert_eq!((tail.position, values(&tail.hidden)), (2, vec![2.0, 3.0]));
    let tail = tails.get(&71).unwrap();
    assert_eq!((tail.position, values(&tail.hidden)), (0, vec![4.0, 5.0]));

    let mut none: HashMap<usize, PendingPromptTail> = HashMap::new();
    match gather_prefill(&prefill_batch(false), &mut none, &hidden, &positions).unwrap() {
        PrefillReads::Rows { rows, hidden } => {
            assert_eq!(
                rows,
                vec![draft_row(70, 1, 12), draft_row(70, 2, 13), draft_row(71, 0, 21)]
            );
            assert_eq!(values(&hidden), vec![0.0, 1.0, 2.0, 3.0, 4.0, 5.0]);
        }
        _ => panic!("both sequences have rows"),
    }
    assert!(none.get(&70).is_none());
    let mut block = prefill_batch(true);
    block.as_block = true;
    assert!(matches!(
        gather_prefill(&block, &mut none, &hidden, &positions).unwrap(),
        PrefillReads::Block
    ));
    assert!(none.get(&70).is_some());
    let mut short = prefill_batch(true);
    short.chunk_ranges = vec![(1, 2), (0, 1)];
    assert!(matches!(
        gather_prefill(&short, &mut none, &hidden, &positions).unwrap(),
        PrefillReads::Nothing
    ));
}

#[test]
fn prefills_refuse_chunks_out_of_range() {
    let hidden = counting(0, &[2, 2, 2]);
    let positions = vec![vec![1, 2], vec![0, 1]];
    let mut batch = prefill_batch(false);
    batch.chunk_ranges[0] = (1, 4);
    assert_eq!(
        message(gather_prefill(&batch, &mut HashMap::new(), &hidden, &positions)),
        "MTP prefill rows out of range: chunk=(1, 4), hidden rows=2"
    );
    let mut batch = prefill_batch(false);
    batch.tokens[0] = vec![10, 11, 12];
    assert_eq!(
        message(gather_prefill(&batch, &mut HashMap::new(), &hidden, &positions)),
        "MTP prefill tokens out of range: chunk=(1, 3), toks=3"
    );
    assert_eq!(
        message(gather_prefill(
            &prefill_batch(false),
            &mut HashMap::new(),
            &hidden,
            &vec![vec![1, 2]]
        )),
        "MTP position ids missing for batch 1 row 0"
    );
}

#[test]
fn refused_prefills_leave_the_tails_kept_before() {
    let hidden = counting(0, &[2, 2, 2]);
    let positions = vec![vec![1, 2], vec![0, 1]];
    let mut tails: HashMap<usize, PendingPromptTail> = HashMap::new();
    let mut batch = prefill_batch(true);
    batch.chunk_ranges[1] = (0, 3);
    assert_eq!(
        message(gather_prefill(&batch, &mut tails, &hidden, &positions)),
        "MTP prefill rows out of range: chunk=(0, 3), hidden rows=2"
    );
    assert_eq!(values(&tails.get(&70).unwrap().hidden), vec![2.0, 3.0]);
    assert!(tails.get(&71).is_none());
}
