use mistral_plan::qwen3_next::attention::{
    attention_does_fit, attention_route, full_attention_sizes, AttentionRoute,
};
use mistral_plan::qwen3_next::commit::{group_gdn_replay_batches, SpeculativeCommitRow};
use mistral_plan::qwen3_next::config::{Config, LayerType};
use mistral_plan::qwen3_next::draft::{check_proposal, slot_requests};
use mistral_plan::qwen3_next::forward::{
    begin_stash, check_forward, forward_mode, layer_step, packed_query_lens, pending_check,
    LayerCache, LayerStep, ModeFacts, RecurrentFacts,
};
use mistral_plan::qwen3_next::heads::explicit_attention_check;
use mistral_plan::qwen3_next::model::{
    model_can_be_planned, plan_model, residual_parts, HybridLayerType, ResidualPart,
};
use mistral_plan::qwen3_next::moe::{moe_sizes, tries_router_kernel};
use mistral_plan::qwen3_next::mtp::{
    draft_inputs, mtp_cache_check, mtp_head_check, plan_mtp_head, shifted_chunk, DraftRow,
    MtpConfig, SpeculativeConfig, SpeculativeTarget, DEFAULT_MTP_N_PREDICT, PLACEHOLDER_TOKEN,
};
use mistral_plan::qwen3_next::packed::{
    gdn_input_projection_kind, packed_gdn_segments, recurrent_checkpoint_devices_supported,
    should_stash_gdn_replay, validate_packed_gdn_state_rows, GdnInputProjectionKind,
    PackedGdnSegment, RecurrentBatchKind, WeightNames,
};
use mistral_plan::qwen3_next::recurrent::{
    pending_apply_groups, reserve_recurrent_decode_deferred_storage,
    reserve_recurrent_transition_storage, supports_recurrent_speculative_checkpoints,
    supports_recurrent_speculative_transitions, GdnLayerFacts, GdnTransitionCommitConfig,
};
use mistral_plan::qwen3_next::rollback::{
    after_checkpoint, after_stage, fused_commit_check, replay_recurrent_prefixes,
    speculative_commit, stage_recurrent_prefixes, CommitStep, ReplayEnd, ReplayPlan, StagePlan,
    StashFacts, StashLayerFacts,
};
use mistral_plan::qwen3_next::slots::{
    distinct_live_slots, gdn_replay_keep_rows, gdn_transition_keep_rows, live_slots,
    terminal_gdn_transition_slots,
};
use mistral_plan::qwen3_next::spec_graph::StateLayout;
use mistral_plan::qwen3_next::transitions::{
    apply_pending_recurrent_transitions, apply_pending_recurrent_transitions_with_cache,
    deferred_flush_answer, device_slots_check, flush_deferred_recurrent_state,
    flush_recurrent_state_answer, layer_chunks, ApplyPlan, FlushEnd, FlushPlan,
};
use mistral_plan::text::Fault;

fn message<T>(outcome: Result<T, Fault>) -> String {
    match outcome {
        Ok(_) => panic!("expected a refusal"),
        Err(fault) => fault.message,
    }
}

fn weights(residual: &[&str], source: &[&str]) -> WeightNames {
    let full = |names: &[&str]| {
        names
            .iter()
            .map(|name| format!("model.layers.0.linear_attn.{name}"))
            .collect::<Vec<_>>()
    };
    WeightNames {
        prefix: "model.layers.0.linear_attn".to_string(),
        residual: full(residual),
        source: full(source),
    }
}

#[test]
fn gdn_projection_kind_reads_residual_and_weight_source_tensors() {
    let split = [
        "in_proj_qkv.weight",
        "in_proj_z.weight",
        "in_proj_b.weight",
        "in_proj_a.weight",
    ];
    assert_eq!(
        gdn_input_projection_kind(&weights(&[], &split)),
        GdnInputProjectionKind::Split
    );
    assert_eq!(
        gdn_input_projection_kind(&weights(&split, &[])),
        GdnInputProjectionKind::Split
    );
    assert_eq!(
        gdn_input_projection_kind(&weights(&[], &["in_proj_qkv.weight"])),
        GdnInputProjectionKind::SplitQkvzGroupedBa
    );
    assert_eq!(
        gdn_input_projection_kind(&weights(&[], &[])),
        GdnInputProjectionKind::Grouped
    );
}

#[test]
fn packed_gdn_maps_unequal_queries_to_matching_state_rows() {
    assert_eq!(
        packed_gdn_segments(1, 8, &[2, 5, 1]).unwrap(),
        vec![
            PackedGdnSegment { token_range: 0..2, state_index: 0 },
            PackedGdnSegment { token_range: 2..7, state_index: 1 },
            PackedGdnSegment { token_range: 7..8, state_index: 2 },
        ]
    );
}

#[test]
fn packed_gdn_rejects_query_and_state_cardinality_mismatches() {
    assert!(packed_gdn_segments(2, 8, &[2, 5, 1]).is_err());
    assert!(packed_gdn_segments(1, 0, &[]).is_err());
    assert!(packed_gdn_segments(1, 7, &[2, 5, 1]).is_err());
    assert!(packed_gdn_segments(1, 8, &[2, 0, 6]).is_err());
    assert!(packed_gdn_segments(1, usize::MAX, &[usize::MAX, 1]).is_err());
    assert!(validate_packed_gdn_state_rows(3, 2, 3).is_err());
    assert!(validate_packed_gdn_state_rows(3, 3, 2).is_err());
}

#[test]
fn packed_gdn_keeps_token_and_state_order_isolated() {
    let tokens = [10, 11, 20, 21, 22, 30, 31];
    let state_markers = [100, 200, 300];
    let observed = packed_gdn_segments(1, tokens.len(), &[2, 3, 2])
        .unwrap()
        .into_iter()
        .map(|segment| {
            (
                state_markers[segment.state_index],
                tokens[segment.token_range].to_vec(),
            )
        })
        .collect::<Vec<_>>();
    assert_eq!(
        observed,
        vec![
            (100, vec![10, 11]),
            (200, vec![20, 21, 22]),
            (300, vec![30, 31]),
        ]
    );
}

#[test]
fn packed_refusals_say_what_is_wrong() {
    assert_eq!(
        message(packed_gdn_segments(1, 8, &[2, 0, 6])),
        "Qwen3-Next packed GDN logical sequence 1 has zero tokens"
    );
    assert_eq!(
        message(packed_gdn_segments(1, 7, &[2, 5, 1])),
        "Qwen3-Next packed GDN has 8 logical tokens but 7 physical tokens"
    );
    assert_eq!(
        message(packed_gdn_segments(1, usize::MAX, &[usize::MAX, 1])),
        "Qwen3-Next packed GDN length overflow"
    );
    assert_eq!(
        message(validate_packed_gdn_state_rows(3, 2, 3)),
        "Qwen3-Next packed GDN has 2 convolution state rows but 3 logical sequences"
    );
    assert_eq!(
        message(validate_packed_gdn_state_rows(3, 3, 2)),
        "Qwen3-Next packed GDN has 2 recurrent state rows but 3 logical sequences"
    );
    assert!(validate_packed_gdn_state_rows(3, 3, 3).is_ok());
}

// The configuration.

fn config() -> Config {
    Config {
        vocab_size: 100,
        hidden_size: 64,
        intermediate_size: 128,
        num_hidden_layers: 8,
        num_attention_heads: 8,
        num_key_value_heads: 2,
        max_position_embeddings: 256,
        head_dim: 16,
        linear_conv_kernel_dim: 4,
        linear_key_head_dim: 8,
        linear_value_head_dim: 12,
        linear_num_key_heads: 2,
        linear_num_value_heads: 4,
        decoder_sparse_step: 1,
        moe_intermediate_size: 32,
        shared_expert_intermediate_size: 48,
        num_experts_per_tok: 2,
        num_experts: 16,
        norm_topk_prob: true,
        mlp_only_layers: vec![],
        full_attention_interval: 4,
        tie_word_embeddings: false,
        mtp: true,
    }
}

#[test]
fn full_attention_comes_at_intervals() {
    let config = config();
    let kinds = config.layer_types();
    let full = kinds
        .iter()
        .map(|kind| *kind == LayerType::FullAttention)
        .collect::<Vec<_>>();
    assert_eq!(full, vec![false, false, false, true, false, false, false, true]);
    let mut paged = full;
    paged.push(true);
    assert_eq!(config.paged_kv_layers(), paged);
    assert_eq!(config.mtp_layers(), 1);
    assert_eq!(config.mtp_kv_layer_idx(), 8);
}

#[test]
fn linear_widths_multiply_heads() {
    let mut config = config();
    assert_eq!(config.linear_key_dim(), 16);
    assert_eq!(config.linear_value_dim(), 48);
    assert_eq!(config.linear_conv_dim(), 16 * 2 + 48);
    assert!(config.conv_dim_fits());
    config.linear_num_key_heads = usize::MAX;
    assert!(!config.conv_dim_fits());
}

#[test]
fn attention_is_sized_for_each_process() {
    let config = config();
    assert!(attention_does_fit(&config, 4));
    let sizes = full_attention_sizes(&config, 4);
    assert_eq!((sizes.q_out, sizes.kv_out, sizes.o_in), (8 * 16 * 2, 2 * 16, 8 * 16));
    assert_eq!((sizes.num_heads, sizes.num_kv_heads), (2, 1));
    assert!(!attention_does_fit(&config, 0));
    assert_eq!(attention_route(false, true, false), AttentionRoute::Eager);
    assert_eq!(attention_route(true, true, false), AttentionRoute::Paged);
    assert_eq!(attention_route(true, false, true), AttentionRoute::PagedDummy);
    assert!(explicit_attention_check(true).is_ok());
    assert_eq!(
        message(explicit_attention_check(false)),
        "Qwen3Next MTP head requires paged attention"
    );
}

#[test]
fn experts_are_sized_by_the_configuration() {
    let sizes = moe_sizes(&config());
    assert_eq!((sizes.router_in, sizes.router_out, sizes.top_k), (64, 16, 2));
    assert!(sizes.renormalize);
    assert!(tries_router_kernel(true, false));
    assert!(!tries_router_kernel(true, true));
    assert!(!tries_router_kernel(false, false));
}

#[test]
fn models_are_planned_layer_by_layer() {
    let config = config();
    let devices = vec![0, 0, 0, 0, 1, 1, 1, 1];
    assert!(model_can_be_planned(&config, &devices, 2));
    assert!(!model_can_be_planned(&config, &devices, 0));
    let plan = plan_model(&config, &devices, 2).unwrap();
    assert_eq!((plan.num_full, plan.num_linear), (2, 6));
    assert_eq!(plan.rope_devices, vec![0, 1]);
    assert_eq!(plan.cache_layers.len(), 9);
    assert_eq!(plan.cache_layers[8], HybridLayerType::Attention);
    assert_eq!(plan.cache_layers[0], HybridLayerType::Recurrent);
    assert_eq!(plan.metadata.num_layers, 9);
    assert_eq!((plan.metadata.num_kv_heads, plan.metadata.num_attn_heads), (1, 4));
    assert_eq!(plan.recurrent.conv_dim, 80);
    let mut dense = config;
    dense.mlp_only_layers = vec![1];
    assert_eq!(
        message(plan_model(&dense, &devices, 2)),
        "Qwen3Next `mlp_only_layers` is not implemented yet in mistral.rs."
    );
}

#[test]
fn residual_parts_are_named_by_layer() {
    let kinds = vec![LayerType::LinearAttention, LayerType::FullAttention];
    let parts = residual_parts(&kinds, true);
    let names = parts
        .iter()
        .map(|part| match part {
            ResidualPart::Module(path) | ResidualPart::Tensor(path) => path.as_str(),
        })
        .collect::<Vec<_>>();
    assert_eq!(
        names,
        vec![
            "model.embed_tokens",
            "model.norm",
            "model.layers.0.input_layernorm",
            "model.layers.0.post_attention_layernorm",
            "model.layers.0.linear_attn.conv1d.weight",
            "model.layers.0.linear_attn.dt_bias",
            "model.layers.0.linear_attn.A_log",
            "model.layers.0.linear_attn.norm.weight",
            "model.layers.0.mlp.gate.weight",
            "model.layers.0.mlp.shared_expert_gate.weight",
            "model.layers.1.input_layernorm",
            "model.layers.1.post_attention_layernorm",
            "model.layers.1.self_attn.q_norm",
            "model.layers.1.self_attn.k_norm",
            "model.layers.1.mlp.gate.weight",
            "model.layers.1.mlp.shared_expert_gate.weight",
            "mtp.pre_fc_norm_embedding",
            "mtp.pre_fc_norm_hidden",
            "mtp.norm",
            "mtp.layers.0.input_layernorm",
            "mtp.layers.0.post_attention_layernorm",
            "mtp.layers.0.self_attn.q_norm",
            "mtp.layers.0.self_attn.k_norm",
        ]
    );
    assert!(matches!(parts[0], ResidualPart::Module(_)));
    assert!(matches!(parts[4], ResidualPart::Tensor(_)));
    assert_eq!(residual_parts(&kinds, false).len(), names.len() - 7);
}

// A forward pass.

fn facts() -> ModeFacts {
    ModeFacts {
        checkpoint_lanes: 4,
        query_len: 3,
        batch_kind: Some(RecurrentBatchKind::SpeculativeDecode),
        uses_log: true,
        fused_max_tokens: 8,
        transitions_supported: true,
        checkpoints_supported: true,
        store_spec_hidden: true,
        continuation_without_cache: true,
    }
}

#[test]
fn a_pass_prepares_one_way_back() {
    let mode = forward_mode(&facts());
    assert!(mode.transition && mode.stash && !mode.checkpoint && !mode.stash_replay);
    assert!(!mode.apply_pending);
    assert_eq!(mode.lanes, 4);

    let mode = forward_mode(&ModeFacts { transitions_supported: false, ..facts() });
    assert!(!mode.transition && mode.checkpoint && !mode.stash && mode.apply_pending);
    assert_eq!(mode.lanes, 4);

    let neither = ModeFacts {
        transitions_supported: false,
        checkpoints_supported: false,
        ..facts()
    };
    let mode = forward_mode(&neither);
    assert!(mode.stash_replay && mode.stash && !mode.checkpoint);
    assert_eq!(mode.lanes, 1);

    let mode = forward_mode(&ModeFacts { query_len: 5, uses_log: false, ..facts() });
    assert!(!mode.transition && !mode.checkpoint && mode.stash_replay && !mode.apply_pending);

    let prefill = ModeFacts { batch_kind: Some(RecurrentBatchKind::Prefill), ..facts() };
    let mode = forward_mode(&prefill);
    assert!(!mode.transition && !mode.checkpoint && !mode.stash && mode.apply_pending);
}

#[test]
fn replays_are_kept_for_speculative_steps() {
    let speculative = Some(RecurrentBatchKind::SpeculativeDecode);
    assert!(should_stash_gdn_replay(false, true, 2, speculative, true));
    assert!(!should_stash_gdn_replay(true, true, 2, speculative, true));
    assert!(!should_stash_gdn_replay(false, false, 2, speculative, true));
    assert!(!should_stash_gdn_replay(false, true, 1, speculative, true));
    assert!(!should_stash_gdn_replay(false, true, 2, Some(RecurrentBatchKind::Decode), true));
    assert!(!should_stash_gdn_replay(false, true, 2, None, true));
    assert!(!should_stash_gdn_replay(false, true, 2, speculative, false));
}

#[test]
fn stashes_begin_with_the_slots_of_the_batch() {
    let mode = forward_mode(&facts());
    let stash = begin_stash(&mode, Some(vec![3, 5])).unwrap();
    assert_eq!(stash.slots, vec![3, 5]);
    assert!(stash.layers.is_empty());
    assert!(begin_stash(&mode, None).unwrap().slots.is_empty());
    let plain = forward_mode(&ModeFacts { batch_kind: None, ..facts() });
    assert!(begin_stash(&plain, Some(vec![3])).is_none());
}

#[test]
fn layers_run_on_their_own_caches() {
    let mode = forward_mode(&facts());
    let full = LayerType::FullAttention;
    let linear = LayerType::LinearAttention;
    assert_eq!(
        layer_step(0, full, LayerCache::Attention, false, false, &mode).unwrap(),
        LayerStep::Attention
    );
    assert_eq!(
        layer_step(0, full, LayerCache::Missing, false, false, &mode).unwrap(),
        LayerStep::Pass
    );
    assert_eq!(
        layer_step(0, linear, LayerCache::Recurrent, true, true, &mode).unwrap(),
        LayerStep::Packed
    );
    assert_eq!(
        layer_step(0, linear, LayerCache::Recurrent, true, false, &mode).unwrap(),
        LayerStep::Linear { lanes: 4, transition: true, gather: false, capture: true }
    );
    assert_eq!(
        message(layer_step(7, linear, LayerCache::Recurrent, false, false, &mode)),
        "Hybrid cache layer 7 is missing recurrent state indices"
    );
    assert_eq!(
        message(layer_step(7, linear, LayerCache::Attention, true, false, &mode)),
        "Hybrid cache layer 7 is not recurrent for a linear-attention layer."
    );
}

#[test]
fn passes_are_checked_before_they_run() {
    let linear = vec![LayerType::LinearAttention];
    let full = vec![LayerType::FullAttention];
    let recurrent = || {
        Some(RecurrentFacts {
            batch_kind: RecurrentBatchKind::Prefill,
            index_dims: vec![2],
            host_indices: Some(vec![0, 1]),
        })
    };
    let dims = vec![1, 5, 64];
    let lens = Some(vec![2, 3]);
    assert!(check_forward(&full, &lens, &dims, false, &None).is_ok());
    assert!(check_forward(&linear, &lens, &dims, true, &recurrent()).is_ok());
    assert!(check_forward(&linear, &None, &dims, false, &recurrent()).is_ok());
    assert_eq!(
        message(check_forward(&linear, &lens, &dims, true, &None)),
        "Hybrid recurrent metadata is required for linear-attention layers."
    );
    assert_eq!(
        message(check_forward(&linear, &lens, &dims, false, &recurrent())),
        "Qwen3-Next packed GDN requires the first prompt chunk"
    );
    let mut decode = recurrent();
    decode.as_mut().unwrap().batch_kind = RecurrentBatchKind::Decode;
    assert_eq!(
        message(check_forward(&linear, &lens, &dims, true, &decode)),
        "Qwen3-Next packed GDN cannot run a decode batch"
    );
    let mut few = recurrent();
    few.as_mut().unwrap().index_dims = vec![3];
    assert_eq!(
        message(check_forward(&linear, &lens, &dims, true, &few)),
        "Qwen3-Next packed GDN has 3 state indices but 2 logical sequences"
    );
    let mut hosts = recurrent();
    hosts.as_mut().unwrap().host_indices = Some(vec![0]);
    assert_eq!(
        message(check_forward(&linear, &lens, &dims, true, &hosts)),
        "Qwen3-Next packed GDN has 1 host state indices but 2 logical sequences"
    );
    assert_eq!(
        message(check_forward(&linear, &lens, &vec![5, 64], true, &recurrent())),
        "unexpected rank, expected: 3, got: 2 ([5, 64])"
    );
    assert_eq!(packed_query_lens(false, lens.clone()).unwrap(), None);
    assert_eq!(packed_query_lens(true, lens.clone()).unwrap(), lens);
    assert_eq!(
        message(packed_query_lens(true, None)),
        "Qwen3-Next packed GDN requires logical query lengths"
    );
    assert!(pending_check(false, false).is_ok());
    assert_eq!(
        message(pending_check(false, true)),
        "Qwen3Next pending recurrent transitions cannot be applied"
    );
}

// Recurrent layers.

fn commit_config(layout: usize) -> GdnTransitionCommitConfig {
    GdnTransitionCommitConfig {
        num_k_heads: 2,
        num_v_heads: 4,
        head_k_dim: 8,
        head_v_dim: 8,
        conv_dim: 32,
        conv_width: 4,
        tiled_v_heads: false,
        state_layout: layout,
    }
}

fn gdn(device: usize, layout: usize) -> GdnLayerFacts {
    GdnLayerFacts {
        linear: true,
        has_pool: true,
        transitions_supported: true,
        checkpoints_supported: true,
        deferred_supported: true,
        has_pending: true,
        transition_spec: 7,
        deferred_spec: 9,
        config: commit_config(layout),
        device,
        has_device_slots: true,
    }
}

fn full_layer() -> GdnLayerFacts {
    GdnLayerFacts { linear: false, has_pool: false, has_pending: false, ..gdn(0, 0) }
}

#[test]
fn support_needs_every_linear_layer() {
    let layers = [full_layer(), gdn(0, 0), gdn(0, 0)];
    assert!(supports_recurrent_speculative_transitions(true, &[true], &layers));
    assert!(supports_recurrent_speculative_checkpoints(true, &[true], &layers));
    assert!(!supports_recurrent_speculative_transitions(false, &[true], &layers));
    assert!(!supports_recurrent_speculative_transitions(true, &[true, false], &layers));
    assert!(!supports_recurrent_speculative_transitions(true, &[true], &[full_layer()]));
    let poor = [gdn(0, 0), GdnLayerFacts { checkpoints_supported: false, ..gdn(0, 0) }];
    assert!(!supports_recurrent_speculative_checkpoints(true, &[true], &poor));
    assert!(supports_recurrent_speculative_transitions(true, &[true], &poor));
    assert!(recurrent_checkpoint_devices_supported(true, &[true, true]));
    assert!(!recurrent_checkpoint_devices_supported(true, &[true, false]));
}

#[test]
fn storage_is_reserved_in_one_size() {
    let layers = [full_layer(), gdn(0, 0), gdn(1, 0)];
    assert_eq!(reserve_recurrent_transition_storage(true, &layers).unwrap(), Some(7));
    assert_eq!(reserve_recurrent_transition_storage(false, &layers).unwrap(), None);
    assert_eq!(reserve_recurrent_decode_deferred_storage(false, &layers).unwrap(), Some(9));
    assert_eq!(reserve_recurrent_decode_deferred_storage(true, &layers).unwrap(), None);
    let ragged = [gdn(0, 0), GdnLayerFacts { transition_spec: 8, ..gdn(0, 0) }];
    assert!(reserve_recurrent_transition_storage(true, &ragged).is_err());
    let poor = [gdn(0, 0), GdnLayerFacts { transitions_supported: false, ..gdn(0, 0) }];
    assert_eq!(reserve_recurrent_transition_storage(true, &poor).unwrap(), None);
}

#[test]
fn pending_layers_are_grouped_by_device_and_shape() {
    let layers = [gdn(0, 0), full_layer(), gdn(1, 0), gdn(0, 0), gdn(0, 5)];
    let groups = pending_apply_groups(&layers).unwrap();
    let listed = groups
        .iter()
        .map(|group| (group.device, group.layers.clone()))
        .collect::<Vec<_>>();
    assert_eq!(listed, vec![(0, vec![0, 3]), (1, vec![2]), (0, vec![4])]);
    assert!(pending_apply_groups(&[full_layer()]).is_none());
}

#[test]
fn pending_transitions_are_launched_in_chunks() {
    let long = (0..70).collect::<Vec<usize>>();
    let cut = layer_chunks(&long);
    assert_eq!(cut.iter().map(|chunk| chunk.len()).collect::<Vec<_>>(), vec![32, 32, 6]);
    assert_eq!(cut.concat(), long);
    let layers = [gdn(0, 0), gdn(0, 0)];
    match apply_pending_recurrent_transitions(2, true, &layers) {
        ApplyPlan::Launch(launches) => {
            assert_eq!(launches.len(), 1);
            assert_eq!(launches[0].chunks, vec![vec![0, 1]]);
        }
        other => panic!("unexpected plan {other:?}"),
    }
    assert!(matches!(
        apply_pending_recurrent_transitions(0, true, &layers),
        ApplyPlan::Nothing
    ));
    assert!(matches!(
        apply_pending_recurrent_transitions(2, false, &layers),
        ApplyPlan::Unavailable
    ));
    let apply = apply_pending_recurrent_transitions_with_cache(&[5, 9, 3, 5], 9, true, &layers);
    assert_eq!(apply.slots, vec![3, 5]);
    assert!(device_slots_check(true).is_ok());
    assert_eq!(
        message(device_slots_check(false)),
        "GDN transition batch has no device-local state slots"
    );
}

#[test]
fn deferred_states_are_flushed_layer_by_layer() {
    let layers = [gdn(0, 0), full_layer(), gdn(0, 0)];
    match flush_deferred_recurrent_state(true, Some(&[4, 9]), 9, &layers) {
        FlushPlan::Flush(steps) => {
            assert_eq!(steps.layers, vec![0, 2]);
            assert_eq!(steps.end, FlushEnd::Done);
        }
        other => panic!("unexpected plan {other:?}"),
    }
    assert!(matches!(
        flush_deferred_recurrent_state(false, None, 9, &layers),
        FlushPlan::Unavailable
    ));
    assert!(matches!(
        flush_deferred_recurrent_state(true, Some(&[9, 9]), 9, &layers),
        FlushPlan::Nothing
    ));
    assert!(deferred_flush_answer(2, true, FlushEnd::Done).unwrap());
    assert!(!deferred_flush_answer(0, true, FlushEnd::Done).unwrap());
    assert!(!deferred_flush_answer(2, false, FlushEnd::Done).unwrap());
    assert!(flush_recurrent_state_answer(true, true, true, false, false).is_ok());
    assert_eq!(
        message(flush_recurrent_state_answer(true, true, false, false, false)),
        "Qwen3Next pending recurrent transitions cannot be applied"
    );
    assert!(flush_recurrent_state_answer(true, false, false, true, false).is_err());
    assert!(flush_recurrent_state_answer(false, true, false, true, false).is_ok());
}

// Commits.

fn row(batch_idx: usize, keep_rows: usize, accepted_all: bool) -> SpeculativeCommitRow {
    SpeculativeCommitRow { batch_idx, keep_rows, accepted_all, terminal: false }
}

#[test]
fn replays_are_grouped_by_kept_rows() {
    let batches = group_gdn_replay_batches(&[(0, 2), (2, 1), (1, 2)], &[10, 11, 12]).unwrap();
    let listed = batches
        .iter()
        .map(|batch| (batch.keep_rows, batch.batch_indices.clone(), batch.slots.clone()))
        .collect::<Vec<_>>();
    assert_eq!(
        listed,
        vec![(1, vec![2], vec![12]), (2, vec![0, 1], vec![10, 11])]
    );
    assert!(group_gdn_replay_batches(&[(3, 1)], &[10, 11, 12]).is_err());
}

#[test]
fn kept_rows_are_listed_by_sequence() {
    let rows = [row(1, 2, false), row(0, 3, true)];
    assert_eq!(gdn_transition_keep_rows(&rows, 3, 4).unwrap(), vec![3, 2, 0]);
    let twice = [row(0, 1, false), row(0, 2, false)];
    assert_eq!(gdn_transition_keep_rows(&twice, 2, 4).unwrap(), vec![2, 0]);
    assert_eq!(
        message(gdn_transition_keep_rows(&[row(3, 1, false)], 3, 4)),
        "GDN transition batch row 3 exceeds captured batch 3"
    );
    assert_eq!(
        message(gdn_transition_keep_rows(&[row(0, 5, false)], 3, 4)),
        "GDN commit row count 5 exceeds checkpoint lanes 4"
    );
    assert_eq!(
        message(gdn_transition_keep_rows(&[row(0, 1 << 32, false)], 3, 4)),
        "GDN commit row count 4294967296 exceeds u32"
    );
    assert_eq!(gdn_replay_keep_rows(&[(2, 4)], 3).unwrap(), vec![0, 0, 4]);
    let mut ending = row(1, 2, false);
    ending.terminal = true;
    assert_eq!(
        terminal_gdn_transition_slots(&[row(0, 1, true), ending], &[7, 8]).unwrap(),
        vec![8]
    );
}

#[test]
fn live_slots_are_sorted_and_unique() {
    assert_eq!(live_slots(&[5, 9, 3, 5], 9), vec![3, 5]);
    assert_eq!(distinct_live_slots(&[5, 9, 3, 9], 9), Some(vec![3, 5]));
    assert_eq!(distinct_live_slots(&[5, 9, 3, 5], 9), None);
}

fn layout(name: &str) -> StateLayout {
    StateLayout { name: name.to_string() }
}

fn stash_layer(layer_idx: usize, transition: bool, device: usize) -> StashLayerFacts {
    StashLayerFacts {
        layer_idx,
        transition,
        stash_layout: layout("Dense"),
        is_gdn: true,
        has_pool: true,
        pool_layout: layout("Dense"),
        has_pending: true,
        transitions_supported: true,
        pending_capacity: 16,
        pending_k_heads: 2,
        commit_k_heads: 2,
        pending_max_rows: 4,
        pool_device: device,
        device,
        device_is_cuda: true,
        commit_supported: true,
    }
}

fn stash(layers: Vec<StashLayerFacts>) -> Option<StashFacts> {
    Some(StashFacts { slots: vec![4, 6], layers })
}

#[test]
fn transitions_are_published_by_device() {
    let layers = vec![stash_layer(0, true, 1), stash_layer(2, true, 0), stash_layer(3, true, 1)];
    let rows = [row(0, 2, false), row(1, 3, true)];
    match stage_recurrent_prefixes(&rows, &stash(layers), 4, true, 16, 99).unwrap() {
        StagePlan::Publish(plan) => {
            assert_eq!(plan.keep_rows, vec![2, 3]);
            let groups = plan
                .groups
                .iter()
                .map(|group| (group.device, group.layers.clone()))
                .collect::<Vec<_>>();
            assert_eq!(groups, vec![(1, vec![0, 2]), (0, vec![1])]);
            assert!(plan.terminal_slots.is_empty());
        }
        other => panic!("unexpected plan {other:?}"),
    }
    assert!(matches!(
        stage_recurrent_prefixes(&[], &None, 4, true, 16, 99).unwrap(),
        StagePlan::Staged
    ));
    assert_eq!(
        message(stage_recurrent_prefixes(&rows, &None, 4, true, 16, 99)),
        "no GDN transition stash for speculative commit"
    );
    let replay = stash(vec![stash_layer(0, false, 0)]);
    assert!(matches!(
        stage_recurrent_prefixes(&rows, &replay, 4, true, 16, 99).unwrap(),
        StagePlan::NotStaged
    ));
}

#[test]
fn replays_are_fused_where_devices_can() {
    let layers = vec![stash_layer(0, false, 3), stash_layer(2, false, 5), stash_layer(4, false, 3)];
    match replay_recurrent_prefixes(&[(1, 2)], &stash(layers)).unwrap() {
        ReplayPlan::Fused(fused) => {
            assert_eq!(fused.keep_rows, vec![0, 2]);
            assert_eq!(fused.devices, vec![3, 5]);
            assert_eq!(fused.device_of_layer, vec![0, 1, 0]);
        }
        other => panic!("unexpected plan {other:?}"),
    }
    let mut slow = stash_layer(2, false, 5);
    slow.commit_supported = false;
    let layers = vec![stash_layer(0, false, 3), slow];
    match replay_recurrent_prefixes(&[(1, 2), (0, 1)], &stash(layers)).unwrap() {
        ReplayPlan::Batches(replay) => {
            assert_eq!(replay.batches.len(), 2);
            assert_eq!(replay.device_of_layer, vec![0, 1]);
            assert!(matches!(replay.end, ReplayEnd::Done));
        }
        other => panic!("unexpected plan {other:?}"),
    }
    let mut other_layout = stash_layer(2, false, 5);
    other_layout.pool_layout = layout("Tiled");
    let layers = vec![stash_layer(0, false, 3), other_layout];
    match replay_recurrent_prefixes(&[(1, 2)], &stash(layers)).unwrap() {
        ReplayPlan::Batches(replay) => match replay.end {
            ReplayEnd::Refused(fault) => assert_eq!(
                fault.message,
                "GDN replay state layout mismatch: stash Dense, pool Tiled"
            ),
            ReplayEnd::Done => panic!("the second layer has another layout"),
        },
        other => panic!("unexpected plan {other:?}"),
    }
}

#[test]
fn replays_refuse_what_is_not_theirs() {
    assert!(matches!(
        replay_recurrent_prefixes(&[], &None).unwrap(),
        ReplayPlan::Nothing
    ));
    assert_eq!(
        message(replay_recurrent_prefixes(&[(0, 1)], &None)),
        "no GDN replay stash for speculative rollback"
    );
    let mixed = stash(vec![stash_layer(0, false, 0), stash_layer(1, true, 0)]);
    assert_eq!(
        message(replay_recurrent_prefixes(&[(0, 1)], &mixed)),
        "GDN speculative stash mixes replay and transition layers"
    );
    let logged = stash(vec![stash_layer(0, true, 0)]);
    assert_eq!(
        message(replay_recurrent_prefixes(&[(0, 1)], &logged)),
        "GDN direct transitions must be published before replay fallback"
    );
    assert!(fused_commit_check(true).is_ok());
    assert_eq!(
        message(fused_commit_check(false)),
        "CUDA GDN speculative state commit was unavailable"
    );
}

#[test]
fn commits_try_the_cheapest_way_first() {
    let rows = [row(0, 2, true), row(1, 1, false)];
    assert!(matches!(speculative_commit(&rows, true, true), CommitStep::Stage));
    match speculative_commit(&rows, false, true) {
        CommitStep::Checkpoint(pairs) => assert_eq!(pairs, vec![(0, 2), (1, 1)]),
        other => panic!("unexpected step {other:?}"),
    }
    match speculative_commit(&rows, false, false) {
        CommitStep::Replay(pairs) => assert_eq!(pairs, vec![(1, 1)]),
        other => panic!("unexpected step {other:?}"),
    }
    assert!(matches!(after_stage(&rows, true), CommitStep::Clear));
    match after_stage(&rows, false) {
        CommitStep::Replay(pairs) => assert_eq!(pairs, vec![(0, 2), (1, 1)]),
        other => panic!("unexpected step {other:?}"),
    }
    assert!(matches!(after_checkpoint(&rows, true), CommitStep::Clear));
    match after_checkpoint(&[row(0, 2, true)], false) {
        CommitStep::Replay(pairs) => assert!(pairs.is_empty()),
        other => panic!("unexpected step {other:?}"),
    }
}

// The head that predicts several tokens.

#[test]
fn heads_are_found_by_their_weight() {
    let with = WeightNames {
        prefix: String::new(),
        residual: vec![],
        source: vec!["mtp.fc.weight".to_string()],
    };
    let plan = plan_mtp_head(&config(), &with).unwrap();
    assert_eq!((plan.fc_in, plan.fc_out), (128, 64));
    assert_eq!((plan.layer_idx, plan.kv_layer_idx), (8, 8));
    let without = WeightNames { prefix: String::new(), residual: vec![], source: vec![] };
    assert_eq!(
        message(plan_mtp_head(&config(), &without)),
        "`--mtp` requested but the checkpoint has no built-in MTP head (`mtp.fc.weight`)."
    );
    assert!(mtp_head_check(true).is_ok());
    assert_eq!(message(mtp_head_check(false)), "Qwen3Next MTP head is not loaded");
    assert!(mtp_cache_check(9, 8).is_ok());
    assert_eq!(message(mtp_cache_check(8, 8)), "paged cache has no MTP layer");
}

fn mtp(builtin: bool, n_predict: Option<usize>) -> SpeculativeConfig {
    SpeculativeConfig::Mtp(MtpConfig { builtin, n_predict, requantizes_logits: false })
}

#[test]
fn drafters_are_attached_and_taken_away() {
    let mut target = SpeculativeTarget::new();
    assert!(!target.has_speculative_proposer());
    assert_eq!(target.speculative_plan(), None);
    assert!(target.speculative_graph_plans().is_empty());

    let attached = target.attach_speculative(&mtp(true, None), true, 2048).unwrap().unwrap();
    assert_eq!(attached.n_predict, DEFAULT_MTP_N_PREDICT);
    assert!(target.store.store);
    let attached = target.attach_speculative(&mtp(true, None), true, 4096).unwrap().unwrap();
    assert_eq!(attached.n_predict, 3);
    assert_eq!(target.speculative_plan(), Some(3));
    assert_eq!(target.speculative_graph_plans(), vec![3]);

    assert_eq!(
        message(target.attach_speculative(&mtp(false, None), true, 4096)),
        "Qwen3Next supports only the built-in MTP drafter"
    );
    assert_eq!(
        message(target.attach_speculative(&mtp(true, None), false, 4096)),
        "The built-in MTP head was not loaded; pass `--mtp` when loading the model."
    );
    assert_eq!(
        message(target.attach_speculative(&mtp(true, Some(0)), true, 4096)),
        "MTP n_predict must be at least 1."
    );
    assert_eq!(target.n_predict, 3);

    let other = SpeculativeConfig::Other;
    assert!(target.attach_speculative(&other, true, 4096).unwrap().is_none());
    assert_eq!(target.n_predict, 0);
    assert!(!target.store.store);
}

#[test]
fn draft_rows_become_columns() {
    let rows = vec![
        DraftRow { seq_id: 4, position: 7, token: 70 },
        DraftRow { seq_id: 5, position: 0, token: 71 },
    ];
    let inputs = draft_inputs(&rows);
    assert_eq!(inputs.tokens, vec![70, 71]);
    assert_eq!(inputs.positions, vec![7, 0]);
    assert_eq!(inputs.seq_ids, vec![4, 5]);
    assert_eq!(inputs.context_lens, vec![8, 1]);
}

#[test]
fn chunks_are_shifted_by_one_token() {
    let tokens = vec![vec![10, 11, 12, 13], vec![20, 21]];
    let chunk = shifted_chunk(&vec![2, 3, 8], &[(1, 4), (0, 2)], &tokens, true).unwrap();
    assert_eq!(
        chunk.tokens,
        vec![12, 13, PLACEHOLDER_TOKEN, 21, PLACEHOLDER_TOKEN, PLACEHOLDER_TOKEN]
    );
    assert_eq!(chunk.offsets, vec![1, 0]);
    let more = vec![vec![10, 11, 12, 13, 14]];
    let chunk = shifted_chunk(&vec![1, 3, 8], &[(1, 4)], &more, false).unwrap();
    assert_eq!(chunk.tokens, vec![12, 13, 14]);
    assert_eq!(
        message(shifted_chunk(&vec![3, 3, 8], &[(1, 4)], &more, false)),
        "MTP prefill capture has 3 rows for 1 sequences"
    );
    assert_eq!(
        message(shifted_chunk(&vec![3, 8], &[(1, 4)], &more, false)),
        "unexpected rank, expected: 3, got: 2 ([3, 8])"
    );
}

#[test]
fn proposals_are_checked_against_the_configuration() {
    assert!(check_proposal(2, 3, 2, 2, 2).unwrap());
    assert!(!check_proposal(0, 3, 2, 0, 0).unwrap());
    assert!(!check_proposal(2, 0, 2, 2, 2).unwrap());
    assert_eq!(
        message(check_proposal(2, 3, 4, 2, 2)),
        "MTP proposal length 4 is outside the configured range 1..=3"
    );
    assert_eq!(
        message(check_proposal(2, 3, 2, 1, 2)),
        "MTP batch shape mismatch: sequences=2, target_rows=1, base_lens=2"
    );
    assert_eq!(slot_requests(&vec![4, 5], &vec![10, 20], 3), vec![(4, 13), (5, 23)]);
}
