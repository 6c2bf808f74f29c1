use mistral_plan::gguf::gemma4::{gemma4_is_in_range, synthesize_gemma4};
use mistral_plan::gguf::glimmer::{glimmer_is_in_range, synthesize_muse_glimmer};
use mistral_plan::gguf::multimodal::{
    supports_standalone_assets, supports_standalone_config, synthesize_gemma4_preprocessor,
    synthesize_multimodal_config, synthesize_muse_glimmer_preprocessor,
    synthesize_qwen35_preprocessor, MultimodalLoaderType,
};
use mistral_plan::gguf::qwen35::{
    qwen35_grid_fits, qwen35_vision_config, synthesize_qwen35, IMAGE_TOKEN, VIDEO_TOKEN,
    VISION_END_TOKEN, VISION_START_TOKEN,
};
use mistral_plan::gguf::shapes::{
    gemma4_attention_k_eq_v, gemma4_kv_heads, gemma4_layer_types, gemma4_vision_attn_dims,
    glimmer_projector_hidden, proj_out_dim, text_attention_bias, vision_attn_is_empty,
    TensorShapes,
};
use mistral_plan::gguf::value::{
    deepstack_indices, f32_3, gen_ids, int_array_values, optional_usize, required_bool_array,
    required_f64, required_usize, token_id, tokenizer_len, value_usize, GgufValue, Metadata,
    DEEPSTACK_LAYERS_KEY, TOKENIZER_TOKENS_KEY,
};
use mistral_plan::name_map::NameMap;
use mistral_plan::text::Fault;
use serde_json::{Number, Value};

fn float(raw: f32) -> GgufValue {
    GgufValue::F32(Number::from_f64(f64::from(raw)))
}

fn text(raw: &str) -> GgufValue {
    GgufValue::String(raw.to_string())
}

fn ints(raw: &[i32]) -> GgufValue {
    GgufValue::Array(raw.iter().map(|n| GgufValue::I32(*n)).collect())
}

fn bools(raw: &[bool]) -> GgufValue {
    GgufValue::Array(raw.iter().map(|b| GgufValue::Bool(*b)).collect())
}

fn strings(raw: &[&str]) -> GgufValue {
    GgufValue::Array(raw.iter().map(|s| text(s)).collect())
}

fn meta(pairs: Vec<(&str, GgufValue)>) -> Metadata {
    let mut metadata: Metadata = NameMap::new();
    for (key, value) in pairs {
        metadata.insert(key.to_string(), value);
    }
    metadata
}

fn shapes(pairs: &[(&str, &[usize])]) -> TensorShapes {
    let mut shapes: TensorShapes = NameMap::new();
    for (name, dims) in pairs {
        shapes.insert(name.to_string(), dims.to_vec());
    }
    shapes
}

fn message<T>(outcome: Result<T, Fault>) -> String {
    match outcome {
        Ok(_) => panic!("expected a refusal"),
        Err(fault) => fault.message,
    }
}

fn vision_meta() -> Metadata {
    meta(vec![
        ("clip.vision.image_size", GgufValue::U32(768)),
        ("clip.vision.patch_size", GgufValue::U32(16)),
        ("clip.vision.block_count", GgufValue::U32(27)),
        ("clip.vision.embedding_length", GgufValue::U32(1152)),
        ("clip.vision.projection_dim", GgufValue::U32(5120)),
        ("clip.vision.feed_forward_length", GgufValue::U32(4304)),
        ("clip.vision.attention.head_count", GgufValue::U32(16)),
        ("clip.vision.spatial_merge_size", GgufValue::U32(2)),
    ])
}

#[test]
fn qwen35_vision_config_derives_grid_positions() {
    let vision = qwen35_vision_config(&vision_meta()).unwrap();
    assert_eq!(vision["depth"], Value::from(27));
    assert_eq!(vision["hidden_size"], Value::from(1152));
    assert_eq!(vision["out_hidden_size"], Value::from(5120));
    assert_eq!(vision["intermediate_size"], Value::from(4304));
    assert_eq!(vision["num_heads"], Value::from(16));
    assert_eq!(vision["num_position_embeddings"], Value::from(48 * 48));
    assert_eq!(vision["deepstack_visual_indexes"], Value::from(Vec::<u64>::new()));
    assert_eq!(vision["spatial_merge_size"], Value::from(2));
}

#[test]
fn qwen35_vision_config_rejects_ragged_grid() {
    let mut metadata = vision_meta();
    metadata.insert("clip.vision.image_size".to_string(), GgufValue::U32(770));
    assert!(qwen35_vision_config(&metadata).is_err());
}

#[test]
fn deepstack_indices_collects_true_positions() {
    let metadata = meta(vec![(DEEPSTACK_LAYERS_KEY, bools(&[false, true, false, true]))]);
    assert_eq!(deepstack_indices(&metadata).unwrap(), vec![1, 3]);
    assert!(deepstack_indices(&NameMap::new()).unwrap().is_empty());
}

#[test]
fn token_id_resolves_vocab_position() {
    let metadata = meta(vec![(TOKENIZER_TOKENS_KEY, strings(&["a", VISION_START_TOKEN, "b"]))]);
    assert_eq!(token_id(&metadata, VISION_START_TOKEN).unwrap(), 1);
    assert!(token_id(&metadata, IMAGE_TOKEN).is_err());
}

#[test]
fn standalone_cover_matches_new_pairs() {
    assert!(supports_standalone_config("qwen35", Some("qwen3vl_merger")));
    assert!(supports_standalone_config("gemma4", Some("gemma4v")));
    assert!(supports_standalone_config("muse-glimmer", Some("muse-glimmer")));
    assert!(!supports_standalone_config("gemma4", Some("gemma4uv")));
    assert!(!supports_standalone_config("gemma4", None));
    assert!(!supports_standalone_config("llama4", Some("llama4")));
}

fn gemma4_test_meta() -> Metadata {
    let tokens = [
        "<pad>",
        "<eos>",
        "<bos>",
        "<unk>",
        "<|image|>",
        "<|audio|>",
        "<|video|>",
        "<|image>",
        "<image|>",
        "<|audio>",
        "<audio|>",
    ];
    meta(vec![
        ("gemma4.block_count", GgufValue::U32(4)),
        ("gemma4.embedding_length", GgufValue::U32(32)),
        ("gemma4.feed_forward_length", GgufValue::U32(64)),
        ("gemma4.attention.head_count", GgufValue::U32(4)),
        ("gemma4.attention.head_count_kv", ints(&[2, 2, 1, 1])),
        ("gemma4.attention.key_length", GgufValue::U32(8)),
        ("gemma4.attention.value_length", GgufValue::U32(8)),
        ("gemma4.attention.key_length_swa", GgufValue::U32(4)),
        ("gemma4.attention.value_length_swa", GgufValue::U32(4)),
        ("gemma4.attention.sliding_window", GgufValue::U32(16)),
        ("gemma4.attention.sliding_window_pattern", bools(&[true, true, false, false])),
        ("gemma4.attention.layer_norm_rms_epsilon", float(1e-6)),
        ("gemma4.rope.dimension_count", GgufValue::U32(8)),
        ("gemma4.rope.dimension_count_swa", GgufValue::U32(4)),
        ("gemma4.rope.freq_base", float(1000000.0)),
        ("gemma4.rope.freq_base_swa", float(10000.0)),
        ("gemma4.context_length", GgufValue::U32(128)),
        ("gemma4.expert_count", GgufValue::U32(8)),
        ("gemma4.expert_feed_forward_length", GgufValue::U32(16)),
        ("gemma4.expert_used_count", GgufValue::U32(2)),
        ("gemma4.final_logit_softcapping", float(50.0)),
        ("tokenizer.ggml.bos_token_id", GgufValue::U32(2)),
        ("tokenizer.ggml.eos_token_id", GgufValue::U32(106)),
        ("clip.vision.block_count", GgufValue::U32(2)),
        ("clip.vision.embedding_length", GgufValue::U32(16)),
        ("clip.vision.feed_forward_length", GgufValue::U32(32)),
        ("clip.vision.attention.head_count", GgufValue::U32(4)),
        ("clip.vision.patch_size", GgufValue::U32(8)),
        (TOKENIZER_TOKENS_KEY, strings(&tokens)),
    ])
}

fn gemma4_test_shapes() -> TensorShapes {
    shapes(&[
        ("output.weight", &[11, 32]),
        ("v.position_embd.weight", &[2, 64, 16]),
        ("v.blk.0.attn_q.weight", &[16, 16]),
        ("v.blk.0.attn_k.weight", &[8, 16]),
        ("blk.0.attn_v.weight", &[8, 32]),
        ("blk.1.attn_v.weight", &[8, 32]),
    ])
}

#[test]
fn gemma4_synthesis_partitions_kv_and_maps_layers() {
    let metadata = gemma4_test_meta();
    let config = synthesize_gemma4(&metadata, &gemma4_test_shapes()).unwrap();
    assert_eq!(
        config["text_config"]["layer_types"],
        Value::from(vec![
            "sliding_attention",
            "sliding_attention",
            "full_attention",
            "full_attention"
        ])
    );
    assert_eq!(config["text_config"]["num_key_value_heads"], Value::from(2));
    assert_eq!(config["text_config"]["num_global_key_value_heads"], Value::from(1));
    assert_eq!(config["text_config"]["num_experts"], Value::from(8));
    assert_eq!(config["text_config"]["enable_moe_block"], Value::from(true));
    assert_eq!(config["text_config"]["attention_k_eq_v"], Value::from(true));
    assert_eq!(config["text_config"]["tie_word_embeddings"], Value::from(true));
    assert_eq!(config["vision_config"]["head_dim"], Value::from(4));
    assert_eq!(config["vision_config"]["num_key_value_heads"], Value::from(2));
    assert_eq!(config["vision_config"]["position_embedding_size"], Value::from(64));
    assert_eq!(config["image_token_id"], Value::from(4));
    assert_eq!(
        config["architectures"],
        Value::from(vec!["Gemma4ForConditionalGeneration"])
    );
}

#[test]
fn gemma4_synthesis_rejects_ragged_kv_classes() {
    let mut metadata = gemma4_test_meta();
    metadata.insert("gemma4.attention.head_count_kv".to_string(), ints(&[2, 3, 1, 1]));
    assert!(synthesize_gemma4(&metadata, &NameMap::new()).is_err());
}

fn glimmer_test_meta() -> Metadata {
    meta(vec![
        ("muse-glimmer.block_count", GgufValue::U32(8)),
        ("muse-glimmer.embedding_length", GgufValue::U32(64)),
        ("muse-glimmer.feed_forward_length", GgufValue::U32(128)),
        ("muse-glimmer.attention.head_count", GgufValue::U32(4)),
        ("muse-glimmer.attention.head_count_kv", GgufValue::U32(2)),
        ("muse-glimmer.attention.key_length", GgufValue::U32(16)),
        ("muse-glimmer.attention.value_length", GgufValue::U32(16)),
        ("muse-glimmer.attention.sliding_window", GgufValue::U32(32)),
        ("muse-glimmer.attention.layer_norm_rms_epsilon", float(1e-5)),
        ("muse-glimmer.rope.freq_base", float(500000.0)),
        ("muse-glimmer.context_length", GgufValue::U32(256)),
        ("muse-glimmer.final_logit_softcapping", float(20.0)),
        ("muse-glimmer.logit_scale", float(3.87)),
        ("tokenizer.ggml.bos_token_id", GgufValue::U32(200000)),
        ("tokenizer.ggml.eos_token_id", GgufValue::U32(200001)),
        ("clip.vision.block_count", GgufValue::U32(6)),
        ("clip.vision.embedding_length", GgufValue::U32(32)),
        ("clip.vision.feed_forward_length", GgufValue::U32(64)),
        ("clip.vision.attention.head_count", GgufValue::U32(4)),
        ("clip.vision.patch_size", GgufValue::U32(7)),
        ("clip.vision.spatial_merge_size", GgufValue::U32(2)),
        (
            "clip.vision.image_mean",
            GgufValue::Array(vec![float(0.5), float(0.5), float(0.5)]),
        ),
        (
            "clip.vision.image_std",
            GgufValue::Array(vec![float(0.5), float(0.5), float(0.5)]),
        ),
        (TOKENIZER_TOKENS_KEY, strings(&["a", "<|patch|>", "<|video|>"])),
    ])
}

#[test]
fn glimmer_synthesis_derives_projector_and_tokens() {
    let metadata = glimmer_test_meta();
    let config =
        synthesize_muse_glimmer(&metadata, &shapes(&[("mm.0.weight", &[128, 128])])).unwrap();
    assert_eq!(config["text_config"]["head_dim"], Value::from(16));
    assert_eq!(
        config["text_config"]["output_multiplier"],
        Value::from(f64::from(3.87f32))
    );
    assert!(config["text_config"].get("qk_scale_factor").is_none());
    assert_eq!(config["text_config"]["tie_word_embeddings"], Value::from(false));
    assert_eq!(config["vision_config"]["merge_size"], Value::from(2));
    assert_eq!(config["projector_hidden_size"], Value::from(128));
    assert_eq!(config["image_token_id"], Value::from(1));
    assert_eq!(config["video_token_id"], Value::from(2));
    assert_eq!(
        config["architectures"],
        Value::from(vec!["MuseGlimmerForConditionalGeneration"])
    );
}

#[test]
fn glimmer_synthesis_rejects_mismatched_projector_layout() {
    let metadata = glimmer_test_meta();
    assert!(synthesize_muse_glimmer(&metadata, &shapes(&[("mm.0.weight", &[7, 9])])).is_err());
}

#[test]
fn native_preprocessors_synthesize() {
    let metadata = glimmer_test_meta();
    let glimmer = synthesize_muse_glimmer_preprocessor(&metadata).unwrap();
    assert!(glimmer.contains("\"patch_size\":7"));
    let gemma = synthesize_gemma4_preprocessor(&metadata).unwrap();
    assert!(gemma.contains("\"do_convert_rgb\":true"));
}

// Readers.

#[test]
fn integers_of_any_width_are_sizes() {
    assert_eq!(value_usize(&GgufValue::U8(7)), Some(7));
    assert_eq!(value_usize(&GgufValue::I64(1 << 40)), Some(1 << 40));
    assert_eq!(value_usize(&GgufValue::I8(-1)), None);
    assert_eq!(value_usize(&text("7")), None);
}

#[test]
fn sizes_are_required_or_optional() {
    let metadata = meta(vec![("a", GgufValue::U16(3)), ("b", text("x"))]);
    assert_eq!(required_usize(&metadata, "a").unwrap(), 3);
    assert_eq!(optional_usize(&metadata, "a").unwrap(), Some(3));
    assert_eq!(optional_usize(&metadata, "c").unwrap(), None);
    assert_eq!(message(required_usize(&metadata, "c")), "Standalone multimodal config requires GGUF `c`");
    assert_eq!(
        message(required_usize(&metadata, "b")),
        "GGUF `b` must be an integer"
    );
    assert_eq!(
        message(optional_usize(&metadata, "b")),
        "GGUF `b` must be an integer"
    );
}

#[test]
fn lists_are_read_item_by_item() {
    let metadata = meta(vec![
        ("flags", bools(&[true, false])),
        ("mixed", GgufValue::Array(vec![GgufValue::Bool(true), GgufValue::U8(1)])),
    ]);
    assert_eq!(required_bool_array(&metadata, "flags").unwrap(), vec![true, false]);
    assert!(required_bool_array(&metadata, "mixed").is_err());
    assert!(required_bool_array(&metadata, "none").is_err());
    assert_eq!(int_array_values(&ints(&[2, 1]), "k").unwrap(), vec![2, 1]);
    assert!(int_array_values(&ints(&[-2]), "k").is_err());
    assert!(int_array_values(&GgufValue::Bool(true), "k").is_err());
}

#[test]
fn floats_keep_their_value() {
    let metadata = meta(vec![
        ("scale", float(0.1)),
        ("half", GgufValue::F64(Number::from_f64(0.5))),
        ("mean", GgufValue::Array(vec![float(0.25), float(0.5), float(0.75)])),
        ("pair", GgufValue::Array(vec![float(0.25), float(0.5)])),
    ]);
    assert_eq!(
        required_f64(&metadata, "scale").unwrap(),
        Number::from_f64(f64::from(0.1f32))
    );
    assert_eq!(required_f64(&metadata, "half").unwrap(), Number::from_f64(0.5));
    assert!(required_f64(&metadata, "mean").is_err());
    assert_eq!(f32_3(&metadata, "mean").unwrap(), Value::from(vec![0.25, 0.5, 0.75]));
    assert_eq!(f32_3(&metadata, "pair").unwrap(), Value::from(vec![0.25, 0.5, 0.5]));
    assert_eq!(
        message(f32_3(&metadata, "scale")),
        "Standalone multimodal config requires GGUF `scale`"
    );
    let mixed = meta(vec![("mean", ints(&[1]))]);
    assert_eq!(message(f32_3(&mixed, "mean")), "GGUF `mean` must be an f32 array");
}

#[test]
fn vocabularies_are_counted() {
    let metadata = meta(vec![(TOKENIZER_TOKENS_KEY, strings(&["a", "b", "c"]))]);
    assert_eq!(tokenizer_len(&metadata).unwrap(), 3);
    assert!(tokenizer_len(&meta(vec![(TOKENIZER_TOKENS_KEY, strings(&[]))])).is_err());
    assert!(tokenizer_len(&NameMap::new()).is_err());
}

#[test]
fn stop_ids_hold_the_end_once() {
    let single = meta(vec![
        ("tokenizer.ggml.bos_token_id", GgufValue::U32(1)),
        ("tokenizer.ggml.eos_token_id", GgufValue::U32(2)),
    ]);
    let (bos, stops) = gen_ids(&single).unwrap();
    assert_eq!(bos, 1);
    assert_eq!(stops, Value::from(2));
    let mut named = single;
    named.insert(TOKENIZER_TOKENS_KEY.to_string(), strings(&["<pad>", "<eos>"]));
    assert_eq!(gen_ids(&named).unwrap().1, Value::from(vec![2, 1]));
    named.insert("tokenizer.ggml.eos_token_id".to_string(), GgufValue::U32(1));
    assert_eq!(gen_ids(&named).unwrap().1, Value::from(1));
    named.insert("tokenizer.ggml.eos_token_id".to_string(), GgufValue::U64(1 << 32));
    assert_eq!(
        message(gen_ids(&named)),
        "GGUF `tokenizer.ggml.eos_token_id` does not fit u32"
    );
    assert!(gen_ids(&NameMap::new()).is_err());
}

// Shapes.

#[test]
fn a_weight_is_read_either_way_round() {
    assert_eq!(proj_out_dim(&[16, 48], 16), Some(48));
    assert_eq!(proj_out_dim(&[48, 16], 16), Some(48));
    assert_eq!(proj_out_dim(&[48, 16], 17), None);
    assert_eq!(proj_out_dim(&[16], 16), None);
}

#[test]
fn projectors_merge_patches() {
    let found = shapes(&[("mm.0.weight", &[128, 96])]);
    assert_eq!(glimmer_projector_hidden(&found, 2, 32).unwrap(), Some(96));
    assert_eq!(glimmer_projector_hidden(&NameMap::new(), 2, 32).unwrap(), None);
    assert!(glimmer_projector_hidden(&found, 2, 33).is_err());
}

#[test]
fn layer_kinds_follow_the_pattern() {
    let metadata = gemma4_test_meta();
    let kinds = gemma4_layer_types(&metadata, 4).unwrap();
    assert_eq!(
        kinds,
        vec!["sliding_attention", "sliding_attention", "full_attention", "full_attention"]
    );
    assert!(gemma4_layer_types(&metadata, 5).is_err());
    let heads = gemma4_kv_heads(&metadata, &kinds).unwrap();
    assert_eq!((heads.sliding, heads.full), (Some(2), Some(1)));
}

#[test]
fn shared_keys_are_found_by_missing_values() {
    let kinds = vec!["sliding_attention".to_string(), "full_attention".to_string()];
    let shared = shapes(&[("blk.0.attn_v.weight", &[8, 32])]);
    assert!(gemma4_attention_k_eq_v(&shared, &kinds).unwrap());
    let own = shapes(&[("blk.0.attn_v.weight", &[8, 32]), ("blk.1.attn_v.weight", &[8, 32])]);
    assert!(!gemma4_attention_k_eq_v(&own, &kinds).unwrap());
}

#[test]
fn attention_biases_are_all_or_none() {
    assert!(!text_attention_bias(&NameMap::new(), 2).unwrap());
    let some = shapes(&[("blk.0.attn_q.bias", &[8])]);
    assert!(text_attention_bias(&some, 2).is_err());
}

#[test]
fn vision_heads_are_tiled() {
    let found = shapes(&[
        ("v.blk.0.attn_q.weight", &[16, 16]),
        ("v.blk.0.attn_k.weight", &[8, 16]),
    ]);
    assert!(!vision_attn_is_empty(&found, 4, 16));
    assert_eq!(gemma4_vision_attn_dims(&found, 4, 16).unwrap(), Some((4, 2)));
    assert_eq!(gemma4_vision_attn_dims(&NameMap::new(), 4, 16).unwrap(), None);
    assert!(gemma4_vision_attn_dims(&found, 3, 16).is_err());
}

// Whole configurations.

fn qwen35_meta() -> Metadata {
    let mut metadata = vision_meta();
    metadata.insert(
        TOKENIZER_TOKENS_KEY.to_string(),
        strings(&[IMAGE_TOKEN, VIDEO_TOKEN, VISION_START_TOKEN, VISION_END_TOKEN]),
    );
    metadata
}

fn object(pairs: &[(&str, Value)]) -> Value {
    let mut map = serde_json::Map::new();
    for (key, value) in pairs {
        map.insert(key.to_string(), value.clone());
    }
    Value::Object(map)
}

#[test]
fn qwen35_ties_embeddings_without_an_output_weight() {
    let metadata = qwen35_meta();
    assert!(qwen35_grid_fits(&metadata));
    let text_config = object(&[("hidden_size", Value::from(64))]);
    let names = vec!["token_embd.weight".to_string()];
    let config = synthesize_qwen35(&metadata, &names, Ok(text_config)).unwrap();
    assert_eq!(config["tie_word_embeddings"], Value::from(true));
    assert_eq!(config["image_token_id"], Value::from(0));
    assert_eq!(config["vision_config"]["depth"], Value::from(27));
    let untied = vec!["output.weight".to_string()];
    let text_config = object(&[("hidden_size", Value::from(64))]);
    let config = synthesize_qwen35(&metadata, &untied, Ok(text_config)).unwrap();
    assert_eq!(config["tie_word_embeddings"], Value::from(false));
    let refused = synthesize_qwen35(&metadata, &untied, Err(Fault::of("no text")));
    assert_eq!(message(refused), "no text");
}

#[test]
fn unknown_loaders_are_refused() {
    let refused = synthesize_multimodal_config(
        MultimodalLoaderType::Other,
        "llama4",
        &NameMap::new(),
        &NameMap::new(),
        Err(Fault::of("no text")),
    );
    assert_eq!(
        message(refused),
        "multimodal GGUF architecture `llama4` requires its original `config.json`; pass \
         `--tok-model-id <original-model-id>`"
    );
}

#[test]
fn multimodal_configs_are_written_out() {
    let metadata = glimmer_test_meta();
    let found = shapes(&[("mm.0.weight", &[128, 128])]);
    assert!(glimmer_is_in_range(&metadata, &found));
    assert!(gemma4_is_in_range(&gemma4_test_meta(), &gemma4_test_shapes()));
    let written = synthesize_multimodal_config(
        MultimodalLoaderType::MuseGlimmer,
        "muse-glimmer",
        &metadata,
        &found,
        Err(Fault::of("no text")),
    )
    .unwrap();
    let value: Value = serde_json::from_str(&written).unwrap();
    assert_eq!(value, synthesize_muse_glimmer(&metadata, &found).unwrap());
}

#[test]
fn assets_are_matched_by_architecture_and_projector() {
    let model = meta(vec![("general.architecture", text("gemma4"))]);
    let good = meta(vec![("clip.vision.projector_type", text("gemma4v"))]);
    let other = meta(vec![("clip.vision.projector_type", text("gemma4uv"))]);
    assert!(supports_standalone_assets(&model, &[&good]));
    assert!(!supports_standalone_assets(&model, &[&other]));
    assert!(!supports_standalone_assets(&model, &[&other, &good]));
    assert!(!supports_standalone_assets(&model, &[]));
    assert!(!supports_standalone_assets(&NameMap::new(), &[&good]));
}

#[test]
fn preprocessors_rescale_by_one_over_255() {
    let gemma = synthesize_gemma4_preprocessor(&NameMap::new()).unwrap();
    let value: Value = serde_json::from_str(&gemma).unwrap();
    assert_eq!(value["rescale_factor"], Value::from(1.0 / 255.0));
    let qwen = synthesize_qwen35_preprocessor(&glimmer_test_meta()).unwrap();
    let value: Value = serde_json::from_str(&qwen).unwrap();
    assert_eq!(value["patch_size"], Value::from(7));
    assert!(value.get("size").is_some());
    assert!(synthesize_qwen35_preprocessor(&NameMap::new()).is_err());
}
