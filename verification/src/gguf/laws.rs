//! What the configurations show of a file, member by member.
use vstd::prelude::*;

use crate::gguf::gemma4::{
    gemma4_kinds, gemma4_layers, gemma4_members, gemma4_refusal, gemma4_text_json,
    gemma4_text_members, gemma4_text_refusal, gemma4_vision_json, gemma4_vision_refusal,
};
use crate::gguf::glimmer::{
    glimmer_json, glimmer_layers, glimmer_refusal, glimmer_text_members, glimmer_text_refusal,
    glimmer_vision_json, glimmer_vision_refusal,
};
use crate::gguf::multimodal::{
    gemma4_preprocessor, merge_size, patch_members, patch_refusal, pixel_budget,
    qwen35_preprocessor,
};
use crate::gguf::qwen35::{
    qwen35_members, qwen35_refusal, qwen35_vision_members, qwen35_vision_refusal, IMAGE_TOKEN,
    VIDEO_TOKEN, VISION_END_TOKEN, VISION_START_TOKEN,
};
use crate::gguf::shapes::{
    attention_bias, block_tensor, kv_heads_of, law_attention_bias, law_keys_are_values,
    law_kv_heads_are_uniform, law_vision_heads_tile_queries, layer_biases, vision_heads,
    vision_outputs,
};
use crate::gguf::value::{
    deepstack_places, first_at, generation_ids, integer_items, law_true_places, required_id, required_size, stop_ids,
    token_entry, token_json, vocab_size, GgufValue, DEEPSTACK_LAYERS_KEY,
};
use crate::json::{number_json, read_number, uint_list, Json, JsonNumber};

verus! {

/// Whether a configuration has a member of that name and value.
pub open spec fn shows(config: Json, name: Seq<char>, value: Json) -> bool {
    config.members().contains_key(name) && config.members()[name] == value
}

/// Whether a member is the integer that the file has under a key.
pub open spec fn shows_size(
    config: Json,
    name: Seq<char>,
    metadata: Map<Seq<char>, GgufValue>,
    key: Seq<char>,
) -> bool {
    &&& metadata.contains_key(key)
    &&& metadata[key].integer() matches Some(n) && n >= 0 && shows(
        config,
        name,
        Json::Number(JsonNumber::Integer(n)),
    )
}

/// Whether a member is the float that the file has under a key.
pub open spec fn shows_float(
    config: Json,
    name: Seq<char>,
    metadata: Map<Seq<char>, GgufValue>,
    key: Seq<char>,
) -> bool {
    &&& metadata.contains_key(key)
    &&& match metadata[key] {
        GgufValue::F32(number) => shows(config, name, number_json(number)),
        GgufValue::F64(number) => shows(config, name, number_json(number)),
        _ => false,
    }
}

/// The vocabulary of a file.
pub open spec fn vocabulary(metadata: Map<Seq<char>, GgufValue>) -> Seq<GgufValue> {
    metadata["tokenizer.ggml.tokens"@].items()->0
}

/// Whether a member is the first place that a token has in the vocabulary.
pub open spec fn shows_token(
    config: Json,
    name: Seq<char>,
    metadata: Map<Seq<char>, GgufValue>,
    token: Seq<char>,
) -> bool {
    exists|i: int|
        {
            &&& 0 <= i < vocabulary(metadata).len()
            &&& (#[trigger] vocabulary(metadata)[i]).is_text(token)
            &&& forall|k: int| 0 <= k < i ==> !(#[trigger] vocabulary(metadata)[k]).is_text(token)
            &&& shows(config, name, Json::Number(JsonNumber::Integer(i)))
        }
}

/// Whether a member is the number of tokens of the vocabulary.
pub open spec fn shows_vocabulary(
    config: Json,
    name: Seq<char>,
    metadata: Map<Seq<char>, GgufValue>,
) -> bool {
    shows(config, name, Json::Number(JsonNumber::Integer(vocabulary(metadata).len() as int)))
}

/// Whether the stop ids hold the one that the file declares, alone or in front of the
/// place of `<eos>` in the vocabulary where that is another.
pub open spec fn shows_stops(
    config: Json,
    name: Seq<char>,
    metadata: Map<Seq<char>, GgufValue>,
) -> bool {
    let key = "tokenizer.ggml.eos_token_id"@;
    &&& metadata.contains_key(key)
    &&& metadata[key].integer() matches Some(n) && {
        ||| shows(config, name, Json::Number(JsonNumber::Integer(n))) && forall|i: int|
            i <= u32::MAX && #[trigger] first_at(vocabulary(metadata), "<eos>"@, i) ==> i == n
        ||| exists|i: int|
            {
                &&& i != n
                &&& #[trigger] first_at(vocabulary(metadata), "<eos>"@, i)
                &&& shows(
                    config,
                    name,
                    Json::Array(
                        seq![
                            Json::Number(JsonNumber::Integer(n)),
                            Json::Number(JsonNumber::Integer(i)),
                        ],
                    ),
                )
            }
    }
}

proof fn lemma_gemma4_text_names()
    ensures
        "hidden_size"@.len() == 11,
        "intermediate_size"@.len() == 17,
        "num_hidden_layers"@.len() == 17,
        "num_attention_heads"@.len() == 19,
        "sliding_window"@.len() == 14,
        "final_logit_softcapping"@.len() == 23,
        "quantization_config"@.len() == 19,
        "layer_types"@.len() == 11,
        "num_global_key_value_heads"@.len() == 26,
        "num_experts"@.len() == 11,
        "top_k_experts"@.len() == 13,
        "enable_moe_block"@.len() == 16,
        "expert_intermediate_size"@.len() == 24,
        "hidden_size_per_layer_input"@.len() == 27,
        "vocab_size_per_layer_input"@.len() == 26,
        "rope_parameters"@.len() == 15,
        "rope_theta"@.len() == 10,
        "use_bidirectional_attention"@.len() == 27,
        "max_position_embeddings"@.len() == 23,
        "vocab_size"@.len() == 10,
        "rms_norm_eps"@.len() == 12,
        "hidden_activation"@.len() == 17,
        "attention_k_eq_v"@.len() == 16,
        "tie_word_embeddings"@.len() == 19,
        "bos_token_id"@.len() == 12,
        "eos_token_id"@.len() == 12,
        "head_dim"@.len() == 8,
        "global_head_dim"@.len() == 15,
        "attention_bias"@.len() == 14,
        "num_key_value_heads"@.len() == 19,
        "full_attention"@.len() == 14,
        "sliding_attention"@.len() == 17,
        "rope_type"@.len() == 9,
        "partial_rotary_factor"@.len() == 21,
        "hidden_size"@[0] == 'h',
        "layer_types"@[0] == 'l',
        "num_experts"@[0] == 'n',
        "intermediate_size"@[0] == 'i',
        "num_hidden_layers"@[0] == 'n',
        "hidden_activation"@[0] == 'h',
        "sliding_attention"@[0] == 's',
        "num_attention_heads"@[4] == 'a',
        "quantization_config"@[4] == 't',
        "tie_word_embeddings"@[4] == 'w',
        "num_key_value_heads"@[4] == 'k',
        "sliding_window"@[0] == 's',
        "attention_bias"@[0] == 'a',
        "full_attention"@[0] == 'f',
        "final_logit_softcapping"@[0] == 'f',
        "max_position_embeddings"@[0] == 'm',
        "num_global_key_value_heads"@[0] == 'n',
        "vocab_size_per_layer_input"@[0] == 'v',
        "enable_moe_block"@[0] == 'e',
        "attention_k_eq_v"@[0] == 'a',
        "hidden_size_per_layer_input"@[0] == 'h',
        "use_bidirectional_attention"@[0] == 'u',
        "rope_parameters"@[0] == 'r',
        "global_head_dim"@[0] == 'g',
        "rope_theta"@[0] == 'r',
        "vocab_size"@[0] == 'v',
        "rms_norm_eps"@[0] == 'r',
        "bos_token_id"@[0] == 'b',
        "eos_token_id"@[0] == 'e',
{
    reveal_strlit("hidden_size");
    reveal_strlit("intermediate_size");
    reveal_strlit("num_hidden_layers");
    reveal_strlit("num_attention_heads");
    reveal_strlit("sliding_window");
    reveal_strlit("final_logit_softcapping");
    reveal_strlit("quantization_config");
    reveal_strlit("layer_types");
    reveal_strlit("num_global_key_value_heads");
    reveal_strlit("num_experts");
    reveal_strlit("top_k_experts");
    reveal_strlit("enable_moe_block");
    reveal_strlit("expert_intermediate_size");
    reveal_strlit("hidden_size_per_layer_input");
    reveal_strlit("vocab_size_per_layer_input");
    reveal_strlit("rope_parameters");
    reveal_strlit("rope_theta");
    reveal_strlit("use_bidirectional_attention");
    reveal_strlit("max_position_embeddings");
    reveal_strlit("vocab_size");
    reveal_strlit("rms_norm_eps");
    reveal_strlit("hidden_activation");
    reveal_strlit("attention_k_eq_v");
    reveal_strlit("tie_word_embeddings");
    reveal_strlit("bos_token_id");
    reveal_strlit("eos_token_id");
    reveal_strlit("head_dim");
    reveal_strlit("global_head_dim");
    reveal_strlit("attention_bias");
    reveal_strlit("num_key_value_heads");
    reveal_strlit("full_attention");
    reveal_strlit("sliding_attention");
    reveal_strlit("rope_type");
    reveal_strlit("partial_rotary_factor");
}

proof fn lemma_gemma4_vision_names()
    ensures
        "hidden_size"@.len() == 11,
        "intermediate_size"@.len() == 17,
        "num_hidden_layers"@.len() == 17,
        "num_attention_heads"@.len() == 19,
        "patch_size"@.len() == 10,
        "hidden_activation"@.len() == 17,
        "standardize"@.len() == 11,
        "head_dim"@.len() == 8,
        "num_key_value_heads"@.len() == 19,
        "position_embedding_size"@.len() == 23,
        "hidden_size"@[0] == 'h',
        "standardize"@[0] == 's',
        "intermediate_size"@[0] == 'i',
        "num_hidden_layers"@[0] == 'n',
        "hidden_activation"@[0] == 'h',
        "num_attention_heads"@[4] == 'a',
        "num_key_value_heads"@[4] == 'k',
{
    reveal_strlit("hidden_size");
    reveal_strlit("intermediate_size");
    reveal_strlit("num_hidden_layers");
    reveal_strlit("num_attention_heads");
    reveal_strlit("patch_size");
    reveal_strlit("hidden_activation");
    reveal_strlit("standardize");
    reveal_strlit("head_dim");
    reveal_strlit("num_key_value_heads");
    reveal_strlit("position_embedding_size");
}

proof fn lemma_gemma4_names()
    ensures
        "architectures"@.len() == 13,
        "text_config"@.len() == 11,
        "vision_config"@.len() == 13,
        "image_token_id"@.len() == 14,
        "audio_token_id"@.len() == 14,
        "video_token_id"@.len() == 14,
        "boi_token_id"@.len() == 12,
        "eoi_token_id"@.len() == 12,
        "boa_token_id"@.len() == 12,
        "eoa_token_id"@.len() == 12,
        "architectures"@[0] == 'a',
        "vision_config"@[0] == 'v',
        "image_token_id"@[0] == 'i',
        "audio_token_id"@[0] == 'a',
        "video_token_id"@[0] == 'v',
        "boi_token_id"@[0] == 'b',
        "eoi_token_id"@[0] == 'e',
        "boa_token_id"@[0] == 'b',
        "eoa_token_id"@[0] == 'e',
        "boi_token_id"@[2] == 'i',
        "eoi_token_id"@[2] == 'i',
        "boa_token_id"@[2] == 'a',
        "eoa_token_id"@[2] == 'a',
{
    reveal_strlit("architectures");
    reveal_strlit("text_config");
    reveal_strlit("vision_config");
    reveal_strlit("image_token_id");
    reveal_strlit("audio_token_id");
    reveal_strlit("video_token_id");
    reveal_strlit("boi_token_id");
    reveal_strlit("eoi_token_id");
    reveal_strlit("boa_token_id");
    reveal_strlit("eoa_token_id");
}

proof fn lemma_qwen35_vision_names()
    ensures
        "depth"@.len() == 5,
        "hidden_size"@.len() == 11,
        "out_hidden_size"@.len() == 15,
        "intermediate_size"@.len() == 17,
        "num_heads"@.len() == 9,
        "patch_size"@.len() == 10,
        "num_position_embeddings"@.len() == 23,
        "deepstack_visual_indexes"@.len() == 24,
        "spatial_merge_size"@.len() == 18,
{
    reveal_strlit("depth");
    reveal_strlit("hidden_size");
    reveal_strlit("out_hidden_size");
    reveal_strlit("intermediate_size");
    reveal_strlit("num_heads");
    reveal_strlit("patch_size");
    reveal_strlit("num_position_embeddings");
    reveal_strlit("deepstack_visual_indexes");
    reveal_strlit("spatial_merge_size");
}

proof fn lemma_qwen35_names()
    ensures
        "architectures"@.len() == 13,
        "model_type"@.len() == 10,
        "text_config"@.len() == 11,
        "vision_config"@.len() == 13,
        "image_token_id"@.len() == 14,
        "video_token_id"@.len() == 14,
        "vision_start_token_id"@.len() == 21,
        "vision_end_token_id"@.len() == 19,
        "tie_word_embeddings"@.len() == 19,
        "architectures"@[0] == 'a',
        "vision_config"@[0] == 'v',
        "image_token_id"@[0] == 'i',
        "video_token_id"@[0] == 'v',
        "vision_end_token_id"@[0] == 'v',
        "tie_word_embeddings"@[0] == 't',
{
    reveal_strlit("architectures");
    reveal_strlit("model_type");
    reveal_strlit("text_config");
    reveal_strlit("vision_config");
    reveal_strlit("image_token_id");
    reveal_strlit("video_token_id");
    reveal_strlit("vision_start_token_id");
    reveal_strlit("vision_end_token_id");
    reveal_strlit("tie_word_embeddings");
}

proof fn lemma_glimmer_text_names()
    ensures
        "vocab_size"@.len() == 10,
        "hidden_size"@.len() == 11,
        "intermediate_size"@.len() == 17,
        "num_hidden_layers"@.len() == 17,
        "num_attention_heads"@.len() == 19,
        "num_key_value_heads"@.len() == 19,
        "head_dim"@.len() == 8,
        "max_position_embeddings"@.len() == 23,
        "rms_norm_eps"@.len() == 12,
        "sliding_window"@.len() == 14,
        "rope_parameters"@.len() == 15,
        "output_multiplier"@.len() == 17,
        "final_logit_softcapping"@.len() == 23,
        "tie_word_embeddings"@.len() == 19,
        "bos_token_id"@.len() == 12,
        "eos_token_id"@.len() == 12,
        "attention_bias"@.len() == 14,
        "intermediate_size"@[0] == 'i',
        "num_hidden_layers"@[0] == 'n',
        "output_multiplier"@[0] == 'o',
        "num_attention_heads"@[4] == 'a',
        "num_key_value_heads"@[4] == 'k',
        "tie_word_embeddings"@[4] == 'w',
        "max_position_embeddings"@[0] == 'm',
        "final_logit_softcapping"@[0] == 'f',
        "rms_norm_eps"@[0] == 'r',
        "bos_token_id"@[0] == 'b',
        "eos_token_id"@[0] == 'e',
        "sliding_window"@[0] == 's',
        "attention_bias"@[0] == 'a',
{
    reveal_strlit("vocab_size");
    reveal_strlit("hidden_size");
    reveal_strlit("intermediate_size");
    reveal_strlit("num_hidden_layers");
    reveal_strlit("num_attention_heads");
    reveal_strlit("num_key_value_heads");
    reveal_strlit("head_dim");
    reveal_strlit("max_position_embeddings");
    reveal_strlit("rms_norm_eps");
    reveal_strlit("sliding_window");
    reveal_strlit("rope_parameters");
    reveal_strlit("output_multiplier");
    reveal_strlit("final_logit_softcapping");
    reveal_strlit("tie_word_embeddings");
    reveal_strlit("bos_token_id");
    reveal_strlit("eos_token_id");
    reveal_strlit("attention_bias");
}

proof fn lemma_glimmer_vision_names()
    ensures
        "hidden_size"@.len() == 11,
        "intermediate_size"@.len() == 17,
        "num_attention_heads"@.len() == 19,
        "num_hidden_layers"@.len() == 17,
        "patch_size"@.len() == 10,
        "merge_size"@.len() == 10,
        "intermediate_size"@[0] == 'i',
        "num_hidden_layers"@[0] == 'n',
        "patch_size"@[0] == 'p',
        "merge_size"@[0] == 'm',
{
    reveal_strlit("hidden_size");
    reveal_strlit("intermediate_size");
    reveal_strlit("num_attention_heads");
    reveal_strlit("num_hidden_layers");
    reveal_strlit("patch_size");
    reveal_strlit("merge_size");
}

proof fn lemma_glimmer_names()
    ensures
        "architectures"@.len() == 13,
        "text_config"@.len() == 11,
        "vision_config"@.len() == 13,
        "image_token_id"@.len() == 14,
        "video_token_id"@.len() == 14,
        "projector_hidden_size"@.len() == 21,
        "attention_bias"@.len() == 14,
        "architectures"@[0] == 'a',
        "vision_config"@[0] == 'v',
        "image_token_id"@[0] == 'i',
        "video_token_id"@[0] == 'v',
        "attention_bias"@[0] == 'a',
{
    reveal_strlit("architectures");
    reveal_strlit("text_config");
    reveal_strlit("vision_config");
    reveal_strlit("image_token_id");
    reveal_strlit("video_token_id");
    reveal_strlit("projector_hidden_size");
    reveal_strlit("attention_bias");
}

proof fn lemma_patch_names()
    ensures
        "patch_size"@.len() == 10,
        "temporal_patch_size"@.len() == 19,
        "merge_size"@.len() == 10,
        "image_mean"@.len() == 10,
        "image_std"@.len() == 9,
        "patch_size"@[0] == 'p',
        "merge_size"@[0] == 'm',
        "image_mean"@[0] == 'i',
{
    reveal_strlit("patch_size");
    reveal_strlit("temporal_patch_size");
    reveal_strlit("merge_size");
    reveal_strlit("image_mean");
    reveal_strlit("image_std");
}

proof fn lemma_vocabulary(metadata: Map<Seq<char>, GgufValue>)
    requires
        vocab_size(metadata) is Ok,
    ensures
        vocab_size(metadata)->Ok_0 == vocabulary(metadata).len(),
{
    if let GgufValue::Array(list) = metadata["tokenizer.ggml.tokens"@] {
        assert(list.len() == list@.len());
    }
}

proof fn lemma_stops(metadata: Map<Seq<char>, GgufValue>, config: Json, name: Seq<char>)
    requires
        generation_ids(metadata) is Ok,
        vocab_size(metadata) is Ok,
        shows(config, name, generation_ids(metadata)->Ok_0.1),
    ensures
        shows_stops(config, name, metadata),
{
    let eos = required_id(metadata, "tokenizer.ggml.eos_token_id"@)->Ok_0;
    let ids = stop_ids(metadata, eos);
    let items = vocabulary(metadata);
    if ids.len() == 2 {
        let i = choose|i: int| first_at(items, "<eos>"@, i);
        assert(first_at(items, "<eos>"@, i));
        assert(ids.map_values(|id: u32| Json::uint(id as nat)) =~= seq![
            Json::Number(JsonNumber::Integer(eos as int)),
            Json::Number(JsonNumber::Integer(i)),
        ]);
    }
}

proof fn lemma_token(
    metadata: Map<Seq<char>, GgufValue>,
    config: Json,
    name: Seq<char>,
    token: Seq<char>,
)
    requires
        token_entry(metadata, token) is Ok,
        shows(config, name, token_json(metadata, token)),
    ensures
        shows_token(config, name, metadata, token),
{
    let items = vocabulary(metadata);
    let i = choose|i: int| first_at(items, token, i);
    assert(first_at(items, token, i));
    assert(items[i].is_text(token));
}

/// The text model of Gemma 4 shows the sizes of the file, each under its own name. The
/// head size is that of the sliding layers, and the global one that of the others.
#[verifier::rlimit(100)]
pub proof fn law_gemma4_text_shows_sizes(metadata: Map<Seq<char>, GgufValue>, shapes: Map<Seq<char>, Vec<usize>>)
    requires
        gemma4_text_refusal(metadata, shapes).message is None,
    ensures
        shows_size(Json::Object(gemma4_text_members(metadata, shapes)), "hidden_size"@, metadata, "gemma4.embedding_length"@),
        shows_size(Json::Object(gemma4_text_members(metadata, shapes)), "intermediate_size"@, metadata, "gemma4.feed_forward_length"@),
        shows_size(Json::Object(gemma4_text_members(metadata, shapes)), "num_hidden_layers"@, metadata, "gemma4.block_count"@),
        shows_size(Json::Object(gemma4_text_members(metadata, shapes)), "num_attention_heads"@, metadata, "gemma4.attention.head_count"@),
        shows_size(Json::Object(gemma4_text_members(metadata, shapes)), "sliding_window"@, metadata, "gemma4.attention.sliding_window"@),
        shows_size(Json::Object(gemma4_text_members(metadata, shapes)), "num_experts"@, metadata, "gemma4.expert_count"@),
        shows_size(Json::Object(gemma4_text_members(metadata, shapes)), "top_k_experts"@, metadata, "gemma4.expert_used_count"@),
        shows_size(Json::Object(gemma4_text_members(metadata, shapes)), "expert_intermediate_size"@, metadata, "gemma4.expert_feed_forward_length"@),
        shows_size(Json::Object(gemma4_text_members(metadata, shapes)), "max_position_embeddings"@, metadata, "gemma4.context_length"@),
        shows_size(Json::Object(gemma4_text_members(metadata, shapes)), "head_dim"@, metadata, "gemma4.attention.key_length_swa"@),
        shows_size(Json::Object(gemma4_text_members(metadata, shapes)), "global_head_dim"@, metadata, "gemma4.attention.key_length"@),
{
    lemma_gemma4_text_names();
}

/// It shows the floats of the file, and the rotation of each class of layers.
#[verifier::rlimit(100)]
pub proof fn law_gemma4_text_shows_floats(metadata: Map<Seq<char>, GgufValue>, shapes: Map<Seq<char>, Vec<usize>>)
    requires
        gemma4_text_refusal(metadata, shapes).message is None,
    ensures
        shows_float(Json::Object(gemma4_text_members(metadata, shapes)), "final_logit_softcapping"@, metadata, "gemma4.final_logit_softcapping"@),
        shows_float(Json::Object(gemma4_text_members(metadata, shapes)), "rope_theta"@, metadata, "gemma4.rope.freq_base"@),
        shows_float(Json::Object(gemma4_text_members(metadata, shapes)), "rms_norm_eps"@, metadata, "gemma4.attention.layer_norm_rms_epsilon"@),
        ({
            let rope = gemma4_text_members(metadata, shapes)["rope_parameters"@];
            let full = rope.members()["full_attention"@];
            let sliding = rope.members()["sliding_attention"@];
            &&& gemma4_text_members(metadata, shapes).contains_key("rope_parameters"@)
            &&& rope.members().contains_key("full_attention"@)
            &&& rope.members().contains_key("sliding_attention"@)
            &&& shows_float(full, "rope_theta"@, metadata, "gemma4.rope.freq_base"@)
            &&& shows(full, "rope_type"@, Json::Text("proportional"@))
            &&& shows_float(sliding, "rope_theta"@, metadata, "gemma4.rope.freq_base_swa"@)
            &&& shows(sliding, "rope_type"@, Json::Text("default"@))
            &&& shows(full, "partial_rotary_factor"@, Json::Number(read_number("0.25"@)))
            &&& shows(sliding, "partial_rotary_factor"@, Json::Number(read_number("0.25"@)))
        }),
{
    lemma_gemma4_text_names();
}

/// It shows the vocabulary and the ids that begin and end a text, and what every model
/// of the family has.
#[verifier::rlimit(100)]
pub proof fn law_gemma4_text_shows_tokens(metadata: Map<Seq<char>, GgufValue>, shapes: Map<Seq<char>, Vec<usize>>)
    requires
        gemma4_text_refusal(metadata, shapes).message is None,
    ensures
        ({
            let config = Json::Object(gemma4_text_members(metadata, shapes));
            &&& shows_vocabulary(config, "vocab_size"@, metadata)
            &&& shows_size(config, "bos_token_id"@, metadata, "tokenizer.ggml.bos_token_id"@)
            &&& shows_stops(config, "eos_token_id"@, metadata)
            &&& shows(config, "quantization_config"@, Json::Null)
            &&& shows(config, "hidden_size_per_layer_input"@, Json::Null)
            &&& shows(config, "vocab_size_per_layer_input"@, Json::Null)
            &&& shows(config, "enable_moe_block"@, Json::Bool(true))
            &&& shows(config, "tie_word_embeddings"@, Json::Bool(true))
            &&& shows(config, "use_bidirectional_attention"@, Json::Text("vision"@))
            &&& shows(config, "hidden_activation"@, Json::Text("gelu_pytorch_tanh"@))
        }),
{
    lemma_gemma4_text_names();
    lemma_stops(metadata, Json::Object(gemma4_text_members(metadata, shapes)), "eos_token_id"@);
    lemma_vocabulary(metadata);
}

/// Whether layer `i` slides, by the pattern of the file.
pub open spec fn slides(metadata: Map<Seq<char>, GgufValue>, i: int) -> bool {
    metadata["gemma4.attention.sliding_window_pattern"@].items()->0[i] == GgufValue::Bool(true)
}

/// The key-value heads of layer `i`, by the file.
pub open spec fn layer_kv_heads(metadata: Map<Seq<char>, GgufValue>, i: int) -> Option<int> {
    metadata["gemma4.attention.head_count_kv"@].items()->0[i].integer()
}

/// It shows each layer: whether it slides, and the key-value heads of its class, those of
/// the sliding layers under one name and those of the others under another.
#[verifier::rlimit(100)]
pub proof fn law_gemma4_text_shows_layers(metadata: Map<Seq<char>, GgufValue>, shapes: Map<Seq<char>, Vec<usize>>, i: int)
    requires
        gemma4_text_refusal(metadata, shapes).message is None,
        0 <= i < gemma4_layers(metadata),
    ensures
        ({
            let config = gemma4_text_json(metadata, shapes);
            let kinds = config.members()["layer_types"@];
            &&& config.members().contains_key("layer_types"@)
            &&& kinds matches Json::Array(kinds) && kinds.len() == gemma4_layers(metadata)
                && kinds[i] == Json::Text(
                if slides(metadata, i) {
                    "sliding_attention"@
                } else {
                    "full_attention"@
                },
            )
            &&& metadata.contains_key("gemma4.attention.head_count_kv"@) ==> {
                &&& layer_kv_heads(metadata, i) is Some
                &&& shows(
                    config,
                    if slides(metadata, i) {
                        "num_key_value_heads"@
                    } else {
                        "num_global_key_value_heads"@
                    },
                    Json::Number(JsonNumber::Integer(layer_kv_heads(metadata, i)->0)),
                )
            }
        }),
{
    lemma_gemma4_text_names();
    let kinds = gemma4_kinds(metadata);
    let pattern = metadata["gemma4.attention.sliding_window_pattern"@].items()->0;
    assert(kinds[i] == if slides(metadata, i) {
        "sliding_attention"@
    } else {
        "full_attention"@
    });
    assert("sliding_attention"@ != "full_attention"@) by {
        assert("sliding_attention"@.len() != "full_attention"@.len());
    }
    assert(kinds.map_values(|kind: Seq<char>| Json::Text(kind))[i] == Json::Text(kinds[i]));
    if metadata.contains_key("gemma4.attention.head_count_kv"@) {
        let key = "gemma4.attention.head_count_kv"@;
        let counts = integer_items(metadata[key], key)->Ok_0;
        law_kv_heads_are_uniform(counts, kinds, kinds.len());
        lemma_counts_fit(counts, kinds, kinds.len(), i);
        assert(counts[i] == metadata[key].items()->0[i].natural()->0);
    }
}

proof fn lemma_counts_fit(counts: Seq<u64>, kinds: Seq<Seq<char>>, n: nat, i: int)
    requires
        0 <= i < n <= counts.len(),
        n <= kinds.len(),
        kv_heads_of(counts, kinds, n) is Ok,
    ensures
        counts[i] <= usize::MAX,
    decreases n,
{
    if i < n - 1 {
        lemma_counts_fit(counts, kinds, (n - 1) as nat, i);
    }
}

/// It shows what the tensors say: keys stand for values where a layer has no value
/// projection, and there are biases where every layer has all four.
#[verifier::rlimit(100)]
pub proof fn law_gemma4_text_shows_tensors(metadata: Map<Seq<char>, GgufValue>, shapes: Map<Seq<char>, Vec<usize>>)
    requires
        gemma4_vision_refusal(metadata, shapes).message is None,
    ensures
        ({
            let config = gemma4_text_json(metadata, shapes);
            let layers = gemma4_layers(metadata) as nat;
            &&& shows(
                config,
                "attention_k_eq_v"@,
                Json::Bool(
                    exists|l: nat|
                        l < layers && !shapes.contains_key(
                            #[trigger] block_tensor(l, ".attn_v.weight"@),
                        ),
                ),
            )
            &&& layers > 0 ==> shows(
                config,
                "attention_bias"@,
                Json::Bool(shapes.contains_key(block_tensor(0, ".attn_q.bias"@))),
            )
            &&& forall|l: nat, tensor: Seq<char>|
                l < layers && is_bias(tensor) ==> (shapes.contains_key(
                    #[trigger] block_tensor(l, tensor),
                ) <==> config.members()["attention_bias"@] == Json::Bool(true))
        }),
{
    lemma_gemma4_text_names();
    let layers = gemma4_layers(metadata);
    let kinds = gemma4_kinds(metadata);
    law_keys_are_values(shapes, kinds, kinds.len());
    lemma_biases(shapes, layers);
}

/// Whether a tensor of a layer is one of its four biases.
pub open spec fn is_bias(tensor: Seq<char>) -> bool {
    ||| tensor == ".attn_q.bias"@
    ||| tensor == ".attn_k.bias"@
    ||| tensor == ".attn_v.bias"@
    ||| tensor == ".attn_output.bias"@
}

proof fn lemma_biases(shapes: Map<Seq<char>, Vec<usize>>, layers: usize)
    requires
        attention_bias(shapes, layers) is Ok,
    ensures
        forall|l: nat, tensor: Seq<char>|
            l < layers && is_bias(tensor) ==> (shapes.contains_key(
                #[trigger] block_tensor(l, tensor),
            ) <==> attention_bias(shapes, layers)->Ok_0),
{
    law_attention_bias(shapes, layers as nat);
    assert forall|l: nat, tensor: Seq<char>| l < layers && is_bias(tensor) implies (
    shapes.contains_key(#[trigger] block_tensor(l, tensor)) <==> attention_bias(
        shapes,
        layers,
    )->Ok_0) by {
        if attention_bias(shapes, layers)->Ok_0 {
            assert(layer_biases(shapes, l) == 4);
        } else {
            assert(layer_biases(shapes, l) == 0);
        }
    }
}

/// The text model keeps what it shows where the tensors are told too.
#[verifier::rlimit(100)]
proof fn lemma_gemma4_text_kept(metadata: Map<Seq<char>, GgufValue>, shapes: Map<Seq<char>, Vec<usize>>, name: Seq<char>)
    requires
        gemma4_text_members(metadata, shapes).contains_key(name),
        name != "attention_bias"@,
        name != "num_key_value_heads"@,
    ensures
        gemma4_text_json(metadata, shapes).members().contains_key(name),
        gemma4_text_json(metadata, shapes).members()[name] == gemma4_text_members(
            metadata,
            shapes,
        )[name],
{
}

/// The vision tower of Gemma 4 shows the sizes of the file.
#[verifier::rlimit(100)]
pub proof fn law_gemma4_vision_shows_sizes(metadata: Map<Seq<char>, GgufValue>, shapes: Map<Seq<char>, Vec<usize>>)
    requires
        gemma4_vision_refusal(metadata, shapes).message is None,
    ensures
        shows_size(gemma4_vision_json(metadata, shapes), "hidden_size"@, metadata, "clip.vision.embedding_length"@),
        shows_size(gemma4_vision_json(metadata, shapes), "intermediate_size"@, metadata, "clip.vision.feed_forward_length"@),
        shows_size(gemma4_vision_json(metadata, shapes), "num_hidden_layers"@, metadata, "clip.vision.block_count"@),
        shows_size(gemma4_vision_json(metadata, shapes), "num_attention_heads"@, metadata, "clip.vision.attention.head_count"@),
        shows_size(gemma4_vision_json(metadata, shapes), "patch_size"@, metadata, "clip.vision.patch_size"@),
        shows(
            gemma4_vision_json(metadata, shapes),
            "hidden_activation"@,
            Json::Text("gelu_pytorch_tanh"@),
        ),
        shows(gemma4_vision_json(metadata, shapes), "standardize"@, Json::Bool(true)),
{
    lemma_gemma4_vision_names();
}

/// It shows what the tensors say: heads that tile the query and the key weight, and one
/// position for each entry of the middle dimension of their table.
#[verifier::rlimit(100)]
pub proof fn law_gemma4_vision_shows_tensors(metadata: Map<Seq<char>, GgufValue>, shapes: Map<Seq<char>, Vec<usize>>)
    requires
        gemma4_refusal(metadata, shapes).message is None,
    ensures
        ({
            let config = gemma4_vision_json(metadata, shapes);
            let heads = required_size(metadata, "clip.vision.attention.head_count"@)->Ok_0;
            let hidden = required_size(metadata, "clip.vision.embedding_length"@)->Ok_0;
            &&& vision_outputs(shapes, heads, hidden)->Ok_0 matches Some((q_out, k_out)) ==> {
                let head_dim = (q_out / heads) as int;
                let kv_heads = (k_out as int) / head_dim;
                &&& head_dim * heads == q_out && head_dim * kv_heads == k_out
                &&& shows(config, "head_dim"@, Json::Number(JsonNumber::Integer(head_dim)))
                &&& shows(
                    config,
                    "num_key_value_heads"@,
                    Json::Number(JsonNumber::Integer(kv_heads)),
                )
            }
            &&& shapes.contains_key("v.position_embd.weight"@) ==> {
                &&& shapes["v.position_embd.weight"@]@.len() == 3
                &&& shows(
                    config,
                    "position_embedding_size"@,
                    Json::Number(JsonNumber::Integer(shapes["v.position_embd.weight"@]@[1] as int)),
                )
            }
        }),
{
    lemma_gemma4_vision_names();
    let heads = required_size(metadata, "clip.vision.attention.head_count"@)->Ok_0;
    let hidden = required_size(metadata, "clip.vision.embedding_length"@)->Ok_0;
    if vision_heads(shapes, heads, hidden)->Ok_0 is Some {
        law_vision_heads_tile_queries(shapes, heads, hidden);
    }
}

/// The configuration of Gemma 4 shows its two parts, and each special token by its place
/// in the vocabulary.
#[verifier::rlimit(100)]
pub proof fn law_gemma4_shows_tokens(metadata: Map<Seq<char>, GgufValue>, shapes: Map<Seq<char>, Vec<usize>>)
    requires
        gemma4_refusal(metadata, shapes).message is None,
    ensures
        ({
            let config = Json::Object(gemma4_members(metadata, shapes));
            &&& shows(
                config,
                "architectures"@,
                Json::Array(seq![Json::Text("Gemma4ForConditionalGeneration"@)]),
            )
            &&& shows(config, "text_config"@, gemma4_text_json(metadata, shapes))
            &&& shows(config, "vision_config"@, gemma4_vision_json(metadata, shapes))
        }),
        shows_token(Json::Object(gemma4_members(metadata, shapes)), "image_token_id"@, metadata, "<|image|>"@),
        shows_token(Json::Object(gemma4_members(metadata, shapes)), "audio_token_id"@, metadata, "<|audio|>"@),
        shows_token(Json::Object(gemma4_members(metadata, shapes)), "video_token_id"@, metadata, "<|video|>"@),
        shows_token(Json::Object(gemma4_members(metadata, shapes)), "boi_token_id"@, metadata, "<|image>"@),
        shows_token(Json::Object(gemma4_members(metadata, shapes)), "eoi_token_id"@, metadata, "<image|>"@),
        shows_token(Json::Object(gemma4_members(metadata, shapes)), "boa_token_id"@, metadata, "<|audio>"@),
        shows_token(Json::Object(gemma4_members(metadata, shapes)), "eoa_token_id"@, metadata, "<audio|>"@),
{
    lemma_gemma4_names();
    let config = Json::Object(gemma4_members(metadata, shapes));
    lemma_token(metadata, config, "image_token_id"@, "<|image|>"@);
    lemma_token(metadata, config, "audio_token_id"@, "<|audio|>"@);
    lemma_token(metadata, config, "video_token_id"@, "<|video|>"@);
    lemma_token(metadata, config, "boi_token_id"@, "<|image>"@);
    lemma_token(metadata, config, "eoi_token_id"@, "<image|>"@);
    lemma_token(metadata, config, "boa_token_id"@, "<|audio>"@);
    lemma_token(metadata, config, "eoa_token_id"@, "<audio|>"@);
}

/// The vision tower of Qwen3.5 shows the sizes of the file, a position for each patch of a
/// square image, and the layers that feed the deep stack.
#[verifier::rlimit(100)]
pub proof fn law_qwen35_vision_shows_sizes(metadata: Map<Seq<char>, GgufValue>)
    requires
        qwen35_vision_refusal(metadata).message is None,
    ensures
        shows_size(Json::Object(qwen35_vision_members(metadata)), "depth"@, metadata, "clip.vision.block_count"@),
        shows_size(Json::Object(qwen35_vision_members(metadata)), "hidden_size"@, metadata, "clip.vision.embedding_length"@),
        shows_size(Json::Object(qwen35_vision_members(metadata)), "out_hidden_size"@, metadata, "clip.vision.projection_dim"@),
        shows_size(Json::Object(qwen35_vision_members(metadata)), "intermediate_size"@, metadata, "clip.vision.feed_forward_length"@),
        shows_size(Json::Object(qwen35_vision_members(metadata)), "num_heads"@, metadata, "clip.vision.attention.head_count"@),
        shows_size(Json::Object(qwen35_vision_members(metadata)), "patch_size"@, metadata, "clip.vision.patch_size"@),
        ({
            let config = Json::Object(qwen35_vision_members(metadata));
            let image = metadata["clip.vision.image_size"@].integer()->0;
            let patch = metadata["clip.vision.patch_size"@].integer()->0;
            let side = image / patch;
            &&& patch > 0 && side * patch == image
            &&& shows(
                config,
                "num_position_embeddings"@,
                Json::Number(JsonNumber::Integer(side * side)),
            )
            &&& shows_merge(config, "spatial_merge_size"@, metadata)
            &&& shows_deepstack(config, metadata)
        }),
{
    lemma_qwen35_vision_names();
    let image = metadata["clip.vision.image_size"@].integer()->0;
    let patch = metadata["clip.vision.patch_size"@].integer()->0;
    vstd::arithmetic::div_mod::lemma_fundamental_div_mod(image, patch);
    assert(patch * (image / patch) == (image / patch) * patch) by (nonlinear_arith);
    lemma_deepstack(metadata, Json::Object(qwen35_vision_members(metadata)));
}

proof fn lemma_deepstack(metadata: Map<Seq<char>, GgufValue>, config: Json)
    requires
        deepstack_places(metadata) is Ok,
        shows(
            config,
            "deepstack_visual_indexes"@,
            uint_list(deepstack_places(metadata)->Ok_0),
        ),
    ensures
        shows_deepstack(config, metadata),
{
    let key = DEEPSTACK_LAYERS_KEY@;
    let places = deepstack_places(metadata)->Ok_0;
    let listed = config.members()["deepstack_visual_indexes"@]->Array_0;
    if metadata.contains_key(key) {
        if let GgufValue::Array(list) = metadata[key] {
            assert(list.len() == list@.len());
            let n = list@.len() as int;
            law_true_places(list@, n);
            assert forall|k: int| 0 <= k < listed.len() implies is_marked(
                list@,
                #[trigger] listed[k],
            ) by {
                assert(list@[places[k] as int] == GgufValue::Bool(true));
            }
            assert forall|i: int|
                0 <= i < n && #[trigger] list@[i] == GgufValue::Bool(
                    true,
                ) implies listed.contains(Json::Number(JsonNumber::Integer(i))) by {
                let k = choose|k: int| 0 <= k < places.len() && places[k] == i as usize;
                assert(listed[k] == Json::Number(JsonNumber::Integer(i)));
            }
        }
    }
}

/// Whether a member is the merge size of the file, or two where it has none.
pub open spec fn shows_merge(config: Json, name: Seq<char>, metadata: Map<Seq<char>, GgufValue>) -> bool {
    let key = "clip.vision.spatial_merge_size"@;
    if metadata.contains_key(key) {
        shows_size(config, name, metadata, key)
    } else {
        shows(config, name, Json::Number(JsonNumber::Integer(2)))
    }
}

/// Whether the deep stack lists exactly the layers that the file marks, in rising order.
pub open spec fn shows_deepstack(config: Json, metadata: Map<Seq<char>, GgufValue>) -> bool {
    let listed = config.members()["deepstack_visual_indexes"@];
    &&& config.members().contains_key("deepstack_visual_indexes"@)
    &&& listed is Array
    &&& if metadata.contains_key("clip.vision.is_deepstack_layers"@) {
        let marks = metadata["clip.vision.is_deepstack_layers"@].items()->0;
        &&& forall|k: int|
            0 <= k < listed->Array_0.len() ==> is_marked(marks, #[trigger] listed->Array_0[k])
        &&& forall|i: int|
            0 <= i < marks.len() && #[trigger] marks[i] == GgufValue::Bool(true)
                ==> listed->Array_0.contains(Json::Number(JsonNumber::Integer(i)))
        &&& forall|j: int, k: int|
            0 <= j < k < listed->Array_0.len() ==> number_of(#[trigger] listed->Array_0[j])
                < number_of(#[trigger] listed->Array_0[k])
    } else {
        listed->Array_0.len() == 0
    }
}

pub open spec fn number_of(json: Json) -> int {
    json->Number_0->Integer_0
}

pub open spec fn is_marked(marks: Seq<GgufValue>, json: Json) -> bool {
    exists|i: int|
        0 <= i < marks.len() && #[trigger] marks[i] == GgufValue::Bool(true) && json
            == Json::Number(JsonNumber::Integer(i))
}

/// The configuration of Qwen3.5 shows its parts, each special token by its place in the
/// vocabulary, and whether the output has a weight of its own. The text model is
/// the one that was handed in, and shows the depth of the prediction head.
#[verifier::rlimit(100)]
pub proof fn law_qwen35_shows_tokens(
    metadata: Map<Seq<char>, GgufValue>,
    text_config: Result<Json, Seq<char>>,
    has_output: bool,
)
    requires
        qwen35_refusal(metadata, text_config).message is None,
    ensures
        ({
            let config = Json::Object(qwen35_members(metadata, text_config, has_output));
            let text = config.members()["text_config"@];
            let depth = "qwen35.nextn_predict_layers"@;
            &&& shows(
                config,
                "architectures"@,
                Json::Array(seq![Json::Text("Qwen3_5ForConditionalGeneration"@)]),
            )
            &&& shows(config, "model_type"@, Json::Text("qwen3_5"@))
            &&& shows(config, "tie_word_embeddings"@, Json::Bool(!has_output))
            &&& shows(config, "vision_config"@, Json::Object(qwen35_vision_members(metadata)))
            &&& config.members().contains_key("text_config"@)
            &&& text_config is Ok
            &&& forall|name: Seq<char>|
                name != "mtp_num_hidden_layers"@ ==> #[trigger] text.members().contains_key(name)
                    == text_config->Ok_0.members().contains_key(name)
            &&& forall|name: Seq<char>|
                name != "mtp_num_hidden_layers"@ ==> #[trigger] text.members()[name]
                    == text_config->Ok_0.members()[name]
            &&& if metadata.contains_key(depth) {
                shows_size(text, "mtp_num_hidden_layers"@, metadata, depth)
            } else {
                shows(text, "mtp_num_hidden_layers"@, Json::Number(JsonNumber::Integer(0)))
            }
        }),
        shows_token(Json::Object(qwen35_members(metadata, text_config, has_output)), "image_token_id"@, metadata, "<|image_pad|>"@),
        shows_token(Json::Object(qwen35_members(metadata, text_config, has_output)), "video_token_id"@, metadata, "<|video_pad|>"@),
        shows_token(Json::Object(qwen35_members(metadata, text_config, has_output)), "vision_start_token_id"@, metadata, "<|vision_start|>"@),
        shows_token(Json::Object(qwen35_members(metadata, text_config, has_output)), "vision_end_token_id"@, metadata, "<|vision_end|>"@),
{
    lemma_qwen35_names();
    let config = Json::Object(qwen35_members(metadata, text_config, has_output));
    assert(IMAGE_TOKEN@ == "<|image_pad|>"@ && VIDEO_TOKEN@ == "<|video_pad|>"@);
    assert(VISION_START_TOKEN@ == "<|vision_start|>"@ && VISION_END_TOKEN@ == "<|vision_end|>"@);
    lemma_token(metadata, config, "image_token_id"@, "<|image_pad|>"@);
    lemma_token(metadata, config, "video_token_id"@, "<|video_pad|>"@);
    lemma_token(metadata, config, "vision_start_token_id"@, "<|vision_start|>"@);
    lemma_token(metadata, config, "vision_end_token_id"@, "<|vision_end|>"@);
}

/// The text model of MuseGlimmer shows the sizes and the floats of the file. Keys and
/// values have heads of one size.
#[verifier::rlimit(100)]
pub proof fn law_glimmer_text_shows_sizes(metadata: Map<Seq<char>, GgufValue>)
    requires
        glimmer_text_refusal(metadata).message is None,
    ensures
        shows_size(Json::Object(glimmer_text_members(metadata)), "hidden_size"@, metadata, "muse-glimmer.embedding_length"@),
        shows_size(Json::Object(glimmer_text_members(metadata)), "intermediate_size"@, metadata, "muse-glimmer.feed_forward_length"@),
        shows_size(Json::Object(glimmer_text_members(metadata)), "num_hidden_layers"@, metadata, "muse-glimmer.block_count"@),
        shows_size(Json::Object(glimmer_text_members(metadata)), "num_attention_heads"@, metadata, "muse-glimmer.attention.head_count"@),
        shows_size(Json::Object(glimmer_text_members(metadata)), "num_key_value_heads"@, metadata, "muse-glimmer.attention.head_count_kv"@),
        shows_size(Json::Object(glimmer_text_members(metadata)), "head_dim"@, metadata, "muse-glimmer.attention.key_length"@),
        shows_size(Json::Object(glimmer_text_members(metadata)), "head_dim"@, metadata, "muse-glimmer.attention.value_length"@),
        shows_size(Json::Object(glimmer_text_members(metadata)), "max_position_embeddings"@, metadata, "muse-glimmer.context_length"@),
        shows_size(Json::Object(glimmer_text_members(metadata)), "sliding_window"@, metadata, "muse-glimmer.attention.sliding_window"@),
        shows_float(Json::Object(glimmer_text_members(metadata)), "rms_norm_eps"@, metadata, "muse-glimmer.attention.layer_norm_rms_epsilon"@),
        shows_float(Json::Object(glimmer_text_members(metadata)), "output_multiplier"@, metadata, "muse-glimmer.logit_scale"@),
        shows_float(Json::Object(glimmer_text_members(metadata)), "final_logit_softcapping"@, metadata, "muse-glimmer.final_logit_softcapping"@),
        ({
            let config = Json::Object(glimmer_text_members(metadata));
            let rope = config.members()["rope_parameters"@];
            &&& config.members().contains_key("rope_parameters"@)
            &&& shows_float(rope, "rope_theta"@, metadata, "muse-glimmer.rope.freq_base"@)
            &&& shows(config, "tie_word_embeddings"@, Json::Bool(false))
            &&& shows_vocabulary(config, "vocab_size"@, metadata)
            &&& shows_size(config, "bos_token_id"@, metadata, "tokenizer.ggml.bos_token_id"@)
            &&& shows_stops(config, "eos_token_id"@, metadata)
        }),
{
    lemma_glimmer_text_names();
    lemma_stops(metadata, Json::Object(glimmer_text_members(metadata)), "eos_token_id"@);
    lemma_vocabulary(metadata);
}

/// The vision tower of MuseGlimmer shows the sizes of the file.
#[verifier::rlimit(100)]
pub proof fn law_glimmer_vision_shows_sizes(metadata: Map<Seq<char>, GgufValue>, shapes: Map<Seq<char>, Vec<usize>>)
    requires
        glimmer_vision_refusal(metadata, shapes).message is None,
    ensures
        shows_size(glimmer_vision_json(metadata), "hidden_size"@, metadata, "clip.vision.embedding_length"@),
        shows_size(glimmer_vision_json(metadata), "intermediate_size"@, metadata, "clip.vision.feed_forward_length"@),
        shows_size(glimmer_vision_json(metadata), "num_attention_heads"@, metadata, "clip.vision.attention.head_count"@),
        shows_size(glimmer_vision_json(metadata), "num_hidden_layers"@, metadata, "clip.vision.block_count"@),
        shows_size(glimmer_vision_json(metadata), "patch_size"@, metadata, "clip.vision.patch_size"@),
        shows_merge(glimmer_vision_json(metadata), "merge_size"@, metadata),
{
    lemma_glimmer_vision_names();
}

/// The configuration of MuseGlimmer shows its parts, its special tokens by their places in
/// the vocabulary, its biases by its tensors, and the side of the projector that does
/// not hold a merged square of patches.
#[verifier::rlimit(100)]
pub proof fn law_glimmer_shows_tokens(metadata: Map<Seq<char>, GgufValue>, shapes: Map<Seq<char>, Vec<usize>>)
    requires
        glimmer_refusal(metadata, shapes).message is None,
    ensures
        ({
            let config = glimmer_json(metadata, shapes);
            let text = config.members()["text_config"@];
            let layers = glimmer_layers(metadata) as nat;
            let merge = merge_size(metadata)->Ok_0;
            let side = metadata["clip.vision.embedding_length"@].integer()->0 * merge * merge;
            &&& shows(
                config,
                "architectures"@,
                Json::Array(seq![Json::Text("MuseGlimmerForConditionalGeneration"@)]),
            )
            &&& shows(config, "vision_config"@, glimmer_vision_json(metadata))
            &&& config.members().contains_key("text_config"@)
            &&& text.members().contains_key("attention_bias"@)
            &&& forall|name: Seq<char>|
                name != "attention_bias"@ && #[trigger] glimmer_text_members(metadata).contains_key(
                    name,
                ) ==> shows(text, name, glimmer_text_members(metadata)[name])
            &&& forall|l: nat, tensor: Seq<char>|
                l < layers && is_bias(tensor) ==> (shapes.contains_key(
                    #[trigger] block_tensor(l, tensor),
                ) <==> text.members()["attention_bias"@] == Json::Bool(true))
            &&& shapes.contains_key("mm.0.weight"@) ==> {
                let shape = shapes["mm.0.weight"@]@;
                &&& shape.len() == 2
                &&& shape[0] == side || shape[1] == side
                &&& shows(
                    config,
                    "projector_hidden_size"@,
                    Json::Number(
                        JsonNumber::Integer(
                            if shape[0] == side {
                                shape[1] as int
                            } else {
                                shape[0] as int
                            },
                        ),
                    ),
                )
            }
        }),
        shows_token(glimmer_json(metadata, shapes), "image_token_id"@, metadata, "<|patch|>"@),
        shows_token(glimmer_json(metadata, shapes), "video_token_id"@, metadata, "<|video|>"@),
{
    lemma_glimmer_names();
    let config = glimmer_json(metadata, shapes);
    lemma_token(metadata, config, "image_token_id"@, "<|patch|>"@);
    lemma_token(metadata, config, "video_token_id"@, "<|video|>"@);
    lemma_biases(shapes, glimmer_layers(metadata));
}

/// The preprocessors show the patches, the merge size and the colours of the file.
#[verifier::rlimit(100)]
pub proof fn law_preprocessors_show_patches(metadata: Map<Seq<char>, GgufValue>, i: int)
    requires
        patch_refusal(metadata).message is None,
        0 <= i < 3,
    ensures
        ({
            let config = Json::Object(patch_members(metadata));
            &&& shows_size(config, "patch_size"@, metadata, "clip.vision.patch_size"@)
            &&& shows(config, "temporal_patch_size"@, Json::Number(JsonNumber::Integer(2)))
            &&& shows_merge(config, "merge_size"@, metadata)
            &&& shows_channel(config, "image_mean"@, metadata, "clip.vision.image_mean"@, i)
            &&& shows_channel(config, "image_std"@, metadata, "clip.vision.image_std"@, i)
        }),
{
    lemma_patch_names();
}

/// Whether a channel of a member is the float that the file has for it, or a half where
/// it has none.
pub open spec fn shows_channel(
    config: Json,
    name: Seq<char>,
    metadata: Map<Seq<char>, GgufValue>,
    key: Seq<char>,
    i: int,
) -> bool {
    let items = metadata[key].items()->0;
    &&& config.members().contains_key(name)
    &&& config.members()[name] matches Json::Array(channels) && channels.len() == 3 && channels[i]
        == if i < items.len() {
        items[i].float()->0
    } else {
        Json::Number(read_number("0.5"@))
    }
}

/// Every image of Gemma 4 is rescaled from eight bits and has its colours converted.
pub proof fn law_gemma4_images_are_rescaled()
    ensures
        shows(gemma4_preprocessor(), "do_rescale"@, Json::Bool(true)),
        shows(gemma4_preprocessor(), "do_convert_rgb"@, Json::Bool(true)),
        shows(
            gemma4_preprocessor(),
            "rescale_factor"@,
            Json::Number(read_number("0.00392156862745098"@)),
        ),
        gemma4_preprocessor().members().dom() =~= set![
            "do_rescale"@,
            "do_convert_rgb"@,
            "rescale_factor"@,
        ],
{
    reveal_strlit("do_rescale");
    reveal_strlit("do_convert_rgb");
    reveal_strlit("rescale_factor");
    assert("do_rescale"@.len() == 10);
    assert("do_convert_rgb"@.len() == 14);
    assert("rescale_factor"@.len() == 14);
    assert("do_convert_rgb"@[0] == 'd');
    assert("rescale_factor"@[0] == 'r');
}

/// The preprocessor of Qwen3.5 bounds the pixels of an image, and is otherwise that of the
/// patches.
pub proof fn law_qwen35_images_are_bounded(metadata: Map<Seq<char>, GgufValue>, name: Seq<char>)
    ensures
        shows(qwen35_preprocessor(metadata), "size"@, pixel_budget()),
        name != "size"@ && patch_members(metadata).contains_key(name) ==> shows(
            qwen35_preprocessor(metadata),
            name,
            patch_members(metadata)[name],
        ),
{
}

} // verus!
