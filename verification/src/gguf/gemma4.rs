//! The Gemma 4 configuration.
use vstd::prelude::*;

use crate::gguf::shapes::{
    attention_bias, gemma4_attention_k_eq_v, gemma4_kv_heads, gemma4_layer_types,
    gemma4_vision_attn_dims, keys_are_values, kv_heads, layer_kinds, odd_shape, odd_shape_fault,
    text_attention_bias, vision_attn_is_empty, vision_heads, vision_heads_empty, KvHeads,
    TensorShapes,
};
use crate::gguf::value::{
    copy_number, float_json, gen_ids, generation_ids, one_text, required_f64,
    required_size, required_usize, set_size, size_json, token_id, token_json, tokenizer_len,
    tree_outcome, vocab_size, GgufValue, Metadata,
};
use crate::json::{
    json_bool, json_fraction, json_null, json_number, json_object, json_set, json_string,
    json_strings, json_tree, json_uint, read_number, Json,
};
use crate::text::{answer, outcome, texts, Fault, Refusal};

verus! {

// The text model.

pub open spec fn gemma4_layers(metadata: Map<Seq<char>, GgufValue>) -> usize {
    required_size(metadata, "gemma4.block_count"@)->Ok_0
}

pub open spec fn gemma4_kinds(metadata: Map<Seq<char>, GgufValue>) -> Seq<Seq<char>> {
    layer_kinds(metadata, gemma4_layers(metadata))->Ok_0
}

/// What is refused before the attention biases are counted.
pub open spec fn gemma4_text_refusal(
    metadata: Map<Seq<char>, GgufValue>,
    shapes: Map<Seq<char>, Vec<usize>>,
) -> Refusal {
    Refusal::none().or_size(metadata, "gemma4.block_count"@).or(
        layer_kinds(metadata, gemma4_layers(metadata)),
    ).or(
        keys_are_values(shapes, gemma4_kinds(metadata), gemma4_kinds(metadata).len()),
    ).or(generation_ids(metadata)).or(kv_heads(metadata, gemma4_kinds(metadata))).or_size(
        metadata,
        "gemma4.attention.key_length"@,
    ).or_size(metadata, "gemma4.attention.key_length_swa"@).or_float(
        metadata,
        "gemma4.rope.freq_base"@,
    ).or_float(metadata, "gemma4.rope.freq_base_swa"@).or_size(
        metadata,
        "gemma4.embedding_length"@,
    ).or_size(metadata, "gemma4.feed_forward_length"@).or_size(
        metadata,
        "gemma4.attention.head_count"@,
    ).or_size(metadata, "gemma4.attention.sliding_window"@).or_float(
        metadata,
        "gemma4.final_logit_softcapping"@,
    ).or_size(metadata, "gemma4.expert_count"@).or_size(
        metadata,
        "gemma4.expert_used_count"@,
    ).or_size(metadata, "gemma4.expert_feed_forward_length"@).or_size(
        metadata,
        "gemma4.context_length"@,
    ).or(vocab_size(metadata)).or_float(metadata, "gemma4.attention.layer_norm_rms_epsilon"@)
}

/// The rotary embedding of one class of attention. Gemma 4 rotates a quarter of
/// each head.
pub open spec fn rope_json(theta: Json, kind: Seq<char>) -> Json {
    Json::Object(
        map![
            "rope_theta"@ => theta,
            "rope_type"@ => Json::Text(kind),
            "partial_rotary_factor"@ => Json::Number(read_number("0.25"@)),
        ],
    )
}

pub open spec fn optional_size_json(size: Option<usize>) -> Json {
    match size {
        Some(size) => Json::uint(size as nat),
        None => Json::Null,
    }
}

/// The text model, but for what its tensors say of biases and the heads of
/// sliding layers.
pub open spec fn gemma4_text_members(
    metadata: Map<Seq<char>, GgufValue>,
    shapes: Map<Seq<char>, Vec<usize>>,
) -> Map<Seq<char>, Json> {
    let kinds = gemma4_kinds(metadata);
    map![
        "hidden_size"@ => size_json(metadata, "gemma4.embedding_length"@),
        "intermediate_size"@ => size_json(metadata, "gemma4.feed_forward_length"@),
        "num_hidden_layers"@ => size_json(metadata, "gemma4.block_count"@),
        "num_attention_heads"@ => size_json(metadata, "gemma4.attention.head_count"@),
        "sliding_window"@ => size_json(metadata, "gemma4.attention.sliding_window"@),
        "final_logit_softcapping"@ => float_json(metadata, "gemma4.final_logit_softcapping"@),
        "quantization_config"@ => Json::Null,
        "layer_types"@ => Json::Array(kinds.map_values(|kind: Seq<char>| Json::Text(kind))),
        "num_global_key_value_heads"@ => optional_size_json(kv_heads(metadata, kinds)->Ok_0.full),
        "num_experts"@ => size_json(metadata, "gemma4.expert_count"@),
        "top_k_experts"@ => size_json(metadata, "gemma4.expert_used_count"@),
        "enable_moe_block"@ => Json::Bool(true),
        "expert_intermediate_size"@ => size_json(metadata, "gemma4.expert_feed_forward_length"@),
        "hidden_size_per_layer_input"@ => Json::Null,
        "vocab_size_per_layer_input"@ => Json::Null,
        "rope_parameters"@ => Json::Object(
            map![
                "full_attention"@ => rope_json(
                    float_json(metadata, "gemma4.rope.freq_base"@),
                    "proportional"@,
                ),
                "sliding_attention"@ => rope_json(
                    float_json(metadata, "gemma4.rope.freq_base_swa"@),
                    "default"@,
                ),
            ],
        ),
        "rope_theta"@ => float_json(metadata, "gemma4.rope.freq_base"@),
        "use_bidirectional_attention"@ => Json::Text("vision"@),
        "max_position_embeddings"@ => size_json(metadata, "gemma4.context_length"@),
        "vocab_size"@ => Json::uint(vocab_size(metadata)->Ok_0 as nat),
        "rms_norm_eps"@ => float_json(metadata, "gemma4.attention.layer_norm_rms_epsilon"@),
        "hidden_activation"@ => Json::Text("gelu_pytorch_tanh"@),
        "attention_k_eq_v"@ => Json::Bool(keys_are_values(shapes, kinds, kinds.len())->Ok_0),
        "tie_word_embeddings"@ => Json::Bool(true),
        "bos_token_id"@ => Json::uint(generation_ids(metadata)->Ok_0.0 as nat),
        "eos_token_id"@ => generation_ids(metadata)->Ok_0.1,
        "head_dim"@ => size_json(metadata, "gemma4.attention.key_length_swa"@),
        "global_head_dim"@ => size_json(metadata, "gemma4.attention.key_length"@),
    ]
}

/// The text model.
pub open spec fn gemma4_text_json(
    metadata: Map<Seq<char>, GgufValue>,
    shapes: Map<Seq<char>, Vec<usize>>,
) -> Json {
    let members = gemma4_text_members(metadata, shapes).insert(
        "attention_bias"@,
        Json::Bool(attention_bias(shapes, gemma4_layers(metadata))->Ok_0),
    );
    match kv_heads(metadata, gemma4_kinds(metadata))->Ok_0.sliding {
        Some(heads) => Json::Object(
            members.insert("num_key_value_heads"@, Json::uint(heads as nat)),
        ),
        None => Json::Object(members),
    }
}

fn rope_value(theta: &Option<serde_json::Number>, kind: &str) -> (value: serde_json::Value)
    ensures
        json_tree(value) == rope_json(crate::json::number_json(*theta), kind@),
{
    proof {
        reveal_strlit("0.25");
    }
    let mut value: serde_json::Value = json_object();
    json_set(&mut value, "rope_theta", json_number(copy_number(theta)));
    json_set(&mut value, "rope_type", json_string(kind));
    json_set(
        &mut value,
        "partial_rotary_factor",
        json_number(Some(json_fraction("0.25"))),
    );
    value
}

fn optional_size_value(size: Option<usize>) -> (value: serde_json::Value)
    ensures
        json_tree(value) == optional_size_json(size),
{
    match size {
        Some(size) => json_uint(size as u64),
        None => json_null(),
    }
}

/// The text model so far, and what the rest of the configuration needs of it.
struct Gemma4Text {
    layers: usize,
    sliding_heads: Option<usize>,
    value: serde_json::Value,
}

#[verifier::rlimit(40)]
fn read_gemma4_text(metadata: &Metadata, tensor_shapes: &TensorShapes) -> (text: Result<
    Gemma4Text,
    Fault,
>)
    ensures
        match text {
            Err(fault) => gemma4_text_refusal(metadata@, tensor_shapes@).message == Some(fault@),
            Ok(text) => {
                &&& gemma4_text_refusal(metadata@, tensor_shapes@).message is None
                &&& text.layers == gemma4_layers(metadata@)
                &&& text.sliding_heads == kv_heads(
                    metadata@,
                    gemma4_kinds(metadata@),
                )->Ok_0.sliding
                &&& json_tree(text.value) == Json::Object(
                    gemma4_text_members(metadata@, tensor_shapes@),
                )
            },
        },
{
    let layers: usize = required_usize(metadata, "gemma4.block_count")?;
    let kinds: Vec<String> = gemma4_layer_types(metadata, layers)?;
    let k_eq_v: bool = gemma4_attention_k_eq_v(tensor_shapes, &kinds)?;
    let (bos_id, eos_ids): (u32, serde_json::Value) = gen_ids(metadata)?;
    let heads: KvHeads = gemma4_kv_heads(metadata, &kinds)?;
    let key_length: usize = required_usize(metadata, "gemma4.attention.key_length")?;
    let key_length_swa: usize = required_usize(metadata, "gemma4.attention.key_length_swa")?;
    let freq_base: Option<serde_json::Number> = required_f64(metadata, "gemma4.rope.freq_base")?;
    let freq_base_swa: Option<serde_json::Number> = required_f64(
        metadata,
        "gemma4.rope.freq_base_swa",
    )?;
    let hidden: usize = required_usize(metadata, "gemma4.embedding_length")?;
    let intermediate: usize = required_usize(metadata, "gemma4.feed_forward_length")?;
    let num_heads: usize = required_usize(metadata, "gemma4.attention.head_count")?;
    let window: usize = required_usize(metadata, "gemma4.attention.sliding_window")?;
    let softcap: Option<serde_json::Number> = required_f64(
        metadata,
        "gemma4.final_logit_softcapping",
    )?;
    let experts: usize = required_usize(metadata, "gemma4.expert_count")?;
    let experts_used: usize = required_usize(metadata, "gemma4.expert_used_count")?;
    let expert_size: usize = required_usize(metadata, "gemma4.expert_feed_forward_length")?;
    let context: usize = required_usize(metadata, "gemma4.context_length")?;
    let vocab: usize = tokenizer_len(metadata)?;
    let eps: Option<serde_json::Number> = required_f64(
        metadata,
        "gemma4.attention.layer_norm_rms_epsilon",
    )?;
    assert(texts(kinds@).map_values(|kind: Seq<char>| Json::Text(kind)) =~= kinds@.map_values(
        |text: String| Json::Text(text@),
    ));
    let mut rope: serde_json::Value = json_object();
    json_set(&mut rope, "full_attention", rope_value(&freq_base, "proportional"));
    json_set(&mut rope, "sliding_attention", rope_value(&freq_base_swa, "default"));
    let mut value: serde_json::Value = json_object();
    set_size(&mut value, "hidden_size", hidden);
    set_size(&mut value, "intermediate_size", intermediate);
    set_size(&mut value, "num_hidden_layers", layers);
    set_size(&mut value, "num_attention_heads", num_heads);
    set_size(&mut value, "sliding_window", window);
    json_set(&mut value, "final_logit_softcapping", json_number(softcap));
    json_set(&mut value, "quantization_config", json_null());
    json_set(&mut value, "layer_types", json_strings(&kinds));
    json_set(&mut value, "num_global_key_value_heads", optional_size_value(heads.full));
    set_size(&mut value, "num_experts", experts);
    set_size(&mut value, "top_k_experts", experts_used);
    json_set(&mut value, "enable_moe_block", json_bool(true));
    set_size(&mut value, "expert_intermediate_size", expert_size);
    json_set(&mut value, "hidden_size_per_layer_input", json_null());
    json_set(&mut value, "vocab_size_per_layer_input", json_null());
    json_set(&mut value, "rope_parameters", rope);
    json_set(&mut value, "rope_theta", json_number(freq_base));
    json_set(&mut value, "use_bidirectional_attention", json_string("vision"));
    set_size(&mut value, "max_position_embeddings", context);
    set_size(&mut value, "vocab_size", vocab);
    json_set(&mut value, "rms_norm_eps", json_number(eps));
    json_set(&mut value, "hidden_activation", json_string("gelu_pytorch_tanh"));
    json_set(&mut value, "attention_k_eq_v", json_bool(k_eq_v));
    json_set(&mut value, "tie_word_embeddings", json_bool(true));
    json_set(&mut value, "bos_token_id", json_uint(bos_id as u64));
    json_set(&mut value, "eos_token_id", eos_ids);
    set_size(&mut value, "head_dim", key_length_swa);
    set_size(&mut value, "global_head_dim", key_length);
    Ok(Gemma4Text { layers, sliding_heads: heads.sliding, value })
}

// The vision tower.

/// What is refused before the heads of the vision tower are sized.
pub open spec fn gemma4_vision_refusal(
    metadata: Map<Seq<char>, GgufValue>,
    shapes: Map<Seq<char>, Vec<usize>>,
) -> Refusal {
    gemma4_text_refusal(metadata, shapes).or(
        attention_bias(shapes, gemma4_layers(metadata)),
    ).or_size(metadata, "clip.vision.attention.head_count"@).or_size(
        metadata,
        "clip.vision.embedding_length"@,
    ).or_size(metadata, "clip.vision.feed_forward_length"@).or_size(
        metadata,
        "clip.vision.block_count"@,
    ).or_size(metadata, "clip.vision.patch_size"@)
}

pub open spec fn gemma4_vision_members(metadata: Map<Seq<char>, GgufValue>) -> Map<
    Seq<char>,
    Json,
> {
    map![
        "hidden_size"@ => size_json(metadata, "clip.vision.embedding_length"@),
        "intermediate_size"@ => size_json(metadata, "clip.vision.feed_forward_length"@),
        "num_hidden_layers"@ => size_json(metadata, "clip.vision.block_count"@),
        "num_attention_heads"@ => size_json(metadata, "clip.vision.attention.head_count"@),
        "patch_size"@ => size_json(metadata, "clip.vision.patch_size"@),
        "hidden_activation"@ => Json::Text("gelu_pytorch_tanh"@),
        "standardize"@ => Json::Bool(true),
    ]
}

/// The heads of the vision tower, by its tensors.
pub open spec fn gemma4_vision_heads(
    metadata: Map<Seq<char>, GgufValue>,
    shapes: Map<Seq<char>, Vec<usize>>,
) -> Result<Option<(usize, usize)>, Seq<char>> {
    vision_heads(
        shapes,
        required_size(metadata, "clip.vision.attention.head_count"@)->Ok_0,
        required_size(metadata, "clip.vision.embedding_length"@)->Ok_0,
    )
}

/// The number of position embeddings: the middle dimension of their table.
pub open spec fn position_count(shapes: Map<Seq<char>, Vec<usize>>) -> Result<
    Option<usize>,
    Seq<char>,
> {
    if !shapes.contains_key("v.position_embd.weight"@) {
        Ok(None)
    } else {
        let shape = shapes["v.position_embd.weight"@]@;
        if shape.len() != 3 {
            Err(odd_shape("v.position_embd.weight"@, shape))
        } else {
            Ok(Some(shape[1]))
        }
    }
}

/// The vision tower.
pub open spec fn gemma4_vision_json(
    metadata: Map<Seq<char>, GgufValue>,
    shapes: Map<Seq<char>, Vec<usize>>,
) -> Json {
    let sized = match gemma4_vision_heads(metadata, shapes)->Ok_0 {
        Some((head_dim, heads)) => gemma4_vision_members(metadata).insert(
            "head_dim"@,
            Json::uint(head_dim as nat),
        ).insert("num_key_value_heads"@, Json::uint(heads as nat)),
        None => gemma4_vision_members(metadata),
    };
    match position_count(shapes)->Ok_0 {
        Some(positions) => Json::Object(
            sized.insert("position_embedding_size"@, Json::uint(positions as nat)),
        ),
        None => Json::Object(sized),
    }
}

struct Gemma4Vision {
    heads: usize,
    hidden: usize,
    value: serde_json::Value,
}

fn read_gemma4_vision(metadata: &Metadata) -> (vision: Result<Gemma4Vision, Fault>)
    ensures
        match vision {
            Err(fault) => vision_sizes_refusal(metadata@).message == Some(fault@),
            Ok(vision) => {
                &&& vision_sizes_refusal(metadata@).message is None
                &&& required_size(metadata@, "clip.vision.attention.head_count"@) == Ok::<
                    usize,
                    Seq<char>,
                >(vision.heads)
                &&& required_size(metadata@, "clip.vision.embedding_length"@) == Ok::<
                    usize,
                    Seq<char>,
                >(vision.hidden)
                &&& json_tree(vision.value) == Json::Object(gemma4_vision_members(metadata@))
            },
        },
{
    let heads: usize = required_usize(metadata, "clip.vision.attention.head_count")?;
    let hidden: usize = required_usize(metadata, "clip.vision.embedding_length")?;
    let intermediate: usize = required_usize(metadata, "clip.vision.feed_forward_length")?;
    let depth: usize = required_usize(metadata, "clip.vision.block_count")?;
    let patch: usize = required_usize(metadata, "clip.vision.patch_size")?;
    let mut value: serde_json::Value = json_object();
    set_size(&mut value, "hidden_size", hidden);
    set_size(&mut value, "intermediate_size", intermediate);
    set_size(&mut value, "num_hidden_layers", depth);
    set_size(&mut value, "num_attention_heads", heads);
    set_size(&mut value, "patch_size", patch);
    json_set(&mut value, "hidden_activation", json_string("gelu_pytorch_tanh"));
    json_set(&mut value, "standardize", json_bool(true));
    Ok(Gemma4Vision { heads, hidden, value })
}

spec fn vision_sizes_refusal(metadata: Map<Seq<char>, GgufValue>) -> Refusal {
    Refusal::none().or_size(metadata, "clip.vision.attention.head_count"@).or_size(
        metadata,
        "clip.vision.embedding_length"@,
    ).or_size(metadata, "clip.vision.feed_forward_length"@).or_size(
        metadata,
        "clip.vision.block_count"@,
    ).or_size(metadata, "clip.vision.patch_size"@)
}

fn position_embeddings(tensor_shapes: &TensorShapes) -> (count: Result<Option<usize>, Fault>)
    ensures
        outcome(count) == position_count(tensor_shapes@),
{
    match tensor_shapes.get("v.position_embd.weight") {
        None => Ok(None),
        Some(shape) => if shape.len() != 3 {
            Err(odd_shape_fault("v.position_embd.weight", shape))
        } else {
            Ok(Some(shape[1]))
        },
    }
}

// The whole configuration.

pub open spec fn gemma4_refusal(
    metadata: Map<Seq<char>, GgufValue>,
    shapes: Map<Seq<char>, Vec<usize>>,
) -> Refusal {
    gemma4_vision_refusal(metadata, shapes).or(gemma4_vision_heads(metadata, shapes)).or(
        position_count(shapes),
    ).or_token(metadata, "<|image|>"@).or_token(metadata, "<|audio|>"@).or_token(
        metadata,
        "<|video|>"@,
    ).or_token(metadata, "<|image>"@).or_token(metadata, "<image|>"@).or_token(
        metadata,
        "<|audio>"@,
    ).or_token(metadata, "<audio|>"@)
}

pub open spec fn gemma4_members(
    metadata: Map<Seq<char>, GgufValue>,
    shapes: Map<Seq<char>, Vec<usize>>,
) -> Map<Seq<char>, Json> {
    map![
        "architectures"@ => Json::Array(seq![Json::Text("Gemma4ForConditionalGeneration"@)]),
        "text_config"@ => gemma4_text_json(metadata, shapes),
        "vision_config"@ => gemma4_vision_json(metadata, shapes),
        "image_token_id"@ => token_json(metadata, "<|image|>"@),
        "audio_token_id"@ => token_json(metadata, "<|audio|>"@),
        "video_token_id"@ => token_json(metadata, "<|video|>"@),
        "boi_token_id"@ => token_json(metadata, "<|image>"@),
        "eoi_token_id"@ => token_json(metadata, "<image|>"@),
        "boa_token_id"@ => token_json(metadata, "<|audio>"@),
        "eoa_token_id"@ => token_json(metadata, "<audio|>"@),
    ]
}

/// Whether every count that a file asks for has a value: the biases of its
/// layers fit a `usize`, and its vision heads are not empty.
pub open spec fn gemma4_in_range(
    metadata: Map<Seq<char>, GgufValue>,
    shapes: Map<Seq<char>, Vec<usize>>,
) -> bool {
    &&& gemma4_text_refusal(metadata, shapes).message is None ==> gemma4_layers(metadata) * 4
        <= usize::MAX
    &&& gemma4_vision_refusal(metadata, shapes).message is None ==> !vision_heads_empty(
        shapes,
        required_size(metadata, "clip.vision.attention.head_count"@)->Ok_0,
        required_size(metadata, "clip.vision.embedding_length"@)->Ok_0,
    )
}

/// Tests whether every count that a file asks for has a value.
pub fn gemma4_is_in_range(metadata: &Metadata, tensor_shapes: &TensorShapes) -> (in_range: bool)
    ensures
        in_range == gemma4_in_range(metadata@, tensor_shapes@),
{
    let text: Gemma4Text = match read_gemma4_text(metadata, tensor_shapes) {
        Ok(text) => text,
        Err(_) => return true,
    };
    if text.layers.checked_mul(4).is_none() {
        return false;
    }
    match text_attention_bias(tensor_shapes, text.layers) {
        Ok(_) => {},
        Err(_) => return true,
    }
    match read_gemma4_vision(metadata) {
        Ok(vision) => !vision_attn_is_empty(tensor_shapes, vision.heads, vision.hidden),
        Err(_) => true,
    }
}

/// The Gemma 4 configuration.
#[verifier::rlimit(40)]
pub fn synthesize_gemma4(metadata: &Metadata, tensor_shapes: &TensorShapes) -> (value: Result<
    serde_json::Value,
    Fault,
>)
    requires
        gemma4_in_range(metadata@, tensor_shapes@),
    ensures
        tree_outcome(value) == answer(
            gemma4_refusal(metadata@, tensor_shapes@),
            Json::Object(gemma4_members(metadata@, tensor_shapes@)),
        ),
{
    let text: Gemma4Text = read_gemma4_text(metadata, tensor_shapes)?;
    let biased: bool = text_attention_bias(tensor_shapes, text.layers)?;
    let mut text_config: serde_json::Value = text.value;
    json_set(&mut text_config, "attention_bias", json_bool(biased));
    if let Some(heads) = text.sliding_heads {
        set_size(&mut text_config, "num_key_value_heads", heads);
    }
    let vision: Gemma4Vision = read_gemma4_vision(metadata)?;
    let dims: Option<(usize, usize)> = gemma4_vision_attn_dims(
        tensor_shapes,
        vision.heads,
        vision.hidden,
    )?;
    let mut vision_config: serde_json::Value = vision.value;
    if let Some((head_dim, heads)) = dims {
        set_size(&mut vision_config, "head_dim", head_dim);
        set_size(&mut vision_config, "num_key_value_heads", heads);
    }
    let positions: Option<usize> = position_embeddings(tensor_shapes)?;
    if let Some(positions) = positions {
        set_size(&mut vision_config, "position_embedding_size", positions);
    }
    let image: u32 = token_id(metadata, "<|image|>")?;
    let audio: u32 = token_id(metadata, "<|audio|>")?;
    let video: u32 = token_id(metadata, "<|video|>")?;
    let boi: u32 = token_id(metadata, "<|image>")?;
    let eoi: u32 = token_id(metadata, "<image|>")?;
    let boa: u32 = token_id(metadata, "<|audio>")?;
    let eoa: u32 = token_id(metadata, "<audio|>")?;
    let mut config: serde_json::Value = json_object();
    json_set(&mut config, "architectures", one_text("Gemma4ForConditionalGeneration"));
    json_set(&mut config, "text_config", text_config);
    json_set(&mut config, "vision_config", vision_config);
    json_set(&mut config, "image_token_id", json_uint(image as u64));
    json_set(&mut config, "audio_token_id", json_uint(audio as u64));
    json_set(&mut config, "video_token_id", json_uint(video as u64));
    json_set(&mut config, "boi_token_id", json_uint(boi as u64));
    json_set(&mut config, "eoi_token_id", json_uint(eoi as u64));
    json_set(&mut config, "boa_token_id", json_uint(boa as u64));
    json_set(&mut config, "eoa_token_id", json_uint(eoa as u64));
    Ok(config)
}

} // verus!
