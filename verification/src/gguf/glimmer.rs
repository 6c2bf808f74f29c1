//! The MuseGlimmer configuration.
use vstd::prelude::*;
use vstd::string::*;

use crate::gguf::multimodal::{merge_size, spatial_merge_size};
use crate::gguf::shapes::{
    attention_bias, glimmer_projector_hidden, projector_fits, projector_hidden, text_attention_bias,
    TensorShapes,
};
use crate::gguf::value::{
    float_json, gen_ids, generation_ids, one_text, required_f64, required_size,
    required_usize, set_size, size_json, token_id, token_json, tokenizer_len, tree_outcome,
    vocab_size, GgufValue, Metadata,
};
use crate::json::{
    json_bool, json_number, json_object, json_set, json_tree, json_uint, Json,
};
use crate::text::{answer, dec, decimal, outcome, Fault, Refusal};

verus! {

/// The head size, which keys and values must share.
pub open spec fn glimmer_head_dim(metadata: Map<Seq<char>, GgufValue>) -> Result<usize, Seq<char>> {
    let key = required_size(metadata, "muse-glimmer.attention.key_length"@)->Ok_0;
    let value = required_size(metadata, "muse-glimmer.attention.value_length"@)->Ok_0;
    if key == value {
        Ok(key)
    } else {
        Err(
            "muse-glimmer key/value head dims differ ("@ + dec(key as nat) + " vs "@ + dec(
                value as nat,
            ) + ")"@,
        )
    }
}

pub open spec fn glimmer_layers(metadata: Map<Seq<char>, GgufValue>) -> usize {
    required_size(metadata, "muse-glimmer.block_count"@)->Ok_0
}

pub open spec fn glimmer_vision_hidden(metadata: Map<Seq<char>, GgufValue>) -> usize {
    required_size(metadata, "clip.vision.embedding_length"@)->Ok_0
}

/// What is refused before the attention biases are counted.
pub open spec fn glimmer_text_refusal(metadata: Map<Seq<char>, GgufValue>) -> Refusal {
    Refusal::none().or_size(metadata, "muse-glimmer.block_count"@).or_size(
        metadata,
        "muse-glimmer.attention.key_length"@,
    ).or_size(metadata, "muse-glimmer.attention.value_length"@).or(
        glimmer_head_dim(metadata),
    ).or_size(metadata, "clip.vision.embedding_length"@).or(merge_size(metadata)).or(
        generation_ids(metadata),
    ).or(vocab_size(metadata)).or_size(metadata, "muse-glimmer.embedding_length"@).or_size(
        metadata,
        "muse-glimmer.feed_forward_length"@,
    ).or_size(metadata, "muse-glimmer.attention.head_count"@).or_size(
        metadata,
        "muse-glimmer.attention.head_count_kv"@,
    ).or_size(metadata, "muse-glimmer.context_length"@).or_float(
        metadata,
        "muse-glimmer.attention.layer_norm_rms_epsilon"@,
    ).or_size(metadata, "muse-glimmer.attention.sliding_window"@).or_float(
        metadata,
        "muse-glimmer.rope.freq_base"@,
    ).or_float(metadata, "muse-glimmer.logit_scale"@).or_float(
        metadata,
        "muse-glimmer.final_logit_softcapping"@,
    )
}

/// What is refused before the projector is sized.
pub open spec fn glimmer_vision_refusal(
    metadata: Map<Seq<char>, GgufValue>,
    shapes: Map<Seq<char>, Vec<usize>>,
) -> Refusal {
    glimmer_text_refusal(metadata).or(attention_bias(shapes, glimmer_layers(metadata))).or_size(
        metadata,
        "clip.vision.feed_forward_length"@,
    ).or_size(metadata, "clip.vision.attention.head_count"@).or_size(
        metadata,
        "clip.vision.block_count"@,
    ).or_size(metadata, "clip.vision.patch_size"@).or_token(metadata, "<|patch|>"@).or_token(
        metadata,
        "<|video|>"@,
    )
}

pub open spec fn glimmer_projector(
    metadata: Map<Seq<char>, GgufValue>,
    shapes: Map<Seq<char>, Vec<usize>>,
) -> Result<Option<usize>, Seq<char>> {
    projector_hidden(shapes, merge_size(metadata)->Ok_0, glimmer_vision_hidden(metadata))
}

pub open spec fn glimmer_refusal(
    metadata: Map<Seq<char>, GgufValue>,
    shapes: Map<Seq<char>, Vec<usize>>,
) -> Refusal {
    glimmer_vision_refusal(metadata, shapes).or(glimmer_projector(metadata, shapes))
}

/// The text model, but for what its tensors say of biases.
pub open spec fn glimmer_text_members(metadata: Map<Seq<char>, GgufValue>) -> Map<Seq<char>, Json> {
    map![
        "vocab_size"@ => Json::uint(vocab_size(metadata)->Ok_0 as nat),
        "hidden_size"@ => size_json(metadata, "muse-glimmer.embedding_length"@),
        "intermediate_size"@ => size_json(metadata, "muse-glimmer.feed_forward_length"@),
        "num_hidden_layers"@ => size_json(metadata, "muse-glimmer.block_count"@),
        "num_attention_heads"@ => size_json(metadata, "muse-glimmer.attention.head_count"@),
        "num_key_value_heads"@ => size_json(metadata, "muse-glimmer.attention.head_count_kv"@),
        "head_dim"@ => Json::uint(glimmer_head_dim(metadata)->Ok_0 as nat),
        "max_position_embeddings"@ => size_json(metadata, "muse-glimmer.context_length"@),
        "rms_norm_eps"@ => float_json(metadata, "muse-glimmer.attention.layer_norm_rms_epsilon"@),
        "sliding_window"@ => size_json(metadata, "muse-glimmer.attention.sliding_window"@),
        "rope_parameters"@ => Json::Object(
            map!["rope_theta"@ => float_json(metadata, "muse-glimmer.rope.freq_base"@)],
        ),
        "output_multiplier"@ => float_json(metadata, "muse-glimmer.logit_scale"@),
        "final_logit_softcapping"@ => float_json(metadata, "muse-glimmer.final_logit_softcapping"@),
        "tie_word_embeddings"@ => Json::Bool(false),
        "bos_token_id"@ => Json::uint(generation_ids(metadata)->Ok_0.0 as nat),
        "eos_token_id"@ => generation_ids(metadata)->Ok_0.1,
    ]
}

pub open spec fn glimmer_vision_json(metadata: Map<Seq<char>, GgufValue>) -> Json {
    Json::Object(
        map![
            "hidden_size"@ => size_json(metadata, "clip.vision.embedding_length"@),
            "intermediate_size"@ => size_json(metadata, "clip.vision.feed_forward_length"@),
            "num_attention_heads"@ => size_json(metadata, "clip.vision.attention.head_count"@),
            "num_hidden_layers"@ => size_json(metadata, "clip.vision.block_count"@),
            "patch_size"@ => size_json(metadata, "clip.vision.patch_size"@),
            "merge_size"@ => Json::uint(merge_size(metadata)->Ok_0 as nat),
        ],
    )
}

/// The configuration, but for the projector.
pub open spec fn glimmer_base_members(
    metadata: Map<Seq<char>, GgufValue>,
    shapes: Map<Seq<char>, Vec<usize>>,
) -> Map<Seq<char>, Json> {
    map![
        "architectures"@ => Json::Array(seq![Json::Text("MuseGlimmerForConditionalGeneration"@)]),
        "text_config"@ => Json::Object(
            glimmer_text_members(metadata).insert(
                "attention_bias"@,
                Json::Bool(attention_bias(shapes, glimmer_layers(metadata))->Ok_0),
            ),
        ),
        "vision_config"@ => glimmer_vision_json(metadata),
        "image_token_id"@ => token_json(metadata, "<|patch|>"@),
        "video_token_id"@ => token_json(metadata, "<|video|>"@),
    ]
}

pub open spec fn glimmer_json(
    metadata: Map<Seq<char>, GgufValue>,
    shapes: Map<Seq<char>, Vec<usize>>,
) -> Json {
    let members = glimmer_base_members(metadata, shapes);
    match glimmer_projector(metadata, shapes)->Ok_0 {
        Some(hidden) => Json::Object(
            members.insert("projector_hidden_size"@, Json::uint(hidden as nat)),
        ),
        None => Json::Object(members),
    }
}

/// Whether every count that a file asks for fits a `usize`.
pub open spec fn glimmer_in_range(
    metadata: Map<Seq<char>, GgufValue>,
    shapes: Map<Seq<char>, Vec<usize>>,
) -> bool {
    &&& glimmer_text_refusal(metadata).message is None ==> glimmer_layers(metadata) * 4
        <= usize::MAX
    &&& glimmer_vision_refusal(metadata, shapes).message is None ==> projector_fits(
        shapes,
        merge_size(metadata)->Ok_0,
        glimmer_vision_hidden(metadata),
    )
}

/// The text model so far, and what the rest of the configuration needs of it.
struct GlimmerText {
    layers: usize,
    vision_hidden: usize,
    merge: usize,
    value: serde_json::Value,
}

fn same_head_dim(key: usize, value: usize) -> (head_dim: Result<usize, Fault>)
    ensures
        outcome(head_dim) == if key == value {
            Ok::<usize, Seq<char>>(key)
        } else {
            Err(
                "muse-glimmer key/value head dims differ ("@ + dec(key as nat) + " vs "@ + dec(
                    value as nat,
                ) + ")"@,
            )
        },
{
    if key != value {
        return Err(
            Fault::new(
                String::from_str("muse-glimmer key/value head dims differ (").concat(
                    decimal(key as u64).as_str(),
                ).concat(" vs ").concat(decimal(value as u64).as_str()).concat(")"),
            ),
        );
    }
    Ok(key)
}

#[verifier::rlimit(40)]
fn read_glimmer_text(metadata: &Metadata) -> (text: Result<GlimmerText, Fault>)
    ensures
        match text {
            Err(fault) => glimmer_text_refusal(metadata@).message == Some(fault@),
            Ok(text) => {
                &&& glimmer_text_refusal(metadata@).message is None
                &&& text.layers == glimmer_layers(metadata@)
                &&& required_size(metadata@, "clip.vision.embedding_length"@) == Ok::<
                    usize,
                    Seq<char>,
                >(text.vision_hidden)
                &&& merge_size(metadata@) == Ok::<usize, Seq<char>>(text.merge)
                &&& json_tree(text.value) == Json::Object(glimmer_text_members(metadata@))
            },
        },
{
    let layers: usize = required_usize(metadata, "muse-glimmer.block_count")?;
    let key_length: usize = required_usize(metadata, "muse-glimmer.attention.key_length")?;
    let value_length: usize = required_usize(metadata, "muse-glimmer.attention.value_length")?;
    let head_dim: usize = same_head_dim(key_length, value_length)?;
    let vision_hidden: usize = required_usize(metadata, "clip.vision.embedding_length")?;
    let merge: usize = spatial_merge_size(metadata)?;
    let (bos_id, eos_ids): (u32, serde_json::Value) = gen_ids(metadata)?;
    let vocab: usize = tokenizer_len(metadata)?;
    let hidden: usize = required_usize(metadata, "muse-glimmer.embedding_length")?;
    let intermediate: usize = required_usize(metadata, "muse-glimmer.feed_forward_length")?;
    let heads: usize = required_usize(metadata, "muse-glimmer.attention.head_count")?;
    let kv_heads: usize = required_usize(metadata, "muse-glimmer.attention.head_count_kv")?;
    let context: usize = required_usize(metadata, "muse-glimmer.context_length")?;
    let eps: Option<serde_json::Number> = required_f64(
        metadata,
        "muse-glimmer.attention.layer_norm_rms_epsilon",
    )?;
    let window: usize = required_usize(metadata, "muse-glimmer.attention.sliding_window")?;
    let theta: Option<serde_json::Number> = required_f64(metadata, "muse-glimmer.rope.freq_base")?;
    let scale: Option<serde_json::Number> = required_f64(metadata, "muse-glimmer.logit_scale")?;
    let softcap: Option<serde_json::Number> = required_f64(
        metadata,
        "muse-glimmer.final_logit_softcapping",
    )?;
    let mut rope: serde_json::Value = json_object();
    json_set(&mut rope, "rope_theta", json_number(theta));
    let mut value: serde_json::Value = json_object();
    set_size(&mut value, "vocab_size", vocab);
    set_size(&mut value, "hidden_size", hidden);
    set_size(&mut value, "intermediate_size", intermediate);
    set_size(&mut value, "num_hidden_layers", layers);
    set_size(&mut value, "num_attention_heads", heads);
    set_size(&mut value, "num_key_value_heads", kv_heads);
    set_size(&mut value, "head_dim", head_dim);
    set_size(&mut value, "max_position_embeddings", context);
    json_set(&mut value, "rms_norm_eps", json_number(eps));
    set_size(&mut value, "sliding_window", window);
    json_set(&mut value, "rope_parameters", rope);
    json_set(&mut value, "output_multiplier", json_number(scale));
    json_set(&mut value, "final_logit_softcapping", json_number(softcap));
    json_set(&mut value, "tie_word_embeddings", json_bool(false));
    json_set(&mut value, "bos_token_id", json_uint(bos_id as u64));
    json_set(&mut value, "eos_token_id", eos_ids);
    Ok(GlimmerText { layers, vision_hidden, merge, value })
}

/// The configuration, but for the projector.
struct GlimmerBase {
    vision_hidden: usize,
    merge: usize,
    value: serde_json::Value,
}

fn read_glimmer(metadata: &Metadata, tensor_shapes: &TensorShapes, text: GlimmerText) -> (base:
    Result<GlimmerBase, Fault>)
    requires
        glimmer_text_refusal(metadata@).message is None,
        text.layers == glimmer_layers(metadata@),
        required_size(metadata@, "clip.vision.embedding_length"@) == Ok::<usize, Seq<char>>(
            text.vision_hidden,
        ),
        merge_size(metadata@) == Ok::<usize, Seq<char>>(text.merge),
        json_tree(text.value) == Json::Object(glimmer_text_members(metadata@)),
        text.layers * 4 <= usize::MAX,
    ensures
        match base {
            Err(fault) => glimmer_vision_refusal(metadata@, tensor_shapes@).message == Some(fault@),
            Ok(base) => {
                &&& glimmer_vision_refusal(metadata@, tensor_shapes@).message is None
                &&& base.vision_hidden == text.vision_hidden
                &&& base.merge == text.merge
                &&& json_tree(base.value) == Json::Object(
                    glimmer_base_members(metadata@, tensor_shapes@),
                )
            },
        },
{
    let biased: bool = text_attention_bias(tensor_shapes, text.layers)?;
    let mut text_config: serde_json::Value = text.value;
    json_set(&mut text_config, "attention_bias", json_bool(biased));
    let intermediate: usize = required_usize(metadata, "clip.vision.feed_forward_length")?;
    let heads: usize = required_usize(metadata, "clip.vision.attention.head_count")?;
    let depth: usize = required_usize(metadata, "clip.vision.block_count")?;
    let patch: usize = required_usize(metadata, "clip.vision.patch_size")?;
    let image: u32 = token_id(metadata, "<|patch|>")?;
    let video: u32 = token_id(metadata, "<|video|>")?;
    let mut vision: serde_json::Value = json_object();
    set_size(&mut vision, "hidden_size", text.vision_hidden);
    set_size(&mut vision, "intermediate_size", intermediate);
    set_size(&mut vision, "num_attention_heads", heads);
    set_size(&mut vision, "num_hidden_layers", depth);
    set_size(&mut vision, "patch_size", patch);
    set_size(&mut vision, "merge_size", text.merge);
    let mut value: serde_json::Value = json_object();
    json_set(&mut value, "architectures", one_text("MuseGlimmerForConditionalGeneration"));
    json_set(&mut value, "text_config", text_config);
    json_set(&mut value, "vision_config", vision);
    json_set(&mut value, "image_token_id", json_uint(image as u64));
    json_set(&mut value, "video_token_id", json_uint(video as u64));
    Ok(GlimmerBase { vision_hidden: text.vision_hidden, merge: text.merge, value })
}

/// Tests whether every count that a file asks for fits a `usize`.
pub fn glimmer_is_in_range(metadata: &Metadata, tensor_shapes: &TensorShapes) -> (in_range: bool)
    ensures
        in_range == glimmer_in_range(metadata@, tensor_shapes@),
{
    let text: GlimmerText = match read_glimmer_text(metadata) {
        Ok(text) => text,
        Err(_) => return true,
    };
    if text.layers.checked_mul(4).is_none() {
        return false;
    }
    let base: GlimmerBase = match read_glimmer(metadata, tensor_shapes, text) {
        Ok(base) => base,
        Err(_) => return true,
    };
    match tensor_shapes.get("mm.0.weight") {
        None => true,
        Some(shape) => {
            if shape.len() != 2 {
                return true;
            }
            match base.vision_hidden.checked_mul(base.merge) {
                Some(row) => row.checked_mul(base.merge).is_some(),
                None => {
                    assert(base.merge >= 1) by (nonlinear_arith)
                        requires
                            base.vision_hidden * base.merge > usize::MAX,
                    ;
                    assert(base.vision_hidden * base.merge * base.merge > usize::MAX)
                        by (nonlinear_arith)
                        requires
                            base.vision_hidden * base.merge > usize::MAX,
                            base.merge >= 1,
                    ;
                    false
                },
            }
        },
    }
}

/// The MuseGlimmer configuration.
pub fn synthesize_muse_glimmer(metadata: &Metadata, tensor_shapes: &TensorShapes) -> (value: Result<
    serde_json::Value,
    Fault,
>)
    requires
        glimmer_in_range(metadata@, tensor_shapes@),
    ensures
        tree_outcome(value) == answer(
            glimmer_refusal(metadata@, tensor_shapes@),
            glimmer_json(metadata@, tensor_shapes@),
        ),
{
    let text: GlimmerText = read_glimmer_text(metadata)?;
    let base: GlimmerBase = read_glimmer(metadata, tensor_shapes, text)?;
    let projector: Option<usize> = glimmer_projector_hidden(
        tensor_shapes,
        base.merge,
        base.vision_hidden,
    )?;
    let mut config: serde_json::Value = base.value;
    if let Some(hidden) = projector {
        set_size(&mut config, "projector_hidden_size", hidden);
    }
    Ok(config)
}

} // verus!
