//! The Qwen3.5 configuration.
use vstd::prelude::*;
use vstd::string::*;

use crate::gguf::multimodal::{merge_size, spatial_merge_size};
use crate::gguf::value::{
    deepstack_indices, deepstack_places, one_text, optional_size, optional_usize, required_size,
    required_usize, set_size, size_json, token_id, token_json, tree_outcome, GgufValue, Metadata,
};
use crate::json::{
    json_bool, json_is_object, json_object, json_set, json_string, json_uint, json_uints,
    uint_list, Json,
};
use crate::text::{answer, dec, decimal, lists_text, outcome, texts, Fault, Refusal};

verus! {

pub const IMAGE_TOKEN: &'static str = "<|image_pad|>";

pub const VIDEO_TOKEN: &'static str = "<|video_pad|>";

pub const VISION_START_TOKEN: &'static str = "<|vision_start|>";

pub const VISION_END_TOKEN: &'static str = "<|vision_end|>";

// The Qwen3.5 vision tower.

/// The refusal of an image that the patches do not tile.
pub open spec fn grid_check(metadata: Map<Seq<char>, GgufValue>) -> Result<nat, Seq<char>> {
    let image = required_size(metadata, "clip.vision.image_size"@)->Ok_0;
    let patch = required_size(metadata, "clip.vision.patch_size"@)->Ok_0;
    if patch == 0 || image % patch != 0 {
        Err(
            "GGUF `clip.vision.image_size` ("@ + dec(image as nat)
                + ") must be a multiple of `clip.vision.patch_size` ("@ + dec(patch as nat) + ")"@,
        )
    } else {
        Ok((image / patch) as nat)
    }
}

/// What is refused before the position embeddings are counted.
pub open spec fn grid_refusal(metadata: Map<Seq<char>, GgufValue>) -> Refusal {
    Refusal::none().or_size(metadata, "clip.vision.image_size"@).or_size(
        metadata,
        "clip.vision.patch_size"@,
    ).or(grid_check(metadata)).or_size(metadata, "clip.vision.block_count"@).or_size(
        metadata,
        "clip.vision.embedding_length"@,
    ).or_size(metadata, "clip.vision.projection_dim"@).or_size(
        metadata,
        "clip.vision.feed_forward_length"@,
    ).or_size(metadata, "clip.vision.attention.head_count"@)
}

pub open spec fn qwen35_vision_refusal(metadata: Map<Seq<char>, GgufValue>) -> Refusal {
    grid_refusal(metadata).or(deepstack_places(metadata)).or(merge_size(metadata))
}

/// The position embeddings: one for each patch of the square image.
pub open spec fn grid_positions(metadata: Map<Seq<char>, GgufValue>) -> nat {
    grid_check(metadata)->Ok_0 * grid_check(metadata)->Ok_0
}

pub open spec fn qwen35_vision_members(metadata: Map<Seq<char>, GgufValue>) -> Map<
    Seq<char>,
    Json,
> {
    map![
        "depth"@ => size_json(metadata, "clip.vision.block_count"@),
        "hidden_size"@ => size_json(metadata, "clip.vision.embedding_length"@),
        "out_hidden_size"@ => size_json(metadata, "clip.vision.projection_dim"@),
        "intermediate_size"@ => size_json(metadata, "clip.vision.feed_forward_length"@),
        "num_heads"@ => size_json(metadata, "clip.vision.attention.head_count"@),
        "patch_size"@ => size_json(metadata, "clip.vision.patch_size"@),
        "num_position_embeddings"@ => Json::uint(grid_positions(metadata)),
        "deepstack_visual_indexes"@ => uint_list(deepstack_places(metadata)->Ok_0),
        "spatial_merge_size"@ => Json::uint(merge_size(metadata)->Ok_0 as nat),
    ]
}

/// Whether the position embeddings can be counted in a `usize`.
pub open spec fn grid_fits(metadata: Map<Seq<char>, GgufValue>) -> bool {
    grid_refusal(metadata).message is None ==> grid_positions(metadata) <= usize::MAX
}

fn grid_side(image: usize, patch: usize) -> (side: Result<usize, Fault>)
    ensures
        outcome(side) == if patch == 0 || image % patch != 0 {
            Err::<usize, Seq<char>>(
                "GGUF `clip.vision.image_size` ("@ + dec(image as nat)
                    + ") must be a multiple of `clip.vision.patch_size` ("@ + dec(patch as nat)
                    + ")"@,
            )
        } else {
            Ok((image / patch) as usize)
        },
{
    if patch == 0 || image % patch != 0 {
        return Err(
            Fault::new(
                String::from_str("GGUF `clip.vision.image_size` (").concat(
                    decimal(image as u64).as_str(),
                ).concat(") must be a multiple of `clip.vision.patch_size` (").concat(
                    decimal(patch as u64).as_str(),
                ).concat(")"),
            ),
        );
    }
    Ok(image / patch)
}

/// The sizes of the vision tower.
struct GridSizes {
    patch: usize,
    grid: usize,
    depth: usize,
    hidden: usize,
    out_hidden: usize,
    intermediate: usize,
    heads: usize,
}

fn read_grid(metadata: &Metadata) -> (sizes: Result<GridSizes, Fault>)
    ensures
        match sizes {
            Err(fault) => grid_refusal(metadata@).message == Some(fault@),
            Ok(sizes) => {
                &&& grid_refusal(metadata@).message is None
                &&& required_size(metadata@, "clip.vision.patch_size"@) == Ok::<usize, Seq<char>>(
                    sizes.patch,
                )
                &&& grid_check(metadata@) == Ok::<nat, Seq<char>>(sizes.grid as nat)
                &&& required_size(metadata@, "clip.vision.block_count"@) == Ok::<usize, Seq<char>>(
                    sizes.depth,
                )
                &&& required_size(metadata@, "clip.vision.embedding_length"@) == Ok::<
                    usize,
                    Seq<char>,
                >(sizes.hidden)
                &&& required_size(metadata@, "clip.vision.projection_dim"@) == Ok::<
                    usize,
                    Seq<char>,
                >(sizes.out_hidden)
                &&& required_size(metadata@, "clip.vision.feed_forward_length"@) == Ok::<
                    usize,
                    Seq<char>,
                >(sizes.intermediate)
                &&& required_size(metadata@, "clip.vision.attention.head_count"@) == Ok::<
                    usize,
                    Seq<char>,
                >(sizes.heads)
            },
        },
{
    let image: usize = required_usize(metadata, "clip.vision.image_size")?;
    let patch: usize = required_usize(metadata, "clip.vision.patch_size")?;
    let grid: usize = grid_side(image, patch)?;
    let depth: usize = required_usize(metadata, "clip.vision.block_count")?;
    let hidden: usize = required_usize(metadata, "clip.vision.embedding_length")?;
    let out_hidden: usize = required_usize(metadata, "clip.vision.projection_dim")?;
    let intermediate: usize = required_usize(metadata, "clip.vision.feed_forward_length")?;
    let heads: usize = required_usize(metadata, "clip.vision.attention.head_count")?;
    Ok(GridSizes { patch, grid, depth, hidden, out_hidden, intermediate, heads })
}

/// The vision tower of Qwen3.5.
pub fn qwen35_vision_config(metadata: &Metadata) -> (value: Result<serde_json::Value, Fault>)
    requires
        grid_fits(metadata@),
    ensures
        tree_outcome(value) == answer(
            qwen35_vision_refusal(metadata@),
            Json::Object(qwen35_vision_members(metadata@)),
        ),
{
    let sizes: GridSizes = read_grid(metadata)?;
    assert(grid_positions(metadata@) == sizes.grid * sizes.grid);
    let positions: usize = sizes.grid * sizes.grid;
    let deepstack: Vec<usize> = deepstack_indices(metadata)?;
    let merge: usize = spatial_merge_size(metadata)?;
    let mut vision: serde_json::Value = json_object();
    set_size(&mut vision, "depth", sizes.depth);
    set_size(&mut vision, "hidden_size", sizes.hidden);
    set_size(&mut vision, "out_hidden_size", sizes.out_hidden);
    set_size(&mut vision, "intermediate_size", sizes.intermediate);
    set_size(&mut vision, "num_heads", sizes.heads);
    set_size(&mut vision, "patch_size", sizes.patch);
    set_size(&mut vision, "num_position_embeddings", positions);
    json_set(&mut vision, "deepstack_visual_indexes", json_uints(&deepstack));
    set_size(&mut vision, "spatial_merge_size", merge);
    Ok(vision)
}

/// Whether the position embeddings of a file can be counted in a `usize`.
pub fn qwen35_grid_fits(metadata: &Metadata) -> (fits: bool)
    ensures
        fits == grid_fits(metadata@),
{
    match read_grid(metadata) {
        Ok(sizes) => sizes.grid.checked_mul(sizes.grid).is_some(),
        Err(_) => true,
    }
}

// The whole configuration.

/// The text configuration, with the depth of the prediction head added.
pub open spec fn qwen35_text(
    metadata: Map<Seq<char>, GgufValue>,
    text_config: Result<Json, Seq<char>>,
) -> Result<Json, Seq<char>> {
    match text_config {
        Err(message) => Err(message),
        Ok(text) => if !(text is Object) {
            Err("Synthesized Qwen3.5 text config must be a JSON object"@)
        } else {
            match optional_size(metadata, "qwen35.nextn_predict_layers"@) {
                Err(message) => Err(message),
                Ok(depth) => Ok(
                    Json::Object(
                        text.members().insert(
                            "mtp_num_hidden_layers"@,
                            Json::uint(
                                match depth {
                                    Some(layers) => layers as nat,
                                    None => 0,
                                },
                            ),
                        ),
                    ),
                ),
            }
        },
    }
}

pub open spec fn qwen35_refusal(
    metadata: Map<Seq<char>, GgufValue>,
    text_config: Result<Json, Seq<char>>,
) -> Refusal {
    Refusal::none().or(qwen35_text(metadata, text_config)).or(
        answer(qwen35_vision_refusal(metadata), Json::Null),
    ).or_token(metadata, IMAGE_TOKEN@).or_token(metadata, VIDEO_TOKEN@).or_token(
        metadata,
        VISION_START_TOKEN@,
    ).or_token(metadata, VISION_END_TOKEN@)
}

/// The configuration. Without an output weight of its own, a model ties its
/// output to its embeddings.
pub open spec fn qwen35_members(
    metadata: Map<Seq<char>, GgufValue>,
    text_config: Result<Json, Seq<char>>,
    has_output: bool,
) -> Map<Seq<char>, Json> {
    map![
        "architectures"@ => Json::Array(seq![Json::Text("Qwen3_5ForConditionalGeneration"@)]),
        "model_type"@ => Json::Text("qwen3_5"@),
        "text_config"@ => qwen35_text(metadata, text_config)->Ok_0,
        "vision_config"@ => Json::Object(qwen35_vision_members(metadata)),
        "image_token_id"@ => token_json(metadata, IMAGE_TOKEN@),
        "video_token_id"@ => token_json(metadata, VIDEO_TOKEN@),
        "vision_start_token_id"@ => token_json(metadata, VISION_START_TOKEN@),
        "vision_end_token_id"@ => token_json(metadata, VISION_END_TOKEN@),
        "tie_word_embeddings"@ => Json::Bool(!has_output),
    ]
}

fn qwen35_text_config(metadata: &Metadata, text_config: Result<serde_json::Value, Fault>) -> (value:
    Result<serde_json::Value, Fault>)
    ensures
        tree_outcome(value) == qwen35_text(metadata@, tree_outcome(text_config)),
{
    let mut text: serde_json::Value = text_config?;
    if !json_is_object(&text) {
        return Err(Fault::of("Synthesized Qwen3.5 text config must be a JSON object"));
    }
    let layers: usize = match optional_usize(metadata, "qwen35.nextn_predict_layers")? {
        Some(layers) => layers,
        None => 0,
    };
    set_size(&mut text, "mtp_num_hidden_layers", layers);
    Ok(text)
}

/// The Qwen3.5 configuration. `text_config` is the configuration of the
/// language model alone, made from the same file.
pub fn synthesize_qwen35(
    metadata: &Metadata,
    tensor_names: &Vec<String>,
    text_config: Result<serde_json::Value, Fault>,
) -> (value: Result<serde_json::Value, Fault>)
    requires
        qwen35_text(metadata@, tree_outcome(text_config)) is Ok ==> grid_fits(metadata@),
    ensures
        tree_outcome(value) == answer(
            qwen35_refusal(metadata@, tree_outcome(text_config)),
            Json::Object(
                qwen35_members(
                    metadata@,
                    tree_outcome(text_config),
                    texts(tensor_names@).contains("output.weight"@),
                ),
            ),
        ),
{
    let text: serde_json::Value = qwen35_text_config(metadata, text_config)?;
    let vision: serde_json::Value = qwen35_vision_config(metadata)?;
    let image: u32 = token_id(metadata, IMAGE_TOKEN)?;
    let video: u32 = token_id(metadata, VIDEO_TOKEN)?;
    let vision_start: u32 = token_id(metadata, VISION_START_TOKEN)?;
    let vision_end: u32 = token_id(metadata, VISION_END_TOKEN)?;
    let mut config: serde_json::Value = json_object();
    json_set(&mut config, "architectures", one_text("Qwen3_5ForConditionalGeneration"));
    json_set(&mut config, "model_type", json_string("qwen3_5"));
    json_set(&mut config, "text_config", text);
    json_set(&mut config, "vision_config", vision);
    json_set(&mut config, "image_token_id", json_uint(image as u64));
    json_set(&mut config, "video_token_id", json_uint(video as u64));
    json_set(&mut config, "vision_start_token_id", json_uint(vision_start as u64));
    json_set(&mut config, "vision_end_token_id", json_uint(vision_end as u64));
    json_set(
        &mut config,
        "tie_word_embeddings",
        json_bool(!lists_text(tensor_names, "output.weight")),
    );
    Ok(config)
}

} // verus!
