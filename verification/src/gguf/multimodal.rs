//! Configurations of multimodal models, read from the metadata and the tensor
//! shapes of a standalone GGUF file pair.
use vstd::prelude::*;
use vstd::string::*;

use crate::gguf::gemma4::{
    gemma4_in_range, gemma4_is_in_range, gemma4_members, gemma4_refusal, synthesize_gemma4,
};
use crate::gguf::glimmer::{
    glimmer_in_range, glimmer_is_in_range, glimmer_json, glimmer_refusal, synthesize_muse_glimmer,
};
use crate::gguf::qwen35::{
    grid_fits, qwen35_grid_fits, qwen35_members, qwen35_refusal, qwen35_text, synthesize_qwen35,
};
use crate::gguf::shapes::TensorShapes;
use crate::gguf::value::{
    entry, f32_3, float_triple, optional_size, optional_usize, required_usize, set_size, size_json,
    tree_outcome, GgufValue, Metadata,
};
use crate::json::{
    json_bool, json_fraction, json_is_object, json_number, json_object, json_set, json_text,
    json_to_string, read_number, Json,
};
use crate::text::{answer, outcome, same_text, texts, Fault, Refusal};

verus! {

pub const DEFAULT_SPATIAL_MERGE_SIZE: usize = 2;

pub const DEFAULT_TEMPORAL_PATCH_SIZE: usize = 2;

/// The least number of pixels that images are scaled to.
pub const DEFAULT_SHORTEST_EDGE_PIXELS: usize = 65536;

/// The greatest number of pixels that images are scaled to.
pub const DEFAULT_LONGEST_EDGE_PIXELS: usize = 16777216;

// Preprocessors.

/// The spatial merge size that a file states, or the default.
pub open spec fn merge_size(metadata: Map<Seq<char>, GgufValue>) -> Result<usize, Seq<char>> {
    match optional_size(metadata, "clip.vision.spatial_merge_size"@) {
        Err(message) => Err(message),
        Ok(Some(size)) => Ok(size),
        Ok(None) => Ok(DEFAULT_SPATIAL_MERGE_SIZE),
    }
}

pub(crate) fn spatial_merge_size(metadata: &Metadata) -> (size: Result<usize, Fault>)
    ensures
        outcome(size) == merge_size(metadata@),
{
    match optional_usize(metadata, "clip.vision.spatial_merge_size")? {
        Some(size) => Ok(size),
        None => Ok(DEFAULT_SPATIAL_MERGE_SIZE),
    }
}

pub open spec fn patch_refusal(metadata: Map<Seq<char>, GgufValue>) -> Refusal {
    Refusal::none().or(merge_size(metadata)).or_size(metadata, "clip.vision.patch_size"@).or(
        float_triple(metadata, "clip.vision.image_mean"@),
    ).or(float_triple(metadata, "clip.vision.image_std"@))
}

pub open spec fn patch_members(metadata: Map<Seq<char>, GgufValue>) -> Map<Seq<char>, Json> {
    map![
        "patch_size"@ => size_json(metadata, "clip.vision.patch_size"@),
        "temporal_patch_size"@ => Json::uint(2),
        "merge_size"@ => Json::uint(merge_size(metadata)->Ok_0 as nat),
        "image_mean"@ => float_triple(metadata, "clip.vision.image_mean"@)->Ok_0,
        "image_std"@ => float_triple(metadata, "clip.vision.image_std"@)->Ok_0,
    ]
}

fn patch_preprocessor(metadata: &Metadata) -> (value: Result<serde_json::Value, Fault>)
    ensures
        tree_outcome(value) == answer(
            patch_refusal(metadata@),
            Json::Object(patch_members(metadata@)),
        ),
{
    let merge: usize = spatial_merge_size(metadata)?;
    let patch: usize = required_usize(metadata, "clip.vision.patch_size")?;
    let mean: serde_json::Value = f32_3(metadata, "clip.vision.image_mean")?;
    let std: serde_json::Value = f32_3(metadata, "clip.vision.image_std")?;
    let mut value: serde_json::Value = json_object();
    set_size(&mut value, "patch_size", patch);
    set_size(&mut value, "temporal_patch_size", DEFAULT_TEMPORAL_PATCH_SIZE);
    set_size(&mut value, "merge_size", merge);
    json_set(&mut value, "image_mean", mean);
    json_set(&mut value, "image_std", std);
    Ok(value)
}

/// What a file that is written as text answers.
pub open spec fn written(answer: Result<Json, Seq<char>>) -> Result<Seq<char>, Seq<char>> {
    match answer {
        Ok(tree) => Ok(json_text(tree)),
        Err(message) => Err(message),
    }
}

/// An outcome that is a text, with the text taken as its characters.
pub open spec fn text_outcome(r: Result<String, Fault>) -> Result<Seq<char>, Seq<char>> {
    match r {
        Ok(text) => Ok(text@),
        Err(fault) => Err(fault@),
    }
}

/// The image preprocessor of MuseGlimmer, as JSON text.
pub fn synthesize_muse_glimmer_preprocessor(metadata: &Metadata) -> (text: Result<String, Fault>)
    ensures
        text_outcome(text) == written(
            answer(patch_refusal(metadata@), Json::Object(patch_members(metadata@))),
        ),
{
    let value: serde_json::Value = patch_preprocessor(metadata)?;
    Ok(json_to_string(&value))
}

/// The pixel budget of the Qwen3-VL processor.
pub open spec fn pixel_budget() -> Json {
    Json::Object(
        map![
            "shortest_edge"@ => Json::uint(DEFAULT_SHORTEST_EDGE_PIXELS as nat),
            "longest_edge"@ => Json::uint(DEFAULT_LONGEST_EDGE_PIXELS as nat),
        ],
    )
}

/// The image preprocessor of Qwen3.5, as JSON text. A file carries no pixel
/// budget, so the family's default stands in.
pub fn synthesize_qwen35_preprocessor(metadata: &Metadata) -> (text: Result<String, Fault>)
    ensures
        text_outcome(text) == written(
            answer(
                patch_refusal(metadata@),
                Json::Object(patch_members(metadata@).insert("size"@, pixel_budget())),
            ),
        ),
        text_outcome(text) == written(
            answer(patch_refusal(metadata@), qwen35_preprocessor(metadata@)),
        ),
{
    let mut value: serde_json::Value = patch_preprocessor(metadata)?;
    let mut size: serde_json::Value = json_object();
    set_size(&mut size, "shortest_edge", DEFAULT_SHORTEST_EDGE_PIXELS);
    set_size(&mut size, "longest_edge", DEFAULT_LONGEST_EDGE_PIXELS);
    json_set(&mut value, "size", size);
    Ok(json_to_string(&value))
}

/// How Gemma 4 reads an image.
pub open spec fn gemma4_preprocessor() -> Json {
    Json::Object(
        map![
            "do_rescale"@ => Json::Bool(true),
            "rescale_factor"@ => Json::Number(read_number("0.00392156862745098"@)),
            "do_convert_rgb"@ => Json::Bool(true),
        ],
    )
}

/// How Qwen3.5 reads an image.
pub open spec fn qwen35_preprocessor(metadata: Map<Seq<char>, GgufValue>) -> Json {
    Json::Object(patch_members(metadata).insert("size"@, pixel_budget()))
}

/// The image preprocessor of Gemma 4, as JSON text. It is the same for every
/// file. The rescale factor is one in 255, the step of an 8-bit channel.
pub fn synthesize_gemma4_preprocessor(metadata: &Metadata) -> (text: Result<String, Fault>)
    ensures
        text_outcome(text) == Ok::<Seq<char>, Seq<char>>(
            json_text(
                Json::Object(
                    map![
                        "do_rescale"@ => Json::Bool(true),
                        "rescale_factor"@ => Json::Number(read_number("0.00392156862745098"@)),
                        "do_convert_rgb"@ => Json::Bool(true),
                    ],
                ),
            ),
        ),
        text_outcome(text) == Ok::<Seq<char>, Seq<char>>(json_text(gemma4_preprocessor())),
{
    proof {
        reveal_strlit("0.00392156862745098");
    }
    let mut value: serde_json::Value = json_object();
    json_set(&mut value, "do_rescale", json_bool(true));
    json_set(
        &mut value,
        "rescale_factor",
        json_number(Some(json_fraction("0.00392156862745098"))),
    );
    json_set(&mut value, "do_convert_rgb", json_bool(true));
    Ok(json_to_string(&value))
}

// File pairs.

/// Whether a model of an architecture and a projector of a type make a file
/// pair whose configuration can be read from the files alone.
pub open spec fn standalone_pair(architecture: Seq<char>, projector: Option<Seq<char>>) -> bool {
    ||| architecture == "qwen35"@ && projector == Some("qwen3vl_merger"@)
    ||| architecture == "gemma4"@ && projector == Some("gemma4v"@)
    ||| architecture == "muse-glimmer"@ && projector == Some("muse-glimmer"@)
}

/// Whether the configuration of a file pair can be read from the files alone,
/// so that no other assets need to be found.
pub fn supports_standalone_config(architecture: &str, projector: Option<&str>) -> (supported: bool)
    ensures
        supported == standalone_pair(
            architecture@,
            match projector {
                Some(projector) => Some(projector@),
                None => None,
            },
        ),
{
    match projector {
        Some(projector) => {
            (same_text(architecture, "qwen35") && same_text(projector, "qwen3vl_merger")) || (
            same_text(architecture, "gemma4") && same_text(projector, "gemma4v")) || (same_text(
                architecture,
                "muse-glimmer",
            ) && same_text(projector, "muse-glimmer"))
        },
        None => false,
    }
}

/// The text that metadata holds under `key`.
pub open spec fn entry_text(metadata: Map<Seq<char>, GgufValue>, key: Seq<char>) -> Option<
    Seq<char>,
> {
    match entry(metadata, key) {
        Some(GgufValue::String(text)) => Some(text@),
        _ => None,
    }
}

/// The projector type that metadata names, under the first of two keys that
/// holds a text.
pub open spec fn projector_type(metadata: Map<Seq<char>, GgufValue>) -> Option<Seq<char>> {
    match entry_text(metadata, "clip.projector_type"@) {
        Some(text) => Some(text),
        None => entry_text(metadata, "clip.vision.projector_type"@),
    }
}

/// The projector type of the first of several files that names one, from file
/// `i` on.
pub open spec fn first_projector(files: Seq<Map<Seq<char>, GgufValue>>, i: int) -> Option<Seq<char>>
    decreases files.len() - i,
{
    if i < 0 || i >= files.len() {
        None
    } else {
        match projector_type(files[i]) {
            Some(text) => Some(text),
            None => first_projector(files, i + 1),
        }
    }
}

pub open spec fn metadata_maps(files: Seq<&Metadata>) -> Seq<Map<Seq<char>, GgufValue>> {
    files.map_values(|file: &Metadata| file@)
}

fn text_of<'a>(metadata: &'a Metadata, key: &str) -> (text: Option<&'a str>)
    ensures
        match text {
            Some(text) => entry_text(metadata@, key@) == Some(text@),
            None => entry_text(metadata@, key@) is None,
        },
{
    match metadata.get(key) {
        Some(GgufValue::String(text)) => Some(text.as_str()),
        _ => None,
    }
}

/// Whether the configuration of a model file and its projector files can be
/// read from their metadata alone.
pub fn supports_standalone_assets(model_metadata: &Metadata, projector_metadata: &[&Metadata]) -> (
    supported: bool)
    ensures
        supported == match entry_text(model_metadata@, "general.architecture"@) {
            Some(architecture) => standalone_pair(
                architecture,
                first_projector(metadata_maps(projector_metadata@), 0),
            ),
            None => false,
        },
{
    let ghost files = metadata_maps(projector_metadata@);
    let mut projector: Option<&str> = None;
    let mut i: usize = 0;
    while i < projector_metadata.len() && projector.is_none()
        invariant
            i <= projector_metadata@.len(),
            files == metadata_maps(projector_metadata@),
            match projector {
                Some(text) => first_projector(files, 0) == Some(text@),
                None => first_projector(files, 0) == first_projector(files, i as int),
            },
        decreases projector_metadata@.len() - i,
    {
        let file: &Metadata = projector_metadata[i];
        assert(files[i as int] == file@);
        projector = match text_of(file, "clip.projector_type") {
            Some(text) => Some(text),
            None => text_of(file, "clip.vision.projector_type"),
        };
        i = i + 1;
    }
    match text_of(model_metadata, "general.architecture") {
        Some(architecture) => supports_standalone_config(architecture, projector),
        None => false,
    }
}

// Loaders.

/// The loaders of multimodal models that matter here; the others read a
/// configuration of their own.
#[derive(Clone, Copy, Debug, PartialEq, Eq, Structural)]
pub enum MultimodalLoaderType {
    Qwen3_5,
    Gemma4,
    MuseGlimmer,
    Other,
}

/// The configuration of a file pair, as a tree.
pub open spec fn multimodal_config(
    loader: MultimodalLoaderType,
    architecture: Seq<char>,
    metadata: Map<Seq<char>, GgufValue>,
    shapes: Map<Seq<char>, Vec<usize>>,
    text_config: Result<Json, Seq<char>>,
) -> Result<Json, Seq<char>> {
    match loader {
        MultimodalLoaderType::Qwen3_5 => answer(
            qwen35_refusal(metadata, text_config),
            Json::Object(
                qwen35_members(metadata, text_config, shapes.contains_key("output.weight"@)),
            ),
        ),
        MultimodalLoaderType::Gemma4 => answer(
            gemma4_refusal(metadata, shapes),
            Json::Object(gemma4_members(metadata, shapes)),
        ),
        MultimodalLoaderType::MuseGlimmer => answer(
            glimmer_refusal(metadata, shapes),
            glimmer_json(metadata, shapes),
        ),
        MultimodalLoaderType::Other => Err(
            "multimodal GGUF architecture `"@ + architecture
                + "` requires its original `config.json`; pass `--tok-model-id <original-model-id>`"@,
        ),
    }
}

/// Whether every count that a loader asks of a file pair has a value.
pub open spec fn multimodal_in_range(
    loader: MultimodalLoaderType,
    metadata: Map<Seq<char>, GgufValue>,
    shapes: Map<Seq<char>, Vec<usize>>,
    text_config: Result<Json, Seq<char>>,
) -> bool {
    match loader {
        MultimodalLoaderType::Qwen3_5 => qwen35_text(metadata, text_config) is Ok ==> grid_fits(
            metadata,
        ),
        MultimodalLoaderType::Gemma4 => gemma4_in_range(metadata, shapes),
        MultimodalLoaderType::MuseGlimmer => glimmer_in_range(metadata, shapes),
        MultimodalLoaderType::Other => true,
    }
}

/// Tests whether every size that a configuration asks for can be counted.
pub fn multimodal_is_in_range(
    loader: MultimodalLoaderType,
    metadata: &Metadata,
    tensor_shapes: &TensorShapes,
    text_config: &Result<serde_json::Value, Fault>,
) -> (in_range: bool)
    ensures
        in_range == multimodal_in_range(
            loader,
            metadata@,
            tensor_shapes@,
            tree_outcome(*text_config),
        ),
{
    match loader {
        MultimodalLoaderType::Qwen3_5 => match text_config {
            Ok(text) => !json_is_object(text) || optional_usize(
                metadata,
                "qwen35.nextn_predict_layers",
            ).is_err() || qwen35_grid_fits(metadata),
            Err(_) => true,
        },
        MultimodalLoaderType::Gemma4 => gemma4_is_in_range(metadata, tensor_shapes),
        MultimodalLoaderType::MuseGlimmer => glimmer_is_in_range(metadata, tensor_shapes),
        MultimodalLoaderType::Other => true,
    }
}

fn names_of(tensor_shapes: &TensorShapes) -> (names: Vec<String>)
    ensures
        texts(names@) == tensor_shapes.names(),
{
    let mut names: Vec<String> = Vec::new();
    let mut i: usize = 0;
    while i < tensor_shapes.len()
        invariant
            i <= tensor_shapes.names().len(),
            names@.len() == i,
            forall|k: int| 0 <= k < i ==> (#[trigger] names@[k])@ == tensor_shapes.names()[k],
        decreases tensor_shapes.names().len() - i,
    {
        names.push(String::from_str(tensor_shapes.name_at(i)));
        i = i + 1;
    }
    assert(texts(names@) =~= tensor_shapes.names());
    names
}

/// The configuration of a file pair, as JSON text. `text_config` is the
/// configuration of the language model alone, which only Qwen3.5 looks at.
pub fn synthesize_multimodal_config(
    loader: MultimodalLoaderType,
    architecture: &str,
    metadata: &Metadata,
    tensor_shapes: &TensorShapes,
    text_config: Result<serde_json::Value, Fault>,
) -> (text: Result<String, Fault>)
    requires
        multimodal_in_range(loader, metadata@, tensor_shapes@, tree_outcome(text_config)),
    ensures
        text_outcome(text) == written(
            multimodal_config(
                loader,
                architecture@,
                metadata@,
                tensor_shapes@,
                tree_outcome(text_config),
            ),
        ),
{
    let value: serde_json::Value = match loader {
        MultimodalLoaderType::Qwen3_5 => {
            let names: Vec<String> = names_of(tensor_shapes);
            proof {
                tensor_shapes.law_names_are_the_keys();
                assert(tensor_shapes@.contains_key("output.weight"@)
                    == tensor_shapes.names().contains("output.weight"@));
            }
            synthesize_qwen35(metadata, &names, text_config)?
        },
        MultimodalLoaderType::Gemma4 => synthesize_gemma4(metadata, tensor_shapes)?,
        MultimodalLoaderType::MuseGlimmer => synthesize_muse_glimmer(metadata, tensor_shapes)?,
        MultimodalLoaderType::Other => return Err(
            Fault::new(
                String::from_str("multimodal GGUF architecture `").concat(architecture).concat(
                    "` requires its original `config.json`; pass `--tok-model-id <original-model-id>`",
                ),
            ),
        ),
    };
    Ok(json_to_string(&value))
}

/// Each supported architecture goes with one projector.
pub proof fn law_standalone_pairs_are_unique(
    architecture: Seq<char>,
    a: Option<Seq<char>>,
    b: Option<Seq<char>>,
)
    requires
        standalone_pair(architecture, a),
        standalone_pair(architecture, b),
    ensures
        a == b,
        a is Some,
{
    reveal_strlit("qwen35");
    reveal_strlit("gemma4");
    reveal_strlit("muse-glimmer");
    assert("qwen35"@[0] != "gemma4"@[0]);
    assert("qwen35"@[0] != "muse-glimmer"@[0]);
    assert("gemma4"@[0] != "muse-glimmer"@[0]);
}

} // verus!
