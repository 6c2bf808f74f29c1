//! What the refusal of a file says of the file.
use vstd::prelude::*;

use crate::gguf::gemma4::{gemma4_refusal, gemma4_text_refusal};
use crate::gguf::glimmer::glimmer_head_dim;
use crate::gguf::multimodal::{multimodal_config, MultimodalLoaderType};
use crate::gguf::qwen35::{grid_check, qwen35_text};
use crate::gguf::reasons::{has_array, has_float, has_size};
use crate::gguf::shapes::{
    attention_bias, biases, block_tensor, first_vision_layer, keys_are_values, kv_heads,
    kv_heads_with, layer_kinds, odd_shape, proj_out, projector_hidden, vision_heads,
    vision_outputs, vision_tensor, KvHeads,
};
use crate::gguf::value::{
    bool_items, deepstack_places, float_triple, integer_items, optional_size, required_float,
    required_id, required_size, token_entry, vocab_size, GgufValue,
};
use crate::json::Json;
use crate::text::{bracketed, dec, lemma_compares, lemma_names, lemma_says, says};

verus! {

/// Whether a refusal comes with a message that begins and ends with given texts.
pub open spec fn refuses<T>(
    r: Result<T, Seq<char>>,
    opening: Seq<char>,
    closing: Seq<char>,
) -> bool {
    r matches Err(message) && says(message, opening, closing)
}

/// A value that a file lacks is refused by its key.
pub proof fn law_missing_values_are_named(metadata: Map<Seq<char>, GgufValue>, key: Seq<char>)
    ensures
        ({
            let opening = "Standalone multimodal config requires GGUF `"@ + key;
            &&& !metadata.contains_key(key) ==> {
                &&& refuses(required_size(metadata, key), opening, "`"@)
                &&& refuses(required_id(metadata, key), opening, "`"@)
                &&& refuses(required_float(metadata, key), opening, "`"@)
            }
            &&& !has_array(metadata, key) ==> {
                &&& refuses(float_triple(metadata, key), opening, "`"@)
                &&& refuses(bool_items(metadata, key), opening, "`"@)
            }
        }),
{
    lemma_names("Standalone multimodal config requires GGUF `"@, key, "`"@);
}

proof fn lemma_complains(key: Seq<char>, complaint: Seq<char>)
    ensures
        says("GGUF `"@ + key + "` "@ + complaint, "GGUF `"@ + key, "` "@ + complaint),
{
    lemma_names("GGUF `"@, key, "` "@ + complaint);
    assert("GGUF `"@ + key + ("` "@ + complaint) =~= "GGUF `"@ + key + "` "@ + complaint);
}

/// A value that is there and is not of its kind is refused by its key and the kind that it
/// must have.
pub proof fn law_odd_values_are_named(metadata: Map<Seq<char>, GgufValue>, key: Seq<char>)
    requires
        metadata.contains_key(key),
    ensures
        ({
            let opening = "GGUF `"@ + key;
            &&& !has_size(metadata, key) ==> {
                &&& refuses(required_size(metadata, key), opening, "` "@ + "must be an integer"@)
                &&& refuses(optional_size(metadata, key), opening, "` "@ + "must be an integer"@)
                &&& refuses(required_id(metadata, key), opening, "` "@ + "must be an integer"@)
            }
            &&& has_size(metadata, key) && metadata[key].integer()->0 > u32::MAX ==> refuses(
                required_id(metadata, key),
                opening,
                "` "@ + "does not fit u32"@,
            )
            &&& !has_float(metadata, key) ==> refuses(
                required_float(metadata, key),
                opening,
                "` "@ + "must be a float"@,
            )
            &&& has_array(metadata, key) && float_triple(metadata, key) is Err ==> refuses(
                float_triple(metadata, key),
                opening,
                "` "@ + "must be an f32 array"@,
            )
            &&& has_array(metadata, key) && bool_items(metadata, key) is Err ==> refuses(
                bool_items(metadata, key),
                opening,
                "` "@ + "must be a boolean array"@,
            )
        }),
{
    lemma_complains(key, "must be an integer"@);
    lemma_complains(key, "does not fit u32"@);
    lemma_complains(key, "must be a float"@);
    lemma_complains(key, "must be an f32 array"@);
    lemma_complains(key, "must be a boolean array"@);
}

/// An array of integers is refused by its key: where it is no array, and where an item of
/// it is none or is negative.
pub proof fn law_odd_integers_are_named(value: GgufValue, key: Seq<char>)
    ensures
        value is Array || refuses(
            integer_items(value, key),
            "GGUF `"@ + key,
            "` "@ + "must be an integer array"@,
        ),
        value is Array && integer_items(value, key) is Err ==> refuses(
            integer_items(value, key),
            "GGUF `"@ + key,
            "` "@ + "must hold nonnegative integers"@,
        ),
{
    lemma_complains(key, "must be an integer array"@);
    lemma_complains(key, "must hold nonnegative integers"@);
}

/// The deepstack layers are refused by their key.
pub proof fn law_odd_deepstack_is_named(metadata: Map<Seq<char>, GgufValue>)
    ensures
        deepstack_places(metadata) is Err ==> refuses(
            deepstack_places(metadata),
            "GGUF `"@ + "clip.vision.is_deepstack_layers"@,
            "` "@ + "must be a boolean array"@,
        ),
{
    lemma_complains("clip.vision.is_deepstack_layers"@, "must be a boolean array"@);
}

/// A token that has no id is refused by its text, and a file without a vocabulary by the
/// token that was asked of it.
pub proof fn law_missing_tokens_are_named(metadata: Map<Seq<char>, GgufValue>, token: Seq<char>)
    ensures
        !has_array(metadata, "tokenizer.ggml.tokens"@) ==> refuses(
            token_entry(metadata, token),
            "Standalone multimodal config requires `"@ + "tokenizer.ggml.tokens"@,
            token + "`"@,
        ),
        has_array(metadata, "tokenizer.ggml.tokens"@) && token_entry(metadata, token) is Err
            ==> refuses(
            token_entry(metadata, token),
            "GGUF tokenizer has no `"@ + token,
            "` entry"@,
        ),
{
    lemma_compares(
        "Standalone multimodal config requires `"@,
        "tokenizer.ggml.tokens"@,
        "` to resolve `"@,
        token,
        "`"@,
    );
    lemma_names("GGUF tokenizer has no `"@, token, "` entry"@);
}

/// A vocabulary that cannot be counted is refused by its key.
pub proof fn law_missing_vocabulary_is_named(metadata: Map<Seq<char>, GgufValue>)
    ensures
        !metadata.contains_key("tokenizer.ggml.tokens"@) ==> refuses(
            vocab_size(metadata),
            "GGUF metadata is missing `"@ + "tokenizer.ggml.tokens"@,
            "`"@,
        ),
        metadata.contains_key("tokenizer.ggml.tokens"@) && vocab_size(metadata) is Err ==> refuses(
            vocab_size(metadata),
            "GGUF metadata `"@ + "tokenizer.ggml.tokens"@,
            "` must be a nonempty array"@,
        ),
{
    lemma_names("GGUF metadata is missing `"@, "tokenizer.ggml.tokens"@, "`"@);
    lemma_names("GGUF metadata `"@, "tokenizer.ggml.tokens"@, "` must be a nonempty array"@);
}

/// A pattern that does not have one entry for each layer is refused by the number of its
/// entries, and then that of the layers.
pub proof fn law_odd_patterns_are_counted(metadata: Map<Seq<char>, GgufValue>, layers: usize)
    requires
        layer_kinds(metadata, layers) is Err,
        bool_items(metadata, "gemma4.attention.sliding_window_pattern"@) is Ok,
    ensures
        ({
            let entries = bool_items(
                metadata,
                "gemma4.attention.sliding_window_pattern"@,
            )->Ok_0.len();
            refuses(
                layer_kinds(metadata, layers),
                "GGUF `gemma4.attention.sliding_window_pattern` has "@ + dec(entries),
                dec(layers as nat) + " layers"@,
            )
        }),
{
    lemma_compares(
        "GGUF `gemma4.attention.sliding_window_pattern` has "@,
        dec(bool_items(metadata, "gemma4.attention.sliding_window_pattern"@)->Ok_0.len()),
        " entries for "@,
        dec(layers as nat),
        " layers"@,
    );
}

/// Head counts that are not one for each layer are refused by their number, and then that
/// of the layers.
pub proof fn law_odd_head_counts_are_counted(
    metadata: Map<Seq<char>, GgufValue>,
    kinds: Seq<Seq<char>>,
    counts: Seq<u64>,
)
    requires
        metadata.contains_key("gemma4.attention.head_count_kv"@),
        integer_items(
            metadata["gemma4.attention.head_count_kv"@],
            "gemma4.attention.head_count_kv"@,
        ) == Ok::<Seq<u64>, Seq<char>>(counts),
        counts.len() != kinds.len(),
    ensures
        refuses(
            kv_heads(metadata, kinds),
            "GGUF `gemma4.attention.head_count_kv` has "@ + dec(counts.len()),
            dec(kinds.len()) + " layers"@,
        ),
{
    lemma_compares(
        "GGUF `gemma4.attention.head_count_kv` has "@,
        dec(counts.len()),
        " entries for "@,
        dec(kinds.len()),
        " layers"@,
    );
}

/// A layer whose head count differs from that of an earlier layer of its class is refused
/// by the earlier count, and then its own; a count of no machine size by its layer.
pub proof fn law_odd_heads_are_told(heads: KvHeads, index: nat, sliding: bool, count: u64)
    requires
        kv_heads_with(heads, index, sliding, count) is Err,
    ensures
        count > usize::MAX ==> refuses(
            kv_heads_with(heads, index, sliding, count),
            "GGUF `gemma4.attention.head_count_kv["@ + dec(index),
            "]` does not fit usize"@,
        ),
        count <= usize::MAX && sliding ==> heads.sliding is Some && refuses(
            kv_heads_with(heads, index, sliding, count),
            "GGUF `gemma4.attention.head_count_kv` is not uniform within one attention class ("@
                + dec(heads.sliding->0 as nat),
            dec(count as nat) + "); provide the original Hugging Face config"@,
        ),
        count <= usize::MAX && !sliding ==> heads.full is Some && refuses(
            kv_heads_with(heads, index, sliding, count),
            "GGUF `gemma4.attention.head_count_kv` is not uniform within one attention class ("@
                + dec(heads.full->0 as nat),
            dec(count as nat) + "); provide the original Hugging Face config"@,
        ),
{
    lemma_names(
        "GGUF `gemma4.attention.head_count_kv["@,
        dec(index),
        "]` does not fit usize"@,
    );
    let seen = if sliding {
        heads.sliding->0
    } else {
        heads.full->0
    };
    lemma_compares(
        "GGUF `gemma4.attention.head_count_kv` is not uniform within one attention class ("@,
        dec(seen as nat),
        " vs "@,
        dec(count as nat),
        "); provide the original Hugging Face config"@,
    );
}

/// The first sliding layer that has no values is the one that is refused.
pub proof fn law_layer_without_values_is_named(
    shapes: Map<Seq<char>, Vec<usize>>,
    kinds: Seq<Seq<char>>,
    layer: nat,
    n: nat,
)
    requires
        layer < n,
        kinds[layer as int] == "sliding_attention"@,
        !shapes.contains_key(block_tensor(layer, ".attn_v.weight"@)),
        forall|j: nat|
            j < layer && kinds[j as int] == "sliding_attention"@ ==> shapes.contains_key(
                #[trigger] block_tensor(j, ".attn_v.weight"@),
            ),
    ensures
        refuses(
            keys_are_values(shapes, kinds, n),
            "GGUF sliding layer blk."@ + dec(layer),
            " has no `attn_v.weight`; provide the original Hugging Face config"@,
        ),
    decreases n,
{
    if n > layer + 1 {
        law_layer_without_values_is_named(shapes, kinds, layer, (n - 1) as nat);
    } else {
        lemma_values_so_far(shapes, kinds, layer);
        lemma_names(
            "GGUF sliding layer blk."@,
            dec(layer),
            " has no `attn_v.weight`; provide the original Hugging Face config"@,
        );
    }
}

proof fn lemma_values_so_far(
    shapes: Map<Seq<char>, Vec<usize>>,
    kinds: Seq<Seq<char>>,
    n: nat,
)
    requires
        forall|j: nat|
            j < n && kinds[j as int] == "sliding_attention"@ ==> shapes.contains_key(
                #[trigger] block_tensor(j, ".attn_v.weight"@),
            ),
    ensures
        keys_are_values(shapes, kinds, n) is Ok,
    decreases n,
{
    if n > 0 {
        lemma_values_so_far(shapes, kinds, (n - 1) as nat);
        let last = block_tensor((n - 1) as nat, ".attn_v.weight"@);
        assert(kinds[n - 1] == "sliding_attention"@ ==> shapes.contains_key(last));
    }
}

/// An incomplete set of biases is refused by the number that is there, and then that which
/// four for each layer make.
pub proof fn law_missing_biases_are_counted(shapes: Map<Seq<char>, Vec<usize>>, layers: usize)
    requires
        attention_bias(shapes, layers) is Err,
    ensures
        refuses(
            attention_bias(shapes, layers),
            "GGUF has an incomplete attention bias tensor set ("@ + dec(
                biases(shapes, layers as nat),
            ),
            dec(4 * layers as nat) + ")"@,
        ),
{
    lemma_compares(
        "GGUF has an incomplete attention bias tensor set ("@,
        dec(biases(shapes, layers as nat)),
        " of "@,
        dec(4 * layers as nat),
        ")"@,
    );
}

/// A tensor of an unexpected shape is refused by its name, and then the shape.
pub proof fn law_odd_shapes_are_told(name: Seq<char>, shape: Seq<usize>)
    ensures
        says(odd_shape(name, shape), "GGUF `"@ + name, "` has unexpected shape "@ + bracketed(shape)),
{
    lemma_names("GGUF `"@, name, "` has unexpected shape "@ + bracketed(shape));
    assert("GGUF `"@ + name + ("` has unexpected shape "@ + bracketed(shape)) =~= odd_shape(
        name,
        shape,
    ));
}

/// A projector of two dimensions that fits in neither of them is refused by its shape, and
/// then the features that one of them must be.
pub proof fn law_odd_projectors_are_told(
    shapes: Map<Seq<char>, Vec<usize>>,
    merge: usize,
    vision_hidden: usize,
)
    requires
        projector_hidden(shapes, merge, vision_hidden) is Err,
    ensures
        ({
            let shape = shapes["mm.0.weight"@]@;
            &&& shape.len() == 2 ==> refuses(
                projector_hidden(shapes, merge, vision_hidden),
                "GGUF `mm.0.weight` shape "@ + bracketed(shape),
                dec((vision_hidden * merge * merge) as nat) + " input features"@,
            )
            &&& shape.len() != 2 ==> projector_hidden(shapes, merge, vision_hidden)->Err_0
                == odd_shape("mm.0.weight"@, shape)
        }),
{
    lemma_compares(
        "GGUF `mm.0.weight` shape "@,
        bracketed(shapes["mm.0.weight"@]@),
        " matches neither weight layout for "@,
        dec((vision_hidden * merge * merge) as nat),
        " input features"@,
    );
}

/// Vision queries that heads do not share evenly are refused by their size, and then the
/// heads. A weight of no layout is refused by its own name, the queries first.
pub proof fn law_odd_vision_queries_are_told(
    shapes: Map<Seq<char>, Vec<usize>>,
    num_heads: usize,
    hidden: usize,
    first: usize,
)
    requires
        first_vision_layer(shapes) == Some(first),
        shapes.contains_key(vision_tensor(first as nat, ".attn_q.weight"@)),
        shapes.contains_key(vision_tensor(first as nat, ".attn_k.weight"@)),
    ensures
        ({
            let q_name = vision_tensor(first as nat, ".attn_q.weight"@);
            let k_name = vision_tensor(first as nat, ".attn_k.weight"@);
            match (proj_out(shapes[q_name]@, hidden), proj_out(shapes[k_name]@, hidden)) {
                (Some(q_out), Some(_)) => num_heads > 0 && q_out % num_heads == 0 || refuses(
                    vision_heads(shapes, num_heads, hidden),
                    "vision q dim "@ + dec(q_out as nat),
                    dec(num_heads as nat) + " heads"@,
                ),
                (None, _) => refuses(
                    vision_heads(shapes, num_heads, hidden),
                    "GGUF `"@ + q_name,
                    "` has unexpected shape "@ + bracketed(shapes[q_name]@),
                ),
                (Some(_), None) => refuses(
                    vision_heads(shapes, num_heads, hidden),
                    "GGUF `"@ + k_name,
                    "` has unexpected shape "@ + bracketed(shapes[k_name]@),
                ),
            }
        }),
{
    let q_name = vision_tensor(first as nat, ".attn_q.weight"@);
    let k_name = vision_tensor(first as nat, ".attn_k.weight"@);
    law_odd_shapes_are_told(q_name, shapes[q_name]@);
    law_odd_shapes_are_told(k_name, shapes[k_name]@);
    lemma_compares(
        "vision q dim "@,
        dec(proj_out(shapes[q_name]@, hidden)->0 as nat),
        " is not divisible into "@,
        dec(num_heads as nat),
        " heads"@,
    );
}

/// Vision keys that the head size does not divide are refused by their size, and then the
/// head size.
pub proof fn law_odd_vision_heads_are_told(
    shapes: Map<Seq<char>, Vec<usize>>,
    num_heads: usize,
    hidden: usize,
    q_out: usize,
    k_out: usize,
)
    requires
        num_heads > 0,
        vision_outputs(shapes, num_heads, hidden) == Ok::<Option<(usize, usize)>, Seq<char>>(
            Some((q_out, k_out)),
        ),
        vision_heads(shapes, num_heads, hidden) is Err,
    ensures
        refuses(
            vision_heads(shapes, num_heads, hidden),
            "vision k dim "@ + dec(k_out as nat),
            " is not a multiple of head dim "@ + dec((q_out / num_heads) as nat),
        ),
{
    lemma_says(
        "vision k dim "@ + dec(k_out as nat),
        Seq::empty(),
        " is not a multiple of head dim "@ + dec((q_out / num_heads) as nat),
    );
    assert("vision k dim "@ + dec(k_out as nat) + Seq::empty() + (" is not a multiple of head dim "@
        + dec((q_out / num_heads) as nat)) =~= "vision k dim "@ + dec(k_out as nat)
        + " is not a multiple of head dim "@ + dec((q_out / num_heads) as nat));
}

/// Head sizes that differ are refused by that of the keys, and then that of the values.
pub proof fn law_odd_head_sizes_are_told(metadata: Map<Seq<char>, GgufValue>)
    requires
        has_size(metadata, "muse-glimmer.attention.key_length"@),
        has_size(metadata, "muse-glimmer.attention.value_length"@),
    ensures
        ({
            let key = metadata["muse-glimmer.attention.key_length"@].integer()->0;
            let value = metadata["muse-glimmer.attention.value_length"@].integer()->0;
            &&& glimmer_head_dim(metadata) matches Ok(dim) ==> dim == key && dim == value
            &&& key != value ==> refuses(
                glimmer_head_dim(metadata),
                "muse-glimmer key/value head dims differ ("@ + dec(key as nat),
                dec(value as nat) + ")"@,
            )
        }),
{
    lemma_compares(
        "muse-glimmer key/value head dims differ ("@,
        dec(metadata["muse-glimmer.attention.key_length"@].integer()->0 as nat),
        " vs "@,
        dec(metadata["muse-glimmer.attention.value_length"@].integer()->0 as nat),
        ")"@,
    );
}

/// An image that patches do not tile is refused by its side, and then that of a patch.
pub proof fn law_odd_grids_are_told(metadata: Map<Seq<char>, GgufValue>)
    requires
        has_size(metadata, "clip.vision.image_size"@),
        has_size(metadata, "clip.vision.patch_size"@),
        grid_check(metadata) is Err,
    ensures
        refuses(
            grid_check(metadata),
            "GGUF `clip.vision.image_size` ("@ + dec(
                metadata["clip.vision.image_size"@].integer()->0 as nat,
            ),
            dec(metadata["clip.vision.patch_size"@].integer()->0 as nat) + ")"@,
        ),
{
    lemma_compares(
        "GGUF `clip.vision.image_size` ("@,
        dec(metadata["clip.vision.image_size"@].integer()->0 as nat),
        ") must be a multiple of `clip.vision.patch_size` ("@,
        dec(metadata["clip.vision.patch_size"@].integer()->0 as nat),
        ")"@,
    );
}

/// What the text configuration of Qwen3.5 was refused for is what is told, whatever the
/// file holds.
pub proof fn law_text_refusals_are_kept(
    metadata: Map<Seq<char>, GgufValue>,
    text_config: Result<Json, Seq<char>>,
)
    ensures
        text_config is Err ==> qwen35_text(metadata, text_config) == text_config,
        text_config matches Ok(text) && !(text is Object) ==> refuses(
            qwen35_text(metadata, text_config),
            "Synthesized Qwen3.5 text config "@,
            "must be a JSON object"@,
        ),
{
    reveal_strlit("Synthesized Qwen3.5 text config must be a JSON object");
    reveal_strlit("Synthesized Qwen3.5 text config ");
    reveal_strlit("must be a JSON object");
    lemma_says("Synthesized Qwen3.5 text config "@, Seq::empty(), "must be a JSON object"@);
    assert("Synthesized Qwen3.5 text config "@ + Seq::empty() + "must be a JSON object"@
        =~= "Synthesized Qwen3.5 text config must be a JSON object"@);
}

/// An architecture whose configuration no file pair gives is refused by its name, whatever
/// the files hold.
pub proof fn law_other_architectures_are_named(
    architecture: Seq<char>,
    metadata: Map<Seq<char>, GgufValue>,
    shapes: Map<Seq<char>, Vec<usize>>,
    text_config: Result<Json, Seq<char>>,
)
    ensures
        refuses(
            multimodal_config(
                MultimodalLoaderType::Other,
                architecture,
                metadata,
                shapes,
                text_config,
            ),
            "multimodal GGUF architecture `"@ + architecture,
            "` requires its original `config.json`; pass `--tok-model-id <original-model-id>`"@,
        ),
{
    lemma_names(
        "multimodal GGUF architecture `"@,
        architecture,
        "` requires its original `config.json`; pass `--tok-model-id <original-model-id>`"@,
    );
}

/// A refusal of the text model of Gemma 4 is the refusal of the whole, and what is missed
/// first is the number of layers.
pub proof fn law_text_is_refused_first(
    metadata: Map<Seq<char>, GgufValue>,
    shapes: Map<Seq<char>, Vec<usize>>,
)
    ensures
        gemma4_text_refusal(metadata, shapes).message matches Some(message) ==> gemma4_refusal(
            metadata,
            shapes,
        ).message == Some(message),
        !metadata.contains_key("gemma4.block_count"@) ==> (gemma4_refusal(
            metadata,
            shapes,
        ).message matches Some(message) && says(
            message,
            "Standalone multimodal config requires GGUF `"@ + "gemma4.block_count"@,
            "`"@,
        )),
{
    law_missing_values_are_named(metadata, "gemma4.block_count"@);
}

} // verus!
