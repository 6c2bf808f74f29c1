//! What a file must hold for its configuration to be given.
use vstd::prelude::*;

use crate::gguf::gemma4::{
    gemma4_kinds, gemma4_layers, gemma4_refusal, gemma4_text_refusal, gemma4_vision_refusal,
};
use crate::gguf::glimmer::{glimmer_layers, glimmer_refusal, glimmer_text_refusal};
use crate::gguf::laws::{is_bias, shows, slides};
use crate::gguf::multimodal::{
    first_projector, merge_size, multimodal_config, multimodal_in_range, patch_refusal,
    pixel_budget, projector_type, standalone_pair, MultimodalLoaderType,
};
use crate::gguf::qwen35::{
    qwen35_refusal, qwen35_vision_refusal, IMAGE_TOKEN, VIDEO_TOKEN, VISION_END_TOKEN,
    VISION_START_TOKEN,
};
use crate::gguf::shapes::{
    attention_bias, biases, block_tensor, first_vision_layer, has_vision_layer,
    is_first_vision_layer, keys_are_values, kv_heads, kv_heads_of, law_attention_bias,
    law_kv_heads_are_uniform, layer_biases, layer_kinds, vision_heads, vision_layer, vision_tensor,
};
use crate::gguf::value::{
    first_at, float_triple, generation_ids, integer_items, required_float,
    required_id, required_size, token_entry, vocab_size, GgufValue,
};
use crate::json::{Json, JsonNumber};
use crate::text::{dec, law_decimal_reads_back};

verus! {

/// Whether a file has a size under a key.
pub open spec fn has_size(metadata: Map<Seq<char>, GgufValue>, key: Seq<char>) -> bool {
    metadata.contains_key(key) && (metadata[key].integer() matches Some(n) && 0 <= n <= usize::MAX)
}

/// Whether a file has a size under a key, or nothing.
pub open spec fn may_have_size(metadata: Map<Seq<char>, GgufValue>, key: Seq<char>) -> bool {
    metadata.contains_key(key) ==> has_size(metadata, key)
}

/// Whether a file has a float under a key.
pub open spec fn has_float(metadata: Map<Seq<char>, GgufValue>, key: Seq<char>) -> bool {
    metadata.contains_key(key) && (metadata[key] is F32 || metadata[key] is F64)
}

/// Whether a file has a token id under a key.
pub open spec fn has_id(metadata: Map<Seq<char>, GgufValue>, key: Seq<char>) -> bool {
    has_size(metadata, key) && metadata[key].integer()->0 <= u32::MAX
}

/// Whether a file has an array under a key.
pub open spec fn has_array(metadata: Map<Seq<char>, GgufValue>, key: Seq<char>) -> bool {
    metadata.contains_key(key) && metadata[key] is Array
}

/// The array that a file has under a key.
pub open spec fn array_of(metadata: Map<Seq<char>, GgufValue>, key: Seq<char>) -> Seq<GgufValue> {
    metadata[key]->Array_0@
}

/// Whether a file has a vocabulary.
pub open spec fn has_vocabulary(metadata: Map<Seq<char>, GgufValue>) -> bool {
    has_array(metadata, "tokenizer.ggml.tokens"@) && array_of(
        metadata,
        "tokenizer.ggml.tokens"@,
    ).len() > 0
}

/// Whether a token stands in the vocabulary, in a place that is an id.
pub open spec fn has_token(metadata: Map<Seq<char>, GgufValue>, token: Seq<char>) -> bool {
    has_array(metadata, "tokenizer.ggml.tokens"@) && exists|i: int|
        0 <= i <= u32::MAX && #[trigger] first_at(
            array_of(metadata, "tokenizer.ggml.tokens"@),
            token,
            i,
        )
}

/// Whether a file has the three colours of a channel as far as it states them.
pub open spec fn has_colours(metadata: Map<Seq<char>, GgufValue>, key: Seq<char>) -> bool {
    has_array(metadata, key) && forall|i: int|
        0 <= i < 3 && i < array_of(metadata, key).len() ==> (#[trigger] array_of(
            metadata,
            key,
        )[i]) is F32
}

/// An integer of any width is read as it is; nothing else is an integer.
pub proof fn law_integers_are_read(
    a: u8,
    b: u16,
    c: u32,
    d: u64,
    e: i8,
    f: i16,
    g: i32,
    h: i64,
    value: GgufValue,
)
    ensures
        GgufValue::U8(a).integer() == Some(a as int),
        GgufValue::U16(b).integer() == Some(b as int),
        GgufValue::U32(c).integer() == Some(c as int),
        GgufValue::U64(d).integer() == Some(d as int),
        GgufValue::I8(e).integer() == Some(e as int),
        GgufValue::I16(f).integer() == Some(f as int),
        GgufValue::I32(g).integer() == Some(g as int),
        GgufValue::I64(h).integer() == Some(h as int),
        (value is F32 || value is F64 || value is Bool || value is String || value is Array)
            ==> value.integer() is None,
{
}

/// A size is given exactly where the file has one, and a float, an id and a token too.
pub proof fn law_values_are_given(
    metadata: Map<Seq<char>, GgufValue>,
    key: Seq<char>,
    token: Seq<char>,
)
    ensures
        required_size(metadata, key) is Ok <==> has_size(metadata, key),
        required_size(metadata, key) is Ok ==> required_size(metadata, key)->Ok_0
            == metadata[key].integer()->0,
        required_float(metadata, key) is Ok <==> has_float(metadata, key),
        required_id(metadata, key) is Ok <==> has_id(metadata, key),
        token_entry(metadata, token) is Ok <==> has_token(metadata, token),
        vocab_size(metadata) is Ok <==> has_vocabulary(metadata),
        float_triple(metadata, key) is Ok <==> has_colours(metadata, key),
        merge_size(metadata) is Ok <==> may_have_size(
            metadata,
            "clip.vision.spatial_merge_size"@,
        ),
        generation_ids(metadata) is Ok <==> has_id(metadata, "tokenizer.ggml.bos_token_id"@)
            && has_id(metadata, "tokenizer.ggml.eos_token_id"@),
{
    let items = array_of(metadata, "tokenizer.ggml.tokens"@);
    if exists|i: int| first_at(items, token, i) {
        let i = choose|i: int| first_at(items, token, i);
        assert(first_at(items, token, i));
        assert forall|j: int| #[trigger] first_at(items, token, j) implies j == i by {
            if j < i {
                assert(items[j].is_text(token));
            } else if i < j {
                assert(items[i].is_text(token));
            }
        }
    }
}

/// Whether the pattern of a file says of each layer whether it slides.
pub open spec fn has_pattern(metadata: Map<Seq<char>, GgufValue>) -> bool {
    let key = "gemma4.attention.sliding_window_pattern"@;
    &&& has_array(metadata, key)
    &&& array_of(metadata, key).len() == gemma4_layers(metadata)
    &&& forall|i: int|
        0 <= i < array_of(metadata, key).len() ==> (#[trigger] array_of(metadata, key)[i]) is Bool
}

/// Whether the key-value heads of a file, where it has them, are counted for each layer,
/// and layers of one class have as many.
pub open spec fn has_even_heads(metadata: Map<Seq<char>, GgufValue>) -> bool {
    let key = "gemma4.attention.head_count_kv"@;
    metadata.contains_key(key) ==> {
        &&& metadata[key] is Array
        &&& array_of(metadata, key).len() == gemma4_layers(metadata)
        &&& forall|i: int|
            0 <= i < array_of(metadata, key).len() ==> ((#[trigger] array_of(
                metadata,
                key,
            )[i]).integer() matches Some(n) && 0 <= n <= usize::MAX)
        &&& forall|i: int, j: int|
            0 <= i < array_of(metadata, key).len() && 0 <= j < array_of(metadata, key).len()
                && slides(metadata, i) == slides(metadata, j) ==> (#[trigger] array_of(
                metadata,
                key,
            )[i]).integer() == (#[trigger] array_of(metadata, key)[j]).integer()
    }
}

/// Whether each sliding layer has a value projection.
pub open spec fn has_values(
    metadata: Map<Seq<char>, GgufValue>,
    shapes: Map<Seq<char>, Vec<usize>>,
) -> bool {
    forall|l: nat|
        l < gemma4_layers(metadata) && slides(metadata, l as int) ==> shapes.contains_key(
            #[trigger] block_tensor(l, ".attn_v.weight"@),
        )
}

/// Whether the layers have all their biases, or none.
pub open spec fn has_even_biases(shapes: Map<Seq<char>, Vec<usize>>, layers: nat) -> bool {
    ||| forall|l: nat, tensor: Seq<char>|
        l < layers && is_bias(tensor) ==> shapes.contains_key(#[trigger] block_tensor(l, tensor))
    ||| forall|l: nat, tensor: Seq<char>|
        l < layers && is_bias(tensor) ==> !shapes.contains_key(#[trigger] block_tensor(l, tensor))
}

/// Whether the files tell all that the text model of Gemma 4 needs.
pub open spec fn tells_gemma4_text(
    metadata: Map<Seq<char>, GgufValue>,
    shapes: Map<Seq<char>, Vec<usize>>,
) -> bool {
    &&& has_size(metadata, "gemma4.block_count"@)
    &&& has_size(metadata, "gemma4.attention.key_length"@)
    &&& has_size(metadata, "gemma4.attention.key_length_swa"@)
    &&& has_size(metadata, "gemma4.embedding_length"@)
    &&& has_size(metadata, "gemma4.feed_forward_length"@)
    &&& has_size(metadata, "gemma4.attention.head_count"@)
    &&& has_size(metadata, "gemma4.attention.sliding_window"@)
    &&& has_size(metadata, "gemma4.expert_count"@)
    &&& has_size(metadata, "gemma4.expert_used_count"@)
    &&& has_size(metadata, "gemma4.expert_feed_forward_length"@)
    &&& has_size(metadata, "gemma4.context_length"@)
    &&& has_float(metadata, "gemma4.rope.freq_base"@)
    &&& has_float(metadata, "gemma4.rope.freq_base_swa"@)
    &&& has_float(metadata, "gemma4.final_logit_softcapping"@)
    &&& has_float(metadata, "gemma4.attention.layer_norm_rms_epsilon"@)
    &&& has_id(metadata, "tokenizer.ggml.bos_token_id"@)
    &&& has_id(metadata, "tokenizer.ggml.eos_token_id"@)
    &&& has_vocabulary(metadata)
    &&& has_pattern(metadata)
    &&& has_even_heads(metadata)
    &&& has_values(metadata, shapes)
}

proof fn lemma_classes()
    ensures
        "sliding_attention"@ != "full_attention"@,
{
    reveal_strlit("sliding_attention");
    reveal_strlit("full_attention");
    assert("sliding_attention"@.len() != "full_attention"@.len());
}

proof fn lemma_pattern(metadata: Map<Seq<char>, GgufValue>)
    requires
        has_size(metadata, "gemma4.block_count"@),
    ensures
        layer_kinds(metadata, gemma4_layers(metadata)) is Ok <==> has_pattern(metadata),
        has_pattern(metadata) ==> gemma4_kinds(metadata).len() == gemma4_layers(metadata),
        has_pattern(metadata) ==> forall|i: int|
            0 <= i < gemma4_kinds(metadata).len() ==> (#[trigger] gemma4_kinds(metadata)[i]
                == "sliding_attention"@ <==> slides(metadata, i)),
{
    lemma_classes();
    let key = "gemma4.attention.sliding_window_pattern"@;
    if has_pattern(metadata) {
        assert forall|i: int| 0 <= i < gemma4_kinds(metadata).len() implies (
        #[trigger] gemma4_kinds(metadata)[i] == "sliding_attention"@ <==> slides(metadata, i)) by {
            assert(array_of(metadata, key)[i] == metadata[key].items()->0[i]);
        }
    }
    if layer_kinds(metadata, gemma4_layers(metadata)) is Ok {
        assert forall|i: int| 0 <= i < array_of(metadata, key).len() implies (
        #[trigger] array_of(metadata, key)[i]) is Bool by {
            assert(metadata[key].items()->0[i] is Bool);
        }
    }
}

proof fn lemma_values(shapes: Map<Seq<char>, Vec<usize>>, kinds: Seq<Seq<char>>, n: nat)
    requires
        n <= kinds.len(),
    ensures
        keys_are_values(shapes, kinds, n) is Ok <==> forall|l: nat|
            l < n && kinds[l as int] == "sliding_attention"@ ==> shapes.contains_key(
                #[trigger] block_tensor(l, ".attn_v.weight"@),
            ),
    decreases n,
{
    if n > 0 {
        let i = (n - 1) as nat;
        lemma_values(shapes, kinds, i);
        if forall|l: nat|
            l < i && kinds[l as int] == "sliding_attention"@ ==> shapes.contains_key(
                #[trigger] block_tensor(l, ".attn_v.weight"@),
            ) {
            if keys_are_values(shapes, kinds, n) is Ok {
                assert forall|l: nat|
                    l < n && kinds[l as int] == "sliding_attention"@ implies shapes.contains_key(
                    #[trigger] block_tensor(l, ".attn_v.weight"@),
                ) by {
                    if l == i {
                    }
                }
            } else {
                assert(!shapes.contains_key(block_tensor(i, ".attn_v.weight"@)));
            }
        } else {
            let l = choose|l: nat|
                l < i && kinds[l as int] == "sliding_attention"@ && !shapes.contains_key(
                    #[trigger] block_tensor(l, ".attn_v.weight"@),
                );
            assert(!shapes.contains_key(block_tensor(l, ".attn_v.weight"@)));
        }
    }
}

/// Whether the counts of the first layers fit, and those of one class agree.
pub open spec fn are_even(counts: Seq<u64>, kinds: Seq<Seq<char>>, n: nat) -> bool {
    &&& forall|i: int| 0 <= i < n ==> #[trigger] counts[i] <= usize::MAX
    &&& forall|i: int, j: int|
        0 <= i < n && 0 <= j < n && (kinds[i] == "sliding_attention"@) == (kinds[j]
            == "sliding_attention"@) ==> #[trigger] counts[i] == #[trigger] counts[j]
}

proof fn lemma_classes_are_seen(counts: Seq<u64>, kinds: Seq<Seq<char>>, n: nat)
    requires
        n <= counts.len(),
        n <= kinds.len(),
        kv_heads_of(counts, kinds, n) is Ok,
    ensures
        kv_heads_of(counts, kinds, n)->Ok_0.sliding is Some ==> exists|j: int|
            0 <= j < n && #[trigger] kinds[j] == "sliding_attention"@,
        kv_heads_of(counts, kinds, n)->Ok_0.full is Some ==> exists|j: int|
            0 <= j < n && #[trigger] kinds[j] != "sliding_attention"@,
    decreases n,
{
    if n > 0 {
        let i = (n - 1) as nat;
        lemma_classes_are_seen(counts, kinds, i);
        let before = kv_heads_of(counts, kinds, i)->Ok_0;
        let after = kv_heads_of(counts, kinds, n)->Ok_0;
        if after.sliding is Some {
            if before.sliding is Some {
                let j = choose|j: int| 0 <= j < i && #[trigger] kinds[j] == "sliding_attention"@;
                assert(0 <= j < n && kinds[j] == "sliding_attention"@);
            } else {
                assert(kinds[i as int] == "sliding_attention"@);
            }
        }
        if after.full is Some {
            if before.full is Some {
                let j = choose|j: int| 0 <= j < i && #[trigger] kinds[j] != "sliding_attention"@;
                assert(0 <= j < n && kinds[j] != "sliding_attention"@);
            } else {
                assert(kinds[i as int] != "sliding_attention"@);
            }
        }
    }
}

/// The key-value heads are given exactly where the layers of a class agree.
pub proof fn law_kv_heads_are_given(counts: Seq<u64>, kinds: Seq<Seq<char>>, n: nat)
    requires
        n <= counts.len(),
        n <= kinds.len(),
    ensures
        kv_heads_of(counts, kinds, n) is Ok <==> are_even(counts, kinds, n),
    decreases n,
{
    if n > 0 {
        let last = (n - 1) as nat;
        law_kv_heads_are_given(counts, kinds, last);
        if kv_heads_of(counts, kinds, n) is Ok {
            law_kv_heads_are_uniform(counts, kinds, n);
            assert forall|i: int| 0 <= i < n implies #[trigger] counts[i] <= usize::MAX by {
                if i == last {
                }
            }
            assert forall|i: int, j: int|
                0 <= i < n && 0 <= j < n && (kinds[i] == "sliding_attention"@) == (kinds[j]
                    == "sliding_attention"@) implies #[trigger] counts[i] == #[trigger] counts[j] by {
                assert(counts[i] as usize == counts[j] as usize);
            }
        }
        if are_even(counts, kinds, n) {
            assert(are_even(counts, kinds, last));
            lemma_classes_are_seen(counts, kinds, last);
            law_kv_heads_are_uniform(counts, kinds, last);
            let sliding = kinds[last as int] == "sliding_attention"@;
            let heads = kv_heads_of(counts, kinds, last)->Ok_0;
            let seen = if sliding {
                heads.sliding
            } else {
                heads.full
            };
            if seen is Some {
                let j = choose|j: int|
                    0 <= j < last && (#[trigger] kinds[j] == "sliding_attention"@) == sliding;
                assert(0 <= j < last && (kinds[j] == "sliding_attention"@) == sliding);
                assert(counts[j] == counts[last as int]);
                assert(seen == Some(counts[j] as usize));
            }
        }
    }
}

proof fn lemma_heads(metadata: Map<Seq<char>, GgufValue>)
    requires
        has_size(metadata, "gemma4.block_count"@),
        has_pattern(metadata),
    ensures
        kv_heads(metadata, gemma4_kinds(metadata)) is Ok <==> has_even_heads(metadata),
{
    lemma_pattern(metadata);
    let key = "gemma4.attention.head_count_kv"@;
    let kinds = gemma4_kinds(metadata);
    if metadata.contains_key(key) {
        let items = array_of(metadata, key);
        let list = integer_items(metadata[key], key);
        if list is Ok && items.len() == kinds.len() {
            let counts = list->Ok_0;
            assert forall|i: int| 0 <= i < items.len() implies #[trigger] counts[i]
                == items[i].integer()->0 && items[i].integer() is Some by {
                assert(items[i].natural() is Some);
            }
            law_kv_heads_are_given(counts, kinds, kinds.len());
            if are_even(counts, kinds, kinds.len()) {
                assert forall|i: int| 0 <= i < items.len() implies ((#[trigger] array_of(
                    metadata,
                    key,
                )[i]).integer() matches Some(n) && 0 <= n <= usize::MAX) by {
                    assert(counts[i] <= usize::MAX);
                }
                assert forall|i: int, j: int|
                    0 <= i < items.len() && 0 <= j < items.len() && slides(metadata, i) == slides(
                        metadata,
                        j,
                    ) implies (#[trigger] array_of(metadata, key)[i]).integer() == (
                #[trigger] array_of(metadata, key)[j]).integer() by {
                    assert(kinds[i] == "sliding_attention"@ <==> slides(metadata, i));
                    assert(kinds[j] == "sliding_attention"@ <==> slides(metadata, j));
                    assert(counts[i] == counts[j]);
                }
            }
            if has_even_heads(metadata) {
                assert forall|i: int| 0 <= i < kinds.len() implies #[trigger] counts[i]
                    <= usize::MAX by {
                    assert(array_of(metadata, key)[i].integer() is Some);
                }
                assert forall|i: int, j: int|
                    0 <= i < kinds.len() && 0 <= j < kinds.len() && (kinds[i]
                        == "sliding_attention"@) == (kinds[j]
                        == "sliding_attention"@) implies #[trigger] counts[i]
                    == #[trigger] counts[j] by {
                    assert(array_of(metadata, key)[i].integer() == array_of(
                        metadata,
                        key,
                    )[j].integer());
                }
            }
        } else if has_even_heads(metadata) {
            assert forall|i: int| 0 <= i < items.len() implies (
            #[trigger] items[i]).natural() is Some by {
                assert(array_of(metadata, key)[i].integer() is Some);
            }
        }
    }
}

/// The text model of Gemma 4 is given exactly where the files tell all that it needs.
pub proof fn law_gemma4_text_is_given(
    metadata: Map<Seq<char>, GgufValue>,
    shapes: Map<Seq<char>, Vec<usize>>,
)
    ensures
        gemma4_text_refusal(metadata, shapes).message is None <==> tells_gemma4_text(
            metadata,
            shapes,
        ),
{
    if has_size(metadata, "gemma4.block_count"@) {
        lemma_pattern(metadata);
        if has_pattern(metadata) {
            lemma_heads(metadata);
            let kinds = gemma4_kinds(metadata);
            lemma_values(shapes, kinds, kinds.len());
            assert(keys_are_values(shapes, kinds, kinds.len()) is Ok <==> has_values(
                metadata,
                shapes,
            )) by {
                assert forall|l: nat| l < kinds.len() implies (kinds[l as int]
                    == "sliding_attention"@ <==> slides(metadata, l as int)) by {}
            }
        }
    }
    law_values_are_given(metadata, "gemma4.rope.freq_base"@, ""@);
}

proof fn lemma_even_biases(shapes: Map<Seq<char>, Vec<usize>>, layers: usize)
    ensures
        attention_bias(shapes, layers) is Ok <==> has_even_biases(shapes, layers as nat),
{
    law_attention_bias(shapes, layers as nat);
    let n = layers as nat;
    if biases(shapes, n) == n * 4 {
        assert forall|l: nat, tensor: Seq<char>|
            l < n && is_bias(tensor) implies shapes.contains_key(
            #[trigger] block_tensor(l, tensor),
        ) by {
            assert(layer_biases(shapes, l) == 4);
        }
    }
    if biases(shapes, n) == 0 {
        assert forall|l: nat, tensor: Seq<char>|
            l < n && is_bias(tensor) implies !shapes.contains_key(
            #[trigger] block_tensor(l, tensor),
        ) by {
            assert(layer_biases(shapes, l) == 0);
        }
    }
    if has_even_biases(shapes, n) {
        if forall|l: nat, tensor: Seq<char>|
            l < n && is_bias(tensor) ==> shapes.contains_key(#[trigger] block_tensor(l, tensor)) {
            assert forall|l: nat| l < n implies #[trigger] layer_biases(shapes, l) == 4 by {
                assert(is_bias(".attn_q.bias"@) && is_bias(".attn_k.bias"@));
                assert(is_bias(".attn_v.bias"@) && is_bias(".attn_output.bias"@));
            }
        } else {
            assert forall|l: nat| l < n implies #[trigger] layer_biases(shapes, l) == 0 by {
                assert(is_bias(".attn_q.bias"@) && is_bias(".attn_k.bias"@));
                assert(is_bias(".attn_v.bias"@) && is_bias(".attn_output.bias"@));
            }
        }
    }
}

/// Whether the files tell all that the vision tower needs, beside what its weights say.
pub open spec fn tells_vision(metadata: Map<Seq<char>, GgufValue>) -> bool {
    &&& has_size(metadata, "clip.vision.attention.head_count"@)
    &&& has_size(metadata, "clip.vision.embedding_length"@)
    &&& has_size(metadata, "clip.vision.feed_forward_length"@)
    &&& has_size(metadata, "clip.vision.block_count"@)
    &&& has_size(metadata, "clip.vision.patch_size"@)
}

/// Whether a weight that takes `hidden` features in has two dimensions, of which one is
/// `hidden`.
pub open spec fn takes(shape: Seq<usize>, hidden: int) -> bool {
    shape.len() == 2 && (shape[0] == hidden || shape[1] == hidden)
}

/// The other dimension of such a weight.
pub open spec fn gives(shape: Seq<usize>, hidden: int) -> int {
    if shape[0] == hidden {
        shape[1] as int
    } else {
        shape[0] as int
    }
}

/// Whether the weights of the first vision layer tile into heads.
pub open spec fn has_vision_heads(
    metadata: Map<Seq<char>, GgufValue>,
    shapes: Map<Seq<char>, Vec<usize>>,
) -> bool {
    let heads = metadata["clip.vision.attention.head_count"@].integer()->0;
    let hidden = metadata["clip.vision.embedding_length"@].integer()->0;
    forall|layer: usize| #[trigger]
        is_first_vision_layer(shapes, layer) && shapes.contains_key(
            vision_tensor(layer as nat, ".attn_q.weight"@),
        ) && shapes.contains_key(vision_tensor(layer as nat, ".attn_k.weight"@)) ==> {
            let q = shapes[vision_tensor(layer as nat, ".attn_q.weight"@)]@;
            let k = shapes[vision_tensor(layer as nat, ".attn_k.weight"@)]@;
            &&& takes(q, hidden) && takes(k, hidden)
            &&& heads > 0 && gives(q, hidden) % heads == 0
            &&& gives(q, hidden) / heads > 0
            &&& gives(k, hidden) % (gives(q, hidden) / heads) == 0
        }
}

/// The heads of the first vision layer are counted by its weights: the query weight gives
/// a head for each of the model's, and the key weight as many as it has.
pub proof fn law_vision_heads_are_given(
    metadata: Map<Seq<char>, GgufValue>,
    shapes: Map<Seq<char>, Vec<usize>>,
    layer: usize,
)
    requires
        tells_vision(metadata),
        is_first_vision_layer(shapes, layer),
    ensures
        ({
            let heads = metadata["clip.vision.attention.head_count"@].integer()->0;
            let hidden = metadata["clip.vision.embedding_length"@].integer()->0;
            let q_name = vision_tensor(layer as nat, ".attn_q.weight"@);
            let k_name = vision_tensor(layer as nat, ".attn_k.weight"@);
            let given = vision_heads(shapes, heads as usize, hidden as usize);
            &&& given is Ok <==> has_vision_heads(metadata, shapes)
            &&& given is Ok ==> (given->Ok_0 is Some <==> shapes.contains_key(q_name)
                && shapes.contains_key(k_name))
            &&& given matches Ok(Some((head_dim, kv_heads))) ==> {
                &&& head_dim * heads == gives(shapes[q_name]@, hidden)
                &&& head_dim * kv_heads == gives(shapes[k_name]@, hidden)
            }
        }),
{
    let heads = metadata["clip.vision.attention.head_count"@].integer()->0;
    let hidden = metadata["clip.vision.embedding_length"@].integer()->0;
    let q_name = vision_tensor(layer as nat, ".attn_q.weight"@);
    let k_name = vision_tensor(layer as nat, ".attn_k.weight"@);
    assert forall|other: usize| #[trigger] is_first_vision_layer(shapes, other) implies other
        == layer by {
        assert(layer <= other && other <= layer);
    }
    let given = vision_heads(shapes, heads as usize, hidden as usize);
    if given matches Ok(Some(_)) {
        crate::gguf::shapes::law_vision_heads_tile_queries(
            shapes,
            heads as usize,
            hidden as usize,
        );
    }
}

proof fn lemma_vision_heads(
    metadata: Map<Seq<char>, GgufValue>,
    shapes: Map<Seq<char>, Vec<usize>>,
)
    requires
        tells_vision(metadata),
    ensures
        ({
            let heads = metadata["clip.vision.attention.head_count"@].integer()->0;
            let hidden = metadata["clip.vision.embedding_length"@].integer()->0;
            vision_heads(shapes, heads as usize, hidden as usize) is Ok <==> has_vision_heads(
                metadata,
                shapes,
            )
        }),
{
    if exists|layer: usize| is_first_vision_layer(shapes, layer) {
        let layer = choose|layer: usize| is_first_vision_layer(shapes, layer);
        law_vision_heads_are_given(metadata, shapes, layer);
    }
}

/// The configuration of Gemma 4 is given exactly where the files tell all that it needs.
#[verifier::rlimit(50)]
pub proof fn law_gemma4_is_given(
    metadata: Map<Seq<char>, GgufValue>,
    shapes: Map<Seq<char>, Vec<usize>>,
)
    ensures
        gemma4_refusal(metadata, shapes).message is None <==> {
            &&& tells_gemma4_text(metadata, shapes)
            &&& has_even_biases(shapes, gemma4_layers(metadata) as nat)
            &&& tells_vision(metadata)
            &&& has_vision_heads(metadata, shapes)
            &&& shapes.contains_key("v.position_embd.weight"@)
                ==> shapes["v.position_embd.weight"@]@.len() == 3
            &&& has_token(metadata, "<|image|>"@) && has_token(metadata, "<|audio|>"@)
            &&& has_token(metadata, "<|video|>"@) && has_token(metadata, "<|image>"@)
            &&& has_token(metadata, "<image|>"@) && has_token(metadata, "<|audio>"@)
            &&& has_token(metadata, "<audio|>"@)
        },
{
    law_gemma4_text_is_given(metadata, shapes);
    lemma_even_biases(shapes, gemma4_layers(metadata));
    let sizes = gemma4_vision_refusal(metadata, shapes);
    if tells_vision(metadata) {
        lemma_vision_heads(metadata, shapes);
    }
    law_values_are_given(metadata, "clip.vision.patch_size"@, "<|image|>"@);
    law_values_are_given(metadata, "clip.vision.patch_size"@, "<|audio|>"@);
    law_values_are_given(metadata, "clip.vision.patch_size"@, "<|video|>"@);
    law_values_are_given(metadata, "clip.vision.patch_size"@, "<|image>"@);
    law_values_are_given(metadata, "clip.vision.patch_size"@, "<image|>"@);
    law_values_are_given(metadata, "clip.vision.patch_size"@, "<|audio>"@);
    law_values_are_given(metadata, "clip.vision.patch_size"@, "<audio|>"@);
}

/// The vision tower of Qwen3.5 is given exactly where the file tells its sizes, patches
/// tile the image, and the marks of its deep stack are booleans.
pub proof fn law_qwen35_vision_is_given(metadata: Map<Seq<char>, GgufValue>)
    ensures
        qwen35_vision_refusal(metadata).message is None <==> {
            let marks = "clip.vision.is_deepstack_layers"@;
            &&& tells_vision(metadata)
            &&& has_size(metadata, "clip.vision.image_size"@)
            &&& has_size(metadata, "clip.vision.projection_dim"@)
            &&& metadata["clip.vision.patch_size"@].integer()->0 > 0
            &&& metadata["clip.vision.image_size"@].integer()->0
                % metadata["clip.vision.patch_size"@].integer()->0 == 0
            &&& may_have_size(metadata, "clip.vision.spatial_merge_size"@)
            &&& metadata.contains_key(marks) ==> has_array(metadata, marks) && forall|i: int|
                0 <= i < array_of(metadata, marks).len() ==> (#[trigger] array_of(
                    metadata,
                    marks,
                )[i]) is Bool
        },
{
    law_values_are_given(metadata, "clip.vision.patch_size"@, ""@);
}

/// The configuration of Qwen3.5 is given exactly where its two parts are and the
/// vocabulary has its tokens.
pub proof fn law_qwen35_is_given(
    metadata: Map<Seq<char>, GgufValue>,
    text_config: Result<Json, Seq<char>>,
)
    ensures
        qwen35_refusal(metadata, text_config).message is None <==> {
            &&& text_config matches Ok(text) && text is Object
            &&& may_have_size(metadata, "qwen35.nextn_predict_layers"@)
            &&& qwen35_vision_refusal(metadata).message is None
            &&& has_token(metadata, "<|image_pad|>"@) && has_token(metadata, "<|video_pad|>"@)
            &&& has_token(metadata, "<|vision_start|>"@) && has_token(metadata, "<|vision_end|>"@)
        },
{
    assert(IMAGE_TOKEN@ == "<|image_pad|>"@ && VIDEO_TOKEN@ == "<|video_pad|>"@);
    assert(VISION_START_TOKEN@ == "<|vision_start|>"@ && VISION_END_TOKEN@ == "<|vision_end|>"@);
    law_values_are_given(metadata, ""@, "<|image_pad|>"@);
    law_values_are_given(metadata, ""@, "<|video_pad|>"@);
    law_values_are_given(metadata, ""@, "<|vision_start|>"@);
    law_values_are_given(metadata, ""@, "<|vision_end|>"@);
}

/// The text model of MuseGlimmer is given exactly where the file tells its sizes and its
/// floats, and keys and values have heads of one size.
pub proof fn law_glimmer_text_is_given(metadata: Map<Seq<char>, GgufValue>)
    ensures
        glimmer_text_refusal(metadata).message is None <==> {
            &&& has_size(metadata, "muse-glimmer.block_count"@)
            &&& has_size(metadata, "muse-glimmer.attention.key_length"@)
            &&& has_size(metadata, "muse-glimmer.attention.value_length"@)
            &&& metadata["muse-glimmer.attention.key_length"@].integer()
                == metadata["muse-glimmer.attention.value_length"@].integer()
            &&& has_size(metadata, "clip.vision.embedding_length"@)
            &&& may_have_size(metadata, "clip.vision.spatial_merge_size"@)
            &&& has_id(metadata, "tokenizer.ggml.bos_token_id"@)
            &&& has_id(metadata, "tokenizer.ggml.eos_token_id"@)
            &&& has_vocabulary(metadata)
            &&& has_size(metadata, "muse-glimmer.embedding_length"@)
            &&& has_size(metadata, "muse-glimmer.feed_forward_length"@)
            &&& has_size(metadata, "muse-glimmer.attention.head_count"@)
            &&& has_size(metadata, "muse-glimmer.attention.head_count_kv"@)
            &&& has_size(metadata, "muse-glimmer.context_length"@)
            &&& has_size(metadata, "muse-glimmer.attention.sliding_window"@)
            &&& has_float(metadata, "muse-glimmer.attention.layer_norm_rms_epsilon"@)
            &&& has_float(metadata, "muse-glimmer.rope.freq_base"@)
            &&& has_float(metadata, "muse-glimmer.logit_scale"@)
            &&& has_float(metadata, "muse-glimmer.final_logit_softcapping"@)
        },
{
    law_values_are_given(metadata, ""@, ""@);
}

/// The configuration of MuseGlimmer is given exactly where its text model is, the files
/// tell all that its vision tower needs, and a side of the projector holds a merged
/// square of patches.
pub proof fn law_glimmer_is_given(
    metadata: Map<Seq<char>, GgufValue>,
    shapes: Map<Seq<char>, Vec<usize>>,
)
    ensures
        glimmer_refusal(metadata, shapes).message is None <==> {
            let merge = merge_size(metadata)->Ok_0;
            let hidden = metadata["clip.vision.embedding_length"@].integer()->0;
            &&& glimmer_text_refusal(metadata).message is None
            &&& has_even_biases(shapes, glimmer_layers(metadata) as nat)
            &&& tells_vision(metadata)
            &&& has_token(metadata, "<|patch|>"@) && has_token(metadata, "<|video|>"@)
            &&& shapes.contains_key("mm.0.weight"@) ==> takes(
                shapes["mm.0.weight"@]@,
                hidden * merge * merge,
            )
        },
{
    law_glimmer_text_is_given(metadata);
    lemma_even_biases(shapes, glimmer_layers(metadata));
    law_values_are_given(metadata, ""@, "<|patch|>"@);
    law_values_are_given(metadata, ""@, "<|video|>"@);
}

/// A preprocessor is given exactly where the file tells its patches and its colours.
pub proof fn law_preprocessors_are_given(metadata: Map<Seq<char>, GgufValue>)
    ensures
        patch_refusal(metadata).message is None <==> {
            &&& may_have_size(metadata, "clip.vision.spatial_merge_size"@)
            &&& has_size(metadata, "clip.vision.patch_size"@)
            &&& has_colours(metadata, "clip.vision.image_mean"@)
            &&& has_colours(metadata, "clip.vision.image_std"@)
        },
{
    law_values_are_given(metadata, "clip.vision.image_mean"@, ""@);
    law_values_are_given(metadata, "clip.vision.image_std"@, ""@);
}

/// The pixel budget spans from a square of 256 pixels a side to one of 4096.
pub proof fn law_pixel_budget()
    ensures
        shows(
            pixel_budget(),
            "shortest_edge"@,
            Json::Number(JsonNumber::Integer(256int * 256)),
        ),
        shows(
            pixel_budget(),
            "longest_edge"@,
            Json::Number(JsonNumber::Integer(4096int * 4096)),
        ),
{
    reveal_strlit("shortest_edge");
    reveal_strlit("longest_edge");
    assert("shortest_edge"@.len() != "longest_edge"@.len());
}

/// Each supported architecture goes with its own projector, and no other does.
pub proof fn law_standalone_pairs(architecture: Seq<char>, projector: Option<Seq<char>>)
    ensures
        architecture == "qwen35"@ ==> (standalone_pair(architecture, projector) <==> projector
            == Some("qwen3vl_merger"@)),
        architecture == "gemma4"@ ==> (standalone_pair(architecture, projector) <==> projector
            == Some("gemma4v"@)),
        architecture == "muse-glimmer"@ ==> (standalone_pair(architecture, projector)
            <==> projector == Some("muse-glimmer"@)),
        standalone_pair(architecture, projector) ==> architecture == "qwen35"@ || architecture
            == "gemma4"@ || architecture == "muse-glimmer"@,
{
    reveal_strlit("qwen35");
    reveal_strlit("gemma4");
    reveal_strlit("muse-glimmer");
    assert("qwen35"@[0] != "gemma4"@[0]);
    assert("qwen35"@[0] != "muse-glimmer"@[0]);
    assert("gemma4"@[0] != "muse-glimmer"@[0]);
}

/// Whether a file has a text under a key.
pub open spec fn has_text(
    metadata: Map<Seq<char>, GgufValue>,
    key: Seq<char>,
    text: Seq<char>,
) -> bool {
    metadata.contains_key(key) && (metadata[key] matches GgufValue::String(s) && s@ == text)
}

/// A file names its projector under the general key, or else under that of the vision
/// tower.
pub proof fn law_projector_type(metadata: Map<Seq<char>, GgufValue>, text: Seq<char>)
    ensures
        has_text(metadata, "clip.projector_type"@, text) ==> projector_type(metadata) == Some(text),
        !(metadata.contains_key("clip.projector_type"@) && metadata["clip.projector_type"@] is String)
            && has_text(metadata, "clip.vision.projector_type"@, text) ==> projector_type(metadata)
            == Some(text),
        projector_type(metadata) == Some(text) ==> has_text(
            metadata,
            "clip.projector_type"@,
            text,
        ) || has_text(metadata, "clip.vision.projector_type"@, text),
{
}

/// The projector of several files is that of the first that names one.
pub proof fn law_first_projector(files: Seq<Map<Seq<char>, GgufValue>>, start: int, i: int)
    requires
        0 <= start <= i < files.len(),
        projector_type(files[i]) is Some,
        forall|k: int| start <= k < i ==> projector_type(#[trigger] files[k]) is None,
    ensures
        first_projector(files, start) == projector_type(files[i]),
    decreases i - start,
{
    if start < i {
        assert(projector_type(files[start]) is None);
        law_first_projector(files, start + 1, i);
    }
}

/// Where no file names a projector, there is none.
pub proof fn law_no_projector(files: Seq<Map<Seq<char>, GgufValue>>, start: int)
    requires
        0 <= start <= files.len(),
        forall|k: int| start <= k < files.len() ==> projector_type(#[trigger] files[k]) is None,
    ensures
        first_projector(files, start) is None,
    decreases files.len() - start,
{
    if start < files.len() {
        law_no_projector(files, start + 1);
    }
}

/// Each loader gives the configuration of its own model, and the others none.
#[verifier::rlimit(50)]
pub proof fn law_loaders_give_their_models(
    loader: MultimodalLoaderType,
    architecture: Seq<char>,
    metadata: Map<Seq<char>, GgufValue>,
    shapes: Map<Seq<char>, Vec<usize>>,
    text_config: Result<Json, Seq<char>>,
)
    ensures
        ({
            let given = multimodal_config(loader, architecture, metadata, shapes, text_config);
            &&& given matches Ok(config) ==> shows(
                config,
                "architectures"@,
                Json::Array(
                    seq![
                        Json::Text(
                            match loader {
                                MultimodalLoaderType::Qwen3_5 => "Qwen3_5ForConditionalGeneration"@,
                                MultimodalLoaderType::Gemma4 => "Gemma4ForConditionalGeneration"@,
                                _ => "MuseGlimmerForConditionalGeneration"@,
                            },
                        ),
                    ],
                ),
            )
            &&& loader == MultimodalLoaderType::Other ==> given is Err
            &&& loader == MultimodalLoaderType::Qwen3_5 && given is Ok ==> shows(
                given->Ok_0,
                "tie_word_embeddings"@,
                Json::Bool(!shapes.contains_key("output.weight"@)),
            )
            &&& loader == MultimodalLoaderType::Qwen3_5 ==> (given is Ok <==> qwen35_refusal(
                metadata,
                text_config,
            ).message is None)
            &&& loader == MultimodalLoaderType::Gemma4 ==> (given is Ok <==> gemma4_refusal(
                metadata,
                shapes,
            ).message is None)
            &&& loader == MultimodalLoaderType::MuseGlimmer ==> (given is Ok <==> glimmer_refusal(
                metadata,
                shapes,
            ).message is None)
        }),
{
    let given = multimodal_config(loader, architecture, metadata, shapes, text_config);
    if given is Ok {
        match loader {
            MultimodalLoaderType::Qwen3_5 => {
                crate::gguf::laws::law_qwen35_shows_tokens(
                    metadata,
                    text_config,
                    shapes.contains_key("output.weight"@),
                );
            },
            MultimodalLoaderType::Gemma4 => {
                crate::gguf::laws::law_gemma4_shows_tokens(metadata, shapes);
            },
            MultimodalLoaderType::MuseGlimmer => {
                crate::gguf::laws::law_glimmer_shows_tokens(metadata, shapes);
            },
            MultimodalLoaderType::Other => {},
        }
    }
}

/// A file pair is in range as far as its configuration is not refused before a count that
/// it asks for: four biases for each layer, a position for each patch, and the features of
/// a merged square of patches fit a `usize`, and the vision heads of Gemma 4 are not all
/// empty.
pub proof fn law_counts_are_in_range(
    loader: MultimodalLoaderType,
    metadata: Map<Seq<char>, GgufValue>,
    shapes: Map<Seq<char>, Vec<usize>>,
    text_config: Result<Json, Seq<char>>,
)
    requires
        multimodal_in_range(loader, metadata, shapes, text_config),
    ensures
        loader == MultimodalLoaderType::Gemma4 && gemma4_refusal(metadata, shapes).message is None
            ==> gemma4_layers(metadata) * 4 <= usize::MAX,
        loader == MultimodalLoaderType::MuseGlimmer && glimmer_refusal(
            metadata,
            shapes,
        ).message is None ==> {
            &&& glimmer_layers(metadata) * 4 <= usize::MAX
            &&& shapes.contains_key("mm.0.weight"@) ==> metadata["clip.vision.embedding_length"@].integer()->0
                * merge_size(metadata)->Ok_0 * merge_size(metadata)->Ok_0 <= usize::MAX
        },
        loader == MultimodalLoaderType::Qwen3_5 && qwen35_refusal(
            metadata,
            text_config,
        ).message is None ==> {
            let side = metadata["clip.vision.image_size"@].integer()->0
                / metadata["clip.vision.patch_size"@].integer()->0;
            side * side <= usize::MAX
        },
{
    law_glimmer_is_given(metadata, shapes);
    law_qwen35_is_given(metadata, text_config);
}

/// Nothing but such a count is asked for: a file pair whose sizes are small is in range,
/// unless the vision heads of Gemma 4 are all empty.
pub proof fn law_small_counts_are_in_range(
    loader: MultimodalLoaderType,
    metadata: Map<Seq<char>, GgufValue>,
    shapes: Map<Seq<char>, Vec<usize>>,
    text_config: Result<Json, Seq<char>>,
)
    requires
        gemma4_layers(metadata) * 4 <= usize::MAX,
        glimmer_layers(metadata) * 4 <= usize::MAX,
        metadata["clip.vision.embedding_length"@].integer()->0 * merge_size(metadata)->Ok_0
            * merge_size(metadata)->Ok_0 <= usize::MAX,
        ({
            let side = metadata["clip.vision.image_size"@].integer()->0
                / metadata["clip.vision.patch_size"@].integer()->0;
            side * side <= usize::MAX
        }),
        loader != MultimodalLoaderType::Gemma4 || has_vision_heads(metadata, shapes),
    ensures
        multimodal_in_range(loader, metadata, shapes, text_config),
{
    if loader == MultimodalLoaderType::Gemma4 && gemma4_vision_refusal(
        metadata,
        shapes,
    ).message is None {
        lemma_vision_heads(metadata, shapes);
    }
}

/// Tensors of the text model are named by their layer after `blk.`, and those of the vision
/// tower after `v.blk.`.
pub proof fn law_tensors_are_named(layer: nat, tensor: Seq<char>)
    ensures
        block_tensor(layer, tensor) == seq!['b', 'l', 'k', '.'] + dec(layer) + tensor,
        vision_tensor(layer, tensor) == seq!['v', '.', 'b', 'l', 'k', '.'] + dec(layer) + tensor,
{
    reveal_strlit("blk.");
    reveal_strlit("v.blk.");
    assert("blk."@ =~= seq!['b', 'l', 'k', '.']);
    assert("v.blk."@ =~= seq!['v', '.', 'b', 'l', 'k', '.']);
}

/// A query weight of the vision tower is known by its name.
pub proof fn law_query_weights_are_known(layer: usize)
    ensures
        vision_layer(vision_tensor(layer as nat, ".attn_q.weight"@)) == Some(layer),
{
    let name = vision_tensor(layer as nat, ".attn_q.weight"@);
    reveal_strlit("v.blk.");
    reveal_strlit(".attn_q.weight");
    let digits = dec(layer as nat);
    law_decimal_reads_back(layer);
    assert(digits.len() > 0) by {
        reveal_with_fuel(dec, 2);
    }
    let n = name.len() as int;
    assert(n == 6 + digits.len() + 14);
    assert(name.subrange(0, 6) =~= "v.blk."@);
    assert(name.subrange(n - 14, n) =~= ".attn_q.weight"@);
    assert(name.subrange(6, n - 14) =~= digits);
}

proof fn lemma_some_layer_is_first(shapes: Map<Seq<char>, Vec<usize>>, layer: usize)
    requires
        has_vision_layer(shapes, layer),
    ensures
        exists|first: usize| #[trigger] is_first_vision_layer(shapes, first) && first <= layer,
    decreases layer,
{
    if forall|other: usize| #[trigger] has_vision_layer(shapes, other) ==> layer <= other {
        assert(is_first_vision_layer(shapes, layer));
    } else {
        let other = choose|other: usize| #[trigger]
            has_vision_layer(shapes, other) && other < layer;
        lemma_some_layer_is_first(shapes, other);
    }
}

/// The first layer of the vision tower is one that the file has a query weight of, and no
/// layer that it has one of comes before it.
pub proof fn law_first_vision_layer(shapes: Map<Seq<char>, Vec<usize>>, layer: usize)
    requires
        shapes.contains_key(vision_tensor(layer as nat, ".attn_q.weight"@)),
    ensures
        first_vision_layer(shapes) is Some,
        first_vision_layer(shapes)->0 <= layer,
        exists|name: Seq<char>|
            shapes.contains_key(name) && #[trigger] vision_layer(name) == first_vision_layer(shapes),
{
    let name = vision_tensor(layer as nat, ".attn_q.weight"@);
    law_query_weights_are_known(layer);
    assert(shapes.contains_key(name) && vision_layer(name) == Some(layer));
    assert(has_vision_layer(shapes, layer));
    lemma_some_layer_is_first(shapes, layer);
    let first = choose|first: usize| is_first_vision_layer(shapes, first);
    assert(is_first_vision_layer(shapes, first));
    assert(has_vision_layer(shapes, first));
}

/// Where the file has no query weight of a layer, the tower has no first layer.
pub proof fn law_no_first_vision_layer(shapes: Map<Seq<char>, Vec<usize>>)
    requires
        forall|name: Seq<char>| #[trigger]
            shapes.contains_key(name) ==> vision_layer(name) is None,
    ensures
        first_vision_layer(shapes) is None,
{
    if exists|layer: usize| is_first_vision_layer(shapes, layer) {
        let layer = choose|layer: usize| is_first_vision_layer(shapes, layer);
        assert(has_vision_layer(shapes, layer));
        let name = choose|name: Seq<char>|
            shapes.contains_key(name) && #[trigger] vision_layer(name) == Some(layer);
        assert(shapes.contains_key(name));
    }
}

} // verus!
