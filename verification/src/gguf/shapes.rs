//! What a configuration reads from the names and shapes of tensors.
use vstd::prelude::*;
use vstd::string::*;

use crate::gguf::value::{integer_items, int_array_values, GgufValue, Metadata};
use crate::gguf::value::{bool_items, required_bool_array};
use crate::name_map::NameMap;
use crate::text::{
    bracketed, bracketed_text, chars_of, dec, decimal, outcome, parse_usize, read_usize, same_text,
    texts, Fault,
};

verus! {

/// The shapes of a file's tensors, by name.
pub type TensorShapes = NameMap<Vec<usize>>;

// Projections.

/// The output features of a weight whose input features are known; a weight is
/// stored with either dimension first.
pub open spec fn proj_out(shape: Seq<usize>, in_features: usize) -> Option<usize> {
    if shape.len() != 2 {
        None
    } else if shape[0] == in_features {
        Some(shape[1])
    } else if shape[1] == in_features {
        Some(shape[0])
    } else {
        None
    }
}

/// The output features of a projection with `in_features` inputs, whichever
/// dimension comes first.
pub fn proj_out_dim(shape: &[usize], in_features: usize) -> (out: Option<usize>)
    ensures
        out == proj_out(shape@, in_features),
{
    if shape.len() != 2 {
        return None;
    }
    if shape[0] == in_features {
        Some(shape[1])
    } else if shape[1] == in_features {
        Some(shape[0])
    } else {
        None
    }
}

/// A weight and its transpose have the same output features.
pub proof fn law_proj_out_ignores_order(a: usize, b: usize, in_features: usize)
    ensures
        proj_out(seq![a, b], in_features) == proj_out(seq![b, a], in_features),
{
}

pub open spec fn odd_shape(name: Seq<char>, shape: Seq<usize>) -> Seq<char> {
    "GGUF `"@ + name + "` has unexpected shape "@ + bracketed(shape)
}

pub(crate) fn odd_shape_fault(name: &str, shape: &Vec<usize>) -> (fault: Fault)
    ensures
        fault@ == odd_shape(name@, shape@),
{
    Fault::new(
        String::from_str("GGUF `").concat(name).concat("` has unexpected shape ").concat(
            bracketed_text(shape.as_slice()).as_str(),
        ),
    )
}

pub open spec fn projector_hidden(
    shapes: Map<Seq<char>, Vec<usize>>,
    merge: usize,
    vision_hidden: usize,
) -> Result<Option<usize>, Seq<char>> {
    if !shapes.contains_key("mm.0.weight"@) {
        Ok(None)
    } else {
        let shape = shapes["mm.0.weight"@]@;
        let expected = vision_hidden * merge * merge;
        if shape.len() != 2 {
            Err(odd_shape("mm.0.weight"@, shape))
        } else if shape[0] == expected {
            Ok(Some(shape[1]))
        } else if shape[1] == expected {
            Ok(Some(shape[0]))
        } else {
            Err(
                "GGUF `mm.0.weight` shape "@ + bracketed(shape)
                    + " matches neither weight layout for "@ + dec(expected as nat)
                    + " input features"@,
            )
        }
    }
}

/// Whether the projector's input features can be counted in a `usize`, where
/// they are counted.
pub open spec fn projector_fits(
    shapes: Map<Seq<char>, Vec<usize>>,
    merge: usize,
    vision_hidden: usize,
) -> bool {
    shapes.contains_key("mm.0.weight"@) && shapes["mm.0.weight"@]@.len() == 2 ==> vision_hidden
        * merge * merge <= usize::MAX
}

/// The hidden size of the MuseGlimmer projector: the side of its first weight
/// that does not hold one merged square of patches.
pub fn glimmer_projector_hidden(
    tensor_shapes: &TensorShapes,
    merge: usize,
    vision_hidden: usize,
) -> (hidden: Result<Option<usize>, Fault>)
    requires
        projector_fits(tensor_shapes@, merge, vision_hidden),
    ensures
        outcome(hidden) == projector_hidden(tensor_shapes@, merge, vision_hidden),
{
    let shape: &Vec<usize> = match tensor_shapes.get("mm.0.weight") {
        Some(shape) => shape,
        None => return Ok(None),
    };
    if shape.len() != 2 {
        return Err(odd_shape_fault("mm.0.weight", shape));
    }
    assert(vision_hidden * merge <= usize::MAX) by (nonlinear_arith)
        requires
            vision_hidden * merge * merge <= usize::MAX,
            merge <= usize::MAX,
    ;
    let expected: usize = vision_hidden * merge * merge;
    if shape[0] == expected {
        Ok(Some(shape[1]))
    } else if shape[1] == expected {
        Ok(Some(shape[0]))
    } else {
        Err(
            Fault::new(
                String::from_str("GGUF `mm.0.weight` shape ").concat(
                    bracketed_text(shape.as_slice()).as_str(),
                ).concat(" matches neither weight layout for ").concat(
                    decimal(expected as u64).as_str(),
                ).concat(" input features"),
            ),
        )
    }
}

// Attention of the text layers.

/// The name of a tensor of text layer `layer`.
pub open spec fn block_tensor(layer: nat, tensor: Seq<char>) -> Seq<char> {
    "blk."@ + dec(layer) + tensor
}

fn block_tensor_name(layer: usize, tensor: &str) -> (name: String)
    ensures
        name@ == block_tensor(layer as nat, tensor@),
{
    String::from_str("blk.").concat(decimal(layer as u64).as_str()).concat(tensor)
}

/// Two layers never share a tensor name.
pub proof fn law_block_tensors_differ(a: nat, b: nat, tensor: Seq<char>)
    requires
        block_tensor(a, tensor) == block_tensor(b, tensor),
    ensures
        a == b,
{
    let x = block_tensor(a, tensor);
    let y = block_tensor(b, tensor);
    assert(x.len() == "blk."@.len() + dec(a).len() + tensor.len());
    assert(y.len() == "blk."@.len() + dec(b).len() + tensor.len());
    let k = "blk."@.len() as int;
    assert(x.subrange(k, k + dec(a).len()) =~= dec(a));
    assert(y.subrange(k, k + dec(b).len()) =~= dec(b));
    crate::text::law_decimal_is_injective(a, b);
}

/// The kinds of attention of the text layers, by the sliding-window pattern.
pub open spec fn layer_kinds(metadata: Map<Seq<char>, GgufValue>, layers: usize) -> Result<
    Seq<Seq<char>>,
    Seq<char>,
> {
    match bool_items(metadata, "gemma4.attention.sliding_window_pattern"@) {
        Err(message) => Err(message),
        Ok(pattern) => if pattern.len() != layers {
            Err(
                "GGUF `gemma4.attention.sliding_window_pattern` has "@ + dec(pattern.len())
                    + " entries for "@ + dec(layers as nat) + " layers"@,
            )
        } else {
            Ok(
                pattern.map_values(
                    |sliding: bool|
                        if sliding {
                            "sliding_attention"@
                        } else {
                            "full_attention"@
                        },
                ),
            )
        },
    }
}

/// An outcome that lists texts.
pub open spec fn texts_outcome(r: Result<Vec<String>, Fault>) -> Result<Seq<Seq<char>>, Seq<char>> {
    match r {
        Ok(strings) => Ok(texts(strings@)),
        Err(fault) => Err(fault@),
    }
}

/// The kind of attention of each text layer of Gemma 4.
pub fn gemma4_layer_types(metadata: &Metadata, layers: usize) -> (kinds: Result<
    Vec<String>,
    Fault,
>)
    ensures
        texts_outcome(kinds) == layer_kinds(metadata@, layers),
{
    let pattern: Vec<bool> = required_bool_array(
        metadata,
        "gemma4.attention.sliding_window_pattern",
    )?;
    if pattern.len() != layers {
        return Err(
            Fault::new(
                String::from_str("GGUF `gemma4.attention.sliding_window_pattern` has ").concat(
                    decimal(pattern.len() as u64).as_str(),
                ).concat(" entries for ").concat(decimal(layers as u64).as_str()).concat(
                    " layers",
                ),
            ),
        );
    }
    let ghost kinds = layer_kinds(metadata@, layers)->Ok_0;
    let mut names: Vec<String> = Vec::new();
    let mut i: usize = 0;
    while i < pattern.len()
        invariant
            i <= pattern@.len(),
            names@.len() == i,
            kinds == pattern@.map_values(
                |sliding: bool|
                    if sliding {
                        "sliding_attention"@
                    } else {
                        "full_attention"@
                    },
            ),
            forall|k: int| 0 <= k < i ==> (#[trigger] names@[k])@ == kinds[k],
        decreases pattern@.len() - i,
    {
        if pattern[i] {
            names.push(String::from_str("sliding_attention"));
        } else {
            names.push(String::from_str("full_attention"));
        }
        i = i + 1;
    }
    assert(texts(names@) =~= kinds);
    Ok(names)
}

/// Whether any of the first `n` layers that do not slide lacks a value
/// projection, with the first sliding layer that lacks one refused.
pub open spec fn keys_are_values(
    shapes: Map<Seq<char>, Vec<usize>>,
    kinds: Seq<Seq<char>>,
    n: nat,
) -> Result<bool, Seq<char>>
    decreases n,
{
    if n == 0 {
        Ok(false)
    } else {
        let i = (n - 1) as nat;
        match keys_are_values(shapes, kinds, i) {
            Err(message) => Err(message),
            Ok(so_far) => if shapes.contains_key(block_tensor(i, ".attn_v.weight"@)) {
                Ok(so_far)
            } else if kinds[i as int] == "sliding_attention"@ {
                Err(
                    "GGUF sliding layer blk."@ + dec(i)
                        + " has no `attn_v.weight`; provide the original Hugging Face config"@,
                )
            } else {
                Ok(true)
            },
        }
    }
}

/// A refusal on some layers is a refusal on all.
proof fn lemma_keys_are_values_refuse(
    shapes: Map<Seq<char>, Vec<usize>>,
    kinds: Seq<Seq<char>>,
    m: nat,
    n: nat,
)
    requires
        m <= n,
        keys_are_values(shapes, kinds, m) is Err,
    ensures
        keys_are_values(shapes, kinds, n) == keys_are_values(shapes, kinds, m),
    decreases n,
{
    if m < n {
        lemma_keys_are_values_refuse(shapes, kinds, m, (n - 1) as nat);
    }
}

/// Whether the layers with full attention take their keys as values, which
/// shows in a missing value projection. A sliding layer must have one.
pub fn gemma4_attention_k_eq_v(tensor_shapes: &TensorShapes, layer_types: &Vec<String>) -> (shared:
    Result<bool, Fault>)
    ensures
        outcome(shared) == keys_are_values(
            tensor_shapes@,
            texts(layer_types@),
            layer_types@.len(),
        ),
{
    let ghost kinds = texts(layer_types@);
    let mut shared: bool = false;
    let mut i: usize = 0;
    while i < layer_types.len()
        invariant
            i <= layer_types@.len(),
            kinds == texts(layer_types@),
            keys_are_values(tensor_shapes@, kinds, i as nat) == Ok::<bool, Seq<char>>(shared),
        decreases layer_types@.len() - i,
    {
        let name: String = block_tensor_name(i, ".attn_v.weight");
        let has_v: bool = tensor_shapes.contains(name.as_str());
        assert(kinds[i as int] == layer_types@[i as int]@);
        if same_text(layer_types[i].as_str(), "sliding_attention") {
            if !has_v {
                proof {
                    assert(keys_are_values(tensor_shapes@, kinds, (i + 1) as nat) is Err);
                    lemma_keys_are_values_refuse(
                        tensor_shapes@,
                        kinds,
                        (i + 1) as nat,
                        layer_types@.len(),
                    );
                }
                return Err(
                    Fault::new(
                        String::from_str("GGUF sliding layer blk.").concat(
                            decimal(i as u64).as_str(),
                        ).concat(
                            " has no `attn_v.weight`; provide the original Hugging Face config",
                        ),
                    ),
                );
            }
        } else if !has_v {
            shared = true;
        }
        i = i + 1;
    }
    Ok(shared)
}

/// Where nothing is refused, keys stand for values exactly if some layer has
/// no value projection, and no sliding layer lacks one.
pub proof fn law_keys_are_values(
    shapes: Map<Seq<char>, Vec<usize>>,
    kinds: Seq<Seq<char>>,
    n: nat,
)
    requires
        n <= kinds.len(),
        keys_are_values(shapes, kinds, n) is Ok,
    ensures
        keys_are_values(shapes, kinds, n)->Ok_0 <==> exists|i: nat|
            i < n && !shapes.contains_key(#[trigger] block_tensor(i, ".attn_v.weight"@)),
        forall|i: nat|
            i < n && kinds[i as int] == "sliding_attention"@ ==> shapes.contains_key(
                #[trigger] block_tensor(i, ".attn_v.weight"@),
            ),
    decreases n,
{
    if n > 0 {
        let i = (n - 1) as nat;
        law_keys_are_values(shapes, kinds, i);
        if keys_are_values(shapes, kinds, n)->Ok_0 {
            if keys_are_values(shapes, kinds, i)->Ok_0 {
                let j = choose|j: nat|
                    j < i && !shapes.contains_key(#[trigger] block_tensor(j, ".attn_v.weight"@));
                assert(j < n && !shapes.contains_key(block_tensor(j, ".attn_v.weight"@)));
            } else {
                assert(!shapes.contains_key(block_tensor(i, ".attn_v.weight"@)));
            }
        }
    }
}

/// The key-value head counts of the two classes of attention.
pub struct KvHeads {
    pub sliding: Option<usize>,
    pub full: Option<usize>,
}

/// The head counts after one more layer: a class takes the count of its first
/// layer, and every further layer of the class must have the same.
pub open spec fn kv_heads_with(
    heads: KvHeads,
    index: nat,
    sliding: bool,
    count: u64,
) -> Result<KvHeads, Seq<char>> {
    let seen = if sliding {
        heads.sliding
    } else {
        heads.full
    };
    if count > usize::MAX {
        Err("GGUF `gemma4.attention.head_count_kv["@ + dec(index) + "]` does not fit usize"@)
    } else {
        match seen {
            None => if sliding {
                Ok(KvHeads { sliding: Some(count as usize), full: heads.full })
            } else {
                Ok(KvHeads { sliding: heads.sliding, full: Some(count as usize) })
            },
            Some(seen) => if seen == count {
                Ok(heads)
            } else {
                Err(
                    "GGUF `gemma4.attention.head_count_kv` is not uniform within one attention class ("@
                        + dec(seen as nat) + " vs "@ + dec(count as nat)
                        + "); provide the original Hugging Face config"@,
                )
            },
        }
    }
}

/// The head counts of the first `n` layers.
pub open spec fn kv_heads_of(counts: Seq<u64>, kinds: Seq<Seq<char>>, n: nat) -> Result<
    KvHeads,
    Seq<char>,
>
    decreases n,
{
    if n == 0 {
        Ok(KvHeads { sliding: None, full: None })
    } else {
        let i = (n - 1) as nat;
        match kv_heads_of(counts, kinds, i) {
            Err(message) => Err(message),
            Ok(heads) => kv_heads_with(
                heads,
                i,
                kinds[i as int] == "sliding_attention"@,
                counts[i as int],
            ),
        }
    }
}

pub open spec fn kv_heads(metadata: Map<Seq<char>, GgufValue>, kinds: Seq<Seq<char>>) -> Result<
    KvHeads,
    Seq<char>,
> {
    if !metadata.contains_key("gemma4.attention.head_count_kv"@) {
        Ok(KvHeads { sliding: None, full: None })
    } else {
        match integer_items(
            metadata["gemma4.attention.head_count_kv"@],
            "gemma4.attention.head_count_kv"@,
        ) {
            Err(message) => Err(message),
            Ok(counts) => if counts.len() != kinds.len() {
                Err(
                    "GGUF `gemma4.attention.head_count_kv` has "@ + dec(counts.len())
                        + " entries for "@ + dec(kinds.len()) + " layers"@,
                )
            } else {
                kv_heads_of(counts, kinds, kinds.len())
            },
        }
    }
}

proof fn lemma_kv_heads_refuse(counts: Seq<u64>, kinds: Seq<Seq<char>>, m: nat, n: nat)
    requires
        m <= n,
        kv_heads_of(counts, kinds, m) is Err,
    ensures
        kv_heads_of(counts, kinds, n) == kv_heads_of(counts, kinds, m),
    decreases n,
{
    if m < n {
        lemma_kv_heads_refuse(counts, kinds, m, (n - 1) as nat);
    }
}

fn kv_heads_step(heads: KvHeads, index: usize, sliding: bool, count: u64) -> (next: Result<
    KvHeads,
    Fault,
>)
    ensures
        outcome(next) == kv_heads_with(heads, index as nat, sliding, count),
{
    if count > usize::MAX as u64 {
        return Err(
            Fault::new(
                String::from_str("GGUF `gemma4.attention.head_count_kv[").concat(
                    decimal(index as u64).as_str(),
                ).concat("]` does not fit usize"),
            ),
        );
    }
    let count: usize = count as usize;
    let seen: Option<usize> = if sliding {
        heads.sliding
    } else {
        heads.full
    };
    match seen {
        None => if sliding {
            Ok(KvHeads { sliding: Some(count), full: heads.full })
        } else {
            Ok(KvHeads { sliding: heads.sliding, full: Some(count) })
        },
        Some(seen) => if seen == count {
            Ok(heads)
        } else {
            Err(
                Fault::new(
                    String::from_str(
                        "GGUF `gemma4.attention.head_count_kv` is not uniform within one attention class (",
                    ).concat(decimal(seen as u64).as_str()).concat(" vs ").concat(
                        decimal(count as u64).as_str(),
                    ).concat("); provide the original Hugging Face config"),
                ),
            )
        },
    }
}

/// The key-value heads of the sliding and of the full layers of Gemma 4.
pub fn gemma4_kv_heads(metadata: &Metadata, layer_types: &Vec<String>) -> (heads: Result<
    KvHeads,
    Fault,
>)
    ensures
        outcome(heads) == kv_heads(metadata@, texts(layer_types@)),
{
    let value: &GgufValue = match metadata.get("gemma4.attention.head_count_kv") {
        Some(value) => value,
        None => return Ok(KvHeads { sliding: None, full: None }),
    };
    let counts: Vec<u64> = int_array_values(value, "gemma4.attention.head_count_kv")?;
    if counts.len() != layer_types.len() {
        return Err(
            Fault::new(
                String::from_str("GGUF `gemma4.attention.head_count_kv` has ").concat(
                    decimal(counts.len() as u64).as_str(),
                ).concat(" entries for ").concat(decimal(layer_types.len() as u64).as_str()).concat(
                    " layers",
                ),
            ),
        );
    }
    let ghost kinds = texts(layer_types@);
    let mut heads: KvHeads = KvHeads { sliding: None, full: None };
    let mut i: usize = 0;
    while i < layer_types.len()
        invariant
            i <= layer_types@.len(),
            counts@.len() == layer_types@.len(),
            kinds == texts(layer_types@),
            kv_heads(metadata@, kinds) == kv_heads_of(counts@, kinds, kinds.len()),
            kv_heads_of(counts@, kinds, i as nat) == Ok::<KvHeads, Seq<char>>(heads),
        decreases layer_types@.len() - i,
    {
        assert(kinds[i as int] == layer_types@[i as int]@);
        let sliding: bool = same_text(layer_types[i].as_str(), "sliding_attention");
        match kv_heads_step(heads, i, sliding, counts[i]) {
            Ok(next) => {
                heads = next;
            },
            Err(fault) => {
                proof {
                    assert(kv_heads_of(counts@, kinds, (i + 1) as nat) is Err);
                    lemma_kv_heads_refuse(counts@, kinds, (i + 1) as nat, kinds.len());
                }
                return Err(fault);
            },
        }
        i = i + 1;
    }
    Ok(heads)
}

/// Where nothing is refused, every layer of a class has the class's count.
pub proof fn law_kv_heads_are_uniform(counts: Seq<u64>, kinds: Seq<Seq<char>>, n: nat)
    requires
        n <= counts.len(),
        n <= kinds.len(),
        kv_heads_of(counts, kinds, n) is Ok,
    ensures
        forall|i: int|
            0 <= i < n ==> {
                let heads = kv_heads_of(counts, kinds, n)->Ok_0;
                (if #[trigger] kinds[i] == "sliding_attention"@ {
                    heads.sliding
                } else {
                    heads.full
                }) == Some(counts[i] as usize)
            },
    decreases n,
{
    if n > 0 {
        law_kv_heads_are_uniform(counts, kinds, (n - 1) as nat);
    }
}

// Attention biases.

/// The bias tensors that a text layer has, of the four it can have.
pub open spec fn layer_biases(shapes: Map<Seq<char>, Vec<usize>>, layer: nat) -> nat {
    (if shapes.contains_key(block_tensor(layer, ".attn_q.bias"@)) {
        1nat
    } else {
        0
    }) + (if shapes.contains_key(block_tensor(layer, ".attn_k.bias"@)) {
        1nat
    } else {
        0
    }) + (if shapes.contains_key(block_tensor(layer, ".attn_v.bias"@)) {
        1nat
    } else {
        0
    }) + (if shapes.contains_key(block_tensor(layer, ".attn_output.bias"@)) {
        1nat
    } else {
        0
    })
}

/// The bias tensors of the first `layers` text layers.
pub open spec fn biases(shapes: Map<Seq<char>, Vec<usize>>, layers: nat) -> nat
    decreases layers,
{
    if layers == 0 {
        0
    } else {
        biases(shapes, (layers - 1) as nat) + layer_biases(shapes, (layers - 1) as nat)
    }
}

pub open spec fn attention_bias(shapes: Map<Seq<char>, Vec<usize>>, layers: usize) -> Result<
    bool,
    Seq<char>,
> {
    let present = biases(shapes, layers as nat);
    if present == 0 {
        Ok(false)
    } else if present == layers * 4 {
        Ok(true)
    } else {
        Err(
            "GGUF has an incomplete attention bias tensor set ("@ + dec(present) + " of "@ + dec(
                (layers * 4) as nat,
            ) + ")"@,
        )
    }
}

fn count_layer_biases(tensor_shapes: &TensorShapes, layer: usize) -> (count: usize)
    ensures
        count == layer_biases(tensor_shapes@, layer as nat),
        count <= 4,
{
    let q: String = block_tensor_name(layer, ".attn_q.bias");
    let k: String = block_tensor_name(layer, ".attn_k.bias");
    let v: String = block_tensor_name(layer, ".attn_v.bias");
    let output: String = block_tensor_name(layer, ".attn_output.bias");
    let mut count: usize = 0;
    if tensor_shapes.contains(q.as_str()) {
        count = count + 1;
    }
    if tensor_shapes.contains(k.as_str()) {
        count = count + 1;
    }
    if tensor_shapes.contains(v.as_str()) {
        count = count + 1;
    }
    if tensor_shapes.contains(output.as_str()) {
        count = count + 1;
    }
    count
}

/// Whether the text layers have attention biases. Either all four biases of
/// every layer are there or none is.
pub fn text_attention_bias(tensor_shapes: &TensorShapes, layers: usize) -> (biased: Result<
    bool,
    Fault,
>)
    requires
        layers * 4 <= usize::MAX,
    ensures
        outcome(biased) == attention_bias(tensor_shapes@, layers),
{
    let mut present: usize = 0;
    let mut layer: usize = 0;
    while layer < layers
        invariant
            layer <= layers,
            layers * 4 <= usize::MAX,
            present <= layer * 4,
            present == biases(tensor_shapes@, layer as nat),
        decreases layers - layer,
    {
        present = present + count_layer_biases(tensor_shapes, layer);
        layer = layer + 1;
    }
    if present != 0 && present != layers * 4 {
        return Err(
            Fault::new(
                String::from_str("GGUF has an incomplete attention bias tensor set (").concat(
                    decimal(present as u64).as_str(),
                ).concat(" of ").concat(decimal((layers * 4) as u64).as_str()).concat(")"),
            ),
        );
    }
    Ok(present != 0)
}

/// Biases are found exactly where every layer has all four.
pub proof fn law_attention_bias(shapes: Map<Seq<char>, Vec<usize>>, layers: nat)
    ensures
        biases(shapes, layers) <= layers * 4,
        biases(shapes, layers) == layers * 4 <==> forall|i: nat|
            i < layers ==> #[trigger] layer_biases(shapes, i) == 4,
        biases(shapes, layers) == 0 <==> forall|i: nat|
            i < layers ==> #[trigger] layer_biases(shapes, i) == 0,
    decreases layers,
{
    if layers > 0 {
        let last = (layers - 1) as nat;
        law_attention_bias(shapes, last);
        assert(layer_biases(shapes, last) <= 4);
        if forall|i: nat| i < last ==> #[trigger] layer_biases(shapes, i) == 4 {
            assert(layer_biases(shapes, last) == 4 ==> forall|i: nat|
                i < layers ==> #[trigger] layer_biases(shapes, i) == 4);
        }
        if biases(shapes, layers) == layers * 4 {
            assert(biases(shapes, last) == last * 4);
            assert forall|i: nat| i < layers implies #[trigger] layer_biases(shapes, i) == 4 by {
                if i == last {
                }
            }
        }
        if forall|i: nat| i < layers ==> #[trigger] layer_biases(shapes, i) == 4 {
            assert forall|i: nat| i < last implies #[trigger] layer_biases(shapes, i) == 4 by {}
        }
    }
}

// Attention of the vision layers.

/// The layer that a query weight of the vision tower belongs to.
pub open spec fn vision_layer(name: Seq<char>) -> Option<usize> {
    if name.len() >= 20 && name.subrange(0, 6) == "v.blk."@ && name.subrange(
        name.len() - 14,
        name.len() as int,
    ) == ".attn_q.weight"@ {
        read_usize(name.subrange(6, name.len() - 14))
    } else {
        None
    }
}

/// Whether some query weight belongs to vision layer `layer`.
pub open spec fn has_vision_layer(shapes: Map<Seq<char>, Vec<usize>>, layer: usize) -> bool {
    exists|name: Seq<char>|
        shapes.contains_key(name) && #[trigger] vision_layer(name) == Some(layer)
}

/// Whether `layer` is the least vision layer.
pub open spec fn is_first_vision_layer(
    shapes: Map<Seq<char>, Vec<usize>>,
    layer: usize,
) -> bool {
    &&& has_vision_layer(shapes, layer)
    &&& forall|other: usize| #[trigger] has_vision_layer(shapes, other) ==> layer <= other
}

/// The least vision layer, if there is one.
pub open spec fn first_vision_layer(shapes: Map<Seq<char>, Vec<usize>>) -> Option<usize> {
    if exists|layer: usize| is_first_vision_layer(shapes, layer) {
        Some(choose|layer: usize| is_first_vision_layer(shapes, layer))
    } else {
        None
    }
}

fn has_text_at(chars: &Vec<char>, start: usize, text: &str) -> (found: bool)
    requires
        start + text@.len() <= chars@.len(),
    ensures
        found == (chars@.subrange(start as int, start + text@.len()) == text@),
{
    let wanted: Vec<char> = chars_of(text);
    let len: usize = chars.len();
    let mut i: usize = 0;
    while i < wanted.len()
        invariant
            i <= wanted@.len(),
            len == chars@.len(),
            wanted@ == text@,
            start + text@.len() <= chars@.len(),
            forall|k: int| 0 <= k < i ==> chars@[start + k] == #[trigger] wanted@[k],
        decreases wanted@.len() - i,
    {
        if chars[start + i] != wanted[i] {
            assert(chars@.subrange(start as int, start + text@.len())[i as int] != text@[i as int]);
            return false;
        }
        i = i + 1;
    }
    assert(chars@.subrange(start as int, start + text@.len()) =~= text@);
    true
}

fn vision_layer_of(name: &str) -> (layer: Option<usize>)
    ensures
        layer == vision_layer(name@),
{
    proof {
        reveal_strlit("v.blk.");
        reveal_strlit(".attn_q.weight");
    }
    let chars: Vec<char> = chars_of(name);
    let len: usize = chars.len();
    if len >= 20 && has_text_at(&chars, 0, "v.blk.") && has_text_at(
        &chars,
        len - 14,
        ".attn_q.weight",
    ) {
        parse_usize(&chars, 6, len - 14)
    } else {
        None
    }
}

fn find_first_vision_layer(tensor_shapes: &TensorShapes) -> (layer: Option<usize>)
    ensures
        layer == first_vision_layer(tensor_shapes@),
{
    let ghost names = tensor_shapes.names();
    let mut first: Option<usize> = None;
    let mut i: usize = 0;
    while i < tensor_shapes.len()
        invariant
            i <= names.len(),
            names == tensor_shapes.names(),
            match first {
                None => forall|k: int| 0 <= k < i ==> vision_layer(#[trigger] names[k]) is None,
                Some(least) => {
                    &&& exists|k: int| 0 <= k < i && vision_layer(#[trigger] names[k]) == Some(least)
                    &&& forall|k: int|
                        0 <= k < i ==> (vision_layer(#[trigger] names[k]) matches Some(other) ==> least
                            <= other)
                },
            },
        decreases names.len() - i,
    {
        let ghost before = first;
        match vision_layer_of(tensor_shapes.name_at(i)) {
            Some(layer) => {
                match first {
                    Some(least) => {
                        if layer < least {
                            first = Some(layer);
                        }
                    },
                    None => {
                        first = Some(layer);
                    },
                }
                proof {
                    if before is Some && layer >= before->0 {
                        let k = choose|k: int|
                            0 <= k < i && vision_layer(#[trigger] names[k]) == before;
                        assert(0 <= k < i + 1 && vision_layer(names[k]) == first);
                    } else {
                        assert(vision_layer(names[i as int]) == first);
                    }
                }
            },
            None => {
                proof {
                    if before is Some {
                        let k = choose|k: int|
                            0 <= k < i && vision_layer(#[trigger] names[k]) == before;
                        assert(0 <= k < i + 1 && vision_layer(names[k]) == first);
                    }
                }
            },
        }
        i = i + 1;
    }
    proof {
        tensor_shapes.law_names_are_the_keys();
        assert forall|layer: usize| #[trigger]
            has_vision_layer(tensor_shapes@, layer) implies first is Some && first->0 <= layer by {
            let name = choose|name: Seq<char>|
                tensor_shapes@.contains_key(name) && #[trigger] vision_layer(name) == Some(layer);
            assert(names.contains(name));
            let k = choose|k: int| 0 <= k < names.len() && names[k] == name;
            assert(vision_layer(names[k]) == Some(layer));
        }
        if first is Some {
            let k = choose|k: int|
                0 <= k < names.len() && vision_layer(#[trigger] names[k]) == first;
            assert(names.contains(names[k]));
            assert(tensor_shapes@.contains_key(names[k]));
            assert(has_vision_layer(tensor_shapes@, first->0));
            assert(is_first_vision_layer(tensor_shapes@, first->0));
            let chosen = choose|layer: usize| is_first_vision_layer(tensor_shapes@, layer);
            assert(is_first_vision_layer(tensor_shapes@, chosen));
            assert(chosen <= first->0);
        }
    }
    first
}

/// The name of a weight of vision layer `layer`.
pub open spec fn vision_tensor(layer: nat, tensor: Seq<char>) -> Seq<char> {
    "v.blk."@ + dec(layer) + tensor
}

fn vision_tensor_name(layer: usize, tensor: &str) -> (name: String)
    ensures
        name@ == vision_tensor(layer as nat, tensor@),
{
    String::from_str("v.blk.").concat(decimal(layer as u64).as_str()).concat(tensor)
}

/// The output features of the query and key weights of the first vision layer,
/// where the file has both.
pub open spec fn vision_outputs(
    shapes: Map<Seq<char>, Vec<usize>>,
    num_heads: usize,
    hidden: usize,
) -> Result<Option<(usize, usize)>, Seq<char>> {
    match first_vision_layer(shapes) {
        None => Ok(None),
        Some(first) => {
            let q_name = vision_tensor(first as nat, ".attn_q.weight"@);
            let k_name = vision_tensor(first as nat, ".attn_k.weight"@);
            if !shapes.contains_key(q_name) || !shapes.contains_key(k_name) {
                Ok(None)
            } else {
                match (proj_out(shapes[q_name]@, hidden), proj_out(shapes[k_name]@, hidden)) {
                    (None, _) => Err(odd_shape(q_name, shapes[q_name]@)),
                    (_, None) => Err(odd_shape(k_name, shapes[k_name]@)),
                    (Some(q_out), Some(k_out)) => if num_heads == 0 || q_out % num_heads != 0 {
                        Err(
                            "vision q dim "@ + dec(q_out as nat) + " is not divisible into "@ + dec(
                                num_heads as nat,
                            ) + " heads"@,
                        )
                    } else {
                        Ok(Some((q_out, k_out)))
                    },
                }
            }
        },
    }
}

/// The head size of the vision tower, and its key-value heads.
pub open spec fn vision_heads(
    shapes: Map<Seq<char>, Vec<usize>>,
    num_heads: usize,
    hidden: usize,
) -> Result<Option<(usize, usize)>, Seq<char>> {
    match vision_outputs(shapes, num_heads, hidden) {
        Err(message) => Err(message),
        Ok(None) => Ok(None),
        Ok(Some((q_out, k_out))) => {
            let head_dim = q_out / num_heads;
            if head_dim == 0 || k_out % head_dim != 0 {
                Err(
                    "vision k dim "@ + dec(k_out as nat) + " is not a multiple of head dim "@ + dec(
                        head_dim as nat,
                    ),
                )
            } else {
                Ok(Some((head_dim, (k_out / head_dim) as usize)))
            }
        },
    }
}

/// Whether both weights are empty, so that the key-value heads, which divide
/// one by the other, have no count.
pub open spec fn vision_heads_empty(
    shapes: Map<Seq<char>, Vec<usize>>,
    num_heads: usize,
    hidden: usize,
) -> bool {
    vision_outputs(shapes, num_heads, hidden) == Ok::<Option<(usize, usize)>, Seq<char>>(
        Some((0, 0)),
    )
}

fn vision_attn_outputs(tensor_shapes: &TensorShapes, num_heads: usize, hidden: usize) -> (outputs:
    Result<Option<(usize, usize)>, Fault>)
    ensures
        outcome(outputs) == vision_outputs(tensor_shapes@, num_heads, hidden),
        outputs matches Ok(Some(_)) ==> num_heads != 0,
{
    let first: usize = match find_first_vision_layer(tensor_shapes) {
        Some(first) => first,
        None => return Ok(None),
    };
    let q_name: String = vision_tensor_name(first, ".attn_q.weight");
    let k_name: String = vision_tensor_name(first, ".attn_k.weight");
    let q: &Vec<usize> = match tensor_shapes.get(q_name.as_str()) {
        Some(shape) => shape,
        None => return Ok(None),
    };
    let k: &Vec<usize> = match tensor_shapes.get(k_name.as_str()) {
        Some(shape) => shape,
        None => return Ok(None),
    };
    let q_out: usize = match proj_out_dim(q.as_slice(), hidden) {
        Some(out) => out,
        None => return Err(odd_shape_fault(q_name.as_str(), q)),
    };
    let k_out: usize = match proj_out_dim(k.as_slice(), hidden) {
        Some(out) => out,
        None => return Err(odd_shape_fault(k_name.as_str(), k)),
    };
    if num_heads == 0 || q_out % num_heads != 0 {
        return Err(
            Fault::new(
                String::from_str("vision q dim ").concat(decimal(q_out as u64).as_str()).concat(
                    " is not divisible into ",
                ).concat(decimal(num_heads as u64).as_str()).concat(" heads"),
            ),
        );
    }
    Ok(Some((q_out, k_out)))
}

/// Whether the key-value heads of the vision tower have no count because both
/// weights are empty.
pub fn vision_attn_is_empty(tensor_shapes: &TensorShapes, num_heads: usize, hidden: usize) -> (empty:
    bool)
    ensures
        empty == vision_heads_empty(tensor_shapes@, num_heads, hidden),
{
    match vision_attn_outputs(tensor_shapes, num_heads, hidden) {
        Ok(Some((q_out, k_out))) => q_out == 0 && k_out == 0,
        _ => false,
    }
}

/// The head size of the Gemma 4 vision tower and its number of key-value heads,
/// by the weights of the first layer.
pub fn gemma4_vision_attn_dims(tensor_shapes: &TensorShapes, num_heads: usize, hidden: usize) -> (dims:
    Result<Option<(usize, usize)>, Fault>)
    requires
        !vision_heads_empty(tensor_shapes@, num_heads, hidden),
    ensures
        outcome(dims) == vision_heads(tensor_shapes@, num_heads, hidden),
{
    let (q_out, k_out): (usize, usize) = match vision_attn_outputs(
        tensor_shapes,
        num_heads,
        hidden,
    )? {
        Some(outputs) => outputs,
        None => return Ok(None),
    };
    let head_dim: usize = q_out / num_heads;
    if head_dim == 0 || k_out % head_dim != 0 {
        return Err(
            Fault::new(
                String::from_str("vision k dim ").concat(decimal(k_out as u64).as_str()).concat(
                    " is not a multiple of head dim ",
                ).concat(decimal(head_dim as u64).as_str()),
            ),
        );
    }
    Ok(Some((head_dim, k_out / head_dim)))
}

/// The heads of the vision tower tile its query weight.
pub proof fn law_vision_heads_tile_queries(
    shapes: Map<Seq<char>, Vec<usize>>,
    num_heads: usize,
    hidden: usize,
)
    requires
        vision_heads(shapes, num_heads, hidden) matches Ok(Some(_)),
    ensures
        ({
            let (q_out, k_out) = vision_outputs(shapes, num_heads, hidden)->Ok_0->0;
            let (head_dim, kv_heads) = vision_heads(shapes, num_heads, hidden)->Ok_0->0;
            head_dim * num_heads == q_out && head_dim * kv_heads == k_out
        }),
{
    let (q_out, k_out) = vision_outputs(shapes, num_heads, hidden)->Ok_0->0;
    let head_dim = q_out / num_heads;
    vstd::arithmetic::div_mod::lemma_fundamental_div_mod(q_out as int, num_heads as int);
    vstd::arithmetic::div_mod::lemma_fundamental_div_mod(k_out as int, head_dim as int);
    vstd::arithmetic::mul::lemma_mul_is_commutative(head_dim as int, num_heads as int);
}

} // verus!
