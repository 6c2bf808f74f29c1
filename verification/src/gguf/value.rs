//! GGUF metadata and what a configuration reads from it.
use vstd::prelude::*;
use vstd::string::*;

use crate::json::{
    clone_number, json_array, json_fraction, json_number, json_set, json_string, json_tree,
    json_trees, json_uint, number_json, read_number, Json,
};
use crate::name_map::NameMap;
use crate::text::{outcome, same_text, Fault, Refusal};

verus! {

pub const DEEPSTACK_LAYERS_KEY: &'static str = "clip.vision.is_deepstack_layers";

pub const TOKENIZER_TOKENS_KEY: &'static str = "tokenizer.ggml.tokens";

/// A GGUF metadata value. A float is held as the JSON number that a
/// configuration writes for it; a float that is not finite has none.
#[derive(Debug)]
pub enum GgufValue {
    U8(u8),
    I8(i8),
    U16(u16),
    I16(i16),
    U32(u32),
    I32(i32),
    U64(u64),
    I64(i64),
    F32(Option<serde_json::Number>),
    F64(Option<serde_json::Number>),
    Bool(bool),
    String(String),
    Array(Vec<GgufValue>),
}

/// The metadata of a GGUF file.
pub type Metadata = NameMap<GgufValue>;

impl GgufValue {
    /// The integer that the value holds, whatever its width.
    pub open spec fn integer(self) -> Option<int> {
        match self {
            GgufValue::U8(n) => Some(n as int),
            GgufValue::I8(n) => Some(n as int),
            GgufValue::U16(n) => Some(n as int),
            GgufValue::I16(n) => Some(n as int),
            GgufValue::U32(n) => Some(n as int),
            GgufValue::I32(n) => Some(n as int),
            GgufValue::U64(n) => Some(n as int),
            GgufValue::I64(n) => Some(n as int),
            _ => None,
        }
    }

    /// The integer that the value holds, where it is not negative.
    pub open spec fn natural(self) -> Option<nat> {
        match self.integer() {
            Some(n) => if n >= 0 {
                Some(n as nat)
            } else {
                None
            },
            None => None,
        }
    }

    /// The items of an array.
    pub open spec fn items(self) -> Option<Seq<GgufValue>> {
        match self {
            GgufValue::Array(items) => Some(items@),
            _ => None,
        }
    }

    pub open spec fn is_text(self, text: Seq<char>) -> bool {
        match self {
            GgufValue::String(s) => s@ == text,
            _ => false,
        }
    }

    /// The float that the value holds, as JSON.
    pub open spec fn float(self) -> Option<Json> {
        match self {
            GgufValue::F32(number) => Some(number_json(number)),
            GgufValue::F64(number) => Some(number_json(number)),
            _ => None,
        }
    }
}

/// What metadata holds under `key`.
pub open spec fn entry(metadata: Map<Seq<char>, GgufValue>, key: Seq<char>) -> Option<GgufValue> {
    if metadata.contains_key(key) {
        Some(metadata[key])
    } else {
        None
    }
}

/// The items of the array that metadata holds under `key`.
pub open spec fn entry_items(metadata: Map<Seq<char>, GgufValue>, key: Seq<char>) -> Option<
    Seq<GgufValue>,
> {
    match entry(metadata, key) {
        Some(value) => value.items(),
        None => None,
    }
}

// Refusals.

impl Refusal {
    /// This refusal, or that of a further size.
    pub open spec fn or_size(self, metadata: Map<Seq<char>, GgufValue>, key: Seq<char>) -> Refusal {
        self.or(required_size(metadata, key))
    }

    /// This refusal, or that of a further float.
    pub open spec fn or_float(self, metadata: Map<Seq<char>, GgufValue>, key: Seq<char>) -> Refusal {
        self.or(required_float(metadata, key))
    }

    /// This refusal, or that of a further token.
    pub open spec fn or_token(
        self,
        metadata: Map<Seq<char>, GgufValue>,
        token: Seq<char>,
    ) -> Refusal {
        self.or(token_entry(metadata, token))
    }
}

/// An outcome that is a JSON value, with the value taken as its tree.
pub open spec fn tree_outcome(r: Result<serde_json::Value, Fault>) -> Result<Json, Seq<char>> {
    match r {
        Ok(value) => Ok(json_tree(value)),
        Err(fault) => Err(fault@),
    }
}

pub(crate) fn set_size(value: &mut serde_json::Value, name: &str, size: usize)
    requires
        json_tree(*old(value)) is Object,
    ensures
        json_tree(*final(value)) == Json::Object(
            json_tree(*old(value)).members().insert(name@, Json::uint(size as nat)),
        ),
{
    json_set(value, name, json_uint(size as u64));
}

/// An array of one text.
pub(crate) fn one_text(text: &str) -> (value: serde_json::Value)
    ensures
        json_tree(value) == Json::Array(seq![Json::Text(text@)]),
{
    let mut values: Vec<serde_json::Value> = Vec::new();
    values.push(json_string(text));
    assert(json_trees(values@) =~= seq![Json::Text(text@)]);
    json_array(values)
}

/// The size under `key`, as JSON.
pub open spec fn size_json(metadata: Map<Seq<char>, GgufValue>, key: Seq<char>) -> Json {
    Json::uint(required_size(metadata, key)->Ok_0 as nat)
}

/// The float under `key`, as JSON.
pub open spec fn float_json(metadata: Map<Seq<char>, GgufValue>, key: Seq<char>) -> Json {
    required_float(metadata, key)->Ok_0
}

/// The id of a token, as JSON.
pub open spec fn token_json(metadata: Map<Seq<char>, GgufValue>, token: Seq<char>) -> Json {
    Json::uint(token_entry(metadata, token)->Ok_0 as nat)
}

pub open spec fn missing_key(key: Seq<char>) -> Seq<char> {
    "Standalone multimodal config requires GGUF `"@ + key + "`"@
}

/// The message for a key whose value is of the wrong kind.
pub open spec fn bad_key(key: Seq<char>, complaint: Seq<char>) -> Seq<char> {
    "GGUF `"@ + key + "` "@ + complaint
}

pub(crate) fn missing_key_fault(key: &str) -> (fault: Fault)
    ensures
        fault@ == missing_key(key@),
{
    Fault::new(
        String::from_str("Standalone multimodal config requires GGUF `").concat(key).concat("`"),
    )
}

pub(crate) fn bad_key_fault(key: &str, complaint: &str) -> (fault: Fault)
    ensures
        fault@ == bad_key(key@, complaint@),
{
    Fault::new(String::from_str("GGUF `").concat(key).concat("` ").concat(complaint))
}

// Integers.

/// The nonnegative integer that a value holds.
fn value_u64(value: &GgufValue) -> (number: Option<u64>)
    ensures
        number == match value.natural() {
            Some(n) => Some(n as u64),
            None => None,
        },
        value.natural() matches Some(n) ==> n <= u64::MAX,
{
    match value {
        GgufValue::U8(n) => Some(*n as u64),
        GgufValue::U16(n) => Some(*n as u64),
        GgufValue::U32(n) => Some(*n as u64),
        GgufValue::U64(n) => Some(*n),
        GgufValue::I8(n) => if *n >= 0 {
            Some(*n as u64)
        } else {
            None
        },
        GgufValue::I16(n) => if *n >= 0 {
            Some(*n as u64)
        } else {
            None
        },
        GgufValue::I32(n) => if *n >= 0 {
            Some(*n as u64)
        } else {
            None
        },
        GgufValue::I64(n) => if *n >= 0 {
            Some(*n as u64)
        } else {
            None
        },
        _ => None,
    }
}

/// The size that a value holds: a nonnegative integer that fits `usize`.
pub open spec fn size_of_value(value: GgufValue) -> Option<usize> {
    match value.natural() {
        Some(n) => if n <= usize::MAX {
            Some(n as usize)
        } else {
            None
        },
        None => None,
    }
}

/// Reads a size from an integer of any width.
pub fn value_usize(value: &GgufValue) -> (size: Option<usize>)
    ensures
        size == size_of_value(*value),
{
    match value_u64(value) {
        Some(n) => if n <= usize::MAX as u64 {
            Some(n as usize)
        } else {
            None
        },
        None => None,
    }
}

pub open spec fn required_size(metadata: Map<Seq<char>, GgufValue>, key: Seq<char>) -> Result<
    usize,
    Seq<char>,
> {
    match entry(metadata, key) {
        None => Err(missing_key(key)),
        Some(value) => match size_of_value(value) {
            Some(size) => Ok(size),
            None => Err(bad_key(key, "must be an integer"@)),
        },
    }
}

/// Reads the size under `key`, which must be there.
pub fn required_usize(metadata: &Metadata, key: &str) -> (size: Result<usize, Fault>)
    ensures
        outcome(size) == required_size(metadata@, key@),
{
    match metadata.get(key) {
        None => Err(missing_key_fault(key)),
        Some(value) => match value_usize(value) {
            Some(size) => Ok(size),
            None => Err(bad_key_fault(key, "must be an integer")),
        },
    }
}

pub open spec fn optional_size(metadata: Map<Seq<char>, GgufValue>, key: Seq<char>) -> Result<
    Option<usize>,
    Seq<char>,
> {
    match entry(metadata, key) {
        None => Ok(None),
        Some(value) => match size_of_value(value) {
            Some(size) => Ok(Some(size)),
            None => Err(bad_key(key, "must be an integer"@)),
        },
    }
}

/// Reads the size under `key`, if the key is there.
pub fn optional_usize(metadata: &Metadata, key: &str) -> (size: Result<Option<usize>, Fault>)
    ensures
        outcome(size) == optional_size(metadata@, key@),
{
    match metadata.get(key) {
        None => Ok(None),
        Some(value) => match value_usize(value) {
            Some(size) => Ok(Some(size)),
            None => Err(bad_key_fault(key, "must be an integer")),
        },
    }
}

pub open spec fn required_id(metadata: Map<Seq<char>, GgufValue>, key: Seq<char>) -> Result<
    u32,
    Seq<char>,
> {
    match required_size(metadata, key) {
        Err(message) => Err(message),
        Ok(size) => if size <= u32::MAX {
            Ok(size as u32)
        } else {
            Err(bad_key(key, "does not fit u32"@))
        },
    }
}

/// Reads the token id under `key`.
fn required_u32(metadata: &Metadata, key: &str) -> (id: Result<u32, Fault>)
    ensures
        outcome(id) == required_id(metadata@, key@),
{
    let size: usize = required_usize(metadata, key)?;
    if size as u64 <= u32::MAX as u64 {
        Ok(size as u32)
    } else {
        Err(bad_key_fault(key, "does not fit u32"))
    }
}

pub open spec fn all_natural(items: Seq<GgufValue>) -> bool {
    forall|i: int| 0 <= i < items.len() ==> (#[trigger] items[i]).natural() is Some
}

pub open spec fn integer_items(value: GgufValue, key: Seq<char>) -> Result<Seq<u64>, Seq<char>> {
    match value.items() {
        None => Err(bad_key(key, "must be an integer array"@)),
        Some(items) => if all_natural(items) {
            Ok(items.map_values(|item: GgufValue| item.natural()->0 as u64))
        } else {
            Err(bad_key(key, "must hold nonnegative integers"@))
        },
    }
}

/// An outcome that lists values, with the list taken as a sequence.
pub open spec fn list_outcome<T>(r: Result<Vec<T>, Fault>) -> Result<Seq<T>, Seq<char>> {
    match r {
        Ok(list) => Ok(list@),
        Err(fault) => Err(fault@),
    }
}

/// Reads an array of nonnegative integers.
pub fn int_array_values(value: &GgufValue, key: &str) -> (values: Result<Vec<u64>, Fault>)
    ensures
        list_outcome(values) == integer_items(*value, key@),
{
    let items: &Vec<GgufValue> = match value {
        GgufValue::Array(items) => items,
        _ => return Err(bad_key_fault(key, "must be an integer array")),
    };
    let mut values: Vec<u64> = Vec::new();
    let mut i: usize = 0;
    while i < items.len()
        invariant
            i <= items@.len(),
            values@.len() == i,
            value.items() == Some(items@),
            forall|k: int|
                0 <= k < i ==> (#[trigger] items@[k]).natural() is Some && values@[k]
                    == items@[k].natural()->0 as u64,
        decreases items@.len() - i,
    {
        match value_u64(&items[i]) {
            Some(n) => {
                values.push(n);
            },
            None => {
                assert(items@[i as int].natural() is None);
                return Err(bad_key_fault(key, "must hold nonnegative integers"));
            },
        }
        i = i + 1;
    }
    assert(values@ =~= items@.map_values(|item: GgufValue| item.natural()->0 as u64));
    Ok(values)
}

// Floats.

pub open spec fn required_float(metadata: Map<Seq<char>, GgufValue>, key: Seq<char>) -> Result<
    Json,
    Seq<char>,
> {
    match entry(metadata, key) {
        None => Err(missing_key(key)),
        Some(value) => match value.float() {
            Some(float) => Ok(float),
            None => Err(bad_key(key, "must be a float"@)),
        },
    }
}

pub(crate) fn copy_number(number: &Option<serde_json::Number>) -> (copy: Option<serde_json::Number>)
    ensures
        number_json(copy) == number_json(*number),
{
    match number {
        Some(number) => Some(clone_number(number)),
        None => None,
    }
}

/// Reads the float under `key`, which must be there.
pub fn required_f64(metadata: &Metadata, key: &str) -> (float: Result<
    Option<serde_json::Number>,
    Fault,
>)
    ensures
        match float {
            Ok(number) => required_float(metadata@, key@) == Ok::<Json, Seq<char>>(
                number_json(number),
            ),
            Err(fault) => required_float(metadata@, key@) == Err::<Json, Seq<char>>(fault@),
        },
{
    match metadata.get(key) {
        None => Err(missing_key_fault(key)),
        Some(GgufValue::F32(number)) => Ok(copy_number(number)),
        Some(GgufValue::F64(number)) => Ok(copy_number(number)),
        Some(_) => Err(bad_key_fault(key, "must be a float")),
    }
}

/// The number in place `i` of a triple: what the array holds there, or one half
/// past its end.
pub open spec fn triple_number(items: Seq<GgufValue>, i: int) -> Json {
    if i < items.len() {
        items[i].float()->0
    } else {
        Json::Number(read_number("0.5"@))
    }
}

pub open spec fn float_triple(metadata: Map<Seq<char>, GgufValue>, key: Seq<char>) -> Result<
    Json,
    Seq<char>,
> {
    match entry_items(metadata, key) {
        None => Err(missing_key(key)),
        Some(items) => if forall|i: int|
            0 <= i < 3 && i < items.len() ==> (#[trigger] items[i]) is F32 {
            Ok(Json::Array(Seq::new(3, |i: int| triple_number(items, i))))
        } else {
            Err(bad_key(key, "must be an f32 array"@))
        },
    }
}

/// Reads up to three 32-bit floats. Places that the array does not fill hold
/// one half; items past the third are not looked at.
pub fn f32_3(metadata: &Metadata, key: &str) -> (triple: Result<serde_json::Value, Fault>)
    ensures
        tree_outcome(triple) == float_triple(metadata@, key@),
{
    let items: &Vec<GgufValue> = match metadata.get(key) {
        Some(GgufValue::Array(items)) => items,
        _ => return Err(missing_key_fault(key)),
    };
    let mut values: Vec<serde_json::Value> = Vec::new();
    let mut i: usize = 0;
    while i < 3
        invariant
            i <= 3,
            values@.len() == i,
            entry_items(metadata@, key@) == Some(items@),
            forall|k: int|
                0 <= k < i && k < items@.len() ==> (#[trigger] items@[k]) is F32,
            forall|k: int|
                0 <= k < i ==> json_tree(#[trigger] values@[k]) == triple_number(items@, k),
        decreases 3 - i,
    {
        if i < items.len() {
            match &items[i] {
                GgufValue::F32(number) => {
                    values.push(json_number(copy_number(number)));
                },
                _ => {
                    assert(!(items@[i as int] is F32));
                    return Err(bad_key_fault(key, "must be an f32 array"));
                },
            }
        } else {
            proof {
                reveal_strlit("0.5");
            }
            values.push(json_number(Some(json_fraction("0.5"))));
        }
        i = i + 1;
    }
    assert(json_trees(values@) =~= Seq::new(3, |i: int| triple_number(items@, i)));
    Ok(json_array(values))
}

// Booleans.

pub open spec fn all_bool(items: Seq<GgufValue>) -> bool {
    forall|i: int| 0 <= i < items.len() ==> (#[trigger] items[i]) is Bool
}

pub open spec fn bool_items(metadata: Map<Seq<char>, GgufValue>, key: Seq<char>) -> Result<
    Seq<bool>,
    Seq<char>,
> {
    match entry_items(metadata, key) {
        None => Err(missing_key(key)),
        Some(items) => if all_bool(items) {
            Ok(items.map_values(|item: GgufValue| item == GgufValue::Bool(true)))
        } else {
            Err(bad_key(key, "must be a boolean array"@))
        },
    }
}

/// Reads an array of booleans, which must be there.
pub fn required_bool_array(metadata: &Metadata, key: &str) -> (flags: Result<Vec<bool>, Fault>)
    ensures
        list_outcome(flags) == bool_items(metadata@, key@),
{
    let items: &Vec<GgufValue> = match metadata.get(key) {
        Some(GgufValue::Array(items)) => items,
        _ => return Err(missing_key_fault(key)),
    };
    let mut flags: Vec<bool> = Vec::new();
    let mut i: usize = 0;
    while i < items.len()
        invariant
            i <= items@.len(),
            flags@.len() == i,
            entry_items(metadata@, key@) == Some(items@),
            forall|k: int|
                0 <= k < i ==> (#[trigger] items@[k]) is Bool && flags@[k] == (items@[k]
                    == GgufValue::Bool(true)),
        decreases items@.len() - i,
    {
        match &items[i] {
            GgufValue::Bool(flag) => {
                flags.push(*flag);
            },
            _ => {
                assert(!(items@[i as int] is Bool));
                return Err(bad_key_fault(key, "must be a boolean array"));
            },
        }
        i = i + 1;
    }
    assert(flags@ =~= items@.map_values(|item: GgufValue| item == GgufValue::Bool(true)));
    Ok(flags)
}

/// The places of `true` among the first `n` items, in order.
pub open spec fn true_places(items: Seq<GgufValue>, n: int) -> Seq<usize>
    decreases n,
{
    if n <= 0 {
        Seq::empty()
    } else if items[n - 1] == GgufValue::Bool(true) {
        true_places(items, n - 1).push((n - 1) as usize)
    } else {
        true_places(items, n - 1)
    }
}

pub open spec fn deepstack_places(metadata: Map<Seq<char>, GgufValue>) -> Result<
    Seq<usize>,
    Seq<char>,
> {
    match entry(metadata, DEEPSTACK_LAYERS_KEY@) {
        None => Ok(Seq::empty()),
        Some(value) => match value.items() {
            Some(items) => if all_bool(items) {
                Ok(true_places(items, items.len() as int))
            } else {
                Err(bad_key(DEEPSTACK_LAYERS_KEY@, "must be a boolean array"@))
            },
            None => Err(bad_key(DEEPSTACK_LAYERS_KEY@, "must be a boolean array"@)),
        },
    }
}

/// The layers that feed the deep stack, in order; none where the file does not
/// say.
pub fn deepstack_indices(metadata: &Metadata) -> (layers: Result<Vec<usize>, Fault>)
    ensures
        list_outcome(layers) == deepstack_places(metadata@),
{
    let items: &Vec<GgufValue> = match metadata.get(DEEPSTACK_LAYERS_KEY) {
        None => return Ok(Vec::new()),
        Some(GgufValue::Array(items)) => items,
        Some(_) => return Err(bad_key_fault(DEEPSTACK_LAYERS_KEY, "must be a boolean array")),
    };
    let mut layers: Vec<usize> = Vec::new();
    let mut i: usize = 0;
    while i < items.len()
        invariant
            i <= items@.len(),
            entry(metadata@, DEEPSTACK_LAYERS_KEY@) matches Some(value) && value.items() == Some(
                items@,
            ),
            forall|k: int| 0 <= k < i ==> (#[trigger] items@[k]) is Bool,
            layers@ == true_places(items@, i as int),
        decreases items@.len() - i,
    {
        match &items[i] {
            GgufValue::Bool(flag) => {
                if *flag {
                    layers.push(i);
                }
            },
            _ => {
                assert(!(items@[i as int] is Bool));
                return Err(bad_key_fault(DEEPSTACK_LAYERS_KEY, "must be a boolean array"));
            },
        }
        i = i + 1;
    }
    Ok(layers)
}

/// The deep stack lists each `true` place once, in rising order, and nothing
/// else.
pub proof fn law_true_places(items: Seq<GgufValue>, n: int)
    requires
        0 <= n <= items.len() <= usize::MAX,
    ensures
        forall|k: int|
            0 <= k < true_places(items, n).len() ==> {
                &&& (#[trigger] true_places(items, n)[k]) < n
                &&& items[true_places(items, n)[k] as int] == GgufValue::Bool(true)
            },
        forall|j: int, k: int|
            0 <= j < k < true_places(items, n).len() ==> true_places(items, n)[j] < true_places(
                items,
                n,
            )[k],
        forall|i: int|
            0 <= i < n && #[trigger] items[i] == GgufValue::Bool(true) ==> true_places(
                items,
                n,
            ).contains(i as usize),
    decreases n,
{
    if n > 0 {
        law_true_places(items, n - 1);
        let before = true_places(items, n - 1);
        let now = true_places(items, n);
        assert forall|i: int|
            0 <= i < n && #[trigger] items[i] == GgufValue::Bool(true) implies now.contains(
            i as usize,
        ) by {
            if i == n - 1 {
                assert(now[now.len() - 1] == i as usize);
            } else {
                let k = choose|k: int| 0 <= k < before.len() && before[k] == i as usize;
                assert(before.contains(i as usize));
                assert(now[k] == i as usize);
            }
        }
    }
}

// Tokens.

/// Whether `text` stands first in place `i`.
pub open spec fn first_at(items: Seq<GgufValue>, text: Seq<char>, i: int) -> bool {
    &&& 0 <= i < items.len()
    &&& items[i].is_text(text)
    &&& forall|k: int| 0 <= k < i ==> !(#[trigger] items[k]).is_text(text)
}

/// The first place that holds `text`.
pub open spec fn first_place(items: Seq<GgufValue>, text: Seq<char>) -> Option<int> {
    if exists|i: int| first_at(items, text, i) {
        Some(choose|i: int| first_at(items, text, i))
    } else {
        None
    }
}

/// The token id of a text: its first place in the vocabulary, where that fits
/// an id.
pub open spec fn vocab_id(items: Seq<GgufValue>, text: Seq<char>) -> Option<u32> {
    match first_place(items, text) {
        Some(i) => if i <= u32::MAX {
            Some(i as u32)
        } else {
            None
        },
        None => None,
    }
}

fn find_token(items: &Vec<GgufValue>, token: &str) -> (id: Option<u32>)
    ensures
        id == vocab_id(items@, token@),
{
    let mut i: usize = 0;
    while i < items.len()
        invariant
            i <= items@.len(),
            forall|k: int| 0 <= k < i ==> !(#[trigger] items@[k]).is_text(token@),
        decreases items@.len() - i,
    {
        let here: bool = match &items[i] {
            GgufValue::String(text) => same_text(text.as_str(), token),
            _ => false,
        };
        if here {
            assert(first_at(items@, token@, i as int));
            proof {
                let chosen = choose|k: int| first_at(items@, token@, k);
                assert(first_at(items@, token@, chosen));
                assert(chosen == i);
            }
            return if i as u64 <= u32::MAX as u64 {
                Some(i as u32)
            } else {
                None
            };
        }
        i = i + 1;
    }
    None
}

pub open spec fn token_entry(metadata: Map<Seq<char>, GgufValue>, token: Seq<char>) -> Result<
    u32,
    Seq<char>,
> {
    match entry_items(metadata, TOKENIZER_TOKENS_KEY@) {
        None => Err(
            "Standalone multimodal config requires `"@ + TOKENIZER_TOKENS_KEY@ + "` to resolve `"@
                + token + "`"@,
        ),
        Some(items) => match vocab_id(items, token) {
            Some(id) => Ok(id),
            None => Err("GGUF tokenizer has no `"@ + token + "` entry"@),
        },
    }
}

/// The id of a token: its first place in the vocabulary.
pub fn token_id(metadata: &Metadata, token: &str) -> (id: Result<u32, Fault>)
    ensures
        outcome(id) == token_entry(metadata@, token@),
{
    match metadata.get(TOKENIZER_TOKENS_KEY) {
        Some(GgufValue::Array(items)) => match find_token(items, token) {
            Some(id) => Ok(id),
            None => Err(
                Fault::new(
                    String::from_str("GGUF tokenizer has no `").concat(token).concat("` entry"),
                ),
            ),
        },
        _ => Err(
            Fault::new(
                String::from_str("Standalone multimodal config requires `").concat(
                    TOKENIZER_TOKENS_KEY,
                ).concat("` to resolve `").concat(token).concat("`"),
            ),
        ),
    }
}

pub open spec fn vocab_size(metadata: Map<Seq<char>, GgufValue>) -> Result<usize, Seq<char>> {
    match entry(metadata, TOKENIZER_TOKENS_KEY@) {
        None => Err("GGUF metadata is missing `"@ + TOKENIZER_TOKENS_KEY@ + "`"@),
        Some(value) => match value.items() {
            Some(items) => if items.len() > 0 {
                Ok(items.len() as usize)
            } else {
                Err(
                    "GGUF metadata `"@ + TOKENIZER_TOKENS_KEY@ + "` must be a nonempty array"@,
                )
            },
            None => Err(
                "GGUF metadata `"@ + TOKENIZER_TOKENS_KEY@ + "` must be a nonempty array"@,
            ),
        },
    }
}

fn empty_vocab_fault() -> (fault: Fault)
    ensures
        fault@ == "GGUF metadata `"@ + TOKENIZER_TOKENS_KEY@ + "` must be a nonempty array"@,
{
    Fault::new(
        String::from_str("GGUF metadata `").concat(TOKENIZER_TOKENS_KEY).concat(
            "` must be a nonempty array",
        ),
    )
}

/// The number of tokens in the vocabulary.
pub fn tokenizer_len(metadata: &Metadata) -> (size: Result<usize, Fault>)
    ensures
        outcome(size) == vocab_size(metadata@),
{
    match metadata.get(TOKENIZER_TOKENS_KEY) {
        Some(GgufValue::Array(items)) => if items.len() > 0 {
            Ok(items.len())
        } else {
            Err(empty_vocab_fault())
        },
        Some(_) => Err(empty_vocab_fault()),
        None => Err(
            Fault::new(
                String::from_str("GGUF metadata is missing `").concat(TOKENIZER_TOKENS_KEY).concat(
                    "`",
                ),
            ),
        ),
    }
}

/// The stop ids: the declared end-of-sequence id, then the vocabulary's `<eos>`
/// where that is another token.
pub open spec fn stop_ids(metadata: Map<Seq<char>, GgufValue>, eos: u32) -> Seq<u32> {
    match entry_items(metadata, TOKENIZER_TOKENS_KEY@) {
        Some(items) => match vocab_id(items, "<eos>"@) {
            Some(id) => if id != eos {
                seq![eos, id]
            } else {
                seq![eos]
            },
            None => seq![eos],
        },
        None => seq![eos],
    }
}

/// One id alone stands as a number, several as an array.
pub open spec fn ids_json(ids: Seq<u32>) -> Json {
    if ids.len() == 1 {
        Json::uint(ids[0] as nat)
    } else {
        Json::Array(ids.map_values(|id: u32| Json::uint(id as nat)))
    }
}

pub open spec fn generation_ids(metadata: Map<Seq<char>, GgufValue>) -> Result<
    (u32, Json),
    Seq<char>,
> {
    match required_id(metadata, "tokenizer.ggml.bos_token_id"@) {
        Err(message) => Err(message),
        Ok(bos) => match required_id(metadata, "tokenizer.ggml.eos_token_id"@) {
            Err(message) => Err(message),
            Ok(eos) => Ok((bos, ids_json(stop_ids(metadata, eos)))),
        },
    }
}

/// The beginning-of-sequence id and the stop ids. Quantizers sometimes declare
/// a template delimiter as end of sequence while the model emits `<eos>`, so
/// both stop generation.
pub fn gen_ids(metadata: &Metadata) -> (ids: Result<(u32, serde_json::Value), Fault>)
    ensures
        match ids {
            Ok((bos, stops)) => generation_ids(metadata@) == Ok::<(u32, Json), Seq<char>>(
                (bos, json_tree(stops)),
            ),
            Err(fault) => generation_ids(metadata@) == Err::<(u32, Json), Seq<char>>(fault@),
        },
{
    let bos: u32 = required_u32(metadata, "tokenizer.ggml.bos_token_id")?;
    let eos: u32 = required_u32(metadata, "tokenizer.ggml.eos_token_id")?;
    let named: Option<u32> = match metadata.get(TOKENIZER_TOKENS_KEY) {
        Some(GgufValue::Array(items)) => find_token(items, "<eos>"),
        _ => None,
    };
    match named {
        Some(id) => {
            if id != eos {
                let mut values: Vec<serde_json::Value> = Vec::new();
                values.push(json_uint(eos as u64));
                values.push(json_uint(id as u64));
                assert(json_trees(values@) =~= stop_ids(metadata@, eos).map_values(
                    |id: u32| Json::uint(id as nat),
                ));
                return Ok((bos, json_array(values)));
            }
        },
        None => {},
    }
    Ok((bos, json_uint(eos as u64)))
}

/// The declared end-of-sequence id always stops generation, and no stop id
/// comes twice.
pub proof fn law_stop_ids(metadata: Map<Seq<char>, GgufValue>, eos: u32)
    ensures
        stop_ids(metadata, eos).len() >= 1,
        stop_ids(metadata, eos)[0] == eos,
        stop_ids(metadata, eos).no_duplicates(),
{
}

} // verus!
