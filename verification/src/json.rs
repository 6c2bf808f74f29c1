//! JSON values, as `serde_json` holds and writes them.
//!
//! The functions here hand work to `serde_json`. What they claim of it is
//! stated over `Json`, the tree that a value stands for.
use vstd::prelude::*;

verus! {

#[verifier::external_type_specification]
#[verifier::external_body]
pub struct ExJsonValue(serde_json::Value);

#[verifier::external_type_specification]
#[verifier::external_body]
pub struct ExJsonNumber(serde_json::Number);

/// A JSON number: an integer by its value, a float by the bits of its double.
pub enum JsonNumber {
    Integer(int),
    Float(int),
}

/// The tree that a JSON value stands for. Members of an object have no order.
pub enum Json {
    Null,
    Bool(bool),
    Number(JsonNumber),
    Text(Seq<char>),
    Array(Seq<Json>),
    Object(Map<Seq<char>, Json>),
}

impl Json {
    pub open spec fn uint(n: nat) -> Json {
        Json::Number(JsonNumber::Integer(n as int))
    }

    /// The members of an object; no members for any other value.
    pub open spec fn members(self) -> Map<Seq<char>, Json> {
        match self {
            Json::Object(members) => members,
            _ => Map::empty(),
        }
    }
}

/// The tree held by a `serde_json::Value`.
pub uninterp spec fn json_tree(value: serde_json::Value) -> Json;

/// The number held by a `serde_json::Number`.
pub uninterp spec fn number_view(number: serde_json::Number) -> JsonNumber;

/// The number that `serde_json::from_str` reads from a decimal text.
pub uninterp spec fn read_number(text: Seq<char>) -> JsonNumber;

/// The text that `serde_json::to_string` writes for a tree.
pub uninterp spec fn json_text(tree: Json) -> Seq<char>;

pub open spec fn json_trees(values: Seq<serde_json::Value>) -> Seq<Json> {
    values.map_values(|value: serde_json::Value| json_tree(value))
}

/// The tree of an optional number: JSON has no way to write a number that is
/// not finite, and holds null in its place.
pub open spec fn number_json(number: Option<serde_json::Number>) -> Json {
    match number {
        Some(number) => Json::Number(number_view(number)),
        None => Json::Null,
    }
}

/// A text of the form `0.` and up to twenty digits.
pub open spec fn is_fraction(text: Seq<char>) -> bool {
    &&& 3 <= text.len() <= 22
    &&& text[0] == '0'
    &&& text[1] == '.'
    &&& forall|i: int| 2 <= i < text.len() ==> crate::text::is_digit(#[trigger] text[i])
}

/// `serde_json::Value::Null`.
#[verifier::external_body]
pub(crate) fn json_null() -> (value: serde_json::Value)
    ensures
        json_tree(value) == Json::Null,
{
    serde_json::Value::Null
}

/// `<serde_json::Value as From<bool>>::from`: the boolean itself.
#[verifier::external_body]
pub(crate) fn json_bool(flag: bool) -> (value: serde_json::Value)
    ensures
        json_tree(value) == Json::Bool(flag),
{
    serde_json::Value::from(flag)
}

/// `<serde_json::Value as From<u64>>::from`: the number as an integer.
#[verifier::external_body]
pub(crate) fn json_uint(n: u64) -> (value: serde_json::Value)
    ensures
        json_tree(value) == Json::uint(n as nat),
{
    serde_json::Value::from(n)
}

/// `<serde_json::Value as From<&str>>::from`: the same text.
#[verifier::external_body]
pub(crate) fn json_string(text: &str) -> (value: serde_json::Value)
    ensures
        json_tree(value) == Json::Text(text@),
{
    serde_json::Value::from(text)
}

/// `<serde_json::Value as From<Option<serde_json::Number>>>::from`: the number,
/// or null where there is none.
#[verifier::external_body]
pub(crate) fn json_number(number: Option<serde_json::Number>) -> (value: serde_json::Value)
    ensures
        json_tree(value) == number_json(number),
{
    serde_json::Value::from(number)
}

/// `<serde_json::Number as Clone>::clone`: the same number.
#[verifier::external_body]
pub(crate) fn clone_number(number: &serde_json::Number) -> (copy: serde_json::Number)
    ensures
        number_view(copy) == number_view(*number),
{
    number.clone()
}

/// `<serde_json::Value as From<Vec<serde_json::Value>>>::from`: an array of the
/// same values in the same order.
#[verifier::external_body]
pub(crate) fn json_array(values: Vec<serde_json::Value>) -> (value: serde_json::Value)
    ensures
        json_tree(value) == Json::Array(json_trees(values@)),
{
    serde_json::Value::from(values)
}

/// `serde_json::Map::new` as a value: an object without members.
#[verifier::external_body]
pub(crate) fn json_object() -> (value: serde_json::Value)
    ensures
        json_tree(value) == Json::Object(Map::empty()),
{
    serde_json::Value::Object(serde_json::Map::new())
}

/// `serde_json::Value::is_object`.
#[verifier::external_body]
pub(crate) fn json_is_object(value: &serde_json::Value) -> (object: bool)
    ensures
        object == (json_tree(*value) is Object),
{
    value.is_object()
}

/// `<serde_json::Value as IndexMut<&str>>::index_mut` and an assignment through
/// it: the object's member `name` becomes `member`, and the other members stay.
#[verifier::external_body]
pub(crate) fn json_set(value: &mut serde_json::Value, name: &str, member: serde_json::Value)
    requires
        json_tree(*old(value)) is Object,
    ensures
        json_tree(*final(value)) == Json::Object(
            json_tree(*old(value)).members().insert(name@, json_tree(member)),
        ),
{
    value[name] = member;
}

/// `serde_json::from_str` for a `serde_json::Number`. It reads any number of
/// JSON's grammar; a text of the form `0.` and digits is one.
#[verifier::external_body]
pub(crate) fn json_fraction(text: &str) -> (number: serde_json::Number)
    requires
        is_fraction(text@),
    ensures
        number_view(number) == read_number(text@),
{
    serde_json::from_str(text).expect("a decimal fraction is a JSON number")
}

/// `serde_json::to_string` for a `serde_json::Value`: text that is fixed by the
/// value's tree. It fails only for maps with keys other than strings, which a
/// value does not hold.
#[verifier::external_body]
pub(crate) fn json_to_string(value: &serde_json::Value) -> (text: String)
    ensures
        text@ == json_text(json_tree(*value)),
{
    serde_json::to_string(value).expect("a JSON value has string keys only")
}

/// Builds an array of texts.
pub(crate) fn json_strings(texts: &Vec<String>) -> (value: serde_json::Value)
    ensures
        json_tree(value) == Json::Array(texts@.map_values(|text: String| Json::Text(text@))),
{
    let mut values: Vec<serde_json::Value> = Vec::new();
    let mut i: usize = 0;
    while i < texts.len()
        invariant
            i <= texts@.len(),
            values@.len() == i,
            forall|k: int|
                0 <= k < i ==> json_tree(#[trigger] values@[k]) == Json::Text(texts@[k]@),
        decreases texts@.len() - i,
    {
        values.push(json_string(texts[i].as_str()));
        i = i + 1;
    }
    assert(json_trees(values@) =~= texts@.map_values(|text: String| Json::Text(text@)));
    json_array(values)
}

pub open spec fn uint_list(numbers: Seq<usize>) -> Json {
    Json::Array(numbers.map_values(|n: usize| Json::uint(n as nat)))
}

/// Builds an array of unsigned integers.
pub(crate) fn json_uints(numbers: &Vec<usize>) -> (value: serde_json::Value)
    ensures
        json_tree(value) == uint_list(numbers@),
{
    let mut values: Vec<serde_json::Value> = Vec::new();
    let mut i: usize = 0;
    while i < numbers.len()
        invariant
            i <= numbers@.len(),
            values@.len() == i,
            forall|k: int|
                0 <= k < i ==> json_tree(#[trigger] values@[k]) == Json::uint(numbers@[k] as nat),
        decreases numbers@.len() - i,
    {
        values.push(json_uint(numbers[i] as u64));
        i = i + 1;
    }
    assert(json_trees(values@) =~= numbers@.map_values(|n: usize| Json::uint(n as nat)));
    json_array(values)
}

} // verus!
