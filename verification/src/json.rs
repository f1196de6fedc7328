//! JSON values as the gateway session reads and writes them.
//!
//! The values themselves are `serde_json::Value`s. Verus sees nothing inside
//! one, so this module gives each value a mathematical model, [`JsonModel`],
//! and states what the few `serde_json` operations used here do in terms of
//! it. Those statements are trusted, not proved; everything built on them is.

use vstd::prelude::*;

verus! {

#[verifier::external_type_specification]
#[verifier::external_body]
pub struct ExJsonValue(serde_json::Value);

/// What a JSON value holds, as far as this library reads it.
pub enum JsonModel {
    Null,
    Bool(bool),
    /// A number; `Some(n)` where it is a non-negative integer that fits 64 bits.
    Number(Option<u64>),
    Text(Seq<char>),
    Array(Seq<JsonModel>),
    Object(Map<Seq<char>, JsonModel>),
}

impl JsonModel {
    /// The member stored under `key`, where this is an object that has one.
    pub open spec fn member(self, key: Seq<char>) -> Option<JsonModel> {
        match self {
            JsonModel::Object(members) => if members.contains_key(key) {
                Some(members[key])
            } else {
                None
            },
            _ => None,
        }
    }

    /// The characters, where this is a string.
    pub open spec fn text(self) -> Option<Seq<char>> {
        match self {
            JsonModel::Text(chars) => Some(chars),
            _ => None,
        }
    }

    /// The value, where this is a number that is a non-negative 64-bit integer.
    pub open spec fn unsigned(self) -> Option<u64> {
        match self {
            JsonModel::Number(n) => n,
            _ => None,
        }
    }

    /// The elements, where this is an array.
    pub open spec fn items(self) -> Option<Seq<JsonModel>> {
        match self {
            JsonModel::Array(elements) => Some(elements),
            _ => None,
        }
    }

    /// The string stored under `key`, or the empty string where there is no
    /// such member or it is not a string.
    pub open spec fn text_of(self, key: Seq<char>) -> Seq<char> {
        match self.member(key) {
            Some(found) => match found.text() {
                Some(chars) => chars,
                None => Seq::empty(),
            },
            None => Seq::empty(),
        }
    }

    /// The non-negative integer stored under `key`, if there is one.
    pub open spec fn unsigned_of(self, key: Seq<char>) -> Option<u64> {
        match self.member(key) {
            Some(found) => found.unsigned(),
            None => None,
        }
    }
}

/// The model of a `serde_json::Value`: what the value holds.
pub uninterp spec fn json_model(value: serde_json::Value) -> JsonModel;

/// What `serde_json::from_str` makes of a text: the model of the value it
/// returns, or `None` where it reports an error.
pub uninterp spec fn json_parsed(text: Seq<char>) -> Option<JsonModel>;

/// The compact text that `serde_json` writes for a value.
pub uninterp spec fn json_rendered(value: serde_json::Value) -> Seq<char>;

/// The models of a sequence of values, element by element.
pub open spec fn models_of(values: Seq<serde_json::Value>) -> Seq<JsonModel> {
    Seq::new(values.len(), |i: int| json_model(values[i]))
}

/// Trusted: `serde_json::from_str::<Value>`. The outcome depends on the text
/// alone; an error of the parser is reported as `None`.
#[verifier::external_body]
pub(crate) fn parse_value(text: &str) -> (parsed: Option<serde_json::Value>)
    ensures
        match parsed {
            Some(value) => json_parsed(text@) == Some(json_model(value)),
            None => json_parsed(text@) is None,
        },
{
    serde_json::from_str::<serde_json::Value>(text).ok()
}

/// Trusted: `serde_json::Value::get` with a string index. It finds a member
/// only in an object, and only under a key the object holds.
#[verifier::external_body]
pub(crate) fn member<'a>(value: &'a serde_json::Value, key: &str) -> (found: Option<
    &'a serde_json::Value,
>)
    ensures
        match found {
            Some(inner) => json_model(*value).member(key@) == Some(json_model(*inner)),
            None => json_model(*value).member(key@) is None,
        },
{
    value.get(key)
}

/// Trusted: `serde_json::Value::as_str`. It yields the characters of a string
/// and nothing for any other value.
#[verifier::external_body]
pub(crate) fn as_text<'a>(value: &'a serde_json::Value) -> (text: Option<&'a str>)
    ensures
        match text {
            Some(chars) => json_model(*value).text() == Some(chars@),
            None => json_model(*value).text() is None,
        },
{
    value.as_str()
}

/// Trusted: `serde_json::Value::as_u64`. It yields a number that is a
/// non-negative integer within 64 bits and nothing for any other value.
#[verifier::external_body]
pub(crate) fn as_unsigned(value: &serde_json::Value) -> (number: Option<u64>)
    ensures
        number == json_model(*value).unsigned(),
{
    value.as_u64()
}

/// Trusted: `serde_json::Value::as_array`. It yields the elements of an array,
/// in order, and nothing for any other value.
#[verifier::external_body]
pub(crate) fn as_items<'a>(value: &'a serde_json::Value) -> (items: Option<
    &'a Vec<serde_json::Value>,
>)
    ensures
        match items {
            Some(elements) => json_model(*value).items() == Some(models_of(elements@)),
            None => json_model(*value).items() is None,
        },
{
    value.as_array()
}

/// Trusted: the variant `serde_json::Value::Null`.
#[verifier::external_body]
pub(crate) fn null_value() -> (value: serde_json::Value)
    ensures
        json_model(value) == JsonModel::Null,
{
    serde_json::Value::Null
}

/// Trusted: `serde_json::Value::from` on a `u64`, which makes a number that
/// reads back as the same integer.
#[verifier::external_body]
pub(crate) fn number_value(n: u64) -> (value: serde_json::Value)
    ensures
        json_model(value) == JsonModel::Number(Some(n)),
{
    serde_json::Value::from(n)
}

/// Trusted: `serde_json::Value::from` on a `&str`, which makes a string with
/// the same characters.
#[verifier::external_body]
pub(crate) fn text_value(chars: &str) -> (value: serde_json::Value)
    ensures
        json_model(value) == JsonModel::Text(chars@),
{
    serde_json::Value::from(chars)
}

/// Trusted: `serde_json::Map::new` inside `serde_json::Value::Object`: an
/// object without members.
#[verifier::external_body]
pub(crate) fn empty_object() -> (value: serde_json::Value)
    ensures
        json_model(value) == JsonModel::Object(Map::empty()),
{
    serde_json::Value::Object(serde_json::Map::new())
}

/// Trusted: `serde_json::Map::insert` on the map of an object. The member is
/// stored under `key`, in place of an earlier one under the same key.
#[verifier::external_body]
pub(crate) fn with_member(
    object: serde_json::Value,
    key: &str,
    inner: serde_json::Value,
) -> (value: serde_json::Value)
    requires
        json_model(object) is Object,
    ensures
        json_model(value) == JsonModel::Object(
            json_model(object)->Object_0.insert(key@, json_model(inner)),
        ),
{
    let mut object = object;
    if let serde_json::Value::Object(members) = &mut object {
        members.insert(key.to_owned(), inner);
    }
    object
}

/// Trusted: `to_string` of a `serde_json::Value`, its compact text. The text
/// depends on the value alone.
#[verifier::external_body]
pub(crate) fn render(value: &serde_json::Value) -> (text: String)
    ensures
        text@ == json_rendered(*value),
{
    value.to_string()
}

} // verus!
