//! JSON values: reading a text into a value, and writing a string as JSON.

use vstd::prelude::*;

verus! {

#[verifier::external_type_specification]
#[verifier::external_body]
pub struct ExJsonValue(serde_json::Value);

/// A JSON value.
#[derive(Debug)]
pub enum Json {
    Null,
    Bool(bool),
    /// A number; its value, where it is a whole number from zero up that
    /// fits 64 bits.
    Number(Option<u64>),
    Text(String),
    Array(Vec<Json>),
    /// An object: its members, each under a key of its own.
    Object(Vec<(String, Json)>),
}

/// The JSON text that `serde_json::to_string` writes for a string: the
/// string between quotation marks, with what must be escaped escaped.
pub uninterp spec fn json_string_text(text: Seq<char>) -> Seq<char>;

/// The value that `serde_json::from_str` reads from a text, if the text is
/// JSON. Of a key that an object holds more than once, the last member
/// stays.
pub uninterp spec fn json_value(text: Seq<char>) -> Option<serde_json::Value>;

/// What a `serde_json::Value` holds.
pub uninterp spec fn json_shape(value: serde_json::Value) -> Json;

/// Calls `serde_json::to_string` on a string. The result is named by
/// `json_string_text`; writing a string cannot fail.
#[verifier::external_body]
fn json_string(text: &str) -> (json: Option<String>)
    ensures
        json is Some,
        json.unwrap()@ == json_string_text(text@),
{
    serde_json::to_string(text).ok()
}

/// Calls `serde_json::from_str` for a `serde_json::Value`. The result is
/// named by `json_value`.
#[verifier::external_body]
fn parse_value(text: &str) -> (value: Option<serde_json::Value>)
    ensures
        value == json_value(text@),
{
    serde_json::from_str(text).ok()
}

/// Tells the variants of a `serde_json::Value` apart and hands out what the
/// value holds, a number through `Number::as_u64`. The result is named by
/// `json_shape`.
#[verifier::external_body]
fn json_of(value: &serde_json::Value) -> (json: Json)
    ensures
        json == json_shape(*value),
{
    match value {
        serde_json::Value::Null => Json::Null,
        serde_json::Value::Bool(truth) => Json::Bool(*truth),
        serde_json::Value::Number(number) => Json::Number(number.as_u64()),
        serde_json::Value::String(text) => Json::Text(text.clone()),
        serde_json::Value::Array(items) => Json::Array(items.iter().map(json_of).collect()),
        serde_json::Value::Object(members) => Json::Object(
            members.iter().map(|(key, item)| (key.clone(), json_of(item))).collect(),
        ),
    }
}

/// The value that a text holds, if the text is JSON.
pub open spec fn json_of_text(text: Seq<char>) -> Option<Json> {
    match json_value(text) {
        Some(value) => Some(json_shape(value)),
        None => None,
    }
}

/// Reads a JSON text.
pub fn read_json(text: &str) -> (json: Option<Json>)
    ensures
        json == json_of_text(text@),
{
    match parse_value(text) {
        Some(value) => Some(json_of(&value)),
        None => None,
    }
}

/// Writes a string as JSON.
pub fn write_string(text: &str) -> (json: String)
    ensures
        json@ == json_string_text(text@),
{
    match json_string(text) {
        Some(json) => json,
        None => {
            assert(false);
            String::new()
        },
    }
}

} // verus!
