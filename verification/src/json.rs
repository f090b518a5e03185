//! Structured message values and what is read out of them.

use serde_json::Value;
use vstd::prelude::*;

verus! {

/// `serde_json::Value`: a structured value, known here only by the tree it
/// holds.
#[verifier::external_type_specification]
#[verifier::external_body]
pub struct ExValue(Value);

/// `serde_json::Error`: why a text is no structured value, or why a value
/// could not be written. Nothing is known of it here.
#[verifier::external_type_specification]
#[verifier::external_body]
pub struct ExJsonError(serde_json::Error);

/// A structured value as a mathematical tree.
pub ghost enum Json {
    Null,
    Bool(bool),
    /// A number that is held as an integer.
    Integer(int),
    /// Any other number, by the bits of its binary representation.
    Real(u64),
    String(Seq<char>),
    Array(Seq<Json>),
    Object(Map<Seq<char>, Json>),
}

/// The tree that a structured value holds.
pub uninterp spec fn json_view(value: Value) -> Json;

/// The tree that the text `body` writes, where it is well-formed.
pub uninterp spec fn json_parse(body: Seq<u8>) -> Option<Json>;

/// The member `key` of an object; nothing for a missing key or for a value
/// that is no object.
pub open spec fn member(value: Json, key: Seq<char>) -> Option<Json> {
    match value {
        Json::Object(fields) => if fields.contains_key(key) {
            Some(fields[key])
        } else {
            None
        },
        _ => None,
    }
}

/// The text of a string value; nothing for any other value.
pub open spec fn string_of(value: Json) -> Option<Seq<char>> {
    match value {
        Json::String(text) => Some(text),
        _ => None,
    }
}

/// An integer value within the range of `i64`; nothing for any other value.
pub open spec fn integer_of(value: Json) -> Option<i64> {
    match value {
        Json::Integer(n) => if i64::MIN <= n <= i64::MAX {
            Some(n as i64)
        } else {
            None
        },
        _ => None,
    }
}

/// Calls `serde_json::from_slice` for a `Value`: the value that the bytes
/// write as JSON text, or an error where they write none. The result is a
/// function of the bytes alone.
#[verifier::external_body]
pub(crate) fn parse_value(body: &[u8]) -> (parsed: Result<Value, serde_json::Error>)
    ensures
        match parsed {
            Ok(value) => json_parse(body@) == Some(json_view(value)),
            Err(_) => json_parse(body@) is None,
        },
{
    serde_json::from_slice(body)
}

/// Calls `Value::get` with a string key: the member of that name where the
/// value is an object that has one, else nothing.
#[verifier::external_body]
pub(crate) fn value_get<'a>(value: &'a Value, key: &str) -> (found: Option<&'a Value>)
    ensures
        match found {
            Some(inner) => member(json_view(*value), key@) == Some(json_view(*inner)),
            None => member(json_view(*value), key@) is None,
        },
{
    value.get(key)
}

/// Calls `Value::as_str`: the text where the value is a string, else nothing.
#[verifier::external_body]
pub(crate) fn value_as_str(value: &Value) -> (text: Option<&str>)
    ensures
        match text {
            Some(s) => string_of(json_view(*value)) == Some(s@),
            None => string_of(json_view(*value)) is None,
        },
{
    value.as_str()
}

/// Calls `Value::as_i64`: the number where the value is an integer that
/// fits in `i64`, else nothing.
#[verifier::external_body]
pub(crate) fn value_as_i64(value: &Value) -> (number: Option<i64>)
    ensures
        number == integer_of(json_view(*value)),
{
    value.as_i64()
}

} // verus!
