//! JSON as a tree of plain values.
//!
//! The parser is `serde_json`; this module says what a parsed value holds
//! and reads it member by member.

use vstd::prelude::*;
use serde_json::Value;

verus! {

/// What a JSON value holds.
pub enum JsonView {
    /// `null`.
    Null,
    /// `true` or `false`.
    Bool(bool),
    /// A number: itself where it is an unsigned integer of 64 bits.
    Number(Option<u64>),
    /// A string.
    Text(Seq<char>),
    /// An array: its items in order.
    Array(Seq<JsonView>),
    /// An object: its members by name.
    Object(Map<Seq<char>, JsonView>),
}

#[verifier::external_type_specification]
#[verifier::external_body]
pub struct ExValue(Value);

/// What `value` holds.
pub uninterp spec fn json_value(value: &Value) -> JsonView;

/// What the bytes hold when they are read as one JSON document, or the
/// reason why they are none.
pub uninterp spec fn json_document(data: Seq<u8>) -> Result<JsonView, Seq<char>>;

/// `serde_json::from_slice` into a `Value`, with the error as its message.
///
/// Trusted: the outcome is a function of the bytes.
#[verifier::external_body]
pub(crate) fn from_slice(data: &[u8]) -> (r: Result<Value, String>)
    ensures
        match r {
            Ok(value) => json_document(data@) == Ok::<JsonView, Seq<char>>(json_value(&value)),
            Err(message) => json_document(data@) == Err::<JsonView, Seq<char>>(message@),
        },
{
    serde_json::from_slice::<Value>(data).map_err(|e| e.to_string())
}

/// `serde_json::Value::get` with a name.
///
/// Trusted: an object gives the member of that name where it has one, and
/// there is no member otherwise.
#[verifier::external_body]
pub(crate) fn get<'a>(value: &'a Value, key: &str) -> (found: Option<&'a Value>)
    ensures
        match found {
            Some(inner) => member(json_value(value), key@) == Some(json_value(inner)),
            None => member(json_value(value), key@) is None,
        },
{
    value.get(key)
}

/// `serde_json::Value::as_str`.
///
/// Trusted: a string gives its text, and nothing else gives any.
#[verifier::external_body]
pub(crate) fn as_str<'a>(value: &'a Value) -> (text: Option<&'a str>)
    ensures
        match text {
            Some(s) => json_value(value) == JsonView::Text(s@),
            None => !(json_value(value) is Text),
        },
{
    value.as_str()
}

/// `serde_json::Value::as_array`.
///
/// Trusted: an array gives its items in order, and nothing else gives any.
#[verifier::external_body]
pub(crate) fn as_array<'a>(value: &'a Value) -> (list: Option<&'a Vec<Value>>)
    ensures
        match list {
            Some(items) => json_value(value) is Array && json_value(value)->Array_0.len()
                == items@.len() && forall|i: int|
                0 <= i < items@.len() ==> json_value(&#[trigger] items@[i]) == json_value(
                    value,
                )->Array_0[i],
            None => !(json_value(value) is Array),
        },
{
    value.as_array()
}

/// `serde_json::Value::as_u64`.
///
/// Trusted: a number that is an unsigned integer of 64 bits gives itself,
/// and nothing else gives a number.
#[verifier::external_body]
pub(crate) fn as_u64(value: &Value) -> (number: Option<u64>)
    ensures
        number == unsigned(json_value(value)),
{
    value.as_u64()
}

/// The member `key` of an object.
pub open spec fn member(value: JsonView, key: Seq<char>) -> Option<JsonView> {
    match value {
        JsonView::Object(members) => if members.dom().contains(key) {
            Some(members[key])
        } else {
            None
        },
        _ => None,
    }
}

/// The number that a value is, where it is an unsigned integer.
pub open spec fn unsigned(value: JsonView) -> Option<u64> {
    match value {
        JsonView::Number(n) => n,
        _ => None,
    }
}

/// The text of the member `key`, where it is a string.
pub open spec fn text_member(value: JsonView, key: Seq<char>) -> Option<Seq<char>> {
    match member(value, key) {
        Some(JsonView::Text(text)) => Some(text),
        _ => None,
    }
}

/// The items of the member `key`, where it is an array.
pub open spec fn list_member(value: JsonView, key: Seq<char>) -> Option<Seq<JsonView>> {
    match member(value, key) {
        Some(JsonView::Array(items)) => Some(items),
        _ => None,
    }
}

/// The number of the member `key`, where it is an unsigned integer.
pub open spec fn number_member(value: JsonView, key: Seq<char>) -> Option<u64> {
    match member(value, key) {
        Some(inner) => unsigned(inner),
        None => None,
    }
}

/// The text of the member `key`, where it is a string.
pub fn get_text(value: &Value, key: &str) -> (text: Option<String>)
    ensures
        text.deep_view() == text_member(json_value(value), key@),
{
    match get(value, key) {
        Some(inner) => match as_str(inner) {
            Some(s) => Some(s.to_owned()),
            None => None,
        },
        None => None,
    }
}

/// The text of a value, where it is a string.
pub fn get_string(value: &Value) -> (text: Option<String>)
    ensures
        match text {
            Some(s) => json_value(value) == JsonView::Text(s@),
            None => !(json_value(value) is Text),
        },
{
    match as_str(value) {
        Some(s) => Some(s.to_owned()),
        None => None,
    }
}

/// The number of the member `key`, where it is an unsigned integer.
pub fn get_number(value: &Value, key: &str) -> (number: Option<u64>)
    ensures
        number == number_member(json_value(value), key@),
{
    match get(value, key) {
        Some(inner) => as_u64(inner),
        None => None,
    }
}

/// `serde_json::Value::is_object`.
///
/// Trusted: it tells objects from everything else.
#[verifier::external_body]
pub(crate) fn is_an_object(value: &Value) -> (is: bool)
    ensures
        is == json_value(value) is Object,
{
    value.is_object()
}

} // verus!
