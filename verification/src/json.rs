//! JSON documents, read by `serde_json`.
//!
//! A parsed document is a `serde_json::Value`. The library does not look
//! inside one: it asks `serde_json` for what a value holds, and the functions
//! of this module name the answers.
use vstd::prelude::*;

verus! {

/// `serde_json::Value`, a parsed JSON document or a part of one, held without
/// looking inside.
#[verifier::external_type_specification]
#[verifier::external_body]
pub struct ExJsonValue(serde_json::Value);

/// The document that `serde_json` reads from a text, if it accepts the text.
pub uninterp spec fn json_document(text: Seq<u8>) -> Option<serde_json::Value>;

/// The member of a JSON object under a key; `None` for a value that is no
/// object and for an object without that key.
pub uninterp spec fn json_member(value: serde_json::Value, key: Seq<char>) -> Option<
    serde_json::Value,
>;

/// The elements of a JSON array; `None` for a value that is no array.
pub uninterp spec fn json_items(value: serde_json::Value) -> Option<Seq<serde_json::Value>>;

/// The characters of a JSON string; `None` for a value that is no string.
pub uninterp spec fn json_string(value: serde_json::Value) -> Option<Seq<char>>;

/// A JSON number that is a non-negative integer below two to the 64th;
/// `None` for every other value.
pub uninterp spec fn json_unsigned(value: serde_json::Value) -> Option<u64>;

/// The binary64 pattern of a JSON number; `None` for a value that is no number.
pub uninterp spec fn json_real(value: serde_json::Value) -> Option<u64>;

/// `serde_json::from_slice` at type `Value`: the document that the text
/// spells, or nothing where the text is not one JSON document. The same text
/// always gives the same document.
#[verifier::external_body]
pub(crate) fn parse_json(text: &[u8]) -> (r: Option<serde_json::Value>)
    ensures
        r == json_document(text@),
{
    serde_json::from_slice::<serde_json::Value>(text).ok()
}

/// `Value::get` with a string key: the member of an object under that key.
#[verifier::external_body]
pub(crate) fn value_member<'a>(value: &'a serde_json::Value, key: &str) -> (r: Option<
    &'a serde_json::Value,
>)
    ensures
        match json_member(*value, key@) {
            Some(m) => r matches Some(v) && *v == m,
            None => r is None,
        },
{
    value.get(key)
}

/// `Value::as_array`: the elements of an array, in order.
#[verifier::external_body]
pub(crate) fn value_items<'a>(value: &'a serde_json::Value) -> (r: Option<
    &'a Vec<serde_json::Value>,
>)
    ensures
        match json_items(*value) {
            Some(items) => r matches Some(v) && v@ == items,
            None => r is None,
        },
{
    value.as_array()
}

/// `Value::as_str`: the text of a string value.
#[verifier::external_body]
pub(crate) fn value_string<'a>(value: &'a serde_json::Value) -> (r: Option<&'a str>)
    ensures
        match json_string(*value) {
            Some(s) => r matches Some(v) && v@ == s,
            None => r is None,
        },
{
    value.as_str()
}

/// `Value::as_u64`: the number, where it is a non-negative integer that fits in 64 bits.
#[verifier::external_body]
pub(crate) fn value_unsigned(value: &serde_json::Value) -> (r: Option<u64>)
    ensures
        r == json_unsigned(*value),
{
    value.as_u64()
}

/// `Value::as_f64`: the number as a binary64 value, handed on as its bit pattern.
#[verifier::external_body]
pub(crate) fn value_real(value: &serde_json::Value) -> (r: Option<u64>)
    ensures
        r == json_real(*value),
{
    value.as_f64().map(|x| x.to_bits())
}

/// `Clone::clone` of a `Value`: an equal value.
#[verifier::external_body]
pub(crate) fn value_copy(value: &serde_json::Value) -> (r: serde_json::Value)
    ensures
        r == *value,
{
    value.clone()
}

} // verus!
