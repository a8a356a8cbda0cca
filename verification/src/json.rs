//! JSON documents, as the `serde_json` crate reads them.
//!
//! A document is a value of that crate, carried through as it is. What the
//! crate finds in a value has a name here, one per question that is asked
//! of it; the answers depend on the value alone.

use vstd::prelude::*;
use vstd::string::*;

verus! {

/// `serde_json::Value`, a JSON document or a part of one.
#[verifier::external_type_specification]
#[verifier::external_body]
pub struct ExJsonValue(serde_json::Value);

/// The document that a text is, if it is one.
pub uninterp spec fn json_parse(text: Seq<char>) -> Option<serde_json::Value>;

/// The member of an object under a key. A value that is no object has none.
pub uninterp spec fn json_member(value: serde_json::Value, key: Seq<char>) -> Option<
    serde_json::Value,
>;

/// The elements of an array. A value that is no array has none.
pub uninterp spec fn json_items(value: serde_json::Value) -> Option<Seq<serde_json::Value>>;

/// The text of a string. A value that is no string has none.
pub uninterp spec fn json_text(value: serde_json::Value) -> Option<Seq<char>>;

/// A number as an unsigned integer, if it is one that fits 64 bits. A value
/// that is no number has none.
pub uninterp spec fn json_number(value: serde_json::Value) -> Option<u64>;

/// Whether a value is an object.
pub uninterp spec fn json_is_object(value: serde_json::Value) -> bool;

/// Reads a text with `serde_json::from_str`. The result is the named value
/// `json_parse` of the text; a text that is no document gives none.
#[verifier::external_body]
pub(crate) fn parse(text: &str) -> (r: Option<serde_json::Value>)
    ensures
        r == json_parse(text@),
{
    serde_json::from_str::<serde_json::Value>(text).ok()
}

/// Looks a key up with `serde_json::Value::get`. The result is the named
/// value `json_member` of value and key.
#[verifier::external_body]
pub(crate) fn member<'a>(value: &'a serde_json::Value, key: &str) -> (r: Option<
    &'a serde_json::Value,
>)
    ensures
        match r {
            Some(m) => json_member(*value, key@) == Some(*m),
            None => json_member(*value, key@) is None,
        },
{
    value.get(key)
}

/// The elements of an array, with `serde_json::Value::as_array`. The result
/// is the named value `json_items` of the value.
#[verifier::external_body]
pub(crate) fn items<'a>(value: &'a serde_json::Value) -> (r: Option<&'a Vec<serde_json::Value>>)
    ensures
        match r {
            Some(list) => json_items(*value) == Some(list@),
            None => json_items(*value) is None,
        },
{
    value.as_array()
}

/// The text of a string, with `serde_json::Value::as_str`. The result is
/// the named value `json_text` of the value.
#[verifier::external_body]
pub(crate) fn text<'a>(value: &'a serde_json::Value) -> (r: Option<&'a str>)
    ensures
        match r {
            Some(t) => json_text(*value) == Some(t@),
            None => json_text(*value) is None,
        },
{
    value.as_str()
}

/// A number as an unsigned integer, with `serde_json::Value::as_u64`. The
/// result is the named value `json_number` of the value.
#[verifier::external_body]
pub(crate) fn number(value: &serde_json::Value) -> (r: Option<u64>)
    ensures
        r == json_number(*value),
{
    value.as_u64()
}

/// Whether a value is an object, with `serde_json::Value::is_object`. The
/// result is the named value `json_is_object` of the value.
#[verifier::external_body]
pub(crate) fn is_object(value: &serde_json::Value) -> (r: bool)
    ensures
        r == json_is_object(*value),
{
    value.is_object()
}

/// The text under a key: the member, if it is a string.
pub open spec fn text_member(value: serde_json::Value, key: Seq<char>) -> Option<Seq<char>> {
    match json_member(value, key) {
        Some(m) => json_text(m),
        None => None,
    }
}

/// The elements under a key: the member, if it is an array.
pub open spec fn items_member(value: serde_json::Value, key: Seq<char>) -> Option<
    Seq<serde_json::Value>,
> {
    match json_member(value, key) {
        Some(m) => json_items(m),
        None => None,
    }
}

/// The number under a key: the member, if it is an unsigned integer.
pub open spec fn number_member(value: serde_json::Value, key: Seq<char>) -> Option<u64> {
    match json_member(value, key) {
        Some(m) => json_number(m),
        None => None,
    }
}

/// The text under a key.
pub fn get_text<'a>(value: &'a serde_json::Value, key: &str) -> (r: Option<&'a str>)
    ensures
        match r {
            Some(t) => text_member(*value, key@) == Some(t@),
            None => text_member(*value, key@) is None,
        },
{
    match member(value, key) {
        Some(m) => text(m),
        None => None,
    }
}

/// The elements under a key.
pub fn get_items<'a>(value: &'a serde_json::Value, key: &str) -> (r: Option<
    &'a Vec<serde_json::Value>,
>)
    ensures
        match r {
            Some(list) => items_member(*value, key@) == Some(list@),
            None => items_member(*value, key@) is None,
        },
{
    match member(value, key) {
        Some(m) => items(m),
        None => None,
    }
}

/// The number under a key.
pub fn get_number(value: &serde_json::Value, key: &str) -> (r: Option<u64>)
    ensures
        r == number_member(*value, key@),
{
    match member(value, key) {
        Some(m) => number(m),
        None => None,
    }
}

} // verus!
