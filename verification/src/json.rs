//! Reading and writing JSON texts.
//!
//! What a JSON text says is told by the crate `serde_json`. Each function here hands plain values
//! to it and passes on, as plain values, what comes back; the result depends on nothing else.
use crate::text::text_option;
use vstd::prelude::*;

verus! {

/// Whether `serde_json` reads the text as a JSON object.
pub uninterp spec fn json_is_object(text: Seq<char>) -> bool;

/// The JSON text of the member `key` of the object that `serde_json` reads; `None` where the text
/// is not read as an object or the object has no such member.
pub uninterp spec fn json_member(text: Seq<char>, key: Seq<char>) -> Option<Seq<char>>;

/// Whether `serde_json` reads the text as `null`.
pub uninterp spec fn json_is_null(text: Seq<char>) -> bool;

/// The unsigned integer that `serde_json` reads, where it reads one.
pub uninterp spec fn json_u64(text: Seq<char>) -> Option<u64>;

/// The signed integer that `serde_json` reads, where it reads one.
pub uninterp spec fn json_i64(text: Seq<char>) -> Option<i64>;

/// The string that `serde_json` reads, where it reads one.
pub uninterp spec fn json_str(text: Seq<char>) -> Option<Seq<char>>;

/// The list of 32-bit integers that `serde_json` reads, where it reads one.
pub uninterp spec fn json_i32_list(text: Seq<char>) -> Option<Seq<i32>>;

/// The JSON text that `serde_json` writes for an object with the members `key` and `other_key`,
/// which are strings.
pub uninterp spec fn json_object_text(
    key: Seq<char>,
    value: Seq<char>,
    other_key: Seq<char>,
    other_value: Seq<char>,
) -> Seq<char>;

/// `serde_json` reads the text as an object whose member `key` is the string `value`.
pub open spec fn json_has_string(text: Seq<char>, key: Seq<char>, value: Seq<char>) -> bool {
    &&& json_member(text, key) is Some
    &&& json_str(json_member(text, key)->0) == Some(value)
}

/// The key of a member is an ordinary one. Keys that begin with `$` are left out: `serde_json`
/// reserves some of them for itself, and reads an object that begins with one in its own way.
pub open spec fn is_plain_key(key: Seq<char>) -> bool {
    key.len() > 0 && key[0] != '$'
}

/// Collects two members into a `serde_json::Map` and calls `Value::to_string`. Reading the text
/// gives back the members that were written, if both have ordinary keys and these differ.
#[verifier::external_body]
pub(crate) fn object_text(key: &str, value: &str, other_key: &str, other_value: &str) -> (r: String)
    requires
        is_plain_key(key@),
        is_plain_key(other_key@),
        key@ != other_key@,
    ensures
        r@ == json_object_text(key@, value@, other_key@, other_value@),
        json_has_string(r@, key@, value@),
        json_has_string(r@, other_key@, other_value@),
{
    let mut members: serde_json::Map<String, serde_json::Value> = serde_json::Map::new();
    members.insert(key.to_string(), serde_json::Value::String(value.to_string()));
    members.insert(other_key.to_string(), serde_json::Value::String(other_value.to_string()));
    serde_json::Value::Object(members).to_string()
}

/// Calls `serde_json::from_str` and `Value::is_object`. A text that is not JSON is no object.
#[verifier::external_body]
pub(crate) fn is_object(text: &str) -> (r: bool)
    ensures
        r == json_is_object(text@),
{
    serde_json::from_str::<serde_json::Value>(text).is_ok_and(|value| value.is_object())
}

/// Calls `serde_json::from_str`, `Value::get` with a key, and `Value::to_string`.
#[verifier::external_body]
pub(crate) fn member(text: &str, key: &str) -> (r: Option<String>)
    ensures
        text_option(r) == json_member(text@, key@),
{
    let value: serde_json::Value = serde_json::from_str(text).ok()?;
    value.get(key).map(|found| found.to_string())
}

/// Calls `serde_json::from_str` and `Value::is_null`.
#[verifier::external_body]
pub(crate) fn is_null(text: &str) -> (r: bool)
    ensures
        r == json_is_null(text@),
{
    serde_json::from_str::<serde_json::Value>(text).is_ok_and(|value| value.is_null())
}

/// Calls `serde_json::from_str` and `Value::as_u64`.
#[verifier::external_body]
pub(crate) fn as_u64(text: &str) -> (r: Option<u64>)
    ensures
        r == json_u64(text@),
{
    serde_json::from_str::<serde_json::Value>(text).ok()?.as_u64()
}

/// Calls `serde_json::from_str` and `Value::as_i64`.
#[verifier::external_body]
pub(crate) fn as_i64(text: &str) -> (r: Option<i64>)
    ensures
        r == json_i64(text@),
{
    serde_json::from_str::<serde_json::Value>(text).ok()?.as_i64()
}

/// Calls `serde_json::from_str` and `Value::as_str`.
#[verifier::external_body]
pub(crate) fn as_str(text: &str) -> (r: Option<String>)
    ensures
        text_option(r) == json_str(text@),
{
    serde_json::from_str::<serde_json::Value>(text).ok()?.as_str().map(|found| found.to_string())
}

pub open spec fn id_list_option(ids: Option<Vec<i32>>) -> Option<Seq<i32>> {
    match ids {
        Some(list) => Some(list@),
        None => None,
    }
}

/// Calls `serde_json::from_str`, and `serde_json::from_value` for a list of 32-bit integers.
#[verifier::external_body]
pub(crate) fn as_i32_list(text: &str) -> (r: Option<Vec<i32>>)
    ensures
        id_list_option(r) == json_i32_list(text@),
{
    let value: serde_json::Value = serde_json::from_str(text).ok()?;
    serde_json::from_value(value).ok()
}

} // verus!
