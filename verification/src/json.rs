//! What is asked of JSON documents, and answered by `serde_json`.
//!
//! Nothing in this module is proved. Each function hands a question to
//! `serde_json` and gives its answer a name, so that the contracts of the
//! functions that build on it can say exactly which answer they use.

use vstd::prelude::*;

verus! {

/// Whether `document` is a JSON document.
pub uninterp spec fn json_is_valid(document: Seq<char>) -> bool;

/// The text that the JSON object `document` holds under `field`; `None`
/// if `document` is no JSON object, or holds nothing or no text there.
pub uninterp spec fn json_text_of(document: Seq<char>, field: Seq<char>) -> Option<Seq<char>>;

/// The whole number from 0 to 2^64 - 1 that the JSON object `document`
/// holds under `field`; `None` if it holds no such number there.
pub uninterp spec fn json_count_of(document: Seq<char>, field: Seq<char>) -> Option<u64>;

/// The number that the JSON object `document` holds under `field`, as
/// `serde_json` writes it; `None` if it holds no number there.
pub uninterp spec fn json_number_of(document: Seq<char>, field: Seq<char>) -> Option<Seq<char>>;

/// `text` written as a JSON string, quotes and escapes included.
pub uninterp spec fn json_quoted(text: Seq<char>) -> Seq<char>;

/// Parses `document` with `serde_json::from_str` and says whether that
/// succeeded. The parser reads nothing but the text.
#[verifier::external_body]
pub(crate) fn is_valid(document: &str) -> (valid: bool)
    ensures
        valid == json_is_valid(document@),
{
    serde_json::from_str::<serde_json::Value>(document).is_ok()
}

/// Parses `document` with `serde_json::from_str`, looks `field` up with
/// `Value::get` and hands out the text if a string was found.
#[verifier::external_body]
pub(crate) fn text_field(document: &str, field: &str) -> (text: Option<String>)
    ensures
        match text {
            Some(t) => json_text_of(document@, field@) == Some(t@),
            None => json_text_of(document@, field@) is None,
        },
{
    match serde_json::from_str::<serde_json::Value>(document) {
        Ok(value) => match value.get(field) {
            Some(serde_json::Value::String(text)) => Some(text.clone()),
            _ => None,
        },
        Err(_) => None,
    }
}

/// Parses `document` with `serde_json::from_str`, looks `field` up with
/// `Value::get` and hands out what `Value::as_u64` finds there.
#[verifier::external_body]
pub(crate) fn count_field(document: &str, field: &str) -> (count: Option<u64>)
    ensures
        count == json_count_of(document@, field@),
{
    match serde_json::from_str::<serde_json::Value>(document) {
        Ok(value) => match value.get(field) {
            Some(found) => found.as_u64(),
            None => None,
        },
        Err(_) => None,
    }
}

/// Parses `document` with `serde_json::from_str`, looks `field` up with
/// `Value::get` and, if a number was found, hands it out as its `Display`
/// writes it.
#[verifier::external_body]
pub(crate) fn number_field(document: &str, field: &str) -> (number: Option<String>)
    ensures
        match number {
            Some(n) => json_number_of(document@, field@) == Some(n@),
            None => json_number_of(document@, field@) is None,
        },
{
    match serde_json::from_str::<serde_json::Value>(document) {
        Ok(value) => match value.get(field) {
            Some(serde_json::Value::Number(number)) => Some(number.to_string()),
            _ => None,
        },
        Err(_) => None,
    }
}

/// Writes `text` as a JSON string, as the `Display` of a
/// `serde_json::Value::String` does.
#[verifier::external_body]
pub(crate) fn quote(text: &str) -> (quoted: String)
    ensures
        quoted@ == json_quoted(text@),
{
    serde_json::Value::String(text.to_string()).to_string()
}

} // verus!
