//! JSON text, read and measured with serde_json.
use vstd::prelude::*;

use serde_json::Value as JsonDocument;

use crate::json::{JsonList, JsonMembers, JsonNumber, JsonValue};

verus! {

/// A document that serde_json parsed.
#[verifier::external_type_specification]
#[verifier::external_body]
pub struct ExJsonDocument(serde_json::Value);

/// The value that `serde_json::from_str::<Value>` reads from a text, as the
/// library models it; `None` when the text is not one JSON document.
pub uninterp spec fn json_text_value(text: Seq<char>) -> Option<JsonValue>;

/// The length in bytes of the text that `serde_json::to_string` writes for
/// a value.
pub uninterp spec fn json_serialized_len(v: JsonValue) -> usize;

/// A number that serde_json parsed.
#[verifier::external_type_specification]
#[verifier::external_body]
pub struct ExJsonNumber(serde_json::Number);

/// The library's view of a parsed number: its `i64` and `u64` values where
/// it has them, and its text.
#[verifier::external_body]
fn number_value(n: &serde_json::Number) -> JsonNumber {
    JsonNumber { signed: n.as_i64(), unsigned: n.as_u64(), text: n.to_string() }
}

/// The library's value for a parsed document, one variant for one.
#[verifier::external_body]
fn document_value(d: &JsonDocument) -> JsonValue {
    match d {
        JsonDocument::Null => JsonValue::Null,
        JsonDocument::Bool(b) => JsonValue::Bool(*b),
        JsonDocument::Number(n) => JsonValue::Number(number_value(n)),
        JsonDocument::String(s) => JsonValue::Str(s.clone()),
        JsonDocument::Array(a) => JsonValue::Array(a.iter().rev().fold(JsonList::Nil, |l, x| JsonList::Cons(Box::new(document_value(x)), Box::new(l)))),
        JsonDocument::Object(m) => JsonValue::Object(m.iter().rev().fold(JsonMembers::Nil, |l, (k, x)| JsonMembers::Cons(k.clone(), Box::new(document_value(x)), Box::new(l)))),
    }
}

/// The parsed document for a library value, one variant for one.
#[verifier::external_body]
fn value_document(v: &JsonValue) -> JsonDocument {
    match v {
        JsonValue::Null => JsonDocument::Null,
        JsonValue::Bool(b) => JsonDocument::Bool(*b),
        JsonValue::Number(n) => n.text.parse::<serde_json::Number>().map(JsonDocument::Number).unwrap_or(JsonDocument::Null),
        JsonValue::Str(s) => JsonDocument::String(s.clone()),
        JsonValue::Array(l) => JsonDocument::Array(list_documents(l)),
        JsonValue::Object(m) => JsonDocument::Object(member_documents(m).into_iter().collect()),
    }
}

/// The documents of a list's items, in order.
#[verifier::external_body]
fn list_documents(l: &JsonList) -> Vec<JsonDocument> {
    match l {
        JsonList::Nil => Vec::new(),
        JsonList::Cons(x, rest) => std::iter::once(value_document(x)).chain(list_documents(rest)).collect(),
    }
}

/// The documents of an object's members, in order.
#[verifier::external_body]
fn member_documents(m: &JsonMembers) -> Vec<(String, JsonDocument)> {
    match m {
        JsonMembers::Nil => Vec::new(),
        JsonMembers::Cons(k, x, rest) => std::iter::once((k.clone(), value_document(x))).chain(member_documents(rest)).collect(),
    }
}

/// `serde_json::from_str::<Value>`: the document a text holds, as named by
/// `json_text_value`; the parser's message when it holds none.
#[verifier::external_body]
pub(crate) fn parse_json(text: &str) -> (r: Result<JsonValue, String>)
    ensures
        match r {
            Ok(v) => json_text_value(text@) == Some(v),
            Err(_) => json_text_value(text@) is None,
        },
{
    serde_json::from_str::<JsonDocument>(text).map(|d| document_value(&d)).map_err(|e| e.to_string())
}

/// `serde_json::to_string(value).len()`: the length of a value's JSON text,
/// as named by `json_serialized_len`.
#[verifier::external_body]
pub(crate) fn json_text_len(v: &JsonValue) -> (n: usize)
    ensures
        n == json_serialized_len(*v),
{
    serde_json::to_string(&value_document(v)).map(|t| t.len()).unwrap_or(0)
}

} // verus!
