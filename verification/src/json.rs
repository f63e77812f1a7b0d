//! Reading JSON text with serde_json: whether a text is JSON, and the
//! members found at JSON Pointers (such as `/error/code`) in it.
//!
//! What serde_json reads takes pages to state, so it is named here; the
//! names depend on the text and the pointer alone.
use serde_json::Value;
use vstd::prelude::*;
use crate::argv::opt_view;

verus! {

/// A JSON value, carried through as it is.
#[verifier::external_type_specification]
#[verifier::external_body]
pub struct ExValue(Value);

/// Whether serde_json reads `text` as one JSON value.
pub uninterp spec fn json_text(text: Seq<char>) -> bool;

/// The message serde_json gives for `text` when it is not JSON.
pub uninterp spec fn json_error(text: Seq<char>) -> Seq<char>;

/// The value at the JSON Pointer `pointer` in the JSON text `text`, when
/// `json_has` says there is one.
pub uninterp spec fn json_value_at(text: Seq<char>, pointer: Seq<char>) -> Value;

/// Whether the JSON text `text` holds a value at the JSON Pointer `pointer`.
pub uninterp spec fn json_has(text: Seq<char>, pointer: Seq<char>) -> bool;

/// The string at the JSON Pointer `pointer` in the JSON text `text`, when
/// `text` is JSON and holds a string there.
pub uninterp spec fn json_str_at(text: Seq<char>, pointer: Seq<char>) -> Option<Seq<char>>;

/// The unsigned integer at the JSON Pointer `pointer` in the JSON text
/// `text`, when `text` is JSON and holds one that fits a `u64` there.
pub uninterp spec fn json_u64_at(text: Seq<char>, pointer: Seq<char>) -> Option<u64>;

/// The compact JSON text that serde_json writes for the value of the JSON
/// text `text`.
pub uninterp spec fn json_compact(text: Seq<char>) -> Seq<char>;

/// The JSON string literal that serde_json writes for `s`.
pub uninterp spec fn json_quoted(s: Seq<char>) -> Seq<char>;

/// JSON `null`.
pub open spec fn null_value() -> Value {
    json_value_at("null"@, Seq::<char>::empty())
}

/// The empty JSON object, `{}`.
pub open spec fn empty_object() -> Value {
    json_value_at("{}"@, Seq::<char>::empty())
}

/// `serde_json::from_str::<Value>`: the value that `text` holds (the whole
/// document, which `Value::pointer` finds at the empty pointer), or the
/// parser's message.
#[verifier::external_body]
pub fn json_parse(text: &str) -> (r: Result<Value, String>)
    ensures
        r is Ok <==> json_text(text@),
        r matches Ok(v) ==> v == json_value_at(text@, Seq::<char>::empty()),
        r matches Err(m) ==> m@ == json_error(text@),
{
    serde_json::from_str::<Value>(text).map_err(|err| err.to_string())
}

/// `Value::pointer` on the value of the JSON text `text`: the value found,
/// cloned.
#[verifier::external_body]
pub fn json_member(text: &str, pointer: &str) -> (r: Option<Value>)
    ensures
        r is Some <==> json_has(text@, pointer@),
        r matches Some(v) ==> v == json_value_at(text@, pointer@),
{
    match serde_json::from_str::<Value>(text) {
        Ok(value) => value.pointer(pointer).cloned(),
        Err(_) => None,
    }
}

/// `Value::pointer` on the value of the JSON text `text`, then
/// `Value::as_str`: the string found there.
#[verifier::external_body]
pub fn json_string(text: &str, pointer: &str) -> (r: Option<String>)
    ensures
        opt_view(r) == json_str_at(text@, pointer@),
{
    match serde_json::from_str::<Value>(text) {
        Ok(value) => value.pointer(pointer).and_then(Value::as_str).map(str::to_string),
        Err(_) => None,
    }
}

/// `Value::pointer` on the value of the JSON text `text`, then
/// `Value::as_u64`: the unsigned integer found there.
#[verifier::external_body]
pub fn json_u64(text: &str, pointer: &str) -> (r: Option<u64>)
    ensures
        r == json_u64_at(text@, pointer@),
{
    match serde_json::from_str::<Value>(text) {
        Ok(value) => value.pointer(pointer).and_then(Value::as_u64),
        Err(_) => None,
    }
}

/// The value of the JSON text `text` written back as compact JSON
/// (`Value`'s `Display`).
#[verifier::external_body]
pub fn json_compacted(text: &str) -> (r: Option<String>)
    ensures
        r is Some <==> json_text(text@),
        r matches Some(s) ==> s@ == json_compact(text@),
{
    serde_json::from_str::<Value>(text).ok().map(|value| value.to_string())
}

/// `s` written as a JSON string literal (`Value::String`'s `Display`).
#[verifier::external_body]
pub fn json_quote(s: &str) -> (r: String)
    ensures
        r@ == json_quoted(s@),
{
    Value::String(s.to_owned()).to_string()
}

/// `Value::Null`, the value of the JSON text `null`.
#[verifier::external_body]
pub fn json_null() -> (r: Value)
    ensures
        r == null_value(),
{
    Value::Null
}

/// An empty object (`Map::new`), the value of the JSON text `{}`.
#[verifier::external_body]
pub fn json_object() -> (r: Value)
    ensures
        r == empty_object(),
{
    Value::Object(serde_json::Map::new())
}

} // verus!
