//! Trusted boundary to the JSON library. A document's fields are a function
//! of the text alone, so each read is named and the trusted wrappers tie
//! the names to the library; every schema decision is then made by verified
//! callers on the plain values the wrappers hand back.

use vstd::prelude::*;

verus! {

#[verifier::external_type_specification]
#[verifier::external_body]
pub struct ExValue(serde_json::Value);

/// Whether the JSON library accepts `text` as a well-formed document. The
/// answer depends on the text alone.
pub uninterp spec fn json_doc_ok(text: Seq<char>) -> bool;

/// The string at `key` of the document written in `text`: what parsing the
/// text and reading the key as a string yields, `None` when the text is
/// malformed, the document is not an object, the key is absent, or its
/// value is not a string. The answer depends on the text alone.
pub uninterp spec fn json_string_field_of(text: Seq<char>, key: Seq<char>) -> Option<Seq<char>>;

/// The `u64` at `key` of an already-parsed JSON value: `None` when the
/// value is not an object, the key is absent, or its value is not a number
/// representable as a `u64`.
pub uninterp spec fn json_u64_of(v: serde_json::Value, key: Seq<char>) -> Option<u64>;

/// Relies on `serde_json::from_str`: whether the text parses as JSON.
#[verifier::external_body]
pub(crate) fn json_well_formed(text: &str) -> (r: bool)
    ensures
        r == json_doc_ok(text@),
{
    serde_json::from_str::<serde_json::Value>(text).is_ok()
}

/// Relies on `serde_json::from_str`, `Value::get` and `Value::as_str`, in
/// one step: parses the text and reads the string at `key`.
#[verifier::external_body]
pub(crate) fn json_string_field(text: &str, key: &str) -> (r: Option<String>)
    ensures
        r.deep_view() == json_string_field_of(text@, key@),
{
    match serde_json::from_str::<serde_json::Value>(text) {
        Ok(v) => match v.get(key) {
            Some(f) => match f.as_str() {
                Some(s) => Some(s.to_owned()),
                None => None,
            },
            None => None,
        },
        Err(_) => None,
    }
}

/// Relies on `serde_json::Value::get` and `Value::as_u64`: reads the `u64`
/// at `key` of a JSON value.
#[verifier::external_body]
pub(crate) fn json_u64_field(v: &serde_json::Value, key: &str) -> (r: Option<u64>)
    ensures
        r == json_u64_of(*v, key@),
{
    match v.get(key) {
        Some(f) => f.as_u64(),
        None => None,
    }
}

} // verus!
