//! The two uses this crate makes of JSON, both done by `serde_json`.

use vstd::prelude::*;

verus! {

/// What `serde_json` finds under `name` in `document`: the text of that member
/// if `document` parses as one JSON value, that value is an object, and the
/// member `name` of it is a string; `None` in every other case.
pub uninterp spec fn json_text_member(document: Seq<u8>, name: Seq<char>) -> Option<Seq<char>>;

/// The bytes that `serde_json` writes for the object whose one member `name`
/// is the string `text`, or `None` if it reports an error.
pub uninterp spec fn json_single_member(name: Seq<char>, text: Seq<char>) -> Option<Seq<u8>>;

/// The text of an optional string.
pub open spec fn text_of(text: Option<String>) -> Option<Seq<char>> {
    match text {
        Some(t) => Some(t@),
        None => None,
    }
}

/// The bytes of an optional byte vector.
pub open spec fn bytes_of(bytes: Option<Vec<u8>>) -> Option<Seq<u8>> {
    match bytes {
        Some(b) => Some(b@),
        None => None,
    }
}

/// Parses `document` with `serde_json::from_slice` into a `serde_json::Value`
/// and reads the member `name` of it as a string (`value[name].as_str()`).
///
/// The contract only names the result: it is `json_text_member` of the same
/// bytes and name. A document that does not parse, a value that is no object,
/// a missing member and a member that is no string all give `None`.
#[verifier::external_body]
pub(crate) fn text_member(document: &[u8], name: &str) -> (r: Option<String>)
    ensures
        text_of(r) == json_text_member(document@, name@),
{
    match serde_json::from_slice::<serde_json::Value>(document) {
        Ok(value) => match value[name].as_str() {
            Some(text) => Some(text.to_string()),
            None => None,
        },
        Err(_) => None,
    }
}

/// Builds the JSON object `{ name: text }` as a `serde_json::Value` and writes
/// it with `serde_json::to_vec`.
///
/// The contract only names the result: it is `json_single_member` of the same
/// name and text, `None` standing for an error from `to_vec`.
#[verifier::external_body]
pub(crate) fn single_member(name: &str, text: &str) -> (r: Option<Vec<u8>>)
    ensures
        bytes_of(r) == json_single_member(name@, text@),
{
    let mut members = serde_json::Map::new();
    members.insert(name.to_string(), serde_json::Value::String(text.to_string()));
    match serde_json::to_vec(&serde_json::Value::Object(members)) {
        Ok(bytes) => Some(bytes),
        Err(_) => None,
    }
}

} // verus!
