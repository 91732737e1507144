//! Reading a response body with `serde_json`.
//!
//! A record is an opaque JSON value: the library never looks inside one, it
//! only extracts the response envelope's `feed.entry` array and counts and
//! carries the records. What the extraction returns is a function of the
//! body text alone, so it is given a name that the paginator's contracts
//! speak of.

use vstd::prelude::*;

verus! {

#[verifier::external_type_specification]
#[verifier::external_body]
pub struct ExJsonValue(serde_json::Value);

#[verifier::external_type_specification]
#[verifier::external_body]
pub struct ExJsonError(serde_json::Error);

/// Whether `serde_json::from_str` accepts the text as a JSON document.
pub uninterp spec fn json_parses(text: Seq<char>) -> bool;

/// The records under the parsed document's `feed.entry` path: the array's
/// elements when that path holds an array, and nothing otherwise. Meaningful
/// where `json_parses` holds.
pub uninterp spec fn feed_entries_of(text: Seq<char>) -> Seq<serde_json::Value>;

/// Relies on `serde_json::from_str::<Value>`, `Value`'s indexing (which
/// yields `Null` for a missing key or a non-object) and `Value::as_array`:
/// parsing succeeds exactly when the text is a JSON document `from_str`
/// accepts, and the extracted records are a function of the text alone.
#[verifier::external_body]
pub(crate) fn parse_feed_entries(text: &str) -> (r: Result<
    Vec<serde_json::Value>,
    serde_json::Error,
>)
    ensures
        r is Ok <==> json_parses(text@),
        r matches Ok(entries) ==> entries@ == feed_entries_of(text@),
{
    let root: serde_json::Value = serde_json::from_str(text)?;
    let entries = match root["feed"]["entry"].as_array() {
        Some(array) => array.to_vec(),
        None => Vec::new(),
    };
    Ok(entries)
}

/// The given text wrapped as a JSON string value.
pub uninterp spec fn json_string_of(text: Seq<char>) -> serde_json::Value;

/// Relies on `serde_json::Value::String`: wraps the raw body text as a
/// single opaque JSON value, a function of the text alone.
#[verifier::external_body]
pub(crate) fn text_value(text: &str) -> (r: serde_json::Value)
    ensures
        r == json_string_of(text@),
{
    serde_json::Value::String(text.to_owned())
}

} // verus!
