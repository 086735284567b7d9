//! The JSON codec: parse and stringify, through the outside JSON library.
//! The structured value itself is opaque here and passes through; this
//! module fixes when each call succeeds and how failures are reported.

use vstd::prelude::*;
use crate::error::UtilsError;

verus! {

/// The outside JSON library's structured value.
#[verifier::external_type_specification]
#[verifier::external_body]
pub struct ExJsonValue(serde_json::Value);

/// The outside JSON library's error.
#[verifier::external_type_specification]
#[verifier::external_body]
pub struct ExJsonError(serde_json::Error);

/// Whether the JSON library parses this text into a value: a fixed function
/// of the text alone, named rather than restated here.
pub uninterp spec fn json_parses(s: Seq<char>) -> bool;

/// Relies on `serde_json::from_str`: parses JSON text into a structured
/// value; whether it succeeds depends on the text alone.
#[verifier::external_body]
fn json_from_str(content: &str) -> (r: Result<serde_json::Value, serde_json::Error>)
    ensures
        r is Ok <==> json_parses(content@),
{
    serde_json::from_str::<serde_json::Value>(content)
}

/// The compact JSON text of a structured value: a fixed function of the
/// value alone, named rather than restated here.
pub uninterp spec fn json_line_of(v: serde_json::Value) -> Seq<char>;

/// The pretty-printed JSON text of a structured value: a fixed function of
/// the value alone, named rather than restated here.
pub uninterp spec fn json_pretty_of(v: serde_json::Value) -> Seq<char>;

/// Relies on `serde_json::to_string`: serializes a structured value as
/// compact JSON. Serializing a `serde_json::Value` cannot fail — its maps
/// have string keys and its `Serialize` never errors — and the compact
/// writer emits no raw newline (control characters in strings are escaped).
#[verifier::external_body]
fn json_to_string(value: &serde_json::Value) -> (r: Result<String, serde_json::Error>)
    ensures
        r is Ok,
        r matches Ok(s) ==> s@ == json_line_of(*value),
        r matches Ok(s) ==> forall|i: int| 0 <= i < s@.len() ==> s@[i] != '\n',
{
    serde_json::to_string(value)
}

/// Relies on `serde_json::to_string_pretty`: serializes a structured value
/// as pretty-printed, multi-line JSON. As with the compact form,
/// serializing a `serde_json::Value` cannot fail.
#[verifier::external_body]
fn json_to_string_pretty(value: &serde_json::Value) -> (r: Result<String, serde_json::Error>)
    ensures
        r is Ok,
        r matches Ok(s) ==> s@ == json_pretty_of(*value),
{
    serde_json::to_string_pretty(value)
}

/// Relies on `ToString` via the error's `Display`: the library's message
/// for a JSON error.
#[verifier::external_body]
fn json_error_text(e: &serde_json::Error) -> String {
    e.to_string()
}

/// Whether a structured value is a JSON object: a fixed property of the
/// value, named so that contracts can speak of it.
pub uninterp spec fn is_json_object(v: serde_json::Value) -> bool;

/// Relies on `serde_json::Value::is_object`: whether the value is a JSON
/// object.
pub assume_specification[ serde_json::Value::is_object ](v: &serde_json::Value) -> (r: bool)
    ensures
        r == is_json_object(*v),
;

/// Prefixes an error text with the failing function's namespace.
fn codec_error(prefix: &str, e: &serde_json::Error) -> (r: UtilsError)
    ensures
        r matches UtilsError::Codec(_),
        r.spec_message().take(prefix@.len() as int) == prefix@,
{
    let mut msg = prefix.to_owned();
    let text = json_error_text(e);
    msg.append(text.as_str());
    proof {
        assert(msg@.take(prefix@.len() as int) =~= prefix@);
    }
    UtilsError::Codec(msg)
}

/// Parses JSON text into a structured value: succeeds exactly when the
/// text is JSON the library accepts; a failure carries the library's
/// message under this function's namespace.
pub fn parse(content: &str) -> (r: Result<serde_json::Value, UtilsError>)
    ensures
        r is Ok <==> json_parses(content@),
        r matches Err(e) ==> (e matches UtilsError::Codec(_) && e.spec_message().take(25)
            == "utils.json.parse failed: "@),
{
    proof {
        reveal_strlit("utils.json.parse failed: ");
    }
    match json_from_str(content) {
        Ok(v) => Ok(v),
        Err(e) => Err(codec_error("utils.json.parse failed: ", &e)),
    }
}

/// Serializes a structured value as pretty-printed, multi-line JSON.
/// Serializing never fails for these values, and yields exactly the
/// library's pretty text.
pub fn stringify(value: &serde_json::Value) -> (r: Result<String, UtilsError>)
    ensures
        r is Ok,
        r matches Ok(s) ==> s@ == json_pretty_of(*value),
{
    proof {
        reveal_strlit("utils.json.stringify failed: ");
    }
    match json_to_string_pretty(value) {
        Ok(s) => Ok(s),
        Err(e) => Err(codec_error("utils.json.stringify failed: ", &e)),
    }
}

/// Serializes a structured value as a compact single line of JSON:
/// serializing never fails for these values, and yields exactly the
/// library's compact text, which holds no newline.
pub fn stringify_to_line(value: &serde_json::Value) -> (r: Result<String, UtilsError>)
    ensures
        r is Ok,
        r matches Ok(s) ==> s@ == json_line_of(*value),
        r matches Ok(s) ==> forall|i: int| 0 <= i < s@.len() ==> s@[i] != '\n',
{
    proof {
        reveal_strlit("utils.json.stringify failed: ");
    }
    match json_to_string(value) {
        Ok(s) => Ok(s),
        Err(e) => Err(codec_error("utils.json.stringify failed: ", &e)),
    }
}

} // verus!
