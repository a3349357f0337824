//! Manifest reading: a pack's `config.json` is parsed through serde_json
//! and reduced to the four recognized fields, with the documented defaults.
use vstd::prelude::*;
use vstd::string::StringExecFns;

use crate::errors::AppError;
use crate::models::PackManifest;

verus! {

/// `serde_json::Value` runs through the manifest logic as an opaque value.
#[verifier::external_type_specification]
#[verifier::external_body]
pub struct ExJsonValue(serde_json::Value);

/// Whether a text is well-formed JSON: a function of the text alone.
pub uninterp spec fn json_parses(text: Seq<char>) -> bool;

/// The value a well-formed JSON text parses to: a function of the text alone.
pub uninterp spec fn json_root(text: Seq<char>) -> serde_json::Value;

/// The string value of a field of a JSON value: `Some` exactly when the
/// value is an object, the key is present, and the field is a string.
pub uninterp spec fn json_str_field(v: serde_json::Value, key: Seq<char>) -> Option<Seq<char>>;

/// Relies on `serde_json::from_str::<Value>`: whether a text parses, and
/// what it parses to, depend on the text alone.
#[verifier::external_body]
fn parse_json(text: &str) -> (r: Result<serde_json::Value, String>)
    ensures
        r is Ok <==> json_parses(text@),
        r matches Ok(v) ==> v == json_root(text@),
{
    serde_json::from_str::<serde_json::Value>(text).map_err(|e| e.to_string())
}

/// Relies on `serde_json::Value::get` and `Value::as_str`: the string value
/// of an object's field depends on the value and the key alone.
#[verifier::external_body]
fn json_string_field(v: &serde_json::Value, key: &str) -> (r: Option<String>)
    ensures
        match r {
            Some(s) => json_str_field(*v, key@) == Some(s@),
            None => json_str_field(*v, key@) is None,
        },
{
    v.get(key).and_then(|f| f.as_str()).map(|s| s.to_string())
}

/// The pack name a manifest text yields: its `name` field, or the fallback.
pub open spec fn manifest_name(text: Seq<char>, fallback: Seq<char>) -> Seq<char> {
    match json_str_field(json_root(text), "name"@) {
        Some(n) => n,
        None => fallback,
    }
}

/// The version a manifest text yields: its `version` field, or `1.0.0`.
pub open spec fn manifest_version(text: Seq<char>) -> Seq<char> {
    match json_str_field(json_root(text), "version"@) {
        Some(v) => v,
        None => "1.0.0"@,
    }
}

/// The author a manifest text yields, if any.
pub open spec fn manifest_author(text: Seq<char>) -> Option<Seq<char>> {
    json_str_field(json_root(text), "author"@)
}

/// The description a manifest text yields, if any.
pub open spec fn manifest_description(text: Seq<char>) -> Option<Seq<char>> {
    json_str_field(json_root(text), "description"@)
}

/// Reduce a manifest text to its recognized fields. Succeeds exactly on
/// well-formed JSON; a missing `name` falls back to the caller's name (the
/// archive's base filename), a missing `version` to `1.0.0`. Unknown fields
/// are ignored.
pub fn parse_manifest(text: &str, fallback_name: &str) -> (r: Result<PackManifest, AppError>)
    ensures
        r is Ok <==> json_parses(text@),
        r matches Ok(m) ==> {
            &&& m.name@ == manifest_name(text@, fallback_name@)
            &&& m.version@ == manifest_version(text@)
            &&& match m.author {
                Some(a) => manifest_author(text@) == Some(a@),
                None => manifest_author(text@) is None,
            }
            &&& match m.description {
                Some(d) => manifest_description(text@) == Some(d@),
                None => manifest_description(text@) is None,
            }
        },
        r matches Err(e) ==> e matches AppError::Json(_),
{
    let v = match parse_json(text) {
        Ok(v) => v,
        Err(m) => {
            return Err(AppError::Json(m));
        },
    };
    let name = match json_string_field(&v, "name") {
        Some(n) => n,
        None => fallback_name.to_owned(),
    };
    let version = match json_string_field(&v, "version") {
        Some(x) => x,
        None => String::from_str("1.0.0"),
    };
    let author = json_string_field(&v, "author");
    let description = json_string_field(&v, "description");
    Ok(PackManifest { name, version, author, description })
}

} // verus!
