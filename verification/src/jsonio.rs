//! The crate's view of structured JSON payloads. A response's `data`
//! is arbitrary JSON produced by the daemon, held as a
//! `serde_json::Value` and inspected only through the trusted probes
//! below; what each probe returns is named so contracts can speak of
//! it exactly.

use vstd::prelude::*;

verus! {

#[verifier::external_type_specification]
#[verifier::external_body]
pub struct ExValue(serde_json::Value);

/// The string content of `v`'s field `key`, when `v` is an object
/// whose `key` holds a JSON string.
pub uninterp spec fn json_str_field(v: serde_json::Value, key: Seq<char>) -> Option<Seq<char>>;

/// The boolean content of `v`'s field `key`, when it holds a JSON
/// boolean.
pub uninterp spec fn json_bool_field(v: serde_json::Value, key: Seq<char>) -> Option<bool>;

/// Whether `v` is an object with a field `key` (of any content,
/// `null` included).
pub uninterp spec fn json_has_field(v: serde_json::Value, key: Seq<char>) -> bool;

/// Whether `v` is an object whose field `key` is present and not
/// `null`.
pub uninterp spec fn json_nonnull_field(v: serde_json::Value, key: Seq<char>) -> bool;

/// The pretty-printed rendering of `v`'s field `key`.
pub uninterp spec fn json_field_pretty(v: serde_json::Value, key: Seq<char>) -> Seq<char>;

/// Relies on `serde_json::Value::get` and `Value::as_str`: the field's
/// text exactly when `v` is an object whose `key` holds a string.
#[verifier::external_body]
pub fn str_field(v: &serde_json::Value, key: &str) -> (r: Option<String>)
    ensures
        match r {
            Some(s) => json_str_field(*v, key@) == Some(s@),
            None => json_str_field(*v, key@) is None,
        },
{
    match v.get(key) {
        Some(x) => match x.as_str() {
            Some(s) => Some(s.to_owned()),
            None => None,
        },
        None => None,
    }
}

/// Relies on `serde_json::Value::get` and `Value::as_bool`: the
/// field's boolean exactly when `v` is an object whose `key` holds a
/// boolean.
#[verifier::external_body]
pub fn bool_field(v: &serde_json::Value, key: &str) -> (r: Option<bool>)
    ensures
        r == json_bool_field(*v, key@),
{
    match v.get(key) {
        Some(x) => x.as_bool(),
        None => None,
    }
}

/// Relies on `serde_json::Value::get`: whether the field exists at
/// all.
#[verifier::external_body]
pub fn has_field(v: &serde_json::Value, key: &str) -> (r: bool)
    ensures
        r == json_has_field(*v, key@),
{
    v.get(key).is_some()
}

/// Relies on `serde_json::Value::get`, `Value::is_null` and
/// `Value::clone`: the field's value when it is present and not
/// `null`.
#[verifier::external_body]
pub fn nonnull_field(v: &serde_json::Value, key: &str) -> (r: Option<serde_json::Value>)
    ensures
        (r is Some) == json_nonnull_field(*v, key@),
{
    match v.get(key) {
        Some(x) => if x.is_null() {
            None
        } else {
            Some(x.clone())
        },
        None => None,
    }
}

/// Relies on `serde_json::Value::get` and
/// `serde_json::to_string_pretty`: the field's pretty-printed text
/// when the field exists; serializing a `Value` cannot fail in
/// practice, and a failure falls back to empty text.
#[verifier::external_body]
pub fn field_pretty(v: &serde_json::Value, key: &str) -> (r: Option<String>)
    ensures
        (r is Some) == json_has_field(*v, key@),
        r matches Some(s) ==> s@ == json_field_pretty(*v, key@),
{
    match v.get(key) {
        Some(x) => match serde_json::to_string_pretty(x) {
            Ok(s) => Some(s),
            Err(_) => Some(String::new()),
        },
        None => None,
    }
}

/// Relies on `serde_json::Value::get`, `Value::is_null` and
/// `Value::as_str`: whether the field is absent, `null`, or a string
/// — the shapes the protocol allows for `error`.
#[verifier::external_body]
pub fn str_or_null_field(v: &serde_json::Value, key: &str) -> (r: bool)
    ensures
        r == json_str_or_null_field(*v, key@),
{
    match v.get(key) {
        Some(x) => x.is_null() || x.as_str().is_some(),
        None => true,
    }
}

/// Whether `v`'s field `key` is absent, `null`, or a JSON string.
pub uninterp spec fn json_str_or_null_field(v: serde_json::Value, key: Seq<char>) -> bool;

/// Whether the text is one valid JSON document.
pub uninterp spec fn text_parses(s: Seq<char>) -> bool;

/// The `success` boolean of the document the text parses to, when
/// the text parses and that field holds a boolean.
pub uninterp spec fn text_success(s: Seq<char>) -> Option<bool>;

/// The `error` string of the document the text parses to, when the
/// text parses and that field holds a string.
pub uninterp spec fn text_error(s: Seq<char>) -> Option<Seq<char>>;

/// Whether the parsed document's `error` field is absent, `null`, or
/// a string.
pub uninterp spec fn text_error_wf(s: Seq<char>) -> bool;

/// Whether the parsed document's `data` field is present and not
/// `null`.
pub uninterp spec fn text_data_nonnull(s: Seq<char>) -> bool;

/// Relies on `serde_json::from_str`: one JSON document parsed from the
/// text, or nothing when the text is not valid JSON. The parse and
/// the probed fields of its result depend on the text alone, which
/// the names above record.
#[verifier::external_body]
pub fn parse_json(s: &str) -> (r: Option<serde_json::Value>)
    ensures
        (r is Some) == text_parses(s@),
        r matches Some(v) ==> json_bool_field(v, "success"@) == text_success(s@),
        r matches Some(v) ==> json_str_field(v, "error"@) == text_error(s@),
        r matches Some(v) ==> json_str_or_null_field(v, "error"@) == text_error_wf(s@),
        r matches Some(v) ==> json_nonnull_field(v, "data"@) == text_data_nonnull(s@),
{
    match serde_json::from_str(s) {
        Ok(v) => Some(v),
        Err(_) => None,
    }
}

} // verus!
