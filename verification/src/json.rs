//! Trusted bridge to serde_json for reading manifest text.  Parsing is a
//! pure function of the text, so its outcome is named abstractly here and
//! the field policy (which fields are required, what absence means) lives
//! in verified code on top of these wrappers.

use vstd::prelude::*;

verus! {

#[verifier::external_type_specification]
#[verifier::external_body]
pub struct ExValue(serde_json::Value);

/// Whether serde_json parses this text at all.
pub uninterp spec fn json_parses(s: Seq<char>) -> bool;

/// The JSON value serde_json yields for this text (meaningful only when
/// `json_parses` holds of it).
pub uninterp spec fn json_value_of(s: Seq<char>) -> serde_json::Value;

/// The value under `key` of a JSON object, read as a string: `None` when
/// the object has no such key (or `v` is no object), `Some(None)` when
/// the key is present but its value is no string, `Some(Some(text))`
/// when it is the string `text`.
pub uninterp spec fn json_field_string(v: serde_json::Value, key: Seq<char>) -> Option<
    Option<Seq<char>>,
>;

/// The value under `key` of a JSON object, read as an array of strings,
/// with the same shape as `json_field_string`: the inner option is
/// `None` unless the value is an array whose elements are all strings.
pub uninterp spec fn json_field_strings(v: serde_json::Value, key: Seq<char>) -> Option<
    Option<Seq<Seq<char>>>,
>;

/// Relies on serde_json::from_str::<Value>: parsing is deterministic in
/// the text and succeeds exactly on well-formed JSON.
#[verifier::external_body]
pub(crate) fn parse_json(s: &str) -> (r: Option<serde_json::Value>)
    ensures
        r is Some <==> json_parses(s@),
        r matches Some(v) ==> v == json_value_of(s@),
{
    serde_json::from_str(s).ok()
}

/// Relies on serde_json::Value::get and Value::as_str: reads one field
/// of an object as a string, with presence and stringness reported
/// separately.
#[verifier::external_body]
pub(crate) fn get_string_field(v: &serde_json::Value, key: &str) -> (r: Option<Option<String>>)
    ensures
        r is Some <==> json_field_string(*v, key@) is Some,
        r matches Some(o) ==> {
            let jo = json_field_string(*v, key@)->0;
            &&& o is Some <==> jo is Some
            &&& o matches Some(text) ==> jo matches Some(jtext) && text@ == jtext
        },
{
    v.get(key).map(|x| x.as_str().map(|text| text.to_string()))
}

/// Relies on serde_json::Value::get, Value::as_array and Value::as_str:
/// reads one field of an object as an array of strings; the inner value
/// is absent unless every element is a string.
#[verifier::external_body]
pub(crate) fn get_strings_field(v: &serde_json::Value, key: &str) -> (r: Option<
    Option<Vec<String>>,
>)
    ensures
        r is Some <==> json_field_strings(*v, key@) is Some,
        r matches Some(o) ==> {
            let jo = json_field_strings(*v, key@)->0;
            &&& o is Some <==> jo is Some
            &&& o matches Some(texts) ==> jo matches Some(jtexts)
                && crate::paths::seq_views(texts@) == jtexts
        },
{
    v.get(key).map(
        |x|
            x.as_array().and_then(
                |a| a.iter().map(|e| e.as_str().map(|text| text.to_string())).collect(),
            ),
    )
}

} // verus!
