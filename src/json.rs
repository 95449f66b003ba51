//! What the library relies on from serde_json, and the names of its results.
use vstd::prelude::*;

verus! {

/// serde_json's parsed JSON value; the library reads it only through the
/// accessors below.
#[verifier::external_type_specification]
#[verifier::external_body]
pub struct ExValue(serde_json::Value);

/// serde_json's error for text that is not JSON.
#[verifier::external_type_specification]
#[verifier::external_body]
pub struct ExError(serde_json::Error);

/// The value that serde_json parses from `text`, or `None` where serde_json
/// refuses `text`.
pub uninterp spec fn parsed_json(text: Seq<char>) -> Option<serde_json::Value>;

/// The items of `v` where `v` is a JSON array.
pub uninterp spec fn json_array(v: serde_json::Value) -> Option<Seq<serde_json::Value>>;

/// The member `key` of `v` where `v` is a JSON object that has it.
pub uninterp spec fn json_field(v: serde_json::Value, key: Seq<char>) -> Option<serde_json::Value>;

/// The text of `v` where `v` is a JSON string.
pub uninterp spec fn json_str(v: serde_json::Value) -> Option<Seq<char>>;

/// The number `v` where `v` is a JSON integer that fits in a `u64`.
pub uninterp spec fn json_u64(v: serde_json::Value) -> Option<u64>;

/// Relies on serde_json::from_str: parses `text` into a `Value`; the outcome
/// depends on `text` alone.
#[verifier::external_body]
pub(crate) fn parse_json(text: &str) -> (r: Result<serde_json::Value, serde_json::Error>)
    ensures
        match r {
            Ok(v) => parsed_json(text@) == Some(v),
            Err(_) => parsed_json(text@) is None,
        },
{
    serde_json::from_str::<serde_json::Value>(text)
}

/// Relies on serde_json::Value::as_array: the items of an array value.
pub assume_specification[ serde_json::Value::as_array ](v: &serde_json::Value) -> (r: Option<
    &Vec<serde_json::Value>,
>)
    ensures
        match r {
            Some(items) => json_array(*v) == Some(items@),
            None => json_array(*v) is None,
        },
;

/// Relies on serde_json::Value::as_str: the text of a string value.
pub assume_specification[ serde_json::Value::as_str ](v: &serde_json::Value) -> (r: Option<&str>)
    ensures
        match r {
            Some(s) => json_str(*v) == Some(s@),
            None => json_str(*v) is None,
        },
;

/// Relies on serde_json::Value::as_u64: an integer value that fits in a `u64`.
pub assume_specification[ serde_json::Value::as_u64 ](v: &serde_json::Value) -> (r: Option<u64>)
    ensures
        r == json_u64(*v),
;

/// Relies on serde_json::Value::get with a `&str` key: the member `key` of an
/// object value.
#[verifier::external_body]
pub(crate) fn field<'a>(v: &'a serde_json::Value, key: &str) -> (r: Option<&'a serde_json::Value>)
    ensures
        match r {
            Some(f) => json_field(*v, key@) == Some(*f),
            None => json_field(*v, key@) is None,
        },
{
    v.get(key)
}

} // verus!
