//! The boundary to `serde_json`: the mathematical value of a JSON document,
//! and the contract of each call that reads one.
//!
//! Nothing in this file is proved. A document is parsed by `serde_json` and
//! stays a `serde_json::Value`, which the verifier cannot look into. The
//! decoder reads it through the five calls below and through no other; what
//! each returns is stated over [`contents`], the value that the document
//! stands for.

use vstd::prelude::*;

verus! {

/// The mathematical value of a JSON document.
pub ghost enum Json {
    Null,
    Bool(bool),
    /// A number. `integer` is the number itself where `serde_json` holds it
    /// as an integer within the 64-bit signed range, and `None` otherwise;
    /// `bits` is the pattern of the number as a binary64 number.
    Number { integer: Option<i64>, bits: u64 },
    Text(Seq<char>),
    Array(Seq<Json>),
    Object(Map<Seq<char>, Json>),
}

/// `serde_json::Value`: a parsed JSON document. Opaque to the verifier.
#[verifier::external_type_specification]
#[verifier::external_body]
pub struct ExValue(serde_json::Value);

/// `serde_json::Error`: why a text is not JSON. Opaque to the verifier.
#[verifier::external_type_specification]
#[verifier::external_body]
pub struct ExError(serde_json::Error);

/// What a `serde_json::Value` holds.
pub uninterp spec fn contents(v: serde_json::Value) -> Json;

/// What `serde_json::from_slice` reads from `bytes`: the document, or `None`
/// where it rejects them.
pub uninterp spec fn parsed(bytes: Seq<u8>) -> Option<Json>;

/// `serde_json::from_slice`, reading one `serde_json::Value`: the whole of
/// `bytes` is one JSON document, or the call fails. The outcome depends on the
/// bytes alone.
#[verifier::external_body]
pub(crate) fn parse_value(bytes: &[u8]) -> (out: Result<serde_json::Value, serde_json::Error>)
    ensures
        match out {
            Ok(v) => parsed(bytes@) == Some(contents(v)),
            Err(_) => parsed(bytes@) is None,
        },
{
    serde_json::from_slice::<serde_json::Value>(bytes)
}

/// `serde_json::Value::as_array`: the vector inside an array, element for
/// element; `None` for every other value.
pub assume_specification[ serde_json::Value::as_array ](v: &serde_json::Value) -> (out: Option<
    &Vec<serde_json::Value>,
>)
    ensures
        match contents(*v) {
            Json::Array(items) => out matches Some(found) && found@.len() == items.len()
                && forall|i: int|
                0 <= i < items.len() ==> contents(#[trigger] found@[i]) == items[i],
            _ => out is None,
        },
;

/// `serde_json::Value::get` with a text key: the member of an object under
/// that key; `None` where the object has no such key, and for every value
/// that is no object.
#[verifier::external_body]
pub(crate) fn value_member<'a>(v: &'a serde_json::Value, key: &str) -> (out: Option<
    &'a serde_json::Value,
>)
    ensures
        match contents(*v) {
            Json::Object(members) => if members.contains_key(key@) {
                out matches Some(found) && contents(*found) == members[key@]
            } else {
                out is None
            },
            _ => out is None,
        },
{
    v.get(key)
}

/// `serde_json::Value::as_i64`: the integer that a number is, `None` for a
/// number that is held as no integer or lies beyond the 64-bit signed range,
/// and for every value that is no number.
pub assume_specification[ serde_json::Value::as_i64 ](v: &serde_json::Value) -> (out: Option<i64>)
    ensures
        match contents(*v) {
            Json::Number { integer, .. } => out == integer,
            _ => out is None,
        },
;

/// `serde_json::Value::as_str`: the text inside a string; `None` for every
/// other value.
pub assume_specification[ serde_json::Value::as_str ](v: &serde_json::Value) -> (out: Option<&str>)
    ensures
        match contents(*v) {
            Json::Text(s) => out matches Some(found) && found@ == s,
            _ => out is None,
        },
;

/// `serde_json::Value::as_f64`, then `f64::to_bits`: the pattern of a number
/// as a binary64 number, which every number has; `None` for every value that
/// is no number.
#[verifier::external_body]
pub(crate) fn value_number_bits(v: &serde_json::Value) -> (out: Option<u64>)
    ensures
        match contents(*v) {
            Json::Number { bits, .. } => out == Some(bits),
            _ => out is None,
        },
{
    v.as_f64().map(|x| x.to_bits())
}

} // verus!
