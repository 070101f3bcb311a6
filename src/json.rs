//! Reading JSON values through `serde_json`.
//!
//! A `serde_json::Value` is opaque to the verifier. What it holds is named by
//! `json_of`, a mathematical model of the value, and every accessor used by
//! this library states its result over that model.
use vstd::arithmetic::power2::pow2;
use vstd::prelude::*;

verus! {

#[verifier::external_type_specification]
#[verifier::external_body]
pub struct ExValue(serde_json::Value);

#[verifier::external_type_specification]
#[verifier::external_body]
pub struct ExJsonError(serde_json::Error);

/// A JSON value as mathematics: numbers keep the three shapes that
/// `serde_json` keeps apart, a float being held by its IEEE-754 bits.
pub ghost enum JsonModel {
    Null,
    Bool(bool),
    PosInt(u64),
    NegInt(i64),
    Float(u64),
    Str(Seq<char>),
    Array(Seq<JsonModel>),
    Object(Map<Seq<char>, JsonModel>),
}

/// What a `serde_json::Value` holds.
pub uninterp spec fn json_of(v: serde_json::Value) -> JsonModel;

/// The value that `serde_json` parses from a text, if the text is JSON.
pub uninterp spec fn parsed_json(text: Seq<char>) -> Option<JsonModel>;

/// The compact text that `serde_json` writes for a value.
pub uninterp spec fn json_text(v: JsonModel) -> Seq<char>;

/// The integer that Rust's saturating `as u64` cast gives for the IEEE-754
/// double with these bits: the value cut toward zero, zero for a negative
/// value or a NaN, and `u64::MAX` from 2^64 on.
pub open spec fn float_bits_as_u64(bits: u64) -> u64 {
    let negative = bits >= 0x8000_0000_0000_0000;
    let exponent = (bits / 0x10_0000_0000_0000) % 0x800;
    let fraction = bits % 0x10_0000_0000_0000;
    let significand: int = fraction + 0x10_0000_0000_0000;
    if exponent == 0x7ff && fraction != 0 {
        0
    } else if negative || exponent < 1023 {
        0
    } else if exponent >= 1087 {
        u64::MAX
    } else if exponent >= 1075 {
        (significand * pow2((exponent - 1075) as nat) as int) as u64
    } else {
        (significand / pow2((1075 - exponent) as nat) as int) as u64
    }
}

/// Relies on `serde_json::from_str::<Value>`: it succeeds exactly on JSON
/// texts, and the value depends on the text alone.
#[verifier::external_body]
pub(crate) fn parse_json(text: &str) -> (r: Result<serde_json::Value, serde_json::Error>)
    ensures
        r is Ok <==> parsed_json(text@) is Some,
        r is Ok ==> parsed_json(text@) == Some(json_of(r->Ok_0)),
{
    serde_json::from_str::<serde_json::Value>(text)
}

/// Relies on `serde_json::to_string` on a `Value`: it writes into a `Vec`
/// and a `Value` has only string keys, so it succeeds; the text depends on
/// the value alone.
#[verifier::external_body]
pub(crate) fn write_json(v: &serde_json::Value) -> (r: Result<String, serde_json::Error>)
    ensures
        r is Ok,
        r->Ok_0@ == json_text(json_of(*v)),
{
    serde_json::to_string(v)
}

/// Relies on `serde_json::Value::get` with a string key: the member under
/// that key of an object, and nothing for any other value.
#[verifier::external_body]
pub(crate) fn member<'a>(v: &'a serde_json::Value, key: &str) -> (r: Option<&'a serde_json::Value>)
    ensures
        match json_of(*v) {
            JsonModel::Object(m) => match r {
                Some(x) => m.contains_key(key@) && m[key@] == json_of(*x),
                None => !m.contains_key(key@),
            },
            _ => r is None,
        },
{
    v.get(key)
}

/// Relies on `serde_json::Value::as_str`: the text of a string value.
#[verifier::external_body]
pub(crate) fn as_text<'a>(v: &'a serde_json::Value) -> (r: Option<&'a str>)
    ensures
        match json_of(*v) {
            JsonModel::Str(s) => r is Some && r->Some_0@ == s,
            _ => r is None,
        },
{
    v.as_str()
}

/// Relies on `serde_json::Value::is_object`.
#[verifier::external_body]
pub(crate) fn is_object(v: &serde_json::Value) -> (r: bool)
    ensures
        r == (json_of(*v) is Object),
{
    v.is_object()
}

/// Relies on `serde_json::Value::is_null`.
#[verifier::external_body]
pub(crate) fn is_null(v: &serde_json::Value) -> (r: bool)
    ensures
        r == (json_of(*v) is Null),
{
    v.is_null()
}

/// Relies on `serde_json::Value::as_u64`: a non-negative integer number.
#[verifier::external_body]
pub(crate) fn as_unsigned(v: &serde_json::Value) -> (r: Option<u64>)
    ensures
        match json_of(*v) {
            JsonModel::PosInt(n) => r == Some(n),
            _ => r is None,
        },
{
    v.as_u64()
}

/// Relies on `serde_json::Value::as_f64` followed by Rust's saturating
/// `as u64` cast: a negative number gives zero.
#[verifier::external_body]
pub(crate) fn float_as_unsigned(v: &serde_json::Value) -> (r: Option<u64>)
    ensures
        match json_of(*v) {
            JsonModel::NegInt(_) => r == Some(0u64),
            JsonModel::Float(bits) => r == Some(float_bits_as_u64(bits)),
            JsonModel::PosInt(_) => r is Some,
            _ => r is None,
        },
{
    v.as_f64().map(|x| x as u64)
}

} // verus!
