//! The crate's model of a parsed JSON document, and the trusted boundary
//! that obtains one from raw response bytes through `serde_json`.
//!
//! The decoder's logic reads every part of the parsed tree, so the tree is
//! held in a type of this crate's own; `serde_json` only turns bytes into
//! that tree. Numbers are carried with both readings the wire value admits
//! — as an exact 64-bit signed integer, and as the bit pattern of a 64-bit
//! float — so that the verified decoder itself makes the integer-or-float
//! decision.

use vstd::prelude::*;

verus! {

/// A parsed JSON value.
///
/// `Number` holds `as_int` exactly when the wire value is an integer that
/// fits in an `i64`, and `as_float_bits` (IEEE 754 bits) whenever the value
/// can be read as a 64-bit float. An object is an association list in the order
/// the parser hands its entries out, with keys unique.
pub enum Json {
    Null,
    Bool(bool),
    Number { as_int: Option<i64>, as_float_bits: Option<u64> },
    Text(String),
    Array(Vec<Json>),
    Object(Vec<(String, Json)>),
}

/// Declares `serde_json::Value` to the verifier; values of it are only
/// carried through the trusted conversion below, never read by verified
/// code.
#[verifier::external_type_specification]
#[verifier::external_body]
pub struct ExValue(serde_json::Value);

/// Declares `serde_json::Number` to the verifier, for the same purpose.
#[verifier::external_type_specification]
#[verifier::external_body]
pub struct ExNumber(serde_json::Number);

/// The JSON tree that `body` parses to, or `None` where `body` is not valid
/// JSON. The result is a function of the bytes alone.
pub uninterp spec fn json_of(body: Seq<u8>) -> Option<Json>;

/// Relies on `serde_json::from_slice::<serde_json::Value>`: parses the bytes
/// as one JSON document, a pure function of the bytes. The parsed tree is
/// mapped variant for variant onto [`Json`]; `json_of` names the composed
/// result.
#[verifier::external_body]
pub fn json_from_bytes(body: &[u8]) -> (r: Option<Json>)
    ensures
        r == json_of(body@),
{
    match serde_json::from_slice::<serde_json::Value>(body) {
        Ok(v) => Some(json_of_value(v)),
        Err(_) => None,
    }
}

/// Relies on `serde_json::Value`: its six variants are mapped one for one
/// onto [`Json`], moving the fields; this is the conversion half of
/// [`json_from_bytes`] and is called from nowhere else.
#[verifier::external_body]
fn json_of_value(v: serde_json::Value) -> Json {
    match v {
        serde_json::Value::Null => Json::Null,
        serde_json::Value::Bool(b) => Json::Bool(b),
        serde_json::Value::Number(n) => json_of_number(n),
        serde_json::Value::String(s) => Json::Text(s),
        serde_json::Value::Array(a) => Json::Array(a.into_iter().map(json_of_value).collect()),
        serde_json::Value::Object(o) => Json::Object(
            o.into_iter().map(|(k, x)| (k, json_of_value(x))).collect(),
        ),
    }
}

/// Relies on `serde_json::Number::as_i64` (`Some` exactly when the value is
/// an integer representable as `i64`) and `as_f64` (the value read as a
/// 64-bit float, where possible); both readings are carried into [`Json`].
#[verifier::external_body]
fn json_of_number(n: serde_json::Number) -> Json {
    Json::Number { as_int: n.as_i64(), as_float_bits: n.as_f64().map(|x| x.to_bits()) }
}

} // verus!
