//! The JSON boundary.
//!
//! Parsing bytes into a JSON tree is delegated to `serde_json`; everything
//! past the parse works on [`JsonValue`], a tree of plain values owned by
//! this crate. What the parser returns for given bytes is named by the
//! uninterpreted function [`parsed_json`]; the decoding logic itself is
//! verified against the tree, whatever the parser produced.

use vstd::prelude::*;

verus! {

/// A JSON document value, as a tree of plain values.
#[derive(Debug)]
pub enum JsonValue {
    /// The JSON `null` value.
    Null,
    /// A JSON boolean.
    Bool(bool),
    /// A JSON number representable as a 64-bit signed integer.
    Int(i64),
    /// Any other JSON number, as the bits of its double representation.
    Float(u64),
    /// A JSON string.
    Text(String),
    /// A JSON array, in document order.
    Arr(Vec<JsonValue>),
    /// A JSON object, one entry per distinct key.
    Obj(Vec<(String, JsonValue)>),
}

#[verifier::external_type_specification]
#[verifier::external_body]
pub struct ExSerdeJsonValue(serde_json::Value);

/// What the JSON parser returns for the given bytes, translated to a
/// [`JsonValue`] tree: `None` when the bytes are not one valid JSON
/// document. Parsing is a function of the bytes alone.
pub uninterp spec fn parsed_json(bytes: Seq<u8>) -> Option<JsonValue>;

/// Relies on the recursive structure of `serde_json::Value`: each node of
/// the parsed tree is carried over to [`JsonValue`] one for one, a number
/// becoming `Int` exactly when `Number::as_i64` reads it as one. Called
/// only from [`parse_json`], whose contract speaks for the composition.
#[verifier::external_body]
fn json_value_of(v: serde_json::Value) -> JsonValue {
    match v {
        serde_json::Value::Null => JsonValue::Null,
        serde_json::Value::Bool(b) => JsonValue::Bool(b),
        serde_json::Value::Number(n) => match n.as_i64() {
            Some(i) => JsonValue::Int(i),
            None => JsonValue::Float(n.as_f64().map(|x| x.to_bits()).unwrap_or(0)),
        },
        serde_json::Value::String(s) => JsonValue::Text(s),
        serde_json::Value::Array(a) => JsonValue::Arr(a.into_iter().map(json_value_of).collect()),
        serde_json::Value::Object(m) => JsonValue::Obj(
            m.into_iter().map(|(k, w)| (k, json_value_of(w))).collect(),
        ),
    }
}

/// Relies on `serde_json::from_slice` parsing the bytes as one JSON
/// document, deterministically in the bytes, and returning a diagnostic
/// message when they are not one.
#[verifier::external_body]
pub(crate) fn parse_json(bytes: &[u8]) -> (r: Result<JsonValue, String>)
    ensures
        r matches Ok(v) ==> parsed_json(bytes@) == Some(v),
        r is Err ==> parsed_json(bytes@) is None,
{
    match serde_json::from_slice::<serde_json::Value>(bytes) {
        Ok(v) => Ok(json_value_of(v)),
        Err(e) => Err(e.to_string()),
    }
}

} // verus!
