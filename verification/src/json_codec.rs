//! Reading and writing JSON bytes, which is `serde_json`'s work; the values
//! cross over as the library's own `JsonValue`.

use vstd::prelude::*;
use serde_json::{Number, Value};
use crate::json_value::{JsonModel, JsonNumber, JsonValue, NumberModel};

verus! {

#[verifier::external_type_specification]
#[verifier::external_body]
pub struct ExSerdeJsonValue(serde_json::Value);

#[verifier::external_type_specification]
#[verifier::external_body]
pub struct ExSerdeJsonNumber(serde_json::Number);

#[verifier::external_type_specification]
#[verifier::external_body]
pub struct ExSerdeJsonError(serde_json::Error);

/// The value that `serde_json::from_slice::<serde_json::Value>` reads from
/// `content`, or nothing where it reports an error.
pub uninterp spec fn json_document(content: Seq<u8>) -> Option<JsonModel>;

/// The bytes that `serde_json::to_vec` writes for the value `v`, where it
/// writes any.
pub uninterp spec fn json_bytes(v: JsonModel) -> Seq<u8>;

/// Whether `str::parse::<serde_json::Number>` reads a number from `t`.
pub uninterp spec fn json_number_text(t: Seq<char>) -> bool;

/// Whether every float in `m` is carried as text that `serde_json` reads as
/// a number.
pub open spec fn floats_are_numbers(m: JsonModel) -> bool
    decreases m,
{
    match m {
        JsonModel::Number(NumberModel::Float(t)) => json_number_text(t),
        JsonModel::Array(items) => items_floats_are_numbers(items),
        JsonModel::Object(members) => members_floats_are_numbers(members),
        _ => true,
    }
}

/// `floats_are_numbers` of each item.
pub open spec fn items_floats_are_numbers(items: Seq<JsonModel>) -> bool
    decreases items,
{
    if items.len() == 0 {
        true
    } else {
        floats_are_numbers(items.last()) && items_floats_are_numbers(items.drop_last())
    }
}

/// `floats_are_numbers` of each member's value.
pub open spec fn members_floats_are_numbers(members: Seq<(Seq<char>, JsonModel)>) -> bool
    decreases members,
{
    if members.len() == 0 {
        true
    } else {
        floats_are_numbers(members.last().1) && members_floats_are_numbers(members.drop_last())
    }
}

/// A `serde_json::Number` as a `JsonNumber`: the integer it holds, else the
/// text it displays. Part of the conversion in `json_from_slice`.
#[verifier::external_body]
fn number_from_serde(n: Number) -> JsonNumber {
    match (n.as_u64(), n.as_i64()) {
        (Some(u), _) => JsonNumber::PosInt(u),
        (None, Some(i)) => JsonNumber::NegInt(i),
        (None, None) => JsonNumber::Float(n.to_string()),
    }
}

/// A `serde_json::Value` as a `JsonValue`, variant for variant. Part of the
/// conversion in `json_from_slice`.
#[verifier::external_body]
fn from_serde(v: Value) -> JsonValue {
    match v {
        Value::Null => JsonValue::Null,
        Value::Bool(b) => JsonValue::Bool(b),
        Value::Number(n) => JsonValue::Number(number_from_serde(n)),
        Value::String(s) => JsonValue::String(s),
        Value::Array(a) => JsonValue::Array(a.into_iter().map(from_serde).collect()),
        Value::Object(m) => JsonValue::Object(m.into_iter().map(|(k, x)| (k, from_serde(x))).collect()),
    }
}

/// A `JsonNumber` as a `serde_json::Number`; the text of a float is read
/// back by `serde_json`, whose error is passed on. Part of the conversion in
/// `json_to_vec`.
#[verifier::external_body]
fn number_to_serde(n: &JsonNumber) -> (r: Result<Number, serde_json::Error>)
    ensures
        n matches JsonNumber::Float(t) ==> (r is Ok <==> json_number_text(t@)),
        !(n is Float) ==> r is Ok,
{
    match n {
        JsonNumber::PosInt(u) => Ok(Number::from(*u)),
        JsonNumber::NegInt(i) => Ok(Number::from(*i)),
        JsonNumber::Float(t) => t.parse::<Number>(),
    }
}

/// A `JsonValue` as a `serde_json::Value`, variant for variant, passing on
/// the error of a float's text. Part of the conversion in `json_to_vec`.
#[verifier::external_body]
fn to_serde(v: &JsonValue) -> Result<Value, serde_json::Error> {
    Ok(match v {
        JsonValue::Null => Value::Null,
        JsonValue::Bool(b) => Value::Bool(*b),
        JsonValue::Number(n) => Value::Number(number_to_serde(n)?),
        JsonValue::String(s) => Value::String(s.clone()),
        JsonValue::Array(a) => Value::Array(a.iter().map(to_serde).collect::<Result<_, _>>()?),
        JsonValue::Object(m) => Value::Object(m.iter().map(|(k, x)| Ok((k.clone(), to_serde(x)?))).collect::<Result<_, _>>()?),
    })
}

/// `serde_json::from_slice::<serde_json::Value>`, the value taken into a
/// `JsonValue`. What it reads is named `json_document`; nothing more is
/// claimed of it.
#[verifier::external_body]
pub(crate) fn json_from_slice(content: &[u8]) -> (r: Result<JsonValue, serde_json::Error>)
    ensures
        r is Ok <==> json_document(content@) is Some,
        r matches Ok(v) ==> json_document(content@) == Some(v.model()),
{
    match serde_json::from_slice::<Value>(content) {
        Ok(v) => Ok(from_serde(v)),
        Err(e) => Err(e),
    }
}

/// `serde_json::to_vec` of the value. What it writes is named `json_bytes`.
/// Taking the value over fails exactly where the text of a float is not a
/// number `serde_json` reads; writing a `serde_json::Value` does not fail,
/// its map keys being strings.
#[verifier::external_body]
pub(crate) fn json_to_vec(v: &JsonValue) -> (r: Result<Vec<u8>, serde_json::Error>)
    ensures
        r is Ok <==> floats_are_numbers(v.model()),
        r matches Ok(b) ==> b@ == json_bytes(v.model()),
{
    match to_serde(v) {
        Ok(x) => serde_json::to_vec(&x),
        Err(e) => Err(e),
    }
}

/// The text a `serde_json::Error` displays; nothing is stated of it.
#[verifier::external_body]
pub(crate) fn json_error_text(e: &serde_json::Error) -> String {
    e.to_string()
}

} // verus!
