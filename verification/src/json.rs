//! Trusted declarations for the JSON crate used to read the platform
//! simulator controller's structured output.
//!
//! A parsed JSON value is opaque here: these wrappers only parse a
//! document and take values apart; every decision over what they hand
//! back is made by verified code.

use vstd::prelude::*;

verus! {

#[verifier::external_type_specification]
#[verifier::external_body]
pub struct ExValue(serde_json::Value);

/// Relies on `serde_json::from_str::<Value>`: parses the document, the
/// parse error carried as its display text.
#[verifier::external_body]
pub fn json_from_str(s: &str) -> (r: Result<serde_json::Value, String>) {
    serde_json::from_str::<serde_json::Value>(s).map_err(|e| e.to_string())
}

/// Relies on `serde_json::Value::get` with a string index: the value at
/// that key when this value is an object holding it.
#[verifier::external_body]
pub fn json_get<'a>(v: &'a serde_json::Value, key: &str) -> (r: Option<&'a serde_json::Value>) {
    v.get(key)
}

/// Relies on `serde_json::Value::as_object`: the object's entries, keys
/// paired with values, in the map's iteration order.
#[verifier::external_body]
pub fn json_object_entries(v: &serde_json::Value) -> (r: Option<Vec<(String, serde_json::Value)>>) {
    v.as_object().map(|m| m.iter().map(|(k, x)| (k.clone(), x.clone())).collect())
}

/// Relies on `serde_json::Value::as_array`: the array's elements, in
/// order.
#[verifier::external_body]
pub fn json_array(v: &serde_json::Value) -> (r: Option<Vec<serde_json::Value>>) {
    v.as_array().map(|a| a.to_vec())
}

/// Relies on `serde_json::Value::as_str`: the content when this value is
/// a string.
#[verifier::external_body]
pub fn json_as_str(v: &serde_json::Value) -> (r: Option<String>) {
    v.as_str().map(|s| s.to_string())
}

} // verus!
