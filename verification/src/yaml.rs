//! The bridge from YAML text to library values.
//!
//! Parsing itself is done by the `serde_yaml` crate behind trusted items; the
//! walk that turns the parsed document into a [`JsonValue`] is verified. What a
//! given YAML text parses to cannot be stated here, so these items carry no
//! behavioural promises: everything downstream is specified over the
//! converted [`JsonValue`].

use vstd::prelude::*;
use crate::value::JsonValue;
use crate::chars::str_to_chars;

verus! {

#[verifier::external_type_specification]
#[verifier::external_body]
pub struct ExYamlValue(serde_yaml::Value);

#[verifier::external_type_specification]
#[verifier::external_body]
pub struct ExYamlMapping(serde_yaml::Mapping);

/// Relies on `serde_yaml::from_str::<serde_yaml::Value>`: parses a YAML
/// document; the error case carries the parser's message.
#[verifier::external_body]
fn yaml_parse_str(s: &str) -> Result<serde_yaml::Value, String> {
    serde_yaml::from_str::<serde_yaml::Value>(s).map_err(|e| format!("{}", e))
}

pub assume_specification[ serde_yaml::Value::as_bool ](v: &serde_yaml::Value) -> Option<bool>;

pub assume_specification<'a>[ serde_yaml::Value::as_str ](v: &'a serde_yaml::Value) -> Option<
    &'a str,
>;

pub assume_specification<'a>[ serde_yaml::Value::as_sequence ](v: &'a serde_yaml::Value) -> Option<
    &'a Vec<serde_yaml::Value>,
>;

pub assume_specification<'a>[ serde_yaml::Value::as_mapping ](v: &'a serde_yaml::Value) -> Option<
    &'a serde_yaml::Mapping,
>;

pub assume_specification[ serde_yaml::Value::is_null ](v: &serde_yaml::Value) -> bool;

/// Relies on `serde_yaml::Number::to_string` (through `Display`): the
/// decimal text of a YAML number.
#[verifier::external_body]
fn yaml_number_string(v: &serde_yaml::Value) -> Option<String> {
    match v {
        serde_yaml::Value::Number(n) => Some(n.to_string()),
        _ => None,
    }
}

/// Relies on `serde_yaml::Mapping::iter`: the entries of a mapping, in the
/// mapping's own order.
#[verifier::external_body]
fn yaml_mapping_pairs(m: &serde_yaml::Mapping) -> Vec<(serde_yaml::Value, serde_yaml::Value)> {
    m.iter().map(|(k, v)| (k.clone(), v.clone())).collect()
}

/// Turn a parsed YAML value into a library value, descending at most `fuel`
/// levels (YAML this deep does not parse in the first place). Mapping
/// entries keep the document's order; non-string keys and tagged values
/// have no counterpart and become nothing or null.
fn yaml_to_value(v: &serde_yaml::Value, fuel: u64) -> JsonValue
    decreases fuel,
{
    if fuel == 0 {
        return JsonValue::Null;
    }
    if v.is_null() {
        return JsonValue::Null;
    }
    match v.as_bool() {
        Some(b) => {
            return JsonValue::Bool(b);
        },
        None => {},
    }
    match yaml_number_string(v) {
        Some(text) => {
            let cs = str_to_chars(text.as_str());
            match crate::value::parse_decimal(&cs) {
                Some(d) => {
                    return JsonValue::Num(d);
                },
                None => {
                    return JsonValue::Str(cs);
                },
            }
        },
        None => {},
    }
    match v.as_str() {
        Some(s) => {
            return JsonValue::Str(str_to_chars(s));
        },
        None => {},
    }
    match v.as_sequence() {
        Some(items) => {
            let mut out: Vec<JsonValue> = Vec::new();
            let mut i: usize = 0;
            while i < items.len()
                invariant
                    fuel >= 1,
                decreases items@.len() - i,
            {
                out.push(yaml_to_value(&items[i], fuel - 1));
                i = i + 1;
            }
            return JsonValue::Arr(out);
        },
        None => {},
    }
    match v.as_mapping() {
        Some(m) => {
            let pairs = yaml_mapping_pairs(m);
            let mut out: Vec<(Vec<char>, JsonValue)> = Vec::new();
            let mut i: usize = 0;
            while i < pairs.len()
                invariant
                    fuel >= 1,
                decreases pairs@.len() - i,
            {
                match pairs[i].0.as_str() {
                    Some(k) => {
                        let kc = str_to_chars(k);
                        let item = yaml_to_value(&pairs[i].1, fuel - 1);
                        out.push((kc, item));
                    },
                    None => {},
                }
                i = i + 1;
            }
            return JsonValue::Obj(out);
        },
        None => {},
    }
    JsonValue::Null
}

/// How many nesting levels the converter will descend; deeper documents do
/// not survive the YAML parser's own recursion limit.
pub const YAML_DEPTH: u64 = 512;

/// Parse a YAML document into a library value. The error case carries the
/// parser's message.
pub fn parse_yaml(s: &str) -> Result<JsonValue, String> {
    match yaml_parse_str(s) {
        Ok(v) => Ok(yaml_to_value(&v, YAML_DEPTH)),
        Err(m) => Err(m),
    }
}

} // verus!
