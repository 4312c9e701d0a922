//! Free-form JSON values found in metadata, and their compact text form.

use vstd::prelude::*;

verus! {

/// A JSON value. Numbers keep their textual form; object members keep their order.
#[derive(Debug, PartialEq)]
pub enum JsonValue {
    Null,
    Bool(bool),
    Number(String),
    Str(String),
    Array(Vec<JsonValue>),
    Object(Vec<JsonMember>),
}

/// One member of a JSON object.
#[derive(Debug, PartialEq)]
pub struct JsonMember {
    pub key: String,
    pub value: JsonValue,
}

#[verifier::external_type_specification]
#[verifier::external_body]
pub struct ExValue(serde_json::Value);

/// A `serde_json` value holding the same data; numbers are read back from
/// their text (a text that is not a number becomes a string).
#[verifier::external_body]
fn value_of(v: &JsonValue) -> serde_json::Value {
    match v {
        JsonValue::Null => serde_json::Value::Null,
        JsonValue::Bool(b) => serde_json::Value::Bool(*b),
        JsonValue::Number(n) => serde_json::from_str(n).unwrap_or_else(|_| serde_json::Value::String(n.clone())),
        JsonValue::Str(s) => serde_json::Value::String(s.clone()),
        JsonValue::Array(a) => serde_json::Value::Array(a.iter().map(value_of).collect()),
        JsonValue::Object(o) => serde_json::Value::Object(o.iter().map(|m| (m.key.clone(), value_of(&m.value))).collect()),
    }
}

/// The compact JSON text that `serde_json` writes for a value (the
/// `Display` of `serde_json::Value`): a function of the value alone.
pub uninterp spec fn json_display(v: JsonValue) -> Seq<char>;

/// Writes a value as compact JSON with `serde_json` (`Display` of
/// `serde_json::Value`); the text is `json_display` of the value.
#[verifier::external_body]
fn display_json(v: &JsonValue) -> (r: String)
    ensures
        r@ == json_display(*v),
{
    value_of(v).to_string()
}

impl JsonValue {
    /// The compact JSON text of this value.
    pub fn to_string(&self) -> (r: String)
        ensures
            r@ == json_display(*self),
    {
        display_json(self)
    }

    /// The text of a string value, if this is one.
    pub fn as_str(&self) -> (r: Option<&str>)
        ensures
            match *self {
                JsonValue::Str(s) => r matches Some(t) && t@ == s@,
                _ => r is None,
            },
    {
        match self {
            JsonValue::Str(s) => Some(s.as_str()),
            _ => None,
        }
    }
}

} // verus!
