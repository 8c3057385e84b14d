use vstd::prelude::*;

verus! {

/// A JSON value as the schema reads it. A number is kept as its reading as a
/// non-negative integer, `None` when it has none (negative or fractional).
pub enum Json {
    Null,
    Bool(bool),
    Number(Option<u64>),
    Str(Seq<char>),
    Array(Seq<Json>),
    Object(Seq<(Seq<char>, Json)>),
}

/// An executable JSON value; its view is a `Json`.
#[derive(Debug)]
pub enum JsonValue {
    Null,
    Bool(bool),
    Number(Option<u64>),
    Str(String),
    Array(Vec<JsonValue>),
    Object(Vec<(String, JsonValue)>),
}

impl View for JsonValue {
    type V = Json;

    open spec fn view(&self) -> Json
        decreases self,
    {
        match self {
            JsonValue::Null => Json::Null,
            JsonValue::Bool(b) => Json::Bool(*b),
            JsonValue::Number(n) => Json::Number(*n),
            JsonValue::Str(s) => Json::Str(s@),
            JsonValue::Array(v) => Json::Array(
                Seq::new(
                    v.len() as nat,
                    |i: int|
                        if 0 <= i < v.len() {
                            v[i].view()
                        } else {
                            Json::Null
                        },
                ),
            ),
            JsonValue::Object(m) => Json::Object(
                Seq::new(
                    m.len() as nat,
                    |i: int|
                        if 0 <= i < m.len() {
                            (m[i].0@, m[i].1.view())
                        } else {
                            (Seq::empty(), Json::Null)
                        },
                ),
            ),
        }
    }
}

#[verifier::external_type_specification]
#[verifier::external_body]
pub struct ExValue(serde_json::Value);

#[verifier::external_type_specification]
#[verifier::external_body]
pub struct ExError(serde_json::Error);

/// The document that `serde_json` reads from a text, if the text is JSON.
pub uninterp spec fn json_document(s: Seq<char>) -> Option<Json>;

/// Relies on `serde_json::Value`'s variants and `serde_json::Number::as_u64`:
/// moves each value into the matching `JsonValue` variant.
#[verifier::external_body]
fn json_from_value(v: serde_json::Value) -> JsonValue {
    match v {
        serde_json::Value::Null => JsonValue::Null,
        serde_json::Value::Bool(b) => JsonValue::Bool(b),
        serde_json::Value::Number(n) => JsonValue::Number(n.as_u64()),
        serde_json::Value::String(s) => JsonValue::Str(s),
        serde_json::Value::Array(a) => JsonValue::Array(a.into_iter().map(json_from_value).collect()),
        serde_json::Value::Object(m) => JsonValue::Object(
            m.into_iter().map(|(k, x)| (k, json_from_value(x))).collect(),
        ),
    }
}

/// Relies on `serde_json::from_str::<serde_json::Value>`: reads the text as one
/// JSON document, and whether it succeeds and what it reads depend on the text
/// alone.
#[verifier::external_body]
fn parse_value(text: &str) -> (r: Result<JsonValue, serde_json::Error>)
    ensures
        match r {
            Ok(v) => json_document(text@) == Some(v@),
            Err(_) => json_document(text@) is None,
        },
{
    serde_json::from_str::<serde_json::Value>(text).map(json_from_value)
}

/// Read a text as a JSON document; `None` when it is not JSON.
pub fn parse_json(text: &str) -> (r: Option<JsonValue>)
    ensures
        match r {
            Some(v) => json_document(text@) == Some(v@),
            None => json_document(text@) is None,
        },
{
    match parse_value(text) {
        Ok(v) => Some(v),
        Err(_) => None,
    }
}

} // verus!
