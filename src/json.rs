use vstd::prelude::*;

use crate::object_type::{DataType, ObjectType, ParseError};

verus! {

#[verifier::external_type_specification]
#[verifier::external_body]
pub struct ExJsonValue(serde_json::Value);

#[verifier::external_type_specification]
#[verifier::external_body]
pub struct ExJsonError(serde_json::Error);

/// The JSON document that serde_json reads from a text, or `None` where it
/// refuses the text.
pub uninterp spec fn json_parse(text: Seq<char>) -> Option<serde_json::Value>;

/// The compact text that serde_json writes for a JSON document.
pub uninterp spec fn json_render(v: serde_json::Value) -> Seq<char>;

/// Relies on `serde_json::from_str::<Value>`: it reads a whole text as one
/// document, or fails.
#[verifier::external_body]
fn json_from_str(text: &str) -> (r: Result<serde_json::Value, serde_json::Error>)
    ensures
        match r {
            Ok(v) => json_parse(text@) == Some(v),
            Err(_) => json_parse(text@) is None,
        },
{
    serde_json::from_str::<serde_json::Value>(text)
}

/// Relies on `Value`'s `Display` impl (through `to_string`): the compact
/// JSON text of a document.
#[verifier::external_body]
fn json_to_string(v: &serde_json::Value) -> (r: String)
    ensures
        r@ == json_render(*v),
{
    v.to_string()
}

/// Relies on `Value::default`, which is `Value::Null`, the document that
/// serde_json reads from the text `null`.
#[verifier::external_body]
fn json_default() -> (r: serde_json::Value)
    ensures
        json_parse(seq!['n', 'u', 'l', 'l']) == Some(r),
{
    serde_json::Value::default()
}

/// Relies on `Value`'s derived `Clone`: the copy is the same document.
#[verifier::external_body]
fn json_clone(v: &serde_json::Value) -> (r: serde_json::Value)
    ensures
        r == *v,
{
    v.clone()
}

/// JSON documents: read with serde_json, written as compact JSON text, and
/// `null` where a row holds no document.
impl ObjectType for serde_json::Value {
    type Model = serde_json::Value;

    open spec fn model(&self) -> serde_json::Value {
        *self
    }

    open spec fn parse_spec(text: Seq<char>) -> Option<serde_json::Value> {
        json_parse(text)
    }

    open spec fn render_spec(m: serde_json::Value) -> Seq<char> {
        json_render(m)
    }

    open spec fn default_spec() -> serde_json::Value {
        json_parse(seq!['n', 'u', 'l', 'l'])->Some_0
    }

    fn default_value() -> (r: serde_json::Value) {
        json_default()
    }

    fn from_text(text: &str) -> (r: Result<serde_json::Value, ParseError>) {
        match json_from_str(text) {
            Ok(v) => Ok(v),
            Err(_) => Err(ParseError),
        }
    }

    fn to_text(&self) -> (r: String) {
        json_to_string(self)
    }

    fn duplicate(&self) -> (r: serde_json::Value) {
        json_clone(self)
    }

    open spec fn data_type_spec() -> DataType {
        DataType::Variant
    }

    fn data_type() -> (r: DataType) {
        DataType::Variant
    }
}

} // verus!
