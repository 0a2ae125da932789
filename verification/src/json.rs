//! JSON documents, built value by value.
use serde_json::Value;
use vstd::prelude::*;

verus! {

/// What a JSON value holds.
pub enum JsonModel {
    Null,
    Bool(bool),
    /// A number that was made from an integer.
    Integer(int),
    /// A number that was made from a floating point value without a fractional part.
    Float(int),
    Text(Seq<char>),
    Array(Seq<JsonModel>),
    Object(Map<Seq<char>, JsonModel>),
}

/// A JSON value of the serde_json crate.
#[verifier::external_type_specification]
#[verifier::external_body]
pub struct ExValue(serde_json::Value);

/// The contents of a JSON value.
pub uninterp spec fn json_model(value: serde_json::Value) -> JsonModel;

/// The compact text of a JSON value with the given contents.
pub uninterp spec fn json_text(model: JsonModel) -> Seq<char>;

/// The contents of a list of JSON values.
pub open spec fn json_models(values: Seq<serde_json::Value>) -> Seq<JsonModel> {
    Seq::new(values.len(), |i: int| json_model(values[i]))
}

/// `serde_json::Value::from` on a string slice: a JSON string with that text.
#[verifier::external_body]
pub(crate) fn json_string(text: &str) -> (r: Value)
    ensures
        json_model(r) == JsonModel::Text(text@),
{
    Value::from(text)
}

/// `serde_json::Value::from` on an integer: a JSON number with that value.
#[verifier::external_body]
pub(crate) fn json_integer(n: i64) -> (r: Value)
    ensures
        json_model(r) == JsonModel::Integer(n as int),
{
    Value::from(n)
}

/// `serde_json::Number::from_f64` on a whole number, which is always finite: a JSON number that is
/// written with a fraction part.
#[verifier::external_body]
pub(crate) fn json_float(n: u32) -> (r: Value)
    ensures
        json_model(r) == JsonModel::Float(n as int),
{
    Value::from(serde_json::Number::from_f64(n.into()))
}

/// `serde_json::Value::from` on a vector: a JSON array of those values, in that order.
#[verifier::external_body]
pub(crate) fn json_array(values: Vec<Value>) -> (r: Value)
    ensures
        json_model(r) == JsonModel::Array(json_models(values@)),
{
    Value::from(values)
}

/// `serde_json::Map::new`, as a value: a JSON object without entries.
#[verifier::external_body]
pub(crate) fn json_object() -> (r: Value)
    ensures
        json_model(r) == JsonModel::Object(Map::empty()),
{
    Value::from(serde_json::Map::new())
}

/// A `serde_json::Value` indexed by a key and assigned to: the object has that entry afterwards and
/// keeps its others.
#[verifier::external_body]
pub(crate) fn json_set(object: &mut Value, key: &str, value: Value)
    requires
        json_model(*old(object)) is Object,
    ensures
        json_model(*final(object)) == JsonModel::Object(
            json_model(*old(object))->Object_0.insert(key@, json_model(value)),
        ),
{
    object[key] = value;
}

/// `serde_json::Value`'s `to_string`: the compact text, which the contents alone decide, since an
/// object keeps its entries sorted by key.
#[verifier::external_body]
pub(crate) fn json_to_string(value: &Value) -> (r: String)
    ensures
        r@ == json_text(json_model(*value)),
{
    value.to_string()
}

} // verus!
