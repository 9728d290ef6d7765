//! The boundary to `serde_json`.
//!
//! Text is parsed and rendered by `serde_json`. Its `Value` is a collection
//! that is opened and built here one level at a time; everything else works on
//! the library's own JSON type.

use serde_json::Value;
use vstd::prelude::*;

use crate::float_bits;
use crate::json;
use crate::json::{JsonModel, NumberKind};

verus! {

/// Declares `serde_json::Value`.
#[verifier::external_type_specification]
#[verifier::external_body]
pub struct ExValue(serde_json::Value);

/// What a `serde_json::Value` holds.
pub uninterp spec fn json_of(value: Value) -> JsonModel;

/// What `serde_json` reads from a text: the value, or the message of its error.
pub uninterp spec fn parsed(text: Seq<char>) -> Result<JsonModel, Seq<char>>;

/// The text that `serde_json::to_string` writes for the single with these bits:
/// the shortest digits that tell it from other singles.
pub uninterp spec fn single_text(bits: u32) -> Seq<char>;

/// The compact text that `serde_json` writes for a value.
pub uninterp spec fn rendered(value: JsonModel) -> Seq<char>;

/// One level of a `serde_json::Value`.
pub enum Node {
    Null,
    Bool(bool),
    /// A number, still as the value that holds it.
    Number(Value),
    Text(String),
    Array(Vec<Value>),
    Object(Vec<(String, Value)>),
}

/// Whether no two members have the same name.
pub open spec fn distinct_values(entries: Seq<(String, Value)>) -> bool {
    forall|i: int, j: int|
        0 <= i < j < entries.len() ==> (#[trigger] entries[i]).0@ != (#[trigger] entries[j]).0@
}

/// Whether the map holds exactly these members.
pub open spec fn holds_members(
    members: Map<Seq<char>, JsonModel>,
    entries: Seq<(String, Value)>,
) -> bool {
    &&& distinct_values(entries)
    &&& forall|i: int|
        0 <= i < entries.len() ==> members.contains_key((#[trigger] entries[i]).0@)
            && members[entries[i].0@] == json_of(entries[i].1)
    &&& forall|name: Seq<char>| #[trigger]
        members.contains_key(name) ==> exists|i: int|
            0 <= i < entries.len() && (#[trigger] entries[i]).0@ == name
}

/// Whether a node is the top level of a value.
pub open spec fn opens_to(value: JsonModel, node: Node) -> bool {
    match node {
        Node::Null => value == JsonModel::Null,
        Node::Bool(b) => value == JsonModel::Bool(b),
        Node::Number(number) => value is Number && json_of(number) == value,
        Node::Text(text) => value == JsonModel::Text(text@),
        Node::Array(items) => value == JsonModel::Array(
            Seq::new(items@.len(), |i: int| json_of(items@[i])),
        ),
        Node::Object(entries) => value matches JsonModel::Object(members) && holds_members(
            members,
            entries@,
        ),
    }
}

/// Parses a text with `serde_json::from_str`. The result is named [`parsed`];
/// an error is its message.
#[verifier::external_body]
pub(crate) fn value_from_text(text: &str) -> (r: Result<Value, String>)
    ensures
        match r {
            Ok(value) => parsed(text@) == Ok::<JsonModel, Seq<char>>(json_of(value)),
            Err(message) => parsed(text@) == Err::<JsonModel, Seq<char>>(message@),
        },
{
    serde_json::from_str::<Value>(text).map_err(|error| error.to_string())
}

/// Writes a value with the `Display` of `serde_json::Value`. The result is
/// named [`rendered`]; it depends on nothing but what the value holds. A string
/// is written with the escapes that `serde_json::from_str` undoes, so it reads
/// back. Of other values no such claim is made: a double may come back with
/// another last digit, and a value that is nested too deeply is not read.
#[verifier::external_body]
pub(crate) fn value_to_text(value: &Value) -> (r: String)
    ensures
        r@ == rendered(json_of(*value)),
        match parsed(r@) {
            Ok(back) => json_of(*value) is Text ==> back == json_of(*value),
            Err(_) => !(json_of(*value) is Text),
        },
{
    value.to_string()
}

/// Tells the variants of `serde_json::Value` apart and hands out what the value
/// holds. The names of an object's members are distinct.
#[verifier::external_body]
pub(crate) fn open_value(value: Value) -> (r: Node)
    ensures
        opens_to(json_of(value), r),
{
    match value {
        Value::Null => Node::Null,
        Value::Bool(b) => Node::Bool(b),
        Value::Number(number) => Node::Number(Value::Number(number)),
        Value::String(text) => Node::Text(text),
        Value::Array(items) => Node::Array(items),
        Value::Object(members) => Node::Object(members.into_iter().collect()),
    }
}

/// Builds a `serde_json::Value` from its top level.
#[verifier::external_body]
pub(crate) fn close_value(node: Node) -> (r: Value)
    requires
        node matches Node::Number(number) ==> json_of(number) is Number,
        node matches Node::Object(entries) ==> distinct_values(entries@),
    ensures
        opens_to(json_of(r), node),
{
    match node {
        Node::Null => Value::Null,
        Node::Bool(b) => Value::Bool(b),
        Node::Number(number) => number,
        Node::Text(text) => Value::String(text),
        Node::Array(items) => Value::Array(items),
        Node::Object(entries) => Value::Object(entries.into_iter().collect()),
    }
}

/// Calls `serde_json::Value::as_u64`: the integer that the value is, if it is
/// one that is not negative.
#[verifier::external_body]
pub(crate) fn value_as_u64(value: &Value) -> (r: Option<u64>)
    ensures
        r == json::unsigned_of(json_of(*value)),
{
    value.as_u64()
}

/// Calls `serde_json::Value::as_i64`: the integer that the value is, if it fits.
/// Integers held in the negative form are below zero.
#[verifier::external_body]
pub(crate) fn value_as_i64(value: &Value) -> (r: Option<i64>)
    ensures
        match json_of(*value) {
            JsonModel::Number(NumberKind::Unsigned(n)) => r == (if n <= i64::MAX {
                Some(n as i64)
            } else {
                None
            }),
            JsonModel::Number(NumberKind::Negative(n)) => n < 0 && r == Some(n),
            _ => r is None,
        },
{
    value.as_i64()
}

/// Calls `serde_json::Value::as_f64` on a value that is no integer and takes the
/// bits of its result: a number held as a double is finite and comes back
/// unchanged.
#[verifier::external_body]
pub(crate) fn value_as_double(value: &Value) -> (r: Option<u64>)
    requires
        !(json_of(*value) matches JsonModel::Number(NumberKind::Unsigned(_))),
        !(json_of(*value) matches JsonModel::Number(NumberKind::Negative(_))),
    ensures
        match json_of(*value) {
            JsonModel::Number(NumberKind::Double(bits)) => float_bits::double_finite(bits) && r
                == Some(bits),
            _ => r is None,
        },
{
    value.as_f64().map(|number| number.to_bits())
}

/// Calls `serde_json::Value::from` on an integer that is not negative.
#[verifier::external_body]
pub(crate) fn value_from_unsigned(number: u64) -> (r: Value)
    ensures
        json_of(r) == JsonModel::Number(NumberKind::Unsigned(number)),
{
    Value::from(number)
}

/// Calls `serde_json::Value::from` on a negative integer.
#[verifier::external_body]
pub(crate) fn value_from_negative(number: i64) -> (r: Value)
    requires
        number < 0,
    ensures
        json_of(r) == JsonModel::Number(NumberKind::Negative(number)),
{
    Value::from(number)
}

/// Calls `serde_json::Value::from` on the finite double with these bits, which
/// `bytes::Buf::get_f64` reads from their big-endian bytes.
#[verifier::external_body]
pub(crate) fn value_from_double(bits: u64) -> (r: Value)
    requires
        float_bits::double_finite(bits),
    ensures
        json_of(r) == JsonModel::Number(NumberKind::Double(bits)),
{
    Value::from(bytes::Buf::get_f64(&mut bits.to_be_bytes().as_slice()))
}

/// Calls `serde_json::to_string` on the finite single with these bits, which
/// `bytes::Buf::get_f32` reads from their big-endian bytes. The result is named
/// [`single_text`]; writing a number to memory does not fail.
#[verifier::external_body]
pub(crate) fn text_of_single(bits: u32) -> (r: Option<String>)
    requires
        float_bits::single_finite(bits),
    ensures
        r is Some,
        r->0@ == single_text(bits),
{
    serde_json::to_string(&bytes::Buf::get_f32(&mut bits.to_be_bytes().as_slice())).ok()
}

/// What is opened of a value is what the value holds: nothing, a truth value, a number,
/// a text, the items of a list in order, or the members of an object, each once.
pub proof fn law_values_open_to_what_they_hold(value: JsonModel, node: Node, at: int)
    requires
        opens_to(value, node),
    ensures
        match node {
            Node::Null => value == JsonModel::Null,
            Node::Bool(b) => value == JsonModel::Bool(b),
            Node::Number(number) => value is Number && json_of(number) == value,
            Node::Text(text) => value == JsonModel::Text(text@),
            Node::Array(items) => value matches JsonModel::Array(models) && models.len()
                == items@.len() && (0 <= at < items@.len() ==> models[at] == json_of(items@[at])),
            Node::Object(entries) => value matches JsonModel::Object(members) && (0 <= at
                < entries@.len() ==> members.contains_key(entries@[at].0@)
                && members[entries@[at].0@] == json_of(entries@[at].1)) && forall|
                name: Seq<char>,
            | #[trigger]
                members.contains_key(name) ==> exists|i: int|
                    0 <= i < entries@.len() && (#[trigger] entries@[i]).0@ == name,
        },
{
}

} // verus!
