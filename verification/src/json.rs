//! JSON documents, as far as configuration files are read.

use vstd::prelude::*;
use vstd::string::*;

verus! {

/// What a JSON value holds.
pub enum JsonTree {
    Null,
    Bool(bool),
    /// A number, as an unsigned integer if it is one and as the bit pattern
    /// of a 64-bit floating-point number if it has one.
    Number { unsigned: Option<u64>, double: Option<u64> },
    Text(Seq<char>),
    List(Seq<JsonTree>),
    Object(Map<Seq<char>, JsonTree>),
}

/// A parsed JSON value of `serde_json`.
#[verifier::external_type_specification]
#[verifier::external_body]
pub struct ExJsonValue(serde_json::Value);

/// What a parsed value holds.
pub uninterp spec fn json_tree(v: serde_json::Value) -> JsonTree;

/// What parsing a byte string gives: the value's contents, or the message of
/// the error.
pub uninterp spec fn json_document(bytes: Seq<u8>) -> Result<JsonTree, Seq<char>>;

/// The member of an object under a key.
pub open spec fn member(t: JsonTree, key: Seq<char>) -> Option<JsonTree> {
    match t {
        JsonTree::Object(m) => if m.contains_key(key) {
            Some(m[key])
        } else {
            None
        },
        _ => None,
    }
}

/// The unsigned integer that a value is.
pub open spec fn unsigned_of(t: Option<JsonTree>) -> Option<u64> {
    match t {
        Some(JsonTree::Number { unsigned, .. }) => unsigned,
        _ => None,
    }
}

/// The bit pattern of the 64-bit floating-point number that a value is.
pub open spec fn double_of(t: Option<JsonTree>) -> Option<u64> {
    match t {
        Some(JsonTree::Number { double, .. }) => double,
        _ => None,
    }
}

/// The text that a value is.
pub open spec fn text_of(t: Option<JsonTree>) -> Option<Seq<char>> {
    match t {
        Some(JsonTree::Text(s)) => Some(s),
        _ => None,
    }
}

/// The truth value that a value is.
pub open spec fn bool_of(t: Option<JsonTree>) -> Option<bool> {
    match t {
        Some(JsonTree::Bool(b)) => Some(b),
        _ => None,
    }
}

/// The elements of the list that a value is.
pub open spec fn list_of(t: Option<JsonTree>) -> Option<Seq<JsonTree>> {
    match t {
        Some(JsonTree::List(s)) => Some(s),
        _ => None,
    }
}

/// What an optional reference to a parsed value holds.
pub open spec fn tree_of(v: Option<&serde_json::Value>) -> Option<JsonTree> {
    match v {
        Some(x) => Some(json_tree(*x)),
        None => None,
    }
}

/// Parses a byte string with `serde_json::from_slice`. Claimed: the outcome
/// depends on the bytes alone; it is a value, or an error of which the
/// message is kept.
#[verifier::external_body]
pub(crate) fn parse_json(bytes: &[u8]) -> (r: Result<serde_json::Value, String>)
    ensures
        match r {
            Ok(v) => json_document(bytes@) == Ok::<JsonTree, Seq<char>>(json_tree(v)),
            Err(e) => json_document(bytes@) == Err::<JsonTree, Seq<char>>(e@),
        },
{
    serde_json::from_slice(bytes).map_err(|e| e.to_string())
}

/// Looks a key up with `serde_json::Value::get`. Claimed: the member of an
/// object under that key; nothing where there is none or the value is no
/// object.
#[verifier::external_body]
pub(crate) fn json_get<'a>(v: &'a serde_json::Value, key: &str) -> (r: Option<
    &'a serde_json::Value,
>)
    ensures
        tree_of(r) == member(json_tree(*v), key@),
{
    v.get(key)
}

/// Reads an unsigned integer with `serde_json::Value::as_u64`.
#[verifier::external_body]
pub(crate) fn json_as_u64(v: &serde_json::Value) -> (r: Option<u64>)
    ensures
        r == unsigned_of(Some(json_tree(*v))),
{
    v.as_u64()
}

/// Reads a number with `serde_json::Value::as_f64`, as its bit pattern.
#[verifier::external_body]
pub(crate) fn json_as_double_bits(v: &serde_json::Value) -> (r: Option<u64>)
    ensures
        r == double_of(Some(json_tree(*v))),
{
    v.as_f64().map(|x| x.to_bits())
}

/// Reads a string with `serde_json::Value::as_str`.
#[verifier::external_body]
pub(crate) fn json_as_str(v: &serde_json::Value) -> (r: Option<&str>)
    ensures
        match r {
            Some(s) => text_of(Some(json_tree(*v))) == Some(s@),
            None => text_of(Some(json_tree(*v))) is None,
        },
{
    v.as_str()
}

/// Reads a truth value with `serde_json::Value::as_bool`.
#[verifier::external_body]
pub(crate) fn json_as_bool(v: &serde_json::Value) -> (r: Option<bool>)
    ensures
        r == bool_of(Some(json_tree(*v))),
{
    v.as_bool()
}

/// Reads an array with `serde_json::Value::as_array`. Claimed: the elements
/// in their order; nothing where the value is no array.
#[verifier::external_body]
pub(crate) fn json_as_array(v: &serde_json::Value) -> (r: Option<&Vec<serde_json::Value>>)
    ensures
        match r {
            Some(a) => list_of(Some(json_tree(*v))) == Some(
                Seq::new(a@.len(), |i: int| json_tree(a@[i])),
            ),
            None => list_of(Some(json_tree(*v))) is None,
        },
{
    v.as_array()
}

/// The unsigned integer of a member.
pub(crate) fn unsigned_member(v: &serde_json::Value, key: &str) -> (r: Option<u64>)
    ensures
        r == unsigned_of(member(json_tree(*v), key@)),
{
    match json_get(v, key) {
        Some(x) => json_as_u64(x),
        None => None,
    }
}

/// The bit pattern of the number of a member.
pub(crate) fn double_member(v: &serde_json::Value, key: &str) -> (r: Option<u64>)
    ensures
        r == double_of(member(json_tree(*v), key@)),
{
    match json_get(v, key) {
        Some(x) => json_as_double_bits(x),
        None => None,
    }
}

} // verus!
