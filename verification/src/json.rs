//! JSON documents, as the `serde_json` crate decodes them. A decoded value
//! is opaque here; what it holds is named by [`json_tree`] and read through
//! the accessors below.

use crate::model::opt_text;
use crate::text::text_eq;
use std::collections::HashMap;
use vstd::prelude::*;

verus! {

/// The shape of a JSON document.
pub enum JsonTree {
    Null,
    Bool(bool),
    /// A whole number that is held as a 64-bit integer, signed or unsigned.
    Integer(int),
    /// Any other number. Such a number is not looked into.
    Fraction,
    Text(Seq<char>),
    Array(Seq<JsonTree>),
    Object(Map<Seq<char>, JsonTree>),
}

/// `serde_json::Value`: a decoded JSON document, carried as an opaque value.
#[verifier::external_type_specification]
#[verifier::external_body]
pub struct ExJsonValue(serde_json::Value);

/// `serde_json::Error`: why the encoder refused a value, carried as an
/// opaque value.
#[verifier::external_type_specification]
#[verifier::external_body]
pub struct ExJsonError(serde_json::Error);

/// The document that a decoded value holds.
pub uninterp spec fn json_tree(value: serde_json::Value) -> JsonTree;

/// The document that a text decodes to, or none if the text is not one
/// well-formed JSON document.
pub uninterp spec fn json_parse(text: Seq<char>) -> Option<JsonTree>;

/// Decodes a text as one JSON document. Trusted: `serde_json::from_str` at
/// the type `Value`, whose result is a function of the text alone; an error
/// is handed on as `None`.
#[verifier::external_body]
pub(crate) fn decode_json(text: &str) -> (res: Option<serde_json::Value>)
    ensures
        match res {
            Some(value) => json_parse(text@) == Some(json_tree(value)),
            None => json_parse(text@) is None,
        },
{
    serde_json::from_str::<serde_json::Value>(text).ok()
}

/// The string that a value is, if it is one. Trusted: `Value::as_str`,
/// which returns the string of the `String` variant and `None` for every
/// other variant.
#[verifier::external_body]
pub(crate) fn json_str(value: &serde_json::Value) -> (res: Option<&str>)
    ensures
        match json_tree(*value) {
            JsonTree::Text(text) => res is Some && res->0@ == text,
            _ => res is None,
        },
{
    value.as_str()
}

/// The elements of a value, if it is an array. Trusted: `Value::as_array`,
/// which returns the vector of the `Array` variant and `None` for every
/// other variant.
#[verifier::external_body]
pub(crate) fn json_items(value: &serde_json::Value) -> (res: Option<&Vec<serde_json::Value>>)
    ensures
        match json_tree(*value) {
            JsonTree::Array(items) => res is Some && res->0@.len() == items.len() && forall|
                i: int,
            |
                0 <= i < items.len() ==> json_tree(#[trigger] res->0@[i]) == items[i],
            _ => res is None,
        },
{
    value.as_array()
}

/// The member of an object under a key. Trusted: `Value::get` with a string
/// index, which looks the key up in the map of the `Object` variant and
/// returns `None` for a missing key and for every other variant.
#[verifier::external_body]
pub(crate) fn json_member<'a>(value: &'a serde_json::Value, key: &str) -> (res: Option<
    &'a serde_json::Value,
>)
    ensures
        match json_tree(*value) {
            JsonTree::Object(members) => if members.contains_key(key@) {
                res is Some && json_tree(*res->0) == members[key@]
            } else {
                res is None
            },
            _ => res is None,
        },
{
    value.get(key)
}

/// The whole number that a value is, if it is one from zero to the largest
/// of 64 bits. Trusted: `Value::as_u64`, which returns the number of a value
/// that holds a non-negative integer, and `None` for a negative integer, for
/// any other number and for every other variant.
#[verifier::external_body]
pub(crate) fn json_u64(value: &serde_json::Value) -> (res: Option<u64>)
    ensures
        res == match json_tree(*value) {
            JsonTree::Integer(n) => if 0 <= n <= u64::MAX {
                Some(n as u64)
            } else {
                None
            },
            _ => None,
        },
{
    value.as_u64()
}

/// The whole number that a value is, if it is one that a signed 64-bit
/// integer holds. Trusted: `Value::as_i64`, which returns the number of a
/// value that holds a negative integer, or a non-negative one up to the
/// largest signed, and `None` for any other number and for every other
/// variant.
#[verifier::external_body]
pub(crate) fn json_i64(value: &serde_json::Value) -> (res: Option<i64>)
    ensures
        res == match json_tree(*value) {
            JsonTree::Integer(n) => if i64::MIN <= n <= i64::MAX {
                Some(n as i64)
            } else {
                None
            },
            _ => None,
        },
{
    value.as_i64()
}

/// Whether a value is `null`. Trusted: `Value::is_null`.
#[verifier::external_body]
pub(crate) fn json_is_null(value: &serde_json::Value) -> (res: bool)
    ensures
        res == (json_tree(*value) is Null),
{
    value.is_null()
}

/// The value `null`. Trusted: the variant `Value::Null`.
#[verifier::external_body]
pub(crate) fn json_null() -> (res: serde_json::Value)
    ensures
        json_tree(res) == JsonTree::Null,
{
    serde_json::Value::Null
}

/// The value of a string. Trusted: the variant `Value::String`.
#[verifier::external_body]
pub(crate) fn json_of_text(text: String) -> (res: serde_json::Value)
    ensures
        json_tree(res) == JsonTree::Text(text@),
{
    serde_json::Value::String(text)
}

/// The value of an unsigned number. Trusted: `Value::from` at `u64`, which
/// holds the number as an integer.
#[verifier::external_body]
pub(crate) fn json_of_u64(n: u64) -> (res: serde_json::Value)
    ensures
        json_tree(res) == JsonTree::Integer(n as int),
{
    serde_json::Value::from(n)
}

/// The value of a signed number. Trusted: `Value::from` at `i64`, which
/// holds the number as an integer.
#[verifier::external_body]
pub(crate) fn json_of_i64(n: i64) -> (res: serde_json::Value)
    ensures
        json_tree(res) == JsonTree::Integer(n as int),
{
    serde_json::Value::from(n)
}

/// The object without members. Trusted: `Map::new` in the variant
/// `Value::Object`.
#[verifier::external_body]
pub(crate) fn json_empty_object() -> (res: serde_json::Value)
    ensures
        json_tree(res) == JsonTree::Object(Map::empty()),
{
    serde_json::Value::Object(serde_json::Map::new())
}

/// Puts a member into an object. Trusted: `Map::insert` on the map of the
/// `Object` variant, which adds the key with the value, or replaces the
/// value that the key had.
#[verifier::external_body]
pub(crate) fn json_put(object: &mut serde_json::Value, key: &str, item: serde_json::Value)
    requires
        json_tree(*old(object)) is Object,
    ensures
        json_tree(*final(object)) == JsonTree::Object(
            json_tree(*old(object))->Object_0.insert(key@, json_tree(item)),
        ),
{
    if let serde_json::Value::Object(members) = object {
        members.insert(key.to_owned(), item);
    }
}

/// The members that a map of fields holds: each key with the document of
/// its value.
pub uninterp spec fn fields_tree(fields: HashMap<String, serde_json::Value>) -> Map<
    Seq<char>,
    JsonTree,
>;

/// The object that holds the fields of a map. Trusted: the `FromIterator`
/// impl of `serde_json::Map`, which is handed each key of a copy of the map
/// with its value; the keys of a `HashMap` are distinct.
#[verifier::external_body]
pub(crate) fn json_of_fields(fields: &HashMap<String, serde_json::Value>) -> (res:
    serde_json::Value)
    ensures
        json_tree(res) == JsonTree::Object(fields_tree(*fields)),
{
    serde_json::Value::Object(fields.clone().into_iter().collect())
}

/// The map of the fields that an object holds; none for a value that is no
/// object. Trusted: `Value::as_object`, and the owning iterator of
/// `serde_json::Map`, which yields each member of a copy of the object once.
#[verifier::external_body]
pub(crate) fn fields_of_json(value: &serde_json::Value) -> (res: Option<
    HashMap<String, serde_json::Value>,
>)
    ensures
        match json_tree(*value) {
            JsonTree::Object(members) => res is Some && fields_tree(res->0) == members,
            _ => res is None,
        },
{
    value.as_object().map(|members| members.clone().into_iter().collect())
}

/// Encodes a map of JSON values as the text of a JSON object. Trusted:
/// `serde_json::to_string`. Nothing is claimed of the text.
#[verifier::external_body]
pub(crate) fn encode_json_map(fields: &HashMap<String, serde_json::Value>) -> (res: Result<
    String,
    serde_json::Error,
>) {
    serde_json::to_string(fields)
}

/// The string that a document is, if it is one.
pub open spec fn text_of(tree: JsonTree) -> Option<Seq<char>> {
    match tree {
        JsonTree::Text(text) => Some(text),
        _ => None,
    }
}

/// The member of an object under a key; none for a missing key and for a
/// document that is no object.
pub open spec fn member(tree: JsonTree, key: Seq<char>) -> Option<JsonTree> {
    match tree {
        JsonTree::Object(members) => if members.contains_key(key) {
            Some(members[key])
        } else {
            None
        },
        _ => None,
    }
}

/// The string under a key of an object, if there is one.
pub open spec fn member_text(tree: JsonTree, key: Seq<char>) -> Option<Seq<char>> {
    match member(tree, key) {
        Some(value) => text_of(value),
        None => None,
    }
}

/// Whether a value is the given string.
pub fn is_text(value: &serde_json::Value, text: &str) -> (res: bool)
    ensures
        res == (text_of(json_tree(*value)) == Some(text@)),
{
    match json_str(value) {
        Some(found) => text_eq(found, text),
        None => false,
    }
}

/// The string under a key of an object.
pub fn member_string(value: &serde_json::Value, key: &str) -> (res: Option<String>)
    ensures
        opt_text(res) == member_text(json_tree(*value), key@),
{
    match json_member(value, key) {
        Some(found) => match json_str(found) {
            Some(text) => Some(text.to_owned()),
            None => None,
        },
        None => None,
    }
}

} // verus!
