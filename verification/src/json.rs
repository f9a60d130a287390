//! JSON documents as the completion service exchanges them.
//!
//! Parsing and rendering are done by `serde_json`. Its `Value` stays opaque
//! to the verifier; [`JsonTree`] is the mathematical tree that a `Value`
//! stands for, and every operation on a `Value` is described over that tree.
//! The descriptions are taken from `serde_json` with its default map, which
//! keeps one member per key and orders members by key.

use vstd::prelude::*;

verus! {

/// The tree of a JSON document.
pub enum JsonTree {
    Null,
    Bool(bool),
    /// A number without fraction or exponent, by its value.
    Integer(int),
    /// Any other number, by its literal.
    Decimal(Seq<char>),
    Text(Seq<char>),
    Array(Seq<JsonTree>),
    /// Members by key; a key occurs once.
    Object(Map<Seq<char>, JsonTree>),
}

/// Declares `serde_json::Value`. Nothing inside a value is visible to the
/// verifier; what it holds is spoken of through [`value_tree`].
#[verifier::external_type_specification]
#[verifier::external_body]
pub struct ExValue(serde_json::Value);

/// The tree that a `serde_json::Value` holds.
pub uninterp spec fn value_tree(value: serde_json::Value) -> JsonTree;

/// The document that `serde_json` reads from a text; `None` where the text
/// is not one JSON document.
pub uninterp spec fn json_document(text: Seq<char>) -> Option<JsonTree>;

/// The text that `serde_json` writes for a document, in its compact form.
pub uninterp spec fn json_text(tree: JsonTree) -> Seq<char>;

/// The trees of a list of values.
pub open spec fn trees_of(values: Seq<serde_json::Value>) -> Seq<JsonTree> {
    values.map_values(|value: serde_json::Value| value_tree(value))
}

/// The member of an object under a key.
pub open spec fn member(tree: JsonTree, key: Seq<char>) -> Option<JsonTree> {
    match tree {
        JsonTree::Object(members) => if members.contains_key(key) {
            Some(members[key])
        } else {
            None
        },
        _ => None,
    }
}

/// The member of an object under a key, where `null` counts as no member.
pub open spec fn present_member(tree: JsonTree, key: Seq<char>) -> Option<JsonTree> {
    match member(tree, key) {
        Some(JsonTree::Null) => None,
        other => other,
    }
}

/// The string under a key that must hold one.
pub open spec fn required_text(tree: JsonTree, key: Seq<char>) -> Option<Seq<char>> {
    match member(tree, key) {
        Some(JsonTree::Text(text)) => Some(text),
        _ => None,
    }
}

/// The string under a key that may be missing: `None` where the member is
/// there and is no string, `Some(None)` where it is missing or `null`.
pub open spec fn optional_text(tree: JsonTree, key: Seq<char>) -> Option<Option<Seq<char>>> {
    match present_member(tree, key) {
        None => Some(None),
        Some(JsonTree::Text(text)) => Some(Some(text)),
        Some(_) => None,
    }
}

/// Calls `serde_json::from_str` for a `Value`: the text is read as one JSON
/// document, and what comes back depends on the text alone.
#[verifier::external_body]
pub(crate) fn parse_value(text: &str) -> (r: Option<serde_json::Value>)
    ensures
        match r {
            Some(value) => json_document(text@) == Some(value_tree(value)),
            None => json_document(text@) is None,
        },
{
    serde_json::from_str::<serde_json::Value>(text).ok()
}

/// Calls `serde_json::Value::get` with a string key: the member under that
/// key where the value is an object that has it, nothing otherwise.
#[verifier::external_body]
pub(crate) fn value_member<'a>(value: &'a serde_json::Value, key: &str) -> (r: Option<
    &'a serde_json::Value,
>)
    ensures
        match r {
            Some(found) => member(value_tree(*value), key@) == Some(value_tree(*found)),
            None => member(value_tree(*value), key@) is None,
        },
{
    value.get(key)
}

/// Calls `serde_json::Value::as_str`: the text of a string, nothing for any
/// other value.
#[verifier::external_body]
pub(crate) fn value_text<'a>(value: &'a serde_json::Value) -> (r: Option<&'a str>)
    ensures
        match r {
            Some(text) => value_tree(*value) == JsonTree::Text(text@),
            None => !(value_tree(*value) is Text),
        },
{
    value.as_str()
}

/// Calls `serde_json::Value::as_array`: the elements of an array, nothing for
/// any other value.
#[verifier::external_body]
pub(crate) fn value_items<'a>(value: &'a serde_json::Value) -> (r: Option<
    &'a Vec<serde_json::Value>,
>)
    ensures
        match r {
            Some(items) => value_tree(*value) == JsonTree::Array(trees_of(items@)),
            None => !(value_tree(*value) is Array),
        },
{
    value.as_array()
}

/// Calls `serde_json::Value::is_null`.
#[verifier::external_body]
pub(crate) fn value_is_null(value: &serde_json::Value) -> (r: bool)
    ensures
        r == (value_tree(*value) is Null),
{
    value.is_null()
}

/// Makes `serde_json::Value::Null`.
#[verifier::external_body]
pub(crate) fn null_value() -> (r: serde_json::Value)
    ensures
        value_tree(r) == JsonTree::Null,
{
    serde_json::Value::Null
}

/// Makes `serde_json::Value::Bool`.
#[verifier::external_body]
pub(crate) fn bool_value(flag: bool) -> (r: serde_json::Value)
    ensures
        value_tree(r) == JsonTree::Bool(flag),
{
    serde_json::Value::Bool(flag)
}

/// Calls `serde_json::Value::from` on an `i64`: the number with that value.
#[verifier::external_body]
pub(crate) fn integer_value(number: i64) -> (r: serde_json::Value)
    ensures
        value_tree(r) == JsonTree::Integer(number as int),
{
    serde_json::Value::from(number)
}

/// Makes `serde_json::Value::String` from a copy of the text.
#[verifier::external_body]
pub(crate) fn text_value(text: &str) -> (r: serde_json::Value)
    ensures
        value_tree(r) == JsonTree::Text(text@),
{
    serde_json::Value::String(text.to_owned())
}

/// Makes `serde_json::Value::Array` of the values, in their order.
#[verifier::external_body]
pub(crate) fn array_value(items: Vec<serde_json::Value>) -> (r: serde_json::Value)
    ensures
        value_tree(r) == JsonTree::Array(trees_of(items@)),
{
    serde_json::Value::Array(items)
}

/// Makes `serde_json::Value::Object` of `serde_json::Map::new()`: an object
/// without members.
#[verifier::external_body]
pub(crate) fn empty_object() -> (r: serde_json::Value)
    ensures
        value_tree(r) == JsonTree::Object(Map::empty()),
{
    serde_json::Value::Object(serde_json::Map::new())
}

/// Assigns through `serde_json::Value`'s index by a string key: the object
/// has the member under that key afterwards, in place of one that it had
/// there. On a value that is neither an object nor `null` the index panics.
#[verifier::external_body]
pub(crate) fn insert_member(object: &mut serde_json::Value, key: &str, member: serde_json::Value)
    requires
        value_tree(*old(object)) is Object,
    ensures
        value_tree(*final(object)) == JsonTree::Object(
            value_tree(*old(object))->Object_0.insert(key@, value_tree(member)),
        ),
{
    object[key] = member;
}

/// Calls `serde_json::to_string` on a `Value`, which cannot fail on one: the
/// document as compact text, which depends on the tree alone.
#[verifier::external_body]
pub(crate) fn render_value(value: &serde_json::Value) -> (r: String)
    ensures
        r@ == json_text(value_tree(*value)),
{
    serde_json::to_string(value).unwrap_or_default()
}

/// The member under `key`, unless it is missing or `null`.
pub(crate) fn find_present<'a>(value: &'a serde_json::Value, key: &str) -> (r: Option<
    &'a serde_json::Value,
>)
    ensures
        match r {
            Some(found) => present_member(value_tree(*value), key@) == Some(value_tree(*found)),
            None => present_member(value_tree(*value), key@) is None,
        },
{
    match value_member(value, key) {
        Some(found) => if value_is_null(found) {
            None
        } else {
            Some(found)
        },
        None => None,
    }
}

/// The string under `key`, which must be there.
pub(crate) fn read_required_text(value: &serde_json::Value, key: &str) -> (r: Option<String>)
    ensures
        crate::message::text_view(r) == required_text(value_tree(*value), key@),
{
    match value_member(value, key) {
        Some(found) => match value_text(found) {
            Some(text) => Some(text.to_owned()),
            None => None,
        },
        None => None,
    }
}

/// The string under `key`, which may be missing or `null`; `None` where the
/// member is something else.
pub(crate) fn read_optional_text(value: &serde_json::Value, key: &str) -> (r: Option<
    Option<String>,
>)
    ensures
        match r {
            Some(text) => optional_text(value_tree(*value), key@) == Some(
                crate::message::text_view(text),
            ),
            None => optional_text(value_tree(*value), key@) is None,
        },
{
    match find_present(value, key) {
        Some(found) => match value_text(found) {
            Some(text) => Some(Some(text.to_owned())),
            None => None,
        },
        None => Some(None),
    }
}

} // verus!
