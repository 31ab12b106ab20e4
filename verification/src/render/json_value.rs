use serde_json::{Map as JsonMap, Value};
use vstd::prelude::*;

verus! {

/// What a JSON value holds. A number is held by its text; the members of an
/// object are held by name, without an order.
pub enum JsonTree {
    Null,
    Bool(bool),
    Number(Seq<char>),
    Text(Seq<char>),
    List(Seq<JsonTree>),
    Object(Map<Seq<char>, JsonTree>),
}

#[verifier::external_type_specification]
#[verifier::external_body]
pub struct ExValue(Value);

#[verifier::external_type_specification]
#[verifier::external_body]
#[verifier::reject_recursive_types(K)]
#[verifier::reject_recursive_types(V)]
pub struct ExJsonMap<K, V>(JsonMap<K, V>);

/// What a `serde_json::Value` holds.
pub uninterp spec fn json_tree(value: Value) -> JsonTree;

/// The members that a `serde_json::Map` holds, by name.
pub uninterp spec fn json_members(map: JsonMap<String, Value>) -> Map<Seq<char>, JsonTree>;

/// The text of a JSON value on one line, or what the serializer says against it.
pub uninterp spec fn compact_json(tree: JsonTree) -> Result<Seq<char>, Seq<char>>;

/// The text of a JSON value laid out over indented lines, or what the
/// serializer says against it.
pub uninterp spec fn pretty_json(tree: JsonTree) -> Result<Seq<char>, Seq<char>>;

/// The JSON value that a text stands for, if it is JSON.
pub uninterp spec fn parsed_json(text: Seq<char>) -> Option<JsonTree>;

/// An object's members where it has none.
pub open spec fn no_members() -> Map<Seq<char>, JsonTree> {
    Map::empty()
}

pub open spec fn trees_of(values: Seq<Value>) -> Seq<JsonTree> {
    values.map_values(|v: Value| json_tree(v))
}

pub open spec fn text_result(r: Result<String, String>) -> Result<Seq<char>, Seq<char>> {
    match r {
        Ok(s) => Ok(s@),
        Err(m) => Err(m@),
    }
}

pub open spec fn option_text(r: Option<String>) -> Option<Seq<char>> {
    match r {
        Some(s) => Some(s@),
        None => None,
    }
}

/// The member `key` of an object; nothing where the value is no object or
/// has no such member.
pub open spec fn member(tree: JsonTree, key: Seq<char>) -> Option<JsonTree> {
    match tree {
        JsonTree::Object(members) => if members.dom().contains(key) {
            Some(members[key])
        } else {
            None
        },
        _ => None,
    }
}

/// The text of a JSON string; nothing for any other value.
pub open spec fn tree_text(tree: JsonTree) -> Option<Seq<char>> {
    match tree {
        JsonTree::Text(s) => Some(s),
        _ => None,
    }
}

/// The member `key` of an object, where it is a string.
pub open spec fn member_text(tree: JsonTree, key: Seq<char>) -> Option<Seq<char>> {
    match member(tree, key) {
        Some(inner) => tree_text(inner),
        None => None,
    }
}

pub open spec fn option_tree(r: Option<Value>) -> Option<JsonTree> {
    match r {
        Some(value) => Some(json_tree(value)),
        None => None,
    }
}

/// `Value::String`: the JSON string that holds `s`.
#[verifier::external_body]
pub(crate) fn json_string(s: &str) -> (value: Value)
    ensures
        json_tree(value) == JsonTree::Text(s@),
{
    Value::String(s.to_owned())
}

/// `Value::Array`: the JSON array of `items`, in their order.
#[verifier::external_body]
pub(crate) fn json_array(items: Vec<Value>) -> (value: Value)
    ensures
        json_tree(value) == JsonTree::List(trees_of(items@)),
{
    Value::Array(items)
}

/// `Map::new`: a map without members.
#[verifier::external_body]
pub(crate) fn json_map_empty() -> (members: JsonMap<String, Value>)
    ensures
        json_members(members) == no_members(),
{
    JsonMap::new()
}

/// `Map::insert`: sets the member `key` to `value`, in place of any value
/// that the map held for that name.
#[verifier::external_body]
pub(crate) fn json_map_insert(map: &mut JsonMap<String, Value>, key: String, value: Value)
    ensures
        json_members(*final(map)) == json_members(*old(map)).insert(key@, json_tree(value)),
{
    map.insert(key, value);
}

/// `Value::Object`: the JSON object with the members of `map`.
#[verifier::external_body]
pub(crate) fn json_object(map: JsonMap<String, Value>) -> (value: Value)
    ensures
        json_tree(value) == JsonTree::Object(json_members(map)),
{
    Value::Object(map)
}

/// `serde_json::to_string`: the value as JSON text on one line. The text
/// depends on what the value holds alone: members are written in the order of
/// their names.
#[verifier::external_body]
pub(crate) fn json_compact_text(value: &Value) -> (r: Result<String, String>)
    ensures
        text_result(r) == compact_json(json_tree(*value)),
{
    match serde_json::to_string(value) {
        Ok(s) => Ok(s),
        Err(e) => Err(e.to_string()),
    }
}

/// `serde_json::to_string_pretty`: the value as JSON text over indented
/// lines. The text depends on what the value holds alone.
#[verifier::external_body]
pub(crate) fn json_pretty_text(value: &Value) -> (r: Result<String, String>)
    ensures
        text_result(r) == pretty_json(json_tree(*value)),
{
    match serde_json::to_string_pretty(value) {
        Ok(s) => Ok(s),
        Err(e) => Err(e.to_string()),
    }
}

/// `serde_json::from_str`, for a `Value`: the value that the text stands
/// for, or nothing where the text is no JSON.
#[verifier::external_body]
pub(crate) fn json_parse(text: &str) -> (r: Option<Value>)
    ensures
        match r {
            Some(value) => parsed_json(text@) == Some(json_tree(value)),
            None => parsed_json(text@) is None,
        },
{
    serde_json::from_str::<Value>(text).ok()
}

/// `Value::as_array`: the items of a JSON array, and nothing for any other value.
#[verifier::external_body]
pub(crate) fn json_items(value: &Value) -> (r: Option<Vec<Value>>)
    ensures
        match r {
            Some(items) => json_tree(*value) == JsonTree::List(trees_of(items@)),
            None => !(json_tree(*value) is List),
        },
{
    value.as_array().cloned()
}

/// `Value::get` with a name: the member `key` of a JSON object, and nothing
/// where the value is no object or has no such member.
#[verifier::external_body]
pub(crate) fn json_member(value: &Value, key: &str) -> (r: Option<Value>)
    ensures
        option_tree(r) == member(json_tree(*value), key@),
{
    value.get(key).cloned()
}

/// `Value::as_str`: the text of a JSON string, and nothing for any other value.
#[verifier::external_body]
pub(crate) fn json_text_of(value: &Value) -> (r: Option<String>)
    ensures
        option_text(r) == tree_text(json_tree(*value)),
{
    value.as_str().map(str::to_owned)
}

} // verus!
