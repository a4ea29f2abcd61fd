//! JSON values: what they hold, and the operations on them that the library makes
//! use of.
use vstd::prelude::*;

verus! {

/// What a JSON value holds.
pub enum JsonTree {
    Null,
    Flag(bool),
    /// A number from 0 to the largest unsigned one.
    Unsigned(u64),
    /// An integer below 0.
    Negative(i64),
    /// Another number.
    Number,
    Text(Seq<char>),
    List(Seq<JsonTree>),
    Object(Map<Seq<char>, JsonTree>),
}

/// A JSON value.
#[verifier::external_type_specification]
#[verifier::external_body]
pub struct ExValue(serde_json::Value);

/// What a JSON value holds.
pub uninterp spec fn json_tree(value: serde_json::Value) -> JsonTree;

/// The compact text of a JSON value.
pub uninterp spec fn json_text(value: serde_json::Value) -> Seq<char>;

/// What serde_json reads from a text, where it is a JSON value.
pub uninterp spec fn parsed_json(s: Seq<char>) -> Option<JsonTree>;

/// Calls `serde_json::from_str`, which reads a value of any kind from its text or
/// fails. Which texts are values, and what they hold, is not stated.
#[verifier::external_body]
pub(crate) fn parse_json(s: &str) -> (r: Option<serde_json::Value>)
    ensures
        match r {
            Some(v) => parsed_json(s@) == Some(json_tree(v)),
            None => parsed_json(s@) is None,
        },
{
    serde_json::from_str(s).ok()
}

/// Calls `Value::to_string`, which writes a value without white space. What the
/// text of a given value is is not stated.
#[verifier::external_body]
pub(crate) fn write_json(value: &serde_json::Value) -> (r: String)
    ensures
        r@ == json_text(*value),
{
    value.to_string()
}

/// Calls `Value::clone`: a value that holds the same, and is written the same.
#[verifier::external_body]
pub(crate) fn copy_json(value: &serde_json::Value) -> (r: serde_json::Value)
    ensures
        json_tree(r) == json_tree(*value),
        json_text(r) == json_text(*value),
{
    value.clone()
}

/// What an object holds under a key: null where there is nothing, and where it is
/// no object.
pub open spec fn at(tree: JsonTree, key: Seq<char>) -> JsonTree {
    match tree {
        JsonTree::Object(m) => if m.contains_key(key) {
            m[key]
        } else {
            JsonTree::Null
        },
        _ => JsonTree::Null,
    }
}

/// Indexes a `Value` with a key: what an object holds under the key, or null.
#[verifier::external_body]
pub(crate) fn json_at<'a>(value: &'a serde_json::Value, key: &str) -> (r: &'a serde_json::Value)
    ensures
        json_tree(*r) == at(json_tree(*value), key@),
{
    &value[key]
}

/// What a list holds at a position: null beyond its end, and where it is no list.
pub open spec fn item(tree: JsonTree, i: int) -> JsonTree {
    match tree {
        JsonTree::List(s) => if 0 <= i < s.len() {
            s[i]
        } else {
            JsonTree::Null
        },
        _ => JsonTree::Null,
    }
}

/// Indexes a `Value` with a position: what a list holds there, or null.
#[verifier::external_body]
pub(crate) fn json_item(value: &serde_json::Value, i: usize) -> (r: &serde_json::Value)
    ensures
        json_tree(*r) == item(json_tree(*value), i as int),
{
    &value[i]
}

/// Calls `Value::as_array` and takes the length of the list.
#[verifier::external_body]
pub(crate) fn json_len(value: &serde_json::Value) -> (r: Option<usize>)
    ensures
        match r {
            Some(n) => json_tree(*value) is List && json_tree(*value)->List_0.len() == n,
            None => !(json_tree(*value) is List),
        },
{
    value.as_array().map(|a| a.len())
}

/// The text that a value is.
pub open spec fn as_text(tree: JsonTree) -> Option<Seq<char>> {
    match tree {
        JsonTree::Text(s) => Some(s),
        _ => None,
    }
}

/// Calls `Value::as_str`: the text that a value is.
#[verifier::external_body]
pub(crate) fn json_str(value: &serde_json::Value) -> (r: Option<&str>)
    ensures
        match r {
            Some(s) => as_text(json_tree(*value)) == Some(s@),
            None => as_text(json_tree(*value)) is None,
        },
{
    value.as_str()
}

/// Calls `Value::as_u64`: the unsigned number that a value is.
#[verifier::external_body]
pub(crate) fn json_u64(value: &serde_json::Value) -> (r: Option<u64>)
    ensures
        match r {
            Some(n) => json_tree(*value) == JsonTree::Unsigned(n),
            None => !(json_tree(*value) is Unsigned),
        },
{
    value.as_u64()
}

/// Makes a `Value` of a text.
#[verifier::external_body]
pub(crate) fn text_json(s: &str) -> (r: serde_json::Value)
    ensures
        json_tree(r) == JsonTree::Text(s@),
{
    serde_json::Value::from(s)
}

/// Makes a `Value` of an unsigned number.
#[verifier::external_body]
pub(crate) fn number_json(n: u64) -> (r: serde_json::Value)
    ensures
        json_tree(r) == JsonTree::Unsigned(n),
{
    serde_json::Value::from(n)
}

/// Makes a `Value` of a signed number, which is held as an unsigned one from 0 on.
#[verifier::external_body]
pub(crate) fn signed_json(n: i64) -> (r: serde_json::Value)
    ensures
        json_tree(r) == (if n < 0 {
            JsonTree::Negative(n)
        } else {
            JsonTree::Unsigned(n as u64)
        }),
{
    serde_json::Value::from(n)
}

/// Makes the `Value` that is null.
#[verifier::external_body]
pub(crate) fn null_json() -> (r: serde_json::Value)
    ensures
        json_tree(r) == JsonTree::Null,
{
    serde_json::Value::Null
}

/// Makes a `Value` of a truth value.
#[verifier::external_body]
pub(crate) fn flag_json(b: bool) -> (r: serde_json::Value)
    ensures
        json_tree(r) == JsonTree::Flag(b),
{
    serde_json::Value::from(b)
}

/// What a list of values holds.
pub open spec fn trees(v: Seq<serde_json::Value>) -> Seq<JsonTree> {
    Seq::new(v.len(), |i: int| json_tree(v[i]))
}

/// Makes a `Value` of a list.
#[verifier::external_body]
pub(crate) fn list_json(v: Vec<serde_json::Value>) -> (r: serde_json::Value)
    ensures
        json_tree(r) == JsonTree::List(trees(v@)),
{
    serde_json::Value::Array(v)
}

/// An object that holds nothing.
pub open spec fn no_entries() -> Map<Seq<char>, JsonTree> {
    Map::empty()
}

/// Makes a `Value` of an object that holds nothing.
#[verifier::external_body]
pub(crate) fn object_json() -> (r: serde_json::Value)
    ensures
        json_tree(r) == JsonTree::Object(no_entries()),
{
    serde_json::Value::Object(serde_json::Map::new())
}

/// Assigns to `Value`'s index: puts a value under a key of an object. On a value
/// of another kind but null the assignment would panic.
#[verifier::external_body]
pub(crate) fn json_set(value: &mut serde_json::Value, key: &str, entry: serde_json::Value)
    requires
        json_tree(*old(value)) is Object,
    ensures
        json_tree(*final(value)) == JsonTree::Object(
            json_tree(*old(value))->Object_0.insert(key@, json_tree(entry)),
        ),
{
    value[key] = entry;
}

/// A text is what is written for a value that holds a tree.
pub open spec fn writes(s: Seq<char>, tree: JsonTree) -> bool {
    exists|v: serde_json::Value| #[trigger] json_tree(v) == tree && json_text(v) == s
}

/// An entry of an object is found under its key, and an item of a list at its place; what
/// is not there is null. A text is read as it is.
pub proof fn law_values_are_found(
    m: Map<Seq<char>, JsonTree>,
    key: Seq<char>,
    s: Seq<char>,
    tree: JsonTree,
)
    ensures
        m.contains_key(key) ==> at(JsonTree::Object(m), key) == m[key],
        !m.contains_key(key) ==> at(JsonTree::Object(m), key) is Null,
        !(tree is Object) ==> at(tree, key) is Null,
        as_text(JsonTree::Text(s)) == Some(s),
        as_text(tree) is Some <==> tree is Text,
{
}

} // verus!
