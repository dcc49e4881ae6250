//! What the engine uses of `serde_json`, with what it takes on trust about it.

use vstd::prelude::*;

verus! {

/// A parsed JSON document or one of its members.
#[verifier::external_type_specification]
#[verifier::external_body]
pub struct ExValue(serde_json::Value);

/// A JSON object: its members by key.
#[verifier::external_type_specification]
#[verifier::external_body]
#[verifier::reject_recursive_types(K)]
#[verifier::reject_recursive_types(V)]
pub struct ExMap<K, V>(serde_json::Map<K, V>);

/// What the engine reads of a JSON value.
pub enum JsonView {
    /// An object: its members, each key once, in the order the object iterates them.
    Object(Seq<(Seq<char>, JsonView)>),
    /// A number that is an integer and fits into 64 bits with sign.
    Integer(i64),
    /// Any other value.
    Other,
}

/// What a parsed value holds.
pub uninterp spec fn json_model(value: serde_json::Value) -> JsonView;

/// What an object holds: its members in the order it iterates them.
pub uninterp spec fn object_model(object: serde_json::Map<String, serde_json::Value>) -> Seq<
    (Seq<char>, JsonView),
>;

/// What `text` holds when read as JSON, or the description of why it is no JSON.
pub uninterp spec fn json_text(text: Seq<char>) -> Result<JsonView, Seq<char>>;

/// Whether `value` is an object with the member `key` at position `at`.
pub open spec fn has_member_at(value: JsonView, key: Seq<char>, at: int) -> bool {
    value matches JsonView::Object(members) && 0 <= at < members.len() && members[at].0 == key
}

/// The member of `value` under `key`; none if `value` is no object or has no such member.
pub open spec fn member_of(value: JsonView, key: Seq<char>) -> Option<JsonView> {
    if exists|at: int| has_member_at(value, key, at) {
        Some(value->Object_0[choose|at: int| has_member_at(value, key, at)].1)
    } else {
        None
    }
}

/// Each member's key with its value as an integer, where it is one.
pub open spec fn integer_members(members: Seq<(Seq<char>, JsonView)>) -> Seq<
    (Seq<char>, Option<i64>),
> {
    members.map_values(
        |m: (Seq<char>, JsonView)|
            (
                m.0,
                match m.1 {
                    JsonView::Integer(i) => Some(i),
                    _ => None,
                },
            ),
    )
}

/// The plain value of a list of keys and optional integers.
pub open spec fn entries_view(entries: Seq<(String, Option<i64>)>) -> Seq<(Seq<char>, Option<i64>)> {
    entries.map_values(|e: (String, Option<i64>)| (e.0@, e.1))
}

/// Calls `serde_json::from_str` for a `Value`. Trusted: whether the text
/// parses, and to what, depends on the text alone; a parse error is handed
/// out as the text it displays.
#[verifier::external_body]
pub(crate) fn parse(text: &str) -> (r: Result<serde_json::Value, String>)
    ensures
        match r {
            Ok(value) => json_text(text@) == Ok::<JsonView, Seq<char>>(json_model(value)),
            Err(reason) => json_text(text@) == Err::<JsonView, Seq<char>>(reason@),
        },
{
    match serde_json::from_str::<serde_json::Value>(text) {
        Ok(value) => Ok(value),
        Err(e) => Err(e.to_string()),
    }
}

/// Calls `Value::get` with a string key. Trusted: it finds the member of
/// that key if the value is an object that has one, and nothing otherwise.
#[verifier::external_body]
pub(crate) fn member<'a>(value: &'a serde_json::Value, key: &str) -> (r: Option<
    &'a serde_json::Value,
>)
    ensures
        match r {
            Some(found) => member_of(json_model(*value), key@) == Some(json_model(*found)),
            None => member_of(json_model(*value), key@) is None,
        },
{
    value.get(key)
}

/// Calls `Value::as_object`. Trusted: it gives the object that the value
/// is, and nothing for any other value.
#[verifier::external_body]
pub(crate) fn as_object<'a>(value: &'a serde_json::Value) -> (r: Option<
    &'a serde_json::Map<String, serde_json::Value>,
>)
    ensures
        match r {
            Some(object) => json_model(*value) == JsonView::Object(object_model(*object)),
            None => !(json_model(*value) is Object),
        },
{
    value.as_object()
}

/// Walks `Map::iter` and hands out each key with `Value::as_i64` of its
/// value. Trusted: the members come in the object's order, and `as_i64`
/// gives the integer that a value is, and nothing for any other value.
#[verifier::external_body]
pub(crate) fn int_entries(object: &serde_json::Map<String, serde_json::Value>) -> (out: Vec<
    (String, Option<i64>),
>)
    ensures
        entries_view(out@) == integer_members(object_model(*object)),
{
    object.iter().map(|(key, value)| (key.clone(), value.as_i64())).collect()
}

} // verus!
