//! JSON documents as a mathematical tree.
//!
//! `serde_json` parses the text; what it hands back is modelled by the
//! ghost tree `JsonV`, and each accessor the crate reads through is trusted
//! to agree with that tree.  Everything built on top — the manifest's
//! parse-or-default field readers — is then verified against the tree.

use vstd::prelude::*;

verus! {

/// A JSON value: the mathematical shape of a parsed document.
pub enum JsonV {
    /// `null`.
    Null,
    /// A boolean.
    Bool(bool),
    /// A number; none of the crate's fields reads one.
    Num,
    /// A string.
    Str(Seq<char>),
    /// An array.
    Arr(Seq<JsonV>),
    /// An object: its fields, keyed by name (later duplicates win).
    Obj(Map<Seq<char>, JsonV>),
}

#[verifier::external_type_specification]
#[verifier::external_body]
pub struct ExValue(serde_json::Value);

/// The tree a `serde_json::Value` holds.
pub uninterp spec fn json_rep(v: serde_json::Value) -> JsonV;

/// The tree that parsing the text yields (`serde_json::from_str::<Value>`),
/// `None` when the text is not valid JSON.
pub uninterp spec fn json_of(s: Seq<char>) -> Option<JsonV>;

/// Relies on `serde_json::from_str::<Value>`: whether the text parses, and
/// the tree it parses to, depend on the text alone.
#[verifier::external_body]
pub fn json_parse(s: &str) -> (r: Option<serde_json::Value>)
    ensures
        r matches Some(v) ==> json_of(s@) == Some(json_rep(v)),
        r is Some <==> json_of(s@) is Some,
{
    serde_json::from_str(s).ok()
}

/// Relies on `serde_json::Value::is_object`: true exactly for objects.
#[verifier::external_body]
pub fn json_is_object(v: &serde_json::Value) -> (r: bool)
    ensures
        r == (json_rep(*v) is Obj),
{
    v.is_object()
}

/// Relies on `serde_json::Value::get` with a string index: on an object it
/// looks the key up, on anything else it returns `None`.
#[verifier::external_body]
pub fn json_get<'a>(v: &'a serde_json::Value, key: &str) -> (r: Option<&'a serde_json::Value>)
    ensures
        match json_rep(*v) {
            JsonV::Obj(m) => {
                &&& (r matches Some(x) ==> m.contains_key(key@) && json_rep(*x) == m[key@])
                &&& (r is Some <==> m.contains_key(key@))
            },
            _ => r is None,
        },
{
    v.get(key)
}

/// Relies on `serde_json::Value::as_str`: the string of a string value,
/// `None` for any other shape.
#[verifier::external_body]
pub fn json_as_str<'a>(v: &'a serde_json::Value) -> (r: Option<&'a str>)
    ensures
        match json_rep(*v) {
            JsonV::Str(t) => r matches Some(s) && s@ == t,
            _ => r is None,
        },
{
    v.as_str()
}

/// Relies on `serde_json::Value::as_array`: the elements of an array value,
/// `None` for any other shape.
#[verifier::external_body]
pub fn json_as_array<'a>(v: &'a serde_json::Value) -> (r: Option<&'a Vec<serde_json::Value>>)
    ensures
        match json_rep(*v) {
            JsonV::Arr(es) => r matches Some(a) && a@.map_values(
                |x: serde_json::Value| json_rep(x),
            ) == es,
            _ => r is None,
        },
{
    v.as_array()
}

/// The field of an object, absent when the key is not there.
pub open spec fn obj_field(m: Map<Seq<char>, JsonV>, key: Seq<char>) -> Option<JsonV> {
    if m.contains_key(key) {
        Some(m[key])
    } else {
        None
    }
}

/// The string field of an object: absent, or present with any other shape,
/// reads as `None`.
pub open spec fn str_field(m: Map<Seq<char>, JsonV>, key: Seq<char>) -> Option<Seq<char>> {
    match obj_field(m, key) {
        Some(JsonV::Str(s)) => Some(s),
        _ => None,
    }
}

/// Read a string field of a JSON object, tolerating any other shape.
pub fn get_str_field(v: &serde_json::Value, key: &str) -> (r: Option<String>)
    requires
        json_rep(*v) is Obj,
    ensures
        match r {
            Some(s) => str_field(json_rep(*v)->Obj_0, key@) == Some(s@),
            None => str_field(json_rep(*v)->Obj_0, key@) is None,
        },
{
    match json_get(v, key) {
        Some(x) => match json_as_str(x) {
            Some(s) => Some(s.to_owned()),
            None => None,
        },
        None => None,
    }
}

} // verus!
