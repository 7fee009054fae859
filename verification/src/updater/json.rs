//! Trusted access to the JSON value tree of the serde_json crate.
//!
//! Upstream response bodies arrive as text and are read through
//! serde_json's `Value`.  That type is opaque here, so its content is
//! named: [`JsonView`] is the mathematical shape of a value tree,
//! [`json_view`] names the tree a `Value` holds, [`json_members`] names
//! the member map an object holds, and [`json_of`] names the tree that
//! parsing a text yields.  Each wrapper below makes exactly one call
//! into the crate and states, over those names, what the call returns;
//! the verified parsing code in the updater strategies does everything
//! else.

use vstd::prelude::*;

verus! {

#[verifier::external_type_specification]
#[verifier::external_body]
pub struct ExValue(serde_json::Value);

#[verifier::external_type_specification]
#[verifier::external_body]
#[verifier::reject_recursive_types(K)]
#[verifier::reject_recursive_types(V)]
pub struct ExJsonMap<K, V>(serde_json::Map<K, V>);

/// Mathematical shape of a JSON value tree.  It keeps exactly what the
/// updater strategies read — which kind a value is, the characters of a
/// string, the elements of an array, the members of an object — and
/// collapses the payload of the other kinds.
pub ghost enum JsonView {
    Null,
    Bool,
    Number,
    Text { value: Seq<char> },
    Array { items: Seq<JsonView> },
    Object { members: Map<Seq<char>, JsonView> },
}

/// The tree a JSON value holds.
pub uninterp spec fn json_view(v: serde_json::Value) -> JsonView;

/// The member map a JSON object map holds.
pub uninterp spec fn json_members(m: serde_json::Map<String, serde_json::Value>) -> Map<
    Seq<char>,
    JsonView,
>;

/// The tree that parsing a text as one JSON document yields, absent
/// when the text is not one.  The result depends on the characters
/// alone.
pub uninterp spec fn json_of(s: Seq<char>) -> Option<JsonView>;

/// Relies on serde_json::from_str with the `Value` target: parses a JSON
/// document into its value tree — the tree named `json_of` — or
/// describes why the text is not one (the description is the parse
/// error's display form).
#[verifier::external_body]
pub(crate) fn json_from_str(s: &str) -> (r: Result<serde_json::Value, String>)
    ensures
        match r {
            Ok(v) => json_of(s@) == Some(json_view(v)),
            Err(_) => json_of(s@) is None,
        },
{
    serde_json::from_str(s).map_err(|e| e.to_string())
}

/// Relies on serde_json::Value::as_object: the member map of an object
/// value, absent for any other kind of value.
#[verifier::external_body]
pub(crate) fn json_as_object<'a>(v: &'a serde_json::Value) -> (r: Option<
    &'a serde_json::Map<String, serde_json::Value>,
>)
    ensures
        match r {
            Some(m) => json_view(*v) matches JsonView::Object { members } && json_members(*m)
                == members,
            None => !(json_view(*v) is Object),
        },
{
    v.as_object()
}

/// Relies on serde_json::Map::get: the value a key maps to, if any.
#[verifier::external_body]
pub(crate) fn json_object_get<'a>(
    m: &'a serde_json::Map<String, serde_json::Value>,
    key: &str,
) -> (r: Option<&'a serde_json::Value>)
    ensures
        match r {
            Some(val) => json_members(*m).contains_key(key@) && json_view(*val) == json_members(
                *m,
            )[key@],
            None => !json_members(*m).contains_key(key@),
        },
{
    m.get(key)
}

/// Relies on serde_json::Value::as_array: the element list of an array
/// value, absent for any other kind of value.
#[verifier::external_body]
pub(crate) fn json_as_array<'a>(v: &'a serde_json::Value) -> (r: Option<
    &'a Vec<serde_json::Value>,
>)
    ensures
        match r {
            Some(a) => json_view(*v) matches JsonView::Array { items } && items.len() == a@.len()
                && forall|i: int| 0 <= i < a@.len() ==> items[i] == json_view(#[trigger] a@[i]),
            None => !(json_view(*v) is Array),
        },
{
    v.as_array()
}

/// Relies on serde_json::Value::as_str: the text of a string value,
/// absent for any other kind of value.
#[verifier::external_body]
pub(crate) fn json_as_str<'a>(v: &'a serde_json::Value) -> (r: Option<&'a str>)
    ensures
        match r {
            Some(s) => json_view(*v) == (JsonView::Text { value: s@ }),
            None => !(json_view(*v) is Text),
        },
{
    v.as_str()
}

} // verus!
