//! JSON documents, as far as the pipeline reads them: the members of an
//! object by name, and whether a value is a boolean or a string.

use vstd::prelude::*;

verus! {

/// `serde_json::Value`, a JSON document. Its inside is not visible to
/// proofs; what the library reads of it goes by the names below.
#[verifier::external_type_specification]
#[verifier::external_body]
pub struct ExJsonValue(serde_json::Value);

/// The members of a JSON object, by name. A value that is no object has
/// none.
pub uninterp spec fn members(doc: serde_json::Value) -> Map<Seq<char>, serde_json::Value>;

/// The boolean that a JSON value is, where it is one.
pub uninterp spec fn boolean_of(value: serde_json::Value) -> Option<bool>;

/// The string that a JSON value is, where it is one.
pub uninterp spec fn string_of(value: serde_json::Value) -> Option<Seq<char>>;

/// `Value::get` with a string index: the member of that name where the
/// value is an object that has one, `None` otherwise. The contract names the
/// members and claims no more than that the call reads them.
#[verifier::external_body]
pub(crate) fn member<'a>(doc: &'a serde_json::Value, name: &str) -> (found: Option<
    &'a serde_json::Value,
>)
    ensures
        members(*doc).contains_key(name@) ==> found == Some(&members(*doc)[name@]),
        !members(*doc).contains_key(name@) ==> found is None,
{
    doc.get(name)
}

/// `Value::as_bool`: the boolean where the value is one, `None` otherwise.
pub assume_specification[ serde_json::Value::as_bool ](value: &serde_json::Value) -> (flag: Option<
    bool,
>)
    ensures
        flag == boolean_of(*value),
;

/// `Value::as_str`: the string where the value is one, `None` otherwise.
pub assume_specification<'a>[ serde_json::Value::as_str ](value: &'a serde_json::Value) -> (text:
    Option<&'a str>)
    ensures
        text.deep_view() == string_of(*value),
;

/// `Clone` for `Value`, which the crate derives: the copy equals the value
/// that it was made from.
pub assume_specification[ <serde_json::Value as Clone>::clone ](value: &serde_json::Value) -> (copy:
    serde_json::Value)
    ensures
        copy == *value,
;

/// The member `name` of `doc`, where it has one.
pub open spec fn member_at(doc: serde_json::Value, name: Seq<char>) -> Option<serde_json::Value> {
    if members(doc).contains_key(name) {
        Some(members(doc)[name])
    } else {
        None
    }
}

/// The boolean that `doc` holds under `name`: `None` where it has no such
/// member or the member is no boolean.
pub open spec fn flag_at(doc: serde_json::Value, name: Seq<char>) -> Option<bool> {
    match member_at(doc, name) {
        Some(value) => boolean_of(value),
        None => None,
    }
}

/// The string that `doc` holds under `name`: `None` where it has no such
/// member or the member is no string.
pub open spec fn text_at(doc: serde_json::Value, name: Seq<char>) -> Option<Seq<char>> {
    match member_at(doc, name) {
        Some(value) => string_of(value),
        None => None,
    }
}

/// Reads the boolean member `name` of `doc`.
pub fn read_flag(doc: &serde_json::Value, name: &str) -> (flag: Option<bool>)
    ensures
        flag == flag_at(*doc, name@),
{
    match member(doc, name) {
        Some(value) => value.as_bool(),
        None => None,
    }
}

/// Reads the string member `name` of `doc`.
pub fn read_text(doc: &serde_json::Value, name: &str) -> (text: Option<String>)
    ensures
        text.deep_view() == text_at(*doc, name@),
{
    match member(doc, name) {
        Some(value) => match value.as_str() {
            Some(text) => Some(text.to_owned()),
            None => None,
        },
        None => None,
    }
}

/// Copies the member `name` of `doc`.
pub fn read_member(doc: &serde_json::Value, name: &str) -> (found: Option<serde_json::Value>)
    ensures
        found == member_at(*doc, name@),
{
    match member(doc, name) {
        Some(value) => Some(value.clone()),
        None => None,
    }
}

} // verus!
