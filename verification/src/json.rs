//! JSON payloads, as `serde_json` represents them.

use vstd::prelude::*;
use vstd::string::*;

verus! {

/// `serde_json::Value`, a JSON value. Verus sees nothing inside it; what it holds is spoken of
/// through the names below.
#[verifier::external_type_specification]
#[verifier::external_body]
pub struct ExJsonValue(serde_json::Value);

/// The members of a JSON object by name; none for a value that is not an object.
pub uninterp spec fn json_members(value: serde_json::Value) -> Map<Seq<char>, serde_json::Value>;

/// Whether a JSON value is an object.
pub uninterp spec fn json_is_object(value: serde_json::Value) -> bool;

/// The characters of a JSON string; `None` for any other value.
pub uninterp spec fn json_text(value: serde_json::Value) -> Option<Seq<char>>;

/// The integer that a JSON number is held as, if that fits in an `i64`; `None` for a number that
/// is held as a float, such as `1.0`, and for any other value.
pub uninterp spec fn json_integer(value: serde_json::Value) -> Option<i64>;

/// Calls `serde_json::Value::get` with a string.
///
/// Trusted: it returns the member of that name of an object, and nothing for another name or for
/// a value that is not an object.
#[verifier::external_body]
pub(crate) fn member<'a>(value: &'a serde_json::Value, name: &str) -> (found: Option<
    &'a serde_json::Value,
>)
    ensures
        match found {
            Some(member) => json_members(*value).contains_key(name@) && *member == json_members(
                *value,
            )[name@],
            None => !json_members(*value).contains_key(name@),
        },
{
    value.get(name)
}

/// Calls `serde_json::Value::as_str`.
///
/// Trusted: it returns the string that the value is, and nothing when it is not a string.
#[verifier::external_body]
pub(crate) fn as_text<'a>(value: &'a serde_json::Value) -> (found: Option<&'a str>)
    ensures
        crate::text::chars_of_str(found) == json_text(*value),
{
    value.as_str()
}

/// Calls `serde_json::Value::as_i64`.
///
/// Trusted: it returns the integer that the value is held as when that fits in an `i64`, and
/// nothing otherwise.
#[verifier::external_body]
pub(crate) fn as_integer(value: &serde_json::Value) -> (found: Option<i64>)
    ensures
        found == json_integer(*value),
{
    value.as_i64()
}

/// Calls `serde_json::Value::is_object`.
///
/// Trusted: whether a value is an object depends on the value alone.
#[verifier::external_body]
pub(crate) fn is_object(value: &serde_json::Value) -> (object: bool)
    ensures
        object == json_is_object(*value),
{
    value.is_object()
}

/// Calls `serde_json::Map::new`.
///
/// Trusted: the object around the new map has no members.
#[verifier::external_body]
pub(crate) fn empty_object() -> (value: serde_json::Value)
    ensures
        json_is_object(value),
        json_members(value).dom() == Set::<Seq<char>>::empty(),
{
    serde_json::Value::Object(serde_json::Map::new())
}

/// Calls `serde_json::Value::from` with an `i64`.
///
/// Trusted: the value is the number `n`, and no string.
#[verifier::external_body]
pub(crate) fn integer(n: i64) -> (value: serde_json::Value)
    ensures
        json_integer(value) == Some(n),
        json_text(value) is None,
{
    serde_json::Value::from(n)
}

/// Calls `serde_json::Map::insert` on the map inside an object.
///
/// Trusted: the member of that name becomes `member`, and every other member stays.
#[verifier::external_body]
pub(crate) fn set_member(value: &mut serde_json::Value, name: &str, member: serde_json::Value)
    requires
        json_is_object(*old(value)),
    ensures
        json_is_object(*final(value)),
        json_members(*final(value)) == json_members(*old(value)).insert(name@, member),
{
    if let Some(members) = value.as_object_mut() {
        members.insert(name.to_string(), member);
    }
}

/// The text of the member `name` of a payload, if it has one and that is a string.
pub open spec fn text_member(value: serde_json::Value, name: Seq<char>) -> Option<Seq<char>> {
    if json_members(value).contains_key(name) {
        json_text(json_members(value)[name])
    } else {
        None
    }
}

/// The text of the member `name` of a payload, if it has one and that is a string.
pub fn member_text(value: &serde_json::Value, name: &str) -> (found: Option<String>)
    ensures
        crate::text::chars_of(found) == text_member(*value, name@),
{
    match member(value, name) {
        Some(member) => match as_text(member) {
            Some(text) => Some(text.to_string()),
            None => None,
        },
        None => None,
    }
}

} // verus!
