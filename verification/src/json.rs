//! JSON values, as `serde_json` parses and holds them.

use vstd::prelude::*;
use serde_json::Value;

verus! {

#[verifier::external_type_specification]
#[verifier::external_body]
pub struct ExValue(serde_json::Value);

/// What a JSON value holds. A number that is no integer keeps no more than the
/// fact that it is one.
pub enum Json {
    Null,
    Bool(bool),
    Integer(int),
    Fraction,
    Text(Seq<char>),
    Array(Seq<Json>),
    Object(Map<Seq<char>, Json>),
}

/// What `v` holds.
pub uninterp spec fn json_of(v: &Value) -> Json;

/// What `text` holds when read as one JSON value; `None` where it is not one.
pub uninterp spec fn parsed_json(text: Seq<char>) -> Option<Json>;

/// The member `key` of an object.
pub open spec fn member(j: Json, key: Seq<char>) -> Option<Json> {
    match j {
        Json::Object(m) => if m.contains_key(key) {
            Some(m[key])
        } else {
            None
        },
        _ => None,
    }
}

/// The text of a JSON string.
pub open spec fn text_in(j: Json) -> Option<Seq<char>> {
    match j {
        Json::Text(s) => Some(s),
        _ => None,
    }
}

/// The integer that a JSON number holds, where it fits `i64`.
pub open spec fn i64_in(j: Json) -> Option<i64> {
    match j {
        Json::Integer(n) => if i64::MIN <= n <= i64::MAX {
            Some(n as i64)
        } else {
            None
        },
        _ => None,
    }
}

/// The integer that a JSON number holds, where it fits `u64`.
pub open spec fn u64_in(j: Json) -> Option<u64> {
    match j {
        Json::Integer(n) => if 0 <= n <= u64::MAX {
            Some(n as u64)
        } else {
            None
        },
        _ => None,
    }
}

/// The items of a JSON array.
pub open spec fn items_in(j: Json) -> Option<Seq<Json>> {
    match j {
        Json::Array(items) => Some(items),
        _ => None,
    }
}

/// The text of the member `key`, where that member is a string.
pub open spec fn member_text(j: Json, key: Seq<char>) -> Option<Seq<char>> {
    match member(j, key) {
        Some(m) => text_in(m),
        None => None,
    }
}

/// The member `key` as an `i64`, where that member is such an integer.
pub open spec fn member_i64(j: Json, key: Seq<char>) -> Option<i64> {
    match member(j, key) {
        Some(m) => i64_in(m),
        None => None,
    }
}

/// The member `key` as a `u64`, where that member is such an integer.
pub open spec fn member_u64(j: Json, key: Seq<char>) -> Option<u64> {
    match member(j, key) {
        Some(m) => u64_in(m),
        None => None,
    }
}

/// The items of the member `key`, where that member is an array.
pub open spec fn member_items(j: Json, key: Seq<char>) -> Option<Seq<Json>> {
    match member(j, key) {
        Some(m) => items_in(m),
        None => None,
    }
}

/// `serde_json::from_str` for a `Value`: the value that the text holds, and an
/// error where the text is not one JSON value.
#[verifier::external_body]
pub(crate) fn parse(text: &str) -> (r: Option<Value>)
    ensures
        match r {
            Some(v) => parsed_json(text@) == Some(json_of(&v)),
            None => parsed_json(text@) is None,
        },
{
    serde_json::from_str::<Value>(text).ok()
}

/// `Value::get` with a string index: the member of that name where the value is
/// an object that has one, `None` otherwise.
#[verifier::external_body]
pub(crate) fn get<'a>(v: &'a Value, key: &str) -> (r: Option<&'a Value>)
    ensures
        match r {
            Some(m) => member(json_of(v), key@) == Some(json_of(m)),
            None => member(json_of(v), key@) is None,
        },
{
    v.get(key)
}

/// `Value::as_str`: the text where the value is a string.
pub assume_specification<'a>[ Value::as_str ](v: &'a Value) -> (r: Option<&'a str>)
    ensures
        r.deep_view() == text_in(json_of(v)),
;

/// `Value::as_i64`: the number where the value is an integer that fits `i64`.
pub assume_specification[ Value::as_i64 ](v: &Value) -> (r: Option<i64>)
    ensures
        r == i64_in(json_of(v)),
;

/// `Value::as_u64`: the number where the value is an integer that fits `u64`.
pub assume_specification[ Value::as_u64 ](v: &Value) -> (r: Option<u64>)
    ensures
        r == u64_in(json_of(v)),
;

/// `Value::as_array`: the items where the value is an array.
pub assume_specification<'a>[ Value::as_array ](v: &'a Value) -> (r: Option<&'a Vec<Value>>)
    ensures
        match r {
            Some(items) => items_in(json_of(v)) == Some(
                items@.map_values(|item: Value| json_of(&item)),
            ),
            None => items_in(json_of(v)) is None,
        },
;

/// The text of the member `key`, where that member is a string.
pub fn text_member(v: &Value, key: &str) -> (r: Option<String>)
    ensures
        r.deep_view() == member_text(json_of(v), key@),
{
    match get(v, key) {
        Some(m) => match m.as_str() {
            Some(s) => Some(s.to_owned()),
            None => None,
        },
        None => None,
    }
}

/// The member `key` as an `i64`, where that member is such an integer.
pub fn i64_member(v: &Value, key: &str) -> (r: Option<i64>)
    ensures
        r == member_i64(json_of(v), key@),
{
    match get(v, key) {
        Some(m) => m.as_i64(),
        None => None,
    }
}

/// The member `key` as a `u64`, where that member is such an integer.
pub fn u64_member(v: &Value, key: &str) -> (r: Option<u64>)
    ensures
        r == member_u64(json_of(v), key@),
{
    match get(v, key) {
        Some(m) => m.as_u64(),
        None => None,
    }
}

} // verus!
