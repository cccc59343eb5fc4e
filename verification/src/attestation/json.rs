//! JSON values as the `serde_json` crate holds them.

use vstd::prelude::*;
use serde_json::Value;

verus! {

/// A value of the `serde_json` crate.
#[verifier::external_type_specification]
#[verifier::external_body]
pub struct ExValue(serde_json::Value);

/// What a JSON value holds. Of a number only the integer is kept that it stands for, where it
/// stands for one of 64 bits with a sign.
pub enum Json {
    Null,
    Bool(bool),
    Number(Option<i64>),
    Text(Seq<char>),
    List(Seq<Json>),
    Object(Map<Seq<char>, Json>),
}

impl Json {
    /// What stands under `key` in an object.
    pub open spec fn member(self, key: Seq<char>) -> Option<Json> {
        match self {
            Json::Object(members) if members.dom().contains(key) => Some(members[key]),
            _ => None,
        }
    }

    /// The text that this is.
    pub open spec fn text(self) -> Option<Seq<char>> {
        match self {
            Json::Text(s) => Some(s),
            _ => None,
        }
    }

    /// The integer that this is.
    pub open spec fn integer(self) -> Option<i64> {
        match self {
            Json::Number(n) => n,
            _ => None,
        }
    }

    /// The list that this is.
    pub open spec fn list(self) -> Option<Seq<Json>> {
        match self {
            Json::List(items) => Some(items),
            _ => None,
        }
    }

    /// The text under `key`.
    pub open spec fn text_member(self, key: Seq<char>) -> Option<Seq<char>> {
        match self.member(key) {
            Some(value) => value.text(),
            None => None,
        }
    }

    /// The list under `key`.
    pub open spec fn list_member(self, key: Seq<char>) -> Option<Seq<Json>> {
        match self.member(key) {
            Some(value) => value.list(),
            None => None,
        }
    }
}

/// What a value of the `serde_json` crate holds.
pub uninterp spec fn json_of(value: Value) -> Json;

/// What each of several values holds.
pub open spec fn jsons_of(values: Seq<Value>) -> Seq<Json> {
    values.map_values(|value: Value| json_of(value))
}

/// `Value::get` with a key: what stands under it in an object, and nothing in any other value.
#[verifier::external_body]
pub(crate) fn member<'a>(value: &'a Value, key: &str) -> (found: Option<&'a Value>)
    ensures
        match json_of(*value).member(key@) {
            Some(held) => found matches Some(v) && json_of(*v) == held,
            None => found is None,
        },
{
    value.get(key)
}

/// `Value::as_str`: the text, where the value is one.
#[verifier::external_body]
pub(crate) fn as_text<'a>(value: &'a Value) -> (text: Option<&'a str>)
    ensures
        match json_of(*value).text() {
            Some(s) => text matches Some(t) && t@ == s,
            None => text is None,
        },
{
    value.as_str()
}

/// `Value::as_i64`: the integer, where the value is a number that is one of 64 bits with a sign.
#[verifier::external_body]
pub(crate) fn as_integer(value: &Value) -> (integer: Option<i64>)
    ensures
        integer == json_of(*value).integer(),
{
    value.as_i64()
}

/// `Value::as_array`: the items, where the value is a list.
#[verifier::external_body]
pub(crate) fn as_list<'a>(value: &'a Value) -> (items: Option<&'a Vec<Value>>)
    ensures
        match json_of(*value).list() {
            Some(list) => items matches Some(v) && jsons_of(v@) == list,
            None => items is None,
        },
{
    value.as_array()
}

/// The text under `key`.
pub(crate) fn text_member<'a>(value: &'a Value, key: &str) -> (text: Option<&'a str>)
    ensures
        match json_of(*value).text_member(key@) {
            Some(s) => text matches Some(t) && t@ == s,
            None => text is None,
        },
{
    match member(value, key) {
        Some(v) => as_text(v),
        None => None,
    }
}

/// The list under `key`.
pub(crate) fn list_member<'a>(value: &'a Value, key: &str) -> (items: Option<&'a Vec<Value>>)
    ensures
        match json_of(*value).list_member(key@) {
            Some(list) => items matches Some(v) && jsons_of(v@) == list,
            None => items is None,
        },
{
    match member(value, key) {
        Some(v) => as_list(v),
        None => None,
    }
}

} // verus!
