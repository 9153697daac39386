//! The record that a filter is evaluated against: a `serde_json::Value`.
//!
//! Verus does not look inside a `Value`. This module gives it a
//! mathematical model, `Json`, and states what the accessors of
//! `serde_json` that the evaluator calls return in terms of that model.
//! Those statements are believed, not proved.

use serde_json::Value;
use vstd::prelude::*;

verus! {

/// `serde_json::Value`, carried through verified code as an opaque value.
#[verifier::external_type_specification]
#[verifier::external_body]
pub struct ExValue(serde_json::Value);

/// The model of a JSON value.
pub enum Json {
    Null,
    Bool(bool),
    /// A number. The field holds it where it is an integer within the
    /// range of `i64`; a fraction or a larger integer leaves it empty.
    Number(Option<i64>),
    Text(Seq<char>),
    Array(Seq<Json>),
    Object(Map<Seq<char>, Json>),
}

impl Json {
    /// The member of an object under a name: none where the value is no
    /// object or has no such member.
    pub open spec fn member(self, name: Seq<char>) -> Option<Json> {
        match self {
            Json::Object(members) => if members.contains_key(name) {
                Some(members[name])
            } else {
                None
            },
            _ => None,
        }
    }

    /// The integer that a number within the range of `i64` is.
    pub open spec fn integer(self) -> Option<i64> {
        match self {
            Json::Number(n) => n,
            _ => None,
        }
    }

    /// The characters of a string.
    pub open spec fn text(self) -> Option<Seq<char>> {
        match self {
            Json::Text(s) => Some(s),
            _ => None,
        }
    }
}

/// The JSON value that a `serde_json::Value` holds.
pub uninterp spec fn json_of(value: Value) -> Json;

/// `Value::get` with a string index: the member of that name where the
/// value is an object that has one, and nothing otherwise.
#[verifier::external_body]
pub(crate) fn member<'a>(record: &'a Value, name: &str) -> (r: Option<&'a Value>)
    ensures
        match r {
            Some(child) => json_of(*record).member(name@) == Some(json_of(*child)),
            None => json_of(*record).member(name@) is None,
        },
{
    record.get(name)
}

/// `Value::is_number`: whether the value is a JSON number, integer or not.
pub assume_specification[ Value::is_number ](value: &Value) -> (r: bool)
    ensures
        r == json_of(*value) is Number,
;

/// `Value::as_i64`: the integer where the value is a number that is an
/// integer within the range of `i64`, and nothing otherwise.
pub assume_specification[ Value::as_i64 ](value: &Value) -> (r: Option<i64>)
    ensures
        r == json_of(*value).integer(),
;

/// `Value::as_str`: the string where the value is a JSON string, and
/// nothing otherwise.
pub assume_specification<'a>[ Value::as_str ](value: &'a Value) -> (r: Option<&'a str>)
    ensures
        match r {
            Some(s) => json_of(*value).text() == Some(s@),
            None => json_of(*value).text() is None,
        },
;

} // verus!
