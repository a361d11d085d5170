//! JSON documents as `serde_json` holds them.
//!
//! Verus sees nothing inside a `serde_json::Value`. This module gives such a
//! value a mathematical content, [`Json`], and states, without proof, what
//! each `serde_json` function that the crate calls does to that content.
//! Everything else in the crate is proved from these statements.

use serde_json::{Map as Object, Value};
use vstd::prelude::*;

verus! {

/// A JSON number, as far as its value is modelled.
pub enum JsonNumber {
    /// An integer, held exactly.
    Integer(int),
    /// A number that `serde_json` holds as a binary fraction. The model keeps
    /// no more of it than that it is no integer.
    Fraction,
}

/// The mathematical content of a JSON document.
pub enum Json {
    Null,
    Bool(bool),
    Number(JsonNumber),
    String(Seq<char>),
    Array(Seq<Json>),
    Object(Map<Seq<char>, Json>),
}

impl Json {
    /// The member of an object under `key`: `None` for a key that the object
    /// lacks, and for every document that is not an object.
    pub open spec fn member(self, key: Seq<char>) -> Option<Json> {
        match self {
            Json::Object(members) => if members.contains_key(key) {
                Some(members[key])
            } else {
                None
            },
            _ => None,
        }
    }

    /// The integer that a document holds, where it is one that fits `i64`.
    pub open spec fn as_integer(self) -> Option<i64> {
        match self {
            Json::Number(JsonNumber::Integer(n)) => if i64::MIN <= n <= i64::MAX {
                Some(n as i64)
            } else {
                None
            },
            _ => None,
        }
    }
}

/// `serde_json::Value`, a JSON document in memory.
#[verifier::external_type_specification]
#[verifier::external_body]
pub struct ExValue(serde_json::Value);

/// `serde_json::Map`, the members of a JSON object.
#[verifier::external_type_specification]
#[verifier::external_body]
#[verifier::reject_recursive_types(K)]
#[verifier::reject_recursive_types(V)]
pub struct ExObject<K, V>(serde_json::Map<K, V>);

/// `serde_json::Error`, why a text was rejected.
#[verifier::external_type_specification]
#[verifier::external_body]
pub struct ExError(serde_json::Error);

/// The document that a `serde_json::Value` holds: a `Value::Number` made of
/// an integer is `JsonNumber::Integer`, one made of a float is
/// `JsonNumber::Fraction`, and every other variant is the variant of the
/// same name.
pub uninterp spec fn json_of(value: Value) -> Json;

/// The members that a `serde_json::Map` holds, by key.
pub uninterp spec fn members_of(object: Object<String, Value>) -> Map<Seq<char>, Json>;

/// The document that `serde_json` reads from a text, `None` where it
/// rejects the text.
pub uninterp spec fn parsed(text: Seq<char>) -> Option<Json>;

/// The documents that a sequence of values holds, one by one.
pub open spec fn jsons_of(values: Seq<Value>) -> Seq<Json> {
    values.map_values(|value: Value| json_of(value))
}

/// The document that an optional value holds, where there is a value.
pub open spec fn optional_json_of(value: Option<Value>) -> Option<Json> {
    match value {
        Some(value) => Some(json_of(value)),
        None => None,
    }
}

/// `entries` lists the members of an object: each entry is a member, each
/// member is listed, and no key is listed twice. The order is left open.
pub open spec fn lists_members(
    entries: Seq<(&String, &Value)>,
    members: Map<Seq<char>, Json>,
) -> bool {
    &&& forall|i: int|
        0 <= i < entries.len() ==> members.contains_pair(
            (#[trigger] entries[i]).0@,
            json_of(*entries[i].1),
        )
    &&& forall|key: Seq<char>| #[trigger]
        members.contains_key(key) ==> exists|i: int|
            0 <= i < entries.len() && (#[trigger] entries[i]).0@ == key
    &&& forall|i: int, j: int|
        0 <= i < j < entries.len() ==> (#[trigger] entries[i]).0@ != (#[trigger] entries[j]).0@
}

/// `Value::get` with a string index. The contract claims what its
/// documentation says: the member of an object under `key`, and `None`
/// where the key is missing or the value is not an object.
#[verifier::external_body]
pub(crate) fn member<'a>(value: &'a Value, key: &str) -> (found: Option<&'a Value>)
    ensures
        match found {
            Some(inner) => json_of(*value).member(key@) == Some(json_of(*inner)),
            None => json_of(*value).member(key@) is None,
        },
{
    value.get(key)
}

/// `Value::as_str`: the text of a string, `None` for any other value.
pub assume_specification<'a>[ Value::as_str ](value: &'a Value) -> (found: Option<&'a str>)
    ensures
        match found {
            Some(text) => json_of(*value) == Json::String(text@),
            None => !(json_of(*value) is String),
        },
;

/// `Value::as_bool`: the boolean, `None` for any other value.
pub assume_specification[ Value::as_bool ](value: &Value) -> (found: Option<bool>)
    ensures
        match found {
            Some(flag) => json_of(*value) == Json::Bool(flag),
            None => !(json_of(*value) is Bool),
        },
;

/// `Value::as_i64`: the integer of a number that holds one within the range
/// of `i64`, `None` for a larger integer, for a fraction and for any value
/// that is no number.
pub assume_specification[ Value::as_i64 ](value: &Value) -> (found: Option<i64>)
    ensures
        match found {
            Some(n) => json_of(*value) == Json::Number(JsonNumber::Integer(n as int)),
            None => json_of(*value).as_integer() is None,
        },
;

/// `Value::as_array`: the elements of an array, `None` for any other value.
pub assume_specification<'a>[ Value::as_array ](value: &'a Value) -> (found: Option<
    &'a Vec<Value>,
>)
    ensures
        match found {
            Some(elements) => json_of(*value) == Json::Array(jsons_of(elements@)),
            None => !(json_of(*value) is Array),
        },
;

/// `Value::as_object`: the map of an object, `None` for any other value.
pub assume_specification<'a>[ Value::as_object ](value: &'a Value) -> (found: Option<
    &'a Object<String, Value>,
>)
    ensures
        match found {
            Some(object) => json_of(*value) == Json::Object(members_of(*object)),
            None => !(json_of(*value) is Object),
        },
;

/// `Map::iter`, collected: the entries of an object. The contract claims
/// that they are the object's members, each once, and nothing of their
/// order.
#[verifier::external_body]
pub(crate) fn entries<'a>(object: &'a Object<String, Value>) -> (list: Vec<
    (&'a String, &'a Value),
>)
    ensures
        lists_members(list@, members_of(*object)),
{
    object.iter().collect()
}

/// `Value::from` a boolean: a `Value::Bool` of it.
#[verifier::external_body]
pub(crate) fn bool_value(flag: bool) -> (value: Value)
    ensures
        json_of(value) == Json::Bool(flag),
{
    Value::from(flag)
}

/// `Value::from` an `i64`: a `Value::Number` that holds the integer.
#[verifier::external_body]
pub(crate) fn integer_value(n: i64) -> (value: Value)
    ensures
        json_of(value) == Json::Number(JsonNumber::Integer(n as int)),
{
    Value::from(n)
}

/// `Value::from` a string slice: a `Value::String` of the same text.
#[verifier::external_body]
pub(crate) fn string_value(text: &str) -> (value: Value)
    ensures
        json_of(value) == Json::String(text@),
{
    Value::from(text)
}

/// `Value::from` a vector of values: a `Value::Array` of them, in their
/// order.
#[verifier::external_body]
pub(crate) fn array_value(elements: Vec<Value>) -> (value: Value)
    ensures
        json_of(value) == Json::Array(jsons_of(elements@)),
{
    Value::from(elements)
}

/// `Value::from` a map: a `Value::Object` of its members.
#[verifier::external_body]
pub(crate) fn object_value(object: Object<String, Value>) -> (value: Value)
    ensures
        json_of(value) == Json::Object(members_of(object)),
{
    Value::from(object)
}

/// `Map::new`: a map without members.
#[verifier::external_body]
pub(crate) fn empty_object() -> (object: Object<String, Value>)
    ensures
        members_of(object) =~= Map::empty(),
{
    Object::new()
}

/// `Map::insert`: the value stands under the key afterwards, in place of
/// what stood there, and the other members are as before.
#[verifier::external_body]
pub(crate) fn set_member(object: &mut Object<String, Value>, key: String, value: Value)
    ensures
        members_of(*final(object)) == members_of(*old(object)).insert(key@, json_of(value)),
{
    object.insert(key, value);
}

/// `serde_json::from_str` for a `Value`. The contract names the document
/// that comes of a text, and claims that the call succeeds exactly where
/// there is one.
#[verifier::external_body]
pub(crate) fn parse(text: &str) -> (outcome: Result<Value, serde_json::Error>)
    ensures
        match outcome {
            Ok(value) => parsed(text@) == Some(json_of(value)),
            Err(_) => parsed(text@) is None,
        },
{
    serde_json::from_str(text)
}

/// The `Display` text of a `serde_json::Error`. Nothing is claimed of it.
#[verifier::external_body]
pub(crate) fn describe(error: &serde_json::Error) -> String {
    error.to_string()
}

} // verus!
