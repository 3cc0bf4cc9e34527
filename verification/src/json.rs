//! The JSON values that run through the crate, and the calls into
//! `serde_json` that read and build them.
//!
//! Nothing in this module is proved. Every item states what the named
//! `serde_json` function returns; the rest of the crate is verified against
//! these statements.

use serde_json::{Error, Value};
use vstd::prelude::*;

verus! {

/// `serde_json::Value`, a JSON document held in memory. Verus sees nothing
/// inside it.
#[verifier::external_type_specification]
#[verifier::external_body]
pub struct ExValue(serde_json::Value);

/// `serde_json::Map`, the members of a JSON object.
#[verifier::external_type_specification]
#[verifier::external_body]
#[verifier::reject_recursive_types(K)]
#[verifier::reject_recursive_types(V)]
pub struct ExMap<K, V>(serde_json::Map<K, V>);

/// `serde_json::Error`, the reason a text was not accepted as JSON.
#[verifier::external_type_specification]
#[verifier::external_body]
pub struct ExError(serde_json::Error);

/// The document that `serde_json::from_slice` reads from `body`, or `None`
/// where it rejects the bytes.
pub uninterp spec fn parsed(body: Seq<u8>) -> Option<Value>;

/// The members of `v` as `Value::as_object` hands them out: `None` unless `v`
/// is a JSON object.
pub uninterp spec fn object_of(v: Value) -> Option<serde_json::Map<String, Value>>;

/// The member of `m` under `key` as `Map::get` finds it.
pub uninterp spec fn member(m: serde_json::Map<String, Value>, key: Seq<char>) -> Option<Value>;

/// The text of `v` as `Value::as_str` hands it out: `None` unless `v` is a
/// JSON string.
pub uninterp spec fn text_of(v: Value) -> Option<Seq<char>>;

/// The elements of `v` as `Value::as_array` hands them out: `None` unless `v`
/// is a JSON array.
pub uninterp spec fn elements_of(v: Value) -> Option<Seq<Value>>;

/// The JSON array that `Value::from` makes of `items`.
pub uninterp spec fn array_value(items: Seq<Value>) -> Value;

/// The JSON object that `Value::from` makes of the members `m`.
pub uninterp spec fn object_value(m: serde_json::Map<String, Value>) -> Value;

/// The members `m` once `Map::insert` has put `v` under `key`.
pub uninterp spec fn with_member(
    m: serde_json::Map<String, Value>,
    key: Seq<char>,
    v: Value,
) -> serde_json::Map<String, Value>;

/// The compact JSON text that `Value::to_string` writes for `v`.
pub uninterp spec fn rendered(v: Value) -> Seq<char>;

/// Calls `serde_json::from_slice` for a `Value`. The outcome depends on the
/// bytes alone: it is `Ok` with the document `parsed` names, or an error
/// where `parsed` names none.
#[verifier::external_body]
pub(crate) fn parse(body: &[u8]) -> (r: Result<Value, Error>)
    ensures
        match r {
            Ok(v) => parsed(body@) == Some(v),
            Err(_) => parsed(body@) is None,
        },
{
    serde_json::from_slice::<Value>(body)
}

/// `Value::as_object`: the members of a JSON object, `None` for any other
/// kind of value.
pub assume_specification[ Value::as_object ](v: &Value) -> (r: Option<&serde_json::Map<String, Value>>)
    ensures
        match r {
            Some(m) => object_of(*v) == Some(*m),
            None => object_of(*v) is None,
        },
;

/// `Value::as_str`: the text of a JSON string, `None` for any other kind of
/// value.
pub assume_specification[ Value::as_str ](v: &Value) -> (r: Option<&str>)
    ensures
        match r {
            Some(s) => text_of(*v) == Some(s@),
            None => text_of(*v) is None,
        },
;

/// `Value::as_array`: the elements of a JSON array, `None` for any other
/// kind of value.
pub assume_specification[ Value::as_array ](v: &Value) -> (r: Option<&Vec<Value>>)
    ensures
        match r {
            Some(a) => elements_of(*v) == Some(a@),
            None => elements_of(*v) is None,
        },
;

/// `<Value as Clone>::clone`: the copy equals the value it was made from.
pub assume_specification[ <Value as Clone>::clone ](v: &Value) -> (r: Value)
    ensures
        r == *v,
;

/// `<Map<String, Value> as Clone>::clone`: the copy equals the members it was
/// made from.
pub assume_specification[ <serde_json::Map<String, Value> as Clone>::clone ](
    m: &serde_json::Map<String, Value>,
) -> (r: serde_json::Map<String, Value>)
    ensures
        r == *m,
;

/// Calls `Map::get` with a string key: the member under that key, `None`
/// where the object has none.
#[verifier::external_body]
pub(crate) fn get<'a>(m: &'a serde_json::Map<String, Value>, key: &str) -> (r: Option<&'a Value>)
    ensures
        match r {
            Some(v) => member(*m, key@) == Some(*v),
            None => member(*m, key@) is None,
        },
{
    m.get(key)
}

/// Calls `Value::from` on a vector of values: the JSON array of these
/// elements, in their order.
#[verifier::external_body]
pub(crate) fn array(items: Vec<Value>) -> (r: Value)
    ensures
        r == array_value(items@),
        elements_of(r) == Some(items@),
{
    Value::from(items)
}

/// Calls `Value::from` on the members of an object: the JSON object with
/// these members.
#[verifier::external_body]
pub(crate) fn object(m: serde_json::Map<String, Value>) -> (r: Value)
    ensures
        r == object_value(m),
        object_of(r) == Some(m),
{
    Value::from(m)
}

/// Calls `Map::insert`: afterwards `v` is the member under `key`, whether or
/// not there was one before, and every other member is as it was.
#[verifier::external_body]
pub(crate) fn set_member(m: &mut serde_json::Map<String, Value>, key: &str, v: Value)
    ensures
        *final(m) == with_member(*old(m), key@, v),
        member(*final(m), key@) == Some(v),
        forall|other: Seq<char>| other != key@ ==> member(*final(m), other) == member(*old(m), other),
{
    m.insert(key.to_owned(), v);
}

/// Calls `Value::to_string`: the compact JSON text of `v`, which depends on
/// `v` alone.
#[verifier::external_body]
pub(crate) fn render(v: &Value) -> (r: String)
    ensures
        r@ == rendered(*v),
{
    v.to_string()
}

} // verus!
