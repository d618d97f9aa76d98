//! JSON documents, as the `serde_json` crate reads them.
//!
//! Parsing is left to `serde_json`. What a parsed value holds is stated
//! over the model `Json`; the contracts in this file say how the
//! accessors of `serde_json::Value` relate to that model. None of them
//! is proved: they restate what the accessors are documented to do.

use vstd::prelude::*;

verus! {

/// A JSON value, as far as a descriptor looks at it.
pub ghost enum Json {
    Null,
    Bool(bool),
    /// A number: `Some(n)` if it is a non-negative integer that fits in
    /// 64 bits, `None` otherwise (negative, fractional or too large).
    Number(Option<u64>),
    Text(Seq<char>),
    List(Seq<Json>),
    Object(Map<Seq<char>, Json>),
}

/// `serde_json::Value`: a parsed JSON value. Nothing inside it is seen
/// but through the accessors below.
#[verifier::external_type_specification]
#[verifier::external_body]
pub struct ExValue(serde_json::Value);

/// `serde_json::Error`: why a text is no JSON.
#[verifier::external_type_specification]
#[verifier::external_body]
pub struct ExError(serde_json::Error);

/// `serde_json::Map`: the keys and values of a JSON object.
#[verifier::external_type_specification]
#[verifier::external_body]
#[verifier::reject_recursive_types(K)]
#[verifier::reject_recursive_types(V)]
pub struct ExMap<K, V>(serde_json::Map<K, V>);

/// What a `serde_json::Value` holds.
pub uninterp spec fn json_of(v: &serde_json::Value) -> Json;

/// What a `serde_json::Map` holds: its keys and what stands under each.
pub uninterp spec fn fields_of(m: &serde_json::Map<String, serde_json::Value>) -> Map<
    Seq<char>,
    Json,
>;

/// The message of a `serde_json::Error`.
pub uninterp spec fn message_of(e: &serde_json::Error) -> Seq<char>;

/// What `serde_json::from_str` makes of a text: the value it holds, or
/// the message of the error.
pub uninterp spec fn parsed(text: Seq<char>) -> Result<Json, Seq<char>>;

/// The values of a vector of `serde_json::Value`.
pub open spec fn jsons_of(items: Seq<serde_json::Value>) -> Seq<Json> {
    items.map_values(|v: serde_json::Value| json_of(&v))
}

/// `serde_json::from_str`, read as a generic value. The result depends
/// on the text alone; the contract names it `parsed`.
#[verifier::external_body]
pub(crate) fn parse_value(text: &str) -> (r: Result<serde_json::Value, serde_json::Error>)
    ensures
        match r {
            Ok(v) => parsed(text@) == Ok::<Json, Seq<char>>(json_of(&v)),
            Err(e) => parsed(text@) == Err::<Json, Seq<char>>(message_of(&e)),
        },
{
    serde_json::from_str(text)
}

/// The `Display` text of a `serde_json::Error`.
#[verifier::external_body]
pub(crate) fn error_message(e: &serde_json::Error) -> (r: String)
    ensures
        r@ == message_of(e),
{
    e.to_string()
}

/// `Value::is_null`: whether the value is JSON `null`.
pub assume_specification[ serde_json::Value::is_null ](v: &serde_json::Value) -> (b: bool)
    ensures
        b == (json_of(v) is Null),
;

/// `Value::as_str`: the text of a string value, `None` for any other.
pub assume_specification[ serde_json::Value::as_str ](v: &serde_json::Value) -> (r: Option<&str>)
    ensures
        match r {
            Some(s) => json_of(v) == Json::Text(s@),
            None => !(json_of(v) is Text),
        },
;

/// `Value::as_u64`: the number, if the value is a non-negative integer
/// that fits in 64 bits, `None` otherwise.
pub assume_specification[ serde_json::Value::as_u64 ](v: &serde_json::Value) -> (r: Option<u64>)
    ensures
        match r {
            Some(n) => json_of(v) == Json::Number(Some(n)),
            None => !(json_of(v) matches Json::Number(Some(_))),
        },
;

/// `Value::as_array`: the items of an array value, `None` for any other.
pub assume_specification[ serde_json::Value::as_array ](v: &serde_json::Value) -> (r: Option<
    &Vec<serde_json::Value>,
>)
    ensures
        match r {
            Some(items) => json_of(v) == Json::List(jsons_of(items@)),
            None => !(json_of(v) is List),
        },
;

/// `Value::as_object`: the map of an object value, `None` for any other.
pub assume_specification[ serde_json::Value::as_object ](v: &serde_json::Value) -> (r: Option<
    &serde_json::Map<String, serde_json::Value>,
>)
    ensures
        match r {
            Some(m) => json_of(v) == Json::Object(fields_of(m)),
            None => !(json_of(v) is Object),
        },
;

/// `Map::get`: what stands under `key`, `None` if the map has no such
/// key.
#[verifier::external_body]
pub(crate) fn field<'a>(m: &'a serde_json::Map<String, serde_json::Value>, key: &str) -> (r:
    Option<&'a serde_json::Value>)
    ensures
        match r {
            Some(x) => fields_of(m).contains_key(key@) && fields_of(m)[key@] == json_of(x),
            None => !fields_of(m).contains_key(key@),
        },
{
    m.get(key)
}

/// `Map::iter`, collected: every entry of the map once, each key with
/// what stands under it. The order is left open.
#[verifier::external_body]
pub(crate) fn entries<'a>(m: &'a serde_json::Map<String, serde_json::Value>) -> (r: Vec<
    (&'a String, &'a serde_json::Value),
>)
    ensures
        forall|i: int|
            0 <= i < r.len() ==> fields_of(m).contains_key((#[trigger] r[i]).0@) && fields_of(
                m,
            )[r[i].0@] == json_of(r[i].1),
        forall|i: int, j: int| 0 <= i < j < r.len() ==> (#[trigger] r[i]).0@ != (#[trigger] r[j]).0@,
        forall|k: Seq<char>| #[trigger]
            fields_of(m).contains_key(k) ==> exists|i: int| 0 <= i < r.len() && (#[trigger] r[i]).0@ == k,
{
    m.iter().collect()
}

} // verus!
