//! The boundary to `serde_json`: the JSON values that the codec reads and
//! builds, a mathematical model of what they hold, and one thin function for
//! each `serde_json` operation that the codec relies on.
//!
//! Nothing in this file is proved. Each function below states what the
//! `serde_json` operation it calls does, over the model; the rest of the
//! crate is verified against these statements.

use vstd::prelude::*;

verus! {

/// `serde_json::Value`: a JSON value. What it holds is `json_of` of it.
#[verifier::external_type_specification]
#[verifier::external_body]
pub struct ExValue(serde_json::Value);

/// `serde_json::Number`: a JSON number. What it holds is `number_of` of it.
#[verifier::external_type_specification]
#[verifier::external_body]
pub struct ExNumber(serde_json::Number);

/// `serde_json::Error`: why a run of bytes could not be read, or a value
/// not be written.
#[verifier::external_type_specification]
#[verifier::external_body]
pub struct ExError(serde_json::Error);

/// `serde_json::Map`: the members of a JSON object, kept in the order of
/// their keys. What a map from strings to values holds is `object_of` of it.
#[verifier::external_type_specification]
#[verifier::external_body]
#[verifier::reject_recursive_types(K)]
#[verifier::reject_recursive_types(V)]
pub struct ExMap<K, V>(serde_json::Map<K, V>);

/// What a JSON number holds: a non-negative integer, a negative integer, or
/// a finite binary floating-point number, given by the bit pattern of the
/// double that stands for it.
pub enum JsonNumber {
    Unsigned(u64),
    Negative(i64),
    Real(u64),
}

/// What a JSON value holds.
pub enum Json {
    Null,
    Bool(bool),
    Number(JsonNumber),
    Text(Seq<char>),
    Array(Seq<Json>),
    Object(Map<Seq<char>, Json>),
}

/// How an attempt to read one JSON document from a run of bytes ends.
pub enum Parsed {
    /// The bytes are one complete document.
    Document(Json),
    /// The bytes end before the document does.
    Truncated,
    /// The bytes are refused for any other reason.
    Invalid,
}

/// The contents of a `serde_json::Number`.
pub uninterp spec fn number_of(n: serde_json::Number) -> JsonNumber;

/// The contents of a `serde_json::Value`.
pub uninterp spec fn json_of(v: serde_json::Value) -> Json;

/// The contents of a `serde_json::Map` from strings to values.
pub uninterp spec fn object_of(m: serde_json::Map<String, serde_json::Value>) -> Map<Seq<char>, Json>;

/// Whether a `serde_json::Error` reports that the input ended too early:
/// what `Error::is_eof` answers.
pub uninterp spec fn error_at_end(e: serde_json::Error) -> bool;

/// What `serde_json::from_slice` makes of a run of bytes.
pub uninterp spec fn json_parse(bytes: Seq<u8>) -> Parsed;

/// The bytes that `serde_json::to_vec` writes for a value with the given
/// contents.
pub uninterp spec fn json_text(j: Json) -> Seq<u8>;

/// Whether a run of bytes holds no NUL.
pub open spec fn without_nul(bytes: Seq<u8>) -> bool {
    forall|i: int| 0 <= i < bytes.len() ==> bytes[i] != 0
}

/// The contents of each value of a sequence, in order.
pub open spec fn values_of(items: Seq<serde_json::Value>) -> Seq<Json> {
    Seq::new(items.len(), |i: int| json_of(items[i]))
}

/// The member of an object under `key`; `None` for a value that is no object
/// or has no such member.
pub open spec fn json_member(j: Json, key: Seq<char>) -> Option<Json> {
    match j {
        Json::Object(members) => if members.dom().contains(key) {
            Some(members[key])
        } else {
            None
        },
        _ => None,
    }
}

/// The value as a signed 64-bit integer; `None` for anything but an integer
/// in that range.
pub open spec fn json_i64(j: Json) -> Option<i64> {
    match j {
        Json::Number(JsonNumber::Unsigned(u)) => if u <= i64::MAX as u64 {
            Some(u as i64)
        } else {
            None
        },
        Json::Number(JsonNumber::Negative(i)) => Some(i),
        _ => None,
    }
}

/// The value as an unsigned 64-bit integer; `None` for anything but a
/// non-negative integer.
pub open spec fn json_u64(j: Json) -> Option<u64> {
    match j {
        Json::Number(JsonNumber::Unsigned(u)) => Some(u),
        _ => None,
    }
}

/// The number that the value is; `None` for anything but a number.
pub open spec fn json_number(j: Json) -> Option<JsonNumber> {
    match j {
        Json::Number(n) => Some(n),
        _ => None,
    }
}

/// The characters of a string value; `None` for anything but a string.
pub open spec fn json_string(j: Json) -> Option<Seq<char>> {
    match j {
        Json::Text(s) => Some(s),
        _ => None,
    }
}

/// The items of an array value; `None` for anything but an array.
pub open spec fn json_items(j: Json) -> Option<Seq<Json>> {
    match j {
        Json::Array(items) => Some(items),
        _ => None,
    }
}

/// The object without members.
pub open spec fn no_members() -> Map<Seq<char>, Json> {
    Map::empty()
}

/// The number that stands for a signed integer.
pub open spec fn signed_number(i: i64) -> JsonNumber {
    if i < 0 {
        JsonNumber::Negative(i)
    } else {
        JsonNumber::Unsigned(i as u64)
    }
}

/// `serde_json::from_slice` at type `Value`: reads the bytes as one JSON
/// document. On success the value holds the document; on failure the error
/// tells a truncated document from an invalid one.
#[verifier::external_body]
pub(crate) fn parse(bytes: &[u8]) -> (r: Result<serde_json::Value, serde_json::Error>)
    ensures
        match r {
            Ok(v) => json_parse(bytes@) == Parsed::Document(json_of(v)),
            Err(e) => json_parse(bytes@) == if error_at_end(e) {
                Parsed::Truncated
            } else {
                Parsed::Invalid
            },
        },
{
    serde_json::from_slice::<serde_json::Value>(bytes)
}

/// `Error::is_eof`: whether the error reports that the input ended too early.
#[verifier::external_body]
pub(crate) fn at_end(e: &serde_json::Error) -> (r: bool)
    ensures
        r == error_at_end(*e),
{
    e.is_eof()
}

/// `serde_json::to_vec` on a `Value`: the JSON text of the value. Writing a
/// value never fails: its keys are strings and its numbers finite. The text
/// holds no NUL byte: control characters in strings are written escaped.
#[verifier::external_body]
pub(crate) fn render(v: &serde_json::Value) -> (r: Result<Vec<u8>, serde_json::Error>)
    ensures
        r is Ok,
        r is Ok ==> r->Ok_0@ == json_text(json_of(*v)),
        r is Ok ==> without_nul(r->Ok_0@),
{
    serde_json::to_vec(v)
}

/// `Value::get` with a string index: the member of an object under `key`,
/// and `None` for a value that is no object or has no such member.
#[verifier::external_body]
pub(crate) fn member<'a>(v: &'a serde_json::Value, key: &str) -> (r: Option<&'a serde_json::Value>)
    ensures
        match r {
            Some(found) => json_member(json_of(*v), key@) == Some(json_of(*found)),
            None => json_member(json_of(*v), key@) is None,
        },
{
    v.get(key)
}

/// `Value::as_i64`: the value as a signed 64-bit integer.
#[verifier::external_body]
pub(crate) fn as_i64(v: &serde_json::Value) -> (r: Option<i64>)
    ensures
        r == json_i64(json_of(*v)),
{
    v.as_i64()
}

/// `Value::as_u64`: the value as an unsigned 64-bit integer.
#[verifier::external_body]
pub(crate) fn as_u64(v: &serde_json::Value) -> (r: Option<u64>)
    ensures
        r == json_u64(json_of(*v)),
{
    v.as_u64()
}

/// `Value::as_number`: the number inside a number value.
#[verifier::external_body]
pub(crate) fn as_number<'a>(v: &'a serde_json::Value) -> (r: Option<&'a serde_json::Number>)
    ensures
        match r {
            Some(n) => json_number(json_of(*v)) == Some(number_of(*n)),
            None => json_number(json_of(*v)) is None,
        },
{
    v.as_number()
}

/// `Value::as_str`: the characters of a string value.
#[verifier::external_body]
pub(crate) fn as_str<'a>(v: &'a serde_json::Value) -> (r: Option<&'a str>)
    ensures
        match r {
            Some(s) => json_string(json_of(*v)) == Some(s@),
            None => json_string(json_of(*v)) is None,
        },
{
    v.as_str()
}

/// `Value::as_array`: the items of an array value.
#[verifier::external_body]
pub(crate) fn as_array<'a>(v: &'a serde_json::Value) -> (r: Option<&'a Vec<serde_json::Value>>)
    ensures
        match r {
            Some(items) => json_items(json_of(*v)) == Some(values_of(items@)),
            None => json_items(json_of(*v)) is None,
        },
{
    v.as_array()
}

/// `Number::clone`: a number with the same contents.
pub assume_specification[ <serde_json::Number as Clone>::clone ](n: &serde_json::Number) -> (r: serde_json::Number)
    ensures
        number_of(r) == number_of(*n),
;

/// `Number::from_f64` on the default of its argument's type, which is zero:
/// the number that is the floating-point zero. The bit pattern of that zero
/// is all zeros. Zero is finite, so there is such a number.
#[verifier::external_body]
pub(crate) fn number_zero() -> (r: serde_json::Number)
    ensures
        number_of(r) == JsonNumber::Real(0),
{
    serde_json::Number::from_f64(Default::default()).unwrap()
}

/// `Number::from` on an `i64`: the number that stands for the integer.
#[verifier::external_body]
pub(crate) fn number_from_i64(i: i64) -> (r: serde_json::Number)
    ensures
        number_of(r) == signed_number(i),
{
    serde_json::Number::from(i)
}

/// `Number::from` on a `u64`: the number that stands for the integer.
#[verifier::external_body]
pub(crate) fn number_from_u64(u: u64) -> (r: serde_json::Number)
    ensures
        number_of(r) == JsonNumber::Unsigned(u),
{
    serde_json::Number::from(u)
}

/// `Value::Number`: the value that is the given number.
#[verifier::external_body]
pub(crate) fn number_value(n: serde_json::Number) -> (r: serde_json::Value)
    ensures
        json_of(r) == Json::Number(number_of(n)),
{
    serde_json::Value::Number(n)
}

/// `Value::String`: the value that is the given string.
#[verifier::external_body]
pub(crate) fn text_value(s: String) -> (r: serde_json::Value)
    ensures
        json_of(r) == Json::Text(s@),
{
    serde_json::Value::String(s)
}

/// `Value::Array`: the value that is the array of the given items.
#[verifier::external_body]
pub(crate) fn array_value(items: Vec<serde_json::Value>) -> (r: serde_json::Value)
    ensures
        json_of(r) == Json::Array(values_of(items@)),
{
    serde_json::Value::Array(items)
}

/// `Value::Object`: the value that is the object with the given members.
#[verifier::external_body]
pub(crate) fn object_value(members: serde_json::Map<String, serde_json::Value>) -> (r: serde_json::Value)
    ensures
        json_of(r) == Json::Object(object_of(members)),
{
    serde_json::Value::Object(members)
}

/// `Map::new`: a map without members.
#[verifier::external_body]
pub(crate) fn map_new() -> (r: serde_json::Map<String, serde_json::Value>)
    ensures
        object_of(r) == no_members(),
{
    serde_json::Map::new()
}

/// `Map::insert`: sets the member under `key`, replacing one that was there.
#[verifier::external_body]
pub(crate) fn map_insert(members: &mut serde_json::Map<String, serde_json::Value>, key: String, value: serde_json::Value)
    ensures
        object_of(*final(members)) == object_of(*old(members)).insert(key@, json_of(value)),
{
    members.insert(key, value);
}

} // verus!
