//! JSON documents. They are parsed, printed and held by `serde_json`; this
//! module names what such a document holds and states, for each call made
//! into that crate, what it does to it.

use vstd::prelude::*;
use vstd::string::*;
use crate::error::TalonError;

verus! {

/// A JSON document, held as `serde_json` holds it. Nothing of it is read
/// here but through the calls that this module states.
#[verifier::external_body]
#[derive(Debug, PartialEq)]
pub struct Json {
    inner: serde_json::Value,
}

/// `serde_json::Error`, of which nothing is read here but its description.
#[verifier::external_type_specification]
#[verifier::external_body]
pub struct ExJsonError(serde_json::Error);

/// A JSON number: a non-negative integer, a negative integer, or a finite
/// 64-bit IEEE number given by its bits.
#[derive(Debug, Clone, Copy, PartialEq, Eq, Structural)]
pub enum JsonNumber {
    Unsigned(u64),
    Negative(i64),
    Float(u64),
}

/// What a JSON document holds.
pub enum JsonDoc {
    Null,
    Bool(bool),
    Number(JsonNumber),
    Str(Seq<char>),
    Array(Seq<JsonDoc>),
    Object(Map<Seq<char>, JsonDoc>),
}

/// What the document `v` holds.
pub uninterp spec fn json_doc(v: Json) -> JsonDoc;

impl View for Json {
    type V = JsonDoc;

    open spec fn view(&self) -> JsonDoc {
        json_doc(*self)
    }
}

/// The compact text that `serde_json` prints for a document.
pub uninterp spec fn json_text(doc: JsonDoc) -> Seq<char>;

/// What `serde_json` makes of `text`: the document it holds, or the error
/// that says why it holds none.
pub uninterp spec fn json_parsed(text: Seq<char>) -> Result<JsonDoc, serde_json::Error>;

/// The description that a `serde_json` error shows.
pub uninterp spec fn json_error_text(e: serde_json::Error) -> Seq<char>;

/// `Value::clone`: a copy that holds what `v` holds.
#[verifier::external_body]
pub(crate) fn json_clone(v: &Json) -> (r: Json)
    ensures
        json_doc(r) == json_doc(*v),
{
    Json { inner: v.inner.clone() }
}

impl Clone for Json {
    /// A copy of this document.
    fn clone(&self) -> (r: Json)
        ensures
            r@ == self@,
    {
        json_clone(self)
    }
}

/// `Value::to_string`: the compact text of `v`, which depends on nothing
/// but what `v` holds.
#[verifier::external_body]
pub(crate) fn json_to_text(v: &Json) -> (s: String)
    ensures
        s@ == json_text(json_doc(*v)),
{
    v.inner.to_string()
}

/// `serde_json::from_str` at `Value`: parses `text`; the outcome depends on
/// nothing but `text`.
#[verifier::external_body]
pub(crate) fn json_parse(text: &str) -> (r: Result<Json, serde_json::Error>)
    ensures
        match r {
            Ok(v) => json_parsed(text@) == Ok::<JsonDoc, serde_json::Error>(json_doc(v)),
            Err(e) => json_parsed(text@) == Err::<JsonDoc, serde_json::Error>(e),
        },
{
    serde_json::from_str(text).map(|inner| Json { inner })
}

/// `Error::to_string`: the description of `e`.
#[verifier::external_body]
pub(crate) fn json_error_message(e: &serde_json::Error) -> (s: String)
    ensures
        s@ == json_error_text(*e),
{
    e.to_string()
}

/// The member of `doc` under `key`, where `doc` is an object that has one.
pub open spec fn member(doc: JsonDoc, key: Seq<char>) -> Option<JsonDoc> {
    match doc {
        JsonDoc::Object(m) => if m.contains_key(key) {
            Some(m[key])
        } else {
            None
        },
        _ => None,
    }
}

/// What each document of `items` holds.
pub open spec fn docs(items: Seq<Json>) -> Seq<JsonDoc> {
    items.map_values(|j: Json| json_doc(j))
}

/// `Value::get` with a string index: the member under `key` of an object
/// that has one, and nothing of anything else. The member is copied out.
#[verifier::external_body]
pub(crate) fn json_get(v: &Json, key: &str) -> (r: Option<Json>)
    ensures
        match r {
            Some(x) => member(json_doc(*v), key@) == Some(json_doc(x)),
            None => member(json_doc(*v), key@) is None,
        },
{
    v.inner.get(key).map(|x| Json { inner: x.clone() })
}

/// `Value::as_bool`: the value of a boolean, and nothing of anything else.
#[verifier::external_body]
pub(crate) fn json_as_bool(v: &Json) -> (r: Option<bool>)
    ensures
        r == (match json_doc(*v) {
            JsonDoc::Bool(b) => Some(b),
            _ => None,
        }),
{
    v.inner.as_bool()
}

/// `Value::as_str`: the text of a string, and nothing of anything else. The
/// text is copied out.
#[verifier::external_body]
pub(crate) fn json_as_str(v: &Json) -> (r: Option<String>)
    ensures
        match r {
            Some(s) => json_doc(*v) == JsonDoc::Str(s@),
            None => !(json_doc(*v) is Str),
        },
{
    v.inner.as_str().map(|s| s.to_owned())
}

/// `Value::as_u64`: the value of a number that is a non-negative integer,
/// and nothing of anything else.
#[verifier::external_body]
pub(crate) fn json_as_u64(v: &Json) -> (r: Option<u64>)
    ensures
        r == (match json_doc(*v) {
            JsonDoc::Number(JsonNumber::Unsigned(n)) => Some(n),
            _ => None,
        }),
{
    v.inner.as_u64()
}

/// `Value::as_i64`: the value of a number that is an integer of 64 bits
/// with a sign, and nothing of anything else.
#[verifier::external_body]
pub(crate) fn json_as_i64(v: &Json) -> (r: Option<i64>)
    ensures
        r == (match json_doc(*v) {
            JsonDoc::Number(JsonNumber::Unsigned(n)) => if n <= i64::MAX {
                Some(n as i64)
            } else {
                None
            },
            JsonDoc::Number(JsonNumber::Negative(i)) => Some(i),
            _ => None,
        }),
{
    v.inner.as_i64()
}

/// `Value::as_f64`, by its bits: a number as a 64-bit IEEE number, and
/// nothing of anything else. Of a number that is held as such, these are
/// its bits; what an integer is turned into is not stated.
#[verifier::external_body]
pub(crate) fn json_as_float_bits(v: &Json) -> (r: Option<u64>)
    ensures
        r is Some <==> json_doc(*v) is Number,
        json_doc(*v) matches JsonDoc::Number(JsonNumber::Float(bits)) ==> r == Some(bits),
{
    v.inner.as_f64().map(|f| f.to_bits())
}

/// `Value::as_array`: the items of an array, in order, and nothing of
/// anything else. The items are copied out.
#[verifier::external_body]
pub(crate) fn json_as_array(v: &Json) -> (r: Option<Vec<Json>>)
    ensures
        match r {
            Some(items) => json_doc(*v) == JsonDoc::Array(docs(items@)),
            None => !(json_doc(*v) is Array),
        },
{
    v.inner.as_array().map(|a| a.iter().map(|x| Json { inner: x.clone() }).collect())
}

/// `Value::from` at `&str`: the string that holds `s`.
#[verifier::external_body]
pub(crate) fn json_from_str(s: &str) -> (r: Json)
    ensures
        json_doc(r) == JsonDoc::Str(s@),
{
    Json { inner: serde_json::Value::from(s) }
}

/// `Value::from` at `u64`: the number `n`.
#[verifier::external_body]
pub(crate) fn json_from_u64(n: u64) -> (r: Json)
    ensures
        json_doc(r) == JsonDoc::Number(JsonNumber::Unsigned(n)),
{
    Json { inner: serde_json::Value::from(n) }
}

/// `Map::new`, as an object: the object without members.
#[verifier::external_body]
pub(crate) fn json_empty_object() -> (r: Json)
    ensures
        json_doc(r) == JsonDoc::Object(Map::<Seq<char>, JsonDoc>::empty()),
{
    Json { inner: serde_json::Value::Object(serde_json::Map::new()) }
}

/// `Map::insert` on the members of an object: `value` becomes the member
/// under `key`, in the place of one that was there.
#[verifier::external_body]
pub(crate) fn json_insert(obj: &mut Json, key: &str, value: Json)
    requires
        json_doc(*old(obj)) is Object,
    ensures
        json_doc(*final(obj)) == JsonDoc::Object(
            json_doc(*old(obj))->Object_0.insert(key@, json_doc(value)),
        ),
{
    if let serde_json::Value::Object(m) = &mut obj.inner {
        m.insert(key.to_owned(), value.inner);
    }
}

/// What parsing makes of `text`: the document it holds, or the description
/// of why it holds none.
pub open spec fn parsing(text: Seq<char>) -> Result<JsonDoc, Seq<char>> {
    match json_parsed(text) {
        Ok(doc) => Ok(doc),
        Err(e) => Err("JSON parse: "@ + json_error_text(e)),
    }
}

impl Json {
    /// Parses `text` as a JSON document.
    pub fn parse(text: &str) -> (r: Result<Json, TalonError>)
        ensures
            match parsing(text@) {
                Ok(doc) => r matches Ok(j) && j@ == doc,
                Err(msg) => r matches Err(e) && e.message() == msg,
            },
    {
        match json_parse(text) {
            Ok(j) => Ok(j),
            Err(e) => {
                let mut msg = String::from_str("JSON parse: ");
                msg.append(json_error_message(&e).as_str());
                Err(TalonError(msg))
            },
        }
    }

    /// The compact text of this document.
    pub fn to_text(&self) -> (s: String)
        ensures
            s@ == json_text(self@),
    {
        json_to_text(self)
    }

    /// The value of this document where it is a non-negative integer.
    pub fn as_u64(&self) -> (r: Option<u64>)
        ensures
            r == (match self@ {
                JsonDoc::Number(JsonNumber::Unsigned(n)) => Some(n),
                _ => None,
            }),
    {
        json_as_u64(self)
    }

    /// The number that this document is, in the one of its three forms that
    /// it has.
    pub fn as_number(&self) -> (r: Option<JsonNumber>)
        ensures
            r == (match self@ {
                JsonDoc::Number(n) => Some(n),
                _ => None,
            }),
    {
        match json_as_u64(self) {
            Some(n) => Some(JsonNumber::Unsigned(n)),
            None => match json_as_i64(self) {
                Some(i) => Some(JsonNumber::Negative(i)),
                None => match json_as_float_bits(self) {
                    Some(bits) => Some(JsonNumber::Float(bits)),
                    None => None,
                },
            },
        }
    }
}

} // verus!
