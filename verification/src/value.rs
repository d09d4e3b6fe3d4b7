//! The tagged value that crosses the boundary.

use vstd::prelude::*;
use crate::json::{json_doc, Json, JsonDoc};

verus! {

/// One typed value. A float is held by the bits of its IEEE encoding: a
/// 64-bit pattern for `Float` and for each coordinate of a `GeoPoint`, a
/// 32-bit pattern for each component of a `Vector`.
#[derive(Debug, Clone, PartialEq)]
pub enum Value {
    Null,
    Integer(i64),
    Float(u64),
    Text(String),
    Blob(Vec<u8>),
    Boolean(bool),
    Jsonb(Json),
    Vector(Vec<u32>),
    Timestamp(i64),
    GeoPoint(u64, u64),
}

/// What a [`Value`] holds.
pub enum SpecValue {
    Null,
    Integer(i64),
    Float(u64),
    Text(Seq<char>),
    Blob(Seq<u8>),
    Boolean(bool),
    Jsonb(JsonDoc),
    Vector(Seq<u32>),
    Timestamp(i64),
    GeoPoint(u64, u64),
}

impl View for Value {
    type V = SpecValue;

    open spec fn view(&self) -> SpecValue {
        match *self {
            Value::Null => SpecValue::Null,
            Value::Integer(i) => SpecValue::Integer(i),
            Value::Float(bits) => SpecValue::Float(bits),
            Value::Text(s) => SpecValue::Text(s@),
            Value::Blob(b) => SpecValue::Blob(b@),
            Value::Boolean(b) => SpecValue::Boolean(b),
            Value::Jsonb(j) => SpecValue::Jsonb(json_doc(j)),
            Value::Vector(v) => SpecValue::Vector(v@),
            Value::Timestamp(t) => SpecValue::Timestamp(t),
            Value::GeoPoint(lat, lon) => SpecValue::GeoPoint(lat, lon),
        }
    }
}

impl Default for Value {
    /// The default value is `Null`.
    fn default() -> (v: Value)
        ensures
            v@ == SpecValue::Null,
    {
        Value::Null
    }
}

} // verus!
