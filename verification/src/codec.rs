//! Value codecs: JSON, MessagePack and protobuf framing of JSON values.
use vstd::prelude::*;
use crate::error::{AppError, ErrorCode};

verus! {

/// `serde_json::Value`, carried through opaquely.
#[verifier::external_type_specification]
#[verifier::external_body]
pub struct ExJsonValue(serde_json::Value);

/// Whether `serde_json::from_slice::<serde_json::Value>` accepts `data`.
pub uninterp spec fn json_parses(data: Seq<u8>) -> bool;

/// Whether `rmp_serde::from_slice::<serde_json::Value>` accepts `data`.
pub uninterp spec fn msgpack_parses(data: Seq<u8>) -> bool;

/// The JSON text `serde_json::to_vec` writes for a value (a function of the
/// value alone: object members come out in the map's iteration order).
pub uninterp spec fn json_text_of(v: serde_json::Value) -> Seq<u8>;

/// The value `serde_json::from_slice` reads from bytes it accepts.
pub uninterp spec fn json_value_of(data: Seq<u8>) -> serde_json::Value;

/// The MessagePack bytes `rmp_serde::to_vec` writes for a value, when it
/// succeeds.
pub uninterp spec fn msgpack_bytes_of(v: serde_json::Value) -> Seq<u8>;

/// The value `rmp_serde::from_slice` reads from bytes it accepts.
pub uninterp spec fn msgpack_value_of(data: Seq<u8>) -> serde_json::Value;

/// The error of `serde_json`, carried through opaquely.
#[verifier::external_type_specification]
#[verifier::external_body]
pub struct ExJsonError(serde_json::Error);

/// The encoding error of `rmp_serde`, carried through opaquely.
#[verifier::external_type_specification]
#[verifier::external_body]
pub struct ExMsgpackEncodeError(rmp_serde::encode::Error);

/// The decoding error of `rmp_serde`, carried through opaquely.
#[verifier::external_type_specification]
#[verifier::external_body]
pub struct ExMsgpackDecodeError(rmp_serde::decode::Error);

/// Calls `serde_json::to_vec` on a JSON value. It always succeeds: the
/// function fails only when a `Serialize` impl fails or a map has a key
/// that is not a string, and `Value`'s impl never fails and its maps are
/// keyed by strings; the writer is a `Vec`. The bytes are named
/// `json_text_of`.
#[verifier::external_body]
fn json_to_vec(value: &serde_json::Value) -> (r: Result<Vec<u8>, serde_json::Error>)
    ensures
        r is Ok,
        r matches Ok(b) ==> b@ == json_text_of(*value),
{
    serde_json::to_vec(value)
}

/// Calls `serde_json::from_slice` into a `serde_json::Value`. Whether it
/// succeeds, and the value read, depend on the bytes alone.
#[verifier::external_body]
fn json_from_slice(data: &[u8]) -> (r: Result<serde_json::Value, serde_json::Error>)
    ensures
        r is Ok <==> json_parses(data@),
        r matches Ok(v) ==> v == json_value_of(data@),
{
    serde_json::from_slice(data)
}

/// Calls `rmp_serde::to_vec` on a JSON value; the bytes it returns are
/// named `msgpack_bytes_of`. Success is not stated: the writer that
/// `to_vec` uses reports a failed allocation as an error, which depends on
/// the machine.
#[verifier::external_body]
fn msgpack_to_vec(value: &serde_json::Value) -> (r: Result<Vec<u8>, rmp_serde::encode::Error>)
    ensures
        r matches Ok(b) ==> b@ == msgpack_bytes_of(*value),
{
    rmp_serde::to_vec(value)
}

/// Calls `rmp_serde::from_slice` into a `serde_json::Value`. Whether it
/// succeeds, and the value read, depend on the bytes alone.
#[verifier::external_body]
fn msgpack_from_slice(data: &[u8]) -> (r: Result<serde_json::Value, rmp_serde::decode::Error>)
    ensures
        r is Ok <==> msgpack_parses(data@),
        r matches Ok(v) ==> v == msgpack_value_of(data@),
{
    rmp_serde::from_slice(data)
}

/// `serde_json::Number`, carried through opaquely.
#[verifier::external_type_specification]
#[verifier::external_body]
pub struct ExJsonNumber(serde_json::Number);

/// The variant of a JSON value, with its contents.
pub enum JsonShape {
    Null,
    Bool(bool),
    Number(serde_json::Number),
    Str(String),
    Array(Vec<serde_json::Value>),
    /// The members in the map's iteration order, each key once.
    Object(Vec<(String, serde_json::Value)>),
}

/// The variant and contents of a JSON value.
pub uninterp spec fn json_shape_of(v: serde_json::Value) -> JsonShape;

/// Tells the variants of a `serde_json::Value` apart, cloning the contents
/// (an object's members in the order `Map::iter` gives).
#[verifier::external_body]
pub(crate) fn json_shape(v: &serde_json::Value) -> (r: JsonShape)
    ensures
        r == json_shape_of(*v),
{
    match v {
        serde_json::Value::Null => JsonShape::Null,
        serde_json::Value::Bool(b) => JsonShape::Bool(*b),
        serde_json::Value::Number(n) => JsonShape::Number(n.clone()),
        serde_json::Value::String(s) => JsonShape::Str(s.clone()),
        serde_json::Value::Array(a) => JsonShape::Array(a.clone()),
        serde_json::Value::Object(m) => JsonShape::Object(m.iter().map(|(k, x)| (k.clone(), x.clone())).collect()),
    }
}

/// What `Number::as_u64` gives.
pub uninterp spec fn json_u64_of(n: serde_json::Number) -> Option<u64>;

/// What `Number::as_i64` gives.
pub uninterp spec fn json_i64_of(n: serde_json::Number) -> Option<i64>;

/// The text `Number`'s `Display` writes.
pub uninterp spec fn json_number_text_of(n: serde_json::Number) -> Seq<char>;

/// Calls `Number::as_u64`.
#[verifier::external_body]
pub(crate) fn json_number_u64(n: &serde_json::Number) -> (r: Option<u64>)
    ensures
        r == json_u64_of(*n),
{
    n.as_u64()
}

/// Calls `Number::as_i64`.
#[verifier::external_body]
pub(crate) fn json_number_i64(n: &serde_json::Number) -> (r: Option<i64>)
    ensures
        r == json_i64_of(*n),
{
    n.as_i64()
}

/// Writes a number with its `Display`.
#[verifier::external_body]
pub(crate) fn json_number_text(n: &serde_json::Number) -> (r: String)
    ensures
        r@ == json_number_text_of(*n),
{
    n.to_string()
}

/// The value `v` becomes after `v[key] = Value::String(text)`.
pub uninterp spec fn json_with_text_of(v: serde_json::Value, key: Seq<char>, text: Seq<char>) -> serde_json::Value;

/// Sets member `key` of an object to a string through `IndexMut` (which
/// inserts a missing key). `IndexMut` panics on a value that is neither an
/// object nor null, so it is called on objects only.
#[verifier::external_body]
pub(crate) fn json_set_text(v: &mut serde_json::Value, key: &str, text: String)
    requires
        json_shape_of(*old(v)) is Object,
    ensures
        *final(v) == json_with_text_of(*old(v), key@, text@),
{
    v[key] = serde_json::Value::String(text);
}

/// The position of the first member named `key`.
pub open spec fn member_pos(es: Seq<(String, serde_json::Value)>, key: Seq<char>) -> Option<int> {
    if exists|i: int| 0 <= i < es.len() && es[i].0@ == key {
        Some(choose|i: int| 0 <= i < es.len() && es[i].0@ == key && forall|j: int| 0 <= j < i ==> es[j].0@ != key)
    } else {
        None
    }
}

/// The text member `key` of a JSON object holds (`v.get(key)` then
/// `as_str`), if any.
pub open spec fn json_text_member(v: serde_json::Value, key: Seq<char>) -> Option<Seq<char>> {
    match json_shape_of(v) {
        JsonShape::Object(es) => match member_pos(es@, key) {
            Some(i) => match json_shape_of(es@[i].1) {
                JsonShape::Str(s) => Some(s@),
                _ => None,
            },
            None => None,
        },
        _ => None,
    }
}

/// Finds the first member named `key`.
pub(crate) fn find_json_member(es: &Vec<(String, serde_json::Value)>, key: &str) -> (r: Option<usize>)
    ensures
        match r {
            Some(i) => member_pos(es@, key@) == Some(i as int) && i < es@.len(),
            None => member_pos(es@, key@) is None,
        },
{
    let k = key.to_string();
    let mut i: usize = 0;
    while i < es.len()
        invariant
            i <= es@.len(),
            k@ == key@,
            forall|j: int| 0 <= j < i ==> es@[j].0@ != key@,
        decreases es@.len() - i,
    {
        if es[i].0 == k {
            proof {
                let c = choose|c: int| 0 <= c < es@.len() && es@[c].0@ == key@ && forall|j: int| 0 <= j < c ==> es@[j].0@ != key@;
                if c < i {
                    assert(es@[c].0@ != key@);
                }
                if c > i {
                    assert(es@[i as int].0@ == key@);
                }
            }
            return Some(i);
        }
        i = i + 1;
    }
    None
}

/// The text held by member `key` of a JSON object, if any.
pub fn json_text_field(v: &serde_json::Value, key: &str) -> (r: Option<String>)
    ensures
        match r {
            Some(s) => json_text_member(*v, key@) == Some(s@),
            None => json_text_member(*v, key@) is None,
        },
{
    match json_shape(v) {
        JsonShape::Object(es) => match find_json_member(&es, key) {
            Some(i) => match json_shape(&es[i].1) {
                JsonShape::Str(s) => Some(s),
                _ => None,
            },
            None => None,
        },
        _ => None,
    }
}

/// Parses JSON text into a value.
pub fn parse_json(data: &[u8]) -> (r: Option<serde_json::Value>)
    ensures
        r is Some <==> json_parses(data@),
        r matches Some(v) ==> v == json_value_of(data@),
{
    match json_from_slice(data) {
        Ok(v) => Some(v),
        Err(_) => None,
    }
}

/// Writes a value as JSON text.
pub fn write_json(v: &serde_json::Value) -> (r: Vec<u8>)
    ensures
        r@ == json_text_of(*v),
{
    match json_to_vec(v) {
        Ok(b) => b,
        Err(_) => Vec::new(),
    }
}

/// JSON text codec.
#[derive(Debug, Clone, Copy)]
pub struct JsonCodec;

impl JsonCodec {
    pub fn new() -> (c: JsonCodec)
        ensures
            c == JsonCodec,
    {
        JsonCodec
    }

    pub fn name(&self) -> (n: &'static str)
        ensures
            n@ == "json"@,
    {
        "json"
    }

    pub fn content_type(&self) -> (n: &'static str)
        ensures
            n@ == "application/json"@,
    {
        "application/json"
    }

    /// Serialises `value` as JSON text; a JSON value always serialises.
    pub fn encode_value(&self, value: &serde_json::Value) -> (r: Result<Vec<u8>, AppError>)
        ensures
            r matches Ok(b) && b@ == json_text_of(*value),
    {
        match json_to_vec(value) {
            Ok(v) => Ok(v),
            Err(_) => Err(AppError::from_static(ErrorCode::CodecEncodeFailed, "json encode failed")),
        }
    }

    /// Parses JSON text; fails exactly on what the parser rejects.
    pub fn decode_value(&self, data: &[u8]) -> (r: Result<serde_json::Value, AppError>)
        ensures
            r is Ok <==> json_parses(data@),
            r matches Ok(v) ==> v == json_value_of(data@),
            r matches Err(e) ==> e.code == ErrorCode::CodecDecodeFailed,
    {
        match json_from_slice(data) {
            Ok(v) => Ok(v),
            Err(_) => Err(AppError::from_static(ErrorCode::CodecDecodeFailed, "json decode failed")),
        }
    }
}

impl Default for JsonCodec {
    fn default() -> (c: JsonCodec)
        ensures
            c == JsonCodec,
    {
        JsonCodec::new()
    }
}

/// MessagePack binary codec.
#[derive(Debug, Clone, Copy)]
pub struct MsgpackCodec;

impl MsgpackCodec {
    pub fn name(&self) -> (n: &'static str)
        ensures
            n@ == "msgpack"@,
    {
        "msgpack"
    }

    pub fn content_type(&self) -> (n: &'static str)
        ensures
            n@ == "application/msgpack"@,
    {
        "application/msgpack"
    }

    /// Serialises `value` as MessagePack. The encoder's writer can report a
    /// failed allocation, so success is not promised.
    pub fn encode_value(&self, value: &serde_json::Value) -> (r: Result<Vec<u8>, AppError>)
        ensures
            r matches Ok(b) ==> b@ == msgpack_bytes_of(*value),
            r matches Err(e) ==> e.code == ErrorCode::CodecEncodeFailed,
    {
        match msgpack_to_vec(value) {
            Ok(v) => Ok(v),
            Err(_) => Err(AppError::from_static(ErrorCode::CodecEncodeFailed, "msgpack encode failed")),
        }
    }

    /// Parses MessagePack; fails exactly on what the parser rejects.
    pub fn decode_value(&self, data: &[u8]) -> (r: Result<serde_json::Value, AppError>)
        ensures
            r is Ok <==> msgpack_parses(data@),
            r matches Ok(v) ==> v == msgpack_value_of(data@),
            r matches Err(e) ==> e.code == ErrorCode::CodecDecodeFailed,
    {
        match msgpack_from_slice(data) {
            Ok(v) => Ok(v),
            Err(_) => Err(AppError::from_static(ErrorCode::CodecDecodeFailed, "msgpack decode failed")),
        }
    }
}

/// Protobuf codec: a JSON value carried as a `google.protobuf.Value`.
#[derive(Debug, Clone, Copy)]
pub struct ProtobufCodec;

impl ProtobufCodec {
    pub fn name(&self) -> (n: &'static str)
        ensures
            n@ == "protobuf"@,
    {
        "protobuf"
    }

    pub fn content_type(&self) -> (n: &'static str)
        ensures
            n@ == "application/x-protobuf"@,
    {
        "application/x-protobuf"
    }
}

} // verus!
