//! The BSON values that queries are translated into.
//!
//! The values themselves are built and kept by the `bson` crate. This module
//! gives them a mathematical reading, [`Value`], and states, for each `bson`
//! operation the library calls, what the operation does to that reading.
//! Those statements are taken on trust from the `bson` sources; everything
//! else in the library is proved from them.

use vstd::prelude::*;

verus! {

/// What a BSON element holds, as far as translated queries are concerned.
pub enum Value {
    Null,
    Boolean(bool),
    Int32(i32),
    Int64(i64),
    Text(Seq<char>),
    /// The elements of an array, first to last.
    Array(Seq<Value>),
    /// The entries of an embedded document, in the order the document keeps.
    Document(Seq<(Seq<char>, Value)>),
    /// An element of any other kind.
    Other,
}

/// `bson::Bson`, one BSON element. Verus sees nothing inside it.
#[verifier::external_type_specification]
#[verifier::external_body]
pub struct ExBson(bson::Bson);

/// `bson::Document`, an insertion-ordered map from keys to elements.
#[verifier::external_type_specification]
#[verifier::external_body]
pub struct ExDocument(bson::Document);

/// `bson::ser::Error`, the reason a value could not be serialized.
#[verifier::external_type_specification]
#[verifier::external_body]
pub struct ExSerError(bson::ser::Error);

/// The element that `b` holds.
pub uninterp spec fn value_of(b: bson::Bson) -> Value;

/// The key and element pairs of `d`, in the order `d` iterates them.
pub uninterp spec fn entries(d: bson::Document) -> Seq<(Seq<char>, Value)>;

/// The elements of a list of BSON values, in order.
pub open spec fn values_of(items: Seq<bson::Bson>) -> Seq<Value> {
    items.map_values(|b: bson::Bson| value_of(b))
}

/// Whether some entry of `s` has the key `key`.
pub open spec fn has_key(s: Seq<(Seq<char>, Value)>, key: Seq<char>) -> bool {
    exists|i: int| 0 <= i < s.len() && (#[trigger] s[i]).0 == key
}

/// The entries after `key` is set to `value`: an entry that already has the
/// key keeps its place and takes the new element, otherwise the pair is added
/// at the end.
pub open spec fn put(s: Seq<(Seq<char>, Value)>, key: Seq<char>, value: Value) -> Seq<
    (Seq<char>, Value),
> {
    if has_key(s, key) {
        s.update(choose|i: int| 0 <= i < s.len() && (#[trigger] s[i]).0 == key, (key, value))
    } else {
        s.push((key, value))
    }
}

/// `bson::Document::new` returns a document without entries.
pub assume_specification[ bson::Document::new ]() -> (d: bson::Document)
    ensures
        entries(d) == Seq::<(Seq<char>, Value)>::empty(),
;

/// `bson::Document::insert` with a string key and a BSON element: the
/// underlying ordered map replaces the element of an entry that has the key,
/// in place, and otherwise appends the pair. The element that was replaced,
/// if any, is dropped.
#[verifier::external_body]
pub(crate) fn insert(d: &mut bson::Document, key: &str, value: bson::Bson)
    ensures
        entries(*final(d)) == put(entries(*old(d)), key@, value_of(value)),
{
    d.insert(key, value);
}

/// `Bson::from` on a document wraps it as `Bson::Document`, an element
/// that holds exactly the document's entries.
#[verifier::external_body]
pub(crate) fn embed(d: bson::Document) -> (b: bson::Bson)
    ensures
        value_of(b) == Value::Document(entries(d)),
{
    bson::Bson::from(d)
}

/// `Bson::from` on a vector of BSON elements wraps it as `Bson::Array`,
/// keeping the elements and their order.
#[verifier::external_body]
pub(crate) fn array(items: Vec<bson::Bson>) -> (b: bson::Bson)
    ensures
        value_of(b) == Value::Array(values_of(items@)),
{
    bson::Bson::from(items)
}

/// `Bson::Null`, the element that holds nothing.
#[verifier::external_body]
pub(crate) fn null() -> (b: bson::Bson)
    ensures
        value_of(b) == Value::Null,
{
    bson::Bson::Null
}

/// `bson::ser::to_bson` on a `bool`: the serializer answers `Bson::Boolean`
/// of the same value and cannot fail.
#[verifier::external_body]
pub(crate) fn serialize_bool(v: bool) -> (r: Result<bson::Bson, bson::ser::Error>)
    ensures
        (match r {
            Ok(b) => value_of(b) == Value::Boolean(v),
            Err(_) => false,
        }),
{
    bson::ser::to_bson(&v)
}

/// `bson::ser::to_bson` on an `i32`: the serializer answers `Bson::Int32`
/// of the same value and cannot fail.
#[verifier::external_body]
pub(crate) fn serialize_i32(v: i32) -> (r: Result<bson::Bson, bson::ser::Error>)
    ensures
        (match r {
            Ok(b) => value_of(b) == Value::Int32(v),
            Err(_) => false,
        }),
{
    bson::ser::to_bson(&v)
}

/// `bson::ser::to_bson` on an `i64`: the serializer answers `Bson::Int64`
/// of the same value and cannot fail.
#[verifier::external_body]
pub(crate) fn serialize_i64(v: i64) -> (r: Result<bson::Bson, bson::ser::Error>)
    ensures
        (match r {
            Ok(b) => value_of(b) == Value::Int64(v),
            Err(_) => false,
        }),
{
    bson::ser::to_bson(&v)
}

/// `bson::ser::to_bson` on a `u32`: the serializer widens the value and
/// answers `Bson::Int64`; it cannot fail.
#[verifier::external_body]
pub(crate) fn serialize_u32(v: u32) -> (r: Result<bson::Bson, bson::ser::Error>)
    ensures
        (match r {
            Ok(b) => value_of(b) == Value::Int64(v as i64),
            Err(_) => false,
        }),
{
    bson::ser::to_bson(&v)
}

/// `bson::ser::to_bson` on a `u64`: the serializer answers `Bson::Int64`
/// where the value fits a signed 64-bit integer, and otherwise fails with
/// its out-of-range error.
#[verifier::external_body]
pub(crate) fn serialize_u64(v: u64) -> (r: Result<bson::Bson, bson::ser::Error>)
    ensures
        v <= i64::MAX ==> (match r {
            Ok(b) => value_of(b) == Value::Int64(v as i64),
            Err(_) => false,
        }),
        v > i64::MAX ==> r is Err,
{
    bson::ser::to_bson(&v)
}

/// `bson::ser::to_bson` on an `i8`: the serializer widens the value and
/// answers `Bson::Int32`; it cannot fail.
#[verifier::external_body]
pub(crate) fn serialize_i8(v: i8) -> (r: Result<bson::Bson, bson::ser::Error>)
    ensures
        (match r {
            Ok(b) => value_of(b) == Value::Int32(v as i32),
            Err(_) => false,
        }),
{
    bson::ser::to_bson(&v)
}

/// `bson::ser::to_bson` on an `i16`: the serializer widens the value and
/// answers `Bson::Int32`; it cannot fail.
#[verifier::external_body]
pub(crate) fn serialize_i16(v: i16) -> (r: Result<bson::Bson, bson::ser::Error>)
    ensures
        (match r {
            Ok(b) => value_of(b) == Value::Int32(v as i32),
            Err(_) => false,
        }),
{
    bson::ser::to_bson(&v)
}

/// `bson::ser::to_bson` on a `u8`: the serializer widens the value and
/// answers `Bson::Int32`; it cannot fail.
#[verifier::external_body]
pub(crate) fn serialize_u8(v: u8) -> (r: Result<bson::Bson, bson::ser::Error>)
    ensures
        (match r {
            Ok(b) => value_of(b) == Value::Int32(v as i32),
            Err(_) => false,
        }),
{
    bson::ser::to_bson(&v)
}

/// `bson::ser::to_bson` on a `u16`: the serializer widens the value and
/// answers `Bson::Int32`; it cannot fail.
#[verifier::external_body]
pub(crate) fn serialize_u16(v: u16) -> (r: Result<bson::Bson, bson::ser::Error>)
    ensures
        (match r {
            Ok(b) => value_of(b) == Value::Int32(v as i32),
            Err(_) => false,
        }),
{
    bson::ser::to_bson(&v)
}

/// `bson::ser::to_bson` on an `isize`: serde hands the value over as an
/// `i64`, and the serializer answers `Bson::Int64`; it cannot fail.
#[verifier::external_body]
pub(crate) fn serialize_isize(v: isize) -> (r: Result<bson::Bson, bson::ser::Error>)
    ensures
        (match r {
            Ok(b) => value_of(b) == Value::Int64(v as i64),
            Err(_) => false,
        }),
{
    bson::ser::to_bson(&v)
}

/// `bson::ser::to_bson` on a `usize`: serde hands the value over as a `u64`,
/// and the serializer answers `Bson::Int64` where it fits a signed 64-bit
/// integer, and otherwise fails with its out-of-range error.
#[verifier::external_body]
pub(crate) fn serialize_usize(v: usize) -> (r: Result<bson::Bson, bson::ser::Error>)
    ensures
        v <= i64::MAX ==> (match r {
            Ok(b) => value_of(b) == Value::Int64(v as i64),
            Err(_) => false,
        }),
        v > i64::MAX ==> r is Err,
{
    bson::ser::to_bson(&v)
}

/// `bson::ser::to_bson` on a `char`: the serializer answers `Bson::String`
/// with the one character as its text; it cannot fail.
#[verifier::external_body]
pub(crate) fn serialize_char(v: char) -> (r: Result<bson::Bson, bson::ser::Error>)
    ensures
        (match r {
            Ok(b) => value_of(b) == Value::Text(seq![v]),
            Err(_) => false,
        }),
{
    bson::ser::to_bson(&v)
}

/// `bson::ser::to_bson` on a string: the serializer answers `Bson::String`
/// with a copy of the text and cannot fail.
#[verifier::external_body]
pub(crate) fn serialize_str(v: &str) -> (r: Result<bson::Bson, bson::ser::Error>)
    ensures
        (match r {
            Ok(b) => value_of(b) == Value::Text(v@),
            Err(_) => false,
        }),
{
    bson::ser::to_bson(v)
}

} // verus!
