//! Operands: the typed values that a comparison holds, and their conversion
//! to BSON elements.

use crate::value::{
    array, null, serialize_bool, serialize_char, serialize_i16, serialize_i32, serialize_i64,
    serialize_i8, serialize_isize, serialize_str, serialize_u16, serialize_u32, serialize_u64,
    serialize_u8, serialize_usize, value_of, values_of, Value,
};
use vstd::prelude::*;

verus! {

/// Why a value has no BSON element.
#[derive(Debug, Clone, PartialEq, Eq)]
pub enum ConversionError {
    /// An unsigned integer above the largest signed 64-bit integer, which is
    /// the widest integer BSON holds.
    UnsignedIntegerExceededRange(u64),
    /// Any other refusal of an operand's own conversion, with its message.
    Serialization(String),
}

/// Whether the outcome `r` of a conversion is the one that `expected` names:
/// an element that holds the expected value, or the expected error.
pub open spec fn converts_to(
    r: Result<bson::Bson, ConversionError>,
    expected: Result<Value, ConversionError>,
) -> bool {
    match r {
        Ok(b) => expected == Ok::<Value, ConversionError>(value_of(b)),
        Err(e) => expected == Err::<Value, ConversionError>(e),
    }
}

/// A value that can stand as the operand of a comparison.
///
/// An implementation says what the operand converts to in
/// [`Operand::value`], and its `to_value` is held to that.
pub trait Operand {
    /// The BSON value of this operand, or the reason it has none.
    spec fn value(&self) -> Result<Value, ConversionError>;

    /// Converts the operand to a BSON element.
    fn to_value(&self) -> (r: Result<bson::Bson, ConversionError>)
        ensures
            converts_to(r, self.value()),
    ;
}

impl Operand for bool {
    open spec fn value(&self) -> Result<Value, ConversionError> {
        Ok(Value::Boolean(*self))
    }

    fn to_value(&self) -> (r: Result<bson::Bson, ConversionError>) {
        Ok(serialize_bool(*self).unwrap())
    }
}

impl Operand for i32 {
    open spec fn value(&self) -> Result<Value, ConversionError> {
        Ok(Value::Int32(*self))
    }

    fn to_value(&self) -> (r: Result<bson::Bson, ConversionError>) {
        Ok(serialize_i32(*self).unwrap())
    }
}

impl Operand for i64 {
    open spec fn value(&self) -> Result<Value, ConversionError> {
        Ok(Value::Int64(*self))
    }

    fn to_value(&self) -> (r: Result<bson::Bson, ConversionError>) {
        Ok(serialize_i64(*self).unwrap())
    }
}

/// An unsigned 32-bit integer is held as a 64-bit one, whatever its size.
impl Operand for u32 {
    open spec fn value(&self) -> Result<Value, ConversionError> {
        Ok(Value::Int64(*self as i64))
    }

    fn to_value(&self) -> (r: Result<bson::Bson, ConversionError>) {
        Ok(serialize_u32(*self).unwrap())
    }
}

/// An unsigned 64-bit integer has an element only where it fits a signed one.
impl Operand for u64 {
    open spec fn value(&self) -> Result<Value, ConversionError> {
        if *self <= i64::MAX {
            Ok(Value::Int64(*self as i64))
        } else {
            Err(ConversionError::UnsignedIntegerExceededRange(*self))
        }
    }

    fn to_value(&self) -> (r: Result<bson::Bson, ConversionError>) {
        match serialize_u64(*self) {
            Ok(b) => Ok(b),
            Err(_) => Err(ConversionError::UnsignedIntegerExceededRange(*self)),
        }
    }
}

impl Operand for i8 {
    open spec fn value(&self) -> Result<Value, ConversionError> {
        Ok(Value::Int32(*self as i32))
    }

    fn to_value(&self) -> (r: Result<bson::Bson, ConversionError>) {
        Ok(serialize_i8(*self).unwrap())
    }
}

impl Operand for i16 {
    open spec fn value(&self) -> Result<Value, ConversionError> {
        Ok(Value::Int32(*self as i32))
    }

    fn to_value(&self) -> (r: Result<bson::Bson, ConversionError>) {
        Ok(serialize_i16(*self).unwrap())
    }
}

impl Operand for u8 {
    open spec fn value(&self) -> Result<Value, ConversionError> {
        Ok(Value::Int32(*self as i32))
    }

    fn to_value(&self) -> (r: Result<bson::Bson, ConversionError>) {
        Ok(serialize_u8(*self).unwrap())
    }
}

impl Operand for u16 {
    open spec fn value(&self) -> Result<Value, ConversionError> {
        Ok(Value::Int32(*self as i32))
    }

    fn to_value(&self) -> (r: Result<bson::Bson, ConversionError>) {
        Ok(serialize_u16(*self).unwrap())
    }
}

impl Operand for isize {
    open spec fn value(&self) -> Result<Value, ConversionError> {
        Ok(Value::Int64(*self as i64))
    }

    fn to_value(&self) -> (r: Result<bson::Bson, ConversionError>) {
        Ok(serialize_isize(*self).unwrap())
    }
}

/// A `usize` has an element only where it fits a signed 64-bit integer.
impl Operand for usize {
    open spec fn value(&self) -> Result<Value, ConversionError> {
        if *self <= i64::MAX {
            Ok(Value::Int64(*self as i64))
        } else {
            Err(ConversionError::UnsignedIntegerExceededRange(*self as u64))
        }
    }

    fn to_value(&self) -> (r: Result<bson::Bson, ConversionError>) {
        match serialize_usize(*self) {
            Ok(b) => Ok(b),
            Err(_) => Err(ConversionError::UnsignedIntegerExceededRange(*self as u64)),
        }
    }
}

/// A character is the text of that one character.
impl Operand for char {
    open spec fn value(&self) -> Result<Value, ConversionError> {
        Ok(Value::Text(seq![*self]))
    }

    fn to_value(&self) -> (r: Result<bson::Bson, ConversionError>) {
        Ok(serialize_char(*self).unwrap())
    }
}

impl Operand for String {
    open spec fn value(&self) -> Result<Value, ConversionError> {
        Ok(Value::Text(self@))
    }

    fn to_value(&self) -> (r: Result<bson::Bson, ConversionError>) {
        Ok(serialize_str(self.as_str()).unwrap())
    }
}

/// An absent operand is the null element; a present one is its own element.
impl<T: Operand> Operand for Option<T> {
    open spec fn value(&self) -> Result<Value, ConversionError> {
        match self {
            Some(v) => v.value(),
            None => Ok(Value::Null),
        }
    }

    fn to_value(&self) -> (r: Result<bson::Bson, ConversionError>) {
        match self {
            Some(v) => v.to_value(),
            None => Ok(null()),
        }
    }
}

/// An operand of any of the scalar kinds, for records whose fields differ in
/// type.
#[derive(Debug, Clone, PartialEq, Eq)]
pub enum Scalar {
    Null,
    Boolean(bool),
    Int32(i32),
    Int64(i64),
    UInt32(u32),
    UInt64(u64),
    Text(String),
}

/// A scalar converts as the value it holds does.
impl Operand for Scalar {
    open spec fn value(&self) -> Result<Value, ConversionError> {
        match self {
            Scalar::Null => Ok(Value::Null),
            Scalar::Boolean(v) => v.value(),
            Scalar::Int32(v) => v.value(),
            Scalar::Int64(v) => v.value(),
            Scalar::UInt32(v) => v.value(),
            Scalar::UInt64(v) => v.value(),
            Scalar::Text(v) => v.value(),
        }
    }

    fn to_value(&self) -> (r: Result<bson::Bson, ConversionError>) {
        match self {
            Scalar::Null => Ok(null()),
            Scalar::Boolean(v) => v.to_value(),
            Scalar::Int32(v) => v.to_value(),
            Scalar::Int64(v) => v.to_value(),
            Scalar::UInt32(v) => v.to_value(),
            Scalar::UInt64(v) => v.to_value(),
            Scalar::Text(v) => v.to_value(),
        }
    }
}

/// The values of a list of operands, in order, or the error of the first
/// operand that has none.
pub open spec fn values<T: Operand>(s: Seq<T>) -> Result<Seq<Value>, ConversionError>
    decreases s.len(),
{
    if s.len() == 0 {
        Ok(Seq::empty())
    } else {
        match values(s.drop_last()) {
            Err(e) => Err(e),
            Ok(front) => match s.last().value() {
                Err(e) => Err(e),
                Ok(v) => Ok(front.push(v)),
            },
        }
    }
}

/// A list converts exactly when each of its operands does, to the list of
/// their values; otherwise its error is that of the first operand that has
/// one.
pub proof fn lemma_values<T: Operand>(s: Seq<T>)
    ensures
        match values(s) {
            Ok(items) => {
                &&& items.len() == s.len()
                &&& forall|i: int|
                    0 <= i < s.len() ==> (#[trigger] s[i]).value() == Ok::<Value, ConversionError>(
                        items[i],
                    )
            },
            Err(e) => exists|i: int|
                {
                    &&& 0 <= i < s.len()
                    &&& (#[trigger] s[i]).value() == Err::<Value, ConversionError>(e)
                    &&& forall|j: int| 0 <= j < i ==> (#[trigger] s[j]).value() is Ok
                },
        },
    decreases s.len(),
{
    if s.len() > 0 {
        let front = s.drop_last();
        lemma_values(front);
        match values(front) {
            Ok(items) => {
                assert forall|j: int| 0 <= j < front.len() implies (#[trigger] s[j]).value() is Ok by {
                    assert(front[j].value() is Ok);
                }
                match s.last().value() {
                    Ok(v) => {
                        assert forall|i: int| 0 <= i < s.len() implies (#[trigger] s[i]).value()
                            == Ok::<Value, ConversionError>(items.push(v)[i]) by {
                            if i < front.len() {
                                assert(front[i].value() == Ok::<Value, ConversionError>(items[i]));
                            }
                        }
                    },
                    Err(e) => {
                        assert(s[s.len() - 1].value() == Err::<Value, ConversionError>(e));
                    },
                }
            },
            Err(e) => {
                let i = choose|i: int|
                    {
                        &&& 0 <= i < front.len()
                        &&& (#[trigger] front[i]).value() == Err::<Value, ConversionError>(e)
                        &&& forall|j: int| 0 <= j < i ==> (#[trigger] front[j]).value() is Ok
                    };
                assert(s[i].value() == Err::<Value, ConversionError>(e));
                assert forall|j: int| 0 <= j < i implies (#[trigger] s[j]).value() is Ok by {
                    assert(front[j].value() is Ok);
                }
            },
        }
    }
}

/// An error among the first `n` operands is the error of the whole list.
pub proof fn lemma_values_error_in_prefix<T: Operand>(s: Seq<T>, n: int)
    requires
        0 <= n <= s.len(),
        values(s.take(n)) is Err,
    ensures
        values(s) == values(s.take(n)),
    decreases s.len(),
{
    if n == s.len() {
        assert(s.take(n) =~= s);
    } else {
        assert(s.drop_last().take(n) =~= s.take(n));
        lemma_values_error_in_prefix(s.drop_last(), n);
    }
}

/// A list of operands is an array of their elements, in the same order.
impl<T: Operand> Operand for Vec<T> {
    open spec fn value(&self) -> Result<Value, ConversionError> {
        match values(self@) {
            Ok(items) => Ok(Value::Array(items)),
            Err(e) => Err(e),
        }
    }

    fn to_value(&self) -> (r: Result<bson::Bson, ConversionError>) {
        let mut items: Vec<bson::Bson> = Vec::new();
        let mut i: usize = 0;
        proof {
            assert(values_of(items@) =~= Seq::<Value>::empty());
        }
        while i < self.len()
            invariant
                i <= self.len(),
                values(self@.take(i as int)) == Ok::<Seq<Value>, ConversionError>(
                    values_of(items@),
                ),
            decreases self.len() - i,
        {
            proof {
                assert(self@.take(i + 1).drop_last() =~= self@.take(i as int));
            }
            match self[i].to_value() {
                Ok(b) => {
                    proof {
                        assert(values_of(items@.push(b)) =~= values_of(items@).push(value_of(b)));
                    }
                    items.push(b);
                },
                Err(e) => {
                    proof {
                        lemma_values_error_in_prefix(self@, i + 1);
                    }
                    return Err(e);
                },
            }
            i += 1;
        }
        proof {
            assert(self@.take(i as int) =~= self@);
        }
        Ok(array(items))
    }
}

} // verus!
