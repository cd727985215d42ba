//! Compact binary encoding of a closed value model onto a byte stream.
//!
//! A value is written as the bytes of its kind and, for a composite kind,
//! the bytes of its parts in their order. The bytes carry no names and no
//! description of themselves: the reader is told the shape to expect.
//! Lengths and counts take four bytes, so that no text, byte sequence,
//! sequence or map may have 2^32 items or more.
use vstd::prelude::*;
use crate::format::{decoding, encoding, fits, has_shape};
use crate::laws::lemma_decoding_sound;
use crate::layout::Parsed;
use crate::value::Model;

pub mod codec;
pub mod de;
pub mod endian;
pub mod error;
pub mod format;
pub mod laws;
pub mod layout;
pub mod ser;
pub mod stream;
pub mod value;

pub use crate::de::Deserializer;
pub use crate::endian::Endian;
pub use crate::error::{Error, ErrorKind};
pub use crate::ser::Serializer;
pub use crate::value::{Shape, Value, Variant};

verus! {

/// The answer to a caller who asked for the value of a shape at the front
/// of a buffer, where `expected` is what the buffer holds there: the value
/// on success, an error of the expected kind on failure.
pub open spec fn answers(r: Result<Value, Error>, expected: Parsed<Model>) -> bool {
    match expected {
        Ok((item, _)) => r is Ok && r->Ok_0@ == item,
        Err(kind) => r is Err && r->Err_0.kind() == kind,
    }
}

/// Encodes a value into a buffer of its own. Succeeds exactly when every
/// length in the value fits a length prefix, and then gives the bytes of
/// the value and nothing else.
pub fn to_vec(value: &Value, endian: Endian) -> (r: Result<Vec<u8>, Error>)
    ensures
        r is Ok <==> fits(value@),
        r matches Ok(bytes) ==> bytes@ == encoding(value@, endian),
        r matches Err(e) ==> e.kind() == ErrorKind::TooManyItems,
{
    let mut serializer = Serializer::new(endian);
    serializer.serialize_value(value)?;
    Ok(serializer.into_vec())
}

/// Decodes the value of the given shape at the front of a buffer. Bytes
/// behind the value are left unread. What is returned is of the shape that
/// was asked for, and can be encoded again.
pub fn from_vec(value: Vec<u8>, endian: Endian, shape: &Shape) -> (r: Result<Value, Error>)
    ensures
        answers(r, decoding(shape@, value@, endian)),
        r matches Ok(decoded) ==> has_shape(decoded@, shape@) && fits(decoded@),
{
    proof {
        lemma_decoding_sound(shape@, value@, endian);
    }
    let mut deserializer = Deserializer::new(value, endian);
    deserializer.deserialize_value(shape)
}

/// A type that writes its own bytes: for a format that the value model
/// cannot express, such as a fixed marker before the values.
pub trait Encode {
    /// Writes this value to the encoder.
    fn encode(&self, ser: &mut Serializer) -> (r: Result<(), Error>)
        requires
            old(ser).wf(),
    ;
}

/// A type that reads its own bytes.
pub trait Decode {
    /// Fills this value from the decoder.
    fn decode(&mut self, de: &mut Deserializer) -> (r: Result<(), Error>)
        requires
            old(de).wf(),
    ;
}

/// What `encode` returns once the value has answered: what the encoder
/// holds where the value reported success, and the value's own error where
/// it did not.
pub fn encoded(serializer: Serializer, outcome: Result<(), Error>) -> (r: Result<Vec<u8>, Error>)
    ensures
        outcome is Ok ==> r is Ok && r->Ok_0@ == serializer@,
        outcome is Err ==> r is Err && r->Err_0 == outcome->Err_0,
{
    match outcome {
        Ok(_) => Ok(serializer.into_vec()),
        Err(e) => Err(e),
    }
}

/// What `decode` returns once the value has answered: the value where it
/// reported success, and its own error where it did not.
pub fn decoded<T>(value: T, outcome: Result<(), Error>) -> (r: Result<T, Error>)
    ensures
        outcome is Ok ==> r is Ok && r->Ok_0 == value,
        outcome is Err ==> r is Err && r->Err_0 == outcome->Err_0,
{
    match outcome {
        Ok(_) => Ok(value),
        Err(e) => Err(e),
    }
}

/// What a value answered, read off what `encode` or `decode` returned
/// for it: success for success, and the error for the error.
pub open spec fn outcome_of<T>(r: Result<T, Error>) -> Result<(), Error> {
    match r {
        Ok(_) => Ok(()),
        Err(e) => Err(e),
    }
}

/// An answer that agrees with a result in success and in error is the
/// outcome of that result.
proof fn lemma_outcome_of<T>(r: Result<T, Error>, outcome: Result<(), Error>)
    requires
        outcome is Ok ==> r is Ok,
        outcome is Err ==> r is Err && r->Err_0 == outcome->Err_0,
    ensures
        outcome_of(r) == outcome,
{
    match outcome {
        Ok(unit) => {
            assert(unit == ());
        },
        Err(_) => {},
    }
}

/// Encodes a value that writes its own bytes. The value is handed an
/// encoder that has written nothing and writes big endian. Where the value
/// reports success, what is returned is what that encoder then holds;
/// where it reports an error, that error is returned. What the value may
/// write and report is what the contract of its own `encode` allows.
pub fn encode<T: Encode>(encodable: &T) -> (r: Result<Vec<u8>, Error>)
    ensures
        (exists|ser: &mut Serializer|
            ser.wf() && ser.endian() == Endian::Big && ser@ == Seq::<u8>::empty()
                && #[trigger] call_ensures(T::encode, (encodable, ser), outcome_of(r))
                && (r matches Ok(bytes) ==> bytes@ == final(ser)@)),
{
    let mut serializer = Serializer::new(Endian::Big);
    let outcome = encodable.encode(&mut serializer);
    let r = encoded(serializer, outcome);
    proof {
        lemma_outcome_of(r, outcome);
    }
    r
}

/// Decodes a value that reads its own bytes. The default value of the type
/// is handed a decoder at the start of `buffer` that reads big endian.
/// Where the value reports success, what is returned is the value as it
/// then is; where it reports an error, that error is returned. What the
/// value may read and report is what the contract of its own `decode`
/// allows.
pub fn decode<T: Decode + Default>(buffer: Vec<u8>) -> (r: Result<T, Error>)
    ensures
        (exists|value: &mut T, de: &mut Deserializer|
            call_ensures(T::default, (), *value) && de.wf() && de.endian() == Endian::Big
                && de@ == buffer@
                && #[trigger] call_ensures(T::decode, (value, de), outcome_of(r))
                && (r matches Ok(decoded) ==> decoded == *final(value))),
{
    let mut deserializer = Deserializer::new(buffer, Endian::Big);
    let mut value: T = T::default();
    let outcome = value.decode(&mut deserializer);
    let r = decoded(value, outcome);
    proof {
        lemma_outcome_of(r, outcome);
    }
    r
}

} // verus!
