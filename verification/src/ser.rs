//! The encoder: one operation for each kind of value, each appending the
//! kind's bytes to the stream that the encoder owns.
use vstd::prelude::*;
use vstd::string::StringSliceAdditionalSpecFns;
use binary_rw::{BinaryError, MemoryStream};
use crate::endian::Endian;
use crate::error::{Error, ErrorKind};
use crate::layout::{
    blob_bytes, bool_bytes, char_bytes, int_bytes, len_bytes, max_len, none_bytes, some_bytes,
    str_bytes, uint_bytes, variant_bytes,
};
use crate::stream::{
    at_end, stream_bytes, stream_into_vec, stream_new, stream_write_bytes, stream_write_i16,
    stream_write_i32, stream_write_i64, stream_write_i8, stream_write_u16, stream_write_u32,
    stream_write_u64, stream_write_u8,
};

verus! {

/// Writes values to a byte stream of its own, in one byte order.
pub struct Serializer {
    stream: MemoryStream,
    endian: Endian,
}

impl View for Serializer {
    type V = Seq<u8>;

    /// The bytes written so far.
    closed spec fn view(&self) -> Seq<u8> {
        stream_bytes(self.stream)
    }
}

/// The stream's answer to a write, as the encoder's own.
fn written(answer: Result<usize, BinaryError>) -> (r: Result<(), Error>)
    ensures
        answer is Ok <==> r is Ok,
        r matches Err(e) ==> e.kind() == ErrorKind::Binary,
{
    match answer {
        Ok(_) => Ok(()),
        Err(e) => Err(Error::Binary(e)),
    }
}

impl Serializer {
    /// The stream stands where the next write appends.
    pub closed spec fn wf(&self) -> bool {
        at_end(self.stream)
    }

    /// The byte order of multi-byte numbers.
    pub closed spec fn spec_endian(&self) -> Endian {
        self.endian
    }

    /// This encoder is `before` after it wrote `data`.
    pub open spec fn wrote(&self, before: &Serializer, data: Seq<u8>) -> bool {
        &&& self.wf()
        &&& self.endian() == before.endian()
        &&& self@ == before@ + data
    }

    /// This encoder is `before` after it wrote nothing.
    pub open spec fn wrote_nothing(&self, before: &Serializer) -> bool {
        &&& self.wf()
        &&& self.endian() == before.endian()
        &&& self@ == before@
    }

    /// An encoder that has written nothing yet.
    pub fn new(endian: Endian) -> (ser: Serializer)
        ensures
            ser.wf(),
            ser.endian() == endian,
            ser@ == Seq::<u8>::empty(),
    {
        Serializer { stream: stream_new(), endian }
    }

    /// The byte order of multi-byte numbers.
    #[verifier::when_used_as_spec(spec_endian)]
    pub fn endian(&self) -> (endian: Endian)
        ensures
            endian == self.endian(),
    {
        self.endian
    }

    /// Ends the encoder and hands out what it wrote.
    pub fn into_vec(self) -> (bytes: Vec<u8>)
        ensures
            bytes@ == self@,
    {
        stream_into_vec(self.stream)
    }

    /// Writes `data` as it is, without a length before it.
    pub fn write_bytes(&mut self, data: &[u8]) -> (r: Result<(), Error>)
        requires
            old(self).wf(),
        ensures
            r is Ok,
            final(self).wrote(old(self), data@),
    {
        written(stream_write_bytes(&mut self.stream, data))
    }

    /// Unit: no bytes.
    pub fn serialize_unit(&mut self) -> (r: Result<(), Error>)
        requires
            old(self).wf(),
        ensures
            r is Ok,
            final(self).wrote_nothing(old(self)),
    {
        Ok(())
    }

    /// A truth value: one byte, 1 for true and 0 for false.
    pub fn serialize_bool(&mut self, v: bool) -> (r: Result<(), Error>)
        requires
            old(self).wf(),
        ensures
            r is Ok,
            final(self).wrote(old(self), bool_bytes(v)),
    {
        let byte: u8 = if v { 1 } else { 0 };
        proof {
            crate::layout::lemma_uint_bytes_of_byte(byte, self.endian);
        }
        written(stream_write_u8(&mut self.stream, self.endian, byte))
    }

    /// A signed number of 1 byte.
    pub fn serialize_i8(&mut self, v: i8) -> (r: Result<(), Error>)
        requires
            old(self).wf(),
        ensures
            r is Ok,
            final(self).wrote(old(self), int_bytes(v as int, 1, old(self).endian())),
    {
        written(stream_write_i8(&mut self.stream, self.endian, v))
    }

    /// A signed number of 2 bytes.
    pub fn serialize_i16(&mut self, v: i16) -> (r: Result<(), Error>)
        requires
            old(self).wf(),
        ensures
            r is Ok,
            final(self).wrote(old(self), int_bytes(v as int, 2, old(self).endian())),
    {
        written(stream_write_i16(&mut self.stream, self.endian, v))
    }

    /// A signed number of 4 bytes.
    pub fn serialize_i32(&mut self, v: i32) -> (r: Result<(), Error>)
        requires
            old(self).wf(),
        ensures
            r is Ok,
            final(self).wrote(old(self), int_bytes(v as int, 4, old(self).endian())),
    {
        written(stream_write_i32(&mut self.stream, self.endian, v))
    }

    /// A signed number of 8 bytes.
    pub fn serialize_i64(&mut self, v: i64) -> (r: Result<(), Error>)
        requires
            old(self).wf(),
        ensures
            r is Ok,
            final(self).wrote(old(self), int_bytes(v as int, 8, old(self).endian())),
    {
        written(stream_write_i64(&mut self.stream, self.endian, v))
    }

    /// A signed number of the machine's width: eight bytes on every machine.
    pub fn serialize_isize(&mut self, v: isize) -> (r: Result<(), Error>)
        requires
            old(self).wf(),
        ensures
            r is Ok,
            final(self).wrote(old(self), int_bytes(v as int, 8, old(self).endian())),
    {
        written(stream_write_i64(&mut self.stream, self.endian, v as i64))
    }

    /// An unsigned number of 1 byte.
    pub fn serialize_u8(&mut self, v: u8) -> (r: Result<(), Error>)
        requires
            old(self).wf(),
        ensures
            r is Ok,
            final(self).wrote(old(self), uint_bytes(v as nat, 1, old(self).endian())),
    {
        written(stream_write_u8(&mut self.stream, self.endian, v))
    }

    /// An unsigned number of 2 bytes.
    pub fn serialize_u16(&mut self, v: u16) -> (r: Result<(), Error>)
        requires
            old(self).wf(),
        ensures
            r is Ok,
            final(self).wrote(old(self), uint_bytes(v as nat, 2, old(self).endian())),
    {
        written(stream_write_u16(&mut self.stream, self.endian, v))
    }

    /// An unsigned number of 4 bytes.
    pub fn serialize_u32(&mut self, v: u32) -> (r: Result<(), Error>)
        requires
            old(self).wf(),
        ensures
            r is Ok,
            final(self).wrote(old(self), uint_bytes(v as nat, 4, old(self).endian())),
    {
        written(stream_write_u32(&mut self.stream, self.endian, v))
    }

    /// An unsigned number of 8 bytes.
    pub fn serialize_u64(&mut self, v: u64) -> (r: Result<(), Error>)
        requires
            old(self).wf(),
        ensures
            r is Ok,
            final(self).wrote(old(self), uint_bytes(v as nat, 8, old(self).endian())),
    {
        written(stream_write_u64(&mut self.stream, self.endian, v))
    }

    /// An unsigned number of the machine's width: eight bytes on every machine.
    pub fn serialize_usize(&mut self, v: usize) -> (r: Result<(), Error>)
        requires
            old(self).wf(),
        ensures
            r is Ok,
            final(self).wrote(old(self), uint_bytes(v as nat, 8, old(self).endian())),
    {
        written(stream_write_u64(&mut self.stream, self.endian, v as u64))
    }

    /// A floating-point number of four bytes, given by its bit pattern.
    pub fn serialize_f32(&mut self, bits: u32) -> (r: Result<(), Error>)
        requires
            old(self).wf(),
        ensures
            r is Ok,
            final(self).wrote(old(self), uint_bytes(bits as nat, 4, old(self).endian())),
    {
        written(stream_write_u32(&mut self.stream, self.endian, bits))
    }

    /// A floating-point number of eight bytes, given by its bit pattern.
    pub fn serialize_f64(&mut self, bits: u64) -> (r: Result<(), Error>)
        requires
            old(self).wf(),
        ensures
            r is Ok,
            final(self).wrote(old(self), uint_bytes(bits as nat, 8, old(self).endian())),
    {
        written(stream_write_u64(&mut self.stream, self.endian, bits))
    }

    /// A character: its code point as an unsigned number of four bytes.
    pub fn serialize_char(&mut self, v: char) -> (r: Result<(), Error>)
        requires
            old(self).wf(),
        ensures
            r is Ok,
            final(self).wrote(old(self), char_bytes(v, old(self).endian())),
    {
        written(stream_write_u32(&mut self.stream, self.endian, v as u32))
    }

    /// The count of a length-prefixed construct: four bytes, where the count
    /// fits them. A count of 2^32 or more is refused and nothing is written.
    pub fn serialize_len(&mut self, len: usize) -> (r: Result<(), Error>)
        requires
            old(self).wf(),
        ensures
            r is Ok <==> len <= max_len(),
            r is Ok ==> final(self).wrote(old(self), len_bytes(len as nat, old(self).endian())),
            r matches Err(e) ==> e.kind() == ErrorKind::TooManyItems && final(self).wrote_nothing(
                old(self),
            ),
    {
        if len > 0xFFFF_FFFF {
            return Err(Error::TooManyItems);
        }
        written(stream_write_u32(&mut self.stream, self.endian, len as u32))
    }

    /// A text: the length of its UTF-8 form, then that form. A text of 2^32
    /// bytes or more is refused and nothing is written.
    pub fn serialize_str(&mut self, v: &str) -> (r: Result<(), Error>)
        requires
            old(self).wf(),
        ensures
            r is Ok <==> v.spec_bytes().len() <= max_len(),
            r is Ok ==> final(self).wrote(old(self), str_bytes(v@, old(self).endian())),
            r matches Err(e) ==> e.kind() == ErrorKind::TooManyItems && final(self).wrote_nothing(
                old(self),
            ),
    {
        self.serialize_bytes(v.as_bytes())
    }

    /// A byte sequence: its length, then the bytes. One of 2^32 bytes or
    /// more is refused and nothing is written.
    pub fn serialize_bytes(&mut self, v: &[u8]) -> (r: Result<(), Error>)
        requires
            old(self).wf(),
        ensures
            r is Ok <==> v@.len() <= max_len(),
            r is Ok ==> final(self).wrote(old(self), blob_bytes(v@, old(self).endian())),
            r matches Err(e) ==> e.kind() == ErrorKind::TooManyItems && final(self).wrote_nothing(
                old(self),
            ),
    {
        self.serialize_len(v.len())?;
        let r = self.write_bytes(v);
        proof {
            let prefix = len_bytes(v@.len(), old(self).endian());
            assert((old(self)@ + prefix) + v@ =~= old(self)@ + (prefix + v@));
        }
        r
    }

    /// An absent option: the presence flag 0 and nothing after it.
    pub fn serialize_none(&mut self) -> (r: Result<(), Error>)
        requires
            old(self).wf(),
        ensures
            r is Ok,
            final(self).wrote(old(self), none_bytes()),
    {
        proof {
            crate::layout::lemma_uint_bytes_of_byte(0, self.endian);
        }
        written(stream_write_u8(&mut self.stream, self.endian, 0))
    }

    /// A present option: the presence flag 1. The nested value follows, by
    /// the operation of its own kind.
    pub fn serialize_some(&mut self) -> (r: Result<(), Error>)
        requires
            old(self).wf(),
        ensures
            r is Ok,
            final(self).wrote(old(self), some_bytes()),
    {
        proof {
            crate::layout::lemma_uint_bytes_of_byte(1, self.endian);
        }
        written(stream_write_u8(&mut self.stream, self.endian, 1))
    }

    /// The start of a sequence of `len` items: the count. The items follow.
    pub fn serialize_seq(&mut self, len: usize) -> (r: Result<(), Error>)
        requires
            old(self).wf(),
        ensures
            r is Ok <==> len <= max_len(),
            r is Ok ==> final(self).wrote(old(self), len_bytes(len as nat, old(self).endian())),
            r matches Err(e) ==> e.kind() == ErrorKind::TooManyItems && final(self).wrote_nothing(
                old(self),
            ),
    {
        self.serialize_len(len)
    }

    /// The start of a map of `len` entries: the count. Each entry follows,
    /// its key and then its value.
    pub fn serialize_map(&mut self, len: usize) -> (r: Result<(), Error>)
        requires
            old(self).wf(),
        ensures
            r is Ok <==> len <= max_len(),
            r is Ok ==> final(self).wrote(old(self), len_bytes(len as nat, old(self).endian())),
            r matches Err(e) ==> e.kind() == ErrorKind::TooManyItems && final(self).wrote_nothing(
                old(self),
            ),
    {
        self.serialize_len(len)
    }

    /// The start of a tuple: no bytes, since both sides know its arity. The
    /// fields follow in their declared order.
    pub fn serialize_tuple(&mut self) -> (r: Result<(), Error>)
        requires
            old(self).wf(),
        ensures
            r is Ok,
            final(self).wrote_nothing(old(self)),
    {
        Ok(())
    }

    /// A struct without fields: no bytes.
    pub fn serialize_unit_struct(&mut self) -> (r: Result<(), Error>)
        requires
            old(self).wf(),
        ensures
            r is Ok,
            final(self).wrote_nothing(old(self)),
    {
        Ok(())
    }

    /// The start of a struct that wraps one value: no bytes. The value follows.
    pub fn serialize_newtype_struct(&mut self) -> (r: Result<(), Error>)
        requires
            old(self).wf(),
        ensures
            r is Ok,
            final(self).wrote_nothing(old(self)),
    {
        Ok(())
    }

    /// The start of a struct with unnamed fields: no bytes. The fields follow in
    /// their declared order.
    pub fn serialize_tuple_struct(&mut self) -> (r: Result<(), Error>)
        requires
            old(self).wf(),
        ensures
            r is Ok,
            final(self).wrote_nothing(old(self)),
    {
        Ok(())
    }

    /// The start of a struct with named fields: no bytes, and no names. The
    /// fields follow in their declared order.
    pub fn serialize_struct(&mut self) -> (r: Result<(), Error>)
        requires
            old(self).wf(),
        ensures
            r is Ok,
            final(self).wrote_nothing(old(self)),
    {
        Ok(())
    }

    /// An enum variant without a payload: its index and nothing after it.
    pub fn serialize_unit_variant(&mut self, index: u32) -> (r: Result<(), Error>)
        requires
            old(self).wf(),
        ensures
            r is Ok,
            final(self).wrote(old(self), variant_bytes(index, old(self).endian())),
    {
        written(stream_write_u32(&mut self.stream, self.endian, index))
    }

    /// The start of an enum variant that wraps one value: its index. The value
    /// follows.
    pub fn serialize_newtype_variant(&mut self, index: u32) -> (r: Result<(), Error>)
        requires
            old(self).wf(),
        ensures
            r is Ok,
            final(self).wrote(old(self), variant_bytes(index, old(self).endian())),
    {
        written(stream_write_u32(&mut self.stream, self.endian, index))
    }

    /// The start of an enum variant with unnamed fields: its index. The fields
    /// follow in their declared order.
    pub fn serialize_tuple_variant(&mut self, index: u32) -> (r: Result<(), Error>)
        requires
            old(self).wf(),
        ensures
            r is Ok,
            final(self).wrote(old(self), variant_bytes(index, old(self).endian())),
    {
        written(stream_write_u32(&mut self.stream, self.endian, index))
    }

    /// The start of an enum variant with named fields: its index, and no names.
    /// The fields follow in their declared order.
    pub fn serialize_struct_variant(&mut self, index: u32) -> (r: Result<(), Error>)
        requires
            old(self).wf(),
        ensures
            r is Ok,
            final(self).wrote(old(self), variant_bytes(index, old(self).endian())),
    {
        written(stream_write_u32(&mut self.stream, self.endian, index))
    }
}

} // verus!
