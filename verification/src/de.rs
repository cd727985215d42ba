//! The decoder: one operation for each kind of value, each taking the
//! kind's bytes from the front of what the stream has left.
use vstd::prelude::*;
use binary_rw::MemoryStream;
use crate::endian::Endian;
use crate::error::Error;
use crate::layout::{
    parse_blob, parse_bool, parse_char, parse_fixed, parse_i16, parse_i32, parse_i64, parse_i8,
    parse_isize, parse_presence, parse_str, parse_u16, parse_u32, parse_u64, parse_u8,
    parse_usize, Parsed,
};
use crate::stream::{
    char_from_u32, in_bounds, lemma_advanced, stream_from_vec, stream_read_bytes, stream_read_i16,
    stream_read_i32, stream_read_i64, stream_read_i8, stream_read_u16, stream_read_u32,
    stream_read_u64, stream_read_u8, string_from_utf8, unread,
};

verus! {

/// Reads values from a byte stream of its own, in one byte order.
pub struct Deserializer {
    stream: MemoryStream,
    endian: Endian,
}

impl View for Deserializer {
    type V = Seq<u8>;

    /// The bytes not read yet.
    closed spec fn view(&self) -> Seq<u8> {
        unread(self.stream)
    }
}

impl Deserializer {
    /// The stream's cursor stands inside its buffer or at its end.
    pub closed spec fn wf(&self) -> bool {
        in_bounds(self.stream)
    }

    /// The byte order of multi-byte numbers.
    pub closed spec fn spec_endian(&self) -> Endian {
        self.endian
    }

    /// This decoder is `before` after it read `count` bytes.
    pub open spec fn took(&self, before: &Deserializer, count: nat) -> bool {
        &&& self.wf()
        &&& self.endian() == before.endian()
        &&& count <= before@.len()
        &&& self@ == before@.skip(count as int)
    }

    /// This decoder is `before` after a read that answered `r`, where
    /// `expected` is what the bytes that `before` had left hold at their
    /// front: on success the answer is the item and the decoder stands
    /// behind it; on failure the answer is an error of the expected kind.
    pub open spec fn read<T>(
        &self,
        before: &Deserializer,
        r: Result<T, Error>,
        expected: Parsed<T>,
    ) -> bool {
        &&& self.wf()
        &&& self.endian() == before.endian()
        &&& match expected {
            Ok((item, count)) => r is Ok && r->Ok_0 == item && self.took(before, count),
            Err(kind) => r is Err && r->Err_0.kind() == kind,
        }
    }

    /// As `read`, for an answer that is compared by its view.
    pub open spec fn read_view<T: View>(
        &self,
        before: &Deserializer,
        r: Result<T, Error>,
        expected: Parsed<T::V>,
    ) -> bool {
        &&& self.wf()
        &&& self.endian() == before.endian()
        &&& match expected {
            Ok((item, count)) => r is Ok && r->Ok_0@ == item && self.took(before, count),
            Err(kind) => r is Err && r->Err_0.kind() == kind,
        }
    }

    /// A decoder at the start of `buffer`.
    pub fn new(buffer: Vec<u8>, endian: Endian) -> (de: Deserializer)
        ensures
            de.wf(),
            de.endian() == endian,
            de@ == buffer@,
    {
        let de = Deserializer { stream: stream_from_vec(buffer), endian };
        assert(unread(de.stream) =~= buffer@);
        de
    }

    /// The byte order of multi-byte numbers.
    #[verifier::when_used_as_spec(spec_endian)]
    pub fn endian(&self) -> (endian: Endian)
        ensures
            endian == self.endian(),
    {
        self.endian
    }

    /// Reads the next `len` bytes as they are. The stream is asked for at
    /// most 2^20 bytes at a time: it allocates what it is asked for before
    /// it looks at what it has, and a length that the bytes themselves
    /// announce may be far larger than what follows it.
    pub fn read_bytes(&mut self, len: usize) -> (r: Result<Vec<u8>, Error>)
        requires
            old(self).wf(),
        ensures
            final(self).read_view(
                old(self),
                r,
                parse_fixed(old(self)@, len as nat, old(self)@.take(len as int)),
            ),
    {
        let ghost input = self@;
        let mut out: Vec<u8> = Vec::new();
        let mut left: usize = len;
        while left > 0
            invariant
                self.wf(),
                self.endian() == old(self).endian(),
                left <= len,
                len - left <= input.len(),
                out@ == input.take(len - left),
                self@ == input.skip(len - left),
                input == old(self)@,
            decreases left,
        {
            let step: usize = if left > 0x10_0000 { 0x10_0000 } else { left };
            let ghost before = self.stream;
            let answer = stream_read_bytes(&mut self.stream, step);
            proof {
                lemma_advanced(before, self.stream, if answer is Ok { step as nat } else { 0 });
            }
            match answer {
                Ok(mut part) => {
                    proof {
                        assert(out@ + part@ =~= input.take(len - left + step));
                        assert(unread(self.stream) =~= input.skip(len - left + step));
                    }
                    out.append(&mut part);
                    left = left - step;
                },
                Err(e) => {
                    return Err(Error::Binary(e));
                },
            }
        }
        proof {
            assert(self@ =~= old(self)@.skip(len as int));
        }
        Ok(out)
    }

    /// Unit: no bytes.
    pub fn deserialize_unit(&mut self) -> (r: Result<(), Error>)
        requires
            old(self).wf(),
        ensures
            final(self).read(old(self), r, Ok(((), 0))),
    {
        assert(self@.skip(0) =~= self@);
        Ok(())
    }

    /// A truth value: one byte, false for 0 and true for every other byte.
    pub fn deserialize_bool(&mut self) -> (r: Result<bool, Error>)
        requires
            old(self).wf(),
        ensures
            final(self).read(old(self), r, parse_bool(old(self)@)),
    {
        let ghost input = self@;
        let byte = self.deserialize_u8()?;
        proof {
            crate::layout::lemma_uint_bytes_of_byte(input[0], self.endian);
            assert(input.take(1) =~= seq![input[0]]);
        }
        Ok(byte > 0)
    }

    /// A signed number of 1 byte.
    pub fn deserialize_i8(&mut self) -> (r: Result<i8, Error>)
        requires
            old(self).wf(),
        ensures
            final(self).read(old(self), r, parse_i8(old(self)@, old(self).endian())),
    {
        let ghost before = self.stream;
        let answer = stream_read_i8(&mut self.stream, self.endian);
        proof {
            lemma_advanced(before, self.stream, if answer is Ok { 1 } else { 0 });
        }
        match answer {
            Ok(v) => Ok(v),
            Err(e) => Err(Error::Binary(e)),
        }
    }

    /// A signed number of 2 bytes.
    pub fn deserialize_i16(&mut self) -> (r: Result<i16, Error>)
        requires
            old(self).wf(),
        ensures
            final(self).read(old(self), r, parse_i16(old(self)@, old(self).endian())),
    {
        let ghost before = self.stream;
        let answer = stream_read_i16(&mut self.stream, self.endian);
        proof {
            lemma_advanced(before, self.stream, if answer is Ok { 2 } else { 0 });
        }
        match answer {
            Ok(v) => Ok(v),
            Err(e) => Err(Error::Binary(e)),
        }
    }

    /// A signed number of 4 bytes.
    pub fn deserialize_i32(&mut self) -> (r: Result<i32, Error>)
        requires
            old(self).wf(),
        ensures
            final(self).read(old(self), r, parse_i32(old(self)@, old(self).endian())),
    {
        let ghost before = self.stream;
        let answer = stream_read_i32(&mut self.stream, self.endian);
        proof {
            lemma_advanced(before, self.stream, if answer is Ok { 4 } else { 0 });
        }
        match answer {
            Ok(v) => Ok(v),
            Err(e) => Err(Error::Binary(e)),
        }
    }

    /// A signed number of 8 bytes.
    pub fn deserialize_i64(&mut self) -> (r: Result<i64, Error>)
        requires
            old(self).wf(),
        ensures
            final(self).read(old(self), r, parse_i64(old(self)@, old(self).endian())),
    {
        let ghost before = self.stream;
        let answer = stream_read_i64(&mut self.stream, self.endian);
        proof {
            lemma_advanced(before, self.stream, if answer is Ok { 8 } else { 0 });
        }
        match answer {
            Ok(v) => Ok(v),
            Err(e) => Err(Error::Binary(e)),
        }
    }

    /// An unsigned number of 1 byte.
    pub fn deserialize_u8(&mut self) -> (r: Result<u8, Error>)
        requires
            old(self).wf(),
        ensures
            final(self).read(old(self), r, parse_u8(old(self)@, old(self).endian())),
    {
        let ghost before = self.stream;
        let answer = stream_read_u8(&mut self.stream, self.endian);
        proof {
            lemma_advanced(before, self.stream, if answer is Ok { 1 } else { 0 });
        }
        match answer {
            Ok(v) => Ok(v),
            Err(e) => Err(Error::Binary(e)),
        }
    }

    /// An unsigned number of 2 bytes.
    pub fn deserialize_u16(&mut self) -> (r: Result<u16, Error>)
        requires
            old(self).wf(),
        ensures
            final(self).read(old(self), r, parse_u16(old(self)@, old(self).endian())),
    {
        let ghost before = self.stream;
        let answer = stream_read_u16(&mut self.stream, self.endian);
        proof {
            lemma_advanced(before, self.stream, if answer is Ok { 2 } else { 0 });
        }
        match answer {
            Ok(v) => Ok(v),
            Err(e) => Err(Error::Binary(e)),
        }
    }

    /// An unsigned number of 4 bytes.
    pub fn deserialize_u32(&mut self) -> (r: Result<u32, Error>)
        requires
            old(self).wf(),
        ensures
            final(self).read(old(self), r, parse_u32(old(self)@, old(self).endian())),
    {
        let ghost before = self.stream;
        let answer = stream_read_u32(&mut self.stream, self.endian);
        proof {
            lemma_advanced(before, self.stream, if answer is Ok { 4 } else { 0 });
        }
        match answer {
            Ok(v) => Ok(v),
            Err(e) => Err(Error::Binary(e)),
        }
    }

    /// An unsigned number of 8 bytes.
    pub fn deserialize_u64(&mut self) -> (r: Result<u64, Error>)
        requires
            old(self).wf(),
        ensures
            final(self).read(old(self), r, parse_u64(old(self)@, old(self).endian())),
    {
        let ghost before = self.stream;
        let answer = stream_read_u64(&mut self.stream, self.endian);
        proof {
            lemma_advanced(before, self.stream, if answer is Ok { 8 } else { 0 });
        }
        match answer {
            Ok(v) => Ok(v),
            Err(e) => Err(Error::Binary(e)),
        }
    }

    /// A signed number of the machine's width: eight bytes on every machine.
    /// A number that the machine's width cannot hold is a format error.
    pub fn deserialize_isize(&mut self) -> (r: Result<isize, Error>)
        requires
            old(self).wf(),
        ensures
            final(self).read(old(self), r, parse_isize(old(self)@, old(self).endian())),
    {
        let wide = self.deserialize_i64()?;
        if wide < isize::MIN as i64 || wide > isize::MAX as i64 {
            return Err(Error::Message("number out of range for this machine".to_owned()));
        }
        Ok(wide as isize)
    }

    /// An unsigned number of the machine's width: eight bytes on every
    /// machine. A number that the machine's width cannot hold is a format
    /// error.
    pub fn deserialize_usize(&mut self) -> (r: Result<usize, Error>)
        requires
            old(self).wf(),
        ensures
            final(self).read(old(self), r, parse_usize(old(self)@, old(self).endian())),
    {
        let wide = self.deserialize_u64()?;
        if wide > usize::MAX as u64 {
            return Err(Error::Message("number out of range for this machine".to_owned()));
        }
        Ok(wide as usize)
    }

    /// The bit pattern of a floating-point number of four bytes.
    pub fn deserialize_f32(&mut self) -> (r: Result<u32, Error>)
        requires
            old(self).wf(),
        ensures
            final(self).read(old(self), r, parse_u32(old(self)@, old(self).endian())),
    {
        self.deserialize_u32()
    }

    /// The bit pattern of a floating-point number of eight bytes.
    pub fn deserialize_f64(&mut self) -> (r: Result<u64, Error>)
        requires
            old(self).wf(),
        ensures
            final(self).read(old(self), r, parse_u64(old(self)@, old(self).endian())),
    {
        self.deserialize_u64()
    }

    /// A character: four bytes that hold its code point. A number that is no
    /// Unicode scalar value is a format error.
    pub fn deserialize_char(&mut self) -> (r: Result<char, Error>)
        requires
            old(self).wf(),
        ensures
            final(self).read(old(self), r, parse_char(old(self)@, old(self).endian())),
    {
        let code = self.deserialize_u32()?;
        match char_from_u32(code) {
            Some(c) => {
                proof {
                    vstd::utf8::char_u32_cast(c, code);
                }
                Ok(c)
            },
            None => Err(Error::Message("invalid character".to_owned())),
        }
    }

    /// The count of a length-prefixed construct: four bytes.
    pub fn deserialize_len(&mut self) -> (r: Result<u32, Error>)
        requires
            old(self).wf(),
        ensures
            final(self).read(old(self), r, parse_u32(old(self)@, old(self).endian())),
    {
        self.deserialize_u32()
    }

    /// A byte sequence: its length, then as many bytes.
    pub fn deserialize_byte_buf(&mut self) -> (r: Result<Vec<u8>, Error>)
        requires
            old(self).wf(),
        ensures
            final(self).read_view(old(self), r, parse_blob(old(self)@, old(self).endian())),
    {
        let ghost input = self@;
        let len = self.deserialize_len()?;
        let ghost rest = self@;
        let r = self.read_bytes(len as usize);
        proof {
            if r is Ok {
                assert(rest.take(len as int) =~= input.subrange(4, 4 + len));
                assert(self@ =~= input.skip(4 + len));
            }
        }
        r
    }

    /// A text: a byte sequence that is valid UTF-8. One that is not is a
    /// format error.
    pub fn deserialize_string(&mut self) -> (r: Result<String, Error>)
        requires
            old(self).wf(),
        ensures
            final(self).read_view(old(self), r, parse_str(old(self)@, old(self).endian())),
    {
        let bytes = self.deserialize_byte_buf()?;
        match string_from_utf8(bytes) {
            Some(text) => Ok(text),
            None => Err(Error::Message("invalid UTF-8 in a string".to_owned())),
        }
    }

    /// The presence flag of an option: false for the byte 0, true for the
    /// byte 1. Any other byte is a format error. Where the flag is true, the
    /// nested value follows.
    pub fn deserialize_option(&mut self) -> (r: Result<bool, Error>)
        requires
            old(self).wf(),
        ensures
            final(self).read(old(self), r, parse_presence(old(self)@)),
    {
        let ghost input = self@;
        let flag = self.deserialize_u8()?;
        proof {
            crate::layout::lemma_uint_bytes_of_byte(input[0], self.endian);
            assert(input.take(1) =~= seq![input[0]]);
        }
        if flag == 0 {
            Ok(false)
        } else if flag == 1 {
            Ok(true)
        } else {
            Err(Error::Message("invalid presence flag of an option".to_owned()))
        }
    }

    /// The index of an enum variant: four bytes. Which indices name a
    /// variant is for the caller to say.
    pub fn deserialize_variant(&mut self) -> (r: Result<u32, Error>)
        requires
            old(self).wf(),
        ensures
            final(self).read(old(self), r, parse_u32(old(self)@, old(self).endian())),
    {
        self.deserialize_u32()
    }
}

} // verus!
