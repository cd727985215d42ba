//! The in-memory byte stream that the encoder and the decoder are bound to.
//!
//! The stream and its reader and writer belong to `binary_rw`. But for one
//! lemma on the cursor, nothing in this file is proved: each function
//! states what the call in its body does, and the rest of the crate is
//! verified against those statements.
use vstd::prelude::*;
use vstd::utf8::{decode_utf8, is_scalar, valid_utf8};
use binary_rw::{BinaryError, BinaryReader, BinaryWriter, MemoryStream};
use crate::endian::Endian;
use crate::layout::{int_bytes, int_value, uint_bytes, uint_value};

verus! {

/// `binary_rw::MemoryStream`: an owned byte buffer with a cursor.
#[verifier::external_type_specification]
#[verifier::external_body]
pub struct ExMemoryStream(MemoryStream);

/// `binary_rw::BinaryError`: what a failed stream operation reports.
#[verifier::external_type_specification]
#[verifier::external_body]
pub struct ExBinaryError(BinaryError);

/// The bytes in the buffer of a `MemoryStream`, from its first byte on.
pub uninterp spec fn stream_bytes(stream: MemoryStream) -> Seq<u8>;

/// The cursor of a `MemoryStream`: the offset of the next byte read or written.
pub uninterp spec fn stream_position(stream: MemoryStream) -> nat;

/// The cursor stands behind the last byte, where a write appends.
pub open spec fn at_end(stream: MemoryStream) -> bool {
    stream_position(stream) == stream_bytes(stream).len()
}

/// The cursor stands inside the buffer or behind its last byte.
pub open spec fn in_bounds(stream: MemoryStream) -> bool {
    stream_position(stream) <= stream_bytes(stream).len()
}

/// The bytes from the cursor to the end of the buffer.
pub open spec fn unread(stream: MemoryStream) -> Seq<u8> {
    stream_bytes(stream).skip(stream_position(stream) as int)
}

/// `after` is `before` with `data` appended and the cursor behind it.
pub open spec fn appended(before: MemoryStream, after: MemoryStream, data: Seq<u8>) -> bool {
    &&& stream_bytes(after) == stream_bytes(before) + data
    &&& at_end(after)
}

/// `after` is `before` with the cursor moved forward over `count` bytes.
pub open spec fn advanced(before: MemoryStream, after: MemoryStream, count: nat) -> bool {
    &&& stream_bytes(after) == stream_bytes(before)
    &&& stream_position(after) == stream_position(before) + count
}

/// A stream whose cursor moved forward over bytes that it had left has the
/// rest of them left, and its cursor still stands in bounds.
pub proof fn lemma_advanced(before: MemoryStream, after: MemoryStream, count: nat)
    requires
        in_bounds(before),
        advanced(before, after, count),
        count <= unread(before).len(),
    ensures
        in_bounds(after),
        unread(after) == unread(before).skip(count as int),
{
    assert(unread(after) =~= unread(before).skip(count as int));
}

/// `MemoryStream::new`: an empty buffer with the cursor at its start.
#[verifier::external_body]
pub(crate) fn stream_new() -> (stream: MemoryStream)
    ensures
        stream_bytes(stream) == Seq::<u8>::empty(),
        stream_position(stream) == 0,
{
    MemoryStream::new()
}

/// `MemoryStream::from`: the stream takes `buffer` as it is, with the cursor
/// at its start.
#[verifier::external_body]
pub(crate) fn stream_from_vec(buffer: Vec<u8>) -> (stream: MemoryStream)
    ensures
        stream_bytes(stream) == buffer@,
        stream_position(stream) == 0,
{
    MemoryStream::from(buffer)
}

/// `MemoryStream::into`: the stream gives up its buffer, whole, wherever the
/// cursor stands.
#[verifier::external_body]
pub(crate) fn stream_into_vec(stream: MemoryStream) -> (buffer: Vec<u8>)
    ensures
        buffer@ == stream_bytes(stream),
{
    stream.into()
}

/// `BinaryWriter::write_bytes` on a writer over `stream`: with the cursor at
/// the end, the stream grows by `data`. A `MemoryStream` does not refuse a
/// write, and the call reports the number of bytes taken.
#[verifier::external_body]
pub(crate) fn stream_write_bytes(
    stream: &mut MemoryStream,
    data: &[u8],
) -> (r: Result<usize, BinaryError>)
    requires
        at_end(*old(stream)),
    ensures
        r is Ok,
        r matches Ok(n) ==> n == data@.len(),
        appended(*old(stream), *final(stream), data@),
{
    BinaryWriter::new(stream, binary_rw::Endian::Big).write_bytes(data)
}

/// `BinaryReader::read_bytes` on a reader over `stream`: the next `length`
/// bytes, if the stream has that many left; else an error, with the stream
/// as it was. The call allocates `length` bytes before it reads, and a
/// buffer cannot be longer than `isize::MAX`.
#[verifier::external_body]
pub(crate) fn stream_read_bytes(
    stream: &mut MemoryStream,
    length: usize,
) -> (r: Result<Vec<u8>, BinaryError>)
    requires
        in_bounds(*old(stream)),
        length <= isize::MAX,
    ensures
        r is Ok <==> length <= unread(*old(stream)).len(),
        r matches Ok(data) ==> data@ == unread(*old(stream)).take(length as int),
        r is Ok ==> advanced(*old(stream), *final(stream), length as nat),
        r is Err ==> advanced(*old(stream), *final(stream), 0),
{
    BinaryReader::new(stream, binary_rw::Endian::Big).read_bytes(length)
}

/// `BinaryError`'s `Display`: the stream's own words for its failure.
/// Nothing is claimed of them.
#[verifier::external_body]
pub(crate) fn binary_error_text(error: &BinaryError) -> (text: String) {
    error.to_string()
}

/// `char::from_u32`: the character with the given code point, where the
/// number is a Unicode scalar value, and nothing where it is not.
#[verifier::external_body]
pub(crate) fn char_from_u32(code: u32) -> (r: Option<char>)
    ensures
        r is Some <==> is_scalar(code),
        r matches Some(c) ==> c as u32 == code,
{
    char::from_u32(code)
}

/// `String::from_utf8`: the text that `bytes` encode, where they are valid
/// UTF-8, and nothing where they are not.
#[verifier::external_body]
pub(crate) fn string_from_utf8(bytes: Vec<u8>) -> (r: Option<String>)
    ensures
        r is Some <==> valid_utf8(bytes@),
        r matches Some(text) ==> text@ == decode_utf8(bytes@),
{
    match String::from_utf8(bytes) {
        Ok(text) => Some(text),
        Err(_) => None,
    }
}

/// `BinaryWriter::write_u8` on a writer over `stream` in the given byte
/// order: with the cursor at the end, the stream grows by the one byte of
/// `value`. A `MemoryStream` does not refuse a write.
#[verifier::external_body]
pub(crate) fn stream_write_u8(
    stream: &mut MemoryStream,
    endian: Endian,
    value: u8,
) -> (r: Result<usize, BinaryError>)
    requires
        at_end(*old(stream)),
    ensures
        r is Ok,
        r matches Ok(n) ==> n == 1,
        appended(*old(stream), *final(stream), uint_bytes(value as nat, 1, endian)),
{
    let order = match endian {
        Endian::Big => binary_rw::Endian::Big,
        Endian::Little => binary_rw::Endian::Little,
    };
    BinaryWriter::new(stream, order).write_u8(value)
}

/// `BinaryReader::read_u8` on a reader over `stream` in the given byte
/// order: the number that the next byte lays out, if the stream has
/// one left; else an error, with the stream as it was.
#[verifier::external_body]
pub(crate) fn stream_read_u8(
    stream: &mut MemoryStream,
    endian: Endian,
) -> (r: Result<u8, BinaryError>)
    requires
        in_bounds(*old(stream)),
    ensures
        r is Ok <==> 1 <= unread(*old(stream)).len(),
        r matches Ok(value) ==> value as nat == uint_value(unread(*old(stream)).take(1), endian),
        r is Ok ==> advanced(*old(stream), *final(stream), 1),
        r is Err ==> advanced(*old(stream), *final(stream), 0),
{
    let order = match endian {
        Endian::Big => binary_rw::Endian::Big,
        Endian::Little => binary_rw::Endian::Little,
    };
    BinaryReader::new(stream, order).read_u8()
}

/// `BinaryWriter::write_u16` on a writer over `stream` in the given byte
/// order: with the cursor at the end, the stream grows by the 2 bytes of
/// `value`. A `MemoryStream` does not refuse a write.
#[verifier::external_body]
pub(crate) fn stream_write_u16(
    stream: &mut MemoryStream,
    endian: Endian,
    value: u16,
) -> (r: Result<usize, BinaryError>)
    requires
        at_end(*old(stream)),
    ensures
        r is Ok,
        r matches Ok(n) ==> n == 2,
        appended(*old(stream), *final(stream), uint_bytes(value as nat, 2, endian)),
{
    let order = match endian {
        Endian::Big => binary_rw::Endian::Big,
        Endian::Little => binary_rw::Endian::Little,
    };
    BinaryWriter::new(stream, order).write_u16(value)
}

/// `BinaryReader::read_u16` on a reader over `stream` in the given byte
/// order: the number that the next 2 bytes lay out, if the stream has
/// that many left; else an error, with the stream as it was.
#[verifier::external_body]
pub(crate) fn stream_read_u16(
    stream: &mut MemoryStream,
    endian: Endian,
) -> (r: Result<u16, BinaryError>)
    requires
        in_bounds(*old(stream)),
    ensures
        r is Ok <==> 2 <= unread(*old(stream)).len(),
        r matches Ok(value) ==> value as nat == uint_value(unread(*old(stream)).take(2), endian),
        r is Ok ==> advanced(*old(stream), *final(stream), 2),
        r is Err ==> advanced(*old(stream), *final(stream), 0),
{
    let order = match endian {
        Endian::Big => binary_rw::Endian::Big,
        Endian::Little => binary_rw::Endian::Little,
    };
    BinaryReader::new(stream, order).read_u16()
}

/// `BinaryWriter::write_u32` on a writer over `stream` in the given byte
/// order: with the cursor at the end, the stream grows by the 4 bytes of
/// `value`. A `MemoryStream` does not refuse a write.
#[verifier::external_body]
pub(crate) fn stream_write_u32(
    stream: &mut MemoryStream,
    endian: Endian,
    value: u32,
) -> (r: Result<usize, BinaryError>)
    requires
        at_end(*old(stream)),
    ensures
        r is Ok,
        r matches Ok(n) ==> n == 4,
        appended(*old(stream), *final(stream), uint_bytes(value as nat, 4, endian)),
{
    let order = match endian {
        Endian::Big => binary_rw::Endian::Big,
        Endian::Little => binary_rw::Endian::Little,
    };
    BinaryWriter::new(stream, order).write_u32(value)
}

/// `BinaryReader::read_u32` on a reader over `stream` in the given byte
/// order: the number that the next 4 bytes lay out, if the stream has
/// that many left; else an error, with the stream as it was.
#[verifier::external_body]
pub(crate) fn stream_read_u32(
    stream: &mut MemoryStream,
    endian: Endian,
) -> (r: Result<u32, BinaryError>)
    requires
        in_bounds(*old(stream)),
    ensures
        r is Ok <==> 4 <= unread(*old(stream)).len(),
        r matches Ok(value) ==> value as nat == uint_value(unread(*old(stream)).take(4), endian),
        r is Ok ==> advanced(*old(stream), *final(stream), 4),
        r is Err ==> advanced(*old(stream), *final(stream), 0),
{
    let order = match endian {
        Endian::Big => binary_rw::Endian::Big,
        Endian::Little => binary_rw::Endian::Little,
    };
    BinaryReader::new(stream, order).read_u32()
}

/// `BinaryWriter::write_u64` on a writer over `stream` in the given byte
/// order: with the cursor at the end, the stream grows by the 8 bytes of
/// `value`. A `MemoryStream` does not refuse a write.
#[verifier::external_body]
pub(crate) fn stream_write_u64(
    stream: &mut MemoryStream,
    endian: Endian,
    value: u64,
) -> (r: Result<usize, BinaryError>)
    requires
        at_end(*old(stream)),
    ensures
        r is Ok,
        r matches Ok(n) ==> n == 8,
        appended(*old(stream), *final(stream), uint_bytes(value as nat, 8, endian)),
{
    let order = match endian {
        Endian::Big => binary_rw::Endian::Big,
        Endian::Little => binary_rw::Endian::Little,
    };
    BinaryWriter::new(stream, order).write_u64(value)
}

/// `BinaryReader::read_u64` on a reader over `stream` in the given byte
/// order: the number that the next 8 bytes lay out, if the stream has
/// that many left; else an error, with the stream as it was.
#[verifier::external_body]
pub(crate) fn stream_read_u64(
    stream: &mut MemoryStream,
    endian: Endian,
) -> (r: Result<u64, BinaryError>)
    requires
        in_bounds(*old(stream)),
    ensures
        r is Ok <==> 8 <= unread(*old(stream)).len(),
        r matches Ok(value) ==> value as nat == uint_value(unread(*old(stream)).take(8), endian),
        r is Ok ==> advanced(*old(stream), *final(stream), 8),
        r is Err ==> advanced(*old(stream), *final(stream), 0),
{
    let order = match endian {
        Endian::Big => binary_rw::Endian::Big,
        Endian::Little => binary_rw::Endian::Little,
    };
    BinaryReader::new(stream, order).read_u64()
}

/// `BinaryWriter::write_i8` on a writer over `stream` in the given byte
/// order: with the cursor at the end, the stream grows by the one byte of
/// `value`. A `MemoryStream` does not refuse a write.
#[verifier::external_body]
pub(crate) fn stream_write_i8(
    stream: &mut MemoryStream,
    endian: Endian,
    value: i8,
) -> (r: Result<usize, BinaryError>)
    requires
        at_end(*old(stream)),
    ensures
        r is Ok,
        r matches Ok(n) ==> n == 1,
        appended(*old(stream), *final(stream), int_bytes(value as int, 1, endian)),
{
    let order = match endian {
        Endian::Big => binary_rw::Endian::Big,
        Endian::Little => binary_rw::Endian::Little,
    };
    BinaryWriter::new(stream, order).write_i8(value)
}

/// `BinaryReader::read_i8` on a reader over `stream` in the given byte
/// order: the number that the next byte lays out, if the stream has
/// one left; else an error, with the stream as it was.
#[verifier::external_body]
pub(crate) fn stream_read_i8(
    stream: &mut MemoryStream,
    endian: Endian,
) -> (r: Result<i8, BinaryError>)
    requires
        in_bounds(*old(stream)),
    ensures
        r is Ok <==> 1 <= unread(*old(stream)).len(),
        r matches Ok(value) ==> value as int == int_value(unread(*old(stream)).take(1), endian),
        r is Ok ==> advanced(*old(stream), *final(stream), 1),
        r is Err ==> advanced(*old(stream), *final(stream), 0),
{
    let order = match endian {
        Endian::Big => binary_rw::Endian::Big,
        Endian::Little => binary_rw::Endian::Little,
    };
    BinaryReader::new(stream, order).read_i8()
}

/// `BinaryWriter::write_i16` on a writer over `stream` in the given byte
/// order: with the cursor at the end, the stream grows by the 2 bytes of
/// `value`. A `MemoryStream` does not refuse a write.
#[verifier::external_body]
pub(crate) fn stream_write_i16(
    stream: &mut MemoryStream,
    endian: Endian,
    value: i16,
) -> (r: Result<usize, BinaryError>)
    requires
        at_end(*old(stream)),
    ensures
        r is Ok,
        r matches Ok(n) ==> n == 2,
        appended(*old(stream), *final(stream), int_bytes(value as int, 2, endian)),
{
    let order = match endian {
        Endian::Big => binary_rw::Endian::Big,
        Endian::Little => binary_rw::Endian::Little,
    };
    BinaryWriter::new(stream, order).write_i16(value)
}

/// `BinaryReader::read_i16` on a reader over `stream` in the given byte
/// order: the number that the next 2 bytes lay out, if the stream has
/// that many left; else an error, with the stream as it was.
#[verifier::external_body]
pub(crate) fn stream_read_i16(
    stream: &mut MemoryStream,
    endian: Endian,
) -> (r: Result<i16, BinaryError>)
    requires
        in_bounds(*old(stream)),
    ensures
        r is Ok <==> 2 <= unread(*old(stream)).len(),
        r matches Ok(value) ==> value as int == int_value(unread(*old(stream)).take(2), endian),
        r is Ok ==> advanced(*old(stream), *final(stream), 2),
        r is Err ==> advanced(*old(stream), *final(stream), 0),
{
    let order = match endian {
        Endian::Big => binary_rw::Endian::Big,
        Endian::Little => binary_rw::Endian::Little,
    };
    BinaryReader::new(stream, order).read_i16()
}

/// `BinaryWriter::write_i32` on a writer over `stream` in the given byte
/// order: with the cursor at the end, the stream grows by the 4 bytes of
/// `value`. A `MemoryStream` does not refuse a write.
#[verifier::external_body]
pub(crate) fn stream_write_i32(
    stream: &mut MemoryStream,
    endian: Endian,
    value: i32,
) -> (r: Result<usize, BinaryError>)
    requires
        at_end(*old(stream)),
    ensures
        r is Ok,
        r matches Ok(n) ==> n == 4,
        appended(*old(stream), *final(stream), int_bytes(value as int, 4, endian)),
{
    let order = match endian {
        Endian::Big => binary_rw::Endian::Big,
        Endian::Little => binary_rw::Endian::Little,
    };
    BinaryWriter::new(stream, order).write_i32(value)
}

/// `BinaryReader::read_i32` on a reader over `stream` in the given byte
/// order: the number that the next 4 bytes lay out, if the stream has
/// that many left; else an error, with the stream as it was.
#[verifier::external_body]
pub(crate) fn stream_read_i32(
    stream: &mut MemoryStream,
    endian: Endian,
) -> (r: Result<i32, BinaryError>)
    requires
        in_bounds(*old(stream)),
    ensures
        r is Ok <==> 4 <= unread(*old(stream)).len(),
        r matches Ok(value) ==> value as int == int_value(unread(*old(stream)).take(4), endian),
        r is Ok ==> advanced(*old(stream), *final(stream), 4),
        r is Err ==> advanced(*old(stream), *final(stream), 0),
{
    let order = match endian {
        Endian::Big => binary_rw::Endian::Big,
        Endian::Little => binary_rw::Endian::Little,
    };
    BinaryReader::new(stream, order).read_i32()
}

/// `BinaryWriter::write_i64` on a writer over `stream` in the given byte
/// order: with the cursor at the end, the stream grows by the 8 bytes of
/// `value`. A `MemoryStream` does not refuse a write.
#[verifier::external_body]
pub(crate) fn stream_write_i64(
    stream: &mut MemoryStream,
    endian: Endian,
    value: i64,
) -> (r: Result<usize, BinaryError>)
    requires
        at_end(*old(stream)),
    ensures
        r is Ok,
        r matches Ok(n) ==> n == 8,
        appended(*old(stream), *final(stream), int_bytes(value as int, 8, endian)),
{
    let order = match endian {
        Endian::Big => binary_rw::Endian::Big,
        Endian::Little => binary_rw::Endian::Little,
    };
    BinaryWriter::new(stream, order).write_i64(value)
}

/// `BinaryReader::read_i64` on a reader over `stream` in the given byte
/// order: the number that the next 8 bytes lay out, if the stream has
/// that many left; else an error, with the stream as it was.
#[verifier::external_body]
pub(crate) fn stream_read_i64(
    stream: &mut MemoryStream,
    endian: Endian,
) -> (r: Result<i64, BinaryError>)
    requires
        in_bounds(*old(stream)),
    ensures
        r is Ok <==> 8 <= unread(*old(stream)).len(),
        r matches Ok(value) ==> value as int == int_value(unread(*old(stream)).take(8), endian),
        r is Ok ==> advanced(*old(stream), *final(stream), 8),
        r is Err ==> advanced(*old(stream), *final(stream), 0),
{
    let order = match endian {
        Endian::Big => binary_rw::Endian::Big,
        Endian::Little => binary_rw::Endian::Little,
    };
    BinaryReader::new(stream, order).read_i64()
}

} // verus!
