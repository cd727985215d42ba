//! The byte layout of fixed-width numbers, as mathematics.
//!
//! An unsigned number of `width` bytes is its base-256 digits, least
//! significant first for little endian and most significant first for big
//! endian. A signed number is laid out as its two's complement.
use vstd::prelude::*;
use vstd::utf8::{decode_utf8, encode_utf8, is_scalar, valid_utf8};
use crate::endian::Endian;
use crate::error::ErrorKind;

verus! {

/// 256 to the power `width`: the number of values that `width` bytes can hold.
pub open spec fn pow256(width: nat) -> nat
    decreases width,
{
    if width == 0 {
        1
    } else {
        256 * pow256((width - 1) as nat)
    }
}

/// The `width` low base-256 digits of `x`, least significant first.
pub open spec fn le_bytes(x: nat, width: nat) -> Seq<u8>
    decreases width,
{
    if width == 0 {
        Seq::empty()
    } else {
        seq![(x % 256) as u8] + le_bytes(x / 256, (width - 1) as nat)
    }
}

/// The number whose base-256 digits, least significant first, are `bytes`.
pub open spec fn le_value(bytes: Seq<u8>) -> nat
    decreases bytes.len(),
{
    if bytes.len() == 0 {
        0
    } else {
        bytes[0] as nat + 256 * le_value(bytes.drop_first())
    }
}

/// Little-endian digits put into the given byte order, and back: the same
/// sequence for little endian, the reversed one for big endian.
pub open spec fn in_order(bytes: Seq<u8>, endian: Endian) -> Seq<u8> {
    match endian {
        Endian::Little => bytes,
        Endian::Big => bytes.reverse(),
    }
}

/// The layout of the unsigned number `x` in `width` bytes.
pub open spec fn uint_bytes(x: nat, width: nat, endian: Endian) -> Seq<u8> {
    in_order(le_bytes(x, width), endian)
}

/// The unsigned number that `bytes` lay out.
pub open spec fn uint_value(bytes: Seq<u8>, endian: Endian) -> nat {
    le_value(in_order(bytes, endian))
}

/// The two's complement of `v` in `width` bytes.
pub open spec fn twos_complement(v: int, width: nat) -> nat {
    if v < 0 {
        (v + pow256(width)) as nat
    } else {
        v as nat
    }
}

/// The signed number whose two's complement in `width` bytes is `x`.
pub open spec fn from_twos_complement(x: nat, width: nat) -> int {
    if 2 * x >= pow256(width) {
        x - pow256(width)
    } else {
        x as int
    }
}

/// The layout of the signed number `v` in `width` bytes.
pub open spec fn int_bytes(v: int, width: nat, endian: Endian) -> Seq<u8> {
    uint_bytes(twos_complement(v, width), width, endian)
}

/// The signed number that `bytes` lay out.
pub open spec fn int_value(bytes: Seq<u8>, endian: Endian) -> int {
    from_twos_complement(uint_value(bytes, endian), bytes.len())
}

/// The largest length that a length prefix can hold.
pub open spec fn max_len() -> nat {
    0xFFFF_FFFF
}

/// A truth value: one byte, 1 for true and 0 for false.
pub open spec fn bool_bytes(value: bool) -> Seq<u8> {
    seq![if value { 1u8 } else { 0u8 }]
}

/// A character: its code point as an unsigned number of four bytes.
pub open spec fn char_bytes(value: char, endian: Endian) -> Seq<u8> {
    uint_bytes(value as nat, 4, endian)
}

/// A length or count: an unsigned number of four bytes.
pub open spec fn len_bytes(len: nat, endian: Endian) -> Seq<u8> {
    uint_bytes(len, 4, endian)
}

/// A byte sequence: its length, then the bytes.
pub open spec fn blob_bytes(bytes: Seq<u8>, endian: Endian) -> Seq<u8> {
    len_bytes(bytes.len(), endian) + bytes
}

/// A text: the length of its UTF-8 form in bytes, then that form.
pub open spec fn str_bytes(text: Seq<char>, endian: Endian) -> Seq<u8> {
    blob_bytes(encode_utf8(text), endian)
}

/// The presence flag of an absent option.
pub open spec fn none_bytes() -> Seq<u8> {
    seq![0u8]
}

/// The presence flag of a present option, which the nested value follows.
pub open spec fn some_bytes() -> Seq<u8> {
    seq![1u8]
}

/// The index of an enum variant: an unsigned number of four bytes.
pub open spec fn variant_bytes(index: u32, endian: Endian) -> Seq<u8> {
    uint_bytes(index as nat, 4, endian)
}

/// The powers of 256 for the widths in use.
pub proof fn lemma_pow256_values()
    ensures
        pow256(0) == 1,
        pow256(1) == 0x100,
        pow256(2) == 0x1_0000,
        pow256(4) == 0x1_0000_0000,
        pow256(8) == 0x1_0000_0000_0000_0000,
{
    reveal_with_fuel(pow256, 9);
}

/// A layout has as many bytes as its width.
pub proof fn lemma_le_bytes_len(x: nat, width: nat)
    ensures
        le_bytes(x, width).len() == width,
    decreases width,
{
    if width > 0 {
        lemma_le_bytes_len(x / 256, (width - 1) as nat);
    }
}

/// Reading back the little-endian digits of a number that fits gives the number.
pub proof fn lemma_le_value_of_bytes(x: nat, width: nat)
    requires
        x < pow256(width),
    ensures
        le_value(le_bytes(x, width)) == x,
    decreases width,
{
    if width > 0 {
        let rest = le_bytes(x / 256, (width - 1) as nat);
        let all = le_bytes(x, width);
        lemma_le_bytes_len(x / 256, (width - 1) as nat);
        lemma_le_value_of_bytes(x / 256, (width - 1) as nat);
        assert(all.drop_first() =~= rest);
        assert(all[0] == (x % 256) as u8);
    }
}

/// Reversing twice gives the sequence back.
pub proof fn lemma_reverse_twice(bytes: Seq<u8>)
    ensures
        bytes.reverse().reverse() == bytes,
        bytes.reverse().len() == bytes.len(),
{
    assert(bytes.reverse().reverse() =~= bytes);
}

/// One byte lays out as itself in either byte order.
pub proof fn lemma_uint_bytes_of_byte(byte: u8, endian: Endian)
    ensures
        uint_bytes(byte as nat, 1, endian) == seq![byte],
        uint_value(seq![byte], endian) == byte,
{
    reveal_with_fuel(le_bytes, 2);
    reveal_with_fuel(le_value, 2);
    let digits = le_bytes(byte as nat, 1);
    assert(digits =~= seq![byte]);
    assert(digits.reverse() =~= seq![byte]);
    assert(seq![byte].reverse() =~= seq![byte]);
    assert(seq![byte].drop_first().len() == 0);
}

/// An unsigned layout has `width` bytes, and lays out the number it was made from.
pub proof fn lemma_uint_round_trip(x: nat, width: nat, endian: Endian)
    requires
        x < pow256(width),
    ensures
        uint_bytes(x, width, endian).len() == width,
        uint_value(uint_bytes(x, width, endian), endian) == x,
{
    lemma_le_bytes_len(x, width);
    lemma_le_value_of_bytes(x, width);
    lemma_reverse_twice(le_bytes(x, width));
}

/// A signed layout has `width` bytes, and lays out the number it was made from.
pub proof fn lemma_int_round_trip(v: int, width: nat, endian: Endian)
    requires
        -(pow256(width) as int) <= 2 * v < pow256(width),
    ensures
        int_bytes(v, width, endian).len() == width,
        int_value(int_bytes(v, width, endian), endian) == v,
{
    lemma_uint_round_trip(twos_complement(v, width), width, endian);
}

/// What reading one item from the front of an input gives: the item and the
/// number of bytes it took, or the kind of the failure.
pub type Parsed<T> = Result<(T, nat), ErrorKind>;

/// An item of `width` bytes at the front of `input`: `value`, if the input
/// is long enough. A short input is a failure of the stream.
pub open spec fn parse_fixed<T>(input: Seq<u8>, width: nat, value: T) -> Parsed<T> {
    if input.len() < width {
        Err(ErrorKind::Binary)
    } else {
        Ok((value, width))
    }
}

/// An unsigned number of 1 byte at the front of `input`.
pub open spec fn parse_u8(input: Seq<u8>, endian: Endian) -> Parsed<u8> {
    parse_fixed(input, 1, uint_value(input.take(1), endian) as u8)
}

/// An unsigned number of 2 bytes at the front of `input`.
pub open spec fn parse_u16(input: Seq<u8>, endian: Endian) -> Parsed<u16> {
    parse_fixed(input, 2, uint_value(input.take(2), endian) as u16)
}

/// An unsigned number of 4 bytes at the front of `input`.
pub open spec fn parse_u32(input: Seq<u8>, endian: Endian) -> Parsed<u32> {
    parse_fixed(input, 4, uint_value(input.take(4), endian) as u32)
}

/// An unsigned number of 8 bytes at the front of `input`.
pub open spec fn parse_u64(input: Seq<u8>, endian: Endian) -> Parsed<u64> {
    parse_fixed(input, 8, uint_value(input.take(8), endian) as u64)
}

/// A signed number of 1 byte at the front of `input`.
pub open spec fn parse_i8(input: Seq<u8>, endian: Endian) -> Parsed<i8> {
    parse_fixed(input, 1, int_value(input.take(1), endian) as i8)
}

/// A signed number of 2 bytes at the front of `input`.
pub open spec fn parse_i16(input: Seq<u8>, endian: Endian) -> Parsed<i16> {
    parse_fixed(input, 2, int_value(input.take(2), endian) as i16)
}

/// A signed number of 4 bytes at the front of `input`.
pub open spec fn parse_i32(input: Seq<u8>, endian: Endian) -> Parsed<i32> {
    parse_fixed(input, 4, int_value(input.take(4), endian) as i32)
}

/// A signed number of 8 bytes at the front of `input`.
pub open spec fn parse_i64(input: Seq<u8>, endian: Endian) -> Parsed<i64> {
    parse_fixed(input, 8, int_value(input.take(8), endian) as i64)
}

/// A number of the machine's unsigned width at the front of `input`: eight
/// bytes on every machine, refused where the number does not fit the machine.
pub open spec fn parse_usize(input: Seq<u8>, endian: Endian) -> Parsed<usize> {
    match parse_u64(input, endian) {
        Ok((wide, count)) => if wide <= usize::MAX {
            Ok((wide as usize, count))
        } else {
            Err(ErrorKind::Message)
        },
        Err(kind) => Err(kind),
    }
}

/// A number of the machine's signed width at the front of `input`: eight
/// bytes on every machine, refused where the number does not fit the machine.
pub open spec fn parse_isize(input: Seq<u8>, endian: Endian) -> Parsed<isize> {
    match parse_i64(input, endian) {
        Ok((wide, count)) => if isize::MIN <= wide <= isize::MAX {
            Ok((wide as isize, count))
        } else {
            Err(ErrorKind::Message)
        },
        Err(kind) => Err(kind),
    }
}

/// A truth value at the front of `input`: false for the byte 0, true for
/// every other byte.
pub open spec fn parse_bool(input: Seq<u8>) -> Parsed<bool> {
    parse_fixed(input, 1, input[0] > 0)
}

/// A character at the front of `input`: four bytes that must hold a Unicode
/// scalar value.
pub open spec fn parse_char(input: Seq<u8>, endian: Endian) -> Parsed<char> {
    match parse_u32(input, endian) {
        Ok((code, count)) => if is_scalar(code) {
            Ok((code as char, count))
        } else {
            Err(ErrorKind::Message)
        },
        Err(kind) => Err(kind),
    }
}

/// A byte sequence at the front of `input`: its length, then as many bytes.
pub open spec fn parse_blob(input: Seq<u8>, endian: Endian) -> Parsed<Seq<u8>> {
    match parse_u32(input, endian) {
        Ok((len, count)) => if input.len() < count + len {
            Err(ErrorKind::Binary)
        } else {
            Ok((input.subrange(count as int, count + len), (count + len) as nat))
        },
        Err(kind) => Err(kind),
    }
}

/// A text at the front of `input`: a byte sequence that must be valid UTF-8.
pub open spec fn parse_str(input: Seq<u8>, endian: Endian) -> Parsed<Seq<char>> {
    match parse_blob(input, endian) {
        Ok((bytes, count)) => if valid_utf8(bytes) {
            Ok((decode_utf8(bytes), count))
        } else {
            Err(ErrorKind::Message)
        },
        Err(kind) => Err(kind),
    }
}

/// The presence flag of an option at the front of `input`: 0 for absent, 1
/// for present, and no other byte.
pub open spec fn parse_presence(input: Seq<u8>) -> Parsed<bool> {
    if input.len() < 1 {
        Err(ErrorKind::Binary)
    } else if input[0] == 0 {
        Ok((false, 1))
    } else if input[0] == 1 {
        Ok((true, 1))
    } else {
        Err(ErrorKind::Message)
    }
}

/// The bytes in front of a longer input are the first bytes of the input,
/// and what follows them is what is left behind them.
pub proof fn lemma_front(front: Seq<u8>, rest: Seq<u8>)
    ensures
        (front + rest).take(front.len() as int) == front,
        (front + rest).skip(front.len() as int) == rest,
        (front + rest).len() == front.len() + rest.len(),
{
    assert((front + rest).take(front.len() as int) =~= front);
    assert((front + rest).skip(front.len() as int) =~= rest);
}

/// An unsigned number of 1 byte is read back from its layout.
pub proof fn lemma_parse_u8(value: u8, endian: Endian, rest: Seq<u8>)
    ensures
        uint_bytes(value as nat, 1, endian).len() == 1,
        parse_u8(uint_bytes(value as nat, 1, endian) + rest, endian) == Ok::<_, ErrorKind>(
            (value, 1nat),
        ),
{
    lemma_pow256_values();
    lemma_uint_round_trip(value as nat, 1, endian);
    lemma_front(uint_bytes(value as nat, 1, endian), rest);
}

/// An unsigned number of 2 bytes is read back from its layout.
pub proof fn lemma_parse_u16(value: u16, endian: Endian, rest: Seq<u8>)
    ensures
        uint_bytes(value as nat, 2, endian).len() == 2,
        parse_u16(uint_bytes(value as nat, 2, endian) + rest, endian) == Ok::<_, ErrorKind>(
            (value, 2nat),
        ),
{
    lemma_pow256_values();
    lemma_uint_round_trip(value as nat, 2, endian);
    lemma_front(uint_bytes(value as nat, 2, endian), rest);
}

/// An unsigned number of 4 bytes is read back from its layout.
pub proof fn lemma_parse_u32(value: u32, endian: Endian, rest: Seq<u8>)
    ensures
        uint_bytes(value as nat, 4, endian).len() == 4,
        parse_u32(uint_bytes(value as nat, 4, endian) + rest, endian) == Ok::<_, ErrorKind>(
            (value, 4nat),
        ),
{
    lemma_pow256_values();
    lemma_uint_round_trip(value as nat, 4, endian);
    lemma_front(uint_bytes(value as nat, 4, endian), rest);
}

/// An unsigned number of 8 bytes is read back from its layout.
pub proof fn lemma_parse_u64(value: u64, endian: Endian, rest: Seq<u8>)
    ensures
        uint_bytes(value as nat, 8, endian).len() == 8,
        parse_u64(uint_bytes(value as nat, 8, endian) + rest, endian) == Ok::<_, ErrorKind>(
            (value, 8nat),
        ),
{
    lemma_pow256_values();
    lemma_uint_round_trip(value as nat, 8, endian);
    lemma_front(uint_bytes(value as nat, 8, endian), rest);
}

/// A signed number of 1 byte is read back from its layout.
pub proof fn lemma_parse_i8(value: i8, endian: Endian, rest: Seq<u8>)
    ensures
        int_bytes(value as int, 1, endian).len() == 1,
        parse_i8(int_bytes(value as int, 1, endian) + rest, endian) == Ok::<_, ErrorKind>(
            (value, 1nat),
        ),
{
    lemma_pow256_values();
    lemma_int_round_trip(value as int, 1, endian);
    lemma_front(int_bytes(value as int, 1, endian), rest);
}

/// A signed number of 2 bytes is read back from its layout.
pub proof fn lemma_parse_i16(value: i16, endian: Endian, rest: Seq<u8>)
    ensures
        int_bytes(value as int, 2, endian).len() == 2,
        parse_i16(int_bytes(value as int, 2, endian) + rest, endian) == Ok::<_, ErrorKind>(
            (value, 2nat),
        ),
{
    lemma_pow256_values();
    lemma_int_round_trip(value as int, 2, endian);
    lemma_front(int_bytes(value as int, 2, endian), rest);
}

/// A signed number of 4 bytes is read back from its layout.
pub proof fn lemma_parse_i32(value: i32, endian: Endian, rest: Seq<u8>)
    ensures
        int_bytes(value as int, 4, endian).len() == 4,
        parse_i32(int_bytes(value as int, 4, endian) + rest, endian) == Ok::<_, ErrorKind>(
            (value, 4nat),
        ),
{
    lemma_pow256_values();
    lemma_int_round_trip(value as int, 4, endian);
    lemma_front(int_bytes(value as int, 4, endian), rest);
}

/// A signed number of 8 bytes is read back from its layout.
pub proof fn lemma_parse_i64(value: i64, endian: Endian, rest: Seq<u8>)
    ensures
        int_bytes(value as int, 8, endian).len() == 8,
        parse_i64(int_bytes(value as int, 8, endian) + rest, endian) == Ok::<_, ErrorKind>(
            (value, 8nat),
        ),
{
    lemma_pow256_values();
    lemma_int_round_trip(value as int, 8, endian);
    lemma_front(int_bytes(value as int, 8, endian), rest);
}

/// A number of the machine's unsigned width is read back from its layout.
pub proof fn lemma_parse_usize(value: usize, endian: Endian, rest: Seq<u8>)
    ensures
        uint_bytes(value as nat, 8, endian).len() == 8,
        parse_usize(uint_bytes(value as nat, 8, endian) + rest, endian) == Ok::<_, ErrorKind>(
            (value, 8nat),
        ),
{
    lemma_parse_u64(value as u64, endian, rest);
}

/// A number of the machine's signed width is read back from its layout.
pub proof fn lemma_parse_isize(value: isize, endian: Endian, rest: Seq<u8>)
    ensures
        int_bytes(value as int, 8, endian).len() == 8,
        parse_isize(int_bytes(value as int, 8, endian) + rest, endian) == Ok::<_, ErrorKind>(
            (value, 8nat),
        ),
{
    lemma_parse_i64(value as i64, endian, rest);
}

/// A truth value is read back from its byte.
pub proof fn lemma_parse_bool(value: bool, rest: Seq<u8>)
    ensures
        bool_bytes(value).len() == 1,
        parse_bool(bool_bytes(value) + rest) == Ok::<_, ErrorKind>((value, 1nat)),
{
}

/// A character is read back from its layout.
pub proof fn lemma_parse_char(value: char, endian: Endian, rest: Seq<u8>)
    ensures
        char_bytes(value, endian).len() == 4,
        parse_char(char_bytes(value, endian) + rest, endian) == Ok::<_, ErrorKind>((value, 4nat)),
{
    let code = value as u32;
    lemma_parse_u32(code, endian, rest);
    vstd::utf8::char_is_scalar(value);
    vstd::utf8::char_u32_cast(value, code);
}

/// A byte sequence whose length fits the prefix is read back from its layout.
pub proof fn lemma_parse_blob(bytes: Seq<u8>, endian: Endian, rest: Seq<u8>)
    requires
        bytes.len() <= max_len(),
    ensures
        blob_bytes(bytes, endian).len() == 4 + bytes.len(),
        parse_blob(blob_bytes(bytes, endian) + rest, endian) == Ok::<_, ErrorKind>(
            (bytes, (4 + bytes.len()) as nat),
        ),
{
    let len = bytes.len() as u32;
    let input = blob_bytes(bytes, endian) + rest;
    lemma_parse_u32(len, endian, bytes + rest);
    assert(input =~= len_bytes(bytes.len(), endian) + (bytes + rest));
    assert(input.subrange(4, 4 + bytes.len() as int) =~= bytes);
}

/// A text whose UTF-8 form fits the prefix is read back from its layout.
pub proof fn lemma_parse_str(text: Seq<char>, endian: Endian, rest: Seq<u8>)
    requires
        encode_utf8(text).len() <= max_len(),
    ensures
        str_bytes(text, endian).len() == 4 + encode_utf8(text).len(),
        parse_str(str_bytes(text, endian) + rest, endian) == Ok::<_, ErrorKind>(
            (text, (4 + encode_utf8(text).len()) as nat),
        ),
{
    lemma_parse_blob(encode_utf8(text), endian, rest);
    vstd::utf8::encode_utf8_valid_utf8(text);
    vstd::utf8::encode_utf8_decode_utf8(text);
}

} // verus!
