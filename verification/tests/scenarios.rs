use serde_binary::{from_vec, to_vec, Endian, Shape, Value, Variant};

#[test]
fn bool_true_is_one_byte() {
    let bytes = to_vec(&Value::Bool(true), Endian::Little).unwrap();
    assert_eq!(bytes, vec![0x01]);
    assert_eq!(from_vec(bytes, Endian::Little, &Shape::Bool).unwrap(), Value::Bool(true));
}

#[test]
fn bool_false_is_a_zero_byte() {
    let bytes = to_vec(&Value::Bool(false), Endian::Big).unwrap();
    assert_eq!(bytes, vec![0x00]);
}

#[test]
fn u32_little_endian() {
    let bytes = to_vec(&Value::U32(32), Endian::Little).unwrap();
    assert_eq!(bytes, vec![0x20, 0x00, 0x00, 0x00]);
    assert_eq!(from_vec(bytes, Endian::Little, &Shape::U32).unwrap(), Value::U32(32));
}

#[test]
fn u32_big_endian() {
    let bytes = to_vec(&Value::U32(32), Endian::Big).unwrap();
    assert_eq!(bytes, vec![0x00, 0x00, 0x00, 0x20]);
    assert_eq!(from_vec(bytes, Endian::Big, &Shape::U32).unwrap(), Value::U32(32));
}

#[test]
fn string_has_a_length_prefix() {
    let val = Value::Str("foo".to_string());
    let bytes = to_vec(&val, Endian::Little).unwrap();
    assert_eq!(bytes, vec![0x03, 0x00, 0x00, 0x00, 0x66, 0x6F, 0x6F]);
    assert_eq!(from_vec(bytes, Endian::Little, &Shape::Str).unwrap(), val);
}

#[test]
fn string_length_counts_bytes_not_characters() {
    let val = Value::Str("h\u{e9}".to_string());
    let bytes = to_vec(&val, Endian::Big).unwrap();
    assert_eq!(bytes, vec![0x00, 0x00, 0x00, 0x03, 0x68, 0xC3, 0xA9]);
    assert_eq!(from_vec(bytes, Endian::Big, &Shape::Str).unwrap(), val);
}

#[test]
fn option_absent_is_one_zero_byte() {
    let bytes = to_vec(&Value::Optional(None), Endian::Little).unwrap();
    assert_eq!(bytes, vec![0x00]);
}

#[test]
fn option_present_is_a_one_byte_and_the_value() {
    let val = Value::Optional(Some(Box::new(Value::U8(1))));
    let bytes = to_vec(&val, Endian::Little).unwrap();
    assert_eq!(bytes, vec![0x01, 0x01]);
    let shape = Shape::Optional(Box::new(Shape::U8));
    assert_eq!(from_vec(bytes, Endian::Little, &shape).unwrap(), val);
}

#[test]
fn option_present_holds_the_nested_encoding() {
    let nested = Value::Str("ab".to_string());
    let nested_bytes = to_vec(&nested, Endian::Big).unwrap();
    let bytes = to_vec(&Value::Optional(Some(Box::new(nested))), Endian::Big).unwrap();
    assert_eq!(bytes[0], 1);
    assert_eq!(&bytes[1..], &nested_bytes[..]);
}

#[test]
fn record_of_two_fields_has_no_framing() {
    let val = Value::Struct(vec![Value::U32(1), Value::U32(2)]);
    let bytes = to_vec(&val, Endian::Little).unwrap();
    assert_eq!(bytes, vec![1, 0, 0, 0, 2, 0, 0, 0]);
    let shape = Shape::Struct(vec![Shape::U32, Shape::U32]);
    assert_eq!(from_vec(bytes, Endian::Little, &shape).unwrap(), val);
}

fn three_variants() -> Shape {
    Shape::Enum(vec![Variant::Unit, Variant::Unit, Variant::Newtype(Shape::U32)])
}

#[test]
fn third_variant_with_a_payload() {
    let val = Value::NewtypeVariant(2, Box::new(Value::U32(5)));
    let bytes = to_vec(&val, Endian::Little).unwrap();
    assert_eq!(bytes, vec![0x02, 0x00, 0x00, 0x00, 0x05, 0x00, 0x00, 0x00]);
    assert_eq!(from_vec(bytes, Endian::Little, &three_variants()).unwrap(), val);
}

#[test]
fn variant_index_is_read_back() {
    for index in 0..2u32 {
        let bytes = to_vec(&Value::UnitVariant(index), Endian::Big).unwrap();
        let res = from_vec(bytes, Endian::Big, &three_variants()).unwrap();
        assert_eq!(res, Value::UnitVariant(index));
    }
}

#[test]
fn unit_and_unit_struct_are_empty() {
    assert_eq!(to_vec(&Value::Unit, Endian::Big).unwrap(), Vec::<u8>::new());
    assert_eq!(to_vec(&Value::UnitStruct, Endian::Big).unwrap(), Vec::<u8>::new());
    assert_eq!(from_vec(vec![], Endian::Big, &Shape::UnitStruct).unwrap(), Value::UnitStruct);
}

#[test]
fn newtype_struct_is_its_value() {
    let val = Value::NewtypeStruct(Box::new(Value::U16(0x0102)));
    let bytes = to_vec(&val, Endian::Big).unwrap();
    assert_eq!(bytes, vec![0x01, 0x02]);
    let shape = Shape::NewtypeStruct(Box::new(Shape::U16));
    assert_eq!(from_vec(bytes, Endian::Big, &shape).unwrap(), val);
}

#[test]
fn sequence_has_a_count_and_tuple_has_none() {
    let seq = Value::Sequence(vec![Value::U8(7), Value::U8(9)]);
    assert_eq!(to_vec(&seq, Endian::Little).unwrap(), vec![2, 0, 0, 0, 7, 9]);
    let tuple = Value::Tuple(vec![Value::U8(7), Value::U8(9)]);
    assert_eq!(to_vec(&tuple, Endian::Little).unwrap(), vec![7, 9]);
    let tuple_struct = Value::TupleStruct(vec![Value::U8(7), Value::U8(9)]);
    assert_eq!(to_vec(&tuple_struct, Endian::Little).unwrap(), vec![7, 9]);
}

#[test]
fn empty_sequence_is_its_count() {
    let val = Value::Sequence(vec![]);
    let bytes = to_vec(&val, Endian::Big).unwrap();
    assert_eq!(bytes, vec![0, 0, 0, 0]);
    let shape = Shape::Sequence(Box::new(Shape::U64));
    assert_eq!(from_vec(bytes, Endian::Big, &shape).unwrap(), val);
}

#[test]
fn map_is_a_count_and_keys_with_values() {
    let val = Value::Mapping(vec![
        (Value::U8(1), Value::Bool(true)),
        (Value::U8(2), Value::Bool(false)),
    ]);
    let bytes = to_vec(&val, Endian::Big).unwrap();
    assert_eq!(bytes, vec![0, 0, 0, 2, 1, 1, 2, 0]);
    let shape = Shape::Mapping(Box::new(Shape::U8), Box::new(Shape::Bool));
    assert_eq!(from_vec(bytes, Endian::Big, &shape).unwrap(), val);
}

#[test]
fn byte_sequence_has_a_length_prefix() {
    let val = Value::Bytes(vec![0xAA, 0xBB]);
    let bytes = to_vec(&val, Endian::Little).unwrap();
    assert_eq!(bytes, vec![2, 0, 0, 0, 0xAA, 0xBB]);
    assert_eq!(from_vec(bytes, Endian::Little, &Shape::Bytes).unwrap(), val);
}

#[test]
fn char_is_its_code_point() {
    let bytes = to_vec(&Value::Char('x'), Endian::Little).unwrap();
    assert_eq!(bytes, vec![0x78, 0, 0, 0]);
    let bytes = to_vec(&Value::Char('\u{1F600}'), Endian::Big).unwrap();
    assert_eq!(bytes, vec![0x00, 0x01, 0xF6, 0x00]);
    assert_eq!(from_vec(bytes, Endian::Big, &Shape::Char).unwrap(), Value::Char('\u{1F600}'));
}

#[test]
fn floats_are_their_bit_patterns() {
    let one = 1.0f32.to_bits();
    let bytes = to_vec(&Value::F32(one), Endian::Big).unwrap();
    assert_eq!(bytes, vec![0x3F, 0x80, 0x00, 0x00]);
    assert_eq!(from_vec(bytes, Endian::Big, &Shape::F32).unwrap(), Value::F32(one));
    let half = 0.5f64.to_bits();
    let bytes = to_vec(&Value::F64(half), Endian::Little).unwrap();
    assert_eq!(bytes, vec![0, 0, 0, 0, 0, 0, 0xE0, 0x3F]);
    assert_eq!(from_vec(bytes, Endian::Little, &Shape::F64).unwrap(), Value::F64(half));
}

#[test]
fn machine_width_numbers_take_eight_bytes() {
    let bytes = to_vec(&Value::Usize(1), Endian::Big).unwrap();
    assert_eq!(bytes, vec![0, 0, 0, 0, 0, 0, 0, 1]);
    let bytes = to_vec(&Value::Isize(-2), Endian::Little).unwrap();
    assert_eq!(bytes, vec![0xFE, 0xFF, 0xFF, 0xFF, 0xFF, 0xFF, 0xFF, 0xFF]);
    assert_eq!(from_vec(bytes, Endian::Little, &Shape::Isize).unwrap(), Value::Isize(-2));
}

#[test]
fn signed_numbers_are_twos_complement() {
    assert_eq!(to_vec(&Value::I8(-8), Endian::Big).unwrap(), vec![0xF8]);
    assert_eq!(to_vec(&Value::I16(-16), Endian::Big).unwrap(), vec![0xFF, 0xF0]);
    assert_eq!(to_vec(&Value::I16(-16), Endian::Little).unwrap(), vec![0xF0, 0xFF]);
    assert_eq!(to_vec(&Value::I32(-32), Endian::Big).unwrap(), vec![0xFF, 0xFF, 0xFF, 0xE0]);
    assert_eq!(
        to_vec(&Value::I64(i64::MIN), Endian::Big).unwrap(),
        vec![0x80, 0, 0, 0, 0, 0, 0, 0]
    );
}

#[test]
fn unsigned_numbers_in_both_orders() {
    assert_eq!(to_vec(&Value::U16(0x0102), Endian::Big).unwrap(), vec![1, 2]);
    assert_eq!(to_vec(&Value::U16(0x0102), Endian::Little).unwrap(), vec![2, 1]);
    assert_eq!(
        to_vec(&Value::U64(0x0102030405060708), Endian::Big).unwrap(),
        vec![1, 2, 3, 4, 5, 6, 7, 8]
    );
    assert_eq!(
        to_vec(&Value::U64(0x0102030405060708), Endian::Little).unwrap(),
        vec![8, 7, 6, 5, 4, 3, 2, 1]
    );
}

#[test]
fn every_kind_round_trips_in_both_orders() {
    let val = Value::Tuple(vec![
        Value::Unit,
        Value::Bool(true),
        Value::I8(i8::MIN),
        Value::I16(i16::MAX),
        Value::I32(-1),
        Value::I64(i64::MAX),
        Value::Isize(isize::MAX),
        Value::U8(u8::MAX),
        Value::U16(u16::MAX),
        Value::U32(u32::MAX),
        Value::U64(u64::MAX),
        Value::Usize(0),
        Value::F32(f32::MAX.to_bits()),
        Value::F64(f64::MIN.to_bits()),
        Value::Char('\u{10FFFF}'),
        Value::Str(String::new()),
        Value::Bytes(vec![]),
        Value::Optional(Some(Box::new(Value::Optional(None)))),
        Value::Sequence(vec![Value::Sequence(vec![Value::U8(1)]), Value::Sequence(vec![])]),
        Value::Mapping(vec![(Value::Str("k".to_string()), Value::Tuple(vec![]))]),
        Value::UnitStruct,
        Value::NewtypeStruct(Box::new(Value::Char('a'))),
        Value::TupleStruct(vec![Value::U8(1), Value::Bool(false)]),
        Value::Struct(vec![Value::I8(-1)]),
        Value::UnitVariant(0),
        Value::NewtypeVariant(1, Box::new(Value::U32(9))),
        Value::TupleVariant(2, vec![Value::U32(1), Value::U32(2)]),
        Value::StructVariant(3, vec![Value::U32(3)]),
    ]);
    let variants = || {
        Shape::Enum(vec![
            Variant::Unit,
            Variant::Newtype(Shape::U32),
            Variant::Tuple(vec![Shape::U32, Shape::U32]),
            Variant::Struct(vec![Shape::U32]),
        ])
    };
    let shape = Shape::Tuple(vec![
        Shape::Unit,
        Shape::Bool,
        Shape::I8,
        Shape::I16,
        Shape::I32,
        Shape::I64,
        Shape::Isize,
        Shape::U8,
        Shape::U16,
        Shape::U32,
        Shape::U64,
        Shape::Usize,
        Shape::F32,
        Shape::F64,
        Shape::Char,
        Shape::Str,
        Shape::Bytes,
        Shape::Optional(Box::new(Shape::Optional(Box::new(Shape::U8)))),
        Shape::Sequence(Box::new(Shape::Sequence(Box::new(Shape::U8)))),
        Shape::Mapping(Box::new(Shape::Str), Box::new(Shape::Tuple(vec![]))),
        Shape::UnitStruct,
        Shape::NewtypeStruct(Box::new(Shape::Char)),
        Shape::TupleStruct(vec![Shape::U8, Shape::Bool]),
        Shape::Struct(vec![Shape::I8]),
        variants(),
        variants(),
        variants(),
        variants(),
    ]);
    for endian in [Endian::Big, Endian::Little] {
        let bytes = to_vec(&val, endian).unwrap();
        assert_eq!(from_vec(bytes, endian, &shape).unwrap(), val);
    }
}

#[test]
fn bytes_behind_the_value_are_left_unread() {
    let res = from_vec(vec![7, 8, 9], Endian::Big, &Shape::U8).unwrap();
    assert_eq!(res, Value::U8(7));
}

#[test]
fn default_byte_order_is_big_endian() {
    let bytes = to_vec(&Value::U16(1), Default::default()).unwrap();
    assert_eq!(bytes, vec![0, 1]);
    assert_eq!(Endian::default(), Endian::Big);
}

#[test]
fn a_copy_of_a_value_is_equal_to_it() {
    let val = Value::Mapping(vec![(
        Value::Str("k".to_string()),
        Value::Sequence(vec![
            Value::Optional(Some(Box::new(Value::Bytes(vec![1, 2])))),
            Value::Optional(None),
        ]),
    )]);
    let copy = val.clone();
    assert_eq!(copy, val);
    assert_eq!(
        to_vec(&copy, Endian::Little).unwrap(),
        to_vec(&val, Endian::Little).unwrap()
    );
}

#[test]
fn a_copy_of_a_shape_is_equal_to_it() {
    let shape = Shape::Tuple(vec![
        three_variants(),
        Shape::Mapping(Box::new(Shape::Str), Box::new(Shape::Optional(Box::new(Shape::U8)))),
        Shape::Struct(vec![Shape::Sequence(Box::new(Shape::Char)), Shape::NewtypeStruct(Box::new(Shape::Unit))]),
        Shape::Enum(vec![Variant::Tuple(vec![Shape::I8]), Variant::Struct(vec![Shape::Bytes])]),
    ]);
    assert_eq!(shape.clone(), shape);
    assert_eq!(Variant::Newtype(Shape::Bool).clone(), Variant::Newtype(Shape::Bool));
}
