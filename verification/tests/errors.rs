use serde_binary::{
    decode, encode, from_vec, Decode, Deserializer, Encode, Endian, Error, ErrorKind, Serializer,
    Shape, Variant,
};

fn kind_of<T: std::fmt::Debug>(r: Result<T, Error>) -> ErrorKind {
    r.unwrap_err().kind()
}

#[test]
fn short_input_is_a_stream_error() {
    assert_eq!(kind_of(from_vec(vec![], Endian::Big, &Shape::Bool)), ErrorKind::Binary);
    assert_eq!(kind_of(from_vec(vec![1], Endian::Big, &Shape::U16)), ErrorKind::Binary);
    assert_eq!(kind_of(from_vec(vec![1, 2, 3], Endian::Big, &Shape::U32)), ErrorKind::Binary);
    assert_eq!(kind_of(from_vec(vec![0; 7], Endian::Big, &Shape::I64)), ErrorKind::Binary);
    assert_eq!(kind_of(from_vec(vec![0; 7], Endian::Big, &Shape::Usize)), ErrorKind::Binary);
    assert_eq!(kind_of(from_vec(vec![0; 3], Endian::Big, &Shape::Char)), ErrorKind::Binary);
}

#[test]
fn short_input_is_reported_as_the_stream_reports_it() {
    match from_vec(vec![1], Endian::Big, &Shape::U16) {
        Err(Error::Binary(_)) => {}
        other => panic!("expected a stream error, got {:?}", other),
    }
}

#[test]
fn length_beyond_the_input_is_a_stream_error() {
    let bytes = vec![0, 0, 0, 5, b'a', b'b'];
    assert_eq!(kind_of(from_vec(bytes.clone(), Endian::Big, &Shape::Str)), ErrorKind::Binary);
    assert_eq!(kind_of(from_vec(bytes, Endian::Big, &Shape::Bytes)), ErrorKind::Binary);
    let forged = vec![0xFF, 0xFF, 0xFF, 0xFF, 1];
    assert_eq!(kind_of(from_vec(forged, Endian::Big, &Shape::Bytes)), ErrorKind::Binary);
}

#[test]
fn count_beyond_the_input_is_a_stream_error() {
    let shape = Shape::Sequence(Box::new(Shape::U8));
    assert_eq!(kind_of(from_vec(vec![3, 0, 0, 0, 1, 2], Endian::Little, &shape)), ErrorKind::Binary);
    let map = Shape::Mapping(Box::new(Shape::U8), Box::new(Shape::U8));
    assert_eq!(kind_of(from_vec(vec![1, 0, 0, 0, 1], Endian::Little, &map)), ErrorKind::Binary);
}

#[test]
fn presence_flag_other_than_zero_or_one_is_a_format_error() {
    let shape = Shape::Optional(Box::new(Shape::U8));
    match from_vec(vec![2, 1], Endian::Big, &shape) {
        Err(Error::Message(_)) => {}
        other => panic!("expected a format error, got {:?}", other),
    }
    assert_eq!(kind_of(from_vec(vec![0xFF, 1], Endian::Big, &shape)), ErrorKind::Message);
    assert_eq!(kind_of(from_vec(vec![1], Endian::Big, &shape)), ErrorKind::Binary);
}

#[test]
fn bool_byte_other_than_zero_is_true() {
    let res = from_vec(vec![2], Endian::Big, &Shape::Bool).unwrap();
    assert_eq!(res, serde_binary::Value::Bool(true));
}

#[test]
fn variant_index_out_of_range_is_a_format_error() {
    let shape = Shape::Enum(vec![Variant::Unit, Variant::Newtype(Shape::U8)]);
    assert_eq!(kind_of(from_vec(vec![2, 0, 0, 0], Endian::Little, &shape)), ErrorKind::Message);
    assert_eq!(
        kind_of(from_vec(vec![0xFF, 0xFF, 0xFF, 0xFF], Endian::Little, &shape)),
        ErrorKind::Message
    );
    assert_eq!(kind_of(from_vec(vec![0, 0, 0, 0], Endian::Little, &Shape::Enum(vec![]))), ErrorKind::Message);
    assert_eq!(kind_of(from_vec(vec![1, 0, 0, 0], Endian::Little, &shape)), ErrorKind::Binary);
}

#[test]
fn surrogate_code_point_is_a_format_error() {
    assert_eq!(
        kind_of(from_vec(vec![0x00, 0x00, 0xD8, 0x00], Endian::Big, &Shape::Char)),
        ErrorKind::Message
    );
    assert_eq!(
        kind_of(from_vec(vec![0x00, 0x11, 0x00, 0x00], Endian::Big, &Shape::Char)),
        ErrorKind::Message
    );
}

#[test]
fn invalid_utf8_is_a_format_error() {
    let bytes = vec![0, 0, 0, 2, 0xC3, 0x28];
    assert_eq!(kind_of(from_vec(bytes, Endian::Big, &Shape::Str)), ErrorKind::Message);
}

#[test]
fn count_of_two_to_the_32_is_too_many() {
    let mut ser = Serializer::new(Endian::Big);
    assert_eq!(kind_of(ser.serialize_seq(1usize << 32)), ErrorKind::TooManyItems);
    assert_eq!(kind_of(ser.serialize_map(1usize << 32)), ErrorKind::TooManyItems);
    assert_eq!(kind_of(ser.serialize_len(usize::MAX)), ErrorKind::TooManyItems);
    match ser.serialize_seq(1usize << 32) {
        Err(Error::TooManyItems) => {}
        other => panic!("expected the length limit, got {:?}", other),
    }
    assert_eq!(ser.into_vec(), Vec::<u8>::new());
}

#[test]
fn count_of_two_to_the_32_less_one_is_written() {
    let mut ser = Serializer::new(Endian::Big);
    ser.serialize_seq((1usize << 32) - 1).unwrap();
    ser.serialize_map((1usize << 32) - 1).unwrap();
    assert_eq!(ser.into_vec(), vec![0xFF; 8]);
}

struct Refusing;

impl Encode for Refusing {
    fn encode(&self, ser: &mut Serializer) -> Result<(), Error> {
        ser.serialize_u8(1)?;
        Err(Error::Message("refused".to_string()))
    }
}

#[derive(Default)]
struct Quiet;

impl Decode for Quiet {
    fn decode(&mut self, de: &mut Deserializer) -> Result<(), Error> {
        de.deserialize_u32()?;
        Ok(())
    }
}

#[test]
fn a_value_that_refuses_to_encode_fails_with_its_own_error() {
    match encode(&Refusing) {
        Err(Error::Message(text)) => assert_eq!(text, "refused"),
        other => panic!("expected the value's error, got {:?}", other),
    }
}

#[test]
fn a_value_that_fails_to_decode_fails_with_its_own_error() {
    assert_eq!(kind_of(decode::<Quiet>(vec![1, 2, 3]).map(|_| ())), ErrorKind::Binary);
    assert!(decode::<Quiet>(vec![1, 2, 3, 4]).is_ok());
}

#[test]
fn errors_in_words() {
    assert_eq!(Error::Message("no marker".to_string()).to_string(), "no marker");
    assert_eq!(
        Error::TooManyItems.to_string(),
        "sequence has too many items, limit is 2^32"
    );
    let short = from_vec(vec![], Endian::Big, &Shape::U8).unwrap_err();
    assert!(!short.to_string().is_empty());
}
