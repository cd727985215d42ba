use serde_binary::{decode, encode, Decode, Deserializer, Encode, Endian, Error, Serializer};

#[test]
fn each_write_appends_in_the_given_order() {
    let mut ser = Serializer::new(Endian::Little);
    ser.serialize_unit().unwrap();
    ser.serialize_bool(true).unwrap();
    ser.serialize_i8(-1).unwrap();
    ser.serialize_i16(-2).unwrap();
    ser.serialize_i32(-3).unwrap();
    ser.serialize_i64(-4).unwrap();
    ser.serialize_isize(-5).unwrap();
    assert_eq!(ser.endian(), Endian::Little);
    assert_eq!(
        ser.into_vec(),
        vec![
            1, 0xFF, 0xFE, 0xFF, 0xFD, 0xFF, 0xFF, 0xFF, 0xFC, 0xFF, 0xFF, 0xFF, 0xFF, 0xFF,
            0xFF, 0xFF, 0xFB, 0xFF, 0xFF, 0xFF, 0xFF, 0xFF, 0xFF, 0xFF
        ]
    );
}

#[test]
fn unsigned_writes_big_endian() {
    let mut ser = Serializer::new(Endian::Big);
    ser.serialize_u8(1).unwrap();
    ser.serialize_u16(2).unwrap();
    ser.serialize_u32(3).unwrap();
    ser.serialize_u64(4).unwrap();
    ser.serialize_usize(5).unwrap();
    ser.serialize_f32(0x01020304).unwrap();
    ser.serialize_f64(0x0102030405060708).unwrap();
    assert_eq!(
        ser.into_vec(),
        vec![
            1, 0, 2, 0, 0, 0, 3, 0, 0, 0, 0, 0, 0, 0, 4, 0, 0, 0, 0, 0, 0, 0, 5, 1, 2, 3, 4, 1,
            2, 3, 4, 5, 6, 7, 8
        ]
    );
}

#[test]
fn framing_writes() {
    let mut ser = Serializer::new(Endian::Big);
    ser.serialize_none().unwrap();
    ser.serialize_some().unwrap();
    ser.serialize_seq(2).unwrap();
    ser.serialize_map(3).unwrap();
    ser.serialize_tuple().unwrap();
    ser.serialize_unit_struct().unwrap();
    ser.serialize_newtype_struct().unwrap();
    ser.serialize_tuple_struct().unwrap();
    ser.serialize_struct().unwrap();
    ser.serialize_unit_variant(4).unwrap();
    ser.serialize_newtype_variant(5).unwrap();
    ser.serialize_tuple_variant(6).unwrap();
    ser.serialize_struct_variant(7).unwrap();
    assert_eq!(
        ser.into_vec(),
        vec![0, 1, 0, 0, 0, 2, 0, 0, 0, 3, 0, 0, 0, 4, 0, 0, 0, 5, 0, 0, 0, 6, 0, 0, 0, 7]
    );
}

#[test]
fn text_bytes_and_raw_bytes() {
    let mut ser = Serializer::new(Endian::Little);
    ser.serialize_char('A').unwrap();
    ser.serialize_str("hi").unwrap();
    ser.serialize_bytes(&[9, 8]).unwrap();
    ser.write_bytes(&[7, 6, 5]).unwrap();
    assert_eq!(
        ser.into_vec(),
        vec![0x41, 0, 0, 0, 2, 0, 0, 0, b'h', b'i', 2, 0, 0, 0, 9, 8, 7, 6, 5]
    );
}

#[test]
fn each_read_takes_its_bytes_and_no_more() {
    let bytes = vec![
        1, 0xFF, 0xFE, 0xFF, 0xFD, 0xFF, 0xFF, 0xFF, 0xFC, 0xFF, 0xFF, 0xFF, 0xFF, 0xFF, 0xFF,
        0xFF, 0xFB, 0xFF, 0xFF, 0xFF, 0xFF, 0xFF, 0xFF, 0xFF,
    ];
    let mut de = Deserializer::new(bytes, Endian::Little);
    de.deserialize_unit().unwrap();
    assert_eq!(de.deserialize_bool().unwrap(), true);
    assert_eq!(de.deserialize_i8().unwrap(), -1);
    assert_eq!(de.deserialize_i16().unwrap(), -2);
    assert_eq!(de.deserialize_i32().unwrap(), -3);
    assert_eq!(de.deserialize_i64().unwrap(), -4);
    assert_eq!(de.deserialize_isize().unwrap(), -5);
    assert_eq!(de.endian(), Endian::Little);
    assert!(de.deserialize_u8().is_err());
}

#[test]
fn unsigned_reads_big_endian() {
    let bytes = vec![
        1, 0, 2, 0, 0, 0, 3, 0, 0, 0, 0, 0, 0, 0, 4, 0, 0, 0, 0, 0, 0, 0, 5, 1, 2, 3, 4, 1, 2, 3,
        4, 5, 6, 7, 8,
    ];
    let mut de = Deserializer::new(bytes, Endian::Big);
    assert_eq!(de.deserialize_u8().unwrap(), 1);
    assert_eq!(de.deserialize_u16().unwrap(), 2);
    assert_eq!(de.deserialize_u32().unwrap(), 3);
    assert_eq!(de.deserialize_u64().unwrap(), 4);
    assert_eq!(de.deserialize_usize().unwrap(), 5);
    assert_eq!(de.deserialize_f32().unwrap(), 0x01020304);
    assert_eq!(de.deserialize_f64().unwrap(), 0x0102030405060708);
}

#[test]
fn framing_reads() {
    let bytes = vec![0, 1, 0, 0, 0, 2, 0, 0, 0, 3];
    let mut de = Deserializer::new(bytes, Endian::Big);
    assert_eq!(de.deserialize_option().unwrap(), false);
    assert_eq!(de.deserialize_option().unwrap(), true);
    assert_eq!(de.deserialize_len().unwrap(), 2);
    assert_eq!(de.deserialize_variant().unwrap(), 3);
}

#[test]
fn text_bytes_and_raw_bytes_are_read_back() {
    let bytes = vec![0x41, 0, 0, 0, 2, 0, 0, 0, b'h', b'i', 2, 0, 0, 0, 9, 8, 7, 6, 5];
    let mut de = Deserializer::new(bytes, Endian::Little);
    assert_eq!(de.deserialize_char().unwrap(), 'A');
    assert_eq!(de.deserialize_string().unwrap(), "hi");
    assert_eq!(de.deserialize_byte_buf().unwrap(), vec![9, 8]);
    assert_eq!(de.read_bytes(0).unwrap(), Vec::<u8>::new());
    assert_eq!(de.read_bytes(3).unwrap(), vec![7, 6, 5]);
    assert_eq!(de.read_bytes(0).unwrap(), Vec::<u8>::new());
    assert!(de.read_bytes(1).is_err());
}

#[test]
fn a_failed_read_leaves_the_bytes_to_the_next() {
    let mut de = Deserializer::new(vec![1, 2], Endian::Big);
    assert!(de.deserialize_u32().is_err());
    assert_eq!(de.deserialize_u16().unwrap(), 0x0102);
}

struct Marked(u16);

impl Encode for Marked {
    fn encode(&self, ser: &mut Serializer) -> Result<(), Error> {
        ser.write_bytes(b"MK")?;
        ser.serialize_u16(self.0)
    }
}

impl Default for Marked {
    fn default() -> Self {
        Marked(7)
    }
}

impl Decode for Marked {
    fn decode(&mut self, de: &mut Deserializer) -> Result<(), Error> {
        if de.read_bytes(2)? != b"MK" {
            return Err(Error::Message("no marker".to_string()));
        }
        if de.deserialize_option()? {
            self.0 = de.deserialize_u16()?;
        }
        Ok(())
    }
}

#[test]
fn manual_encoding_is_big_endian() {
    assert_eq!(encode(&Marked(0x0102)).unwrap(), vec![b'M', b'K', 1, 2]);
}

#[test]
fn manual_decoding_starts_from_the_default_and_is_big_endian() {
    let kept: Marked = decode(vec![b'M', b'K', 0]).unwrap();
    assert_eq!(kept.0, 7);
    let read: Marked = decode(vec![b'M', b'K', 1, 1, 2]).unwrap();
    assert_eq!(read.0, 0x0102);
}

#[test]
fn long_byte_sequences_are_read_whole() {
    let mut data = Vec::new();
    for i in 0..3_000_000u32 {
        data.push((i % 251) as u8);
    }
    let val = serde_binary::Value::Bytes(data.clone());
    let bytes = serde_binary::to_vec(&val, Endian::Big).unwrap();
    assert_eq!(bytes.len(), 4 + data.len());
    assert_eq!(&bytes[..4], &[0x00, 0x2D, 0xC6, 0xC0]);
    let res = serde_binary::from_vec(bytes, Endian::Big, &serde_binary::Shape::Bytes).unwrap();
    assert_eq!(res, val);
    let mut de = Deserializer::new(data.clone(), Endian::Big);
    assert_eq!(de.read_bytes(data.len()).unwrap(), data);
    let mut short = Deserializer::new(data.clone(), Endian::Big);
    assert!(short.read_bytes(data.len() + 1).is_err());
}
