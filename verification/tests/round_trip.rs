use serde_binary::{decode, encode, from_vec, to_vec, Decode, Deserializer, Encode, Error, Serializer, Shape, Value, Variant};

/// `SimpleStruct { x, y }`, both fields `u32`.
fn simple_struct(x: u32, y: u32) -> Value {
    Value::Struct(vec![Value::U32(x), Value::U32(y)])
}

fn simple_struct_shape() -> Shape {
    Shape::Struct(vec![Shape::U32, Shape::U32])
}

/// `enum E { Unit, NewType(u32), Tuple(u32, u32), Struct { a: u32 } }`.
fn e_shape() -> Shape {
    Shape::Enum(vec![
        Variant::Unit,
        Variant::Newtype(Shape::U32),
        Variant::Tuple(vec![Shape::U32, Shape::U32]),
        Variant::Struct(vec![Shape::U32]),
    ])
}

#[test]
fn serde_unit() {
    let val = Value::Unit;
    let buffer = to_vec(&val, Default::default()).unwrap();
    let res = from_vec(buffer, Default::default(), &Shape::Unit).unwrap();
    assert_eq!(val, res);
}

#[test]
fn serde_option_none() {
    let val = Value::Optional(None);
    let buffer = to_vec(&val, Default::default()).unwrap();
    let res = from_vec(buffer, Default::default(), &Shape::Optional(Box::new(Shape::U8))).unwrap();
    assert_eq!(val, res);
}

#[test]
fn serde_option_some() {
    let val = Value::Optional(Some(Box::new(Value::U8(1u8))));
    let buffer = to_vec(&val, Default::default()).unwrap();
    let res = from_vec(buffer, Default::default(), &Shape::Optional(Box::new(Shape::U8))).unwrap();
    assert_eq!(val, res);
}

#[test]
fn serde_string() {
    let val = Value::Str(String::from("foo"));
    let buffer = to_vec(&val, Default::default()).unwrap();
    let res = from_vec(buffer, Default::default(), &Shape::Str).unwrap();
    assert_eq!(val, res);
}

#[test]
fn serde_char() {
    let val = Value::Char('x');
    let buffer = to_vec(&val, Default::default()).unwrap();
    let res = from_vec(buffer, Default::default(), &Shape::Char).unwrap();
    assert_eq!(val, res);
}

#[test]
fn serde_bool_true() {
    let val = Value::Bool(true);
    let buffer = to_vec(&val, Default::default()).unwrap();
    let res = from_vec(buffer, Default::default(), &Shape::Bool).unwrap();
    assert_eq!(val, res);
}

#[test]
fn serde_bool_false() {
    let val = Value::Bool(false);
    let buffer = to_vec(&val, Default::default()).unwrap();
    let res = from_vec(buffer, Default::default(), &Shape::Bool).unwrap();
    assert_eq!(val, res);
}

#[test]
fn serde_u8() {
    let val = Value::U8(8u8);
    let buffer = to_vec(&val, Default::default()).unwrap();
    let res = from_vec(buffer, Default::default(), &Shape::U8).unwrap();
    assert_eq!(val, res);
}

#[test]
fn serde_u16() {
    let val = Value::U16(16u16);
    let buffer = to_vec(&val, Default::default()).unwrap();
    let res = from_vec(buffer, Default::default(), &Shape::U16).unwrap();
    assert_eq!(val, res);
}

#[test]
fn serde_u32() {
    let val = Value::U32(32u32);
    let buffer = to_vec(&val, Default::default()).unwrap();
    let res = from_vec(buffer, Default::default(), &Shape::U32).unwrap();
    assert_eq!(val, res);
}

#[test]
fn serde_u64() {
    let val = Value::U64(64u64);
    let buffer = to_vec(&val, Default::default()).unwrap();
    let res = from_vec(buffer, Default::default(), &Shape::U64).unwrap();
    assert_eq!(val, res);
}

#[test]
fn serde_usize() {
    let val = Value::Usize(usize::MAX);
    let buffer = to_vec(&val, Default::default()).unwrap();
    let res = from_vec(buffer, Default::default(), &Shape::Usize).unwrap();
    assert_eq!(val, res);
}

#[test]
fn serde_i8() {
    let val = Value::I8(-8i8);
    let buffer = to_vec(&val, Default::default()).unwrap();
    let res = from_vec(buffer, Default::default(), &Shape::I8).unwrap();
    assert_eq!(val, res);
}

#[test]
fn serde_i16() {
    let val = Value::I16(-16i16);
    let buffer = to_vec(&val, Default::default()).unwrap();
    let res = from_vec(buffer, Default::default(), &Shape::I16).unwrap();
    assert_eq!(val, res);
}

#[test]
fn serde_i32() {
    let val = Value::I32(-32i32);
    let buffer = to_vec(&val, Default::default()).unwrap();
    let res = from_vec(buffer, Default::default(), &Shape::I32).unwrap();
    assert_eq!(val, res);
}

#[test]
fn serde_i64() {
    let val = Value::I64(-64i64);
    let buffer = to_vec(&val, Default::default()).unwrap();
    let res = from_vec(buffer, Default::default(), &Shape::I64).unwrap();
    assert_eq!(val, res);
}

#[test]
fn serde_isize() {
    let val = Value::Isize(isize::MIN);
    let buffer = to_vec(&val, Default::default()).unwrap();
    let res = from_vec(buffer, Default::default(), &Shape::Isize).unwrap();
    assert_eq!(val, res);
}

#[test]
fn serde_vec() {
    let val = Value::Sequence(vec![Value::U8(1u8), Value::U8(2u8), Value::U8(3u8)]);
    let buffer = to_vec(&val, Default::default()).unwrap();
    let res = from_vec(buffer, Default::default(), &Shape::Sequence(Box::new(Shape::U8))).unwrap();
    assert_eq!(val, res);
}

#[test]
fn serde_tuple() {
    let val = Value::Tuple(vec![Value::U8(1u8), Value::Str(String::from("foo"))]);
    let buffer = to_vec(&val, Default::default()).unwrap();
    let res = from_vec(buffer, Default::default(), &Shape::Tuple(vec![Shape::U8, Shape::Str])).unwrap();
    assert_eq!(val, res);
}

#[test]
fn serde_map() {
    let val = Value::Mapping(vec![
        (Value::Str("foo".to_string()), Value::U8(1u8)),
        (Value::Str("bar".to_string()), Value::U8(2u8)),
    ]);
    let buffer = to_vec(&val, Default::default()).unwrap();
    let res = from_vec(buffer, Default::default(), &Shape::Mapping(Box::new(Shape::Str), Box::new(Shape::U8))).unwrap();
    assert_eq!(val, res);
}

#[test]
fn serde_struct() {
    let val = simple_struct(1, 2);
    let buffer = to_vec(&val, Default::default()).unwrap();
    let res = from_vec(buffer, Default::default(), &simple_struct_shape()).unwrap();
    assert_eq!(val, res);
}

#[test]
fn serde_enum_unit() {
    let val = Value::UnitVariant(0);
    let buffer = to_vec(&val, Default::default()).unwrap();
    let res = from_vec(buffer, Default::default(), &e_shape()).unwrap();
    assert_eq!(val, res);
}

#[test]
fn serde_enum_newtype() {
    let val = Value::NewtypeVariant(1, Box::new(Value::U32(1)));
    let buffer = to_vec(&val, Default::default()).unwrap();
    let res = from_vec(buffer, Default::default(), &e_shape()).unwrap();
    assert_eq!(val, res);
}

#[test]
fn serde_enum_tuple() {
    let val = Value::TupleVariant(2, vec![Value::U32(1), Value::U32(2)]);
    let buffer = to_vec(&val, Default::default()).unwrap();
    let res = from_vec(buffer, Default::default(), &e_shape()).unwrap();
    assert_eq!(val, res);
}

#[test]
fn serde_enum_struct() {
    let val = Value::StructVariant(3, vec![Value::U32(1)]);
    let buffer = to_vec(&val, Default::default()).unwrap();
    let res = from_vec(buffer, Default::default(), &e_shape()).unwrap();
    assert_eq!(val, res);
}

#[derive(Debug, Eq, PartialEq)]
struct Todo {
    name: String,
    note: String,
}

#[derive(Debug, Eq, PartialEq)]
struct TodoList {
    magic: [u8; 4],
    todos: Vec<Todo>,
}

impl Default for TodoList {
    fn default() -> Self {
        Self {
            magic: [84, 79, 68, 79],
            todos: vec![],
        }
    }
}

fn todos_shape() -> Shape {
    Shape::Sequence(Box::new(Shape::Struct(vec![Shape::Str, Shape::Str])))
}

fn todos_value(todos: &[Todo]) -> Value {
    let mut items = Vec::new();
    for todo in todos {
        items.push(Value::Struct(vec![
            Value::Str(todo.name.clone()),
            Value::Str(todo.note.clone()),
        ]));
    }
    Value::Sequence(items)
}

fn todos_from(value: Value) -> Result<Vec<Todo>, Error> {
    let mut todos = Vec::new();
    if let Value::Sequence(items) = value {
        for item in items {
            match item {
                Value::Struct(fields) => match (fields.get(0), fields.get(1)) {
                    (Some(Value::Str(name)), Some(Value::Str(note))) => todos.push(Todo {
                        name: name.clone(),
                        note: note.clone(),
                    }),
                    _ => return Err(Error::Message("a todo has two texts".to_string())),
                },
                _ => return Err(Error::Message("a todo is a struct".to_string())),
            }
        }
    }
    Ok(todos)
}

impl Encode for TodoList {
    fn encode(&self, ser: &mut Serializer) -> Result<(), Error> {
        ser.write_bytes(&self.magic)?;
        ser.serialize_value(&todos_value(&self.todos))?;
        Ok(())
    }
}

impl Decode for TodoList {
    fn decode(&mut self, de: &mut Deserializer) -> Result<(), Error> {
        self.magic = de.read_bytes(4)?.as_slice().try_into().map_err(|_| {
            Error::Message("cannot convert magic bytes to slice".to_string())
        })?;
        self.todos = todos_from(de.deserialize_value(&todos_shape())?)?;
        Ok(())
    }
}

#[test]
fn serde_mixed() {
    let todos = vec![Todo {
        name: String::from("foo"),
        note: String::from("bar"),
    }];

    let list = TodoList {
        magic: [84, 79, 68, 79],
        todos,
    };

    let buffer = encode(&list).unwrap();
    let decoded: TodoList = decode(buffer).unwrap();
    assert_eq!(list, decoded);
}
