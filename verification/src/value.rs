//! The value model: the kinds of value that the format can carry, and the
//! shapes that tell a reader which kind to expect.
use vstd::prelude::*;

verus! {

/// A value that the format can carry. A floating-point number is held by its
/// bit pattern. Names of fields and variants are no part of a value: the
/// format does not carry them.
#[derive(Debug, PartialEq, Eq)]
pub enum Value {
    /// The value without content.
    Unit,
    /// A truth value.
    Bool(bool),
    /// A signed number of one byte.
    I8(i8),
    /// A signed number of two bytes.
    I16(i16),
    /// A signed number of four bytes.
    I32(i32),
    /// A signed number of eight bytes.
    I64(i64),
    /// A signed number of the machine's width.
    Isize(isize),
    /// An unsigned number of one byte.
    U8(u8),
    /// An unsigned number of two bytes.
    U16(u16),
    /// An unsigned number of four bytes.
    U32(u32),
    /// An unsigned number of eight bytes.
    U64(u64),
    /// An unsigned number of the machine's width.
    Usize(usize),
    /// The bit pattern of a floating-point number of four bytes.
    F32(u32),
    /// The bit pattern of a floating-point number of eight bytes.
    F64(u64),
    /// A Unicode scalar value.
    Char(char),
    /// A text.
    Str(String),
    /// A byte sequence.
    Bytes(Vec<u8>),
    /// A value that may be absent.
    Optional(Option<Box<Value>>),
    /// A list whose length only the value knows.
    Sequence(Vec<Value>),
    /// A list whose length both sides know.
    Tuple(Vec<Value>),
    /// A list of entries, each a key and a value.
    Mapping(Vec<(Value, Value)>),
    /// A struct without fields.
    UnitStruct,
    /// A struct that wraps one value.
    NewtypeStruct(Box<Value>),
    /// A struct with unnamed fields.
    TupleStruct(Vec<Value>),
    /// A struct with named fields, in their declared order.
    Struct(Vec<Value>),
    /// An enum variant without a payload, by its index.
    UnitVariant(u32),
    /// An enum variant that wraps one value, by its index.
    NewtypeVariant(u32, Box<Value>),
    /// An enum variant with unnamed fields, by its index.
    TupleVariant(u32, Vec<Value>),
    /// An enum variant with named fields in their declared order, by its index.
    StructVariant(u32, Vec<Value>),
}

/// A value as mathematics: what `Value` is a representation of. Each
/// variant stands for the variant of `Value` of the same name, with a
/// sequence where that one holds a vector or a text.
pub enum Model {
    Unit,
    Bool(bool),
    I8(i8),
    I16(i16),
    I32(i32),
    I64(i64),
    Isize(isize),
    U8(u8),
    U16(u16),
    U32(u32),
    U64(u64),
    Usize(usize),
    F32(u32),
    F64(u64),
    Char(char),
    Str(Seq<char>),
    Bytes(Seq<u8>),
    Optional(Option<Box<Model>>),
    Sequence(Seq<Model>),
    Tuple(Seq<Model>),
    Mapping(Seq<(Model, Model)>),
    UnitStruct,
    NewtypeStruct(Box<Model>),
    TupleStruct(Seq<Model>),
    Struct(Seq<Model>),
    UnitVariant(u32),
    NewtypeVariant(u32, Box<Model>),
    TupleVariant(u32, Seq<Model>),
    StructVariant(u32, Seq<Model>),
}

/// The models of a list of values, item by item.
pub open spec fn models(items: Seq<Value>) -> Seq<Model>
    decreases items,
{
    Seq::new(items.len(), |i: int| if 0 <= i < items.len() { model_of(items[i]) } else { Model::Unit })
}

/// The models of a list of entries, entry by entry.
pub open spec fn entry_models(entries: Seq<(Value, Value)>) -> Seq<(Model, Model)>
    decreases entries,
{
    Seq::new(
        entries.len(),
        |i: int|
            if 0 <= i < entries.len() {
                (model_of(entries[i].0), model_of(entries[i].1))
            } else {
                (Model::Unit, Model::Unit)
            },
    )
}

/// The model of a value.
pub open spec fn model_of(value: Value) -> Model
    decreases value,
{
    match value {
        Value::Unit => Model::Unit,
        Value::Bool(v) => Model::Bool(v),
        Value::I8(v) => Model::I8(v),
        Value::I16(v) => Model::I16(v),
        Value::I32(v) => Model::I32(v),
        Value::I64(v) => Model::I64(v),
        Value::Isize(v) => Model::Isize(v),
        Value::U8(v) => Model::U8(v),
        Value::U16(v) => Model::U16(v),
        Value::U32(v) => Model::U32(v),
        Value::U64(v) => Model::U64(v),
        Value::Usize(v) => Model::Usize(v),
        Value::F32(bits) => Model::F32(bits),
        Value::F64(bits) => Model::F64(bits),
        Value::Char(v) => Model::Char(v),
        Value::Str(text) => Model::Str(text@),
        Value::Bytes(bytes) => Model::Bytes(bytes@),
        Value::Optional(None) => Model::Optional(None),
        Value::Optional(Some(inner)) => Model::Optional(Some(Box::new(model_of(*inner)))),
        Value::Sequence(items) => Model::Sequence(models(items@)),
        Value::Tuple(items) => Model::Tuple(models(items@)),
        Value::Mapping(entries) => Model::Mapping(entry_models(entries@)),
        Value::UnitStruct => Model::UnitStruct,
        Value::NewtypeStruct(inner) => Model::NewtypeStruct(Box::new(model_of(*inner))),
        Value::TupleStruct(items) => Model::TupleStruct(models(items@)),
        Value::Struct(items) => Model::Struct(models(items@)),
        Value::UnitVariant(index) => Model::UnitVariant(index),
        Value::NewtypeVariant(index, inner) => Model::NewtypeVariant(index, Box::new(model_of(*inner))),
        Value::TupleVariant(index, items) => Model::TupleVariant(index, models(items@)),
        Value::StructVariant(index, items) => Model::StructVariant(index, models(items@)),
    }
}

impl View for Value {
    type V = Model;

    open spec fn view(&self) -> Model {
        model_of(*self)
    }
}

/// What a reader expects of the bytes: the kind of a value, and for a
/// composite kind the shapes of its parts.
#[derive(Debug, PartialEq, Eq)]
pub enum Shape {
    Unit,
    Bool,
    I8,
    I16,
    I32,
    I64,
    Isize,
    U8,
    U16,
    U32,
    U64,
    Usize,
    F32,
    F64,
    Char,
    Str,
    Bytes,
    /// A value of the given shape, or none.
    Optional(Box<Shape>),
    /// Any number of values of the given shape.
    Sequence(Box<Shape>),
    /// One value of each of the given shapes, in this order.
    Tuple(Vec<Shape>),
    /// Any number of entries, with keys of the first shape and values of the second.
    Mapping(Box<Shape>, Box<Shape>),
    UnitStruct,
    /// A struct that wraps a value of the given shape.
    NewtypeStruct(Box<Shape>),
    /// A struct with one unnamed field of each of the given shapes.
    TupleStruct(Vec<Shape>),
    /// A struct with one named field of each of the given shapes, in their declared order.
    Struct(Vec<Shape>),
    /// An enum with the given variants, in their declared order.
    Enum(Vec<Variant>),
}

/// What an enum variant carries beside its index.
#[derive(Debug, PartialEq, Eq)]
pub enum Variant {
    /// Nothing.
    Unit,
    /// One value of the given shape.
    Newtype(Shape),
    /// One unnamed field of each of the given shapes.
    Tuple(Vec<Shape>),
    /// One named field of each of the given shapes, in their declared order.
    Struct(Vec<Shape>),
}

/// A shape as mathematics: what `Shape` is a representation of. Each
/// variant stands for the variant of `Shape` of the same name, with a
/// sequence where that one holds a vector.
pub enum ShapeModel {
    Unit,
    Bool,
    I8,
    I16,
    I32,
    I64,
    Isize,
    U8,
    U16,
    U32,
    U64,
    Usize,
    F32,
    F64,
    Char,
    Str,
    Bytes,
    Optional(Box<ShapeModel>),
    Sequence(Box<ShapeModel>),
    Tuple(Seq<ShapeModel>),
    Mapping(Box<ShapeModel>, Box<ShapeModel>),
    UnitStruct,
    NewtypeStruct(Box<ShapeModel>),
    TupleStruct(Seq<ShapeModel>),
    Struct(Seq<ShapeModel>),
    Enum(Seq<VariantModel>),
}

/// An enum variant as mathematics: what `Variant` is a representation of.
pub enum VariantModel {
    Unit,
    Newtype(ShapeModel),
    Tuple(Seq<ShapeModel>),
    Struct(Seq<ShapeModel>),
}

/// The models of a list of shapes, item by item.
pub open spec fn shape_models(shapes: Seq<Shape>) -> Seq<ShapeModel>
    decreases shapes,
{
    Seq::new(
        shapes.len(),
        |i: int| if 0 <= i < shapes.len() { shape_model_of(shapes[i]) } else { ShapeModel::Unit },
    )
}

/// The models of a list of variants, item by item.
pub open spec fn variant_models(variants: Seq<Variant>) -> Seq<VariantModel>
    decreases variants,
{
    Seq::new(
        variants.len(),
        |i: int|
            if 0 <= i < variants.len() {
                variant_model_of(variants[i])
            } else {
                VariantModel::Unit
            },
    )
}

/// The model of a shape.
pub open spec fn shape_model_of(shape: Shape) -> ShapeModel
    decreases shape,
{
    match shape {
        Shape::Unit => ShapeModel::Unit,
        Shape::Bool => ShapeModel::Bool,
        Shape::I8 => ShapeModel::I8,
        Shape::I16 => ShapeModel::I16,
        Shape::I32 => ShapeModel::I32,
        Shape::I64 => ShapeModel::I64,
        Shape::Isize => ShapeModel::Isize,
        Shape::U8 => ShapeModel::U8,
        Shape::U16 => ShapeModel::U16,
        Shape::U32 => ShapeModel::U32,
        Shape::U64 => ShapeModel::U64,
        Shape::Usize => ShapeModel::Usize,
        Shape::F32 => ShapeModel::F32,
        Shape::F64 => ShapeModel::F64,
        Shape::Char => ShapeModel::Char,
        Shape::Str => ShapeModel::Str,
        Shape::Bytes => ShapeModel::Bytes,
        Shape::Optional(inner) => ShapeModel::Optional(Box::new(shape_model_of(*inner))),
        Shape::Sequence(item) => ShapeModel::Sequence(Box::new(shape_model_of(*item))),
        Shape::Tuple(shapes) => ShapeModel::Tuple(shape_models(shapes@)),
        Shape::Mapping(key, held) => ShapeModel::Mapping(
            Box::new(shape_model_of(*key)),
            Box::new(shape_model_of(*held)),
        ),
        Shape::UnitStruct => ShapeModel::UnitStruct,
        Shape::NewtypeStruct(inner) => ShapeModel::NewtypeStruct(Box::new(shape_model_of(*inner))),
        Shape::TupleStruct(shapes) => ShapeModel::TupleStruct(shape_models(shapes@)),
        Shape::Struct(shapes) => ShapeModel::Struct(shape_models(shapes@)),
        Shape::Enum(variants) => ShapeModel::Enum(variant_models(variants@)),
    }
}

/// The model of an enum variant.
pub open spec fn variant_model_of(variant: Variant) -> VariantModel
    decreases variant,
{
    match variant {
        Variant::Unit => VariantModel::Unit,
        Variant::Newtype(inner) => VariantModel::Newtype(shape_model_of(inner)),
        Variant::Tuple(shapes) => VariantModel::Tuple(shape_models(shapes@)),
        Variant::Struct(shapes) => VariantModel::Struct(shape_models(shapes@)),
    }
}

impl View for Shape {
    type V = ShapeModel;

    open spec fn view(&self) -> ShapeModel {
        shape_model_of(*self)
    }
}

impl View for Variant {
    type V = VariantModel;

    open spec fn view(&self) -> VariantModel {
        variant_model_of(*self)
    }
}

/// A copy of each of the values, in their order.
fn clone_values(items: &Vec<Value>) -> (copy: Vec<Value>)
    ensures
        models(copy@) == models(items@),
    decreases items,
{
    let mut copy: Vec<Value> = Vec::new();
    let mut i: usize = 0;
    while i < items.len()
        invariant
            i <= items.len(),
            copy@.len() == i,
            forall|j: int| 0 <= j < i ==> model_of(#[trigger] copy@[j]) == model_of(items@[j]),
        decreases items.len() - i,
    {
        copy.push(items[i].clone());
        i = i + 1;
    }
    assert(models(copy@) =~= models(items@));
    copy
}

/// A copy of each of the entries, in their order.
fn clone_entries(entries: &Vec<(Value, Value)>) -> (copy: Vec<(Value, Value)>)
    ensures
        entry_models(copy@) == entry_models(entries@),
    decreases entries,
{
    let mut copy: Vec<(Value, Value)> = Vec::new();
    let mut i: usize = 0;
    while i < entries.len()
        invariant
            i <= entries.len(),
            copy@.len() == i,
            forall|j: int|
                0 <= j < i ==> model_of(#[trigger] copy@[j].0) == model_of(entries@[j].0)
                    && model_of(copy@[j].1) == model_of(entries@[j].1),
        decreases entries.len() - i,
    {
        let entry = &entries[i];
        copy.push((entry.0.clone(), entry.1.clone()));
        i = i + 1;
    }
    assert(entry_models(copy@) =~= entry_models(entries@));
    copy
}

impl Clone for Value {
    /// A copy with the same model.
    fn clone(&self) -> (copy: Value)
        ensures
            copy@ == self@,
        decreases self,
    {
        match self {
            Value::Unit => Value::Unit,
            Value::Bool(v) => Value::Bool(*v),
            Value::I8(v) => Value::I8(*v),
            Value::I16(v) => Value::I16(*v),
            Value::I32(v) => Value::I32(*v),
            Value::I64(v) => Value::I64(*v),
            Value::Isize(v) => Value::Isize(*v),
            Value::U8(v) => Value::U8(*v),
            Value::U16(v) => Value::U16(*v),
            Value::U32(v) => Value::U32(*v),
            Value::U64(v) => Value::U64(*v),
            Value::Usize(v) => Value::Usize(*v),
            Value::F32(v) => Value::F32(*v),
            Value::F64(v) => Value::F64(*v),
            Value::Char(v) => Value::Char(*v),
            Value::Str(text) => Value::Str(text.clone()),
            Value::Bytes(bytes) => Value::Bytes(bytes.clone()),
            Value::Optional(None) => Value::Optional(None),
            Value::Optional(Some(inner)) => Value::Optional(Some(Box::new((**inner).clone()))),
            Value::Sequence(items) => Value::Sequence(clone_values(items)),
            Value::Tuple(items) => Value::Tuple(clone_values(items)),
            Value::Mapping(entries) => Value::Mapping(clone_entries(entries)),
            Value::UnitStruct => Value::UnitStruct,
            Value::NewtypeStruct(inner) => Value::NewtypeStruct(Box::new((**inner).clone())),
            Value::TupleStruct(items) => Value::TupleStruct(clone_values(items)),
            Value::Struct(items) => Value::Struct(clone_values(items)),
            Value::UnitVariant(index) => Value::UnitVariant(*index),
            Value::NewtypeVariant(index, inner) => Value::NewtypeVariant(
                *index,
                Box::new((**inner).clone()),
            ),
            Value::TupleVariant(index, items) => Value::TupleVariant(*index, clone_values(items)),
            Value::StructVariant(index, items) => Value::StructVariant(*index, clone_values(items)),
        }
    }
}

/// A copy of each of the shapes, in their order.
fn clone_shapes(shapes: &Vec<Shape>) -> (copy: Vec<Shape>)
    ensures
        shape_models(copy@) == shape_models(shapes@),
    decreases shapes,
{
    let mut copy: Vec<Shape> = Vec::new();
    let mut i: usize = 0;
    while i < shapes.len()
        invariant
            i <= shapes.len(),
            copy@.len() == i,
            forall|j: int|
                0 <= j < i ==> shape_model_of(#[trigger] copy@[j]) == shape_model_of(shapes@[j]),
        decreases shapes.len() - i,
    {
        copy.push(shapes[i].clone());
        i = i + 1;
    }
    assert(shape_models(copy@) =~= shape_models(shapes@));
    copy
}

/// A copy of each of the variants, in their order.
fn clone_variants(variants: &Vec<Variant>) -> (copy: Vec<Variant>)
    ensures
        variant_models(copy@) == variant_models(variants@),
    decreases variants,
{
    let mut copy: Vec<Variant> = Vec::new();
    let mut i: usize = 0;
    while i < variants.len()
        invariant
            i <= variants.len(),
            copy@.len() == i,
            forall|j: int|
                0 <= j < i ==> variant_model_of(#[trigger] copy@[j]) == variant_model_of(
                    variants@[j],
                ),
        decreases variants.len() - i,
    {
        copy.push(variants[i].clone());
        i = i + 1;
    }
    assert(variant_models(copy@) =~= variant_models(variants@));
    copy
}

impl Clone for Shape {
    /// A copy with the same model.
    fn clone(&self) -> (copy: Shape)
        ensures
            copy@ == self@,
        decreases self,
    {
        match self {
            Shape::Unit => Shape::Unit,
            Shape::Bool => Shape::Bool,
            Shape::I8 => Shape::I8,
            Shape::I16 => Shape::I16,
            Shape::I32 => Shape::I32,
            Shape::I64 => Shape::I64,
            Shape::Isize => Shape::Isize,
            Shape::U8 => Shape::U8,
            Shape::U16 => Shape::U16,
            Shape::U32 => Shape::U32,
            Shape::U64 => Shape::U64,
            Shape::Usize => Shape::Usize,
            Shape::F32 => Shape::F32,
            Shape::F64 => Shape::F64,
            Shape::Char => Shape::Char,
            Shape::Str => Shape::Str,
            Shape::Bytes => Shape::Bytes,
            Shape::Optional(inner) => Shape::Optional(Box::new((**inner).clone())),
            Shape::Sequence(item) => Shape::Sequence(Box::new((**item).clone())),
            Shape::Tuple(shapes) => Shape::Tuple(clone_shapes(shapes)),
            Shape::Mapping(key, held) => Shape::Mapping(
                Box::new((**key).clone()),
                Box::new((**held).clone()),
            ),
            Shape::UnitStruct => Shape::UnitStruct,
            Shape::NewtypeStruct(inner) => Shape::NewtypeStruct(Box::new((**inner).clone())),
            Shape::TupleStruct(shapes) => Shape::TupleStruct(clone_shapes(shapes)),
            Shape::Struct(shapes) => Shape::Struct(clone_shapes(shapes)),
            Shape::Enum(variants) => Shape::Enum(clone_variants(variants)),
        }
    }
}

impl Clone for Variant {
    /// A copy with the same model.
    fn clone(&self) -> (copy: Variant)
        ensures
            copy@ == self@,
        decreases self,
    {
        match self {
            Variant::Unit => Variant::Unit,
            Variant::Newtype(inner) => Variant::Newtype(inner.clone()),
            Variant::Tuple(shapes) => Variant::Tuple(clone_shapes(shapes)),
            Variant::Struct(shapes) => Variant::Struct(clone_shapes(shapes)),
        }
    }
}

} // verus!
