//! The format as mathematics: the bytes of each value, and the value at the
//! front of each input.
use vstd::prelude::*;
use vstd::utf8::encode_utf8;
use crate::endian::Endian;
use crate::error::ErrorKind;
use crate::layout::{
    blob_bytes, bool_bytes, char_bytes, int_bytes, len_bytes, max_len, none_bytes, parse_blob,
    parse_bool, parse_char, parse_i16, parse_i32, parse_i64, parse_i8, parse_isize,
    parse_presence, parse_str, parse_u16, parse_u32, parse_u64, parse_u8, parse_usize,
    some_bytes, str_bytes, uint_bytes, variant_bytes, Parsed,
};
use crate::value::{Model, ShapeModel, VariantModel};

verus! {

/// The bytes of a value: for each kind its own bytes, and for a composite
/// kind the bytes of its parts in their order, with nothing between them.
pub open spec fn encoding(value: Model, endian: Endian) -> Seq<u8>
    decreases value, 0nat,
{
    match value {
        Model::Unit => Seq::empty(),
        Model::Bool(v) => bool_bytes(v),
        Model::I8(v) => int_bytes(v as int, 1, endian),
        Model::I16(v) => int_bytes(v as int, 2, endian),
        Model::I32(v) => int_bytes(v as int, 4, endian),
        Model::I64(v) => int_bytes(v as int, 8, endian),
        Model::Isize(v) => int_bytes(v as int, 8, endian),
        Model::U8(v) => uint_bytes(v as nat, 1, endian),
        Model::U16(v) => uint_bytes(v as nat, 2, endian),
        Model::U32(v) => uint_bytes(v as nat, 4, endian),
        Model::U64(v) => uint_bytes(v as nat, 8, endian),
        Model::Usize(v) => uint_bytes(v as nat, 8, endian),
        Model::F32(bits) => uint_bytes(bits as nat, 4, endian),
        Model::F64(bits) => uint_bytes(bits as nat, 8, endian),
        Model::Char(v) => char_bytes(v, endian),
        Model::Str(text) => str_bytes(text, endian),
        Model::Bytes(bytes) => blob_bytes(bytes, endian),
        Model::Optional(None) => none_bytes(),
        Model::Optional(Some(inner)) => some_bytes() + encoding(*inner, endian),
        Model::Sequence(items) => len_bytes(items.len(), endian) + encoding_from(items, 0, endian),
        Model::Tuple(items) => encoding_from(items, 0, endian),
        Model::Mapping(entries) => len_bytes(entries.len(), endian) + entries_encoding_from(
            entries,
            0,
            endian,
        ),
        Model::UnitStruct => Seq::empty(),
        Model::NewtypeStruct(inner) => encoding(*inner, endian),
        Model::TupleStruct(items) => encoding_from(items, 0, endian),
        Model::Struct(items) => encoding_from(items, 0, endian),
        Model::UnitVariant(index) => variant_bytes(index, endian),
        Model::NewtypeVariant(index, inner) => variant_bytes(index, endian) + encoding(*inner, endian),
        Model::TupleVariant(index, items) => variant_bytes(index, endian) + encoding_from(
            items,
            0,
            endian,
        ),
        Model::StructVariant(index, items) => variant_bytes(index, endian) + encoding_from(
            items,
            0,
            endian,
        ),
    }
}

/// The bytes of the items from position `from` on, one after the other.
pub open spec fn encoding_from(items: Seq<Model>, from: nat, endian: Endian) -> Seq<u8>
    decreases items, items.len() - from,
{
    if from >= items.len() {
        Seq::empty()
    } else {
        encoding(items[from as int], endian) + encoding_from(items, from + 1, endian)
    }
}

/// The bytes of the entries from position `from` on: of each its key, then
/// its value.
pub open spec fn entries_encoding_from(
    entries: Seq<(Model, Model)>,
    from: nat,
    endian: Endian,
) -> Seq<u8>
    decreases entries, entries.len() - from,
{
    if from >= entries.len() {
        Seq::empty()
    } else {
        encoding(entries[from as int].0, endian) + encoding(entries[from as int].1, endian)
            + entries_encoding_from(entries, from + 1, endian)
    }
}

/// Every length in the value, at every depth, fits a length prefix: no
/// text or byte sequence has 2^32 bytes or more, and no sequence or map has
/// 2^32 items or more.
pub open spec fn fits(value: Model) -> bool
    decreases value,
{
    match value {
        Model::Str(text) => encode_utf8(text).len() <= max_len(),
        Model::Bytes(bytes) => bytes.len() <= max_len(),
        Model::Optional(Some(inner)) => fits(*inner),
        Model::Sequence(items) => items.len() <= max_len() && all_fit(items),
        Model::Tuple(items) => all_fit(items),
        Model::Mapping(entries) => entries.len() <= max_len() && all_entries_fit(entries),
        Model::NewtypeStruct(inner) => fits(*inner),
        Model::TupleStruct(items) => all_fit(items),
        Model::Struct(items) => all_fit(items),
        Model::NewtypeVariant(_, inner) => fits(*inner),
        Model::TupleVariant(_, items) => all_fit(items),
        Model::StructVariant(_, items) => all_fit(items),
        _ => true,
    }
}

/// Each of the items fits.
pub open spec fn all_fit(items: Seq<Model>) -> bool
    decreases items,
{
    forall|i: int| 0 <= i < items.len() ==> fits(#[trigger] items[i])
}

/// The key and the value of each of the entries fit.
pub open spec fn all_entries_fit(entries: Seq<(Model, Model)>) -> bool
    decreases entries,
{
    forall|i: int|
        0 <= i < entries.len() ==> fits(#[trigger] entries[i].0) && fits(entries[i].1)
}

/// The shape has no parts.
pub open spec fn is_plain(shape: ShapeModel) -> bool {
    !(shape is Optional || shape is Sequence || shape is Tuple || shape is Mapping
        || shape is NewtypeStruct || shape is TupleStruct || shape is Struct || shape is Enum)
}

/// The value is of the given shape.
pub open spec fn has_shape(value: Model, shape: ShapeModel) -> bool
    decreases value,
{
    match shape {
        ShapeModel::Unit => value is Unit,
        ShapeModel::Bool => value is Bool,
        ShapeModel::I8 => value is I8,
        ShapeModel::I16 => value is I16,
        ShapeModel::I32 => value is I32,
        ShapeModel::I64 => value is I64,
        ShapeModel::Isize => value is Isize,
        ShapeModel::U8 => value is U8,
        ShapeModel::U16 => value is U16,
        ShapeModel::U32 => value is U32,
        ShapeModel::U64 => value is U64,
        ShapeModel::Usize => value is Usize,
        ShapeModel::F32 => value is F32,
        ShapeModel::F64 => value is F64,
        ShapeModel::Char => value is Char,
        ShapeModel::Str => value is Str,
        ShapeModel::Bytes => value is Bytes,
        ShapeModel::Optional(inner) => match value {
            Model::Optional(None) => true,
            Model::Optional(Some(held)) => has_shape(*held, *inner),
            _ => false,
        },
        ShapeModel::Sequence(item) => match value {
            Model::Sequence(items) => forall|i: int|
                0 <= i < items.len() ==> has_shape(#[trigger] items[i], *item),
            _ => false,
        },
        ShapeModel::Tuple(shapes) => match value {
            Model::Tuple(items) => have_shapes(items, shapes),
            _ => false,
        },
        ShapeModel::Mapping(key, held) => match value {
            Model::Mapping(entries) => forall|i: int|
                0 <= i < entries.len() ==> has_shape(#[trigger] entries[i].0, *key) && has_shape(
                    entries[i].1,
                    *held,
                ),
            _ => false,
        },
        ShapeModel::UnitStruct => value is UnitStruct,
        ShapeModel::NewtypeStruct(inner) => match value {
            Model::NewtypeStruct(held) => has_shape(*held, *inner),
            _ => false,
        },
        ShapeModel::TupleStruct(shapes) => match value {
            Model::TupleStruct(items) => have_shapes(items, shapes),
            _ => false,
        },
        ShapeModel::Struct(shapes) => match value {
            Model::Struct(items) => have_shapes(items, shapes),
            _ => false,
        },
        ShapeModel::Enum(variants) => match value {
            Model::UnitVariant(index) => index < variants.len() && variants[index as int] is Unit,
            Model::NewtypeVariant(index, held) => index < variants.len() && match variants[index as int] {
                VariantModel::Newtype(inner) => has_shape(*held, inner),
                _ => false,
            },
            Model::TupleVariant(index, items) => index < variants.len() && match variants[index as int] {
                VariantModel::Tuple(shapes) => have_shapes(items, shapes),
                _ => false,
            },
            Model::StructVariant(index, items) => index < variants.len() && match variants[index as int] {
                VariantModel::Struct(shapes) => have_shapes(items, shapes),
                _ => false,
            },
            _ => false,
        },
    }
}

/// There is one item for each shape, and each item is of its shape.
pub open spec fn have_shapes(items: Seq<Model>, shapes: Seq<ShapeModel>) -> bool
    decreases items,
{
    &&& items.len() == shapes.len()
    &&& forall|i: int| 0 <= i < items.len() ==> has_shape(#[trigger] items[i], shapes[i])
}

/// The item of a parse, changed by `f`.
pub open spec fn map_parsed<A, B>(parsed: Parsed<A>, f: spec_fn(A) -> B) -> Parsed<B> {
    match parsed {
        Ok((item, count)) => Ok((f(item), count)),
        Err(kind) => Err(kind),
    }
}

/// A parse that began behind `skipped` bytes, counted from before them.
pub open spec fn after<A>(skipped: nat, parsed: Parsed<A>) -> Parsed<A> {
    match parsed {
        Ok((item, count)) => Ok((item, skipped + count)),
        Err(kind) => Err(kind),
    }
}

/// The value of the given shape at the front of `input`, with the number of
/// bytes that it takes; or the kind of failure: of the stream where the
/// input ends too early, of the format where a byte cannot stand where it
/// stands or an enum index names no variant.
pub open spec fn decoding(shape: ShapeModel, input: Seq<u8>, endian: Endian) -> Parsed<Model>
    decreases shape, 1nat, 0nat,
{
    match shape {
        ShapeModel::Unit => Ok((Model::Unit, 0)),
        ShapeModel::Bool => map_parsed(parse_bool(input), |v: bool| Model::Bool(v)),
        ShapeModel::I8 => map_parsed(parse_i8(input, endian), |v: i8| Model::I8(v)),
        ShapeModel::I16 => map_parsed(parse_i16(input, endian), |v: i16| Model::I16(v)),
        ShapeModel::I32 => map_parsed(parse_i32(input, endian), |v: i32| Model::I32(v)),
        ShapeModel::I64 => map_parsed(parse_i64(input, endian), |v: i64| Model::I64(v)),
        ShapeModel::Isize => map_parsed(parse_isize(input, endian), |v: isize| Model::Isize(v)),
        ShapeModel::U8 => map_parsed(parse_u8(input, endian), |v: u8| Model::U8(v)),
        ShapeModel::U16 => map_parsed(parse_u16(input, endian), |v: u16| Model::U16(v)),
        ShapeModel::U32 => map_parsed(parse_u32(input, endian), |v: u32| Model::U32(v)),
        ShapeModel::U64 => map_parsed(parse_u64(input, endian), |v: u64| Model::U64(v)),
        ShapeModel::Usize => map_parsed(parse_usize(input, endian), |v: usize| Model::Usize(v)),
        ShapeModel::F32 => map_parsed(parse_u32(input, endian), |bits: u32| Model::F32(bits)),
        ShapeModel::F64 => map_parsed(parse_u64(input, endian), |bits: u64| Model::F64(bits)),
        ShapeModel::Char => map_parsed(parse_char(input, endian), |v: char| Model::Char(v)),
        ShapeModel::Str => map_parsed(parse_str(input, endian), |text: Seq<char>| Model::Str(text)),
        ShapeModel::Bytes => map_parsed(parse_blob(input, endian), |bytes: Seq<u8>| Model::Bytes(bytes)),
        ShapeModel::Optional(inner) => match parse_presence(input) {
            Ok((present, count)) => if present {
                after(
                    count,
                    map_parsed(
                        decoding(*inner, input.skip(count as int), endian),
                        |held: Model| Model::Optional(Some(Box::new(held))),
                    ),
                )
            } else {
                Ok((Model::Optional(None), count))
            },
            Err(kind) => Err(kind),
        },
        ShapeModel::Sequence(item) => match parse_u32(input, endian) {
            Ok((len, count)) => after(
                count,
                map_parsed(
                    decoding_repeated(*item, input.skip(count as int), endian, len as nat),
                    |items: Seq<Model>| Model::Sequence(items),
                ),
            ),
            Err(kind) => Err(kind),
        },
        ShapeModel::Tuple(shapes) => map_parsed(
            decoding_fields(shapes, 0, input, endian),
            |items: Seq<Model>| Model::Tuple(items),
        ),
        ShapeModel::Mapping(_, _) => match parse_u32(input, endian) {
            Ok((len, count)) => after(
                count,
                map_parsed(
                    decoding_entries(shape, input.skip(count as int), endian, len as nat),
                    |entries: Seq<(Model, Model)>| Model::Mapping(entries),
                ),
            ),
            Err(kind) => Err(kind),
        },
        ShapeModel::UnitStruct => Ok((Model::UnitStruct, 0)),
        ShapeModel::NewtypeStruct(inner) => map_parsed(
            decoding(*inner, input, endian),
            |held: Model| Model::NewtypeStruct(Box::new(held)),
        ),
        ShapeModel::TupleStruct(shapes) => map_parsed(
            decoding_fields(shapes, 0, input, endian),
            |items: Seq<Model>| Model::TupleStruct(items),
        ),
        ShapeModel::Struct(shapes) => map_parsed(
            decoding_fields(shapes, 0, input, endian),
            |items: Seq<Model>| Model::Struct(items),
        ),
        ShapeModel::Enum(variants) => match parse_u32(input, endian) {
            Ok((index, count)) => if index >= variants.len() {
                Err(ErrorKind::Message)
            } else {
                match variants[index as int] {
                    VariantModel::Unit => Ok((Model::UnitVariant(index), count)),
                    VariantModel::Newtype(inner) => after(
                        count,
                        map_parsed(
                            decoding(inner, input.skip(count as int), endian),
                            |held: Model| Model::NewtypeVariant(index, Box::new(held)),
                        ),
                    ),
                    VariantModel::Tuple(shapes) => after(
                        count,
                        map_parsed(
                            decoding_fields(shapes, 0, input.skip(count as int), endian),
                            |items: Seq<Model>| Model::TupleVariant(index, items),
                        ),
                    ),
                    VariantModel::Struct(shapes) => after(
                        count,
                        map_parsed(
                            decoding_fields(shapes, 0, input.skip(count as int), endian),
                            |items: Seq<Model>| Model::StructVariant(index, items),
                        ),
                    ),
                }
            },
            Err(kind) => Err(kind),
        },
    }
}

/// `count` values of one shape at the front of `input`, one after the other.
pub open spec fn decoding_repeated(
    shape: ShapeModel,
    input: Seq<u8>,
    endian: Endian,
    count: nat,
) -> Parsed<
    Seq<Model>,
>
    decreases shape, 2nat, count,
{
    if count == 0 {
        Ok((Seq::empty(), 0))
    } else {
        match decoding(shape, input, endian) {
            Ok((first, taken)) => after(
                taken,
                map_parsed(
                    decoding_repeated(shape, input.skip(taken as int), endian, (count - 1) as nat),
                    |rest: Seq<Model>| seq![first] + rest,
                ),
            ),
            Err(kind) => Err(kind),
        }
    }
}

/// One value for each of the shapes from position `from` on, at the front
/// of `input`, one after the other.
pub open spec fn decoding_fields(
    shapes: Seq<ShapeModel>,
    from: nat,
    input: Seq<u8>,
    endian: Endian,
) -> Parsed<
    Seq<Model>,
>
    decreases shapes, 0nat, shapes.len() - from,
{
    if from >= shapes.len() {
        Ok((Seq::empty(), 0))
    } else {
        match decoding(shapes[from as int], input, endian) {
            Ok((first, taken)) => after(
                taken,
                map_parsed(
                    decoding_fields(shapes, from + 1, input.skip(taken as int), endian),
                    |rest: Seq<Model>| seq![first] + rest,
                ),
            ),
            Err(kind) => Err(kind),
        }
    }
}

/// `count` entries of the map shape `shape` at the front of `input`: of each
/// its key, then its value.
pub open spec fn decoding_entries(
    shape: ShapeModel,
    input: Seq<u8>,
    endian: Endian,
    count: nat,
) -> Parsed<
    Seq<(Model, Model)>,
>
    decreases shape, 0nat, count,
{
    match shape {
        ShapeModel::Mapping(key_shape, held_shape) => if count == 0 {
            Ok((Seq::empty(), 0))
        } else {
            match decoding(*key_shape, input, endian) {
                Ok((key, key_taken)) => match decoding(*held_shape, input.skip(key_taken as int), endian) {
                    Ok((held, held_taken)) => after(
                        key_taken + held_taken,
                        map_parsed(
                            decoding_entries(
                                shape,
                                input.skip((key_taken + held_taken) as int),
                                endian,
                                (count - 1) as nat,
                            ),
                            |rest: Seq<(Model, Model)>| seq![(key, held)] + rest,
                        ),
                    ),
                    Err(kind) => Err(kind),
                },
                Err(kind) => Err(kind),
            }
        },
        _ => Ok((Seq::empty(), 0)),
    }
}

} // verus!
