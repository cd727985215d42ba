//! What holds of the format as a whole.
use vstd::prelude::*;
use vstd::utf8::{encode_utf8, valid_utf8};
use crate::endian::Endian;
use crate::error::ErrorKind;
use crate::format::{
    all_entries_fit, all_fit, decoding, decoding_entries, decoding_fields, decoding_repeated,
    encoding, encoding_from, entries_encoding_from, fits, has_shape, have_shapes, is_plain,
};
use crate::layout::{
    lemma_front, lemma_parse_blob, lemma_parse_bool, lemma_parse_char, lemma_parse_i16,
    lemma_parse_i32, lemma_parse_i64, lemma_parse_i8, lemma_parse_isize, lemma_parse_str,
    lemma_parse_u16, lemma_parse_u32, lemma_parse_u64, lemma_parse_u8, lemma_parse_usize,
    len_bytes, none_bytes, parse_blob, parse_u32, some_bytes, variant_bytes, Parsed,
};
use crate::value::{Model, ShapeModel, VariantModel};

verus! {

/// Decoding gives back what was encoded: for every value whose lengths fit
/// their prefixes, in either byte order and whatever bytes follow, the
/// value of its shape at the front of its bytes is the value itself, and it
/// takes exactly its bytes.
pub proof fn lemma_round_trip(value: Model, shape: ShapeModel, endian: Endian, rest: Seq<u8>)
    requires
        has_shape(value, shape),
        fits(value),
    ensures
        decoding(shape, encoding(value, endian) + rest, endian) == Ok::<_, ErrorKind>(
            (value, encoding(value, endian).len()),
        ),
    decreases value, 0nat,
{
    match shape {
        ShapeModel::Optional(inner) => {
            if let Model::Optional(Some(held)) = value {
                lemma_round_trip(*held, *inner, endian, rest);
            }
            lemma_optional(value, shape, endian, rest);
        },
        ShapeModel::Sequence(item) => {
            lemma_repeated(value->Sequence_0, 0, *item, endian, rest);
            lemma_sequence(value, shape, endian, rest);
        },
        ShapeModel::Tuple(shapes) => {
            lemma_fields(value->Tuple_0, shapes, 0, endian, rest);
            lemma_listed(value, shape, endian, rest);
        },
        ShapeModel::Mapping(_, _) => {
            lemma_entries(value->Mapping_0, 0, shape, endian, rest);
            lemma_mapping(value, shape, endian, rest);
        },
        ShapeModel::NewtypeStruct(inner) => {
            lemma_round_trip(*value->NewtypeStruct_0, *inner, endian, rest);
        },
        ShapeModel::TupleStruct(shapes) => {
            lemma_fields(value->TupleStruct_0, shapes, 0, endian, rest);
            lemma_listed(value, shape, endian, rest);
        },
        ShapeModel::Struct(shapes) => {
            lemma_fields(value->Struct_0, shapes, 0, endian, rest);
            lemma_listed(value, shape, endian, rest);
        },
        ShapeModel::Enum(variants) => {
            match value {
                Model::NewtypeVariant(index, held) => {
                    lemma_round_trip(*held, variants[index as int]->Newtype_0, endian, rest);
                },
                Model::TupleVariant(index, items) => {
                    lemma_fields(items, variants[index as int]->Tuple_0, 0, endian, rest);
                },
                Model::StructVariant(index, items) => {
                    lemma_fields(items, variants[index as int]->Struct_0, 0, endian, rest);
                },
                _ => {},
            }
            lemma_variant(value, shape, endian, rest);
        },
        _ => {
            lemma_plain(value, shape, endian, rest);
        },
    }
}

/// The round trip of a value without parts.
proof fn lemma_plain(value: Model, shape: ShapeModel, endian: Endian, rest: Seq<u8>)
    requires
        has_shape(value, shape),
        fits(value),
        is_plain(shape),
    ensures
        decoding(shape, encoding(value, endian) + rest, endian) == Ok::<_, ErrorKind>(
            (value, encoding(value, endian).len()),
        ),
{
    let bytes = encoding(value, endian);
    match shape {
        ShapeModel::Unit => {
            assert(bytes + rest =~= rest);
        },
        ShapeModel::Bool => {
            lemma_parse_bool(value->Bool_0, rest);
        },
        ShapeModel::I8 => {
            lemma_parse_i8(value->I8_0, endian, rest);
        },
        ShapeModel::I16 => {
            lemma_parse_i16(value->I16_0, endian, rest);
        },
        ShapeModel::I32 => {
            lemma_parse_i32(value->I32_0, endian, rest);
        },
        ShapeModel::I64 => {
            lemma_parse_i64(value->I64_0, endian, rest);
        },
        ShapeModel::Isize => {
            lemma_parse_isize(value->Isize_0, endian, rest);
        },
        ShapeModel::U8 => {
            lemma_parse_u8(value->U8_0, endian, rest);
        },
        ShapeModel::U16 => {
            lemma_parse_u16(value->U16_0, endian, rest);
        },
        ShapeModel::U32 => {
            lemma_parse_u32(value->U32_0, endian, rest);
        },
        ShapeModel::U64 => {
            lemma_parse_u64(value->U64_0, endian, rest);
        },
        ShapeModel::Usize => {
            lemma_parse_usize(value->Usize_0, endian, rest);
        },
        ShapeModel::F32 => {
            lemma_parse_u32(value->F32_0, endian, rest);
        },
        ShapeModel::F64 => {
            lemma_parse_u64(value->F64_0, endian, rest);
        },
        ShapeModel::Char => {
            lemma_parse_char(value->Char_0, endian, rest);
        },
        ShapeModel::Str => {
            lemma_parse_str(value->Str_0, endian, rest);
        },
        ShapeModel::Bytes => {
            lemma_parse_blob(value->Bytes_0, endian, rest);
        },
        _ => {
            assert(bytes + rest =~= rest);
        },
    }
}

/// The round trip of an option, given that of the value it holds.
proof fn lemma_optional(value: Model, shape: ShapeModel, endian: Endian, rest: Seq<u8>)
    requires
        shape is Optional,
        has_shape(value, shape),
        value matches Model::Optional(Some(held)) ==> decoding(
            *shape->Optional_0,
            encoding(*held, endian) + rest,
            endian,
        ) == Ok::<_, ErrorKind>((*held, encoding(*held, endian).len())),
    ensures
        decoding(shape, encoding(value, endian) + rest, endian) == Ok::<_, ErrorKind>(
            (value, encoding(value, endian).len()),
        ),
{
    match value {
        Model::Optional(Some(held)) => {
            let nested = encoding(*held, endian);
            lemma_front(some_bytes(), nested + rest);
            assert(encoding(value, endian) + rest =~= some_bytes() + (nested + rest));
        },
        _ => {
            lemma_front(none_bytes(), rest);
        },
    }
}

/// The round trip of a sequence, given that of its items.
proof fn lemma_sequence(value: Model, shape: ShapeModel, endian: Endian, rest: Seq<u8>)
    requires
        shape is Sequence,
        has_shape(value, shape),
        fits(value),
        decoding_repeated(
            *shape->Sequence_0,
            encoding_from(value->Sequence_0, 0, endian) + rest,
            endian,
            value->Sequence_0.len(),
        ) == Ok::<_, ErrorKind>(
            (value->Sequence_0.skip(0), encoding_from(value->Sequence_0, 0, endian).len()),
        ),
    ensures
        decoding(shape, encoding(value, endian) + rest, endian) == Ok::<_, ErrorKind>(
            (value, encoding(value, endian).len()),
        ),
{
    let items = value->Sequence_0;
    let body = encoding_from(items, 0, endian);
    lemma_parse_u32(items.len() as u32, endian, body + rest);
    lemma_front(len_bytes(items.len(), endian), body + rest);
    assert(encoding(value, endian) + rest =~= len_bytes(items.len(), endian) + (body + rest));
    assert(items.skip(0) =~= items);
}

/// The items of a tuple or of a struct with fields.
spec fn listed(value: Model) -> Seq<Model> {
    match value {
        Model::Tuple(items) => items,
        Model::TupleStruct(items) => items,
        Model::Struct(items) => items,
        _ => Seq::empty(),
    }
}

/// The shapes of the fields of a tuple or of a struct with fields.
spec fn listed_shapes(shape: ShapeModel) -> Seq<ShapeModel> {
    match shape {
        ShapeModel::Tuple(shapes) => shapes,
        ShapeModel::TupleStruct(shapes) => shapes,
        ShapeModel::Struct(shapes) => shapes,
        _ => Seq::empty(),
    }
}

/// The round trip of a tuple or of a struct with fields, given that of its
/// fields.
proof fn lemma_listed(value: Model, shape: ShapeModel, endian: Endian, rest: Seq<u8>)
    requires
        shape is Tuple || shape is TupleStruct || shape is Struct,
        has_shape(value, shape),
        decoding_fields(listed_shapes(shape), 0, encoding_from(listed(value), 0, endian) + rest, endian)
            == Ok::<_, ErrorKind>(
            (listed(value).skip(0), encoding_from(listed(value), 0, endian).len()),
        ),
    ensures
        decoding(shape, encoding(value, endian) + rest, endian) == Ok::<_, ErrorKind>(
            (value, encoding(value, endian).len()),
        ),
{
    assert(listed(value).skip(0) =~= listed(value));
}

/// The round trip of a map, given that of its entries.
proof fn lemma_mapping(value: Model, shape: ShapeModel, endian: Endian, rest: Seq<u8>)
    requires
        shape is Mapping,
        has_shape(value, shape),
        fits(value),
        decoding_entries(
            shape,
            entries_encoding_from(value->Mapping_0, 0, endian) + rest,
            endian,
            value->Mapping_0.len(),
        ) == Ok::<_, ErrorKind>(
            (value->Mapping_0.skip(0), entries_encoding_from(value->Mapping_0, 0, endian).len()),
        ),
    ensures
        decoding(shape, encoding(value, endian) + rest, endian) == Ok::<_, ErrorKind>(
            (value, encoding(value, endian).len()),
        ),
{
    let entries = value->Mapping_0;
    let body = entries_encoding_from(entries, 0, endian);
    lemma_parse_u32(entries.len() as u32, endian, body + rest);
    lemma_front(len_bytes(entries.len(), endian), body + rest);
    assert(encoding(value, endian) + rest =~= len_bytes(entries.len(), endian) + (body + rest));
    assert(entries.skip(0) =~= entries);
}

/// What an enum variant carries is read back.
spec fn payload_round_trip(
    value: Model,
    variant: VariantModel,
    endian: Endian,
    rest: Seq<u8>,
) -> bool {
    match value {
        Model::NewtypeVariant(_, held) => decoding(
            variant->Newtype_0,
            encoding(*held, endian) + rest,
            endian,
        ) == Ok::<_, ErrorKind>((*held, encoding(*held, endian).len())),
        Model::TupleVariant(_, items) => decoding_fields(
            variant->Tuple_0,
            0,
            encoding_from(items, 0, endian) + rest,
            endian,
        ) == Ok::<_, ErrorKind>((items.skip(0), encoding_from(items, 0, endian).len())),
        Model::StructVariant(_, items) => decoding_fields(
            variant->Struct_0,
            0,
            encoding_from(items, 0, endian) + rest,
            endian,
        ) == Ok::<_, ErrorKind>((items.skip(0), encoding_from(items, 0, endian).len())),
        _ => true,
    }
}

/// The index that an enum variant carries.
spec fn index_of(value: Model) -> u32 {
    match value {
        Model::UnitVariant(index) => index,
        Model::NewtypeVariant(index, _) => index,
        Model::TupleVariant(index, _) => index,
        Model::StructVariant(index, _) => index,
        _ => 0,
    }
}

/// The round trip of an enum variant, given that of what it carries.
proof fn lemma_variant(value: Model, shape: ShapeModel, endian: Endian, rest: Seq<u8>)
    requires
        shape is Enum,
        has_shape(value, shape),
        payload_round_trip(value, shape->Enum_0[index_of(value) as int], endian, rest),
    ensures
        decoding(shape, encoding(value, endian) + rest, endian) == Ok::<_, ErrorKind>(
            (value, encoding(value, endian).len()),
        ),
{
    let bytes = encoding(value, endian);
    match value {
        Model::UnitVariant(index) => {
            lemma_parse_u32(index, endian, rest);
        },
        Model::NewtypeVariant(index, held) => {
            let nested = encoding(*held, endian);
            lemma_parse_u32(index, endian, nested + rest);
            lemma_front(variant_bytes(index, endian), nested + rest);
            assert(bytes + rest =~= variant_bytes(index, endian) + (nested + rest));
        },
        Model::TupleVariant(index, items) => {
            let body = encoding_from(items, 0, endian);
            lemma_parse_u32(index, endian, body + rest);
            lemma_front(variant_bytes(index, endian), body + rest);
            assert(bytes + rest =~= variant_bytes(index, endian) + (body + rest));
            assert(items.skip(0) =~= items);
        },
        Model::StructVariant(index, items) => {
            let body = encoding_from(items, 0, endian);
            lemma_parse_u32(index, endian, body + rest);
            lemma_front(variant_bytes(index, endian), body + rest);
            assert(bytes + rest =~= variant_bytes(index, endian) + (body + rest));
            assert(items.skip(0) =~= items);
        },
        _ => {},
    }
}

/// The round trip of the items of a sequence, from position `from` on.
proof fn lemma_repeated(
    items: Seq<Model>,
    from: nat,
    shape: ShapeModel,
    endian: Endian,
    rest: Seq<u8>,
)
    requires
        from <= items.len(),
        forall|i: int| 0 <= i < items.len() ==> has_shape(#[trigger] items[i], shape),
        all_fit(items),
    ensures
        decoding_repeated(
            shape,
            encoding_from(items, from, endian) + rest,
            endian,
            (items.len() - from) as nat,
        ) == Ok::<_, ErrorKind>((items.skip(from as int), encoding_from(items, from, endian).len())),
    decreases items, items.len() - from,
{
    if from < items.len() {
        let first = items[from as int];
        let head = encoding(first, endian);
        let tail = encoding_from(items, from + 1, endian);
        lemma_round_trip(first, shape, endian, tail + rest);
        lemma_repeated(items, from + 1, shape, endian, rest);
        lemma_front(head, tail + rest);
        assert((head + tail) + rest =~= head + (tail + rest));
        assert(seq![first] + items.skip(from + 1 as int) =~= items.skip(from as int));
    } else {
        assert(encoding_from(items, from, endian) + rest =~= rest);
        assert(items.skip(from as int) =~= Seq::<Model>::empty());
    }
}

/// The round trip of the fields of a tuple or struct, from position `from` on.
proof fn lemma_fields(
    items: Seq<Model>,
    shapes: Seq<ShapeModel>,
    from: nat,
    endian: Endian,
    rest: Seq<u8>,
)
    requires
        from <= items.len(),
        have_shapes(items, shapes),
        all_fit(items),
    ensures
        decoding_fields(shapes, from, encoding_from(items, from, endian) + rest, endian) == Ok::<
            _,
            ErrorKind,
        >((items.skip(from as int), encoding_from(items, from, endian).len())),
    decreases items, items.len() - from,
{
    if from < items.len() {
        let first = items[from as int];
        let head = encoding(first, endian);
        let tail = encoding_from(items, from + 1, endian);
        lemma_round_trip(first, shapes[from as int], endian, tail + rest);
        lemma_fields(items, shapes, from + 1, endian, rest);
        lemma_front(head, tail + rest);
        assert((head + tail) + rest =~= head + (tail + rest));
        assert(seq![first] + items.skip(from + 1 as int) =~= items.skip(from as int));
    } else {
        assert(encoding_from(items, from, endian) + rest =~= rest);
        assert(items.skip(from as int) =~= Seq::<Model>::empty());
    }
}

/// The value is read back from its bytes, whatever follows them.
#[verifier::opaque]
spec fn reads_back(value: Model, shape: ShapeModel, endian: Endian, rest: Seq<u8>) -> bool {
    decoding(shape, encoding(value, endian) + rest, endian) == Ok::<_, ErrorKind>(
        (value, encoding(value, endian).len()),
    )
}

/// The round trip of one value, as the lemmas on entries use it.
proof fn lemma_reads_back(value: Model, shape: ShapeModel, endian: Endian, rest: Seq<u8>)
    requires
        has_shape(value, shape),
        fits(value),
    ensures
        reads_back(value, shape, endian, rest),
    decreases value, 1nat,
{
    reveal(reads_back);
    lemma_round_trip(value, shape, endian, rest);
}

/// One entry in front of the entries behind it: the key, the value, and
/// then the rest.
proof fn lemma_entry(
    shape: ShapeModel,
    endian: Endian,
    count: nat,
    key: Model,
    held: Model,
    others: Seq<(Model, Model)>,
    tail: Seq<u8>,
    rest: Seq<u8>,
)
    requires
        shape is Mapping,
        count > 0,
        reads_back(key, *shape->Mapping_0, endian, encoding(held, endian) + (tail + rest)),
        reads_back(held, *shape->Mapping_1, endian, tail + rest),
        decoding_entries(shape, tail + rest, endian, (count - 1) as nat) == Ok::<_, ErrorKind>(
            (others, tail.len()),
        ),
    ensures
        decoding_entries(
            shape,
            ((encoding(key, endian) + encoding(held, endian)) + tail) + rest,
            endian,
            count,
        ) == Ok::<_, ErrorKind>(
            (
                seq![(key, held)] + others,
                ((encoding(key, endian) + encoding(held, endian)) + tail).len(),
            ),
        ),
{
    reveal(reads_back);
    let key_bytes = encoding(key, endian);
    let held_bytes = encoding(held, endian);
    let input = ((key_bytes + held_bytes) + tail) + rest;
    lemma_front(key_bytes, held_bytes + (tail + rest));
    lemma_front(held_bytes, tail + rest);
    assert(input =~= key_bytes + (held_bytes + (tail + rest)));
    assert(input.skip((key_bytes.len() + held_bytes.len()) as int) =~= tail + rest);
}

/// The round trip of the entries of a map, from position `from` on.
proof fn lemma_entries(
    entries: Seq<(Model, Model)>,
    from: nat,
    shape: ShapeModel,
    endian: Endian,
    rest: Seq<u8>,
)
    requires
        from <= entries.len(),
        shape is Mapping,
        forall|i: int|
            0 <= i < entries.len() ==> has_shape(#[trigger] entries[i].0, *shape->Mapping_0)
                && has_shape(entries[i].1, *shape->Mapping_1),
        all_entries_fit(entries),
    ensures
        decoding_entries(
            shape,
            entries_encoding_from(entries, from, endian) + rest,
            endian,
            (entries.len() - from) as nat,
        ) == Ok::<_, ErrorKind>(
            (entries.skip(from as int), entries_encoding_from(entries, from, endian).len()),
        ),
    decreases entries, entries.len() - from,
{
    if from < entries.len() {
        let key = entries[from as int].0;
        let held = entries[from as int].1;
        let tail = entries_encoding_from(entries, from + 1, endian);
        lemma_reads_back(key, *shape->Mapping_0, endian, encoding(held, endian) + (tail + rest));
        lemma_reads_back(held, *shape->Mapping_1, endian, tail + rest);
        lemma_entries(entries, from + 1, shape, endian, rest);
        lemma_entry(
            shape,
            endian,
            (entries.len() - from) as nat,
            key,
            held,
            entries.skip(from + 1 as int),
            tail,
            rest,
        );
        assert(seq![(key, held)] + entries.skip(from + 1 as int) =~= entries.skip(from as int));
    } else {
        assert(entries_encoding_from(entries, from, endian) + rest =~= rest);
        assert(entries.skip(from as int) =~= Seq::<(Model, Model)>::empty());
    }
}

/// Decoding gives back what was encoded, for the bytes of a value alone.
pub proof fn lemma_round_trip_whole(value: Model, shape: ShapeModel, endian: Endian)
    requires
        has_shape(value, shape),
        fits(value),
    ensures
        decoding(shape, encoding(value, endian), endian) == Ok::<_, ErrorKind>(
            (value, encoding(value, endian).len()),
        ),
{
    lemma_round_trip(value, shape, endian, Seq::empty());
    assert(encoding(value, endian) + Seq::<u8>::empty() =~= encoding(value, endian));
}

/// A length-prefixed value fits exactly when it has fewer than 2^32 items
/// and its parts fit: with 2^32 items or more it is refused, and with
/// 2^32 - 1 items whose parts fit it is not.
pub proof fn lemma_length_limit(value: Model)
    ensures
        value matches Model::Str(text) ==> (fits(value) <==> encode_utf8(text).len()
            < 0x1_0000_0000),
        value matches Model::Bytes(bytes) ==> (fits(value) <==> bytes.len() < 0x1_0000_0000),
        value matches Model::Sequence(items) ==> (fits(value) <==> items.len() < 0x1_0000_0000
            && all_fit(items)),
        value matches Model::Mapping(entries) ==> (fits(value) <==> entries.len() < 0x1_0000_0000
            && all_entries_fit(entries)),
{
}

/// The index of an enum variant is read back as it was written, in either
/// byte order and whatever bytes follow.
pub proof fn lemma_variant_index(index: u32, endian: Endian, rest: Seq<u8>)
    ensures
        parse_u32(variant_bytes(index, endian) + rest, endian) == Ok::<_, ErrorKind>(
            (index, 4nat),
        ),
{
    lemma_parse_u32(index, endian, rest);
}

/// An index that names no variant of the enum is refused as a format
/// error, whatever bytes follow it.
pub proof fn lemma_variant_out_of_range(
    variants: Seq<VariantModel>,
    index: u32,
    endian: Endian,
    rest: Seq<u8>,
)
    requires
        index >= variants.len(),
    ensures
        decoding(ShapeModel::Enum(variants), variant_bytes(index, endian) + rest, endian) == Err::<
            (Model, nat),
            _,
        >(ErrorKind::Message),
{
    lemma_parse_u32(index, endian, rest);
}

/// An absent option is the single byte 0. A present option is the single
/// byte 1 followed by the bytes of the value it holds.
pub proof fn lemma_option_bytes(held: Model, endian: Endian)
    ensures
        encoding(Model::Optional(None), endian) == seq![0u8],
        encoding(Model::Optional(Some(Box::new(held))), endian) == seq![1u8] + encoding(held, endian),
{
}

/// What may be said of a successful parse of one value: the value is of
/// the shape that was asked for, its lengths fit their prefixes, and it took
/// no more bytes than the input has.
pub open spec fn sound(parsed: Parsed<Model>, shape: ShapeModel, input: Seq<u8>) -> bool {
    parsed matches Ok((value, count)) ==> has_shape(value, shape) && fits(value) && count
        <= input.len()
}

/// The same of a successful parse of the fields of the shapes from position
/// `from` on.
pub open spec fn sound_fields(
    parsed: Parsed<Seq<Model>>,
    shapes: Seq<ShapeModel>,
    from: nat,
    input: Seq<u8>,
) -> bool {
    parsed matches Ok((items, count)) ==> {
        &&& items.len() + from == shapes.len()
        &&& forall|i: int| 0 <= i < items.len() ==> has_shape(#[trigger] items[i], shapes[from + i])
        &&& all_fit(items)
        &&& count <= input.len()
    }
}

/// The same of a successful parse of `len` values of one shape.
pub open spec fn sound_repeated(
    parsed: Parsed<Seq<Model>>,
    shape: ShapeModel,
    len: nat,
    input: Seq<u8>,
) -> bool {
    parsed matches Ok((items, count)) ==> {
        &&& items.len() == len
        &&& forall|i: int| 0 <= i < items.len() ==> has_shape(#[trigger] items[i], shape)
        &&& all_fit(items)
        &&& count <= input.len()
    }
}

/// The same of a successful parse of `len` entries of a map shape.
pub open spec fn sound_entries(
    parsed: Parsed<Seq<(Model, Model)>>,
    shape: ShapeModel,
    len: nat,
    input: Seq<u8>,
) -> bool {
    parsed matches Ok((entries, count)) ==> {
        &&& entries.len() == len
        &&& forall|i: int|
            0 <= i < entries.len() ==> has_shape(#[trigger] entries[i].0, *shape->Mapping_0)
                && has_shape(entries[i].1, *shape->Mapping_1)
        &&& all_entries_fit(entries)
        &&& count <= input.len()
    }
}

/// What decoding gives is what was asked for: a value that any input
/// decodes to is of the given shape, every length in it fits a length
/// prefix, so that it can be encoded again, and it took no more bytes than
/// the input has.
pub proof fn lemma_decoding_sound(shape: ShapeModel, input: Seq<u8>, endian: Endian)
    ensures
        sound(decoding(shape, input, endian), shape, input),
    decreases shape, 1nat, 0nat,
{
    match shape {
        ShapeModel::Optional(inner) => {
            lemma_decoding_sound(*inner, input.skip(1), endian);
            lemma_optional_sound(shape, input, endian);
        },
        ShapeModel::Sequence(item) => {
            if let Ok((len, _)) = parse_u32(input, endian) {
                lemma_repeated_sound(*item, input.skip(4), endian, len as nat);
            }
            lemma_sequence_sound(shape, input, endian);
        },
        ShapeModel::Tuple(shapes) => {
            lemma_fields_sound(shapes, 0, input, endian);
            lemma_listed_sound(shape, input, endian);
        },
        ShapeModel::Mapping(_, _) => {
            if let Ok((len, _)) = parse_u32(input, endian) {
                lemma_entries_sound(shape, input.skip(4), endian, len as nat);
            }
            lemma_mapping_sound(shape, input, endian);
        },
        ShapeModel::NewtypeStruct(inner) => {
            lemma_decoding_sound(*inner, input, endian);
        },
        ShapeModel::TupleStruct(shapes) => {
            lemma_fields_sound(shapes, 0, input, endian);
            lemma_listed_sound(shape, input, endian);
        },
        ShapeModel::Struct(shapes) => {
            lemma_fields_sound(shapes, 0, input, endian);
            lemma_listed_sound(shape, input, endian);
        },
        ShapeModel::Enum(variants) => {
            if let Ok((index, _)) = parse_u32(input, endian) {
                if index < variants.len() {
                    match variants[index as int] {
                        VariantModel::Unit => {},
                        VariantModel::Newtype(inner) => {
                            lemma_decoding_sound(inner, input.skip(4), endian);
                        },
                        VariantModel::Tuple(shapes) => {
                            lemma_fields_sound(shapes, 0, input.skip(4), endian);
                        },
                        VariantModel::Struct(shapes) => {
                            lemma_fields_sound(shapes, 0, input.skip(4), endian);
                        },
                    }
                }
            }
            lemma_variant_sound(shape, input, endian);
        },
        _ => {
            lemma_plain_sound(shape, input, endian);
        },
    }
}

/// Decoding a value without parts is sound.
proof fn lemma_plain_sound(shape: ShapeModel, input: Seq<u8>, endian: Endian)
    requires
        is_plain(shape),
    ensures
        sound(decoding(shape, input, endian), shape, input),
{
    if shape is Str {
        if let Ok((bytes, _)) = parse_blob(input, endian) {
            if valid_utf8(bytes) {
                vstd::utf8::decode_utf8_encode_utf8(bytes);
            }
        }
    }
}

/// Decoding an option is sound, given that decoding what it holds is.
proof fn lemma_optional_sound(shape: ShapeModel, input: Seq<u8>, endian: Endian)
    requires
        shape is Optional,
        sound(decoding(*shape->Optional_0, input.skip(1), endian), *shape->Optional_0, input.skip(1)),
    ensures
        sound(decoding(shape, input, endian), shape, input),
{
}

/// Decoding a sequence is sound, given that decoding its items is.
proof fn lemma_sequence_sound(shape: ShapeModel, input: Seq<u8>, endian: Endian)
    requires
        shape is Sequence,
        parse_u32(input, endian) matches Ok((len, _)) ==> sound_repeated(
            decoding_repeated(*shape->Sequence_0, input.skip(4), endian, len as nat),
            *shape->Sequence_0,
            len as nat,
            input.skip(4),
        ),
    ensures
        sound(decoding(shape, input, endian), shape, input),
{
}

/// Decoding a tuple or a struct with fields is sound, given that decoding
/// its fields is.
proof fn lemma_listed_sound(shape: ShapeModel, input: Seq<u8>, endian: Endian)
    requires
        shape is Tuple || shape is TupleStruct || shape is Struct,
        sound_fields(
            decoding_fields(listed_shapes(shape), 0, input, endian),
            listed_shapes(shape),
            0,
            input,
        ),
    ensures
        sound(decoding(shape, input, endian), shape, input),
{
    if let Ok((items, _)) = decoding_fields(listed_shapes(shape), 0, input, endian) {
        assert(have_shapes(items, listed_shapes(shape)));
    }
}

/// Decoding a map is sound, given that decoding its entries is.
proof fn lemma_mapping_sound(shape: ShapeModel, input: Seq<u8>, endian: Endian)
    requires
        shape is Mapping,
        parse_u32(input, endian) matches Ok((len, _)) ==> sound_entries(
            decoding_entries(shape, input.skip(4), endian, len as nat),
            shape,
            len as nat,
            input.skip(4),
        ),
    ensures
        sound(decoding(shape, input, endian), shape, input),
{
}

/// Decoding what an enum variant carries is sound.
spec fn payload_sound(variant: VariantModel, input: Seq<u8>, endian: Endian) -> bool {
    match variant {
        VariantModel::Unit => true,
        VariantModel::Newtype(inner) => sound(decoding(inner, input, endian), inner, input),
        VariantModel::Tuple(shapes) => sound_fields(
            decoding_fields(shapes, 0, input, endian),
            shapes,
            0,
            input,
        ),
        VariantModel::Struct(shapes) => sound_fields(
            decoding_fields(shapes, 0, input, endian),
            shapes,
            0,
            input,
        ),
    }
}

/// Decoding an enum variant is sound, given that decoding what it carries
/// is.
proof fn lemma_variant_sound(shape: ShapeModel, input: Seq<u8>, endian: Endian)
    requires
        shape is Enum,
        parse_u32(input, endian) matches Ok((index, _)) ==> index < shape->Enum_0.len()
            ==> payload_sound(shape->Enum_0[index as int], input.skip(4), endian),
    ensures
        sound(decoding(shape, input, endian), shape, input),
{
    if let Ok((index, _)) = parse_u32(input, endian) {
        if index < shape->Enum_0.len() {
            match shape->Enum_0[index as int] {
                VariantModel::Tuple(shapes) => {
                    if let Ok((items, _)) = decoding_fields(shapes, 0, input.skip(4), endian) {
                        assert(have_shapes(items, shapes));
                    }
                },
                VariantModel::Struct(shapes) => {
                    if let Ok((items, _)) = decoding_fields(shapes, 0, input.skip(4), endian) {
                        assert(have_shapes(items, shapes));
                    }
                },
                _ => {},
            }
        }
    }
}

/// Decoding `len` values of one shape is sound.
proof fn lemma_repeated_sound(shape: ShapeModel, input: Seq<u8>, endian: Endian, len: nat)
    ensures
        sound_repeated(decoding_repeated(shape, input, endian, len), shape, len, input),
    decreases shape, 2nat, len,
{
    if len > 0 {
        lemma_decoding_sound(shape, input, endian);
        if let Ok((first, taken)) = decoding(shape, input, endian) {
            let rest = decoding_repeated(shape, input.skip(taken as int), endian, (len - 1) as nat);
            lemma_repeated_sound(shape, input.skip(taken as int), endian, (len - 1) as nat);
            if let Ok((others, _)) = rest {
                let items = seq![first] + others;
                assert forall|i: int| 0 <= i < items.len() implies has_shape(
                    #[trigger] items[i],
                    shape,
                ) && fits(items[i]) by {
                    if i > 0 {
                        assert(items[i] == others[i - 1]);
                    }
                }
            }
        }
    }
}

/// Decoding the fields of the shapes from position `from` on is sound.
proof fn lemma_fields_sound(shapes: Seq<ShapeModel>, from: nat, input: Seq<u8>, endian: Endian)
    requires
        from <= shapes.len(),
    ensures
        sound_fields(decoding_fields(shapes, from, input, endian), shapes, from, input),
    decreases shapes, 0nat, shapes.len() - from,
{
    if from < shapes.len() {
        lemma_decoding_sound(shapes[from as int], input, endian);
        if let Ok((first, taken)) = decoding(shapes[from as int], input, endian) {
            let rest = decoding_fields(shapes, from + 1, input.skip(taken as int), endian);
            lemma_fields_sound(shapes, from + 1, input.skip(taken as int), endian);
            if let Ok((others, _)) = rest {
                let items = seq![first] + others;
                assert forall|i: int| 0 <= i < items.len() implies has_shape(
                    #[trigger] items[i],
                    shapes[from + i],
                ) && fits(items[i]) by {
                    if i > 0 {
                        assert(items[i] == others[i - 1]);
                    }
                }
            }
        }
    }
}

/// Decoding `len` entries of a map shape is sound.
proof fn lemma_entries_sound(shape: ShapeModel, input: Seq<u8>, endian: Endian, len: nat)
    requires
        shape is Mapping,
    ensures
        sound_entries(decoding_entries(shape, input, endian, len), shape, len, input),
    decreases shape, 0nat, len,
{
    if len > 0 {
        let key_shape = *shape->Mapping_0;
        let held_shape = *shape->Mapping_1;
        lemma_decoding_sound(key_shape, input, endian);
        if let Ok((key, key_taken)) = decoding(key_shape, input, endian) {
            let behind_key = input.skip(key_taken as int);
            lemma_decoding_sound(held_shape, behind_key, endian);
            if let Ok((held, held_taken)) = decoding(held_shape, behind_key, endian) {
                let behind = input.skip((key_taken + held_taken) as int);
                let rest = decoding_entries(shape, behind, endian, (len - 1) as nat);
                lemma_entries_sound(shape, behind, endian, (len - 1) as nat);
                if let Ok((others, _)) = rest {
                    let entries = seq![(key, held)] + others;
                    assert forall|i: int| 0 <= i < entries.len() implies has_shape(
                        #[trigger] entries[i].0,
                        key_shape,
                    ) && has_shape(entries[i].1, held_shape) && fits(entries[i].0) && fits(
                        entries[i].1,
                    ) by {
                        if i > 0 {
                            assert(entries[i].0 == others[i - 1].0);
                            assert(entries[i].1 == others[i - 1].1);
                        }
                    }
                }
            }
        }
    }
}

} // verus!
