//! Whole values: the encoder and the decoder walk a value or a shape and
//! call the operation of each kind they meet.
use vstd::prelude::*;
use crate::de::Deserializer;
use crate::error::{Error, ErrorKind};
use crate::format::{
    all_entries_fit, all_fit, decoding, decoding_entries, decoding_fields, decoding_repeated,
    encoding, encoding_from, entries_encoding_from, fits, is_plain,
};
use crate::layout::{len_bytes, some_bytes, variant_bytes, Parsed};
use crate::ser::Serializer;
use crate::value::{
    entry_models, model_of, models, shape_models, variant_models, Model, Shape, ShapeModel, Value,
    Variant,
};

verus! {

/// Appending is associative: what was written in two steps was written in one.
proof fn lemma_concat_assoc(a: Seq<u8>, b: Seq<u8>, c: Seq<u8>)
    ensures
        (a + b) + c == a + (b + c),
{
    assert((a + b) + c =~= a + (b + c));
}

impl Serializer {
    /// This encoder is `before` after a failed write: how far it wrote is
    /// left open.
    pub open spec fn gave_up(&self, before: &Serializer) -> bool {
        &&& self.wf()
        &&& self.endian() == before.endian()
    }

    /// Writes a value: the bytes of its kind, and for a composite kind the
    /// bytes of its parts. Succeeds exactly when every length in the value
    /// fits a length prefix; the only failure is that one does not.
    pub fn serialize_value(&mut self, value: &Value) -> (r: Result<(), Error>)
        requires
            old(self).wf(),
        ensures
            r is Ok <==> fits(value@),
            r is Ok ==> final(self).wrote(old(self), encoding(value@, old(self).endian())),
            r matches Err(e) ==> e.kind() == ErrorKind::TooManyItems && final(self).gave_up(old(self)),
        decreases value,
    {
        let ghost start = self@;
        let ghost endian = self.endian();
        match value {
            Value::Unit => self.serialize_unit(),
            Value::Bool(v) => self.serialize_bool(*v),
            Value::I8(v) => self.serialize_i8(*v),
            Value::I16(v) => self.serialize_i16(*v),
            Value::I32(v) => self.serialize_i32(*v),
            Value::I64(v) => self.serialize_i64(*v),
            Value::Isize(v) => self.serialize_isize(*v),
            Value::U8(v) => self.serialize_u8(*v),
            Value::U16(v) => self.serialize_u16(*v),
            Value::U32(v) => self.serialize_u32(*v),
            Value::U64(v) => self.serialize_u64(*v),
            Value::Usize(v) => self.serialize_usize(*v),
            Value::F32(bits) => self.serialize_f32(*bits),
            Value::F64(bits) => self.serialize_f64(*bits),
            Value::Char(v) => self.serialize_char(*v),
            Value::Str(text) => self.serialize_str(text.as_str()),
            Value::Bytes(bytes) => self.serialize_bytes(bytes.as_slice()),
            Value::Optional(None) => self.serialize_none(),
            Value::Optional(Some(inner)) => {
                self.serialize_some()?;
                let r = self.serialize_value(inner);
                proof {
                    lemma_concat_assoc(start, some_bytes(), encoding(model_of(**inner), endian));
                }
                r
            },
            Value::Sequence(items) => {
                assert(models(items@).len() == items@.len());
                self.serialize_seq(items.len())?;
                let r = self.serialize_parts(items);
                proof {
                    lemma_concat_assoc(
                        start,
                        len_bytes(items@.len(), endian),
                        encoding_from(models(items@), 0, endian),
                    );
                }
                r
            },
            Value::Tuple(items) => {
                self.serialize_tuple()?;
                self.serialize_parts(items)
            },
            Value::Mapping(entries) => {
                assert(entry_models(entries@).len() == entries@.len());
                self.serialize_map(entries.len())?;
                let r = self.serialize_entries(entries);
                proof {
                    lemma_concat_assoc(
                        start,
                        len_bytes(entries@.len(), endian),
                        entries_encoding_from(entry_models(entries@), 0, endian),
                    );
                }
                r
            },
            Value::UnitStruct => self.serialize_unit_struct(),
            Value::NewtypeStruct(inner) => {
                self.serialize_newtype_struct()?;
                self.serialize_value(inner)
            },
            Value::TupleStruct(items) => {
                self.serialize_tuple_struct()?;
                self.serialize_parts(items)
            },
            Value::Struct(items) => {
                self.serialize_struct()?;
                self.serialize_parts(items)
            },
            Value::UnitVariant(index) => self.serialize_unit_variant(*index),
            Value::NewtypeVariant(index, inner) => {
                self.serialize_newtype_variant(*index)?;
                let r = self.serialize_value(inner);
                proof {
                    lemma_concat_assoc(
                        start,
                        variant_bytes(*index, endian),
                        encoding(model_of(**inner), endian),
                    );
                }
                r
            },
            Value::TupleVariant(index, items) => {
                self.serialize_tuple_variant(*index)?;
                let r = self.serialize_parts(items);
                proof {
                    lemma_concat_assoc(
                        start,
                        variant_bytes(*index, endian),
                        encoding_from(models(items@), 0, endian),
                    );
                }
                r
            },
            Value::StructVariant(index, items) => {
                self.serialize_struct_variant(*index)?;
                let r = self.serialize_parts(items);
                proof {
                    lemma_concat_assoc(
                        start,
                        variant_bytes(*index, endian),
                        encoding_from(models(items@), 0, endian),
                    );
                }
                r
            },
        }
    }

    /// Writes the items one after the other.
    fn serialize_parts(&mut self, items: &Vec<Value>) -> (r: Result<(), Error>)
        requires
            old(self).wf(),
        ensures
            r is Ok <==> all_fit(models(items@)),
            r is Ok ==> final(self).wrote(
                old(self),
                encoding_from(models(items@), 0, old(self).endian()),
            ),
            r matches Err(e) ==> e.kind() == ErrorKind::TooManyItems && final(self).gave_up(old(self)),
        decreases items,
    {
        let ghost all = models(items@);
        let ghost endian = self.endian();
        let mut i: usize = 0;
        while i < items.len()
            invariant
                self.wf(),
                self.endian() == endian,
                endian == old(self).endian(),
                all == models(items@),
                i <= items.len(),
                forall|j: int| 0 <= j < i ==> fits(#[trigger] all[j]),
                self@ + encoding_from(all, i as nat, endian) == old(self)@ + encoding_from(all, 0, endian),
            decreases items.len() - i,
        {
            let ghost before = self@;
            let r = self.serialize_value(&items[i]);
            if let Err(e) = r {
                assert(!fits(all[i as int]));
                return Err(e);
            }
            proof {
                let here = encoding(all[i as int], endian);
                let rest = encoding_from(all, (i + 1) as nat, endian);
                assert((before + here) + rest =~= before + (here + rest));
            }
            i = i + 1;
        }
        proof {
            assert(self@ + Seq::<u8>::empty() =~= self@);
        }
        Ok(())
    }

    /// Writes the entries one after the other: of each its key, then its
    /// value.
    fn serialize_entries(&mut self, entries: &Vec<(Value, Value)>) -> (r: Result<(), Error>)
        requires
            old(self).wf(),
        ensures
            r is Ok <==> all_entries_fit(entry_models(entries@)),
            r is Ok ==> final(self).wrote(
                old(self),
                entries_encoding_from(entry_models(entries@), 0, old(self).endian()),
            ),
            r matches Err(e) ==> e.kind() == ErrorKind::TooManyItems && final(self).gave_up(old(self)),
        decreases entries,
    {
        let ghost all = entry_models(entries@);
        let ghost endian = self.endian();
        let mut i: usize = 0;
        while i < entries.len()
            invariant
                self.wf(),
                self.endian() == endian,
                endian == old(self).endian(),
                all == entry_models(entries@),
                i <= entries.len(),
                forall|j: int| 0 <= j < i ==> fits(#[trigger] all[j].0) && fits(all[j].1),
                self@ + entries_encoding_from(all, i as nat, endian) == old(self)@ + entries_encoding_from(
                    all,
                    0,
                    endian,
                ),
            decreases entries.len() - i,
        {
            let ghost before = self@;
            let entry = &entries[i];
            let r = self.serialize_value(&entry.0);
            if let Err(e) = r {
                assert(!fits(all[i as int].0));
                return Err(e);
            }
            let r = self.serialize_value(&entry.1);
            if let Err(e) = r {
                assert(!fits(all[i as int].1));
                return Err(e);
            }
            proof {
                let key = encoding(all[i as int].0, endian);
                let held = encoding(all[i as int].1, endian);
                let rest = entries_encoding_from(all, (i + 1) as nat, endian);
                assert(((before + key) + held) + rest =~= before + (key + held + rest));
            }
            i = i + 1;
        }
        proof {
            assert(self@ + Seq::<u8>::empty() =~= self@);
        }
        Ok(())
    }
}

/// What was parsed before, then what is parsed from here on: the items
/// `done`, which took `used` bytes, followed by the items of `rest`.
pub open spec fn joined<A>(done: Seq<A>, used: nat, rest: Parsed<Seq<A>>) -> Parsed<Seq<A>> {
    match rest {
        Ok((items, count)) => Ok((done + items, used + count)),
        Err(kind) => Err(kind),
    }
}

impl Deserializer {
    /// As `read`, for an answer that is a list of values, compared by their
    /// models.
    pub open spec fn read_items(
        &self,
        before: &Deserializer,
        r: Result<Vec<Value>, Error>,
        expected: Parsed<Seq<Model>>,
    ) -> bool {
        &&& self.wf()
        &&& self.endian() == before.endian()
        &&& match expected {
            Ok((items, count)) => r is Ok && models(r->Ok_0@) == items && self.took(before, count),
            Err(kind) => r is Err && r->Err_0.kind() == kind,
        }
    }

    /// As `read`, for an answer that is a list of entries, compared by
    /// their models.
    pub open spec fn read_entries(
        &self,
        before: &Deserializer,
        r: Result<Vec<(Value, Value)>, Error>,
        expected: Parsed<Seq<(Model, Model)>>,
    ) -> bool {
        &&& self.wf()
        &&& self.endian() == before.endian()
        &&& match expected {
            Ok((entries, count)) => r is Ok && entry_models(r->Ok_0@) == entries && self.took(
                before,
                count,
            ),
            Err(kind) => r is Err && r->Err_0.kind() == kind,
        }
    }

    /// Reads a value of the given shape: the operation of its kind, and for
    /// a composite kind the operations of its parts. Fails where the bytes
    /// end too early, where a byte cannot stand where it stands, and where
    /// an enum index names no variant of the shape.
    pub fn deserialize_value(&mut self, shape: &Shape) -> (r: Result<Value, Error>)
        requires
            old(self).wf(),
        ensures
            final(self).read_view(
                old(self),
                r,
                decoding(shape@, old(self)@, old(self).endian()),
            ),
        decreases shape, 1nat,
    {
        let ghost start = *self;
        match shape {
            Shape::Optional(inner) => {
                let present = self.deserialize_option()?;
                if present {
                    let ghost mid = *self;
                    let held = self.deserialize_value(inner)?;
                    proof {
                        self.lemma_took_twice(&mid, &start, 1);
                    }
                    Ok(Value::Optional(Some(Box::new(held))))
                } else {
                    Ok(Value::Optional(None))
                }
            },
            Shape::Sequence(item) => {
                let len = self.deserialize_len()?;
                let ghost mid = *self;
                let items = self.deserialize_repeated(item, len)?;
                proof {
                    self.lemma_took_twice(&mid, &start, 4);
                }
                Ok(Value::Sequence(items))
            },
            Shape::Tuple(shapes) => {
                let items = self.deserialize_fields(shapes)?;
                Ok(Value::Tuple(items))
            },
            Shape::Mapping(_, _) => {
                let len = self.deserialize_len()?;
                let ghost mid = *self;
                let entries = self.deserialize_entries(shape, len)?;
                proof {
                    self.lemma_took_twice(&mid, &start, 4);
                }
                Ok(Value::Mapping(entries))
            },
            Shape::NewtypeStruct(inner) => {
                let held = self.deserialize_value(inner)?;
                Ok(Value::NewtypeStruct(Box::new(held)))
            },
            Shape::TupleStruct(shapes) => {
                let items = self.deserialize_fields(shapes)?;
                Ok(Value::TupleStruct(items))
            },
            Shape::Struct(shapes) => {
                let items = self.deserialize_fields(shapes)?;
                Ok(Value::Struct(items))
            },
            Shape::Enum(variants) => self.deserialize_enum(variants),
            _ => self.deserialize_plain(shape),
        }
    }

    /// Reads a value of a shape without parts.
    fn deserialize_plain(&mut self, shape: &Shape) -> (r: Result<Value, Error>)
        requires
            old(self).wf(),
            is_plain(shape@),
        ensures
            final(self).read_view(
                old(self),
                r,
                decoding(shape@, old(self)@, old(self).endian()),
            ),
    {
        match shape {
            Shape::Unit => {
                self.deserialize_unit()?;
                Ok(Value::Unit)
            },
            Shape::Bool => {
                let v = self.deserialize_bool()?;
                Ok(Value::Bool(v))
            },
            Shape::I8 => {
                let v = self.deserialize_i8()?;
                Ok(Value::I8(v))
            },
            Shape::I16 => {
                let v = self.deserialize_i16()?;
                Ok(Value::I16(v))
            },
            Shape::I32 => {
                let v = self.deserialize_i32()?;
                Ok(Value::I32(v))
            },
            Shape::I64 => {
                let v = self.deserialize_i64()?;
                Ok(Value::I64(v))
            },
            Shape::Isize => {
                let v = self.deserialize_isize()?;
                Ok(Value::Isize(v))
            },
            Shape::U8 => {
                let v = self.deserialize_u8()?;
                Ok(Value::U8(v))
            },
            Shape::U16 => {
                let v = self.deserialize_u16()?;
                Ok(Value::U16(v))
            },
            Shape::U32 => {
                let v = self.deserialize_u32()?;
                Ok(Value::U32(v))
            },
            Shape::U64 => {
                let v = self.deserialize_u64()?;
                Ok(Value::U64(v))
            },
            Shape::Usize => {
                let v = self.deserialize_usize()?;
                Ok(Value::Usize(v))
            },
            Shape::F32 => {
                let bits = self.deserialize_f32()?;
                Ok(Value::F32(bits))
            },
            Shape::F64 => {
                let bits = self.deserialize_f64()?;
                Ok(Value::F64(bits))
            },
            Shape::Char => {
                let v = self.deserialize_char()?;
                Ok(Value::Char(v))
            },
            Shape::Str => {
                let text = self.deserialize_string()?;
                Ok(Value::Str(text))
            },
            Shape::Bytes => {
                let bytes = self.deserialize_byte_buf()?;
                Ok(Value::Bytes(bytes))
            },
            _ => {
                self.deserialize_unit()?;
                Ok(Value::UnitStruct)
            },
        }
    }

    /// Reads a variant of an enum: its index, and what the variant of that
    /// index carries. An index that names no variant is a format error.
    fn deserialize_enum(&mut self, variants: &Vec<Variant>) -> (r: Result<Value, Error>)
        requires
            old(self).wf(),
        ensures
            final(self).read_view(
                old(self),
                r,
                decoding(
                    ShapeModel::Enum(variant_models(variants@)),
                    old(self)@,
                    old(self).endian(),
                ),
            ),
        decreases variants,
    {
        let ghost start = *self;
        let index = self.deserialize_variant()?;
        let ghost mid = *self;
        if index as usize >= variants.len() {
            return Err(Error::Message("variant index out of range".to_owned()));
        }
        assert(variant_models(variants@)[index as int] == variants@[index as int]@);
        match &variants[index as usize] {
            Variant::Unit => Ok(Value::UnitVariant(index)),
            Variant::Newtype(inner) => {
                let held = self.deserialize_value(inner)?;
                proof {
                    self.lemma_took_twice(&mid, &start, 4);
                }
                Ok(Value::NewtypeVariant(index, Box::new(held)))
            },
            Variant::Tuple(shapes) => {
                let items = self.deserialize_fields(shapes)?;
                proof {
                    self.lemma_took_twice(&mid, &start, 4);
                }
                Ok(Value::TupleVariant(index, items))
            },
            Variant::Struct(shapes) => {
                let items = self.deserialize_fields(shapes)?;
                proof {
                    self.lemma_took_twice(&mid, &start, 4);
                }
                Ok(Value::StructVariant(index, items))
            },
        }
    }

    /// Reading on from where an earlier read stopped takes the bytes of
    /// both reads.
    proof fn lemma_took_twice(&self, mid: &Deserializer, before: &Deserializer, first: nat)
        requires
            mid.took(before, first),
            exists|second: nat| self.took(mid, second),
        ensures
            forall|second: nat| self.took(mid, second) ==> self.took(before, first + second),
    {
        assert forall|second: nat| self.took(mid, second) implies self.took(
            before,
            first + second,
        ) by {
            assert(before@.skip(first as int).skip(second as int)
                =~= before@.skip((first + second) as int));
        }
    }

    /// Reads `count` values of one shape, one after the other.
    fn deserialize_repeated(&mut self, shape: &Shape, count: u32) -> (r: Result<Vec<Value>, Error>)
        requires
            old(self).wf(),
        ensures
            final(self).read_items(
                old(self),
                r,
                decoding_repeated(shape@, old(self)@, old(self).endian(), count as nat),
            ),
        decreases shape, 2nat,
    {
        let ghost input = self@;
        let ghost endian = self.endian();
        let ghost used: nat = 0;
        let mut out: Vec<Value> = Vec::new();
        let mut i: u32 = 0;
        proof {
            assert(input.skip(0) =~= input);
            assert(models(out@) =~= Seq::<Model>::empty());
            let whole = decoding_repeated(shape@, input, endian, count as nat);
            if whole is Ok {
                assert(Seq::<Model>::empty() + whole->Ok_0.0 =~= whole->Ok_0.0);
            }
        }
        while i < count
            invariant
                self.wf(),
                self.endian() == endian,
                endian == old(self).endian(),
                input == old(self)@,
                i <= count,
                used <= input.len(),
                self@ == input.skip(used as int),
                decoding_repeated(shape@, input, endian, count as nat) == joined(
                    models(out@),
                    used,
                    decoding_repeated(shape@, self@, endian, (count - i) as nat),
                ),
            decreases count - i,
        {
            let ghost here = self@;
            let ghost done = models(out@);
            let item = self.deserialize_value(shape)?;
            out.push(item);
            proof {
                let taken = decoding(shape@, here, endian)->Ok_0.1;
                let rest = decoding_repeated(shape@, here.skip(taken as int), endian, (count - i - 1) as nat);
                assert(models(out@) =~= done + seq![item@]);
                assert(input.skip(used as int).skip(taken as int) =~= input.skip((used + taken) as int));
                if rest is Ok {
                    assert(done + (seq![item@] + rest->Ok_0.0) =~= models(out@) + rest->Ok_0.0);
                }
                used = used + taken;
            }
            i = i + 1;
        }
        proof {
            assert(models(out@) + Seq::<Model>::empty() =~= models(out@));
        }
        Ok(out)
    }

    /// Reads one value for each of the shapes, one after the other.
    fn deserialize_fields(&mut self, shapes: &Vec<Shape>) -> (r: Result<Vec<Value>, Error>)
        requires
            old(self).wf(),
        ensures
            final(self).read_items(
                old(self),
                r,
                decoding_fields(shape_models(shapes@), 0, old(self)@, old(self).endian()),
            ),
        decreases shapes,
    {
        let ghost input = self@;
        let ghost endian = self.endian();
        let ghost used: nat = 0;
        let mut out: Vec<Value> = Vec::new();
        let mut i: usize = 0;
        proof {
            assert(input.skip(0) =~= input);
            assert(models(out@) =~= Seq::<Model>::empty());
            let whole = decoding_fields(shape_models(shapes@), 0, input, endian);
            if whole is Ok {
                assert(Seq::<Model>::empty() + whole->Ok_0.0 =~= whole->Ok_0.0);
            }
        }
        while i < shapes.len()
            invariant
                self.wf(),
                self.endian() == endian,
                endian == old(self).endian(),
                input == old(self)@,
                i <= shapes.len(),
                used <= input.len(),
                self@ == input.skip(used as int),
                decoding_fields(shape_models(shapes@), 0, input, endian) == joined(
                    models(out@),
                    used,
                    decoding_fields(shape_models(shapes@), i as nat, self@, endian),
                ),
            decreases shapes.len() - i,
        {
            let ghost here = self@;
            let ghost done = models(out@);
            let item = self.deserialize_value(&shapes[i])?;
            out.push(item);
            proof {
                let taken = decoding(shapes@[i as int]@, here, endian)->Ok_0.1;
                let rest = decoding_fields(shape_models(shapes@), (i + 1) as nat, here.skip(taken as int), endian);
                assert(models(out@) =~= done + seq![item@]);
                assert(input.skip(used as int).skip(taken as int) =~= input.skip((used + taken) as int));
                if rest is Ok {
                    assert(done + (seq![item@] + rest->Ok_0.0) =~= models(out@) + rest->Ok_0.0);
                }
                used = used + taken;
            }
            i = i + 1;
        }
        proof {
            assert(models(out@) + Seq::<Model>::empty() =~= models(out@));
        }
        Ok(out)
    }

    /// Reads `count` entries of a map shape: of each its key, then its value.
    fn deserialize_entries(&mut self, shape: &Shape, count: u32) -> (r: Result<
        Vec<(Value, Value)>,
        Error,
    >)
        requires
            old(self).wf(),
            shape is Mapping,
        ensures
            final(self).read_entries(
                old(self),
                r,
                decoding_entries(shape@, old(self)@, old(self).endian(), count as nat),
            ),
        decreases shape, 0nat,
    {
        let ghost input = self@;
        let ghost endian = self.endian();
        let ghost used: nat = 0;
        let mut out: Vec<(Value, Value)> = Vec::new();
        let mut i: u32 = 0;
        proof {
            assert(input.skip(0) =~= input);
            assert(entry_models(out@) =~= Seq::<(Model, Model)>::empty());
            let whole = decoding_entries(shape@, input, endian, count as nat);
            if whole is Ok {
                assert(Seq::<(Model, Model)>::empty() + whole->Ok_0.0 =~= whole->Ok_0.0);
            }
        }
        if let Shape::Mapping(key_shape, held_shape) = shape {
            while i < count
                invariant
                    self.wf(),
                    self.endian() == endian,
                    endian == old(self).endian(),
                    input == old(self)@,
                endian == old(self).endian(),
                input == old(self)@,
                    i <= count,
                    used <= input.len(),
                    self@ == input.skip(used as int),
                    *shape == Shape::Mapping(*key_shape, *held_shape),
                    decoding_entries(shape@, input, endian, count as nat) == joined(
                        entry_models(out@),
                        used,
                        decoding_entries(shape@, self@, endian, (count - i) as nat),
                    ),
                decreases count - i,
            {
                let ghost here = self@;
                let ghost done = entry_models(out@);
                let ghost at_key = *self;
                let key = self.deserialize_value(key_shape)?;
                let ghost at_held = *self;
                let held = self.deserialize_value(held_shape)?;
                proof {
                    self.lemma_took_twice(&at_held, &at_key, decoding((**key_shape)@, here, endian)->Ok_0.1);
                }
                let ghost entry = (key@, held@);
                out.push((key, held));
                proof {
                    let key_taken = decoding((**key_shape)@, here, endian)->Ok_0.1;
                    let held_taken = decoding((**held_shape)@, here.skip(key_taken as int), endian)->Ok_0.1;
                    let taken = key_taken + held_taken;
                    let rest = decoding_entries(shape@, here.skip(taken as int), endian, (count - i - 1) as nat);
                    assert(entry_models(out@) =~= done + seq![entry]);
                    assert(input.skip(used as int).skip(taken as int) =~= input.skip((used + taken) as int));
                    if rest is Ok {
                        assert(done + (seq![entry] + rest->Ok_0.0) =~= entry_models(out@) + rest->Ok_0.0);
                    }
                    used = used + taken;
                }
                i = i + 1;
            }
        }
        proof {
            assert(entry_models(out@) + Seq::<(Model, Model)>::empty() =~= entry_models(out@));
        }
        Ok(out)
    }
}

} // verus!
