//! The bridge from typed data to value trees: one entry point per shape of
//! data, and one accumulator per shape that is built piece by piece.
//!
//! A piece of data arrives here already turned into a value, or as the
//! error that turning it met: the accumulators take a `Result` and hand the
//! first error through unchanged.

use crate::errors::{Error, ErrorView};
use crate::text::{decode_lossy, utf8_lossy};
use crate::value::{
    distinct_keys, has_key, insert_entry, lemma_array_view, views_of, Table, TableView, Value,
    ValueView,
};
use vstd::prelude::*;

verus! {

/// The name of the field whose value stands for the whole struct: a wrapped
/// date-time that is to appear as a plain scalar.
pub open spec fn datetime_field() -> Seq<char> {
    "$__toml_private_datetime"@
}

/// What a struct under construction turns into when the field `key` with the
/// value `value` is added to `state`.
pub open spec fn with_field(state: ValueView, key: Seq<char>, value: ValueView) -> ValueView {
    if key == datetime_field() {
        value
    } else {
        match state {
            ValueView::Null => ValueView::Table(seq![(key, value)]),
            ValueView::Table(fields) => ValueView::Table(insert_entry(fields, key, value)),
            _ => state,
        }
    }
}

/// The entry point of the bridge: one function per shape of data.
#[derive(Clone, Copy, Debug, Default)]
pub struct ValueSerializer;

/// Collects the elements of a sequence.
#[derive(Debug)]
pub struct SeqSerializer {
    elements: Vec<Value>,
}

/// Collects the elements of a tuple.
#[derive(Debug)]
pub struct TupleSerializer {
    elements: Vec<Value>,
}

/// Collects the fields of a tuple struct.
#[derive(Debug)]
pub struct TupleStructSerializer {
    elements: Vec<Value>,
}

/// Collects the fields of a tuple variant.
#[derive(Debug)]
pub struct TupleVariantSerializer {
    elements: Vec<Value>,
}

/// Collects the entries of a map, each as a key followed by its value.
#[derive(Debug)]
pub struct MapSerializer {
    map: Table,
    current_key: Option<String>,
}

/// Collects the named fields of a struct.
#[derive(Debug)]
pub struct StructSerializer {
    fields: Value,
}

/// Collects the named fields of a struct variant.
#[derive(Debug)]
pub struct StructVariantSerializer {
    variant: String,
    fields: Table,
}

impl ValueSerializer {
    /// A boolean is a `Boolean`.
    pub fn serialize_bool(self, v: bool) -> (r: Result<Value, Error>)
        ensures
            r matches Ok(value) && value@ == ValueView::Boolean(v),
    {
        Ok(Value::Boolean(v))
    }

    /// A signed 8-bit number is an `Integer` of the same value.
    pub fn serialize_i8(self, v: i8) -> (r: Result<Value, Error>)
        ensures
            r matches Ok(value) && value@ == ValueView::Integer(v as i64),
    {
        Ok(Value::Integer(v as i64))
    }

    /// A signed 16-bit number is an `Integer` of the same value.
    pub fn serialize_i16(self, v: i16) -> (r: Result<Value, Error>)
        ensures
            r matches Ok(value) && value@ == ValueView::Integer(v as i64),
    {
        Ok(Value::Integer(v as i64))
    }

    /// A signed 32-bit number is an `Integer` of the same value.
    pub fn serialize_i32(self, v: i32) -> (r: Result<Value, Error>)
        ensures
            r matches Ok(value) && value@ == ValueView::Integer(v as i64),
    {
        Ok(Value::Integer(v as i64))
    }

    /// A signed 64-bit number is an `Integer`.
    pub fn serialize_i64(self, v: i64) -> (r: Result<Value, Error>)
        ensures
            r matches Ok(value) && value@ == ValueView::Integer(v),
    {
        Ok(Value::Integer(v))
    }

    /// An unsigned 8-bit number is an `Integer` of the same value.
    pub fn serialize_u8(self, v: u8) -> (r: Result<Value, Error>)
        ensures
            r matches Ok(value) && value@ == ValueView::Integer(v as i64),
    {
        Ok(Value::Integer(v as i64))
    }

    /// An unsigned 16-bit number is an `Integer` of the same value.
    pub fn serialize_u16(self, v: u16) -> (r: Result<Value, Error>)
        ensures
            r matches Ok(value) && value@ == ValueView::Integer(v as i64),
    {
        Ok(Value::Integer(v as i64))
    }

    /// An unsigned 32-bit number is an `Integer` of the same value.
    pub fn serialize_u32(self, v: u32) -> (r: Result<Value, Error>)
        ensures
            r matches Ok(value) && value@ == ValueView::Integer(v as i64),
    {
        Ok(Value::Integer(v as i64))
    }

    /// An unsigned 64-bit number is an integer where it fits the signed
    /// range, and an error where it does not: it is never wrapped.
    pub fn serialize_u64(self, v: u64) -> (r: Result<Value, Error>)
        ensures
            v <= i64::MAX ==> (r matches Ok(value) && value@ == ValueView::Integer(v as i64)),
            v > i64::MAX ==> (r matches Err(e) && e@ == ErrorView::OutOfRange(v)),
    {
        if v <= 0x7fff_ffff_ffff_ffffu64 {
            Ok(Value::Integer(v as i64))
        } else {
            Err(Error::OutOfRange(v))
        }
    }

    /// A 64-bit float, given by its bit pattern.
    pub fn serialize_f64(self, bits: u64) -> (r: Result<Value, Error>)
        ensures
            r matches Ok(value) && value@ == ValueView::Float(bits),
    {
        Ok(Value::Float(bits))
    }

    /// A character is the `String` that holds it alone.
    pub fn serialize_char(self, v: char) -> (r: Result<Value, Error>)
        ensures
            r matches Ok(value) && value@ == ValueView::String(seq![v]),
    {
        let mut text = String::new();
        text.push(v);
        assert(text@ =~= seq![v]);
        Ok(Value::String(text))
    }

    /// A text is a `String`.
    pub fn serialize_str(self, v: &str) -> (r: Result<Value, Error>)
        ensures
            r matches Ok(value) && value@ == ValueView::String(v@),
    {
        Ok(Value::String(v.to_owned()))
    }

    /// Bytes become the text that they spell in UTF-8; what is not valid
    /// UTF-8 is replaced, not rejected.
    pub fn serialize_bytes(self, v: &[u8]) -> (r: Result<Value, Error>)
        ensures
            r matches Ok(value) && value@ == ValueView::String(utf8_lossy(v@)),
    {
        Ok(Value::String(decode_lossy(v)))
    }

    /// `None` is `Null`.
    pub fn serialize_none(self) -> (r: Result<Value, Error>)
        ensures
            r matches Ok(value) && value@ == ValueView::Null,
    {
        Ok(Value::Null)
    }

    /// `Some(x)` is what `x` is: `value` is what serializing `x` gave.
    pub fn serialize_some(self, value: Result<Value, Error>) -> (r: Result<Value, Error>)
        ensures
            r == value,
    {
        value
    }

    /// The unit value is `Null`.
    pub fn serialize_unit(self) -> (r: Result<Value, Error>)
        ensures
            r matches Ok(value) && value@ == ValueView::Null,
    {
        Ok(Value::Null)
    }

    /// A unit struct is `Null`, whatever its name.
    pub fn serialize_unit_struct(self, _name: &str) -> (r: Result<Value, Error>)
        ensures
            r matches Ok(value) && value@ == ValueView::Null,
    {
        Ok(Value::Null)
    }

    /// A unit variant is `Null`, whatever its name.
    pub fn serialize_unit_variant(self, _name: &str, _variant_index: u32, _variant: &str) -> (r:
        Result<Value, Error>)
        ensures
            r matches Ok(value) && value@ == ValueView::Null,
    {
        Ok(Value::Null)
    }

    /// A newtype struct is what it wraps: `value` is what serializing the
    /// wrapped data gave.
    pub fn serialize_newtype_struct(self, _name: &str, value: Result<Value, Error>) -> (r: Result<
        Value,
        Error,
    >)
        ensures
            r == value,
    {
        value
    }

    /// A newtype variant is what it wraps: `value` is what serializing the
    /// wrapped data gave.
    pub fn serialize_newtype_variant(
        self,
        _name: &str,
        _variant_index: u32,
        _variant: &str,
        value: Result<Value, Error>,
    ) -> (r: Result<Value, Error>)
        ensures
            r == value,
    {
        value
    }

    /// Starts a sequence: an accumulator without elements.
    pub fn serialize_seq(self, _len: Option<usize>) -> (r: Result<SeqSerializer, Error>)
        ensures
            r matches Ok(seq) && seq@.len() == 0,
    {
        Ok(SeqSerializer::new())
    }

    /// Starts a tuple: an accumulator without elements.
    pub fn serialize_tuple(self, _len: usize) -> (r: Result<TupleSerializer, Error>)
        ensures
            r matches Ok(tuple) && tuple@.len() == 0,
    {
        Ok(TupleSerializer::new())
    }

    /// Starts a tuple struct: an accumulator without fields.
    pub fn serialize_tuple_struct(self, _name: &str, _len: usize) -> (r: Result<
        TupleStructSerializer,
        Error,
    >)
        ensures
            r matches Ok(tuple) && tuple@.len() == 0,
    {
        Ok(TupleStructSerializer::new())
    }

    /// Starts a tuple variant: an accumulator without fields.
    pub fn serialize_tuple_variant(
        self,
        _name: &str,
        _variant_index: u32,
        _variant: &str,
        _len: usize,
    ) -> (r: Result<TupleVariantSerializer, Error>)
        ensures
            r matches Ok(tuple) && tuple@.len() == 0,
    {
        Ok(TupleVariantSerializer::new())
    }

    /// Starts a map: an accumulator without entries and without a pending key.
    pub fn serialize_map(self, _len: Option<usize>) -> (r: Result<MapSerializer, Error>)
        ensures
            r matches Ok(map) && map.entries().len() == 0 && map.pending_key() is None,
    {
        Ok(MapSerializer::new())
    }

    /// Starts a struct: an accumulator without fields.
    pub fn serialize_struct(self, _name: &str, _len: usize) -> (r: Result<StructSerializer, Error>)
        ensures
            r matches Ok(fields) && fields@ == ValueView::Null,
    {
        Ok(StructSerializer::new())
    }

    /// Starts the struct variant `variant`: an accumulator without fields.
    pub fn serialize_struct_variant(
        self,
        _name: &str,
        _variant_index: u32,
        variant: &str,
        _len: usize,
    ) -> (r: Result<StructVariantSerializer, Error>)
        ensures
            r matches Ok(fields) && fields.variant() == variant@ && fields.fields().len() == 0,
    {
        Ok(StructVariantSerializer::new(variant.to_owned()))
    }
}

/// Adds what serializing one element gave to a list of elements: a value
/// joins the list, an error leaves the list as it is and is handed on.
fn push_element(elements: &mut Vec<Value>, element: Result<Value, Error>) -> (r: Result<(), Error>)
    ensures
        match element {
            Ok(value) => r is Ok && views_of(final(elements)@) == views_of(old(elements)@).push(
                value@,
            ),
            Err(e) => r == Err::<(), Error>(e) && final(elements)@ == old(elements)@,
        },
{
    match element {
        Ok(value) => {
            elements.push(value);
            assert(views_of(elements@) =~= views_of(old(elements)@).push(value@));
            Ok(())
        },
        Err(e) => Err(e),
    }
}

/// The array of the collected elements.
fn finish_elements(elements: Vec<Value>) -> (r: Result<Value, Error>)
    ensures
        r matches Ok(value) && value@ == ValueView::Array(views_of(elements@)),
{
    proof {
        lemma_array_view(elements);
    }
    Ok(Value::Array(elements))
}

impl View for SeqSerializer {
    type V = Seq<ValueView>;

    /// The elements collected so far.
    closed spec fn view(&self) -> Seq<ValueView> {
        views_of(self.elements@)
    }
}

impl SeqSerializer {
    /// An accumulator without elements.
    pub fn new() -> (seq: SeqSerializer)
        ensures
            seq@.len() == 0,
    {
        SeqSerializer { elements: Vec::new() }
    }

    /// Adds one element, given as what serializing it gave.
    pub fn serialize_element(&mut self, element: Result<Value, Error>) -> (r: Result<(), Error>)
        ensures
            match element {
                Ok(value) => r is Ok && final(self)@ == old(self)@.push(value@),
                Err(e) => r == Err::<(), Error>(e) && final(self)@ == old(self)@,
            },
    {
        push_element(&mut self.elements, element)
    }

    /// The array of the elements, in the order in which they came.
    pub fn end(self) -> (r: Result<Value, Error>)
        ensures
            r matches Ok(value) && value@ == ValueView::Array(self@),
    {
        finish_elements(self.elements)
    }
}

impl View for TupleSerializer {
    type V = Seq<ValueView>;

    /// The elements collected so far.
    closed spec fn view(&self) -> Seq<ValueView> {
        views_of(self.elements@)
    }
}

impl TupleSerializer {
    /// An accumulator without elements.
    pub fn new() -> (tuple: TupleSerializer)
        ensures
            tuple@.len() == 0,
    {
        TupleSerializer { elements: Vec::new() }
    }

    /// Adds one element, given as what serializing it gave.
    pub fn serialize_element(&mut self, element: Result<Value, Error>) -> (r: Result<(), Error>)
        ensures
            match element {
                Ok(value) => r is Ok && final(self)@ == old(self)@.push(value@),
                Err(e) => r == Err::<(), Error>(e) && final(self)@ == old(self)@,
            },
    {
        push_element(&mut self.elements, element)
    }

    /// The array of the elements, in the order in which they came.
    pub fn end(self) -> (r: Result<Value, Error>)
        ensures
            r matches Ok(value) && value@ == ValueView::Array(self@),
    {
        finish_elements(self.elements)
    }
}

impl View for TupleStructSerializer {
    type V = Seq<ValueView>;

    /// The fields collected so far.
    closed spec fn view(&self) -> Seq<ValueView> {
        views_of(self.elements@)
    }
}

impl TupleStructSerializer {
    /// An accumulator without fields.
    pub fn new() -> (tuple: TupleStructSerializer)
        ensures
            tuple@.len() == 0,
    {
        TupleStructSerializer { elements: Vec::new() }
    }

    /// Adds one field, given as what serializing it gave.
    pub fn serialize_field(&mut self, field: Result<Value, Error>) -> (r: Result<(), Error>)
        ensures
            match field {
                Ok(value) => r is Ok && final(self)@ == old(self)@.push(value@),
                Err(e) => r == Err::<(), Error>(e) && final(self)@ == old(self)@,
            },
    {
        push_element(&mut self.elements, field)
    }

    /// The array of the fields, in the order in which they came.
    pub fn end(self) -> (r: Result<Value, Error>)
        ensures
            r matches Ok(value) && value@ == ValueView::Array(self@),
    {
        finish_elements(self.elements)
    }
}

impl View for TupleVariantSerializer {
    type V = Seq<ValueView>;

    /// The fields collected so far.
    closed spec fn view(&self) -> Seq<ValueView> {
        views_of(self.elements@)
    }
}

impl TupleVariantSerializer {
    /// An accumulator without fields.
    pub fn new() -> (tuple: TupleVariantSerializer)
        ensures
            tuple@.len() == 0,
    {
        TupleVariantSerializer { elements: Vec::new() }
    }

    /// Adds one field, given as what serializing it gave.
    pub fn serialize_field(&mut self, field: Result<Value, Error>) -> (r: Result<(), Error>)
        ensures
            match field {
                Ok(value) => r is Ok && final(self)@ == old(self)@.push(value@),
                Err(e) => r == Err::<(), Error>(e) && final(self)@ == old(self)@,
            },
    {
        push_element(&mut self.elements, field)
    }

    /// The array of the fields, in the order in which they came.
    pub fn end(self) -> (r: Result<Value, Error>)
        ensures
            r matches Ok(value) && value@ == ValueView::Array(self@),
    {
        finish_elements(self.elements)
    }
}

impl MapSerializer {
    /// The entries collected so far.
    pub closed spec fn entries(&self) -> TableView {
        self.map@
    }

    /// The key that waits for its value.
    pub closed spec fn pending_key(&self) -> Option<Seq<char>> {
        match self.current_key {
            Some(key) => Some(key@),
            None => None,
        }
    }

    /// An accumulator without entries and without a pending key.
    pub fn new() -> (map: MapSerializer)
        ensures
            map.entries().len() == 0,
            map.pending_key() is None,
    {
        MapSerializer { map: Table::new(), current_key: None }
    }

    /// Whether a key waits for its value.
    pub fn has_pending_key(&self) -> (b: bool)
        ensures
            b == self.pending_key().is_some(),
    {
        self.current_key.is_some()
    }

    /// Takes the key of the next entry, given as what serializing it gave.
    /// Only a string can be a key.
    pub fn serialize_key(&mut self, key: Result<Value, Error>) -> (r: Result<(), Error>)
        ensures
            final(self).entries() == old(self).entries(),
            match key {
                Ok(Value::String(text)) => r is Ok && final(self).pending_key() == Some(text@),
                Ok(_) => r matches Err(e) && e@ == ErrorView::NonStringKey
                    && final(self).pending_key() == old(self).pending_key(),
                Err(e) => r == Err::<(), Error>(e) && final(self).pending_key() == old(self).pending_key(),
            },
    {
        match key {
            Ok(Value::String(text)) => {
                self.current_key = Some(text);
                Ok(())
            },
            Ok(_) => Err(Error::NonStringKey),
            Err(e) => Err(e),
        }
    }

    /// Takes the value of the entry whose key came last, given as what
    /// serializing it gave, and stores the entry. Without a pending key this
    /// is an error, whatever the value.
    pub fn serialize_value(&mut self, value: Result<Value, Error>) -> (r: Result<(), Error>)
        ensures
            match (old(self).pending_key(), value) {
                (None, _) => r matches Err(e) && e@ == ErrorView::MissingKey && final(self).entries() == old(self).entries() && final(self).pending_key() is None,
                (Some(key), Err(e)) => r == Err::<(), Error>(e) && final(self).entries() == old(self).entries() && final(self).pending_key() == Some(key),
                (Some(key), Ok(v)) => r is Ok && final(self).entries() == insert_entry(
                    old(self).entries(),
                    key,
                    v@,
                ) && final(self).pending_key() is None,
            },
    {
        if self.current_key.is_none() {
            return Err(Error::MissingKey);
        }
        match value {
            Err(e) => Err(e),
            Ok(v) => {
                let key = self.current_key.take().unwrap();
                self.map.insert(key, v);
                Ok(())
            },
        }
    }

    /// Takes one entry: its key, then its value.
    pub fn serialize_entry(&mut self, key: Result<Value, Error>, value: Result<Value, Error>) -> (r:
        Result<(), Error>)
        ensures
            match (key, value) {
                (Ok(Value::String(text)), Ok(v)) => r is Ok && final(self).entries()
                    == insert_entry(old(self).entries(), text@, v@) && final(self).pending_key()
                    is None,
                (Ok(Value::String(text)), Err(e)) => r == Err::<(), Error>(e) && final(self).entries() == old(self).entries() && final(self).pending_key() == Some(text@),
                (Ok(_), _) => r matches Err(e) && e@ == ErrorView::NonStringKey && final(self).entries() == old(self).entries() && final(self).pending_key() == old(self).pending_key(),
                (Err(e), _) => r == Err::<(), Error>(e) && final(self).entries() == old(self).entries() && final(self).pending_key() == old(self).pending_key(),
            },
    {
        match self.serialize_key(key) {
            Err(e) => Err(e),
            Ok(()) => self.serialize_value(value),
        }
    }

    /// The table of the entries. A key that never got its value is dropped.
    pub fn end(self) -> (r: Result<Value, Error>)
        ensures
            r matches Ok(value) && value@ == ValueView::Table(self.entries()),
    {
        Ok(Value::Table(self.map))
    }
}

impl View for StructSerializer {
    type V = ValueView;

    /// What the struct amounts to so far: `Null` before the first field.
    closed spec fn view(&self) -> ValueView {
        self.fields@
    }
}

impl StructSerializer {
    /// An accumulator without fields.
    pub fn new() -> (fields: StructSerializer)
        ensures
            fields@ == ValueView::Null,
    {
        StructSerializer { fields: Value::Null }
    }

    /// Adds the field `key`, given as what serializing its value gave. The
    /// date-time field replaces whatever was collected; any other field
    /// joins the table of fields.
    pub fn serialize_field(&mut self, key: &str, value: Result<Value, Error>) -> (r: Result<
        (),
        Error,
    >)
        ensures
            match value {
                Ok(v) => r is Ok && final(self)@ == with_field(old(self)@, key@, v@),
                Err(e) => r == Err::<(), Error>(e) && final(self)@ == old(self)@,
            },
    {
        let serialized_value = match value {
            Ok(v) => v,
            Err(e) => {
                return Err(e);
            },
        };
        if key.eq("$__toml_private_datetime") {
            self.fields = serialized_value;
            return Ok(());
        }
        let mut current = Value::Null;
        std::mem::swap(&mut self.fields, &mut current);
        match current {
            Value::Null => {
                let mut map = Table::new();
                map.insert(key.to_owned(), serialized_value);
                assert(map@ =~= seq![(key@, serialized_value@)]);
                self.fields = Value::Table(map);
            },
            Value::Table(mut t) => {
                t.insert(key.to_owned(), serialized_value);
                self.fields = Value::Table(t);
            },
            other => {
                self.fields = other;
            },
        }
        Ok(())
    }

    /// What the fields amount to: their table, the value of the date-time
    /// field, or `Null` where no field came.
    pub fn end(self) -> (r: Result<Value, Error>)
        ensures
            r matches Ok(value) && value@ == self@,
    {
        Ok(self.fields)
    }
}

impl StructVariantSerializer {
    /// The name of the variant.
    pub closed spec fn variant(&self) -> Seq<char> {
        self.variant@
    }

    /// The fields collected so far.
    pub closed spec fn fields(&self) -> TableView {
        self.fields@
    }

    /// An accumulator for the fields of the variant `variant`.
    pub fn new(variant: String) -> (fields: StructVariantSerializer)
        ensures
            fields.variant() == variant@,
            fields.fields().len() == 0,
    {
        StructVariantSerializer { variant, fields: Table::new() }
    }

    /// Adds the field `key`, given as what serializing its value gave.
    pub fn serialize_field(&mut self, key: &str, value: Result<Value, Error>) -> (r: Result<
        (),
        Error,
    >)
        ensures
            final(self).variant() == old(self).variant(),
            match value {
                Ok(v) => r is Ok && final(self).fields() == insert_entry(
                    old(self).fields(),
                    key@,
                    v@,
                ),
                Err(e) => r == Err::<(), Error>(e) && final(self).fields() == old(self).fields(),
            },
    {
        match value {
            Ok(v) => {
                self.fields.insert(key.to_owned(), v);
                Ok(())
            },
            Err(e) => Err(e),
        }
    }

    /// A table with one entry: under the variant's name, the table of the
    /// fields.
    pub fn end(self) -> (r: Result<Value, Error>)
        ensures
            r matches Ok(value) && value@ == ValueView::Table(
                seq![(self.variant(), ValueView::Table(self.fields()))],
            ),
    {
        let mut outer = Table::new();
        outer.insert(self.variant, Value::Table(self.fields));
        assert(outer@ =~= seq![(self.variant(), ValueView::Table(self.fields()))]);
        Ok(Value::Table(outer))
    }
}

/// Feeds the items of an array to a sequence accumulator, each item through
/// the bridge first.
fn serialize_items(items: &Vec<Value>, serializer: ValueSerializer) -> (r: Result<Value, Error>)
    ensures
        r matches Ok(copy) && copy@ == ValueView::Array(views_of(items@)),
    decreases items,
{
    let mut seq = match serializer.serialize_seq(Some(items.len())) {
        Ok(seq) => seq,
        Err(e) => {
            return Err(e);
        },
    };
    let mut i: usize = 0;
    while i < items.len()
        invariant
            i <= items@.len(),
            seq@ == views_of(items@).take(i as int),
        decreases items@.len() - i,
    {
        match seq.serialize_element(items[i].serialize(ValueSerializer)) {
            Ok(()) => {},
            Err(e) => {
                return Err(e);
            },
        }
        assert(views_of(items@).take(i + 1) =~= views_of(items@).take(i as int).push(
            items@[i as int]@,
        ));
        i += 1;
    }
    assert(views_of(items@).take(items@.len() as int) =~= views_of(items@));
    seq.end()
}

/// Feeds the entries of a table to a map accumulator, each key and each
/// value through the bridge first.
fn serialize_entries(table: &Table, serializer: ValueSerializer) -> (r: Result<Value, Error>)
    ensures
        r matches Ok(copy) && copy@ == ValueView::Table(table@),
    decreases table,
{
    let mut map = match serializer.serialize_map(Some(table.len())) {
        Ok(map) => map,
        Err(e) => {
            return Err(e);
        },
    };
    proof {
        table.lemma_entries();
        assert(map.entries() =~= table@.take(0));
    }
    let mut i: usize = 0;
    while i < table.entries.len()
        invariant
            i <= table.entries@.len(),
            table@.len() == table.entries@.len(),
            distinct_keys(table@),
            forall|k: int|
                0 <= k < table.entries@.len() ==> #[trigger] table@[k] == (
                    table.entries@[k].0@,
                    table.entries@[k].1@,
                ),
            map.entries() == table@.take(i as int),
            map.pending_key() is None,
        decreases table.entries@.len() - i,
    {
        let key = ValueSerializer.serialize_str(table.entries[i].0.as_str());
        let value = table.entries[i].1.serialize(ValueSerializer);
        proof {
            let sofar = table@.take(i as int);
            let name = table@[i as int].0;
            if has_key(sofar, name) {
                let k = choose|k: int| 0 <= k < sofar.len() && (#[trigger] sofar[k]).0 == name;
                assert(table@[k].0 != table@[i as int].0);
            }
            assert(table@.take(i + 1) =~= sofar.push(table@[i as int]));
        }
        match map.serialize_entry(key, value) {
            Ok(()) => {},
            Err(e) => {
                return Err(e);
            },
        }
        i += 1;
    }
    assert(table@.take(table@.len() as int) =~= table@);
    map.end()
}

impl Value {
    /// Feeds this tree through the bridge, node by node: scalars to the
    /// entry points of their shapes, arrays to a sequence accumulator, tables
    /// to a map accumulator. What comes out is a tree equal to this one.
    pub fn serialize(&self, serializer: ValueSerializer) -> (r: Result<Value, Error>)
        ensures
            r matches Ok(copy) && copy@ == self@,
        decreases self,
    {
        match self {
            Value::Null => serializer.serialize_none(),
            Value::Boolean(b) => serializer.serialize_bool(*b),
            Value::Integer(i) => serializer.serialize_i64(*i),
            Value::Float(f) => serializer.serialize_f64(*f),
            Value::String(s) => serializer.serialize_str(s.as_str()),
            Value::Array(items) => {
                proof {
                    lemma_array_view(*items);
                }
                serialize_items(items, serializer)
            },
            Value::Table(table) => serialize_entries(table, serializer),
        }
    }
}

} // verus!
