use realme::errors::Error;
use realme::value::ser::{
    MapSerializer, SeqSerializer, StructSerializer, StructVariantSerializer, TupleSerializer,
    TupleStructSerializer, TupleVariantSerializer, ValueSerializer,
};
use realme::value::{Table, Value};

fn text(s: &str) -> Value {
    Value::String(s.to_string())
}

fn table(entries: Vec<(&str, Value)>) -> Value {
    Value::Table(Table::from_entries(
        entries.into_iter().map(|(k, v)| (k.to_string(), v)).collect(),
    ))
}

#[test]
fn scalars_map_to_their_variants() {
    assert_eq!(ValueSerializer.serialize_bool(true).unwrap(), Value::Boolean(true));
    assert_eq!(ValueSerializer.serialize_i8(-8).unwrap(), Value::Integer(-8));
    assert_eq!(ValueSerializer.serialize_i16(i16::MIN).unwrap(), Value::Integer(-32768));
    assert_eq!(ValueSerializer.serialize_i32(i32::MAX).unwrap(), Value::Integer(2147483647));
    assert_eq!(ValueSerializer.serialize_i64(i64::MIN).unwrap(), Value::Integer(i64::MIN));
    assert_eq!(ValueSerializer.serialize_u8(255).unwrap(), Value::Integer(255));
    assert_eq!(ValueSerializer.serialize_u16(65535).unwrap(), Value::Integer(65535));
    assert_eq!(ValueSerializer.serialize_u32(u32::MAX).unwrap(), Value::Integer(4294967295));
    assert_eq!(
        ValueSerializer.serialize_f64(1.5f64.to_bits()).unwrap(),
        Value::Float(0x3ff8_0000_0000_0000)
    );
    assert_eq!(ValueSerializer.serialize_char('x').unwrap(), text("x"));
    assert_eq!(ValueSerializer.serialize_str("hello").unwrap(), text("hello"));
}

#[test]
fn u64_within_the_signed_range_is_an_integer() {
    assert_eq!(ValueSerializer.serialize_u64(0).unwrap(), Value::Integer(0));
    assert_eq!(
        ValueSerializer.serialize_u64(i64::MAX as u64).unwrap(),
        Value::Integer(i64::MAX)
    );
}

#[test]
fn u64_beyond_the_signed_range_is_an_error() {
    for v in [i64::MAX as u64 + 1, u64::MAX] {
        match ValueSerializer.serialize_u64(v) {
            Err(Error::OutOfRange(carried)) => assert_eq!(carried, v),
            other => panic!("{:?}", other),
        }
    }
    assert_eq!(Error::OutOfRange(u64::MAX).message(), "u64 value convert failed");
}

#[test]
fn bytes_are_decoded_leniently() {
    assert_eq!(ValueSerializer.serialize_bytes(b"caf\xc3\xa9").unwrap(), text("caf\u{e9}"));
    assert_eq!(ValueSerializer.serialize_bytes(b"a\xffb").unwrap(), text("a\u{fffd}b"));
    assert_eq!(ValueSerializer.serialize_bytes(b"").unwrap(), text(""));
}

#[test]
fn units_and_none_are_null() {
    assert_eq!(ValueSerializer.serialize_none().unwrap(), Value::Null);
    assert_eq!(ValueSerializer.serialize_unit().unwrap(), Value::Null);
    assert_eq!(ValueSerializer.serialize_unit_struct("Marker").unwrap(), Value::Null);
    assert_eq!(ValueSerializer.serialize_unit_variant("E", 1, "B").unwrap(), Value::Null);
}

#[test]
fn wrappers_are_transparent() {
    assert_eq!(ValueSerializer.serialize_some(Ok(Value::Integer(3))).unwrap(), Value::Integer(3));
    assert_eq!(
        ValueSerializer.serialize_newtype_struct("Meters", Ok(Value::Integer(3))).unwrap(),
        Value::Integer(3)
    );
    assert_eq!(
        ValueSerializer.serialize_newtype_variant("E", 0, "A", Ok(text("x"))).unwrap(),
        text("x")
    );
    assert!(matches!(
        ValueSerializer.serialize_some(Err(Error::NonStringKey)),
        Err(Error::NonStringKey)
    ));
}

#[test]
fn sequence_keeps_its_elements_in_order() {
    let mut seq = ValueSerializer.serialize_seq(Some(3)).unwrap();
    seq.serialize_element(Ok(Value::Integer(1))).unwrap();
    seq.serialize_element(Ok(text("two"))).unwrap();
    seq.serialize_element(Ok(Value::Null)).unwrap();
    assert_eq!(
        seq.end().unwrap(),
        Value::Array(vec![Value::Integer(1), text("two"), Value::Null])
    );
    assert_eq!(SeqSerializer::new().end().unwrap(), Value::Array(vec![]));
}

#[test]
fn sequence_hands_an_error_through() {
    let mut seq = SeqSerializer::new();
    seq.serialize_element(Ok(Value::Integer(1))).unwrap();
    let failed = seq.serialize_element(ValueSerializer.serialize_u64(u64::MAX));
    assert!(matches!(failed, Err(Error::OutOfRange(u64::MAX))));
    assert_eq!(seq.end().unwrap(), Value::Array(vec![Value::Integer(1)]));
}

#[test]
fn tuples_keep_their_elements_like_sequences() {
    let mut tuple = TupleSerializer::new();
    tuple.serialize_element(Ok(Value::Integer(1))).unwrap();
    tuple.serialize_element(Ok(Value::Boolean(false))).unwrap();
    assert_eq!(
        tuple.end().unwrap(),
        Value::Array(vec![Value::Integer(1), Value::Boolean(false)])
    );

    let mut tuple = TupleStructSerializer::new();
    tuple.serialize_field(Ok(text("a"))).unwrap();
    tuple.serialize_field(Ok(text("b"))).unwrap();
    assert_eq!(tuple.end().unwrap(), Value::Array(vec![text("a"), text("b")]));

    let mut tuple = TupleVariantSerializer::new();
    tuple.serialize_field(Ok(Value::Integer(7))).unwrap();
    assert!(tuple.serialize_field(Err(Error::MissingKey)).is_err());
    assert_eq!(tuple.end().unwrap(), Value::Array(vec![Value::Integer(7)]));

    assert_eq!(ValueSerializer.serialize_tuple(2).unwrap().end().unwrap(), Value::Array(vec![]));
    assert_eq!(
        ValueSerializer.serialize_tuple_struct("P", 2).unwrap().end().unwrap(),
        Value::Array(vec![])
    );
    assert_eq!(
        ValueSerializer.serialize_tuple_variant("E", 0, "V", 2).unwrap().end().unwrap(),
        Value::Array(vec![])
    );
}

#[test]
fn map_collects_entries_in_order() {
    let mut map = ValueSerializer.serialize_map(None).unwrap();
    map.serialize_key(Ok(text("b"))).unwrap();
    assert!(map.has_pending_key());
    map.serialize_value(Ok(Value::Integer(2))).unwrap();
    assert!(!map.has_pending_key());
    map.serialize_entry(Ok(text("a")), Ok(Value::Integer(1))).unwrap();
    map.serialize_entry(Ok(text("b")), Ok(Value::Integer(3))).unwrap();
    let result = map.end().unwrap();
    match &result {
        Value::Table(t) => {
            assert_eq!(t.len(), 2);
            assert_eq!(t.key_at(0), "b");
            assert_eq!(t.value_at(0), &Value::Integer(3));
            assert_eq!(t.key_at(1), "a");
        }
        _ => panic!("not a table"),
    }
}

#[test]
fn map_with_a_non_string_key_is_an_error() {
    let mut map = MapSerializer::new();
    for key in [Value::Integer(1), Value::Null, Value::Boolean(true), Value::Array(vec![])] {
        let failed = map.serialize_key(Ok(key));
        assert!(matches!(failed, Err(Error::NonStringKey)));
    }
    assert!(!map.has_pending_key());
    assert!(matches!(
        map.serialize_entry(Ok(Value::Integer(1)), Ok(Value::Null)),
        Err(Error::NonStringKey)
    ));
    assert_eq!(map.end().unwrap(), table(vec![]));
    assert_eq!(Error::NonStringKey.message(), "Only string keys are supported");
}

#[test]
fn map_value_without_a_key_is_an_error() {
    let mut map = MapSerializer::new();
    assert!(matches!(map.serialize_value(Ok(Value::Null)), Err(Error::MissingKey)));
    assert!(matches!(map.serialize_value(Err(Error::NonStringKey)), Err(Error::MissingKey)));
    map.serialize_entry(Ok(text("k")), Ok(Value::Null)).unwrap();
    assert!(matches!(map.serialize_value(Ok(Value::Null)), Err(Error::MissingKey)));
    assert_eq!(map.end().unwrap(), table(vec![("k", Value::Null)]));
    assert_eq!(Error::MissingKey.message(), "No current key");
}

#[test]
fn map_keeps_its_key_when_the_value_fails() {
    let mut map = MapSerializer::new();
    map.serialize_key(Ok(text("k"))).unwrap();
    assert!(matches!(
        map.serialize_value(Err(Error::OutOfRange(u64::MAX))),
        Err(Error::OutOfRange(u64::MAX))
    ));
    assert!(map.has_pending_key());
    map.serialize_value(Ok(Value::Integer(1))).unwrap();
    assert_eq!(map.end().unwrap(), table(vec![("k", Value::Integer(1))]));
}

#[test]
fn struct_collects_named_fields() {
    let mut fields = ValueSerializer.serialize_struct("User", 2).unwrap();
    fields.serialize_field("int", Ok(Value::Integer(1))).unwrap();
    fields.serialize_field("seq", Ok(Value::Array(vec![text("a"), text("b")]))).unwrap();
    assert_eq!(
        fields.end().unwrap(),
        table(vec![("int", Value::Integer(1)), ("seq", Value::Array(vec![text("a"), text("b")]))])
    );
    assert_eq!(StructSerializer::new().end().unwrap(), Value::Null);
}

#[test]
fn struct_datetime_field_replaces_the_struct() {
    let mut fields = StructSerializer::new();
    fields.serialize_field("$__toml_private_datetime", Ok(text("2024-02-20T12:00:00Z"))).unwrap();
    assert_eq!(fields.end().unwrap(), text("2024-02-20T12:00:00Z"));

    let mut fields = StructSerializer::new();
    fields.serialize_field("a", Ok(Value::Integer(1))).unwrap();
    fields.serialize_field("$__toml_private_datetime", Ok(Value::Integer(9))).unwrap();
    fields.serialize_field("b", Ok(Value::Integer(2))).unwrap();
    assert_eq!(fields.end().unwrap(), Value::Integer(9));
}

#[test]
fn struct_hands_an_error_through() {
    let mut fields = StructSerializer::new();
    fields.serialize_field("a", Ok(Value::Integer(1))).unwrap();
    assert!(matches!(
        fields.serialize_field("b", Err(Error::Custom("no".to_string()))),
        Err(Error::Custom(_))
    ));
    assert_eq!(fields.end().unwrap(), table(vec![("a", Value::Integer(1))]));
}

#[test]
fn struct_variant_is_a_table_under_the_variant_name() {
    let mut fields = ValueSerializer.serialize_struct_variant("Shape", 1, "Rect", 2).unwrap();
    fields.serialize_field("w", Ok(Value::Integer(2))).unwrap();
    fields.serialize_field("h", Ok(Value::Integer(3))).unwrap();
    assert_eq!(
        fields.end().unwrap(),
        table(vec![("Rect", table(vec![("w", Value::Integer(2)), ("h", Value::Integer(3))]))])
    );
    assert_eq!(
        StructVariantSerializer::new("Unit".to_string()).end().unwrap(),
        table(vec![("Unit", table(vec![]))])
    );
}

#[test]
fn a_tree_fed_through_the_bridge_comes_back_equal() {
    let tree = table(vec![
        ("top", table(vec![
            ("num", Value::Integer(1)),
            ("array", Value::Array(vec![Value::Integer(2)])),
            ("nested", Value::Array(vec![Value::Array(vec![Value::Integer(3), Value::Integer(4)])])),
            ("deep", Value::Array(vec![table(vec![("yes", Value::Boolean(true))])])),
            ("mixed", Value::Array(vec![
                table(vec![("boolish", Value::Boolean(false))]),
                Value::Integer(42),
                Value::Array(vec![text("hi")]),
                table(vec![("inner", Value::Integer(66))]),
                Value::Integer(23),
            ])),
            ("ratio", Value::Float(0.25f64.to_bits())),
            ("none", Value::Null),
        ])),
    ]);
    let copy = tree.serialize(ValueSerializer).unwrap();
    assert_eq!(copy, tree);
    match (&copy, &tree) {
        (Value::Table(a), Value::Table(b)) => assert_eq!(a.key_at(0), b.key_at(0)),
        _ => panic!("not tables"),
    }
}
