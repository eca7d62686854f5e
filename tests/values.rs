use decoder::{decode, encode};
use decoder::{Decoder, Duration, Error, Unexpected, Value};
use std::cmp::Ordering;

#[test]
fn scalars_round_trip() {
    assert_eq!(decode::bool(encode::bool(true)).unwrap(), true);
    assert_eq!(decode::u8(encode::u8(200)).unwrap(), 200);
    assert_eq!(decode::u16(encode::u16(60000)).unwrap(), 60000);
    assert_eq!(decode::u32(encode::u32(4_000_000_000)).unwrap(), 4_000_000_000);
    assert_eq!(decode::u64(encode::u64(u64::MAX)).unwrap(), u64::MAX);
    assert_eq!(decode::i8(encode::i8(-128)).unwrap(), -128);
    assert_eq!(decode::i16(encode::i16(-30000)).unwrap(), -30000);
    assert_eq!(decode::i32(encode::i32(i32::MIN)).unwrap(), i32::MIN);
    assert_eq!(decode::i64(encode::i64(i64::MIN)).unwrap(), i64::MIN);
    let single = 1.5f32.to_bits();
    assert_eq!(decode::f32_bits(encode::f32_bits(single)).unwrap(), single);
    let double = (-0.25f64).to_bits();
    assert_eq!(decode::f64_bits(encode::f64_bits(double)).unwrap(), double);
    assert_eq!(decode::string(encode::string("héllo")).unwrap(), "héllo");
}

#[test]
fn integers_decode_across_kinds_within_range() {
    assert_eq!(decode::u8(Value::I64(7)).unwrap(), 7);
    assert_eq!(decode::i64(Value::U64(9)).unwrap(), 9);
    assert_eq!(decode::u32(Value::U64(32)).unwrap(), 32);
    assert!(matches!(
        decode::u8(Value::U64(300)),
        Err(Error::InvalidType { expected: "u8", got: Unexpected::Unsigned(300) })
    ));
    assert!(matches!(
        decode::i8(Value::I64(-129)),
        Err(Error::InvalidType { expected: "i8", got: Unexpected::Signed(-129) })
    ));
    assert!(matches!(
        decode::u64(Value::I8(-1)),
        Err(Error::InvalidType { expected: "u64", got: Unexpected::Signed(-1) })
    ));
}

#[test]
fn wrong_kinds_are_invalid_types() {
    assert!(matches!(
        decode::bool(Value::U8(1)),
        Err(Error::InvalidType { expected: "bool", got: Unexpected::Unsigned(1) })
    ));
    match decode::u8(Value::String("12".to_owned())) {
        Err(Error::InvalidType { expected: "u8", got: Unexpected::Str(s) }) => assert_eq!(s, "12"),
        _ => panic!("expected an invalid type"),
    }
    assert!(matches!(
        decode::f64_bits(encode::f32_bits(0)),
        Err(Error::InvalidType { expected: "f64", got: Unexpected::Float32(0) })
    ));
    assert!(matches!(
        decode::string(Value::Unit),
        Err(Error::InvalidType { expected: "string", got: Unexpected::Unit })
    ));
    assert!(matches!(
        decode::str(&Value::Bytes(vec![1, 2])),
        Err(Error::InvalidType { expected: "string", got: Unexpected::Bytes(_) })
    ));
    assert!(matches!(
        decode::map(Value::Sequence(vec![])),
        Err(Error::InvalidType { expected: "map", got: Unexpected::Sequence })
    ));
}

#[test]
fn a_character_decodes_as_a_string() {
    assert_eq!(decode::string(Value::Char('é')).unwrap(), "é");
    assert_eq!(decode::str(&Value::String("abc".to_owned())).unwrap(), "abc");
}

#[test]
fn sequence_of_a_non_sequence_is_an_invalid_type() {
    let result = decode::sequence(decode::u8).run(Value::Bool(true));
    assert!(matches!(
        result,
        Err(Error::InvalidType { expected: "sequence", got: Unexpected::Bool(true) })
    ));
    let result = decode::sequence(decode::u8).run(Value::Mapping(vec![]));
    assert!(matches!(
        result,
        Err(Error::InvalidType { expected: "sequence", got: Unexpected::Mapping })
    ));
}

#[test]
fn sequence_decodes_in_order_and_stops_at_the_first_failure() {
    let items = Value::Sequence(vec![Value::U8(1), Value::U64(2), Value::I32(3)]);
    assert_eq!(decode::sequence(decode::u8).run(items).unwrap(), vec![1, 2, 3]);
    let items = Value::Sequence(vec![Value::U8(1), Value::Bool(false), Value::String("x".to_owned())]);
    assert!(matches!(
        decode::sequence(decode::u8).run(items),
        Err(Error::InvalidType { expected: "u8", got: Unexpected::Bool(false) })
    ));
    assert_eq!(decode::sequence(decode::u8).run(Value::Sequence(vec![])).unwrap(), Vec::<u8>::new());
}

#[test]
fn optional_decoder_handles_unit_options_and_bare_values() {
    let d = decode::optional(decode::u8);
    assert_eq!(d.run(Value::Unit).unwrap(), None);
    assert_eq!(d.run(Value::Option(None)).unwrap(), None);
    assert_eq!(d.run(Value::Option(Some(Box::new(Value::U8(5))))).unwrap(), Some(5));
    assert_eq!(d.run(Value::U8(6)).unwrap(), Some(6));
    assert!(matches!(d.run(Value::Bool(true)), Err(Error::InvalidType { expected: "u8", .. })));
}

#[test]
fn absence_round_trips_through_optional() {
    let encoded = encode::optional(encode::u8, None);
    assert_eq!(encoded, Value::Option(None));
    assert_eq!(decode::optional(decode::u8).run(encoded).unwrap(), None);
    let encoded = encode::optional(encode::u8, Some(4));
    assert_eq!(encoded, Value::Option(Some(Box::new(Value::U8(4)))));
    assert_eq!(decode::optional(decode::u8).run(encoded).unwrap(), Some(4));
}

#[test]
fn encode_sequence_applies_the_encoder_in_order() {
    let v = encode::sequence(encode::u16, vec![3, 1, 2]);
    assert_eq!(v, Value::Sequence(vec![Value::U16(3), Value::U16(1), Value::U16(2)]));
    assert_eq!(encode::sequence(encode::u16, vec![]), Value::Sequence(vec![]));
}

#[test]
fn duration_round_trips() {
    let d = Duration::new(5, 1_500_000_000);
    assert_eq!(d.as_secs(), 6);
    assert_eq!(d.subsec_nanos(), 500_000_000);
    let encoded = encode::duration(d);
    assert_eq!(
        encoded,
        Value::Mapping(vec![
            (Value::String("secs".to_owned()), Value::U64(6)),
            (Value::String("nanos".to_owned()), Value::U32(500_000_000)),
        ])
    );
    assert_eq!(decode::duration(encoded).unwrap(), d);
}

#[test]
fn duration_decoding_errors() {
    let missing = Value::Mapping(vec![(Value::String("secs".to_owned()), Value::U64(1))]);
    assert!(matches!(decode::duration(missing), Err(Error::FieldMissing { .. })));
    let overflow = Value::Mapping(vec![
        (Value::String("secs".to_owned()), Value::U64(u64::MAX)),
        (Value::String("nanos".to_owned()), Value::U32(1_000_000_000)),
    ]);
    assert!(matches!(decode::duration(overflow), Err(Error::Custom(_))));
    let carried = Value::Mapping(vec![
        (Value::String("nanos".to_owned()), Value::U64(2_000_000_001)),
        (Value::String("secs".to_owned()), Value::I32(3)),
    ]);
    let d = decode::duration(carried).unwrap();
    assert_eq!((d.as_secs(), d.subsec_nanos()), (5, 1));
    assert!(matches!(decode::duration(Value::Unit), Err(Error::InvalidType { expected: "map", .. })));
}

#[test]
fn values_of_different_kinds_compare_by_rank() {
    let ranked = vec![
        Value::Bool(true),
        Value::U8(0),
        Value::U16(0),
        Value::U32(0),
        Value::U64(0),
        Value::I8(0),
        Value::I16(0),
        Value::I32(0),
        Value::I64(0),
        Value::F32(0),
        Value::F64(0),
        Value::Char('a'),
        Value::String(String::new()),
        Value::Unit,
        Value::Option(None),
        Value::Newtype(Box::new(Value::Unit)),
        Value::Sequence(vec![]),
        Value::Mapping(vec![]),
        Value::Bytes(vec![]),
    ];
    for (i, a) in ranked.iter().enumerate() {
        for (j, b) in ranked.iter().enumerate() {
            assert_eq!(a.partial_cmp(b), Some(i.cmp(&j)));
            assert_eq!(a.cmp(b), i.cmp(&j));
        }
    }
    let high = Value::Bool(true);
    let low = Value::U8(255);
    assert!(high < low);
}

#[test]
fn comparison_is_transitive_across_mixed_kinds() {
    let a = Value::U64(u64::MAX);
    let b = Value::I8(-100);
    let c = Value::String("a".to_owned());
    assert!(a < b && b < c && a < c);
    let mut mixed = vec![c.clone(), Value::Unit, b.clone(), a.clone(), Value::U64(1)];
    mixed.sort();
    assert_eq!(mixed, vec![Value::U64(1), a, b, c, Value::Unit]);
}

#[test]
fn same_kind_values_compare_by_payload() {
    assert_eq!(Value::I32(-5).partial_cmp(&Value::I32(3)), Some(Ordering::Less));
    assert_eq!(Value::String("ab".to_owned()).partial_cmp(&Value::String("b".to_owned())), Some(Ordering::Less));
    assert_eq!(Value::String("ab".to_owned()).partial_cmp(&Value::String("a".to_owned())), Some(Ordering::Greater));
    assert_eq!(Value::String("é".to_owned()).partial_cmp(&Value::String("z".to_owned())), Some(Ordering::Greater));
    assert_eq!(Value::Bytes(vec![1, 2]).partial_cmp(&Value::Bytes(vec![1, 2])), Some(Ordering::Equal));
    assert_eq!(Value::Option(None).partial_cmp(&Value::Option(Some(Box::new(Value::Unit)))), Some(Ordering::Less));
    let s1 = Value::Sequence(vec![Value::U8(1), Value::U8(2)]);
    let s2 = Value::Sequence(vec![Value::U8(1), Value::U8(3)]);
    let s3 = Value::Sequence(vec![Value::U8(1)]);
    assert_eq!(s1.partial_cmp(&s2), Some(Ordering::Less));
    assert_eq!(s3.partial_cmp(&s1), Some(Ordering::Less));
    let m1 = Value::Mapping(vec![(Value::U8(1), Value::U8(9))]);
    let m2 = Value::Mapping(vec![(Value::U8(1), Value::U8(10))]);
    assert_eq!(m1.partial_cmp(&m2), Some(Ordering::Less));
    assert_eq!(m1.cmp(&m2), Ordering::Less);
}

fn float(x: f64) -> Value {
    encode::f64_bits(x.to_bits())
}

fn single(x: f32) -> Value {
    encode::f32_bits(x.to_bits())
}

#[test]
fn floats_compare_by_value_in_total_order() {
    assert!(float(-1.0) < float(1.0));
    assert!(float(-2.0) < float(-1.0));
    assert!(float(1.0) < float(2.5));
    assert!(float(f64::NEG_INFINITY) < float(f64::MIN));
    assert!(float(f64::MAX) < float(f64::INFINITY));
    assert!(float(f64::INFINITY) < float(f64::NAN));
    assert!(float(-f64::NAN) < float(f64::NEG_INFINITY));
    assert!(float(-0.0) < float(0.0));
    assert_ne!(float(-0.0), float(0.0));
    assert_eq!(float(f64::NAN), float(f64::NAN));
    assert_eq!(float(-1.0).cmp(&float(1.0)), Ordering::Less);
    assert!(single(-3.0) < single(-0.5));
    assert!(single(-0.5) < single(0.0));
    assert!(single(0.0) < single(7.0));
    let mut xs = vec![float(3.0), float(-1.5), float(0.0), float(-7.0), float(-0.0)];
    xs.sort();
    assert_eq!(xs, vec![float(-7.0), float(-1.5), float(-0.0), float(0.0), float(3.0)]);
}

#[test]
fn float_bits_round_trip_with_the_sign_of_zero() {
    for x in [0.0f64, -0.0, 1.0, -1.0, f64::MIN_POSITIVE, f64::INFINITY, f64::NEG_INFINITY] {
        assert_eq!(decode::f64_bits(float(x)).unwrap(), x.to_bits());
    }
    let nan = f64::NAN.to_bits();
    assert_eq!(decode::f64_bits(encode::f64_bits(nan)).unwrap(), nan);
    for x in [0.0f32, -0.0, 1.5, -2.25, f32::MAX, f32::NEG_INFINITY] {
        assert_eq!(decode::f32_bits(single(x)).unwrap(), x.to_bits());
    }
    // The payload is the order key, not the bit pattern.
    assert_eq!(float(1.0), Value::F64(1.0f64.to_bits() | (1 << 63)));
    assert_eq!(float(-1.0), Value::F64(!(-1.0f64).to_bits()));
}

#[test]
fn maps_compare_in_iteration_order() {
    let ab = Value::Mapping(vec![
        (Value::String("a".to_owned()), Value::U8(1)),
        (Value::String("b".to_owned()), Value::U8(2)),
    ]);
    let ba = Value::Mapping(vec![
        (Value::String("b".to_owned()), Value::U8(2)),
        (Value::String("a".to_owned()), Value::U8(1)),
    ]);
    assert_ne!(ab, ba);
    assert_eq!(ab.partial_cmp(&ba), Some(Ordering::Less));
}

#[test]
fn clone_and_equality_are_deep() {
    let v = Value::Mapping(vec![(
        Value::String("k".to_owned()),
        Value::Sequence(vec![Value::Option(Some(Box::new(Value::Bytes(vec![1, 2, 3])))), Value::Char('x')]),
    )]);
    let w = v.clone();
    assert_eq!(v, w);
    assert_ne!(v, Value::Mapping(vec![]));
    assert_ne!(Value::Sequence(vec![Value::U8(1)]), Value::Sequence(vec![Value::U8(2)]));
    assert_ne!(Value::U8(1), Value::U16(1));
}

#[test]
fn unexpected_describes_the_value() {
    assert!(matches!(Value::U16(7).unexpected(), Unexpected::Unsigned(7)));
    assert!(matches!(Value::I16(-7).unexpected(), Unexpected::Signed(-7)));
    assert!(matches!(Value::Newtype(Box::new(Value::Unit)).unexpected(), Unexpected::NewtypeStruct));
    assert!(matches!(Value::Option(None).unexpected(), Unexpected::Option));
    assert!(matches!(encode::f64_bits(3).unexpected(), Unexpected::Float64(3)));
    assert!(matches!(encode::f32_bits(1 << 31).unexpected(), Unexpected::Float32(0x8000_0000)));
    match Value::Bytes(vec![4, 5]).unexpected() {
        Unexpected::Bytes(b) => assert_eq!(b, vec![4, 5]),
        _ => panic!("expected bytes"),
    }
}

#[test]
fn custom_errors_carry_their_message() {
    match Error::custom("bad input") {
        Error::Custom(message) => assert_eq!(message, "bad input"),
        _ => panic!("expected a custom error"),
    }
    match Error::custom(42) {
        Error::Custom(message) => assert_eq!(message, "42"),
        _ => panic!("expected a custom error"),
    }
}
