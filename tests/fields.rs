use decoder::{decode, encode};
use decoder::{Error, FieldMap, Value};

fn key(s: &str) -> Value {
    Value::String(s.to_owned())
}

fn entries(m: FieldMap) -> Vec<(Value, Value)> {
    match m.into_value() {
        Value::Mapping(entries) => entries,
        _ => panic!("a field map becomes a mapping"),
    }
}

#[test]
fn required_takes_a_field_exactly_once() {
    let mut m = encode::map(vec![("a", Value::U8(1)), ("b", Value::U8(2)), ("c", Value::U8(3))]);
    assert_eq!(m.required("b", decode::u8).unwrap(), 2);
    match m.required("b", decode::u8) {
        Err(Error::FieldMissing { key: k, map }) => {
            assert_eq!(k, "b");
            assert_eq!(map, vec![(key("a"), Value::U8(1)), (key("c"), Value::U8(3))]);
        }
        _ => panic!("expected a missing field"),
    }
    assert_eq!(entries(m), vec![(key("a"), Value::U8(1)), (key("c"), Value::U8(3))]);
}

#[test]
fn required_passes_decoder_errors_through() {
    let mut m = encode::map(vec![("a", Value::Bool(true))]);
    assert!(matches!(m.required("a", decode::u8), Err(Error::InvalidType { expected: "u8", .. })));
    assert!(entries(m).is_empty());
}

#[test]
fn optional_treats_absence_and_unit_as_no_value() {
    let mut m = encode::map(vec![("null", Value::Unit), ("n", Value::U8(4))]);
    assert_eq!(m.optional("missing", decode::u8).unwrap(), None);
    assert_eq!(m.optional("null", decode::u8).unwrap(), None);
    assert_eq!(m.optional("n", decode::u8).unwrap(), Some(4));
    assert!(entries(m).is_empty());
}

#[test]
fn optional_passes_decoder_errors_through() {
    let mut m = encode::map(vec![("n", Value::Char('x'))]);
    assert!(matches!(m.optional("n", decode::u8), Err(Error::InvalidType { .. })));
}

#[test]
fn a_missing_optional_field_round_trips_as_no_value() {
    let mut m = encode::map(vec![("name", encode::string("x"))]);
    let value = m.clone().into_value();
    let mut back = decode::map(value).unwrap();
    assert_eq!(back.optional("nickname", decode::string).unwrap(), None);
    assert_eq!(m.optional("nickname", decode::string).unwrap(), None);
    assert_eq!(back.required("name", decode::string).unwrap(), "x");
}

#[test]
fn tag_puts_the_field_first() {
    let m = encode::map(vec![("a", Value::U8(1)), ("b", Value::U8(2))]).tag("type", "point");
    assert_eq!(
        entries(m),
        vec![(key("type"), key("point")), (key("a"), Value::U8(1)), (key("b"), Value::U8(2))]
    );
    let m = encode::map(vec![("a", Value::U8(1)), ("type", Value::U8(2))]).tag("type", "moved");
    assert_eq!(entries(m), vec![(key("type"), key("moved")), (key("a"), Value::U8(1))]);
    let m = FieldMap::new().tag("type", "only");
    assert_eq!(entries(m), vec![(key("type"), key("only"))]);
}

#[test]
fn extend_overwrites_in_place() {
    let base = encode::map(vec![("a", Value::U8(1)), ("b", Value::U8(2)), ("c", Value::U8(3))]);
    let more = encode::map(vec![("d", Value::U8(4)), ("b", Value::U8(20))]);
    assert_eq!(
        entries(base.extend(more)),
        vec![
            (key("a"), Value::U8(1)),
            (key("b"), Value::U8(20)),
            (key("c"), Value::U8(3)),
            (key("d"), Value::U8(4)),
        ]
    );
}

#[test]
fn repeated_keys_keep_their_first_place_and_last_value() {
    let m = FieldMap::from_entries(vec![
        (key("x"), Value::U8(1)),
        (key("y"), Value::U8(2)),
        (key("x"), Value::U8(3)),
    ]);
    assert_eq!(entries(m), vec![(key("x"), Value::U8(3)), (key("y"), Value::U8(2))]);
    let m = encode::map(vec![("k", Value::U8(1)), ("k", Value::U8(2))]);
    assert_eq!(entries(m), vec![(key("k"), Value::U8(2))]);
}

#[test]
fn decode_map_reads_the_entries_in_order() {
    let value = Value::Mapping(vec![(key("b"), Value::U8(1)), (Value::U8(7), Value::Unit)]);
    let m = decode::map(value).unwrap();
    assert_eq!(entries(m), vec![(key("b"), Value::U8(1)), (Value::U8(7), Value::Unit)]);
}

#[test]
fn new_and_default_are_empty() {
    assert!(entries(FieldMap::new()).is_empty());
    assert!(entries(FieldMap::default()).is_empty());
}

#[test]
fn clone_copies_the_entries() {
    let m = encode::map(vec![("a", Value::U8(1)), ("b", Value::Sequence(vec![Value::Unit]))]);
    let copy = m.clone();
    assert_eq!(entries(copy), entries(m));
}

#[test]
fn into_value_keeps_the_order() {
    let m = encode::map(vec![("z", Value::U8(1)), ("a", Value::U8(2))]);
    assert_eq!(
        m.into_value(),
        Value::Mapping(vec![(key("z"), Value::U8(1)), (key("a"), Value::U8(2))])
    );
}
