//! Encode your types.
use vstd::prelude::*;

use crate::decode::{
    as_bool, as_f32, as_f64, as_i16, as_i32, as_i64, as_i8, as_string, as_u16, as_u32, as_u64, as_u8,
};
use crate::fields::{FieldMap, insert_all, keys_unique, lemma_insert_all_fresh};
use crate::time::Duration;
use crate::value::{
    Datum, Value, entries_view, f32_key, f32_order_key, f64_key, f64_order_key,
    lemma_order_keys_bijective,
};

verus! {

/// Encodes a [`bool`](prim@bool).
pub fn bool(value: bool) -> (r: Value)
    ensures
        r == Value::Bool(value),
{
    Value::Bool(value)
}

/// Encodes a [`u8`](prim@u8).
pub fn u8(value: u8) -> (r: Value)
    ensures
        r == Value::U8(value),
{
    Value::U8(value)
}

/// Encodes a [`u16`](prim@u16).
pub fn u16(value: u16) -> (r: Value)
    ensures
        r == Value::U16(value),
{
    Value::U16(value)
}

/// Encodes a [`u32`](prim@u32).
pub fn u32(value: u32) -> (r: Value)
    ensures
        r == Value::U32(value),
{
    Value::U32(value)
}

/// Encodes a [`u64`](prim@u64).
pub fn u64(value: u64) -> (r: Value)
    ensures
        r == Value::U64(value),
{
    Value::U64(value)
}

/// Encodes an [`i8`](prim@i8).
pub fn i8(value: i8) -> (r: Value)
    ensures
        r == Value::I8(value),
{
    Value::I8(value)
}

/// Encodes an [`i16`](prim@i16).
pub fn i16(value: i16) -> (r: Value)
    ensures
        r == Value::I16(value),
{
    Value::I16(value)
}

/// Encodes an [`i32`](prim@i32).
pub fn i32(value: i32) -> (r: Value)
    ensures
        r == Value::I32(value),
{
    Value::I32(value)
}

/// Encodes an [`i64`](prim@i64).
pub fn i64(value: i64) -> (r: Value)
    ensures
        r == Value::I64(value),
{
    Value::I64(value)
}

/// Encodes a 32-bit float given by its IEEE-754 bit pattern.
pub fn f32_bits(bits: u32) -> (r: Value)
    ensures
        r == Value::F32(f32_order_key(bits)),
{
    Value::F32(f32_key(bits))
}

/// Encodes a 64-bit float given by its IEEE-754 bit pattern.
pub fn f64_bits(bits: u64) -> (r: Value)
    ensures
        r == Value::F64(f64_order_key(bits)),
{
    Value::F64(f64_key(bits))
}

/// Encodes a string.
pub fn string(value: &str) -> (r: Value)
    ensures
        r@ == Datum::Str(value@),
{
    Value::String(value.to_owned())
}

/// The contents of named fields: each name as a string key.
pub open spec fn named_entries(fields: Seq<(&str, Value)>) -> Seq<(Datum, Datum)> {
    fields.map_values(|f: (&str, Value)| (Datum::Str(f.0@), f.1@))
}

/// Creates a [`FieldMap`] of fields from the given names and values, in
/// order; a repeated name keeps its first place and its last value.
pub fn map(fields: Vec<(&str, Value)>) -> (r: FieldMap)
    ensures
        keys_unique(r@),
        r@ == insert_all(Seq::empty(), named_entries(fields@)),
{
    let ghost named = named_entries(fields@);
    let mut entries: Vec<(Value, Value)> = Vec::new();
    for field in it: fields
        invariant
            it.seq() == fields@,
            named == named_entries(fields@),
            entries.len() == it.index(),
            entries_view(entries@) == named.subrange(0, entries.len() as int),
    {
        assert(field == fields@[entries.len() as int]);
        let (name, value) = field;
        let key = string(name);
        entries.push((key, value));
        assert(entries_view(entries@) =~= named.subrange(0, entries.len() as int));
    }
    assert(entries_view(entries@) =~= named);
    FieldMap::from_entries(entries)
}

/// Encodes a [`Duration`] as a map of its whole seconds (`secs`) and the
/// nanoseconds beyond them (`nanos`).
pub fn duration(value: Duration) -> (r: Value)
    ensures
        r@ == Datum::Mapping(
            seq![
                (Datum::Str("secs"@), Datum::U64(value@.0)),
                (Datum::Str("nanos"@), Datum::U32(value@.1)),
            ],
        ),
{
    let fields = vec![("secs", u64(value.as_secs())), ("nanos", u32(value.subsec_nanos()))];
    let ghost named = named_entries(fields@);
    proof {
        reveal_strlit("secs");
        reveal_strlit("nanos");
        assert(fields@[0].0@ == "secs"@ && fields@[1].0@ == "nanos"@);
        assert("secs"@.len() != "nanos"@.len());
        assert(named[0].0 != named[1].0);
        assert(keys_unique(Seq::empty() + named));
        lemma_insert_all_fresh(Seq::empty(), named);
        assert(Seq::empty() + named =~= named);
    }
    let m = map(fields);
    let r = m.into_value();
    assert(r@->Mapping_0 =~= seq![
        (Datum::Str("secs"@), Datum::U64(value@.0)),
        (Datum::Str("nanos"@), Datum::U32(value@.1)),
    ]);
    r
}

/// Encodes an optional value using the given encoder, if present.
pub fn optional<T>(f: impl Fn(T) -> Value, value: Option<T>) -> (r: Value)
    requires
        value matches Some(x) ==> f.requires((x,)),
    ensures
        match value {
            Some(x) => r matches Value::Option(Some(inner)) && f.ensures((x,), *inner),
            None => r == Value::Option(None),
        },
{
    match value {
        Some(x) => Value::Option(Some(Box::new(f(x)))),
        None => Value::Option(None),
    }
}

/// Uses the given encoder to encode a sequence of values, in order.
pub fn sequence<T>(f: impl Fn(T) -> Value, items: Vec<T>) -> (r: Value)
    requires
        forall|i: int| 0 <= i < items.len() ==> f.requires((#[trigger] items[i],)),
    ensures
        r matches Value::Sequence(out) && out.len() == items.len() && forall|i: int|
            0 <= i < items.len() ==> f.ensures((items[i],), #[trigger] out[i]),
{
    let ghost all = items@;
    let mut out: Vec<Value> = Vec::new();
    for item in it: items
        invariant
            it.seq() == all,
            all == items@,
            forall|i: int| 0 <= i < all.len() ==> f.requires((#[trigger] all[i],)),
            out.len() == it.index(),
            forall|i: int| 0 <= i < out.len() ==> f.ensures((all[i],), #[trigger] out[i]),
    {
        out.push(f(item));
    }
    Value::Sequence(out)
}

/// Decoding what an encoder produced gives back the input, for every scalar
/// kind: each encoder above returns the value of its kind, and the matching
/// decoder reads the same input back from it.
pub proof fn lemma_scalar_round_trip(
    flag: bool,
    a: u8,
    b: u16,
    c: u32,
    d: u64,
    e: i8,
    f: i16,
    g: i32,
    h: i64,
    single: u32,
    double: u64,
    text: Seq<char>,
)
    ensures
        as_bool(Value::Bool(flag)@) == Some(flag),
        as_u8(Value::U8(a)@) == Some(a),
        as_u16(Value::U16(b)@) == Some(b),
        as_u32(Value::U32(c)@) == Some(c),
        as_u64(Value::U64(d)@) == Some(d),
        as_i8(Value::I8(e)@) == Some(e),
        as_i16(Value::I16(f)@) == Some(f),
        as_i32(Value::I32(g)@) == Some(g),
        as_i64(Value::I64(h)@) == Some(h),
        as_f32(Value::F32(f32_order_key(single))@) == Some(single),
        as_f64(Value::F64(f64_order_key(double))@) == Some(double),
        as_string(Datum::Str(text)) == Some(text),
{
    lemma_order_keys_bijective(single, 0, double, 0);
}

} // verus!
