//! Decode your types.
use vstd::prelude::*;

use crate::error::Error;
use crate::fields::{FieldMap, decodes_present, find, insert_all};
use crate::time::{Duration, NANOS_PER_SEC};
use crate::value::{
    Datum, Value, entries_view, f32_bits_of_key, f32_from_key, f64_bits_of_key, f64_from_key,
};
use crate::Result;

verus! {

/// The integer that a value holds, if it is of an integer kind.
pub open spec fn as_integer(d: Datum) -> Option<int> {
    match d {
        Datum::U8(n) => Some(n as int),
        Datum::U16(n) => Some(n as int),
        Datum::U32(n) => Some(n as int),
        Datum::U64(n) => Some(n as int),
        Datum::I8(n) => Some(n as int),
        Datum::I16(n) => Some(n as int),
        Datum::I32(n) => Some(n as int),
        Datum::I64(n) => Some(n as int),
        _ => None,
    }
}

/// The integer that a value holds, if it is of an integer kind and lies in
/// `lo..=hi`.
pub open spec fn integer_within(d: Datum, lo: int, hi: int) -> Option<int> {
    match as_integer(d) {
        Some(n) => if lo <= n <= hi {
            Some(n)
        } else {
            None
        },
        None => None,
    }
}

/// What [`bool`] decodes from a value with content `d`.
pub open spec fn as_bool(d: Datum) -> Option<bool> {
    match d {
        Datum::Bool(b) => Some(b),
        _ => None,
    }
}

/// What [`u8`] decodes from a value with content `d`.
pub open spec fn as_u8(d: Datum) -> Option<u8> {
    match integer_within(d, 0, u8::MAX as int) {
        Some(n) => Some(n as u8),
        None => None,
    }
}

/// What [`u16`] decodes from a value with content `d`.
pub open spec fn as_u16(d: Datum) -> Option<u16> {
    match integer_within(d, 0, u16::MAX as int) {
        Some(n) => Some(n as u16),
        None => None,
    }
}

/// What [`u32`] decodes from a value with content `d`.
pub open spec fn as_u32(d: Datum) -> Option<u32> {
    match integer_within(d, 0, u32::MAX as int) {
        Some(n) => Some(n as u32),
        None => None,
    }
}

/// What [`u64`] decodes from a value with content `d`.
pub open spec fn as_u64(d: Datum) -> Option<u64> {
    match integer_within(d, 0, u64::MAX as int) {
        Some(n) => Some(n as u64),
        None => None,
    }
}

/// What [`i8`] decodes from a value with content `d`.
pub open spec fn as_i8(d: Datum) -> Option<i8> {
    match integer_within(d, i8::MIN as int, i8::MAX as int) {
        Some(n) => Some(n as i8),
        None => None,
    }
}

/// What [`i16`] decodes from a value with content `d`.
pub open spec fn as_i16(d: Datum) -> Option<i16> {
    match integer_within(d, i16::MIN as int, i16::MAX as int) {
        Some(n) => Some(n as i16),
        None => None,
    }
}

/// What [`i32`] decodes from a value with content `d`.
pub open spec fn as_i32(d: Datum) -> Option<i32> {
    match integer_within(d, i32::MIN as int, i32::MAX as int) {
        Some(n) => Some(n as i32),
        None => None,
    }
}

/// What [`i64`] decodes from a value with content `d`.
pub open spec fn as_i64(d: Datum) -> Option<i64> {
    match integer_within(d, i64::MIN as int, i64::MAX as int) {
        Some(n) => Some(n as i64),
        None => None,
    }
}

/// What [`f32_bits`] decodes from a value with content `d`: the bit pattern.
pub open spec fn as_f32(d: Datum) -> Option<u32> {
    match d {
        Datum::F32(key) => Some(f32_bits_of_key(key)),
        _ => None,
    }
}

/// What [`f64_bits`] decodes from a value with content `d`: the bit pattern.
pub open spec fn as_f64(d: Datum) -> Option<u64> {
    match d {
        Datum::F64(key) => Some(f64_bits_of_key(key)),
        _ => None,
    }
}

/// What [`string`] decodes from a value with content `d`: a string, or a
/// character as a one-character string.
pub open spec fn as_string(d: Datum) -> Option<Seq<char>> {
    match d {
        Datum::Str(s) => Some(s),
        Datum::Char(c) => Some(seq![c]),
        _ => None,
    }
}

/// `r` is the outcome of decoding a value with content `d` as `found` says:
/// the value found, or an error naming `expected` and the value.
pub open spec fn decoded_as<T>(r: Result<T>, found: Option<T>, expected: Seq<char>, d: Datum) -> bool {
    match found {
        Some(x) => r == Ok::<T, Error>(x),
        None => r matches Err(e) && e.is_invalid_type(expected, d),
    }
}

fn invalid_type(expected: &'static str, value: &Value) -> (e: Error)
    ensures
        e.is_invalid_type(expected@, value@),
{
    Error::InvalidType { expected, got: value.unexpected() }
}

fn integer(value: &Value) -> (r: Option<i128>)
    ensures
        match as_integer(value@) {
            Some(n) => r == Some(n as i128),
            None => r is None,
        },
{
    match value {
        Value::U8(n) => Some(*n as i128),
        Value::U16(n) => Some(*n as i128),
        Value::U32(n) => Some(*n as i128),
        Value::U64(n) => Some(*n as i128),
        Value::I8(n) => Some(*n as i128),
        Value::I16(n) => Some(*n as i128),
        Value::I32(n) => Some(*n as i128),
        Value::I64(n) => Some(*n as i128),
        _ => None,
    }
}

/// Decodes a [`bool`](prim@bool).
pub fn bool(value: Value) -> (r: Result<bool>)
    ensures
        decoded_as(r, as_bool(value@), "bool"@, value@),
{
    match value {
        Value::Bool(b) => Ok(b),
        _ => Err(invalid_type("bool", &value)),
    }
}

/// Decodes a [`u8`](prim@u8) from any integer in its range.
pub fn u8(value: Value) -> (r: Result<u8>)
    ensures
        decoded_as(r, as_u8(value@), "u8"@, value@),
{
    match integer(&value) {
        Some(n) => if 0 <= n && n <= u8::MAX as i128 {
            Ok(n as u8)
        } else {
            Err(invalid_type("u8", &value))
        },
        None => Err(invalid_type("u8", &value)),
    }
}

/// Decodes a [`u16`](prim@u16) from any integer in its range.
pub fn u16(value: Value) -> (r: Result<u16>)
    ensures
        decoded_as(r, as_u16(value@), "u16"@, value@),
{
    match integer(&value) {
        Some(n) => if 0 <= n && n <= u16::MAX as i128 {
            Ok(n as u16)
        } else {
            Err(invalid_type("u16", &value))
        },
        None => Err(invalid_type("u16", &value)),
    }
}

/// Decodes a [`u32`](prim@u32) from any integer in its range.
pub fn u32(value: Value) -> (r: Result<u32>)
    ensures
        decoded_as(r, as_u32(value@), "u32"@, value@),
{
    match integer(&value) {
        Some(n) => if 0 <= n && n <= u32::MAX as i128 {
            Ok(n as u32)
        } else {
            Err(invalid_type("u32", &value))
        },
        None => Err(invalid_type("u32", &value)),
    }
}

/// Decodes a [`u64`](prim@u64) from any integer in its range.
pub fn u64(value: Value) -> (r: Result<u64>)
    ensures
        decoded_as(r, as_u64(value@), "u64"@, value@),
{
    match integer(&value) {
        Some(n) => if 0 <= n && n <= u64::MAX as i128 {
            Ok(n as u64)
        } else {
            Err(invalid_type("u64", &value))
        },
        None => Err(invalid_type("u64", &value)),
    }
}

/// Decodes an [`i8`](prim@i8) from any integer in its range.
pub fn i8(value: Value) -> (r: Result<i8>)
    ensures
        decoded_as(r, as_i8(value@), "i8"@, value@),
{
    match integer(&value) {
        Some(n) => if i8::MIN as i128 <= n && n <= i8::MAX as i128 {
            Ok(n as i8)
        } else {
            Err(invalid_type("i8", &value))
        },
        None => Err(invalid_type("i8", &value)),
    }
}

/// Decodes an [`i16`](prim@i16) from any integer in its range.
pub fn i16(value: Value) -> (r: Result<i16>)
    ensures
        decoded_as(r, as_i16(value@), "i16"@, value@),
{
    match integer(&value) {
        Some(n) => if i16::MIN as i128 <= n && n <= i16::MAX as i128 {
            Ok(n as i16)
        } else {
            Err(invalid_type("i16", &value))
        },
        None => Err(invalid_type("i16", &value)),
    }
}

/// Decodes an [`i32`](prim@i32) from any integer in its range.
pub fn i32(value: Value) -> (r: Result<i32>)
    ensures
        decoded_as(r, as_i32(value@), "i32"@, value@),
{
    match integer(&value) {
        Some(n) => if i32::MIN as i128 <= n && n <= i32::MAX as i128 {
            Ok(n as i32)
        } else {
            Err(invalid_type("i32", &value))
        },
        None => Err(invalid_type("i32", &value)),
    }
}

/// Decodes an [`i64`](prim@i64) from any integer in its range.
pub fn i64(value: Value) -> (r: Result<i64>)
    ensures
        decoded_as(r, as_i64(value@), "i64"@, value@),
{
    match integer(&value) {
        Some(n) => if i64::MIN as i128 <= n && n <= i64::MAX as i128 {
            Ok(n as i64)
        } else {
            Err(invalid_type("i64", &value))
        },
        None => Err(invalid_type("i64", &value)),
    }
}

/// Decodes a 32-bit float, as its IEEE-754 bit pattern.
pub fn f32_bits(value: Value) -> (r: Result<u32>)
    ensures
        decoded_as(r, as_f32(value@), "f32"@, value@),
{
    match value {
        Value::F32(key) => Ok(f32_from_key(key)),
        _ => Err(invalid_type("f32", &value)),
    }
}

/// Decodes a 64-bit float, as its IEEE-754 bit pattern.
pub fn f64_bits(value: Value) -> (r: Result<u64>)
    ensures
        decoded_as(r, as_f64(value@), "f64"@, value@),
{
    match value {
        Value::F64(key) => Ok(f64_from_key(key)),
        _ => Err(invalid_type("f64", &value)),
    }
}

/// Relies on `ToString for char`: the string of that one character.
#[verifier::external_body]
fn char_to_string(c: char) -> (r: String)
    ensures
        r@ == seq![c],
{
    c.to_string()
}

/// Decodes a [`String`], from a string or a single character.
pub fn string(value: Value) -> (r: Result<String>)
    ensures
        match as_string(value@) {
            Some(s) => r matches Ok(t) && t@ == s,
            None => r matches Err(e) && e.is_invalid_type("string"@, value@),
        },
{
    match value {
        Value::String(s) => Ok(s),
        Value::Char(c) => Ok(char_to_string(c)),
        _ => Err(invalid_type("string", &value)),
    }
}

/// Decodes a [`str`](prim@str), borrowed from a string value.
pub fn str(value: &Value) -> (r: Result<&str>)
    ensures
        match value@ {
            Datum::Str(s) => r matches Ok(t) && t@ == s,
            _ => r matches Err(e) && e.is_invalid_type("string"@, value@),
        },
{
    match value {
        Value::String(s) => Ok(s.as_str()),
        _ => Err(invalid_type("string", value)),
    }
}

/// Decodes a [`FieldMap`]; a key that occurs more than once keeps its first
/// place and its last value.
pub fn map(value: Value) -> (r: Result<FieldMap>)
    ensures
        match value {
            Value::Mapping(entries) => r matches Ok(m) && m@ == insert_all(
                Seq::empty(),
                entries_view(entries@),
            ),
            _ => r matches Err(e) && e.is_invalid_type("map"@, value@),
        },
{
    match value {
        Value::Mapping(entries) => Ok(FieldMap::from_entries(entries)),
        _ => Err(invalid_type("map", &value)),
    }
}

/// `r` is what [`duration`] gives for a map with entries `m`: the field
/// `secs` as a `u64` and the field `nanos` as a `u32`, nanoseconds beyond a
/// second carried into the seconds; an error for a missing or mistyped field,
/// or for seconds that would overflow.
pub open spec fn duration_decoded(m: Seq<(Datum, Datum)>, r: Result<Duration>) -> bool {
    match find(m, Datum::Str("secs"@)) {
        None => r matches Err(e) && e.is_field_missing("secs"@, m),
        Some(i) => match as_u64(m[i].1) {
            None => r matches Err(e) && e.is_invalid_type("u64"@, m[i].1),
            Some(secs) => {
                let rest = m.remove(i);
                match find(rest, Datum::Str("nanos"@)) {
                    None => r matches Err(e) && e.is_field_missing("nanos"@, rest),
                    Some(j) => match as_u32(rest[j].1) {
                        None => r matches Err(e) && e.is_invalid_type("u32"@, rest[j].1),
                        Some(nanos) => if secs + nanos / NANOS_PER_SEC <= u64::MAX {
                            r matches Ok(d) && d@ == (
                                (secs + nanos / NANOS_PER_SEC) as u64,
                                (nanos % NANOS_PER_SEC) as u32,
                            )
                        } else {
                            r matches Err(e) && e is Custom
                        },
                    },
                }
            },
        },
    }
}

/// Decodes a [`Duration`] from a map of its whole seconds (`secs`) and
/// nanoseconds (`nanos`).
pub fn duration(value: Value) -> (r: Result<Duration>)
    ensures
        match value {
            Value::Mapping(entries) => duration_decoded(
                insert_all(Seq::empty(), entries_view(entries@)),
                r,
            ),
            _ => r matches Err(e) && e.is_invalid_type("map"@, value@),
        },
{
    let mut fields = match map(value) {
        Ok(m) => m,
        Err(e) => {
            return Err(e);
        },
    };
    let ghost m = fields@;
    let ghost before = fields.entries();
    let secs = match fields.take("secs") {
        Ok(v) => {
            proof {
                let i = find(m, Datum::Str("secs"@))->0;
                assert(v@ == m[i].1);
            }
            match u64(v) {
                Ok(n) => n,
                Err(e) => {
                    return Err(e);
                },
            }
        },
        Err(e) => {
            return Err(e);
        },
    };
    let ghost rest = fields@;
    let ghost after = fields.entries();
    proof {
        let i = find(m, Datum::Str("secs"@))->0;
        assert(after == before.remove(i));
        assert(rest =~= m.remove(i));
        assert(as_u64(m[i].1) == Some(secs));
    }
    let nanos = match fields.take("nanos") {
        Ok(v) => {
            proof {
                let j = find(rest, Datum::Str("nanos"@))->0;
                assert(v@ == rest[j].1);
            }
            match u32(v) {
                Ok(n) => n,
                Err(e) => {
                    return Err(e);
                },
            }
        },
        Err(e) => {
            return Err(e);
        },
    };
    if (nanos / NANOS_PER_SEC) as u64 > u64::MAX - secs {
        return Err(Error::Custom("duration overflows its seconds".to_owned()));
    }
    Ok(Duration::new(secs, nanos))
}

/// `r` is what [`optional`] of `f` gives for `value`: nothing for
/// [`Value::Unit`] or an absent option, otherwise `f`'s result on a present
/// option's payload or on the value itself, a success wrapped in `Some`.
pub open spec fn optional_decoded<T, F: Fn(Value) -> Result<T>>(
    f: F,
    value: Value,
    r: Result<Option<T>>,
) -> bool {
    match value {
        Value::Unit => r == Ok::<Option<T>, Error>(None),
        Value::Option(None) => r == Ok::<Option<T>, Error>(None),
        Value::Option(Some(inner)) => decodes_present(f, *inner, r),
        _ => decodes_present(f, value, r),
    }
}

/// Takes a decoder of a certain type `T` and produces a new decoder that
/// decodes an `Option<T>`: [`Value::Unit`] and an absent option give `None`,
/// a present option's payload and any other value are decoded.
pub fn optional<T>(decoder: impl Fn(Value) -> Result<T>) -> (r: impl Fn(Value) -> Result<Option<T>>)
    requires
        forall|v: Value| #[trigger] decoder.requires((v,)),
    ensures
        forall|v: Value| #[trigger] r.requires((v,)),
        forall|v: Value, res: Result<Option<T>>| #[trigger]
            r.ensures((v,), res) ==> optional_decoded(decoder, v, res),
{
    move |value: Value| -> (res: Result<Option<T>>)
        requires
            forall|v: Value| #[trigger] decoder.requires((v,)),
        ensures
            optional_decoded(decoder, value, res),
        {
            let inner = match value {
                Value::Unit => {
                    return Ok(None);
                },
                Value::Option(None) => {
                    return Ok(None);
                },
                Value::Option(Some(inner)) => *inner,
                other => other,
            };
            match decoder(inner) {
                Ok(t) => Ok(Some(t)),
                Err(e) => Err(e),
            }
        }
}

/// `f` can succeed on `v`.
pub open spec fn succeeds_on<T, F: Fn(Value) -> Result<T>>(f: F, v: Value) -> bool {
    exists|t: T| #[trigger] f.ensures((v,), Ok::<T, Error>(t))
}

/// `r` is what [`sequence`] of `f` gives for `value`: for a sequence, `f`'s
/// result on each element in order, or the error of the first element that
/// fails; for any other value, an error that expects a sequence.
pub open spec fn sequence_decoded<T, F: Fn(Value) -> Result<T>>(
    f: F,
    value: Value,
    r: Result<Vec<T>>,
) -> bool {
    match value {
        Value::Sequence(items) => match r {
            Ok(out) => out.len() == items.len() && forall|i: int|
                0 <= i < items.len() ==> #[trigger] f.ensures((items[i],), Ok::<T, Error>(out[i])),
            Err(e) => exists|k: int|
                0 <= k < items.len() && #[trigger] f.ensures((items[k],), Err::<T, Error>(e))
                    && forall|j: int| 0 <= j < k ==> #[trigger] succeeds_on(f, items[j]),
        },
        _ => r matches Err(e) && e.is_invalid_type("sequence"@, value@),
    }
}

/// The sequence decoder fails on any value that is not a sequence, with an
/// error that expects a sequence and describes the value.
pub proof fn lemma_sequence_rejects_other_kinds<T, F: Fn(Value) -> Result<T>>(
    f: F,
    value: Value,
    r: Result<Vec<T>>,
)
    requires
        value !is Sequence,
        sequence_decoded(f, value, r),
    ensures
        r matches Err(e) && e.is_invalid_type("sequence"@, value@),
{
}

/// Takes a decoder of a certain type `T` and produces a new decoder that
/// decodes a sequence of `T` values, in order, stopping at the first element
/// that fails.
pub fn sequence<T>(decoder: impl Fn(Value) -> Result<T>) -> (r: impl Fn(Value) -> Result<Vec<T>>)
    requires
        forall|v: Value| #[trigger] decoder.requires((v,)),
    ensures
        forall|v: Value| #[trigger] r.requires((v,)),
        forall|v: Value, res: Result<Vec<T>>| #[trigger]
            r.ensures((v,), res) ==> sequence_decoded(decoder, v, res),
{
    move |value: Value| -> (res: Result<Vec<T>>)
        requires
            forall|v: Value| #[trigger] decoder.requires((v,)),
        ensures
            sequence_decoded(decoder, value, res),
        {
            match value {
                Value::Sequence(items) => {
                    let ghost all = items@;
                    let mut out: Vec<T> = Vec::new();
                    for item in it: items
                        invariant
                            all == it.seq(),
                            value is Sequence,
                            all == value->Sequence_0@,
                            forall|v: Value| #[trigger] decoder.requires((v,)),
                            out.len() == it.index(),
                            forall|i: int|
                                0 <= i < out.len() ==> #[trigger] decoder.ensures(
                                    (all[i],),
                                    Ok::<T, Error>(out[i]),
                                ),
                    {
                        match decoder(item) {
                            Ok(t) => out.push(t),
                            Err(e) => {
                                assert forall|j: int| 0 <= j < it.index() implies #[trigger] succeeds_on(
                                    decoder,
                                    all[j],
                                ) by {
                                    assert(decoder.ensures((all[j],), Ok::<T, Error>(out[j])));
                                }
                                assert(decoder.ensures((all[out.len() as int],), Err::<T, Error>(e)));
                                return Err(e);
                            },
                        }
                    }
                    Ok(out)
                },
                _ => Err(invalid_type("sequence", &value)),
            }
        }
}

} // verus!
