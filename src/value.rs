use vstd::prelude::*;
use vstd::string::StrSliceExecFns;
use std::cmp::Ordering;

verus! {

/// A generic value: the tree that every decoder reads and every encoder writes.
///
/// Floating-point payloads are held as their total-order keys (see
/// [`f64_order_key`]), so that equality is equality of bit patterns and the
/// order is IEEE-754's totalOrder: numbers by value, `-0.0` below `+0.0`, and
/// NaNs at the ends by sign.
#[derive(Debug, Eq, Hash, Ord)]
pub enum Value {
    Bool(bool),
    U8(u8),
    U16(u16),
    U32(u32),
    U64(u64),
    I8(i8),
    I16(i16),
    I32(i32),
    I64(i64),
    /// A 32-bit float, as the total-order key of its bit pattern
    /// ([`f32_order_key`]).
    F32(u32),
    /// A 64-bit float, as the total-order key of its bit pattern
    /// ([`f64_order_key`]).
    F64(u64),
    Char(char),
    String(String),
    Unit,
    Option(Option<Box<Value>>),
    Newtype(Box<Value>),
    Sequence(Vec<Value>),
    /// Entries in iteration order, meant to have distinct keys
    /// (`fields::is_keyed_mapping`), as every mapping that a `FieldMap`
    /// produces has; decoding keeps the first place and the last value of a
    /// repeated key.
    Mapping(Vec<(Value, Value)>),
    Bytes(Vec<u8>),
}

/// The mathematical content of a [`Value`]: strings as character sequences,
/// byte blobs and children as sequences.
pub enum Datum {
    Bool(bool),
    U8(u8),
    U16(u16),
    U32(u32),
    U64(u64),
    I8(i8),
    I16(i16),
    I32(i32),
    I64(i64),
    F32(u32),
    F64(u64),
    Char(char),
    Str(Seq<char>),
    Unit,
    Option(Option<Box<Datum>>),
    Newtype(Box<Datum>),
    Sequence(Seq<Datum>),
    Mapping(Seq<(Datum, Datum)>),
    Bytes(Seq<u8>),
}

/// The content of a value.
pub open spec fn datum_of(v: Value) -> Datum
    decreases v,
{
    match v {
        Value::Bool(b) => Datum::Bool(b),
        Value::U8(n) => Datum::U8(n),
        Value::U16(n) => Datum::U16(n),
        Value::U32(n) => Datum::U32(n),
        Value::U64(n) => Datum::U64(n),
        Value::I8(n) => Datum::I8(n),
        Value::I16(n) => Datum::I16(n),
        Value::I32(n) => Datum::I32(n),
        Value::I64(n) => Datum::I64(n),
        Value::F32(n) => Datum::F32(n),
        Value::F64(n) => Datum::F64(n),
        Value::Char(c) => Datum::Char(c),
        Value::String(s) => Datum::Str(s@),
        Value::Unit => Datum::Unit,
        Value::Option(o) => Datum::Option(
            match o {
                Some(inner) => Some(Box::new(datum_of(*inner))),
                None => None,
            },
        ),
        Value::Newtype(inner) => Datum::Newtype(Box::new(datum_of(*inner))),
        Value::Sequence(items) => Datum::Sequence(
            Seq::new(
                items.len() as nat,
                |i: int|
                    if 0 <= i < items.len() {
                        datum_of(items[i])
                    } else {
                        Datum::Unit
                    },
            ),
        ),
        Value::Mapping(entries) => Datum::Mapping(
            Seq::new(
                entries.len() as nat,
                |i: int|
                    if 0 <= i < entries.len() {
                        (datum_of(entries[i].0), datum_of(entries[i].1))
                    } else {
                        (Datum::Unit, Datum::Unit)
                    },
            ),
        ),
        Value::Bytes(b) => Datum::Bytes(b@),
    }
}

impl View for Value {
    type V = Datum;

    open spec fn view(&self) -> Datum {
        datum_of(*self)
    }
}

/// The sign bit of a 32-bit float.
pub const SIGN_32: u32 = 0x8000_0000;

/// The sign bit of a 64-bit float.
pub const SIGN_64: u64 = 0x8000_0000_0000_0000;

/// The total-order key of a 32-bit float's bit pattern: all bits flipped
/// when the sign is set, else the sign bit set. Keys compare as unsigned
/// integers in IEEE-754 totalOrder.
pub open spec fn f32_order_key(bits: u32) -> u32 {
    if bits >= SIGN_32 {
        (u32::MAX - bits) as u32
    } else {
        (bits + SIGN_32) as u32
    }
}

/// The bit pattern of the 32-bit float with total-order key `key`.
pub open spec fn f32_bits_of_key(key: u32) -> u32 {
    if key >= SIGN_32 {
        (key - SIGN_32) as u32
    } else {
        (u32::MAX - key) as u32
    }
}

/// The total-order key of a 64-bit float's bit pattern: all bits flipped
/// when the sign is set, else the sign bit set. Keys compare as unsigned
/// integers in IEEE-754 totalOrder.
pub open spec fn f64_order_key(bits: u64) -> u64 {
    if bits >= SIGN_64 {
        (u64::MAX - bits) as u64
    } else {
        (bits + SIGN_64) as u64
    }
}

/// The bit pattern of the 64-bit float with total-order key `key`.
pub open spec fn f64_bits_of_key(key: u64) -> u64 {
    if key >= SIGN_64 {
        (key - SIGN_64) as u64
    } else {
        (u64::MAX - key) as u64
    }
}

/// Keys and bit patterns correspond one to one.
pub proof fn lemma_order_keys_bijective(bits32: u32, key32: u32, bits64: u64, key64: u64)
    ensures
        f32_bits_of_key(f32_order_key(bits32)) == bits32,
        f32_order_key(f32_bits_of_key(key32)) == key32,
        f64_bits_of_key(f64_order_key(bits64)) == bits64,
        f64_order_key(f64_bits_of_key(key64)) == key64,
{
}

/// Among floats of one sign, the key order follows the magnitude in the bit
/// pattern: upwards for positive floats, downwards for negative ones; every
/// negative float is below every positive one.
pub proof fn lemma_order_key_by_value(a: u64, b: u64)
    ensures
        a < SIGN_64 && b < SIGN_64 ==> (f64_order_key(a) < f64_order_key(b) <==> a < b),
        a >= SIGN_64 && b >= SIGN_64 ==> (f64_order_key(a) < f64_order_key(b) <==> a > b),
        a >= SIGN_64 && b < SIGN_64 ==> f64_order_key(a) < f64_order_key(b),
{
}

/// The total-order key of a 32-bit float's bit pattern.
pub fn f32_key(bits: u32) -> (r: u32)
    ensures
        r == f32_order_key(bits),
{
    if bits >= SIGN_32 {
        u32::MAX - bits
    } else {
        bits + SIGN_32
    }
}

/// The bit pattern of the 32-bit float with total-order key `key`.
pub fn f32_from_key(key: u32) -> (r: u32)
    ensures
        r == f32_bits_of_key(key),
{
    if key >= SIGN_32 {
        key - SIGN_32
    } else {
        u32::MAX - key
    }
}

/// The total-order key of a 64-bit float's bit pattern.
pub fn f64_key(bits: u64) -> (r: u64)
    ensures
        r == f64_order_key(bits),
{
    if bits >= SIGN_64 {
        u64::MAX - bits
    } else {
        bits + SIGN_64
    }
}

/// The bit pattern of the 64-bit float with total-order key `key`.
pub fn f64_from_key(key: u64) -> (r: u64)
    ensures
        r == f64_bits_of_key(key),
{
    if key >= SIGN_64 {
        key - SIGN_64
    } else {
        u64::MAX - key
    }
}

/// The contents of a list of entries.
pub open spec fn entries_view(s: Seq<(Value, Value)>) -> Seq<(Datum, Datum)> {
    s.map_values(|e: (Value, Value)| (e.0@, e.1@))
}

fn bytes_equal(a: &Vec<u8>, b: &Vec<u8>) -> (r: bool)
    ensures
        r == (a@ == b@),
{
    if a.len() != b.len() {
        return false;
    }
    let mut i: usize = 0;
    while i < a.len()
        invariant
            0 <= i <= a.len(),
            a.len() == b.len(),
            forall|j: int| 0 <= j < i ==> a@[j] == b@[j],
        decreases a.len() - i,
    {
        if a[i] != b[i] {
            return false;
        }
        i = i + 1;
    }
    assert(a@ =~= b@);
    true
}

fn values_equal(a: &Value, b: &Value) -> (r: bool)
    ensures
        r == (a@ == b@),
    decreases a,
{
    match (a, b) {
        (Value::Bool(x), Value::Bool(y)) => *x == *y,
        (Value::U8(x), Value::U8(y)) => *x == *y,
        (Value::U16(x), Value::U16(y)) => *x == *y,
        (Value::U32(x), Value::U32(y)) => *x == *y,
        (Value::U64(x), Value::U64(y)) => *x == *y,
        (Value::I8(x), Value::I8(y)) => *x == *y,
        (Value::I16(x), Value::I16(y)) => *x == *y,
        (Value::I32(x), Value::I32(y)) => *x == *y,
        (Value::I64(x), Value::I64(y)) => *x == *y,
        (Value::F32(x), Value::F32(y)) => *x == *y,
        (Value::F64(x), Value::F64(y)) => *x == *y,
        (Value::Char(x), Value::Char(y)) => *x == *y,
        (Value::String(x), Value::String(y)) => *x == *y,
        (Value::Unit, Value::Unit) => true,
        (Value::Option(x), Value::Option(y)) => match (x, y) {
            (None, None) => true,
            (Some(p), Some(q)) => values_equal(p, q),
            _ => false,
        },
        (Value::Newtype(p), Value::Newtype(q)) => values_equal(p, q),
        (Value::Sequence(xs), Value::Sequence(ys)) => {
            if xs.len() != ys.len() {
                assert(a@->Sequence_0.len() != b@->Sequence_0.len());
                return false;
            }
            let mut i: usize = 0;
            while i < xs.len()
                invariant
                    0 <= i <= xs.len(),
                    xs.len() == ys.len(),
                    *a == Value::Sequence(*xs),
                    *b == Value::Sequence(*ys),
                    forall|j: int| 0 <= j < i ==> xs[j]@ == ys[j]@,
                decreases xs.len() - i,
            {
                if !values_equal(&xs[i], &ys[i]) {
                    assert(a@->Sequence_0[i as int] != b@->Sequence_0[i as int]);
                    return false;
                }
                i = i + 1;
            }
            assert(a@->Sequence_0 =~= b@->Sequence_0);
            true
        },
        (Value::Mapping(xs), Value::Mapping(ys)) => {
            if xs.len() != ys.len() {
                assert(a@->Mapping_0.len() != b@->Mapping_0.len());
                return false;
            }
            let mut i: usize = 0;
            while i < xs.len()
                invariant
                    0 <= i <= xs.len(),
                    xs.len() == ys.len(),
                    *a == Value::Mapping(*xs),
                    *b == Value::Mapping(*ys),
                    forall|j: int| 0 <= j < i ==> xs[j].0@ == ys[j].0@ && xs[j].1@ == ys[j].1@,
                decreases xs.len() - i,
            {
                if !values_equal(&xs[i].0, &ys[i].0) {
                    assert(a@->Mapping_0[i as int] != b@->Mapping_0[i as int]);
                    return false;
                }
                if !values_equal(&xs[i].1, &ys[i].1) {
                    assert(a@->Mapping_0[i as int] != b@->Mapping_0[i as int]);
                    return false;
                }
                i = i + 1;
            }
            assert(a@->Mapping_0 =~= b@->Mapping_0);
            true
        },
        (Value::Bytes(x), Value::Bytes(y)) => bytes_equal(x, y),
        _ => false,
    }
}

impl PartialEq for Value {
    fn eq(&self, other: &Value) -> (r: bool) {
        values_equal(self, other)
    }
}

impl vstd::std_specs::cmp::PartialEqSpecImpl for Value {
    open spec fn obeys_eq_spec() -> bool {
        true
    }

    open spec fn eq_spec(&self, other: &Value) -> bool {
        self@ == other@
    }
}

fn copy_bytes(b: &Vec<u8>) -> (r: Vec<u8>)
    ensures
        r@ == b@,
{
    let mut r: Vec<u8> = Vec::new();
    let mut i: usize = 0;
    while i < b.len()
        invariant
            0 <= i <= b.len(),
            r@ == b@.subrange(0, i as int),
        decreases b.len() - i,
    {
        r.push(b[i]);
        i = i + 1;
    }
    assert(r@ =~= b@);
    r
}

#[verifier::loop_isolation(false)]
fn copy_value(v: &Value) -> (r: Value)
    ensures
        r@ == v@,
    decreases v,
{
    match v {
        Value::Bool(x) => Value::Bool(*x),
        Value::U8(x) => Value::U8(*x),
        Value::U16(x) => Value::U16(*x),
        Value::U32(x) => Value::U32(*x),
        Value::U64(x) => Value::U64(*x),
        Value::I8(x) => Value::I8(*x),
        Value::I16(x) => Value::I16(*x),
        Value::I32(x) => Value::I32(*x),
        Value::I64(x) => Value::I64(*x),
        Value::F32(x) => Value::F32(*x),
        Value::F64(x) => Value::F64(*x),
        Value::Char(x) => Value::Char(*x),
        Value::String(x) => Value::String(x.clone()),
        Value::Unit => Value::Unit,
        Value::Option(x) => match x {
            Some(p) => Value::Option(Some(Box::new(copy_value(p)))),
            None => Value::Option(None),
        },
        Value::Newtype(p) => Value::Newtype(Box::new(copy_value(p))),
        Value::Sequence(xs) => {
            let mut out: Vec<Value> = Vec::new();
            let mut i: usize = 0;
            while i < xs.len()
                invariant
                    0 <= i <= xs.len(),
                    *v == Value::Sequence(*xs),
                    out.len() == i,
                    forall|j: int| 0 <= j < i ==> #[trigger] out[j]@ == xs[j]@,
                decreases xs.len() - i,
            {
                out.push(copy_value(&xs[i]));
                i = i + 1;
            }
            let r = Value::Sequence(out);
            assert forall|j: int| 0 <= j < xs.len() implies r@->Sequence_0[j] == v@->Sequence_0[j] by {
                assert(out[j]@ == xs[j]@);
            }
            assert(r@->Sequence_0 =~= v@->Sequence_0);
            r
        },
        Value::Mapping(xs) => {
            let mut out: Vec<(Value, Value)> = Vec::new();
            let mut i: usize = 0;
            while i < xs.len()
                invariant
                    0 <= i <= xs.len(),
                    *v == Value::Mapping(*xs),
                    out.len() == i,
                    forall|j: int|
                        0 <= j < i ==> #[trigger] out[j].0@ == xs[j].0@ && out[j].1@ == xs[j].1@,
                decreases xs.len() - i,
            {
                let k = copy_value(&xs[i].0);
                let w = copy_value(&xs[i].1);
                out.push((k, w));
                i = i + 1;
            }
            let r = Value::Mapping(out);
            assert forall|j: int| 0 <= j < xs.len() implies r@->Mapping_0[j] == v@->Mapping_0[j] by {
                assert(out[j].0@ == xs[j].0@);
            }
            assert(r@->Mapping_0 =~= v@->Mapping_0);
            r
        },
        Value::Bytes(b) => Value::Bytes(copy_bytes(b)),
    }
}

impl Clone for Value {
    /// A deep copy, with the same content.
    fn clone(&self) -> (r: Value)
        ensures
            r@ == self@,
    {
        copy_value(self)
    }
}

/// What a decoder found instead of what it expected: the kind of a value and,
/// for scalars, strings and byte blobs, its payload, but never nested children.
#[derive(Debug, Clone)]
pub enum Unexpected {
    Bool(bool),
    Unsigned(u64),
    Signed(i64),
    /// A 32-bit float's IEEE-754 bit pattern.
    Float32(u32),
    /// A 64-bit float's IEEE-754 bit pattern.
    Float64(u64),
    Char(char),
    Str(String),
    Unit,
    Option,
    NewtypeStruct,
    Sequence,
    Mapping,
    Bytes(Vec<u8>),
}

impl Unexpected {
    /// `self` is the diagnostic form of a value with content `d`.
    pub open spec fn describes(self, d: Datum) -> bool {
        match d {
            Datum::Bool(b) => self == Unexpected::Bool(b),
            Datum::U8(n) => self == Unexpected::Unsigned(n as u64),
            Datum::U16(n) => self == Unexpected::Unsigned(n as u64),
            Datum::U32(n) => self == Unexpected::Unsigned(n as u64),
            Datum::U64(n) => self == Unexpected::Unsigned(n),
            Datum::I8(n) => self == Unexpected::Signed(n as i64),
            Datum::I16(n) => self == Unexpected::Signed(n as i64),
            Datum::I32(n) => self == Unexpected::Signed(n as i64),
            Datum::I64(n) => self == Unexpected::Signed(n),
            Datum::F32(k) => self == Unexpected::Float32(f32_bits_of_key(k)),
            Datum::F64(k) => self == Unexpected::Float64(f64_bits_of_key(k)),
            Datum::Char(c) => self == Unexpected::Char(c),
            Datum::Str(s) => self matches Unexpected::Str(t) && t@ == s,
            Datum::Unit => self == Unexpected::Unit,
            Datum::Option(_) => self == Unexpected::Option,
            Datum::Newtype(_) => self == Unexpected::NewtypeStruct,
            Datum::Sequence(_) => self == Unexpected::Sequence,
            Datum::Mapping(_) => self == Unexpected::Mapping,
            Datum::Bytes(b) => self matches Unexpected::Bytes(c) && c@ == b,
        }
    }
}

/// The fixed rank of each kind of value; values of different kinds are
/// ordered by it.
pub open spec fn rank(d: Datum) -> int {
    match d {
        Datum::Bool(_) => 0,
        Datum::U8(_) => 1,
        Datum::U16(_) => 2,
        Datum::U32(_) => 3,
        Datum::U64(_) => 4,
        Datum::I8(_) => 5,
        Datum::I16(_) => 6,
        Datum::I32(_) => 7,
        Datum::I64(_) => 8,
        Datum::F32(_) => 9,
        Datum::F64(_) => 10,
        Datum::Char(_) => 11,
        Datum::Str(_) => 12,
        Datum::Unit => 13,
        Datum::Option(_) => 14,
        Datum::Newtype(_) => 15,
        Datum::Sequence(_) => 16,
        Datum::Mapping(_) => 17,
        Datum::Bytes(_) => 18,
    }
}

/// The order of two integers.
pub open spec fn ordering_of(a: int, b: int) -> Ordering {
    if a < b {
        Ordering::Less
    } else if a == b {
        Ordering::Equal
    } else {
        Ordering::Greater
    }
}

/// Lexicographic order of two sequences of integers, a proper prefix first.
pub open spec fn compare_codes(xs: Seq<int>, ys: Seq<int>) -> Ordering
    decreases xs.len(),
{
    if xs.len() == 0 {
        if ys.len() == 0 {
            Ordering::Equal
        } else {
            Ordering::Less
        }
    } else if ys.len() == 0 {
        Ordering::Greater
    } else if xs[0] != ys[0] {
        ordering_of(xs[0], ys[0])
    } else {
        compare_codes(xs.subrange(1, xs.len() as int), ys.subrange(1, ys.len() as int))
    }
}

/// The code points of a string.
pub open spec fn char_codes(s: Seq<char>) -> Seq<int> {
    s.map_values(|c: char| c as int)
}

/// The bytes of a blob, as integers.
pub open spec fn byte_codes(s: Seq<u8>) -> Seq<int> {
    s.map_values(|b: u8| b as int)
}

/// The total order on values: first by [`rank`], then by payload. Numbers
/// compare by value, floats by their bit patterns, strings and blobs
/// lexicographically, and sequences and maps element by element in iteration
/// order (key, then value), a proper prefix first.
pub open spec fn compare(a: Datum, b: Datum) -> Ordering
    decreases a,
{
    match (a, b) {
        (Datum::Bool(x), Datum::Bool(y)) => ordering_of(
            if x { 1 } else { 0 },
            if y { 1 } else { 0 },
        ),
        (Datum::U8(x), Datum::U8(y)) => ordering_of(x as int, y as int),
        (Datum::U16(x), Datum::U16(y)) => ordering_of(x as int, y as int),
        (Datum::U32(x), Datum::U32(y)) => ordering_of(x as int, y as int),
        (Datum::U64(x), Datum::U64(y)) => ordering_of(x as int, y as int),
        (Datum::I8(x), Datum::I8(y)) => ordering_of(x as int, y as int),
        (Datum::I16(x), Datum::I16(y)) => ordering_of(x as int, y as int),
        (Datum::I32(x), Datum::I32(y)) => ordering_of(x as int, y as int),
        (Datum::I64(x), Datum::I64(y)) => ordering_of(x as int, y as int),
        (Datum::F32(x), Datum::F32(y)) => ordering_of(x as int, y as int),
        (Datum::F64(x), Datum::F64(y)) => ordering_of(x as int, y as int),
        (Datum::Char(x), Datum::Char(y)) => ordering_of(x as int, y as int),
        (Datum::Str(x), Datum::Str(y)) => compare_codes(char_codes(x), char_codes(y)),
        (Datum::Unit, Datum::Unit) => Ordering::Equal,
        (Datum::Option(x), Datum::Option(y)) => match (x, y) {
            (None, None) => Ordering::Equal,
            (None, Some(_)) => Ordering::Less,
            (Some(_), None) => Ordering::Greater,
            (Some(p), Some(q)) => compare(*p, *q),
        },
        (Datum::Newtype(p), Datum::Newtype(q)) => compare(*p, *q),
        (Datum::Sequence(xs), Datum::Sequence(ys)) => compare_seqs(xs, ys),
        (Datum::Mapping(xs), Datum::Mapping(ys)) => compare_entries(xs, ys),
        (Datum::Bytes(x), Datum::Bytes(y)) => compare_codes(byte_codes(x), byte_codes(y)),
        _ => ordering_of(rank(a), rank(b)),
    }
}

/// Lexicographic order of two sequences of values.
pub open spec fn compare_seqs(xs: Seq<Datum>, ys: Seq<Datum>) -> Ordering
    decreases xs,
{
    if xs.len() == 0 {
        if ys.len() == 0 {
            Ordering::Equal
        } else {
            Ordering::Less
        }
    } else if ys.len() == 0 {
        Ordering::Greater
    } else if compare(xs[0], ys[0]) != Ordering::Equal {
        compare(xs[0], ys[0])
    } else {
        compare_seqs(xs.subrange(1, xs.len() as int), ys.subrange(1, ys.len() as int))
    }
}

/// Lexicographic order of two sequences of entries, each by key, then value.
pub open spec fn compare_entries(xs: Seq<(Datum, Datum)>, ys: Seq<(Datum, Datum)>) -> Ordering
    decreases xs,
{
    if xs.len() == 0 {
        if ys.len() == 0 {
            Ordering::Equal
        } else {
            Ordering::Less
        }
    } else if ys.len() == 0 {
        Ordering::Greater
    } else if compare(xs[0].0, ys[0].0) != Ordering::Equal {
        compare(xs[0].0, ys[0].0)
    } else if compare(xs[0].1, ys[0].1) != Ordering::Equal {
        compare(xs[0].1, ys[0].1)
    } else {
        compare_entries(xs.subrange(1, xs.len() as int), ys.subrange(1, ys.len() as int))
    }
}

fn discriminant(v: &Value) -> (r: u8)
    ensures
        r as int == rank(v@),
{
    match v {
        Value::Bool(_) => 0,
        Value::U8(_) => 1,
        Value::U16(_) => 2,
        Value::U32(_) => 3,
        Value::U64(_) => 4,
        Value::I8(_) => 5,
        Value::I16(_) => 6,
        Value::I32(_) => 7,
        Value::I64(_) => 8,
        Value::F32(_) => 9,
        Value::F64(_) => 10,
        Value::Char(_) => 11,
        Value::String(_) => 12,
        Value::Unit => 13,
        Value::Option(_) => 14,
        Value::Newtype(_) => 15,
        Value::Sequence(_) => 16,
        Value::Mapping(_) => 17,
        Value::Bytes(_) => 18,
    }
}

fn order_ints(x: i128, y: i128) -> (r: Ordering)
    ensures
        r == ordering_of(x as int, y as int),
{
    if x < y {
        Ordering::Less
    } else if x == y {
        Ordering::Equal
    } else {
        Ordering::Greater
    }
}

fn compare_strings(x: &String, y: &String) -> (r: Ordering)
    ensures
        r == compare_codes(char_codes(x@), char_codes(y@)),
{
    let xs = x.as_str();
    let ys = y.as_str();
    let n = xs.unicode_len();
    let m = ys.unicode_len();
    let ghost cx = char_codes(x@);
    let ghost cy = char_codes(y@);
    assert(cx.subrange(0, n as int) =~= cx);
    assert(cy.subrange(0, m as int) =~= cy);
    let mut i: usize = 0;
    while i < n && i < m
        invariant
            0 <= i <= n,
            0 <= i <= m,
            n == xs@.len(),
            m == ys@.len(),
            xs@ == x@,
            ys@ == y@,
            cx == char_codes(x@),
            cy == char_codes(y@),
            compare_codes(cx, cy) == compare_codes(
                cx.subrange(i as int, n as int),
                cy.subrange(i as int, m as int),
            ),
        decreases n - i,
    {
        let a = xs.get_char(i);
        let b = ys.get_char(i);
        let ghost sx = cx.subrange(i as int, n as int);
        let ghost sy = cy.subrange(i as int, m as int);
        assert(sx[0] == a as int && sy[0] == b as int);
        if a != b {
            return order_ints(a as u32 as i128, b as u32 as i128);
        }
        assert(sx.subrange(1, sx.len() as int) =~= cx.subrange(i + 1, n as int));
        assert(sy.subrange(1, sy.len() as int) =~= cy.subrange(i + 1, m as int));
        i = i + 1;
    }
    if i < n {
        Ordering::Greater
    } else if i < m {
        Ordering::Less
    } else {
        Ordering::Equal
    }
}

fn compare_bytes(x: &Vec<u8>, y: &Vec<u8>) -> (r: Ordering)
    ensures
        r == compare_codes(byte_codes(x@), byte_codes(y@)),
{
    let n = x.len();
    let m = y.len();
    let ghost cx = byte_codes(x@);
    let ghost cy = byte_codes(y@);
    assert(cx.subrange(0, n as int) =~= cx);
    assert(cy.subrange(0, m as int) =~= cy);
    let mut i: usize = 0;
    while i < n && i < m
        invariant
            0 <= i <= n,
            0 <= i <= m,
            n == x@.len(),
            m == y@.len(),
            cx == byte_codes(x@),
            cy == byte_codes(y@),
            compare_codes(cx, cy) == compare_codes(
                cx.subrange(i as int, n as int),
                cy.subrange(i as int, m as int),
            ),
        decreases n - i,
    {
        let ghost sx = cx.subrange(i as int, n as int);
        let ghost sy = cy.subrange(i as int, m as int);
        assert(sx[0] == x@[i as int] as int && sy[0] == y@[i as int] as int);
        if x[i] != y[i] {
            return order_ints(x[i] as i128, y[i] as i128);
        }
        assert(sx.subrange(1, sx.len() as int) =~= cx.subrange(i + 1, n as int));
        assert(sy.subrange(1, sy.len() as int) =~= cy.subrange(i + 1, m as int));
        i = i + 1;
    }
    if i < n {
        Ordering::Greater
    } else if i < m {
        Ordering::Less
    } else {
        Ordering::Equal
    }
}

#[verifier::loop_isolation(false)]
fn compare_sequences(a: &Value, b: &Value, xs: &Vec<Value>, ys: &Vec<Value>) -> (r: Ordering)
    requires
        *a == Value::Sequence(*xs),
        *b == Value::Sequence(*ys),
    ensures
        r == compare(a@, b@),
    decreases a, 0nat,
{
    let n = xs.len();
    let m = ys.len();
    let ghost dx = a@->Sequence_0;
    let ghost dy = b@->Sequence_0;
    assert(dx.subrange(0, n as int) =~= dx);
    assert(dy.subrange(0, m as int) =~= dy);
    let mut i: usize = 0;
    while i < n && i < m
        invariant
            0 <= i <= n,
            0 <= i <= m,
            dx.len() == n,
            dy.len() == m,
            compare_seqs(dx, dy) == compare_seqs(
                dx.subrange(i as int, n as int),
                dy.subrange(i as int, m as int),
            ),
        decreases n - i,
    {
        let ghost sx = dx.subrange(i as int, n as int);
        let ghost sy = dy.subrange(i as int, m as int);
        assert(sx[0] == xs[i as int]@ && sy[0] == ys[i as int]@);
        let c = compare_values(&xs[i], &ys[i]);
        match c {
            Ordering::Equal => {},
            _ => {
                return c;
            },
        }
        assert(sx.subrange(1, sx.len() as int) =~= dx.subrange(i + 1, n as int));
        assert(sy.subrange(1, sy.len() as int) =~= dy.subrange(i + 1, m as int));
        i = i + 1;
    }
    if i < n {
        Ordering::Greater
    } else if i < m {
        Ordering::Less
    } else {
        Ordering::Equal
    }
}

#[verifier::loop_isolation(false)]
fn compare_mappings(a: &Value, b: &Value, xs: &Vec<(Value, Value)>, ys: &Vec<(Value, Value)>) -> (r: Ordering)
    requires
        *a == Value::Mapping(*xs),
        *b == Value::Mapping(*ys),
    ensures
        r == compare(a@, b@),
    decreases a, 0nat,
{
    let n = xs.len();
    let m = ys.len();
    let ghost dx = a@->Mapping_0;
    let ghost dy = b@->Mapping_0;
    assert(dx.subrange(0, n as int) =~= dx);
    assert(dy.subrange(0, m as int) =~= dy);
    let mut i: usize = 0;
    while i < n && i < m
        invariant
            0 <= i <= n,
            0 <= i <= m,
            dx.len() == n,
            dy.len() == m,
            compare_entries(dx, dy) == compare_entries(
                dx.subrange(i as int, n as int),
                dy.subrange(i as int, m as int),
            ),
        decreases n - i,
    {
        let ghost sx = dx.subrange(i as int, n as int);
        let ghost sy = dy.subrange(i as int, m as int);
        assert(sx[0] == (xs[i as int].0@, xs[i as int].1@));
        assert(sy[0] == (ys[i as int].0@, ys[i as int].1@));
        let c = compare_values(&xs[i].0, &ys[i].0);
        match c {
            Ordering::Equal => {},
            _ => {
                return c;
            },
        }
        let c = compare_values(&xs[i].1, &ys[i].1);
        match c {
            Ordering::Equal => {},
            _ => {
                return c;
            },
        }
        assert(sx.subrange(1, sx.len() as int) =~= dx.subrange(i + 1, n as int));
        assert(sy.subrange(1, sy.len() as int) =~= dy.subrange(i + 1, m as int));
        i = i + 1;
    }
    if i < n {
        Ordering::Greater
    } else if i < m {
        Ordering::Less
    } else {
        Ordering::Equal
    }
}

fn compare_values(a: &Value, b: &Value) -> (r: Ordering)
    ensures
        r == compare(a@, b@),
    decreases a, 1nat,
{
    match (a, b) {
        (Value::Bool(x), Value::Bool(y)) => order_ints(
            if *x { 1 } else { 0 },
            if *y { 1 } else { 0 },
        ),
        (Value::U8(x), Value::U8(y)) => order_ints(*x as i128, *y as i128),
        (Value::U16(x), Value::U16(y)) => order_ints(*x as i128, *y as i128),
        (Value::U32(x), Value::U32(y)) => order_ints(*x as i128, *y as i128),
        (Value::U64(x), Value::U64(y)) => order_ints(*x as i128, *y as i128),
        (Value::I8(x), Value::I8(y)) => order_ints(*x as i128, *y as i128),
        (Value::I16(x), Value::I16(y)) => order_ints(*x as i128, *y as i128),
        (Value::I32(x), Value::I32(y)) => order_ints(*x as i128, *y as i128),
        (Value::I64(x), Value::I64(y)) => order_ints(*x as i128, *y as i128),
        (Value::F32(x), Value::F32(y)) => order_ints(*x as i128, *y as i128),
        (Value::F64(x), Value::F64(y)) => order_ints(*x as i128, *y as i128),
        (Value::Char(x), Value::Char(y)) => order_ints(*x as u32 as i128, *y as u32 as i128),
        (Value::String(x), Value::String(y)) => compare_strings(x, y),
        (Value::Unit, Value::Unit) => Ordering::Equal,
        (Value::Option(x), Value::Option(y)) => match (x, y) {
            (None, None) => Ordering::Equal,
            (None, Some(_)) => Ordering::Less,
            (Some(_), None) => Ordering::Greater,
            (Some(p), Some(q)) => compare_values(p, q),
        },
        (Value::Newtype(p), Value::Newtype(q)) => compare_values(p, q),
        (Value::Sequence(xs), Value::Sequence(ys)) => compare_sequences(a, b, xs, ys),
        (Value::Mapping(xs), Value::Mapping(ys)) => compare_mappings(a, b, xs, ys),
        (Value::Bytes(x), Value::Bytes(y)) => compare_bytes(x, y),
        _ => {
            let p = discriminant(a);
            let q = discriminant(b);
            order_ints(p as i128, q as i128)
        },
    }
}

impl PartialOrd for Value {
    fn partial_cmp(&self, other: &Value) -> (r: Option<Ordering>) {
        Some(compare_values(self, other))
    }
}

impl vstd::std_specs::cmp::PartialOrdSpecImpl for Value {
    open spec fn obeys_partial_cmp_spec() -> bool {
        true
    }

    open spec fn partial_cmp_spec(&self, other: &Value) -> Option<Ordering> {
        Some(compare(self@, other@))
    }
}

impl Value {
    /// The diagnostic form of this value, as an error reports it.
    pub fn unexpected(&self) -> (r: Unexpected)
        ensures
            r.describes(self@),
    {
        match self {
            Value::Bool(b) => Unexpected::Bool(*b),
            Value::U8(n) => Unexpected::Unsigned(*n as u64),
            Value::U16(n) => Unexpected::Unsigned(*n as u64),
            Value::U32(n) => Unexpected::Unsigned(*n as u64),
            Value::U64(n) => Unexpected::Unsigned(*n),
            Value::I8(n) => Unexpected::Signed(*n as i64),
            Value::I16(n) => Unexpected::Signed(*n as i64),
            Value::I32(n) => Unexpected::Signed(*n as i64),
            Value::I64(n) => Unexpected::Signed(*n),
            Value::F32(k) => Unexpected::Float32(f32_from_key(*k)),
            Value::F64(k) => Unexpected::Float64(f64_from_key(*k)),
            Value::Char(c) => Unexpected::Char(*c),
            Value::String(s) => Unexpected::Str(s.clone()),
            Value::Unit => Unexpected::Unit,
            Value::Option(_) => Unexpected::Option,
            Value::Newtype(_) => Unexpected::NewtypeStruct,
            Value::Sequence(_) => Unexpected::Sequence,
            Value::Mapping(_) => Unexpected::Mapping,
            Value::Bytes(b) => Unexpected::Bytes(copy_bytes(b)),
        }
    }
}

/// Two values of different kinds compare as their kinds' ranks do.
pub proof fn lemma_compare_by_rank(a: Datum, b: Datum)
    requires
        rank(a) != rank(b),
    ensures
        compare(a, b) == ordering_of(rank(a), rank(b)),
{
}

/// A value never compares above one of a higher rank, nor below one of a lower
/// rank; only values of one kind compare equal.
pub proof fn lemma_compare_respects_rank(a: Datum, b: Datum)
    ensures
        compare(a, b) != Ordering::Greater ==> rank(a) <= rank(b),
        compare(a, b) != Ordering::Less ==> rank(a) >= rank(b),
        compare(a, b) == Ordering::Equal ==> rank(a) == rank(b),
{
    if rank(a) != rank(b) {
        lemma_compare_by_rank(a, b);
    }
}

/// Comparison is transitive across three values that are not all of one kind:
/// if `a` is at most `b` and `b` at most `c`, then `a` is below `c`.
pub proof fn lemma_compare_transitive_mixed(a: Datum, b: Datum, c: Datum)
    requires
        !(rank(a) == rank(b) && rank(b) == rank(c)),
        compare(a, b) != Ordering::Greater,
        compare(b, c) != Ordering::Greater,
    ensures
        compare(a, c) == Ordering::Less,
{
    lemma_compare_respects_rank(a, b);
    lemma_compare_respects_rank(b, c);
    lemma_compare_by_rank(a, c);
}

} // verus!
