use vstd::prelude::*;

use indexmap::IndexMap;

use crate::error::Error;
use crate::value::{Datum, Value, entries_view};
use crate::Result;

verus! {

#[verifier::external_type_specification]
#[verifier::external_body]
#[verifier::reject_recursive_types(K)]
#[verifier::reject_recursive_types(V)]
#[verifier::reject_recursive_types(S)]
pub struct ExIndexMap<K, V, S>(IndexMap<K, V, S>);

/// The entries of an `IndexMap`, in iteration order. The map compares keys with
/// `==` on [`Value`], which is equality of content, and hashes them with the
/// derived `Hash`, which agrees with it; so its keys are distinct by content.
pub uninterp spec fn index_map_entries(m: IndexMap<Value, Value>) -> Seq<(Value, Value)>;

/// No two entries have keys with the same content.
pub open spec fn keys_unique(s: Seq<(Datum, Datum)>) -> bool {
    forall|i: int, j: int|
        0 <= i < s.len() && 0 <= j < s.len() && #[trigger] s[i].0 == #[trigger] s[j].0 ==> i == j
}

/// `d` is a mapping whose keys are distinct by content, as a map's are.
pub open spec fn is_keyed_mapping(d: Datum) -> bool {
    d matches Datum::Mapping(entries) && keys_unique(entries)
}

/// The position of the entry whose key is `k`, if any.
pub open spec fn find(s: Seq<(Datum, Datum)>, k: Datum) -> Option<int> {
    if exists|i: int| 0 <= i < s.len() && #[trigger] s[i].0 == k {
        Some(choose|i: int| 0 <= i < s.len() && #[trigger] s[i].0 == k)
    } else {
        None
    }
}

/// `s` after inserting `(k, v)`: a present key keeps its place and takes the
/// new value; an absent one is appended.
pub open spec fn insert_entry(s: Seq<(Datum, Datum)>, k: Datum, v: Datum) -> Seq<(Datum, Datum)> {
    match find(s, k) {
        Some(i) => s.update(i, (k, v)),
        None => s.push((k, v)),
    }
}

/// `s` after inserting each entry of `t` in order.
pub open spec fn insert_all(s: Seq<(Datum, Datum)>, t: Seq<(Datum, Datum)>) -> Seq<(Datum, Datum)>
    decreases t.len(),
{
    if t.len() == 0 {
        s
    } else {
        insert_all(insert_entry(s, t[0].0, t[0].1), t.subrange(1, t.len() as int))
    }
}

/// `s` with `(k, v)` first: an entry with key `k` moves to the front and takes
/// the new value; otherwise the entry is inserted there.
pub open spec fn insert_front(s: Seq<(Datum, Datum)>, k: Datum, v: Datum) -> Seq<(Datum, Datum)> {
    match find(s, k) {
        Some(i) => seq![(k, v)] + s.remove(i),
        None => seq![(k, v)] + s,
    }
}

/// Relies on `IndexMap::new`: a new map is empty.
#[verifier::external_body]
fn new_index_map() -> (m: IndexMap<Value, Value>)
    ensures
        index_map_entries(m) == Seq::<(Value, Value)>::empty(),
{
    IndexMap::new()
}

/// Relies on `IndexMap::shift_remove`: the entry with an equal key, if any, is
/// removed and its value returned; the others keep their order.
#[verifier::external_body]
fn remove_entry(m: &mut IndexMap<Value, Value>, key: &Value) -> (r: Option<Value>)
    ensures
        keys_unique(entries_view(index_map_entries(*final(m)))),
        match find(entries_view(index_map_entries(*old(m))), key@) {
            Some(i) => r == Some(index_map_entries(*old(m))[i].1) && index_map_entries(*final(m))
                == index_map_entries(*old(m)).remove(i),
            None => r is None && index_map_entries(*final(m)) == index_map_entries(*old(m)),
        },
{
    m.shift_remove(key)
}

/// Relies on `IndexMap::insert_before` at index 0: the entry goes first; a
/// present key keeps its stored key, takes the new value and moves first.
#[verifier::external_body]
fn put_first(m: &mut IndexMap<Value, Value>, key: Value, value: Value)
    ensures
        keys_unique(entries_view(index_map_entries(*final(m)))),
        entries_view(index_map_entries(*final(m))) == insert_front(
            entries_view(index_map_entries(*old(m))),
            key@,
            value@,
        ),
{
    m.insert_before(0, key, value);
}

/// Relies on `Extend for IndexMap`: the same as `insert` of each entry in order.
#[verifier::external_body]
fn extend_with(m: &mut IndexMap<Value, Value>, other: IndexMap<Value, Value>)
    ensures
        keys_unique(entries_view(index_map_entries(*final(m)))),
        entries_view(index_map_entries(*final(m))) == insert_all(
            entries_view(index_map_entries(*old(m))),
            entries_view(index_map_entries(other)),
        ),
{
    m.extend(other);
}

/// Relies on `FromIterator for IndexMap`: the same as `extend` of an empty map.
#[verifier::external_body]
fn collect_entries(entries: Vec<(Value, Value)>) -> (m: IndexMap<Value, Value>)
    ensures
        keys_unique(entries_view(index_map_entries(m))),
        entries_view(index_map_entries(m)) == insert_all(Seq::empty(), entries_view(entries@)),
{
    entries.into_iter().collect()
}

/// Relies on `IndexMap::iter`: the entries in order, each copied by `Value::clone`.
#[verifier::external_body]
fn copy_entries(m: &IndexMap<Value, Value>) -> (r: Vec<(Value, Value)>)
    ensures
        entries_view(r@) == entries_view(index_map_entries(*m)),
{
    m.iter().map(|(k, v)| (k.clone(), v.clone())).collect()
}

/// Relies on `IntoIterator for IndexMap`: the entries in order.
#[verifier::external_body]
fn into_entries(m: IndexMap<Value, Value>) -> (r: Vec<(Value, Value)>)
    ensures
        r@ == index_map_entries(m),
{
    m.into_iter().collect()
}

/// A map of fields and their values, in order of insertion, read by removing
/// each field as it is decoded.
#[derive(Debug)]
pub struct FieldMap {
    raw: IndexMap<Value, Value>,
}

impl View for FieldMap {
    type V = Seq<(Datum, Datum)>;

    open spec fn view(&self) -> Seq<(Datum, Datum)> {
        entries_view(self.entries())
    }
}

impl FieldMap {
    #[verifier::type_invariant]
    spec fn wf(self) -> bool {
        keys_unique(entries_view(index_map_entries(self.raw)))
    }

    /// The entries, in order.
    pub closed spec fn entries(&self) -> Seq<(Value, Value)> {
        index_map_entries(self.raw)
    }

    /// Creates a new empty [`FieldMap`].
    pub fn new() -> (r: FieldMap)
        ensures
            r.entries() == Seq::<(Value, Value)>::empty(),
            r@ == Seq::<(Datum, Datum)>::empty(),
            keys_unique(r@),
    {
        let r = FieldMap { raw: new_index_map() };
        assert(r@ =~= Seq::<(Datum, Datum)>::empty());
        r
    }

    /// Creates a [`FieldMap`] from key-value pairs, inserted in order: a repeated
    /// key keeps its first place and takes its last value.
    pub fn from_entries(entries: Vec<(Value, Value)>) -> (r: FieldMap)
        ensures
            keys_unique(r@),
            r@ == insert_all(Seq::empty(), entries_view(entries@)),
    {
        FieldMap { raw: collect_entries(entries) }
    }

    /// Removes the field `key` and returns its value.
    pub(crate) fn take(&mut self, key: &str) -> (r: Result<Value>)
        ensures
            keys_unique(old(self)@),
            keys_unique(final(self)@),
            match find(old(self)@, Datum::Str(key@)) {
                Some(i) => r == Ok::<Value, Error>(old(self).entries()[i].1)
                    && final(self).entries() == old(self).entries().remove(i),
                None => final(self).entries() == old(self).entries() && (r matches Err(e)
                    && e.is_field_missing(key@, old(self)@)),
            },
    {
        proof {
            use_type_invariant(&*self);
        }
        let k = Value::String(key.to_owned());
        let mut raw = new_index_map();
        std::mem::swap(&mut raw, &mut self.raw);
        let removed = remove_entry(&mut raw, &k);
        self.raw = raw;
        match removed {
            Some(v) => Ok(v),
            None => Err(Error::FieldMissing { key: key.to_owned(), map: copy_entries(&self.raw) }),
        }
    }

    /// Decodes the given field of the [`FieldMap`] using the given [`Decoder`],
    /// removing the field. A missing field is an error that carries the
    /// entries still present.
    pub fn required<T>(&mut self, key: &str, decoder: impl Fn(Value) -> Result<T>) -> (r: Result<T>)
        requires
            forall|v: Value| #[trigger] decoder.requires((v,)),
        ensures
            keys_unique(old(self)@),
            keys_unique(final(self)@),
            match find(old(self)@, Datum::Str(key@)) {
                Some(i) => final(self).entries() == old(self).entries().remove(i) && decoder.ensures(
                    (old(self).entries()[i].1,),
                    r,
                ),
                None => final(self).entries() == old(self).entries() && (r matches Err(e)
                    && e.is_field_missing(key@, old(self)@)),
            },
    {
        proof {
            use_type_invariant(&*self);
        }
        let value = match self.take(key) {
            Ok(v) => v,
            Err(e) => {
                return Err(e);
            },
        };
        decoder(value)
    }

    /// Decodes the given field of the [`FieldMap`] using the given [`Decoder`],
    /// if present, removing the field. A missing field and a field holding
    /// [`Value::Unit`] both give `None`.
    pub fn optional<T>(&mut self, key: &str, decoder: impl Fn(Value) -> Result<T>) -> (r: Result<
        Option<T>,
    >)
        requires
            forall|v: Value| #[trigger] decoder.requires((v,)),
        ensures
            keys_unique(old(self)@),
            keys_unique(final(self)@),
            match find(old(self)@, Datum::Str(key@)) {
                Some(i) => final(self).entries() == old(self).entries().remove(i) && if old(
                    self,
                )@[i].1 == Datum::Unit {
                    r == Ok::<Option<T>, Error>(None)
                } else {
                    decodes_present(decoder, old(self).entries()[i].1, r)
                },
                None => final(self).entries() == old(self).entries() && r == Ok::<
                    Option<T>,
                    Error,
                >(None),
            },
    {
        proof {
            use_type_invariant(&*self);
        }
        let value = match self.take(key) {
            Ok(v) => v,
            Err(_) => {
                return Ok(None);
            },
        };
        if let Value::Unit = value {
            return Ok(None);
        }
        match decoder(value) {
            Ok(t) => Ok(Some(t)),
            Err(e) => Err(e),
        }
    }

    /// Inserts a field in the [`FieldMap`] before all the other fields; a field
    /// with the same key moves to the front with the new value.
    pub fn tag(self, key: &str, value: &str) -> (r: FieldMap)
        ensures
            keys_unique(self@),
            keys_unique(r@),
            r@ == insert_front(self@, Datum::Str(key@), Datum::Str(value@)),
    {
        proof {
            use_type_invariant(&self);
        }
        let FieldMap { mut raw } = self;
        let k = Value::String(key.to_owned());
        let v = Value::String(value.to_owned());
        put_first(&mut raw, k, v);
        FieldMap { raw }
    }

    /// Extends the [`FieldMap`] with the fields of the given one, in order: a
    /// key already present keeps its place and takes the new value.
    pub fn extend(self, other: FieldMap) -> (r: FieldMap)
        ensures
            keys_unique(self@),
            keys_unique(other@),
            keys_unique(r@),
            r@ == insert_all(self@, other@),
    {
        proof {
            use_type_invariant(&self);
            use_type_invariant(&other);
        }
        let FieldMap { mut raw } = self;
        let FieldMap { raw: more } = other;
        extend_with(&mut raw, more);
        FieldMap { raw }
    }

    /// Converts the [`FieldMap`] into a [`Value`].
    pub fn into_value(self) -> (r: Value)
        ensures
            r matches Value::Mapping(entries) && entries@ == self.entries(),
            r@ == Datum::Mapping(self@),
            keys_unique(self@),
            is_keyed_mapping(r@),
    {
        proof {
            use_type_invariant(&self);
        }
        let FieldMap { raw } = self;
        let entries = into_entries(raw);
        let r = Value::Mapping(entries);
        assert(r@->Mapping_0 =~= self@);
        r
    }
}

impl Default for FieldMap {
    fn default() -> (r: FieldMap)
        ensures
            r@ == Seq::<(Datum, Datum)>::empty(),
    {
        FieldMap::new()
    }
}

impl Clone for FieldMap {
    /// A copy with the same entries.
    fn clone(&self) -> (r: FieldMap)
        ensures
            r@ == self@,
            keys_unique(self@),
            keys_unique(r@),
    {
        proof {
            use_type_invariant(self);
        }
        let entries = copy_entries(&self.raw);
        proof {
            assert(Seq::<(Datum, Datum)>::empty() + self@ =~= self@);
            lemma_insert_all_fresh(Seq::empty(), self@);
        }
        FieldMap { raw: collect_entries(entries) }
    }
}

/// The tagged field comes first, whatever the map held before.
pub proof fn lemma_tag_first(s: Seq<(Datum, Datum)>, k: Datum, v: Datum)
    ensures
        insert_front(s, k, v).len() > 0,
        insert_front(s, k, v)[0] == (k, v),
{
}

/// `r` is a result of running `f` on `v`, with a success wrapped in `Some`.
pub open spec fn decodes_present<T, F: Fn(Value) -> Result<T>>(f: F, v: Value, r: Result<Option<T>>) -> bool {
    match r {
        Ok(Some(t)) => f.ensures((v,), Ok::<T, Error>(t)),
        Ok(None) => false,
        Err(e) => f.ensures((v,), Err::<T, Error>(e)),
    }
}

/// Inserting one entry keeps keys distinct, keeps every existing key in its
/// place, changes only the entry with key `k`, and leaves `(k, v)` in the map.
pub proof fn lemma_insert_entry(s: Seq<(Datum, Datum)>, k: Datum, v: Datum)
    requires
        keys_unique(s),
    ensures
        keys_unique(insert_entry(s, k, v)),
        insert_entry(s, k, v).len() >= s.len(),
        forall|i: int| 0 <= i < s.len() ==> #[trigger] insert_entry(s, k, v)[i].0 == s[i].0,
        forall|i: int|
            0 <= i < s.len() && s[i].0 != k ==> #[trigger] insert_entry(s, k, v)[i] == s[i],
        find(insert_entry(s, k, v), k) is Some,
        insert_entry(s, k, v)[find(insert_entry(s, k, v), k)->0] == (k, v),
{
    let r = insert_entry(s, k, v);
    match find(s, k) {
        Some(i) => {
            assert(r[i].0 == k);
        },
        None => {
            assert(r[s.len() as int].0 == k);
        },
    }
}

/// Inserting entries keeps keys distinct and keeps every existing key in its
/// place.
pub proof fn lemma_insert_all_keeps_keys(s: Seq<(Datum, Datum)>, t: Seq<(Datum, Datum)>)
    requires
        keys_unique(s),
    ensures
        keys_unique(insert_all(s, t)),
        insert_all(s, t).len() >= s.len(),
        forall|i: int| 0 <= i < s.len() ==> #[trigger] insert_all(s, t)[i].0 == s[i].0,
    decreases t.len(),
{
    if t.len() > 0 {
        let s2 = insert_entry(s, t[0].0, t[0].1);
        lemma_insert_entry(s, t[0].0, t[0].1);
        lemma_insert_all_keeps_keys(s2, t.subrange(1, t.len() as int));
        assert forall|i: int| 0 <= i < s.len() implies #[trigger] insert_all(s, t)[i].0 == s[i].0 by {
            assert(s2[i].0 == s[i].0);
        }
    }
}

/// Inserting entries whose keys all differ from the key at `i` leaves that
/// entry as it was.
pub proof fn lemma_insert_all_untouched(s: Seq<(Datum, Datum)>, t: Seq<(Datum, Datum)>, i: int)
    requires
        keys_unique(s),
        0 <= i < s.len(),
        forall|m: int| 0 <= m < t.len() ==> #[trigger] t[m].0 != s[i].0,
    ensures
        insert_all(s, t)[i] == s[i],
    decreases t.len(),
{
    if t.len() > 0 {
        let s2 = insert_entry(s, t[0].0, t[0].1);
        let t2 = t.subrange(1, t.len() as int);
        lemma_insert_entry(s, t[0].0, t[0].1);
        assert(t[0].0 != s[i].0);
        assert forall|m: int| 0 <= m < t2.len() implies #[trigger] t2[m].0 != s2[i].0 by {
            assert(t2[m] == t[m + 1]);
        }
        lemma_insert_all_untouched(s2, t2, i);
    }
}

/// Extending with a key present in both maps overwrites the value in place:
/// the entry keeps its position and its key and takes the newer value.
pub proof fn lemma_extend_overwrites_in_place(
    s: Seq<(Datum, Datum)>,
    t: Seq<(Datum, Datum)>,
    i: int,
    j: int,
)
    requires
        keys_unique(s),
        keys_unique(t),
        0 <= i < s.len(),
        0 <= j < t.len(),
        s[i].0 == t[j].0,
    ensures
        insert_all(s, t).len() >= s.len(),
        insert_all(s, t)[i] == (s[i].0, t[j].1),
    decreases t.len(),
{
    lemma_insert_all_keeps_keys(s, t);
    let s2 = insert_entry(s, t[0].0, t[0].1);
    let t2 = t.subrange(1, t.len() as int);
    lemma_insert_entry(s, t[0].0, t[0].1);
    if j == 0 {
        assert(find(s, t[0].0) == Some(i));
        assert(s2[i] == (s[i].0, t[0].1));
        assert forall|m: int| 0 <= m < t2.len() implies #[trigger] t2[m].0 != s2[i].0 by {
            assert(t2[m] == t[m + 1]);
        }
        lemma_insert_all_untouched(s2, t2, i);
    } else {
        assert(t[0].0 != s[i].0);
        assert(s2[i] == s[i]);
        assert(t2[j - 1] == t[j]);
        assert(keys_unique(t2)) by {
            assert forall|a: int, b: int|
                0 <= a < t2.len() && 0 <= b < t2.len() && #[trigger] t2[a].0 == #[trigger] t2[b].0
                implies a == b by {
                assert(t2[a] == t[a + 1] && t2[b] == t[b + 1]);
            }
        }
        lemma_extend_overwrites_in_place(s2, t2, i, j - 1);
    }
}

/// Inserting entries with distinct keys that are new to `s` appends them.
pub proof fn lemma_insert_all_fresh(s: Seq<(Datum, Datum)>, t: Seq<(Datum, Datum)>)
    requires
        keys_unique(s + t),
    ensures
        insert_all(s, t) == s + t,
    decreases t.len(),
{
    if t.len() > 0 {
        let st = s + t;
        assert forall|i: int| 0 <= i < s.len() implies #[trigger] s[i].0 != t[0].0 by {
            assert(st[i] == s[i] && st[s.len() as int] == t[0]);
        }
        assert(find(s, t[0].0) is None);
        let s2 = s.push(t[0]);
        let t2 = t.subrange(1, t.len() as int);
        assert(s2 + t2 =~= s + t);
        lemma_insert_all_fresh(s2, t2);
    } else {
        assert(s + t =~= s);
    }
}

/// A field is handed out at most once: once the entry with key `k` has been
/// removed, no entry has that key, and the other keys stay distinct.
pub proof fn lemma_field_taken_once(s: Seq<(Datum, Datum)>, k: Datum)
    requires
        keys_unique(s),
        find(s, k) is Some,
    ensures
        find(s.remove(find(s, k)->0), k) is None,
        keys_unique(s.remove(find(s, k)->0)),
{
    let i = find(s, k)->0;
    let r = s.remove(i);
    assert forall|m: int| 0 <= m < r.len() implies #[trigger] r[m].0 != k by {
        if m < i {
            assert(r[m] == s[m]);
        } else {
            assert(r[m] == s[m + 1]);
        }
    }
    assert forall|a: int, b: int|
        0 <= a < r.len() && 0 <= b < r.len() && #[trigger] r[a].0 == #[trigger] r[b].0
        implies a == b by {
        let a2 = if a < i { a } else { a + 1 };
        let b2 = if b < i { b } else { b + 1 };
        assert(r[a] == s[a2] && r[b] == s[b2]);
    }
}

} // verus!
