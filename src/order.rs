//! The order on values is a total order: antisymmetric, equal exactly on
//! equal contents, and transitive.
use vstd::prelude::*;

use crate::value::{
    Datum, byte_codes, char_codes, compare, compare_codes, compare_entries, compare_seqs, rank,
    lemma_compare_by_rank, lemma_compare_respects_rank,
};
use std::cmp::Ordering;

verus! {

/// The reverse of an ordering.
pub open spec fn flip(o: Ordering) -> Ordering {
    match o {
        Ordering::Less => Ordering::Greater,
        Ordering::Equal => Ordering::Equal,
        Ordering::Greater => Ordering::Less,
    }
}

proof fn lemma_codes_antisymmetric(xs: Seq<int>, ys: Seq<int>)
    ensures
        compare_codes(xs, ys) == flip(compare_codes(ys, xs)),
        compare_codes(xs, ys) == Ordering::Equal <==> xs == ys,
    decreases xs.len(),
{
    if xs.len() > 0 && ys.len() > 0 {
        let tx = xs.subrange(1, xs.len() as int);
        let ty = ys.subrange(1, ys.len() as int);
        lemma_codes_antisymmetric(tx, ty);
        if xs[0] == ys[0] && tx == ty {
            assert(xs =~= ys) by {
                assert forall|i: int| 0 <= i < xs.len() implies xs[i] == ys[i] by {
                    if i > 0 {
                        assert(xs[i] == tx[i - 1] && ys[i] == ty[i - 1]);
                    }
                }
            }
        }
        if xs == ys {
            assert(tx == ty);
        }
    } else if xs.len() == 0 && ys.len() == 0 {
        assert(xs =~= ys);
    }
}

proof fn lemma_codes_transitive(xs: Seq<int>, ys: Seq<int>, zs: Seq<int>)
    requires
        compare_codes(xs, ys) != Ordering::Greater,
        compare_codes(ys, zs) != Ordering::Greater,
    ensures
        compare_codes(xs, zs) != Ordering::Greater,
    decreases xs.len(),
{
    if xs.len() > 0 && ys.len() > 0 && zs.len() > 0 {
        if xs[0] == ys[0] && ys[0] == zs[0] {
            lemma_codes_transitive(
                xs.subrange(1, xs.len() as int),
                ys.subrange(1, ys.len() as int),
                zs.subrange(1, zs.len() as int),
            );
        }
    }
}

/// Swapping the two sides of a comparison reverses its result.
pub proof fn lemma_compare_antisymmetric(a: Datum, b: Datum)
    ensures
        compare(a, b) == flip(compare(b, a)),
    decreases a,
{
    match (a, b) {
        (Datum::Str(x), Datum::Str(y)) => lemma_codes_antisymmetric(char_codes(x), char_codes(y)),
        (Datum::Bytes(x), Datum::Bytes(y)) => lemma_codes_antisymmetric(byte_codes(x), byte_codes(y)),
        (Datum::Option(Some(p)), Datum::Option(Some(q))) => lemma_compare_antisymmetric(*p, *q),
        (Datum::Newtype(p), Datum::Newtype(q)) => lemma_compare_antisymmetric(*p, *q),
        (Datum::Sequence(xs), Datum::Sequence(ys)) => lemma_seqs_antisymmetric(xs, ys),
        (Datum::Mapping(xs), Datum::Mapping(ys)) => lemma_entries_antisymmetric(xs, ys),
        _ => {},
    }
}

proof fn lemma_seqs_antisymmetric(xs: Seq<Datum>, ys: Seq<Datum>)
    ensures
        compare_seqs(xs, ys) == flip(compare_seqs(ys, xs)),
    decreases xs,
{
    if xs.len() > 0 && ys.len() > 0 {
        lemma_compare_antisymmetric(xs[0], ys[0]);
        lemma_seqs_antisymmetric(xs.subrange(1, xs.len() as int), ys.subrange(1, ys.len() as int));
    }
}

proof fn lemma_entries_antisymmetric(xs: Seq<(Datum, Datum)>, ys: Seq<(Datum, Datum)>)
    ensures
        compare_entries(xs, ys) == flip(compare_entries(ys, xs)),
    decreases xs,
{
    if xs.len() > 0 && ys.len() > 0 {
        lemma_compare_antisymmetric(xs[0].0, ys[0].0);
        lemma_compare_antisymmetric(xs[0].1, ys[0].1);
        lemma_entries_antisymmetric(
            xs.subrange(1, xs.len() as int),
            ys.subrange(1, ys.len() as int),
        );
    }
}

/// Two values compare equal exactly when their contents are equal.
pub proof fn lemma_compare_equal(a: Datum, b: Datum)
    ensures
        compare(a, b) == Ordering::Equal <==> a == b,
    decreases a,
{
    match (a, b) {
        (Datum::Str(x), Datum::Str(y)) => {
            lemma_codes_antisymmetric(char_codes(x), char_codes(y));
            if char_codes(x) == char_codes(y) {
                assert(x =~= y) by {
                    assert forall|i: int| 0 <= i < x.len() implies x[i] == y[i] by {
                        assert(char_codes(x)[i] == char_codes(y)[i]);
                    }
                }
            }
        },
        (Datum::Bytes(x), Datum::Bytes(y)) => {
            lemma_codes_antisymmetric(byte_codes(x), byte_codes(y));
            if byte_codes(x) == byte_codes(y) {
                assert(x =~= y) by {
                    assert forall|i: int| 0 <= i < x.len() implies x[i] == y[i] by {
                        assert(byte_codes(x)[i] == byte_codes(y)[i]);
                    }
                }
            }
        },
        (Datum::Option(Some(p)), Datum::Option(Some(q))) => lemma_compare_equal(*p, *q),
        (Datum::Newtype(p), Datum::Newtype(q)) => lemma_compare_equal(*p, *q),
        (Datum::Sequence(xs), Datum::Sequence(ys)) => lemma_seqs_equal(xs, ys),
        (Datum::Mapping(xs), Datum::Mapping(ys)) => lemma_entries_equal(xs, ys),
        _ => {
            if rank(a) != rank(b) {
                lemma_compare_by_rank(a, b);
            }
        },
    }
}

proof fn lemma_seqs_equal(xs: Seq<Datum>, ys: Seq<Datum>)
    ensures
        compare_seqs(xs, ys) == Ordering::Equal <==> xs == ys,
    decreases xs,
{
    if xs.len() > 0 && ys.len() > 0 {
        let tx = xs.subrange(1, xs.len() as int);
        let ty = ys.subrange(1, ys.len() as int);
        lemma_compare_equal(xs[0], ys[0]);
        lemma_seqs_equal(tx, ty);
        if xs[0] == ys[0] && tx == ty {
            assert(xs =~= ys) by {
                assert forall|i: int| 0 <= i < xs.len() implies xs[i] == ys[i] by {
                    if i > 0 {
                        assert(xs[i] == tx[i - 1] && ys[i] == ty[i - 1]);
                    }
                }
            }
        }
        if xs == ys {
            assert(tx == ty);
        }
    } else if xs.len() == 0 && ys.len() == 0 {
        assert(xs =~= ys);
    }
}

proof fn lemma_entries_equal(xs: Seq<(Datum, Datum)>, ys: Seq<(Datum, Datum)>)
    ensures
        compare_entries(xs, ys) == Ordering::Equal <==> xs == ys,
    decreases xs,
{
    if xs.len() > 0 && ys.len() > 0 {
        let tx = xs.subrange(1, xs.len() as int);
        let ty = ys.subrange(1, ys.len() as int);
        lemma_compare_equal(xs[0].0, ys[0].0);
        lemma_compare_equal(xs[0].1, ys[0].1);
        lemma_entries_equal(tx, ty);
        if xs[0] == ys[0] && tx == ty {
            assert(xs =~= ys) by {
                assert forall|i: int| 0 <= i < xs.len() implies xs[i] == ys[i] by {
                    if i > 0 {
                        assert(xs[i] == tx[i - 1] && ys[i] == ty[i - 1]);
                    }
                }
            }
        }
        if xs == ys {
            assert(tx == ty);
        }
    } else if xs.len() == 0 && ys.len() == 0 {
        assert(xs =~= ys);
    }
}

/// The order is transitive: if `a` is at most `b` and `b` at most `c`, then
/// `a` is at most `c`, and below it when either step is strict.
pub proof fn lemma_compare_transitive(a: Datum, b: Datum, c: Datum)
    requires
        compare(a, b) != Ordering::Greater,
        compare(b, c) != Ordering::Greater,
    ensures
        compare(a, c) != Ordering::Greater,
        compare(a, b) == Ordering::Less || compare(b, c) == Ordering::Less ==> compare(a, c)
            == Ordering::Less,
{
    lemma_compare_at_most(a, b, c);
    if compare(a, c) == Ordering::Equal {
        lemma_compare_equal(a, c);
        lemma_compare_antisymmetric(a, b);
        lemma_compare_antisymmetric(b, c);
    }
}

proof fn lemma_compare_at_most(a: Datum, b: Datum, c: Datum)
    requires
        compare(a, b) != Ordering::Greater,
        compare(b, c) != Ordering::Greater,
    ensures
        compare(a, c) != Ordering::Greater,
    decreases a,
{
    lemma_compare_respects_rank(a, b);
    lemma_compare_respects_rank(b, c);
    if rank(a) != rank(c) {
        lemma_compare_by_rank(a, c);
    } else {
        match (a, b, c) {
            (Datum::Str(x), Datum::Str(y), Datum::Str(z)) => lemma_codes_transitive(
                char_codes(x),
                char_codes(y),
                char_codes(z),
            ),
            (Datum::Bytes(x), Datum::Bytes(y), Datum::Bytes(z)) => lemma_codes_transitive(
                byte_codes(x),
                byte_codes(y),
                byte_codes(z),
            ),
            (Datum::Option(Some(p)), Datum::Option(Some(q)), Datum::Option(Some(r))) => {
                lemma_compare_at_most(*p, *q, *r)
            },
            (Datum::Newtype(p), Datum::Newtype(q), Datum::Newtype(r)) => lemma_compare_at_most(
                *p,
                *q,
                *r,
            ),
            (Datum::Sequence(xs), Datum::Sequence(ys), Datum::Sequence(zs)) => lemma_seqs_at_most(
                xs,
                ys,
                zs,
            ),
            (Datum::Mapping(xs), Datum::Mapping(ys), Datum::Mapping(zs)) => lemma_entries_at_most(
                xs,
                ys,
                zs,
            ),
            _ => {},
        }
    }
}

proof fn lemma_seqs_at_most(xs: Seq<Datum>, ys: Seq<Datum>, zs: Seq<Datum>)
    requires
        compare_seqs(xs, ys) != Ordering::Greater,
        compare_seqs(ys, zs) != Ordering::Greater,
    ensures
        compare_seqs(xs, zs) != Ordering::Greater,
    decreases xs,
{
    if xs.len() > 0 && ys.len() > 0 && zs.len() > 0 {
        lemma_compare_at_most(xs[0], ys[0], zs[0]);
        if compare(xs[0], zs[0]) == Ordering::Equal {
            lemma_compare_equal(xs[0], zs[0]);
            lemma_compare_antisymmetric(xs[0], ys[0]);
            lemma_compare_antisymmetric(ys[0], zs[0]);
            lemma_seqs_at_most(
                xs.subrange(1, xs.len() as int),
                ys.subrange(1, ys.len() as int),
                zs.subrange(1, zs.len() as int),
            );
        }
    }
}

proof fn lemma_entries_at_most(
    xs: Seq<(Datum, Datum)>,
    ys: Seq<(Datum, Datum)>,
    zs: Seq<(Datum, Datum)>,
)
    requires
        compare_entries(xs, ys) != Ordering::Greater,
        compare_entries(ys, zs) != Ordering::Greater,
    ensures
        compare_entries(xs, zs) != Ordering::Greater,
    decreases xs,
{
    if xs.len() > 0 && ys.len() > 0 && zs.len() > 0 {
        lemma_compare_at_most(xs[0].0, ys[0].0, zs[0].0);
        if compare(xs[0].0, zs[0].0) == Ordering::Equal {
            lemma_compare_equal(xs[0].0, zs[0].0);
            lemma_compare_antisymmetric(xs[0].0, ys[0].0);
            lemma_compare_antisymmetric(ys[0].0, zs[0].0);
            lemma_compare_at_most(xs[0].1, ys[0].1, zs[0].1);
            if compare(xs[0].1, zs[0].1) == Ordering::Equal {
                lemma_compare_equal(xs[0].1, zs[0].1);
                lemma_compare_antisymmetric(xs[0].1, ys[0].1);
                lemma_compare_antisymmetric(ys[0].1, zs[0].1);
                lemma_entries_at_most(
                    xs.subrange(1, xs.len() as int),
                    ys.subrange(1, ys.len() as int),
                    zs.subrange(1, zs.len() as int),
                );
            }
        }
    }
}

} // verus!
