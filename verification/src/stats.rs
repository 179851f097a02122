//! Order statistics over doubles that are held by their bit patterns.

use vstd::prelude::*;

use crate::number::{self, at_most, magnitude, not_a_number, SIGN};

verus! {

/// The bit pattern of the largest finite double.
pub const LARGEST: u64 = 0x7fef_ffff_ffff_ffff;

/// The bit pattern of negative infinity.
pub const NEGATIVE_INFINITY: u64 = 0xfff0_0000_0000_0000;

/// The bit pattern that stands for "not a number".
pub const NAN: u64 = 0x7ff8_0000_0000_0000;

/// Where a bit pattern stands in the total order of doubles, in which negative zero is
/// below positive zero and what is not a number stands at the ends.
pub open spec fn total(bits: u64) -> int {
    if bits >= SIGN {
        -(magnitude(bits) as int) - 1
    } else {
        bits as int
    }
}

fn before(a: u64, b: u64) -> (r: bool)
    ensures
        r == (total(a) < total(b)),
{
    if a >= SIGN {
        if b >= SIGN {
            a > b
        } else {
            true
        }
    } else if b >= SIGN {
        false
    } else {
        a < b
    }
}

/// How many of the ordered `v` stand before one that came after them.
pub open spec fn place(v: Seq<u64>, x: u64) -> nat
    decreases v.len(),
{
    if v.len() == 0 {
        0
    } else if total(v.last()) <= total(x) {
        v.len()
    } else {
        place(v.drop_last(), x)
    }
}

/// Some doubles in ascending order.
pub open spec fn ordered(v: Seq<u64>) -> Seq<u64>
    decreases v.len(),
{
    if v.len() == 0 {
        seq![]
    } else {
        let rest = ordered(v.drop_last());
        rest.insert(place(rest, v.last()) as int, v.last())
    }
}

proof fn lemma_place(v: Seq<u64>, x: u64)
    requires
        forall|i: int, j: int| 0 <= i <= j < v.len() ==> total(v[i]) <= total(v[j]),
    ensures
        place(v, x) <= v.len(),
        forall|i: int| 0 <= i < place(v, x) ==> total(#[trigger] v[i]) <= total(x),
        forall|i: int| place(v, x) <= i < v.len() ==> total(x) < total(#[trigger] v[i]),
    decreases v.len(),
{
    if v.len() > 0 {
        if total(v.last()) <= total(x) {
            assert forall|i: int| 0 <= i < v.len() implies total(#[trigger] v[i]) <= total(x) by {
                assert(total(v[i]) <= total(v[v.len() - 1]));
            }
        } else {
            let w = v.drop_last();
            assert forall|i: int, j: int| 0 <= i <= j < w.len() implies total(w[i]) <= total(
                w[j],
            ) by {
                assert(total(v[i]) <= total(v[j]));
            }
            lemma_place(w, x);
            assert forall|i: int| 0 <= i < place(v, x) implies total(#[trigger] v[i])
                <= total(x) by {
                assert(w[i] == v[i]);
            }
            assert forall|i: int| place(v, x) <= i < v.len() implies total(x) < total(
                #[trigger] v[i],
            ) by {
                if i < v.len() - 1 {
                    assert(w[i] == v[i]);
                }
            }
        }
    }
}

/// `ordered` gives the same doubles, ascending.
pub proof fn law_ordered_is_sorted(v: Seq<u64>)
    ensures
        ordered(v).len() == v.len(),
        ordered(v).to_multiset() == v.to_multiset(),
        forall|i: int, j: int|
            0 <= i <= j < v.len() ==> total(ordered(v)[i]) <= total(ordered(v)[j]),
    decreases v.len(),
{
    broadcast use vstd::seq_lib::group_to_multiset_ensures;

    if v.len() > 0 {
        let rest = ordered(v.drop_last());
        let x = v.last();
        law_ordered_is_sorted(v.drop_last());
        lemma_place(rest, x);
        let p = place(rest, x) as int;
        assert(v =~= v.drop_last().push(x));
        vstd::seq_lib::to_multiset_insert(rest, p, x);
        vstd::seq_lib::to_multiset_build(v.drop_last(), x);
        let b = ordered(v);
        assert forall|i: int, j: int| 0 <= i <= j < v.len() implies total(b[i]) <= total(b[j]) by {
            let bi = if i < p {
                rest[i]
            } else if i == p {
                x
            } else {
                rest[i - 1]
            };
            let bj = if j < p {
                rest[j]
            } else if j == p {
                x
            } else {
                rest[j - 1]
            };
            assert(b[i] == bi);
            assert(b[j] == bj);
        }
    } else {
        assert(ordered(v) =~= v);
    }
}

fn find_place(v: &Vec<u64>, x: u64) -> (r: usize)
    ensures
        r == place(v@, x),
        r <= v@.len(),
{
    let mut n: usize = v.len();
    assert(v@.take(n as int) =~= v@);
    while n > 0 && before(x, v[n - 1])
        invariant
            n <= v@.len(),
            place(v@.take(n as int), x) == place(v@, x),
        decreases n,
    {
        assert(v@.take(n as int).drop_last() =~= v@.take(n - 1));
        assert(v@.take(n as int).last() == v@[n - 1]);
        n = n - 1;
    }
    assert(n > 0 ==> v@.take(n as int).last() == v@[n - 1]);
    n
}

/// Some doubles in ascending order.
pub fn sort(v: &Vec<u64>) -> (r: Vec<u64>)
    ensures
        r@ == ordered(v@),
        r@.len() == v@.len(),
{
    let mut out: Vec<u64> = Vec::new();
    let mut i: usize = 0;
    assert(v@.take(0) =~= seq![]);
    while i < v.len()
        invariant
            i <= v@.len(),
            out@ == ordered(v@.take(i as int)),
            out@.len() == i,
        decreases v@.len() - i,
    {
        assert(v@.take(i + 1).drop_last() =~= v@.take(i as int));
        let p = find_place(&out, v[i]);
        out.insert(p, v[i]);
        i = i + 1;
    }
    assert(v@.take(i as int) =~= v@);
    out
}

/// The middle of some doubles, by value; of an even number of them the upper middle; of
/// none, not a number.
pub open spec fn middle(v: Seq<u64>) -> u64 {
    if v.len() == 0 {
        NAN
    } else {
        ordered(v)[v.len() as int / 2]
    }
}

pub fn median(v: &Vec<u64>) -> (r: u64)
    ensures
        r == middle(v@),
{
    if v.len() == 0 {
        return NAN;
    }
    let s = sort(v);
    s[s.len() / 2]
}

/// The least of some doubles and `start`: it is one of them, and no more than any that is
/// a number.
pub fn least(v: &Vec<u64>, start: u64) -> (r: u64)
    requires
        !not_a_number(start),
    ensures
        r == start || v@.contains(r),
        at_most(r, start),
        forall|i: int| 0 <= i < v@.len() && !not_a_number(v@[i]) ==> at_most(r, #[trigger] v@[i]),
{
    let mut r: u64 = start;
    let mut i: usize = 0;
    while i < v.len()
        invariant
            i <= v@.len(),
            !not_a_number(start),
            r == start || v@.contains(r),
            at_most(r, start),
            forall|j: int| 0 <= j < i && !not_a_number(v@[j]) ==> at_most(r, #[trigger] v@[j]),
        decreases v@.len() - i,
    {
        if number::lt(v[i], r) {
            r = v[i];
            assert(v@[i as int] == r);
        }
        i = i + 1;
    }
    r
}

/// The greatest of some doubles and `start`: it is one of them, and no less than any that
/// is a number.
pub fn greatest(v: &Vec<u64>, start: u64) -> (r: u64)
    requires
        !not_a_number(start),
    ensures
        r == start || v@.contains(r),
        at_most(start, r),
        forall|i: int| 0 <= i < v@.len() && !not_a_number(v@[i]) ==> at_most(#[trigger] v@[i], r),
{
    let mut r: u64 = start;
    let mut i: usize = 0;
    while i < v.len()
        invariant
            i <= v@.len(),
            !not_a_number(start),
            r == start || v@.contains(r),
            at_most(start, r),
            forall|j: int| 0 <= j < i && !not_a_number(v@[j]) ==> at_most(#[trigger] v@[j], r),
        decreases v@.len() - i,
    {
        if number::lt(r, v[i]) {
            r = v[i];
            assert(v@[i as int] == r);
        }
        i = i + 1;
    }
    r
}

/// The order in which doubles are sorted is that of the numbers, and no two bit patterns
/// share a place in it.
pub proof fn law_sorted_as_numbers(a: u64, b: u64)
    ensures
        crate::number::less(a, b) ==> total(a) < total(b),
        total(a) == total(b) <==> a == b,
{
}

/// The median is the one that stands at the middle of the values in order, the upper one
/// where there are two.
pub proof fn law_median_stands_in_the_middle(v: Seq<u64>, sorted: Seq<u64>)
    requires
        v.len() > 0,
        sorted.to_multiset() == v.to_multiset(),
        forall|i: int, j: int|
            0 <= i <= j < sorted.len() ==> total(sorted[i]) <= total(sorted[j]),
    ensures
        sorted.len() == v.len(),
        middle(v) == sorted[sorted.len() as int / 2],
{
    broadcast use vstd::seq_lib::group_to_multiset_ensures;

    assert(sorted.len() == sorted.to_multiset().len());
    assert(v.len() == v.to_multiset().len());
    law_ordered_is_sorted(v);
    lemma_sorted_once(ordered(v), sorted);
}

proof fn lemma_sorted_once(a: Seq<u64>, b: Seq<u64>)
    requires
        a.to_multiset() == b.to_multiset(),
        forall|i: int, j: int| 0 <= i <= j < a.len() ==> total(a[i]) <= total(a[j]),
        forall|i: int, j: int| 0 <= i <= j < b.len() ==> total(b[i]) <= total(b[j]),
    ensures
        a == b,
    decreases a.len(),
{
    broadcast use vstd::seq_lib::group_to_multiset_ensures;

    assert(a.len() == a.to_multiset().len());
    assert(b.len() == b.to_multiset().len());
    if a.len() > 0 {
        let n = a.len() - 1;
        assert(a.contains(a[n]));
        assert(b.to_multiset().count(a[n]) > 0);
        let i = choose|i: int| 0 <= i < b.len() && b[i] == a[n];
        assert(b.contains(b[n]));
        assert(a.to_multiset().count(b[n]) > 0);
        let j = choose|j: int| 0 <= j < a.len() && a[j] == b[n];
        assert(total(b[i]) <= total(b[n]) && total(a[j]) <= total(a[n]));
        law_sorted_as_numbers(a[n], b[n]);
        assert(a[n] == b[n]);
        assert(a.drop_last() =~= a.remove(n));
        assert(b.drop_last() =~= b.remove(n));
        lemma_sorted_once(a.drop_last(), b.drop_last());
        assert(a =~= a.drop_last().push(a[n]));
        assert(b =~= b.drop_last().push(b[n]));
    } else {
        assert(a =~= b);
    }
}

} // verus!
