//! Names in alphabetical order, each once.

use vstd::prelude::*;

use crate::text::{self, texts};

verus! {

/// Whether a text stands before another in alphabetical order, by code point.
pub open spec fn precedes(a: Seq<char>, b: Seq<char>) -> bool
    decreases a.len(),
{
    if b.len() == 0 {
        false
    } else if a.len() == 0 {
        true
    } else if a[0] != b[0] {
        a[0] < b[0]
    } else {
        precedes(a.skip(1), b.skip(1))
    }
}

/// Some names in order and one more, unless it is among them.
pub open spec fn with_name(v: Seq<Seq<char>>, x: Seq<char>) -> Seq<Seq<char>>
    decreases v.len(),
{
    if v.len() == 0 {
        seq![x]
    } else if v[0] == x {
        v
    } else if precedes(x, v[0]) {
        seq![x] + v
    } else {
        seq![v[0]] + with_name(v.skip(1), x)
    }
}

/// Whether some names are in order without repetition.
pub open spec fn ascending(v: Seq<Seq<char>>) -> bool {
    forall|i: int, j: int| 0 <= i < j < v.len() ==> #[trigger] precedes(v[i], v[j])
}

pub proof fn lemma_precedes_irreflexive(a: Seq<char>)
    ensures
        !precedes(a, a),
    decreases a.len(),
{
    if a.len() > 0 {
        lemma_precedes_irreflexive(a.skip(1));
    }
}

proof fn lemma_precedes_total(a: Seq<char>, b: Seq<char>)
    ensures
        a == b || precedes(a, b) || precedes(b, a),
    decreases a.len(),
{
    if a.len() > 0 && b.len() > 0 && a[0] == b[0] {
        lemma_precedes_total(a.skip(1), b.skip(1));
        if a.skip(1) == b.skip(1) {
            assert(a =~= seq![a[0]] + a.skip(1));
            assert(b =~= seq![b[0]] + b.skip(1));
        }
    } else if a.len() == 0 && b.len() == 0 {
        assert(a =~= b);
    }
}

pub proof fn lemma_precedes_transitive(a: Seq<char>, b: Seq<char>, c: Seq<char>)
    requires
        precedes(a, b),
        precedes(b, c),
    ensures
        precedes(a, c),
    decreases a.len(),
{
    if a.len() > 0 && a[0] == b[0] && b[0] == c[0] {
        lemma_precedes_transitive(a.skip(1), b.skip(1), c.skip(1));
    }
}

/// Putting a name in its place keeps the order, and adds that name alone.
pub proof fn lemma_with_name(v: Seq<Seq<char>>, x: Seq<char>)
    requires
        ascending(v),
    ensures
        ascending(with_name(v, x)),
        forall|y: Seq<char>| #[trigger] with_name(v, x).contains(y) <==> v.contains(y) || y == x,
    decreases v.len(),
{
    let w = with_name(v, x);
    if v.len() == 0 {
        assert(w[0] == x);
    } else if v[0] == x {
    } else if precedes(x, v[0]) {
        assert forall|i: int, j: int| 0 <= i < j < w.len() implies #[trigger] precedes(
            w[i],
            w[j],
        ) by {
            assert(w[j] == v[j - 1]);
            if i == 0 {
                if j > 1 {
                    lemma_precedes_transitive(x, v[0], v[j - 1]);
                }
            } else {
                assert(precedes(v[i - 1], v[j - 1]));
            }
        }
        assert forall|y: Seq<char>| #[trigger] w.contains(y) <==> v.contains(y) || y == x by {
            if v.contains(y) {
                let k = choose|k: int| 0 <= k < v.len() && v[k] == y;
                assert(w[k + 1] == y);
            }
            if w.contains(y) {
                let k = choose|k: int| 0 <= k < w.len() && w[k] == y;
                if k > 0 {
                    assert(v[k - 1] == y);
                }
            }
            assert(w[0] == x);
        }
    } else {
        let rest = v.skip(1);
        assert forall|i: int, j: int| 0 <= i < j < rest.len() implies #[trigger] precedes(
            rest[i],
            rest[j],
        ) by {
            assert(precedes(v[i + 1], v[j + 1]));
        }
        lemma_with_name(rest, x);
        lemma_precedes_total(x, v[0]);
        let tail = with_name(rest, x);
        assert forall|i: int, j: int| 0 <= i < j < w.len() implies #[trigger] precedes(
            w[i],
            w[j],
        ) by {
            assert(w[j] == tail[j - 1]);
            if i == 0 {
                assert(tail.contains(tail[j - 1]));
                if rest.contains(tail[j - 1]) {
                    let k = choose|k: int| 0 <= k < rest.len() && rest[k] == tail[j - 1];
                    assert(precedes(v[0], v[k + 1]));
                }
            } else {
                assert(precedes(tail[i - 1], tail[j - 1]));
            }
        }
        assert forall|y: Seq<char>| #[trigger] w.contains(y) <==> v.contains(y) || y == x by {
            if w.contains(y) {
                let k = choose|k: int| 0 <= k < w.len() && w[k] == y;
                if k == 0 {
                    assert(v[0] == y);
                } else {
                    assert(tail[k - 1] == y);
                    assert(tail.contains(y));
                    if rest.contains(y) {
                        let m = choose|m: int| 0 <= m < rest.len() && rest[m] == y;
                        assert(v[m + 1] == y);
                    }
                }
            }
            if v.contains(y) || y == x {
                if v[0] == y {
                    assert(w[0] == y);
                } else {
                    if v.contains(y) {
                        let m = choose|m: int| 0 <= m < v.len() && v[m] == y;
                        assert(rest[m - 1] == y);
                    }
                    assert(tail.contains(y));
                    let k = choose|k: int| 0 <= k < tail.len() && tail[k] == y;
                    assert(w[k + 1] == y);
                }
            }
        }
    }
}

fn char_before(a: char, b: char) -> (r: bool)
    ensures
        r == (a < b),
{
    a < b
}

/// Whether a text stands before another in alphabetical order.
pub fn stands_before(a: &str, b: &str) -> (r: bool)
    ensures
        r == precedes(a@, b@),
{
    let x = text::chars(a);
    let y = text::chars(b);
    let mut i: usize = 0;
    assert(x@.skip(0) =~= x@);
    assert(y@.skip(0) =~= y@);
    while i < x.len() && i < y.len()
        invariant
            x@ == a@,
            y@ == b@,
            i <= x@.len(),
            i <= y@.len(),
            precedes(x@.skip(i as int), y@.skip(i as int)) == precedes(x@, y@),
        decreases x@.len() - i,
    {
        assert(x@.skip(i as int)[0] == x@[i as int]);
        assert(y@.skip(i as int)[0] == y@[i as int]);
        assert(x@.skip(i as int).skip(1) =~= x@.skip(i + 1));
        assert(y@.skip(i as int).skip(1) =~= y@.skip(i + 1));
        if x[i] != y[i] {
            return char_before(x[i], y[i]);
        }
        i = i + 1;
    }
    i < y.len()
}

/// Puts a name in its place, unless it is there.
pub fn add_name(v: &mut Vec<String>, x: &String)
    ensures
        texts(final(v)@) == with_name(texts(old(v)@), x@),
{
    let ghost all = texts(v@);
    let mut i: usize = 0;
    assert(all.skip(0) =~= all);
    assert(all.take(0) + with_name(all.skip(0), x@) =~= with_name(all, x@));
    while i < v.len()
        invariant
            i <= v@.len(),
            all == texts(v@),
            all == texts(old(v)@),
            all.take(i as int) + with_name(all.skip(i as int), x@) == with_name(all, x@),
        decreases v@.len() - i,
    {
        let ghost rest = all.skip(i as int);
        assert(rest[0] == all[i as int]);
        assert(all[i as int] == v@[i as int]@);
        if text::same(v[i].as_str(), x.as_str()) {
            assert(all.take(i as int) + rest =~= all);
            return;
        }
        if stands_before(x.as_str(), v[i].as_str()) {
            v.insert(i, x.clone());
            assert(texts(v@) =~= all.take(i as int) + (seq![x@] + rest));
            return;
        }
        assert(rest.skip(1) =~= all.skip(i + 1));
        assert(all.take(i as int) + (seq![rest[0]] + with_name(rest.skip(1), x@)) =~= all.take(
            i + 1,
        ) + with_name(all.skip(i + 1), x@));
        i = i + 1;
    }
    v.push(x.clone());
    assert(all.skip(i as int) =~= seq![]);
    assert(texts(v@) =~= all.take(i as int) + seq![x@]);
}

/// One name precedes another where it is the other's beginning, or where the first characters
/// that differ say so.
pub proof fn law_names_are_ordered_by_their_first_difference(a: Seq<char>, b: Seq<char>, k: int)
    requires
        0 <= k <= a.len(),
        k <= b.len(),
        forall|i: int| 0 <= i < k ==> a[i] == b[i],
        k == a.len() || k == b.len() || a[k] != b[k],
    ensures
        precedes(a, b) <==> (if k == b.len() {
            false
        } else if k == a.len() {
            true
        } else {
            a[k] < b[k]
        }),
    decreases k,
{
    if k > 0 {
        let (x, y) = (a.skip(1), b.skip(1));
        assert forall|i: int| 0 <= i < k - 1 implies x[i] == y[i] by {
            assert(x[i] == a[i + 1] && y[i] == b[i + 1]);
        }
        law_names_are_ordered_by_their_first_difference(x, y, k - 1);
        assert(a[0] == b[0]);
    }
}

/// A name is added to others once, in its place: nothing is lost, and nothing else comes in.
pub proof fn law_a_name_is_added_once(v: Seq<Seq<char>>, x: Seq<char>)
    requires
        ascending(v),
    ensures
        ascending(with_name(v, x)),
        forall|y: Seq<char>| #[trigger]
            with_name(v, x).contains(y) <==> v.contains(y) || y == x,
{
    lemma_with_name(v, x);
}

} // verus!
