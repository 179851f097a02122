//! A log-linear latency histogram, in nanoseconds: constant relative error, and a
//! one-line wire form in which a child process hands it to its parent.

use vstd::arithmetic::div_mod::lemma_fundamental_div_mod;
use vstd::arithmetic::power2::{
    lemma2_to64, lemma2_to64_rest, lemma_pow2_adds, lemma_pow2_pos, lemma_pow2_strictly_increases,
    lemma_pow2_unfold, pow2,
};
use vstd::bits::{lemma_u64_shl_is_mul, lemma_u64_shr_is_div};
use vstd::prelude::*;
use vstd::std_specs::bits::axiom_u64_leading_zeros;

use crate::text::{
    self, decimal, digits, is_digit, is_space, law_digits_read_back, lemma_until_is, read_u64,
    texts, until, word_len, words,
};

verus! {

/// Buckets per power of two.
pub const SUB: u64 = 128;

/// All the buckets: one for each value below `SUB`, then `SUB` for each power of two.
pub const BUCKETS: usize = 7424;

// ---------------------------------------------------------------------------
// The buckets
// ---------------------------------------------------------------------------

/// How many low bits of a value are dropped, so that eight are left.
pub open spec fn shift_of(v: nat) -> nat
    decreases v,
{
    if v < 2 * SUB {
        0
    } else {
        1 + shift_of(v / 2)
    }
}

/// The bucket that a value falls into.
pub open spec fn bucket_of(v: nat) -> nat {
    if v < SUB {
        v
    } else {
        shift_of(v) * SUB as nat + v / pow2(shift_of(v))
    }
}

/// The smallest value that falls into a bucket.
pub open spec fn floor_of(bucket: nat) -> nat {
    if bucket < SUB {
        bucket
    } else {
        (SUB as nat + bucket % SUB as nat) * pow2((bucket / SUB as nat - 1) as nat)
    }
}

proof fn lemma_shift_of(v: nat)
    requires
        v >= SUB,
    ensures
        SUB * pow2(shift_of(v)) <= v < 2 * SUB * pow2(shift_of(v)),
    decreases v,
{
    if v < 2 * SUB {
        lemma2_to64();
    } else {
        lemma_shift_of(v / 2);
        lemma_pow2_unfold(shift_of(v));
        let p = pow2(shift_of(v / 2)) as int;
        assert(SUB * (2 * p) == 2 * (SUB * p)) by (nonlinear_arith);
        assert(2 * SUB * (2 * p) == 2 * (2 * SUB * p)) by (nonlinear_arith);
    }
}

proof fn lemma_shift_is(v: nat, s: nat)
    requires
        SUB * pow2(s) <= v < 2 * SUB * pow2(s),
    ensures
        shift_of(v) == s,
{
    lemma_pow2_pos(s);
    assert(v >= SUB) by (nonlinear_arith)
        requires
            SUB * pow2(s) <= v,
            pow2(s) >= 1,
    ;
    lemma_shift_of(v);
    let t = shift_of(v);
    if t < s {
        lemma_pow2_doubles(t, s);
        assert(SUB * pow2(s) >= 2 * SUB * pow2(t)) by (nonlinear_arith)
            requires
                pow2(s) >= 2 * pow2(t),
        ;
    } else if s < t {
        lemma_pow2_doubles(s, t);
        assert(SUB * pow2(t) >= 2 * SUB * pow2(s)) by (nonlinear_arith)
            requires
                pow2(t) >= 2 * pow2(s),
        ;
    }
}

proof fn lemma_pow2_doubles(a: nat, b: nat)
    requires
        a < b,
    ensures
        pow2(b) >= 2 * pow2(a),
{
    lemma_pow2_unfold(a + 1);
    if a + 1 < b {
        lemma_pow2_strictly_increases(a + 1, b);
    }
}

/// What is left of a value after the shift has eight bits.
proof fn lemma_top(v: nat)
    requires
        v >= SUB,
    ensures
        SUB <= v / pow2(shift_of(v)) < 2 * SUB,
        (v / pow2(shift_of(v))) * pow2(shift_of(v)) <= v,
        v < (v / pow2(shift_of(v))) * pow2(shift_of(v)) + pow2(shift_of(v)),
{
    lemma_shift_of(v);
    let p = pow2(shift_of(v)) as int;
    lemma_pow2_pos(shift_of(v));
    lemma_fundamental_div_mod(v as int, p);
    let q = v as int / p;
    assert(p * q == q * p) by (nonlinear_arith);
    assert(q >= SUB) by (nonlinear_arith)
        requires
            SUB * p <= v,
            v < q * p + p,
            p >= 1,
    ;
    assert(q < 2 * SUB) by (nonlinear_arith)
        requires
            v < 2 * SUB * p,
            q * p <= v,
            p >= 1,
    ;
}

/// Every value has a bucket, and a value below `SUB` has one of its own.
pub proof fn law_every_value_has_a_bucket(v: u64)
    ensures
        bucket_of(v as nat) < BUCKETS,
        v < SUB ==> bucket_of(v as nat) == v && floor_of(v as nat) == v,
        v >= SUB ==> shift_of(v as nat) <= 56,
{
    if v >= SUB {
        lemma_top(v as nat);
        lemma_shift_of(v as nat);
        lemma2_to64();
        lemma2_to64_rest();
        let s = shift_of(v as nat);
        if s > 56 {
            lemma_pow2_strictly_increases(56, s);
            assert(SUB * pow2(s) >= SUB * (pow2(56) + 1)) by (nonlinear_arith)
                requires
                    pow2(s) >= pow2(56) + 1,
            ;
            lemma_pow2_doubles(56, s);
            assert(SUB * pow2(s) >= SUB * (2 * pow2(56))) by (nonlinear_arith)
                requires
                    pow2(s) >= 2 * pow2(56),
            ;
        }
    }
}

/// A bucket's floor is at most every value in it, and within one part in 128 of it.
pub proof fn law_floor_is_close(v: nat)
    ensures
        floor_of(bucket_of(v)) <= v,
        (v - floor_of(bucket_of(v))) * SUB <= floor_of(bucket_of(v)),
{
    if v >= SUB {
        lemma_top(v);
        let s = shift_of(v);
        let top = v / pow2(s);
        let b = bucket_of(v);
        assert(b == s * SUB as nat + top);
        assert(b / SUB as nat == s + 1);
        assert(b % SUB as nat == top - SUB);
        assert(floor_of(b) == top * pow2(s));
        lemma_pow2_pos(s);
        assert((v - top * pow2(s)) * SUB <= top * pow2(s)) by (nonlinear_arith)
            requires
                v < top * pow2(s) + pow2(s),
                top >= SUB,
                pow2(s) >= 1,
        ;
    }
}

/// A bucket's floor falls into that bucket, and nothing smaller does.
pub proof fn law_floor_is_in_its_bucket(b: nat)
    ensures
        bucket_of(floor_of(b)) == b,
        forall|v: nat| #[trigger] bucket_of(v) == b ==> floor_of(b) <= v,
{
    assert forall|v: nat| #[trigger] bucket_of(v) == b implies floor_of(b) <= v by {
        law_floor_is_close(v);
    }
    if b >= SUB {
        let s = (b / SUB as nat - 1) as nat;
        let top = (SUB as nat + b % SUB as nat) as nat;
        let p = pow2(s);
        lemma_pow2_pos(s);
        assert(SUB * p <= top * p < 2 * SUB * p) by (nonlinear_arith)
            requires
                SUB <= top < 2 * SUB,
                p >= 1,
        ;
        lemma_shift_is(top * p, s);
        assert((top * p) / p == top) by (nonlinear_arith)
            requires
                p >= 1,
        ;
        assert(top * p >= SUB) by (nonlinear_arith)
            requires
                top >= SUB,
                p >= 1,
        ;
    }
}

/// A larger value falls into a bucket that is not lower.
pub proof fn law_buckets_are_ordered(v: nat, w: nat)
    requires
        v <= w,
    ensures
        bucket_of(v) <= bucket_of(w),
{
    if v >= SUB {
        lemma_top(v);
        lemma_top(w);
        lemma_shift_of(v);
        lemma_shift_of(w);
        let (s, t) = (shift_of(v), shift_of(w));
        if s == t {
            lemma_pow2_pos(s);
            vstd::arithmetic::div_mod::lemma_div_is_ordered(v as int, w as int, pow2(s) as int);
        } else if t < s {
            lemma_pow2_doubles(t, s);
            assert(SUB * pow2(s) >= 2 * SUB * pow2(t)) by (nonlinear_arith)
                requires
                    pow2(s) >= 2 * pow2(t),
            ;
        } else {
            assert(s * SUB + SUB <= t * SUB) by (nonlinear_arith)
                requires
                    s + 1 <= t,
            ;
        }
    } else if w >= SUB {
        lemma_top(w);
    }
}

/// Floors grow with the buckets.
pub proof fn law_floors_are_ordered(a: nat, b: nat)
    requires
        a < b,
    ensures
        floor_of(a) < floor_of(b),
{
    law_floor_is_in_its_bucket(a);
    law_floor_is_in_its_bucket(b);
    if floor_of(b) <= floor_of(a) {
        law_buckets_are_ordered(floor_of(b), floor_of(a));
    }
}

// ---------------------------------------------------------------------------
// The histogram
// ---------------------------------------------------------------------------

/// A log-linear histogram.
pub struct Histogram {
    counts: Vec<u32>,
    total: u64,
    max: u64,
}

pub struct HistogramView {
    /// How many observations each bucket holds.
    pub counts: Seq<u32>,
    /// How many observations there are.
    pub total: u64,
    /// The largest observation.
    pub max: u64,
}

impl View for Histogram {
    type V = HistogramView;

    closed spec fn view(&self) -> HistogramView {
        HistogramView { counts: self.counts@, total: self.total, max: self.max }
    }
}

/// How many observations the first `n` buckets hold.
pub open spec fn held(counts: Seq<u32>, n: nat) -> nat
    decreases n,
{
    if n == 0 {
        0
    } else {
        held(counts, (n - 1) as nat) + counts[n - 1] as nat
    }
}

/// The first bucket up to which at least `rank` observations are held, or the number of
/// buckets.
pub open spec fn bucket_at(counts: Seq<u32>, rank: nat, from: nat) -> nat
    decreases counts.len() - from,
{
    if from >= counts.len() {
        counts.len()
    } else if held(counts, from + 1) >= rank {
        from
    } else {
        bucket_at(counts, rank, from + 1)
    }
}

impl HistogramView {
    pub open spec fn wf(self) -> bool {
        self.counts.len() == BUCKETS
    }

    /// A rank that is at least 1 and at most the number of observations.
    pub open spec fn clamped(self, rank: u64) -> u64 {
        if rank < 1 {
            1
        } else if rank > self.total {
            self.total
        } else {
            rank
        }
    }

    /// The value at a rank: the floor of the bucket that holds it.
    pub open spec fn value_at(self, rank: u64) -> nat {
        let b = bucket_at(self.counts, self.clamped(rank) as nat, 0);
        if self.total == 0 {
            0
        } else if b < self.counts.len() {
            floor_of(b)
        } else {
            self.max as nat
        }
    }

    /// How many observations stand in buckets whose floor is below a value.
    pub open spec fn below(self, ns: u64) -> nat {
        held(self.counts, first_not_below(ns, self.counts.len(), 0))
    }

    /// This histogram and one observation more.
    pub open spec fn with(self, v: u64) -> HistogramView {
        let b = bucket_of(v as nat) as int;
        HistogramView {
            counts: self.counts.update(b, (self.counts[b] + 1) as u32),
            total: (self.total + 1) as u64,
            max: if v > self.max {
                v
            } else {
                self.max
            },
        }
    }

    /// Whether this is the histogram of some observations.
    pub open spec fn records(self, obs: Seq<u64>) -> bool {
        &&& self.wf()
        &&& self.total == obs.len()
        &&& forall|b: int| 0 <= b < BUCKETS ==> #[trigger] self.counts[b] == in_bucket(obs, b as nat)
        &&& self.max == largest(obs)
    }
}

/// The first bucket from `from` on whose floor is not below a value.
pub open spec fn first_not_below(ns: u64, n: nat, from: nat) -> nat
    decreases n - from,
{
    if from >= n || floor_of(from) >= ns {
        from
    } else {
        first_not_below(ns, n, from + 1)
    }
}

/// How many of some observations fall into a bucket.
pub open spec fn in_bucket(obs: Seq<u64>, b: nat) -> nat
    decreases obs.len(),
{
    if obs.len() == 0 {
        0
    } else {
        in_bucket(obs.drop_last(), b) + if bucket_of(obs.last() as nat) == b {
            1nat
        } else {
            0nat
        }
    }
}

/// The largest of some observations, 0 where there are none.
pub open spec fn largest(obs: Seq<u64>) -> u64
    decreases obs.len(),
{
    if obs.len() == 0 {
        0
    } else if obs.last() > largest(obs.drop_last()) {
        obs.last()
    } else {
        largest(obs.drop_last())
    }
}

/// Two histograms as one.
pub open spec fn merged(a: HistogramView, b: HistogramView) -> HistogramView {
    HistogramView {
        counts: Seq::new(a.counts.len(), |i: int| (a.counts[i] + b.counts[i]) as u32),
        total: (a.total + b.total) as u64,
        max: if b.max > a.max {
            b.max
        } else {
            a.max
        },
    }
}

pub open spec fn empty() -> HistogramView {
    HistogramView { counts: Seq::new(BUCKETS as nat, |i: int| 0u32), total: 0, max: 0 }
}

// ---------------------------------------------------------------------------
// What a histogram says of its observations
// ---------------------------------------------------------------------------

/// An empty histogram is that of no observations.
pub proof fn law_empty_records_nothing()
    ensures
        empty().records(seq![]),
{
}

/// Recording an observation gives the histogram of the observations and it.
pub proof fn law_recording_adds_one(h: HistogramView, obs: Seq<u64>, v: u64)
    requires
        h.records(obs),
        h.total < u64::MAX,
        h.counts[bucket_of(v as nat) as int] < u32::MAX,
    ensures
        h.with(v).records(obs.push(v)),
{
    law_every_value_has_a_bucket(v);
    assert(obs.push(v).drop_last() =~= obs);
}

/// Merging two histograms is the same as recording both sets of observations into one.
pub proof fn law_merging_is_recording_into_one(
    a: HistogramView,
    b: HistogramView,
    s: Seq<u64>,
    t: Seq<u64>,
)
    requires
        a.records(s),
        b.records(t),
        a.total + b.total <= u64::MAX,
        forall|i: int| 0 <= i < BUCKETS ==> #[trigger] a.counts[i] + b.counts[i] <= u32::MAX,
    ensures
        merged(a, b).records(s + t),
{
    assert forall|i: int| 0 <= i < BUCKETS implies #[trigger] merged(a, b).counts[i] == in_bucket(
        s + t,
        i as nat,
    ) by {
        lemma_in_bucket_add(s, t, i as nat);
        assert(a.counts[i] + b.counts[i] <= u32::MAX);
    }
    lemma_largest_add(s, t);
}

proof fn lemma_in_bucket_add(s: Seq<u64>, t: Seq<u64>, b: nat)
    ensures
        in_bucket(s + t, b) == in_bucket(s, b) + in_bucket(t, b),
    decreases t.len(),
{
    if t.len() == 0 {
        assert(s + t =~= s);
    } else {
        lemma_in_bucket_add(s, t.drop_last(), b);
        assert((s + t).drop_last() =~= s + t.drop_last());
    }
}

proof fn lemma_largest_add(s: Seq<u64>, t: Seq<u64>)
    ensures
        largest(s + t) == if largest(t) > largest(s) {
            largest(t)
        } else {
            largest(s)
        },
    decreases t.len(),
{
    if t.len() == 0 {
        assert(s + t =~= s);
    } else {
        lemma_largest_add(s, t.drop_last());
        assert((s + t).drop_last() =~= s + t.drop_last());
    }
}

/// How many of some observations fall into the first `n` buckets.
pub open spec fn in_first(obs: Seq<u64>, n: nat) -> nat
    decreases obs.len(),
{
    if obs.len() == 0 {
        0
    } else {
        in_first(obs.drop_last(), n) + if bucket_of(obs.last() as nat) < n {
            1nat
        } else {
            0nat
        }
    }
}

proof fn lemma_in_first_step(obs: Seq<u64>, n: nat)
    ensures
        in_first(obs, n + 1) == in_first(obs, n) + in_bucket(obs, n),
    decreases obs.len(),
{
    if obs.len() > 0 {
        lemma_in_first_step(obs.drop_last(), n);
    }
}

proof fn lemma_in_first_none(obs: Seq<u64>)
    ensures
        in_first(obs, 0) == 0,
    decreases obs.len(),
{
    if obs.len() > 0 {
        lemma_in_first_none(obs.drop_last());
    }
}

proof fn lemma_in_first_all(obs: Seq<u64>)
    ensures
        in_first(obs, BUCKETS as nat) == obs.len(),
    decreases obs.len(),
{
    if obs.len() > 0 {
        lemma_in_first_all(obs.drop_last());
        law_every_value_has_a_bucket(obs.last());
    }
}

proof fn lemma_held_is_in_first(h: HistogramView, obs: Seq<u64>, n: nat)
    requires
        h.records(obs),
        n <= BUCKETS,
    ensures
        held(h.counts, n) == in_first(obs, n),
    decreases n,
{
    if n == 0 {
        lemma_in_first_none(obs);
    } else {
        lemma_held_is_in_first(h, obs, (n - 1) as nat);
        lemma_in_first_step(obs, (n - 1) as nat);
    }
}

proof fn lemma_bucket_at(counts: Seq<u32>, rank: nat, from: nat)
    requires
        from <= counts.len(),
        held(counts, from) < rank,
    ensures
        from <= bucket_at(counts, rank, from) <= counts.len(),
        bucket_at(counts, rank, from) < counts.len() ==> held(
            counts,
            bucket_at(counts, rank, from) + 1,
        ) >= rank && held(counts, bucket_at(counts, rank, from)) < rank,
        bucket_at(counts, rank, from) == counts.len() ==> held(counts, counts.len()) < rank,
    decreases counts.len() - from,
{
    if from < counts.len() && held(counts, from + 1) < rank {
        lemma_bucket_at(counts, rank, from + 1);
    }
}

pub open spec fn sorted(obs: Seq<u64>) -> bool {
    forall|i: int, j: int| 0 <= i <= j < obs.len() ==> obs[i] <= obs[j]
}

/// The observations in the first buckets are the first of the sorted observations.
proof fn lemma_in_first_is_prefix(obs: Seq<u64>, n: nat, i: int)
    requires
        sorted(obs),
        0 <= i < obs.len(),
    ensures
        bucket_of(obs[i] as nat) < n <==> i < in_first(obs, n),
    decreases obs.len(),
{
    let rest = obs.drop_last();
    lemma_in_first_bound(rest, n);
    if i < obs.len() - 1 {
        lemma_in_first_is_prefix(rest, n, i);
        if bucket_of(obs.last() as nat) < n && i >= in_first(rest, n) {
            law_buckets_are_ordered(obs[i] as nat, obs.last() as nat);
        }
    } else if bucket_of(obs.last() as nat) < n {
        lemma_all_before(obs, n);
    } else {
    }
}

proof fn lemma_in_first_bound(obs: Seq<u64>, n: nat)
    ensures
        in_first(obs, n) <= obs.len(),
    decreases obs.len(),
{
    if obs.len() > 0 {
        lemma_in_first_bound(obs.drop_last(), n);
    }
}

proof fn lemma_all_before(obs: Seq<u64>, n: nat)
    requires
        sorted(obs),
        obs.len() > 0,
        bucket_of(obs.last() as nat) < n,
    ensures
        in_first(obs, n) == obs.len(),
    decreases obs.len(),
{
    reveal_with_fuel(in_first, 2);
    let rest = obs.drop_last();
    if rest.len() > 0 {
        law_buckets_are_ordered(rest.last() as nat, obs.last() as nat);
        lemma_all_before(rest, n);
    }
}

proof fn lemma_in_bucket_remove(obs: Seq<u64>, b: nat, i: int)
    requires
        0 <= i < obs.len(),
    ensures
        in_bucket(obs, b) == in_bucket(obs.remove(i), b) + if bucket_of(obs[i] as nat) == b {
            1nat
        } else {
            0nat
        },
    decreases obs.len(),
{
    let rest = obs.drop_last();
    if i == obs.len() - 1 {
        assert(obs.remove(i) =~= rest);
    } else {
        lemma_in_bucket_remove(rest, b, i);
        assert(obs.remove(i).drop_last() =~= rest.remove(i));
    }
}

proof fn lemma_in_bucket_in_any_order(s: Seq<u64>, t: Seq<u64>, b: nat)
    requires
        s.to_multiset() == t.to_multiset(),
    ensures
        in_bucket(s, b) == in_bucket(t, b),
    decreases s.len(),
{
    broadcast use vstd::seq_lib::group_to_multiset_ensures;

    assert(s.len() == s.to_multiset().len());
    assert(t.len() == t.to_multiset().len());
    if s.len() > 0 {
        let x = s.last();
        assert(s.contains(x));
        assert(t.to_multiset().count(x) > 0);
        let i = choose|i: int| 0 <= i < t.len() && t[i] == x;
        assert(s.drop_last() =~= s.remove(s.len() - 1));
        lemma_in_bucket_remove(t, b, i);
        lemma_in_bucket_in_any_order(s.drop_last(), t.remove(i), b);
    }
}

proof fn lemma_largest_is_one(obs: Seq<u64>)
    requires
        obs.len() > 0,
    ensures
        obs.contains(largest(obs)),
    decreases obs.len(),
{
    let rest = obs.drop_last();
    if obs.last() <= largest(rest) {
        if rest.len() > 0 {
            lemma_largest_is_one(rest);
            let i = choose|i: int| 0 <= i < rest.len() && rest[i] == largest(rest);
            assert(obs[i] == largest(obs));
        } else {
            assert(obs[0] == largest(obs));
        }
    } else {
        assert(obs[obs.len() - 1] == largest(obs));
    }
}

/// In which order observations were made does not show in their histogram.
pub proof fn law_order_of_observations_does_not_show(
    h: HistogramView,
    s: Seq<u64>,
    t: Seq<u64>,
)
    requires
        h.records(s),
        s.to_multiset() == t.to_multiset(),
    ensures
        h.records(t),
{
    broadcast use vstd::seq_lib::group_to_multiset_ensures;

    assert(s.len() == s.to_multiset().len());
    assert(t.len() == t.to_multiset().len());
    assert forall|b: int| 0 <= b < BUCKETS implies #[trigger] h.counts[b] == in_bucket(
        t,
        b as nat,
    ) by {
        lemma_in_bucket_in_any_order(s, t, b as nat);
    }
    if s.len() > 0 {
        lemma_largest_is_one(s);
        lemma_largest_is_one(t);
        assert(t.to_multiset().count(largest(s)) > 0);
        assert(s.to_multiset().count(largest(t)) > 0);
        let i = choose|i: int| 0 <= i < t.len() && t[i] == largest(s);
        let j = choose|j: int| 0 <= j < s.len() && s[j] == largest(t);
        lemma_largest(t, i);
        lemma_largest(s, j);
    }
}

/// The value at a rank is the floor of the bucket of the observation of that rank, so never
/// above it, within one part in 128 of it, and it itself where it is below `SUB`.
pub proof fn law_quantile_is_close_and_never_above(h: HistogramView, obs: Seq<u64>, rank: u64)
    requires
        h.records(obs),
        sorted(obs),
        1 <= rank <= obs.len(),
    ensures
        h.value_at(rank) == floor_of(bucket_of(obs[rank - 1] as nat)),
        obs[rank - 1] < SUB ==> h.value_at(rank) == obs[rank - 1],
        h.value_at(rank) <= obs[rank - 1],
        (obs[rank - 1] - h.value_at(rank)) * SUB <= h.value_at(rank),
        h.value_at(rank) <= h.max,
{
    lemma_bucket_at(h.counts, rank as nat, 0);
    let b = bucket_at(h.counts, rank as nat, 0);
    lemma_held_is_in_first(h, obs, BUCKETS as nat);
    lemma_in_first_all(obs);
    assert(b < h.counts.len());
    lemma_held_is_in_first(h, obs, b);
    lemma_held_is_in_first(h, obs, b + 1);
    lemma_in_first_is_prefix(obs, b, rank - 1);
    lemma_in_first_is_prefix(obs, b + 1, rank - 1);
    assert(bucket_of(obs[rank - 1] as nat) == b);
    law_floor_is_close(obs[rank - 1] as nat);
    lemma_largest(obs, rank - 1);
}

proof fn lemma_largest(obs: Seq<u64>, i: int)
    requires
        0 <= i < obs.len(),
    ensures
        obs[i] <= largest(obs),
    decreases obs.len(),
{
    if i < obs.len() - 1 {
        lemma_largest(obs.drop_last(), i);
    }
}

/// The value at a rank grows with the rank. A rank below the first is the first, one past
/// the last is the last, and without observations the value is 0 at each.
pub proof fn law_quantiles_are_ordered(h: HistogramView, obs: Seq<u64>, a: u64, b: u64)
    requires
        h.records(obs),
        a <= b,
    ensures
        h.value_at(a) <= h.value_at(b),
        obs.len() == 0 ==> h.value_at(a) == 0,
        obs.len() > 0 && a < 1 ==> h.value_at(a) == h.value_at(1),
        obs.len() > 0 && b > obs.len() ==> h.value_at(b) == h.value_at(obs.len() as u64),
{
    if obs.len() > 0 {
        let (a, b) = (h.clamped(a), h.clamped(b));
        lemma_bucket_at(h.counts, a as nat, 0);
        lemma_bucket_at(h.counts, b as nat, 0);
        lemma_held_is_in_first(h, obs, BUCKETS as nat);
        lemma_in_first_all(obs);
        let x = bucket_at(h.counts, a as nat, 0);
        let y = bucket_at(h.counts, b as nat, 0);
        if y < x {
            lemma_held_grows(h.counts, y + 1, x);
        } else if x < y {
            law_floors_are_ordered(x, y);
        }
    }
}

proof fn lemma_held_grows(counts: Seq<u32>, a: nat, b: nat)
    requires
        a <= b,
    ensures
        held(counts, a) <= held(counts, b),
    decreases b,
{
    if a < b {
        lemma_held_grows(counts, a, (b - 1) as nat);
    }
}

proof fn lemma_held_bound(counts: Seq<u32>, n: nat)
    requires
        n <= BUCKETS,
    ensures
        held(counts, n) <= n * u32::MAX,
    decreases n,
{
    if n > 0 {
        lemma_held_bound(counts, (n - 1) as nat);
    }
}

impl Clone for Histogram {
    fn clone(&self) -> (r: Self)
        ensures
            r@ == self@,
    {
        let counts = self.counts.clone();
        assert(counts@ =~= self.counts@);
        Histogram { counts, total: self.total, max: self.max }
    }
}

impl Default for Histogram {
    fn default() -> (r: Self)
        ensures
            r@ == empty(),
    {
        Histogram::new()
    }
}

impl Histogram {
    /// An empty histogram.
    #[must_use]
    pub fn new() -> (r: Histogram)
        ensures
            r@ == empty(),
            r@.wf(),
    {
        let r = Histogram { counts: vec![0; BUCKETS], total: 0, max: 0 };
        assert(r@.counts =~= empty().counts);
        r
    }

    /// The bucket that a value falls into.
    #[must_use]
    pub fn bucket(v: u64) -> (r: usize)
        ensures
            r == bucket_of(v as nat),
            r < BUCKETS,
    {
        proof {
            law_every_value_has_a_bucket(v);
        }
        if v < SUB {
            return v as usize;
        }
        let zeros: u32 = v.leading_zeros();
        proof {
            axiom_u64_leading_zeros(v);
            let k = (63 - zeros) as u64;
            lemma_u64_shr_is_div(v, k);
            lemma_pow2_pos(k as nat);
            lemma_pow2_unfold((k + 1) as nat);
            assert((v >> k) & 1u64 != 0u64);
            assert((v >> k) & 1u64 != 0u64 ==> v >> k >= 1) by (bit_vector);
            let p = pow2(k as nat) as int;
            lemma_fundamental_div_mod(v as int, p);
            assert(v as int >= p) by (nonlinear_arith)
                requires
                    v as int == p * (v as int / p) + v as int % p,
                    v as int / p >= 1,
                    v as int % p >= 0,
                    p >= 1,
            ;
            if zeros > 0 {
                let m = (64 - zeros) as u64;
                lemma_u64_shr_is_div(v, m);
                lemma_pow2_pos(m as nat);
                lemma_fundamental_div_mod(v as int, pow2(m as nat) as int);
                assert(v as int / (pow2(m as nat) as int) == 0);
                assert(v < pow2(m as nat)) by (nonlinear_arith)
                    requires
                        v as int == pow2(m as nat) * (v as int / (pow2(m as nat) as int)) + v as int
                            % (pow2(m as nat) as int),
                        v as int / (pow2(m as nat) as int) == 0,
                        pow2(m as nat) > 0,
                ;
            } else {
                lemma2_to64();
                lemma2_to64_rest();
            }
            assert(v < pow2((k + 1) as nat));
            lemma2_to64();
            if k < 7 {
                lemma_pow2_strictly_increases((k + 1) as nat, 8);
                if k + 1 < 7 {
                    lemma_pow2_strictly_increases((k + 1) as nat, 7);
                }
            }
            assert(k >= 7);
            let s = (k - 7) as nat;
            lemma_pow2_adds(7, s);
            lemma_pow2_adds(8, s);
            lemma_shift_is(v as nat, s);
            lemma_u64_shr_is_div(v, s as u64);
            lemma_top(v as nat);
        }
        let shift: u32 = 63 - zeros - 7;
        let top: u64 = v >> shift;
        shift as usize * SUB as usize + top as usize
    }

    /// The smallest value that falls into a bucket: what a quantile reports.
    #[must_use]
    pub fn bucket_floor(bucket: usize) -> (r: u64)
        requires
            bucket < BUCKETS,
        ensures
            r == floor_of(bucket as nat),
    {
        if (bucket as u64) < SUB {
            return bucket as u64;
        }
        let major: u64 = bucket as u64 / SUB - 1;
        let top: u64 = SUB + bucket as u64 % SUB;
        proof {
            assert(major <= 56);
            lemma2_to64();
            lemma2_to64_rest();
            if major < 56 {
                lemma_pow2_strictly_increases(major as nat, 56);
            }
            assert(top * pow2(major as nat) <= 255 * pow2(56)) by (nonlinear_arith)
                requires
                    top <= 255,
                    pow2(major as nat) <= pow2(56),
            ;
            lemma_u64_shl_is_mul(top, major);
        }
        top << major
    }

    /// Records one observation, in nanoseconds.
    pub fn record(&mut self, ns: u64)
        requires
            old(self)@.wf(),
            old(self)@.total < u64::MAX,
            old(self)@.counts[bucket_of(ns as nat) as int] < u32::MAX,
        ensures
            final(self)@ == old(self)@.with(ns),
            final(self)@.wf(),
    {
        let b = Self::bucket(ns);
        let c: u32 = self.counts[b];
        self.counts.set(b, c + 1);
        self.total = self.total + 1;
        if ns > self.max {
            self.max = ns;
        }
    }

    /// Folds another histogram into this one.
    pub fn merge(&mut self, other: &Histogram)
        requires
            old(self)@.wf(),
            other@.wf(),
            old(self)@.total + other@.total <= u64::MAX,
            forall|i: int|
                0 <= i < BUCKETS ==> #[trigger] old(self)@.counts[i] + other@.counts[i] <= u32::MAX,
        ensures
            final(self)@ == merged(old(self)@, other@),
            final(self)@.wf(),
    {
        let ghost before = self@;
        let mut i: usize = 0;
        while i < BUCKETS
            invariant
                i <= BUCKETS,
                before.wf(),
                other@.wf(),
                self.counts@.len() == BUCKETS,
                self.total == before.total,
                self.max == before.max,
                forall|j: int|
                    0 <= j < BUCKETS ==> #[trigger] before.counts[j] + other@.counts[j] <= u32::MAX,
                forall|j: int|
                    0 <= j < i ==> #[trigger] self.counts@[j] == before.counts[j]
                        + other@.counts[j],
                forall|j: int| i <= j < BUCKETS ==> #[trigger] self.counts@[j] == before.counts[j],
            decreases BUCKETS - i,
        {
            let a: u32 = self.counts[i];
            let b: u32 = other.counts[i];
            assert(before.counts[i as int] + other@.counts[i as int] <= u32::MAX);
            self.counts.set(i, a + b);
            i = i + 1;
        }
        self.total = self.total + other.total;
        if other.max > self.max {
            self.max = other.max;
        }
        assert(self@.counts =~= merged(before, other@).counts);
    }

    /// Number of recorded observations.
    #[must_use]
    pub fn count(&self) -> (r: u64)
        ensures
            r == self@.total,
    {
        self.total
    }

    /// Largest observation seen: exact, not bucketed.
    #[must_use]
    pub fn max(&self) -> (r: u64)
        ensures
            r == self@.max,
    {
        self.max
    }

    /// The value at a rank, in nanoseconds, counted from 1: the floor of its bucket, so
    /// never rounded upward. The rank of quantile `q` is `q` times the count, rounded up.
    #[must_use]
    pub fn quantile(&self, rank: u64) -> (r: u64)
        requires
            self@.wf(),
        ensures
            r == self@.value_at(rank),
    {
        if self.total == 0 {
            return 0;
        }
        let target: u64 = if rank < 1 {
            1
        } else if rank > self.total {
            self.total
        } else {
            rank
        };
        let mut seen: u64 = 0;
        let mut i: usize = 0;
        while i < BUCKETS
            invariant
                i <= BUCKETS,
                self@.wf(),
                self.total > 0,
                target == self@.clamped(rank),
                seen == held(self@.counts, i as nat),
                bucket_at(self@.counts, target as nat, i as nat) == bucket_at(
                    self@.counts,
                    target as nat,
                    0,
                ),
            decreases BUCKETS - i,
        {
            proof {
                lemma_held_bound(self@.counts, i as nat);
            }
            seen = seen + self.counts[i] as u64;
            if seen >= target {
                return Self::bucket_floor(i);
            }
            i = i + 1;
        }
        self.max
    }

    /// How many observations are below a value, and of how many: whole buckets, counted
    /// where their floor is below. Of an empty histogram, none of one.
    #[must_use]
    pub fn fraction_below(&self, ns: u64) -> (r: (u64, u64))
        requires
            self@.wf(),
        ensures
            r == (if self@.total == 0 {
                (0u64, 1u64)
            } else {
                (self@.below(ns) as u64, self@.total)
            }),
            self@.total > 0 ==> r.0 == self@.below(ns),
    {
        if self.total == 0 {
            return (0, 1);
        }
        let mut seen: u64 = 0;
        let mut i: usize = 0;
        while i < BUCKETS
            invariant_except_break
                first_not_below(ns, BUCKETS as nat, i as nat) == first_not_below(
                    ns,
                    BUCKETS as nat,
                    0,
                ),
            invariant
                i <= BUCKETS,
                self@.wf(),
                seen == held(self@.counts, i as nat),
            ensures
                i == first_not_below(ns, BUCKETS as nat, 0),
            decreases BUCKETS - i,
        {
            if Self::bucket_floor(i) >= ns {
                break;
            }
            proof {
                lemma_held_bound(self@.counts, i as nat);
            }
            seen = seen + self.counts[i] as u64;
            i = i + 1;
        }
        (seen, self.total)
    }
}

// ---------------------------------------------------------------------------
// The wire form
// ---------------------------------------------------------------------------

/// One bucket of the wire form.
pub open spec fn field(b: nat, c: u32) -> Seq<char> {
    digits(b) + seq![':'] + digits(c as nat)
}

/// The occupied ones of the first `n` buckets.
pub open spec fn fields(counts: Seq<u32>, n: nat) -> Seq<Seq<char>>
    decreases n,
{
    if n == 0 {
        seq![]
    } else if counts[n - 1] == 0 {
        fields(counts, (n - 1) as nat)
    } else {
        fields(counts, (n - 1) as nat).push(field((n - 1) as nat, counts[n - 1]))
    }
}

/// Words, each after a space.
pub open spec fn spaced(w: Seq<Seq<char>>) -> Seq<char>
    decreases w.len(),
{
    if w.len() == 0 {
        seq![]
    } else {
        spaced(w.drop_last()) + seq![' '] + w.last()
    }
}

/// The wire form of a histogram.
pub open spec fn wire(h: HistogramView) -> Seq<char> {
    "hist"@ + seq![' '] + digits(h.total as nat) + seq![' '] + digits(h.max as nat) + spaced(
        fields(h.counts, h.counts.len()),
    )
}

/// A word as a bucket.
pub open spec fn read_bucket(s: Seq<char>) -> Option<nat> {
    match read_u64(s) {
        Some(n) => if n <= usize::MAX {
            Some(n as nat)
        } else {
            None
        },
        None => None,
    }
}

/// A word as a count.
pub open spec fn read_count(s: Seq<char>) -> Option<u32> {
    match read_u64(s) {
        Some(n) => if n <= u32::MAX {
            Some(n as u32)
        } else {
            None
        },
        None => None,
    }
}

/// The counts after one more field, or what is wrong with it.
pub open spec fn take_field(counts: Seq<u32>, f: Seq<char>) -> Result<Seq<u32>, Seq<char>> {
    let n = until(f, ':') as int;
    if n >= f.len() {
        Err("bad bucket field"@)
    } else {
        match read_bucket(f.take(n)) {
            None => Err("bucket"@),
            Some(b) => match read_count(f.skip(n + 1)) {
                None => Err("count"@),
                Some(c) => if b < counts.len() {
                    Ok(counts.update(b as int, c))
                } else {
                    Err("bucket out of range"@)
                },
            },
        }
    }
}

/// The counts after some fields, or what is wrong with the first that is.
pub open spec fn take_fields(counts: Seq<u32>, w: Seq<Seq<char>>) -> Result<Seq<u32>, Seq<char>>
    decreases w.len(),
{
    if w.len() == 0 {
        Ok(counts)
    } else {
        match take_fields(counts, w.drop_last()) {
            Err(e) => Err(e),
            Ok(c) => take_field(c, w.last()),
        }
    }
}

/// What a line reads as.
pub open spec fn read_wire(line: Seq<char>) -> Result<HistogramView, Seq<char>> {
    let w = words(line);
    if w.len() < 1 || w[0] != "hist"@ {
        Err("not a histogram line"@)
    } else if w.len() < 2 {
        Err("no total"@)
    } else if read_u64(w[1]) is None {
        Err("total"@)
    } else if w.len() < 3 {
        Err("no max"@)
    } else if read_u64(w[2]) is None {
        Err("max"@)
    } else {
        match take_fields(empty().counts, w.skip(3)) {
            Err(e) => Err(e),
            Ok(counts) => Ok(
                HistogramView { counts, total: read_u64(w[1])->0, max: read_u64(w[2])->0 },
            ),
        }
    }
}

// ---------------------------------------------------------------------------
// What was written reads back
// ---------------------------------------------------------------------------

pub open spec fn is_word(s: Seq<char>) -> bool {
    s.len() > 0 && forall|i: int| 0 <= i < s.len() ==> !is_space(#[trigger] s[i])
}

/// A word after a space is one word more.
proof fn lemma_words_push(s: Seq<char>, w: Seq<char>)
    requires
        is_word(w),
    ensures
        words(s + seq![' '] + w) == words(s).push(w),
    decreases s.len(),
{
    let t = s + seq![' '] + w;
    if s.len() == 0 {
        assert(t =~= seq![' '] + w);
        assert(t.skip(1) =~= w);
        lemma_one_word(w);
        assert(words(s).push(w) =~= seq![w]);
    } else if is_space(s[0]) {
        assert(t[0] == s[0]);
        assert(t.skip(1) =~= s.skip(1) + seq![' '] + w);
        lemma_words_push(s.skip(1), w);
    } else {
        text::lemma_word_len(s);
        let n = word_len(s) as int;
        assert forall|j: int| 0 <= j < n implies !is_space(#[trigger] t[j]) by {
            assert(t[j] == s[j]);
        }
        if n < s.len() {
            assert(t[n] == s[n]);
        } else {
            assert(t[n] == ' ');
        }
        text::lemma_word_len_is(t, n);
        assert(t.take(n) =~= s.take(n));
        assert(t.skip(n) =~= s.skip(n) + seq![' '] + w);
        lemma_words_push(s.skip(n), w);
        assert(words(t) =~= words(s).push(w));
    }
}

proof fn lemma_one_word(w: Seq<char>)
    requires
        is_word(w),
    ensures
        words(w) == seq![w],
{
    text::lemma_word_len_is(w, w.len() as int);
    assert(w.take(w.len() as int) =~= w);
    assert(w.skip(w.len() as int) =~= seq![]);
    assert(!is_space(w[0]));
    assert(words(w.skip(w.len() as int)) =~= seq![]);
    assert(words(w) =~= seq![w]);
}

proof fn lemma_words_spaced(s: Seq<char>, w: Seq<Seq<char>>)
    requires
        forall|i: int| 0 <= i < w.len() ==> is_word(#[trigger] w[i]),
    ensures
        words(s + spaced(w)) == words(s) + w,
    decreases w.len(),
{
    if w.len() == 0 {
        assert(s + spaced(w) =~= s);
        assert(words(s) + w =~= words(s));
    } else {
        lemma_words_spaced(s, w.drop_last());
        assert(is_word(w.last()));
        lemma_words_push(s + spaced(w.drop_last()), w.last());
        assert(s + spaced(w) =~= s + spaced(w.drop_last()) + seq![' '] + w.last());
        assert((words(s) + w.drop_last()).push(w.last()) =~= words(s) + w);
    }
}

proof fn lemma_digit_is_no_space(c: char)
    requires
        is_digit(c),
    ensures
        !is_space(c),
        c != ':',
        c != '+',
{
}

proof fn lemma_digits_are_a_word(n: nat)
    ensures
        is_word(digits(n)),
{
    law_digits_read_back(n);
    assert forall|i: int| 0 <= i < digits(n).len() implies !is_space(#[trigger] digits(n)[i]) by {
        lemma_digit_is_no_space(digits(n)[i]);
    }
}

proof fn lemma_read_digits(n: u64)
    ensures
        read_u64(digits(n as nat)) == Some(n),
{
    law_digits_read_back(n as nat);
    lemma_digit_is_no_space(digits(n as nat)[0]);
}

proof fn lemma_field(b: nat, c: u32)
    ensures
        is_word(field(b, c)),
        until(field(b, c), ':') == digits(b).len(),
        field(b, c).take(digits(b).len() as int) == digits(b),
        field(b, c).skip(digits(b).len() as int + 1) == digits(c as nat),
{
    let f = field(b, c);
    let n = digits(b).len() as int;
    law_digits_read_back(b);
    law_digits_read_back(c as nat);
    assert forall|i: int| 0 <= i < f.len() implies !is_space(#[trigger] f[i]) by {
        if i < n {
            lemma_digit_is_no_space(digits(b)[i]);
        } else if i > n {
            lemma_digit_is_no_space(digits(c as nat)[i - n - 1]);
        }
    }
    assert forall|j: int| 0 <= j < n implies f[j] != ':' by {
        lemma_digit_is_no_space(digits(b)[j]);
    }
    lemma_until_is(f, ':', n);
    assert(f.take(n) =~= digits(b));
    assert(f.skip(n + 1) =~= digits(c as nat));
}

proof fn lemma_fields_are_words(counts: Seq<u32>, n: nat)
    ensures
        forall|i: int| 0 <= i < fields(counts, n).len() ==> is_word(#[trigger] fields(counts, n)[i]),
    decreases n,
{
    if n > 0 {
        let before = fields(counts, (n - 1) as nat);
        lemma_fields_are_words(counts, (n - 1) as nat);
        lemma_field((n - 1) as nat, counts[n - 1]);
        assert forall|i: int| 0 <= i < fields(counts, n).len() implies is_word(
            #[trigger] fields(counts, n)[i],
        ) by {
            if i < before.len() {
                assert(fields(counts, n)[i] == before[i]);
            }
        }
    }
}

/// Taking the fields of the first `n` buckets sets those and no others.
proof fn lemma_take_fields(counts: Seq<u32>, n: nat)
    requires
        counts.len() == BUCKETS,
        n <= BUCKETS,
    ensures
        take_fields(empty().counts, fields(counts, n)) == Ok::<Seq<u32>, Seq<char>>(
            Seq::new(
                BUCKETS as nat,
                |i: int|
                    if i < n {
                        counts[i]
                    } else {
                        0u32
                    },
            ),
        ),
    decreases n,
{
    let upto = Seq::new(
        BUCKETS as nat,
        |i: int|
            if i < n {
                counts[i]
            } else {
                0u32
            },
    );
    if n == 0 {
        assert(upto =~= empty().counts);
    } else {
        let m = (n - 1) as nat;
        let before = Seq::new(
            BUCKETS as nat,
            |i: int|
                if i < m {
                    counts[i]
                } else {
                    0u32
                },
        );
        lemma_take_fields(counts, m);
        if counts[m as int] == 0 {
            assert(upto =~= before);
        } else {
            lemma_field(m, counts[m as int]);
            lemma_read_digits(m as u64);
            lemma_read_digits(counts[m as int] as u64);
            assert(fields(counts, n).drop_last() =~= fields(counts, m));
            assert(before.update(m as int, counts[m as int]) =~= upto);
        }
    }
}

/// A histogram that was written reads back as itself.
pub proof fn law_wire_reads_back(h: HistogramView)
    requires
        h.wf(),
    ensures
        read_wire(wire(h)) == Ok::<HistogramView, Seq<char>>(h),
{
    let f = fields(h.counts, h.counts.len());
    let head = "hist"@ + seq![' '] + digits(h.total as nat) + seq![' '] + digits(h.max as nat);
    reveal_strlit("hist");
    assert(is_word("hist"@));
    lemma_one_word("hist"@);
    lemma_digits_are_a_word(h.total as nat);
    lemma_digits_are_a_word(h.max as nat);
    lemma_words_push("hist"@, digits(h.total as nat));
    lemma_words_push("hist"@ + seq![' '] + digits(h.total as nat), digits(h.max as nat));
    lemma_fields_are_words(h.counts, h.counts.len());
    lemma_words_spaced(head, f);
    let w = words(wire(h));
    assert(w == seq!["hist"@].push(digits(h.total as nat)).push(digits(h.max as nat)) + f);
    assert(w.skip(3) =~= f);
    lemma_read_digits(h.total);
    lemma_read_digits(h.max);
    lemma_take_fields(h.counts, h.counts.len());
    assert(Seq::new(
        BUCKETS as nat,
        |i: int|
            if i < h.counts.len() {
                h.counts[i]
            } else {
                0u32
            },
    ) =~= h.counts);
}

// ---------------------------------------------------------------------------
// Writing and reading
// ---------------------------------------------------------------------------

impl Histogram {
    /// The wire form: one line, for a child to print.
    #[must_use]
    pub fn encode(&self) -> (r: String)
        requires
            self@.wf(),
        ensures
            r@ == wire(self@),
    {
        let mut s = "hist".to_owned();
        s.push(' ');
        s.append(decimal(self.total).as_str());
        s.push(' ');
        s.append(decimal(self.max).as_str());
        let ghost head = "hist"@ + seq![' '] + digits(self@.total as nat) + seq![' '] + digits(
            self@.max as nat,
        );
        assert(s@ =~= head + spaced(fields(self@.counts, 0)));
        let mut i: usize = 0;
        while i < BUCKETS
            invariant
                i <= BUCKETS,
                self@.wf(),
                s@ == head + spaced(fields(self@.counts, i as nat)),
            decreases BUCKETS - i,
        {
            let c: u32 = self.counts[i];
            if c != 0 {
                let ghost before = fields(self@.counts, i as nat);
                let mut f = decimal(i as u64);
                f.push(':');
                f.append(decimal(c as u64).as_str());
                assert(f@ =~= field(i as nat, c));
                s.push(' ');
                s.append(f.as_str());
                assert(before.push(f@).drop_last() =~= before);
                assert(s@ =~= head + spaced(before.push(f@)));
            }
            i = i + 1;
        }
        s
    }

    fn put(&mut self, f: &str) -> (r: Result<(), &'static str>)
        ensures
            match r {
                Ok(()) => take_field(old(self)@.counts, f@) == Ok::<Seq<u32>, Seq<char>>(
                    final(self)@.counts,
                ) && final(self)@.total == old(self)@.total && final(self)@.max == old(self)@.max,
                Err(e) => take_field(old(self)@.counts, f@) == Err::<Seq<u32>, Seq<char>>(e@),
            },
    {
        let cs = text::chars(f);
        let n = text::find_char(&cs, 0, ':');
        assert(cs@.skip(0) =~= cs@);
        if n >= cs.len() {
            return Err("bad bucket field");
        }
        let left = text::slice(&cs, 0, n);
        let right = text::slice(&cs, n + 1, cs.len());
        assert(left@ =~= f@.take(n as int));
        assert(right@ =~= f@.skip(n + 1));
        let b: usize = match text::parse_u64(left.as_str()) {
            None => return Err("bucket"),
            Some(b) => {
                if b > usize::MAX as u64 {
                    return Err("bucket");
                }
                b as usize
            },
        };
        let c: u32 = match text::parse_u64(right.as_str()) {
            None => return Err("count"),
            Some(c) => {
                if c > 0xffff_ffff {
                    return Err("count");
                }
                c as u32
            },
        };
        if b < self.counts.len() {
            self.counts.set(b, c);
            Ok(())
        } else {
            Err("bucket out of range")
        }
    }

    /// Reads the wire form.
    ///
    /// # Errors
    ///
    /// What is wrong with the line, where it is not the wire form.
    #[verifier::rlimit(40)]
    pub fn decode(line: &str) -> (r: Result<Histogram, &'static str>)
        ensures
            match r {
                Ok(h) => read_wire(line@) == Ok::<HistogramView, Seq<char>>(h@) && h@.wf(),
                Err(e) => read_wire(line@) == Err::<HistogramView, Seq<char>>(e@),
            },
    {
        let w = text::split_words(line);
        let ghost all = texts(w@);
        if w.len() < 1 {
            return Err("not a histogram line");
        }
        assert(all[0] == w@[0]@);
        if !text::same(w[0].as_str(), "hist") {
            return Err("not a histogram line");
        }
        if w.len() < 2 {
            return Err("no total");
        }
        assert(all[1] == w@[1]@);
        let total: u64 = match text::parse_u64(w[1].as_str()) {
            None => return Err("total"),
            Some(n) => n,
        };
        if w.len() < 3 {
            return Err("no max");
        }
        assert(all[2] == w@[2]@);
        let max: u64 = match text::parse_u64(w[2].as_str()) {
            None => return Err("max"),
            Some(n) => n,
        };
        let mut h = Histogram::new();
        h.total = total;
        h.max = max;
        let ghost rest = all.skip(3);
        let mut i: usize = 3;
        assert(rest.take(0) =~= seq![]);
        while i < w.len()
            invariant
                3 <= i <= w@.len(),
                all == texts(w@),
                all == words(line@),
                rest == all.skip(3),
                all[0] == "hist"@,
                read_u64(all[1]) == Some(total),
                read_u64(all[2]) == Some(max),
                h@.total == total,
                h@.max == max,
                h@.wf(),
                take_fields(empty().counts, rest.take(i - 3)) == Ok::<Seq<u32>, Seq<char>>(
                    h@.counts,
                ),
            decreases w@.len() - i,
        {
            proof {
                assert(rest.take(i - 2).drop_last() =~= rest.take(i - 3));
                assert(rest.take(i - 2).last() == w@[i as int]@);
            }
            match h.put(w[i].as_str()) {
                Ok(()) => {},
                Err(e) => {
                    proof {
                        lemma_take_fields_stops(empty().counts, rest, i - 2, e@);
                    }
                    return Err(e);
                },
            }
            i = i + 1;
        }
        assert(rest.take(i - 3) =~= rest);
        Ok(h)
    }
}

/// Once a field is wrong, no later field matters.
proof fn lemma_take_fields_stops(counts: Seq<u32>, w: Seq<Seq<char>>, k: int, e: Seq<char>)
    requires
        0 <= k <= w.len(),
        take_fields(counts, w.take(k)) == Err::<Seq<u32>, Seq<char>>(e),
    ensures
        take_fields(counts, w) == Err::<Seq<u32>, Seq<char>>(e),
    decreases w.len() - k,
{
    if k == w.len() {
        assert(w.take(k) =~= w);
    } else {
        assert(w.take(k + 1).drop_last() =~= w.take(k));
        lemma_take_fields_stops(counts, w, k + 1, e);
    }
}

// ---------------------------------------------------------------------------
// What a histogram says of what it was given
// ---------------------------------------------------------------------------

/// A histogram counts each observation in its bucket, and keeps the largest.
pub proof fn law_what_a_histogram_holds(h: HistogramView, obs: Seq<u64>, b: nat)
    requires
        h.records(obs),
        b < 7424,
    ensures
        h.total == obs.len(),
        h.counts[b as int] == obs.filter(|v: u64| bucket_of(v as nat) == b).len(),
        forall|i: int| 0 <= i < obs.len() ==> #[trigger] obs[i] <= h.max,
        obs.len() == 0 ==> h.max == 0,
        obs.len() > 0 ==> obs.contains(h.max),
{
    lemma_in_bucket_is_filtered(obs, b);
    assert forall|i: int| 0 <= i < obs.len() implies #[trigger] obs[i] <= h.max by {
        lemma_largest(obs, i);
    }
    lemma_largest_is_seen(obs);
}

proof fn lemma_in_bucket_is_filtered(obs: Seq<u64>, b: nat)
    ensures
        in_bucket(obs, b) == obs.filter(|v: u64| bucket_of(v as nat) == b).len(),
    decreases obs.len(),
{
    reveal(Seq::filter);
    if obs.len() > 0 {
        lemma_in_bucket_is_filtered(obs.drop_last(), b);
    }
}

proof fn lemma_largest_is_seen(obs: Seq<u64>)
    ensures
        obs.len() == 0 ==> largest(obs) == 0,
        obs.len() > 0 ==> obs.contains(largest(obs)),
    decreases obs.len(),
{
    if obs.len() > 0 {
        let rest = obs.drop_last();
        lemma_largest_is_seen(rest);
        if obs.last() > largest(rest) {
            assert(obs[obs.len() - 1] == largest(obs));
        } else if rest.len() > 0 {
            let j = rest.index_of(largest(rest));
            assert(obs[j] == largest(obs));
        } else {
            assert(obs[0] == 0);
        }
    }
}

/// Values below a hundred and twenty-eight are kept as they are, and any other to within its
/// hundred and twenty-eighth part.
pub proof fn law_how_close_a_bucket_is(v: u64)
    ensures
        v < 128 ==> floor_of(bucket_of(v as nat)) == v,
        floor_of(bucket_of(v as nat)) <= v,
        (v - floor_of(bucket_of(v as nat))) * 128 <= floor_of(bucket_of(v as nat)),
        bucket_of(v as nat) < 7424,
{
    law_every_value_has_a_bucket(v);
    law_floor_is_close(v as nat);
}

proof fn lemma_first_not_below(ns: u64, n: nat, from: nat)
    requires
        from <= n,
    ensures
        ({
            let k = first_not_below(ns, n, from);
            &&& from <= k <= n
            &&& k < n ==> floor_of(k) >= ns
            &&& forall|j: nat| from <= j < k ==> #[trigger] floor_of(j) < ns
        }),
    decreases n - from,
{
    if from < n && floor_of(from) < ns {
        lemma_first_not_below(ns, n, from + 1);
    }
}

proof fn lemma_in_first_is_filtered(obs: Seq<u64>, ns: u64, k: nat)
    requires
        k <= BUCKETS,
        k < BUCKETS ==> floor_of(k) >= ns,
        forall|j: nat| j < k ==> #[trigger] floor_of(j) < ns,
    ensures
        in_first(obs, k) == obs.filter(|v: u64| floor_of(bucket_of(v as nat)) < ns).len(),
    decreases obs.len(),
{
    reveal(Seq::filter);
    if obs.len() > 0 {
        lemma_in_first_is_filtered(obs.drop_last(), ns, k);
        let b = bucket_of(obs.last() as nat);
        law_every_value_has_a_bucket(obs.last());
        if b < k {
            assert(floor_of(b) < ns);
        } else {
            if b > k {
                law_floors_are_ordered(k, b);
            }
            assert(floor_of(b) >= ns);
        }
    }
}

/// What is counted below a bound is every observation whose bucket starts below it: so every one
/// that is below it, and none that is past it by more than a bucket.
pub proof fn law_what_is_counted_below(h: HistogramView, obs: Seq<u64>, ns: u64)
    requires
        h.records(obs),
    ensures
        h.below(ns) == obs.filter(|v: u64| floor_of(bucket_of(v as nat)) < ns).len(),
        forall|v: u64| v < ns ==> floor_of(#[trigger] bucket_of(v as nat)) < ns,
        h.below(0) == 0,
{
    let n = h.counts.len();
    let k = first_not_below(ns, n, 0);
    lemma_first_not_below(ns, n, 0);
    lemma_held_is_in_first(h, obs, k);
    lemma_in_first_is_filtered(obs, ns, k);
    assert forall|v: u64| v < ns implies floor_of(#[trigger] bucket_of(v as nat)) < ns by {
        law_floor_is_close(v as nat);
    }
}

/// A line begins with its word, how many observations there are and the largest, and what is
/// read of a line is what stands there.
pub proof fn law_a_line_says_its_numbers(h: HistogramView, line: Seq<char>)
    ensures
        text::begins(
            wire(h),
            "hist"@ + seq![' '] + digits(h.total as nat) + seq![' '] + digits(h.max as nat),
        ),
        read_wire(line) matches Ok(x) ==> {
            &&& words(line).len() >= 3
            &&& words(line)[0] == "hist"@
            &&& read_u64(words(line)[1]) == Some(x.total)
            &&& read_u64(words(line)[2]) == Some(x.max)
        },
        words(line).len() == 0 || words(line)[0] != "hist"@ ==> read_wire(line) is Err,
{
    let a = "hist"@ + seq![' '] + digits(h.total as nat) + seq![' '] + digits(h.max as nat);
    assert(wire(h).take(a.len() as int) =~= a);
}

/// A field sets one bucket to its count, and leaves the others.
pub proof fn law_a_field_sets_its_bucket(counts: Seq<u32>, w: Seq<Seq<char>>, b: nat, c: u32)
    requires
        b < counts.len() <= 7424,
        take_fields(counts, w) is Ok,
        take_fields(counts, w)->Ok_0.len() == counts.len(),
    ensures
        take_fields(counts, w.push(digits(b) + seq![':'] + digits(c as nat))) == Ok::<
            Seq<u32>,
            Seq<char>,
        >(take_fields(counts, w)->Ok_0.update(b as int, c)),
{
    let f = digits(b) + seq![':'] + digits(c as nat);
    assert(w.push(f).drop_last() =~= w);
    law_digits_read_back(b);
    law_digits_read_back(c as nat);
    let n = digits(b).len() as int;
    assert forall|j: int| 0 <= j < n implies f[j] != ':' by {
        assert(is_digit(digits(b)[j]));
    }
    lemma_until_is(f, ':', n);
    assert(f.take(n) =~= digits(b));
    assert(f.skip(n + 1) =~= digits(c as nat));
    lemma_read_digits(b as u64);
    lemma_read_digits(c as u64);
}

} // verus!
