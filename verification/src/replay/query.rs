//! What a recording covers, and the queries that are drawn from it.

use vstd::prelude::*;

use super::{Pose, Sample, StreamView, TfStream};
use crate::order::{
    add_name, ascending, lemma_precedes_irreflexive, lemma_with_name, precedes, with_name,
};
use crate::rng::{alike, lemma_alike, mixed, stepped, SplitMix64};
use crate::text::texts;

verus! {

// ---------------------------------------------------------------------------
// The frames
// ---------------------------------------------------------------------------

/// The frames of the first `n` static edges, in order.
pub open spec fn static_frames(s: StreamView, n: nat) -> Seq<Seq<char>>
    decreases n,
{
    if n == 0 {
        seq![]
    } else {
        let e = s.statics[n - 1];
        with_name(with_name(static_frames(s, (n - 1) as nat), e.0), e.1)
    }
}

/// Those of all the static edges and of the first `n` dynamic edges.
pub open spec fn frames(s: StreamView, n: nat) -> Seq<Seq<char>>
    decreases n,
{
    if n == 0 {
        static_frames(s, s.statics.len())
    } else {
        let e = s.dynamics[n - 1];
        with_name(with_name(frames(s, (n - 1) as nat), e.0), e.1)
    }
}

/// Whether a frame is an end of one of the first edges of a recording.
pub open spec fn is_frame(s: StreamView, statics: nat, dynamics: nat, x: Seq<char>) -> bool {
    ||| exists|i: int|
        0 <= i < statics && ((#[trigger] s.statics[i]).0 == x || s.statics[i].1 == x)
    ||| exists|i: int|
        0 <= i < dynamics && ((#[trigger] s.dynamics[i]).0 == x || s.dynamics[i].1 == x)
}

proof fn lemma_static_frames(s: StreamView, n: nat)
    requires
        n <= s.statics.len(),
    ensures
        ascending(static_frames(s, n)),
        forall|x: Seq<char>| #[trigger] static_frames(s, n).contains(x) <==> is_frame(s, n, 0, x),
    decreases n,
{
    if n > 0 {
        lemma_static_frames(s, (n - 1) as nat);
        let before = static_frames(s, (n - 1) as nat);
        let e = s.statics[n - 1];
        lemma_with_name(before, e.0);
        lemma_with_name(with_name(before, e.0), e.1);
        assert forall|x: Seq<char>| #[trigger] static_frames(s, n).contains(x) <==> is_frame(
            s,
            n,
            0,
            x,
        ) by {
            assert(static_frames(s, n).contains(x) <==> with_name(before, e.0).contains(x) || x
                == e.1);
            assert(with_name(before, e.0).contains(x) <==> before.contains(x) || x == e.0);
            if is_frame(s, (n - 1) as nat, 0, x) {
                let i = choose|i: int|
                    0 <= i < n - 1 && ((#[trigger] s.statics[i]).0 == x || s.statics[i].1 == x);
                assert(s.statics[i].0 == x || s.statics[i].1 == x);
            }
            if is_frame(s, n, 0, x) {
                let i = choose|i: int|
                    0 <= i < n && ((#[trigger] s.statics[i]).0 == x || s.statics[i].1 == x);
                assert(s.statics[i].0 == x || s.statics[i].1 == x);
            }
        }
    }
}

/// The frames of a recording are in alphabetical order without repetition, and are
/// exactly the ends of its edges.
pub proof fn law_frames_are_the_ends_in_order(s: StreamView, n: nat)
    requires
        n <= s.dynamics.len(),
    ensures
        ascending(frames(s, n)),
        forall|x: Seq<char>| #[trigger]
            frames(s, n).contains(x) <==> is_frame(s, s.statics.len(), n, x),
    decreases n,
{
    lemma_static_frames(s, s.statics.len());
    if n > 0 {
        law_frames_are_the_ends_in_order(s, (n - 1) as nat);
        let before = frames(s, (n - 1) as nat);
        let e = s.dynamics[n - 1];
        lemma_with_name(before, e.0);
        lemma_with_name(with_name(before, e.0), e.1);
        assert forall|x: Seq<char>| #[trigger] frames(s, n).contains(x) <==> is_frame(
            s,
            s.statics.len(),
            n,
            x,
        ) by {
            assert(frames(s, n).contains(x) <==> with_name(before, e.0).contains(x) || x == e.1);
            assert(with_name(before, e.0).contains(x) <==> before.contains(x) || x == e.0);
            assert(before.contains(x) <==> is_frame(s, s.statics.len(), (n - 1) as nat, x));
            let k = n - 1;
            assert(x == s.dynamics[k].0 || x == s.dynamics[k].1 ==> is_frame(
                s,
                s.statics.len(),
                n,
                x,
            ));
            if exists|i: int|
                0 <= i < n && ((#[trigger] s.dynamics[i]).0 == x || s.dynamics[i].1 == x) {
                let i = choose|i: int|
                    0 <= i < n && ((#[trigger] s.dynamics[i]).0 == x || s.dynamics[i].1 == x);
                assert(i < n - 1 ==> is_frame(s, s.statics.len(), (n - 1) as nat, x));
            }
        }
    }
}

// ---------------------------------------------------------------------------
// The window
// ---------------------------------------------------------------------------

/// How many of some samples are of an edge.
pub open spec fn count(samples: Seq<Sample>, edge: int) -> nat
    decreases samples.len(),
{
    if samples.len() == 0 {
        0
    } else {
        count(samples.drop_last(), edge) + if samples.last().edge == edge {
            1nat
        } else {
            0nat
        }
    }
}

/// The first stamp of an edge, or the largest stamp where it has no sample.
pub open spec fn first_stamp(samples: Seq<Sample>, edge: int) -> i64
    decreases samples.len(),
{
    if samples.len() == 0 {
        i64::MAX
    } else {
        let r = first_stamp(samples.drop_last(), edge);
        let x = samples.last();
        if x.edge == edge && x.stamp_ns < r {
            x.stamp_ns
        } else {
            r
        }
    }
}

/// The last stamp of an edge, or the smallest stamp where it has no sample.
pub open spec fn last_stamp(samples: Seq<Sample>, edge: int) -> i64
    decreases samples.len(),
{
    if samples.len() == 0 {
        i64::MIN
    } else {
        let r = last_stamp(samples.drop_last(), edge);
        let x = samples.last();
        if x.edge == edge && x.stamp_ns > r {
            x.stamp_ns
        } else {
            r
        }
    }
}

/// The latest of the first stamps of the first `n` edges.
pub open spec fn latest_first(samples: Seq<Sample>, n: nat) -> i64
    decreases n,
{
    if n <= 1 {
        first_stamp(samples, 0)
    } else {
        let r = latest_first(samples, (n - 1) as nat);
        let x = first_stamp(samples, n - 1);
        if x > r {
            x
        } else {
            r
        }
    }
}

/// The earliest of the last stamps of the first `n` edges.
pub open spec fn earliest_last(samples: Seq<Sample>, n: nat) -> i64
    decreases n,
{
    if n <= 1 {
        last_stamp(samples, 0)
    } else {
        let r = earliest_last(samples, (n - 1) as nat);
        let x = last_stamp(samples, n - 1);
        if x < r {
            x
        } else {
            r
        }
    }
}

/// The stamps between which every dynamic edge has data, where there are any.
pub open spec fn window(s: StreamView) -> Option<(i64, i64)> {
    let n = s.dynamics.len();
    let lo = latest_first(s.samples, n);
    let hi = earliest_last(s.samples, n);
    if n == 0 || (exists|e: int|
        0 <= e < n && #[trigger] first_stamp(s.samples, e) == i64::MAX) || lo >= hi {
        None
    } else {
        Some((lo, hi))
    }
}

proof fn lemma_first_stamp_attained(samples: Seq<Sample>, edge: int)
    requires
        first_stamp(samples, edge) != i64::MAX,
    ensures
        exists|i: int|
            0 <= i < samples.len() && (#[trigger] samples[i]).edge == edge && samples[i].stamp_ns
                == first_stamp(samples, edge),
    decreases samples.len(),
{
    let w = samples.drop_last();
    let x = samples.last();
    if x.edge == edge && x.stamp_ns < first_stamp(w, edge) {
        assert(samples[samples.len() - 1] == x);
    } else {
        lemma_first_stamp_attained(w, edge);
        let i = choose|i: int|
            0 <= i < w.len() && (#[trigger] w[i]).edge == edge && w[i].stamp_ns == first_stamp(
                w,
                edge,
            );
        assert(samples[i] == w[i]);
    }
}

proof fn lemma_last_stamp_attained(samples: Seq<Sample>, edge: int)
    requires
        last_stamp(samples, edge) != i64::MIN,
    ensures
        exists|i: int|
            0 <= i < samples.len() && (#[trigger] samples[i]).edge == edge && samples[i].stamp_ns
                == last_stamp(samples, edge),
    decreases samples.len(),
{
    let w = samples.drop_last();
    let x = samples.last();
    if x.edge == edge && x.stamp_ns > last_stamp(w, edge) {
        assert(samples[samples.len() - 1] == x);
    } else {
        lemma_last_stamp_attained(w, edge);
        let i = choose|i: int|
            0 <= i < w.len() && (#[trigger] w[i]).edge == edge && w[i].stamp_ns == last_stamp(
                w,
                edge,
            );
        assert(samples[i] == w[i]);
    }
}

proof fn lemma_bounds(samples: Seq<Sample>, n: nat, e: int)
    requires
        0 <= e < n,
    ensures
        first_stamp(samples, e) <= latest_first(samples, n),
        earliest_last(samples, n) <= last_stamp(samples, e),
    decreases n,
{
    if n > 1 && e < n - 1 {
        lemma_bounds(samples, (n - 1) as nat, e);
    }
}

/// In the window every dynamic edge has data on both sides of every stamp.
pub proof fn law_window_is_covered(s: StreamView, e: int, stamp: i64)
    requires
        window(s) matches Some((lo, hi)) && lo <= stamp <= hi,
        0 <= e < s.dynamics.len(),
    ensures
        exists|i: int|
            0 <= i < s.samples.len() && (#[trigger] s.samples[i]).edge == e && s.samples[i].stamp_ns
                <= stamp,
        exists|i: int|
            0 <= i < s.samples.len() && (#[trigger] s.samples[i]).edge == e && s.samples[i].stamp_ns
                >= stamp,
{
    let n = s.dynamics.len();
    lemma_bounds(s.samples, n, e);
    assert(first_stamp(s.samples, e) != i64::MAX);
    lemma_first_stamp_attained(s.samples, e);
    lemma_last_stamp_attained(s.samples, e);
}

/// The slots that a ring needs so that it hands all the samples of an edge back: one more
/// than they are, since the slot that is written next cannot be read.
pub open spec fn slots_for(samples: nat) -> u32 {
    if samples >= u32::MAX {
        u32::MAX
    } else {
        (samples + 1) as u32
    }
}

impl TfStream {
    /// Every frame of the recording, in order.
    #[must_use]
    pub fn frame_names(&self) -> (r: Vec<String>)
        ensures
            texts(r@) == frames(self@, self@.dynamics.len()),
    {
        let mut v: Vec<String> = Vec::new();
        assert(texts(v@) =~= seq![]);
        let mut i: usize = 0;
        while i < self.static_edges.len()
            invariant
                i <= self.static_edges@.len(),
                texts(v@) == static_frames(self@, i as nat),
            decreases self.static_edges@.len() - i,
        {
            add_name(&mut v, &self.static_edges[i].0);
            add_name(&mut v, &self.static_edges[i].1);
            i = i + 1;
        }
        let mut j: usize = 0;
        while j < self.dynamic_edges.len()
            invariant
                j <= self.dynamic_edges@.len(),
                texts(v@) == frames(self@, j as nat),
            decreases self.dynamic_edges@.len() - j,
        {
            add_name(&mut v, &self.dynamic_edges[j].0);
            add_name(&mut v, &self.dynamic_edges[j].1);
            j = j + 1;
        }
        v
    }

    /// How many samples each dynamic edge has.
    #[must_use]
    pub fn samples_per_edge(&self) -> (r: Vec<usize>)
        requires
            self@.wf(),
        ensures
            r@.len() == self@.dynamics.len(),
            forall|e: int| 0 <= e < r@.len() ==> #[trigger] r@[e] == count(self@.samples, e),
    {
        let mut counts: Vec<usize> = Vec::new();
        let mut k: usize = 0;
        while k < self.dynamic_edges.len()
            invariant
                k <= self.dynamic_edges@.len(),
                counts@.len() == k,
                forall|e: int| 0 <= e < k ==> #[trigger] counts@[e] == 0,
            decreases self.dynamic_edges@.len() - k,
        {
            counts.push(0);
            k = k + 1;
        }
        let ghost all = self.samples@;
        let mut i: usize = 0;
        assert(all.take(0) =~= seq![]);
        while i < self.samples.len()
            invariant
                self@.wf(),
                all == self.samples@,
                i <= self.samples.len(),
                counts@.len() == self@.dynamics.len(),
                forall|e: int|
                    0 <= e < counts@.len() ==> #[trigger] counts@[e] == count(
                        all.take(i as int),
                        e,
                    ) && counts@[e] <= i,
            decreases self.samples@.len() - i,
        {
            let e: usize = self.samples[i].edge;
            assert(self@.samples[i as int].edge < self@.dynamics.len());
            assert(all.take(i + 1).drop_last() =~= all.take(i as int));
            let c: usize = counts[e];
            counts.set(e, c + 1);
            i = i + 1;
        }
        assert(all.take(i as int) =~= all);
        counts
    }

    /// How many slots each dynamic edge's ring is given.
    #[must_use]
    pub fn ring_slots(&self) -> (r: Vec<u32>)
        requires
            self@.wf(),
        ensures
            r@.len() == self@.dynamics.len(),
            forall|e: int|
                0 <= e < r@.len() ==> #[trigger] r@[e] == slots_for(count(self@.samples, e)),
    {
        let counts = self.samples_per_edge();
        let mut out: Vec<u32> = Vec::new();
        let mut i: usize = 0;
        while i < counts.len()
            invariant
                i <= counts@.len(),
                out@.len() == i,
                forall|e: int|
                    0 <= e < counts@.len() ==> #[trigger] counts@[e] == count(self@.samples, e),
                forall|e: int|
                    0 <= e < i ==> #[trigger] out@[e] == slots_for(count(self@.samples, e)),
            decreases counts@.len() - i,
        {
            let c: u64 = counts[i] as u64;
            let want: u32 = if c >= u32::MAX as u64 {
                u32::MAX
            } else {
                (c + 1) as u32
            };
            out.push(want);
            i = i + 1;
        }
        out
    }

    fn first_stamp_of(&self, edge: usize) -> (r: i64)
        ensures
            r == first_stamp(self@.samples, edge as int),
    {
        let ghost all = self.samples@;
        let mut r: i64 = i64::MAX;
        let mut i: usize = 0;
        assert(all.take(0) =~= seq![]);
        while i < self.samples.len()
            invariant
                all == self.samples@,
                i <= all.len(),
                r == first_stamp(all.take(i as int), edge as int),
            decreases all.len() - i,
        {
            assert(all.take(i + 1).drop_last() =~= all.take(i as int));
            if self.samples[i].edge == edge && self.samples[i].stamp_ns < r {
                r = self.samples[i].stamp_ns;
            }
            i = i + 1;
        }
        assert(all.take(i as int) =~= all);
        r
    }

    fn last_stamp_of(&self, edge: usize) -> (r: i64)
        ensures
            r == last_stamp(self@.samples, edge as int),
    {
        let ghost all = self.samples@;
        let mut r: i64 = i64::MIN;
        let mut i: usize = 0;
        assert(all.take(0) =~= seq![]);
        while i < self.samples.len()
            invariant
                all == self.samples@,
                i <= all.len(),
                r == last_stamp(all.take(i as int), edge as int),
            decreases all.len() - i,
        {
            assert(all.take(i + 1).drop_last() =~= all.take(i as int));
            if self.samples[i].edge == edge && self.samples[i].stamp_ns > r {
                r = self.samples[i].stamp_ns;
            }
            i = i + 1;
        }
        assert(all.take(i as int) =~= all);
        r
    }

    /// The stamps between which every dynamic edge has data. A query outside them is
    /// extrapolation for some edge.
    #[must_use]
    pub fn common_window(&self) -> (r: Option<(i64, i64)>)
        ensures
            r == window(self@),
    {
        let n = self.dynamic_edges.len();
        if n == 0 {
            return None;
        }
        let mut lo: i64 = self.first_stamp_of(0);
        let mut hi: i64 = self.last_stamp_of(0);
        let mut none: bool = lo == i64::MAX;
        assert(none <==> exists|e: int|
            0 <= e < 1 && #[trigger] first_stamp(self@.samples, e) == i64::MAX);
        let mut e: usize = 1;
        while e < n
            invariant
                1 <= e <= n,
                n == self@.dynamics.len(),
                lo == latest_first(self@.samples, e as nat),
                hi == earliest_last(self@.samples, e as nat),
                none <==> exists|k: int|
                    0 <= k < e && #[trigger] first_stamp(self@.samples, k) == i64::MAX,
            decreases n - e,
        {
            let first: i64 = self.first_stamp_of(e);
            let last: i64 = self.last_stamp_of(e);
            if first == i64::MAX {
                none = true;
                assert(first_stamp(self@.samples, e as int) == i64::MAX);
            }
            if first > lo {
                lo = first;
            }
            if last < hi {
                hi = last;
            }
            e = e + 1;
        }
        if none || lo >= hi {
            None
        } else {
            Some((lo, hi))
        }
    }

    /// From the first stamp of the recording to its last, at most the largest difference
    /// that there is; zero where there is no sample.
    #[must_use]
    pub fn span_ns(&self) -> (r: i64)
        ensures
            r == span_of(self@.samples),
    {
        if self.samples.len() == 0 {
            return 0;
        }
        let first: i64 = self.samples[0].stamp_ns;
        let last: i64 = self.samples[self.samples.len() - 1].stamp_ns;
        match last.checked_sub(first) {
            Some(d) => d,
            None => if first < 0 {
                i64::MAX
            } else {
                i64::MIN
            },
        }
    }
}

pub open spec fn span_of(samples: Seq<Sample>) -> int {
    if samples.len() == 0 {
        0
    } else {
        let d = samples.last().stamp_ns - samples[0].stamp_ns;
        if d > i64::MAX {
            i64::MAX as int
        } else if d < i64::MIN {
            i64::MIN as int
        } else {
            d
        }
    }
}

// ---------------------------------------------------------------------------
// The queries
// ---------------------------------------------------------------------------

/// Queries over a recording: target, source and stamp.
pub struct QuerySet {
    pub queries: Vec<(String, String, i64)>,
}

/// Why no queries could be drawn.
#[derive(Debug, Clone, Copy, PartialEq, Eq, Structural)]
pub enum DrawError {
    /// No stamp at which every dynamic edge has data.
    NoWindow,
    /// Fewer than two frames.
    FewFrames,
}

impl DrawError {
    pub open spec fn text(self) -> Seq<char> {
        match self {
            DrawError::NoWindow => "recording has no window covered by every dynamic edge"@,
            DrawError::FewFrames => "recording has fewer than two frames"@,
        }
    }

    /// What is said of it.
    pub fn message(self) -> (r: &'static str)
        ensures
            r@ == self.text(),
    {
        match self {
            DrawError::NoWindow => "recording has no window covered by every dynamic edge",
            DrawError::FewFrames => "recording has fewer than two frames",
        }
    }
}

pub open spec fn query_views(v: Seq<(String, String, i64)>) -> Seq<(Seq<char>, Seq<char>, i64)> {
    v.map_values(|q: (String, String, i64)| (q.0@, q.1@, q.2))
}

/// The queries that follow `drawn` until there are `n`: each attempt draws two frames, and
/// a stamp where they differ. Of two frames or more, some attempt draws two that differ.
pub open spec fn draws(
    names: Seq<Seq<char>>,
    lo: i64,
    hi: i64,
    n: nat,
    state: u64,
    drawn: Seq<(Seq<char>, Seq<char>, i64)>,
) -> Seq<(Seq<char>, Seq<char>, i64)>
    decreases n - drawn.len(), alike(state, names.len() as int),
    when names.len() >= 2
    via draws_decreases
{
    if drawn.len() >= n {
        drawn
    } else {
        let s1 = stepped(state);
        let s2 = stepped(s1);
        let s3 = stepped(s2);
        let a = mixed(s1) as int % names.len() as int;
        let b = mixed(s2) as int % names.len() as int;
        if a == b {
            draws(names, lo, hi, n, s2, drawn)
        } else {
            let stamp = (lo + mixed(s3) as int % (hi - lo)) as i64;
            draws(names, lo, hi, n, s3, drawn.push((names[a], names[b], stamp)))
        }
    }
}

#[via_fn]
proof fn draws_decreases(
    names: Seq<Seq<char>>,
    lo: i64,
    hi: i64,
    n: nat,
    state: u64,
    drawn: Seq<(Seq<char>, Seq<char>, i64)>,
) {
    let m = names.len() as int;
    let s1 = stepped(state);
    let s2 = stepped(s1);
    if mixed(s1) as int % m == mixed(s2) as int % m {
        lemma_alike(state, m);
    }
}

pub const SEED_SALT: u64 = 0x9E37_79B9_7F4A_7C15;

/// The queries of a recording, or why there are none.
pub open spec fn queries_of(s: StreamView, n: nat, seed: u64) -> Result<
    Seq<(Seq<char>, Seq<char>, i64)>,
    DrawError,
> {
    let names = frames(s, s.dynamics.len());
    match window(s) {
        None => Err(DrawError::NoWindow),
        Some((lo, hi)) => if names.len() < 2 {
            Err(DrawError::FewFrames)
        } else {
            Ok(draws(names, lo, hi, n, seed ^ SEED_SALT, seq![]))
        },
    }
}

/// A query between two frames at a stamp of the window.
pub open spec fn query_ok(
    names: Seq<Seq<char>>,
    lo: i64,
    hi: i64,
    q: (Seq<char>, Seq<char>, i64),
) -> bool {
    names.contains(q.0) && names.contains(q.1) && q.0 != q.1 && lo <= q.2 < hi
}

proof fn lemma_draws_ok(
    names: Seq<Seq<char>>,
    lo: i64,
    hi: i64,
    n: nat,
    state: u64,
    drawn: Seq<(Seq<char>, Seq<char>, i64)>,
)
    requires
        lo < hi,
        names.len() >= 2,
        ascending(names),
        drawn.len() <= n,
        forall|i: int| 0 <= i < drawn.len() ==> query_ok(names, lo, hi, #[trigger] drawn[i]),
    ensures
        ({
            let q = draws(names, lo, hi, n, state, drawn);
            &&& q.len() == n
            &&& forall|i: int| 0 <= i < q.len() ==> query_ok(names, lo, hi, #[trigger] q[i])
        }),
    decreases n - drawn.len(), alike(state, names.len() as int),
{
    if drawn.len() < n {
        let s1 = stepped(state);
        let s2 = stepped(s1);
        let s3 = stepped(s2);
        let a = mixed(s1) as int % names.len() as int;
        let b = mixed(s2) as int % names.len() as int;
        if a == b {
            lemma_alike(state, names.len() as int);
            lemma_draws_ok(names, lo, hi, n, s2, drawn);
        } else {
            let m = mixed(s3) as int % (hi - lo);
            assert(0 <= m < hi - lo) by (nonlinear_arith)
                requires
                    m == mixed(s3) as int % (hi - lo),
                    hi - lo > 0,
            ;
            let q = (names[a], names[b], (lo + m) as i64);
            lemma_precedes_irreflexive(names[a]);
            if a < b {
                assert(precedes(names[a], names[b]));
            } else {
                assert(precedes(names[b], names[a]));
            }
            assert(query_ok(names, lo, hi, q));
            lemma_draws_ok(names, lo, hi, n, s3, drawn.push(q));
        }
    }
}

/// A recording of two frames or more with a stamp at which every dynamic edge has data draws
/// all the queries that are asked for, and no other draws any. Each is between two different
/// frames of the recording, at such a stamp.
pub proof fn law_queries_are_drawn_in_the_window(s: StreamView, n: nat, seed: u64)
    ensures
        queries_of(s, n, seed) is Ok <==> window(s) is Some && frames(s, s.dynamics.len()).len()
            >= 2,
        queries_of(s, n, seed) is Ok ==> queries_of(s, n, seed)->Ok_0.len() == n && forall|i: int|
            0 <= i < n ==> query_ok(
                frames(s, s.dynamics.len()),
                (window(s)->0).0,
                (window(s)->0).1,
                #[trigger] queries_of(s, n, seed)->Ok_0[i],
            ),
{
    let names = frames(s, s.dynamics.len());
    if queries_of(s, n, seed) is Ok {
        let (lo, hi) = window(s)->0;
        law_frames_are_the_ends_in_order(s, s.dynamics.len());
        lemma_draws_ok(names, lo, hi, n, seed ^ SEED_SALT, seq![]);
    }
}

impl QuerySet {
    /// Draws `n` queries, reproducible from the seed. A drawn pair of one frame with itself
    /// is passed over.
    ///
    /// # Errors
    ///
    /// If there is no window in which every dynamic edge has data, or there are fewer than
    /// two frames.
    pub fn draw(stream: &TfStream, n: usize, seed: u64) -> (r: Result<QuerySet, DrawError>)
        requires
            window(stream@) matches Some((lo, hi)) ==> hi - lo <= i64::MAX,
        ensures
            match r {
                Ok(q) => queries_of(stream@, n as nat, seed) == Ok::<
                    Seq<(Seq<char>, Seq<char>, i64)>,
                    DrawError,
                >(query_views(q.queries@)),
                Err(e) => queries_of(stream@, n as nat, seed) == Err::<
                    Seq<(Seq<char>, Seq<char>, i64)>,
                    DrawError,
                >(e),
            },
    {
        let (lo, hi) = match stream.common_window() {
            None => return Err(DrawError::NoWindow),
            Some(w) => w,
        };
        let names = stream.frame_names();
        if names.len() < 2 {
            return Err(DrawError::FewFrames);
        }
        let ghost all = texts(names@);
        let mut rng = SplitMix64 { state: seed ^ SEED_SALT };
        let mut queries: Vec<(String, String, i64)> = Vec::new();
        let span: u64 = (hi - lo) as u64;
        let ghost want = draws(all, lo, hi, n as nat, rng.state, seq![]);
        assert(query_views(queries@) =~= seq![]);
        while queries.len() < n
            invariant
                lo < hi,
                hi - lo <= i64::MAX,
                span == hi - lo,
                all == texts(names@),
                names@.len() >= 2,
                queries@.len() <= n,
                want == draws(all, lo, hi, n as nat, rng.state, query_views(queries@)),
            decreases n - queries@.len(), alike(rng.state, all.len() as int),
        {
            let ghost before = query_views(queries@);
            let ghost state = rng.state;
            let a = rng.below(names.len());
            let b = rng.below(names.len());
            if a != b {
                let x: u64 = rng.next_u64() % span;
                let stamp: i64 = lo + x as i64;
                queries.push((names[a].clone(), names[b].clone(), stamp));
                assert(query_views(queries@) =~= before.push(
                    (all[a as int], all[b as int], stamp),
                ));
            } else {
                proof {
                    lemma_alike(state, all.len() as int);
                }
            }
        }
        Ok(QuerySet { queries })
    }
}

/// How many queries were declined.
pub open spec fn nones(v: Seq<Option<Pose>>) -> nat
    decreases v.len(),
{
    if v.len() == 0 {
        0
    } else {
        nones(v.drop_last()) + if v.last() is None {
            1nat
        } else {
            0nat
        }
    }
}

/// How many queries were declined, so that agreement can be told from nothing having been
/// compared.
pub fn declined(poses: &Vec<Option<Pose>>) -> (r: usize)
    ensures
        r == nones(poses@),
{
    let mut n: usize = 0;
    let mut i: usize = 0;
    assert(poses@.take(0) =~= seq![]);
    while i < poses.len()
        invariant
            i <= poses.len(),
            n <= i,
            n == nones(poses@.take(i as int)),
        decreases poses.len() - i,
    {
        assert(poses@.take(i + 1).drop_last() =~= poses@.take(i as int));
        if poses[i].is_none() {
            n = n + 1;
        }
        i = i + 1;
    }
    assert(poses@.take(i as int) =~= poses@);
    n
}

proof fn lemma_first_stamp_is_least(samples: Seq<Sample>, edge: int, i: int)
    requires
        0 <= i < samples.len(),
        samples[i].edge == edge,
    ensures
        first_stamp(samples, edge) <= samples[i].stamp_ns <= last_stamp(samples, edge),
    decreases samples.len(),
{
    if i < samples.len() - 1 {
        assert(samples.drop_last()[i] == samples[i]);
        lemma_first_stamp_is_least(samples.drop_last(), edge, i);
    }
}

proof fn lemma_bounds_of_all(samples: Seq<Sample>, n: nat, a: i64, b: i64)
    requires
        n > 0,
        forall|e: int|
            0 <= e < n ==> #[trigger] first_stamp(samples, e) <= a && last_stamp(samples, e) >= b,
    ensures
        latest_first(samples, n) <= a,
        earliest_last(samples, n) >= b,
    decreases n,
{
    if n > 1 {
        lemma_bounds_of_all(samples, (n - 1) as nat, a, b);
        assert(first_stamp(samples, n - 1) <= a);
    } else {
        assert(first_stamp(samples, 0) <= a);
    }
}

/// The window leaves out no stamp at which every dynamic edge has data: wherever each of them
/// has a sample at or before one stamp and one at or after a later stamp, both stamps are in
/// it.
pub proof fn law_window_is_the_widest(s: StreamView, a: i64, b: i64)
    requires
        s.dynamics.len() > 0,
        a < b,
        forall|e: int|
            #![trigger s.dynamics[e]]
            0 <= e < s.dynamics.len() ==> (exists|i: int|
                0 <= i < s.samples.len() && (#[trigger] s.samples[i]).edge == e
                    && s.samples[i].stamp_ns <= a) && (exists|i: int|
                0 <= i < s.samples.len() && (#[trigger] s.samples[i]).edge == e
                    && s.samples[i].stamp_ns >= b),
    ensures
        window(s) matches Some((lo, hi)) && lo <= a && b <= hi,
{
    let n = s.dynamics.len();
    assert forall|e: int| 0 <= e < n implies #[trigger] first_stamp(s.samples, e) <= a
        && last_stamp(s.samples, e) >= b by {
        let d = s.dynamics[e];
        let i = choose|i: int|
            0 <= i < s.samples.len() && (#[trigger] s.samples[i]).edge == e
                && s.samples[i].stamp_ns <= a;
        let j = choose|j: int|
            0 <= j < s.samples.len() && (#[trigger] s.samples[j]).edge == e
                && s.samples[j].stamp_ns >= b;
        lemma_first_stamp_is_least(s.samples, e, i);
        lemma_first_stamp_is_least(s.samples, e, j);
    }
    lemma_bounds_of_all(s.samples, n, a, b);
}

/// A recording without dynamic edges has no window, and one that has a window has a positive
/// width.
pub proof fn law_window_has_a_width(s: StreamView)
    ensures
        s.dynamics.len() == 0 ==> window(s) is None,
        window(s) matches Some((lo, hi)) ==> lo < hi,
{
}

/// The samples of an edge are those that name it, and its ring has room for all of them and
/// one more.
pub proof fn law_an_edge_counts_its_samples(samples: Seq<Sample>, edge: int)
    ensures
        count(samples, edge) == samples.filter(|x: Sample| x.edge == edge).len(),
        samples.len() < u32::MAX ==> slots_for(count(samples, edge)) == count(samples, edge) + 1,
    decreases samples.len(),
{
    reveal(Seq::filter);
    if samples.len() > 0 {
        law_an_edge_counts_its_samples(samples.drop_last(), edge);
    }
}

/// The queries that were declined are those without a pose.
pub proof fn law_the_declined_have_no_pose(v: Seq<Option<Pose>>)
    ensures
        nones(v) == v.filter(|x: Option<Pose>| x is None).len(),
    decreases v.len(),
{
    reveal(Seq::filter);
    if v.len() > 0 {
        law_the_declined_have_no_pose(v.drop_last());
    }
}

/// Of two draws of a query the first is its target and the second its source.
pub proof fn law_target_is_drawn_first(
    names: Seq<Seq<char>>,
    lo: i64,
    hi: i64,
    n: nat,
    state: u64,
    drawn: Seq<(Seq<char>, Seq<char>, i64)>,
)
    requires
        names.len() >= 2,
        lo < hi,
    ensures
        drawn.len() >= n ==> draws(names, lo, hi, n, state, drawn) == drawn,
        drawn.len() < n ==> {
            let s = stepped(stepped(state));
            let a = mixed(stepped(state)) as int % names.len() as int;
            let b = mixed(s) as int % names.len() as int;
            &&& a == b ==> draws(names, lo, hi, n, state, drawn) == draws(
                names,
                lo,
                hi,
                n,
                s,
                drawn,
            )
            &&& a != b ==> draws(names, lo, hi, n, state, drawn) == draws(
                names,
                lo,
                hi,
                n,
                stepped(s),
                drawn.push(
                    (names[a], names[b], (lo + mixed(stepped(s)) as int % (hi - lo)) as i64),
                ),
            )
        },
{
}

/// A recording spans from its first stamp to its last.
pub proof fn law_a_recording_spans_its_stamps(samples: Seq<Sample>)
    ensures
        samples.len() == 0 ==> span_of(samples) == 0,
        samples.len() > 0 && i64::MIN <= samples.last().stamp_ns - samples[0].stamp_ns <= i64::MAX
            ==> span_of(samples) == samples.last().stamp_ns - samples[0].stamp_ns,
{
}

/// A ring has room for its samples and one more, as far as it can be counted.
pub proof fn law_a_ring_has_room(samples: nat)
    ensures
        samples < 0xffff_ffff ==> slots_for(samples) == samples + 1,
        samples >= 0xffff_ffff ==> slots_for(samples) == 0xffff_ffff,
{
}

} // verus!
