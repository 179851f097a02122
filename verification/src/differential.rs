//! The differential harness: the same tree and the same samples through two independent
//! lookups, compared on many random queries.

use vstd::prelude::*;

use crate::fixture::NOW_NS;
use crate::number::{self, at_most, less, Number};
use crate::rng::{mixed, stepped, SplitMix64};
use crate::text::{decimal, digits, signed_decimal, signed_digits};

verus! {

/// The agreement that both references are held to: 1e-12, as a bit pattern.
pub const TOLERANCE: u64 = 0x3d71_9799_812d_ea11;

/// Which reference is compared with.
#[derive(Clone, Copy, Debug, PartialEq, Eq, Structural)]
pub enum Reference {
    /// The independent lookup of this module.
    NaiveRust,
    /// `tf2::BufferCore`.
    Tf2,
}

/// The query with the worst disagreement.
#[derive(Clone, Copy, Debug)]
pub struct WorstQuery {
    /// Target frame.
    pub target: &'static str,
    /// Source frame.
    pub source: &'static str,
    /// The stamp, in nanoseconds.
    pub stamp_ns: i64,
}

/// The outcome of a differential run.
#[derive(Debug, Clone)]
pub struct DiffReport {
    /// The reference.
    pub reference: Reference,
    /// How many queries were drawn.
    pub queries: usize,
    /// How many were scored: a query of a frame against itself is skipped, and so is one
    /// that the reference declines.
    pub compared: usize,
    /// The worst disagreement.
    pub max_error: Number,
    /// The agreement that the run was held to.
    pub tolerance: Number,
    /// The query that was worst.
    pub worst_query: Option<WorstQuery>,
}

impl Reference {
    pub open spec fn name(self) -> Seq<char> {
        match self {
            Reference::NaiveRust => "NaiveRust"@,
            Reference::Tf2 => "Tf2"@,
        }
    }
}

/// Whether a run stayed within the tolerance. One that scored nothing did not: it would
/// otherwise look like perfect agreement.
pub open spec fn passes(compared: usize, max_error: u64, tolerance: u64) -> bool {
    compared > 0 && at_most(max_error, tolerance)
}

pub open spec fn worst_text(w: Option<WorstQuery>) -> Seq<char> {
    match w {
        Some(q) => " worst: "@ + q.target@ + "<-"@ + q.source@ + " @ "@ + signed_digits(
            q.stamp_ns as int,
        ) + " ns"@,
        None => seq![],
    }
}

impl DiffReport {
    /// Whether the run stayed within its tolerance.
    #[must_use]
    pub fn passed(&self) -> (r: bool)
        ensures
            r == passes(self.compared, self.max_error.bits, self.tolerance.bits),
    {
        self.compared > 0 && number::le(self.max_error.bits, self.tolerance.bits)
    }

    /// The run as one line. `max_error` and `tolerance` are the two figures in scientific
    /// notation.
    #[must_use]
    pub fn line(&self, max_error: &str, tolerance: &str) -> (r: String)
        ensures
            r@ == self.reference.name() + ": max_error="@ + max_error@ + " tol="@ + tolerance@
                + " ("@ + digits(self.compared as nat) + "/"@ + digits(self.queries as nat)
                + " queries scored)"@ + worst_text(self.worst_query),
    {
        let mut s = match self.reference {
            Reference::NaiveRust => "NaiveRust".to_owned(),
            Reference::Tf2 => "Tf2".to_owned(),
        };
        s.append(": max_error=");
        s.append(max_error);
        s.append(" tol=");
        s.append(tolerance);
        s.append(" (");
        s.append(decimal(self.compared as u64).as_str());
        s.append("/");
        s.append(decimal(self.queries as u64).as_str());
        s.append(" queries scored)");
        let ghost before = s@;
        match self.worst_query {
            Some(q) => {
                let mut t = " worst: ".to_owned();
                t.append(q.target);
                t.append("<-");
                t.append(q.source);
                t.append(" @ ");
                t.append(signed_decimal(q.stamp_ns).as_str());
                t.append(" ns");
                s.append(t.as_str());
            },
            None => {
                assert(before + Seq::<char>::empty() =~= before);
            },
        }
        s
    }
}

// ---------------------------------------------------------------------------
// The queries
// ---------------------------------------------------------------------------

/// One query: the indices of its target and source frames, and its stamp.
#[derive(Clone, Copy, Debug)]
pub struct Query {
    pub target: usize,
    pub source: usize,
    pub stamp_ns: i64,
}

/// The first stamp of the window from which queries are drawn: it lies inside every
/// published edge's history.
pub const LOW_NS: i64 = 9_800_000_000;

/// The state of the generator, and the queries so far.
pub struct Drawn {
    pub state: u64,
    pub queries: Seq<Query>,
}

/// The queries after `n` draws among `frames` frames.
pub open spec fn drawn(seed: u64, frames: nat, n: nat) -> Drawn
    decreases n,
{
    if n == 0 {
        Drawn { state: seed ^ 0xD1B5_4A32_D192_ED03, queries: seq![] }
    } else {
        let d = drawn(seed, frames, (n - 1) as nat);
        let s1 = stepped(d.state);
        let s2 = stepped(s1);
        let s3 = stepped(s2);
        let target = (mixed(s1) as int % frames as int) as usize;
        let source = (mixed(s2) as int % frames as int) as usize;
        if target == source {
            Drawn { state: s2, queries: d.queries }
        } else {
            Drawn {
                state: s3,
                queries: d.queries.push(
                    Query {
                        target,
                        source,
                        stamp_ns: (LOW_NS + mixed(s3) as int % (NOW_NS - LOW_NS)) as i64,
                    },
                ),
            }
        }
    }
}

/// Every query that is drawn is between two different frames, at a stamp inside the
/// window.
pub proof fn law_queries_are_in_the_window(seed: u64, frames: nat, n: nat)
    requires
        0 < frames <= usize::MAX,
    ensures
        drawn(seed, frames, n).queries.len() <= n,
        forall|i: int|
            0 <= i < drawn(seed, frames, n).queries.len() ==> {
                let q = #[trigger] drawn(seed, frames, n).queries[i];
                q.target < frames && q.source < frames && q.target != q.source && LOW_NS
                    <= q.stamp_ns < NOW_NS
            },
    decreases n,
{
    if n > 0 {
        law_queries_are_in_the_window(seed, frames, (n - 1) as nat);
        let d = drawn(seed, frames, (n - 1) as nat);
        let e = drawn(seed, frames, n);
        assert forall|i: int| 0 <= i < e.queries.len() implies ({
            let q = #[trigger] e.queries[i];
            q.target < frames && q.source < frames && q.target != q.source && LOW_NS <= q.stamp_ns
                < NOW_NS
        }) by {
            if i < d.queries.len() {
                assert(e.queries[i] == d.queries[i]);
            }
        }
    }
}

/// Draws `queries` times among `frames` frames. A frame against itself is skipped.
pub fn draw(seed: u64, frames: usize, queries: usize) -> (r: Vec<Query>)
    requires
        frames > 0,
    ensures
        r@ == drawn(seed, frames as nat, queries as nat).queries,
{
    let mut rng = SplitMix64 { state: seed ^ 0xD1B5_4A32_D192_ED03 };
    let mut out: Vec<Query> = Vec::new();
    let mut i: usize = 0;
    while i < queries
        invariant
            frames > 0,
            i <= queries,
            drawn(seed, frames as nat, i as nat) == (Drawn { state: rng.state, queries: out@ }),
        decreases queries - i,
    {
        let target = rng.below(frames);
        let source = rng.below(frames);
        if target != source {
            let offset: u64 = rng.next_u64() % 100_000_000;
            out.push(Query { target, source, stamp_ns: LOW_NS + offset as i64 });
        }
        i = i + 1;
    }
    out
}

// ---------------------------------------------------------------------------
// The score
// ---------------------------------------------------------------------------

/// What has been scored so far.
pub struct Score {
    pub compared: usize,
    pub max_error: Number,
    pub worst: Option<Query>,
}

impl Score {
    #[must_use]
    pub fn new() -> (r: Score)
        ensures
            r.compared == 0,
            r.max_error@ == number::zero(),
            r.worst is None,
    {
        Score { compared: 0, max_error: Number::zero(), worst: None }
    }

    /// Scores one query: the worst disagreement stands, and of two that are equally bad
    /// the earlier.
    pub fn add(&mut self, query: Query, error: Number)
        requires
            old(self).compared < usize::MAX,
        ensures
            final(self).compared == old(self).compared + 1,
            less(old(self).max_error.bits, error.bits) ==> final(self).max_error@ == error@
                && final(self).worst == Some(query),
            !less(old(self).max_error.bits, error.bits) ==> final(self).max_error@ == old(
                self,
            ).max_error@ && final(self).worst == old(self).worst,
    {
        self.compared = self.compared + 1;
        if number::lt(self.max_error.bits, error.bits) {
            self.max_error = error;
            self.worst = Some(query);
        }
    }
}

// ---------------------------------------------------------------------------
// The reference model's tree
// ---------------------------------------------------------------------------

/// Every parent is a frame.
pub open spec fn in_range(parents: Seq<Option<usize>>) -> bool {
    forall|i: int|
        0 <= i < parents.len() ==> ((#[trigger] parents[i]) matches Some(p) ==> p < parents.len())
}

/// The depths fit the parents: a root has depth 0, and every other frame is one deeper
/// than its parent.
pub open spec fn fits(parents: Seq<Option<usize>>, depths: Seq<u32>) -> bool {
    &&& parents.len() == depths.len()
    &&& in_range(parents)
    &&& forall|i: int|
        0 <= i < parents.len() ==> match #[trigger] parents[i] {
            Some(p) => depths[i] == depths[p as int] + 1,
            None => depths[i] == 0,
        }
}

/// The frame that is `up` edges above a frame.
pub open spec fn above(parents: Seq<Option<usize>>, f: int, up: nat) -> int
    decreases up,
{
    if up == 0 {
        f
    } else {
        match parents[f] {
            Some(p) => above(parents, p as int, (up - 1) as nat),
            None => f,
        }
    }
}

proof fn lemma_above(parents: Seq<Option<usize>>, depths: Seq<u32>, f: int, up: nat)
    requires
        fits(parents, depths),
        0 <= f < parents.len(),
        up <= depths[f],
    ensures
        0 <= above(parents, f, up) < parents.len(),
        depths[above(parents, f, up)] == depths[f] - up,
    decreases up,
{
    if up > 0 {
        match parents[f] {
            Some(p) => lemma_above(parents, depths, p as int, (up - 1) as nat),
            None => {},
        }
    }
}

proof fn lemma_above_step(parents: Seq<Option<usize>>, depths: Seq<u32>, f: int, up: nat)
    requires
        fits(parents, depths),
        0 <= f < parents.len(),
        up < depths[f],
    ensures
        parents[above(parents, f, up)] == Some(above(parents, f, up + 1) as usize),
    decreases up,
{
    lemma_above(parents, depths, f, up);
    match parents[f] {
        Some(p) => {
            lemma_above(parents, depths, p as int, 0);
            if up > 0 {
                lemma_above_step(parents, depths, p as int, (up - 1) as nat);
                assert(above(parents, f, up) == above(parents, p as int, (up - 1) as nat));
                assert(above(parents, f, up + 1) == above(parents, p as int, up));
            } else {
                assert(above(parents, f, 1) == above(parents, p as int, 0));
            }
        },
        None => {},
    }
}

/// The first `n` frames of the way from a frame to its root, the frame first.
pub open spec fn way_up(parents: Seq<Option<usize>>, f: int, n: nat) -> Seq<usize> {
    Seq::new(n, |i: int| above(parents, f, i as nat) as usize)
}

/// The edges that a lookup composes: those on the way up from the target, inverted and in
/// that order, then those on the way up from the source, in reverse.
pub struct Route {
    pub from_target: Vec<usize>,
    pub from_source: Vec<usize>,
}

/// Where the two ways meet: `a` edges above the target and `b` above the source stands the
/// same frame, and no lower frame is above both.
pub open spec fn meet(
    parents: Seq<Option<usize>>,
    depths: Seq<u32>,
    target: int,
    source: int,
    a: nat,
    b: nat,
) -> bool {
    &&& a <= depths[target]
    &&& b <= depths[source]
    &&& above(parents, target, a) == above(parents, source, b)
    &&& forall|i: nat, j: nat|
        i < a && j <= depths[source] ==> #[trigger] above(parents, target, i) != #[trigger] above(
            parents,
            source,
            j,
        )
}

/// How deep every frame stands, or nothing where some chain of parents does not end.
pub fn depths_of(parents: &Vec<Option<usize>>) -> (r: Option<Vec<u32>>)
    requires
        in_range(parents@),
        parents@.len() <= u32::MAX,
    ensures
        match r {
            Some(d) => fits(parents@, d@),
            None => forall|d: Seq<u32>| !#[trigger] fits(parents@, d),
        },
{
    let n: usize = parents.len();
    let mut out: Vec<u32> = Vec::new();
    let mut i: usize = 0;
    while i < n
        invariant
            n == parents@.len(),
            n <= u32::MAX,
            in_range(parents@),
            i <= n,
            out@.len() == i,
            forall|k: int| 0 <= k < i ==> ends_at(parents@, k, #[trigger] out@[k] as nat),
        decreases n - i,
    {
        match depth_of(parents, i) {
            None => {
                proof {
                    assert forall|d: Seq<u32>| !#[trigger] fits(parents@, d) by {
                        if fits(parents@, d) {
                            lemma_chain_ends(parents@, d, i as int);
                        }
                    }
                }
                return None;
            },
            Some(d) => out.push(d),
        }
        i = i + 1;
    }
    proof {
        lemma_ends_fit(parents@, out@);
    }
    Some(out)
}

/// A root stands exactly `d` edges above a frame.
pub open spec fn ends_at(parents: Seq<Option<usize>>, f: int, d: nat) -> bool
    decreases d,
{
    match parents[f] {
        None => d == 0,
        Some(p) => d > 0 && ends_at(parents, p as int, (d - 1) as nat),
    }
}

proof fn lemma_ends_unique(parents: Seq<Option<usize>>, f: int, a: nat, b: nat)
    requires
        ends_at(parents, f, a),
        ends_at(parents, f, b),
    ensures
        a == b,
    decreases a,
{
    match parents[f] {
        Some(p) => lemma_ends_unique(parents, p as int, (a - 1) as nat, (b - 1) as nat),
        None => {},
    }
}

proof fn lemma_ends_fit(parents: Seq<Option<usize>>, depths: Seq<u32>)
    requires
        in_range(parents),
        depths.len() == parents.len(),
        forall|k: int| 0 <= k < depths.len() ==> ends_at(parents, k, #[trigger] depths[k] as nat),
    ensures
        fits(parents, depths),
{
    assert forall|i: int| 0 <= i < parents.len() implies match #[trigger] parents[i] {
        Some(p) => depths[i] == depths[p as int] + 1,
        None => depths[i] == 0,
    } by {
        assert(ends_at(parents, i, depths[i] as nat));
        match parents[i] {
            Some(p) => {
                assert(ends_at(parents, p as int, depths[p as int] as nat));
                lemma_ends_unique(
                    parents,
                    p as int,
                    (depths[i] - 1) as nat,
                    depths[p as int] as nat,
                );
            },
            None => {},
        }
    }
}

/// With depths that fit, a chain ends after as many edges as the depth says, and a depth
/// is below the number of frames.
proof fn lemma_chain_ends(parents: Seq<Option<usize>>, depths: Seq<u32>, f: int)
    requires
        fits(parents, depths),
        0 <= f < parents.len(),
    ensures
        ends_at(parents, f, depths[f] as nat),
        depths[f] < parents.len(),
{
    lemma_fits_ends(parents, depths, f);
    // One frame of every depth up to the frame's own stands on its chain.
    let d = depths[f] as nat;
    let on_chain = Seq::new((d + 1) as nat, |k: int| above(parents, f, k as nat));
    assert forall|a: int, b: int| 0 <= a < on_chain.len() && 0 <= b < on_chain.len() && a
        != b implies on_chain[a] != on_chain[b] by {
        lemma_above(parents, depths, f, a as nat);
        lemma_above(parents, depths, f, b as nat);
    }
    assert(on_chain.no_duplicates());
    on_chain.unique_seq_to_set();
    let all = vstd::set_lib::set_int_range(0, parents.len() as int);
    vstd::set_lib::lemma_int_range(0, parents.len() as int);
    assert(on_chain.to_set().subset_of(all)) by {
        assert forall|x: int| #[trigger] on_chain.to_set().contains(x) implies all.contains(x) by {
            let k = choose|k: int| 0 <= k < on_chain.len() && on_chain[k] == x;
            lemma_above(parents, depths, f, k as nat);
        }
    }
    vstd::set_lib::lemma_len_subset(on_chain.to_set(), all);
}

proof fn lemma_fits_ends(parents: Seq<Option<usize>>, depths: Seq<u32>, f: int)
    requires
        fits(parents, depths),
        0 <= f < parents.len(),
    ensures
        ends_at(parents, f, depths[f] as nat),
    decreases depths[f],
{
    match parents[f] {
        Some(p) => lemma_fits_ends(parents, depths, p as int),
        None => {},
    }
}

/// How many edges stand between a frame and its root, or nothing where the chain of
/// parents is longer than there are frames, so that it does not end.
fn depth_of(parents: &Vec<Option<usize>>, f: usize) -> (r: Option<u32>)
    requires
        in_range(parents@),
        parents@.len() <= u32::MAX,
        f < parents@.len(),
    ensures
        match r {
            Some(d) => ends_at(parents@, f as int, d as nat),
            None => forall|d: nat| d < parents@.len() ==> !#[trigger] ends_at(parents@, f as int, d),
        },
{
    let n: usize = parents.len();
    let mut cur: usize = f;
    let mut d: u32 = 0;
    while (d as usize) < n
        invariant
            n == parents@.len(),
            n <= u32::MAX,
            in_range(parents@),
            cur < n,
            d <= n,
            forall|x: nat| #[trigger]
                ends_at(parents@, f as int, x) ==> x >= d && ends_at(
                    parents@,
                    cur as int,
                    (x - d) as nat,
                ),
            forall|e: nat| #[trigger]
                ends_at(parents@, cur as int, e) ==> ends_at(parents@, f as int, (d + e) as nat),
        decreases n - d,
    {
        match parents[cur] {
            None => {
                assert(ends_at(parents@, cur as int, 0));
                return Some(d);
            },
            Some(p) => {
                assert(parents@[cur as int] == Some(p));
                proof {
                    assert forall|x: nat| #[trigger] ends_at(parents@, f as int, x) implies x >= d
                        + 1 && ends_at(parents@, p as int, (x - (d + 1)) as nat) by {
                        assert(ends_at(parents@, cur as int, (x - d) as nat));
                    }
                    assert forall|e: nat| #[trigger] ends_at(parents@, p as int, e) implies ends_at(
                        parents@,
                        f as int,
                        (d + 1 + e) as nat,
                    ) by {
                        assert(ends_at(parents@, cur as int, e + 1));
                    }
                }
                cur = p;
                d = d + 1;
            },
        }
    }
    None
}

/// The way from one frame to another: up to where the two ways meet, and down again.
/// Nothing where they do not meet, because the frames hang off different roots.
pub fn route(
    parents: &Vec<Option<usize>>,
    depths: &Vec<u32>,
    target: usize,
    source: usize,
) -> (r: Option<Route>)
    requires
        fits(parents@, depths@),
        target < parents@.len(),
        source < parents@.len(),
    ensures
        match r {
            Some(w) => {
                let (a, b) = (w.from_target@.len(), w.from_source@.len());
                meet(parents@, depths@, target as int, source as int, a, b) && w.from_target@
                    == way_up(parents@, target as int, a) && w.from_source@ == way_up(
                    parents@,
                    source as int,
                    b,
                )
            },
            None => forall|i: nat, j: nat|
                i <= depths@[target as int] && j <= depths@[source as int] ==> #[trigger] above(
                    parents@,
                    target as int,
                    i,
                ) != #[trigger] above(parents@, source as int, j),
        },
{
    let ghost ps = parents@;
    let ghost ds = depths@;
    let ghost (t, s) = (target as int, source as int);
    let mut a: usize = target;
    let mut b: usize = source;
    let mut up_t: Vec<usize> = Vec::new();
    let mut up_s: Vec<usize> = Vec::new();
    assert(up_t@ =~= way_up(ps, t, 0));
    assert(up_s@ =~= way_up(ps, s, 0));
    loop
        invariant
            ps == parents@,
            ps.len() == parents.len(),
            ds == depths@,
            fits(ps, ds),
            t == target,
            s == source,
            0 <= t < ps.len(),
            0 <= s < ps.len(),
            a < ps.len(),
            b < ps.len(),
            up_t@.len() <= ds[t],
            up_s@.len() <= ds[s],
            up_t@ == way_up(ps, t, up_t@.len()),
            up_s@ == way_up(ps, s, up_s@.len()),
            a == above(ps, t, up_t@.len()),
            b == above(ps, s, up_s@.len()),
            // Nothing that was passed is above both.
            forall|i: nat, j: nat|
                i < up_t@.len() && j <= ds[s] ==> #[trigger] above(ps, t, i) != #[trigger] above(
                    ps,
                    s,
                    j,
                ),
            forall|i: nat, j: nat|
                i <= ds[t] && j < up_s@.len() ==> #[trigger] above(ps, t, i) != #[trigger] above(
                    ps,
                    s,
                    j,
                ),
        decreases ds[a as int] + ds[b as int],
    {
        proof {
            lemma_above(ps, ds, t, up_t@.len());
            lemma_above(ps, ds, s, up_s@.len());
        }
        if a == b {
            return Some(Route { from_target: up_t, from_source: up_s });
        }
        let ghost (n, m) = (up_t@.len(), up_s@.len());
        if depths[a] >= depths[b] {
            match parents[a] {
                None => {
                    proof {
                        lemma_apart(ps, ds, t, s, n, m);
                    }
                    return None;
                },
                Some(p) => {
                    proof {
                        lemma_above_step(ps, ds, t, n);
                        lemma_above(ps, ds, t, n + 1);
                        lemma_passed(ps, ds, t, s, n, m);
                    }
                    up_t.push(a);
                    a = p;
                    assert(up_t@ =~= way_up(ps, t, n + 1));
                },
            }
        } else {
            match parents[b] {
                None => {
                    assert(false);
                    return None;
                },
                Some(p) => {
                    proof {
                        lemma_above_step(ps, ds, s, m);
                        lemma_above(ps, ds, s, m + 1);
                        lemma_passed(ps, ds, s, t, m, n);
                    }
                    up_s.push(b);
                    b = p;
                    assert(up_s@ =~= way_up(ps, s, m + 1));
                },
            }
        }
    }
}

/// A frame that is at least as deep as where the other way has got to, and not that frame,
/// is not above the other.
proof fn lemma_passed(
    ps: Seq<Option<usize>>,
    ds: Seq<u32>,
    t: int,
    s: int,
    n: nat,
    m: nat,
)
    requires
        fits(ps, ds),
        0 <= t < ps.len(),
        0 <= s < ps.len(),
        n <= ds[t],
        m <= ds[s],
        ds[above(ps, t, n)] >= ds[above(ps, s, m)],
        above(ps, t, n) != above(ps, s, m),
        forall|i: nat, j: nat|
            i <= ds[t] && j < m ==> #[trigger] above(ps, t, i) != #[trigger] above(ps, s, j),
    ensures
        forall|j: nat| j <= ds[s] ==> above(ps, t, n) != #[trigger] above(ps, s, j),
{
    assert forall|j: nat| j <= ds[s] implies above(ps, t, n) != #[trigger] above(ps, s, j) by {
        lemma_above(ps, ds, t, n);
        lemma_above(ps, ds, s, m);
        lemma_above(ps, ds, s, j);
    }
}

/// Two different roots: no frame is above both.
proof fn lemma_apart(ps: Seq<Option<usize>>, ds: Seq<u32>, t: int, s: int, n: nat, m: nat)
    requires
        fits(ps, ds),
        0 <= t < ps.len(),
        0 <= s < ps.len(),
        n <= ds[t],
        m <= ds[s],
        ps[above(ps, t, n)] is None,
        ds[above(ps, t, n)] >= ds[above(ps, s, m)],
        above(ps, t, n) != above(ps, s, m),
        forall|i: nat, j: nat|
            i < n && j <= ds[s] ==> #[trigger] above(ps, t, i) != #[trigger] above(ps, s, j),
        forall|i: nat, j: nat|
            i <= ds[t] && j < m ==> #[trigger] above(ps, t, i) != #[trigger] above(ps, s, j),
    ensures
        forall|i: nat, j: nat|
            i <= ds[t] && j <= ds[s] ==> #[trigger] above(ps, t, i) != #[trigger] above(ps, s, j),
{
    lemma_above(ps, ds, t, n);
    lemma_passed(ps, ds, t, s, n, m);
    assert(n == ds[t]);
}

// ---------------------------------------------------------------------------
// The reference model's samples
// ---------------------------------------------------------------------------

/// Which samples a pose at a stamp is taken from.
#[derive(Clone, Copy, Debug, PartialEq, Eq, Structural)]
pub enum Bracket {
    /// There is no sample.
    Empty,
    /// One sample as it is.
    At(usize),
    /// A sample and the one after it, with the stamp strictly between theirs.
    Between(usize),
}

/// The first sample from `i` on whose successor, if it has one, is past the stamp.
pub open spec fn last_not_past(stamps: Seq<i64>, t: i64, i: nat) -> nat
    decreases stamps.len() - i,
{
    if i + 1 < stamps.len() && stamps[i as int + 1] <= t {
        last_not_past(stamps, t, i + 1)
    } else {
        i
    }
}

/// The samples that a pose at a stamp is taken from: an end, where the stamp is not
/// inside the history.
pub open spec fn bracket_of(stamps: Seq<i64>, t: i64) -> Bracket {
    if stamps.len() == 0 {
        Bracket::Empty
    } else if t <= stamps[0] {
        Bracket::At(0)
    } else if t >= stamps.last() {
        Bracket::At((stamps.len() - 1) as usize)
    } else {
        let i = last_not_past(stamps, t, 0);
        if stamps[i as int] == t {
            Bracket::At(i as usize)
        } else {
            Bracket::Between(i as usize)
        }
    }
}

proof fn lemma_last_not_past(stamps: Seq<i64>, t: i64, i: nat)
    requires
        i < stamps.len(),
        stamps[i as int] <= t < stamps.last(),
    ensures
        i <= last_not_past(stamps, t, i),
        last_not_past(stamps, t, i) + 1 < stamps.len(),
        stamps[last_not_past(stamps, t, i) as int] <= t < stamps[last_not_past(stamps, t, i) as int
            + 1],
    decreases stamps.len() - i,
{
    if i + 1 < stamps.len() && stamps[i as int + 1] <= t {
        lemma_last_not_past(stamps, t, i + 1);
    }
}

/// A stamp that lies between two samples lies strictly between their stamps, so there is
/// a fraction between 0 and 1 to interpolate at.
pub proof fn law_bracket_encloses(stamps: Seq<i64>, t: i64)
    requires
        stamps.len() <= usize::MAX,
    ensures
        bracket_of(stamps, t) matches Bracket::Between(i) ==> i + 1 < stamps.len()
            && stamps[i as int] < t < stamps[i + 1],
        bracket_of(stamps, t) matches Bracket::At(i) ==> i < stamps.len() && (stamps[i as int] == t
            || (i == 0 && t < stamps[0]) || (i == stamps.len() - 1 && t > stamps.last())),
        bracket_of(stamps, t) is Empty <==> stamps.len() == 0,
{
    if stamps.len() > 0 && stamps[0] < t < stamps.last() {
        lemma_last_not_past(stamps, t, 0);
    }
}

/// The samples that a pose at a stamp is taken from.
pub fn bracket(stamps: &Vec<i64>, t: i64) -> (r: Bracket)
    ensures
        r == bracket_of(stamps@, t),
{
    if stamps.len() == 0 {
        return Bracket::Empty;
    }
    if t <= stamps[0] {
        return Bracket::At(0);
    }
    let last: usize = stamps.len() - 1;
    if t >= stamps[last] {
        return Bracket::At(last);
    }
    let mut i: usize = 0;
    while i + 1 < stamps.len() && stamps[i + 1] <= t
        invariant
            i < stamps.len(),
            last_not_past(stamps@, t, i as nat) == last_not_past(stamps@, t, 0),
        decreases stamps@.len() - i,
    {
        i = i + 1;
    }
    if stamps[i] == t {
        Bracket::At(i)
    } else {
        Bracket::Between(i)
    }
}

/// Two engines agree where something was compared and the worst disagreement, a number, is
/// within the tolerance.
pub proof fn law_when_engines_agree(compared: usize, max_error: u64, tolerance: u64)
    ensures
        compared == 0 ==> !passes(compared, max_error, tolerance),
        number::not_a_number(max_error) ==> !passes(compared, max_error, tolerance),
        number::finite(max_error) && number::finite(tolerance) ==> (passes(
            compared,
            max_error,
            tolerance,
        ) <==> compared >= 1 && number::scaled(max_error) <= number::scaled(tolerance)),
{
    if number::finite(max_error) && number::finite(tolerance) {
        number::law_order_is_numeric(max_error, tolerance);
    }
}

/// Queries ask between nine and eight tenths and nine and nine tenths of a second into the
/// history; of two draws the first is the target and the second the source, and one of a frame
/// against itself is left out.
pub proof fn law_how_a_query_is_drawn(seed: u64, frames: nat, n: nat)
    requires
        0 < frames <= usize::MAX,
    ensures
        ({
            let d = drawn(seed, frames, n);
            let e = drawn(seed, frames, n + 1);
            let target = mixed(stepped(d.state)) as int % frames as int;
            let source = mixed(stepped(stepped(d.state))) as int % frames as int;
            &&& target == source ==> e.queries == d.queries
            &&& target != source ==> {
                &&& e.queries.len() == d.queries.len() + 1
                &&& e.queries.drop_last() == d.queries
                &&& e.queries.last().target == target
                &&& e.queries.last().source == source
                &&& 9_800_000_000 <= e.queries.last().stamp_ns < 9_900_000_000
            }
        }),
        drawn(seed, frames, 0).queries.len() == 0,
{
    law_queries_are_in_the_window(seed, frames, n + 1);
    let d = drawn(seed, frames, n);
    let e = drawn(seed, frames, n + 1);
    let target = mixed(stepped(d.state)) as int % frames as int;
    let source = mixed(stepped(stepped(d.state))) as int % frames as int;
    assert(0 <= target < frames && 0 <= source < frames) by (nonlinear_arith)
        requires
            frames > 0,
            target == mixed(stepped(d.state)) as int % frames as int,
            source == mixed(stepped(stepped(d.state))) as int % frames as int,
    ;
    if target != source {
        assert(e.queries.drop_last() =~= d.queries);
        assert(e.queries[e.queries.len() - 1] == e.queries.last());
    }
}

/// The two ways of a route meet where they first can: nothing that one of them passes is passed
/// by the other, or lies above it.
pub proof fn law_a_route_turns_where_it_first_can(
    parents: Seq<Option<usize>>,
    depths: Seq<u32>,
    target: int,
    source: int,
    a: nat,
    b: nat,
    i: nat,
    j: nat,
)
    requires
        fits(parents, depths),
        0 <= target < parents.len(),
        0 <= source < parents.len(),
        meet(parents, depths, target, source, a, b),
        i <= depths[target],
        j <= depths[source],
        i < a || j < b,
    ensures
        above(parents, target, i) != above(parents, source, j),
        above(parents, target, a) == above(parents, source, b),
{
    if above(parents, target, i) == above(parents, source, j) {
        lemma_above(parents, depths, target, i);
        lemma_above(parents, depths, source, j);
        lemma_above(parents, depths, target, a);
        lemma_above(parents, depths, source, b);
        assert(i < a);
    }
}

/// The way up goes from a frame to its parent, and on.
pub proof fn law_the_way_up(parents: Seq<Option<usize>>, f: int, n: nat)
    ensures
        above(parents, f, 0) == f,
        parents[f] matches Some(p) ==> above(parents, f, n + 1) == above(parents, p as int, n),
        way_up(parents, f, n).len() == n,
        n > 0 && 0 <= f <= usize::MAX ==> way_up(parents, f, n)[0] == f,
{
}

/// Inside a recording in order, a stamp is found at the last sample that is not past it, or
/// between that and the next.
pub proof fn law_a_stamp_is_found_in_order(stamps: Seq<i64>, t: i64)
    requires
        0 < stamps.len() <= usize::MAX,
        forall|i: int, j: int| 0 <= i <= j < stamps.len() ==> stamps[i] <= stamps[j],
        stamps[0] < t < stamps.last(),
    ensures
        exists|i: int|
            0 <= i < stamps.len() - 1 && stamps[i] <= t < #[trigger] stamps[i + 1] && bracket_of(
                stamps,
                t,
            ) == (if stamps[i] == t {
                Bracket::At(i as usize)
            } else {
                Bracket::Between(i as usize)
            }),
{
    lemma_last_not_past(stamps, t, 0);
    let i = last_not_past(stamps, t, 0) as int;
    assert(stamps[i] <= t < stamps[i + 1]);
}

/// The worst query is told as its target from its source, with its stamp.
pub proof fn law_the_worst_is_told(q: WorstQuery)
    ensures
        worst_text(Some(q)) == " worst: "@ + q.target@ + "<-"@ + q.source@ + " @ "@ + signed_digits(
            q.stamp_ns as int,
        ) + " ns"@,
        worst_text(None).len() == 0,
        Reference::NaiveRust.name() == "NaiveRust"@,
        Reference::Tf2.name() == "Tf2"@,
{
}

} // verus!
