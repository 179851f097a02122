//! The rules of the concurrent read-scaling comparison: what it sweeps, which edges its
//! writers may publish on, and what it reports of the times it took.

use vstd::prelude::*;

use crate::report::host::{after_colon, note_pair, parse_after_colon};
use crate::text::{
    self, begins, lines, parse_u64, pieces, read_u64, texts, trimmed,
};

verus! {

// ---------------------------------------------------------------------------
// Settings
// ---------------------------------------------------------------------------

/// The sweep where none is asked for.
pub const DEFAULT_THREADS: [usize; 4] = [1, 2, 4, 8];

/// A text as a count.
pub open spec fn read_usize(s: Seq<char>) -> Option<usize> {
    match read_u64(s) {
        Some(n) => if n <= usize::MAX {
            Some(n as usize)
        } else {
            None
        },
        None => None,
    }
}

/// A text as a count.
pub fn parse_usize(s: &str) -> (r: Option<usize>)
    ensures
        r == read_usize(s@),
{
    match parse_u64(s) {
        Some(n) => if n <= usize::MAX as u64 {
            Some(n as usize)
        } else {
            None
        },
        None => None,
    }
}

/// The positive counts among some texts.
pub open spec fn positive(v: Seq<Seq<char>>) -> Seq<usize>
    decreases v.len(),
{
    if v.len() == 0 {
        seq![]
    } else {
        let rest = positive(v.drop_last());
        match read_usize(trimmed(v.last())) {
            Some(n) => if n > 0 {
                rest.push(n)
            } else {
                rest
            },
            None => rest,
        }
    }
}

/// The thread counts that a setting asks for, or the default where it names none.
pub open spec fn threads_of(setting: Option<Seq<char>>) -> Seq<usize> {
    let asked = match setting {
        Some(s) => positive(pieces(s, ',')),
        None => seq![],
    };
    if asked.len() == 0 {
        DEFAULT_THREADS@
    } else {
        asked
    }
}

proof fn lemma_positive(v: Seq<Seq<char>>)
    ensures
        forall|i: int| 0 <= i < positive(v).len() ==> #[trigger] positive(v)[i] > 0,
    decreases v.len(),
{
    if v.len() > 0 {
        lemma_positive(v.drop_last());
        let rest = positive(v.drop_last());
        assert forall|i: int| 0 <= i < positive(v).len() implies #[trigger] positive(v)[i]
            > 0 by {
            if i < rest.len() {
                assert(positive(v)[i] == rest[i]);
            }
        }
    }
}

/// A sweep is never empty and never asks for no threads.
pub proof fn law_sweep_is_usable(setting: Option<Seq<char>>)
    ensures
        threads_of(setting).len() > 0,
        forall|i: int| 0 <= i < threads_of(setting).len() ==> #[trigger] threads_of(setting)[i] > 0,
{
    if let Some(s) = setting {
        lemma_positive(pieces(s, ','));
    }
}

/// The thread counts to sweep, from a comma-separated setting.
pub fn thread_counts(setting: &Option<String>) -> (r: Vec<usize>)
    ensures
        r@ == threads_of(crate::report::text_of(*setting)),
{
    let mut out: Vec<usize> = Vec::new();
    match setting {
        None => {},
        Some(s) => {
            let parts = text::split_on(s.as_str(), ',');
            let ghost all = texts(parts@);
            let mut i: usize = 0;
            assert(all.take(0) =~= seq![]);
            while i < parts.len()
                invariant
                    i <= parts@.len(),
                    all == texts(parts@),
                    out@ == positive(all.take(i as int)),
                decreases parts@.len() - i,
            {
                assert(all.take(i + 1).drop_last() =~= all.take(i as int));
                assert(all.take(i + 1).last() == parts@[i as int]@);
                let t = text::trim(parts[i].as_str());
                match parse_usize(t.as_str()) {
                    Some(n) => if n > 0 {
                        out.push(n);
                    },
                    None => {},
                }
                i = i + 1;
            }
            assert(all.take(i as int) =~= all);
        },
    }
    if out.len() == 0 {
        let all = DEFAULT_THREADS;
        out.push(all[0]);
        out.push(all[1]);
        out.push(all[2]);
        out.push(all[3]);
        assert(out@ =~= DEFAULT_THREADS@);
    }
    out
}

/// A count from a setting, or a default; at least one.
pub open spec fn count_of(setting: Option<Seq<char>>, default: usize) -> usize {
    let n = match setting {
        Some(s) => match read_usize(s) {
            Some(n) => n,
            None => default,
        },
        None => default,
    };
    if n == 0 {
        1
    } else {
        n
    }
}

/// A count from a setting, or a default; at least one.
pub fn env_usize(setting: &Option<String>, default: usize) -> (r: usize)
    ensures
        r == count_of(crate::report::text_of(*setting), default),
        r >= 1,
{
    let n: usize = match setting {
        Some(s) => match parse_usize(s.as_str()) {
            Some(n) => n,
            None => default,
        },
        None => default,
    };
    if n == 0 {
        1
    } else {
        n
    }
}

/// How many writers a setting asks for; none where it does not.
pub fn writer_count(setting: &Option<String>) -> (r: usize)
    ensures
        r == (match crate::report::text_of(*setting) {
            Some(s) => match read_usize(s) {
                Some(n) => n,
                None => 0,
            },
            None => 0,
        }),
{
    match setting {
        Some(s) => match parse_usize(s.as_str()) {
            Some(n) => n,
            None => 0,
        },
        None => 0,
    }
}

// ---------------------------------------------------------------------------
// The load
// ---------------------------------------------------------------------------

/// The `k`-th of `n` stamps that sweep a window.
pub open spec fn sweep_stamp(lo: i64, hi: i64, n: int, k: int) -> int {
    lo + (hi - lo) * k / n
}

proof fn lemma_sweep(lo: i64, hi: i64, n: int, k: int)
    requires
        lo < hi,
        0 <= k < n,
    ensures
        lo <= sweep_stamp(lo, hi, n, k) < hi,
        0 <= (hi - lo) * k <= (hi - lo) * n,
{
    let w = hi - lo;
    assert(0 <= w * k < w * n) by (nonlinear_arith)
        requires
            w > 0,
            0 <= k < n,
    ;
    vstd::arithmetic::div_mod::lemma_div_pos_is_pos(w * k, n);
    vstd::arithmetic::div_mod::lemma_fundamental_div_mod(w * k, n);
    let q = (w * k) / n;
    assert(q < w) by (nonlinear_arith)
        requires
            n * q <= w * k,
            w * k < w * n,
            n > 0,
    ;
}

/// The stamps of a sweep ascend, inside the window.
pub proof fn law_sweep_stays_in_the_window(lo: i64, hi: i64, n: int, j: int, k: int)
    requires
        lo < hi,
        0 <= j <= k < n,
    ensures
        lo <= sweep_stamp(lo, hi, n, j) <= sweep_stamp(lo, hi, n, k) < hi,
{
    lemma_sweep(lo, hi, n, j);
    lemma_sweep(lo, hi, n, k);
    let w = hi - lo;
    assert(w * j <= w * k) by (nonlinear_arith)
        requires
            w > 0,
            j <= k,
    ;
    vstd::arithmetic::div_mod::lemma_div_is_ordered(w * j, w * k, n);
}

/// `n` stamps that sweep a window evenly.
pub fn sweep(lo: i64, hi: i64, n: i64) -> (r: Vec<i64>)
    requires
        lo < hi,
        hi - lo <= i64::MAX,
        n > 0,
        (hi - lo) * n <= i64::MAX,
        n <= usize::MAX,
    ensures
        r@.len() == n,
        forall|k: int| 0 <= k < n ==> #[trigger] r@[k] == sweep_stamp(lo, hi, n as int, k),
{
    let mut out: Vec<i64> = Vec::new();
    let mut k: i64 = 0;
    while k < n
        invariant
            lo < hi,
            hi - lo <= i64::MAX,
            n > 0,
            (hi - lo) * n <= i64::MAX,
            0 <= k <= n,
            out@.len() == k,
            forall|j: int| 0 <= j < k ==> #[trigger] out@[j] == sweep_stamp(lo, hi, n as int, j),
        decreases n - k,
    {
        proof {
            lemma_sweep(lo, hi, n as int, k as int);
        }
        let w: i64 = hi - lo;
        let at: i64 = w * k / n;
        out.push(lo + at);
        k = k + 1;
    }
    out
}

/// How far apart the stamps of the writers are.
pub const WRITE_STEP_NS: i64 = 1_000_000;

/// The first stamp that a writer may publish: past every stamp that is queried.
pub fn first_write_stamp(stamps: &Vec<i64>) -> (r: i64)
    requires
        stamps@.len() > 0 ==> stamps@.last() <= i64::MAX - WRITE_STEP_NS,
    ensures
        r == (if stamps@.len() > 0 {
            stamps@.last() as int
        } else {
            0
        }) + WRITE_STEP_NS,
{
    if stamps.len() > 0 {
        stamps[stamps.len() - 1] + WRITE_STEP_NS
    } else {
        WRITE_STEP_NS
    }
}

/// Which of some edges are known and not on a path.
pub open spec fn off_path(edges: Seq<Option<u32>>, on_path: Seq<u32>) -> Seq<int>
    decreases edges.len(),
{
    if edges.len() == 0 {
        seq![]
    } else {
        let rest = off_path(edges.drop_last(), on_path);
        match edges.last() {
            Some(e) => if on_path.contains(e) {
                rest
            } else {
                rest.push(edges.len() - 1)
            },
            None => rest,
        }
    }
}

fn is_among(v: &Vec<u32>, x: u32) -> (r: bool)
    ensures
        r == v@.contains(x),
{
    let mut i: usize = 0;
    while i < v.len()
        invariant
            i <= v@.len(),
            forall|j: int| 0 <= j < i ==> v@[j] != x,
        decreases v@.len() - i,
    {
        if v[i] == x {
            assert(v@[i as int] == x);
            return true;
        }
        i = i + 1;
    }
    false
}

/// The dynamic edges that the writers may publish on, by their place: those that the query
/// path does not traverse, so that a write costs a reader of another edge nothing unless
/// the engine makes it. `edges` holds each edge's id where it has one; `on_path` the ids
/// that the path traverses.
pub fn writable_edges(edges: &Vec<Option<u32>>, on_path: &Vec<u32>) -> (r: Vec<usize>)
    ensures
        r@.map_values(|i: usize| i as int) == off_path(edges@, on_path@),
{
    let mut out: Vec<usize> = Vec::new();
    let mut i: usize = 0;
    assert(edges@.take(0) =~= seq![]);
    assert(out@.map_values(|i: usize| i as int) =~= seq![]);
    while i < edges.len()
        invariant
            i <= edges@.len(),
            out@.map_values(|i: usize| i as int) == off_path(edges@.take(i as int), on_path@),
        decreases edges@.len() - i,
    {
        assert(edges@.take(i + 1).drop_last() =~= edges@.take(i as int));
        let ghost before = out@.map_values(|i: usize| i as int);
        match edges[i] {
            Some(e) => if !is_among(on_path, e) {
                out.push(i);
                assert(out@.map_values(|i: usize| i as int) =~= before.push(i as int));
            },
            None => {},
        }
        i = i + 1;
    }
    assert(edges@.take(i as int) =~= edges@);
    out
}

/// No writer ever publishes on an edge that the query path traverses.
pub proof fn law_writers_stay_off_the_path(edges: Seq<Option<u32>>, on_path: Seq<u32>)
    ensures
        forall|k: int|
            0 <= k < off_path(edges, on_path).len() ==> {
                let i = #[trigger] off_path(edges, on_path)[k];
                0 <= i < edges.len() && edges[i] is Some && !on_path.contains(edges[i]->0)
            },
    decreases edges.len(),
{
    if edges.len() > 0 {
        let w = edges.drop_last();
        law_writers_stay_off_the_path(w, on_path);
        let all = off_path(edges, on_path);
        let rest = off_path(w, on_path);
        assert forall|k: int| 0 <= k < all.len() implies {
            let i = #[trigger] all[k];
            0 <= i < edges.len() && edges[i] is Some && !on_path.contains(edges[i]->0)
        } by {
            if k < rest.len() {
                assert(all[k] == rest[k]);
                assert(edges[rest[k]] == w[rest[k]]);
            }
        }
    }
}

// ---------------------------------------------------------------------------
// The engines
// ---------------------------------------------------------------------------

/// Which engine a worker drives.
#[derive(Debug, Clone, Copy, PartialEq, Eq, Structural)]
pub enum Engine {
    TfTree,
    Tf2,
}

impl Engine {
    pub open spec fn name(self) -> Seq<char> {
        match self {
            Engine::TfTree => "tf_tree"@,
            Engine::Tf2 => "tf2"@,
        }
    }

    pub fn label(self) -> (r: &'static str)
        ensures
            r@ == self.name(),
    {
        match self {
            Engine::TfTree => "tf_tree",
            Engine::Tf2 => "tf2",
        }
    }

    /// The other engine, which a worker that alternates drives next.
    pub fn other(self) -> (r: Engine)
        ensures
            r != self,
    {
        match self {
            Engine::TfTree => Engine::Tf2,
            Engine::Tf2 => Engine::TfTree,
        }
    }
}

/// The engine that a writer publishes to: the one that the round selected, or where none
/// is selected the other than before.
pub fn writer_engine(selected: Option<Engine>, before: Engine) -> (r: Engine)
    ensures
        match selected {
            Some(e) => r == e,
            None => r != before,
        },
{
    match selected {
        Some(e) => e,
        None => before.other(),
    }
}

// ---------------------------------------------------------------------------
// The times
// ---------------------------------------------------------------------------

pub open spec fn ascending(v: Seq<u64>) -> bool {
    forall|i: int, j: int| 0 <= i <= j < v.len() ==> v[i] <= v[j]
}

/// What is reported of the rounds of one engine: the fastest, which is the least
/// disturbed, the middle one, and the slowest.
#[derive(Debug, Clone, Copy, PartialEq, Eq, Structural)]
pub struct Rounds {
    pub best: u64,
    pub median: u64,
    pub worst: u64,
}

impl Rounds {
    /// From the times in ascending order.
    pub fn from_sorted(v: &Vec<u64>) -> (r: Rounds)
        requires
            v@.len() > 0,
            ascending(v@),
        ensures
            r.best == v@[0],
            r.median == v@[v@.len() as int / 2],
            r.worst == v@.last(),
            r.best <= r.median <= r.worst,
    {
        Rounds { best: v[0], median: v[v.len() / 2], worst: v[v.len() - 1] }
    }
}

/// Percentiles of single lookups, in nanoseconds.
#[derive(Debug, Clone, Copy, PartialEq, Eq, Structural)]
pub struct Percentiles {
    pub p50: u64,
    pub p99: u64,
    pub p999: u64,
    pub p9999: u64,
}

/// The time at a rank, or the last where there are not so many.
pub open spec fn at_rank(v: Seq<u64>, rank: usize) -> u64 {
    if rank < v.len() {
        v[rank as int]
    } else {
        v.last()
    }
}

fn take_rank(v: &Vec<u64>, rank: usize) -> (r: u64)
    requires
        v@.len() > 0,
    ensures
        r == at_rank(v@, rank),
{
    if rank < v.len() {
        v[rank]
    } else {
        v[v.len() - 1]
    }
}

impl Percentiles {
    /// From the times in ascending order, and the rank of each percentile.
    pub fn from_sorted(
        v: &Vec<u64>,
        rank50: usize,
        rank99: usize,
        rank999: usize,
        rank9999: usize,
    ) -> (r: Percentiles)
        requires
            v@.len() > 0,
            ascending(v@),
        ensures
            r.p50 == at_rank(v@, rank50),
            r.p99 == at_rank(v@, rank99),
            r.p999 == at_rank(v@, rank999),
            r.p9999 == at_rank(v@, rank9999),
            rank50 <= rank99 <= rank999 <= rank9999 ==> r.p50 <= r.p99 <= r.p999 <= r.p9999,
    {
        Percentiles {
            p50: take_rank(v, rank50),
            p99: take_rank(v, rank99),
            p999: take_rank(v, rank999),
            p9999: take_rank(v, rank9999),
        }
    }
}

// ---------------------------------------------------------------------------
// The cores
// ---------------------------------------------------------------------------

/// What has been read of `/proc/cpuinfo`: the last package id, and the pairs so far.
pub struct Cores {
    pub package: Option<u32>,
    pub pairs: Set<(u32, u32)>,
}

/// One more line: a core id is of the package that was named last.
pub open spec fn take_line(s: Cores, line: Seq<char>) -> Cores {
    if begins(line, "physical id"@) {
        Cores { package: after_colon(line.skip("physical id"@.len() as int)), ..s }
    } else if begins(line, "core id"@) {
        match (s.package, after_colon(line.skip("core id"@.len() as int))) {
            (Some(p), Some(c)) => Cores { pairs: s.pairs.insert((p, c)), ..s },
            _ => s,
        }
    } else {
        s
    }
}

pub open spec fn cores_in(ls: Seq<Seq<char>>) -> Cores
    decreases ls.len(),
{
    if ls.len() == 0 {
        Cores { package: None, pairs: Set::empty() }
    } else {
        take_line(cores_in(ls.drop_last()), ls.last())
    }
}

/// How many cores `/proc/cpuinfo` tells apart, or nothing where it publishes no ids.
pub open spec fn core_count(cpuinfo: Seq<char>) -> Option<nat> {
    let pairs = cores_in(lines(cpuinfo)).pairs;
    if pairs.len() == 0 {
        None
    } else {
        Some(pairs.len())
    }
}

/// Physical cores from the text of `/proc/cpuinfo`: past their count threads share
/// execution units.
pub fn physical_cores(cpuinfo: &str) -> (r: Option<usize>)
    ensures
        match r {
            Some(n) => core_count(cpuinfo@) == Some(n as nat),
            None => core_count(cpuinfo@) is None,
        },
{
    let ls = text::split_lines(cpuinfo);
    let ghost all = texts(ls@);
    let mut package: Option<u32> = None;
    let mut pairs: Vec<(u32, u32)> = Vec::new();
    let mut i: usize = 0;
    assert(all.take(0) =~= seq![]);
    assert(pairs@.to_set() =~= Set::empty());
    while i < ls.len()
        invariant
            i <= ls@.len(),
            all == texts(ls@),
            pairs@.no_duplicates(),
            cores_in(all.take(i as int)) == (Cores { package, pairs: pairs@.to_set() }),
        decreases ls@.len() - i,
    {
        assert(all.take(i + 1).drop_last() =~= all.take(i as int));
        assert(all.take(i + 1).last() == ls@[i as int]@);
        match text::after_prefix(ls[i].as_str(), "physical id") {
            Some(v) => {
                package = parse_after_colon(v.as_str());
            },
            None => match text::after_prefix(ls[i].as_str(), "core id") {
                Some(v) => match (package, parse_after_colon(v.as_str())) {
                    (Some(p), Some(c)) => {
                        note_pair(&mut pairs, (p, c));
                    },
                    _ => {},
                },
                None => {},
            },
        }
        i = i + 1;
    }
    assert(all.take(i as int) =~= all);
    proof {
        pairs@.unique_seq_to_set();
    }
    if pairs.len() == 0 {
        None
    } else {
        Some(pairs.len())
    }
}

/// The stamps of a sweep divide the window evenly: each stands at its share of the width,
/// rounded down, and the first at its start.
pub proof fn law_sweep_divides_the_window(lo: i64, hi: i64, n: int, k: int)
    requires
        lo < hi,
        0 <= k < n,
    ensures
        (sweep_stamp(lo, hi, n, k) - lo) * n <= (hi - lo) * k,
        (hi - lo) * k < (sweep_stamp(lo, hi, n, k) - lo + 1) * n,
        sweep_stamp(lo, hi, n, 0) == lo,
{
    let a = (hi - lo) * k;
    vstd::arithmetic::div_mod::lemma_fundamental_div_mod(a, n);
    assert((a / n) * n <= a && a < (a / n + 1) * n) by (nonlinear_arith)
        requires
            a == n * (a / n) + a % n,
            0 <= a % n < n,
    ;
    assert((hi - lo) * 0 == 0);
    assert(0int / n == 0) by (nonlinear_arith)
        requires
            n > 0,
    ;
}

/// Every edge that has an id and is off the path can be written, and is so once, in order.
pub proof fn law_every_other_edge_can_be_written(
    edges: Seq<Option<u32>>,
    on_path: Seq<u32>,
    i: int,
)
    requires
        0 <= i < edges.len(),
        edges[i] matches Some(e) && !on_path.contains(e),
    ensures
        off_path(edges, on_path).contains(i),
        forall|a: int, b: int|
            0 <= a < b < off_path(edges, on_path).len() ==> off_path(edges, on_path)[a] < off_path(
                edges,
                on_path,
            )[b],
    decreases edges.len(),
{
    lemma_off_path_ascends(edges, on_path);
    let rest = off_path(edges.drop_last(), on_path);
    let all = off_path(edges, on_path);
    if i == edges.len() - 1 {
        assert(all[rest.len() as int] == i);
    } else {
        assert(edges.drop_last()[i] == edges[i]);
        law_every_other_edge_can_be_written(edges.drop_last(), on_path, i);
        let k = choose|k: int| 0 <= k < rest.len() && rest[k] == i;
        assert(all[k] == i);
    }
}

proof fn lemma_off_path_ascends(edges: Seq<Option<u32>>, on_path: Seq<u32>)
    ensures
        forall|a: int| 0 <= a < off_path(edges, on_path).len() ==> 0 <= #[trigger] off_path(edges, on_path)[a]
            < edges.len(),
        forall|a: int, b: int|
            0 <= a < b < off_path(edges, on_path).len() ==> off_path(edges, on_path)[a] < off_path(
                edges,
                on_path,
            )[b],
    decreases edges.len(),
{
    if edges.len() > 0 {
        lemma_off_path_ascends(edges.drop_last(), on_path);
        let rest = off_path(edges.drop_last(), on_path);
        let all = off_path(edges, on_path);
        assert(all == rest || all == rest.push(edges.len() - 1));
        assert forall|a: int| 0 <= a < all.len() implies 0 <= #[trigger] all[a] < edges.len() by {
            if a < rest.len() {
                assert(all[a] == rest[a]);
            }
        }
        assert forall|a: int, b: int| 0 <= a < b < all.len() implies all[a] < all[b] by {
            assert(all[a] == rest[a]);
            if b < rest.len() {
                assert(all[b] == rest[b]);
            }
        }
    }
}

/// The thread counts that are asked for are those that are run, in their order, where each is
/// a positive number.
pub proof fn law_the_counts_asked_for_are_run(v: Seq<Seq<char>>, n: Seq<usize>)
    requires
        v.len() == n.len(),
        forall|i: int|
            0 <= i < v.len() ==> read_usize(trimmed(#[trigger] v[i])) == Some(n[i]) && n[i] > 0,
    ensures
        positive(v) == n,
    decreases v.len(),
{
    if v.len() > 0 {
        let (w, m) = (v.drop_last(), n.drop_last());
        assert forall|i: int| 0 <= i < w.len() implies read_usize(trimmed(#[trigger] w[i])) == Some(
            m[i],
        ) && m[i] > 0 by {
            assert(w[i] == v[i]);
        }
        law_the_counts_asked_for_are_run(w, m);
        assert(v[v.len() - 1] == v.last());
        assert(n =~= m.push(n.last()));
    } else {
        assert(n =~= seq![]);
    }
}

/// A setting of none, or of nothing that can be run, asks for one, two, four and eight.
pub proof fn law_the_default_counts(setting: Option<Seq<char>>)
    ensures
        setting is None ==> threads_of(setting) == seq![1usize, 2, 4, 8],
        setting matches Some(s) ==> threads_of(setting) == (if positive(pieces(s, ',')).len() == 0 {
            seq![1usize, 2, 4, 8]
        } else {
            positive(pieces(s, ','))
        }),
{
    assert(DEFAULT_THREADS@ =~= seq![1usize, 2, 4, 8]);
}

/// A core is counted once, however many of its threads are listed: a core id counts under the
/// package that was named last before it.
pub proof fn law_a_core_is_its_package_and_id(ls: Seq<Seq<char>>, p: Seq<char>, c: Seq<char>)
    requires
        begins(p, "physical id"@),
        begins(c, "core id"@),
        after_colon(p.skip("physical id"@.len() as int)) is Some,
        after_colon(c.skip("core id"@.len() as int)) is Some,
    ensures
        cores_in(ls.push(p).push(c)).pairs == cores_in(ls).pairs.insert(
            (
                after_colon(p.skip("physical id"@.len() as int))->0,
                after_colon(c.skip("core id"@.len() as int))->0,
            ),
        ),
{
    reveal_strlit("physical id");
    reveal_strlit("core id");
    let a = ls.push(p);
    let b = a.push(c);
    assert(a.drop_last() =~= ls);
    assert(b.drop_last() =~= a);
    assert("physical id"@[0] == 'p' && "core id"@[0] == 'c');
    assert(c.take(7)[0] == 'c');
    assert(c[0] == 'c');
    assert(c.len() >= 11 ==> c.take(11)[0] == 'c');
    assert(!begins(c, "physical id"@));
    assert(cores_in(a) == take_line(cores_in(ls), p));
    assert(cores_in(b) == take_line(cores_in(a), c));
}

/// A percentile is the value at its rank, and the largest where there are not so many.
pub proof fn law_a_percentile_is_at_its_rank(v: Seq<u64>, rank: usize)
    requires
        v.len() > 0,
        ascending(v),
    ensures
        rank < v.len() ==> at_rank(v, rank) == v[rank as int],
        rank >= v.len() ==> at_rank(v, rank) == v[v.len() - 1],
        v.contains(at_rank(v, rank)),
        forall|i: int| 0 <= i < v.len() && i <= rank ==> #[trigger] v[i] <= at_rank(v, rank),
        forall|i: int| rank <= i < v.len() ==> at_rank(v, rank) <= #[trigger] v[i],
{
    let k = if rank < v.len() {
        rank as int
    } else {
        v.len() - 1
    };
    assert(v[k] == at_rank(v, rank));
}

/// A count that is set is taken, unless it cannot be read; and it is never nothing.
pub proof fn law_a_count_is_as_it_was_set(s: Seq<char>, n: usize, default: usize)
    ensures
        read_usize(s) == Some(n) && n > 0 ==> count_of(Some(s), default) == n,
        read_usize(s) is None && default > 0 ==> count_of(Some(s), default) == default,
        default > 0 ==> count_of(None, default) == default,
        count_of(Some(s), default) >= 1,
        count_of(None, default) >= 1,
{
}

} // verus!
