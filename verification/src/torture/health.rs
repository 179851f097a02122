//! Whether the arena was alive while it was read.
//!
//! A ring outlives the process that filled it, so an arena whose writers are all gone still
//! answers every lookup in the window it froze with. Read counts cannot tell that from a
//! live one; what is measured here can.

use vstd::prelude::*;

use super::window::{blocker, common, extremes, laggard, overlap, saturated, EdgeWindow};
use super::{CHAIN, CHAIN_READS};
use crate::text::{begins, decimal, digits, holds, lemma_end_of_a_beginning};

verus! {

/// How many transforms were validated.
#[derive(Debug, Clone, Copy, PartialEq, Eq, Structural)]
pub struct Reads {
    /// From end to end of the chain, at one stamp.
    pub chain: u64,
    /// Of single edges, each in its own window.
    pub edge: u64,
}

impl Reads {
    pub fn none() -> (r: Reads)
        ensures
            r.chain == 0,
            r.edge == 0,
    {
        Reads { chain: 0, edge: 0 }
    }

    pub fn total(self) -> (r: u64)
        requires
            self.chain + self.edge <= u64::MAX,
        ensures
            r == self.chain + self.edge,
    {
        self.chain + self.edge
    }

    pub fn add(&mut self, other: Reads)
        requires
            old(self).chain + other.chain <= u64::MAX,
            old(self).edge + other.edge <= u64::MAX,
        ensures
            final(self).chain == old(self).chain + other.chain,
            final(self).edge == old(self).edge + other.edge,
    {
        self.chain = self.chain + other.chain;
        self.edge = self.edge + other.edge;
    }
}

/// What one round of reads saw besides the transforms.
#[derive(Debug, Clone, Copy, PartialEq, Eq, Structural)]
pub struct RoundHealth {
    /// How many edges of the chain reported a window.
    pub windows: usize,
    /// Whether the windows of all of them intersect.
    pub overlap: bool,
    /// How wide the intersection is, in nanoseconds.
    pub width: i64,
    /// How far apart the nearest windows are where they do not intersect.
    pub gap: i64,
    /// The edge that holds the intersection back.
    pub laggard: usize,
    /// The edge that holds it up.
    pub blocker: usize,
    /// Composed reads that succeeded.
    pub chain_ok: u64,
    /// How old the freshest sample of the chain is; nothing where no edge reported a window.
    pub freshest_age: Option<i64>,
    /// Edges whose claim is held by a live participant.
    pub writers_live: u64,
    /// Edges whose claim is held by a dead one.
    pub writers_dead: u64,
    /// Participant slots with a live record.
    pub slots_registered: u64,
    /// Participant slots whose process the kernel says is alive.
    pub slots_alive: u64,
}

/// A round before anything was seen.
pub open spec fn unseen() -> RoundHealth {
    RoundHealth {
        windows: 0,
        overlap: false,
        width: 0,
        gap: 0,
        laggard: 0,
        blocker: 0,
        chain_ok: 0,
        freshest_age: None,
        writers_live: 0,
        writers_dead: 0,
        slots_registered: 0,
        slots_alive: 0,
    }
}

/// The age of the freshest of some windows.
pub open spec fn freshest(ws: Seq<EdgeWindow>, now: i64) -> Option<i64>
    decreases ws.len(),
{
    if ws.len() == 0 {
        None
    } else {
        let age = saturated(now - ws.last().newest) as i64;
        match freshest(ws.drop_last(), now) {
            Some(a) => if age < a {
                Some(age)
            } else {
                Some(a)
            },
            None => Some(age),
        }
    }
}

/// A round with what the windows of the chain say at a time.
pub open spec fn with_windows(h: RoundHealth, ws: Seq<EdgeWindow>, now: i64) -> RoundHealth {
    let b = blocker(ws);
    let l = laggard(ws);
    let seen = RoundHealth { windows: ws.len() as usize, freshest_age: freshest(ws, now), ..h };
    if ws.len() == 0 {
        seen
    } else if overlap(ws) {
        RoundHealth {
            blocker: b.which,
            laggard: l.which,
            overlap: true,
            width: (l.newest - b.oldest) as i64,
            ..seen
        }
    } else {
        RoundHealth {
            blocker: b.which,
            laggard: l.which,
            gap: (b.oldest - l.newest) as i64,
            ..seen
        }
    }
}

impl RoundHealth {
    /// Whether the arena was being written: somebody alive holds a claim, and the freshest
    /// sample is under a second old. Both are needed: a holder that does not push leaves the
    /// rings frozen, and a recent sample without a holder is the moment after a death.
    pub open spec fn live(self) -> bool {
        &&& self.writers_live > 0
        &&& self.freshest_age matches Some(age) && age < 1_000_000_000
    }

    pub fn new() -> (r: RoundHealth)
        ensures
            r == unseen(),
    {
        RoundHealth {
            windows: 0,
            overlap: false,
            width: 0,
            gap: 0,
            laggard: 0,
            blocker: 0,
            chain_ok: 0,
            freshest_age: None,
            writers_live: 0,
            writers_dead: 0,
            slots_registered: 0,
            slots_alive: 0,
        }
    }

    /// Whether the arena was being written.
    pub fn arena_is_live(&self) -> (r: bool)
        ensures
            r == self.live(),
    {
        match self.freshest_age {
            Some(age) => self.writers_live > 0 && age < 1_000_000_000,
            None => false,
        }
    }

    /// Notes what the windows of the chain say.
    pub fn see_windows(&mut self, ws: &Vec<EdgeWindow>, now: i64)
        requires
            ws@.len() > 0 ==> i64::MIN <= blocker(ws@).oldest - laggard(ws@).newest <= i64::MAX
                && laggard(ws@).newest - blocker(ws@).oldest <= i64::MAX,
        ensures
            *final(self) == with_windows(*old(self), ws@, now),
    {
        self.windows = ws.len();
        self.freshest_age = freshest_of(ws, now);
        if ws.len() == 0 {
            return;
        }
        let (b, l) = extremes(ws);
        self.blocker = b.which;
        self.laggard = l.which;
        if ws.len() == 4 && b.oldest <= l.newest {
            self.overlap = true;
            self.width = l.newest - b.oldest;
        } else {
            self.gap = b.oldest - l.newest;
        }
    }
}

fn freshest_of(ws: &Vec<EdgeWindow>, now: i64) -> (r: Option<i64>)
    ensures
        r == freshest(ws@, now),
{
    let mut best: Option<i64> = None;
    let mut i: usize = 0;
    assert(ws@.take(0) =~= seq![]);
    while i < ws.len()
        invariant
            i <= ws@.len(),
            best == freshest(ws@.take(i as int), now),
        decreases ws@.len() - i,
    {
        assert(ws@.take(i + 1).drop_last() =~= ws@.take(i as int));
        let newest: i64 = ws[i].newest;
        let age: i64 = match now.checked_sub(newest) {
            Some(d) => d,
            None => if newest < 0 {
                i64::MAX
            } else {
                i64::MIN
            },
        };
        best = match best {
            Some(a) => if age < a {
                Some(age)
            } else {
                Some(a)
            },
            None => Some(age),
        };
        i = i + 1;
    }
    assert(ws@.take(i as int) =~= ws@);
    best
}

/// An arena nothing of which was ever written, or whose claims nobody alive holds, is not
/// live, however many reads it answers.
pub proof fn law_dead_arena_is_not_live(h: RoundHealth, ws: Seq<EdgeWindow>, now: i64)
    requires
        ws.len() == 0 || h.writers_live == 0,
    ensures
        !with_windows(h, ws, now).live(),
{
}

/// Rounds, summed.
#[derive(Debug, Clone, Copy, PartialEq, Eq, Structural)]
pub struct Health {
    pub rounds: u64,
    /// Rounds in which an edge reported no window.
    pub short: u64,
    /// Rounds in which the windows intersected.
    pub overlap: u64,
    /// Rounds in which the arena was being written.
    pub live_rounds: u64,
    pub chain_ok: u64,
    pub width_sum: i64,
    pub gap_sum: i64,
    pub gap_max: i64,
    /// How often each edge held the intersection back.
    pub laggard0: u64,
    pub laggard1: u64,
    pub laggard2: u64,
    pub laggard3: u64,
    /// Rounds in which all windows were there and did not intersect.
    pub gap_rounds: u64,
    /// Rounds with a freshest sample.
    pub freshest_rounds: u64,
    pub freshest_sum: i64,
    pub freshest_max: i64,
    pub writers_live_sum: u64,
    pub writers_dead_sum: u64,
    pub slots_registered_max: u64,
    /// The fewest that were alive.
    pub slots_alive_min: u64,
}

pub open spec fn larger(a: int, b: int) -> int {
    if a > b {
        a
    } else {
        b
    }
}

/// Whether all windows were there and did not intersect.
pub open spec fn apart(r: RoundHealth) -> bool {
    !r.overlap && r.windows == 4
}

/// The edge that held the intersection back; one past the last counts as the last.
pub open spec fn who(r: RoundHealth) -> int {
    if r.laggard < 3 {
        r.laggard as int
    } else {
        3
    }
}

/// No sum grows past what it can hold.
pub open spec fn fits(h: Health, r: RoundHealth) -> bool {
    &&& h.rounds < u64::MAX
    &&& h.chain_ok + r.chain_ok <= u64::MAX
    &&& r.overlap ==> i64::MIN <= h.width_sum + r.width <= i64::MAX
    &&& apart(r) ==> i64::MIN <= h.gap_sum + r.gap <= i64::MAX
    &&& r.freshest_age matches Some(age) ==> i64::MIN <= h.freshest_sum + age <= i64::MAX
    &&& h.writers_live_sum + r.writers_live <= u64::MAX
    &&& h.writers_dead_sum + r.writers_dead <= u64::MAX
}

impl Health {
    /// Each count is of rounds that were counted.
    pub open spec fn wf(self) -> bool {
        &&& self.short + self.overlap + self.gap_rounds <= self.rounds
        &&& self.live_rounds <= self.freshest_rounds <= self.rounds
        &&& self.laggard0 + self.laggard1 + self.laggard2 + self.laggard3 == self.gap_rounds
    }

    pub open spec fn laggards(self) -> Seq<u64> {
        seq![self.laggard0, self.laggard1, self.laggard2, self.laggard3]
    }
}

/// No round yet.
pub open spec fn no_rounds() -> Health {
    Health {
        rounds: 0,
        short: 0,
        overlap: 0,
        live_rounds: 0,
        chain_ok: 0,
        width_sum: 0,
        gap_sum: 0,
        gap_max: 0,
        laggard0: 0,
        laggard1: 0,
        laggard2: 0,
        laggard3: 0,
        gap_rounds: 0,
        freshest_rounds: 0,
        freshest_sum: 0,
        freshest_max: 0,
        writers_live_sum: 0,
        writers_dead_sum: 0,
        slots_registered_max: 0,
        slots_alive_min: 0,
    }
}

/// Rounds and one more.
pub open spec fn added(h: Health, r: RoundHealth) -> Health {
    Health {
        rounds: (h.rounds + 1) as u64,
        short: (h.short + if r.windows != 4 {
            1int
        } else {
            0
        }) as u64,
        overlap: (h.overlap + if r.overlap {
            1int
        } else {
            0
        }) as u64,
        live_rounds: (h.live_rounds + if r.live() {
            1int
        } else {
            0
        }) as u64,
        chain_ok: (h.chain_ok + r.chain_ok) as u64,
        width_sum: if r.overlap {
            (h.width_sum + r.width) as i64
        } else {
            h.width_sum
        },
        gap_sum: if apart(r) {
            (h.gap_sum + r.gap) as i64
        } else {
            h.gap_sum
        },
        gap_max: if apart(r) {
            larger(h.gap_max as int, r.gap as int) as i64
        } else {
            h.gap_max
        },
        laggard0: (h.laggard0 + if apart(r) && who(r) == 0 {
            1int
        } else {
            0
        }) as u64,
        laggard1: (h.laggard1 + if apart(r) && who(r) == 1 {
            1int
        } else {
            0
        }) as u64,
        laggard2: (h.laggard2 + if apart(r) && who(r) == 2 {
            1int
        } else {
            0
        }) as u64,
        laggard3: (h.laggard3 + if apart(r) && who(r) == 3 {
            1int
        } else {
            0
        }) as u64,
        gap_rounds: (h.gap_rounds + if apart(r) {
            1int
        } else {
            0
        }) as u64,
        freshest_rounds: (h.freshest_rounds + if r.freshest_age is Some {
            1int
        } else {
            0
        }) as u64,
        freshest_sum: match r.freshest_age {
            Some(age) => (h.freshest_sum + age) as i64,
            None => h.freshest_sum,
        },
        freshest_max: match r.freshest_age {
            Some(age) => larger(h.freshest_max as int, age as int) as i64,
            None => h.freshest_max,
        },
        writers_live_sum: (h.writers_live_sum + r.writers_live) as u64,
        writers_dead_sum: (h.writers_dead_sum + r.writers_dead) as u64,
        slots_registered_max: larger(
            h.slots_registered_max as int,
            r.slots_registered as int,
        ) as u64,
        slots_alive_min: if h.rounds == 0 || r.slots_alive < h.slots_alive_min {
            r.slots_alive
        } else {
            h.slots_alive_min
        },
    }
}

// ---------------------------------------------------------------------------
// What the sums say of the rounds
// ---------------------------------------------------------------------------

/// Some rounds, added one after the other.
pub open spec fn summed(rs: Seq<RoundHealth>) -> Health
    decreases rs.len(),
{
    if rs.len() == 0 {
        no_rounds()
    } else {
        added(summed(rs.drop_last()), rs.last())
    }
}

/// Whether each of some rounds can be added behind those before it.
pub open spec fn addable(rs: Seq<RoundHealth>) -> bool
    decreases rs.len(),
{
    rs.len() == 0 || {
        &&& addable(rs.drop_last())
        &&& fits(summed(rs.drop_last()), rs.last())
        &&& rs.last().overlap ==> rs.last().windows == 4
    }
}

/// How many rounds are of a kind.
pub open spec fn how_many(rs: Seq<RoundHealth>, p: spec_fn(RoundHealth) -> bool) -> nat
    decreases rs.len(),
{
    if rs.len() == 0 {
        0
    } else {
        how_many(rs.drop_last(), p) + if p(rs.last()) {
            1nat
        } else {
            0nat
        }
    }
}

/// A quantity of each round, summed.
pub open spec fn total(rs: Seq<RoundHealth>, f: spec_fn(RoundHealth) -> int) -> int
    decreases rs.len(),
{
    if rs.len() == 0 {
        0
    } else {
        total(rs.drop_last(), f) + f(rs.last())
    }
}

/// Whether a value is the largest of a quantity of each round, or the bound below it where
/// no round is above that.
pub open spec fn is_largest(
    v: int,
    bound: int,
    rs: Seq<RoundHealth>,
    f: spec_fn(RoundHealth) -> int,
) -> bool {
    &&& v >= bound
    &&& forall|i: int| 0 <= i < rs.len() ==> f(#[trigger] rs[i]) <= v
    &&& v == bound || exists|i: int| 0 <= i < rs.len() && f(#[trigger] rs[i]) == v
}

/// Whether a value is the smallest of a quantity of each round.
pub open spec fn is_smallest(v: int, rs: Seq<RoundHealth>, f: spec_fn(RoundHealth) -> int) -> bool {
    &&& forall|i: int| 0 <= i < rs.len() ==> v <= f(#[trigger] rs[i])
    &&& exists|i: int| 0 <= i < rs.len() && f(#[trigger] rs[i]) == v
}

pub open spec fn is_short() -> spec_fn(RoundHealth) -> bool {
    |r: RoundHealth| r.windows != 4
}

pub open spec fn overlaps() -> spec_fn(RoundHealth) -> bool {
    |r: RoundHealth| r.overlap
}

pub open spec fn is_apart() -> spec_fn(RoundHealth) -> bool {
    |r: RoundHealth| apart(r)
}

/// Rounds in which an edge held the intersection back.
pub open spec fn held_back_by(edge: int) -> spec_fn(RoundHealth) -> bool {
    |r: RoundHealth| apart(r) && who(r) == edge
}

pub open spec fn is_live() -> spec_fn(RoundHealth) -> bool {
    |r: RoundHealth| r.live()
}

pub open spec fn has_freshest() -> spec_fn(RoundHealth) -> bool {
    |r: RoundHealth| r.freshest_age is Some
}

pub open spec fn answered() -> spec_fn(RoundHealth) -> int {
    |r: RoundHealth| r.chain_ok as int
}

/// The width of the intersection, where there is one.
pub open spec fn width_of() -> spec_fn(RoundHealth) -> int {
    |r: RoundHealth|
        if r.overlap {
            r.width as int
        } else {
            0
        }
}

/// The gap, where there is one.
pub open spec fn gap_of() -> spec_fn(RoundHealth) -> int {
    |r: RoundHealth|
        if apart(r) {
            r.gap as int
        } else {
            0
        }
}

/// The age of the freshest sample, where there is one.
pub open spec fn age_of() -> spec_fn(RoundHealth) -> int {
    |r: RoundHealth|
        match r.freshest_age {
            Some(age) => age as int,
            None => 0,
        }
}

pub open spec fn live_writers() -> spec_fn(RoundHealth) -> int {
    |r: RoundHealth| r.writers_live as int
}

pub open spec fn dead_writers() -> spec_fn(RoundHealth) -> int {
    |r: RoundHealth| r.writers_dead as int
}

pub open spec fn registered_slots() -> spec_fn(RoundHealth) -> int {
    |r: RoundHealth| r.slots_registered as int
}

pub open spec fn alive_slots() -> spec_fn(RoundHealth) -> int {
    |r: RoundHealth| r.slots_alive as int
}

proof fn lemma_largest_push(
    v: int,
    bound: int,
    rs: Seq<RoundHealth>,
    f: spec_fn(RoundHealth) -> int,
)
    requires
        rs.len() > 0,
        is_largest(v, bound, rs.drop_last(), f),
    ensures
        is_largest(larger(v, f(rs.last())), bound, rs, f),
{
    let w = rs.drop_last();
    assert forall|i: int| 0 <= i < rs.len() implies f(#[trigger] rs[i]) <= larger(
        v,
        f(rs.last()),
    ) by {
        if i < w.len() {
            assert(w[i] == rs[i]);
        }
    }
    if f(rs.last()) > v {
        assert(f(rs[rs.len() - 1]) == f(rs.last()));
    } else if v != bound {
        let i = choose|i: int| 0 <= i < w.len() && f(#[trigger] w[i]) == v;
        assert(f(rs[i]) == v);
    }
}

proof fn lemma_smallest_push(v: int, rs: Seq<RoundHealth>, f: spec_fn(RoundHealth) -> int)
    requires
        rs.len() > 0,
        rs.len() == 1 || is_smallest(v, rs.drop_last(), f),
    ensures
        is_smallest(
            if rs.len() == 1 || f(rs.last()) < v {
                f(rs.last())
            } else {
                v
            },
            rs,
            f,
        ),
{
    let w = rs.drop_last();
    let m = if rs.len() == 1 || f(rs.last()) < v {
        f(rs.last())
    } else {
        v
    };
    assert forall|i: int| 0 <= i < rs.len() implies m <= f(#[trigger] rs[i]) by {
        if i < w.len() {
            assert(w[i] == rs[i]);
        }
    }
    if m == f(rs.last()) {
        assert(f(rs[rs.len() - 1]) == m);
    } else {
        let i = choose|i: int| 0 <= i < w.len() && f(#[trigger] w[i]) == v;
        assert(f(rs[i]) == v);
    }
}

/// Each sum is over the rounds that were added, each count is of those of its kind, the
/// least and the largest are of the rounds; and every round in which all windows were there
/// and did not intersect is charged to one edge.
pub proof fn law_sums_are_of_the_rounds(rs: Seq<RoundHealth>)
    requires
        addable(rs),
    ensures
        ({
            let h = summed(rs);
            &&& h.wf()
            &&& h.rounds == rs.len()
            &&& h.short == how_many(rs, is_short())
            &&& h.overlap == how_many(rs, overlaps())
            &&& h.gap_rounds == how_many(rs, is_apart())
            &&& h.short + h.overlap + h.gap_rounds == h.rounds
            &&& h.laggard0 == how_many(rs, held_back_by(0))
            &&& h.laggard1 == how_many(rs, held_back_by(1))
            &&& h.laggard2 == how_many(rs, held_back_by(2))
            &&& h.laggard3 == how_many(rs, held_back_by(3))
            &&& h.live_rounds == how_many(rs, is_live())
            &&& h.freshest_rounds == how_many(rs, has_freshest())
            &&& h.chain_ok == total(rs, answered())
            &&& h.width_sum == total(rs, width_of())
            &&& h.gap_sum == total(rs, gap_of())
            &&& is_largest(h.gap_max as int, 0, rs, gap_of())
            &&& h.freshest_sum == total(rs, age_of())
            &&& is_largest(h.freshest_max as int, 0, rs, age_of())
            &&& h.writers_live_sum == total(rs, live_writers())
            &&& h.writers_dead_sum == total(rs, dead_writers())
            &&& is_largest(h.slots_registered_max as int, 0, rs, registered_slots())
            &&& rs.len() > 0 ==> is_smallest(h.slots_alive_min as int, rs, alive_slots())
        }),
    decreases rs.len(),
{
    if rs.len() > 0 {
        let w = rs.drop_last();
        let h = summed(w);
        law_sums_are_of_the_rounds(w);
        lemma_largest_push(h.gap_max as int, 0, rs, gap_of());
        lemma_largest_push(h.freshest_max as int, 0, rs, age_of());
        lemma_largest_push(h.slots_registered_max as int, 0, rs, registered_slots());
        lemma_smallest_push(h.slots_alive_min as int, rs, alive_slots());
    }
}

proof fn lemma_how_many_remove(rs: Seq<RoundHealth>, p: spec_fn(RoundHealth) -> bool, i: int)
    requires
        0 <= i < rs.len(),
    ensures
        how_many(rs, p) == how_many(rs.remove(i), p) + if p(rs[i]) {
            1nat
        } else {
            0nat
        },
    decreases rs.len(),
{
    let w = rs.drop_last();
    if i == rs.len() - 1 {
        assert(rs.remove(i) =~= w);
    } else {
        lemma_how_many_remove(w, p, i);
        assert(rs.remove(i).drop_last() =~= w.remove(i));
    }
}

proof fn lemma_total_remove(rs: Seq<RoundHealth>, f: spec_fn(RoundHealth) -> int, i: int)
    requires
        0 <= i < rs.len(),
    ensures
        total(rs, f) == total(rs.remove(i), f) + f(rs[i]),
    decreases rs.len(),
{
    let w = rs.drop_last();
    if i == rs.len() - 1 {
        assert(rs.remove(i) =~= w);
    } else {
        lemma_total_remove(w, f, i);
        assert(rs.remove(i).drop_last() =~= w.remove(i));
    }
}

/// Where the last of some rounds is among others that are the same rounds.
proof fn lemma_find_last(rs: Seq<RoundHealth>, qs: Seq<RoundHealth>) -> (i: int)
    requires
        rs.to_multiset() == qs.to_multiset(),
        rs.len() > 0,
    ensures
        0 <= i < qs.len(),
        qs[i] == rs.last(),
        rs.drop_last().to_multiset() == qs.remove(i).to_multiset(),
{
    broadcast use vstd::seq_lib::group_to_multiset_ensures;

    let x = rs.last();
    assert(rs.contains(x));
    assert(qs.to_multiset().count(x) > 0);
    assert(rs.drop_last() =~= rs.remove(rs.len() - 1));
    choose|i: int| 0 <= i < qs.len() && qs[i] == x
}

proof fn lemma_how_many_in_any_order(
    rs: Seq<RoundHealth>,
    qs: Seq<RoundHealth>,
    p: spec_fn(RoundHealth) -> bool,
)
    requires
        rs.to_multiset() == qs.to_multiset(),
    ensures
        how_many(rs, p) == how_many(qs, p),
    decreases rs.len(),
{
    broadcast use vstd::seq_lib::group_to_multiset_ensures;

    assert(rs.len() == rs.to_multiset().len());
    assert(qs.len() == qs.to_multiset().len());
    if rs.len() > 0 {
        let i = lemma_find_last(rs, qs);
        lemma_how_many_remove(qs, p, i);
        lemma_how_many_in_any_order(rs.drop_last(), qs.remove(i), p);
    }
}

proof fn lemma_total_in_any_order(
    rs: Seq<RoundHealth>,
    qs: Seq<RoundHealth>,
    f: spec_fn(RoundHealth) -> int,
)
    requires
        rs.to_multiset() == qs.to_multiset(),
    ensures
        total(rs, f) == total(qs, f),
    decreases rs.len(),
{
    broadcast use vstd::seq_lib::group_to_multiset_ensures;

    assert(rs.len() == rs.to_multiset().len());
    assert(qs.len() == qs.to_multiset().len());
    if rs.len() > 0 {
        let i = lemma_find_last(rs, qs);
        lemma_total_remove(qs, f, i);
        lemma_total_in_any_order(rs.drop_last(), qs.remove(i), f);
    }
}

proof fn lemma_among(rs: Seq<RoundHealth>, qs: Seq<RoundHealth>, i: int) -> (j: int)
    requires
        rs.to_multiset() == qs.to_multiset(),
        0 <= i < rs.len(),
    ensures
        0 <= j < qs.len(),
        qs[j] == rs[i],
{
    broadcast use vstd::seq_lib::group_to_multiset_ensures;

    assert(rs.contains(rs[i]));
    assert(qs.to_multiset().count(rs[i]) > 0);
    choose|j: int| 0 <= j < qs.len() && qs[j] == rs[i]
}

proof fn lemma_largest_in_any_order(
    v: int,
    w: int,
    bound: int,
    rs: Seq<RoundHealth>,
    qs: Seq<RoundHealth>,
    f: spec_fn(RoundHealth) -> int,
)
    requires
        rs.to_multiset() == qs.to_multiset(),
        is_largest(v, bound, rs, f),
        is_largest(w, bound, qs, f),
    ensures
        v == w,
{
    if v > w {
        let i = choose|i: int| 0 <= i < rs.len() && f(#[trigger] rs[i]) == v;
        let j = lemma_among(rs, qs, i);
        assert(f(qs[j]) <= w);
    } else if w > v {
        let i = choose|i: int| 0 <= i < qs.len() && f(#[trigger] qs[i]) == w;
        let j = lemma_among(qs, rs, i);
        assert(f(rs[j]) <= v);
    }
}

proof fn lemma_smallest_in_any_order(
    v: int,
    w: int,
    rs: Seq<RoundHealth>,
    qs: Seq<RoundHealth>,
    f: spec_fn(RoundHealth) -> int,
)
    requires
        rs.to_multiset() == qs.to_multiset(),
        is_smallest(v, rs, f),
        is_smallest(w, qs, f),
    ensures
        v == w,
{
    let i = choose|i: int| 0 <= i < rs.len() && f(#[trigger] rs[i]) == v;
    let j = lemma_among(rs, qs, i);
    assert(w <= f(qs[j]));
    let k = choose|k: int| 0 <= k < qs.len() && f(#[trigger] qs[k]) == w;
    let l = lemma_among(qs, rs, k);
    assert(v <= f(rs[l]));
}

/// In which order rounds are added does not show in their sums.
pub proof fn law_order_of_rounds_does_not_show(rs: Seq<RoundHealth>, qs: Seq<RoundHealth>)
    requires
        addable(rs),
        addable(qs),
        rs.to_multiset() == qs.to_multiset(),
    ensures
        summed(rs) == summed(qs),
{
    broadcast use vstd::seq_lib::group_to_multiset_ensures;

    assert(rs.len() == rs.to_multiset().len());
    assert(qs.len() == qs.to_multiset().len());
    let (g, h) = (summed(rs), summed(qs));
    law_sums_are_of_the_rounds(rs);
    law_sums_are_of_the_rounds(qs);
    lemma_how_many_in_any_order(rs, qs, is_short());
    lemma_how_many_in_any_order(rs, qs, overlaps());
    lemma_how_many_in_any_order(rs, qs, is_apart());
    lemma_how_many_in_any_order(rs, qs, held_back_by(0));
    lemma_how_many_in_any_order(rs, qs, held_back_by(1));
    lemma_how_many_in_any_order(rs, qs, held_back_by(2));
    lemma_how_many_in_any_order(rs, qs, held_back_by(3));
    lemma_how_many_in_any_order(rs, qs, is_live());
    lemma_how_many_in_any_order(rs, qs, has_freshest());
    lemma_total_in_any_order(rs, qs, answered());
    lemma_total_in_any_order(rs, qs, width_of());
    lemma_total_in_any_order(rs, qs, gap_of());
    lemma_total_in_any_order(rs, qs, age_of());
    lemma_total_in_any_order(rs, qs, live_writers());
    lemma_total_in_any_order(rs, qs, dead_writers());
    lemma_largest_in_any_order(g.gap_max as int, h.gap_max as int, 0, rs, qs, gap_of());
    lemma_largest_in_any_order(g.freshest_max as int, h.freshest_max as int, 0, rs, qs, age_of());
    lemma_largest_in_any_order(
        g.slots_registered_max as int,
        h.slots_registered_max as int,
        0,
        rs,
        qs,
        registered_slots(),
    );
    if rs.len() > 0 {
        lemma_smallest_in_any_order(
            g.slots_alive_min as int,
            h.slots_alive_min as int,
            rs,
            qs,
            alive_slots(),
        );
    }
}

/// What a run of rounds is printed with: its elapsed time, shares and means.
pub struct HealthTexts {
    /// Whole seconds.
    pub elapsed: String,
    /// The share of rounds that overlapped, in whole percent.
    pub overlap: String,
    /// That share with one decimal.
    pub overlap_fine: String,
    /// The mean width of the intersection, in whole milliseconds.
    pub window: String,
    /// The mean age of the freshest sample.
    pub freshest: String,
    /// The oldest that it got.
    pub freshest_worst: String,
    /// The mean gap.
    pub gap: String,
    /// The widest gap.
    pub gap_worst: String,
    /// The mean number of live writers, with one decimal.
    pub writers: String,
    /// The same with two.
    pub writers_fine: String,
    /// The share of rounds that were live, in whole percent.
    pub live: String,
}

/// Milliseconds, or that the quantity was never observed.
pub open spec fn ms(text: Seq<char>, n: u64) -> Seq<char> {
    if n == 0 {
        "n/a"@
    } else {
        text + "ms"@
    }
}

fn say_ms(text: &str, n: u64) -> (r: String)
    ensures
        r@ == ms(text@, n),
{
    if n == 0 {
        return "n/a".to_owned();
    }
    let mut s = text.to_owned();
    s.append("ms");
    s
}

/// The summary of some rounds on one line.
pub open spec fn health_line(
    elapsed: Seq<char>,
    rounds: u64,
    ok: u64,
    tried: u64,
    overlap: Seq<char>,
    window: Seq<char>,
    freshest: Seq<char>,
    writers: Seq<char>,
    registered: u64,
    alive: u64,
    live: Seq<char>,
) -> Seq<char> {
    "shm_torture: t="@
        + elapsed
        + "s rounds="@
        + digits(rounds as nat)
        + " composed="@
        + digits(ok as nat)
        + "/"@
        + digits(tried as nat)
        + " overlap="@
        + overlap
        + "% window="@
        + window
        + " freshest="@
        + freshest
        + " writers="@
        + writers
        + "/4 slots="@
        + digits(registered as nat)
        + "reg/"@
        + digits(alive as nat)
        + "alive live="@
        + live
        + "%"@
}

fn say_health_line(
    elapsed: &str,
    rounds: u64,
    ok: u64,
    tried: u64,
    overlap: &str,
    window: &str,
    freshest: &str,
    writers: &str,
    registered: u64,
    alive: u64,
    live: &str,
) -> (r: String)
    ensures
        r@ == health_line(elapsed@, rounds, ok, tried, overlap@, window@, freshest@, writers@, registered, alive, live@),
{
    let mut s = "shm_torture: t=".to_owned();
    s.append(elapsed);
    s.append("s rounds=");
    s.append(decimal(rounds).as_str());
    s.append(" composed=");
    s.append(decimal(ok).as_str());
    s.append("/");
    s.append(decimal(tried).as_str());
    s.append(" overlap=");
    s.append(overlap);
    s.append("% window=");
    s.append(window);
    s.append(" freshest=");
    s.append(freshest);
    s.append(" writers=");
    s.append(writers);
    s.append("/4 slots=");
    s.append(decimal(registered).as_str());
    s.append("reg/");
    s.append(decimal(alive).as_str());
    s.append("alive live=");
    s.append(live);
    s.append("%");
    s
}

/// The sentence that a failing run should not make its reader derive.
pub open spec fn diagnosis_text(
    overlap: u64,
    rounds: u64,
    share: Seq<char>,
    short: u64,
    gap: Seq<char>,
    gap_worst: Seq<char>,
    worst: Seq<char>,
    freshest: Seq<char>,
    freshest_worst: Seq<char>,
    writers: Seq<char>,
    registered: u64,
    alive: u64,
) -> Seq<char> {
    "the four chain windows intersected on "@
        + digits(overlap as nat)
        + "/"@
        + digits(rounds as nat)
        + " rounds ("@
        + share
        + "%); on "@
        + digits(short as nat)
        + " rounds an edge had never been written at all. When they did not intersect the nearest pair was "@
        + gap
        + " apart (worst "@
        + gap_worst
        + ") and the edge holding the intersection back was most often "@
        + worst
        + ". Averaged over the run the freshest of the four edges was "@
        + freshest
        + " old (worst "@
        + freshest_worst
        + ") and "@
        + writers
        + " of the 4 chain edges had a *live* writer; "@
        + digits(registered as nat)
        + " participant slot(s) held a LIVE record at the high-water mark while as few as "@
        + digits(alive as nat)
        + " were alive by the kernel's answer"@
}

fn say_diagnosis_text(
    overlap: u64,
    rounds: u64,
    share: &str,
    short: u64,
    gap: &str,
    gap_worst: &str,
    worst: &str,
    freshest: &str,
    freshest_worst: &str,
    writers: &str,
    registered: u64,
    alive: u64,
) -> (r: String)
    ensures
        r@ == diagnosis_text(overlap, rounds, share@, short, gap@, gap_worst@, worst@, freshest@, freshest_worst@, writers@, registered, alive),
{
    let mut s = "the four chain windows intersected on ".to_owned();
    s.append(decimal(overlap).as_str());
    s.append("/");
    s.append(decimal(rounds).as_str());
    s.append(" rounds (");
    s.append(share);
    s.append("%); on ");
    s.append(decimal(short).as_str());
    s.append(
        " rounds an edge had never been written at all. When they did not intersect the nearest pair was ",
    );
    s.append(gap);
    s.append(" apart (worst ");
    s.append(gap_worst);
    s.append(") and the edge holding the intersection back was most often ");
    s.append(worst);
    s.append(". Averaged over the run the freshest of the four edges was ");
    s.append(freshest);
    s.append(" old (worst ");
    s.append(freshest_worst);
    s.append(") and ");
    s.append(writers);
    s.append(" of the 4 chain edges had a *live* writer; ");
    s.append(decimal(registered).as_str());
    s.append(" participant slot(s) held a LIVE record at the high-water mark while as few as ");
    s.append(decimal(alive).as_str());
    s.append(" were alive by the kernel's answer");
    s
}

/// The place of the largest of some counts, the last of those that tie.
pub open spec fn most(v: Seq<u64>) -> int
    decreases v.len(),
{
    if v.len() <= 1 {
        0
    } else {
        let m = most(v.drop_last());
        if v.last() >= v[m] {
            v.len() - 1
        } else {
            m
        }
    }
}

pub open spec fn edge_name(i: int) -> Seq<char> {
    CHAIN@[i].0@ + "->"@ + CHAIN@[i].1@
}

/// The edge that most often held the intersection back, where one did.
pub open spec fn worst_edge(h: Health) -> Seq<char> {
    if h.gap_rounds == 0 {
        "n/a"@
    } else {
        edge_name(most(h.laggards()))
    }
}

/// The fewest that were alive, none before the first round.
pub open spec fn fewest_alive(h: Health) -> u64 {
    if h.slots_alive_min == u64::MAX {
        0
    } else {
        h.slots_alive_min
    }
}

impl Health {
    pub fn new() -> (r: Health)
        ensures
            r == no_rounds(),
            r.wf(),
    {
        Health {
            rounds: 0,
            short: 0,
            overlap: 0,
            live_rounds: 0,
            chain_ok: 0,
            width_sum: 0,
            gap_sum: 0,
            gap_max: 0,
            laggard0: 0,
            laggard1: 0,
            laggard2: 0,
            laggard3: 0,
            gap_rounds: 0,
            freshest_rounds: 0,
            freshest_sum: 0,
            freshest_max: 0,
            writers_live_sum: 0,
            writers_dead_sum: 0,
            slots_registered_max: 0,
            slots_alive_min: 0,
        }
    }

    /// One more round.
    pub fn add(&mut self, r: RoundHealth)
        requires
            old(self).wf(),
            fits(*old(self), r),
            r.overlap ==> r.windows == 4,
        ensures
            *final(self) == added(*old(self), r),
            final(self).wf(),
    {
        if self.rounds == 0 || r.slots_alive < self.slots_alive_min {
            self.slots_alive_min = r.slots_alive;
        }
        self.rounds = self.rounds + 1;
        if r.windows != 4 {
            self.short = self.short + 1;
        }
        if r.overlap {
            self.overlap = self.overlap + 1;
            self.width_sum = self.width_sum + r.width;
        } else if r.windows == 4 {
            self.gap_rounds = self.gap_rounds + 1;
            self.gap_sum = self.gap_sum + r.gap;
            if r.gap > self.gap_max {
                self.gap_max = r.gap;
            }
            if r.laggard == 0 {
                self.laggard0 = self.laggard0 + 1;
            } else if r.laggard == 1 {
                self.laggard1 = self.laggard1 + 1;
            } else if r.laggard == 2 {
                self.laggard2 = self.laggard2 + 1;
            } else {
                self.laggard3 = self.laggard3 + 1;
            }
        }
        if r.arena_is_live() {
            self.live_rounds = self.live_rounds + 1;
        }
        self.chain_ok = self.chain_ok + r.chain_ok;
        match r.freshest_age {
            Some(age) => {
                self.freshest_rounds = self.freshest_rounds + 1;
                self.freshest_sum = self.freshest_sum + age;
                if age > self.freshest_max {
                    self.freshest_max = age;
                }
            },
            None => {},
        }
        self.writers_live_sum = self.writers_live_sum + r.writers_live;
        self.writers_dead_sum = self.writers_dead_sum + r.writers_dead;
        if r.slots_registered > self.slots_registered_max {
            self.slots_registered_max = r.slots_registered;
        }
    }

    fn alive(&self) -> (r: u64)
        ensures
            r == fewest_alive(*self),
    {
        if self.slots_alive_min == u64::MAX {
            0
        } else {
            self.slots_alive_min
        }
    }

    /// The rounds on one line.
    pub fn line(&self, t: &HealthTexts) -> (r: String)
        requires
            self.rounds * CHAIN_READS <= u64::MAX,
        ensures
            r@ == health_line(
                t.elapsed@,
                self.rounds,
                self.chain_ok,
                (self.rounds * CHAIN_READS) as u64,
                t.overlap@,
                ms(t.window@, self.overlap),
                ms(t.freshest@, self.freshest_rounds),
                t.writers@,
                self.slots_registered_max,
                fewest_alive(*self),
                t.live@,
            ),
    {
        say_health_line(
            t.elapsed.as_str(),
            self.rounds,
            self.chain_ok,
            self.rounds * CHAIN_READS,
            t.overlap.as_str(),
            say_ms(t.window.as_str(), self.overlap).as_str(),
            say_ms(t.freshest.as_str(), self.freshest_rounds).as_str(),
            t.writers.as_str(),
            self.slots_registered_max,
            self.alive(),
            t.live.as_str(),
        )
    }

    fn worst(&self) -> (r: String)
        ensures
            r@ == worst_edge(*self),
    {
        if self.gap_rounds == 0 {
            return "n/a".to_owned();
        }
        let mut k: usize = 0;
        let mut best: u64 = self.laggard0;
        if self.laggard1 >= best {
            k = 1;
            best = self.laggard1;
        }
        if self.laggard2 >= best {
            k = 2;
            best = self.laggard2;
        }
        if self.laggard3 >= best {
            k = 3;
        }
        proof {
            let v = self.laggards();
            assert(v.drop_last() =~= seq![self.laggard0, self.laggard1, self.laggard2]);
            assert(v.drop_last().drop_last() =~= seq![self.laggard0, self.laggard1]);
            assert(v.drop_last().drop_last().drop_last() =~= seq![self.laggard0]);
            reveal_with_fuel(most, 5);
        }
        let chain = CHAIN;
        let mut s = chain[k].0.to_owned();
        s.append("->");
        s.append(chain[k].1);
        s
    }

    /// The sentence that a failing run should not make its reader derive.
    pub fn diagnosis(&self, t: &HealthTexts) -> (r: String)
        ensures
            r@ == diagnosis_text(
                self.overlap,
                self.rounds,
                t.overlap_fine@,
                self.short,
                ms(t.gap@, self.gap_rounds),
                ms(t.gap_worst@, self.gap_rounds),
                worst_edge(*self),
                ms(t.freshest@, self.freshest_rounds),
                ms(t.freshest_worst@, self.freshest_rounds),
                t.writers_fine@,
                self.slots_registered_max,
                fewest_alive(*self),
            ),
    {
        say_diagnosis_text(
            self.overlap,
            self.rounds,
            t.overlap_fine.as_str(),
            self.short,
            say_ms(t.gap.as_str(), self.gap_rounds).as_str(),
            say_ms(t.gap_worst.as_str(), self.gap_rounds).as_str(),
            self.worst().as_str(),
            say_ms(t.freshest.as_str(), self.freshest_rounds).as_str(),
            say_ms(t.freshest_worst.as_str(), self.freshest_rounds).as_str(),
            t.writers_fine.as_str(),
            self.slots_registered_max,
            self.alive(),
        )
    }
}

// ---------------------------------------------------------------------------
// What the numbers are of
// ---------------------------------------------------------------------------

/// An arena is being written exactly where an edge has a live writer and the freshest sample is
/// less than a second old.
pub proof fn law_when_an_arena_is_live(r: RoundHealth)
    ensures
        r.live() <==> r.writers_live > 0 && r.freshest_age is Some && r.freshest_age->0
            < 1_000_000_000,
{
}

/// The freshest age is that of the newest sample of all windows, and there is none without a
/// window.
pub proof fn law_freshest_is_the_youngest(ws: Seq<EdgeWindow>, now: i64)
    ensures
        freshest(ws, now) is None <==> ws.len() == 0,
        freshest(ws, now) matches Some(age) ==> {
            &&& exists|k: int|
                0 <= k < ws.len() && age == saturated(now - (#[trigger] ws[k]).newest)
            &&& forall|k: int|
                0 <= k < ws.len() ==> age <= saturated(now - (#[trigger] ws[k]).newest)
        },
    decreases ws.len(),
{
    if ws.len() > 0 {
        let rest = ws.drop_last();
        law_freshest_is_the_youngest(rest, now);
        assert forall|k: int| 0 <= k < rest.len() implies #[trigger] ws[k] == rest[k] by {}
        let n = ws.len() - 1;
        assert(ws[n] == ws.last());
        if rest.len() > 0 {
            let a = freshest(rest, now)->0;
            let k = choose|k: int|
                0 <= k < rest.len() && a == saturated(now - (#[trigger] rest[k]).newest);
            assert(ws[k] == rest[k]);
        }
    }
}

/// What is seen of the windows: how many there are, and where there are any, who holds their
/// intersection up and back, whether they intersect, and by how much they do or do not.
pub proof fn law_what_windows_show(h: RoundHealth, ws: Seq<EdgeWindow>, now: i64)
    requires
        ws.len() <= 4,
    ensures
        ({
            let r = with_windows(h, ws, now);
            &&& r.windows == ws.len()
            &&& r.freshest_age == freshest(ws, now)
            &&& ws.len() > 0 ==> r.blocker == blocker(ws).which && r.laggard == laggard(ws).which
            &&& common(ws) matches Some((lo, hi)) ==> r.overlap && r.width == (hi - lo) as i64
                && r.gap == h.gap
            &&& common(ws) is None && ws.len() > 0 ==> r.overlap == h.overlap && r.width == h.width
                && r.gap == (blocker(ws).oldest - laggard(ws).newest) as i64
            &&& ws.len() == 0 ==> r == RoundHealth { windows: 0, freshest_age: None, ..h }
            &&& r.chain_ok == h.chain_ok
            &&& r.writers_live == h.writers_live
            &&& r.writers_dead == h.writers_dead
            &&& r.slots_registered == h.slots_registered
            &&& r.slots_alive == h.slots_alive
        }),
{
}

/// A round adds to the sums what it was: short where an edge had no window, overlapping where it
/// says so, apart where all four were there and did not intersect; and only then its gap and the
/// edge that held it back.
pub proof fn law_what_a_round_adds(h: Health, r: RoundHealth)
    requires
        h.wf(),
        fits(h, r),
        r.overlap ==> r.windows == 4,
    ensures
        ({
            let g = added(h, r);
            let gone = !r.overlap && r.windows == 4;
            &&& g.rounds == h.rounds + 1
            &&& g.short - h.short == if r.windows != 4 {
                1int
            } else {
                0
            }
            &&& g.overlap - h.overlap == if r.overlap {
                1int
            } else {
                0
            }
            &&& g.gap_rounds - h.gap_rounds == if gone {
                1int
            } else {
                0
            }
            &&& g.live_rounds - h.live_rounds == if r.live() {
                1int
            } else {
                0
            }
            &&& g.chain_ok == h.chain_ok + r.chain_ok
            &&& g.width_sum == h.width_sum + if r.overlap {
                r.width as int
            } else {
                0
            }
            &&& g.gap_sum == h.gap_sum + if gone {
                r.gap as int
            } else {
                0
            }
            &&& g.gap_max == if gone && r.gap > h.gap_max {
                r.gap
            } else {
                h.gap_max
            }
            &&& gone && r.laggard == 0 ==> g.laggard0 == h.laggard0 + 1
            &&& gone && r.laggard == 1 ==> g.laggard1 == h.laggard1 + 1
            &&& gone && r.laggard == 2 ==> g.laggard2 == h.laggard2 + 1
            &&& gone && r.laggard >= 3 ==> g.laggard3 == h.laggard3 + 1
            &&& !gone ==> g.laggards() == h.laggards()
            &&& r.freshest_age matches Some(age) ==> {
                &&& g.freshest_rounds == h.freshest_rounds + 1
                &&& g.freshest_sum == h.freshest_sum + age
                &&& g.freshest_max == if age > h.freshest_max {
                    age
                } else {
                    h.freshest_max
                }
            }
            &&& r.freshest_age is None ==> g.freshest_rounds == h.freshest_rounds && g.freshest_sum
                == h.freshest_sum && g.freshest_max == h.freshest_max
            &&& g.writers_live_sum == h.writers_live_sum + r.writers_live
            &&& g.writers_dead_sum == h.writers_dead_sum + r.writers_dead
            &&& g.slots_registered_max >= r.slots_registered && g.slots_registered_max
                >= h.slots_registered_max && (g.slots_registered_max == r.slots_registered
                || g.slots_registered_max == h.slots_registered_max)
            &&& h.rounds == 0 ==> g.slots_alive_min == r.slots_alive
            &&& h.rounds > 0 ==> g.slots_alive_min <= r.slots_alive && g.slots_alive_min
                <= h.slots_alive_min && (g.slots_alive_min == r.slots_alive || g.slots_alive_min
                == h.slots_alive_min)
        }),
{
}

/// The edge that is blamed is the last of those that held the intersection back most often.
pub proof fn law_the_most_blamed(v: Seq<u64>)
    requires
        v.len() > 0,
    ensures
        0 <= most(v) < v.len(),
        forall|k: int| 0 <= k < v.len() ==> #[trigger] v[k] <= v[most(v)],
        forall|k: int| most(v) < k < v.len() ==> #[trigger] v[k] < v[most(v)],
    decreases v.len(),
{
    if v.len() > 1 {
        let rest = v.drop_last();
        law_the_most_blamed(rest);
        assert forall|k: int| 0 <= k < rest.len() implies #[trigger] v[k] == rest[k] by {}
        let m = most(rest);
        assert(v[m] == rest[m]);
    }
}

/// The line on the health of a run gives each number under the word for it.
pub proof fn law_health_is_told_by_name(
    elapsed: Seq<char>,
    rounds: u64,
    ok: u64,
    tried: u64,
    overlap: Seq<char>,
    window: Seq<char>,
    freshest: Seq<char>,
    writers: Seq<char>,
    registered: u64,
    alive: u64,
    live: Seq<char>,
)
    ensures
        ({
            let line = health_line(
                elapsed,
                rounds,
                ok,
                tried,
                overlap,
                window,
                freshest,
                writers,
                registered,
                alive,
                live,
            );
            &&& begins(line, "shm_torture: t="@ + elapsed)
            &&& holds(line, "s rounds="@ + digits(rounds as nat))
            &&& holds(line, " composed="@ + digits(ok as nat) + "/"@ + digits(tried as nat))
            &&& holds(line, " overlap="@ + overlap)
            &&& holds(line, "% window="@ + window)
            &&& holds(line, " freshest="@ + freshest)
            &&& holds(line, " writers="@ + writers)
            &&& holds(
                line,
                "/4 slots="@ + digits(registered as nat) + "reg/"@ + digits(alive as nat)
                    + "alive live="@ + live + "%"@,
            )
        }),
{
    let doc = health_line(
        elapsed,
        rounds,
        ok,
        tried,
        overlap,
        window,
        freshest,
        writers,
        registered,
        alive,
        live,
    );
    let a0 = "shm_torture: t="@;
    let a1 = a0 + elapsed;
    let a2 = a1 + ("s rounds="@ + digits(rounds as nat));
    let a3 = a2 + (" composed="@ + digits(ok as nat) + "/"@ + digits(tried as nat));
    let a4 = a3 + (" overlap="@ + overlap);
    let a5 = a4 + ("% window="@ + window);
    let a6 = a5 + (" freshest="@ + freshest);
    let a7 = a6 + (" writers="@ + writers);
    let a8 = a7 + ("/4 slots="@ + digits(registered as nat) + "reg/"@ + digits(alive as nat) + "alive live="@ + live + "%"@);
    assert(doc =~= a8);
    assert(doc.take(a8.len() as int) =~= a8);
    lemma_end_of_a_beginning(doc, a7, ("/4 slots="@ + digits(registered as nat) + "reg/"@ + digits(alive as nat) + "alive live="@ + live + "%"@));
    lemma_end_of_a_beginning(doc, a6, (" writers="@ + writers));
    lemma_end_of_a_beginning(doc, a5, (" freshest="@ + freshest));
    lemma_end_of_a_beginning(doc, a4, ("% window="@ + window));
    lemma_end_of_a_beginning(doc, a3, (" overlap="@ + overlap));
    lemma_end_of_a_beginning(doc, a2, (" composed="@ + digits(ok as nat) + "/"@ + digits(tried as nat)));
    lemma_end_of_a_beginning(doc, a1, ("s rounds="@ + digits(rounds as nat)));
    lemma_end_of_a_beginning(doc, a0, elapsed);
}

/// What is said of the rounds, with each number behind the words for it.
pub proof fn law_a_diagnosis_is_told_by_name(
    overlap: u64,
    rounds: u64,
    share: Seq<char>,
    short: u64,
    gap: Seq<char>,
    gap_worst: Seq<char>,
    worst: Seq<char>,
    freshest: Seq<char>,
    freshest_worst: Seq<char>,
    writers: Seq<char>,
    registered: u64,
    alive: u64,
)
    ensures
        ({
            let said = diagnosis_text(overlap, rounds, share, short, gap, gap_worst, worst, freshest, freshest_worst, writers, registered, alive);
            &&& begins(said, "the four chain windows intersected on "@ + digits(overlap as nat))
            &&& holds(said, "/"@ + digits(rounds as nat))
            &&& holds(said, " rounds ("@ + share)
            &&& holds(said, "%); on "@ + digits(short as nat))
            &&& holds(said, " rounds an edge had never been written at all. When they did not intersect the nearest pair was "@ + gap)
            &&& holds(said, " apart (worst "@ + gap_worst)
            &&& holds(said, ") and the edge holding the intersection back was most often "@ + worst)
            &&& holds(said, ". Averaged over the run the freshest of the four edges was "@ + freshest)
            &&& holds(said, " old (worst "@ + freshest_worst)
            &&& holds(said, ") and "@ + writers)
            &&& holds(said, " of the 4 chain edges had a *live* writer; "@ + digits(registered as nat))
            &&& holds(said, " participant slot(s) held a LIVE record at the high-water mark while as few as "@ + digits(alive as nat))
        }),
{
    let doc = diagnosis_text(overlap, rounds, share, short, gap, gap_worst, worst, freshest, freshest_worst, writers, registered, alive);
    let a0 = ("the four chain windows intersected on "@ + digits(overlap as nat));
    let a1 = a0 + ("/"@ + digits(rounds as nat));
    let a2 = a1 + (" rounds ("@ + share);
    let a3 = a2 + ("%); on "@ + digits(short as nat));
    let a4 = a3 + (" rounds an edge had never been written at all. When they did not intersect the nearest pair was "@ + gap);
    let a5 = a4 + (" apart (worst "@ + gap_worst);
    let a6 = a5 + (") and the edge holding the intersection back was most often "@ + worst);
    let a7 = a6 + (". Averaged over the run the freshest of the four edges was "@ + freshest);
    let a8 = a7 + (" old (worst "@ + freshest_worst);
    let a9 = a8 + (") and "@ + writers);
    let a10 = a9 + (" of the 4 chain edges had a *live* writer; "@ + digits(registered as nat));
    let a11 = a10 + (" participant slot(s) held a LIVE record at the high-water mark while as few as "@ + digits(alive as nat));
    let a12 = a11 + " were alive by the kernel's answer"@;
    assert(doc =~= a12);
    assert(doc.take(a12.len() as int) =~= a12);
    lemma_end_of_a_beginning(doc, a11, " were alive by the kernel's answer"@);
    lemma_end_of_a_beginning(doc, a10, (" participant slot(s) held a LIVE record at the high-water mark while as few as "@ + digits(alive as nat)));
    lemma_end_of_a_beginning(doc, a9, (" of the 4 chain edges had a *live* writer; "@ + digits(registered as nat)));
    lemma_end_of_a_beginning(doc, a8, (") and "@ + writers));
    lemma_end_of_a_beginning(doc, a7, (" old (worst "@ + freshest_worst));
    lemma_end_of_a_beginning(doc, a6, (". Averaged over the run the freshest of the four edges was "@ + freshest));
    lemma_end_of_a_beginning(doc, a5, (") and the edge holding the intersection back was most often "@ + worst));
    lemma_end_of_a_beginning(doc, a4, (" apart (worst "@ + gap_worst));
    lemma_end_of_a_beginning(doc, a3, (" rounds an edge had never been written at all. When they did not intersect the nearest pair was "@ + gap));
    lemma_end_of_a_beginning(doc, a2, ("%); on "@ + digits(short as nat)));
    lemma_end_of_a_beginning(doc, a1, (" rounds ("@ + share));
    lemma_end_of_a_beginning(doc, a0, ("/"@ + digits(rounds as nat)));
}

} // verus!
