//! The driver: whom it kills and when, and when it gives the run up.

use vstd::prelude::*;

use super::args::Args;
use super::health::Reads;
use super::migration::{count_text, Migration};
use super::population::is_pid;
use super::worker::{
    default_worker, law_a_child_is_as_it_was_asked_for, read_from, Child, ChildErrorView, WorkerArgs,
};
use super::{
    EXIT_VIOLATION, MIN_ATTACHED_FOR_ORDINARY_KILL, MIN_OWNER_KILL_DEFERRAL_BUDGET_NS,
    OWNER_KILL_DEFERRAL_BUDGET_INTERVALS, OWNER_KILL_DEFERRAL_RETRY_NS, OWNER_KILL_FIRST_NS,
};
use crate::text::{
    begins, decimal, digits, holds, law_numbers_read_back, lemma_end_of_a_beginning, lemma_texts_push,
    texts,
};

verus! {

// ---------------------------------------------------------------------------
// The state of a run
// ---------------------------------------------------------------------------

/// The state of a run. Times are nanoseconds from its start.
pub struct Driver {
    /// How often the owner is killed.
    pub every_ns: Option<u128>,
    /// How many of the first owner kills are deferred whatever the population is.
    pub force_deferrals: usize,
    pub kills: usize,
    /// Ordinary draws that landed on the role holder.
    pub role_holder_draws_skipped: usize,
    /// Ordinary draws against an attached pool at its floor.
    pub thin_pool_draws_skipped: usize,
    pub owner_kills_deferred: usize,
    /// When the deferrals that have not cleared yet began.
    pub deferring_since: Option<u128>,
    pub deferrals_in_a_row: usize,
    /// Every owner kill that came due, deferred or not.
    pub owner_kill_attempts: usize,
    pub next_owner_kill: Option<u128>,
    pub rounds: u64,
    pub reads: Reads,
    /// The owner kills that were made.
    pub migrations: Vec<Migration>,
}

/// How long a deferral may last: some intervals, and at least a second.
pub open spec fn budget(every_ns: u128) -> u128 {
    let three = every_ns * OWNER_KILL_DEFERRAL_BUDGET_INTERVALS;
    if three > u128::MAX {
        u128::MAX
    } else if three < MIN_OWNER_KILL_DEFERRAL_BUDGET_NS {
        MIN_OWNER_KILL_DEFERRAL_BUDGET_NS
    } else {
        three as u128
    }
}

/// How long a deferral may last.
pub fn deferral_budget(every_ns: u128) -> (r: u128)
    ensures
        r == budget(every_ns),
{
    let three: u128 = match every_ns.checked_mul(OWNER_KILL_DEFERRAL_BUDGET_INTERVALS) {
        Some(t) => t,
        None => u128::MAX,
    };
    if three < MIN_OWNER_KILL_DEFERRAL_BUDGET_NS {
        MIN_OWNER_KILL_DEFERRAL_BUDGET_NS
    } else {
        three
    }
}

/// What an owner kill comes to.
#[derive(Debug, Clone, Copy, PartialEq, Eq, Structural)]
pub enum Finding {
    /// A kill that was made, and left somebody to recover.
    Made,
    /// A deferral that may still clear.
    Deferred,
    /// A deferral with nobody attached, who could clear it.
    Starved,
    /// Deferrals past their budget.
    Stuck,
    /// A kill after which nobody joined and nobody was there to inherit.
    Unrecoverable,
}

impl Finding {
    /// Whether the run is given up.
    pub open spec fn wedged(self) -> bool {
        self is Starved || self is Stuck || self is Unrecoverable
    }

    pub fn is_wedge(self) -> (r: bool)
        ensures
            r == self.wedged(),
    {
        match self {
            Finding::Made | Finding::Deferred => false,
            _ => true,
        }
    }
}

/// What an owner kill comes to, with the deferrals before it since a time.
pub open spec fn found(m: Migration, since: Option<u128>, now: u128, every_ns: u128) -> Finding {
    if m.deferred {
        let began = match since {
            Some(t) => t,
            None => now,
        };
        if m.heirs_before == Some(0u64) {
            Finding::Starved
        } else if now >= began && now - began >= budget(every_ns) {
            Finding::Stuck
        } else {
            Finding::Deferred
        }
    } else if m.recovered_ms is None && m.heirs_at_kill == Some(0u64) {
        Finding::Unrecoverable
    } else {
        Finding::Made
    }
}

/// A deferral whose budget is spent always ends the run, and so does one with nobody left;
/// what is put off is never put off for ever.
pub proof fn law_a_deferral_clears_or_ends_the_run(
    m: Migration,
    since: u128,
    now: u128,
    every_ns: u128,
)
    requires
        m.deferred,
        now >= since,
    ensures
        now - since >= budget(every_ns) ==> found(m, Some(since), now, every_ns).wedged(),
        m.heirs_before == Some(0u64) ==> found(m, Some(since), now, every_ns).wedged(),
{
}

/// Whom an ordinary draw takes.
#[derive(Debug, Clone, Copy, PartialEq, Eq, Structural)]
pub enum Draw {
    /// Nobody: the attached pool is at its floor.
    ThinPool,
    /// Nobody: the draw landed on the role holder.
    RoleHolder,
    /// Nobody: the slot is empty.
    Empty,
    Kill,
}

/// Whom an ordinary draw takes, with so many attached.
pub open spec fn drawn(alive: u64, kid: Option<u32>, role_holder: Option<u32>) -> Draw {
    if alive < MIN_ATTACHED_FOR_ORDINARY_KILL {
        Draw::ThinPool
    } else {
        match kid {
            None => Draw::Empty,
            Some(pid) => if role_holder == Some(pid) {
                Draw::RoleHolder
            } else {
                Draw::Kill
            },
        }
    }
}

/// An ordinary draw never takes the role holder, and never draws the fleet down to the role
/// holder alone.
pub proof fn law_ordinary_draws_spare_the_role_holder(
    alive: u64,
    kid: Option<u32>,
    role_holder: Option<u32>,
)
    ensures
        drawn(alive, kid, role_holder) is Kill ==> kid is Some && kid != role_holder && alive
            >= MIN_ATTACHED_FOR_ORDINARY_KILL,
{
}

impl Driver {
    /// Every count has room for one more.
    pub open spec fn has_room(self) -> bool {
        &&& self.kills < usize::MAX
        &&& self.role_holder_draws_skipped < usize::MAX
        &&& self.thin_pool_draws_skipped < usize::MAX
        &&& self.owner_kills_deferred < usize::MAX
        &&& self.deferrals_in_a_row < usize::MAX
        &&& self.owner_kill_attempts < usize::MAX
        &&& self.migrations@.len() < usize::MAX
    }

    /// A run at its start: the first owner kill is due once the rings are full.
    pub fn new(every_ns: Option<u128>, force_deferrals: usize) -> (r: Driver)
        ensures
            r.every_ns == every_ns,
            r.force_deferrals == force_deferrals,
            r.kills == 0,
            r.role_holder_draws_skipped == 0,
            r.thin_pool_draws_skipped == 0,
            r.owner_kills_deferred == 0,
            r.deferring_since is None,
            r.deferrals_in_a_row == 0,
            r.owner_kill_attempts == 0,
            r.next_owner_kill == (match every_ns {
                Some(_) => Some(OWNER_KILL_FIRST_NS),
                None => None,
            }),
            r.rounds == 0,
            r.reads.chain == 0,
            r.reads.edge == 0,
            r.migrations@.len() == 0,
            r.has_room(),
    {
        Driver {
            every_ns,
            force_deferrals,
            kills: 0,
            role_holder_draws_skipped: 0,
            thin_pool_draws_skipped: 0,
            owner_kills_deferred: 0,
            deferring_since: None,
            deferrals_in_a_row: 0,
            owner_kill_attempts: 0,
            next_owner_kill: match every_ns {
                Some(_) => Some(OWNER_KILL_FIRST_NS),
                None => None,
            },
            rounds: 0,
            reads: Reads::none(),
            migrations: Vec::new(),
        }
    }

    /// A round of reads.
    pub fn round(&mut self, reads: Reads, rounds: u64)
        requires
            old(self).reads.chain + reads.chain <= u64::MAX,
            old(self).reads.edge + reads.edge <= u64::MAX,
            old(self).rounds + rounds <= u64::MAX,
        ensures
            *final(self) == (Driver {
                reads: Reads {
                    chain: (old(self).reads.chain + reads.chain) as u64,
                    edge: (old(self).reads.edge + reads.edge) as u64,
                },
                rounds: (old(self).rounds + rounds) as u64,
                ..*old(self)
            }),
    {
        self.reads.chain = self.reads.chain + reads.chain;
        self.reads.edge = self.reads.edge + reads.edge;
        self.rounds = self.rounds + rounds;
    }

    /// Whether an owner kill is due.
    pub fn owner_kill_due(&self, now: u128) -> (r: bool)
        ensures
            r == (self.every_ns is Some && (self.next_owner_kill matches Some(at) && now >= at)),
    {
        match (self.every_ns, self.next_owner_kill) {
            (Some(_), Some(at)) => now >= at,
            _ => false,
        }
    }

    /// Begins an owner kill: its number, and whether it is to be deferred whatever the
    /// population is.
    pub fn begin_owner_kill(&mut self) -> (r: (usize, bool))
        requires
            old(self).has_room(),
        ensures
            *final(self) == (Driver {
                owner_kill_attempts: (old(self).owner_kill_attempts + 1) as usize,
                ..*old(self)
            }),
            r.0 == old(self).migrations@.len() + 1,
            r.1 == (final(self).owner_kill_attempts <= old(self).force_deferrals),
    {
        self.owner_kill_attempts = self.owner_kill_attempts + 1;
        (self.migrations.len() + 1, self.owner_kill_attempts <= self.force_deferrals)
    }

    /// Settles an owner kill at a time: when the next is due, and whether the run goes on. A
    /// deferral is tried again soon, and stays out of the kills that were made.
    pub fn settle(&mut self, m: &Migration, now: u128) -> (r: Finding)
        requires
            old(self).has_room(),
            old(self).every_ns matches Some(every) && now + every <= u128::MAX && now
                + OWNER_KILL_DEFERRAL_RETRY_NS <= u128::MAX,
        ensures
            r == found(*m, old(self).deferring_since, now, old(self).every_ns->0),
            final(self).every_ns == old(self).every_ns,
            final(self).force_deferrals == old(self).force_deferrals,
            final(self).kills == old(self).kills,
            final(self).role_holder_draws_skipped == old(self).role_holder_draws_skipped,
            final(self).thin_pool_draws_skipped == old(self).thin_pool_draws_skipped,
            final(self).owner_kill_attempts == old(self).owner_kill_attempts,
            final(self).rounds == old(self).rounds,
            final(self).reads == old(self).reads,
            final(self).migrations == old(self).migrations,
            m.deferred ==> {
                let every = old(self).every_ns->0;
                let wait = if every < OWNER_KILL_DEFERRAL_RETRY_NS {
                    every
                } else {
                    OWNER_KILL_DEFERRAL_RETRY_NS
                };
                &&& final(self).next_owner_kill == Some((now + wait) as u128)
                &&& final(self).owner_kills_deferred == old(self).owner_kills_deferred + 1
                &&& final(self).deferrals_in_a_row == old(self).deferrals_in_a_row + 1
                &&& final(self).deferring_since == (match old(self).deferring_since {
                    Some(t) => Some(t),
                    None => Some(now),
                })
            },
            !m.deferred ==> {
                &&& final(self).next_owner_kill == Some((now + old(self).every_ns->0) as u128)
                &&& final(self).owner_kills_deferred == old(self).owner_kills_deferred
                &&& final(self).deferrals_in_a_row == 0
                &&& final(self).deferring_since is None
            },
    {
        let every: u128 = match self.every_ns {
            Some(e) => e,
            None => 0,
        };
        if !m.deferred {
            self.next_owner_kill = Some(now + every);
            self.deferring_since = None;
            self.deferrals_in_a_row = 0;
            let alone = match m.heirs_at_kill {
                Some(c) => c == 0,
                None => false,
            };
            return if m.recovered_ms.is_none() && alone {
                Finding::Unrecoverable
            } else {
                Finding::Made
            };
        }
        let wait: u128 = if every < OWNER_KILL_DEFERRAL_RETRY_NS {
            every
        } else {
            OWNER_KILL_DEFERRAL_RETRY_NS
        };
        self.next_owner_kill = Some(now + wait);
        self.owner_kills_deferred = self.owner_kills_deferred + 1;
        self.deferrals_in_a_row = self.deferrals_in_a_row + 1;
        let began: u128 = match self.deferring_since {
            Some(t) => t,
            None => now,
        };
        self.deferring_since = Some(began);
        let starved = match m.heirs_before {
            Some(c) => c == 0,
            None => false,
        };
        if starved {
            Finding::Starved
        } else if now >= began && now - began >= deferral_budget(every) {
            Finding::Stuck
        } else {
            Finding::Deferred
        }
    }

    /// Keeps a kill that was made.
    pub fn keep(&mut self, m: Migration)
        ensures
            final(self).migrations@ == (if m.deferred {
                old(self).migrations@
            } else {
                old(self).migrations@.push(m)
            }),
            *final(self) == (Driver { migrations: final(self).migrations, ..*old(self) }),
    {
        if !m.deferred {
            self.migrations.push(m);
        }
    }

    /// Draws a victim: the worker of a slot, with so many attached.
    pub fn draw(&mut self, alive: u64, kid: Option<u32>, role_holder: Option<u32>) -> (r: Draw)
        requires
            old(self).has_room(),
        ensures
            r == drawn(alive, kid, role_holder),
            *final(self) == (match r {
                Draw::ThinPool => Driver {
                    thin_pool_draws_skipped: (old(self).thin_pool_draws_skipped + 1) as usize,
                    ..*old(self)
                },
                Draw::RoleHolder => Driver {
                    role_holder_draws_skipped: (old(self).role_holder_draws_skipped + 1) as usize,
                    ..*old(self)
                },
                Draw::Empty => *old(self),
                Draw::Kill => Driver { kills: (old(self).kills + 1) as usize, ..*old(self) },
            }),
    {
        if alive < MIN_ATTACHED_FOR_ORDINARY_KILL {
            self.thin_pool_draws_skipped = self.thin_pool_draws_skipped + 1;
            return Draw::ThinPool;
        }
        match kid {
            None => Draw::Empty,
            Some(pid) => if is_pid(role_holder, pid) {
                self.role_holder_draws_skipped = self.role_holder_draws_skipped + 1;
                Draw::RoleHolder
            } else {
                self.kills = self.kills + 1;
                Draw::Kill
            },
        }
    }
}

// ---------------------------------------------------------------------------
// The run is given up
// ---------------------------------------------------------------------------

/// The number of the last of some kills after which a fresh process joined.
pub open spec fn last_recovered(v: Seq<Migration>) -> Option<usize>
    decreases v.len(),
{
    if v.len() == 0 {
        None
    } else if v.last().recovered_ms is Some {
        Some(v.last().n)
    } else {
        last_recovered(v.drop_last())
    }
}

pub open spec fn recovered_text(v: Seq<Migration>) -> Seq<char> {
    match last_recovered(v) {
        Some(n) => digits(n as nat),
        None => "none"@,
    }
}

fn say_recovered(v: &Vec<Migration>) -> (r: String)
    ensures
        r@ == recovered_text(v@),
{
    let mut i: usize = v.len();
    assert(v@.take(i as int) =~= v@);
    while i > 0
        invariant
            i <= v@.len(),
            last_recovered(v@.take(i as int)) == last_recovered(v@),
        decreases i,
    {
        assert(v@.take(i as int).last() == v@[i - 1]);
        assert(v@.take(i as int).drop_last() =~= v@.take(i - 1));
        if v[i - 1].recovered_ms.is_some() {
            return decimal(v[i - 1].n as u64);
        }
        i = i - 1;
    }
    "none".to_owned()
}

pub const STARVED: &'static str =
    "zero read-write participants were attached, so there was no heir to wait for — an ownerless arena admits no new one, so the population cannot recover on its own";

pub const STUCK: &'static str =
    "the fleet held only the role holder for every attempt in a row, so replacements are not completing their handshake between retries";

pub const POPULATION: &'static str =
    "POPULATION — no eligible heir remained to ask, so §3.5's trigger was never answered. This is the state the pre-kill census exists to prevent; reaching it means the census passed and the pool drained inside the vacancy";

/// What is said where a deferral did not clear.
pub open spec fn not_cleared(
    n: u64,
    why: Seq<char>,
    tally: Seq<char>,
    last: Seq<char>,
    deferred: u64,
    elapsed: Seq<char>,
    rounds: u64,
) -> Seq<char> {
    "owner kill "@
        + digits(n as nat)
        + " could not be attempted and the deferral did not clear: "@
        + why
        + ". §3.5's trigger outcomes at this instant: "@
        + tally
        + ". Last migration that recovered: "@
        + last
        + ". Deferrals so far: "@
        + digits(deferred as nat)
        + ". Elapsed "@
        + elapsed
        + "s, round "@
        + digits(rounds as nat)
        + ". A deferral exists so the arm never kills the last eligible heir; one that never clears is the absorbing state itself, and this run stops here rather than spending its remaining duration proving it again."@
}

fn say_not_cleared(
    n: u64,
    why: &str,
    tally: &str,
    last: &str,
    deferred: u64,
    elapsed: &str,
    rounds: u64,
) -> (r: String)
    ensures
        r@ == not_cleared(n, why@, tally@, last@, deferred, elapsed@, rounds),
{
    let mut s = "owner kill ".to_owned();
    s.append(decimal(n).as_str());
    s.append(" could not be attempted and the deferral did not clear: ");
    s.append(why);
    s.append(". §3.5's trigger outcomes at this instant: ");
    s.append(tally);
    s.append(". Last migration that recovered: ");
    s.append(last);
    s.append(". Deferrals so far: ");
    s.append(decimal(deferred).as_str());
    s.append(". Elapsed ");
    s.append(elapsed);
    s.append("s, round ");
    s.append(decimal(rounds).as_str());
    s.append(
        ". A deferral exists so the arm never kills the last eligible heir; one that never clears is the absorbing state itself, and this run stops here rather than spending its remaining duration proving it again.",
    );
    s
}

/// What is said where nobody is left to recover.
pub open spec fn unrecoverable(
    n: u64,
    class: Seq<char>,
    last: Seq<char>,
    first: Seq<char>,
    tally: Seq<char>,
    owner: Seq<char>,
    elapsed: Seq<char>,
    rounds: u64,
) -> Seq<char> {
    "owner kill "@
        + digits(n as nat)
        + " left the arena in an UNRECOVERABLE state, and the run stops here rather than reporting the same failure for every later kill. Classification: "@
        + class
        + ". Last migration that recovered: "@
        + last
        + ". Heirs attached at this kill: 0 (first round after: "@
        + first
        + "). §3.5 trigger outcomes at this instant: "@
        + tally
        + ". Recorded owner pid: "@
        + owner
        + ". Elapsed "@
        + elapsed
        + "s, round "@
        + digits(rounds as nat)
        + ". Held participant bytes at the refusal are in the `ArenaHeldButUnreachable` text above, including this driver's own slot — it holds one for the life of the run and never inherits, by design."@
}

fn say_unrecoverable(
    n: u64,
    class: &str,
    last: &str,
    first: &str,
    tally: &str,
    owner: &str,
    elapsed: &str,
    rounds: u64,
) -> (r: String)
    ensures
        r@ == unrecoverable(n, class@, last@, first@, tally@, owner@, elapsed@, rounds),
{
    let mut s = "owner kill ".to_owned();
    s.append(decimal(n).as_str());
    s.append(
        " left the arena in an UNRECOVERABLE state, and the run stops here rather than reporting the same failure for every later kill. Classification: ",
    );
    s.append(class);
    s.append(". Last migration that recovered: ");
    s.append(last);
    s.append(". Heirs attached at this kill: 0 (first round after: ");
    s.append(first);
    s.append("). §3.5 trigger outcomes at this instant: ");
    s.append(tally);
    s.append(". Recorded owner pid: ");
    s.append(owner);
    s.append(". Elapsed ");
    s.append(elapsed);
    s.append("s, round ");
    s.append(decimal(rounds).as_str());
    s.append(
        ". Held participant bytes at the refusal are in the `ArenaHeldButUnreachable` text above, including this driver's own slot — it holds one for the life of the run and never inherits, by design.",
    );
    s
}

pub open spec fn deferral_heading(
    n: u64,
    attempt: u64,
    elapsed: Seq<char>,
    budget: Seq<char>,
    starved: Seq<char>,
) -> Seq<char> {
    "at deferral of owner kill "@
        + digits(n as nat)
        + " (attempt "@
        + digits(attempt as nat)
        + " in a row, "@
        + elapsed
        + "s of "@
        + budget
        + "s budget, starved="@
        + starved
        + ")"@
}

fn say_deferral_heading(
    n: u64,
    attempt: u64,
    elapsed: &str,
    budget: &str,
    starved: &str,
) -> (r: String)
    ensures
        r@ == deferral_heading(n, attempt, elapsed@, budget@, starved@),
{
    let mut s = "at deferral of owner kill ".to_owned();
    s.append(decimal(n).as_str());
    s.append(" (attempt ");
    s.append(decimal(attempt).as_str());
    s.append(" in a row, ");
    s.append(elapsed);
    s.append("s of ");
    s.append(budget);
    s.append("s budget, starved=");
    s.append(starved);
    s.append(")");
    s
}

/// What the run knows where it is given up.
pub struct Situation {
    /// What the trigger answered.
    pub tally: String,
    /// Whom the marker names.
    pub owner: Option<u32>,
    /// Seconds from the start, with one decimal.
    pub elapsed: String,
}

pub open spec fn owner_text(owner: Option<u32>) -> Seq<char> {
    match owner {
        Some(p) => digits(p as nat),
        None => "none"@,
    }
}

/// Why the run is given up after an owner kill, where it is.
pub open spec fn wedge(d: Driver, m: Migration, f: Finding, s: Situation) -> Option<Seq<char>> {
    match f {
        Finding::Made | Finding::Deferred => None,
        Finding::Starved => Some(
            not_cleared(
                m.n as u64,
                STARVED@,
                s.tally@,
                recovered_text(d.migrations@),
                d.owner_kills_deferred as u64,
                s.elapsed@,
                d.rounds,
            ),
        ),
        Finding::Stuck => Some(
            not_cleared(
                m.n as u64,
                STUCK@,
                s.tally@,
                recovered_text(d.migrations@),
                d.owner_kills_deferred as u64,
                s.elapsed@,
                d.rounds,
            ),
        ),
        Finding::Unrecoverable => Some(
            unrecoverable(
                m.n as u64,
                POPULATION@,
                recovered_text(d.migrations@),
                count_text(m.heirs_first_round),
                s.tally@,
                owner_text(s.owner),
                s.elapsed@,
                d.rounds,
            ),
        ),
    }
}

impl Driver {
    /// Why the run is given up after an owner kill, where it is.
    pub fn wedge_text(&self, m: &Migration, f: Finding, s: &Situation) -> (r: Option<String>)
        ensures
            crate::report::text_of(r) == wedge(*self, *m, f, *s),
    {
        match f {
            Finding::Made | Finding::Deferred => None,
            Finding::Starved | Finding::Stuck => {
                let why = if f == Finding::Starved {
                    STARVED
                } else {
                    STUCK
                };
                Some(
                    say_not_cleared(
                        m.n as u64,
                        why,
                        s.tally.as_str(),
                        say_recovered(&self.migrations).as_str(),
                        self.owner_kills_deferred as u64,
                        s.elapsed.as_str(),
                        self.rounds,
                    ),
                )
            },
            Finding::Unrecoverable => {
                let first = match m.heirs_first_round {
                    Some(c) => decimal(c),
                    None => "?".to_owned(),
                };
                let owner = match s.owner {
                    Some(p) => decimal(p as u64),
                    None => "none".to_owned(),
                };
                Some(
                    say_unrecoverable(
                        m.n as u64,
                        POPULATION,
                        say_recovered(&self.migrations).as_str(),
                        first.as_str(),
                        s.tally.as_str(),
                        owner.as_str(),
                        s.elapsed.as_str(),
                        self.rounds,
                    ),
                )
            },
        }
    }

    /// The heading of the population that is printed at a deferral.
    pub fn deferral_text(&self, m: &Migration, elapsed: &str, budget: &str, starved: bool) -> (r:
        String)
        ensures
            r@ == deferral_heading(
                m.n as u64,
                self.deferrals_in_a_row as u64,
                elapsed@,
                budget@,
                if starved {
                    "true"@
                } else {
                    "false"@
                },
            ),
    {
        let flag = if starved {
            "true"
        } else {
            "false"
        };
        say_deferral_heading(m.n as u64, self.deferrals_in_a_row as u64, elapsed, budget, flag)
    }
}

// ---------------------------------------------------------------------------
// Children
// ---------------------------------------------------------------------------

/// What a child is started with.
#[derive(Debug, Clone, Copy, PartialEq, Eq, Structural)]
pub struct ChildSpec {
    pub inject: bool,
    pub readers_only: bool,
    pub no_inherit: bool,
    pub ballast_mb: usize,
}

impl ChildSpec {
    /// What the child of a slot is started with: only the first injects, so that no child
    /// detects its own corruption.
    pub fn of(a: &Args, slot: usize) -> (r: ChildSpec)
        ensures
            r == (ChildSpec {
                inject: a.inject && slot == 0,
                readers_only: a.readers_only,
                no_inherit: a.no_inherit,
                ballast_mb: a.victim_ballast_mb,
            }),
    {
        ChildSpec {
            inject: a.inject && slot == 0,
            readers_only: a.readers_only,
            no_inherit: a.no_inherit,
            ballast_mb: a.victim_ballast_mb,
        }
    }

    pub open spec fn argv(self, seed: u64) -> Seq<Seq<char>> {
        seq!["child"@, "--seed"@, digits(seed as nat)] + (if self.inject {
            seq!["--inject-violation"@]
        } else {
            seq![]
        }) + (if self.readers_only {
            seq!["--readers-only"@]
        } else {
            seq![]
        }) + (if self.no_inherit {
            seq!["--no-inherit"@]
        } else {
            seq![]
        }) + (if self.ballast_mb > 0 {
            seq!["--ballast-mb"@, digits(self.ballast_mb as nat)]
        } else {
            seq![]
        })
    }

    /// The arguments of the child.
    pub fn arguments(&self, seed: u64) -> (r: Vec<String>)
        ensures
            texts(r@) == self.argv(seed),
    {
        broadcast use lemma_texts_push;

        let mut v: Vec<String> = Vec::new();
        v.push("child".to_owned());
        v.push("--seed".to_owned());
        v.push(decimal(seed));
        if self.inject {
            v.push("--inject-violation".to_owned());
        }
        if self.readers_only {
            v.push("--readers-only".to_owned());
        }
        if self.no_inherit {
            v.push("--no-inherit".to_owned());
        }
        if self.ballast_mb > 0 {
            v.push("--ballast-mb".to_owned());
            v.push(decimal(self.ballast_mb as u64));
        }
        assert(texts(v@) =~= self.argv(seed));
        v
    }
}

/// What is said of a child that saw a bad transform.
pub open spec fn child_violation(seed: u64, who: Seq<char>) -> Seq<char> {
    "child (seed "@
        + digits(seed as nat)
        + who
        + ") reported an invariant violation; its `VIOLATION` line is on stderr above"@
}

fn say_child_violation(seed: u64, who: &str) -> (r: String)
    ensures
        r@ == child_violation(seed, who@),
{
    let mut s = "child (seed ".to_owned();
    s.append(decimal(seed).as_str());
    s.append(who);
    s.append(") reported an invariant violation; its `VIOLATION` line is on stderr above");
    s
}

/// What is said of a child that exited with a code, where it saw a bad transform. Any other
/// code is expected: a joiner whose owner died in the handshake.
pub fn exit_violation(code: Option<i32>, seed: u64, inject: bool) -> (r: Option<String>)
    ensures
        crate::report::text_of(r) == (if code == Some(EXIT_VIOLATION) {
            Some(
                child_violation(
                    seed,
                    if inject {
                        ", the injector"@
                    } else {
                        ""@
                    },
                ),
            )
        } else {
            None
        }),
{
    match code {
        Some(c) => if c == EXIT_VIOLATION {
            let who = if inject {
                ", the injector"
            } else {
                ""
            };
            Some(say_child_violation(seed, who))
        } else {
            None
        },
        None => None,
    }
}

/// How often the owner child is tried.
pub const OWNER_ATTEMPTS: usize = 6;

/// What is said of an owner child that did not come up.
pub open spec fn owner_attempt(attempt: u64, status: Seq<char>, armed: Seq<char>) -> Seq<char> {
    "attempt "@
        + digits(attempt as nat)
        + ": the owner child exited before reporting ready ("@
        + status
        + ")"@
        + armed
}

fn say_owner_attempt(attempt: u64, status: &str, armed: &str) -> (r: String)
    ensures
        r@ == owner_attempt(attempt, status@, armed@),
{
    let mut s = "attempt ".to_owned();
    s.append(decimal(attempt).as_str());
    s.append(": the owner child exited before reporting ready (");
    s.append(status);
    s.append(")");
    s.append(armed);
    s
}

/// What is said where none came up.
pub open spec fn no_owner(last: Seq<char>) -> Seq<char> {
    "the owner child never came up after six attempts. "@
        + last
        + ". Without an owner nothing serves the rendezvous and no child can join, so the run would validate nothing while printing that it validated nothing. If this is a `--crash-site` probe naming a site on the *creation* path (`open.*`, `topo.after_copy_before_publish`, `intern.*`), every attempt aborts by construction and that is the probe answering `reachable` rather than a defect: an ordinary `--crash-points` run redraws the site on each attempt."@
}

fn say_no_owner(last: &str) -> (r: String)
    ensures
        r@ == no_owner(last@),
{
    let mut s = "the owner child never came up after six attempts. ".to_owned();
    s.append(last);
    s.append(
        ". Without an owner nothing serves the rendezvous and no child can join, so the run would validate nothing while printing that it validated nothing. If this is a `--crash-site` probe naming a site on the *creation* path (`open.*`, `topo.after_copy_before_publish`, `intern.*`), every attempt aborts by construction and that is the probe answering `reachable` rather than a defect: an ordinary `--crash-points` run redraws the site on each attempt.",
    );
    s
}

/// What is said of an owner child that did not come up: its exit status as it prints, and
/// what it was armed with.
pub fn owner_attempt_text(attempt: usize, status: &str, crash_at: &Option<String>) -> (r: String)
    requires
        attempt < OWNER_ATTEMPTS,
    ensures
        r@ == owner_attempt(
            (attempt + 1) as u64,
            status@,
            match *crash_at {
                Some(c) => ", armed at "@ + c@,
                None => ""@,
            },
        ),
{
    let mut armed = "".to_owned();
    match crash_at {
        Some(c) => {
            armed = ", armed at ".to_owned();
            armed.append(c.as_str());
        },
        None => {},
    }
    say_owner_attempt((attempt + 1) as u64, status, armed.as_str())
}

/// What is said where no owner child came up.
pub fn no_owner_text(last: &str) -> (r: String)
    ensures
        r@ == no_owner(last@),
{
    say_no_owner(last)
}

/// Deferrals last three intervals between owner kills and no less than a second.
pub proof fn law_how_long_a_kill_is_put_off(every_ns: u128)
    ensures
        every_ns < 333_333_334 ==> budget(every_ns) == 1_000_000_000,
        333_333_334 <= every_ns <= u128::MAX / 3 ==> budget(every_ns) == 3 * every_ns,
        every_ns > u128::MAX / 3 ==> budget(every_ns) == u128::MAX,
{
}

/// A deferral is starved exactly where nobody is attached, and stuck where somebody is and three
/// intervals are over; a kill that was made cannot be recovered from exactly where nobody joined
/// after it and nobody was left. Only these end the run.
pub proof fn law_what_ends_a_run(m: Migration, since: Option<u128>, now: u128, every_ns: u128)
    ensures
        ({
            let f = found(m, since, now, every_ns);
            let began = match since {
                Some(t) => t,
                None => now,
            };
            &&& f is Starved <==> m.deferred && m.heirs_before == Some(0u64)
            &&& f is Stuck <==> m.deferred && m.heirs_before != Some(0u64) && now - began
                >= budget(every_ns)
            &&& f is Unrecoverable <==> !m.deferred && m.recovered_ms is None && m.heirs_at_kill
                == Some(0u64)
            &&& f is Made || f is Unrecoverable <==> !m.deferred
            &&& f.wedged() <==> f is Starved || f is Stuck || f is Unrecoverable
        }),
{
}

/// An ordinary draw kills exactly where three or more are attached and it lands on a worker that
/// does not hold the role; and with fewer than three it is not even looked at.
pub proof fn law_whom_a_draw_kills(alive: u64, kid: Option<u32>, role_holder: Option<u32>)
    ensures
        drawn(alive, kid, role_holder) is ThinPool <==> alive < 3,
        drawn(alive, kid, role_holder) is Kill <==> alive >= 3 && kid is Some && kid != role_holder,
        drawn(alive, kid, role_holder) is RoleHolder <==> alive >= 3 && kid is Some && kid
            == role_holder,
        drawn(alive, kid, role_holder) is Empty <==> alive >= 3 && kid is None,
{
}

/// The migration that is named is the last that recovered.
pub proof fn law_the_last_that_recovered(v: Seq<Migration>)
    ensures
        last_recovered(v) is None <==> forall|j: int|
            0 <= j < v.len() ==> (#[trigger] v[j]).recovered_ms is None,
        last_recovered(v) matches Some(n) ==> exists|j: int|
            0 <= j < v.len() && (#[trigger] v[j]).recovered_ms is Some && v[j].n == n && forall|
                k: int,
            |
                j < k < v.len() ==> (#[trigger] v[k]).recovered_ms is None,
    decreases v.len(),
{
    if v.len() > 0 {
        if v.last().recovered_ms is None {
            let rest = v.drop_last();
            law_the_last_that_recovered(rest);
            match last_recovered(rest) {
                None => {
                    assert forall|j: int| 0 <= j < v.len() implies (
                    #[trigger] v[j]).recovered_ms is None by {
                        if j < v.len() - 1 {
                            assert(v[j] == rest[j]);
                        }
                    }
                },
                Some(n) => {
                    let j = choose|j: int|
                        0 <= j < rest.len() && (#[trigger] rest[j]).recovered_ms is Some
                            && rest[j].n == n && forall|k: int|
                            j < k < rest.len() ==> (#[trigger] rest[k]).recovered_ms is None;
                    assert(v[j] == rest[j]);
                    assert forall|k: int| j < k < v.len() implies (
                    #[trigger] v[k]).recovered_ms is None by {
                        if k < v.len() - 1 {
                            assert(v[k] == rest[k]);
                        }
                    }
                },
            }
        } else {
            assert(v[v.len() - 1].recovered_ms is Some);
        }
    }
}

/// What a child is started with is what it reads: its seed, and everything that is asked of it.
pub proof fn law_a_child_reads_what_it_is_started_with(c: ChildSpec, seed: u64)
    ensures
        c.argv(seed)[0] == "child"@,
        read_from(c.argv(seed).skip(1), 0, default_worker()) == Ok::<Child, ChildErrorView>(
            Child::Worker(
                WorkerArgs {
                    seed,
                    inject: c.inject,
                    readers_only: c.readers_only,
                    no_inherit: c.no_inherit,
                    ballast_mb: c.ballast_mb,
                },
            ),
        ),
{
    let v = c.argv(seed).skip(1);
    let a = default_worker();
    law_numbers_read_back(seed);
    law_numbers_read_back(c.ballast_mb as u64);
    assert(v[0] == "--seed"@ && v[1] == digits(seed as nat));
    law_a_child_is_as_it_was_asked_for(v, 0, a);
    let a1 = WorkerArgs { seed, ..a };
    assert(read_from(v, 0, a) == read_from(v, 2, a1));
    let i1 = if c.inject {
        3int
    } else {
        2
    };
    let a2 = WorkerArgs { inject: c.inject, ..a1 };
    if c.inject {
        assert(v[2] == "--inject-violation"@);
        law_a_child_is_as_it_was_asked_for(v, 2, a1);
    }
    assert(read_from(v, 0, a) == read_from(v, i1, a2));
    let i2 = if c.readers_only {
        i1 + 1
    } else {
        i1
    };
    let a3 = WorkerArgs { readers_only: c.readers_only, ..a2 };
    if c.readers_only {
        assert(v[i1] == "--readers-only"@);
        law_a_child_is_as_it_was_asked_for(v, i1, a2);
    }
    assert(read_from(v, 0, a) == read_from(v, i2, a3));
    let i3 = if c.no_inherit {
        i2 + 1
    } else {
        i2
    };
    let a4 = WorkerArgs { no_inherit: c.no_inherit, ..a3 };
    if c.no_inherit {
        assert(v[i2] == "--no-inherit"@);
        law_a_child_is_as_it_was_asked_for(v, i2, a3);
    }
    assert(read_from(v, 0, a) == read_from(v, i3, a4));
    if c.ballast_mb > 0 {
        assert(v[i3] == "--ballast-mb"@ && v[i3 + 1] == digits(c.ballast_mb as nat));
        assert(v.len() == i3 + 2);
        law_a_child_is_as_it_was_asked_for(v, i3, a4);
        assert(read_from(v, i3, a4) == read_from(
            v,
            i3 + 2,
            WorkerArgs { ballast_mb: c.ballast_mb, ..a4 },
        ));
    } else {
        assert(v.len() == i3);
    }
}

/// A run is given up exactly where nobody can clear a deferral, none clears in time, or nobody
/// is left to recover.
pub proof fn law_when_a_run_is_given_up(d: Driver, m: Migration, f: Finding, s: Situation)
    ensures
        wedge(d, m, f, s) is Some <==> f is Starved || f is Stuck || f is Unrecoverable,
        f is Starved ==> wedge(d, m, f, s) == Some(
            not_cleared(
                m.n as u64,
                STARVED@,
                s.tally@,
                recovered_text(d.migrations@),
                d.owner_kills_deferred as u64,
                s.elapsed@,
                d.rounds,
            ),
        ),
        f is Stuck ==> wedge(d, m, f, s) == Some(
            not_cleared(
                m.n as u64,
                STUCK@,
                s.tally@,
                recovered_text(d.migrations@),
                d.owner_kills_deferred as u64,
                s.elapsed@,
                d.rounds,
            ),
        ),
        f is Unrecoverable ==> (wedge(d, m, f, s) matches Some(said) && holds(
            said,
            ". Last migration that recovered: "@ + recovered_text(d.migrations@),
        )),
        last_recovered(d.migrations@) matches Some(n) ==> recovered_text(d.migrations@) == digits(
            n as nat,
        ),
        last_recovered(d.migrations@) is None ==> recovered_text(d.migrations@) == "none"@,
{
    if f is Unrecoverable {
        law_an_unrecoverable_arena_is_told_by_name(
            m.n as u64,
            POPULATION@,
            recovered_text(d.migrations@),
            count_text(m.heirs_first_round),
            s.tally@,
            owner_text(s.owner),
            s.elapsed@,
            d.rounds,
        );
    }
}

/// What is said of a deferral that did not clear, with each thing behind the words for it.
pub proof fn law_a_deferral_is_told_by_name(
    n: u64,
    why: Seq<char>,
    tally: Seq<char>,
    last: Seq<char>,
    deferred: u64,
    elapsed: Seq<char>,
    rounds: u64,
)
    ensures
        ({
            let said = not_cleared(n, why, tally, last, deferred, elapsed, rounds);
            &&& begins(said, "owner kill "@ + digits(n as nat))
            &&& holds(said, why)
            &&& holds(said, ". §3.5's trigger outcomes at this instant: "@ + tally)
            &&& holds(said, ". Last migration that recovered: "@ + last)
            &&& holds(said, ". Deferrals so far: "@ + digits(deferred as nat))
            &&& holds(said, ". Elapsed "@ + elapsed)
            &&& holds(said, "s, round "@ + digits(rounds as nat))
        }),
{
    let doc = not_cleared(n, why, tally, last, deferred, elapsed, rounds);
    let a0 = "owner kill "@;
    let a1 = a0 + digits(n as nat);
    let a2 = a1 + " could not be attempted and the deferral did not clear: "@;
    let a3 = a2 + why;
    let a4 = a3 + (". §3.5's trigger outcomes at this instant: "@ + tally);
    let a5 = a4 + (". Last migration that recovered: "@ + last);
    let a6 = a5 + (". Deferrals so far: "@ + digits(deferred as nat));
    let a7 = a6 + (". Elapsed "@ + elapsed);
    let a8 = a7 + ("s, round "@ + digits(rounds as nat));
    let a9 = a8 + ". A deferral exists so the arm never kills the last eligible heir; one that never clears is the absorbing state itself, and this run stops here rather than spending its remaining duration proving it again."@;
    assert(doc =~= a9);
    assert(doc.take(a9.len() as int) =~= a9);
    lemma_end_of_a_beginning(doc, a8, ". A deferral exists so the arm never kills the last eligible heir; one that never clears is the absorbing state itself, and this run stops here rather than spending its remaining duration proving it again."@);
    lemma_end_of_a_beginning(doc, a7, ("s, round "@ + digits(rounds as nat)));
    lemma_end_of_a_beginning(doc, a6, (". Elapsed "@ + elapsed));
    lemma_end_of_a_beginning(doc, a5, (". Deferrals so far: "@ + digits(deferred as nat)));
    lemma_end_of_a_beginning(doc, a4, (". Last migration that recovered: "@ + last));
    lemma_end_of_a_beginning(doc, a3, (". §3.5's trigger outcomes at this instant: "@ + tally));
    lemma_end_of_a_beginning(doc, a2, why);
    lemma_end_of_a_beginning(doc, a1, " could not be attempted and the deferral did not clear: "@);
    lemma_end_of_a_beginning(doc, a0, digits(n as nat));
}

/// What is said of an arena that cannot recover, with each thing behind the words for it.
pub proof fn law_an_unrecoverable_arena_is_told_by_name(
    n: u64,
    class: Seq<char>,
    last: Seq<char>,
    first: Seq<char>,
    tally: Seq<char>,
    owner: Seq<char>,
    elapsed: Seq<char>,
    rounds: u64,
)
    ensures
        ({
            let said = unrecoverable(n, class, last, first, tally, owner, elapsed, rounds);
            &&& begins(said, "owner kill "@ + digits(n as nat))
            &&& holds(said, class)
            &&& holds(said, ". Last migration that recovered: "@ + last)
            &&& holds(said, ". Heirs attached at this kill: 0 (first round after: "@ + first)
            &&& holds(said, "). §3.5 trigger outcomes at this instant: "@ + tally)
            &&& holds(said, ". Recorded owner pid: "@ + owner)
            &&& holds(said, ". Elapsed "@ + elapsed)
            &&& holds(said, "s, round "@ + digits(rounds as nat))
        }),
{
    let doc = unrecoverable(n, class, last, first, tally, owner, elapsed, rounds);
    let a0 = "owner kill "@;
    let a1 = a0 + digits(n as nat);
    let a2 = a1 + " left the arena in an UNRECOVERABLE state, and the run stops here rather than reporting the same failure for every later kill. Classification: "@;
    let a3 = a2 + class;
    let a4 = a3 + (". Last migration that recovered: "@ + last);
    let a5 = a4 + (". Heirs attached at this kill: 0 (first round after: "@ + first);
    let a6 = a5 + ("). §3.5 trigger outcomes at this instant: "@ + tally);
    let a7 = a6 + (". Recorded owner pid: "@ + owner);
    let a8 = a7 + (". Elapsed "@ + elapsed);
    let a9 = a8 + ("s, round "@ + digits(rounds as nat));
    let a10 = a9 + ". Held participant bytes at the refusal are in the `ArenaHeldButUnreachable` text above, including this driver's own slot — it holds one for the life of the run and never inherits, by design."@;
    assert(doc =~= a10);
    assert(doc.take(a10.len() as int) =~= a10);
    lemma_end_of_a_beginning(doc, a9, ". Held participant bytes at the refusal are in the `ArenaHeldButUnreachable` text above, including this driver's own slot — it holds one for the life of the run and never inherits, by design."@);
    lemma_end_of_a_beginning(doc, a8, ("s, round "@ + digits(rounds as nat)));
    lemma_end_of_a_beginning(doc, a7, (". Elapsed "@ + elapsed));
    lemma_end_of_a_beginning(doc, a6, (". Recorded owner pid: "@ + owner));
    lemma_end_of_a_beginning(doc, a5, ("). §3.5 trigger outcomes at this instant: "@ + tally));
    lemma_end_of_a_beginning(doc, a4, (". Heirs attached at this kill: 0 (first round after: "@ + first));
    lemma_end_of_a_beginning(doc, a3, (". Last migration that recovered: "@ + last));
    lemma_end_of_a_beginning(doc, a2, class);
    lemma_end_of_a_beginning(doc, a1, " left the arena in an UNRECOVERABLE state, and the run stops here rather than reporting the same failure for every later kill. Classification: "@);
    lemma_end_of_a_beginning(doc, a0, digits(n as nat));
}

/// The heading of a deferral, with each thing behind the words for it.
pub proof fn law_a_deferral_has_its_heading(
    n: u64,
    attempt: u64,
    elapsed: Seq<char>,
    budget: Seq<char>,
    starved: Seq<char>,
)
    ensures
        ({
            let said = deferral_heading(n, attempt, elapsed, budget, starved);
            &&& begins(said, "at deferral of owner kill "@ + digits(n as nat))
            &&& holds(said, " (attempt "@ + digits(attempt as nat))
            &&& holds(said, " in a row, "@ + elapsed)
            &&& holds(said, "s of "@ + budget)
            &&& holds(said, "s budget, starved="@ + starved)
        }),
{
    let doc = deferral_heading(n, attempt, elapsed, budget, starved);
    let a0 = ("at deferral of owner kill "@ + digits(n as nat));
    let a1 = a0 + (" (attempt "@ + digits(attempt as nat));
    let a2 = a1 + (" in a row, "@ + elapsed);
    let a3 = a2 + ("s of "@ + budget);
    let a4 = a3 + ("s budget, starved="@ + starved);
    let a5 = a4 + ")"@;
    assert(doc =~= a5);
    assert(doc.take(a5.len() as int) =~= a5);
    lemma_end_of_a_beginning(doc, a4, ")"@);
    lemma_end_of_a_beginning(doc, a3, ("s budget, starved="@ + starved));
    lemma_end_of_a_beginning(doc, a2, ("s of "@ + budget));
    lemma_end_of_a_beginning(doc, a1, (" in a row, "@ + elapsed));
    lemma_end_of_a_beginning(doc, a0, (" (attempt "@ + digits(attempt as nat)));
}

/// An owner that did not come up is told with its attempt and its exit.
pub proof fn law_a_failed_owner_is_told(
    attempt: u64,
    status: Seq<char>,
    armed: Seq<char>,
)
    ensures
        ({
            let said = owner_attempt(attempt, status, armed);
            &&& begins(said, "attempt "@ + digits(attempt as nat))
            &&& holds(said, ": the owner child exited before reporting ready ("@ + status)
            &&& holds(said, ")"@ + armed)
        }),
{
    let doc = owner_attempt(attempt, status, armed);
    let a0 = ("attempt "@ + digits(attempt as nat));
    let a1 = a0 + (": the owner child exited before reporting ready ("@ + status);
    let a2 = a1 + (")"@ + armed);
    assert(doc =~= a2);
    assert(doc.take(a2.len() as int) =~= a2);
    lemma_end_of_a_beginning(doc, a1, (")"@ + armed));
    lemma_end_of_a_beginning(doc, a0, (": the owner child exited before reporting ready ("@ + status));
}

} // verus!
