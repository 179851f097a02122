//! The death of the owner of the rendezvous, and what the migration of its role owes.

use vstd::prelude::*;

use super::health::Reads;
use super::population::SlotSeen;
use super::{MIGRATION_OBSERVE_EVERY_NS, OWNER_RECOVERY_DEADLINE_NS};
use crate::report::text_of;
use crate::text::{begins, decimal, digits, holds, lemma_end_of_a_beginning};

verus! {

/// One owner kill and everything that the run learned from it.
pub struct Migration {
    pub n: usize,
    /// Whom the kill took.
    pub victim: Option<u32>,
    /// How many milliseconds after the kill a fresh process joined.
    pub recovered_ms: Option<String>,
    /// How many survivors recorded an inheritance.
    pub inherits: usize,
    /// What the observer validated while the role was vacant.
    pub reads: Reads,
    pub rounds: u64,
    /// Whether it had validated anything on the round before.
    pub read_before: bool,
    /// The kill was put off: nobody but the role holder was there to inherit.
    pub deferred: bool,
    /// Participants attached before the kill, the role holder among them.
    pub heirs_before: Option<u64>,
    /// Participants attached once the victim was reaped.
    pub heirs_at_kill: Option<u64>,
    /// The same on the first round after the kill.
    pub heirs_first_round: Option<u64>,
    /// How many milliseconds the victim took to be reaped.
    pub reaped_ms: Option<String>,
    /// The slots behind `heirs_before`.
    pub before_seen: Vec<SlotSeen>,
    /// The slots behind `heirs_at_kill`.
    pub at_kill_seen: Vec<SlotSeen>,
}

/// What is to be done about the owner.
#[derive(Debug, Clone, Copy, PartialEq, Eq, Structural)]
pub enum Decision {
    /// The marker names nobody.
    NoOwner,
    /// Killing would leave nobody to inherit.
    Defer,
    Kill(u32),
}

/// What is to be done about the owner that the marker names, with so many attached.
pub open spec fn decided(marker: Option<u32>, heirs: u64, force_defer: bool) -> Decision {
    match marker {
        None => Decision::NoOwner,
        Some(pid) => if force_defer || heirs < 2 {
            Decision::Defer
        } else {
            Decision::Kill(pid)
        },
    }
}

/// The last participant that could inherit is never killed.
pub proof fn law_the_last_heir_is_spared(marker: Option<u32>, heirs: u64, force_defer: bool)
    ensures
        decided(marker, heirs, force_defer) is Kill ==> heirs >= 2,
{
}

/// Where a process is among those that the driver started.
#[derive(Debug, Clone, Copy, PartialEq, Eq, Structural)]
pub enum Victim {
    OwnerChild,
    Worker(usize),
    /// None of them, or one that is gone: it is not signalled.
    Stranger,
}

/// The first worker of a process id.
pub open spec fn worker_at(kids: Seq<Option<u32>>, pid: u32) -> Option<nat>
    decreases kids.len(),
{
    if kids.len() == 0 {
        None
    } else if kids[0] == Some(pid) {
        Some(0)
    } else {
        match worker_at(kids.skip(1), pid) {
            Some(i) => Some(i + 1),
            None => None,
        }
    }
}

/// Where a process is among those that the driver started.
pub fn victim_of(pid: u32, owner: Option<u32>, kids: &Vec<Option<u32>>) -> (r: Victim)
    ensures
        match r {
            Victim::OwnerChild => owner == Some(pid),
            Victim::Worker(i) => owner != Some(pid) && worker_at(kids@, pid) == Some(i as nat) && i
                < kids@.len(),
            Victim::Stranger => owner != Some(pid) && worker_at(kids@, pid) is None,
        },
{
    match owner {
        Some(o) => if o == pid {
            return Victim::OwnerChild;
        },
        None => {},
    }
    let mut i: usize = 0;
    assert(kids@.skip(0) =~= kids@);
    while i < kids.len()
        invariant
            i <= kids@.len(),
            owner != Some(pid),
            worker_at(kids@, pid) == (match worker_at(kids@.skip(i as int), pid) {
                Some(k) => Some((k + i) as nat),
                None => None,
            }),
        decreases kids@.len() - i,
    {
        assert(kids@.skip(i as int)[0] == kids@[i as int]);
        assert(kids@.skip(i as int).skip(1) =~= kids@.skip(i + 1));
        match kids[i] {
            Some(p) => if p == pid {
                return Victim::Worker(i);
            },
            None => {},
        }
        i = i + 1;
    }
    Victim::Stranger
}

/// What is said of a kill that was put off.
pub open spec fn deferred_line(n: u64, heirs: Seq<char>) -> Seq<char> {
    "shm_torture: §3.5 owner kill "@
        + digits(n as nat)
        + " DEFERRED: "@
        + heirs
        + " read-write participant(s) attached including the role holder, below the floor this arm needs, and §11.3's row for this migration presumes a survivor (\"another participant takes over\"). Killing the last eligible heir would produce an arena that is ownerless, uninheritable and unjoinable — absorbing, not slow — which tests nothing §3.5 claims. Retrying at the next interval."@
}

fn say_deferred_line(n: u64, heirs: &str) -> (r: String)
    ensures
        r@ == deferred_line(n, heirs@),
{
    let mut s = "shm_torture: §3.5 owner kill ".to_owned();
    s.append(decimal(n).as_str());
    s.append(" DEFERRED: ");
    s.append(heirs);
    s.append(
        " read-write participant(s) attached including the role holder, below the floor this arm needs, and §11.3's row for this migration presumes a survivor (\"another participant takes over\"). Killing the last eligible heir would produce an arena that is ownerless, uninheritable and unjoinable — absorbing, not slow — which tests nothing §3.5 claims. Retrying at the next interval.",
    );
    s
}

/// What is said of a kill.
pub open spec fn migration_line(
    n: u64,
    victim: Seq<char>,
    reaped: Seq<char>,
    joined: Seq<char>,
    inherits: u64,
    before: Seq<char>,
    after: Seq<char>,
    first: Seq<char>,
    reads: u64,
) -> Seq<char> {
    "shm_torture: §3.5 owner kill "@
        + digits(n as nat)
        + ": killed pid "@
        + victim
        + reaped
        + "; "@
        + joined
        + "; "@
        + digits(inherits as nat)
        + " survivor(s) inherited; "@
        + before
        + " heir(s) attached before the kill, "@
        + after
        + " after it, "@
        + first
        + " on the first round after; the observer validated "@
        + digits(reads as nat)
        + " transform(s) while the role was vacant"@
}

fn say_migration_line(
    n: u64,
    victim: &str,
    reaped: &str,
    joined: &str,
    inherits: u64,
    before: &str,
    after: &str,
    first: &str,
    reads: u64,
) -> (r: String)
    ensures
        r@ == migration_line(n, victim@, reaped@, joined@, inherits, before@, after@, first@, reads),
{
    let mut s = "shm_torture: §3.5 owner kill ".to_owned();
    s.append(decimal(n).as_str());
    s.append(": killed pid ");
    s.append(victim);
    s.append(reaped);
    s.append("; ");
    s.append(joined);
    s.append("; ");
    s.append(decimal(inherits).as_str());
    s.append(" survivor(s) inherited; ");
    s.append(before);
    s.append(" heir(s) attached before the kill, ");
    s.append(after);
    s.append(" after it, ");
    s.append(first);
    s.append(" on the first round after; the observer validated ");
    s.append(decimal(reads).as_str());
    s.append(" transform(s) while the role was vacant");
    s
}

/// What is said where there was nobody to kill.
pub open spec fn no_victim(n: u64) -> Seq<char> {
    "owner kill "@
        + digits(n as nat)
        + ": the recorded owner pid names no live process of this run, so there was nothing to kill. On a second or later kill that is what §3.5 *not happening* looks like — the marker still names the owner the previous migration killed, because nothing inherited and nothing republished it. On the first it is a harness defect: the owner child never published its pid. Neither is a passing run."@
}

fn say_no_victim(n: u64) -> (r: String)
    ensures
        r@ == no_victim(n),
{
    let mut s = "owner kill ".to_owned();
    s.append(decimal(n).as_str());
    s.append(
        ": the recorded owner pid names no live process of this run, so there was nothing to kill. On a second or later kill that is what §3.5 *not happening* looks like — the marker still names the owner the previous migration killed, because nothing inherited and nothing republished it. On the first it is a harness defect: the owner child never published its pid. Neither is a passing run.",
    );
    s
}

/// What is said where nobody could join any more.
pub open spec fn not_recovered(n: u64, inherits: u64) -> Seq<char> {
    "owner kill "@
        + digits(n as nat)
        + ": no fresh process could join within 10s of the owner's death, and "@
        + digits(inherits as nat)
        + " survivor(s) recorded an inheritance. That is the state docs/PHASE2.md §3.5 exists to end — the arena is ownerless, every already-attached process keeps reading, and every new joiner is refused `ArenaHeldButUnreachable` against the survivors' held participant bytes."@
}

fn say_not_recovered(n: u64, inherits: u64) -> (r: String)
    ensures
        r@ == not_recovered(n, inherits),
{
    let mut s = "owner kill ".to_owned();
    s.append(decimal(n).as_str());
    s.append(": no fresh process could join within 10s of the owner's death, and ");
    s.append(decimal(inherits).as_str());
    s.append(
        " survivor(s) recorded an inheritance. That is the state docs/PHASE2.md §3.5 exists to end — the arena is ownerless, every already-attached process keeps reading, and every new joiner is refused `ArenaHeldButUnreachable` against the survivors' held participant bytes.",
    );
    s
}

/// What is said where nobody inherited.
pub open spec fn not_inherited(n: u64) -> Seq<char> {
    "owner kill "@
        + digits(n as nat)
        + ": a fresh process joined, but no survivor recorded an inheritance. Something is serving the rendezvous and §3.5's trigger is not why, so this run cannot claim the mechanism it is here to exercise."@
}

fn say_not_inherited(n: u64) -> (r: String)
    ensures
        r@ == not_inherited(n),
{
    let mut s = "owner kill ".to_owned();
    s.append(decimal(n).as_str());
    s.append(
        ": a fresh process joined, but no survivor recorded an inheritance. Something is serving the rendezvous and §3.5's trigger is not why, so this run cannot claim the mechanism it is here to exercise.",
    );
    s
}

/// What is said where reads stopped.
pub open spec fn reads_stopped(n: u64) -> Seq<char> {
    "owner kill "@
        + digits(n as nat)
        + ": the observer validated 0 transforms while the role was vacant, having validated some on the round before. docs/PHASE2.md §3.5 is NORMATIVE that the data plane never pauses during a takeover — `Plan::at` touches the mapping and nothing else — so a read that stops here is a finding about the engine and not about this harness."@
}

fn say_reads_stopped(n: u64) -> (r: String)
    ensures
        r@ == reads_stopped(n),
{
    let mut s = "owner kill ".to_owned();
    s.append(decimal(n).as_str());
    s.append(
        ": the observer validated 0 transforms while the role was vacant, having validated some on the round before. docs/PHASE2.md §3.5 is NORMATIVE that the data plane never pauses during a takeover — `Plan::at` touches the mapping and nothing else — so a read that stops here is a finding about the engine and not about this harness.",
    );
    s
}

pub open spec fn count_text(n: Option<u64>) -> Seq<char> {
    match n {
        Some(c) => digits(c as nat),
        None => "?"@,
    }
}

fn say_count(n: Option<u64>) -> (r: String)
    ensures
        r@ == count_text(n),
{
    match n {
        Some(c) => decimal(c),
        None => "?".to_owned(),
    }
}

pub open spec fn joined_text(ms: Option<Seq<char>>) -> Seq<char> {
    match ms {
        Some(t) => "a fresh process joined "@ + t + " ms later"@,
        None => "NO fresh process joined within 10s"@,
    }
}

pub open spec fn reaped_text(ms: Option<Seq<char>>) -> Seq<char> {
    match ms {
        Some(t) => " (reaped in "@ + t + " ms)"@,
        None => ""@,
    }
}

impl Migration {
    pub open spec fn wf(self) -> bool {
        self.reads.chain + self.reads.edge <= u64::MAX
    }

    /// The line on this kill.
    pub open spec fn text(self) -> Seq<char> {
        if self.deferred {
            deferred_line(self.n as u64, count_text(self.heirs_before))
        } else {
            migration_line(
                self.n as u64,
                match self.victim {
                    Some(p) => digits(p as nat),
                    None => "?"@,
                },
                reaped_text(text_of(self.reaped_ms)),
                joined_text(text_of(self.recovered_ms)),
                self.inherits as u64,
                count_text(self.heirs_before),
                count_text(self.heirs_at_kill),
                count_text(self.heirs_first_round),
                (self.reads.chain + self.reads.edge) as u64,
            )
        }
    }

    /// Why this kill fails the run, where it does.
    pub open spec fn fault(self) -> Option<Seq<char>> {
        if self.deferred {
            None
        } else if self.victim is None {
            Some(no_victim(self.n as u64))
        } else if self.recovered_ms is None {
            Some(not_recovered(self.n as u64, self.inherits as u64))
        } else if self.inherits == 0 {
            Some(not_inherited(self.n as u64))
        } else if self.read_before && self.reads.chain + self.reads.edge == 0 {
            Some(reads_stopped(self.n as u64))
        } else {
            None
        }
    }

    /// What a migration owes: somebody was killed, a fresh process joined, a survivor
    /// inherited, and reads did not stop meanwhile.
    pub open spec fn paid(self) -> bool {
        &&& self.victim is Some
        &&& self.recovered_ms is Some
        &&& self.inherits > 0
        &&& self.read_before ==> self.reads.chain + self.reads.edge > 0
    }
}

/// A kill passes exactly where it was put off or paid what it owes.
pub proof fn law_a_kill_passes_where_it_paid(m: Migration)
    ensures
        m.fault() is None <==> m.deferred || m.paid(),
{
}

impl Migration {
    /// A kill of which nothing is known yet.
    pub fn new(n: usize, read_before: bool) -> (r: Migration)
        ensures
            r.n == n,
            r.read_before == read_before,
            r.victim is None,
            r.recovered_ms is None,
            r.inherits == 0,
            r.reads.chain == 0,
            r.reads.edge == 0,
            r.rounds == 0,
            !r.deferred,
            r.heirs_before is None,
            r.heirs_at_kill is None,
            r.heirs_first_round is None,
            r.reaped_ms is None,
            r.before_seen@.len() == 0,
            r.at_kill_seen@.len() == 0,
            r.wf(),
    {
        Migration {
            n,
            victim: None,
            recovered_ms: None,
            inherits: 0,
            reads: Reads::none(),
            rounds: 0,
            read_before,
            deferred: false,
            heirs_before: None,
            heirs_at_kill: None,
            heirs_first_round: None,
            reaped_ms: None,
            before_seen: Vec::new(),
            at_kill_seen: Vec::new(),
        }
    }

    /// Decides on the owner that the marker names, from the census before the kill. The
    /// census counts the role holder, so that two is it and one heir.
    pub fn consider(
        &mut self,
        marker: Option<u32>,
        heirs: u64,
        seen: Vec<SlotSeen>,
        force_defer: bool,
    ) -> (r: Decision)
        requires
            !old(self).deferred,
        ensures
            r == decided(marker, heirs, force_defer),
            r is NoOwner ==> *final(self) == *old(self),
            r !is NoOwner ==> *final(self) == (Migration {
                heirs_before: Some(heirs),
                before_seen: seen,
                deferred: r is Defer,
                ..*old(self)
            }),
    {
        match marker {
            None => Decision::NoOwner,
            Some(pid) => {
                self.heirs_before = Some(heirs);
                self.before_seen = seen;
                if force_defer || heirs < 2 {
                    self.deferred = true;
                    Decision::Defer
                } else {
                    Decision::Kill(pid)
                }
            },
        }
    }

    /// The victim is reaped, and the census after it taken.
    pub fn killed(&mut self, pid: u32, reaped_ms: String, heirs: u64, seen: Vec<SlotSeen>)
        ensures
            *final(self) == (Migration {
                victim: Some(pid),
                reaped_ms: Some(reaped_ms),
                heirs_at_kill: Some(heirs),
                at_kill_seen: seen,
                ..*old(self)
            }),
    {
        self.victim = Some(pid);
        self.reaped_ms = Some(reaped_ms);
        self.heirs_at_kill = Some(heirs);
        self.at_kill_seen = seen;
    }

    /// How many survivors recorded an inheritance since the kill, and whether that is
    /// evidence enough to stop waiting for it.
    pub fn evidence(&mut self, before: usize, now: usize) -> (r: bool)
        ensures
            *final(self) == (Migration {
                inherits: if now >= before {
                    (now - before) as usize
                } else {
                    0
                },
                ..*old(self)
            }),
            r == (now > before),
    {
        self.inherits = if now >= before {
            now - before
        } else {
            0
        };
        self.inherits > 0
    }

    /// The line on this kill.
    pub fn line(&self) -> (r: String)
        requires
            self.wf(),
        ensures
            r@ == self.text(),
    {
        if self.deferred {
            return say_deferred_line(self.n as u64, say_count(self.heirs_before).as_str());
        }
        let victim = match self.victim {
            Some(p) => decimal(p as u64),
            None => "?".to_owned(),
        };
        let mut reaped = "".to_owned();
        match &self.reaped_ms {
            Some(t) => {
                reaped = " (reaped in ".to_owned();
                reaped.append(t.as_str());
                reaped.append(" ms)");
            },
            None => {},
        }
        let mut joined = "NO fresh process joined within 10s".to_owned();
        match &self.recovered_ms {
            Some(t) => {
                joined = "a fresh process joined ".to_owned();
                joined.append(t.as_str());
                joined.append(" ms later");
            },
            None => {},
        }
        say_migration_line(
            self.n as u64,
            victim.as_str(),
            reaped.as_str(),
            joined.as_str(),
            self.inherits as u64,
            say_count(self.heirs_before).as_str(),
            say_count(self.heirs_at_kill).as_str(),
            say_count(self.heirs_first_round).as_str(),
            self.reads.total(),
        )
    }

    /// Why this kill fails the run, where it does.
    pub fn failure(&self) -> (r: Option<String>)
        requires
            self.wf(),
        ensures
            text_of(r) == self.fault(),
    {
        if self.deferred {
            return None;
        }
        let n: u64 = self.n as u64;
        if self.victim.is_none() {
            return Some(say_no_victim(n));
        }
        if self.recovered_ms.is_none() {
            return Some(say_not_recovered(n, self.inherits as u64));
        }
        if self.inherits == 0 {
            return Some(say_not_inherited(n));
        }
        if self.read_before && self.reads.total() == 0 {
            return Some(say_reads_stopped(n));
        }
        None
    }
}

// ---------------------------------------------------------------------------
// While the role is vacant
// ---------------------------------------------------------------------------

/// What to do next while the role is vacant.
#[derive(Debug, Clone, Copy, PartialEq, Eq, Structural)]
pub enum Step {
    /// Read, to see that the data plane does not pause.
    Observe,
    /// Try to join as a process that was not there.
    Join,
    Stop,
}

#[derive(Debug, Clone, Copy, PartialEq, Eq, Structural)]
pub enum Phase {
    /// At the start of a turn.
    Turn,
    /// The turn has read, and has still to try to join.
    Joining,
    Done,
}

/// The wait for a fresh process to join, which reads meanwhile. Times are nanoseconds from
/// the kill.
pub struct Vacancy {
    pub phase: Phase,
    /// When the next read is due.
    pub next_observe: u128,
}

impl Vacancy {
    /// What to do at a time.
    pub open spec fn step(self, now: u128) -> Step {
        match self.phase {
            Phase::Turn => if now >= OWNER_RECOVERY_DEADLINE_NS {
                Step::Stop
            } else if now >= self.next_observe {
                Step::Observe
            } else {
                Step::Join
            },
            Phase::Joining => Step::Join,
            Phase::Done => Step::Stop,
        }
    }

    pub fn new() -> (r: Vacancy)
        ensures
            r.phase is Turn,
            r.next_observe == 0,
    {
        Vacancy { phase: Phase::Turn, next_observe: 0 }
    }

    /// What to do at a time.
    pub fn next(&self, now: u128) -> (r: Step)
        ensures
            r == self.step(now),
    {
        match self.phase {
            Phase::Turn => if now >= OWNER_RECOVERY_DEADLINE_NS {
                Step::Stop
            } else if now >= self.next_observe {
                Step::Observe
            } else {
                Step::Join
            },
            Phase::Joining => Step::Join,
            Phase::Done => Step::Stop,
        }
    }

    /// A read was made: it found `alive` participants attached, and ended at `now`. A bad
    /// transform ends the wait.
    pub fn observed(
        &mut self,
        m: &mut Migration,
        reads: Reads,
        alive: u64,
        violated: bool,
        now: u128,
    )
        requires
            old(m).reads.chain + reads.chain + old(m).reads.edge + reads.edge <= u64::MAX,
            old(m).rounds < u64::MAX,
            now <= u128::MAX - MIGRATION_OBSERVE_EVERY_NS,
        ensures
            final(self).next_observe == now + MIGRATION_OBSERVE_EVERY_NS,
            final(self).phase == (if violated {
                Phase::Done
            } else {
                Phase::Joining
            }),
            final(m).wf(),
            *final(m) == (Migration {
                reads: Reads {
                    chain: (old(m).reads.chain + reads.chain) as u64,
                    edge: (old(m).reads.edge + reads.edge) as u64,
                },
                rounds: (old(m).rounds + 1) as u64,
                heirs_first_round: match old(m).heirs_first_round {
                    Some(c) => Some(c),
                    None => Some(alive),
                },
                ..*old(m)
            }),
    {
        m.reads.chain = m.reads.chain + reads.chain;
        m.reads.edge = m.reads.edge + reads.edge;
        if m.heirs_first_round.is_none() {
            m.heirs_first_round = Some(alive);
        }
        m.rounds = m.rounds + 1;
        self.next_observe = now + MIGRATION_OBSERVE_EVERY_NS;
        self.phase = if violated {
            Phase::Done
        } else {
            Phase::Joining
        };
    }

    /// A join was tried. One that succeeded ends the wait, so many milliseconds after the
    /// kill.
    pub fn tried(&mut self, m: &mut Migration, joined: bool, after_ms: String)
        ensures
            final(self).next_observe == old(self).next_observe,
            final(self).phase == (if joined {
                Phase::Done
            } else {
                Phase::Turn
            }),
            *final(m) == (if joined {
                Migration { recovered_ms: Some(after_ms), ..*old(m) }
            } else {
                *old(m)
            }),
    {
        if joined {
            m.recovered_ms = Some(after_ms);
            self.phase = Phase::Done;
        } else {
            self.phase = Phase::Turn;
        }
    }
}

/// Every turn of the wait tries to join, and none goes on past the deadline.
pub proof fn law_every_turn_tries_to_join(v: Vacancy, now: u128)
    ensures
        v.phase is Joining ==> v.step(now) is Join,
        v.phase is Turn && now >= OWNER_RECOVERY_DEADLINE_NS ==> v.step(now) is Stop,
        v.phase is Turn && now < OWNER_RECOVERY_DEADLINE_NS ==> v.step(now) !is Stop,
{
}

/// An owner is killed exactly where the marker names one, two or more are attached and the kill
/// is not put off; otherwise it is deferred, or there is no owner.
pub proof fn law_when_the_owner_is_killed(marker: Option<u32>, heirs: u64, force_defer: bool)
    ensures
        decided(marker, heirs, force_defer) is NoOwner <==> marker is None,
        decided(marker, heirs, force_defer) is Kill <==> marker is Some && heirs >= 2
            && !force_defer,
        decided(marker, heirs, force_defer) matches Decision::Kill(pid) ==> marker == Some(pid),
        decided(marker, heirs, force_defer) is Defer <==> marker is Some && (heirs < 2
            || force_defer),
{
}

/// The worker that is named is the first whose process it is.
pub proof fn law_the_worker_of_a_process(kids: Seq<Option<u32>>, pid: u32)
    ensures
        worker_at(kids, pid) is None <==> forall|j: int|
            0 <= j < kids.len() ==> #[trigger] kids[j] != Some(pid),
        worker_at(kids, pid) matches Some(i) ==> i < kids.len() && kids[i as int] == Some(pid)
            && forall|j: int| 0 <= j < i ==> #[trigger] kids[j] != Some(pid),
    decreases kids.len(),
{
    if kids.len() > 0 && kids[0] != Some(pid) {
        let rest = kids.skip(1);
        law_the_worker_of_a_process(rest, pid);
        assert forall|j: int| 1 <= j < kids.len() implies #[trigger] kids[j] == rest[j - 1] by {}
    }
}

/// A kill that was made passes exactly where it had a victim, a fresh process joined, somebody
/// inherited and the reads went on; one that was deferred always passes. What is missing first
/// is what is said.
pub proof fn law_when_a_kill_passes(m: Migration)
    ensures
        m.fault() is None <==> m.deferred || (m.victim is Some && m.recovered_ms is Some
            && m.inherits > 0 && (m.read_before ==> m.reads.chain + m.reads.edge > 0)),
        !m.deferred && m.victim is None ==> m.fault() == Some(no_victim(m.n as u64)),
        !m.deferred && m.victim is Some && m.recovered_ms is None ==> m.fault() == Some(
            not_recovered(m.n as u64, m.inherits as u64),
        ),
        !m.deferred && m.victim is Some && m.recovered_ms is Some && m.inherits == 0 ==> m.fault()
            == Some(not_inherited(m.n as u64)),
{
}

/// The line on a kill that was made says whom it killed, who joined, how many inherited, how
/// many were attached before it, after it and on the next round, and what was read meanwhile.
pub proof fn law_a_kill_is_told_as_it_went(m: Migration)
    requires
        !m.deferred,
    ensures
        m.victim matches Some(p) ==> holds(m.text(), ": killed pid "@ + digits(p as nat)),
        m.recovered_ms matches Some(t) ==> holds(
            m.text(),
            "a fresh process joined "@ + t@ + " ms later"@,
        ),
        m.recovered_ms is None ==> holds(m.text(), "NO fresh process joined within 10s"@),
        m.reaped_ms matches Some(t) ==> holds(m.text(), " (reaped in "@ + t@ + " ms)"@),
        holds(m.text(), digits((m.inherits as u64) as nat) + " survivor(s) inherited; "@),
        m.heirs_before matches Some(c) ==> holds(
            m.text(),
            digits(c as nat) + " heir(s) attached before the kill, "@,
        ),
        m.heirs_at_kill matches Some(c) ==> holds(m.text(), digits(c as nat) + " after it, "@),
        m.heirs_first_round matches Some(c) ==> holds(
            m.text(),
            digits(c as nat) + " on the first round after; the observer validated "@,
        ),
        holds(
            m.text(),
            digits(((m.reads.chain + m.reads.edge) as u64) as nat)
                + " transform(s) while the role was vacant"@,
        ),
{
    let who = match m.victim {
        Some(p) => digits(p as nat),
        None => "?"@,
    };
    let took = reaped_text(text_of(m.reaped_ms));
    let came = joined_text(text_of(m.recovered_ms));
    let before = count_text(m.heirs_before);
    let after = count_text(m.heirs_at_kill);
    let first = count_text(m.heirs_first_round);
    let doc = m.text();
    let a0 = "shm_torture: §3.5 owner kill "@;
    let a1 = a0 + digits((m.n as u64) as nat);
    let a2 = a1 + ": killed pid "@;
    let a3 = a2 + who;
    let a4 = a3 + took;
    let a5 = a4 + "; "@;
    let a6 = a5 + came;
    let a7 = a6 + "; "@;
    let a8 = a7 + (digits((m.inherits as u64) as nat) + " survivor(s) inherited; "@);
    let a9 = a8 + (before + " heir(s) attached before the kill, "@);
    let a10 = a9 + (after + " after it, "@);
    let a11 = a10 + (first + " on the first round after; the observer validated "@);
    let a12 = a11 + (digits(((m.reads.chain + m.reads.edge) as u64) as nat) + " transform(s) while the role was vacant"@);
    assert(doc =~= a12);
    assert(doc.take(a12.len() as int) =~= a12);
    lemma_end_of_a_beginning(doc, a11, (digits(((m.reads.chain + m.reads.edge) as u64) as nat) + " transform(s) while the role was vacant"@));
    lemma_end_of_a_beginning(doc, a10, (first + " on the first round after; the observer validated "@));
    lemma_end_of_a_beginning(doc, a9, (after + " after it, "@));
    lemma_end_of_a_beginning(doc, a8, (before + " heir(s) attached before the kill, "@));
    lemma_end_of_a_beginning(doc, a7, (digits((m.inherits as u64) as nat) + " survivor(s) inherited; "@));
    lemma_end_of_a_beginning(doc, a6, "; "@);
    lemma_end_of_a_beginning(doc, a5, came);
    lemma_end_of_a_beginning(doc, a4, "; "@);
    lemma_end_of_a_beginning(doc, a3, took);
    lemma_end_of_a_beginning(doc, a2, who);
    lemma_end_of_a_beginning(doc, a1, ": killed pid "@);
    lemma_end_of_a_beginning(doc, a0, digits((m.n as u64) as nat));
    assert(a3 =~= a1 + (": killed pid "@ + who));
    lemma_end_of_a_beginning(doc, a1, ": killed pid "@ + who);
}

/// A vacancy is watched for ten seconds, with a read every five milliseconds and an attempt to
/// join in every turn.
pub proof fn law_how_a_vacancy_is_watched(v: Vacancy, now: u128)
    ensures
        v.phase is Done ==> v.step(now) is Stop,
        v.phase is Joining ==> v.step(now) is Join,
        v.phase is Turn ==> (v.step(now) is Stop <==> now >= 10_000_000_000),
        v.phase is Turn ==> (v.step(now) is Observe <==> now < 10_000_000_000 && now
            >= v.next_observe),
        MIGRATION_OBSERVE_EVERY_NS == 5_000_000,
{
}

/// A kill that was put off is told with how many were attached.
pub proof fn law_a_put_off_kill_is_told(
    n: u64,
    heirs: Seq<char>,
)
    ensures
        ({
            let said = deferred_line(n, heirs);
            &&& begins(said, "shm_torture: §3.5 owner kill "@ + digits(n as nat))
            &&& holds(said, " DEFERRED: "@ + heirs)
        }),
{
    let doc = deferred_line(n, heirs);
    let a0 = ("shm_torture: §3.5 owner kill "@ + digits(n as nat));
    let a1 = a0 + (" DEFERRED: "@ + heirs);
    let a2 = a1 + " read-write participant(s) attached including the role holder, below the floor this arm needs, and §11.3's row for this migration presumes a survivor (\"another participant takes over\"). Killing the last eligible heir would produce an arena that is ownerless, uninheritable and unjoinable — absorbing, not slow — which tests nothing §3.5 claims. Retrying at the next interval."@;
    assert(doc =~= a2);
    assert(doc.take(a2.len() as int) =~= a2);
    lemma_end_of_a_beginning(doc, a1, " read-write participant(s) attached including the role holder, below the floor this arm needs, and §11.3's row for this migration presumes a survivor (\"another participant takes over\"). Killing the last eligible heir would produce an arena that is ownerless, uninheritable and unjoinable — absorbing, not slow — which tests nothing §3.5 claims. Retrying at the next interval."@);
    lemma_end_of_a_beginning(doc, a0, (" DEFERRED: "@ + heirs));
}

/// A kill that nobody recovered from is told with how many inherited.
pub proof fn law_a_kill_nobody_recovered_from_is_told(
    n: u64,
    inherits: u64,
)
    ensures
        ({
            let said = not_recovered(n, inherits);
            &&& begins(said, "owner kill "@ + digits(n as nat))
            &&& holds(said, ": no fresh process could join within 10s of the owner's death, and "@ + digits(inherits as nat))
        }),
{
    let doc = not_recovered(n, inherits);
    let a0 = ("owner kill "@ + digits(n as nat));
    let a1 = a0 + (": no fresh process could join within 10s of the owner's death, and "@ + digits(inherits as nat));
    let a2 = a1 + " survivor(s) recorded an inheritance. That is the state docs/PHASE2.md §3.5 exists to end — the arena is ownerless, every already-attached process keeps reading, and every new joiner is refused `ArenaHeldButUnreachable` against the survivors' held participant bytes."@;
    assert(doc =~= a2);
    assert(doc.take(a2.len() as int) =~= a2);
    lemma_end_of_a_beginning(doc, a1, " survivor(s) recorded an inheritance. That is the state docs/PHASE2.md §3.5 exists to end — the arena is ownerless, every already-attached process keeps reading, and every new joiner is refused `ArenaHeldButUnreachable` against the survivors' held participant bytes."@);
    lemma_end_of_a_beginning(doc, a0, (": no fresh process could join within 10s of the owner's death, and "@ + digits(inherits as nat)));
}

} // verus!
