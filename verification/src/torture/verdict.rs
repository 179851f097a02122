//! The verdict on a run, and what it prints at its end.

use vstd::prelude::*;

use super::crash::{coverage, CrashLedger};
use super::driver::Driver;
use super::health::{Health, Reads};
use super::migration::Migration;
use super::{
    MIN_ATTACHED_FOR_ORDINARY_KILL, MIN_CHAIN_READS_PER_ROUND, MIN_EDGE_READS_PER_ROUND,
    OWNER_KILL_FIRST_NS,
};
use crate::report::text_of;
use crate::text::{
    self, begins, decimal, digits, holds, joined, lemma_end_of_a_beginning, lemma_texts_push, texts,
};

verus! {

/// What a run is judged by, besides the driver's own state.
pub struct End {
    /// How many bad transforms were seen.
    pub violations: usize,
    /// Why the run was given up, where it was.
    pub wedge: Option<String>,
    /// How long the run was to be, and how far apart its kills.
    pub duration_ns: u128,
    pub interval_ns: u128,
    /// The duration, the rate of kills and the interval of owner kills as they print.
    pub duration: String,
    pub kill_hz: String,
    pub every: String,
    /// A child published a bad transform on purpose.
    pub inject: bool,
    pub crash_points: bool,
    pub ledger: CrashLedger,
    pub health: Health,
    /// What the rounds say of themselves.
    pub diagnosis: String,
    pub recovery_failures: usize,
}

/// The messages of the kills that failed.
pub open spec fn faults(v: Seq<Migration>) -> Seq<Seq<char>>
    decreases v.len(),
{
    if v.len() == 0 {
        seq![]
    } else {
        let rest = faults(v.drop_last());
        match v.last().fault() {
            Some(s) => rest.push(s),
            None => rest,
        }
    }
}

/// Whether the observer read too little for the verdict to mean anything.
pub open spec fn vacuous(reads: Reads, rounds: u64) -> bool {
    reads.chain < rounds * MIN_CHAIN_READS_PER_ROUND || reads.edge < rounds
        * MIN_EDGE_READS_PER_ROUND
}

/// Whether owner kills were to come and none was made.
pub open spec fn no_owner_died(d: Driver, e: End) -> bool {
    &&& d.every_ns is Some
    &&& d.migrations@.len() == 0
    &&& d.owner_kill_attempts > 0 || e.duration_ns >= OWNER_KILL_FIRST_NS + d.every_ns->0
}

pub open spec fn violated(n: u64) -> Seq<char> {
    digits(n as nat)
        + " invariant violation(s) — the arena is not crash-consistent (docs/PHASE2.md §12.3 gate 3)"@
}

fn say_violated(n: u64) -> (r: String)
    ensures
        r@ == violated(n),
{
    let mut s = decimal(n);
    s.append(
        " invariant violation(s) — the arena is not crash-consistent (docs/PHASE2.md §12.3 gate 3)",
    );
    s
}

pub open spec fn given_up(why: Seq<char>) -> Seq<char> {
    "the run stopped early because the arena became unrecoverable, which is a statement about this fleet's population and NOT about the engine's crash-consistency (docs/PHASE2.md §12.3 gate 3 is not what failed here):\n  "@
        + why
}

fn say_given_up(why: &str) -> (r: String)
    ensures
        r@ == given_up(why@),
{
    let mut s = "the run stopped early because the arena became unrecoverable, which is a statement about this fleet's population and NOT about the engine's crash-consistency (docs/PHASE2.md §12.3 gate 3 is not what failed here):\n  ".to_owned();
    s.append(why);
    s
}

pub open spec fn not_migrated(failed: u64, all: u64, why: Seq<char>) -> Seq<char> {
    digits(failed as nat)
        + " of "@
        + digits(all as nat)
        + " owner kill(s) did not recover — docs/PHASE2.md §3.5's ownership migration did not happen:\n  "@
        + why
}

fn say_not_migrated(failed: u64, all: u64, why: &str) -> (r: String)
    ensures
        r@ == not_migrated(failed, all, why@),
{
    let mut s = decimal(failed);
    s.append(" of ");
    s.append(decimal(all).as_str());
    s.append(
        " owner kill(s) did not recover — docs/PHASE2.md §3.5's ownership migration did not happen:\n  ",
    );
    s.append(why);
    s
}

pub open spec fn nobody_killed(
    duration: Seq<char>,
    rate: Seq<char>,
    holder: u64,
    thin: u64,
    floor: u64,
    least: u64,
) -> Seq<char> {
    "no participant was killed in "@
        + duration
        + " at --kill-hz "@
        + rate
        + ", so this run is not docs/PHASE2.md §11.4's workload — it validated an arena nobody was tearing down. Ordinary draws skipped: "@
        + digits(holder as nat)
        + " that landed on the rendezvous role holder, "@
        + digits(thin as nat)
        + " against an attached pool at its floor of "@
        + digits(floor as nat)
        + ". If the second number is large the fleet never sustained "@
        + digits(least as nat)
        + " attached participants: raise --children, or lower --kill-hz so a replacement finishes its handshake before the next draw."@
}

fn say_nobody_killed(
    duration: &str,
    rate: &str,
    holder: u64,
    thin: u64,
    floor: u64,
    least: u64,
) -> (r: String)
    ensures
        r@ == nobody_killed(duration@, rate@, holder, thin, floor, least),
{
    let mut s = "no participant was killed in ".to_owned();
    s.append(duration);
    s.append(" at --kill-hz ");
    s.append(rate);
    s.append(
        ", so this run is not docs/PHASE2.md §11.4's workload — it validated an arena nobody was tearing down. Ordinary draws skipped: ",
    );
    s.append(decimal(holder).as_str());
    s.append(" that landed on the rendezvous role holder, ");
    s.append(decimal(thin).as_str());
    s.append(" against an attached pool at its floor of ");
    s.append(decimal(floor).as_str());
    s.append(". If the second number is large the fleet never sustained ");
    s.append(decimal(least).as_str());
    s.append(
        " attached participants: raise --children, or lower --kill-hz so a replacement finishes its handshake before the next draw.",
    );
    s
}

pub open spec fn no_migration(
    made: u64,
    attempts: u64,
    duration: Seq<char>,
    every: Seq<char>,
    deferred: u64,
) -> Seq<char> {
    "the owner-kill arm is on and produced "@
        + digits(made as nat)
        + " migration(s) from "@
        + digits(attempts as nat)
        + " attempt(s) in "@
        + duration
        + " (first due at 4s, then every "@
        + every
        + "). This run covers none of docs/PHASE2.md §3.5 and must not be quoted as if it did. "@
        + digits(deferred as nat)
        + " owner kill(s) were DEFERRED for want of a second eligible heir — deferrals are deliberately not counted as migrations, precisely so that a run which deferred every one of them lands here instead of printing PASS over an arm that never fired. A nonzero deferral count with zero migrations means the fleet never held two read-write participants at any attempt: raise `--children`, or lower `--kill-hz` so a replacement finishes its handshake before the next draw."@
}

fn say_no_migration(
    made: u64,
    attempts: u64,
    duration: &str,
    every: &str,
    deferred: u64,
) -> (r: String)
    ensures
        r@ == no_migration(made, attempts, duration@, every@, deferred),
{
    let mut s = "the owner-kill arm is on and produced ".to_owned();
    s.append(decimal(made).as_str());
    s.append(" migration(s) from ");
    s.append(decimal(attempts).as_str());
    s.append(" attempt(s) in ");
    s.append(duration);
    s.append(" (first due at 4s, then every ");
    s.append(every);
    s.append(
        "). This run covers none of docs/PHASE2.md §3.5 and must not be quoted as if it did. ",
    );
    s.append(decimal(deferred).as_str());
    s.append(
        " owner kill(s) were DEFERRED for want of a second eligible heir — deferrals are deliberately not counted as migrations, precisely so that a run which deferred every one of them lands here instead of printing PASS over an arm that never fired. A nonzero deferral count with zero migrations means the fleet never held two read-write participants at any attempt: raise `--children`, or lower `--kill-hz` so a replacement finishes its handshake before the next draw.",
    );
    s
}

pub open spec fn injection_unseen(
    chain: u64,
    edge: u64,
    rounds: u64,
    why: Seq<char>,
) -> Seq<char> {
    "--inject-violation ran to completion with 0 violations: a child published a NaN translation for the whole run and no reader — not the observer, not a sibling — reported it. The observer validated "@
        + digits(chain as nat)
        + " composed and "@
        + digits(edge as nat)
        + " single-edge transforms over "@
        + digits(rounds as nat)
        + " rounds, so "@
        + why
}

fn say_injection_unseen(chain: u64, edge: u64, rounds: u64, why: &str) -> (r: String)
    ensures
        r@ == injection_unseen(chain, edge, rounds, why@),
{
    let mut s = "--inject-violation ran to completion with 0 violations: a child published a NaN translation for the whole run and no reader — not the observer, not a sibling — reported it. The observer validated ".to_owned();
    s.append(decimal(chain).as_str());
    s.append(" composed and ");
    s.append(decimal(edge).as_str());
    s.append(" single-edge transforms over ");
    s.append(decimal(rounds).as_str());
    s.append(" rounds, so ");
    s.append(why);
    s
}

pub open spec fn nothing_read(
    chain: u64,
    edge: u64,
    rounds: u64,
    want_chain: u64,
    want_edge: u64,
    diagnosis: Seq<char>,
) -> Seq<char> {
    "the observer validated "@
        + digits(chain as nat)
        + " composed and "@
        + digits(edge as nat)
        + " single-edge transforms over "@
        + digits(rounds as nat)
        + " rounds, under the floor of "@
        + digits(want_chain as nat)
        + "/"@
        + digits(want_edge as nat)
        + ". This run proves nothing: `0 violation(s)` is also what a harness that never read anything prints. "@
        + diagnosis
        + ".\n\nRead that as follows. The composed read needs one stamp all four rings can answer at once, so it collapses when one edge stops being written while the others keep wrapping past it; the single-edge reads need only their own ring and keep succeeding on a ring nobody has touched for an hour. `writers` at or near 0 with a large `freshest` therefore means the arena was not being written at all — look at the `could not join` lines on stderr and at the leaked-slot count above, not at `common_window`."@
}

fn say_nothing_read(
    chain: u64,
    edge: u64,
    rounds: u64,
    want_chain: u64,
    want_edge: u64,
    diagnosis: &str,
) -> (r: String)
    ensures
        r@ == nothing_read(chain, edge, rounds, want_chain, want_edge, diagnosis@),
{
    let mut s = "the observer validated ".to_owned();
    s.append(decimal(chain).as_str());
    s.append(" composed and ");
    s.append(decimal(edge).as_str());
    s.append(" single-edge transforms over ");
    s.append(decimal(rounds).as_str());
    s.append(" rounds, under the floor of ");
    s.append(decimal(want_chain).as_str());
    s.append("/");
    s.append(decimal(want_edge).as_str());
    s.append(
        ". This run proves nothing: `0 violation(s)` is also what a harness that never read anything prints. ",
    );
    s.append(diagnosis);
    s.append(
        ".\n\nRead that as follows. The composed read needs one stamp all four rings can answer at once, so it collapses when one edge stops being written while the others keep wrapping past it; the single-edge reads need only their own ring and keep succeeding on a ring nobody has touched for an hour. `writers` at or near 0 with a large `freshest` therefore means the arena was not being written at all — look at the `could not join` lines on stderr and at the leaked-slot count above, not at `common_window`.",
    );
    s
}

pub open spec fn not_live(live: u64, rounds: u64, reads: u64, diagnosis: Seq<char>) -> Seq<char> {
    "the arena was being written on only "@
        + digits(live as nat)
        + "/"@
        + digits(rounds as nat)
        + " observation rounds: for the rest of the run no chain edge had a live writer, or the freshest sample on any of the four was over a second old. The "@
        + digits(reads as nat)
        + " transforms the observer validated came out of rings whose writers were gone — a ring outlives the process that filled it, so those reads say nothing about a live arena.\n\n"@
        + diagnosis
}

fn say_not_live(live: u64, rounds: u64, reads: u64, diagnosis: &str) -> (r: String)
    ensures
        r@ == not_live(live, rounds, reads, diagnosis@),
{
    let mut s = "the arena was being written on only ".to_owned();
    s.append(decimal(live).as_str());
    s.append("/");
    s.append(decimal(rounds).as_str());
    s.append(
        " observation rounds: for the rest of the run no chain edge had a live writer, or the freshest sample on any of the four was over a second old. The ",
    );
    s.append(decimal(reads).as_str());
    s.append(
        " transforms the observer validated came out of rings whose writers were gone — a ring outlives the process that filled it, so those reads say nothing about a live arena.\n\n",
    );
    s.append(diagnosis);
    s
}

pub open spec fn not_recovered(n: u64) -> Seq<char> {
    digits(n as nat)
        + " recovery failure(s) after the run"@
}

fn say_not_recovered(n: u64) -> (r: String)
    ensures
        r@ == not_recovered(n),
{
    let mut s = decimal(n);
    s.append(" recovery failure(s) after the run");
    s
}

pub open spec fn nothing_armed(rounds: u64) -> Seq<char> {
    "--crash-points armed 0 children over "@
        + digits(rounds as nat)
        + " rounds, so this run exercised no §11.3 site at all and `0 violation(s)` says nothing about crash consistency. The children are this same executable, so check that the driver was built `--features shm,crash-points` and that `tf_tree_core::crash::SITES` and `tf_tree::CRASH_SITES` are non-empty in it."@
}

fn say_nothing_armed(rounds: u64) -> (r: String)
    ensures
        r@ == nothing_armed(rounds),
{
    let mut s = "--crash-points armed 0 children over ".to_owned();
    s.append(decimal(rounds).as_str());
    s.append(
        " rounds, so this run exercised no §11.3 site at all and `0 violation(s)` says nothing about crash consistency. The children are this same executable, so check that the driver was built `--features shm,crash-points` and that `tf_tree_core::crash::SITES` and `tf_tree::CRASH_SITES` are non-empty in it.",
    );
    s
}

pub open spec fn nothing_fired(armed: u64) -> Seq<char> {
    "--crash-points armed "@
        + digits(armed as nat)
        + " child(ren) and none of them aborted at its site, so no process was killed mid-protocol and this run is a plain SIGKILL soak wearing §11.3's name. The driver's kills reach an armed child before it gets there — raise --duration or lower --kill-hz. This is the run the `§11.3:` line's second number exists to distinguish; the exit status now carries it, because a workflow reads only that."@
}

fn say_nothing_fired(armed: u64) -> (r: String)
    ensures
        r@ == nothing_fired(armed),
{
    let mut s = "--crash-points armed ".to_owned();
    s.append(decimal(armed).as_str());
    s.append(
        " child(ren) and none of them aborted at its site, so no process was killed mid-protocol and this run is a plain SIGKILL soak wearing §11.3's name. The driver's kills reach an armed child before it gets there — raise --duration or lower --kill-hz. This is the run the `§11.3:` line's second number exists to distinguish; the exit status now carries it, because a workflow reads only that.",
    );
    s
}

pub const READ_TOO_LITTLE: &'static str =
    "the run read too little to conclude anything: fix the reader first";

pub const DETECTOR_FAILED: &'static str =
    "it read plenty and the detector is what failed";

/// Why a run fails, where it does: the first of the reasons, in the order in which one
/// hides the next. A bad transform outranks everything; a run that was given up causes all
/// that follows; a kill that did not recover causes reads to fall short.
pub open spec fn judged(d: Driver, e: End) -> Option<Seq<char>> {
    let failed = faults(d.migrations@);
    let read_nothing = vacuous(d.reads, d.rounds);
    if e.violations > 0 {
        Some(violated(e.violations as u64))
    } else if e.wedge is Some {
        Some(given_up(e.wedge->0@))
    } else if failed.len() > 0 {
        Some(
            not_migrated(
                failed.len() as u64,
                d.migrations@.len() as u64,
                joined(failed, "\n  "@),
            ),
        )
    } else if d.kills == 0 && e.duration_ns >= e.interval_ns {
        Some(
            nobody_killed(
                e.duration@,
                e.kill_hz@,
                d.role_holder_draws_skipped as u64,
                d.thin_pool_draws_skipped as u64,
                MIN_ATTACHED_FOR_ORDINARY_KILL,
                MIN_ATTACHED_FOR_ORDINARY_KILL,
            ),
        )
    } else if no_owner_died(d, e) {
        Some(
            no_migration(
                d.migrations@.len() as u64,
                d.owner_kill_attempts as u64,
                e.duration@,
                e.every@,
                d.owner_kills_deferred as u64,
            ),
        )
    } else if e.inject {
        Some(
            injection_unseen(
                d.reads.chain,
                d.reads.edge,
                d.rounds,
                if read_nothing {
                    READ_TOO_LITTLE@
                } else {
                    DETECTOR_FAILED@
                },
            ),
        )
    } else if read_nothing {
        Some(
            nothing_read(
                d.reads.chain,
                d.reads.edge,
                d.rounds,
                (d.rounds * MIN_CHAIN_READS_PER_ROUND) as u64,
                (d.rounds * MIN_EDGE_READS_PER_ROUND) as u64,
                e.diagnosis@,
            ),
        )
    } else if e.health.live_rounds * 2 < d.rounds {
        Some(
            not_live(
                e.health.live_rounds,
                d.rounds,
                (d.reads.chain + d.reads.edge) as u64,
                e.diagnosis@,
            ),
        )
    } else if e.recovery_failures > 0 {
        Some(not_recovered(e.recovery_failures as u64))
    } else if e.crash_points && e.ledger.armed == 0 {
        Some(nothing_armed(d.rounds))
    } else if e.crash_points && e.ledger.aborted == 0 {
        Some(nothing_fired(e.ledger.armed as u64))
    } else {
        None
    }
}

proof fn lemma_no_faults(v: Seq<Migration>, i: int)
    requires
        faults(v).len() == 0,
        0 <= i < v.len(),
    ensures
        v[i].fault() is None,
    decreases v.len(),
{
    if i < v.len() - 1 {
        lemma_no_faults(v.drop_last(), i);
    }
}

/// What a run that passes has shown: nothing bad was read, every owner kill paid what it
/// owes, enough was read in every round on average, the arena was live in half of the rounds
/// at least, everything was reclaimed, and armed points were armed and fired.
pub proof fn law_a_pass_has_shown_something(d: Driver, e: End)
    requires
        judged(d, e) is None,
    ensures
        e.violations == 0,
        e.wedge is None,
        forall|i: int|
            0 <= i < d.migrations@.len() ==> (#[trigger] d.migrations@[i]).deferred
                || d.migrations@[i].paid(),
        d.reads.chain >= d.rounds * MIN_CHAIN_READS_PER_ROUND,
        d.reads.edge >= d.rounds * MIN_EDGE_READS_PER_ROUND,
        e.health.live_rounds * 2 >= d.rounds,
        e.recovery_failures == 0,
        e.crash_points ==> e.ledger.armed > 0 && e.ledger.aborted > 0,
        !e.inject,
        d.kills > 0 || e.duration_ns < e.interval_ns,
        d.every_ns is Some && d.owner_kill_attempts > 0 ==> d.migrations@.len() > 0,
{
    assert forall|i: int| 0 <= i < d.migrations@.len() implies (
    #[trigger] d.migrations@[i]).deferred || d.migrations@[i].paid() by {
        lemma_no_faults(d.migrations@, i);
        super::migration::law_a_kill_passes_where_it_paid(d.migrations@[i]);
    }
}

proof fn lemma_faults_of_none(v: Seq<Migration>)
    requires
        forall|i: int| 0 <= i < v.len() ==> (#[trigger] v[i]).fault() is None,
    ensures
        faults(v).len() == 0,
    decreases v.len(),
{
    if v.len() > 0 {
        let w = v.drop_last();
        assert forall|i: int| 0 <= i < w.len() implies (#[trigger] w[i]).fault() is None by {
            assert(w[i] == v[i]);
        }
        lemma_faults_of_none(w);
        assert(v[v.len() - 1].fault() is None);
    }
}

/// When a run passes, and when alone: nothing bad was read and it was not given up; every
/// owner kill that was not put off took somebody, let a fresh process join, was inherited,
/// and did not stop the reads; somebody was killed, unless the run was over before the first
/// kill; an owner was killed where such kills were due; nothing was injected; each round
/// read enough on average and half of them were live; everything was reclaimed; and armed
/// points were armed and fired.
pub proof fn law_when_a_run_passes(d: Driver, e: End)
    ensures
        judged(d, e) is None <==> {
            &&& e.violations == 0
            &&& e.wedge is None
            &&& forall|i: int|
                0 <= i < d.migrations@.len() ==> {
                    let m = #[trigger] d.migrations@[i];
                    m.deferred || {
                        &&& m.victim is Some
                        &&& m.recovered_ms is Some
                        &&& m.inherits >= 1
                        &&& !m.read_before || m.reads.chain >= 1 || m.reads.edge >= 1
                    }
                }
            &&& d.kills >= 1 || e.duration_ns < e.interval_ns
            &&& d.every_ns matches Some(every) ==> d.migrations@.len() >= 1 || (
            d.owner_kill_attempts == 0 && e.duration_ns < 4_000_000_000 + every)
            &&& !e.inject
            &&& d.reads.chain >= 16 * d.rounds
            &&& d.reads.edge >= 8 * d.rounds
            &&& 2 * e.health.live_rounds >= d.rounds
            &&& e.recovery_failures == 0
            &&& !e.crash_points || (e.ledger.armed >= 1 && e.ledger.aborted >= 1)
        },
{
    let v = d.migrations@;
    if forall|i: int| 0 <= i < v.len() ==> (#[trigger] v[i]).fault() is None {
        lemma_faults_of_none(v);
    } else {
        let i = choose|i: int| 0 <= i < v.len() && (#[trigger] v[i]).fault() is Some;
        if faults(v).len() == 0 {
            lemma_no_faults(v, i);
        }
    }
    if faults(v).len() == 0 {
        assert forall|i: int| 0 <= i < v.len() implies (#[trigger] v[i]).fault() is None by {
            lemma_no_faults(v, i);
        }
    }
}

/// A bad transform outranks all else, and a run that was given up all but that: what is said
/// of such a run does not depend on what came after.
pub proof fn law_what_outranks_the_rest(d: Driver, e: End, d2: Driver, e2: End)
    requires
        e.violations == e2.violations,
    ensures
        e.violations >= 1 ==> judged(d, e) == judged(d2, e2),
        e.violations == 0 && (e.wedge matches Some(a) && e2.wedge matches Some(b) && a@ == b@)
            ==> judged(d, e) == judged(d2, e2),
{
}

/// A run that was to fail never passes: a bad transform was published on purpose, and
/// either it was seen or its not being seen is the failure.
pub proof fn law_an_injected_run_never_passes(d: Driver, e: End)
    requires
        e.inject,
    ensures
        judged(d, e) is Some,
{
}

fn find_faults(v: &Vec<Migration>) -> (r: Vec<String>)
    requires
        forall|i: int| 0 <= i < v@.len() ==> (#[trigger] v@[i]).wf(),
    ensures
        texts(r@) == faults(v@),
{
    broadcast use lemma_texts_push;

    let mut out: Vec<String> = Vec::new();
    let mut i: usize = 0;
    assert(v@.take(0) =~= seq![]);
    assert(texts(out@) =~= seq![]);
    while i < v.len()
        invariant
            i <= v@.len(),
            forall|i: int| 0 <= i < v@.len() ==> (#[trigger] v@[i]).wf(),
            texts(out@) == faults(v@.take(i as int)),
        decreases v@.len() - i,
    {
        assert(v@.take(i + 1).drop_last() =~= v@.take(i as int));
        assert(v@[i as int].wf());
        match v[i].failure() {
            Some(s) => {
                out.push(s);
            },
            None => {},
        }
        i = i + 1;
    }
    assert(v@.take(i as int) =~= v@);
    out
}

impl Driver {
    /// What the verdict computes with stays in range.
    pub open spec fn countable(self) -> bool {
        &&& self.rounds * MIN_CHAIN_READS_PER_ROUND <= u64::MAX
        &&& self.reads.chain + self.reads.edge <= u64::MAX
        &&& forall|i: int| 0 <= i < self.migrations@.len() ==> (#[trigger] self.migrations@[i]).wf()
    }

    /// Why a run fails, where it does.
    pub fn judge(&self, e: &End) -> (r: Option<String>)
        requires
            self.countable(),
            e.health.live_rounds * 2 <= u64::MAX,
            self.every_ns matches Some(every) ==> every + OWNER_KILL_FIRST_NS <= u128::MAX,
        ensures
            text_of(r) == judged(*self, *e),
    {
        if e.violations > 0 {
            return Some(say_violated(e.violations as u64));
        }
        match &e.wedge {
            Some(why) => return Some(say_given_up(why.as_str())),
            None => {},
        }
        let failed = find_faults(&self.migrations);
        if failed.len() > 0 {
            return Some(
                say_not_migrated(
                    failed.len() as u64,
                    self.migrations.len() as u64,
                    text::join(&failed, "\n  ").as_str(),
                ),
            );
        }
        if self.kills == 0 && e.duration_ns >= e.interval_ns {
            return Some(
                say_nobody_killed(
                    e.duration.as_str(),
                    e.kill_hz.as_str(),
                    self.role_holder_draws_skipped as u64,
                    self.thin_pool_draws_skipped as u64,
                    MIN_ATTACHED_FOR_ORDINARY_KILL,
                    MIN_ATTACHED_FOR_ORDINARY_KILL,
                ),
            );
        }
        match self.every_ns {
            Some(every) => if self.migrations.len() == 0 && (self.owner_kill_attempts > 0
                || e.duration_ns >= OWNER_KILL_FIRST_NS + every) {
                return Some(
                    say_no_migration(
                        self.migrations.len() as u64,
                        self.owner_kill_attempts as u64,
                        e.duration.as_str(),
                        e.every.as_str(),
                        self.owner_kills_deferred as u64,
                    ),
                );
            },
            None => {},
        }
        let want_chain: u64 = self.rounds * MIN_CHAIN_READS_PER_ROUND;
        let want_edge: u64 = self.rounds * MIN_EDGE_READS_PER_ROUND;
        let read_nothing = self.reads.chain < want_chain || self.reads.edge < want_edge;
        if e.inject {
            let why = if read_nothing {
                READ_TOO_LITTLE
            } else {
                DETECTOR_FAILED
            };
            return Some(
                say_injection_unseen(self.reads.chain, self.reads.edge, self.rounds, why),
            );
        }
        if read_nothing {
            return Some(
                say_nothing_read(
                    self.reads.chain,
                    self.reads.edge,
                    self.rounds,
                    want_chain,
                    want_edge,
                    e.diagnosis.as_str(),
                ),
            );
        }
        if e.health.live_rounds * 2 < self.rounds {
            return Some(
                say_not_live(
                    e.health.live_rounds,
                    self.rounds,
                    self.reads.total(),
                    e.diagnosis.as_str(),
                ),
            );
        }
        if e.recovery_failures > 0 {
            return Some(say_not_recovered(e.recovery_failures as u64));
        }
        if e.crash_points && e.ledger.armed == 0 {
            return Some(say_nothing_armed(self.rounds));
        }
        if e.crash_points && e.ledger.aborted == 0 {
            return Some(say_nothing_fired(e.ledger.armed as u64));
        }
        None
    }
}

// ---------------------------------------------------------------------------
// What is printed at the end
// ---------------------------------------------------------------------------

pub open spec fn reads_line(reads: u64) -> Seq<char> {
    "shm_torture: "@
        + digits(reads as nat)
        + " checked reads from the observer"@
}

fn say_reads_line(reads: u64) -> (r: String)
    ensures
        r@ == reads_line(reads),
{
    let mut s = "shm_torture: ".to_owned();
    s.append(decimal(reads).as_str());
    s.append(" checked reads from the observer");
    s
}

pub open spec fn split_line(chain: u64, edge: u64, rounds: u64) -> Seq<char> {
    "shm_torture:   "@
        + digits(chain as nat)
        + " composed map->tool, "@
        + digits(edge as nat)
        + " single-edge, over "@
        + digits(rounds as nat)
        + " rounds"@
}

fn say_split_line(chain: u64, edge: u64, rounds: u64) -> (r: String)
    ensures
        r@ == split_line(chain, edge, rounds),
{
    let mut s = "shm_torture:   ".to_owned();
    s.append(decimal(chain).as_str());
    s.append(" composed map->tool, ");
    s.append(decimal(edge).as_str());
    s.append(" single-edge, over ");
    s.append(decimal(rounds).as_str());
    s.append(" rounds");
    s
}

pub open spec fn kills_line(kills: u64, violations: u64) -> Seq<char> {
    "shm_torture: "@
        + digits(kills as nat)
        + " kills, "@
        + digits(violations as nat)
        + " violation(s)"@
}

fn say_kills_line(kills: u64, violations: u64) -> (r: String)
    ensures
        r@ == kills_line(kills, violations),
{
    let mut s = "shm_torture: ".to_owned();
    s.append(decimal(kills).as_str());
    s.append(" kills, ");
    s.append(decimal(violations).as_str());
    s.append(" violation(s)");
    s
}

pub open spec fn owner_line(
    kills: u64,
    inherited: u64,
    joined: u64,
    times: Seq<char>,
) -> Seq<char> {
    "shm_torture: §3.5: "@
        + digits(kills as nat)
        + " owner kill(s), "@
        + digits(inherited as nat)
        + " inheritance(s) recorded by survivors, "@
        + digits(joined as nat)
        + " fresh join(s) after a migration"@
        + times
}

fn say_owner_line(kills: u64, inherited: u64, joined: u64, times: &str) -> (r: String)
    ensures
        r@ == owner_line(kills, inherited, joined, times@),
{
    let mut s = "shm_torture: §3.5: ".to_owned();
    s.append(decimal(kills).as_str());
    s.append(" owner kill(s), ");
    s.append(decimal(inherited).as_str());
    s.append(" inheritance(s) recorded by survivors, ");
    s.append(decimal(joined).as_str());
    s.append(" fresh join(s) after a migration");
    s.append(times);
    s
}

pub open spec fn deferred_line(deferred: u64, holder: u64, thin: u64, floor: u64) -> Seq<char> {
    "shm_torture: §3.5 owner kills deferred for want of a second eligible heir: "@
        + digits(deferred as nat)
        + "; ordinary victim draws skipped — "@
        + digits(holder as nat)
        + " that landed on the role holder, "@
        + digits(thin as nat)
        + " against an attached pool already at its floor of "@
        + digits(floor as nat)
}

fn say_deferred_line(deferred: u64, holder: u64, thin: u64, floor: u64) -> (r: String)
    ensures
        r@ == deferred_line(deferred, holder, thin, floor),
{
    let mut s = "shm_torture: §3.5 owner kills deferred for want of a second eligible heir: ".to_owned();
    s.append(decimal(deferred).as_str());
    s.append("; ordinary victim draws skipped — ");
    s.append(decimal(holder).as_str());
    s.append(" that landed on the role holder, ");
    s.append(decimal(thin).as_str());
    s.append(" against an attached pool already at its floor of ");
    s.append(decimal(floor).as_str());
    s
}

pub open spec fn detach_line(skips: u64) -> Seq<char> {
    "shm_torture: detaches suppressed inside an owner-kill window: "@
        + digits(skips as nat)
}

fn say_detach_line(skips: u64) -> (r: String)
    ensures
        r@ == detach_line(skips),
{
    let mut s = "shm_torture: detaches suppressed inside an owner-kill window: ".to_owned();
    s.append(decimal(skips).as_str());
    s
}

/// How many inheritances the kills recorded.
pub open spec fn inheritances(v: Seq<Migration>) -> nat
    decreases v.len(),
{
    if v.len() == 0 {
        0
    } else {
        inheritances(v.drop_last()) + v.last().inherits as nat
    }
}

/// After how many of the kills a fresh process joined.
pub open spec fn joins(v: Seq<Migration>) -> nat
    decreases v.len(),
{
    if v.len() == 0 {
        0
    } else {
        joins(v.drop_last()) + if v.last().recovered_ms is Some {
            1nat
        } else {
            0nat
        }
    }
}

fn count_inheritances(v: &Vec<Migration>) -> (r: u64)
    requires
        inheritances(v@) <= u64::MAX,
    ensures
        r == inheritances(v@),
{
    let mut n: u64 = 0;
    let mut i: usize = 0;
    assert(v@.take(0) =~= seq![]);
    while i < v.len()
        invariant
            i <= v@.len(),
            inheritances(v@) <= u64::MAX,
            n == inheritances(v@.take(i as int)),
        decreases v@.len() - i,
    {
        assert(v@.take(i + 1).drop_last() =~= v@.take(i as int));
        proof {
            lemma_inheritances_grow(v@, i + 1);
        }
        n = n + v[i].inherits as u64;
        i = i + 1;
    }
    assert(v@.take(i as int) =~= v@);
    n
}

proof fn lemma_inheritances_grow(v: Seq<Migration>, k: int)
    requires
        0 <= k <= v.len(),
    ensures
        inheritances(v.take(k)) <= inheritances(v),
    decreases v.len(),
{
    if k < v.len() {
        lemma_inheritances_grow(v.drop_last(), k);
        assert(v.drop_last().take(k) =~= v.take(k));
    } else {
        assert(v.take(k) =~= v);
    }
}

fn count_joins(v: &Vec<Migration>) -> (r: u64)
    ensures
        r == joins(v@),
{
    let mut n: u64 = 0;
    let mut i: usize = 0;
    assert(v@.take(0) =~= seq![]);
    while i < v.len()
        invariant
            i <= v.len(),
            n <= i,
            n == joins(v@.take(i as int)),
        decreases v.len() - i,
    {
        assert(v@.take(i + 1).drop_last() =~= v@.take(i as int));
        if v[i].recovered_ms.is_some() {
            n = n + 1;
        }
        i = i + 1;
    }
    assert(v@.take(i as int) =~= v@);
    n
}

/// What the summary prints besides the driver's own state.
pub struct Closing {
    /// The rounds on one line.
    pub health: String,
    pub violations: usize,
    /// The crash points, where they were on.
    pub crash_points: bool,
    /// The mean and the worst recovery, in milliseconds with one decimal.
    pub mean_ms: String,
    pub worst_ms: String,
    /// What the trigger answered.
    pub tally: String,
    pub detach_skips: usize,
}

pub open spec fn times_text(joined: nat, mean: Seq<char>, worst: Seq<char>) -> Seq<char> {
    if joined == 0 {
        ""@
    } else {
        " (mean "@ + mean + " ms, worst "@ + worst + " ms)"@
    }
}

pub open spec fn prefixed(v: Seq<Seq<char>>, prefix: Seq<char>) -> Seq<Seq<char>> {
    v.map_values(|s: Seq<char>| prefix + s)
}

/// What is printed of the owner kills.
pub open spec fn owner_lines(d: Driver, c: Closing) -> Seq<Seq<char>> {
    seq![
        owner_line(
            d.migrations@.len() as u64,
            inheritances(d.migrations@) as u64,
            joins(d.migrations@) as u64,
            times_text(joins(d.migrations@), c.mean_ms@, c.worst_ms@),
        ),
        "shm_torture: §3.5 trigger outcomes: "@ + c.tally@,
        deferred_line(
            d.owner_kills_deferred as u64,
            d.role_holder_draws_skipped as u64,
            d.thin_pool_draws_skipped as u64,
            MIN_ATTACHED_FOR_ORDINARY_KILL,
        ),
        detach_line(c.detach_skips as u64),
    ] + prefixed(faults(d.migrations@), "  MIGRATION FAILURE: "@)
}

/// What is printed at the end, before the violations and the recovery.
pub open spec fn summary(d: Driver, l: CrashLedger, c: Closing) -> Seq<Seq<char>> {
    seq![
        reads_line((d.reads.chain + d.reads.edge) as u64),
        split_line(d.reads.chain, d.reads.edge, d.rounds),
        c.health@,
        kills_line(d.kills as u64, c.violations as u64),
    ] + (if c.crash_points {
        coverage(l)
    } else {
        seq![]
    }) + (if d.every_ns is Some {
        owner_lines(d, c)
    } else {
        seq![]
    })
}

fn push_all(to: &mut Vec<String>, more: Vec<String>, prefix: &str)
    ensures
        texts(final(to)@) == texts(old(to)@) + prefixed(texts(more@), prefix@),
{
    broadcast use lemma_texts_push;

    let ghost before = texts(to@);
    let ghost all = prefixed(texts(more@), prefix@);
    let mut i: usize = 0;
    assert(before + all.take(0) =~= before);
    while i < more.len()
        invariant
            i <= more@.len(),
            all == prefixed(texts(more@), prefix@),
            texts(to@) == before + all.take(i as int),
        decreases more@.len() - i,
    {
        let mut s = prefix.to_owned();
        s.append(more[i].as_str());
        assert(all[i as int] == s@);
        to.push(s);
        assert(before + all.take(i + 1) =~= (before + all.take(i as int)).push(all[i as int]));
        i = i + 1;
    }
    assert(all.take(i as int) =~= all);
}

impl Driver {
    /// What is printed of the owner kills.
    fn owner_report(&self, c: &Closing) -> (r: Vec<String>)
        requires
            self.countable(),
            inheritances(self.migrations@) <= u64::MAX,
        ensures
            texts(r@) == owner_lines(*self, *c),
    {
        let joined = count_joins(&self.migrations);
        let mut times = "".to_owned();
        if joined > 0 {
            times = " (mean ".to_owned();
            times.append(c.mean_ms.as_str());
            times.append(" ms, worst ");
            times.append(c.worst_ms.as_str());
            times.append(" ms)");
        }
        let mut out: Vec<String> = Vec::new();
        out.push(
            say_owner_line(
                self.migrations.len() as u64,
                count_inheritances(&self.migrations),
                joined,
                times.as_str(),
            ),
        );
        let mut tally = "shm_torture: §3.5 trigger outcomes: ".to_owned();
        tally.append(c.tally.as_str());
        out.push(tally);
        out.push(
            say_deferred_line(
                self.owner_kills_deferred as u64,
                self.role_holder_draws_skipped as u64,
                self.thin_pool_draws_skipped as u64,
                MIN_ATTACHED_FOR_ORDINARY_KILL,
            ),
        );
        out.push(say_detach_line(c.detach_skips as u64));
        let ghost head = texts(out@);
        push_all(&mut out, find_faults(&self.migrations), "  MIGRATION FAILURE: ");
        assert(head.len() == 4);
        assert(texts(out@) =~= owner_lines(*self, *c));
        out
    }

    /// What is printed at the end, before the violations and the recovery.
    pub fn report(&self, l: &CrashLedger, c: &Closing) -> (r: Vec<String>)
        requires
            self.countable(),
            inheritances(self.migrations@) <= u64::MAX,
        ensures
            texts(r@) == summary(*self, *l, *c),
    {
        let mut out: Vec<String> = Vec::new();
        out.push(say_reads_line(self.reads.total()));
        out.push(say_split_line(self.reads.chain, self.reads.edge, self.rounds));
        out.push(c.health.clone());
        out.push(say_kills_line(self.kills as u64, c.violations as u64));
        let ghost head = texts(out@);
        proof {
            lemma_no_prefix(coverage(*l));
            lemma_no_prefix(owner_lines(*self, *c));
        }
        if c.crash_points {
            push_all(&mut out, l.report(), "");
        }
        if self.every_ns.is_some() {
            push_all(&mut out, self.owner_report(c), "");
        }
        assert(head =~= seq![
            reads_line((self.reads.chain + self.reads.edge) as u64),
            split_line(self.reads.chain, self.reads.edge, self.rounds),
            c.health@,
            kills_line(self.kills as u64, c.violations as u64),
        ]);
        assert(texts(out@) =~= summary(*self, *l, *c));
        out
    }
}

proof fn lemma_no_prefix(v: Seq<Seq<char>>)
    ensures
        prefixed(v, ""@) == v,
{
    reveal_strlit("");
    assert forall|i: int| 0 <= i < v.len() implies #[trigger] prefixed(v, ""@)[i] == v[i] by {
        assert(""@ + v[i] =~= v[i]);
    }
    assert(prefixed(v, ""@) =~= v);
}

// ---------------------------------------------------------------------------
// What is said of a run
// ---------------------------------------------------------------------------

/// What is wrong first is what is said, with its numbers.
pub proof fn law_what_a_failed_run_is_told(d: Driver, e: End)
    requires
        e.violations == 0,
        e.wedge is None,
        forall|i: int|
            0 <= i < d.migrations@.len() ==> (#[trigger] d.migrations@[i]).fault() is None,
    ensures
        ({
            let none = d.kills == 0 && e.duration_ns >= e.interval_ns;
            let kept = d.every_ns is Some && d.migrations@.len() == 0 && (d.owner_kill_attempts > 0
                || e.duration_ns >= 4_000_000_000 + d.every_ns->0);
            let little = d.reads.chain < 16 * d.rounds || d.reads.edge < 8 * d.rounds;
            let idle = 2 * e.health.live_rounds < d.rounds;
            &&& none ==> judged(d, e) == Some(
                nobody_killed(
                    e.duration@,
                    e.kill_hz@,
                    d.role_holder_draws_skipped as u64,
                    d.thin_pool_draws_skipped as u64,
                    3,
                    3,
                ),
            )
            &&& !none && kept ==> judged(d, e) == Some(
                no_migration(
                    d.migrations@.len() as u64,
                    d.owner_kill_attempts as u64,
                    e.duration@,
                    e.every@,
                    d.owner_kills_deferred as u64,
                ),
            )
            &&& !none && !kept && e.inject ==> judged(d, e) == Some(
                injection_unseen(
                    d.reads.chain,
                    d.reads.edge,
                    d.rounds,
                    if little {
                        READ_TOO_LITTLE@
                    } else {
                        DETECTOR_FAILED@
                    },
                ),
            )
            &&& !none && !kept && !e.inject && little ==> judged(d, e) == Some(
                nothing_read(
                    d.reads.chain,
                    d.reads.edge,
                    d.rounds,
                    (16 * d.rounds) as u64,
                    (8 * d.rounds) as u64,
                    e.diagnosis@,
                ),
            )
            &&& !none && !kept && !e.inject && !little && idle ==> judged(d, e) == Some(
                not_live(
                    e.health.live_rounds,
                    d.rounds,
                    (d.reads.chain + d.reads.edge) as u64,
                    e.diagnosis@,
                ),
            )
            &&& !none && !kept && !e.inject && !little && !idle && e.recovery_failures > 0
                ==> judged(d, e) == Some(not_recovered(e.recovery_failures as u64))
            &&& !none && !kept && !e.inject && !little && !idle && e.recovery_failures == 0
                && e.crash_points && e.ledger.armed == 0 ==> judged(d, e) == Some(
                nothing_armed(d.rounds),
            )
            &&& !none && !kept && !e.inject && !little && !idle && e.recovery_failures == 0
                && e.crash_points && e.ledger.armed > 0 && e.ledger.aborted == 0 ==> judged(d, e)
                == Some(nothing_fired(e.ledger.armed as u64))
        }),
{
    lemma_all_passed(d.migrations@);
}

proof fn lemma_all_passed(v: Seq<Migration>)
    requires
        forall|i: int| 0 <= i < v.len() ==> (#[trigger] v[i]).fault() is None,
    ensures
        faults(v).len() == 0,
    decreases v.len(),
{
    if v.len() > 0 {
        let rest = v.drop_last();
        assert forall|i: int| 0 <= i < rest.len() implies (#[trigger] rest[i]).fault() is None by {
            assert(rest[i] == v[i]);
        }
        assert(v[v.len() - 1] == v.last());
        lemma_all_passed(rest);
    }
}

/// The faults of owner kills are those that have one, in their order.
pub proof fn law_faults_are_of_the_kills(v: Seq<Migration>)
    ensures
        faults(v) == v.filter(|m: Migration| m.fault() is Some).map_values(
            |m: Migration| m.fault()->0,
        ),
    decreases v.len(),
{
    reveal(Seq::filter);
    let f = |m: Migration| m.fault() is Some;
    let g = |m: Migration| m.fault()->0;
    if v.len() > 0 {
        law_faults_are_of_the_kills(v.drop_last());
        let rest = v.drop_last().filter(f);
        assert(rest.push(v.last()).map_values(g) =~= rest.map_values(g).push(g(v.last())));
    } else {
        assert(faults(v) =~= v.filter(f).map_values(g));
    }
}

/// A violation, and a run that was given up, come before everything else.
pub proof fn law_the_worst_is_told_first(d: Driver, e: End)
    ensures
        e.violations > 0 ==> (judged(d, e) matches Some(s) && begins(
            s,
            digits((e.violations as u64) as nat) + " invariant violation(s)"@,
        )),
        e.violations == 0 ==> (e.wedge matches Some(why) ==> judged(d, e) == Some(given_up(why@))),
        e.violations == 0 && e.wedge is None && faults(d.migrations@).len() > 0 ==> judged(d, e)
            == Some(
            not_migrated(
                faults(d.migrations@).len() as u64,
                d.migrations@.len() as u64,
                joined(faults(d.migrations@), "\n  "@),
            ),
        ),
{
    if e.violations > 0 {
        reveal_strlit(
            " invariant violation(s) — the arena is not crash-consistent (docs/PHASE2.md §12.3 gate 3)",
        );
        reveal_strlit(" invariant violation(s)");
        let s = violated(e.violations as u64);
        let p = digits((e.violations as u64) as nat) + " invariant violation(s)"@;
        assert(s.take(p.len() as int) =~= p);
    }
}

/// Of the owner kills those that failed are told, out of all of them, with the reasons.
pub proof fn law_failed_migrations_are_told(failed: u64, all: u64, why: Seq<char>)
    ensures
        begins(not_migrated(failed, all, why), digits(failed as nat) + " of "@ + digits(all as nat)),
{
    let doc = not_migrated(failed, all, why);
    let a0 = (digits(failed as nat) + " of "@ + digits(all as nat));
    let a1 = a0 + " owner kill(s) did not recover — docs/PHASE2.md §3.5's ownership migration did not happen:\n  "@;
    let a2 = a1 + why;
    assert(doc =~= a2);
    assert(doc.take(a2.len() as int) =~= a2);
    lemma_end_of_a_beginning(doc, a1, why);
    lemma_end_of_a_beginning(doc, a0, " owner kill(s) did not recover — docs/PHASE2.md §3.5's ownership migration did not happen:\n  "@);
}

/// Where nobody was killed, the draws that landed on the holder are told apart from those that found too few.
pub proof fn law_skipped_draws_are_told_apart(duration: Seq<char>,
    rate: Seq<char>,
    holder: u64,
    thin: u64,
    floor: u64,
    least: u64,
)
    ensures
        begins(nobody_killed(duration, rate, holder, thin, floor, least), "no participant was killed in "@ + duration),
        holds(nobody_killed(duration, rate, holder, thin, floor, least), digits(holder as nat) + " that landed on the rendezvous role holder, "@),
        holds(nobody_killed(duration, rate, holder, thin, floor, least), digits(thin as nat) + " against an attached pool at its floor of "@),
{
    let doc = nobody_killed(duration, rate, holder, thin, floor, least);
    let a0 = ("no participant was killed in "@ + duration);
    let a1 = a0 + " at --kill-hz "@;
    let a2 = a1 + rate;
    let a3 = a2 + ", so this run is not docs/PHASE2.md §11.4's workload — it validated an arena nobody was tearing down. Ordinary draws skipped: "@;
    let a4 = a3 + (digits(holder as nat) + " that landed on the rendezvous role holder, "@);
    let a5 = a4 + (digits(thin as nat) + " against an attached pool at its floor of "@);
    let a6 = a5 + digits(floor as nat);
    let a7 = a6 + ". If the second number is large the fleet never sustained "@;
    let a8 = a7 + digits(least as nat);
    let a9 = a8 + " attached participants: raise --children, or lower --kill-hz so a replacement finishes its handshake before the next draw."@;
    assert(doc =~= a9);
    assert(doc.take(a9.len() as int) =~= a9);
    lemma_end_of_a_beginning(doc, a8, " attached participants: raise --children, or lower --kill-hz so a replacement finishes its handshake before the next draw."@);
    lemma_end_of_a_beginning(doc, a7, digits(least as nat));
    lemma_end_of_a_beginning(doc, a6, ". If the second number is large the fleet never sustained "@);
    lemma_end_of_a_beginning(doc, a5, digits(floor as nat));
    lemma_end_of_a_beginning(doc, a4, (digits(thin as nat) + " against an attached pool at its floor of "@));
    lemma_end_of_a_beginning(doc, a3, (digits(holder as nat) + " that landed on the rendezvous role holder, "@));
    lemma_end_of_a_beginning(doc, a2, ", so this run is not docs/PHASE2.md §11.4's workload — it validated an arena nobody was tearing down. Ordinary draws skipped: "@);
    lemma_end_of_a_beginning(doc, a1, rate);
    lemma_end_of_a_beginning(doc, a0, " at --kill-hz "@);
}

/// Where no owner died, what was made is told apart from what was tried and from what was deferred.
pub proof fn law_missing_migrations_are_told(
    made: u64,
    attempts: u64,
    duration: Seq<char>,
    every: Seq<char>,
    deferred: u64,
)
    ensures
        begins(no_migration(made, attempts, duration, every, deferred), "the owner-kill arm is on and produced "@ + digits(made as nat)),
        holds(no_migration(made, attempts, duration, every, deferred), " migration(s) from "@ + digits(attempts as nat)),
        holds(no_migration(made, attempts, duration, every, deferred), " attempt(s) in "@ + duration),
{
    let doc = no_migration(made, attempts, duration, every, deferred);
    let a0 = ("the owner-kill arm is on and produced "@ + digits(made as nat));
    let a1 = a0 + (" migration(s) from "@ + digits(attempts as nat));
    let a2 = a1 + (" attempt(s) in "@ + duration);
    let a3 = a2 + " (first due at 4s, then every "@;
    let a4 = a3 + every;
    let a5 = a4 + "). This run covers none of docs/PHASE2.md §3.5 and must not be quoted as if it did. "@;
    let a6 = a5 + digits(deferred as nat);
    let a7 = a6 + " owner kill(s) were DEFERRED for want of a second eligible heir — deferrals are deliberately not counted as migrations, precisely so that a run which deferred every one of them lands here instead of printing PASS over an arm that never fired. A nonzero deferral count with zero migrations means the fleet never held two read-write participants at any attempt: raise `--children`, or lower `--kill-hz` so a replacement finishes its handshake before the next draw."@;
    assert(doc =~= a7);
    assert(doc.take(a7.len() as int) =~= a7);
    lemma_end_of_a_beginning(doc, a6, " owner kill(s) were DEFERRED for want of a second eligible heir — deferrals are deliberately not counted as migrations, precisely so that a run which deferred every one of them lands here instead of printing PASS over an arm that never fired. A nonzero deferral count with zero migrations means the fleet never held two read-write participants at any attempt: raise `--children`, or lower `--kill-hz` so a replacement finishes its handshake before the next draw."@);
    lemma_end_of_a_beginning(doc, a5, digits(deferred as nat));
    lemma_end_of_a_beginning(doc, a4, "). This run covers none of docs/PHASE2.md §3.5 and must not be quoted as if it did. "@);
    lemma_end_of_a_beginning(doc, a3, every);
    lemma_end_of_a_beginning(doc, a2, " (first due at 4s, then every "@);
    lemma_end_of_a_beginning(doc, a1, (" attempt(s) in "@ + duration));
    lemma_end_of_a_beginning(doc, a0, (" migration(s) from "@ + digits(attempts as nat)));
}

/// Where the bad transform was not found, what was read is told: of the chain, of single edges, and over how many rounds.
pub proof fn law_an_unseen_injection_is_told(chain: u64, edge: u64, rounds: u64, why: Seq<char>)
    ensures
        holds(injection_unseen(chain, edge, rounds, why), digits(chain as nat) + " composed and "@),
        holds(injection_unseen(chain, edge, rounds, why), digits(edge as nat) + " single-edge transforms over "@),
        holds(injection_unseen(chain, edge, rounds, why), digits(rounds as nat) + " rounds, so "@),
{
    let doc = injection_unseen(chain, edge, rounds, why);
    let a0 = "--inject-violation ran to completion with 0 violations: a child published a NaN translation for the whole run and no reader — not the observer, not a sibling — reported it. The observer validated "@;
    let a1 = a0 + (digits(chain as nat) + " composed and "@);
    let a2 = a1 + (digits(edge as nat) + " single-edge transforms over "@);
    let a3 = a2 + (digits(rounds as nat) + " rounds, so "@);
    let a4 = a3 + why;
    assert(doc =~= a4);
    assert(doc.take(a4.len() as int) =~= a4);
    lemma_end_of_a_beginning(doc, a3, why);
    lemma_end_of_a_beginning(doc, a2, (digits(rounds as nat) + " rounds, so "@));
    lemma_end_of_a_beginning(doc, a1, (digits(edge as nat) + " single-edge transforms over "@));
    lemma_end_of_a_beginning(doc, a0, (digits(chain as nat) + " composed and "@));
}

/// Where too little was read, what was read is told, and how much it had to be.
pub proof fn law_too_few_reads_are_told(
    chain: u64,
    edge: u64,
    rounds: u64,
    want_chain: u64,
    want_edge: u64,
    diagnosis: Seq<char>,
)
    ensures
        begins(nothing_read(chain, edge, rounds, want_chain, want_edge, diagnosis), "the observer validated "@ + digits(chain as nat) + " composed and "@),
        holds(nothing_read(chain, edge, rounds, want_chain, want_edge, diagnosis), digits(edge as nat) + " single-edge transforms over "@),
        holds(nothing_read(chain, edge, rounds, want_chain, want_edge, diagnosis), digits(rounds as nat) + " rounds, under the floor of "@),
        holds(nothing_read(chain, edge, rounds, want_chain, want_edge, diagnosis), digits(want_chain as nat) + "/"@ + digits(want_edge as nat)),
{
    let doc = nothing_read(chain, edge, rounds, want_chain, want_edge, diagnosis);
    let a0 = ("the observer validated "@ + digits(chain as nat) + " composed and "@);
    let a1 = a0 + (digits(edge as nat) + " single-edge transforms over "@);
    let a2 = a1 + (digits(rounds as nat) + " rounds, under the floor of "@);
    let a3 = a2 + (digits(want_chain as nat) + "/"@ + digits(want_edge as nat));
    let a4 = a3 + ". This run proves nothing: `0 violation(s)` is also what a harness that never read anything prints. "@;
    let a5 = a4 + diagnosis;
    let a6 = a5 + ".\n\nRead that as follows. The composed read needs one stamp all four rings can answer at once, so it collapses when one edge stops being written while the others keep wrapping past it; the single-edge reads need only their own ring and keep succeeding on a ring nobody has touched for an hour. `writers` at or near 0 with a large `freshest` therefore means the arena was not being written at all — look at the `could not join` lines on stderr and at the leaked-slot count above, not at `common_window`."@;
    assert(doc =~= a6);
    assert(doc.take(a6.len() as int) =~= a6);
    lemma_end_of_a_beginning(doc, a5, ".\n\nRead that as follows. The composed read needs one stamp all four rings can answer at once, so it collapses when one edge stops being written while the others keep wrapping past it; the single-edge reads need only their own ring and keep succeeding on a ring nobody has touched for an hour. `writers` at or near 0 with a large `freshest` therefore means the arena was not being written at all — look at the `could not join` lines on stderr and at the leaked-slot count above, not at `common_window`."@);
    lemma_end_of_a_beginning(doc, a4, diagnosis);
    lemma_end_of_a_beginning(doc, a3, ". This run proves nothing: `0 violation(s)` is also what a harness that never read anything prints. "@);
    lemma_end_of_a_beginning(doc, a2, (digits(want_chain as nat) + "/"@ + digits(want_edge as nat)));
    lemma_end_of_a_beginning(doc, a1, (digits(rounds as nat) + " rounds, under the floor of "@));
    lemma_end_of_a_beginning(doc, a0, (digits(edge as nat) + " single-edge transforms over "@));
}

/// Where the arena was not being written, the rounds in which it was are told out of all of them.
pub proof fn law_an_idle_arena_is_told(live: u64, rounds: u64, reads: u64, diagnosis: Seq<char>)
    ensures
        begins(not_live(live, rounds, reads, diagnosis), "the arena was being written on only "@ + digits(live as nat) + "/"@ + digits(rounds as nat)),
{
    let doc = not_live(live, rounds, reads, diagnosis);
    let a0 = ("the arena was being written on only "@ + digits(live as nat) + "/"@ + digits(rounds as nat));
    let a1 = a0 + " observation rounds: for the rest of the run no chain edge had a live writer, or the freshest sample on any of the four was over a second old. The "@;
    let a2 = a1 + digits(reads as nat);
    let a3 = a2 + " transforms the observer validated came out of rings whose writers were gone — a ring outlives the process that filled it, so those reads say nothing about a live arena.\n\n"@;
    let a4 = a3 + diagnosis;
    assert(doc =~= a4);
    assert(doc.take(a4.len() as int) =~= a4);
    lemma_end_of_a_beginning(doc, a3, diagnosis);
    lemma_end_of_a_beginning(doc, a2, " transforms the observer validated came out of rings whose writers were gone — a ring outlives the process that filled it, so those reads say nothing about a live arena.\n\n"@);
    lemma_end_of_a_beginning(doc, a1, digits(reads as nat));
    lemma_end_of_a_beginning(doc, a0, " observation rounds: for the rest of the run no chain edge had a live writer, or the freshest sample on any of the four was over a second old. The "@);
}

/// The summary counts what was read, in all and of each kind, the kills and the violations; with
/// owner kills on, also those, the inheritances, the joins and what was put off.
pub proof fn law_what_the_summary_says(d: Driver, l: CrashLedger, c: Closing)
    ensures
        ({
            let s = summary(d, l, c);
            &&& s.len() >= 4
            &&& s[0] == "shm_torture: "@ + digits(
                ((d.reads.chain + d.reads.edge) as u64) as nat,
            ) + " checked reads from the observer"@
            &&& s[1] == "shm_torture:   "@ + digits(d.reads.chain as nat) + " composed map->tool, "@
                + digits(d.reads.edge as nat) + " single-edge, over "@ + digits(d.rounds as nat)
                + " rounds"@
            &&& s[2] == c.health@
            &&& s[3] == "shm_torture: "@ + digits((d.kills as u64) as nat) + " kills, "@ + digits(
                (c.violations as u64) as nat,
            ) + " violation(s)"@
            &&& !c.crash_points && d.every_ns is None ==> s.len() == 4
            &&& c.crash_points && d.every_ns is None ==> s.skip(4) == coverage(l)
            &&& !c.crash_points && d.every_ns is Some ==> s.skip(4) == owner_lines(d, c)
            &&& c.crash_points && d.every_ns is Some ==> s.skip(4) == coverage(l) + owner_lines(
                d,
                c,
            )
        }),
{
    let s = summary(d, l, c);
    if d.every_ns is None {
        if c.crash_points {
            assert(s.skip(4) =~= coverage(l));
        }
    } else if c.crash_points {
        assert(s.skip(4) =~= coverage(l) + owner_lines(d, c));
    } else {
        assert(s.skip(4) =~= owner_lines(d, c));
    }
}

/// The lines on owner kills count the kills, the inheritances and the joins, then what was put
/// off and what was skipped; and every fault has its line.
pub proof fn law_what_is_said_of_owner_kills(d: Driver, c: Closing)
    ensures
        ({
            let s = owner_lines(d, c);
            let v = d.migrations@;
            &&& s.len() == 4 + faults(v).len()
            &&& begins(
                s[0],
                "shm_torture: §3.5: "@ + digits((v.len() as u64) as nat) + " owner kill(s), "@
                    + digits((inheritances(v) as u64) as nat)
                    + " inheritance(s) recorded by survivors, "@ + digits((joins(v) as u64) as nat)
                    + " fresh join(s) after a migration"@,
            )
            &&& s[1] == "shm_torture: §3.5 trigger outcomes: "@ + c.tally@
            &&& s[2]
                == "shm_torture: §3.5 owner kills deferred for want of a second eligible heir: "@
                + digits((d.owner_kills_deferred as u64) as nat)
                + "; ordinary victim draws skipped — "@ + digits(
                (d.role_holder_draws_skipped as u64) as nat,
            ) + " that landed on the role holder, "@ + digits(
                (d.thin_pool_draws_skipped as u64) as nat,
            ) + " against an attached pool already at its floor of "@ + digits(3)
            &&& s[3] == "shm_torture: detaches suppressed inside an owner-kill window: "@ + digits(
                (c.detach_skips as u64) as nat,
            )
            &&& forall|i: int|
                0 <= i < faults(v).len() ==> #[trigger] s[4 + i] == "  MIGRATION FAILURE: "@
                    + faults(v)[i]
        }),
{
    let s = owner_lines(d, c);
    let v = d.migrations@;
    let p = "shm_torture: §3.5: "@ + digits((v.len() as u64) as nat) + " owner kill(s), "@ + digits(
        (inheritances(v) as u64) as nat,
    ) + " inheritance(s) recorded by survivors, "@ + digits((joins(v) as u64) as nat)
        + " fresh join(s) after a migration"@;
    assert(s[0].take(p.len() as int) =~= p);
}

/// Every recovery counts as a join, and every inheritance of every kill counts.
pub proof fn law_joins_and_inheritances_add_up(v: Seq<Migration>, m: Migration)
    ensures
        joins(v) == v.filter(|x: Migration| x.recovered_ms is Some).len(),
        inheritances(seq![]) == 0,
        inheritances(v.push(m)) == inheritances(v) + m.inherits,
    decreases v.len(),
{
    reveal(Seq::filter);
    assert(v.push(m).drop_last() =~= v);
    if v.len() > 0 {
        law_joins_and_inheritances_add_up(v.drop_last(), m);
    }
}

} // verus!
