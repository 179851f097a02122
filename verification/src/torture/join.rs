//! How long a worker takes from holding no attachment to holding one.

use vstd::prelude::*;

use super::DIAG;
use crate::text::{begins, decimal, digits, holds, lemma_end_of_a_beginning};

verus! {

/// A trip that takes longer is reported, in nanoseconds.
pub const SLOW_JOIN_NS: u128 = 100_000_000;

/// How many lines one process prints.
pub const SLOW_JOIN_LINES: u32 = 20;

/// How many lines a run prints.
pub const SLOW_JOIN_RUN_LINES: u64 = 200;

/// One trip.
pub struct JoinEpisode {
    /// Whether the process was attached before.
    pub rejoin: bool,
    pub attempts: u32,
    /// The first error, as it prints.
    pub first_refusal: Option<String>,
    /// Whether this trip's refusal was reported or withheld.
    pub refusal_reported: bool,
}

/// The parts of a trip, in milliseconds with one decimal.
pub struct JoinTexts {
    pub total: String,
    /// From the spawn to the start of the process, on its first trip.
    pub start_up: Option<String>,
    /// Up to the first attempt.
    pub lead: String,
    pub pre_open: String,
    pub in_open: String,
    pub backoff: String,
}

pub open spec fn splits(t: JoinTexts, rejoin: bool) -> Seq<char> {
    (match t.start_up {
        Some(e) => "exec_ms="@ + e@ + " "@,
        None => ""@,
    }) + (if rejoin {
        "drop_ms"@
    } else {
        "setup_ms"@
    }) + "="@ + t.lead@ + " pre_open_ms="@ + t.pre_open@ + " in_open_ms="@ + t.in_open@
        + " backoff_ms="@ + t.backoff@
}

fn say_splits(t: &JoinTexts, rejoin: bool) -> (r: String)
    ensures
        r@ == splits(*t, rejoin),
{
    let mut s = "".to_owned();
    match &t.start_up {
        Some(e) => {
            s = "exec_ms=".to_owned();
            s.append(e.as_str());
            s.append(" ");
        },
        None => {},
    }
    if rejoin {
        s.append("drop_ms");
    } else {
        s.append("setup_ms");
    }
    s.append("=");
    s.append(t.lead.as_str());
    s.append(" pre_open_ms=");
    s.append(t.pre_open.as_str());
    s.append(" in_open_ms=");
    s.append(t.in_open.as_str());
    s.append(" backoff_ms=");
    s.append(t.backoff.as_str());
    s
}

pub open spec fn kind(rejoin: bool) -> Seq<char> {
    if rejoin {
        "rejoin"@
    } else {
        "first-join"@
    }
}

fn say_kind(rejoin: bool) -> (r: &'static str)
    ensures
        r@ == kind(rejoin),
{
    if rejoin {
        "rejoin"
    } else {
        "first-join"
    }
}

pub open spec fn refused_line(
    pid: u64,
    kind: Seq<char>,
    since: Seq<char>,
    splits: Seq<char>,
    attempt: u64,
    error: Seq<char>,
    stamp: Seq<char>,
    line: u64,
    lines: u64,
    run_line: u64,
    run_lines: u64,
) -> Seq<char> {
    "join-refused pid="@
        + digits(pid as nat)
        + " kind="@
        + kind
        + " since_ms="@
        + since
        + " "@
        + splits
        + " attempt="@
        + digits(attempt as nat)
        + " error="@
        + error
        + " stamp="@
        + stamp
        + " line="@
        + digits(line as nat)
        + "/"@
        + digits(lines as nat)
        + " run_line="@
        + digits(run_line as nat)
        + "/"@
        + digits(run_lines as nat)
}

fn say_refused_line(
    pid: u64,
    kind: &str,
    since: &str,
    splits: &str,
    attempt: u64,
    error: &str,
    stamp: &str,
    line: u64,
    lines: u64,
    run_line: u64,
    run_lines: u64,
) -> (r: String)
    ensures
        r@ == refused_line(pid, kind@, since@, splits@, attempt, error@, stamp@, line, lines, run_line, run_lines),
{
    let mut s = "join-refused pid=".to_owned();
    s.append(decimal(pid).as_str());
    s.append(" kind=");
    s.append(kind);
    s.append(" since_ms=");
    s.append(since);
    s.append(" ");
    s.append(splits);
    s.append(" attempt=");
    s.append(decimal(attempt).as_str());
    s.append(" error=");
    s.append(error);
    s.append(" stamp=");
    s.append(stamp);
    s.append(" line=");
    s.append(decimal(line).as_str());
    s.append("/");
    s.append(decimal(lines).as_str());
    s.append(" run_line=");
    s.append(decimal(run_line).as_str());
    s.append("/");
    s.append(decimal(run_lines).as_str());
    s
}

pub open spec fn slow_line(
    pid: u64,
    kind: Seq<char>,
    total: Seq<char>,
    splits: Seq<char>,
    attempts: u64,
    refusal: Seq<char>,
    stamp: Seq<char>,
    line: u64,
    lines: u64,
    run_line: u64,
    run_lines: u64,
) -> Seq<char> {
    "slow-join pid="@
        + digits(pid as nat)
        + " kind="@
        + kind
        + " total_ms="@
        + total
        + " "@
        + splits
        + " attempts="@
        + digits(attempts as nat)
        + " outcome=joined first_refusal="@
        + refusal
        + " stamp="@
        + stamp
        + " line="@
        + digits(line as nat)
        + "/"@
        + digits(lines as nat)
        + " run_line="@
        + digits(run_line as nat)
        + "/"@
        + digits(run_lines as nat)
}

fn say_slow_line(
    pid: u64,
    kind: &str,
    total: &str,
    splits: &str,
    attempts: u64,
    refusal: &str,
    stamp: &str,
    line: u64,
    lines: u64,
    run_line: u64,
    run_lines: u64,
) -> (r: String)
    ensures
        r@ == slow_line(pid, kind@, total@, splits@, attempts, refusal@, stamp@, line, lines, run_line, run_lines),
{
    let mut s = "slow-join pid=".to_owned();
    s.append(decimal(pid).as_str());
    s.append(" kind=");
    s.append(kind);
    s.append(" total_ms=");
    s.append(total);
    s.append(" ");
    s.append(splits);
    s.append(" attempts=");
    s.append(decimal(attempts).as_str());
    s.append(" outcome=joined first_refusal=");
    s.append(refusal);
    s.append(" stamp=");
    s.append(stamp);
    s.append(" line=");
    s.append(decimal(line).as_str());
    s.append("/");
    s.append(decimal(lines).as_str());
    s.append(" run_line=");
    s.append(decimal(run_line).as_str());
    s.append("/");
    s.append(decimal(run_lines).as_str());
    s
}

pub open spec fn budget_line(
    diag: Seq<char>,
    withheld: u64,
    past_run: u64,
    run_cap: u64,
    past_process: u64,
    process_cap: u64,
    claimed: u64,
) -> Seq<char> {
    diag
        + " slow-join budget: "@
        + digits(withheld as nat)
        + " line(s) withheld, "@
        + digits(past_run as nat)
        + " past the run-wide cap of "@
        + digits(run_cap as nat)
        + " and "@
        + digits(past_process as nat)
        + " past a process's own cap of "@
        + digits(process_cap as nat)
        + "; "@
        + digits(claimed as nat)
        + " line number(s) were claimed within the run-wide cap (a child killed between its claim and its write printed none)"@
}

fn say_budget_line(
    diag: &str,
    withheld: u64,
    past_run: u64,
    run_cap: u64,
    past_process: u64,
    process_cap: u64,
    claimed: u64,
) -> (r: String)
    ensures
        r@ == budget_line(diag@, withheld, past_run, run_cap, past_process, process_cap, claimed),
{
    let mut s = diag.to_owned();
    s.append(" slow-join budget: ");
    s.append(decimal(withheld).as_str());
    s.append(" line(s) withheld, ");
    s.append(decimal(past_run).as_str());
    s.append(" past the run-wide cap of ");
    s.append(decimal(run_cap).as_str());
    s.append(" and ");
    s.append(decimal(past_process).as_str());
    s.append(" past a process's own cap of ");
    s.append(decimal(process_cap).as_str());
    s.append("; ");
    s.append(decimal(claimed).as_str());
    s.append(
        " line number(s) were claimed within the run-wide cap (a child killed between its claim and its write printed none)",
    );
    s
}

/// Whether a process may still print a line of its own.
pub fn may_claim(lines: u32) -> (r: bool)
    ensures
        r == (lines < SLOW_JOIN_LINES),
{
    lines < SLOW_JOIN_LINES
}

/// The number that a claim gives a line, where the run's lines are not spent.
pub fn claimed_line(claim: Option<u64>) -> (r: Option<u64>)
    ensures
        r == (match claim {
            Some(n) => if n <= SLOW_JOIN_RUN_LINES {
                Some(n)
            } else {
                None
            },
            None => None,
        }),
{
    match claim {
        Some(n) => if n <= SLOW_JOIN_RUN_LINES {
            Some(n)
        } else {
            None
        },
        None => None,
    }
}

impl JoinEpisode {
    pub fn new(rejoin: bool) -> (r: JoinEpisode)
        ensures
            r == (JoinEpisode {
                rejoin,
                attempts: 0,
                first_refusal: None,
                refusal_reported: false,
            }),
    {
        JoinEpisode { rejoin, attempts: 0, first_refusal: None, refusal_reported: false }
    }

    /// One more attempt. Says whether it is the first.
    pub fn attempt(&mut self) -> (r: bool)
        requires
            old(self).attempts < u32::MAX,
        ensures
            r == (old(self).attempts == 0),
            *final(self) == (JoinEpisode { attempts: (old(self).attempts + 1) as u32, ..*old(self)
            }),
    {
        self.attempts = self.attempts + 1;
        self.attempts == 1
    }

    /// An attempt was refused, so long after the trip began. Says whether that is to be
    /// reported: once in a trip, and only where it is slow.
    pub fn refused(&mut self, error: &str, total_ns: u128) -> (r: bool)
        ensures
            r == (!old(self).refusal_reported && total_ns > SLOW_JOIN_NS),
            final(self).refusal_reported == (old(self).refusal_reported || r),
            final(self).attempts == old(self).attempts,
            final(self).rejoin == old(self).rejoin,
            match old(self).first_refusal {
                Some(_) => final(self).first_refusal == old(self).first_refusal,
                None => final(self).first_refusal matches Some(s) && s@ == error@,
            },
    {
        if self.first_refusal.is_none() {
            self.first_refusal = Some(error.to_owned());
        }
        if self.refusal_reported || total_ns <= SLOW_JOIN_NS {
            return false;
        }
        self.refusal_reported = true;
        true
    }

    /// Whether a trip that ended is to be reported.
    pub fn is_slow(&self, total_ns: u128) -> (r: bool)
        ensures
            r == (total_ns > SLOW_JOIN_NS),
    {
        total_ns > SLOW_JOIN_NS
    }

    /// The line on a refused attempt.
    pub fn refused_text(
        &self,
        pid: u32,
        t: &JoinTexts,
        error: &str,
        stamp: &str,
        line: u32,
        run_line: u64,
    ) -> (r: String)
        ensures
            r@ == refused_line(
                pid as u64,
                kind(self.rejoin),
                t.total@,
                splits(*t, self.rejoin),
                self.attempts as u64,
                error@,
                stamp@,
                line as u64,
                SLOW_JOIN_LINES as u64,
                run_line,
                SLOW_JOIN_RUN_LINES,
            ),
    {
        say_refused_line(
            pid as u64,
            say_kind(self.rejoin),
            t.total.as_str(),
            say_splits(t, self.rejoin).as_str(),
            self.attempts as u64,
            error,
            stamp,
            line as u64,
            SLOW_JOIN_LINES as u64,
            run_line,
            SLOW_JOIN_RUN_LINES,
        )
    }

    /// The line on a trip that ended.
    pub fn joined_text(&self, pid: u32, t: &JoinTexts, stamp: &str, line: u32, run_line: u64) -> (r:
        String)
        ensures
            r@ == slow_line(
                pid as u64,
                kind(self.rejoin),
                t.total@,
                splits(*t, self.rejoin),
                self.attempts as u64,
                match self.first_refusal {
                    Some(s) => s@,
                    None => "none"@,
                },
                stamp@,
                line as u64,
                SLOW_JOIN_LINES as u64,
                run_line,
                SLOW_JOIN_RUN_LINES,
            ),
    {
        let refusal = match &self.first_refusal {
            Some(s) => s.clone(),
            None => "none".to_owned(),
        };
        say_slow_line(
            pid as u64,
            say_kind(self.rejoin),
            t.total.as_str(),
            say_splits(t, self.rejoin).as_str(),
            self.attempts as u64,
            refusal.as_str(),
            stamp,
            line as u64,
            SLOW_JOIN_LINES as u64,
            run_line,
            SLOW_JOIN_RUN_LINES,
        )
    }
}

/// How many of the claims are past the run's lines.
pub open spec fn past_run(claimed: u64) -> int {
    if claimed > SLOW_JOIN_RUN_LINES {
        claimed - SLOW_JOIN_RUN_LINES
    } else {
        0
    }
}

/// The closing line on what the caps withheld, where they withheld anything.
pub fn slow_join_budget_line(claimed: u64, withheld: u64) -> (r: Option<String>)
    requires
        past_run(claimed) + withheld <= u64::MAX,
    ensures
        match r {
            None => past_run(claimed) + withheld == 0,
            Some(s) => past_run(claimed) + withheld > 0 && s@ == budget_line(
                DIAG@,
                (past_run(claimed) + withheld) as u64,
                past_run(claimed) as u64,
                SLOW_JOIN_RUN_LINES,
                withheld,
                SLOW_JOIN_LINES as u64,
                if claimed < SLOW_JOIN_RUN_LINES {
                    claimed
                } else {
                    SLOW_JOIN_RUN_LINES
                },
            ),
        },
{
    let past: u64 = if claimed > SLOW_JOIN_RUN_LINES {
        claimed - SLOW_JOIN_RUN_LINES
    } else {
        0
    };
    if past + withheld == 0 {
        return None;
    }
    let within: u64 = if claimed < SLOW_JOIN_RUN_LINES {
        claimed
    } else {
        SLOW_JOIN_RUN_LINES
    };
    Some(
        say_budget_line(
            DIAG,
            past + withheld,
            past,
            SLOW_JOIN_RUN_LINES,
            withheld,
            SLOW_JOIN_LINES as u64,
            within,
        ),
    )
}

/// The line on a refusal gives each thing under the word for it.
pub proof fn law_a_refusal_is_told_by_name(
    pid: u64,
    kind: Seq<char>,
    since: Seq<char>,
    splits: Seq<char>,
    attempt: u64,
    error: Seq<char>,
    stamp: Seq<char>,
    line: u64,
    lines: u64,
    run_line: u64,
    run_lines: u64,
)
    ensures
        ({
            let doc = refused_line(
                pid,
                kind,
                since,
                splits,
                attempt,
                error,
                stamp,
                line,
                lines,
                run_line,
                run_lines,
            );
            &&& begins(doc, "join-refused pid="@ + digits(pid as nat))
            &&& holds(doc, " kind="@ + kind)
            &&& holds(doc, " since_ms="@ + since)
            &&& holds(doc, splits)
            &&& holds(doc, " attempt="@ + digits(attempt as nat))
            &&& holds(doc, " error="@ + error)
            &&& holds(doc, " stamp="@ + stamp)
            &&& holds(doc, " line="@ + digits(line as nat) + "/"@ + digits(lines as nat))
            &&& holds(
                doc,
                " run_line="@ + digits(run_line as nat) + "/"@ + digits(run_lines as nat),
            )
        }),
{
    let doc = refused_line(
        pid,
        kind,
        since,
        splits,
        attempt,
        error,
        stamp,
        line,
        lines,
        run_line,
        run_lines,
    );
    let a0 = "join-refused pid="@;
    let a1 = a0 + digits(pid as nat);
    let a2 = a1 + (" kind="@ + kind);
    let a3 = a2 + (" since_ms="@ + since);
    let a4 = a3 + " "@;
    let a5 = a4 + splits;
    let a6 = a5 + (" attempt="@ + digits(attempt as nat));
    let a7 = a6 + (" error="@ + error);
    let a8 = a7 + (" stamp="@ + stamp);
    let a9 = a8 + (" line="@ + digits(line as nat) + "/"@ + digits(lines as nat));
    let a10 = a9 + (" run_line="@ + digits(run_line as nat) + "/"@ + digits(run_lines as nat));
    assert(doc =~= a10);
    assert(doc.take(a10.len() as int) =~= a10);
    lemma_end_of_a_beginning(doc, a9, (" run_line="@ + digits(run_line as nat) + "/"@ + digits(run_lines as nat)));
    lemma_end_of_a_beginning(doc, a8, (" line="@ + digits(line as nat) + "/"@ + digits(lines as nat)));
    lemma_end_of_a_beginning(doc, a7, (" stamp="@ + stamp));
    lemma_end_of_a_beginning(doc, a6, (" error="@ + error));
    lemma_end_of_a_beginning(doc, a5, (" attempt="@ + digits(attempt as nat)));
    lemma_end_of_a_beginning(doc, a4, splits);
    lemma_end_of_a_beginning(doc, a3, " "@);
    lemma_end_of_a_beginning(doc, a2, (" since_ms="@ + since));
    lemma_end_of_a_beginning(doc, a1, (" kind="@ + kind));
    lemma_end_of_a_beginning(doc, a0, digits(pid as nat));
}

/// The line on a slow join gives each thing under the word for it.
pub proof fn law_a_slow_join_is_told_by_name(
    pid: u64,
    kind: Seq<char>,
    total: Seq<char>,
    splits: Seq<char>,
    attempts: u64,
    refusal: Seq<char>,
    stamp: Seq<char>,
    line: u64,
    lines: u64,
    run_line: u64,
    run_lines: u64,
)
    ensures
        ({
            let doc = slow_line(
                pid,
                kind,
                total,
                splits,
                attempts,
                refusal,
                stamp,
                line,
                lines,
                run_line,
                run_lines,
            );
            &&& begins(doc, "slow-join pid="@ + digits(pid as nat))
            &&& holds(doc, " kind="@ + kind)
            &&& holds(doc, " total_ms="@ + total)
            &&& holds(doc, splits)
            &&& holds(doc, " attempts="@ + digits(attempts as nat))
            &&& holds(doc, " outcome=joined first_refusal="@ + refusal)
            &&& holds(doc, " stamp="@ + stamp)
            &&& holds(doc, " line="@ + digits(line as nat) + "/"@ + digits(lines as nat))
            &&& holds(
                doc,
                " run_line="@ + digits(run_line as nat) + "/"@ + digits(run_lines as nat),
            )
        }),
{
    let doc = slow_line(
        pid,
        kind,
        total,
        splits,
        attempts,
        refusal,
        stamp,
        line,
        lines,
        run_line,
        run_lines,
    );
    let a0 = "slow-join pid="@;
    let a1 = a0 + digits(pid as nat);
    let a2 = a1 + (" kind="@ + kind);
    let a3 = a2 + (" total_ms="@ + total);
    let a4 = a3 + " "@;
    let a5 = a4 + splits;
    let a6 = a5 + (" attempts="@ + digits(attempts as nat));
    let a7 = a6 + (" outcome=joined first_refusal="@ + refusal);
    let a8 = a7 + (" stamp="@ + stamp);
    let a9 = a8 + (" line="@ + digits(line as nat) + "/"@ + digits(lines as nat));
    let a10 = a9 + (" run_line="@ + digits(run_line as nat) + "/"@ + digits(run_lines as nat));
    assert(doc =~= a10);
    assert(doc.take(a10.len() as int) =~= a10);
    lemma_end_of_a_beginning(doc, a9, (" run_line="@ + digits(run_line as nat) + "/"@ + digits(run_lines as nat)));
    lemma_end_of_a_beginning(doc, a8, (" line="@ + digits(line as nat) + "/"@ + digits(lines as nat)));
    lemma_end_of_a_beginning(doc, a7, (" stamp="@ + stamp));
    lemma_end_of_a_beginning(doc, a6, (" outcome=joined first_refusal="@ + refusal));
    lemma_end_of_a_beginning(doc, a5, (" attempts="@ + digits(attempts as nat)));
    lemma_end_of_a_beginning(doc, a4, splits);
    lemma_end_of_a_beginning(doc, a3, " "@);
    lemma_end_of_a_beginning(doc, a2, (" total_ms="@ + total));
    lemma_end_of_a_beginning(doc, a1, (" kind="@ + kind));
    lemma_end_of_a_beginning(doc, a0, digits(pid as nat));
}

/// The parts of a join are told under the words for them; the first of them is what was dropped
/// where the process was attached before, and what was set up where it was not.
pub proof fn law_the_parts_of_a_join(t: JoinTexts, rejoin: bool)
    ensures
        t.start_up matches Some(e) ==> begins(splits(t, rejoin), "exec_ms="@ + e@),
        rejoin ==> holds(splits(t, rejoin), "drop_ms"@ + "="@ + t.lead@),
        !rejoin ==> holds(splits(t, rejoin), "setup_ms"@ + "="@ + t.lead@),
        holds(splits(t, rejoin), " pre_open_ms="@ + t.pre_open@),
        holds(splits(t, rejoin), " in_open_ms="@ + t.in_open@),
        holds(splits(t, rejoin), " backoff_ms="@ + t.backoff@),
        kind(true) == "rejoin"@,
        kind(false) == "first-join"@,
{
    let doc = splits(t, rejoin);
    let start = match t.start_up {
        Some(e) => "exec_ms="@ + e@ + " "@,
        None => ""@,
    };
    let lead = (if rejoin {
        "drop_ms"@
    } else {
        "setup_ms"@
    }) + "="@ + t.lead@;
    let a0 = start;
    let a1 = a0 + lead;
    let a2 = a1 + (" pre_open_ms="@ + t.pre_open@);
    let a3 = a2 + (" in_open_ms="@ + t.in_open@);
    let a4 = a3 + (" backoff_ms="@ + t.backoff@);
    assert(doc =~= a4);
    assert(doc.take(a4.len() as int) =~= a4);
    lemma_end_of_a_beginning(doc, a3, (" backoff_ms="@ + t.backoff@));
    lemma_end_of_a_beginning(doc, a2, (" in_open_ms="@ + t.in_open@));
    lemma_end_of_a_beginning(doc, a1, (" pre_open_ms="@ + t.pre_open@));
    lemma_end_of_a_beginning(doc, a0, lead);
    if t.start_up is Some {
        lemma_end_of_a_beginning(doc, "exec_ms="@ + t.start_up->0@, " "@);
    }
}

/// Two hundred lines may be claimed in a run, and those past them count as withheld.
pub proof fn law_lines_past_the_cap(claimed: u64)
    ensures
        claimed <= 200 ==> past_run(claimed) == 0,
        claimed > 200 ==> past_run(claimed) + 200 == claimed,
{
}

/// What is said of the lines that were withheld, with each count behind the words for it.
pub proof fn law_withheld_lines_are_told_by_name(
    diag: Seq<char>,
    withheld: u64,
    past_run: u64,
    run_cap: u64,
    past_process: u64,
    process_cap: u64,
    claimed: u64,
)
    ensures
        ({
            let said = budget_line(diag, withheld, past_run, run_cap, past_process, process_cap, claimed);
            &&& begins(said, diag)
            &&& holds(said, " slow-join budget: "@ + digits(withheld as nat))
            &&& holds(said, " line(s) withheld, "@ + digits(past_run as nat))
            &&& holds(said, " past the run-wide cap of "@ + digits(run_cap as nat))
            &&& holds(said, " and "@ + digits(past_process as nat))
            &&& holds(said, " past a process's own cap of "@ + digits(process_cap as nat))
            &&& holds(said, "; "@ + digits(claimed as nat))
        }),
{
    let doc = budget_line(diag, withheld, past_run, run_cap, past_process, process_cap, claimed);
    let a0 = diag;
    let a1 = a0 + (" slow-join budget: "@ + digits(withheld as nat));
    let a2 = a1 + (" line(s) withheld, "@ + digits(past_run as nat));
    let a3 = a2 + (" past the run-wide cap of "@ + digits(run_cap as nat));
    let a4 = a3 + (" and "@ + digits(past_process as nat));
    let a5 = a4 + (" past a process's own cap of "@ + digits(process_cap as nat));
    let a6 = a5 + ("; "@ + digits(claimed as nat));
    let a7 = a6 + " line number(s) were claimed within the run-wide cap (a child killed between its claim and its write printed none)"@;
    assert(doc =~= a7);
    assert(doc.take(a7.len() as int) =~= a7);
    lemma_end_of_a_beginning(doc, a6, " line number(s) were claimed within the run-wide cap (a child killed between its claim and its write printed none)"@);
    lemma_end_of_a_beginning(doc, a5, ("; "@ + digits(claimed as nat)));
    lemma_end_of_a_beginning(doc, a4, (" past a process's own cap of "@ + digits(process_cap as nat)));
    lemma_end_of_a_beginning(doc, a3, (" and "@ + digits(past_process as nat)));
    lemma_end_of_a_beginning(doc, a2, (" past the run-wide cap of "@ + digits(run_cap as nat)));
    lemma_end_of_a_beginning(doc, a1, (" line(s) withheld, "@ + digits(past_run as nat)));
    lemma_end_of_a_beginning(doc, a0, (" slow-join budget: "@ + digits(withheld as nat)));
}

} // verus!
