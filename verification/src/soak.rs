//! The rules of the long-duration run: does anything drift?
//!
//! The run itself is threads and clocks. What is here is what they decide by: how the
//! arguments are read, which stamps the readers ask for, when a published sample counts as
//! seen, and the verdict on the intervals.

use vstd::prelude::*;

use crate::number::{self, at_most, less, not_a_number, number, Number, NumberView};
use crate::replay::{quoted, quoted_text};
use crate::report::render::{jmetrics, json_metrics, json_string, jstr};
use crate::report::{metric, metric_views, Drift, Metric, MetricView};
use crate::text::{
    self, begins, decimal, digits, holds, joined, lemma_end_of_a_beginning, same, texts,
};

verus! {

/// How much the last interval's 99.9th percentile may exceed the first's. Loose on purpose:
/// it is against drift without bound.
pub const DRIFT_FACTOR: u64 = 3;

/// 1.0, as a bit pattern.
pub const ONE: u64 = 0x3ff0_0000_0000_0000;

/// How much resident memory may grow between the first and the last interval, in KiB.
pub const RSS_GROWTH_KIB: u64 = 8192;

/// Reader threads.
pub const READERS: usize = 2;

/// Writer threads, at most.
pub const MAX_WRITERS: usize = 4;

/// Distinct stamps that a reader sweeps within the window.
pub const STAMP_STEPS: usize = 512;

/// Lookups between two probes of the retained window.
pub const REFRESH: usize = 4096;

/// Slack on a metric of one interval: 0.5, as a bit pattern.
pub const SOAK_SLACK: u64 = 0x3fe0_0000_0000_0000;

/// Slack on the drift: 0.2, as a bit pattern.
pub const DRIFT_SLACK: u64 = 0x3fc9_9999_9999_999a;

// ---------------------------------------------------------------------------
// Arguments
// ---------------------------------------------------------------------------

/// The number in a duration, and how many seconds its unit has: `s`, `m`, `h`, or none for
/// seconds. Nothing where the text is empty.
pub open spec fn duration_of(s: Seq<char>) -> Option<(Seq<char>, u64)> {
    if s.len() == 0 {
        None
    } else if s.last() == 's' {
        Some((s.drop_last(), 1))
    } else if s.last() == 'm' {
        Some((s.drop_last(), 60))
    } else if s.last() == 'h' {
        Some((s.drop_last(), 3600))
    } else {
        Some((s, 1))
    }
}

/// The number in a duration such as `90s`, `5m` or `2h`, and how many seconds its unit has.
pub fn duration_parts(s: &str) -> (r: Option<(String, u64)>)
    ensures
        match r {
            Some((n, unit)) => duration_of(s@) == Some((n@, unit)),
            None => duration_of(s@) is None,
        },
{
    let cs = text::chars(s);
    let n: usize = cs.len();
    if n == 0 {
        return None;
    }
    let unit: u64 = match cs[n - 1] {
        's' => 1,
        'm' => 60,
        'h' => 3600,
        _ => return Some((s.to_owned(), 1)),
    };
    let head = text::slice(&cs, 0, n - 1);
    assert(head@ =~= s@.drop_last());
    Some((head, unit))
}

/// What the run was asked to do.
pub struct Args {
    pub workload: String,
    pub duration_ns: u128,
    pub interval_ns: u128,
    pub json: Option<String>,
}

pub struct ArgsView {
    pub workload: Seq<char>,
    pub duration_ns: u128,
    pub interval_ns: u128,
    pub json: Option<Seq<char>>,
}

impl View for Args {
    type V = ArgsView;

    open spec fn view(&self) -> ArgsView {
        ArgsView {
            workload: self.workload@,
            duration_ns: self.duration_ns,
            interval_ns: self.interval_ns,
            json: crate::report::text_of(self.json),
        }
    }
}

/// What the arguments come to.
pub enum Asked {
    /// A run.
    Run(Args),
    /// The usage.
    Help,
    /// An option without its value.
    NeedsValue(String),
    /// A workload that there is not.
    UnknownWorkload(String),
    /// `--duration` with what is no duration.
    BadDuration,
    /// `--interval` with what is no duration.
    BadInterval,
    /// An argument that there is not.
    Unknown(String),
    /// An interval longer than the run.
    IntervalTooLong,
}

pub enum AskedView {
    Run(ArgsView),
    Help,
    NeedsValue(Seq<char>),
    UnknownWorkload(Seq<char>),
    BadDuration,
    BadInterval,
    Unknown(Seq<char>),
    IntervalTooLong,
}

impl View for Asked {
    type V = AskedView;

    open spec fn view(&self) -> AskedView {
        match *self {
            Asked::Run(a) => AskedView::Run(a@),
            Asked::Help => AskedView::Help,
            Asked::NeedsValue(s) => AskedView::NeedsValue(s@),
            Asked::UnknownWorkload(s) => AskedView::UnknownWorkload(s@),
            Asked::BadDuration => AskedView::BadDuration,
            Asked::BadInterval => AskedView::BadInterval,
            Asked::Unknown(s) => AskedView::Unknown(s@),
            Asked::IntervalTooLong => AskedView::IntervalTooLong,
        }
    }
}

pub open spec fn default_args() -> ArgsView {
    ArgsView {
        workload: "robot"@,
        duration_ns: 120_000_000_000,
        interval_ns: 20_000_000_000,
        json: None,
    }
}

pub open spec fn duration_at(durations: Seq<Option<u128>>, i: int) -> Option<u128> {
    if 0 <= i < durations.len() {
        durations[i]
    } else {
        None
    }
}

/// What the arguments from the `i`-th on come to, where those before came to `a`.
pub open spec fn read_args(
    argv: Seq<Seq<char>>,
    known: Seq<Seq<char>>,
    durations: Seq<Option<u128>>,
    i: int,
    a: ArgsView,
) -> AskedView
    decreases argv.len() - i,
{
    if i >= argv.len() {
        if a.interval_ns > a.duration_ns {
            AskedView::IntervalTooLong
        } else {
            AskedView::Run(a)
        }
    } else if argv[i] == "-h"@ || argv[i] == "--help"@ {
        AskedView::Help
    } else if argv[i] != "--workload"@ && argv[i] != "--duration"@ && argv[i] != "--interval"@
        && argv[i] != "--json"@ {
        AskedView::Unknown(argv[i])
    } else if i + 1 >= argv.len() {
        AskedView::NeedsValue(argv[i])
    } else if argv[i] == "--workload"@ {
        if known.contains(argv[i + 1]) {
            read_args(
                argv,
                known,
                durations,
                i + 2,
                ArgsView { workload: argv[i + 1], ..a },
            )
        } else {
            AskedView::UnknownWorkload(argv[i + 1])
        }
    } else if argv[i] == "--duration"@ {
        match duration_at(durations, i + 1) {
            Some(d) => read_args(
                argv,
                known,
                durations,
                i + 2,
                ArgsView { duration_ns: d, ..a },
            ),
            None => AskedView::BadDuration,
        }
    } else if argv[i] == "--interval"@ {
        match duration_at(durations, i + 1) {
            Some(d) => read_args(
                argv,
                known,
                durations,
                i + 2,
                ArgsView { interval_ns: d, ..a },
            ),
            None => AskedView::BadInterval,
        }
    } else {
        read_args(argv, known, durations, i + 2, ArgsView { json: Some(argv[i + 1]), ..a })
    }
}

fn read_duration(durations: &Vec<Option<u128>>, i: usize) -> (r: Option<u128>)
    ensures
        r == duration_at(durations@, i as int),
{
    if i < durations.len() {
        durations[i]
    } else {
        None
    }
}

/// Reads the arguments. `known` are the workloads that there are; `durations` holds each
/// argument as a duration in nanoseconds, with nothing where it is none.
pub fn parse_args(
    argv: &Vec<String>,
    known: &Vec<String>,
    durations: &Vec<Option<u128>>,
) -> (r: Asked)
    ensures
        r@ == read_args(texts(argv@), texts(known@), durations@, 0, default_args()),
{
    let ghost words = texts(argv@);
    let ghost names = texts(known@);
    let mut a = Args {
        workload: "robot".to_owned(),
        duration_ns: 120_000_000_000,
        interval_ns: 20_000_000_000,
        json: None,
    };
    let mut i: usize = 0;
    while i < argv.len()
        invariant
            i <= argv.len(),
            words == texts(argv@),
            names == texts(known@),
            read_args(words, names, durations@, i as int, a@) == read_args(
                words,
                names,
                durations@,
                0,
                default_args(),
            ),
        decreases argv.len() - i,
    {
        assert(words[i as int] == argv@[i as int]@);
        let word = argv[i].as_str();
        if same(word, "-h") || same(word, "--help") {
            return Asked::Help;
        }
        let for_workload = same(word, "--workload");
        let for_duration = same(word, "--duration");
        let for_interval = same(word, "--interval");
        if !for_workload && !for_duration && !for_interval && !same(word, "--json") {
            return Asked::Unknown(argv[i].clone());
        }
        if i + 1 >= argv.len() {
            return Asked::NeedsValue(argv[i].clone());
        }
        assert(words[i + 1] == argv@[i + 1]@);
        if for_workload {
            if !text::among(known, argv[i + 1].as_str()) {
                return Asked::UnknownWorkload(argv[i + 1].clone());
            }
            a.workload = argv[i + 1].clone();
        } else if for_duration {
            match read_duration(durations, i + 1) {
                Some(d) => {
                    a.duration_ns = d;
                },
                None => return Asked::BadDuration,
            }
        } else if for_interval {
            match read_duration(durations, i + 1) {
                Some(d) => {
                    a.interval_ns = d;
                },
                None => return Asked::BadInterval,
            }
        } else {
            a.json = Some(argv[i + 1].clone());
        }
        i = i + 2;
    }
    if a.interval_ns > a.duration_ns {
        return Asked::IntervalTooLong;
    }
    Asked::Run(a)
}

impl AskedView {
    /// What is said where there is to be no run, and the exit code. `why` is what there is
    /// to say of a workload that there is not.
    pub open spec fn answer(self, why: Seq<char>) -> Option<(Seq<char>, u8)> {
        match self {
            AskedView::Run(_) => None,
            AskedView::Help => Some(
                (
                    "usage: soak [--workload NAME] [--duration 30m] [--interval 60s] [--json PATH]"@,
                    0,
                ),
            ),
            AskedView::NeedsValue(s) => Some((s + " needs a value"@, 101)),
            AskedView::UnknownWorkload(_) => Some(("soak: "@ + why, 2)),
            AskedView::BadDuration => Some(("--duration (e.g. 30m)"@, 101)),
            AskedView::BadInterval => Some(("--interval (e.g. 60s)"@, 101)),
            AskedView::Unknown(s) => Some(("soak: unknown argument "@ + quoted_text(s), 2)),
            AskedView::IntervalTooLong => Some(
                ("soak: --interval must not exceed --duration"@, 2),
            ),
        }
    }
}

impl Asked {
    /// What is said where there is to be no run, and the exit code. `why` is what there is
    /// to say of a workload that there is not.
    pub fn answer(&self, why: &str) -> (r: Option<(String, u8)>)
        ensures
            match r {
                Some((s, code)) => self@.answer(why@) == Some((s@, code)),
                None => self@.answer(why@) is None,
            },
    {
        match self {
            Asked::Run(_) => None,
            Asked::Help => Some(
                (
                    "usage: soak [--workload NAME] [--duration 30m] [--interval 60s] [--json PATH]".to_owned(),
                    0,
                ),
            ),
            Asked::NeedsValue(s) => {
                let mut t = s.clone();
                t.append(" needs a value");
                Some((t, 101))
            },
            Asked::UnknownWorkload(_) => {
                let mut t = "soak: ".to_owned();
                t.append(why);
                Some((t, 2))
            },
            Asked::BadDuration => Some(("--duration (e.g. 30m)".to_owned(), 101)),
            Asked::BadInterval => Some(("--interval (e.g. 60s)".to_owned(), 101)),
            Asked::Unknown(s) => {
                let mut t = "soak: unknown argument ".to_owned();
                t.append(quoted(s.as_str()).as_str());
                Some((t, 2))
            },
            Asked::IntervalTooLong => Some(
                ("soak: --interval must not exceed --duration".to_owned(), 2),
            ),
        }
    }
}

/// How many writer threads there are for so many publishers.
pub fn writers(publishers: usize) -> (r: usize)
    ensures
        r == (if publishers < MAX_WRITERS {
            publishers
        } else {
            MAX_WRITERS
        }),
{
    if publishers < MAX_WRITERS {
        publishers
    } else {
        MAX_WRITERS
    }
}

// ---------------------------------------------------------------------------
// The readers
// ---------------------------------------------------------------------------

/// The window in which all of some plans have data: the latest of their starts and the
/// earliest of their ends, over the plans that have any.
pub open spec fn common(spans: Seq<Option<(i64, i64)>>) -> Option<(i64, i64)>
    decreases spans.len(),
{
    if spans.len() == 0 {
        None
    } else {
        match (common(spans.drop_last()), spans.last()) {
            (w, None) => w,
            (None, Some(x)) => Some(x),
            (Some((a, b)), Some((lo, hi))) => Some(
                (
                    if a > lo {
                        a
                    } else {
                        lo
                    },
                    if b < hi {
                        b
                    } else {
                        hi
                    },
                ),
            ),
        }
    }
}

/// The window in which all of some plans have data.
pub fn common_span(spans: &Vec<Option<(i64, i64)>>) -> (r: Option<(i64, i64)>)
    ensures
        r == common(spans@),
{
    let mut w: Option<(i64, i64)> = None;
    let mut i: usize = 0;
    assert(spans@.take(0) =~= seq![]);
    while i < spans.len()
        invariant
            i <= spans@.len(),
            w == common(spans@.take(i as int)),
        decreases spans@.len() - i,
    {
        assert(spans@.take(i + 1).drop_last() =~= spans@.take(i as int));
        match spans[i] {
            None => {},
            Some((lo, hi)) => {
                w = match w {
                    None => Some((lo, hi)),
                    Some((a, b)) => Some(
                        (
                            if a > lo {
                                a
                            } else {
                                lo
                            },
                            if b < hi {
                                b
                            } else {
                                hi
                            },
                        ),
                    ),
                };
            },
        }
        i = i + 1;
    }
    assert(spans@.take(i as int) =~= spans@);
    w
}

/// The common window lies in the window of every plan that has one.
pub proof fn law_common_is_inside_each(spans: Seq<Option<(i64, i64)>>, k: int)
    requires
        0 <= k < spans.len(),
        spans[k] is Some,
    ensures
        common(spans) is Some,
        (common(spans)->0).0 >= (spans[k]->0).0,
        (common(spans)->0).1 <= (spans[k]->0).1,
    decreases spans.len(),
{
    if k < spans.len() - 1 {
        law_common_is_inside_each(spans.drop_last(), k);
    }
}

/// What a reader does with its next lookup.
pub struct Turn {
    /// Whether it probes the retained window first: the writers slide it, so one that was
    /// fixed at the start would soon time nothing but errors.
    pub probe: bool,
    /// Which of its plans it evaluates.
    pub plan: usize,
    /// Which of the stamps of the window it asks for.
    pub step: usize,
}

/// Where a reader is in its rounds.
pub struct Reader {
    /// Lookups so far.
    pub k: usize,
    /// Lookups until the window is probed again.
    pub refresh: usize,
}

impl Reader {
    pub fn new() -> (r: Reader)
        ensures
            r.k == 0,
            r.refresh == 0,
    {
        Reader { k: 0, refresh: 0 }
    }

    /// The next lookup.
    pub fn next(&mut self, plans: usize) -> (r: Turn)
        requires
            plans > 0,
            old(self).k < usize::MAX,
        ensures
            r.probe == (old(self).refresh == 0),
            r.plan == old(self).k % plans,
            r.plan < plans,
            r.step == old(self).k % STAMP_STEPS,
            final(self).k == old(self).k + 1,
            final(self).refresh == if old(self).refresh == 0 {
                REFRESH - 1
            } else {
                old(self).refresh - 1
            },
    {
        let probe = self.refresh == 0;
        if probe {
            self.refresh = REFRESH;
        }
        self.refresh = self.refresh - 1;
        let turn = Turn { probe, plan: self.k % plans, step: self.k % STAMP_STEPS };
        self.k = self.k + 1;
        turn
    }
}

/// The stamp of a step of the window, which is at least one nanosecond long.
pub open spec fn step_stamp(lo: i64, hi: i64, step: int) -> int {
    let span = if hi - lo > 1 {
        hi - lo
    } else {
        1
    };
    lo + span * step / STAMP_STEPS as int
}

/// The stamp of a step of the window.
pub fn stamp_at(lo: i64, hi: i64, step: usize) -> (r: i64)
    requires
        step < STAMP_STEPS,
        i64::MIN <= hi - lo,
        (hi - lo) * 512 <= i64::MAX,
        lo < i64::MAX,
    ensures
        r == step_stamp(lo, hi, step as int),
        lo <= r,
        r < hi || r == lo,
{
    let d: i64 = hi - lo;
    let span: i64 = if d > 1 {
        d
    } else {
        1
    };
    proof {
        assert(0 <= span * step <= span * 511) by (nonlinear_arith)
            requires
                span >= 1,
                0 <= step <= 511,
        ;
    }
    let at: i64 = span * step as i64 / 512;
    lo + at
}

/// The reader of published samples: which of them it has seen.
pub struct Probe {
    /// The stamp that was seen last; the smallest stamp before the first.
    pub seen: i64,
}

impl Probe {
    pub fn new() -> (r: Probe)
        ensures
            r.seen == i64::MIN,
    {
        Probe { seen: i64::MIN }
    }

    /// Whether a published stamp is one to wait for.
    pub fn waits_for(&self, published: i64) -> (r: bool)
        ensures
            r == (published != i64::MIN && published != self.seen),
    {
        published != i64::MIN && published != self.seen
    }

    /// How long after its publication a stamp is seen, where the newest stamp that can be
    /// read has reached it.
    pub fn observe(&mut self, published: i64, published_at: u64, newest: i64, now: u64) -> (r:
        Option<u64>)
        ensures
            newest >= published ==> {
                &&& final(self).seen == published
                &&& r == Some(
                    if now >= published_at {
                        (now - published_at) as u64
                    } else {
                        0
                    },
                )
            },
            newest < published ==> r is None && *final(self) == *old(self),
    {
        if newest < published {
            return None;
        }
        self.seen = published;
        if now >= published_at {
            Some(now - published_at)
        } else {
            Some(0)
        }
    }
}

/// What a counter that only grows gained since it was read before.
pub fn gained(before: u64, now: u64) -> (r: u64)
    ensures
        r == (if now >= before {
            (now - before) as u64
        } else {
            0
        }),
{
    if now >= before {
        now - before
    } else {
        0
    }
}

// ---------------------------------------------------------------------------
// The verdict
// ---------------------------------------------------------------------------

/// What the verdict reads of an interval.
#[derive(Debug, Clone, Copy, PartialEq, Eq, Structural)]
pub struct Snapshot {
    pub lookups: u64,
    pub declined: u64,
    /// 99.9th percentile of a lookup, in nanoseconds.
    pub p999_ns: u64,
    pub rss_kib: u64,
}

impl Snapshot {
    /// What is put behind the interval's line: more than one in a hundred lookups were
    /// declined.
    pub fn flag(&self) -> (r: &'static str)
        ensures
            r@ == (if self.declined > self.lookups / 100 {
                " <-- DECLINED"@
            } else {
                ""@
            }),
    {
        if self.declined > self.lookups / 100 {
            " <-- DECLINED"
        } else {
            ""
        }
    }
}

/// The quotient of the last interval's 99.9th percentile and the first's, for print: it is
/// not a number where the first is zero, so that nothing is decided by it.
pub struct Ratio {
    pub bits: u64,
    /// With two decimals.
    pub hundredths: String,
}

/// How often the rings lapped over all intervals.
pub struct Laps {
    pub bits: u64,
    /// With two decimals.
    pub hundredths: String,
    /// With one decimal.
    pub tenths: String,
}

pub open spec fn grown(first: u64, last: u64) -> u64 {
    if last >= first {
        (last - first) as u64
    } else {
        0
    }
}

/// Whether a percentile grew by more than the factor.
pub open spec fn drifts(first: u64, last: u64) -> bool {
    last > DRIFT_FACTOR * first
}

/// Whether the rings are known to have lapped.
pub open spec fn lapped(laps: u64) -> bool {
    at_most(ONE, laps)
}

pub open spec fn latency_line(first: u64, last: u64, text: Seq<char>) -> Seq<char> {
    (if drifts(first, last) {
        "FAIL latency drift: p99.9 went "@
    } else {
        "pass  latency: p99.9 "@
    }) + digits(first as nat) + " ns -> "@ + digits(last as nat) + " ns ("@ + text
        + "x, limit 3.0x)"@
}

pub open spec fn memory_line(first: u64, last: u64) -> Seq<char> {
    (if grown(first, last) > RSS_GROWTH_KIB {
        "FAIL memory growth: RSS "@
    } else {
        "pass  memory: RSS "@
    }) + digits(first as nat) + " KiB -> "@ + digits(last as nat) + " KiB (+"@ + digits(
        grown(first, last) as nat,
    ) + " KiB, limit "@ + digits(RSS_GROWTH_KIB as nat) + ")"@
}

pub open spec fn coverage_line(laps: u64, hundredths: Seq<char>, tenths: Seq<char>) -> Seq<char> {
    if !lapped(laps) {
        "FAIL coverage: the rings lapped "@ + hundredths
            + " times, so wraparound was never exercised — run longer, or pick a workload with shorter history"@
    } else {
        "pass  coverage: the rings lapped "@ + tenths + " times"@
    }
}

pub const NO_INTERVALS: &'static str = "no intervals completed; nothing to judge";

pub const ONE_INTERVAL: &'static str =
    "only one interval completed, so nothing can be said about drift — run with --duration at least twice --interval";

/// What is said of a run.
pub open spec fn verdict_lines(s: Seq<Snapshot>, ratio: Ratio, laps: Laps) -> Seq<Seq<char>> {
    if s.len() == 0 {
        seq![NO_INTERVALS@]
    } else if s.len() == 1 {
        seq![ONE_INTERVAL@]
    } else {
        seq![
            latency_line(s[0].p999_ns, s.last().p999_ns, ratio.hundredths@),
            memory_line(s[0].rss_kib, s.last().rss_kib),
            coverage_line(laps.bits, laps.hundredths@, laps.tenths@),
        ]
    }
}

/// Whether a run passes: it has two intervals to compare, the tail did not drift, memory
/// did not grow, and a ring is known to have lapped at least once.
pub open spec fn passes(s: Seq<Snapshot>, laps: u64) -> bool {
    &&& s.len() >= 2
    &&& !drifts(s[0].p999_ns, s.last().p999_ns)
    &&& grown(s[0].rss_kib, s.last().rss_kib) <= RSS_GROWTH_KIB
    &&& lapped(laps)
}

/// A run that never lapped a ring, or is not known to have, did not exercise what it is for,
/// and does not pass.
pub proof fn law_no_lap_is_no_pass(s: Seq<Snapshot>, laps: u64)
    requires
        less(laps, ONE) || not_a_number(laps),
    ensures
        !passes(s, laps),
{
}

/// A run passes only where the last tail is within the factor of the first: a tail that
/// leaves zero does not.
pub proof fn law_a_pass_did_not_drift(s: Seq<Snapshot>, laps: u64)
    requires
        passes(s, laps),
    ensures
        s.last().p999_ns <= 3 * s[0].p999_ns,
        s[0].p999_ns == 0 ==> s.last().p999_ns == 0,
{
}

/// When a run passes, and when alone: it has two intervals at least, the last tail is at most
/// three times the first, the last resident memory at most 8192 KiB above the first, and a
/// ring is known to have lapped once.
pub proof fn law_when_a_soak_passes(s: Seq<Snapshot>, laps: u64)
    ensures
        passes(s, laps) <==> {
            &&& s.len() >= 2
            &&& s[s.len() - 1].p999_ns <= 3 * s[0].p999_ns
            &&& s[s.len() - 1].rss_kib <= s[0].rss_kib + 8192
            &&& at_most(0x3ff0_0000_0000_0000, laps)
        },
{
}

/// Only the first interval and the last are judged: two runs that agree on these are said and
/// judged alike, however many intervals lie between.
pub proof fn law_only_the_ends_are_judged(
    s: Seq<Snapshot>,
    t: Seq<Snapshot>,
    ratio: Ratio,
    laps: Laps,
)
    requires
        s.len() >= 2,
        t.len() >= 2,
        s[0] == t[0],
        s.last() == t.last(),
    ensures
        passes(s, laps.bits) == passes(t, laps.bits),
        verdict_lines(s, ratio, laps) == verdict_lines(t, ratio, laps),
{
}

/// Each of the three lines says `FAIL` exactly where its check failed, so that a run passes
/// where none does.
pub proof fn law_the_lines_say_the_verdict(s: Seq<Snapshot>, ratio: Ratio, laps: Laps)
    requires
        s.len() >= 2,
    ensures
        ({
            let lines = verdict_lines(s, ratio, laps);
            let (first, last) = (s[0], s[s.len() - 1]);
            &&& lines.len() == 3
            &&& begins(lines[0], "FAIL latency"@) <==> last.p999_ns > 3 * first.p999_ns
            &&& begins(lines[1], "FAIL memory"@) <==> last.rss_kib > first.rss_kib + 8192
            &&& begins(lines[2], "FAIL coverage"@) <==> !at_most(0x3ff0_0000_0000_0000, laps.bits)
            &&& passes(s, laps.bits) <==> forall|i: int|
                0 <= i < 3 ==> !begins(#[trigger] lines[i], "FAIL"@)
        }),
{
    reveal_strlit("FAIL");
    reveal_strlit("FAIL latency");
    reveal_strlit("FAIL memory");
    reveal_strlit("FAIL coverage");
    reveal_strlit("FAIL latency drift: p99.9 went ");
    reveal_strlit("pass  latency: p99.9 ");
    reveal_strlit("FAIL memory growth: RSS ");
    reveal_strlit("pass  memory: RSS ");
    reveal_strlit("FAIL coverage: the rings lapped ");
    reveal_strlit("pass  coverage: the rings lapped ");
    let lines = verdict_lines(s, ratio, laps);
    let (a, b, c) = (lines[0], lines[1], lines[2]);
    if drifts(s[0].p999_ns, s.last().p999_ns) {
        assert(a.take(12) =~= "FAIL latency"@);
        assert(a.take(4) =~= "FAIL"@);
    } else {
        assert(a.take(12)[0] == 'p' && a.take(4)[0] == 'p');
    }
    if grown(s[0].rss_kib, s.last().rss_kib) > RSS_GROWTH_KIB {
        assert(b.take(11) =~= "FAIL memory"@);
        assert(b.take(4) =~= "FAIL"@);
    } else {
        assert(b.take(11)[0] == 'p' && b.take(4)[0] == 'p');
    }
    if !lapped(laps.bits) {
        assert(c.take(13) =~= "FAIL coverage"@);
        assert(c.take(4) =~= "FAIL"@);
    } else {
        assert(c.take(13)[0] == 'p' && c.take(4)[0] == 'p');
    }
    assert(passes(s, laps.bits) ==> !begins(lines[0], "FAIL"@) && !begins(lines[1], "FAIL"@)
        && !begins(lines[2], "FAIL"@));
}

fn has_drifted(first: u64, last: u64) -> (r: bool)
    ensures
        r == drifts(first, last),
{
    last as u128 > DRIFT_FACTOR as u128 * first as u128
}

fn say_latency(first: u64, last: u64, ratio: &Ratio) -> (r: String)
    ensures
        r@ == latency_line(first, last, ratio.hundredths@),
{
    let mut s = if has_drifted(first, last) {
        "FAIL latency drift: p99.9 went ".to_owned()
    } else {
        "pass  latency: p99.9 ".to_owned()
    };
    s.append(decimal(first).as_str());
    s.append(" ns -> ");
    s.append(decimal(last).as_str());
    s.append(" ns (");
    s.append(ratio.hundredths.as_str());
    s.append("x, limit 3.0x)");
    s
}

fn say_memory(first: u64, last: u64) -> (r: String)
    ensures
        r@ == memory_line(first, last),
{
    let growth: u64 = gained(first, last);
    let mut s = if growth > RSS_GROWTH_KIB {
        "FAIL memory growth: RSS ".to_owned()
    } else {
        "pass  memory: RSS ".to_owned()
    };
    s.append(decimal(first).as_str());
    s.append(" KiB -> ");
    s.append(decimal(last).as_str());
    s.append(" KiB (+");
    s.append(decimal(growth).as_str());
    s.append(" KiB, limit ");
    s.append(decimal(RSS_GROWTH_KIB).as_str());
    s.append(")");
    s
}

fn say_coverage(laps: &Laps) -> (r: String)
    ensures
        r@ == coverage_line(laps.bits, laps.hundredths@, laps.tenths@),
{
    if !number::le(ONE, laps.bits) {
        let mut s = "FAIL coverage: the rings lapped ".to_owned();
        s.append(laps.hundredths.as_str());
        s.append(
            " times, so wraparound was never exercised — run longer, or pick a workload with shorter history",
        );
        s
    } else {
        let mut s = "pass  coverage: the rings lapped ".to_owned();
        s.append(laps.tenths.as_str());
        s.append(" times");
        s
    }
}

/// Decides, and says why.
pub fn verdict(s: &Vec<Snapshot>, ratio: &Ratio, laps: &Laps) -> (r: (Vec<String>, bool))
    ensures
        texts(r.0@) == verdict_lines(s@, *ratio, *laps),
        r.1 == passes(s@, laps.bits),
{
    let mut lines: Vec<String> = Vec::new();
    if s.len() == 0 {
        lines.push(NO_INTERVALS.to_owned());
        assert(texts(lines@) =~= verdict_lines(s@, *ratio, *laps));
        return (lines, false);
    }
    if s.len() == 1 {
        lines.push(ONE_INTERVAL.to_owned());
        assert(texts(lines@) =~= verdict_lines(s@, *ratio, *laps));
        return (lines, false);
    }
    let first = s[0];
    let last = s[s.len() - 1];
    lines.push(say_latency(first.p999_ns, last.p999_ns, ratio));
    lines.push(say_memory(first.rss_kib, last.rss_kib));
    lines.push(say_coverage(laps));
    assert(texts(lines@) =~= verdict_lines(s@, *ratio, *laps));
    let drift = has_drifted(first.p999_ns, last.p999_ns);
    let leak = gained(first.rss_kib, last.rss_kib) > RSS_GROWTH_KIB;
    let uncovered = !number::le(ONE, laps.bits);
    (lines, !drift && !leak && !uncovered)
}

// ---------------------------------------------------------------------------
// The stored rows
// ---------------------------------------------------------------------------

/// The figures of an interval.
pub struct Interval {
    pub p50: Number,
    pub p999: Number,
    pub visible_p50: Number,
    pub visible_p999: Number,
    pub rss: Number,
    pub lookups: Number,
    pub declined: Number,
    pub pushes: Number,
    pub wraps: Number,
    pub err_delta: Number,
}

pub open spec fn soak_slack() -> NumberView {
    number(SOAK_SLACK, "0.5"@, "0"@, "0.5"@, "0.500"@, "0.50000"@, "5.0000e-1"@)
}

pub open spec fn drift_slack() -> NumberView {
    number(DRIFT_SLACK, "0.2"@, "0"@, "0.2"@, "0.200"@, "0.20000"@, "2.0000e-1"@)
}

fn soak_tolerance() -> (r: Number)
    ensures
        r@ == soak_slack(),
{
    Number::new(SOAK_SLACK, "0.5", "0", "0.5", "0.500", "0.50000", "5.0000e-1")
}

pub open spec fn gated(key: Seq<char>, value: NumberView, unit: Seq<char>) -> MetricView {
    metric(key, value, unit).toward(Drift::LowerIsBetter, soak_slack())
}

pub open spec fn interval_metrics(i: Interval) -> Seq<MetricView> {
    seq![
        gated("p50_ns"@, i.p50@, "ns"@),
        gated("p99_9_ns"@, i.p999@, "ns"@),
        gated("visible_p50_ns"@, i.visible_p50@, "ns"@),
        gated("visible_p99_9_ns"@, i.visible_p999@, "ns"@),
        gated("rss_kib"@, i.rss@, "KiB"@),
        metric("lookups"@, i.lookups@, "lookups"@),
        metric("declined"@, i.declined@, "lookups"@),
        metric("pushes"@, i.pushes@, "pushes"@),
        metric("ring_wraps"@, i.wraps@, "laps"@),
        metric("err_delta"@, i.err_delta@, "errors"@),
    ]
}

/// The metrics of an interval's row.
pub fn json_row(i: Interval) -> (r: Vec<Metric>)
    ensures
        metric_views(r@) == interval_metrics(i),
{
    let ghost given = i;
    let mut v: Vec<Metric> = Vec::new();
    v.push(Metric::new("p50_ns", i.p50, "ns").lower_is_better(soak_tolerance()));
    v.push(Metric::new("p99_9_ns", i.p999, "ns").lower_is_better(soak_tolerance()));
    v.push(Metric::new("visible_p50_ns", i.visible_p50, "ns").lower_is_better(soak_tolerance()));
    v.push(
        Metric::new("visible_p99_9_ns", i.visible_p999, "ns").lower_is_better(soak_tolerance()),
    );
    v.push(Metric::new("rss_kib", i.rss, "KiB").lower_is_better(soak_tolerance()));
    v.push(Metric::new("lookups", i.lookups, "lookups"));
    v.push(Metric::new("declined", i.declined, "lookups"));
    v.push(Metric::new("pushes", i.pushes, "pushes"));
    v.push(Metric::new("ring_wraps", i.wraps, "laps"));
    v.push(Metric::new("err_delta", i.err_delta, "errors"));
    assert(metric_views(v@) =~= interval_metrics(given));
    v
}

/// The drift over the whole run.
pub struct Summary {
    pub ratio: Number,
    pub growth: Number,
    pub intervals: Number,
    pub wraps: Number,
}

pub open spec fn summary_metrics(s: Summary) -> Seq<MetricView> {
    seq![
        metric("p99_9_drift"@, s.ratio@, "x"@).toward(Drift::LowerIsBetter, drift_slack()),
        metric("rss_growth_kib"@, s.growth@, "KiB"@).toward(Drift::LowerIsBetter, soak_slack()),
        metric("intervals"@, s.intervals@, "intervals"@),
        metric("total_ring_wraps"@, s.wraps@, "laps"@),
    ]
}

/// The metrics of the row on which two runs are compared: the drift itself.
pub fn summary_row(s: Summary) -> (r: Vec<Metric>)
    ensures
        metric_views(r@) == summary_metrics(s),
{
    let ghost given = s;
    let mut v: Vec<Metric> = Vec::new();
    v.push(
        Metric::new("p99_9_drift", s.ratio, "x").lower_is_better(
            Number::new(DRIFT_SLACK, "0.2", "0", "0.2", "0.200", "0.20000", "2.0000e-1"),
        ),
    );
    v.push(Metric::new("rss_growth_kib", s.growth, "KiB").lower_is_better(soak_tolerance()));
    v.push(Metric::new("intervals", s.intervals, "intervals"));
    v.push(Metric::new("total_ring_wraps", s.wraps, "laps"));
    assert(metric_views(v@) =~= summary_metrics(given));
    v
}

/// One row of the document of a run.
pub open spec fn row_json(
    workload: Seq<char>,
    key: Seq<char>,
    metrics: Seq<MetricView>,
) -> Seq<char> {
    "  {\"bench\": \"soak\", \"workload\": "@ + json_string(workload)
        + ", \"engine\": \"tf_tree\", \"key\": "@ + json_string(key) + ", \"metrics\": "@
        + json_metrics(metrics) + "}"@
}

fn document_row(workload: &str, key: &str, metrics: &Vec<Metric>) -> (r: String)
    ensures
        r@ == row_json(workload@, key@, metric_views(metrics@)),
{
    let mut s = "  {\"bench\": \"soak\", \"workload\": ".to_owned();
    s.append(jstr(workload).as_str());
    s.append(", \"engine\": \"tf_tree\", \"key\": ");
    s.append(jstr(key).as_str());
    s.append(", \"metrics\": ");
    s.append(jmetrics(metrics).as_str());
    s.append("}");
    s
}

/// The rows of the intervals, each under its number.
pub open spec fn interval_rows(workload: Seq<char>, v: Seq<Vec<Metric>>) -> Seq<Seq<char>> {
    Seq::new(
        v.len(),
        |i: int| row_json(workload, "interval="@ + digits(i as nat), metric_views(v[i]@)),
    )
}

/// The document of a run: a row for each interval, and one for the drift over all.
pub fn document(workload: &str, intervals: &Vec<Vec<Metric>>, summary: &Vec<Metric>) -> (r: String)
    ensures
        r@ == "[\n"@ + joined(
            interval_rows(workload@, intervals@).push(
                row_json(workload@, "drift"@, metric_views(summary@)),
            ),
            ",\n"@,
        ) + "\n]\n"@,
{
    broadcast use text::lemma_texts_push;

    let ghost rows = interval_rows(workload@, intervals@);
    let mut out: Vec<String> = Vec::new();
    let mut i: usize = 0;
    while i < intervals.len()
        invariant
            i <= intervals@.len(),
            rows == interval_rows(workload@, intervals@),
            texts(out@) == rows.take(i as int),
        decreases intervals@.len() - i,
    {
        let mut key = "interval=".to_owned();
        key.append(decimal(i as u64).as_str());
        let row = document_row(workload, key.as_str(), &intervals[i]);
        assert(row@ == rows[i as int]);
        proof {
            text::lemma_texts_push(out@, row);
        }
        out.push(row);
        assert(rows.take(i + 1) =~= rows.take(i as int).push(rows[i as int]));
        i = i + 1;
    }
    assert(rows.take(i as int) =~= rows);
    out.push(document_row(workload, "drift", summary));
    let mut s = "[\n".to_owned();
    s.append(text::join(&out, ",\n").as_str());
    s.append("\n]\n");
    s
}

// ---------------------------------------------------------------------------
// What was asked, and what is covered
// ---------------------------------------------------------------------------

/// Whether an option stands before a value.
pub open spec fn follows(argv: Seq<Seq<char>>, option: Seq<char>, k: int) -> bool {
    0 < k < argv.len() && argv[k - 1] == option
}

proof fn lemma_options_differ()
    ensures
        "--workload"@ != "--duration"@,
        "--workload"@ != "--interval"@,
        "--workload"@ != "--json"@,
        "--duration"@ != "--interval"@,
        "--duration"@ != "--json"@,
        "--interval"@ != "--json"@,
{
    reveal_strlit("--workload");
    reveal_strlit("--duration");
    reveal_strlit("--interval");
    reveal_strlit("--json");
    assert("--workload"@[2] == 'w' && "--duration"@[2] == 'd' && "--interval"@[2] == 'i');
    assert("--json"@[2] == 'j');
}

proof fn lemma_read_args(
    argv: Seq<Seq<char>>,
    known: Seq<Seq<char>>,
    durations: Seq<Option<u128>>,
    i: int,
    a: ArgsView,
)
    requires
        0 <= i,
    ensures
        read_args(argv, known, durations, i, a) matches AskedView::Run(r) ==> {
            &&& r.interval_ns <= r.duration_ns
            &&& r.workload == a.workload || (known.contains(r.workload) && exists|k: int|
                #[trigger] follows(argv, "--workload"@, k) && argv[k] == r.workload)
            &&& r.duration_ns == a.duration_ns || exists|k: int|
                #[trigger] follows(argv, "--duration"@, k) && k < durations.len() && durations[k]
                    == Some(r.duration_ns)
            &&& r.interval_ns == a.interval_ns || exists|k: int|
                #[trigger] follows(argv, "--interval"@, k) && k < durations.len() && durations[k]
                    == Some(r.interval_ns)
            &&& r.json == a.json || exists|k: int|
                #[trigger] follows(argv, "--json"@, k) && r.json == Some(argv[k])
        },
    decreases argv.len() - i,
{
    if i + 1 < argv.len() {
        lemma_options_differ();
        let v = argv[i + 1];
        if argv[i] == "--workload"@ {
            assert(follows(argv, "--workload"@, i + 1));
            lemma_read_args(argv, known, durations, i + 2, ArgsView { workload: v, ..a });
        } else if argv[i] == "--duration"@ {
            assert(follows(argv, "--duration"@, i + 1));
            if duration_at(durations, i + 1) is Some {
                let d = duration_at(durations, i + 1)->0;
                lemma_read_args(argv, known, durations, i + 2, ArgsView { duration_ns: d, ..a });
            }
        } else if argv[i] == "--interval"@ {
            assert(follows(argv, "--interval"@, i + 1));
            if duration_at(durations, i + 1) is Some {
                let d = duration_at(durations, i + 1)->0;
                lemma_read_args(argv, known, durations, i + 2, ArgsView { interval_ns: d, ..a });
            }
        } else if argv[i] == "--json"@ {
            assert(follows(argv, "--json"@, i + 1));
            lemma_read_args(argv, known, durations, i + 2, ArgsView { json: Some(v), ..a });
        }
    }
}

/// A run is what was asked for: each of its settings stands behind its option, or is the
/// default; the workload is one that there is, and an interval is no longer than the run.
pub proof fn law_a_soak_is_as_it_was_asked_for(
    argv: Seq<Seq<char>>,
    known: Seq<Seq<char>>,
    durations: Seq<Option<u128>>,
)
    ensures
        read_args(argv, known, durations, 0, default_args()) matches AskedView::Run(r) ==> {
            &&& r.interval_ns <= r.duration_ns
            &&& r.workload == "robot"@ || (known.contains(r.workload) && exists|k: int|
                #[trigger] follows(argv, "--workload"@, k) && argv[k] == r.workload)
            &&& r.duration_ns == 120_000_000_000 || exists|k: int|
                #[trigger] follows(argv, "--duration"@, k) && k < durations.len() && durations[k]
                    == Some(r.duration_ns)
            &&& r.interval_ns == 20_000_000_000 || exists|k: int|
                #[trigger] follows(argv, "--interval"@, k) && k < durations.len() && durations[k]
                    == Some(r.interval_ns)
            &&& r.json is None || exists|k: int|
                #[trigger] follows(argv, "--json"@, k) && r.json == Some(argv[k])
        },
        argv.len() == 0 ==> read_args(argv, known, durations, 0, default_args()) is Run,
{
    lemma_read_args(argv, known, durations, 0, default_args());
}

/// The last options count: a setting behind the others replaces what they said.
pub proof fn law_an_option_sets_what_it_names(
    known: Seq<Seq<char>>,
    value: Seq<char>,
    d: u128,
    a: ArgsView,
)
    requires
        a.interval_ns <= a.duration_ns,
    ensures
        read_args(seq!["--json"@, value], known, seq![None, Some(d)], 0, a) == AskedView::Run(
            ArgsView { json: Some(value), ..a },
        ),
        d >= a.interval_ns ==> read_args(
            seq!["--duration"@, value],
            known,
            seq![None, Some(d)],
            0,
            a,
        ) == AskedView::Run(ArgsView { duration_ns: d, ..a }),
        d <= a.duration_ns ==> read_args(
            seq!["--interval"@, value],
            known,
            seq![None, Some(d)],
            0,
            a,
        ) == AskedView::Run(ArgsView { interval_ns: d, ..a }),
        known.contains(value) ==> read_args(
            seq!["--workload"@, value],
            known,
            seq![None, Some(d)],
            0,
            a,
        ) == AskedView::Run(ArgsView { workload: value, ..a }),
        !known.contains(value) ==> read_args(
            seq!["--workload"@, value],
            known,
            seq![None, Some(d)],
            0,
            a,
        ) is UnknownWorkload,
{
    reveal_with_fuel(read_args, 2);
    lemma_options_differ();
    reveal_strlit("--workload");
    reveal_strlit("--duration");
    reveal_strlit("--interval");
    reveal_strlit("--json");
    reveal_strlit("-h");
    reveal_strlit("--help");
    assert("--json"@[2] == 'j' && "--help"@[2] == 'h');
    assert("--json"@.len() == 6 && "--help"@.len() == 6 && "-h"@.len() == 2);
    assert("--duration"@.len() == 10 && "--interval"@.len() == 10 && "--workload"@.len() == 10);
    assert("--json"@ != "--help"@ && "--json"@ != "-h"@);
    assert("--duration"@ != "--help"@ && "--duration"@ != "-h"@);
    assert("--interval"@ != "--help"@ && "--interval"@ != "-h"@);
    assert("--workload"@ != "--help"@ && "--workload"@ != "-h"@);
}

/// Only a run goes on; asking for the usage is no failure, and anything that is refused is.
pub proof fn law_only_a_run_goes_on(a: AskedView, why: Seq<char>)
    ensures
        a.answer(why) is None <==> a is Run,
        a.answer(why) matches Some((text, code)) ==> (code == 0 <==> a is Help),
{
}

/// A duration is a number and its unit: seconds, minutes or hours, and seconds where there is
/// none.
pub proof fn law_units_of_a_duration(n: Seq<char>)
    ensures
        duration_of(n.push('s')) == Some((n, 1u64)),
        duration_of(n.push('m')) == Some((n, 60u64)),
        duration_of(n.push('h')) == Some((n, 3600u64)),
        n.len() > 0 && n.last() != 's' && n.last() != 'm' && n.last() != 'h' ==> duration_of(n)
            == Some((n, 1u64)),
        duration_of(seq![]) is None,
{
    assert(n.push('s').drop_last() =~= n);
    assert(n.push('m').drop_last() =~= n);
    assert(n.push('h').drop_last() =~= n);
}

/// The common span is no narrower than it must be: it starts where one of the spans does, and
/// ends where one of them does; and there is none where there is no span at all.
pub proof fn law_common_span_is_the_widest(spans: Seq<Option<(i64, i64)>>)
    ensures
        common(spans) is None <==> forall|k: int|
            0 <= k < spans.len() ==> (#[trigger] spans[k]) is None,
        common(spans) matches Some((lo, hi)) ==> {
            &&& exists|k: int|
                0 <= k < spans.len() && ((#[trigger] spans[k]) matches Some((a, b)) && a == lo)
            &&& exists|k: int|
                0 <= k < spans.len() && ((#[trigger] spans[k]) matches Some((a, b)) && b == hi)
        },
    decreases spans.len(),
{
    if spans.len() > 0 {
        let w = spans.drop_last();
        let n = spans.len() - 1;
        law_common_span_is_the_widest(w);
        assert(forall|k: int| 0 <= k < n ==> #[trigger] w[k] == spans[k]);
        assert(spans[n] == spans.last());
        if common(w) is Some {
            let (a, b) = common(w)->0;
            let i = choose|k: int|
                0 <= k < w.len() && ((#[trigger] w[k]) matches Some((x, y)) && x == a);
            let j = choose|k: int|
                0 <= k < w.len() && ((#[trigger] w[k]) matches Some((x, y)) && y == b);
            assert(spans[i] == w[i] && spans[j] == w[j]);
        } else {
            assert forall|k: int| 0 <= k < n implies (#[trigger] spans[k]) is None by {
                assert(w[k] is None);
            }
        }
    }
}

/// The stamps of a window are five hundred and twelve equal steps of it.
pub proof fn law_steps_divide_the_window(lo: i64, hi: i64, step: int)
    requires
        lo < hi,
        0 <= step < 512,
    ensures
        step_stamp(lo, hi, 0) == lo,
        (step_stamp(lo, hi, step) - lo) * 512 <= (hi - lo) * step,
        (hi - lo) * step < (step_stamp(lo, hi, step) - lo + 1) * 512,
        lo <= step_stamp(lo, hi, step) < hi,
{
    let span = hi - lo;
    let x = span * step;
    assert(0 <= x && x < span * 512) by (nonlinear_arith)
        requires
            x == span * step,
            span > 0,
            0 <= step < 512,
    ;
    assert(span * 0 == 0);
}

/// A row of the document says its workload, its key and its metrics; the rows of the intervals
/// are numbered from nothing on.
pub proof fn law_a_soak_row_is_written_by_name(
    workload: Seq<char>,
    key: Seq<char>,
    metrics: Seq<MetricView>,
    v: Seq<Vec<Metric>>,
    i: int,
)
    ensures
        ({
            let row = row_json(workload, key, metrics);
            &&& begins(row, "  {\"bench\": \"soak\", \"workload\": "@ + json_string(workload))
            &&& holds(row, ", \"engine\": \"tf_tree\", \"key\": "@ + json_string(key))
            &&& holds(row, ", \"metrics\": "@ + json_metrics(metrics))
        }),
        interval_rows(workload, v).len() == v.len(),
        0 <= i < v.len() ==> interval_rows(workload, v)[i] == row_json(
            workload,
            "interval="@ + digits(i as nat),
            metric_views(v[i]@),
        ),
{
    let doc = row_json(workload, key, metrics);
    let a0 = ("  {\"bench\": \"soak\", \"workload\": "@ + json_string(workload));
    let a1 = a0 + (", \"engine\": \"tf_tree\", \"key\": "@ + json_string(key));
    let a2 = a1 + (", \"metrics\": "@ + json_metrics(metrics));
    let a3 = a2 + "}"@;
    assert(doc =~= a3);
    assert(doc.take(a3.len() as int) =~= a3);
    lemma_end_of_a_beginning(doc, a2, "}"@);
    lemma_end_of_a_beginning(doc, a1, (", \"metrics\": "@ + json_metrics(metrics)));
    lemma_end_of_a_beginning(doc, a0, (", \"engine\": \"tf_tree\", \"key\": "@ + json_string(key)));
}

} // verus!
