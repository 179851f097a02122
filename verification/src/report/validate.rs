//! The rules that a report must keep, and the refusal that names each breach.

use vstd::prelude::*;

use super::fitness::{axis_name, lemma_in_sum, says};
use super::{
    metric_views, Drift, FitnessView, Ground, Metric, MetricView, Report, ReportView, Row, RowView,
    Sensitivity, Status, Worse, WorseView, REQUIRED_FACTS, REQUIRED_ROWS, REQUIRED_WORSE,
};
use crate::number::{self, at_most, finite, less};
use crate::text::{self, blank, decimal, digits, joined, lemma_texts_push, texts};

verus! {

// ---------------------------------------------------------------------------
// The rules
// ---------------------------------------------------------------------------

/// A tolerance that a gate can be held to.
pub open spec fn usable_tolerance(m: MetricView) -> bool {
    m.directional() ==> finite(m.tolerance.bits) && at_most(0, m.tolerance.bits)
}

/// Whether one of some metrics has a direction, so that it can be gated.
pub open spec fn some_directional(ms: Seq<MetricView>) -> bool {
    exists|i: int| 0 <= i < ms.len() && (#[trigger] ms[i]).directional()
}

pub open spec fn fact_stated(r: ReportView, key: Seq<char>) -> bool {
    super::lookup(r.provenance, key) matches Some(v) && !blank(v)
}

/// The discarded warm-up is a duration, and it is not zero under a timed row that
/// prints numbers.
pub open spec fn warmup_stated(r: ReportView) -> bool {
    &&& finite(r.warmup.bits) && !less(r.warmup.bits, 0)
    &&& number::rank(r.warmup.bits) == 0 ==> forall|i: int|
        0 <= i < r.rows.len() ==> !((#[trigger] r.rows[i]).timed() && r.rows[i].prints_numbers())
}

/// How many rows carry an id.
pub open spec fn occurrences(rows: Seq<RowView>, id: Seq<char>) -> nat
    decreases rows.len(),
{
    if rows.len() == 0 {
        0
    } else {
        occurrences(rows.drop_last(), id) + if rows.last().id == id {
            1nat
        } else {
            0nat
        }
    }
}

pub open spec fn topic_present(r: ReportView, id: Seq<char>) -> bool {
    exists|i: int| 0 <= i < r.worse.len() && (#[trigger] r.worse[i]).id == id
}

/// What the evidence of a row's status must be.
pub open spec fn evidence_ok(row: RowView, r: ReportView) -> bool {
    match row.status {
        Status::Measured => {
            &&& row.metrics().len() > 0
            &&& r.fitness.fair(row.sensitivity)
            &&& row.core_budget_applies() ==> r.fitness.enough_cores
        },
        Status::Indicative => {
            &&& !r.fitness.fair(row.sensitivity)
            &&& r.fitness.forced
            &&& !blank(row.reason)
        },
        Status::Unavailable => {
            &&& !blank(row.reason)
            &&& row.metrics().len() == 0
        },
    }
}

/// What a row must keep.
pub open spec fn row_ok(row: RowView, r: ReportView) -> bool {
    &&& row.prints_numbers() ==> some_directional(row.metrics())
    &&& forall|i: int| 0 <= i < row.metrics().len() ==> usable_tolerance(#[trigger] row.metrics()[i])
    &&& !blank(row.reproduce)
    &&& row.prints_numbers() <==> row.grounds.len() == 0
    &&& forall|i: int|
        0 <= i < row.grounds.len() ==> (#[trigger] row.grounds[i]).verdict(r.build, r.fitness, row)
            != Some(false)
    &&& evidence_ok(row, r)
}

/// Whether a reason for the absence of numbers is given.
pub open spec fn absence_explained(w: WorseView) -> bool {
    w.metrics_absent_because matches Some(s) && !blank(s)
}

/// What an entry on where `tf_tree` is worse must keep.
pub open spec fn worse_ok(w: WorseView, r: ReportView) -> bool {
    &&& !blank(w.statement)
    &&& w.metrics.len() == 0 ==> absence_explained(w)
    &&& w.metrics.len() > 0 ==> w.metrics_absent_because is None
    &&& r.fitness.fair_for_memory && w.metrics_withheld.len() == 0 && w.metrics.len() > 0
        ==> some_directional(w.metrics)
    &&& forall|i: int| 0 <= i < w.metrics.len() ==> usable_tolerance(#[trigger] w.metrics[i])
}

/// What a report must keep.
pub open spec fn valid(r: ReportView) -> bool {
    &&& forall|i: int| 0 <= i < 9 ==> fact_stated(r, #[trigger] REQUIRED_FACTS@[i]@)
    &&& warmup_stated(r)
    &&& forall|i: int| 0 <= i < 10 ==> occurrences(r.rows, #[trigger] REQUIRED_ROWS@[i]@) == 1
    &&& forall|i: int| 0 <= i < 4 ==> topic_present(r, #[trigger] REQUIRED_WORSE@[i]@)
    &&& forall|i: int| 0 <= i < r.rows.len() ==> row_ok(#[trigger] r.rows[i], r)
    &&& forall|i: int| 0 <= i < r.worse.len() ==> worse_ok(#[trigger] r.worse[i], r)
}

// ---------------------------------------------------------------------------
// The breaches, and what is said of each
// ---------------------------------------------------------------------------

/// One breach of the rules.
pub enum Violation {
    FactMissing { key: Seq<char> },
    FactEmpty { key: Seq<char> },
    WarmupUnstated { warmup: Seq<char> },
    TimedWithoutWarmup { id: Seq<char>, status: Status },
    RowMissing { id: Seq<char> },
    RowRepeated { id: Seq<char>, times: nat },
    TopicMissing { id: Seq<char> },
    NothingDirectional { id: Seq<char> },
    BadTolerance { id: Seq<char>, key: Seq<char>, tolerance: Seq<char> },
    NoCommand { id: Seq<char>, status: Status },
    NoGround { id: Seq<char> },
    GroundLeftBehind { id: Seq<char>, status: Status, grounds: Seq<Ground> },
    StaleGround { id: Seq<char>, ground: Ground, reason: Seq<char> },
    MeasuredNothing { id: Seq<char> },
    UnfairHost { id: Seq<char>, sensitivity: Sensitivity, why: Seq<char> },
    ShortOfCores { id: Seq<char>, consumers: usize, why: Seq<char> },
    IndicativeOnFairHost { id: Seq<char> },
    IndicativeUnforced { id: Seq<char> },
    IndicativeUnexplained { id: Seq<char> },
    UnavailableUnexplained { id: Seq<char> },
    UnavailableWithNumbers { id: Seq<char> },
    WorseStatesNothing { id: Seq<char> },
    WorseWithoutNumbers { id: Seq<char> },
    WorseBothWays { id: Seq<char>, metrics: nat },
    WorseNothingDirectional { id: Seq<char> },
    WorseBadTolerance { id: Seq<char>, key: Seq<char>, tolerance: Seq<char> },
}

pub open spec fn ground_names(gs: Seq<Ground>) -> Seq<Seq<char>> {
    gs.map_values(|g: Ground| g.name())
}

impl Violation {
    /// The text that reports the breach.
    pub open spec fn message(self) -> Seq<char> {
        match self {
            Violation::FactMissing { key } => "PHASE5 §9.3 requires the report to state `"@ + key
                + "`, and the provenance header has no such fact"@,
            Violation::FactEmpty { key } => "PHASE5 §9.3's `"@ + key
                + "` is present but empty. `Provenance::collect` writes an explicit `unknown`/`none (...)` where a fact cannot be read, precisely so a reader can tell a missing measurement from a missing line of code"@,
            Violation::WarmupUnstated { warmup } =>
                "PHASE5 §9.3 requires the discarded warm-up to be stated; this report states "@
                + warmup,
            Violation::TimedWithoutWarmup { id, status } => "row `"@ + id + "` is `"@
                + status.name()
                + "` and reports a timed measurement, but the report states a discarded warm-up of zero seconds. PHASE5 §9.3 requires both stacks to be warmed and the discarded window stated"@,
            Violation::RowMissing { id } => "PHASE5 §9.2 row `"@ + id
                + "` is missing from the report"@,
            Violation::RowRepeated { id, times } => "row `"@ + id + "` appears "@ + digits(times)
                + " times"@,
            Violation::TopicMissing { id } =>
                "PHASE5 §9.3 requires a `where we are worse` entry for `"@ + id + "`"@,
            Violation::NothingDirectional { id } => "row `"@ + id
                + "` prints numbers but every one of them is informational, so nothing in it can ever be gated — on the host that cuts the baseline as much as on this one. Give at least one metric a direction with `Metric::lower_is_better`/`higher_is_better`, or say plainly why this row is context rather than a claim"@,
            Violation::BadTolerance { id, key, tolerance } => "row `"@ + id + "` metric `"@ + key
                + "` is directional with tolerance "@ + tolerance
                + " — a negative or non-finite tolerance makes the "@
                + "gate either always or never fire"@,
            Violation::NoCommand { id, status } => "row `"@ + id + "` is `"@ + status.name()
                + "` and names no command that re-derives it. PHASE5 §9.3 requires the harness to be published in this repository, and a row that names nothing in it cannot be reproduced from it"@,
            Violation::NoGround { id } => "row `"@ + id
                + "` is `unavailable` with a reason resting on no stated ground. A reason nothing re-derives is the prose that went stale four times in this file; give it a `Ground`, or say in the `Ground` list which of the three undecidable ones it is"@,
            Violation::GroundLeftBehind { id, status, grounds } => "row `"@ + id + "` is `"@
                + status.name() + "` and still carries the ground(s) that explained its absence: "@
                + joined(ground_names(grounds), ", "@)
                + ". A row that prints numbers has nothing to excuse, and a ground left behind is one nothing will ever re-check"@,
            Violation::StaleGround { id, ground, reason } => "row `"@ + id
                + "` is `unavailable` on the ground `"@ + ground.name()
                + "`, and that ground does not hold in this build on this host — it is decided by "@
                + ground.decider()
                + ". The reason is stale: it explains the gap with something that is no longer true. Reason was: "@
                + reason,
            Violation::MeasuredNothing { id } => "row `"@ + id
                + "` is `measured` with no numbers"@,
            Violation::UnfairHost { id, sensitivity, why } => "row `"@ + id + "` is "@ + axis_name(
                sensitivity,
            ) + " and claims `measured`, but the host failed the fitness probe: "@ + why,
            Violation::ShortOfCores { id, consumers, why } => "row `"@ + id + "` runs "@ + digits(
                consumers as nat,
            ) + " consumers and claims `measured`, but "@ + why,
            Violation::IndicativeOnFairHost { id } => "row `"@ + id
                + "` is `indicative` on a host that passed the fitness probe; an indicative label there hides a usable number"@,
            Violation::IndicativeUnforced { id } => "row `"@ + id
                + "` is `indicative` without TF_TREE_BENCH_FORCE=1"@,
            Violation::IndicativeUnexplained { id } => "row `"@ + id
                + "` is `indicative` with no reason"@,
            Violation::UnavailableUnexplained { id } => "row `"@ + id
                + "` is `unavailable` with no reason"@,
            Violation::UnavailableWithNumbers { id } => "row `"@ + id
                + "` is `unavailable` but carries numbers"@,
            Violation::WorseStatesNothing { id } => "`worse` entry `"@ + id + "` states nothing"@,
            Violation::WorseWithoutNumbers { id } => "`worse` entry `"@ + id
                + "` carries no metrics and no `metrics_absent_because`. §9.3's section is the one a reader is entitled to quote against us, and an entry with an empty metric list reads as an oversight whether or not it is one. Either give it a number, or say — in the entry — why the cost has none"@,
            Violation::WorseBothWays { id, metrics } => "`worse` entry `"@ + id + "` carries "@
                + digits(metrics)
                + " metric(s) *and* a reason they are absent. One of the two is wrong, and a reader has no way to tell which"@,
            Violation::WorseNothingDirectional { id } => "`worse` entry `"@ + id
                + "` prints numbers and every one of them is informational, so nothing in it can ever be gated. §9.3's section is the one a reader is entitled to quote against us, and a cost that cannot regress is not a cost anybody is holding us to. Give at least one metric a direction with `Metric::lower_is_better`/`higher_is_better`"@,
            Violation::WorseBadTolerance { id, key, tolerance } => "`worse` entry `"@ + id
                + "` metric `"@ + key + "` is directional with tolerance "@ + tolerance
                + " — a negative or non-finite tolerance makes the "@
                + "gate either always or never fire"@,
        }
    }
}

pub open spec fn said(b: bool, v: Violation) -> Seq<Seq<char>> {
    says(b, v.message())
}

/// What is said of the first `n` required facts.
pub open spec fn fact_breaches(r: ReportView, n: nat) -> Seq<Seq<char>>
    decreases n,
{
    if n == 0 {
        seq![]
    } else {
        let key = REQUIRED_FACTS@[n - 1]@;
        fact_breaches(r, (n - 1) as nat) + match super::lookup(r.provenance, key) {
            None => seq![(Violation::FactMissing { key }).message()],
            Some(v) => said(blank(v), Violation::FactEmpty { key }),
        }
    }
}

/// What is said of the first `n` rows under a warm-up of zero.
pub open spec fn cold_breaches(rows: Seq<RowView>, n: nat) -> Seq<Seq<char>>
    decreases n,
{
    if n == 0 {
        seq![]
    } else {
        let row = rows[n - 1];
        cold_breaches(rows, (n - 1) as nat) + said(
            row.timed() && row.prints_numbers(),
            Violation::TimedWithoutWarmup { id: row.id, status: row.status },
        )
    }
}

pub open spec fn warmup_breaches(r: ReportView) -> Seq<Seq<char>> {
    if !finite(r.warmup.bits) || less(r.warmup.bits, 0) {
        seq![(Violation::WarmupUnstated { warmup: r.warmup.plain }).message()]
    } else if number::rank(r.warmup.bits) == 0 {
        cold_breaches(r.rows, r.rows.len())
    } else {
        seq![]
    }
}

pub open spec fn row_set_breaches(r: ReportView, n: nat) -> Seq<Seq<char>>
    decreases n,
{
    if n == 0 {
        seq![]
    } else {
        let id = REQUIRED_ROWS@[n - 1]@;
        let times = occurrences(r.rows, id);
        row_set_breaches(r, (n - 1) as nat) + said(times == 0, Violation::RowMissing { id }) + said(
            times > 1,
            Violation::RowRepeated { id, times },
        )
    }
}

pub open spec fn topic_breaches(r: ReportView, n: nat) -> Seq<Seq<char>>
    decreases n,
{
    if n == 0 {
        seq![]
    } else {
        let id = REQUIRED_WORSE@[n - 1]@;
        topic_breaches(r, (n - 1) as nat) + said(
            !topic_present(r, id),
            Violation::TopicMissing { id },
        )
    }
}

pub open spec fn tolerance_breaches(
    id: Seq<char>,
    ms: Seq<MetricView>,
    worse: bool,
    n: nat,
) -> Seq<Seq<char>>
    decreases n,
{
    if n == 0 {
        seq![]
    } else {
        let m = ms[n - 1];
        tolerance_breaches(id, ms, worse, (n - 1) as nat) + said(
            !usable_tolerance(m),
            if worse {
                Violation::WorseBadTolerance { id, key: m.key, tolerance: m.tolerance.plain }
            } else {
                Violation::BadTolerance { id, key: m.key, tolerance: m.tolerance.plain }
            },
        )
    }
}

pub open spec fn ground_breaches(row: RowView, r: ReportView, n: nat) -> Seq<Seq<char>>
    decreases n,
{
    if n == 0 {
        seq![]
    } else {
        let g = row.grounds[n - 1];
        ground_breaches(row, r, (n - 1) as nat) + said(
            g.verdict(r.build, r.fitness, row) == Some(false),
            Violation::StaleGround { id: row.id, ground: g, reason: row.reason },
        )
    }
}

/// Why the core budget is short, or a text for where no reason was recorded.
pub open spec fn core_why(f: FitnessView) -> Seq<char> {
    match f.core_reason {
        Some(s) => s,
        None => "the core budget check did not pass"@,
    }
}

pub open spec fn status_breaches(row: RowView, r: ReportView) -> Seq<Seq<char>> {
    match row.status {
        Status::Measured => said(
            row.metrics().len() == 0,
            Violation::MeasuredNothing { id: row.id },
        ) + said(
            !r.fitness.fair(row.sensitivity),
            Violation::UnfairHost {
                id: row.id,
                sensitivity: row.sensitivity,
                why: r.fitness.why(row.sensitivity),
            },
        ) + said(
            row.core_budget_applies() && !r.fitness.enough_cores,
            Violation::ShortOfCores {
                id: row.id,
                consumers: r.fitness.consumers,
                why: core_why(r.fitness),
            },
        ),
        Status::Indicative => said(
            r.fitness.fair(row.sensitivity),
            Violation::IndicativeOnFairHost { id: row.id },
        ) + said(!r.fitness.forced, Violation::IndicativeUnforced { id: row.id }) + said(
            blank(row.reason),
            Violation::IndicativeUnexplained { id: row.id },
        ),
        Status::Unavailable => said(
            blank(row.reason),
            Violation::UnavailableUnexplained { id: row.id },
        ) + said(row.metrics().len() > 0, Violation::UnavailableWithNumbers { id: row.id }),
    }
}

/// What is said of one row.
pub open spec fn row_breaches(row: RowView, r: ReportView) -> Seq<Seq<char>> {
    said(
        row.prints_numbers() && !some_directional(row.metrics()),
        Violation::NothingDirectional { id: row.id },
    ) + tolerance_breaches(row.id, row.metrics(), false, row.metrics().len()) + said(
        blank(row.reproduce),
        Violation::NoCommand { id: row.id, status: row.status },
    ) + said(
        !row.prints_numbers() && row.grounds.len() == 0,
        Violation::NoGround { id: row.id },
    ) + said(
        row.prints_numbers() && row.grounds.len() > 0,
        Violation::GroundLeftBehind { id: row.id, status: row.status, grounds: row.grounds },
    ) + ground_breaches(row, r, row.grounds.len()) + status_breaches(row, r)
}

pub open spec fn rows_breaches(r: ReportView, n: nat) -> Seq<Seq<char>>
    decreases n,
{
    if n == 0 {
        seq![]
    } else {
        rows_breaches(r, (n - 1) as nat) + row_breaches(r.rows[n - 1], r)
    }
}

/// What is said of one entry on where `tf_tree` is worse.
pub open spec fn worse_breaches(w: WorseView, r: ReportView) -> Seq<Seq<char>> {
    said(blank(w.statement), Violation::WorseStatesNothing { id: w.id }) + said(
        w.metrics.len() == 0 && !absence_explained(w),
        Violation::WorseWithoutNumbers { id: w.id },
    ) + said(
        w.metrics.len() > 0 && w.metrics_absent_because is Some,
        Violation::WorseBothWays { id: w.id, metrics: w.metrics.len() },
    ) + said(
        r.fitness.fair_for_memory && w.metrics_withheld.len() == 0 && w.metrics.len() > 0
            && !some_directional(w.metrics),
        Violation::WorseNothingDirectional { id: w.id },
    ) + tolerance_breaches(w.id, w.metrics, true, w.metrics.len())
}

pub open spec fn all_worse_breaches(r: ReportView, n: nat) -> Seq<Seq<char>>
    decreases n,
{
    if n == 0 {
        seq![]
    } else {
        all_worse_breaches(r, (n - 1) as nat) + worse_breaches(r.worse[n - 1], r)
    }
}

/// Everything that is said against a report, in order.
pub open spec fn breaches(r: ReportView) -> Seq<Seq<char>> {
    fact_breaches(r, 9) + warmup_breaches(r) + row_set_breaches(r, 10) + topic_breaches(r, 4)
        + rows_breaches(r, r.rows.len()) + all_worse_breaches(r, r.worse.len())
}

// ---------------------------------------------------------------------------
// A report is refused exactly where it breaks a rule
// ---------------------------------------------------------------------------

proof fn lemma_fact_breaches(r: ReportView, n: nat)
    requires
        n <= 9,
    ensures
        fact_breaches(r, n).len() == 0 <==> forall|i: int|
            0 <= i < n ==> fact_stated(r, #[trigger] REQUIRED_FACTS@[i]@),
    decreases n,
{
    if n > 0 {
        lemma_fact_breaches(r, (n - 1) as nat);
        assert(fact_stated(r, REQUIRED_FACTS@[n - 1]@) <==> fact_breaches(r, n).len()
            == fact_breaches(r, (n - 1) as nat).len());
    }
}

proof fn lemma_cold_breaches(rows: Seq<RowView>, n: nat)
    requires
        n <= rows.len(),
    ensures
        cold_breaches(rows, n).len() == 0 <==> forall|i: int|
            0 <= i < n ==> !((#[trigger] rows[i]).timed() && rows[i].prints_numbers()),
    decreases n,
{
    if n > 0 {
        lemma_cold_breaches(rows, (n - 1) as nat);
        assert(!(rows[n - 1].timed() && rows[n - 1].prints_numbers()) <==> cold_breaches(
            rows,
            n,
        ).len() == cold_breaches(rows, (n - 1) as nat).len());
    }
}

proof fn lemma_row_set_breaches(r: ReportView, n: nat)
    requires
        n <= 10,
    ensures
        row_set_breaches(r, n).len() == 0 <==> forall|i: int|
            0 <= i < n ==> occurrences(r.rows, #[trigger] REQUIRED_ROWS@[i]@) == 1,
    decreases n,
{
    if n > 0 {
        lemma_row_set_breaches(r, (n - 1) as nat);
        assert(occurrences(r.rows, REQUIRED_ROWS@[n - 1]@) == 1 <==> row_set_breaches(r, n).len()
            == row_set_breaches(r, (n - 1) as nat).len());
    }
}

proof fn lemma_topic_breaches(r: ReportView, n: nat)
    requires
        n <= 4,
    ensures
        topic_breaches(r, n).len() == 0 <==> forall|i: int|
            0 <= i < n ==> topic_present(r, #[trigger] REQUIRED_WORSE@[i]@),
    decreases n,
{
    if n > 0 {
        lemma_topic_breaches(r, (n - 1) as nat);
        assert(topic_present(r, REQUIRED_WORSE@[n - 1]@) <==> topic_breaches(r, n).len()
            == topic_breaches(r, (n - 1) as nat).len());
    }
}

proof fn lemma_tolerance_breaches(id: Seq<char>, ms: Seq<MetricView>, worse: bool, n: nat)
    requires
        n <= ms.len(),
    ensures
        tolerance_breaches(id, ms, worse, n).len() == 0 <==> forall|i: int|
            0 <= i < n ==> usable_tolerance(#[trigger] ms[i]),
    decreases n,
{
    if n > 0 {
        lemma_tolerance_breaches(id, ms, worse, (n - 1) as nat);
        assert(usable_tolerance(ms[n - 1]) <==> tolerance_breaches(id, ms, worse, n).len()
            == tolerance_breaches(id, ms, worse, (n - 1) as nat).len());
    }
}

proof fn lemma_ground_breaches(row: RowView, r: ReportView, n: nat)
    requires
        n <= row.grounds.len(),
    ensures
        ground_breaches(row, r, n).len() == 0 <==> forall|i: int|
            0 <= i < n ==> (#[trigger] row.grounds[i]).verdict(r.build, r.fitness, row) != Some(
                false,
            ),
    decreases n,
{
    if n > 0 {
        lemma_ground_breaches(row, r, (n - 1) as nat);
        assert(row.grounds[n - 1].verdict(r.build, r.fitness, row) != Some(false)
            <==> ground_breaches(row, r, n).len() == ground_breaches(row, r, (n - 1) as nat).len());
    }
}

proof fn lemma_row_breaches(row: RowView, r: ReportView)
    ensures
        row_breaches(row, r).len() == 0 <==> row_ok(row, r),
{
    lemma_tolerance_breaches(row.id, row.metrics(), false, row.metrics().len());
    lemma_ground_breaches(row, r, row.grounds.len());
    assert(status_breaches(row, r).len() == 0 <==> evidence_ok(row, r));
}

proof fn lemma_rows_breaches(r: ReportView, n: nat)
    requires
        n <= r.rows.len(),
    ensures
        rows_breaches(r, n).len() == 0 <==> forall|i: int|
            0 <= i < n ==> row_ok(#[trigger] r.rows[i], r),
    decreases n,
{
    if n > 0 {
        lemma_rows_breaches(r, (n - 1) as nat);
        lemma_row_breaches(r.rows[n - 1], r);
    }
}

proof fn lemma_worse_breaches(w: WorseView, r: ReportView)
    ensures
        worse_breaches(w, r).len() == 0 <==> worse_ok(w, r),
{
    lemma_tolerance_breaches(w.id, w.metrics, true, w.metrics.len());
}

proof fn lemma_all_worse_breaches(r: ReportView, n: nat)
    requires
        n <= r.worse.len(),
    ensures
        all_worse_breaches(r, n).len() == 0 <==> forall|i: int|
            0 <= i < n ==> worse_ok(#[trigger] r.worse[i], r),
    decreases n,
{
    if n > 0 {
        lemma_all_worse_breaches(r, (n - 1) as nat);
        lemma_worse_breaches(r.worse[n - 1], r);
    }
}

/// Nothing is said against a report exactly where it keeps every rule.
pub proof fn law_valid_iff_no_breach(r: ReportView)
    ensures
        breaches(r).len() == 0 <==> valid(r),
{
    lemma_fact_breaches(r, 9);
    lemma_cold_breaches(r.rows, r.rows.len());
    lemma_row_set_breaches(r, 10);
    lemma_topic_breaches(r, 4);
    lemma_rows_breaches(r, r.rows.len());
    lemma_all_worse_breaches(r, r.worse.len());
}

/// In a report that is accepted, a row that claims to be measured stands on a host
/// that is fair for it, with the cores where they matter, and prints a number that a
/// gate can hold.
pub proof fn law_measured_is_a_claim(r: ReportView, i: int)
    requires
        valid(r),
        0 <= i < r.rows.len(),
        r.rows[i].status == Status::Measured,
    ensures
        r.fitness.fair(r.rows[i].sensitivity),
        r.rows[i].core_budget_applies() ==> r.fitness.enough_cores,
        some_directional(r.rows[i].metrics()),
        r.rows[i].grounds.len() == 0,
        r.rows[i].timed() ==> less(0, r.warmup.bits),
{
    assert(row_ok(r.rows[i], r));
}

/// In a report that is accepted, an indicative row stands on an unfair host whose
/// operator forced the run, and says why.
pub proof fn law_indicative_is_forced(r: ReportView, i: int)
    requires
        valid(r),
        0 <= i < r.rows.len(),
        r.rows[i].status == Status::Indicative,
    ensures
        r.fitness.forced,
        !r.fitness.fair(r.rows[i].sensitivity),
        !blank(r.rows[i].reason),
        some_directional(r.rows[i].metrics()),
{
    assert(row_ok(r.rows[i], r));
}

/// In a report that is accepted, a gap prints no number, gives a reason and a command,
/// and rests on a ground that has not gone stale.
pub proof fn law_gap_is_actionable(r: ReportView, i: int)
    requires
        valid(r),
        0 <= i < r.rows.len(),
        r.rows[i].status == Status::Unavailable,
    ensures
        r.rows[i].metrics().len() == 0,
        !blank(r.rows[i].reason),
        !blank(r.rows[i].reproduce),
        r.rows[i].grounds.len() > 0,
        forall|k: int|
            0 <= k < r.rows[i].grounds.len() ==> (#[trigger] r.rows[i].grounds[k]).verdict(
                r.build,
                r.fitness,
                r.rows[i],
            ) != Some(false),
{
    assert(row_ok(r.rows[i], r));
}

// ---------------------------------------------------------------------------
// The checks
// ---------------------------------------------------------------------------

broadcast proof fn lemma_texts_add(a: Seq<String>, b: Seq<String>)
    ensures
        #[trigger] texts(a + b) == texts(a) + texts(b),
{
    assert(texts(a + b) =~= texts(a) + texts(b));
}

fn cat3(a: &str, b: &str, c: &str) -> (r: String)
    ensures
        r@ == a@ + b@ + c@,
{
    let mut s = a.to_owned();
    s.append(b);
    s.append(c);
    s
}

fn cat5(a: &str, b: &str, c: &str, d: &str, e: &str) -> (r: String)
    ensures
        r@ == a@ + b@ + c@ + d@ + e@,
{
    let mut s = cat3(a, b, c);
    s.append(d);
    s.append(e);
    s
}

fn cat7(a: &str, b: &str, c: &str, d: &str, e: &str, f: &str, g: &str) -> (r: String)
    ensures
        r@ == a@ + b@ + c@ + d@ + e@ + f@ + g@,
{
    let mut s = cat5(a, b, c, d, e);
    s.append(f);
    s.append(g);
    s
}

/// Notes a breach.
fn note(bad: &mut Vec<String>, s: String)
    ensures
        texts(final(bad)@) == texts(old(bad)@) + seq![s@],
{
    broadcast use lemma_texts_push;

    let ghost before = texts(bad@);
    bad.push(s);
    assert(texts(bad@) =~= before + seq![s@]);
}

broadcast proof fn lemma_add_nothing(s: Seq<Seq<char>>)
    ensures
        #[trigger] (s + Seq::<Seq<char>>::empty()) == s,
{
    assert(s + Seq::<Seq<char>>::empty() =~= s);
}

fn is_directional(ms: &Vec<Metric>) -> (r: bool)
    ensures
        r == some_directional(metric_views(ms@)),
{
    let mut i: usize = 0;
    while i < ms.len()
        invariant
            i <= ms@.len(),
            forall|j: int|
                0 <= j < i ==> !(#[trigger] metric_views(ms@)[j]).directional(),
        decreases ms@.len() - i,
    {
        assert(metric_views(ms@)[i as int] == ms@[i as int]@);
        if ms[i].drift != Drift::Informational {
            return true;
        }
        i = i + 1;
    }
    false
}

fn is_usable(m: &Metric) -> (r: bool)
    ensures
        r == usable_tolerance(m@),
{
    m.drift == Drift::Informational || (number::is_finite(m.tolerance.bits) && number::le(
        0,
        m.tolerance.bits,
    ))
}

fn check_tolerances(id: &str, ms: &Vec<Metric>, worse: bool) -> (r: Vec<String>)
    ensures
        texts(r@) == tolerance_breaches(id@, metric_views(ms@), worse, ms@.len()),
{
    broadcast use lemma_add_nothing;

    let mut bad: Vec<String> = Vec::new();
    assert(texts(bad@) =~= seq![]);
    let mut i: usize = 0;
    while i < ms.len()
        invariant
            i <= ms@.len(),
            texts(bad@) == tolerance_breaches(id@, metric_views(ms@), worse, i as nat),
        decreases ms@.len() - i,
    {
        let m = &ms[i];
        assert(metric_views(ms@)[i as int] == m@);
        if !is_usable(m) {
            let mut s = if worse {
                "`worse` entry `".to_owned()
            } else {
                "row `".to_owned()
            };
            s.append(id);
            s.append("` metric `");
            s.append(m.key);
            s.append("` is directional with tolerance ");
            s.append(m.tolerance.plain.as_str());
            s.append(" — a negative or non-finite tolerance makes the ");
            s.append("gate either always or never fire");
            note(&mut bad, s);
        }
        i = i + 1;
    }
    bad
}

proof fn lemma_tolerance_breaches_split(
    id: Seq<char>,
    a: Seq<MetricView>,
    b: Seq<MetricView>,
    worse: bool,
    n: nat,
)
    requires
        n <= b.len(),
    ensures
        tolerance_breaches(id, a + b, worse, a.len() + n) == tolerance_breaches(
            id,
            a,
            worse,
            a.len(),
        ) + tolerance_breaches(id, b, worse, n),
    decreases n,
{
    if n == 0 {
        lemma_tolerance_breaches_prefix(id, a, b, worse, a.len());
        assert(tolerance_breaches(id, a, worse, a.len()) + seq![] =~= tolerance_breaches(
            id,
            a,
            worse,
            a.len(),
        ));
    } else {
        lemma_tolerance_breaches_split(id, a, b, worse, (n - 1) as nat);
        assert((a + b)[a.len() + n - 1] == b[n - 1]);
        assert(tolerance_breaches(id, a + b, worse, a.len() + n) =~= tolerance_breaches(
            id,
            a,
            worse,
            a.len(),
        ) + tolerance_breaches(id, b, worse, n));
    }
}

proof fn lemma_tolerance_breaches_prefix(
    id: Seq<char>,
    a: Seq<MetricView>,
    b: Seq<MetricView>,
    worse: bool,
    n: nat,
)
    requires
        n <= a.len(),
    ensures
        tolerance_breaches(id, a + b, worse, n) == tolerance_breaches(id, a, worse, n),
    decreases n,
{
    if n > 0 {
        lemma_tolerance_breaches_prefix(id, a, b, worse, (n - 1) as nat);
    }
}

fn names_of(gs: &Vec<Ground>) -> (r: Vec<String>)
    ensures
        texts(r@) == ground_names(gs@),
{
    broadcast use lemma_texts_push;

    let mut v: Vec<String> = Vec::new();
    let mut i: usize = 0;
    assert(texts(v@) =~= ground_names(gs@.take(0)));
    while i < gs.len()
        invariant
            i <= gs@.len(),
            texts(v@) == ground_names(gs@.take(i as int)),
        decreases gs@.len() - i,
    {
        v.push(gs[i].as_str().to_owned());
        i = i + 1;
        assert(ground_names(gs@.take(i as int)) =~= ground_names(gs@.take(i - 1)).push(
            gs@[i - 1].name(),
        ));
    }
    assert(gs@.take(i as int) =~= gs@);
    v
}

impl Report {
    fn check_facts(&self) -> (r: Vec<String>)
        ensures
            texts(r@) == fact_breaches(self@, 9),
    {
        broadcast use lemma_add_nothing;

        let mut bad: Vec<String> = Vec::new();
        assert(texts(bad@) =~= seq![]);
        let keys = REQUIRED_FACTS;
        let mut i: usize = 0;
        while i < 9
            invariant
                i <= 9,
                keys == REQUIRED_FACTS,
                texts(bad@) == fact_breaches(self@, i as nat),
            decreases 9 - i,
        {
            let key: &'static str = keys[i];
            assert(REQUIRED_FACTS@[i as int]@ == key@);
            match self.provenance.get(key) {
                None => note(
                    &mut bad,
                    cat3(
                        "PHASE5 §9.3 requires the report to state `",
                        key,
                        "`, and the provenance header has no such fact",
                    ),
                ),
                Some(v) => if text::is_blank(v) {
                    note(
                        &mut bad,
                        cat3(
                            "PHASE5 §9.3's `",
                            key,
                            "` is present but empty. `Provenance::collect` writes an explicit `unknown`/`none (...)` where a fact cannot be read, precisely so a reader can tell a missing measurement from a missing line of code",
                        ),
                    )
                },
            }
            i = i + 1;
        }
        bad
    }

    fn check_warmup(&self) -> (r: Vec<String>)
        ensures
            texts(r@) == warmup_breaches(self@),
    {
        broadcast use lemma_add_nothing;

        let mut bad: Vec<String> = Vec::new();
        assert(texts(bad@) =~= seq![]);
        let bits: u64 = self.warmup_discarded_s.bits;
        if !number::is_finite(bits) || number::lt(bits, 0) {
            let mut s =
                "PHASE5 §9.3 requires the discarded warm-up to be stated; this report states ".to_owned();
            s.append(self.warmup_discarded_s.plain.as_str());
            note(&mut bad, s);
            assert(texts(bad@) =~= warmup_breaches(self@));
        } else if number::le(bits, 0) {
            let mut i: usize = 0;
            while i < self.rows.len()
                invariant
                    i <= self.rows@.len(),
                    texts(bad@) == cold_breaches(self@.rows, i as nat),
                decreases self.rows@.len() - i,
            {
                let r = &self.rows[i];
                assert(self@.rows[i as int] == r@);
                let timed = r.sensitivity == Sensitivity::AbsoluteTiming || r.sensitivity
                    == Sensitivity::Ratio;
                if timed && r.status != Status::Unavailable {
                    note(
                        &mut bad,
                        cat5(
                            "row `",
                            r.id,
                            "` is `",
                            r.status.as_str(),
                            "` and reports a timed measurement, but the report states a discarded warm-up of zero seconds. PHASE5 §9.3 requires both stacks to be warmed and the discarded window stated",
                        ),
                    );
                }
                i = i + 1;
            }
        }
        bad
    }

    /// How many rows carry an id.
    fn count_rows(&self, id: &str) -> (n: u64)
        ensures
            n == occurrences(self@.rows, id@),
    {
        let mut n: u64 = 0;
        let mut i: usize = 0;
        assert(self@.rows.take(0) =~= seq![]);
        while i < self.rows.len()
            invariant
                i <= self.rows.len(),
                n <= i,
                n == occurrences(self@.rows.take(i as int), id@),
            decreases self.rows@.len() - i,
        {
            assert(self@.rows.take(i + 1).drop_last() =~= self@.rows.take(i as int));
            assert(self@.rows.take(i + 1).last() == self.rows@[i as int]@);
            if text::same(self.rows[i].id, id) {
                n = n + 1;
            }
            i = i + 1;
        }
        assert(self@.rows.take(i as int) =~= self@.rows);
        n
    }

    fn check_row_set(&self) -> (r: Vec<String>)
        ensures
            texts(r@) == row_set_breaches(self@, 10),
    {
        broadcast use lemma_add_nothing;

        let mut bad: Vec<String> = Vec::new();
        assert(texts(bad@) =~= seq![]);
        let ids = REQUIRED_ROWS;
        let mut i: usize = 0;
        while i < 10
            invariant
                i <= 10,
                ids == REQUIRED_ROWS,
                texts(bad@) == row_set_breaches(self@, i as nat),
            decreases 10 - i,
        {
            let id: &'static str = ids[i];
            assert(REQUIRED_ROWS@[i as int]@ == id@);
            let n = self.count_rows(id);
            if n == 0 {
                note(
                    &mut bad,
                    cat3("PHASE5 §9.2 row `", id, "` is missing from the report"),
                );
            } else if n > 1 {
                note(&mut bad, cat5("row `", id, "` appears ", decimal(n).as_str(), " times"));
            }
            i = i + 1;
        }
        bad
    }

    fn has_topic(&self, id: &str) -> (r: bool)
        ensures
            r == topic_present(self@, id@),
    {
        let mut i: usize = 0;
        while i < self.worse.len()
            invariant
                i <= self.worse@.len(),
                forall|j: int| 0 <= j < i ==> (#[trigger] self@.worse[j]).id != id@,
            decreases self.worse@.len() - i,
        {
            assert(self@.worse[i as int] == self.worse@[i as int]@);
            if text::same(self.worse[i].id, id) {
                return true;
            }
            i = i + 1;
        }
        false
    }

    fn check_topics(&self) -> (r: Vec<String>)
        ensures
            texts(r@) == topic_breaches(self@, 4),
    {
        broadcast use lemma_add_nothing;

        let mut bad: Vec<String> = Vec::new();
        assert(texts(bad@) =~= seq![]);
        let ids = REQUIRED_WORSE;
        let mut i: usize = 0;
        while i < 4
            invariant
                i <= 4,
                ids == REQUIRED_WORSE,
                texts(bad@) == topic_breaches(self@, i as nat),
            decreases 4 - i,
        {
            let id: &'static str = ids[i];
            assert(REQUIRED_WORSE@[i as int]@ == id@);
            if !self.has_topic(id) {
                note(
                    &mut bad,
                    cat3("PHASE5 §9.3 requires a `where we are worse` entry for `", id, "`"),
                );
            }
            i = i + 1;
        }
        bad
    }

    fn check_grounds(&self, row: &Row) -> (r: Vec<String>)
        ensures
            texts(r@) == ground_breaches(row@, self@, row.grounds@.len()),
    {
        broadcast use lemma_add_nothing;

        let mut bad: Vec<String> = Vec::new();
        assert(texts(bad@) =~= seq![]);
        let mut i: usize = 0;
        while i < row.grounds.len()
            invariant
                i <= row.grounds@.len(),
                texts(bad@) == ground_breaches(row@, self@, i as nat),
            decreases row.grounds@.len() - i,
        {
            let g = row.grounds[i];
            match g.holds(self.build, &self.fitness, row) {
                Some(false) => {
                    let mut s = cat7(
                        "row `",
                        row.id,
                        "` is `unavailable` on the ground `",
                        g.as_str(),
                        "`, and that ground does not hold in this build on this host — it is decided by ",
                        g.decided_by(),
                        ". The reason is stale: it explains the gap with something that is no longer true. Reason was: ",
                    );
                    s.append(row.reason.as_str());
                    note(&mut bad, s);
                },
                _ => {},
            }
            i = i + 1;
        }
        bad
    }

    fn check_status(&self, row: &Row) -> (r: Vec<String>)
        ensures
            texts(r@) == status_breaches(row@, self@),
    {
        let mut bad: Vec<String> = Vec::new();
        assert(texts(bad@) =~= seq![]);
        let no_numbers = row.tf_tree.len() == 0 && row.tf2.len() == 0;
        assert(no_numbers == (row@.metrics().len() == 0));
        let (fair, axis, why) = self.fitness.axis(row.sensitivity);
        match row.status {
            Status::Measured => {
                if no_numbers {
                    note(&mut bad, cat3("row `", row.id, "` is `measured` with no numbers"));
                }
                if !fair {
                    let mut s = cat5(
                        "row `",
                        row.id,
                        "` is ",
                        axis,
                        " and claims `measured`, but the host failed the fitness probe: ",
                    );
                    s.append(why.as_str());
                    note(&mut bad, s);
                }
                let core_budget_applies = row.needs_n_cores && row.sensitivity
                    != Sensitivity::Memory;
                if core_budget_applies && !self.fitness.enough_cores {
                    let mut s = cat5(
                        "row `",
                        row.id,
                        "` runs ",
                        decimal(self.fitness.consumers as u64).as_str(),
                        " consumers and claims `measured`, but ",
                    );
                    match &self.fitness.core_reason {
                        Some(c) => s.append(c.as_str()),
                        None => s.append("the core budget check did not pass"),
                    }
                    note(&mut bad, s);
                }
            },
            Status::Indicative => {
                if fair {
                    note(
                        &mut bad,
                        cat3(
                            "row `",
                            row.id,
                            "` is `indicative` on a host that passed the fitness probe; an indicative label there hides a usable number",
                        ),
                    );
                }
                if !self.fitness.forced {
                    note(
                        &mut bad,
                        cat3("row `", row.id, "` is `indicative` without TF_TREE_BENCH_FORCE=1"),
                    );
                }
                if text::is_blank(row.reason.as_str()) {
                    note(&mut bad, cat3("row `", row.id, "` is `indicative` with no reason"));
                }
            },
            Status::Unavailable => {
                if text::is_blank(row.reason.as_str()) {
                    note(&mut bad, cat3("row `", row.id, "` is `unavailable` with no reason"));
                }
                if !no_numbers {
                    note(
                        &mut bad,
                        cat3("row `", row.id, "` is `unavailable` but carries numbers"),
                    );
                }
            },
        }
        assert(texts(bad@) =~= status_breaches(row@, self@));
        bad
    }

    fn check_row(&self, row: &Row) -> (r: Vec<String>)
        ensures
            texts(r@) == row_breaches(row@, self@),
    {
        broadcast use {lemma_add_nothing, lemma_texts_add};

        let ghost v = row@;
        let mut bad: Vec<String> = Vec::new();
        assert(texts(bad@) =~= seq![]);
        let prints = row.status != Status::Unavailable;
        let directional = is_directional(&row.tf_tree) || is_directional(&row.tf2);
        proof {
            let (a, b) = (v.tf_tree, v.tf2);
            if some_directional(a) {
                let i = choose|i: int| 0 <= i < a.len() && (#[trigger] a[i]).directional();
                assert(v.metrics()[i] == a[i]);
            }
            if some_directional(b) {
                let i = choose|i: int| 0 <= i < b.len() && (#[trigger] b[i]).directional();
                assert(v.metrics()[a.len() + i] == b[i]);
            }
            if some_directional(v.metrics()) {
                let i = choose|i: int|
                    0 <= i < v.metrics().len() && (#[trigger] v.metrics()[i]).directional();
                if i < a.len() {
                    assert(a[i] == v.metrics()[i]);
                } else {
                    assert(b[i - a.len()] == v.metrics()[i]);
                }
            }
            assert(directional == some_directional(v.metrics()));
        }
        if prints && !directional {
            note(
                &mut bad,
                cat3(
                    "row `",
                    row.id,
                    "` prints numbers but every one of them is informational, so nothing in it can ever be gated — on the host that cuts the baseline as much as on this one. Give at least one metric a direction with `Metric::lower_is_better`/`higher_is_better`, or say plainly why this row is context rather than a claim",
                ),
            );
        }
        let ghost p1 = texts(bad@);
        assert(p1 =~= said(
            v.prints_numbers() && !some_directional(v.metrics()),
            Violation::NothingDirectional { id: v.id },
        ));
        let mut t = check_tolerances(row.id, &row.tf_tree, false);
        bad.append(&mut t);
        let mut t = check_tolerances(row.id, &row.tf2, false);
        bad.append(&mut t);
        let ghost p2 = texts(bad@);
        proof {
            lemma_tolerance_breaches_split(v.id, v.tf_tree, v.tf2, false, v.tf2.len());
            assert(p2 =~= p1 + tolerance_breaches(v.id, v.metrics(), false, v.metrics().len()));
        }
        if text::is_blank(row.reproduce) {
            note(
                &mut bad,
                cat5(
                    "row `",
                    row.id,
                    "` is `",
                    row.status.as_str(),
                    "` and names no command that re-derives it. PHASE5 §9.3 requires the harness to be published in this repository, and a row that names nothing in it cannot be reproduced from it",
                ),
            );
        }
        let ghost p3 = texts(bad@);
        assert(p3 == p2 + said(
            blank(v.reproduce),
            Violation::NoCommand { id: v.id, status: v.status },
        ));
        if !prints && row.grounds.len() == 0 {
            note(
                &mut bad,
                cat3(
                    "row `",
                    row.id,
                    "` is `unavailable` with a reason resting on no stated ground. A reason nothing re-derives is the prose that went stale four times in this file; give it a `Ground`, or say in the `Ground` list which of the three undecidable ones it is",
                ),
            );
        }
        let ghost p4 = texts(bad@);
        assert(p4 == p3 + said(
            !v.prints_numbers() && v.grounds.len() == 0,
            Violation::NoGround { id: v.id },
        ));
        if prints && row.grounds.len() > 0 {
            let names = text::join(&names_of(&row.grounds), ", ");
            note(
                &mut bad,
                cat7(
                    "row `",
                    row.id,
                    "` is `",
                    row.status.as_str(),
                    "` and still carries the ground(s) that explained its absence: ",
                    names.as_str(),
                    ". A row that prints numbers has nothing to excuse, and a ground left behind is one nothing will ever re-check",
                ),
            );
        }
        let ghost p5 = texts(bad@);
        assert(p5 == p4 + said(
            v.prints_numbers() && v.grounds.len() > 0,
            Violation::GroundLeftBehind { id: v.id, status: v.status, grounds: v.grounds },
        ));
        let mut t = self.check_grounds(row);
        bad.append(&mut t);
        let mut t = self.check_status(row);
        bad.append(&mut t);
        bad
    }

    fn check_worse(&self, w: &Worse) -> (r: Vec<String>)
        ensures
            texts(r@) == worse_breaches(w@, self@),
    {
        broadcast use {lemma_add_nothing, lemma_texts_add};

        let ghost v = w@;
        let mut bad: Vec<String> = Vec::new();
        assert(texts(bad@) =~= seq![]);
        if text::is_blank(w.statement.as_str()) {
            note(&mut bad, cat3("`worse` entry `", w.id, "` states nothing"));
        }
        let ghost p1 = texts(bad@);
        assert(p1 =~= said(blank(v.statement), Violation::WorseStatesNothing { id: v.id }));
        let explained = match &w.metrics_absent_because {
            None => false,
            Some(s) => !text::is_blank(s.as_str()),
        };
        if w.metrics.len() == 0 && !explained {
            note(
                &mut bad,
                cat3(
                    "`worse` entry `",
                    w.id,
                    "` carries no metrics and no `metrics_absent_because`. §9.3's section is the one a reader is entitled to quote against us, and an entry with an empty metric list reads as an oversight whether or not it is one. Either give it a number, or say — in the entry — why the cost has none",
                ),
            );
        }
        let ghost p2 = texts(bad@);
        assert(p2 == p1 + said(
            v.metrics.len() == 0 && !absence_explained(v),
            Violation::WorseWithoutNumbers { id: v.id },
        ));
        if w.metrics.len() > 0 && w.metrics_absent_because.is_some() {
            note(
                &mut bad,
                cat5(
                    "`worse` entry `",
                    w.id,
                    "` carries ",
                    decimal(w.metrics.len() as u64).as_str(),
                    " metric(s) *and* a reason they are absent. One of the two is wrong, and a reader has no way to tell which",
                ),
            );
        }
        let ghost p3 = texts(bad@);
        assert(p3 == p2 + said(
            v.metrics.len() > 0 && v.metrics_absent_because is Some,
            Violation::WorseBothWays { id: v.id, metrics: v.metrics.len() },
        ));
        if self.fitness.fair_for_memory && w.metrics_withheld.len() == 0 && w.metrics.len() > 0
            && !is_directional(&w.metrics) {
            note(
                &mut bad,
                cat3(
                    "`worse` entry `",
                    w.id,
                    "` prints numbers and every one of them is informational, so nothing in it can ever be gated. §9.3's section is the one a reader is entitled to quote against us, and a cost that cannot regress is not a cost anybody is holding us to. Give at least one metric a direction with `Metric::lower_is_better`/`higher_is_better`",
                ),
            );
        }
        let ghost p4 = texts(bad@);
        assert(p4 == p3 + said(
            self@.fitness.fair_for_memory && v.metrics_withheld.len() == 0 && v.metrics.len() > 0
                && !some_directional(v.metrics),
            Violation::WorseNothingDirectional { id: v.id },
        ));
        let mut t = check_tolerances(w.id, &w.metrics, true);
        bad.append(&mut t);
        bad
    }

    /// Holds the assembled report to its rules.
    ///
    /// # Errors
    ///
    /// One text per breach; the caller fails rather than emit the report.
    pub fn validate(&self) -> (r: Result<(), Vec<String>>)
        ensures
            r is Ok <==> valid(self@),
            r matches Err(bad) ==> texts(bad@) == breaches(self@) && bad@.len() > 0,
    {
        broadcast use lemma_texts_add;

        let mut bad = self.check_facts();
        let mut t = self.check_warmup();
        bad.append(&mut t);
        let mut t = self.check_row_set();
        bad.append(&mut t);
        let mut t = self.check_topics();
        bad.append(&mut t);
        let ghost fixed = texts(bad@);
        let mut i: usize = 0;
        assert(fixed + rows_breaches(self@, 0) =~= fixed);
        while i < self.rows.len()
            invariant
                i <= self.rows@.len(),
                texts(bad@) == fixed + rows_breaches(self@, i as nat),
            decreases self.rows@.len() - i,
        {
            assert(self@.rows[i as int] == self.rows@[i as int]@);
            let mut t = self.check_row(&self.rows[i]);
            let ghost before = texts(bad@);
            let ghost more = texts(t@);
            bad.append(&mut t);
            assert(texts(bad@) == before + more);
            assert(before + more =~= fixed + (rows_breaches(self@, i as nat) + more));
            i = i + 1;
        }
        let ghost fixed = texts(bad@);
        let mut i: usize = 0;
        assert(fixed + all_worse_breaches(self@, 0) =~= fixed);
        while i < self.worse.len()
            invariant
                i <= self.worse@.len(),
                texts(bad@) == fixed + all_worse_breaches(self@, i as nat),
            decreases self.worse@.len() - i,
        {
            assert(self@.worse[i as int] == self.worse@[i as int]@);
            let mut t = self.check_worse(&self.worse[i]);
            let ghost before = texts(bad@);
            let ghost more = texts(t@);
            bad.append(&mut t);
            assert(texts(bad@) == before + more);
            assert(before + more =~= fixed + (all_worse_breaches(self@, i as nat) + more));
            i = i + 1;
        }
        assert(texts(bad@) == breaches(self@));
        proof {
            law_valid_iff_no_breach(self@);
        }
        if bad.len() == 0 {
            Ok(())
        } else {
            Err(bad)
        }
    }
}

/// Every fault of a row is told, by the words for it.
pub proof fn law_each_fault_of_a_row_is_told(row: RowView, r: ReportView)
    ensures
        ({
            let told = row_breaches(row, r);
            let all = row.tf_tree + row.tf2;
            let fair = r.fitness.fair(row.sensitivity);
            &&& row.status !is Unavailable && (forall|i: int|
                0 <= i < all.len() ==> (#[trigger] all[i]).drift is Informational)
                ==> told.contains((Violation::NothingDirectional { id: row.id }).message())
            &&& blank(row.reproduce) ==> told.contains(
                (Violation::NoCommand { id: row.id, status: row.status }).message(),
            )
            &&& row.status is Unavailable && row.grounds.len() == 0 ==> told.contains(
                (Violation::NoGround { id: row.id }).message(),
            )
            &&& row.status !is Unavailable && row.grounds.len() > 0 ==> told.contains(
                (Violation::GroundLeftBehind {
                    id: row.id,
                    status: row.status,
                    grounds: row.grounds,
                }).message(),
            )
            &&& row.status is Measured && all.len() == 0 ==> told.contains(
                (Violation::MeasuredNothing { id: row.id }).message(),
            )
            &&& row.status is Measured && !fair ==> told.contains(
                (Violation::UnfairHost {
                    id: row.id,
                    sensitivity: row.sensitivity,
                    why: r.fitness.why(row.sensitivity),
                }).message(),
            )
            &&& row.status is Measured && row.needs_n_cores && row.sensitivity !is Memory
                && !r.fitness.enough_cores ==> told.contains(
                (Violation::ShortOfCores {
                    id: row.id,
                    consumers: r.fitness.consumers,
                    why: core_why(r.fitness),
                }).message(),
            )
            &&& row.status is Indicative && fair ==> told.contains(
                (Violation::IndicativeOnFairHost { id: row.id }).message(),
            )
            &&& row.status is Indicative && !r.fitness.forced ==> told.contains(
                (Violation::IndicativeUnforced { id: row.id }).message(),
            )
            &&& row.status is Indicative && blank(row.reason) ==> told.contains(
                (Violation::IndicativeUnexplained { id: row.id }).message(),
            )
            &&& row.status is Unavailable && blank(row.reason) ==> told.contains(
                (Violation::UnavailableUnexplained { id: row.id }).message(),
            )
            &&& row.status is Unavailable && all.len() > 0 ==> told.contains(
                (Violation::UnavailableWithNumbers { id: row.id }).message(),
            )
        }),
{
    let all = row.metrics();
    let p1 = row.prints_numbers() && !some_directional(all);
    let v1 = Violation::NothingDirectional { id: row.id };
    let p3 = blank(row.reproduce);
    let v3 = Violation::NoCommand { id: row.id, status: row.status };
    let p4 = !row.prints_numbers() && row.grounds.len() == 0;
    let v4 = Violation::NoGround { id: row.id };
    let p5 = row.prints_numbers() && row.grounds.len() > 0;
    let v5 = Violation::GroundLeftBehind {
        id: row.id,
        status: row.status,
        grounds: row.grounds,
    };
    let q1 = said(p1, v1);
    let q2 = tolerance_breaches(row.id, all, false, all.len());
    let q3 = said(p3, v3);
    let q4 = said(p4, v4);
    let q5 = said(p5, v5);
    let q6 = ground_breaches(row, r, row.grounds.len());
    let q7 = status_breaches(row, r);
    let told = row_breaches(row, r);
    assert(told == q1 + q2 + q3 + q4 + q5 + q6 + q7);
    lemma_said(p1, v1);
    lemma_said(p3, v3);
    lemma_said(p4, v4);
    lemma_said(p5, v5);
    assert forall|x: Seq<char>|
        q1.contains(x) || q3.contains(x) || q4.contains(x) || q5.contains(x) || q7.contains(
            x,
        ) implies #[trigger] told.contains(x) by {
        lemma_in_sum(q1, q2, x);
        lemma_in_sum(q1 + q2, q3, x);
        lemma_in_sum(q1 + q2 + q3, q4, x);
        lemma_in_sum(q1 + q2 + q3 + q4, q5, x);
        lemma_in_sum(q1 + q2 + q3 + q4 + q5, q6, x);
        lemma_in_sum(q1 + q2 + q3 + q4 + q5 + q6, q7, x);
    }
    lemma_faults_of_a_status(row, r);
}

proof fn lemma_said(b: bool, v: Violation)
    ensures
        b ==> said(b, v).contains(v.message()),
{
    if b {
        assert(said(b, v)[0] == v.message());
    }
}

proof fn lemma_faults_of_a_status(row: RowView, r: ReportView)
    ensures
        ({
            let told = status_breaches(row, r);
            let fair = r.fitness.fair(row.sensitivity);
            &&& row.status is Measured && row.metrics().len() == 0 ==> told.contains(
                (Violation::MeasuredNothing { id: row.id }).message(),
            )
            &&& row.status is Measured && !fair ==> told.contains(
                (Violation::UnfairHost {
                    id: row.id,
                    sensitivity: row.sensitivity,
                    why: r.fitness.why(row.sensitivity),
                }).message(),
            )
            &&& row.status is Measured && row.core_budget_applies() && !r.fitness.enough_cores
                ==> told.contains(
                (Violation::ShortOfCores {
                    id: row.id,
                    consumers: r.fitness.consumers,
                    why: core_why(r.fitness),
                }).message(),
            )
            &&& row.status is Indicative && fair ==> told.contains(
                (Violation::IndicativeOnFairHost { id: row.id }).message(),
            )
            &&& row.status is Indicative && !r.fitness.forced ==> told.contains(
                (Violation::IndicativeUnforced { id: row.id }).message(),
            )
            &&& row.status is Indicative && blank(row.reason) ==> told.contains(
                (Violation::IndicativeUnexplained { id: row.id }).message(),
            )
            &&& row.status is Unavailable && blank(row.reason) ==> told.contains(
                (Violation::UnavailableUnexplained { id: row.id }).message(),
            )
            &&& row.status is Unavailable && row.metrics().len() > 0 ==> told.contains(
                (Violation::UnavailableWithNumbers { id: row.id }).message(),
            )
        }),
{
    let fair = r.fitness.fair(row.sensitivity);
    match row.status {
        Status::Measured => {
            let v1 = Violation::MeasuredNothing { id: row.id };
            let v2 = Violation::UnfairHost {
                id: row.id,
                sensitivity: row.sensitivity,
                why: r.fitness.why(row.sensitivity),
            };
            let v3 = Violation::ShortOfCores {
                id: row.id,
                consumers: r.fitness.consumers,
                why: core_why(r.fitness),
            };
            let short = row.core_budget_applies() && !r.fitness.enough_cores;
            lemma_three_said(row.metrics().len() == 0, v1, !fair, v2, short, v3);
        },
        Status::Indicative => {
            lemma_three_said(
                fair,
                Violation::IndicativeOnFairHost { id: row.id },
                !r.fitness.forced,
                Violation::IndicativeUnforced { id: row.id },
                blank(row.reason),
                Violation::IndicativeUnexplained { id: row.id },
            );
        },
        Status::Unavailable => {
            let v1 = Violation::UnavailableUnexplained { id: row.id };
            let v2 = Violation::UnavailableWithNumbers { id: row.id };
            let (a, b) = (said(blank(row.reason), v1), said(row.metrics().len() > 0, v2));
            lemma_said(blank(row.reason), v1);
            lemma_said(row.metrics().len() > 0, v2);
            lemma_in_sum(a, b, v1.message());
            lemma_in_sum(a, b, v2.message());
        },
    }
}

proof fn lemma_three_said(
    p1: bool,
    v1: Violation,
    p2: bool,
    v2: Violation,
    p3: bool,
    v3: Violation,
)
    ensures
        ({
            let told = said(p1, v1) + said(p2, v2) + said(p3, v3);
            &&& p1 ==> told.contains(v1.message())
            &&& p2 ==> told.contains(v2.message())
            &&& p3 ==> told.contains(v3.message())
        }),
{
    let (a, b, c) = (said(p1, v1), said(p2, v2), said(p3, v3));
    lemma_said(p1, v1);
    lemma_said(p2, v2);
    lemma_said(p3, v3);
    lemma_in_sum(a, b, v1.message());
    lemma_in_sum(a, b, v2.message());
    lemma_in_sum(a + b, c, v1.message());
    lemma_in_sum(a + b, c, v2.message());
    lemma_in_sum(a + b, c, v3.message());
}

proof fn lemma_rows_told(r: ReportView, n: nat, k: int, x: Seq<char>)
    requires
        0 <= k < n <= r.rows.len(),
        row_breaches(r.rows[k], r).contains(x),
    ensures
        rows_breaches(r, n).contains(x),
    decreases n,
{
    let a = rows_breaches(r, (n - 1) as nat);
    let b = row_breaches(r.rows[n - 1], r);
    if k < n - 1 {
        lemma_rows_told(r, (n - 1) as nat, k, x);
    }
    lemma_in_sum(a, b, x);
}

proof fn lemma_entries_told(r: ReportView, n: nat, k: int, x: Seq<char>)
    requires
        0 <= k < n <= r.worse.len(),
        worse_breaches(r.worse[k], r).contains(x),
    ensures
        all_worse_breaches(r, n).contains(x),
    decreases n,
{
    let a = all_worse_breaches(r, (n - 1) as nat);
    let b = worse_breaches(r.worse[n - 1], r);
    if k < n - 1 {
        lemma_entries_told(r, (n - 1) as nat, k, x);
    }
    lemma_in_sum(a, b, x);
}

/// Whatever is told of a row or of an entry is told of the report.
pub proof fn law_a_report_tells_all_of_it(r: ReportView, k: int, x: Seq<char>)
    ensures
        0 <= k < r.rows.len() && row_breaches(r.rows[k], r).contains(x) ==> breaches(r).contains(x),
        0 <= k < r.worse.len() && worse_breaches(r.worse[k], r).contains(x) ==> breaches(
            r,
        ).contains(x),
{
    let a = fact_breaches(r, 9);
    let b = warmup_breaches(r);
    let c = row_set_breaches(r, 10);
    let d = topic_breaches(r, 4);
    let e = rows_breaches(r, r.rows.len());
    let f = all_worse_breaches(r, r.worse.len());
    if 0 <= k < r.rows.len() && row_breaches(r.rows[k], r).contains(x) {
        lemma_rows_told(r, r.rows.len(), k, x);
        lemma_in_sum(a + b + c + d, e, x);
        lemma_in_sum(a + b + c + d + e, f, x);
    }
    if 0 <= k < r.worse.len() && worse_breaches(r.worse[k], r).contains(x) {
        lemma_entries_told(r, r.worse.len(), k, x);
        lemma_in_sum(a + b + c + d + e, f, x);
    }
}

/// Every fault of an entry is told, by the words for it.
pub proof fn law_each_fault_of_an_entry_is_told(w: WorseView, r: ReportView)
    ensures
        ({
            let told = worse_breaches(w, r);
            &&& blank(w.statement) ==> told.contains(
                (Violation::WorseStatesNothing { id: w.id }).message(),
            )
            &&& w.metrics.len() == 0 && (w.metrics_absent_because is None || blank(
                w.metrics_absent_because->0,
            )) ==> told.contains((Violation::WorseWithoutNumbers { id: w.id }).message())
            &&& w.metrics.len() > 0 && w.metrics_absent_because is Some ==> told.contains(
                (Violation::WorseBothWays { id: w.id, metrics: w.metrics.len() }).message(),
            )
            &&& r.fitness.fair_for_memory && w.metrics_withheld.len() == 0 && w.metrics.len() > 0
                && (forall|i: int|
                0 <= i < w.metrics.len() ==> (#[trigger] w.metrics[i]).drift is Informational)
                ==> told.contains((Violation::WorseNothingDirectional { id: w.id }).message())
        }),
{
    let p1 = blank(w.statement);
    let v1 = Violation::WorseStatesNothing { id: w.id };
    let p2 = w.metrics.len() == 0 && !absence_explained(w);
    let v2 = Violation::WorseWithoutNumbers { id: w.id };
    let p3 = w.metrics.len() > 0 && w.metrics_absent_because is Some;
    let v3 = Violation::WorseBothWays { id: w.id, metrics: w.metrics.len() };
    let p4 = r.fitness.fair_for_memory && w.metrics_withheld.len() == 0 && w.metrics.len() > 0
        && !some_directional(w.metrics);
    let v4 = Violation::WorseNothingDirectional { id: w.id };
    let (a, b, c, d) = (said(p1, v1), said(p2, v2), said(p3, v3), said(p4, v4));
    let e = tolerance_breaches(w.id, w.metrics, true, w.metrics.len());
    lemma_three_said(p1, v1, p2, v2, p3, v3);
    lemma_said(p4, v4);
    assert forall|x: Seq<char>|
        (a + b + c).contains(x) || d.contains(x) implies #[trigger] worse_breaches(w, r).contains(
        x,
    ) by {
        lemma_in_sum(a + b + c, d, x);
        lemma_in_sum(a + b + c + d, e, x);
    }
}

} // verus!
