//! What the facade costs an embedder: the crossing of the crate boundary, read off
//! one build with two identical bodies, and the embedder's own build profile, read
//! off two builds of one body.

use vstd::arithmetic::power2::{lemma_pow2_pos, pow2};
use vstd::prelude::*;

use crate::number::{
    self, at_most, finite, less, number, scaled, truncated, Number, NumberView, INFINITY,
};
use crate::report::{metric, metric_views, Drift, Metric, MetricView};
use crate::text::{
    self, begins, decimal, digits, holds, lemma_end_of_a_beginning, lemma_texts_push, lines, texts,
    trimmed,
};

verus! {

/// Identifier of the `embed-cost.json` schema. Bump it on any change that a consumer
/// can see.
pub const SCHEMA: &'static str = "tf_tree.embed-cost/2";

/// The profile directory of an embedder run.
pub const EMBEDDER_PROFILE: &'static str = "embedder";

/// The profile directory of the reference run.
pub const REFERENCE_PROFILE: &'static str = "release";

/// The limit on the excess of the ratio: 0.05, as a bit pattern.
pub const GATE: u64 = 0x3fa9_9999_9999_999a;

/// One plus that limit: 1.05, as a bit pattern.
pub const THRESHOLD: u64 = 0x3ff0_cccc_cccc_cccd;

/// Rounds timed per run. Each round times both columns, in that order.
pub const ROUNDS: usize = 9;

/// Sweeps over the stamps, per column, per round.
pub const SWEEPS: usize = 400;

/// Distinct query stamps.
pub const STAMPS: usize = 1024;

/// Lookups per column before timing starts.
pub const WARMUP: usize = 200_000;

/// What the limit says about a measured ratio.
#[derive(Debug, Clone, Copy, PartialEq, Eq, Structural)]
pub enum Verdict {
    /// The whole observed band is inside the limit.
    Within,
    /// The whole observed band is outside it.
    Over,
    /// The band straddles the threshold.
    Unresolved,
}

impl Verdict {
    pub open spec fn name(self) -> Seq<char> {
        match self {
            Verdict::Within => "within"@,
            Verdict::Over => "over"@,
            Verdict::Unresolved => "unresolved"@,
        }
    }

    /// The spelling in the artifact.
    #[must_use]
    pub fn as_str(self) -> (r: &'static str)
        ensures
            r@ == self.name(),
    {
        match self {
            Verdict::Within => "within",
            Verdict::Over => "over",
            Verdict::Unresolved => "unresolved",
        }
    }
}

/// One timed run: both columns, under one profile, from one binary.
#[derive(Debug, Clone)]
pub struct Run {
    /// Profile directory that the binary was compiled into.
    pub profile_dir: String,
    /// Digest of the source that the binary was compiled from.
    pub source_id: String,
    /// Fastest round of the out-of-crate probe, ns per lookup.
    pub out_of_crate_ns: Number,
    /// Fastest round of the in-crate probe, ns per lookup.
    pub in_crate_ns: Number,
    /// Median per-round quotient of the two.
    pub boundary_ratio: Number,
    /// Smallest per-round quotient.
    pub ratio_lo: Number,
    /// Largest per-round quotient.
    pub ratio_hi: Number,
    /// Relative spread of the out-of-crate rounds.
    pub out_of_crate_spread: Number,
    /// Relative spread of the in-crate rounds.
    pub in_crate_spread: Number,
    /// Rounds timed.
    pub rounds: usize,
    /// Lookups per column per round.
    pub lookups_per_round: u64,
}

pub struct RunView {
    pub profile_dir: Seq<char>,
    pub source_id: Seq<char>,
    pub out_of_crate_ns: NumberView,
    pub in_crate_ns: NumberView,
    pub boundary_ratio: NumberView,
    pub ratio_lo: NumberView,
    pub ratio_hi: NumberView,
    pub out_of_crate_spread: NumberView,
    pub in_crate_spread: NumberView,
    pub rounds: usize,
    pub lookups_per_round: u64,
}

impl View for Run {
    type V = RunView;

    open spec fn view(&self) -> RunView {
        RunView {
            profile_dir: self.profile_dir@,
            source_id: self.source_id@,
            out_of_crate_ns: self.out_of_crate_ns@,
            in_crate_ns: self.in_crate_ns@,
            boundary_ratio: self.boundary_ratio@,
            ratio_lo: self.ratio_lo@,
            ratio_hi: self.ratio_hi@,
            out_of_crate_spread: self.out_of_crate_spread@,
            in_crate_spread: self.in_crate_spread@,
            rounds: self.rounds,
            lookups_per_round: self.lookups_per_round,
        }
    }
}

/// The verdict on an observed band.
pub open spec fn verdict_of(lo: u64, hi: u64) -> Verdict {
    if at_most(hi, THRESHOLD) {
        Verdict::Within
    } else if less(THRESHOLD, lo) {
        Verdict::Over
    } else {
        Verdict::Unresolved
    }
}

/// A band that holds the threshold, and something past it, gets no verdict; a band on
/// one side of it gets that side's.
pub proof fn law_verdict_reads_the_whole_band(lo: u64, hi: u64, x: u64)
    requires
        finite(lo),
        finite(hi),
        finite(x),
        at_most(lo, x),
        at_most(x, hi),
    ensures
        verdict_of(lo, hi) == Verdict::Within ==> at_most(x, THRESHOLD),
        verdict_of(lo, hi) == Verdict::Over ==> less(THRESHOLD, x),
        at_most(lo, THRESHOLD) && less(THRESHOLD, hi) <==> verdict_of(lo, hi)
            == Verdict::Unresolved,
{
}

/// The limit on its own, as a tolerance.
pub open spec fn gate() -> NumberView {
    number(GATE, "0.05"@, "0"@, "0.1"@, "0.050"@, "0.05000"@, "5.0000e-2"@)
}

/// One plus the limit.
pub open spec fn threshold() -> NumberView {
    number(THRESHOLD, "1.05"@, "1"@, "1.1"@, "1.050"@, "1.05000"@, "1.0500e0"@)
}

pub open spec fn gated(key: Seq<char>, value: NumberView, unit: Seq<char>) -> MetricView {
    metric(key, value, unit).toward(Drift::LowerIsBetter, gate())
}

/// The metrics of the row, in report order. `lookups` is `lookups_per_round` as a
/// double.
pub open spec fn run_metrics(r: RunView, lookups: NumberView) -> Seq<MetricView> {
    seq![
        gated("boundary_ratio"@, r.boundary_ratio, "x"@),
        gated("out_of_crate_ns"@, r.out_of_crate_ns, "ns"@),
        gated("in_crate_ns"@, r.in_crate_ns, "ns"@),
        metric("gate_ratio"@, threshold(), "x"@),
        metric("ratio_lo"@, r.ratio_lo, "x"@),
        metric("ratio_hi"@, r.ratio_hi, "x"@),
        metric("out_of_crate_spread"@, r.out_of_crate_spread, "fraction"@),
        metric("in_crate_spread"@, r.in_crate_spread, "fraction"@),
        metric("lookups_per_round"@, lookups, "lookups"@),
    ]
}

/// The verdict as prose. `excess` is by how many percent the ratio is past one.
pub open spec fn verdict_text(r: RunView, excess: Seq<char>) -> Seq<char> {
    let (m, lo, hi) = (
        r.boundary_ratio.thousandths,
        r.ratio_lo.thousandths,
        r.ratio_hi.thousandths,
    );
    match verdict_of(r.ratio_lo.bits, r.ratio_hi.bits) {
        Verdict::Within => m + "x (rounds spanned "@ + lo + "-"@ + hi
            + "), within PHASE5 §9.2's 5% gate"@,
        Verdict::Over => m + "x (rounds spanned "@ + lo + "-"@ + hi
            + "), OVER PHASE5 §9.2's 5% gate: a depth-3 lookup called from outside `tf_tree_core` costs "@
            + excess
            + "% more than the identical body called from inside it. The control run printed beside this one — the same two bodies under `lto = \"thin\"` — measures the boundary gone, so what is measured to close it is the embedder's own profile (`docs/API.md` §2.3 item 2). This run measures nothing about whether a different `#[inline]` placement would, and does not claim it either way"@,
        Verdict::Unresolved => m + "x, but the rounds spanned "@ + lo + "-"@ + hi
            + ", which straddles PHASE5 §9.2's 5% threshold — this run cannot answer. A verdict here would be arithmetic on noise. Pin the run (`taskset`), quieten the host, or raise ROUNDS until the band clears the threshold"@,
    }
}

/// The `embed-cost.json` document of a run.
pub open spec fn run_json(r: RunView) -> Seq<char> {
    "{\n  \"schema\": \""@ + SCHEMA@ + "\",\n  \"profile_dir\": \""@ + r.profile_dir
        + "\",\n  \"source_id\": \""@ + r.source_id + "\",\n  \"out_of_crate_ns\": "@
        + r.out_of_crate_ns.thousandths + ",\n  \"in_crate_ns\": "@ + r.in_crate_ns.thousandths
        + ",\n  \"boundary_ratio\": "@ + r.boundary_ratio.long + ",\n  \"ratio_lo\": "@
        + r.ratio_lo.long + ",\n  \"ratio_hi\": "@ + r.ratio_hi.long
        + ",\n  \"out_of_crate_spread\": "@ + r.out_of_crate_spread.long
        + ",\n  \"in_crate_spread\": "@ + r.in_crate_spread.long + ",\n  \"rounds\": "@ + digits(
        r.rounds as nat,
    ) + ",\n  \"lookups_per_round\": "@ + digits(r.lookups_per_round as nat) + "\n}\n"@
}

fn gate_number() -> (r: Number)
    ensures
        r@ == gate(),
{
    Number::new(GATE, "0.05", "0", "0.1", "0.050", "0.05000", "5.0000e-2")
}

impl Run {
    /// The verdict on the observed band.
    #[must_use]
    pub fn verdict(&self) -> (r: Verdict)
        ensures
            r == verdict_of(self.ratio_lo.bits, self.ratio_hi.bits),
    {
        if number::le(self.ratio_hi.bits, THRESHOLD) {
            Verdict::Within
        } else if number::lt(THRESHOLD, self.ratio_lo.bits) {
            Verdict::Over
        } else {
            Verdict::Unresolved
        }
    }

    /// The verdict as a line of prose, which states the measured value either way.
    /// `excess_percent` is `(boundary_ratio - 1) * 100`, rounded to a whole number.
    #[must_use]
    pub fn verdict_line(&self, excess_percent: &str) -> (r: String)
        ensures
            r@ == verdict_text(self@, excess_percent@),
    {
        let mut s = self.boundary_ratio.thousandths.clone();
        match self.verdict() {
            Verdict::Within => {
                s.append("x (rounds spanned ");
                s.append(self.ratio_lo.thousandths.as_str());
                s.append("-");
                s.append(self.ratio_hi.thousandths.as_str());
                s.append("), within PHASE5 §9.2's 5% gate");
            },
            Verdict::Over => {
                s.append("x (rounds spanned ");
                s.append(self.ratio_lo.thousandths.as_str());
                s.append("-");
                s.append(self.ratio_hi.thousandths.as_str());
                s.append(
                    "), OVER PHASE5 §9.2's 5% gate: a depth-3 lookup called from outside `tf_tree_core` costs ",
                );
                s.append(excess_percent);
                s.append(
                    "% more than the identical body called from inside it. The control run printed beside this one — the same two bodies under `lto = \"thin\"` — measures the boundary gone, so what is measured to close it is the embedder's own profile (`docs/API.md` §2.3 item 2). This run measures nothing about whether a different `#[inline]` placement would, and does not claim it either way",
                );
            },
            Verdict::Unresolved => {
                s.append("x, but the rounds spanned ");
                s.append(self.ratio_lo.thousandths.as_str());
                s.append("-");
                s.append(self.ratio_hi.thousandths.as_str());
                s.append(
                    ", which straddles PHASE5 §9.2's 5% threshold — this run cannot answer. A verdict here would be arithmetic on noise. Pin the run (`taskset`), quieten the host, or raise ROUNDS until the band clears the threshold",
                );
            },
        }
        s
    }

    /// The row's metrics, in report order. All three durations are gated, not the
    /// ratio alone. `lookups` is `lookups_per_round` as a double.
    #[must_use]
    pub fn metrics(&self, lookups: Number) -> (r: Vec<Metric>)
        ensures
            metric_views(r@) == run_metrics(self@, lookups@),
    {
        let ghost given = lookups@;
        let mut v: Vec<Metric> = Vec::new();
        v.push(
            Metric::new("boundary_ratio", self.boundary_ratio.clone(), "x").lower_is_better(
                gate_number(),
            ),
        );
        v.push(
            Metric::new("out_of_crate_ns", self.out_of_crate_ns.clone(), "ns").lower_is_better(
                gate_number(),
            ),
        );
        v.push(
            Metric::new("in_crate_ns", self.in_crate_ns.clone(), "ns").lower_is_better(
                gate_number(),
            ),
        );
        v.push(
            Metric::new(
                "gate_ratio",
                Number::new(THRESHOLD, "1.05", "1", "1.1", "1.050", "1.05000", "1.0500e0"),
                "x",
            ),
        );
        v.push(Metric::new("ratio_lo", self.ratio_lo.clone(), "x"));
        v.push(Metric::new("ratio_hi", self.ratio_hi.clone(), "x"));
        v.push(Metric::new("out_of_crate_spread", self.out_of_crate_spread.clone(), "fraction"));
        v.push(Metric::new("in_crate_spread", self.in_crate_spread.clone(), "fraction"));
        v.push(Metric::new("lookups_per_round", lookups, "lookups"));
        assert(metric_views(v@) =~= run_metrics(self@, given));
        v
    }

    /// The `embed-cost.json` document.
    #[must_use]
    pub fn to_json(&self) -> (r: String)
        ensures
            r@ == run_json(self@),
    {
        let mut s = "{\n  \"schema\": \"".to_owned();
        s.append(SCHEMA);
        s.append("\",\n  \"profile_dir\": \"");
        s.append(self.profile_dir.as_str());
        s.append("\",\n  \"source_id\": \"");
        s.append(self.source_id.as_str());
        s.append("\",\n  \"out_of_crate_ns\": ");
        s.append(self.out_of_crate_ns.thousandths.as_str());
        s.append(",\n  \"in_crate_ns\": ");
        s.append(self.in_crate_ns.thousandths.as_str());
        s.append(",\n  \"boundary_ratio\": ");
        s.append(self.boundary_ratio.long.as_str());
        s.append(",\n  \"ratio_lo\": ");
        s.append(self.ratio_lo.long.as_str());
        s.append(",\n  \"ratio_hi\": ");
        s.append(self.ratio_hi.long.as_str());
        s.append(",\n  \"out_of_crate_spread\": ");
        s.append(self.out_of_crate_spread.long.as_str());
        s.append(",\n  \"in_crate_spread\": ");
        s.append(self.in_crate_spread.long.as_str());
        s.append(",\n  \"rounds\": ");
        s.append(decimal(self.rounds as u64).as_str());
        s.append(",\n  \"lookups_per_round\": ");
        s.append(decimal(self.lookups_per_round).as_str());
        s.append("\n}\n");
        s
    }
}

// ---------------------------------------------------------------------------
// Reading a run
// ---------------------------------------------------------------------------

/// Why a document is not a run.
#[derive(Debug)]
pub enum RunError {
    /// It is not JSON.
    NotJson,
    /// It has no `schema`.
    NoSchema,
    /// It has another schema.
    ForeignSchema(String),
    /// A text member is missing.
    NoField(String),
    /// A numeric member is missing.
    NoNumber(String),
    /// A duration or a ratio is not positive.
    NotPositive(String, String),
}

pub enum RunErrorView {
    NotJson,
    NoSchema,
    ForeignSchema(Seq<char>),
    NoField(Seq<char>),
    NoNumber(Seq<char>),
    NotPositive(Seq<char>, Seq<char>),
}

impl View for RunError {
    type V = RunErrorView;

    open spec fn view(&self) -> RunErrorView {
        match self {
            RunError::NotJson => RunErrorView::NotJson,
            RunError::NoSchema => RunErrorView::NoSchema,
            RunError::ForeignSchema(s) => RunErrorView::ForeignSchema(s@),
            RunError::NoField(k) => RunErrorView::NoField(k@),
            RunError::NoNumber(k) => RunErrorView::NoNumber(k@),
            RunError::NotPositive(k, v) => RunErrorView::NotPositive(k@, v@),
        }
    }
}

impl RunErrorView {
    pub open spec fn message(self) -> Seq<char> {
        match self {
            RunErrorView::NotJson => "parsing embed-cost json"@,
            RunErrorView::NoSchema => "no `schema` field"@,
            RunErrorView::ForeignSchema(s) => "embed-cost schema is `"@ + s
                + "`, this build reads `"@ + SCHEMA@ + "`"@,
            RunErrorView::NoField(k) => "no `"@ + k + "` field"@,
            RunErrorView::NoNumber(k) => "no numeric `"@ + k + "` field"@,
            RunErrorView::NotPositive(k, v) => k + " is "@ + v
                + ", which is not a duration or a ratio"@,
        }
    }
}

impl RunError {
    /// What is said of the document.
    #[must_use]
    pub fn message(&self) -> (r: String)
        ensures
            r@ == self@.message(),
    {
        match self {
            RunError::NotJson => "parsing embed-cost json".to_owned(),
            RunError::NoSchema => "no `schema` field".to_owned(),
            RunError::ForeignSchema(s) => {
                let mut m = "embed-cost schema is `".to_owned();
                m.append(s.as_str());
                m.append("`, this build reads `");
                m.append(SCHEMA);
                m.append("`");
                m
            },
            RunError::NoField(k) => {
                let mut m = "no `".to_owned();
                m.append(k.as_str());
                m.append("` field");
                m
            },
            RunError::NoNumber(k) => {
                let mut m = "no numeric `".to_owned();
                m.append(k.as_str());
                m.append("` field");
                m
            },
            RunError::NotPositive(k, v) => {
                let mut m = k.clone();
                m.append(" is ");
                m.append(v.as_str());
                m.append(", which is not a duration or a ratio");
                m
            },
        }
    }
}

/// The members of a document that make a run, as far as they are there.
pub struct Fields {
    pub schema: Option<String>,
    pub profile_dir: Option<String>,
    pub source_id: Option<String>,
    pub out_of_crate_ns: Option<Number>,
    pub in_crate_ns: Option<Number>,
    pub boundary_ratio: Option<Number>,
    pub ratio_lo: Option<Number>,
    pub ratio_hi: Option<Number>,
    pub out_of_crate_spread: Option<Number>,
    pub in_crate_spread: Option<Number>,
    pub rounds: Option<Number>,
    pub lookups_per_round: Option<Number>,
}

pub struct FieldsView {
    pub schema: Option<Seq<char>>,
    pub profile_dir: Option<Seq<char>>,
    pub source_id: Option<Seq<char>>,
    pub out_of_crate_ns: Option<NumberView>,
    pub in_crate_ns: Option<NumberView>,
    pub boundary_ratio: Option<NumberView>,
    pub ratio_lo: Option<NumberView>,
    pub ratio_hi: Option<NumberView>,
    pub out_of_crate_spread: Option<NumberView>,
    pub in_crate_spread: Option<NumberView>,
    pub rounds: Option<NumberView>,
    pub lookups_per_round: Option<NumberView>,
}

pub open spec fn maybe_text(s: Option<String>) -> Option<Seq<char>> {
    match s {
        Some(t) => Some(t@),
        None => None,
    }
}

pub open spec fn maybe_number(n: Option<Number>) -> Option<NumberView> {
    match n {
        Some(x) => Some(x@),
        None => None,
    }
}

impl View for Fields {
    type V = FieldsView;

    open spec fn view(&self) -> FieldsView {
        FieldsView {
            schema: maybe_text(self.schema),
            profile_dir: maybe_text(self.profile_dir),
            source_id: maybe_text(self.source_id),
            out_of_crate_ns: maybe_number(self.out_of_crate_ns),
            in_crate_ns: maybe_number(self.in_crate_ns),
            boundary_ratio: maybe_number(self.boundary_ratio),
            ratio_lo: maybe_number(self.ratio_lo),
            ratio_hi: maybe_number(self.ratio_hi),
            out_of_crate_spread: maybe_number(self.out_of_crate_spread),
            in_crate_spread: maybe_number(self.in_crate_spread),
            rounds: maybe_number(self.rounds),
            lookups_per_round: maybe_number(self.lookups_per_round),
        }
    }
}

/// Why a text member is refused.
pub open spec fn field_fault(v: Option<Seq<char>>, key: Seq<char>) -> Option<RunErrorView> {
    match v {
        Some(_) => None,
        None => Some(RunErrorView::NoField(key)),
    }
}

/// Why a numeric member is refused.
pub open spec fn number_fault(v: Option<NumberView>, key: Seq<char>) -> Option<RunErrorView> {
    match v {
        Some(_) => None,
        None => Some(RunErrorView::NoNumber(key)),
    }
}

/// Why a duration or a ratio is refused.
pub open spec fn positive_fault(v: Option<NumberView>, key: Seq<char>) -> Option<RunErrorView> {
    match v {
        Some(x) => if finite(x.bits) && less(0, x.bits) {
            None
        } else {
            Some(RunErrorView::NotPositive(key, x.plain))
        },
        None => Some(RunErrorView::NoNumber(key)),
    }
}

pub open spec fn schema_fault(v: Option<Seq<char>>) -> Option<RunErrorView> {
    match v {
        Some(s) => if s == SCHEMA@ {
            None
        } else {
            Some(RunErrorView::ForeignSchema(s))
        },
        None => Some(RunErrorView::NoSchema),
    }
}

pub open spec fn or(
    a: Option<RunErrorView>,
    b: Option<RunErrorView>,
) -> Option<RunErrorView> {
    match a {
        Some(_) => a,
        None => b,
    }
}

/// The first fault of a document.
pub open spec fn fault(f: FieldsView) -> Option<RunErrorView> {
    or(
        schema_fault(f.schema),
        or(
            field_fault(f.profile_dir, "profile_dir"@),
            or(
                field_fault(f.source_id, "source_id"@),
                or(
                    positive_fault(f.out_of_crate_ns, "out_of_crate_ns"@),
                    or(
                        positive_fault(f.in_crate_ns, "in_crate_ns"@),
                        or(
                            positive_fault(f.boundary_ratio, "boundary_ratio"@),
                            or(
                                positive_fault(f.ratio_lo, "ratio_lo"@),
                                or(
                                    positive_fault(f.ratio_hi, "ratio_hi"@),
                                    or(
                                        number_fault(f.out_of_crate_spread, "out_of_crate_spread"@),
                                        or(
                                            number_fault(f.in_crate_spread, "in_crate_spread"@),
                                            or(
                                                number_fault(f.rounds, "rounds"@),
                                                number_fault(
                                                    f.lookups_per_round,
                                                    "lookups_per_round"@,
                                                ),
                                            ),
                                        ),
                                    ),
                                ),
                            ),
                        ),
                    ),
                ),
            ),
        ),
    )
}

/// A double cut to a `usize`.
pub open spec fn count(bits: u64) -> usize {
    if truncated(bits) > usize::MAX {
        usize::MAX
    } else {
        truncated(bits) as usize
    }
}

/// The run that a document without a fault holds.
pub open spec fn run_of(f: FieldsView) -> RunView {
    RunView {
        profile_dir: f.profile_dir->0,
        source_id: f.source_id->0,
        out_of_crate_ns: f.out_of_crate_ns->0,
        in_crate_ns: f.in_crate_ns->0,
        boundary_ratio: f.boundary_ratio->0,
        ratio_lo: f.ratio_lo->0,
        ratio_hi: f.ratio_hi->0,
        out_of_crate_spread: f.out_of_crate_spread->0,
        in_crate_spread: f.in_crate_spread->0,
        rounds: count(f.rounds->0.bits),
        lookups_per_round: truncated(f.lookups_per_round->0.bits),
    }
}

/// Whether a result is the run of a document, or its first fault.
pub open spec fn read_as(r: Result<Run, RunError>, f: FieldsView) -> bool {
    match r {
        Ok(run) => fault(f) is None && run@ == run_of(f),
        Err(e) => fault(f) == Some(e@),
    }
}

fn take_field(v: Option<String>, key: &str) -> (r: Result<String, RunError>)
    ensures
        match r {
            Ok(s) => maybe_text(v) == Some(s@),
            Err(e) => field_fault(maybe_text(v), key@) == Some(e@),
        },
{
    match v {
        Some(s) => Ok(s),
        None => Err(RunError::NoField(key.to_owned())),
    }
}

fn take_number(v: Option<Number>, key: &str) -> (r: Result<Number, RunError>)
    ensures
        match r {
            Ok(x) => maybe_number(v) == Some(x@),
            Err(e) => number_fault(maybe_number(v), key@) == Some(e@),
        },
{
    match v {
        Some(x) => Ok(x),
        None => Err(RunError::NoNumber(key.to_owned())),
    }
}

fn take_positive(v: Option<Number>, key: &str) -> (r: Result<Number, RunError>)
    ensures
        match r {
            Ok(x) => maybe_number(v) == Some(x@) && positive_fault(maybe_number(v), key@) is None,
            Err(e) => positive_fault(maybe_number(v), key@) == Some(e@),
        },
{
    match v {
        Some(x) => if number::is_finite(x.bits) && number::lt(0, x.bits) {
            Ok(x)
        } else {
            Err(RunError::NotPositive(key.to_owned(), x.plain))
        },
        None => Err(RunError::NoNumber(key.to_owned())),
    }
}

/// The members of a JSON object that are strings.
pub uninterp spec fn text_members(v: serde_json::Value) -> Map<Seq<char>, Seq<char>>;

/// The members of a JSON object that are numbers, as doubles.
pub uninterp spec fn number_members(v: serde_json::Value) -> Map<Seq<char>, NumberView>;

/// The string members and the number members of the object that a text holds as JSON,
/// or nothing where it is not JSON.
pub uninterp spec fn json_document(text: Seq<char>) -> Option<
    (Map<Seq<char>, Seq<char>>, Map<Seq<char>, NumberView>),
>;

#[verifier::external_type_specification]
#[verifier::external_body]
pub struct ExValue(serde_json::Value);

#[verifier::external_type_specification]
#[verifier::external_body]
pub struct ExJsonError(serde_json::Error);

/// `serde_json::from_str` into a `Value`: whether the text is JSON, and what members
/// its object has, depends on the text alone.
#[verifier::external_body]
fn parse_json(text: &str) -> (r: Result<serde_json::Value, serde_json::Error>)
    ensures
        match r {
            Ok(v) => json_document(text@) == Some((text_members(v), number_members(v))),
            Err(_) => json_document(text@) is None,
        },
{
    serde_json::from_str(text)
}

/// `serde_json::Value::get`, then `as_str`: the string member of that name, nothing
/// where there is none.
#[verifier::external_body]
fn text_member(v: &serde_json::Value, key: &str) -> (r: Option<String>)
    ensures
        maybe_text(r) == member(text_members(*v), key@),
{
    v.get(key).and_then(|x| x.as_str()).map(|s| s.to_owned())
}

/// `serde_json::Value::get`, then `as_f64`: the number member of that name with the
/// texts that it prints as, nothing where there is none.
#[verifier::external_body]
fn number_member(v: &serde_json::Value, key: &str) -> (r: Option<Number>)
    ensures
        maybe_number(r) == member(number_members(*v), key@),
{
    v.get(key).and_then(|x| x.as_f64()).map(|x| Number {
        bits: x.to_bits(),
        plain: format!("{x}"),
        whole: format!("{x:.0}"),
        tenths: format!("{x:.1}"),
        thousandths: format!("{x:.3}"),
        long: format!("{x:.5}"),
        scientific: format!("{x:.4e}"),
    })
}

/// The value under a key.
pub open spec fn member<V>(m: Map<Seq<char>, V>, key: Seq<char>) -> Option<V> {
    if m.dom().contains(key) {
        Some(m[key])
    } else {
        None
    }
}

/// The members of a document that make a run.
pub open spec fn fields_of(
    t: Map<Seq<char>, Seq<char>>,
    n: Map<Seq<char>, NumberView>,
) -> FieldsView {
    FieldsView {
        schema: member(t, "schema"@),
        profile_dir: member(t, "profile_dir"@),
        source_id: member(t, "source_id"@),
        out_of_crate_ns: member(n, "out_of_crate_ns"@),
        in_crate_ns: member(n, "in_crate_ns"@),
        boundary_ratio: member(n, "boundary_ratio"@),
        ratio_lo: member(n, "ratio_lo"@),
        ratio_hi: member(n, "ratio_hi"@),
        out_of_crate_spread: member(n, "out_of_crate_spread"@),
        in_crate_spread: member(n, "in_crate_spread"@),
        rounds: member(n, "rounds"@),
        lookups_per_round: member(n, "lookups_per_round"@),
    }
}

impl Run {
    /// The run that some members make.
    ///
    /// # Errors
    ///
    /// The first fault: a foreign schema, a missing member, or a duration or ratio
    /// that is not positive and finite (a zero would divide into an infinite ratio).
    pub fn from_fields(f: Fields) -> (r: Result<Run, RunError>)
        ensures
            read_as(r, f@),
    {
        match f.schema {
            None => return Err(RunError::NoSchema),
            Some(s) => if !text::same(s.as_str(), SCHEMA) {
                return Err(RunError::ForeignSchema(s));
            },
        }
        let profile_dir = match take_field(f.profile_dir, "profile_dir") {
            Ok(x) => x,
            Err(e) => return Err(e),
        };
        let source_id = match take_field(f.source_id, "source_id") {
            Ok(x) => x,
            Err(e) => return Err(e),
        };
        let out_of_crate_ns = match take_positive(f.out_of_crate_ns, "out_of_crate_ns") {
            Ok(x) => x,
            Err(e) => return Err(e),
        };
        let in_crate_ns = match take_positive(f.in_crate_ns, "in_crate_ns") {
            Ok(x) => x,
            Err(e) => return Err(e),
        };
        let boundary_ratio = match take_positive(f.boundary_ratio, "boundary_ratio") {
            Ok(x) => x,
            Err(e) => return Err(e),
        };
        let ratio_lo = match take_positive(f.ratio_lo, "ratio_lo") {
            Ok(x) => x,
            Err(e) => return Err(e),
        };
        let ratio_hi = match take_positive(f.ratio_hi, "ratio_hi") {
            Ok(x) => x,
            Err(e) => return Err(e),
        };
        let out_of_crate_spread = match take_number(f.out_of_crate_spread, "out_of_crate_spread") {
            Ok(x) => x,
            Err(e) => return Err(e),
        };
        let in_crate_spread = match take_number(f.in_crate_spread, "in_crate_spread") {
            Ok(x) => x,
            Err(e) => return Err(e),
        };
        let rounds = match take_number(f.rounds, "rounds") {
            Ok(x) => x,
            Err(e) => return Err(e),
        };
        let lookups_per_round = match take_number(f.lookups_per_round, "lookups_per_round") {
            Ok(x) => x,
            Err(e) => return Err(e),
        };
        let n: u64 = number::truncate(rounds.bits);
        let rounds: usize = if n > usize::MAX as u64 {
            usize::MAX
        } else {
            n as usize
        };
        Ok(
            Run {
                profile_dir,
                source_id,
                out_of_crate_ns,
                in_crate_ns,
                boundary_ratio,
                ratio_lo,
                ratio_hi,
                out_of_crate_spread,
                in_crate_spread,
                rounds,
                lookups_per_round: number::truncate(lookups_per_round.bits),
            },
        )
    }

    /// Reads one `embed-cost.json`.
    ///
    /// # Errors
    ///
    /// The text is not JSON, or as [`Run::from_fields`].
    pub fn from_json(text: &str) -> (r: Result<Run, RunError>)
        ensures
            match json_document(text@) {
                None => r matches Err(RunError::NotJson),
                Some((t, n)) => read_as(r, fields_of(t, n)),
            },
    {
        let v = match parse_json(text) {
            Ok(v) => v,
            Err(_) => return Err(RunError::NotJson),
        };
        let f = Fields {
            schema: text_member(&v, "schema"),
            profile_dir: text_member(&v, "profile_dir"),
            source_id: text_member(&v, "source_id"),
            out_of_crate_ns: number_member(&v, "out_of_crate_ns"),
            in_crate_ns: number_member(&v, "in_crate_ns"),
            boundary_ratio: number_member(&v, "boundary_ratio"),
            ratio_lo: number_member(&v, "ratio_lo"),
            ratio_hi: number_member(&v, "ratio_hi"),
            out_of_crate_spread: number_member(&v, "out_of_crate_spread"),
            in_crate_spread: number_member(&v, "in_crate_spread"),
            rounds: number_member(&v, "rounds"),
            lookups_per_round: number_member(&v, "lookups_per_round"),
        };
        Run::from_fields(f)
    }
}

/// Every run that was read has positive durations and ratios.
pub proof fn law_read_run_is_positive(f: FieldsView)
    requires
        fault(f) is None,
    ensures
        less(0, run_of(f).out_of_crate_ns.bits),
        less(0, run_of(f).in_crate_ns.bits),
        less(0, run_of(f).boundary_ratio.bits),
        less(0, run_of(f).ratio_lo.bits),
        less(0, run_of(f).ratio_hi.bits),
        finite(run_of(f).in_crate_ns.bits),
        f.schema == Some(SCHEMA@),
{
}

pub open spec fn positive(v: Option<NumberView>) -> bool {
    v matches Some(x) && finite(x.bits) && less(0, x.bits)
}

/// A document is a run exactly where its schema is this one, no member is missing, and its
/// durations and ratios are positive and finite.
pub proof fn law_what_makes_a_run(f: FieldsView)
    ensures
        fault(f) is None <==> {
            &&& f.schema == Some(SCHEMA@)
            &&& f.profile_dir is Some
            &&& f.source_id is Some
            &&& positive(f.out_of_crate_ns)
            &&& positive(f.in_crate_ns)
            &&& positive(f.boundary_ratio)
            &&& positive(f.ratio_lo)
            &&& positive(f.ratio_hi)
            &&& f.out_of_crate_spread is Some
            &&& f.in_crate_spread is Some
            &&& f.rounds is Some
            &&& f.lookups_per_round is Some
        },
{
}

/// Whether a double is a whole number.
pub open spec fn is_whole(x: NumberView, n: nat) -> bool {
    x.bits < INFINITY && scaled(x.bits) == n * pow2(1074)
}

proof fn lemma_whole(x: NumberView, n: nat)
    requires
        is_whole(x, n),
        n <= u64::MAX,
    ensures
        truncated(x.bits) == n,
{
    let p = pow2(1074) as int;
    lemma_pow2_pos(1074);
    assert((n * p) / p == n) by (nonlinear_arith)
        requires
            p > 0,
    ;
}

/// Whether the members of a document are those of a run: its texts, its numbers, and two
/// whole numbers.
pub open spec fn holds_run(
    t: Map<Seq<char>, Seq<char>>,
    n: Map<Seq<char>, NumberView>,
    r: RunView,
) -> bool {
    &&& member(t, "schema"@) == Some(SCHEMA@)
    &&& member(t, "profile_dir"@) == Some(r.profile_dir)
    &&& member(t, "source_id"@) == Some(r.source_id)
    &&& member(n, "out_of_crate_ns"@) == Some(r.out_of_crate_ns)
    &&& member(n, "in_crate_ns"@) == Some(r.in_crate_ns)
    &&& member(n, "boundary_ratio"@) == Some(r.boundary_ratio)
    &&& member(n, "ratio_lo"@) == Some(r.ratio_lo)
    &&& member(n, "ratio_hi"@) == Some(r.ratio_hi)
    &&& member(n, "out_of_crate_spread"@) == Some(r.out_of_crate_spread)
    &&& member(n, "in_crate_spread"@) == Some(r.in_crate_spread)
    &&& member(n, "rounds"@) matches Some(x) && is_whole(x, r.rounds as nat)
    &&& member(n, "lookups_per_round"@) matches Some(x) && is_whole(x, r.lookups_per_round as nat)
}

/// A document that holds the members of a run is read as that run, and as nothing else.
pub proof fn law_a_run_reads_back(
    t: Map<Seq<char>, Seq<char>>,
    n: Map<Seq<char>, NumberView>,
    r: RunView,
)
    requires
        holds_run(t, n, r),
        positive(Some(r.out_of_crate_ns)),
        positive(Some(r.in_crate_ns)),
        positive(Some(r.boundary_ratio)),
        positive(Some(r.ratio_lo)),
        positive(Some(r.ratio_hi)),
    ensures
        fault(fields_of(t, n)) is None,
        run_of(fields_of(t, n)) == r,
        forall|read: Result<Run, RunError>| #[trigger]
            read_as(read, fields_of(t, n)) ==> read is Ok && read->Ok_0@ == r,
{
    lemma_whole(member(n, "rounds"@)->0, r.rounds as nat);
    lemma_whole(member(n, "lookups_per_round"@)->0, r.lookups_per_round as nat);
}

/// Whether each member of a document is what [`run_json`] writes for it: the same text, a
/// number that prints as the digits that were written, or a whole number.
pub open spec fn as_written(
    t: Map<Seq<char>, Seq<char>>,
    n: Map<Seq<char>, NumberView>,
    r: RunView,
) -> bool {
    &&& member(t, "schema"@) == Some(SCHEMA@)
    &&& member(t, "profile_dir"@) == Some(r.profile_dir)
    &&& member(t, "source_id"@) == Some(r.source_id)
    &&& member(n, "out_of_crate_ns"@) matches Some(x) && x.thousandths
        == r.out_of_crate_ns.thousandths
    &&& member(n, "in_crate_ns"@) matches Some(x) && x.thousandths == r.in_crate_ns.thousandths
    &&& member(n, "boundary_ratio"@) matches Some(x) && x.long == r.boundary_ratio.long
    &&& member(n, "ratio_lo"@) matches Some(x) && x.long == r.ratio_lo.long
    &&& member(n, "ratio_hi"@) matches Some(x) && x.long == r.ratio_hi.long
    &&& member(n, "out_of_crate_spread"@) matches Some(x) && x.long == r.out_of_crate_spread.long
    &&& member(n, "in_crate_spread"@) matches Some(x) && x.long == r.in_crate_spread.long
    &&& member(n, "rounds"@) matches Some(x) && is_whole(x, r.rounds as nat)
    &&& member(n, "lookups_per_round"@) matches Some(x) && is_whole(x, r.lookups_per_round as nat)
}

/// What is read of a document with the members that were written is written as that document
/// again, however its numbers were rounded.
pub proof fn law_reading_keeps_what_was_written(
    t: Map<Seq<char>, Seq<char>>,
    n: Map<Seq<char>, NumberView>,
    r: RunView,
)
    requires
        as_written(t, n, r),
        fault(fields_of(t, n)) is None,
    ensures
        run_json(run_of(fields_of(t, n))) == run_json(r),
{
    lemma_whole(member(n, "rounds"@)->0, r.rounds as nat);
    lemma_whole(member(n, "lookups_per_round"@)->0, r.lookups_per_round as nat);
}

// ---------------------------------------------------------------------------
// Two runs
// ---------------------------------------------------------------------------

/// The two runs of the profile comparison.
#[derive(Debug, Clone)]
pub struct Pair {
    /// Built with the defaults that an embedder gets.
    pub embedder: Run,
    /// Built with this workspace's release profile.
    pub reference: Run,
}

/// Why two files are not a pair.
#[derive(Debug)]
pub enum PairError {
    /// A file could not be read: its path, and why.
    Unread(String, String),
    /// A file holds no run: its path, and why.
    NoRun(String, RunError),
    /// A run is of another profile: its path, the profile, and the one that was wanted.
    WrongProfile(String, String, String),
    /// The two runs are of different source.
    DifferentSource(String, String),
}

pub enum PairErrorView {
    Unread(Seq<char>, Seq<char>),
    NoRun(Seq<char>, RunErrorView),
    WrongProfile(Seq<char>, Seq<char>, Seq<char>),
    DifferentSource(Seq<char>, Seq<char>),
}

impl View for PairError {
    type V = PairErrorView;

    open spec fn view(&self) -> PairErrorView {
        match self {
            PairError::Unread(p, e) => PairErrorView::Unread(p@, e@),
            PairError::NoRun(p, e) => PairErrorView::NoRun(p@, e@),
            PairError::WrongProfile(p, a, b) => PairErrorView::WrongProfile(p@, a@, b@),
            PairError::DifferentSource(a, b) => PairErrorView::DifferentSource(a@, b@),
        }
    }
}

impl PairErrorView {
    pub open spec fn message(self) -> Seq<char> {
        match self {
            PairErrorView::Unread(p, e) => "reading "@ + p + ": "@ + e,
            PairErrorView::NoRun(p, e) => "in "@ + p + ": "@ + e.message(),
            PairErrorView::WrongProfile(p, a, b) => p + " was built into the `"@ + a
                + "` profile directory, not `"@ + b
                + "` — the two columns of this comparison must be two different builds of the same program"@,
            PairErrorView::DifferentSource(a, b) =>
                "the two runs were built from different source ("@ + a + " and "@ + b
                + "), so their quotient is not a property of any one program — one half is stale. Re-run `just embed-cost`, which builds and runs both"@,
        }
    }
}

impl PairError {
    /// What is said of the files.
    #[must_use]
    pub fn message(&self) -> (r: String)
        ensures
            r@ == self@.message(),
    {
        match self {
            PairError::Unread(p, e) => {
                let mut m = "reading ".to_owned();
                m.append(p.as_str());
                m.append(": ");
                m.append(e.as_str());
                m
            },
            PairError::NoRun(p, e) => {
                let mut m = "in ".to_owned();
                m.append(p.as_str());
                m.append(": ");
                m.append(e.message().as_str());
                m
            },
            PairError::WrongProfile(p, a, b) => {
                let mut m = p.clone();
                m.append(" was built into the `");
                m.append(a.as_str());
                m.append("` profile directory, not `");
                m.append(b.as_str());
                m.append(
                    "` — the two columns of this comparison must be two different builds of the same program",
                );
                m
            },
            PairError::DifferentSource(a, b) => {
                let mut m = "the two runs were built from different source (".to_owned();
                m.append(a.as_str());
                m.append(" and ");
                m.append(b.as_str());
                m.append(
                    "), so their quotient is not a property of any one program — one half is stale. Re-run `just embed-cost`, which builds and runs both",
                );
                m
            },
        }
    }
}

/// A result over views.
pub open spec fn run_result(r: Result<Run, RunError>) -> Result<RunView, RunErrorView> {
    match r {
        Ok(x) => Ok(x@),
        Err(e) => Err(e@),
    }
}

/// What reading a text as a run gives.
pub open spec fn read_run(text: Seq<char>) -> Result<RunView, RunErrorView> {
    match json_document(text) {
        None => Err(RunErrorView::NotJson),
        Some((t, n)) => match fault(fields_of(t, n)) {
            Some(e) => Err(e),
            None => Ok(run_of(fields_of(t, n))),
        },
    }
}

/// One file of a pair: its run, if it could be read, holds one, and is of the profile
/// that its name claims.
pub open spec fn half(
    path: Seq<char>,
    run: Result<RunView, RunErrorView>,
    want: Seq<char>,
) -> Result<RunView, PairErrorView> {
    match run {
        Err(e) => Err(PairErrorView::NoRun(path, e)),
        Ok(r) => if r.profile_dir == want {
            Ok(r)
        } else {
            Err(PairErrorView::WrongProfile(path, r.profile_dir, want))
        },
    }
}

/// What a file gave: its text, or why there is none.
pub open spec fn file_half(
    path: Seq<char>,
    text: Result<String, String>,
    want: Seq<char>,
) -> Result<RunView, PairErrorView> {
    match text {
        Err(e) => Err(PairErrorView::Unread(path, e@)),
        Ok(t) => half(path, read_run(t@), want),
    }
}

/// Two halves as a pair.
pub open spec fn joined_pair(
    a: Result<RunView, PairErrorView>,
    b: Result<RunView, PairErrorView>,
) -> Result<(RunView, RunView), PairErrorView> {
    match a {
        Err(e) => Err(e),
        Ok(x) => match b {
            Err(e) => Err(e),
            Ok(y) => if x.source_id == y.source_id {
                Ok((x, y))
            } else {
                Err(PairErrorView::DifferentSource(x.source_id, y.source_id))
            },
        },
    }
}

pub open spec fn pair_result(r: Result<Pair, PairError>) -> Result<
    (RunView, RunView),
    PairErrorView,
> {
    match r {
        Ok(p) => Ok((p.embedder@, p.reference@)),
        Err(e) => Err(e@),
    }
}

impl Pair {
    /// Holds a run that a file gave to the profile that the file's name claims.
    ///
    /// # Errors
    ///
    /// The file holds no run, or a run of another profile.
    pub fn half(path: &str, run: Result<Run, RunError>, want: &str) -> (r: Result<Run, PairError>)
        ensures
            (match r {
                Ok(x) => Ok(x@),
                Err(e) => Err(e@),
            }) == half(path@, run_result(run), want@),
    {
        match run {
            Err(e) => Err(PairError::NoRun(path.to_owned(), e)),
            Ok(r) => if text::same(r.profile_dir.as_str(), want) {
                Ok(r)
            } else {
                Err(PairError::WrongProfile(path.to_owned(), r.profile_dir, want.to_owned()))
            },
        }
    }

    fn file_half(path: &str, text: Result<String, String>, want: &str) -> (r: Result<
        Run,
        PairError,
    >)
        ensures
            (match r {
                Ok(x) => Ok(x@),
                Err(e) => Err(e@),
            }) == file_half(path@, text, want@),
    {
        match text {
            Err(e) => Err(PairError::Unread(path.to_owned(), e)),
            Ok(t) => {
                let run = Run::from_json(t.as_str());
                assert(run_result(run) == read_run(t@));
                Pair::half(path, run, want)
            },
        }
    }

    /// The pair that two files hold, each given by its path and by its text or by why
    /// there is none.
    ///
    /// # Errors
    ///
    /// A file that could not be read or holds no run; one whose profile is not the one
    /// that its name claims; or two runs of different source.
    pub fn load(
        embedder_path: &str,
        embedder: Result<String, String>,
        reference_path: &str,
        reference: Result<String, String>,
    ) -> (r: Result<Pair, PairError>)
        ensures
            pair_result(r) == joined_pair(
                file_half(embedder_path@, embedder, EMBEDDER_PROFILE@),
                file_half(reference_path@, reference, REFERENCE_PROFILE@),
            ),
    {
        let a = match Pair::file_half(embedder_path, embedder, EMBEDDER_PROFILE) {
            Ok(x) => x,
            Err(e) => return Err(e),
        };
        let b = match Pair::file_half(reference_path, reference, REFERENCE_PROFILE) {
            Ok(x) => x,
            Err(e) => return Err(e),
        };
        Pair::join(a, b)
    }

    /// Two runs of one source as a pair.
    ///
    /// # Errors
    ///
    /// The two runs are of different source.
    pub fn join(embedder: Run, reference: Run) -> (r: Result<Pair, PairError>)
        ensures
            pair_result(r) == joined_pair(Ok(embedder@), Ok(reference@)),
    {
        if text::same(embedder.source_id.as_str(), reference.source_id.as_str()) {
            Ok(Pair { embedder, reference })
        } else {
            Err(PairError::DifferentSource(embedder.source_id, reference.source_id))
        }
    }
}

/// A pair that was accepted is of one source and of the two profiles.
pub proof fn law_pair_is_two_builds_of_one_source(
    a_path: Seq<char>,
    a: Result<RunView, RunErrorView>,
    b_path: Seq<char>,
    b: Result<RunView, RunErrorView>,
)
    ensures
        joined_pair(half(a_path, a, EMBEDDER_PROFILE@), half(b_path, b, REFERENCE_PROFILE@)) matches Ok(
            (x, y),
        ) ==> x.source_id == y.source_id && x.profile_dir == EMBEDDER_PROFILE@ && y.profile_dir
            == REFERENCE_PROFILE@ && x.profile_dir != y.profile_dir,
{
    reveal_strlit("embedder");
    reveal_strlit("release");
    assert(EMBEDDER_PROFILE@.len() == 8);
    assert(REFERENCE_PROFILE@.len() == 7);
}

// ---------------------------------------------------------------------------
// The workspace manifest
// ---------------------------------------------------------------------------

/// Why a profile has no such key.
#[derive(Debug)]
pub enum ManifestError {
    /// The manifest has no such section.
    NoSection(String),
    /// The section declares no such key.
    NoKey(String, String),
}

pub enum ManifestErrorView {
    NoSection(Seq<char>),
    NoKey(Seq<char>, Seq<char>),
}

impl View for ManifestError {
    type V = ManifestErrorView;

    open spec fn view(&self) -> ManifestErrorView {
        match self {
            ManifestError::NoSection(h) => ManifestErrorView::NoSection(h@),
            ManifestError::NoKey(h, k) => ManifestErrorView::NoKey(h@, k@),
        }
    }
}

impl ManifestErrorView {
    pub open spec fn message(self) -> Seq<char> {
        match self {
            ManifestErrorView::NoSection(h) => "the workspace manifest has no "@ + h,
            ManifestErrorView::NoKey(h, k) => h + " declares no `"@ + k + "`"@,
        }
    }
}

impl ManifestError {
    /// What is said of the manifest.
    #[must_use]
    pub fn message(&self) -> (r: String)
        ensures
            r@ == self@.message(),
    {
        match self {
            ManifestError::NoSection(h) => {
                let mut m = "the workspace manifest has no ".to_owned();
                m.append(h.as_str());
                m
            },
            ManifestError::NoKey(h, k) => {
                let mut m = h.clone();
                m.append(" declares no `");
                m.append(k.as_str());
                m.append("`");
                m
            },
        }
    }
}

pub open spec fn header(profile: Seq<char>) -> Seq<char> {
    "[profile."@ + profile + "]"@
}

/// Whether a line is the header of a profile's section. One that stands in a comment is
/// none.
pub open spec fn is_header(line: Seq<char>, profile: Seq<char>) -> bool {
    begins(trimmed(line), header(profile))
}

/// What a line of a manifest leaves open for the next.
#[derive(Debug, Clone, Copy, PartialEq, Eq, Structural)]
pub enum Quoting {
    /// No string.
    Bare,
    /// A string between quotation marks, or apostrophes: the end of the line ends it.
    Basic,
    Literal,
    /// One between three of them.
    BasicBlock,
    LiteralBlock,
}

/// How many arrays are open, and what string.
#[derive(Debug, Clone, Copy, PartialEq, Eq, Structural)]
pub struct Open {
    pub arrays: u64,
    pub quoting: Quoting,
}

pub open spec fn nothing_open() -> Open {
    Open { arrays: 0, quoting: Quoting::Bare }
}

/// Whether a text begins with a character three times.
pub open spec fn tripled(s: Seq<char>, c: char) -> bool {
    s.len() >= 3 && s[0] == c && s[1] == c && s[2] == c
}

/// What is open behind the first token of a text that is not empty, and how long that is. A
/// comment lasts to the end of the line.
pub open spec fn token(s: Seq<char>, o: Open) -> (nat, Open) {
    let c = s[0];
    let escape = if s.len() > 1 {
        2nat
    } else {
        1nat
    };
    match o.quoting {
        Quoting::Bare => if tripled(s, '"') {
            (3nat, Open { quoting: Quoting::BasicBlock, ..o })
        } else if tripled(s, '\'') {
            (3nat, Open { quoting: Quoting::LiteralBlock, ..o })
        } else if c == '"' {
            (1nat, Open { quoting: Quoting::Basic, ..o })
        } else if c == '\'' {
            (1nat, Open { quoting: Quoting::Literal, ..o })
        } else if c == '#' {
            (s.len(), o)
        } else if c == '[' && o.arrays < u64::MAX {
            (1nat, Open { arrays: (o.arrays + 1) as u64, ..o })
        } else if c == ']' && o.arrays > 0 {
            (1nat, Open { arrays: (o.arrays - 1) as u64, ..o })
        } else {
            (1nat, o)
        },
        Quoting::Basic => if c == '\\' {
            (escape, o)
        } else if c == '"' {
            (1nat, Open { quoting: Quoting::Bare, ..o })
        } else {
            (1nat, o)
        },
        Quoting::Literal => if c == '\'' {
            (1nat, Open { quoting: Quoting::Bare, ..o })
        } else {
            (1nat, o)
        },
        Quoting::BasicBlock => if c == '\\' {
            (escape, o)
        } else if tripled(s, '"') {
            (3nat, Open { quoting: Quoting::Bare, ..o })
        } else {
            (1nat, o)
        },
        Quoting::LiteralBlock => if tripled(s, '\'') {
            (3nat, Open { quoting: Quoting::Bare, ..o })
        } else {
            (1nat, o)
        },
    }
}

/// What is open behind a line.
pub open spec fn behind(line: Seq<char>, o: Open) -> Open
    decreases line.len(),
{
    if line.len() == 0 {
        match o.quoting {
            Quoting::Basic | Quoting::Literal => Open { quoting: Quoting::Bare, ..o },
            _ => o,
        }
    } else {
        let (n, p) = token(line, o);
        behind(line.skip(n as int), p)
    }
}

/// What is open behind some lines.
pub open spec fn behind_all(ls: Seq<Seq<char>>, o: Open) -> Open
    decreases ls.len(),
{
    if ls.len() == 0 {
        o
    } else {
        behind_all(ls.skip(1), behind(ls[0], o))
    }
}

/// Whether a line is the header of any section. One that is indented is none where an array
/// or a string is open.
pub open spec fn opens_section(line: Seq<char>, o: Open) -> bool {
    begins(line, "["@) || (begins(trimmed(line), "["@) && o == nothing_open())
}

/// Whether a manifest declares a profile.
pub open spec fn declares(manifest: Seq<char>, profile: Seq<char>) -> bool {
    exists|i: int|
        0 <= i < lines(manifest).len() && is_header(#[trigger] lines(manifest)[i], profile)
}

/// The lines up to the next section.
pub open spec fn up_to_section(ls: Seq<Seq<char>>, o: Open) -> Seq<Seq<char>>
    decreases ls.len(),
{
    if ls.len() == 0 || opens_section(ls[0], o) {
        seq![]
    } else {
        seq![ls[0]] + up_to_section(ls.skip(1), behind(ls[0], o))
    }
}

/// What stands behind the header on its line.
pub open spec fn behind_header(line: Seq<char>, profile: Seq<char>) -> Seq<char> {
    trimmed(line).skip(header(profile).len() as int)
}

/// The lines of a section: what stands behind the header on its line, then those that follow.
pub open spec fn body_of(
    line: Seq<char>,
    rest: Seq<Seq<char>>,
    profile: Seq<char>,
) -> Seq<Seq<char>> {
    let tail = behind_header(line, profile);
    seq![tail] + up_to_section(rest, behind(tail, nothing_open()))
}

/// The section of a profile among some lines.
pub open spec fn section_in(ls: Seq<Seq<char>>, profile: Seq<char>) -> Option<Seq<Seq<char>>>
    decreases ls.len(),
{
    if ls.len() == 0 {
        None
    } else if is_header(ls[0], profile) {
        Some(body_of(ls[0], ls.skip(1), profile))
    } else {
        section_in(ls.skip(1), profile)
    }
}

/// The lines of a profile's section: from behind its first header up to the next section.
pub open spec fn section(manifest: Seq<char>, profile: Seq<char>) -> Option<Seq<Seq<char>>> {
    section_in(lines(manifest), profile)
}

/// The value that a line gives a key: what stands after the key and the equals sign.
pub open spec fn value_on(line: Seq<char>, key: Seq<char>) -> Option<Seq<char>> {
    let t = trimmed(line);
    let u = trimmed(t.skip(key.len() as int));
    if begins(t, key) && begins(u, "="@) {
        Some(trimmed(u.skip("="@.len() as int)))
    } else {
        None
    }
}

/// The value that the first line which gives one gives a key.
pub open spec fn value_in(ls: Seq<Seq<char>>, key: Seq<char>) -> Option<Seq<char>>
    decreases ls.len(),
{
    if ls.len() == 0 {
        None
    } else {
        match value_on(ls[0], key) {
            Some(v) => Some(v),
            None => value_in(ls.skip(1), key),
        }
    }
}

/// What a manifest declares for a key of a profile.
pub open spec fn declared(
    manifest: Seq<char>,
    profile: Seq<char>,
    key: Seq<char>,
) -> Result<Seq<char>, ManifestErrorView> {
    match section(manifest, profile) {
        None => Err(ManifestErrorView::NoSection(header(profile))),
        Some(body) => match value_in(body, key) {
            Some(v) => Ok(v),
            None => Err(ManifestErrorView::NoKey(header(profile), key)),
        },
    }
}

proof fn lemma_up_to_section(ls: Seq<Seq<char>>, o: Open)
    ensures
        ({
            let n = up_to_section(ls, o).len() as int;
            &&& n <= ls.len()
            &&& up_to_section(ls, o) == ls.take(n)
            &&& forall|i: int|
                0 <= i < n ==> !opens_section(#[trigger] ls[i], behind_all(ls.take(i), o))
            &&& n < ls.len() ==> opens_section(ls[n], behind_all(ls.take(n), o))
        }),
    decreases ls.len(),
{
    assert(ls.take(0) =~= seq![]);
    if ls.len() == 0 || opens_section(ls[0], o) {
        assert(up_to_section(ls, o) =~= ls.take(0));
    } else {
        let rest = ls.skip(1);
        let p = behind(ls[0], o);
        lemma_up_to_section(rest, p);
        let n = up_to_section(ls, o).len() as int;
        assert(up_to_section(ls, o) =~= ls.take(n));
        assert forall|i: int| 0 < i <= ls.len() implies behind_all(#[trigger] ls.take(i), o)
            == behind_all(rest.take(i - 1), p) by {
            assert(ls.take(i).skip(1) =~= rest.take(i - 1));
        }
        assert forall|i: int| 0 <= i < n implies !opens_section(
            #[trigger] ls[i],
            behind_all(ls.take(i), o),
        ) by {
            if i > 0 {
                assert(ls[i] == rest[i - 1]);
            }
        }
        if n < ls.len() {
            assert(ls[n] == rest[n - 1]);
        }
    }
}

proof fn lemma_section_in(ls: Seq<Seq<char>>, profile: Seq<char>, k: int)
    requires
        0 <= k <= ls.len(),
        forall|i: int| 0 <= i < k ==> !is_header(#[trigger] ls[i], profile),
    ensures
        k < ls.len() && is_header(ls[k], profile) ==> section_in(ls, profile) == Some(
            body_of(ls[k], ls.skip(k + 1), profile),
        ),
        k == ls.len() ==> section_in(ls, profile) is None,
    decreases ls.len(),
{
    if k > 0 {
        let rest = ls.skip(1);
        assert forall|i: int| 0 <= i < k - 1 implies !is_header(#[trigger] rest[i], profile) by {
            assert(rest[i] == ls[i + 1]);
        }
        assert(!is_header(ls[0], profile));
        lemma_section_in(rest, profile, k - 1);
        if k < ls.len() {
            assert(rest[k - 1] == ls[k]);
            assert(rest.skip(k) =~= ls.skip(k + 1));
        }
    }
}

/// A profile has a section exactly where one is declared.
pub proof fn law_a_section_is_declared(manifest: Seq<char>, profile: Seq<char>)
    ensures
        section(manifest, profile) is Some <==> declares(manifest, profile),
{
    lemma_first_header(lines(manifest), profile);
}

proof fn lemma_first_header(ls: Seq<Seq<char>>, profile: Seq<char>)
    ensures
        section_in(ls, profile) is Some <==> exists|i: int|
            0 <= i < ls.len() && is_header(#[trigger] ls[i], profile),
    decreases ls.len(),
{
    if ls.len() > 0 {
        let rest = ls.skip(1);
        lemma_first_header(rest, profile);
        if is_header(ls[0], profile) {
        } else if exists|i: int| 0 <= i < ls.len() && is_header(#[trigger] ls[i], profile) {
            let i = choose|i: int| 0 <= i < ls.len() && is_header(#[trigger] ls[i], profile);
            assert(rest[i - 1] == ls[i]);
        } else {
            assert forall|i: int| 0 <= i < rest.len() implies !is_header(
                #[trigger] rest[i],
                profile,
            ) by {
                assert(rest[i] == ls[i + 1]);
            }
        }
    }
}

/// Nothing past the next section's header is read as this profile's: where the `k`th line
/// is the first that is the profile's header, its section is what stands behind the header
/// and the lines that follow, none of them a header where it stands, up to the end or to a
/// line that is one.
pub proof fn law_section_ends_at_the_next(manifest: Seq<char>, profile: Seq<char>, k: int)
    requires
        0 <= k < lines(manifest).len(),
        is_header(lines(manifest)[k], profile),
        forall|i: int| 0 <= i < k ==> !is_header(#[trigger] lines(manifest)[i], profile),
    ensures
        section(manifest, profile) matches Some(body) && {
            let tail = behind_header(lines(manifest)[k], profile);
            let rest = lines(manifest).skip(k + 1);
            let o = behind(tail, nothing_open());
            let n = body.len() - 1;
            &&& 0 <= n <= rest.len()
            &&& body == seq![tail] + rest.take(n)
            &&& forall|i: int|
                0 <= i < n ==> !opens_section(#[trigger] rest[i], behind_all(rest.take(i), o))
            &&& n < rest.len() ==> opens_section(rest[n], behind_all(rest.take(n), o))
        },
{
    let ls = lines(manifest);
    lemma_section_in(ls, profile, k);
    let tail = behind_header(ls[k], profile);
    lemma_up_to_section(ls.skip(k + 1), behind(tail, nothing_open()));
}

/// What is open behind a line.
fn scan(line: &str, start: Open) -> (r: Open)
    ensures
        r == behind(line@, start),
{
    let cs = text::chars(line);
    let ghost all = cs@;
    let mut o = start;
    let mut i: usize = 0;
    assert(all.skip(0) =~= all);
    while i < cs.len()
        invariant
            all == cs@,
            i <= all.len(),
            behind(all.skip(i as int), o) == behind(all, start),
        decreases all.len() - i,
    {
        let (n, p) = scan_token(&cs, i, o);
        assert(all.skip(i as int).skip(n as int) =~= all.skip(i + n));
        o = p;
        i = i + n;
    }
    assert(all.skip(i as int).len() == 0);
    match o.quoting {
        Quoting::Basic | Quoting::Literal => Open { arrays: o.arrays, quoting: Quoting::Bare },
        _ => o,
    }
}

fn is_tripled(cs: &Vec<char>, i: usize, c: char) -> (r: bool)
    requires
        i < cs@.len(),
    ensures
        r == tripled(cs@.skip(i as int), c),
{
    cs.len() - i >= 3 && cs[i] == c && cs[i + 1] == c && cs[i + 2] == c
}

fn scan_token(cs: &Vec<char>, i: usize, o: Open) -> (r: (usize, Open))
    requires
        i < cs@.len(),
    ensures
        token(cs@.skip(i as int), o) == (r.0 as nat, r.1),
        1 <= r.0 <= cs@.len() - i,
{
    let c = cs[i];
    let escape: usize = if cs.len() - i > 1 {
        2
    } else {
        1
    };
    let bare = Open { arrays: o.arrays, quoting: Quoting::Bare };
    match o.quoting {
        Quoting::Bare => if is_tripled(cs, i, '"') {
            (3, Open { arrays: o.arrays, quoting: Quoting::BasicBlock })
        } else if is_tripled(cs, i, '\'') {
            (3, Open { arrays: o.arrays, quoting: Quoting::LiteralBlock })
        } else if c == '"' {
            (1, Open { arrays: o.arrays, quoting: Quoting::Basic })
        } else if c == '\'' {
            (1, Open { arrays: o.arrays, quoting: Quoting::Literal })
        } else if c == '#' {
            (cs.len() - i, o)
        } else if c == '[' && o.arrays < u64::MAX {
            (1, Open { arrays: o.arrays + 1, quoting: o.quoting })
        } else if c == ']' && o.arrays > 0 {
            (1, Open { arrays: o.arrays - 1, quoting: o.quoting })
        } else {
            (1, o)
        },
        Quoting::Basic => if c == '\\' {
            (escape, o)
        } else if c == '"' {
            (1, bare)
        } else {
            (1, o)
        },
        Quoting::Literal => if c == '\'' {
            (1, bare)
        } else {
            (1, o)
        },
        Quoting::BasicBlock => if c == '\\' {
            (escape, o)
        } else if is_tripled(cs, i, '"') {
            (3, bare)
        } else {
            (1, o)
        },
        Quoting::LiteralBlock => if is_tripled(cs, i, '\'') {
            (3, bare)
        } else {
            (1, o)
        },
    }
}

fn header_of(profile: &str) -> (r: String)
    ensures
        r@ == header(profile@),
{
    let mut s = "[profile.".to_owned();
    s.append(profile);
    s.append("]");
    s
}

fn find_value_on(line: &str, key: &str) -> (r: Option<String>)
    ensures
        maybe_text(r) == value_on(line@, key@),
{
    let t = text::trim(line);
    match text::after_prefix(t.as_str(), key) {
        None => None,
        Some(rest) => {
            let u = text::trim(rest.as_str());
            match text::after_prefix(u.as_str(), "=") {
                None => None,
                Some(v) => Some(text::trim(v.as_str())),
            }
        },
    }
}

fn find_value_in(ls: &Vec<String>, key: &str) -> (r: Option<String>)
    ensures
        maybe_text(r) == value_in(texts(ls@), key@),
{
    let mut i: usize = 0;
    assert(texts(ls@).skip(0) =~= texts(ls@));
    while i < ls.len()
        invariant
            i <= ls@.len(),
            value_in(texts(ls@).skip(i as int), key@) == value_in(texts(ls@), key@),
        decreases ls@.len() - i,
    {
        assert(texts(ls@).skip(i as int)[0] == ls@[i as int]@);
        assert(texts(ls@).skip(i as int).skip(1) =~= texts(ls@).skip(i + 1));
        match find_value_on(ls[i].as_str(), key) {
            Some(v) => return Some(v),
            None => {},
        }
        i = i + 1;
    }
    None
}

/// Where the header of a profile's section is among some lines, or past the last.
fn find_header(ls: &Vec<String>, profile: &str) -> (r: usize)
    ensures
        r <= ls@.len(),
        forall|i: int| 0 <= i < r ==> !is_header(#[trigger] texts(ls@)[i], profile@),
        r < ls@.len() ==> is_header(texts(ls@)[r as int], profile@),
{
    let h = header_of(profile);
    let mut i: usize = 0;
    while i < ls.len()
        invariant
            h@ == header(profile@),
            i <= ls@.len(),
            forall|j: int| 0 <= j < i ==> !is_header(#[trigger] texts(ls@)[j], profile@),
        decreases ls@.len() - i,
    {
        assert(texts(ls@)[i as int] == ls@[i as int]@);
        if text::starts_with(text::trim(ls[i].as_str()).as_str(), h.as_str()) {
            return i;
        }
        i = i + 1;
    }
    i
}

/// The lines of a profile's section.
fn find_section(manifest: &str, profile: &str) -> (r: Option<Vec<String>>)
    ensures
        match r {
            Some(v) => section(manifest@, profile@) == Some(texts(v@)),
            None => section(manifest@, profile@) is None,
        },
{
    broadcast use lemma_texts_push;

    let ls = text::split_lines(manifest);
    let ghost all = texts(ls@);
    let at: usize = find_header(&ls, profile);
    proof {
        lemma_section_in(all, profile@, at as int);
    }
    if at == ls.len() {
        return None;
    }
    let ghost rest = all.skip(at + 1);
    assert(all[at as int] == ls@[at as int]@);
    let tail = match text::after_prefix(
        text::trim(ls[at].as_str()).as_str(),
        header_of(profile).as_str(),
    ) {
        Some(t) => t,
        None => return None,
    };
    let mut o = scan(tail.as_str(), Open { arrays: 0, quoting: Quoting::Bare });
    let ghost want = body_of(all[at as int], rest, profile@);
    let mut body: Vec<String> = Vec::new();
    body.push(tail);
    let mut i: usize = at + 1;
    assert(rest.skip(0) =~= rest);
    assert(texts(body@) + up_to_section(rest, o) =~= want);
    while i < ls.len()
        invariant
            all == texts(ls@),
            rest == all.skip(at + 1),
            at < i <= ls@.len(),
            texts(body@) + up_to_section(rest.skip(i - at - 1), o) == want,
            section(manifest@, profile@) == Some(want),
        decreases ls@.len() - i,
    {
        let ghost here = rest.skip(i - at - 1);
        assert(here[0] == ls@[i as int]@);
        assert(here.skip(1) =~= rest.skip(i + 1 - at - 1));
        let line = ls[i].as_str();
        let none_open = o.arrays == 0 && o.quoting == Quoting::Bare;
        if text::starts_with(line, "[") || (none_open && text::starts_with(
            text::trim(line).as_str(),
            "[",
        )) {
            assert(up_to_section(here, o) =~= seq![]);
            assert(texts(body@) =~= want);
            return Some(body);
        }
        let ghost before = texts(body@);
        let ghost was = o;
        o = scan(line, o);
        body.push(ls[i].clone());
        assert(texts(body@) + up_to_section(here.skip(1), o) =~= before + up_to_section(here, was));
        i = i + 1;
    }
    assert(rest.skip(i - at - 1) =~= seq![]);
    assert(texts(body@) =~= want);
    Some(body)
}

/// One key of one profile's section of the workspace manifest.
///
/// # Errors
///
/// The section is missing, or the key is missing from it.
pub fn profile_key(manifest: &str, profile: &str, key: &str) -> (r: Result<String, ManifestError>)
    ensures
        match r {
            Ok(v) => declared(manifest@, profile@, key@) == Ok::<Seq<char>, ManifestErrorView>(v@),
            Err(e) => declared(manifest@, profile@, key@) == Err::<Seq<char>, ManifestErrorView>(
                e@,
            ),
        },
{
    match find_section(manifest, profile) {
        None => Err(ManifestError::NoSection(header_of(profile))),
        Some(body) => match find_value_in(&body, key) {
            Some(v) => Ok(v),
            None => Err(ManifestError::NoKey(header_of(profile), key.to_owned())),
        },
    }
}

/// `lto` and `codegen-units` as the workspace manifest declares them for a profile.
///
/// # Errors
///
/// The section is missing, or either key is missing from it.
pub fn profile_settings_from_manifest(manifest: &str, profile: &str) -> (r: Result<
    (String, String),
    ManifestError,
>)
    ensures
        match declared(manifest@, profile@, "lto"@) {
            Err(e) => r matches Err(x) && x@ == e,
            Ok(lto) => match declared(manifest@, profile@, "codegen-units"@) {
                Err(e) => r matches Err(x) && x@ == e,
                Ok(units) => r matches Ok((a, b)) && a@ == lto && b@ == units,
            },
        },
{
    match profile_key(manifest, profile, "lto") {
        Err(e) => Err(e),
        Ok(lto) => match profile_key(manifest, profile, "codegen-units") {
            Err(e) => Err(e),
            Ok(units) => Ok((lto, units)),
        },
    }
}

/// Whether the workspace manifest declares such a profile at all.
#[must_use]
pub fn profile_section_exists(manifest: &str, profile: &str) -> (r: bool)
    ensures
        r == declares(manifest@, profile@),
{
    let ls = text::split_lines(manifest);
    let at: usize = find_header(&ls, profile);
    at < ls.len()
}

/// The `lto` setting of a profile, which it declares or inherits within `steps` steps
/// from `start`.
pub open spec fn lto_of(
    manifest: Seq<char>,
    profile: Seq<char>,
    start: Seq<char>,
    steps: nat,
) -> Seq<char>
    decreases steps,
{
    if steps == 0 {
        "unknown ([profile."@ + start
            + "]'s `inherits` chain does not terminate in 8 steps)"@
    } else {
        match declared(manifest, profile, "lto"@) {
            Ok(v) => if profile == start {
                v
            } else {
                v + " (inherited from [profile."@ + profile + "])"@
            },
            Err(_) => if !declares(manifest, profile) {
                "unknown (the workspace manifest has no [profile."@ + profile + "])"@
            } else {
                match declared(manifest, profile, "inherits"@) {
                    Err(_) => "false (cargo's default; [profile."@ + profile
                        + "] declares no `lto`)"@,
                    Ok(parent) => if stripped_quotes(parent) == profile {
                        "unknown ([profile."@ + profile + "] inherits itself)"@
                    } else {
                        lto_of(manifest, stripped_quotes(parent), start, (steps - 1) as nat)
                    },
                }
            },
        }
    }
}

pub open spec fn stripped_quotes(s: Seq<char>) -> Seq<char> {
    text::stripped(s, '"')
}

/// The profile whose binaries stand in a profile directory.
pub open spec fn profile_of_dir(dir: Seq<char>) -> Seq<char> {
    if dir == "debug"@ {
        "dev"@
    } else {
        dir
    }
}

/// The `lto` setting behind a profile directory. An undeclared `lto` reports the
/// default and says so; `inherits` is followed for eight steps.
#[must_use]
pub fn lto_for_profile_dir(manifest: &str, profile_dir: &str) -> (r: String)
    ensures
        r@ == lto_of(manifest@, profile_of_dir(profile_dir@), profile_of_dir(profile_dir@), 8),
{
    let start = if text::same(profile_dir, "debug") {
        "dev".to_owned()
    } else {
        profile_dir.to_owned()
    };
    let mut profile = start.clone();
    let mut left: u64 = 8;
    while left > 0
        invariant
            left <= 8,
            start@ == profile_of_dir(profile_dir@),
            lto_of(manifest@, profile@, start@, left as nat) == lto_of(
                manifest@,
                start@,
                start@,
                8,
            ),
        decreases left,
    {
        match profile_key(manifest, profile.as_str(), "lto") {
            Ok(v) => {
                if text::same(profile.as_str(), start.as_str()) {
                    return v;
                }
                let mut s = v;
                s.append(" (inherited from [profile.");
                s.append(profile.as_str());
                s.append("])");
                return s;
            },
            Err(_) => {},
        }
        if !profile_section_exists(manifest, profile.as_str()) {
            let mut s = "unknown (the workspace manifest has no [profile.".to_owned();
            s.append(profile.as_str());
            s.append("])");
            return s;
        }
        let parent = match profile_key(manifest, profile.as_str(), "inherits") {
            Ok(p) => p,
            Err(_) => {
                let mut s = "false (cargo's default; [profile.".to_owned();
                s.append(profile.as_str());
                s.append("] declares no `lto`)");
                return s;
            },
        };
        let parent = text::strip(parent.as_str(), '"');
        if text::same(parent.as_str(), profile.as_str()) {
            let mut s = "unknown ([profile.".to_owned();
            s.append(profile.as_str());
            s.append("] inherits itself)");
            return s;
        }
        profile = parent;
        left = left - 1;
    }
    let mut s = "unknown ([profile.".to_owned();
    s.append(start.as_str());
    s.append("]'s `inherits` chain does not terminate in 8 steps)");
    s
}

// ---------------------------------------------------------------------------
// What the documents say
// ---------------------------------------------------------------------------

/// A band of quotients is within the limit where its highest is at most 1.05, over it where
/// its lowest is more, and else cannot answer.
pub proof fn law_the_limit_is_five_percent(lo: u64, hi: u64)
    ensures
        verdict_of(lo, hi) == Verdict::Within <==> at_most(hi, 0x3ff0_cccc_cccc_cccd),
        verdict_of(lo, hi) == Verdict::Over <==> less(0x3ff0_cccc_cccc_cccd, lo) && !at_most(
            hi,
            0x3ff0_cccc_cccc_cccd,
        ),
{
}

/// Two files are a pair, and alone, where each holds a run, the first of the `embedder`
/// profile and the second of the `release` profile, built from one source; the pair is then
/// those two runs, in that order.
pub proof fn law_when_two_runs_are_a_pair(
    a_path: Seq<char>,
    a: Result<RunView, RunErrorView>,
    b_path: Seq<char>,
    b: Result<RunView, RunErrorView>,
)
    ensures
        ({
            let p = joined_pair(
                half(a_path, a, EMBEDDER_PROFILE@),
                half(b_path, b, REFERENCE_PROFILE@),
            );
            &&& p is Ok <==> {
                &&& a matches Ok(x) && x.profile_dir == "embedder"@
                &&& b matches Ok(y) && y.profile_dir == "release"@
                &&& a->Ok_0.source_id == b->Ok_0.source_id
            }
            &&& p matches Ok((x, y)) ==> Ok::<RunView, RunErrorView>(x) == a && Ok::<
                RunView,
                RunErrorView,
            >(y) == b
        }),
{
}

/// Whether a document says a value right behind a key.
pub open spec fn says_under(doc: Seq<char>, key: Seq<char>, value: Seq<char>) -> bool {
    holds(doc, key + value)
}

/// A run is written with each of its quantities under the key that names it, and read under
/// the same.
pub proof fn law_a_run_is_written_by_name(r: RunView)
    ensures
        says_under(run_json(r), "\",\n  \"profile_dir\": \""@, r.profile_dir),
        says_under(run_json(r), "\",\n  \"source_id\": \""@, r.source_id),
        says_under(run_json(r), "\",\n  \"out_of_crate_ns\": "@, r.out_of_crate_ns.thousandths),
        says_under(run_json(r), ",\n  \"in_crate_ns\": "@, r.in_crate_ns.thousandths),
        says_under(run_json(r), ",\n  \"boundary_ratio\": "@, r.boundary_ratio.long),
        says_under(run_json(r), ",\n  \"ratio_lo\": "@, r.ratio_lo.long),
        says_under(run_json(r), ",\n  \"ratio_hi\": "@, r.ratio_hi.long),
        says_under(run_json(r), ",\n  \"out_of_crate_spread\": "@, r.out_of_crate_spread.long),
        says_under(run_json(r), ",\n  \"in_crate_spread\": "@, r.in_crate_spread.long),
        says_under(run_json(r), ",\n  \"rounds\": "@, digits(r.rounds as nat)),
        says_under(
            run_json(r),
            ",\n  \"lookups_per_round\": "@,
            digits(r.lookups_per_round as nat),
        ),
{
    let doc = run_json(r);
    let s0 = "{\n  \"schema\": \""@ + SCHEMA@;
    let s1 = s0 + "\",\n  \"profile_dir\": \""@ + r.profile_dir;
    let s2 = s1 + "\",\n  \"source_id\": \""@ + r.source_id;
    let s3 = s2 + "\",\n  \"out_of_crate_ns\": "@ + r.out_of_crate_ns.thousandths;
    let s4 = s3 + ",\n  \"in_crate_ns\": "@ + r.in_crate_ns.thousandths;
    let s5 = s4 + ",\n  \"boundary_ratio\": "@ + r.boundary_ratio.long;
    let s6 = s5 + ",\n  \"ratio_lo\": "@ + r.ratio_lo.long;
    let s7 = s6 + ",\n  \"ratio_hi\": "@ + r.ratio_hi.long;
    let s8 = s7 + ",\n  \"out_of_crate_spread\": "@ + r.out_of_crate_spread.long;
    let s9 = s8 + ",\n  \"in_crate_spread\": "@ + r.in_crate_spread.long;
    let s10 = s9 + ",\n  \"rounds\": "@ + digits(r.rounds as nat);
    let s11 = s10 + ",\n  \"lookups_per_round\": "@ + digits(r.lookups_per_round as nat);
    assert(doc == s11 + "\n}\n"@);
    assert(doc.take(s11.len() as int) =~= s11);
    lemma_written(doc, s10, ",\n  \"lookups_per_round\": "@, digits(r.lookups_per_round as nat));
    lemma_written(doc, s9, ",\n  \"rounds\": "@, digits(r.rounds as nat));
    lemma_written(doc, s8, ",\n  \"in_crate_spread\": "@, r.in_crate_spread.long);
    lemma_written(doc, s7, ",\n  \"out_of_crate_spread\": "@, r.out_of_crate_spread.long);
    lemma_written(doc, s6, ",\n  \"ratio_hi\": "@, r.ratio_hi.long);
    lemma_written(doc, s5, ",\n  \"ratio_lo\": "@, r.ratio_lo.long);
    lemma_written(doc, s4, ",\n  \"boundary_ratio\": "@, r.boundary_ratio.long);
    lemma_written(doc, s3, ",\n  \"in_crate_ns\": "@, r.in_crate_ns.thousandths);
    lemma_written(doc, s2, "\",\n  \"out_of_crate_ns\": "@, r.out_of_crate_ns.thousandths);
    lemma_written(doc, s1, "\",\n  \"source_id\": \""@, r.source_id);
    lemma_written(doc, s0, "\",\n  \"profile_dir\": \""@, r.profile_dir);
}

/// What stands at the end of a beginning of a document is said in it.
proof fn lemma_written(doc: Seq<char>, a: Seq<char>, key: Seq<char>, value: Seq<char>)
    requires
        begins(doc, a + key + value),
    ensures
        says_under(doc, key, value),
        begins(doc, a),
{
    assert(a + key + value =~= a + (key + value));
    lemma_end_of_a_beginning(doc, a, key + value);
}

/// The value of a key is that of the first line which gives it one.
pub proof fn law_the_first_line_counts(ls: Seq<Seq<char>>, key: Seq<char>, k: int)
    requires
        0 <= k <= ls.len(),
        forall|i: int| 0 <= i < k ==> value_on(#[trigger] ls[i], key) is None,
    ensures
        k == ls.len() ==> value_in(ls, key) is None,
        k < ls.len() && value_on(ls[k], key) is Some ==> value_in(ls, key) == value_on(ls[k], key),
    decreases k,
{
    if k > 0 {
        let rest = ls.skip(1);
        assert forall|i: int| 0 <= i < k - 1 implies value_on(#[trigger] rest[i], key) is None by {
            assert(rest[i] == ls[i + 1]);
        }
        assert(value_on(ls[0], key) is None);
        law_the_first_line_counts(rest, key, k - 1);
        if k < ls.len() {
            assert(rest[k - 1] == ls[k]);
        }
    }
}

/// A line `key = value` gives the key that value.
pub proof fn law_a_line_gives_its_value(key: Seq<char>, value: Seq<char>)
    requires
        key.len() > 0,
        !text::is_space(key[0]),
        value.len() > 0,
        !text::is_space(value[0]),
        !text::is_space(value.last()),
    ensures
        value_on(key + " = "@ + value, key) == Some(value),
{
    reveal_strlit(" = ");
    reveal_strlit("=");
    let line = key + " = "@ + value;
    assert(line[0] == key[0] && line.last() == value.last());
    assert(trimmed(line) == line);
    assert(line.take(key.len() as int) =~= key);
    let u = line.skip(key.len() as int);
    assert(u =~= " = "@ + value);
    assert(text::is_space(' ') && !text::is_space('='));
    let x = u.skip(1);
    assert(x[0] == '=' && x.last() == value.last());
    assert(text::trim_start(x) == x);
    assert(text::trim_start(u) == x);
    assert(trimmed(u) == x);
    assert(x.take(1) =~= "="@);
    let y = x.skip(1);
    assert(y[0] == ' ');
    assert(y.skip(1) =~= value);
    assert(text::trim_start(value) == value);
    assert(text::trim_start(y) == value);
    assert(trimmed(y) == value);
}

/// What is reported of a profile is the setting it declares; where it declares none, that of
/// the profile that it inherits from, and what cargo does by default where there is none.
pub proof fn law_lto_is_declared_or_inherited(manifest: Seq<char>, profile: Seq<char>, steps: nat)
    requires
        steps >= 2,
    ensures
        declared(manifest, profile, "lto"@) matches Ok(v) ==> lto_of(manifest, profile, profile, steps)
            == v,
        ({
            let up = declared(manifest, profile, "inherits"@);
            declared(manifest, profile, "lto"@) is Err && declares(manifest, profile) ==> {
                &&& up is Err ==> begins(lto_of(manifest, profile, profile, steps), "false ("@)
                &&& up matches Ok(p) ==> {
                    let parent = stripped_quotes(p);
                    parent != profile ==> (declared(manifest, parent, "lto"@) matches Ok(v)
                        ==> lto_of(manifest, profile, profile, steps) == v
                        + " (inherited from [profile."@ + parent + "])"@)
                }
            }
        }),
        !declares(manifest, profile) ==> begins(
            lto_of(manifest, profile, profile, steps),
            "unknown ("@,
        ),
{
    reveal_strlit("false (");
    reveal_strlit("false (cargo's default; [profile.");
    reveal_strlit("unknown (");
    reveal_strlit("unknown (the workspace manifest has no [profile.");
    law_a_section_is_declared(manifest, profile);
    let r = lto_of(manifest, profile, profile, steps);
    if !declares(manifest, profile) {
        assert(r.take(9) =~= "unknown ("@);
    } else if declared(manifest, profile, "lto"@) is Err && declared(
        manifest,
        profile,
        "inherits"@,
    ) is Err {
        assert(r.take(7) =~= "false ("@);
    } else if declared(manifest, profile, "lto"@) is Err {
        let parent = stripped_quotes(declared(manifest, profile, "inherits"@)->Ok_0);
        assert(r == if parent == profile {
            "unknown ([profile."@ + profile + "] inherits itself)"@
        } else {
            lto_of(manifest, parent, profile, (steps - 1) as nat)
        });
    }
}

/// The verdict as prose gives the ratio first, then the band from its smallest to its largest,
/// and where the limit is passed by how much.
pub proof fn law_a_verdict_is_told_with_its_band(r: RunView, excess: Seq<char>)
    ensures
        ({
            let said = verdict_text(r, excess);
            let v = verdict_of(r.ratio_lo.bits, r.ratio_hi.bits);
            let band = r.ratio_lo.thousandths + "-"@ + r.ratio_hi.thousandths;
            &&& begins(said, r.boundary_ratio.thousandths)
            &&& holds(said, band)
            &&& v is Over ==> holds(said, excess)
        }),
{
    let said = verdict_text(r, excess);
    let m = r.boundary_ratio.thousandths;
    let (lo, hi) = (r.ratio_lo.thousandths, r.ratio_hi.thousandths);
    let band = lo + "-"@ + hi;
    let open = if verdict_of(r.ratio_lo.bits, r.ratio_hi.bits) is Unresolved {
        "x, but the rounds spanned "@
    } else {
        "x (rounds spanned "@
    };
    let a = m + open;
    assert(a + lo + "-"@ + hi =~= a + band);
    assert(said.take((a + band).len() as int) =~= a + band);
    lemma_end_of_a_beginning(said, a, band);
    lemma_end_of_a_beginning(said, m, open);
    if verdict_of(r.ratio_lo.bits, r.ratio_hi.bits) is Over {
        let b = a + lo + "-"@ + hi
            + "), OVER PHASE5 §9.2's 5% gate: a depth-3 lookup called from outside `tf_tree_core` costs "@;
        assert(said.take((b + excess).len() as int) =~= b + excess);
        lemma_end_of_a_beginning(said, b, excess);
    }
}

/// A profile has the name of its directory, but for the one whose directory is named otherwise.
pub proof fn law_the_profile_of_a_directory(dir: Seq<char>)
    ensures
        profile_of_dir("debug"@) == "dev"@,
        dir != "debug"@ ==> profile_of_dir(dir) == dir,
{
}

/// Three of a character open a text exactly where it begins with three of it.
pub proof fn law_three_open_a_text(s: Seq<char>, c: char)
    ensures
        tripled(s, c) <==> begins(s, seq![c, c, c]),
{
    if s.len() >= 3 {
        let t = s.take(3);
        assert(t[0] == s[0] && t[1] == s[1] && t[2] == s[2]);
        if tripled(s, c) {
            assert(t =~= seq![c, c, c]);
        } else {
            assert(t[0] != c || t[1] != c || t[2] != c);
        }
    }
}

} // verus!
