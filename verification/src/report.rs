//! The benchmark artifact: one reproducible report, and the machinery by which it
//! refuses to print a number that it has no right to.
//!
//! If a row cannot be measured fairly it is left out and the report says why.
//! [`Fitness::assess`] judges a host, [`Report::validate`] refuses a report whose
//! rows overclaim, and [`assemble_on`] builds the report from what was measured.

use vstd::prelude::*;

use crate::number::{Number, NumberView};
use crate::text;

pub mod assemble;
pub mod fitness;
pub mod host;
pub mod meaning;
pub mod render;
pub mod soundness;
pub mod validate;
pub mod worse;

pub use assemble::{assemble_on, Options};
pub use fitness::{Fitness, FitnessView};

verus! {

/// Identifier of the `results.json` schema. Bump it on any change that a consumer
/// can see.
pub const SCHEMA: &'static str = "tf_tree.bench-report/2";

/// The command that regenerates the report directory.
pub const REPRODUCE_RECIPE: &'static str = "just bench-report";

/// The rows that a report must hold. A row may be unavailable, but not missing.
pub const REQUIRED_ROWS: [&'static str; 10] = [
    "cpu_per_consumer",
    "total_rss_n_consumers",
    "lookup_latency",
    "publish_to_visible",
    "scaling_curve",
    "tft_16_workers_rss",
    "tft_open_vs_bag_parse",
    "differential_agreement",
    "embedding_cross_crate",
    "lookup_ratio_vs_tf2",
];

/// The topics on which the report must say where `tf_tree` is worse.
pub const REQUIRED_WORSE: [&'static str; 4] = [
    "arena_memory_floor",
    "attach_latency",
    "format_bump_cost",
    "bridge_supervision",
];

/// The facts that the provenance must state, each with a value that is not blank.
pub const REQUIRED_FACTS: [&'static str; 9] = [
    "tf2_version",
    "ros_distro",
    "rmw_implementation",
    "kernel",
    "cpu_model",
    "transparent_hugepage",
    "transparent_hugepage_shmem",
    "dds_qos",
    "executor_config",
];

/// Relative slack on the ratio row: 0.15, as a bit pattern.
pub const RATIO_SLACK: u64 = 0x3fc3_3333_3333_3333;

/// Relative slack on the differential row's deviation: 9.0, so ten times the
/// baseline, as a bit pattern.
pub const DEVIATION_SLACK: u64 = 0x4022_0000_0000_0000;

/// Relative slack on a latency percentile: 0.25, as a bit pattern.
pub const LATENCY_SLACK: u64 = 0x3fd0_0000_0000_0000;

/// Relative slack on the idle arena's resident footprint: 3.0, so the figure may
/// quadruple, as a bit pattern.
pub const RESIDENCY_SLACK: u64 = 0x4008_0000_0000_0000;

/// What was compiled into the binary: the facts that an unavailable row's reason may
/// rest on.
#[derive(Debug, Clone, Copy, PartialEq, Eq, Structural)]
pub struct Build {
    /// Whether `tf2::BufferCore` is linked in.
    pub tf2_linked: bool,
    /// Whether `Tree::open_frozen` and `Tree::freeze_to` exist.
    pub frozen_backend: bool,
}

/// The claim that an unavailable row's reason rests on.
#[derive(Debug, Clone, Copy, PartialEq, Eq, Structural)]
pub enum Ground {
    /// This host cannot give a trustworthy number on the row's own axis.
    HostFitness,
    /// This host has too few cores, and the core budget reaches this row.
    HostCores,
    /// `tf2::BufferCore` is not linked into this binary.
    Tf2NotLinked,
    /// `Tree::open_frozen` is not compiled into this binary.
    FrozenBackendNotCompiled,
    /// The number belongs to another artifact of this repository. Nothing here can
    /// decide it.
    MeasuredElsewhere,
    /// Nothing in this repository measures the quantity. Nothing here can decide it.
    NoInstrument,
    /// The instrument ran and declined to answer. Nothing here can decide it.
    MeasurementRefused,
}

/// Which way a metric may move before it is a regression.
#[derive(Debug, Clone, Copy, PartialEq, Eq, Structural)]
pub enum Drift {
    /// Context, not a claim.
    Informational,
    /// Smaller is better.
    LowerIsBetter,
    /// Larger is better.
    HigherIsBetter,
}

/// What a row's numbers are worth.
#[derive(Debug, Clone, Copy, PartialEq, Eq, Structural)]
pub enum Status {
    /// Measured on a host that is fair for the row. The only status that is a claim.
    Measured,
    /// Measured after the operator overrode the refusal. Not a claim.
    Indicative,
    /// Not measured here.
    Unavailable,
}

/// What kind of host fitness a row's numbers depend on.
#[derive(Debug, Clone, Copy, PartialEq, Eq, Structural)]
pub enum Sensitivity {
    /// The same inputs give the same answer on any host.
    HostIndependent,
    /// An absolute duration.
    AbsoluteTiming,
    /// A ratio between two engines that are interleaved within each round.
    Ratio,
    /// Resident or proportional memory.
    Memory,
}

impl Ground {
    pub open spec fn name(self) -> Seq<char> {
        match self {
            Ground::HostFitness => "host_fitness"@,
            Ground::HostCores => "host_cores"@,
            Ground::Tf2NotLinked => "tf2_not_linked"@,
            Ground::FrozenBackendNotCompiled => "frozen_backend_not_compiled"@,
            Ground::MeasuredElsewhere => "measured_elsewhere"@,
            Ground::NoInstrument => "no_instrument"@,
            Ground::MeasurementRefused => "measurement_refused"@,
        }
    }

    pub open spec fn decider(self) -> Seq<char> {
        match self {
            Ground::HostFitness => "the fitness probe's verdict on this row's sensitivity axis"@,
            Ground::HostCores =>
                "the measured physical-core count, together with this row's own `needs_n_cores` and sensitivity"@,
            Ground::Tf2NotLinked => "cfg!(feature = \"tf2\")"@,
            Ground::FrozenBackendNotCompiled => "cfg!(all(feature = \"shm\", target_os = \"linux\"))"@,
            Ground::MeasuredElsewhere => "nothing here — the recipe it names is checked by a test"@,
            Ground::NoInstrument => "nothing here"@,
            Ground::MeasurementRefused => "nothing here — the run itself"@,
        }
    }

    /// Whether the claim holds, or nothing where nothing here can decide it.
    pub open spec fn verdict(self, build: Build, fitness: FitnessView, row: RowView) -> Option<
        bool,
    > {
        match self {
            Ground::HostFitness => Some(!fitness.fair(row.sensitivity)),
            Ground::HostCores => Some(!fitness.enough_cores && row.core_budget_applies()),
            Ground::Tf2NotLinked => Some(!build.tf2_linked),
            Ground::FrozenBackendNotCompiled => Some(!build.frozen_backend),
            _ => None,
        }
    }

    /// The stable spelling, for refusal messages.
    #[must_use]
    pub fn as_str(self) -> (r: &'static str)
        ensures
            r@ == self.name(),
    {
        match self {
            Ground::HostFitness => "host_fitness",
            Ground::HostCores => "host_cores",
            Ground::Tf2NotLinked => "tf2_not_linked",
            Ground::FrozenBackendNotCompiled => "frozen_backend_not_compiled",
            Ground::MeasuredElsewhere => "measured_elsewhere",
            Ground::NoInstrument => "no_instrument",
            Ground::MeasurementRefused => "measurement_refused",
        }
    }

    /// What decides this ground, for the refusal message.
    #[must_use]
    pub fn decided_by(self) -> (r: &'static str)
        ensures
            r@ == self.decider(),
    {
        match self {
            Ground::HostFitness => "the fitness probe's verdict on this row's sensitivity axis",
            Ground::HostCores =>
                "the measured physical-core count, together with this row's own `needs_n_cores` and sensitivity",
            Ground::Tf2NotLinked => "cfg!(feature = \"tf2\")",
            Ground::FrozenBackendNotCompiled => "cfg!(all(feature = \"shm\", target_os = \"linux\"))",
            Ground::MeasuredElsewhere => "nothing here — the recipe it names is checked by a test",
            Ground::NoInstrument => "nothing here",
            Ground::MeasurementRefused => "nothing here — the run itself",
        }
    }

    /// Whether the claim still holds, or `None` where nothing here can decide it.
    #[must_use]
    pub fn holds(self, build: Build, fitness: &Fitness, row: &Row) -> (r: Option<bool>)
        ensures
            r == self.verdict(build, fitness@, row@),
    {
        match self {
            Ground::HostFitness => Some(!fitness.fair(row.sensitivity)),
            Ground::HostCores => Some(
                !fitness.enough_cores && row.needs_n_cores && row.sensitivity != Sensitivity::Memory,
            ),
            Ground::Tf2NotLinked => Some(!build.tf2_linked),
            Ground::FrozenBackendNotCompiled => Some(!build.frozen_backend),
            Ground::MeasuredElsewhere | Ground::NoInstrument | Ground::MeasurementRefused => None,
        }
    }
}

impl Drift {
    pub open spec fn name(self) -> Seq<char> {
        match self {
            Drift::Informational => "informational"@,
            Drift::LowerIsBetter => "lower_is_better"@,
            Drift::HigherIsBetter => "higher_is_better"@,
        }
    }

    /// The spelling in the artifact.
    #[must_use]
    pub fn as_str(self) -> (r: &'static str)
        ensures
            r@ == self.name(),
    {
        match self {
            Drift::Informational => "informational",
            Drift::LowerIsBetter => "lower_is_better",
            Drift::HigherIsBetter => "higher_is_better",
        }
    }
}

impl Status {
    pub open spec fn name(self) -> Seq<char> {
        match self {
            Status::Measured => "measured"@,
            Status::Indicative => "indicative"@,
            Status::Unavailable => "unavailable"@,
        }
    }

    pub open spec fn loud_name(self) -> Seq<char> {
        match self {
            Status::Measured => "MEASURED"@,
            Status::Indicative => "INDICATIVE"@,
            Status::Unavailable => "UNAVAILABLE"@,
        }
    }

    /// The spelling in the artifact.
    #[must_use]
    pub fn as_str(self) -> (r: &'static str)
        ensures
            r@ == self.name(),
    {
        match self {
            Status::Measured => "measured",
            Status::Indicative => "indicative",
            Status::Unavailable => "unavailable",
        }
    }

    /// The spelling in the artifact, in capitals.
    #[must_use]
    pub fn as_upper(self) -> (r: &'static str)
        ensures
            r@ == self.loud_name(),
    {
        match self {
            Status::Measured => "MEASURED",
            Status::Indicative => "INDICATIVE",
            Status::Unavailable => "UNAVAILABLE",
        }
    }
}

/// One named scalar inside a report cell.
#[derive(Debug, Clone)]
pub struct Metric {
    /// Stable key; part of the schema.
    pub key: &'static str,
    /// The measured value.
    pub value: Number,
    /// Its unit.
    pub unit: &'static str,
    /// Which way it may move before it is a regression.
    pub drift: Drift,
    /// Relative slack of the regression gate; read only where `drift` is directional.
    pub tolerance: Number,
}

pub struct MetricView {
    pub key: Seq<char>,
    pub value: NumberView,
    pub unit: Seq<char>,
    pub drift: Drift,
    pub tolerance: NumberView,
}

impl View for Metric {
    type V = MetricView;

    open spec fn view(&self) -> MetricView {
        MetricView {
            key: self.key@,
            value: self.value@,
            unit: self.unit@,
            drift: self.drift,
            tolerance: self.tolerance@,
        }
    }
}

impl MetricView {
    pub open spec fn directional(self) -> bool {
        self.drift != Drift::Informational
    }

    /// This metric, with growth (or shrinkage) past `tolerance` a regression.
    pub open spec fn toward(self, drift: Drift, tolerance: NumberView) -> MetricView {
        MetricView { drift, tolerance, ..self }
    }
}

/// A metric that is context.
pub open spec fn metric(key: Seq<char>, value: NumberView, unit: Seq<char>) -> MetricView {
    MetricView {
        key,
        value,
        unit,
        drift: Drift::Informational,
        tolerance: crate::number::zero(),
    }
}

impl Metric {
    /// A metric that is context: a wrong direction is worse than none.
    #[must_use]
    pub fn new(key: &'static str, value: Number, unit: &'static str) -> (r: Metric)
        ensures
            r@ == metric(key@, value@, unit@),
    {
        Metric { key, value, unit, drift: Drift::Informational, tolerance: Number::zero() }
    }

    /// Marks growth by more than `tolerance` as a regression.
    #[must_use]
    pub fn lower_is_better(self, tolerance: Number) -> (r: Metric)
        ensures
            r@ == self@.toward(Drift::LowerIsBetter, tolerance@),
    {
        Metric {
            key: self.key,
            value: self.value,
            unit: self.unit,
            drift: Drift::LowerIsBetter,
            tolerance,
        }
    }

    /// Marks shrinkage by more than `tolerance` as a regression.
    #[must_use]
    pub fn higher_is_better(self, tolerance: Number) -> (r: Metric)
        ensures
            r@ == self@.toward(Drift::HigherIsBetter, tolerance@),
    {
        Metric {
            key: self.key,
            value: self.value,
            unit: self.unit,
            drift: Drift::HigherIsBetter,
            tolerance,
        }
    }
}

/// What some metrics stand for.
pub open spec fn metric_views(v: Seq<Metric>) -> Seq<MetricView> {
    v.map_values(|m: Metric| m@)
}

/// One row of the report.
#[derive(Debug, Clone)]
pub struct Row {
    /// Stable id, one of [`REQUIRED_ROWS`].
    pub id: &'static str,
    /// Human title.
    pub title: &'static str,
    /// What the two columns mean for this row.
    pub note: String,
    /// Which host facts its numbers depend on.
    pub sensitivity: Sensitivity,
    /// Whether it runs all the consumers at once.
    pub needs_n_cores: bool,
    /// What its numbers are worth.
    pub status: Status,
    /// Why it is unavailable or indicative.
    pub reason: String,
    /// The claims that the reason rests on.
    pub grounds: Vec<Ground>,
    /// The command that produces it on a host that can.
    pub reproduce: &'static str,
    /// The `tf_tree` column.
    pub tf_tree: Vec<Metric>,
    /// The `tf2` column.
    pub tf2: Vec<Metric>,
}

pub struct RowView {
    pub id: Seq<char>,
    pub title: Seq<char>,
    pub note: Seq<char>,
    pub sensitivity: Sensitivity,
    pub needs_n_cores: bool,
    pub status: Status,
    pub reason: Seq<char>,
    pub grounds: Seq<Ground>,
    pub reproduce: Seq<char>,
    pub tf_tree: Seq<MetricView>,
    pub tf2: Seq<MetricView>,
}

impl View for Row {
    type V = RowView;

    open spec fn view(&self) -> RowView {
        RowView {
            id: self.id@,
            title: self.title@,
            note: self.note@,
            sensitivity: self.sensitivity,
            needs_n_cores: self.needs_n_cores,
            status: self.status,
            reason: self.reason@,
            grounds: self.grounds@,
            reproduce: self.reproduce@,
            tf_tree: metric_views(self.tf_tree@),
            tf2: metric_views(self.tf2@),
        }
    }
}

impl RowView {
    /// The numbers of both columns.
    pub open spec fn metrics(self) -> Seq<MetricView> {
        self.tf_tree + self.tf2
    }

    pub open spec fn prints_numbers(self) -> bool {
        self.status != Status::Unavailable
    }

    /// Whether its numbers are times, or quotients of times.
    pub open spec fn timed(self) -> bool {
        self.sensitivity == Sensitivity::AbsoluteTiming || self.sensitivity == Sensitivity::Ratio
    }

    /// Whether a short core budget reaches it. A memory figure is decided by page
    /// tables, not by who runs.
    pub open spec fn core_budget_applies(self) -> bool {
        self.needs_n_cores && self.sensitivity != Sensitivity::Memory
    }
}

/// An unavailable row, without numbers and without a ground.
pub open spec fn unavailable_row(
    id: Seq<char>,
    title: Seq<char>,
    note: Seq<char>,
    sensitivity: Sensitivity,
    reason: Seq<char>,
    reproduce: Seq<char>,
) -> RowView {
    RowView {
        id,
        title,
        note,
        sensitivity,
        needs_n_cores: false,
        status: Status::Unavailable,
        reason,
        grounds: seq![],
        reproduce,
        tf_tree: seq![],
        tf2: seq![],
    }
}

impl Row {
    /// An unavailable row: reason and reproduction command, no numbers.
    #[must_use]
    pub fn unavailable(
        id: &'static str,
        title: &'static str,
        note: &str,
        sensitivity: Sensitivity,
        reason: String,
        reproduce: &'static str,
    ) -> (r: Row)
        ensures
            r@ == unavailable_row(id@, title@, note@, sensitivity, reason@, reproduce@),
    {
        let r = Row {
            id,
            title,
            note: note.to_owned(),
            sensitivity,
            needs_n_cores: false,
            status: Status::Unavailable,
            reason,
            grounds: Vec::new(),
            reproduce,
            tf_tree: Vec::new(),
            tf2: Vec::new(),
        };
        assert(r@.tf_tree =~= Seq::<MetricView>::empty());
        assert(r@.tf2 =~= Seq::<MetricView>::empty());
        assert(r@.grounds =~= Seq::<Ground>::empty());
        r
    }

    /// States the claims that this row's reason rests on.
    #[must_use]
    pub fn on(self, grounds: &[Ground]) -> (r: Row)
        ensures
            r@ == (RowView { grounds: grounds@, ..self@ }),
    {
        let mut kept: Vec<Ground> = Vec::new();
        let mut i: usize = 0;
        while i < grounds.len()
            invariant
                i <= grounds@.len(),
                kept@ == grounds@.take(i as int),
            decreases grounds@.len() - i,
        {
            kept.push(grounds[i]);
            i = i + 1;
        }
        assert(kept@ =~= grounds@);
        Row { grounds: kept, ..self }
    }

    /// Promotes this row out of [`Status::Unavailable`], dropping the grounds that
    /// explained its absence.
    pub fn measured_as(&mut self, status: Status, reason: String)
        ensures
            final(self)@ == (RowView { status, reason: reason@, grounds: seq![], ..old(self)@ }),
    {
        self.status = status;
        self.reason = reason;
        self.grounds = Vec::new();
        assert(self@.grounds =~= Seq::<Ground>::empty());
    }

    /// Marks the row as running all the consumers at once.
    #[must_use]
    pub fn n_way(self) -> (r: Row)
        ensures
            r@ == (RowView { needs_n_cores: true, ..self@ }),
    {
        Row { needs_n_cores: true, ..self }
    }

    /// Whether this row reports an absolute duration.
    #[must_use]
    pub fn timing_sensitive(&self) -> (r: bool)
        ensures
            r == (self.sensitivity == Sensitivity::AbsoluteTiming),
    {
        self.sensitivity == Sensitivity::AbsoluteTiming
    }

    /// The status that this row should carry on a host; the core budget comes on top.
    #[must_use]
    pub fn status_on(&self, fitness: &Fitness) -> (r: Status)
        ensures
            r == fitness@.status(self.sensitivity),
    {
        Fitness::status_from(fitness.fair(self.sensitivity), fitness.forced)
    }
}

/// What some rows stand for.
pub open spec fn row_views(v: Seq<Row>) -> Seq<RowView> {
    v.map_values(|r: Row| r@)
}

/// One entry on where `tf_tree` is worse.
#[derive(Debug, Clone)]
pub struct Worse {
    /// Stable id, one of [`REQUIRED_WORSE`].
    pub id: &'static str,
    /// The topic.
    pub topic: &'static str,
    /// What is worse, stated plainly enough to be quoted.
    pub statement: String,
    /// Numbers, where the cost is measurable.
    pub metrics: Vec<Metric>,
    /// Why there are no numbers: required where there are none, forbidden beside some.
    pub metrics_absent_because: Option<String>,
    /// Metric keys that this entry left out on purpose.
    pub metrics_withheld: Vec<&'static str>,
}

pub struct WorseView {
    pub id: Seq<char>,
    pub topic: Seq<char>,
    pub statement: Seq<char>,
    pub metrics: Seq<MetricView>,
    pub metrics_absent_because: Option<Seq<char>>,
    pub metrics_withheld: Seq<Seq<char>>,
}

pub open spec fn text_of(s: Option<String>) -> Option<Seq<char>> {
    match s {
        Some(t) => Some(t@),
        None => None,
    }
}

impl View for Worse {
    type V = WorseView;

    open spec fn view(&self) -> WorseView {
        WorseView {
            id: self.id@,
            topic: self.topic@,
            statement: self.statement@,
            metrics: metric_views(self.metrics@),
            metrics_absent_because: text_of(self.metrics_absent_because),
            metrics_withheld: self.metrics_withheld@.map_values(|s: &'static str| s@),
        }
    }
}

/// What some entries stand for.
pub open spec fn worse_views(v: Seq<Worse>) -> Seq<WorseView> {
    v.map_values(|w: Worse| w@)
}

/// A fact about the environment in which the report was produced.
#[derive(Debug, Clone)]
pub struct Fact {
    /// Stable key; part of the schema.
    pub key: &'static str,
    /// The value, or an explicit spelling of its absence.
    pub value: String,
}

pub struct FactView {
    pub key: Seq<char>,
    pub value: Seq<char>,
}

impl View for Fact {
    type V = FactView;

    open spec fn view(&self) -> FactView {
        FactView { key: self.key@, value: self.value@ }
    }
}

/// What some facts stand for.
pub open spec fn fact_views(v: Seq<Fact>) -> Seq<FactView> {
    v.map_values(|f: Fact| f@)
}

/// Where a report came from: facts, in the order in which they are printed.
#[derive(Debug, Clone)]
pub struct Provenance {
    pub facts: Vec<Fact>,
}

impl View for Provenance {
    type V = Seq<FactView>;

    open spec fn view(&self) -> Seq<FactView> {
        fact_views(self.facts@)
    }
}

/// The value of the first fact with a given key.
pub open spec fn lookup(facts: Seq<FactView>, key: Seq<char>) -> Option<Seq<char>>
    decreases facts.len(),
{
    if facts.len() == 0 {
        None
    } else if facts[0].key == key {
        Some(facts[0].value)
    } else {
        lookup(facts.skip(1), key)
    }
}

impl Provenance {
    /// Looks a fact up by key.
    #[must_use]
    pub fn get(&self, key: &str) -> (r: Option<&str>)
        ensures
            match r {
                Some(v) => lookup(self@, key@) == Some(v@),
                None => lookup(self@, key@) is None,
            },
    {
        let mut i: usize = 0;
        assert(self@.skip(0) =~= self@);
        while i < self.facts.len()
            invariant
                i <= self.facts@.len(),
                lookup(self@.skip(i as int), key@) == lookup(self@, key@),
            decreases self.facts@.len() - i,
        {
            assert(self@.skip(i as int)[0] == self.facts@[i as int]@);
            assert(self@.skip(i as int).skip(1) =~= self@.skip(i + 1));
            if text::same(self.facts[i].key, key) {
                return Some(self.facts[i].value.as_str());
            }
            i = i + 1;
        }
        None
    }
}

/// The whole artifact.
#[derive(Debug, Clone)]
pub struct Report {
    /// Environment description.
    pub provenance: Provenance,
    /// What was compiled in.
    pub build: Build,
    /// The verdict on the host, and why.
    pub fitness: Fitness,
    /// Seconds of warm-up discarded before any timing row.
    pub warmup_discarded_s: Number,
    /// The rows.
    pub rows: Vec<Row>,
    /// Where `tf_tree` is worse.
    pub worse: Vec<Worse>,
}

pub struct ReportView {
    pub provenance: Seq<FactView>,
    pub build: Build,
    pub fitness: FitnessView,
    pub warmup: NumberView,
    pub rows: Seq<RowView>,
    pub worse: Seq<WorseView>,
}

impl View for Report {
    type V = ReportView;

    open spec fn view(&self) -> ReportView {
        ReportView {
            provenance: self.provenance@,
            build: self.build,
            fitness: self.fitness@,
            warmup: self.warmup_discarded_s@,
            rows: row_views(self.rows@),
            worse: worse_views(self.worse@),
        }
    }
}

/// A metric is context until it is given a direction, which changes nothing else of it.
pub proof fn law_a_metric_is_context_first(
    key: Seq<char>,
    value: NumberView,
    unit: Seq<char>,
    drift: Drift,
    tolerance: NumberView,
)
    ensures
        ({
            let m = metric(key, value, unit);
            let d = m.toward(drift, tolerance);
            &&& m.key == key && m.value == value && m.unit == unit
            &&& m.drift is Informational
            &&& m.tolerance.bits == 0
            &&& d.key == key && d.value == value && d.unit == unit
            &&& d.drift == drift
            &&& d.tolerance == tolerance
            &&& d.directional() <==> drift is LowerIsBetter || drift is HigherIsBetter
        }),
{
}

/// A row that is unavailable prints no number, and says why and how to get one.
pub proof fn law_an_unavailable_row_prints_nothing(
    id: Seq<char>,
    title: Seq<char>,
    note: Seq<char>,
    sensitivity: Sensitivity,
    reason: Seq<char>,
    reproduce: Seq<char>,
)
    ensures
        ({
            let r = unavailable_row(id, title, note, sensitivity, reason, reproduce);
            &&& r.id == id && r.title == title && r.note == note
            &&& r.sensitivity == sensitivity
            &&& r.reason == reason && r.reproduce == reproduce
            &&& r.status is Unavailable
            &&& r.tf_tree.len() == 0 && r.tf2.len() == 0 && r.grounds.len() == 0
            &&& !r.needs_n_cores && !r.prints_numbers()
        }),
{
}

/// What a row is worth, which way a metric may move and what a reason rests on each have a word
/// of their own.
pub proof fn law_the_words_of_a_report()
    ensures
        Status::Measured.name() == "measured"@,
        Status::Indicative.name() == "indicative"@,
        Status::Unavailable.name() == "unavailable"@,
        Status::Measured.loud_name() == "MEASURED"@,
        Status::Indicative.loud_name() == "INDICATIVE"@,
        Status::Unavailable.loud_name() == "UNAVAILABLE"@,
        Drift::Informational.name() == "informational"@,
        Drift::LowerIsBetter.name() == "lower_is_better"@,
        Drift::HigherIsBetter.name() == "higher_is_better"@,
        Ground::HostFitness.name() == "host_fitness"@,
        Ground::HostCores.name() == "host_cores"@,
        Ground::Tf2NotLinked.name() == "tf2_not_linked"@,
        Ground::FrozenBackendNotCompiled.name() == "frozen_backend_not_compiled"@,
        Ground::MeasuredElsewhere.name() == "measured_elsewhere"@,
        Ground::NoInstrument.name() == "no_instrument"@,
        Ground::MeasurementRefused.name() == "measurement_refused"@,
{
}

} // verus!
