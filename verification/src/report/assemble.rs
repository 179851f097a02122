//! The report of a host, from what was measured on it.

use vstd::prelude::*;

use super::fitness::FitnessView;
use super::worse::{entries, worse_entries, Arena, ArenaView};
use super::{
    metric, metric_views, unavailable_row, Build, Drift, FactView, Fitness, Ground, Metric,
    MetricView, Provenance, Report, ReportView, Row, RowView, Sensitivity, Status, DEVIATION_SLACK,
    LATENCY_SLACK, RATIO_SLACK,
};
use crate::differential::passes;
use crate::embed::{self, Pair, RunView};
use crate::number::{number, Number, NumberView};
use crate::ratio;
use crate::text::{self, decimal, digits, joined, lemma_texts_push, texts};

verus! {

// ---------------------------------------------------------------------------
// What a report is assembled from
// ---------------------------------------------------------------------------

/// What the artifact was asked to hold.
#[derive(Debug, Clone)]
pub struct Options {
    /// How many consumers the comparison is about.
    pub consumers: usize,
    /// Warm-up discarded before any timing row, in nanoseconds.
    pub warmup_ns: u64,
    /// Lookups of the latency row.
    pub lookup_samples: usize,
    /// Queries of the differential row.
    pub differential_queries: usize,
    /// The directory of the two embedding runs, where there are any.
    pub embed_cost: Option<String>,
}

impl Default for Options {
    fn default() -> (r: Options)
        ensures
            r.consumers == 16,
            r.warmup_ns == 2_000_000_000,
            r.lookup_samples == 200_000,
            r.differential_queries == 50_000,
            r.embed_cost is None,
    {
        Options {
            consumers: 16,
            warmup_ns: 2_000_000_000,
            lookup_samples: 200_000,
            differential_queries: 50_000,
            embed_cost: None,
        }
    }
}

/// What timing a hot lookup gave.
pub struct Lookup {
    pub p50: Number,
    pub p99: Number,
    pub p999: Number,
    pub samples: Number,
    /// The clock's own cost.
    pub clock_p50: Number,
}

pub struct LookupView {
    pub p50: NumberView,
    pub p99: NumberView,
    pub p999: NumberView,
    pub samples: NumberView,
    pub clock_p50: NumberView,
}

impl View for Lookup {
    type V = LookupView;

    open spec fn view(&self) -> LookupView {
        LookupView {
            p50: self.p50@,
            p99: self.p99@,
            p999: self.p999@,
            samples: self.samples@,
            clock_p50: self.clock_p50@,
        }
    }
}

/// What a differential run gave.
pub struct Agreement {
    pub compared: usize,
    /// `compared` as a double.
    pub compared_number: Number,
    pub max_error: Number,
    pub tolerance: Number,
}

pub struct AgreementView {
    pub compared: usize,
    pub compared_number: NumberView,
    pub max_error: NumberView,
    pub tolerance: NumberView,
}

impl View for Agreement {
    type V = AgreementView;

    open spec fn view(&self) -> AgreementView {
        AgreementView {
            compared: self.compared,
            compared_number: self.compared_number@,
            max_error: self.max_error@,
            tolerance: self.tolerance@,
        }
    }
}

/// The embedding pair, with what its row prints of it.
pub struct Embedding {
    pub pair: Pair,
    /// By how many percent the embedder's boundary ratio is past one.
    pub excess_percent: String,
    /// The embedder's lookups per round, as a double.
    pub lookups: Number,
}

pub struct EmbeddingView {
    pub run: RunView,
    pub reference: RunView,
    pub excess_percent: Seq<char>,
    pub lookups: NumberView,
}

impl View for Embedding {
    type V = EmbeddingView;

    open spec fn view(&self) -> EmbeddingView {
        EmbeddingView {
            run: self.pair.embedder@,
            reference: self.pair.reference@,
            excess_percent: self.excess_percent@,
            lookups: self.lookups@,
        }
    }
}

/// The paired ratio, with what its row prints of it.
pub struct Paired {
    pub run: ratio::Run,
    /// The width of its band, in percent.
    pub spread_percent: String,
    /// The agreed queries, as a double.
    pub agreed: Number,
}

pub struct PairedView {
    pub run: ratio::RunView,
    pub spread_percent: Seq<char>,
    pub agreed: NumberView,
}

impl View for Paired {
    type V = PairedView;

    open spec fn view(&self) -> PairedView {
        PairedView {
            run: self.run@,
            spread_percent: self.spread_percent@,
            agreed: self.agreed@,
        }
    }
}

/// Everything that was measured. A measurement that could not be taken is an error text,
/// and matters only to a row that would print it.
pub struct Measured {
    pub lookup: Result<Lookup, String>,
    /// Against the independent reference.
    pub naive: Result<Agreement, String>,
    /// Against `tf2::BufferCore`; read only where that is linked.
    pub tf2: Result<Agreement, String>,
    /// The embedding pair; read only where a directory of one was given.
    pub embedding: Result<Embedding, String>,
    /// The paired ratio; read only where `tf2::BufferCore` is linked.
    pub paired: Result<Paired, String>,
    pub arena: Arena,
    pub provenance: Provenance,
    /// The discarded warm-up, in seconds.
    pub warmup_s: Number,
}

/// What a measurement that may have failed stands for.
pub open spec fn seen<T: View>(r: Result<T, String>) -> Result<T::V, Seq<char>> {
    match r {
        Ok(x) => Ok(x@),
        Err(e) => Err(e@),
    }
}

pub open spec fn seen_option<T: View>(x: Option<T>) -> Option<T::V> {
    match x {
        Some(v) => Some(v@),
        None => None,
    }
}

pub struct MeasuredView {
    pub lookup: Result<LookupView, Seq<char>>,
    pub naive: Result<AgreementView, Seq<char>>,
    pub tf2: Result<AgreementView, Seq<char>>,
    pub embedding: Result<EmbeddingView, Seq<char>>,
    pub paired: Result<PairedView, Seq<char>>,
    pub arena: ArenaView,
    pub provenance: Seq<FactView>,
    pub warmup_s: NumberView,
}

impl View for Measured {
    type V = MeasuredView;

    open spec fn view(&self) -> MeasuredView {
        MeasuredView {
            lookup: seen(self.lookup),
            naive: seen(self.naive),
            tf2: seen(self.tf2),
            embedding: seen(self.embedding),
            paired: seen(self.paired),
            arena: self.arena@,
            provenance: self.provenance@,
            warmup_s: self.warmup_s@,
        }
    }
}

// ---------------------------------------------------------------------------
// The rows that need all the consumers at once
// ---------------------------------------------------------------------------

pub const NO_ENGINE: &'static str =
    "this build links no second engine: there is no ROS 2 in this build or environment, so the tf2 column cannot be measured at all";

/// Why a row of `consumers` consumers is not measured here, part by part. That this is a
/// single process is always the first; the others are the host's obstacles.
pub open spec fn host_parts(
    consumers: usize,
    f: FitnessView,
    build: Build,
    ros: bool,
) -> Seq<Seq<char>> {
    seq![
        "this tool is a single process: it stands up none of the "@ + digits(consumers as nat)
            + " consumers this row compares, so the row is not measured here on any host — the command below is what measures it"@,
    ] + (if no_ros(build, ros) {
        seq![NO_ENGINE@]
    } else {
        seq![]
    }) + (match f.core_reason {
        Some(c) => seq!["the host also has "@ + c],
        None => seq![],
    }) + (if f.fair_for_timing {
        seq![]
    } else {
        seq![f.reason_line()]
    })
}

/// Neither the build nor the environment has a ROS 2.
pub open spec fn no_ros(build: Build, ros: bool) -> bool {
    !ros && !build.tf2_linked
}

/// The host's obstacles as grounds, one beside each part.
pub open spec fn host_grounds(f: FitnessView, build: Build, ros: bool) -> Seq<Ground> {
    (if no_ros(build, ros) {
        seq![Ground::Tf2NotLinked]
    } else {
        seq![]
    }) + (if f.core_reason is Some {
        seq![Ground::HostCores]
    } else {
        seq![]
    }) + (if f.fair_for_timing {
        seq![]
    } else {
        seq![Ground::HostFitness]
    })
}

pub open spec fn host_reason(
    consumers: usize,
    f: FitnessView,
    build: Build,
    ros: bool,
) -> Seq<char> {
    joined(host_parts(consumers, f, build, ros), "; "@)
}

/// A row that runs all the consumers at once.
pub open spec fn n_way(row: RowView, grounds: Seq<Ground>) -> RowView {
    RowView { needs_n_cores: true, grounds, ..row }
}

pub open spec fn cpu_row(reason: Seq<char>, grounds: Seq<Ground>) -> RowView {
    n_way(
        unavailable_row(
            "cpu_per_consumer"@,
            "CPU per consumer at steady state (%CPU)"@,
            "Both stacks, N consumers plus one publisher, steady state."@,
            Sensitivity::AbsoluteTiming,
            reason,
            CPU_COMMAND@,
        ),
        seq![Ground::MeasuredElsewhere] + grounds,
    )
}

pub const CPU_COMMAND: &'static str =
    "just mp-bench (tf_tree) / just mp-bench-tf2 (both, in the ROS container)";

pub const RSS_REASON: &'static str =
    "row sums Pss across N consumer processes, and `bench_report` is one process — it stands up no consumers and has none to weigh. `just mp-bench-tf2` runs both stacks as processes and prints Pss for each; `just dds-bench` does the same over a real DDS. A one-sided memory row is exactly the thumb on the scale §9.3 warns about, so it is a gap rather than a half-filled row";

pub const RSS_NO_TF2: &'static str =
    ". The tf2 column additionally needs a ROS 2 install this build does not have: `tf_tree_bench` was compiled without `--features tf2`";

pub const RSS_NOTE: &'static str =
    "Both stacks, summed Pss from /proc/*/smaps_rollup. Memory is exact even on a loaded machine, so this row's gap is the process count, not the host.";

pub const RSS_COMMAND: &'static str = "just mp-bench-tf2";

pub open spec fn rss_row(build: Build) -> RowView {
    n_way(
        unavailable_row(
            "total_rss_n_consumers"@,
            "Total RSS across N consumers (MB)"@,
            RSS_NOTE@,
            Sensitivity::Memory,
            "this "@ + RSS_REASON@ + (if build.tf2_linked {
                seq![]
            } else {
                RSS_NO_TF2@
            }),
            RSS_COMMAND@,
        ),
        seq![Ground::MeasuredElsewhere] + (if build.tf2_linked {
            seq![]
        } else {
            seq![Ground::Tf2NotLinked]
        }),
    )
}

pub const VISIBLE_GAP: &'static str =
    ". There is a further gap, and it is not the one this reason used to name: nothing in this repository times publish-to-visible end to end. `just dds-bench` is a real DDS round trip — one publisher, N tf2_ros listeners, §5.2's QoS — but `dds_report` reports `svc`, the engine call itself, so its number answers a different question";

pub const VISIBLE_NO_SHM: &'static str =
    ". A cross-process publish additionally goes through the shared-memory backend, and this binary was compiled without `--features shm`";

pub const VISIBLE_COMMAND: &'static str =
    "just mp-bench (tf_tree, service latency) / just mp-bench-tf2";

pub open spec fn visible_row(reason: Seq<char>, grounds: Seq<Ground>, build: Build) -> RowView {
    n_way(
        unavailable_row(
            "publish_to_visible"@,
            "Publish -> visible-to-consumer (p50, p99.9)"@,
            "Both stacks, publisher process to consumer process."@,
            Sensitivity::AbsoluteTiming,
            reason + VISIBLE_GAP@ + (if build.frozen_backend {
                seq![]
            } else {
                VISIBLE_NO_SHM@
            }),
            VISIBLE_COMMAND@,
        ),
        seq![Ground::NoInstrument] + grounds + (if build.frozen_backend {
            seq![]
        } else {
            seq![Ground::FrozenBackendNotCompiled]
        }),
    )
}

pub const BENT_CURVE: &'static str =
    ". That a short host produces a bent curve rather than a slow one is not a guess: `docs/PHASE1.md` §11.3's read-scaling gate (>= 6x from 1 to 8 threads) is recorded in `docs/PHASE5.md` §0.0 as FAILING at 5.35-5.62x on the 4-physical-core development host, which is what an oversubscribed 8-thread row looks like";

pub const SCALING_COMMAND: &'static str =
    "just tf2-scaling / just shm-scaling, on >= 16 physical cores";

pub open spec fn scaling_row(reason: Seq<char>, grounds: Seq<Ground>, short: bool) -> RowView {
    n_way(
        unavailable_row(
            "scaling_curve"@,
            "Scaling curve, N = 1..16 (throughput, CPU)"@,
            "Both stacks. The claim under test is that reads scale with threads."@,
            Sensitivity::AbsoluteTiming,
            reason + (if short {
                BENT_CURVE@
            } else {
                seq![]
            }),
            SCALING_COMMAND@,
        ),
        seq![Ground::MeasuredElsewhere] + grounds,
    )
}

// ---------------------------------------------------------------------------
// The frozen rows
// ---------------------------------------------------------------------------

pub const FROZEN_ELSEWHERE: &'static str =
    " is not done inside this process: `bench_report` is one process and maps no .tft. It is done elsewhere, on an index frozen at §12 gate 2's 233 MB scale rather than at a fixture's. Run it with `";

pub const FROZEN_NOT_COMPILED: &'static str =
    " needs `tf_tree`'s frozen backend, which is `#[cfg(all(feature = \"shm\", target_os = \"linux\"))]` and is therefore not compiled into this binary — `just bench-report` builds without `--features shm`. There is no `Tree::open_frozen` here to call";

/// Why the two rows about frozen recordings are unavailable.
pub open spec fn frozen_reason(build: Build, attempt: Seq<char>, recipe: Seq<char>) -> Seq<char> {
    if build.frozen_backend {
        attempt + FROZEN_ELSEWHERE@ + recipe + "`"@
    } else {
        attempt + FROZEN_NOT_COMPILED@
    }
}

pub open spec fn frozen_ground(build: Build) -> Ground {
    if build.frozen_backend {
        Ground::MeasuredElsewhere
    } else {
        Ground::FrozenBackendNotCompiled
    }
}

pub const WORKERS_COMMAND: &'static str =
    "just gate4 (the Rust worker, which is what §12 criterion 4 is stated over; `just gate4-python` reports the same measurement with a CPython worker and does not gate)";

pub open spec fn workers_row(build: Build) -> RowView {
    n_way(
        unavailable_row(
            "tft_16_workers_rss"@,
            "Frozen .tft: 16 dataloader workers, total RSS vs 16 bag parses (MB)"@,
            "The wedge's central claim (§12 gate 4: total Pss within 1.2x of one worker)."@,
            Sensitivity::Memory,
            frozen_reason(build, "mapping one .tft from sixteen worker processes"@, "just gate4"@),
            WORKERS_COMMAND@,
        ),
        seq![frozen_ground(build)],
    )
}

pub const OPEN_GAP: &'static str =
    ". The comparison itself is what is missing: the open time and an ingest time both have recipes, but no artifact holds them over one recording — the gated `.tft` is frozen from a generated fleet and was never a bag — so there is still nothing to divide the open time by";

pub const OPEN_COMMAND: &'static str =
    "just bench-report-shm against a .tft built by `tf_tree freeze --from-bag` from a recording large enough to produce §12 gate 2's 233 MB index";

pub open spec fn open_row(build: Build) -> RowView {
    RowView {
        grounds: seq![frozen_ground(build), Ground::NoInstrument],
        ..unavailable_row(
            "tft_open_vs_bag_parse"@,
            ".tft open time vs bag parse time (ms)"@,
            "§12 gate 2 wants open under 10 ms for a 233 MB index."@,
            Sensitivity::AbsoluteTiming,
            frozen_reason(build, "timing `Tree::open_frozen` against a 233 MB index"@, "just gate2"@)
                + OPEN_GAP@,
            OPEN_COMMAND@,
        )
    }
}

// ---------------------------------------------------------------------------
// The rows that this process measures
// ---------------------------------------------------------------------------

pub open spec fn latency_slack() -> NumberView {
    number(LATENCY_SLACK, "0.25"@, "0"@, "0.2"@, "0.250"@, "0.25000"@, "2.5000e-1"@)
}

pub open spec fn lookup_metrics(l: LookupView) -> Seq<MetricView> {
    seq![
        metric("p50_ns"@, l.p50, "ns"@).toward(Drift::LowerIsBetter, latency_slack()),
        metric("p99_ns"@, l.p99, "ns"@).toward(Drift::LowerIsBetter, latency_slack()),
        metric("p999_ns"@, l.p999, "ns"@).toward(Drift::LowerIsBetter, latency_slack()),
        metric("samples"@, l.samples, "lookups"@),
        metric("clock_overhead_p50_ns"@, l.clock_p50, "ns"@),
    ]
}

pub const LOOKUP_NOTE: &'static str =
    "tf_tree column: `map <- imu_link`, LerpSlerp, in-process, one thread. **3 dynamic steps** after constant folding (1 kHz, 200 Hz, 50 Hz), which is what docs/PHASE1.md §11.3's NORMATIVE reading of \"depth 3\" means. The query stamp is fixture::QUERY_NS = NOW_NS - 500 us, which is off-grid on every one of those three rates, so the interpolator runs on every step; it was on-grid until docs/decisions/0013, and a p50 published before that change is not comparable with one published after. Percentiles include two Instant::now() calls, whose own cost is reported alongside as clock_overhead_p50_ns. The tf2 column is a separate, cross-engine comparison and is not attempted here.";

pub const LOOKUP_COMMAND: &'static str =
    "cargo bench -p tf_tree_bench --bench lookup (or this tool on a quiet, non-SMT, performance-governor host)";

pub const HOST_BETWEEN: &'static str =
    "row is single-threaded and in-process, so the only thing between it and a number is the host, and the host failed the fitness probe: ";

pub const INDICATIVE: &'static str =
    "INDICATIVE, not a claim: TF_TREE_BENCH_FORCE=1 overrode the fitness refusal. ";

/// What an indicative row says of itself.
pub open spec fn indicative(status: Status, why: Seq<char>) -> Seq<char> {
    if status == Status::Indicative {
        INDICATIVE@ + why
    } else {
        seq![]
    }
}

/// A row with its numbers, and without an excuse.
pub open spec fn measured(
    row: RowView,
    status: Status,
    reason: Seq<char>,
    tf_tree: Seq<MetricView>,
    tf2: Seq<MetricView>,
) -> RowView {
    RowView { status, reason, grounds: seq![], tf_tree, tf2, ..row }
}

pub open spec fn lookup_gap(f: FitnessView) -> RowView {
    RowView {
        grounds: seq![Ground::HostFitness],
        ..unavailable_row(
            "lookup_latency"@,
            "Lookup latency, depth 3, hot path (p50, p99, p99.9)"@,
            LOOKUP_NOTE@,
            Sensitivity::AbsoluteTiming,
            "this "@ + HOST_BETWEEN@ + f.reason_line(),
            LOOKUP_COMMAND@,
        )
    }
}

pub open spec fn lookup_row(f: FitnessView, l: Result<LookupView, Seq<char>>) -> Result<
    RowView,
    Seq<char>,
> {
    let status = f.status(Sensitivity::AbsoluteTiming);
    if status == Status::Unavailable {
        Ok(lookup_gap(f))
    } else {
        match l {
            Err(e) => Err(e),
            Ok(x) => Ok(
                measured(
                    lookup_gap(f),
                    status,
                    indicative(status, f.reason_line()),
                    lookup_metrics(x),
                    seq![],
                ),
            ),
        }
    }
}

pub open spec fn deviation_slack() -> NumberView {
    number(DEVIATION_SLACK, "9"@, "9"@, "9.0"@, "9.000"@, "9.00000"@, "9.0000e0"@)
}

pub open spec fn agreement_metrics(a: AgreementView) -> Seq<MetricView> {
    seq![
        metric("max_deviation"@, a.max_error, "rad or m"@).toward(
            Drift::LowerIsBetter,
            deviation_slack(),
        ),
        metric("compared"@, a.compared_number, "queries"@),
        metric("tolerance"@, a.tolerance, "rad or m"@),
    ]
}

pub const AGREEMENT_NOTE: &'static str =
    "tf_tree column: against the independent naive-Rust reference model. tf2 column: against tf2::BufferCore. Deviation is max(rotation-angle error in rad, translation error in m), so a quaternion sign flip cannot pass. Not timing sensitive: the same inputs give the same disagreement on any host.";

pub const AGREEMENT_COMMAND: &'static str =
    "cargo test -p tf_tree_bench --release --test differential";

pub open spec fn agreement_row(naive: AgreementView, tf2: Option<AgreementView>) -> RowView {
    RowView {
        status: Status::Measured,
        tf_tree: agreement_metrics(naive),
        tf2: match tf2 {
            Some(a) => agreement_metrics(a),
            None => seq![],
        },
        ..unavailable_row(
            "differential_agreement"@,
            "Differential agreement (LerpSlerp), max deviation"@,
            AGREEMENT_NOTE@,
            Sensitivity::HostIndependent,
            seq![],
            AGREEMENT_COMMAND@,
        )
    }
}

pub open spec fn agrees(a: AgreementView) -> bool {
    passes(a.compared, a.max_error.bits, a.tolerance.bits)
}

pub open spec fn disagreement(engine: Seq<char>, a: AgreementView) -> Seq<char> {
    engine + " differential did not pass ("@ + digits(a.compared as nat)
        + " queries scored, max error "@ + a.max_error.plain + ")"@
}

pub const EMBEDDING_NOTE: &'static str =
    "One build, one profile, two identical bodies. `out_of_crate_ns` times an `#[inline(never)]` depth-3 lookup compiled in `tf_tree_bench` — an embedder's position; `in_crate_ns` times the same three lines compiled in `tf_tree_core`, the crate that defines `Plan::at` and the fold. `boundary_ratio` is the median per-round quotient, paired so that machine noise common to both columns cancels. The profile is `[profile.embedder]` (lto = false, codegen-units = 16 — cargo's `--release` defaults), which §9.2 requires: under this workspace's `lto = \"thin\"` the crate boundary is erased at link time and the comparison measures nothing. Depth 3, LerpSlerp, off-grid stamps so the interpolation actually runs. A probe in the `tf_tree` facade would NOT be in-crate and was measured not to be (241.5 vs 243.6 ns); `crates/tf_tree_bench/src/embed.rs` carries that table. There is no tf2 column: this row is `tf_tree` against itself.";

pub const EMBEDDING_COMMAND: &'static str = "just embed-cost";

pub const NO_PAIR: &'static str =
    "row's in-crate column is `tf_tree_core::bench_probe`, which is compiled only under the default-off `bench-probe` feature, and it must be measured at `[profile.embedder]` — this tool is built with `lto = \"thin\"`, which is exactly what erases the boundary. It cannot measure the row from inside itself. `just embed-cost` builds and runs the probe and writes the pair, and both `just bench-check` and `just bench-baseline-update` depend on that recipe and pass the directory back in with --embed-cost. Reaching this branch means `bench_report` was invoked directly without the flag, so the row is reported without a number rather than left out";

pub const HALF_A_CLAIM: &'static str =
    "pair was measured, but the host failed the fitness probe, so neither half of the ratio is a claim: ";

pub open spec fn embedding_gap(reason: Seq<char>, ground: Ground) -> RowView {
    RowView {
        grounds: seq![ground],
        ..unavailable_row(
            "embedding_cross_crate"@,
            "Facade Plan::at from a separate crate vs in-crate, depth 3 (ratio)"@,
            EMBEDDING_NOTE@,
            Sensitivity::AbsoluteTiming,
            reason,
            EMBEDDING_COMMAND@,
        )
    }
}

pub open spec fn embedding_view(f: FitnessView, e: Option<EmbeddingView>) -> RowView {
    match e {
        None => embedding_gap("this "@ + NO_PAIR@, Ground::MeasuredElsewhere),
        Some(x) => {
            let line = embed::verdict_text(x.run, x.excess_percent);
            let status = f.status(Sensitivity::AbsoluteTiming);
            let gap = embedding_gap("the "@ + HALF_A_CLAIM@ + f.reason_line(), Ground::HostFitness);
            if embed::verdict_of(x.run.ratio_lo.bits, x.run.ratio_hi.bits)
                == embed::Verdict::Unresolved {
                embedding_gap(
                    "the pair was measured and cannot resolve §9.2's 5% criterion: "@ + line,
                    Ground::MeasurementRefused,
                )
            } else if status == Status::Unavailable {
                gap
            } else {
                measured(
                    gap,
                    status,
                    indicative(status, f.reason_line() + " Measured here: "@ + line),
                    embed::run_metrics(x.run, x.lookups),
                    seq![],
                )
            }
        },
    }
}

pub const RATIO_NOTE: &'static str =
    "Both engines in one process, `LerpSlerp` on both sides (tf2's policy), depth 3 after constant folding, 256 off-grid stamps. `speedup_vs_tf2` is the MEDIAN PER-ROUND quotient, not the quotient of the two medians: the arms are timed back to back inside every round and the leading arm alternates, so drift common to both cancels and no arm always gets the colder cache. That pairing is what makes this resolvable where an absolute is not. The two engines are checked to agree on every stamp before either is timed. **The tf2 column goes through `tf_tree_tf2_sys` and therefore FLATTERS tf_tree** by the residual FFI boundary, 45.3 ns / 10% at this depth (498.2 ns through the binding against 452.9 ns native — this figure used to read `~21 ns / 8%` here, which `docs/benchmarks/tf2.md` withdrew for having no derivation); the binding-free comparison is `docker/tf2/native_scaling.cpp` and its headline is 2.7x. The floor is set well under both for that reason: this row catches an engine regression, it does not publish the headline. **The floor speaks for the build in this report's `build_profile` / `build_lto` provenance fields, and `just tf2-bench-check` sets those to `release` / `\"thin\"` — NOT to what a consumer compiles, which is cargo's release defaults (no LTO) and measures 244 ns rather than 202 on this arm, a paired 2.07x rather than 2.49x. `just tf2-ratio-profiles` is that measurement.** That build is not a hypothetical and not an approximation: `[profile.*]` is honoured only in a workspace root, and the published crates declare none, so `cargo add tf_tree` AND `cargo install tf_tree_cli` both get `lto = false, codegen-units = 16` — `[profile.embedder]` on both knobs. **The 2.49x is reachable only by building inside this repository.** `docs/decisions/0025` is why there is nevertheless no second gated row for it, and the reason is a measurement rather than a preference: across three repeats the consumer median is stable (2.047-2.088) but its BAND STRADDLES THE FLOOR in two of the three, so `ratio.rs` returns `Unresolved` there. A threshold cannot be derived from a band that contains it, and one chosen low enough to pass would be a gate that always passes — worse than no gate, because it reads as evidence. With the binding bias above removed as well the consumer estimate is ~1.80x, under the floor; that is `UNBIASED_ESTIMATE_DEFAULT_RELEASE`, it is `pub` so a reader can reach it, and `ratio.rs`'s FLOOR doc comment is why it does not move the constant. `ns_per_lookup` on either side is REPORTED, NEVER GATED — it is an absolute duration and this host cannot claim one. Single-threaded and uncontended, which is both engines' best case; the contended comparison, where tf2 anti-scales, is `just tf2-scaling`.";

pub const RATIO_COMMAND: &'static str =
    "just tf2-bench (the ratio resolves only where ROS 2 is installed; `docker/tf2/run.sh` is that place on this host)";

pub const RATIO_NO_TF2: &'static str =
    "row times `tf2::BufferCore` in-process, which needs a ROS 2 install this build does not have — `tf_tree_bench` was compiled without `--features tf2`. It is the build and not the host: a ratio is measurable here, and the fitness probe's timing verdict does not reach it";

pub const RATIO_INDICATIVE: &'static str =
    "INDICATIVE, not a claim: TF_TREE_BENCH_FORCE=1 overrode the refusal. ";

pub const RATIO_UNTRUSTED: &'static str =
    "pair was measured, but this host cannot produce a trustworthy ratio: ";

pub open spec fn ratio_slack() -> NumberView {
    number(RATIO_SLACK, "0.15"@, "0"@, "0.1"@, "0.150"@, "0.15000"@, "1.5000e-1"@)
}

pub open spec fn floor_number() -> NumberView {
    number(ratio::FLOOR, "2"@, "2"@, "2.0"@, "2.000"@, "2.00000"@, "2.0000e0"@)
}

pub open spec fn ratio_metrics(p: PairedView) -> Seq<MetricView> {
    seq![
        metric("speedup_vs_tf2"@, p.run.ratio, "x"@).toward(Drift::HigherIsBetter, ratio_slack()),
        metric("ratio_lo"@, p.run.ratio_lo, "x"@),
        metric("ratio_hi"@, p.run.ratio_hi, "x"@),
        metric("floor"@, floor_number(), "x"@),
        metric("ns_per_lookup"@, p.run.tf_tree_ns, "ns"@),
        metric("agreed"@, p.agreed, "queries"@),
    ]
}

pub open spec fn ratio_gap(reason: Seq<char>, ground: Ground) -> RowView {
    RowView {
        grounds: seq![ground],
        ..unavailable_row(
            "lookup_ratio_vs_tf2"@,
            "Depth-3 hot lookup, tf_tree vs tf2 (paired ratio)"@,
            RATIO_NOTE@,
            Sensitivity::Ratio,
            reason,
            RATIO_COMMAND@,
        )
    }
}

pub open spec fn ratio_view(
    f: FitnessView,
    build: Build,
    p: Result<PairedView, Seq<char>>,
) -> RowView {
    if !build.tf2_linked {
        ratio_gap("this "@ + RATIO_NO_TF2@, Ground::Tf2NotLinked)
    } else {
        match p {
            Err(e) => ratio_gap(
                "the paired measurement could not be taken: "@ + e,
                Ground::MeasurementRefused,
            ),
            Ok(x) => {
                let line = ratio::verdict_text(x.run, x.spread_percent);
                let status = f.status(Sensitivity::Ratio);
                match ratio::verdict_of(x.run.ratio_lo.bits, x.run.ratio_hi.bits) {
                    ratio::Verdict::Unresolved => ratio_gap(
                        "the pair was measured and cannot resolve the 2.0x floor: "@
                            + line,
                        Ground::MeasurementRefused,
                    ),
                    ratio::Verdict::Below => ratio_gap(
                        "the pair was measured and is BELOW the 2.0x floor this row gates: "@
                            + line,
                        Ground::MeasurementRefused,
                    ),
                    ratio::Verdict::Above => if status == Status::Unavailable {
                        ratio_gap(
                            "the "@ + RATIO_UNTRUSTED@ + f.ratio_reason_line(),
                            Ground::HostFitness,
                        )
                    } else {
                        measured(
                            ratio_gap(seq![], Ground::MeasurementRefused),
                            status,
                            if status == Status::Indicative {
                                RATIO_INDICATIVE@ + f.ratio_reason_line()
                            } else {
                                seq![]
                            },
                            ratio_metrics(x),
                            seq![metric("ns_per_lookup"@, x.run.tf2_ns, "ns"@)],
                        )
                    },
                }
            },
        }
    }
}

// ---------------------------------------------------------------------------
// The whole report
// ---------------------------------------------------------------------------

/// The agreement with an engine that a report may be built on, or why there is none: the
/// run failed, or the two engines disagreed.
pub open spec fn scored(engine: Seq<char>, a: Result<AgreementView, Seq<char>>) -> Result<
    AgreementView,
    Seq<char>,
> {
    match a {
        Err(e) => Err(e),
        Ok(x) => if agrees(x) {
            Ok(x)
        } else {
            Err(disagreement(engine, x))
        },
    }
}

/// The agreement with `tf2::BufferCore`, where that is linked.
pub open spec fn scored_tf2(build: Build, a: Result<AgreementView, Seq<char>>) -> Result<
    Option<AgreementView>,
    Seq<char>,
> {
    if !build.tf2_linked {
        Ok(None)
    } else {
        match scored("the tf2::BufferCore"@, a) {
            Err(e) => Err(e),
            Ok(x) => Ok(Some(x)),
        }
    }
}

/// The embedding row, where the pair that was asked for could be loaded.
pub open spec fn embedding_row_of(
    asked: bool,
    f: FitnessView,
    e: Result<EmbeddingView, Seq<char>>,
) -> Result<RowView, Seq<char>> {
    if !asked {
        Ok(embedding_view(f, None))
    } else {
        match e {
            Err(s) => Err(s),
            Ok(x) => Ok(embedding_view(f, Some(x))),
        }
    }
}

/// The report of a host from the rows that could have failed.
pub open spec fn report_of(
    consumers: usize,
    f: FitnessView,
    build: Build,
    ros: bool,
    m: MeasuredView,
    lookup: RowView,
    naive: AgreementView,
    tf2: Option<AgreementView>,
    embedding: RowView,
) -> ReportView {
    let reason = host_reason(consumers, f, build, ros);
    let grounds = host_grounds(f, build, ros);
    ReportView {
        provenance: m.provenance,
        build,
        fitness: f,
        warmup: m.warmup_s,
        rows: seq![
            cpu_row(reason, grounds),
            rss_row(build),
            lookup,
            visible_row(reason, grounds, build),
            scaling_row(reason, grounds, f.core_reason is Some),
            workers_row(build),
            open_row(build),
            agreement_row(naive, tf2),
            embedding,
            ratio_view(f, build, m.paired),
        ],
        worse: entries(consumers, f.fair_for_memory, m.arena),
    }
}

/// The report of a host, or why there is none: the first of the measurements that a row
/// needs and that failed.
pub open spec fn assembled(
    opts: Options,
    f: FitnessView,
    build: Build,
    ros: bool,
    m: MeasuredView,
) -> Result<ReportView, Seq<char>> {
    match lookup_row(f, m.lookup) {
        Err(e) => Err(e),
        Ok(lookup) => match scored("the naive-Rust"@, m.naive) {
            Err(e) => Err(e),
            Ok(naive) => match scored_tf2(build, m.tf2) {
                Err(e) => Err(e),
                Ok(tf2) => match embedding_row_of(opts.embed_cost is Some, f, m.embedding) {
                    Err(e) => Err(e),
                    Ok(embedding) => Ok(
                        report_of(
                            opts.consumers,
                            f,
                            build,
                            ros,
                            m,
                            lookup,
                            naive,
                            tf2,
                            embedding,
                        ),
                    ),
                },
            },
        },
    }
}

fn glue(a: &str, b: &str) -> (r: String)
    ensures
        r@ == a@ + b@,
{
    let mut s = a.to_owned();
    s.append(b);
    s
}

/// A text, and another behind it where a condition holds.
fn glue_if(a: String, more: bool, b: &str) -> (r: String)
    ensures
        r@ == a@ + (if more {
            b@
        } else {
            seq![]
        }),
{
    let mut s = a;
    let ghost before = s@;
    if more {
        s.append(b);
    } else {
        assert(before + Seq::<char>::empty() =~= before);
    }
    s
}

fn reason_of(consumers: usize, f: &Fitness, build: Build, ros: bool) -> (r: String)
    ensures
        r@ == host_reason(consumers, f@, build, ros),
{
    broadcast use lemma_texts_push;

    let mut parts: Vec<String> = Vec::new();
    let mut first = "this tool is a single process: it stands up none of the ".to_owned();
    first.append(decimal(consumers as u64).as_str());
    first.append(" consumers this row compares, so the row is not measured here on any host — the command below is what measures it");
    parts.push(first);
    if !ros && !build.tf2_linked {
        parts.push(NO_ENGINE.to_owned());
    }
    match &f.core_reason {
        Some(c) => parts.push(glue("the host also has ", c.as_str())),
        None => {},
    }
    if !f.fair_for_timing {
        parts.push(f.reason_line());
    }
    assert(texts(parts@) =~= host_parts(consumers, f@, build, ros));
    text::join(&parts, "; ")
}

/// A ground, then the host's obstacles.
fn grounds_after(first: Ground, f: &Fitness, build: Build, ros: bool) -> (r: Vec<Ground>)
    ensures
        r@ == seq![first] + host_grounds(f@, build, ros),
{
    let mut v: Vec<Ground> = Vec::new();
    v.push(first);
    if !ros && !build.tf2_linked {
        v.push(Ground::Tf2NotLinked);
    }
    if f.core_reason.is_some() {
        v.push(Ground::HostCores);
    }
    if !f.fair_for_timing {
        v.push(Ground::HostFitness);
    }
    assert(v@ =~= seq![first] + host_grounds(f@, build, ros));
    v
}

fn one_ground(g: Ground) -> (r: Vec<Ground>)
    ensures
        r@ == seq![g],
{
    let mut v: Vec<Ground> = Vec::new();
    v.push(g);
    assert(v@ =~= seq![g]);
    v
}

fn build_rss_row(build: Build) -> (r: Row)
    ensures
        r@ == rss_row(build),
{
    let mut grounds = one_ground(Ground::MeasuredElsewhere);
    if !build.tf2_linked {
        grounds.push(Ground::Tf2NotLinked);
    }
    assert(grounds@ =~= rss_row(build).grounds);
    Row::unavailable(
        "total_rss_n_consumers",
        "Total RSS across N consumers (MB)",
        RSS_NOTE,
        Sensitivity::Memory,
        glue_if(glue("this ", RSS_REASON), !build.tf2_linked, RSS_NO_TF2),
        RSS_COMMAND,
    ).n_way().on(grounds.as_slice())
}

fn build_visible_row(reason: &str, f: &Fitness, build: Build, ros: bool) -> (r: Row)
    ensures
        r@ == visible_row(reason@, host_grounds(f@, build, ros), build),
{
    let mut grounds = grounds_after(Ground::NoInstrument, f, build, ros);
    if !build.frozen_backend {
        grounds.push(Ground::FrozenBackendNotCompiled);
    }
    assert(grounds@ =~= visible_row(reason@, host_grounds(f@, build, ros), build).grounds);
    Row::unavailable(
        "publish_to_visible",
        "Publish -> visible-to-consumer (p50, p99.9)",
        "Both stacks, publisher process to consumer process.",
        Sensitivity::AbsoluteTiming,
        glue_if(glue(reason, VISIBLE_GAP), !build.frozen_backend, VISIBLE_NO_SHM),
        VISIBLE_COMMAND,
    ).n_way().on(grounds.as_slice())
}

/// Why the two rows about frozen recordings are unavailable.
pub fn frozen_row_reason(build: Build, attempt: &str, recipe: &str) -> (r: String)
    ensures
        r@ == frozen_reason(build, attempt@, recipe@),
{
    if build.frozen_backend {
        let mut s = glue(attempt, FROZEN_ELSEWHERE);
        s.append(recipe);
        s.append("`");
        s
    } else {
        glue(attempt, FROZEN_NOT_COMPILED)
    }
}

fn frozen_because(build: Build) -> (r: Ground)
    ensures
        r == frozen_ground(build),
{
    if build.frozen_backend {
        Ground::MeasuredElsewhere
    } else {
        Ground::FrozenBackendNotCompiled
    }
}

fn build_open_row(build: Build) -> (r: Row)
    ensures
        r@ == open_row(build),
{
    let mut grounds = one_ground(frozen_because(build));
    grounds.push(Ground::NoInstrument);
    assert(grounds@ =~= open_row(build).grounds);
    let mut reason = frozen_row_reason(
        build,
        "timing `Tree::open_frozen` against a 233 MB index",
        "just gate2",
    );
    reason.append(OPEN_GAP);
    Row::unavailable(
        "tft_open_vs_bag_parse",
        ".tft open time vs bag parse time (ms)",
        "§12 gate 2 wants open under 10 ms for a 233 MB index.",
        Sensitivity::AbsoluteTiming,
        reason,
        OPEN_COMMAND,
    ).on(grounds.as_slice())
}

fn latency_tolerance() -> (r: Number)
    ensures
        r@ == latency_slack(),
{
    Number::new(LATENCY_SLACK, "0.25", "0", "0.2", "0.250", "0.25000", "2.5000e-1")
}

/// The metrics of a timed hot lookup. The percentiles are gated; the sample count and the
/// clock's own cost are context.
pub fn lookup_latency_metrics(l: Lookup) -> (r: Vec<Metric>)
    ensures
        metric_views(r@) == lookup_metrics(l@),
{
    let ghost given = l@;
    let mut v: Vec<Metric> = Vec::new();
    v.push(Metric::new("p50_ns", l.p50, "ns").lower_is_better(latency_tolerance()));
    v.push(Metric::new("p99_ns", l.p99, "ns").lower_is_better(latency_tolerance()));
    v.push(Metric::new("p999_ns", l.p999, "ns").lower_is_better(latency_tolerance()));
    v.push(Metric::new("samples", l.samples, "lookups"));
    v.push(Metric::new("clock_overhead_p50_ns", l.clock_p50, "ns"));
    assert(metric_views(v@) =~= lookup_metrics(given));
    v
}

fn indicative_text(status: Status, why: &str) -> (r: String)
    ensures
        r@ == indicative(status, why@),
{
    if status == Status::Indicative {
        glue(INDICATIVE, why)
    } else {
        String::new()
    }
}

fn build_lookup_row(f: &Fitness, l: Result<Lookup, String>) -> (r: Result<Row, String>)
    ensures
        match r {
            Ok(row) => lookup_row(f@, seen(l)) == Ok::<RowView, Seq<char>>(row@),
            Err(s) => lookup_row(f@, seen(l)) == Err::<RowView, Seq<char>>(s@),
        },
{
    let mut row = Row::unavailable(
        "lookup_latency",
        "Lookup latency, depth 3, hot path (p50, p99, p99.9)",
        LOOKUP_NOTE,
        Sensitivity::AbsoluteTiming,
        glue(glue("this ", HOST_BETWEEN).as_str(), f.reason_line().as_str()),
        LOOKUP_COMMAND,
    ).on(one_ground(Ground::HostFitness).as_slice());
    let status = f.timing_status();
    if status == Status::Unavailable {
        return Ok(row);
    }
    match l {
        Err(e) => Err(e),
        Ok(x) => {
            let m = lookup_latency_metrics(x);
            row.tf_tree = m;
            row.measured_as(status, indicative_text(status, f.reason_line().as_str()));
            Ok(row)
        },
    }
}

fn agreement_list(a: &Agreement) -> (r: Vec<Metric>)
    ensures
        metric_views(r@) == agreement_metrics(a@),
{
    let mut v: Vec<Metric> = Vec::new();
    v.push(
        Metric::new("max_deviation", a.max_error.clone(), "rad or m").lower_is_better(
            Number::new(DEVIATION_SLACK, "9", "9", "9.0", "9.000", "9.00000", "9.0000e0"),
        ),
    );
    v.push(Metric::new("compared", a.compared_number.clone(), "queries"));
    v.push(Metric::new("tolerance", a.tolerance.clone(), "rad or m"));
    assert(metric_views(v@) =~= agreement_metrics(a@));
    v
}

fn build_agreement_row(naive: &Agreement, tf2: &Option<Agreement>) -> (r: Row)
    ensures
        r@ == agreement_row(naive@, seen_option(*tf2)),
{
    let mut row = Row::unavailable(
        "differential_agreement",
        "Differential agreement (LerpSlerp), max deviation",
        AGREEMENT_NOTE,
        Sensitivity::HostIndependent,
        String::new(),
        AGREEMENT_COMMAND,
    );
    row.tf_tree = agreement_list(naive);
    match tf2 {
        Some(a) => {
            row.tf2 = agreement_list(a);
        },
        None => {},
    }
    row.measured_as(Status::Measured, String::new());
    row
}

fn does_agree(a: &Agreement) -> (r: bool)
    ensures
        r == agrees(a@),
{
    a.compared > 0 && crate::number::le(a.max_error.bits, a.tolerance.bits)
}

fn say_disagreement(engine: &str, a: &Agreement) -> (r: String)
    ensures
        r@ == disagreement(engine@, a@),
{
    let mut s = glue(engine, " differential did not pass (");
    s.append(decimal(a.compared as u64).as_str());
    s.append(" queries scored, max error ");
    s.append(a.max_error.plain.as_str());
    s.append(")");
    s
}

fn score(engine: &str, a: Result<Agreement, String>) -> (r: Result<Agreement, String>)
    ensures
        scored(engine@, seen(a)) == seen(r),
{
    match a {
        Err(e) => Err(e),
        Ok(x) => if does_agree(&x) {
            Ok(x)
        } else {
            Err(say_disagreement(engine, &x))
        },
    }
}

fn embedding_unavailable(reason: String, ground: Ground) -> (r: Row)
    ensures
        r@ == embedding_gap(reason@, ground),
{
    Row::unavailable(
        "embedding_cross_crate",
        "Facade Plan::at from a separate crate vs in-crate, depth 3 (ratio)",
        EMBEDDING_NOTE,
        Sensitivity::AbsoluteTiming,
        reason,
        EMBEDDING_COMMAND,
    ).on(one_ground(ground).as_slice())
}

/// The embedding row: the pair's band decides whether there is a verdict at all, and the
/// host whether it is a claim.
pub fn embedding_row(f: &Fitness, e: &Option<Embedding>) -> (r: Row)
    ensures
        r@ == embedding_view(f@, seen_option(*e)),
{
    let x = match e {
        None => return embedding_unavailable(glue("this ", NO_PAIR), Ground::MeasuredElsewhere),
        Some(x) => x,
    };
    let run = &x.pair.embedder;
    let line = run.verdict_line(x.excess_percent.as_str());
    if run.verdict() == embed::Verdict::Unresolved {
        return embedding_unavailable(
            glue(
                "the pair was measured and cannot resolve §9.2's 5% criterion: ",
                line.as_str(),
            ),
            Ground::MeasurementRefused,
        );
    }
    let mut row = embedding_unavailable(
        glue(glue("the ", HALF_A_CLAIM).as_str(), f.reason_line().as_str()),
        Ground::HostFitness,
    );
    let status = f.timing_status();
    if status == Status::Unavailable {
        return row;
    }
    let mut why = f.reason_line();
    why.append(" Measured here: ");
    why.append(line.as_str());
    row.tf_tree = run.metrics(x.lookups.clone());
    row.measured_as(status, indicative_text(status, why.as_str()));
    row
}

fn ratio_unavailable(reason: String, ground: Ground) -> (r: Row)
    ensures
        r@ == ratio_gap(reason@, ground),
{
    Row::unavailable(
        "lookup_ratio_vs_tf2",
        "Depth-3 hot lookup, tf_tree vs tf2 (paired ratio)",
        RATIO_NOTE,
        Sensitivity::Ratio,
        reason,
        RATIO_COMMAND,
    ).on(one_ground(ground).as_slice())
}

fn ratio_list(p: &Paired) -> (r: Vec<Metric>)
    ensures
        metric_views(r@) == ratio_metrics(p@),
{
    let mut v: Vec<Metric> = Vec::new();
    v.push(
        Metric::new("speedup_vs_tf2", p.run.ratio.clone(), "x").higher_is_better(
            Number::new(RATIO_SLACK, "0.15", "0", "0.1", "0.150", "0.15000", "1.5000e-1"),
        ),
    );
    v.push(Metric::new("ratio_lo", p.run.ratio_lo.clone(), "x"));
    v.push(Metric::new("ratio_hi", p.run.ratio_hi.clone(), "x"));
    v.push(
        Metric::new(
            "floor",
            Number::new(ratio::FLOOR, "2", "2", "2.0", "2.000", "2.00000", "2.0000e0"),
            "x",
        ),
    );
    v.push(Metric::new("ns_per_lookup", p.run.tf_tree_ns.clone(), "ns"));
    v.push(Metric::new("agreed", p.agreed.clone(), "queries"));
    assert(metric_views(v@) =~= ratio_metrics(p@));
    v
}

/// The ratio row. A band that straddles the floor has not answered, and one below it must
/// not be published as a clean row.
pub fn ratio_row(f: &Fitness, build: Build, p: &Result<Paired, String>) -> (r: Row)
    ensures
        r@ == ratio_view(f@, build, seen(*p)),
{
    if !build.tf2_linked {
        return ratio_unavailable(glue("this ", RATIO_NO_TF2), Ground::Tf2NotLinked);
    }
    let x = match p {
        Err(e) => return ratio_unavailable(
            glue("the paired measurement could not be taken: ", e.as_str()),
            Ground::MeasurementRefused,
        ),
        Ok(x) => x,
    };
    let line = x.run.verdict_line(x.spread_percent.as_str());
    match x.run.verdict() {
        ratio::Verdict::Unresolved => return ratio_unavailable(
            glue(
                "the pair was measured and cannot resolve the 2.0x floor: ",
                line.as_str(),
            ),
            Ground::MeasurementRefused,
        ),
        ratio::Verdict::Below => return ratio_unavailable(
            glue(
                "the pair was measured and is BELOW the 2.0x floor this row gates: ",
                line.as_str(),
            ),
            Ground::MeasurementRefused,
        ),
        ratio::Verdict::Above => {},
    }
    let status = f.ratio_status();
    if status == Status::Unavailable {
        return ratio_unavailable(
            glue(glue("the ", RATIO_UNTRUSTED).as_str(), f.ratio_reason_line().as_str()),
            Ground::HostFitness,
        );
    }
    let mut row = ratio_unavailable(String::new(), Ground::MeasurementRefused);
    row.tf_tree = ratio_list(x);
    let mut other: Vec<Metric> = Vec::new();
    other.push(Metric::new("ns_per_lookup", x.run.tf2_ns.clone(), "ns"));
    assert(metric_views(other@) =~= seq![metric("ns_per_lookup"@, x.run.tf2_ns@, "ns"@)]);
    row.tf2 = other;
    let reason = if status == Status::Indicative {
        glue(RATIO_INDICATIVE, f.ratio_reason_line().as_str())
    } else {
        String::new()
    };
    row.measured_as(status, reason);
    row
}

/// The whole artifact for a host: every row is measured here, or unavailable with a
/// reason, the grounds under it and the command that measures it elsewhere. Nothing is
/// estimated. The caller runs [`Report::validate`] before it writes anything.
///
/// # Errors
///
/// Only a measurement that failed; a row that cannot be measured is a row.
pub fn assemble_on(opts: &Options, fitness: Fitness, build: Build, ros_env: bool, m: Measured) -> (r:
    Result<Report, String>)
    ensures
        assembled(*opts, fitness@, build, ros_env, m@) == seen(r),
{
    let ghost given = m@;
    let consumers: usize = opts.consumers;
    let lookup = match build_lookup_row(&fitness, m.lookup) {
        Err(e) => return Err(e),
        Ok(row) => row,
    };
    let naive = match score("the naive-Rust", m.naive) {
        Err(e) => return Err(e),
        Ok(a) => a,
    };
    let tf2 = if build.tf2_linked {
        match score("the tf2::BufferCore", m.tf2) {
            Err(e) => return Err(e),
            Ok(a) => Some(a),
        }
    } else {
        None
    };
    let embedding = if opts.embed_cost.is_some() {
        match m.embedding {
            Err(e) => return Err(e),
            Ok(x) => Some(x),
        }
    } else {
        None
    };
    let reason = reason_of(consumers, &fitness, build, ros_env);
    let elsewhere = grounds_after(Ground::MeasuredElsewhere, &fitness, build, ros_env);
    let mut rows: Vec<Row> = Vec::new();
    rows.push(
        Row::unavailable(
            "cpu_per_consumer",
            "CPU per consumer at steady state (%CPU)",
            "Both stacks, N consumers plus one publisher, steady state.",
            Sensitivity::AbsoluteTiming,
            reason.clone(),
            CPU_COMMAND,
        ).n_way().on(elsewhere.as_slice()),
    );
    rows.push(build_rss_row(build));
    rows.push(lookup);
    rows.push(build_visible_row(reason.as_str(), &fitness, build, ros_env));
    rows.push(
        Row::unavailable(
            "scaling_curve",
            "Scaling curve, N = 1..16 (throughput, CPU)",
            "Both stacks. The claim under test is that reads scale with threads.",
            Sensitivity::AbsoluteTiming,
            glue_if(reason, fitness.core_reason.is_some(), BENT_CURVE),
            SCALING_COMMAND,
        ).n_way().on(elsewhere.as_slice()),
    );
    rows.push(
        Row::unavailable(
            "tft_16_workers_rss",
            "Frozen .tft: 16 dataloader workers, total RSS vs 16 bag parses (MB)",
            "The wedge's central claim (§12 gate 4: total Pss within 1.2x of one worker).",
            Sensitivity::Memory,
            frozen_row_reason(build, "mapping one .tft from sixteen worker processes", "just gate4"),
            WORKERS_COMMAND,
        ).n_way().on(one_ground(frozen_because(build)).as_slice()),
    );
    rows.push(build_open_row(build));
    rows.push(build_agreement_row(&naive, &tf2));
    rows.push(embedding_row(&fitness, &embedding));
    rows.push(ratio_row(&fitness, build, &m.paired));
    let worse = worse_entries(consumers, fitness.fair_for_memory, &m.arena);
    let report = Report {
        provenance: m.provenance,
        build,
        fitness,
        warmup_discarded_s: m.warmup_s,
        rows,
        worse,
    };
    proof {
        let want = assembled(*opts, report@.fitness, build, ros_env, given)->Ok_0;
        assert(report@.rows =~= want.rows);
        assert(report@ == want);
    }
    Ok(report)
}

} // verus!
