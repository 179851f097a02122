//! What the numbers of a report are numbers of, and when there are any.

use vstd::prelude::*;

use super::assemble::{
    agreement_metrics, agreement_row, assembled, embedding_view, host_grounds, host_parts,
    lookup_metrics, lookup_row, ratio_metrics, ratio_view, AgreementView, EmbeddingView, LookupView,
    MeasuredView, Options, PairedView,
};
use super::validate::{
    breaches, fact_stated, law_valid_iff_no_breach, occurrences, row_ok, some_directional,
    topic_present, usable_tolerance, warmup_stated, worse_ok,
};
use super::worse::{entries, resident_metrics, ArenaView, IdleView};
use super::{
    Build, Drift, FitnessView, Ground, MetricView, ReportView, RowView, Sensitivity, Status,
    WorseView, REQUIRED_FACTS, REQUIRED_ROWS, REQUIRED_WORSE,
};
use crate::embed;
use crate::number::{at_most, finite, less, rank, NumberView};
use crate::soak::{interval_metrics, summary_metrics, Interval, Summary};
use crate::text::blank;

verus! {

/// Whether some metrics have one under a key, and each under it has a value, and may move
/// only one way.
pub open spec fn carries(
    ms: Seq<MetricView>,
    key: Seq<char>,
    value: NumberView,
    drift: Drift,
) -> bool {
    &&& exists|i: int| 0 <= i < ms.len() && (#[trigger] ms[i]).key == key
    &&& forall|i: int|
        0 <= i < ms.len() && (#[trigger] ms[i]).key == key ==> ms[i].value == value && ms[i].drift
            == drift
}

/// Whether no metric has a key.
pub open spec fn lacks(ms: Seq<MetricView>, key: Seq<char>) -> bool {
    forall|i: int| 0 <= i < ms.len() ==> (#[trigger] ms[i]).key != key
}

/// The latency row prints numbers where the host is fair for a duration or the operator
/// insisted, and each of them is the quantity that its key names.
pub proof fn law_lookup_row_prints_what_was_timed(f: FitnessView, l: LookupView)
    ensures
        ({
            let row = lookup_row(f, Ok(l))->Ok_0;
            &&& lookup_row(f, Ok(l)) is Ok
            &&& row.id == "lookup_latency"@
            &&& row.sensitivity == Sensitivity::AbsoluteTiming
            &&& row.status is Measured <==> f.fair_for_timing
            &&& row.status is Indicative <==> !f.fair_for_timing && f.forced
            &&& row.tf2.len() == 0
            &&& !f.fair_for_timing && !f.forced ==> row.tf_tree.len() == 0
            &&& f.fair_for_timing || f.forced ==> {
                &&& carries(row.tf_tree, "p50_ns"@, l.p50, Drift::LowerIsBetter)
                &&& carries(row.tf_tree, "p99_ns"@, l.p99, Drift::LowerIsBetter)
                &&& carries(row.tf_tree, "p999_ns"@, l.p999, Drift::LowerIsBetter)
                &&& carries(row.tf_tree, "samples"@, l.samples, Drift::Informational)
                &&& carries(
                    row.tf_tree,
                    "clock_overhead_p50_ns"@,
                    l.clock_p50,
                    Drift::Informational,
                )
            }
        }),
{
    reveal_strlit("p50_ns");
    reveal_strlit("p99_ns");
    reveal_strlit("p999_ns");
    reveal_strlit("samples");
    reveal_strlit("clock_overhead_p50_ns");
    assert("samples"@[0] == 's' && "p999_ns"@[0] == 'p');
    assert("p50_ns"@[1] == '5' && "p99_ns"@[1] == '9');
    let ms = lookup_row(f, Ok(l))->Ok_0.tf_tree;
    if f.fair_for_timing || f.forced {
        assert(ms[0].key == "p50_ns"@);
        assert(ms[1].key == "p99_ns"@);
        assert(ms[2].key == "p999_ns"@);
        assert(ms[3].key == "samples"@);
        assert(ms[4].key == "clock_overhead_p50_ns"@);
    }
}

/// A latency row that is not to be printed does without its measurement, and one that is
/// fails where that failed.
pub proof fn law_a_row_needs_only_what_it_prints(f: FitnessView, e: Seq<char>)
    ensures
        lookup_row(f, Err(e)) is Ok <==> !f.fair_for_timing && !f.forced,
        f.fair_for_timing || f.forced ==> lookup_row(f, Err(e)) == Err::<RowView, Seq<char>>(e),
{
}

/// The agreement row prints the deviation from the independent reference in the one column,
/// and from the other engine in the other.
pub proof fn law_agreement_row_prints_both_deviations(
    naive: AgreementView,
    tf2: Option<AgreementView>,
)
    ensures
        ({
            let row = agreement_row(naive, tf2);
            &&& row.id == "differential_agreement"@
            &&& row.status is Measured
            &&& row.sensitivity == Sensitivity::HostIndependent
            &&& carries(row.tf_tree, "max_deviation"@, naive.max_error, Drift::LowerIsBetter)
            &&& carries(row.tf_tree, "compared"@, naive.compared_number, Drift::Informational)
            &&& carries(row.tf_tree, "tolerance"@, naive.tolerance, Drift::Informational)
            &&& tf2 is None ==> row.tf2.len() == 0
            &&& tf2 matches Some(a) ==> {
                &&& carries(row.tf2, "max_deviation"@, a.max_error, Drift::LowerIsBetter)
                &&& carries(row.tf2, "compared"@, a.compared_number, Drift::Informational)
                &&& carries(row.tf2, "tolerance"@, a.tolerance, Drift::Informational)
            }
        }),
{
    reveal_strlit("max_deviation");
    reveal_strlit("compared");
    reveal_strlit("tolerance");
    let row = agreement_row(naive, tf2);
    assert(row.tf_tree[0].key == "max_deviation"@);
    assert(row.tf_tree[1].key == "compared"@);
    assert(row.tf_tree[2].key == "tolerance"@);
    if tf2 is Some {
        assert(row.tf2[0].key == "max_deviation"@);
        assert(row.tf2[1].key == "compared"@);
        assert(row.tf2[2].key == "tolerance"@);
    }
}

/// The embedding row prints numbers where a pair was given whose band lies on one side of
/// 1.05, on a host that is fair for a duration or where the operator insisted; they are those
/// of the embedder's run.
pub proof fn law_embedding_row_prints_the_embedder(f: FitnessView, x: EmbeddingView)
    ensures
        ({
            let row = embedding_view(f, Some(x));
            let t = 0x3ff0_cccc_cccc_cccd;
            let resolved = at_most(x.run.ratio_hi.bits, t) || less(t, x.run.ratio_lo.bits);
            let printed = resolved && (f.fair_for_timing || f.forced);
            &&& row.id == "embedding_cross_crate"@
            &&& row.sensitivity == Sensitivity::AbsoluteTiming
            &&& row.tf2.len() == 0
            &&& row.status is Measured <==> resolved && f.fair_for_timing
            &&& row.status is Indicative <==> resolved && !f.fair_for_timing && f.forced
            &&& !printed ==> row.tf_tree.len() == 0 && row.grounds.len() == 1
            &&& !resolved ==> row.grounds[0] == Ground::MeasurementRefused
            &&& resolved && !printed ==> row.grounds[0] == Ground::HostFitness
            &&& printed ==> {
                let ms = row.tf_tree;
                &&& carries(ms, "boundary_ratio"@, x.run.boundary_ratio, Drift::LowerIsBetter)
                &&& carries(ms, "out_of_crate_ns"@, x.run.out_of_crate_ns, Drift::LowerIsBetter)
                &&& carries(ms, "in_crate_ns"@, x.run.in_crate_ns, Drift::LowerIsBetter)
                &&& carries(ms, "ratio_lo"@, x.run.ratio_lo, Drift::Informational)
                &&& carries(ms, "ratio_hi"@, x.run.ratio_hi, Drift::Informational)
                &&& carries(
                    ms,
                    "out_of_crate_spread"@,
                    x.run.out_of_crate_spread,
                    Drift::Informational,
                )
                &&& carries(ms, "in_crate_spread"@, x.run.in_crate_spread, Drift::Informational)
                &&& carries(ms, "lookups_per_round"@, x.lookups, Drift::Informational)
            }
        }),
{
    reveal_strlit("boundary_ratio");
    reveal_strlit("out_of_crate_ns");
    reveal_strlit("in_crate_ns");
    reveal_strlit("gate_ratio");
    reveal_strlit("ratio_lo");
    reveal_strlit("ratio_hi");
    reveal_strlit("out_of_crate_spread");
    reveal_strlit("in_crate_spread");
    reveal_strlit("lookups_per_round");
    assert("ratio_lo"@[6] == 'l' && "ratio_hi"@[6] == 'h');
    assert("out_of_crate_ns"@[0] == 'o' && "in_crate_spread"@[0] == 'i');
    let ms = embed::run_metrics(x.run, x.lookups);
    assert(ms[0].key == "boundary_ratio"@);
    assert(ms[1].key == "out_of_crate_ns"@);
    assert(ms[2].key == "in_crate_ns"@);
    assert(ms[4].key == "ratio_lo"@);
    assert(ms[5].key == "ratio_hi"@);
    assert(ms[6].key == "out_of_crate_spread"@);
    assert(ms[7].key == "in_crate_spread"@);
    assert(ms[8].key == "lookups_per_round"@);
}

/// Without a pair the embedding row is a gap that points at where it is measured.
pub proof fn law_no_pair_is_no_embedding_row(f: FitnessView)
    ensures
        embedding_view(f, None).status is Unavailable,
        embedding_view(f, None).tf_tree.len() == 0,
        embedding_view(f, None).grounds == seq![Ground::MeasuredElsewhere],
{
}

/// The ratio row prints numbers where both engines were timed, the whole band is at or above
/// the floor of 2, and the host is fair for a ratio or the operator insisted. The column of
/// each engine then carries the time of that engine, and the speed-up is beside the first.
pub proof fn law_ratio_row_prints_each_engine_in_its_column(
    f: FitnessView,
    build: Build,
    x: PairedView,
)
    ensures
        ({
            let row = ratio_view(f, build, Ok(x));
            let two = 0x4000_0000_0000_0000;
            let above = at_most(two, x.run.ratio_lo.bits);
            let printed = build.tf2_linked && above && (f.fair_for_ratios || f.forced);
            &&& row.id == "lookup_ratio_vs_tf2"@
            &&& row.sensitivity == Sensitivity::Ratio
            &&& row.status is Measured <==> build.tf2_linked && above && f.fair_for_ratios
            &&& row.status is Indicative <==> build.tf2_linked && above && !f.fair_for_ratios
                && f.forced
            &&& !printed ==> row.tf_tree.len() == 0 && row.tf2.len() == 0 && row.grounds.len() == 1
            &&& !build.tf2_linked ==> row.grounds[0] == Ground::Tf2NotLinked
            &&& build.tf2_linked && !above ==> row.grounds[0] == Ground::MeasurementRefused
            &&& build.tf2_linked && above && !printed ==> row.grounds[0] == Ground::HostFitness
            &&& printed ==> {
                let ms = row.tf_tree;
                &&& carries(ms, "speedup_vs_tf2"@, x.run.ratio, Drift::HigherIsBetter)
                &&& carries(ms, "ratio_lo"@, x.run.ratio_lo, Drift::Informational)
                &&& carries(ms, "ratio_hi"@, x.run.ratio_hi, Drift::Informational)
                &&& carries(ms, "ns_per_lookup"@, x.run.tf_tree_ns, Drift::Informational)
                &&& carries(ms, "agreed"@, x.agreed, Drift::Informational)
                &&& carries(row.tf2, "ns_per_lookup"@, x.run.tf2_ns, Drift::Informational)
                &&& lacks(row.tf2, "speedup_vs_tf2"@)
            }
        }),
{
    reveal_strlit("speedup_vs_tf2");
    reveal_strlit("ratio_lo");
    reveal_strlit("ratio_hi");
    reveal_strlit("floor");
    reveal_strlit("ns_per_lookup");
    reveal_strlit("agreed");
    assert("ratio_lo"@[6] == 'l' && "ratio_hi"@[6] == 'h');
    let ms = super::assemble::ratio_metrics(x);
    assert(ms[0].key == "speedup_vs_tf2"@);
    assert(ms[1].key == "ratio_lo"@);
    assert(ms[2].key == "ratio_hi"@);
    assert(ms[4].key == "ns_per_lookup"@);
    assert(ms[5].key == "agreed"@);
    let row = ratio_view(f, build, Ok(x));
    if row.status !is Unavailable {
        assert(row.tf2[0].key == "ns_per_lookup"@);
    }
}

/// A paired run that could not be taken leaves a gap.
pub proof fn law_a_failed_pair_is_a_gap(f: FitnessView, build: Build, e: Seq<char>)
    ensures
        ratio_view(f, build, Err(e)).status is Unavailable,
        ratio_view(f, build, Err(e)).tf_tree.len() == 0,
        ratio_view(f, build, Err(e)).tf2.len() == 0,
{
}

/// The rows of a soak carry each quantity under the key that names it.
pub proof fn law_soak_rows_print_what_was_seen(i: Interval, s: Summary)
    ensures
        ({
            let ms = interval_metrics(i);
            &&& carries(ms, "p50_ns"@, i.p50@, Drift::LowerIsBetter)
            &&& carries(ms, "p99_9_ns"@, i.p999@, Drift::LowerIsBetter)
            &&& carries(ms, "visible_p50_ns"@, i.visible_p50@, Drift::LowerIsBetter)
            &&& carries(ms, "visible_p99_9_ns"@, i.visible_p999@, Drift::LowerIsBetter)
            &&& carries(ms, "rss_kib"@, i.rss@, Drift::LowerIsBetter)
            &&& carries(ms, "lookups"@, i.lookups@, Drift::Informational)
            &&& carries(ms, "declined"@, i.declined@, Drift::Informational)
            &&& carries(ms, "pushes"@, i.pushes@, Drift::Informational)
            &&& carries(ms, "ring_wraps"@, i.wraps@, Drift::Informational)
            &&& carries(ms, "err_delta"@, i.err_delta@, Drift::Informational)
        }),
        ({
            let ms = summary_metrics(s);
            &&& carries(ms, "p99_9_drift"@, s.ratio@, Drift::LowerIsBetter)
            &&& carries(ms, "rss_growth_kib"@, s.growth@, Drift::LowerIsBetter)
            &&& carries(ms, "intervals"@, s.intervals@, Drift::Informational)
            &&& carries(ms, "total_ring_wraps"@, s.wraps@, Drift::Informational)
        }),
{
    reveal_strlit("p50_ns");
    reveal_strlit("p99_9_ns");
    reveal_strlit("visible_p50_ns");
    reveal_strlit("visible_p99_9_ns");
    reveal_strlit("rss_kib");
    reveal_strlit("lookups");
    reveal_strlit("declined");
    reveal_strlit("pushes");
    reveal_strlit("ring_wraps");
    reveal_strlit("err_delta");
    reveal_strlit("p99_9_drift");
    reveal_strlit("rss_growth_kib");
    reveal_strlit("intervals");
    reveal_strlit("total_ring_wraps");
    assert("p50_ns"@[1] == '5' && "pushes"@[1] == 'u');
    assert("p99_9_ns"@[0] == 'p' && "declined"@[0] == 'd');
    assert("rss_kib"@[0] == 'r' && "lookups"@[0] == 'l');
    assert("visible_p99_9_ns"@[0] == 'v' && "total_ring_wraps"@[0] == 't');
    let ms = interval_metrics(i);
    assert(ms[0].key == "p50_ns"@ && ms[1].key == "p99_9_ns"@ && ms[2].key == "visible_p50_ns"@);
    assert(ms[3].key == "visible_p99_9_ns"@ && ms[4].key == "rss_kib"@ && ms[5].key == "lookups"@);
    assert(ms[6].key == "declined"@ && ms[7].key == "pushes"@ && ms[8].key == "ring_wraps"@);
    assert(ms[9].key == "err_delta"@);
    let ns = summary_metrics(s);
    assert(ns[0].key == "p99_9_drift"@ && ns[1].key == "rss_growth_kib"@);
    assert(ns[2].key == "intervals"@ && ns[3].key == "total_ring_wraps"@);
}

/// When a report can be assembled, and when alone: the timing of a lookup is there where it
/// would be printed, the engine agreed with the independent reference, with the other engine
/// where that is linked, and the pair of runs is there where one was asked for.
pub proof fn law_when_a_report_is_assembled(
    opts: Options,
    f: FitnessView,
    build: Build,
    ros: bool,
    m: MeasuredView,
)
    ensures
        assembled(opts, f, build, ros, m) is Ok <==> {
            &&& f.fair_for_timing || f.forced ==> m.lookup is Ok
            &&& m.naive matches Ok(a) && a.compared >= 1 && at_most(
                a.max_error.bits,
                a.tolerance.bits,
            )
            &&& build.tf2_linked ==> (m.tf2 matches Ok(a) && a.compared >= 1 && at_most(
                a.max_error.bits,
                a.tolerance.bits,
            ))
            &&& opts.embed_cost is Some ==> m.embedding is Ok
        },
{
}

/// What an assembled report holds: the ten rows in their order, each of what was measured for
/// it, the host's verdicts, and the facts as they were collected.
pub proof fn law_a_report_is_of_what_was_measured(
    opts: Options,
    f: FitnessView,
    build: Build,
    ros: bool,
    m: MeasuredView,
)
    requires
        assembled(opts, f, build, ros, m) is Ok,
    ensures
        ({
            let r = assembled(opts, f, build, ros, m)->Ok_0;
            &&& r.provenance == m.provenance
            &&& r.build == build
            &&& r.fitness == f
            &&& r.warmup == m.warmup_s
            &&& r.rows.len() == 10
            &&& r.rows[0].id == "cpu_per_consumer"@
            &&& r.rows[1].id == "total_rss_n_consumers"@
            &&& Ok::<RowView, Seq<char>>(r.rows[2]) == lookup_row(f, m.lookup)
            &&& r.rows[3].id == "publish_to_visible"@
            &&& r.rows[4].id == "scaling_curve"@
            &&& r.rows[5].id == "tft_16_workers_rss"@
            &&& r.rows[6].id == "tft_open_vs_bag_parse"@
            &&& r.rows[7] == agreement_row(
                m.naive->Ok_0,
                if build.tf2_linked {
                    Some(m.tf2->Ok_0)
                } else {
                    None
                },
            )
            &&& r.rows[8] == embedding_view(
                f,
                if opts.embed_cost is Some {
                    Some(m.embedding->Ok_0)
                } else {
                    None
                },
            )
            &&& r.rows[9] == ratio_view(f, build, m.paired)
            &&& r.worse == entries(opts.consumers, f.fair_for_memory, m.arena)
            &&& forall|i: int|
                0 <= i < 10 && i != 2 && i < 7 ==> (#[trigger] r.rows[i]).status is Unavailable
                    && r.rows[i].tf_tree.len() == 0 && r.rows[i].tf2.len() == 0
            &&& forall|i: int|
                0 <= i < 10 ==> ((#[trigger] r.rows[i]).needs_n_cores <==> i == 0 || i == 1 || i
                    == 3 || i == 4 || i == 5)
            &&& forall|i: int|
                0 <= i < 10 ==> ((#[trigger] r.rows[i]).sensitivity == Sensitivity::Memory <==> i
                    == 1 || i == 5)
        }),
{
}

/// The grounds of a row over all the consumers name each obstacle of the host and of the
/// build that there is, and none that is not.
pub proof fn law_grounds_are_the_obstacles(
    consumers: usize,
    f: FitnessView,
    build: Build,
    ros: bool,
)
    ensures
        host_grounds(f, build, ros).contains(Ground::Tf2NotLinked) <==> !ros && !build.tf2_linked,
        host_grounds(f, build, ros).contains(Ground::HostCores) <==> f.core_reason is Some,
        host_grounds(f, build, ros).contains(Ground::HostFitness) <==> !f.fair_for_timing,
        host_grounds(f, build, ros).no_duplicates(),
        host_parts(consumers, f, build, ros).len() == host_grounds(f, build, ros).len() + 1,
{
    let g = host_grounds(f, build, ros);
    let a = if !ros && !build.tf2_linked {
        1int
    } else {
        0
    };
    let b = if f.core_reason is Some {
        1int
    } else {
        0
    };
    if a == 1 {
        assert(g[0] == Ground::Tf2NotLinked);
    }
    if b == 1 {
        assert(g[a] == Ground::HostCores);
    }
    if !f.fair_for_timing {
        assert(g[a + b] == Ground::HostFitness);
    }
}

/// A ground is found false exactly where what it claims is not so.
pub proof fn law_a_ground_is_what_it_claims(g: Ground, b: Build, f: FitnessView, row: RowView)
    ensures
        ({
            let fair = match row.sensitivity {
                Sensitivity::HostIndependent => true,
                Sensitivity::AbsoluteTiming => f.fair_for_timing,
                Sensitivity::Ratio => f.fair_for_ratios,
                Sensitivity::Memory => f.fair_for_memory,
            };
            g.verdict(b, f, row) == Some(false) <==> match g {
                Ground::HostFitness => fair,
                Ground::HostCores => f.enough_cores || !row.needs_n_cores || row.sensitivity
                    == Sensitivity::Memory,
                Ground::Tf2NotLinked => b.tf2_linked,
                Ground::FrozenBackendNotCompiled => b.frozen_backend,
                _ => false,
            }
        }),
{
}

/// The entry on the memory floor prints what the layout reserves wherever that is known, and
/// what an idle arena holds where that was measured on a host that is fair for memory; else
/// it says which keys it held back. The other entries print no number and say why.
pub proof fn law_the_floor_is_printed_where_it_is_known(
    consumers: usize,
    fair: bool,
    a: ArenaView,
)
    ensures
        ({
            let all = entries(consumers, fair, a);
            let ms = all[0].metrics;
            let shown = fair && a.idle is Some;
            &&& all.len() == 4
            &&& all[0].id == "arena_memory_floor"@
            &&& all[1].id == "attach_latency"@
            &&& all[2].id == "format_bump_cost"@
            &&& all[3].id == "bridge_supervision"@
            &&& forall|i: int|
                1 <= i < 4 ==> (#[trigger] all[i]).metrics.len() == 0
                    && all[i].metrics_absent_because is Some
            &&& a.floor matches Some((bytes, mib)) ==> carries(
                ms,
                "idle_arena_bytes"@,
                bytes,
                Drift::Informational,
            ) && carries(ms, "idle_arena_mib"@, mib, Drift::Informational)
            &&& a.floor is None ==> lacks(ms, "idle_arena_bytes"@) && lacks(ms, "idle_arena_mib"@)
            &&& shown ==> {
                let i = a.idle->0;
                &&& carries(
                    ms,
                    "idle_arena_resident_bytes"@,
                    i.resident,
                    Drift::LowerIsBetter,
                )
                &&& carries(
                    ms,
                    "idle_arena_measured_reserved_bytes"@,
                    i.reserved,
                    Drift::Informational,
                )
                &&& carries(
                    ms,
                    "idle_arena_resident_fraction"@,
                    i.fraction,
                    Drift::Informational,
                )
                &&& all[0].metrics_withheld.len() == 0
            }
            &&& !shown ==> {
                &&& lacks(ms, "idle_arena_resident_bytes"@)
                &&& lacks(ms, "idle_arena_measured_reserved_bytes"@)
                &&& lacks(ms, "idle_arena_resident_fraction"@)
                &&& all[0].metrics_withheld.contains("idle_arena_resident_bytes"@)
                &&& all[0].metrics_withheld.contains("idle_arena_measured_reserved_bytes"@)
                &&& all[0].metrics_withheld.contains("idle_arena_resident_fraction"@)
            }
            &&& all[0].metrics_absent_because is Some <==> a.floor is None && !shown
        }),
{
    reveal_strlit("idle_arena_bytes");
    reveal_strlit("idle_arena_mib");
    reveal_strlit("idle_arena_resident_bytes");
    reveal_strlit("idle_arena_measured_reserved_bytes");
    reveal_strlit("idle_arena_resident_fraction");
    let w = entries(consumers, fair, a)[0];
    let ms = w.metrics;
    let k = if a.floor is Some {
        2int
    } else {
        0
    };
    if a.floor is Some {
        assert(ms[0].key == "idle_arena_bytes"@);
        assert(ms[1].key == "idle_arena_mib"@);
    }
    if fair && a.idle is Some {
        assert(ms[k].key == "idle_arena_resident_bytes"@);
        assert(ms[k + 1].key == "idle_arena_measured_reserved_bytes"@);
        assert(ms[k + 2].key == "idle_arena_resident_fraction"@);
    } else {
        assert(w.metrics_withheld[0] == "idle_arena_resident_bytes"@);
        assert(w.metrics_withheld[1] == "idle_arena_measured_reserved_bytes"@);
        assert(w.metrics_withheld[2] == "idle_arena_resident_fraction"@);
    }
}

// ---------------------------------------------------------------------------
// The rules
// ---------------------------------------------------------------------------

/// The rows that a report must hold.
pub open spec fn row_ids() -> Seq<Seq<char>> {
    seq![
        "cpu_per_consumer"@,
        "total_rss_n_consumers"@,
        "lookup_latency"@,
        "publish_to_visible"@,
        "scaling_curve"@,
        "tft_16_workers_rss"@,
        "tft_open_vs_bag_parse"@,
        "differential_agreement"@,
        "embedding_cross_crate"@,
        "lookup_ratio_vs_tf2"@,
    ]
}

/// The facts that it must state.
pub open spec fn fact_keys() -> Seq<Seq<char>> {
    seq![
        "tf2_version"@,
        "ros_distro"@,
        "rmw_implementation"@,
        "kernel"@,
        "cpu_model"@,
        "transparent_hugepage"@,
        "transparent_hugepage_shmem"@,
        "dds_qos"@,
        "executor_config"@,
    ]
}

/// The topics that it must own up to.
pub open spec fn worse_ids() -> Seq<Seq<char>> {
    seq![
        "arena_memory_floor"@,
        "attach_latency"@,
        "format_bump_cost"@,
        "bridge_supervision"@,
    ]
}

/// Whether a row has an id that no other has.
pub open spec fn alone(rows: Seq<RowView>, id: Seq<char>, i: int) -> bool {
    &&& 0 <= i < rows.len()
    &&& rows[i].id == id
    &&& forall|j: int| 0 <= j < rows.len() && j != i ==> (#[trigger] rows[j]).id != id
}

/// Whether exactly one row has an id.
pub open spec fn one_row(rows: Seq<RowView>, id: Seq<char>) -> bool {
    exists|i: int| #[trigger] alone(rows, id, i)
}

/// Whether the first fact under a key says something.
pub open spec fn states(r: ReportView, key: Seq<char>) -> bool {
    exists|i: int|
        #![trigger r.provenance[i]]
        0 <= i < r.provenance.len() && r.provenance[i].key == key && !blank(r.provenance[i].value)
            && forall|j: int| 0 <= j < i ==> (#[trigger] r.provenance[j]).key != key
}

/// Whether each tolerance that a regression is held to can be held to.
pub open spec fn tolerances_usable(ms: Seq<MetricView>) -> bool {
    forall|i: int|
        0 <= i < ms.len() ==> (#[trigger] ms[i]).drift == Drift::Informational || (finite(
            ms[i].tolerance.bits,
        ) && at_most(0, ms[i].tolerance.bits))
}

/// Whether some metric is held to a direction.
pub open spec fn some_claim(ms: Seq<MetricView>) -> bool {
    exists|i: int| 0 <= i < ms.len() && (#[trigger] ms[i]).drift != Drift::Informational
}

/// Whether a host is fair for a row.
pub open spec fn fair_for(f: FitnessView, s: Sensitivity) -> bool {
    match s {
        Sensitivity::HostIndependent => true,
        Sensitivity::AbsoluteTiming => f.fair_for_timing,
        Sensitivity::Ratio => f.fair_for_ratios,
        Sensitivity::Memory => f.fair_for_memory,
    }
}

/// What is asked of a row: numbers only as a claim on a host that is fair for them, with the
/// cores that they need, or with the operator's word and a reason; no number beside an
/// excuse; and an excuse that still holds and names a command.
#[verifier::opaque]
pub open spec fn row_keeps_the_rules(row: RowView, r: ReportView) -> bool {
    let both = row.tf_tree + row.tf2;
    let f = r.fitness;
    &&& tolerances_usable(both)
    &&& !blank(row.reproduce)
    &&& row.status is Measured ==> {
        &&& some_claim(both)
        &&& row.grounds.len() == 0
        &&& fair_for(f, row.sensitivity)
        &&& row.needs_n_cores && row.sensitivity != Sensitivity::Memory ==> f.enough_cores
    }
    &&& row.status is Indicative ==> {
        &&& some_claim(both)
        &&& row.grounds.len() == 0
        &&& !fair_for(f, row.sensitivity)
        &&& f.forced
        &&& !blank(row.reason)
    }
    &&& row.status is Unavailable ==> {
        &&& both.len() == 0
        &&& !blank(row.reason)
        &&& row.grounds.len() >= 1
        &&& forall|i: int|
            0 <= i < row.grounds.len() ==> match #[trigger] row.grounds[i] {
                Ground::HostFitness => !fair_for(f, row.sensitivity),
                Ground::HostCores => !f.enough_cores && row.needs_n_cores && row.sensitivity
                    != Sensitivity::Memory,
                Ground::Tf2NotLinked => !r.build.tf2_linked,
                Ground::FrozenBackendNotCompiled => !r.build.frozen_backend,
                _ => true,
            }
    }
}

/// What is asked of an entry on where the engine is worse.
#[verifier::opaque]
pub open spec fn entry_keeps_the_rules(w: WorseView, r: ReportView) -> bool {
    &&& !blank(w.statement)
    &&& tolerances_usable(w.metrics)
    &&& w.metrics.len() == 0 ==> (w.metrics_absent_because matches Some(s) && !blank(s))
    &&& w.metrics.len() >= 1 ==> w.metrics_absent_because is None
    &&& w.metrics.len() >= 1 && r.fitness.fair_for_memory && w.metrics_withheld.len() == 0
        ==> some_claim(w.metrics)
}

proof fn lemma_no_row(rows: Seq<RowView>, id: Seq<char>)
    ensures
        occurrences(rows, id) == 0 <==> forall|i: int|
            0 <= i < rows.len() ==> (#[trigger] rows[i]).id != id,
    decreases rows.len(),
{
    if rows.len() > 0 {
        let w = rows.drop_last();
        lemma_no_row(w, id);
        assert(forall|i: int| 0 <= i < w.len() ==> #[trigger] w[i] == rows[i]);
        assert(rows[rows.len() - 1] == rows.last());
        if occurrences(rows, id) == 0 {
            assert forall|i: int| 0 <= i < rows.len() implies (#[trigger] rows[i]).id != id by {
                if i < w.len() {
                    assert(w[i].id != id);
                }
            }
        } else if occurrences(w, id) != 0 {
            let k = choose|k: int| 0 <= k < w.len() && (#[trigger] w[k]).id == id;
            assert(rows[k].id == id);
        }
    }
}

proof fn lemma_unique_row(rows: Seq<RowView>, id: Seq<char>, k: int)
    requires
        0 <= k < rows.len(),
        rows[k].id == id,
        forall|j: int| 0 <= j < rows.len() && (#[trigger] rows[j]).id == id ==> j == k,
    ensures
        occurrences(rows, id) == 1,
    decreases rows.len(),
{
    let w = rows.drop_last();
    assert forall|j: int| 0 <= j < w.len() && (#[trigger] w[j]).id == id implies j == k by {
        assert(rows[j].id == id);
    }
    if k == rows.len() - 1 {
        lemma_no_row(w, id);
    } else {
        assert(w[k].id == id);
        assert(rows[rows.len() - 1].id != id);
        lemma_unique_row(w, id, k);
    }
}

proof fn lemma_where_row(rows: Seq<RowView>, id: Seq<char>) -> (k: int)
    requires
        occurrences(rows, id) == 1,
    ensures
        0 <= k < rows.len(),
        rows[k].id == id,
        forall|j: int| 0 <= j < rows.len() && (#[trigger] rows[j]).id == id ==> j == k,
    decreases rows.len(),
{
    let w = rows.drop_last();
    let n = rows.len() - 1;
    if rows.last().id == id {
        lemma_no_row(w, id);
        assert forall|j: int| 0 <= j < rows.len() && (#[trigger] rows[j]).id == id implies j == n by {
            if j < n {
                assert(w[j].id != id);
            }
        }
        n
    } else {
        let k = lemma_where_row(w, id);
        assert(rows[k] == w[k]);
        assert forall|j: int| 0 <= j < rows.len() && (#[trigger] rows[j]).id == id implies j == k by {
            assert(w[j].id == id);
        }
        k
    }
}

proof fn lemma_one_row(rows: Seq<RowView>, id: Seq<char>)
    ensures
        occurrences(rows, id) == 1 <==> one_row(rows, id),
{
    if occurrences(rows, id) == 1 {
        let k = lemma_where_row(rows, id);
        assert(alone(rows, id, k));
    }
    if one_row(rows, id) {
        let k = choose|k: int| #[trigger] alone(rows, id, k);
        lemma_unique_row(rows, id, k);
    }
}

proof fn lemma_states(facts: Seq<super::FactView>, key: Seq<char>)
    ensures
        (super::lookup(facts, key) matches Some(v) && !blank(v)) <==> exists|i: int|
            #![trigger facts[i]]
            0 <= i < facts.len() && facts[i].key == key && !blank(facts[i].value) && forall|j: int|
                0 <= j < i ==> (#[trigger] facts[j]).key != key,
    decreases facts.len(),
{
    if facts.len() > 0 && facts[0].key != key {
        let rest = facts.skip(1);
        lemma_states(rest, key);
        assert(forall|i: int| 0 <= i < rest.len() ==> #[trigger] rest[i] == facts[i + 1]);
        if super::lookup(facts, key) matches Some(v) && !blank(v) {
            let i = choose|i: int|
                #![trigger rest[i]]
                0 <= i < rest.len() && rest[i].key == key && !blank(rest[i].value) && forall|j: int|
                    0 <= j < i ==> (#[trigger] rest[j]).key != key;
            assert forall|j: int| 0 <= j < i + 1 implies (#[trigger] facts[j]).key != key by {
                if j > 0 {
                    assert(rest[j - 1].key != key);
                }
            }
            assert(facts[i + 1].key == key);
        }
        if exists|i: int|
            #![trigger facts[i]]
            0 <= i < facts.len() && facts[i].key == key && !blank(facts[i].value) && forall|j: int|
                0 <= j < i ==> (#[trigger] facts[j]).key != key {
            let i = choose|i: int|
                #![trigger facts[i]]
                0 <= i < facts.len() && facts[i].key == key && !blank(facts[i].value)
                    && forall|j: int| 0 <= j < i ==> (#[trigger] facts[j]).key != key;
            assert forall|j: int| 0 <= j < i - 1 implies (#[trigger] rest[j]).key != key by {
                assert(facts[j + 1].key != key);
            }
            assert(rest[i - 1].key == key);
        }
    }
}

proof fn lemma_row_rules(row: RowView, r: ReportView)
    ensures
        row_ok(row, r) <==> row_keeps_the_rules(row, r),
{
    reveal(row_keeps_the_rules);
    let both = row.tf_tree + row.tf2;
    assert(row.metrics() == both);
    assert(some_directional(both) <==> some_claim(both));
    assert((forall|i: int|
        0 <= i < both.len() ==> usable_tolerance(#[trigger] both[i]))
        <==> tolerances_usable(both));
    if row_ok(row, r) && row.status is Unavailable {
        assert forall|i: int| 0 <= i < row.grounds.len() implies match #[trigger] row.grounds[i] {
            Ground::HostFitness => !fair_for(r.fitness, row.sensitivity),
            Ground::HostCores => !r.fitness.enough_cores && row.needs_n_cores && row.sensitivity
                != Sensitivity::Memory,
            Ground::Tf2NotLinked => !r.build.tf2_linked,
            Ground::FrozenBackendNotCompiled => !r.build.frozen_backend,
            _ => true,
        } by {
            assert(row.grounds[i].verdict(r.build, r.fitness, row) != Some(false));
        }
    }
}

proof fn lemma_facts_rule(r: ReportView)
    ensures
        (forall|k: int| 0 <= k < 9 ==> states(r, #[trigger] fact_keys()[k])) <==> (forall|i: int|
            0 <= i < 9 ==> fact_stated(r, #[trigger] REQUIRED_FACTS@[i]@)),
{
    assert forall|k: int| 0 <= k < 9 implies (states(r, #[trigger] fact_keys()[k])
        <==> fact_stated(r, REQUIRED_FACTS@[k]@)) by {
        assert(fact_keys()[k] == REQUIRED_FACTS@[k]@);
        lemma_states(r.provenance, fact_keys()[k]);
    }
    if forall|k: int| 0 <= k < 9 ==> states(r, #[trigger] fact_keys()[k]) {
        assert forall|i: int| 0 <= i < 9 implies fact_stated(r, #[trigger] REQUIRED_FACTS@[i]@) by {
            assert(states(r, fact_keys()[i]));
        }
    }
    if forall|i: int| 0 <= i < 9 ==> fact_stated(r, #[trigger] REQUIRED_FACTS@[i]@) {
        assert forall|k: int| 0 <= k < 9 implies states(r, #[trigger] fact_keys()[k]) by {
            assert(fact_stated(r, REQUIRED_FACTS@[k]@));
        }
    }
}

proof fn lemma_rows_rule(r: ReportView)
    ensures
        (forall|k: int| 0 <= k < 10 ==> one_row(r.rows, #[trigger] row_ids()[k])) <==> (
        forall|i: int| 0 <= i < 10 ==> occurrences(r.rows, #[trigger] REQUIRED_ROWS@[i]@) == 1),
{
    assert forall|k: int| 0 <= k < 10 implies (one_row(r.rows, #[trigger] row_ids()[k])
        <==> occurrences(r.rows, REQUIRED_ROWS@[k]@) == 1) by {
        assert(row_ids()[k] == REQUIRED_ROWS@[k]@);
        lemma_one_row(r.rows, row_ids()[k]);
    }
    if forall|k: int| 0 <= k < 10 ==> one_row(r.rows, #[trigger] row_ids()[k]) {
        assert forall|i: int| 0 <= i < 10 implies occurrences(
            r.rows,
            #[trigger] REQUIRED_ROWS@[i]@,
        ) == 1 by {
            assert(one_row(r.rows, row_ids()[i]));
        }
    }
    if forall|i: int| 0 <= i < 10 ==> occurrences(r.rows, #[trigger] REQUIRED_ROWS@[i]@) == 1 {
        assert forall|k: int| 0 <= k < 10 implies one_row(r.rows, #[trigger] row_ids()[k]) by {
            assert(occurrences(r.rows, REQUIRED_ROWS@[k]@) == 1);
        }
    }
}

/// Whether an entry is on a topic.
pub open spec fn owns_up(r: ReportView, id: Seq<char>) -> bool {
    exists|i: int| 0 <= i < r.worse.len() && (#[trigger] r.worse[i]).id == id
}

proof fn lemma_topics_rule(r: ReportView)
    ensures
        (forall|k: int| 0 <= k < 4 ==> owns_up(r, #[trigger] worse_ids()[k])) <==> (forall|i: int|
            0 <= i < 4 ==> topic_present(r, #[trigger] REQUIRED_WORSE@[i]@)),
{
    assert forall|k: int| 0 <= k < 4 implies (owns_up(r, #[trigger] worse_ids()[k])
        <==> topic_present(r, REQUIRED_WORSE@[k]@)) by {
        assert(worse_ids()[k] == REQUIRED_WORSE@[k]@);
    }
    if forall|k: int| 0 <= k < 4 ==> owns_up(r, #[trigger] worse_ids()[k]) {
        assert forall|i: int| 0 <= i < 4 implies topic_present(
            r,
            #[trigger] REQUIRED_WORSE@[i]@,
        ) by {
            assert(owns_up(r, worse_ids()[i]));
        }
    }
    if forall|i: int| 0 <= i < 4 ==> topic_present(r, #[trigger] REQUIRED_WORSE@[i]@) {
        assert forall|k: int| 0 <= k < 4 implies owns_up(r, #[trigger] worse_ids()[k]) by {
            assert(topic_present(r, REQUIRED_WORSE@[k]@));
        }
    }
}

proof fn lemma_each_row_rule(r: ReportView)
    ensures
        (forall|i: int| 0 <= i < r.rows.len() ==> row_keeps_the_rules(#[trigger] r.rows[i], r))
            <==> (forall|i: int| 0 <= i < r.rows.len() ==> row_ok(#[trigger] r.rows[i], r)),
{
    if forall|i: int| 0 <= i < r.rows.len() ==> row_keeps_the_rules(#[trigger] r.rows[i], r) {
        assert forall|i: int| 0 <= i < r.rows.len() implies row_ok(#[trigger] r.rows[i], r) by {
            lemma_row_rules(r.rows[i], r);
        }
    }
    if forall|i: int| 0 <= i < r.rows.len() ==> row_ok(#[trigger] r.rows[i], r) {
        assert forall|i: int| 0 <= i < r.rows.len() implies row_keeps_the_rules(#[trigger] r.rows[i], r) by {
            lemma_row_rules(r.rows[i], r);
        }
    }
}

proof fn lemma_entry_rules(w: WorseView, r: ReportView)
    ensures
        worse_ok(w, r) <==> entry_keeps_the_rules(w, r),
{
    reveal(entry_keeps_the_rules);
    assert(some_directional(w.metrics) <==> some_claim(w.metrics));
    assert((forall|i: int| 0 <= i < w.metrics.len() ==> usable_tolerance(#[trigger] w.metrics[i]))
        <==> tolerances_usable(w.metrics));
}

proof fn lemma_each_entry_rule(r: ReportView)
    ensures
        (forall|i: int| 0 <= i < r.worse.len() ==> entry_keeps_the_rules(#[trigger] r.worse[i], r))
            <==> (forall|i: int| 0 <= i < r.worse.len() ==> worse_ok(#[trigger] r.worse[i], r)),
{
    if forall|i: int| 0 <= i < r.worse.len() ==> entry_keeps_the_rules(#[trigger] r.worse[i], r) {
        assert forall|i: int| 0 <= i < r.worse.len() implies worse_ok(#[trigger] r.worse[i], r) by {
            lemma_entry_rules(r.worse[i], r);
        }
    }
    if forall|i: int| 0 <= i < r.worse.len() ==> worse_ok(#[trigger] r.worse[i], r) {
        assert forall|i: int| 0 <= i < r.worse.len() implies entry_keeps_the_rules(#[trigger] r.worse[i], r) by {
            lemma_entry_rules(r.worse[i], r);
        }
    }
}

/// Whether the discarded warm-up is a duration, and not zero beside a timed number.
pub open spec fn warmed_up(r: ReportView) -> bool {
    &&& finite(r.warmup.bits) && at_most(0, r.warmup.bits)
    &&& less(0, r.warmup.bits) || forall|i: int|
        0 <= i < r.rows.len() ==> (#[trigger] r.rows[i]).status is Unavailable || (
        r.rows[i].sensitivity != Sensitivity::AbsoluteTiming && r.rows[i].sensitivity
            != Sensitivity::Ratio)
}

proof fn lemma_warmup_rule(r: ReportView)
    ensures
        warmed_up(r) <==> warmup_stated(r),
{
    assert(finite(r.warmup.bits) ==> (less(0, r.warmup.bits) <==> rank(r.warmup.bits) > 0));
    if finite(r.warmup.bits) && rank(r.warmup.bits) == 0 {
        if warmup_stated(r) {
            assert forall|i: int| 0 <= i < r.rows.len() implies (#[trigger] r.rows[i]).status
                is Unavailable || (r.rows[i].sensitivity != Sensitivity::AbsoluteTiming
                && r.rows[i].sensitivity != Sensitivity::Ratio) by {
                assert(!(r.rows[i].timed() && r.rows[i].prints_numbers()));
            }
        }
        if warmed_up(r) {
            assert forall|i: int| 0 <= i < r.rows.len() implies !((#[trigger] r.rows[i]).timed()
                && r.rows[i].prints_numbers()) by {
            }
        }
    }
}

/// What a report must be to have nothing said against it, and when alone: every required fact
/// is stated; the warm-up is a duration, and not zero beside a timed number; each required
/// row is there once; each required topic is owned up to; and every row and entry keeps the
/// rules.
pub proof fn law_what_a_report_must_be(r: ReportView)
    ensures
        breaches(r).len() == 0 <==> {
            &&& forall|k: int| 0 <= k < 9 ==> states(r, #[trigger] fact_keys()[k])
            &&& warmed_up(r)
            &&& forall|k: int| 0 <= k < 10 ==> one_row(r.rows, #[trigger] row_ids()[k])
            &&& forall|k: int| 0 <= k < 4 ==> owns_up(r, #[trigger] worse_ids()[k])
            &&& forall|i: int|
                0 <= i < r.rows.len() ==> row_keeps_the_rules(#[trigger] r.rows[i], r)
            &&& forall|i: int|
                0 <= i < r.worse.len() ==> entry_keeps_the_rules(#[trigger] r.worse[i], r)
        },
{
    law_valid_iff_no_breach(r);
    lemma_facts_rule(r);
    lemma_warmup_rule(r);
    lemma_rows_rule(r);
    lemma_topics_rule(r);
    lemma_each_row_rule(r);
    lemma_each_entry_rule(r);
}

/// Whether every metric of a list that may move one way only has a slack, and the others none.
pub open spec fn slack_is(ms: Seq<MetricView>, bits: u64) -> bool {
    forall|i: int|
        0 <= i < ms.len() ==> (if (#[trigger] ms[i]).drift is Informational {
            ms[i].tolerance.bits == 0
        } else {
            ms[i].tolerance.bits == bits
        })
}

/// How far the numbers of a report may move: a latency by a quarter, a deviation tenfold, a ratio
/// by three twentieths, the price of embedding by a twentieth, residency fourfold.
pub proof fn law_how_far_a_number_may_move(
    l: LookupView,
    a: AgreementView,
    p: PairedView,
    r: embed::RunView,
    lookups: NumberView,
    idle: Option<IdleView>,
)
    ensures
        slack_is(lookup_metrics(l), 0x3fd0_0000_0000_0000),
        slack_is(agreement_metrics(a), 0x4022_0000_0000_0000),
        slack_is(ratio_metrics(p), 0x3fc3_3333_3333_3333),
        slack_is(embed::run_metrics(r, lookups), 0x3fa9_9999_9999_999a),
        slack_is(resident_metrics(idle), 0x4008_0000_0000_0000),
{
}

/// How far the numbers of a soak may move: each by half, and the drift itself by a fifth.
pub proof fn law_how_far_a_soak_may_move(i: Interval, s: Summary)
    ensures
        slack_is(interval_metrics(i), 0x3fe0_0000_0000_0000),
        summary_metrics(s).len() == 4,
        summary_metrics(s)[0].tolerance.bits == 0x3fc9_9999_9999_999a,
        summary_metrics(s)[1].tolerance.bits == 0x3fe0_0000_0000_0000,
{
}

/// What the numbers are in.
pub proof fn law_what_the_numbers_are_in(
    l: LookupView,
    a: AgreementView,
    p: PairedView,
    i: Interval,
    s: Summary,
)
    ensures
        forall|k: int|
            0 <= k < 5 && k != 3 ==> (#[trigger] lookup_metrics(l)[k]).unit == "ns"@,
        lookup_metrics(l)[3].unit == "lookups"@,
        agreement_metrics(a)[0].unit == "rad or m"@,
        agreement_metrics(a)[1].unit == "queries"@,
        agreement_metrics(a)[2].unit == "rad or m"@,
        forall|k: int| 0 <= k < 4 ==> (#[trigger] ratio_metrics(p)[k]).unit == "x"@,
        ratio_metrics(p)[4].unit == "ns"@,
        ratio_metrics(p)[5].unit == "queries"@,
        forall|k: int| 0 <= k < 4 ==> (#[trigger] interval_metrics(i)[k]).unit == "ns"@,
        interval_metrics(i)[4].unit == "KiB"@,
        summary_metrics(s)[0].unit == "x"@,
        summary_metrics(s)[1].unit == "KiB"@,
{
}

} // verus!
