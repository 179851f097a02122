//! Every report that can be assembled keeps the rules.

use vstd::prelude::*;

use super::assemble::{
    agreement_metrics, agreement_row, assembled, cpu_row, embedding_view, frozen_reason,
    host_grounds, host_parts, host_reason, indicative, lookup_metrics, lookup_row, open_row,
    ratio_metrics, ratio_view, rss_row, scaling_row, visible_row, workers_row, AgreementView,
    EmbeddingView, LookupView, MeasuredView, Options, PairedView, AGREEMENT_COMMAND, CPU_COMMAND,
    EMBEDDING_COMMAND, INDICATIVE, LOOKUP_COMMAND, OPEN_COMMAND, RATIO_COMMAND, RATIO_INDICATIVE,
    RSS_COMMAND, SCALING_COMMAND, VISIBLE_COMMAND, WORKERS_COMMAND,
};
use super::host::{
    collected, core_count, headline, model_text, utc_text, SurroundingsView, FACT_KEYS, NO_DDS,
    NO_EXECUTOR, NO_RMW, NO_ROS, NO_TF2,
};
use super::validate::{
    fact_stated, occurrences, row_ok, some_directional, topic_present, usable_tolerance, valid,
    warmup_stated, worse_ok,
};
use super::worse::{entries, floor_entry, ArenaView};
use super::{
    lookup, Build, FactView, FitnessView, ReportView, RowView, Status, REQUIRED_FACTS,
    REQUIRED_ROWS, REQUIRED_WORSE,
};
use crate::embed;
use crate::text::{blank, digits, is_space, joined};

verus! {

/// Whether a text opens with something other than white space.
pub open spec fn speaks(s: Seq<char>) -> bool {
    s.len() > 0 && !is_space(s[0])
}

proof fn lemma_speaks_on(a: Seq<char>, b: Seq<char>)
    requires
        speaks(a),
    ensures
        speaks(a + b),
        !blank(a),
        !blank(a + b),
{
    assert((a + b)[0] == a[0]);
}

proof fn lemma_joined_speaks(parts: Seq<Seq<char>>, sep: Seq<char>)
    requires
        parts.len() > 0,
        speaks(parts[0]),
    ensures
        speaks(joined(parts, sep)),
    decreases parts.len(),
{
    if parts.len() > 1 {
        lemma_joined_speaks(parts.drop_last(), sep);
        let head = joined(parts.drop_last(), sep);
        lemma_speaks_on(head, sep);
        lemma_speaks_on(head + sep, parts.last());
    }
}

proof fn lemma_commands_speak()
    ensures
        !blank(CPU_COMMAND@),
        !blank(RSS_COMMAND@),
        !blank(LOOKUP_COMMAND@),
        !blank(VISIBLE_COMMAND@),
        !blank(SCALING_COMMAND@),
        !blank(WORKERS_COMMAND@),
        !blank(OPEN_COMMAND@),
        !blank(AGREEMENT_COMMAND@),
        !blank(EMBEDDING_COMMAND@),
        !blank(RATIO_COMMAND@),
{
    reveal_strlit("just mp-bench (tf_tree) / just mp-bench-tf2 (both, in the ROS container)");
    reveal_strlit("just mp-bench-tf2");
    reveal_strlit(
        "cargo bench -p tf_tree_bench --bench lookup (or this tool on a quiet, non-SMT, performance-governor host)",
    );
    reveal_strlit("just mp-bench (tf_tree, service latency) / just mp-bench-tf2");
    reveal_strlit("just tf2-scaling / just shm-scaling, on >= 16 physical cores");
    reveal_strlit(
        "just gate4 (the Rust worker, which is what §12 criterion 4 is stated over; `just gate4-python` reports the same measurement with a CPython worker and does not gate)",
    );
    reveal_strlit(
        "just bench-report-shm against a .tft built by `tf_tree freeze --from-bag` from a recording large enough to produce §12 gate 2's 233 MB index",
    );
    reveal_strlit("cargo test -p tf_tree_bench --release --test differential");
    reveal_strlit("just embed-cost");
    reveal_strlit(
        "just tf2-bench (the ratio resolves only where ROS 2 is installed; `docker/tf2/run.sh` is that place on this host)",
    );
    assert(!is_space('j'));
    assert(!is_space('c'));
    assert(speaks(CPU_COMMAND@));
    assert(speaks(RSS_COMMAND@));
    assert(speaks(LOOKUP_COMMAND@));
    assert(speaks(VISIBLE_COMMAND@));
    assert(speaks(SCALING_COMMAND@));
    assert(speaks(WORKERS_COMMAND@));
    assert(speaks(OPEN_COMMAND@));
    assert(speaks(AGREEMENT_COMMAND@));
    assert(speaks(EMBEDDING_COMMAND@));
    assert(speaks(RATIO_COMMAND@));
}

/// The words that the reasons and statements open with.
proof fn lemma_openings_speak()
    ensures
        speaks("A "@),
        speaks("Joining "@),
        speaks("the "@),
        speaks("Every "@),
        speaks("this "@),
        speaks("The "@),
        speaks("neither "@),
{
    reveal_strlit("A ");
    reveal_strlit("Joining ");
    reveal_strlit("the ");
    reveal_strlit("Every ");
    reveal_strlit("this ");
    reveal_strlit("The ");
    reveal_strlit("neither ");
    assert(!is_space('A') && !is_space('J') && !is_space('t') && !is_space('E') && !is_space('T')
        && !is_space('n'));
}

proof fn lemma_host_reason_speaks(consumers: usize, f: FitnessView, build: Build, ros: bool)
    ensures
        speaks(host_reason(consumers, f, build, ros)),
{
    reveal_strlit("this tool is a single process: it stands up none of the ");
    assert(!is_space('t'));
    let head = "this tool is a single process: it stands up none of the "@;
    let parts = host_parts(consumers, f, build, ros);
    lemma_speaks_on(head, digits(consumers as nat));
    lemma_speaks_on(
        head + digits(consumers as nat),
        " consumers this row compares, so the row is not measured here on any host — the command below is what measures it"@,
    );
    assert(parts[0] == head + digits(consumers as nat)
        + " consumers this row compares, so the row is not measured here on any host — the command below is what measures it"@);
    lemma_joined_speaks(parts, "; "@);
}

proof fn lemma_frozen_reason_speaks(build: Build, attempt: Seq<char>, recipe: Seq<char>)
    requires
        speaks(attempt),
    ensures
        speaks(frozen_reason(build, attempt, recipe)),
{
    lemma_opens_alike(attempt, frozen_reason(build, attempt, recipe));
}

proof fn lemma_opens_alike(a: Seq<char>, whole: Seq<char>)
    requires
        speaks(a),
        whole.len() >= a.len(),
        whole[0] == a[0],
    ensures
        speaks(whole),
        !blank(whole),
{
}

/// A row without numbers keeps the rules where it says why, names a command, and rests on
/// grounds that hold.
proof fn lemma_gap_ok(row: RowView, r: ReportView)
    requires
        row.status == Status::Unavailable,
        row.tf_tree.len() == 0,
        row.tf2.len() == 0,
        !blank(row.reason),
        !blank(row.reproduce),
        row.grounds.len() > 0,
        forall|i: int|
            0 <= i < row.grounds.len() ==> (#[trigger] row.grounds[i]).verdict(
                r.build,
                r.fitness,
                row,
            ) != Some(false),
    ensures
        row_ok(row, r),
{
}

/// A row with numbers keeps the rules where the host is fair for it, or the operator
/// forced it and it says so.
proof fn lemma_measured_ok(row: RowView, r: ReportView)
    requires
        row.status == r.fitness.status(row.sensitivity),
        row.status != Status::Unavailable,
        row.status == Status::Indicative ==> !blank(row.reason),
        !row.needs_n_cores,
        row.grounds.len() == 0,
        !blank(row.reproduce),
        row.tf_tree.len() > 0,
        row.tf_tree[0].directional(),
        forall|i: int| 0 <= i < row.tf_tree.len() ==> usable_tolerance(#[trigger] row.tf_tree[i]),
        forall|i: int| 0 <= i < row.tf2.len() ==> usable_tolerance(#[trigger] row.tf2[i]),
    ensures
        row_ok(row, r),
{
    let ms = row.metrics();
    assert(ms[0] == row.tf_tree[0]);
    assert(some_directional(ms));
    assert forall|i: int| 0 <= i < ms.len() implies usable_tolerance(#[trigger] ms[i]) by {
        if i < row.tf_tree.len() {
            assert(ms[i] == row.tf_tree[i]);
        } else {
            assert(ms[i] == row.tf2[i - row.tf_tree.len()]);
        }
    }
}

/// The grounds that a row over all the consumers rests on hold.
proof fn lemma_host_grounds_hold(row: RowView, r: ReportView, ros: bool)
    requires
        r.fitness.wf(),
        row.core_budget_applies(),
        row.sensitivity == super::Sensitivity::AbsoluteTiming,
    ensures
        forall|i: int|
            0 <= i < host_grounds(r.fitness, r.build, ros).len() ==> (#[trigger] host_grounds(
                r.fitness,
                r.build,
                ros,
            )[i]).verdict(r.build, r.fitness, row) != Some(false),
{
}

proof fn lemma_n_way_rows_ok(consumers: usize, ros: bool, r: ReportView)
    requires
        r.fitness.wf(),
    ensures
        ({
            let reason = host_reason(consumers, r.fitness, r.build, ros);
            let grounds = host_grounds(r.fitness, r.build, ros);
            &&& row_ok(cpu_row(reason, grounds), r)
            &&& row_ok(visible_row(reason, grounds, r.build), r)
            &&& row_ok(scaling_row(reason, grounds, r.fitness.core_reason is Some), r)
        }),
{
    lemma_commands_speak();
    lemma_host_reason_speaks(consumers, r.fitness, r.build, ros);
    let reason = host_reason(consumers, r.fitness, r.build, ros);
    let grounds = host_grounds(r.fitness, r.build, ros);
    let cpu = cpu_row(reason, grounds);
    let visible = visible_row(reason, grounds, r.build);
    let scaling = scaling_row(reason, grounds, r.fitness.core_reason is Some);
    lemma_speaks_on(reason, seq![]);
    lemma_opens_alike(reason, visible.reason);
    lemma_opens_alike(reason, scaling.reason);
    lemma_host_grounds_hold(cpu, r, ros);
    lemma_host_grounds_hold(visible, r, ros);
    lemma_host_grounds_hold(scaling, r, ros);
    assert forall|i: int| 0 <= i < cpu.grounds.len() implies (#[trigger] cpu.grounds[i]).verdict(
        r.build,
        r.fitness,
        cpu,
    ) != Some(false) by {
        if i > 0 {
            assert(cpu.grounds[i] == grounds[i - 1]);
        }
    }
    assert forall|i: int| 0 <= i < scaling.grounds.len() implies (
    #[trigger] scaling.grounds[i]).verdict(r.build, r.fitness, scaling) != Some(false) by {
        if i > 0 {
            assert(scaling.grounds[i] == grounds[i - 1]);
        }
    }
    assert forall|i: int| 0 <= i < visible.grounds.len() implies (
    #[trigger] visible.grounds[i]).verdict(r.build, r.fitness, visible) != Some(false) by {
        if 0 < i <= grounds.len() {
            assert(visible.grounds[i] == grounds[i - 1]);
        }
    }
    lemma_gap_ok(cpu, r);
    lemma_gap_ok(visible, r);
    lemma_gap_ok(scaling, r);
}

proof fn lemma_memory_rows_ok(r: ReportView)
    ensures
        row_ok(rss_row(r.build), r),
        row_ok(workers_row(r.build), r),
        row_ok(open_row(r.build), r),
{
    lemma_commands_speak();
    lemma_openings_speak();
    reveal_strlit("mapping one .tft from sixteen worker processes");
    reveal_strlit("timing `Tree::open_frozen` against a 233 MB index");
    assert(!is_space('m') && !is_space('t'));
    let rss = rss_row(r.build);
    lemma_opens_alike("this "@, rss.reason);
    lemma_gap_ok(rss, r);
    let workers = workers_row(r.build);
    lemma_frozen_reason_speaks(
        r.build,
        "mapping one .tft from sixteen worker processes"@,
        "just gate4"@,
    );
    lemma_gap_ok(workers, r);
    let open = open_row(r.build);
    lemma_frozen_reason_speaks(
        r.build,
        "timing `Tree::open_frozen` against a 233 MB index"@,
        "just gate2"@,
    );
    lemma_opens_alike(
        frozen_reason(
            r.build,
            "timing `Tree::open_frozen` against a 233 MB index"@,
            "just gate2"@,
        ),
        open.reason,
    );
    lemma_gap_ok(open, r);
}

proof fn lemma_indicative_speaks(why: Seq<char>)
    ensures
        !blank(indicative(Status::Indicative, why)),
        !blank(RATIO_INDICATIVE@ + why),
{
    reveal_strlit(
        "INDICATIVE, not a claim: TF_TREE_BENCH_FORCE=1 overrode the fitness refusal. ",
    );
    reveal_strlit(
        "INDICATIVE, not a claim: TF_TREE_BENCH_FORCE=1 overrode the refusal. ",
    );
    assert(!is_space('I'));
    lemma_speaks_on(INDICATIVE@, why);
    lemma_speaks_on(RATIO_INDICATIVE@, why);
}

proof fn lemma_lookup_row_ok(l: Result<LookupView, Seq<char>>, r: ReportView)
    requires
        lookup_row(r.fitness, l) is Ok,
    ensures
        row_ok(lookup_row(r.fitness, l)->Ok_0, r),
{
    lemma_commands_speak();
    lemma_openings_speak();
    let row = lookup_row(r.fitness, l)->Ok_0;
    if row.status == Status::Unavailable {
        lemma_opens_alike("this "@, row.reason);
        lemma_gap_ok(row, r);
    } else {
        lemma_indicative_speaks(r.fitness.reason_line());
        assert(row.tf_tree == lookup_metrics(l->Ok_0));
        lemma_measured_ok(row, r);
    }
}

proof fn lemma_agreement_row_ok(naive: AgreementView, tf2: Option<AgreementView>, r: ReportView)
    ensures
        row_ok(agreement_row(naive, tf2), r),
{
    lemma_commands_speak();
    let row = agreement_row(naive, tf2);
    assert(row.tf_tree == agreement_metrics(naive));
    lemma_measured_ok(row, r);
}

proof fn lemma_embedding_row_ok(e: Option<EmbeddingView>, r: ReportView)
    ensures
        row_ok(embedding_view(r.fitness, e), r),
{
    lemma_commands_speak();
    lemma_openings_speak();
    let row = embedding_view(r.fitness, e);
    reveal_strlit("the pair was measured and cannot resolve §9.2's 5% criterion: ");
    assert(!is_space('t'));
    match e {
        None => {
            lemma_opens_alike("this "@, row.reason);
            lemma_gap_ok(row, r);
        },
        Some(x) => {
            let line = embed::verdict_text(x.run, x.excess_percent);
            lemma_speaks_on(
                "the pair was measured and cannot resolve §9.2's 5% criterion: "@,
                line,
            );
            if row.status == Status::Unavailable {
                if embed::verdict_of(x.run.ratio_lo.bits, x.run.ratio_hi.bits)
                    != embed::Verdict::Unresolved {
                    lemma_opens_alike("the "@, row.reason);
                }
                lemma_gap_ok(row, r);
            } else {
                lemma_indicative_speaks(r.fitness.reason_line() + " Measured here: "@ + line);
                assert(row.tf_tree == embed::run_metrics(x.run, x.lookups));
                lemma_measured_ok(row, r);
            }
        },
    }
}

proof fn lemma_ratio_row_ok(p: Result<PairedView, Seq<char>>, r: ReportView)
    ensures
        row_ok(ratio_view(r.fitness, r.build, p), r),
{
    lemma_commands_speak();
    lemma_openings_speak();
    let row = ratio_view(r.fitness, r.build, p);
    reveal_strlit("the paired measurement could not be taken: ");
    reveal_strlit("the pair was measured and cannot resolve the 2.0x floor: ");
    reveal_strlit("the pair was measured and is BELOW the 2.0x floor this row gates: ");
    assert(!is_space('t'));
    if !r.build.tf2_linked {
        lemma_opens_alike("this "@, row.reason);
        lemma_gap_ok(row, r);
    } else {
        match p {
            Err(e) => {
                lemma_speaks_on("the paired measurement could not be taken: "@, e);
                lemma_gap_ok(row, r);
            },
            Ok(x) => {
                let line = crate::ratio::verdict_text(x.run, x.spread_percent);
                lemma_speaks_on("the pair was measured and cannot resolve the 2.0x floor: "@, line);
                lemma_speaks_on(
                    "the pair was measured and is BELOW the 2.0x floor this row gates: "@,
                    line,
                );
                if row.status == Status::Unavailable {
                    if crate::ratio::verdict_of(x.run.ratio_lo.bits, x.run.ratio_hi.bits)
                        == crate::ratio::Verdict::Above {
                        lemma_opens_alike("the "@, row.reason);
                    }
                    lemma_gap_ok(row, r);
                } else {
                    lemma_indicative_speaks(r.fitness.ratio_reason_line());
                    assert(row.tf_tree == ratio_metrics(x));
                    lemma_measured_ok(row, r);
                }
            },
        }
    }
}

proof fn lemma_entries_ok(consumers: usize, a: ArenaView, r: ReportView)
    requires
        r.worse == entries(consumers, r.fitness.fair_for_memory, a),
    ensures
        forall|i: int| 0 <= i < r.worse.len() ==> worse_ok(#[trigger] r.worse[i], r),
        forall|i: int| 0 <= i < 4 ==> topic_present(r, #[trigger] REQUIRED_WORSE@[i]@),
{
    lemma_openings_speak();
    let all = r.worse;
    let floor = floor_entry(r.fitness.fair_for_memory, a);
    assert(all[0] == floor);
    lemma_opens_alike("A "@, floor.statement);
    lemma_speaks_on("neither "@, super::worse::NEITHER_HALF@);
    if floor.metrics.len() > 0 && floor.metrics_withheld.len() == 0 {
        let k = floor.metrics.len() - 3;
        assert(floor.metrics[k].directional());
        assert(some_directional(floor.metrics));
    }
    assert(worse_ok(all[0], r));
    lemma_opens_alike("Joining "@, all[1].statement);
    lemma_speaks_on("the "@, super::worse::ATTACH_ABSENT@);
    assert(worse_ok(all[1], r));
    lemma_opens_alike("Every "@, all[2].statement);
    lemma_speaks_on("this "@, super::worse::BUMP_ABSENT@);
    assert(worse_ok(all[2], r));
    lemma_opens_alike("The "@, all[3].statement);
    lemma_speaks_on("the "@, super::worse::BRIDGE_ABSENT@);
    lemma_speaks_on("the "@ + super::worse::BRIDGE_ABSENT@, super::worse::BRIDGE_UNMOVED@);
    assert(worse_ok(all[3], r));
    assert forall|i: int| 0 <= i < 4 implies topic_present(r, #[trigger] REQUIRED_WORSE@[i]@) by {
        assert(all[i].id == REQUIRED_WORSE@[i]@);
    }
}

/// No two required rows have one id.
proof fn lemma_row_ids_differ(i: int, j: int)
    requires
        0 <= i < j < 10,
    ensures
        REQUIRED_ROWS@[i]@ != REQUIRED_ROWS@[j]@,
{
    reveal_strlit("cpu_per_consumer");
    reveal_strlit("total_rss_n_consumers");
    reveal_strlit("lookup_latency");
    reveal_strlit("publish_to_visible");
    reveal_strlit("scaling_curve");
    reveal_strlit("tft_16_workers_rss");
    reveal_strlit("tft_open_vs_bag_parse");
    reveal_strlit("differential_agreement");
    reveal_strlit("embedding_cross_crate");
    reveal_strlit("lookup_ratio_vs_tf2");
    let (a, b) = (REQUIRED_ROWS@[i]@, REQUIRED_ROWS@[j]@);
    assert(a.len() != b.len() || a[0] != b[0] || a[1] != b[1]);
}

proof fn lemma_each_id_once(rows: Seq<RowView>, n: int, i: int)
    requires
        0 <= n <= 10,
        rows.len() == n,
        forall|k: int| 0 <= k < n ==> (#[trigger] rows[k]).id == REQUIRED_ROWS@[k]@,
        0 <= i < 10,
    ensures
        occurrences(rows, REQUIRED_ROWS@[i]@) == (if i < n {
            1nat
        } else {
            0nat
        }),
    decreases n,
{
    if n > 0 {
        lemma_each_id_once(rows.drop_last(), n - 1, i);
        assert(rows.last().id == REQUIRED_ROWS@[n - 1]@);
        if i < n - 1 {
            lemma_row_ids_differ(i, n - 1);
        } else if i > n - 1 {
            lemma_row_ids_differ(n - 1, i);
        }
    }
}

/// A report that is assembled for an assessed host keeps every rule, whatever the build
/// and whatever was measured, as long as its provenance states the required facts and the
/// warm-up is stated.
pub proof fn law_assembled_is_valid(
    opts: Options,
    f: FitnessView,
    build: Build,
    ros: bool,
    m: MeasuredView,
)
    requires
        f.wf(),
        assembled(opts, f, build, ros, m) is Ok,
        forall|i: int|
            0 <= i < 9 ==> fact_stated(
                assembled(opts, f, build, ros, m)->Ok_0,
                #[trigger] REQUIRED_FACTS@[i]@,
            ),
        warmup_stated(assembled(opts, f, build, ros, m)->Ok_0),
    ensures
        valid(assembled(opts, f, build, ros, m)->Ok_0),
{
    let r = assembled(opts, f, build, ros, m)->Ok_0;
    let rows = r.rows;
    lemma_n_way_rows_ok(opts.consumers, ros, r);
    lemma_memory_rows_ok(r);
    lemma_lookup_row_ok(m.lookup, r);
    lemma_ratio_row_ok(m.paired, r);
    lemma_entries_ok(opts.consumers, m.arena, r);
    let naive = m.naive->Ok_0;
    let tf2 = if build.tf2_linked {
        Some(m.tf2->Ok_0)
    } else {
        None
    };
    lemma_agreement_row_ok(naive, tf2, r);
    assert(rows[7] == agreement_row(naive, tf2));
    let e = if opts.embed_cost is Some {
        Some(m.embedding->Ok_0)
    } else {
        None
    };
    lemma_embedding_row_ok(e, r);
    assert(rows[8] == embedding_view(f, e));
    assert forall|i: int| 0 <= i < rows.len() implies row_ok(#[trigger] rows[i], r) by {
        assert(i == 0 || i == 1 || i == 2 || i == 3 || i == 4 || i == 5 || i == 6 || i == 7 || i
            == 8 || i == 9);
    }
    assert forall|k: int| 0 <= k < 10 implies (#[trigger] rows[k]).id == REQUIRED_ROWS@[k]@ by {
        assert(k == 0 || k == 1 || k == 2 || k == 3 || k == 4 || k == 5 || k == 6 || k == 7 || k
            == 8 || k == 9);
    }
    assert forall|i: int| 0 <= i < 10 implies occurrences(rows, #[trigger] REQUIRED_ROWS@[i]@)
        == 1 by {
        lemma_each_id_once(rows, 10, i);
    }
}

/// No two facts of the provenance have one key.
proof fn lemma_fact_keys_differ(i: int, j: int)
    requires
        0 <= i < j < 29,
    ensures
        FACT_KEYS@[i]@ != FACT_KEYS@[j]@,
{
    reveal_strlit("generated_utc");
    reveal_strlit("schema");
    reveal_strlit("git_commit");
    reveal_strlit("git_dirty");
    reveal_strlit("rustc");
    reveal_strlit("build_profile");
    reveal_strlit("build_lto");
    reveal_strlit("target");
    reveal_strlit("counters_feature");
    reveal_strlit("shm_feature");
    reveal_strlit("tf2_feature");
    reveal_strlit("format_version");
    reveal_strlit("layout_hash");
    reveal_strlit("interp_policy");
    reveal_strlit("cpu_model");
    reveal_strlit("physical_cores");
    reveal_strlit("logical_cpus");
    reveal_strlit("cpu_governor");
    reveal_strlit("kernel");
    reveal_strlit("transparent_hugepage");
    reveal_strlit("transparent_hugepage_shmem");
    reveal_strlit("perf_event_paranoid");
    reveal_strlit("load_average");
    reveal_strlit("container");
    reveal_strlit("ros_distro");
    reveal_strlit("tf2_version");
    reveal_strlit("rmw_implementation");
    reveal_strlit("dds_qos");
    reveal_strlit("executor_config");
    let (a, b) = (FACT_KEYS@[i]@, FACT_KEYS@[j]@);
    assert(a.len() != b.len() || a[0] != b[0] || a[4] != b[4]);
}

proof fn lemma_lookup_at(facts: Seq<FactView>, k: int)
    requires
        0 <= k < facts.len(),
        forall|j: int| 0 <= j < k ==> (#[trigger] facts[j]).key != facts[k].key,
    ensures
        lookup(facts, facts[k].key) == Some(facts[k].value),
    decreases k,
{
    if k > 0 {
        assert(facts[0].key != facts[k].key);
        let rest = facts.skip(1);
        assert forall|j: int| 0 <= j < k - 1 implies (#[trigger] rest[j]).key != rest[k - 1].key by {
            assert(rest[j] == facts[j + 1]);
        }
        lemma_lookup_at(rest, k - 1);
    }
}

/// What the provenance states under one of its keys.
proof fn lemma_collected_at(s: SurroundingsView, k: int)
    requires
        0 <= k < 29,
    ensures
        lookup(collected(s), FACT_KEYS@[k]@) == Some(collected(s)[k].value),
{
    let facts = collected(s);
    assert(forall|j: int| 0 <= j < 29 ==> (#[trigger] facts[j]).key == FACT_KEYS@[j]@);
    assert forall|j: int| 0 <= j < k implies (#[trigger] facts[j]).key != facts[k].key by {
        lemma_fact_keys_differ(j, k);
    }
    lemma_lookup_at(facts, k);
}

/// Each fact is of the source that its key names: of two kinds of page, of the commit and of
/// the compiler, of the features and of the kernel each under its own. What could not be read
/// is said to be unknown, and a distribution, a middleware, a governor or a core count that is
/// there is stated as it is.
pub proof fn law_each_fact_is_of_its_source(s: SurroundingsView)
    ensures
        ({
            let f = |key: Seq<char>| lookup(collected(s), key);
            &&& f("generated_utc"@) == Some(utc_text(s.now_secs as int))
            &&& f("git_commit"@) == Some((match s.git_commit {
                Some(t) => t,
                None => "unknown"@,
            }))
            &&& f("rustc"@) == Some((match s.rustc {
                Some(t) => t,
                None => "unknown"@,
            }))
            &&& f("build_profile"@) == Some(s.profile_dir)
            &&& f("target"@) == Some(s.arch)
            &&& f("counters_feature"@) == Some((if s.counters_feature {
                "true"@
            } else {
                "false"@
            }))
            &&& f("shm_feature"@) == Some((if s.shm_feature {
                "true"@
            } else {
                "false"@
            }))
            &&& f("tf2_feature"@) == Some((if s.tf2_feature {
                "true"@
            } else {
                "false"@
            }))
            &&& f("format_version"@) == Some(digits(s.format_version as nat))
            &&& f("logical_cpus"@) == Some(digits(s.logical_cpus as nat))
            &&& f("kernel"@) == Some((match s.kernel {
                Some(t) => headline(t),
                None => "unknown"@,
            }))
            &&& f("transparent_hugepage"@) == Some((match s.hugepage {
                Some(t) => headline(t),
                None => "unknown"@,
            }))
            &&& f("transparent_hugepage_shmem"@) == Some((match s.hugepage_shmem {
                Some(t) => headline(t),
                None => "unknown"@,
            }))
            &&& f("perf_event_paranoid"@) == Some((match s.perf_event_paranoid {
                Some(t) => headline(t),
                None => "unknown"@,
            }))
            &&& f("load_average"@) == Some((match s.load_average {
                Some(t) => headline(t),
                None => "unknown"@,
            }))
            &&& f("git_dirty"@) == Some(
                match s.git_status {
                    None => "unknown"@,
                    Some(t) => if blank(t) {
                        "false"@
                    } else {
                        "true"@
                    },
                },
            )
            &&& f("container"@) == Some("no"@) <==> !s.in_container
            &&& s.ros_distro matches Some(d) ==> f("ros_distro"@) == Some(d) && f("tf2_version"@)
                == Some("the tf2 shipped with ROS 2 "@ + d)
            &&& s.rmw matches Some(r) ==> f("rmw_implementation"@) == Some(r)
            &&& s.cpuinfo is None ==> f("cpu_model"@) == Some("unknown"@) && f("physical_cores"@)
                == Some("unknown"@)
            &&& s.cpuinfo matches Some(t) ==> (core_count(t) matches Some(n) ==> f(
                "physical_cores"@,
            ) == Some(digits(n)))
            &&& s.cpuinfo matches Some(t) ==> (core_count(t) is None ==> f("physical_cores"@)
                == Some("unknown"@))
            &&& s.governor_files.len() == 0 ==> f("cpu_governor"@) == Some("unknown"@)
        }),
{
    reveal_strlit("no");
    reveal_strlit("yes (/.dockerenv present)");
    assert("no"@.len() == 2);
    let v = collected(s);
    lemma_collected_at(s, 0);
    assert(lookup(v, "generated_utc"@) == Some(v[0].value));
    lemma_collected_at(s, 2);
    assert(lookup(v, "git_commit"@) == Some(v[2].value));
    lemma_collected_at(s, 3);
    assert(lookup(v, "git_dirty"@) == Some(v[3].value));
    lemma_collected_at(s, 4);
    assert(lookup(v, "rustc"@) == Some(v[4].value));
    lemma_collected_at(s, 5);
    assert(lookup(v, "build_profile"@) == Some(v[5].value));
    lemma_collected_at(s, 7);
    assert(lookup(v, "target"@) == Some(v[7].value));
    lemma_collected_at(s, 8);
    assert(lookup(v, "counters_feature"@) == Some(v[8].value));
    lemma_collected_at(s, 9);
    assert(lookup(v, "shm_feature"@) == Some(v[9].value));
    lemma_collected_at(s, 10);
    assert(lookup(v, "tf2_feature"@) == Some(v[10].value));
    lemma_collected_at(s, 11);
    assert(lookup(v, "format_version"@) == Some(v[11].value));
    lemma_collected_at(s, 14);
    assert(lookup(v, "cpu_model"@) == Some(v[14].value));
    lemma_collected_at(s, 15);
    assert(lookup(v, "physical_cores"@) == Some(v[15].value));
    lemma_collected_at(s, 16);
    assert(lookup(v, "logical_cpus"@) == Some(v[16].value));
    lemma_collected_at(s, 17);
    assert(lookup(v, "cpu_governor"@) == Some(v[17].value));
    lemma_collected_at(s, 18);
    assert(lookup(v, "kernel"@) == Some(v[18].value));
    lemma_collected_at(s, 19);
    assert(lookup(v, "transparent_hugepage"@) == Some(v[19].value));
    lemma_collected_at(s, 20);
    assert(lookup(v, "transparent_hugepage_shmem"@) == Some(v[20].value));
    lemma_collected_at(s, 21);
    assert(lookup(v, "perf_event_paranoid"@) == Some(v[21].value));
    lemma_collected_at(s, 22);
    assert(lookup(v, "load_average"@) == Some(v[22].value));
    lemma_collected_at(s, 23);
    assert(lookup(v, "container"@) == Some(v[23].value));
    lemma_collected_at(s, 24);
    assert(lookup(v, "ros_distro"@) == Some(v[24].value));
    lemma_collected_at(s, 25);
    assert(lookup(v, "tf2_version"@) == Some(v[25].value));
    lemma_collected_at(s, 26);
    assert(lookup(v, "rmw_implementation"@) == Some(v[26].value));
}

/// The surroundings hold no text that is there and says nothing.
pub open spec fn nothing_blank(s: SurroundingsView) -> bool {
    &&& s.kernel matches Some(t) ==> !blank(headline(t))
    &&& s.hugepage matches Some(t) ==> !blank(headline(t))
    &&& s.hugepage_shmem matches Some(t) ==> !blank(headline(t))
    &&& s.cpuinfo matches Some(t) ==> !blank(model_text(Some(t)))
    &&& s.ros_distro matches Some(t) ==> !blank(t)
    &&& s.rmw matches Some(t) ==> !blank(t)
}

/// The collected provenance states every required fact: what could not be read is spelled
/// out, so only a text that was read and is blank can leave one unstated.
pub proof fn law_required_facts_are_stated(s: SurroundingsView, r: ReportView)
    requires
        nothing_blank(s),
        r.provenance == collected(s),
    ensures
        forall|i: int| 0 <= i < 9 ==> fact_stated(r, #[trigger] REQUIRED_FACTS@[i]@),
{
    reveal_strlit("unknown");
    reveal_strlit("none (no ROS 2 in this run)");
    reveal_strlit("none — the tf2 columns are UNAVAILABLE, not zero");
    reveal_strlit(
        "none — no middleware is in any measurement here; both engines are driven in-process from the same loop",
    );
    reveal_strlit("not applicable — no DDS in this configuration (see rmw_implementation)");
    reveal_strlit(
        "not applicable — no rclcpp executor; the harness drives both engines directly",
    );
    reveal_strlit("the tf2 shipped with ROS 2 ");
    assert(!is_space('u') && !is_space('n') && !is_space('t'));
    let facts = collected(s);
    if s.ros_distro is Some {
        lemma_speaks_on("the tf2 shipped with ROS 2 "@, s.ros_distro->0);
    }
    assert(speaks("unknown"@));
    assert(speaks(NO_ROS@) && speaks(NO_TF2@) && speaks(NO_RMW@) && speaks(NO_DDS@) && speaks(
        NO_EXECUTOR@,
    ));
    lemma_collected_at(s, 25);
    lemma_collected_at(s, 24);
    lemma_collected_at(s, 26);
    lemma_collected_at(s, 18);
    lemma_collected_at(s, 14);
    lemma_collected_at(s, 19);
    lemma_collected_at(s, 20);
    lemma_collected_at(s, 27);
    lemma_collected_at(s, 28);
    assert(!blank(facts[25].value));
    assert(!blank(facts[24].value));
    assert(!blank(facts[26].value));
    assert(!blank(facts[18].value));
    assert(!blank(facts[14].value));
    assert(!blank(facts[19].value));
    assert(!blank(facts[20].value));
    assert(!blank(facts[27].value));
    assert(!blank(facts[28].value));
    assert forall|i: int| 0 <= i < 9 implies fact_stated(r, #[trigger] REQUIRED_FACTS@[i]@) by {
        assert(i == 0 || i == 1 || i == 2 || i == 3 || i == 4 || i == 5 || i == 6 || i == 7 || i
            == 8);
    }
}

} // verus!
