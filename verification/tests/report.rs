//! What a report may claim, and how it prints.

use tf_tree_bench::embed::{self, lto_for_profile_dir, Pair};
use tf_tree_bench::fixture::{DYNAMIC_EDGES, QUERY_NS};
use tf_tree_bench::number::Number;
use tf_tree_bench::ratio;
use tf_tree_bench::report::assemble::{
    embedding_row, frozen_row_reason, lookup_latency_metrics, ratio_row, Agreement, Embedding,
    Lookup, Measured, Paired, EMBEDDING_NOTE, LOOKUP_NOTE,
};
use tf_tree_bench::report::fitness::Load;
use tf_tree_bench::report::host::{
    cpu_model, dedup_join, governors, iso8601_utc, physical_cores_from_cpuinfo, Surroundings,
};
use tf_tree_bench::report::render::{cell_html, esc_html, fmt_value, jnum, jstr};
use tf_tree_bench::report::worse::{idle_resident_kib, worse_entries, Arena, Idle};
use tf_tree_bench::report::{
    assemble_on, Build, Drift, Fact, Fitness, Ground, Metric, Options, Provenance, Report, Row,
    Sensitivity, Status, Worse, LATENCY_SLACK, REQUIRED_FACTS, REQUIRED_ROWS, REQUIRED_WORSE,
    RESIDENCY_SLACK,
};

fn num(x: f64) -> Number {
    Number::new(
        x.to_bits(),
        &format!("{x}"),
        &format!("{x:.0}"),
        &format!("{x:.1}"),
        &format!("{x:.3}"),
        &format!("{x:.5}"),
        &format!("{x:.4e}"),
    )
}

fn slack(bits: u64) -> Number {
    num(f64::from_bits(bits))
}

fn load(x: f64) -> Load {
    Load { fraction: num(x), percent: format!("{:.0}", x * 100.0) }
}

fn assess(
    consumers: usize,
    logical: usize,
    physical: Option<usize>,
    busy: f64,
    governors: Option<Vec<String>>,
    debug_build: bool,
    pss_readable: bool,
) -> Fitness {
    Fitness::assess(consumers, logical, physical, load(busy), governors, debug_build, pss_readable, false)
}

fn performance(n: usize) -> Option<Vec<String>> {
    Some(vec!["performance".to_owned(); n])
}

fn p50() -> Metric {
    Metric::new("p50_ns", num(42.0), "ns").lower_is_better(slack(LATENCY_SLACK))
}

/// Every required row and entry, all unavailable; a test changes one thing in it.
fn skeleton(fair: bool, forced: bool) -> Report {
    let rows = REQUIRED_ROWS
        .iter()
        .map(|id| {
            Row::unavailable(
                id,
                "title",
                "note",
                Sensitivity::AbsoluteTiming,
                "a stated reason".to_owned(),
                "just something",
            )
            .on(&[Ground::MeasuredElsewhere])
        })
        .collect();
    let worse = REQUIRED_WORSE
        .iter()
        .map(|id| Worse {
            id,
            topic: "topic",
            statement: "a stated cost".to_owned(),
            metrics: Vec::new(),
            metrics_absent_because: Some("a stated reason".to_owned()),
            metrics_withheld: Vec::new(),
        })
        .collect();
    Report {
        provenance: Provenance {
            facts: REQUIRED_FACTS
                .iter()
                .map(|k| Fact { key: k, value: "a stated value".to_owned() })
                .collect(),
        },
        build: Build { tf2_linked: false, frozen_backend: false },
        fitness: Fitness {
            fair_for_timing: fair,
            fair_for_ratios: true,
            fair_for_memory: true,
            enough_cores: true,
            core_reason: None,
            forced,
            reasons: if fair {
                Vec::new()
            } else {
                vec!["4 physical cores for 16 consumers".to_owned()]
            },
            ratio_reasons: Vec::new(),
            memory_reasons: Vec::new(),
            consumers: 16,
            busy_fraction: num(0.01),
            physical_cores: 4,
            physical_cores_known: true,
            logical_cpus: 8,
        },
        warmup_discarded_s: num(1.0),
        rows,
        worse,
    }
}

fn agreement(compared: usize) -> Agreement {
    Agreement {
        compared,
        compared_number: num(compared as f64),
        max_error: num(1e-13),
        tolerance: num(1e-12),
    }
}

fn arena() -> Arena {
    Arena {
        floor: Some((num(2_405_696.0), num(2.294_250_488_281_25))),
        idle: Some(Idle {
            resident: num(24_576.0),
            reserved: num(2_405_696.0),
            fraction: num(24_576.0 / 2_405_696.0),
            percent: "1.0".to_owned(),
        }),
        format_version: 3,
    }
}

fn lookup() -> Lookup {
    Lookup {
        p50: num(240.0),
        p99: num(300.0),
        p999: num(900.0),
        samples: num(2_000.0),
        clock_p50: num(20.0),
    }
}

fn surroundings() -> Surroundings {
    Surroundings {
        now_secs: 1_000_000_000,
        git_commit: Some("abc".to_owned()),
        git_status: Some(String::new()),
        rustc: Some("rustc 1.0".to_owned()),
        profile_dir: "child".to_owned(),
        manifest_path: "/w/Cargo.toml".to_owned(),
        manifest: Ok("[profile.base]\nlto = \"thin\"\n\n[profile.child]\ninherits = \"base\"\n".to_owned()),
        arch: "x86_64".to_owned(),
        counters_feature: false,
        shm_feature: true,
        tf2_feature: false,
        format_version: 3,
        layout_hash: 0xdead_beef,
        cpuinfo: Some(X86_CPUINFO.to_owned()),
        logical_cpus: 6,
        governor_files: vec!["performance\n".to_owned()],
        kernel: Some("6.1.0\n".to_owned()),
        hugepage: Some("always [madvise] never\n".to_owned()),
        hugepage_shmem: Some("always within_size advise [never] deny force\n".to_owned()),
        perf_event_paranoid: None,
        load_average: Some("0.1 0.2 0.3 1/100 7\n".to_owned()),
        in_container: false,
        ros_distro: None,
        rmw: None,
    }
}

fn measured() -> Measured {
    Measured {
        lookup: Ok(lookup()),
        naive: Ok(agreement(500)),
        tf2: Err("not linked".to_owned()),
        embedding: Err("no directory".to_owned()),
        paired: Err("not linked".to_owned()),
        arena: arena(),
        provenance: Provenance::collect(&surroundings()),
        warmup_s: num(0.01),
    }
}

fn small() -> Options {
    Options {
        lookup_samples: 2_000,
        differential_queries: 512,
        warmup_ns: 10_000_000,
        ..Options::default()
    }
}

const NO_TF2: Build = Build { tf2_linked: false, frozen_backend: false };

#[test]
fn a_fully_unavailable_report_is_valid() {
    assert_eq!(skeleton(false, false).validate(), Ok(()));
}

#[test]
fn a_row_that_prints_numbers_must_print_one_the_gate_can_hold() {
    for (fair, forced, status) in
        [(true, false, Status::Measured), (false, true, Status::Indicative)]
    {
        let mut r = skeleton(fair, forced);
        let row = &mut r.rows[0];
        row.measured_as(
            status,
            if status == Status::Indicative {
                "forced on an unfit host".to_owned()
            } else {
                String::new()
            },
        );
        row.tf_tree = vec![Metric::new("samples", num(1024.0), "lookups")];
        let errs = r.validate().expect_err("a row of pure context claimed to be a result");
        assert!(
            errs.iter().any(|e| e.contains("every one of them is informational")),
            "{status:?}: {errs:?}"
        );
        r.rows[0].tf_tree.push(p50());
        assert_eq!(r.validate(), Ok(()), "{status:?}");
    }
}

#[test]
fn a_directional_metric_needs_a_usable_tolerance() {
    for bad in [-0.5, f64::NAN, f64::INFINITY] {
        let mut r = skeleton(true, false);
        let row = &mut r.rows[0];
        row.status = Status::Measured;
        row.reason = String::new();
        row.tf_tree = vec![Metric::new("p50_ns", num(42.0), "ns").lower_is_better(num(bad))];
        let errs = r.validate().expect_err("an unusable tolerance was accepted");
        assert!(
            errs.iter().any(|e| e.contains(&["makes", "the", "gate", "either", "always"].join(" "))),
            "tolerance {bad}: {errs:?}"
        );
    }
}

#[test]
fn a_timing_row_cannot_claim_measured_on_an_unfit_host() {
    let mut r = skeleton(false, false);
    let row = &mut r.rows[0];
    row.measured_as(Status::Measured, String::new());
    row.tf_tree = vec![p50()];
    let errs = r.validate().expect_err("unfit host must reject the claim");
    assert!(errs.iter().any(|e| e.contains("failed the fitness probe")), "{errs:?}");

    let mut ok = skeleton(true, false);
    let row = &mut ok.rows[0];
    row.measured_as(Status::Measured, String::new());
    row.tf_tree = vec![p50()];
    assert_eq!(ok.validate(), Ok(()));
}

#[test]
fn an_n_way_row_cannot_claim_measured_without_the_cores() {
    let mut r = skeleton(true, false);
    r.fitness.enough_cores = false;
    r.fitness.core_reason =
        Some("4 physical cores for 16 consumers plus a publisher (17 needed)".to_owned());
    let row = &mut r.rows[0];
    row.needs_n_cores = true;
    row.sensitivity = Sensitivity::HostIndependent;
    row.measured_as(Status::Measured, String::new());
    row.tf_tree = vec![Metric::new("cpu_pct", num(3.0), "%").lower_is_better(num(0.20))];
    let errs = r.validate().expect_err("short core budget must reject the claim");
    assert!(errs.iter().any(|e| e.contains("runs 16 consumers")), "{errs:?}");
    assert!(errs.iter().any(|e| e.contains("17 needed")), "{errs:?}");

    r.fitness.enough_cores = true;
    r.fitness.core_reason = None;
    assert_eq!(r.validate(), Ok(()));
}

#[test]
fn a_memory_row_is_measurable_on_a_host_that_only_fails_the_timing_checks() {
    let mut r = skeleton(false, false);
    assert!(!r.fitness.fair_for_timing, "fixture must be unfit to time");
    assert!(r.fitness.fair_for_memory, "fixture must be fit to weigh");

    let row = &mut r.rows[0];
    row.sensitivity = Sensitivity::Memory;
    row.measured_as(Status::Measured, String::new());
    row.tf_tree = vec![Metric::new("pss_kib", num(4096.0), "KiB").lower_is_better(num(0.20))];
    assert_eq!(r.validate(), Ok(()));

    r.fitness.fair_for_memory = false;
    r.fitness.memory_reasons = vec!["built with debug assertions on".to_owned()];
    let errs = r.validate().expect_err("a debug build must refuse a memory claim");
    assert!(
        errs.iter().any(|e| e.contains("a memory figure") && e.contains("debug assertions")),
        "{errs:?}"
    );
}

#[test]
fn a_memory_row_does_not_need_the_core_budget() {
    let mut r = skeleton(true, false);
    r.fitness.enough_cores = false;
    r.fitness.core_reason =
        Some("4 physical cores for 16 consumers plus a publisher (17 needed)".to_owned());
    let row = &mut r.rows[0];
    row.needs_n_cores = true;
    row.sensitivity = Sensitivity::Memory;
    row.measured_as(Status::Measured, String::new());
    row.tf_tree = vec![Metric::new("total_pss_kib", num(65536.0), "KiB").lower_is_better(num(0.20))];
    assert_eq!(r.validate(), Ok(()));

    r.rows[0].sensitivity = Sensitivity::AbsoluteTiming;
    let errs = r.validate().expect_err("a timing row must still want the cores");
    assert!(errs.iter().any(|e| e.contains("runs 16 consumers")), "{errs:?}");
}

#[test]
fn each_host_check_reaches_only_the_axes_it_bears_on() {
    let clock_only = assess(2, 8, Some(4), 0.0, None, false, true);
    assert!(!clock_only.fair_for_timing, "reasons: {:?}", clock_only.reasons);
    assert!(clock_only.fair_for_ratios, "{:?}", clock_only.ratio_reasons);
    assert!(clock_only.fair_for_memory, "{:?}", clock_only.memory_reasons);
    assert!(clock_only.reasons.len() >= 2, "{:?}", clock_only.reasons);

    let busy = assess(2, 4, Some(4), 0.9, performance(1), false, true);
    assert!(!busy.fair_for_timing, "{:?}", busy.reasons);
    assert!(!busy.fair_for_ratios, "{:?}", busy.ratio_reasons);
    assert!(busy.fair_for_memory, "{:?}", busy.memory_reasons);

    let no_pss = assess(2, 4, Some(4), 0.0, performance(1), false, false);
    assert!(no_pss.fair_for_timing, "{:?}", no_pss.reasons);
    assert!(no_pss.fair_for_ratios, "{:?}", no_pss.ratio_reasons);
    assert!(!no_pss.fair_for_memory, "a Pss figure that cannot be read is not a Pss figure");
    assert!(
        no_pss.memory_reasons.iter().any(|r| r.contains("smaps_rollup")),
        "{:?}",
        no_pss.memory_reasons
    );

    let debug = assess(2, 4, Some(4), 0.0, performance(1), true, true);
    assert!(!debug.fair_for_timing);
    assert!(!debug.fair_for_ratios, "{:?}", debug.ratio_reasons);
    assert!(!debug.fair_for_memory, "{:?}", debug.memory_reasons);
    assert!(debug.ratio_reasons.iter().any(|r| r.contains("debug")), "{:?}", debug.ratio_reasons);

    let good = assess(2, 4, Some(4), 0.0, performance(1), false, true);
    assert!(good.fair_for_timing, "{:?}", good.reasons);
    assert!(good.fair_for_ratios);
    assert!(good.fair_for_memory);
}

#[test]
fn required_rows_cannot_be_dropped_and_gaps_must_be_actionable() {
    let mut r = skeleton(false, false);
    r.rows.retain(|row| row.id != "scaling_curve");
    let errs = r.validate().expect_err("a dropped required row must fail");
    assert!(errs.iter().any(|e| e.contains("scaling_curve")), "{errs:?}");

    let mut r = skeleton(false, false);
    r.rows[1].reason = "   ".to_owned();
    let errs = r.validate().expect_err("a silent gap must fail");
    assert!(errs.iter().any(|e| e.contains("with no reason")), "{errs:?}");

    let mut r = skeleton(false, false);
    r.rows[2].reproduce = "";
    let errs = r.validate().expect_err("an unactionable gap must fail");
    assert!(errs.iter().any(|e| e.contains("names no command")), "{errs:?}");
}

#[test]
fn bullet_1_the_middleware_facts_are_recorded_or_the_report_is_refused() {
    for key in ["dds_qos", "executor_config", "rmw_implementation"] {
        let mut r = skeleton(false, false);
        r.provenance.facts.retain(|f| f.key != key);
        let errs = r.validate().expect_err(&format!("a missing `{key}` must be refused"));
        assert!(
            errs.iter().any(|e| e.contains(key) && e.contains("no such fact")),
            "{key}: {errs:?}"
        );

        let mut r = skeleton(false, false);
        for f in &mut r.provenance.facts {
            if f.key == key {
                f.value = "   ".to_owned();
            }
        }
        let errs = r.validate().expect_err(&format!("a blank `{key}` must be refused"));
        assert!(
            errs.iter().any(|e| e.contains(key) && e.contains("present but empty")),
            "{key}: {errs:?}"
        );
    }
}

#[test]
fn bullet_3_every_host_fact_the_spec_names_must_be_present() {
    for key in [
        "tf2_version",
        "ros_distro",
        "rmw_implementation",
        "kernel",
        "cpu_model",
        "transparent_hugepage",
        "transparent_hugepage_shmem",
    ] {
        let mut r = skeleton(false, false);
        r.provenance.facts.retain(|f| f.key != key);
        let errs = r.validate().expect_err(&format!("a report with no `{key}` must be refused"));
        assert!(errs.iter().any(|e| e.contains(key)), "{key}: {errs:?}");
    }
    assert_eq!(skeleton(false, false).validate(), Ok(()));
}

#[test]
fn bullet_2_a_timed_claim_needs_a_stated_warm_up() {
    for sensitivity in [Sensitivity::AbsoluteTiming, Sensitivity::Ratio] {
        let mut r = skeleton(true, false);
        r.warmup_discarded_s = num(0.0);
        let row = &mut r.rows[0];
        row.sensitivity = sensitivity;
        row.measured_as(Status::Measured, String::new());
        row.tf_tree = vec![p50()];
        let errs = r.validate().expect_err("a timed claim with no warm-up must be refused");
        assert!(
            errs.iter().any(|e| e.contains("warm-up of zero seconds")),
            "{sensitivity:?}: {errs:?}"
        );
        r.warmup_discarded_s = num(2.0);
        assert_eq!(r.validate(), Ok(()), "{sensitivity:?}");
    }

    let mut r = skeleton(true, false);
    r.warmup_discarded_s = num(0.0);
    let row = &mut r.rows[0];
    row.sensitivity = Sensitivity::Memory;
    row.measured_as(Status::Measured, String::new());
    row.tf_tree = vec![Metric::new("pss_kib", num(4096.0), "KiB").lower_is_better(num(0.20))];
    assert_eq!(r.validate(), Ok(()));

    for bad in [f64::NAN, -1.0, f64::INFINITY] {
        let mut r = skeleton(false, false);
        r.warmup_discarded_s = num(bad);
        let errs = r.validate().expect_err("a warm-up that is not a duration must be refused");
        assert!(
            errs.iter().any(|e| e.contains("requires the discarded warm-up")),
            "{bad}: {errs:?}"
        );
    }
}

#[test]
fn bullet_5_a_measured_row_also_names_the_command_that_re_derives_it() {
    let mut r = skeleton(true, false);
    let row = &mut r.rows[0];
    row.measured_as(Status::Measured, String::new());
    row.reproduce = "";
    row.tf_tree = vec![p50()];
    let errs = r.validate().expect_err("a measured row with no command must be refused");
    assert!(
        errs.iter().any(|e| e.contains("names no command") && e.contains("measured")),
        "{errs:?}"
    );
}

#[test]
fn a_ground_that_no_longer_holds_is_refused_one_arm_at_a_time() {
    let mut r = skeleton(false, false);
    r.build.tf2_linked = true;
    r.rows[0].grounds = vec![Ground::Tf2NotLinked];
    let errs = r.validate().expect_err("a tf2 claim in a tf2 build must be refused");
    assert!(errs.iter().any(|e| e.contains("tf2_not_linked")), "{errs:?}");

    let mut r = skeleton(false, false);
    r.build.frozen_backend = true;
    r.rows[0].grounds = vec![Ground::FrozenBackendNotCompiled];
    let errs = r.validate().expect_err("a frozen-backend claim in an shm build must be refused");
    assert!(errs.iter().any(|e| e.contains("frozen_backend_not_compiled")), "{errs:?}");

    let mut r = skeleton(true, false);
    r.rows[0].grounds = vec![Ground::HostFitness];
    let errs = r.validate().expect_err("a fitness claim on a fit host must be refused");
    assert!(errs.iter().any(|e| e.contains("host_fitness")), "{errs:?}");

    let mut r = skeleton(false, false);
    assert!(!r.fitness.fair_for_timing && r.fitness.fair_for_ratios);
    r.rows[0].sensitivity = Sensitivity::Ratio;
    r.rows[0].grounds = vec![Ground::HostFitness];
    let errs = r.validate().expect_err("a fitness claim on an axis the host passes");
    assert!(errs.iter().any(|e| e.contains("host_fitness")), "{errs:?}");

    let mut r = skeleton(false, false);
    r.rows[0].needs_n_cores = true;
    r.rows[0].grounds = vec![Ground::HostCores];
    r.fitness.enough_cores = true;
    let errs = r.validate().expect_err("a core-count claim on a wide host must be refused");
    assert!(errs.iter().any(|e| e.contains("host_cores")), "{errs:?}");

    let mut r = skeleton(false, false);
    r.fitness.enough_cores = false;
    r.rows[0].needs_n_cores = true;
    r.rows[0].sensitivity = Sensitivity::Memory;
    r.rows[0].grounds = vec![Ground::HostCores];
    let errs = r.validate().expect_err("a memory row may not blame the core budget");
    assert!(errs.iter().any(|e| e.contains("host_cores")), "{errs:?}");

    let mut r = skeleton(false, false);
    r.fitness.enough_cores = false;
    r.rows[0].needs_n_cores = false;
    r.rows[0].sensitivity = Sensitivity::AbsoluteTiming;
    r.rows[0].grounds = vec![Ground::HostCores];
    let errs = r.validate().expect_err("a row that runs no consumers may not blame the budget");
    assert!(errs.iter().any(|e| e.contains("host_cores")), "{errs:?}");

    let mut ok = skeleton(false, false);
    ok.fitness.enough_cores = false;
    ok.rows[0].needs_n_cores = true;
    ok.rows[0].grounds = vec![Ground::HostCores];
    assert_eq!(ok.validate(), Ok(()));
}

#[test]
fn a_gap_rests_on_a_ground_and_a_claim_carries_none() {
    let mut r = skeleton(false, false);
    r.rows[0].grounds.clear();
    let errs = r.validate().expect_err("a reason resting on nothing must be refused");
    assert!(errs.iter().any(|e| e.contains("no stated ground")), "{errs:?}");

    let mut r = skeleton(true, false);
    r.rows[0].status = Status::Measured;
    r.rows[0].reason = String::new();
    r.rows[0].tf_tree = vec![p50()];
    let errs = r.validate().expect_err("a promoted row must drop its ground");
    assert!(errs.iter().any(|e| e.contains("still carries the ground")), "{errs:?}");
}

#[test]
fn both_transparent_hugepage_knobs_are_recorded() {
    let p = Provenance::collect(&surroundings());
    for (key, want) in [
        ("transparent_hugepage", "always [madvise] never"),
        ("transparent_hugepage_shmem", "always within_size advise [never] deny force"),
    ] {
        let got = p.get(key).unwrap_or_else(|| panic!("no `{key}` fact"));
        assert_eq!(got, want);
    }
    let mut s = surroundings();
    s.hugepage_shmem = None;
    let p = Provenance::collect(&s);
    assert_eq!(p.get("transparent_hugepage_shmem"), Some("unknown"));
    assert_eq!(p.get("no_such_fact"), None);
}

#[test]
fn indicative_requires_the_force_override_and_an_unfit_host() {
    let mut r = skeleton(false, false);
    r.rows[0].status = Status::Indicative;
    r.rows[0].tf_tree = vec![p50()];
    let errs = r.validate().expect_err("indicative without force");
    assert!(errs.iter().any(|e| e.contains("TF_TREE_BENCH_FORCE")), "{errs:?}");

    let mut r = skeleton(true, true);
    r.rows[0].status = Status::Indicative;
    let errs = r.validate().expect_err("indicative on a fit host");
    assert!(errs.iter().any(|e| e.contains("passed the fitness probe")), "{errs:?}");

    let mut r = skeleton(false, true);
    r.rows[0].measured_as(Status::Indicative, "forced on an unfit host".to_owned());
    r.rows[0].tf_tree = vec![p50()];
    assert_eq!(r.validate(), Ok(()));
}

#[test]
fn the_where_we_are_worse_entries_are_required_and_must_state_the_cost() {
    let dropped = REQUIRED_WORSE[0];
    let mut r = skeleton(false, false);
    r.worse.retain(|w| w.id != dropped);
    let errs = r.validate().expect_err("a dropped `worse` topic must fail");
    assert!(errs.iter().any(|e| e.contains(dropped)), "{errs:?}");

    let mut r = skeleton(false, false);
    r.worse[1].statement = "   ".to_owned();
    let errs = r.validate().expect_err("a `worse` entry that says nothing must fail");
    assert!(errs.iter().any(|e| e.contains("states nothing")), "{errs:?}");
    assert!(errs.iter().any(|e| e.contains(REQUIRED_WORSE[1])), "{errs:?}");
}

#[test]
fn a_worse_entry_whose_numbers_are_all_informational_cannot_be_gated_and_fails() {
    let mut r = skeleton(true, false);
    r.worse[0].metrics = vec![
        Metric::new("idle_arena_bytes", num(2_405_696.0), "B"),
        Metric::new("idle_arena_resident_bytes", num(24_576.0), "B"),
    ];
    r.worse[0].metrics_absent_because = None;
    let errs = r.validate().expect_err("an entry whose numbers cannot regress must fail");
    assert!(
        errs.iter().any(|e| {
            e.contains(REQUIRED_WORSE[0]) && e.contains("every one of them is informational")
        }),
        "the violation must name the entry: {errs:?}"
    );

    let mut ok = skeleton(true, false);
    ok.worse[0].metrics = vec![
        Metric::new("idle_arena_bytes", num(2_405_696.0), "B"),
        Metric::new("idle_arena_resident_bytes", num(24_576.0), "B")
            .lower_is_better(slack(RESIDENCY_SLACK)),
    ];
    ok.worse[0].metrics_absent_because = None;
    assert!(ok.validate().is_ok(), "{:?}", ok.validate());

    let mut bad_tol = skeleton(true, false);
    bad_tol.worse[0].metrics = vec![
        Metric::new("idle_arena_resident_bytes", num(24_576.0), "B").lower_is_better(num(-1.0)),
    ];
    bad_tol.worse[0].metrics_absent_because = None;
    let errs = bad_tol.validate().expect_err("a negative tolerance must fail");
    assert!(errs.iter().any(|e| e.contains("either always")), "{errs:?}");

    let mut unfit = skeleton(true, false);
    unfit.fitness.fair_for_memory = false;
    unfit.fitness.memory_reasons = vec!["/proc/self/smaps_rollup is unreadable".to_owned()];
    unfit.worse[0].metrics = vec![Metric::new("idle_arena_bytes", num(2_405_696.0), "B")];
    unfit.worse[0].metrics_absent_because = None;
    assert!(unfit.validate().is_ok(), "{:?}", unfit.validate());
}

#[test]
fn the_arena_memory_floor_entry_gates_its_residency_figure() {
    let opts = Options::default();
    let fitness = assess(opts.consumers, 32, Some(32), 0.0, performance(32), false, true);
    assert!(fitness.fair_for_memory, "{:?}", fitness.memory_reasons);
    let entries = worse_entries(opts.consumers, fitness.fair_for_memory, &arena());
    let floor = entries.iter().find(|w| w.id == "arena_memory_floor").expect("the entry");
    let resident = floor
        .metrics
        .iter()
        .find(|m| m.key == "idle_arena_resident_bytes")
        .expect("a host whose memory axis passed must publish the figure");
    assert_eq!(resident.drift, Drift::LowerIsBetter, "the residency figure must be gated");
    let tolerance = f64::from_bits(resident.tolerance.bits);
    assert!(tolerance.is_finite() && tolerance > 0.0, "{tolerance}");
    let fraction = floor
        .metrics
        .iter()
        .find(|m| m.key == "idle_arena_resident_fraction")
        .expect("the fraction is published");
    assert_eq!(fraction.drift, Drift::Informational);
}

#[test]
fn a_worse_entry_with_no_numbers_must_say_why() {
    let mut r = skeleton(false, false);
    r.worse[0].metrics_absent_because = None;
    let errs = r.validate().expect_err("an unexplained empty metric list must fail");
    assert!(
        errs.iter()
            .any(|e| e.contains(REQUIRED_WORSE[0]) && e.contains("metrics_absent_because")),
        "{errs:?}"
    );

    let mut r = skeleton(false, false);
    r.worse[0].metrics_absent_because = Some("  ".to_owned());
    assert!(r.validate().is_err(), "a blank reason must not satisfy it");

    let mut r = skeleton(false, false);
    r.worse[0].metrics = vec![Metric::new("bytes", num(1.0), "B")];
    let errs = r.validate().expect_err("metrics beside a reason they are absent must fail");
    assert!(errs.iter().any(|e| e.contains("One of the two is wrong")), "{errs:?}");

    let opts = Options::default();
    for fair in [true, false] {
        for a in [arena(), Arena { floor: None, idle: None, format_version: 3 }] {
            for w in worse_entries(opts.consumers, fair, &a) {
                assert_eq!(w.metrics.is_empty(), w.metrics_absent_because.is_some(), "`{}`", w.id);
            }
        }
    }
}

#[test]
fn a_row_must_carry_exactly_the_evidence_its_status_claims() {
    let mut r = skeleton(true, false);
    r.rows[0].status = Status::Measured;
    r.rows[0].reason = String::new();
    let errs = r.validate().expect_err("measured with no numbers");
    assert!(errs.iter().any(|e| e.contains("`measured` with no numbers")), "{errs:?}");

    let mut r = skeleton(false, true);
    r.rows[0].status = Status::Indicative;
    r.rows[0].reason = "  ".to_owned();
    r.rows[0].tf_tree = vec![p50()];
    let errs = r.validate().expect_err("indicative with no reason");
    assert!(errs.iter().any(|e| e.contains("`indicative` with no reason")), "{errs:?}");

    let mut r = skeleton(false, false);
    r.rows[0].tf2 = vec![p50()];
    let errs = r.validate().expect_err("unavailable carrying numbers");
    assert!(errs.iter().any(|e| e.contains("but carries numbers")), "{errs:?}");

    let mut r = skeleton(false, false);
    let dup = r.rows[3].clone();
    r.rows.push(dup);
    let errs = r.validate().expect_err("a duplicated row must fail");
    assert!(errs.iter().any(|e| e.contains("appears 2 times")), "{errs:?}");
}

#[test]
fn worse_entries_render_inside_the_results_table() {
    let mut r = skeleton(false, false);
    r.worse[0].topic = "arena memory floor";
    let html = r.to_html();
    let start = html.find("<h2>Results</h2>").expect("results heading");
    let open = start + html[start..].find("<table>").expect("results <table>");
    let close = start + html[start..].find("</table>").expect("results </table>");
    assert!(open < close, "results table not found");
    let marker = html.find("Where tf_tree is worse").expect("worse header");
    assert!(open < marker && marker < close, "the section is outside the results table");
    let topic = html.find("arena memory floor").expect("worse topic");
    assert!(open < topic && topic < close, "a topic is outside the results table");
}

#[test]
fn json_escapes_hostile_reasons_and_never_emits_nan() {
    let mut r = skeleton(false, false);
    r.rows[0].reason = "a \"quoted\" reason\nwith a \\ and a \ttab".to_owned();
    r.rows[0].status = Status::Unavailable;
    r.worse[0].metrics = vec![Metric::new("ratio", num(f64::NAN), "x")];
    let json = r.to_json();
    assert!(json.contains("\\\"quoted\\\""), "{json}");
    assert!(json.contains("\\n"), "{json}");
    assert!(json.contains("\\\\"), "{json}");
    assert!(!json.contains("NaN"), "{json}");
    assert!(json.contains("\"value\": null"), "{json}");
    assert!(json.starts_with("{\n  \"schema\": \"tf_tree.bench-report/2\""));
    let opens = json.matches('{').count();
    let closes = json.matches('}').count();
    assert_eq!(opens, closes, "unbalanced JSON braces");
    // A JSON reader takes it, and gets the text back.
    let v: serde_json::Value = serde_json::from_str(&json).expect("valid JSON");
    assert_eq!(
        v["rows"][0]["reason"].as_str(),
        Some("a \"quoted\" reason\nwith a \\ and a \ttab")
    );
}

#[test]
fn no_unavailable_reason_rests_on_a_claim_that_has_gone_stale() {
    let opts = Options {
        lookup_samples: 1,
        differential_queries: 64,
        warmup_ns: 1_000_000,
        ..Options::default()
    };
    let hosts = [
        assess(opts.consumers, 8, Some(4), 0.0, None, true, true),
        assess(opts.consumers, 32, Some(32), 0.0, performance(32), false, true),
        assess(opts.consumers, 8, None, 0.5, None, false, false),
    ];
    for fitness in hosts {
        let report = assemble_on(&opts, fitness, NO_TF2, false, measured()).expect("assemble");
        let unavailable: Vec<&Row> =
            report.rows.iter().filter(|r| r.status == Status::Unavailable).collect();
        assert!(unavailable.len() >= 2, "{} unavailable rows", unavailable.len());

        let mut decidable = 0usize;
        for r in &unavailable {
            assert!(!r.reason.is_empty(), "row `{}` is unavailable with no reason at all", r.id);
            assert!(!r.grounds.is_empty(), "row `{}` rests on no stated ground", r.id);
            for g in &r.grounds {
                match g.holds(report.build, &report.fitness, r) {
                    Some(true) => decidable += 1,
                    Some(false) => panic!(
                        "row `{}` rests on `{}`, which no longer holds — decided by {}. Reason was: {}",
                        r.id,
                        g.as_str(),
                        g.decided_by(),
                        r.reason
                    ),
                    None => {}
                }
            }
            for phrase in ["is not implemented", "are not implemented", "unimplemented"] {
                assert!(!r.reason.contains(phrase), "row `{}`: {}", r.id, r.reason);
            }
        }
        assert!(decidable > 0, "no unavailable row rests on a ground that can be decided");
    }
}

#[test]
fn iso8601_matches_known_instants() {
    assert_eq!(iso8601_utc(0), "1970-01-01T00:00:00Z");
    assert_eq!(iso8601_utc(1_000_000_000), "2001-09-09T01:46:40Z");
    assert_eq!(iso8601_utc(1_709_164_800), "2024-02-29T00:00:00Z");
    assert_eq!(iso8601_utc(1_735_689_599), "2024-12-31T23:59:59Z");
}

const X86_CPUINFO: &str = "\
processor\t: 0
physical id\t: 0
core id\t\t: 0
processor\t: 1
physical id\t: 0
core id\t\t: 1
processor\t: 2
physical id\t: 0
core id\t\t: 0
processor\t: 3
physical id\t: 0
core id\t\t: 1
processor\t: 4
physical id\t: 1
core id\t\t: 0
processor\t: 5
physical id\t: 1
core id\t\t: 1
";
const AARCH64_CPUINFO: &str = "\
processor\t: 0
BogoMIPS\t: 50.00
Features\t: fp asimd evtstrm aes pmull sha1 sha2 crc32
CPU implementer\t: 0x41
CPU part\t: 0xd0c
processor\t: 1
BogoMIPS\t: 50.00
CPU implementer\t: 0x41
CPU part\t: 0xd0c
";

#[test]
fn a_host_that_publishes_no_core_ids_is_unknown_not_guessed() {
    assert_eq!(physical_cores_from_cpuinfo(X86_CPUINFO), Some(4));
    assert_eq!(physical_cores_from_cpuinfo(AARCH64_CPUINFO), None);
    assert_eq!(physical_cores_from_cpuinfo(""), None);
}

#[test]
fn an_unknown_physical_core_count_fails_both_verdicts_and_says_why() {
    let ok = assess(4, 8, Some(8), 0.01, performance(8), false, true);
    assert!(ok.fair_for_timing, "{:?}", ok.reasons);
    assert!(ok.enough_cores, "{:?}", ok.core_reason);
    assert!(ok.physical_cores_known);

    let blind = assess(4, 8, None, 0.01, performance(8), false, true);
    assert!(!blind.physical_cores_known);
    assert!(!blind.fair_for_timing, "an unmeasured host must not pass the clock verdict");
    assert!(
        blind.reasons.iter().any(|r| r.contains("physical core count is unknown")),
        "{:?}",
        blind.reasons
    );
    assert!(!blind.enough_cores, "a budget checked against SMT siblings is not a budget check");

    let smt = assess(2, 8, Some(4), 0.01, performance(8), false, true);
    assert!(smt.reasons.iter().any(|r| r.contains("SMT is on")), "{:?}", smt.reasons);
}

#[test]
fn an_absurd_consumer_count_still_refuses_the_core_budget() {
    let f = assess(usize::MAX, 8, Some(8), 0.01, performance(8), false, true);
    assert!(!f.enough_cores, "8 physical cores cannot host usize::MAX consumers");
    assert!(
        f.core_reason.as_deref().is_some_and(|r| r.contains("physical cores for")),
        "{:?}",
        f.core_reason
    );
}

#[test]
fn the_lookup_row_note_states_what_phase1_requires() {
    assert!(LOOKUP_NOTE.contains("**3 dynamic steps**"), "{LOOKUP_NOTE}");
    assert!(LOOKUP_NOTE.contains("fixture::QUERY_NS"), "{LOOKUP_NOTE}");
    assert!(LOOKUP_NOTE.contains("off-grid"), "{LOOKUP_NOTE}");
    assert!(!DYNAMIC_EDGES.is_empty());
    for (parent, child, rate_hz) in DYNAMIC_EDGES {
        let period_ns = (1e9 / rate_hz as f64) as i64;
        assert_ne!(QUERY_NS % period_ns, 0, "{parent}->{child}: the stamp lands on the grid");
    }
}

#[test]
fn a_host_with_no_obstacle_still_grounds_every_n_way_row() {
    let fitness = assess(4, 32, Some(32), 0.0, performance(32), false, true);
    assert!(fitness.fair_for_timing, "{:?}", fitness.reasons);
    assert!(fitness.fair_for_ratios && fitness.fair_for_memory);
    assert!(fitness.enough_cores && fitness.core_reason.is_none());

    let opts = Options { consumers: 4, ..small() };
    let r = assemble_on(&opts, fitness, NO_TF2, true, measured()).expect("assemble");
    for (id, standing) in [
        ("cpu_per_consumer", Ground::MeasuredElsewhere),
        ("scaling_curve", Ground::MeasuredElsewhere),
        ("publish_to_visible", Ground::NoInstrument),
    ] {
        let row = r.rows.iter().find(|row| row.id == id).expect(id);
        assert_eq!(row.status, Status::Unavailable, "row `{id}`");
        assert!(row.grounds.contains(&standing), "row `{id}`: {:?}", row.grounds);
        assert!(!row.reason.contains("no obstacle"), "row `{id}`: {}", row.reason);
        assert!(row.reason.contains("single process"), "row `{id}`: {}", row.reason);
    }
    let ptv = r.rows.iter().find(|row| row.id == "publish_to_visible").expect("the row");
    assert!(!ptv.grounds.contains(&Ground::MeasuredElsewhere), "{:?}", ptv.grounds);
    assert_eq!(r.validate(), Ok(()));
}

#[test]
fn the_assembled_report_passes_its_own_validation() {
    let hosts = [
        assess(16, 8, Some(4), 0.0, None, true, true),
        assess(16, 32, Some(32), 0.0, performance(32), false, true),
        Fitness::assess(16, 8, Some(4), load(0.9), None, true, true, true),
    ];
    for fitness in hosts {
        let r = assemble_on(&small(), fitness, NO_TF2, false, measured()).expect("assemble");
        assert_eq!(r.validate(), Ok(()));

        let diff = r
            .rows
            .iter()
            .find(|row| row.id == "differential_agreement")
            .expect("differential row");
        assert_eq!(diff.status, Status::Measured);
        assert!(!diff.timing_sensitive());
        let compared = diff.tf_tree.iter().find(|m| m.key == "compared").expect("compared metric");
        assert!(f64::from_bits(compared.value.bits) > 100.0, "{}", compared.value.plain);

        let lookup = r.rows.iter().find(|row| row.id == "lookup_latency").expect("lookup row");
        if lookup.status == Status::Unavailable {
            assert!(lookup.reason.contains("failed the fitness probe"), "{}", lookup.reason);
            assert!(!lookup.reason.contains("consumers plus a publisher"));
            assert!(!lookup.reason.contains("no ROS 2 in this build"));
        }
    }
}

fn embed_run(profile: &str, lo: f64, hi: f64) -> embed::Run {
    embed::Run {
        profile_dir: profile.to_owned(),
        source_id: "0123456789abcdef".to_owned(),
        out_of_crate_ns: num(210.0),
        in_crate_ns: num(200.0),
        boundary_ratio: num(1.05),
        ratio_lo: num(lo),
        ratio_hi: num(hi),
        out_of_crate_spread: num(0.09),
        in_crate_spread: num(0.09),
        rounds: embed::ROUNDS,
        lookups_per_round: 409_600,
    }
}

fn embedding(lo: f64, hi: f64) -> Embedding {
    let pair = Pair::load(
        "embedder.json",
        Ok(embed_run(embed::EMBEDDER_PROFILE, lo, hi).to_json()),
        "release.json",
        Ok(embed_run(embed::REFERENCE_PROFILE, 1.01, 1.09).to_json()),
    )
    .expect("pair");
    Embedding { pair, excess_percent: "5".to_owned(), lookups: num(409_600.0) }
}

#[test]
fn a_pair_that_cannot_resolve_five_percent_gets_no_verdict() {
    let fit = skeleton(true, false).fitness;
    assert_eq!(fit.timing_status(), Status::Measured, "fixture must be fair");

    let row = embedding_row(&fit, &Some(embedding(1.01, 1.09)));
    assert_eq!(row.status, Status::Unavailable, "reason: {}", row.reason);
    assert!(row.tf_tree.is_empty(), "an unresolved row must carry no numbers");
    assert!(row.reason.contains("cannot answer"), "{}", row.reason);

    let row = embedding_row(&fit, &Some(embedding(1.049, 1.05)));
    assert_eq!(row.status, Status::Measured, "reason: {}", row.reason);
    assert!(!row.tf_tree.is_empty());

    let row = embedding_row(&fit, &None);
    assert_eq!(row.status, Status::Unavailable);
    assert!(!row.reason.is_empty() && !row.grounds.is_empty());
}

#[test]
fn the_row_note_states_the_settings_of_both_profiles() {
    assert!(EMBEDDING_NOTE.contains("lto = false, codegen-units = 16"), "{EMBEDDING_NOTE}");
    assert!(EMBEDDING_NOTE.contains("lto = \"thin\""), "{EMBEDDING_NOTE}");
}

#[test]
fn the_build_facts_are_of_the_profile_that_was_built() {
    let s = surroundings();
    let p = Provenance::collect(&s);
    assert_eq!(p.get("build_profile"), Some("child"));
    let manifest = s.manifest.clone().unwrap();
    assert_eq!(p.get("build_lto"), Some(lto_for_profile_dir(&manifest, "child").as_str()));
    assert_eq!(p.get("build_lto"), Some("\"thin\" (inherited from [profile.base])"));
}

#[test]
fn a_latency_row_reports_ordered_percentiles() {
    let m = lookup_latency_metrics(lookup());
    let get = |k: &str| f64::from_bits(m.iter().find(|x| x.key == k).expect(k).value.bits);
    assert_eq!(get("samples"), 2_000.0);
    assert!(get("p50_ns") <= get("p99_ns") && get("p99_ns") <= get("p999_ns"));
    assert_eq!(get("clock_overhead_p50_ns"), 20.0);
}

fn paired(lo: f64, hi: f64) -> Paired {
    Paired {
        run: ratio::Run {
            ratio: num(2.5),
            ratio_lo: num(lo),
            ratio_hi: num(hi),
            tf_tree_ns: num(100.0),
            tf2_ns: num(250.0),
            rounds: 9,
            lookups_per_round: 1024,
            agreed: 256,
        },
        spread_percent: "8.3".to_owned(),
        agreed: num(256.0),
    }
}

#[test]
fn a_ratio_row_is_as_good_as_its_band() {
    let fit = skeleton(true, false).fitness;
    let linked = Build { tf2_linked: true, frozen_backend: false };
    let row = ratio_row(&fit, linked, &Ok(paired(2.4, 2.6)));
    assert_eq!(row.status, Status::Measured, "{}", row.reason);
    assert!(!row.tf_tree.is_empty());
    let row = ratio_row(&fit, linked, &Ok(paired(1.5, 3.5)));
    assert_eq!(row.status, Status::Unavailable);
    assert!(row.grounds.contains(&Ground::MeasurementRefused), "{:?}", row.grounds);
    let row = ratio_row(&fit, NO_TF2, &Err("not linked".to_owned()));
    assert_eq!(row.status, Status::Unavailable);
    assert!(row.grounds.contains(&Ground::Tf2NotLinked), "{:?}", row.grounds);
}

#[test]
fn a_frozen_row_says_what_was_compiled() {
    let without = frozen_row_reason(NO_TF2, "an attempt", "just something");
    let with = frozen_row_reason(
        Build { tf2_linked: false, frozen_backend: true },
        "an attempt",
        "just something",
    );
    assert!(without.starts_with("an attempt"), "{without}");
    assert_ne!(without, with);
}

#[test]
fn a_failed_measurement_stops_a_report_that_would_print_it() {
    let fit = || assess(16, 32, Some(32), 0.0, performance(32), false, true);
    let mut m = measured();
    m.naive = Err("no reference".to_owned());
    let e = assemble_on(&small(), fit(), NO_TF2, false, m).unwrap_err();
    assert!(e.contains("no reference"), "{e}");
    let mut m = measured();
    m.lookup = Err("no clock".to_owned());
    let e = assemble_on(&small(), fit(), NO_TF2, false, m).unwrap_err();
    assert!(e.contains("no clock"), "{e}");
}

#[test]
fn texts_are_escaped_for_their_medium() {
    assert_eq!(jstr("a\"b\\c\nd\te\u{1}"), "\"a\\\"b\\\\c\\nd\\te\\u0001\"");
    assert_eq!(esc_html("<a href=\"x\">&'"), "&lt;a href=&quot;x&quot;&gt;&amp;'");
    assert_eq!(jnum(&num(0.5)), "0.5");
    assert_eq!(jnum(&num(f64::INFINITY)), "null");
    for x in ["", "plain", "q\"", "\u{7f}\u{e9}"] {
        let back: String = serde_json::from_str(&jstr(x)).expect("a JSON string");
        assert_eq!(back, x);
    }
}

#[test]
fn a_value_prints_in_the_form_that_suits_it() {
    assert_eq!(fmt_value(&num(0.0)), "0");
    assert_eq!(fmt_value(&num(42.0)), "42.000");
    assert_eq!(fmt_value(&num(2_405_696.0)), "2405696");
    assert_eq!(fmt_value(&num(1e-9)), "1.0000e-9");
    assert_eq!(cell_html(&vec![]), "&mdash;");
}

#[test]
fn a_hosts_texts_are_read() {
    assert_eq!(cpu_model("x: 1\nmodel name\t: Some CPU\n").as_deref(), Some("Some CPU"));
    assert_eq!(cpu_model("x: 1\n"), None);
    let g = vec!["performance\n".to_owned(), "powersave\n".to_owned(), "performance\n".to_owned()];
    assert_eq!(governors(&g).map(|v| v.len()), Some(3));
    assert_eq!(governors(&vec![]), None);
    assert_eq!(dedup_join(&vec!["b".to_owned(), "a".to_owned(), "b".to_owned()]), "b, a");
    assert_eq!(idle_resident_kib(10, 34), Some(24));
    assert_eq!(idle_resident_kib(0, 34), None);
    assert_eq!(idle_resident_kib(34, 34), None);
}

#[test]
fn every_fact_of_a_provenance_is_stated() {
    let p = Provenance::collect(&surroundings());
    for k in REQUIRED_FACTS {
        assert!(p.get(k).is_some_and(|v| !v.trim().is_empty()), "{k}");
    }
    assert_eq!(p.get("generated_utc"), Some("2001-09-09T01:46:40Z"));
    assert_eq!(p.get("physical_cores"), Some("4"));
}

#[test]
fn grounds_statuses_and_drifts_have_stable_names() {
    assert_eq!(Ground::HostFitness.as_str(), "host_fitness");
    assert_eq!(Ground::MeasurementRefused.as_str(), "measurement_refused");
    assert_eq!(Status::Measured.as_str(), "measured");
    assert_eq!(Status::Indicative.as_upper(), "INDICATIVE");
    assert_eq!(Drift::HigherIsBetter.as_str(), "higher_is_better");
    assert!(!Ground::HostCores.decided_by().is_empty());
    let m = Metric::new("k", num(1.0), "u").higher_is_better(num(0.5));
    assert_eq!((m.drift, m.tolerance.plain.as_str()), (Drift::HigherIsBetter, "0.5"));
}

#[test]
fn a_row_takes_the_status_of_its_own_axis() {
    let f = assess(2, 8, Some(4), 0.0, None, false, true);
    let mut row = Row::unavailable("a", "b", "c", Sensitivity::Ratio, "d".to_owned(), "e").n_way();
    assert!(row.needs_n_cores);
    assert_eq!(row.status_on(&f), Status::Measured);
    row.sensitivity = Sensitivity::AbsoluteTiming;
    assert_eq!(row.status_on(&f), Status::Unavailable);
    assert_eq!(f.memory_status(), Status::Measured);
    assert_eq!(f.ratio_status(), Status::Measured);
    assert!(f.reason_line().contains("; "), "{}", f.reason_line());
    assert!(!f.ratio_reason_line().is_empty() && !f.memory_reason_line().is_empty());
}
