//! The scaling sweep, the soak, and the small tools under both.

use tf_tree_bench::number::Number;
use tf_tree_bench::order::{add_name, stands_before};
use tf_tree_bench::report::render::jmetrics;
use tf_tree_bench::report::Drift;
use tf_tree_bench::rng::{SplitMix64, Xorshift64};
use tf_tree_bench::scaling::{
    env_usize, first_write_stamp, physical_cores, sweep, thread_counts, writable_edges,
    writer_count, writer_engine, Engine, Percentiles, Rounds,
};
use tf_tree_bench::soak::{
    common_span, document, duration_parts, gained, json_row, parse_args, stamp_at, summary_row, verdict,
    writers, Asked, Interval, Laps, Probe, Ratio, Reader, Snapshot, Summary, NO_INTERVALS,
    ONE_INTERVAL,
};
use tf_tree_bench::stats::{greatest, least, median, sort, LARGEST};
use tf_tree_bench::text::{
    among, decimal, join, parse_i64, parse_u64, same, signed_decimal, split_lines,
    split_on, split_words, starts_with, strip, trim,
};

fn num(x: f64) -> Number {
    Number::new(
        x.to_bits(),
        &format!("{x}"),
        &format!("{x:.0}"),
        &format!("{x:.1}"),
        &format!("{x:.3}"),
        &format!("{x:.5}"),
        &format!("{x:.4e}"),
    )
}

fn some(s: &str) -> Option<String> {
    Some(s.to_owned())
}

fn strings(v: &[&str]) -> Vec<String> {
    v.iter().map(|s| (*s).to_owned()).collect()
}

#[test]
fn thread_counts_are_read_or_the_default_sweep() {
    assert_eq!(thread_counts(&None), [1, 2, 4, 8]);
    assert_eq!(thread_counts(&some("3, 5,x,0,7")), [3, 5, 7]);
    assert_eq!(thread_counts(&some("0,none")), [1, 2, 4, 8]);
    assert_eq!(thread_counts(&some("")), [1, 2, 4, 8]);
}

#[test]
fn a_setting_is_a_positive_count_or_the_default() {
    assert_eq!(env_usize(&some("12"), 5), 12);
    assert_eq!(env_usize(&some("x"), 5), 5);
    assert_eq!(env_usize(&None, 5), 5);
    assert_eq!(writer_count(&None), 0);
    assert_eq!(writer_count(&some("3")), 3);
}

#[test]
fn a_sweep_spreads_over_its_window() {
    assert_eq!(sweep(0, 100, 4), [0, 25, 50, 75]);
    assert!(sweep(-50, 50, 1_000).iter().all(|t| (-50..50).contains(t)));
    assert_eq!(first_write_stamp(&vec![3, 5, 9]), 9 + 1_000_000);
}

#[test]
fn writers_take_edges_off_the_path() {
    assert_eq!(writable_edges(&vec![Some(1), None, Some(2), Some(3)], &vec![2]), [0, 3]);
    assert!(writable_edges(&vec![Some(2)], &vec![2]).is_empty());
}

#[test]
fn the_two_engines_alternate() {
    assert_eq!(Engine::TfTree.label(), "tf_tree");
    assert_eq!(Engine::Tf2.label(), "tf2");
    assert_eq!(Engine::TfTree.other(), Engine::Tf2);
    assert_eq!(Engine::Tf2.other(), Engine::TfTree);
    assert_eq!(writer_engine(Some(Engine::Tf2), Engine::TfTree), Engine::Tf2);
    assert_eq!(writer_engine(None, Engine::TfTree), Engine::Tf2);
}

#[test]
fn rounds_and_percentiles_are_read_off_sorted_times() {
    let r = Rounds::from_sorted(&vec![1, 2, 9]);
    assert_eq!((r.best, r.median, r.worst), (1, 2, 9));
    let v: Vec<u64> = (0..1000).collect();
    let p = Percentiles::from_sorted(&v, 500, 990, 999, 1000);
    assert_eq!((p.p50, p.p99, p.p999, p.p9999), (500, 990, 999, 999));
}

#[test]
fn cores_are_counted_by_package_and_core() {
    let two = "physical id\t: 0\ncore id\t\t: 0\nphysical id\t: 0\ncore id\t\t: 1\n\
               physical id\t: 0\ncore id\t\t: 1\nphysical id\t: 1\ncore id\t\t: 1\n";
    assert_eq!(physical_cores(two), Some(3));
    assert_eq!(physical_cores("BogoMIPS\t: 50\n"), None);
}

#[test]
fn generators_follow_their_seeds() {
    let mut s = SplitMix64 { state: 0 };
    assert_eq!(s.next_u64(), 0xE220_A839_7B1D_CDAF);
    let mut x = Xorshift64::new(1);
    assert_eq!(x.next_u64(), 1_082_269_761);
    let mut zero = Xorshift64::new(0);
    assert_ne!(zero.next_u64(), 0);
    assert!(zero.below(10) < 10);
    assert!(zero.unit() < 1 << 53);
}

#[test]
fn bit_patterns_are_ordered_as_the_numbers_are() {
    let bits = |v: &[f64]| v.iter().map(|x| x.to_bits()).collect::<Vec<u64>>();
    assert_eq!(sort(&bits(&[2.0, -1.0, 0.5, -0.0, 0.0])), bits(&[-1.0, -0.0, 0.0, 0.5, 2.0]));
    assert_eq!(median(&bits(&[9.0, 1.0, 5.0])), 5.0f64.to_bits());
    assert!(f64::from_bits(median(&vec![])).is_nan());
    assert_eq!(least(&bits(&[3.0, 2.0]), f64::INFINITY.to_bits()), 2.0f64.to_bits());
    assert_eq!(greatest(&bits(&[3.0, 2.0]), f64::NEG_INFINITY.to_bits()), 3.0f64.to_bits());
    assert_eq!(f64::from_bits(LARGEST), f64::MAX);
}

#[test]
fn names_are_kept_in_order_without_repeats() {
    let mut v: Vec<String> = Vec::new();
    for n in ["b", "a", "c", "a", "ab"] {
        add_name(&mut v, &n.to_owned());
    }
    assert_eq!(v, ["a", "ab", "b", "c"]);
    assert!(stands_before("a", "ab") && !stands_before("ab", "a") && !stands_before("a", "a"));
}

#[test]
fn texts_are_cut_as_their_lines_and_words() {
    assert_eq!(split_lines("a\r\n\nb"), ["a", "", "b"]);
    assert_eq!(split_words("  a\tb \u{a0}c\n"), ["a", "b", "c"]);
    assert_eq!(split_on("a,,b", ','), ["a", "", "b"]);
    assert_eq!(join(&strings(&["x", "y"]), "; "), "x; y");
    assert_eq!((trim(" a b\n").as_str(), strip("--a-", '-').as_str()), ("a b", "a"));
    assert!(same("a", "a") && !same("a", "b") && starts_with("abc", "ab"));
    assert!(among(&strings(&["x", "y"]), "y") && !among(&strings(&["x"]), "y"));
    assert_eq!((decimal(0), decimal(1_203)), ("0".to_owned(), "1203".to_owned()));
    assert_eq!(signed_decimal(i64::MIN), "-9223372036854775808");
    assert_eq!((parse_u64("+7"), parse_u64("-7"), parse_u64("18446744073709551616")), (Some(7), None, None));
    assert_eq!((parse_i64("-9223372036854775808"), parse_i64("-"), parse_i64("")), (Some(i64::MIN), None, None));
}

#[test]
fn a_duration_has_a_unit() {
    assert_eq!(duration_parts("90s"), Some(("90".to_owned(), 1)));
    assert_eq!(duration_parts("5m"), Some(("5".to_owned(), 60)));
    assert_eq!(duration_parts("1.5h"), Some(("1.5".to_owned(), 3600)));
    assert_eq!(duration_parts("7"), Some(("7".to_owned(), 1)));
    assert_eq!(duration_parts(""), None);
}

fn asked(argv: &[&str]) -> Asked {
    let durations = argv
        .iter()
        .map(|a| {
            let (n, unit) = duration_parts(a)?;
            n.parse::<f64>().ok().map(|x| (x * unit as f64 * 1e9) as u128)
        })
        .collect();
    parse_args(&strings(argv), &strings(&["robot", "extreme_wide"]), &durations)
}

fn answer(argv: &[&str]) -> (String, u8) {
    asked(argv).answer("no such workload").expect("no run")
}

#[test]
fn a_soak_is_asked_for() {
    match asked(&["--workload", "extreme_wide", "--duration", "2m", "--interval", "30s", "--json", "o"]) {
        Asked::Run(a) => {
            assert_eq!(a.workload, "extreme_wide");
            assert_eq!((a.duration_ns, a.interval_ns), (120_000_000_000, 30_000_000_000));
            assert_eq!(a.json.as_deref(), Some("o"));
        }
        _ => panic!("no run"),
    }
    match asked(&[]) {
        Asked::Run(a) => assert_eq!(a.workload, "robot"),
        _ => panic!("no run"),
    }
    assert_eq!(answer(&["--help"]).1, 0);
    assert_eq!(answer(&["--json"]), ("--json needs a value".to_owned(), 101));
    assert_eq!(answer(&["--workload", "x"]), ("soak: no such workload".to_owned(), 2));
    assert_eq!(answer(&["--duration", "x"]), ("--duration (e.g. 30m)".to_owned(), 101));
    assert_eq!(answer(&["--interval", "s"]), ("--interval (e.g. 60s)".to_owned(), 101));
    assert_eq!(answer(&["-x"]), ("soak: unknown argument \"-x\"".to_owned(), 2));
    assert_eq!(
        answer(&["--duration", "1s", "--interval", "2s"]),
        ("soak: --interval must not exceed --duration".to_owned(), 2)
    );
    assert!(asked(&[]).answer("").is_none());
}

#[test]
fn a_reader_probes_the_window_now_and_then() {
    let mut r = Reader::new();
    let turn = r.next(3);
    assert!(turn.probe);
    assert_eq!((turn.plan, turn.step), (0, 0));
    for k in 1..4096 {
        let turn = r.next(3);
        assert!(!turn.probe, "{k}");
        assert_eq!((turn.plan, turn.step), (k % 3, k % 512));
    }
    assert!(r.next(3).probe);
    assert_eq!((stamp_at(0, 512, 5), stamp_at(7, 7, 511), stamp_at(9, 3, 100)), (5, 7, 9));
    assert_eq!(common_span(&vec![Some((0, 10)), None, Some((5, 20))]), Some((5, 10)));
    assert_eq!(common_span(&vec![None]), None);
    assert_eq!((writers(2), writers(9)), (2, 4));
}

#[test]
fn a_probe_times_each_publication_once() {
    let mut p = Probe::new();
    assert!(!p.waits_for(i64::MIN));
    assert!(p.waits_for(5));
    assert_eq!(p.observe(5, 100, 4, 170), None);
    assert_eq!(p.observe(5, 100, 5, 170), Some(70));
    assert!(!p.waits_for(5));
    assert_eq!(p.observe(6, 200, 9, 190), Some(0));
    assert_eq!((gained(3, 10), gained(10, 3)), (7, 0));
}

fn snap(p999_ns: u64, rss_kib: u64) -> Snapshot {
    Snapshot { lookups: 1_000, declined: 10, p999_ns, rss_kib }
}

fn judged(v: &[Snapshot], laps: f64) -> (Vec<String>, bool) {
    let x = match v {
        [] => f64::NAN,
        _ => v[v.len() - 1].p999_ns as f64 / v[0].p999_ns as f64,
    };
    verdict(
        &v.to_vec(),
        &Ratio { bits: x.to_bits(), hundredths: format!("{x:.2}") },
        &Laps { bits: laps.to_bits(), hundredths: format!("{laps:.2}"), tenths: format!("{laps:.1}") },
    )
}

#[test]
fn a_soak_passes_without_drift_growth_or_a_gap_in_coverage() {
    assert_eq!(judged(&[], 9.0), (vec![NO_INTERVALS.to_owned()], false));
    assert_eq!(judged(&[snap(1, 1)], 9.0), (vec![ONE_INTERVAL.to_owned()], false));
    let (lines, ok) = judged(&[snap(100, 1_000), snap(150, 1_200)], 2.0);
    assert!(ok, "{lines:?}");
    assert_eq!(
        lines,
        [
            "pass  latency: p99.9 100 ns -> 150 ns (1.50x, limit 3.0x)",
            "pass  memory: RSS 1000 KiB -> 1200 KiB (+200 KiB, limit 8192)",
            "pass  coverage: the rings lapped 2.0 times",
        ]
    );
    let (lines, ok) = judged(&[snap(100, 1_000), snap(301, 1_200)], 2.0);
    assert!(!ok && lines[0].starts_with("FAIL latency drift"), "{lines:?}");
    let (lines, ok) = judged(&[snap(100, 1_000), snap(100, 9_193)], 2.0);
    assert!(!ok && lines[1].starts_with("FAIL memory growth"), "{lines:?}");
    let (lines, ok) = judged(&[snap(100, 1_000), snap(100, 1_000)], 0.99);
    assert!(!ok && lines[2].starts_with("FAIL coverage: the rings lapped 0.99 times"), "{lines:?}");
}

#[test]
fn a_tail_that_leaves_zero_has_drifted() {
    let nan = Ratio { bits: f64::NAN.to_bits(), hundredths: "NaN".to_owned() };
    let laps = || Laps { bits: 2.0f64.to_bits(), hundredths: "2.00".to_owned(), tenths: "2.0".to_owned() };
    let (lines, ok) = verdict(&vec![snap(0, 1_000), snap(900, 1_000)], &nan, &laps());
    assert!(!ok);
    assert_eq!(lines[0], "FAIL latency drift: p99.9 went 0 ns -> 900 ns (NaNx, limit 3.0x)");
    assert!(verdict(&vec![snap(0, 1_000), snap(0, 1_000)], &nan, &laps()).1);
    // At the limit, and just past it, also where three times the first fits in no `u64`.
    assert!(judged(&[snap(100, 1_000), snap(300, 1_000)], 2.0).1);
    assert!(judged(&[snap(u64::MAX / 3, 1_000), snap(u64::MAX, 1_000)], 2.0).1);
    assert!(!judged(&[snap(u64::MAX / 3 - 1, 1_000), snap(u64::MAX, 1_000)], 2.0).1);
    assert!(judged(&[snap(u64::MAX, 1_000), snap(u64::MAX, 1_000)], 2.0).1);
}

#[test]
fn rings_that_are_not_known_to_have_lapped_are_no_coverage() {
    let still = [snap(100, 1_000), snap(100, 1_000)];
    let (lines, ok) = judged(&still, f64::NAN);
    assert!(!ok && lines[2].starts_with("FAIL coverage: the rings lapped NaN times"), "{lines:?}");
    assert!(judged(&still, 1.0).1);
    assert!(judged(&still, f64::INFINITY).1);
    assert!(!judged(&still, -0.0).1);
}

#[test]
fn pairs_of_outputs_do_not_agree_for_ever() {
    for state in [0, 1, 0x61C8_8646_80B5_83EB, u64::MAX] {
        for m in [2, 3, 1 << 32, u64::MAX] {
            let mut s = SplitMix64 { state };
            assert!((0..200).any(|_| s.next_u64() % m != s.next_u64() % m));
        }
    }
}

#[test]
fn a_soak_document_has_a_row_for_each_interval_and_one_for_the_drift() {
    let cells = |x: f64| summary_row(Summary { ratio: num(x), growth: num(0.0), intervals: num(1.0), wraps: num(2.0) });
    let text = document("a\"b", &vec![cells(1.0), cells(2.0)], &cells(3.0));
    let lines: Vec<&str> = text.lines().collect();
    assert_eq!((lines.len(), lines[0], lines[4]), (5, "[", "]"));
    let row = |key: &str, x: f64| {
        format!(
            "  {{\"bench\": \"soak\", \"workload\": \"a\\\"b\", \"engine\": \"tf_tree\", \"key\": \"{key}\", \"metrics\": {}}}",
            jmetrics(&cells(x))
        )
    };
    assert_eq!(lines[1], row("interval=0", 1.0) + ",");
    assert_eq!(lines[2], row("interval=1", 2.0) + ",");
    assert_eq!(lines[3], row("drift", 3.0));
    assert!(text.ends_with("]\n"));
}

#[test]
fn an_interval_that_declined_more_than_one_in_a_hundred_is_flagged() {
    assert_eq!(snap(1, 1).flag(), "");
    assert_eq!(Snapshot { declined: 11, ..snap(1, 1) }.flag(), " <-- DECLINED");
}

#[test]
fn soak_rows_gate_latency_and_memory() {
    let n = || num(1.0);
    let v = json_row(Interval {
        p50: num(5.0),
        p999: n(),
        visible_p50: n(),
        visible_p999: n(),
        rss: n(),
        lookups: n(),
        declined: n(),
        pushes: n(),
        wraps: n(),
        err_delta: n(),
    });
    assert_eq!(v.len(), 10);
    assert_eq!((v[0].key, v[0].value.plain.as_str(), v[0].drift), ("p50_ns", "5", Drift::LowerIsBetter));
    assert_eq!(v[0].tolerance.bits, 0.5f64.to_bits());
    assert_eq!((v[9].key, v[9].drift), ("err_delta", Drift::Informational));
    let s = summary_row(Summary { ratio: num(1.5), growth: n(), intervals: n(), wraps: n() });
    assert_eq!((s[0].key, s[0].value.plain.as_str()), ("p99_9_drift", "1.5"));
    assert_eq!(s[0].tolerance.bits, 0.2f64.to_bits());
    assert_eq!(s.len(), 4);
}
