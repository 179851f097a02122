//! Histograms, schedules, and what a process and a machine say of themselves.

use tf_tree_bench::mp::histogram::Histogram;
use tf_tree_bench::mp::{
    busy_fraction, consumer, cpu_jiffies, require_quiet_machine, schedstat_ns, self_cpu_ns,
    self_pss_kib, stat_cpu_ns, top_consumers, ProcStats, RateLoop,
};
use tf_tree_bench::number::Number;
use tf_tree_bench::report::fitness::Load;

fn num(x: f64) -> Number {
    Number::new(
        x.to_bits(),
        &format!("{x}"),
        &format!("{x:.0}"),
        &format!("{x:.1}"),
        &format!("{x:.3}"),
        &format!("{x:.5}"),
        &format!("{x:.4e}"),
    )
}

fn load(x: f64) -> Load {
    Load { fraction: num(x), percent: format!("{:.0}", x * 100.0) }
}

/// The value at a quantile.
fn at(h: &Histogram, q: f64) -> u64 {
    h.quantile((q * h.count() as f64).ceil() as u64)
}

fn share_below(h: &Histogram, ns: u64) -> f64 {
    let (part, whole) = h.fraction_below(ns);
    part as f64 / whole as f64
}

#[test]
fn histogram_quantiles_are_within_the_bucketing_error() {
    let mut h = Histogram::new();
    for v in 1..=10_000u64 {
        h.record(v);
    }
    assert_eq!(h.count(), 10_000);
    for (q, want) in [(0.5, 5000.0), (0.99, 9900.0), (0.999, 9990.0)] {
        let got = at(&h, q) as f64;
        let err = (got - want).abs() / want;
        assert!(err < 0.01, "q{q}: got {got}, want ~{want} ({err:.4} rel)");
    }
}

#[test]
fn every_value_has_a_bucket_and_every_bucket_a_floor() {
    assert_eq!((Histogram::bucket(0), Histogram::bucket(127), Histogram::bucket(128)), (0, 127, 128));
    assert_eq!((Histogram::bucket(255), Histogram::bucket(256), Histogram::bucket(257)), (255, 256, 256));
    assert_eq!(Histogram::bucket(u64::MAX), 7_423);
    assert_eq!(Histogram::bucket_floor(7_423), 255 << 56);
    let mut last = 0;
    for b in 0..7_424 {
        let f = Histogram::bucket_floor(b);
        assert_eq!(Histogram::bucket(f), b);
        assert!(b == 0 || (f > last && Histogram::bucket(f - 1) == b - 1));
        last = f;
    }
    for v in [1_000u64, 123_456_789, 1 << 40, u64::MAX] {
        let f = Histogram::bucket_floor(Histogram::bucket(v));
        assert!(f <= v && v - f <= f / 128);
    }
}

#[test]
fn a_quantile_is_the_floor_of_the_observation_of_its_rank() {
    let seen = [90_000u64, 3, 1_001, 127, 5_000_000_000, 3];
    let mut h = Histogram::new();
    assert_eq!(h.quantile(1), 0);
    for v in seen {
        h.record(v);
    }
    let mut sorted = seen;
    sorted.sort_unstable();
    for (i, v) in sorted.iter().enumerate() {
        assert_eq!(h.quantile(i as u64 + 1), Histogram::bucket_floor(Histogram::bucket(*v)));
    }
    assert_eq!((h.quantile(2), h.quantile(3), h.quantile(4)), (3, 127, 1_000));
    assert_eq!((h.quantile(0), h.quantile(u64::MAX)), (h.quantile(1), h.quantile(6)));
    let mut turned = Histogram::new();
    for v in seen.iter().rev() {
        turned.record(*v);
    }
    assert_eq!(turned.encode(), h.encode());
}

#[test]
fn histogram_never_reports_above_the_truth() {
    let mut h = Histogram::new();
    h.record(1_000_000);
    assert!(at(&h, 0.5) <= 1_000_000);
    assert_eq!(h.max(), 1_000_000);
}

#[test]
fn fraction_below_reports_the_fast_mode_a_quantile_hides() {
    let mut h = Histogram::new();
    for _ in 0..300 {
        h.record(800);
    }
    for _ in 0..700 {
        h.record(9_000);
    }
    assert!(at(&h, 0.50) > 5_000, "p50 {}", at(&h, 0.50));
    assert!((share_below(&h, 1_000) - 0.30).abs() < 0.001, "{}", share_below(&h, 1_000));
    let mut exact = Histogram::new();
    for _ in 0..300 {
        exact.record(800);
    }
    for _ in 0..100 {
        exact.record(1_000);
    }
    for _ in 0..600 {
        exact.record(9_000);
    }
    assert!(
        (share_below(&exact, 1_000) - 0.30).abs() < 0.001,
        "1000 ns is not below 1000 ns: {}",
        share_below(&exact, 1_000)
    );
    assert_eq!(share_below(&Histogram::new(), 1_000), 0.0);
}

#[test]
fn histogram_round_trips_through_its_wire_form() {
    let mut h = Histogram::new();
    for v in [1u64, 7, 999, 123_456, 9_999_999] {
        h.record(v);
    }
    let back = Histogram::decode(&h.encode()).unwrap();
    assert_eq!(back.count(), h.count());
    assert_eq!(back.max(), h.max());
    for q in [0.5, 0.9, 0.99, 1.0] {
        assert_eq!(at(&back, q), at(&h, q));
    }
}

#[test]
fn merging_is_the_same_as_recording_into_one() {
    let (mut a, mut b, mut both) = (Histogram::new(), Histogram::new(), Histogram::new());
    for v in 1..=500u64 {
        a.record(v);
        both.record(v);
    }
    for v in 501..=1000u64 {
        b.record(v);
        both.record(v);
    }
    a.merge(&b);
    assert_eq!(a.count(), both.count());
    for q in [0.5, 0.99, 0.999] {
        assert_eq!(at(&a, q), at(&both, q));
    }
    assert_eq!(a.max(), both.max());
    assert_eq!(a.encode(), both.encode());
}

#[test]
fn a_recorded_value_is_reported_by_its_bucket() {
    for (v, floor) in [(0u64, 0u64), (127, 127), (128, 128), (255, 255), (256, 256), (257, 256), (1_000_003, 999_424)] {
        let mut h = Histogram::new();
        h.record(v);
        assert_eq!(h.quantile(1), floor, "{v}");
        assert_eq!(h.max(), v);
    }
    assert_eq!(Histogram::new().quantile(1), 0);
    let mut h = Histogram::new();
    h.record(u64::MAX);
    assert!(h.quantile(1) > u64::MAX / 2);
}

#[test]
fn a_rank_is_clamped_to_what_was_recorded() {
    let mut h = Histogram::default();
    h.record(5);
    h.record(9);
    assert_eq!((h.quantile(0), h.quantile(1), h.quantile(2), h.quantile(99)), (5, 5, 9, 9));
}

#[test]
fn the_wire_form_is_total_max_and_the_filled_buckets() {
    let mut h = Histogram::new();
    h.record(3);
    h.record(3);
    h.record(7);
    assert_eq!(h.encode(), "hist 3 7 3:2 7:1");
    assert_eq!(Histogram::new().encode(), "hist 0 0");
}

#[test]
fn a_malformed_wire_form_is_refused() {
    for (line, why) in [
        ("", "not a histogram line"),
        ("x 1 1", "not a histogram line"),
        ("hist", "no total"),
        ("hist x", "total"),
        ("hist 1", "no max"),
        ("hist 1 x", "max"),
        ("hist 1 1 nope", "bad bucket field"),
        ("hist 1 1 a:1", "bucket"),
        ("hist 1 1 1:a", "count"),
        ("hist 1 1 99999999:1", "bucket out of range"),
    ] {
        match Histogram::decode(line) {
            Ok(_) => panic!("`{line}` was accepted"),
            Err(e) => assert_eq!(e, why, "`{line}`"),
        }
    }
}

/// A slow tick must show up as latency, not vanish into a reduced sample count.
#[test]
fn the_rate_loop_charges_overrun_to_latency() {
    let mut r = RateLoop::new(1_000_000);
    let (first, _) = r.next_due(0);
    // A consumer that overruns its budget by about five periods.
    let now: u128 = 5_000_000;
    let (second, sleep) = r.next_due(now);
    assert!(second - first < 2_000_000, "the schedule slipped with the consumer");
    assert_eq!(sleep, 0);
    assert!(now - second >= 3_000_000, "an overrun did not register as lateness");
}

#[test]
fn the_rate_loop_sleeps_until_a_tick_is_due() {
    let mut r = RateLoop::new(10);
    assert_eq!(r.next_due(0), (0, 0));
    assert_eq!(r.next_due(4), (10, 6));
    assert_eq!(r.next_due(25), (20, 0));
    assert_eq!(r.next_due(25), (30, 5));
}

const STAT: &str = "4242 (a (b) c) S 1 4242 4242 0 -1 4194304 100 0 0 0 17 25 0 0 20 0 1 0 100 0 0";

fn rollup(kib: u64) -> Option<String> {
    Some(format!("00400000-7ffe000 ---p 00000000 00:00 0 [rollup]\nRss: 9000 kB\nPss: {kib} kB\nPss_Dirty: 1 kB\n"))
}

#[test]
fn proc_stats_are_readable_and_monotone() {
    let stat = Some(STAT.to_owned());
    let a = ProcStats::read(&stat, &vec![Some(421_000_000)], &rollup(4096));
    let b = ProcStats::read(&stat, &vec![Some(424_000_000)], &rollup(4100));
    assert!(b.cpu_ns >= a.cpu_ns, "cpu time went backwards");
    assert!(b.pss_kib > 0, "PSS unreadable");
    assert_eq!((a.cpu_ns, b.cpu_ns), (421_000_000, 424_000_000));
    let d = b.since(a);
    assert_eq!((d.cpu_ns, d.pss_kib), (3_000_000, 4100));
    assert_eq!(a.since(b).cpu_ns, 0);
}

#[test]
fn cpu_time_keeps_the_threads_that_exited() {
    // The process counter knows of threads that the task directory no longer lists.
    assert_eq!(stat_cpu_ns(&Some(STAT.to_owned())), 420_000_000);
    assert_eq!(self_cpu_ns(420_000_000, &vec![Some(1_000), Some(2_000)]), 420_000_000);
    assert_eq!(self_cpu_ns(420_000_000, &vec![Some(421_500_000), None]), 421_500_000);
    assert_eq!(self_cpu_ns(420_000_000, &vec![None, None]), 420_000_000);
    assert_eq!(stat_cpu_ns(&None), 0);
    assert_eq!(stat_cpu_ns(&Some("no parenthesis".to_owned())), 0);
    assert_eq!(schedstat_ns("12345 67 8\n"), Some(12345));
    assert_eq!(schedstat_ns(""), None);
}

#[test]
fn the_set_size_is_the_line_that_names_it() {
    assert_eq!(self_pss_kib(&rollup(77)), 77);
    assert_eq!(self_pss_kib(&None), 0);
    assert_eq!(self_pss_kib(&Some("Rss: 5 kB\n".to_owned())), 0);
}

#[test]
fn a_machines_idle_share_is_between_two_readings() {
    let first = cpu_jiffies("cpu  10 0 10 70 10 0 0 0 0 0\ncpu0 1 2 3\n");
    let second = cpu_jiffies("cpu  20 0 20 140 20 0 0 0 0 0\n");
    assert_eq!(first, Some((80, 100)));
    assert_eq!(second, Some((160, 200)));
    assert_eq!(busy_fraction(first, second), Some((80, 100)));
    assert_eq!(busy_fraction(second, first), None);
    assert_eq!(busy_fraction(None, second), None);
    assert_eq!(cpu_jiffies("intr 1"), None);
}

#[test]
fn a_busy_machine_is_refused_unless_forced() {
    assert_eq!(require_quiet_machine(&load(0.1), false, "").unwrap().plain, "0.1");
    assert_eq!(require_quiet_machine(&load(0.9), true, "").unwrap().plain, "0.9");
    let e = require_quiet_machine(&load(0.9), false, "  cc (5 s CPU)").unwrap_err();
    assert!(e.starts_with("machine is 90% busy before the run even starts"), "{e}");
    assert!(e.contains("Top consumers:\n  cc (5 s CPU)\n"), "{e}");
    assert!(require_quiet_machine(&load(f64::NAN), false, "").is_err());
}

#[test]
fn the_three_busiest_processes_are_named() {
    let stat = |name: &str, user: u64| {
        format!("1 ({name}) S 1 1 1 0 -1 0 0 0 0 0 {user} 0 0 0 20 0 1 0 1 0 0")
    };
    let found = vec![
        consumer("11", &stat("idle", 100)).unwrap(),
        consumer("12", &stat("first", 900)).unwrap(),
        consumer("13", &stat("second", 900)).unwrap(),
        consumer("14", &stat("third", 500)).unwrap(),
    ];
    assert_eq!(
        top_consumers(found),
        "  first (9 s CPU)\n  second (9 s CPU)\n  third (5 s CPU)"
    );
    assert!(consumer("self", &stat("x", 1)).is_none());
    assert!(consumer("7", "7 broken").is_none());
    assert!(consumer("7", "7 (short) S 1 2").is_none());
    assert_eq!(top_consumers(vec![]), "");
}
