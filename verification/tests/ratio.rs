//! The ratio between the two engines.

use tf_tree_bench::number::Number;
use tf_tree_bench::ratio::{
    warmup_calls, Run, Verdict, FLOOR, UNBIASED_ESTIMATE, UNBIASED_ESTIMATE_DEFAULT_RELEASE,
};

fn num(x: f64) -> Number {
    Number::new(
        x.to_bits(),
        &format!("{x}"),
        &format!("{x:.0}"),
        &format!("{x:.1}"),
        &format!("{x:.3}"),
        &format!("{x:.5}"),
        &format!("{x:.4e}"),
    )
}

fn run(ratio: f64, lo: f64, hi: f64) -> Run {
    Run {
        ratio: num(ratio),
        ratio_lo: num(lo),
        ratio_hi: num(hi),
        tf_tree_ns: num(100.0),
        tf2_ns: num(250.0),
        rounds: 9,
        lookups_per_round: 1024,
        agreed: 256,
    }
}

/// The verdict is read off the band, not the median.
#[test]
fn a_band_straddling_the_floor_is_unresolved_not_a_pass() {
    assert_eq!(run(2.5, 1.5, 3.5).verdict(), Verdict::Unresolved);
    assert_eq!(run(2.5, 2.4, 2.6).verdict(), Verdict::Above);
    assert_eq!(run(1.2, 1.1, 1.3).verdict(), Verdict::Below);
}

#[test]
fn the_floor_is_bounded_at_one_profile_and_not_the_other() {
    let floor = f64::from_bits(FLOOR);
    let unbiased = f64::from_bits(UNBIASED_ESTIMATE);
    let default_release = f64::from_bits(UNBIASED_ESTIMATE_DEFAULT_RELEASE);
    assert_eq!((floor, unbiased, default_release), (2.0, 2.25, 1.80));
    assert!(floor < unbiased, "the binding's bias could pass this row");
    assert!(floor > default_release, "the floor was scoped to this workspace's build");
}

#[test]
fn a_band_that_touches_the_floor_is_above_it() {
    assert_eq!(run(2.0, 2.0, 2.0).verdict(), Verdict::Above);
    assert_eq!(run(2.0, 1.9, 2.0).verdict(), Verdict::Unresolved);
    assert_eq!(run(f64::NAN, f64::NAN, 3.0).verdict(), Verdict::Unresolved);
}

#[test]
fn the_verdict_line_states_the_band() {
    assert_eq!(
        run(2.5, 2.4, 2.6).verdict_line("8.3"),
        "ABOVE the 2.0x floor: median 2.500x over 9 rounds, band 2.400-2.600x (8.3% wide); \
         tf_tree 100.0 ns against tf2 250.0 ns, 256 queries agreed first"
    );
    assert!(run(1.2, 1.1, 1.3).verdict_line("0").starts_with("BELOW the 2.0x floor"));
    assert!(run(2.5, 1.5, 3.5).verdict_line("0").starts_with("UNRESOLVED against the 2.0x floor"));
}

#[test]
fn verdicts_have_names() {
    assert_eq!(Verdict::Above.as_str(), "above");
    assert_eq!(Verdict::Below.as_str(), "below");
    assert_eq!(Verdict::Unresolved.as_str(), "unresolved");
}

#[test]
fn the_warm_up_covers_what_was_asked() {
    assert_eq!(warmup_calls(20_000, 40, 256), 2);
    assert_eq!(warmup_calls(20_480, 40, 256), 2);
    assert_eq!(warmup_calls(20_481, 40, 256), 3);
    assert_eq!(warmup_calls(0, 40, 256), 0);
    assert_eq!(warmup_calls(7, 0, 0), 7);
}
