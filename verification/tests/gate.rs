//! Exit codes and refusals.

use tf_tree_bench::gate::{Outcome, EXIT_FAIL, EXIT_PASS, EXIT_REFUSED};
use tf_tree_bench::number::Number;
use tf_tree_bench::report::fitness::Load;
use tf_tree_bench::report::{Fitness, Ground, Sensitivity};

fn num(x: f64) -> Number {
    Number::new(
        x.to_bits(),
        &format!("{x}"),
        &format!("{x:.0}"),
        &format!("{x:.1}"),
        &format!("{x:.3}"),
        &format!("{x:.5}"),
        &format!("{x:.4e}"),
    )
}

fn load(x: f64) -> Load {
    Load { fraction: num(x), percent: format!("{:.0}", x * 100.0) }
}

fn hosts() -> Vec<Fitness> {
    vec![
        Fitness::assess(1, 8, Some(4), load(0.0), None, false, true, false),
        Fitness::assess(1, 4, Some(4), load(0.0), Some(vec!["performance".to_owned()]), false, true, false),
        Fitness::assess(16, 4, Some(4), load(0.9), None, true, false, true),
        Fitness::assess(1, 4, None, load(0.0), None, false, true, false),
    ]
}

#[test]
fn pass_fail_and_refused_have_three_distinct_codes() {
    let codes = [
        Outcome::Pass("x".into()).code(),
        Outcome::Fail("x".into()).code(),
        Outcome::Refused { ground: Ground::HostFitness, why: "x".into() }.code(),
    ];
    assert_eq!(codes, [0, 1, 2], "the three meanings must not collide");
    assert_ne!(EXIT_REFUSED, EXIT_FAIL, "a host-starved refusal must not read as a regression");
    assert_ne!(EXIT_REFUSED, EXIT_PASS, "a refusal must not read as a passing gate");
}

#[test]
fn a_host_refusal_quotes_the_probe_and_not_a_literal() {
    for f in hosts() {
        let (fit, _, expected) = f.axis(Sensitivity::AbsoluteTiming);
        match Outcome::refused_on_host(&f, Sensitivity::AbsoluteTiming) {
            Some(Outcome::Refused { ground, why }) => {
                assert!(!fit, "a refusal was produced for a fit host");
                assert!(matches!(ground, Ground::HostFitness));
                assert_eq!(why, expected, "the refusal text must come from Fitness::axis");
                assert!(!why.is_empty(), "a refusal must state a reason");
            }
            None => assert!(fit, "no refusal was produced for an unfit host"),
            Some(other) => panic!("expected a refusal, got {}", other.line()),
        }
    }
}

#[test]
fn a_host_independent_axis_cannot_be_refused_for_unfitness() {
    for f in hosts() {
        assert!(
            Outcome::refused_on_host(&f, Sensitivity::HostIndependent).is_none(),
            "HostIndependent is fit on every host, so there are no grounds to refuse"
        );
    }
}

#[test]
fn a_core_refusal_is_none_when_the_host_has_enough() {
    for f in hosts() {
        match Outcome::refused_on_cores(&f) {
            None => assert!(f.core_reason.is_none(), "the probe named a core shortfall"),
            Some(Outcome::Refused { why, .. }) => {
                assert_eq!(Some(&why), f.core_reason.as_ref(), "it is the probe's own string");
            }
            Some(other) => panic!("expected a refusal, got {}", other.line()),
        }
    }
}

#[test]
fn display_names_the_ground_so_a_log_says_what_was_checked() {
    let o = Outcome::Refused { ground: Ground::HostCores, why: "two cores".into() };
    let s = o.line();
    assert!(s.starts_with("REFUSED"), "{s}");
    assert!(s.contains("HostCores"), "the ground must be legible: {s}");
    assert!(s.contains("two cores"), "the reason must survive: {s}");
}

#[test]
fn an_outcome_prints_on_one_line() {
    assert_eq!(Outcome::Pass("all".into()).line(), "PASS — all");
    assert_eq!(Outcome::Fail("one".into()).line(), "FAIL — one");
    for g in [
        Ground::HostFitness,
        Ground::HostCores,
        Ground::Tf2NotLinked,
        Ground::FrozenBackendNotCompiled,
        Ground::MeasuredElsewhere,
        Ground::NoInstrument,
        Ground::MeasurementRefused,
    ] {
        let o = Outcome::Refused { ground: g, why: "why".into() };
        assert_eq!(o.line(), format!("REFUSED ({g:?}) — why"));
    }
}

#[test]
fn a_refusal_on_cores_says_how_many_are_needed() {
    let f = Fitness::assess(16, 4, Some(4), load(0.0), None, false, true, false);
    let o = Outcome::refused_on_cores(&f).unwrap();
    assert_eq!(o.code(), EXIT_REFUSED);
    assert!(o.line().contains("17 needed"), "{}", o.line());
}
