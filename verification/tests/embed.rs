//! The cost of embedding: runs, pairs of runs, and the manifest.

use tf_tree_bench::embed::{
    lto_for_profile_dir, profile_key, profile_section_exists, profile_settings_from_manifest, Pair,
    PairError, Run, RunError, Verdict, EMBEDDER_PROFILE, GATE, REFERENCE_PROFILE, ROUNDS, SCHEMA,
    STAMPS, SWEEPS,
};
use tf_tree_bench::fixture::stamp_ns;
use tf_tree_bench::number::Number;
use tf_tree_bench::report::Drift;

fn num(x: f64) -> Number {
    Number::new(
        x.to_bits(),
        &format!("{x}"),
        &format!("{x:.0}"),
        &format!("{x:.1}"),
        &format!("{x:.3}"),
        &format!("{x:.5}"),
        &format!("{x:.4e}"),
    )
}

fn round5(x: f64) -> f64 {
    (x * 100_000.0).round() / 100_000.0
}

fn run(dir: &str, out_ns: f64, in_ns: f64) -> Run {
    let r = round5(out_ns / in_ns);
    Run {
        profile_dir: dir.to_owned(),
        source_id: "0123456789abcdef".to_owned(),
        out_of_crate_ns: num(out_ns),
        in_crate_ns: num(in_ns),
        boundary_ratio: num(r),
        ratio_lo: num(round5(r * 0.999)),
        ratio_hi: num(round5(r * 1.001)),
        out_of_crate_spread: num(0.004),
        in_crate_spread: num(0.004),
        rounds: ROUNDS,
        lookups_per_round: 409_600,
    }
}

fn same_number(a: &Number, b: &Number) {
    assert_eq!(a.bits, b.bits);
    assert_eq!(a.plain, b.plain);
    assert_eq!(a.whole, b.whole);
    assert_eq!(a.tenths, b.tenths);
    assert_eq!(a.thousandths, b.thousandths);
    assert_eq!(a.long, b.long);
    assert_eq!(a.scientific, b.scientific);
}

fn same_run(a: &Run, b: &Run) {
    assert_eq!(a.profile_dir, b.profile_dir);
    assert_eq!(a.source_id, b.source_id);
    same_number(&a.out_of_crate_ns, &b.out_of_crate_ns);
    same_number(&a.in_crate_ns, &b.in_crate_ns);
    same_number(&a.boundary_ratio, &b.boundary_ratio);
    same_number(&a.ratio_lo, &b.ratio_lo);
    same_number(&a.ratio_hi, &b.ratio_hi);
    same_number(&a.out_of_crate_spread, &b.out_of_crate_spread);
    same_number(&a.in_crate_spread, &b.in_crate_spread);
    assert_eq!(a.rounds, b.rounds);
    assert_eq!(a.lookups_per_round, b.lookups_per_round);
}

fn load_pair(embedder: &Run, reference: &Run) -> Result<Pair, PairError> {
    Pair::load(
        "tmp/embedder.json",
        Ok(embedder.to_json()),
        "tmp/release.json",
        Ok(reference.to_json()),
    )
}

#[test]
fn json_round_trips() {
    let r = run(EMBEDDER_PROFILE, 239.712, 199.4);
    let back = Run::from_json(&r.to_json()).expect("parse");
    same_run(&back, &r);
}

#[test]
fn a_rounded_run_is_written_as_it_was_read() {
    let text = run(EMBEDDER_PROFILE, 700.0 / 3.0, 601.0 / 3.0).to_json();
    let back = Run::from_json(&text).expect("parse");
    assert_eq!(back.out_of_crate_ns.bits, 233.333f64.to_bits());
    assert_eq!(back.to_json(), text);
}

#[test]
fn a_foreign_schema_is_refused() {
    let text = run(EMBEDDER_PROFILE, 240.0, 200.0)
        .to_json()
        .replace(SCHEMA, "tf_tree.embed-cost/99");
    assert!(Run::from_json(&text).is_err());
    assert_eq!(
        Run::from_json(&text).unwrap_err().message(),
        "embed-cost schema is `tf_tree.embed-cost/99`, this build reads `tf_tree.embed-cost/2`"
    );
}

#[test]
fn a_zero_duration_is_refused_rather_than_dividing_into_infinity() {
    let text = run(EMBEDDER_PROFILE, 240.0, 200.0)
        .to_json()
        .replace("\"in_crate_ns\": 200.000", "\"in_crate_ns\": 0.000");
    assert!(Run::from_json(&text).is_err());
    assert_eq!(
        Run::from_json(&text).unwrap_err().message(),
        "in_crate_ns is 0, which is not a duration or a ratio"
    );
}

#[test]
fn each_fault_of_a_document_is_named() {
    let good = run(EMBEDDER_PROFILE, 240.0, 200.0).to_json();
    assert!(matches!(Run::from_json("not json"), Err(RunError::NotJson)));
    assert_eq!(RunError::NotJson.message(), "parsing embed-cost json");
    assert!(matches!(Run::from_json("{}"), Err(RunError::NoSchema)));
    assert_eq!(RunError::NoSchema.message(), "no `schema` field");
    assert!(matches!(Run::from_json(&good.replace("\"schema\": \"", "\"schema\": 1, \"x\": \"")), Err(RunError::NoSchema)));
    let e = Run::from_json(&good.replace("source_id", "other_id")).unwrap_err();
    assert_eq!(e.message(), "no `source_id` field");
    let e = Run::from_json(&good.replace("in_crate_spread", "other_spread")).unwrap_err();
    assert_eq!(e.message(), "no numeric `in_crate_spread` field");
    let e = Run::from_json(&good.replace("\"rounds\": 9", "\"rounds\": \"9\"")).unwrap_err();
    assert_eq!(e.message(), "no numeric `rounds` field");
}

#[test]
fn a_pair_of_two_builds_of_one_source_is_accepted() {
    let a = run(EMBEDDER_PROFILE, 240.0, 200.0);
    let b = run(REFERENCE_PROFILE, 200.0, 195.0);
    let p = load_pair(&a, &b).expect("pair");
    same_run(&p.embedder, &a);
    same_run(&p.reference, &b);
}

#[test]
fn two_runs_of_the_same_build_are_refused() {
    let err = load_pair(
        &run(EMBEDDER_PROFILE, 240.0, 200.0),
        &run(EMBEDDER_PROFILE, 240.0, 200.0),
    )
    .expect_err("a same-build pair must be refused");
    assert!(err.message().contains("two different builds"), "unexpected error: {}", err.message());
}

#[test]
fn two_runs_built_from_different_source_are_refused() {
    let mut stale = run(REFERENCE_PROFILE, 200.0, 195.0);
    stale.source_id = "fedcba9876543210".to_owned();
    let err = load_pair(&run(EMBEDDER_PROFILE, 240.0, 200.0), &stale)
        .expect_err("a stale half must be refused");
    assert!(err.message().contains("different source"), "unexpected error: {}", err.message());
}

#[test]
fn a_pair_with_an_unreadable_half_is_refused() {
    let b = run(REFERENCE_PROFILE, 200.0, 195.0);
    let e = Pair::load("a.json", Err("no such file".to_owned()), "b.json", Ok(b.to_json()))
        .unwrap_err();
    assert_eq!(e.message(), "reading a.json: no such file");
    let a = run(EMBEDDER_PROFILE, 240.0, 200.0);
    let e = Pair::load("a.json", Ok(a.to_json()), "b.json", Ok("[".to_owned())).unwrap_err();
    assert_eq!(e.message(), "in b.json: parsing embed-cost json");
}

#[test]
fn a_band_that_straddles_the_threshold_is_unresolved_not_a_verdict() {
    let mut r = run(EMBEDDER_PROFILE, 104.0, 100.0);
    r.ratio_lo = num(1.01);
    r.ratio_hi = num(1.09);
    assert_eq!(r.verdict(), Verdict::Unresolved);
    assert!(r.verdict_line("4").contains("cannot answer"), "{}", r.verdict_line("4"));

    r.ratio_lo = num(1.039);
    r.ratio_hi = num(1.041);
    assert_eq!(r.verdict(), Verdict::Within);
}

#[test]
fn the_gate_boundary_is_five_percent() {
    let mut inside = run(EMBEDDER_PROFILE, 104.9, 100.0);
    inside.ratio_lo = num(1.049);
    inside.ratio_hi = num(1.049);
    let mut outside = run(EMBEDDER_PROFILE, 105.1, 100.0);
    outside.ratio_lo = num(1.051);
    outside.ratio_hi = num(1.051);
    assert_eq!(inside.verdict(), Verdict::Within, "4.9% must be inside");
    assert_eq!(outside.verdict(), Verdict::Over, "5.1% must be outside");
    assert!(outside.verdict_line("5").contains("OVER"));
}

#[test]
fn the_failure_line_does_not_claim_inline_placement_cannot_help() {
    let mut over = run(EMBEDDER_PROFILE, 124.0, 100.0);
    over.ratio_lo = num(1.23);
    over.ratio_hi = num(1.25);
    let line = over.verdict_line("24");
    assert!(!line.contains("placement closes"), "the verdict repeats a refuted claim: {line}");
    assert!(line.contains("control run"), "the verdict must cite the control: {line}");
    assert!(line.starts_with("1.240x (rounds spanned 1.230-1.250), OVER"), "{line}");
    assert!(line.contains(" costs 24% more than "), "{line}");
}

#[test]
fn every_duration_this_row_reports_is_gated() {
    let m = run(EMBEDDER_PROFILE, 240.0, 200.0).metrics(num(409_600.0));
    for key in ["boundary_ratio", "out_of_crate_ns", "in_crate_ns"] {
        let got = m.iter().find(|m| m.key == key).expect(key);
        assert_eq!(got.drift, Drift::LowerIsBetter, "`{key}` must be gated");
        let tolerance = f64::from_bits(got.tolerance.bits);
        assert!((tolerance - f64::from_bits(GATE)).abs() < 1e-12, "`{key}` must be gated at 5%");
    }
    assert_eq!(f64::from_bits(GATE), 0.05);
}

#[test]
fn a_verdict_has_a_stable_name() {
    assert_eq!(Verdict::Within.as_str(), "within");
    assert_eq!(Verdict::Over.as_str(), "over");
    assert_eq!(Verdict::Unresolved.as_str(), "unresolved");
}

#[test]
fn a_run_is_written_member_by_member() {
    let json = run(EMBEDDER_PROFILE, 240.0, 200.0).to_json();
    for part in [
        "\"schema\": \"tf_tree.embed-cost/2\"",
        "\"profile_dir\": \"embedder\"",
        "\"source_id\": \"0123456789abcdef\"",
        "\"out_of_crate_ns\": 240.000",
        "\"in_crate_ns\": 200.000",
        "\"boundary_ratio\": 1.20000",
        "\"rounds\": 9",
        "\"lookups_per_round\": 409600",
    ] {
        assert!(json.contains(part), "{part} is not in {json}");
    }
    assert_eq!(SWEEPS as u64 * STAMPS as u64, 409_600);
}

const MANIFEST: &str = "[workspace]\nmembers = [\"a\"]\n\n\
    [profile.release]\nlto = \"thin\"\ncodegen-units = 1\n\n\
    [profile.embedder]\ninherits = \"release\"\nlto = false\ncodegen-units = 16\n\n\
    [profile.profiling]\ninherits = \"release\"\ndebug = true\n\n\
    [profile.bench]\nlto = \"thin\"\n\n\
    [profile.dev]\nopt-level = 1\n";

#[test]
fn a_profile_states_its_settings() {
    assert_eq!(
        profile_settings_from_manifest(MANIFEST, EMBEDDER_PROFILE).expect("embedder profile"),
        ("false".to_owned(), "16".to_owned())
    );
    assert_eq!(
        profile_settings_from_manifest(MANIFEST, REFERENCE_PROFILE).expect("release profile"),
        ("\"thin\"".to_owned(), "1".to_owned())
    );
    assert_eq!(profile_key(MANIFEST, "bench", "lto").expect("lto"), "\"thin\"");
}

#[test]
fn a_missing_profile_is_an_error_not_a_default() {
    let e = profile_settings_from_manifest(MANIFEST, "no-such-profile").unwrap_err();
    assert_eq!(e.message(), "the workspace manifest has no [profile.no-such-profile]");
    assert!(!profile_section_exists(MANIFEST, "no-such-profile"));
    assert!(profile_section_exists(MANIFEST, "bench"));
    let e = profile_key(MANIFEST, "bench", "codegen-units").unwrap_err();
    assert_eq!(e.message(), "[profile.bench] declares no `codegen-units`");
}

#[test]
fn a_section_ends_at_the_next_header_however_indented() {
    let m = "[profile.a]\n  [profile.b]\n  lto = true\n";
    let e = profile_key(m, "a", "lto").unwrap_err();
    assert_eq!(e.message(), "[profile.a] declares no `lto`");
    assert_eq!(profile_key(m, "b", "lto").expect("lto"), "true");
    let m = "[profile.a]\nlto = false\n[dependencies]\ncodegen-units = 3\n";
    assert_eq!(profile_key(m, "a", "lto").expect("lto"), "false");
    assert!(profile_key(m, "a", "codegen-units").is_err());
}

#[test]
fn an_indented_bracket_in_an_open_array_or_string_ends_no_section() {
    let m = "[profile.a]\nx = [\n  [1],\n]\nlto = true\n";
    assert_eq!(profile_key(m, "a", "lto").expect("lto"), "true");
    // Brackets in strings and comments open nothing, so the indented header counts.
    for line in ["x = \"[\"", "x = '['", "x = 1 # [", "x = \"\\\"[\"", "x = [1, [2]]"] {
        let m = format!("[profile.a]\n{line}\n  [profile.b]\nlto = true\n");
        assert!(profile_key(&m, "a", "lto").is_err(), "{line}");
        assert_eq!(profile_key(&m, "b", "lto").expect("lto"), "true", "{line}");
    }
    // A string over several lines.
    for q in ["\"\"\"", "'''"] {
        let m = format!("[profile.a]\nx = {q}\n  [y]\n{q}\nlto = true\n  [profile.b]\nk = 1\n");
        assert_eq!(profile_key(&m, "a", "lto").expect("lto"), "true");
        assert!(profile_key(&m, "a", "k").is_err());
    }
    // A bracket at the start of a line ends a section wherever it stands.
    assert!(profile_key("[profile.a]\nx = [\n[1],\n]\nlto = true\n", "a", "lto").is_err());
}

#[test]
fn what_stands_behind_a_header_is_of_its_section() {
    assert_eq!(profile_key("[profile.a] lto = true\n", "a", "lto").expect("lto"), "true");
    assert!(profile_key("[profile.a] # lto = true\n", "a", "lto").is_err());
    let m = "[profile.a] x = [\n  [1],\n]\nlto = true\n";
    assert_eq!(profile_key(m, "a", "lto").expect("lto"), "true");
}

#[test]
fn a_header_in_a_comment_declares_nothing() {
    let m = "# [profile.a] was removed\n[profile.b]\nlto = true\n";
    assert!(!profile_section_exists(m, "a"));
    assert!(profile_section_exists(m, "b"));
    let e = profile_key(m, "a", "lto").unwrap_err();
    assert_eq!(e.message(), "the workspace manifest has no [profile.a]");
    assert!(lto_for_profile_dir(m, "a").starts_with("unknown ("));
    // The section is the one behind the header, not behind its mention.
    let m = "# [profile.a] is below\nlto = true\n[profile.a]\nlto = false\n";
    assert_eq!(profile_key(m, "a", "lto").expect("lto"), "false");
}

#[test]
fn a_profile_directory_maps_to_the_section_that_built_it() {
    assert_eq!(lto_for_profile_dir(MANIFEST, EMBEDDER_PROFILE), "false");
    assert_eq!(lto_for_profile_dir(MANIFEST, REFERENCE_PROFILE), "\"thin\"");
    assert_eq!(
        lto_for_profile_dir(MANIFEST, "debug"),
        "false (cargo's default; [profile.dev] declares no `lto`)"
    );
    let unknown = lto_for_profile_dir(MANIFEST, "no-such-dir");
    assert!(unknown.starts_with("unknown"), "{unknown}");
    assert_eq!(
        lto_for_profile_dir(MANIFEST, "profiling"),
        "\"thin\" (inherited from [profile.release])"
    );
}

#[test]
fn a_profile_with_no_lto_of_its_own_reports_the_one_it_inherits() {
    let m = "[profile.base]\nlto = \"thin\"\n\n\
             [profile.child]\ninherits = \"base\"\ncodegen-units = 1\n\n\
             [profile.grandchild]\ninherits = \"child\"\n\n\
             [profile.orphan]\ninherits = \"nowhere\"\n\n\
             [profile.ouroboros]\ninherits = \"ouroboros\"\n\n\
             [profile.plain]\ncodegen-units = 4\n";

    assert_eq!(lto_for_profile_dir(m, "child"), "\"thin\" (inherited from [profile.base])");
    assert_eq!(lto_for_profile_dir(m, "grandchild"), "\"thin\" (inherited from [profile.base])");
    assert_eq!(lto_for_profile_dir(m, "base"), "\"thin\"");
    assert!(lto_for_profile_dir(m, "plain").starts_with("false (cargo's default;"));
    assert!(lto_for_profile_dir(m, "orphan").starts_with("unknown ("));
    assert!(lto_for_profile_dir(m, "ouroboros").starts_with("unknown ("));
    assert!(lto_for_profile_dir(m, "absent").starts_with("unknown ("));
}

#[test]
fn a_profile_does_not_borrow_the_next_profiles_keys() {
    let m = "[profile.a]\nlto = false\n\n[profile.b]\nlto = true\ncodegen-units = 16\n";
    assert!(profile_settings_from_manifest(m, "a").is_err());
}

#[test]
fn every_probe_stamp_is_off_grid_on_every_edge() {
    for period in [1_000_000i64, 5_000_000, 20_000_000] {
        for i in 0..STAMPS as i64 {
            let t = stamp_ns(i);
            assert!(
                t % period != 0,
                "stamp {t} lands on the {period} ns grid, so that edge does not interpolate"
            );
        }
    }
}
