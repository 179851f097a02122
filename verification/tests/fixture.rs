//! The fixture, and the queries that are drawn over it.

use tf_tree_bench::differential::{
    bracket, depths_of, draw, route, Bracket, DiffReport, Reference, Score, WorstQuery, LOW_NS,
    TOLERANCE,
};
use tf_tree_bench::fixture::{
    edges, frame_names, history, parents, stamp_ns, EdgeDefKind, DYNAMIC_EDGES, HISTORY_SECS,
    NOW_NS, QUERY_NS,
};
use tf_tree_bench::number::Number;

fn num(x: f64) -> Number {
    Number::new(
        x.to_bits(),
        &format!("{x}"),
        &format!("{x:.0}"),
        &format!("{x:.1}"),
        &format!("{x:.3}"),
        &format!("{x:.5}"),
        &format!("{x:.4e}"),
    )
}

#[test]
fn every_frame_is_named_once_and_has_one_parent() {
    let names = frame_names();
    assert_eq!(names.len(), 24);
    assert_eq!(&names[..4], ["map", "odom", "base_link", "imu_link"]);
    let mut sorted = names.clone();
    sorted.sort();
    sorted.dedup();
    assert_eq!(sorted.len(), names.len());
    let up = parents();
    assert_eq!(up.iter().filter(|p| p.is_none()).count(), 1);
    for e in edges() {
        let child = names.iter().position(|n| *n == e.child).expect(e.child);
        let parent = names.iter().position(|n| *n == e.parent).expect(e.parent);
        assert_eq!(up[child], Some(parent), "{}", e.child);
    }
}

#[test]
fn the_published_edges_are_four_of_the_table() {
    let table = edges();
    assert_eq!(table.len(), 23);
    for (i, (parent, child, rate)) in DYNAMIC_EDGES.into_iter().enumerate() {
        assert_eq!((table[i].parent, table[i].child), (parent, child));
        assert!(matches!(table[i].kind, EdgeDefKind::Dynamic { rate_hz } if rate_hz == rate));
    }
    assert_eq!(table.iter().filter(|e| matches!(e.kind, EdgeDefKind::Static { .. })).count(), 19);
}

#[test]
fn the_history_of_an_edge_covers_the_stamps_that_are_queried() {
    for (edge, (_, _, rate)) in DYNAMIC_EDGES.into_iter().enumerate() {
        let h = history(edge as u32, 7, rate);
        assert_eq!(h.len() as u64, HISTORY_SECS * rate);
        assert_eq!((h[0].stamp_ns, h[0].edge, h[0].writer_pid), (0, edge as u32, 7));
        assert!(h[h.len() - 1].stamp_ns >= NOW_NS, "{rate}");
        assert!(h.windows(2).all(|w| w[0].stamp_ns < w[1].stamp_ns));
    }
    assert!(QUERY_NS < NOW_NS);
    assert!(stamp_ns(0) <= NOW_NS && stamp_ns(1) != stamp_ns(0));
}

#[test]
fn queries_are_drawn_in_the_window_and_replayed_from_the_seed() {
    let q = draw(0x5EED_1234_ABCD_0001, 24, 1_000);
    let again = draw(0x5EED_1234_ABCD_0001, 24, 1_000);
    let other = draw(1, 24, 1_000);
    assert!(!q.is_empty() && q.len() <= 1_000);
    assert_eq!(q.len(), again.len());
    for (a, b) in q.iter().zip(&again) {
        assert_eq!((a.target, a.source, a.stamp_ns), (b.target, b.source, b.stamp_ns));
        assert!(a.target < 24 && a.source < 24 && a.target != a.source);
        assert!(LOW_NS <= a.stamp_ns && a.stamp_ns <= NOW_NS);
    }
    assert_ne!(
        q.iter().map(|x| x.stamp_ns).collect::<Vec<_>>(),
        other.iter().map(|x| x.stamp_ns).collect::<Vec<_>>()
    );
}

#[test]
fn the_first_draw_is_what_the_generator_gives() {
    // SplitMix64, written out.
    let mut state: u64 = 42 ^ 0xD1B5_4A32_D192_ED03;
    let mut next = || {
        state = state.wrapping_add(0x9E37_79B9_7F4A_7C15);
        let mut z = state;
        z = (z ^ (z >> 30)).wrapping_mul(0xBF58_476D_1CE4_E5B9);
        z = (z ^ (z >> 27)).wrapping_mul(0x94D0_49BB_1331_11EB);
        z ^ (z >> 31)
    };
    let mut want = Vec::new();
    for _ in 0..50 {
        let target = (next() % 24) as usize;
        let source = (next() % 24) as usize;
        if target != source {
            want.push((target, source, LOW_NS + (next() % 100_000_000) as i64));
        }
    }
    let got: Vec<_> = draw(42, 24, 50).iter().map(|q| (q.target, q.source, q.stamp_ns)).collect();
    assert_eq!(got, want);
}

#[test]
fn a_route_goes_up_to_where_the_ways_meet() {
    let up = parents();
    let depths = depths_of(&up).expect("a tree");
    let names = frame_names();
    let at = |n: &str| names.iter().position(|x| *x == n).unwrap();
    let (map, imu, odom, base) = (at("map"), at("imu_link"), at("odom"), at("base_link"));
    assert_eq!((depths[map], depths[odom], depths[imu]), (0, 1, 3));
    let r = route(&up, &depths, imu, map).expect("one root");
    assert_eq!(r.from_target, [imu, base, odom]);
    assert!(r.from_source.is_empty());
    let r = route(&up, &depths, map, imu).expect("one root");
    assert!(r.from_target.is_empty());
    assert_eq!(r.from_source, [imu, base, odom]);
    let r = route(&up, &depths, imu, at("base_footprint")).expect("one root");
    assert_eq!((r.from_target, r.from_source), (vec![imu], vec![at("base_footprint")]));
}

#[test]
fn frames_of_two_roots_have_no_route_and_a_cycle_has_no_depth() {
    let up = vec![None, Some(0), None];
    let depths = depths_of(&up).unwrap();
    assert_eq!(depths, [0, 1, 0]);
    assert!(route(&up, &depths, 1, 2).is_none());
    assert!(depths_of(&vec![Some(1), Some(0)]).is_none());
}

#[test]
fn a_stamp_is_bracketed_by_two_samples_or_an_end() {
    let s = vec![10, 20, 30];
    assert_eq!(bracket(&s, 5), Bracket::At(0));
    assert_eq!(bracket(&s, 10), Bracket::At(0));
    assert_eq!(bracket(&s, 15), Bracket::Between(0));
    assert_eq!(bracket(&s, 20), Bracket::At(1));
    assert_eq!(bracket(&s, 29), Bracket::Between(1));
    assert_eq!(bracket(&s, 30), Bracket::At(2));
    assert_eq!(bracket(&s, 99), Bracket::At(2));
    assert_eq!(bracket(&vec![], 1), Bracket::Empty);
}

#[test]
fn the_worst_disagreement_stands() {
    let q = draw(3, 24, 10);
    let mut s = Score::new();
    s.add(q[0], num(1e-14));
    s.add(q[1], num(3e-13));
    s.add(q[2], num(3e-13));
    s.add(q[3], num(f64::NAN));
    assert_eq!(s.compared, 4);
    assert_eq!(s.max_error.plain, format!("{}", 3e-13));
    assert_eq!(s.worst.map(|w| w.stamp_ns), Some(q[1].stamp_ns));
}

fn report(compared: usize, max_error: f64) -> DiffReport {
    DiffReport {
        reference: Reference::NaiveRust,
        queries: 10,
        compared,
        max_error: num(max_error),
        tolerance: num(f64::from_bits(TOLERANCE)),
        worst_query: Some(WorstQuery { target: "a", source: "b", stamp_ns: -5 }),
    }
}

#[test]
fn a_run_that_scored_nothing_does_not_pass() {
    assert_eq!(f64::from_bits(TOLERANCE), 1e-12);
    assert!(report(9, 1e-12).passed());
    assert!(!report(9, 2e-12).passed());
    assert!(!report(0, 0.0).passed());
    assert!(!report(9, f64::NAN).passed());
    assert_eq!(
        report(9, 1e-13).line("1e-13", "1e-12"),
        "NaiveRust: max_error=1e-13 tol=1e-12 (9/10 queries scored) worst: a<-b @ -5 ns"
    );
    let mut r = report(9, 0.0);
    r.reference = Reference::Tf2;
    r.worst_query = None;
    assert_eq!(r.line("0e0", "1e-12"), "Tf2: max_error=0e0 tol=1e-12 (9/10 queries scored)");
}
