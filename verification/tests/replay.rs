//! Recordings: reading, querying and making them.

use tf_tree_bench::replay::query::{declined, DrawError, QuerySet};
use tf_tree_bench::replay::robot::synth_robot;
use tf_tree_bench::replay::{sort_by_stamp, Pose, Sample, StreamError, TfStream};

/// Each line's words, as doubles where they are.
fn rows(text: &str) -> Vec<Vec<Option<u64>>> {
    text.lines()
        .map(|l| l.split_whitespace().map(|w| w.parse::<f64>().ok().map(f64::to_bits)).collect())
        .collect()
}

fn parse(text: &str) -> Result<TfStream, StreamError> {
    TfStream::parse(text, &rows(text))
}

fn why(text: &str) -> String {
    match parse(text) {
        Ok(_) => panic!("accepted"),
        Err(e) => e.message(),
    }
}

const UNIT: &str = "1 0 0 0 0 0 0";

fn good() -> String {
    format!(
        "# made by hand\n\nS base cam 1 0 0 0 0.5 -2 3e-1\n\
         D map base 200 {UNIT}\nD map base 100 {UNIT}\nD base arm 150 {UNIT}\nD base arm 400 {UNIT}\n"
    )
}

fn pose(tx: f64) -> Pose {
    Pose { qw: 1.0f64.to_bits(), qx: 0, qy: 0, qz: 0, tx: tx.to_bits(), ty: 0, tz: 0 }
}

#[test]
fn a_recording_is_read_line_by_line() {
    let s = parse(&good()).unwrap_or_else(|e| panic!("{}", e.message()));
    assert_eq!(s.provenance, ["made by hand"]);
    assert_eq!(s.static_edges.len(), 1);
    let (p, c, x) = &s.static_edges[0];
    assert_eq!((p.as_str(), c.as_str()), ("base", "cam"));
    assert_eq!(
        [x.qw, x.tx, x.ty, x.tz].map(f64::from_bits),
        [1.0, 0.5, -2.0, 0.3]
    );
    assert_eq!(
        s.dynamic_edges,
        [("map".to_owned(), "base".to_owned()), ("base".to_owned(), "arm".to_owned())]
    );
    let order: Vec<_> = s.samples.iter().map(|x| (x.stamp_ns, x.edge)).collect();
    assert_eq!(order, [(100, 0), (150, 1), (200, 0), (400, 1)]);
}

#[test]
fn a_wrong_line_is_named_by_its_number() {
    assert_eq!(why("S a b 1 2\n"), "line 1: `S` needs 10 fields, got 5");
    assert_eq!(why("\n\nD a b\n"), "line 3: `D` needs 11 fields, got 3");
    assert_eq!(why(&format!("D a b x {UNIT}\n")), "line 1: bad stamp \"x\"");
    assert_eq!(why("S a b 1 0 0 0 0 zero 0\n"), "line 1: bad float \"zero\"");
    assert_eq!(why("# c\nT \"q\"\n"), "line 2: expected `S`, `D` or `#`, got \"T \\\"q\\\"\"");
    assert_eq!(why("# only a comment\n"), "stream contains no transforms");
}

#[test]
fn samples_of_one_stamp_keep_their_order() {
    let at = |stamp_ns: i64, edge: usize| Sample { edge, stamp_ns, pose: pose(0.0) };
    let sorted = sort_by_stamp(&vec![at(5, 0), at(3, 1), at(5, 2), at(3, 3), at(4, 4)]);
    let got: Vec<_> = sorted.iter().map(|s| (s.stamp_ns, s.edge)).collect();
    assert_eq!(got, [(3, 1), (3, 3), (4, 4), (5, 0), (5, 2)]);
}

#[test]
fn a_recording_knows_its_frames_and_its_window() {
    let s = parse(&good()).ok().unwrap();
    assert_eq!(s.frame_names(), ["arm", "base", "cam", "map"]);
    assert_eq!(s.samples_per_edge(), [2, 2]);
    assert_eq!(s.ring_slots(), [3, 3]);
    assert_eq!(s.common_window(), Some((150, 200)));
    assert_eq!(s.span_ns(), 300);
    let still = parse(&format!("S a b {UNIT}\n")).ok().unwrap();
    assert_eq!(still.common_window(), None);
    let apart = parse(&format!(
        "D a b 1 {UNIT}\nD a b 2 {UNIT}\nD b c 5 {UNIT}\nD b c 6 {UNIT}\n"
    ))
    .ok()
    .unwrap();
    assert_eq!(apart.common_window(), None);
}

#[test]
fn queries_stay_in_the_window_and_follow_the_seed() {
    let s = parse(&good()).ok().unwrap();
    let q = QuerySet::draw(&s, 100, 7).ok().unwrap();
    assert_eq!(q.queries.len(), 100);
    for (a, b, t) in &q.queries {
        assert_ne!(a, b);
        assert!((150..200).contains(t), "{t}");
    }
    let again = QuerySet::draw(&s, 100, 7).ok().unwrap();
    assert_eq!(q.queries, again.queries);
    // SplitMix64, written out.
    let mut state: u64 = 7 ^ 0x9E37_79B9_7F4A_7C15;
    let mut next = || {
        state = state.wrapping_add(0x9E37_79B9_7F4A_7C15);
        let mut z = state;
        z = (z ^ (z >> 30)).wrapping_mul(0xBF58_476D_1CE4_E5B9);
        z = (z ^ (z >> 27)).wrapping_mul(0x94D0_49BB_1331_11EB);
        z ^ (z >> 31)
    };
    let names = ["arm", "base", "cam", "map"];
    let mut want = Vec::new();
    while want.len() < 100 {
        let a = (next() % 4) as usize;
        let b = (next() % 4) as usize;
        if a != b {
            want.push((names[a].to_owned(), names[b].to_owned(), 150 + (next() % 50) as i64));
        }
    }
    assert_eq!(q.queries, want);
}

#[test]
fn a_recording_with_a_window_and_two_frames_draws_all_that_is_asked() {
    let s = parse(&format!("D a b 1 {UNIT}\nD a b 3 {UNIT}\n")).ok().unwrap();
    assert_eq!(s.frame_names(), ["a", "b"]);
    for seed in [0, 1, 11, u64::MAX] {
        for n in [0, 1, 1_000] {
            let q = QuerySet::draw(&s, n, seed).ok().unwrap();
            assert_eq!(q.queries.len(), n);
            assert!(q.queries.iter().all(|(a, b, t)| a != b && (1..3).contains(t)));
        }
    }
}

#[test]
fn no_queries_can_be_drawn_where_there_is_nothing_to_ask() {
    let still = parse(&format!("S a b {UNIT}\n")).ok().unwrap();
    assert!(matches!(QuerySet::draw(&still, 1, 1), Err(DrawError::NoWindow)));
    let one = parse(&format!("D a a 1 {UNIT}\nD a a 5 {UNIT}\n")).ok().unwrap();
    assert!(matches!(QuerySet::draw(&one, 1, 1), Err(DrawError::FewFrames)));
    assert_eq!(
        DrawError::NoWindow.message(),
        "recording has no window covered by every dynamic edge"
    );
    assert_eq!(DrawError::FewFrames.message(), "recording has fewer than two frames");
}

#[test]
fn what_was_declined_is_counted() {
    assert_eq!(declined(&vec![Some(pose(1.0)), None, None]), 2);
    assert_eq!(declined(&vec![]), 0);
}

#[test]
fn a_made_robot_is_a_spine_with_hangers() {
    let statics: Vec<Pose> = (0..6).map(|i| pose(i as f64)).collect();
    let dynamics: Vec<Pose> = (0..6).map(|i| pose(100.0 + i as f64)).collect();
    let s = synth_robot(2, 2, 3, "50", 20_000_000, &statics, &dynamics);
    assert_eq!(
        s.provenance,
        ["synthetic robot: chain_depth=2 branches=2 samples=3 rate=50Hz"]
    );
    assert_eq!(
        s.dynamic_edges,
        [("link_0".to_owned(), "link_1".to_owned()), ("link_1".to_owned(), "link_2".to_owned())]
    );
    assert_eq!(s.static_edges.len(), 6);
    assert_eq!((s.static_edges[3].0.as_str(), s.static_edges[3].1.as_str()), ("link_1", "s_1_1"));
    assert_eq!(s.static_edges[3].2, statics[3]);
    let got: Vec<_> = s.samples.iter().map(|x| (x.stamp_ns, x.edge)).collect();
    assert_eq!(
        got,
        [(0, 0), (0, 1), (20_000_000, 0), (20_000_000, 1), (40_000_000, 0), (40_000_000, 1)]
    );
    assert_eq!(s.samples[3].pose, dynamics[3]);
    assert_eq!(s.common_window(), Some((0, 40_000_000)));
    assert_eq!(s.frame_names().len(), 9);
}
