//! The shared mobile-robot fixture: a tree of 24 frames, six edges deep, shaped like a
//! real robot. Four edges are published at their own rates; the others are fixed.

use vstd::prelude::*;

use crate::text;

verus! {

/// Seconds of history that every published edge retains.
pub const HISTORY_SECS: u64 = 10;

/// A query stamp that lies inside every published edge's retained window.
pub const NOW_NS: i64 = 9_900_000_000;

/// The query stamp of the latency row: half a millisecond before [`NOW_NS`].
pub const QUERY_NS: i64 = 9_899_500_000;

/// What an edge is.
#[derive(Clone, Copy, Debug)]
pub enum EdgeDefKind {
    /// A constant pose: the exponential of a twist, whose six components are doubles held
    /// by their bit patterns.
    Static { xi: [u64; 6] },
    /// A pose published at a rate, in hertz.
    Dynamic { rate_hz: u64 },
}

/// One edge of the fixture.
#[derive(Clone, Copy, Debug)]
pub struct EdgeDef {
    /// Parent frame.
    pub parent: &'static str,
    /// Child frame.
    pub child: &'static str,
    /// Fixed or published.
    pub kind: EdgeDefKind,
}

/// The edges: parent, child, rate in hertz (0 where the edge is fixed), and the twist of
/// its pose.
pub const EDGES: [(&'static str, &'static str, u64, [u64; 6]); 23] = [
    (
        "map",
        "odom",
        50,
        [0, 0, 0, 0, 0, 0],
    ),
    (
        "odom",
        "base_link",
        200,
        [0, 0, 0, 0, 0, 0],
    ),
    (
        "base_link",
        "imu_link",
        1000,
        [0, 0, 0, 0, 0, 0],
    ),
    (
        "lidar_mount",
        "lidar",
        10,
        [0, 0, 0, 0, 0, 0],
    ),
    (
        "base_link",
        "base_footprint",
        0,
        [0, 0, 0, 0, 0, 0xbfc3_3333_3333_3333],
    ),
    (
        "base_link",
        "sensor_arch",
        0,
        [0, 0, 0, 0x3fb9_9999_9999_999a, 0, 0x3fd9_9999_9999_999a],
    ),
    (
        "base_footprint",
        "caster_wheel",
        0,
        [0, 0, 0, 0xbfd0_0000_0000_0000, 0, 0xbfa9_9999_9999_999a],
    ),
    (
        "base_link",
        "left_wheel",
        0,
        [0, 0, 0, 0, 0x3fc9_9999_9999_999a, 0xbfb9_9999_9999_999a],
    ),
    (
        "base_link",
        "right_wheel",
        0,
        [0, 0, 0, 0, 0xbfc9_9999_9999_999a, 0xbfb9_9999_9999_999a],
    ),
    (
        "base_link",
        "gps_link",
        0,
        [0, 0, 0, 0xbfb9_9999_9999_999a, 0, 0x3fd3_3333_3333_3333],
    ),
    (
        "base_link",
        "battery_link",
        0,
        [0, 0, 0, 0xbfa9_9999_9999_999a, 0, 0x3f94_7ae1_47ae_147b],
    ),
    (
        "base_link",
        "compute_box",
        0,
        [0, 0, 0, 0x3fa9_9999_9999_999a, 0, 0x3fb9_9999_9999_999a],
    ),
    (
        "base_link",
        "sonar_front",
        0,
        [0, 0, 0, 0x3fd3_3333_3333_3333, 0, 0x3fa9_9999_9999_999a],
    ),
    (
        "base_link",
        "sonar_rear",
        0,
        [0, 0, 0x4009_21fb_5444_2d18, 0xbfd3_3333_3333_3333, 0, 0x3fa9_9999_9999_999a],
    ),
    (
        "base_link",
        "rear_camera_link",
        0,
        [0, 0, 0x4009_21fb_5444_2d18, 0xbfd1_eb85_1eb8_51ec, 0, 0x3fc9_9999_9999_999a],
    ),
    (
        "sensor_arch",
        "lidar_mount",
        0,
        [0, 0, 0, 0, 0, 0x3fb4_7ae1_47ae_147b],
    ),
    (
        "sensor_arch",
        "camera_mount",
        0,
        [0, 0, 0, 0x3fae_b851_eb85_1eb8, 0, 0x3f94_7ae1_47ae_147b],
    ),
    (
        "camera_mount",
        "camera_link",
        0,
        [0, 0, 0, 0x3f94_7ae1_47ae_147b, 0, 0x3f84_7ae1_47ae_147b],
    ),
    (
        "camera_link",
        "camera_optical",
        0,
        [0, 0, 0xbff9_21fb_5444_2d18, 0, 0, 0],
    ),
    (
        "sensor_arch",
        "antenna_mount",
        0,
        [0, 0, 0, 0xbfa4_7ae1_47ae_147b, 0, 0x3fae_b851_eb85_1eb8],
    ),
    (
        "antenna_mount",
        "antenna",
        0,
        [0, 0, 0, 0, 0, 0x3fc3_3333_3333_3333],
    ),
    (
        "sensor_arch",
        "thermal_camera_mount",
        0,
        [0, 0, 0, 0x3fae_b851_eb85_1eb8, 0x3fa9_9999_9999_999a, 0x3f94_7ae1_47ae_147b],
    ),
    (
        "thermal_camera_mount",
        "thermal_camera",
        0,
        [0, 0, 0, 0x3f84_7ae1_47ae_147b, 0, 0],
    ),
];

/// The published edges: parent, child, rate in hertz.
pub const DYNAMIC_EDGES: [(&'static str, &'static str, u64); 4] = [
    ("map", "odom", 50),
    ("odom", "base_link", 200),
    ("base_link", "imu_link", 1000),
    ("lidar_mount", "lidar", 10),
];

/// What the `i`th edge is.
pub open spec fn edge(i: int) -> EdgeDef {
    EdgeDef {
        parent: EDGES@[i].0,
        child: EDGES@[i].1,
        kind: if EDGES@[i].2 == 0 {
            EdgeDefKind::Static { xi: EDGES@[i].3 }
        } else {
            EdgeDefKind::Dynamic { rate_hz: EDGES@[i].2 }
        },
    }
}

/// The edges of the fixture, in declaration order.
#[must_use]
pub fn edges() -> (r: Vec<EdgeDef>)
    ensures
        r@ == Seq::new(23, |i: int| edge(i)),
{
    let table = EDGES;
    let mut v: Vec<EdgeDef> = Vec::new();
    let mut i: usize = 0;
    while i < 23
        invariant
            i <= 23,
            table == EDGES,
            v@ == Seq::new(i as nat, |j: int| edge(j)),
        decreases 23 - i,
    {
        let (parent, child, rate_hz, xi) = table[i];
        let kind = if rate_hz == 0 {
            EdgeDefKind::Static { xi }
        } else {
            EdgeDefKind::Dynamic { rate_hz }
        };
        v.push(EdgeDef { parent, child, kind });
        i = i + 1;
        assert(v@ =~= Seq::new(i as nat, |j: int| edge(j)));
    }
    v
}

/// The published edges are the first four of the table.
pub proof fn law_dynamic_edges_are_in_the_table(i: int)
    requires
        0 <= i < 4,
    ensures
        edge(i).kind is Dynamic,
        edge(i).parent == DYNAMIC_EDGES@[i].0,
        edge(i).child == DYNAMIC_EDGES@[i].1,
        edge(i).kind->rate_hz == DYNAMIC_EDGES@[i].2,
{
}

/// The frames of the first `n` edges, each where it is first named.
pub open spec fn names(n: nat) -> Seq<Seq<char>>
    decreases n,
{
    if n == 0 {
        seq![]
    } else {
        let e = edge(n - 1);
        with_name(with_name(names((n - 1) as nat), e.parent@), e.child@)
    }
}

/// Some names and one more, unless it is among them.
pub open spec fn with_name(v: Seq<Seq<char>>, s: Seq<char>) -> Seq<Seq<char>> {
    if v.contains(s) {
        v
    } else {
        v.push(s)
    }
}

/// No frame is named twice, and every edge joins two named frames.
pub proof fn law_names_are_distinct(n: nat)
    requires
        n <= 23,
    ensures
        names(n).no_duplicates(),
        forall|i: int|
            0 <= i < n ==> names(n).contains((#[trigger] edge(i)).parent@) && names(n).contains(
                edge(i).child@,
            ),
    decreases n,
{
    if n > 0 {
        law_names_are_distinct((n - 1) as nat);
        let before = names((n - 1) as nat);
        let e = edge(n - 1);
        let mid = with_name(before, e.parent@);
        lemma_with_name(before, e.parent@);
        lemma_with_name(mid, e.child@);
    }
}

proof fn lemma_with_name(v: Seq<Seq<char>>, s: Seq<char>)
    requires
        v.no_duplicates(),
    ensures
        with_name(v, s).no_duplicates(),
        with_name(v, s).contains(s),
        forall|x: Seq<char>| v.contains(x) ==> #[trigger] with_name(v, s).contains(x),
{
    let w = with_name(v, s);
    if !v.contains(s) {
        assert(w[v.len() as int] == s);
    }
    assert forall|x: Seq<char>| v.contains(x) implies #[trigger] w.contains(x) by {
        let i = choose|i: int| 0 <= i < v.len() && v[i] == x;
        assert(w[i] == x);
    }
}

/// What some names are as texts.
pub open spec fn name_texts(v: Seq<&'static str>) -> Seq<Seq<char>> {
    v.map_values(|s: &'static str| s@)
}

fn add_name(v: &mut Vec<&'static str>, s: &'static str)
    ensures
        name_texts(final(v)@) == with_name(name_texts(old(v)@), s@),
{
    let ghost all = name_texts(v@);
    let mut i: usize = 0;
    while i < v.len()
        invariant
            i <= v@.len(),
            all == name_texts(v@),
            all == name_texts(old(v)@),
            forall|j: int| 0 <= j < i ==> all[j] != s@,
        decreases v@.len() - i,
    {
        if text::same(v[i], s) {
            assert(all[i as int] == s@);
            return;
        }
        i = i + 1;
    }
    v.push(s);
    assert(name_texts(v@) =~= all.push(s@));
}

/// Every frame of the fixture, where it is first named.
#[must_use]
pub fn frame_names() -> (r: Vec<&'static str>)
    ensures
        name_texts(r@) == names(23),
{
    let table = edges();
    let mut v: Vec<&'static str> = Vec::new();
    assert(name_texts(v@) =~= names(0));
    let mut i: usize = 0;
    while i < 23
        invariant
            i <= 23,
            table@ == Seq::new(23, |j: int| edge(j)),
            name_texts(v@) == names(i as nat),
        decreases 23 - i,
    {
        assert(table@[i as int] == edge(i as int));
        add_name(&mut v, table[i].parent);
        add_name(&mut v, table[i].child);
        i = i + 1;
    }
    v
}

/// Where a frame stands among the frames of the fixture.
pub open spec fn place(name: Seq<char>) -> int {
    names(23).index_of(name)
}

/// The parent of each frame, as the first `n` edges say it.
pub open spec fn parents_by(n: nat) -> Seq<Option<usize>>
    decreases n,
{
    if n == 0 {
        Seq::new(names(23).len(), |i: int| None)
    } else {
        let e = edge(n - 1);
        parents_by((n - 1) as nat).update(place(e.child@), Some(place(e.parent@) as usize))
    }
}

fn find_name(v: &Vec<&'static str>, s: &str) -> (r: usize)
    requires
        name_texts(v@) == names(23),
        names(23).contains(s@),
    ensures
        r == place(s@),
        r < v@.len(),
{
    let ghost all = names(23);
    let mut i: usize = 0;
    while i < v.len()
        invariant
            i <= v@.len(),
            all == names(23),
            name_texts(v@) == all,
            all.contains(s@),
            forall|j: int| 0 <= j < i ==> all[j] != s@,
        decreases v@.len() - i,
    {
        assert(all[i as int] == v@[i as int]@);
        if text::same(v[i], s) {
            proof {
                law_names_are_distinct(23);
                let k = place(s@);
                assert(0 <= k < all.len() && all[k] == s@);
            }
            return i;
        }
        i = i + 1;
    }
    proof {
        let k = choose|k: int| 0 <= k < all.len() && all[k] == s@;
        assert(all[k] != s@);
    }
    0
}

/// The parent of each frame of the fixture, by its index.
#[must_use]
pub fn parents() -> (r: Vec<Option<usize>>)
    ensures
        r@ == parents_by(23),
        r@.len() == names(23).len(),
        forall|k: int| 0 <= k < r@.len() ==> (#[trigger] r@[k] matches Some(p) ==> p < r@.len()),
{
    let table = edges();
    let v = frame_names();
    let mut out: Vec<Option<usize>> = Vec::new();
    while out.len() < v.len()
        invariant
            out@.len() <= v@.len(),
            forall|k: int| 0 <= k < out@.len() ==> #[trigger] out@[k] is None,
        decreases v@.len() - out@.len(),
    {
        out.push(None);
    }
    assert(v@.len() == names(23).len()) by {
        assert(name_texts(v@).len() == v@.len());
    }
    assert(out@ =~= parents_by(0));
    let mut i: usize = 0;
    while i < 23
        invariant
            i <= 23,
            table@ == Seq::new(23, |j: int| edge(j)),
            name_texts(v@) == names(23),
            v@.len() == names(23).len(),
            out@ == parents_by(i as nat),
            out@.len() == v@.len(),
            forall|k: int|
                0 <= k < out@.len() ==> (#[trigger] out@[k] matches Some(p) ==> p < out@.len()),
        decreases 23 - i,
    {
        assert(table@[i as int] == edge(i as int));
        proof {
            law_names_are_distinct(23);
            assert(names(23).contains(edge(i as int).parent@));
        }
        let child: usize = find_name(&v, table[i].child);
        let parent: usize = find_name(&v, table[i].parent);
        out.set(child, Some(parent));
        i = i + 1;
    }
    out
}

// ---------------------------------------------------------------------------
// History
// ---------------------------------------------------------------------------

/// One recorded publish.
#[derive(Clone, Copy, Debug)]
pub struct PushSample {
    /// The edge.
    pub edge: u32,
    /// The writer's process.
    pub writer_pid: u32,
    /// The sample's stamp, in nanoseconds.
    pub stamp_ns: i64,
    /// How late it arrived, in nanoseconds: one nominal period.
    pub arrival_delay_ns: i64,
}

/// The period of a rate, in nanoseconds.
pub open spec fn period_of(rate_hz: u64) -> int {
    1_000_000_000int / rate_hz as int
}

/// The `k`th sample of an edge that is published at a rate.
pub open spec fn sample(edge: u32, pid: u32, rate_hz: u64, k: int) -> PushSample {
    PushSample {
        edge,
        writer_pid: pid,
        stamp_ns: (k * period_of(rate_hz)) as i64,
        arrival_delay_ns: period_of(rate_hz) as i64,
    }
}

proof fn lemma_stamps_fit(rate_hz: u64, k: int)
    requires
        0 < rate_hz <= 1_000_000_000,
        0 <= k < HISTORY_SECS * rate_hz,
    ensures
        0 < period_of(rate_hz) <= 1_000_000_000,
        0 <= k * period_of(rate_hz) < 10_000_000_000,
{
    let p = period_of(rate_hz);
    let r = rate_hz as int;
    vstd::arithmetic::div_mod::lemma_fundamental_div_mod(1_000_000_000, r);
    assert(0 < p <= 1_000_000_000) by (nonlinear_arith)
        requires
            1_000_000_000 == r * p + 1_000_000_000int % r,
            0 <= 1_000_000_000int % r < r,
            0 < r <= 1_000_000_000,
    ;
    assert(0 <= k * p < 10_000_000_000) by (nonlinear_arith)
        requires
            1_000_000_000 >= r * p,
            0 < p,
            0 <= k < 10 * r,
    ;
}

/// The history of an edge that is published at a rate: [`HISTORY_SECS`] of it, one sample
/// per period from stamp zero on.
pub fn history(edge: u32, pid: u32, rate_hz: u64) -> (r: Vec<PushSample>)
    requires
        0 < rate_hz <= 1_000_000_000,
    ensures
        r@ == Seq::new((HISTORY_SECS * rate_hz) as nat, |k: int| sample(edge, pid, rate_hz, k)),
{
    let period: u64 = 1_000_000_000 / rate_hz;
    let n: u64 = HISTORY_SECS * rate_hz;
    let mut v: Vec<PushSample> = Vec::new();
    let mut k: u64 = 0;
    while k < n
        invariant
            0 < rate_hz <= 1_000_000_000,
            n == HISTORY_SECS * rate_hz,
            period == period_of(rate_hz),
            k <= n,
            v@ == Seq::new(k as nat, |j: int| sample(edge, pid, rate_hz, j)),
        decreases n - k,
    {
        proof {
            lemma_stamps_fit(rate_hz, k as int);
        }
        let stamp: u64 = k * period;
        v.push(
            PushSample {
                edge,
                writer_pid: pid,
                stamp_ns: stamp as i64,
                arrival_delay_ns: period as i64,
            },
        );
        k = k + 1;
        assert(v@ =~= Seq::new(k as nat, |j: int| sample(edge, pid, rate_hz, j)));
    }
    v
}

/// The query stamps lie inside the history of every published edge.
pub proof fn law_now_is_inside_every_window(i: int)
    requires
        0 <= i < 4,
    ensures
        0 <= QUERY_NS < NOW_NS,
        NOW_NS <= sample(0, 0, DYNAMIC_EDGES@[i].2, HISTORY_SECS * DYNAMIC_EDGES@[i].2 - 1).stamp_ns,
{
    assert(period_of(50) == 20_000_000);
    assert(period_of(200) == 5_000_000);
    assert(period_of(1000) == 1_000_000);
    assert(period_of(10) == 100_000_000);
    assert(i == 0 || i == 1 || i == 2 || i == 3);
}

// ---------------------------------------------------------------------------
// Probe stamps
// ---------------------------------------------------------------------------

/// The `i`th query stamp of a timing probe: an offset from now, and a prime step, keep the
/// sweep off every grid.
pub open spec fn probe_stamp(i: int) -> int {
    NOW_NS - 3_700_000 - i * 9_631
}

/// The `i`th query stamp of a timing probe.
pub fn stamp_ns(i: i64) -> (r: i64)
    requires
        i64::MIN <= i * 9_631 <= i64::MAX,
        probe_stamp(i as int) <= i64::MAX,
    ensures
        r == probe_stamp(i as int),
{
    NOW_NS - 3_700_000 - i * 9_631
}

proof fn lemma_off_the_finest_grid(i: int, k: int)
    requires
        0 <= i < 1024,
    ensures
        probe_stamp(i) != 1_000_000 * k,
{
    if probe_stamp(i) == 1_000_000 * k {
        // 690_271 inverts the step modulo a million.
        let m = 6831128897 - 6_648 * i - 690_271 * k;
        assert(i == 1_000_000 * m + 300_000);
    }
}

/// No query stamp of a probe falls on the grid of a published edge, so every lookup
/// interpolates; and every one lies inside the edges' history.
pub proof fn law_probe_stamps_are_off_grid(i: int)
    requires
        0 <= i < 1024,
    ensures
        probe_stamp(i) % 1_000_000 != 0,
        probe_stamp(i) % 5_000_000 != 0,
        probe_stamp(i) % 20_000_000 != 0,
        probe_stamp(i) % 100_000_000 != 0,
        0 < probe_stamp(i) < NOW_NS,
{
    let t = probe_stamp(i);
    lemma_off_the_finest_grid(i, t / 1_000_000);
    lemma_off_the_finest_grid(i, 5 * (t / 5_000_000));
    lemma_off_the_finest_grid(i, 20 * (t / 20_000_000));
    lemma_off_the_finest_grid(i, 100 * (t / 100_000_000));
}

/// A frame has the parent that the last edge to it names, and none where no edge leads to it.
pub proof fn law_a_frame_is_under_its_parent(n: nat, k: int)
    requires
        n <= 23,
        0 <= k < names(23).len(),
    ensures
        parents_by(n).len() == names(23).len(),
        parents_by(n)[k] is None <==> forall|i: int|
            0 <= i < n ==> place((#[trigger] edge(i)).child@) != k,
        parents_by(n)[k] matches Some(p) ==> exists|i: int|
            0 <= i < n && place((#[trigger] edge(i)).child@) == k && p == place(
                edge(i).parent@,
            ) as usize && forall|j: int| i < j < n ==> place((#[trigger] edge(j)).child@) != k,
    decreases n,
{
    if n > 0 {
        law_a_frame_is_under_its_parent((n - 1) as nat, k);
        law_names_are_distinct(23);
        let e = edge(n - 1);
        assert(names(23).contains(e.child@));
        let at = place(e.child@);
        assert(0 <= at < names(23).len() && names(23)[at] == e.child@);
        if at != k && parents_by(n)[k] is Some {
            let p = parents_by(n)[k]->0;
            assert(parents_by((n - 1) as nat)[k] == Some(p));
            let i = choose|i: int|
                0 <= i < n - 1 && place((#[trigger] edge(i)).child@) == k && p == place(
                    edge(i).parent@,
                ) as usize && forall|j: int|
                    i < j < n - 1 ==> place((#[trigger] edge(j)).child@) != k;
            assert(place(edge(i).child@) == k);
            assert forall|j: int| i < j < n implies place((#[trigger] edge(j)).child@) != k by {}
        }
    }
}

/// A frame is listed exactly where an edge starts or ends at it, and where it was listed it
/// stays.
pub proof fn law_frames_are_those_of_the_edges(n: nat, x: Seq<char>)
    requires
        n <= 23,
    ensures
        names(n).contains(x) <==> exists|i: int|
            0 <= i < n && ((#[trigger] edge(i)).parent@ == x || edge(i).child@ == x),
    decreases n,
{
    if n > 0 {
        let m = (n - 1) as nat;
        law_frames_are_those_of_the_edges(m, x);
        let e = edge(n - 1);
        let v = with_name(names(m), e.parent@);
        lemma_with_name_contains(names(m), e.parent@, x);
        lemma_with_name_contains(v, e.child@, x);
        if names(n).contains(x) && e.parent@ != x && e.child@ != x {
            let i = choose|i: int|
                0 <= i < m && ((#[trigger] edge(i)).parent@ == x || edge(i).child@ == x);
            assert(0 <= i < n);
        }
    }
}

proof fn lemma_with_name_contains(v: Seq<Seq<char>>, s: Seq<char>, x: Seq<char>)
    ensures
        with_name(v, s).contains(x) <==> v.contains(x) || s == x,
{
    if v.contains(x) {
        let j = v.index_of(x);
        assert(v.push(s)[j] == x);
    }
    assert(v.push(s)[v.len() as int] == s);
}

/// A history has ten seconds of samples, one period apart from the start on, each a period late.
pub proof fn law_a_history_is_on_its_grid(edge: u32, pid: u32, rate_hz: u64, k: int)
    requires
        0 < rate_hz <= 1_000_000_000,
        0 <= k < 10 * rate_hz,
    ensures
        HISTORY_SECS == 10,
        ({
            let x = sample(edge, pid, rate_hz, k);
            &&& x.edge == edge
            &&& x.writer_pid == pid
            &&& x.stamp_ns == k * (1_000_000_000int / rate_hz as int)
            &&& x.arrival_delay_ns == 1_000_000_000int / rate_hz as int
        }),
{
    lemma_stamps_fit(rate_hz, k);
}

/// The stamps that are asked go back from the newest in equal steps.
pub proof fn law_probe_stamps_go_back(i: int)
    ensures
        probe_stamp(0) == 9_896_300_000,
        probe_stamp(i) - probe_stamp(i + 1) == 9_631,
{
}

} // verus!
