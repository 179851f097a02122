//! A synthetic recording with the shape of a robot description.

use vstd::prelude::*;

use super::{
    by_stamp, dynamic_views, law_by_stamp_is_sorted, lemma_sorted_in_range, sort_by_stamp,
    static_views, Pose, Sample, StreamView, TfStream,
};
use crate::text::{
    begins, decimal, digits, holds, law_digits_read_back, lemma_end_of_a_beginning, texts,
};

verus! {

/// The name of a link of the spine.
pub open spec fn link(d: nat) -> Seq<char> {
    "link_"@ + digits(d)
}

/// The name of a frame that hangs off a link.
pub open spec fn branch(d: nat, b: nat) -> Seq<char> {
    "s_"@ + digits(d) + "_"@ + digits(b)
}

/// What the recording says of where it came from.
pub open spec fn described(depth: nat, branches: nat, samples: nat, rate: Seq<char>) -> Seq<char> {
    "synthetic robot: chain_depth="@ + digits(depth) + " branches="@ + digits(branches)
        + " samples="@ + digits(samples) + " rate="@ + rate + "Hz"@
}

/// The spine: each link is the parent of the next.
pub open spec fn spine(depth: nat) -> Seq<(Seq<char>, Seq<char>)> {
    Seq::new(depth, |d: int| (link(d as nat), link((d + 1) as nat)))
}

/// The frames that hang off the first `links` links, `branches` off each.
pub open spec fn hangers(links: nat, branches: nat, poses: Seq<Pose>) -> Seq<
    (Seq<char>, Seq<char>, Pose),
>
    decreases links,
{
    if links == 0 {
        seq![]
    } else {
        let d = (links - 1) as nat;
        hangers(d, branches, poses) + Seq::new(
            branches,
            |b: int| (link(d), branch(d, b as nat), poses[d * branches + b]),
        )
    }
}

/// The samples of the first `ticks` periods, one of each edge in each.
pub open spec fn ticked(ticks: nat, edges: nat, period_ns: i64, poses: Seq<Pose>) -> Seq<Sample>
    decreases ticks,
{
    if ticks == 0 {
        seq![]
    } else {
        let k = (ticks - 1) as nat;
        ticked(k, edges, period_ns, poses) + Seq::new(
            edges,
            |e: int|
                Sample {
                    edge: e as usize,
                    stamp_ns: (k * period_ns) as i64,
                    pose: poses[k * edges + e],
                },
        )
    }
}

/// The whole recording.
pub open spec fn robot(
    depth: nat,
    branches: nat,
    samples: nat,
    rate: Seq<char>,
    period_ns: i64,
    statics: Seq<Pose>,
    dynamics: Seq<Pose>,
) -> StreamView {
    StreamView {
        statics: hangers(depth + 1, branches, statics),
        dynamics: spine(depth),
        samples: by_stamp(ticked(samples, depth, period_ns, dynamics)),
        provenance: seq![described(depth, branches, samples, rate)],
    }
}

proof fn lemma_links_differ(d: nat, e: nat)
    requires
        link(d) == link(e),
    ensures
        d == e,
{
    let head = "link_"@;
    assert(link(d).skip(head.len() as int) =~= digits(d));
    assert(link(e).skip(head.len() as int) =~= digits(e));
    law_digits_read_back(d);
    law_digits_read_back(e);
}

proof fn lemma_ticked_in_range(ticks: nat, edges: nat, period_ns: i64, poses: Seq<Pose>)
    requires
        edges <= usize::MAX,
    ensures
        forall|i: int|
            0 <= i < ticked(ticks, edges, period_ns, poses).len() ==> (#[trigger] ticked(
                ticks,
                edges,
                period_ns,
                poses,
            )[i]).edge < edges,
    decreases ticks,
{
    if ticks > 0 {
        let all = ticked(ticks, edges, period_ns, poses);
        let before = ticked((ticks - 1) as nat, edges, period_ns, poses);
        lemma_ticked_in_range((ticks - 1) as nat, edges, period_ns, poses);
        assert forall|i: int| 0 <= i < all.len() implies (#[trigger] all[i]).edge < edges by {
            if i < before.len() {
                assert(all[i] == before[i]);
            } else {
                assert(all[i].edge == (i - before.len()) as usize);
            }
        }
    }
}

/// The synthetic recording is well formed.
pub proof fn law_robot_is_wf(
    depth: nat,
    branches: nat,
    samples: nat,
    rate: Seq<char>,
    period_ns: i64,
    statics: Seq<Pose>,
    dynamics: Seq<Pose>,
)
    requires
        depth <= usize::MAX,
    ensures
        robot(depth, branches, samples, rate, period_ns, statics, dynamics).wf(),
{
    lemma_ticked_in_range(samples, depth, period_ns, dynamics);
    lemma_sorted_in_range(ticked(samples, depth, period_ns, dynamics), depth);
    let s = spine(depth);
    assert forall|i: int, j: int| 0 <= i < s.len() && 0 <= j < s.len() && i != j implies s[i]
        != s[j] by {
        if s[i] == s[j] {
            lemma_links_differ(i as nat, j as nat);
        }
    }
}

fn link_name(d: usize) -> (r: String)
    ensures
        r@ == link(d as nat),
{
    let mut s = "link_".to_owned();
    s.append(decimal(d as u64).as_str());
    s
}

fn branch_name(d: usize, b: usize) -> (r: String)
    ensures
        r@ == branch(d as nat, b as nat),
{
    let mut s = "s_".to_owned();
    s.append(decimal(d as u64).as_str());
    s.append("_");
    s.append(decimal(b as u64).as_str());
    s
}

fn describe(depth: usize, branches: usize, samples: usize, rate: &str) -> (r: String)
    ensures
        r@ == described(depth as nat, branches as nat, samples as nat, rate@),
{
    let mut s = "synthetic robot: chain_depth=".to_owned();
    s.append(decimal(depth as u64).as_str());
    s.append(" branches=");
    s.append(decimal(branches as u64).as_str());
    s.append(" samples=");
    s.append(decimal(samples as u64).as_str());
    s.append(" rate=");
    s.append(rate);
    s.append("Hz");
    s
}

proof fn lemma_row_in_range(row: int, rows: int, width: int, i: int)
    requires
        0 <= row < rows,
        0 <= i < width,
    ensures
        0 <= row * width + i < rows * width,
{
    assert(0 <= row * width + i < rows * width) by (nonlinear_arith)
        requires
            0 <= row < rows,
            0 <= i < width,
    ;
}

fn push_hangers(v: &mut Vec<(String, String, Pose)>, d: usize, branches: usize, poses: &Vec<Pose>)
    requires
        (d + 1) * branches <= poses.len(),
    ensures
        static_views(final(v)@) == static_views(old(v)@) + Seq::new(
            branches as nat,
            |b: int|
                (link(d as nat), branch(d as nat, b as nat), poses@[d as nat * branches as nat + b]),
        ),
{
    let ghost before = static_views(v@);
    let ghost row = Seq::new(
        branches as nat,
        |b: int|
            (link(d as nat), branch(d as nat, b as nat), poses@[d as nat * branches as nat + b]),
    );
    let mut b: usize = 0;
    assert(before + row.take(0) =~= before);
    while b < branches
        invariant
            b <= branches,
            (d + 1) * branches <= poses.len(),
            row == Seq::new(
                branches as nat,
                |b: int|
                    (
                        link(d as nat),
                        branch(d as nat, b as nat),
                        poses@[d as nat * branches as nat + b],
                    ),
            ),
            static_views(v@) == before + row.take(b as int),
        decreases branches - b,
    {
        proof {
            lemma_row_in_range(d as int, d + 1, branches as int, b as int);
            lemma_row_in_range(d as int, d + 1, branches as int, 0);
        }
        let ghost now = static_views(v@);
        let pose = poses[d * branches + b];
        v.push((link_name(d), branch_name(d, b), pose));
        assert(static_views(v@) =~= now.push(row[b as int]));
        assert(row.take(b + 1) =~= row.take(b as int).push(row[b as int]));
        b = b + 1;
    }
    assert(row.take(b as int) =~= row);
}

fn push_tick(v: &mut Vec<Sample>, k: usize, edges: usize, stamp_ns: i64, poses: &Vec<Pose>)
    requires
        (k + 1) * edges <= poses.len(),
    ensures
        final(v)@ == old(v)@ + Seq::new(
            edges as nat,
            |e: int|
                Sample { edge: e as usize, stamp_ns, pose: poses@[k as nat * edges as nat + e] },
        ),
{
    let ghost before = v@;
    let ghost row = Seq::new(
        edges as nat,
        |e: int|
            Sample { edge: e as usize, stamp_ns, pose: poses@[k as nat * edges as nat + e] },
    );
    let mut e: usize = 0;
    assert(before + row.take(0) =~= before);
    while e < edges
        invariant
            e <= edges,
            (k + 1) * edges <= poses.len(),
            row == Seq::new(
                edges as nat,
                |e: int|
                    Sample {
                        edge: e as usize,
                        stamp_ns,
                        pose: poses@[k as nat * edges as nat + e],
                    },
            ),
            v@ == before + row.take(e as int),
        decreases edges - e,
    {
        proof {
            lemma_row_in_range(k as int, k + 1, edges as int, e as int);
            lemma_row_in_range(k as int, k + 1, edges as int, 0);
        }
        v.push(Sample { edge: e, stamp_ns, pose: poses[k * edges + e] });
        assert(row.take(e + 1) =~= row.take(e as int).push(row[e as int]));
        e = e + 1;
    }
    assert(row.take(e as int) =~= row);
}

proof fn lemma_row_fits(row: int, rows: int, width: int)
    requires
        0 <= row < rows,
        0 <= width,
    ensures
        (row + 1) * width <= rows * width,
{
    assert((row + 1) * width <= rows * width) by (nonlinear_arith)
        requires
            row + 1 <= rows,
            0 <= width,
    ;
}

/// A recording shaped like a robot: a spine of `chain_depth` moving joints, and
/// `branches_per_link` still frames off each of its links. Only the spine moves, as robots
/// publish: a few joints and a large still skeleton.
///
/// `static_poses` holds the transforms of the still frames, link by link;
/// `dynamic_poses` those of the joints, period by period; `rate` is the rate as it is
/// printed, and `period_ns` one period of it.
#[must_use]
pub fn synth_robot(
    chain_depth: usize,
    branches_per_link: usize,
    samples_per_edge: usize,
    rate: &str,
    period_ns: i64,
    static_poses: &Vec<Pose>,
    dynamic_poses: &Vec<Pose>,
) -> (r: TfStream)
    requires
        chain_depth < usize::MAX,
        static_poses@.len() == (chain_depth + 1) * branches_per_link,
        dynamic_poses@.len() == samples_per_edge * chain_depth,
        forall|k: int|
            0 <= k < samples_per_edge ==> i64::MIN <= #[trigger] (k * period_ns) <= i64::MAX,
        samples_per_edge <= i64::MAX,
    ensures
        r@ == robot(
            chain_depth as nat,
            branches_per_link as nat,
            samples_per_edge as nat,
            rate@,
            period_ns,
            static_poses@,
            dynamic_poses@,
        ),
        r@.wf(),
{
    let mut provenance: Vec<String> = Vec::new();
    provenance.push(describe(chain_depth, branches_per_link, samples_per_edge, rate));
    let mut dynamic_edges: Vec<(String, String)> = Vec::new();
    let mut d: usize = 0;
    while d < chain_depth
        invariant
            d <= chain_depth < usize::MAX,
            dynamic_views(dynamic_edges@) == spine(d as nat),
        decreases chain_depth - d,
    {
        let ghost now = dynamic_views(dynamic_edges@);
        dynamic_edges.push((link_name(d), link_name(d + 1)));
        assert(dynamic_views(dynamic_edges@) =~= now.push((link(d as nat), link((d + 1) as nat))));
        d = d + 1;
        assert(dynamic_views(dynamic_edges@) =~= spine(d as nat));
    }
    let mut static_edges: Vec<(String, String, Pose)> = Vec::new();
    let mut l: usize = 0;
    assert(static_views(static_edges@) =~= seq![]);
    while l <= chain_depth
        invariant
            l <= chain_depth + 1,
            chain_depth < usize::MAX,
            static_poses@.len() == (chain_depth + 1) * branches_per_link,
            static_views(static_edges@) == hangers(
                l as nat,
                branches_per_link as nat,
                static_poses@,
            ),
        decreases chain_depth + 1 - l,
    {
        proof {
            lemma_row_fits(l as int, chain_depth + 1, branches_per_link as int);
        }
        push_hangers(&mut static_edges, l, branches_per_link, static_poses);
        l = l + 1;
    }
    let mut samples: Vec<Sample> = Vec::new();
    let mut k: usize = 0;
    while k < samples_per_edge
        invariant
            k <= samples_per_edge <= i64::MAX,
            dynamic_poses@.len() == samples_per_edge * chain_depth,
            forall|k: int|
                0 <= k < samples_per_edge ==> i64::MIN <= #[trigger] (k * period_ns) <= i64::MAX,
            samples@ == ticked(k as nat, chain_depth as nat, period_ns, dynamic_poses@),
        decreases samples_per_edge - k,
    {
        proof {
            lemma_row_fits(k as int, samples_per_edge as int, chain_depth as int);
        }
        assert(i64::MIN <= (k as int) * period_ns <= i64::MAX);
        let stamp: i64 = k as i64 * period_ns;
        push_tick(&mut samples, k, chain_depth, stamp, dynamic_poses);
        k = k + 1;
        assert(samples@ =~= ticked(k as nat, chain_depth as nat, period_ns, dynamic_poses@));
    }
    let r = TfStream {
        static_edges,
        dynamic_edges,
        samples: sort_by_stamp(&samples),
        provenance,
    };
    proof {
        law_robot_is_wf(
            chain_depth as nat,
            branches_per_link as nat,
            samples_per_edge as nat,
            rate@,
            period_ns,
            static_poses@,
            dynamic_poses@,
        );
    }
    assert(texts(r.provenance@) =~= seq![
        described(
            chain_depth as nat,
            branches_per_link as nat,
            samples_per_edge as nat,
            rate@,
        ),
    ]);
    r
}

/// Every link carries its branches in turn, each with the pose that was drawn for it.
pub proof fn law_where_branches_hang(links: nat, branches: nat, poses: Seq<Pose>, d: int, b: int)
    requires
        0 <= d < links,
        0 <= b < branches,
    ensures
        hangers(links, branches, poses).len() == links * branches,
        0 <= d * branches + b < links * branches,
        hangers(links, branches, poses)[d * branches + b] == (
            "link_"@ + digits(d as nat),
            "s_"@ + digits(d as nat) + "_"@ + digits(b as nat),
            poses[d * branches + b],
        ),
    decreases links,
{
    lemma_hangers_len((links - 1) as nat, branches, poses);
    let k = (links - 1) as nat;
    assert(links * branches == k * branches + branches) by (nonlinear_arith)
        requires
            k == links - 1,
    ;
    assert(d * branches + b < links * branches && 0 <= d * branches + b) by (nonlinear_arith)
        requires
            0 <= d < links,
            0 <= b < branches,
    ;
    if d < k {
        law_where_branches_hang(k, branches, poses, d, b);
    }
}

proof fn lemma_hangers_len(links: nat, branches: nat, poses: Seq<Pose>)
    ensures
        hangers(links, branches, poses).len() == links * branches,
    decreases links,
{
    if links > 0 {
        let k = (links - 1) as nat;
        lemma_hangers_len(k, branches, poses);
        assert(links * branches == k * branches + branches) by (nonlinear_arith)
            requires
                k == links - 1,
        ;
    } else {
        assert(links * branches == 0) by (nonlinear_arith)
            requires
                links == 0,
        ;
    }
}

/// In every tick each edge gets one sample, stamped with the tick and with the pose that was
/// drawn for it.
pub proof fn law_every_tick_moves_every_edge(
    ticks: nat,
    edges: nat,
    period_ns: i64,
    poses: Seq<Pose>,
    k: int,
    e: int,
)
    requires
        0 <= k < ticks,
        0 <= e < edges,
    ensures
        ticked(ticks, edges, period_ns, poses).len() == ticks * edges,
        0 <= k * edges + e < ticks * edges,
        ticked(ticks, edges, period_ns, poses)[k * edges + e] == (Sample {
            edge: e as usize,
            stamp_ns: (k * period_ns) as i64,
            pose: poses[k * edges + e],
        }),
    decreases ticks,
{
    let t = (ticks - 1) as nat;
    lemma_ticked_len(t, edges, period_ns, poses);
    assert(ticks * edges == t * edges + edges) by (nonlinear_arith)
        requires
            t == ticks - 1,
    ;
    assert(k * edges + e < ticks * edges && 0 <= k * edges + e) by (nonlinear_arith)
        requires
            0 <= k < ticks,
            0 <= e < edges,
    ;
    if k < t {
        law_every_tick_moves_every_edge(t, edges, period_ns, poses, k, e);
    }
}

proof fn lemma_ticked_len(ticks: nat, edges: nat, period_ns: i64, poses: Seq<Pose>)
    ensures
        ticked(ticks, edges, period_ns, poses).len() == ticks * edges,
    decreases ticks,
{
    if ticks > 0 {
        let k = (ticks - 1) as nat;
        lemma_ticked_len(k, edges, period_ns, poses);
        assert(ticks * edges == k * edges + edges) by (nonlinear_arith)
            requires
                k == ticks - 1,
        ;
    } else {
        assert(ticks * edges == 0) by (nonlinear_arith)
            requires
                ticks == 0,
        ;
    }
}

/// The moving edges are the chain, each from one link to the next, and the recording says how it
/// was made.
pub proof fn law_a_robot_is_a_chain(
    depth: nat,
    branches: nat,
    samples: nat,
    rate: Seq<char>,
    period_ns: i64,
    statics: Seq<Pose>,
    dynamics: Seq<Pose>,
    d: int,
)
    requires
        0 <= d < depth,
    ensures
        ({
            let r = robot(depth, branches, samples, rate, period_ns, statics, dynamics);
            &&& r.dynamics.len() == depth
            &&& r.dynamics[d] == ("link_"@ + digits(d as nat), "link_"@ + digits((d + 1) as nat))
            &&& r.statics.len() == (depth + 1) * branches
            &&& r.samples.to_multiset() == ticked(
                samples,
                depth,
                period_ns,
                dynamics,
            ).to_multiset()
            &&& r.provenance.len() == 1
            &&& begins(r.provenance[0], "synthetic robot: chain_depth="@ + digits(depth))
            &&& holds(r.provenance[0], " branches="@ + digits(branches))
            &&& holds(r.provenance[0], " samples="@ + digits(samples))
            &&& holds(r.provenance[0], " rate="@ + rate)
        }),
{
    lemma_hangers_len(depth + 1, branches, statics);
    let doc = described(depth, branches, samples, rate);
    let a0 = "synthetic robot: chain_depth="@;
    let a1 = a0 + digits(depth);
    let a2 = a1 + (" branches="@ + digits(branches));
    let a3 = a2 + (" samples="@ + digits(samples));
    let a4 = a3 + (" rate="@ + rate);
    let a5 = a4 + "Hz"@;
    assert(doc =~= a5);
    assert(doc.take(a5.len() as int) =~= a5);
    lemma_end_of_a_beginning(doc, a4, "Hz"@);
    lemma_end_of_a_beginning(doc, a3, (" rate="@ + rate));
    lemma_end_of_a_beginning(doc, a2, (" samples="@ + digits(samples)));
    lemma_end_of_a_beginning(doc, a1, (" branches="@ + digits(branches)));
    lemma_end_of_a_beginning(doc, a0, digits(depth));
    law_by_stamp_is_sorted(ticked(samples, depth, period_ns, dynamics));
}

} // verus!
