//! Where `tf_tree` is worse: four costs, with a number wherever one exists.

use vstd::prelude::*;

use super::{
    metric, metric_views, worse_views, Drift, Metric, MetricView, Worse, WorseView, RESIDENCY_SLACK,
};
use crate::number::{number, Number, NumberView};
use crate::text::{decimal, digits};

verus! {

/// What the measured half of the memory entry says after its percentage.
pub const RESIDENT_AFTER: &'static str =
    " B reserved by the arena actually built). **This row used to say the opposite.** The measurement was added expecting the resident figure to come out far below the reserved one, found the arena ~100% resident instead, and stood on that. Decision 0021 then found the cause — `HeapArena` asked the allocator for 64-byte alignment (`PoseSlot` is one cache line), and Rust's `alloc_zeroed` reaches `calloc` only at alignment <= 16, falling back above it to `posix_memalign` plus an explicit zero-fill that touches every page. The arena is now over-allocated at 16 and aligned to 64 by hand, so `calloc` returns demand-faulted pages the kernel already guarantees to be zero. The reservation is unchanged and this entry stands on the reservation: address space is still a cost tf2 does not pay, a fixed-capacity arena still cannot grow, and a machine under strict overcommit is still constrained. What is gone is the *residency*. `idle_arena_resident_bytes` is a delta of a *whole-process* Pss counter across building one tree, quantised to 4 KiB pages, so it also carries the tree's own non-arena allocations — which is most of what is left. The order of magnitude is the finding; the third digit is not.";

pub const RESIDENT_ABSENT: &'static str =
    "`idle_arena_resident_bytes` is absent: Pss could not be measured on this host (no readable /proc/self/smaps_rollup, or a non-positive delta), so how much of the reservation is actually resident is unmeasured here rather than assumed. `just bench-report` on Linux fills it in.";

pub const FLOOR_OPEN: &'static str =
    "tf_tree arena is fixed-capacity and allocated up front, so an idle tree reserves its full size from the first second. A tf2 BufferCore starts near empty and grows into whatever the stream actually contains, so on a robot that publishes far less than it declared, tf2 reserves less and tf_tree is simply worse. The figure is for ";

pub const NEITHER_HALF: &'static str =
    "half landed on this run: `ArenaLayout::from_totals` did not return a layout for the stated geometry, and the Pss measurement was unavailable or was withheld because this host failed the memory axis of the fitness probe. The reservation arithmetic is host-independent, so this state is a bug or a hostile /proc, not a property of the machine — `just bench-report` on any Linux host that passes `Fitness::probe` fills both in.";

pub const ATTACH: &'static str =
    "a live arena is a rendezvous: open the runtime directory, take the lock file, receive the segment fd over a unix socket, map it, and validate the header. A tf2 consumer constructs a buffer in-process and is ready immediately. The cost is paid once per process, but it is real, and it is a cost tf2 does not have. **Measured on the §11.1 fixture** (`just attach-bench`, 201 attach/lookup cycles, ReadOnly). This entry carried no number at all until it was built, which made it an honesty section that could not regress. **The number improved seven- to eightfold, and that must not be read as the cost going away.** Attach was 99.8 us p50 on the commit before `docs/decisions/0024` landed — 99 791 ns, that record's own before column — almost all of it `populate_hot`; it is now **12.3-14.2 us p50**, which is 7.0x to 8.1x — `8x` is the best run, not the figure — because `0024` moved ring population out of attach and onto the moment an edge is taken up. The cost *moved*: first plan compile went 550 ns to **66.3-92.3 us p50** on this fixture, whose plan walks essentially every edge. Summed, **100.3 us before** — that is 99 791 + 550 ns, `0024`'s paired before column, and *not* the 97.5 us `docs/PHASE2.md` §12.2 used to carry, which was a different sitting on a different commit and never had 100.3 as its sum — against **79.3-106.4 us after**, per run and paired. On the fixture that gains no memory from the change, a wash. **The after ranges are observed extremes over 28 runs on one busy host, load average 4 to 7, rounded outward — what was seen, not a bound**; §12.2 carries the same spread and the reason for it, and the ranges printed here before these were falsified by the next nine runs. What tf2 does not pay is still what tf2 does not pay; it is now itemised at two line items instead of one, and a reader quoting only the first would be quoting a sevenfold improvement that this fixture did not deliver. §7.1's guarantee holds throughout: the **first** lookup after attach is 130 ns p50 before and 130-170 ns p50 after, indistinguishable from a steady-state one, and the fault *count* is zero. Recompiling a plan whose pages are already resident costs ~1.4 us (1.33 us at `0f17fb8`, 1.36-1.44 us across the sixteen runs since), which bounds the topology-change path — a `reparent` invalidates every cached plan, so that figure is the one standing between a reparent and a fault storm across every reader.";

pub const ATTACH_ABSENT: &'static str =
    "figure is `just attach-bench`'s: a separate binary that opens a live shared arena over the §11.1 fixture and times the rendezvous. This report is produced in one process that never attaches — there is nothing here to attach *to* — so the number is stated above with its recipe rather than re-measured and gated here. It is a real measurement in the wrong binary, not a missing one.";

pub const BUMP_OPEN: &'static str =
    "participant shares one arena layout, so a FORMAT_VERSION change (this build: ";

pub const BUMP_CLOSE: &'static str =
    ") is a fleet-wide, all-at-once restart: mixed versions do not attach, by design. `docs/PHASE5.md` §1 bumps v2 to v3 for exactly this reason — to break it once. tf2 has no shared binary layout and no equivalent event. `tf_tree doctor --explain-version` prints what an operator meeting the refusal needs. **This cost is qualitative, and that is a finding rather than an omission** — see below.";

pub const BUMP_ABSENT: &'static str =
    "cost is not denominated in nanoseconds or bytes, and no run of this benchmark on any host would produce it. Its units are *participants* and *coordination*: every process sharing an arena must be rebuilt and restarted together, so the quantity is the size of a fleet and the length of the window in which it can all be down — properties of a deployment, not of a machine. There is no distribution to sample either, because the refusal is deterministic and total: a mismatched participant does not attach at all, so there is no latency, no failure rate and no tail to measure. The one number in reach — how long a single participant takes to restart — would be worse than none, because it is precisely the *together* that costs, and quoting a per-process figure would understate it while looking rigorous. What would genuinely quantify this is operating evidence from a deployment that has lived through a bump (how long the fleet was mixed, what it cost to hold it down), which is the same class of evidence `docs/PROJECT.md` D21 gates PHASE7 on and which this project does not have. Until then the honest artifact is the sentence, plus the version this build refuses to attach across, which is stated above.";

pub const BRIDGE_CLOSE: &'static str =
    " consumers in this comparison read one arena, which somebody has to fill: the ROS 2 ingest bridge is a process that must be started, supervised, restarted and monitored. With tf2 there is no such process — every node subscribes to /tf directly. That is one more thing to page somebody about at 3 a.m., and it is the honest cost of the shared arena. **It has been measured, over a real DDS**, by `just dds-bench` — one run, four consumers, a 15 s window, on this project's unpinned host (`docs/benchmarks/tf2.md`, the `tf_tree.processes` arm): the bridge process burns **0.362 s of CPU in 15 s, about 2.4% of one core**, and it burns it whatever N is. Against it a marginal tf_tree consumer costs 0.0186 s and a marginal tf2 listener 0.445 s over the same window, so the supervision cost pays for itself at **roughly one consumer** — the bridge is cheaper than the single tf2 listener it replaces. Two significant figures is what one run of four processes supports. Memory is the half that stays unattributed: `dds_report` sums Pss across an arm and the bridge is the process in it reporting `consumers 0`, so its footprint is inside the arm total (69.51 MiB over five processes, against tf2's 63.15 over four) and is **not** the 6.36 MiB difference — Pss divides a shared page by the number of processes mapping it, and those two arms map from four and five, so the difference is confounded before any bridge exists. **The curve settles what that one point could not.** Run at N = 8, 12 and 16 as well, the arm totals are 113.80/113.96, 168.39/167.41 and 219.06/226.59 MiB (tf_tree/tf2): the sign flips between 4 and 8, the two stacks are indistinguishable from 8 to 12, and by 16 tf_tree is 3.3% ahead. The mechanism is visible in the per-consumer column — tf_tree's marginal consumer falls 17.38 -> 13.69 MiB across the sweep while tf2's stays flat near 14.2 — which is this entry's cost seen from the other side: **one fixed process, amortised.** It is still not an arena result. The `composed` arms put both stacks in one process and differ by only 0.75-1.04 MiB; everything else in those totals is rclcpp and DDS, paid identically per process by both. What the CPU column shows is the operational shape of this trade: a fixed cost you must supervise, bought against a per-consumer cost you do not.";

pub const BRIDGE_ABSENT: &'static str =
    "number above exists, and it belongs to a different artifact. It takes ROS 2, a real DDS and five processes — `just dds-bench`, inside `docker/tf2` — and `bench_report` runs in one process on the host, where `rclcpp` is not linked and `ros/` is not even in the cargo workspace. That is the same reason the `.tft` rows in the table above are `unavailable` rather than guessed. Carrying the figure here as a `Metric` would be worse than leaving it out: metrics in this file are what `crate::baseline` compares run to run on one host, so a constant transcribed from another host's container run would sit in the ";

pub const BRIDGE_UNMOVED: &'static str =
    "gate looking measured and never move — a row that cannot regress, in the section whose entire purpose is to be the row that can. `dds_report` gates it where it is produced; this entry states it with its recipe.";

/// Frames, edge slots and sample slots of the arena that the memory entry is about.
pub const FRAMES: u32 = 64;

pub const EDGES: u32 = 64;

pub const SLOTS: u32 = 32_768;

/// What an idle arena was measured to hold.
pub struct Idle {
    /// Resident bytes.
    pub resident: Number,
    /// Reserved bytes.
    pub reserved: Number,
    /// Their quotient.
    pub fraction: Number,
    /// Their quotient in percent, with one decimal.
    pub percent: String,
}

pub struct IdleView {
    pub resident: NumberView,
    pub reserved: NumberView,
    pub fraction: NumberView,
    pub percent: Seq<char>,
}

impl View for Idle {
    type V = IdleView;

    open spec fn view(&self) -> IdleView {
        IdleView {
            resident: self.resident@,
            reserved: self.reserved@,
            fraction: self.fraction@,
            percent: self.percent@,
        }
    }
}

/// What is known of the arena.
pub struct Arena {
    /// What the layout reserves, in bytes and in MiB, where the layout can be computed.
    pub floor: Option<(Number, Number)>,
    /// What an idle one holds, where that could be measured.
    pub idle: Option<Idle>,
    /// The format version.
    pub format_version: u64,
}

pub struct ArenaView {
    pub floor: Option<(NumberView, NumberView)>,
    pub idle: Option<IdleView>,
    pub format_version: u64,
}

impl View for Arena {
    type V = ArenaView;

    open spec fn view(&self) -> ArenaView {
        ArenaView {
            floor: match self.floor {
                Some((a, b)) => Some((a@, b@)),
                None => None,
            },
            idle: match self.idle {
                Some(i) => Some(i@),
                None => None,
            },
            format_version: self.format_version,
        }
    }
}

/// How many KiB the building of an arena added to the process, by its proportional set
/// size before and after; nothing where the figure cannot be trusted.
pub fn idle_resident_kib(before: u64, after: u64) -> (r: Option<u64>)
    ensures
        r == (if before == 0 || after <= before {
            None
        } else {
            Some((after - before) as u64)
        }),
{
    if before == 0 || after <= before {
        None
    } else {
        Some(after - before)
    }
}

// ---------------------------------------------------------------------------
// The entries
// ---------------------------------------------------------------------------

pub open spec fn measured_half(idle: Option<IdleView>) -> Seq<char> {
    match idle {
        Some(i) =>
            "`idle_arena_resident_bytes` is the measured Pss an idle arena of that geometry actually costs, and it is now "@
            + i.percent + "% of what the arena reserves ("@ + i.resident.whole
            + " B held against "@ + i.reserved.whole + RESIDENT_AFTER@,
        None => RESIDENT_ABSENT@,
    }
}

pub open spec fn floor_statement(idle: Option<IdleView>) -> Seq<char> {
    "A "@ + FLOOR_OPEN@ + digits(FRAMES as nat) + " frames, "@ + digits(
        EDGES as nat,
    ) + " edge slots and "@ + digits(SLOTS as nat)
        + " sample slots. `idle_arena_bytes` is arithmetic on the layout — what the arena *reserves* — and does not depend on this host. "@
        + measured_half(idle)
}

/// The tolerance of the one gated figure.
pub open spec fn residency_slack() -> NumberView {
    number(RESIDENCY_SLACK, "3"@, "3"@, "3.0"@, "3.000"@, "3.00000"@, "3.0000e0"@)
}

/// The figures that follow from the layout.
pub open spec fn reserved_metrics(floor: Option<(NumberView, NumberView)>) -> Seq<MetricView> {
    match floor {
        Some((bytes, mib)) => seq![
            metric("idle_arena_bytes"@, bytes, "B"@),
            metric("idle_arena_mib"@, mib, "MiB"@),
        ],
        None => seq![],
    }
}

/// The figures that were measured, where the host is fair for them.
pub open spec fn resident_metrics(idle: Option<IdleView>) -> Seq<MetricView> {
    match idle {
        Some(i) => seq![
            metric("idle_arena_resident_bytes"@, i.resident, "B"@).toward(
                Drift::LowerIsBetter,
                residency_slack(),
            ),
            metric("idle_arena_measured_reserved_bytes"@, i.reserved, "B"@),
            metric("idle_arena_resident_fraction"@, i.fraction, "of measured reserved"@),
        ],
        None => seq![],
    }
}

/// What may be published of a measured arena: nothing where the host is not fair for
/// memory figures.
pub open spec fn published(fair: bool, idle: Option<IdleView>) -> Option<IdleView> {
    if fair {
        idle
    } else {
        None
    }
}

pub open spec fn floor_entry(fair: bool, a: ArenaView) -> WorseView {
    let shown = published(fair, a.idle);
    let metrics = reserved_metrics(a.floor) + resident_metrics(shown);
    WorseView {
        id: "arena_memory_floor"@,
        topic: "Arena memory floor"@,
        statement: floor_statement(a.idle),
        metrics,
        metrics_absent_because: if metrics.len() == 0 {
            Some("neither "@ + NEITHER_HALF@)
        } else {
            None
        },
        metrics_withheld: if shown is None {
            seq![
                "idle_arena_resident_bytes"@,
                "idle_arena_measured_reserved_bytes"@,
                "idle_arena_resident_fraction"@,
            ]
        } else {
            seq![]
        },
    }
}

/// An entry without numbers.
pub open spec fn told(
    id: Seq<char>,
    topic: Seq<char>,
    statement: Seq<char>,
    because: Seq<char>,
) -> WorseView {
    WorseView {
        id,
        topic,
        statement,
        metrics: seq![],
        metrics_absent_because: Some(because),
        metrics_withheld: seq![],
    }
}

pub open spec fn bump_statement(version: u64) -> Seq<char> {
    "Every "@ + BUMP_OPEN@ + digits(version as nat) + BUMP_CLOSE@
}

pub open spec fn bridge_statement(consumers: usize) -> Seq<char> {
    "The "@ + digits(consumers as nat) + BRIDGE_CLOSE@
}

/// The four entries.
pub open spec fn entries(consumers: usize, fair: bool, a: ArenaView) -> Seq<WorseView> {
    seq![
        floor_entry(fair, a),
        told("attach_latency"@, "Attach latency"@, "Joining "@ + ATTACH@, "the "@ + ATTACH_ABSENT@),
        told(
            "format_bump_cost"@,
            "Operational cost of a format bump"@,
            bump_statement(a.format_version),
            "this "@ + BUMP_ABSENT@,
        ),
        told(
            "bridge_supervision"@,
            "The bridge is another process to supervise"@,
            bridge_statement(consumers),
            "the "@ + BRIDGE_ABSENT@ + BRIDGE_UNMOVED@,
        ),
    ]
}

fn opened(head: &str, rest: &str) -> (r: String)
    ensures
        r@ == head@ + rest@,
{
    let mut s = head.to_owned();
    s.append(rest);
    s
}

fn measured_text(idle: &Option<Idle>) -> (r: String)
    ensures
        r@ == measured_half(match *idle {
            Some(i) => Some(i@),
            None => None,
        }),
{
    match idle {
        Some(i) => {
            let mut s =
                "`idle_arena_resident_bytes` is the measured Pss an idle arena of that geometry actually costs, and it is now ".to_owned();
            s.append(i.percent.as_str());
            s.append("% of what the arena reserves (");
            s.append(i.resident.whole.as_str());
            s.append(" B held against ");
            s.append(i.reserved.whole.as_str());
            s.append(RESIDENT_AFTER);
            s
        },
        None => RESIDENT_ABSENT.to_owned(),
    }
}

fn floor_text(idle: &Option<Idle>) -> (r: String)
    ensures
        r@ == floor_statement(match *idle {
            Some(i) => Some(i@),
            None => None,
        }),
{
    let mut s = opened("A ", FLOOR_OPEN);
    s.append(decimal(FRAMES as u64).as_str());
    s.append(" frames, ");
    s.append(decimal(EDGES as u64).as_str());
    s.append(" edge slots and ");
    s.append(decimal(SLOTS as u64).as_str());
    s.append(
        " sample slots. `idle_arena_bytes` is arithmetic on the layout — what the arena *reserves* — and does not depend on this host. ",
    );
    s.append(measured_text(idle).as_str());
    s
}

fn told_entry(id: &'static str, topic: &'static str, statement: String, because: String) -> (r:
    Worse)
    ensures
        r@ == told(id@, topic@, statement@, because@),
{
    let r = Worse {
        id,
        topic,
        statement,
        metrics: Vec::new(),
        metrics_absent_because: Some(because),
        metrics_withheld: Vec::new(),
    };
    assert(r@.metrics =~= seq![]);
    assert(r@.metrics_withheld =~= seq![]);
    r
}

fn floor_worse(fair: bool, a: &Arena) -> (r: Worse)
    ensures
        r@ == floor_entry(fair, a@),
{
    let mut metrics: Vec<Metric> = Vec::new();
    match &a.floor {
        Some((bytes, mib)) => {
            metrics.push(Metric::new("idle_arena_bytes", bytes.clone(), "B"));
            metrics.push(Metric::new("idle_arena_mib", mib.clone(), "MiB"));
        },
        None => {},
    }
    assert(metric_views(metrics@) =~= reserved_metrics(a@.floor));
    let ghost reserved = metric_views(metrics@);
    let mut withheld: Vec<&'static str> = Vec::new();
    let mut shown = false;
    if fair {
        match &a.idle {
            Some(i) => {
                shown = true;
                metrics.push(
                    Metric::new(
                        "idle_arena_resident_bytes",
                        i.resident.clone(),
                        "B",
                    ).lower_is_better(
                        Number::new(RESIDENCY_SLACK, "3", "3", "3.0", "3.000", "3.00000", "3.0000e0"),
                    ),
                );
                metrics.push(
                    Metric::new("idle_arena_measured_reserved_bytes", i.reserved.clone(), "B"),
                );
                metrics.push(
                    Metric::new(
                        "idle_arena_resident_fraction",
                        i.fraction.clone(),
                        "of measured reserved",
                    ),
                );
            },
            None => {},
        }
    }
    assert(metric_views(metrics@) =~= reserved + resident_metrics(published(fair, a@.idle)));
    if !shown {
        withheld.push("idle_arena_resident_bytes");
        withheld.push("idle_arena_measured_reserved_bytes");
        withheld.push("idle_arena_resident_fraction");
    }
    let because: Option<String> = if metrics.len() == 0 {
        Some(opened("neither ", NEITHER_HALF))
    } else {
        None
    };
    let r = Worse {
        id: "arena_memory_floor",
        topic: "Arena memory floor",
        statement: floor_text(&a.idle),
        metrics,
        metrics_absent_because: because,
        metrics_withheld: withheld,
    };
    assert(r@.metrics_withheld =~= floor_entry(fair, a@).metrics_withheld);
    r
}

/// The four costs, with a number wherever one exists. A figure that the host is not fair
/// for is withheld, and the entry says so.
pub fn worse_entries(consumers: usize, fair_for_memory: bool, arena: &Arena) -> (r: Vec<Worse>)
    ensures
        worse_views(r@) == entries(consumers, fair_for_memory, arena@),
{
    let mut v: Vec<Worse> = Vec::new();
    v.push(floor_worse(fair_for_memory, arena));
    v.push(
        told_entry(
            "attach_latency",
            "Attach latency",
            opened("Joining ", ATTACH),
            opened("the ", ATTACH_ABSENT),
        ),
    );
    let mut bump = opened("Every ", BUMP_OPEN);
    bump.append(decimal(arena.format_version).as_str());
    bump.append(BUMP_CLOSE);
    v.push(
        told_entry(
            "format_bump_cost",
            "Operational cost of a format bump",
            bump,
            opened("this ", BUMP_ABSENT),
        ),
    );
    let mut bridge = "The ".to_owned();
    bridge.append(decimal(consumers as u64).as_str());
    bridge.append(BRIDGE_CLOSE);
    let mut absent = opened("the ", BRIDGE_ABSENT);
    absent.append(BRIDGE_UNMOVED);
    v.push(
        told_entry(
            "bridge_supervision",
            "The bridge is another process to supervise",
            bridge,
            absent,
        ),
    );
    assert(worse_views(v@) =~= entries(consumers, fair_for_memory, arena@));
    v
}

} // verus!
