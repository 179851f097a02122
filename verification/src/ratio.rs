//! The depth-3 lookup ratio against `tf2::BufferCore`, measured in pairs: a quotient of
//! two engines timed inside one round, where what moves both arms divides out.

use vstd::prelude::*;

use crate::number::{self, at_most, finite, less, Number, NumberView};
use crate::text::{begins, decimal, digits, holds, lemma_end_of_a_beginning};

verus! {

/// The floor that the row gates: 2.0, as a bit pattern.
pub const FLOOR: u64 = 0x4000_0000_0000_0000;

/// The ratio without a binding on either arm, in this workspace's build: 2.25, as a bit
/// pattern.
pub const UNBIASED_ESTIMATE: u64 = 0x4002_0000_0000_0000;

/// The same at the default release settings, which a consumer compiles: 1.80, as a bit
/// pattern. No gate reads it.
pub const UNBIASED_ESTIMATE_DEFAULT_RELEASE: u64 = 0x3ffc_cccc_cccc_cccd;

/// Rounds of the interleaved pair. Odd, so the median is an observation.
pub const ROUNDS: usize = 9;

/// Sweeps of the stamp table per arm per round.
pub const SWEEPS: usize = 40;

/// Stamps swept.
pub const STAMPS: usize = 256;

/// Lookups per arm before any round is timed.
pub const WARMUP: usize = 20_000;

/// The pair of frames that is measured.
pub const TARGET: &'static str = "imu_link";

pub const SOURCE: &'static str = "map";

/// The floor sits under the unbiased estimate of this workspace's build, so that the
/// binding's bias alone cannot pass the row; it is above that of a consumer's build.
pub proof fn law_floor_is_scoped_to_this_build()
    ensures
        less(FLOOR, UNBIASED_ESTIMATE),
        less(UNBIASED_ESTIMATE_DEFAULT_RELEASE, FLOOR),
{
}

/// Where the observed band sits relative to the floor.
#[derive(Debug, Clone, Copy, PartialEq, Eq, Structural)]
pub enum Verdict {
    /// The whole band is at or above the floor.
    Above,
    /// The whole band is below it.
    Below,
    /// The band straddles the floor.
    Unresolved,
}

impl Verdict {
    pub open spec fn name(self) -> Seq<char> {
        match self {
            Verdict::Above => "above"@,
            Verdict::Below => "below"@,
            Verdict::Unresolved => "unresolved"@,
        }
    }

    pub open spec fn shout(self) -> Seq<char> {
        match self {
            Verdict::Above => "ABOVE"@,
            Verdict::Below => "BELOW"@,
            Verdict::Unresolved => "UNRESOLVED against"@,
        }
    }

    /// Stable spelling for the report.
    #[must_use]
    pub fn as_str(self) -> (r: &'static str)
        ensures
            r@ == self.name(),
    {
        match self {
            Verdict::Above => "above",
            Verdict::Below => "below",
            Verdict::Unresolved => "unresolved",
        }
    }
}

/// One interleaved run: both arms, one process.
#[derive(Debug, Clone)]
pub struct Run {
    /// Median per-round quotient, `tf2` over `tf_tree`.
    pub ratio: Number,
    /// Smallest per-round quotient.
    pub ratio_lo: Number,
    /// Largest per-round quotient.
    pub ratio_hi: Number,
    /// Median `tf_tree` nanoseconds per lookup. Reported, never gated.
    pub tf_tree_ns: Number,
    /// Median `tf2` nanoseconds per lookup.
    pub tf2_ns: Number,
    /// Rounds timed.
    pub rounds: usize,
    /// Lookups per arm per round.
    pub lookups_per_round: u64,
    /// Queries on which the two engines agreed before timing.
    pub agreed: usize,
}

pub struct RunView {
    pub ratio: NumberView,
    pub ratio_lo: NumberView,
    pub ratio_hi: NumberView,
    pub tf_tree_ns: NumberView,
    pub tf2_ns: NumberView,
    pub rounds: usize,
    pub lookups_per_round: u64,
    pub agreed: usize,
}

impl View for Run {
    type V = RunView;

    open spec fn view(&self) -> RunView {
        RunView {
            ratio: self.ratio@,
            ratio_lo: self.ratio_lo@,
            ratio_hi: self.ratio_hi@,
            tf_tree_ns: self.tf_tree_ns@,
            tf2_ns: self.tf2_ns@,
            rounds: self.rounds,
            lookups_per_round: self.lookups_per_round,
            agreed: self.agreed,
        }
    }
}

/// The verdict on an observed band.
pub open spec fn verdict_of(lo: u64, hi: u64) -> Verdict {
    if at_most(FLOOR, lo) {
        Verdict::Above
    } else if less(hi, FLOOR) {
        Verdict::Below
    } else {
        Verdict::Unresolved
    }
}

/// The verdict holds of every ratio in the band, and there is none where the band
/// straddles the floor.
pub proof fn law_verdict_reads_the_whole_band(lo: u64, hi: u64, x: u64)
    requires
        finite(lo),
        finite(hi),
        finite(x),
        at_most(lo, x),
        at_most(x, hi),
    ensures
        verdict_of(lo, hi) == Verdict::Above ==> at_most(FLOOR, x),
        verdict_of(lo, hi) == Verdict::Below ==> less(x, FLOOR),
        verdict_of(lo, hi) == Verdict::Unresolved <==> less(lo, FLOOR) && at_most(FLOOR, hi),
{
}

/// The verdict and the band that it rests on. `spread` is the width of the band, in
/// percent of its low end.
pub open spec fn verdict_text(r: RunView, spread: Seq<char>) -> Seq<char> {
    verdict_of(r.ratio_lo.bits, r.ratio_hi.bits).shout() + " the 2.0x floor: median "@
        + r.ratio.thousandths + "x over "@ + digits(r.rounds as nat) + " rounds, band "@
        + r.ratio_lo.thousandths + "-"@ + r.ratio_hi.thousandths + "x ("@ + spread
        + "% wide); tf_tree "@ + r.tf_tree_ns.tenths + " ns against tf2 "@ + r.tf2_ns.tenths
        + " ns, "@ + digits(r.agreed as nat) + " queries agreed first"@
}

impl Run {
    /// The floor against the observed band, not against a point.
    #[must_use]
    pub fn verdict(&self) -> (r: Verdict)
        ensures
            r == verdict_of(self.ratio_lo.bits, self.ratio_hi.bits),
    {
        if number::le(FLOOR, self.ratio_lo.bits) {
            Verdict::Above
        } else if number::lt(self.ratio_hi.bits, FLOOR) {
            Verdict::Below
        } else {
            Verdict::Unresolved
        }
    }

    /// One line that states the verdict and the band that it rests on. `spread_percent` is
    /// the width of the band in percent of its low end, with one decimal.
    #[must_use]
    pub fn verdict_line(&self, spread_percent: &str) -> (r: String)
        ensures
            r@ == verdict_text(self@, spread_percent@),
    {
        let mut s = match self.verdict() {
            Verdict::Above => "ABOVE".to_owned(),
            Verdict::Below => "BELOW".to_owned(),
            Verdict::Unresolved => "UNRESOLVED against".to_owned(),
        };
        s.append(" the 2.0x floor: median ");
        s.append(self.ratio.thousandths.as_str());
        s.append("x over ");
        s.append(decimal(self.rounds as u64).as_str());
        s.append(" rounds, band ");
        s.append(self.ratio_lo.thousandths.as_str());
        s.append("-");
        s.append(self.ratio_hi.thousandths.as_str());
        s.append("x (");
        s.append(spread_percent);
        s.append("% wide); tf_tree ");
        s.append(self.tf_tree_ns.tenths.as_str());
        s.append(" ns against tf2 ");
        s.append(self.tf2_ns.tenths.as_str());
        s.append(" ns, ");
        s.append(decimal(self.agreed as u64).as_str());
        s.append(" queries agreed first");
        s
    }
}

/// How often both arms sweep the table to warm up: enough calls that each arm makes at
/// least `warmup` lookups.
pub fn warmup_calls(warmup: usize, sweeps: usize, stamps: usize) -> (r: usize)
    requires
        sweeps * stamps <= usize::MAX,
    ensures
        r == (if warmup == 0 {
            0
        } else {
            (warmup - 1) / (if sweeps * stamps == 0 {
                1
            } else {
                sweeps * stamps
            }) + 1
        }),
        sweeps * stamps > 0 ==> r * (sweeps * stamps) >= warmup,
{
    let product: usize = sweeps * stamps;
    let per_call: usize = if product == 0 {
        1
    } else {
        product
    };
    if warmup == 0 {
        return 0;
    }
    let q: usize = (warmup - 1) / per_call;
    proof {
        vstd::arithmetic::div_mod::lemma_fundamental_div_mod(warmup - 1, per_call as int);
        assert((q + 1) * per_call >= warmup) by (nonlinear_arith)
            requires
                warmup - 1 == per_call * q + (warmup - 1) % (per_call as int),
                (warmup - 1) % (per_call as int) < per_call,
        ;
        assert(q < usize::MAX) by (nonlinear_arith)
            requires
                warmup - 1 == per_call * q + (warmup - 1) % (per_call as int),
                (warmup - 1) % (per_call as int) >= 0,
                per_call >= 1,
                warmup <= usize::MAX,
        ;
    }
    q + 1
}

/// The verdict on a band of quotients: above where its lowest is 2 or more, below where its
/// highest is less than 2, and none where it has both sides.
pub proof fn law_the_floor_is_two(lo: u64, hi: u64)
    ensures
        verdict_of(lo, hi) == Verdict::Above <==> at_most(0x4000_0000_0000_0000, lo),
        verdict_of(lo, hi) == Verdict::Below <==> less(hi, 0x4000_0000_0000_0000) && !at_most(
            0x4000_0000_0000_0000,
            lo,
        ),
{
}

/// The verdict as prose: which it is, the median, the band from its smallest to its largest, and
/// what each engine took.
pub proof fn law_a_verdict_is_told_by_name(r: RunView, spread: Seq<char>)
    ensures
        ({
            let said = verdict_text(r, spread);
            let v = verdict_of(r.ratio_lo.bits, r.ratio_hi.bits);
            &&& v is Above ==> begins(said, "ABOVE"@)
            &&& v is Below ==> begins(said, "BELOW"@)
            &&& v is Unresolved ==> begins(said, "UNRESOLVED against"@)
            &&& holds(said, " the 2.0x floor: median "@ + r.ratio.thousandths)
            &&& holds(said, "x over "@ + digits(r.rounds as nat))
            &&& holds(
                said,
                " rounds, band "@ + r.ratio_lo.thousandths + "-"@ + r.ratio_hi.thousandths,
            )
            &&& holds(said, "x ("@ + spread)
            &&& holds(said, "% wide); tf_tree "@ + r.tf_tree_ns.tenths)
            &&& holds(said, " ns against tf2 "@ + r.tf2_ns.tenths)
            &&& holds(said, " ns, "@ + digits(r.agreed as nat))
        }),
        Verdict::Above.name() == "above"@,
        Verdict::Below.name() == "below"@,
        Verdict::Unresolved.name() == "unresolved"@,
{
    let doc = verdict_text(r, spread);
    let a0 = verdict_of(r.ratio_lo.bits, r.ratio_hi.bits).shout();
    let a1 = a0 + (" the 2.0x floor: median "@ + r.ratio.thousandths);
    let a2 = a1 + ("x over "@ + digits(r.rounds as nat));
    let a3 = a2 + (" rounds, band "@ + r.ratio_lo.thousandths + "-"@ + r.ratio_hi.thousandths);
    let a4 = a3 + ("x ("@ + spread);
    let a5 = a4 + ("% wide); tf_tree "@ + r.tf_tree_ns.tenths);
    let a6 = a5 + (" ns against tf2 "@ + r.tf2_ns.tenths);
    let a7 = a6 + (" ns, "@ + digits(r.agreed as nat));
    let a8 = a7 + " queries agreed first"@;
    assert(doc =~= a8);
    assert(doc.take(a8.len() as int) =~= a8);
    lemma_end_of_a_beginning(doc, a7, " queries agreed first"@);
    lemma_end_of_a_beginning(doc, a6, (" ns, "@ + digits(r.agreed as nat)));
    lemma_end_of_a_beginning(doc, a5, (" ns against tf2 "@ + r.tf2_ns.tenths));
    lemma_end_of_a_beginning(doc, a4, ("% wide); tf_tree "@ + r.tf_tree_ns.tenths));
    lemma_end_of_a_beginning(doc, a3, ("x ("@ + spread));
    lemma_end_of_a_beginning(doc, a2, (" rounds, band "@ + r.ratio_lo.thousandths + "-"@ + r.ratio_hi.thousandths));
    lemma_end_of_a_beginning(doc, a1, ("x over "@ + digits(r.rounds as nat)));
    lemma_end_of_a_beginning(doc, a0, (" the 2.0x floor: median "@ + r.ratio.thousandths));
}

} // verus!
