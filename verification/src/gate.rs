//! One spelling for a gate's outcome, and one exit code per meaning: that a host cannot
//! evaluate a criterion must not look like a regression.

use vstd::prelude::*;

use crate::report::{Fitness, FitnessView, Ground, Sensitivity};

verus! {

/// The comparison was made and the criterion holds.
pub const EXIT_PASS: i32 = 0;

/// The comparison was made and the criterion does not hold.
pub const EXIT_FAIL: i32 = 1;

/// The comparison was not made.
pub const EXIT_REFUSED: i32 = 2;

/// What a gate concluded.
#[derive(Debug, Clone)]
pub enum Outcome {
    /// Evaluated; the criterion holds.
    Pass(String),
    /// Evaluated; the criterion does not hold.
    Fail(String),
    /// Not evaluated.
    Refused {
        /// The claim that the refusal rests on.
        ground: Ground,
        /// The probe's own words for why.
        why: String,
    },
}

pub enum OutcomeView {
    Pass(Seq<char>),
    Fail(Seq<char>),
    Refused { ground: Ground, why: Seq<char> },
}

impl View for Outcome {
    type V = OutcomeView;

    open spec fn view(&self) -> OutcomeView {
        match self {
            Outcome::Pass(why) => OutcomeView::Pass(why@),
            Outcome::Fail(why) => OutcomeView::Fail(why@),
            Outcome::Refused { ground, why } => OutcomeView::Refused { ground: *ground, why: why@ },
        }
    }
}

/// The name of a ground's variant.
pub open spec fn variant(g: Ground) -> Seq<char> {
    match g {
        Ground::HostFitness => "HostFitness"@,
        Ground::HostCores => "HostCores"@,
        Ground::Tf2NotLinked => "Tf2NotLinked"@,
        Ground::FrozenBackendNotCompiled => "FrozenBackendNotCompiled"@,
        Ground::MeasuredElsewhere => "MeasuredElsewhere"@,
        Ground::NoInstrument => "NoInstrument"@,
        Ground::MeasurementRefused => "MeasurementRefused"@,
    }
}

fn variant_name(g: Ground) -> (r: &'static str)
    ensures
        r@ == variant(g),
{
    match g {
        Ground::HostFitness => "HostFitness",
        Ground::HostCores => "HostCores",
        Ground::Tf2NotLinked => "Tf2NotLinked",
        Ground::FrozenBackendNotCompiled => "FrozenBackendNotCompiled",
        Ground::MeasuredElsewhere => "MeasuredElsewhere",
        Ground::NoInstrument => "NoInstrument",
        Ground::MeasurementRefused => "MeasurementRefused",
    }
}

impl OutcomeView {
    pub open spec fn code(self) -> i32 {
        match self {
            OutcomeView::Pass(_) => EXIT_PASS,
            OutcomeView::Fail(_) => EXIT_FAIL,
            OutcomeView::Refused { .. } => EXIT_REFUSED,
        }
    }

    pub open spec fn text(self) -> Seq<char> {
        match self {
            OutcomeView::Pass(why) => "PASS — "@ + why,
            OutcomeView::Fail(why) => "FAIL — "@ + why,
            OutcomeView::Refused { ground, why } => "REFUSED ("@ + variant(ground) + ") — "@ + why,
        }
    }
}

/// The refusal of a host on an axis, where it is not fair.
pub open spec fn host_refusal(f: FitnessView, s: Sensitivity) -> Option<OutcomeView> {
    if f.fair(s) {
        None
    } else {
        Some(OutcomeView::Refused { ground: Ground::HostFitness, why: f.why(s) })
    }
}

/// The refusal of a host that is short of cores.
pub open spec fn core_refusal(f: FitnessView) -> Option<OutcomeView> {
    match f.core_reason {
        Some(why) => Some(OutcomeView::Refused { ground: Ground::HostCores, why }),
        None => None,
    }
}

pub open spec fn outcome_view(o: Option<Outcome>) -> Option<OutcomeView> {
    match o {
        Some(x) => Some(x@),
        None => None,
    }
}

impl Outcome {
    /// The refusal of a host that cannot give a trustworthy number on the criterion's
    /// axis, or `None` where it can.
    #[must_use]
    pub fn refused_on_host(fitness: &Fitness, sensitivity: Sensitivity) -> (r: Option<Outcome>)
        ensures
            outcome_view(r) == host_refusal(fitness@, sensitivity),
    {
        let (fit, _axis, why) = fitness.axis(sensitivity);
        if fit {
            return None;
        }
        Some(Outcome::Refused { ground: Ground::HostFitness, why })
    }

    /// The refusal of a host that is short of cores, in the probe's own words, or `None`.
    #[must_use]
    pub fn refused_on_cores(fitness: &Fitness) -> (r: Option<Outcome>)
        ensures
            outcome_view(r) == core_refusal(fitness@),
    {
        match &fitness.core_reason {
            Some(why) => Some(Outcome::Refused { ground: Ground::HostCores, why: why.clone() }),
            None => None,
        }
    }

    /// The exit code that this outcome leaves the process with.
    #[must_use]
    pub fn code(&self) -> (r: i32)
        ensures
            r == self@.code(),
    {
        match self {
            Outcome::Pass(_) => EXIT_PASS,
            Outcome::Fail(_) => EXIT_FAIL,
            Outcome::Refused { .. } => EXIT_REFUSED,
        }
    }

    /// The verdict as one line.
    #[must_use]
    pub fn line(&self) -> (r: String)
        ensures
            r@ == self@.text(),
    {
        match self {
            Outcome::Pass(why) => {
                let mut s = "PASS — ".to_owned();
                s.append(why.as_str());
                s
            },
            Outcome::Fail(why) => {
                let mut s = "FAIL — ".to_owned();
                s.append(why.as_str());
                s
            },
            Outcome::Refused { ground, why } => {
                let mut s = "REFUSED (".to_owned();
                s.append(variant_name(*ground));
                s.append(") — ");
                s.append(why.as_str());
                s
            },
        }
    }
}

/// The three meanings have three codes: two outcomes share a code exactly where they
/// mean the same.
pub proof fn law_codes_are_distinct(a: OutcomeView, b: OutcomeView)
    ensures
        a.code() == b.code() <==> ((a is Pass && b is Pass) || (a is Fail && b is Fail) || (
        a is Refused && b is Refused)),
{
}

/// A criterion that does not depend on the host is never refused for unfitness.
pub proof fn law_host_independent_is_never_refused(f: FitnessView)
    ensures
        host_refusal(f, Sensitivity::HostIndependent) is None,
{
}

/// A refusal of an assessed host states a reason of the probe's: it is never blank prose.
pub proof fn law_refusal_quotes_the_probe(f: FitnessView, s: Sensitivity)
    requires
        f.wf(),
        host_refusal(f, s) is Some,
    ensures
        s == Sensitivity::AbsoluteTiming ==> f.reasons.len() > 0 && host_refusal(f, s)->0->why
            == crate::text::joined(f.reasons, "; "@),
        s == Sensitivity::Ratio ==> f.ratio_reasons.len() > 0 && host_refusal(f, s)->0->why
            == crate::text::joined(f.ratio_reasons, "; "@),
        s == Sensitivity::Memory ==> f.memory_reasons.len() > 0 && host_refusal(f, s)->0->why
            == crate::text::joined(f.memory_reasons, "; "@),
{
}

/// A host refuses a criterion exactly where it is not fair for what the criterion measures,
/// and for want of cores exactly where the core budget is short, in the probe's words.
pub proof fn law_when_a_criterion_is_refused(f: FitnessView, s: Sensitivity)
    ensures
        host_refusal(f, s) is Some <==> match s {
            Sensitivity::HostIndependent => false,
            Sensitivity::AbsoluteTiming => !f.fair_for_timing,
            Sensitivity::Ratio => !f.fair_for_ratios,
            Sensitivity::Memory => !f.fair_for_memory,
        },
        host_refusal(f, s) matches Some(o) ==> (o matches OutcomeView::Refused { ground, why }
            && ground == Ground::HostFitness),
        core_refusal(f) is Some <==> f.core_reason is Some,
        core_refusal(f) matches Some(o) ==> (o matches OutcomeView::Refused { ground, why }
            && ground == Ground::HostCores && Some(why) == f.core_reason),
{
}

/// A pass exits with 0, a failure with 1, and what was not evaluated with 2: a refusal is
/// never read as either.
pub proof fn law_exit_codes(o: OutcomeView)
    ensures
        o.code() == 0 <==> o is Pass,
        o.code() == 1 <==> o is Fail,
        o.code() == 2 <==> o is Refused,
{
}

/// What is printed of an outcome opens with which of the three it is and ends with why.
pub proof fn law_an_outcome_says_which_it_is(o: OutcomeView)
    ensures
        ({
            let why = match o {
                OutcomeView::Pass(w) => w,
                OutcomeView::Fail(w) => w,
                OutcomeView::Refused { ground, why } => why,
            };
            &&& crate::text::begins(o.text(), "PASS"@) <==> o is Pass
            &&& crate::text::begins(o.text(), "FAIL"@) <==> o is Fail
            &&& crate::text::begins(o.text(), "REFUSED"@) <==> o is Refused
            &&& o.text().len() >= why.len() && o.text().skip(o.text().len() - why.len()) == why
        }),
{
    reveal_strlit("PASS");
    reveal_strlit("FAIL");
    reveal_strlit("REFUSED");
    reveal_strlit("PASS — ");
    reveal_strlit("FAIL — ");
    reveal_strlit("REFUSED (");
    reveal_strlit(") — ");
    let t = o.text();
    match o {
        OutcomeView::Pass(w) => {
            assert(t.take(4) =~= "PASS"@);
            assert(t.take(4)[0] == 'P');
            assert(t.len() >= 7 ==> t.take(7)[0] == 'P');
            assert(t.skip(t.len() - w.len()) =~= w);
        },
        OutcomeView::Fail(w) => {
            assert(t.take(4) =~= "FAIL"@);
            assert(t.take(4)[0] == 'F');
            assert(t.len() >= 7 ==> t.take(7)[0] == 'F');
            assert(t.skip(t.len() - w.len()) =~= w);
        },
        OutcomeView::Refused { ground, why } => {
            assert(t.take(7) =~= "REFUSED"@);
            assert(t.take(4)[0] == 'R');
            assert(t.skip(t.len() - why.len()) =~= why);
        },
    }
}

} // verus!
