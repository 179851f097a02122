//! Whether a host can produce a number that means anything.

use vstd::prelude::*;

use super::{Sensitivity, Status};
use crate::mp::QUIET_ENOUGH;
use crate::number::{self, Number, NumberView};
use crate::text::{self, decimal, digits, joined, lemma_texts_push, texts};

verus! {

/// How busy the machine was before a run.
#[derive(Debug, Clone)]
pub struct Load {
    /// The busy fraction of all CPUs.
    pub fraction: Number,
    /// That fraction as a percentage, rounded to a whole number.
    pub percent: String,
}

/// The verdicts on a host. Whether its clock can be trusted and whether it has room
/// for all the consumers are separate: merged, every stated reason would be wrong for
/// half the rows.
#[derive(Debug, Clone)]
pub struct Fitness {
    /// Nothing makes a clock reading untrustworthy.
    pub fair_for_timing: bool,
    /// An interleaved ratio between two engines can be trusted.
    pub fair_for_ratios: bool,
    /// A memory figure can be trusted.
    pub fair_for_memory: bool,
    /// The host has a core for each consumer and one for the publisher.
    pub enough_cores: bool,
    /// Whether the operator overrode a refusal.
    pub forced: bool,
    /// Why a clock reading is untrustworthy, one text per failed check.
    pub reasons: Vec<String>,
    /// Why a ratio is untrustworthy.
    pub ratio_reasons: Vec<String>,
    /// Why a memory figure is untrustworthy.
    pub memory_reasons: Vec<String>,
    /// Why the core budget is short, where it is.
    pub core_reason: Option<String>,
    /// How many consumers the verdict is for.
    pub consumers: usize,
    /// The busy fraction before the run.
    pub busy_fraction: Number,
    /// Physical cores, or the logical count where none are published.
    pub physical_cores: usize,
    /// Whether `physical_cores` was measured.
    pub physical_cores_known: bool,
    /// Logical CPUs.
    pub logical_cpus: usize,
}

pub struct FitnessView {
    pub fair_for_timing: bool,
    pub fair_for_ratios: bool,
    pub fair_for_memory: bool,
    pub enough_cores: bool,
    pub forced: bool,
    pub reasons: Seq<Seq<char>>,
    pub ratio_reasons: Seq<Seq<char>>,
    pub memory_reasons: Seq<Seq<char>>,
    pub core_reason: Option<Seq<char>>,
    pub consumers: usize,
    pub busy_fraction: NumberView,
    pub physical_cores: usize,
    pub physical_cores_known: bool,
    pub logical_cpus: usize,
}

impl View for Fitness {
    type V = FitnessView;

    open spec fn view(&self) -> FitnessView {
        FitnessView {
            fair_for_timing: self.fair_for_timing,
            fair_for_ratios: self.fair_for_ratios,
            fair_for_memory: self.fair_for_memory,
            enough_cores: self.enough_cores,
            forced: self.forced,
            reasons: texts(self.reasons@),
            ratio_reasons: texts(self.ratio_reasons@),
            memory_reasons: texts(self.memory_reasons@),
            core_reason: super::text_of(self.core_reason),
            consumers: self.consumers,
            busy_fraction: self.busy_fraction@,
            physical_cores: self.physical_cores,
            physical_cores_known: self.physical_cores_known,
            logical_cpus: self.logical_cpus,
        }
    }
}

/// What a host is measured to be, for a number of consumers.
pub struct HostView {
    pub consumers: usize,
    pub logical: usize,
    pub physical: Option<usize>,
    pub busy: NumberView,
    pub busy_percent: Seq<char>,
    pub governors: Option<Seq<Seq<char>>>,
    pub debug_build: bool,
    pub pss_readable: bool,
    pub forced: bool,
}

pub open spec fn status_of(fair: bool, forced: bool) -> Status {
    if fair {
        Status::Measured
    } else if forced {
        Status::Indicative
    } else {
        Status::Unavailable
    }
}

/// The reasons on one line, or what to say where there are none.
pub open spec fn line_of(reasons: Seq<Seq<char>>, none: Seq<char>) -> Seq<char> {
    if reasons.len() == 0 {
        none
    } else {
        joined(reasons, "; "@)
    }
}

impl FitnessView {
    pub open spec fn fair(self, sensitivity: Sensitivity) -> bool {
        match sensitivity {
            Sensitivity::HostIndependent => true,
            Sensitivity::AbsoluteTiming => self.fair_for_timing,
            Sensitivity::Ratio => self.fair_for_ratios,
            Sensitivity::Memory => self.fair_for_memory,
        }
    }

    pub open spec fn status(self, sensitivity: Sensitivity) -> Status {
        status_of(self.fair(sensitivity), self.forced)
    }

    pub open spec fn reason_line(self) -> Seq<char> {
        line_of(self.reasons, "host passed every fitness check"@)
    }

    pub open spec fn ratio_reason_line(self) -> Seq<char> {
        line_of(self.ratio_reasons, "host can measure an interleaved ratio"@)
    }

    pub open spec fn memory_reason_line(self) -> Seq<char> {
        line_of(self.memory_reasons, "host can measure resident memory"@)
    }

    /// Why a host is refused on an axis.
    pub open spec fn why(self, sensitivity: Sensitivity) -> Seq<char> {
        match sensitivity {
            Sensitivity::HostIndependent => ""@,
            Sensitivity::AbsoluteTiming => self.reason_line(),
            Sensitivity::Ratio => self.ratio_reason_line(),
            Sensitivity::Memory => self.memory_reason_line(),
        }
    }

    /// What every assessed host satisfies: a verdict is favourable exactly where no
    /// reason stands against it.
    pub open spec fn wf(self) -> bool {
        &&& self.fair_for_timing == (self.reasons.len() == 0)
        &&& self.fair_for_ratios == (self.ratio_reasons.len() == 0)
        &&& self.fair_for_memory == (self.memory_reasons.len() == 0)
        &&& self.enough_cores == (self.core_reason is None)
    }
}

/// How a refusal describes a row of a sensitivity.
pub open spec fn axis_name(sensitivity: Sensitivity) -> Seq<char> {
    match sensitivity {
        Sensitivity::HostIndependent => "host independent"@,
        Sensitivity::AbsoluteTiming => "timing sensitive"@,
        Sensitivity::Ratio => "an interleaved ratio"@,
        Sensitivity::Memory => "a memory figure"@,
    }
}

// ---------------------------------------------------------------------------
// The checks
// ---------------------------------------------------------------------------

pub const PSS_UNREADABLE: &'static str =
    "/proc/self/smaps_rollup is unreadable, so Pss cannot be measured on this host at all";

pub const DEBUG_BUILD: &'static str =
    "built with debug assertions on; this measures the debug build, not the shipped one";

pub const GOVERNOR_UNREADABLE: &'static str =
    "CPU frequency governor is unreadable (no cpufreq sysfs), so frequency scaling cannot be ruled out";

pub open spec fn cores_unknown(logical: usize) -> Seq<char> {
    "the physical core count is unknown on this host: /proc/cpuinfo publishes no `physical id`/`core id` pairs (aarch64 never does, and many container configurations do not), leaving "@
        + digits(logical as nat)
        + " logical CPUs as the only denominator — and that one counts SMT siblings"@
}

pub open spec fn smt_on(logical: usize, physical: usize) -> Seq<char> {
    "SMT is on ("@ + digits(logical as nat) + " logical CPUs over "@ + digits(physical as nat)
        + " physical cores); sibling threads share execution resources, so a per-thread number depends on what the sibling is doing"@
}

pub open spec fn machine_busy(percent: Seq<char>) -> Seq<char> {
    "machine is "@ + percent
        + "% busy before the run starts (threshold 10%); a cross-engine ratio does not divide this out, because only one of the two arms takes a lock"@
}

pub open spec fn governor_wrong(first: Seq<char>) -> Seq<char> {
    "CPU frequency governor is "@ + first
        + " on at least one CPU, not `performance`; frequency scaling moves latency by more than most of the gates"@
}

pub open spec fn budget_unknown(consumers: usize, logical: usize) -> Seq<char> {
    "the physical core count is unknown on this host, so a "@ + digits(consumers as nat)
        + "-consumer budget cannot be checked against anything ("@ + digits(logical as nat)
        + " logical CPUs counts SMT siblings and would answer the wrong question)"@
}

pub open spec fn budget_short(physical: usize, consumers: usize, needed: usize) -> Seq<char> {
    digits(physical as nat) + " physical cores for "@ + digits(consumers as nat)
        + " consumers plus a publisher ("@ + digits(needed as nat)
        + " needed); above the core count the rows measure the scheduler"@
}

/// One text, or none.
pub open spec fn says(b: bool, s: Seq<char>) -> Seq<Seq<char>> {
    if b {
        seq![s]
    } else {
        seq![]
    }
}

pub open spec fn all_performance(g: Seq<Seq<char>>) -> bool {
    forall|i: int| 0 <= i < g.len() ==> #[trigger] g[i] == "performance"@
}

impl HostView {
    pub open spec fn physical_or_logical(self) -> usize {
        match self.physical {
            Some(n) => n,
            None => self.logical,
        }
    }

    /// How many cores all the consumers and the publisher take.
    pub open spec fn needed(self) -> usize {
        if self.consumers == usize::MAX {
            usize::MAX
        } else {
            (self.consumers + 1) as usize
        }
    }

    pub open spec fn too_busy(self) -> bool {
        number::less(QUIET_ENOUGH, self.busy.bits)
    }

    /// What invalidates every claim: a debug build is another program.
    pub open spec fn universal(self) -> Seq<Seq<char>> {
        says(self.debug_build, DEBUG_BUILD@)
    }

    /// What invalidates a duration and a quotient of durations, and no page count.
    pub open spec fn timing_and_ratio(self) -> Seq<Seq<char>> {
        says(self.too_busy(), machine_busy(self.busy_percent))
    }

    /// What invalidates a page count alone.
    pub open spec fn memory_only(self) -> Seq<Seq<char>> {
        says(!self.pss_readable, PSS_UNREADABLE@)
    }

    pub open spec fn governor_reason(self) -> Seq<Seq<char>> {
        match self.governors {
            Some(g) => says(!all_performance(g), governor_wrong(g[0])),
            None => seq![GOVERNOR_UNREADABLE@],
        }
    }

    pub open spec fn reasons(self) -> Seq<Seq<char>> {
        self.universal() + says(self.physical is None, cores_unknown(self.logical)) + says(
            self.logical > self.physical_or_logical(),
            smt_on(self.logical, self.physical_or_logical()),
        ) + self.governor_reason() + self.timing_and_ratio()
    }

    pub open spec fn core_reason(self) -> Option<Seq<char>> {
        match self.physical {
            None => Some(budget_unknown(self.consumers, self.logical)),
            Some(n) => if n < self.needed() {
                Some(budget_short(n, self.consumers, self.needed()))
            } else {
                None
            },
        }
    }

    /// The verdicts on this host.
    pub open spec fn judged(self) -> FitnessView {
        FitnessView {
            fair_for_timing: self.reasons().len() == 0,
            fair_for_ratios: (self.universal() + self.timing_and_ratio()).len() == 0,
            fair_for_memory: (self.universal() + self.memory_only()).len() == 0,
            enough_cores: self.core_reason() is None,
            forced: self.forced,
            reasons: self.reasons(),
            ratio_reasons: self.universal() + self.timing_and_ratio(),
            memory_reasons: self.universal() + self.memory_only(),
            core_reason: self.core_reason(),
            consumers: self.consumers,
            busy_fraction: self.busy,
            physical_cores: self.physical_or_logical(),
            physical_cores_known: self.physical is Some,
            logical_cpus: self.logical,
        }
    }
}

/// The measurements of a host as [`Fitness::assess`] takes them.
pub open spec fn host(
    consumers: usize,
    logical: usize,
    physical: Option<usize>,
    busy: Load,
    governors: Option<Vec<String>>,
    debug_build: bool,
    pss_readable: bool,
    forced: bool,
) -> HostView {
    HostView {
        consumers,
        logical,
        physical,
        busy: busy.fraction@,
        busy_percent: busy.percent@,
        governors: match governors {
            Some(g) => Some(texts(g@)),
            None => None,
        },
        debug_build,
        pss_readable,
        forced,
    }
}

fn one_if(b: bool, s: &str) -> (r: Vec<String>)
    ensures
        texts(r@) == says(b, s@),
{
    broadcast use lemma_texts_push;

    let mut v: Vec<String> = Vec::new();
    assert(texts(v@) =~= seq![]);
    if b {
        v.push(s.to_owned());
        assert(texts(v@) =~= seq![s@]);
    }
    v
}

fn extend_with(to: &mut Vec<String>, more: &Vec<String>)
    ensures
        texts(final(to)@) == texts(old(to)@) + texts(more@),
{
    broadcast use lemma_texts_push;

    let ghost before = texts(to@);
    let mut i: usize = 0;
    assert(before + texts(more@).take(0) =~= before);
    while i < more.len()
        invariant
            i <= more@.len(),
            texts(to@) == before + texts(more@).take(i as int),
        decreases more@.len() - i,
    {
        to.push(more[i].clone());
        i = i + 1;
        assert(before + texts(more@).take(i as int) =~= (before + texts(more@).take(i - 1)).push(
            texts(more@)[i - 1],
        ));
    }
    assert(texts(more@).take(i as int) =~= texts(more@));
}

fn say_cores_unknown(logical: usize) -> (r: String)
    ensures
        r@ == cores_unknown(logical),
{
    let mut s =
        "the physical core count is unknown on this host: /proc/cpuinfo publishes no `physical id`/`core id` pairs (aarch64 never does, and many container configurations do not), leaving ".to_owned();
    s.append(decimal(logical as u64).as_str());
    s.append(" logical CPUs as the only denominator — and that one counts SMT siblings");
    s
}

fn say_smt_on(logical: usize, physical: usize) -> (r: String)
    ensures
        r@ == smt_on(logical, physical),
{
    let mut s = "SMT is on (".to_owned();
    s.append(decimal(logical as u64).as_str());
    s.append(" logical CPUs over ");
    s.append(decimal(physical as u64).as_str());
    s.append(
        " physical cores); sibling threads share execution resources, so a per-thread number depends on what the sibling is doing",
    );
    s
}

fn say_machine_busy(percent: &str) -> (r: String)
    ensures
        r@ == machine_busy(percent@),
{
    let mut s = "machine is ".to_owned();
    s.append(percent);
    s.append(
        "% busy before the run starts (threshold 10%); a cross-engine ratio does not divide this out, because only one of the two arms takes a lock",
    );
    s
}

fn say_governor_wrong(first: &str) -> (r: String)
    ensures
        r@ == governor_wrong(first@),
{
    let mut s = "CPU frequency governor is ".to_owned();
    s.append(first);
    s.append(
        " on at least one CPU, not `performance`; frequency scaling moves latency by more than most of the gates",
    );
    s
}

fn say_budget_unknown(consumers: usize, logical: usize) -> (r: String)
    ensures
        r@ == budget_unknown(consumers, logical),
{
    let mut s = "the physical core count is unknown on this host, so a ".to_owned();
    s.append(decimal(consumers as u64).as_str());
    s.append("-consumer budget cannot be checked against anything (");
    s.append(decimal(logical as u64).as_str());
    s.append(" logical CPUs counts SMT siblings and would answer the wrong question)");
    s
}

fn say_budget_short(physical: usize, consumers: usize, needed: usize) -> (r: String)
    ensures
        r@ == budget_short(physical, consumers, needed),
{
    let mut s = decimal(physical as u64);
    s.append(" physical cores for ");
    s.append(decimal(consumers as u64).as_str());
    s.append(" consumers plus a publisher (");
    s.append(decimal(needed as u64).as_str());
    s.append(" needed); above the core count the rows measure the scheduler");
    s
}

fn governors_reason(g: &Vec<String>) -> (r: Vec<String>)
    ensures
        texts(r@) == says(!all_performance(texts(g@)), governor_wrong(texts(g@)[0])),
{
    let mut i: usize = 0;
    while i < g.len()
        invariant
            i <= g@.len(),
            forall|j: int| 0 <= j < i ==> #[trigger] texts(g@)[j] == "performance"@,
        decreases g@.len() - i,
    {
        if !text::same(g[i].as_str(), "performance") {
            assert(texts(g@)[i as int] != "performance"@);
            assert(texts(g@)[0] == g@[0]@);
            let m = say_governor_wrong(g[0].as_str());
            return one_if(true, m.as_str());
        }
        i = i + 1;
    }
    one_if(false, "")
}

fn governor_reason(governors: &Option<Vec<String>>) -> (r: Vec<String>)
    ensures
        texts(r@) == (match *governors {
            Some(g) => says(!all_performance(texts(g@)), governor_wrong(texts(g@)[0])),
            None => seq![GOVERNOR_UNREADABLE@],
        }),
{
    match governors {
        None => one_if(true, GOVERNOR_UNREADABLE),
        Some(g) => governors_reason(g),
    }
}

impl Fitness {
    /// The judgement over measurements already taken. `detected_physical` is `None`
    /// where the host published no core ids, which is not `Some(logical)`: a silent
    /// fallback would check the budget against sibling threads.
    #[must_use]
    pub fn assess(
        consumers: usize,
        logical: usize,
        detected_physical: Option<usize>,
        busy: Load,
        governors: Option<Vec<String>>,
        debug_build: bool,
        pss_readable: bool,
        forced: bool,
    ) -> (r: Fitness)
        ensures
            r@ == host(
                consumers,
                logical,
                detected_physical,
                busy,
                governors,
                debug_build,
                pss_readable,
                forced,
            ).judged(),
            r@.wf(),
    {
        let ghost h = host(
            consumers,
            logical,
            detected_physical,
            busy,
            governors,
            debug_build,
            pss_readable,
            forced,
        );
        let physical: usize = match detected_physical {
            Some(n) => n,
            None => logical,
        };
        let needed: usize = consumers.saturating_add(1);
        let too_busy = number::lt(QUIET_ENOUGH, busy.fraction.bits);
        let busy_text = say_machine_busy(busy.percent.as_str());
        let universal = one_if(debug_build, DEBUG_BUILD);
        let timing_and_ratio = one_if(too_busy, busy_text.as_str());
        let memory_only = one_if(!pss_readable, PSS_UNREADABLE);

        let mut reasons: Vec<String> = Vec::new();
        assert(texts(reasons@) + texts(universal@) =~= texts(universal@));
        extend_with(&mut reasons, &universal);
        let m = say_cores_unknown(logical);
        extend_with(&mut reasons, &one_if(detected_physical.is_none(), m.as_str()));
        let m = say_smt_on(logical, physical);
        extend_with(&mut reasons, &one_if(logical > physical, m.as_str()));
        extend_with(&mut reasons, &governor_reason(&governors));
        extend_with(&mut reasons, &timing_and_ratio);
        assert(texts(reasons@) == h.reasons());

        let mut ratio_reasons: Vec<String> = Vec::new();
        assert(texts(ratio_reasons@) + texts(universal@) =~= texts(universal@));
        extend_with(&mut ratio_reasons, &universal);
        extend_with(&mut ratio_reasons, &timing_and_ratio);

        let mut memory_reasons: Vec<String> = Vec::new();
        assert(texts(memory_reasons@) + texts(universal@) =~= texts(universal@));
        extend_with(&mut memory_reasons, &universal);
        extend_with(&mut memory_reasons, &memory_only);

        let core_reason: Option<String> = match detected_physical {
            None => Some(say_budget_unknown(consumers, logical)),
            Some(n) => if n < needed {
                Some(say_budget_short(n, consumers, needed))
            } else {
                None
            },
        };
        let enough_cores = core_reason.is_none();
        Fitness {
            fair_for_timing: reasons.len() == 0,
            fair_for_ratios: ratio_reasons.len() == 0,
            fair_for_memory: memory_reasons.len() == 0,
            enough_cores,
            forced,
            reasons,
            ratio_reasons,
            memory_reasons,
            core_reason,
            consumers,
            busy_fraction: busy.fraction,
            physical_cores: physical,
            physical_cores_known: detected_physical.is_some(),
            logical_cpus: logical,
        }
    }

    /// Whether the host is fair for rows of a sensitivity.
    #[must_use]
    pub fn fair(&self, sensitivity: Sensitivity) -> (r: bool)
        ensures
            r == self@.fair(sensitivity),
    {
        match sensitivity {
            Sensitivity::HostIndependent => true,
            Sensitivity::AbsoluteTiming => self.fair_for_timing,
            Sensitivity::Ratio => self.fair_for_ratios,
            Sensitivity::Memory => self.fair_for_memory,
        }
    }

    /// The verdict on an axis: whether it is fair, how a refusal describes such a row,
    /// and why the host failed.
    #[must_use]
    pub fn axis(&self, sensitivity: Sensitivity) -> (r: (bool, &'static str, String))
        ensures
            r.0 == self@.fair(sensitivity),
            r.1@ == axis_name(sensitivity),
            r.2@ == self@.why(sensitivity),
    {
        match sensitivity {
            Sensitivity::HostIndependent => (true, "host independent", "".to_owned()),
            Sensitivity::AbsoluteTiming => (
                self.fair_for_timing,
                "timing sensitive",
                self.reason_line(),
            ),
            Sensitivity::Ratio => (
                self.fair_for_ratios,
                "an interleaved ratio",
                self.ratio_reason_line(),
            ),
            Sensitivity::Memory => (
                self.fair_for_memory,
                "a memory figure",
                self.memory_reason_line(),
            ),
        }
    }

    /// Fair gives measured, else forced gives indicative, else unavailable.
    #[must_use]
    pub fn status_from(fair: bool, forced: bool) -> (r: Status)
        ensures
            r == status_of(fair, forced),
    {
        if fair {
            Status::Measured
        } else if forced {
            Status::Indicative
        } else {
            Status::Unavailable
        }
    }

    /// The status of a single-threaded timing row.
    #[must_use]
    pub fn timing_status(&self) -> (r: Status)
        ensures
            r == self@.status(Sensitivity::AbsoluteTiming),
    {
        Fitness::status_from(self.fair_for_timing, self.forced)
    }

    /// The status of an interleaved ratio row.
    #[must_use]
    pub fn ratio_status(&self) -> (r: Status)
        ensures
            r == self@.status(Sensitivity::Ratio),
    {
        Fitness::status_from(self.fair_for_ratios, self.forced)
    }

    /// The status of a memory row.
    #[must_use]
    pub fn memory_status(&self) -> (r: Status)
        ensures
            r == self@.status(Sensitivity::Memory),
    {
        Fitness::status_from(self.fair_for_memory, self.forced)
    }

    /// The timing reasons, joined for a one-line field.
    #[must_use]
    pub fn reason_line(&self) -> (r: String)
        ensures
            r@ == self@.reason_line(),
    {
        if self.reasons.len() == 0 {
            "host passed every fitness check".to_owned()
        } else {
            text::join(&self.reasons, "; ")
        }
    }

    /// [`Fitness::reason_line`] for a ratio row.
    #[must_use]
    pub fn ratio_reason_line(&self) -> (r: String)
        ensures
            r@ == self@.ratio_reason_line(),
    {
        if self.ratio_reasons.len() == 0 {
            "host can measure an interleaved ratio".to_owned()
        } else {
            text::join(&self.ratio_reasons, "; ")
        }
    }

    /// [`Fitness::reason_line`] for a memory row.
    #[must_use]
    pub fn memory_reason_line(&self) -> (r: String)
        ensures
            r@ == self@.memory_reason_line(),
    {
        if self.memory_reasons.len() == 0 {
            "host can measure resident memory".to_owned()
        } else {
            text::join(&self.memory_reasons, "; ")
        }
    }
}

// ---------------------------------------------------------------------------
// Laws
// ---------------------------------------------------------------------------

/// A host that is fair for timing is fair for ratios: whatever invalidates a ratio
/// invalidates a duration too.
pub proof fn law_fair_timing_is_fair_ratio(h: HostView)
    ensures
        h.judged().fair_for_timing ==> h.judged().fair_for_ratios,
        forall|s: Seq<char>| #[trigger]
            h.judged().ratio_reasons.contains(s) ==> h.judged().reasons.contains(s),
{
    assert forall|s: Seq<char>| #[trigger] h.judged().ratio_reasons.contains(s) implies
        h.judged().reasons.contains(s) by {
        let (u, t) = (h.universal(), h.timing_and_ratio());
        let all = h.reasons();
        let i = choose|i: int| 0 <= i < (u + t).len() && (u + t)[i] == s;
        if i < u.len() {
            assert(all[i] == s);
        } else {
            assert(t.len() == 1);
            assert(all[all.len() - 1] == s);
        }
    }
}

/// A host that publishes no core ids fails both the timing verdict and the core
/// budget, whatever else is true of it.
pub proof fn law_unknown_cores_fail_both(h: HostView)
    requires
        h.physical is None,
    ensures
        !h.judged().fair_for_timing,
        !h.judged().enough_cores,
        h.judged().reasons.contains(cores_unknown(h.logical)),
        !h.judged().physical_cores_known,
{
    let i = h.universal().len() as int;
    assert(h.reasons()[i] == cores_unknown(h.logical));
}

/// A debug build is fair for nothing that depends on the host.
pub proof fn law_debug_build_is_unfair(h: HostView, s: Sensitivity)
    requires
        h.debug_build,
        s != Sensitivity::HostIndependent,
    ensures
        !h.judged().fair(s),
{
    assert(h.reasons()[0] == DEBUG_BUILD@);
}

/// A busy machine is unfair for timing and for ratios, and says nothing about memory.
pub proof fn law_load_reaches_timing_and_ratio_only(h: HostView)
    ensures
        h.too_busy() ==> !h.judged().fair_for_timing && !h.judged().fair_for_ratios,
        h.judged().fair_for_memory == (!h.debug_build && h.pss_readable),
{
}

/// The budget is met exactly where the host publishes a core for every consumer and
/// one for the publisher; no consumer count, however large, meets it by wrapping.
pub proof fn law_core_budget(h: HostView)
    ensures
        h.judged().enough_cores <==> (h.physical matches Some(n) && (n > h.consumers || (n
            == usize::MAX && h.consumers == usize::MAX))),
{
}

/// When a host is fair, and when alone. For a duration: no debug build, as many physical
/// cores known as there are logical CPUs, every governor readable and `performance`, and at
/// most a tenth of the machine busy. For a ratio: no debug build, and not busy. For memory:
/// no debug build, and the page counts can be read. Whether there are cores for all the
/// consumers and a publisher is a question of its own.
pub proof fn law_when_a_host_is_fair(
    consumers: usize,
    logical: usize,
    physical: Option<usize>,
    busy: Load,
    governors: Option<Vec<String>>,
    debug_build: bool,
    pss_readable: bool,
    forced: bool,
)
    ensures
        ({
            let f = host(
                consumers,
                logical,
                physical,
                busy,
                governors,
                debug_build,
                pss_readable,
                forced,
            ).judged();
            let quiet = !number::less(0x3fb9_9999_9999_999a, busy.fraction.bits);
            &&& f.fair_for_timing <==> {
                &&& !debug_build
                &&& physical matches Some(n) && n >= logical
                &&& governors matches Some(g) && forall|i: int|
                    0 <= i < g@.len() ==> (#[trigger] g@[i])@ == "performance"@
                &&& quiet
            }
            &&& f.fair_for_ratios <==> !debug_build && quiet
            &&& f.fair_for_memory <==> !debug_build && pss_readable
            &&& f.enough_cores <==> (physical matches Some(n) && (n >= consumers + 1 || (n
                == usize::MAX && consumers == usize::MAX)))
            &&& f.forced == forced
            &&& f.consumers == consumers
            &&& f.logical_cpus == logical
            &&& f.busy_fraction == busy.fraction@
            &&& f.physical_cores_known <==> physical is Some
            &&& f.physical_cores == (match physical {
                Some(n) => n,
                None => logical,
            })
        }),
{
    if governors is Some {
        let g = governors->0;
        assert(forall|i: int| 0 <= i < g@.len() ==> #[trigger] texts(g@)[i] == g@[i]@);
        if all_performance(texts(g@)) {
            assert forall|i: int| 0 <= i < g@.len() implies (#[trigger] g@[i])@
                == "performance"@ by {
                assert(texts(g@)[i] == g@[i]@);
            }
        } else {
            let i = choose|i: int|
                0 <= i < texts(g@).len() && #[trigger] texts(g@)[i] != "performance"@;
            assert(g@[i]@ != "performance"@);
        }
    }
}

/// One text per failed check: as many reasons stand against a duration as checks failed.
pub proof fn law_each_failed_check_says_why(h: HostView)
    ensures
        h.judged().reasons.len() == (if h.debug_build {
            1int
        } else {
            0
        }) + (if h.physical is None {
            1int
        } else {
            0
        }) + (if h.physical matches Some(n) && h.logical > n {
            1int
        } else {
            0
        }) + (if h.governors is None || exists|i: int|
            0 <= i < (h.governors->0).len() && #[trigger] (h.governors->0)[i] != "performance"@ {
            1int
        } else {
            0
        }) + (if number::less(0x3fb9_9999_9999_999a, h.busy.bits) {
            1int
        } else {
            0
        }),
{
}

/// What a row may print on a host: numbers as a claim where the host is fair for it, numbers
/// that are none where the operator insisted, and else no number.
pub proof fn law_what_a_host_allows(f: FitnessView, s: Sensitivity)
    ensures
        ({
            let fair = match s {
                Sensitivity::HostIndependent => true,
                Sensitivity::AbsoluteTiming => f.fair_for_timing,
                Sensitivity::Ratio => f.fair_for_ratios,
                Sensitivity::Memory => f.fair_for_memory,
            };
            &&& f.status(s) is Measured <==> fair
            &&& f.status(s) is Indicative <==> !fair && f.forced
            &&& f.status(s) is Unavailable <==> !fair && !f.forced
        }),
{
}

/// Each check that fails is told by its own words: a debug build on every axis, a busy machine
/// where a clock or a ratio is read, what cannot be read of memory only there, and the rest only
/// where a clock is read.
pub proof fn law_the_reasons_by_name(h: HostView)
    ensures
        h.debug_build ==> h.judged().reasons.contains(DEBUG_BUILD@)
            && h.judged().ratio_reasons.contains(DEBUG_BUILD@) && h.judged().memory_reasons.contains(
            DEBUG_BUILD@,
        ),
        h.physical is None ==> h.judged().reasons.contains(cores_unknown(h.logical)),
        h.physical matches Some(n) ==> (h.logical > n ==> h.judged().reasons.contains(
            smt_on(h.logical, n),
        )),
        h.governors is None ==> h.judged().reasons.contains(GOVERNOR_UNREADABLE@),
        h.governors matches Some(g) ==> (!all_performance(g) ==> h.judged().reasons.contains(
            governor_wrong(g[0]),
        )),
        number::less(0x3fb9_9999_9999_999a, h.busy.bits) ==> h.judged().reasons.contains(
            machine_busy(h.busy_percent),
        ) && h.judged().ratio_reasons.contains(machine_busy(h.busy_percent)),
        !h.pss_readable ==> h.judged().memory_reasons.contains(PSS_UNREADABLE@),
        h.judged().ratio_reasons.len() == (if h.debug_build {
            1int
        } else {
            0
        }) + (if number::less(0x3fb9_9999_9999_999a, h.busy.bits) {
            1int
        } else {
            0
        }),
        h.judged().memory_reasons.len() == (if h.debug_build {
            1int
        } else {
            0
        }) + (if !h.pss_readable {
            1int
        } else {
            0
        }),
{
    let a = h.universal();
    let b = says(h.physical is None, cores_unknown(h.logical));
    let c = says(
        h.logical > h.physical_or_logical(),
        smt_on(h.logical, h.physical_or_logical()),
    );
    let d = h.governor_reason();
    let e = h.timing_and_ratio();
    let m = h.memory_only();
    assert(forall|x: Seq<char>| #[trigger]
        (a + b + c + d + e).contains(x) <== a.contains(x) || b.contains(x) || c.contains(x)
            || d.contains(x) || e.contains(x)) by {
        assert forall|x: Seq<char>|
            a.contains(x) || b.contains(x) || c.contains(x) || d.contains(x) || e.contains(
                x,
            ) implies #[trigger] (a + b + c + d + e).contains(x) by {
            lemma_in_sum(a, b, x);
            lemma_in_sum(a + b, c, x);
            lemma_in_sum(a + b + c, d, x);
            lemma_in_sum(a + b + c + d, e, x);
        }
    }
    lemma_says(h.debug_build, DEBUG_BUILD@);
    lemma_says(h.physical is None, cores_unknown(h.logical));
    lemma_says(
        h.logical > h.physical_or_logical(),
        smt_on(h.logical, h.physical_or_logical()),
    );
    lemma_says(h.too_busy(), machine_busy(h.busy_percent));
    lemma_says(!h.pss_readable, PSS_UNREADABLE@);
    match h.governors {
        Some(g) => {
            lemma_says(!all_performance(g), governor_wrong(g[0]));
        },
        None => {
            lemma_says(true, GOVERNOR_UNREADABLE@);
        },
    }
    lemma_in_sum(a, e, DEBUG_BUILD@);
    lemma_in_sum(a, m, DEBUG_BUILD@);
    lemma_in_sum(a, e, machine_busy(h.busy_percent));
    lemma_in_sum(a, m, PSS_UNREADABLE@);
}

proof fn lemma_says(b: bool, s: Seq<char>)
    ensures
        b ==> says(b, s).contains(s),
{
    if b {
        assert(says(b, s)[0] == s);
    }
}

/// What is in a part of a list is in the list.
pub proof fn lemma_in_sum(a: Seq<Seq<char>>, b: Seq<Seq<char>>, x: Seq<char>)
    ensures
        a.contains(x) || b.contains(x) ==> (a + b).contains(x),
{
    if a.contains(x) {
        let i = a.index_of(x);
        assert((a + b)[i] == x);
    }
    if b.contains(x) {
        let i = b.index_of(x);
        assert((a + b)[a.len() + i] == x);
    }
}

/// A short core budget is told with the cores, the consumers and how many are needed: one for
/// each, and one for the publisher.
pub proof fn law_a_short_budget_is_told(h: HostView, n: usize)
    requires
        h.physical == Some(n),
        h.consumers < usize::MAX,
    ensures
        n <= h.consumers ==> (h.judged().core_reason matches Some(s) && text::begins(
            s,
            digits(n as nat) + " physical cores for "@ + digits(h.consumers as nat)
                + " consumers plus a publisher ("@ + digits((h.consumers + 1) as nat),
        )),
        n > h.consumers ==> h.judged().core_reason is None,
{
    if n <= h.consumers {
        let s = budget_short(n, h.consumers, h.needed());
        let a = digits(n as nat) + " physical cores for "@ + digits(h.consumers as nat)
            + " consumers plus a publisher ("@ + digits((h.consumers + 1) as nat);
        assert(s.take(a.len() as int) =~= a);
    }
}

/// The reasons are told one after the other, and where there are none that is said.
pub proof fn law_the_line_of_reasons(f: FitnessView)
    ensures
        f.reasons.len() > 0 ==> f.reason_line() == joined(f.reasons, "; "@),
        f.ratio_reasons.len() > 0 ==> f.ratio_reason_line() == joined(f.ratio_reasons, "; "@),
        f.memory_reasons.len() > 0 ==> f.memory_reason_line() == joined(f.memory_reasons, "; "@),
        f.reasons.len() == 0 ==> f.reason_line() == "host passed every fitness check"@,
        f.ratio_reasons.len() == 0 ==> f.ratio_reason_line()
            == "host can measure an interleaved ratio"@,
        f.memory_reasons.len() == 0 ==> f.memory_reason_line()
            == "host can measure resident memory"@,
        f.why(Sensitivity::AbsoluteTiming) == f.reason_line(),
        f.why(Sensitivity::Ratio) == f.ratio_reason_line(),
        f.why(Sensitivity::Memory) == f.memory_reason_line(),
        axis_name(Sensitivity::HostIndependent) == "host independent"@,
        axis_name(Sensitivity::AbsoluteTiming) == "timing sensitive"@,
        axis_name(Sensitivity::Ratio) == "an interleaved ratio"@,
        axis_name(Sensitivity::Memory) == "a memory figure"@,
{
}

} // verus!
