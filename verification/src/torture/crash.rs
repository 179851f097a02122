//! Crash points: which children are armed, which of them fired, and whether the host's
//! own crash helper gets in the way.

use vstd::prelude::*;

use super::DIAG;
use crate::order::{add_name, ascending, with_name};
use crate::rng::{shifted, Xorshift64};
use crate::text::{
    self, begins, decimal, digits, holds, joined, lemma_texts_push, lines, texts, until, words,
};

verus! {

// ---------------------------------------------------------------------------
// Sites
// ---------------------------------------------------------------------------

/// The site of an armed point: what stands before the colon, or all of it.
pub open spec fn site(spec: Seq<char>) -> Seq<char> {
    let n = until(spec, ':') as int;
    if n < spec.len() {
        spec.take(n)
    } else {
        spec
    }
}

/// The site of an armed point, without the hit at which it fires.
pub fn site_of(spec: &str) -> (r: String)
    ensures
        r@ == site(spec@),
{
    let cs = text::chars(spec);
    assert(cs@.skip(0) =~= cs@);
    let n = text::find_char(&cs, 0, ':');
    if n < cs.len() {
        let s = text::slice(&cs, 0, n);
        assert(s@ =~= spec@.take(n as int));
        s
    } else {
        spec.to_owned()
    }
}

/// A site and the hit at which it fires.
pub open spec fn at_hit(name: Seq<char>, hit: nat) -> Seq<char> {
    name + ":"@ + digits(hit)
}

fn say_hit(name: &str, hit: u64) -> (r: String)
    ensures
        r@ == at_hit(name@, hit as nat),
{
    let mut s = name.to_owned();
    s.append(":");
    s.append(decimal(hit).as_str());
    s
}

/// What a child is armed with, and the generator after the draw: the forced point where
/// one is asked for, with a hit of one to four drawn unless it names one; otherwise one
/// child in ten gets a random site at a random hit.
pub open spec fn arming(state: u64, forced: Option<Seq<char>>, sites: Seq<Seq<char>>) -> (
    Option<Seq<char>>,
    u64,
) {
    let s1 = shifted(state);
    let s2 = shifted(s1);
    let s3 = shifted(s2);
    match forced {
        Some(f) => if until(f, ':') < f.len() {
            (Some(f), state)
        } else {
            (Some(at_hit(f, (1 + s1 % 4) as nat)), s1)
        },
        None => if s1 % 10 != 0 {
            (None, s1)
        } else {
            (
                Some(at_hit(sites[(s2 % sites.len() as u64) as int], (1 + s3 % 4) as nat)),
                s3,
            )
        },
    }
}

/// What a child is armed with, if with anything.
pub fn armed_site(rng: &mut Xorshift64, forced: &Option<String>, sites: &Vec<String>) -> (r:
    Option<String>)
    requires
        sites@.len() > 0,
    ensures
        arming(old(rng).state, crate::report::text_of(*forced), texts(sites@)) == (
            crate::report::text_of(r),
            final(rng).state,
        ),
{
    match forced {
        Some(f) => {
            let cs = text::chars(f.as_str());
            assert(cs@.skip(0) =~= cs@);
            let n = text::find_char(&cs, 0, ':');
            if n < cs.len() {
                return Some(f.clone());
            }
            let hit: u64 = 1 + rng.below(4);
            Some(say_hit(f.as_str(), hit))
        },
        None => {
            if rng.below(10) != 0 {
                return None;
            }
            let k: u64 = rng.below(sites.len() as u64);
            let hit: u64 = 1 + rng.below(4);
            assert(texts(sites@)[k as int] == sites@[k as int]@);
            Some(say_hit(sites[k as usize].as_str(), hit))
        },
    }
}

// ---------------------------------------------------------------------------
// The ledger
// ---------------------------------------------------------------------------

/// What a run knows of its crash points. That a child was armed is one thing, that it
/// fired another; the names tell a site that cannot be reached from a race that went the
/// other way.
pub struct CrashLedger {
    pub armed: usize,
    pub aborted: usize,
    /// The armed sites, one entry per child.
    pub armed_sites: Vec<String>,
    /// The sites that aborted a process.
    pub fired: Vec<String>,
}

impl Default for CrashLedger {
    fn default() -> (r: CrashLedger)
        ensures
            r.armed == 0,
            r.aborted == 0,
            r.armed_sites@.len() == 0,
            r.fired@.len() == 0,
    {
        CrashLedger { armed: 0, aborted: 0, armed_sites: Vec::new(), fired: Vec::new() }
    }
}

impl CrashLedger {
    /// A process aborted.
    pub fn record_abort(&mut self, spec: &Option<String>)
        requires
            old(self).aborted < usize::MAX,
        ensures
            final(self).aborted == old(self).aborted + 1,
            final(self).armed == old(self).armed,
            final(self).armed_sites == old(self).armed_sites,
            texts(final(self).fired@) == match *spec {
                Some(s) => texts(old(self).fired@).push(site(s@)),
                None => texts(old(self).fired@),
            },
    {
        broadcast use lemma_texts_push;

        self.aborted = self.aborted + 1;
        match spec {
            Some(s) => {
                self.fired.push(site_of(s.as_str()));
            },
            None => {},
        }
    }

    /// What a child is armed with where arming is on, which is noted.
    pub fn crash_spec(
        &mut self,
        enabled: bool,
        forced: &Option<String>,
        rng: &mut Xorshift64,
        sites: &Vec<String>,
    ) -> (r: Option<String>)
        requires
            enabled ==> sites@.len() > 0,
            old(self).armed < usize::MAX,
        ensures
            !enabled ==> r is None && *final(self) == *old(self) && *final(rng) == *old(rng),
            enabled ==> arming(old(rng).state, crate::report::text_of(*forced), texts(sites@)) == (
                crate::report::text_of(r),
                final(rng).state,
            ),
            final(self).aborted == old(self).aborted,
            final(self).fired == old(self).fired,
            final(self).armed == old(self).armed + (if r is Some {
                1int
            } else {
                0
            }),
            texts(final(self).armed_sites@) == match r {
                Some(s) => texts(old(self).armed_sites@).push(site(s@)),
                None => texts(old(self).armed_sites@),
            },
    {
        broadcast use lemma_texts_push;

        if !enabled {
            return None;
        }
        let spec = armed_site(rng, forced, sites);
        match &spec {
            Some(s) => {
                self.armed = self.armed + 1;
                self.armed_sites.push(site_of(s.as_str()));
            },
            None => {},
        }
        spec
    }
}

/// Some names in order, each once.
pub open spec fn distinct(v: Seq<Seq<char>>) -> Seq<Seq<char>>
    decreases v.len(),
{
    if v.len() == 0 {
        seq![]
    } else {
        with_name(distinct(v.drop_last()), v.last())
    }
}

fn sort_names(v: &Vec<String>) -> (r: Vec<String>)
    ensures
        texts(r@) == distinct(texts(v@)),
{
    let ghost all = texts(v@);
    let mut out: Vec<String> = Vec::new();
    let mut i: usize = 0;
    assert(all.take(0) =~= seq![]);
    assert(texts(out@) =~= seq![]);
    while i < v.len()
        invariant
            i <= v@.len(),
            all == texts(v@),
            texts(out@) == distinct(all.take(i as int)),
        decreases v@.len() - i,
    {
        assert(all.take(i + 1).drop_last() =~= all.take(i as int));
        assert(all.take(i + 1).last() == v@[i as int]@);
        add_name(&mut out, &v[i]);
        i = i + 1;
    }
    assert(all.take(i as int) =~= all);
    out
}

/// Those of some names that are not among others.
pub open spec fn without(v: Seq<Seq<char>>, others: Seq<Seq<char>>) -> Seq<Seq<char>>
    decreases v.len(),
{
    if v.len() == 0 {
        seq![]
    } else {
        let rest = without(v.drop_last(), others);
        if others.contains(v.last()) {
            rest
        } else {
            rest.push(v.last())
        }
    }
}

fn keep_others(v: &Vec<String>, others: &Vec<String>) -> (r: Vec<String>)
    ensures
        texts(r@) == without(texts(v@), texts(others@)),
{
    broadcast use lemma_texts_push;

    let ghost all = texts(v@);
    let mut out: Vec<String> = Vec::new();
    let mut i: usize = 0;
    assert(all.take(0) =~= seq![]);
    assert(texts(out@) =~= seq![]);
    while i < v.len()
        invariant
            i <= v@.len(),
            all == texts(v@),
            texts(out@) == without(all.take(i as int), texts(others@)),
        decreases v@.len() - i,
    {
        assert(all.take(i + 1).drop_last() =~= all.take(i as int));
        assert(all.take(i + 1).last() == v@[i as int]@);
        if !text::among(others, v[i].as_str()) {
            out.push(v[i].clone());
        }
        i = i + 1;
    }
    assert(all.take(i as int) =~= all);
    out
}

/// How many children were armed and how many aborted, and at how many sites.
pub open spec fn coverage_line(armed: u64, sites: u64, aborted: u64, fired: u64) -> Seq<char> {
    "  §11.3: "@
        + digits(armed as nat)
        + " child(ren) armed at "@
        + digits(sites as nat)
        + " distinct site(s), "@
        + digits(aborted as nat)
        + " aborted at "@
        + digits(fired as nat)
        + " distinct site(s)"@
}

fn say_coverage_line(armed: u64, sites: u64, aborted: u64, fired: u64) -> (r: String)
    ensures
        r@ == coverage_line(armed, sites, aborted, fired),
{
    let mut s = "  §11.3: ".to_owned();
    s.append(decimal(armed).as_str());
    s.append(" child(ren) armed at ");
    s.append(decimal(sites).as_str());
    s.append(" distinct site(s), ");
    s.append(decimal(aborted).as_str());
    s.append(" aborted at ");
    s.append(decimal(fired).as_str());
    s.append(" distinct site(s)");
    s
}

/// What a run says of its crash points.
pub open spec fn coverage(l: CrashLedger) -> Seq<Seq<char>> {
    let armed = distinct(texts(l.armed_sites@));
    let fired = distinct(texts(l.fired@));
    let never = without(armed, fired);
    seq![
        coverage_line(l.armed as u64, armed.len() as u64, l.aborted as u64, fired.len() as u64),
    ] + (if fired.len() > 0 {
        seq!["         fired:  "@ + joined(fired, ", "@)]
    } else {
        seq![]
    }) + (if never.len() > 0 {
        seq![
            "         armed, never fired:  "@ + joined(never, ", "@)
                + "\n         (each is either a site this workload cannot reach — the module doc names three — or one whose race the driver's SIGKILL won; a run cannot tell them apart, a longer one narrows it)"@,
        ]
    } else {
        seq![]
    })
}

impl CrashLedger {
    /// What a run says of its crash points.
    pub fn report(&self) -> (r: Vec<String>)
        ensures
            texts(r@) == coverage(*self),
    {
        broadcast use lemma_texts_push;

        let armed = sort_names(&self.armed_sites);
        let fired = sort_names(&self.fired);
        let never = keep_others(&armed, &fired);
        let mut out: Vec<String> = Vec::new();
        out.push(
            say_coverage_line(
                self.armed as u64,
                armed.len() as u64,
                self.aborted as u64,
                fired.len() as u64,
            ),
        );
        if fired.len() > 0 {
            let mut s = "         fired:  ".to_owned();
            s.append(text::join(&fired, ", ").as_str());
            out.push(s);
        }
        if never.len() > 0 {
            let mut s = "         armed, never fired:  ".to_owned();
            s.append(text::join(&never, ", ").as_str());
            s.append(
                "\n         (each is either a site this workload cannot reach — the module doc names three — or one whose race the driver's SIGKILL won; a run cannot tell them apart, a longer one narrows it)",
            );
            out.push(s);
        }
        assert(texts(armed@).len() == armed.len() && texts(fired@).len() == fired.len());
        assert(texts(out@) =~= coverage(*self));
        out
    }
}

// ---------------------------------------------------------------------------
// The host
// ---------------------------------------------------------------------------

/// The first line that begins with a prefix, without the prefix.
pub open spec fn row_after(ls: Seq<Seq<char>>, prefix: Seq<char>) -> Option<Seq<char>>
    decreases ls.len(),
{
    if ls.len() == 0 {
        None
    } else if begins(ls[0], prefix) {
        Some(ls[0].skip(prefix.len() as int))
    } else {
        row_after(ls.skip(1), prefix)
    }
}

/// The first line of a text that begins with a prefix, without the prefix.
pub fn find_row(s: &str, prefix: &str) -> (r: Option<String>)
    ensures
        crate::report::text_of(r) == row_after(lines(s@), prefix@),
{
    let ls = text::split_lines(s);
    let ghost all = texts(ls@);
    let mut i: usize = 0;
    assert(all.skip(0) =~= all);
    while i < ls.len()
        invariant
            i <= ls@.len(),
            all == texts(ls@),
            all == lines(s@),
            row_after(all.skip(i as int), prefix@) == row_after(all, prefix@),
        decreases ls@.len() - i,
    {
        assert(all.skip(i as int)[0] == ls@[i as int]@);
        assert(all.skip(i as int).skip(1) =~= all.skip(i + 1));
        match text::after_prefix(ls[i].as_str(), prefix) {
            Some(rest) => return Some(rest),
            None => {},
        }
        i = i + 1;
    }
    None
}

/// A word of a row, `?` where there is none.
pub open spec fn column(w: Seq<Seq<char>>, i: int) -> Seq<char> {
    if 0 <= i < w.len() {
        w[i]
    } else {
        "?"@
    }
}

/// The soft and the hard limit on core files, where the text of `/proc/self/limits` has
/// their row.
pub open spec fn core_limits(limits: Seq<char>) -> Option<(Seq<char>, Seq<char>)> {
    match row_after(lines(limits), "Max core file size"@) {
        Some(rest) => Some((column(words(rest), 0), column(words(rest), 1))),
        None => None,
    }
}

fn take_column(w: &Vec<String>, i: usize) -> (r: String)
    ensures
        r@ == column(texts(w@), i as int),
{
    if i < w.len() {
        assert(texts(w@)[i as int] == w@[i as int]@);
        w[i].clone()
    } else {
        "?".to_owned()
    }
}

/// The soft and the hard limit on core files from the text of `/proc/self/limits`.
pub fn core_rlimit_columns(limits: &str) -> (r: Option<(String, String)>)
    ensures
        match r {
            Some((soft, hard)) => core_limits(limits@) == Some((soft@, hard@)),
            None => core_limits(limits@) is None,
        },
{
    match find_row(limits, "Max core file size") {
        Some(rest) => {
            let w = text::split_words(rest.as_str());
            Some((take_column(&w, 0), take_column(&w, 1)))
        },
        None => None,
    }
}

/// The soft limit, where the limits could be read and have it.
pub open spec fn soft_limit(limits: Option<Seq<char>>) -> Option<Seq<char>> {
    match limits {
        Some(t) => match core_limits(t) {
            Some((soft, _)) => Some(soft),
            None => None,
        },
        None => None,
    }
}

/// Whether a child that aborts has the host's crash helper run before its files close:
/// only a soft limit of one refuses a dump into a pipe.
pub open spec fn helper_runs(armed: bool, pattern: Seq<char>, soft: Option<Seq<char>>) -> bool {
    armed && begins(pattern, "|"@) && soft != Some("1"@)
}

pub open spec fn warning_text(soft: Option<Seq<char>>) -> Seq<char> {
    DIAG@ + " warning: --crash-points with a pipe core_pattern and a core soft limit of "@
        + (match soft {
        Some(s) => s,
        None => "<unreadable>"@,
    })
        + ": an armed child's abort runs the host's crash helper before its socket and byte 0 are released, so this run's recovery depends on that helper. A soft limit of 0 does not stop a pipe dump; only 1 does, which `just shm-torture-crash-points` sets with `prlimit --core=1:1 --` (docs/decisions/0057 Decision 6). Reported, not a verdict."@
}

/// The warning that the run's recovery depends on the host's crash helper, where it does.
pub fn core_dump_warning(crash_points: bool, core_pattern: &str, limits: &Option<String>) -> (r:
    Option<String>)
    ensures
        ({
            let soft = soft_limit(crate::report::text_of(*limits));
            match r {
                Some(s) => helper_runs(crash_points, core_pattern@, soft) && s@ == warning_text(
                    soft,
                ),
                None => !helper_runs(crash_points, core_pattern@, soft),
            }
        }),
{
    let soft: Option<String> = match limits {
        Some(t) => match core_rlimit_columns(t.as_str()) {
            Some((soft, _)) => Some(soft),
            None => None,
        },
        None => None,
    };
    if !crash_points || !text::starts_with(core_pattern, "|") {
        return None;
    }
    let mut s = DIAG.to_owned();
    s.append(
        " warning: --crash-points with a pipe core_pattern and a core soft limit of ",
    );
    match &soft {
        Some(v) => {
            if text::same(v.as_str(), "1") {
                return None;
            }
            s.append(v.as_str());
        },
        None => {
            s.append("<unreadable>");
        },
    }
    s.append(
        ": an armed child's abort runs the host's crash helper before its socket and byte 0 are released, so this run's recovery depends on that helper. A soft limit of 0 does not stop a pipe dump; only 1 does, which `just shm-torture-crash-points` sets with `prlimit --core=1:1 --` (docs/decisions/0057 Decision 6). Reported, not a verdict.",
    );
    Some(s)
}

/// A run without armed points, and one whose soft limit is one, is never warned.
pub proof fn law_no_warning_without_a_dump(armed: bool, pattern: Seq<char>, limits: Seq<char>)
    requires
        !armed || soft_limit(Some(limits)) == Some("1"@) || !begins(pattern, "|"@),
    ensures
        !helper_runs(armed, pattern, soft_limit(Some(limits))),
{
}

pub open spec fn limit_text(limits: Option<Seq<char>>) -> Seq<char> {
    match limits {
        Some(t) => match core_limits(t) {
            Some((soft, hard)) => "soft="@ + soft + " hard="@ + hard,
            None => "<unreadable>"@,
        },
        None => "<unreadable>"@,
    }
}

pub open spec fn host_text(
    pattern: Seq<char>,
    pipe_limit: Seq<char>,
    limits: Option<Seq<char>>,
    release: Seq<char>,
    stamp: Seq<char>,
) -> Seq<char> {
    DIAG@ + " host: core_pattern=`"@ + pattern + "` core_pipe_limit="@ + pipe_limit
        + " core_rlimit "@ + limit_text(limits) + " osrelease="@ + release + " stamp="@ + stamp
}

/// The host's core-dump configuration on one line.
pub fn host_diag(
    core_pattern: &str,
    core_pipe_limit: &str,
    limits: &Option<String>,
    osrelease: &str,
    stamp: &str,
) -> (r: String)
    ensures
        r@ == host_text(
            core_pattern@,
            core_pipe_limit@,
            crate::report::text_of(*limits),
            osrelease@,
            stamp@,
        ),
{
    let mut limit = "<unreadable>".to_owned();
    match limits {
        Some(t) => match core_rlimit_columns(t.as_str()) {
            Some((soft, hard)) => {
                limit = "soft=".to_owned();
                limit.append(soft.as_str());
                limit.append(" hard=");
                limit.append(hard.as_str());
            },
            None => {},
        },
        None => {},
    }
    let mut s = DIAG.to_owned();
    s.append(" host: core_pattern=`");
    s.append(core_pattern);
    s.append("` core_pipe_limit=");
    s.append(core_pipe_limit);
    s.append(" core_rlimit ");
    s.append(limit.as_str());
    s.append(" osrelease=");
    s.append(osrelease);
    s.append(" stamp=");
    s.append(stamp);
    s
}

// ---------------------------------------------------------------------------
// What arming and its report mean
// ---------------------------------------------------------------------------

/// A site is what stands before the first colon, or all of it where there is none.
pub proof fn law_a_site_ends_at_its_colon(spec: Seq<char>)
    ensures
        begins(spec, site(spec)),
        forall|j: int| 0 <= j < site(spec).len() ==> site(spec)[j] != ':',
        site(spec) == spec || spec[site(spec).len() as int] == ':',
        site(site(spec)) == site(spec),
{
    text::lemma_until(spec, ':');
    text::lemma_until(site(spec), ':');
    assert(spec.take(spec.len() as int) =~= spec);
}

/// One child in ten is armed, at a site that there is and at one of its first four hits; a
/// forced site arms every child, at its own hit where it has one.
pub proof fn law_whom_arming_arms(state: u64, forced: Option<Seq<char>>, sites: Seq<Seq<char>>)
    requires
        0 < sites.len() <= u64::MAX,
    ensures
        forced is None ==> (arming(state, forced, sites).0 is Some <==> shifted(state) % 10 == 0),
        forced is None ==> (arming(state, forced, sites).0 matches Some(s) ==> exists|
            k: int,
            hit: nat,
        |
            0 <= k < sites.len() && 1 <= hit <= 4 && s == #[trigger] sites[k] + ":"@
                + #[trigger] digits(hit)),
        forced matches Some(f) ==> {
            &&& f.contains(':') ==> arming(state, forced, sites) == (Some(f), state)
            &&& !f.contains(':') ==> (arming(state, forced, sites).0 matches Some(s) && exists|
                hit: nat,
            |
                1 <= hit <= 4 && s == f + ":"@ + #[trigger] digits(hit))
        },
{
    let s1 = shifted(state);
    let s2 = shifted(s1);
    let s3 = shifted(s2);
    match forced {
        Some(f) => {
            text::lemma_until(f, ':');
            if f.contains(':') {
                let j = f.index_of(':');
                assert(f[j] == ':');
            } else {
                let hit = (1 + s1 % 4) as nat;
                assert(1 <= hit <= 4 && at_hit(f, hit) == f + ":"@ + digits(hit));
            }
        },
        None => {
            if s1 % 10 == 0 {
                let n = sites.len() as u64;
                let k = (s2 % n) as int;
                let hit = (1 + s3 % 4) as nat;
                assert(0 <= k < sites.len());
                assert(at_hit(sites[k], hit) == sites[k] + ":"@ + digits(hit));
            }
        },
    }
}

/// What is listed without repeats lists everything that was there and nothing else, and what is
/// listed as never fired was armed and did not fire.
pub proof fn law_never_fired_was_armed(armed: Seq<Seq<char>>, fired: Seq<Seq<char>>, x: Seq<char>)
    ensures
        ascending(distinct(armed)),
        distinct(armed).contains(x) <==> armed.contains(x),
        without(armed, fired).contains(x) <==> armed.contains(x) && !fired.contains(x),
    decreases armed.len(),
{
    if armed.len() > 0 {
        let rest = armed.drop_last();
        law_never_fired_was_armed(rest, fired, x);
        assert(armed =~= rest.push(armed.last()));
        crate::order::law_a_name_is_added_once(distinct(rest), armed.last());
        let w = without(rest, fired);
        assert(armed.contains(x) <==> rest.contains(x) || armed.last() == x) by {
            if rest.contains(x) {
                let j = rest.index_of(x);
                assert(armed[j] == x);
            }
            if armed.last() == x {
                assert(armed[armed.len() - 1] == x);
            }
        }
        assert(w.push(armed.last()).contains(x) <==> w.contains(x) || armed.last() == x) by {
            if w.contains(x) {
                let j = w.index_of(x);
                assert(w.push(armed.last())[j] == x);
            }
            assert(w.push(armed.last())[w.len() as int] == armed.last());
        }
    }
}

/// The report counts what was armed and what aborted, and says where.
pub proof fn law_coverage_says_what_was_counted(l: CrashLedger)
    ensures
        coverage(l).len() >= 1,
        begins(
            coverage(l)[0],
            "  §11.3: "@ + digits((l.armed as u64) as nat) + " child(ren) armed at "@,
        ),
        holds(coverage(l)[0], digits((l.aborted as u64) as nat) + " aborted at "@),
{
    let armed = distinct(texts(l.armed_sites@));
    let fired = distinct(texts(l.fired@));
    let doc = coverage(l)[0];
    let a0 = "  §11.3: "@;
    let a1 = a0 + digits((l.armed as u64) as nat);
    let a2 = a1 + " child(ren) armed at "@;
    let a3 = a2 + digits((armed.len() as u64) as nat);
    let a4 = a3 + " distinct site(s), "@;
    let p = digits((l.aborted as u64) as nat) + " aborted at "@;
    assert(doc == coverage_line(
        l.armed as u64,
        armed.len() as u64,
        l.aborted as u64,
        fired.len() as u64,
    ));
    assert(doc.take((a4 + p).len() as int) =~= a4 + p);
    assert(doc.take(a2.len() as int) =~= a2);
    text::lemma_end_of_a_beginning(doc, a4, p);
}

/// The row that is found is the first with that prefix, without it.
pub proof fn law_the_first_row_counts(ls: Seq<Seq<char>>, prefix: Seq<char>)
    ensures
        row_after(ls, prefix) is None <==> forall|j: int|
            0 <= j < ls.len() ==> !begins(#[trigger] ls[j], prefix),
        row_after(ls, prefix) matches Some(rest) ==> exists|j: int|
            0 <= j < ls.len() && #[trigger] ls[j] == prefix + rest && forall|k: int|
                0 <= k < j ==> !begins(#[trigger] ls[k], prefix),
    decreases ls.len(),
{
    if ls.len() > 0 {
        if begins(ls[0], prefix) {
            assert(ls[0] =~= prefix + ls[0].skip(prefix.len() as int));
        } else {
            let rest = ls.skip(1);
            law_the_first_row_counts(rest, prefix);
            if row_after(rest, prefix) is None {
                assert forall|j: int| 0 <= j < ls.len() implies !begins(
                    #[trigger] ls[j],
                    prefix,
                ) by {
                    if j > 0 {
                        assert(ls[j] == rest[j - 1]);
                    }
                }
            } else {
                let t = row_after(rest, prefix)->0;
                let j = choose|j: int|
                    0 <= j < rest.len() && #[trigger] rest[j] == prefix + t && forall|k: int|
                        0 <= k < j ==> !begins(#[trigger] rest[k], prefix);
                assert(ls[j + 1] == prefix + t);
                assert(ls[j + 1].take(prefix.len() as int) =~= prefix);
                assert forall|k: int| 0 <= k < j + 1 implies !begins(
                    #[trigger] ls[k],
                    prefix,
                ) by {
                    if k > 0 {
                        assert(ls[k] == rest[k - 1]);
                    }
                }
            }
        }
    }
}

/// There is a warning exactly where crash points are on, cores go to a program and the soft
/// limit is not the one that keeps it from running; the soft limit is the first word of its row
/// and the hard one the second.
pub proof fn law_when_the_host_is_warned_of(armed: bool, pattern: Seq<char>, row: Seq<char>)
    ensures
        helper_runs(armed, pattern, None) <==> armed && pattern.len() > 0 && pattern[0] == '|',
        helper_runs(armed, pattern, Some(row)) <==> armed && pattern.len() > 0 && pattern[0] == '|'
            && row != seq!['1'],
        words(row).len() >= 2 ==> column(words(row), 0) == words(row)[0] && column(words(row), 1)
            == words(row)[1],
{
    reveal_strlit("|");
    reveal_strlit("1");
    assert("1"@ =~= seq!['1']);
    assert("|"@ =~= seq!['|']);
    if pattern.len() > 0 {
        assert(pattern.take(1) =~= seq![pattern[0]]);
        if pattern[0] != '|' {
            assert(pattern.take(1)[0] != "|"@[0]);
        }
    }
}

} // verus!
