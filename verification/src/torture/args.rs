//! What a run is asked to do.

use vstd::prelude::*;

use super::crash::{site, site_of};
use super::MIN_ATTACHED_FOR_ORDINARY_KILL;
use crate::number::{self, at_most, number, Number, NumberView};
use crate::report::text_of;
use crate::scaling::{parse_usize, read_usize};
use crate::text::{
    self, begins, decimal, digits, holds, joined, lemma_end_of_a_beginning, lemma_texts_push,
    parse_u64, read_u64, same, texts,
};

verus! {

/// A tenth, as a bit pattern: the slowest rate of kills.
pub const SLOWEST: u64 = 0x3fb9_9999_9999_999a;

/// One hundred, as a bit pattern: the fastest rate of kills.
pub const FASTEST: u64 = 0x4059_0000_0000_0000;

/// Four, as a bit pattern.
pub const FOUR: u64 = 0x4010_0000_0000_0000;

/// The unit of a duration.
#[derive(Debug, Clone, Copy, PartialEq, Eq, Structural)]
pub enum Unit {
    /// Whole milliseconds.
    Millis,
    /// So many seconds.
    Seconds(u64),
}

/// The number in a duration and its unit: `ms` before `s`, which it ends in.
pub open spec fn duration_of(s: Seq<char>) -> (Seq<char>, Unit) {
    let n = s.len() as int;
    if n >= 2 && s[n - 2] == 'm' && s[n - 1] == 's' {
        (s.take(n - 2), Unit::Millis)
    } else if n >= 1 && s[n - 1] == 'h' {
        (s.take(n - 1), Unit::Seconds(3600))
    } else if n >= 1 && s[n - 1] == 'm' {
        (s.take(n - 1), Unit::Seconds(60))
    } else if n >= 1 && s[n - 1] == 's' {
        (s.take(n - 1), Unit::Seconds(1))
    } else {
        (s, Unit::Seconds(1))
    }
}

/// The number in a duration such as `30m`, `120s`, `500ms` or `1h`, and its unit.
pub fn parse_duration(s: &str) -> (r: (String, Unit))
    ensures
        (r.0@, r.1) == duration_of(s@),
{
    let cs = text::chars(s);
    let n: usize = cs.len();
    if n >= 2 && cs[n - 2] == 'm' && cs[n - 1] == 's' {
        let head = text::slice(&cs, 0, n - 2);
        assert(head@ =~= s@.take(n - 2));
        return (head, Unit::Millis);
    }
    if n >= 1 {
        let unit: u64 = match cs[n - 1] {
            'h' => 3600,
            'm' => 60,
            's' => 1,
            _ => 0,
        };
        if unit > 0 {
            let head = text::slice(&cs, 0, n - 1);
            assert(head@ =~= s@.take(n - 1));
            return (head, Unit::Seconds(unit));
        }
    }
    (s.to_owned(), Unit::Seconds(1))
}

/// An argument as what only its number can say.
pub struct Word {
    /// As a duration, in nanoseconds.
    pub duration_ns: Option<u128>,
    /// As a double.
    pub rate: Option<Number>,
}

/// What a run is asked to do.
pub struct Args {
    pub duration_ns: u128,
    pub children: usize,
    pub seed: u64,
    /// Kills in a second.
    pub kill_hz: Number,
    /// One child publishes a bad transform, and the run must fail.
    pub inject: bool,
    /// The children read and never publish, and the run must fail.
    pub readers_only: bool,
    pub crash_points: bool,
    /// How often the owner is killed, in nanoseconds.
    pub owner_kill_every_ns: Option<u128>,
    /// No child inherits, and the run must fail.
    pub no_inherit: bool,
    /// How many of the first owner kills are deferred whatever the population is.
    pub defer_owner_kills: usize,
    /// The site that every child is armed at.
    pub crash_site: Option<String>,
    /// Megabytes of dirty memory that each child holds.
    pub victim_ballast_mb: usize,
    /// Milliseconds for which the owner is stopped before it is killed.
    pub stop_owner_ms: u64,
}

pub struct ArgsView {
    pub duration_ns: u128,
    pub children: usize,
    pub seed: u64,
    pub kill_hz: NumberView,
    pub inject: bool,
    pub readers_only: bool,
    pub crash_points: bool,
    pub owner_kill_every_ns: Option<u128>,
    pub no_inherit: bool,
    pub defer_owner_kills: usize,
    pub crash_site: Option<Seq<char>>,
    pub victim_ballast_mb: usize,
    pub stop_owner_ms: u64,
}

impl View for Args {
    type V = ArgsView;

    open spec fn view(&self) -> ArgsView {
        ArgsView {
            duration_ns: self.duration_ns,
            children: self.children,
            seed: self.seed,
            kill_hz: self.kill_hz@,
            inject: self.inject,
            readers_only: self.readers_only,
            crash_points: self.crash_points,
            owner_kill_every_ns: self.owner_kill_every_ns,
            no_inherit: self.no_inherit,
            defer_owner_kills: self.defer_owner_kills,
            crash_site: text_of(self.crash_site),
            victim_ballast_mb: self.victim_ballast_mb,
            stop_owner_ms: self.stop_owner_ms,
        }
    }
}

/// Why there is no run.
pub enum Refusal {
    /// An option without its value.
    NeedsValue(String),
    /// An option whose value cannot be read.
    BadValue { flag: String, value: String },
    /// Crash points in a build without them.
    NotBuilt,
    /// A crash site that the build does not have.
    NotASite { name: String, sites: Vec<String> },
    /// An argument that there is not.
    Unknown(String),
    NoChildren,
    /// A crash site without crash points.
    SiteWithoutPoints,
    /// Too few children to kill the owner among them.
    TooFewChildren(usize),
    /// Owner kills to defer, and none to come.
    NothingToDefer(usize),
    /// A rate of kills out of range.
    BadRate(String),
}

pub enum RefusalView {
    NeedsValue(Seq<char>),
    BadValue { flag: Seq<char>, value: Seq<char> },
    NotBuilt,
    NotASite { name: Seq<char>, sites: Seq<Seq<char>> },
    Unknown(Seq<char>),
    NoChildren,
    SiteWithoutPoints,
    TooFewChildren(usize),
    NothingToDefer(usize),
    BadRate(Seq<char>),
}

impl View for Refusal {
    type V = RefusalView;

    open spec fn view(&self) -> RefusalView {
        match *self {
            Refusal::NeedsValue(s) => RefusalView::NeedsValue(s@),
            Refusal::BadValue { flag, value } => RefusalView::BadValue {
                flag: flag@,
                value: value@,
            },
            Refusal::NotBuilt => RefusalView::NotBuilt,
            Refusal::NotASite { name, sites } => RefusalView::NotASite {
                name: name@,
                sites: texts(sites@),
            },
            Refusal::Unknown(s) => RefusalView::Unknown(s@),
            Refusal::NoChildren => RefusalView::NoChildren,
            Refusal::SiteWithoutPoints => RefusalView::SiteWithoutPoints,
            Refusal::TooFewChildren(n) => RefusalView::TooFewChildren(n),
            Refusal::NothingToDefer(n) => RefusalView::NothingToDefer(n),
            Refusal::BadRate(s) => RefusalView::BadRate(s@),
        }
    }
}

/// What is said of a site that the build does not have.
pub open spec fn not_a_site(name: Seq<char>, sites: Seq<char>) -> Seq<char> {
    "`"@
        + name
        + "` is not a §11.3 crash site. The build carries: "@
        + sites
}

fn say_not_a_site(name: &str, sites: &str) -> (r: String)
    ensures
        r@ == not_a_site(name@, sites@),
{
    let mut s = "`".to_owned();
    s.append(name);
    s.append("` is not a §11.3 crash site. The build carries: ");
    s.append(sites);
    s
}

/// What is said where the owner cannot be killed among so few.
pub open spec fn too_few_children(children: u64, floor: u64, least: u64) -> Seq<char> {
    "--children "@
        + digits(children as nat)
        + " with the owner-kill arm on cannot sustain the workload: the owner is a child, so a kill has to leave both a survivor eligible to inherit and an attached pool at or above MIN_ATTACHED_FOR_ORDINARY_KILL ("@
        + digits(floor as nat)
        + "), below which the ordinary victim draw stops. At this setting §3.5 would be untestable and the run would fail at its `kills == 0` floor after burning the whole duration, for a reason that says nothing about the arena. Use --children "@
        + digits(least as nat)
        + " or more, or --no-kill-owner."@
}

fn say_too_few_children(children: u64, floor: u64, least: u64) -> (r: String)
    ensures
        r@ == too_few_children(children, floor, least),
{
    let mut s = "--children ".to_owned();
    s.append(decimal(children).as_str());
    s.append(
        " with the owner-kill arm on cannot sustain the workload: the owner is a child, so a kill has to leave both a survivor eligible to inherit and an attached pool at or above MIN_ATTACHED_FOR_ORDINARY_KILL (",
    );
    s.append(decimal(floor).as_str());
    s.append(
        "), below which the ordinary victim draw stops. At this setting §3.5 would be untestable and the run would fail at its `kills == 0` floor after burning the whole duration, for a reason that says nothing about the arena. Use --children ",
    );
    s.append(decimal(least).as_str());
    s.append(" or more, or --no-kill-owner.");
    s
}

/// What is said where there is no owner kill to defer.
pub open spec fn nothing_to_defer(count: u64) -> Seq<char> {
    "--defer-owner-kills "@
        + digits(count as nat)
        + " with --no-kill-owner: there is no owner-kill arm to defer. It is the positive control for the deferral path, so it needs the arm it controls."@
}

fn say_nothing_to_defer(count: u64) -> (r: String)
    ensures
        r@ == nothing_to_defer(count),
{
    let mut s = "--defer-owner-kills ".to_owned();
    s.append(decimal(count).as_str());
    s.append(
        " with --no-kill-owner: there is no owner-kill arm to defer. It is the positive control for the deferral path, so it needs the arm it controls.",
    );
    s
}

/// What is said of a rate out of range.
pub open spec fn bad_rate(rate: Seq<char>) -> Seq<char> {
    "--kill-hz "@
        + rate
        + " is outside §11.4's 1-10 Hz by more than a factor of ten either way"@
}

fn say_bad_rate(rate: &str) -> (r: String)
    ensures
        r@ == bad_rate(rate@),
{
    let mut s = "--kill-hz ".to_owned();
    s.append(rate);
    s.append(" is outside §11.4's 1-10 Hz by more than a factor of ten either way");
    s
}


pub const NOT_BUILT: &'static str =
    "--crash-points needs this binary built with the `crash-points` feature: the children are this same executable, so a site that is compiled out here is compiled out in every child and the flag would arm nothing while looking like it had. Rebuild with `--features shm,crash-points`.";

pub const SITE_WITHOUT_POINTS: &'static str =
    "--crash-site needs --crash-points: without it the sites are compiled out and the probe would report every site unreachable while arming none of them.";

/// The fewest children among whom the owner can be killed: one more than the ordinary
/// draw leaves, so that a replacement's handshake does not stop every draw.
pub const CHILDREN_FLOOR: usize = 4;

impl RefusalView {
    /// What is said of it, but for a value that cannot be read: of that the parser of the
    /// value has its own words.
    pub open spec fn message(self) -> Option<Seq<char>> {
        match self {
            RefusalView::NeedsValue(flag) => Some(flag + " needs a value"@),
            RefusalView::BadValue { .. } => None,
            RefusalView::NotBuilt => Some(NOT_BUILT@),
            RefusalView::NotASite { name, sites } => Some(not_a_site(name, joined(sites, ", "@))),
            RefusalView::Unknown(s) => Some("unknown argument `"@ + s + "`"@),
            RefusalView::NoChildren => Some("--children 0 leaves nobody to torture the arena"@),
            RefusalView::SiteWithoutPoints => Some(SITE_WITHOUT_POINTS@),
            RefusalView::TooFewChildren(n) => Some(
                too_few_children(
                    n as u64,
                    MIN_ATTACHED_FOR_ORDINARY_KILL,
                    CHILDREN_FLOOR as u64,
                ),
            ),
            RefusalView::NothingToDefer(n) => Some(nothing_to_defer(n as u64)),
            RefusalView::BadRate(s) => Some(bad_rate(s)),
        }
    }
}

impl Refusal {
    /// What is said of it; nothing of a value that cannot be read, of which its parser has
    /// its own words.
    pub fn message(&self) -> (r: Option<String>)
        ensures
            text_of(r) == self@.message(),
    {
        match self {
            Refusal::NeedsValue(flag) => {
                let mut s = flag.clone();
                s.append(" needs a value");
                Some(s)
            },
            Refusal::BadValue { .. } => None,
            Refusal::NotBuilt => Some(NOT_BUILT.to_owned()),
            Refusal::NotASite { name, sites } => Some(
                say_not_a_site(name.as_str(), text::join(sites, ", ").as_str()),
            ),
            Refusal::Unknown(a) => {
                let mut s = "unknown argument `".to_owned();
                s.append(a.as_str());
                s.append("`");
                Some(s)
            },
            Refusal::NoChildren => Some(
                "--children 0 leaves nobody to torture the arena".to_owned(),
            ),
            Refusal::SiteWithoutPoints => Some(SITE_WITHOUT_POINTS.to_owned()),
            Refusal::TooFewChildren(n) => Some(
                say_too_few_children(
                    *n as u64,
                    MIN_ATTACHED_FOR_ORDINARY_KILL,
                    CHILDREN_FLOOR as u64,
                ),
            ),
            Refusal::NothingToDefer(n) => Some(say_nothing_to_defer(*n as u64)),
            Refusal::BadRate(s) => Some(say_bad_rate(s.as_str())),
        }
    }
}

// ---------------------------------------------------------------------------
// Reading
// ---------------------------------------------------------------------------

pub open spec fn default_args() -> ArgsView {
    ArgsView {
        duration_ns: 30_000_000_000,
        children: 6,
        seed: 0x7085_1234_ABCD_0001,
        kill_hz: number(FOUR, "4"@, "4"@, "4.0"@, "4.000"@, "4.00000"@, "4.0000e0"@),
        inject: false,
        readers_only: false,
        crash_points: false,
        owner_kill_every_ns: Some(8_000_000_000),
        no_inherit: false,
        defer_owner_kills: 0,
        crash_site: None,
        victim_ballast_mb: 0,
        stop_owner_ms: 0,
    }
}

/// The options that take a value.
pub open spec fn takes_value(flag: Seq<char>) -> bool {
    flag == "--duration"@ || flag == "--children"@ || flag == "--seed"@ || flag == "--kill-hz"@
        || flag == "--owner-kill-every"@ || flag == "--defer-owner-kills"@ || flag
        == "--victim-ballast-mb"@ || flag == "--stop-owner-ms"@ || flag == "--crash-site"@
}

pub open spec fn duration_at(read: Seq<Word>, i: int) -> Option<u128> {
    if 0 <= i < read.len() {
        read[i].duration_ns
    } else {
        None
    }
}

pub open spec fn rate_at(read: Seq<Word>, i: int) -> Option<NumberView> {
    if 0 <= i < read.len() {
        match read[i].rate {
            Some(x) => Some(x@),
            None => None,
        }
    } else {
        None
    }
}

/// The arguments and one option with its value, which is the `i`-th.
pub open spec fn valued(
    a: ArgsView,
    flag: Seq<char>,
    value: Seq<char>,
    read: Seq<Word>,
    i: int,
    built: bool,
    sites: Seq<Seq<char>>,
) -> Result<ArgsView, RefusalView> {
    let bad = Err::<ArgsView, RefusalView>(RefusalView::BadValue { flag, value });
    if flag == "--duration"@ {
        match duration_at(read, i) {
            Some(d) => Ok(ArgsView { duration_ns: d, ..a }),
            None => bad,
        }
    } else if flag == "--children"@ {
        match read_usize(value) {
            Some(n) => Ok(ArgsView { children: n, ..a }),
            None => bad,
        }
    } else if flag == "--seed"@ {
        match read_u64(value) {
            Some(n) => Ok(ArgsView { seed: n, ..a }),
            None => bad,
        }
    } else if flag == "--kill-hz"@ {
        match rate_at(read, i) {
            Some(x) => Ok(ArgsView { kill_hz: x, ..a }),
            None => bad,
        }
    } else if flag == "--owner-kill-every"@ {
        match duration_at(read, i) {
            Some(d) => Ok(ArgsView { owner_kill_every_ns: Some(d), ..a }),
            None => bad,
        }
    } else if flag == "--defer-owner-kills"@ {
        match read_usize(value) {
            Some(n) => Ok(ArgsView { defer_owner_kills: n, ..a }),
            None => bad,
        }
    } else if flag == "--victim-ballast-mb"@ {
        match read_usize(value) {
            Some(n) => Ok(ArgsView { victim_ballast_mb: n, ..a }),
            None => bad,
        }
    } else if flag == "--stop-owner-ms"@ {
        match read_u64(value) {
            Some(n) => Ok(ArgsView { stop_owner_ms: n, ..a }),
            None => bad,
        }
    } else if built && !sites.contains(site(value)) {
        Err(RefusalView::NotASite { name: site(value), sites })
    } else {
        Ok(ArgsView { crash_site: Some(value), ..a })
    }
}

/// The arguments and one option without a value, and whether it asks for help.
pub open spec fn switched(a: ArgsView, flag: Seq<char>, built: bool) -> Result<
    (ArgsView, bool),
    RefusalView,
> {
    if flag == "--inject-violation"@ {
        Ok((ArgsView { inject: true, ..a }, false))
    } else if flag == "--readers-only"@ {
        Ok((ArgsView { readers_only: true, ..a }, false))
    } else if flag == "--no-kill-owner"@ {
        Ok((ArgsView { owner_kill_every_ns: None, ..a }, false))
    } else if flag == "--no-inherit"@ {
        Ok((ArgsView { no_inherit: true, ..a }, false))
    } else if flag == "--crash-points"@ {
        if built {
            Ok((ArgsView { crash_points: true, ..a }, false))
        } else {
            Err(RefusalView::NotBuilt)
        }
    } else if flag == "-h"@ || flag == "--help"@ {
        Ok((a, true))
    } else {
        Err(RefusalView::Unknown(flag))
    }
}

/// What the arguments from the `i`-th on come to, where those before came to `a`.
pub open spec fn read_from(
    argv: Seq<Seq<char>>,
    read: Seq<Word>,
    built: bool,
    sites: Seq<Seq<char>>,
    i: int,
    a: ArgsView,
    help: bool,
) -> Result<(ArgsView, bool), RefusalView>
    decreases argv.len() - i,
{
    if i >= argv.len() {
        Ok((a, help))
    } else if takes_value(argv[i]) {
        if i + 1 >= argv.len() {
            Err(RefusalView::NeedsValue(argv[i]))
        } else {
            match valued(a, argv[i], argv[i + 1], read, i + 1, built, sites) {
                Err(e) => Err(e),
                Ok(b) => read_from(argv, read, built, sites, i + 2, b, help),
            }
        }
    } else {
        match switched(a, argv[i], built) {
            Err(e) => Err(e),
            Ok((b, h)) => read_from(argv, read, built, sites, i + 1, b, help || h),
        }
    }
}

/// Why the arguments do not go together, where they do not: the first of the reasons.
pub open spec fn clash(a: ArgsView) -> Option<RefusalView> {
    if a.children == 0 {
        Some(RefusalView::NoChildren)
    } else if a.crash_site is Some && !a.crash_points {
        Some(RefusalView::SiteWithoutPoints)
    } else if a.owner_kill_every_ns is Some && a.children < CHILDREN_FLOOR {
        Some(RefusalView::TooFewChildren(a.children))
    } else if a.defer_owner_kills > 0 && a.owner_kill_every_ns is None {
        Some(RefusalView::NothingToDefer(a.defer_owner_kills))
    } else if !(at_most(SLOWEST, a.kill_hz.bits) && at_most(a.kill_hz.bits, FASTEST)) {
        Some(RefusalView::BadRate(a.kill_hz.plain))
    } else {
        None
    }
}

/// The arguments, and whether they ask for help, or why there is no run.
pub open spec fn asked(
    argv: Seq<Seq<char>>,
    read: Seq<Word>,
    built: bool,
    sites: Seq<Seq<char>>,
) -> Result<(ArgsView, bool), RefusalView> {
    match read_from(argv, read, built, sites, 0, default_args(), false) {
        Err(e) => Err(e),
        Ok((a, help)) => match clash(a) {
            Some(e) => Err(e),
            None => Ok((a, help)),
        },
    }
}

/// A run that is accepted has somebody to kill; and where the owner is killed, a victim, an
/// heir and a role holder remain.
pub proof fn law_accepted_runs_can_be_run(
    argv: Seq<Seq<char>>,
    read: Seq<Word>,
    built: bool,
    sites: Seq<Seq<char>>,
)
    requires
        asked(argv, read, built, sites) is Ok,
    ensures
        ({
            let a = (asked(argv, read, built, sites)->Ok_0).0;
            &&& a.children > 0
            &&& a.owner_kill_every_ns is Some ==> a.children > MIN_ATTACHED_FOR_ORDINARY_KILL
            &&& a.defer_owner_kills > 0 ==> a.owner_kill_every_ns is Some
            &&& a.crash_site is Some ==> a.crash_points
        }),
{
}

fn take_duration(read: &Vec<Word>, i: usize) -> (r: Option<u128>)
    ensures
        r == duration_at(read@, i as int),
{
    if i < read.len() {
        read[i].duration_ns
    } else {
        None
    }
}

fn take_rate(read: &Vec<Word>, i: usize) -> (r: Option<Number>)
    ensures
        match r {
            Some(x) => rate_at(read@, i as int) == Some(x@),
            None => rate_at(read@, i as int) is None,
        },
{
    if i < read.len() {
        match &read[i].rate {
            Some(x) => Some(x.clone()),
            None => None,
        }
    } else {
        None
    }
}

fn wants_value(flag: &str) -> (r: bool)
    ensures
        r == takes_value(flag@),
{
    same(flag, "--duration") || same(flag, "--children") || same(flag, "--seed") || same(
        flag,
        "--kill-hz",
    ) || same(flag, "--owner-kill-every") || same(flag, "--defer-owner-kills") || same(
        flag,
        "--victim-ballast-mb",
    ) || same(flag, "--stop-owner-ms") || same(flag, "--crash-site")
}

fn bad_value(flag: &String, value: &String) -> (r: Refusal)
    ensures
        r@ == (RefusalView::BadValue { flag: flag@, value: value@ }),
{
    Refusal::BadValue { flag: flag.clone(), value: value.clone() }
}

impl Args {
    fn take_valued(
        &mut self,
        flag: &String,
        value: &String,
        read: &Vec<Word>,
        i: usize,
        built: bool,
        sites: &Vec<String>,
    ) -> (r: Result<(), Refusal>)
        ensures
            match r {
                Ok(()) => valued(
                    old(self)@,
                    flag@,
                    value@,
                    read@,
                    i as int,
                    built,
                    texts(sites@),
                ) == Ok::<ArgsView, RefusalView>(final(self)@),
                Err(e) => valued(
                    old(self)@,
                    flag@,
                    value@,
                    read@,
                    i as int,
                    built,
                    texts(sites@),
                ) == Err::<ArgsView, RefusalView>(e@),
            },
    {
        if same(flag.as_str(), "--duration") {
            match take_duration(read, i) {
                Some(d) => {
                    self.duration_ns = d;
                },
                None => return Err(bad_value(flag, value)),
            }
        } else if same(flag.as_str(), "--children") {
            match parse_usize(value.as_str()) {
                Some(n) => {
                    self.children = n;
                },
                None => return Err(bad_value(flag, value)),
            }
        } else if same(flag.as_str(), "--seed") {
            match parse_u64(value.as_str()) {
                Some(n) => {
                    self.seed = n;
                },
                None => return Err(bad_value(flag, value)),
            }
        } else if same(flag.as_str(), "--kill-hz") {
            match take_rate(read, i) {
                Some(x) => {
                    self.kill_hz = x;
                },
                None => return Err(bad_value(flag, value)),
            }
        } else if same(flag.as_str(), "--owner-kill-every") {
            match take_duration(read, i) {
                Some(d) => {
                    self.owner_kill_every_ns = Some(d);
                },
                None => return Err(bad_value(flag, value)),
            }
        } else if same(flag.as_str(), "--defer-owner-kills") {
            match parse_usize(value.as_str()) {
                Some(n) => {
                    self.defer_owner_kills = n;
                },
                None => return Err(bad_value(flag, value)),
            }
        } else if same(flag.as_str(), "--victim-ballast-mb") {
            match parse_usize(value.as_str()) {
                Some(n) => {
                    self.victim_ballast_mb = n;
                },
                None => return Err(bad_value(flag, value)),
            }
        } else if same(flag.as_str(), "--stop-owner-ms") {
            match parse_u64(value.as_str()) {
                Some(n) => {
                    self.stop_owner_ms = n;
                },
                None => return Err(bad_value(flag, value)),
            }
        } else {
            let name = site_of(value.as_str());
            if built && !text::among(sites, name.as_str()) {
                return Err(Refusal::NotASite { name, sites: copy_names(sites) });
            }
            self.crash_site = Some(value.clone());
        }
        Ok(())
    }

    fn take_switch(&mut self, flag: &String, built: bool) -> (r: Result<bool, Refusal>)
        ensures
            match r {
                Ok(help) => switched(old(self)@, flag@, built) == Ok::<
                    (ArgsView, bool),
                    RefusalView,
                >((final(self)@, help)),
                Err(e) => switched(old(self)@, flag@, built) == Err::<
                    (ArgsView, bool),
                    RefusalView,
                >(e@),
            },
    {
        if same(flag.as_str(), "--inject-violation") {
            self.inject = true;
        } else if same(flag.as_str(), "--readers-only") {
            self.readers_only = true;
        } else if same(flag.as_str(), "--no-kill-owner") {
            self.owner_kill_every_ns = None;
        } else if same(flag.as_str(), "--no-inherit") {
            self.no_inherit = true;
        } else if same(flag.as_str(), "--crash-points") {
            if !built {
                return Err(Refusal::NotBuilt);
            }
            self.crash_points = true;
        } else if same(flag.as_str(), "-h") || same(flag.as_str(), "--help") {
            return Ok(true);
        } else {
            return Err(Refusal::Unknown(flag.clone()));
        }
        Ok(false)
    }

    fn clashes(&self) -> (r: Option<Refusal>)
        ensures
            match r {
                Some(e) => clash(self@) == Some(e@),
                None => clash(self@) is None,
            },
    {
        if self.children == 0 {
            return Some(Refusal::NoChildren);
        }
        if self.crash_site.is_some() && !self.crash_points {
            return Some(Refusal::SiteWithoutPoints);
        }
        if self.owner_kill_every_ns.is_some() && self.children < CHILDREN_FLOOR {
            return Some(Refusal::TooFewChildren(self.children));
        }
        if self.defer_owner_kills > 0 && self.owner_kill_every_ns.is_none() {
            return Some(Refusal::NothingToDefer(self.defer_owner_kills));
        }
        if !(number::le(SLOWEST, self.kill_hz.bits) && number::le(self.kill_hz.bits, FASTEST)) {
            return Some(Refusal::BadRate(self.kill_hz.plain.clone()));
        }
        None
    }

    /// Reads the arguments, and whether they ask for help. `read` holds each argument as a
    /// duration and as a double, `built` is whether the crash points are compiled in, and
    /// `sites` are those that are.
    pub fn parse(argv: &Vec<String>, read: &Vec<Word>, built: bool, sites: &Vec<String>) -> (r:
        Result<(Args, bool), Refusal>)
        ensures
            match r {
                Ok((a, help)) => asked(texts(argv@), read@, built, texts(sites@)) == Ok::<
                    (ArgsView, bool),
                    RefusalView,
                >((a@, help)),
                Err(e) => asked(texts(argv@), read@, built, texts(sites@)) == Err::<
                    (ArgsView, bool),
                    RefusalView,
                >(e@),
            },
    {
        let ghost words = texts(argv@);
        let ghost names = texts(sites@);
        let mut a = Args {
            duration_ns: 30_000_000_000,
            children: 6,
            seed: 0x7085_1234_ABCD_0001,
            kill_hz: Number::new(FOUR, "4", "4", "4.0", "4.000", "4.00000", "4.0000e0"),
            inject: false,
            readers_only: false,
            crash_points: false,
            owner_kill_every_ns: Some(8_000_000_000),
            no_inherit: false,
            defer_owner_kills: 0,
            crash_site: None,
            victim_ballast_mb: 0,
            stop_owner_ms: 0,
        };
        let mut help = false;
        let mut i: usize = 0;
        while i < argv.len()
            invariant
                i <= argv.len(),
                words == texts(argv@),
                names == texts(sites@),
                read_from(words, read@, built, names, i as int, a@, help) == read_from(
                    words,
                    read@,
                    built,
                    names,
                    0,
                    default_args(),
                    false,
                ),
            decreases argv.len() - i,
        {
            assert(words[i as int] == argv@[i as int]@);
            if wants_value(argv[i].as_str()) {
                if i + 1 >= argv.len() {
                    return Err(Refusal::NeedsValue(argv[i].clone()));
                }
                assert(words[i + 1] == argv@[i + 1]@);
                match a.take_valued(&argv[i], &argv[i + 1], read, i + 1, built, sites) {
                    Ok(()) => {},
                    Err(e) => return Err(e),
                }
                i = i + 2;
            } else {
                match a.take_switch(&argv[i], built) {
                    Ok(h) => {
                        help = help || h;
                    },
                    Err(e) => return Err(e),
                }
                i = i + 1;
            }
        }
        match a.clashes() {
            Some(e) => Err(e),
            None => Ok((a, help)),
        }
    }
}

fn copy_names(v: &Vec<String>) -> (r: Vec<String>)
    ensures
        texts(r@) == texts(v@),
{
    broadcast use lemma_texts_push;

    let ghost all = texts(v@);
    let mut out: Vec<String> = Vec::new();
    let mut i: usize = 0;
    assert(texts(out@) =~= all.take(0));
    while i < v.len()
        invariant
            i <= v@.len(),
            all == texts(v@),
            texts(out@) == all.take(i as int),
        decreases v@.len() - i,
    {
        out.push(v[i].clone());
        assert(all.take(i + 1) =~= all.take(i as int).push(all[i as int]));
        i = i + 1;
    }
    assert(all.take(i as int) =~= all);
    out
}

/// What is printed where help is asked for.
pub const USAGE: [&'static str; 6] = [
    "usage: shm_torture [--duration 30s] [--children 6] [--seed N] [--kill-hz 4] [--owner-kill-every 8s] [--no-kill-owner] [--inject-violation] [--readers-only] [--no-inherit] [--victim-ballast-mb N] [--stop-owner-ms N] [--crash-points] [--crash-site NAME[:nth]]",
    "  the rendezvous owner is a child and is SIGKILLed every --owner-kill-every (PHASE2 §3.5). Each kill must be followed by a fresh process joining the arena again and by a survivor recording an inheritance, or the run fails. --no-inherit is the negative control and is expected to fail.",
    "  --victim-ballast-mb is the POSITIVE control for the kill window: each child holds N MB of dirty memory, which widens the interval between the SIGKILL and the victim's `exit_files` — the interval in which the owner is dead, nothing can inherit yet, and a survivor that detaches cannot rejoin. 512 wedges an unfixed --children 4 run within a few kills on a plain build; ASan reaches the same width by accident at 43-49 MB/child. It is NOT portable: on a host with transparent_hugepage=always the pages are 2 MiB and the window collapses, which is why the regression test uses the flag below instead.",
    "  --defer-owner-kills N is the positive control for the DEFERRAL path: the first N owner-kill attempts defer whatever the population is, as if the fleet held only the role holder. A real deferral needs the attached pool below its floor at the instant the arm fires, which the CLI cannot arrange — --children is refused below the floor, and on an unloaded host a replacement's handshake is over in about a millisecond. Refused with --no-kill-owner.",
    "  --stop-owner-ms is the PORTABLE positive control for the same window: SIGSTOP the owner for N ms before killing it. A stopped owner holds its rendezvous socket open, so nothing can inherit, and it has stopped serving, so nothing can join — the blind window, for as long as you ask, with no dependence on the victim's page size. 300 wedges an unfixed --children 4 run on its FIRST owner kill.",
    "  --crash-points arms PHASE2 §11.3's fault injection in ~10% of children (§11.4). Needs --features crash-points; without it the sites are compiled out and the flag is refused rather than silently arming nothing. --crash-site forces ONE site in EVERY child — a reachability probe, not §11.4's configuration.",
];

// ---------------------------------------------------------------------------
// What the options mean
// ---------------------------------------------------------------------------

proof fn lemma_flags_differ()
    ensures
        "--duration"@ != "--children"@,
        "--duration"@ != "--seed"@,
        "--duration"@ != "--kill-hz"@,
        "--duration"@ != "--owner-kill-every"@,
        "--duration"@ != "--defer-owner-kills"@,
        "--duration"@ != "--victim-ballast-mb"@,
        "--duration"@ != "--stop-owner-ms"@,
        "--duration"@ != "--crash-site"@,
        "--duration"@ != "--inject-violation"@,
        "--duration"@ != "--readers-only"@,
        "--duration"@ != "--no-kill-owner"@,
        "--duration"@ != "--no-inherit"@,
        "--duration"@ != "--crash-points"@,
        "--duration"@ != "-h"@,
        "--duration"@ != "--help"@,
        "--children"@ != "--seed"@,
        "--children"@ != "--kill-hz"@,
        "--children"@ != "--owner-kill-every"@,
        "--children"@ != "--defer-owner-kills"@,
        "--children"@ != "--victim-ballast-mb"@,
        "--children"@ != "--stop-owner-ms"@,
        "--children"@ != "--crash-site"@,
        "--children"@ != "--inject-violation"@,
        "--children"@ != "--readers-only"@,
        "--children"@ != "--no-kill-owner"@,
        "--children"@ != "--no-inherit"@,
        "--children"@ != "--crash-points"@,
        "--children"@ != "-h"@,
        "--children"@ != "--help"@,
        "--seed"@ != "--kill-hz"@,
        "--seed"@ != "--owner-kill-every"@,
        "--seed"@ != "--defer-owner-kills"@,
        "--seed"@ != "--victim-ballast-mb"@,
        "--seed"@ != "--stop-owner-ms"@,
        "--seed"@ != "--crash-site"@,
        "--seed"@ != "--inject-violation"@,
        "--seed"@ != "--readers-only"@,
        "--seed"@ != "--no-kill-owner"@,
        "--seed"@ != "--no-inherit"@,
        "--seed"@ != "--crash-points"@,
        "--seed"@ != "-h"@,
        "--seed"@ != "--help"@,
        "--kill-hz"@ != "--owner-kill-every"@,
        "--kill-hz"@ != "--defer-owner-kills"@,
        "--kill-hz"@ != "--victim-ballast-mb"@,
        "--kill-hz"@ != "--stop-owner-ms"@,
        "--kill-hz"@ != "--crash-site"@,
        "--kill-hz"@ != "--inject-violation"@,
        "--kill-hz"@ != "--readers-only"@,
        "--kill-hz"@ != "--no-kill-owner"@,
        "--kill-hz"@ != "--no-inherit"@,
        "--kill-hz"@ != "--crash-points"@,
        "--kill-hz"@ != "-h"@,
        "--kill-hz"@ != "--help"@,
        "--owner-kill-every"@ != "--defer-owner-kills"@,
        "--owner-kill-every"@ != "--victim-ballast-mb"@,
        "--owner-kill-every"@ != "--stop-owner-ms"@,
        "--owner-kill-every"@ != "--crash-site"@,
        "--owner-kill-every"@ != "--inject-violation"@,
        "--owner-kill-every"@ != "--readers-only"@,
        "--owner-kill-every"@ != "--no-kill-owner"@,
        "--owner-kill-every"@ != "--no-inherit"@,
        "--owner-kill-every"@ != "--crash-points"@,
        "--owner-kill-every"@ != "-h"@,
        "--owner-kill-every"@ != "--help"@,
        "--defer-owner-kills"@ != "--victim-ballast-mb"@,
        "--defer-owner-kills"@ != "--stop-owner-ms"@,
        "--defer-owner-kills"@ != "--crash-site"@,
        "--defer-owner-kills"@ != "--inject-violation"@,
        "--defer-owner-kills"@ != "--readers-only"@,
        "--defer-owner-kills"@ != "--no-kill-owner"@,
        "--defer-owner-kills"@ != "--no-inherit"@,
        "--defer-owner-kills"@ != "--crash-points"@,
        "--defer-owner-kills"@ != "-h"@,
        "--defer-owner-kills"@ != "--help"@,
        "--victim-ballast-mb"@ != "--stop-owner-ms"@,
        "--victim-ballast-mb"@ != "--crash-site"@,
        "--victim-ballast-mb"@ != "--inject-violation"@,
        "--victim-ballast-mb"@ != "--readers-only"@,
        "--victim-ballast-mb"@ != "--no-kill-owner"@,
        "--victim-ballast-mb"@ != "--no-inherit"@,
        "--victim-ballast-mb"@ != "--crash-points"@,
        "--victim-ballast-mb"@ != "-h"@,
        "--victim-ballast-mb"@ != "--help"@,
        "--stop-owner-ms"@ != "--crash-site"@,
        "--stop-owner-ms"@ != "--inject-violation"@,
        "--stop-owner-ms"@ != "--readers-only"@,
        "--stop-owner-ms"@ != "--no-kill-owner"@,
        "--stop-owner-ms"@ != "--no-inherit"@,
        "--stop-owner-ms"@ != "--crash-points"@,
        "--stop-owner-ms"@ != "-h"@,
        "--stop-owner-ms"@ != "--help"@,
        "--crash-site"@ != "--inject-violation"@,
        "--crash-site"@ != "--readers-only"@,
        "--crash-site"@ != "--no-kill-owner"@,
        "--crash-site"@ != "--no-inherit"@,
        "--crash-site"@ != "--crash-points"@,
        "--crash-site"@ != "-h"@,
        "--crash-site"@ != "--help"@,
        "--inject-violation"@ != "--readers-only"@,
        "--inject-violation"@ != "--no-kill-owner"@,
        "--inject-violation"@ != "--no-inherit"@,
        "--inject-violation"@ != "--crash-points"@,
        "--inject-violation"@ != "-h"@,
        "--inject-violation"@ != "--help"@,
        "--readers-only"@ != "--no-kill-owner"@,
        "--readers-only"@ != "--no-inherit"@,
        "--readers-only"@ != "--crash-points"@,
        "--readers-only"@ != "-h"@,
        "--readers-only"@ != "--help"@,
        "--no-kill-owner"@ != "--no-inherit"@,
        "--no-kill-owner"@ != "--crash-points"@,
        "--no-kill-owner"@ != "-h"@,
        "--no-kill-owner"@ != "--help"@,
        "--no-inherit"@ != "--crash-points"@,
        "--no-inherit"@ != "-h"@,
        "--no-inherit"@ != "--help"@,
        "--crash-points"@ != "-h"@,
        "--crash-points"@ != "--help"@,
        "-h"@ != "--help"@,
{
    reveal_strlit("--duration");
    reveal_strlit("--children");
    reveal_strlit("--seed");
    reveal_strlit("--kill-hz");
    reveal_strlit("--owner-kill-every");
    reveal_strlit("--defer-owner-kills");
    reveal_strlit("--victim-ballast-mb");
    reveal_strlit("--stop-owner-ms");
    reveal_strlit("--crash-site");
    reveal_strlit("--inject-violation");
    reveal_strlit("--readers-only");
    reveal_strlit("--no-kill-owner");
    reveal_strlit("--no-inherit");
    reveal_strlit("--crash-points");
    reveal_strlit("-h");
    reveal_strlit("--help");
    assert("--duration"@.len() == 10);
    assert("--duration"@[2] == 'd');
    assert("--children"@.len() == 10);
    assert("--children"@[2] == 'c');
    assert("--seed"@.len() == 6);
    assert("--seed"@[2] == 's');
    assert("--kill-hz"@.len() == 9);
    assert("--kill-hz"@[2] == 'k');
    assert("--owner-kill-every"@.len() == 18);
    assert("--owner-kill-every"@[2] == 'o');
    assert("--defer-owner-kills"@.len() == 19);
    assert("--defer-owner-kills"@[2] == 'd');
    assert("--victim-ballast-mb"@.len() == 19);
    assert("--victim-ballast-mb"@[2] == 'v');
    assert("--stop-owner-ms"@.len() == 15);
    assert("--stop-owner-ms"@[2] == 's');
    assert("--crash-site"@.len() == 12);
    assert("--crash-site"@[2] == 'c');
    assert("--inject-violation"@.len() == 18);
    assert("--inject-violation"@[2] == 'i');
    assert("--readers-only"@.len() == 14);
    assert("--readers-only"@[2] == 'r');
    assert("--no-kill-owner"@.len() == 15);
    assert("--no-kill-owner"@[2] == 'n');
    assert("--no-inherit"@.len() == 12);
    assert("--no-inherit"@[2] == 'n');
    assert("--crash-points"@.len() == 14);
    assert("--crash-points"@[2] == 'c');
    assert("-h"@.len() == 2);
    assert("--help"@.len() == 6);
    assert("--help"@[2] == 'h');
}

/// An option that takes a value sets what it is named after, to its value as it reads, and
/// nothing else; and one whose value does not read is refused, with the value.
pub proof fn law_an_option_sets_what_it_names(
    argv: Seq<Seq<char>>,
    read: Seq<Word>,
    built: bool,
    sites: Seq<Seq<char>>,
    i: int,
    a: ArgsView,
    help: bool,
)
    requires
        0 <= i < argv.len() - 1,
    ensures
        argv[i] == "--duration"@ ==> (match duration_at(read, i + 1) {
            Some(d) => read_from(argv, read, built, sites, i, a, help) == read_from(
                argv,
                read,
                built,
                sites,
                i + 2,
                ArgsView { duration_ns: d, ..a },
                help,
            ),
            None => read_from(argv, read, built, sites, i, a, help) == Err::<
                (ArgsView, bool),
                RefusalView,
            >(RefusalView::BadValue { flag: argv[i], value: argv[i + 1] }),
        }),
        argv[i] == "--children"@ ==> (match read_usize(argv[i + 1]) {
            Some(n) => read_from(argv, read, built, sites, i, a, help) == read_from(
                argv,
                read,
                built,
                sites,
                i + 2,
                ArgsView { children: n, ..a },
                help,
            ),
            None => read_from(argv, read, built, sites, i, a, help) == Err::<
                (ArgsView, bool),
                RefusalView,
            >(RefusalView::BadValue { flag: argv[i], value: argv[i + 1] }),
        }),
        argv[i] == "--seed"@ ==> (match read_u64(argv[i + 1]) {
            Some(n) => read_from(argv, read, built, sites, i, a, help) == read_from(
                argv,
                read,
                built,
                sites,
                i + 2,
                ArgsView { seed: n, ..a },
                help,
            ),
            None => read_from(argv, read, built, sites, i, a, help) == Err::<
                (ArgsView, bool),
                RefusalView,
            >(RefusalView::BadValue { flag: argv[i], value: argv[i + 1] }),
        }),
        argv[i] == "--kill-hz"@ ==> (match rate_at(read, i + 1) {
            Some(x) => read_from(argv, read, built, sites, i, a, help) == read_from(
                argv,
                read,
                built,
                sites,
                i + 2,
                ArgsView { kill_hz: x, ..a },
                help,
            ),
            None => read_from(argv, read, built, sites, i, a, help) == Err::<
                (ArgsView, bool),
                RefusalView,
            >(RefusalView::BadValue { flag: argv[i], value: argv[i + 1] }),
        }),
        argv[i] == "--owner-kill-every"@ ==> (match duration_at(read, i + 1) {
            Some(d) => read_from(argv, read, built, sites, i, a, help) == read_from(
                argv,
                read,
                built,
                sites,
                i + 2,
                ArgsView { owner_kill_every_ns: Some(d), ..a },
                help,
            ),
            None => read_from(argv, read, built, sites, i, a, help) == Err::<
                (ArgsView, bool),
                RefusalView,
            >(RefusalView::BadValue { flag: argv[i], value: argv[i + 1] }),
        }),
        argv[i] == "--defer-owner-kills"@ ==> (match read_usize(argv[i + 1]) {
            Some(n) => read_from(argv, read, built, sites, i, a, help) == read_from(
                argv,
                read,
                built,
                sites,
                i + 2,
                ArgsView { defer_owner_kills: n, ..a },
                help,
            ),
            None => read_from(argv, read, built, sites, i, a, help) == Err::<
                (ArgsView, bool),
                RefusalView,
            >(RefusalView::BadValue { flag: argv[i], value: argv[i + 1] }),
        }),
        argv[i] == "--victim-ballast-mb"@ ==> (match read_usize(argv[i + 1]) {
            Some(n) => read_from(argv, read, built, sites, i, a, help) == read_from(
                argv,
                read,
                built,
                sites,
                i + 2,
                ArgsView { victim_ballast_mb: n, ..a },
                help,
            ),
            None => read_from(argv, read, built, sites, i, a, help) == Err::<
                (ArgsView, bool),
                RefusalView,
            >(RefusalView::BadValue { flag: argv[i], value: argv[i + 1] }),
        }),
        argv[i] == "--stop-owner-ms"@ ==> (match read_u64(argv[i + 1]) {
            Some(n) => read_from(argv, read, built, sites, i, a, help) == read_from(
                argv,
                read,
                built,
                sites,
                i + 2,
                ArgsView { stop_owner_ms: n, ..a },
                help,
            ),
            None => read_from(argv, read, built, sites, i, a, help) == Err::<
                (ArgsView, bool),
                RefusalView,
            >(RefusalView::BadValue { flag: argv[i], value: argv[i + 1] }),
        }),
        argv[i] == "--crash-site"@ && (!built || sites.contains(site(argv[i + 1]))) ==> read_from(
            argv,
            read,
            built,
            sites,
            i,
            a,
            help,
        ) == read_from(
            argv,
            read,
            built,
            sites,
            i + 2,
            ArgsView { crash_site: Some(argv[i + 1]), ..a },
            help,
        ),
        argv[i] == "--crash-site"@ && built && !sites.contains(site(argv[i + 1])) ==> read_from(
            argv,
            read,
            built,
            sites,
            i,
            a,
            help,
        ) == Err::<(ArgsView, bool), RefusalView>(
            RefusalView::NotASite { name: site(argv[i + 1]), sites },
        ),
{
    lemma_flags_differ();
}

/// A switch sets what it is named after and nothing else; crash points can be asked for only
/// where they are built in; and whatever is no option is refused.
pub proof fn law_a_switch_sets_what_it_names(
    argv: Seq<Seq<char>>,
    read: Seq<Word>,
    built: bool,
    sites: Seq<Seq<char>>,
    i: int,
    a: ArgsView,
    help: bool,
)
    requires
        0 <= i < argv.len(),
    ensures
        argv[i] == "--inject-violation"@ ==> read_from(argv, read, built, sites, i, a, help) == read_from(
            argv,
            read,
            built,
            sites,
            i + 1,
            ArgsView { inject: true, ..a },
            help,
        ),
        argv[i] == "--readers-only"@ ==> read_from(argv, read, built, sites, i, a, help) == read_from(
            argv,
            read,
            built,
            sites,
            i + 1,
            ArgsView { readers_only: true, ..a },
            help,
        ),
        argv[i] == "--no-kill-owner"@ ==> read_from(argv, read, built, sites, i, a, help) == read_from(
            argv,
            read,
            built,
            sites,
            i + 1,
            ArgsView { owner_kill_every_ns: None, ..a },
            help,
        ),
        argv[i] == "--no-inherit"@ ==> read_from(argv, read, built, sites, i, a, help) == read_from(
            argv,
            read,
            built,
            sites,
            i + 1,
            ArgsView { no_inherit: true, ..a },
            help,
        ),
        argv[i] == "--crash-points"@ && built ==> read_from(argv, read, built, sites, i, a, help) == read_from(
            argv,
            read,
            built,
            sites,
            i + 1,
            ArgsView { crash_points: true, ..a },
            help,
        ),
        argv[i] == "--crash-points"@ && !built ==> read_from(argv, read, built, sites, i, a, help)
            == Err::<(ArgsView, bool), RefusalView>(RefusalView::NotBuilt),
        argv[i] == "-h"@ || argv[i] == "--help"@ ==> read_from(argv, read, built, sites, i, a, help)
            == read_from(argv, read, built, sites, i + 1, a, true),
        (!takes_value(argv[i]) && argv[i] != "--inject-violation"@ && argv[i] != "--readers-only"@
            && argv[i] != "--no-kill-owner"@ && argv[i] != "--no-inherit"@ && argv[i]
            != "--crash-points"@ && argv[i] != "-h"@ && argv[i] != "--help"@) ==> read_from(
            argv,
            read,
            built,
            sites,
            i,
            a,
            help,
        ) == Err::<(ArgsView, bool), RefusalView>(RefusalView::Unknown(argv[i])),
        takes_value(argv[i]) && i + 1 == argv.len() ==> read_from(
            argv,
            read,
            built,
            sites,
            i,
            a,
            help,
        ) == Err::<(ArgsView, bool), RefusalView>(RefusalView::NeedsValue(argv[i])),
        takes_value(argv[i]) <==> {
            ||| argv[i] == "--duration"@
            ||| argv[i] == "--children"@
            ||| argv[i] == "--seed"@
            ||| argv[i] == "--kill-hz"@
            ||| argv[i] == "--owner-kill-every"@
            ||| argv[i] == "--defer-owner-kills"@
            ||| argv[i] == "--victim-ballast-mb"@
            ||| argv[i] == "--stop-owner-ms"@
            ||| argv[i] == "--crash-site"@
        },
{
    lemma_flags_differ();
}

/// A run can be made exactly where there is somebody to run, a crash site only with crash
/// points, owner kills only among four or more, deferred ones only where there are any, and
/// between one kill in ten seconds and a hundred in one.
pub proof fn law_when_options_clash(a: ArgsView)
    ensures
        clash(a) is None <==> {
            &&& a.children >= 1
            &&& a.crash_site is Some ==> a.crash_points
            &&& a.owner_kill_every_ns is Some ==> a.children >= 4
            &&& a.defer_owner_kills > 0 ==> a.owner_kill_every_ns is Some
            &&& at_most(0x3fb9_9999_9999_999a, a.kill_hz.bits)
            &&& at_most(a.kill_hz.bits, 0x4059_0000_0000_0000)
        },
        clash(a) matches Some(e) ==> match e {
            RefusalView::NoChildren => a.children == 0,
            RefusalView::SiteWithoutPoints => a.crash_site is Some && !a.crash_points,
            RefusalView::TooFewChildren(n) => n == a.children && n < 4
                && a.owner_kill_every_ns is Some,
            RefusalView::NothingToDefer(n) => n == a.defer_owner_kills && n > 0
                && a.owner_kill_every_ns is None,
            RefusalView::BadRate(s) => s == a.kill_hz.plain && !(at_most(
                0x3fb9_9999_9999_999a,
                a.kill_hz.bits,
            ) && at_most(a.kill_hz.bits, 0x4059_0000_0000_0000)),
            _ => false,
        },
        a.children == 0 ==> clash(a) == Some(RefusalView::NoChildren),
{
}

/// Without options a run lasts half a minute with six children, kills four of them in a second
/// and the owner every eight seconds.
pub proof fn law_a_run_without_options(read: Seq<Word>, built: bool, sites: Seq<Seq<char>>)
    ensures
        read_from(seq![], read, built, sites, 0, default_args(), false) == Ok::<
            (ArgsView, bool),
            RefusalView,
        >((default_args(), false)),
        ({
            let a = default_args();
            &&& a.duration_ns == 30_000_000_000
            &&& a.children == 6
            &&& a.kill_hz.bits == 0x4010_0000_0000_0000
            &&& a.owner_kill_every_ns == Some(8_000_000_000u128)
            &&& a.defer_owner_kills == 0
            &&& a.victim_ballast_mb == 0
            &&& a.stop_owner_ms == 0
            &&& a.crash_site is None
            &&& !a.inject && !a.readers_only && !a.crash_points && !a.no_inherit
        }),
{
}

/// A duration is a number and its unit: milliseconds, seconds, minutes or hours, and seconds
/// where there is none.
pub proof fn law_units_of_a_duration(n: Seq<char>)
    ensures
        duration_of(n.push('m').push('s')) == (n, Unit::Millis),
        n.len() == 0 || n.last() != 'm' ==> duration_of(n.push('s')) == (n, Unit::Seconds(1)),
        duration_of(n.push('m')) == (n, Unit::Seconds(60)),
        duration_of(n.push('h')) == (n, Unit::Seconds(3600)),
        n.len() == 0 || (n.last() != 's' && n.last() != 'm' && n.last() != 'h') ==> duration_of(n)
            == (n, Unit::Seconds(1)),
{
    let k = n.len() as int;
    assert(n.push('m').push('s').take(k) =~= n);
    assert(n.push('s').take(k) =~= n);
    assert(n.push('m').take(k) =~= n);
    assert(n.push('h').take(k) =~= n);
}

/// What is said where there are too few children, with each number behind the words for it.
pub proof fn law_too_few_children_are_told(
    children: u64,
    floor: u64,
    least: u64,
)
    ensures
        ({
            let said = too_few_children(children, floor, least);
            &&& begins(said, "--children "@ + digits(children as nat))
            &&& holds(said, " with the owner-kill arm on cannot sustain the workload: the owner is a child, so a kill has to leave both a survivor eligible to inherit and an attached pool at or above MIN_ATTACHED_FOR_ORDINARY_KILL ("@ + digits(floor as nat))
            &&& holds(said, "), below which the ordinary victim draw stops. At this setting §3.5 would be untestable and the run would fail at its `kills == 0` floor after burning the whole duration, for a reason that says nothing about the arena. Use --children "@ + digits(least as nat))
        }),
{
    let doc = too_few_children(children, floor, least);
    let a0 = ("--children "@ + digits(children as nat));
    let a1 = a0 + (" with the owner-kill arm on cannot sustain the workload: the owner is a child, so a kill has to leave both a survivor eligible to inherit and an attached pool at or above MIN_ATTACHED_FOR_ORDINARY_KILL ("@ + digits(floor as nat));
    let a2 = a1 + ("), below which the ordinary victim draw stops. At this setting §3.5 would be untestable and the run would fail at its `kills == 0` floor after burning the whole duration, for a reason that says nothing about the arena. Use --children "@ + digits(least as nat));
    let a3 = a2 + " or more, or --no-kill-owner."@;
    assert(doc =~= a3);
    assert(doc.take(a3.len() as int) =~= a3);
    lemma_end_of_a_beginning(doc, a2, " or more, or --no-kill-owner."@);
    lemma_end_of_a_beginning(doc, a1, ("), below which the ordinary victim draw stops. At this setting §3.5 would be untestable and the run would fail at its `kills == 0` floor after burning the whole duration, for a reason that says nothing about the arena. Use --children "@ + digits(least as nat)));
    lemma_end_of_a_beginning(doc, a0, (" with the owner-kill arm on cannot sustain the workload: the owner is a child, so a kill has to leave both a survivor eligible to inherit and an attached pool at or above MIN_ATTACHED_FOR_ORDINARY_KILL ("@ + digits(floor as nat)));
}

/// A site that there is not is told with those that there are.
pub proof fn law_an_unknown_site_is_told(
    name: Seq<char>,
    sites: Seq<char>,
)
    ensures
        ({
            let said = not_a_site(name, sites);
            &&& begins(said, "`"@ + name)
            &&& holds(said, "` is not a §11.3 crash site. The build carries: "@ + sites)
        }),
{
    let doc = not_a_site(name, sites);
    let a0 = ("`"@ + name);
    let a1 = a0 + ("` is not a §11.3 crash site. The build carries: "@ + sites);
    assert(doc =~= a1);
    assert(doc.take(a1.len() as int) =~= a1);
    lemma_end_of_a_beginning(doc, a0, ("` is not a §11.3 crash site. The build carries: "@ + sites));
}

} // verus!
