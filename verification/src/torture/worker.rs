//! One worker: what it does to the arena, when it leaves, and what it must never see.

use vstd::prelude::*;

use super::population::{is_pid, slots_text, seen_list, SlotSeen};
use super::{MAX_OWNER_CAP_EXTENSIONS, OPS_PER_ATTACHMENT};
use crate::number::{self, finite, less, not_a_number, SIGN};
use crate::replay::{quoted, quoted_text, Pose};
use crate::report::text_of;
use crate::rng::{shifted, Xorshift64};
use crate::scaling::{parse_usize, read_usize};
use crate::stats::NAN;
use crate::text::{
    self, begins, decimal, digits, holds, lemma_end_of_a_beginning, parse_u64, read_u64, same, texts,
};

verus! {

// ---------------------------------------------------------------------------
// Arguments
// ---------------------------------------------------------------------------

/// What a child is started as.
pub enum Child {
    /// The one that creates the arena and serves it.
    Owner,
    Worker(WorkerArgs),
}

#[derive(Debug, Clone, Copy, PartialEq, Eq, Structural)]
pub struct WorkerArgs {
    pub seed: u64,
    pub inject: bool,
    pub readers_only: bool,
    pub no_inherit: bool,
    pub ballast_mb: usize,
}

/// Why a child does not start.
pub enum ChildError {
    NeedsValue(String),
    /// A value that is not a number: its flag, and the value.
    BadValue(String, String),
    UnknownRole(Option<String>),
    Unknown(String),
}

pub enum ChildErrorView {
    NeedsValue(Seq<char>),
    BadValue(Seq<char>, Seq<char>),
    UnknownRole(Option<Seq<char>>),
    Unknown(Seq<char>),
}

impl View for ChildError {
    type V = ChildErrorView;

    open spec fn view(&self) -> ChildErrorView {
        match *self {
            ChildError::NeedsValue(s) => ChildErrorView::NeedsValue(s@),
            ChildError::BadValue(s, v) => ChildErrorView::BadValue(s@, v@),
            ChildError::UnknownRole(s) => ChildErrorView::UnknownRole(text_of(s)),
            ChildError::Unknown(s) => ChildErrorView::Unknown(s@),
        }
    }
}

impl ChildErrorView {
    pub open spec fn message(self) -> Seq<char> {
        match self {
            ChildErrorView::NeedsValue(s) => s + " needs a value"@,
            ChildErrorView::BadValue(s, _) => s,
            ChildErrorView::UnknownRole(s) => "child: unknown --role `"@ + (match s {
                Some(r) => "Some("@ + quoted_text(r) + ")"@,
                None => "None"@,
            }) + "`"@,
            ChildErrorView::Unknown(s) => "child: unknown argument `"@ + s + "`"@,
        }
    }
}

impl ChildError {
    /// What is said of it.
    pub fn message(&self) -> (r: String)
        ensures
            r@ == self@.message(),
    {
        match self {
            ChildError::NeedsValue(s) => {
                let mut t = s.clone();
                t.append(" needs a value");
                t
            },
            ChildError::BadValue(s, _) => s.clone(),
            ChildError::UnknownRole(s) => {
                let mut role = "None".to_owned();
                match s {
                    Some(r) => {
                        role = "Some(".to_owned();
                        role.append(quoted(r.as_str()).as_str());
                        role.append(")");
                    },
                    None => {},
                }
                let mut t = "child: unknown --role `".to_owned();
                t.append(role.as_str());
                t.append("`");
                t
            },
            ChildError::Unknown(s) => {
                let mut t = "child: unknown argument `".to_owned();
                t.append(s.as_str());
                t.append("`");
                t
            },
        }
    }
}

pub open spec fn default_worker() -> WorkerArgs {
    WorkerArgs { seed: 1, inject: false, readers_only: false, no_inherit: false, ballast_mb: 0 }
}

/// What the arguments from the `i`-th on come to: an owner, a worker, or an error.
pub open spec fn read_from(argv: Seq<Seq<char>>, i: int, a: WorkerArgs) -> Result<
    Child,
    ChildErrorView,
>
    decreases argv.len() - i,
{
    if i >= argv.len() {
        Ok(Child::Worker(a))
    } else if argv[i] == "--seed"@ {
        if i + 1 >= argv.len() {
            Err(ChildErrorView::NeedsValue(argv[i]))
        } else {
            match read_u64(argv[i + 1]) {
                Some(n) => read_from(argv, i + 2, WorkerArgs { seed: n, ..a }),
                None => Err(ChildErrorView::BadValue(argv[i], argv[i + 1])),
            }
        }
    } else if argv[i] == "--role"@ {
        if i + 1 < argv.len() && argv[i + 1] == "owner"@ {
            Ok(Child::Owner)
        } else {
            Err(
                ChildErrorView::UnknownRole(
                    if i + 1 < argv.len() {
                        Some(argv[i + 1])
                    } else {
                        None
                    },
                ),
            )
        }
    } else if argv[i] == "--inject-violation"@ {
        read_from(argv, i + 1, WorkerArgs { inject: true, ..a })
    } else if argv[i] == "--readers-only"@ {
        read_from(argv, i + 1, WorkerArgs { readers_only: true, ..a })
    } else if argv[i] == "--no-inherit"@ {
        read_from(argv, i + 1, WorkerArgs { no_inherit: true, ..a })
    } else if argv[i] == "--ballast-mb"@ {
        if i + 1 >= argv.len() {
            Err(ChildErrorView::NeedsValue(argv[i]))
        } else {
            match read_usize(argv[i + 1]) {
                Some(n) => read_from(argv, i + 2, WorkerArgs { ballast_mb: n, ..a }),
                None => Err(ChildErrorView::BadValue(argv[i], argv[i + 1])),
            }
        }
    } else {
        Err(ChildErrorView::Unknown(argv[i]))
    }
}

/// Reads the arguments of a child, behind the word that makes it one.
pub fn parse_child(argv: &Vec<String>) -> (r: Result<Child, ChildError>)
    ensures
        match r {
            Ok(c) => read_from(texts(argv@), 0, default_worker()) == Ok::<Child, ChildErrorView>(c),
            Err(e) => read_from(texts(argv@), 0, default_worker()) == Err::<
                Child,
                ChildErrorView,
            >(e@),
        },
{
    let ghost words = texts(argv@);
    let mut a = WorkerArgs {
        seed: 1,
        inject: false,
        readers_only: false,
        no_inherit: false,
        ballast_mb: 0,
    };
    let mut i: usize = 0;
    while i < argv.len()
        invariant
            i <= argv.len(),
            words == texts(argv@),
            read_from(words, i as int, a) == read_from(words, 0, default_worker()),
        decreases argv.len() - i,
    {
        assert(words[i as int] == argv@[i as int]@);
        let word = argv[i].as_str();
        let seeds = same(word, "--seed");
        if !seeds && same(word, "--role") {
            if i + 1 >= argv.len() {
                return Err(ChildError::UnknownRole(None));
            }
            assert(words[i + 1] == argv@[i + 1]@);
            if same(argv[i + 1].as_str(), "owner") {
                return Ok(Child::Owner);
            }
            return Err(ChildError::UnknownRole(Some(argv[i + 1].clone())));
        }
        if !seeds && same(word, "--inject-violation") {
            a.inject = true;
            i = i + 1;
        } else if !seeds && same(word, "--readers-only") {
            a.readers_only = true;
            i = i + 1;
        } else if !seeds && same(word, "--no-inherit") {
            a.no_inherit = true;
            i = i + 1;
        } else if seeds || same(word, "--ballast-mb") {
            if i + 1 >= argv.len() {
                return Err(ChildError::NeedsValue(argv[i].clone()));
            }
            assert(words[i + 1] == argv@[i + 1]@);
            if seeds {
                match parse_u64(argv[i + 1].as_str()) {
                    Some(n) => {
                        a.seed = n;
                    },
                    None => {
                        return Err(ChildError::BadValue(argv[i].clone(), argv[i + 1].clone()));
                    },
                }
            } else {
                match parse_usize(argv[i + 1].as_str()) {
                    Some(n) => {
                        a.ballast_mb = n;
                    },
                    None => {
                        return Err(ChildError::BadValue(argv[i].clone(), argv[i + 1].clone()));
                    },
                }
            }
            i = i + 2;
        } else {
            return Err(ChildError::Unknown(argv[i].clone()));
        }
    }
    Ok(Child::Worker(a))
}

// ---------------------------------------------------------------------------
// Operations
// ---------------------------------------------------------------------------

/// What a worker does next.
#[derive(Debug, Clone, Copy, PartialEq, Eq, Structural)]
pub enum Op {
    /// Claim an edge, where it holds none.
    Claim,
    /// Release it.
    Release,
    /// Reclaim the claims of dead writers.
    ReapDead,
    /// Reclaim the records of dead participants.
    ReapParticipants,
    /// Leave and join again.
    Detach,
    Publish,
    Read,
}

/// What a roll below a hundred means.
pub open spec fn op_for(roll: u64) -> Op {
    if roll < 10 {
        Op::Claim
    } else if roll < 15 {
        Op::Release
    } else if roll < 17 {
        Op::ReapDead
    } else if roll < 18 {
        Op::ReapParticipants
    } else if roll < 20 {
        Op::Detach
    } else if roll < 60 {
        Op::Publish
    } else {
        Op::Read
    }
}

/// Rolls for the next operation.
pub fn roll(rng: &mut Xorshift64) -> (r: Op)
    ensures
        r == op_for(shifted(old(rng).state) % 100),
        final(rng).state == shifted(old(rng).state),
{
    let n: u64 = rng.below(100);
    if n < 10 {
        Op::Claim
    } else if n < 15 {
        Op::Release
    } else if n < 17 {
        Op::ReapDead
    } else if n < 18 {
        Op::ReapParticipants
    } else if n < 20 {
        Op::Detach
    } else if n < 60 {
        Op::Publish
    } else {
        Op::Read
    }
}

/// What an operation comes to.
#[derive(Debug, Clone, Copy, PartialEq, Eq, Structural)]
pub enum Act {
    Nothing,
    Claim,
    Release,
    ReapDead,
    ReapParticipants,
    AskToLeave,
    Publish,
    Read,
}

/// What an operation comes to for a worker that holds an edge or none: it claims where it
/// holds none and is no mere reader, and publishes where it holds one.
pub open spec fn act_for(op: Op, holding: bool, readers_only: bool) -> Act {
    match op {
        Op::Claim => if !holding && !readers_only {
            Act::Claim
        } else {
            Act::Nothing
        },
        Op::Release => Act::Release,
        Op::ReapDead => Act::ReapDead,
        Op::ReapParticipants => Act::ReapParticipants,
        Op::Detach => Act::AskToLeave,
        Op::Publish => if holding {
            Act::Publish
        } else {
            Act::Nothing
        },
        Op::Read => Act::Read,
    }
}

/// What an operation comes to.
pub fn act(op: Op, holding: bool, readers_only: bool) -> (r: Act)
    ensures
        r == act_for(op, holding, readers_only),
{
    match op {
        Op::Claim => if !holding && !readers_only {
            Act::Claim
        } else {
            Act::Nothing
        },
        Op::Release => Act::Release,
        Op::ReapDead => Act::ReapDead,
        Op::ReapParticipants => Act::ReapParticipants,
        Op::Detach => Act::AskToLeave,
        Op::Publish => if holding {
            Act::Publish
        } else {
            Act::Nothing
        },
        Op::Read => Act::Read,
    }
}

/// Whether a worker holds an edge after so many operations, where `granted` says of each
/// whether the arena would grant a claim, and `revoked` whether it would refuse a push.
pub open spec fn holding_after(
    ops: Seq<Op>,
    granted: Seq<bool>,
    revoked: Seq<bool>,
    readers_only: bool,
    n: nat,
) -> bool
    decreases n,
{
    if n == 0 {
        false
    } else {
        let holding = holding_after(ops, granted, revoked, readers_only, (n - 1) as nat);
        match act_for(ops[n - 1], holding, readers_only) {
            Act::Claim => granted[n - 1],
            Act::Release => false,
            Act::Publish => !revoked[n - 1],
            _ => holding,
        }
    }
}

/// A mere reader never publishes, whatever it rolls.
pub proof fn law_a_reader_never_publishes(
    ops: Seq<Op>,
    granted: Seq<bool>,
    revoked: Seq<bool>,
    n: nat,
)
    ensures
        !holding_after(ops, granted, revoked, true, n),
        act_for(ops[n as int], holding_after(ops, granted, revoked, true, n), true) !is Publish,
    decreases n,
{
    if n > 0 {
        law_a_reader_never_publishes(ops, granted, revoked, (n - 1) as nat);
    }
}

/// How long a worker waits before its next operation, in microseconds.
pub fn pace_us(rng: &mut Xorshift64) -> (r: u64)
    ensures
        r == 200 + shifted(old(rng).state) % 1600,
        final(rng).state == shifted(old(rng).state),
        200 <= r < 1800,
{
    200 + rng.below(1600)
}

/// How long a worker waits before it tries to join again, in milliseconds.
pub fn backoff_ms(rng: &mut Xorshift64) -> (r: u64)
    ensures
        r == 10 + shifted(old(rng).state) % 40,
        final(rng).state == shifted(old(rng).state),
        10 <= r < 50,
{
    10 + rng.below(40)
}

/// Whether a worker leaves.
#[derive(Debug, Clone, Copy, PartialEq, Eq, Structural)]
pub enum Leave {
    /// No: it serves the rendezvous, and its leaving would be an owner death that nothing
    /// observes.
    Serving,
    /// No: an owner kill is in flight, and leaving could not be undone.
    KillInFlight,
    Yes,
}

/// Whether a worker that rolled a detach leaves. The owner kill is asked for last.
pub fn may_leave(marker: Option<u32>, me: u32, kill_in_flight: bool) -> (r: Leave)
    ensures
        r == (if marker == Some(me) {
            Leave::Serving
        } else if kill_in_flight {
            Leave::KillInFlight
        } else {
            Leave::Yes
        }),
{
    if is_pid(marker, me) {
        Leave::Serving
    } else if kill_in_flight {
        Leave::KillInFlight
    } else {
        Leave::Yes
    }
}

/// The operations that an attachment has left. The cap is extended while its process serves
/// the rendezvous, so often and no more, and held back while an owner kill is in flight:
/// leaving then is what a detach would be.
#[derive(Debug, Clone, Copy, PartialEq, Eq, Structural)]
pub struct Cap {
    pub ops_left: u32,
    pub extensions: u32,
    /// Whether it is held back now, so that this is recorded once.
    pub held: bool,
    /// How many operations were granted while it was held back.
    pub rechecks: u32,
}

/// The cap after one operation is taken from it, with the process serving the rendezvous
/// or not and an owner kill in flight or not.
pub open spec fn after_op(c: Cap, serving: bool, kill_in_flight: bool) -> Cap {
    let left = (c.ops_left - 1) as u32;
    if left == 0 && c.extensions < MAX_OWNER_CAP_EXTENSIONS && serving {
        Cap { ops_left: OPS_PER_ATTACHMENT, extensions: (c.extensions + 1) as u32, ..c }
    } else if left == 0 && kill_in_flight {
        Cap { ops_left: 1, held: true, rechecks: (c.rechecks + 1) as u32, ..c }
    } else if left > 0 {
        Cap { ops_left: left, held: false, ..c }
    } else {
        Cap { ops_left: 0, ..c }
    }
}

impl Cap {
    pub fn new() -> (r: Cap)
        ensures
            r == (Cap { ops_left: OPS_PER_ATTACHMENT, extensions: 0, held: false, rechecks: 0 }),
    {
        Cap { ops_left: OPS_PER_ATTACHMENT, extensions: 0, held: false, rechecks: 0 }
    }

    /// Takes an operation. Says whether a departure was held back that was not before.
    pub fn take(&mut self, serving: bool, kill_in_flight: bool) -> (r: bool)
        requires
            old(self).ops_left > 0,
            old(self).rechecks < u32::MAX,
            old(self).extensions <= MAX_OWNER_CAP_EXTENSIONS,
        ensures
            *final(self) == after_op(*old(self), serving, kill_in_flight),
            r == (final(self).rechecks > old(self).rechecks && !old(self).held),
            final(self).extensions <= MAX_OWNER_CAP_EXTENSIONS,
    {
        self.ops_left = self.ops_left - 1;
        if self.ops_left == 0 && self.extensions < MAX_OWNER_CAP_EXTENSIONS && serving {
            self.extensions = self.extensions + 1;
            self.ops_left = OPS_PER_ATTACHMENT;
            return false;
        }
        if self.ops_left == 0 && kill_in_flight {
            let fresh = !self.held;
            self.held = true;
            self.ops_left = 1;
            self.rechecks = self.rechecks + 1;
            return fresh;
        }
        if self.ops_left > 0 {
            self.held = false;
        }
        false
    }

    /// How many operations the attachment performed when its cap is spent.
    pub fn performed(&self) -> (r: u64)
        ensures
            r == OPS_PER_ATTACHMENT * (1 + self.extensions) + self.rechecks,
    {
        proof {
            assert(0 <= 2000 * (1 + self.extensions) <= 2000 * 4_294_967_296) by (nonlinear_arith)
                requires
                    0 <= self.extensions <= 4_294_967_295,
            ;
        }
        OPS_PER_ATTACHMENT as u64 * (1 + self.extensions as u64) + self.rechecks as u64
    }
}

/// An attachment leaves through its cap only where no owner kill is in flight, and as the
/// role holder only where its extensions are spent.
pub proof fn law_the_cap_waits_for_the_kill(c: Cap, serving: bool, kill_in_flight: bool)
    requires
        c.ops_left > 0,
    ensures
        after_op(c, serving, kill_in_flight).ops_left == 0 ==> !kill_in_flight && (serving
            ==> c.extensions >= MAX_OWNER_CAP_EXTENSIONS),
{
}

// ---------------------------------------------------------------------------
// What must never be seen
// ---------------------------------------------------------------------------

/// A component that is no finite number, as it prints.
pub open spec fn broken(bits: u64) -> Seq<char> {
    if not_a_number(bits) {
        "NaN"@
    } else if bits >= SIGN {
        "-inf"@
    } else {
        "inf"@
    }
}

fn say_broken(bits: u64) -> (r: &'static str)
    requires
        !finite(bits),
    ensures
        r@ == broken(bits),
{
    if bits == number::INFINITY {
        "inf"
    } else if bits == 0xfff0_0000_0000_0000 {
        "-inf"
    } else {
        "NaN"
    }
}

/// One millionth, as a bit pattern: how far the square of a quaternion's norm may be from
/// one. Loose on purpose: composed rounding is arithmetic, torn memory is nowhere near.
pub const NORM_SLACK: u64 = 0x3eb0_c6f7_a0b5_ed8d;

/// What is checked of the norm: how far its square is from one, as a bit pattern, and the
/// square as it prints.
pub struct Norm {
    pub off: u64,
    pub text: String,
}

/// Why a transform cannot be a consistent sample, where it cannot.
pub open spec fn inconsistent(p: Pose, norm: Norm) -> Option<Seq<char>> {
    if !finite(p.tx) {
        Some("translation tx is "@ + broken(p.tx))
    } else if !finite(p.ty) {
        Some("translation ty is "@ + broken(p.ty))
    } else if !finite(p.tz) {
        Some("translation tz is "@ + broken(p.tz))
    } else if !finite(p.qx) {
        Some("quaternion qx is "@ + broken(p.qx))
    } else if !finite(p.qy) {
        Some("quaternion qy is "@ + broken(p.qy))
    } else if !finite(p.qz) {
        Some("quaternion qz is "@ + broken(p.qz))
    } else if !finite(p.qw) {
        Some("quaternion qw is "@ + broken(p.qw))
    } else if less(NORM_SLACK, norm.off) {
        Some("quaternion norm^2 is "@ + norm.text@ + ", not 1"@)
    } else {
        None
    }
}

fn say_component(what: &str, bits: u64) -> (r: String)
    requires
        !finite(bits),
    ensures
        r@ == what@ + broken(bits),
{
    let mut s = what.to_owned();
    s.append(say_broken(bits));
    s
}

/// Why a transform cannot be a consistent sample, where it cannot. This cannot be turned
/// off.
pub fn check(p: &Pose, norm: &Norm) -> (r: Option<String>)
    ensures
        text_of(r) == inconsistent(*p, *norm),
{
    if !number::is_finite(p.tx) {
        return Some(say_component("translation tx is ", p.tx));
    }
    if !number::is_finite(p.ty) {
        return Some(say_component("translation ty is ", p.ty));
    }
    if !number::is_finite(p.tz) {
        return Some(say_component("translation tz is ", p.tz));
    }
    if !number::is_finite(p.qx) {
        return Some(say_component("quaternion qx is ", p.qx));
    }
    if !number::is_finite(p.qy) {
        return Some(say_component("quaternion qy is ", p.qy));
    }
    if !number::is_finite(p.qz) {
        return Some(say_component("quaternion qz is ", p.qz));
    }
    if !number::is_finite(p.qw) {
        return Some(say_component("quaternion qw is ", p.qw));
    }
    if number::lt(NORM_SLACK, norm.off) {
        let mut s = "quaternion norm^2 is ".to_owned();
        s.append(norm.text.as_str());
        s.append(", not 1");
        return Some(s);
    }
    None
}

/// The transform that is published on purpose: a translation that is no number, which no
/// interpolation repairs.
pub fn corrupt(p: Pose) -> (r: Pose)
    ensures
        r == (Pose { tx: NAN, ..p }),
{
    Pose { tx: NAN, ..p }
}

/// What is published on purpose is always found out.
pub proof fn law_the_injected_sample_is_found(p: Pose, norm: Norm)
    ensures
        inconsistent(Pose { tx: NAN, ..p }, norm) is Some,
{
}

/// What is said of a bad transform on one edge.
pub open spec fn observed_edge(
    parent: Seq<char>,
    child: Seq<char>,
    at: Seq<char>,
    why: Seq<char>,
) -> Seq<char> {
    "the observer read a bad transform: "@
        + parent
        + "->"@
        + child
        + " at "@
        + at
        + ": "@
        + why
}

fn say_observed_edge(parent: &str, child: &str, at: &str, why: &str) -> (r: String)
    ensures
        r@ == observed_edge(parent@, child@, at@, why@),
{
    let mut s = "the observer read a bad transform: ".to_owned();
    s.append(parent);
    s.append("->");
    s.append(child);
    s.append(" at ");
    s.append(at);
    s.append(": ");
    s.append(why);
    s
}

/// What is said of a bad transform from end to end.
pub open spec fn observed_chain(at: Seq<char>, why: Seq<char>) -> Seq<char> {
    "the observer read a bad transform: map->tool at "@
        + at
        + ": "@
        + why
}

fn say_observed_chain(at: &str, why: &str) -> (r: String)
    ensures
        r@ == observed_chain(at@, why@),
{
    let mut s = "the observer read a bad transform: map->tool at ".to_owned();
    s.append(at);
    s.append(": ");
    s.append(why);
    s
}

/// What is said of an edge with two writers.
pub open spec fn two_writers(
    pid: u64,
    parent: Seq<char>,
    child: Seq<char>,
    slot: u64,
    me: u64,
) -> Seq<char> {
    "VIOLATION pid "@
        + digits(pid as nat)
        + " two writers on "@
        + parent
        + "->"@
        + child
        + ": the claim word named participant slot "@
        + digits(slot as nat)
        + " while this process (slot "@
        + digits(me as nat)
        + ") pushed to the same edge successfully, so the claim epoch never moved and the edge was granted twice (docs/PHASE2.md §11.4, §1 A3/A4, D7)"@
}

fn say_two_writers(pid: u64, parent: &str, child: &str, slot: u64, me: u64) -> (r: String)
    ensures
        r@ == two_writers(pid, parent@, child@, slot, me),
{
    let mut s = "VIOLATION pid ".to_owned();
    s.append(decimal(pid).as_str());
    s.append(" two writers on ");
    s.append(parent);
    s.append("->");
    s.append(child);
    s.append(": the claim word named participant slot ");
    s.append(decimal(slot).as_str());
    s.append(" while this process (slot ");
    s.append(decimal(me).as_str());
    s.append(
        ") pushed to the same edge successfully, so the claim epoch never moved and the edge was granted twice (docs/PHASE2.md §11.4, §1 A3/A4, D7)",
    );
    s
}

/// What a worker says of a bad transform.
pub open spec fn bad_read(pid: u64, at: Seq<char>, why: Seq<char>, iso: Seq<char>) -> Seq<char> {
    "VIOLATION pid "@
        + digits(pid as nat)
        + " map->tool at "@
        + at
        + ": "@
        + why
        + " (iso = "@
        + iso
        + ")"@
}

fn say_bad_read(pid: u64, at: &str, why: &str, iso: &str) -> (r: String)
    ensures
        r@ == bad_read(pid, at@, why@, iso@),
{
    let mut s = "VIOLATION pid ".to_owned();
    s.append(decimal(pid).as_str());
    s.append(" map->tool at ");
    s.append(at);
    s.append(": ");
    s.append(why);
    s.append(" (iso = ");
    s.append(iso);
    s.append(")");
    s
}

/// What the observer says of a bad transform: on one edge of the chain, or from end to end.
pub fn observer_text(edge: Option<(&str, &str)>, at: i64, why: &str) -> (r: String)
    ensures
        r@ == (match edge {
            Some((parent, child)) => observed_edge(
                parent@,
                child@,
                text::signed_digits(at as int),
                why@,
            ),
            None => observed_chain(text::signed_digits(at as int), why@),
        }),
{
    let stamp = text::signed_decimal(at);
    match edge {
        Some((parent, child)) => say_observed_edge(parent, child, stamp.as_str(), why),
        None => say_observed_chain(stamp.as_str(), why),
    }
}

/// What a worker says of a bad transform; `iso` is the transform as it prints.
pub fn worker_text(pid: u32, at: i64, why: &str, iso: &str) -> (r: String)
    ensures
        r@ == bad_read(pid as u64, text::signed_digits(at as int), why@, iso@),
{
    say_bad_read(pid as u64, text::signed_decimal(at).as_str(), why, iso)
}

/// What a push comes to.
pub enum Pushed {
    Fine,
    /// The writer was judged dead and is fenced off: it drops its claim.
    Revoked,
    /// The edge was granted twice.
    TwoWriters(String),
}

/// Whether a claim word names a participant that is not this one. The largest number names
/// nobody.
pub open spec fn foreign(slot: u32, me: u32) -> bool {
    slot != u32::MAX && slot != me
}

/// Judges a push: `slot` is whom the claim word named just before it. A push that succeeds
/// though the word names somebody else means that the edge was granted twice without a
/// release; one that fails there is the fence at work.
pub fn judge_push(ok: bool, slot: u32, me: u32, pid: u32, parent: &str, child: &str) -> (r: Pushed)
    ensures
        match r {
            Pushed::Fine => ok && !foreign(slot, me),
            Pushed::Revoked => !ok,
            Pushed::TwoWriters(s) => ok && foreign(slot, me) && s@ == two_writers(
                pid as u64,
                parent@,
                child@,
                slot as u64,
                me as u64,
            ),
        },
{
    if !ok {
        return Pushed::Revoked;
    }
    if slot != u32::MAX && slot != me {
        return Pushed::TwoWriters(
            say_two_writers(pid as u64, parent, child, slot as u64, me as u64),
        );
    }
    Pushed::Fine
}

// ---------------------------------------------------------------------------
// Leaving as the role holder
// ---------------------------------------------------------------------------

/// What is known where an attachment that held the role, or was said to, leaves through its
/// cap.
pub struct CapExit {
    /// Whether the marker named this process.
    pub named: bool,
    pub ops: u64,
    pub extensions: u32,
    /// How long it held the role, in seconds with three decimals.
    pub tenure: Option<String>,
    /// The slots that it saw attached.
    pub seen: Vec<SlotSeen>,
    pub stamp: String,
}

/// How many could inherit: alive, and not the driver, which never does.
pub open spec fn heirs(v: Seq<SlotSeen>, driver: u32) -> nat
    decreases v.len(),
{
    if v.len() == 0 {
        0
    } else {
        heirs(v.drop_last(), driver) + if v.last().alive && v.last().pid != Some(driver) {
            1nat
        } else {
            0nat
        }
    }
}

pub open spec fn cap_exit(
    pid: u64,
    named: Seq<char>,
    ops: u64,
    extensions: u64,
    most: u64,
    tenure: Seq<char>,
    seen: Seq<char>,
    heirs: u64,
    stamp: Seq<char>,
) -> Seq<char> {
    "role-holder-cap-exit pid="@
        + digits(pid as nat)
        + " marker_named_this_pid="@
        + named
        + " attachment_ops="@
        + digits(ops as nat)
        + " extensions="@
        + digits(extensions as nat)
        + "/"@
        + digits(most as nat)
        + " tenure="@
        + tenure
        + " attached_by_identity="@
        + seen
        + " heirs_attached_after_exit="@
        + digits(heirs as nat)
        + " stamp="@
        + stamp
}

fn say_cap_exit(
    pid: u64,
    named: &str,
    ops: u64,
    extensions: u64,
    most: u64,
    tenure: &str,
    seen: &str,
    heirs: u64,
    stamp: &str,
) -> (r: String)
    ensures
        r@ == cap_exit(pid, named@, ops, extensions, most, tenure@, seen@, heirs, stamp@),
{
    let mut s = "role-holder-cap-exit pid=".to_owned();
    s.append(decimal(pid).as_str());
    s.append(" marker_named_this_pid=");
    s.append(named);
    s.append(" attachment_ops=");
    s.append(decimal(ops).as_str());
    s.append(" extensions=");
    s.append(decimal(extensions).as_str());
    s.append("/");
    s.append(decimal(most).as_str());
    s.append(" tenure=");
    s.append(tenure);
    s.append(" attached_by_identity=");
    s.append(seen);
    s.append(" heirs_attached_after_exit=");
    s.append(decimal(heirs).as_str());
    s.append(" stamp=");
    s.append(stamp);
    s
}

pub const NO_TENURE: &'static str = "unknown(this attachment recorded no inheritance)";

impl CapExit {
    pub open spec fn text(self, pid: u32, driver: u32) -> Seq<char> {
        cap_exit(
            pid as u64,
            if self.named {
                "true"@
            } else {
                "false"@
            },
            self.ops,
            self.extensions as u64,
            MAX_OWNER_CAP_EXTENSIONS as u64,
            match self.tenure {
                Some(t) => t@ + "s"@,
                None => NO_TENURE@,
            },
            slots_text(self.seen@, Some(driver)),
            heirs(self.seen@, driver) as u64,
            self.stamp@,
        )
    }

    /// The line on it.
    pub fn line(&self, pid: u32, driver: u32) -> (r: String)
        ensures
            r@ == self.text(pid, driver),
    {
        let mut n: u64 = 0;
        let mut i: usize = 0;
        assert(self.seen@.take(0) =~= seq![]);
        while i < self.seen.len()
            invariant
                i <= self.seen.len(),
                n <= i,
                n == heirs(self.seen@.take(i as int), driver),
            decreases self.seen.len() - i,
        {
            assert(self.seen@.take(i + 1).drop_last() =~= self.seen@.take(i as int));
            if self.seen[i].alive && !is_pid(self.seen[i].pid, driver) {
                n = n + 1;
            }
            i = i + 1;
        }
        assert(self.seen@.take(i as int) =~= self.seen@);
        let named = if self.named {
            "true"
        } else {
            "false"
        };
        let mut tenure = NO_TENURE.to_owned();
        match &self.tenure {
            Some(t) => {
                tenure = t.clone();
                tenure.append("s");
            },
            None => {},
        }
        say_cap_exit(
            pid as u64,
            named,
            self.ops,
            self.extensions as u64,
            MAX_OWNER_CAP_EXTENSIONS as u64,
            tenure.as_str(),
            seen_list(&self.seen, Some(driver)).as_str(),
            n,
            self.stamp.as_str(),
        )
    }
}

// ---------------------------------------------------------------------------
// What a worker is asked for, does and says
// ---------------------------------------------------------------------------

proof fn lemma_child_flags_differ()
    ensures
        "--seed"@ != "--role"@,
        "--seed"@ != "--inject-violation"@,
        "--seed"@ != "--readers-only"@,
        "--seed"@ != "--no-inherit"@,
        "--seed"@ != "--ballast-mb"@,
        "--role"@ != "--inject-violation"@,
        "--role"@ != "--readers-only"@,
        "--role"@ != "--no-inherit"@,
        "--role"@ != "--ballast-mb"@,
        "--inject-violation"@ != "--readers-only"@,
        "--inject-violation"@ != "--no-inherit"@,
        "--inject-violation"@ != "--ballast-mb"@,
        "--readers-only"@ != "--no-inherit"@,
        "--readers-only"@ != "--ballast-mb"@,
        "--no-inherit"@ != "--ballast-mb"@,
{
    reveal_strlit("--seed");
    reveal_strlit("--role");
    reveal_strlit("--inject-violation");
    reveal_strlit("--readers-only");
    reveal_strlit("--no-inherit");
    reveal_strlit("--ballast-mb");
    assert("--seed"@.len() == 6);
    assert("--seed"@[2] == 's');
    assert("--role"@.len() == 6);
    assert("--role"@[2] == 'r');
    assert("--inject-violation"@.len() == 18);
    assert("--inject-violation"@[2] == 'i');
    assert("--readers-only"@.len() == 14);
    assert("--readers-only"@[2] == 'r');
    assert("--no-inherit"@.len() == 12);
    assert("--no-inherit"@[2] == 'n');
    assert("--ballast-mb"@.len() == 12);
    assert("--ballast-mb"@[2] == 'b');
}

/// An option of a child sets what it is named after and nothing else; the role of the owner ends
/// the reading, and no other role is known.
pub proof fn law_a_child_is_as_it_was_asked_for(argv: Seq<Seq<char>>, i: int, a: WorkerArgs)
    requires
        0 <= i < argv.len(),
    ensures
        argv[i] == "--inject-violation"@ ==> read_from(argv, i, a) == read_from(
            argv,
            i + 1,
            WorkerArgs { inject: true, ..a },
        ),
        argv[i] == "--readers-only"@ ==> read_from(argv, i, a) == read_from(
            argv,
            i + 1,
            WorkerArgs { readers_only: true, ..a },
        ),
        argv[i] == "--no-inherit"@ ==> read_from(argv, i, a) == read_from(
            argv,
            i + 1,
            WorkerArgs { no_inherit: true, ..a },
        ),
        argv[i] == "--seed"@ && i + 1 < argv.len() ==> (match read_u64(argv[i + 1]) {
            Some(n) => read_from(argv, i, a) == read_from(
                argv,
                i + 2,
                WorkerArgs { seed: n, ..a },
            ),
            None => read_from(argv, i, a) is Err,
        }),
        argv[i] == "--ballast-mb"@ && i + 1 < argv.len() ==> (match read_usize(argv[i + 1]) {
            Some(n) => read_from(argv, i, a) == read_from(
                argv,
                i + 2,
                WorkerArgs { ballast_mb: n, ..a },
            ),
            None => read_from(argv, i, a) is Err,
        }),
        argv[i] == "--role"@ ==> (read_from(argv, i, a) == Ok::<Child, ChildErrorView>(Child::Owner)
            <==> i + 1 < argv.len() && argv[i + 1] == "owner"@),
        argv[i] == "--role"@ ==> (read_from(argv, i, a) is Err <==> !(i + 1 < argv.len() && argv[i
            + 1] == "owner"@)),
        (argv[i] == "--seed"@ || argv[i] == "--ballast-mb"@) && i + 1 == argv.len() ==> read_from(
            argv,
            i,
            a,
        ) == Err::<Child, ChildErrorView>(ChildErrorView::NeedsValue(argv[i])),
        default_worker() == (WorkerArgs {
            seed: 1,
            inject: false,
            readers_only: false,
            no_inherit: false,
            ballast_mb: 0,
        }),
{
    lemma_child_flags_differ();
}

/// Of a hundred rolls ten claim, five release, two and one reap, two leave, forty publish and
/// forty read.
pub proof fn law_how_rolls_are_spread(roll: u64)
    requires
        roll < 100,
    ensures
        op_for(roll) is Claim <==> roll < 10,
        op_for(roll) is Release <==> 10 <= roll < 15,
        op_for(roll) is ReapDead <==> 15 <= roll < 17,
        op_for(roll) is ReapParticipants <==> roll == 17,
        op_for(roll) is Detach <==> 18 <= roll < 20,
        op_for(roll) is Publish <==> 20 <= roll < 60,
        op_for(roll) is Read <==> 60 <= roll,
{
}

/// A worker claims where it holds no edge and may write, and publishes where it holds one;
/// everything else it does whatever it holds.
pub proof fn law_what_a_roll_does(op: Op, holding: bool, readers_only: bool)
    ensures
        act_for(op, holding, readers_only) is Claim <==> op is Claim && !holding && !readers_only,
        act_for(op, holding, readers_only) is Publish <==> op is Publish && holding,
        act_for(op, holding, readers_only) is Release <==> op is Release,
        act_for(op, holding, readers_only) is ReapDead <==> op is ReapDead,
        act_for(op, holding, readers_only) is ReapParticipants <==> op is ReapParticipants,
        act_for(op, holding, readers_only) is AskToLeave <==> op is Detach,
        act_for(op, holding, readers_only) is Read <==> op is Read,
{
}

/// An attachment ends after two thousand operations; one that serves goes on for as many, ten
/// times over, and nobody leaves while an owner kill is in flight.
pub proof fn law_how_long_an_attachment_lasts(c: Cap, serving: bool, kill_in_flight: bool)
    requires
        c.ops_left > 0,
        c.rechecks < u32::MAX,
        c.extensions <= 10,
    ensures
        ({
            let d = after_op(c, serving, kill_in_flight);
            &&& c.ops_left > 1 ==> d == Cap { ops_left: (c.ops_left - 1) as u32, held: false, ..c }
            &&& c.ops_left == 1 && serving && c.extensions < 10 ==> d.ops_left == 2_000
                && d.extensions == c.extensions + 1 && d.rechecks == c.rechecks
            &&& c.ops_left == 1 && !(serving && c.extensions < 10) && kill_in_flight ==> d.ops_left
                == 1 && d.held && d.rechecks == c.rechecks + 1 && d.extensions == c.extensions
            &&& d.ops_left == 0 <==> c.ops_left == 1 && !(serving && c.extensions < 10)
                && !kill_in_flight
        }),
{
}

/// A transform is consistent exactly where all its numbers are numbers and its rotation is of
/// length one within a millionth; the first that is not is named.
pub proof fn law_when_a_transform_is_consistent(p: Pose, norm: Norm)
    ensures
        inconsistent(p, norm) is None <==> {
            &&& finite(p.tx) && finite(p.ty) && finite(p.tz)
            &&& finite(p.qx) && finite(p.qy) && finite(p.qz) && finite(p.qw)
            &&& !less(0x3eb0_c6f7_a0b5_ed8d, norm.off)
        },
        !finite(p.tx) ==> (inconsistent(p, norm) matches Some(s) && begins(s, "translation tx is "@)),
        finite(p.tx) && !finite(p.ty) ==> (inconsistent(p, norm) matches Some(s) && begins(
            s,
            "translation ty is "@,
        )),
        finite(p.tx) && finite(p.ty) && !finite(p.tz) ==> (inconsistent(p, norm) matches Some(s)
            && begins(s, "translation tz is "@)),
        (finite(p.tx) && finite(p.ty) && finite(p.tz) && !finite(p.qx)) ==> (inconsistent(
            p,
            norm,
        ) matches Some(s) && begins(s, "quaternion qx is "@)),
        (finite(p.tx) && finite(p.ty) && finite(p.tz) && finite(p.qx) && !finite(p.qy)) ==> (
        inconsistent(p, norm) matches Some(s) && begins(s, "quaternion qy is "@)),
        (finite(p.tx) && finite(p.ty) && finite(p.tz) && finite(p.qx) && finite(p.qy) && !finite(
            p.qz,
        )) ==> (inconsistent(p, norm) matches Some(s) && begins(s, "quaternion qz is "@)),
        (finite(p.tx) && finite(p.ty) && finite(p.tz) && finite(p.qx) && finite(p.qy) && finite(
            p.qz,
        ) && !finite(p.qw)) ==> (inconsistent(p, norm) matches Some(s) && begins(
            s,
            "quaternion qw is "@,
        )),
{
    if inconsistent(p, norm) is Some {
        let s = inconsistent(p, norm)->0;
        let head = if !finite(p.tx) {
            "translation tx is "@
        } else if !finite(p.ty) {
            "translation ty is "@
        } else if !finite(p.tz) {
            "translation tz is "@
        } else if !finite(p.qx) {
            "quaternion qx is "@
        } else if !finite(p.qy) {
            "quaternion qy is "@
        } else if !finite(p.qz) {
            "quaternion qz is "@
        } else if !finite(p.qw) {
            "quaternion qw is "@
        } else {
            "quaternion norm^2 is "@
        };
        assert(s.take(head.len() as int) =~= head);
    }
}

/// A push that succeeded shows two writers exactly where the claim names somebody else.
pub proof fn law_when_a_claim_is_foreign(slot: u32, me: u32)
    ensures
        foreign(slot, me) <==> slot != 0xffff_ffff && slot != me,
{
}

/// Two writers on an edge are told with the edge, whom the claim names and who pushed.
pub proof fn law_two_writers_are_told_apart(
    pid: u64,
    parent: Seq<char>,
    child: Seq<char>,
    slot: u64,
    me: u64,
)
    ensures
        ({
            let said = two_writers(pid, parent, child, slot, me);
            &&& begins(
                said,
                "VIOLATION pid "@ + digits(pid as nat) + " two writers on "@ + parent + "->"@
                    + child,
            )
            &&& holds(
                said,
                ": the claim word named participant slot "@ + digits(slot as nat)
                    + " while this process (slot "@ + digits(me as nat),
            )
        }),
{
    let said = two_writers(pid, parent, child, slot, me);
    let a = "VIOLATION pid "@ + digits(pid as nat) + " two writers on "@ + parent + "->"@ + child;
    let b = ": the claim word named participant slot "@ + digits(slot as nat)
        + " while this process (slot "@ + digits(me as nat);
    assert(said.take((a + b).len() as int) =~= a + b);
    lemma_end_of_a_beginning(said, a, b);
}

/// Whom an attachment leaves behind are the living but the driver.
pub proof fn law_whom_an_exit_leaves(v: Seq<SlotSeen>, driver: u32)
    ensures
        heirs(v, driver) == v.filter(|x: SlotSeen| x.alive && x.pid != Some(driver)).len(),
    decreases v.len(),
{
    reveal(Seq::filter);
    if v.len() > 0 {
        law_whom_an_exit_leaves(v.drop_last(), driver);
    }
}

/// The line on an attachment that ended gives each thing under the word for it.
pub proof fn law_an_exit_is_told_by_name(
    pid: u64,
    named: Seq<char>,
    ops: u64,
    extensions: u64,
    most: u64,
    tenure: Seq<char>,
    seen: Seq<char>,
    heirs: u64,
    stamp: Seq<char>,
)
    ensures
        ({
            let line = cap_exit(pid, named, ops, extensions, most, tenure, seen, heirs, stamp);
            &&& begins(line, "role-holder-cap-exit pid="@ + digits(pid as nat))
            &&& holds(line, " marker_named_this_pid="@ + named)
            &&& holds(line, " attachment_ops="@ + digits(ops as nat))
            &&& holds(
                line,
                " extensions="@ + digits(extensions as nat) + "/"@ + digits(most as nat),
            )
            &&& holds(line, " tenure="@ + tenure)
            &&& holds(line, " attached_by_identity="@ + seen)
            &&& holds(line, " heirs_attached_after_exit="@ + digits(heirs as nat))
            &&& holds(line, " stamp="@ + stamp)
        }),
{
    let doc = cap_exit(pid, named, ops, extensions, most, tenure, seen, heirs, stamp);
    let a0 = "role-holder-cap-exit pid="@;
    let a1 = a0 + digits(pid as nat);
    let a2 = a1 + (" marker_named_this_pid="@ + named);
    let a3 = a2 + (" attachment_ops="@ + digits(ops as nat));
    let a4 = a3 + (" extensions="@ + digits(extensions as nat) + "/"@ + digits(most as nat));
    let a5 = a4 + (" tenure="@ + tenure);
    let a6 = a5 + (" attached_by_identity="@ + seen);
    let a7 = a6 + (" heirs_attached_after_exit="@ + digits(heirs as nat));
    let a8 = a7 + (" stamp="@ + stamp);
    assert(doc =~= a8);
    assert(doc.take(a8.len() as int) =~= a8);
    lemma_end_of_a_beginning(doc, a7, (" stamp="@ + stamp));
    lemma_end_of_a_beginning(doc, a6, (" heirs_attached_after_exit="@ + digits(heirs as nat)));
    lemma_end_of_a_beginning(doc, a5, (" attached_by_identity="@ + seen));
    lemma_end_of_a_beginning(doc, a4, (" tenure="@ + tenure));
    lemma_end_of_a_beginning(doc, a3, (" extensions="@ + digits(extensions as nat) + "/"@ + digits(most as nat)));
    lemma_end_of_a_beginning(doc, a2, (" attachment_ops="@ + digits(ops as nat)));
    lemma_end_of_a_beginning(doc, a1, (" marker_named_this_pid="@ + named));
    lemma_end_of_a_beginning(doc, a0, digits(pid as nat));
}

/// What is said of a bad read names its instant and its reason.
pub proof fn law_a_bad_read_is_told_with_its_reason(
    pid: u64,
    parent: Seq<char>,
    child: Seq<char>,
    at: Seq<char>,
    why: Seq<char>,
    iso: Seq<char>,
)
    ensures
        holds(observed_edge(parent, child, at, why), parent + "->"@ + child + " at "@ + at + ": "@
            + why),
        holds(observed_chain(at, why), at + ": "@ + why),
        holds(bad_read(pid, at, why, iso), " map->tool at "@ + at + ": "@ + why + " (iso = "@ + iso),
{
    let e = observed_edge(parent, child, at, why);
    let a = "the observer read a bad transform: "@;
    let p = parent + "->"@ + child + " at "@ + at + ": "@ + why;
    assert(e =~= a + p);
    assert(e.take(e.len() as int) =~= e);
    lemma_end_of_a_beginning(e, a, p);
    let c = observed_chain(at, why);
    let b = "the observer read a bad transform: map->tool at "@;
    assert(c =~= b + (at + ": "@ + why));
    assert(c.take(c.len() as int) =~= c);
    lemma_end_of_a_beginning(c, b, at + ": "@ + why);
    let r = bad_read(pid, at, why, iso);
    let d = "VIOLATION pid "@ + digits(pid as nat);
    let q = " map->tool at "@ + at + ": "@ + why + " (iso = "@ + iso;
    assert(r.take((d + q).len() as int) =~= d + q);
    lemma_end_of_a_beginning(r, d, q);
}

} // verus!
