//! What the files of a run say: who holds the rendezvous, who inherited it, what the
//! trigger answered, and who left the role alive.

use vstd::prelude::*;

use crate::order::{
    lemma_precedes_irreflexive, lemma_precedes_transitive, precedes, stands_before,
};
use crate::report::host::read_u32;
use crate::report::text_of;
use crate::text::{
    self, begins, blank, decimal, digits, holds, joined, lemma_end_of_a_beginning, lemma_texts_push,
    lines, texts, trimmed, until, words,
};

use super::crash::{find_row, row_after};

verus! {

// ---------------------------------------------------------------------------
// Process ids
// ---------------------------------------------------------------------------

/// A text as a process id.
pub fn parse_pid(s: &str) -> (r: Option<u32>)
    ensures
        r == read_u32(trimmed(s@)),
{
    let t = text::trim(s);
    match text::parse_u64(t.as_str()) {
        Some(n) => if n <= 0xffff_ffff {
            Some(n as u32)
        } else {
            None
        },
        None => None,
    }
}

/// The process that a marker file names.
pub fn marker_pid(marker: &Option<String>) -> (r: Option<u32>)
    ensures
        r == match text_of(*marker) {
            Some(t) => read_u32(trimmed(t)),
            None => None,
        },
{
    match marker {
        Some(t) => parse_pid(t.as_str()),
        None => None,
    }
}

/// The process ids that some lines hold, one to a line.
pub open spec fn pids(ls: Seq<Seq<char>>) -> Seq<u32>
    decreases ls.len(),
{
    if ls.len() == 0 {
        seq![]
    } else {
        let rest = pids(ls.drop_last());
        match read_u32(trimmed(ls.last())) {
            Some(p) => rest.push(p),
            None => rest,
        }
    }
}

/// The process ids that a ledger holds, one to a line.
pub fn ledger_pids(ledger: &str) -> (r: Vec<u32>)
    ensures
        r@ == pids(lines(ledger@)),
{
    let ls = text::split_lines(ledger);
    let ghost all = texts(ls@);
    let mut out: Vec<u32> = Vec::new();
    let mut i: usize = 0;
    assert(all.take(0) =~= seq![]);
    while i < ls.len()
        invariant
            i <= ls@.len(),
            all == texts(ls@),
            out@ == pids(all.take(i as int)),
        decreases ls@.len() - i,
    {
        assert(all.take(i + 1).drop_last() =~= all.take(i as int));
        assert(all.take(i + 1).last() == ls@[i as int]@);
        match parse_pid(ls[i].as_str()) {
            Some(p) => {
                out.push(p);
            },
            None => {},
        }
        i = i + 1;
    }
    assert(all.take(i as int) =~= all);
    out
}

/// How many of some lines are not blank.
pub open spec fn written(ls: Seq<Seq<char>>) -> nat
    decreases ls.len(),
{
    if ls.len() == 0 {
        0
    } else {
        written(ls.drop_last()) + if blank(ls.last()) {
            0nat
        } else {
            1nat
        }
    }
}

/// How many inheritances a ledger records.
pub fn inheritance_count(ledger: &str) -> (r: usize)
    ensures
        r == written(lines(ledger@)),
{
    let ls = text::split_lines(ledger);
    let ghost all = texts(ls@);
    let mut n: usize = 0;
    let mut i: usize = 0;
    assert(all.take(0) =~= seq![]);
    while i < ls.len()
        invariant
            i <= ls.len(),
            n <= i,
            all == texts(ls@),
            n == written(all.take(i as int)),
        decreases ls.len() - i,
    {
        assert(all.take(i + 1).drop_last() =~= all.take(i as int));
        assert(all.take(i + 1).last() == ls@[i as int]@);
        if !text::is_blank(ls[i].as_str()) {
            n = n + 1;
        }
        i = i + 1;
    }
    assert(all.take(i as int) =~= all);
    n
}

/// How many detaches a ledger records as suppressed.
pub fn detach_skip_count(ledger: &str) -> (r: usize)
    ensures
        r == lines(ledger@).len(),
{
    let ls = text::split_lines(ledger);
    assert(texts(ls@).len() == ls.len());
    ls.len()
}

/// What one file of the attachments says: the child that it is named after, and the owner
/// that the child last attached under.
pub open spec fn attachment(name: Seq<char>, content: Option<Seq<char>>) -> Option<(u32, u32)> {
    match (read_u32(name), content) {
        (Some(pid), Some(t)) => match read_u32(trimmed(t)) {
            Some(under) => Some((pid, under)),
            None => None,
        },
        _ => None,
    }
}

pub open spec fn attached(entries: Seq<(String, Option<String>)>) -> Seq<(u32, u32)>
    decreases entries.len(),
{
    if entries.len() == 0 {
        seq![]
    } else {
        let rest = attached(entries.drop_last());
        match attachment(entries.last().0@, text_of(entries.last().1)) {
            Some(x) => rest.push(x),
            None => rest,
        }
    }
}

/// Which owner each child last attached under, from the files that record it.
pub fn attachments(entries: &Vec<(String, Option<String>)>) -> (r: Vec<(u32, u32)>)
    ensures
        r@ == attached(entries@),
{
    let mut out: Vec<(u32, u32)> = Vec::new();
    let mut i: usize = 0;
    assert(entries@.take(0) =~= seq![]);
    while i < entries.len()
        invariant
            i <= entries@.len(),
            out@ == attached(entries@.take(i as int)),
        decreases entries@.len() - i,
    {
        assert(entries@.take(i + 1).drop_last() =~= entries@.take(i as int));
        let name: Option<u32> = match text::parse_u64(entries[i].0.as_str()) {
            Some(n) => if n <= 0xffff_ffff {
                Some(n as u32)
            } else {
                None
            },
            None => None,
        };
        match (name, &entries[i].1) {
            (Some(pid), Some(t)) => match parse_pid(t.as_str()) {
                Some(under) => {
                    out.push((pid, under));
                },
                None => {},
            },
            _ => {},
        }
        i = i + 1;
    }
    assert(entries@.take(i as int) =~= entries@);
    out
}

// ---------------------------------------------------------------------------
// The trigger
// ---------------------------------------------------------------------------

/// What the trigger of a migration answered.
pub enum Trigger {
    Inherited,
    OwnerAlive,
    Contended,
    ReadOnly,
    NotApplicable,
    /// An answer without a name here, as it prints.
    Other(String),
    /// An error, as it prints.
    Failed(String),
}

impl Trigger {
    pub open spec fn name(self) -> Seq<char> {
        match self {
            Trigger::Inherited => "inherited"@,
            Trigger::OwnerAlive => "owner-alive"@,
            Trigger::Contended => "contended"@,
            Trigger::ReadOnly => "read-only"@,
            Trigger::NotApplicable => "not-applicable"@,
            Trigger::Other(s) => "ok-"@ + s@,
            Trigger::Failed(s) => "err-"@ + s@,
        }
    }

    /// A short, stable tag.
    pub fn tag(&self) -> (r: String)
        ensures
            r@ == self.name(),
    {
        match self {
            Trigger::Inherited => "inherited".to_owned(),
            Trigger::OwnerAlive => "owner-alive".to_owned(),
            Trigger::Contended => "contended".to_owned(),
            Trigger::ReadOnly => "read-only".to_owned(),
            Trigger::NotApplicable => "not-applicable".to_owned(),
            Trigger::Other(s) => {
                let mut t = "ok-".to_owned();
                t.append(s.as_str());
                t
            },
            Trigger::Failed(s) => {
                let mut t = "err-".to_owned();
                t.append(s.as_str());
                t
            },
        }
    }
}

/// How many answers one attachment records.
pub const TRIGGER_LOG_CAP: usize = 256;

/// The tag of a line of the trigger ledger: what stands behind its first space.
pub open spec fn tag_of(line: Seq<char>) -> Option<Seq<char>> {
    let t = trimmed(line);
    let n = until(t, ' ') as int;
    if n < t.len() {
        Some(t.skip(n + 1))
    } else {
        None
    }
}

/// Some tallies and one more of a tag.
pub open spec fn counted(v: Seq<(Seq<char>, nat)>, tag: Seq<char>) -> Seq<(Seq<char>, nat)>
    decreases v.len(),
{
    if v.len() == 0 {
        seq![(tag, 1nat)]
    } else if v[0].0 == tag {
        seq![(tag, v[0].1 + 1)] + v.skip(1)
    } else {
        seq![v[0]] + counted(v.skip(1), tag)
    }
}

/// How often each tag stands on some lines, in the order in which they first stand.
pub open spec fn tallied(ls: Seq<Seq<char>>) -> Seq<(Seq<char>, nat)>
    decreases ls.len(),
{
    if ls.len() == 0 {
        seq![]
    } else {
        let rest = tallied(ls.drop_last());
        match tag_of(ls.last()) {
            Some(tag) => counted(rest, tag),
            None => rest,
        }
    }
}

/// Whether a tally stands before another: it is larger, or as large with an earlier tag.
pub open spec fn outranks(a: (Seq<char>, nat), b: (Seq<char>, nat)) -> bool {
    a.1 > b.1 || (a.1 == b.1 && precedes(a.0, b.0))
}

pub open spec fn ranked_in(v: Seq<(Seq<char>, nat)>, x: (Seq<char>, nat)) -> Seq<(Seq<char>, nat)>
    decreases v.len(),
{
    if v.len() == 0 {
        seq![x]
    } else if outranks(x, v[0]) {
        seq![x] + v
    } else {
        seq![v[0]] + ranked_in(v.skip(1), x)
    }
}

/// Some tallies, the largest first.
pub open spec fn ranked(v: Seq<(Seq<char>, nat)>) -> Seq<(Seq<char>, nat)>
    decreases v.len(),
{
    if v.len() == 0 {
        seq![]
    } else {
        ranked_in(ranked(v.drop_last()), v.last())
    }
}

/// Whether no tally outranks one that stands before it.
pub open spec fn in_rank(v: Seq<(Seq<char>, nat)>) -> bool {
    forall|i: int, j: int| 0 <= i < j < v.len() ==> !#[trigger] outranks(v[j], v[i])
}

proof fn lemma_outranks(a: (Seq<char>, nat), b: (Seq<char>, nat), c: (Seq<char>, nat))
    ensures
        !outranks(a, a),
        outranks(a, b) && outranks(b, c) ==> outranks(a, c),
{
    lemma_precedes_irreflexive(a.0);
    if precedes(a.0, b.0) && precedes(b.0, c.0) {
        lemma_precedes_transitive(a.0, b.0, c.0);
    }
}

proof fn lemma_ranked_in(v: Seq<(Seq<char>, nat)>, x: (Seq<char>, nat))
    requires
        in_rank(v),
    ensures
        in_rank(ranked_in(v, x)),
        forall|i: int|
            0 <= i < ranked_in(v, x).len() ==> #[trigger] ranked_in(v, x)[i] == x || v.contains(
                ranked_in(v, x)[i],
            ),
    decreases v.len(),
{
    let w = ranked_in(v, x);
    if v.len() == 0 {
    } else if outranks(x, v[0]) {
        assert forall|i: int, j: int| 0 <= i < j < w.len() implies !#[trigger] outranks(
            w[j],
            w[i],
        ) by {
            assert(w[j] == v[j - 1]);
            if i == 0 {
                lemma_outranks(v[j - 1], x, v[0]);
                lemma_outranks(v[0], x, v[0]);
                if j > 1 {
                    assert(!outranks(v[j - 1], v[0]));
                }
            } else {
                assert(!outranks(v[j - 1], v[i - 1]));
            }
        }
        assert forall|i: int| 0 <= i < w.len() implies #[trigger] w[i] == x || v.contains(w[i]) by {
            if i > 0 {
                assert(w[i] == v[i - 1]);
            }
        }
    } else {
        let rest = v.skip(1);
        assert forall|i: int, j: int| 0 <= i < j < rest.len() implies !#[trigger] outranks(
            rest[j],
            rest[i],
        ) by {
            assert(!outranks(v[j + 1], v[i + 1]));
        }
        lemma_ranked_in(rest, x);
        let tail = ranked_in(rest, x);
        assert forall|i: int| 0 <= i < w.len() implies #[trigger] w[i] == x || v.contains(w[i]) by {
            if i == 0 {
                assert(w[0] == v[0]);
            } else {
                assert(w[i] == tail[i - 1]);
                if rest.contains(tail[i - 1]) {
                    let k = choose|k: int| 0 <= k < rest.len() && rest[k] == tail[i - 1];
                    assert(v[k + 1] == w[i]);
                }
            }
        }
        assert forall|i: int, j: int| 0 <= i < j < w.len() implies !#[trigger] outranks(
            w[j],
            w[i],
        ) by {
            assert(w[j] == tail[j - 1]);
            if i == 0 {
                if tail[j - 1] != x {
                    let k = choose|k: int| 0 <= k < rest.len() && rest[k] == tail[j - 1];
                    assert(!outranks(v[k + 1], v[0]));
                }
            } else {
                assert(!outranks(tail[j - 1], tail[i - 1]));
            }
        }
    }
}

/// The most frequent answer comes first, and of equally frequent ones the earlier tag.
pub proof fn law_tallies_are_ranked(v: Seq<(Seq<char>, nat)>)
    ensures
        in_rank(ranked(v)),
    decreases v.len(),
{
    if v.len() > 0 {
        law_tallies_are_ranked(v.drop_last());
        lemma_ranked_in(ranked(v.drop_last()), v.last());
    }
}

pub open spec fn tally_views(v: Seq<(String, usize)>) -> Seq<(Seq<char>, nat)> {
    v.map_values(|x: (String, usize)| (x.0@, x.1 as nat))
}

fn parse_tag(line: &str) -> (r: Option<String>)
    ensures
        text_of(r) == tag_of(line@),
{
    let t = text::trim(line);
    let cs = text::chars(t.as_str());
    assert(cs@.skip(0) =~= cs@);
    let n = text::find_char(&cs, 0, ' ');
    if n < cs.len() {
        let s = text::slice(&cs, n + 1, cs.len());
        assert(s@ =~= t@.skip(n + 1));
        Some(s)
    } else {
        None
    }
}

spec fn bounded(v: Seq<(String, usize)>, n: int) -> bool {
    forall|i: int| 0 <= i < v.len() ==> (#[trigger] v[i]).1 <= n
}

fn count_tag(v: &mut Vec<(String, usize)>, tag: String, Ghost(n): Ghost<int>)
    requires
        bounded(old(v)@, n),
        0 <= n < usize::MAX,
    ensures
        tally_views(final(v)@) == counted(tally_views(old(v)@), tag@),
        bounded(final(v)@, n + 1),
{
    let ghost all = tally_views(v@);
    let mut i: usize = 0;
    assert(all.skip(0) =~= all);
    assert(all.take(0) + counted(all.skip(0), tag@) =~= counted(all, tag@));
    while i < v.len()
        invariant
            i <= v@.len(),
            v@ == old(v)@,
            all == tally_views(v@),
            all == tally_views(old(v)@),
            bounded(v@, n),
            0 <= n < usize::MAX,
            all.take(i as int) + counted(all.skip(i as int), tag@) == counted(all, tag@),
        decreases v@.len() - i,
    {
        let ghost rest = all.skip(i as int);
        assert(rest[0] == all[i as int]);
        if text::same(v[i].0.as_str(), tag.as_str()) {
            let c: usize = v[i].1;
            v.set(i, (tag, c + 1));
            assert(tally_views(v@) =~= all.take(i as int) + (seq![(tag@, (c + 1) as nat)]
                + rest.skip(1)));
            return;
        }
        assert(rest.skip(1) =~= all.skip(i + 1));
        assert(all.take(i as int) + (seq![rest[0]] + counted(rest.skip(1), tag@)) =~= all.take(
            i + 1,
        ) + counted(all.skip(i + 1), tag@));
        i = i + 1;
    }
    v.push((tag, 1));
    assert(all.skip(i as int) =~= seq![]);
    assert(tally_views(v@) =~= all.take(i as int) + seq![(tag@, 1nat)]);
}

fn rank_in(v: &mut Vec<(String, usize)>, x: (String, usize))
    ensures
        tally_views(final(v)@) == ranked_in(tally_views(old(v)@), (x.0@, x.1 as nat)),
{
    let ghost all = tally_views(v@);
    let ghost y = (x.0@, x.1 as nat);
    let mut i: usize = 0;
    assert(all.skip(0) =~= all);
    assert(all.take(0) + ranked_in(all.skip(0), y) =~= ranked_in(all, y));
    while i < v.len()
        invariant
            i <= v@.len(),
            v@ == old(v)@,
            all == tally_views(v@),
            all == tally_views(old(v)@),
            y == (x.0@, x.1 as nat),
            all.take(i as int) + ranked_in(all.skip(i as int), y) == ranked_in(all, y),
        decreases v@.len() - i,
    {
        let ghost rest = all.skip(i as int);
        assert(rest[0] == all[i as int]);
        if x.1 > v[i].1 || (x.1 == v[i].1 && stands_before(x.0.as_str(), v[i].0.as_str())) {
            v.insert(i, x);
            assert(tally_views(v@) =~= all.take(i as int) + (seq![y] + rest));
            return;
        }
        assert(rest.skip(1) =~= all.skip(i + 1));
        assert(all.take(i as int) + (seq![rest[0]] + ranked_in(rest.skip(1), y)) =~= all.take(
            i + 1,
        ) + ranked_in(all.skip(i + 1), y));
        i = i + 1;
    }
    v.push(x);
    assert(all.skip(i as int) =~= seq![]);
    assert(tally_views(v@) =~= all.take(i as int) + seq![y]);
}

/// The answers of a run, the most frequent first.
pub fn trigger_tally(ledger: &str) -> (r: Vec<(String, usize)>)
    ensures
        tally_views(r@) == ranked(tallied(lines(ledger@))),
{
    let ls = text::split_lines(ledger);
    let ghost all = texts(ls@);
    let mut counts: Vec<(String, usize)> = Vec::new();
    let mut i: usize = 0;
    assert(all.take(0) =~= seq![]);
    assert(tally_views(counts@) =~= seq![]);
    while i < ls.len()
        invariant
            i <= ls.len(),
            all == texts(ls@),
            bounded(counts@, i as int),
            tally_views(counts@) == tallied(all.take(i as int)),
        decreases ls.len() - i,
    {
        assert(all.take(i + 1).drop_last() =~= all.take(i as int));
        assert(all.take(i + 1).last() == ls@[i as int]@);
        match parse_tag(ls[i].as_str()) {
            Some(tag) => count_tag(&mut counts, tag, Ghost(i as int)),
            None => {},
        }
        i = i + 1;
    }
    assert(all.take(i as int) =~= all);
    let ghost found = tally_views(counts@);
    let mut out: Vec<(String, usize)> = Vec::new();
    let mut k: usize = 0;
    assert(found.take(0) =~= seq![]);
    assert(tally_views(out@) =~= seq![]);
    while k < counts.len()
        invariant
            k <= counts@.len(),
            found == tally_views(counts@),
            tally_views(out@) == ranked(found.take(k as int)),
        decreases counts@.len() - k,
    {
        assert(found.take(k + 1).drop_last() =~= found.take(k as int));
        assert(found.take(k + 1).last() == (counts@[k as int].0@, counts@[k as int].1 as nat));
        let x = (counts[k].0.clone(), counts[k].1);
        rank_in(&mut out, x);
        k = k + 1;
    }
    assert(found.take(k as int) =~= found);
    out
}

pub const NO_TRIGGER: &'static str =
    "none recorded — no survivor ever evaluated the trigger";

pub open spec fn tally_text(x: (Seq<char>, nat)) -> Seq<char> {
    x.0 + "="@ + digits(x.1)
}

/// The answers of a run on one line. That there are none is a sentence: nobody was there
/// to ask, which is another thing than an engine that refused.
pub open spec fn tally_line(ls: Seq<Seq<char>>) -> Seq<char> {
    let v = ranked(tallied(ls));
    if v.len() == 0 {
        NO_TRIGGER@
    } else {
        joined(v.map_values(|x: (Seq<char>, nat)| tally_text(x)), " "@)
    }
}

/// The answers of a run on one line; `ledger` is empty where there is none.
pub fn trigger_tally_line(ledger: &str) -> (r: String)
    ensures
        r@ == tally_line(lines(ledger@)),
{
    broadcast use lemma_texts_push;

    let counts = trigger_tally(ledger);
    let ghost v = ranked(tallied(lines(ledger@)));
    let ghost want = v.map_values(|x: (Seq<char>, nat)| tally_text(x));
    if counts.len() == 0 {
        assert(v.len() == 0);
        return NO_TRIGGER.to_owned();
    }
    let mut parts: Vec<String> = Vec::new();
    let mut i: usize = 0;
    assert(texts(parts@) =~= want.take(0));
    while i < counts.len()
        invariant
            i <= counts@.len(),
            v == tally_views(counts@),
            want == v.map_values(|x: (Seq<char>, nat)| tally_text(x)),
            texts(parts@) == want.take(i as int),
        decreases counts@.len() - i,
    {
        let mut s = counts[i].0.clone();
        s.append("=");
        s.append(decimal(counts[i].1 as u64).as_str());
        assert(v[i as int] == (counts@[i as int].0@, counts@[i as int].1 as nat));
        assert(want[i as int] == s@);
        parts.push(s);
        assert(want.take(i + 1) =~= want.take(i as int).push(want[i as int]));
        i = i + 1;
    }
    assert(want.take(i as int) =~= want);
    text::join(&parts, " ")
}

// ---------------------------------------------------------------------------
// The role
// ---------------------------------------------------------------------------

/// How often a process id stands among some.
pub open spec fn times(v: Seq<u32>, pid: u32) -> nat
    decreases v.len(),
{
    if v.len() == 0 {
        0
    } else {
        times(v.drop_last(), pid) + if v.last() == pid {
            1nat
        } else {
            0nat
        }
    }
}

fn count_pid(v: &Vec<u32>, pid: u32) -> (r: usize)
    ensures
        r == times(v@, pid),
{
    let mut n: usize = 0;
    let mut i: usize = 0;
    assert(v@.take(0) =~= seq![]);
    while i < v.len()
        invariant
            i <= v.len(),
            n <= i,
            n == times(v@.take(i as int), pid),
        decreases v.len() - i,
    {
        assert(v@.take(i + 1).drop_last() =~= v@.take(i as int));
        if v[i] == pid {
            n = n + 1;
        }
        i = i + 1;
    }
    assert(v@.take(i as int) =~= v@);
    n
}

/// The two ledgers of the role and the marker, read at one time.
pub struct RoleLedgers {
    /// Who inherited, one entry each time.
    pub inherited: Vec<u32>,
    /// Who left the role alive, one entry each time.
    pub left: Vec<u32>,
    /// Whom the marker names.
    pub marker: Option<u32>,
}

/// What is known, when a process is reaped, of it and the role.
#[derive(Debug, Clone, Copy, PartialEq, Eq, Structural)]
pub enum RoleAtReap {
    /// Not read: the driver killed it knowing what it was.
    NotAsked,
    Read {
        /// The owner that created the arena.
        creator: bool,
        /// How often it inherited.
        inherited: usize,
        /// How often it left the role alive.
        left: usize,
        /// Whom the marker names.
        marker: Option<u32>,
    },
}

impl RoleLedgers {
    /// What is known of a process.
    pub fn of(&self, pid: u32, creator: bool) -> (r: RoleAtReap)
        ensures
            r == (RoleAtReap::Read {
                creator,
                inherited: times(self.inherited@, pid) as usize,
                left: times(self.left@, pid) as usize,
                marker: self.marker,
            }),
            r->inherited == times(self.inherited@, pid),
            r->left == times(self.left@, pid),
    {
        RoleAtReap::Read {
            creator,
            inherited: count_pid(&self.inherited, pid),
            left: count_pid(&self.left, pid),
            marker: self.marker,
        }
    }
}

impl RoleAtReap {
    /// Whether the process held the role when it exited: it created the arena, or it
    /// inherited more often than it left.
    pub open spec fn holds(self) -> bool {
        match self {
            RoleAtReap::NotAsked => false,
            RoleAtReap::Read { creator, inherited, left, .. } => creator || inherited > left,
        }
    }

    pub fn held(self) -> (r: bool)
        ensures
            r == self.holds(),
    {
        match self {
            RoleAtReap::NotAsked => false,
            RoleAtReap::Read { creator, inherited, left, .. } => creator || inherited > left,
        }
    }
}

pub open spec fn role_counts(inherited: u64, left: u64) -> Seq<char> {
    "(inherited="@
        + digits(inherited as nat)
        + ",left-alive="@
        + digits(left as nat)
        + ")"@
}

fn say_role_counts(inherited: u64, left: u64) -> (r: String)
    ensures
        r@ == role_counts(inherited, left),
{
    let mut s = "(inherited=".to_owned();
    s.append(decimal(inherited).as_str());
    s.append(",left-alive=");
    s.append(decimal(left).as_str());
    s.append(")");
    s
}

pub open spec fn role_text(creator: bool, inherited: usize, left: usize) -> Seq<char> {
    let counts = role_counts(inherited as u64, left as u64);
    if creator {
        "held-at-exit(creating-owner)"@
    } else if inherited > left {
        "held-at-exit"@ + counts
    } else if inherited > 0 {
        "held-earlier-and-left-alive"@ + counts
    } else {
        "never-held"@
    }
}

pub open spec fn marker_text(marker: Option<u32>, pid: u32) -> Seq<char> {
    match marker {
        Some(m) => if m == pid {
            "names-this-pid"@
        } else {
            "no-longer-this-pid(now="@ + digits(m as nat) + ")"@
        },
        None => "none"@,
    }
}

impl RoleAtReap {
    pub open spec fn text(self, pid: u32) -> Seq<char> {
        match self {
            RoleAtReap::NotAsked => "role=not-asked"@,
            RoleAtReap::Read { creator, inherited, left, marker } => "role="@ + role_text(
                creator,
                inherited,
                left,
            ) + " marker="@ + marker_text(marker, pid),
        }
    }

    /// What is printed of it.
    pub fn field(self, pid: u32) -> (r: String)
        ensures
            r@ == self.text(pid),
    {
        match self {
            RoleAtReap::NotAsked => "role=not-asked".to_owned(),
            RoleAtReap::Read { creator, inherited, left, marker } => {
                let mut s = "role=".to_owned();
                let mut role = String::new();
                if creator {
                    role.append("held-at-exit(creating-owner)");
                } else if inherited > left {
                    role.append("held-at-exit");
                    role.append(say_role_counts(inherited as u64, left as u64).as_str());
                } else if inherited > 0 {
                    role.append("held-earlier-and-left-alive");
                    role.append(say_role_counts(inherited as u64, left as u64).as_str());
                } else {
                    role.append("never-held");
                }
                assert(role@ =~= role_text(creator, inherited, left));
                s.append(role.as_str());
                s.append(" marker=");
                match marker {
                    Some(m) => if m == pid {
                        s.append("names-this-pid");
                    } else {
                        let mut now = "no-longer-this-pid(now=".to_owned();
                        now.append(decimal(m as u64).as_str());
                        now.append(")");
                        s.append(now.as_str());
                    },
                    None => {
                        s.append("none");
                    },
                }
                s
            },
        }
    }
}

// ---------------------------------------------------------------------------
// Processes
// ---------------------------------------------------------------------------

pub open spec fn field_of(status: Seq<char>, name: Seq<char>) -> Option<Seq<char>> {
    match row_after(lines(status), name) {
        Some(v) => Some(trimmed(v)),
        None => None,
    }
}

fn find_field(status: &str, name: &str) -> (r: Option<String>)
    ensures
        text_of(r) == field_of(status@, name@),
{
    match find_row(status, name) {
        Some(v) => Some(text::trim(v.as_str())),
        None => None,
    }
}

pub open spec fn or_unclear(s: Option<Seq<char>>) -> Seq<char> {
    match s {
        Some(t) => t,
        None => "?"@,
    }
}

fn known_or_unclear(s: Option<String>) -> (r: String)
    ensures
        r@ == or_unclear(text_of(s)),
{
    match s {
        Some(t) => t,
        None => "?".to_owned(),
    }
}

pub open spec fn first_word(s: Option<Seq<char>>) -> Option<Seq<char>> {
    match s {
        Some(t) => if words(t).len() > 0 {
            Some(words(t)[0])
        } else {
            None
        },
        None => None,
    }
}

pub open spec fn not_blank(s: Option<Seq<char>>) -> Option<Seq<char>> {
    match s {
        Some(t) => if trimmed(t).len() > 0 {
            Some(trimmed(t))
        } else {
            None
        },
        None => None,
    }
}

/// What is printed of a process, from its status file and its wait channel.
pub open spec fn brief(status: Option<Seq<char>>, wchan: Option<Seq<char>>) -> Seq<char> {
    match status {
        None => "absent"@,
        Some(t) => or_unclear(first_word(field_of(t, "State:"@))) + "/cd"@ + or_unclear(
            field_of(t, "CoreDumping:"@),
        ) + "/thr"@ + or_unclear(field_of(t, "Threads:"@)) + "/"@ + or_unclear(not_blank(wchan)),
    }
}

/// State, core dumping, threads and wait channel of a process, or that it is gone.
pub fn proc_brief(status: &Option<String>, wchan: &Option<String>) -> (r: String)
    ensures
        r@ == brief(text_of(*status), text_of(*wchan)),
{
    let t = match status {
        None => return "absent".to_owned(),
        Some(t) => t.as_str(),
    };
    let state: Option<String> = match find_field(t, "State:") {
        Some(v) => {
            let w = text::split_words(v.as_str());
            if w.len() > 0 {
                assert(texts(w@)[0] == w@[0]@);
                Some(w[0].clone())
            } else {
                None
            }
        },
        None => None,
    };
    let channel: Option<String> = match wchan {
        Some(c) => {
            let c = text::trim(c.as_str());
            if text::chars(c.as_str()).len() > 0 {
                Some(c)
            } else {
                None
            }
        },
        None => None,
    };
    let mut s = known_or_unclear(state);
    s.append("/cd");
    s.append(known_or_unclear(find_field(t, "CoreDumping:")).as_str());
    s.append("/thr");
    s.append(known_or_unclear(find_field(t, "Threads:")).as_str());
    s.append("/");
    s.append(known_or_unclear(channel).as_str());
    s
}

/// Whether a process is dumping its core, from its status file.
pub fn proc_core_dumping(status: &Option<String>) -> (r: bool)
    ensures
        r == match text_of(*status) {
            Some(t) => field_of(t, "CoreDumping:"@) == Some("1"@),
            None => false,
        },
{
    match status {
        None => false,
        Some(t) => match find_field(t.as_str(), "CoreDumping:") {
            Some(v) => text::same(v.as_str(), "1"),
            None => false,
        },
    }
}

/// The last word of `/proc/loadavg`: the process id that was allocated last.
pub fn last_pid(loadavg: &Option<String>) -> (r: String)
    ensures
        r@ == match text_of(*loadavg) {
            Some(t) => if words(t).len() > 0 {
                words(t).last()
            } else {
                "?"@
            },
            None => "?"@,
        },
{
    match loadavg {
        None => "?".to_owned(),
        Some(t) => {
            let w = text::split_words(t.as_str());
            if w.len() > 0 {
                assert(texts(w@)[w.len() - 1] == w@[w.len() - 1]@);
                w[w.len() - 1].clone()
            } else {
                "?".to_owned()
            }
        },
    }
}

// ---------------------------------------------------------------------------
// What the ledgers say
// ---------------------------------------------------------------------------

/// A ledger names the processes that its lines are, in their order, and every line that is not
/// blank is one inheritance.
pub proof fn law_a_ledger_is_its_lines(ls: Seq<Seq<char>>)
    ensures
        pids(ls) == ls.filter(|l: Seq<char>| read_u32(trimmed(l)) is Some).map_values(
            |l: Seq<char>| read_u32(trimmed(l))->0,
        ),
        written(ls) == ls.filter(|l: Seq<char>| !blank(l)).len(),
    decreases ls.len(),
{
    reveal(Seq::filter);
    let f = |l: Seq<char>| read_u32(trimmed(l)) is Some;
    let g = |l: Seq<char>| read_u32(trimmed(l))->0;
    if ls.len() > 0 {
        law_a_ledger_is_its_lines(ls.drop_last());
        let rest = ls.drop_last().filter(f);
        assert(rest.push(ls.last()).map_values(g) =~= rest.map_values(g).push(g(ls.last())));
    } else {
        assert(pids(ls) =~= ls.filter(f).map_values(g));
    }
}

/// Who is attached and under whom: a file is named after the one and holds the other, and a file
/// of which either cannot be read says nothing.
pub proof fn law_who_is_attached(entries: Seq<(String, Option<String>)>, pid: u32, under: u32)
    ensures
        attached(entries).contains((pid, under)) <==> exists|j: int|
            0 <= j < entries.len() && read_u32((#[trigger] entries[j]).0@) == Some(pid) && (
            entries[j].1 matches Some(s) && read_u32(trimmed(s@)) == Some(under)),
        attached(entries).len() <= entries.len(),
    decreases entries.len(),
{
    if entries.len() > 0 {
        let rest = entries.drop_last();
        let x = (pid, under);
        let n = entries.len() - 1;
        law_who_is_attached(rest, pid, under);
        assert forall|j: int| 0 <= j < n implies #[trigger] entries[j] == rest[j] by {}
        assert(entries[n] == entries.last());
        let got = attachment(entries.last().0@, text_of(entries.last().1));
        let v = attached(rest);
        if got is Some {
            assert(v.push(got->0).contains(x) <==> v.contains(x) || got->0 == x) by {
                if v.contains(x) {
                    let j = v.index_of(x);
                    assert(v.push(got->0)[j] == x);
                }
                assert(v.push(got->0)[v.len() as int] == got->0);
            }
        }
        if attached(entries).contains(x) && got != Some(x) {
            let j = choose|j: int|
                0 <= j < rest.len() && read_u32((#[trigger] rest[j]).0@) == Some(pid) && (
                rest[j].1 matches Some(s) && read_u32(trimmed(s@)) == Some(under));
            assert(entries[j] == rest[j]);
        }
    }
}

/// Each answer has a name of its own.
pub proof fn law_the_names_of_answers(s: String)
    ensures
        Trigger::Inherited.name() == "inherited"@,
        Trigger::OwnerAlive.name() == "owner-alive"@,
        Trigger::Contended.name() == "contended"@,
        Trigger::ReadOnly.name() == "read-only"@,
        Trigger::NotApplicable.name() == "not-applicable"@,
        Trigger::Other(s).name() == "ok-"@ + s@,
        Trigger::Failed(s).name() == "err-"@ + s@,
{
}

/// The tag of a line is what follows its first space.
pub proof fn law_a_tag_follows_the_first_space(line: Seq<char>)
    ensures
        tag_of(line) is None <==> !trimmed(line).contains(' '),
        tag_of(line) matches Some(tag) ==> exists|i: int|
            0 <= i < trimmed(line).len() && #[trigger] trimmed(line)[i] == ' ' && tag == trimmed(
                line,
            ).skip(i + 1) && forall|j: int| 0 <= j < i ==> #[trigger] trimmed(line)[j] != ' ',
{
    let t = trimmed(line);
    let n = until(t, ' ') as int;
    text::lemma_until(t, ' ');
    if n < t.len() {
        assert(t[n] == ' ');
        assert(t.contains(' '));
    } else if t.contains(' ') {
        let j = t.index_of(' ');
        assert(t[j] == ' ');
    }
}

/// How often a tag was counted.
pub open spec fn count_of(v: Seq<(Seq<char>, nat)>, tag: Seq<char>) -> nat
    decreases v.len(),
{
    if v.len() == 0 {
        0
    } else {
        count_of(v.drop_last(), tag) + if v.last().0 == tag {
            v.last().1
        } else {
            0
        }
    }
}

proof fn lemma_count_of_front(v: Seq<(Seq<char>, nat)>, tag: Seq<char>)
    requires
        v.len() > 0,
    ensures
        count_of(v, tag) == count_of(v.skip(1), tag) + if v[0].0 == tag {
            v[0].1
        } else {
            0
        },
    decreases v.len(),
{
    if v.len() > 1 {
        lemma_count_of_front(v.drop_last(), tag);
        assert(v.drop_last().skip(1) =~= v.skip(1).drop_last());
        assert(v.skip(1).last() == v.last());
    } else {
        assert(v.skip(1) =~= seq![]);
        assert(v.drop_last() =~= seq![]);
        assert(v.last() == v[0]);
    }
}

proof fn lemma_counted(v: Seq<(Seq<char>, nat)>, tag: Seq<char>, other: Seq<char>)
    ensures
        count_of(counted(v, tag), other) == count_of(v, other) + if tag == other {
            1nat
        } else {
            0
        },
    decreases v.len(),
{
    let w = counted(v, tag);
    if v.len() == 0 {
        lemma_count_of_front(w, other);
        assert(w.skip(1) =~= seq![]);
        assert(w[0] == (tag, 1nat));
    } else {
        lemma_count_of_front(v, other);
        lemma_count_of_front(w, other);
        if v[0].0 == tag {
            assert(w.skip(1) =~= v.skip(1));
        } else {
            lemma_counted(v.skip(1), tag, other);
            assert(w.skip(1) =~= counted(v.skip(1), tag));
        }
    }
}

/// A tally counts each tag as often as a line has it.
pub proof fn law_a_tally_counts_lines(ls: Seq<Seq<char>>, tag: Seq<char>)
    ensures
        count_of(tallied(ls), tag) == ls.filter(|l: Seq<char>| tag_of(l) == Some(tag)).len(),
    decreases ls.len(),
{
    reveal(Seq::filter);
    if ls.len() > 0 {
        law_a_tally_counts_lines(ls.drop_last(), tag);
        if let Some(t) = tag_of(ls.last()) {
            lemma_counted(tallied(ls.drop_last()), t, tag);
        }
    }
}

proof fn lemma_ranking_keeps(v: Seq<(Seq<char>, nat)>, x: (Seq<char>, nat))
    ensures
        ranked_in(v, x).to_multiset() == v.to_multiset().insert(x),
    decreases v.len(),
{
    broadcast use vstd::seq_lib::group_to_multiset_ensures;

    if v.len() == 0 {
        assert(ranked_in(v, x) =~= v.push(x));
    } else if outranks(x, v[0]) {
        assert(seq![x] + v =~= v.insert(0, x));
    } else {
        lemma_ranking_keeps(v.skip(1), x);
        let w = ranked_in(v.skip(1), x);
        assert(seq![v[0]] + w =~= w.insert(0, v[0]));
        assert(v =~= v.skip(1).insert(0, v[0]));
        assert(v.to_multiset().insert(x) =~= v.skip(1).to_multiset().insert(x).insert(v[0]));
    }
}

/// Ranking moves what was counted and changes none of it: what was counted more often comes
/// first, and of what was counted as often what is first by its name.
pub proof fn law_a_ranking_keeps_what_was_counted(v: Seq<(Seq<char>, nat)>)
    ensures
        ranked(v).to_multiset() == v.to_multiset(),
        forall|i: int, j: int|
            0 <= i < j < ranked(v).len() ==> (#[trigger] ranked(v)[i]).1 >= (
            #[trigger] ranked(v)[j]).1,
        forall|i: int, j: int|
            0 <= i < j < ranked(v).len() && (#[trigger] ranked(v)[i]).1 == (
            #[trigger] ranked(v)[j]).1 ==> !precedes(ranked(v)[j].0, ranked(v)[i].0),
    decreases v.len(),
{
    broadcast use vstd::seq_lib::group_to_multiset_ensures;

    law_tallies_are_ranked(v);
    let r = ranked(v);
    assert forall|i: int, j: int| 0 <= i < j < r.len() implies (#[trigger] r[i]).1 >= (
    #[trigger] r[j]).1 by {
        assert(!outranks(r[j], r[i]));
    }
    assert forall|i: int, j: int|
        0 <= i < j < r.len() && (#[trigger] r[i]).1 == (#[trigger] r[j]).1 implies !precedes(
        r[j].0,
        r[i].0,
    ) by {
        assert(!outranks(r[j], r[i]));
    }
    if v.len() > 0 {
        law_a_ranking_keeps_what_was_counted(v.drop_last());
        lemma_ranking_keeps(ranked(v.drop_last()), v.last());
        assert(v =~= v.drop_last().push(v.last()));
    } else {
        assert(ranked(v) =~= v);
    }
}

/// A process held the role where it created the arena, or inherited it more often than it left
/// it; each of its inheritances counts, and each time that it left.
pub proof fn law_who_held_the_role(
    v: Seq<u32>,
    pid: u32,
    creator: bool,
    inherited: usize,
    left: usize,
    marker: Option<u32>,
)
    ensures
        times(v, pid) == v.filter(|p: u32| p == pid).len(),
        (RoleAtReap::Read { creator, inherited, left, marker }).holds() <==> creator || inherited
            > left,
        !RoleAtReap::NotAsked.holds(),
    decreases v.len(),
{
    reveal(Seq::filter);
    if v.len() > 0 {
        law_who_held_the_role(v.drop_last(), pid, creator, inherited, left, marker);
    }
}

/// What is said of the role of a process: that it held it exactly where it did, with how often it
/// inherited and left it, and whom the marker names.
pub proof fn law_a_role_is_told_as_it_was(
    creator: bool,
    inherited: usize,
    left: usize,
    marker: Option<u32>,
    pid: u32,
)
    ensures
        ({
            let said = (RoleAtReap::Read { creator, inherited, left, marker }).text(pid);
            &&& creator || inherited > left ==> begins(said, "role="@ + "held-at-exit"@)
            &&& !creator && 0 < inherited <= left ==> begins(
                said,
                "role="@ + "held-earlier-and-left-alive"@,
            )
            &&& !creator && inherited == 0 ==> begins(said, "role="@ + "never-held"@)
            &&& !creator && inherited > 0 ==> holds(
                said,
                "(inherited="@ + digits((inherited as u64) as nat) + ",left-alive="@ + digits(
                    (left as u64) as nat,
                ) + ")"@,
            )
            &&& marker == Some(pid) ==> holds(said, " marker="@ + "names-this-pid"@)
            &&& marker is None ==> holds(said, " marker="@ + "none"@)
            &&& marker matches Some(m) ==> (m != pid ==> holds(
                said,
                " marker="@ + ("no-longer-this-pid(now="@ + digits(m as nat) + ")"@),
            ))
        }),
{
    let said = (RoleAtReap::Read { creator, inherited, left, marker }).text(pid);
    let counts = "(inherited="@ + digits((inherited as u64) as nat) + ",left-alive="@ + digits(
        (left as u64) as nat,
    ) + ")"@;
    let role = role_text(creator, inherited, left);
    let named = " marker="@ + marker_text(marker, pid);
    assert(said =~= "role="@ + role + named);
    assert(said.take(said.len() as int) =~= said);
    lemma_end_of_a_beginning(said, "role="@ + role, named);
    reveal_strlit("held-at-exit(creating-owner)");
    reveal_strlit("held-at-exit");
    if creator {
        assert(role.take("held-at-exit"@.len() as int) =~= "held-at-exit"@);
    } else if inherited > left {
        assert("role="@ + role =~= "role="@ + "held-at-exit"@ + counts);
        lemma_end_of_a_beginning(said, "role="@ + "held-at-exit"@, counts);
    } else if inherited > 0 {
        assert("role="@ + role =~= "role="@ + "held-earlier-and-left-alive"@ + counts);
        lemma_end_of_a_beginning(said, "role="@ + "held-earlier-and-left-alive"@, counts);
    }
    if creator {
        let p = "role="@ + "held-at-exit"@;
        assert(said.take(p.len() as int) =~= p);
    }
}

/// What is said of a process: its state, whether it is dumping, its threads and what it waits
/// for, in this order.
pub proof fn law_a_process_in_brief(status: Seq<char>, wchan: Option<Seq<char>>)
    ensures
        brief(None, wchan) == "absent"@,
        ({
            let said = brief(Some(status), wchan);
            let state = or_unclear(first_word(field_of(status, "State:"@)));
            let dumps = or_unclear(field_of(status, "CoreDumping:"@));
            let threads = or_unclear(field_of(status, "Threads:"@));
            &&& begins(said, state)
            &&& holds(said, "/cd"@ + dumps)
            &&& holds(said, "/thr"@ + threads)
            &&& wchan matches Some(w) ==> (trimmed(w).len() > 0 ==> holds(said, "/"@ + trimmed(w)))
        }),
{
    let doc = brief(Some(status), wchan);
    let state = or_unclear(first_word(field_of(status, "State:"@)));
    let dumps = or_unclear(field_of(status, "CoreDumping:"@));
    let threads = or_unclear(field_of(status, "Threads:"@));
    let waits = or_unclear(not_blank(wchan));
    let a0 = state;
    let a1 = a0 + ("/cd"@ + dumps);
    let a2 = a1 + ("/thr"@ + threads);
    let a3 = a2 + ("/"@ + waits);
    assert(doc =~= a3);
    assert(doc.take(a3.len() as int) =~= a3);
    lemma_end_of_a_beginning(doc, a2, ("/"@ + waits));
    lemma_end_of_a_beginning(doc, a1, ("/thr"@ + threads));
    lemma_end_of_a_beginning(doc, a0, ("/cd"@ + dumps));
}

} // verus!
