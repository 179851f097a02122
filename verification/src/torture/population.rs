//! Who is attached to the arena, by count and by identity.

use vstd::prelude::*;

use super::health::RoundHealth;
use super::DIAG;
use crate::text::{
    self, begins, decimal, digits, holds, joined, lemma_end_of_a_beginning, lemma_texts_push, texts,
};

verus! {

/// One slot of the participant table, as it was read.
#[derive(Debug, Clone, Copy, PartialEq, Eq, Structural)]
pub struct SlotSeen {
    pub slot: u32,
    /// The process of its live record, where it has one.
    pub pid: Option<u32>,
    /// Whether the kernel says that its process is alive.
    pub alive: bool,
}

/// What a census counts.
#[derive(Debug, Clone, Copy, PartialEq, Eq, Structural)]
pub struct Census {
    pub writers_live: u64,
    pub writers_dead: u64,
    pub slots_registered: u64,
    pub slots_alive: u64,
}

/// How many of some claims are held by a participant that is alive, or is not. A claim that
/// nobody holds is nothing.
pub open spec fn claimed(claims: Seq<Option<bool>>, alive: bool) -> nat
    decreases claims.len(),
{
    if claims.len() == 0 {
        0
    } else {
        claimed(claims.drop_last(), alive) + if claims.last() == Some(alive) {
            1nat
        } else {
            0nat
        }
    }
}

/// The slots that a census keeps: not its own, and those with a record or a live process.
pub open spec fn kept(rows: Seq<SlotSeen>, me: u32) -> Seq<SlotSeen>
    decreases rows.len(),
{
    if rows.len() == 0 {
        seq![]
    } else {
        let rest = kept(rows.drop_last(), me);
        let x = rows.last();
        if x.slot != me && (x.pid is Some || x.alive) {
            rest.push(x)
        } else {
            rest
        }
    }
}

/// How many of some slots have a live record.
pub open spec fn registered(v: Seq<SlotSeen>) -> nat
    decreases v.len(),
{
    if v.len() == 0 {
        0
    } else {
        registered(v.drop_last()) + if v.last().pid is Some {
            1nat
        } else {
            0nat
        }
    }
}

/// How many of some slots are alive.
pub open spec fn living(v: Seq<SlotSeen>) -> nat
    decreases v.len(),
{
    if v.len() == 0 {
        0
    } else {
        living(v.drop_last()) + if v.last().alive {
            1nat
        } else {
            0nat
        }
    }
}

fn count_claims(claims: &Vec<Option<bool>>, alive: bool) -> (r: u64)
    ensures
        r == claimed(claims@, alive),
{
    let mut n: u64 = 0;
    let mut i: usize = 0;
    assert(claims@.take(0) =~= seq![]);
    while i < claims.len()
        invariant
            i <= claims.len(),
            n <= i,
            n == claimed(claims@.take(i as int), alive),
        decreases claims.len() - i,
    {
        assert(claims@.take(i + 1).drop_last() =~= claims@.take(i as int));
        match claims[i] {
            Some(a) => if a == alive {
                n = n + 1;
            },
            None => {},
        }
        i = i + 1;
    }
    assert(claims@.take(i as int) =~= claims@);
    n
}

/// Counts the claims of the chain and the slots of the table, and keeps the slots that it
/// counted. `claims` holds, for each edge, whether the holder of its claim is alive; `me`
/// is the slot that is not counted.
pub fn census(claims: &Vec<Option<bool>>, rows: &Vec<SlotSeen>, me: u32) -> (r: (
    Census,
    Vec<SlotSeen>,
))
    ensures
        r.0.writers_live == claimed(claims@, true),
        r.0.writers_dead == claimed(claims@, false),
        r.1@ == kept(rows@, me),
        r.0.slots_registered == registered(kept(rows@, me)),
        r.0.slots_alive == living(kept(rows@, me)),
{
    let mut seen: Vec<SlotSeen> = Vec::new();
    let mut with_record: u64 = 0;
    let mut alive: u64 = 0;
    let mut i: usize = 0;
    assert(rows@.take(0) =~= seq![]);
    while i < rows.len()
        invariant
            i <= rows.len(),
            with_record <= i,
            alive <= i,
            seen@ == kept(rows@.take(i as int), me),
            with_record == registered(seen@),
            alive == living(seen@),
        decreases rows.len() - i,
    {
        assert(rows@.take(i + 1).drop_last() =~= rows@.take(i as int));
        let x = rows[i];
        if x.slot != me && (x.pid.is_some() || x.alive) {
            let ghost before = seen@;
            seen.push(x);
            assert(seen@.drop_last() =~= before);
            if x.pid.is_some() {
                with_record = with_record + 1;
            }
            if x.alive {
                alive = alive + 1;
            }
        }
        i = i + 1;
    }
    assert(rows@.take(i as int) =~= rows@);
    (
        Census {
            writers_live: count_claims(claims, true),
            writers_dead: count_claims(claims, false),
            slots_registered: with_record,
            slots_alive: alive,
        },
        seen,
    )
}

impl RoundHealth {
    /// Notes what a census counted.
    pub fn see_census(&mut self, c: Census)
        ensures
            *final(self) == (RoundHealth {
                writers_live: c.writers_live,
                writers_dead: c.writers_dead,
                slots_registered: c.slots_registered,
                slots_alive: c.slots_alive,
                ..*old(self)
            }),
    {
        self.writers_live = c.writers_live;
        self.writers_dead = c.writers_dead;
        self.slots_registered = c.slots_registered;
        self.slots_alive = c.slots_alive;
    }
}

/// The slots with a record of a process that is dead.
pub open spec fn dead(rows: Seq<SlotSeen>, me: u32) -> Seq<SlotSeen>
    decreases rows.len(),
{
    if rows.len() == 0 {
        seq![]
    } else {
        let rest = dead(rows.drop_last(), me);
        let x = rows.last();
        if x.slot != me && x.pid is Some && !x.alive {
            rest.push(x)
        } else {
            rest
        }
    }
}

/// The slots with a live record of a process that the kernel says is dead, but for one's
/// own: at the end of a run each of them has leaked.
pub fn dead_participant_slots(rows: &Vec<SlotSeen>, me: u32) -> (r: Vec<SlotSeen>)
    ensures
        r@ == dead(rows@, me),
{
    let mut out: Vec<SlotSeen> = Vec::new();
    let mut i: usize = 0;
    assert(rows@.take(0) =~= seq![]);
    while i < rows.len()
        invariant
            i <= rows@.len(),
            out@ == dead(rows@.take(i as int), me),
        decreases rows@.len() - i,
    {
        assert(rows@.take(i + 1).drop_last() =~= rows@.take(i as int));
        let x = rows[i];
        if x.slot != me && x.pid.is_some() && !x.alive {
            out.push(x);
        }
        i = i + 1;
    }
    assert(rows@.take(i as int) =~= rows@);
    out
}

/// The slots of the processes that are alive, but for one's own.
pub open spec fn alive_but(rows: Seq<SlotSeen>, me: u32) -> Seq<u32>
    decreases rows.len(),
{
    if rows.len() == 0 {
        seq![]
    } else {
        let rest = alive_but(rows.drop_last(), me);
        let x = rows.last();
        if x.alive && x.slot != me {
            rest.push(x.slot)
        } else {
            rest
        }
    }
}

/// The slots whose processes the kernel says are alive, but for one's own, in the order of
/// the table.
pub fn living_slots(rows: &Vec<SlotSeen>, me: u32) -> (r: Vec<u32>)
    ensures
        r@ == alive_but(rows@, me),
{
    let mut out: Vec<u32> = Vec::new();
    let mut i: usize = 0;
    assert(rows@.take(0) =~= seq![]);
    while i < rows.len()
        invariant
            i <= rows@.len(),
            out@ == alive_but(rows@.take(i as int), me),
        decreases rows@.len() - i,
    {
        assert(rows@.take(i + 1).drop_last() =~= rows@.take(i as int));
        let x = rows[i];
        if x.alive && x.slot != me {
            out.push(x.slot);
        }
        i = i + 1;
    }
    assert(rows@.take(i as int) =~= rows@);
    out
}

/// Where every record is of a live process, and every live process has one, the two counts
/// of a census are the same.
pub proof fn law_no_leak_means_equal_counts(rows: Seq<SlotSeen>, me: u32)
    requires
        forall|i: int| 0 <= i < rows.len() ==> ((#[trigger] rows[i]).pid is Some) == rows[i].alive,
    ensures
        registered(kept(rows, me)) == living(kept(rows, me)),
        dead(rows, me).len() == 0,
    decreases rows.len(),
{
    if rows.len() > 0 {
        let w = rows.drop_last();
        assert forall|i: int| 0 <= i < w.len() implies ((#[trigger] w[i]).pid is Some)
            == w[i].alive by {
            assert(w[i] == rows[i]);
        }
        law_no_leak_means_equal_counts(w, me);
        let k = kept(w, me);
        assert(k.push(rows.last()).drop_last() =~= k);
        assert(rows[rows.len() - 1] == rows.last());
    }
}

// ---------------------------------------------------------------------------
// Texts
// ---------------------------------------------------------------------------

pub open spec fn number_or_unclear(n: Option<u32>) -> Seq<char> {
    match n {
        Some(p) => digits(p as nat),
        None => "?"@,
    }
}

/// One slot: its number and process, that its record is of a dead process, and that it is
/// the driver's.
pub open spec fn slot_text(s: SlotSeen, driver: Option<u32>) -> Seq<char> {
    digits(s.slot as nat) + ":"@ + number_or_unclear(s.pid) + (if s.alive {
        ""@
    } else {
        "(dead-record)"@
    }) + (if s.pid is Some && s.pid == driver {
        "(driver)"@
    } else {
        ""@
    })
}

pub open spec fn slot_texts(v: Seq<SlotSeen>, driver: Option<u32>) -> Seq<Seq<char>> {
    v.map_values(|s: SlotSeen| slot_text(s, driver))
}

pub open spec fn slots_text(v: Seq<SlotSeen>, driver: Option<u32>) -> Seq<char> {
    "["@ + joined(slot_texts(v, driver), ","@) + "]"@
}

pub(crate) fn is_pid(a: Option<u32>, pid: u32) -> (r: bool)
    ensures
        r == (a == Some(pid)),
{
    match a {
        Some(p) => p == pid,
        None => false,
    }
}

fn say_slot(s: SlotSeen, driver: Option<u32>) -> (r: String)
    ensures
        r@ == slot_text(s, driver),
{
    let mut t = decimal(s.slot as u64);
    t.append(":");
    match s.pid {
        Some(p) => {
            t.append(decimal(p as u64).as_str());
        },
        None => {
            t.append("?");
        },
    }
    if s.alive {
        t.append("");
    } else {
        t.append("(dead-record)");
    }
    let is_driver = match s.pid {
        Some(p) => is_pid(driver, p),
        None => false,
    };
    if is_driver {
        t.append("(driver)");
    } else {
        t.append("");
    }
    t
}

/// Some slots in brackets.
pub fn seen_list(seen: &Vec<SlotSeen>, driver: Option<u32>) -> (r: String)
    ensures
        r@ == slots_text(seen@, driver),
{
    broadcast use lemma_texts_push;

    let ghost want = slot_texts(seen@, driver);
    let mut items: Vec<String> = Vec::new();
    let mut i: usize = 0;
    assert(texts(items@) =~= want.take(0));
    while i < seen.len()
        invariant
            i <= seen@.len(),
            want == slot_texts(seen@, driver),
            texts(items@) == want.take(i as int),
        decreases seen@.len() - i,
    {
        items.push(say_slot(seen[i], driver));
        assert(want.take(i + 1) =~= want.take(i as int).push(want[i as int]));
        i = i + 1;
    }
    assert(want.take(i as int) =~= want);
    let mut s = "[".to_owned();
    s.append(text::join(&items, ",").as_str());
    s.append("]");
    s
}

/// A process that the driver started, and what is printed of it.
pub struct KidSeen {
    pub pid: u32,
    pub brief: String,
}

/// The first slot of a process that is alive, or with `any` the first that is its.
pub open spec fn slot_of(seen: Seq<SlotSeen>, pid: u32, any: bool) -> Option<u32>
    decreases seen.len(),
{
    if seen.len() == 0 {
        None
    } else if seen[0].pid == Some(pid) && (any || seen[0].alive) {
        Some(seen[0].slot)
    } else {
        slot_of(seen.skip(1), pid, any)
    }
}

/// What a census made of a process.
pub open spec fn made_of(seen: Seq<SlotSeen>, pid: u32) -> Seq<char> {
    match slot_of(seen, pid, false) {
        Some(s) => "counted@slot"@ + digits(s as nat),
        None => match slot_of(seen, pid, true) {
            Some(s) => "dead-record@slot"@ + digits(s as nat),
            None => "absent"@,
        },
    }
}

fn find_slot(seen: &Vec<SlotSeen>, pid: u32, any: bool) -> (r: Option<u32>)
    ensures
        r == slot_of(seen@, pid, any),
{
    let mut i: usize = 0;
    assert(seen@.skip(0) =~= seen@);
    while i < seen.len()
        invariant
            i <= seen@.len(),
            slot_of(seen@.skip(i as int), pid, any) == slot_of(seen@, pid, any),
        decreases seen@.len() - i,
    {
        assert(seen@.skip(i as int)[0] == seen@[i as int]);
        assert(seen@.skip(i as int).skip(1) =~= seen@.skip(i + 1));
        if is_pid(seen[i].pid, pid) && (any || seen[i].alive) {
            return Some(seen[i].slot);
        }
        i = i + 1;
    }
    None
}

pub open spec fn entry(
    label: Seq<char>,
    pid: u32,
    brief: Seq<char>,
    seen: Seq<SlotSeen>,
    marker: Option<u32>,
) -> Seq<char> {
    label + "="@ + digits(pid as nat) + " census="@ + made_of(seen, pid) + " marker="@ + (
    if marker == Some(pid) {
        "yes"@
    } else {
        "no"@
    }) + " proc="@ + brief
}

fn say_entry(label: &str, t: &KidSeen, seen: &Vec<SlotSeen>, marker: Option<u32>) -> (r: String)
    ensures
        r@ == entry(label@, t.pid, t.brief@, seen@, marker),
{
    let mut census = "absent".to_owned();
    match find_slot(seen, t.pid, false) {
        Some(s) => {
            census = "counted@slot".to_owned();
            census.append(decimal(s as u64).as_str());
        },
        None => match find_slot(seen, t.pid, true) {
            Some(s) => {
                census = "dead-record@slot".to_owned();
                census.append(decimal(s as u64).as_str());
            },
            None => {},
        },
    }
    let mut s = label.to_owned();
    s.append("=");
    s.append(decimal(t.pid as u64).as_str());
    s.append(" census=");
    s.append(census.as_str());
    s.append(" marker=");
    if is_pid(marker, t.pid) {
        s.append("yes");
    } else {
        s.append("no");
    }
    s.append(" proc=");
    s.append(t.brief.as_str());
    s
}

/// The entry of the `i`-th worker.
pub open spec fn worker_entry(
    i: int,
    kid: Option<KidSeen>,
    seen: Seq<SlotSeen>,
    marker: Option<u32>,
) -> Seq<char> {
    let label = "k"@ + digits(i as nat);
    match kid {
        Some(k) => entry(label, k.pid, k.brief@, seen, marker),
        None => label + "=empty"@,
    }
}

pub open spec fn worker_entries(
    kids: Seq<Option<KidSeen>>,
    seen: Seq<SlotSeen>,
    marker: Option<u32>,
) -> Seq<Seq<char>> {
    Seq::new(kids.len(), |i: int| worker_entry(i, kids[i], seen, marker))
}

pub open spec fn all_entries(
    kids: Seq<Option<KidSeen>>,
    owner: Option<KidSeen>,
    seen: Seq<SlotSeen>,
    marker: Option<u32>,
) -> Seq<Seq<char>> {
    worker_entries(kids, seen, marker) + (match owner {
        Some(k) => seq![entry("owner-child"@, k.pid, k.brief@, seen, marker)],
        None => seq![],
    })
}

pub open spec fn is_kid(kid: Option<KidSeen>, pid: u32) -> bool {
    kid matches Some(k) && k.pid == pid
}

/// Whether a process is one that the driver started.
pub open spec fn ours(kids: Seq<Option<KidSeen>>, owner: Option<KidSeen>, pid: u32) -> bool {
    ||| exists|i: int| 0 <= i < kids.len() && is_kid(#[trigger] kids[i], pid)
    ||| is_kid(owner, pid)
}

/// The slots of processes that the driver did not start.
pub open spec fn strangers(
    seen: Seq<SlotSeen>,
    kids: Seq<Option<KidSeen>>,
    owner: Option<KidSeen>,
) -> Seq<SlotSeen>
    decreases seen.len(),
{
    if seen.len() == 0 {
        seq![]
    } else {
        let rest = strangers(seen.drop_last(), kids, owner);
        let x = seen.last();
        if x.pid matches Some(p) && ours(kids, owner, p) {
            rest
        } else {
            rest.push(x)
        }
    }
}

fn is_ours(kids: &Vec<Option<KidSeen>>, owner: &Option<KidSeen>, pid: u32) -> (r: bool)
    ensures
        r == ours(kids@, *owner, pid),
{
    match owner {
        Some(k) => if k.pid == pid {
            return true;
        },
        None => {},
    }
    let mut i: usize = 0;
    while i < kids.len()
        invariant
            i <= kids@.len(),
            !is_kid(*owner, pid),
            forall|j: int| 0 <= j < i ==> !is_kid(#[trigger] kids@[j], pid),
        decreases kids@.len() - i,
    {
        match &kids[i] {
            Some(k) => if k.pid == pid {
                assert(is_kid(kids@[i as int], pid));
                return true;
            },
            None => {},
        }
        i = i + 1;
    }
    false
}

fn find_strangers(
    seen: &Vec<SlotSeen>,
    kids: &Vec<Option<KidSeen>>,
    owner: &Option<KidSeen>,
) -> (r: Vec<SlotSeen>)
    ensures
        r@ == strangers(seen@, kids@, *owner),
{
    let mut out: Vec<SlotSeen> = Vec::new();
    let mut i: usize = 0;
    assert(seen@.take(0) =~= seq![]);
    while i < seen.len()
        invariant
            i <= seen@.len(),
            out@ == strangers(seen@.take(i as int), kids@, *owner),
        decreases seen@.len() - i,
    {
        assert(seen@.take(i + 1).drop_last() =~= seen@.take(i as int));
        let known = match seen[i].pid {
            Some(p) => is_ours(kids, owner, p),
            None => false,
        };
        if !known {
            out.push(seen[i]);
        }
        i = i + 1;
    }
    assert(seen@.take(i as int) =~= seen@);
    out
}

/// The population on one line.
pub open spec fn population_text(
    diag: Seq<char>,
    what: Seq<char>,
    stamp: Seq<char>,
    when: Seq<char>,
    alive: u64,
    marker: Seq<char>,
    driver: u64,
    slot: u64,
    entries: Seq<char>,
    others: Seq<char>,
) -> Seq<char> {
    diag
        + " population ["@
        + what
        + "] stamp="@
        + stamp
        + " census_at="@
        + when
        + " census_alive="@
        + digits(alive as nat)
        + " marker="@
        + marker
        + " observer=pid"@
        + digits(driver as nat)
        + "/slot"@
        + digits(slot as nat)
        + " | "@
        + entries
        + " | untracked census slots "@
        + others
}

fn say_population_text(
    diag: &str,
    what: &str,
    stamp: &str,
    when: &str,
    alive: u64,
    marker: &str,
    driver: u64,
    slot: u64,
    entries: &str,
    others: &str,
) -> (r: String)
    ensures
        r@ == population_text(diag@, what@, stamp@, when@, alive, marker@, driver, slot, entries@, others@),
{
    let mut s = diag.to_owned();
    s.append(" population [");
    s.append(what);
    s.append("] stamp=");
    s.append(stamp);
    s.append(" census_at=");
    s.append(when);
    s.append(" census_alive=");
    s.append(decimal(alive).as_str());
    s.append(" marker=");
    s.append(marker);
    s.append(" observer=pid");
    s.append(decimal(driver).as_str());
    s.append("/slot");
    s.append(decimal(slot).as_str());
    s.append(" | ");
    s.append(entries);
    s.append(" | untracked census slots ");
    s.append(others);
    s
}

pub open spec fn named(marker: Option<u32>) -> Seq<char> {
    match marker {
        Some(p) => digits(p as nat),
        None => "none"@,
    }
}

/// The population by identity: the worth of a census when the run is about to give up.
pub struct Population {
    pub what: String,
    pub stamp: String,
    /// When the census was taken.
    pub census_when: String,
    pub marker: Option<u32>,
    pub driver: u32,
    pub observer_slot: u32,
}

/// The population by identity, on one line.
pub fn population_diag(
    p: &Population,
    kids: &Vec<Option<KidSeen>>,
    owner: &Option<KidSeen>,
    seen: &Vec<SlotSeen>,
) -> (r: String)
    ensures
        r@ == population_text(
            DIAG@,
            p.what@,
            p.stamp@,
            p.census_when@,
            living(seen@) as u64,
            named(p.marker),
            p.driver as u64,
            p.observer_slot as u64,
            joined(all_entries(kids@, *owner, seen@, p.marker), "; "@),
            slots_text(strangers(seen@, kids@, *owner), Some(p.driver)),
        ),
{
    broadcast use lemma_texts_push;

    let ghost want = worker_entries(kids@, seen@, p.marker);
    let mut entries: Vec<String> = Vec::new();
    let mut i: usize = 0;
    assert(texts(entries@) =~= want.take(0));
    while i < kids.len()
        invariant
            i <= kids@.len(),
            want == worker_entries(kids@, seen@, p.marker),
            texts(entries@) == want.take(i as int),
        decreases kids@.len() - i,
    {
        let mut label = "k".to_owned();
        label.append(decimal(i as u64).as_str());
        let ghost named = label@;
        let s = match &kids[i] {
            Some(k) => say_entry(label.as_str(), k, seen, p.marker),
            None => {
                label.append("=empty");
                label
            },
        };
        assert(s@ == want[i as int]);
        entries.push(s);
        assert(want.take(i + 1) =~= want.take(i as int).push(want[i as int]));
        i = i + 1;
    }
    assert(want.take(i as int) =~= want);
    match owner {
        Some(k) => {
            entries.push(say_entry("owner-child", k, seen, p.marker));
        },
        None => {},
    }
    assert(texts(entries@) =~= all_entries(kids@, *owner, seen@, p.marker));
    let mut alive: u64 = 0;
    let mut j: usize = 0;
    assert(seen@.take(0) =~= seq![]);
    while j < seen.len()
        invariant
            j <= seen.len(),
            alive <= j,
            alive == living(seen@.take(j as int)),
        decreases seen.len() - j,
    {
        assert(seen@.take(j + 1).drop_last() =~= seen@.take(j as int));
        if seen[j].alive {
            alive = alive + 1;
        }
        j = j + 1;
    }
    assert(seen@.take(j as int) =~= seen@);
    let marker = match p.marker {
        Some(m) => decimal(m as u64),
        None => "none".to_owned(),
    };
    say_population_text(
        DIAG,
        p.what.as_str(),
        p.stamp.as_str(),
        p.census_when.as_str(),
        alive,
        marker.as_str(),
        p.driver as u64,
        p.observer_slot as u64,
        text::join(&entries, "; ").as_str(),
        seen_list(&find_strangers(seen, kids, owner), Some(p.driver)).as_str(),
    )
}

// ---------------------------------------------------------------------------
// What the counts are of
// ---------------------------------------------------------------------------

/// The census counts the claims of the living and of the dead; it looks at every slot but its
/// own that has a record or a living process, and counts which of them have a record and which
/// a living process.
pub proof fn law_what_a_census_counts(claims: Seq<Option<bool>>, rows: Seq<SlotSeen>, me: u32)
    ensures
        claimed(claims, true) == claims.filter(|c: Option<bool>| c == Some(true)).len(),
        claimed(claims, false) == claims.filter(|c: Option<bool>| c == Some(false)).len(),
        kept(rows, me) == rows.filter(|x: SlotSeen| x.slot != me && (x.pid is Some || x.alive)),
        registered(rows) == rows.filter(|x: SlotSeen| x.pid is Some).len(),
        living(rows) == rows.filter(|x: SlotSeen| x.alive).len(),
{
    lemma_claims_are_filtered(claims);
    lemma_rows_are_filtered(rows, me);
}

/// A dead participant is a record, not its own, whose process is gone; a living slot is one, not
/// its own, whose process is there.
pub proof fn law_who_is_dead_and_who_is_not(rows: Seq<SlotSeen>, me: u32)
    ensures
        dead(rows, me) == rows.filter(
            |x: SlotSeen| x.slot != me && x.pid is Some && !x.alive,
        ),
        alive_but(rows, me) == rows.filter(|x: SlotSeen| x.slot != me && x.alive).map_values(
            |x: SlotSeen| x.slot,
        ),
{
    lemma_rows_are_filtered(rows, me);
}

proof fn lemma_claims_are_filtered(claims: Seq<Option<bool>>)
    ensures
        claimed(claims, true) == claims.filter(|c: Option<bool>| c == Some(true)).len(),
        claimed(claims, false) == claims.filter(|c: Option<bool>| c == Some(false)).len(),
    decreases claims.len(),
{
    reveal(Seq::filter);
    if claims.len() > 0 {
        lemma_claims_are_filtered(claims.drop_last());
    }
}

proof fn lemma_rows_are_filtered(rows: Seq<SlotSeen>, me: u32)
    ensures
        kept(rows, me) == rows.filter(|x: SlotSeen| x.slot != me && (x.pid is Some || x.alive)),
        registered(rows) == rows.filter(|x: SlotSeen| x.pid is Some).len(),
        living(rows) == rows.filter(|x: SlotSeen| x.alive).len(),
        dead(rows, me) == rows.filter(
            |x: SlotSeen| x.slot != me && x.pid is Some && !x.alive,
        ),
        alive_but(rows, me) == rows.filter(|x: SlotSeen| x.slot != me && x.alive).map_values(
            |x: SlotSeen| x.slot,
        ),
    decreases rows.len(),
{
    reveal(Seq::filter);
    if rows.len() > 0 {
        lemma_rows_are_filtered(rows.drop_last(), me);
        let f = rows.drop_last().filter(|x: SlotSeen| x.slot != me && x.alive);
        let slot = |x: SlotSeen| x.slot;
        assert(f.push(rows.last()).map_values(slot) =~= f.map_values(slot).push(rows.last().slot));
    } else {
        let f = rows.filter(|x: SlotSeen| x.slot != me && x.alive);
        assert(alive_but(rows, me) =~= f.map_values(|x: SlotSeen| x.slot));
    }
}

/// The slot of a process is the first that names it, and where it has to be alive the first of
/// those that is.
pub proof fn law_the_slot_of_a_process(seen: Seq<SlotSeen>, pid: u32, any: bool)
    ensures
        slot_of(seen, pid, any) is None <==> forall|j: int|
            0 <= j < seen.len() ==> (#[trigger] seen[j]).pid != Some(pid) || !(any
                || seen[j].alive),
        slot_of(seen, pid, any) matches Some(s) ==> exists|j: int|
            0 <= j < seen.len() && (#[trigger] seen[j]).pid == Some(pid) && (any || seen[j].alive)
                && seen[j].slot == s && forall|k: int|
                0 <= k < j ==> (#[trigger] seen[k]).pid != Some(pid) || !(any || seen[k].alive),
    decreases seen.len(),
{
    if seen.len() > 0 && !(seen[0].pid == Some(pid) && (any || seen[0].alive)) {
        let rest = seen.skip(1);
        law_the_slot_of_a_process(rest, pid, any);
        match slot_of(rest, pid, any) {
            None => {
                assert forall|j: int| 0 <= j < seen.len() implies (#[trigger] seen[j]).pid != Some(
                    pid,
                ) || !(any || seen[j].alive) by {
                    if j > 0 {
                        assert(seen[j] == rest[j - 1]);
                    }
                }
            },
            Some(s) => {
                let j = choose|j: int|
                    0 <= j < rest.len() && (#[trigger] rest[j]).pid == Some(pid) && (any
                        || rest[j].alive) && rest[j].slot == s && forall|k: int|
                        0 <= k < j ==> (#[trigger] rest[k]).pid != Some(pid) || !(any
                            || rest[k].alive);
                assert(seen[j + 1] == rest[j]);
                assert forall|k: int| 0 <= k < j + 1 implies (#[trigger] seen[k]).pid != Some(pid)
                    || !(any || seen[k].alive) by {
                    if k > 0 {
                        assert(seen[k] == rest[k - 1]);
                    }
                }
            },
        }
    }
}

/// A process with a living record counts, one with only a dead one does not, and one with none
/// is absent.
pub proof fn law_what_the_census_made_of_a_process(seen: Seq<SlotSeen>, pid: u32)
    ensures
        begins(made_of(seen, pid), "counted@slot"@) <==> exists|j: int|
            0 <= j < seen.len() && (#[trigger] seen[j]).pid == Some(pid) && seen[j].alive,
        begins(made_of(seen, pid), "dead-record@slot"@) <==> (exists|j: int|
            0 <= j < seen.len() && (#[trigger] seen[j]).pid == Some(pid)) && forall|j: int|
            0 <= j < seen.len() ==> (#[trigger] seen[j]).pid != Some(pid) || !seen[j].alive,
        made_of(seen, pid) == "absent"@ <==> forall|j: int|
            0 <= j < seen.len() ==> (#[trigger] seen[j]).pid != Some(pid),
{
    law_the_slot_of_a_process(seen, pid, false);
    law_the_slot_of_a_process(seen, pid, true);
    reveal_strlit("counted@slot");
    reveal_strlit("dead-record@slot");
    reveal_strlit("absent");
    let (c, d, a) = ("counted@slot"@, "dead-record@slot"@, "absent"@);
    assert(c[0] == 'c' && d[0] == 'd' && a[0] == 'a');
    assert(c.len() == 12 && d.len() == 16 && a.len() == 6);
    let m = made_of(seen, pid);
    match slot_of(seen, pid, false) {
        Some(s) => {
            assert(m.take(12) =~= c);
            assert(m[0] == 'c');
            assert(m.len() >= 16 ==> m.take(16)[0] == 'c');
        },
        None => match slot_of(seen, pid, true) {
            Some(s) => {
                assert(m.take(16) =~= d);
                assert(m[0] == 'd');
                assert(m.take(12)[0] == 'd');
            },
            None => {},
        },
    }
}

/// What is said of a worker: its process, what the census made of it, whether the marker names
/// it, and what the kernel says of it.
pub proof fn law_a_worker_is_told_by_its_process(
    label: Seq<char>,
    pid: u32,
    brief: Seq<char>,
    seen: Seq<SlotSeen>,
    marker: Option<u32>,
)
    ensures
        begins(entry(label, pid, brief, seen, marker), label + "="@ + digits(pid as nat)),
        holds(entry(label, pid, brief, seen, marker), " census="@ + made_of(seen, pid)),
        marker == Some(pid) ==> holds(entry(label, pid, brief, seen, marker), " marker="@ + "yes"@),
        marker != Some(pid) ==> holds(entry(label, pid, brief, seen, marker), " marker="@ + "no"@),
        holds(entry(label, pid, brief, seen, marker), " proc="@ + brief),
{
    let doc = entry(label, pid, brief, seen, marker);
    let said = if marker == Some(pid) {
        "yes"@
    } else {
        "no"@
    };
    let a0 = (label + "="@ + digits(pid as nat));
    let a1 = a0 + (" census="@ + made_of(seen, pid));
    let a2 = a1 + (" marker="@ + said);
    let a3 = a2 + (" proc="@ + brief);
    assert(doc =~= a3);
    assert(doc.take(a3.len() as int) =~= a3);
    lemma_end_of_a_beginning(doc, a2, (" proc="@ + brief));
    lemma_end_of_a_beginning(doc, a1, (" marker="@ + said));
    lemma_end_of_a_beginning(doc, a0, (" census="@ + made_of(seen, pid)));
}

/// The slots that are told as nobody's are those that name none of the workers and not the
/// owner.
pub proof fn law_whose_slots_are_nobodys(
    seen: Seq<SlotSeen>,
    kids: Seq<Option<KidSeen>>,
    owner: Option<KidSeen>,
)
    ensures
        strangers(seen, kids, owner) == seen.filter(
            |x: SlotSeen| x.pid is None || !ours(kids, owner, x.pid->0),
        ),
        forall|pid: u32| #[trigger]
            ours(kids, owner, pid) <==> (owner matches Some(k) && k.pid == pid) || exists|i: int|
                0 <= i < kids.len() && ((#[trigger] kids[i]) matches Some(k) && k.pid == pid),
    decreases seen.len(),
{
    reveal(Seq::filter);
    if seen.len() > 0 {
        law_whose_slots_are_nobodys(seen.drop_last(), kids, owner);
    }
    assert forall|pid: u32| #[trigger] ours(kids, owner, pid) <==> (owner matches Some(k) && k.pid
        == pid) || exists|i: int|
        0 <= i < kids.len() && ((#[trigger] kids[i]) matches Some(k) && k.pid == pid) by {
        if exists|i: int|
            0 <= i < kids.len() && ((#[trigger] kids[i]) matches Some(k) && k.pid == pid) {
            let i = choose|i: int|
                0 <= i < kids.len() && ((#[trigger] kids[i]) matches Some(k) && k.pid == pid);
            assert(is_kid(kids[i], pid));
        }
    }
}

/// A slot is told with its process, and as a dead record or the driver's where it is.
pub proof fn law_a_slot_is_told_by_its_process(s: SlotSeen, driver: Option<u32>)
    ensures
        s.pid matches Some(p) ==> begins(
            slot_text(s, driver),
            digits(s.slot as nat) + ":"@ + digits(p as nat),
        ),
        s.pid is None ==> begins(slot_text(s, driver), digits(s.slot as nat) + ":"@ + "?"@),
        !s.alive ==> holds(slot_text(s, driver), "(dead-record)"@),
        s.pid is Some && s.pid == driver ==> holds(slot_text(s, driver), "(driver)"@),
        s.alive && (s.pid is None || s.pid != driver) ==> slot_text(s, driver) == digits(
            s.slot as nat,
        ) + ":"@ + number_or_unclear(s.pid),
{
    let doc = slot_text(s, driver);
    let a = digits(s.slot as nat) + ":"@ + number_or_unclear(s.pid);
    let b = if s.alive {
        ""@
    } else {
        "(dead-record)"@
    };
    let c = if s.pid is Some && s.pid == driver {
        "(driver)"@
    } else {
        ""@
    };
    reveal_strlit("");
    assert(doc == a + b + c);
    assert(doc.take(doc.len() as int) =~= doc);
    lemma_end_of_a_beginning(doc, a + b, c);
    lemma_end_of_a_beginning(doc, a, b);
    if s.alive && (s.pid is None || s.pid != driver) {
        assert(doc =~= a);
    }
}

/// What is said of a population, with each thing behind the words for it.
pub proof fn law_a_population_is_told_by_name(
    diag: Seq<char>,
    what: Seq<char>,
    stamp: Seq<char>,
    when: Seq<char>,
    alive: u64,
    marker: Seq<char>,
    driver: u64,
    slot: u64,
    entries: Seq<char>,
    others: Seq<char>,
)
    ensures
        ({
            let said = population_text(diag, what, stamp, when, alive, marker, driver, slot, entries, others);
            &&& begins(said, diag)
            &&& holds(said, " population ["@ + what)
            &&& holds(said, "] stamp="@ + stamp)
            &&& holds(said, " census_at="@ + when)
            &&& holds(said, " census_alive="@ + digits(alive as nat))
            &&& holds(said, " marker="@ + marker)
            &&& holds(said, " observer=pid"@ + digits(driver as nat))
            &&& holds(said, "/slot"@ + digits(slot as nat))
            &&& holds(said, " | "@ + entries)
            &&& holds(said, " | untracked census slots "@ + others)
        }),
{
    let doc = population_text(diag, what, stamp, when, alive, marker, driver, slot, entries, others);
    let a0 = diag;
    let a1 = a0 + (" population ["@ + what);
    let a2 = a1 + ("] stamp="@ + stamp);
    let a3 = a2 + (" census_at="@ + when);
    let a4 = a3 + (" census_alive="@ + digits(alive as nat));
    let a5 = a4 + (" marker="@ + marker);
    let a6 = a5 + (" observer=pid"@ + digits(driver as nat));
    let a7 = a6 + ("/slot"@ + digits(slot as nat));
    let a8 = a7 + (" | "@ + entries);
    let a9 = a8 + (" | untracked census slots "@ + others);
    assert(doc =~= a9);
    assert(doc.take(a9.len() as int) =~= a9);
    lemma_end_of_a_beginning(doc, a8, (" | untracked census slots "@ + others));
    lemma_end_of_a_beginning(doc, a7, (" | "@ + entries));
    lemma_end_of_a_beginning(doc, a6, ("/slot"@ + digits(slot as nat)));
    lemma_end_of_a_beginning(doc, a5, (" observer=pid"@ + digits(driver as nat)));
    lemma_end_of_a_beginning(doc, a4, (" marker="@ + marker));
    lemma_end_of_a_beginning(doc, a3, (" census_alive="@ + digits(alive as nat)));
    lemma_end_of_a_beginning(doc, a2, (" census_at="@ + when));
    lemma_end_of_a_beginning(doc, a1, ("] stamp="@ + stamp));
    lemma_end_of_a_beginning(doc, a0, (" population ["@ + what));
}

} // verus!
