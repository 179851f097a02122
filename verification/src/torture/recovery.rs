//! What must have been reclaimed when everybody is dead.

use vstd::prelude::*;

use super::population::{is_pid, SlotSeen};
use crate::text::{
    self, begins, decimal, digits, holds, joined, lemma_end_of_a_beginning, lemma_texts_push, texts,
};

verus! {

// ---------------------------------------------------------------------------
// Who collects what
// ---------------------------------------------------------------------------

/// The process that serves the rendezvous at the end: whom the marker names, or the owner
/// that created the arena.
pub fn current_owner(marker: Option<u32>, creating: Option<u32>) -> (r: Option<u32>)
    ensures
        r == (match marker {
            Some(p) => Some(p),
            None => creating,
        }),
{
    match marker {
        Some(p) => Some(p),
        None => creating,
    }
}

/// The slots of the workers that go first at the end of a run: all but the holder of the
/// role, whose callback collects the others.
pub open spec fn going_first(kids: Seq<Option<u32>>, holder: Option<u32>) -> Seq<usize>
    decreases kids.len(),
{
    if kids.len() == 0 {
        seq![]
    } else {
        let rest = going_first(kids.drop_last(), holder);
        if kids.last() is Some && kids.last() != holder {
            rest.push((kids.len() - 1) as usize)
        } else {
            rest
        }
    }
}

/// The holder of the role outlives the others: it is not among those that go first, and
/// every other worker is.
pub proof fn law_the_holder_goes_last(kids: Seq<Option<u32>>, holder: Option<u32>, i: int)
    requires
        0 <= i < kids.len(),
        kids.len() <= usize::MAX,
    ensures
        going_first(kids, holder).contains(i as usize) <==> kids[i] is Some && kids[i] != holder,
    decreases kids.len(),
{
    let rest = going_first(kids.drop_last(), holder);
    let all = going_first(kids, holder);
    if i < kids.len() - 1 {
        law_the_holder_goes_last(kids.drop_last(), holder, i);
        if rest.contains(i as usize) {
            let k = choose|k: int| 0 <= k < rest.len() && rest[k] == i as usize;
            assert(all[k] == i as usize);
        }
        if all.contains(i as usize) {
            let k = choose|k: int| 0 <= k < all.len() && all[k] == i as usize;
            assert(k < rest.len() && rest[k] == i as usize);
        }
    } else {
        lemma_going_first_below(kids.drop_last(), holder);
        if kids[i] is Some && kids[i] != holder {
            assert(all[all.len() - 1] == i as usize);
        } else if all.contains(i as usize) {
            let k = choose|k: int| 0 <= k < all.len() && all[k] == i as usize;
            assert(rest[k] < kids.len() - 1);
        }
    }
}

proof fn lemma_going_first_below(kids: Seq<Option<u32>>, holder: Option<u32>)
    requires
        kids.len() <= usize::MAX,
    ensures
        going_first(kids, holder).len() <= kids.len(),
        forall|k: int|
            0 <= k < going_first(kids, holder).len() ==> (#[trigger] going_first(kids, holder)[k])
                < kids.len(),
    decreases kids.len(),
{
    if kids.len() > 0 {
        lemma_going_first_below(kids.drop_last(), holder);
    }
}

/// The slots of the workers that go first at the end of a run, in order.
pub fn first_to_go(kids: &Vec<Option<u32>>, holder: Option<u32>) -> (r: Vec<usize>)
    ensures
        r@ == going_first(kids@, holder),
        forall|k: int| 0 <= k < r@.len() ==> (#[trigger] r@[k]) < kids@.len(),
{
    let mut out: Vec<usize> = Vec::new();
    let mut i: usize = 0;
    assert(kids@.take(0) =~= seq![]);
    while i < kids.len()
        invariant
            i <= kids@.len(),
            out@ == going_first(kids@.take(i as int), holder),
        decreases kids@.len() - i,
    {
        assert(kids@.take(i + 1).drop_last() =~= kids@.take(i as int));
        match kids[i] {
            Some(pid) => if !is_pid(holder, pid) {
                out.push(i);
            },
            None => {},
        }
        i = i + 1;
    }
    assert(kids@.take(i as int) =~= kids@);
    proof {
        lemma_going_first_below(kids@, holder);
    }
    out
}

/// Whether the owner's hangup callback was a live collector for the whole teardown: nobody
/// ever inherited, and the holder is the owner child that has not been killed.
pub fn collector_pinned(inherited: &Vec<u32>, owner_child: Option<u32>, holder: Option<u32>) -> (r:
    bool)
    ensures
        r == (inherited@.len() == 0 && owner_child is Some && owner_child == holder),
{
    match (owner_child, holder) {
        (Some(a), Some(b)) => inherited.len() == 0 && a == b,
        _ => false,
    }
}

pub open spec fn ascending(v: Seq<u32>) -> bool {
    forall|i: int, j: int| 0 <= i < j < v.len() ==> v[i] < v[j]
}

fn among(v: &Vec<u32>, x: u32) -> (r: bool)
    ensures
        r == v@.contains(x),
{
    let mut i: usize = 0;
    while i < v.len()
        invariant
            i <= v@.len(),
            forall|j: int| 0 <= j < i ==> v@[j] != x,
        decreases v@.len() - i,
    {
        if v[i] == x {
            assert(v@[i as int] == x);
            return true;
        }
        i = i + 1;
    }
    false
}

fn put(v: &mut Vec<u32>, x: u32)
    requires
        ascending(old(v)@),
    ensures
        ascending(final(v)@),
        forall|y: u32| #[trigger] final(v)@.contains(y) <==> old(v)@.contains(y) || y == x,
{
    let ghost before = v@;
    let mut i: usize = 0;
    while i < v.len() && v[i] < x
        invariant
            i <= v@.len(),
            v@ == before,
            ascending(before),
            forall|j: int| 0 <= j < i ==> v@[j] < x,
        decreases v@.len() - i,
    {
        i = i + 1;
    }
    if i < v.len() && v[i] == x {
        assert(before[i as int] == x);
        return;
    }
    v.insert(i, x);
    assert(v@ == before.insert(i as int, x));
    assert forall|y: u32| #[trigger] v@.contains(y) <==> before.contains(y) || y == x by {
        if v@.contains(y) {
            let k = choose|k: int| 0 <= k < v@.len() && v@[k] == y;
            if k < i {
                assert(before[k] == y);
            } else if k > i {
                assert(before[k - 1] == y);
            }
        }
        if before.contains(y) {
            let k = choose|k: int| 0 <= k < before.len() && before[k] == y;
            if k < i {
                assert(v@[k] == y);
            } else {
                assert(v@[k + 1] == y);
            }
        }
        assert(v@[i as int] == x);
    }
}

/// Whether the hangup callback of the last owner cannot have collected the record of a
/// process: it held the role at some time, or it last attached under another owner.
pub open spec fn out_of_reach(
    pid: u32,
    inherited: Seq<u32>,
    creating: Option<u32>,
    holder: Option<u32>,
    attachments: Seq<(u32, u32)>,
) -> bool {
    ||| inherited.contains(pid)
    ||| creating == Some(pid)
    ||| holder == Some(pid)
    ||| exists|i: int|
        0 <= i < attachments.len() && (#[trigger] attachments[i]).0 == pid && holder != Some(
            attachments[i].1,
        )
}

/// The processes whose records the hangup callback cannot have collected, in order and each
/// once. A child without a recorded attachment is not among them: its record is judged
/// strictly.
pub fn unreachable_by_hangup(
    inherited: &Vec<u32>,
    creating: Option<u32>,
    holder: Option<u32>,
    attachments: &Vec<(u32, u32)>,
) -> (r: Vec<u32>)
    ensures
        ascending(r@),
        forall|pid: u32| #[trigger]
            r@.contains(pid) <==> out_of_reach(
                pid,
                inherited@,
                creating,
                holder,
                attachments@,
            ),
{
    let mut out: Vec<u32> = Vec::new();
    let mut i: usize = 0;
    while i < inherited.len()
        invariant
            i <= inherited@.len(),
            ascending(out@),
            forall|pid: u32| #[trigger]
                out@.contains(pid) <==> exists|j: int| 0 <= j < i && inherited@[j] == pid,
        decreases inherited@.len() - i,
    {
        let ghost before = out@;
        put(&mut out, inherited[i]);
        assert forall|pid: u32| #[trigger] out@.contains(pid) <==> exists|j: int|
            0 <= j < i + 1 && inherited@[j] == pid by {
            if exists|j: int| 0 <= j < i + 1 && inherited@[j] == pid {
                let j = choose|j: int| 0 <= j < i + 1 && inherited@[j] == pid;
                if j < i {
                    assert(before.contains(pid));
                }
            }
            if before.contains(pid) {
                let j = choose|j: int| 0 <= j < i && inherited@[j] == pid;
                assert(inherited@[j] == pid);
            }
        }
        i = i + 1;
    }
    assert forall|pid: u32| #[trigger] out@.contains(pid) <==> inherited@.contains(pid) by {}
    match creating {
        Some(p) => {
            put(&mut out, p);
        },
        None => {},
    }
    match holder {
        Some(p) => {
            put(&mut out, p);
        },
        None => {},
    }
    let ghost held = out@;
    assert forall|pid: u32| #[trigger] held.contains(pid) <==> inherited@.contains(pid) || creating
        == Some(pid) || holder == Some(pid) by {}
    let mut k: usize = 0;
    while k < attachments.len()
        invariant
            k <= attachments@.len(),
            ascending(out@),
            forall|pid: u32| #[trigger]
                held.contains(pid) <==> inherited@.contains(pid) || creating == Some(pid) || holder
                    == Some(pid),
            forall|pid: u32| #[trigger]
                out@.contains(pid) <==> held.contains(pid) || exists|j: int|
                    0 <= j < k && (#[trigger] attachments@[j]).0 == pid && holder != Some(
                        attachments@[j].1,
                    ),
        decreases attachments@.len() - k,
    {
        let ghost before = out@;
        let (pid, under) = attachments[k];
        let same = match holder {
            Some(h) => h == under,
            None => false,
        };
        if !same {
            put(&mut out, pid);
        }
        assert forall|p: u32| #[trigger] out@.contains(p) <==> held.contains(p) || exists|j: int|
            0 <= j < k + 1 && (#[trigger] attachments@[j]).0 == p && holder != Some(
                attachments@[j].1,
            ) by {
            assert(before.contains(p) <==> held.contains(p) || exists|j: int|
                0 <= j < k && (#[trigger] attachments@[j]).0 == p && holder != Some(
                    attachments@[j].1,
                ));
            assert(out@.contains(p) <==> before.contains(p) || (!same && p == pid));
            assert(attachments@[k as int].0 == pid && attachments@[k as int].1 == under);
        }
        k = k + 1;
    }
    out
}

/// The slots of some records whose process is, or is not, among some.
pub open spec fn slots_where(v: Seq<SlotSeen>, exempt: Seq<u32>, inside: bool) -> Seq<u32>
    decreases v.len(),
{
    if v.len() == 0 {
        seq![]
    } else {
        let rest = slots_where(v.drop_last(), exempt, inside);
        let x = v.last();
        if (x.pid is Some && exempt.contains(x.pid->0)) == inside {
            rest.push(x.slot)
        } else {
            rest
        }
    }
}

fn pick_slots(v: &Vec<SlotSeen>, exempt: &Vec<u32>, inside: bool) -> (r: Vec<u32>)
    ensures
        r@ == slots_where(v@, exempt@, inside),
{
    let mut out: Vec<u32> = Vec::new();
    let mut i: usize = 0;
    assert(v@.take(0) =~= seq![]);
    while i < v.len()
        invariant
            i <= v@.len(),
            out@ == slots_where(v@.take(i as int), exempt@, inside),
        decreases v@.len() - i,
    {
        assert(v@.take(i + 1).drop_last() =~= v@.take(i as int));
        let is_in = match v[i].pid {
            Some(p) => among(exempt, p),
            None => false,
        };
        if is_in == inside {
            out.push(v[i].slot);
        }
        i = i + 1;
    }
    assert(v@.take(i as int) =~= v@);
    out
}

/// Whether a record that the hangup callback should collect is still there.
pub fn outstanding(dead: &Vec<SlotSeen>, exempt: &Vec<u32>) -> (r: bool)
    ensures
        r == (slots_where(dead@, exempt@, false).len() > 0),
{
    pick_slots(dead, exempt, false).len() > 0
}

// ---------------------------------------------------------------------------
// Lists of slots
// ---------------------------------------------------------------------------

/// Some slots in order and one more.
pub open spec fn slotted(v: Seq<u32>, x: u32) -> Seq<u32>
    decreases v.len(),
{
    if v.len() == 0 || x < v[0] {
        seq![x] + v
    } else {
        seq![v[0]] + slotted(v.skip(1), x)
    }
}

/// Some slots in order.
pub open spec fn in_order(v: Seq<u32>) -> Seq<u32>
    decreases v.len(),
{
    if v.len() == 0 {
        seq![]
    } else {
        slotted(in_order(v.drop_last()), v.last())
    }
}

fn sort_slots(v: &Vec<u32>) -> (r: Vec<u32>)
    ensures
        r@ == in_order(v@),
{
    let mut out: Vec<u32> = Vec::new();
    let mut i: usize = 0;
    assert(v@.take(0) =~= seq![]);
    while i < v.len()
        invariant
            i <= v@.len(),
            out@ == in_order(v@.take(i as int)),
        decreases v@.len() - i,
    {
        assert(v@.take(i + 1).drop_last() =~= v@.take(i as int));
        let x: u32 = v[i];
        let ghost all = out@;
        let mut k: usize = 0;
        assert(all.skip(0) =~= all);
        assert(all.take(0) + slotted(all.skip(0), x) =~= slotted(all, x));
        while k < out.len() && out[k] <= x
            invariant
                k <= out@.len(),
                out@ == all,
                all.take(k as int) + slotted(all.skip(k as int), x) == slotted(all, x),
            decreases out@.len() - k,
        {
            let ghost rest = all.skip(k as int);
            assert(rest[0] == all[k as int]);
            assert(rest.skip(1) =~= all.skip(k + 1));
            assert(all.take(k as int) + (seq![rest[0]] + slotted(rest.skip(1), x)) =~= all.take(
                k + 1,
            ) + slotted(all.skip(k + 1), x));
            k = k + 1;
        }
        assert(k < all.len() ==> all.skip(k as int)[0] == all[k as int]);
        out.insert(k, x);
        assert(out@ =~= all.take(k as int) + (seq![x] + all.skip(k as int)));
        i = i + 1;
    }
    assert(v@.take(i as int) =~= v@);
    out
}

pub open spec fn numbers(v: Seq<u32>) -> Seq<Seq<char>> {
    v.map_values(|x: u32| digits(x as nat))
}

/// A list in brackets.
pub open spec fn list_text(v: Seq<u32>) -> Seq<char> {
    "["@ + joined(numbers(v), ", "@) + "]"@
}

fn say_list(v: &Vec<u32>) -> (r: String)
    ensures
        r@ == list_text(v@),
{
    broadcast use lemma_texts_push;

    let ghost want = numbers(v@);
    let mut items: Vec<String> = Vec::new();
    let mut i: usize = 0;
    assert(texts(items@) =~= want.take(0));
    while i < v.len()
        invariant
            i <= v@.len(),
            want == numbers(v@),
            texts(items@) == want.take(i as int),
        decreases v@.len() - i,
    {
        items.push(decimal(v[i] as u64));
        assert(want.take(i + 1) =~= want.take(i as int).push(want[i as int]));
        i = i + 1;
    }
    assert(want.take(i as int) =~= want);
    let mut s = "[".to_owned();
    s.append(text::join(&items, ", ").as_str());
    s.append("]");
    s
}

pub open spec fn first_eight(v: Seq<u32>) -> Seq<u32> {
    if v.len() > 8 {
        v.take(8)
    } else {
        v
    }
}

fn take_eight(v: &Vec<u32>) -> (r: Vec<u32>)
    ensures
        r@ == first_eight(v@),
{
    let mut out: Vec<u32> = Vec::new();
    let mut i: usize = 0;
    while i < v.len() && i < 8
        invariant
            i <= v@.len(),
            i <= 8,
            out@ == v@.take(i as int),
        decreases v@.len() - i,
    {
        out.push(v[i]);
        i = i + 1;
        assert(out@ =~= v@.take(i as int));
    }
    assert(out@ =~= first_eight(v@));
    out
}

/// Whether some rows have a record of a dead process at a slot.
pub open spec fn dead_at(rows: Seq<SlotSeen>, slot: u32) -> bool {
    exists|i: int|
        0 <= i < rows.len() && (#[trigger] rows[i]).slot == slot && rows[i].pid is Some
            && !rows[i].alive
}

/// Those of some slots that still have one.
pub open spec fn remaining(slots: Seq<u32>, rows: Seq<SlotSeen>) -> Seq<u32>
    decreases slots.len(),
{
    if slots.len() == 0 {
        seq![]
    } else {
        let rest = remaining(slots.drop_last(), rows);
        if dead_at(rows, slots.last()) {
            rest.push(slots.last())
        } else {
            rest
        }
    }
}

fn is_dead_at(rows: &Vec<SlotSeen>, slot: u32) -> (r: bool)
    ensures
        r == dead_at(rows@, slot),
{
    let mut i: usize = 0;
    while i < rows.len()
        invariant
            i <= rows@.len(),
            forall|j: int|
                0 <= j < i ==> !((#[trigger] rows@[j]).slot == slot && rows@[j].pid is Some
                    && !rows@[j].alive),
        decreases rows@.len() - i,
    {
        if rows[i].slot == slot && rows[i].pid.is_some() && !rows[i].alive {
            assert(rows@[i as int].slot == slot);
            return true;
        }
        i = i + 1;
    }
    false
}

/// Those of some slots that still have a record of a dead process, in a table that was read
/// again.
pub fn still_dead(slots: &Vec<u32>, rows: &Vec<SlotSeen>) -> (r: Vec<u32>)
    ensures
        r@ == remaining(slots@, rows@),
{
    let mut out: Vec<u32> = Vec::new();
    let mut i: usize = 0;
    assert(slots@.take(0) =~= seq![]);
    while i < slots.len()
        invariant
            i <= slots@.len(),
            out@ == remaining(slots@.take(i as int), rows@),
        decreases slots@.len() - i,
    {
        assert(slots@.take(i + 1).drop_last() =~= slots@.take(i as int));
        if is_dead_at(rows, slots[i]) {
            out.push(slots[i]);
        }
        i = i + 1;
    }
    assert(slots@.take(i as int) =~= slots@);
    out
}

// ---------------------------------------------------------------------------
// The end of a run
// ---------------------------------------------------------------------------

/// What was found at the end of a run.
pub struct Recovery {
    pub failures: Vec<String>,
    pub notes: Vec<String>,
}

pub const STRICT: &'static str =
    "recovery: the role never moved, so the owner's hangup callback was a live collector for the whole teardown and every record outside the swept partition is judged on the STRICT path";

pub const SWEPT: &'static str =
    "recovery: the role moved during this run, so there may have been no owner to run a hangup callback by teardown; the strict path is NOT in force and every record is swept and then required to have been collected";

/// What is noted of the claims of the dead.
pub open spec fn claims_note(stale: u64, reaped: u64) -> Seq<char> {
    "recovery: "@
        + digits(stale as nat)
        + " edge(s) still carried a killed writer's claim word; reap_dead reclaimed "@
        + digits(reaped as nat)
}

fn say_claims_note(stale: u64, reaped: u64) -> (r: String)
    ensures
        r@ == claims_note(stale, reaped),
{
    let mut s = "recovery: ".to_owned();
    s.append(decimal(stale).as_str());
    s.append(" edge(s) still carried a killed writer's claim word; reap_dead reclaimed ");
    s.append(decimal(reaped).as_str());
    s
}

/// What is said of a frame that is gone.
pub open spec fn frame_vanished(parent: Seq<char>, child: Seq<char>) -> Seq<char> {
    "frame `"@
        + parent
        + "` or `"@
        + child
        + "` vanished from the arena"@
}

fn say_frame_vanished(parent: &str, child: &str) -> (r: String)
    ensures
        r@ == frame_vanished(parent@, child@),
{
    let mut s = "frame `".to_owned();
    s.append(parent);
    s.append("` or `");
    s.append(child);
    s.append("` vanished from the arena");
    s
}

/// What is said of an edge that is still claimed.
pub open spec fn still_claimed(
    parent: Seq<char>,
    child: Seq<char>,
    error: Seq<char>,
) -> Seq<char> {
    "edge "@
        + parent
        + "->"@
        + child
        + " is still claimed after every writer died and reap_dead ran: "@
        + error
}

fn say_still_claimed(parent: &str, child: &str, error: &str) -> (r: String)
    ensures
        r@ == still_claimed(parent@, child@, error@),
{
    let mut s = "edge ".to_owned();
    s.append(parent);
    s.append("->");
    s.append(child);
    s.append(" is still claimed after every writer died and reap_dead ran: ");
    s.append(error);
    s
}

/// What is noted where the strict path is not in force.
pub open spec fn not_enforced(slots: u64) -> Seq<char> {
    "recovery: "@
        + digits(slots as nat)
        + " slot(s) were held by processes whose last recorded attachment named the owner still serving at teardown, so the hangup callback was their expected collector — but the role migrated during this run, and a heir is an ordinary worker that can detach and leave the arena ownerless before the teardown finishes, so this run cannot say the callback was the collector that failed. They are swept with the rest rather than failed. Run `--no-kill-owner` for the arm that pins this."@
}

fn say_not_enforced(slots: u64) -> (r: String)
    ensures
        r@ == not_enforced(slots),
{
    let mut s = "recovery: ".to_owned();
    s.append(decimal(slots).as_str());
    s.append(
        " slot(s) were held by processes whose last recorded attachment named the owner still serving at teardown, so the hangup callback was their expected collector — but the role migrated during this run, and a heir is an ordinary worker that can detach and leave the arena ownerless before the teardown finishes, so this run cannot say the callback was the collector that failed. They are swept with the rest rather than failed. Run `--no-kill-owner` for the arm that pins this.",
    );
    s
}

/// What is noted of the sweep.
pub open spec fn swept_note(slots: u64, swept: u64, remain: u64) -> Seq<char> {
    "recovery: "@
        + digits(slots as nat)
        + " slot(s) held a record this run does not require the hangup callback to have collected — an owner's own, a pre-migration survivor's (docs/decisions/0043), or, on a run whose role migrated, any record at all (see the note above) — so `reap_participants` was asked for them; it reclaimed "@
        + digits(swept as nat)
        + " record(s) and "@
        + digits(remain as nat)
        + " of those slot(s) remain"@
}

fn say_swept_note(slots: u64, swept: u64, remain: u64) -> (r: String)
    ensures
        r@ == swept_note(slots, swept, remain),
{
    let mut s = "recovery: ".to_owned();
    s.append(decimal(slots).as_str());
    s.append(
        " slot(s) held a record this run does not require the hangup callback to have collected — an owner's own, a pre-migration survivor's (docs/decisions/0043), or, on a run whose role migrated, any record at all (see the note above) — so `reap_participants` was asked for them; it reclaimed ",
    );
    s.append(decimal(swept).as_str());
    s.append(" record(s) and ");
    s.append(decimal(remain).as_str());
    s.append(" of those slot(s) remain");
    s
}

/// What is said where the sweep left records.
pub open spec fn sweep_failed(slots: Seq<char>) -> Seq<char> {
    "participant slot(s) "@
        + slots
        + " still hold a dead process's LIVE record after `Tree::reap_participants` swept the whole table. That sweep is `docs/decisions/0028` plan step 5 and is the collector of last resort for a record no socket closure can reach, so a record surviving it is a defect in the sweeper, not a scheduling delay."@
}

fn say_sweep_failed(slots: &str) -> (r: String)
    ensures
        r@ == sweep_failed(slots@),
{
    let mut s = "participant slot(s) ".to_owned();
    s.append(slots);
    s.append(
        " still hold a dead process's LIVE record after `Tree::reap_participants` swept the whole table. That sweep is `docs/decisions/0028` plan step 5 and is the collector of last resort for a record no socket closure can reach, so a record surviving it is a defect in the sweeper, not a scheduling delay.",
    );
    s
}

/// What is said of records that nobody collected.
pub open spec fn leaked_text(
    leaked: u64,
    capacity: u64,
    slots: Seq<char>,
    more: Seq<char>,
) -> Seq<char> {
    digits(leaked as nat)
        + " of "@
        + digits(capacity as nat)
        + " participant slot(s) hold a LIVE record for a process the kernel says is dead "@
        + slots
        + more
        + ". No collector reclaimed these, and the driver did not classify them as records no hangup callback could reach: each was held by a process whose last recorded attachment named the owner that was still serving at teardown, so step 4's hangup callback is the collector this run expected — which is a statement about what the driver knows, not a reconstruction of which socket closed when. The verdict was taken before any sweep ran, so `reap_participants` cannot answer for them. A dead record is otherwise collected only when a grant walks past its slot (`docs/decisions/0028` plan step 3), and this run is over, so none is coming. `docs/PHASE2.md` §11.4 requires that participant slots never leak and §5 requires that liveness come from the lock byte, never from `state`. This verdict is only reached on a run whose owner never changed, where that callback ran in a process that was parked and serving for the whole teardown. **The message used to close by ruling out a late hangup callback on the strength of the retry loop above, which is unsound**: by the time that loop runs every process that could run such a callback has been reaped, so elapsed time here is evidence of nothing."@
}

fn say_leaked_text(leaked: u64, capacity: u64, slots: &str, more: &str) -> (r: String)
    ensures
        r@ == leaked_text(leaked, capacity, slots@, more@),
{
    let mut s = decimal(leaked);
    s.append(" of ");
    s.append(decimal(capacity).as_str());
    s.append(" participant slot(s) hold a LIVE record for a process the kernel says is dead ");
    s.append(slots);
    s.append(more);
    s.append(
        ". No collector reclaimed these, and the driver did not classify them as records no hangup callback could reach: each was held by a process whose last recorded attachment named the owner that was still serving at teardown, so step 4's hangup callback is the collector this run expected — which is a statement about what the driver knows, not a reconstruction of which socket closed when. The verdict was taken before any sweep ran, so `reap_participants` cannot answer for them. A dead record is otherwise collected only when a grant walks past its slot (`docs/decisions/0028` plan step 3), and this run is over, so none is coming. `docs/PHASE2.md` §11.4 requires that participant slots never leak and §5 requires that liveness come from the lock byte, never from `state`. This verdict is only reached on a run whose owner never changed, where that callback ran in a process that was parked and serving for the whole teardown. **The message used to close by ruling out a late hangup callback on the strength of the retry loop above, which is unsound**: by the time that loop runs every process that could run such a callback has been reaped, so elapsed time here is evidence of nothing.",
    );
    s
}

/// What is said of slots that are still alive.
pub open spec fn still_alive(slots: Seq<char>, me: u64) -> Seq<char> {
    "participant slot(s) "@
        + slots
        + " are still marked alive after every child was killed or exited; only this process (slot "@
        + digits(me as nat)
        + ") should remain"@
}

fn say_still_alive(slots: &str, me: u64) -> (r: String)
    ensures
        r@ == still_alive(slots@, me),
{
    let mut s = "participant slot(s) ".to_owned();
    s.append(slots);
    s.append(
        " are still marked alive after every child was killed or exited; only this process (slot ",
    );
    s.append(decimal(me).as_str());
    s.append(") should remain");
    s
}

impl Recovery {
    /// Before anything is found: which verdict is in force.
    pub fn new(pinned: bool) -> (r: Recovery)
        ensures
            r.failures@.len() == 0,
            texts(r.notes@) == seq![
                if pinned {
                    STRICT@
                } else {
                    SWEPT@
                },
            ],
    {
        let mut notes: Vec<String> = Vec::new();
        if pinned {
            notes.push(STRICT.to_owned());
        } else {
            notes.push(SWEPT.to_owned());
        }
        let r = Recovery { failures: Vec::new(), notes };
        assert(texts(r.notes@) =~= seq![
            if pinned {
                STRICT@
            } else {
                SWEPT@
            },
        ]);
        r
    }

    /// How many edges carried a dead writer's claim, and how many came back.
    pub fn claims(&mut self, stale: usize, reaped: usize)
        ensures
            final(self).failures == old(self).failures,
            texts(final(self).notes@) == texts(old(self).notes@).push(
                claims_note(stale as u64, reaped as u64),
            ),
    {
        broadcast use lemma_texts_push;

        self.notes.push(say_claims_note(stale as u64, reaped as u64));
    }

    /// An edge one of whose frames is gone.
    pub fn vanished(&mut self, parent: &str, child: &str)
        ensures
            final(self).notes == old(self).notes,
            texts(final(self).failures@) == texts(old(self).failures@).push(
                frame_vanished(parent@, child@),
            ),
    {
        broadcast use lemma_texts_push;

        self.failures.push(say_frame_vanished(parent, child));
    }

    /// An edge that cannot be claimed though everybody is dead.
    pub fn refused(&mut self, parent: &str, child: &str, error: &str)
        ensures
            final(self).notes == old(self).notes,
            texts(final(self).failures@) == texts(old(self).failures@).push(
                still_claimed(parent@, child@, error@),
            ),
    {
        broadcast use lemma_texts_push;

        self.failures.push(say_still_claimed(parent, child, error));
    }

    /// Parts the records of the dead, before anything is swept, into those that a sweep has
    /// to collect and those that the owner's callback should have. Where the role moved, no
    /// owner may have been there to run it, and every record is to be swept.
    pub fn split(&mut self, dead: &Vec<SlotSeen>, exempt: &Vec<u32>, pinned: bool) -> (r: (
        Vec<u32>,
        Vec<u32>,
    ))
        ensures
            final(self).failures == old(self).failures,
            ({
                let exempted = slots_where(dead@, exempt@, true);
                let others = slots_where(dead@, exempt@, false);
                if pinned || others.len() == 0 {
                    &&& r.0@ == exempted
                    &&& r.1@ == others
                    &&& final(self).notes == old(self).notes
                } else {
                    &&& r.0@ == in_order(exempted + others)
                    &&& r.1@.len() == 0
                    &&& texts(final(self).notes@) == texts(old(self).notes@).push(
                        not_enforced(others.len() as u64),
                    )
                }
            }),
    {
        broadcast use lemma_texts_push;

        let mut sweep = pick_slots(dead, exempt, true);
        let strict = pick_slots(dead, exempt, false);
        if pinned || strict.len() == 0 {
            return (sweep, strict);
        }
        self.notes.push(say_not_enforced(strict.len() as u64));
        let ghost exempted = sweep@;
        let mut i: usize = 0;
        assert(exempted + strict@.take(0) =~= exempted);
        while i < strict.len()
            invariant
                i <= strict@.len(),
                sweep@ == exempted + strict@.take(i as int),
            decreases strict@.len() - i,
        {
            sweep.push(strict[i]);
            i = i + 1;
            assert(sweep@ =~= exempted + strict@.take(i as int));
        }
        assert(strict@.take(i as int) =~= strict@);
        (sort_slots(&sweep), Vec::new())
    }

    /// The sweep was asked for some slots; it reclaimed so many records, and these remain.
    pub fn swept(&mut self, slots: usize, reclaimed: usize, remain: &Vec<u32>)
        ensures
            texts(final(self).notes@) == texts(old(self).notes@).push(
                swept_note(slots as u64, reclaimed as u64, remain@.len() as u64),
            ),
            texts(final(self).failures@) == (if remain@.len() > 0 {
                texts(old(self).failures@).push(sweep_failed(list_text(remain@)))
            } else {
                texts(old(self).failures@)
            }),
    {
        broadcast use lemma_texts_push;

        self.notes.push(say_swept_note(slots as u64, reclaimed as u64, remain.len() as u64));
        if remain.len() > 0 {
            self.failures.push(say_sweep_failed(say_list(remain).as_str()));
        }
    }

    /// The records that the callback should have collected and did not, of a table of so
    /// many.
    pub fn leaked(&mut self, slots: &Vec<u32>, capacity: usize)
        ensures
            final(self).notes == old(self).notes,
            texts(final(self).failures@) == (if slots@.len() > 0 {
                texts(old(self).failures@).push(
                    leaked_text(
                        slots@.len() as u64,
                        capacity as u64,
                        list_text(first_eight(slots@)),
                        if slots@.len() > 8 {
                            " ..."@
                        } else {
                            ""@
                        },
                    ),
                )
            } else {
                texts(old(self).failures@)
            }),
    {
        broadcast use lemma_texts_push;

        if slots.len() > 0 {
            let more = if slots.len() > 8 {
                " ..."
            } else {
                ""
            };
            self.failures.push(
                say_leaked_text(
                    slots.len() as u64,
                    capacity as u64,
                    say_list(&take_eight(slots)).as_str(),
                    more,
                ),
            );
        }
    }

    /// The slots that are still alive, but for the observer's own.
    pub fn living(&mut self, slots: &Vec<u32>, me: u32)
        ensures
            final(self).notes == old(self).notes,
            texts(final(self).failures@) == (if slots@.len() > 0 {
                texts(old(self).failures@).push(still_alive(list_text(slots@), me as u64))
            } else {
                texts(old(self).failures@)
            }),
    {
        broadcast use lemma_texts_push;

        if slots.len() > 0 {
            self.failures.push(say_still_alive(say_list(slots).as_str(), me as u64));
        }
    }
}

/// Every record of the dead is in one of the two parts.
pub proof fn law_every_dead_record_is_judged(dead: Seq<SlotSeen>, exempt: Seq<u32>)
    ensures
        slots_where(dead, exempt, true).len() + slots_where(dead, exempt, false).len()
            == dead.len(),
    decreases dead.len(),
{
    if dead.len() > 0 {
        law_every_dead_record_is_judged(dead.drop_last(), exempt);
    }
}

// ---------------------------------------------------------------------------
// What the lists are of
// ---------------------------------------------------------------------------

/// The workers go in the order of their slots.
pub proof fn law_workers_go_in_order(kids: Seq<Option<u32>>, holder: Option<u32>)
    requires
        kids.len() <= usize::MAX,
    ensures
        forall|i: int, j: int|
            0 <= i < j < going_first(kids, holder).len() ==> going_first(kids, holder)[i]
                < going_first(kids, holder)[j],
        forall|i: int|
            0 <= i < going_first(kids, holder).len() ==> #[trigger] going_first(kids, holder)[i]
                < kids.len(),
    decreases kids.len(),
{
    if kids.len() > 0 {
        let rest = going_first(kids.drop_last(), holder);
        law_workers_go_in_order(kids.drop_last(), holder);
        let v = going_first(kids, holder);
        assert(v == rest || v == rest.push((kids.len() - 1) as usize));
        assert forall|i: int| 0 <= i < v.len() implies #[trigger] v[i] < kids.len() by {
            if i < rest.len() {
                assert(rest[i] < kids.len() - 1);
            }
        }
        assert forall|i: int, j: int| 0 <= i < j < v.len() implies v[i] < v[j] by {
            assert(rest[i] < kids.len() - 1);
        }
    }
}

/// A hangup reaches a process exactly where it never held the role and every owner that it was
/// attached under is the one that holds it now.
pub proof fn law_whom_a_hangup_reaches(
    pid: u32,
    inherited: Seq<u32>,
    creating: Option<u32>,
    holder: Option<u32>,
    attachments: Seq<(u32, u32)>,
)
    ensures
        !out_of_reach(pid, inherited, creating, holder, attachments) <==> {
            &&& !inherited.contains(pid)
            &&& creating != Some(pid)
            &&& holder != Some(pid)
            &&& forall|i: int|
                0 <= i < attachments.len() && (#[trigger] attachments[i]).0 == pid ==> holder
                    == Some(attachments[i].1)
        },
{
}

/// The slots that are exempt are those whose process is, and the others those whose process is
/// not or is not known, in the order in which they were seen.
pub proof fn law_which_slots_are_exempt(v: Seq<SlotSeen>, exempt: Seq<u32>)
    ensures
        slots_where(v, exempt, true) == v.filter(
            |x: SlotSeen| x.pid is Some && exempt.contains(x.pid->0),
        ).map_values(|x: SlotSeen| x.slot),
        slots_where(v, exempt, false) == v.filter(
            |x: SlotSeen| x.pid is None || !exempt.contains(x.pid->0),
        ).map_values(|x: SlotSeen| x.slot),
    decreases v.len(),
{
    reveal(Seq::filter);
    let yes = |x: SlotSeen| x.pid is Some && exempt.contains(x.pid->0);
    let no = |x: SlotSeen| x.pid is None || !exempt.contains(x.pid->0);
    let slot = |x: SlotSeen| x.slot;
    if v.len() > 0 {
        let rest = v.drop_last();
        law_which_slots_are_exempt(rest, exempt);
        let x = v.last();
        assert(rest.filter(yes).push(x).map_values(slot) =~= rest.filter(yes).map_values(slot).push(
            x.slot,
        ));
        assert(rest.filter(no).push(x).map_values(slot) =~= rest.filter(no).map_values(slot).push(
            x.slot,
        ));
    } else {
        assert(slots_where(v, exempt, true) =~= v.filter(yes).map_values(slot));
        assert(slots_where(v, exempt, false) =~= v.filter(no).map_values(slot));
    }
}

proof fn lemma_slotted(v: Seq<u32>, x: u32)
    requires
        forall|i: int, j: int| 0 <= i < j < v.len() ==> v[i] <= v[j],
    ensures
        slotted(v, x).to_multiset() == v.to_multiset().insert(x),
        forall|i: int, j: int|
            0 <= i < j < slotted(v, x).len() ==> slotted(v, x)[i] <= slotted(v, x)[j],
    decreases v.len(),
{
    broadcast use vstd::seq_lib::group_to_multiset_ensures;

    if v.len() == 0 || x < v[0] {
        assert(seq![x] + v =~= v.insert(0, x));
    } else {
        let rest = v.skip(1);
        lemma_slotted(rest, x);
        let w = slotted(rest, x);
        assert(seq![v[0]] + w =~= w.insert(0, v[0]));
        assert(v =~= rest.insert(0, v[0]));
        assert(v.to_multiset().insert(x) =~= rest.to_multiset().insert(x).insert(v[0]));
        assert forall|i: int, j: int| 0 <= i < j < slotted(v, x).len() implies slotted(v, x)[i]
            <= slotted(v, x)[j] by {
            if i == 0 {
                let y = w[j - 1];
                assert(w.to_multiset().contains(y));
                assert(rest.to_multiset().insert(x).contains(y));
                if y != x {
                    assert(rest.to_multiset().count(y) > 0);
                    assert(rest.contains(y));
                    let k = rest.index_of(y);
                    assert(v[k + 1] == y);
                }
            } else {
                assert(w[i - 1] <= w[j - 1]);
            }
        }
    }
}

/// Sorting moves the slots and loses none.
pub proof fn law_slots_are_sorted(v: Seq<u32>)
    ensures
        in_order(v).to_multiset() == v.to_multiset(),
        forall|i: int, j: int| 0 <= i < j < in_order(v).len() ==> in_order(v)[i] <= in_order(v)[j],
    decreases v.len(),
{
    broadcast use vstd::seq_lib::group_to_multiset_ensures;

    if v.len() > 0 {
        law_slots_are_sorted(v.drop_last());
        lemma_slotted(in_order(v.drop_last()), v.last());
        assert(v =~= v.drop_last().push(v.last()));
    } else {
        assert(in_order(v) =~= v);
    }
}

/// What remains after the sweep is what still has a record without a living process.
pub proof fn law_what_a_sweep_leaves(slots: Seq<u32>, rows: Seq<SlotSeen>)
    ensures
        remaining(slots, rows) == slots.filter(
            |s: u32|
                exists|i: int|
                    0 <= i < rows.len() && (#[trigger] rows[i]).slot == s && rows[i].pid is Some
                        && !rows[i].alive,
        ),
    decreases slots.len(),
{
    reveal(Seq::filter);
    if slots.len() > 0 {
        law_what_a_sweep_leaves(slots.drop_last(), rows);
        let x = slots.last();
        assert(dead_at(rows, x) <==> exists|i: int|
            0 <= i < rows.len() && (#[trigger] rows[i]).slot == x && rows[i].pid is Some
                && !rows[i].alive);
    }
}

/// A leak is told with its count and the capacity, and with the first eight of its slots.
pub proof fn law_a_leak_is_told_by_its_slots(
    leaked: u64,
    capacity: u64,
    slots: Seq<char>,
    more: Seq<char>,
    v: Seq<u32>,
)
    ensures
        begins(
            leaked_text(leaked, capacity, slots, more),
            digits(leaked as nat) + " of "@ + digits(capacity as nat),
        ),
        first_eight(v).len() == if v.len() < 8 {
            v.len() as int
        } else {
            8
        },
        forall|i: int| 0 <= i < first_eight(v).len() ==> #[trigger] first_eight(v)[i] == v[i],
{
    let doc = leaked_text(leaked, capacity, slots, more);
    let a = digits(leaked as nat) + " of "@ + digits(capacity as nat);
    assert(doc.take(a.len() as int) =~= a);
}

/// What is said of the claims: how many were left, then how many were taken back.
pub proof fn law_claims_are_told_in_order(stale: u64, reaped: u64)
    ensures
        begins(claims_note(stale, reaped), "recovery: "@ + digits(stale as nat)),
        holds(
            claims_note(stale, reaped),
            " edge(s) still carried a killed writer's claim word; reap_dead reclaimed "@ + digits(
                reaped as nat,
            ),
        ),
{
    let doc = claims_note(stale, reaped);
    let a = "recovery: "@ + digits(stale as nat);
    let p = " edge(s) still carried a killed writer's claim word; reap_dead reclaimed "@ + digits(
        reaped as nat,
    );
    assert(doc =~= a + p);
    assert(doc.take(doc.len() as int) =~= doc);
    lemma_end_of_a_beginning(doc, a, p);
}

/// A frame that is gone is told with its edge.
pub proof fn law_a_lost_frame_is_told(
    parent: Seq<char>,
    child: Seq<char>,
)
    ensures
        ({
            let said = frame_vanished(parent, child);
            &&& begins(said, "frame `"@ + parent)
            &&& holds(said, "` or `"@ + child)
        }),
{
    let doc = frame_vanished(parent, child);
    let a0 = ("frame `"@ + parent);
    let a1 = a0 + ("` or `"@ + child);
    let a2 = a1 + "` vanished from the arena"@;
    assert(doc =~= a2);
    assert(doc.take(a2.len() as int) =~= a2);
    lemma_end_of_a_beginning(doc, a1, "` vanished from the arena"@);
    lemma_end_of_a_beginning(doc, a0, ("` or `"@ + child));
}

/// A claim that stays is told with its edge and why it could not be taken.
pub proof fn law_a_claim_that_stays_is_told(
    parent: Seq<char>,
    child: Seq<char>,
    error: Seq<char>,
)
    ensures
        ({
            let said = still_claimed(parent, child, error);
            &&& begins(said, "edge "@ + parent)
            &&& holds(said, "->"@ + child)
            &&& holds(said, " is still claimed after every writer died and reap_dead ran: "@ + error)
        }),
{
    let doc = still_claimed(parent, child, error);
    let a0 = ("edge "@ + parent);
    let a1 = a0 + ("->"@ + child);
    let a2 = a1 + (" is still claimed after every writer died and reap_dead ran: "@ + error);
    assert(doc =~= a2);
    assert(doc.take(a2.len() as int) =~= a2);
    lemma_end_of_a_beginning(doc, a1, (" is still claimed after every writer died and reap_dead ran: "@ + error));
    lemma_end_of_a_beginning(doc, a0, ("->"@ + child));
}

/// What is said of a sweep, with each count behind the words for it.
pub proof fn law_a_sweep_is_told_by_name(
    slots: u64,
    swept: u64,
    remain: u64,
)
    ensures
        ({
            let said = swept_note(slots, swept, remain);
            &&& begins(said, "recovery: "@ + digits(slots as nat))
            &&& holds(said, " slot(s) held a record this run does not require the hangup callback to have collected — an owner's own, a pre-migration survivor's (docs/decisions/0043), or, on a run whose role migrated, any record at all (see the note above) — so `reap_participants` was asked for them; it reclaimed "@ + digits(swept as nat))
            &&& holds(said, " record(s) and "@ + digits(remain as nat))
        }),
{
    let doc = swept_note(slots, swept, remain);
    let a0 = ("recovery: "@ + digits(slots as nat));
    let a1 = a0 + (" slot(s) held a record this run does not require the hangup callback to have collected — an owner's own, a pre-migration survivor's (docs/decisions/0043), or, on a run whose role migrated, any record at all (see the note above) — so `reap_participants` was asked for them; it reclaimed "@ + digits(swept as nat));
    let a2 = a1 + (" record(s) and "@ + digits(remain as nat));
    let a3 = a2 + " of those slot(s) remain"@;
    assert(doc =~= a3);
    assert(doc.take(a3.len() as int) =~= a3);
    lemma_end_of_a_beginning(doc, a2, " of those slot(s) remain"@);
    lemma_end_of_a_beginning(doc, a1, (" record(s) and "@ + digits(remain as nat)));
    lemma_end_of_a_beginning(doc, a0, (" slot(s) held a record this run does not require the hangup callback to have collected — an owner's own, a pre-migration survivor's (docs/decisions/0043), or, on a run whose role migrated, any record at all (see the note above) — so `reap_participants` was asked for them; it reclaimed "@ + digits(swept as nat)));
}

/// Who is still alive is told, and who should be.
pub proof fn law_who_is_still_alive_is_told(
    slots: Seq<char>,
    me: u64,
)
    ensures
        ({
            let said = still_alive(slots, me);
            &&& begins(said, "participant slot(s) "@ + slots)
            &&& holds(said, " are still marked alive after every child was killed or exited; only this process (slot "@ + digits(me as nat))
        }),
{
    let doc = still_alive(slots, me);
    let a0 = ("participant slot(s) "@ + slots);
    let a1 = a0 + (" are still marked alive after every child was killed or exited; only this process (slot "@ + digits(me as nat));
    let a2 = a1 + ") should remain"@;
    assert(doc =~= a2);
    assert(doc.take(a2.len() as int) =~= a2);
    lemma_end_of_a_beginning(doc, a1, ") should remain"@);
    lemma_end_of_a_beginning(doc, a0, (" are still marked alive after every child was killed or exited; only this process (slot "@ + digits(me as nat)));
}

} // verus!
