//! What is said of a process that was reaped.

use vstd::prelude::*;

use super::ledgers::RoleAtReap;
use super::DIAG;
use crate::report::host::{fill, zero_filled};
use crate::text::{decimal, digits, holds, lemma_end_of_a_beginning};

verus! {

/// The signal of an abort.
pub const SIGABRT: i32 = 6;

/// The signal that cannot be caught.
pub const SIGKILL: i32 = 9;

/// A point in time, in seconds with nine decimals.
pub open spec fn stamp(secs: u64, nanos: u32) -> Seq<char> {
    digits(secs as nat) + "."@ + zero_filled(digits(nanos as nat), 9)
}

/// A point in time, in seconds with nine decimals.
pub fn stamp_text(secs: u64, nanos: u32) -> (r: String)
    ensures
        r@ == stamp(secs, nanos),
{
    let mut s = decimal(secs);
    s.append(".");
    s.append(fill(decimal(nanos as u64), 9).as_str());
    s
}

/// What is known of the core dump of a process.
#[derive(Debug, Clone)]
pub enum DumpPoll {
    /// It was not armed, or was reaped before any round.
    NotPolled,
    /// It was polled in every round, and never seen dumping.
    NeverSeen,
    /// It was first seen dumping so many milliseconds before it was reaped.
    SeenBefore(String),
}

impl DumpPoll {
    pub open spec fn text(self) -> Seq<char> {
        match self {
            DumpPoll::NotPolled => "not-polled"@,
            DumpPoll::NeverSeen => "never(polled once per driver round)"@,
            DumpPoll::SeenBefore(ms) => ms@ + "ms-before-reap"@,
        }
    }

    fn say(&self) -> (r: String)
        ensures
            r@ == self.text(),
    {
        match self {
            DumpPoll::NotPolled => "not-polled".to_owned(),
            DumpPoll::NeverSeen => "never(polled once per driver round)".to_owned(),
            DumpPoll::SeenBefore(ms) => {
                let mut s = ms.clone();
                s.append("ms-before-reap");
                s
            },
        }
    }
}

/// A process that was reaped.
pub struct Reap {
    /// Where in the run.
    pub site: &'static str,
    /// Its worker slot.
    pub slot: Option<usize>,
    pub pid: u32,
    /// Its exit status as it prints.
    pub status: String,
    /// The signal that ended it.
    pub signal: Option<i32>,
    pub core_dumped: bool,
    /// What it was armed with.
    pub crash_at: Option<String>,
    pub dump: DumpPoll,
    /// When it was reaped.
    pub stamp: String,
    pub last_pid: String,
}

impl Reap {
    pub open spec fn seen_dumping(self) -> bool {
        self.dump is SeenBefore
    }

    /// Whether there is something to say: it aborted, was seen dumping, or held the role
    /// where that earns a tag.
    pub open spec fn told(self, role: RoleAtReap, tag: Option<&str>) -> bool {
        self.signal == Some(SIGABRT) || self.seen_dumping() || (tag is Some && role.holds())
    }

    pub open spec fn text(self, role: RoleAtReap, tag: Option<&str>) -> Seq<char> {
        reap_line(
            DIAG@,
            if tag is Some && role.holds() {
                " "@ + tag->0@
            } else {
                ""@
            },
            if self.seen_dumping() && self.signal == Some(SIGKILL) {
                " was-dumping-when-killed"@
            } else {
                ""@
            },
            self.site@,
            match self.slot {
                Some(s) => digits(s as nat),
                None => "-"@,
            },
            self.pid as u64,
            self.status@,
            if self.core_dumped {
                "true"@
            } else {
                "false"@
            },
            match self.crash_at {
                Some(s) => s@,
                None => "no"@,
            },
            role.text(self.pid),
            self.stamp@,
            self.last_pid@,
            self.dump.text(),
        )
    }
}

pub open spec fn reap_line(
    diag: Seq<char>,
    tag: Seq<char>,
    dumping: Seq<char>,
    site: Seq<char>,
    slot: Seq<char>,
    pid: u64,
    status: Seq<char>,
    dumped: Seq<char>,
    armed: Seq<char>,
    role: Seq<char>,
    stamp: Seq<char>,
    last: Seq<char>,
    seen: Seq<char>,
) -> Seq<char> {
    diag
        + " reap"@
        + tag
        + dumping
        + " site="@
        + site
        + " slot="@
        + slot
        + " pid="@
        + digits(pid as nat)
        + " status=`"@
        + status
        + "` core_dumped="@
        + dumped
        + " armed="@
        + armed
        + " "@
        + role
        + " stamp="@
        + stamp
        + " last_pid="@
        + last
        + " dump_seen="@
        + seen
}

fn say_reap_line(
    diag: &str,
    tag: &str,
    dumping: &str,
    site: &str,
    slot: &str,
    pid: u64,
    status: &str,
    dumped: &str,
    armed: &str,
    role: &str,
    stamp: &str,
    last: &str,
    seen: &str,
) -> (r: String)
    ensures
        r@ == reap_line(diag@, tag@, dumping@, site@, slot@, pid, status@, dumped@, armed@, role@, stamp@, last@, seen@),
{
    let mut s = diag.to_owned();
    s.append(" reap");
    s.append(tag);
    s.append(dumping);
    s.append(" site=");
    s.append(site);
    s.append(" slot=");
    s.append(slot);
    s.append(" pid=");
    s.append(decimal(pid).as_str());
    s.append(" status=`");
    s.append(status);
    s.append("` core_dumped=");
    s.append(dumped);
    s.append(" armed=");
    s.append(armed);
    s.append(" ");
    s.append(role);
    s.append(" stamp=");
    s.append(stamp);
    s.append(" last_pid=");
    s.append(last);
    s.append(" dump_seen=");
    s.append(seen);
    s
}

fn is_signal(a: Option<i32>, b: i32) -> (r: bool)
    ensures
        r == (a == Some(b)),
{
    match a {
        Some(s) => s == b,
        None => false,
    }
}

/// The line on a process that was reaped, where there is something to say. `tag` is what
/// holding the role earns there.
pub fn reap_diag(reap: &Reap, role: RoleAtReap, tag: Option<&str>) -> (r: Option<String>)
    ensures
        match r {
            Some(s) => reap.told(role, tag) && s@ == reap.text(role, tag),
            None => !reap.told(role, tag),
        },
{
    let dumping = match &reap.dump {
        DumpPoll::SeenBefore(_) => true,
        _ => false,
    };
    let held = tag.is_some() && role.held();
    if !is_signal(reap.signal, SIGABRT) && !held && !dumping {
        return None;
    }
    let mut said = String::new();
    match tag {
        Some(t) => if role.held() {
            said = " ".to_owned();
            said.append(t);
        },
        None => {},
    }
    if !held {
        said = "".to_owned();
    }
    let killed = if dumping && is_signal(reap.signal, SIGKILL) {
        " was-dumping-when-killed"
    } else {
        ""
    };
    let slot = match reap.slot {
        Some(s) => decimal(s as u64),
        None => "-".to_owned(),
    };
    let dumped = if reap.core_dumped {
        "true"
    } else {
        "false"
    };
    let armed = match &reap.crash_at {
        Some(s) => s.clone(),
        None => "no".to_owned(),
    };
    Some(
        say_reap_line(
            DIAG,
            said.as_str(),
            killed,
            reap.site,
            slot.as_str(),
            reap.pid as u64,
            reap.status.as_str(),
            dumped,
            armed.as_str(),
            role.field(reap.pid).as_str(),
            reap.stamp.as_str(),
            reap.last_pid.as_str(),
            reap.dump.say().as_str(),
        ),
    )
}

/// A reaped process is told of exactly where it aborted, was seen dumping, or held the role at a
/// place where that matters.
pub proof fn law_which_reaps_are_told(reap: Reap, role: RoleAtReap, tag: Option<&str>)
    ensures
        reap.told(role, tag) <==> reap.signal == Some(6i32) || reap.dump is SeenBefore || (
        tag is Some && role.holds()),
{
}

/// The line on a reaped process gives each thing under the word for it.
pub proof fn law_a_reap_is_told_by_name(
    diag: Seq<char>,
    tag: Seq<char>,
    dumping: Seq<char>,
    site: Seq<char>,
    slot: Seq<char>,
    pid: u64,
    status: Seq<char>,
    dumped: Seq<char>,
    armed: Seq<char>,
    role: Seq<char>,
    stamp: Seq<char>,
    last: Seq<char>,
    seen: Seq<char>,
)
    ensures
        ({
            let line = reap_line(
                diag,
                tag,
                dumping,
                site,
                slot,
                pid,
                status,
                dumped,
                armed,
                role,
                stamp,
                last,
                seen,
            );
            &&& holds(line, " site="@ + site)
            &&& holds(line, " slot="@ + slot)
            &&& holds(line, " pid="@ + digits(pid as nat))
            &&& holds(line, " status=`"@ + status)
            &&& holds(line, "` core_dumped="@ + dumped)
            &&& holds(line, " armed="@ + armed)
            &&& holds(line, role)
            &&& holds(line, " stamp="@ + stamp)
            &&& holds(line, " last_pid="@ + last)
            &&& holds(line, " dump_seen="@ + seen)
        }),
{
    let doc = reap_line(
        diag,
        tag,
        dumping,
        site,
        slot,
        pid,
        status,
        dumped,
        armed,
        role,
        stamp,
        last,
        seen,
    );
    let a0 = diag;
    let a1 = a0 + " reap"@;
    let a2 = a1 + tag;
    let a3 = a2 + dumping;
    let a4 = a3 + (" site="@ + site);
    let a5 = a4 + (" slot="@ + slot);
    let a6 = a5 + (" pid="@ + digits(pid as nat));
    let a7 = a6 + (" status=`"@ + status);
    let a8 = a7 + ("` core_dumped="@ + dumped);
    let a9 = a8 + (" armed="@ + armed);
    let a10 = a9 + " "@;
    let a11 = a10 + role;
    let a12 = a11 + (" stamp="@ + stamp);
    let a13 = a12 + (" last_pid="@ + last);
    let a14 = a13 + (" dump_seen="@ + seen);
    assert(doc =~= a14);
    assert(doc.take(a14.len() as int) =~= a14);
    lemma_end_of_a_beginning(doc, a13, (" dump_seen="@ + seen));
    lemma_end_of_a_beginning(doc, a12, (" last_pid="@ + last));
    lemma_end_of_a_beginning(doc, a11, (" stamp="@ + stamp));
    lemma_end_of_a_beginning(doc, a10, role);
    lemma_end_of_a_beginning(doc, a9, " "@);
    lemma_end_of_a_beginning(doc, a8, (" armed="@ + armed));
    lemma_end_of_a_beginning(doc, a7, ("` core_dumped="@ + dumped));
    lemma_end_of_a_beginning(doc, a6, (" status=`"@ + status));
    lemma_end_of_a_beginning(doc, a5, (" pid="@ + digits(pid as nat)));
    lemma_end_of_a_beginning(doc, a4, (" slot="@ + slot));
    lemma_end_of_a_beginning(doc, a3, (" site="@ + site));
    lemma_end_of_a_beginning(doc, a2, dumping);
    lemma_end_of_a_beginning(doc, a1, tag);
    lemma_end_of_a_beginning(doc, a0, " reap"@);
}

/// What the line on a reaped process says is what was seen of it.
pub proof fn law_a_reap_is_what_was_seen(reap: Reap, role: RoleAtReap, tag: Option<&str>)
    ensures
        holds(reap.text(role, tag), " pid="@ + digits((reap.pid as u64) as nat)),
        holds(reap.text(role, tag), " status=`"@ + reap.status@),
        holds(reap.text(role, tag), " site="@ + reap.site@),
        holds(reap.text(role, tag), " stamp="@ + reap.stamp@),
        holds(reap.text(role, tag), " last_pid="@ + reap.last_pid@),
        reap.slot matches Some(s) ==> holds(
            reap.text(role, tag),
            " slot="@ + digits(s as nat),
        ),
        reap.crash_at matches Some(s) ==> holds(reap.text(role, tag), " armed="@ + s@),
        reap.crash_at is None ==> holds(reap.text(role, tag), " armed="@ + "no"@),
        reap.core_dumped ==> holds(reap.text(role, tag), "` core_dumped="@ + "true"@),
        !reap.core_dumped ==> holds(reap.text(role, tag), "` core_dumped="@ + "false"@),
        reap.dump is SeenBefore && reap.signal == Some(9i32) ==> holds(
            reap.text(role, tag),
            " was-dumping-when-killed"@,
        ),
{
    let tagged = if tag is Some && role.holds() {
        " "@ + tag->0@
    } else {
        ""@
    };
    let dumping = if reap.dump is SeenBefore && reap.signal == Some(9i32) {
        " was-dumping-when-killed"@
    } else {
        ""@
    };
    let slot = match reap.slot {
        Some(s) => digits(s as nat),
        None => "-"@,
    };
    let dumped = if reap.core_dumped {
        "true"@
    } else {
        "false"@
    };
    let armed = match reap.crash_at {
        Some(s) => s@,
        None => "no"@,
    };
    law_a_reap_is_told_by_name(
        DIAG@,
        tagged,
        dumping,
        reap.site@,
        slot,
        reap.pid as u64,
        reap.status@,
        dumped,
        armed,
        role.text(reap.pid),
        reap.stamp@,
        reap.last_pid@,
        reap.dump.text(),
    );
    let doc = reap.text(role, tag);
    let a = DIAG@ + " reap"@ + tagged;
    assert(doc.take((a + dumping).len() as int) =~= a + dumping);
    lemma_end_of_a_beginning(doc, a, dumping);
}

} // verus!
