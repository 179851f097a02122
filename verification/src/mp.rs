//! Measurement plumbing for many consumers at once: a latency histogram that travels
//! between processes, a schedule that charges an overrun to latency, and what the
//! kernel's accounting files say of a process and of the machine.

use vstd::prelude::*;

use crate::number::{self, Number};
use crate::report::fitness::Load;
use crate::text::{self, begins, decimal, digits, lines, read_u64, texts, until, words};

pub mod histogram;

pub use histogram::{Histogram, HistogramView};

verus! {

/// The busy fraction above which a machine is not quiet: 0.10, as a bit pattern.
pub const QUIET_ENOUGH: u64 = 0x3fb9_9999_9999_999a;

/// One clock tick of the kernel's accounting, in nanoseconds.
pub const TICK_NS: u64 = 10_000_000;

// ---------------------------------------------------------------------------
// The schedule
// ---------------------------------------------------------------------------

/// The longest duration, in nanoseconds.
pub const LONGEST_NS: u128 = 18_446_744_073_709_551_615_999_999_999;

/// A fixed-rate loop that measures against the intended schedule. All times are
/// nanoseconds since the loop started.
pub struct RateLoop {
    pub period_ns: u128,
    pub tick: u64,
}

/// How many periods after the start a tick is due. Past `u32::MAX` ticks the schedule
/// stands still.
pub open spec fn periods(tick: u64) -> int {
    if tick > u32::MAX {
        u32::MAX as int
    } else {
        tick as int
    }
}

impl RateLoop {
    /// When the next tick is due.
    pub open spec fn due(self) -> int {
        self.period_ns * periods(self.tick)
    }

    /// A loop with a period, starting now.
    #[must_use]
    pub fn new(period_ns: u128) -> (r: RateLoop)
        ensures
            r.period_ns == period_ns,
            r.tick == 0,
    {
        RateLoop { period_ns, tick: 0 }
    }

    /// When the next tick is due, and how long to sleep until then. A loop that has
    /// fallen behind gets a deadline that is already past, and does not sleep.
    pub fn next_due(&mut self, now_ns: u128) -> (r: (u128, u128))
        requires
            old(self).due() <= LONGEST_NS,
            old(self).tick < u64::MAX,
        ensures
            r.0 == old(self).due(),
            r.1 == if old(self).due() > now_ns {
                old(self).due() - now_ns
            } else {
                0
            },
            final(self).period_ns == old(self).period_ns,
            final(self).tick == old(self).tick + 1,
    {
        let n: u128 = if self.tick > 0xffff_ffff {
            0xffff_ffff
        } else {
            self.tick as u128
        };
        let due: u128 = self.period_ns * n;
        self.tick = self.tick + 1;
        if due > now_ns {
            (due, due - now_ns)
        } else {
            (due, 0)
        }
    }
}

/// The schedule is fixed in advance: consecutive ticks are due one period apart, however
/// late the consumer is.
pub proof fn law_schedule_does_not_slip(a: RateLoop, b: RateLoop)
    requires
        a.period_ns == b.period_ns,
        a.tick < u32::MAX,
        b.tick == a.tick + 1,
    ensures
        b.due() - a.due() == a.period_ns,
{
    assert(b.period_ns * (a.tick + 1) == a.period_ns * a.tick + a.period_ns) by (nonlinear_arith)
        requires
            b.period_ns == a.period_ns,
    ;
}

// ---------------------------------------------------------------------------
// A process
// ---------------------------------------------------------------------------

/// Resource counters of a process.
#[derive(Clone, Copy, Debug)]
pub struct ProcStats {
    /// User and system CPU time, in nanoseconds.
    pub cpu_ns: u64,
    /// Proportional set size, in KiB.
    pub pss_kib: u64,
}

impl ProcStats {
    /// A process's counters, from the texts of its `stat` and `smaps_rollup` files, where
    /// they were readable, and from what each of its threads has used.
    #[must_use]
    pub fn read(stat: &Option<String>, threads: &Vec<Option<u64>>, rollup: &Option<String>) -> (r:
        ProcStats)
        requires
            stat_fits(*stat),
            readings_sum(threads@) <= u64::MAX,
        ensures
            r.cpu_ns == cpu_time(stat_time(*stat), threads@),
            r.pss_kib == pss_of_file(*rollup),
    {
        ProcStats { cpu_ns: self_cpu_ns(stat_cpu_ns(stat), threads), pss_kib: self_pss_kib(rollup) }
    }

    /// Counters accumulated between two reads. The set size is a level, not a counter:
    /// the later reading stands.
    #[must_use]
    pub fn since(&self, earlier: ProcStats) -> (r: ProcStats)
        ensures
            r.cpu_ns == (if self.cpu_ns >= earlier.cpu_ns {
                self.cpu_ns - earlier.cpu_ns
            } else {
                0
            }),
            r.pss_kib == self.pss_kib,
    {
        ProcStats {
            cpu_ns: self.cpu_ns.saturating_sub(earlier.cpu_ns),
            pss_kib: self.pss_kib,
        }
    }
}

/// The first word of a text as a number.
pub open spec fn first_number(s: Seq<char>) -> Option<u64> {
    if words(s).len() > 0 {
        read_u64(words(s)[0])
    } else {
        None
    }
}

/// The first word of a `schedstat` file: time on a CPU, in nanoseconds.
pub fn schedstat_ns(file: &str) -> (r: Option<u64>)
    ensures
        r == first_number(file@),
{
    let w = text::split_words(file);
    if w.len() > 0 {
        assert(texts(w@)[0] == w@[0]@);
        text::parse_u64(w[0].as_str())
    } else {
        None
    }
}

/// Where the last `c` stands, or nothing.
pub open spec fn last_at(s: Seq<char>, c: char) -> Option<int>
    decreases s.len(),
{
    if s.len() == 0 {
        None
    } else if s.last() == c {
        Some(s.len() - 1)
    } else {
        last_at(s.drop_last(), c)
    }
}

proof fn lemma_last_at(s: Seq<char>, c: char)
    ensures
        last_at(s, c) matches Some(i) ==> 0 <= i < s.len() && s[i] == c,
    decreases s.len(),
{
    if s.len() > 0 && s.last() != c {
        lemma_last_at(s.drop_last(), c);
    }
}

fn find_last(cs: &Vec<char>, c: char) -> (r: Option<usize>)
    ensures
        match r {
            Some(i) => last_at(cs@, c) == Some(i as int) && i < cs@.len() && cs@[i as int] == c,
            None => last_at(cs@, c) is None,
        },
{
    let mut n: usize = cs.len();
    assert(cs@.take(n as int) =~= cs@);
    while n > 0
        invariant
            n <= cs@.len(),
            last_at(cs@.take(n as int), c) == last_at(cs@, c),
        decreases n,
    {
        assert(cs@.take(n as int).drop_last() =~= cs@.take(n - 1));
        assert(cs@.take(n as int).last() == cs@[n - 1]);
        if cs[n - 1] == c {
            return Some(n - 1);
        }
        n = n - 1;
    }
    None
}

/// A word as a number, 0 where there is none.
pub open spec fn word_number(w: Seq<Seq<char>>, i: int) -> u64 {
    if i < w.len() {
        match read_u64(w[i]) {
            Some(n) => n,
            None => 0,
        }
    } else {
        0
    }
}

fn word_value(w: &Vec<String>, i: usize) -> (r: u64)
    ensures
        r == word_number(texts(w@), i as int),
{
    if i < w.len() {
        assert(texts(w@)[i as int] == w@[i as int]@);
        match text::parse_u64(w[i].as_str()) {
            Some(n) => n,
            None => 0,
        }
    } else {
        0
    }
}

/// The user and the system ticks of a `stat` file. They stand after the last closing
/// bracket, because a command's name may hold brackets.
pub open spec fn stat_ticks(s: Seq<char>) -> (u64, u64) {
    match last_at(s, ')') {
        None => (0, 0),
        Some(i) => {
            let w = words(s.skip(i + 1));
            (word_number(w, 11), word_number(w, 12))
        },
    }
}

/// CPU time by a `stat` file, in nanoseconds; 0 where the file was unreadable.
pub open spec fn stat_time(file: Option<String>) -> int {
    match file {
        Some(s) => (stat_ticks(s@).0 + stat_ticks(s@).1) * TICK_NS,
        None => 0,
    }
}

/// The file's CPU time fits in 64 bits: about six centuries.
pub open spec fn stat_fits(file: Option<String>) -> bool {
    stat_time(file) <= u64::MAX
}

/// User and system CPU time of a process from its `stat` file, in nanoseconds, in
/// whole ticks; 0 where the file was unreadable.
pub fn stat_cpu_ns(file: &Option<String>) -> (r: u64)
    requires
        stat_fits(*file),
    ensures
        r == stat_time(*file),
{
    match file {
        None => 0,
        Some(s) => {
            let cs = text::chars(s.as_str());
            match find_last(&cs, ')') {
                None => 0,
                Some(i) => {
                    let rest = text::slice(&cs, i + 1, cs.len());
                    assert(rest@ =~= s@.skip(i + 1));
                    let w = text::split_words(rest.as_str());
                    let user: u64 = word_value(&w, 11);
                    let system: u64 = word_value(&w, 12);
                    (user + system) * TICK_NS
                },
            }
        },
    }
}

/// The sum of the readings that could be taken.
pub open spec fn readings_sum(v: Seq<Option<u64>>) -> nat
    decreases v.len(),
{
    if v.len() == 0 {
        0
    } else {
        readings_sum(v.drop_last()) + match v.last() {
            Some(n) => n as nat,
            None => 0,
        }
    }
}

pub open spec fn some_reading(v: Seq<Option<u64>>) -> bool {
    exists|i: int| 0 <= i < v.len() && (#[trigger] v[i]) is Some
}

proof fn lemma_readings_sum(v: Seq<Option<u64>>, k: int)
    requires
        0 <= k <= v.len(),
    ensures
        readings_sum(v.take(k)) <= readings_sum(v),
    decreases v.len() - k,
{
    if k == v.len() {
        assert(v.take(k) =~= v);
    } else {
        lemma_readings_sum(v, k + 1);
        assert(v.take(k + 1).drop_last() =~= v.take(k));
    }
}

/// CPU time of a process by its own reading and by its threads'.
pub open spec fn cpu_time(stat_ns: int, threads: Seq<Option<u64>>) -> int {
    if some_reading(threads) && stat_ns <= readings_sum(threads) + 2 * TICK_NS {
        readings_sum(threads) as int
    } else {
        stat_ns
    }
}

/// CPU time of a process. The threads' own readings are fine-grained but forget a
/// thread that has exited; the process's is in ticks but forgets nothing. So the sum
/// over the threads stands unless the process's reading is more than two ticks past it.
pub fn self_cpu_ns(stat_ns: u64, threads: &Vec<Option<u64>>) -> (r: u64)
    requires
        readings_sum(threads@) <= u64::MAX,
    ensures
        r == cpu_time(stat_ns as int, threads@),
{
    let mut ns: u64 = 0;
    let mut any = false;
    let mut i: usize = 0;
    assert(threads@.take(0) =~= seq![]);
    while i < threads.len()
        invariant
            i <= threads@.len(),
            ns == readings_sum(threads@.take(i as int)),
            any <==> exists|j: int| 0 <= j < i && (#[trigger] threads@[j]) is Some,
            readings_sum(threads@) <= u64::MAX,
        decreases threads@.len() - i,
    {
        proof {
            assert(threads@.take(i + 1).drop_last() =~= threads@.take(i as int));
            assert(threads@.take(i + 1).last() == threads@[i as int]);
            lemma_readings_sum(threads@, i + 1);
        }
        match threads[i] {
            Some(v) => {
                ns = ns + v;
                any = true;
            },
            None => {},
        }
        i = i + 1;
    }
    assert(threads@.take(i as int) =~= threads@);
    if any && stat_ns <= ns.saturating_add(2 * TICK_NS) {
        ns
    } else {
        stat_ns
    }
}

/// The number on the first line that begins with `Pss:`.
pub open spec fn pss_in(ls: Seq<Seq<char>>) -> u64
    decreases ls.len(),
{
    if ls.len() == 0 {
        0
    } else if begins(ls[0], "Pss:"@) {
        match first_number(ls[0].skip("Pss:"@.len() as int)) {
            Some(n) => n,
            None => 0,
        }
    } else {
        pss_in(ls.skip(1))
    }
}

pub open spec fn pss_of_file(file: Option<String>) -> u64 {
    match file {
        Some(s) => pss_in(lines(s@)),
        None => 0,
    }
}

/// Proportional set size from a `smaps_rollup` file, in KiB; 0 where the file was
/// unreadable.
pub fn self_pss_kib(file: &Option<String>) -> (r: u64)
    ensures
        r == pss_of_file(*file),
{
    match file {
        None => 0,
        Some(s) => pss_of(s.as_str()),
    }
}

fn pss_of(s: &str) -> (r: u64)
    ensures
        r == pss_in(lines(s@)),
{
    let ls = text::split_lines(s);
    let ghost all = texts(ls@);
    let mut i: usize = 0;
    assert(all.skip(0) =~= all);
    while i < ls.len()
        invariant
            i <= ls@.len(),
            all == texts(ls@),
            all == lines(s@),
            pss_in(all.skip(i as int)) == pss_in(all),
        decreases ls@.len() - i,
    {
        assert(all.skip(i as int)[0] == ls@[i as int]@);
        assert(all.skip(i as int).skip(1) =~= all.skip(i + 1));
        match text::after_prefix(ls[i].as_str(), "Pss:") {
            Some(rest) => {
                return match schedstat_ns(rest.as_str()) {
                    Some(n) => n,
                    None => 0,
                };
            },
            None => {},
        }
        i = i + 1;
    }
    0
}

// ---------------------------------------------------------------------------
// The machine
// ---------------------------------------------------------------------------

/// The words that are numbers.
pub open spec fn numbers(w: Seq<Seq<char>>) -> Seq<u64>
    decreases w.len(),
{
    if w.len() == 0 {
        seq![]
    } else {
        match read_u64(w.last()) {
            Some(n) => numbers(w.drop_last()).push(n),
            None => numbers(w.drop_last()),
        }
    }
}

pub open spec fn total(v: Seq<u64>) -> nat
    decreases v.len(),
{
    if v.len() == 0 {
        0
    } else {
        total(v.drop_last()) + v.last() as nat
    }
}

proof fn lemma_total_prefix(v: Seq<u64>, k: int)
    requires
        0 <= k <= v.len(),
    ensures
        total(v.take(k)) <= total(v),
    decreases v.len() - k,
{
    if k == v.len() {
        assert(v.take(k) =~= v);
    } else {
        lemma_total_prefix(v, k + 1);
        assert(v.take(k + 1).drop_last() =~= v.take(k));
    }
}

/// The counters of the aggregate line of `/proc/stat`: user, nice, system, idle, iowait
/// and so on. Nothing where the file does not begin with that line.
pub open spec fn counters(s: Seq<char>) -> Option<Seq<u64>> {
    if lines(s).len() == 0 {
        None
    } else {
        let w = words(lines(s)[0]);
        if w.len() > 0 && w[0] == "cpu"@ {
            Some(numbers(w.skip(1)))
        } else {
            None
        }
    }
}

/// Idle and total jiffies of the aggregate line of `/proc/stat`.
pub open spec fn jiffies(s: Seq<char>) -> Option<(int, int)> {
    match counters(s) {
        None => None,
        Some(v) => if v.len() > 3 {
            Some((v[3] + if v.len() > 4 {
                v[4] as int
            } else {
                0
            }, total(v) as int))
        } else {
            None
        },
    }
}

fn read_numbers(w: &Vec<String>) -> (r: Vec<u64>)
    requires
        w@.len() > 0,
    ensures
        r@ == numbers(texts(w@).skip(1)),
{
    let ghost all = texts(w@).skip(1);
    let mut v: Vec<u64> = Vec::new();
    let mut i: usize = 1;
    assert(all.take(0) =~= seq![]);
    while i < w.len()
        invariant
            1 <= i <= w@.len(),
            all == texts(w@).skip(1),
            v@ == numbers(all.take(i - 1)),
        decreases w@.len() - i,
    {
        assert(all.take(i as int).drop_last() =~= all.take(i - 1));
        assert(all.take(i as int).last() == w@[i as int]@);
        match text::parse_u64(w[i].as_str()) {
            Some(n) => v.push(n),
            None => {},
        }
        i = i + 1;
    }
    assert(all.take(i - 1) =~= all);
    v
}

fn sum_of(v: &Vec<u64>) -> (r: u64)
    requires
        total(v@) <= u64::MAX,
    ensures
        r == total(v@),
{
    let mut n: u64 = 0;
    let mut i: usize = 0;
    assert(v@.take(0) =~= seq![]);
    while i < v.len()
        invariant
            i <= v@.len(),
            n == total(v@.take(i as int)),
            total(v@) <= u64::MAX,
        decreases v@.len() - i,
    {
        proof {
            assert(v@.take(i + 1).drop_last() =~= v@.take(i as int));
            lemma_total_prefix(v@, i + 1);
        }
        n = n + v[i];
        i = i + 1;
    }
    assert(v@.take(i as int) =~= v@);
    n
}

/// Idle and total jiffies from the text of `/proc/stat`.
pub fn cpu_jiffies(file: &str) -> (r: Option<(u64, u64)>)
    requires
        counters(file@) matches Some(v) ==> total(v) <= u64::MAX,
    ensures
        match r {
            Some((idle, all)) => jiffies(file@) == Some((idle as int, all as int)),
            None => jiffies(file@) is None,
        },
{
    let ls = text::split_lines(file);
    if ls.len() == 0 {
        return None;
    }
    assert(texts(ls@)[0] == ls@[0]@);
    let w = text::split_words(ls[0].as_str());
    if w.len() == 0 {
        return None;
    }
    assert(texts(w@)[0] == w@[0]@);
    if !text::same(w[0].as_str(), "cpu") {
        return None;
    }
    let v = read_numbers(&w);
    if v.len() <= 3 {
        return None;
    }
    proof {
        if v@.len() >= 5 {
            lemma_total_prefix(v@, 5);
            lemma_two_of(v@.take(5));
        }
    }
    let iowait: u64 = if v.len() > 4 {
        v[4]
    } else {
        0
    };
    Some((v[3] + iowait, sum_of(&v)))
}

proof fn lemma_two_of(v: Seq<u64>)
    requires
        v.len() == 5,
    ensures
        v[3] + v[4] <= total(v),
{
    assert(v.drop_last().last() == v[3]);
    assert(total(v) == total(v.drop_last()) + v[4]);
    assert(total(v.drop_last()) == total(v.drop_last().drop_last()) + v[3]);
}

/// How many jiffies passed between two readings, idle and in all; nothing where the
/// busy fraction is zero because a reading is missing or no time passed. The busy
/// fraction is one minus their quotient.
pub fn busy_fraction(first: Option<(u64, u64)>, second: Option<(u64, u64)>) -> (r: Option<
    (u64, u64),
>)
    ensures
        r == (match (first, second) {
            (Some(a), Some(b)) => if b.1 <= a.1 {
                None
            } else {
                Some(
                    (
                        if b.0 >= a.0 {
                            (b.0 - a.0) as u64
                        } else {
                            0
                        },
                        (b.1 - a.1) as u64,
                    ),
                )
            },
            _ => None,
        }),
{
    match first {
        None => None,
        Some(a) => match second {
            None => None,
            Some(b) => if b.1 <= a.1 {
                None
            } else {
                Some((b.0.saturating_sub(a.0), b.1 - a.1))
            },
        },
    }
}

// ---------------------------------------------------------------------------
// The refusal
// ---------------------------------------------------------------------------

/// What is said of a machine that is too busy to measure on.
pub open spec fn busy_refusal(percent: Seq<char>, top: Seq<char>) -> Seq<char> {
    "machine is "@ + percent
        + "% busy before the run even starts (threshold 10%).\nLatency here is largely a measurement of the scheduler, so a number taken\nnow would describe the other workload, not this one.\nTop consumers:\n"@
        + top
        + "\nWait for the machine to go quiet, or set TF_TREE_BENCH_FORCE=1 if you are\ncertain the load is irrelevant."@
}

/// Refuses to measure on a busy machine, naming what is running, unless the operator
/// forced the run.
///
/// # Errors
///
/// The refusal, where the machine is too busy.
pub fn require_quiet_machine(busy: &Load, forced: bool, top: &str) -> (r: Result<Number, String>)
    ensures
        match r {
            Ok(n) => n@ == busy.fraction@ && (number::at_most(busy.fraction.bits, QUIET_ENOUGH)
                || forced),
            Err(s) => !number::at_most(busy.fraction.bits, QUIET_ENOUGH) && !forced && s@
                == busy_refusal(busy.percent@, top@),
        },
{
    if number::le(busy.fraction.bits, QUIET_ENOUGH) || forced {
        return Ok(busy.fraction.clone());
    }
    let mut s = "machine is ".to_owned();
    s.append(busy.percent.as_str());
    s.append(
        "% busy before the run even starts (threshold 10%).\nLatency here is largely a measurement of the scheduler, so a number taken\nnow would describe the other workload, not this one.\nTop consumers:\n",
    );
    s.append(top);
    s.append(
        "\nWait for the machine to go quiet, or set TF_TREE_BENCH_FORCE=1 if you are\ncertain the load is irrelevant.",
    );
    Err(s)
}

/// A process and its ticks of CPU time.
pub struct Consumer {
    pub ticks: u64,
    pub name: String,
}

pub struct ConsumerView {
    pub ticks: u64,
    pub name: Seq<char>,
}

impl View for Consumer {
    type V = ConsumerView;

    open spec fn view(&self) -> ConsumerView {
        ConsumerView { ticks: self.ticks, name: self.name@ }
    }
}

/// The two tick counts and the name in a process's `stat` file; nothing where the file
/// has another shape.
pub open spec fn stat_fields(s: Seq<char>) -> Option<(u64, u64, Seq<char>)> {
    match last_at(s, ')') {
        None => None,
        Some(close) => {
            let open = until(s, '(') as int;
            if open >= close || close + 1 >= s.len() || s[close + 1] >= '\u{80}' {
                None
            } else {
                let w = words(s.skip(close + 2));
                if w.len() > 12 {
                    Some((word_number(w, 11), word_number(w, 12), s.subrange(open + 1, close)))
                } else {
                    None
                }
            }
        },
    }
}

/// What an entry of `/proc` says of a process.
pub open spec fn consumer_of(entry: Seq<char>, s: Seq<char>) -> Option<ConsumerView> {
    if read_u64(entry) matches Some(pid) && pid <= u32::MAX {
        match stat_fields(s) {
            Some((user, system, name)) => Some(
                ConsumerView { ticks: (user + system) as u64, name },
            ),
            None => None,
        }
    } else {
        None
    }
}

fn read_stat(file: &str) -> (r: Option<(u64, u64, String)>)
    ensures
        match r {
            Some((user, system, name)) => stat_fields(file@) == Some((user, system, name@)),
            None => stat_fields(file@) is None,
        },
{
    let cs = text::chars(file);
    let close: usize = match find_last(&cs, ')') {
        None => return None,
        Some(i) => i,
    };
    assert(cs@.skip(0) =~= cs@);
    let open: usize = text::find_char(&cs, 0, '(');
    if open >= close || close + 1 >= cs.len() || cs[close + 1] >= '\u{80}' {
        return None;
    }
    let name = text::slice(&cs, open + 1, close);
    let rest = text::slice(&cs, close + 2, cs.len());
    assert(rest@ =~= file@.skip(close + 2));
    let w = text::split_words(rest.as_str());
    if w.len() <= 12 {
        return None;
    }
    Some((word_value(&w, 11), word_value(&w, 12), name))
}

/// What an entry of `/proc`, with its `stat` file, says of a process; nothing where the
/// entry is not a process.
pub fn consumer(entry: &str, file: &str) -> (r: Option<Consumer>)
    requires
        stat_fields(file@) matches Some((user, system, _)) ==> user + system <= u64::MAX,
    ensures
        match r {
            Some(c) => consumer_of(entry@, file@) == Some(c@),
            None => consumer_of(entry@, file@) is None,
        },
{
    match text::parse_u64(entry) {
        None => return None,
        Some(pid) => if pid > 0xffff_ffff {
            return None;
        },
    }
    match read_stat(file) {
        Some((user, system, name)) => Some(Consumer { ticks: user + system, name }),
        None => None,
    }
}

pub open spec fn consumer_views(v: Seq<Consumer>) -> Seq<ConsumerView> {
    v.map_values(|c: Consumer| c@)
}

/// How many of the busiest-first `v` stand before one with `ticks` that came after them.
pub open spec fn place(v: Seq<ConsumerView>, ticks: u64) -> nat
    decreases v.len(),
{
    if v.len() == 0 {
        0
    } else if v.last().ticks >= ticks {
        v.len()
    } else {
        place(v.drop_last(), ticks)
    }
}

/// The processes, busiest first; of two that are equally busy, the earlier first.
pub open spec fn busiest_first(v: Seq<ConsumerView>) -> Seq<ConsumerView>
    decreases v.len(),
{
    if v.len() == 0 {
        seq![]
    } else {
        let rest = busiest_first(v.drop_last());
        rest.insert(place(rest, v.last().ticks) as int, v.last())
    }
}

pub open spec fn consumer_line(c: ConsumerView) -> Seq<char> {
    "  "@ + c.name + " ("@ + digits((c.ticks / 100) as nat) + " s CPU)"@
}

/// The three busiest processes, one per line.
pub open spec fn top_three(v: Seq<ConsumerView>) -> Seq<char> {
    let b = busiest_first(v);
    text::joined(
        b.take(if b.len() < 3 {
            b.len() as int
        } else {
            3
        }).map_values(|c: ConsumerView| consumer_line(c)),
        "\n"@,
    )
}

proof fn lemma_place(v: Seq<ConsumerView>, ticks: u64)
    ensures
        place(v, ticks) <= v.len(),
    decreases v.len(),
{
    if v.len() > 0 && v.last().ticks < ticks {
        lemma_place(v.drop_last(), ticks);
    }
}

/// The processes that are listed are ordered by CPU time, and no process that is left
/// out used more than one that is listed.
pub proof fn law_busiest_first_is_sorted(v: Seq<ConsumerView>)
    ensures
        busiest_first(v).len() == v.len(),
        busiest_first(v).to_multiset() == v.to_multiset(),
        forall|i: int, j: int|
            0 <= i <= j < v.len() ==> (#[trigger] busiest_first(v)[i]).ticks >= (
            #[trigger] busiest_first(v)[j]).ticks,
    decreases v.len(),
{
    broadcast use vstd::seq_lib::group_to_multiset_ensures;

    if v.len() > 0 {
        let rest = busiest_first(v.drop_last());
        let x = v.last();
        law_busiest_first_is_sorted(v.drop_last());
        lemma_place_splits(rest, x.ticks);
        let p = place(rest, x.ticks) as int;
        rest.insert_ensures(p, x);
        assert(v =~= v.drop_last().push(x));
        vstd::seq_lib::to_multiset_insert(rest, p, x);
        vstd::seq_lib::to_multiset_build(v.drop_last(), x);
        let b = busiest_first(v);
        assert forall|i: int, j: int| 0 <= i <= j < v.len() implies (#[trigger] b[i]).ticks >= (
        #[trigger] b[j]).ticks by {
            let bi = if i < p {
                rest[i]
            } else if i == p {
                x
            } else {
                rest[i - 1]
            };
            let bj = if j < p {
                rest[j]
            } else if j == p {
                x
            } else {
                rest[j - 1]
            };
            assert(b[i] == bi);
            assert(b[j] == bj);
        }
    } else {
        assert(busiest_first(v) =~= v);
    }
}

proof fn lemma_place_splits(v: Seq<ConsumerView>, ticks: u64)
    requires
        forall|i: int, j: int|
            0 <= i <= j < v.len() ==> (#[trigger] v[i]).ticks >= (#[trigger] v[j]).ticks,
    ensures
        place(v, ticks) <= v.len(),
        forall|i: int| 0 <= i < place(v, ticks) ==> (#[trigger] v[i]).ticks >= ticks,
        forall|i: int| place(v, ticks) <= i < v.len() ==> (#[trigger] v[i]).ticks < ticks,
    decreases v.len(),
{
    if v.len() > 0 {
        if v.last().ticks >= ticks {
            assert forall|i: int| 0 <= i < v.len() implies (#[trigger] v[i]).ticks >= ticks by {
                assert(v[i].ticks >= v[v.len() - 1].ticks);
            }
        } else {
            lemma_place_splits(v.drop_last(), ticks);
            assert forall|i: int| 0 <= i < place(v, ticks) implies (#[trigger] v[i]).ticks
                >= ticks by {
                assert(v.drop_last()[i] == v[i]);
            }
            assert forall|i: int| place(v, ticks) <= i < v.len() implies (#[trigger] v[i]).ticks
                < ticks by {
                if i < v.len() - 1 {
                    assert(v.drop_last()[i] == v[i]);
                }
            }
        }
    }
}

fn find_place(v: &Vec<Consumer>, ticks: u64) -> (r: usize)
    ensures
        r == place(consumer_views(v@), ticks),
        r <= v@.len(),
{
    let ghost all = consumer_views(v@);
    let mut n: usize = v.len();
    assert(all.take(n as int) =~= all);
    while n > 0 && v[n - 1].ticks < ticks
        invariant
            n <= v@.len(),
            all == consumer_views(v@),
            place(all.take(n as int), ticks) == place(all, ticks),
        decreases n,
    {
        assert(all.take(n as int).drop_last() =~= all.take(n - 1));
        assert(all.take(n as int).last() == v@[n - 1]@);
        n = n - 1;
    }
    assert(n > 0 ==> all.take(n as int).last() == v@[n - 1]@);
    n
}

/// The three busiest processes, one per line, for the refusal.
pub fn top_consumers(found: Vec<Consumer>) -> (r: String)
    ensures
        r@ == top_three(consumer_views(found@)),
{
    let ghost all = consumer_views(found@);
    let ghost n = found@.len() as int;
    let mut found = found;
    let mut sorted: Vec<Consumer> = Vec::new();
    let mut waiting: Vec<Consumer> = Vec::new();
    assert(consumer_views(found@.take(n)) + consumer_views(waiting@) =~= all);
    while found.len() > 0
        invariant
            consumer_views(found@) + consumer_views(waiting@.reverse()) =~= all,
        decreases found@.len(),
    {
        let ghost before = found@;
        match found.pop() {
            Some(c) => {
                let ghost w = waiting@;
                waiting.push(c);
                assert(waiting@.reverse() =~= seq![c] + w.reverse());
                assert(consumer_views(before) =~= consumer_views(found@).push(c@));
                assert(consumer_views(waiting@.reverse()) =~= seq![c@] + consumer_views(
                    w.reverse(),
                ));
            },
            None => {},
        }
    }
    assert(consumer_views(waiting@.reverse()) =~= all);
    let ghost mut k: int = 0;
    assert(all.take(0) =~= seq![]);
    assert(consumer_views(sorted@) =~= busiest_first(all.take(0)));
    while waiting.len() > 0
        invariant
            k + waiting@.len() == all.len(),
            0 <= k,
            consumer_views(waiting@.reverse()) == all.skip(k),
            consumer_views(sorted@) == busiest_first(all.take(k)),
        decreases waiting@.len(),
    {
        let ghost before = waiting@;
        match waiting.pop() {
            Some(c) => {
                proof {
                    assert(before.reverse()[0] == c);
                    assert(all.skip(k)[0] == consumer_views(before.reverse())[0]);
                    assert(all[k] == c@);
                    assert(before.reverse().skip(1) =~= waiting@.reverse());
                    assert(all.skip(k).skip(1) =~= all.skip(k + 1));
                    assert(consumer_views(before.reverse()).skip(1) =~= consumer_views(
                        waiting@.reverse(),
                    ));
                    assert(all.take(k + 1).drop_last() =~= all.take(k));
                    assert(all.take(k + 1).last() == c@);
                }
                let p = find_place(&sorted, c.ticks);
                let ghost s0 = sorted@;
                sorted.insert(p, c);
                proof {
                    assert(consumer_views(sorted@) =~= consumer_views(s0).insert(p as int, c@));
                    k = k + 1;
                }
            },
            None => {},
        }
    }
    assert(all.take(k) =~= all);
    let ghost b = busiest_first(all);
    let m: usize = if sorted.len() < 3 {
        sorted.len()
    } else {
        3
    };
    let mut rows: Vec<String> = Vec::new();
    let mut i: usize = 0;
    let ghost shown = b.take(m as int).map_values(|c: ConsumerView| consumer_line(c));
    assert(texts(rows@) =~= shown.take(0));
    while i < m
        invariant
            i <= m <= sorted@.len(),
            b == consumer_views(sorted@),
            shown == b.take(m as int).map_values(|c: ConsumerView| consumer_line(c)),
            texts(rows@) == shown.take(i as int),
        decreases m - i,
    {
        let mut s = "  ".to_owned();
        s.append(sorted[i].name.as_str());
        s.append(" (");
        s.append(decimal(sorted[i].ticks / 100).as_str());
        s.append(" s CPU)");
        assert(b[i as int] == sorted@[i as int]@);
        assert(s@ == consumer_line(b[i as int]));
        let ghost r0 = rows@;
        rows.push(s);
        proof {
            text::lemma_texts_push(r0, s);
            assert(shown.take(i + 1) =~= shown.take(i as int).push(shown[i as int]));
        }
        i = i + 1;
    }
    assert(shown.take(m as int) =~= shown);
    text::join(&rows, "\n")
}

// ---------------------------------------------------------------------------
// What the readings mean
// ---------------------------------------------------------------------------

proof fn lemma_last_at_is(s: Seq<char>, c: char, i: int)
    requires
        0 <= i < s.len(),
        s[i] == c,
        forall|j: int| i < j < s.len() ==> s[j] != c,
    ensures
        last_at(s, c) == Some(i),
    decreases s.len(),
{
    if i < s.len() - 1 {
        assert(s[s.len() - 1] != c);
        lemma_last_at_is(s.drop_last(), c, i);
    }
}

/// The user and the system time of a process are the twelfth and the thirteenth word behind
/// the last closing bracket of its `stat`, whatever its name holds; each tick is ten
/// milliseconds.
pub proof fn law_ticks_stand_behind_the_name(head: Seq<char>, rest: Seq<char>)
    requires
        forall|j: int| 0 <= j < rest.len() ==> rest[j] != ')',
    ensures
        ({
            let t = stat_ticks(head + seq![')'] + rest);
            let w = words(rest);
            &&& w.len() > 12 ==> (read_u64(w[11]) matches Some(user) ==> t.0 == user)
            &&& w.len() > 12 ==> (read_u64(w[12]) matches Some(system) ==> t.1 == system)
        }),
{
    let s = head + seq![')'] + rest;
    let i = head.len() as int;
    assert forall|j: int| i < j < s.len() implies s[j] != ')' by {
        assert(s[j] == rest[j - i - 1]);
    }
    lemma_last_at_is(s, ')', i);
    assert(s.skip(i + 1) =~= rest);
}

/// The time of a process is what its threads were seen to use, as long as that misses no more
/// than two ticks of what the process is charged; else threads have gone, and it is the
/// latter.
pub proof fn law_time_is_of_the_threads_or_the_process(stat_ns: int, threads: Seq<Option<u64>>)
    ensures
        ({
            let seen = exists|i: int| 0 <= i < threads.len() && (#[trigger] threads[i]) is Some;
            let sum = readings_sum(threads);
            &&& seen && stat_ns <= sum + 20_000_000 ==> cpu_time(stat_ns, threads) == sum
            &&& !seen || stat_ns > sum + 20_000_000 ==> cpu_time(stat_ns, threads) == stat_ns
        }),
{
}

/// A tick of the process clock is ten milliseconds.
pub proof fn law_a_tick_is_ten_milliseconds(s: String)
    ensures
        stat_time(Some(s)) == (stat_ticks(s@).0 + stat_ticks(s@).1) * 10_000_000,
        stat_time(None) == 0,
{
}

/// What threads used is added up, one that could not be read counting nothing.
pub proof fn law_readings_add_up(a: Seq<Option<u64>>, b: Seq<Option<u64>>, n: u64)
    ensures
        readings_sum(a + b) == readings_sum(a) + readings_sum(b),
        readings_sum(a.push(Some(n))) == readings_sum(a) + n,
        readings_sum(a.push(None)) == readings_sum(a),
    decreases b.len(),
{
    assert(a.push(Some(n)).drop_last() =~= a);
    assert(a.push(None).drop_last() =~= a);
    if b.len() == 0 {
        assert(a + b =~= a);
    } else {
        law_readings_add_up(a, b.drop_last(), n);
        assert((a + b).drop_last() =~= a + b.drop_last());
    }
}

/// The proportional set size is the number on the first line that begins with `Pss:`.
pub proof fn law_pss_is_on_its_line(ls: Seq<Seq<char>>, k: int)
    requires
        0 <= k <= ls.len(),
        forall|i: int| 0 <= i < k ==> !begins(#[trigger] ls[i], "Pss:"@),
    ensures
        k == ls.len() ==> pss_in(ls) == 0,
        k < ls.len() && begins(ls[k], "Pss:"@) ==> (first_number(
            ls[k].skip("Pss:"@.len() as int),
        ) matches Some(n) ==> pss_in(ls) == n),
    decreases k,
{
    if k > 0 {
        let rest = ls.skip(1);
        assert forall|i: int| 0 <= i < k - 1 implies !begins(#[trigger] rest[i], "Pss:"@) by {
            assert(rest[i] == ls[i + 1]);
        }
        assert(!begins(ls[0], "Pss:"@));
        law_pss_is_on_its_line(rest, k - 1);
        if k < ls.len() {
            assert(rest[k - 1] == ls[k]);
        }
    }
}

proof fn lemma_numbers(w: Seq<Seq<char>>, n: Seq<u64>)
    requires
        w.len() == n.len(),
        forall|i: int| 0 <= i < w.len() ==> read_u64(#[trigger] w[i]) == Some(n[i]),
    ensures
        numbers(w) == n,
    decreases w.len(),
{
    if w.len() > 0 {
        let (v, m) = (w.drop_last(), n.drop_last());
        assert forall|i: int| 0 <= i < v.len() implies read_u64(#[trigger] v[i]) == Some(m[i]) by {
            assert(v[i] == w[i]);
        }
        lemma_numbers(v, m);
        assert(w[w.len() - 1] == w.last());
        assert(n =~= m.push(n.last()));
    } else {
        assert(n =~= seq![]);
    }
}

/// Of the counters of all CPUs, the fourth and the fifth are idle time, and all of them
/// together are all time.
pub proof fn law_idle_is_the_fourth_and_fifth(s: Seq<char>, n: Seq<u64>)
    requires
        lines(s).len() > 0,
        ({
            let w = words(lines(s)[0]);
            &&& w.len() == n.len() + 1
            &&& w[0] == "cpu"@
            &&& forall|i: int| 0 <= i < n.len() ==> read_u64(#[trigger] w[i + 1]) == Some(n[i])
        }),
        n.len() > 4,
    ensures
        jiffies(s) matches Some((idle, all)) && idle == n[3] + n[4] && all == total(n),
{
    let w = words(lines(s)[0]);
    let v = w.skip(1);
    assert forall|i: int| 0 <= i < v.len() implies read_u64(#[trigger] v[i]) == Some(n[i]) by {
        assert(v[i] == w[i + 1]);
    }
    lemma_numbers(v, n);
}

/// A process is named by what stands between the first opening bracket of its `stat` and the
/// last closing one, and charged with its user and its system time.
pub proof fn law_a_consumer_is_its_process(entry: Seq<char>, s: Seq<char>)
    ensures
        consumer_of(entry, s) matches Some(c) ==> {
            let open = until(s, '(') as int;
            &&& read_u64(entry) is Some
            &&& exists|close: int|
                open < close < s.len() && s[close] == ')' && c.name == #[trigger] s.subrange(
                    open + 1,
                    close,
                ) && forall|j: int| close < j < s.len() ==> s[j] != ')'
        },
{
    if consumer_of(entry, s) is Some {
        lemma_last_at_last(s, ')');
        let close = last_at(s, ')')->0;
        let open = until(s, '(') as int;
        assert(consumer_of(entry, s)->0.name == s.subrange(open + 1, close));
    }
}

proof fn lemma_last_at_last(s: Seq<char>, c: char)
    ensures
        last_at(s, c) matches Some(i) ==> 0 <= i < s.len() && s[i] == c && forall|j: int|
            i < j < s.len() ==> s[j] != c,
    decreases s.len(),
{
    if s.len() > 0 && s.last() != c {
        lemma_last_at_last(s.drop_last(), c);
        if last_at(s, c) is Some {
            let i = last_at(s, c)->0;
            assert forall|j: int| i < j < s.len() implies s[j] != c by {
                if j < s.len() - 1 {
                    assert(s.drop_last()[j] == s[j]);
                }
            }
        }
    }
}

/// A tick falls due so many periods after the start as there were ticks before it, up to the
/// largest count that a period is multiplied with.
pub proof fn law_when_a_tick_is_due(r: RateLoop)
    ensures
        r.tick <= 0xffff_ffff ==> r.due() == r.period_ns * r.tick,
        r.tick > 0xffff_ffff ==> r.due() == r.period_ns * 0xffff_ffff,
{
}

/// The first number of a file is its first word, where that is one.
pub proof fn law_the_first_word_counts(s: Seq<char>)
    ensures
        words(s).len() == 0 ==> first_number(s) is None,
        words(s).len() > 0 ==> first_number(s) == read_u64(words(s)[0]),
{
}

/// A process took the time that its twelfth and thirteenth field behind the name say together.
pub proof fn law_a_consumer_took_both_times(entry: Seq<char>, s: Seq<char>, close: int)
    requires
        0 <= close < s.len(),
        s[close] == ')',
        forall|j: int| close < j < s.len() ==> s[j] != ')',
    ensures
        consumer_of(entry, s) matches Some(c) ==> {
            let w = words(s.skip(close + 2));
            &&& w.len() > 12
            &&& read_u64(w[11]) matches Some(user) ==> (read_u64(w[12]) matches Some(system)
                ==> c.ticks == (user + system) as u64)
        },
{
    lemma_last_at_is(s, ')', close);
}

/// Of the consumers the three that took most are told, each by its name and with its seconds.
pub proof fn law_the_three_busiest_are_told(v: Seq<ConsumerView>, c: ConsumerView)
    ensures
        v.len() <= 3 ==> top_three(v) == text::joined(
            busiest_first(v).map_values(|x: ConsumerView| consumer_line(x)),
            "\n"@,
        ),
        v.len() > 3 ==> top_three(v) == text::joined(
            seq![
                consumer_line(busiest_first(v)[0]),
                consumer_line(busiest_first(v)[1]),
                consumer_line(busiest_first(v)[2]),
            ],
            "\n"@,
        ),
        consumer_line(c) == "  "@ + c.name + " ("@ + digits((c.ticks / 100) as nat) + " s CPU)"@,
{
    law_busiest_first_is_sorted(v);
    let b = busiest_first(v);
    let f = |x: ConsumerView| consumer_line(x);
    if v.len() <= 3 {
        assert(b.take(b.len() as int) =~= b);
    } else {
        assert(b.take(3).map_values(f) =~= seq![
            consumer_line(b[0]),
            consumer_line(b[1]),
            consumer_line(b[2]),
        ]);
    }
}

/// A machine is quiet where no more than a tenth of it is busy.
pub proof fn law_how_quiet_is_quiet()
    ensures
        QUIET_ENOUGH == 0x3fb9_9999_9999_999a,
{
}

} // verus!
