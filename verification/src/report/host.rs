//! What a host says of itself: cores, governors, the calendar date, and the provenance of
//! a report.

use vstd::prelude::*;

use super::{fact_views, Fact, FactView, Provenance, SCHEMA};
use crate::embed;
use crate::text::{
    self, begins, blank, decimal, digits, joined, lines, pieces, read_u64, texts, trimmed, until,
};

verus! {

// ---------------------------------------------------------------------------
// Cores
// ---------------------------------------------------------------------------

/// A text as a 32-bit number.
pub open spec fn read_u32(s: Seq<char>) -> Option<u32> {
    match read_u64(s) {
        Some(n) => if n <= u32::MAX {
            Some(n as u32)
        } else {
            None
        },
        None => None,
    }
}

/// The number after the first colon, up to the second.
pub open spec fn after_colon(s: Seq<char>) -> Option<u32> {
    let p = pieces(s, ':');
    if p.len() > 1 {
        read_u32(trimmed(p[1]))
    } else {
        None
    }
}

/// What has been read of `/proc/cpuinfo`: half a pair of ids, and the pairs so far.
pub struct Ids {
    pub package: Option<u32>,
    pub core: Option<u32>,
    pub pairs: Set<(u32, u32)>,
}

/// A pair that is complete is noted, and a new one begins.
pub open spec fn settle(s: Ids) -> Ids {
    match (s.package, s.core) {
        (Some(p), Some(c)) => Ids { package: None, core: None, pairs: s.pairs.insert((p, c)) },
        _ => s,
    }
}

/// One more line of `/proc/cpuinfo`.
pub open spec fn take_line(s: Ids, line: Seq<char>) -> Ids {
    settle(
        if begins(line, "physical id"@) {
            Ids { package: after_colon(line.skip("physical id"@.len() as int)), ..s }
        } else if begins(line, "core id"@) {
            Ids { core: after_colon(line.skip("core id"@.len() as int)), ..s }
        } else {
            s
        },
    )
}

pub open spec fn ids_in(ls: Seq<Seq<char>>) -> Ids
    decreases ls.len(),
{
    if ls.len() == 0 {
        Ids { package: None, core: None, pairs: Set::empty() }
    } else {
        take_line(ids_in(ls.drop_last()), ls.last())
    }
}

/// How many cores `/proc/cpuinfo` tells apart, or nothing where it publishes no ids.
pub open spec fn core_count(cpuinfo: Seq<char>) -> Option<nat> {
    let pairs = ids_in(lines(cpuinfo)).pairs;
    if pairs.len() == 0 {
        None
    } else {
        Some(pairs.len())
    }
}

pub(crate) fn parse_after_colon(s: &str) -> (r: Option<u32>)
    ensures
        r == after_colon(s@),
{
    let p = text::split_on(s, ':');
    if p.len() > 1 {
        assert(texts(p@)[1] == p@[1]@);
        let t = text::trim(p[1].as_str());
        match text::parse_u64(t.as_str()) {
            Some(n) => if n <= 0xffff_ffff {
                Some(n as u32)
            } else {
                None
            },
            None => None,
        }
    } else {
        None
    }
}

pub(crate) fn note_pair(pairs: &mut Vec<(u32, u32)>, pair: (u32, u32))
    requires
        old(pairs)@.no_duplicates(),
    ensures
        final(pairs)@.no_duplicates(),
        final(pairs)@.to_set() == old(pairs)@.to_set().insert(pair),
{
    broadcast use vstd::seq_lib::group_seq_properties;

    let mut i: usize = 0;
    while i < pairs.len()
        invariant
            i <= pairs@.len(),
            pairs@ == old(pairs)@,
            pairs@.no_duplicates(),
            forall|j: int| 0 <= j < i ==> pairs@[j] != pair,
        decreases pairs@.len() - i,
    {
        if pairs[i].0 == pair.0 && pairs[i].1 == pair.1 {
            assert(pairs@.contains(pair)) by {
                assert(pairs@[i as int] == pair);
            }
            assert(pairs@.to_set() =~= pairs@.to_set().insert(pair));
            return;
        }
        i = i + 1;
    }
    let ghost before = pairs@;
    pairs.push(pair);
    assert(pairs@.to_set() =~= before.to_set().insert(pair)) by {
        assert forall|x: (u32, u32)| #[trigger] pairs@.to_set().contains(x)
            <==> before.to_set().insert(pair).contains(x) by {
            if pairs@.contains(x) {
                let j = choose|j: int| 0 <= j < pairs@.len() && pairs@[j] == x;
                if j < before.len() {
                    assert(before[j] == x);
                }
            }
            if before.contains(x) {
                let j = choose|j: int| 0 <= j < before.len() && before[j] == x;
                assert(pairs@[j] == x);
            }
            assert(pairs@[before.len() as int] == pair);
        }
    }
}

/// Physical cores from the text of `/proc/cpuinfo`: how many pairs of package and core id
/// it publishes, or `None` where it publishes none. The logical count, which counts
/// sibling threads, is not put in their place.
#[must_use]
pub fn physical_cores_from_cpuinfo(cpuinfo: &str) -> (r: Option<usize>)
    ensures
        match r {
            Some(n) => core_count(cpuinfo@) == Some(n as nat),
            None => core_count(cpuinfo@) is None,
        },
{
    let ls = text::split_lines(cpuinfo);
    let ghost all = texts(ls@);
    let mut package: Option<u32> = None;
    let mut core: Option<u32> = None;
    let mut pairs: Vec<(u32, u32)> = Vec::new();
    let mut i: usize = 0;
    assert(all.take(0) =~= seq![]);
    assert(pairs@.to_set() =~= Set::empty());
    while i < ls.len()
        invariant
            i <= ls@.len(),
            all == texts(ls@),
            pairs@.no_duplicates(),
            ids_in(all.take(i as int)) == (Ids { package, core, pairs: pairs@.to_set() }),
        decreases ls@.len() - i,
    {
        assert(all.take(i + 1).drop_last() =~= all.take(i as int));
        assert(all.take(i + 1).last() == ls@[i as int]@);
        match text::after_prefix(ls[i].as_str(), "physical id") {
            Some(v) => {
                package = parse_after_colon(v.as_str());
            },
            None => match text::after_prefix(ls[i].as_str(), "core id") {
                Some(v) => {
                    core = parse_after_colon(v.as_str());
                },
                None => {},
            },
        }
        match (package, core) {
            (Some(p), Some(c)) => {
                note_pair(&mut pairs, (p, c));
                package = None;
                core = None;
            },
            _ => {},
        }
        i = i + 1;
    }
    assert(all.take(i as int) =~= all);
    proof {
        pairs@.unique_seq_to_set();
    }
    if pairs.len() == 0 {
        None
    } else {
        Some(pairs.len())
    }
}

/// A host whose text names neither kind of id has no core count: it is unknown, not
/// guessed.
pub proof fn law_no_ids_is_unknown(cpuinfo: Seq<char>)
    requires
        forall|i: int|
            0 <= i < lines(cpuinfo).len() ==> !begins(
                #[trigger] lines(cpuinfo)[i],
                "physical id"@,
            ) && !begins(lines(cpuinfo)[i], "core id"@),
    ensures
        core_count(cpuinfo) is None,
{
    lemma_no_ids(lines(cpuinfo));
}

proof fn lemma_no_ids(ls: Seq<Seq<char>>)
    requires
        forall|i: int|
            0 <= i < ls.len() ==> !begins(#[trigger] ls[i], "physical id"@) && !begins(
                ls[i],
                "core id"@,
            ),
    ensures
        ids_in(ls) == (Ids { package: None, core: None, pairs: Set::<(u32, u32)>::empty() }),
    decreases ls.len(),
{
    if ls.len() > 0 {
        lemma_no_ids(ls.drop_last());
    }
}

/// The processor's name: what stands after the colon on the first line of `/proc/cpuinfo`
/// that begins with `model name`.
pub open spec fn model_in(ls: Seq<Seq<char>>) -> Option<Seq<char>>
    decreases ls.len(),
{
    if ls.len() == 0 {
        None
    } else if begins(ls[0], "model name"@) {
        let n = until(ls[0], ':') as int;
        if n < ls[0].len() {
            Some(trimmed(ls[0].skip(n + 1)))
        } else {
            None
        }
    } else {
        model_in(ls.skip(1))
    }
}

/// The processor's name from the text of `/proc/cpuinfo`.
#[must_use]
pub fn cpu_model(cpuinfo: &str) -> (r: Option<String>)
    ensures
        super::text_of(r) == model_in(lines(cpuinfo@)),
{
    let ls = text::split_lines(cpuinfo);
    let ghost all = texts(ls@);
    let mut i: usize = 0;
    assert(all.skip(0) =~= all);
    while i < ls.len()
        invariant
            i <= ls@.len(),
            all == texts(ls@),
            all == lines(cpuinfo@),
            model_in(all.skip(i as int)) == model_in(all),
        decreases ls@.len() - i,
    {
        assert(all.skip(i as int)[0] == ls@[i as int]@);
        assert(all.skip(i as int).skip(1) =~= all.skip(i + 1));
        if text::starts_with(ls[i].as_str(), "model name") {
            let cs = text::chars(ls[i].as_str());
            assert(cs@.skip(0) =~= cs@);
            let n = text::find_char(&cs, 0, ':');
            if n >= cs.len() {
                return None;
            }
            let v = text::slice(&cs, n + 1, cs.len());
            assert(v@ =~= ls@[i as int]@.skip(n + 1));
            return Some(text::trim(v.as_str()));
        }
        i = i + 1;
    }
    None
}

/// The governors that some files name, or nothing where there was none to read.
pub open spec fn governors_of(files: Seq<Seq<char>>) -> Option<Seq<Seq<char>>> {
    if files.len() == 0 {
        None
    } else {
        Some(files.map_values(|f: Seq<char>| trimmed(f)))
    }
}

/// The frequency governors that the CPUs' `scaling_governor` files name.
#[must_use]
pub fn governors(files: &Vec<String>) -> (r: Option<Vec<String>>)
    ensures
        (match r {
            Some(v) => Some(texts(v@)),
            None => None,
        }) == governors_of(texts(files@)),
{
    if files.len() == 0 {
        return None;
    }
    let mut v: Vec<String> = Vec::new();
    let ghost want = texts(files@).map_values(|f: Seq<char>| trimmed(f));
    let mut i: usize = 0;
    assert(texts(v@) =~= want.take(0));
    while i < files.len()
        invariant
            i <= files@.len(),
            want == texts(files@).map_values(|f: Seq<char>| trimmed(f)),
            texts(v@) == want.take(i as int),
        decreases files@.len() - i,
    {
        let g = text::trim(files[i].as_str());
        assert(texts(files@)[i as int] == files@[i as int]@);
        let ghost v0 = v@;
        v.push(g);
        proof {
            text::lemma_texts_push(v0, g);
            assert(want.take(i + 1) =~= want.take(i as int).push(want[i as int]));
        }
        i = i + 1;
    }
    assert(want.take(i as int) =~= want);
    Some(v)
}

/// Some texts, each where it first stands.
pub open spec fn first_seen(v: Seq<Seq<char>>) -> Seq<Seq<char>>
    decreases v.len(),
{
    if v.len() == 0 {
        seq![]
    } else {
        let rest = first_seen(v.drop_last());
        if rest.contains(v.last()) {
            rest
        } else {
            rest.push(v.last())
        }
    }
}

/// The different ones of some texts, with commas between them.
#[must_use]
pub fn dedup_join(v: &Vec<String>) -> (r: String)
    ensures
        r@ == joined(first_seen(texts(v@)), ", "@),
{
    let ghost all = texts(v@);
    let mut seen: Vec<String> = Vec::new();
    let mut i: usize = 0;
    assert(all.take(0) =~= seq![]);
    assert(texts(seen@) =~= first_seen(all.take(0)));
    while i < v.len()
        invariant
            i <= v@.len(),
            all == texts(v@),
            texts(seen@) == first_seen(all.take(i as int)),
        decreases v@.len() - i,
    {
        assert(all.take(i + 1).drop_last() =~= all.take(i as int));
        assert(all.take(i + 1).last() == v@[i as int]@);
        if !text::among(&seen, v[i].as_str()) {
            let ghost s0 = seen@;
            let c = v[i].clone();
            seen.push(c);
            proof {
                text::lemma_texts_push(s0, c);
            }
        }
        i = i + 1;
    }
    assert(all.take(i as int) =~= all);
    text::join(&seen, ", ")
}

/// The first line of a file's trimmed text.
pub open spec fn headline(s: Seq<char>) -> Seq<char> {
    let t = trimmed(s);
    if lines(t).len() > 0 {
        lines(t)[0]
    } else {
        t
    }
}

/// The first line of a file's trimmed text.
#[must_use]
pub fn read_trim(file: &str) -> (r: String)
    ensures
        r@ == headline(file@),
{
    let t = text::trim(file);
    let ls = text::split_lines(t.as_str());
    if ls.len() > 0 {
        assert(texts(ls@)[0] == ls@[0]@);
        ls[0].clone()
    } else {
        t
    }
}

// ---------------------------------------------------------------------------
// The calendar
// ---------------------------------------------------------------------------

/// The Gregorian rule, carried back before its adoption.
pub open spec fn leap(year: int) -> bool {
    year % 4 == 0 && (year % 100 != 0 || year % 400 == 0)
}

pub open spec fn days_in_month(year: int, month: int) -> int {
    if month == 2 {
        if leap(year) {
            29
        } else {
            28
        }
    } else if month == 4 || month == 6 || month == 9 || month == 11 {
        30
    } else {
        31
    }
}

/// A date of the calendar.
pub open spec fn is_date(year: int, month: int, day: int) -> bool {
    1 <= month <= 12 && 1 <= day <= days_in_month(year, month)
}

/// How many days of a year stand before a month.
pub open spec fn days_before_month(year: int, month: int) -> int
    decreases month,
{
    if month <= 1 {
        0
    } else {
        days_before_month(year, month - 1) + days_in_month(year, month - 1)
    }
}

/// How many days stand between the start of year 0 and the start of a year.
pub open spec fn days_before_year(year: int) -> int {
    365 * year + (year + 3) / 4 - (year + 99) / 100 + (year + 399) / 400
}

/// How many days a date is after the first of January 1970.
pub open spec fn day_number(year: int, month: int, day: int) -> int {
    days_before_year(year) + days_before_month(year, month) + day - 1 - 719_528
}

/// Each year is 365 days long, or 366 where it is a leap year; the count starts with 1970.
pub proof fn law_years_have_their_length(year: int)
    ensures
        days_before_year(year + 1) - days_before_year(year) == if leap(year) {
            366int
        } else {
            365
        },
        day_number(1970, 1, 1) == 0,
{
    lemma_fourth_years(year);
    lemma_hundredth_years(year);
    lemma_four_hundredth_years(year);
}

proof fn lemma_fourth_years(year: int)
    ensures
        (year + 4) / 4 - (year + 3) / 4 == if year % 4 == 0 {
            1int
        } else {
            0
        },
        year % 100 == 0 ==> year % 4 == 0,
{
    if year % 100 == 0 {
        assert(year == 4 * (25 * (year / 100)));
    }
}

proof fn lemma_hundredth_years(year: int)
    ensures
        (year + 100) / 100 - (year + 99) / 100 == if year % 100 == 0 {
            1int
        } else {
            0
        },
        year % 400 == 0 ==> year % 100 == 0,
{
    if year % 400 == 0 {
        assert(year == 100 * (4 * (year / 400)));
    }
}

proof fn lemma_four_hundredth_years(year: int)
    ensures
        (year + 400) / 400 - (year + 399) / 400 == if year % 400 == 0 {
            1int
        } else {
            0
        },
{
}

/// A number in decimal with at least `width` characters, padded with zeros behind the
/// sign.
pub open spec fn padded(n: int, width: nat) -> Seq<char> {
    if n < 0 {
        seq!['-'] + zero_filled(digits((-n) as nat), (width - 1) as nat)
    } else {
        zero_filled(digits(n as nat), width)
    }
}

pub open spec fn zero_filled(s: Seq<char>, width: nat) -> Seq<char>
    decreases width - s.len(),
{
    if s.len() >= width {
        s
    } else {
        zero_filled(seq!['0'] + s, width)
    }
}

/// An instant as text, by its date and the seconds into its day.
pub open spec fn instant_text(year: int, month: int, day: int, second: int) -> Seq<char> {
    padded(year, 4) + "-"@ + padded(month, 2) + "-"@ + padded(day, 2) + "T"@ + padded(
        second / 3600,
        2,
    ) + ":"@ + padded((second % 3600) / 60, 2) + ":"@ + padded(second % 60, 2) + "Z"@
}

pub(crate) fn fill(s: String, width: usize) -> (r: String)
    ensures
        r@ == zero_filled(s@, width as nat),
{
    let n: usize = text::chars(s.as_str()).len();
    if n >= width {
        return s;
    }
    let mut zeros = String::new();
    let mut k: usize = 0;
    let ghost t = s@;
    assert(zeros@ + t =~= t);
    while k < width - n
        invariant
            n == t.len(),
            n < width,
            k <= width - n,
            zeros@.len() == k,
            forall|i: int| 0 <= i < k ==> #[trigger] zeros@[i] == '0',
            zero_filled(zeros@ + t, width as nat) == zero_filled(t, width as nat),
        decreases width - n - k,
    {
        let ghost z = zeros@;
        zeros.push('0');
        proof {
            assert(seq!['0'] + (z + t) =~= zeros@ + t);
        }
        k = k + 1;
    }
    let mut out = zeros;
    out.append(s.as_str());
    out
}

fn pad(n: i64, width: usize) -> (r: String)
    requires
        n > i64::MIN,
        width >= 1,
    ensures
        r@ == padded(n as int, width as nat),
{
    if n < 0 {
        let mut s = String::new();
        s.push('-');
        let m = fill(decimal((-n) as u64), width - 1);
        s.append(m.as_str());
        assert(s@ =~= seq!['-'] + m@);
        s
    } else {
        fill(decimal(n as u64), width)
    }
}

/// The year of the day `doe` of a 400-year era that starts on the first of March, and the
/// day of that year.
fn year_of_era(doe: i64) -> (r: (i64, i64))
    requires
        0 <= doe < 146_097,
    ensures
        0 <= r.0 < 400,
        0 <= r.1 <= 365,
        doe == 365 * r.0 + r.0 as int / 4 - r.0 as int / 100 + r.1,
        r.1 == 365 ==> leap(r.0 + 1),
{
    let c: i64 = if doe / 36_524 < 3 {
        doe / 36_524
    } else {
        3
    };
    let r1: i64 = doe - c * 36_524;
    let q: i64 = r1 / 1461;
    let r2: i64 = r1 - q * 1461;
    let y: i64 = if r2 / 365 < 3 {
        r2 / 365
    } else {
        3
    };
    let doy: i64 = r2 - y * 365;
    let yoe: i64 = 100 * c + 4 * q + y;
    proof {
        assert(0 <= r1 <= 36_524);
        assert(0 <= q <= 24);
        assert(0 <= r2 <= 1460);
        assert(yoe as int / 4 == 25 * c + q);
        assert(yoe as int / 100 == c);
        if doy == 365 {
            assert(y == 3 && r2 == 1460);
            assert((yoe + 1) % 4 == 0);
            if q == 24 {
                assert(r1 == 24 * 1461 + 1460);
                assert(c == 3);
                assert(yoe + 1 == 400);
            } else {
                assert((yoe + 1) % 100 == 4 * q + 4);
            }
        }
    }
    (yoe, doy)
}

/// The day `doy` of a year that starts on the first of March, in that year's month `mp`.
proof fn lemma_month_of_year(y: int, doy: int, mp: int, d: int)
    requires
        0 <= doy <= 365,
        mp == (5 * doy + 2) / 153,
        d == doy - (153 * mp + 2) / 5 + 1,
    ensures
        0 <= mp <= 11,
        1 <= d <= 31,
        mp < 10 ==> d <= days_in_month(y, mp + 3) && days_before_month(y, mp + 3) + d - 1 == doy
            + (if leap(y) {
            60int
        } else {
            59
        }),
        mp >= 10 ==> days_before_month(y, mp - 9) + d - 1 == doy - 306,
        mp == 11 ==> d <= 29 && (d == 29 ==> doy == 365),
{
    reveal_with_fuel(days_before_month, 13);
    assert(0 <= mp <= 11);
    assert(mp == 0 || mp == 1 || mp == 2 || mp == 3 || mp == 4 || mp == 5 || mp == 6 || mp == 7
        || mp == 8 || mp == 9 || mp == 10 || mp == 11);
}

proof fn lemma_days_before_march_year(y: int, era: int, yoe: int)
    requires
        y == 400 * era + yoe,
        0 <= yoe < 400,
    ensures
        days_before_year(y + 1) == 146_097 * era + 365 * yoe + yoe / 4 - yoe / 100 + 366,
        days_before_year(y) + (if leap(y) {
            60int
        } else {
            59
        }) == 146_097 * era + 365 * yoe + yoe / 4 - yoe / 100 + 60,
{
    law_years_have_their_length(y);
    assert((y + 4) / 4 == 100 * era + yoe / 4 + 1);
    assert((y + 100) / 100 == 4 * era + yoe / 100 + 1);
    assert((y + 400) / 400 == era + 1);
}

/// Division with a remainder that is never negative.
fn divide(n: i64, by: i64) -> (r: (i64, i64))
    requires
        0 < by,
    ensures
        r.0 == n as int / by as int,
        r.1 == n as int % by as int,
        n == by * r.0 + r.1,
        0 <= r.1 < by,
{
    proof {
        let (a, b) = (n as int, by as int);
        vstd::arithmetic::div_mod::lemma_fundamental_div_mod(a, b);
        assert(i64::MIN <= a / b <= i64::MAX) by (nonlinear_arith)
            requires
                a == b * (a / b) + a % b,
                0 <= a % b < b,
                b >= 1,
                i64::MIN <= a <= i64::MAX,
        ;
    }
    let q: i64 = match n.checked_div_euclid(by) {
        Some(q) => q,
        None => 0,
    };
    let r: i64 = match n.checked_rem_euclid(by) {
        Some(r) => r,
        None => 0,
    };
    (q, r)
}

/// A day, by the year and day of the era that starts on the first of March, is a date.
proof fn lemma_civil(days: int, era: int, doe: int, yoe: int, doy: int, mp: int, d: int)
    requires
        days + 719_468 == 146_097 * era + doe,
        0 <= yoe < 400,
        0 <= doy <= 365,
        doe == 365 * yoe + yoe / 4 - yoe / 100 + doy,
        doy == 365 ==> leap(yoe + 1),
        mp == (5 * doy + 2) / 153,
        d == doy - (153 * mp + 2) / 5 + 1,
    ensures
        mp < 10 ==> is_date(yoe + era * 400, mp + 3, d) && day_number(
            yoe + era * 400,
            mp + 3,
            d,
        ) == days,
        mp >= 10 ==> is_date(yoe + era * 400 + 1, mp - 9, d) && day_number(
            yoe + era * 400 + 1,
            mp - 9,
            d,
        ) == days,
{
    let march = yoe + era * 400;
    lemma_days_before_march_year(march, era, yoe);
    let base = 146_097 * era + 365 * yoe + yoe / 4 - yoe / 100;
    assert(days == base + doy - 719_468);
    if mp < 10 {
        lemma_month_of_year(march, doy, mp, d);
        lemma_sum(
            days_before_year(march),
            days_before_month(march, mp + 3),
            d,
            base,
            doy,
            if leap(march) {
                60
            } else {
                59
            },
        );
    } else {
        lemma_month_of_year(march + 1, doy, mp, d);
        lemma_leap_by_era(yoe + 1, era);
        assert(march + 1 == yoe + 1 + era * 400);
        assert(days_before_year(march + 1) == base + 366);
    }
}

proof fn lemma_sum(year: int, month: int, d: int, base: int, doy: int, shift: int)
    requires
        year + shift == base + 60,
        month + d - 1 == doy + shift,
    ensures
        year + month + d - 1 - 719_528 == base + doy - 719_468,
{
}

proof fn lemma_leap_by_era(y: int, era: int)
    ensures
        leap(y + era * 400) == leap(y),
{
    assert((y + era * 400) % 4 == y % 4);
    assert((y + era * 400) % 100 == y % 100);
    assert((y + era * 400) % 400 == y % 400);
}

/// The date that is some days after the first of January 1970.
fn civil(days: i64) -> (r: (i64, i64, i64))
    requires
        -200_000_000_000_000 < days < 200_000_000_000_000,
    ensures
        is_date(r.0 as int, r.1 as int, r.2 as int),
        day_number(r.0 as int, r.1 as int, r.2 as int) == days,
        r.0 > i64::MIN,
        1 <= r.2 <= 31,
{
    let (era, doe) = divide(days + 719_468, 146_097);
    let (yoe, doy) = year_of_era(doe);
    let mp: i64 = (5 * doy + 2) / 153;
    let d: i64 = doy - (153 * mp + 2) / 5 + 1;
    let march: i64 = yoe + era * 400;
    proof {
        lemma_month_of_year(0, doy as int, mp as int, d as int);
        lemma_civil(
            days as int,
            era as int,
            doe as int,
            yoe as int,
            doy as int,
            mp as int,
            d as int,
        );
    }
    if mp < 10 {
        (march, mp + 3, d)
    } else {
        (march + 1, mp - 9, d)
    }
}

fn instant(y: i64, m: i64, d: i64, sod: i64) -> (s: String)
    requires
        y > i64::MIN,
        1 <= m <= 12,
        1 <= d <= 31,
        0 <= sod < 86_400,
    ensures
        s@ == instant_text(y as int, m as int, d as int, sod as int),
{
    let mut s = pad(y, 4);
    s.append("-");
    s.append(pad(m, 2).as_str());
    s.append("-");
    s.append(pad(d, 2).as_str());
    s.append("T");
    s.append(pad(sod / 3600, 2).as_str());
    s.append(":");
    s.append(pad((sod % 3600) / 60, 2).as_str());
    s.append(":");
    s.append(pad(sod % 60, 2).as_str());
    s.append("Z");
    s
}

/// A point in time as text: the date whose number is the number of whole days, and what
/// is left of the seconds.
pub open spec fn utc_text(secs: int) -> Seq<char> {
    let (y, m, d) = choose|y: int, m: int, d: int|
        #![trigger is_date(y, m, d)]
        is_date(y, m, d) && day_number(y, m, d) == secs / 86_400;
    instant_text(y, m, d, secs % 86_400)
}

/// The text of a point in time is that of its date.
pub proof fn law_utc_text_is_of_the_date(secs: int, y: int, m: int, d: int)
    requires
        is_date(y, m, d),
        day_number(y, m, d) == secs / 86_400,
    ensures
        utc_text(secs) == instant_text(y, m, d, secs % 86_400),
{
    let (a, b, c) = choose|a: int, b: int, c: int|
        #![trigger is_date(a, b, c)]
        is_date(a, b, c) && day_number(a, b, c) == secs / 86_400;
    law_one_date_per_day(a, b, c, y, m, d);
}

/// A point in time, in seconds since the start of 1970 in UTC, as
/// `YYYY-MM-DDTHH:MM:SSZ`.
#[must_use]
pub fn iso8601_utc(secs: i64) -> (r: String)
    ensures
        r@ == utc_text(secs as int),
{
    let (days, sod) = divide(secs, 86_400);
    let (y, m, d) = civil(days);
    proof {
        law_utc_text_is_of_the_date(secs as int, y as int, m as int, d as int);
    }
    instant(y, m, d, sod)
}

/// No two dates have the same number, so an instant has one date.
pub proof fn law_one_date_per_day(y1: int, m1: int, d1: int, y2: int, m2: int, d2: int)
    requires
        is_date(y1, m1, d1),
        is_date(y2, m2, d2),
        day_number(y1, m1, d1) == day_number(y2, m2, d2),
    ensures
        y1 == y2 && m1 == m2 && d1 == d2,
{
    lemma_day_in_year(y1, m1, d1);
    lemma_day_in_year(y2, m2, d2);
    if y1 < y2 {
        lemma_years_increase(y1 + 1, y2);
        law_years_have_their_length(y1);
    } else if y2 < y1 {
        lemma_years_increase(y2 + 1, y1);
        law_years_have_their_length(y2);
    } else if m1 < m2 {
        lemma_months_increase(y1, m1 + 1, m2);
    } else if m2 < m1 {
        lemma_months_increase(y1, m2 + 1, m1);
    }
}

proof fn lemma_years_increase(a: int, b: int)
    requires
        a <= b,
    ensures
        days_before_year(a) <= days_before_year(b),
    decreases b - a,
{
    if a < b {
        lemma_years_increase(a, b - 1);
        law_years_have_their_length(b - 1);
    }
}

proof fn lemma_months_increase(y: int, a: int, b: int)
    requires
        1 <= a <= b,
    ensures
        days_before_month(y, a) <= days_before_month(y, b),
    decreases b - a,
{
    if a < b {
        lemma_months_increase(y, a, b - 1);
    }
}

proof fn lemma_day_in_year(y: int, m: int, d: int)
    requires
        is_date(y, m, d),
    ensures
        0 <= days_before_month(y, m) + d - 1 < if leap(y) {
            366int
        } else {
            365
        },
{
    reveal_with_fuel(days_before_month, 13);
    assert(m == 1 || m == 2 || m == 3 || m == 4 || m == 5 || m == 6 || m == 7 || m == 8 || m == 9
        || m == 10 || m == 11 || m == 12);
}

// ---------------------------------------------------------------------------
// Provenance
// ---------------------------------------------------------------------------

pub const POLICY: &'static str = "LerpSlerp (tf2's policy)";

pub const IN_CONTAINER: &'static str = "yes (/.dockerenv present)";

pub const NO_ROS: &'static str = "none (no ROS 2 in this run)";

pub const NO_TF2: &'static str = "none — the tf2 columns are UNAVAILABLE, not zero";

pub const NO_RMW: &'static str = "none — no middleware is in any measurement here; both engines are driven in-process from the same loop";

pub const NO_DDS: &'static str = "not applicable — no DDS in this configuration (see rmw_implementation)";

pub const NO_EXECUTOR: &'static str = "not applicable — no rclcpp executor; the harness drives both engines directly";

/// The keys of the provenance, in the order in which they are printed.
pub const FACT_KEYS: [&'static str; 29] = [
    "generated_utc",
    "schema",
    "git_commit",
    "git_dirty",
    "rustc",
    "build_profile",
    "build_lto",
    "target",
    "counters_feature",
    "shm_feature",
    "tf2_feature",
    "format_version",
    "layout_hash",
    "interp_policy",
    "cpu_model",
    "physical_cores",
    "logical_cpus",
    "cpu_governor",
    "kernel",
    "transparent_hugepage",
    "transparent_hugepage_shmem",
    "perf_event_paranoid",
    "load_average",
    "container",
    "ros_distro",
    "tf2_version",
    "rmw_implementation",
    "dds_qos",
    "executor_config",
];

/// What a process sees around it: texts of files and of commands' output where they could
/// be read, and what was compiled in.
pub struct Surroundings {
    /// Seconds since the start of 1970 in UTC.
    pub now_secs: i64,
    /// Output of `git rev-parse HEAD`, trimmed.
    pub git_commit: Option<String>,
    /// Output of `git status --porcelain`, trimmed.
    pub git_status: Option<String>,
    /// Output of `rustc --version`, trimmed.
    pub rustc: Option<String>,
    /// The profile directory that the binary was built into.
    pub profile_dir: String,
    /// Where the workspace manifest is.
    pub manifest_path: String,
    /// The manifest's text, or why there is none.
    pub manifest: Result<String, String>,
    /// The target architecture.
    pub arch: String,
    pub counters_feature: bool,
    pub shm_feature: bool,
    pub tf2_feature: bool,
    /// The arena's format version and layout hash.
    pub format_version: u64,
    pub layout_hash: u32,
    /// `/proc/cpuinfo`.
    pub cpuinfo: Option<String>,
    pub logical_cpus: usize,
    /// Each CPU's `scaling_governor`.
    pub governor_files: Vec<String>,
    /// `/proc/sys/kernel/osrelease`.
    pub kernel: Option<String>,
    /// `/sys/kernel/mm/transparent_hugepage/enabled`, which governs anonymous mappings.
    pub hugepage: Option<String>,
    /// `/sys/kernel/mm/transparent_hugepage/shmem_enabled`, which governs shared ones.
    pub hugepage_shmem: Option<String>,
    /// `/proc/sys/kernel/perf_event_paranoid`.
    pub perf_event_paranoid: Option<String>,
    /// `/proc/loadavg`.
    pub load_average: Option<String>,
    /// Whether `/.dockerenv` exists.
    pub in_container: bool,
    /// `ROS_DISTRO`.
    pub ros_distro: Option<String>,
    /// `RMW_IMPLEMENTATION`.
    pub rmw: Option<String>,
}

pub struct SurroundingsView {
    pub now_secs: i64,
    pub git_commit: Option<Seq<char>>,
    pub git_status: Option<Seq<char>>,
    pub rustc: Option<Seq<char>>,
    pub profile_dir: Seq<char>,
    pub manifest_path: Seq<char>,
    pub manifest: Result<Seq<char>, Seq<char>>,
    pub arch: Seq<char>,
    pub counters_feature: bool,
    pub shm_feature: bool,
    pub tf2_feature: bool,
    pub format_version: u64,
    pub layout_hash: u32,
    pub cpuinfo: Option<Seq<char>>,
    pub logical_cpus: usize,
    pub governor_files: Seq<Seq<char>>,
    pub kernel: Option<Seq<char>>,
    pub hugepage: Option<Seq<char>>,
    pub hugepage_shmem: Option<Seq<char>>,
    pub perf_event_paranoid: Option<Seq<char>>,
    pub load_average: Option<Seq<char>>,
    pub in_container: bool,
    pub ros_distro: Option<Seq<char>>,
    pub rmw: Option<Seq<char>>,
}

impl View for Surroundings {
    type V = SurroundingsView;

    open spec fn view(&self) -> SurroundingsView {
        SurroundingsView {
            now_secs: self.now_secs,
            git_commit: super::text_of(self.git_commit),
            git_status: super::text_of(self.git_status),
            rustc: super::text_of(self.rustc),
            profile_dir: self.profile_dir@,
            manifest_path: self.manifest_path@,
            manifest: match self.manifest {
                Ok(t) => Ok(t@),
                Err(e) => Err(e@),
            },
            arch: self.arch@,
            counters_feature: self.counters_feature,
            shm_feature: self.shm_feature,
            tf2_feature: self.tf2_feature,
            format_version: self.format_version,
            layout_hash: self.layout_hash,
            cpuinfo: super::text_of(self.cpuinfo),
            logical_cpus: self.logical_cpus,
            governor_files: texts(self.governor_files@),
            kernel: super::text_of(self.kernel),
            hugepage: super::text_of(self.hugepage),
            hugepage_shmem: super::text_of(self.hugepage_shmem),
            perf_event_paranoid: super::text_of(self.perf_event_paranoid),
            load_average: super::text_of(self.load_average),
            in_container: self.in_container,
            ros_distro: super::text_of(self.ros_distro),
            rmw: super::text_of(self.rmw),
        }
    }
}

pub open spec fn fact(key: Seq<char>, value: Seq<char>) -> FactView {
    FactView { key, value }
}

pub open spec fn or_unknown(s: Option<Seq<char>>) -> Seq<char> {
    match s {
        Some(t) => t,
        None => "unknown"@,
    }
}

pub open spec fn dirty(status: Option<Seq<char>>) -> Seq<char> {
    match status {
        None => "unknown"@,
        Some(s) => if blank(s) {
            "false"@
        } else {
            "true"@
        },
    }
}

pub open spec fn truth(b: bool) -> Seq<char> {
    if b {
        "true"@
    } else {
        "false"@
    }
}

pub open spec fn lto_text(s: SurroundingsView) -> Seq<char> {
    match s.manifest {
        Ok(t) => embed::lto_of(
            t,
            embed::profile_of_dir(s.profile_dir),
            embed::profile_of_dir(s.profile_dir),
            8,
        ),
        Err(e) => "unknown (the workspace manifest at "@ + s.manifest_path + " could not be read: "@
            + e + ")"@,
    }
}

/// An upper-case hexadecimal digit.
pub open spec fn upper_hex(d: nat) -> char {
    if d < 10 {
        (d + '0' as int) as char
    } else {
        (d - 10 + 'A' as int) as char
    }
}

/// A number in hexadecimal, in `n` digits.
pub open spec fn hex_digits(v: nat, n: nat) -> Seq<char>
    decreases n,
{
    if n == 0 {
        seq![]
    } else {
        hex_digits(v / 16, (n - 1) as nat).push(upper_hex(v % 16))
    }
}

pub open spec fn hash_text(h: u32) -> Seq<char> {
    "0x"@ + hex_digits(h as nat, 8)
}

pub open spec fn model_text(cpuinfo: Option<Seq<char>>) -> Seq<char> {
    match cpuinfo {
        Some(t) => or_unknown(model_in(lines(t))),
        None => "unknown"@,
    }
}

pub open spec fn cores_text(cpuinfo: Option<Seq<char>>) -> Seq<char> {
    match cpuinfo {
        Some(t) => match core_count(t) {
            Some(n) => digits(n),
            None => "unknown"@,
        },
        None => "unknown"@,
    }
}

pub open spec fn governor_text(files: Seq<Seq<char>>) -> Seq<char> {
    match governors_of(files) {
        Some(g) => joined(first_seen(g), ", "@),
        None => "unknown"@,
    }
}

pub open spec fn headline_or_unknown(file: Option<Seq<char>>) -> Seq<char> {
    match file {
        Some(t) => headline(t),
        None => "unknown"@,
    }
}

pub open spec fn distro_text(distro: Option<Seq<char>>) -> Seq<char> {
    match distro {
        Some(d) => d,
        None => NO_ROS@,
    }
}

pub open spec fn tf2_text(distro: Option<Seq<char>>) -> Seq<char> {
    match distro {
        Some(d) => "the tf2 shipped with ROS 2 "@ + d,
        None => NO_TF2@,
    }
}

pub open spec fn rmw_text(rmw: Option<Seq<char>>) -> Seq<char> {
    match rmw {
        Some(r) => r,
        None => NO_RMW@,
    }
}

/// The provenance of a report that is produced in some surroundings.
pub open spec fn collected(s: SurroundingsView) -> Seq<FactView> {
    seq![
        fact("generated_utc"@, utc_text(s.now_secs as int)),
        fact("schema"@, SCHEMA@),
        fact("git_commit"@, or_unknown(s.git_commit)),
        fact("git_dirty"@, dirty(s.git_status)),
        fact("rustc"@, or_unknown(s.rustc)),
        fact("build_profile"@, s.profile_dir),
        fact("build_lto"@, lto_text(s)),
        fact("target"@, s.arch),
        fact("counters_feature"@, truth(s.counters_feature)),
        fact("shm_feature"@, truth(s.shm_feature)),
        fact("tf2_feature"@, truth(s.tf2_feature)),
        fact("format_version"@, digits(s.format_version as nat)),
        fact("layout_hash"@, hash_text(s.layout_hash)),
        fact("interp_policy"@, POLICY@),
        fact("cpu_model"@, model_text(s.cpuinfo)),
        fact("physical_cores"@, cores_text(s.cpuinfo)),
        fact("logical_cpus"@, digits(s.logical_cpus as nat)),
        fact("cpu_governor"@, governor_text(s.governor_files)),
        fact("kernel"@, headline_or_unknown(s.kernel)),
        fact("transparent_hugepage"@, headline_or_unknown(s.hugepage)),
        fact("transparent_hugepage_shmem"@, headline_or_unknown(s.hugepage_shmem)),
        fact("perf_event_paranoid"@, headline_or_unknown(s.perf_event_paranoid)),
        fact("load_average"@, headline_or_unknown(s.load_average)),
        fact("container"@, if s.in_container {
            IN_CONTAINER@
        } else {
            "no"@
        }),
        fact("ros_distro"@, distro_text(s.ros_distro)),
        fact("tf2_version"@, tf2_text(s.ros_distro)),
        fact("rmw_implementation"@, rmw_text(s.rmw)),
        fact("dds_qos"@, NO_DDS@),
        fact("executor_config"@, NO_EXECUTOR@),
    ]
}

fn text_or_unknown(s: &Option<String>) -> (r: String)
    ensures
        r@ == or_unknown(super::text_of(*s)),
{
    match s {
        Some(t) => t.clone(),
        None => "unknown".to_owned(),
    }
}

fn headline_text(file: &Option<String>) -> (r: String)
    ensures
        r@ == headline_or_unknown(super::text_of(*file)),
{
    match file {
        Some(t) => read_trim(t.as_str()),
        None => "unknown".to_owned(),
    }
}

fn dirty_text(status: &Option<String>) -> (r: String)
    ensures
        r@ == dirty(super::text_of(*status)),
{
    match status {
        None => "unknown".to_owned(),
        Some(s) => if text::is_blank(s.as_str()) {
            "false".to_owned()
        } else {
            "true".to_owned()
        },
    }
}

fn truth_text(b: bool) -> (r: String)
    ensures
        r@ == truth(b),
{
    if b {
        "true".to_owned()
    } else {
        "false".to_owned()
    }
}

fn hex_of(v: u32, n: u32) -> (r: String)
    ensures
        r@ == hex_digits(v as nat, n as nat),
    decreases n,
{
    if n == 0 {
        return String::new();
    }
    let mut s = hex_of(v / 16, n - 1);
    let d: u8 = (v % 16) as u8;
    let c: char = if d < 10 {
        (48u8 + d) as char
    } else {
        (55u8 + d) as char
    };
    s.push(c);
    s
}

fn build_lto(s: &Surroundings) -> (r: String)
    ensures
        r@ == lto_text(s@),
{
    match &s.manifest {
        Ok(t) => embed::lto_for_profile_dir(t.as_str(), s.profile_dir.as_str()),
        Err(e) => {
            let mut m = "unknown (the workspace manifest at ".to_owned();
            m.append(s.manifest_path.as_str());
            m.append(" could not be read: ");
            m.append(e.as_str());
            m.append(")");
            m
        },
    }
}

fn model_of(cpuinfo: &Option<String>) -> (r: String)
    ensures
        r@ == model_text(super::text_of(*cpuinfo)),
{
    match cpuinfo {
        Some(t) => text_or_unknown(&cpu_model(t.as_str())),
        None => "unknown".to_owned(),
    }
}

fn cores_of(cpuinfo: &Option<String>) -> (r: String)
    ensures
        r@ == cores_text(super::text_of(*cpuinfo)),
{
    match cpuinfo {
        Some(t) => match physical_cores_from_cpuinfo(t.as_str()) {
            Some(n) => decimal(n as u64),
            None => "unknown".to_owned(),
        },
        None => "unknown".to_owned(),
    }
}

fn governor_of(files: &Vec<String>) -> (r: String)
    ensures
        r@ == governor_text(texts(files@)),
{
    match governors(files) {
        Some(g) => dedup_join(&g),
        None => "unknown".to_owned(),
    }
}

fn put(facts: &mut Vec<Fact>, key: &'static str, value: String)
    ensures
        fact_views(final(facts)@) == fact_views(old(facts)@).push(fact(key@, value@)),
{
    let ghost before = fact_views(facts@);
    facts.push(Fact { key, value });
    assert(fact_views(facts@) =~= before.push(fact(key@, value@)));
}

impl Provenance {
    /// The environment description. What cannot be read is recorded as such, not left out.
    #[must_use]
    pub fn collect(s: &Surroundings) -> (r: Provenance)
        ensures
            r@ == collected(s@),
    {
        let mut f: Vec<Fact> = Vec::new();
        assert(fact_views(f@) =~= seq![]);
        put(&mut f, "generated_utc", iso8601_utc(s.now_secs));
        put(&mut f, "schema", SCHEMA.to_owned());
        put(&mut f, "git_commit", text_or_unknown(&s.git_commit));
        put(&mut f, "git_dirty", dirty_text(&s.git_status));
        put(&mut f, "rustc", text_or_unknown(&s.rustc));
        put(&mut f, "build_profile", s.profile_dir.clone());
        put(&mut f, "build_lto", build_lto(s));
        put(&mut f, "target", s.arch.clone());
        put(&mut f, "counters_feature", truth_text(s.counters_feature));
        put(&mut f, "shm_feature", truth_text(s.shm_feature));
        put(&mut f, "tf2_feature", truth_text(s.tf2_feature));
        put(&mut f, "format_version", decimal(s.format_version));
        let mut hash = "0x".to_owned();
        hash.append(hex_of(s.layout_hash, 8).as_str());
        put(&mut f, "layout_hash", hash);
        put(&mut f, "interp_policy", POLICY.to_owned());
        put(&mut f, "cpu_model", model_of(&s.cpuinfo));
        put(&mut f, "physical_cores", cores_of(&s.cpuinfo));
        put(&mut f, "logical_cpus", decimal(s.logical_cpus as u64));
        put(&mut f, "cpu_governor", governor_of(&s.governor_files));
        put(&mut f, "kernel", headline_text(&s.kernel));
        put(&mut f, "transparent_hugepage", headline_text(&s.hugepage));
        put(&mut f, "transparent_hugepage_shmem", headline_text(&s.hugepage_shmem));
        put(&mut f, "perf_event_paranoid", headline_text(&s.perf_event_paranoid));
        put(&mut f, "load_average", headline_text(&s.load_average));
        if s.in_container {
            put(&mut f, "container", IN_CONTAINER.to_owned());
        } else {
            put(&mut f, "container", "no".to_owned());
        }
        let distro = match &s.ros_distro {
            Some(d) => d.clone(),
            None => NO_ROS.to_owned(),
        };
        put(&mut f, "ros_distro", distro);
        let tf2 = match &s.ros_distro {
            Some(d) => {
                let mut t = "the tf2 shipped with ROS 2 ".to_owned();
                t.append(d.as_str());
                t
            },
            None => NO_TF2.to_owned(),
        };
        put(&mut f, "tf2_version", tf2);
        let rmw = match &s.rmw {
            Some(r) => r.clone(),
            None => NO_RMW.to_owned(),
        };
        put(&mut f, "rmw_implementation", rmw);
        put(&mut f, "dds_qos", NO_DDS.to_owned());
        put(&mut f, "executor_config", NO_EXECUTOR.to_owned());
        assert(fact_views(f@) =~= collected(s@));
        Provenance { facts: f }
    }
}

// ---------------------------------------------------------------------------
// What the readings mean
// ---------------------------------------------------------------------------

/// A year has a leap day every four years, but for the centuries that four hundred does not
/// divide; and its twelve months are its days.
pub proof fn law_months_make_the_year(year: int)
    ensures
        leap(year) <==> (year % 4 == 0 && year % 100 != 0) || year % 400 == 0,
        days_before_month(year, 13) == (if leap(year) {
            366int
        } else {
            365
        }),
        days_in_month(year, 1) == 31 && days_in_month(year, 4) == 30 && days_in_month(year, 12)
            == 31,
        days_in_month(year, 2) == 28 || days_in_month(year, 2) == 29,
{
    reveal_with_fuel(days_before_month, 14);
    assert(year % 400 == 0 ==> year % 4 == 0 && year % 100 == 0);
}

/// An instant is printed as the date of its day and then the hour, the minute and the second
/// of it.
pub proof fn law_an_instant_is_printed_by_its_parts(
    y: int,
    m: int,
    d: int,
    hour: int,
    minute: int,
    second: int,
)
    requires
        is_date(y, m, d),
        0 <= hour < 24,
        0 <= minute < 60,
        0 <= second < 60,
    ensures
        utc_text(day_number(y, m, d) * 86_400 + hour * 3600 + minute * 60 + second) == padded(y, 4)
            + "-"@ + padded(m, 2) + "-"@ + padded(d, 2) + "T"@ + padded(hour, 2) + ":"@ + padded(
            minute,
            2,
        ) + ":"@ + padded(second, 2) + "Z"@,
{
    let n = day_number(y, m, d);
    let t = hour * 3600 + minute * 60 + second;
    let secs = n * 86_400 + t;
    assert(0 <= t < 86_400);
    assert(secs / 86_400 == n && secs % 86_400 == t);
    assert(t / 3600 == hour && (t % 3600) / 60 == minute && t % 60 == second);
    law_utc_text_is_of_the_date(secs, y, m, d);
}

/// What is listed once is each of the things that were seen, and none twice.
pub proof fn law_each_is_listed_once(v: Seq<Seq<char>>)
    ensures
        first_seen(v).no_duplicates(),
        forall|x: Seq<char>| #[trigger] first_seen(v).contains(x) <==> v.contains(x),
    decreases v.len(),
{
    if v.len() > 0 {
        let w = v.drop_last();
        law_each_is_listed_once(w);
        let rest = first_seen(w);
        let all = first_seen(v);
        assert forall|x: Seq<char>| #[trigger] all.contains(x) <==> v.contains(x) by {
            if v.contains(x) {
                let i = choose|i: int| 0 <= i < v.len() && v[i] == x;
                if i < w.len() {
                    assert(w[i] == x);
                    assert(rest.contains(x));
                    let k = choose|k: int| 0 <= k < rest.len() && rest[k] == x;
                    assert(all[k] == x);
                } else if !rest.contains(x) {
                    assert(all[rest.len() as int] == x);
                }
            }
            if all.contains(x) {
                let k = choose|k: int| 0 <= k < all.len() && all[k] == x;
                if k < rest.len() {
                    assert(rest[k] == x);
                    assert(rest.contains(x));
                    assert(w.contains(x));
                    let i = choose|i: int| 0 <= i < w.len() && w[i] == x;
                    assert(v[i] == x);
                } else {
                    assert(v[v.len() - 1] == x);
                }
            }
        }
    }
}

/// A core is its package and its id, and counts once, however many threads list it.
pub proof fn law_a_core_is_its_package_and_id(ls: Seq<Seq<char>>, p: Seq<char>, c: Seq<char>)
    requires
        begins(p, "physical id"@),
        begins(c, "core id"@),
        after_colon(p.skip("physical id"@.len() as int)) is Some,
        after_colon(c.skip("core id"@.len() as int)) is Some,
        ids_in(ls).core is None,
    ensures
        ({
            let all = ids_in(ls.push(p).push(c));
            &&& all.pairs == ids_in(ls).pairs.insert(
                (
                    after_colon(p.skip("physical id"@.len() as int))->0,
                    after_colon(c.skip("core id"@.len() as int))->0,
                ),
            )
            &&& all.package is None && all.core is None
        }),
{
    reveal_strlit("physical id");
    reveal_strlit("core id");
    let a = ls.push(p);
    let b = a.push(c);
    assert(a.drop_last() =~= ls);
    assert(b.drop_last() =~= a);
    assert("physical id"@[0] == 'p' && "core id"@[0] == 'c');
    assert(c.take(7)[0] == 'c');
    assert(c[0] == 'c');
    assert(c.len() >= 11 ==> c.take(11)[0] == 'c');
    assert(!begins(c, "physical id"@));
    assert(ids_in(a) == take_line(ids_in(ls), p));
    assert(ids_in(b) == take_line(ids_in(a), c));
}

/// The model is what follows the colon of the first line that names one.
pub proof fn law_the_model_is_on_its_line(ls: Seq<Seq<char>>, k: int)
    requires
        0 <= k <= ls.len(),
        forall|i: int| 0 <= i < k ==> !begins(#[trigger] ls[i], "model name"@),
    ensures
        k == ls.len() ==> model_in(ls) is None,
        k < ls.len() && begins(ls[k], "model name"@) ==> (match model_in(ls) {
            None => !ls[k].contains(':'),
            Some(m) => exists|i: int|
                0 <= i < ls[k].len() && #[trigger] ls[k][i] == ':' && m == trimmed(ls[k].skip(i + 1))
                    && forall|j: int| 0 <= j < i ==> #[trigger] ls[k][j] != ':',
        }),
    decreases k,
{
    if k > 0 {
        let rest = ls.skip(1);
        assert(!begins(ls[0], "model name"@));
        assert forall|i: int| 0 <= i < k - 1 implies !begins(#[trigger] rest[i], "model name"@) by {
            assert(rest[i] == ls[i + 1]);
        }
        law_the_model_is_on_its_line(rest, k - 1);
        if k < ls.len() {
            assert(rest[k - 1] == ls[k]);
        }
    } else if ls.len() > 0 {
        let l = ls[0];
        text::lemma_until(l, ':');
        let n = until(l, ':') as int;
        if n < l.len() {
            assert(l[n] == ':');
        } else if l.contains(':') {
            let j = l.index_of(':');
            assert(l[j] == ':');
        }
    }
}

/// A number is filled up with zeros to its width and no further, and keeps its value.
pub proof fn law_filling_up_keeps_the_number(s: Seq<char>, width: nat)
    ensures
        s.len() >= width ==> zero_filled(s, width) == s,
        s.len() < width ==> zero_filled(s, width).len() == width,
        zero_filled(s, width).skip(zero_filled(s, width).len() - s.len()) == s,
        forall|i: int|
            0 <= i < zero_filled(s, width).len() - s.len() ==> #[trigger] zero_filled(s, width)[i]
                == '0',
    decreases width - s.len(),
{
    if s.len() >= width {
        assert(s.skip(0) =~= s);
    } else {
        let t = seq!['0'] + s;
        law_filling_up_keeps_the_number(t, width);
        let z = zero_filled(t, width);
        let d = z.len() - t.len();
        assert(z.skip(d + 1) =~= z.skip(d).skip(1));
        assert(t.skip(1) =~= s);
        assert forall|i: int| 0 <= i < d + 1 implies #[trigger] z[i] == '0' by {
            if i == d {
                assert(z.skip(d)[0] == z[d]);
            }
        }
    }
}

/// What a headline is: the first line of what is left when the white space is off.
pub proof fn law_a_headline_is_the_first_line(s: Seq<char>)
    ensures
        lines(trimmed(s)).len() > 0 ==> headline(s) == lines(trimmed(s))[0],
        trimmed(s).len() == 0 ==> headline(s).len() == 0,
{
}

/// The value that hexadecimal digits stand for.
pub open spec fn hex_read(s: Seq<char>) -> nat
    decreases s.len(),
{
    if s.len() == 0 {
        0
    } else {
        let c = s.last();
        hex_read(s.drop_last()) * 16 + (if '0' <= c <= '9' {
            (c as int - '0' as int) as nat
        } else {
            (c as int - 'A' as int + 10) as nat
        })
    }
}

proof fn lemma_hex_digits(v: nat, n: nat)
    ensures
        hex_digits(v, n).len() == n,
        n > 0 ==> hex_read(hex_digits(v, n)) == hex_read(hex_digits(v / 16, (n - 1) as nat)) * 16 + v
            % 16,
    decreases n,
{
    if n > 0 {
        lemma_hex_digits(v / 16, (n - 1) as nat);
        let d = hex_digits(v / 16, (n - 1) as nat);
        let c = upper_hex(v % 16);
        assert(d.push(c).drop_last() =~= d);
        assert(d.push(c).last() == c);
    }
}

/// A hash is printed as eight hexadecimal digits that read back as it.
pub proof fn law_a_hash_reads_back(h: u32)
    ensures
        begins(hash_text(h), "0x"@),
        hash_text(h).len() == 10,
        hex_read(hash_text(h).skip(2)) == h,
{
    reveal_strlit("0x");
    let v = h as nat;
    lemma_hex_digits(v, 8);
    lemma_hex_digits(v / 16, 7);
    lemma_hex_digits(v / 16 / 16, 6);
    lemma_hex_digits(v / 16 / 16 / 16, 5);
    lemma_hex_digits(v / 16 / 16 / 16 / 16, 4);
    lemma_hex_digits(v / 16 / 16 / 16 / 16 / 16, 3);
    lemma_hex_digits(v / 16 / 16 / 16 / 16 / 16 / 16, 2);
    lemma_hex_digits(v / 16 / 16 / 16 / 16 / 16 / 16 / 16, 1);
    let d = hex_digits(v, 8);
    assert(hash_text(h).skip(2) =~= d);
    assert(hash_text(h).take(2) =~= "0x"@);
    assert(v / 16 / 16 / 16 / 16 / 16 / 16 / 16 / 16 == 0);
}

/// A tree is dirty where its status is not blank, clean where it is, and otherwise unknown.
pub proof fn law_when_a_tree_is_dirty(s: Seq<char>)
    ensures
        dirty(None) == "unknown"@,
        blank(s) ==> dirty(Some(s)) == "false"@,
        !blank(s) ==> dirty(Some(s)) == "true"@,
        truth(true) == "true"@,
        truth(false) == "false"@,
{
}

/// The governors are listed as they are in the files, without the white space and without
/// repeats.
pub proof fn law_governors_are_listed(files: Seq<Seq<char>>, g: Seq<char>)
    ensures
        files.len() == 0 ==> governors_of(files) is None && governor_text(files) == "unknown"@,
        files.len() > 0 ==> (governors_of(files) matches Some(v) && v.len() == files.len()
            && forall|i: int| 0 <= i < v.len() ==> #[trigger] v[i] == trimmed(files[i])),
{
}

} // verus!
