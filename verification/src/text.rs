//! Text as a sequence of characters: the small vocabulary in which every
//! parser and every message of this crate is stated.

use vstd::prelude::*;

verus! {

/// Appends one character (`String::push`): the text grows by exactly that
/// character at its end.
pub assume_specification[ String::push ](s: &mut String, c: char)
    ensures
        final(s)@ == old(s)@.push(c),
;

/// The texts that a sequence of strings holds.
pub open spec fn texts(v: Seq<String>) -> Seq<Seq<char>> {
    v.map_values(|s: String| s@)
}

pub broadcast proof fn lemma_texts_push(v: Seq<String>, s: String)
    ensures
        #[trigger] texts(v.push(s)) == texts(v).push(s@),
{
    assert(texts(v.push(s)) =~= texts(v).push(s@));
}

// ---------------------------------------------------------------------------
// Characters
// ---------------------------------------------------------------------------

/// Unicode's `White_Space` property.
pub open spec fn is_space(c: char) -> bool {
    ||| 0x09 <= c as u32 <= 0x0d
    ||| c as u32 == 0x20
    ||| c as u32 == 0x85
    ||| c as u32 == 0xa0
    ||| c as u32 == 0x1680
    ||| 0x2000 <= c as u32 <= 0x200a
    ||| c as u32 == 0x2028
    ||| c as u32 == 0x2029
    ||| c as u32 == 0x202f
    ||| c as u32 == 0x205f
    ||| c as u32 == 0x3000
}

pub fn space(c: char) -> (r: bool)
    ensures
        r == is_space(c),
{
    let u: u32 = c as u32;
    (0x09 <= u && u <= 0x0d) || u == 0x20 || u == 0x85 || u == 0xa0 || u == 0x1680 || (0x2000 <= u
        && u <= 0x200a) || u == 0x2028 || u == 0x2029 || u == 0x202f || u == 0x205f || u == 0x3000
}

pub open spec fn is_digit(c: char) -> bool {
    '0' <= c <= '9'
}

pub open spec fn digit_value(c: char) -> nat {
    (c as int - '0' as int) as nat
}

pub open spec fn digit_char(d: nat) -> char
    recommends
        d < 10,
{
    (d + '0' as int) as char
}

fn digit_of(d: u64) -> (c: char)
    requires
        d < 10,
    ensures
        c == digit_char(d as nat),
        is_digit(c),
        digit_value(c) == d,
{
    let b: u8 = 48u8 + d as u8;
    b as char
}

// ---------------------------------------------------------------------------
// Decimal numbers
// ---------------------------------------------------------------------------

/// A natural number in decimal, without leading zeros.
pub open spec fn digits(n: nat) -> Seq<char>
    decreases n,
{
    if n < 10 {
        seq![digit_char(n)]
    } else {
        digits(n / 10).push(digit_char(n % 10))
    }
}

/// An integer in decimal, with a minus sign where it is negative.
pub open spec fn signed_digits(n: int) -> Seq<char> {
    if n < 0 {
        seq!['-'] + digits((-n) as nat)
    } else {
        digits(n as nat)
    }
}

/// The number that a run of decimal digits denotes.
pub open spec fn digits_value(s: Seq<char>) -> nat
    decreases s.len(),
{
    if s.len() == 0 {
        0
    } else {
        digits_value(s.drop_last()) * 10 + digit_value(s.last())
    }
}

pub open spec fn all_digits(s: Seq<char>) -> bool {
    forall|i: int| 0 <= i < s.len() ==> is_digit(#[trigger] s[i])
}

/// Reading back the decimal digits of a number gives that number.
pub proof fn law_digits_read_back(n: nat)
    ensures
        digits(n).len() > 0,
        all_digits(digits(n)),
        digits_value(digits(n)) == n,
    decreases n,
{
    reveal_with_fuel(digits_value, 2);
    if n < 10 {
        assert(digits(n).drop_last() =~= Seq::<char>::empty());
        assert(digits(n).last() == digit_char(n));
    } else {
        law_digits_read_back(n / 10);
        assert(digits(n).drop_last() =~= digits(n / 10));
    }
}

pub fn decimal(n: u64) -> (r: String)
    ensures
        r@ == digits(n as nat),
    decreases n,
{
    if n < 10 {
        let mut r = String::new();
        r.push(digit_of(n));
        assert(r@ =~= digits(n as nat));
        r
    } else {
        let mut r = decimal(n / 10);
        r.push(digit_of(n % 10));
        r
    }
}

pub fn signed_decimal(n: i64) -> (r: String)
    ensures
        r@ == signed_digits(n as int),
{
    if n < 0 {
        let mut r = String::new();
        r.push('-');
        let m: u64 = if n == i64::MIN {
            0x8000_0000_0000_0000u64
        } else {
            (-n) as u64
        };
        let d = decimal(m);
        r.append(d.as_str());
        assert(r@ =~= seq!['-'] + digits(m as nat));
        r
    } else {
        decimal(n as u64)
    }
}

/// What reading a text as an unsigned 64-bit number gives: an optional plus
/// sign, then decimal digits, nothing else, and no value past the type's range.
pub open spec fn read_u64(s: Seq<char>) -> Option<u64> {
    let t = if s.len() > 0 && s[0] == '+' {
        s.skip(1)
    } else {
        s
    };
    if t.len() > 0 && all_digits(t) && digits_value(t) <= u64::MAX {
        Some(digits_value(t) as u64)
    } else {
        None
    }
}

/// As `read_u64`, for a signed number: a minus sign is accepted too.
pub open spec fn read_i64(s: Seq<char>) -> Option<i64> {
    let neg = s.len() > 0 && s[0] == '-';
    let t = if s.len() > 0 && (s[0] == '+' || s[0] == '-') {
        s.skip(1)
    } else {
        s
    };
    if t.len() > 0 && all_digits(t) {
        if neg && digits_value(t) <= 0x8000_0000_0000_0000 {
            Some((-(digits_value(t) as int)) as i64)
        } else if !neg && digits_value(t) <= i64::MAX {
            Some(digits_value(t) as i64)
        } else {
            None
        }
    } else {
        None
    }
}

proof fn lemma_digits_value_prefix(s: Seq<char>, k: int)
    requires
        0 <= k <= s.len(),
    ensures
        digits_value(s.take(k)) <= digits_value(s),
    decreases s.len() - k,
{
    if k == s.len() {
        assert(s.take(k) =~= s);
    } else {
        lemma_digits_value_prefix(s, k + 1);
        assert(s.take(k + 1).drop_last() =~= s.take(k));
    }
}

/// The digits of `cs` from `from` on as a number, if they are digits, if there
/// is one, and if the number fits.
fn read_digits(cs: &Vec<char>, from: usize) -> (r: Option<u64>)
    requires
        from <= cs@.len(),
    ensures
        r == (if cs@.skip(from as int).len() > 0 && all_digits(cs@.skip(from as int))
            && digits_value(cs@.skip(from as int)) <= u64::MAX {
            Some(digits_value(cs@.skip(from as int)) as u64)
        } else {
            None
        }),
{
    let ghost t = cs@.skip(from as int);
    if from >= cs.len() {
        return None;
    }
    let mut n: u64 = 0;
    let mut i: usize = from;
    while i < cs.len()
        invariant
            from <= i <= cs@.len(),
            t == cs@.skip(from as int),
            n == digits_value(t.take(i - from)),
            forall|j: int| 0 <= j < i - from ==> is_digit(#[trigger] t[j]),
        decreases cs@.len() - i,
    {
        let c = cs[i];
        assert(t[i - from] == c);
        if !('0' <= c && c <= '9') {
            return None;
        }
        let d: u64 = (c as u32 - 48) as u64;
        proof {
            assert(t.take(i + 1 - from).drop_last() =~= t.take(i - from));
            assert(t.take(i + 1 - from).last() == c);
            lemma_digits_value_prefix(t, i + 1 - from);
        }
        if n > 1844674407370955161 || (n == 1844674407370955161 && d > 5) {
            return None;
        }
        n = n * 10 + d;
        i = i + 1;
    }
    assert(t.take(i - from) =~= t);
    Some(n)
}

pub fn parse_u64(s: &str) -> (r: Option<u64>)
    ensures
        r == read_u64(s@),
{
    let cs = chars(s);
    if cs.len() > 0 && cs[0] == '+' {
        read_digits(&cs, 1)
    } else {
        assert(cs@.skip(0) =~= cs@);
        read_digits(&cs, 0)
    }
}

pub fn parse_i64(s: &str) -> (r: Option<i64>)
    ensures
        r == read_i64(s@),
{
    let cs = chars(s);
    let neg = cs.len() > 0 && cs[0] == '-';
    assert(cs@.skip(0) =~= cs@);
    let from: usize = if cs.len() > 0 && (cs[0] == '+' || cs[0] == '-') {
        1
    } else {
        0
    };
    match read_digits(&cs, from) {
        None => None,
        Some(n) => if neg {
            if n < 0x8000_0000_0000_0000u64 {
                Some(-(n as i64))
            } else if n == 0x8000_0000_0000_0000u64 {
                Some(i64::MIN)
            } else {
                None
            }
        } else if n <= 0x7fff_ffff_ffff_ffffu64 {
            Some(n as i64)
        } else {
            None
        },
    }
}

// ---------------------------------------------------------------------------
// Whole texts
// ---------------------------------------------------------------------------

pub fn chars(s: &str) -> (r: Vec<char>)
    ensures
        r@ == s@,
{
    let mut v: Vec<char> = Vec::new();
    for c in it: s.chars()
        invariant
            it.seq() == s@,
            v@ == s@.take(it.index()),
    {
        v.push(c);
    }
    v
}

/// The characters of `cs` from `from` up to `to`, as a string.
pub fn slice(cs: &Vec<char>, from: usize, to: usize) -> (r: String)
    requires
        from <= to <= cs@.len(),
    ensures
        r@ == cs@.subrange(from as int, to as int),
{
    let mut r = String::new();
    let mut i: usize = from;
    while i < to
        invariant
            from <= i <= to <= cs@.len(),
            r@ == cs@.subrange(from as int, i as int),
        decreases to - i,
    {
        r.push(cs[i]);
        i = i + 1;
        assert(cs@.subrange(from as int, i as int) =~= cs@.subrange(from as int, i - 1).push(
            cs@[i - 1],
        ));
    }
    r
}

/// Whether two texts are the same.
pub fn same(a: &str, b: &str) -> (r: bool)
    ensures
        r == (a@ == b@),
{
    let x = chars(a);
    let y = chars(b);
    if x.len() != y.len() {
        return false;
    }
    let mut i: usize = 0;
    while i < x.len()
        invariant
            x@ == a@,
            y@ == b@,
            x@.len() == y@.len(),
            i <= x@.len(),
            forall|j: int| 0 <= j < i ==> x@[j] == y@[j],
        decreases x@.len() - i,
    {
        if x[i] != y[i] {
            return false;
        }
        i = i + 1;
    }
    assert(x@ =~= y@);
    true
}

/// Whether `p` stands at the front of `s`.
pub open spec fn begins(s: Seq<char>, p: Seq<char>) -> bool {
    p.len() <= s.len() && s.take(p.len() as int) == p
}

/// Whether `p` stands in `s` at `i`.
pub open spec fn stands_at(s: Seq<char>, p: Seq<char>, i: int) -> bool {
    0 <= i && i + p.len() <= s.len() && s.subrange(i, i + p.len() as int) == p
}

/// Whether `p` stands anywhere in `s`.
pub open spec fn holds(s: Seq<char>, p: Seq<char>) -> bool {
    exists|i: int| #[trigger] stands_at(s, p, i)
}

/// What a beginning of a text ends with stands in the text.
pub proof fn lemma_end_of_a_beginning(s: Seq<char>, a: Seq<char>, p: Seq<char>)
    requires
        begins(s, a + p),
    ensures
        holds(s, p),
        begins(s, a),
{
    let i = a.len() as int;
    let n = (a + p).len() as int;
    assert(s.subrange(i, n) =~= s.take(n).skip(i));
    assert((a + p).skip(i) =~= p);
    assert(stands_at(s, p, i));
    assert(s.take(i) =~= s.take(n).take(i));
    assert((a + p).take(i) =~= a);
}

/// Both parts of a text stand in it, and it begins with the first.
pub proof fn lemma_both_parts(a: Seq<char>, p: Seq<char>)
    ensures
        begins(a + p, a + p),
        begins(a + p, a),
        holds(a + p, a),
        holds(a + p, p),
{
    assert((a + p).take((a + p).len() as int) =~= a + p);
    lemma_end_of_a_beginning(a + p, a, p);
    assert((a + p).subrange(0, a.len() as int) =~= a);
    assert(stands_at(a + p, a, 0));
}

/// What stands in a part of a text stands in the text.
pub proof fn lemma_holds_what_a_part_holds(s: Seq<char>, p: Seq<char>, q: Seq<char>)
    requires
        holds(s, p),
        holds(p, q),
    ensures
        holds(s, q),
{
    let i = choose|i: int| #[trigger] stands_at(s, p, i);
    let j = choose|j: int| #[trigger] stands_at(p, q, j);
    assert(s.subrange(i + j, i + j + q.len() as int) =~= s.subrange(i, i + p.len() as int).subrange(
        j,
        j + q.len() as int,
    ));
    assert(stands_at(s, q, i + j));
}

fn stands_here(s: &Vec<char>, p: &Vec<char>, at: usize) -> (r: bool)
    requires
        at <= s@.len(),
    ensures
        r == stands_at(s@, p@, at as int),
{
    if p.len() > s.len() - at {
        return false;
    }
    let mut i: usize = 0;
    while i < p.len()
        invariant
            at + p.len() <= s.len(),
            i <= p@.len(),
            forall|j: int| 0 <= j < i ==> s@[at + j] == p@[j],
        decreases p@.len() - i,
    {
        if s[at + i] != p[i] {
            assert(s@.subrange(at as int, at + p@.len())[i as int] != p@[i as int]);
            return false;
        }
        i = i + 1;
    }
    assert(s@.subrange(at as int, at + p@.len()) =~= p@);
    true
}

pub fn starts_with(s: &str, p: &str) -> (r: bool)
    ensures
        r == begins(s@, p@),
{
    let x = chars(s);
    let y = chars(p);
    assert(s@.len() >= p@.len() ==> s@.take(p@.len() as int) =~= s@.subrange(0, p@.len() as int));
    stands_here(&x, &y, 0)
}

/// What is left of a text that begins with `p`.
pub fn after_prefix(s: &str, p: &str) -> (r: Option<String>)
    ensures
        match r {
            Some(t) => begins(s@, p@) && t@ == s@.skip(p@.len() as int),
            None => !begins(s@, p@),
        },
{
    if starts_with(s, p) {
        let x = chars(s);
        let y = chars(p);
        let t = slice(&x, y.len(), x.len());
        assert(t@ =~= s@.skip(p@.len() as int));
        Some(t)
    } else {
        None
    }
}

// ---------------------------------------------------------------------------
// Trimming and splitting
// ---------------------------------------------------------------------------

pub open spec fn trim_start(s: Seq<char>) -> Seq<char>
    decreases s.len(),
{
    if s.len() > 0 && is_space(s[0]) {
        trim_start(s.skip(1))
    } else {
        s
    }
}

pub open spec fn trim_end(s: Seq<char>) -> Seq<char>
    decreases s.len(),
{
    if s.len() > 0 && is_space(s.last()) {
        trim_end(s.drop_last())
    } else {
        s
    }
}

/// A text without the white space at both its ends.
pub open spec fn trimmed(s: Seq<char>) -> Seq<char> {
    trim_end(trim_start(s))
}

/// Whether a text holds nothing but white space.
pub open spec fn blank(s: Seq<char>) -> bool {
    forall|i: int| 0 <= i < s.len() ==> is_space(#[trigger] s[i])
}

/// A text trims to nothing exactly where it is all white space.
pub proof fn lemma_blank(s: Seq<char>)
    ensures
        blank(s) == (trimmed(s).len() == 0),
        blank(s) == (trim_start(s).len() == 0),
    decreases s.len(),
{
    lemma_trim_end_some(trim_start(s));
    if s.len() > 0 && is_space(s[0]) {
        lemma_blank(s.skip(1));
        assert(trim_start(s) == trim_start(s.skip(1)));
        if blank(s) {
            assert forall|i: int| 0 <= i < s.skip(1).len() implies is_space(
                #[trigger] s.skip(1)[i],
            ) by {
                assert(s[i + 1] == s.skip(1)[i]);
            }
        }
        if blank(s.skip(1)) {
            assert forall|i: int| 0 <= i < s.len() implies is_space(#[trigger] s[i]) by {
                if i > 0 {
                    assert(s.skip(1)[i - 1] == s[i]);
                }
            }
        }
    } else if s.len() > 0 {
        assert(!is_space(s[0]));
    }
}

proof fn lemma_trim_end_some(s: Seq<char>)
    ensures
        trim_end(s).len() == 0 <==> blank(s),
        trim_end(s).len() <= s.len(),
        trim_end(s) == s.take(trim_end(s).len() as int),
    decreases s.len(),
{
    if s.len() > 0 && is_space(s.last()) {
        lemma_trim_end_some(s.drop_last());
        assert(trim_end(s) =~= s.take(trim_end(s).len() as int));
        if blank(s.drop_last()) {
            assert forall|i: int| 0 <= i < s.len() implies is_space(#[trigger] s[i]) by {
                if i < s.len() - 1 {
                    assert(s.drop_last()[i] == s[i]);
                }
            }
        }
    } else {
        assert(s =~= s.take(s.len() as int));
        if s.len() > 0 {
            assert(!is_space(s[s.len() - 1]));
        }
    }
}

pub fn trim(s: &str) -> (r: String)
    ensures
        r@ == trimmed(s@),
{
    let cs = chars(s);
    let mut a: usize = 0;
    assert(cs@.skip(0) =~= cs@);
    while a < cs.len() && space(cs[a])
        invariant
            a <= cs@.len(),
            trim_start(cs@.skip(a as int)) == trim_start(cs@),
        decreases cs@.len() - a,
    {
        assert(cs@.skip(a as int).skip(1) =~= cs@.skip(a + 1));
        a = a + 1;
    }
    let mut b: usize = cs.len();
    assert(cs@.subrange(a as int, b as int) =~= cs@.skip(a as int));
    while b > a && space(cs[b - 1])
        invariant
            a <= b <= cs@.len(),
            trim_end(cs@.subrange(a as int, b as int)) == trim_end(trim_start(cs@)),
        decreases b,
    {
        assert(cs@.subrange(a as int, b as int).drop_last() =~= cs@.subrange(a as int, b - 1));
        b = b - 1;
    }
    slice(&cs, a, b)
}

/// Whether a text trims to nothing.
pub fn is_blank(s: &str) -> (r: bool)
    ensures
        r == blank(s@),
{
    let cs = chars(s);
    let mut i: usize = 0;
    while i < cs.len()
        invariant
            cs@ == s@,
            i <= cs@.len(),
            forall|j: int| 0 <= j < i ==> is_space(#[trigger] cs@[j]),
        decreases cs@.len() - i,
    {
        if !space(cs[i]) {
            return false;
        }
        i = i + 1;
    }
    true
}

/// A text without the `c`s at both its ends.
pub open spec fn stripped(s: Seq<char>, c: char) -> Seq<char>
    decreases s.len(),
{
    if s.len() > 0 && s[0] == c {
        stripped(s.skip(1), c)
    } else if s.len() > 0 && s.last() == c {
        stripped(s.drop_last(), c)
    } else {
        s
    }
}

pub fn strip(s: &str, c: char) -> (r: String)
    ensures
        r@ == stripped(s@, c),
{
    let cs = chars(s);
    let mut a: usize = 0;
    let mut b: usize = cs.len();
    assert(cs@.subrange(0, b as int) =~= cs@);
    while a < b && (cs[a] == c || cs[b - 1] == c)
        invariant
            a <= b <= cs@.len(),
            stripped(cs@.subrange(a as int, b as int), c) == stripped(cs@, c),
        decreases b - a,
    {
        let ghost t = cs@.subrange(a as int, b as int);
        if cs[a] == c {
            assert(t.skip(1) =~= cs@.subrange(a + 1, b as int));
            a = a + 1;
        } else {
            assert(t.drop_last() =~= cs@.subrange(a as int, b - 1));
            b = b - 1;
        }
    }
    slice(&cs, a, b)
}

/// How many characters stand before the first `c`.
pub open spec fn until(s: Seq<char>, c: char) -> nat
    decreases s.len(),
{
    if s.len() == 0 || s[0] == c {
        0
    } else {
        1 + until(s.skip(1), c)
    }
}

pub proof fn lemma_until(s: Seq<char>, c: char)
    ensures
        until(s, c) <= s.len(),
        until(s, c) < s.len() ==> s[until(s, c) as int] == c,
        forall|j: int| 0 <= j < until(s, c) ==> s[j] != c,
    decreases s.len(),
{
    if s.len() == 0 || s[0] == c {
    } else {
        lemma_until(s.skip(1), c);
        assert forall|j: int| 0 <= j < until(s, c) implies s[j] != c by {
            if j > 0 {
                assert(s.skip(1)[j - 1] == s[j]);
            }
        }
    }
}

pub proof fn lemma_until_is(s: Seq<char>, c: char, n: int)
    requires
        0 <= n <= s.len(),
        n < s.len() ==> s[n] == c,
        forall|j: int| 0 <= j < n ==> s[j] != c,
    ensures
        until(s, c) == n,
{
    lemma_until(s, c);
    let u = until(s, c) as int;
    if u < n {
        assert(s[u] != c);
    } else if n < u {
        assert(s[n] != c);
    }
}

/// The index of the first `c` at or after `from`, or the length.
pub fn find_char(cs: &Vec<char>, from: usize, c: char) -> (r: usize)
    requires
        from <= cs@.len(),
    ensures
        from <= r <= cs@.len(),
        r - from == until(cs@.skip(from as int), c),
        r < cs@.len() ==> cs@[r as int] == c,
        forall|j: int| from <= j < r ==> cs@[j] != c,
{
    let mut i: usize = from;
    while i < cs.len() && cs[i] != c
        invariant
            from <= i <= cs@.len(),
            forall|j: int| from <= j < i ==> cs@[j] != c,
        decreases cs@.len() - i,
    {
        i = i + 1;
    }
    proof {
        lemma_until_is(cs@.skip(from as int), c, i - from);
    }
    i
}

/// The pieces of a text between the separators.
pub open spec fn pieces(s: Seq<char>, sep: char) -> Seq<Seq<char>>
    decreases s.len(),
    via pieces_decreases
{
    let n = until(s, sep) as int;
    if n >= s.len() {
        seq![s]
    } else {
        seq![s.take(n)] + pieces(s.skip(n + 1), sep)
    }
}

#[via_fn]
proof fn pieces_decreases(s: Seq<char>, sep: char) {
    lemma_until(s, sep);
}

pub fn split_on(s: &str, sep: char) -> (r: Vec<String>)
    ensures
        texts(r@) == pieces(s@, sep),
        r@.len() > 0,
{
    broadcast use lemma_texts_push;

    let cs = chars(s);
    let mut out: Vec<String> = Vec::new();
    let mut i: usize = 0;
    assert(cs@.skip(0) =~= cs@);
    assert(texts(out@) =~= Seq::<Seq<char>>::empty());
    loop
        invariant
            cs@ == s@,
            i <= cs@.len(),
            texts(out@) + pieces(cs@.skip(i as int), sep) == pieces(s@, sep),
        decreases cs@.len() - i,
    {
        let e = find_char(&cs, i, sep);
        let piece = slice(&cs, i, e);
        proof {
            let rest = cs@.skip(i as int);
            let n = until(rest, sep) as int;
            assert(piece@ =~= rest.take(n));
            if e >= cs@.len() {
                assert(rest.take(n) =~= rest);
                assert(texts(out@).push(piece@) =~= texts(out@) + seq![piece@]);
            } else {
                assert(rest.skip(n + 1) =~= cs@.skip(e + 1));
                assert(texts(out@) + pieces(rest, sep) =~= texts(out@).push(piece@) + pieces(
                    cs@.skip(e + 1),
                    sep,
                ));
            }
        }
        out.push(piece);
        if e >= cs.len() {
            return out;
        }
        i = e + 1;
    }
}

pub open spec fn without_return(s: Seq<char>) -> Seq<char> {
    if s.len() > 0 && s.last() == '\r' {
        s.drop_last()
    } else {
        s
    }
}

/// The lines of a text. A line ends at a line feed, or at the end of the text
/// where something stands after the last line feed; a carriage return before
/// the line feed belongs to the line's end.
pub open spec fn lines(s: Seq<char>) -> Seq<Seq<char>>
    decreases s.len(),
    via lines_decreases
{
    let n = until(s, '\n') as int;
    if s.len() == 0 {
        seq![]
    } else if n >= s.len() {
        seq![s]
    } else {
        seq![without_return(s.take(n))] + lines(s.skip(n + 1))
    }
}

#[via_fn]
proof fn lines_decreases(s: Seq<char>) {
    lemma_until(s, '\n');
}

pub fn split_lines(s: &str) -> (r: Vec<String>)
    ensures
        texts(r@) == lines(s@),
{
    broadcast use lemma_texts_push;

    let cs = chars(s);
    let mut out: Vec<String> = Vec::new();
    let mut i: usize = 0;
    assert(cs@.skip(0) =~= cs@);
    assert(texts(out@) =~= Seq::<Seq<char>>::empty());
    while i < cs.len()
        invariant
            cs@ == s@,
            i <= cs@.len(),
            texts(out@) + lines(cs@.skip(i as int)) == lines(s@),
        decreases cs@.len() - i,
    {
        let e = find_char(&cs, i, '\n');
        let ghost rest = cs@.skip(i as int);
        let ghost n = until(rest, '\n') as int;
        assert(rest.take(n) =~= cs@.subrange(i as int, e as int));
        if e >= cs.len() {
            let piece = slice(&cs, i, e);
            assert(rest.take(n) =~= rest);
            assert(texts(out@) + lines(rest) =~= texts(out@).push(piece@));
            out.push(piece);
            return out;
        }
        let stop: usize = if e > i && cs[e - 1] == '\r' {
            e - 1
        } else {
            e
        };
        let piece = slice(&cs, i, stop);
        proof {
            assert(piece@ =~= without_return(rest.take(n)));
            assert(rest.skip(n + 1) =~= cs@.skip(e + 1));
            assert(texts(out@) + lines(rest) =~= texts(out@).push(piece@) + lines(cs@.skip(e + 1)));
        }
        out.push(piece);
        i = e + 1;
    }
    assert(cs@.skip(i as int) =~= Seq::<char>::empty());
    assert(texts(out@) + lines(cs@.skip(i as int)) =~= texts(out@));
    out
}

/// How many characters stand before the first white space.
pub open spec fn word_len(s: Seq<char>) -> nat
    decreases s.len(),
{
    if s.len() == 0 || is_space(s[0]) {
        0
    } else {
        1 + word_len(s.skip(1))
    }
}

pub proof fn lemma_word_len(s: Seq<char>)
    ensures
        word_len(s) <= s.len(),
        word_len(s) < s.len() ==> is_space(s[word_len(s) as int]),
        forall|j: int| 0 <= j < word_len(s) ==> !is_space(#[trigger] s[j]),
    decreases s.len(),
{
    if s.len() == 0 || is_space(s[0]) {
    } else {
        lemma_word_len(s.skip(1));
        assert forall|j: int| 0 <= j < word_len(s) implies !is_space(#[trigger] s[j]) by {
            if j > 0 {
                assert(s.skip(1)[j - 1] == s[j]);
            }
        }
    }
}

pub proof fn lemma_word_len_is(s: Seq<char>, n: int)
    requires
        0 <= n <= s.len(),
        n < s.len() ==> is_space(s[n]),
        forall|j: int| 0 <= j < n ==> !is_space(#[trigger] s[j]),
    ensures
        word_len(s) == n,
{
    lemma_word_len(s);
    let u = word_len(s) as int;
    if u < n {
        assert(!is_space(s[u]));
    } else if n < u {
        assert(!is_space(s[n]));
    }
}

/// The words of a text: its longest runs without white space.
pub open spec fn words(s: Seq<char>) -> Seq<Seq<char>>
    decreases s.len(),
    via words_decreases
{
    if s.len() == 0 {
        seq![]
    } else if is_space(s[0]) {
        words(s.skip(1))
    } else {
        seq![s.take(word_len(s) as int)] + words(s.skip(word_len(s) as int))
    }
}

#[via_fn]
proof fn words_decreases(s: Seq<char>) {
    lemma_word_len(s);
}

pub fn split_words(s: &str) -> (r: Vec<String>)
    ensures
        texts(r@) == words(s@),
{
    broadcast use lemma_texts_push;

    let cs = chars(s);
    let mut out: Vec<String> = Vec::new();
    let mut i: usize = 0;
    assert(cs@.skip(0) =~= cs@);
    assert(texts(out@) =~= Seq::<Seq<char>>::empty());
    while i < cs.len()
        invariant
            cs@ == s@,
            i <= cs@.len(),
            texts(out@) + words(cs@.skip(i as int)) == words(s@),
        decreases cs@.len() - i,
    {
        let ghost rest = cs@.skip(i as int);
        if space(cs[i]) {
            assert(rest.skip(1) =~= cs@.skip(i + 1));
            i = i + 1;
        } else {
            let mut e: usize = i;
            while e < cs.len() && !space(cs[e])
                invariant
                    i <= e <= cs@.len(),
                    forall|j: int| i <= j < e ==> !is_space(#[trigger] cs@[j]),
                decreases cs@.len() - e,
            {
                e = e + 1;
            }
            let piece = slice(&cs, i, e);
            proof {
                assert forall|j: int| 0 <= j < e - i implies !is_space(#[trigger] rest[j]) by {
                    assert(rest[j] == cs@[i + j]);
                }
                lemma_word_len_is(rest, e - i);
                assert(piece@ =~= rest.take(e - i));
                assert(rest.skip(e - i) =~= cs@.skip(e as int));
                assert(texts(out@) + words(rest) =~= texts(out@).push(piece@) + words(
                    cs@.skip(e as int),
                ));
            }
            out.push(piece);
            i = e;
        }
    }
    assert(cs@.skip(i as int) =~= Seq::<char>::empty());
    assert(texts(out@) + words(cs@.skip(i as int)) =~= texts(out@));
    out
}

/// The parts one after the other, with `sep` between each two.
pub open spec fn joined(parts: Seq<Seq<char>>, sep: Seq<char>) -> Seq<char>
    decreases parts.len(),
{
    if parts.len() == 0 {
        seq![]
    } else if parts.len() == 1 {
        parts[0]
    } else {
        joined(parts.drop_last(), sep) + sep + parts.last()
    }
}

pub fn join(parts: &Vec<String>, sep: &str) -> (r: String)
    ensures
        r@ == joined(texts(parts@), sep@),
{
    let mut out = String::new();
    let mut i: usize = 0;
    assert(texts(parts@).take(0) =~= Seq::<Seq<char>>::empty());
    while i < parts.len()
        invariant
            i <= parts@.len(),
            out@ == joined(texts(parts@).take(i as int), sep@),
        decreases parts@.len() - i,
    {
        let ghost upto = texts(parts@).take(i + 1);
        proof {
            assert(upto.drop_last() =~= texts(parts@).take(i as int));
            assert(upto.last() == parts@[i as int]@);
        }
        if i > 0 {
            out.append(sep);
        }
        out.append(parts[i].as_str());
        proof {
            if i == 0 {
                assert(out@ =~= parts@[0]@);
            }
        }
        i = i + 1;
    }
    assert(texts(parts@).take(i as int) =~= texts(parts@));
    out
}

/// Whether a text is among some texts.
pub fn among(v: &Vec<String>, s: &str) -> (r: bool)
    ensures
        r == texts(v@).contains(s@),
{
    let mut i: usize = 0;
    while i < v.len()
        invariant
            i <= v@.len(),
            forall|j: int| 0 <= j < i ==> texts(v@)[j] != s@,
        decreases v@.len() - i,
    {
        if same(v[i].as_str(), s) {
            assert(texts(v@)[i as int] == s@);
            return true;
        }
        i = i + 1;
    }
    false
}

// ---------------------------------------------------------------------------
// What reading and splitting give back
// ---------------------------------------------------------------------------

/// A number reads back as itself, with or without its plus sign.
pub proof fn law_numbers_read_back(n: u64)
    ensures
        read_u64(digits(n as nat)) == Some(n),
        read_u64(seq!['+'] + digits(n as nat)) == Some(n),
        read_u64(seq![]) is None,
{
    law_digits_read_back(n as nat);
    let d = digits(n as nat);
    assert(is_digit(d[0]));
    assert((seq!['+'] + d).skip(1) =~= d);
}

/// A signed number reads back as itself.
pub proof fn law_signed_numbers_read_back(n: i64)
    ensures
        read_i64(signed_digits(n as int)) == Some(n),
{
    let m = if n < 0 {
        (-(n as int)) as nat
    } else {
        n as nat
    };
    law_digits_read_back(m);
    let d = digits(m);
    assert(is_digit(d[0]));
    assert((seq!['-'] + d).skip(1) =~= d);
}

/// Only digits are read as a number, but for one plus sign in front.
pub proof fn law_only_digits_are_numbers(s: Seq<char>)
    ensures
        read_u64(s) is Some ==> s.len() > 0 && forall|i: int|
            0 <= i < s.len() ==> '0' <= #[trigger] s[i] <= '9' || (i == 0 && s.len() > 1 && s[i]
                == '+'),
{
    if read_u64(s) is Some {
        assert forall|i: int| 0 <= i < s.len() implies '0' <= #[trigger] s[i] <= '9' || (i == 0
            && s.len() > 1 && s[i] == '+') by {
            if s[0] == '+' {
                if i > 0 {
                    assert(s.skip(1)[i - 1] == s[i]);
                    assert(is_digit(s.skip(1)[i - 1]));
                } else {
                    assert(s.skip(1).len() > 0);
                }
            } else {
                assert(is_digit(s[i]));
            }
        }
    }
}

proof fn lemma_trim_start(s: Seq<char>) -> (n: int)
    ensures
        0 <= n <= s.len(),
        trim_start(s) == s.skip(n),
        blank(s.take(n)),
        n < s.len() ==> !is_space(s[n]),
    decreases s.len(),
{
    if s.len() > 0 && is_space(s[0]) {
        let k = lemma_trim_start(s.skip(1));
        assert(s.skip(1).skip(k) =~= s.skip(k + 1));
        assert forall|i: int| 0 <= i < k + 1 implies is_space(#[trigger] s.take(k + 1)[i]) by {
            if i > 0 {
                assert(s.skip(1).take(k)[i - 1] == s[i]);
            }
        }
        if k + 1 < s.len() {
            assert(s.skip(1)[k] == s[k + 1]);
        }
        k + 1
    } else {
        assert(s.skip(0) =~= s);
        0
    }
}

proof fn lemma_trim_end(s: Seq<char>) -> (n: int)
    ensures
        0 <= n <= s.len(),
        trim_end(s) == s.take(n),
        blank(s.skip(n)),
        n > 0 ==> !is_space(s[n - 1]),
    decreases s.len(),
{
    if s.len() > 0 && is_space(s.last()) {
        let k = lemma_trim_end(s.drop_last());
        assert(s.drop_last().take(k) =~= s.take(k));
        assert forall|i: int| 0 <= i < s.len() - k implies is_space(#[trigger] s.skip(k)[i]) by {
            if i < s.len() - k - 1 {
                assert(s.drop_last().skip(k)[i] == s[k + i]);
            }
        }
        k
    } else {
        assert(s.take(s.len() as int) =~= s);
        s.len() as int
    }
}

/// Trimming takes the white space off both ends and nothing else.
pub proof fn law_trimming_takes_only_space(s: Seq<char>)
    ensures
        trimmed(s).len() > 0 ==> !is_space(trimmed(s)[0]) && !is_space(trimmed(s).last()),
        exists|a: int, b: int|
            0 <= a <= b <= s.len() && trimmed(s) == #[trigger] s.subrange(a, b) && blank(s.take(a))
                && blank(s.skip(b)),
{
    let a = lemma_trim_start(s);
    let t = trim_start(s);
    let n = lemma_trim_end(t);
    let b = a + n;
    assert(s.skip(a).take(n) =~= s.subrange(a, b));
    assert(s.skip(a).skip(n) =~= s.skip(b));
    if n > 0 {
        assert(trimmed(s)[0] == s[a]);
        assert(trimmed(s).last() == t[n - 1]);
    }
}

proof fn lemma_joined_front(x: Seq<char>, rest: Seq<Seq<char>>, sep: Seq<char>)
    requires
        rest.len() > 0,
    ensures
        joined(seq![x] + rest, sep) == x + sep + joined(rest, sep),
    decreases rest.len(),
{
    let v = seq![x] + rest;
    if rest.len() > 1 {
        lemma_joined_front(x, rest.drop_last(), sep);
        assert(v.drop_last() =~= seq![x] + rest.drop_last());
        assert(v.last() == rest.last());
        assert(joined(v, sep) =~= x + sep + joined(rest, sep));
    } else {
        assert(v.drop_last() =~= seq![x]);
        assert(joined(v.drop_last(), sep) == x);
        assert(joined(v, sep) =~= x + sep + joined(rest, sep));
    }
}

/// The pieces of a text, with what they were split at between them, are the text; and none of
/// them holds it.
pub proof fn law_pieces_join_back(s: Seq<char>, sep: char)
    ensures
        pieces(s, sep).len() > 0,
        joined(pieces(s, sep), seq![sep]) == s,
        forall|k: int|
            0 <= k < pieces(s, sep).len() ==> !(#[trigger] pieces(s, sep)[k]).contains(sep),
    decreases s.len(),
{
    lemma_until(s, sep);
    let n = until(s, sep) as int;
    let p = pieces(s, sep);
    if n >= s.len() {
        assert(p =~= seq![s]);
        if s.contains(sep) {
            let j = s.index_of(sep);
            assert(s[j] == sep);
        }
    } else {
        let rest = s.skip(n + 1);
        law_pieces_join_back(rest, sep);
        lemma_joined_front(s.take(n), pieces(rest, sep), seq![sep]);
        assert(s =~= s.take(n) + seq![sep] + rest);
        assert forall|k: int| 0 <= k < p.len() implies !(#[trigger] p[k]).contains(sep) by {
            if k == 0 {
                if s.take(n).contains(sep) {
                    let j = s.take(n).index_of(sep);
                    assert(s[j] == sep);
                }
            } else {
                assert(p[k] == pieces(rest, sep)[k - 1]);
            }
        }
    }
}

/// A text is its first line and the lines of the rest; a carriage return before the line's end
/// is no part of it, and a last line needs no end.
pub proof fn law_lines_are_read_in_turn(line: Seq<char>, rest: Seq<char>)
    requires
        !line.contains('\n'),
    ensures
        lines(seq![]) == Seq::<Seq<char>>::empty(),
        line.len() > 0 ==> lines(line) == seq![line],
        (line.len() == 0 || line.last() != '\r') ==> lines(line + seq!['\n'] + rest) == seq![line]
            + lines(rest),
        lines(line + seq!['\r'] + seq!['\n'] + rest) == seq![line] + lines(rest),
{
    let n = line.len() as int;
    assert forall|j: int| 0 <= j < line.len() implies line[j] != '\n' by {
        assert(line.contains(line[j]));
    }
    lemma_until_is(line, '\n', n);
    let s = line + seq!['\n'] + rest;
    lemma_until_is(s, '\n', n);
    assert(s.take(n) =~= line);
    assert(s.skip(n + 1) =~= rest);
    let t = line + seq!['\r'] + seq!['\n'] + rest;
    lemma_until_is(t, '\n', n + 1);
    assert(t.take(n + 1) =~= line.push('\r'));
    assert(line.push('\r').drop_last() =~= line);
    assert(t.skip(n + 2) =~= rest);
}

/// White space before a word is passed over, and a word ends where white space or the text's end
/// follows.
pub proof fn law_words_are_read_in_turn(word: Seq<char>, c: char, rest: Seq<char>)
    requires
        word.len() > 0,
        forall|i: int| 0 <= i < word.len() ==> !is_space(#[trigger] word[i]),
        is_space(c),
    ensures
        words(seq![c] + rest) == words(rest),
        words(word) == seq![word],
        words(word + seq![c] + rest) == seq![word] + words(rest),
{
    reveal_with_fuel(words, 3);
    assert((seq![c] + rest).skip(1) =~= rest);
    let n = word.len() as int;
    lemma_word_len_is(word, n);
    assert(word.take(n) =~= word);
    assert(word.skip(n) =~= seq![]);
    let s = word + seq![c] + rest;
    assert(s[0] == word[0]);
    assert forall|i: int| 0 <= i < n implies !is_space(#[trigger] s[i]) by {
        assert(s[i] == word[i]);
    }
    assert(s[n] == c);
    lemma_word_len_is(s, n);
    assert(s.take(n) =~= word);
    assert(s.skip(n) =~= seq![c] + rest);
    assert(words(s) =~= seq![word] + words(seq![c] + rest));
}

/// The space and what moves the carriage are white space, and no other character of ASCII is.
pub proof fn law_what_white_space_is(c: char)
    requires
        (c as u32) < 0x80,
    ensures
        is_space(c) <==> c == ' ' || c == '\t' || c == '\n' || c == '\r' || c as u32 == 0x0b
            || c as u32 == 0x0c,
{
}

spec fn all_are(s: Seq<char>, c: char) -> bool {
    forall|i: int| 0 <= i < s.len() ==> #[trigger] s[i] == c
}

proof fn lemma_stripped(s: Seq<char>, c: char) -> (r: (int, int))
    ensures
        0 <= r.0 <= r.1 <= s.len(),
        stripped(s, c) == s.subrange(r.0, r.1),
        all_are(s.take(r.0), c),
        all_are(s.skip(r.1), c),
        stripped(s, c).len() > 0 ==> stripped(s, c)[0] != c && stripped(s, c).last() != c,
    decreases s.len(),
{
    if s.len() > 0 && s[0] == c {
        let t = s.skip(1);
        let (a, b) = lemma_stripped(t, c);
        assert(t.subrange(a, b) =~= s.subrange(a + 1, b + 1));
        assert(s.take(a + 1) =~= seq![c] + t.take(a));
        assert(s.skip(b + 1) =~= t.skip(b));
        (a + 1, b + 1)
    } else if s.len() > 0 && s.last() == c {
        let t = s.drop_last();
        let (a, b) = lemma_stripped(t, c);
        assert(t.subrange(a, b) =~= s.subrange(a, b));
        assert(s.take(a) =~= t.take(a));
        assert(s.skip(b) =~= t.skip(b).push(c));
        (a, b)
    } else {
        assert(s.subrange(0, s.len() as int) =~= s);
        (0, s.len() as int)
    }
}

/// Stripping takes the character off both ends, and nothing else.
pub proof fn law_stripping_takes_only_that(s: Seq<char>, c: char)
    ensures
        stripped(s, c).len() > 0 ==> stripped(s, c)[0] != c && stripped(s, c).last() != c,
        exists|a: int, b: int|
            0 <= a <= b <= s.len() && stripped(s, c) == #[trigger] s.subrange(a, b) && (forall|
                i: int,
            |
                0 <= i < a ==> s[i] == c) && forall|i: int| b <= i < s.len() ==> s[i] == c,
{
    let (a, b) = lemma_stripped(s, c);
    assert forall|i: int| 0 <= i < a implies s[i] == c by {
        assert(s.take(a)[i] == c);
    }
    assert forall|i: int| b <= i < s.len() implies s[i] == c by {
        assert(s.skip(b)[i - b] == c);
    }
    assert(stripped(s, c) == s.subrange(a, b));
}

} // verus!
