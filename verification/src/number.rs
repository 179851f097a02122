//! Measured numbers.
//!
//! A reading is an IEEE 754 double. What the rules of this crate ask of one is
//! whether it is finite, how it compares with a bound, and how it is printed. So
//! it is carried as its bit pattern, on which every comparison is an integer
//! comparison, beside the texts that it prints as.

use vstd::arithmetic::div_mod::{
    lemma_basic_div, lemma_div_multiples_vanish, lemma_div_multiples_vanish_quotient,
};
use vstd::arithmetic::power2::{
    lemma2_to64, lemma2_to64_rest, lemma_pow2_adds, lemma_pow2_pos, lemma_pow2_strictly_increases,
    lemma_pow2_unfold, pow2,
};
use vstd::bits::{lemma_u64_shl_is_mul, lemma_u64_shr_is_div};
use vstd::prelude::*;

verus! {

/// `2^63`: at or above it the sign bit is set.
pub const SIGN: u64 = 0x8000_0000_0000_0000;

/// The bit pattern of positive infinity; what lies above it is not a number.
pub const INFINITY: u64 = 0x7ff0_0000_0000_0000;

/// `2^52`: how many doubles share one exponent.
pub const FRACTION: u64 = 0x10_0000_0000_0000;

/// The bit pattern without its sign.
pub open spec fn magnitude(bits: u64) -> u64 {
    if bits >= SIGN {
        (bits - SIGN) as u64
    } else {
        bits
    }
}

pub open spec fn finite(bits: u64) -> bool {
    magnitude(bits) < INFINITY
}

pub open spec fn not_a_number(bits: u64) -> bool {
    magnitude(bits) > INFINITY
}

/// Where a double stands among the doubles: both zeros at 0, each next larger
/// double one further.
pub open spec fn rank(bits: u64) -> int {
    if bits >= SIGN {
        -(magnitude(bits) as int)
    } else {
        magnitude(bits) as int
    }
}

/// Whether `a < b` as numbers. Nothing is less than, or greater than, what is
/// not a number.
pub open spec fn less(a: u64, b: u64) -> bool {
    !not_a_number(a) && !not_a_number(b) && rank(a) < rank(b)
}

/// Whether `a <= b` as numbers.
pub open spec fn at_most(a: u64, b: u64) -> bool {
    !not_a_number(a) && !not_a_number(b) && rank(a) <= rank(b)
}

/// A finite double times `2^1074`, which is an integer.
pub open spec fn scaled(bits: u64) -> int {
    if bits >= SIGN {
        -scaled_magnitude(magnitude(bits))
    } else {
        scaled_magnitude(magnitude(bits))
    }
}

pub open spec fn scaled_magnitude(m: u64) -> int {
    let exponent = m / FRACTION;
    let fraction = m % FRACTION;
    if exponent == 0 {
        fraction as int
    } else {
        (FRACTION + fraction) * pow2((exponent - 1) as nat)
    }
}

proof fn lemma_scaled_magnitude_increases(a: u64, b: u64)
    requires
        a < b < INFINITY,
    ensures
        0 <= scaled_magnitude(a) < scaled_magnitude(b),
{
    let (ea, fa) = (a / FRACTION, a % FRACTION);
    let (eb, fb) = (b / FRACTION, b % FRACTION);
    assert(ea <= eb);
    if eb == 0 {
    } else if ea == 0 {
        lemma_pow2_pos((eb - 1) as nat);
        assert((FRACTION + fb) * pow2((eb - 1) as nat) >= FRACTION + fb) by (nonlinear_arith)
            requires
                pow2((eb - 1) as nat) >= 1,
                FRACTION + fb >= 0,
        ;
    } else {
        lemma_pow2_pos((ea - 1) as nat);
        let pa = pow2((ea - 1) as nat) as int;
        let pb = pow2((eb - 1) as nat) as int;
        assert(0 <= (FRACTION + fa) * pa) by (nonlinear_arith)
            requires
                pa >= 1,
                FRACTION + fa >= 0,
        ;
        if ea == eb {
            assert(fa < fb);
            assert((FRACTION + fa) * pa < (FRACTION + fb) * pa) by (nonlinear_arith)
                requires
                    pa >= 1,
                    fa < fb,
            ;
        } else {
            lemma_pow2_unfold(ea as nat);
            if ea < eb - 1 {
                lemma_pow2_strictly_increases(ea as nat, (eb - 1) as nat);
            }
            assert(2 * pa <= pb);
            assert((FRACTION + fa) * pa < 2 * FRACTION * pa) by (nonlinear_arith)
                requires
                    pa >= 1,
                    fa < FRACTION,
            ;
            assert(2 * FRACTION * pa <= (FRACTION + fb) * pb) by (nonlinear_arith)
                requires
                    2 * pa <= pb,
                    pa >= 1,
                    fb >= 0,
                    FRACTION >= 0,
            ;
        }
    }
}

/// Comparing two finite doubles by their bit patterns is comparing the numbers
/// that they stand for.
pub proof fn law_order_is_numeric(a: u64, b: u64)
    requires
        finite(a),
        finite(b),
    ensures
        less(a, b) == (scaled(a) < scaled(b)),
        at_most(a, b) == (scaled(a) <= scaled(b)),
{
    let (x, y) = (magnitude(a), magnitude(b));
    assert(scaled_magnitude(0) == 0);
    if x > 0 {
        lemma_scaled_magnitude_increases(0, x);
    }
    if y > 0 {
        lemma_scaled_magnitude_increases(0, y);
    }
    if x < y {
        lemma_scaled_magnitude_increases(x, y);
    }
    if y < x {
        lemma_scaled_magnitude_increases(y, x);
    }
}

pub fn magnitude_of(bits: u64) -> (r: u64)
    ensures
        r == magnitude(bits),
{
    if bits >= SIGN {
        bits - SIGN
    } else {
        bits
    }
}

pub fn is_finite(bits: u64) -> (r: bool)
    ensures
        r == finite(bits),
{
    magnitude_of(bits) < INFINITY
}

/// Whether `a <= b` as numbers.
pub fn le(a: u64, b: u64) -> (r: bool)
    ensures
        r == at_most(a, b),
{
    let (x, y) = (magnitude_of(a), magnitude_of(b));
    if x > INFINITY || y > INFINITY {
        return false;
    }
    if a >= SIGN {
        if b >= SIGN {
            y <= x
        } else {
            true
        }
    } else if b >= SIGN {
        x == 0 && y == 0
    } else {
        x <= y
    }
}

/// Whether `a < b` as numbers.
pub fn lt(a: u64, b: u64) -> (r: bool)
    ensures
        r == less(a, b),
{
    le(a, b) && !le(b, a)
}

/// A double cut to an unsigned integer: its whole part, 0 where it is negative or not
/// a number, the largest integer where it is past it.
pub open spec fn truncated(bits: u64) -> u64 {
    if bits >= SIGN || not_a_number(bits) {
        0
    } else if bits == INFINITY || scaled(bits) / (pow2(1074) as int) > u64::MAX {
        u64::MAX
    } else {
        (scaled(bits) / (pow2(1074) as int)) as u64
    }
}

pub fn truncate(bits: u64) -> (r: u64)
    ensures
        r == truncated(bits),
{
    if bits > INFINITY {
        return 0;
    }
    if bits == INFINITY {
        return u64::MAX;
    }
    let exponent: u64 = bits / FRACTION;
    let mantissa: u64 = FRACTION + bits % FRACTION;
    let ghost m = mantissa as int;
    if exponent < 1023 {
        proof {
            lemma_pow2_pos(1074);
            lemma_pow2_pos(1021);
            lemma_pow2_adds(53, 1021);
            lemma2_to64();
            lemma2_to64_rest();
            assert(pow2(53) == 2 * FRACTION);
            if exponent > 0 {
                lemma_pow2_pos((exponent - 1) as nat);
                if exponent < 1022 {
                    lemma_pow2_strictly_increases((exponent - 1) as nat, 1021);
                }
                let p = pow2((exponent - 1) as nat) as int;
                let q = pow2(1021) as int;
                assert(0 <= m * p < 2 * FRACTION * q) by (nonlinear_arith)
                    requires
                        0 <= m < 2 * FRACTION,
                        0 < p <= q,
                ;
            } else {
                assert(pow2(1074) >= FRACTION) by (nonlinear_arith)
                    requires
                        pow2(1074) == pow2(53) * pow2(1021),
                        pow2(53) == 2 * FRACTION,
                        pow2(1021) >= 1,
                ;
            }
            lemma_basic_div(scaled(bits), pow2(1074) as int);
        }
        return 0;
    }
    let shift: u64 = exponent - 1023;
    if shift <= 52 {
        let k: u64 = 52 - shift;
        proof {
            let p = pow2((exponent - 1) as nat) as int;
            let q = pow2(k as nat) as int;
            lemma_pow2_adds((exponent - 1) as nat, k as nat);
            lemma_pow2_pos((exponent - 1) as nat);
            lemma_pow2_pos(k as nat);
            lemma_div_multiples_vanish_quotient(p, m, q);
            assert(m * p == p * m) by (nonlinear_arith);
            lemma_u64_shr_is_div(mantissa, k);
            assert(m / q <= m) by (nonlinear_arith)
                requires
                    m >= 0,
                    q >= 1,
            ;
        }
        mantissa >> k
    } else {
        let k: u64 = shift - 52;
        proof {
            let p = pow2(1074) as int;
            let q = pow2(k as nat) as int;
            lemma_pow2_adds(1074, k as nat);
            lemma_pow2_pos(1074);
            assert(m * (p * q) == p * (m * q)) by (nonlinear_arith);
            assert(scaled(bits) == p * (m * q));
            assert(p * (m * q) == (m * q) * p) by (nonlinear_arith);
            lemma_div_multiples_vanish(m * q, p);
            assert((m * q) * p / p == m * q);
            lemma2_to64();
            lemma2_to64_rest();
            if k > 11 {
                if k > 12 {
                    lemma_pow2_strictly_increases(12, k as nat);
                }
                assert(m * q >= FRACTION * 4096) by (nonlinear_arith)
                    requires
                        m >= FRACTION,
                        q >= 4096,
                ;
            } else {
                if k < 11 {
                    lemma_pow2_strictly_increases(k as nat, 11);
                }
                assert(m * q <= (2 * FRACTION - 1) * 2048) by (nonlinear_arith)
                    requires
                        0 <= m <= 2 * FRACTION - 1,
                        0 <= q <= 2048,
                ;
                lemma_u64_shl_is_mul(mantissa, k);
            }
        }
        if k > 11 {
            u64::MAX
        } else {
            mantissa << k
        }
    }
}

/// A double, and the texts that it prints as.
#[derive(Debug)]
pub struct Number {
    /// The bit pattern.
    pub bits: u64,
    /// The shortest decimal that reads back as the same double.
    pub plain: String,
    /// Rounded to a whole number.
    pub whole: String,
    /// With one decimal.
    pub tenths: String,
    /// With three decimals.
    pub thousandths: String,
    /// With five decimals.
    pub long: String,
    /// In scientific notation, with four decimals.
    pub scientific: String,
}

pub struct NumberView {
    pub bits: u64,
    pub plain: Seq<char>,
    pub whole: Seq<char>,
    pub tenths: Seq<char>,
    pub thousandths: Seq<char>,
    pub long: Seq<char>,
    pub scientific: Seq<char>,
}

impl View for Number {
    type V = NumberView;

    open spec fn view(&self) -> NumberView {
        NumberView {
            bits: self.bits,
            plain: self.plain@,
            whole: self.whole@,
            tenths: self.tenths@,
            thousandths: self.thousandths@,
            long: self.long@,
            scientific: self.scientific@,
        }
    }
}

impl Clone for Number {
    fn clone(&self) -> (r: Self)
        ensures
            r@ == self@,
    {
        Number {
            bits: self.bits,
            plain: self.plain.clone(),
            whole: self.whole.clone(),
            tenths: self.tenths.clone(),
            thousandths: self.thousandths.clone(),
            long: self.long.clone(),
            scientific: self.scientific.clone(),
        }
    }
}

/// Zero.
pub open spec fn zero() -> NumberView {
    NumberView {
        bits: 0,
        plain: "0"@,
        whole: "0"@,
        tenths: "0.0"@,
        thousandths: "0.000"@,
        long: "0.00000"@,
        scientific: "0.0000e0"@,
    }
}

/// A number by its bit pattern and its six texts.
pub open spec fn number(
    bits: u64,
    plain: Seq<char>,
    whole: Seq<char>,
    tenths: Seq<char>,
    thousandths: Seq<char>,
    long: Seq<char>,
    scientific: Seq<char>,
) -> NumberView {
    NumberView { bits, plain, whole, tenths, thousandths, long, scientific }
}

impl Number {
    pub fn new(
        bits: u64,
        plain: &str,
        whole: &str,
        tenths: &str,
        thousandths: &str,
        long: &str,
        scientific: &str,
    ) -> (r: Number)
        ensures
            r@ == number(bits, plain@, whole@, tenths@, thousandths@, long@, scientific@),
    {
        Number {
            bits,
            plain: plain.to_owned(),
            whole: whole.to_owned(),
            tenths: tenths.to_owned(),
            thousandths: thousandths.to_owned(),
            long: long.to_owned(),
            scientific: scientific.to_owned(),
        }
    }

    pub fn zero() -> (r: Number)
        ensures
            r@ == zero(),
    {
        Number::new(0, "0", "0", "0.0", "0.000", "0.00000", "0.0000e0")
    }
}

/// A double is finite below the pattern of its infinity, whatever its sign, and no number above
/// it; what is no number is neither below nor above anything.
pub proof fn law_what_is_no_number(bits: u64, other: u64)
    ensures
        finite(bits) <==> bits % 0x8000_0000_0000_0000 < 0x7ff0_0000_0000_0000,
        not_a_number(bits) <==> bits % 0x8000_0000_0000_0000 > 0x7ff0_0000_0000_0000,
        not_a_number(bits) ==> !less(bits, other) && !less(other, bits) && !at_most(bits, other)
            && !at_most(other, bits),
        finite(bits) ==> less(bits, 0x7ff0_0000_0000_0000) && less(0xfff0_0000_0000_0000, bits),
{
}

/// Truncating gives the whole part of what is not negative, as far as it fits.
pub proof fn law_truncating_gives_the_whole_part(bits: u64)
    ensures
        bits >= 0x8000_0000_0000_0000 || not_a_number(bits) ==> truncated(bits) == 0,
        finite(bits) && bits < 0x8000_0000_0000_0000 && truncated(bits) < u64::MAX ==> truncated(
            bits,
        ) * pow2(1074) <= scaled(bits) < (truncated(bits) + 1) * pow2(1074),
        bits == 0x7ff0_0000_0000_0000 ==> truncated(bits) == u64::MAX,
{
    if finite(bits) && bits < SIGN && truncated(bits) < u64::MAX {
        vstd::arithmetic::power2::lemma_pow2_pos(1074);
        let d = pow2(1074) as int;
        let x = scaled(bits);
        let exponent = bits / FRACTION;
        if exponent > 0 {
            vstd::arithmetic::power2::lemma_pow2_pos((exponent - 1) as nat);
            let (f, q) = (FRACTION + bits % FRACTION, pow2((exponent - 1) as nat) as int);
            assert(f * q >= 0) by (nonlinear_arith)
                requires
                    f >= 0,
                    q >= 0,
            ;
        }
        assert(x >= 0);
        let k = x / d;
        assert(0 <= k && k * d <= x && x < (k + 1) * d) by (nonlinear_arith)
            requires
                d > 0,
                x >= 0,
                k == x / d,
        ;
    }
}

} // verus!
