//! The two generators that make every run reproducible from its seed.

use vstd::prelude::*;

verus! {

/// SplitMix64.
pub struct SplitMix64 {
    pub state: u64,
}

/// The state after one step.
pub open spec fn stepped(state: u64) -> u64 {
    state.wrapping_add(0x9E37_79B9_7F4A_7C15)
}

/// The output of a state.
pub open spec fn mixed(state: u64) -> u64 {
    let a = (state ^ (state >> 30)).wrapping_mul(0xBF58_476D_1CE4_E5B9);
    let b = (a ^ (a >> 27)).wrapping_mul(0x94D0_49BB_1331_11EB);
    b ^ (b >> 31)
}

impl SplitMix64 {
    /// The next output.
    pub fn next_u64(&mut self) -> (r: u64)
        ensures
            final(self).state == stepped(old(self).state),
            r == mixed(final(self).state),
    {
        self.state = self.state.wrapping_add(0x9E37_79B9_7F4A_7C15);
        let z: u64 = self.state;
        let a: u64 = (z ^ (z >> 30)).wrapping_mul(0xBF58_476D_1CE4_E5B9);
        let b: u64 = (a ^ (a >> 27)).wrapping_mul(0x94D0_49BB_1331_11EB);
        b ^ (b >> 31)
    }

    /// The next output, below a bound.
    pub fn below(&mut self, n: usize) -> (r: usize)
        requires
            n > 0,
        ensures
            final(self).state == stepped(old(self).state),
            r == mixed(final(self).state) % n as u64,
            r < n,
    {
        (self.next_u64() % n as u64) as usize
    }
}

/// Whether the two outputs after a state differ, modulo a number.
pub open spec fn differ(state: u64, m: int) -> bool {
    mixed(stepped(state)) as int % m != mixed(stepped(stepped(state))) as int % m
}

/// The state after some steps.
pub open spec fn later(state: u64, k: nat) -> u64 {
    ((state + k * 0x9E37_79B9_7F4A_7C15) % 0x1_0000_0000_0000_0000) as u64
}

proof fn lemma_later_steps(state: u64, k: nat)
    ensures
        later(state, 0) == state,
        later(stepped(state), k) == later(state, k + 1),
{
    let g = 0x9E37_79B9_7F4A_7C15int;
    let n = 0x1_0000_0000_0000_0000int;
    assert((k + 1) * g == k * g + g) by (nonlinear_arith);
    let x = state + g + k * g;
    assert(x % n == (x - n) % n) by (nonlinear_arith)
        requires
            n > 0,
    ;
}

/// The outputs at five states next to each other.
proof fn lemma_outputs()
    ensures
        mixed(0) == 0,
        mixed(0x61c8864680b583ebu64) == 0x336503c6b835bec0u64,
        mixed(0x9e3779b97f4a7c15u64) == 0xe220a8397b1dcdafu64,
        mixed(0x3c6ef372fe94f82au64) == 0x6e789e6aa1b965f4u64,
        mixed(0xdaa66d2c7ddf743fu64) == 0x6c45d188009454fu64,
{
    assert(
        (0x61c8864680b583ebu64 ^ (0x61c8864680b583ebu64 >> 30) == 0x61c8864707979af1u64)
            && (0xbf7bbab474cc8d29u64 ^ (0xbf7bbab474cc8d29u64 >> 27) == 0xbf7bbaa39bbbdba7u64)
            && (0x336503c6deffb94du64 ^ (0x336503c6deffb94du64 >> 31) == 0x336503c6b835bec0u64)
            && (0x9e3779b97f4a7c15u64 ^ (0x9e3779b97f4a7c15u64 >> 30) == 0x9e3779bb07979af0u64)
            && (0x6f68261b57e7a770u64 ^ (0x6f68261b57e7a770u64 >> 27) == 0x6f682616bae3641au64)
            && (0xe220a838bf5c9ddeu64 ^ (0xe220a838bf5c9ddeu64 >> 31) == 0xe220a8397b1dcdafu64)
            && (0x3c6ef372fe94f82au64 ^ (0x3c6ef372fe94f82au64 >> 30) == 0x3c6ef3720f2f35e1u64)
            && (0x2a94fcbfccb43499u64 ^ (0x2a94fcbfccb43499u64 >> 27) == 0x2a94fcba9e2ba360u64)
            && (0x6e789e6a7d485920u64 ^ (0x6e789e6a7d485920u64 >> 31) == 0x6e789e6aa1b965f4u64)
            && (0xdaa66d2c7ddf743fu64 ^ (0xdaa66d2c7ddf743fu64 >> 30) == 0xdaa66d2f1746c08eu64)
            && (0xf1c3dd6322d82c9eu64 ^ (0xf1c3dd6322d82c9eu64 >> 27) == 0xf1c3dd7d1aa380fau64)
            && (0x6c45d188d81ff7eu64 ^ (0x6c45d188d81ff7eu64 >> 31) == 0x6c45d188009454fu64)
            && (0u64 ^ (0u64 >> 30) == 0u64) && (0u64 ^ (0u64 >> 27) == 0u64) && (0u64 ^ (0u64 >> 31) == 0u64)
    ) by (bit_vector);
    assert(0x61c8864707979af1u64.wrapping_mul(0xBF58_476D_1CE4_E5B9) == 0xbf7bbab474cc8d29u64);
    assert(0xbf7bbaa39bbbdba7u64.wrapping_mul(0x94D0_49BB_1331_11EB) == 0x336503c6deffb94du64);
    assert(0x9e3779bb07979af0u64.wrapping_mul(0xBF58_476D_1CE4_E5B9) == 0x6f68261b57e7a770u64);
    assert(0x6f682616bae3641au64.wrapping_mul(0x94D0_49BB_1331_11EB) == 0xe220a838bf5c9ddeu64);
    assert(0x3c6ef3720f2f35e1u64.wrapping_mul(0xBF58_476D_1CE4_E5B9) == 0x2a94fcbfccb43499u64);
    assert(0x2a94fcba9e2ba360u64.wrapping_mul(0x94D0_49BB_1331_11EB) == 0x6e789e6a7d485920u64);
    assert(0xdaa66d2f1746c08eu64.wrapping_mul(0xBF58_476D_1CE4_E5B9) == 0xf1c3dd6322d82c9eu64);
    assert(0xf1c3dd7d1aa380fau64.wrapping_mul(0x94D0_49BB_1331_11EB) == 0x6c45d188d81ff7eu64);
}

/// Of two pairs of outputs whose distances have no common divisor, one differs modulo any
/// number above 1.
proof fn lemma_one_differs(a: int, b: int, c: int, d: int, u: int, v: int, m: int)
    requires
        m >= 2,
        u * (a - b) + v * (c - d) == 1,
    ensures
        a % m != b % m || c % m != d % m,
{
    if a % m == b % m && c % m == d % m {
        let p = a / m - b / m;
        let q = c / m - d / m;
        assert(a - b == m * p) by (nonlinear_arith)
            requires
                a % m == b % m,
                p == a / m - b / m,
                m >= 2,
        ;
        assert(c - d == m * q) by (nonlinear_arith)
            requires
                c % m == d % m,
                q == c / m - d / m,
                m >= 2,
        ;
        let w = u * p + v * q;
        assert(m * w == 1) by (nonlinear_arith)
            requires
                u * (m * p) + v * (m * q) == 1,
                w == u * p + v * q,
        ;
        assert(false) by (nonlinear_arith)
            requires
                m * w == 1,
                m >= 2,
        ;
    }
}

/// Two steps at a time reach every state of the same parity.
proof fn lemma_reaches(state: u64, w: u64) -> (k: nat)
    requires
        state % 2 == w % 2,
    ensures
        later(state, 2 * k) == w,
{
    let n = 0x1_0000_0000_0000_0000int;
    let g = 0x9E37_79B9_7F4A_7C15int;
    let inverse = 0xF1DE_83E1_9937_733Dint;
    let away = if w >= state {
        w - state
    } else {
        w - state + n
    };
    let half = away / 2;
    let k = (half * inverse) as nat;
    assert(half * inverse >= 0) by (nonlinear_arith)
        requires
            half >= 0,
            inverse == 0xF1DE_83E1_9937_733Dint,
    ;
    let c = 10771413168148108919int;
    assert(inverse * g == 1 + c * n);
    assert((2 * k) * g == away + (away * c) * n) by (nonlinear_arith)
        requires
            k == half * inverse,
            away == 2 * half,
            inverse * g == 1 + c * n,
    ;
    let x = state + away;
    assert((x + (away * c) * n) % n == x % n) by (nonlinear_arith)
        requires
            n > 0,
    ;
    assert(x % n == w);
    k
}

/// The generator never gets stuck on pairs that are alike: however often two outputs agree
/// modulo a number above 1, some later two do not.
pub proof fn law_some_pair_differs(state: u64, m: int)
    requires
        m >= 2,
    ensures
        exists|k: nat| differ(#[trigger] later(state, 2 * k), m),
{
    lemma_outputs();
    let a = 0xc3910c8d016b07d6u64;
    let b = 0x61c8864680b583ebu64;
    let c = 0x9e3779b97f4a7c15u64;
    assert(stepped(a) == b && stepped(b) == 0 && stepped(0) == c);
    assert(stepped(c) == 0x3c6ef372fe94f82au64 && stepped(0x3c6ef372fe94f82au64) == 0xdaa66d2c7ddf743fu64);
    if state % 2 == 0 {
        lemma_one_differs(
            3703370420611038912int,
            0,
            16294208416658607535int,
            7960286522194355700int,
            -38103811146536687,
            16932307369759027,
            m,
        );
        let k = lemma_reaches(state, a);
        let l = lemma_reaches(state, 0);
        assert(differ(later(state, 2 * k), m) || differ(later(state, 2 * l), m));
    } else {
        lemma_one_differs(
            0,
            16294208416658607535int,
            7960286522194355700int,
            487617019471545679int,
            -1470598163280107076,
            -3206649639852306079,
            m,
        );
        let k = lemma_reaches(state, b);
        let l = lemma_reaches(state, c);
        assert(differ(later(state, 2 * k), m) || differ(later(state, 2 * l), m));
    }
}

/// Whether the pair after some pairs is the first that differs.
pub open spec fn first_differs(state: u64, m: int, k: nat) -> bool {
    &&& differ(later(state, 2 * k), m)
    &&& forall|j: nat| j < k ==> !differ(#[trigger] later(state, 2 * j), m)
}

/// How many pairs agree before the first that differs.
pub open spec fn alike(state: u64, m: int) -> nat {
    choose|k: nat| first_differs(state, m, k)
}

proof fn lemma_first(state: u64, m: int, k: nat)
    requires
        differ(later(state, 2 * k), m),
    ensures
        exists|i: nat| first_differs(state, m, i),
    decreases k,
{
    if exists|j: nat| j < k && differ(#[trigger] later(state, 2 * j), m) {
        let j = choose|j: nat| j < k && differ(#[trigger] later(state, 2 * j), m);
        lemma_first(state, m, j);
    } else {
        assert(first_differs(state, m, k));
    }
}

/// A pair that agrees is one fewer to come.
pub proof fn lemma_alike(state: u64, m: int)
    requires
        m >= 2,
        !differ(state, m),
    ensures
        alike(stepped(stepped(state)), m) + 1 == alike(state, m),
{
    let next = stepped(stepped(state));
    law_some_pair_differs(state, m);
    lemma_first(state, m, choose|k: nat| differ(#[trigger] later(state, 2 * k), m));
    let i = alike(state, m);
    assert(first_differs(state, m, i));
    lemma_later_steps(state, 0);
    assert(i > 0);
    assert forall|j: nat| #[trigger] later(next, 2 * j) == later(state, 2 * (j + 1)) by {
        lemma_later_steps(stepped(state), 2 * j);
        lemma_later_steps(state, 2 * j + 1);
    }
    let p = (i - 1) as nat;
    assert(first_differs(next, m, p)) by {
        assert(later(next, 2 * p) == later(state, 2 * (p + 1)));
        assert forall|j: nat| j < p implies !differ(#[trigger] later(next, 2 * j), m) by {
            assert(later(next, 2 * j) == later(state, 2 * (j + 1)));
        }
    }
    let q = alike(next, m);
    assert(first_differs(next, m, q));
    assert(later(next, 2 * p) == later(next, 2 * p));
    if q < p {
        assert(!differ(later(next, 2 * q), m));
    } else if p < q {
        assert(!differ(later(next, 2 * p), m));
    }
}

/// Xorshift64.
pub struct Xorshift64 {
    pub state: u64,
}

/// The state after one step.
pub open spec fn shifted(x: u64) -> u64 {
    let a = x ^ (x << 13);
    let b = a ^ (a >> 7);
    b ^ (b << 17)
}

/// The generator never gets stuck: from a state that is not zero it steps to one that is
/// not zero.
pub proof fn law_never_zero(x: u64)
    requires
        x != 0,
    ensures
        shifted(x) != 0,
{
    let a = x ^ (x << 13);
    let b = a ^ (a >> 7);
    assert(a != 0) by (bit_vector)
        requires
            x != 0,
            a == x ^ (x << 13),
    ;
    assert(b != 0) by (bit_vector)
        requires
            a != 0,
            b == a ^ (a >> 7),
    ;
    assert(b ^ (b << 17) != 0) by (bit_vector)
        requires
            b != 0,
    ;
}

impl Xorshift64 {
    /// A generator. Zero is a fixed point, so it is not taken for a seed.
    pub fn new(seed: u64) -> (r: Xorshift64)
        ensures
            r.state == (if seed == 0 {
                0x9E37_79B9_7F4A_7C15
            } else {
                seed
            }),
            r.state != 0,
    {
        Xorshift64 {
            state: if seed == 0 {
                0x9E37_79B9_7F4A_7C15
            } else {
                seed
            },
        }
    }

    /// The next output as the numerator of a fraction of `2^53`, which is at least 0 and
    /// below 1.
    pub fn unit(&mut self) -> (r: u64)
        ensures
            r == shifted(old(self).state) >> 11,
            final(self).state == shifted(old(self).state),
            r < 0x20_0000_0000_0000,
    {
        let x: u64 = self.next_u64();
        assert(x >> 11 < 0x20_0000_0000_0000) by (bit_vector);
        x >> 11
    }

    /// The next state, which is also the output.
    pub fn next_u64(&mut self) -> (r: u64)
        ensures
            r == shifted(old(self).state),
            final(self).state == r,
            old(self).state != 0 ==> r != 0,
    {
        proof {
            if self.state != 0 {
                law_never_zero(self.state);
            }
        }
        let mut x: u64 = self.state;
        x = x ^ (x << 13);
        x = x ^ (x >> 7);
        x = x ^ (x << 17);
        self.state = x;
        x
    }

    /// The next output, below a bound.
    pub fn below(&mut self, n: u64) -> (r: u64)
        requires
            n > 0,
        ensures
            r == shifted(old(self).state) % n,
            final(self).state == shifted(old(self).state),
            r < n,
    {
        self.next_u64() % n
    }
}

} // verus!
