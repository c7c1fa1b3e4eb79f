//! The price as the oracle gives it: a binary64 floating-point number, held
//! by its bit pattern so that every step on it is integer arithmetic.

use vstd::arithmetic::div_mod::{
    lemma_basic_div, lemma_div_denominator, lemma_fundamental_div_mod, lemma_mod_bound,
    lemma_mul_mod_noop_general,
};
use vstd::arithmetic::power2::{
    lemma2_to64, lemma2_to64_rest, lemma_pow2_pos, lemma_pow2_strictly_increases,
    lemma_pow2_unfold, pow2,
};
use vstd::bits::{lemma_u64_pow2_no_overflow, lemma_u64_shl_is_mul};
use vstd::prelude::*;

verus! {

/// The whole part of `m * 2^e`.
pub open spec fn scaled_floor(m: nat, e: int) -> nat {
    if e >= 0 {
        m * pow2(e as nat)
    } else {
        m / pow2((-e) as nat)
    }
}

/// How many bits `n` has beyond the fifty-three that a significand holds.
pub open spec fn excess_bits(n: nat) -> nat
    decreases n,
{
    if n < 0x20_0000_0000_0000 {
        0
    } else {
        1 + excess_bits(n / 2)
    }
}

/// `n / 2^k`, rounded to the nearest whole number; halfway between two, to
/// the even one.
pub open spec fn round_half_even(n: nat, k: nat) -> nat {
    let q = n / pow2(k);
    let r = n % pow2(k);
    if 2 * r < pow2(k) || (2 * r == pow2(k) && q % 2 == 0) {
        q
    } else {
        q + 1
    }
}

/// The smaller of two numbers.
pub open spec fn at_most(n: nat, cap: nat) -> nat {
    if n <= cap {
        n
    } else {
        cap
    }
}

/// A binary64 floating-point number, given by its 64 bits: one sign bit,
/// eleven exponent bits, fifty-two fraction bits.
#[derive(Clone, Copy, Debug, PartialEq, Eq, Structural)]
pub struct RawPrice {
    pub bits: u64,
}

impl RawPrice {
    /// Whether the sign bit is set.
    pub open spec fn sign_bit(self) -> bool {
        self.bits >= 0x8000_0000_0000_0000
    }

    /// The eleven exponent bits, as a number.
    pub open spec fn exponent_field(self) -> nat {
        ((self.bits / 0x10_0000_0000_0000) % 0x800) as nat
    }

    /// The fifty-two fraction bits, as a number.
    pub open spec fn fraction(self) -> nat {
        (self.bits % 0x10_0000_0000_0000) as nat
    }

    /// Neither an infinity nor a NaN.
    pub open spec fn is_finite(self) -> bool {
        self.exponent_field() != 0x7FF
    }

    /// Not a number.
    pub open spec fn is_nan(self) -> bool {
        self.exponent_field() == 0x7FF && self.fraction() != 0
    }

    /// Plus or minus zero.
    pub open spec fn is_zero(self) -> bool {
        self.exponent_field() == 0 && self.fraction() == 0
    }

    /// Less than zero. Minus zero is not, and neither is a NaN.
    pub open spec fn is_negative(self) -> bool {
        self.sign_bit() && !self.is_zero() && !self.is_nan()
    }

    /// The integer `m` of the magnitude `m * 2^e` of a finite number.
    pub open spec fn significand(self) -> nat {
        if self.exponent_field() == 0 {
            self.fraction()
        } else {
            0x10_0000_0000_0000 + self.fraction()
        }
    }

    /// The exponent `e` of the magnitude `m * 2^e` of a finite number.
    pub open spec fn exponent(self) -> int {
        if self.exponent_field() == 0 {
            -1074
        } else {
            self.exponent_field() - 1075
        }
    }

    /// The whole part of the magnitude of a finite number.
    pub open spec fn floor(self) -> nat {
        scaled_floor(self.significand(), self.exponent())
    }

    /// The whole part of a hundred times the magnitude of a finite number,
    /// the product being rounded as binary64 arithmetic rounds it: to
    /// fifty-three bits, half to even. Where the product is beyond the
    /// binary64 range, this is what an exponent without bound would give.
    pub open spec fn hundredfold_floor(self) -> nat {
        let n = 100 * self.significand();
        let k = excess_bits(n);
        scaled_floor(round_half_even(n, k), self.exponent() + k)
    }

    /// The number with the given bit pattern.
    pub fn from_bits(bits: u64) -> (r: RawPrice)
        ensures
            r.bits == bits,
    {
        RawPrice { bits }
    }

    /// The bit pattern.
    pub fn to_bits(&self) -> (bits: u64)
        ensures
            bits == self.bits,
    {
        self.bits
    }

    /// Whether the number is finite.
    pub fn finite(&self) -> (r: bool)
        ensures
            r == self.is_finite(),
    {
        (self.bits / 0x10_0000_0000_0000) % 0x800 != 0x7FF
    }

    /// Whether the number is less than zero.
    pub fn negative(&self) -> (r: bool)
        ensures
            r == self.is_negative(),
    {
        let field: u64 = (self.bits / 0x10_0000_0000_0000) % 0x800;
        let fraction: u64 = self.bits % 0x10_0000_0000_0000;
        self.bits >= 0x8000_0000_0000_0000 && !(field == 0 && fraction == 0) && !(field == 0x7FF
            && fraction != 0)
    }
}

/// Whether `f` is the whole part of `m * 2^e`: the one number with
/// `f <= m * 2^e < f + 1`.
pub open spec fn is_whole_part(f: nat, m: nat, e: int) -> bool {
    if e >= 0 {
        f == m * pow2(e as nat)
    } else {
        f * pow2((-e) as nat) <= m < (f + 1) * pow2((-e) as nat)
    }
}

/// What `floor` gives is the whole part of the number.
pub proof fn lemma_floor_is_whole_part(value: RawPrice)
    ensures
        is_whole_part(value.floor(), value.significand(), value.exponent()),
{
    let m = value.significand() as int;
    let e = value.exponent();
    if e < 0 {
        let d = pow2((-e) as nat) as int;
        lemma_pow2_pos((-e) as nat);
        lemma_fundamental_div_mod(m, d);
        lemma_mod_bound(m, d);
        let f = m / d;
        assert((f + 1) * d == f * d + d) by (nonlinear_arith);
        assert(f * d == d * f) by (nonlinear_arith);
    }
}

/// What `round_half_even` gives is nearest to `n / 2^k`: it is off by half
/// a unit at most, and where it is off by just that, it is even.
pub proof fn lemma_round_half_even_is_nearest(n: nat, k: nat)
    ensures
        ({
            let r = round_half_even(n, k);
            let p = pow2(k);
            &&& 2 * (r * p - n) <= p
            &&& 2 * (n - r * p) <= p
            &&& (2 * (r * p - n) == p || 2 * (n - r * p) == p) ==> r % 2 == 0
        }),
{
    let p = pow2(k) as int;
    let q = n as int / p;
    lemma_pow2_pos(k);
    lemma_fundamental_div_mod(n as int, p);
    lemma_mod_bound(n as int, p);
    assert((q + 1) * p == q * p + p) by (nonlinear_arith);
    assert(q * p == p * q) by (nonlinear_arith);
}

/// Without its `excess_bits`, a number has fifty-three bits at most, and
/// just fifty-three where any bit is in excess.
pub proof fn lemma_excess_bits_cut(n: nat)
    ensures
        n / pow2(excess_bits(n)) < 0x20_0000_0000_0000,
        excess_bits(n) > 0 ==> n / pow2(excess_bits(n)) >= 0x10_0000_0000_0000,
    decreases n,
{
    lemma2_to64();
    if n >= 0x20_0000_0000_0000 {
        let k = excess_bits(n / 2);
        lemma_excess_bits_cut(n / 2);
        lemma_pow2_pos(k);
        lemma_pow2_unfold(k + 1);
        lemma_div_denominator(n as int, 2, pow2(k) as int);
    }
}

/// `2^k`.
fn power_of_two(k: u64) -> (r: u64)
    requires
        k < 64,
    ensures
        r == pow2(k as nat),
        r > 0,
{
    proof {
        lemma_u64_pow2_no_overflow(k as nat);
        lemma_u64_shl_is_mul(1, k);
    }
    1u64 << k
}

/// The whole part of `m * 2^e`, or `cap` where that is less.
pub(crate) fn capped_floor(m: u64, e: i64, cap: u64) -> (r: u64)
    requires
        -0x1000 <= e <= 0x1000,
    ensures
        r == at_most(scaled_floor(m as nat, e as int), cap as nat),
{
    if m == 0 {
        proof {
            lemma_pow2_pos((-e) as nat);
            assert(0nat * pow2(e as nat) == 0) by (nonlinear_arith);
        }
        return 0;
    }
    if e >= 0 {
        if e >= 64 {
            proof {
                lemma2_to64();
                if e > 64 {
                    lemma_pow2_strictly_increases(64, e as nat);
                }
                let p = pow2(e as nat);
                assert(m * p >= p) by (nonlinear_arith)
                    requires
                        m >= 1,
                        p >= 0,
                ;
            }
            return cap;
        }
        let p: u64 = power_of_two(e as u64);
        assert(m * p <= 0xFFFF_FFFF_FFFF_FFFF * 0xFFFF_FFFF_FFFF_FFFF) by (nonlinear_arith)
            requires
                0 <= m <= 0xFFFF_FFFF_FFFF_FFFF,
                0 <= p <= 0xFFFF_FFFF_FFFF_FFFF,
        ;
        let wide: u128 = (m as u128) * (p as u128);
        if wide > cap as u128 {
            cap
        } else {
            wide as u64
        }
    } else {
        if e <= -64 {
            proof {
                lemma2_to64();
                if -e > 64 {
                    lemma_pow2_strictly_increases(64, (-e) as nat);
                }
                lemma_basic_div(m as int, pow2((-e) as nat) as int);
            }
            return 0;
        }
        let p: u64 = power_of_two((-e) as u64);
        let q: u64 = m / p;
        if q > cap {
            cap
        } else {
            q
        }
    }
}

/// What `2^s` leaves over a full number of hundreds.
fn power_of_two_mod_hundred(s: u64) -> (r: u64)
    ensures
        r == pow2(s as nat) % 100,
{
    let mut r: u64 = 1;
    let mut i: u64 = 0;
    proof {
        lemma2_to64();
    }
    while i < s
        invariant
            i <= s,
            r == pow2(i as nat) % 100,
        decreases s - i,
    {
        proof {
            lemma_pow2_unfold((i + 1) as nat);
        }
        r = (2 * r) % 100;
        i = i + 1;
    }
    r
}

/// What the whole part of `m * 2^e` leaves over a full number of hundreds.
pub(crate) fn floor_mod_hundred(m: u64, e: i64) -> (r: u64)
    requires
        -0x1000 <= e <= 0x1000,
    ensures
        r == scaled_floor(m as nat, e as int) % 100,
{
    if e >= 0 {
        let power: u64 = power_of_two_mod_hundred(e as u64);
        let rest: u64 = m % 100;
        proof {
            lemma_mul_mod_noop_general(m as int, pow2(e as nat) as int, 100);
            assert(rest * power <= 99 * 99) by (nonlinear_arith)
                requires
                    0 <= rest <= 99,
                    0 <= power <= 99,
            ;
        }
        (rest * power) % 100
    } else if e <= -64 {
        proof {
            lemma2_to64();
            if -e > 64 {
                lemma_pow2_strictly_increases(64, (-e) as nat);
            }
            lemma_basic_div(m as int, pow2((-e) as nat) as int);
        }
        0
    } else {
        let p: u64 = power_of_two((-e) as u64);
        (m / p) % 100
    }
}

/// Rounds `n` to fifty-three bits: the bits that are cut off, and what is
/// left of `n` without them, rounded half to even.
pub(crate) fn round_to_significand(n: u64) -> (r: (u64, u64))
    requires
        n < 0x8000_0000_0000_0000,
    ensures
        r.0 == round_half_even(n as nat, excess_bits(n as nat)),
        r.1 == excess_bits(n as nat),
        r.0 <= 0x20_0000_0000_0000,
        r.1 <= 10,
{
    let mut k: u64 = 0;
    let mut top: u64 = n;
    proof {
        lemma2_to64();
        lemma2_to64_rest();
    }
    while top >= 0x20_0000_0000_0000
        invariant
            k <= 10,
            top == n as nat / pow2(k as nat),
            top < pow2((63 - k) as nat),
            excess_bits(n as nat) == k + excess_bits(top as nat),
        decreases top,
    {
        proof {
            lemma2_to64_rest();
            if k == 10 {
                assert(false);
            }
            lemma_pow2_pos(k as nat);
            lemma_pow2_unfold((k + 1) as nat);
            lemma_pow2_unfold((63 - k) as nat);
            lemma_div_denominator(n as int, pow2(k as nat) as int, 2);
            assert(pow2(k as nat) * 2 == pow2((k + 1) as nat));
        }
        top = top / 2;
        k = k + 1;
    }
    proof {
        lemma_excess_bits_cut(n as nat);
    }
    let p: u64 = power_of_two(k);
    let q: u64 = n / p;
    let rest: u64 = n % p;
    if 2 * rest < p || (2 * rest == p && q % 2 == 0) {
        (q, k)
    } else {
        (q + 1, k)
    }
}

} // verus!
