//! Numbers in the binary64 interchange format, held as their bits.

use vstd::arithmetic::power2::*;
use vstd::bits::*;
use vstd::prelude::*;

verus! {

/// A binary64 number: one sign bit, eleven exponent bits and 52 fraction bits.
#[derive(Clone, Copy, Debug, PartialEq, Eq, Structural)]
pub struct Binary64 {
    pub bits: u64,
}

impl Binary64 {
    /// The sign bit.
    pub open spec fn negative(self) -> bool {
        self.bits >= 0x8000_0000_0000_0000
    }

    /// The exponent bits.
    pub open spec fn exponent(self) -> int {
        (self.bits as int / 0x10_0000_0000_0000) % 0x800
    }

    /// The fraction bits.
    pub open spec fn fraction(self) -> int {
        self.bits as int % 0x10_0000_0000_0000
    }

    /// Not a number.
    pub open spec fn is_nan(self) -> bool {
        self.exponent() == 0x7ff && self.fraction() != 0
    }

    /// One of the two infinities.
    pub open spec fn is_infinite(self) -> bool {
        self.exponent() == 0x7ff && self.fraction() == 0
    }

    /// One of the two zeros.
    pub open spec fn is_zero(self) -> bool {
        self.exponent() == 0 && self.fraction() == 0
    }

    /// The whole number that, scaled by `2^scale()`, is the magnitude of a finite number.
    pub open spec fn significand(self) -> int {
        if self.exponent() == 0 {
            self.fraction()
        } else {
            0x10_0000_0000_0000 + self.fraction()
        }
    }

    /// The power of two that scales the significand.
    pub open spec fn scale(self) -> int {
        if self.exponent() == 0 {
            -1074
        } else {
            self.exponent() - 1075
        }
    }

    /// The magnitude of a finite number, rounded to the nearest whole number, halves up.
    pub open spec fn nearest(self) -> int {
        if self.scale() >= 0 {
            self.significand() * pow2(self.scale() as nat)
        } else {
            let k = -self.scale();
            (self.significand() + pow2((k - 1) as nat)) / (pow2(k as nat) as int)
        }
    }

    /// The number rounded to the nearest whole number and brought into the range of `u32`;
    /// 0 where it is not a number.
    pub open spec fn rounded_spec(self) -> u32 {
        if self.is_nan() || self.negative() {
            0
        } else if self.is_infinite() || self.nearest() > u32::MAX {
            u32::MAX
        } else {
            self.nearest() as u32
        }
    }

    /// The sign of the number: 1, -1, or 0 for the zeros and where it is not a number.
    pub open spec fn direction_spec(self) -> int {
        if self.is_nan() || self.is_zero() {
            0
        } else if self.negative() {
            -1
        } else {
            1
        }
    }

    /// Rounds to the nearest whole number, halves away from zero, and saturates.
    pub fn rounded(&self) -> (whole: u32)
        ensures
            whole == self.rounded_spec(),
    {
        let exponent: u64 = (self.bits / 0x10_0000_0000_0000) % 0x800;
        let fraction: u64 = self.bits % 0x10_0000_0000_0000;
        if exponent == 0x7ff && fraction != 0 {
            return 0;
        }
        if self.bits >= 0x8000_0000_0000_0000 {
            return 0;
        }
        if exponent == 0x7ff {
            return u32::MAX;
        }
        if exponent >= 1075 {
            proof {
                let p = pow2(self.scale() as nat) as int;
                lemma_pow2_pos(self.scale() as nat);
                assert(self.significand() * p >= self.significand()) by (nonlinear_arith)
                    requires
                        p >= 1,
                        self.significand() >= 0,
                ;
            }
            return u32::MAX;
        }
        let significand: u64 = if exponent == 0 { fraction } else { 0x10_0000_0000_0000 + fraction };
        let k: u64 = if exponent == 0 { 1074 } else { 1075 - exponent };
        proof {
            lemma2_to64();
            lemma2_to64_rest();
            lemma_pow2_unfold(k as nat);
        }
        if k >= 55 {
            proof {
                if k > 55 {
                    lemma_pow2_strictly_increases(54, (k - 1) as nat);
                }
                vstd::arithmetic::div_mod::lemma_basic_div(
                    self.significand() + pow2((k - 1) as nat),
                    pow2(k as nat) as int,
                );
            }
            return 0;
        }
        proof {
            if k < 54 {
                lemma_pow2_strictly_increases(k as nat, 54);
            }
            lemma_pow2_pos((k - 1) as nat);
            assert(1 * pow2((k - 1) as nat) == pow2((k - 1) as nat));
            lemma_u64_shl_is_mul(1, (k - 1) as u64);
        }
        let half: u64 = 1u64 << (k - 1);
        let whole: u64 = (significand + half) >> k;
        proof {
            lemma_u64_shr_is_div((significand + half) as u64, k);
        }
        if whole > 0xffff_ffff {
            u32::MAX
        } else {
            whole as u32
        }
    }

    /// Whether the number is zero, of either sign.
    pub fn zero(&self) -> (yes: bool)
        ensures
            yes == self.is_zero(),
    {
        (self.bits / 0x10_0000_0000_0000) % 0x800 == 0 && self.bits % 0x10_0000_0000_0000 == 0
    }

    /// The sign of the number.
    pub fn direction(&self) -> (sign: i32)
        ensures
            sign == self.direction_spec(),
    {
        let exponent: u64 = (self.bits / 0x10_0000_0000_0000) % 0x800;
        let fraction: u64 = self.bits % 0x10_0000_0000_0000;
        if exponent == 0x7ff && fraction != 0 {
            0
        } else if exponent == 0 && fraction == 0 {
            0
        } else if self.bits >= 0x8000_0000_0000_0000 {
            -1
        } else {
            1
        }
    }
}

/// Rounding moves a number by at most one half: with the magnitude written as the fraction
/// `significand / 2^k`, the rounded number `n` satisfies `n - 1/2 <= significand / 2^k < n + 1/2`.
pub proof fn law_nearest_is_within_half(number: Binary64)
    requires
        number.scale() < 0,
    ensures
        ({
            let d = pow2((-number.scale()) as nat) as int;
            let n = number.nearest();
            &&& 2 * (n * d) - d <= 2 * number.significand()
            &&& 2 * number.significand() < 2 * (n * d) + d
        }),
{
    let k = -number.scale();
    let d = pow2(k as nat) as int;
    let sum = number.significand() + pow2((k - 1) as nat);
    lemma_pow2_unfold(k as nat);
    lemma_pow2_pos(k as nat);
    vstd::arithmetic::div_mod::lemma_fundamental_div_mod(sum, d);
    vstd::arithmetic::div_mod::lemma_mod_division_less_than_divisor(sum, d);
    assert(d * (sum / d) == (sum / d) * d) by (nonlinear_arith);
}

/// Rounding gives the nearest whole number in the range of `u32`. With the number read off its bits
/// as `m / 2^k`, the rounded number lies within one half of it, halves going up. What is too large
/// becomes the greatest number of the range, and what is negative or not a number becomes 0.
#[verifier::spinoff_prover]
pub proof fn law_rounding_gives_the_nearest_number(number: Binary64)
    ensures
        ({
            let e = number.bits as int / 0x10_0000_0000_0000 % 0x800;
            let f = number.bits as int % 0x10_0000_0000_0000;
            let r = number.rounded_spec() as int;
            &&& number.bits >= 0x8000_0000_0000_0000 ==> r == 0
            &&& e == 0x7ff && f != 0 ==> r == 0
            &&& number.bits < 0x8000_0000_0000_0000 && e == 0x7ff && f == 0 ==> r == 0xffff_ffff
            &&& e == 0 ==> r == 0
            &&& number.bits < 0x8000_0000_0000_0000 && 1075 <= e < 0x7ff ==> r == 0xffff_ffff
            &&& number.bits < 0x8000_0000_0000_0000 && 1 <= e < 1075 ==> {
                let m = 0x10_0000_0000_0000 + f;
                let d = pow2((1075 - e) as nat) as int;
                if 2 * m < 0x1_ffff_ffff * d {
                    2 * (r * d) - d <= 2 * m && 2 * m < 2 * (r * d) + d
                } else {
                    r == 0xffff_ffff
                }
            }
        }),
{
    let e = number.exponent();
    let f = number.fraction();
    if number.negative() || e == 0x7ff {
    } else if e == 0 {
        lemma2_to64();
        lemma2_to64_rest();
        lemma_pow2_strictly_increases(64, 1073);
        lemma_pow2_unfold(1074);
        vstd::arithmetic::div_mod::lemma_basic_div(
            number.significand() + pow2(1073),
            pow2(1074) as int,
        );
    } else if e >= 1075 {
        let p = pow2((e - 1075) as nat) as int;
        lemma_pow2_pos((e - 1075) as nat);
        assert(number.significand() * p >= number.significand()) by (nonlinear_arith)
            requires
                p >= 1,
                number.significand() >= 0,
        ;
    } else {
        law_nearest_is_within_half(number);
        let d = pow2((1075 - e) as nat) as int;
        let n = number.nearest();
        let m = number.significand();
        lemma_pow2_pos((1075 - e) as nat);
        assert(n >= 0) by (nonlinear_arith)
            requires
                2 * m < 2 * (n * d) + d,
                m >= 0,
                d >= 1,
        ;
        if 2 * m < 0x1_ffff_ffff * d {
            assert(n <= 0xffff_ffff) by (nonlinear_arith)
                requires
                    2 * (n * d) - d <= 2 * m,
                    2 * m < 0x1_ffff_ffff * d,
                    d >= 1,
            ;
        } else {
            assert(n >= 0xffff_ffff) by (nonlinear_arith)
                requires
                    2 * m < 2 * (n * d) + d,
                    2 * m >= 0x1_ffff_ffff * d,
                    d >= 1,
            ;
        }
    }
}

/// The two zeros are the numbers without any bit but the sign. A number points up or down by its
/// sign bit, unless it is zero or its bits lie behind those of the infinity, and it is no number.
#[verifier::spinoff_prover]
pub proof fn law_zeros_and_signs(number: Binary64)
    ensures
        number.is_zero() <==> number.bits == 0 || number.bits == 0x8000_0000_0000_0000,
        number.direction_spec() == 0 <==> number.is_zero() || 0x7ff0_0000_0000_0000 < number.bits
            < 0x8000_0000_0000_0000 || number.bits > 0xfff0_0000_0000_0000,
        number.direction_spec() == 1 <==> 0 < number.bits <= 0x7ff0_0000_0000_0000,
        number.direction_spec() == -1 <==> 0x8000_0000_0000_0000 < number.bits
            <= 0xfff0_0000_0000_0000,
{
    let b = number.bits as int;
    assert(b == (b / 0x10_0000_0000_0000) * 0x10_0000_0000_0000 + b % 0x10_0000_0000_0000);
}

} // verus!
