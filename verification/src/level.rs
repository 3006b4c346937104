//! Pin levels as IEEE-754 single-precision bit patterns.

use vstd::arithmetic::div_mod::{lemma_fundamental_div_mod, lemma_small_mod};
use vstd::arithmetic::power2::{
    lemma2_to64, lemma2_to64_rest, lemma_pow2_pos, lemma_pow2_strictly_increases, lemma_pow2_unfold,
    pow2,
};
use vstd::prelude::*;

verus! {

/// A pin level: an IEEE-754 single-precision number, held by its bit pattern.
///
/// The derived `==` compares bit patterns. The comparison that decides whether
/// a level has changed is [`Level::equals`], which compares as numbers do.
#[derive(Clone, Copy, Debug, PartialEq, Eq, Structural)]
pub struct Level {
    pub bits: u32,
}

impl Level {
    /// The bit pattern without its sign bit.
    pub open spec fn magnitude(self) -> int {
        self.bits as int % 0x8000_0000
    }

    /// Whether the pattern is not a number: all exponent bits set and a
    /// mantissa other than zero.
    pub open spec fn nan(self) -> bool {
        self.magnitude() > 0x7f80_0000
    }

    /// Whether the pattern is one of the two zeros.
    pub open spec fn zero_valued(self) -> bool {
        self.magnitude() == 0
    }

    /// Numeric equality: no pattern that is not a number equals anything, the
    /// two zeros equal each other, and any other pattern equals only itself.
    pub open spec fn same_number(self, other: Level) -> bool {
        &&& !self.nan()
        &&& !other.nan()
        &&& (self.bits == other.bits || (self.zero_valued() && other.zero_valued()))
    }

    /// The level with the given bit pattern.
    pub fn from_bits(bits: u32) -> (level: Self)
        ensures
            level.bits == bits,
    {
        Level { bits }
    }

    /// The level's bit pattern.
    pub fn to_bits(&self) -> (bits: u32)
        ensures
            bits == self.bits,
    {
        self.bits
    }

    /// Positive zero, the level every pin starts at.
    pub fn zero() -> (level: Self)
        ensures
            level.bits == 0,
    {
        Level { bits: 0 }
    }

    /// Whether the level is not a number.
    pub fn is_nan(&self) -> (r: bool)
        ensures
            r == self.nan(),
    {
        self.bits % 0x8000_0000 > 0x7f80_0000
    }

    /// Compares two levels as numbers.
    pub fn equals(&self, other: &Level) -> (r: bool)
        ensures
            r == self.same_number(*other),
    {
        let a: u32 = self.bits % 0x8000_0000;
        let b: u32 = other.bits % 0x8000_0000;
        a <= 0x7f80_0000 && b <= 0x7f80_0000 && (self.bits == other.bits || (a == 0 && b == 0))
    }
}

/// Numeric equality does not depend on the order of its operands.
pub proof fn lemma_same_number_symmetric(a: Level, b: Level)
    ensures
        a.same_number(b) == b.same_number(a),
{
}

/// A level equals itself as a number exactly when it is a number.
pub proof fn lemma_same_number_reflexive(a: Level)
    ensures
        a.same_number(a) == !a.nan(),
{
}

/// Numeric equality carries over: levels equal to a common level are equal.
pub proof fn lemma_same_number_transitive(a: Level, b: Level, c: Level)
    requires
        a.same_number(b),
        b.same_number(c),
    ensures
        a.same_number(c),
{
}

/// The whole number nearest to `num / den`, and of two that are equally near
/// the even one.
pub open spec fn round_half_even(num: nat, den: nat) -> nat
    recommends
        den > 0,
{
    let quotient = num / den;
    let rest = num % den;
    if 2 * rest > den || (2 * rest == den && quotient % 2 == 1) {
        quotient + 1
    } else {
        quotient
    }
}

/// The single-precision pattern, without its sign, that the double-precision
/// number of the given exponent and mantissa fields narrows to.
///
/// A double-precision number is `significand * 2^(scale - 1075)`. The
/// single-precision patterns near it count in steps of `2^shift` of that unit,
/// `base` being the pattern of the first step, so the nearest pattern is
/// `base` and the rounded number of steps. Infinity stands for whatever lies
/// at or beyond it. What is not a number stays so: it becomes a quiet pattern
/// that keeps the upper bits of the payload.
pub open spec fn narrowed_magnitude(exponent: nat, mantissa: nat) -> nat {
    if exponent == 0x7ff {
        if mantissa == 0 {
            0x7f80_0000
        } else {
            0x7fc0_0000 + (mantissa / 0x2000_0000) % 0x40_0000
        }
    } else {
        let significand = if exponent == 0 {
            mantissa
        } else {
            0x10_0000_0000_0000 + mantissa
        };
        let scale = if exponent == 0 {
            1
        } else {
            exponent
        };
        let shift = if scale >= 897 {
            29
        } else {
            (926 - scale) as nat
        };
        let base = if scale >= 897 {
            (scale - 897) * 0x80_0000
        } else {
            0
        };
        let pattern = base + round_half_even(significand, pow2(shift));
        if pattern >= 0x7f80_0000 {
            0x7f80_0000
        } else {
            pattern as nat
        }
    }
}

/// The single-precision pattern that a double-precision pattern narrows to:
/// the nearest single-precision number, the one with the even mantissa of two
/// that are equally near, with the sign kept.
pub open spec fn narrowed(double: u64) -> u32 {
    let sign = double as nat / 0x8000_0000_0000_0000;
    let exponent = (double as nat / 0x10_0000_0000_0000) % 0x800;
    let mantissa = double as nat % 0x10_0000_0000_0000;
    (sign * 0x8000_0000 + narrowed_magnitude(exponent, mantissa)) as u32
}

/// Rounding goes to a nearest whole number, and from the middle between two
/// to the even one.
pub proof fn lemma_round_half_even(num: nat, den: nat)
    requires
        den > 0,
    ensures
        2 * num <= 2 * (round_half_even(num, den) * den) + den,
        2 * (round_half_even(num, den) * den) <= 2 * num + den,
        2 * num == 2 * (round_half_even(num, den) * den) + den || 2 * (round_half_even(num, den)
            * den) == 2 * num + den ==> round_half_even(num, den) % 2 == 0,
{
    let quotient = num / den;
    let rest = num % den;
    lemma_fundamental_div_mod(num as int, den as int);
    assert((quotient + 1) * den == quotient * den + den) by (nonlinear_arith);
    assert(den * quotient == quotient * den) by (nonlinear_arith);
}

/// The double-precision pattern of a single-precision number that is normal:
/// the same sign, the exponent moved to the wider bias, and the mantissa
/// filled up with zeros.
pub open spec fn widened_normal(single: u32) -> u64 {
    let sign = single as nat / 0x8000_0000;
    let exponent = (single as nat / 0x80_0000) % 0x100;
    let mantissa = single as nat % 0x80_0000;
    (sign * 0x8000_0000_0000_0000 + (exponent + 896) * 0x10_0000_0000_0000 + mantissa
        * 0x2000_0000) as u64
}

/// Narrowing loses nothing of a normal single-precision number: the double
/// that holds the same number narrows back to it.
pub proof fn lemma_narrowing_is_exact(single: u32)
    requires
        1 <= (single as nat / 0x80_0000) % 0x100 <= 254,
    ensures
        narrowed(widened_normal(single)) == single,
{
    lemma2_to64();
}

/// Two to the power of `exponent`.
fn power_of_two(exponent: u64) -> (power: u64)
    requires
        exponent <= 54,
    ensures
        power == pow2(exponent as nat),
        power <= 0x40_0000_0000_0000,
{
    let mut power: u64 = 1;
    let mut i: u64 = 0;
    proof {
        lemma2_to64();
        lemma2_to64_rest();
    }
    while i < exponent
        invariant
            i <= exponent <= 54,
            power == pow2(i as nat),
            pow2(54) == 0x40_0000_0000_0000,
        decreases exponent - i,
    {
        proof {
            lemma_pow2_unfold((i + 1) as nat);
            if i + 1 < 54 {
                lemma_pow2_strictly_increases((i + 1) as nat, 54);
            }
        }
        power = power * 2;
        i += 1;
    }
    proof {
        if exponent < 54 {
            lemma_pow2_strictly_increases(exponent as nat, 54);
        }
    }
    power
}

impl Level {
    /// The level that a double-precision number, given by its bit pattern,
    /// narrows to.
    pub fn from_double_bits(double: u64) -> (level: Self)
        ensures
            level.bits == narrowed(double),
    {
        let sign: u64 = double / 0x8000_0000_0000_0000;
        let exponent: u64 = (double / 0x10_0000_0000_0000) % 0x800;
        let mantissa: u64 = double % 0x10_0000_0000_0000;
        let magnitude: u64 = if exponent == 0x7ff {
            if mantissa == 0 {
                0x7f80_0000
            } else {
                0x7fc0_0000 + (mantissa / 0x2000_0000) % 0x40_0000
            }
        } else {
            let significand: u64 = if exponent == 0 {
                mantissa
            } else {
                0x10_0000_0000_0000 + mantissa
            };
            let scale: u64 = if exponent == 0 {
                1
            } else {
                exponent
            };
            if scale < 872 {
                proof {
                    // less than half of the smallest step: nothing is left of it
                    let shift = (926 - scale) as nat;
                    lemma2_to64_rest();
                    lemma_pow2_strictly_increases(54, shift);
                    lemma_small_mod(significand as nat, pow2(shift));
                    lemma_fundamental_div_mod(significand as int, pow2(shift) as int);
                    let q = significand as int / pow2(shift) as int;
                    assert(q == 0) by (nonlinear_arith)
                        requires
                            significand as int == pow2(shift) as int * q + significand as int,
                            pow2(shift) > 0,
                    ;
                }
                0
            } else {
                let shift: u64 = if scale >= 897 {
                    29
                } else {
                    926 - scale
                };
                let base: u64 = if scale >= 897 {
                    (scale - 897) * 0x80_0000
                } else {
                    0
                };
                let den = power_of_two(shift);
                proof {
                    lemma_pow2_pos(shift as nat);
                    lemma2_to64();
                    if shift > 29 {
                        lemma_pow2_strictly_increases(29, shift as nat);
                    }
                    lemma_fundamental_div_mod(significand as int, den as int);
                    let q = significand as int / den as int;
                    assert(q <= 0x100_0000) by (nonlinear_arith)
                        requires
                            significand as int == den as int * q + significand as int % den as int,
                            0 <= significand as int % den as int,
                            significand < 0x20_0000_0000_0000,
                            den >= 0x2000_0000,
                    ;
                }
                let quotient: u64 = significand / den;
                let rest: u64 = significand % den;
                let steps: u64 = if 2 * rest > den || (2 * rest == den && quotient % 2 == 1) {
                    quotient + 1
                } else {
                    quotient
                };
                let pattern: u64 = base + steps;
                if pattern >= 0x7f80_0000 {
                    0x7f80_0000
                } else {
                    pattern
                }
            }
        };
        Level { bits: (sign * 0x8000_0000 + magnitude) as u32 }
    }
}

} // verus!
