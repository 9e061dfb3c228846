//! IEEE 754 doubles as bit patterns.
//!
//! Lengths and speeds travel through the library as [`Binary64`]. Arithmetic on
//! them counts in *ticks* of 2^-66: every double from 2^-14 upwards is a whole
//! number of ticks, so sums, differences and products are exact until they are
//! rounded.
use vstd::arithmetic::div_mod::{
    lemma_div_by_multiple, lemma_div_denominator, lemma_fundamental_div_mod,
    lemma_fundamental_div_mod_converse,
};
use vstd::arithmetic::power2::{
    lemma2_to64, lemma_pow2_adds, lemma_pow2_pos, lemma_pow2_strictly_increases, lemma_pow2_unfold,
    pow2,
};
use vstd::prelude::*;

use crate::rounding::{
    doublings, lemma_doublings_of_scaled, lemma_quantum_bounds, lemma_quantum_is_power,
    lemma_representable_is_multiple, lemma_scaled_representable, quantum, representable,
    SIGNIFICAND_END, SIGNIFICAND_START,
};

verus! {

/// How many ticks make up the number one.
pub const TICKS_PER_UNIT: u128 = 0x4_0000_0000_0000_0000;

/// The sign bit of a pattern.
pub const SIGN: u64 = 0x8000_0000_0000_0000;

/// What one step of the exponent adds to a pattern.
pub const EXPONENT_STEP: u64 = 0x10_0000_0000_0000;

/// The exponent field of doubles from 2^-14 upwards, the first whose quantum is a tick.
pub const FIRST_EXPONENT: u64 = 1009;

/// The exponent field of infinities and of values that are no number.
pub const LAST_EXPONENT: u64 = 2047;

/// The exponent field of the number eight.
pub const EIGHT_EXPONENT: u64 = 1026;

/// The bit pattern of a double.
#[derive(Clone, Copy, Debug, PartialEq, Eq, Structural)]
pub struct Binary64 {
    pub bits: u64,
}

impl Binary64 {
    /// Whether the sign bit is set.
    pub open spec fn negative(self) -> bool {
        self.bits >= SIGN
    }

    /// The exponent field.
    pub open spec fn exponent(self) -> nat {
        ((self.bits / EXPONENT_STEP) % 2048) as nat
    }

    /// The fraction field.
    pub open spec fn fraction(self) -> nat {
        (self.bits % EXPONENT_STEP) as nat
    }

    /// Whether the pattern stands for a number, and not for an infinity or for none.
    pub open spec fn finite(self) -> bool {
        self.exponent() < LAST_EXPONENT
    }

    /// The absolute value of a number, in units of the least positive double, 2^-1074.
    pub open spec fn magnitude(self) -> nat {
        if self.exponent() == 0 {
            self.fraction()
        } else {
            (EXPONENT_STEP as nat + self.fraction()) * pow2((self.exponent() - 1) as nat)
        }
    }

    /// The value of a number, in units of the least positive double.
    pub open spec fn value(self) -> int {
        if self.negative() {
            -(self.magnitude() as int)
        } else {
            self.magnitude() as int
        }
    }

    /// The absolute value in ticks, for numbers from 2^-14 upwards.
    pub open spec fn ticks(self) -> nat {
        (EXPONENT_STEP as nat + self.fraction()) * pow2((self.exponent() - FIRST_EXPONENT) as nat)
    }

    /// Whether the number lies between 2^-14 and eight, the latter left out.
    pub open spec fn moderate(self) -> bool {
        &&& !self.negative()
        &&& FIRST_EXPONENT <= self.exponent() < EIGHT_EXPONENT
    }

    /// The value in ticks.
    pub fn to_ticks(self) -> (n: u128)
        requires
            self.moderate(),
        ensures
            n == self.ticks(),
    {
        let field: u64 = (self.bits / EXPONENT_STEP) % 2048;
        let significand: u128 = (EXPONENT_STEP + self.bits % EXPONENT_STEP) as u128;
        let mut scale: u128 = 1;
        let mut at: u64 = FIRST_EXPONENT;
        proof {
            lemma2_to64();
        }
        while at < field
            invariant
                FIRST_EXPONENT <= at <= field < EIGHT_EXPONENT,
                scale == pow2((at - FIRST_EXPONENT) as nat),
                scale <= 0x1_0000,
            decreases field - at,
        {
            proof {
                lemma_pow2_unfold((at + 1 - FIRST_EXPONENT) as nat);
                lemma2_to64();
                if at + 1 - FIRST_EXPONENT < 16 {
                    lemma_pow2_strictly_increases(
                        (at + 1 - FIRST_EXPONENT) as nat,
                        16,
                    );
                }
            }
            scale = scale * 2;
            at = at + 1;
        }
        assert(significand * scale <= 0x20_0000_0000_0000 * 0x1_0000) by (nonlinear_arith)
            requires
                significand <= 0x20_0000_0000_0000,
                scale <= 0x1_0000,
        ;
        significand * scale
    }

    /// The double of `n` ticks, negated if `negative` is set.
    pub fn from_ticks(n: u128, negative: bool) -> (r: Self)
        requires
            representable(n as nat),
            n == 0 || SIGNIFICAND_START <= n < 8 * TICKS_PER_UNIT,
        ensures
            r.bits == pattern(n as nat) + if negative {
                SIGN as nat
            } else {
                0
            },
    {
        if n == 0 {
            return Binary64 {
                bits: if negative {
                    SIGN
                } else {
                    0
                },
            };
        }
        let mut significand: u128 = n;
        let mut steps: u64 = 0;
        let mut unit: u128 = 1;
        while significand >= SIGNIFICAND_END
            invariant
                SIGNIFICAND_START <= n < 8 * TICKS_PER_UNIT,
                unit >= 1,
                significand == n as nat / unit as nat,
                doublings(n as nat) == steps + doublings(significand as nat),
                quantum(n as nat) == unit * quantum(significand as nat),
            decreases significand,
        {
            proof {
                lemma_quantum_is_power(significand as nat);
                lemma_quantum_bounds(n as nat);
                let half = (significand / 2) as nat;
                lemma_quantum_is_power(half);
                assert(unit * (2 * quantum(half)) == (unit * 2) * quantum(half)) by (nonlinear_arith);
                assert(unit * 2 <= quantum(n as nat)) by (nonlinear_arith)
                    requires
                        quantum(n as nat) == (unit * 2) * quantum(half),
                        quantum(half) >= 1,
                ;
                assert(steps < 0x1_0000) by {
                    lemma_doublings_bound(n as nat);
                }
                lemma_div_denominator(n as int, unit as int, 2);
            }
            significand = significand / 2;
            steps = steps + 1;
            unit = unit * 2;
        }
        proof {
            assert(unit * 1 == unit);
            lemma_doublings_bound(n as nat);
            lemma_pattern_parts(n as nat);
        }
        let bits: u64 = (1008 + steps) * EXPONENT_STEP + significand as u64;
        Binary64 {
            bits: if negative {
                bits + SIGN
            } else {
                bits
            },
        }
    }
}

/// The pattern of the non-negative double of `n` ticks: each halving on the way to a
/// significand of 53 bits is a step of the exponent.
pub open spec fn pattern(n: nat) -> nat
    decreases n,
{
    if n == 0 {
        0
    } else if n < SIGNIFICAND_END {
        1008 * EXPONENT_STEP as nat + n
    } else {
        EXPONENT_STEP as nat + pattern(n / 2)
    }
}

/// A pattern is put together from the number of halvings and from the significand.
proof fn lemma_pattern_parts(n: nat)
    requires
        n > 0,
    ensures
        pattern(n) == (1008 + doublings(n)) * EXPONENT_STEP as nat + n / quantum(n),
    decreases n,
{
    if n >= SIGNIFICAND_END {
        let q = quantum(n / 2);
        lemma_pattern_parts(n / 2);
        lemma_quantum_is_power(n / 2);
        lemma_div_denominator(n as int, 2, q as int);
        assert(n / quantum(n) == (n / 2) / q);
    } else {
        assert(n / 1 == n);
    }
}

/// Numbers below eight are doubled at most sixteen times.
proof fn lemma_doublings_bound(n: nat)
    requires
        n < 8 * TICKS_PER_UNIT,
    ensures
        doublings(n) <= 16,
{
    reveal_with_fuel(doublings, 17);
}

/// The fields of a non-negative pattern put it together.
proof fn lemma_fields(b: Binary64)
    requires
        !b.negative(),
    ensures
        b.bits == b.exponent() * EXPONENT_STEP + b.fraction(),
        b.fraction() < EXPONENT_STEP,
        b.exponent() < 2048,
{
    lemma_fundamental_div_mod(b.bits as int, EXPONENT_STEP as int);
}

/// Patterns name values: the pattern of `n` ticks is that of a positive double with
/// the value `n`.
pub proof fn law_pattern_has_its_value(n: nat)
    requires
        representable(n),
        SIGNIFICAND_START <= n < 8 * TICKS_PER_UNIT,
    ensures
        pattern(n) < SIGN,
        (Binary64 { bits: pattern(n) as u64 }).moderate(),
        (Binary64 { bits: pattern(n) as u64 }).ticks() == n,
{
    let b = Binary64 { bits: pattern(n) as u64 };
    let k = doublings(n);
    let u = quantum(n);
    lemma_doublings_bound(n);
    lemma_pattern_parts(n);
    lemma_representable_is_multiple(n);
    lemma_quantum_is_power(n);
    lemma_quantum_bounds(n);
    let m = n / u;
    lemma_fundamental_div_mod(n as int, u as int);
    assert(u * m == m * u) by (nonlinear_arith);
    assert(SIGNIFICAND_START <= m) by (nonlinear_arith)
        requires
            m == n / u,
            SIGNIFICAND_START * u <= n,
            u >= 1,
    ;
    assert(m < SIGNIFICAND_END) by (nonlinear_arith)
        requires
            m == n / u,
            n < SIGNIFICAND_END * u,
            u >= 1,
    ;
    let f = (m - EXPONENT_STEP) as nat;
    lemma_fundamental_div_mod_converse(b.bits as int, EXPONENT_STEP as int, (1009 + k) as int, f as int);
}

/// Values name patterns: a number between 2^-14 and eight is the pattern of its ticks,
/// and these are representable.
pub proof fn law_value_has_its_pattern(b: Binary64)
    requires
        b.moderate(),
    ensures
        representable(b.ticks()),
        SIGNIFICAND_START <= b.ticks() < 8 * TICKS_PER_UNIT,
        pattern(b.ticks()) == b.bits,
{
    lemma_fields(b);
    let m = EXPONENT_STEP as nat + b.fraction();
    let k = (b.exponent() - FIRST_EXPONENT) as nat;
    lemma_pow2_pos(k);
    lemma_scaled_representable(m, k);
    lemma_doublings_of_scaled(m, k);
    lemma_div_by_multiple(m as int, pow2(k) as int);
    lemma2_to64();
    if k < 16 {
        lemma_pow2_strictly_increases(k, 16);
    }
    assert(m * pow2(k) < 0x20_0000_0000_0000 * 0x1_0000) by (nonlinear_arith)
        requires
            m < 0x20_0000_0000_0000,
            pow2(k) <= 0x1_0000,
            pow2(k) > 0,
    ;
    assert(m * pow2(k) >= m) by (nonlinear_arith)
        requires
            pow2(k) >= 1,
    ;
    lemma_pattern_parts(b.ticks());
}

/// A number from 2^-14 upwards has 2^1008 units of the least double to a tick.
pub proof fn law_ticks_measure_magnitude(b: Binary64)
    requires
        b.moderate(),
    ensures
        b.magnitude() == b.ticks() * pow2(1008),
{
    let m = EXPONENT_STEP as nat + b.fraction();
    let k = (b.exponent() - FIRST_EXPONENT) as nat;
    lemma_pow2_adds(k, 1008);
    assert(m * (pow2(k) * pow2(1008)) == (m * pow2(k)) * pow2(1008)) by (nonlinear_arith);
}

/// A pattern one exponent step further up never has a smaller magnitude than the end
/// of the step below it.
proof fn lemma_exponent_orders(a: Binary64, b: Binary64)
    requires
        a.exponent() < b.exponent(),
    ensures
        a.magnitude() < b.magnitude(),
{
    let s = EXPONENT_STEP as nat;
    let p = pow2((b.exponent() - 1) as nat);
    lemma_pow2_pos((b.exponent() - 1) as nat);
    assert(s * p <= (s + b.fraction()) * p) by (nonlinear_arith)
        requires
            p > 0,
    ;
    if a.exponent() == 0 {
        assert(s <= s * p) by (nonlinear_arith)
            requires
                p >= 1,
        ;
    } else {
        let q = pow2((a.exponent() - 1) as nat);
        lemma_pow2_pos((a.exponent() - 1) as nat);
        lemma_pow2_unfold(a.exponent());
        if a.exponent() < b.exponent() - 1 {
            lemma_pow2_strictly_increases(
                a.exponent(),
                (b.exponent() - 1) as nat,
            );
        }
        assert(2 * q <= p);
        assert((s + a.fraction()) * q < (2 * s) * q) by (nonlinear_arith)
            requires
                a.fraction() < s,
                q > 0,
        ;
        assert((2 * s) * q == s * (2 * q)) by (nonlinear_arith);
        assert(s * (2 * q) <= s * p) by (nonlinear_arith)
            requires
                2 * q <= p,
        ;
    }
}

/// Within one exponent step the fraction decides.
proof fn lemma_fraction_orders(a: Binary64, b: Binary64)
    requires
        a.exponent() == b.exponent(),
        a.fraction() < b.fraction(),
    ensures
        a.magnitude() < b.magnitude(),
{
    if a.exponent() != 0 {
        let s = EXPONENT_STEP as nat;
        let p = pow2((a.exponent() - 1) as nat);
        lemma_pow2_pos((a.exponent() - 1) as nat);
        assert((s + a.fraction()) * p < (s + b.fraction()) * p) by (nonlinear_arith)
            requires
                a.fraction() < b.fraction(),
                p > 0,
        ;
    }
}

/// Non-negative doubles are ordered as their bit patterns are.
pub proof fn law_patterns_order_values(a: Binary64, b: Binary64)
    requires
        !a.negative(),
        !b.negative(),
    ensures
        a.bits < b.bits <==> a.magnitude() < b.magnitude(),
        a.bits == b.bits <==> a.magnitude() == b.magnitude(),
{
    lemma_fields(a);
    lemma_fields(b);
    if a.exponent() < b.exponent() {
        lemma_exponent_orders(a, b);
    } else if b.exponent() < a.exponent() {
        lemma_exponent_orders(b, a);
    } else if a.fraction() < b.fraction() {
        lemma_fraction_orders(a, b);
    } else if b.fraction() < a.fraction() {
        lemma_fraction_orders(b, a);
    }
}

/// The three fields make up the pattern, whatever the pattern is, and each of them
/// keeps to its bits.
pub proof fn law_fields_make_up_the_pattern(b: Binary64)
    ensures
        b.bits == b.exponent() * 0x10_0000_0000_0000 + b.fraction() + if b.negative() {
            0x8000_0000_0000_0000int
        } else {
            0int
        },
        b.fraction() < 0x10_0000_0000_0000,
        b.exponent() < 2048,
{
    lemma_fundamental_div_mod(b.bits as int, EXPONENT_STEP as int);
}

} // verus!
