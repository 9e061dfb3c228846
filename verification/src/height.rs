//! Heights and speeds: what the numbers that a desk reports stand for, which
//! heights it may be sent to, and the number that names such a height to it.
//!
//! The desk counts in tenths of a millimetre above its lowest position, and its
//! speed in tenths of a millimetre per second. People count in metres above the
//! floor, as doubles.
use vstd::arithmetic::div_mod::lemma_mod_multiples_basic;
use vstd::arithmetic::power2::{lemma2_to64, lemma_pow2_adds, lemma_pow2_pos, pow2};
use vstd::math::abs;
use vstd::prelude::*;

use crate::binary64::{
    law_pattern_has_its_value, law_patterns_order_values, law_ticks_measure_magnitude,
    law_value_has_its_pattern, pattern, Binary64, SIGN, TICKS_PER_UNIT,
};
use crate::rounding::{
    distance, doublings, law_rounded_is_nearest, law_rounding_is_monotone,
    law_rounding_keeps_representable,
    lemma_quantum_at_most, lemma_quantum_is_power, lemma_representable_is_multiple,
    lemma_rounded_error, lemma_rounded_representable, lemma_rounded_stays_normal,
    nearest, nearest_integer, quantum, representable, round_quotient, rounded, SIGNIFICAND_START,
};

verus! {

/// The lowest height that a desk can be sent to, 0.62 m, as the pattern of a double.
pub const IDASEN_MIN_HEIGHT: u64 = 0x3fe3_d70a_3d70_a3d7;

/// The greatest height that a desk can be sent to, 1.27 m, as the pattern of a double.
pub const IDASEN_MAX_HEIGHT: u64 = 0x3ff4_51eb_851e_b852;

/// The lowest height in ticks.
pub const MIN_TICKS: u128 = 0x2_7ae1_47ae_147a_e000;

/// The greatest height in ticks.
pub const MAX_TICKS: u128 = 0x5_147a_e147_ae14_8000;

/// The distance at which two heights count as the same no more, 0.001 m, in ticks.
pub const TOLERANCE_TICKS: u128 = 0x106_24dd_2f1a_9fc0;

/// How many of the desk's units make up a metre.
pub const STEPS_PER_METER: u128 = 10000;

/// The height above the floor, in ticks, that the desk reports as `raw`:
/// `raw / 10000 + 0.62`, each operation rounded.
pub open spec fn height_ticks(raw: u16) -> nat {
    rounded(
        rounded(raw as nat * TICKS_PER_UNIT as nat, STEPS_PER_METER as nat) + MIN_TICKS as nat,
        1,
    )
}

/// The absolute value, in ticks, of the speed that the desk reports as `raw`:
/// `raw / 10000`, rounded.
pub open spec fn speed_ticks(raw: i16) -> nat {
    let steps: nat = if raw < 0 {
        (-raw) as nat
    } else {
        raw as nat
    };
    rounded(steps * TICKS_PER_UNIT as nat, STEPS_PER_METER as nat)
}

/// The double that [`height_from_raw`] returns.
pub open spec fn decoded_height(raw: u16) -> Binary64 {
    Binary64 { bits: pattern(height_ticks(raw)) as u64 }
}

/// The double that [`speed_from_raw`] returns.
pub open spec fn decoded_speed(raw: i16) -> Binary64 {
    Binary64 {
        bits: (pattern(speed_ticks(raw)) + if raw < 0 {
            SIGN as nat
        } else {
            0
        }) as u64,
    }
}

/// Whether a desk may be sent to the height `target`.
pub open spec fn allowed(target: Binary64) -> bool {
    IDASEN_MIN_HEIGHT <= target.bits <= IDASEN_MAX_HEIGHT
}

/// Whether two heights, given in ticks, count as the same: the absolute value of
/// their rounded difference is below the tolerance.
pub open spec fn close(a: nat, b: nat) -> bool {
    rounded(
        if a <= b {
            (b - a) as nat
        } else {
            (a - b) as nat
        },
        1,
    ) < TOLERANCE_TICKS
}

/// The number by which the desk knows the height `target`: the whole part of
/// `(target - 0.62) * 10000`, each operation rounded.
pub open spec fn raw_of(target: Binary64) -> nat {
    rounded(
        rounded((target.ticks() - MIN_TICKS) as nat, 1) * STEPS_PER_METER as nat,
        1,
    ) / TICKS_PER_UNIT as nat
}

/// Rounding a quotient below eight errs by at most 2^15 ticks.
proof fn lemma_error_below_eight(n: nat, d: nat)
    requires
        d > 0,
        n / d < 8 * TICKS_PER_UNIT,
    ensures
        distance(rounded(n, d), n, d) <= d * 0x8000,
{
    lemma2_to64();
    lemma_quantum_at_most(n / d, 16);
    lemma_rounded_error(n, d);
    let u = quantum(n / d);
    assert(d * u <= d * 0x1_0000) by (nonlinear_arith)
        requires
            u <= 0x1_0000,
    ;
}

/// Where a division by 10000 of a reported number ends up.
proof fn lemma_division_bounds(raw: nat)
    requires
        raw <= 0xffff,
    ensures
        ({
            let q = rounded(raw * TICKS_PER_UNIT as nat, STEPS_PER_METER as nat);
            &&& raw * TICKS_PER_UNIT - 10000 * 0x8000 <= q * 10000
            &&& q * 10000 <= raw * TICKS_PER_UNIT + 10000 * 0x8000
            &&& representable(q)
            &&& raw > 0 ==> q >= SIGNIFICAND_START
            &&& raw == 0 ==> q == 0
        }),
{
    let n = raw * TICKS_PER_UNIT as nat;
    lemma_error_below_eight(n, STEPS_PER_METER as nat);
    lemma_rounded_representable(n, STEPS_PER_METER as nat);
    if raw > 0 {
        lemma_rounded_stays_normal(n, STEPS_PER_METER as nat);
    } else {
        assert(n / 10000 == 0);
        assert(nearest_integer(0, 10000 * 1) * 1 == 0);
    }
}

/// Where a decoded height ends up.
proof fn lemma_height_bounds(raw: u16)
    ensures
        representable(height_ticks(raw)),
        SIGNIFICAND_START <= height_ticks(raw) < 8 * TICKS_PER_UNIT,
        raw * TICKS_PER_UNIT + (MIN_TICKS - 0x1_0000) * 10000 <= height_ticks(raw) * 10000,
        height_ticks(raw) * 10000 <= raw * TICKS_PER_UNIT + (MIN_TICKS + 0x1_0000) * 10000,
{
    lemma_division_bounds(raw as nat);
    let q = rounded(raw as nat * TICKS_PER_UNIT as nat, STEPS_PER_METER as nat);
    let n = q + MIN_TICKS as nat;
    assert(n / 1 == n);
    lemma_error_below_eight(n, 1);
    lemma_rounded_representable(n, 1);
    assert(rounded(n, 1) * 1 == rounded(n, 1));
}

/// The height above the floor that the desk reports as `raw`.
pub fn height_from_raw(raw: u16) -> (h: Binary64)
    ensures
        h.bits == pattern(height_ticks(raw)),
        h == decoded_height(raw),
{
    proof {
        lemma_division_bounds(raw as nat);
        lemma_height_bounds(raw);
    }
    let above: u128 = round_quotient(raw as u128 * TICKS_PER_UNIT, STEPS_PER_METER);
    let sum: u128 = round_quotient(above + MIN_TICKS, 1);
    Binary64::from_ticks(sum, false)
}

/// The speed that the desk reports as `raw`.
pub fn speed_from_raw(raw: i16) -> (v: Binary64)
    ensures
        v.bits == pattern(speed_ticks(raw)) + if raw < 0 {
            SIGN as nat
        } else {
            0
        },
        v == decoded_speed(raw),
{
    let steps: u128 = if raw < 0 {
        (-(raw as i32)) as u128
    } else {
        raw as u128
    };
    proof {
        lemma_division_bounds(steps as nat);
    }
    let ticks: u128 = round_quotient(steps * TICKS_PER_UNIT, STEPS_PER_METER);
    Binary64::from_ticks(ticks, raw < 0)
}

/// Whether a desk may be sent to the height `target`.
pub fn is_allowed(target: Binary64) -> (r: bool)
    ensures
        r == allowed(target),
{
    IDASEN_MIN_HEIGHT <= target.bits && target.bits <= IDASEN_MAX_HEIGHT
}

/// The limits are what their tick counts say.
proof fn lemma_limits()
    ensures
        (Binary64 { bits: IDASEN_MIN_HEIGHT }).moderate(),
        (Binary64 { bits: IDASEN_MIN_HEIGHT }).ticks() == MIN_TICKS,
        (Binary64 { bits: IDASEN_MAX_HEIGHT }).moderate(),
        (Binary64 { bits: IDASEN_MAX_HEIGHT }).ticks() == MAX_TICKS,
{
    lemma2_to64();
    let low = Binary64 { bits: IDASEN_MIN_HEIGHT };
    let high = Binary64 { bits: IDASEN_MAX_HEIGHT };
    assert(low.exponent() == 1022);
    assert(high.exponent() == 1023);
    assert(pow2((low.exponent() - 1009) as nat) == 0x2000);
    assert(pow2((high.exponent() - 1009) as nat) == 0x4000);
}

/// Allowed heights are those from 0.62 m to 1.27 m: of all bit patterns, just those
/// that stand for a number whose value lies between those of the limits. Such a number
/// lies between 2^-14 and eight, and there its value in ticks decides as well.
pub proof fn law_allowed_is_between_limits(target: Binary64)
    ensures
        ({
            let low = Binary64 { bits: IDASEN_MIN_HEIGHT };
            let high = Binary64 { bits: IDASEN_MAX_HEIGHT };
            allowed(target) <==> target.finite() && low.value() <= target.value() <= high.value()
        }),
        allowed(target) ==> target.moderate(),
        target.moderate() ==> (allowed(target) <==> MIN_TICKS <= target.ticks() <= MAX_TICKS),
{
    let low = Binary64 { bits: IDASEN_MIN_HEIGHT };
    let high = Binary64 { bits: IDASEN_MAX_HEIGHT };
    let zero = Binary64 { bits: 0 };
    law_patterns_order_values(zero, low);
    if !target.negative() {
        law_patterns_order_values(low, target);
        law_patterns_order_values(high, target);
    }
    if allowed(target) {
        assert(target.exponent() == 1022 || target.exponent() == 1023);
    }
    if target.moderate() {
        lemma_limits();
        law_ticks_measure_magnitude(low);
        law_ticks_measure_magnitude(high);
        law_ticks_measure_magnitude(target);
        lemma_pow2_pos(1008);
        lemma_scale_orders(low.ticks(), target.ticks(), pow2(1008));
        lemma_scale_orders(target.ticks(), high.ticks(), pow2(1008));
    }
}

/// A positive factor keeps the order.
proof fn lemma_scale_orders(a: nat, b: nat, f: nat)
    requires
        f > 0,
    ensures
        a <= b <==> a * f <= b * f,
{
    if a <= b {
        assert(a * f <= b * f) by (nonlinear_arith)
            requires
                a <= b,
        ;
    } else {
        assert(a * f > b * f) by (nonlinear_arith)
            requires
                a > b,
                f > 0,
        ;
    }
}

/// Whether the desk, reporting `raw`, already is where `target` would send it.
pub fn is_close(raw: u16, target: Binary64) -> (r: bool)
    requires
        allowed(target),
    ensures
        r == close(height_ticks(raw), target.ticks()),
{
    proof {
        lemma_height_bounds(raw);
        law_pattern_has_its_value(height_ticks(raw));
        law_allowed_is_between_limits(target);
    }
    let here: u128 = height_from_raw(raw).to_ticks();
    let there: u128 = target.to_ticks();
    let apart: u128 = if here <= there {
        there - here
    } else {
        here - there
    };
    round_quotient(apart, 1) < TOLERANCE_TICKS
}

/// The speed is zero, as a double, exactly where the desk reports a zero.
pub proof fn law_zero_speed_is_zero_report(raw: i16)
    ensures
        speed_ticks(raw) == 0 <==> raw == 0,
        pattern(speed_ticks(raw)) == 0 <==> raw == 0,
        pattern(speed_ticks(raw)) < SIGN,
{
    let steps: nat = if raw < 0 {
        (-raw) as nat
    } else {
        raw as nat
    };
    lemma_division_bounds(steps);
    if raw != 0 {
        law_pattern_has_its_value(speed_ticks(raw));
    }
}

/// A decoded speed is `raw / 10000` metres per second, up to 2^-51 metres per second,
/// and has the sign of `raw`.
pub proof fn law_decoded_speed_is_accurate(raw: i16)
    ensures
        ({
            let steps: int = if raw < 0 {
                -raw
            } else {
                raw as int
            };
            &&& steps * TICKS_PER_UNIT - 10000 * 0x8000 <= speed_ticks(raw) * 10000
            &&& speed_ticks(raw) * 10000 <= steps * TICKS_PER_UNIT + 10000 * 0x8000
        }),
        decoded_speed(raw).negative() <==> raw < 0,
        raw > 0 ==> decoded_speed((-raw) as i16).bits == decoded_speed(raw).bits + SIGN,
{
    law_zero_speed_is_zero_report(raw);
    let steps: nat = if raw < 0 {
        (-raw) as nat
    } else {
        raw as nat
    };
    lemma_division_bounds(steps);
}

/// A decoded speed has the value that its tick count gives, with the sign of `raw`.
pub proof fn law_decoded_speed_has_its_value(raw: i16)
    ensures
        decoded_speed(raw).finite(),
        decoded_speed(raw).value() == if raw < 0 {
            -(speed_ticks(raw) * pow2(1008))
        } else {
            (speed_ticks(raw) * pow2(1008)) as int
        },
{
    law_zero_speed_is_zero_report(raw);
    let steps: nat = if raw < 0 {
        (-raw) as nat
    } else {
        raw as nat
    };
    lemma_division_bounds(steps);
    if raw == 0 {
        assert(speed_ticks(raw) * pow2(1008) == 0) by (nonlinear_arith)
            requires
                speed_ticks(raw) == 0,
        ;
    } else {
        law_pattern_has_its_value(speed_ticks(raw));
        let positive = Binary64 { bits: pattern(speed_ticks(raw)) as u64 };
        law_ticks_measure_magnitude(positive);
        assert(decoded_speed(raw).exponent() == positive.exponent());
        assert(decoded_speed(raw).fraction() == positive.fraction());
    }
}

/// Of two reported speeds the greater has the greater value; speeds downwards are
/// negative.
pub proof fn law_decoded_speeds_grow(a: i16, b: i16)
    requires
        a < b,
    ensures
        decoded_speed(a).value() < decoded_speed(b).value(),
{
    law_decoded_speed_has_its_value(a);
    law_decoded_speed_has_its_value(b);
    law_decoded_speed_is_accurate(a);
    law_decoded_speed_is_accurate(b);
    let x: int = if a < 0 {
        -speed_ticks(a)
    } else {
        speed_ticks(a) as int
    };
    let y: int = if b < 0 {
        -speed_ticks(b)
    } else {
        speed_ticks(b) as int
    };
    let scale = pow2(1008);
    lemma_pow2_pos(1008);
    assert(x < y);
    assert(x * scale < y * scale) by (nonlinear_arith)
        requires
            x < y,
            scale > 0,
    ;
    let p = speed_ticks(a);
    let q = speed_ticks(b);
    assert((-p) * scale == -(p * scale)) by (nonlinear_arith);
    assert((-q) * scale == -(q * scale)) by (nonlinear_arith);
}

/// The distance of an allowed height from the lowest one is exact.
proof fn lemma_difference_exact(target: Binary64)
    requires
        allowed(target),
    ensures
        MIN_TICKS <= target.ticks() <= MAX_TICKS,
        rounded((target.ticks() - MIN_TICKS) as nat, 1) == target.ticks() - MIN_TICKS,
{
    law_allowed_is_between_limits(target);
    lemma2_to64();
    let m = 0x10_0000_0000_0000 + target.fraction();
    let d = (target.ticks() - MIN_TICKS) as nat;
    assert(target.exponent() == 1022 || target.exponent() == 1023);
    if target.exponent() == 1022 {
        assert(pow2((target.exponent() - 1009) as nat) == 0x2000);
        assert(target.ticks() == m * 0x2000);
    } else {
        assert(pow2((target.exponent() - 1009) as nat) == 0x4000);
        assert(target.ticks() == m * 0x4000);
    }
    assert(d % 0x2000 == 0);
    lemma_quantum_at_most(d, 13);
    lemma_quantum_is_power(d);
    let k = doublings(d);
    let f = pow2((13 - k) as nat);
    lemma_pow2_adds(k, (13 - k) as nat);
    let x = d / 0x2000;
    assert(d == (x * f) * quantum(d)) by (nonlinear_arith)
        requires
            d == x * 0x2000,
            quantum(d) * f == 0x2000,
    ;
    lemma_mod_multiples_basic((x * f) as int, quantum(d) as int);
    lemma_representable_is_multiple(d);
    law_rounding_keeps_representable(d);
}

/// Rounding the product of an allowed height errs by at most 2^25 ticks.
proof fn lemma_product_error(n: nat)
    requires
        n < 8192 * TICKS_PER_UNIT,
    ensures
        n <= rounded(n, 1) + 0x200_0000,
        rounded(n, 1) <= n + 0x200_0000,
{
    lemma2_to64();
    assert(n / 1 == n);
    lemma_quantum_at_most(n, 26);
    lemma_rounded_error(n, 1);
    assert(rounded(n, 1) * 1 == rounded(n, 1));
}

/// The number by which the desk knows the height `target`.
pub fn target_raw(target: Binary64) -> (raw: u16)
    requires
        allowed(target),
    ensures
        raw == raw_of(target),
{
    proof {
        law_allowed_is_between_limits(target);
        lemma_difference_exact(target);
        lemma_product_error(((target.ticks() - MIN_TICKS) * 10000) as nat);
    }
    let above: u128 = round_quotient(target.to_ticks() - MIN_TICKS, 1);
    let product: u128 = round_quotient(above * STEPS_PER_METER, 1);
    (product / TICKS_PER_UNIT) as u16
}

/// A decoded height is a positive double with the value that its tick count gives.
pub proof fn law_decoded_height_has_its_value(raw: u16)
    ensures
        decoded_height(raw).moderate(),
        decoded_height(raw).ticks() == height_ticks(raw),
        decoded_height(raw).bits == pattern(height_ticks(raw)),
{
    lemma_height_bounds(raw);
    law_pattern_has_its_value(height_ticks(raw));
}

/// A decoded height is `(raw + 6200) / 10000` metres, up to 2^-49 of a metre.
pub proof fn law_decoded_height_is_accurate(raw: u16)
    ensures
        (raw + 6200) * TICKS_PER_UNIT - 10000 * 0x2_0000 <= height_ticks(raw) * 10000,
        height_ticks(raw) * 10000 <= (raw + 6200) * TICKS_PER_UNIT + 10000 * 0x2_0000,
{
    lemma_height_bounds(raw);
}

/// A desk that reports a greater number stands higher.
pub proof fn law_decoded_heights_grow(a: u16, b: u16)
    requires
        a < b,
    ensures
        height_ticks(a) < height_ticks(b),
{
    lemma_height_bounds(a);
    lemma_height_bounds(b);
}

/// The height that a desk reports is one it may be sent to exactly where the number
/// that it reports is at most 6500.
pub proof fn law_allowed_reports(raw: u16)
    ensures
        allowed(decoded_height(raw)) <==> raw <= 6500,
{
    lemma_height_bounds(raw);
    law_decoded_height_has_its_value(raw);
    law_allowed_is_between_limits(decoded_height(raw));
    if raw == 0 {
        lemma_division_bounds(0);
        lemma_limits();
        law_value_has_its_pattern(Binary64 { bits: IDASEN_MIN_HEIGHT });
        law_rounding_keeps_representable(MIN_TICKS as nat);
    } else if raw == 6500 {
        assert(height_ticks(6500) == MAX_TICKS) by {
            reveal_with_fuel(rounded, 15);
        }
    }
}

/// The number that names a height to the desk is at most 6500, and it is the whole
/// part of the exact `(target - 0.62) * 10000`, up to the rounding of that product.
pub proof fn law_target_number_is_accurate(target: Binary64)
    requires
        allowed(target),
    ensures
        raw_of(target) <= 6500,
        raw_of(target) * TICKS_PER_UNIT <= (target.ticks() - MIN_TICKS) * 10000 + 0x200_0000,
        (target.ticks() - MIN_TICKS) * 10000 < (raw_of(target) + 1) * TICKS_PER_UNIT + 0x200_0000,
{
    lemma_difference_exact(target);
    lemma_product_error(((target.ticks() - MIN_TICKS) * 10000) as nat);
}

/// Of two allowed heights the greater has no smaller number.
pub proof fn law_target_numbers_grow(a: Binary64, b: Binary64)
    requires
        allowed(a),
        allowed(b),
        a.bits <= b.bits,
    ensures
        raw_of(a) <= raw_of(b),
{
    lemma_difference_exact(a);
    lemma_difference_exact(b);
    law_allowed_is_between_limits(a);
    law_allowed_is_between_limits(b);
    law_patterns_order_values(a, b);
    law_ticks_measure_magnitude(a);
    law_ticks_measure_magnitude(b);
    lemma_pow2_pos(1008);
    lemma_scale_orders(a.ticks(), b.ticks(), pow2(1008));
    law_rounding_is_monotone(
        ((a.ticks() - MIN_TICKS) * 10000) as nat,
        ((b.ticks() - MIN_TICKS) * 10000) as nat,
    );
}

/// Sent to the height that it reported as `raw`, a desk is given that number again,
/// or the one below it.
pub proof fn law_reported_height_names_its_number(raw: u16)
    requires
        raw <= 6500,
    ensures
        raw_of(decoded_height(raw)) <= raw <= raw_of(decoded_height(raw)) + 1,
{
    law_allowed_reports(raw);
    law_decoded_height_has_its_value(raw);
    lemma_height_bounds(raw);
    law_target_number_is_accurate(decoded_height(raw));
}

/// Rounding a difference of heights hardly changes it.
proof fn lemma_difference_error(n: nat)
    requires
        n < 8 * TICKS_PER_UNIT,
    ensures
        n <= rounded(n, 1) + 0x8000,
        rounded(n, 1) <= n + 0x8000,
{
    assert(n / 1 == n);
    lemma_error_below_eight(n, 1);
    assert(rounded(n, 1) * 1 == rounded(n, 1));
}

/// Reports that differ by less than ten count as the same height; reports that
/// differ by more than ten do not.
pub proof fn law_close_reports(a: u16, b: u16)
    ensures
        -10 < a - b < 10 ==> close(height_ticks(a), height_ticks(b)),
        a - b > 10 || b - a > 10 ==> !close(height_ticks(a), height_ticks(b)),
{
    lemma_height_bounds(a);
    lemma_height_bounds(b);
    let x = height_ticks(a);
    let y = height_ticks(b);
    if x <= y {
        lemma_difference_error((y - x) as nat);
    } else {
        lemma_difference_error((x - y) as nat);
    }
}

/// A desk that has come to report the number it was given counts as having arrived.
pub proof fn law_arrival_is_close(target: Binary64)
    requires
        allowed(target),
    ensures
        close(height_ticks(raw_of(target) as u16), target.ticks()),
{
    law_target_number_is_accurate(target);
    lemma_difference_exact(target);
    let x = height_ticks(raw_of(target) as u16);
    let y = target.ticks();
    lemma_height_bounds(raw_of(target) as u16);
    if x <= y {
        lemma_difference_error((y - x) as nat);
    } else {
        lemma_difference_error((x - y) as nat);
    }
}

/// A decoded height is what doubles give for `raw / 10000 + 0.62`: the double nearest to
/// the sum of 0.62 and of the double that is nearest to the quotient.
pub proof fn law_decoded_height_is_a_sum_of_doubles(raw: u16)
    ensures
        decoded_height(raw).moderate(),
        exists|quotient: nat|
            {
                &&& #[trigger] nearest(quotient, raw as nat * TICKS_PER_UNIT as nat, 10000)
                &&& nearest(decoded_height(raw).ticks(), quotient + MIN_TICKS as nat, 1)
            },
{
    let n = raw as nat * TICKS_PER_UNIT as nat;
    let quotient = rounded(n, 10000);
    law_decoded_height_has_its_value(raw);
    law_rounded_is_nearest(n, 10000);
    law_rounded_is_nearest(quotient + MIN_TICKS as nat, 1);
    assert(nearest(quotient, n, 10000));
}

/// A decoded speed is what doubles give for `raw / 10000`: the nearest double, of which
/// the sign is that of `raw`.
pub proof fn law_decoded_speed_is_a_quotient_of_doubles(raw: i16)
    ensures
        decoded_speed(raw).finite(),
        decoded_speed(raw).negative() <==> raw < 0,
        exists|quotient: nat|
            {
                &&& #[trigger] nearest(quotient, abs(raw as int) * TICKS_PER_UNIT as nat, 10000)
                &&& decoded_speed(raw).magnitude() == quotient * pow2(1008)
            },
{
    let n = abs(raw as int) * TICKS_PER_UNIT as nat;
    law_decoded_speed_has_its_value(raw);
    law_decoded_speed_is_accurate(raw);
    law_rounded_is_nearest(n, 10000);
    assert(nearest(speed_ticks(raw), n, 10000));
}

/// Two heights count as the same exactly where the double nearest to their distance is
/// below that of 0.001.
pub proof fn law_close_heights_differ_by_less_than_the_tolerance(a: nat, b: nat)
    ensures
        exists|apart: nat| #[trigger]
            nearest(apart, abs(a - b), 1) && (close(a, b) <==> apart < TOLERANCE_TICKS),
{
    let n = abs(a - b);
    law_rounded_is_nearest(n, 1);
    assert(nearest(rounded(n, 1), n, 1));
}

/// The number that names a height to the desk is the whole part of what doubles give
/// for `(target - 0.62) * 10000`: of the double nearest to the product of 10000 and of
/// the double that is nearest to the difference.
pub proof fn law_target_number_is_the_whole_part(target: Binary64)
    requires
        allowed(target),
    ensures
        exists|difference: nat, product: nat|
            {
                &&& #[trigger] nearest(difference, (target.ticks() - MIN_TICKS) as nat, 1)
                &&& #[trigger] nearest(product, difference * 10000, 1)
                &&& raw_of(target) * TICKS_PER_UNIT <= product < (raw_of(target) + 1)
                    * TICKS_PER_UNIT
            },
        raw_of(target) as u16 == raw_of(target),
{
    let n = (target.ticks() - MIN_TICKS) as nat;
    let difference = rounded(n, 1);
    let product = rounded(difference * 10000, 1);
    law_target_number_is_accurate(target);
    law_rounded_is_nearest(n, 1);
    law_rounded_is_nearest(difference * 10000, 1);
    assert(nearest(difference, n, 1));
    assert(nearest(product, difference * 10000, 1));
}

} // verus!
