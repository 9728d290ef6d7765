//! Bounded changes of a level: a step of 0.02 down, or up where there is no room
//! below, and the tolerance of 0.001 with which two levels count as the same.

use vstd::arithmetic::power2;
use vstd::prelude::*;

use crate::float_bits;
use crate::json::{JsonNumber, NumberKind};
use crate::level;
use crate::value::Volume;

verus! {

/// The bits of the single 0.02.
pub const STEP: u32 = 0x3ca3_d70a;

/// The bits of the single 0.001.
pub const TOLERANCE: u32 = 0x3a83_126f;

/// The exact value that lies one step from a level, in units of 2^-149: below
/// it where the level is at least a step, else above it.
pub open spec fn stepped(level: u32) -> int {
    let value = float_bits::single_value(level);
    let step = float_bits::single_value(STEP);
    if value >= step {
        value - step
    } else {
        value + step
    }
}

/// Whether a level is the single nearest to the value one step from another
/// level.
pub open spec fn steps_to(level: u32, target: u32) -> bool {
    &&& stepped(level) >= 0
    &&& !float_bits::single_negative(target)
    &&& float_bits::rounds_to(
        (stepped(level) * power2::pow2(925)) as nat,
        float_bits::single_pattern(target),
    )
}

/// Whether a number, rounded to single precision, is this level, and the target
/// is the volume one step from it.
pub open spec fn bounded(number: NumberKind, level: u32, target: u32) -> bool {
    &&& level::number_narrows_to(number, level)
    &&& steps_to(level, target)
    &&& float_bits::single_in_unit(target)
}

/// The step in units of 2^-53 and of 2^-149.
proof fn lemma_step()
    ensures
        float_bits::single_magnitude(STEP as nat) == 10_737_418 * power2::pow2(120),
        float_bits::single_magnitude(STEP as nat) == 180_143_981_068_288 * power2::pow2(96),
        10_737_418 * power2::pow2(120) < power2::pow2(144),
        10_737_418 * power2::pow2(120) > 0,
{
    assert(STEP as nat / 0x80_0000 == 121);
    assert(STEP as nat % 0x80_0000 == 10_737_418 - 0x80_0000);
    power2::lemma2_to64();
    power2::lemma_pow2_adds(24, 96);
    power2::lemma_pow2_adds(24, 120);
    power2::lemma_pow2_pos(120);
}

/// A level has only one target.
proof fn lemma_target_is_unique(level: u32, a: u32, b: u32)
    requires
        steps_to(level, a),
        steps_to(level, b),
    ensures
        a == b,
{
    float_bits::law_rounding_is_unique(
        (stepped(level) * power2::pow2(925)) as nat,
        float_bits::single_pattern(a),
        float_bits::single_pattern(b),
    );
}

/// A level of at least 2.0 has no volume one step from it.
proof fn lemma_large_has_no_target(level: u32, target: u32)
    requires
        !float_bits::single_negative(level),
        0x4000_0000 <= float_bits::single_pattern(level) <= float_bits::SINGLE_INFINITY,
        steps_to(level, target),
    ensures
        !float_bits::single_in_unit(target),
{
    let pattern = float_bits::single_pattern(level);
    let one = float_bits::SINGLE_ONE as nat;
    lemma_step();
    float_bits::lemma_one_and_two();
    if pattern > 0x4000_0000 {
        float_bits::lemma_single_increases(0x4000_0000, pattern);
    }
    power2::lemma_pow2_unfold(150);
    power2::lemma_pow2_adds(5, 144);
    power2::lemma_pow2_adds(5, 126);
    power2::lemma2_to64();
    power2::lemma_pow2_strictly_increases(126, 144);
    let exact = stepped(level);
    let floor = float_bits::single_magnitude(one + 1);
    assert(exact >= floor);
    let scale = power2::pow2(925);
    assert(exact * scale >= floor * scale) by (nonlinear_arith)
        requires
            exact >= floor,
            scale >= 0,
    ;
    float_bits::lemma_rounds_no_lower(
        (exact * scale) as nat,
        one + 1,
        float_bits::single_pattern(target),
    );
    float_bits::lemma_unit_patterns(target);
}

/// A level further below zero than a step has no volume one step from it.
proof fn lemma_negative_has_no_target(level: u32, target: u32)
    requires
        float_bits::single_negative(level),
        STEP < float_bits::single_pattern(level) <= float_bits::SINGLE_INFINITY,
    ensures
        !steps_to(level, target),
{
    lemma_step();
    float_bits::lemma_single_increases(STEP as nat, float_bits::single_pattern(level));
}

/// A level that is less than half the distance between the step and its
/// neighbours leads to the step itself.
proof fn lemma_small_level(level: u32)
    requires
        float_bits::single_pattern(level) < 0x3080_0000,
    ensures
        steps_to(level, STEP),
{
    let pattern = float_bits::single_pattern(level);
    let step = STEP as nat;
    lemma_step();
    float_bits::lemma_below_grid();
    float_bits::lemma_single_increases(pattern, 0x3080_0000);
    float_bits::lemma_single_increases(pattern, step);
    float_bits::lemma_single_step(step);
    float_bits::lemma_single_step((step - 1) as nat);
    power2::lemma_pow2_unfold(120);
    power2::lemma_pow2_pos(925);
    let c = float_bits::single_magnitude(step) as int;
    let exact = stepped(level);
    let grid = power2::pow2(120) as int;
    let scale = power2::pow2(925) as int;
    assert((step - 1) as nat / 0x80_0000 == 121);
    assert(float_bits::single_magnitude((step - 1) as nat) == c - grid);
    assert(float_bits::single_magnitude(step + 1) == c + grid);
    assert(c - grid < 2 * exact - c && 2 * exact - c < c + grid);
    assert(2 * (exact * scale) > (c - grid) * scale + c * scale) by (nonlinear_arith)
        requires
            2 * exact > (c - grid) + c,
            scale > 0,
    ;
    assert(2 * (exact * scale) < (c + grid) * scale + c * scale) by (nonlinear_arith)
        requires
            2 * exact < (c + grid) + c,
            scale > 0,
    ;
}

/// The magnitude of a number of units of 2^-53.
proof fn lemma_units(level: u32, number: int)
    requires
        stepped(level) == number * power2::pow2(96),
    ensures
        stepped(level) * power2::pow2(925) == number * power2::pow2(1021),
{
    power2::lemma_pow2_adds(96, 925);
    let a = power2::pow2(96) as int;
    let b = power2::pow2(925) as int;
    assert((number * a) * b == number * (a * b)) by (nonlinear_arith);
}

/// Rounds a number of units of 2^-53 that lies one step from a level.
fn target_of(Ghost(level): Ghost<u32>, number: u64) -> (r: u32)
    requires
        number < 0x100_0000_0000_0000,
        stepped(level) == number * power2::pow2(96),
    ensures
        steps_to(level, r),
{
    proof {
        lemma_units(level, number as int);
        power2::lemma_pow2_pos(96);
        assert(number * power2::pow2(96) >= 0) by (nonlinear_arith);
    }
    if number == 0 {
        proof {
            float_bits::lemma_small_integers();
            assert(0 * power2::pow2(1021) == 0) by (nonlinear_arith);
        }
        return 0;
    }
    float_bits::round_scaled(number)
}

/// Returns the volume one step from a level, as bits, if there is one.
pub fn step(level: u32) -> (r: Option<u32>)
    requires
        float_bits::single_pattern(level) <= float_bits::SINGLE_INFINITY,
    ensures
        match r {
            Some(target) => steps_to(level, target) && float_bits::single_in_unit(target),
            None => forall|target: u32|
                !(#[trigger] steps_to(level, target) && float_bits::single_in_unit(target)),
        },
{
    let negative: bool = level >= float_bits::SINGLE_SIGN;
    let pattern: u32 = if negative {
        level - float_bits::SINGLE_SIGN
    } else {
        level
    };
    proof {
        lemma_step();
        if pattern > STEP {
            float_bits::lemma_single_increases(STEP as nat, pattern as nat);
        } else if pattern < STEP {
            float_bits::lemma_single_increases(pattern as nat, STEP as nat);
        }
    }
    if negative && pattern > STEP {
        proof {
            assert forall|target: u32| !(#[trigger] steps_to(level, target)) by {
                lemma_negative_has_no_target(level, target);
            }
        }
        return None;
    }
    if pattern >= 0x4000_0000 {
        proof {
            assert forall|target: u32|
                #[trigger] steps_to(level, target) implies !float_bits::single_in_unit(target) by {
                lemma_large_has_no_target(level, target);
            }
        }
        return None;
    }
    let target: u32 = if pattern < 0x3080_0000 {
        proof {
            lemma_small_level(level);
        }
        STEP
    } else {
        let units: u64 = float_bits::scaled_single(pattern);
        let least: u64 = 180_143_981_068_288;
        let ghost unit = power2::pow2(96) as int;
        proof {
            power2::lemma_pow2_pos(96);
            assert((units as int) * unit + least * unit == (units + least) * unit)
                by (nonlinear_arith);
            assert((units as int) * unit - least * unit == (units - least) * unit)
                by (nonlinear_arith);
            assert(least * unit - (units as int) * unit == (least - units) * unit)
                by (nonlinear_arith);
            lemma_order(units as int, least as int, unit);
        }
        if negative {
            target_of(Ghost(level), least - units)
        } else if pattern >= STEP {
            target_of(Ghost(level), units - least)
        } else {
            target_of(Ghost(level), units + least)
        }
    };
    if float_bits::is_unit_single(target) {
        Some(target)
    } else {
        proof {
            assert forall|other: u32|
                #[trigger] steps_to(level, other) implies !float_bits::single_in_unit(other) by {
                lemma_target_is_unique(level, target, other);
            }
        }
        None
    }
}

/// How far two levels are apart, in units of 2^-149.
pub open spec fn distance(a: u32, b: u32) -> nat {
    let x = float_bits::single_value(a);
    let y = float_bits::single_value(b);
    if x >= y {
        (x - y) as nat
    } else {
        (y - x) as nat
    }
}

/// Whether two levels count as different: their distance, rounded to single
/// precision, exceeds the tolerance. The midpoint between the tolerance and the
/// next single rounds up.
pub open spec fn differ(a: u32, b: u32) -> bool {
    2 * distance(a, b) >= float_bits::single_magnitude(TOLERANCE as nat)
        + float_bits::single_magnitude((TOLERANCE + 1) as nat)
}

/// Levels count as different exactly when the single that their distance rounds
/// to is greater than the tolerance.
pub proof fn law_tolerance_is_rounded(a: u32, b: u32, pattern: nat)
    requires
        float_bits::rounds_to((distance(a, b) * power2::pow2(925)) as nat, pattern),
    ensures
        differ(a, b) <==> pattern > TOLERANCE,
{
    let least = TOLERANCE as nat;
    let scale = power2::pow2(925) as int;
    power2::lemma_pow2_pos(925);
    let low = float_bits::single_magnitude(least) as int;
    let high = float_bits::single_magnitude(least + 1) as int;
    let apart = distance(a, b) as int;
    assert((2 * apart) * scale == 2 * (apart * scale)) by (nonlinear_arith);
    assert((low + high) * scale == low * scale + high * scale) by (nonlinear_arith);
    lemma_order(low + high, 2 * apart, scale);
    if pattern < least {
        float_bits::lemma_scaled_increases(pattern, least);
        float_bits::lemma_scaled_increases(pattern + 1, least + 1);
    } else if pattern > least + 1 {
        float_bits::lemma_scaled_increases(least + 1, pattern);
        float_bits::lemma_scaled_increases(least, (pattern - 1) as nat);
    }
}

/// The threshold of the tolerance in units of 2^-53.
proof fn lemma_tolerance()
    ensures
        float_bits::single_magnitude(TOLERANCE as nat) + float_bits::single_magnitude(
            (TOLERANCE + 1) as nat,
        ) == 2 * (9_007_200_206_848 * power2::pow2(96)),
        9_007_200_206_848 * power2::pow2(96) < power2::pow2(149),
{
    assert(TOLERANCE as nat / 0x80_0000 == 117);
    assert(TOLERANCE as nat % 0x80_0000 == 8_589_935 - 0x80_0000);
    float_bits::lemma_single_step(TOLERANCE as nat);
    power2::lemma2_to64();
    power2::lemma2_to64_rest();
    power2::lemma_pow2_adds(20, 96);
    power2::lemma_pow2_adds(53, 96);
    let unit = power2::pow2(116);
    assert(float_bits::single_magnitude(TOLERANCE as nat) == 8_589_935 * unit);
    assert(float_bits::single_magnitude((TOLERANCE + 1) as nat) == 8_589_935 * unit + unit);
}

/// Returns the value of a single below 2.0 in whole units of 2^-53, and whether
/// that is all of it.
fn whole_units(pattern: u32) -> (r: (u64, bool))
    requires
        pattern < 0x4000_0000,
    ensures
        r.0 * power2::pow2(96) <= float_bits::single_magnitude(pattern as nat),
        float_bits::single_magnitude(pattern as nat) < (r.0 + 1) * power2::pow2(96),
        r.1 <==> float_bits::single_magnitude(pattern as nat) == r.0 * power2::pow2(96),
        r.0 < 0x40_0000_0000_0000,
        pattern >= 0x3080_0000 ==> r.1,
        pattern < 0x3080_0000 ==> r.0 < 0x80_0000,
{
    let ghost unit = power2::pow2(96) as int;
    if pattern >= 0x3080_0000 {
        let units: u64 = float_bits::scaled_single(pattern);
        proof {
            power2::lemma_pow2_pos(96);
            assert((units + 1) * unit == units * unit + unit) by (nonlinear_arith);
        }
        return (units, true);
    }
    let exponent: u64 = (pattern / 0x80_0000) as u64;
    let fraction: u64 = (pattern % 0x80_0000) as u64;
    let significand: u64 = if exponent == 0 {
        fraction
    } else {
        0x80_0000 + fraction
    };
    let level: u64 = if exponent == 0 {
        1
    } else {
        exponent
    };
    let shift: u64 = 97 - level;
    let ghost low = power2::pow2((level - 1) as nat) as int;
    let ghost magnitude = float_bits::single_magnitude(pattern as nat) as int;
    proof {
        power2::lemma2_to64();
        power2::lemma_pow2_pos((level - 1) as nat);
        power2::lemma_pow2_adds(shift as nat, (level - 1) as nat);
        assert(significand * 1 == significand) by (nonlinear_arith);
        assert(magnitude == significand * low);
    }
    if shift >= 24 {
        proof {
            let step = power2::pow2(shift as nat) as int;
            if shift > 24 {
                power2::lemma_pow2_strictly_increases(24, shift as nat);
            }
            assert(significand * low < step * low) by (nonlinear_arith)
                requires
                    significand < step,
                    low > 0,
            ;
            assert(0 * unit == 0 && (0 + 1) * unit == unit) by (nonlinear_arith);
            assert(significand * low == 0 <==> significand == 0) by (nonlinear_arith)
                requires
                    low > 0,
            ;
        }
        return (0, significand == 0);
    }
    let step: u64 = float_bits::power_of_two(shift);
    proof {
        power2::lemma_pow2_unfold(shift as nat);
        power2::lemma_pow2_pos((shift - 1) as nat);
        vstd::arithmetic::div_mod::lemma_fundamental_div_mod(significand as int, step as int);
        let q = (significand / step) as int;
        let r = (significand % step) as int;
        let d = step as int;
        assert((d * q + r) * low == q * (d * low) + r * low) by (nonlinear_arith);
        assert((q + 1) * (d * low) == q * (d * low) + d * low) by (nonlinear_arith);
        assert(r * low < d * low && r * low >= 0) by (nonlinear_arith)
            requires
                0 <= r < d,
                low > 0,
        ;
        assert(r * low == 0 <==> r == 0) by (nonlinear_arith)
            requires
                low > 0,
        ;
        assert(q < 0x80_0000) by (nonlinear_arith)
            requires
                significand == d * q + r,
                significand < 0x100_0000,
                d >= 2,
                r >= 0,
        ;
    }
    (significand / step, significand % step == 0)
}

/// Decides whether a level counts as the same as a volume.
pub fn same_level(actual: u32, expected: u32) -> (r: bool)
    requires
        float_bits::single_pattern(actual) <= float_bits::SINGLE_INFINITY,
        float_bits::single_in_unit(expected),
    ensures
        r == !differ(actual, expected),
{
    let actual_negative: bool = actual >= float_bits::SINGLE_SIGN;
    let a: u32 = if actual_negative {
        actual - float_bits::SINGLE_SIGN
    } else {
        actual
    };
    let b: u32 = if expected >= float_bits::SINGLE_SIGN {
        0
    } else {
        expected
    };
    let ghost x = float_bits::single_magnitude(a as nat) as int;
    let ghost y = float_bits::single_magnitude(b as nat) as int;
    let ghost unit = power2::pow2(96) as int;
    let ghost threshold = 9_007_200_206_848 * unit;
    proof {
        float_bits::lemma_unit_patterns(expected);
        float_bits::lemma_one_and_two();
        lemma_tolerance();
        power2::lemma_pow2_pos(96);
        power2::lemma_pow2_unfold(150);
        if b < float_bits::SINGLE_ONE {
            float_bits::lemma_single_increases(b as nat, float_bits::SINGLE_ONE as nat);
        }
        if a > 0x4000_0000 {
            float_bits::lemma_single_increases(0x4000_0000, a as nat);
        }
        if a < b {
            float_bits::lemma_single_increases(a as nat, b as nat);
        } else if b < a {
            float_bits::lemma_single_increases(b as nat, a as nat);
        }
        assert(float_bits::single_value(expected) == y);
        assert(differ(actual, expected) == (distance(actual, expected) >= threshold));
    }
    if a >= 0x4000_0000 {
        return false;
    }
    let (p, p_whole) = whole_units(a);
    let (q, q_whole) = whole_units(b);
    proof {
        assert((p + 1) * unit == p * unit + unit) by (nonlinear_arith);
        assert((q + 1) * unit == q * unit + unit) by (nonlinear_arith);
    }
    if actual_negative {
        let units: u64 = p + q;
        proof {
            assert((p + q) * unit == p * unit + q * unit) by (nonlinear_arith);
            assert((p + q + 1) * unit == p * unit + q * unit + unit) by (nonlinear_arith);
            lemma_order(9_007_200_206_848, p + q, unit);
            assert((p + q + 2) * unit == p * unit + q * unit + 2 * unit) by (nonlinear_arith);
            lemma_order(9_007_200_206_848, p + q + 1, unit);
            lemma_order(p + q + 1, 9_007_200_206_848, unit);
            lemma_order(p + q + 2, 9_007_200_206_848, unit);
            assert(distance(actual, expected) == x + y);
        }
        return units < 9_007_200_206_848;
    }
    let (high, low, low_whole) = if a >= b {
        (p, q, q_whole)
    } else {
        (q, p, p_whole)
    };
    proof {
        lemma_order(low as int, high as int, unit);
        assert((high - low) * unit == high * unit - low * unit) by (nonlinear_arith);
        assert((high - low - 1) * unit == high * unit - low * unit - unit) by (nonlinear_arith);
        assert((high - low + 1) * unit == high * unit - low * unit + unit) by (nonlinear_arith);
        lemma_order(9_007_200_206_848, high - low, unit);
        lemma_order(9_007_200_206_848, high - low - 1, unit);
        lemma_order(9_007_200_206_848, high - low + 1, unit);
        lemma_order(high as int, low - 1, unit);
        assert((low - 1) * unit == low * unit - unit) by (nonlinear_arith);
    }
    if high < low {
        return true;
    }
    let apart: u64 = high - low;
    apart < 9_007_200_206_848 || apart == 9_007_200_206_848 && !low_whole
}

/// Scaling keeps the order of two numbers.
proof fn lemma_order(a: int, b: int, unit: int)
    requires
        unit > 0,
    ensures
        a * unit <= b * unit <==> a <= b,
        b * unit <= a * unit <==> b <= a,
{
    assert(a <= b ==> a * unit <= b * unit) by (nonlinear_arith)
        requires
            unit > 0,
    ;
    assert(b < a ==> b * unit < a * unit) by (nonlinear_arith)
        requires
            unit > 0,
    ;
    assert(b <= a ==> b * unit <= a * unit) by (nonlinear_arith)
        requires
            unit > 0,
    ;
    assert(a < b ==> a * unit < b * unit) by (nonlinear_arith)
        requires
            unit > 0,
    ;
}

/// Whether a number, rounded to single precision, counts as the same as a
/// volume.
pub open spec fn shows(number: NumberKind, expected: u32) -> bool {
    exists|level: u32| #[trigger]
        level::number_narrows_to(number, level) && !differ(level, expected)
}

/// Levels of at least 2.0 and of at most -1.0 count as the same as no volume.
proof fn lemma_far_level(level: u32, expected: u32)
    requires
        float_bits::single_in_unit(expected),
        float_bits::single_pattern(level) <= float_bits::SINGLE_INFINITY,
        if float_bits::single_negative(level) {
            float_bits::single_pattern(level) >= float_bits::SINGLE_ONE
        } else {
            float_bits::single_pattern(level) >= 0x4000_0000
        },
    ensures
        differ(level, expected),
{
    let pattern = float_bits::single_pattern(level);
    let floor: nat = if float_bits::single_negative(level) {
        float_bits::SINGLE_ONE as nat
    } else {
        0x4000_0000
    };
    lemma_tolerance();
    float_bits::lemma_one_and_two();
    power2::lemma_pow2_unfold(150);
    if pattern > floor {
        float_bits::lemma_single_increases(floor, pattern);
    }
}

/// Decides whether a number, rounded to single precision, counts as the same as
/// a volume.
pub fn shows_level(number: &JsonNumber, expected: u32) -> (r: bool)
    requires
        float_bits::single_in_unit(expected),
    ensures
        r == shows(number@, expected),
{
    let level: u32 = match number.kind() {
        NumberKind::Unsigned(value) => {
            if value > 1 {
                proof {
                    assert forall|level: u32| #[trigger]
                        level::number_narrows_to(number@, level) implies differ(
                        level,
                        expected,
                    ) by {
                        lemma_integer_level(number@, level);
                        lemma_far_level(level, expected);
                    }
                }
                return false;
            }
            proof {
                float_bits::lemma_small_integers();
                let one = power2::pow2(1074);
                assert(value == 0 ==> value * one == 0) by (nonlinear_arith);
                assert(value == 1 ==> value * one == one) by (nonlinear_arith);
            }
            if value == 0 {
                0
            } else {
                float_bits::SINGLE_ONE
            }
        },
        NumberKind::Negative(_) => {
            proof {
                assert forall|level: u32| #[trigger]
                    level::number_narrows_to(number@, level) implies differ(level, expected) by {
                    lemma_integer_level(number@, level);
                    lemma_far_level(level, expected);
                }
            }
            return false;
        },
        NumberKind::Double(bits) => float_bits::narrow(bits),
    };
    assert(level::number_narrows_to(number@, level));
    let same: bool = same_level(level, expected);
    proof {
        assert forall|other: u32| #[trigger]
            level::number_narrows_to(number@, other) implies other == level by {
            level::lemma_level_is_unique(number@, level, other);
        }
    }
    same
}

/// An integer other than zero and one is at least 2.0 or at most -1.0 as a
/// single.
proof fn lemma_integer_level(number: NumberKind, level: u32)
    requires
        match number {
            NumberKind::Unsigned(value) => value >= 2,
            NumberKind::Negative(value) => value < 0,
            NumberKind::Double(_) => false,
        },
        level::number_narrows_to(number, level),
    ensures
        if float_bits::single_negative(level) {
            number is Negative && float_bits::single_pattern(level) >= float_bits::SINGLE_ONE
        } else {
            number is Unsigned && float_bits::single_pattern(level) >= 0x4000_0000
        },
{
    let one = power2::pow2(1074);
    let pattern = float_bits::single_pattern(level);
    let magnitude = level::number_magnitude(number);
    float_bits::lemma_one_and_two();
    power2::lemma_pow2_adds(149, 925);
    power2::lemma_pow2_adds(150, 925);
    power2::lemma_pow2_unfold(1075);
    match number {
        NumberKind::Unsigned(value) => {
            assert(value * one >= 2 * one) by (nonlinear_arith)
                requires
                    value >= 2,
            ;
            float_bits::lemma_rounds_no_lower(magnitude, 0x4000_0000, pattern);
        },
        NumberKind::Negative(value) => {
            let size = (-value) as nat;
            assert(size * one >= one) by (nonlinear_arith)
                requires
                    size >= 1,
            ;
            float_bits::lemma_rounds_no_lower(magnitude, float_bits::SINGLE_ONE as nat, pattern);
        },
        NumberKind::Double(_) => {},
    }
}

/// An integer other than zero and one has no volume one step from it.
proof fn lemma_integer_has_no_target(number: NumberKind, level: u32, target: u32)
    requires
        match number {
            NumberKind::Unsigned(value) => value >= 2,
            NumberKind::Negative(value) => value < 0,
            NumberKind::Double(_) => false,
        },
    ensures
        !bounded(number, level, target),
{
    if bounded(number, level, target) {
        lemma_integer_level(number, level);
        if float_bits::single_negative(level) {
            lemma_negative_has_no_target(level, target);
        } else {
            lemma_large_has_no_target(level, target);
        }
    }
}

/// Returns the level that a number is, rounded to single precision, and the
/// volume one step from it, if there is one.
pub fn bound(number: &JsonNumber) -> (r: Option<(u32, Volume)>)
    ensures
        match r {
            Some((level, target)) => bounded(number@, level, target@),
            None => forall|level: u32, target: u32| !bounded(number@, level, target),
        },
{
    let level: u32 = match number.kind() {
        NumberKind::Unsigned(value) => {
            if value > 1 {
                proof {
                    assert forall|level: u32, target: u32| !bounded(number@, level, target) by {
                        lemma_integer_has_no_target(number@, level, target);
                    }
                }
                return None;
            }
            proof {
                float_bits::lemma_small_integers();
                let one = power2::pow2(1074);
                assert(value == 0 ==> value * one == 0) by (nonlinear_arith);
                assert(value == 1 ==> value * one == one) by (nonlinear_arith);
            }
            if value == 0 {
                0
            } else {
                float_bits::SINGLE_ONE
            }
        },
        NumberKind::Negative(_) => {
            proof {
                assert forall|level: u32, target: u32| !bounded(number@, level, target) by {
                    lemma_integer_has_no_target(number@, level, target);
                }
            }
            return None;
        },
        NumberKind::Double(bits) => float_bits::narrow(bits),
    };
    assert(level::number_narrows_to(number@, level));
    let found: Option<u32> = step(level);
    proof {
        if found is None {
            assert forall|other: u32, target: u32| !bounded(number@, other, target) by {
                if bounded(number@, other, target) {
                    level::lemma_level_is_unique(number@, level, other);
                    assert(steps_to(level, target));
                }
            }
        }
    }
    match found {
        Some(bits) => match Volume::new(bits) {
            Ok(target) => Some((level, target)),
            Err(_) => None,
        },
        None => None,
    }
}

/// A step from a volume leads to a volume, and it is bounded: the two differ by
/// 0.02, but for half of the least difference that rounding allows below 1.0, which
/// is 2^-25. It goes down where the volume is at least a step, and else up.
pub proof fn law_steps_are_bounded(level: u32, target: u32)
    requires
        float_bits::single_in_unit(level),
        steps_to(level, target),
    ensures
        float_bits::single_in_unit(target),
        float_bits::single_value(target) - float_bits::single_value(level)
            <= float_bits::single_value(STEP) + power2::pow2(124),
        float_bits::single_value(level) - float_bits::single_value(target)
            <= float_bits::single_value(STEP) + power2::pow2(124),
        ({
            let moved = if float_bits::single_value(level) >= float_bits::single_value(STEP) {
                float_bits::single_value(level) - float_bits::single_value(target)
            } else {
                float_bits::single_value(target) - float_bits::single_value(level)
            };
            &&& moved <= float_bits::single_value(STEP) + power2::pow2(124)
            &&& moved >= float_bits::single_value(STEP) - power2::pow2(124)
        }),
{
    let pattern = float_bits::single_pattern(target);
    let exact = stepped(level);
    let scale = power2::pow2(925) as int;
    let ceiling = (float_bits::SINGLE_ONE - 1) as nat;
    lemma_step();
    float_bits::lemma_unit_patterns(level);
    float_bits::lemma_one_and_two();
    power2::lemma_pow2_pos(925);
    power2::lemma_pow2_unfold(125);
    power2::lemma2_to64();
    power2::lemma_pow2_adds(5, 144);
    power2::lemma_pow2_adds(18, 125);
    power2::lemma_pow2_unfold(149);
    let top = float_bits::single_magnitude(ceiling) as int;
    let step_value = float_bits::single_value(STEP);
    assert(step_value > power2::pow2(125)) by {
        power2::lemma_pow2_strictly_increases(5, 20);
        power2::lemma_pow2_adds(5, 120);
    }
    assert(exact <= top);
    assert(exact * scale <= top * scale) by (nonlinear_arith)
        requires
            exact <= top,
            scale > 0,
    ;
    float_bits::lemma_rounds_no_higher((exact * scale) as nat, ceiling, pattern);
    float_bits::lemma_unit_patterns(target);
    float_bits::lemma_rounding_error((exact * scale) as nat, pattern);
    let made = float_bits::single_magnitude(pattern) as int;
    let half = power2::pow2(124) as int;
    assert(power2::pow2(125) * scale == 2 * (half * scale)) by (nonlinear_arith)
        requires
            power2::pow2(125) == 2 * half,
    ;
    assert(made * scale - half * scale == (made - half) * scale) by (nonlinear_arith);
    assert(made * scale + half * scale == (made + half) * scale) by (nonlinear_arith);
    lemma_order(exact, made + half, scale);
    lemma_order(made - half, exact, scale);
}

/// The step is the single nearest to 0.02 and the tolerance the one nearest to
/// 0.001: neither is further from it than half of the distance to its neighbours.
pub proof fn law_step_and_tolerance()
    ensures
        ({
            let step = float_bits::single_value(STEP);
            let unit = float_bits::single_value((STEP + 1) as u32) - step;
            &&& unit > 0
            &&& 2 * (100 * step - 2 * power2::pow2(149)) <= 100 * unit
            &&& 2 * (2 * power2::pow2(149) - 100 * step) <= 100 * unit
        }),
        ({
            let tolerance = float_bits::single_value(TOLERANCE);
            let unit = float_bits::single_value((TOLERANCE + 1) as u32) - tolerance;
            &&& unit > 0
            &&& 2 * (1000 * tolerance - power2::pow2(149)) <= 1000 * unit
            &&& 2 * (power2::pow2(149) - 1000 * tolerance) <= 1000 * unit
        }),
{
    lemma_step();
    power2::lemma2_to64();
    power2::lemma2_to64_rest();
    power2::lemma_pow2_adds(29, 120);
    power2::lemma_pow2_adds(33, 116);
    assert(STEP as nat / 0x80_0000 == 121);
    float_bits::lemma_single_step(STEP as nat);
    assert(TOLERANCE as nat / 0x80_0000 == 117);
    assert(TOLERANCE as nat % 0x80_0000 == 8_589_935 - 0x80_0000);
    float_bits::lemma_single_step(TOLERANCE as nat);
    let small = power2::pow2(116);
    assert(float_bits::single_magnitude(TOLERANCE as nat) == 8_589_935 * small);
    assert(power2::pow2(149) == 8_589_934_592 * small);
    assert(float_bits::single_value((TOLERANCE + 1) as u32) == float_bits::single_magnitude(
        TOLERANCE as nat + 1,
    ));
}

/// A bounded target is made in two steps: the number is rounded to single precision,
/// and the target is the single nearest to the value one step from that. It is one
/// exactly when it is a volume.
pub proof fn law_bounded_targets_are_one_step_away(number: NumberKind, level: u32, target: u32)
    ensures
        bounded(number, level, target) <==> level::number_narrows_to(number, level) && steps_to(
            level,
            target,
        ) && float_bits::single_in_unit(target),
{
}

/// A level leads to at most one target, and a number to at most one level and one
/// target.
pub proof fn law_bounded_targets_are_unique(
    number: NumberKind,
    a: (u32, u32),
    b: (u32, u32),
)
    requires
        bounded(number, a.0, a.1),
        bounded(number, b.0, b.1),
    ensures
        a == b,
{
    level::lemma_level_is_unique(number, a.0, b.0);
    lemma_target_is_unique(a.0, a.1, b.1);
}

/// The distance of two levels is that of their values: it is symmetric, zero only
/// between equal values, and no detour is shorter.
pub proof fn law_distances_are_symmetric(a: u32, b: u32, c: u32)
    ensures
        distance(a, b) == distance(b, a),
        distance(a, b) == 0 <==> float_bits::single_value(a) == float_bits::single_value(b),
        distance(a, c) <= distance(a, b) + distance(b, c),
        float_bits::single_value(a) <= float_bits::single_value(b) ==> float_bits::single_value(a)
            + distance(a, b) == float_bits::single_value(b),
        differ(a, b) == differ(b, a),
{
}

/// A level counts as the same as itself, levels further apart than the tolerance and
/// its neighbour count as different, and those within the tolerance as the same.
pub proof fn law_tolerance_divides(a: u32, b: u32)
    ensures
        distance(a, b) <= float_bits::single_value(TOLERANCE) ==> !differ(a, b),
        distance(a, b) >= float_bits::single_value((TOLERANCE + 1) as u32) ==> differ(a, b),
        !differ(a, a),
{
    float_bits::lemma_single_increases(TOLERANCE as nat, (TOLERANCE + 1) as nat);
    float_bits::lemma_single_increases(0, TOLERANCE as nat);
}

/// A number shows a level by what it is in single precision, and by nothing else.
pub proof fn law_numbers_show_their_level(number: NumberKind, level: u32, expected: u32)
    requires
        level::number_narrows_to(number, level),
    ensures
        shows(number, expected) <==> !differ(level, expected),
{
    if shows(number, expected) {
        let other = choose|other: u32| #[trigger]
            level::number_narrows_to(number, other) && !differ(other, expected);
        level::lemma_level_is_unique(number, level, other);
    }
}

/// A step lands on the single nearest to the exact value, which is a step below the
/// level where there is room and else a step above it. Only where that is negative
/// there is no step.
pub proof fn law_steps_land_on_the_nearest(level: u32, target: u32)
    ensures
        steps_to(level, target) <==> ({
            let value = float_bits::single_value(level);
            let step = float_bits::single_value(STEP);
            let exact = if value >= step {
                value - step
            } else {
                value + step
            };
            &&& exact >= 0
            &&& target < 0x8000_0000
            &&& float_bits::rounds_to((exact * power2::pow2(925)) as nat, target as nat)
        }),
{
}

} // verus!
