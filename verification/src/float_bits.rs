//! IEEE 754 binary patterns as integers.
//!
//! Levels travel as single-precision numbers and JSON carries double-precision
//! ones. Both are handled here as bit patterns whose meaning is stated over the
//! integers: a single counts in units of 2^-149, a double in units of 2^-1074.

use vstd::arithmetic::power2;
use vstd::prelude::*;

verus! {

/// The pattern of a single's sign bit.
pub const SINGLE_SIGN: u32 = 0x8000_0000;

/// The pattern of positive single infinity.
pub const SINGLE_INFINITY: u32 = 0x7f80_0000;

/// The pattern of the single 1.0.
pub const SINGLE_ONE: u32 = 0x3f80_0000;

/// The pattern of a double's sign bit.
pub const DOUBLE_SIGN: u64 = 0x8000_0000_0000_0000;

/// The pattern of positive double infinity.
pub const DOUBLE_INFINITY: u64 = 0x7ff0_0000_0000_0000;

/// The magnitude of the single with this pattern, sign bit cleared, in units
/// of 2^-149. For the pattern of infinity this is 2^128, the value at which
/// rounding overflows.
pub open spec fn single_magnitude(pattern: nat) -> nat {
    let exponent = pattern / 0x80_0000;
    let fraction = pattern % 0x80_0000;
    if exponent == 0 {
        fraction
    } else {
        (0x80_0000 + fraction) * power2::pow2((exponent - 1) as nat)
    }
}

/// The magnitude of the double with this pattern, sign bit cleared, in units
/// of 2^-1074.
pub open spec fn double_magnitude(pattern: nat) -> nat {
    let exponent = pattern / 0x10_0000_0000_0000;
    let fraction = pattern % 0x10_0000_0000_0000;
    if exponent == 0 {
        fraction
    } else {
        (0x10_0000_0000_0000 + fraction) * power2::pow2((exponent - 1) as nat)
    }
}

/// Whether the single is negative, counting negative zero.
pub open spec fn single_negative(bits: u32) -> bool {
    bits >= SINGLE_SIGN
}

/// Whether the double is negative, counting negative zero.
pub open spec fn double_negative(bits: u64) -> bool {
    bits >= DOUBLE_SIGN
}

/// A single's pattern without its sign.
pub open spec fn single_pattern(bits: u32) -> nat {
    if single_negative(bits) {
        (bits - SINGLE_SIGN) as nat
    } else {
        bits as nat
    }
}

/// A double's pattern without its sign.
pub open spec fn double_pattern(bits: u64) -> nat {
    if double_negative(bits) {
        (bits - DOUBLE_SIGN) as nat
    } else {
        bits as nat
    }
}

/// Whether the single is neither infinite nor a NaN.
pub open spec fn single_finite(bits: u32) -> bool {
    single_pattern(bits) < SINGLE_INFINITY
}

/// Whether the double is neither infinite nor a NaN.
pub open spec fn double_finite(bits: u64) -> bool {
    double_pattern(bits) < DOUBLE_INFINITY
}

/// The value of a finite single in units of 2^-149.
pub open spec fn single_value(bits: u32) -> int {
    if single_negative(bits) {
        -(single_magnitude(single_pattern(bits)) as int)
    } else {
        single_magnitude(single_pattern(bits)) as int
    }
}

/// Whether the single is finite and lies in the inclusive range 0.0 to 1.0.
pub open spec fn single_in_unit(bits: u32) -> bool {
    single_finite(bits) && 0 <= single_value(bits) <= power2::pow2(149)
}

/// The magnitude of a single pattern in a double's units.
pub open spec fn single_in_double_units(pattern: nat) -> nat {
    single_magnitude(pattern) * power2::pow2(925)
}

/// Whether the single pattern is the one nearest to a magnitude in units of
/// 2^-1074: the magnitude lies between the midpoints to the neighbouring
/// patterns, and a midpoint itself belongs to the even pattern.
pub open spec fn rounds_to(magnitude: nat, pattern: nat) -> bool {
    &&& pattern <= SINGLE_INFINITY
    &&& pattern > 0 ==> {
        let midpoint = single_in_double_units((pattern - 1) as nat) + single_in_double_units(
            pattern,
        );
        2 * magnitude > midpoint || 2 * magnitude == midpoint && pattern % 2 == 0
    }
    &&& pattern < SINGLE_INFINITY ==> {
        let midpoint = single_in_double_units(pattern) + single_in_double_units(pattern + 1);
        2 * magnitude < midpoint || 2 * magnitude == midpoint && pattern % 2 == 0
    }
}

/// Whether the single is the double rounded to nearest, ties to even, with the
/// sign kept.
pub open spec fn narrows_to(double: u64, single: u32) -> bool {
    &&& single_negative(single) == double_negative(double)
    &&& rounds_to(double_magnitude(double_pattern(double)), single_pattern(single))
}

/// Whether the double has exactly the value and the sign of the single.
pub open spec fn widens_to(single: u32, double: u64) -> bool {
    &&& double_finite(double)
    &&& double_negative(double) == single_negative(single)
    &&& double_magnitude(double_pattern(double)) == single_in_double_units(single_pattern(single))
}

/// The distance from a single pattern to the next one.
pub proof fn lemma_single_step(pattern: nat)
    requires
        pattern < SINGLE_INFINITY,
    ensures
        ({
            let exponent = pattern / 0x80_0000;
            let unit = if exponent == 0 {
                1
            } else {
                power2::pow2((exponent - 1) as nat)
            };
            &&& unit > 0
            &&& single_magnitude(pattern + 1) == single_magnitude(pattern) + unit
        }),
{
    let exponent = pattern / 0x80_0000;
    let fraction = pattern % 0x80_0000;
    power2::lemma2_to64();
    if exponent > 0 {
        let unit = power2::pow2((exponent - 1) as nat);
        power2::lemma_pow2_pos((exponent - 1) as nat);
        if fraction + 1 == 0x80_0000 {
            power2::lemma_pow2_unfold(exponent);
            assert((pattern + 1) / 0x80_0000 == exponent + 1);
            assert((pattern + 1) % 0x80_0000 == 0);
            assert(power2::pow2(exponent) == 2 * unit);
            assert(0x80_0000 * (2 * unit) == (0x80_0000 + 0x7f_ffff) * unit + unit)
                by (nonlinear_arith);
            assert(single_magnitude(pattern + 1) == 0x80_0000 * power2::pow2(exponent));
            assert(fraction == 0x7f_ffff);
            assert(single_magnitude(pattern) == (0x80_0000 + 0x7f_ffff) * unit);
        } else {
            assert((pattern + 1) / 0x80_0000 == exponent);
            assert((pattern + 1) % 0x80_0000 == fraction + 1);
            assert((0x80_0000 + (fraction + 1)) * unit == (0x80_0000 + fraction) * unit + unit)
                by (nonlinear_arith);
            assert(single_magnitude(pattern + 1) == (0x80_0000 + (fraction + 1)) * unit);
        }
    } else if fraction + 1 == 0x80_0000 {
        assert((pattern + 1) / 0x80_0000 == 1);
        assert((pattern + 1) % 0x80_0000 == 0);
        assert(single_magnitude(pattern + 1) == 0x80_0000);
    } else {
        assert(single_magnitude(pattern + 1) == fraction + 1);
    }
}

/// Greater single patterns have greater magnitudes.
pub proof fn lemma_single_increases(low: nat, high: nat)
    requires
        low < high <= SINGLE_INFINITY,
    ensures
        single_magnitude(low) < single_magnitude(high),
    decreases high - low,
{
    lemma_single_step((high - 1) as nat);
    if low < high - 1 {
        lemma_single_increases(low, (high - 1) as nat);
    }
}

/// The magnitude of the single 1.0.
proof fn lemma_single_one()
    ensures
        single_magnitude(SINGLE_ONE as nat) == power2::pow2(149),
        single_magnitude(0) == 0,
{
    power2::lemma2_to64();
    power2::lemma_pow2_adds(23, 126);
}

/// The magnitudes of the singles around 1.0, and of 2.0.
pub proof fn lemma_one_and_two()
    ensures
        single_magnitude(SINGLE_ONE as nat) == power2::pow2(149),
        single_magnitude((SINGLE_ONE + 1) as nat) == power2::pow2(149) + power2::pow2(126),
        single_magnitude((SINGLE_ONE - 1) as nat) == power2::pow2(149) - power2::pow2(125),
        single_magnitude(0x4000_0000) == power2::pow2(150),
{
    lemma_single_one();
    lemma_single_step(SINGLE_ONE as nat);
    lemma_single_step((SINGLE_ONE - 1) as nat);
    assert(SINGLE_ONE as nat / 0x80_0000 == 127);
    assert((SINGLE_ONE - 1) as nat / 0x80_0000 == 126);
    power2::lemma2_to64();
    power2::lemma_pow2_adds(23, 127);
}

/// The magnitude of the single 2^-30.
pub proof fn lemma_below_grid()
    ensures
        single_magnitude(0x3080_0000) == power2::pow2(119),
{
    power2::lemma2_to64();
    power2::lemma_pow2_adds(23, 96);
}

/// Which bit patterns are the finite singles from 0.0 to 1.0: those up to the
/// pattern of 1.0, and negative zero.
pub proof fn lemma_unit_patterns(bits: u32)
    ensures
        single_in_unit(bits) <==> bits <= SINGLE_ONE || bits == SINGLE_SIGN,
{
    lemma_single_one();
    let pattern = single_pattern(bits);
    if pattern < SINGLE_INFINITY {
        if pattern > SINGLE_ONE {
            lemma_single_increases(SINGLE_ONE as nat, pattern);
        } else if pattern < SINGLE_ONE {
            lemma_single_increases(pattern, SINGLE_ONE as nat);
        }
        if pattern > 0 {
            lemma_single_increases(0, pattern);
        }
    }
}

/// Decides whether the bits are those of a finite single from 0.0 to 1.0.
pub fn is_unit_single(bits: u32) -> (r: bool)
    ensures
        r == single_in_unit(bits),
{
    proof {
        lemma_unit_patterns(bits);
    }
    bits <= SINGLE_ONE || bits == SINGLE_SIGN
}

/// Decides whether the bits are those of a finite double.
pub fn is_finite_double(bits: u64) -> (r: bool)
    ensures
        r == double_finite(bits),
{
    if bits >= DOUBLE_SIGN {
        bits - DOUBLE_SIGN < DOUBLE_INFINITY
    } else {
        bits < DOUBLE_INFINITY
    }
}

/// Decides whether two singles from 0.0 to 1.0 are the same number. The two
/// zeros are.
pub fn same_unit_value(a: u32, b: u32) -> (r: bool)
    requires
        single_in_unit(a),
        single_in_unit(b),
    ensures
        r == (single_value(a) == single_value(b)),
{
    proof {
        lemma_unit_patterns(a);
        lemma_unit_patterns(b);
        lemma_single_one();
        let p = single_pattern(a);
        let q = single_pattern(b);
        if p < q {
            lemma_single_increases(p, q);
        } else if q < p {
            lemma_single_increases(q, p);
        }
    }
    a == b || (a == 0 || a == SINGLE_SIGN) && (b == 0 || b == SINGLE_SIGN)
}

/// Greater single patterns have greater magnitudes, also in a double's units.
pub proof fn lemma_scaled_increases(low: nat, high: nat)
    requires
        low < high <= SINGLE_INFINITY,
    ensures
        single_in_double_units(low) < single_in_double_units(high),
{
    lemma_single_increases(low, high);
    power2::lemma_pow2_pos(925);
    let a = single_magnitude(low);
    let b = single_magnitude(high);
    let scale = power2::pow2(925);
    assert(a * scale < b * scale) by (nonlinear_arith)
        requires
            a < b,
            scale > 0,
    ;
}

/// Rounds a magnitude that lies `rest` above a pattern, where the next pattern
/// is `unit` away.
proof fn lemma_rounding(base: nat, magnitude: nat, unit: nat, rest: nat, up: bool)
    requires
        base < SINGLE_INFINITY,
        single_in_double_units(base + 1) == single_in_double_units(base) + unit,
        magnitude == single_in_double_units(base) + rest,
        rest < unit,
        up == (2 * rest > unit || 2 * rest == unit && base % 2 == 1),
    ensures
        rounds_to(
            magnitude,
            if up {
                base + 1
            } else {
                base
            },
        ),
{
    if base > 0 {
        lemma_scaled_increases((base - 1) as nat, base);
    }
    if base + 1 < SINGLE_INFINITY {
        lemma_scaled_increases(base + 1, base + 2);
    }
}

/// The magnitudes around a pattern below the smallest normal single.
proof fn lemma_subnormal(pattern: nat)
    requires
        pattern < 0x80_0000,
    ensures
        single_in_double_units(pattern) == pattern * power2::pow2(925),
        single_in_double_units(pattern + 1) == (pattern + 1) * power2::pow2(925),
{
    lemma_single_step(pattern);
}

/// The magnitudes around a pattern of a normal single with the given exponent
/// and significand.
proof fn lemma_normal(exponent: nat, significand: nat)
    requires
        1 <= exponent <= 254,
        0x80_0000 <= significand < 0x100_0000,
    ensures
        ({
            let pattern = ((exponent - 1) * 0x80_0000 + significand) as nat;
            &&& pattern < SINGLE_INFINITY
            &&& single_in_double_units(pattern) == significand * power2::pow2(
                (exponent + 924) as nat,
            )
            &&& single_in_double_units(pattern + 1) == (significand + 1) * power2::pow2(
                (exponent + 924) as nat,
            )
        }),
{
    let pattern = ((exponent - 1) * 0x80_0000 + significand) as nat;
    let fraction = (significand - 0x80_0000) as nat;
    assert(pattern == exponent * 0x80_0000 + fraction);
    assert(pattern / 0x80_0000 == exponent);
    assert(pattern % 0x80_0000 == fraction);
    let unit = power2::pow2((exponent - 1) as nat);
    lemma_single_step(pattern);
    assert(single_magnitude(pattern) == significand * unit);
    assert((significand + 1) * unit == significand * unit + unit) by (nonlinear_arith);
    power2::lemma_pow2_adds((exponent - 1) as nat, 925);
    let scale = power2::pow2(925);
    assert((significand * unit) * scale == significand * (unit * scale)) by (nonlinear_arith);
    assert(((significand + 1) * unit) * scale == (significand + 1) * (unit * scale))
        by (nonlinear_arith);
}

/// Computes a power of two.
pub(crate) fn power_of_two(exponent: u64) -> (r: u64)
    requires
        exponent < 64,
    ensures
        r == power2::pow2(exponent as nat),
{
    proof {
        power2::lemma2_to64();
    }
    let mut result: u64 = 1;
    let mut step: u64 = 0;
    while step < exponent
        invariant
            step <= exponent < 64,
            result == power2::pow2(step as nat),
        decreases exponent - step,
    {
        proof {
            power2::lemma_pow2_unfold((step + 1) as nat);
            if step + 1 < 63 {
                power2::lemma_pow2_strictly_increases((step + 1) as nat, 63);
            }
            power2::lemma2_to64_rest();
        }
        result = result * 2;
        step = step + 1;
    }
    result
}

/// Rounds a finite double's magnitude to the nearest single pattern.
fn narrow_pattern(pattern: u64) -> (r: u32)
    requires
        pattern < DOUBLE_INFINITY,
    ensures
        rounds_to(double_magnitude(pattern as nat), r as nat),
{
    let exponent: u64 = pattern / 0x10_0000_0000_0000;
    let fraction: u64 = pattern % 0x10_0000_0000_0000;
    let ghost magnitude = double_magnitude(pattern as nat);
    if exponent >= 1151 {
        proof {
            lemma_overflow(exponent as nat, fraction as nat);
        }
        return SINGLE_INFINITY;
    }
    if exponent >= 897 {
        let full: u64 = 0x10_0000_0000_0000 + fraction;
        let significand: u64 = full / 0x2000_0000;
        let rest: u64 = full % 0x2000_0000;
        let base: u64 = (exponent - 897) * 0x80_0000 + significand;
        let up: bool = rest > 0x1000_0000 || rest == 0x1000_0000 && base % 2 == 1;
        proof {
            let low = power2::pow2((exponent - 1) as nat);
            lemma_normal((exponent - 896) as nat, significand as nat);
            power2::lemma_pow2_adds(29, (exponent - 1) as nat);
            power2::lemma2_to64();
            power2::lemma_pow2_pos((exponent - 1) as nat);
            let unit = 0x2000_0000 * low;
            let q = significand as nat;
            let r = rest as nat;
            assert(full == q * 0x2000_0000 + r);
            assert((q * 0x2000_0000 + r) * low == q * (0x2000_0000 * low) + r * low)
                by (nonlinear_arith);
            assert((q + 1) * unit == q * unit + unit) by (nonlinear_arith);
            assert(r * low < 0x2000_0000 * low) by (nonlinear_arith)
                requires
                    r < 0x2000_0000,
                    low > 0,
            ;
            lemma_compare_scaled(r, 0x1000_0000, low);
            lemma_rounding(base as nat, magnitude, unit, r * low, up);
        }
        return if up {
            (base + 1) as u32
        } else {
            base as u32
        };
    }
    narrow_small(exponent, fraction)
}

/// Rounds the magnitude of a double below the smallest normal single.
fn narrow_small(exponent: u64, fraction: u64) -> (r: u32)
    requires
        exponent < 897,
        fraction < 0x10_0000_0000_0000,
    ensures
        rounds_to(
            double_magnitude((exponent * 0x10_0000_0000_0000 + fraction) as nat),
            r as nat,
        ),
{
    let full: u64 = if exponent == 0 {
        fraction
    } else {
        0x10_0000_0000_0000 + fraction
    };
    let level: u64 = if exponent == 0 {
        1
    } else {
        exponent
    };
    let shift: u64 = 926 - level;
    let ghost low = power2::pow2((level - 1) as nat);
    let ghost magnitude = full * low;
    proof {
        let pattern = (exponent * 0x10_0000_0000_0000 + fraction) as nat;
        assert(pattern / 0x10_0000_0000_0000 == exponent);
        assert(pattern % 0x10_0000_0000_0000 == fraction);
        power2::lemma2_to64();
        power2::lemma2_to64_rest();
        power2::lemma_pow2_pos((level - 1) as nat);
        if exponent == 0 {
            assert(low == 1);
            assert(full * low == full) by (nonlinear_arith)
                requires
                    low == 1,
            ;
        }
        assert(double_magnitude(pattern) == magnitude);
        power2::lemma_pow2_adds(shift as nat, (level - 1) as nat);
    }
    if shift >= 54 {
        proof {
            let step = power2::pow2(shift as nat);
            if shift > 54 {
                power2::lemma_pow2_strictly_increases(54, shift as nat);
            }
            lemma_subnormal(0);
            assert(0 * power2::pow2(925) == 0 && (0 + 1) * power2::pow2(925) == power2::pow2(925))
                by (nonlinear_arith);
            assert(2 * (full * low) < step * low) by (nonlinear_arith)
                requires
                    2 * full < step,
                    low > 0,
            ;
            lemma_rounding(0, magnitude as nat, power2::pow2(925), magnitude as nat, false);
        }
        return 0;
    }
    let step: u64 = power_of_two(shift);
    proof {
        power2::lemma_pow2_unfold(shift as nat);
        power2::lemma_pow2_pos((shift - 1) as nat);
        if shift > 30 {
            power2::lemma_pow2_strictly_increases(30, shift as nat);
        }
        assert(full / step < 0x80_0000) by (nonlinear_arith)
            requires
                full < 0x20_0000_0000_0000,
                step >= 0x4000_0000,
        ;
    }
    let base: u64 = full / step;
    let rest: u64 = full % step;
    let half: u64 = step / 2;
    let up: bool = rest > half || rest == half && base % 2 == 1;
    proof {
        let q = base as nat;
        let r = rest as nat;
        let d = step as nat;
        lemma_subnormal(q);
        vstd::arithmetic::div_mod::lemma_fundamental_div_mod(full as int, step as int);
        assert((d * q + r) * low == q * (d * low) + r * low) by (nonlinear_arith);
        assert((q + 1) * power2::pow2(925) == q * power2::pow2(925) + power2::pow2(925))
            by (nonlinear_arith);
        assert(r * low < d * low) by (nonlinear_arith)
            requires
                r < d,
                low > 0,
        ;
        lemma_compare_scaled(r, half as nat, low);
        assert(2 * (half * low) == d * low) by (nonlinear_arith)
            requires
                d == 2 * half,
        ;
        lemma_rounding(q, magnitude as nat, power2::pow2(925), r * low, up);
    }
    if up {
        (base + 1) as u32
    } else {
        base as u32
    }
}

/// Scaling keeps the order of two numbers.
proof fn lemma_compare_scaled(a: nat, b: nat, scale: nat)
    requires
        scale > 0,
    ensures
        a < b <==> a * scale < b * scale,
        a == b <==> a * scale == b * scale,
{
    if a < b {
        assert(a * scale < b * scale) by (nonlinear_arith)
            requires
                a < b,
                scale > 0,
        ;
    } else if b < a {
        assert(b * scale < a * scale) by (nonlinear_arith)
            requires
                b < a,
                scale > 0,
        ;
    }
}

/// Doubles of at least 2^128 round to infinity.
proof fn lemma_overflow(exponent: nat, fraction: nat)
    requires
        exponent >= 1151,
        fraction < 0x10_0000_0000_0000,
    ensures
        rounds_to(
            (0x10_0000_0000_0000 + fraction) * power2::pow2((exponent - 1) as nat),
            SINGLE_INFINITY as nat,
        ),
{
    lemma_scaled_increases((SINGLE_INFINITY - 1) as nat, SINGLE_INFINITY as nat);
    power2::lemma2_to64();
    power2::lemma2_to64_rest();
    power2::lemma_pow2_adds(23, 254);
    power2::lemma_pow2_adds(277, 925);
    power2::lemma_pow2_adds(52, 1150);
    assert(single_magnitude(SINGLE_INFINITY as nat) == 0x80_0000 * power2::pow2(254));
    if exponent > 1151 {
        power2::lemma_pow2_strictly_increases(1150, (exponent - 1) as nat);
    }
    let top = power2::pow2((exponent - 1) as nat);
    let least = power2::pow2(1150);
    assert((0x10_0000_0000_0000 + fraction) * top >= 0x10_0000_0000_0000 * least)
        by (nonlinear_arith)
        requires
            top >= least,
    ;
}

/// Rounds a finite double to the nearest single, ties to even, keeping the
/// sign.
pub fn narrow(double: u64) -> (single: u32)
    requires
        double_finite(double),
    ensures
        narrows_to(double, single),
{
    if double >= DOUBLE_SIGN {
        SINGLE_SIGN + narrow_pattern(double - DOUBLE_SIGN)
    } else {
        narrow_pattern(double)
    }
}

/// The magnitude of a normal double made of an exponent and a single's
/// significand.
proof fn lemma_widened(exponent: nat, significand: nat)
    requires
        1 <= exponent,
        0x80_0000 <= significand < 0x100_0000,
    ensures
        double_magnitude(
            (exponent * 0x10_0000_0000_0000 + (significand - 0x80_0000) * 0x2000_0000) as nat,
        ) == significand * power2::pow2((exponent + 28) as nat),
{
    let fraction = ((significand - 0x80_0000) * 0x2000_0000) as nat;
    let pattern = exponent * 0x10_0000_0000_0000 + fraction;
    assert(pattern / 0x10_0000_0000_0000 == exponent);
    assert(pattern % 0x10_0000_0000_0000 == fraction);
    power2::lemma2_to64();
    power2::lemma_pow2_adds(29, (exponent - 1) as nat);
    let low = power2::pow2((exponent - 1) as nat);
    assert((significand * 0x2000_0000) * low == significand * (0x2000_0000 * low))
        by (nonlinear_arith);
}

/// Widens a finite single's magnitude to the double of the same value.
fn widen_pattern(pattern: u32) -> (r: u64)
    requires
        pattern < SINGLE_INFINITY,
    ensures
        r < DOUBLE_INFINITY,
        double_magnitude(r as nat) == single_in_double_units(pattern as nat),
{
    let exponent: u64 = (pattern / 0x80_0000) as u64;
    let fraction: u64 = (pattern % 0x80_0000) as u64;
    if exponent > 0 {
        let significand: u64 = 0x80_0000 + fraction;
        proof {
            lemma_normal(exponent as nat, significand as nat);
            lemma_widened((exponent + 896) as nat, significand as nat);
        }
        return (exponent + 896) * 0x10_0000_0000_0000 + fraction * 0x2000_0000;
    }
    if fraction == 0 {
        assert(0 * power2::pow2(925) == 0) by (nonlinear_arith);
        return 0;
    }
    let mut significand: u64 = fraction;
    let mut lowered: u64 = 0;
    proof {
        power2::lemma2_to64();
    }
    while significand < 0x80_0000
        invariant
            fraction >= 1,
            significand == fraction * power2::pow2(lowered as nat),
            significand < 0x100_0000,
            lowered <= 23,
        decreases 23 - lowered,
    {
        proof {
            lemma_few_doublings(fraction as nat, lowered as nat);
            power2::lemma_pow2_unfold((lowered + 1) as nat);
            let p = power2::pow2(lowered as nat);
            assert(fraction * (2 * p) == 2 * (fraction * p)) by (nonlinear_arith);
        }
        significand = significand * 2;
        lowered = lowered + 1;
    }
    proof {
        lemma_subnormal(fraction as nat);
        lemma_widened((897 - lowered) as nat, significand as nat);
        power2::lemma_pow2_adds(lowered as nat, (925 - lowered) as nat);
        let p = power2::pow2(lowered as nat);
        let q = power2::pow2((925 - lowered) as nat);
        assert((fraction * p) * q == fraction * (p * q)) by (nonlinear_arith);
    }
    (897 - lowered) * 0x10_0000_0000_0000 + (significand - 0x80_0000) * 0x2000_0000
}

/// A positive number below 2^23 was doubled fewer than 23 times.
proof fn lemma_few_doublings(start: nat, times: nat)
    requires
        start >= 1,
        start * power2::pow2(times) < 0x80_0000,
    ensures
        times < 23,
{
    power2::lemma2_to64();
    if times > 23 {
        power2::lemma_pow2_strictly_increases(23, times);
    }
    let p = power2::pow2(times);
    assert(start * p >= p) by (nonlinear_arith)
        requires
            start >= 1,
    ;
}

/// Widens a finite single to the double of the same value and sign.
pub fn widen(single: u32) -> (double: u64)
    requires
        single_finite(single),
    ensures
        widens_to(single, double),
        double == widened(single),
{
    let double: u64 = if single >= SINGLE_SIGN {
        DOUBLE_SIGN + widen_pattern(single - SINGLE_SIGN)
    } else {
        widen_pattern(single)
    };
    proof {
        assert(widens_to(single, double));
        law_widening_is_unique(single, double, widened(single));
    }
    double
}

/// A magnitude has only one nearest single pattern.
pub proof fn law_rounding_is_unique(magnitude: nat, a: nat, b: nat)
    requires
        rounds_to(magnitude, a),
        rounds_to(magnitude, b),
    ensures
        a == b,
{
    if a < b {
        lemma_not_both(magnitude, a, b);
    } else if b < a {
        lemma_not_both(magnitude, b, a);
    }
}

/// A magnitude that rounds to a pattern rounds to no greater one.
proof fn lemma_not_both(magnitude: nat, low: nat, high: nat)
    requires
        rounds_to(magnitude, low),
        low < high <= SINGLE_INFINITY,
    ensures
        !rounds_to(magnitude, high),
{
    if low + 1 < high {
        lemma_scaled_increases(low + 1, high);
        lemma_scaled_increases(low, (high - 1) as nat);
    }
}

/// Integers of at least two, and doubles of at least two, round to no single in
/// the range 0.0 to 1.0.
pub proof fn lemma_large_leaves_unit(magnitude: nat, pattern: nat)
    requires
        magnitude >= 2 * power2::pow2(1074),
        rounds_to(magnitude, pattern),
    ensures
        pattern > SINGLE_ONE,
{
    if pattern <= SINGLE_ONE {
        let one = SINGLE_ONE as nat;
        if pattern < one {
            lemma_scaled_increases(pattern, one);
            lemma_scaled_increases(pattern + 1, one + 1);
        }
        lemma_single_one();
        lemma_single_step(one);
        power2::lemma_pow2_adds(149, 925);
        power2::lemma_pow2_strictly_increases(126, 149);
        power2::lemma_pow2_pos(925);
        let scale = power2::pow2(925);
        let a = power2::pow2(149);
        let unit = power2::pow2(126);
        assert(one / 0x80_0000 == 127);
        assert((a + unit) * scale < 2 * (a * scale)) by (nonlinear_arith)
            requires
                unit < a,
                scale > 0,
        ;
    }
}

/// A magnitude of at least a pattern's own rounds to no smaller pattern.
pub proof fn lemma_rounds_no_lower(magnitude: nat, floor: nat, pattern: nat)
    requires
        floor <= SINGLE_INFINITY,
        magnitude >= single_in_double_units(floor),
        rounds_to(magnitude, pattern),
    ensures
        pattern >= floor,
{
    if pattern < floor {
        lemma_scaled_increases(pattern, floor);
        if pattern + 1 < floor {
            lemma_scaled_increases(pattern + 1, floor);
        }
    }
}

/// A magnitude of at most a pattern's own rounds to no greater pattern.
pub proof fn lemma_rounds_no_higher(magnitude: nat, ceiling: nat, pattern: nat)
    requires
        ceiling <= SINGLE_INFINITY,
        magnitude <= single_in_double_units(ceiling),
        rounds_to(magnitude, pattern),
    ensures
        pattern <= ceiling,
{
    if pattern > ceiling {
        lemma_scaled_increases(ceiling, pattern);
        if ceiling < pattern - 1 {
            lemma_scaled_increases(ceiling, (pattern - 1) as nat);
        }
    }
}

/// A positive number that was doubled and is still below 2^55 was doubled fewer
/// than 55 times.
proof fn lemma_doublings(start: nat, times: nat)
    requires
        start >= 1,
        start * power2::pow2(times) < 0x80_0000_0000_0000,
    ensures
        times < 55,
{
    power2::lemma2_to64();
    power2::lemma2_to64_rest();
    if times > 55 {
        power2::lemma_pow2_strictly_increases(55, times);
    }
    let p = power2::pow2(times);
    assert(start * p >= p) by (nonlinear_arith)
        requires
            start >= 1,
    ;
}

/// Rounds a number of units of 2^-53 to the nearest single pattern.
pub fn round_scaled(number: u64) -> (r: u32)
    requires
        0 < number < 0x100_0000_0000_0000,
    ensures
        rounds_to((number * power2::pow2(1021)) as nat, r as nat),
{
    let mut top: u64 = number;
    let mut lifted: u64 = 0;
    proof {
        power2::lemma2_to64();
        assert(number * power2::pow2(0) == number) by (nonlinear_arith)
            requires
                power2::pow2(0) == 1,
        ;
    }
    while top < 0x80_0000_0000_0000
        invariant
            number >= 1,
            top == number * power2::pow2(lifted as nat),
            0 < top < 0x100_0000_0000_0000,
            lifted <= 55,
        decreases 0x100_0000_0000_0000 - top,
    {
        proof {
            lemma_doublings(number as nat, lifted as nat);
            power2::lemma_pow2_unfold((lifted + 1) as nat);
            let p = power2::pow2(lifted as nat);
            assert(number * (2 * p) == 2 * (number * p)) by (nonlinear_arith);
        }
        top = top * 2;
        lifted = lifted + 1;
    }
    let significand: u64 = top / 0x1_0000_0000;
    let rest: u64 = top % 0x1_0000_0000;
    let base: u64 = (128 - lifted) * 0x80_0000 + significand;
    let up: bool = rest > 0x8000_0000 || rest == 0x8000_0000 && base % 2 == 1;
    proof {
        let low = power2::pow2((1021 - lifted) as nat);
        let magnitude = (number * power2::pow2(1021)) as nat;
        lemma_normal((129 - lifted) as nat, significand as nat);
        power2::lemma_pow2_adds(32, (1021 - lifted) as nat);
        power2::lemma_pow2_adds(lifted as nat, (1021 - lifted) as nat);
        power2::lemma2_to64();
        power2::lemma2_to64_rest();
        power2::lemma_pow2_pos((1021 - lifted) as nat);
        let p = power2::pow2(lifted as nat);
        assert((number * p) * low == number * (p * low)) by (nonlinear_arith);
        let unit = 0x1_0000_0000 * low;
        let q = significand as nat;
        let r = rest as nat;
        assert(top == q * 0x1_0000_0000 + r);
        assert((q * 0x1_0000_0000 + r) * low == q * (0x1_0000_0000 * low) + r * low)
            by (nonlinear_arith);
        assert((q + 1) * unit == q * unit + unit) by (nonlinear_arith);
        assert(r * low < 0x1_0000_0000 * low) by (nonlinear_arith)
            requires
                r < 0x1_0000_0000,
                low > 0,
        ;
        lemma_compare_scaled(r, 0x8000_0000, low);
        lemma_rounding(base as nat, magnitude, unit, r * low, up);
    }
    if up {
        (base + 1) as u32
    } else {
        base as u32
    }
}

/// Returns the value of a single from 2^-30 up to 2.0 in units of 2^-53.
pub fn scaled_single(pattern: u32) -> (r: u64)
    requires
        0x3080_0000 <= pattern < 0x4000_0000,
    ensures
        single_magnitude(pattern as nat) == r * power2::pow2(96),
        r < 0x40_0000_0000_0000,
{
    let exponent: u64 = (pattern / 0x80_0000) as u64;
    let significand: u64 = 0x80_0000 + (pattern % 0x80_0000) as u64;
    let scale: u64 = power_of_two(exponent - 97);
    proof {
        power2::lemma2_to64();
        if exponent < 127 {
            power2::lemma_pow2_strictly_increases((exponent - 97) as nat, 30);
        }
        assert(significand * scale < 0x100_0000 * 0x4000_0000) by (nonlinear_arith)
            requires
                significand < 0x100_0000,
                0 < scale <= 0x4000_0000,
        ;
        power2::lemma_pow2_pos((exponent - 97) as nat);
        power2::lemma_pow2_adds((exponent - 97) as nat, 96);
        let a = power2::pow2((exponent - 97) as nat);
        let b = power2::pow2(96);
        assert(significand * (a * b) == (significand * a) * b) by (nonlinear_arith);
    }
    significand * scale
}

/// How far a magnitude lies from the pattern that it rounds to: at most half the
/// distance to the next pattern on either side.
pub proof fn lemma_rounding_error(magnitude: nat, pattern: nat)
    requires
        rounds_to(magnitude, pattern),
        pattern < SINGLE_ONE,
    ensures
        2 * magnitude <= 2 * single_in_double_units(pattern) + power2::pow2(125) * power2::pow2(
            925,
        ),
        2 * single_in_double_units(pattern) <= 2 * magnitude + power2::pow2(125) * power2::pow2(
            925,
        ),
{
    lemma_narrow_step(pattern);
    if pattern > 0 {
        lemma_narrow_step((pattern - 1) as nat);
    } else {
        assert(0 * power2::pow2(925) == 0) by (nonlinear_arith);
    }
}

/// Below 1.0 the next pattern is at most 2^-24 away.
proof fn lemma_narrow_step(pattern: nat)
    requires
        pattern < SINGLE_ONE,
    ensures
        single_in_double_units(pattern + 1) <= single_in_double_units(pattern) + power2::pow2(125)
            * power2::pow2(925),
{
    lemma_single_step(pattern);
    let exponent = pattern / 0x80_0000;
    let unit = if exponent == 0 {
        1
    } else {
        power2::pow2((exponent - 1) as nat)
    };
    let widest = power2::pow2(125);
    power2::lemma_pow2_pos(125);
    if 0 < exponent < 126 {
        power2::lemma_pow2_strictly_increases((exponent - 1) as nat, 125);
    }
    assert(exponent <= 126);
    let a = single_magnitude(pattern);
    let scale = power2::pow2(925);
    assert((a + unit) * scale <= a * scale + widest * scale) by (nonlinear_arith)
        requires
            unit <= widest,
            scale >= 0,
    ;
}

/// Zero and one round to themselves.
pub proof fn lemma_small_integers()
    ensures
        rounds_to(0, 0),
        rounds_to(power2::pow2(1074), SINGLE_ONE as nat),
{
    lemma_single_one();
    let one = SINGLE_ONE as nat;
    lemma_scaled_increases(0, 1);
    lemma_scaled_increases((one - 1) as nat, one);
    lemma_scaled_increases(one, one + 1);
    power2::lemma_pow2_adds(149, 925);
    assert(0 * power2::pow2(925) == 0) by (nonlinear_arith);
}

/// A single's own magnitude rounds to it.
pub proof fn lemma_exact_rounds(pattern: nat)
    requires
        pattern < SINGLE_INFINITY,
    ensures
        rounds_to(single_in_double_units(pattern), pattern),
{
    if pattern > 0 {
        lemma_scaled_increases((pattern - 1) as nat, pattern);
    }
    lemma_scaled_increases(pattern, pattern + 1);
}

/// Whole numbers other than zero do not round to zero.
pub proof fn lemma_whole_is_not_zero(magnitude: nat)
    requires
        magnitude >= power2::pow2(1074),
    ensures
        !rounds_to(magnitude, 0),
{
    lemma_subnormal(0);
    power2::lemma_pow2_strictly_increases(925, 1074);
    assert(0 * power2::pow2(925) == 0 && (0 + 1) * power2::pow2(925) == power2::pow2(925))
        by (nonlinear_arith);
}

/// Widening loses nothing: a single that was widened to a double narrows back
/// to itself.
pub proof fn law_narrow_undoes_widen(single: u32, double: u64, back: u32)
    requires
        single_finite(single),
        widens_to(single, double),
        narrows_to(double, back),
    ensures
        back == single,
{
    lemma_exact_rounds(single_pattern(single));
    law_rounding_is_unique(
        double_magnitude(double_pattern(double)),
        single_pattern(single),
        single_pattern(back),
    );
}

/// The next double pattern has a greater magnitude.
proof fn lemma_double_step(pattern: nat)
    ensures
        double_magnitude(pattern) < double_magnitude(pattern + 1),
{
    let exponent = pattern / 0x10_0000_0000_0000;
    let fraction = pattern % 0x10_0000_0000_0000;
    power2::lemma2_to64();
    if exponent > 0 {
        let unit = power2::pow2((exponent - 1) as nat);
        power2::lemma_pow2_pos((exponent - 1) as nat);
        if fraction + 1 == 0x10_0000_0000_0000 {
            power2::lemma_pow2_unfold(exponent);
            assert((pattern + 1) / 0x10_0000_0000_0000 == exponent + 1);
            assert((pattern + 1) % 0x10_0000_0000_0000 == 0);
            assert(double_magnitude(pattern + 1) == 0x10_0000_0000_0000 * (2 * unit));
            assert((0x10_0000_0000_0000 + fraction) * unit < 0x10_0000_0000_0000 * (2 * unit))
                by (nonlinear_arith)
                requires
                    fraction < 0x10_0000_0000_0000,
                    unit > 0,
            ;
        } else {
            assert((pattern + 1) / 0x10_0000_0000_0000 == exponent);
            assert((pattern + 1) % 0x10_0000_0000_0000 == fraction + 1);
            assert(double_magnitude(pattern + 1) == (0x10_0000_0000_0000 + fraction + 1) * unit);
            assert((0x10_0000_0000_0000 + fraction) * unit < (0x10_0000_0000_0000 + fraction + 1)
                * unit) by (nonlinear_arith)
                requires
                    unit > 0,
            ;
        }
    } else if fraction + 1 == 0x10_0000_0000_0000 {
        assert((pattern + 1) / 0x10_0000_0000_0000 == 1);
        assert((pattern + 1) % 0x10_0000_0000_0000 == 0);
        assert(power2::pow2(0) == 1);
        assert(double_magnitude(pattern + 1) == 0x10_0000_0000_0000 * power2::pow2(0));
    } else {
        assert(double_magnitude(pattern + 1) == fraction + 1);
    }
}

/// Greater double patterns have greater magnitudes.
proof fn lemma_double_increases(low: nat, high: nat)
    requires
        low < high,
    ensures
        double_magnitude(low) < double_magnitude(high),
    decreases high - low,
{
    lemma_double_step((high - 1) as nat);
    if low < high - 1 {
        lemma_double_increases(low, (high - 1) as nat);
    }
}

/// A single widens to only one double.
pub proof fn law_widening_is_unique(single: u32, a: u64, b: u64)
    requires
        widens_to(single, a),
        widens_to(single, b),
    ensures
        a == b,
{
    if double_pattern(a) < double_pattern(b) {
        lemma_double_increases(double_pattern(a), double_pattern(b));
    } else if double_pattern(b) < double_pattern(a) {
        lemma_double_increases(double_pattern(b), double_pattern(a));
    }
}

/// Every finite single magnitude below 2^24 units can be doubled into the range
/// of a normal significand.
proof fn lemma_normalized(value: nat) -> (times: nat)
    requires
        0 < value < 0x100_0000,
    ensures
        times <= 23,
        0x80_0000 <= value * power2::pow2(times) < 0x100_0000,
    decreases 0x100_0000 - value,
{
    power2::lemma2_to64();
    if value >= 0x80_0000 {
        assert(value * power2::pow2(0) == value) by (nonlinear_arith)
            requires
                power2::pow2(0) == 1,
        ;
        0
    } else {
        let times = lemma_normalized(2 * value) + 1;
        let p = power2::pow2((times - 1) as nat);
        power2::lemma_pow2_unfold(times);
        assert((2 * value) * p == value * (2 * p)) by (nonlinear_arith);
        if times == 24 {
            assert((2 * value) * p >= 2 * p) by (nonlinear_arith)
                requires
                    value >= 1,
            ;
        }
        times
    }
}

/// Every finite single has a double of the same value and sign.
pub proof fn lemma_widened_exists(single: u32)
    requires
        single_finite(single),
    ensures
        widens_to(single, widened(single)),
{
    let pattern = single_pattern(single);
    let exponent = pattern / 0x80_0000;
    let fraction = pattern % 0x80_0000;
    let wide: nat = if exponent > 0 {
        lemma_normal(exponent, 0x80_0000 + fraction);
        lemma_widened(exponent + 896, 0x80_0000 + fraction);
        (exponent + 896) * 0x10_0000_0000_0000 + fraction * 0x2000_0000
    } else if fraction == 0 {
        assert(0 * power2::pow2(925) == 0) by (nonlinear_arith);
        0
    } else {
        let times = lemma_normalized(fraction);
        let p = power2::pow2(times);
        let q = power2::pow2((925 - times) as nat);
        lemma_subnormal(fraction);
        lemma_widened((897 - times) as nat, fraction * p);
        power2::lemma_pow2_adds(times, (925 - times) as nat);
        assert((fraction * p) * q == fraction * (p * q)) by (nonlinear_arith);
        ((897 - times) * 0x10_0000_0000_0000 + (fraction * p - 0x80_0000) * 0x2000_0000) as nat
    };
    let double = if single_negative(single) {
        (DOUBLE_SIGN + wide) as u64
    } else {
        wide as u64
    };
    assert(widens_to(single, double));
}

/// The double of the same value and sign as a single.
pub open spec fn widened(single: u32) -> u64 {
    choose|double: u64| widens_to(single, double)
}

/// Which singles are volumes: exactly those whose bits count from those of 0.0 up to
/// those of 1.0, and negative zero. Everything else is below, above or no number.
pub proof fn law_unit_singles(bits: u32)
    ensures
        single_in_unit(bits) <==> bits <= 0x3f80_0000 || bits == 0x8000_0000,
        single_finite(bits) <==> bits < 0x7f80_0000 || 0x8000_0000 <= bits < 0xff80_0000,
        single_negative(bits) <==> bits >= 0x8000_0000,
{
    lemma_unit_patterns(bits);
}

/// Which doubles are finite and which are negative.
pub proof fn law_finite_doubles(bits: u64)
    ensures
        double_finite(bits) <==> bits < 0x7ff0_0000_0000_0000 || 0x8000_0000_0000_0000 <= bits
            < 0xfff0_0000_0000_0000,
        double_negative(bits) <==> bits >= 0x8000_0000_0000_0000,
{
}

/// Where singles lie: zero is zero, and the next single up is one unit further, where
/// the unit is 2^-149 for the smallest and doubles with each exponent. The single 1.0
/// is one.
pub proof fn law_singles_are_spaced(pattern: nat)
    requires
        pattern < 0x7f80_0000,
    ensures
        single_magnitude(0) == 0,
        single_magnitude(0x3f80_0000) == power2::pow2(149),
        single_magnitude(pattern + 1) - single_magnitude(pattern) == (if pattern < 0x80_0000 {
            1
        } else {
            power2::pow2((pattern / 0x80_0000 - 1) as nat)
        }),
{
    lemma_single_one();
    lemma_single_step(pattern);
}

/// The sign changes the value of a single to its opposite and nothing else.
pub proof fn law_signs_negate(bits: u32)
    requires
        bits < 0x8000_0000,
    ensures
        single_value((bits + 0x8000_0000) as u32) == -single_value(bits),
        single_value(bits) == single_magnitude(bits as nat),
        single_pattern((bits + 0x8000_0000) as u32) == bits,
        single_pattern(bits) == bits,
{
}

/// Rounding goes to the nearest: no other single lies closer to the magnitude than
/// the one that it rounds to, and between two that are as close the even one is
/// taken.
pub proof fn law_rounding_is_nearest(magnitude: nat, pattern: nat, other: nat)
    requires
        rounds_to(magnitude, pattern),
        other <= 0x7f80_0000,
        other != pattern,
    ensures
        ({
            let scale = power2::pow2(925);
            let near = magnitude - single_magnitude(pattern) * scale;
            let far = magnitude - single_magnitude(other) * scale;
            let near_by = if near >= 0 {
                near
            } else {
                -near
            };
            let far_by = if far >= 0 {
                far
            } else {
                -far
            };
            &&& near_by <= far_by
            &&& near_by == far_by ==> pattern % 2 == 0
        }),
{
    if other < pattern {
        lemma_scaled_increases(other, pattern);
        if other < pattern - 1 {
            lemma_scaled_increases(other, (pattern - 1) as nat);
        }
    } else {
        lemma_scaled_increases(pattern, other);
        if pattern + 1 < other {
            lemma_scaled_increases(pattern + 1, other);
        }
    }
}

/// A double narrows to the single that its magnitude rounds to, with its sign, and a
/// single widens to the double of exactly its value and sign.
pub proof fn law_conversions_keep_the_sign(double: u64, single: u32)
    ensures
        narrows_to(double, single) <==> (single >= 0x8000_0000) == (double
            >= 0x8000_0000_0000_0000) && rounds_to(
            double_magnitude(double_pattern(double)),
            single_pattern(single),
        ),
        widens_to(single, double) <==> double_finite(double) && (single >= 0x8000_0000) == (double
            >= 0x8000_0000_0000_0000) && double_magnitude(double_pattern(double))
            == single_magnitude(single_pattern(single)) * power2::pow2(925),
{
}

/// Where doubles lie: zero is zero, and the next double up is one unit further, where
/// the unit is 2^-1074 for the smallest and doubles with each exponent. The double
/// 1.0 is one.
pub proof fn law_doubles_are_spaced(pattern: nat)
    ensures
        double_magnitude(0) == 0,
        double_magnitude(0x3ff0_0000_0000_0000) == power2::pow2(1074),
        double_magnitude(pattern + 1) - double_magnitude(pattern) == (if pattern
            < 0x10_0000_0000_0000 {
            1
        } else {
            power2::pow2((pattern / 0x10_0000_0000_0000 - 1) as nat)
        }),
{
    power2::lemma2_to64();
    power2::lemma2_to64_rest();
    power2::lemma_pow2_adds(52, 1022);
    let exponent = pattern / 0x10_0000_0000_0000;
    let fraction = pattern % 0x10_0000_0000_0000;
    if exponent > 0 {
        let unit = power2::pow2((exponent - 1) as nat);
        if fraction + 1 == 0x10_0000_0000_0000 {
            power2::lemma_pow2_unfold(exponent);
            assert((pattern + 1) / 0x10_0000_0000_0000 == exponent + 1);
            assert((pattern + 1) % 0x10_0000_0000_0000 == 0);
            assert(0x10_0000_0000_0000 * (2 * unit) == (0x10_0000_0000_0000 + 0xf_ffff_ffff_ffff)
                * unit + unit) by (nonlinear_arith);
        } else {
            assert((pattern + 1) / 0x10_0000_0000_0000 == exponent);
            assert((pattern + 1) % 0x10_0000_0000_0000 == fraction + 1);
            assert((0x10_0000_0000_0000 + (fraction + 1)) * unit == (0x10_0000_0000_0000 + fraction)
                * unit + unit) by (nonlinear_arith);
        }
    } else if fraction + 1 == 0x10_0000_0000_0000 {
        assert((pattern + 1) / 0x10_0000_0000_0000 == 1);
        assert((pattern + 1) % 0x10_0000_0000_0000 == 0);
    }
}

} // verus!
