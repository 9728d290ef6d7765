//! Levels on the wire: volumes, gains and balances as JSON numbers.

use vstd::arithmetic::power2;
use vstd::prelude::*;

use crate::float_bits;
use crate::json_codec;
use crate::json::{Json, JsonModel, JsonNumber, NumberKind};
use crate::value::{Gain, MixBalance, Volume};
use crate::wire::{Decode, Encode};

verus! {

/// Whether a number is negative, counting negative zero.
pub open spec fn number_negative(number: NumberKind) -> bool {
    match number {
        NumberKind::Unsigned(_) => false,
        NumberKind::Negative(_) => true,
        NumberKind::Double(bits) => float_bits::double_negative(bits),
    }
}

/// The magnitude of a number in units of 2^-1074.
pub open spec fn number_magnitude(number: NumberKind) -> nat {
    match number {
        NumberKind::Unsigned(value) => value as nat * power2::pow2(1074),
        NumberKind::Negative(value) => (-value) as nat * power2::pow2(1074),
        NumberKind::Double(bits) => float_bits::double_magnitude(float_bits::double_pattern(bits)),
    }
}

/// Whether the single is the number rounded to nearest, ties to even, with the
/// sign kept.
pub open spec fn number_narrows_to(number: NumberKind, single: u32) -> bool {
    &&& float_bits::single_negative(single) == number_negative(number)
    &&& float_bits::rounds_to(number_magnitude(number), float_bits::single_pattern(single))
}

/// Whether the number, rounded to single precision, is this level from 0.0 to
/// 1.0.
pub open spec fn number_is_level(number: NumberKind, bits: u32) -> bool {
    number_narrows_to(number, bits) && float_bits::single_in_unit(bits)
}

/// The level that a JSON value denotes: a number that, rounded to single
/// precision, lies in the range 0.0 to 1.0.
pub open spec fn level_of(value: JsonModel) -> Option<u32> {
    match value {
        JsonModel::Number(number) => if exists|bits: u32| number_is_level(number, bits) {
            Some(choose|bits: u32| number_is_level(number, bits))
        } else {
            None
        },
        _ => None,
    }
}

/// The JSON number that carries a level: the double of the same value.
pub open spec fn level_number(bits: u32) -> JsonModel {
    JsonModel::Number(NumberKind::Double(float_bits::widened(bits)))
}

/// A number denotes at most one level.
pub proof fn lemma_level_is_unique(number: NumberKind, a: u32, b: u32)
    requires
        number_narrows_to(number, a),
        number_narrows_to(number, b),
    ensures
        a == b,
{
    float_bits::law_rounding_is_unique(
        number_magnitude(number),
        float_bits::single_pattern(a),
        float_bits::single_pattern(b),
    );
}

/// The level of a number is the single that it narrows to, when that lies in
/// range.
proof fn lemma_level_found(number: NumberKind, bits: u32)
    requires
        number_narrows_to(number, bits),
    ensures
        level_of(JsonModel::Number(number)) == (if float_bits::single_in_unit(bits) {
            Some(bits)
        } else {
            None
        }),
{
    if float_bits::single_in_unit(bits) {
        assert(number_is_level(number, bits));
        let chosen = choose|other: u32| number_is_level(number, other);
        lemma_level_is_unique(number, bits, chosen);
    } else {
        assert forall|other: u32| !number_is_level(number, other) by {
            if number_is_level(number, other) {
                lemma_level_is_unique(number, bits, other);
            }
        }
    }
}

/// A level that a JSON value denotes lies in range.
pub proof fn lemma_level_in_unit(value: JsonModel, bits: u32)
    requires
        level_of(value) == Some(bits),
    ensures
        float_bits::single_in_unit(bits),
{
    let number = value->Number_0;
    assert(exists|other: u32| number_is_level(number, other));
    assert(number_is_level(number, choose|other: u32| number_is_level(number, other)));
}

/// Integers other than zero and one denote no level.
proof fn lemma_no_level(number: NumberKind)
    requires
        match number {
            NumberKind::Unsigned(value) => value >= 2,
            NumberKind::Negative(value) => value < 0,
            NumberKind::Double(_) => false,
        },
    ensures
        level_of(JsonModel::Number(number)) is None,
{
    let one = power2::pow2(1074);
    power2::lemma_pow2_pos(1074);
    assert forall|bits: u32| !number_is_level(number, bits) by {
        if number_is_level(number, bits) {
            float_bits::lemma_unit_patterns(bits);
            match number {
                NumberKind::Unsigned(value) => {
                    assert(value * one >= 2 * one) by (nonlinear_arith)
                        requires
                            value >= 2,
                    ;
                    float_bits::lemma_large_leaves_unit(
                        number_magnitude(number),
                        float_bits::single_pattern(bits),
                    );
                },
                NumberKind::Negative(value) => {
                    let size = (-value) as nat;
                    assert(size * one >= one) by (nonlinear_arith)
                        requires
                            size >= 1,
                    ;
                    float_bits::lemma_whole_is_not_zero(number_magnitude(number));
                },
                NumberKind::Double(_) => {},
            }
        }
    }
}

/// Reads the level that a number denotes.
fn level_bits(number: &JsonNumber) -> (r: Option<u32>)
    ensures
        r == level_of(JsonModel::Number(number@)),
{
    match number.kind() {
        NumberKind::Unsigned(value) => {
            proof {
                float_bits::lemma_small_integers();
                assert(0 * power2::pow2(1074) == 0) by (nonlinear_arith);
                float_bits::lemma_unit_patterns(0);
                float_bits::lemma_unit_patterns(float_bits::SINGLE_ONE);
                if value == 0 {
                    lemma_level_found(number@, 0);
                } else if value == 1 {
                    lemma_level_found(number@, float_bits::SINGLE_ONE);
                } else {
                    lemma_no_level(number@);
                }
            }
            if value == 0 {
                Some(0)
            } else if value == 1 {
                Some(float_bits::SINGLE_ONE)
            } else {
                None
            }
        },
        NumberKind::Negative(_) => {
            proof {
                lemma_no_level(number@);
            }
            None
        },
        NumberKind::Double(bits) => {
            let single: u32 = float_bits::narrow(bits);
            proof {
                lemma_level_found(number@, single);
            }
            if float_bits::is_unit_single(single) {
                Some(single)
            } else {
                None
            }
        },
    }
}

/// Reads the level that a JSON value denotes.
fn read_level(value: &Json) -> (r: Option<u32>)
    ensures
        r == level_of(value@),
        r matches Some(bits) ==> float_bits::single_in_unit(bits),
{
    match value {
        Json::Number(number) => {
            let level = level_bits(number);
            proof {
                if let Some(bits) = level {
                    lemma_level_in_unit(value@, bits);
                }
            }
            level
        },
        _ => None,
    }
}

/// Writes a level as a JSON number.
pub(crate) fn write_level(bits: u32) -> (r: Json)
    requires
        float_bits::single_in_unit(bits),
    ensures
        r@ == level_number(bits),
{
    match JsonNumber::double(float_bits::widen(bits)) {
        Some(number) => Json::Number(number),
        None => Json::Null,
    }
}

impl Decode for Volume {
    open spec fn decoded(value: JsonModel) -> Option<u32> {
        level_of(value)
    }

    fn decode(value: &Json) -> (r: Option<Self>) {
        match read_level(value) {
            Some(bits) => match Volume::new(bits) {
                Ok(value) => Some(value),
                Err(_) => None,
            },
            None => None,
        }
    }
}

impl Encode for Volume {
    open spec fn encoded(model: u32) -> JsonModel {
        level_number(model)
    }

    fn to_json(&self) -> (r: Json) {
        write_level(self.get())
    }
}

impl Decode for Gain {
    open spec fn decoded(value: JsonModel) -> Option<u32> {
        level_of(value)
    }

    fn decode(value: &Json) -> (r: Option<Self>) {
        match read_level(value) {
            Some(bits) => match Gain::new(bits) {
                Ok(value) => Some(value),
                Err(_) => None,
            },
            None => None,
        }
    }
}

impl Encode for Gain {
    open spec fn encoded(model: u32) -> JsonModel {
        level_number(model)
    }

    fn to_json(&self) -> (r: Json) {
        write_level(self.get())
    }
}

impl Decode for MixBalance {
    open spec fn decoded(value: JsonModel) -> Option<u32> {
        level_of(value)
    }

    fn decode(value: &Json) -> (r: Option<Self>) {
        match read_level(value) {
            Some(bits) => match MixBalance::new(bits) {
                Ok(value) => Some(value),
                Err(_) => None,
            },
            None => None,
        }
    }
}

impl Encode for MixBalance {
    open spec fn encoded(model: u32) -> JsonModel {
        level_number(model)
    }

    fn to_json(&self) -> (r: Json) {
        write_level(self.get())
    }
}

/// Writes a level as text on its own.
fn level_text(bits: u32) -> (r: String)
    requires
        float_bits::single_in_unit(bits),
    ensures
        r@ == json_codec::single_text(bits),
{
    match json_codec::text_of_single(bits) {
        Some(text) => text,
        None => String::new(),
    }
}

impl Volume {
    /// Writes the number as text on its own, with the shortest digits that tell
    /// it from other single-precision numbers.
    #[must_use]
    pub fn to_text(&self) -> (r: String)
        ensures
            r@ == json_codec::single_text(self@),
    {
        level_text(self.get())
    }
}

impl Gain {
    /// Writes the number as text on its own, with the shortest digits that tell
    /// it from other single-precision numbers.
    #[must_use]
    pub fn to_text(&self) -> (r: String)
        ensures
            r@ == json_codec::single_text(self@),
    {
        level_text(self.get())
    }
}

impl MixBalance {
    /// Writes the number as text on its own, with the shortest digits that tell
    /// it from other single-precision numbers.
    #[must_use]
    pub fn to_text(&self) -> (r: String)
        ensures
            r@ == json_codec::single_text(self@),
    {
        level_text(self.get())
    }
}

/// What was written as a level reads back as the same level.
pub proof fn law_level_round_trip(bits: u32)
    requires
        float_bits::single_in_unit(bits),
    ensures
        level_of(level_number(bits)) == Some(bits),
{
    let number = NumberKind::Double(float_bits::widened(bits));
    float_bits::lemma_widened_exists(bits);
    float_bits::lemma_exact_rounds(float_bits::single_pattern(bits));
    lemma_level_found(number, bits);
}

/// A value denotes a level exactly when it is a number that, rounded to single
/// precision, is that level and lies from 0.0 to 1.0. Nothing else denotes one.
pub proof fn law_levels_are_rounded_numbers(value: JsonModel, bits: u32)
    ensures
        level_of(value) == Some(bits) <==> (value matches JsonModel::Number(number)
            && number_narrows_to(number, bits) && float_bits::single_in_unit(bits)),
        Volume::decoded(value) == level_of(value),
        Gain::decoded(value) == level_of(value),
        MixBalance::decoded(value) == level_of(value),
{
    if let JsonModel::Number(number) = value {
        if number_narrows_to(number, bits) {
            lemma_level_found(number, bits);
        } else if exists|other: u32| number_is_level(number, other) {
            assert(number_is_level(number, choose|other: u32| number_is_level(number, other)));
        }
    }
}

/// Rounding goes by the sign and the magnitude of a number: a whole number counts
/// in ones, and a double is what it is as a double.
pub proof fn law_numbers_round_by_their_value(number: NumberKind, bits: u32)
    ensures
        number_narrows_to(number, bits) <==> match number {
            NumberKind::Unsigned(value) => bits < 0x8000_0000 && float_bits::rounds_to(
                value as nat * power2::pow2(1074),
                bits as nat,
            ),
            NumberKind::Negative(value) => bits >= 0x8000_0000 && float_bits::rounds_to(
                (-value) as nat * power2::pow2(1074),
                (bits - 0x8000_0000) as nat,
            ),
            NumberKind::Double(double) => float_bits::narrows_to(double, bits),
        },
{
}

/// Of the whole numbers only zero and one are levels: 0.0 and 1.0.
pub proof fn law_whole_levels_are_zero_and_one(number: NumberKind)
    requires
        match number {
            NumberKind::Unsigned(_) => true,
            NumberKind::Negative(value) => value < 0,
            NumberKind::Double(_) => false,
        },
    ensures
        level_of(JsonModel::Number(number)) == (if number == NumberKind::Unsigned(0) {
            Some(0u32)
        } else if number == NumberKind::Unsigned(1) {
            Some(0x3f80_0000u32)
        } else {
            None
        }),
{
    float_bits::lemma_small_integers();
    assert(0 * power2::pow2(1074) == 0) by (nonlinear_arith);
    assert(1 * power2::pow2(1074) == power2::pow2(1074)) by (nonlinear_arith);
    float_bits::lemma_unit_patterns(0);
    float_bits::lemma_unit_patterns(float_bits::SINGLE_ONE);
    if number == NumberKind::Unsigned(0) {
        lemma_level_found(number, 0);
    } else if number == NumberKind::Unsigned(1) {
        lemma_level_found(number, float_bits::SINGLE_ONE);
    } else {
        lemma_no_level(number);
    }
}

/// A level is written as the double of exactly its value and sign.
pub proof fn law_levels_are_written_exactly(bits: u32)
    requires
        float_bits::single_finite(bits),
    ensures
        level_number(bits) matches JsonModel::Number(NumberKind::Double(double))
            && float_bits::widens_to(bits, double),
        Volume::encoded(bits) == level_number(bits),
        Gain::encoded(bits) == level_number(bits),
        MixBalance::encoded(bits) == level_number(bits),
{
    float_bits::lemma_widened_exists(bits);
}

} // verus!
