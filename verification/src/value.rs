//! Validated values of the mixer.

use vstd::prelude::*;
use vstd::std_specs::cmp::PartialEqSpec;

use crate::error::{Error, ErrorKind};
use crate::float_bits;

verus! {

/// A volume from 0.0 to 1.0, held as the bits of a single-precision number; the
/// bits are its view.
#[derive(Clone, Copy, Debug)]
pub struct Volume {
    bits: u32,
}

impl View for Volume {
    type V = u32;

    closed spec fn view(&self) -> u32 {
        self.bits
    }
}

impl Volume {
    /// The bits of 0.0.
    pub const MIN: u32 = 0;

    /// The bits of 1.0.
    pub const MAX: u32 = 0x3f80_0000;

    #[verifier::type_invariant]
    spec fn well_formed(self) -> bool {
        float_bits::single_in_unit(self.bits)
    }

    /// Creates a validated normalized value from the bits of a single-precision
    /// number. Numbers that are not finite or lie outside 0.0 to 1.0 are an
    /// [`ErrorKind::InvalidValue`].
    pub fn new(bits: u32) -> (r: Result<Self, Error>)
        ensures
            match r {
                Ok(value) => float_bits::single_in_unit(bits) && value@ == bits,
                Err(error) => !float_bits::single_in_unit(bits) && error@ == (
                    ErrorKind::InvalidValue,
                    "volume must be finite and between 0.0 and 1.0"@,
                ),
            },
    {
        if float_bits::is_unit_single(bits) {
            Ok(Volume { bits })
        } else {
            Err(
                Error::new(
                    ErrorKind::InvalidValue,
                    "volume must be finite and between 0.0 and 1.0",
                ),
            )
        }
    }

    /// Returns the bits of the number.
    #[must_use]
    pub fn get(self) -> (r: u32)
        ensures
            r == self@,
            float_bits::single_in_unit(r),
    {
        proof {
            use_type_invariant(self);
        }
        self.bits
    }
}

impl PartialEq for Volume {
    fn eq(&self, other: &Self) -> (r: bool) {
        proof {
            use_type_invariant(self);
            use_type_invariant(other);
        }
        float_bits::same_unit_value(self.bits, other.bits)
    }
}

impl vstd::std_specs::cmp::PartialEqSpecImpl for Volume {
    open spec fn obeys_eq_spec() -> bool {
        true
    }

    open spec fn eq_spec(&self, other: &Self) -> bool {
        float_bits::single_value(self@) == float_bits::single_value(other@)
    }
}

/// A gain from 0.0 to 1.0, held as the bits of a single-precision number; the
/// bits are its view.
#[derive(Clone, Copy, Debug)]
pub struct Gain {
    bits: u32,
}

impl View for Gain {
    type V = u32;

    closed spec fn view(&self) -> u32 {
        self.bits
    }
}

impl Gain {
    /// The bits of 0.0.
    pub const MIN: u32 = 0;

    /// The bits of 1.0.
    pub const MAX: u32 = 0x3f80_0000;

    #[verifier::type_invariant]
    spec fn well_formed(self) -> bool {
        float_bits::single_in_unit(self.bits)
    }

    /// Creates a validated normalized value from the bits of a single-precision
    /// number. Numbers that are not finite or lie outside 0.0 to 1.0 are an
    /// [`ErrorKind::InvalidValue`].
    pub fn new(bits: u32) -> (r: Result<Self, Error>)
        ensures
            match r {
                Ok(value) => float_bits::single_in_unit(bits) && value@ == bits,
                Err(error) => !float_bits::single_in_unit(bits) && error@ == (
                    ErrorKind::InvalidValue,
                    "gain must be finite and between 0.0 and 1.0"@,
                ),
            },
    {
        if float_bits::is_unit_single(bits) {
            Ok(Gain { bits })
        } else {
            Err(
                Error::new(
                    ErrorKind::InvalidValue,
                    "gain must be finite and between 0.0 and 1.0",
                ),
            )
        }
    }

    /// Returns the bits of the number.
    #[must_use]
    pub fn get(self) -> (r: u32)
        ensures
            r == self@,
            float_bits::single_in_unit(r),
    {
        proof {
            use_type_invariant(self);
        }
        self.bits
    }
}

impl PartialEq for Gain {
    fn eq(&self, other: &Self) -> (r: bool) {
        proof {
            use_type_invariant(self);
            use_type_invariant(other);
        }
        float_bits::same_unit_value(self.bits, other.bits)
    }
}

impl vstd::std_specs::cmp::PartialEqSpecImpl for Gain {
    open spec fn obeys_eq_spec() -> bool {
        true
    }

    open spec fn eq_spec(&self, other: &Self) -> bool {
        float_bits::single_value(self@) == float_bits::single_value(other@)
    }
}

/// A mix balance from 0.0 to 1.0, held as the bits of a single-precision number; the
/// bits are its view.
#[derive(Clone, Copy, Debug)]
pub struct MixBalance {
    bits: u32,
}

impl View for MixBalance {
    type V = u32;

    closed spec fn view(&self) -> u32 {
        self.bits
    }
}

impl MixBalance {
    /// The bits of 0.0.
    pub const MIN: u32 = 0;

    /// The bits of 1.0.
    pub const MAX: u32 = 0x3f80_0000;

    #[verifier::type_invariant]
    spec fn well_formed(self) -> bool {
        float_bits::single_in_unit(self.bits)
    }

    /// Creates a validated normalized value from the bits of a single-precision
    /// number. Numbers that are not finite or lie outside 0.0 to 1.0 are an
    /// [`ErrorKind::InvalidValue`].
    pub fn new(bits: u32) -> (r: Result<Self, Error>)
        ensures
            match r {
                Ok(value) => float_bits::single_in_unit(bits) && value@ == bits,
                Err(error) => !float_bits::single_in_unit(bits) && error@ == (
                    ErrorKind::InvalidValue,
                    "mix balance must be finite and between 0.0 and 1.0"@,
                ),
            },
    {
        if float_bits::is_unit_single(bits) {
            Ok(MixBalance { bits })
        } else {
            Err(
                Error::new(
                    ErrorKind::InvalidValue,
                    "mix balance must be finite and between 0.0 and 1.0",
                ),
            )
        }
    }

    /// Returns the bits of the number.
    #[must_use]
    pub fn get(self) -> (r: u32)
        ensures
            r == self@,
            float_bits::single_in_unit(r),
    {
        proof {
            use_type_invariant(self);
        }
        self.bits
    }
}

impl PartialEq for MixBalance {
    fn eq(&self, other: &Self) -> (r: bool) {
        proof {
            use_type_invariant(self);
            use_type_invariant(other);
        }
        float_bits::same_unit_value(self.bits, other.bits)
    }
}

impl vstd::std_specs::cmp::PartialEqSpecImpl for MixBalance {
    open spec fn obeys_eq_spec() -> bool {
        true
    }

    open spec fn eq_spec(&self, other: &Self) -> bool {
        float_bits::single_value(self@) == float_bits::single_value(other@)
    }
}

/// Whether a channel or mix is muted.
#[derive(Clone, Copy, Debug, PartialEq, Eq, Structural)]
pub enum MuteState {
    Unmuted,
    Muted,
}

/// Two volumes, gains or balances are equal exactly when they are the same number,
/// so the two zeros are.
pub proof fn law_values_equal_by_their_number(
    volumes: (Volume, Volume),
    gains: (Gain, Gain),
    balances: (MixBalance, MixBalance),
)
    ensures
        Volume::obeys_eq_spec(),
        Gain::obeys_eq_spec(),
        MixBalance::obeys_eq_spec(),
        volumes.0.eq_spec(&volumes.1) <==> float_bits::single_value(volumes.0@)
            == float_bits::single_value(volumes.1@),
        gains.0.eq_spec(&gains.1) <==> float_bits::single_value(gains.0@)
            == float_bits::single_value(gains.1@),
        balances.0.eq_spec(&balances.1) <==> float_bits::single_value(balances.0@)
            == float_bits::single_value(balances.1@),
{
}

/// The least and the greatest value are 0.0 and 1.0: both are values, and every other
/// value lies between them.
pub proof fn law_values_lie_between_least_and_greatest(bits: u32)
    requires
        float_bits::single_in_unit(bits),
    ensures
        float_bits::single_in_unit(Volume::MIN),
        float_bits::single_in_unit(Volume::MAX),
        float_bits::single_value(Volume::MIN) <= float_bits::single_value(bits)
            <= float_bits::single_value(Volume::MAX),
        Volume::MIN == 0,
        Gain::MIN == Volume::MIN,
        Gain::MAX == Volume::MAX,
        MixBalance::MIN == Volume::MIN,
        MixBalance::MAX == Volume::MAX,
{
    float_bits::lemma_one_and_two();
    float_bits::lemma_unit_patterns(Volume::MIN);
    float_bits::lemma_unit_patterns(Volume::MAX);
}

} // verus!
