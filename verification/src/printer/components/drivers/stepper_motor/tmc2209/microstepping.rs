//! Microstep resolutions supported by the TMC2209 chip.
use vstd::prelude::*;

verus! {

/// Amount of microsteps the motor will require to do a full single step.
#[derive(Clone, Copy, PartialEq, Eq, Debug, PartialOrd, Ord)]
pub enum MicrostepsPerStep {
    /// `1` microstep corresponds to a step.
    FULLSTEP,
    /// `2` microsteps correspond to a step.
    M2,
    /// `4` microsteps correspond to a step.
    M4,
    /// `8` microsteps correspond to a step.
    M8,
    /// `16` microsteps correspond to a step.
    M16,
    /// `32` microsteps correspond to a step.
    M32,
    /// `64` microsteps correspond to a step.
    M64,
    /// `128` microsteps correspond to a step.
    M128,
    /// `256` microsteps correspond to a step.
    M256,
}

impl MicrostepsPerStep {
    /// Maximum microstep resolution achievable by the TMC2209 chip.
    pub const MAX_RESOLUTION: Self = Self::M256;

    /// The exponent `n` such that `2^n` microsteps make a step.
    pub open spec fn spec_exponent(self) -> u8 {
        match self {
            MicrostepsPerStep::FULLSTEP => 0,
            MicrostepsPerStep::M2 => 1,
            MicrostepsPerStep::M4 => 2,
            MicrostepsPerStep::M8 => 3,
            MicrostepsPerStep::M16 => 4,
            MicrostepsPerStep::M32 => 5,
            MicrostepsPerStep::M64 => 6,
            MicrostepsPerStep::M128 => 7,
            MicrostepsPerStep::M256 => 8,
        }
    }

    /// The number of microsteps per step, `2^exponent`.
    pub open spec fn spec_value(self) -> u16 {
        match self {
            MicrostepsPerStep::FULLSTEP => 1,
            MicrostepsPerStep::M2 => 2,
            MicrostepsPerStep::M4 => 4,
            MicrostepsPerStep::M8 => 8,
            MicrostepsPerStep::M16 => 16,
            MicrostepsPerStep::M32 => 32,
            MicrostepsPerStep::M64 => 64,
            MicrostepsPerStep::M128 => 128,
            MicrostepsPerStep::M256 => 256,
        }
    }

    /// The value of the `MRES` field of the `CHOPCONF` register that selects this resolution.
    pub open spec fn spec_value_of_register(self) -> u8 {
        (8 - self.spec_exponent()) as u8
    }

    /// Returns the exponent `n` such that `2^n` microsteps make a step.
    pub fn as_exponent_of_2(&self) -> (exponent: u8)
        ensures
            exponent == self.spec_exponent(),
            exponent <= 8,
    {
        match self {
            MicrostepsPerStep::FULLSTEP => 0,
            MicrostepsPerStep::M2 => 1,
            MicrostepsPerStep::M4 => 2,
            MicrostepsPerStep::M8 => 3,
            MicrostepsPerStep::M16 => 4,
            MicrostepsPerStep::M32 => 5,
            MicrostepsPerStep::M64 => 6,
            MicrostepsPerStep::M128 => 7,
            MicrostepsPerStep::M256 => 8,
        }
    }

    /// Returns the number of microsteps per step this instance represents.
    pub fn as_value(&self) -> (value: u16)
        ensures
            value == self.spec_value(),
    {
        let exponent = self.as_exponent_of_2() as u16;
        let value = 1u16 << exponent;
        assert(value == self.spec_value()) by {
            assert(1u16 << 0u16 == 1u16 && 1u16 << 1u16 == 2u16 && 1u16 << 2u16 == 4u16 && 1u16 << 3u16
                == 8u16 && 1u16 << 4u16 == 16u16 && 1u16 << 5u16 == 32u16 && 1u16 << 6u16 == 64u16 && 1u16
                << 7u16 == 128u16 && 1u16 << 8u16 == 256u16) by (bit_vector);
        }
        value
    }

    /// Returns the number of microsteps with the highest resolution this instance represents.
    pub fn as_max_resolution_microsteps_count(&self) -> (count: u16)
        ensures
            count == 256int / (self.spec_value() as int),
            count * self.spec_value() == 256,
    {
        Self::MAX_RESOLUTION.as_value() / self.as_value()
    }

    /// Returns the value of the `MRES` field of the `CHOPCONF` register that selects this resolution.
    pub fn as_value_of_register(&self) -> (value: u8)
        ensures
            value == self.spec_value_of_register(),
            value <= 8,
    {
        8 - self.as_exponent_of_2()
    }

    /// Returns the resolution selected by the provided value of the `MRES` field of the `CHOPCONF`
    /// register, or `None` if the value doesn't select any resolution.
    pub fn from_value_of_register(register: u8) -> (microsteps: Option<Self>)
        ensures
            register <= 8 <==> microsteps is Some,
            microsteps matches Some(m) ==> m.spec_value_of_register() == register,
    {
        if register == 0b0000_0000 {
            Some(MicrostepsPerStep::M256)
        } else if register == 0b0000_0001 {
            Some(MicrostepsPerStep::M128)
        } else if register == 0b0000_0010 {
            Some(MicrostepsPerStep::M64)
        } else if register == 0b0000_0011 {
            Some(MicrostepsPerStep::M32)
        } else if register == 0b0000_0100 {
            Some(MicrostepsPerStep::M16)
        } else if register == 0b0000_0101 {
            Some(MicrostepsPerStep::M8)
        } else if register == 0b0000_0110 {
            Some(MicrostepsPerStep::M4)
        } else if register == 0b0000_0111 {
            Some(MicrostepsPerStep::M2)
        } else if register == 0b0000_1000 {
            Some(MicrostepsPerStep::FULLSTEP)
        } else {
            None
        }
    }
}

/// Converting a resolution to the value of its register and back gives the same resolution.
pub proof fn lemma_register_value_roundtrip(microsteps: MicrostepsPerStep, other: MicrostepsPerStep)
    ensures
        microsteps.spec_value_of_register() <= 8,
        microsteps.spec_value_of_register() == other.spec_value_of_register() ==> microsteps == other,
{
}

/// A resolution makes `2^exponent` microsteps per step, and the `MRES` value that selects it is
/// the exponent counted down from the full resolution of 256 microsteps: `microsteps * 2^MRES`
/// is always 256 (`MRES` 0 selects 256 microsteps, 8 selects full steps).
pub proof fn lemma_resolution_is_a_power_of_2(microsteps: MicrostepsPerStep)
    ensures
        microsteps.spec_value() == vstd::arithmetic::power2::pow2(microsteps.spec_exponent() as nat),
        microsteps.spec_value() * vstd::arithmetic::power2::pow2(microsteps.spec_value_of_register() as nat) == 256,
        microsteps.spec_exponent() <= 8,
{
    vstd::arithmetic::power2::lemma2_to64();
    match microsteps {
        MicrostepsPerStep::FULLSTEP => assert(1 * vstd::arithmetic::power2::pow2(8) == 256),
        MicrostepsPerStep::M2 => assert(2 * vstd::arithmetic::power2::pow2(7) == 256),
        MicrostepsPerStep::M4 => assert(4 * vstd::arithmetic::power2::pow2(6) == 256),
        MicrostepsPerStep::M8 => assert(8 * vstd::arithmetic::power2::pow2(5) == 256),
        MicrostepsPerStep::M16 => assert(16 * vstd::arithmetic::power2::pow2(4) == 256),
        MicrostepsPerStep::M32 => assert(32 * vstd::arithmetic::power2::pow2(3) == 256),
        MicrostepsPerStep::M64 => assert(64 * vstd::arithmetic::power2::pow2(2) == 256),
        MicrostepsPerStep::M128 => assert(128 * vstd::arithmetic::power2::pow2(1) == 256),
        MicrostepsPerStep::M256 => assert(256 * vstd::arithmetic::power2::pow2(0) == 256),
    }
}

} // verus!
