//! Serial address of a TMC2209 chip.
use vstd::prelude::*;

verus! {

/// Serial address of a TMC2209 chip.
#[derive(Clone, Copy, Debug, PartialEq, Eq)]
pub enum UARTAddress {
    A0,
    A1,
    A2,
    A3,
}

impl UARTAddress {
    /// The numeric value of the address.
    pub open spec fn spec_value(self) -> u8 {
        match self {
            UARTAddress::A0 => 0b00,
            UARTAddress::A1 => 0b01,
            UARTAddress::A2 => 0b10,
            UARTAddress::A3 => 0b11,
        }
    }

    /// Returns the numeric value of the address.
    pub fn as_u8(&self) -> (value: u8)
        ensures
            value == self.spec_value(),
    {
        match self {
            UARTAddress::A0 => 0b00,
            UARTAddress::A1 => 0b01,
            UARTAddress::A2 => 0b10,
            UARTAddress::A3 => 0b11,
        }
    }

    /// Returns a [`UARTAddress`] from the state of the `MS1` and `MS2` pins (`true` means the pin
    /// is shorted to `Vccio`, `false` means the pin is shorted to `GND`).
    pub fn from_ms_pins_state(ms1: bool, ms2: bool) -> (address: Self)
        ensures
            address.spec_value() == (if ms1 { 1u8 } else { 0u8 }) + (if ms2 { 2u8 } else { 0u8 }),
    {
        if ms1 && ms2 {
            Self::A3
        } else if !ms1 && !ms2 {
            Self::A0
        } else if ms1 && !ms2 {
            Self::A1
        } else {
            Self::A2
        }
    }
}

} // verus!
