//! Feature registers of a SPI flash memory chip.
use vstd::prelude::*;

verus! {

/// The register of a feature in the [`MT29F2G01ABAGDWB`](super::chip::MT29F2G01ABAGDWB) chip.
#[derive(PartialEq, Eq, Debug, Clone, Copy, Hash)]
pub enum FeatureRegister {
    BlockLock,
    Configuration,
    Status,
    DieSelect,
}

impl FeatureRegister {
    /// The address of the register.
    pub open spec fn spec_address(self) -> u8 {
        match self {
            FeatureRegister::BlockLock => 0xA0,
            FeatureRegister::Configuration => 0xB0,
            FeatureRegister::Status => 0xC0,
            FeatureRegister::DieSelect => 0xD0,
        }
    }

    /// Returns the address of the register.
    pub fn address(&self) -> (address: u8)
        ensures
            address == self.spec_address(),
    {
        match self {
            FeatureRegister::BlockLock => 0xA0,
            FeatureRegister::Configuration => 0xB0,
            FeatureRegister::Status => 0xC0,
            FeatureRegister::DieSelect => 0xD0,
        }
    }
}

} // verus!
