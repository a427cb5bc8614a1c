//! Temperature-related configurations.
use vstd::prelude::*;

verus! {

/// Configuration settings for the thermistor.
///
/// This struct defines the parameters necessary to configure a thermistor, including its beta
/// value and resistance characteristics.
#[derive(Clone, Copy, Debug, PartialEq, Eq, Structural)]
pub struct ThermistorConfig {
    /// The beta value of the thermistor.
    pub beta: u32,
    /// The resistance at the reference temperature (T0).
    pub resistance_at_t0: u32,
    /// The resistance of the other resistor in the voltage divider.
    pub other_resistance: u32,
}

} // verus!
