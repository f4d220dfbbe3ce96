//! Errors of the shared ADC service, which samples the chip's temperature
//! sensor and ADC-capable GPIO pins.

use vstd::prelude::*;

verus! {

/// Why an ADC read failed.
#[derive(Clone, Copy, Debug, PartialEq, Eq, Structural)]
pub enum AdcError {
    /// The service has not been started yet.
    NotInitialized,
    /// The conversion failed.
    ConversionFailed,
}

} // verus!
