//! What can go wrong while a reading is taken.

use linux_embedded_hal::I2CError;
use vstd::prelude::*;

verus! {

/// The bus error of `linux_embedded_hal`, carried through untouched: nothing
/// here looks inside it.
#[verifier::external_type_specification]
#[verifier::external_body]
pub struct ExI2CError(I2CError);

/// Why no reading was produced.
#[derive(Debug)]
pub enum InternalError {
    /// A write or a read on the bus failed. The bus error is kept as it came.
    I2c(I2CError),
    /// The device never reported itself calibrated after the reset.
    CalibrationFailed,
    /// The device never stopped reporting busy after the trigger.
    SensorStillBusy,
}

} // verus!
