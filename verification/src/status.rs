//! The status byte that the sensor answers a one-byte read with.

use vstd::prelude::*;

verus! {

/// Mask of the busy flag: bit 7.
pub const STATUS_BUSY: u8 = 0x80;

/// Mask of the calibrated flag: bit 3.
pub const STATUS_CALIBRATED: u8 = 0x08;

/// One status byte as read from the device. Only two of its bits carry
/// meaning here; the others are ignored.
#[derive(Clone, Copy, Debug, PartialEq, Eq, Structural)]
pub struct StatusByte(pub u8);

impl StatusByte {
    /// The device is still measuring: bit 7 is set.
    pub open spec fn busy(self) -> bool {
        self.0 & 0x80 == 0x80
    }

    /// The device has loaded its calibration: bit 3 is set.
    pub open spec fn calibrated(self) -> bool {
        self.0 & 0x08 == 0x08
    }

    /// Whether the device reports that a measurement is still running.
    pub fn is_busy(&self) -> (b: bool)
        ensures
            b == self.busy(),
    {
        let bits: u8 = self.0;
        assert((bits & 0x80 != 0) == (bits & 0x80 == 0x80)) by (bit_vector);
        (bits & STATUS_BUSY) != 0
    }

    /// Whether the device reports that it is calibrated.
    pub fn is_calibrated(&self) -> (b: bool)
        ensures
            b == self.calibrated(),
    {
        (self.0 & STATUS_CALIBRATED) == STATUS_CALIBRATED
    }
}

/// The busy flag is the top bit, so a byte is busy exactly when it is 128 or
/// more.
pub proof fn lemma_busy_is_top_bit(s: StatusByte)
    ensures
        s.busy() <==> s.0 >= 128,
{
    let bits: u8 = s.0;
    assert((bits & 0x80 == 0x80) <==> bits >= 128) by (bit_vector);
}

/// The calibrated flag is bit 3: the byte, divided by eight, is odd.
pub proof fn lemma_calibrated_is_bit_three(s: StatusByte)
    ensures
        s.calibrated() <==> (s.0 / 8) % 2 == 1,
{
    let bits: u8 = s.0;
    assert((bits & 0x08 == 0x08) <==> (bits / 8) % 2 == 1) by (bit_vector);
}

} // verus!
