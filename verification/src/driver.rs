//! The protocol, as a state machine that never touches the bus.
//!
//! One reading takes three stretches of work. The device is reset and polled
//! until it reports itself calibrated. Then a measurement is triggered and
//! the device is polled until it stops reporting busy. Then six bytes are
//! read and decoded.
//!
//! The driver holds the [`Phase`] that this work has reached. In every phase
//! but the last ones exactly one [`Request`] is pending: a write, a read or a
//! pause. The host carries it out and reports the [`Event`] that came of it,
//! and [`Ahtx0::advance`] moves on. An event that does not answer the pending
//! request changes nothing.

use crate::error::InternalError;
use crate::sample::RawSensorData;
use crate::status::StatusByte;
use linux_embedded_hal::I2CError;
use vstd::prelude::*;

verus! {

/// Seven-bit bus address of the sensor.
pub const DEVICE_ADDRESS: u8 = 0x38;

/// Pause after the soft reset, in milliseconds.
pub const RESET_SETTLE_MS: u32 = 20;

/// Pause after the trigger, before the first busy poll, in milliseconds.
pub const TRIGGER_SETTLE_MS: u32 = 80;

/// Pause after a status read that brought no progress, in milliseconds.
pub const POLL_INTERVAL_MS: u32 = 10;

/// How many status reads one wait may take before it gives up.
pub const POLL_ATTEMPTS: u8 = 10;

/// A command that the driver has written to the device.
#[derive(Clone, Copy, Debug, PartialEq, Eq, Structural)]
pub enum Command {
    /// Restart the device.
    SoftReset,
    /// Start one measurement.
    Trigger,
}

impl Command {
    /// The bytes that go over the bus.
    pub open spec fn payload(self) -> Seq<u8> {
        match self {
            Command::SoftReset => seq![0xBAu8],
            Command::Trigger => seq![0xACu8, 0x33u8, 0x00u8],
        }
    }

    /// The bytes to write for this command.
    pub fn bytes(&self) -> (out: Vec<u8>)
        ensures
            out@ == self.payload(),
    {
        let mut out: Vec<u8> = Vec::new();
        match self {
            Command::SoftReset => {
                out.push(0xBA);
            },
            Command::Trigger => {
                out.push(0xAC);
                out.push(0x33);
                out.push(0x00);
            },
        }
        assert(out@ =~= self.payload());
        out
    }
}

/// What the host is asked to do next.
#[derive(Clone, Copy, Debug, PartialEq, Eq, Structural)]
pub enum Request {
    /// Write the command's bytes to the device.
    Write(Command),
    /// Let this many milliseconds pass.
    Delay(u32),
    /// Read one byte: the status byte.
    ReadStatus,
    /// Read six bytes: the measurement.
    ReadSample,
}

/// What the host reports once it has carried a request out.
#[derive(Debug)]
pub enum Event {
    /// The write went through.
    Written,
    /// The pause is over.
    Elapsed,
    /// The one-byte read returned this byte.
    Status(StatusByte),
    /// The six-byte read returned these bytes.
    Sample([u8; 6]),
    /// The write or the read failed.
    Fault(I2CError),
}

impl Event {
    /// Whether this event is a possible outcome of the request. A write goes
    /// through or fails, a read returns what was asked for or fails, and a
    /// pause just ends.
    pub open spec fn answers(self, request: Request) -> bool {
        match request {
            Request::Write(_) => self is Written || self is Fault,
            Request::Delay(_) => self is Elapsed,
            Request::ReadStatus => self is Status || self is Fault,
            Request::ReadSample => self is Sample || self is Fault,
        }
    }
}

/// How far one reading has come.
#[derive(Debug)]
pub enum Phase {
    /// Nothing has happened yet. Pending: the soft reset.
    Reset,
    /// The reset is written. Pending: the pause that lets it settle.
    ResetSettling,
    /// Waiting for the calibrated flag; `polls` status reads have come back
    /// without it. Pending: a status read.
    AwaitingCalibration { polls: u8 },
    /// The last of `polls` status reads came back without the calibrated
    /// flag. Pending: the pause before the next try.
    CalibrationBackoff { polls: u8 },
    /// The device has reported itself calibrated. Pending: the trigger.
    Calibrated,
    /// The trigger is written. Pending: the pause before the first busy poll.
    Triggered,
    /// Waiting for the busy flag to clear; `polls` status reads have come
    /// back with it. Pending: a status read.
    AwaitingReady { polls: u8 },
    /// The last of `polls` status reads came back busy. Pending: the pause
    /// before the next try.
    ReadyBackoff { polls: u8 },
    /// The device has reported that it is done. Pending: the six-byte read.
    Ready,
    /// The reading is there. Nothing is pending.
    Decoded(RawSensorData),
    /// The reading was given up. Nothing is pending.
    Failed(InternalError),
}

impl Phase {
    /// The poll counters stay within the budget: a wait that is about to
    /// read has used up fewer than all its attempts, and a wait that pauses
    /// has used up at least one.
    pub open spec fn wf(self) -> bool {
        match self {
            Phase::AwaitingCalibration { polls } => polls < 10,
            Phase::CalibrationBackoff { polls } => 1 <= polls <= 10,
            Phase::AwaitingReady { polls } => polls < 10,
            Phase::ReadyBackoff { polls } => 1 <= polls <= 10,
            Phase::Decoded(sample) => sample.wf(),
            _ => true,
        }
    }

    /// The request that the host has to carry out in this phase.
    pub open spec fn pending(self) -> Option<Request> {
        match self {
            Phase::Reset => Some(Request::Write(Command::SoftReset)),
            Phase::ResetSettling => Some(Request::Delay(20)),
            Phase::AwaitingCalibration { .. } => Some(Request::ReadStatus),
            Phase::CalibrationBackoff { .. } => Some(Request::Delay(10)),
            Phase::Calibrated => Some(Request::Write(Command::Trigger)),
            Phase::Triggered => Some(Request::Delay(80)),
            Phase::AwaitingReady { .. } => Some(Request::ReadStatus),
            Phase::ReadyBackoff { .. } => Some(Request::Delay(10)),
            Phase::Ready => Some(Request::ReadSample),
            Phase::Decoded(_) => None,
            Phase::Failed(_) => None,
        }
    }

    /// The reading has ended, well or badly.
    pub open spec fn is_terminal(self) -> bool {
        self is Decoded || self is Failed
    }

    /// What the reading came to, once it has ended.
    pub open spec fn outcome(self) -> Option<Result<RawSensorData, InternalError>> {
        match self {
            Phase::Decoded(sample) => Some(Ok(sample)),
            Phase::Failed(error) => Some(Err(error)),
            _ => None,
        }
    }

    /// The phase that follows when the host reports `event`.
    ///
    /// A bus fault ends the reading at once, whatever was being written or
    /// read. A wait ends well on the first status byte that shows the flag
    /// it waits for, and badly when the pause after its tenth read is over.
    /// An event that does not answer the pending request is passed over.
    pub open spec fn next(self, event: Event) -> Phase {
        match self.pending() {
            None => self,
            Some(request) => if !event.answers(request) {
                self
            } else {
                match (self, event) {
                    (_, Event::Fault(cause)) => Phase::Failed(InternalError::I2c(cause)),
                    (Phase::Reset, _) => Phase::ResetSettling,
                    (Phase::ResetSettling, _) => Phase::AwaitingCalibration { polls: 0 },
                    (Phase::AwaitingCalibration { polls }, Event::Status(status)) => {
                        if status.calibrated() {
                            Phase::Calibrated
                        } else {
                            Phase::CalibrationBackoff { polls: (polls + 1) as u8 }
                        }
                    },
                    (Phase::CalibrationBackoff { polls }, _) => {
                        if polls < 10 {
                            Phase::AwaitingCalibration { polls }
                        } else {
                            Phase::Failed(InternalError::CalibrationFailed)
                        }
                    },
                    (Phase::Calibrated, _) => Phase::Triggered,
                    (Phase::Triggered, _) => Phase::AwaitingReady { polls: 0 },
                    (Phase::AwaitingReady { polls }, Event::Status(status)) => {
                        if !status.busy() {
                            Phase::Ready
                        } else {
                            Phase::ReadyBackoff { polls: (polls + 1) as u8 }
                        }
                    },
                    (Phase::ReadyBackoff { polls }, _) => {
                        if polls < 10 {
                            Phase::AwaitingReady { polls }
                        } else {
                            Phase::Failed(InternalError::SensorStillBusy)
                        }
                    },
                    (Phase::Ready, Event::Sample(raw)) => Phase::Decoded(
                        RawSensorData::decoded(raw@),
                    ),
                    _ => self,
                }
            },
        }
    }
}

/// The driver for one reading from one sensor.
///
/// It is made in [`Phase::Reset`] and moves only through
/// [`Ahtx0::advance`], so its poll counters are always within the budget.
#[derive(Debug)]
pub struct Ahtx0 {
    address: u8,
    phase: Phase,
}

impl Ahtx0 {
    #[verifier::type_invariant]
    spec fn inv(self) -> bool {
        self.phase.wf()
    }

    /// The phase that the reading has reached.
    pub closed spec fn view(&self) -> Phase {
        self.phase
    }

    /// The bus address that the driver was made for.
    pub closed spec fn bus_address(&self) -> u8 {
        self.address
    }

    /// A driver for the device at `address`, with nothing done yet.
    pub fn new(address: u8) -> (driver: Ahtx0)
        ensures
            driver@ == Phase::Reset,
            driver.bus_address() == address,
    {
        Ahtx0 { address, phase: Phase::Reset }
    }

    /// The bus address to use for every write and read.
    pub fn address(&self) -> (address: u8)
        ensures
            address == self.bus_address(),
    {
        self.address
    }

    /// The phase that the reading has reached.
    pub fn phase(&self) -> (phase: &Phase)
        ensures
            *phase == self@,
            phase.wf(),
    {
        proof {
            use_type_invariant(self);
        }
        &self.phase
    }

    /// What the host has to do now, or `None` once the reading has ended.
    pub fn pending(&self) -> (request: Option<Request>)
        ensures
            request == self@.pending(),
    {
        match self.phase {
            Phase::Reset => Some(Request::Write(Command::SoftReset)),
            Phase::ResetSettling => Some(Request::Delay(RESET_SETTLE_MS)),
            Phase::AwaitingCalibration { .. } => Some(Request::ReadStatus),
            Phase::CalibrationBackoff { .. } => Some(Request::Delay(POLL_INTERVAL_MS)),
            Phase::Calibrated => Some(Request::Write(Command::Trigger)),
            Phase::Triggered => Some(Request::Delay(TRIGGER_SETTLE_MS)),
            Phase::AwaitingReady { .. } => Some(Request::ReadStatus),
            Phase::ReadyBackoff { .. } => Some(Request::Delay(POLL_INTERVAL_MS)),
            Phase::Ready => Some(Request::ReadSample),
            Phase::Decoded(_) => None,
            Phase::Failed(_) => None,
        }
    }

    /// Whether the device has reported itself calibrated and the trigger has
    /// not been written yet.
    pub fn is_calibrated(&self) -> (yes: bool)
        ensures
            yes == (self@ is Calibrated),
    {
        match self.phase {
            Phase::Calibrated => true,
            _ => false,
        }
    }

    /// Takes in what the host reports and moves to the phase that follows.
    pub fn advance(&mut self, event: Event)
        ensures
            final(self)@ == old(self)@.next(event),
            final(self)@.wf(),
            final(self).bus_address() == old(self).bus_address(),
    {
        proof {
            use_type_invariant(&*self);
            lemma_next_wf(self.phase, event);
        }
        let next: Option<Phase> = match event {
            Event::Written => match self.phase {
                Phase::Reset => Some(Phase::ResetSettling),
                Phase::Calibrated => Some(Phase::Triggered),
                _ => None,
            },
            Event::Elapsed => match self.phase {
                Phase::ResetSettling => Some(Phase::AwaitingCalibration { polls: 0 }),
                Phase::CalibrationBackoff { polls } => {
                    if polls < POLL_ATTEMPTS {
                        Some(Phase::AwaitingCalibration { polls })
                    } else {
                        Some(Phase::Failed(InternalError::CalibrationFailed))
                    }
                },
                Phase::Triggered => Some(Phase::AwaitingReady { polls: 0 }),
                Phase::ReadyBackoff { polls } => {
                    if polls < POLL_ATTEMPTS {
                        Some(Phase::AwaitingReady { polls })
                    } else {
                        Some(Phase::Failed(InternalError::SensorStillBusy))
                    }
                },
                _ => None,
            },
            Event::Status(status) => match self.phase {
                Phase::AwaitingCalibration { polls } => {
                    if status.is_calibrated() {
                        Some(Phase::Calibrated)
                    } else {
                        Some(Phase::CalibrationBackoff { polls: polls + 1 })
                    }
                },
                Phase::AwaitingReady { polls } => {
                    if !status.is_busy() {
                        Some(Phase::Ready)
                    } else {
                        Some(Phase::ReadyBackoff { polls: polls + 1 })
                    }
                },
                _ => None,
            },
            Event::Sample(raw) => match self.phase {
                Phase::Ready => Some(Phase::Decoded(RawSensorData::from_raw_bytes(raw))),
                _ => None,
            },
            Event::Fault(cause) => match self.phase {
                Phase::Reset
                | Phase::AwaitingCalibration { .. }
                | Phase::Calibrated
                | Phase::AwaitingReady { .. }
                | Phase::Ready => Some(Phase::Failed(InternalError::I2c(cause))),
                _ => None,
            },
        };
        if let Some(phase) = next {
            self.phase = phase;
        }
    }

    /// Ends the driver's life and hands out what the reading came to:
    /// the sample, the reason why there is none, or `None` while the reading
    /// is still under way.
    pub fn into_outcome(self) -> (outcome: Option<Result<RawSensorData, InternalError>>)
        ensures
            outcome == self@.outcome(),
            outcome matches Some(Ok(sample)) ==> sample.wf(),
    {
        proof {
            use_type_invariant(&self);
        }
        match self.phase {
            Phase::Decoded(sample) => Some(Ok(sample)),
            Phase::Failed(error) => Some(Err(error)),
            _ => None,
        }
    }
}

/// A step keeps the poll counters within the budget.
pub proof fn lemma_next_wf(phase: Phase, event: Event)
    requires
        phase.wf(),
    ensures
        phase.next(event).wf(),
{
    if let Event::Sample(raw) = event {
        crate::sample::lemma_packed_decode(raw@);
    }
}

} // verus!
