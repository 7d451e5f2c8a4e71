//! Driver logic for AHT-family humidity and temperature sensors.
//!
//! The sensor sits on a two-wire bus. This crate holds everything that can
//! be decided without touching the bus: what to send, how long to wait, how
//! often to poll, when to give up, and how to turn the six bytes of a reading
//! into physical units. A host owns the bus and the clock; it asks the
//! [`driver::Ahtx0`] what to do next, does it, and reports what happened.

pub mod driver;
pub mod error;
pub mod sample;
pub mod status;
pub mod trace;

pub use error::InternalError;
pub use sample::RawSensorData;
pub use status::StatusByte;
