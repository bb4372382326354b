//! Driver for the Winsen MH-Z19C CO₂ sensor.
//!
//! The sensor is a nondispersive infrared (NDIR) CO₂ sensor that is read out
//! through a serial (UART) interface, in frames of nine bytes. The driver
//! never blocks: every operation is a call that is repeated until it gives
//! its result, and that says in between that it would block.
//!
//! * [`command`] and [`frame`] hold the protocol: the commands, their frames,
//!   and the validation of the frames that come back.
//! * [`transport`] holds the serial line that the driver talks through, and
//!   the record of the calls made on it, over which the contracts are
//!   stated.
//! * [`nb_comm`] holds the state machines that write a command, flush the
//!   line and read a response, one byte per call.
//! * [`driver`] holds the sensor's operations.
//! * [`blocking`] holds a driver for lines that block.
//! * [`serial_mock`] holds a line that answers from a script.

pub mod blocking;
pub mod command;
pub mod driver;
pub mod frame;
pub mod nb_comm;
pub mod serial_mock;
pub mod transport;

pub use driver::{BaseApi, Co2AndTemperature, Error, Firmware5Api, MhZ19C, MhZ19CFw5};
