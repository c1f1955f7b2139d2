//! Host-side driver for the module ports of a Tessel board.
//!
//! A `Port` owns one byte-stream channel to the coprocessor that drives the
//! physical pins, together with a registry of exclusively acquirable pins.
//! The `I2C` engine acquires the clock and data pins, derives the clock
//! divisor for a requested frequency, and sequences the framed bus commands
//! (start / transmit / receive / stop) over the shared channel.

pub mod channel;
pub mod error;
pub mod i2c;
pub mod led;
pub mod port;
pub mod protocol;

pub use channel::PortSocket;
pub use error::Error;
pub use i2c::I2C;
pub use led::LedState;
pub use port::Pin;
pub use port::Port;
