//! Sliding-window message rate monitoring.
//!
//! Arrival instants are collected in a time-ordered FIFO buffer.  On every
//! evaluation tick the entries that have left the trailing window are evicted
//! from the front and the remaining count is divided by the effective elapsed
//! time.  All instants and durations are whole milliseconds on one monotonic
//! clock.

pub mod args;
pub mod buffer;
pub mod config;
pub mod history;
pub mod monitor;
pub mod rate;
pub mod window;
