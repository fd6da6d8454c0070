//! A verified streaming-statistics and trial-timing harness.
//!
//! The library accumulates integer observations (for the timer: durations in
//! nanoseconds, per-item durations in picoseconds) in exact arithmetic and
//! proves that the derived mean and variance agree with their textbook
//! definitions over the full sequence of observations.

pub mod seq_sums;
pub mod sqrt;
pub mod stats;
pub mod timer;
