//! The fixed parameters of a monitor.

use vstd::prelude::*;

verus! {

/// Length of the trailing window over which the rate is averaged.
pub const MOVING_AVG_INTERVAL_MS: u64 = 60000;

/// Delay between process start and the start of the evaluation ticks.
pub const INITIAL_SLEEP_MS: u64 = 1000;

/// Period of the evaluation ticks.
pub const UPDATE_INTERVAL_MS: u64 = 1000;

/// Window length, tick period and warm-up delay, in milliseconds.  A value is
/// never changed once a monitor has been built from it.
#[derive(Clone, Copy, Debug, PartialEq, Eq, Structural)]
pub struct WindowConfig {
    pub window_ms: u64,
    pub tick_ms: u64,
    pub warmup_ms: u64,
}

impl WindowConfig {
    /// A configuration with the given durations.
    pub fn new(window_ms: u64, tick_ms: u64, warmup_ms: u64) -> (config: Self)
        ensures
            config == (WindowConfig { window_ms, tick_ms, warmup_ms }),
    {
        WindowConfig { window_ms, tick_ms, warmup_ms }
    }

    /// A one-minute window, evaluated every second after one second of
    /// warm-up.
    pub fn standard() -> (config: Self)
        ensures
            config == (WindowConfig {
                window_ms: MOVING_AVG_INTERVAL_MS,
                tick_ms: UPDATE_INTERVAL_MS,
                warmup_ms: INITIAL_SLEEP_MS,
            }),
    {
        WindowConfig {
            window_ms: MOVING_AVG_INTERVAL_MS,
            tick_ms: UPDATE_INTERVAL_MS,
            warmup_ms: INITIAL_SLEEP_MS,
        }
    }
}

} // verus!
