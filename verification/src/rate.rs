//! Rate samples and the time they are averaged over.

use vstd::prelude::*;

verus! {

/// Milliseconds in a second.
pub const MS_PER_SECOND: u128 = 1000;

/// Parts that a rate of one message per second is reported in.
pub const RATE_SCALE: u128 = 1000;

/// Whole milliseconds in a span of `secs` seconds and `subsec_millis`
/// milliseconds more.
pub open spec fn span_millis(secs: int, subsec_millis: int) -> int {
    secs * MS_PER_SECOND + subsec_millis
}

/// Computes `span_millis`, stopping at the largest value that fits.
pub fn uptime_ms(secs: u64, subsec_millis: u32) -> (ms: u64)
    ensures
        ms == if span_millis(secs as int, subsec_millis as int) <= u64::MAX {
            span_millis(secs as int, subsec_millis as int)
        } else {
            u64::MAX as int
        },
{
    let span: u128 = (secs as u128) * MS_PER_SECOND + (subsec_millis as u128);
    if span <= u64::MAX as u128 {
        span as u64
    } else {
        u64::MAX
    }
}

/// Time that has passed at `now` since `started`; none before `started`.
pub open spec fn elapsed_since(started: int, now: int) -> int {
    if now >= started {
        now - started
    } else {
        0
    }
}

/// The time a rate is averaged over: the time elapsed, capped at the length
/// of the window.
pub open spec fn effective_elapsed(window: int, elapsed: int) -> int {
    if elapsed < window {
        elapsed
    } else {
        window
    }
}

/// Exec counterpart of `effective_elapsed` on a process clock.
pub fn effective_elapsed_ms(window_ms: u64, started_ms: u64, now_ms: u64) -> (effective: u64)
    ensures
        effective == effective_elapsed(
            window_ms as int,
            elapsed_since(started_ms as int, now_ms as int),
        ),
        elapsed_since(started_ms as int, now_ms as int) < window_ms ==> effective == elapsed_since(
            started_ms as int,
            now_ms as int,
        ),
{
    let elapsed: u64 = if now_ms >= started_ms {
        now_ms - started_ms
    } else {
        0
    };
    if elapsed < window_ms {
        elapsed
    } else {
        window_ms
    }
}

/// The outcome of one evaluation: `count` arrivals over `effective_ms`
/// milliseconds.
#[derive(Clone, Copy, Debug, PartialEq, Eq, Structural)]
pub struct RateSample {
    pub count: usize,
    pub effective_ms: u64,
}

impl RateSample {
    /// The rate in thousandths of a message per second, rounded down; zero
    /// where no time has passed.
    pub open spec fn milli_rate(self) -> int {
        if self.effective_ms == 0 {
            0
        } else {
            (self.count * MS_PER_SECOND * RATE_SCALE) / (self.effective_ms as int)
        }
    }

    /// A sample of `count` arrivals over `effective_ms` milliseconds.
    pub fn new(count: usize, effective_ms: u64) -> (sample: Self)
        ensures
            sample == (RateSample { count, effective_ms }),
    {
        RateSample { count, effective_ms }
    }

    /// Computes `milli_rate`.
    pub fn rate_millis(&self) -> (rate: u128)
        ensures
            rate == self.milli_rate(),
            self.count == 0 ==> rate == 0,
    {
        if self.effective_ms == 0 {
            0
        } else {
            let scaled: u128 = (self.count as u128) * MS_PER_SECOND * RATE_SCALE;
            scaled / (self.effective_ms as u128)
        }
    }
}

} // verus!
