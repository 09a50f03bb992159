//! The monitor: what it holds, and what it does on each arrival and tick.

use crate::buffer::TimestampBuffer;
use crate::config::WindowConfig;
use crate::rate::{effective_elapsed, effective_elapsed_ms, elapsed_since, RateSample};
use crate::window::{
    count_after_up_to, count_within, is_stale_front, lemma_append_keeps_order,
    lemma_monotonic_eviction, lemma_stale_front_unique, lemma_window_count,
    lemma_window_count_open, none_after, pruned, stale_prefix_len, time_ordered,
};
use vstd::prelude::*;

verus! {

/// What ends the monitor.
#[derive(Clone, Copy, Debug, PartialEq, Eq, Structural)]
pub enum Fault {
    /// Receiving the next message failed.
    Transport,
    /// The periodic tick failed.
    Scheduling,
}

impl Fault {
    /// What is said of the fault when the process stops.
    pub open spec fn diagnostic_text(self) -> Seq<char> {
        match self {
            Fault::Transport => "receive errored"@,
            Fault::Scheduling => "interval errored"@,
        }
    }

    /// The words for `diagnostic_text`.
    pub fn diagnostic(&self) -> (text: &'static str)
        ensures
            text@ == self.diagnostic_text(),
    {
        match self {
            Fault::Transport => "receive errored",
            Fault::Scheduling => "interval errored",
        }
    }
}

/// What the outside world reports to the monitor.
#[derive(Clone, Copy, Debug, PartialEq, Eq, Structural)]
pub enum Event {
    /// A message was received at this instant.
    Arrival(u64),
    /// An evaluation tick fell due at this instant.
    Tick(u64),
    /// The transport could not deliver the next message.
    TransportFault,
    /// The tick source failed.
    SchedulingFault,
}

/// What the outside world is to do after an event.
#[derive(Clone, Copy, Debug, PartialEq, Eq, Structural)]
pub enum Action {
    /// Nothing: wait for the next event.
    Continue,
    /// Hand this sample to the presentation.
    Report(RateSample),
    /// Stop the process with a diagnostic.
    Terminate(Fault),
}

/// The mathematical content of a monitor.
pub struct MonitorView {
    pub config: WindowConfig,
    pub started_ms: u64,
    pub arrivals: Seq<u64>,
}

impl MonitorView {
    /// Start of the trailing window that ends at `now`; negative while less
    /// than a window's length has passed on the clock.
    pub open spec fn window_start(self, now: u64) -> int {
        now - self.config.window_ms
    }

    /// The monitor after an arrival at `at`.
    pub open spec fn recorded(self, at: u64) -> MonitorView {
        MonitorView { arrivals: self.arrivals.push(at), ..self }
    }

    /// The monitor after an evaluation at `now`.
    pub open spec fn evaluated(self, now: u64) -> MonitorView {
        MonitorView { arrivals: pruned(self.arrivals, self.window_start(now)), ..self }
    }

    /// The sample that an evaluation at `now` produces.
    pub open spec fn sample(self, now: u64) -> RateSample {
        RateSample {
            count: self.evaluated(now).arrivals.len() as usize,
            effective_ms: effective_elapsed(
                self.config.window_ms as int,
                elapsed_since(self.started_ms as int, now as int),
            ) as u64,
        }
    }

    /// The monitor after `event`.
    pub open spec fn after(self, event: Event) -> MonitorView {
        match event {
            Event::Arrival(at) => self.recorded(at),
            Event::Tick(now) => self.evaluated(now),
            Event::TransportFault => self,
            Event::SchedulingFault => self,
        }
    }

    /// What is to be done on `event`.
    pub open spec fn action(self, event: Event) -> Action {
        match event {
            Event::Arrival(_) => Action::Continue,
            Event::Tick(now) => Action::Report(self.sample(now)),
            Event::TransportFault => Action::Terminate(Fault::Transport),
            Event::SchedulingFault => Action::Terminate(Fault::Scheduling),
        }
    }

    /// The arrivals held are in time order.
    pub open spec fn is_time_ordered(self) -> bool {
        time_ordered(self.arrivals)
    }
}

/// A rate monitor: its configuration, the instant its clock started, and
/// the arrivals it still holds.
pub struct Monitor {
    config: WindowConfig,
    started_ms: u64,
    arrivals: TimestampBuffer,
}

impl View for Monitor {
    type V = MonitorView;

    closed spec fn view(&self) -> MonitorView {
        MonitorView {
            config: self.config,
            started_ms: self.started_ms,
            arrivals: self.arrivals@,
        }
    }
}

impl Monitor {
    /// A monitor without arrivals whose clock started at `started_ms`.
    pub fn new(config: WindowConfig, started_ms: u64) -> (monitor: Self)
        ensures
            monitor@ == (MonitorView { config, started_ms, arrivals: Seq::<u64>::empty() }),
            monitor@.is_time_ordered(),
    {
        Monitor { config, started_ms, arrivals: TimestampBuffer::new() }
    }

    /// The configuration the monitor was built with.
    pub fn config(&self) -> (config: WindowConfig)
        ensures
            config == self@.config,
    {
        self.config
    }

    /// The instant the monitor's clock started.
    pub fn started_ms(&self) -> (started: u64)
        ensures
            started == self@.started_ms,
    {
        self.started_ms
    }

    /// Number of arrivals held.
    pub fn pending(&self) -> (n: usize)
        ensures
            n == self@.arrivals.len(),
    {
        self.arrivals.len()
    }

    /// Records an arrival at `at`.
    pub fn record(&mut self, at: u64)
        ensures
            final(self)@ == old(self)@.recorded(at),
            old(self)@.is_time_ordered() && (old(self)@.arrivals.len() > 0 ==> old(
                self,
            )@.arrivals.last() <= at) ==> final(self)@.is_time_ordered(),
    {
        self.arrivals.append(at);
    }

    /// Evaluates at `now`: evicts the arrivals that have left the trailing
    /// window and reports the count of those that remain, over the elapsed
    /// time capped at the window's length.
    pub fn evaluate(&mut self, now: u64) -> (sample: RateSample)
        ensures
            final(self)@ == old(self)@.evaluated(now),
            sample == old(self)@.sample(now),
            sample.count == final(self)@.arrivals.len(),
            is_stale_front(
                old(self)@.arrivals,
                old(self)@.window_start(now),
                old(self)@.arrivals.len() - final(self)@.arrivals.len(),
            ),
            old(self)@.is_time_ordered() ==> final(self)@.is_time_ordered(),
            old(self)@.is_time_ordered() ==> forall|j: int|
                0 <= j < final(self)@.arrivals.len() ==> final(self)@.arrivals[j] >= old(
                    self,
                )@.window_start(now),
            old(self)@.is_time_ordered() && none_after(old(self)@.arrivals, now as int)
                ==> sample.count == count_within(
                old(self)@.arrivals,
                old(self)@.window_start(now),
                now as int,
            ),
            elapsed_since(old(self)@.started_ms as int, now as int) < old(self)@.config.window_ms
                ==> sample.effective_ms == elapsed_since(old(self)@.started_ms as int, now as int),
            old(self)@.arrivals.len() == 0 ==> sample.count == 0 && sample.milli_rate() == 0,
    {
        let window: u64 = self.config.window_ms;
        let boundary: u64 = if now >= window {
            now - window
        } else {
            0
        };
        proof {
            lemma_stale_front_unique(
                self@.arrivals,
                self@.window_start(now),
                stale_prefix_len(self@.arrivals, self@.window_start(now)) as int,
            );
            if time_ordered(self@.arrivals) {
                lemma_monotonic_eviction(self@.arrivals, self@.window_start(now));
                if none_after(self@.arrivals, now as int) {
                    lemma_window_count(self@.arrivals, now as int, window as int);
                }
            }
        }
        self.arrivals.prune(boundary);
        let count: usize = self.arrivals.len();
        let effective_ms: u64 = effective_elapsed_ms(window, self.started_ms, now);
        RateSample { count, effective_ms }
    }

    /// Takes one event and says what is to be done.
    pub fn step(&mut self, event: Event) -> (action: Action)
        ensures
            final(self)@ == old(self)@.after(event),
            action == old(self)@.action(event),
    {
        match event {
            Event::Arrival(at) => {
                self.record(at);
                Action::Continue
            },
            Event::Tick(now) => {
                let sample = self.evaluate(now);
                Action::Report(sample)
            },
            Event::TransportFault => Action::Terminate(Fault::Transport),
            Event::SchedulingFault => Action::Terminate(Fault::Scheduling),
        }
    }
}

/// Window correctness: a monitor evaluated at `now`, whose arrivals are in
/// time order and none later than `now`, reports as its count the number of
/// arrivals after the start of the window and up to `now`, provided that no
/// arrival falls exactly on the start of the window.  (One that does is
/// counted too: see `Monitor::evaluate`.)
pub proof fn lemma_window_correctness(m: MonitorView, now: u64)
    requires
        m.is_time_ordered(),
        none_after(m.arrivals, now as int),
        m.arrivals.len() <= usize::MAX,
        forall|i: int| 0 <= i < m.arrivals.len() ==> m.arrivals[i] != m.window_start(now),
    ensures
        m.sample(now).count == count_after_up_to(m.arrivals, m.window_start(now), now as int),
{
    lemma_window_count_open(m.arrivals, now as int, m.config.window_ms as int);
    lemma_monotonic_eviction(m.arrivals, m.window_start(now));
}

/// An allowed event is anything but an arrival stamped earlier than the
/// newest arrival held.
pub open spec fn follows_the_clock(m: MonitorView, event: Event) -> bool {
    event matches Event::Arrival(at) ==> (m.arrivals.len() > 0 ==> m.arrivals.last() <= at)
}

/// Arrivals stay in time order: no event that follows the clock takes a
/// time-ordered monitor to one that is not.
pub proof fn lemma_step_keeps_order(m: MonitorView, event: Event)
    requires
        m.is_time_ordered(),
        follows_the_clock(m, event),
    ensures
        m.after(event).is_time_ordered(),
{
    match event {
        Event::Arrival(at) => {
            lemma_append_keeps_order(m.arrivals, at);
        },
        Event::Tick(now) => {
            lemma_monotonic_eviction(m.arrivals, m.window_start(now));
        },
        Event::TransportFault => {},
        Event::SchedulingFault => {},
    }
}

} // verus!
