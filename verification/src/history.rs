//! Whole runs of a monitor: what holds after any sequence of events that
//! come in clock order.

use crate::monitor::{Event, MonitorView};
use crate::window::{
    count_within, lemma_append_keeps_order, lemma_monotonic_eviction, lemma_pruned_nothing,
    lemma_pruned_push, lemma_pruned_twice, lemma_window_count, none_after, pruned, time_ordered,
};
use vstd::prelude::*;

verus! {

/// The instant that an event bears, where it bears one.
pub open spec fn instant_of(event: Event) -> Option<u64> {
    match event {
        Event::Arrival(at) => Some(at),
        Event::Tick(now) => Some(now),
        Event::TransportFault => None,
        Event::SchedulingFault => None,
    }
}

/// `second` does not bear an earlier instant than `first`.
pub open spec fn no_earlier(first: Event, second: Event) -> bool {
    match (instant_of(first), instant_of(second)) {
        (Some(a), Some(b)) => a <= b,
        _ => true,
    }
}

/// No event bears an instant earlier than that of an event before it.
pub open spec fn in_clock_order(events: Seq<Event>) -> bool {
    forall|i: int, j: int|
        0 <= i <= j < events.len() ==> no_earlier(#[trigger] events[i], #[trigger] events[j])
}

/// No event bears an instant later than `instant`.
pub open spec fn none_later(events: Seq<Event>, instant: int) -> bool {
    forall|i: int|
        0 <= i < events.len() ==> (instant_of(#[trigger] events[i]) matches Some(t) ==> t
            <= instant)
}

/// The instants of the arrivals among `events`, in order.
pub open spec fn arrivals_of(events: Seq<Event>) -> Seq<u64>
    decreases events.len(),
{
    if events.len() == 0 {
        Seq::empty()
    } else {
        let before = arrivals_of(events.drop_last());
        match events.last() {
            Event::Arrival(at) => before.push(at),
            _ => before,
        }
    }
}

/// The monitor after all of `events`, taken in order.
pub open spec fn after_all(m: MonitorView, events: Seq<Event>) -> MonitorView
    decreases events.len(),
{
    if events.len() == 0 {
        m
    } else {
        after_all(m, events.drop_last()).after(events.last())
    }
}

/// The latest instant that any of `events` bears; zero where none bears one.
pub open spec fn latest_instant(events: Seq<Event>) -> int
    decreases events.len(),
{
    if events.len() == 0 {
        0
    } else {
        let before = latest_instant(events.drop_last());
        match instant_of(events.last()) {
            Some(t) => if t > before {
                t as int
            } else {
                before
            },
            None => before,
        }
    }
}

/// The latest window start that a tick among `events` has evicted up to;
/// zero where none has.
pub open spec fn evicted_up_to(events: Seq<Event>, window: int) -> int
    decreases events.len(),
{
    if events.len() == 0 {
        0
    } else {
        let before = evicted_up_to(events.drop_last(), window);
        match events.last() {
            Event::Tick(now) => if now - window > before {
                now - window
            } else {
                before
            },
            _ => before,
        }
    }
}

proof fn lemma_clock_order_split(events: Seq<Event>)
    requires
        events.len() > 0,
        in_clock_order(events),
    ensures
        in_clock_order(events.drop_last()),
        instant_of(events.last()) matches Some(t) ==> none_later(events.drop_last(), t as int),
{
    let prefix = events.drop_last();
    assert forall|i: int, j: int| 0 <= i <= j < prefix.len() implies no_earlier(
        #[trigger] prefix[i],
        #[trigger] prefix[j],
    ) by {
        assert(no_earlier(events[i], events[j]));
    }
    assert forall|i: int| 0 <= i < prefix.len() implies no_earlier(
        #[trigger] prefix[i],
        events.last(),
    ) by {
        assert(no_earlier(events[i], events[events.len() - 1]));
    }
}

proof fn lemma_latest_instant_bound(events: Seq<Event>, instant: int)
    requires
        0 <= instant,
        none_later(events, instant),
    ensures
        0 <= latest_instant(events) <= instant,
    decreases events.len(),
{
    if events.len() > 0 {
        let prefix = events.drop_last();
        assert forall|i: int| 0 <= i < prefix.len() implies (instant_of(
            #[trigger] prefix[i],
        ) matches Some(t) ==> t <= instant) by {
            assert(prefix[i] == events[i]);
        }
        lemma_latest_instant_bound(prefix, instant);
        assert(events.last() == events[events.len() - 1]);
    }
}

proof fn lemma_run_invariant(m: MonitorView, events: Seq<Event>)
    requires
        m.arrivals.len() == 0,
        in_clock_order(events),
    ensures
        after_all(m, events).config == m.config,
        after_all(m, events).started_ms == m.started_ms,
        time_ordered(arrivals_of(events)),
        none_after(arrivals_of(events), latest_instant(events)),
        0 <= evicted_up_to(events, m.config.window_ms as int),
        evicted_up_to(events, m.config.window_ms as int) > 0 ==> evicted_up_to(
            events,
            m.config.window_ms as int,
        ) <= latest_instant(events) - m.config.window_ms,
        after_all(m, events).arrivals == pruned(
            arrivals_of(events),
            evicted_up_to(events, m.config.window_ms as int),
        ),
    decreases events.len(),
{
    let window = m.config.window_ms as int;
    if events.len() == 0 {
        lemma_pruned_nothing(m.arrivals, 0);
    } else {
        let prefix = events.drop_last();
        let held = arrivals_of(prefix);
        let low = evicted_up_to(prefix, window);
        lemma_clock_order_split(events);
        lemma_run_invariant(m, prefix);
        match events.last() {
            Event::Arrival(at) => {
                lemma_latest_instant_bound(prefix, at as int);
                lemma_append_keeps_order(held, at);
                lemma_pruned_push(held, at, low);
            },
            Event::Tick(now) => {
                lemma_latest_instant_bound(prefix, now as int);
                lemma_pruned_twice(held, low, now - window);
            },
            Event::TransportFault => {},
            Event::SchedulingFault => {},
        }
    }
}

/// Single-producer ordering over a whole run: whatever arrivals and ticks a
/// monitor that started empty has taken in clock order, the arrivals it
/// holds are in time order, and they are the arrivals of the run without a
/// stale front.
pub proof fn lemma_run_keeps_order(m: MonitorView, events: Seq<Event>)
    requires
        m.arrivals.len() == 0,
        in_clock_order(events),
    ensures
        time_ordered(arrivals_of(events)),
        after_all(m, events).is_time_ordered(),
        exists|boundary: int| after_all(m, events).arrivals == pruned(arrivals_of(events), boundary),
{
    lemma_run_invariant(m, events);
    lemma_monotonic_eviction(
        arrivals_of(events),
        evicted_up_to(events, m.config.window_ms as int),
    );
}

/// Window correctness over a whole run: a monitor that started empty and has
/// taken `events` in clock order, ticks among them, reports at a further
/// tick at `now` the number of all arrivals of the run that lie between
/// `now` less the window's length and `now`, both ends included.  Earlier
/// evictions have removed none of them.
pub proof fn lemma_run_window_count(m: MonitorView, events: Seq<Event>, now: u64)
    requires
        m.arrivals.len() == 0,
        in_clock_order(events.push(Event::Tick(now))),
        arrivals_of(events).len() <= usize::MAX,
    ensures
        after_all(m, events).sample(now).count == count_within(
            arrivals_of(events),
            now - m.config.window_ms,
            now as int,
        ),
        after_all(m, events.push(Event::Tick(now))).arrivals.len() == count_within(
            arrivals_of(events),
            now - m.config.window_ms,
            now as int,
        ),
{
    let window = m.config.window_ms as int;
    let all = arrivals_of(events);
    let low = evicted_up_to(events, window);
    lemma_clock_order_split(events.push(Event::Tick(now)));
    assert(events.push(Event::Tick(now)).drop_last() =~= events);
    lemma_latest_instant_bound(events, now as int);
    lemma_run_invariant(m, events);
    lemma_pruned_twice(all, low, now - window);
    if now - window < low {
        lemma_pruned_nothing(all, now - window);
        lemma_pruned_nothing(all, low);
    }
    lemma_window_count(all, now as int, window);
    lemma_monotonic_eviction(all, now - window);
}

} // verus!
