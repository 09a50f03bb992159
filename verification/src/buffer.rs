//! The FIFO buffer of arrival instants.

use crate::window::{
    is_stale_front, lemma_append_keeps_order, lemma_monotonic_eviction, lemma_stale_front_unique,
    pruned, stale_prefix_len, time_ordered,
};
use std::collections::VecDeque;
use vstd::prelude::*;

verus! {

/// A queue of arrival instants in order of insertion.  It is time-ordered as
/// long as every instant appended is no earlier than the one before it.
pub struct TimestampBuffer {
    queue: VecDeque<u64>,
}

impl View for TimestampBuffer {
    type V = Seq<u64>;

    closed spec fn view(&self) -> Seq<u64> {
        self.queue@
    }
}

impl TimestampBuffer {
    /// The timestamps held are in time order.
    pub open spec fn is_time_ordered(&self) -> bool {
        time_ordered(self@)
    }

    /// An empty buffer.
    pub fn new() -> (buffer: Self)
        ensures
            buffer@ == Seq::<u64>::empty(),
            buffer.is_time_ordered(),
    {
        TimestampBuffer { queue: VecDeque::new() }
    }

    /// Number of timestamps held.
    pub fn len(&self) -> (n: usize)
        ensures
            n == self@.len(),
    {
        self.queue.len()
    }

    /// Puts `timestamp` at the tail.
    pub fn append(&mut self, timestamp: u64)
        ensures
            final(self)@ == old(self)@.push(timestamp),
            old(self).is_time_ordered() && (old(self)@.len() > 0 ==> old(self)@.last()
                <= timestamp) ==> final(self).is_time_ordered(),
    {
        proof {
            if self.is_time_ordered() && (self@.len() > 0 ==> self@.last() <= timestamp) {
                lemma_append_keeps_order(self@, timestamp);
            }
        }
        self.queue.push_back(timestamp);
    }

    /// The oldest timestamp held, left in place.
    pub fn peek_front(&self) -> (front: Option<u64>)
        ensures
            front == if self@.len() == 0 { None } else { Some(self@[0]) },
    {
        if self.queue.len() == 0 {
            None
        } else {
            Some(self.queue[0])
        }
    }

    /// Takes the oldest timestamp out.
    pub fn pop_front(&mut self) -> (front: Option<u64>)
        ensures
            front == if old(self)@.len() == 0 { None } else { Some(old(self)@[0]) },
            final(self)@ == if old(self)@.len() == 0 { old(self)@ } else { old(self)@.drop_first() },
            old(self).is_time_ordered() ==> final(self).is_time_ordered(),
    {
        self.queue.pop_front()
    }

    /// Whether there is an oldest timestamp and it is older than `boundary`.
    pub fn front_is_stale(&self, boundary: u64) -> (stale: bool)
        ensures
            stale == (self@.len() > 0 && self@[0] < boundary),
    {
        match self.peek_front() {
            Some(front) => front < boundary,
            None => false,
        }
    }

    /// Evicts from the front every timestamp older than `boundary`, stopping
    /// at the first one that is not, and returns how many left.
    pub fn prune(&mut self, boundary: u64) -> (evicted: usize)
        ensures
            evicted == stale_prefix_len(old(self)@, boundary as int),
            final(self)@ == pruned(old(self)@, boundary as int),
            is_stale_front(old(self)@, boundary as int, evicted as int),
            old(self).is_time_ordered() ==> final(self).is_time_ordered(),
            old(self).is_time_ordered() ==> forall|j: int|
                0 <= j < final(self)@.len() ==> final(self)@[j] >= boundary,
    {
        let ghost before = self@;
        let held: usize = self.len();
        while self.front_is_stale(boundary)
            invariant
                self@.len() <= before.len() == held,
                self@ == before.skip(before.len() - self@.len()),
                forall|i: int| 0 <= i < before.len() - self@.len() ==> before[i] < boundary,
            decreases self@.len(),
        {
            self.pop_front();
        }
        let evicted: usize = held - self.len();
        proof {
            lemma_stale_front_unique(before, boundary as int, evicted as int);
            if time_ordered(before) {
                lemma_monotonic_eviction(before, boundary as int);
            }
        }
        evicted
    }
}

} // verus!
