//! The mathematics of a trailing window over a sequence of arrival instants.

use vstd::prelude::*;

verus! {

/// Every timestamp is no later than the ones queued behind it.
pub open spec fn time_ordered(s: Seq<u64>) -> bool {
    forall|i: int, j: int| 0 <= i <= j < s.len() ==> s[i] <= s[j]
}

/// Every timestamp was taken no later than `instant`.
pub open spec fn none_after(s: Seq<u64>, instant: int) -> bool {
    forall|i: int| 0 <= i < s.len() ==> s[i] <= instant
}

/// How many timestamps at the front of `s` lie strictly before `boundary`,
/// counted up to the first one that does not.
pub open spec fn stale_prefix_len(s: Seq<u64>, boundary: int) -> nat
    decreases s.len(),
{
    if s.len() == 0 || s[0] >= boundary {
        0
    } else {
        1 + stale_prefix_len(s.drop_first(), boundary)
    }
}

/// What is left of `s` once its stale front has been evicted.
pub open spec fn pruned(s: Seq<u64>, boundary: int) -> Seq<u64> {
    s.skip(stale_prefix_len(s, boundary) as int)
}

/// `k` is the length of the stale front of `s`: everything before position
/// `k` is older than `boundary`, and the timestamp at `k`, if any, is not.
pub open spec fn is_stale_front(s: Seq<u64>, boundary: int, k: int) -> bool {
    &&& 0 <= k <= s.len()
    &&& forall|i: int| 0 <= i < k ==> s[i] < boundary
    &&& k < s.len() ==> s[k] >= boundary
}

/// The timestamps at or after `low`.
pub open spec fn at_or_after(low: int) -> spec_fn(u64) -> bool {
    |t: u64| low <= t
}

/// The timestamps in the closed interval from `low` to `high`.
pub open spec fn within(low: int, high: int) -> spec_fn(u64) -> bool {
    |t: u64| low <= t <= high
}

/// The timestamps after `low` and up to `high`.
pub open spec fn after_up_to(low: int, high: int) -> spec_fn(u64) -> bool {
    |t: u64| low < t <= high
}

/// Number of timestamps of `s` at or after `low`.
pub open spec fn count_from(s: Seq<u64>, low: int) -> nat {
    s.filter(at_or_after(low)).len()
}

/// Number of timestamps of `s` in the closed interval from `low` to `high`.
pub open spec fn count_within(s: Seq<u64>, low: int, high: int) -> nat {
    s.filter(within(low, high)).len()
}

/// Number of timestamps of `s` after `low` and up to `high`.
pub open spec fn count_after_up_to(s: Seq<u64>, low: int, high: int) -> nat {
    s.filter(after_up_to(low, high)).len()
}

/// The stale front is the only prefix that `is_stale_front` describes.
pub proof fn lemma_stale_front_unique(s: Seq<u64>, boundary: int, k: int)
    ensures
        is_stale_front(s, boundary, k) <==> k == stale_prefix_len(s, boundary),
    decreases s.len(),
{
    if s.len() > 0 && s[0] < boundary {
        let rest = s.drop_first();
        lemma_stale_front_unique(rest, boundary, k - 1);
        if k == stale_prefix_len(s, boundary) {
            assert forall|i: int| 0 <= i < k implies s[i] < boundary by {
                if i > 0 {
                    assert(rest[i - 1] == s[i]);
                }
            }
        }
    }
}

proof fn lemma_filter_agrees(s: Seq<u64>, p: spec_fn(u64) -> bool, q: spec_fn(u64) -> bool)
    requires
        forall|i: int| 0 <= i < s.len() ==> p(s[i]) == q(s[i]),
    ensures
        s.filter(p) == s.filter(q),
    decreases s.len(),
{
    reveal(Seq::filter);
    if s.len() > 0 {
        lemma_filter_agrees(s.drop_last(), p, q);
    }
}

proof fn lemma_filter_keeps_all(s: Seq<u64>, p: spec_fn(u64) -> bool)
    requires
        forall|i: int| 0 <= i < s.len() ==> p(s[i]),
    ensures
        s.filter(p) == s,
    decreases s.len(),
{
    reveal(Seq::filter);
    if s.len() > 0 {
        lemma_filter_keeps_all(s.drop_last(), p);
    }
}

proof fn lemma_filter_drops_all(s: Seq<u64>, p: spec_fn(u64) -> bool)
    requires
        forall|i: int| 0 <= i < s.len() ==> !p(s[i]),
    ensures
        s.filter(p) == Seq::<u64>::empty(),
    decreases s.len(),
{
    reveal(Seq::filter);
    if s.len() > 0 {
        lemma_filter_drops_all(s.drop_last(), p);
    }
}

/// Eviction from the front of a time-ordered buffer removes every timestamp
/// older than the boundary and nothing else: each one that stays is at or
/// after the boundary, each one that leaves is before it, and the buffer was
/// the evicted front followed by what stays.
pub proof fn lemma_monotonic_eviction(s: Seq<u64>, boundary: int)
    requires
        time_ordered(s),
    ensures
        forall|j: int| 0 <= j < pruned(s, boundary).len() ==> pruned(s, boundary)[j] >= boundary,
        forall|i: int| 0 <= i < stale_prefix_len(s, boundary) ==> s[i] < boundary,
        s == s.take(stale_prefix_len(s, boundary) as int) + pruned(s, boundary),
        time_ordered(pruned(s, boundary)),
{
    let k = stale_prefix_len(s, boundary) as int;
    lemma_stale_front_unique(s, boundary, k);
}

/// On a time-ordered buffer, what eviction leaves is exactly the timestamps
/// at or after the boundary.
pub proof fn lemma_pruned_is_window(s: Seq<u64>, boundary: int)
    requires
        time_ordered(s),
    ensures
        pruned(s, boundary) == s.filter(at_or_after(boundary)),
        pruned(s, boundary).len() == count_from(s, boundary),
{
    let k = stale_prefix_len(s, boundary) as int;
    let p = at_or_after(boundary);
    lemma_monotonic_eviction(s, boundary);
    let front = s.take(k);
    let rest = pruned(s, boundary);
    assert forall|i: int| 0 <= i < front.len() implies !p(front[i]) by {
        assert(front[i] == s[i]);
    }
    lemma_filter_drops_all(front, p);
    lemma_filter_keeps_all(rest, p);
    Seq::filter_distributes_over_add(front, rest, p);
}

/// Window correctness: for a time-ordered sequence of arrivals, none of them
/// later than the evaluation instant `now`, the number of timestamps left
/// after eviction at `now - window` is the number of arrivals from
/// `now - window` to `now`, both ends included.
pub proof fn lemma_window_count(s: Seq<u64>, now: int, window: int)
    requires
        time_ordered(s),
        none_after(s, now),
    ensures
        pruned(s, now - window).len() == count_within(s, now - window, now),
{
    lemma_pruned_is_window(s, now - window);
    lemma_filter_agrees(s, at_or_after(now - window), within(now - window, now));
}

/// Window correctness with the window's start left out: where in addition no
/// arrival falls exactly on `now - window`, the number of timestamps left
/// after eviction is the number of arrivals after `now - window` and up to
/// `now`.
pub proof fn lemma_window_count_open(s: Seq<u64>, now: int, window: int)
    requires
        time_ordered(s),
        none_after(s, now),
        forall|i: int| 0 <= i < s.len() ==> s[i] != now - window,
    ensures
        pruned(s, now - window).len() == count_after_up_to(s, now - window, now),
{
    lemma_pruned_is_window(s, now - window);
    lemma_filter_agrees(s, at_or_after(now - window), after_up_to(now - window, now));
}

/// A boundary at or before the start of the clock leaves nothing stale.
pub proof fn lemma_pruned_nothing(s: Seq<u64>, boundary: int)
    requires
        boundary <= 0,
    ensures
        pruned(s, boundary) == s,
{
}

/// An instant at or after the boundary stays when it is appended, and
/// changes nothing of what was stale before it.
pub proof fn lemma_pruned_push(s: Seq<u64>, timestamp: u64, boundary: int)
    requires
        boundary <= timestamp,
    ensures
        pruned(s.push(timestamp), boundary) == pruned(s, boundary).push(timestamp),
{
    let k = stale_prefix_len(s, boundary) as int;
    lemma_stale_front_unique(s, boundary, k);
    lemma_stale_front_unique(s.push(timestamp), boundary, k);
}

/// Two evictions in a row from a time-ordered buffer amount to one at the
/// later of the two boundaries.
pub proof fn lemma_pruned_twice(s: Seq<u64>, first: int, second: int)
    requires
        time_ordered(s),
    ensures
        pruned(pruned(s, first), second) == pruned(
            s,
            if first >= second {
                first
            } else {
                second
            },
        ),
{
    let later = if first >= second {
        first
    } else {
        second
    };
    let k1 = stale_prefix_len(s, first) as int;
    lemma_stale_front_unique(s, first, k1);
    let held = s.skip(k1);
    let k2 = stale_prefix_len(held, second) as int;
    lemma_stale_front_unique(held, second, k2);
    assert forall|i: int| 0 <= i < k1 + k2 implies s[i] < later by {
        if i >= k1 {
            assert(held[i - k1] == s[i]);
        }
    }
    lemma_stale_front_unique(s, later, k1 + k2);
}

/// Appending an instant that is no earlier than the newest one held keeps
/// the buffer time-ordered.
pub proof fn lemma_append_keeps_order(s: Seq<u64>, timestamp: u64)
    requires
        time_ordered(s),
        s.len() > 0 ==> s.last() <= timestamp,
    ensures
        time_ordered(s.push(timestamp)),
{
    let r = s.push(timestamp);
    assert forall|i: int, j: int| 0 <= i <= j < r.len() implies r[i] <= r[j] by {
        if j == s.len() && i < s.len() {
        }
    }
}

} // verus!
