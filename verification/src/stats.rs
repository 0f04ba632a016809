//! The statistics window: running totals of the requests seen since the last
//! flush, overall and per status code.
//!
//! The model of a window is [`Window`], a record of natural numbers and a map
//! from status code to [`Bucket`]. [`Dump`] is the executable window; every
//! operation on it is specified by the matching operation of the model.

use crate::table::Table;
use crate::text::{decimal_text, format_i64, lemma_decimal_text_apart};
use std::collections::HashMap;
use vstd::prelude::*;
use vstd::std_specs::hash::spec_hash_map_iter;
use vstd::std_specs::iter::IteratorSpec;

verus! {

/// One observed request: how it ended and how long the upstream took.
#[derive(Clone, Copy, Debug, PartialEq, Eq, Structural)]
pub struct Event {
    pub status: u16,
    /// Upstream response time in whole milliseconds.
    pub latency_ms: u64,
}

/// Running totals of the requests that ended with one status code.
#[derive(Clone, Copy, Debug, PartialEq, Eq, Structural)]
pub struct Status {
    pub code: u16,
    pub count: u64,
    pub max_time: u64,
    pub min_time: u64,
    pub total_time: u64,
}

/// The model of a [`Status`].
pub struct Bucket {
    pub code: u16,
    pub count: nat,
    pub max_time: nat,
    pub min_time: nat,
    pub total_time: nat,
}

/// The model of a [`Dump`].
pub struct Window {
    pub total: nat,
    pub total_time: nat,
    pub max_time: nat,
    pub min_time: nat,
    pub status: Map<u16, Bucket>,
}

/// One more than the largest status code.
pub open spec fn code_limit() -> nat {
    0x1_0000
}

/// The smaller of two numbers.
pub open spec fn least(a: nat, b: nat) -> nat {
    if a <= b {
        a
    } else {
        b
    }
}

/// The larger of two numbers.
pub open spec fn greatest(a: nat, b: nat) -> nat {
    if a >= b {
        a
    } else {
        b
    }
}

impl Bucket {
    /// The bucket of a code after its first request.
    pub open spec fn first(code: u16, time: nat) -> Bucket {
        Bucket { code, count: 1, max_time: time, min_time: time, total_time: time }
    }

    /// The bucket after one more request of its code.
    pub open spec fn observe(self, time: nat) -> Bucket {
        Bucket {
            code: self.code,
            count: self.count + 1,
            max_time: greatest(self.max_time, time),
            min_time: least(self.min_time, time),
            total_time: self.total_time + time,
        }
    }

    /// This bucket with the later bucket `other` of the same code added to
    /// it. A minimum of zero counts as not yet known.
    pub open spec fn merge(self, other: Bucket) -> Bucket {
        Bucket {
            code: self.code,
            count: self.count + other.count,
            max_time: greatest(self.max_time, other.max_time),
            min_time: if other.min_time < self.min_time || self.min_time == 0 {
                other.min_time
            } else {
                self.min_time
            },
            total_time: self.total_time + other.total_time,
        }
    }

    /// A bucket exists only once a request was counted in it.
    pub open spec fn valid(self) -> bool {
        &&& self.count > 0
        &&& self.min_time <= self.max_time
        &&& self.max_time <= self.total_time
    }

    /// Whether every number of the bucket fits its executable field.
    pub open spec fn fits(self) -> bool {
        &&& self.count <= u64::MAX
        &&& self.max_time <= u64::MAX
        &&& self.min_time <= u64::MAX
        &&& self.total_time <= u64::MAX
    }
}

impl View for Status {
    type V = Bucket;

    open spec fn view(&self) -> Bucket {
        Bucket {
            code: self.code,
            count: self.count as nat,
            max_time: self.max_time as nat,
            min_time: self.min_time as nat,
            total_time: self.total_time as nat,
        }
    }
}

/// The requests counted by the buckets of the codes below `below`.
pub open spec fn count_sum(status: Map<u16, Bucket>, below: nat) -> nat
    decreases below,
{
    if below == 0 {
        0
    } else {
        let code = (below - 1) as u16;
        count_sum(status, (below - 1) as nat) + if status.contains_key(code) {
            status[code].count
        } else {
            0
        }
    }
}

/// The milliseconds counted by the buckets of the codes below `below`.
pub open spec fn time_sum(status: Map<u16, Bucket>, below: nat) -> nat
    decreases below,
{
    if below == 0 {
        0
    } else {
        let code = (below - 1) as u16;
        time_sum(status, (below - 1) as nat) + if status.contains_key(code) {
            status[code].total_time
        } else {
            0
        }
    }
}

impl Window {
    /// The window in which nothing was recorded.
    pub open spec fn empty() -> Window {
        Window { total: 0, total_time: 0, max_time: 0, min_time: 0, status: Map::empty() }
    }

    /// The window after one more event. Minimum and maximum are unset until
    /// the first event, which sets both whatever its latency is.
    pub open spec fn record(self, event: Event) -> Window {
        let time = event.latency_ms as nat;
        Window {
            total: self.total + 1,
            total_time: self.total_time + time,
            max_time: if self.total == 0 {
                time
            } else {
                greatest(self.max_time, time)
            },
            min_time: if self.total == 0 {
                time
            } else {
                least(self.min_time, time)
            },
            status: self.status.insert(
                event.status,
                if self.status.contains_key(event.status) {
                    self.status[event.status].observe(time)
                } else {
                    Bucket::first(event.status, time)
                },
            ),
        }
    }

    /// The window after the events of `events`, in their order.
    pub open spec fn fold(self, events: Seq<Event>) -> Window
        decreases events.len(),
    {
        if events.len() == 0 {
            self
        } else {
            self.fold(events.drop_last()).record(events.last())
        }
    }

    /// Draining: the window that is handed out, and the one left behind.
    pub open spec fn drain(self) -> (Window, Window) {
        (self, Window::empty())
    }

    /// What a window is at any time: the totals are the sums over the
    /// buckets, each bucket sits under its own code, and minimum and maximum
    /// are those of the buckets.
    pub open spec fn wf(self) -> bool {
        &&& self.status.dom().finite()
        &&& forall|code: u16| #[trigger]
            self.status.contains_key(code) ==> {
                &&& self.status[code].code == code
                &&& self.status[code].valid()
                &&& self.min_time <= self.status[code].min_time
                &&& self.status[code].max_time <= self.max_time
            }
        &&& self.total == count_sum(self.status, code_limit())
        &&& self.total_time == time_sum(self.status, code_limit())
        &&& self.total == 0 ==> self.min_time == 0 && self.max_time == 0
        &&& self.total > 0 ==> exists|code: u16| #[trigger]
            self.status.contains_key(code) && self.status[code].min_time == self.min_time
        &&& self.total > 0 ==> exists|code: u16| #[trigger]
            self.status.contains_key(code) && self.status[code].max_time == self.max_time
    }

    /// Whether every number of the window fits its executable field.
    pub open spec fn fits(self) -> bool {
        &&& self.total <= u64::MAX
        &&& self.total_time <= u64::MAX
        &&& self.max_time <= u64::MAX
        &&& self.min_time <= u64::MAX
        &&& forall|code: u16| #[trigger]
            self.status.contains_key(code) ==> self.status[code].fits()
    }
}

/// The key under which the bucket of `code` is sent: the code in decimal.
pub open spec fn key_of(code: u16) -> Seq<char> {
    decimal_text(code as int)
}

/// The buckets of a window under the keys by which they are sent.
pub open spec fn keyed(status: Map<u16, Bucket>) -> Map<Seq<char>, Bucket> {
    Map::new(
        |key: Seq<char>| exists|code: u16| status.contains_key(code) && #[trigger] key_of(code) == key,
        |key: Seq<char>|
            status[choose|code: u16| status.contains_key(code) && #[trigger] key_of(code) == key],
    )
}

/// Each code has a key of its own.
pub proof fn lemma_keys_apart(a: u16, b: u16)
    requires
        key_of(a) == key_of(b),
    ensures
        a == b,
{
    lemma_decimal_text_apart(a as i64, b as i64);
}

/// Every bucket of a window is sent under its key, and nothing else is
/// sent.
pub proof fn lemma_keyed(status: Map<u16, Bucket>, code: u16)
    ensures
        keyed(status).contains_key(key_of(code)) <==> status.contains_key(code),
        status.contains_key(code) ==> keyed(status)[key_of(code)] == status[code],
{
    if keyed(status).contains_key(key_of(code)) {
        let other = choose|other: u16|
            status.contains_key(other) && #[trigger] key_of(other) == key_of(code);
        lemma_keys_apart(other, code);
    }
    if status.contains_key(code) {
        let other = choose|other: u16|
            status.contains_key(other) && #[trigger] key_of(other) == key_of(code);
        lemma_keys_apart(other, code);
    }
}

/// How many events of `events` ended with `code`.
pub open spec fn count_of(events: Seq<Event>, code: u16) -> nat
    decreases events.len(),
{
    if events.len() == 0 {
        0
    } else {
        count_of(events.drop_last(), code) + if events.last().status == code {
            1nat
        } else {
            0nat
        }
    }
}

/// The summed latency of the events of `events` that ended with `code`.
pub open spec fn time_of(events: Seq<Event>, code: u16) -> nat
    decreases events.len(),
{
    if events.len() == 0 {
        0
    } else {
        time_of(events.drop_last(), code) + if events.last().status == code {
            events.last().latency_ms as nat
        } else {
            0nat
        }
    }
}

/// The summed latency of all events of `events`.
pub open spec fn latency_sum(events: Seq<Event>) -> nat
    decreases events.len(),
{
    if events.len() == 0 {
        0
    } else {
        latency_sum(events.drop_last()) + events.last().latency_ms as nat
    }
}

/// The sums over no buckets are zero.
pub proof fn lemma_count_sum_empty(below: nat)
    ensures
        count_sum(Map::<u16, Bucket>::empty(), below) == 0,
        time_sum(Map::<u16, Bucket>::empty(), below) == 0,
    decreases below,
{
    if below > 0 {
        lemma_count_sum_empty((below - 1) as nat);
    }
}

/// Putting a bucket under `code` changes the sums by the difference between
/// the new bucket and the old one.
pub proof fn lemma_sums_insert(status: Map<u16, Bucket>, code: u16, bucket: Bucket, below: nat)
    requires
        below <= code_limit(),
    ensures
        count_sum(status.insert(code, bucket), below) + (if code < below && status.contains_key(
            code,
        ) {
            status[code].count
        } else {
            0
        }) == count_sum(status, below) + (if code < below {
            bucket.count
        } else {
            0
        }),
        time_sum(status.insert(code, bucket), below) + (if code < below && status.contains_key(
            code,
        ) {
            status[code].total_time
        } else {
            0
        }) == time_sum(status, below) + (if code < below {
            bucket.total_time
        } else {
            0
        }),
    decreases below,
{
    if below > 0 {
        lemma_sums_insert(status, code, bucket, (below - 1) as nat);
    }
}

/// No bucket counts more than the sum over all buckets.
pub proof fn lemma_sums_bound(status: Map<u16, Bucket>, code: u16, below: nat)
    requires
        below <= code_limit(),
        status.contains_key(code),
        code < below,
    ensures
        status[code].count <= count_sum(status, below),
        status[code].total_time <= time_sum(status, below),
    decreases below,
{
    if code < below - 1 {
        lemma_sums_bound(status, code, (below - 1) as nat);
    }
}

/// Recording keeps a window well formed.
pub proof fn lemma_record_wf(window: Window, event: Event)
    requires
        window.wf(),
    ensures
        window.record(event).wf(),
{
    let after = window.record(event);
    let time = event.latency_ms as nat;
    let code = event.status;
    lemma_sums_insert(window.status, code, after.status[code], code_limit());
    if window.total > 0 {
        let low = choose|c: u16| #[trigger]
            window.status.contains_key(c) && window.status[c].min_time == window.min_time;
        let high = choose|c: u16| #[trigger]
            window.status.contains_key(c) && window.status[c].max_time == window.max_time;
        if time < window.min_time {
            assert(after.status.contains_key(code) && after.status[code].min_time
                == after.min_time);
        } else {
            assert(after.status.contains_key(low) && after.status[low].min_time == after.min_time);
        }
        if time > window.max_time {
            assert(after.status.contains_key(code) && after.status[code].max_time
                == after.max_time);
        } else {
            assert(after.status.contains_key(high) && after.status[high].max_time
                == after.max_time);
        }
    } else {
        assert forall|c: u16| !window.status.contains_key(c) by {
            if window.status.contains_key(c) {
                lemma_sums_bound(window.status, c, code_limit());
            }
        }
        assert(after.status.contains_key(code) && after.status[code].min_time == after.min_time);
        assert(after.status.contains_key(code) && after.status[code].max_time == after.max_time);
    }
}

/// Folding keeps a window well formed.
pub proof fn lemma_fold_wf(window: Window, events: Seq<Event>)
    requires
        window.wf(),
    ensures
        window.fold(events).wf(),
    decreases events.len(),
{
    if events.len() > 0 {
        lemma_fold_wf(window, events.drop_last());
        lemma_record_wf(window.fold(events.drop_last()), events.last());
    }
}

/// Folding events one by one is folding them together: recording `event`
/// after `events` gives the fold of `events` with `event` at its end.
pub proof fn lemma_fold_push(window: Window, events: Seq<Event>, event: Event)
    ensures
        window.fold(events.push(event)) == window.fold(events).record(event),
{
    assert(events.push(event).drop_last() =~= events);
}

/// Folding two runs of events one after the other is folding them as one
/// run.
pub proof fn lemma_fold_concat(window: Window, first: Seq<Event>, second: Seq<Event>)
    ensures
        window.fold(first + second) == window.fold(first).fold(second),
    decreases second.len(),
{
    if second.len() == 0 {
        assert(first + second =~= first);
    } else {
        assert((first + second).drop_last() =~= first + second.drop_last());
        lemma_fold_concat(window, first, second.drop_last());
    }
}

/// Every event is counted in one window and in no other: the window that is
/// drained after `first` and the one that is drained after `second` count
/// together what one window over both runs would count.
pub proof fn lemma_windows_apart(first: Seq<Event>, second: Seq<Event>, code: u16)
    ensures
        Window::empty().fold(first).total + Window::empty().fold(second).total == (first
            + second).len(),
        Window::empty().fold(first).total_time + Window::empty().fold(second).total_time
            == latency_sum(first + second),
        count_of(first, code) + count_of(second, code) == count_of(first + second, code),
        time_of(first, code) + time_of(second, code) == time_of(first + second, code),
    decreases second.len(),
{
    lemma_fold_totals(first);
    lemma_fold_totals(second);
    if second.len() == 0 {
        assert(first + second =~= first);
    } else {
        assert((first + second).drop_last() =~= first + second.drop_last());
        lemma_windows_apart(first, second.drop_last(), code);
        lemma_fold_totals(second.drop_last());
    }
}

/// After folding any events into the empty window, `total` is their number
/// and `total_time` the sum of their latencies.
pub proof fn lemma_fold_totals(events: Seq<Event>)
    ensures
        Window::empty().fold(events).total == events.len(),
        Window::empty().fold(events).total_time == latency_sum(events),
    decreases events.len(),
{
    if events.len() > 0 {
        lemma_fold_totals(events.drop_last());
    }
}

/// After folding any events into the empty window, a code has a bucket if
/// and only if an event ended with it; the bucket's `count` is the number of
/// those events and its `total_time` the sum of their latencies.
pub proof fn lemma_fold_buckets(events: Seq<Event>, code: u16)
    ensures
        Window::empty().fold(events).status.contains_key(code) <==> count_of(events, code) > 0,
        count_of(events, code) > 0 ==> {
            let bucket = Window::empty().fold(events).status[code];
            &&& bucket.code == code
            &&& bucket.count == count_of(events, code)
            &&& bucket.total_time == time_of(events, code)
        },
    decreases events.len(),
{
    if events.len() > 0 {
        lemma_fold_buckets(events.drop_last(), code);
        if count_of(events.drop_last(), code) == 0 {
            lemma_time_of_none(events.drop_last(), code);
        }
    }
}

/// Where no event ended with a code, no latency is counted for it.
pub proof fn lemma_time_of_none(events: Seq<Event>, code: u16)
    requires
        count_of(events, code) == 0,
    ensures
        time_of(events, code) == 0,
    decreases events.len(),
{
    if events.len() > 0 {
        lemma_time_of_none(events.drop_last(), code);
    }
}

/// After folding events into the empty window, `min_time` is the smallest of
/// their latencies and `max_time` the largest, a latency of zero included.
pub proof fn lemma_fold_extremes(events: Seq<Event>)
    requires
        events.len() > 0,
    ensures
        forall|i: int|
            0 <= i < events.len() ==> Window::empty().fold(events).min_time <= (
            #[trigger] events[i]).latency_ms <= Window::empty().fold(events).max_time,
        exists|i: int|
            0 <= i < events.len() && (#[trigger] events[i]).latency_ms == Window::empty().fold(
                events,
            ).min_time,
        exists|i: int|
            0 <= i < events.len() && (#[trigger] events[i]).latency_ms == Window::empty().fold(
                events,
            ).max_time,
    decreases events.len(),
{
    let before = events.drop_last();
    let after = Window::empty().fold(events);
    let last = events.len() - 1;
    lemma_fold_totals(before);
    if before.len() > 0 {
        lemma_fold_extremes(before);
        let window = Window::empty().fold(before);
        let low = choose|i: int|
            0 <= i < before.len() && (#[trigger] before[i]).latency_ms == window.min_time;
        let high = choose|i: int|
            0 <= i < before.len() && (#[trigger] before[i]).latency_ms == window.max_time;
        assert(events[low] == before[low]);
        assert(events[high] == before[high]);
        assert(events[last].latency_ms == after.min_time || events[low].latency_ms
            == after.min_time);
        assert(events[last].latency_ms == after.max_time || events[high].latency_ms
            == after.max_time);
        assert forall|i: int| 0 <= i < events.len() implies after.min_time <= (
        #[trigger] events[i]).latency_ms <= after.max_time by {
            if i < last {
                assert(events[i] == before[i]);
            }
        }
    } else {
        assert(events[last].latency_ms == after.min_time);
        assert(events[last].latency_ms == after.max_time);
    }
}

/// After folding events into the empty window, the bucket of a code holds
/// the smallest and the largest latency of the events that ended with the
/// code, a latency of zero included.
pub proof fn lemma_fold_bucket_extremes(events: Seq<Event>, code: u16)
    requires
        count_of(events, code) > 0,
    ensures
        Window::empty().fold(events).status.contains_key(code),
        forall|i: int|
            0 <= i < events.len() && (#[trigger] events[i]).status == code ==> Window::empty().fold(
                events,
            ).status[code].min_time <= events[i].latency_ms <= Window::empty().fold(
                events,
            ).status[code].max_time,
        exists|i: int|
            0 <= i < events.len() && (#[trigger] events[i]).status == code && events[i].latency_ms
                == Window::empty().fold(events).status[code].min_time,
        exists|i: int|
            0 <= i < events.len() && (#[trigger] events[i]).status == code && events[i].latency_ms
                == Window::empty().fold(events).status[code].max_time,
    decreases events.len(),
{
    let before = events.drop_last();
    let bucket = Window::empty().fold(events).status[code];
    let last = events.len() - 1;
    lemma_fold_buckets(events, code);
    lemma_fold_buckets(before, code);
    if count_of(before, code) > 0 {
        lemma_fold_bucket_extremes(before, code);
        let earlier = Window::empty().fold(before).status[code];
        let low = choose|i: int|
            0 <= i < before.len() && (#[trigger] before[i]).status == code && before[i].latency_ms
                == earlier.min_time;
        let high = choose|i: int|
            0 <= i < before.len() && (#[trigger] before[i]).status == code && before[i].latency_ms
                == earlier.max_time;
        assert(events[low] == before[low]);
        assert(events[high] == before[high]);
        if events[last].status == code {
            assert(events[last].latency_ms == bucket.min_time || events[low].latency_ms
                == bucket.min_time);
            assert(events[last].latency_ms == bucket.max_time || events[high].latency_ms
                == bucket.max_time);
        } else {
            assert(events[low].latency_ms == bucket.min_time);
            assert(events[high].latency_ms == bucket.max_time);
        }
        assert forall|i: int|
            0 <= i < events.len() && (#[trigger] events[i]).status == code implies bucket.min_time
            <= events[i].latency_ms <= bucket.max_time by {
            if i < last {
                assert(events[i] == before[i]);
            }
        }
    } else {
        assert(events[last].status == code);
        assert(events[last].latency_ms == bucket.min_time);
        assert(events[last].latency_ms == bucket.max_time);
        assert forall|i: int|
            0 <= i < events.len() && (#[trigger] events[i]).status == code implies bucket.min_time
            <= events[i].latency_ms <= bucket.max_time by {
            if i < last {
                assert(events[i] == before[i]);
                lemma_count_of_member(before, code, i);
            }
        }
    }
}

/// An event that ended with a code is counted for it.
pub proof fn lemma_count_of_member(events: Seq<Event>, code: u16, at: int)
    requires
        0 <= at < events.len(),
        events[at].status == code,
    ensures
        count_of(events, code) > 0,
    decreases events.len(),
{
    if at < events.len() - 1 {
        lemma_count_of_member(events.drop_last(), code, at);
    }
}

/// Draining twice in a row: the second drain hands out the empty window, and
/// the window that the first one handed out is the one that was there.
pub proof fn lemma_drain_twice(window: Window)
    ensures
        window.drain().0 == window,
        window.drain().1.drain().0 == Window::empty(),
        window.drain().1.drain().1 == Window::empty(),
{
}

impl Status {
    /// The bucket of a code after its first request, which took `time`
    /// milliseconds.
    pub fn first(code: u16, time: u64) -> (r: Status)
        ensures
            r@ == Bucket::first(code, time as nat),
    {
        Status { code, count: 1, max_time: time, min_time: time, total_time: time }
    }

    /// Counts one more request of this code, which took `time` milliseconds.
    pub fn observe(&mut self, time: u64)
        requires
            old(self).count < u64::MAX,
            old(self).total_time + time <= u64::MAX,
        ensures
            final(self)@ == old(self)@.observe(time as nat),
    {
        self.count = self.count + 1;
        self.total_time = self.total_time + time;
        if time < self.min_time {
            self.min_time = time;
        }
        if time > self.max_time {
            self.max_time = time;
        }
    }

    /// Whether `other` can be added without a counter running over.
    pub fn can_merge(&self, other: &Status) -> (r: bool)
        ensures
            r == self@.merge(other@).fits(),
    {
        self.count <= u64::MAX - other.count && self.total_time <= u64::MAX - other.total_time
    }

    /// Adds the later bucket `other` to this one.
    pub fn merge(&mut self, other: &Status)
        requires
            old(self)@.merge(other@).fits(),
        ensures
            final(self)@ == old(self)@.merge(other@),
    {
        self.count = self.count + other.count;
        self.total_time = self.total_time + other.total_time;
        if other.max_time > self.max_time {
            self.max_time = other.max_time;
        }
        if other.min_time < self.min_time || self.min_time == 0 {
            self.min_time = other.min_time;
        }
    }
}

/// The window of statistics since the last flush.
pub struct Dump {
    total: u64,
    total_time: u64,
    max_time: u64,
    min_time: u64,
    status: HashMap<u16, Status>,
}

impl View for Dump {
    type V = Window;

    closed spec fn view(&self) -> Window {
        Window {
            total: self.total as nat,
            total_time: self.total_time as nat,
            max_time: self.max_time as nat,
            min_time: self.min_time as nat,
            status: self.status@.map_values(|s: Status| s@),
        }
    }
}

impl Dump {
    /// Every window that this type's functions hand out is well formed, and
    /// they ask for no more.
    pub open spec fn wf(&self) -> bool {
        self@.wf()
    }

    /// Whether the window can take `event` without a counter running over.
    pub open spec fn has_room(&self, event: Event) -> bool {
        self@.total < u64::MAX && self@.total_time + event.latency_ms <= u64::MAX
    }

    /// The empty window.
    pub fn new() -> (r: Dump)
        ensures
            r.wf(),
            r@ == Window::empty(),
    {
        let r = Dump { total: 0, total_time: 0, max_time: 0, min_time: 0, status: HashMap::new() };
        proof {
            lemma_count_sum_empty(code_limit());
            assert(r@.status =~= Map::empty());
        }
        r
    }

    /// The number of events in the window.
    pub fn total(&self) -> (r: u64)
        ensures
            r == self@.total,
    {
        self.total
    }

    /// The summed latency of the window, in milliseconds.
    pub fn total_time(&self) -> (r: u64)
        ensures
            r == self@.total_time,
    {
        self.total_time
    }

    /// The largest latency in the window; 0 while it is empty.
    pub fn max_time(&self) -> (r: u64)
        ensures
            r == self@.max_time,
    {
        self.max_time
    }

    /// The smallest latency in the window; 0 while it is empty.
    pub fn min_time(&self) -> (r: u64)
        ensures
            r == self@.min_time,
    {
        self.min_time
    }

    /// The bucket of `code`, if a request ended with it in this window.
    pub fn status(&self, code: u16) -> (r: Option<Status>)
        ensures
            r is Some <==> self@.status.contains_key(code),
            r matches Some(s) ==> s@ == self@.status[code],
    {
        match self.status.get(&code) {
            Some(s) => Some(*s),
            None => None,
        }
    }

    /// The buckets by code, as they are kept.
    pub fn buckets(&self) -> (r: &HashMap<u16, Status>)
        ensures
            r@.map_values(|s: Status| s@) == self@.status,
    {
        &self.status
    }

    /// The buckets under the keys by which they are sent to the collector.
    pub fn keyed(&self) -> (r: Table<Status>)
        ensures
            r.wf(),
            r@.map_values(|s: Status| s@) == keyed(self@.status),
    {
        let mut table: Table<Status> = Table::new();
        let ghost kept = self.status@;
        let ghost all = spec_hash_map_iter(&self.status).remaining();
        let ghost mut done: int = 0;
        for entry in it: self.status.iter()
            invariant
                kept == self.status@,
                all == it.seq(),
                done == it.index(),
                table.wf(),
                forall|j: int|
                    0 <= j < all.len() ==> kept.contains_key(*(#[trigger] all[j]).0)
                        && kept[*all[j].0] == *all[j].1,
                forall|code: u16| #[trigger]
                    kept.contains_key(code) ==> all.contains((&code, &kept[code])),
                forall|key: Seq<char>| #[trigger]
                    table@.contains_key(key) <==> exists|j: int|
                        0 <= j < done && key_of(*(#[trigger] all[j]).0) == key,
                forall|j: int|
                    0 <= j < done ==> table@[key_of(*(#[trigger] all[j]).0)] == *all[j].1,
        {
            let ghost before = table@;
            let ghost at = done;
            let (code, status) = entry;
            let key = format_i64(*code as i64);
            table.insert(key, *status);
            proof {
                done = done + 1;
                assert(*all[at].0 == *code);
                assert forall|j: int| 0 <= j < at + 1 implies table@[key_of(
                    *(#[trigger] all[j]).0,
                )] == *all[j].1 by {
                    if j < at && key_of(*all[j].0) == key_of(*code) {
                        lemma_keys_apart(*all[j].0, *code);
                    }
                }
                assert forall|k: Seq<char>| #[trigger]
                    table@.contains_key(k) <==> exists|j: int|
                        0 <= j < at + 1 && key_of(*(#[trigger] all[j]).0) == k by {
                    if before.contains_key(k) {
                        let j = choose|j: int| 0 <= j < at && key_of(*(#[trigger] all[j]).0) == k;
                        assert(0 <= j < at + 1 && key_of(*all[j].0) == k);
                    }
                    if k == key_of(*code) {
                        assert(0 <= at < at + 1 && key_of(*all[at].0) == k);
                    }
                    if exists|j: int| 0 <= j < at + 1 && key_of(*(#[trigger] all[j]).0) == k {
                        let j = choose|j: int|
                            0 <= j < at + 1 && key_of(*(#[trigger] all[j]).0) == k;
                        if j < at {
                            assert(before.contains_key(k));
                        }
                    }
                }
            }
        }
        proof {
            assert(done == all.len());
            let got = table@.map_values(|s: Status| s@);
            let want = keyed(self@.status);
            assert forall|k: Seq<char>| got.dom().contains(k) == want.dom().contains(k) by {
                if table@.contains_key(k) {
                    let j = choose|j: int| 0 <= j < done && key_of(*(#[trigger] all[j]).0) == k;
                    assert(kept.contains_key(*all[j].0));
                    assert(self@.status.contains_key(*all[j].0));
                }
                if want.dom().contains(k) {
                    let code = choose|code: u16|
                        self@.status.contains_key(code) && #[trigger] key_of(code) == k;
                    assert(kept.contains_key(code));
                    let j = all.index_of((&code, &kept[code]));
                    assert(*all[j].0 == code);
                    assert(0 <= j < done && key_of(*all[j].0) == k);
                }
            }
            assert forall|k: Seq<char>| #[trigger] got.dom().contains(k) implies got[k]
                == want[k] by {
                let j = choose|j: int| 0 <= j < done && key_of(*(#[trigger] all[j]).0) == k;
                let code = *all[j].0;
                assert(kept.contains_key(code) && kept[code] == *all[j].1);
                lemma_keyed(self@.status, code);
            }
            assert(got.dom() =~= want.dom());
            assert(got =~= want);
        }
        table
    }

    /// Whether `record` may be called with `event`.
    pub fn can_record(&self, event: Event) -> (r: bool)
        ensures
            r == self.has_room(event),
    {
        self.total < u64::MAX && self.total_time <= u64::MAX - event.latency_ms
    }

    /// Folds one event into the window.
    pub fn record(&mut self, event: Event)
        requires
            old(self).wf(),
            old(self).has_room(event),
        ensures
            final(self).wf(),
            final(self)@ == old(self)@.record(event),
    {
        let time = event.latency_ms;
        let code = event.status;
        let bucket = match self.status.get(&code) {
            Some(found) => {
                let mut bucket = *found;
                proof {
                    lemma_sums_bound(self@.status, code, code_limit());
                }
                bucket.observe(time);
                bucket
            },
            None => Status::first(code, time),
        };
        if self.total == 0 {
            self.max_time = time;
            self.min_time = time;
        } else {
            if time > self.max_time {
                self.max_time = time;
            }
            if time < self.min_time {
                self.min_time = time;
            }
        }
        self.total = self.total + 1;
        self.total_time = self.total_time + time;
        self.status.insert(code, bucket);
        proof {
            lemma_record_wf(old(self)@, event);
            assert(self@.status =~= old(self)@.record(event).status);
        }
    }

    /// Hands out the window and leaves the empty window behind.
    pub fn drain(&mut self) -> (r: Dump)
        requires
            old(self).wf(),
        ensures
            r.wf(),
            final(self).wf(),
            (r@, final(self)@) == old(self)@.drain(),
    {
        let mut taken = Dump::new();
        std::mem::swap(self, &mut taken);
        taken
    }
}

} // verus!
