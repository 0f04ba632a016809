//! When the window is flushed and when a liveness ping is due.
//!
//! Time is a count of milliseconds on a clock that does not run backwards.
//! The caller reads the clock and performs the transmissions; what is
//! decided here is whether to transmit.

use crate::stats::{Dump, Window};
use vstd::prelude::*;

verus! {

/// The time between two flushes, in milliseconds.
pub const FLUSH_INTERVAL: u64 = 10_000;

/// The time between two liveness pings, in milliseconds.
pub const PING_INTERVAL: u64 = 60_000;

/// The status with which the collector accepts a dump or a ping.
pub const HTTP_OK: u16 = 200;

/// When an action last fired, and how long to wait until it fires again.
#[derive(Clone, Copy, Debug, PartialEq, Eq, Structural)]
pub struct Clock {
    pub last: u64,
    pub interval: u64,
}

/// Whether a flush is under way.
#[derive(Clone, Copy, Debug, PartialEq, Eq, Structural)]
pub enum FlushState {
    Idle,
    Flushing,
}

/// How the transmission of a dump or a ping ended.
#[derive(Clone, Copy, Debug, PartialEq, Eq, Structural)]
pub enum Delivery {
    /// The collector answered with `HTTP_OK`.
    Accepted,
    /// The collector answered with another status.
    Refused(u16),
    /// No answer came.
    Failed,
}

/// Decides when the window is sent to the collector. At most one flush is
/// under way at any time.
#[derive(Clone, Copy, Debug, PartialEq, Eq, Structural)]
pub struct FlushScheduler {
    pub state: FlushState,
    pub clock: Clock,
}

/// What the service manager prints for a service that is running.
pub open spec fn active_line() -> Seq<u8> {
    seq![0x61u8, 0x63u8, 0x74u8, 0x69u8, 0x76u8, 0x65u8, 0x0au8]
}

impl Clock {
    /// The time since the clock last fired; none if `now` lies before it.
    pub open spec fn elapsed(self, now: u64) -> nat {
        if now >= self.last {
            (now - self.last) as nat
        } else {
            0
        }
    }

    /// Whether the interval has passed at `now`.
    pub open spec fn due(self, now: u64) -> bool {
        self.elapsed(now) >= self.interval
    }

    /// The clock after firing at `now`.
    pub open spec fn fired(self, now: u64) -> Clock {
        Clock { last: now, interval: self.interval }
    }

    /// A clock that counts from `now`.
    pub fn new(now: u64, interval: u64) -> (r: Clock)
        ensures
            r == (Clock { last: now, interval }),
    {
        Clock { last: now, interval }
    }

    /// Whether the interval has passed at `now`.
    pub fn is_due(&self, now: u64) -> (r: bool)
        ensures
            r == self.due(now),
    {
        let elapsed: u64 = if now >= self.last {
            now - self.last
        } else {
            0
        };
        elapsed >= self.interval
    }

    /// Fires the clock if it is due. It then counts from `now`, whatever
    /// becomes of the action.
    pub fn poll(&mut self, now: u64) -> (r: bool)
        ensures
            r == old(self).due(now),
            *final(self) == if r {
                old(self).fired(now)
            } else {
                *old(self)
            },
    {
        if self.is_due(now) {
            self.last = now;
            true
        } else {
            false
        }
    }
}

impl Delivery {
    /// The outcome that an answer with `status` stands for.
    pub fn of_status(status: u16) -> (r: Delivery)
        ensures
            r == if status == HTTP_OK {
                Delivery::Accepted
            } else {
                Delivery::Refused(status)
            },
    {
        if status == HTTP_OK {
            Delivery::Accepted
        } else {
            Delivery::Refused(status)
        }
    }

    /// Whether the outcome is to be reported to the operator.
    pub fn is_failure(&self) -> (r: bool)
        ensures
            r == !(*self is Accepted),
    {
        match self {
            Delivery::Accepted => false,
            _ => true,
        }
    }
}

impl FlushScheduler {
    /// Whether a flush starts at `now` with `window` at hand: none is under
    /// way, the interval has passed, and there is something to send.
    pub open spec fn starts(self, now: u64, window: Window) -> bool {
        self.state is Idle && self.clock.due(now) && window.total != 0
    }

    /// Polling at `now`: the scheduler afterwards, the window that is to be
    /// sent, and the window that is kept.
    pub open spec fn polled(self, now: u64, window: Window) -> (
        FlushScheduler,
        Option<Window>,
        Window,
    ) {
        if self.starts(now, window) {
            (
                FlushScheduler { state: FlushState::Flushing, clock: self.clock },
                Some(window.drain().0),
                window.drain().1,
            )
        } else {
            (self, None, window)
        }
    }

    /// The scheduler after the transmission has ended at `now`.
    pub open spec fn finished(self, now: u64) -> FlushScheduler {
        if self.state is Flushing {
            FlushScheduler { state: FlushState::Idle, clock: self.clock.fired(now) }
        } else {
            self
        }
    }

    /// The idle scheduler that counts from `now`.
    pub open spec fn new_at(now: u64) -> FlushScheduler {
        FlushScheduler {
            state: FlushState::Idle,
            clock: Clock { last: now, interval: FLUSH_INTERVAL },
        }
    }

    /// A scheduler that counts from `now`.
    pub fn new(now: u64) -> (r: FlushScheduler)
        ensures
            r == Self::new_at(now),
    {
        FlushScheduler { state: FlushState::Idle, clock: Clock::new(now, FLUSH_INTERVAL) }
    }

    /// Starts a flush if one is due: the window is drained and handed out
    /// for transmission. Otherwise nothing changes; an empty window in
    /// particular leaves the clock as it is.
    pub fn poll(&mut self, now: u64, dump: &mut Dump) -> (r: Option<Dump>)
        requires
            old(dump).wf(),
        ensures
            final(dump).wf(),
            r matches Some(d) ==> d.wf(),
            (*final(self), match r {
                Some(d) => Some(d@),
                None => None,
            }, final(dump)@) == old(self).polled(now, old(dump)@),
    {
        if matches!(self.state, FlushState::Idle) && self.clock.is_due(now) && dump.total() != 0 {
            self.state = FlushState::Flushing;
            Some(dump.drain())
        } else {
            None
        }
    }

    /// Ends the flush that is under way. The clock counts from `now`
    /// whatever the outcome was; the window that was sent is not kept.
    /// Returns whether the window was lost.
    pub fn finish(&mut self, now: u64, delivery: Delivery) -> (lost: bool)
        ensures
            *final(self) == old(self).finished(now),
            lost == (old(self).state is Flushing && !(delivery is Accepted)),
    {
        match self.state {
            FlushState::Flushing => {
                self.state = FlushState::Idle;
                self.clock.last = now;
                delivery.is_failure()
            },
            FlushState::Idle => false,
        }
    }
}

/// Whether the service manager reported the service as running.
pub fn service_is_active(output: &[u8]) -> (r: bool)
    ensures
        r == (output@ == active_line()),
{
    let r = output.len() == 7 && output[0] == 0x61 && output[1] == 0x63 && output[2] == 0x74
        && output[3] == 0x69 && output[4] == 0x76 && output[5] == 0x65 && output[6] == 0x0a;
    proof {
        if r {
            assert(output@ =~= active_line());
        }
    }
    r
}

/// Whether a liveness ping is sent, given what the query for the service's
/// state printed; `None` where the query itself failed.
pub fn should_ping(output: Option<&[u8]>) -> (r: bool)
    ensures
        r == (output matches Some(text) && text@ == active_line()),
{
    match output {
        Some(text) => service_is_active(text),
        None => false,
    }
}

/// While the window is empty a poll sends nothing and changes nothing,
/// however long ago the last flush was.
pub proof fn lemma_empty_window_waits(scheduler: FlushScheduler, now: u64)
    ensures
        scheduler.polled(now, Window::empty()) == (scheduler, None::<Window>, Window::empty()),
{
}

/// The first event after an idle period is flushed at the next poll: the
/// polls of the empty window did not move the clock.
pub proof fn lemma_flush_after_idle(
    scheduler: FlushScheduler,
    idle: u64,
    now: u64,
    window: Window,
)
    requires
        scheduler.state is Idle,
        scheduler.clock.due(idle),
        idle <= now,
        window.total != 0,
    ensures
        scheduler.polled(idle, Window::empty()).0.polled(now, window).1 == Some(window),
        scheduler.polled(idle, Window::empty()).0.polled(now, window).2 == Window::empty(),
{
}

/// While a flush is under way no other one starts.
pub proof fn lemma_one_flush_at_a_time(scheduler: FlushScheduler, now: u64, window: Window)
    requires
        scheduler.state is Flushing,
    ensures
        scheduler.polled(now, window) == (scheduler, None::<Window>, window),
{
}

/// After a flush has ended, the next one starts no sooner than one interval
/// later.
pub proof fn lemma_flush_period(
    scheduler: FlushScheduler,
    ended: u64,
    now: u64,
    window: Window,
)
    requires
        scheduler.state is Flushing,
        ended <= now,
        now - ended < scheduler.clock.interval,
    ensures
        scheduler.finished(ended).polled(now, window).1 is None,
{
}

} // verus!
