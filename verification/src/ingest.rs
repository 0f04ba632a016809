//! The ingest loop as a state machine.
//!
//! The caller owns the socket and the connection to the collector. Once per
//! turn of its loop it asks whether a flush is due, performs it and reports
//! how it ended; then it waits for a datagram and hands it in. Everything
//! that is decided along the way is decided here.

use crate::message::{is_reading, Framing, Message, ParseError};
use crate::scheduler::{Clock, Delivery, FlushScheduler, PING_INTERVAL};
use crate::stats::{Dump, Event, Window};
use vstd::prelude::*;
use vstd::string::StringExecFns;

verus! {

/// The directory in which the proxy looks for the sockets.
pub const SOCKET_DIR: &'static str = "/usr/share/nginx/socks";

/// The mode of the socket: the proxy runs as another user and must be able
/// to write to it.
pub const SOCKET_MODE: u32 = 0o777;

/// The path of the socket in `dir`, for the site `site` where several sites
/// share the host.
pub open spec fn socket_at(dir: Seq<char>, site: Option<Seq<char>>) -> Seq<char> {
    match site {
        Some(id) => dir + "/heimdall.dog."@ + id + ".sock"@,
        None => dir + "/heimdall.dog.sock"@,
    }
}

/// The path of the socket in `dir`, for the site `site` where several sites
/// share the host.
pub fn socket_path(dir: &str, site: Option<&str>) -> (r: String)
    ensures
        r@ == socket_at(
            dir@,
            match site {
                Some(id) => Some(id@),
                None => None,
            },
        ),
{
    let mut path = String::from_str(dir);
    match site {
        Some(id) => {
            path.append("/heimdall.dog.");
            path.append(id);
            path.append(".sock");
        },
        None => {
            path.append("/heimdall.dog.sock");
        },
    }
    path
}

/// What can go wrong in the daemon.
#[derive(Clone, Copy, Debug, PartialEq, Eq, Structural)]
pub enum Failure {
    /// The socket cannot be bound or opened to the proxy, or a setting is
    /// missing.
    Setup,
    /// A datagram gave no record.
    Parse(ParseError),
    /// A dump or a ping did not reach the collector, or was refused.
    Transport,
    /// Receiving from the socket failed.
    Receive,
    /// Nothing is waiting on a socket that does not block.
    WouldBlock,
}

/// What the loop does about a failure.
#[derive(Clone, Copy, Debug, PartialEq, Eq, Structural)]
pub enum Reaction {
    /// End the process with a message.
    Abort,
    /// Write the failure to the log and go on with the next turn.
    Report,
    /// Go on with the next turn at once.
    Retry,
}

/// The model of an [`Ingest`].
pub struct IngestState {
    pub framing: Framing,
    pub window: Window,
    pub flush: FlushScheduler,
    pub ping: Option<Clock>,
}

/// The state of the ingest loop: the window, the flush scheduler, and the
/// clock of the liveness pings where the loop sends them itself.
pub struct Ingest {
    framing: Framing,
    dump: Dump,
    flush: FlushScheduler,
    ping: Option<Clock>,
}

impl Failure {
    /// Only a failure of the setup ends the process. A socket that has
    /// nothing to read is no failure at all.
    pub open spec fn reaction(self) -> Reaction {
        match self {
            Failure::Setup => Reaction::Abort,
            Failure::WouldBlock => Reaction::Retry,
            _ => Reaction::Report,
        }
    }

    /// What the loop does about this failure.
    pub fn react(&self) -> (r: Reaction)
        ensures
            r == self.reaction(),
    {
        match self {
            Failure::Setup => Reaction::Abort,
            Failure::WouldBlock => Reaction::Retry,
            _ => Reaction::Report,
        }
    }
}

impl IngestState {
    /// Whether the window can take `event` without a counter running over.
    pub open spec fn has_room(self, event: Event) -> bool {
        self.window.total < u64::MAX && self.window.total_time + event.latency_ms <= u64::MAX
    }

    /// Whether a ping is due at `now`. A loop that leaves the pings to
    /// another worker is never asked for one.
    pub open spec fn ping_due(self, now: u64) -> bool {
        self.ping matches Some(clock) && clock.due(now)
    }

    /// The state after the loop was asked for a ping at `now`.
    pub open spec fn pinged(self, now: u64) -> IngestState {
        if self.ping_due(now) {
            IngestState { ping: Some(self.ping->0.fired(now)), ..self }
        } else {
            self
        }
    }

    /// The state after `event` was handed in.
    pub open spec fn observed(self, event: Event) -> IngestState {
        if self.has_room(event) {
            IngestState { window: self.window.record(event), ..self }
        } else {
            self
        }
    }
}

impl View for Ingest {
    type V = IngestState;

    closed spec fn view(&self) -> IngestState {
        IngestState {
            framing: self.framing,
            window: self.dump@,
            flush: self.flush,
            ping: self.ping,
        }
    }
}

impl Ingest {
    /// Every state that this type's functions hand out holds a well-formed
    /// window, and they ask for no more.
    pub closed spec fn wf(&self) -> bool {
        self.dump.wf()
    }

    /// The state at the start of a loop that leaves the liveness pings to
    /// another worker, at time `now`.
    pub fn new(framing: Framing, now: u64) -> (r: Ingest)
        ensures
            r.wf(),
            r@ == (IngestState {
                framing,
                window: Window::empty(),
                flush: FlushScheduler::new_at(now),
                ping: None,
            }),
    {
        Ingest { framing, dump: Dump::new(), flush: FlushScheduler::new(now), ping: None }
    }

    /// The state at the start of a loop that sends the liveness pings
    /// itself, at time `now`.
    pub fn with_ping(framing: Framing, now: u64) -> (r: Ingest)
        ensures
            r.wf(),
            r@ == (IngestState {
                framing,
                window: Window::empty(),
                flush: FlushScheduler::new_at(now),
                ping: Some(Clock { last: now, interval: PING_INTERVAL }),
            }),
    {
        Ingest {
            framing,
            dump: Dump::new(),
            flush: FlushScheduler::new(now),
            ping: Some(Clock::new(now, PING_INTERVAL)),
        }
    }

    /// The layout of the datagrams.
    pub fn framing(&self) -> (r: Framing)
        ensures
            r == self@.framing,
    {
        self.framing
    }

    /// The window as it stands.
    pub fn window(&self) -> (r: &Dump)
        requires
            self.wf(),
        ensures
            r.wf(),
            r@ == self@.window,
    {
        &self.dump
    }

    /// The first step of a turn: starts a flush if one is due, and hands
    /// out the window that is to be sent.
    pub fn poll_flush(&mut self, now: u64) -> (r: Option<Dump>)
        requires
            old(self).wf(),
        ensures
            final(self).wf(),
            r matches Some(d) ==> d.wf(),
            final(self)@.framing == old(self)@.framing,
            final(self)@.ping == old(self)@.ping,
            (final(self)@.flush, match r {
                Some(d) => Some(d@),
                None => None,
            }, final(self)@.window) == old(self)@.flush.polled(now, old(self)@.window),
    {
        self.flush.poll(now, &mut self.dump)
    }

    /// Reports how the transmission ended, at time `now`. Returns the
    /// failure to react to, if the window was lost.
    pub fn flushed(&mut self, now: u64, delivery: Delivery) -> (r: Option<Failure>)
        requires
            old(self).wf(),
        ensures
            final(self).wf(),
            final(self)@ == (IngestState {
                flush: old(self)@.flush.finished(now),
                ..old(self)@
            }),
            r == if old(self)@.flush.state is Flushing && !(delivery is Accepted) {
                Some(Failure::Transport)
            } else {
                None
            },
    {
        if self.flush.finish(now, delivery) {
            Some(Failure::Transport)
        } else {
            None
        }
    }

    /// Says whether a liveness ping is to be sent at `now`. The clock then
    /// counts from `now`, whatever becomes of the ping.
    pub fn poll_ping(&mut self, now: u64) -> (r: bool)
        requires
            old(self).wf(),
        ensures
            final(self).wf(),
            r == old(self)@.ping_due(now),
            final(self)@ == old(self)@.pinged(now),
    {
        match self.ping {
            Some(clock) => {
                let mut clock = clock;
                let due = clock.poll(now);
                self.ping = Some(clock);
                due
            },
            None => false,
        }
    }

    /// Reads the record of a datagram.
    pub fn decode(&self, datagram: &[u8]) -> (r: Result<Message, ParseError>)
        ensures
            is_reading(r, self@.framing.decoded(datagram@)),
    {
        self.framing.decode(datagram)
    }

    /// Folds `event` into the window. An event that would run a counter
    /// over is left out; the result says whether it was counted.
    pub fn observe(&mut self, event: Event) -> (r: bool)
        requires
            old(self).wf(),
        ensures
            final(self).wf(),
            r == old(self)@.has_room(event),
            final(self)@ == old(self)@.observed(event),
    {
        if self.dump.can_record(event) {
            self.dump.record(event);
            true
        } else {
            false
        }
    }
}

} // verus!
