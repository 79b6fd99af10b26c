//! The forwarder as a whole.
//!
//! The machines of the other modules each know one thing. Here they are put
//! together as the running forwarder puts them together: one acceptor, and
//! for every client it has admitted one connection, made of a session and
//! its two directions. Nothing in this module runs; it is the model in which
//! the properties of the whole are stated and proved. Every report that the
//! running forwarder hands to one of its machines is one event here. The
//! events of all connections come in one sequence, in the order in which
//! they happen to be handled, and nothing is assumed about that order.

use crate::acceptor::{AcceptorEvent, AcceptorView};
use crate::config::Config;
use crate::direction::{DirectionView, Ending, IoEvent, Phase};
use crate::session::{Outcome, SessionEvent, SessionPhase, SessionView, Side};
use vstd::prelude::*;

verus! {

/// What happens to one connection.
pub enum ConnectionEvent {
    /// The destination was reached.
    Dialed,
    /// The destination could not be reached.
    DialFailed,
    /// A read or a write of one of the two directions has returned.
    Io(Side, IoEvent),
    /// The session looks at one of the two directions, and learns of its
    /// ending if it has ended.
    Joined(Side),
}

/// One client connection: its session and its two directions.
pub struct ConnectionView {
    pub session: SessionView,
    /// The direction from the client to the destination.
    pub upward: DirectionView,
    /// The direction from the destination to the client.
    pub downward: DirectionView,
}

impl ConnectionView {
    /// The connection of a client that was just accepted.
    pub open spec fn start() -> ConnectionView {
        ConnectionView {
            session: SessionView::start(),
            upward: DirectionView::start(),
            downward: DirectionView::start(),
        }
    }

    /// One of the two directions.
    pub open spec fn direction(self, side: Side) -> DirectionView {
        match side {
            Side::ClientToUpstream => self.upward,
            Side::UpstreamToClient => self.downward,
        }
    }

    /// The connection with one direction replaced.
    pub open spec fn with_direction(self, side: Side, d: DirectionView) -> ConnectionView {
        match side {
            Side::ClientToUpstream => ConnectionView { upward: d, ..self },
            Side::UpstreamToClient => ConnectionView { downward: d, ..self },
        }
    }

    /// The connection after one event. The result of the dial goes to the
    /// session. A read or write that has returned goes to its direction,
    /// which exists while the session relays. The session learns how a
    /// direction ended when it looks, which may be any time after.
    pub open spec fn after(self, event: ConnectionEvent) -> ConnectionView {
        match event {
            ConnectionEvent::Dialed => ConnectionView {
                session: self.session.after(SessionEvent::Dialed),
                ..self
            },
            ConnectionEvent::DialFailed => ConnectionView {
                session: self.session.after(SessionEvent::DialFailed),
                ..self
            },
            ConnectionEvent::Io(side, io) => {
                if self.session.phase == SessionPhase::Relaying {
                    self.with_direction(side, self.direction(side).after(io))
                } else {
                    self
                }
            },
            ConnectionEvent::Joined(side) => match self.direction(side).phase {
                Phase::Finished(ending) => ConnectionView {
                    session: self.session.after(SessionEvent::Finished(side, ending)),
                    ..self
                },
                _ => self,
            },
        }
    }

    /// The connection after a run of events, taken in order.
    pub open spec fn run(self, events: Seq<ConnectionEvent>) -> ConnectionView
        decreases events.len(),
    {
        if events.len() == 0 {
            self
        } else {
            self.run(events.drop_last()).after(events.last())
        }
    }

    /// What the session has on record for a direction is how that direction
    /// has ended.
    pub open spec fn recorded(self, side: Side) -> bool {
        self.session.ending_of(side) matches Some(ending) ==> self.direction(side).phase
            == Phase::Finished(ending)
    }

    /// The session has relayed or relays: the dial succeeded.
    pub open spec fn relayed(self) -> bool {
        self.session.phase == SessionPhase::Relaying || self.session.both_ended()
    }

    /// What holds of every connection that was started and then only
    /// stepped: each part is consistent, the session knows of no ending that
    /// did not happen, and no direction has moved unless the dial succeeded.
    pub open spec fn consistent(self) -> bool {
        &&& self.session.consistent()
        &&& self.upward.consistent()
        &&& self.downward.consistent()
        &&& self.recorded(Side::ClientToUpstream)
        &&& self.recorded(Side::UpstreamToClient)
        &&& !self.relayed() ==> self.upward == DirectionView::start() && self.downward
            == DirectionView::start()
    }
}

/// What happens in the forwarder.
pub enum SystemEvent {
    /// Something is reported to the acceptor.
    Acceptor(AcceptorEvent),
    /// Something happens to the connection with this number, counted from
    /// zero in the order in which the clients were admitted.
    Connection(int, ConnectionEvent),
}

/// The forwarder: the acceptor and the connections of all clients that it
/// has admitted so far, the closed ones included.
pub struct SystemView {
    pub acceptor: AcceptorView,
    pub connections: Seq<ConnectionView>,
}

impl SystemView {
    /// The forwarder of a configuration, before the bind.
    pub open spec fn start(config: Config) -> SystemView {
        SystemView { acceptor: AcceptorView::start(config), connections: Seq::empty() }
    }

    /// The forwarder has a connection with this number.
    pub open spec fn has(self, i: int) -> bool {
        0 <= i < self.connections.len()
    }

    /// The forwarder after one event. A client that the acceptor admits
    /// gets a connection of its own; an event of a connection moves that
    /// connection.
    pub open spec fn after(self, event: SystemEvent) -> SystemView {
        match event {
            SystemEvent::Acceptor(e) => SystemView {
                acceptor: self.acceptor.after(e),
                connections: if self.acceptor.admits(e) {
                    self.connections.push(ConnectionView::start())
                } else {
                    self.connections
                },
            },
            SystemEvent::Connection(i, e) => {
                if self.has(i) {
                    SystemView {
                        connections: self.connections.update(i, self.connections[i].after(e)),
                        ..self
                    }
                } else {
                    self
                }
            },
        }
    }

    /// The forwarder after a run of events, taken in order.
    pub open spec fn run(self, events: Seq<SystemEvent>) -> SystemView
        decreases events.len(),
    {
        if events.len() == 0 {
            self
        } else {
            self.run(events.drop_last()).after(events.last())
        }
    }

    /// The events of a run that moved the connection with number `i`, in
    /// order: those that name it and came when it existed.
    pub open spec fn events_of(self, events: Seq<SystemEvent>, i: int) -> Seq<ConnectionEvent>
        decreases events.len(),
    {
        if events.len() == 0 {
            Seq::empty()
        } else {
            let earlier = self.events_of(events.drop_last(), i);
            match events.last() {
                SystemEvent::Connection(j, e) if j == i && self.run(events.drop_last()).has(i) =>
                    earlier.push(e),
                _ => earlier,
            }
        }
    }
}

/// One event keeps a connection consistent.
pub proof fn lemma_connection_after_consistent(c: ConnectionView, event: ConnectionEvent)
    requires
        c.consistent(),
    ensures
        c.after(event).consistent(),
{
    match event {
        ConnectionEvent::Io(side, io) => {
            if c.session.phase == SessionPhase::Relaying {
                crate::direction::lemma_after_consistent(c.direction(side), io);
            }
        },
        _ => {},
    }
}

/// Whatever happens to a fresh connection, in whatever order, it stays
/// consistent.
pub proof fn lemma_connection_run_consistent(events: Seq<ConnectionEvent>)
    ensures
        ConnectionView::start().run(events).consistent(),
    decreases events.len(),
{
    if events.len() == 0 {
        crate::direction::lemma_run_consistent(Seq::empty());
    } else {
        lemma_connection_run_consistent(events.drop_last());
        lemma_connection_after_consistent(
            ConnectionView::start().run(events.drop_last()),
            events.last(),
        );
    }
}

/// A closed connection stays as it is, whatever happens to it: nothing is
/// read, written or dialed for it again.
pub proof fn lemma_closed_connection_is_final(c: ConnectionView, events: Seq<ConnectionEvent>)
    requires
        c.session.phase == SessionPhase::Closed,
    ensures
        c.run(events) == c,
    decreases events.len(),
{
    if events.len() > 0 {
        lemma_closed_connection_is_final(c, events.drop_last());
    }
}

/// In each direction of every connection, at every moment, the bytes that
/// the sink has taken are the front of the bytes that the source has given,
/// in the same order. For a direction that ended with the end of its source
/// they are all of them; so a connection that is closed with both directions
/// ended cleanly has lost nothing either way.
pub proof fn lemma_relay_is_in_order_and_lossless(events: Seq<ConnectionEvent>, side: Side)
    ensures
        ({
            let c = ConnectionView::start().run(events);
            let d = c.direction(side);
            &&& d.delivered.is_prefix_of(d.received)
            &&& d.phase == Phase::Finished(Ending::Eof) ==> d.delivered == d.received
            &&& c.session.ending_of(side) == Some(Ending::Eof) ==> d.delivered == d.received
        }),
{
    let c = ConnectionView::start().run(events);
    let d = c.direction(side);
    lemma_connection_run_consistent(events);
    assert(d.delivered =~= d.received.take(d.delivered.len() as int));
    if d.phase == Phase::Finished(Ending::Eof) {
        assert(d.pending =~= Seq::empty());
        assert(d.delivered + d.pending =~= d.delivered);
    }
}

/// When one direction of a connection has ended and the other has not, the
/// connection is not torn down: the session relays, and every read and
/// write of the other direction is handled as if that direction were alone.
/// Whether and when the session has learned of the first ending makes no
/// difference.
pub proof fn lemma_half_close_is_forwarded(events: Seq<ConnectionEvent>, side: Side, io: IoEvent)
    requires
        ConnectionView::start().run(events).direction(side).finished(),
        !ConnectionView::start().run(events).direction(side.opposite()).finished(),
    ensures
        ({
            let c = ConnectionView::start().run(events);
            let other = side.opposite();
            let next = c.after(ConnectionEvent::Io(other, io));
            &&& c.session.phase == SessionPhase::Relaying
            &&& c.after(ConnectionEvent::Joined(side)).session.phase == SessionPhase::Relaying
            &&& c.after(ConnectionEvent::Joined(other)) == c
            &&& next.direction(other) == c.direction(other).after(io)
            &&& next.direction(side) == c.direction(side)
            &&& next.session == c.session
        }),
{
    lemma_connection_run_consistent(events);
}

/// A session is closed after a relay only when both of its directions have
/// ended, and its outcome holds the endings that they came to.
pub proof fn lemma_close_waits_for_both(events: Seq<ConnectionEvent>)
    ensures
        ({
            let c = ConnectionView::start().run(events);
            c.session.phase == SessionPhase::Closed && c.session.outcome() is Relayed ==> {
                &&& c.upward.phase == Phase::Finished(c.session.outcome()->upward)
                &&& c.downward.phase == Phase::Finished(c.session.outcome()->downward)
            }
        }),
{
    lemma_connection_run_consistent(events);
}

/// Once both directions have ended, the session that looks at both, in
/// either order, is closed, with the endings of the two directions as its
/// outcome.
pub proof fn lemma_joining_both_closes(events: Seq<ConnectionEvent>, first: Side)
    requires
        ConnectionView::start().run(events).upward.finished(),
        ConnectionView::start().run(events).downward.finished(),
    ensures
        ({
            let c = ConnectionView::start().run(events);
            let joined = c.after(ConnectionEvent::Joined(first)).after(
                ConnectionEvent::Joined(first.opposite()),
            );
            &&& joined.session.phase == SessionPhase::Closed
            &&& joined.session.outcome() == (Outcome::Relayed {
                upward: c.upward.phase->Finished_0,
                downward: c.downward.phase->Finished_0,
            })
            &&& joined.upward == c.upward
            &&& joined.downward == c.downward
        }),
{
    lemma_connection_run_consistent(events);
}

/// When the destination cannot be reached, the connection is closed by the
/// report of the failed dial itself, and that is all that ever happens to
/// it: no direction is started, no byte is read or written, whatever comes
/// afterwards.
pub proof fn lemma_unreachable_relays_nothing(events: Seq<ConnectionEvent>)
    ensures
        ({
            let c = ConnectionView::start().after(ConnectionEvent::DialFailed).run(events);
            &&& c.session.phase == SessionPhase::Closed
            &&& c.session.outcome() == Outcome::Unreachable
            &&& c.upward == DirectionView::start()
            &&& c.downward == DirectionView::start()
        }),
{
    lemma_closed_connection_is_final(
        ConnectionView::start().after(ConnectionEvent::DialFailed),
        events,
    );
}

/// An event that is not of the connection with number `i` leaves that
/// connection exactly as it was: not another connection's close or fault,
/// not a new client, and not a failed accept.
pub proof fn lemma_connections_do_not_interfere(sys: SystemView, event: SystemEvent, i: int)
    requires
        sys.has(i),
        !(event matches SystemEvent::Connection(j, _) && j == i),
    ensures
        sys.after(event).has(i),
        sys.after(event).connections[i] == sys.connections[i],
{
}

/// Connections are never taken away: one that the forwarder has, it has for
/// good, under the same number.
pub proof fn lemma_connections_only_grow(sys: SystemView, events: Seq<SystemEvent>, i: int)
    requires
        sys.has(i),
    ensures
        sys.run(events).has(i),
    decreases events.len(),
{
    if events.len() > 0 {
        lemma_connections_only_grow(sys, events.drop_last(), i);
    }
}

/// What has become of a connection depends on its own events alone. However
/// the events of the forwarder are interleaved, each connection stands
/// where it would stand if it had been alone and had seen just its own
/// events, in their order.
pub proof fn lemma_connection_depends_on_own_events(
    config: Config,
    events: Seq<SystemEvent>,
    i: int,
)
    ensures
        ({
            let start = SystemView::start(config);
            &&& start.run(events).has(i) ==> start.run(events).connections[i]
                == ConnectionView::start().run(start.events_of(events, i))
            &&& !start.run(events).has(i) ==> start.events_of(events, i).len() == 0
        }),
    decreases events.len(),
{
    let start = SystemView::start(config);
    if events.len() > 0 {
        let before = start.run(events.drop_last());
        let earlier = start.events_of(events.drop_last(), i);
        lemma_connection_depends_on_own_events(config, events.drop_last(), i);
        match events.last() {
            SystemEvent::Connection(j, e) => {
                if j == i && before.has(i) {
                    assert(earlier.push(e).drop_last() =~= earlier);
                    assert(earlier.push(e).last() == e);
                }
            },
            SystemEvent::Acceptor(e) => {},
        }
    }
}

/// Every connection that the forwarder ever has was admitted by the same
/// acceptor, whose destination is that of the configuration and never
/// changes: all connections are relayed to the one destination.
pub proof fn lemma_one_destination(config: Config, events: Seq<SystemEvent>)
    ensures
        SystemView::start(config).run(events).acceptor.destination()
            == config.destination.address_text(),
    decreases events.len(),
{
    if events.len() > 0 {
        lemma_one_destination(config, events.drop_last());
    }
}

} // verus!
