//! One client connection, from dial to close.
//!
//! A session dials the destination for a client that was accepted. If the
//! dial fails, the client is closed and nothing is relayed. If it succeeds,
//! both directions are started, and the session waits until both have ended,
//! however each of them ended: one direction ending, cleanly or not, leaves
//! the other running. Then both connections are closed.

use crate::direction::Ending;
use vstd::prelude::*;

verus! {

/// One of the two directions of a session.
#[derive(Clone, Copy, Debug, PartialEq, Eq, Structural)]
pub enum Side {
    /// From the client to the destination.
    ClientToUpstream,
    /// From the destination to the client.
    UpstreamToClient,
}

impl Side {
    /// The other direction.
    pub open spec fn opposite(self) -> Side {
        match self {
            Side::ClientToUpstream => Side::UpstreamToClient,
            Side::UpstreamToClient => Side::ClientToUpstream,
        }
    }
}

/// Where a session stands.
#[derive(Clone, Copy, Debug, PartialEq, Eq, Structural)]
pub enum SessionPhase {
    /// The destination is being dialed.
    Dialing,
    /// At least one direction may still carry bytes.
    Relaying,
    /// The session is over and its connections are closed.
    Closed,
}

/// How a session came to its end.
#[derive(Clone, Copy, Debug, PartialEq, Eq, Structural)]
pub enum Outcome {
    /// The destination could not be dialed; nothing was relayed.
    Unreachable,
    /// Both directions ran and ended, each in the way given.
    Relayed { upward: Ending, downward: Ending },
}

impl Outcome {
    /// The fault that is reported for the session: that of the direction
    /// from the client if it has one, else that of the direction from the
    /// destination, else none.
    pub open spec fn fault_of(self) -> Option<(Side, Ending)> {
        match self {
            Outcome::Unreachable => None,
            Outcome::Relayed { upward, downward } => {
                if !upward.clean() {
                    Some((Side::ClientToUpstream, upward))
                } else if !downward.clean() {
                    Some((Side::UpstreamToClient, downward))
                } else {
                    None
                }
            },
        }
    }

    /// The fault that is reported for the session, if any direction had one.
    pub fn fault(&self) -> (r: Option<(Side, Ending)>)
        ensures
            r == self.fault_of(),
    {
        match self {
            Outcome::Unreachable => None,
            Outcome::Relayed { upward, downward } => {
                if !upward.is_clean() {
                    Some((Side::ClientToUpstream, *upward))
                } else if !downward.is_clean() {
                    Some((Side::UpstreamToClient, *downward))
                } else {
                    None
                }
            },
        }
    }
}

/// What the caller reports to a session.
#[derive(Clone, Copy, Debug, PartialEq, Eq, Structural)]
pub enum SessionEvent {
    /// The destination was reached.
    Dialed,
    /// The destination could not be reached.
    DialFailed,
    /// The direction named has ended in the way given.
    Finished(Side, Ending),
}

/// What the caller has to do for a session.
#[derive(Clone, Copy, Debug, PartialEq, Eq, Structural)]
pub enum SessionAction {
    /// Start both directions.
    Relay,
    /// Nothing now.
    Nothing,
    /// Close what is open, the client and, if it was reached, the
    /// destination: the session is over.
    Close(Outcome),
}

/// A session as the contracts see it.
pub struct SessionView {
    pub phase: SessionPhase,
    /// How the direction from the client ended, once it has.
    pub upward: Option<Ending>,
    /// How the direction from the destination ended, once it has.
    pub downward: Option<Ending>,
}

impl SessionView {
    /// A session whose client was just accepted.
    pub open spec fn start() -> SessionView {
        SessionView { phase: SessionPhase::Dialing, upward: None, downward: None }
    }

    /// The ending on record for a direction.
    pub open spec fn ending_of(self, side: Side) -> Option<Ending> {
        match side {
            Side::ClientToUpstream => self.upward,
            Side::UpstreamToClient => self.downward,
        }
    }

    /// The session with an ending put on record.
    pub open spec fn with_ending(self, side: Side, ending: Ending) -> SessionView {
        match side {
            Side::ClientToUpstream => SessionView { upward: Some(ending), ..self },
            Side::UpstreamToClient => SessionView { downward: Some(ending), ..self },
        }
    }

    /// Both directions have ended.
    pub open spec fn both_ended(self) -> bool {
        self.upward is Some && self.downward is Some
    }

    /// How the session ended, read off a closed session.
    pub open spec fn outcome(self) -> Outcome {
        match (self.upward, self.downward) {
            (Some(upward), Some(downward)) => Outcome::Relayed { upward, downward },
            _ => Outcome::Unreachable,
        }
    }

    /// The session after one report. The first ending on record for a
    /// direction stands; a report that the session is not waiting for
    /// changes nothing.
    pub open spec fn after(self, event: SessionEvent) -> SessionView {
        match (self.phase, event) {
            (SessionPhase::Dialing, SessionEvent::Dialed) => SessionView {
                phase: SessionPhase::Relaying,
                ..self
            },
            (SessionPhase::Dialing, SessionEvent::DialFailed) => SessionView {
                phase: SessionPhase::Closed,
                ..self
            },
            (SessionPhase::Relaying, SessionEvent::Finished(side, ending)) => {
                if self.ending_of(side) is Some {
                    self
                } else {
                    let recorded = self.with_ending(side, ending);
                    if recorded.both_ended() {
                        SessionView { phase: SessionPhase::Closed, ..recorded }
                    } else {
                        recorded
                    }
                }
            },
            _ => self,
        }
    }

    /// What a report asks of the caller: to start the relay when the dial
    /// has succeeded, to close when the session has come to its end, and
    /// nothing otherwise.
    pub open spec fn answer(self, event: SessionEvent) -> SessionAction {
        let next = self.after(event);
        if self.phase == SessionPhase::Dialing && next.phase == SessionPhase::Relaying {
            SessionAction::Relay
        } else if self.phase != SessionPhase::Closed && next.phase == SessionPhase::Closed {
            SessionAction::Close(next.outcome())
        } else {
            SessionAction::Nothing
        }
    }

    /// What holds of every session that was started and then only stepped:
    /// no ending is on record before the relay, not both while it runs, and
    /// both or none once it is closed.
    pub open spec fn consistent(self) -> bool {
        match self.phase {
            SessionPhase::Dialing => self.upward is None && self.downward is None,
            SessionPhase::Relaying => !self.both_ended(),
            SessionPhase::Closed => self.both_ended() || (self.upward is None && self.downward
                is None),
        }
    }

    /// The session after a run of reports, taken in order.
    pub open spec fn run(self, events: Seq<SessionEvent>) -> SessionView
        decreases events.len(),
    {
        if events.len() == 0 {
            self
        } else {
            self.run(events.drop_last()).after(events.last())
        }
    }

    /// How often a run of reports asks the caller to start the relay.
    pub open spec fn relays(self, events: Seq<SessionEvent>) -> nat
        decreases events.len(),
    {
        if events.len() == 0 {
            0
        } else {
            let before = self.run(events.drop_last());
            let now: nat = if before.answer(events.last()) is Relay {
                1
            } else {
                0
            };
            self.relays(events.drop_last()) + now
        }
    }

    /// How often a run of reports asks the caller to close.
    pub open spec fn closes(self, events: Seq<SessionEvent>) -> nat
        decreases events.len(),
    {
        if events.len() == 0 {
            0
        } else {
            let before = self.run(events.drop_last());
            let now: nat = if before.answer(events.last()) is Close {
                1
            } else {
                0
            };
            self.closes(events.drop_last()) + now
        }
    }
}

/// One client connection and what is known of its two directions.
#[derive(Debug)]
pub struct Session {
    phase: SessionPhase,
    upward: Option<Ending>,
    downward: Option<Ending>,
}

impl View for Session {
    type V = SessionView;

    closed spec fn view(&self) -> SessionView {
        SessionView { phase: self.phase, upward: self.upward, downward: self.downward }
    }
}

impl Session {
    /// The session of a client that was just accepted.
    pub fn new() -> (r: Session)
        ensures
            r@ == SessionView::start(),
            r@.consistent(),
    {
        Session { phase: SessionPhase::Dialing, upward: None, downward: None }
    }

    /// Where the session stands.
    pub fn phase(&self) -> (r: SessionPhase)
        ensures
            r == self@.phase,
    {
        self.phase
    }

    /// How the session ended, once it is closed.
    pub fn outcome(&self) -> (r: Option<Outcome>)
        ensures
            r == if self@.phase == SessionPhase::Closed {
                Some(self@.outcome())
            } else {
                None
            },
    {
        match self.phase {
            SessionPhase::Closed => Some(self.read_outcome()),
            _ => None,
        }
    }

    fn read_outcome(&self) -> (r: Outcome)
        ensures
            r == self@.outcome(),
    {
        match (self.upward, self.downward) {
            (Some(upward), Some(downward)) => Outcome::Relayed { upward, downward },
            _ => Outcome::Unreachable,
        }
    }

    /// Takes one report and says what to do for the session.
    pub fn step(&mut self, event: SessionEvent) -> (action: SessionAction)
        ensures
            final(self)@ == old(self)@.after(event),
            action == old(self)@.answer(event),
            old(self)@.consistent() ==> final(self)@.consistent(),
    {
        match (self.phase, event) {
            (SessionPhase::Dialing, SessionEvent::Dialed) => {
                self.phase = SessionPhase::Relaying;
                SessionAction::Relay
            },
            (SessionPhase::Dialing, SessionEvent::DialFailed) => {
                self.phase = SessionPhase::Closed;
                SessionAction::Close(self.read_outcome())
            },
            (SessionPhase::Relaying, SessionEvent::Finished(side, ending)) => {
                let known = match side {
                    Side::ClientToUpstream => self.upward.is_some(),
                    Side::UpstreamToClient => self.downward.is_some(),
                };
                if known {
                    return SessionAction::Nothing;
                }
                match side {
                    Side::ClientToUpstream => {
                        self.upward = Some(ending);
                    },
                    Side::UpstreamToClient => {
                        self.downward = Some(ending);
                    },
                }
                if self.upward.is_some() && self.downward.is_some() {
                    self.phase = SessionPhase::Closed;
                    SessionAction::Close(self.read_outcome())
                } else {
                    SessionAction::Nothing
                }
            },
            _ => SessionAction::Nothing,
        }
    }
}

/// One report keeps a session consistent.
pub proof fn lemma_after_consistent(s: SessionView, event: SessionEvent)
    requires
        s.consistent(),
    ensures
        s.after(event).consistent(),
{
}

/// Whatever is reported to a fresh session, in whatever order, it stays
/// consistent.
pub proof fn lemma_run_consistent(events: Seq<SessionEvent>)
    ensures
        SessionView::start().run(events).consistent(),
    decreases events.len(),
{
    if events.len() > 0 {
        lemma_run_consistent(events.drop_last());
        lemma_after_consistent(SessionView::start().run(events.drop_last()), events.last());
    }
}

/// A closed session stays as it is and asks for nothing more.
pub proof fn lemma_closed_is_final(s: SessionView, event: SessionEvent)
    requires
        s.phase == SessionPhase::Closed,
    ensures
        s.after(event) == s,
        s.answer(event) == SessionAction::Nothing,
{
}

/// A failed dial ends the session at once: the very report of it asks for
/// the close, and no ending of a direction is on record, since none was
/// started.
pub proof fn lemma_unreachable_closes_at_once()
    ensures
        ({
            let s = SessionView::start();
            &&& s.answer(SessionEvent::DialFailed) == SessionAction::Close(Outcome::Unreachable)
            &&& s.after(SessionEvent::DialFailed).phase == SessionPhase::Closed
            &&& s.after(SessionEvent::DialFailed).upward is None
            &&& s.after(SessionEvent::DialFailed).downward is None
        }),
{
}

/// The first direction to end, however it ended, does not end the session:
/// while the other has not ended, the session goes on relaying and asks for
/// nothing.
pub proof fn lemma_first_ending_keeps_relaying(s: SessionView, side: Side, ending: Ending)
    requires
        s.phase == SessionPhase::Relaying,
        s.ending_of(side.opposite()) is None,
    ensures
        s.after(SessionEvent::Finished(side, ending)).phase == SessionPhase::Relaying,
        s.after(SessionEvent::Finished(side, ending)).ending_of(side.opposite()) is None,
        s.answer(SessionEvent::Finished(side, ending)) == SessionAction::Nothing,
{
}

/// The second direction to end closes the session, and the outcome holds
/// both endings as they were reported.
pub proof fn lemma_second_ending_closes(s: SessionView, side: Side, ending: Ending)
    requires
        s.phase == SessionPhase::Relaying,
        s.ending_of(side) is None,
        s.ending_of(side.opposite()) is Some,
    ensures
        ({
            let next = s.after(SessionEvent::Finished(side, ending));
            &&& next.phase == SessionPhase::Closed
            &&& next.ending_of(side) == Some(ending)
            &&& next.ending_of(side.opposite()) == s.ending_of(side.opposite())
            &&& s.answer(SessionEvent::Finished(side, ending)) == SessionAction::Close(
                next.outcome(),
            )
            &&& next.outcome() is Relayed
        }),
{
}

/// It does not matter in which order the endings of the two directions are
/// reported: the session comes to the same state either way.
pub proof fn lemma_order_of_endings_is_immaterial(
    s: SessionView,
    side: Side,
    ending: Ending,
    other_ending: Ending,
)
    ensures
        s.after(SessionEvent::Finished(side, ending)).after(
            SessionEvent::Finished(side.opposite(), other_ending),
        ) == s.after(SessionEvent::Finished(side.opposite(), other_ending)).after(
            SessionEvent::Finished(side, ending),
        ),
{
}

/// A session is closed only for one of two reasons: the dial failed, or
/// both directions have ended. It asks for the relay at most once and for
/// the close at most once, in every run: once for the relay exactly when the
/// dial succeeded, and once for the close exactly when it is closed.
pub proof fn lemma_one_relay_one_close(events: Seq<SessionEvent>)
    ensures
        ({
            let start = SessionView::start();
            let s = start.run(events);
            match s.phase {
                SessionPhase::Dialing => start.relays(events) == 0 && start.closes(events) == 0,
                SessionPhase::Relaying => start.relays(events) == 1 && start.closes(events) == 0,
                SessionPhase::Closed => {
                    &&& start.closes(events) == 1
                    &&& s.both_ended() ==> start.relays(events) == 1
                    &&& !s.both_ended() ==> start.relays(events) == 0 && s.outcome()
                        == Outcome::Unreachable
                },
            }
        }),
    decreases events.len(),
{
    if events.len() > 0 {
        lemma_one_relay_one_close(events.drop_last());
        lemma_run_consistent(events.drop_last());
    }
}

} // verus!
