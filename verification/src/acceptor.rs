//! The listening side.
//!
//! The acceptor binds the listening address once. A failed bind is final.
//! Once bound, it accepts for as long as the process lives: each client that
//! arrives is handed to a session of its own, which dials the one fixed
//! destination, and a failed accept costs nothing but that one attempt.

use crate::config::{
    usage_ok, well_formed_destination, wildcard_prefix, Config, ConfigError,
};
use vstd::prelude::*;

verus! {

/// Where the acceptor stands.
#[derive(Clone, Copy, Debug, PartialEq, Eq, Structural)]
pub enum AcceptorPhase {
    /// The listening address is not bound yet.
    Binding,
    /// Clients are being accepted.
    Listening,
    /// The listening address could not be bound.
    Failed,
}

/// What the caller reports to the acceptor.
#[derive(Clone, Copy, Debug, PartialEq, Eq, Structural)]
pub enum AcceptorEvent {
    /// The listening address is bound.
    Bound,
    /// The listening address could not be bound.
    BindFailed,
    /// A client has arrived.
    Accepted,
    /// An attempt to accept failed.
    AcceptFailed,
}

/// What the caller has to do for the acceptor.
#[derive(Debug)]
pub enum AcceptorAction {
    /// Bind the listening socket to this address.
    Bind(String),
    /// Wait for the next client.
    Accept,
    /// Give the client that has arrived a session of its own, which dials
    /// this address, and wait for the next client.
    Serve(String),
    /// Give up: nothing will be accepted.
    Exit,
}

/// An action as the contracts see it: the same, with each address as the
/// sequence of its characters.
pub enum AcceptorActionView {
    Bind(Seq<char>),
    Accept,
    Serve(Seq<char>),
    Exit,
}

impl View for AcceptorAction {
    type V = AcceptorActionView;

    open spec fn view(&self) -> AcceptorActionView {
        match self {
            AcceptorAction::Bind(address) => AcceptorActionView::Bind(address@),
            AcceptorAction::Accept => AcceptorActionView::Accept,
            AcceptorAction::Serve(address) => AcceptorActionView::Serve(address@),
            AcceptorAction::Exit => AcceptorActionView::Exit,
        }
    }
}

/// The acceptor as the contracts see it.
pub struct AcceptorView {
    pub phase: AcceptorPhase,
    /// What the acceptor was made of; it never changes.
    pub config: Config,
}

impl AcceptorView {
    /// The acceptor of a configuration, before the bind.
    pub open spec fn start(config: Config) -> AcceptorView {
        AcceptorView { phase: AcceptorPhase::Binding, config }
    }

    /// The address that is bound.
    pub open spec fn listen(self) -> Seq<char> {
        self.config.listen_text()
    }

    /// The address that every session dials.
    pub open spec fn destination(self) -> Seq<char> {
        self.config.destination.address_text()
    }

    /// The acceptor after one report. Only the result of the bind moves it:
    /// once it listens, it listens for good.
    pub open spec fn after(self, event: AcceptorEvent) -> AcceptorView {
        match (self.phase, event) {
            (AcceptorPhase::Binding, AcceptorEvent::Bound) => AcceptorView {
                phase: AcceptorPhase::Listening,
                ..self
            },
            (AcceptorPhase::Binding, AcceptorEvent::BindFailed) => AcceptorView {
                phase: AcceptorPhase::Failed,
                ..self
            },
            _ => self,
        }
    }

    /// What the acceptor is waiting for.
    pub open spec fn wanted(self) -> AcceptorActionView {
        match self.phase {
            AcceptorPhase::Binding => AcceptorActionView::Bind(self.listen()),
            AcceptorPhase::Listening => AcceptorActionView::Accept,
            AcceptorPhase::Failed => AcceptorActionView::Exit,
        }
    }

    /// A report of a client is taken: the acceptor listens.
    pub open spec fn admits(self, event: AcceptorEvent) -> bool {
        self.phase == AcceptorPhase::Listening && event == AcceptorEvent::Accepted
    }

    /// What a report asks of the caller: a session for a client that has
    /// arrived, else whatever the acceptor is waiting for after the report.
    pub open spec fn answer(self, event: AcceptorEvent) -> AcceptorActionView {
        if self.admits(event) {
            AcceptorActionView::Serve(self.destination())
        } else {
            self.after(event).wanted()
        }
    }

    /// The acceptor after a run of reports, taken in order.
    pub open spec fn run(self, events: Seq<AcceptorEvent>) -> AcceptorView
        decreases events.len(),
    {
        if events.len() == 0 {
            self
        } else {
            self.run(events.drop_last()).after(events.last())
        }
    }
}

/// The listening side of the forwarder: where it stands and what it was
/// started with.
#[derive(Debug)]
pub struct Acceptor {
    phase: AcceptorPhase,
    config: Config,
}

impl View for Acceptor {
    type V = AcceptorView;

    closed spec fn view(&self) -> AcceptorView {
        AcceptorView { phase: self.phase, config: self.config }
    }
}

impl Acceptor {
    /// The acceptor of a configuration, before the bind.
    pub fn new(config: Config) -> (r: Acceptor)
        ensures
            r@ == AcceptorView::start(config),
    {
        Acceptor { phase: AcceptorPhase::Binding, config }
    }

    /// Reads the argument list, the program's name included, and makes the
    /// acceptor of what it says.
    ///
    /// A list of the accepted shape with a well-formed destination gives an
    /// acceptor that is about to bind the port as written, on every
    /// interface, and that will have every client relayed to the destination
    /// as written. Any other list gives the error and no acceptor, so that
    /// nothing is bound.
    pub fn from_args(args: &Vec<String>) -> (r: Result<Acceptor, ConfigError>)
        ensures
            match r {
                Ok(a) => {
                    &&& usage_ok(args@)
                    &&& a@.phase == AcceptorPhase::Binding
                    &&& a@.config.listening_port@ == args[2]@
                    &&& a@.config.destination.is_split_of(args[4]@)
                    &&& a@.listen() == wildcard_prefix() + args[2]@
                    &&& a@.destination() == args[4]@
                },
                Err(ConfigError::Usage) => !usage_ok(args@),
                Err(ConfigError::InvalidDestination) => usage_ok(args@) && !well_formed_destination(
                    args[4]@,
                ),
            },
    {
        match Config::from_args(args) {
            Ok(config) => Ok(Acceptor::new(config)),
            Err(e) => Err(e),
        }
    }

    /// The configuration that the acceptor was made of.
    pub fn config(&self) -> (r: &Config)
        ensures
            *r == self@.config,
    {
        &self.config
    }

    /// Where the acceptor stands.
    pub fn phase(&self) -> (r: AcceptorPhase)
        ensures
            r == self@.phase,
    {
        self.phase
    }

    /// What the caller has to do next.
    pub fn wants(&self) -> (r: AcceptorAction)
        ensures
            r@ == self@.wanted(),
    {
        match self.phase {
            AcceptorPhase::Binding => AcceptorAction::Bind(self.config.listen_address()),
            AcceptorPhase::Listening => AcceptorAction::Accept,
            AcceptorPhase::Failed => AcceptorAction::Exit,
        }
    }

    /// Takes one report and says what to do next.
    pub fn step(&mut self, event: AcceptorEvent) -> (action: AcceptorAction)
        ensures
            final(self)@ == old(self)@.after(event),
            action@ == old(self)@.answer(event),
    {
        match (self.phase, event) {
            (AcceptorPhase::Binding, AcceptorEvent::Bound) => {
                self.phase = AcceptorPhase::Listening;
            },
            (AcceptorPhase::Binding, AcceptorEvent::BindFailed) => {
                self.phase = AcceptorPhase::Failed;
            },
            (AcceptorPhase::Listening, AcceptorEvent::Accepted) => {
                return AcceptorAction::Serve(self.config.destination.address());
            },
            _ => {},
        }
        self.wants()
    }
}

/// Once the acceptor listens, nothing that is reported to it ends that: not
/// a failed accept, and not any number of clients. The next client that
/// arrives is served like the first.
pub proof fn lemma_listening_is_stable(a: AcceptorView, events: Seq<AcceptorEvent>)
    requires
        a.phase == AcceptorPhase::Listening,
    ensures
        a.run(events) == a,
        a.run(events).answer(AcceptorEvent::Accepted) == AcceptorActionView::Serve(
            a.destination(),
        ),
    decreases events.len(),
{
    if events.len() > 0 {
        lemma_listening_is_stable(a, events.drop_last());
    }
}

/// A failed bind is final: the acceptor never listens afterwards and never
/// hands a client to a session.
pub proof fn lemma_failed_is_final(a: AcceptorView, event: AcceptorEvent)
    requires
        a.phase == AcceptorPhase::Failed,
    ensures
        a.after(event) == a,
        a.answer(event) == AcceptorActionView::Exit,
{
}

/// However many clients arrive and whatever is reported in between, each of
/// them is given a session that dials the same address: the destination of
/// the configuration.
pub proof fn lemma_same_destination_for_all(
    config: Config,
    events: Seq<AcceptorEvent>,
    event: AcceptorEvent,
)
    ensures
        ({
            let a = AcceptorView::start(config).run(events);
            a.answer(event) is Serve ==> a.answer(event) == AcceptorActionView::Serve(
                config.destination.address_text(),
            )
        }),
{
    lemma_run_keeps_config(AcceptorView::start(config), events);
}

/// No report changes the configuration of an acceptor.
pub proof fn lemma_run_keeps_config(a: AcceptorView, events: Seq<AcceptorEvent>)
    ensures
        a.run(events).config == a.config,
    decreases events.len(),
{
    if events.len() > 0 {
        lemma_run_keeps_config(a, events.drop_last());
    }
}

} // verus!
