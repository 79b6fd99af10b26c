//! One direction of a relay.
//!
//! A direction carries bytes from a source to a sink in chunks: read a
//! chunk, write all of it, read the next. It ends when the source reports
//! its end or when either side fails, and it ends alone: it never stops its
//! twin. The machine here decides; the caller reads and writes, and reports
//! each result as an [`IoEvent`].

use vstd::prelude::*;

verus! {

/// The most bytes a direction asks its source for at a time.
pub const CHUNK_SIZE: usize = 4096;

/// How a direction came to its end.
#[derive(Clone, Copy, Debug, PartialEq, Eq, Structural)]
pub enum Ending {
    /// The source reported its end and everything read had been written.
    Eof,
    /// Reading from the source failed.
    ReadFailed,
    /// Writing to the sink failed.
    WriteFailed,
    /// The sink took no byte of a chunk that was offered to it.
    WriteZero,
}

impl Ending {
    /// The direction ended because its source did, not because of a fault.
    pub open spec fn clean(self) -> bool {
        self == Ending::Eof
    }

    /// The direction ended because its source did, not because of a fault.
    pub fn is_clean(self) -> (r: bool)
        ensures
            r == self.clean(),
    {
        match self {
            Ending::Eof => true,
            _ => false,
        }
    }
}

/// Where a direction stands.
#[derive(Clone, Copy, Debug, PartialEq, Eq, Structural)]
pub enum Phase {
    /// Nothing is pending; the next chunk is awaited from the source.
    Reading,
    /// A chunk, or the rest of one, is awaited to be taken by the sink.
    Writing,
    /// The direction is over.
    Finished(Ending),
}

/// What the caller has to do next for a direction.
#[derive(Clone, Copy, Debug, PartialEq, Eq, Structural)]
pub enum IoAction {
    /// Read from the source, at most `limit` bytes.
    Read { limit: usize },
    /// Offer the pending bytes to the sink.
    Write,
    /// Nothing more: the direction is over.
    Stop,
}

/// What the caller reports back.
#[derive(Debug)]
pub enum IoEvent {
    /// The source gave these bytes; none means that it has ended. They are
    /// taken as they come, however many they are.
    Read(Vec<u8>),
    /// The source failed.
    ReadFailed,
    /// The sink took this many of the pending bytes, from the front.
    Written(usize),
    /// The sink failed.
    WriteFailed,
    /// The read or write was interrupted before it moved a byte.
    Interrupted,
}

/// A direction as the contracts see it.
pub struct DirectionView {
    pub phase: Phase,
    /// Read and not yet taken by the sink.
    pub pending: Seq<u8>,
    /// Everything the source has given so far, in order.
    pub received: Seq<u8>,
    /// Everything the sink has taken so far, in order.
    pub delivered: Seq<u8>,
}

/// How many of the pending bytes a report of `n` written bytes stands for.
/// A sink cannot take more than it was offered.
pub open spec fn taken(pending: Seq<u8>, n: usize) -> int {
    if n <= pending.len() {
        n as int
    } else {
        pending.len() as int
    }
}

impl DirectionView {
    /// A direction before its first read.
    pub open spec fn start() -> DirectionView {
        DirectionView {
            phase: Phase::Reading,
            pending: Seq::empty(),
            received: Seq::empty(),
            delivered: Seq::empty(),
        }
    }

    /// The direction with its phase replaced by an ending.
    pub open spec fn ended(self, ending: Ending) -> DirectionView {
        DirectionView { phase: Phase::Finished(ending), ..self }
    }

    /// The direction after one report. An interrupted call changes nothing,
    /// so that the same call is asked for again, and neither does a report
    /// that does not answer what the direction is waiting for.
    pub open spec fn after(self, event: IoEvent) -> DirectionView {
        match (self.phase, event) {
            (Phase::Reading, IoEvent::Read(data)) => {
                if data@.len() == 0 {
                    self.ended(Ending::Eof)
                } else {
                    DirectionView {
                        phase: Phase::Writing,
                        pending: data@,
                        received: self.received + data@,
                        delivered: self.delivered,
                    }
                }
            },
            (Phase::Reading, IoEvent::ReadFailed) => self.ended(Ending::ReadFailed),
            (Phase::Writing, IoEvent::Written(n)) => {
                let k = taken(self.pending, n);
                if k == 0 {
                    self.ended(Ending::WriteZero)
                } else {
                    DirectionView {
                        phase: if k == self.pending.len() {
                            Phase::Reading
                        } else {
                            Phase::Writing
                        },
                        pending: self.pending.skip(k),
                        received: self.received,
                        delivered: self.delivered + self.pending.take(k),
                    }
                }
            },
            (Phase::Writing, IoEvent::WriteFailed) => self.ended(Ending::WriteFailed),
            _ => self,
        }
    }

    /// What the direction is waiting for.
    pub open spec fn wanted(self) -> IoAction {
        match self.phase {
            Phase::Reading => IoAction::Read { limit: CHUNK_SIZE },
            Phase::Writing => IoAction::Write,
            Phase::Finished(_) => IoAction::Stop,
        }
    }

    /// The direction is over.
    pub open spec fn finished(self) -> bool {
        self.phase is Finished
    }

    /// What holds of every direction that was started and then only
    /// stepped: nothing is lost or reordered, and bytes are pending exactly
    /// while a write is awaited or after a write went wrong.
    pub open spec fn consistent(self) -> bool {
        &&& self.received == self.delivered + self.pending
        &&& match self.phase {
            Phase::Reading => self.pending.len() == 0,
            Phase::Writing => self.pending.len() > 0,
            Phase::Finished(Ending::Eof) => self.pending.len() == 0,
            Phase::Finished(Ending::ReadFailed) => self.pending.len() == 0,
            Phase::Finished(Ending::WriteFailed) => self.pending.len() > 0,
            Phase::Finished(Ending::WriteZero) => self.pending.len() > 0,
        }
    }

    /// The direction after a run of reports, taken in order.
    pub open spec fn run(self, events: Seq<IoEvent>) -> DirectionView
        decreases events.len(),
    {
        if events.len() == 0 {
            self
        } else {
            self.run(events.drop_last()).after(events.last())
        }
    }
}

/// One direction of a relay: the undelivered rest of the current chunk and
/// the phase of the copy.
pub struct Direction {
    phase: Phase,
    pending: Vec<u8>,
    received: Ghost<Seq<u8>>,
    delivered: Ghost<Seq<u8>>,
}

impl View for Direction {
    type V = DirectionView;

    closed spec fn view(&self) -> DirectionView {
        DirectionView {
            phase: self.phase,
            pending: self.pending@,
            received: self.received@,
            delivered: self.delivered@,
        }
    }
}

impl Direction {
    /// A direction that has not read yet.
    pub fn new() -> (r: Direction)
        ensures
            r@ == DirectionView::start(),
            r@.consistent(),
    {
        Direction {
            phase: Phase::Reading,
            pending: Vec::new(),
            received: Ghost(Seq::empty()),
            delivered: Ghost(Seq::empty()),
        }
    }

    /// Where the direction stands.
    pub fn phase(&self) -> (r: Phase)
        ensures
            r == self@.phase,
    {
        self.phase
    }

    /// What the caller has to do next.
    pub fn wants(&self) -> (r: IoAction)
        ensures
            r == self@.wanted(),
    {
        match self.phase {
            Phase::Reading => IoAction::Read { limit: CHUNK_SIZE },
            Phase::Writing => IoAction::Write,
            Phase::Finished(_) => IoAction::Stop,
        }
    }

    /// The bytes that were read and that the sink has not taken: what a
    /// [`IoAction::Write`] offers.
    pub fn pending(&self) -> (r: &Vec<u8>)
        ensures
            r@ == self@.pending,
    {
        &self.pending
    }

    /// How the direction ended, once it has.
    pub fn ending(&self) -> (r: Option<Ending>)
        ensures
            match r {
                Some(e) => self@.phase == Phase::Finished(e),
                None => !self@.finished(),
            },
    {
        match self.phase {
            Phase::Finished(e) => Some(e),
            _ => None,
        }
    }

    /// Takes one report and says what to do next.
    pub fn step(&mut self, event: IoEvent) -> (action: IoAction)
        ensures
            final(self)@ == old(self)@.after(event),
            action == final(self)@.wanted(),
            old(self)@.consistent() ==> final(self)@.consistent(),
    {
        proof {
            if self@.consistent() {
                lemma_after_consistent(self@, event);
            }
        }
        match self.phase {
            Phase::Reading => {
                match event {
                    IoEvent::Read(data) => {
                        if data.len() == 0 {
                            self.phase = Phase::Finished(Ending::Eof);
                        } else {
                            self.received = Ghost(self.received@ + data@);
                            self.pending = data;
                            self.phase = Phase::Writing;
                        }
                    },
                    IoEvent::ReadFailed => {
                        self.phase = Phase::Finished(Ending::ReadFailed);
                    },
                    _ => {},
                }
            },
            Phase::Writing => {
                match event {
                    IoEvent::Written(n) => {
                        let len = self.pending.len();
                        let k = if n <= len {
                            n
                        } else {
                            len
                        };
                        if k == 0 {
                            self.phase = Phase::Finished(Ending::WriteZero);
                        } else {
                            let rest = self.pending.split_off(k);
                            self.delivered = Ghost(self.delivered@ + self.pending@);
                            self.pending = rest;
                            if k == len {
                                self.phase = Phase::Reading;
                            }
                        }
                    },
                    IoEvent::WriteFailed => {
                        self.phase = Phase::Finished(Ending::WriteFailed);
                    },
                    _ => {},
                }
            },
            Phase::Finished(_) => {},
        }
        self.wants()
    }
}

/// One report keeps a direction consistent.
pub proof fn lemma_after_consistent(d: DirectionView, event: IoEvent)
    requires
        d.consistent(),
    ensures
        d.after(event).consistent(),
{
    match (d.phase, event) {
        (Phase::Reading, IoEvent::Read(data)) => {
            assert(d.pending =~= Seq::empty());
            assert(d.received + data@ =~= d.delivered + data@);
        },
        (Phase::Writing, IoEvent::Written(n)) => {
            let k = taken(d.pending, n);
            assert(d.delivered + d.pending =~= (d.delivered + d.pending.take(k)) + d.pending.skip(
                k,
            ));
        },
        _ => {},
    }
}

/// Whatever is reported to a fresh direction, in whatever order, it stays
/// consistent.
pub proof fn lemma_run_consistent(events: Seq<IoEvent>)
    ensures
        DirectionView::start().run(events).consistent(),
    decreases events.len(),
{
    if events.len() == 0 {
        assert(Seq::<u8>::empty() + Seq::<u8>::empty() =~= Seq::<u8>::empty());
    } else {
        lemma_run_consistent(events.drop_last());
        lemma_after_consistent(DirectionView::start().run(events.drop_last()), events.last());
    }
}

/// A direction that is over stays as it is, whatever is reported to it.
pub proof fn lemma_finished_is_final(d: DirectionView, event: IoEvent)
    requires
        d.finished(),
    ensures
        d.after(event) == d,
        d.after(event).wanted() == IoAction::Stop,
{
}

/// Bytes are only ever added, and at the end: a report extends what was
/// received and what was delivered, and takes nothing back.
pub proof fn lemma_after_extends(d: DirectionView, event: IoEvent)
    ensures
        d.received.is_prefix_of(d.after(event).received),
        d.delivered.is_prefix_of(d.after(event).delivered),
{
    let next = d.after(event);
    assert(d.received =~= next.received.take(d.received.len() as int));
    assert(d.delivered =~= next.delivered.take(d.delivered.len() as int));
}

/// The reports of a run keep to the limit: no read has given more bytes than
/// a direction asks for.
pub open spec fn within_limit(events: Seq<IoEvent>) -> bool {
    forall|i: int|
        0 <= i < events.len() ==> (#[trigger] events[i] matches IoEvent::Read(data)
            ==> data@.len() <= CHUNK_SIZE)
}

/// A direction never holds more than one chunk: while the reads keep to the
/// limit, so do the pending bytes.
pub proof fn lemma_pending_is_bounded(events: Seq<IoEvent>)
    requires
        within_limit(events),
    ensures
        DirectionView::start().run(events).pending.len() <= CHUNK_SIZE,
    decreases events.len(),
{
    if events.len() > 0 {
        let earlier = events.drop_last();
        assert forall|i: int| 0 <= i < earlier.len() implies (#[trigger] earlier[i] matches IoEvent::Read(
            data,
        ) ==> data@.len() <= CHUNK_SIZE) by {
            assert(earlier[i] == events[i]);
        }
        lemma_pending_is_bounded(earlier);
        assert(events.last() == events[events.len() - 1]);
    }
}

/// What the sink has taken is, at every moment of every run, the front of
/// what the source has given: the same bytes in the same order. When the
/// direction has ended with the end of its source, it is all of it.
pub proof fn lemma_delivery_in_order_and_complete(events: Seq<IoEvent>)
    ensures
        ({
            let d = DirectionView::start().run(events);
            &&& d.delivered.is_prefix_of(d.received)
            &&& d.phase == Phase::Finished(Ending::Eof) ==> d.delivered == d.received
        }),
{
    let d = DirectionView::start().run(events);
    lemma_run_consistent(events);
    assert(d.delivered =~= d.received.take(d.delivered.len() as int));
    if d.phase == Phase::Finished(Ending::Eof) {
        assert(d.pending =~= Seq::empty());
        assert(d.delivered + d.pending =~= d.delivered);
    }
}

} // verus!
