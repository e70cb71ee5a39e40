//! One direction of a tunnel: the read-then-write cycle that copies bytes from
//! a source to a destination, one chunk at a time.
//!
//! The relay performs no I/O. It is a state machine: the driver tells it what
//! the last operation produced, and the relay answers with the next operation
//! to perform. Bytes travel through it by ownership, so a chunk that was read
//! is handed back unchanged to be written.

use vstd::prelude::*;

verus! {

/// The most bytes a single read may deliver: 16 KiB. At most one chunk is in
/// flight per direction, which is what holds a fast source back to the pace of
/// a slow destination.
pub const CHUNK_SIZE: usize = 16384;

/// What a relay is waiting for.
#[derive(Clone, Copy, PartialEq, Eq, Structural, Debug)]
pub enum RelayPhase {
    /// Nothing has been asked of the driver yet.
    Idle,
    /// A read from the source is outstanding.
    Reading,
    /// A write of the chunk last read is outstanding.
    Writing,
    /// The source has ended; the half-close of the destination is outstanding.
    Closing,
    /// The destination was half-closed and the byte count reported.
    Finished,
    /// The relay was aborted.
    Failed,
}

/// Why a relay was aborted.
#[derive(Debug, PartialEq, Eq)]
pub enum RelayError<E> {
    /// A read, write or half-close failed with this error.
    Io(E),
    /// The driver reported something the relay had not asked for, or a read
    /// of more than [`CHUNK_SIZE`] bytes.
    Protocol,
}

/// What the driver reports to a relay.
#[derive(Debug, PartialEq, Eq)]
pub enum RelayEvent<E> {
    /// The relay may begin.
    Start,
    /// A read completed with these bytes; none means end of stream.
    Read(Vec<u8>),
    /// The chunk was written to the destination in full.
    Written,
    /// The write side of the destination was shut down.
    Closed,
    /// The operation last asked for failed.
    Failed(E),
}

/// What a relay asks of the driver.
#[derive(Debug, PartialEq, Eq)]
pub enum RelayAction<E> {
    /// Read up to [`CHUNK_SIZE`] bytes from the source.
    Read,
    /// Write all of these bytes to the destination.
    Write(Vec<u8>),
    /// Shut down the write side of the destination.
    Shutdown,
    /// The relay is done; this many bytes were copied.
    Finish(usize),
    /// The relay is done and has failed.
    Abort(RelayError<E>),
}

/// The state of one relay direction.
#[derive(Clone, Copy, PartialEq, Eq, Structural, Debug)]
pub struct Relay {
    /// What the relay is waiting for.
    pub phase: RelayPhase,
    /// The bytes read from the source so far.
    pub total: usize,
}

impl Relay {
    /// A relay that has not begun.
    pub open spec fn fresh() -> Relay {
        Relay { phase: RelayPhase::Idle, total: 0 }
    }

    /// Whether `event` answers what a relay in this state is waiting for.
    pub open spec fn in_turn<E>(self, event: RelayEvent<E>) -> bool {
        match self.phase {
            RelayPhase::Idle => event is Start,
            RelayPhase::Reading => match event {
                RelayEvent::Read(data) => data@.len() <= CHUNK_SIZE,
                RelayEvent::Failed(_) => true,
                _ => false,
            },
            RelayPhase::Writing => event is Written || event is Failed,
            RelayPhase::Closing => event is Closed || event is Failed,
            RelayPhase::Finished | RelayPhase::Failed => false,
        }
    }

    /// Whether the count can take in the bytes that `event` brings: it must
    /// stay within `usize`.
    pub open spec fn can_count<E>(self, event: RelayEvent<E>) -> bool {
        match event {
            RelayEvent::Read(data) => self.phase is Reading && data@.len() <= CHUNK_SIZE
                ==> self.total + data@.len() <= usize::MAX,
            _ => true,
        }
    }

    /// The transition function: the state after `event`, and what the relay
    /// asks for next.
    ///
    /// A read with bytes is passed on to be written before anything else is
    /// read; an empty read leads to the half-close and then to the count. A
    /// failed operation aborts the relay with its error. Anything out of turn
    /// aborts it too.
    pub open spec fn next<E>(self, event: RelayEvent<E>) -> (Relay, RelayAction<E>) {
        if !self.in_turn(event) {
            (
                Relay { phase: RelayPhase::Failed, total: self.total },
                RelayAction::Abort(RelayError::Protocol),
            )
        } else {
            match event {
                RelayEvent::Start => (
                    Relay { phase: RelayPhase::Reading, total: self.total },
                    RelayAction::Read,
                ),
                RelayEvent::Read(data) => if data@.len() == 0 {
                    (Relay { phase: RelayPhase::Closing, total: self.total }, RelayAction::Shutdown)
                } else {
                    (
                        Relay {
                            phase: RelayPhase::Writing,
                            total: (self.total + data@.len()) as usize,
                        },
                        RelayAction::Write(data),
                    )
                },
                RelayEvent::Written => (
                    Relay { phase: RelayPhase::Reading, total: self.total },
                    RelayAction::Read,
                ),
                RelayEvent::Closed => (
                    Relay { phase: RelayPhase::Finished, total: self.total },
                    RelayAction::Finish(self.total),
                ),
                RelayEvent::Failed(error) => (
                    Relay { phase: RelayPhase::Failed, total: self.total },
                    RelayAction::Abort(RelayError::Io(error)),
                ),
            }
        }
    }

    /// A relay that has not begun: idle, with nothing counted.
    pub fn new() -> (relay: Relay)
        ensures
            relay == Relay::fresh(),
    {
        Relay { phase: RelayPhase::Idle, total: 0 }
    }

    /// Takes one event and returns the state that follows together with the
    /// next thing to do.
    pub fn step<E>(self, event: RelayEvent<E>) -> (r: (Relay, RelayAction<E>))
        requires
            self.can_count(event),
        ensures
            r == self.next(event),
    {
        let aborted = Relay { phase: RelayPhase::Failed, total: self.total };
        match self.phase {
            RelayPhase::Idle => match event {
                RelayEvent::Start => (
                    Relay { phase: RelayPhase::Reading, total: self.total },
                    RelayAction::Read,
                ),
                _ => (aborted, RelayAction::Abort(RelayError::Protocol)),
            },
            RelayPhase::Reading => match event {
                RelayEvent::Read(data) => {
                    let len: usize = data.len();
                    if len == 0 {
                        (
                            Relay { phase: RelayPhase::Closing, total: self.total },
                            RelayAction::Shutdown,
                        )
                    } else if len <= CHUNK_SIZE {
                        (
                            Relay { phase: RelayPhase::Writing, total: self.total + len },
                            RelayAction::Write(data),
                        )
                    } else {
                        (aborted, RelayAction::Abort(RelayError::Protocol))
                    }
                },
                RelayEvent::Failed(error) => (aborted, RelayAction::Abort(RelayError::Io(error))),
                _ => (aborted, RelayAction::Abort(RelayError::Protocol)),
            },
            RelayPhase::Writing => match event {
                RelayEvent::Written => (
                    Relay { phase: RelayPhase::Reading, total: self.total },
                    RelayAction::Read,
                ),
                RelayEvent::Failed(error) => (aborted, RelayAction::Abort(RelayError::Io(error))),
                _ => (aborted, RelayAction::Abort(RelayError::Protocol)),
            },
            RelayPhase::Closing => match event {
                RelayEvent::Closed => (
                    Relay { phase: RelayPhase::Finished, total: self.total },
                    RelayAction::Finish(self.total),
                ),
                RelayEvent::Failed(error) => (aborted, RelayAction::Abort(RelayError::Io(error))),
                _ => (aborted, RelayAction::Abort(RelayError::Protocol)),
            },
            RelayPhase::Finished | RelayPhase::Failed => (
                aborted,
                RelayAction::Abort(RelayError::Protocol),
            ),
        }
    }
}

/// The bytes that an action hands to the destination.
pub open spec fn payload<E>(action: RelayAction<E>) -> Seq<u8> {
    match action {
        RelayAction::Write(data) => data@,
        _ => Seq::empty(),
    }
}

/// The bytes that an event brings from the source.
pub open spec fn intake<E>(event: RelayEvent<E>) -> Seq<u8> {
    match event {
        RelayEvent::Read(data) => data@,
        _ => Seq::empty(),
    }
}

/// What a relay reported with `action`, if that action ended it.
pub open spec fn reported<E>(action: RelayAction<E>) -> Option<Result<usize, RelayError<E>>> {
    match action {
        RelayAction::Finish(total) => Some(Ok(total)),
        RelayAction::Abort(error) => Some(Err(error)),
        _ => None,
    }
}

/// Everything the source delivered over a sequence of events: the bytes of
/// all reads, in order.
pub open spec fn delivered<E>(events: Seq<RelayEvent<E>>) -> Seq<u8>
    decreases events.len(),
{
    if events.len() == 0 {
        Seq::empty()
    } else {
        delivered(events.drop_last()) + intake(events.last())
    }
}

/// Whether the source reported its end somewhere in `events`.
pub open spec fn ended<E>(events: Seq<RelayEvent<E>>) -> bool
    decreases events.len(),
{
    events.len() != 0 && (ended(events.drop_last()) || (events.last() matches RelayEvent::Read(
        data,
    ) && data@.len() == 0))
}

impl Relay {
    /// Whether the relay is over: it has reported its result.
    pub open spec fn is_over(self) -> bool {
        self.phase is Finished || self.phase is Failed
    }

    /// The state reached from this one after `events`, taken in order.
    pub open spec fn run<E>(self, events: Seq<RelayEvent<E>>) -> Relay
        decreases events.len(),
    {
        if events.len() == 0 {
            self
        } else {
            self.run(events.drop_last()).next(events.last()).0
        }
    }

    /// What the relay asks for in answer to the last of `events`.
    pub open spec fn answer<E>(self, events: Seq<RelayEvent<E>>) -> RelayAction<E> {
        self.run(events.drop_last()).next(events.last()).1
    }

    /// Whether every event of `events` answers what the relay was waiting for
    /// when it arrived.
    pub open spec fn well_driven<E>(self, events: Seq<RelayEvent<E>>) -> bool
        decreases events.len(),
    {
        events.len() == 0 || (self.well_driven(events.drop_last()) && self.run(
            events.drop_last(),
        ).in_turn(events.last()))
    }

    /// Everything the relay handed on to be written while taking `events`, in
    /// order.
    pub open spec fn forwarded<E>(self, events: Seq<RelayEvent<E>>) -> Seq<u8>
        decreases events.len(),
    {
        if events.len() == 0 {
            Seq::empty()
        } else {
            self.forwarded(events.drop_last()) + payload(self.answer(events))
        }
    }

    /// How many times the relay asked for the destination to be half-closed
    /// while taking `events`.
    pub open spec fn shutdowns<E>(self, events: Seq<RelayEvent<E>>) -> nat
        decreases events.len(),
    {
        if events.len() == 0 {
            0
        } else {
            self.shutdowns(events.drop_last()) + if self.answer(events) is Shutdown {
                1nat
            } else {
                0nat
            }
        }
    }
}

/// A relay passes on exactly what it reads. Whatever the source delivers, in
/// whatever chunks, the bytes handed to the destination are the same bytes in
/// the same order, with nothing lost and nothing repeated.
pub proof fn lemma_relay_forwards_what_it_reads<E>(events: Seq<RelayEvent<E>>)
    requires
        Relay::fresh().well_driven(events),
    ensures
        Relay::fresh().forwarded(events) == delivered(events),
    decreases events.len(),
{
    if events.len() != 0 {
        lemma_relay_forwards_what_it_reads(events.drop_last());
    }
}

/// A relay counts exactly what it reads. The running count is the number of
/// bytes that the source has delivered, and so is the count that the relay
/// reports when it finishes.
pub proof fn lemma_relay_counts_what_it_reads<E>(events: Seq<RelayEvent<E>>)
    requires
        Relay::fresh().well_driven(events),
        delivered(events).len() <= usize::MAX,
    ensures
        Relay::fresh().run(events).total == delivered(events).len(),
        events.len() >= 1 ==> (Relay::fresh().answer(events) matches RelayAction::Finish(total)
            ==> total == delivered(events).len()),
    decreases events.len(),
{
    if events.len() != 0 {
        lemma_relay_counts_what_it_reads(events.drop_last());
    }
}

/// The count of a direction depends on the bytes alone, not on how the reads
/// happened to cut them up: two runs over the same byte stream count the same.
pub proof fn lemma_count_ignores_chunk_boundaries<E>(
    first: Seq<RelayEvent<E>>,
    second: Seq<RelayEvent<E>>,
)
    requires
        Relay::fresh().well_driven(first),
        Relay::fresh().well_driven(second),
        delivered(first) == delivered(second),
        delivered(first).len() <= usize::MAX,
    ensures
        Relay::fresh().run(first).total == Relay::fresh().run(second).total,
{
    lemma_relay_counts_what_it_reads(first);
    lemma_relay_counts_what_it_reads(second);
}

/// The destination is half-closed once if the source has ended and not at all
/// before that, and a relay only finishes after the half-close went through.
pub proof fn lemma_half_close_follows_end_of_stream<E>(events: Seq<RelayEvent<E>>)
    requires
        Relay::fresh().well_driven(events),
    ensures
        Relay::fresh().shutdowns(events) == if ended(events) {
            1nat
        } else {
            0nat
        },
        Relay::fresh().run(events).phase is Closing || Relay::fresh().run(events).phase
            is Finished ==> ended(events),
        Relay::fresh().run(events).phase is Idle || Relay::fresh().run(events).phase is Reading
            || Relay::fresh().run(events).phase is Writing ==> !ended(events),
        Relay::fresh().run(events).phase is Finished ==> events.last() is Closed,
    decreases events.len(),
{
    if events.len() != 0 {
        lemma_half_close_follows_end_of_stream(events.drop_last());
    }
}

/// A relay reports one result. It reports with the event that ends it, a count
/// if it finished and an error if it failed, and until that event it is not
/// over and reports nothing.
pub proof fn lemma_relay_reports_once<E>(events: Seq<RelayEvent<E>>)
    requires
        Relay::fresh().well_driven(events),
        events.len() >= 1,
    ensures
        !Relay::fresh().run(events.drop_last()).is_over(),
        reported(Relay::fresh().answer(events)) is Some <==> Relay::fresh().run(events).is_over(),
        Relay::fresh().answer(events) is Finish <==> Relay::fresh().run(events).phase is Finished,
        Relay::fresh().answer(events) is Abort <==> Relay::fresh().run(events).phase is Failed,
{
}

/// A relay never holds more than one chunk: every write it asks for carries
/// the bytes of the read just before it, at most [`CHUNK_SIZE`] of them, and
/// it asks for no further read until that write is reported done.
pub proof fn lemma_one_chunk_in_flight<E>(relay: Relay, event: RelayEvent<E>)
    ensures
        relay.next(event).1 matches RelayAction::Write(data) ==> {
            &&& event == RelayEvent::<E>::Read(data)
            &&& 0 < data@.len() <= CHUNK_SIZE
            &&& relay.phase is Reading
            &&& relay.next(event).0.phase is Writing
        },
        relay.next(event).1 is Read ==> (relay.phase is Idle && event is Start) || (relay.phase
            is Writing && event is Written),
{
}

} // verus!
