//! The readiness-driven strategy: one thread, three queues of pending
//! events, and for each connection a walk from accepted to closed.
//!
//! The thread that runs the server polls the queue of the listening socket,
//! then the queue of the connections to read from, then the queue of the
//! connections to write to, and starts over. What it finds ready it brings
//! here, together with what the socket said, and is told what to do next.

pub mod kevent;
pub mod queue;

use crate::event_loop::kevent::{registration, EVFILT_READ, EVFILT_WRITE};
use crate::event_loop::queue::{
    from_slice, Buffer, Event, GeneralEvent, ListenerEvent, Queue, QueueError, BUFFER_SIZE,
};
use crate::file::StaticFiles;
use crate::response::{answer, create_response, sendable};
use vstd::prelude::*;

verus! {

/// Where a connection stands.
#[derive(Debug, PartialEq, Eq, Clone, Copy, Structural)]
pub enum ConnectionState {
    /// It waits at the listening socket.
    Accepting,
    /// It is accepted, and its request is awaited.
    Reading,
    /// Its request is read and is being answered.
    Processing,
    /// Its response is made and waits to go out.
    Writing,
    /// Its socket is given up.
    Closed,
}

/// What can happen to a connection.
#[derive(Debug, PartialEq, Eq, Clone, Copy, Structural)]
pub enum Signal {
    /// The listening socket handed the connection over.
    Accepted,
    /// A read found nothing to read yet.
    WouldBlock,
    /// A read failed.
    ReadFailed,
    /// A read found that the peer is gone.
    EndOfStream,
    /// A read brought the request.
    Received,
    /// The response is made and fits the buffer.
    Answered,
    /// The response is made and does not fit the buffer.
    TooLarge,
    /// The write was made, in full or in part.
    Written,
    /// The write failed.
    WriteFailed,
}

/// How far a connection has come: a state further down its way has a
/// greater rank.
pub open spec fn rank(state: ConnectionState) -> nat {
    match state {
        ConnectionState::Accepting => 0,
        ConnectionState::Reading => 1,
        ConnectionState::Processing => 2,
        ConnectionState::Writing => 3,
        ConnectionState::Closed => 4,
    }
}

/// The state that follows on `state` when `signal` happens. A signal that
/// has no meaning in a state leaves the state as it is.
pub open spec fn transition(state: ConnectionState, signal: Signal) -> ConnectionState {
    match (state, signal) {
        (ConnectionState::Accepting, Signal::Accepted) => ConnectionState::Reading,
        (ConnectionState::Reading, Signal::WouldBlock) => ConnectionState::Reading,
        (ConnectionState::Reading, Signal::ReadFailed) => ConnectionState::Closed,
        (ConnectionState::Reading, Signal::EndOfStream) => ConnectionState::Closed,
        (ConnectionState::Reading, Signal::Received) => ConnectionState::Processing,
        (ConnectionState::Processing, Signal::Answered) => ConnectionState::Writing,
        (ConnectionState::Processing, Signal::TooLarge) => ConnectionState::Closed,
        (ConnectionState::Writing, Signal::Written) => ConnectionState::Closed,
        (ConnectionState::Writing, Signal::WriteFailed) => ConnectionState::Closed,
        _ => state,
    }
}

/// The state that follows on `state` when `signal` happens. A connection
/// never goes back: the new state has at least the rank of the old one.
pub fn next_state(state: ConnectionState, signal: Signal) -> (next: ConnectionState)
    ensures
        next == transition(state, signal),
        rank(next) >= rank(state),
{
    match (state, signal) {
        (ConnectionState::Accepting, Signal::Accepted) => ConnectionState::Reading,
        (ConnectionState::Reading, Signal::WouldBlock) => ConnectionState::Reading,
        (ConnectionState::Reading, Signal::ReadFailed) => ConnectionState::Closed,
        (ConnectionState::Reading, Signal::EndOfStream) => ConnectionState::Closed,
        (ConnectionState::Reading, Signal::Received) => ConnectionState::Processing,
        (ConnectionState::Processing, Signal::Answered) => ConnectionState::Writing,
        (ConnectionState::Processing, Signal::TooLarge) => ConnectionState::Closed,
        (ConnectionState::Writing, Signal::Written) => ConnectionState::Closed,
        (ConnectionState::Writing, Signal::WriteFailed) => ConnectionState::Closed,
        _ => state,
    }
}

/// The three kinds of readiness, in the order in which a tick of the server
/// looks at them.
#[derive(Debug, PartialEq, Eq, Clone, Copy, Structural)]
pub enum Phase {
    Accept,
    Read,
    Write,
}

impl Phase {
    /// The kind of readiness that is looked at after this one: accepting,
    /// then reading, then writing, then accepting again.
    pub open spec fn following(self) -> Phase {
        match self {
            Phase::Accept => Phase::Read,
            Phase::Read => Phase::Write,
            Phase::Write => Phase::Accept,
        }
    }

    /// The kind of readiness that is looked at after this one.
    pub fn next(self) -> (phase: Phase)
        ensures
            phase == self.following(),
    {
        match self {
            Phase::Accept => Phase::Read,
            Phase::Read => Phase::Write,
            Phase::Write => Phase::Accept,
        }
    }
}

/// What a read from the socket of a connection came to.
pub enum ReadOutcome {
    /// There is nothing to read yet.
    WouldBlock,
    /// The read failed for another reason.
    Failed,
    /// The peer has closed the connection.
    End,
    /// These bytes were read.
    Data(Buffer),
}

/// What a write to the socket of a connection came to.
pub enum WriteOutcome {
    /// The write failed.
    Failed,
    /// This many bytes were written.
    Written(usize),
}

/// What is to be done with a connection after a read.
pub enum ReadStep<S> {
    /// Nothing came yet. The event is to be added to the queue of readers
    /// again.
    Wait(Event<S>),
    /// The response is made. The event, which holds it, is to be added to
    /// the queue of writers.
    Respond(Event<S>),
    /// The connection is over. Its socket is given up.
    Close,
}

/// What became of a connection after the write.
#[derive(Debug, PartialEq, Eq, Clone, Copy, Structural)]
pub enum WriteStep {
    /// All of the response went out.
    Complete,
    /// Only `written` of the `expected` bytes went out. The rest is not
    /// sent.
    Incomplete { written: usize, expected: usize },
}

/// What is to be done after the listening socket was ready.
pub struct Admission<L, S> {
    /// The event of the listening socket, to be added to its queue again.
    pub listener: ListenerEvent<L>,
    /// The event of the new connection, to be added to the queue of
    /// readers, where a connection was accepted.
    pub connection: Option<Event<S>>,
}

impl<S> ReadStep<S> {
    /// Where the connection stands after the step.
    pub open spec fn state(self) -> ConnectionState {
        match self {
            ReadStep::Wait(_) => ConnectionState::Reading,
            ReadStep::Respond(_) => ConnectionState::Writing,
            ReadStep::Close => ConnectionState::Closed,
        }
    }
}

/// The signal that a read gives.
pub open spec fn read_signal(outcome: ReadOutcome) -> Signal {
    match outcome {
        ReadOutcome::WouldBlock => Signal::WouldBlock,
        ReadOutcome::Failed => Signal::ReadFailed,
        ReadOutcome::End => Signal::EndOfStream,
        ReadOutcome::Data(_) => Signal::Received,
    }
}

/// The signal that the making of a response of `length` bytes gives.
pub open spec fn answer_signal(length: nat) -> Signal {
    if length <= BUFFER_SIZE {
        Signal::Answered
    } else {
        Signal::TooLarge
    }
}

/// The three queues of a server, given what the operating system gave back
/// when it was asked for three facilities: one for the listening socket,
/// one for the connections to read from, one for those to write to.
///
/// Fails with [`QueueError::QueueCreationFailed`] exactly if one of the
/// three could not be opened.
pub fn create_qs<L, S>(incoming: i32, reading: i32, writing: i32) -> (result: Result<
    (Queue<ListenerEvent<L>>, Queue<Event<S>>, Queue<Event<S>>),
    QueueError,
>)
    ensures
        result is Err <==> incoming < 0 || reading < 0 || writing < 0,
        result matches Err(error) ==> error == QueueError::QueueCreationFailed,
        result matches Ok(queues) ==> {
            &&& queues.0.pending().len() == 0
            &&& queues.1.pending().len() == 0
            &&& queues.2.pending().len() == 0
            &&& queues.0.descriptor() == incoming
            &&& queues.1.descriptor() == reading
            &&& queues.2.descriptor() == writing
        },
{
    let incoming_q = match Queue::new(incoming) {
        Ok(queue) => queue,
        Err(error) => {
            return Err(error);
        },
    };
    let reading_q = match Queue::new(reading) {
        Ok(queue) => queue,
        Err(error) => {
            return Err(error);
        },
    };
    let writing_q = match Queue::new(writing) {
        Ok(queue) => queue,
        Err(error) => {
            return Err(error);
        },
    };
    Ok((incoming_q, reading_q, writing_q))
}

/// Decides what follows when the listening socket was ready.
///
/// `accepted` is the connection that the socket handed over, with its
/// descriptor, or `None` where it handed none over. A connection becomes an
/// event with interest in reading and an empty buffer. The listening event
/// comes back unchanged in either case: its registration fired, so it has
/// to be added again.
pub fn handle_incoming<L, S>(listen_event: ListenerEvent<L>, accepted: Option<(S, u64)>) -> (admission:
    Admission<L, S>)
    ensures
        admission.listener == listen_event,
        match accepted {
            Some((stream, descriptor)) => admission.connection is Some && {
                let event = admission.connection->0;
                &&& event.stream == stream
                &&& event.kevent == registration(EVFILT_READ, descriptor)
                &&& event.data@ == Seq::<u8>::empty()
            },
            None => admission.connection is None,
        },
{
    let connection = match accepted {
        Some((stream, descriptor)) => Some(Event::new_read(stream, descriptor, Buffer::new())),
        None => None,
    };
    Admission { listener: listen_event, connection }
}

/// Decides what follows when a connection was ready to be read from.
///
/// `outcome` is what the one read from its socket came to.
/// - Nothing to read yet: the event comes back as it is, to wait again.
/// - The read failed, or the peer is gone: the connection is closed.
/// - Bytes came: they are answered as [`answer`] says, at once. The event
///   that comes back has the same socket and identifier, interest in
///   writing, and the response as its bytes. A response of more than
///   [`BUFFER_SIZE`] bytes is not sent: the connection is closed.
pub fn handle_reading<S>(reading_event: Event<S>, outcome: ReadOutcome, files: &StaticFiles) -> (step:
    ReadStep<S>)
    ensures
        match outcome {
            ReadOutcome::WouldBlock => step == ReadStep::Wait(reading_event),
            ReadOutcome::Failed => step is Close,
            ReadOutcome::End => step is Close,
            ReadOutcome::Data(request) => {
                let response = sendable(answer(request@, files@));
                if response.len() <= BUFFER_SIZE {
                    &&& step is Respond
                    &&& step->Respond_0.stream == reading_event.stream
                    &&& step->Respond_0.kevent == registration(
                        EVFILT_WRITE,
                        reading_event.kevent.ident,
                    )
                    &&& step->Respond_0.data@ == response
                } else {
                    step is Close
                }
            },
        },
        step.state() == match outcome {
            ReadOutcome::Data(request) => transition(
                transition(ConnectionState::Reading, Signal::Received),
                answer_signal(sendable(answer(request@, files@)).len()),
            ),
            _ => transition(ConnectionState::Reading, read_signal(outcome)),
        },
{
    match outcome {
        ReadOutcome::WouldBlock => ReadStep::Wait(reading_event),
        ReadOutcome::Failed => ReadStep::Close,
        ReadOutcome::End => ReadStep::Close,
        ReadOutcome::Data(request) => {
            let response = create_response(request.to_vec(), files);
            match from_slice(response.as_slice()) {
                Ok(data) => {
                    let ident = reading_event.get_ident();
                    ReadStep::Respond(Event::new_write(reading_event.stream, ident, data))
                },
                Err(_) => ReadStep::Close,
            }
        },
    }
}

/// Decides what became of a connection that was ready to be written to.
///
/// `outcome` is what the one write of its bytes to its socket came to; a
/// write that failed counts as one that wrote nothing. The connection is
/// closed in every case: what did not go out with the one write is not
/// sent.
pub fn handle_writing<S>(event: Event<S>, outcome: WriteOutcome) -> (step: WriteStep)
    ensures
        step == {
            let written = match outcome {
                WriteOutcome::Failed => 0usize,
                WriteOutcome::Written(count) => count,
            };
            if written == event.data@.len() {
                WriteStep::Complete
            } else {
                WriteStep::Incomplete { written, expected: event.data@.len() as usize }
            }
        },
{
    let written: usize = match outcome {
        WriteOutcome::Failed => 0,
        WriteOutcome::Written(count) => count,
    };
    let expected: usize = event.data.len();
    if written == expected {
        WriteStep::Complete
    } else {
        WriteStep::Incomplete { written, expected }
    }
}

} // verus!
