//! The readiness queue: the events that wait for the operating system to
//! report them.
//!
//! A queue stands for one facility of the operating system. Whatever is
//! registered there has one entry in the queue's pending collection, and an
//! entry leaves the collection when its event is reported. Registrations
//! are one-shot: an event that fired is gone from the facility and from the
//! collection, and whoever wants to hear of it again adds it again.
//!
//! The queue never calls the operating system. Its caller does, and tells
//! the queue what came back.

use crate::event_loop::kevent::{
    create_k_read_event, create_k_write_event, registration, KeventInternal, Timespec,
    EVFILT_READ, EVFILT_WRITE,
};
use vstd::prelude::*;

verus! {

/// The most bytes that are read from a connection, and the most that are
/// written to one.
pub const BUFFER_SIZE: usize = 2048;

/// Why a buffer could not be made.
#[derive(Debug, PartialEq, Eq, Clone, Copy, Structural)]
pub enum BufferError {
    /// There are more bytes than a buffer holds.
    BufferTooSmall,
}

/// The bytes of one connection: what was read from it, or what is to be
/// written to it. Never more than [`BUFFER_SIZE`] bytes.
#[derive(Debug)]
pub struct Buffer {
    bytes: Vec<u8>,
}

impl View for Buffer {
    type V = Seq<u8>;

    closed spec fn view(&self) -> Seq<u8> {
        self.bytes@
    }
}

impl Buffer {
    #[verifier::type_invariant]
    spec fn bounded(&self) -> bool {
        self.bytes@.len() <= BUFFER_SIZE
    }

    /// A buffer without bytes.
    pub fn new() -> (buffer: Buffer)
        ensures
            buffer@ == Seq::<u8>::empty(),
    {
        Buffer { bytes: Vec::new() }
    }

    /// The number of bytes, which is at most [`BUFFER_SIZE`].
    pub fn len(&self) -> (n: usize)
        ensures
            n == self@.len(),
            n <= BUFFER_SIZE,
    {
        proof {
            use_type_invariant(self);
        }
        self.bytes.len()
    }

    /// The bytes.
    pub fn as_slice(&self) -> (bytes: &[u8])
        ensures
            bytes@ == self@,
    {
        self.bytes.as_slice()
    }

    /// The bytes, as a vector of their own.
    pub fn to_vec(&self) -> (bytes: Vec<u8>)
        ensures
            bytes@ == self@,
    {
        self.bytes.clone()
    }
}

/// A buffer that holds exactly `bytes`. Fails exactly if there are more
/// than [`BUFFER_SIZE`] of them; nothing is cut off and nothing is filled
/// up.
pub fn from_slice(bytes: &[u8]) -> (result: Result<Buffer, BufferError>)
    ensures
        result is Err <==> bytes@.len() > BUFFER_SIZE,
        result matches Ok(buffer) ==> buffer@ == bytes@,
        result matches Err(error) ==> error == BufferError::BufferTooSmall,
{
    if bytes.len() > BUFFER_SIZE {
        return Err(BufferError::BufferTooSmall);
    }
    let mut copy: Vec<u8> = Vec::new();
    let mut i: usize = 0;
    while i < bytes.len()
        invariant
            i <= bytes@.len(),
            copy@ == bytes@.take(i as int),
        decreases bytes@.len() - i,
    {
        copy.push(bytes[i]);
        i = i + 1;
        assert(copy@ =~= bytes@.take(i as int));
    }
    assert(copy@ =~= bytes@);
    Ok(Buffer { bytes: copy })
}

/// What the events of a queue have in common: each is known to the
/// operating system by a registration, and is told from the others by the
/// identifier in it.
pub trait GeneralEvent {
    /// The registration of the event.
    spec fn kevent(&self) -> KeventInternal;

    /// The identifier of the event: the one of its registration.
    fn get_ident(&self) -> (ident: u64)
        ensures
            ident == self.kevent().ident,
    ;

    /// The registration of the event.
    fn get_kevent(&self) -> (kevent: &KeventInternal)
        ensures
            *kevent == self.kevent(),
    ;
}

/// A connection under the care of the reactor: its socket, its bytes, and
/// the interest that is registered for it, which is either in reading or in
/// writing. The socket is of a type of the caller's choosing; the reactor
/// only passes it on.
pub struct Event<S> {
    pub data: Buffer,
    pub stream: S,
    pub kevent: KeventInternal,
}

/// The listening socket under the care of the reactor. Its interest is
/// always in reading, which for it means that a connection waits to be
/// accepted.
pub struct ListenerEvent<L> {
    pub data: Buffer,
    pub listener: L,
    pub kevent: KeventInternal,
}

impl<S> Event<S> {
    /// The event of a connection that is to be read from. `descriptor` is
    /// the descriptor of `stream`.
    pub fn new_read(stream: S, descriptor: u64, data: Buffer) -> (event: Event<S>)
        ensures
            event.stream == stream,
            event.data == data,
            event.kevent == registration(EVFILT_READ, descriptor),
    {
        Event { data, kevent: create_k_read_event(descriptor), stream }
    }

    /// The event of a connection that `data` is to be written to.
    /// `descriptor` is the descriptor of `stream`.
    pub fn new_write(stream: S, descriptor: u64, data: Buffer) -> (event: Event<S>)
        ensures
            event.stream == stream,
            event.data == data,
            event.kevent == registration(EVFILT_WRITE, descriptor),
    {
        Event { data, kevent: create_k_write_event(descriptor), stream }
    }
}

impl<L> ListenerEvent<L> {
    /// The event of a listening socket. `descriptor` is the descriptor of
    /// `listener`.
    pub fn new(listener: L, descriptor: u64, data: Buffer) -> (event: ListenerEvent<L>)
        ensures
            event.listener == listener,
            event.data == data,
            event.kevent == registration(EVFILT_READ, descriptor),
    {
        ListenerEvent { data, kevent: create_k_read_event(descriptor), listener }
    }
}

impl<S> GeneralEvent for Event<S> {
    open spec fn kevent(&self) -> KeventInternal {
        self.kevent
    }

    fn get_ident(&self) -> (ident: u64) {
        self.kevent.ident
    }

    fn get_kevent(&self) -> (kevent: &KeventInternal) {
        &self.kevent
    }
}

impl<L> GeneralEvent for ListenerEvent<L> {
    open spec fn kevent(&self) -> KeventInternal {
        self.kevent
    }

    fn get_ident(&self) -> (ident: u64) {
        self.kevent.ident
    }

    fn get_kevent(&self) -> (kevent: &KeventInternal) {
        &self.kevent
    }
}

/// Why an operation on a queue failed.
#[derive(Debug, PartialEq, Eq, Clone, Copy, Structural)]
pub enum QueueError {
    /// The operating system did not open a facility.
    QueueCreationFailed,
    /// The operating system did not take the registration.
    RegistrationFailed,
    /// The operating system failed to report on the facility.
    PollFailed,
    /// An identifier was reported that no pending event has.
    NoMatchingEvent,
}

/// The index of the first of `pending` that has the identifier `ident`, or
/// `pending.len()` where none has.
pub open spec fn ident_index<T: GeneralEvent>(pending: Seq<T>, ident: u64) -> int
    decreases pending.len(),
{
    if pending.len() == 0 {
        0
    } else if pending[0].kevent().ident == ident {
        0
    } else {
        1 + ident_index(pending.skip(1), ident)
    }
}

/// Whether one of `pending` has the identifier `ident`.
pub open spec fn is_pending<T: GeneralEvent>(pending: Seq<T>, ident: u64) -> bool {
    ident_index(pending, ident) < pending.len()
}

/// `pending` without the first event that has the identifier `ident`; all
/// of `pending` where no event has it.
pub open spec fn without<T: GeneralEvent>(pending: Seq<T>, ident: u64) -> Seq<T> {
    if is_pending(pending, ident) {
        pending.remove(ident_index(pending, ident))
    } else {
        pending
    }
}

/// The pending events that `fired` reports, in the order of the reports.
/// Each report takes the first pending event with its identifier out of the
/// collection; a report that matches no pending event is passed over.
pub open spec fn ready<T: GeneralEvent>(pending: Seq<T>, fired: Seq<KeventInternal>) -> Seq<T>
    decreases fired.len(),
{
    if fired.len() == 0 {
        Seq::empty()
    } else {
        let ident = fired[0].ident;
        let rest = ready(without(pending, ident), fired.skip(1));
        if is_pending(pending, ident) {
            seq![pending[ident_index(pending, ident)]] + rest
        } else {
            rest
        }
    }
}

/// What is left pending after the reports `fired`.
pub open spec fn left<T: GeneralEvent>(pending: Seq<T>, fired: Seq<KeventInternal>) -> Seq<T>
    decreases fired.len(),
{
    if fired.len() == 0 {
        pending
    } else {
        left(without(pending, fired[0].ident), fired.skip(1))
    }
}

/// [`ident_index`] finds the first event with the identifier, and only
/// that.
pub proof fn lemma_ident_index<T: GeneralEvent>(pending: Seq<T>, ident: u64)
    ensures
        0 <= ident_index(pending, ident) <= pending.len(),
        is_pending(pending, ident) ==> pending[ident_index(pending, ident)].kevent().ident
            == ident,
        forall|j: int|
            0 <= j < ident_index(pending, ident) ==> (#[trigger] pending[j]).kevent().ident
                != ident,
    decreases pending.len(),
{
    if pending.len() > 0 && pending[0].kevent().ident != ident {
        let rest = pending.skip(1);
        lemma_ident_index(rest, ident);
        assert forall|j: int| 0 <= j < ident_index(pending, ident) implies (
        #[trigger] pending[j]).kevent().ident != ident by {
            if j > 0 {
                assert(rest[j - 1] == pending[j]);
            }
        }
    }
}

/// What a poll came to.
pub enum Polled<T> {
    /// Nothing fired within the time that the poll may wait. Poll again.
    Again,
    /// These events fired. They are no longer pending.
    Ready(Vec<T>),
}

/// A readiness queue.
pub struct Queue<T: GeneralEvent> {
    events: Vec<T>,
    wait_timeout: Timespec,
    fd: i32,
}

impl<T: GeneralEvent> Queue<T> {
    /// The events that wait to be reported, in the order in which they were
    /// added.
    pub closed spec fn pending(&self) -> Seq<T> {
        self.events@
    }

    /// The descriptor of the facility that this queue stands for.
    pub closed spec fn descriptor(&self) -> i32 {
        self.fd
    }

    /// How long a poll of this queue may wait.
    pub closed spec fn timeout(&self) -> Timespec {
        self.wait_timeout
    }

    /// The queue of the facility that the operating system opened.
    /// `descriptor` is what it gave back when asked to open one: the
    /// descriptor of the facility, or a negative number for a failure.
    ///
    /// Fails with [`QueueError::QueueCreationFailed`] exactly on a negative
    /// number. A new queue has nothing pending, and its polls do not wait.
    pub fn new(descriptor: i32) -> (result: Result<Queue<T>, QueueError>)
        ensures
            result is Err <==> descriptor < 0,
            result matches Err(error) ==> error == QueueError::QueueCreationFailed,
            result matches Ok(queue) ==> queue.pending() == Seq::<T>::empty()
                && queue.descriptor() == descriptor && queue.timeout() == (Timespec {
                tv_sec: 0,
                v_nsec: 0,
            }),
    {
        if descriptor < 0 {
            return Err(QueueError::QueueCreationFailed);
        }
        Ok(Queue { events: Vec::new(), wait_timeout: Timespec::zero(), fd: descriptor })
    }

    /// The descriptor of the facility.
    pub fn fd(&self) -> (fd: i32)
        ensures
            fd == self.descriptor(),
    {
        self.fd
    }

    /// How long a poll of this queue may wait.
    pub fn wait_timeout(&self) -> (span: Timespec)
        ensures
            span == self.timeout(),
    {
        self.wait_timeout
    }

    /// The number of pending events.
    pub fn len(&self) -> (n: usize)
        ensures
            n == self.pending().len(),
    {
        self.events.len()
    }

    /// Takes `event` into the pending collection, given what the operating
    /// system said to its registration: `outcome` is negative for a
    /// failure.
    ///
    /// On a failure the event is not taken in: it comes back to the caller
    /// with [`QueueError::RegistrationFailed`], to be tried again or to be
    /// dropped.
    pub fn add(&mut self, event: T, outcome: i32) -> (result: Result<(), (QueueError, T)>)
        ensures
            final(self).descriptor() == old(self).descriptor(),
            final(self).timeout() == old(self).timeout(),
            result is Err <==> outcome < 0,
            result is Ok ==> final(self).pending() == old(self).pending().push(event),
            result matches Err(refused) ==> refused.0 == QueueError::RegistrationFailed
                && refused.1 == event && final(self).pending() == old(self).pending(),
    {
        if outcome < 0 {
            return Err((QueueError::RegistrationFailed, event));
        }
        self.events.push(event);
        Ok(())
    }

    /// Takes the pending event with the identifier `ident` out of the
    /// collection and hands it over; of several, the one that was added
    /// first.
    ///
    /// Fails with [`QueueError::NoMatchingEvent`] exactly if no pending
    /// event has the identifier, and then leaves the collection as it is.
    pub fn match_and_remove(&mut self, ident: u64) -> (result: Result<T, QueueError>)
        ensures
            final(self).descriptor() == old(self).descriptor(),
            final(self).timeout() == old(self).timeout(),
            result is Ok <==> is_pending(old(self).pending(), ident),
            result matches Ok(event) ==> event == old(self).pending()[ident_index(
                old(self).pending(),
                ident,
            )] && event.kevent().ident == ident,
            result matches Err(error) ==> error == QueueError::NoMatchingEvent,
            final(self).pending() == without(old(self).pending(), ident),
    {
        proof {
            lemma_ident_index(self.pending(), ident);
        }
        let n: usize = self.events.len();
        let mut i: usize = 0;
        assert(self.events@.skip(0) =~= self.events@);
        while i < n
            invariant
                n == self.events@.len(),
                i <= n,
                self.events@ == old(self).events@,
                self.fd == old(self).fd,
                self.wait_timeout == old(self).wait_timeout,
                ident_index(self.events@, ident) == i + ident_index(
                    self.events@.skip(i as int),
                    ident,
                ),
            decreases n - i,
        {
            let ghost rest = self.events@.skip(i as int);
            assert(rest[0] == self.events@[i as int]);
            if self.events[i].get_ident() == ident {
                let event = self.events.remove(i);
                return Ok(event);
            }
            assert(rest.skip(1) =~= self.events@.skip(i + 1));
            i = i + 1;
        }
        assert(self.events@.skip(n as int).len() == 0);
        Err(QueueError::NoMatchingEvent)
    }

    /// Takes in what a poll of the facility came to. `outcome` is what the
    /// operating system gave back: the number of reports, or a negative
    /// number for a failure. `fired` holds the reports.
    ///
    /// Fails with [`QueueError::PollFailed`] exactly on a negative number.
    /// Without a report the answer is [`Polled::Again`]: that the time ran
    /// out is no error. Else each report is matched with the pending
    /// events as in [`Queue::match_and_remove`], and the events that
    /// matched are handed over; a report that matches none is passed over.
    pub fn poll(&mut self, outcome: i32, fired: &Vec<KeventInternal>) -> (result: Result<
        Polled<T>,
        QueueError,
    >)
        ensures
            final(self).descriptor() == old(self).descriptor(),
            final(self).timeout() == old(self).timeout(),
            result is Err <==> outcome < 0,
            result matches Err(error) ==> error == QueueError::PollFailed,
            (outcome < 0 || outcome == 0 || fired@.len() == 0) ==> final(self).pending() == old(
                self,
            ).pending(),
            result matches Ok(polled) ==> (polled is Again <==> outcome == 0 || fired@.len()
                == 0),
            result matches Ok(Polled::Ready(events)) ==> events@ == ready(
                old(self).pending(),
                fired@,
            ) && final(self).pending() == left(old(self).pending(), fired@),
    {
        if outcome < 0 {
            return Err(QueueError::PollFailed);
        }
        if outcome == 0 || fired.len() == 0 {
            return Ok(Polled::Again);
        }
        let mut events: Vec<T> = Vec::new();
        let mut i: usize = 0;
        assert(fired@.skip(0) =~= fired@);
        while i < fired.len()
            invariant
                i <= fired@.len(),
                self.descriptor() == old(self).descriptor(),
                self.timeout() == old(self).timeout(),
                events@ + ready(self.pending(), fired@.skip(i as int)) == ready(
                    old(self).pending(),
                    fired@,
                ),
                left(self.pending(), fired@.skip(i as int)) == left(old(self).pending(), fired@),
            decreases fired@.len() - i,
        {
            let ghost before = self.pending();
            let ghost found = events@;
            let ghost rest = fired@.skip(i as int);
            assert(rest[0] == fired@[i as int]);
            assert(rest.skip(1) =~= fired@.skip(i + 1));
            match self.match_and_remove(fired[i].ident) {
                Ok(event) => {
                    events.push(event);
                    assert(events@ + ready(self.pending(), rest.skip(1)) =~= found + ready(
                        before,
                        rest,
                    ));
                },
                Err(_) => {},
            }
            i = i + 1;
        }
        assert(fired@.skip(fired@.len() as int) =~= Seq::<KeventInternal>::empty());
        assert(events@ + Seq::<T>::empty() =~= events@);
        Ok(Polled::Ready(events))
    }
}

} // verus!
