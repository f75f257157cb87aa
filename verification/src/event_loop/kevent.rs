//! The records that go to and come from the operating system's readiness
//! facility, as plain values.

use vstd::prelude::*;

verus! {

/// Interest in a descriptor becoming readable.
pub const EVFILT_READ: i16 = -1;

/// Interest in a descriptor becoming writable.
pub const EVFILT_WRITE: i16 = -2;

/// Adds the event to the facility.
pub const EV_ADD: u16 = 1;

/// Lets the facility report the event.
pub const EV_ENABLE: u16 = 4;

/// Has the facility drop the event once it has reported it.
pub const EV_ONESHOT: u16 = 16;

/// The flags of every registration: added, enabled, and dropped after it
/// fired once.
pub const ONE_SHOT: u16 = 21;

/// One record of the facility: an interest that is registered, or one that
/// fired.
#[derive(Debug, PartialEq, Eq, Clone, Copy, Structural)]
pub struct KeventInternal {
    /// Tells the events of a queue apart: the descriptor of the socket.
    pub ident: u64,
    /// What the interest is in: [`EVFILT_READ`] or [`EVFILT_WRITE`].
    pub filter: i16,
    pub flags: u16,
    pub fflags: u32,
    pub data: i64,
    pub udata: u64,
}

/// How long a poll may wait.
#[derive(Debug, PartialEq, Eq, Clone, Copy, Structural)]
pub struct Timespec {
    pub tv_sec: isize,
    pub v_nsec: usize,
}

impl Timespec {
    /// The time span of `msec` milliseconds.
    pub fn of(msec: u32) -> (span: Timespec)
        ensures
            span.tv_sec == msec / 1000,
            span.v_nsec == (msec % 1000) * 1_000_000,
            span.v_nsec < 1_000_000_000,
    {
        Timespec { tv_sec: (msec / 1000) as isize, v_nsec: ((msec % 1000) * 1_000_000) as usize }
    }

    /// No time at all: a poll with this span does not wait.
    pub fn zero() -> (span: Timespec)
        ensures
            span.tv_sec == 0,
            span.v_nsec == 0,
    {
        Timespec { tv_sec: 0, v_nsec: 0 }
    }
}

/// The one-shot registration of an interest of kind `filter` in the
/// descriptor `descriptor`.
pub open spec fn registration(filter: i16, descriptor: u64) -> KeventInternal {
    KeventInternal { ident: descriptor, filter, flags: ONE_SHOT, fflags: 0, data: 0, udata: 0 }
}

/// [`ONE_SHOT`] is the three flags together and nothing else.
pub proof fn lemma_one_shot_flags()
    ensures
        ONE_SHOT == EV_ADD | EV_ENABLE | EV_ONESHOT,
{
    assert(21u16 == 1u16 | 4u16 | 16u16) by (bit_vector);
}

fn create_k_event(filter: i16, descriptor: u64) -> (kevent: KeventInternal)
    ensures
        kevent == registration(filter, descriptor),
{
    proof {
        lemma_one_shot_flags();
    }
    let flags: u16 = EV_ADD | EV_ENABLE | EV_ONESHOT;
    KeventInternal { ident: descriptor, filter, flags, fflags: 0, data: 0, udata: 0 }
}

/// The one-shot registration of read-interest in `descriptor`.
pub fn create_k_read_event(descriptor: u64) -> (kevent: KeventInternal)
    ensures
        kevent == registration(EVFILT_READ, descriptor),
{
    create_k_event(EVFILT_READ, descriptor)
}

/// The one-shot registration of write-interest in `descriptor`.
pub fn create_k_write_event(descriptor: u64) -> (kevent: KeventInternal)
    ensures
        kevent == registration(EVFILT_WRITE, descriptor),
{
    create_k_event(EVFILT_WRITE, descriptor)
}

} // verus!
