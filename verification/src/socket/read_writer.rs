//! Timeouts of the messages exchanged over the socket.

use std::marker::PhantomData;
use tokio::net::UnixStream;
use vstd::prelude::*;

verus! {

/// A connected Unix socket of the asynchronous runtime.
#[verifier::external_type_specification]
#[verifier::external_body]
pub struct ExUnixStream(tokio::net::UnixStream);

/// Wrapper around a socket that can send and receive structured messages.
///
/// `R` is the type of messages read, `W` the type of messages written.
pub struct ReadWriter<R, W> {
    socket: Option<UnixStream>,
    phantom_r: PhantomData<R>,
    phantom_w: PhantomData<W>,
}

impl<R, W> ReadWriter<R, W> {
    /// The socket this wraps.
    pub closed spec fn socket_view(&self) -> Option<UnixStream> {
        self.socket
    }

    /// Create from a unix socket.
    pub fn new(socket: UnixStream) -> (r: ReadWriter<R, W>)
        ensures
            r.socket_view() == Some(socket),
    {
        ReadWriter { socket: Some(socket), phantom_r: PhantomData, phantom_w: PhantomData }
    }

    /// The socket this wraps, given back.
    pub fn into_inner(self) -> (r: UnixStream)
        requires
            self.socket_view() is Some,
        ensures
            Some(r) == self.socket_view(),
    {
        self.socket.unwrap()
    }
}

/// A (possible) timeout.
#[derive(Debug, Clone, Copy, PartialEq, Eq)]
pub enum Timeout {
    /// Do not time out.
    Infinite,
    /// Time out after the given number of nanoseconds.
    D(u128),
}

/// Nanoseconds in a millisecond.
pub const NANOS_PER_MILLI: u128 = 1000000;

/// The time readers wait for the other side to send something: one second.
pub const DEFAULT_READ_TIMEOUT_MILLIS: u64 = 1000;

/// The timeout that remains of `t` once an operation took `elapsed` nanoseconds: an infinite
/// timeout stays infinite; a finite one fails (with its full duration) when the operation
/// timed out or used it up, and otherwise what is left of it remains.
pub open spec fn remaining_after(t: Timeout, elapsed: u128, timed_out: bool) -> Result<Timeout, u128> {
    match t {
        Timeout::Infinite => Ok(Timeout::Infinite),
        Timeout::D(d) => if timed_out || elapsed >= d {
            Err(d)
        } else {
            Ok(Timeout::D((d - elapsed) as u128))
        },
    }
}

impl Timeout {
    /// create timeout from milliseconds
    pub fn from_millis(millis: u64) -> (r: Timeout)
        ensures
            r == Timeout::D((millis as u128 * NANOS_PER_MILLI) as u128),
    {
        Timeout::D(millis as u128 * NANOS_PER_MILLI)
    }

    /// The time readers wait for the other side to send something.
    pub fn default_read() -> (r: Timeout)
        ensures
            r == Timeout::D((DEFAULT_READ_TIMEOUT_MILLIS as u128 * NANOS_PER_MILLI) as u128),
    {
        Timeout::from_millis(DEFAULT_READ_TIMEOUT_MILLIS)
    }

    /// After running an operation under this timeout: `Err` with the full duration if the
    /// operation did not finish in time, otherwise the timeout that remains for the following
    /// operations (see `remaining_after`).
    pub fn remaining(self, elapsed: u128, timed_out: bool) -> (r: Result<Timeout, u128>)
        ensures
            r == remaining_after(self, elapsed, timed_out),
    {
        match self {
            Timeout::Infinite => Ok(Timeout::Infinite),
            Timeout::D(d) => {
                // saturating subtraction: nothing remains once the time is used up
                if timed_out || elapsed >= d {
                    Err(d)
                } else {
                    Ok(Timeout::D(d - elapsed))
                }
            },
        }
    }
}

/// A timeout never grows: what remains of a finite timeout is less than it was.
pub proof fn lemma_timeout_shrinks(d: u128, elapsed: u128, timed_out: bool)
    ensures
        remaining_after(Timeout::D(d), elapsed, timed_out) matches Ok(Timeout::D(r)) ==> r <= d,
        remaining_after(Timeout::D(d), elapsed, timed_out) matches Ok(Timeout::D(r)) ==> r > 0,
        remaining_after(Timeout::D(d), elapsed, timed_out) is Ok ==> remaining_after(Timeout::D(d), elapsed, timed_out) matches Ok(Timeout::D(_)),
{
}

} // verus!
