//! The socket's file descriptor.

use vstd::prelude::*;
use crate::os::{poll_result, read_poll, OsError, Outcome, PollCall};

verus! {

/// The file descriptor of a socket.
#[derive(Clone, Copy, Debug, PartialEq, Eq, Structural)]
pub struct Fd {
    pub id: i32,
}

impl Fd {
    /// Wraps the descriptor number `id`.
    pub fn new(id: i32) -> (fd: Fd)
        ensures
            fd.id == id,
    {
        Fd { id }
    }

    /// The descriptor number.
    pub fn id(&self) -> (id: i32)
        ensures
            id == self.id,
    {
        self.id
    }

    /// The call that waits, for `timeout_ms` milliseconds at most, until the
    /// socket can be written to.
    pub fn poll_write_call(&self, timeout_ms: i32) -> (call: PollCall)
        ensures
            call.fd == self.id,
            call.timeout == timeout_ms,
    {
        PollCall::writable(self.id, timeout_ms)
    }

    /// Whether the socket is ready to write, from what the call of
    /// `poll_write_call` returned.
    pub fn poll_write(&mut self, polled: Outcome) -> (ready: Result<bool, OsError>)
        ensures
            ready == poll_result(polled),
            *final(self) == *old(self),
    {
        read_poll(polled)
    }
}

} // verus!
