//! The socket's side of the exchange: its descriptor and the queues that
//! hang on it.

pub mod fd;
pub mod tx_queue;

use vstd::prelude::*;
use fd::Fd;

verus! {

/// An AF_XDP socket, as far as its queues need it: the file descriptor they
/// share. A queue keeps the socket it belongs to alive.
#[derive(Debug)]
pub struct Socket {
    pub fd: Fd,
}

impl Socket {
    /// The socket behind the file descriptor `fd`.
    pub fn new(fd: Fd) -> (socket: Socket)
        ensures
            socket.fd == fd,
    {
        Socket { fd }
    }
}

} // verus!
