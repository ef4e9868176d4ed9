//! The transmitting side of a socket.

use std::sync::Arc;
use vstd::prelude::*;
use super::fd::Fd;
use super::Socket;
use crate::os::{
    poll_result, read_wakeup, wakeup_result, Backpressure, OsError, Outcome, PollCall, SendCall,
};
use crate::ring::model::{lemma_first_in_first_out, Descriptor, RingView};
use crate::ring::Ring;
use crate::umem::frame::{descs, Frame};

verus! {

/// The transmit queue of a socket: the ring on which frames are handed to
/// the kernel for sending, the socket's descriptor for waking the kernel and
/// for waiting on it, and the error numbers that a wakeup may meet without
/// having failed. The numbers are read from the platform when the queue is
/// made and never change.
#[derive(Debug)]
pub struct TxQueue {
    ring: Ring,
    fd: Fd,
    benign: Backpressure,
    _socket: Arc<Socket>,
}

/// A transmit queue as its contracts speak of it.
pub struct TxQueueView {
    pub ring: RingView,
    pub fd: Fd,
    pub benign: Backpressure,
}

/// What `produce_and_wakeup` comes to once its wakeup call was made: the
/// count of what was produced, unless the wakeup failed for a reason other
/// than backpressure, in which case it is that failure.
pub open spec fn woken_result(count: usize, sent: Outcome, benign: Backpressure) -> Result<
    usize,
    OsError,
> {
    match wakeup_result(sent, benign) {
        Ok(_) => Ok(count),
        Err(e) => Err(e),
    }
}

impl View for TxQueue {
    type V = TxQueueView;

    closed spec fn view(&self) -> TxQueueView {
        TxQueueView { ring: self.ring@, fd: self.fd, benign: self.benign }
    }
}

impl TxQueue {
    /// The queue over `ring` for `socket`, with the platform's numbers for
    /// backpressure.
    pub fn new(ring: Ring, socket: Arc<Socket>) -> (queue: TxQueue)
        ensures
            queue@.ring == ring@,
            queue@.fd == socket.fd,
    {
        let fd = socket.fd;
        TxQueue { ring, fd, benign: Backpressure::platform(), _socket: socket }
    }

    /// The error numbers that this queue takes for backpressure.
    pub fn backpressure(&self) -> (benign: Backpressure)
        ensures
            benign == self@.benign,
    {
        self.benign
    }

    /// Hands `frames` to the kernel for sending and returns how many of them
    /// the ring took: all of them where it has room, else those at the front
    /// of `frames` for which it has room. Each frame that was taken is
    /// queued as its descriptor, in the order of `frames`; the others are
    /// left for the caller to submit again. With no frames the ring is not
    /// touched.
    ///
    /// A frame that was taken belongs to the kernel until it comes back on
    /// the completion ring; the caller must not hand it to any ring before.
    pub fn produce(&mut self, frames: &[Frame]) -> (count: usize)
        ensures
            count == old(self)@.ring.grant(frames@.len()),
            final(self)@.ring == old(self)@.ring.produce(descs(frames@)),
            final(self)@.ring.wf(),
            final(self)@.fd == old(self)@.fd,
            final(self)@.benign == old(self)@.benign,
            frames@.len() == 0 ==> *final(self) == *old(self),
    {
        let nb = frames.len();
        if nb == 0 {
            proof {
                use_type_invariant(&self.ring);
                self.ring.lemma_wf();
                let ring = self@.ring;
                assert(ring.produce(descs(frames@)).queued =~= ring.queued);
                assert(ring.produce(descs(frames@)).spare =~= ring.spare);
            }
            return 0;
        }
        let (cnt, idx) = self.ring.reserve(nb);
        let ghost before = self.ring@;
        if cnt > 0 {
            let mut i: u32 = 0;
            while i < cnt
                invariant
                    0 <= i <= cnt,
                    cnt as nat == before.grant(frames@.len()),
                    cnt <= frames@.len(),
                    idx == before.producer,
                    before.wf(),
                    before == old(self)@.ring,
                    self.fd == old(self).fd,
                    self.benign == old(self).benign,
                    self.ring@.producer == before.producer,
                    self.ring@.consumer == before.consumer,
                    self.ring@.needs_wakeup == before.needs_wakeup,
                    self.ring@.queued == before.queued,
                    self.ring@.spare.len() == before.spare.len(),
                    forall|j: int| 0 <= j < i ==> self.ring@.spare[j] == frames@[j].desc(),
                    forall|j: int| i <= j < before.spare.len() ==> self.ring@.spare[j] == before.spare[j],
                decreases cnt - i,
            {
                let mut desc = Descriptor { addr: 0, len: 0, options: 0 };
                frames[i as usize].write_xdp_desc(&mut desc);
                self.ring.write(idx.wrapping_add(i), desc);
                i += 1;
            }
            self.ring.submit(cnt);
        }
        proof {
            let goal = before.produce(descs(frames@));
            assert(self.ring@.queued =~= goal.queued);
            assert(self.ring@.spare =~= goal.spare);
        }
        cnt as usize
    }

    /// Does what `produce` does and says whether the kernel has to be woken
    /// for it: the second part of the result is the call to make if the
    /// kernel has flagged that it is not watching the ring, and nothing if it
    /// is watching. Where there is a call, its outcome and the count go to
    /// `after_wakeup`; where there is none, the count is the result.
    pub fn produce_and_wakeup(&mut self, frames: &[Frame]) -> (submitted: (
        usize,
        Option<SendCall>,
    ))
        ensures
            submitted.0 == old(self)@.ring.grant(frames@.len()),
            final(self)@.ring == old(self)@.ring.produce(descs(frames@)),
            final(self)@.ring.wf(),
            final(self)@.fd == old(self)@.fd,
            final(self)@.benign == old(self)@.benign,
            submitted.1 is Some <==> old(self)@.ring.needs_wakeup,
            submitted.1 is Some ==> submitted.1->0.fd == old(self)@.fd.id,
    {
        let cnt = self.produce(frames);
        if self.needs_wakeup() {
            (cnt, Some(self.wakeup_call()))
        } else {
            (cnt, None)
        }
    }

    /// The result of `produce_and_wakeup` once its wakeup call was made:
    /// `count`, unless the wakeup failed for a reason other than
    /// backpressure. The wakeup has failed so if the send returned a
    /// negative value and an error number that is none of the queue's four;
    /// the result is then that error number.
    pub fn after_wakeup(&self, count: usize, sent: Outcome) -> (r: Result<usize, OsError>)
        ensures
            r == woken_result(count, sent, self@.benign),
    {
        match self.wakeup(sent) {
            Ok(()) => Ok(count),
            Err(e) => Err(e),
        }
    }

    /// The call that wakes the kernel: an empty send on the socket that
    /// does not block.
    pub fn wakeup_call(&self) -> (call: SendCall)
        ensures
            call.fd == self@.fd.id,
    {
        SendCall::wakeup(self.fd.id)
    }

    /// Whether the kernel was woken, from what the call of `wakeup_call`
    /// returned. A send that went through is a success. So is one that the
    /// kernel turned away for lack of buffers, because it is busy, because
    /// the link is down or because it would have had to wait: the kernel
    /// gets to the ring by itself then. Any other failure is handed on with
    /// its error number. So the result is an error exactly when the send
    /// returned a negative value and an error number that is none of the
    /// queue's four.
    pub fn wakeup(&self, sent: Outcome) -> (r: Result<(), OsError>)
        ensures
            r == wakeup_result(sent, self@.benign),
    {
        read_wakeup(sent, &self.benign)
    }

    /// Whether the kernel has flagged that it is not watching the ring, so
    /// that it takes a wakeup to have it send what was produced.
    pub fn needs_wakeup(&self) -> (flag: bool)
        ensures
            flag == self@.ring.needs_wakeup,
    {
        self.ring.needs_wakeup()
    }

    /// The call that waits, for `poll_timeout` milliseconds at most and
    /// without end where that is negative, until the socket can be written
    /// to.
    pub fn poll_call(&self, poll_timeout: i32) -> (call: PollCall)
        ensures
            call.fd == self@.fd.id,
            call.timeout == poll_timeout,
    {
        self.fd.poll_write_call(poll_timeout)
    }

    /// Whether the socket is ready to write, from what the call of
    /// `poll_call` returned.
    pub fn poll(&mut self, polled: Outcome) -> (ready: Result<bool, OsError>)
        ensures
            ready == poll_result(polled),
            *final(self) == *old(self),
    {
        self.fd.poll_write(polled)
    }

    /// The socket's file descriptor.
    pub fn fd(&self) -> (fd: &Fd)
        ensures
            *fd == self@.fd,
    {
        &self.fd
    }

    /// The socket's file descriptor, to change.
    pub fn fd_mut(&mut self) -> (fd: &mut Fd)
        ensures
            *fd == old(self)@.fd,
            final(self)@.fd == *final(fd),
            final(self)@.ring == old(self)@.ring,
            final(self)@.benign == old(self)@.benign,
    {
        &mut self.fd
    }

    /// The ring.
    pub fn ring(&self) -> (ring: &Ring)
        ensures
            ring@ == self@.ring,
    {
        &self.ring
    }

    /// The ring, for the side that consumes from it.
    pub fn ring_mut(&mut self) -> (ring: &mut Ring)
        ensures
            ring@ == old(self)@.ring,
            final(self)@.ring == final(ring)@,
            final(self)@.fd == old(self)@.fd,
            final(self)@.benign == old(self)@.benign,
    {
        &mut self.ring
    }
}

/// A frame comes back with the offset it went out with.
///
/// Frames are submitted to a transmit ring. The consumer of that ring works
/// off what was in flight before, then takes what was submitted and hands it
/// on, as it is, to a completion ring. What then comes off the completion
/// ring, behind what was in flight there before, are the descriptors of the
/// frames from the front of `frames`, in order: as many as both rings had
/// room for, each with its frame's offset, length and flags.
pub proof fn lemma_round_trip(tx: RingView, completion: RingView, frames: Seq<Frame>)
    requires
        tx.wf(),
        completion.wf(),
    ensures
        ({
            let seen = tx.produce(descs(frames)).consume(tx.in_flight()).queued;
            let back = completion.produce(seen).consume(completion.in_flight()).queued;
            &&& seen == descs(frames).take(tx.grant(frames.len()) as int)
            &&& back == descs(frames).take(completion.grant(tx.grant(frames.len())) as int)
            &&& forall|i: int| 0 <= i < back.len() ==> (#[trigger] back[i]).addr == frames[i].offset
        }),
{
    lemma_first_in_first_out(tx, descs(frames));
    let seen = tx.produce(descs(frames)).consume(tx.in_flight()).queued;
    lemma_first_in_first_out(completion, seen);
    let back = completion.produce(seen).consume(completion.in_flight()).queued;
    assert(back =~= descs(frames).take(completion.grant(tx.grant(frames.len())) as int));
}

} // verus!
