use std::sync::Arc;

use xsk_core::os::{Backpressure, Outcome, SendCall};
use xsk_core::ring::model::Descriptor;
use xsk_core::ring::Ring;
use xsk_core::socket::fd::Fd;
use xsk_core::socket::tx_queue::TxQueue;
use xsk_core::socket::Socket;
use xsk_core::umem::frame::Frame;

const FD: i32 = 7;

fn queue(capacity: u32) -> TxQueue {
    let ring = Ring::new(capacity).expect("a power of two");
    TxQueue::new(ring, Arc::new(Socket::new(Fd::new(FD))))
}

fn frame(n: u64) -> Frame {
    let mut frame = Frame::new(n * 2048);
    frame.set_len(64 + n as u32);
    frame.flags = n as u32 % 2;
    frame
}

fn frames(first: u64, n: u64) -> Vec<Frame> {
    (first..first + n).map(frame).collect()
}

fn desc(n: u64) -> Descriptor {
    Descriptor { addr: n * 2048, len: 64 + n as u32, options: n as u32 % 2 }
}

fn drain(q: &mut TxQueue) -> Vec<Descriptor> {
    let mut out = Vec::new();
    q.ring_mut().consume(usize::MAX, &mut out);
    out
}

/// A socket that counts the wakeups it is sent and answers each with
/// `answer`.
struct Wire {
    sends: Vec<SendCall>,
    answer: Outcome,
}

/// Drives `produce_and_wakeup` to its end as a caller with a socket does.
fn produce_and_wakeup(q: &mut TxQueue, frames: &[Frame], wire: &mut Wire) -> Result<usize, i32> {
    let (count, call) = q.produce_and_wakeup(frames);
    match call {
        None => Ok(count),
        Some(call) => {
            wire.sends.push(call);
            q.after_wakeup(count, wire.answer).map_err(|e| e.code)
        }
    }
}

#[test]
fn new_queue_wraps_ring_and_descriptor() {
    let q = queue(16);
    assert_eq!(q.ring().capacity(), 16);
    assert_eq!(q.ring().in_flight(), 0);
    assert_eq!(q.fd().id(), FD);
    assert!(!q.needs_wakeup());
}

#[test]
fn produce_queues_descriptors_in_order() {
    let mut q = queue(8);
    assert_eq!(q.produce(&frames(0, 3)), 3);
    assert_eq!(q.ring().producer(), 3);
    assert_eq!(q.ring().in_flight(), 3);
    assert_eq!(drain(&mut q), vec![desc(0), desc(1), desc(2)]);
}

#[test]
fn produce_of_nothing_touches_nothing() {
    let mut q = queue(8);
    assert_eq!(q.produce(&[]), 0);
    assert_eq!(q.ring().producer(), 0);
    assert_eq!(q.ring().in_flight(), 0);
    q.produce(&frames(0, 5));
    let before = (q.ring().producer(), q.ring().consumer(), q.ring().in_flight());
    assert_eq!(q.produce(&[]), 0);
    assert_eq!((q.ring().producer(), q.ring().consumer(), q.ring().in_flight()), before);
    assert_eq!(drain(&mut q).len(), 5);
}

#[test]
fn produce_takes_only_what_fits() {
    // Capacity 8 with 3 in flight, none of them consumed: 10 more are
    // offered, 8 - 3 = 5 are taken.
    let mut q = queue(8);
    assert_eq!(q.produce(&frames(0, 3)), 3);
    let offered = frames(10, 10);
    assert_eq!(q.produce(&offered), 5);
    assert_eq!(q.ring().in_flight(), 8);
    assert_eq!(q.ring().free(), 0);
    assert_eq!(q.ring().producer(), 8);
    assert_eq!(q.ring().consumer(), 0);
    let queued = drain(&mut q);
    assert_eq!(
        queued,
        vec![desc(0), desc(1), desc(2), desc(10), desc(11), desc(12), desc(13), desc(14)]
    );
    // The five that were not taken are as they were and can go in now.
    assert_eq!(offered[5..], frames(15, 5)[..]);
    assert_eq!(q.produce(&offered[5..]), 5);
    assert_eq!(drain(&mut q), vec![desc(15), desc(16), desc(17), desc(18), desc(19)]);
}

#[test]
fn produce_on_a_full_ring_takes_nothing() {
    let mut q = queue(4);
    assert_eq!(q.produce(&frames(0, 4)), 4);
    assert_eq!(q.produce(&frames(4, 1)), 0);
    assert_eq!(q.produce(&frames(4, 9)), 0);
    assert_eq!(q.ring().producer(), 4);
    assert_eq!(drain(&mut q), vec![desc(0), desc(1), desc(2), desc(3)]);
}

#[test]
fn batches_that_fit_are_taken_whole() {
    for k in 0..10u32 {
        let capacity = 1u32 << k;
        let mut q = queue(capacity);
        // Leave a third of the ring in flight, then fill the rest in batches.
        let in_flight = (capacity / 3) as u64;
        assert_eq!(q.produce(&frames(0, in_flight)), in_flight as usize);
        let mut next = in_flight;
        let mut batch = 1u64;
        while next + batch <= capacity as u64 {
            assert_eq!(q.produce(&frames(next, batch)), batch as usize);
            next += batch;
            assert!(q.ring().in_flight() <= capacity);
            assert_eq!(q.ring().producer().wrapping_sub(q.ring().consumer()) as u64, next);
            batch = batch % 5 + 1;
        }
        let queued = drain(&mut q);
        assert_eq!(queued.len() as u64, next);
        for (i, d) in queued.iter().enumerate() {
            assert_eq!(*d, desc(i as u64));
        }
    }
}

#[test]
fn a_frame_comes_back_with_its_offset() {
    let mut tx = queue(8);
    let mut completion = Ring::new(8).unwrap();
    let sent = frames(3, 6);
    assert_eq!(tx.produce(&sent), 6);
    // The stand-in for the kernel: takes what is on the transmit ring and
    // puts it on the completion ring as it is.
    let seen = drain(&mut tx);
    let (granted, idx) = completion.reserve(seen.len());
    assert_eq!(granted, 6);
    for (i, d) in seen.iter().enumerate() {
        completion.write(idx.wrapping_add(i as u32), *d);
    }
    completion.submit(granted);
    let mut back = Vec::new();
    assert_eq!(completion.consume(8, &mut back), 6);
    for (frame, d) in sent.iter().zip(back.iter()) {
        assert_eq!(d.addr, frame.offset);
        assert_eq!(d.len, frame.len);
        assert_eq!(d.options, frame.flags);
    }
    assert_eq!(back[0].addr, 3 * 2048);
    assert_eq!(back[5].addr, 8 * 2048);
}

#[test]
fn a_sleeping_kernel_is_woken_once() {
    let mut q = queue(8);
    q.ring_mut().set_needs_wakeup(true);
    assert!(q.needs_wakeup());
    let mut wire = Wire { sends: Vec::new(), answer: Outcome { ret: 0, errno: 0 } };
    assert_eq!(produce_and_wakeup(&mut q, &frames(0, 4), &mut wire), Ok(4));
    assert_eq!(wire.sends.len(), 1);
    assert_eq!(wire.sends[0], SendCall { fd: FD, flags: libc::MSG_DONTWAIT });
    assert_eq!(q.ring().in_flight(), 4);
    // Also when nothing could be produced.
    assert_eq!(produce_and_wakeup(&mut q, &frames(4, 9), &mut wire), Ok(4));
    assert_eq!(produce_and_wakeup(&mut q, &frames(8, 1), &mut wire), Ok(0));
    assert_eq!(wire.sends.len(), 3);
}

#[test]
fn a_watching_kernel_is_not_woken() {
    // The flag is clear, the ring of capacity 8 is empty, 4 frames go in.
    let mut q = queue(8);
    assert!(!q.needs_wakeup());
    let mut wire = Wire { sends: Vec::new(), answer: Outcome { ret: -1, errno: libc::EBADF } };
    assert_eq!(produce_and_wakeup(&mut q, &frames(0, 4), &mut wire), Ok(4));
    assert!(wire.sends.is_empty());
    let (count, call) = q.produce_and_wakeup(&frames(4, 2));
    assert_eq!(count, 2);
    assert_eq!(call, None);
    assert_eq!(q.ring().in_flight(), 6);
}

#[test]
fn a_failed_wakeup_is_reported_after_producing() {
    let mut q = queue(8);
    q.ring_mut().set_needs_wakeup(true);
    let mut wire = Wire { sends: Vec::new(), answer: Outcome { ret: -1, errno: libc::EBADF } };
    assert_eq!(produce_and_wakeup(&mut q, &frames(0, 4), &mut wire), Err(libc::EBADF));
    assert_eq!(wire.sends.len(), 1);
    // The frames are on the ring all the same.
    assert_eq!(q.ring().in_flight(), 4);
    wire.answer = Outcome { ret: -1, errno: libc::EAGAIN };
    assert_eq!(produce_and_wakeup(&mut q, &frames(4, 2), &mut wire), Ok(2));
    assert_eq!(wire.sends.len(), 2);
}

#[test]
fn the_queue_goes_by_the_platforms_backpressure_numbers() {
    let q = queue(2);
    let benign = q.backpressure();
    assert_eq!(benign, Backpressure::platform());
    assert_eq!(
        (benign.enobufs, benign.eagain, benign.ebusy, benign.enetdown),
        (libc::ENOBUFS, libc::EAGAIN, libc::EBUSY, libc::ENETDOWN)
    );
    // Producing and changing the descriptor leave them alone.
    let mut q = q;
    q.produce(&frames(0, 2));
    *q.fd_mut() = Fd::new(11);
    q.ring_mut().release(1);
    assert_eq!(q.backpressure(), benign);
}

#[test]
fn wakeup_call_is_an_empty_send_that_does_not_block() {
    let q = queue(2);
    let call = q.wakeup_call();
    assert_eq!(call.fd, FD);
    assert_eq!(call.flags, libc::MSG_DONTWAIT);
}

#[test]
fn wakeup_succeeds_when_the_send_does() {
    let q = queue(2);
    assert_eq!(q.wakeup(Outcome { ret: 0, errno: 0 }), Ok(()));
    // A stale error number does not matter.
    assert_eq!(q.wakeup(Outcome { ret: 0, errno: libc::EBADF }), Ok(()));
    assert_eq!(q.wakeup(Outcome { ret: 12, errno: libc::EINVAL }), Ok(()));
}

#[test]
fn wakeup_swallows_backpressure() {
    let q = queue(2);
    for errno in [libc::ENOBUFS, libc::EAGAIN, libc::EBUSY, libc::ENETDOWN] {
        assert_eq!(q.wakeup(Outcome { ret: -1, errno }), Ok(()));
        assert_eq!(q.after_wakeup(5, Outcome { ret: -1, errno }), Ok(5));
    }
}

#[test]
fn wakeup_reports_other_errors() {
    let q = queue(2);
    for errno in [libc::EBADF, libc::EINVAL, libc::ENOTSOCK, libc::ENOMEM, libc::EINTR, 0, -1] {
        let err = q.wakeup(Outcome { ret: -1, errno }).unwrap_err();
        assert_eq!(err.code, errno);
        let err = q.after_wakeup(5, Outcome { ret: -1, errno }).unwrap_err();
        assert_eq!(err.code, errno);
    }
    for errno in 1..200 {
        let benign = [libc::ENOBUFS, libc::EAGAIN, libc::EBUSY, libc::ENETDOWN].contains(&errno);
        assert_eq!(q.wakeup(Outcome { ret: -1, errno }).is_ok(), benign);
    }
}

#[test]
fn poll_waits_for_room_to_write() {
    let mut q = queue(2);
    let call = q.poll_call(250);
    assert_eq!((call.fd, call.events, call.timeout), (FD, libc::POLLOUT, 250));
    assert_eq!(q.poll_call(-1).timeout, -1);
    assert_eq!(q.poll(Outcome { ret: 1, errno: 0 }).map_err(|e| e.code), Ok(true));
    assert_eq!(q.poll(Outcome { ret: 0, errno: 0 }).map_err(|e| e.code), Ok(false));
    assert_eq!(q.poll(Outcome { ret: 0, errno: libc::EINTR }).map_err(|e| e.code), Ok(false));
    assert_eq!(
        q.poll(Outcome { ret: -1, errno: libc::EINTR }).map_err(|e| e.code),
        Err(libc::EINTR)
    );
    assert_eq!(
        q.poll(Outcome { ret: -1, errno: libc::ENOMEM }).map_err(|e| e.code),
        Err(libc::ENOMEM)
    );
}

#[test]
fn the_descriptor_can_be_read_and_changed() {
    let mut q = queue(2);
    assert_eq!(*q.fd(), Fd::new(FD));
    *q.fd_mut() = Fd::new(9);
    assert_eq!(q.fd().id(), 9);
    assert_eq!(q.wakeup_call().fd, 9);
    assert_eq!(q.poll_call(0).fd, 9);
    assert_eq!(q.fd_mut().poll_write(Outcome { ret: 2, errno: 0 }).map_err(|e| e.code), Ok(true));
}
