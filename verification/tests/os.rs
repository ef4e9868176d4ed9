use xsk_core::os::{
    read_poll, read_wakeup, Backpressure, Failure, OsError, Outcome, PollCall, SendCall,
};
use xsk_core::umem::frame::Frame;
use xsk_core::ring::model::Descriptor;

const CODES: Backpressure = Backpressure { enobufs: 105, eagain: 11, ebusy: 16, enetdown: 100 };

#[test]
fn the_platforms_backpressure_numbers() {
    let codes = Backpressure::platform();
    assert_eq!(codes.enobufs, libc::ENOBUFS);
    assert_eq!(codes.eagain, libc::EAGAIN);
    assert_eq!(codes.ebusy, libc::EBUSY);
    assert_eq!(codes.enetdown, libc::ENETDOWN);
}

#[test]
fn classify_knows_the_four() {
    for errno in [105, 11, 16, 100] {
        assert_eq!(CODES.classify(errno), Failure::Backpressure);
    }
    for errno in [0, 1, 9, 10, 12, 15, 17, 99, 101, 104, 106, -11, i32::MAX, i32::MIN] {
        assert_eq!(CODES.classify(errno), Failure::Os);
    }
}

#[test]
fn read_wakeup_by_given_numbers() {
    assert_eq!(read_wakeup(Outcome { ret: 0, errno: 9 }, &CODES), Ok(()));
    assert_eq!(read_wakeup(Outcome { ret: i64::MAX, errno: 9 }, &CODES), Ok(()));
    assert_eq!(read_wakeup(Outcome { ret: -1, errno: 105 }, &CODES), Ok(()));
    assert_eq!(read_wakeup(Outcome { ret: -1, errno: 11 }, &CODES), Ok(()));
    assert_eq!(read_wakeup(Outcome { ret: -1, errno: 16 }, &CODES), Ok(()));
    assert_eq!(read_wakeup(Outcome { ret: -1, errno: 100 }, &CODES), Ok(()));
    assert_eq!(read_wakeup(Outcome { ret: -1, errno: 9 }, &CODES), Err(OsError { code: 9 }));
    assert_eq!(read_wakeup(Outcome { ret: i64::MIN, errno: 0 }, &CODES), Err(OsError { code: 0 }));
    // Other numbers, other answers.
    let other = Backpressure { enobufs: 132, eagain: 11, ebusy: 16, enetdown: 127 };
    assert_eq!(read_wakeup(Outcome { ret: -1, errno: 105 }, &other), Err(OsError { code: 105 }));
    assert_eq!(read_wakeup(Outcome { ret: -1, errno: 132 }, &other), Ok(()));
}

#[test]
fn read_poll_by_return_value() {
    assert_eq!(read_poll(Outcome { ret: 1, errno: 0 }), Ok(true));
    assert_eq!(read_poll(Outcome { ret: 3, errno: 4 }), Ok(true));
    assert_eq!(read_poll(Outcome { ret: 0, errno: 4 }), Ok(false));
    assert_eq!(read_poll(Outcome { ret: -1, errno: 4 }), Err(OsError { code: 4 }));
    assert_eq!(read_poll(Outcome { ret: -7, errno: 22 }), Err(OsError { code: 22 }));
}

#[test]
fn calls_carry_the_platforms_flags() {
    assert_eq!(SendCall::wakeup(3), SendCall { fd: 3, flags: libc::MSG_DONTWAIT });
    assert_eq!(
        PollCall::writable(3, -1),
        PollCall { fd: 3, events: libc::POLLOUT, timeout: -1 }
    );
}

#[test]
fn a_frame_writes_its_descriptor() {
    let mut frame = Frame::new(8192);
    assert_eq!(frame, Frame { offset: 8192, len: 0, flags: 0 });
    frame.set_len(1500);
    assert_eq!(frame, Frame { offset: 8192, len: 1500, flags: 0 });
    frame.flags = 1;
    let mut desc = Descriptor { addr: 77, len: 77, options: 77 };
    frame.write_xdp_desc(&mut desc);
    assert_eq!(desc, Descriptor { addr: 8192, len: 1500, options: 1 });
}
