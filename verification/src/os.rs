//! The operating system as this crate sees it: the calls it asks its caller
//! to make, what comes back from them, and the platform's numbers.

use vstd::prelude::*;

verus! {

/// An error number reported by the operating system for a failed call.
#[derive(Clone, Copy, Debug, PartialEq, Eq, Structural)]
pub struct OsError {
    pub code: i32,
}

/// What a system call handed back: its return value and the error number
/// that was current right after it. The error number means something only
/// where the return value reports a failure.
#[derive(Clone, Copy, Debug, PartialEq, Eq, Structural)]
pub struct Outcome {
    pub ret: i64,
    pub errno: i32,
}

/// Why a failed send did not go through.
#[derive(Clone, Copy, Debug, PartialEq, Eq, Structural)]
pub enum Failure {
    /// The kernel cannot take the request right now and will get to the ring
    /// on its own.
    Backpressure,
    /// Anything else.
    Os,
}

/// The error numbers with which the kernel turns a wakeup away for the
/// moment.
#[derive(Clone, Copy, Debug, PartialEq, Eq, Structural)]
pub struct Backpressure {
    pub enobufs: i32,
    pub eagain: i32,
    pub ebusy: i32,
    pub enetdown: i32,
}

/// `libc::ENOBUFS`, the platform's number for "no buffer space available".
/// Nothing is claimed of its value, which differs between targets.
#[verifier::external_body]
fn enobufs() -> i32 {
    libc::ENOBUFS
}

/// `libc::EAGAIN`, the platform's number for "try again". Nothing is claimed
/// of its value.
#[verifier::external_body]
fn eagain() -> i32 {
    libc::EAGAIN
}

/// `libc::EBUSY`, the platform's number for "device or resource busy".
/// Nothing is claimed of its value.
#[verifier::external_body]
fn ebusy() -> i32 {
    libc::EBUSY
}

/// `libc::ENETDOWN`, the platform's number for "network is down". Nothing is
/// claimed of its value, which differs between targets.
#[verifier::external_body]
fn enetdown() -> i32 {
    libc::ENETDOWN
}

/// `libc::MSG_DONTWAIT`, the flag that keeps a send from blocking. Nothing
/// is claimed of its value.
#[verifier::external_body]
fn msg_dontwait() -> i32 {
    libc::MSG_DONTWAIT
}

/// `libc::POLLOUT`, the poll event "writing is possible". Nothing is claimed
/// of its value.
#[verifier::external_body]
fn pollout() -> i16 {
    libc::POLLOUT
}

/// A send of no payload to no address on the socket `fd`: what prompts the
/// kernel to look at the transmit ring. To be made with `sendto`.
#[derive(Clone, Copy, Debug, PartialEq, Eq, Structural)]
pub struct SendCall {
    pub fd: i32,
    pub flags: i32,
}

/// A wait of at most `timeout` milliseconds, or without end where `timeout`
/// is negative, for one of `events` on the socket `fd`. To be made with
/// `poll`.
#[derive(Clone, Copy, Debug, PartialEq, Eq, Structural)]
pub struct PollCall {
    pub fd: i32,
    pub events: i16,
    pub timeout: i32,
}

/// `libc::MAP_ANONYMOUS`, the mapping flag "backed by no file". Nothing is
/// claimed of its value, which differs between targets.
#[verifier::external_body]
fn map_anonymous() -> i32 {
    libc::MAP_ANONYMOUS
}

/// `libc::MAP_PRIVATE`, the mapping flag "not shared with other processes".
/// Nothing is claimed of its value.
#[verifier::external_body]
fn map_private() -> i32 {
    libc::MAP_PRIVATE
}

/// `libc::MAP_HUGETLB`, the mapping flag "use huge pages". Nothing is
/// claimed of its value, which differs between targets.
#[verifier::external_body]
fn map_hugetlb() -> i32 {
    libc::MAP_HUGETLB
}

/// `libc::PROT_READ`, the protection bit "may be read". Nothing is claimed of
/// its value.
#[verifier::external_body]
fn prot_read() -> i32 {
    libc::PROT_READ
}

/// `libc::PROT_WRITE`, the protection bit "may be written". Nothing is
/// claimed of its value.
#[verifier::external_body]
fn prot_write() -> i32 {
    libc::PROT_WRITE
}

/// `libc::MAP_FAILED`, the address that `mmap` returns in place of a
/// mapping when it fails, as a number. The claim is that all its bits are
/// set, which is how libc defines it on every target.
#[verifier::external_body]
fn map_failed() -> (addr: usize)
    ensures
        addr == usize::MAX,
{
    libc::MAP_FAILED as usize
}

/// The platform's bits for mapping memory.
#[derive(Clone, Copy, Debug, PartialEq, Eq, Structural)]
pub struct MapBits {
    pub prot_read: i32,
    pub prot_write: i32,
    pub anonymous: i32,
    pub private: i32,
    pub hugetlb: i32,
}

/// A request for a mapping of `len` bytes at an address of the kernel's
/// choosing. To be made with `mmap`.
#[derive(Clone, Copy, Debug, PartialEq, Eq, Structural)]
pub struct MapCall {
    pub len: usize,
    pub prot: i32,
    pub flags: i32,
    pub fd: i32,
    pub offset: i64,
}

/// What `mmap` handed back: the address, as a number, and the error number
/// that was current right after the call.
#[derive(Clone, Copy, Debug, PartialEq, Eq, Structural)]
pub struct Mapped {
    pub addr: usize,
    pub errno: i32,
}

impl MapBits {
    /// The bits of the platform this crate was built for.
    pub fn platform() -> MapBits {
        MapBits {
            prot_read: prot_read(),
            prot_write: prot_write(),
            anonymous: map_anonymous(),
            private: map_private(),
            hugetlb: map_hugetlb(),
        }
    }
}

impl Mapped {
    /// Whether the call failed.
    pub open spec fn failed(self) -> bool {
        self.addr == usize::MAX
    }

    /// Tells whether the call failed: whether the address is the one that
    /// stands for failure.
    pub fn has_failed(&self) -> (b: bool)
        ensures
            b == self.failed(),
    {
        self.addr == map_failed()
    }
}

/// The request for `len` bytes of zeroed memory that no file backs and no
/// other process shares, readable and writable, on huge pages if
/// `use_huge_pages`.
pub open spec fn anonymous_mapping(len: usize, use_huge_pages: bool, bits: MapBits) -> MapCall {
    MapCall {
        len,
        prot: bits.prot_read | bits.prot_write,
        flags: if use_huge_pages {
            bits.anonymous | bits.private | bits.hugetlb
        } else {
            bits.anonymous | bits.private
        },
        fd: -1i32,
        offset: 0,
    }
}

impl MapCall {
    /// Builds the request of `anonymous_mapping` from given bits.
    pub fn anonymous(len: usize, use_huge_pages: bool, bits: &MapBits) -> (call: MapCall)
        ensures
            call == anonymous_mapping(len, use_huge_pages, *bits),
    {
        let prot = bits.prot_read | bits.prot_write;
        let file: i32 = -1;
        let offset: i64 = 0;
        let mut flags = bits.anonymous | bits.private;
        if use_huge_pages {
            flags = flags | bits.hugetlb;
        }
        MapCall { len, prot, flags, fd: file, offset }
    }
}

impl SendCall {
    /// The non-blocking empty send on `fd`.
    pub fn wakeup(fd: i32) -> (call: SendCall)
        ensures
            call.fd == fd,
    {
        SendCall { fd, flags: msg_dontwait() }
    }
}

impl PollCall {
    /// The wait until `fd` can be written to.
    pub fn writable(fd: i32, timeout: i32) -> (call: PollCall)
        ensures
            call.fd == fd,
            call.timeout == timeout,
    {
        PollCall { fd, events: pollout(), timeout }
    }
}

/// What a poll amounts to, given what it returned: ready if it reported an
/// event, not ready if the time ran out, and the error if it failed.
pub open spec fn poll_result(polled: Outcome) -> Result<bool, OsError> {
    if polled.ret < 0 {
        Err(OsError { code: polled.errno })
    } else {
        Ok(polled.ret > 0)
    }
}

/// Reads the outcome of a poll.
pub fn read_poll(polled: Outcome) -> (r: Result<bool, OsError>)
    ensures
        r == poll_result(polled),
{
    if polled.ret < 0 {
        Err(OsError { code: polled.errno })
    } else {
        Ok(polled.ret > 0)
    }
}

impl Backpressure {
    /// Whether `errno` is one of the four numbers.
    pub open spec fn covers(self, errno: i32) -> bool {
        errno == self.enobufs || errno == self.eagain || errno == self.ebusy || errno
            == self.enetdown
    }

    /// The numbers of the platform this crate was built for.
    pub fn platform() -> Backpressure {
        Backpressure { enobufs: enobufs(), eagain: eagain(), ebusy: ebusy(), enetdown: enetdown() }
    }

    /// Sorts the error number of a failed send.
    pub fn classify(&self, errno: i32) -> (kind: Failure)
        ensures
            kind == (if self.covers(errno) {
                Failure::Backpressure
            } else {
                Failure::Os
            }),
    {
        if errno == self.enobufs || errno == self.eagain || errno == self.ebusy || errno
            == self.enetdown {
            Failure::Backpressure
        } else {
            Failure::Os
        }
    }
}

/// What a wakeup amounts to, given what the send returned and the numbers
/// that count as backpressure: success unless the send failed for another
/// reason.
pub open spec fn wakeup_result(sent: Outcome, benign: Backpressure) -> Result<(), OsError> {
    if sent.ret >= 0 || benign.covers(sent.errno) {
        Ok(())
    } else {
        Err(OsError { code: sent.errno })
    }
}

/// Reads the outcome of a wakeup send against a given set of backpressure
/// numbers.
pub fn read_wakeup(sent: Outcome, benign: &Backpressure) -> (r: Result<(), OsError>)
    ensures
        r == wakeup_result(sent, *benign),
{
    if sent.ret < 0 {
        match benign.classify(sent.errno) {
            Failure::Backpressure => Ok(()),
            Failure::Os => Err(OsError { code: sent.errno }),
        }
    } else {
        Ok(())
    }
}

} // verus!
