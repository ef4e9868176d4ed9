//! The region of memory behind the buffer pool.

use vstd::prelude::*;
use crate::os::{anonymous_mapping, MapBits, MapCall, Mapped, OsError};

verus! {

/// Why there is no region.
#[derive(Clone, Copy, Debug, PartialEq, Eq, Structural)]
pub enum MmapError {
    /// A region of no bytes was asked for. There is no such region.
    ZeroLength,
    /// The operating system refused the mapping.
    Os(OsError),
}

/// An anonymous memory mapped region: where it starts, as a number, and how
/// many bytes it has.
///
/// The value records a mapping; it does not hold it. Whoever made the
/// mapping call unmaps the region, once, when the last user is done.
#[derive(Clone, Copy, Debug)]
pub struct Mmap {
    addr: usize,
    len: usize,
    huge_pages: bool,
}

/// A region as its contracts speak of it.
pub struct MmapView {
    pub addr: usize,
    pub len: usize,
    pub huge_pages: bool,
}

impl View for Mmap {
    type V = MmapView;

    closed spec fn view(&self) -> MmapView {
        MmapView { addr: self.addr, len: self.len, huge_pages: self.huge_pages }
    }
}

/// What the creation of a region of `len` bytes comes to, given what the
/// mapping call returned.
pub open spec fn region(len: usize, use_huge_pages: bool, mapped: Mapped) -> Result<
    MmapView,
    MmapError,
> {
    if len == 0 {
        Err(MmapError::ZeroLength)
    } else if mapped.failed() {
        Err(MmapError::Os(OsError { code: mapped.errno }))
    } else {
        Ok(MmapView { addr: mapped.addr, len, huge_pages: use_huge_pages })
    }
}

impl Mmap {
    #[verifier::type_invariant]
    spec fn inv(&self) -> bool {
        self.addr != 0 && self.addr != usize::MAX && self.len > 0
    }

    /// The mapping call for a region of `len` bytes, or the reason why none
    /// is to be made. Its answer goes to `new`.
    pub fn call(len: usize, use_huge_pages: bool) -> (call: Result<MapCall, MmapError>)
        ensures
            len == 0 <==> call is Err,
            call is Err ==> call == Err::<MapCall, MmapError>(MmapError::ZeroLength),
            call is Ok ==> call->Ok_0.len == len && call->Ok_0.fd == -1 && call->Ok_0.offset == 0,
    {
        let bits = MapBits::platform();
        Mmap::call_with(len, use_huge_pages, &bits)
    }

    /// The mapping call for a region of `len` bytes, built from given bits.
    pub fn call_with(len: usize, use_huge_pages: bool, bits: &MapBits) -> (call: Result<
        MapCall,
        MmapError,
    >)
        ensures
            call == (if len == 0 {
                Err::<MapCall, MmapError>(MmapError::ZeroLength)
            } else {
                Ok::<MapCall, MmapError>(anonymous_mapping(len, use_huge_pages, *bits))
            }),
    {
        if len == 0 {
            Err(MmapError::ZeroLength)
        } else {
            Ok(MapCall::anonymous(len, use_huge_pages, bits))
        }
    }

    /// The region of `len` bytes, from what the call of `call` returned.
    /// Fails if `len` is zero or the mapping was refused; nothing is left
    /// behind then.
    pub fn new(len: usize, use_huge_pages: bool, mapped: Mapped) -> (made: Result<Mmap, MmapError>)
        requires
            mapped.addr != 0,
        ensures
            made is Ok <==> region(len, use_huge_pages, mapped) is Ok,
            made is Ok ==> made->Ok_0@ == region(len, use_huge_pages, mapped)->Ok_0,
            made is Err ==> made->Err_0 == region(len, use_huge_pages, mapped)->Err_0,
    {
        if len == 0 {
            Err(MmapError::ZeroLength)
        } else if mapped.has_failed() {
            Err(MmapError::Os(OsError { code: mapped.errno }))
        } else {
            Ok(Mmap { addr: mapped.addr, len, huge_pages: use_huge_pages })
        }
    }

    /// The address at which the region starts. It is never null.
    pub fn addr(&self) -> (addr: usize)
        ensures
            addr == self@.addr,
            addr != 0,
    {
        proof {
            use_type_invariant(self);
        }
        self.addr
    }

    /// The number of bytes in the region. It is never zero.
    pub fn len(&self) -> (len: usize)
        ensures
            len == self@.len,
            len > 0,
    {
        proof {
            use_type_invariant(self);
        }
        self.len
    }

    /// Whether the region was asked for on huge pages.
    pub fn huge_pages(&self) -> (huge: bool)
        ensures
            huge == self@.huge_pages,
    {
        self.huge_pages
    }
}

} // verus!
