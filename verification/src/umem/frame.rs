//! Frames, the unit in which buffers change hands.

use vstd::prelude::*;
use crate::ring::model::Descriptor;

verus! {

/// One slot of the buffer pool as its owner holds it: where it lies in the
/// region, how many of its bytes are payload, and the flags that go with it
/// onto a ring.
///
/// Whoever holds a frame owns the bytes it points at. Submitting it to a
/// ring passes them to the kernel until the frame comes back on the ring of
/// the other direction.
#[derive(Clone, Copy, Debug, PartialEq, Eq, Structural)]
pub struct Frame {
    pub offset: u64,
    pub len: u32,
    pub flags: u32,
}

impl Frame {
    /// The descriptor that stands for this frame on a ring.
    pub open spec fn desc(self) -> Descriptor {
        Descriptor { addr: self.offset, len: self.len, options: self.flags }
    }

    /// An empty frame at `offset`.
    pub fn new(offset: u64) -> (frame: Frame)
        ensures
            frame == (Frame { offset, len: 0, flags: 0 }),
    {
        Frame { offset, len: 0, flags: 0 }
    }

    /// Records that the first `len` bytes of the frame are payload.
    pub fn set_len(&mut self, len: u32)
        ensures
            *final(self) == (Frame { len, ..*old(self) }),
    {
        self.len = len;
    }

    /// Fills in `desc` so that it stands for this frame.
    pub fn write_xdp_desc(&self, desc: &mut Descriptor)
        ensures
            *final(desc) == self.desc(),
    {
        desc.addr = self.offset;
        desc.len = self.len;
        desc.options = self.flags;
    }
}

/// The descriptors that stand for `frames`, in the same order.
pub open spec fn descs(frames: Seq<Frame>) -> Seq<Descriptor> {
    Seq::new(frames.len(), |i: int| frames[i].desc())
}

} // verus!
