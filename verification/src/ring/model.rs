//! What a ring is, told without its storage: the descriptors on their way
//! from the producer to the consumer, the slots that are free, and the two
//! cursors.

use vstd::prelude::*;
use super::cursor::{advance, distance, is_power_of_two};

verus! {

/// One entry of a ring. It points at a frame of the buffer pool by the
/// frame's byte offset and says how much of the frame is payload.
#[derive(Clone, Copy, Debug, PartialEq, Eq, Structural)]
pub struct Descriptor {
    pub addr: u64,
    pub len: u32,
    pub options: u32,
}

/// The state of a ring.
///
/// `queued` holds the descriptors that were published and not yet consumed,
/// oldest first. `spare` holds what lies in the free slots, in the order in
/// which the producer will fill them; its entries mean nothing until they
/// are published. The slots of both together are the ring.
pub struct RingView {
    pub producer: nat,
    pub consumer: nat,
    pub queued: Seq<Descriptor>,
    pub spare: Seq<Descriptor>,
    pub needs_wakeup: bool,
}

impl RingView {
    /// The number of slots.
    pub open spec fn capacity(self) -> nat {
        self.queued.len() + self.spare.len()
    }

    /// The number of descriptors between the two cursors.
    pub open spec fn in_flight(self) -> nat {
        self.queued.len()
    }

    /// The number of slots the producer may still fill.
    pub open spec fn free(self) -> nat {
        self.spare.len()
    }

    /// The capacity is a power of two, and the producer cursor is ahead of
    /// the consumer cursor by what is in flight, which by the definition of
    /// `capacity` is never more than the ring holds.
    pub open spec fn wf(self) -> bool {
        &&& is_power_of_two(self.capacity())
        &&& self.capacity() < 0x1_0000_0000
        &&& self.consumer < 0x1_0000_0000
        &&& self.producer == advance(self.consumer, self.in_flight())
    }

    /// A ring of `capacity` slots that nothing has passed through yet.
    pub open spec fn fresh(capacity: nat) -> RingView {
        RingView {
            producer: 0,
            consumer: 0,
            queued: Seq::empty(),
            spare: Seq::new(capacity, |i: int| Descriptor { addr: 0, len: 0, options: 0 }),
            needs_wakeup: false,
        }
    }

    /// How many of `wanted` slots a reservation gets: all of them if they
    /// are free, else as many as are free.
    pub open spec fn grant(self, wanted: nat) -> nat {
        if wanted <= self.free() {
            wanted
        } else {
            self.free()
        }
    }

    /// The ring after `desc` was written into the free slot at `offset`.
    pub open spec fn stage(self, offset: int, desc: Descriptor) -> RingView {
        RingView { spare: self.spare.update(offset, desc), ..self }
    }

    /// The ring after the producer cursor moved on by `n`: the first `n`
    /// free slots are handed to the consumer as they are.
    pub open spec fn publish(self, n: nat) -> RingView {
        RingView {
            producer: advance(self.producer, n),
            queued: self.queued + self.spare.take(n as int),
            spare: self.spare.skip(n as int),
            ..self
        }
    }

    /// The ring after an attempt to submit `descs`: as many as a reservation
    /// grants, from the front of `descs`, are queued behind what is already
    /// in flight.
    pub open spec fn produce(self, descs: Seq<Descriptor>) -> RingView {
        let n = self.grant(descs.len());
        RingView {
            producer: advance(self.producer, n),
            queued: self.queued + descs.take(n as int),
            spare: self.spare.skip(n as int),
            ..self
        }
    }

    /// The ring after the consumer cursor moved on by `n`: the `n` oldest
    /// descriptors are gone and their slots are free again.
    pub open spec fn release(self, n: nat) -> RingView {
        RingView {
            consumer: advance(self.consumer, n),
            queued: self.queued.skip(n as int),
            spare: self.spare + self.queued.take(n as int),
            ..self
        }
    }

    /// The ring with the wakeup flag as the consumer last set it.
    pub open spec fn flag(self, needs_wakeup: bool) -> RingView {
        RingView { needs_wakeup, ..self }
    }

    /// How many of `wanted` descriptors a consumer finds: all of them if so
    /// many are in flight, else as many as are in flight.
    pub open spec fn found(self, wanted: nat) -> nat {
        if wanted <= self.in_flight() {
            wanted
        } else {
            self.in_flight()
        }
    }

    /// The ring after an attempt to take `wanted` descriptors off it.
    pub open spec fn consume(self, wanted: nat) -> RingView {
        self.release(self.found(wanted))
    }

    /// The ring after the batches of `batches` were submitted one after the
    /// other.
    pub open spec fn produce_all(self, batches: Seq<Seq<Descriptor>>) -> RingView
        decreases batches.len(),
    {
        if batches.len() == 0 {
            self
        } else {
            self.produce(batches.first()).produce_all(batches.drop_first())
        }
    }

    /// Whether the ring takes each batch of `batches` whole when they are
    /// submitted one after the other.
    pub open spec fn takes_all(self, batches: Seq<Seq<Descriptor>>) -> bool
        decreases batches.len(),
    {
        batches.len() == 0 || (self.grant(batches.first().len()) == batches.first().len()
            && self.produce(batches.first()).takes_all(batches.drop_first()))
    }
}

/// The number of descriptors in all of `batches`.
pub open spec fn total(batches: Seq<Seq<Descriptor>>) -> nat
    decreases batches.len(),
{
    if batches.len() == 0 {
        0
    } else {
        batches.first().len() + total(batches.drop_first())
    }
}

/// The descriptors of all of `batches`, one batch after the other.
pub open spec fn concat(batches: Seq<Seq<Descriptor>>) -> Seq<Descriptor>
    decreases batches.len(),
{
    if batches.len() == 0 {
        Seq::empty()
    } else {
        batches.first() + concat(batches.drop_first())
    }
}

/// Moving a cursor on in two steps is moving it on by their sum, and the
/// way from a cursor to where it was moved is the number of steps.
pub proof fn lemma_advance(cursor: nat, n: nat, m: nat)
    requires
        cursor < 0x1_0000_0000,
        n + m < 0x1_0000_0000,
    ensures
        advance(advance(cursor, n), m) == advance(cursor, n + m),
        distance(cursor, advance(cursor, n)) == n,
        distance(advance(cursor, n), advance(cursor, n + m)) == m,
{
}

/// Producing never over-commits a ring. Whatever is submitted to a
/// well-formed ring, the ring stays well formed and keeps its capacity: the
/// producer cursor is ahead of the consumer cursor by what is in flight, and
/// that is at most the capacity.
pub proof fn lemma_produce_never_overcommits(ring: RingView, descs: Seq<Descriptor>)
    requires
        ring.wf(),
    ensures
        ring.produce(descs).wf(),
        ring.produce(descs).capacity() == ring.capacity(),
        ring.produce(descs).in_flight() == ring.in_flight() + ring.grant(descs.len()),
        ring.produce(descs).in_flight() <= ring.capacity(),
        distance(ring.produce(descs).consumer, ring.produce(descs).producer) == ring.produce(
            descs,
        ).in_flight(),
{
    let n = ring.grant(descs.len());
    let after = ring.produce(descs);
    assert(after.queued.len() == ring.queued.len() + n);
    assert(after.spare.len() == ring.spare.len() - n);
    assert(after.capacity() == ring.capacity());
    lemma_advance(ring.consumer, ring.in_flight(), n);
    lemma_advance(ring.consumer, ring.in_flight() + n, 0);
}

/// Consuming keeps a ring well formed. However much the consumer asks for,
/// it gets no more than is in flight, and the slots it is through with are
/// free again.
pub proof fn lemma_consume_frees(ring: RingView, wanted: nat)
    requires
        ring.wf(),
    ensures
        ring.consume(wanted).wf(),
        ring.consume(wanted).capacity() == ring.capacity(),
        ring.consume(wanted).in_flight() == ring.in_flight() - ring.found(wanted),
        ring.consume(wanted).free() == ring.free() + ring.found(wanted),
        distance(ring.consume(wanted).consumer, ring.consume(wanted).producer) == ring.consume(
            wanted,
        ).in_flight(),
{
    let n = ring.found(wanted);
    let after = ring.consume(wanted);
    assert(after.queued.len() == ring.queued.len() - n);
    assert(after.spare.len() == ring.spare.len() + n);
    assert(after.capacity() == ring.capacity());
    lemma_advance(ring.consumer, n, (ring.in_flight() - n) as nat);
}

/// Batches that fit are taken. If the batches of `batches` hold no more
/// descriptors between them than the ring has free slots, then each of them
/// is taken whole when they are submitted one after the other, and the ring
/// ends up well formed with all of them queued, in order, behind what was in
/// flight before.
pub proof fn lemma_batches_that_fit_are_taken(ring: RingView, batches: Seq<Seq<Descriptor>>)
    requires
        ring.wf(),
        total(batches) <= ring.free(),
    ensures
        ring.takes_all(batches),
        ring.produce_all(batches).wf(),
        ring.produce_all(batches).capacity() == ring.capacity(),
        ring.produce_all(batches).queued == ring.queued + concat(batches),
        ring.produce_all(batches).in_flight() == ring.in_flight() + total(batches),
        ring.produce_all(batches).in_flight() <= ring.capacity(),
        ring.produce_all(batches).consumer == ring.consumer,
    decreases batches.len(),
{
    if batches.len() == 0 {
        assert(ring.queued + concat(batches) =~= ring.queued);
    } else {
        let first = batches.first();
        let next = ring.produce(first);
        lemma_produce_never_overcommits(ring, first);
        assert(first.take(first.len() as int) =~= first);
        lemma_batches_that_fit_are_taken(next, batches.drop_first());
        assert((ring.queued + first) + concat(batches.drop_first()) =~= ring.queued + concat(
            batches,
        ));
    }
}

/// What goes in comes out. Of the descriptors submitted to a well-formed
/// ring, those that were taken are what the consumer reads once it is
/// through with what was in flight before: the same descriptors, in the same
/// order, each with the address it was submitted with.
pub proof fn lemma_first_in_first_out(ring: RingView, descs: Seq<Descriptor>)
    requires
        ring.wf(),
    ensures
        ring.produce(descs).consume(ring.in_flight()).queued == descs.take(
            ring.grant(descs.len()) as int,
        ),
        forall|i: int|
            0 <= i < ring.grant(descs.len()) ==> (#[trigger] ring.produce(descs).queued[ring.in_flight()
                + i]).addr == descs[i].addr,
{
    let n = ring.grant(descs.len());
    assert(ring.produce(descs).consume(ring.in_flight()).queued =~= descs.take(n as int));
}

} // verus!
