//! Single-producer/single-consumer rings of descriptors.

pub mod cursor;
pub mod model;

use vstd::prelude::*;
use vstd::arithmetic::div_mod::lemma_mod_add_multiples_vanish;
use cursor::{
    distance, is_power_of_two, is_ring_size, lemma_distinct_slots, lemma_mask_is_slot,
    lemma_one_bit, lemma_same_slot, lemma_wraps_are_laps, slot,
};
use model::{Descriptor, RingView};

verus! {

/// A ring of descriptors with its two cursors.
///
/// One side, the producer, fills free slots and then moves the producer
/// cursor past them, which hands them to the other side. The consumer reads
/// them and moves the consumer cursor past them, which frees the slots.
#[derive(Debug)]
pub struct Ring {
    slots: Vec<Descriptor>,
    mask: u32,
    producer: u32,
    consumer: u32,
    needs_wakeup: bool,
}

/// The `len` entries of `slots` that follow the cursor position `start`,
/// going round.
spec fn window(slots: Seq<Descriptor>, start: int, len: nat) -> Seq<Descriptor> {
    Seq::new(len, |i: int| slots[slot(start + i, slots.len())])
}

/// Windows that start a whole number of laps apart are the same.
proof fn lemma_window_same(slots: Seq<Descriptor>, a: int, b: int, len: nat)
    requires
        slots.len() > 0,
        (a - b) % (slots.len() as int) == 0,
    ensures
        window(slots, a, len) == window(slots, b, len),
{
    assert forall|i: int| 0 <= i < len implies window(slots, a, len)[i] == window(
        slots,
        b,
        len,
    )[i] by {
        lemma_same_slot(a + i, b + i, slots.len());
    }
    assert(window(slots, a, len) =~= window(slots, b, len));
}

/// A window is its front followed by the window that starts where the front
/// ends.
proof fn lemma_window_split(slots: Seq<Descriptor>, start: int, n: nat, m: nat)
    ensures
        window(slots, start, n + m) == window(slots, start, n) + window(slots, start + n, m),
        window(slots, start, n + m).take(n as int) == window(slots, start, n),
        window(slots, start, n + m).skip(n as int) == window(slots, start + n, m),
{
    let whole = window(slots, start, n + m);
    let front = window(slots, start, n);
    let back = window(slots, start + n, m);
    assert forall|i: int| 0 <= i < m implies whole[n + i] == back[i] by {
        assert(start + (n + i) == start + n + i);
    }
    assert(whole =~= front + back);
    assert(whole.take(n as int) =~= front);
    assert(whole.skip(n as int) =~= back);
}

/// Writing into a slot of a window that is no longer than the ring changes
/// the window at that place and nowhere else.
proof fn lemma_window_write(slots: Seq<Descriptor>, start: int, len: nat, k: int, d: Descriptor)
    requires
        len <= slots.len(),
        0 <= k < len,
    ensures
        window(slots.update(slot(start + k, slots.len()), d), start, len) == window(
            slots,
            start,
            len,
        ).update(k, d),
{
    let after = slots.update(slot(start + k, slots.len()), d);
    assert forall|i: int| 0 <= i < len implies window(after, start, len)[i] == window(
        slots,
        start,
        len,
    ).update(k, d)[i] by {
        if i != k {
            lemma_distinct_slots(start, i, k, slots.len());
        }
    }
    assert(window(after, start, len) =~= window(slots, start, len).update(k, d));
}

/// Writing into a slot that lies past the end of a window, within the same
/// lap, leaves the window as it was.
proof fn lemma_window_untouched(
    slots: Seq<Descriptor>,
    start: int,
    len: nat,
    k: int,
    d: Descriptor,
)
    requires
        len <= k < slots.len(),
    ensures
        window(slots.update(slot(start + k, slots.len()), d), start, len) == window(
            slots,
            start,
            len,
        ),
{
    let after = slots.update(slot(start + k, slots.len()), d);
    assert forall|i: int| 0 <= i < len implies window(after, start, len)[i] == window(
        slots,
        start,
        len,
    )[i] by {
        lemma_distinct_slots(start, i, k, slots.len());
    }
    assert(window(after, start, len) =~= window(slots, start, len));
}

impl View for Ring {
    type V = RingView;

    closed spec fn view(&self) -> RingView {
        let capacity = self.slots@.len();
        let in_flight = distance(self.consumer as nat, self.producer as nat);
        RingView {
            producer: self.producer as nat,
            consumer: self.consumer as nat,
            queued: window(self.slots@, self.consumer as int, in_flight),
            spare: window(self.slots@, self.producer as int, (capacity - in_flight) as nat),
            needs_wakeup: self.needs_wakeup,
        }
    }
}

impl Ring {
    /// What holds of every ring: the storage has a power of two of slots and
    /// the producer is ahead of the consumer by no more than that.
    #[verifier::type_invariant]
    pub(crate) closed spec fn inv(&self) -> bool {
        &&& is_power_of_two(self.slots@.len())
        &&& self.slots@.len() == self.mask + 1
        &&& self.slots@.len() <= u32::MAX
        &&& distance(self.consumer as nat, self.producer as nat) <= self.slots@.len()
    }

    /// The view of a ring is well formed.
    pub(crate) proof fn lemma_wf(&self)
        requires
            self.inv(),
        ensures
            self@.wf(),
    {
        self.lemma_view();
    }

    /// What the invariant means for the view, and how the two cursors lie
    /// to one another.
    proof fn lemma_view(&self)
        requires
            self.inv(),
        ensures
            self@.wf(),
            self@.capacity() == self.slots@.len(),
            self@.in_flight() == distance(self.consumer as nat, self.producer as nat),
            self@.free() == self.slots@.len() - self@.in_flight(),
            self.slots@.len() > 0,
            (self.producer - self.consumer - self@.in_flight()) % (self.slots@.len() as int) == 0,
    {
        lemma_one_bit(self.slots@.len() as u32);
        let used = distance(self.consumer as nat, self.producer as nat);
        lemma_wraps_are_laps(self.producer - self.consumer - used, self.slots@.len());
    }

    /// A ring of `capacity` slots with both cursors at zero, or nothing if
    /// `capacity` is no power of two.
    pub fn new(capacity: u32) -> (ring: Option<Ring>)
        ensures
            ring is Some <==> is_power_of_two(capacity as nat),
            ring is Some ==> ring->0@ == RingView::fresh(capacity as nat),
            ring is Some ==> ring->0@.wf(),
    {
        if !is_ring_size(capacity) {
            return None;
        }
        proof {
            lemma_one_bit(capacity);
        }
        let zero = Descriptor { addr: 0, len: 0, options: 0 };
        let slots = vec![zero; capacity as usize];
        let ring = Ring { slots, mask: capacity - 1, producer: 0, consumer: 0, needs_wakeup: false };
        proof {
            assert(ring@.queued =~= RingView::fresh(capacity as nat).queued);
            assert(ring@.spare =~= RingView::fresh(capacity as nat).spare);
            ring.lemma_view();
        }
        Some(ring)
    }

    /// The number of slots.
    pub fn capacity(&self) -> (n: u32)
        ensures
            n == self@.capacity(),
            self@.wf(),
    {
        proof {
            use_type_invariant(self);
            self.lemma_view();
        }
        self.mask + 1
    }

    /// The producer cursor.
    pub fn producer(&self) -> (cursor: u32)
        ensures
            cursor == self@.producer,
    {
        self.producer
    }

    /// The consumer cursor.
    pub fn consumer(&self) -> (cursor: u32)
        ensures
            cursor == self@.consumer,
    {
        self.consumer
    }

    /// The number of descriptors that were published and not yet consumed.
    pub fn in_flight(&self) -> (n: u32)
        ensures
            n == self@.in_flight(),
            self@.wf(),
    {
        proof {
            use_type_invariant(self);
            self.lemma_view();
        }
        self.producer.wrapping_sub(self.consumer)
    }

    /// The number of free slots.
    pub fn free(&self) -> (n: u32)
        ensures
            n == self@.free(),
            self@.wf(),
    {
        proof {
            use_type_invariant(self);
            self.lemma_view();
        }
        self.mask + 1 - self.producer.wrapping_sub(self.consumer)
    }

    /// Whether the consumer has asked to be woken when there is something
    /// new for it.
    pub fn needs_wakeup(&self) -> (flag: bool)
        ensures
            flag == self@.needs_wakeup,
    {
        self.needs_wakeup
    }

    /// Sets the wakeup flag. This is the consumer's to call.
    pub fn set_needs_wakeup(&mut self, flag: bool)
        ensures
            final(self)@ == old(self)@.flag(flag),
            final(self)@.wf(),
    {
        proof {
            use_type_invariant(&*self);
            self.lemma_view();
        }
        self.needs_wakeup = flag;
    }

    /// Asks for `wanted` free slots in a row. Returns how many there are for
    /// the taking, which is fewer than `wanted` where the ring has no more,
    /// and the cursor of the first of them. The ring is left as it was.
    pub fn reserve(&self, wanted: usize) -> (granted: (u32, u32))
        ensures
            granted.0 == self@.grant(wanted as nat),
            granted.1 == self@.producer,
            self@.wf(),
    {
        let free = self.free();
        let count = if wanted <= free as usize {
            wanted as u32
        } else {
            free
        };
        (count, self.producer)
    }

    /// Writes `desc` into the free slot that the cursor `idx` stands for.
    /// Nothing in flight is touched, and the consumer sees nothing of it
    /// until the slot is submitted.
    pub fn write(&mut self, idx: u32, desc: Descriptor)
        requires
            distance(old(self)@.producer, idx as nat) < old(self)@.free(),
        ensures
            final(self)@ == old(self)@.stage(
                distance(old(self)@.producer, idx as nat) as int,
                desc,
            ),
            final(self)@.wf(),
    {
        let ghost slots = self.slots@;
        let ghost p = self.producer as int;
        let ghost c = self.consumer as int;
        let ghost used = distance(self.consumer as nat, self.producer as nat);
        let ghost k = distance(self.producer as nat, idx as nat) as int;
        proof {
            use_type_invariant(&*self);
            self.lemma_view();
            lemma_mask_is_slot(idx, (self.mask + 1) as u32);
            lemma_wraps_are_laps(idx - (p + k), slots.len());
            lemma_same_slot(idx as int, p + k, slots.len());
            lemma_same_slot(p + k, c + (used + k), slots.len());
            lemma_window_write(slots, p, (slots.len() - used) as nat, k, desc);
            lemma_window_untouched(slots, c, used, used + k, desc);
        }
        let at = (idx & self.mask) as usize;
        self.slots[at] = desc;
    }

    /// Moves the producer cursor on by `n`, which hands the next `n` slots
    /// to the consumer with whatever was written into them.
    pub fn submit(&mut self, n: u32)
        requires
            n <= old(self)@.free(),
        ensures
            final(self)@ == old(self)@.publish(n as nat),
            final(self)@.wf(),
    {
        let ghost slots = self.slots@;
        let ghost p = self.producer as int;
        let ghost c = self.consumer as int;
        let ghost used = distance(self.consumer as nat, self.producer as nat);
        let ghost free = (slots.len() - used) as nat;
        let next = self.producer.wrapping_add(n);
        proof {
            use_type_invariant(&*self);
            self.lemma_view();
            assert(distance(c as nat, next as nat) == used + n);
            lemma_wraps_are_laps(next - (p + n), slots.len());
            lemma_window_split(slots, c, used, n as nat);
            lemma_window_same(slots, p, c + used, n as nat);
            lemma_window_split(slots, p, n as nat, (free - n) as nat);
            lemma_window_same(slots, next as int, p + n, (free - n) as nat);
        }
        self.producer = next;
    }

    /// Asks for `wanted` queued descriptors. Returns how many there are to
    /// read, which is fewer than `wanted` where no more are in flight, and
    /// the cursor of the oldest. The ring is left as it was.
    pub fn peek(&self, wanted: usize) -> (found: (u32, u32))
        ensures
            found.0 == (if wanted <= self@.in_flight() {
                wanted as nat
            } else {
                self@.in_flight()
            }),
            found.1 == self@.consumer,
            self@.wf(),
    {
        let queued = self.in_flight();
        let count = if wanted <= queued as usize {
            wanted as u32
        } else {
            queued
        };
        (count, self.consumer)
    }

    /// Reads the queued descriptor that the cursor `idx` stands for.
    pub fn read(&self, idx: u32) -> (desc: Descriptor)
        requires
            distance(self@.consumer, idx as nat) < self@.in_flight(),
        ensures
            desc == self@.queued[distance(self@.consumer, idx as nat) as int],
    {
        proof {
            use_type_invariant(self);
            self.lemma_view();
            lemma_mask_is_slot(idx, (self.mask + 1) as u32);
            let k = distance(self.consumer as nat, idx as nat) as int;
            lemma_wraps_are_laps(idx - (self.consumer + k), self.slots@.len());
            lemma_same_slot(idx as int, self.consumer + k, self.slots@.len());
        }
        self.slots[(idx & self.mask) as usize]
    }

    /// Moves the consumer cursor on by `n`, which drops the `n` oldest
    /// descriptors and frees their slots.
    pub fn release(&mut self, n: u32)
        requires
            n <= old(self)@.in_flight(),
        ensures
            final(self)@ == old(self)@.release(n as nat),
            final(self)@.wf(),
    {
        let ghost slots = self.slots@;
        let ghost p = self.producer as int;
        let ghost c = self.consumer as int;
        let ghost used = distance(self.consumer as nat, self.producer as nat);
        let ghost free = (slots.len() - used) as nat;
        let next = self.consumer.wrapping_add(n);
        proof {
            use_type_invariant(&*self);
            self.lemma_view();
            assert(distance(next as nat, p as nat) == used - n);
            lemma_wraps_are_laps(next - (c + n), slots.len());
            lemma_window_split(slots, c, n as nat, (used - n) as nat);
            lemma_window_same(slots, next as int, c + n, (used - n) as nat);
            lemma_window_split(slots, p, free, n as nat);
            lemma_mod_add_multiples_vanish(p - c - used, slots.len() as int);
            assert(p + free - c == slots.len() + (p - c - used));
            lemma_window_same(slots, p + free, c, n as nat);
        }
        self.consumer = next;
    }

    /// Takes up to `wanted` descriptors off the ring, oldest first, appends
    /// them to `out` and returns how many they were: `wanted` where so many
    /// were in flight, else all that were. Their slots are free afterwards.
    pub fn consume(&mut self, wanted: usize, out: &mut Vec<Descriptor>) -> (count: usize)
        ensures
            count == old(self)@.found(wanted as nat),
            final(self)@ == old(self)@.consume(wanted as nat),
            final(self)@.wf(),
            final(out)@ == old(out)@ + old(self)@.queued.take(count as int),
    {
        let (cnt, idx) = self.peek(wanted);
        let mut i: u32 = 0;
        while i < cnt
            invariant
                0 <= i <= cnt,
                cnt <= self@.in_flight(),
                idx == self@.consumer,
                self@ == old(self)@,
                self@.wf(),
                out@ == old(out)@ + self@.queued.take(i as int),
            decreases cnt - i,
        {
            let desc = self.read(idx.wrapping_add(i));
            out.push(desc);
            i += 1;
            proof {
                assert(self@.queued.take(i as int) =~= self@.queued.take(i - 1).push(desc));
            }
        }
        self.release(cnt);
        cnt as usize
    }
}

} // verus!
