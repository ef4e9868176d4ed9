//! Cursor arithmetic.
//!
//! A ring's two cursors are 32-bit counters that only ever go up and wrap
//! round at 2^32. The slot a cursor stands for is the cursor modulo the
//! ring's capacity. Because the capacity is a power of two it divides 2^32,
//! and the wrap of a cursor never shows in the slots.

use vstd::prelude::*;
use vstd::arithmetic::power2::{pow2, lemma2_to64, lemma_pow2_strictly_increases};
use vstd::arithmetic::div_mod::{lemma_fundamental_div_mod, lemma_mod_multiples_vanish};

verus! {

/// Whether `n` is 1, 2, 4, 8, ...
pub open spec fn is_power_of_two(n: nat) -> bool {
    exists|k: nat| n == pow2(k)
}

/// The cursor `n` steps after `cursor`.
pub open spec fn advance(cursor: nat, n: nat) -> nat {
    ((cursor + n) % 0x1_0000_0000) as nat
}

/// How many steps lead from the cursor `from` to the cursor `to`.
pub open spec fn distance(from: nat, to: nat) -> nat {
    ((to - from) % 0x1_0000_0000) as nat
}

/// The slot that a cursor, or a cursor plus an offset, stands for in a ring
/// of the given capacity.
pub open spec fn slot(cursor: int, capacity: nat) -> int {
    cursor % (capacity as int)
}

/// Whether `n` is one of the thirty-two numbers with a single bit set.
spec fn has_one_bit(n: u32) -> bool {
    n == 0x1 || n == 0x2 || n == 0x4 || n == 0x8 || n == 0x10 || n == 0x20 || n == 0x40 || n
        == 0x80 || n == 0x100 || n == 0x200 || n == 0x400 || n == 0x800 || n == 0x1000 || n
        == 0x2000 || n == 0x4000 || n == 0x8000 || n == 0x1_0000 || n == 0x2_0000 || n == 0x4_0000
        || n == 0x8_0000 || n == 0x10_0000 || n == 0x20_0000 || n == 0x40_0000 || n == 0x80_0000
        || n == 0x100_0000 || n == 0x200_0000 || n == 0x400_0000 || n == 0x800_0000 || n
        == 0x1000_0000 || n == 0x2000_0000 || n == 0x4000_0000 || n == 0x8000_0000
}

/// The powers of two that fit in 32 bits are the numbers with one bit set.
pub(crate) proof fn lemma_one_bit(n: u32)
    ensures
        is_power_of_two(n as nat) <==> (n != 0 && n & ((n - 1) as u32) == 0),
        is_power_of_two(n as nat) ==> 0x1_0000_0000int % (n as int) == 0,
{
    lemma2_to64();
    if is_power_of_two(n as nat) {
        let k = choose|k: nat| n == pow2(k);
        if k >= 32 {
            if k > 32 {
                lemma_pow2_strictly_increases(32, k);
            }
        }
        assert(k < 32);
        assert(k == 0 || k == 1 || k == 2 || k == 3 || k == 4 || k == 5 || k == 6 || k == 7 || k
            == 8 || k == 9 || k == 10 || k == 11 || k == 12 || k == 13 || k == 14 || k == 15 || k
            == 16 || k == 17 || k == 18 || k == 19 || k == 20 || k == 21 || k == 22 || k == 23 || k
            == 24 || k == 25 || k == 26 || k == 27 || k == 28 || k == 29 || k == 30 || k == 31);
        assert(has_one_bit(n));
        assert(n != 0 && n & ((n - 1) as u32) == 0) by (bit_vector)
            requires
                has_one_bit(n),
        ;
    }
    if n != 0 && n & ((n - 1) as u32) == 0 {
        assert(has_one_bit(n)) by (bit_vector)
            requires
                n != 0 && n & ((n - 1) as u32) == 0,
        ;
        assert(is_power_of_two(n as nat));
    }
}

/// Tells whether `n` can be the capacity of a ring.
pub fn is_ring_size(n: u32) -> (b: bool)
    ensures
        b == is_power_of_two(n as nat),
{
    proof {
        lemma_one_bit(n);
    }
    n != 0 && n & (n - 1) == 0
}

/// In a ring whose capacity is a power of two, masking a cursor with the
/// capacity less one gives its slot.
pub(crate) proof fn lemma_mask_is_slot(cursor: u32, capacity: u32)
    requires
        is_power_of_two(capacity as nat),
    ensures
        cursor & ((capacity - 1) as u32) == slot(cursor as int, capacity as nat),
{
    lemma_one_bit(capacity);
    assert(has_one_bit(capacity)) by (bit_vector)
        requires
            capacity != 0 && capacity & ((capacity - 1) as u32) == 0,
    ;
    assert({
        &&& cursor & 0x0u32 == cursor % 0x1u32
        &&& cursor & 0x1u32 == cursor % 0x2u32
        &&& cursor & 0x3u32 == cursor % 0x4u32
        &&& cursor & 0x7u32 == cursor % 0x8u32
        &&& cursor & 0xfu32 == cursor % 0x10u32
        &&& cursor & 0x1fu32 == cursor % 0x20u32
        &&& cursor & 0x3fu32 == cursor % 0x40u32
        &&& cursor & 0x7fu32 == cursor % 0x80u32
        &&& cursor & 0xffu32 == cursor % 0x100u32
        &&& cursor & 0x1ffu32 == cursor % 0x200u32
        &&& cursor & 0x3ffu32 == cursor % 0x400u32
        &&& cursor & 0x7ffu32 == cursor % 0x800u32
        &&& cursor & 0xfffu32 == cursor % 0x1000u32
        &&& cursor & 0x1fffu32 == cursor % 0x2000u32
        &&& cursor & 0x3fffu32 == cursor % 0x4000u32
        &&& cursor & 0x7fffu32 == cursor % 0x8000u32
        &&& cursor & 0xffffu32 == cursor % 0x10000u32
        &&& cursor & 0x1ffffu32 == cursor % 0x20000u32
        &&& cursor & 0x3ffffu32 == cursor % 0x40000u32
        &&& cursor & 0x7ffffu32 == cursor % 0x80000u32
        &&& cursor & 0xfffffu32 == cursor % 0x100000u32
        &&& cursor & 0x1fffffu32 == cursor % 0x200000u32
        &&& cursor & 0x3fffffu32 == cursor % 0x400000u32
        &&& cursor & 0x7fffffu32 == cursor % 0x800000u32
        &&& cursor & 0xffffffu32 == cursor % 0x1000000u32
        &&& cursor & 0x1ffffffu32 == cursor % 0x2000000u32
        &&& cursor & 0x3ffffffu32 == cursor % 0x4000000u32
        &&& cursor & 0x7ffffffu32 == cursor % 0x8000000u32
        &&& cursor & 0xfffffffu32 == cursor % 0x10000000u32
        &&& cursor & 0x1fffffffu32 == cursor % 0x20000000u32
        &&& cursor & 0x3fffffffu32 == cursor % 0x40000000u32
        &&& cursor & 0x7fffffffu32 == cursor % 0x80000000u32
    }) by (bit_vector);
}

/// A count that is a multiple of 2^32 is a whole number of laps round a
/// ring whose capacity is a power of two.
pub(crate) proof fn lemma_wraps_are_laps(d: int, capacity: nat)
    requires
        is_power_of_two(capacity),
        capacity < 0x1_0000_0000,
        d % 0x1_0000_0000 == 0,
    ensures
        d % (capacity as int) == 0,
{
    lemma_one_bit(capacity as u32);
    let c = capacity as int;
    let wraps = d / 0x1_0000_0000;
    let per_wrap = 0x1_0000_0000int / c;
    lemma_fundamental_div_mod(0x1_0000_0000int, c);
    assert(d == wraps * 0x1_0000_0000);
    assert(d == c * (wraps * per_wrap) + 0) by (nonlinear_arith)
        requires
            d == wraps * 0x1_0000_0000,
            0x1_0000_0000int == c * per_wrap,
    ;
    lemma_mod_multiples_vanish(wraps * per_wrap, 0, c);
}

/// Two counts that differ by a whole number of laps stand for the same
/// slot.
pub(crate) proof fn lemma_same_slot(x: int, y: int, capacity: nat)
    requires
        capacity > 0,
        (x - y) % (capacity as int) == 0,
    ensures
        slot(x, capacity) == slot(y, capacity),
{
    let c = capacity as int;
    let laps = (x - y) / c;
    lemma_fundamental_div_mod(x - y, c);
    assert(x == c * laps + y);
    lemma_mod_multiples_vanish(laps, y, c);
}

/// Within one lap, different offsets from the same start stand for
/// different slots.
pub(crate) proof fn lemma_distinct_slots(start: int, a: int, b: int, capacity: nat)
    requires
        0 <= a < capacity,
        0 <= b < capacity,
        a != b,
    ensures
        slot(start + a, capacity) != slot(start + b, capacity),
{
    let c = capacity as int;
    lemma_fundamental_div_mod(start + a, c);
    lemma_fundamental_div_mod(start + b, c);
    let qa = (start + a) / c;
    let qb = (start + b) / c;
    if slot(start + a, capacity) == slot(start + b, capacity) {
        assert(a - b == c * qa - c * qb);
        assert(false) by (nonlinear_arith)
            requires
                a - b == c * qa - c * qb,
                -c < a - b < c,
                a != b,
        ;
    }
}

} // verus!
