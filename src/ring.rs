//! The outside ring buffer that backs the speech buffer, with the contracts
//! its methods are relied on for.

use ringbuffer::{AllocRingBuffer, RingBuffer};
use vstd::prelude::*;

verus! {

#[verifier::external_type_specification]
#[verifier::external_body]
#[verifier::reject_recursive_types(T)]
pub struct ExAllocRingBuffer<T>(AllocRingBuffer<T>);

/// The items a ring holds, oldest first.
pub uninterp spec fn ring_items(r: AllocRingBuffer<u32>) -> Seq<u32>;

/// The capacity a ring was created with.
pub uninterp spec fn ring_capacity(r: AllocRingBuffer<u32>) -> nat;

/// What `push` leaves behind: the item goes to the tail, and when the ring
/// was full its oldest item is dropped first.
pub open spec fn pushed(items: Seq<u32>, cap: nat, x: u32) -> Seq<u32> {
    if items.len() >= cap {
        items.drop_first().push(x)
    } else {
        items.push(x)
    }
}

/// Relies on `AllocRingBuffer::new`: an empty ring of exactly `capacity`
/// items (it panics on zero).
#[verifier::external_body]
pub(crate) fn ring_new(capacity: usize) -> (r: AllocRingBuffer<u32>)
    requires
        capacity > 0,
    ensures
        ring_items(r) == Seq::<u32>::empty(),
        ring_capacity(r) == capacity as nat,
{
    AllocRingBuffer::new(capacity)
}

/// Relies on `RingBuffer::push` of `AllocRingBuffer`: when full, the oldest
/// item is dropped, then the new one is written at the tail.
#[verifier::external_body]
pub(crate) fn ring_push(r: &mut AllocRingBuffer<u32>, x: u32)
    ensures
        ring_capacity(*final(r)) == ring_capacity(*old(r)),
        ring_items(*final(r)) == pushed(ring_items(*old(r)), ring_capacity(*old(r)), x),
{
    r.push(x)
}

/// Relies on `RingBuffer::to_vec`: the items, oldest first.
#[verifier::external_body]
pub(crate) fn ring_to_vec(r: &AllocRingBuffer<u32>) -> (v: Vec<u32>)
    ensures
        v@ == ring_items(*r),
{
    r.to_vec()
}

/// Relies on `RingBuffer::clear`: every item is removed, the capacity stays.
#[verifier::external_body]
pub(crate) fn ring_clear(r: &mut AllocRingBuffer<u32>)
    ensures
        ring_capacity(*final(r)) == ring_capacity(*old(r)),
        ring_items(*final(r)) == Seq::<u32>::empty(),
{
    r.clear()
}

/// Relies on `RingBuffer::len`: the number of items held.
#[verifier::external_body]
pub(crate) fn ring_len(r: &AllocRingBuffer<u32>) -> (n: usize)
    ensures
        n as int == ring_items(*r).len(),
{
    r.len()
}

} // verus!
