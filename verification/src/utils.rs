//! Cache-line padding for the shard slots.

use vstd::prelude::*;

verus! {

/// Pads a value so that the slot spans at least a full cache line
/// (64 bytes, the default when the target is unknown). Independent slots
/// then stay out of each other's lines, so updates to neighbouring shards
/// do not cause cache-coherency traffic for one another — the false
/// sharing the sharded layout exists to avoid.
pub struct CachePadded<T> {
    pub value: T,
    pub pad: [u8; 64],
}

impl<T> CachePadded<T> {
    /// Wraps `value` in a padded slot.
    pub fn new(value: T) -> (slot: CachePadded<T>)
        ensures
            slot.value == value,
    {
        CachePadded { value, pad: [0u8; 64] }
    }
}

/// Builds one padded shard slot holding a zeroed accumulator.
pub fn make_new_padded_counter() -> (slot: CachePadded<isize>)
    ensures
        slot.value == 0isize,
{
    CachePadded::new(0)
}

} // verus!
