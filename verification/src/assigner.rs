//! Thread identity assignment.
//!
//! Each thread of execution gets a stable small integer that selects its
//! shard. One shared counter, seeded at 1, is bumped exactly once per
//! thread; 0 is reserved as the "not yet assigned" sentinel, so a zeroed
//! per-thread cache slot means the identity is still owed. The bump is a
//! single increment, never a compare-and-swap retry loop, so assignment is
//! wait-free, and its contract hands out strictly increasing identities:
//! two assignments can never collide.

use vstd::prelude::*;

verus! {

/// The identity-assignment service. It owns the shared counter from which
/// every thread identity is drawn; keeping it an explicit object, rather
/// than ambient global state, keeps the construct independently testable.
pub struct ThreadShardAssigner {
    next: usize,
}

impl ThreadShardAssigner {
    /// The identity the next first-time thread will receive.
    pub closed spec fn next_id(&self) -> usize {
        self.next
    }

    /// A fresh service: identities start at 1, leaving 0 as the sentinel.
    pub fn new() -> (service: ThreadShardAssigner)
        ensures
            service.next_id() == 1,
    {
        ThreadShardAssigner { next: 1 }
    }

    /// Hands out the next identity with a single bump of the shared
    /// counter. Identities are strictly increasing, so every live thread's
    /// identity is unique.
    pub fn assign(&mut self) -> (id: usize)
        requires
            old(self).next_id() >= 1,
            old(self).next_id() < usize::MAX,
        ensures
            id == old(self).next_id(),
            final(self).next_id() == id + 1,
            id >= 1,
    {
        let id = self.next;
        self.next = self.next + 1;
        id
    }

    /// Rewinds the shared counter, for controlled testing only. Rewinding
    /// while other threads might still be assigning identities breaks
    /// uniqueness: non-reentrant, never production-safe.
    pub fn rewind(&mut self)
        ensures
            final(self).next_id() == 1,
    {
        self.next = 1;
    }
}

/// A thread's stable identity: assigned once, cached by its owning thread,
/// and unchanged for the thread's lifetime.
pub struct ThreadIdentity {
    id: usize,
}

impl ThreadIdentity {
    /// The small integer that selects this thread's shard.
    pub closed spec fn id_spec(&self) -> usize {
        self.id
    }

    /// Eager assignment: run once by the owning thread's local storage
    /// initializer, the first time that thread touches the counter.
    pub fn obtain(service: &mut ThreadShardAssigner) -> (who: ThreadIdentity)
        requires
            old(service).next_id() >= 1,
            old(service).next_id() < usize::MAX,
        ensures
            who.id_spec() == old(service).next_id(),
            final(service).next_id() == old(service).next_id() + 1,
            who.id_spec() >= 1,
    {
        let id = service.assign();
        ThreadIdentity { id }
    }

    /// The raw identity value.
    pub fn id(&self) -> (id: usize)
        ensures
            id == self.id_spec(),
    {
        self.id
    }
}

} // verus!
