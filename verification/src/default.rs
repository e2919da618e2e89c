//! The lean variant of the counter: bare accumulator cells without
//! padding, lazy identity assignment through the zero sentinel, and a
//! plain one-by-one summation.
//!
//! It trades the padding's protection against false sharing for a smaller
//! footprint; the table sizing, slot selection and arithmetic are the same
//! as the padded counter's, and so are the laws they obey.

use vstd::prelude::*;
use crate::assigner::ThreadShardAssigner;
use crate::model::{
    apply_op, lemma_sum_take_step, lemma_wrap_absorb, lemma_wrap_fixes, sum_int, wrap, wrap_add,
    wrap_total, AddOp,
};
use crate::safe_getters::SafeGetters;
use crate::sizing::{is_pow2, next_pow2, round_up_shards, select_slot, slot_of};

verus! {

/// A sharded counter over bare, unpadded cells.
pub struct ConcurrentCounter {
    cells: Vec<isize>,
}

impl View for ConcurrentCounter {
    type V = Seq<int>;

    /// The counter is modelled as the sequence of its cell values.
    closed spec fn view(&self) -> Seq<int> {
        self.cells@.map(|i: int, c: isize| c as int)
    }
}

impl ConcurrentCounter {
    /// Well-formed: the shard count is a power of two, hence at least one.
    pub open spec fn wf(&self) -> bool {
        is_pow2(self@.len() as int)
    }

    /// Creates a counter with at least `count` cells, rounded up to the
    /// next power of two (a request of 0 behaves as 1), all starting at
    /// zero.
    pub fn new(count: usize) -> (counter: ConcurrentCounter)
        requires
            count <= usize::MAX / 2 + 1,
        ensures
            counter.wf(),
            counter@.len() == next_pow2(count as int),
            forall|j: int| 0 <= j < counter@.len() ==> counter@[j] == 0,
    {
        let n = round_up_shards(count);
        let mut cells: Vec<isize> = Vec::new();
        let mut i: usize = 0;
        while i < n
            invariant
                i <= n,
                cells@.len() == i,
                forall|j: int| 0 <= j < i ==> cells@[j] == 0isize,
            decreases n - i,
        {
            cells.push(0);
            i = i + 1;
        }
        ConcurrentCounter { cells }
    }

    /// Rewinds the shared identity counter, for controlled testing only.
    /// Rewinding while other threads might still be assigning identities
    /// breaks uniqueness: non-reentrant, never production-safe.
    pub fn reset_counter(&self, service: &mut ThreadShardAssigner)
        ensures
            final(service).next_id() == 1,
    {
        service.rewind();
    }

    /// The lazily cached identity of the calling thread. `cached` models
    /// the thread's local storage: it starts at the 0 sentinel, and the
    /// first call fills it with one bump of the shared counter; every
    /// later call reads the cache and leaves the service untouched.
    pub fn thread_id(&self, cached: &mut usize, service: &mut ThreadShardAssigner) -> (id: usize)
        requires
            old(service).next_id() >= 1,
            *old(cached) == 0 ==> old(service).next_id() < usize::MAX,
        ensures
            id == *final(cached),
            id >= 1 || id == *old(cached),
            *old(cached) != 0 ==> id == *old(cached) && final(service).next_id() == old(service).next_id(),
            *old(cached) == 0 ==> id == old(service).next_id() && final(service).next_id()
                == old(service).next_id() + 1,
    {
        if *cached == 0 {
            *cached = service.assign();
        }
        *cached
    }

    /// The number of cells the table holds.
    pub fn shard_count(&self) -> (n: usize)
        ensures
            n == self@.len(),
    {
        self.cells.len()
    }

    /// The value one cell currently holds, for diagnostics and tests.
    pub fn shard_value(&self, idx: usize) -> (v: isize)
        requires
            idx < self@.len(),
        ensures
            v as int == self@[idx as int],
    {
        *self.cells.safely_get(idx)
    }

    /// Adds `value` to the cell selected by the calling thread's lazily
    /// cached identity: one wrapping fetch-add on one cell. The slot index
    /// is masked into range, so the access needs no runtime bounds check.
    pub fn add(&mut self, value: isize, cached: &mut usize, service: &mut ThreadShardAssigner)
        requires
            old(self).wf(),
            old(service).next_id() >= 1,
            *old(cached) == 0 ==> old(service).next_id() < usize::MAX,
        ensures
            final(self).wf(),
            final(self)@ == apply_op(
                old(self)@,
                (AddOp { tid: *final(cached), delta: value as int }),
            ),
            *old(cached) != 0 ==> *final(cached) == *old(cached) && final(service).next_id() == old(service).next_id(),
            *old(cached) == 0 ==> *final(cached) == old(service).next_id() && final(
                service).next_id() == old(service).next_id() + 1,
    {
        let tid = self.thread_id(cached, service);
        let n = self.cells.len();
        let idx = select_slot(tid, n);
        let cell = *self.cells.safely_get(idx);
        let bumped = wrap_add(cell, value);
        self.cells.set(idx, bumped);
        proof {
            assert(self@ =~= old(self)@.update(
                slot_of(tid, old(self)@.len() as int),
                wrap(old(self)@[idx as int] + value),
            ));
        }
    }

    /// The wrapped arithmetic total of all cells, read one by one. Not
    /// linearizable: adds that land during the scan may be partially
    /// reflected.
    pub fn sum(&self) -> (total: isize)
        ensures
            total as int == wrap_total(self@),
    {
        let n = self.cells.len();
        let mut total: isize = 0;
        let mut i: usize = 0;
        proof {
            lemma_wrap_fixes(0);
            assert(self@.take(0) =~= Seq::<int>::empty());
        }
        while i < n
            invariant
                i <= n,
                n == self@.len(),
                n == self.cells@.len(),
                total as int == wrap(sum_int(self@.take(i as int))),
            decreases n - i,
        {
            total = wrap_add(total, *self.cells.safely_get(i));
            proof {
                lemma_sum_take_step(self@, i as int);
                lemma_wrap_absorb(sum_int(self@.take(i as int)), self@[i as int]);
            }
            i = i + 1;
        }
        proof {
            assert(self@.take(n as int) =~= self@);
        }
        total
    }
}

} // verus!
