//! The sharded counter.
//!
//! A `ConcurrentCounter` owns a fixed table of cache-padded accumulator
//! cells, sized to a power of two, so the hot path can select a cell with a
//! bitwise mask instead of a division. An `add` lands its delta in the cell
//! that the calling thread's identity selects; `sum` walks every cell and
//! returns the wrapped arithmetic total.

use vstd::prelude::*;
use crate::assigner::ThreadIdentity;
use crate::decimal::{dec_rep_int, push_decimal, push_decimal_signed};
use crate::model::{
    apply_op, lemma_sum_take_step, lemma_wrap_absorb, lemma_wrap_fixes, sum_int, wrap, wrap_add,
    wrap_total, AddOp,
};
use crate::safe_getters::SafeGetters;
use crate::sizing::{is_pow2, next_pow2, round_up_shards, select_slot, slot_of};
use crate::utils::{make_new_padded_counter, CachePadded};

verus! {

/// The strength of memory ordering a caller asks of one operation.
///
/// Pure counting needs no cross-thread visibility order, so `Relaxed` is
/// the default; the stronger levels exist for callers that order the
/// counter's updates against other memory operations of their own. The
/// hint never changes the value an operation computes, only how strongly
/// the hardware would be asked to order it.
#[derive(Clone, Copy, PartialEq, Eq, Structural, Debug)]
pub enum OrderingHint {
    /// Atomicity only: the fastest level, enough for pure counting.
    Relaxed,
    /// Cross-thread visibility ordering for paired writes and reads.
    AcquireRelease,
    /// One global order across all sequentially-ordered operations.
    Sequential,
}

/// A sharded counter: a fixed, power-of-two-sized table of cache-padded
/// accumulator cells. Its logical value is never stored anywhere; it is
/// the sum of all cells at the instant of reading.
pub struct ConcurrentCounter {
    cells: Vec<CachePadded<isize>>,
}

impl View for ConcurrentCounter {
    type V = Seq<int>;

    /// The counter is modelled as the sequence of its cell values.
    closed spec fn view(&self) -> Seq<int> {
        self.cells@.map(|i: int, c: CachePadded<isize>| c.value as int)
    }
}

/// The diagnostic line `sum()` and the shard count render to.
pub open spec fn describe_spec(total: int, count: int) -> Seq<char> {
    "ConcurrentCounter { sum: "@ + dec_rep_int(total) + ", cells: "@ + dec_rep_int(count) + " }"@
}

impl ConcurrentCounter {
    /// Well-formed: the shard count is a power of two, hence at least one.
    pub open spec fn wf(&self) -> bool {
        is_pow2(self@.len() as int)
    }

    /// Creates a counter with at least `count` shards, rounded up to the
    /// next power of two (a request of 0 behaves as 1): the slot of an
    /// identity is then a bitwise mask instead of a modulus. Every cell
    /// starts at zero.
    pub fn new(count: usize) -> (counter: ConcurrentCounter)
        requires
            count <= usize::MAX / 2 + 1,
        ensures
            counter.wf(),
            counter@.len() == next_pow2(count as int),
            forall|j: int| 0 <= j < counter@.len() ==> counter@[j] == 0,
    {
        let n = round_up_shards(count);
        let mut cells: Vec<CachePadded<isize>> = Vec::new();
        let mut i: usize = 0;
        while i < n
            invariant
                i <= n,
                cells@.len() == i,
                forall|j: int| 0 <= j < i ==> cells@[j].value == 0,
            decreases n - i,
        {
            cells.push(make_new_padded_counter());
            i = i + 1;
        }
        ConcurrentCounter { cells }
    }

    /// The number of shards the table holds.
    pub fn shard_count(&self) -> (n: usize)
        ensures
            n == self@.len(),
    {
        self.cells.len()
    }

    /// The value one shard currently holds, for diagnostics and tests.
    pub fn shard_value(&self, idx: usize) -> (v: isize)
        requires
            idx < self@.len(),
        ensures
            v as int == self@[idx as int],
    {
        self.cells.safely_get(idx).value
    }

    /// Adds `value` to the shard that `who` selects, with relaxed
    /// ordering: the one hot-path write, a single wrapping fetch-add on
    /// one cell, never a lock.
    pub fn add(&mut self, value: isize, who: &ThreadIdentity)
        requires
            old(self).wf(),
        ensures
            final(self).wf(),
            final(self)@ == apply_op(old(self)@, (AddOp { tid: who.id_spec(), delta: value as int })),
    {
        self.add_with_ordering(value, OrderingHint::Relaxed, who)
    }

    /// Adds `value` to the shard that `who` selects, asking the hardware
    /// for the given ordering strength. The cell the delta lands in is
    /// `who`'s identity masked by the table size; no other cell moves.
    pub fn add_with_ordering(&mut self, value: isize, ordering: OrderingHint, who: &ThreadIdentity)
        requires
            old(self).wf(),
        ensures
            final(self).wf(),
            final(self)@ == apply_op(old(self)@, (AddOp { tid: who.id_spec(), delta: value as int })),
    {
        let n = self.cells.len();
        let idx = select_slot(who.id(), n);
        let cell = self.cells.safely_get(idx);
        let bumped = wrap_add(cell.value, value);
        self.cells.set(idx, CachePadded::new(bumped));
        proof {
            assert(self@ =~= old(self)@.update(
                slot_of(who.id_spec(), old(self)@.len() as int),
                wrap(old(self)@[idx as int] + value),
            ));
        }
    }

    /// The wrapped arithmetic total of all shards, read with relaxed
    /// ordering. The scan is not linearizable: concurrent adds during it
    /// may be partially reflected.
    pub fn sum(&self) -> (total: isize)
        ensures
            total as int == wrap_total(self@),
    {
        self.sum_with_ordering(OrderingHint::Relaxed)
    }

    /// The wrapped arithmetic total of all shards, read with the given
    /// ordering strength. The accumulation is manually unrolled — eight
    /// shards per step, then the remainder one by one — purely for
    /// instruction-level parallelism; it returns exactly what summing the
    /// cells one by one returns.
    pub fn sum_with_ordering(&self, ordering: OrderingHint) -> (total: isize)
        ensures
            total as int == wrap_total(self@),
    {
        let n = self.cells.len();
        let mut total: isize = 0;
        let mut i: usize = 0;
        proof {
            lemma_wrap_fixes(0);
            assert(self@.take(0) =~= Seq::<int>::empty());
        }
        while n - i >= 8
            invariant
                i <= n,
                n == self@.len(),
                n == self.cells@.len(),
                total as int == wrap(sum_int(self@.take(i as int))),
            decreases n - i,
        {
            total = wrap_add(total, self.cells.safely_get(i).value);
            proof {
                lemma_sum_take_step(self@, i as int);
                lemma_wrap_absorb(sum_int(self@.take(i as int)), self@[i as int]);
            }
            total = wrap_add(total, self.cells.safely_get(i + 1).value);
            proof {
                lemma_sum_take_step(self@, i + 1);
                lemma_wrap_absorb(sum_int(self@.take(i + 1)), self@[i + 1]);
            }
            total = wrap_add(total, self.cells.safely_get(i + 2).value);
            proof {
                lemma_sum_take_step(self@, i + 2);
                lemma_wrap_absorb(sum_int(self@.take(i + 2)), self@[i + 2]);
            }
            total = wrap_add(total, self.cells.safely_get(i + 3).value);
            proof {
                lemma_sum_take_step(self@, i + 3);
                lemma_wrap_absorb(sum_int(self@.take(i + 3)), self@[i + 3]);
            }
            total = wrap_add(total, self.cells.safely_get(i + 4).value);
            proof {
                lemma_sum_take_step(self@, i + 4);
                lemma_wrap_absorb(sum_int(self@.take(i + 4)), self@[i + 4]);
            }
            total = wrap_add(total, self.cells.safely_get(i + 5).value);
            proof {
                lemma_sum_take_step(self@, i + 5);
                lemma_wrap_absorb(sum_int(self@.take(i + 5)), self@[i + 5]);
            }
            total = wrap_add(total, self.cells.safely_get(i + 6).value);
            proof {
                lemma_sum_take_step(self@, i + 6);
                lemma_wrap_absorb(sum_int(self@.take(i + 6)), self@[i + 6]);
            }
            total = wrap_add(total, self.cells.safely_get(i + 7).value);
            proof {
                lemma_sum_take_step(self@, i + 7);
                lemma_wrap_absorb(sum_int(self@.take(i + 7)), self@[i + 7]);
            }
            i = i + 8;
        }
        while i < n
            invariant
                i <= n,
                n == self@.len(),
                n == self.cells@.len(),
                total as int == wrap(sum_int(self@.take(i as int))),
            decreases n - i,
        {
            total = wrap_add(total, self.cells.safely_get(i).value);
            proof {
                lemma_sum_take_step(self@, i as int);
                lemma_wrap_absorb(sum_int(self@.take(i as int)), self@[i as int]);
            }
            i = i + 1;
        }
        proof {
            assert(self@.take(n as int) =~= self@);
        }
        total
    }

    /// A diagnostic line showing the current best-effort total and the
    /// shard count — not the raw per-shard values.
    pub fn describe(&self) -> (text: String)
        ensures
            text@ == describe_spec(wrap_total(self@), self@.len() as int),
    {
        let total = self.sum();
        let count = self.cells.len();
        let mut text = String::new();
        text.append("ConcurrentCounter { sum: ");
        push_decimal_signed(total, &mut text);
        text.append(", cells: ");
        push_decimal(count, &mut text);
        text.append(" }");
        text
    }
}

} // verus!
