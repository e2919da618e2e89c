//! The mathematical model of the counter.
//!
//! A counter is modelled as the sequence of its cell values. An `add` call is
//! an [`AddOp`]: the identity that issued it and the delta it carried. This
//! module defines how a history of calls transforms the cells, and proves the
//! laws of the design: every delta is counted exactly once, shards are
//! isolated from one another, and the outcome does not depend on the order in
//! which the calls landed.

use vstd::prelude::*;
use vstd::arithmetic::div_mod::{
    lemma_add_mod_noop_right, lemma_mod_add_multiples_vanish, lemma_mod_division_less_than_divisor,
    lemma_mod_sub_multiples_vanish, lemma_small_mod,
};
use crate::sizing::slot_of;

verus! {

/// The number of distinct `isize` values; cell arithmetic wraps modulo this
/// span, exactly as a hardware fetch-add does.
pub open spec fn span() -> int {
    (isize::MAX - isize::MIN) + 1
}

/// Whether `v` is a value an `isize` cell can hold.
pub open spec fn fits_isize(v: int) -> bool {
    isize::MIN <= v <= isize::MAX
}

/// `v` reduced into the `isize` range modulo the span: the value a cell is
/// left with when the exact result would overflow.
pub open spec fn wrap(v: int) -> int {
    (v - isize::MIN) % span() + isize::MIN
}

pub proof fn lemma_wrap_in_range(v: int)
    ensures
        fits_isize(wrap(v)),
{
    lemma_mod_division_less_than_divisor(v - isize::MIN, span());
}

pub proof fn lemma_wrap_fixes(v: int)
    requires
        fits_isize(v),
    ensures
        wrap(v) == v,
{
    lemma_small_mod((v - isize::MIN) as nat, span() as nat);
}

/// Wrapping an intermediate result does not change the final wrapped value:
/// the cell updates compose modulo the span.
pub proof fn lemma_wrap_absorb(a: int, b: int)
    ensures
        wrap(wrap(a) + b) == wrap(a + b),
{
    let m = span();
    lemma_add_mod_noop_right(b, a - isize::MIN, m);
    assert(wrap(a) + b - isize::MIN == b + (a - isize::MIN) % m);
}

/// Relates the standard library's wrapping addition to `wrap`.
proof fn lemma_wrapping_add_is_wrap(a: isize, b: isize)
    ensures
        vstd::wrapping::isize_specs::wrapping_add(a, b) as int == wrap(a + b),
{
    let m = span();
    if a + b > isize::MAX {
        lemma_mod_sub_multiples_vanish(a + b - isize::MIN, m);
        lemma_small_mod((a + b - isize::MIN - m) as nat, m as nat);
    } else if a + b < isize::MIN {
        lemma_mod_add_multiples_vanish(a + b - isize::MIN, m);
        lemma_small_mod((a + b - isize::MIN + m) as nat, m as nat);
    } else {
        lemma_wrap_fixes(a + b);
    }
}

/// Adds two cell values with the wrap-around of a hardware fetch-add.
pub fn wrap_add(a: isize, b: isize) -> (r: isize)
    ensures
        r as int == wrap(a + b),
{
    proof {
        lemma_wrapping_add_is_wrap(a, b);
    }
    a.wrapping_add(b)
}

/// The exact sum of a sequence of cell values.
pub open spec fn sum_int(s: Seq<int>) -> int
    decreases s.len(),
{
    if s.len() == 0 {
        0
    } else {
        sum_int(s.drop_last()) + s.last()
    }
}

/// What reading the whole table returns: the wrapped total of the cells.
pub open spec fn wrap_total(s: Seq<int>) -> int {
    wrap(sum_int(s))
}

pub proof fn lemma_sum_take_step(s: Seq<int>, i: int)
    requires
        0 <= i < s.len(),
    ensures
        sum_int(s.take(i + 1)) == sum_int(s.take(i)) + s[i],
{
    assert(s.take(i + 1).drop_last() =~= s.take(i));
}

pub proof fn lemma_sum_update(s: Seq<int>, j: int, v: int)
    requires
        0 <= j < s.len(),
    ensures
        sum_int(s.update(j, v)) == sum_int(s) - s[j] + v,
    decreases s.len(),
{
    let t = s.update(j, v);
    if j == s.len() - 1 {
        assert(t.drop_last() =~= s.drop_last());
    } else {
        assert(t.drop_last() =~= s.drop_last().update(j, v));
        assert(t.last() == s.last());
        lemma_sum_update(s.drop_last(), j, v);
    }
}

pub proof fn lemma_sum_zeros(s: Seq<int>)
    requires
        forall|i: int| 0 <= i < s.len() ==> s[i] == 0,
    ensures
        sum_int(s) == 0,
    decreases s.len(),
{
    if s.len() > 0 {
        lemma_sum_zeros(s.drop_last());
    }
}

/// The cells of a freshly constructed table: `n` shards, all zero.
pub open spec fn zero_cells(n: usize) -> Seq<int> {
    Seq::new(n as nat, |i: int| 0)
}

/// One `add` call: the thread identity that issued it and its delta.
pub struct AddOp {
    pub tid: usize,
    pub delta: int,
}

/// Every delta of the history is a value an `isize` argument can carry.
pub open spec fn deltas_fit(ops: Seq<AddOp>) -> bool {
    forall|i: int| 0 <= i < ops.len() ==> fits_isize(ops[i].delta)
}

/// Every cell value is one an `isize` cell can hold.
pub open spec fn cells_fit(cells: Seq<int>) -> bool {
    forall|i: int| 0 <= i < cells.len() ==> fits_isize(cells[i])
}

/// The cells after one `add`: the issuing identity's slot gains the delta,
/// wrapping as the hardware does; no other slot moves.
pub open spec fn apply_op(cells: Seq<int>, op: AddOp) -> Seq<int> {
    let j = slot_of(op.tid, cells.len() as int);
    cells.update(j, wrap(cells[j] + op.delta))
}

/// The cells after a whole history of `add` calls, applied in order.
pub open spec fn apply_ops(cells: Seq<int>, ops: Seq<AddOp>) -> Seq<int>
    decreases ops.len(),
{
    if ops.len() == 0 {
        cells
    } else {
        apply_ops(apply_op(cells, ops.first()), ops.drop_first())
    }
}

/// The grand total a history asks for: the exact sum of all its deltas.
pub open spec fn delta_total(ops: Seq<AddOp>) -> int
    decreases ops.len(),
{
    if ops.len() == 0 {
        0
    } else {
        ops.first().delta + delta_total(ops.drop_first())
    }
}

/// The part of the grand total aimed at slot `j` of a table of `n` shards.
pub open spec fn delta_for_slot(ops: Seq<AddOp>, j: int, n: int) -> int
    decreases ops.len(),
{
    if ops.len() == 0 {
        0
    } else {
        (if slot_of(ops.first().tid, n) == j {
            ops.first().delta
        } else {
            0
        }) + delta_for_slot(ops.drop_first(), j, n)
    }
}

pub proof fn lemma_apply_ops_len(cells: Seq<int>, ops: Seq<AddOp>)
    requires
        cells.len() >= 1,
    ensures
        apply_ops(cells, ops).len() == cells.len(),
    decreases ops.len(),
{
    if ops.len() > 0 {
        lemma_mod_division_less_than_divisor(ops.first().tid as int, cells.len() as int);
        lemma_apply_ops_len(apply_op(cells, ops.first()), ops.drop_first());
    }
}

/// Shards are isolated: a shard's final value is its initial value plus
/// exactly the deltas the history aimed at its slot, wrapped. In particular,
/// when each live identity has a slot of its own, each shard ends at exactly
/// what its own thread added.
pub proof fn lemma_per_shard_value(cells: Seq<int>, ops: Seq<AddOp>, j: int)
    requires
        cells.len() >= 1,
        cells_fit(cells),
        0 <= j < cells.len(),
    ensures
        apply_ops(cells, ops)[j] == wrap(cells[j] + delta_for_slot(ops, j, cells.len() as int)),
    decreases ops.len(),
{
    let n = cells.len() as int;
    if ops.len() == 0 {
        lemma_wrap_fixes(cells[j]);
    } else {
        let op = ops.first();
        let k = slot_of(op.tid, n);
        lemma_mod_division_less_than_divisor(op.tid as int, n);
        let c1 = apply_op(cells, op);
        lemma_wrap_in_range(cells[k] + op.delta);
        lemma_per_shard_value(c1, ops.drop_first(), j);
        if k == j {
            lemma_wrap_absorb(cells[j] + op.delta, delta_for_slot(ops.drop_first(), j, n));
        }
    }
}

/// Summing the table counts every delta exactly once: after any history, in
/// any order and from any mix of identities, the wrapped total of the cells
/// is the wrapped sum of the initial total and the grand total of deltas.
pub proof fn lemma_total_counts_all(cells: Seq<int>, ops: Seq<AddOp>)
    requires
        cells.len() >= 1,
    ensures
        wrap_total(apply_ops(cells, ops)) == wrap(sum_int(cells) + delta_total(ops)),
    decreases ops.len(),
{
    if ops.len() == 0 {
    } else {
        let op = ops.first();
        let n = cells.len() as int;
        let j = slot_of(op.tid, n);
        lemma_mod_division_less_than_divisor(op.tid as int, n);
        let c1 = apply_op(cells, op);
        lemma_sum_update(cells, j, wrap(cells[j] + op.delta));
        lemma_total_counts_all(c1, ops.drop_first());
        lemma_wrap_absorb(
            cells[j] + op.delta,
            sum_int(cells) - cells[j] + delta_total(ops.drop_first()),
        );
    }
}

/// No lost updates: a fresh table driven by any number of unit adds, from
/// any mix of thread identities, reads back exactly the number of adds.
pub proof fn lemma_unit_adds_all_counted(n: usize, ops: Seq<AddOp>)
    requires
        n >= 1,
        forall|i: int| 0 <= i < ops.len() ==> ops[i].delta == 1,
        ops.len() <= isize::MAX,
    ensures
        wrap_total(apply_ops(zero_cells(n), ops)) == ops.len(),
{
    lemma_total_counts_all(zero_cells(n), ops);
    lemma_sum_zeros(zero_cells(n));
    lemma_unit_deltas_total(ops);
    lemma_wrap_fixes(ops.len() as int);
}

proof fn lemma_unit_deltas_total(ops: Seq<AddOp>)
    requires
        forall|i: int| 0 <= i < ops.len() ==> ops[i].delta == 1,
    ensures
        delta_total(ops) == ops.len(),
    decreases ops.len(),
{
    if ops.len() > 0 {
        lemma_unit_deltas_total(ops.drop_first());
    }
}

/// A fresh table driven from a single thread reads back the exact sum of the
/// deltas it added, as long as that exact sum fits an `isize`.
pub proof fn lemma_single_thread_exact(n: usize, ops: Seq<AddOp>, tid: usize)
    requires
        n >= 1,
        forall|i: int| 0 <= i < ops.len() ==> ops[i].tid == tid,
        deltas_fit(ops),
        fits_isize(delta_total(ops)),
    ensures
        wrap_total(apply_ops(zero_cells(n), ops)) == delta_total(ops),
{
    lemma_total_counts_all(zero_cells(n), ops);
    lemma_sum_zeros(zero_cells(n));
    lemma_wrap_fixes(delta_total(ops));
}

proof fn lemma_delta_for_slot_remove(ops: Seq<AddOp>, i: int, j: int, n: int)
    requires
        0 <= i < ops.len(),
    ensures
        delta_for_slot(ops, j, n) == (if slot_of(ops[i].tid, n) == j {
            ops[i].delta
        } else {
            0
        }) + delta_for_slot(ops.remove(i), j, n),
    decreases ops.len(),
{
    if i == 0 {
        assert(ops.remove(0) =~= ops.drop_first());
    } else {
        assert(ops.remove(i).drop_first() =~= ops.drop_first().remove(i - 1));
        lemma_delta_for_slot_remove(ops.drop_first(), i - 1, j, n);
    }
}

proof fn lemma_delta_for_slot_permutation(ops1: Seq<AddOp>, ops2: Seq<AddOp>, j: int, n: int)
    requires
        ops1.to_multiset() == ops2.to_multiset(),
    ensures
        delta_for_slot(ops1, j, n) == delta_for_slot(ops2, j, n),
    decreases ops1.len(),
{
    ops1.to_multiset_ensures();
    ops2.to_multiset_ensures();
    if ops1.len() == 0 {
        assert(ops2.len() == 0);
    } else {
        let x = ops1.first();
        assert(ops1.contains(x));
        assert(ops2.to_multiset().count(x) > 0);
        assert(ops2.contains(x));
        let i = choose|i: int| 0 <= i < ops2.len() && ops2[i] == x;
        lemma_delta_for_slot_remove(ops2, i, j, n);
        assert(ops1.remove(0) =~= ops1.drop_first());
        assert(ops1.remove(0).to_multiset() =~= ops1.to_multiset().remove(x));
        assert(ops2.remove(i).to_multiset() =~= ops2.to_multiset().remove(x));
        lemma_delta_for_slot_permutation(ops1.drop_first(), ops2.remove(i), j, n);
    }
}

/// The outcome is invariant under the order of the adds: two histories with
/// the same multiset of calls leave every shard — and hence the total — the
/// same. The accumulation is commutative and associative.
pub proof fn lemma_order_invariant(cells: Seq<int>, ops1: Seq<AddOp>, ops2: Seq<AddOp>)
    requires
        cells.len() >= 1,
        cells_fit(cells),
        ops1.to_multiset() == ops2.to_multiset(),
    ensures
        apply_ops(cells, ops1) =~= apply_ops(cells, ops2),
{
    lemma_apply_ops_len(cells, ops1);
    lemma_apply_ops_len(cells, ops2);
    assert forall|j: int| 0 <= j < cells.len() implies apply_ops(cells, ops1)[j] == apply_ops(
        cells,
        ops2,
    )[j] by {
        lemma_per_shard_value(cells, ops1, j);
        lemma_per_shard_value(cells, ops2, j);
        lemma_delta_for_slot_permutation(ops1, ops2, j, cells.len() as int);
    }
}

/// The unrolled grouping of the summation: eight cells per step, then the
/// remainder one by one.
pub open spec fn sum_int_unrolled(s: Seq<int>) -> int
    decreases s.len(),
{
    if s.len() >= 8 {
        s[0] + s[1] + s[2] + s[3] + s[4] + s[5] + s[6] + s[7] + sum_int_unrolled(s.skip(8))
    } else {
        sum_int(s)
    }
}

pub proof fn lemma_sum_split(s: Seq<int>, k: int)
    requires
        0 <= k <= s.len(),
    ensures
        sum_int(s) == sum_int(s.take(k)) + sum_int(s.skip(k)),
    decreases s.len(),
{
    if k == s.len() {
        assert(s.take(k) =~= s);
        assert(s.skip(k) =~= Seq::<int>::empty());
    } else {
        lemma_sum_split(s.drop_last(), k);
        assert(s.drop_last().take(k) =~= s.take(k));
        assert(s.drop_last().skip(k) =~= s.skip(k).drop_last());
        assert(s.skip(k).last() == s.last());
    }
}

/// Unrolled and one-by-one summation agree on every table, whatever the
/// shard count and contents — including counts that are no multiple of the
/// unroll factor.
pub proof fn lemma_unrolled_matches_naive(s: Seq<int>)
    ensures
        sum_int_unrolled(s) == sum_int(s),
    decreases s.len(),
{
    if s.len() >= 8 {
        lemma_unrolled_matches_naive(s.skip(8));
        lemma_sum_split(s, 8);
        lemma_sum_take_step(s, 7);
        lemma_sum_take_step(s, 6);
        lemma_sum_take_step(s, 5);
        lemma_sum_take_step(s, 4);
        lemma_sum_take_step(s, 3);
        lemma_sum_take_step(s, 2);
        lemma_sum_take_step(s, 1);
        lemma_sum_take_step(s, 0);
        assert(sum_int(s.take(0)) == 0) by {
            assert(s.take(0) =~= Seq::<int>::empty());
        }
    }
}

} // verus!
