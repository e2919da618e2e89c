//! Shard-table sizing and slot selection.
//!
//! The table always holds a power of two number of shards, so the slot of a
//! thread identity can be computed as `tid & (n - 1)` instead of `tid % n`.
//! This module defines what a power of two is, which size a requested shard
//! count rounds up to, and proves that the bitwise mask agrees with the
//! modulus.

use vstd::prelude::*;
use vstd::arithmetic::power2::{
    pow2, lemma_pow2_unfold, lemma_pow2_strictly_increases, lemma2_to64, lemma2_to64_rest,
};
use vstd::bits::{low_bits_mask, lemma_usize_low_bits_mask_is_mod};

verus! {

/// A power of two: 1, 2, 4, 8, ...
pub open spec fn is_pow2(n: int) -> bool
    decreases n,
{
    if n < 1 {
        false
    } else if n == 1 {
        true
    } else {
        n % 2 == 0 && is_pow2(n / 2)
    }
}

/// The smallest power of two that is at least `max(k, 1)`.
pub open spec fn next_pow2(k: int) -> int
    decreases k,
{
    if k <= 1 {
        1
    } else {
        2 * next_pow2((k + 1) / 2)
    }
}

/// `next_pow2(k)` is a power of two no smaller than `max(k, 1)`.
pub proof fn lemma_next_pow2_bounds(k: int)
    ensures
        is_pow2(next_pow2(k)),
        next_pow2(k) >= k,
        next_pow2(k) >= 1,
    decreases k,
{
    if k > 1 {
        lemma_next_pow2_bounds((k + 1) / 2);
    }
}

/// A shard table sized by `next_pow2` is the smallest table that fits: no
/// power of two that covers the requested count `k` is smaller than
/// `next_pow2(k)`.
pub proof fn lemma_next_pow2_least(k: int, q: int)
    requires
        is_pow2(q),
        q >= k,
    ensures
        q >= next_pow2(k),
    decreases k,
{
    if k > 1 {
        let h = (k + 1) / 2;
        assert(2 * h >= k);
        assert(q % 2 == 0);
        assert(q / 2 >= h);
        lemma_next_pow2_least(h, q / 2);
    }
}

/// Between two distinct powers of two there is at least a factor of two.
pub proof fn lemma_pow2_gap(p: int, q: int)
    requires
        is_pow2(p),
        is_pow2(q),
        p < q,
    ensures
        2 * p <= q,
    decreases p,
{
    if p > 1 {
        lemma_pow2_gap(p / 2, q / 2);
    }
}

/// Every power of two that a `usize` can hold is `2^e` for an exponent
/// below the word width.
proof fn lemma_pow2_exponent(n: usize) -> (e: nat)
    requires
        is_pow2(n as int),
    ensures
        n == pow2(e),
        e < usize::BITS,
    decreases n,
{
    lemma2_to64();
    lemma2_to64_rest();
    if n == 1 {
        0
    } else {
        let e0 = lemma_pow2_exponent(n / 2);
        let e = e0 + 1;
        lemma_pow2_unfold(e);
        if e >= usize::BITS {
            if usize::BITS < e {
                lemma_pow2_strictly_increases(usize::BITS as nat, e);
            }
            assert(pow2(usize::BITS as nat) == usize::MAX + 1);
            assert(false);
        }
        e
    }
}

/// Masking with `n - 1` is taking the remainder modulo `n`, for a power of
/// two `n`.
pub proof fn lemma_mask_is_mod(tid: usize, n: usize)
    requires
        n >= 1,
        is_pow2(n as int),
    ensures
        tid & ((n - 1) as usize) == tid % n,
{
    let e = lemma_pow2_exponent(n);
    lemma_usize_low_bits_mask_is_mod(tid, e);
    assert(low_bits_mask(e) == n - 1);
}

/// The slot a thread identity selects in a table of `n` shards.
pub open spec fn slot_of(tid: usize, n: int) -> int {
    tid as int % n
}

/// Hot-path slot selection: a single bitwise AND in place of a division.
pub fn select_slot(tid: usize, n: usize) -> (slot: usize)
    requires
        n >= 1,
        is_pow2(n as int),
    ensures
        slot as int == slot_of(tid, n as int),
        slot < n,
{
    proof {
        lemma_mask_is_mod(tid, n);
    }
    tid & (n - 1)
}

/// Rounds a requested shard count up to the next power of two, with a
/// minimum of one. The bound on `count` keeps the doubling inside `usize`.
pub fn round_up_shards(count: usize) -> (n: usize)
    requires
        count <= usize::MAX / 2 + 1,
    ensures
        n as int == next_pow2(count as int),
        is_pow2(n as int),
        n >= 1,
        n >= count,
{
    proof {
        lemma_next_pow2_bounds(count as int);
    }
    let mut n: usize = 1;
    while n < count
        invariant
            count <= usize::MAX / 2 + 1,
            1 <= n,
            is_pow2(n as int),
            n as int <= next_pow2(count as int),
        decreases next_pow2(count as int) - n,
    {
        proof {
            lemma_next_pow2_bounds(count as int);
            lemma_pow2_gap(n as int, next_pow2(count as int));
        }
        n = 2 * n;
    }
    proof {
        lemma_next_pow2_least(count as int, n as int);
    }
    n
}

} // verus!
