//! The single seam through which the shard table is read.
//!
//! Such a seam usually checks bounds while developing and skips the check
//! on the optimized hot path. Here the bound is a precondition
//! that the verifier holds every caller to, so the access needs no runtime
//! check at all: a slot masked into a power-of-two table is proven in
//! range before this seam is ever reached.

use vstd::prelude::*;

verus! {

/// Element access whose bound is discharged by proof, not at runtime.
pub trait SafeGetters<T> {
    /// The elements the container holds.
    spec fn elems(&self) -> Seq<T>;

    /// Returns the element at `idx`; the caller proves `idx` in bounds.
    fn safely_get(&self, idx: usize) -> (r: &T)
        requires
            idx < self.elems().len(),
        ensures
            *r == self.elems()[idx as int],
    ;
}

impl<T> SafeGetters<T> for Vec<T> {
    open spec fn elems(&self) -> Seq<T> {
        self@
    }

    fn safely_get(&self, idx: usize) -> (r: &T) {
        &self[idx]
    }
}

impl<T> SafeGetters<T> for [T] {
    open spec fn elems(&self) -> Seq<T> {
        self@
    }

    fn safely_get(&self, idx: usize) -> (r: &T) {
        &self[idx]
    }
}

impl<T, const C: usize> SafeGetters<T> for [T; C] {
    open spec fn elems(&self) -> Seq<T> {
        self@
    }

    fn safely_get(&self, idx: usize) -> (r: &T) {
        &self[idx]
    }
}

} // verus!
