//! The cell through which a supervisor publishes its signal strength
//! without a lock.

use std::sync::atomic::{AtomicU64, Ordering};
use vstd::prelude::*;

verus! {

/// A 64-bit floating-point number in an atomic cell, held as its bits.
/// What a load returns depends on the stores of all threads: nothing is
/// promised of it here.
#[derive(Debug)]
pub struct AtomicF64 {
    storage: AtomicU64,
}

impl AtomicF64 {
    /// A cell that holds the number with the bits `bits`.
    pub fn new(bits: u64) -> (cell: Self) {
        Self { storage: AtomicU64::new(bits) }
    }

    /// Stores the number with the bits `bits`. The ordering is one that a
    /// store can have.
    pub fn store(&self, bits: u64, ordering: Ordering)
        requires
            ordering != Ordering::Acquire,
            ordering != Ordering::AcqRel,
    {
        self.storage.store(bits, ordering)
    }

    /// The bits of the number that the cell holds. The ordering is one that
    /// a load can have.
    pub fn load(&self, ordering: Ordering) -> (bits: u64)
        requires
            ordering != Ordering::Release,
            ordering != Ordering::AcqRel,
    {
        self.storage.load(ordering)
    }
}

} // verus!
