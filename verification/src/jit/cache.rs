use vstd::prelude::*;

use std::sync::atomic::{AtomicUsize, Ordering};

verus! {

/// Lock-free code-cache entry used by the JIT: the host address of published
/// machine code, or zero while none is published.
#[derive(Debug, Default)]
pub struct CodeCache {
    pub entry: AtomicUsize,
}

impl CodeCache {
    /// The published code address, read with acquire ordering. The value is
    /// not stated: vstd specifies no value for std's atomic loads, and another
    /// thread may install an address at any time.
    pub fn load(&self) -> usize {
        self.entry.load(Ordering::Acquire)
    }

    /// Publishes the code at host address `code`, with release ordering.
    pub fn install(&self, code: usize) {
        self.entry.store(code, Ordering::Release);
    }
}

} // verus!
