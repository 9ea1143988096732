//! The registry behind the host-facing facade: live cache instances,
//! indexed by the small non-negative handle returned at creation.
//!
//! Handles are assigned monotonically and never reused; removal is not
//! offered.  The facade wraps each cache for shared mutable access, so
//! the registry is generic in what it stores.

use vstd::prelude::*;

verus! {

/// A grow-only store of values, addressed by the `u32` position at which
/// each was added.
pub struct CacheContainer<T> {
    caches: Vec<T>,
}

impl<T> CacheContainer<T> {
    /// The values added so far, oldest first.
    pub closed spec fn view(&self) -> Seq<T> {
        self.caches@
    }

    /// An empty registry.
    pub fn new() -> (r: CacheContainer<T>)
        ensures
            r@ == Seq::<T>::empty(),
    {
        CacheContainer { caches: Vec::new() }
    }

    /// Adds a value and returns its handle: the number of values that
    /// were in the registry before it.
    pub fn put(&mut self, cache: T) -> (r: u32)
        requires
            old(self)@.len() < u32::MAX,
        ensures
            final(self)@ == old(self)@.push(cache),
            r == old(self)@.len(),
    {
        self.caches.push(cache);
        (self.caches.len() - 1) as u32
    }

    /// How many values the registry holds — also the next handle.
    pub fn len(&self) -> (r: usize)
        ensures
            r == self@.len(),
    {
        self.caches.len()
    }

    /// Looks a value up by handle; `None` when no value was ever stored
    /// under it.
    pub fn get(&self, index: u32) -> (r: Option<&T>)
        ensures
            (index as int) < self@.len() ==> r == Some(&self@[index as int]),
            (index as int) >= self@.len() ==> r is None,
    {
        if (index as usize) < self.caches.len() {
            Some(&self.caches[index as usize])
        } else {
            None
        }
    }
}

} // verus!
