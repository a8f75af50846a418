//! The handle registry: the only place that owns sessions. A caller holds a
//! handle, a plain number, from the creation of a session to its disconnect,
//! and never a reference into the registry.

use vstd::prelude::*;

verus! {

/// A registry of values, each owned under a handle of its own. Handles start
/// at one, so zero can stand for "no handle", and a handle that was released
/// is never given out again.
pub struct HandleRegistry<V> {
    slots: Vec<Option<V>>,
}

impl<V> HandleRegistry<V> {
    /// The number of handles given out so far.
    pub closed spec fn issued(self) -> nat {
        self.slots@.len()
    }

    /// The live handles with the values they own.
    pub closed spec fn entries(self) -> Map<usize, V> {
        Map::new(
            |handle: usize| 1 <= handle <= self.slots@.len() && self.slots@[handle - 1] is Some,
            |handle: usize| self.slots@[handle - 1]->0,
        )
    }

    /// Every live handle has been given out: it is at least one and at most
    /// the number of handles given out.
    pub proof fn lemma_live_handles_were_issued(self, handle: usize)
        requires
            self.entries().dom().contains(handle),
        ensures
            1 <= handle <= self.issued(),
    {
    }

    /// An empty registry.
    pub fn new() -> (registry: Self)
        ensures
            registry.issued() == 0,
            registry.entries() == Map::<usize, V>::empty(),
    {
        let registry = HandleRegistry { slots: Vec::new() };
        assert(registry.entries() =~= Map::<usize, V>::empty());
        registry
    }

    /// Takes ownership of `value` and returns its handle: the number of
    /// handles given out before, plus one. Returns the value back if no
    /// handle is left.
    pub fn create(&mut self, value: V) -> (created: Result<usize, V>)
        ensures
            match created {
                Ok(handle) => {
                    &&& old(self).issued() < usize::MAX
                    &&& handle == old(self).issued() + 1
                    &&& !old(self).entries().dom().contains(handle)
                    &&& final(self).issued() == handle
                    &&& final(self).entries() == old(self).entries().insert(handle, value)
                },
                Err(returned) => {
                    &&& old(self).issued() == usize::MAX
                    &&& returned == value
                    &&& final(self).issued() == old(self).issued()
                    &&& final(self).entries() == old(self).entries()
                },
            },
    {
        if self.slots.len() == usize::MAX {
            return Err(value);
        }
        self.slots.push(Some(value));
        let handle = self.slots.len();
        assert(self.entries() =~= old(self).entries().insert(handle, value));
        Ok(handle)
    }

    /// Whether `handle` is live.
    pub fn contains(&self, handle: usize) -> (live: bool)
        ensures
            live == self.entries().dom().contains(handle),
    {
        handle >= 1 && handle <= self.slots.len() && self.slots[handle - 1].is_some()
    }

    /// The value that `handle` owns, if the handle is live.
    pub fn get(&self, handle: usize) -> (value: Option<&V>)
        ensures
            value == if self.entries().dom().contains(handle) {
                Some(&self.entries()[handle])
            } else {
                None
            },
    {
        if handle >= 1 && handle <= self.slots.len() {
            self.slots[handle - 1].as_ref()
        } else {
            None
        }
    }

    /// Releases `handle` and returns the value it owned, if the handle was
    /// live. The handle is dead from then on, and stays dead.
    pub fn release(&mut self, handle: usize) -> (value: Option<V>)
        ensures
            value == if old(self).entries().dom().contains(handle) {
                Some(old(self).entries()[handle])
            } else {
                None
            },
            final(self).entries() == old(self).entries().remove(handle),
            final(self).issued() == old(self).issued(),
    {
        if handle >= 1 && handle <= self.slots.len() {
            let mut slot: Option<V> = None;
            self.slots.set_and_swap(handle - 1, &mut slot);
            assert(self.entries() =~= old(self).entries().remove(handle));
            slot
        } else {
            assert(self.entries() =~= old(self).entries().remove(handle));
            None
        }
    }

    /// The number of handles given out so far.
    pub fn issued_count(&self) -> (count: usize)
        ensures
            count == self.issued(),
    {
        self.slots.len()
    }
}

} // verus!
