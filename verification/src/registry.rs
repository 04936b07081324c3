//! The store registry: where storage engines are put so that the code that
//! runs queries can find them again by an opaque handle.

use vstd::prelude::*;

verus! {

/// Names one storage engine of a registry. Handed out by `register`.
#[derive(Debug, Clone, Copy, PartialEq, Eq, Structural)]
pub struct StoreHandle {
    index: usize,
}

impl StoreHandle {
    /// The position of the engine among those of the registry that handed
    /// the handle out.
    pub closed spec fn position(self) -> int {
        self.index as int
    }
}

/// Storage engines in the order in which they were registered. Nothing is
/// ever taken out, so a handle stays good for as long as the registry lives.
#[derive(Debug)]
pub struct StoreRegistry<Q> {
    stores: Vec<Q>,
}

impl<Q> StoreRegistry<Q> {
    /// The registered engines, oldest first.
    pub closed spec fn stores(&self) -> Seq<Q> {
        self.stores@
    }

    /// The registry has an engine under `handle`.
    pub open spec fn holds(&self, handle: StoreHandle) -> bool {
        0 <= handle.position() < self.stores().len()
    }

    /// A registry without engines.
    pub fn new() -> (registry: Self)
        ensures
            registry.stores() == Seq::<Q>::empty(),
    {
        StoreRegistry { stores: Vec::new() }
    }

    /// The number of registered engines.
    pub fn len(&self) -> (n: usize)
        ensures
            n == self.stores().len(),
    {
        self.stores.len()
    }

    /// Adds `store` behind those already there and hands out its handle.
    pub fn register(&mut self, store: Q) -> (handle: StoreHandle)
        ensures
            final(self).stores() == old(self).stores().push(store),
            handle.position() == old(self).stores().len(),
    {
        let index = self.stores.len();
        self.stores.push(store);
        StoreHandle { index }
    }

    /// The engine registered under `handle`, if the registry has one there.
    pub fn lookup(&self, handle: StoreHandle) -> (found: Option<&Q>)
        ensures
            match found {
                Some(store) => self.holds(handle) && *store == self.stores()[handle.position()],
                None => !self.holds(handle),
            },
    {
        if handle.index < self.stores.len() {
            Some(&self.stores[handle.index])
        } else {
            None
        }
    }
}

} // verus!
