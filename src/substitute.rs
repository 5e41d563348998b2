use crate::alias::KeyMap;
use crate::brain::{Brain, Memory, MemoryDefaultRetrieval};
use vstd::prelude::*;

verus! {

/// A view of a `Brain` through a renaming table: every operation asks the
/// store for `resolved(aliases, key)` in place of `key`. It borrows both the
/// store and the table and holds nothing of its own.
#[verifier::reject_recursive_types(T)]
pub struct MemorySubstitute<'map, 'memory, T> {
    map: &'map KeyMap,
    memory: &'memory Brain<T>,
}

impl<'map, 'memory, T> MemorySubstitute<'map, 'memory, T> {
    /// The renaming table.
    pub closed spec fn aliases(&self) -> Map<Seq<char>, Seq<char>> {
        self.map@
    }

    /// The store that every operation goes to.
    pub closed spec fn store(&self) -> Brain<T> {
        *self.memory
    }

    pub fn new(memory: &'memory Brain<T>, map: &'map KeyMap) -> (r: Self)
        ensures
            r.aliases() == map@,
            r.store() == *memory,
    {
        MemorySubstitute { map, memory }
    }
}

impl<T: Clone> Memory<T> for MemorySubstitute<'_, '_, T> {
    fn memorize(&self, key: &str, value: T) {
        self.memory.memorize(self.map.resolve(key), value);
    }

    fn retrieve(&self, key: &str) -> Option<T> {
        self.memory.retrieve(self.map.resolve(key))
    }

    /// Sweeps the shared store: renaming plays no part in what has expired.
    fn forget(&self) {
        self.memory.forget();
    }
}

impl<T: Clone + Default> MemoryDefaultRetrieval<T> for MemorySubstitute<'_, '_, T> {
    fn retrieve_or_default(&self, key: &str) -> T {
        self.memory.retrieve_or_default(self.map.resolve(key))
    }
}

} // verus!
