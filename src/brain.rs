use crate::clock::now_nanos;
use crate::ledger::Ledger;
use crate::sync::{exclusive, new_lock, read_lock, shared, write_lock};
use parking_lot::RwLock;
use std::sync::Arc;
use vstd::prelude::*;

verus! {

/// What every store offers: write a value under a key, read it back, and
/// sweep out what has expired.
pub trait Memory<T> {
    fn memorize(&self, key: &str, value: T);

    fn retrieve(&self, key: &str) -> Option<T>;

    fn forget(&self);
}

/// A store that can also fall back on the value type's default.
pub trait MemoryDefaultRetrieval<T>: Memory<T> {
    fn retrieve_or_default(&self, key: &str) -> T;
}

/// An expiring store that any number of threads may use at once. Clones share
/// the same entries.
///
/// Each operation takes the lock around the entries once and does its whole
/// work on the `Ledger` under it: reads share the lock, writes and sweeps hold
/// it alone. Between two operations other threads may change the entries, so
/// what one call leaves is not promised to the next; what a single call does
/// is stated on `Ledger`.
#[derive(Clone)]
#[verifier::reject_recursive_types(T)]
pub struct Brain<T> {
    memory: Arc<RwLock<Ledger<T>>>,
    retention: i128,
}

impl<T> Brain<T> {
    /// How long, in nanoseconds, an entry stays before a sweep may remove it.
    pub closed spec fn retention(&self) -> int {
        self.retention as int
    }

    /// An empty store whose entries are kept `retention` nanoseconds; with a
    /// retention of zero or less every entry is already due for removal.
    pub fn new(retention: i128) -> (r: Self)
        ensures
            r.retention() == retention,
    {
        Brain { memory: Arc::new(new_lock(Ledger::new())), retention }
    }
}

impl<T: Clone> Memory<T> for Brain<T> {
    /// Writes `value` under `key`, stamped with the time at which the lock was
    /// taken.
    fn memorize(&self, key: &str, value: T) {
        let mut guard = write_lock(&self.memory);
        let ledger = exclusive(&mut guard);
        ledger.memorize(key, value, now_nanos());
    }

    /// A copy of the value under `key`, expired or not.
    fn retrieve(&self, key: &str) -> Option<T> {
        let guard = read_lock(&self.memory);
        shared(&guard).retrieve(key)
    }

    /// Reads the clock once, then removes under one exclusive hold of the
    /// lock every entry whose deadline lies strictly before that reading.
    fn forget(&self) {
        let now = now_nanos();
        let mut guard = write_lock(&self.memory);
        let ledger = exclusive(&mut guard);
        ledger.forget(self.retention, now);
    }
}

impl<T: Clone + Default> MemoryDefaultRetrieval<T> for Brain<T> {
    fn retrieve_or_default(&self, key: &str) -> T {
        let guard = read_lock(&self.memory);
        shared(&guard).retrieve_or_default(key)
    }
}

} // verus!
