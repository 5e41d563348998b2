//! A time-based expiring key-value store, safe to share between threads,
//! and a view over it that renames keys before they reach the store.
mod alias;
mod brain;
mod clock;
mod laws;
mod ledger;
mod substitute;
mod sync;

pub use alias::{resolved, KeyMap};
pub use brain::{Brain, Memory, MemoryDefaultRetrieval};
pub use laws::{
    lemma_alias_hit, lemma_alias_miss, lemma_expiry_boundary, lemma_independent_entries,
    lemma_overwrite, lemma_round_trip,
};
pub use ledger::{expired, is_expired, swept, Engram, Ledger};
pub use substitute::MemorySubstitute;
