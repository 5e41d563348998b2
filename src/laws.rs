use crate::alias::resolved;
use crate::ledger::{expired, swept, Engram};
use vstd::prelude::*;

verus! {

/// Reading a key right after writing `value` under it gives `value` back.
pub proof fn lemma_round_trip<T>(m: Map<Seq<char>, Engram<T>>, key: Seq<char>, value: T, now: i128)
    ensures
        m.insert(key, Engram { value, stamp: now }).contains_key(key),
        m.insert(key, Engram { value, stamp: now })[key].value == value,
{
}

/// A second write under a key replaces the first, and the entry's age counts
/// from the second write: a sweep at any time up to the second write's
/// deadline keeps it, even where the first write's deadline has passed.
pub proof fn lemma_overwrite<T>(
    m: Map<Seq<char>, Engram<T>>,
    key: Seq<char>,
    first: T,
    first_at: i128,
    second: T,
    second_at: i128,
    retention: int,
    now: int,
)
    requires
        now <= second_at + retention,
    ensures
        m.insert(key, Engram { value: first, stamp: first_at }).insert(
            key,
            Engram { value: second, stamp: second_at },
        )[key] == (Engram { value: second, stamp: second_at }),
        swept(
            m.insert(key, Engram { value: first, stamp: first_at }).insert(
                key,
                Engram { value: second, stamp: second_at },
            ),
            retention,
            now,
        ).contains_key(key),
        swept(
            m.insert(key, Engram { value: first, stamp: first_at }).insert(
                key,
                Engram { value: second, stamp: second_at },
            ),
            retention,
            now,
        )[key].value == second,
{
}

/// An entry written at `at` can be read at any time until a sweep removes
/// it, and a sweep at `now` removes it exactly when `now` lies past its
/// deadline `at + retention`: a sweep at the deadline itself keeps it.
pub proof fn lemma_expiry_boundary<T>(
    m: Map<Seq<char>, Engram<T>>,
    key: Seq<char>,
    value: T,
    at: i128,
    retention: int,
    now: int,
)
    ensures
        m.insert(key, Engram { value, stamp: at }).contains_key(key),
        swept(m.insert(key, Engram { value, stamp: at }), retention, now).contains_key(key) <==> now
            <= at + retention,
{
}

/// A sweep that removes one expired entry leaves every other entry whose
/// deadline has not passed, unchanged.
pub proof fn lemma_independent_entries<T>(
    m: Map<Seq<char>, Engram<T>>,
    gone: Seq<char>,
    kept: Seq<char>,
    retention: int,
    now: int,
)
    requires
        m.contains_key(gone),
        m.contains_key(kept),
        expired(m[gone].stamp as int, retention, now),
        !expired(m[kept].stamp as int, retention, now),
    ensures
        !swept(m, retention, now).contains_key(gone),
        swept(m, retention, now).contains_key(kept),
        swept(m, retention, now)[kept] == m[kept],
{
}

/// A key that has an alias entry is written and read under its target, so
/// that a write through the alias is seen by a direct read of the target.
pub proof fn lemma_alias_hit<T>(
    aliases: Map<Seq<char>, Seq<char>>,
    m: Map<Seq<char>, Engram<T>>,
    key: Seq<char>,
    entry: Engram<T>,
)
    requires
        aliases.contains_key(key),
    ensures
        resolved(aliases, key) == aliases[key],
        m.insert(resolved(aliases, key), entry)[aliases[key]] == entry,
{
}

/// A key without an alias entry goes to the store under its own name, as if
/// the store were used directly.
pub proof fn lemma_alias_miss<T>(
    aliases: Map<Seq<char>, Seq<char>>,
    m: Map<Seq<char>, Engram<T>>,
    key: Seq<char>,
    entry: Engram<T>,
)
    requires
        !aliases.contains_key(key),
    ensures
        resolved(aliases, key) == key,
        m.insert(resolved(aliases, key), entry) == m.insert(key, entry),
{
}

} // verus!
