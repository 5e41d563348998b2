use vstd::hash_map::StringHashMap;
use vstd::prelude::*;

verus! {

/// A stored value with the time, in nanoseconds since the Unix epoch, of its
/// latest write.
pub struct Engram<T> {
    pub value: T,
    pub stamp: i128,
}

/// An entry written at `stamp` has outlived `retention` once its deadline
/// `stamp + retention` lies strictly before `now`.
pub open spec fn expired(stamp: int, retention: int, now: int) -> bool {
    stamp + retention < now
}

/// Decides `expired` without overflowing: a deadline past `i128::MAX` is
/// never before `now`, and one below `i128::MIN` always is.
pub fn is_expired(stamp: i128, retention: i128, now: i128) -> (r: bool)
    ensures
        r == expired(stamp as int, retention as int, now as int),
{
    match stamp.checked_add(retention) {
        Some(deadline) => deadline < now,
        None => retention < 0,
    }
}

/// The entries of `m` that are not expired at `now` under `retention`.
pub open spec fn swept<T>(m: Map<Seq<char>, Engram<T>>, retention: int, now: int) -> Map<
    Seq<char>,
    Engram<T>,
> {
    m.restrict(m.dom().filter(|k: Seq<char>| !expired(m[k].stamp as int, retention, now)))
}

/// The entries of a store, each under its key, with the list of keys kept
/// beside the map so that a sweep can visit every entry.
#[verifier::reject_recursive_types(T)]
pub struct Ledger<T> {
    entries: StringHashMap<Engram<T>>,
    keys: Vec<String>,
}

impl<T> View for Ledger<T> {
    type V = Map<Seq<char>, Engram<T>>;

    closed spec fn view(&self) -> Map<Seq<char>, Engram<T>> {
        self.entries@
    }
}

impl<T> Ledger<T> {
    /// Every listed key has an entry, every entry is listed, and no key is
    /// listed twice.
    #[verifier::type_invariant]
    closed spec fn indexed(&self) -> bool {
        &&& forall|i: int|
            0 <= i < self.keys.len() ==> self.entries@.contains_key(#[trigger] self.keys@[i]@)
        &&& forall|k: Seq<char>|
            #[trigger] self.entries@.contains_key(k) ==> exists|i: int|
                0 <= i < self.keys.len() && #[trigger] self.keys@[i]@ == k
        &&& forall|i: int, j: int|
            0 <= i < j < self.keys.len() ==> #[trigger] self.keys@[i]@ != #[trigger] self.keys@[j]@
    }

    /// A ledger with no entries.
    pub fn new() -> (r: Self)
        ensures
            r@ == Map::<Seq<char>, Engram<T>>::empty(),
    {
        Ledger { entries: StringHashMap::new(), keys: Vec::new() }
    }

    /// Writes `value` under `key`, stamped `now`, in place of any earlier entry.
    pub fn memorize(&mut self, key: &str, value: T, now: i128)
        ensures
            final(self)@ == old(self)@.insert(key@, Engram { value, stamp: now }),
    {
        let mut taken = Ledger::new();
        std::mem::swap(self, &mut taken);
        proof {
            use_type_invariant(&taken);
        }
        let Ledger { mut entries, mut keys } = taken;
        let ghost k0 = keys@;
        let ghost e0 = entries@;
        let fresh = !entries.contains_key(key);
        if fresh {
            keys.push(key.to_owned());
        }
        entries.insert(key.to_owned(), Engram { value, stamp: now });
        proof {
            let n = k0.len() as int;
            assert(forall|i: int| 0 <= i < n ==> keys@[i] == k0[i]);
            assert(fresh ==> keys@[n]@ == key@);
            assert(keys.len() == if fresh { n + 1 } else { n });
            assert forall|i: int| 0 <= i < keys.len() implies entries@.contains_key(
                #[trigger] keys@[i]@,
            ) by {
                if i < n {
                    assert(e0.contains_key(k0[i]@));
                }
            }
            assert forall|i: int, j: int| 0 <= i < j < keys.len() implies #[trigger] keys@[i]@
                != #[trigger] keys@[j]@ by {
                if j >= n {
                    assert(e0.contains_key(k0[i]@));
                }
            }
            assert forall|k: Seq<char>| #[trigger] entries@.contains_key(k) implies exists|i: int|
                0 <= i < keys.len() && #[trigger] keys@[i]@ == k by {
                if k == key@ && fresh {
                    assert(keys@[n]@ == k);
                } else {
                    assert(e0.contains_key(k));
                    let i = choose|i: int| 0 <= i < n && #[trigger] k0[i]@ == k;
                    assert(keys@[i]@ == k);
                }
            }
            let l = Ledger { entries, keys };
            assert(l.entries@ == entries@ && l.keys@ == keys@);
        }
        *self = Ledger { entries, keys };
    }

    /// Removes every entry whose deadline lies strictly before `now`; an entry
    /// whose deadline is `now` itself stays.
    pub fn forget(&mut self, retention: i128, now: i128)
        ensures
            final(self)@ == swept(old(self)@, retention as int, now as int),
    {
        let mut taken = Ledger::new();
        std::mem::swap(self, &mut taken);
        proof {
            use_type_invariant(&taken);
        }
        let Ledger { mut entries, keys } = taken;
        let ghost e0 = entries@;
        let mut kept: Vec<String> = Vec::new();
        let mut i: usize = 0;
        while i < keys.len()
            invariant
                i <= keys.len(),
                forall|j: int| 0 <= j < keys.len() ==> e0.contains_key(#[trigger] keys@[j]@),
                forall|k: Seq<char>| #[trigger] e0.contains_key(k) ==> exists|j: int|
                    0 <= j < keys.len() && #[trigger] keys@[j]@ == k,
                forall|a: int, b: int|
                    0 <= a < b < keys.len() ==> #[trigger] keys@[a]@ != #[trigger] keys@[b]@,
                forall|k: Seq<char>| #[trigger] entries@.contains_key(k) ==> e0.contains_key(k)
                    && entries@[k] == e0[k],
                forall|j: int| i <= j < keys.len() ==> entries@.contains_key(#[trigger] keys@[j]@),
                forall|j: int|
                    0 <= j < i ==> (entries@.contains_key(#[trigger] keys@[j]@) <==> !expired(
                        e0[keys@[j]@].stamp as int,
                        retention as int,
                        now as int,
                    )),
                forall|m: int| 0 <= m < kept.len() ==> exists|j: int|
                    0 <= j < i && #[trigger] keys@[j]@ == #[trigger] kept@[m]@,
                forall|m: int| 0 <= m < kept.len() ==> entries@.contains_key(#[trigger] kept@[m]@),
                forall|j: int| 0 <= j < i && entries@.contains_key(#[trigger] keys@[j]@) ==> exists|m: int|
                    0 <= m < kept.len() && #[trigger] kept@[m]@ == keys@[j]@,
                forall|a: int, b: int|
                    0 <= a < b < kept.len() ==> #[trigger] kept@[a]@ != #[trigger] kept@[b]@,
            decreases keys.len() - i,
        {
            let key = keys[i].as_str();
            let ghost kept0 = kept@;
            // Every listed key has an entry, so the second arm is never taken.
            let stamp = match entries.get(key) {
                Some(e) => e.stamp,
                None => now,
            };
            if is_expired(stamp, retention, now) {
                entries.remove(key);
                proof {
                    assert forall|j: int|
                        0 <= j < i + 1 && entries@.contains_key(#[trigger] keys@[j]@) implies exists|
                        m: int,
                    | 0 <= m < kept.len() && #[trigger] kept@[m]@ == keys@[j]@ by {
                        assert(j != i);
                    }
                }
            } else {
                proof {
                    assert forall|m: int| 0 <= m < kept.len() implies #[trigger] kept@[m]@
                        != key@ by {
                        let j = choose|j: int| 0 <= j < i && #[trigger] keys@[j]@ == kept@[m]@;
                    }
                }
                kept.push(keys[i].clone());
                proof {
                    assert(forall|m: int| 0 <= m < kept0.len() ==> kept@[m] == kept0[m]);
                    assert forall|j: int|
                        0 <= j < i + 1 && entries@.contains_key(#[trigger] keys@[j]@) implies exists|
                        m: int,
                    | 0 <= m < kept.len() && #[trigger] kept@[m]@ == keys@[j]@ by {
                        if j == i {
                            assert(kept@[kept0.len() as int]@ == keys@[j]@);
                        } else {
                            let m = choose|m: int|
                                0 <= m < kept0.len() && #[trigger] kept0[m]@ == keys@[j]@;
                            assert(kept@[m]@ == keys@[j]@);
                        }
                    }
                    assert forall|m: int| 0 <= m < kept.len() implies exists|j: int|
                        0 <= j < i + 1 && #[trigger] keys@[j]@ == #[trigger] kept@[m]@ by {
                        if m == kept0.len() {
                            assert(keys@[i as int]@ == kept@[m]@);
                        } else {
                            let j = choose|j: int| 0 <= j < i && #[trigger] keys@[j]@ == kept0[m]@;
                            assert(keys@[j]@ == kept@[m]@);
                        }
                    }
                }
            }
            i += 1;
        }
        proof {
            let m = swept(e0, retention as int, now as int);
            assert forall|k: Seq<char>| #[trigger] entries@.contains_key(k) <==> m.contains_key(k) by {
                if e0.contains_key(k) {
                    let j = choose|j: int| 0 <= j < keys.len() && #[trigger] keys@[j]@ == k;
                }
            }
            assert(entries@ =~= m);
            let l = Ledger { entries, keys: kept };
            assert(l.entries@ == entries@ && l.keys@ == kept@);
        }
        *self = Ledger { entries, keys: kept };
    }

    /// The entry under `key`, if there is one.
    pub fn lookup(&self, key: &str) -> (r: Option<&Engram<T>>)
        ensures
            match r {
                Some(e) => self@.contains_key(key@) && *e == self@[key@],
                None => !self@.contains_key(key@),
            },
    {
        self.entries.get(key)
    }

    /// A copy of the value under `key`, if there is one, however old it is.
    pub fn retrieve(&self, key: &str) -> (r: Option<T>) where T: Clone
        ensures
            match r {
                Some(v) => self@.contains_key(key@) && cloned(self@[key@].value, v),
                None => !self@.contains_key(key@),
            },
    {
        match self.entries.get(key) {
            Some(e) => Some(e.value.clone()),
            None => None,
        }
    }

    /// A copy of the value under `key`, or the value type's default where
    /// there is none.
    pub fn retrieve_or_default(&self, key: &str) -> (r: T) where T: Clone + Default
        ensures
            self@.contains_key(key@) ==> cloned(self@[key@].value, r),
            !self@.contains_key(key@) ==> call_ensures(T::default, (), r),
    {
        match self.retrieve(key) {
            Some(v) => v,
            None => T::default(),
        }
    }
}

} // verus!
