use vstd::hash_map::StringHashMap;
use vstd::prelude::*;

verus! {

/// The key that the store is asked for when `key` is requested through the
/// renaming table `m`: its one substitute if it has one, else `key` itself.
/// Only one substitution is made, whatever the table holds for the result.
pub open spec fn resolved(m: Map<Seq<char>, Seq<char>>, key: Seq<char>) -> Seq<char> {
    if m.contains_key(key) {
        m[key]
    } else {
        key
    }
}

/// A fixed table from alias keys to the real keys that they stand for.
pub struct KeyMap {
    table: StringHashMap<String>,
}

impl View for KeyMap {
    type V = Map<Seq<char>, Seq<char>>;

    closed spec fn view(&self) -> Map<Seq<char>, Seq<char>> {
        self.table@.map_values(|s: String| s@)
    }
}

impl KeyMap {
    pub fn new() -> (r: Self)
        ensures
            r@ == Map::<Seq<char>, Seq<char>>::empty(),
    {
        let r = KeyMap { table: StringHashMap::new() };
        proof {
            assert(r@ =~= Map::<Seq<char>, Seq<char>>::empty());
        }
        r
    }

    /// Makes `alias` stand for `target`, in place of what it stood for before.
    pub fn insert(&mut self, alias: String, target: String)
        ensures
            final(self)@ == old(self)@.insert(alias@, target@),
    {
        self.table.insert(alias, target);
        proof {
            assert(self@ =~= old(self)@.insert(alias@, target@));
        }
    }

    /// The key that a request for `key` goes to.
    pub fn resolve<'a>(&'a self, key: &'a str) -> (r: &'a str)
        ensures
            r@ == resolved(self@, key@),
    {
        match self.table.get(key) {
            Some(target) => target.as_str(),
            None => key,
        }
    }
}

} // verus!
