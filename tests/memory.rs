use engram::{is_expired, Brain, KeyMap, Ledger, Memory, MemoryDefaultRetrieval, MemorySubstitute};
use time::ext::NumericalDuration;

const MS: i128 = 1_000_000;

/// Waits at least `ms` milliseconds without giving up the thread.
fn pause(ms: u64) {
    let start = std::time::Instant::now();
    while start.elapsed() < std::time::Duration::from_millis(ms) {
        std::hint::spin_loop();
    }
}

fn aliases(pairs: &[(&str, &str)]) -> KeyMap {
    let mut map = KeyMap::new();
    for (alias, target) in pairs {
        map.insert(alias.to_string(), target.to_string());
    }
    map
}

#[test]
fn memory() {
    let memory = Brain::new(3.milliseconds().whole_nanoseconds());

    memory.memorize("a", 3);
    assert_eq!(memory.retrieve("a"), Some(3));
    assert_eq!(memory.retrieve_or_default("a"), 3);

    pause(2);

    memory.memorize("b", 6);
    assert_eq!(memory.retrieve("b"), Some(6));
    assert_eq!(memory.retrieve_or_default("b"), 6);

    pause(2);
    memory.forget();

    assert_eq!(memory.retrieve("a"), None);
    assert_eq!(memory.retrieve_or_default("a"), 0);
    assert_eq!(memory.retrieve("b"), Some(6));
}

#[test]
fn alias() {
    let memory = Brain::new(3.milliseconds().whole_nanoseconds());

    memory.memorize("a", 3);
    memory.memorize("b", 6);

    let map = aliases(&[("aaa", "a")]);

    let alias = MemorySubstitute::new(&memory, &map);

    assert_eq!(alias.retrieve("aaa"), Some(3));
    assert_eq!(alias.retrieve("bbb"), None);

    alias.memorize("aaa", 5);
    assert_eq!(alias.retrieve("aaa"), Some(5));
    assert_eq!(memory.retrieve("a"), Some(5));

    alias.memorize("ccc", 9);
    assert_eq!(alias.retrieve("ccc"), Some(9));
    assert_eq!(memory.retrieve("ccc"), Some(9));
}

#[test]
fn round_trip_on_the_store() {
    let memory = Brain::new(60_000 * MS);
    memory.memorize("key", String::from("value"));
    assert_eq!(memory.retrieve("key"), Some(String::from("value")));
    memory.memorize("", String::from("empty key"));
    assert_eq!(memory.retrieve(""), Some(String::from("empty key")));
}

#[test]
fn round_trip_on_the_ledger() {
    let mut ledger = Ledger::new();
    ledger.memorize("k", 41u32, 7);
    assert_eq!(ledger.retrieve("k"), Some(41));
    let entry = ledger.lookup("k").unwrap();
    assert_eq!((entry.value, entry.stamp), (41, 7));
    assert!(ledger.lookup("other").is_none());
}

#[test]
fn overwrite_resets_age() {
    let mut ledger = Ledger::new();
    ledger.memorize("k", 1i64, 0);
    ledger.memorize("k", 2i64, 10);
    assert_eq!(ledger.retrieve("k"), Some(2));
    // The first write's deadline, 5, has passed; the second one's, 15, has not.
    ledger.forget(5, 15);
    assert_eq!(ledger.retrieve("k"), Some(2));
    assert_eq!(ledger.lookup("k").unwrap().stamp, 10);
    ledger.forget(5, 16);
    assert_eq!(ledger.retrieve("k"), None);
}

#[test]
fn overwrite_on_the_store() {
    let memory = Brain::new(60_000 * MS);
    memory.memorize("k", 1);
    memory.memorize("k", 2);
    assert_eq!(memory.retrieve("k"), Some(2));
}

#[test]
fn default_fallback() {
    let memory: Brain<i32> = Brain::new(60_000 * MS);
    assert_eq!(memory.retrieve_or_default("unset"), 0);
    memory.memorize("set", 12);
    assert_eq!(memory.retrieve_or_default("set"), 12);

    let mut ledger: Ledger<String> = Ledger::new();
    assert_eq!(ledger.retrieve_or_default("unset"), String::new());
    ledger.memorize("set", String::from("x"), 0);
    assert_eq!(ledger.retrieve_or_default("set"), String::from("x"));
}

#[test]
fn expiry_boundary() {
    let mut ledger = Ledger::new();
    ledger.memorize("k", 'v', 100);
    // Reads do not filter by age.
    assert_eq!(ledger.retrieve("k"), Some('v'));
    ledger.forget(10, 109);
    assert_eq!(ledger.retrieve("k"), Some('v'));
    ledger.forget(10, 110);
    assert_eq!(ledger.retrieve("k"), Some('v'));
    ledger.forget(10, 111);
    assert_eq!(ledger.retrieve("k"), None);
}

#[test]
fn independent_entries() {
    let t = 1_700_000_000_000_000_000i128;
    let mut ledger = Ledger::new();
    ledger.memorize("a", 1u8, t);
    ledger.memorize("b", 2u8, t + 2 * MS);
    ledger.forget(3 * MS, t + 5 * MS);
    assert_eq!(ledger.retrieve("a"), None);
    assert_eq!(ledger.retrieve("b"), Some(2));
}

#[test]
fn sweep_keeps_only_live_entries() {
    let mut ledger = Ledger::new();
    for (i, key) in ["p", "q", "r", "s", "t"].iter().enumerate() {
        ledger.memorize(key, i, i as i128 * 10);
    }
    ledger.forget(5, 26);
    for key in ["p", "q", "r"] {
        assert_eq!(ledger.retrieve(key), None);
    }
    assert_eq!(ledger.retrieve("s"), Some(3));
    assert_eq!(ledger.retrieve("t"), Some(4));
    // A swept key can be written again.
    ledger.memorize("p", 9, 100);
    ledger.forget(5, 100);
    assert_eq!(ledger.retrieve("p"), Some(9));
    assert_eq!(ledger.retrieve("s"), None);
}

#[test]
fn sweep_of_empty_ledger() {
    let mut ledger: Ledger<u8> = Ledger::new();
    ledger.forget(0, 0);
    assert_eq!(ledger.retrieve("a"), None);
}

#[test]
fn expiry_without_overflow() {
    assert!(!is_expired(100, 10, 110));
    assert!(is_expired(100, 10, 111));
    assert!(is_expired(100, -10, 91));
    assert!(!is_expired(i128::MAX, 1, i128::MAX));
    assert!(!is_expired(i128::MAX - 5, i128::MAX, 0));
    assert!(is_expired(i128::MIN, -1, i128::MIN));
    assert!(!is_expired(0, i128::MIN, i128::MIN));
    assert!(is_expired(0, i128::MIN, i128::MIN + 1));
}

#[test]
fn non_positive_retention_expires_at_once() {
    let memory = Brain::new(-1);
    memory.memorize("a", 1);
    assert_eq!(memory.retrieve("a"), Some(1));
    memory.forget();
    assert_eq!(memory.retrieve("a"), None);
}

#[test]
fn long_retention_survives_sweep() {
    let memory = Brain::new(3_600_000 * MS);
    memory.memorize("a", 1);
    memory.forget();
    assert_eq!(memory.retrieve("a"), Some(1));
}

#[test]
fn clones_share_entries() {
    let memory = Brain::new(60_000 * MS);
    let other = memory.clone();
    other.memorize("a", 5);
    assert_eq!(memory.retrieve("a"), Some(5));
}

#[test]
fn alias_passthrough() {
    let memory = Brain::new(60_000 * MS);
    let map = aliases(&[("aaa", "a")]);
    let alias = MemorySubstitute::new(&memory, &map);
    alias.memorize("aaa", 7);
    assert_eq!(memory.retrieve("a"), Some(7));
    assert_eq!(alias.retrieve("aaa"), Some(7));
    assert_eq!(memory.retrieve("aaa"), None);
    assert_eq!(alias.retrieve_or_default("aaa"), 7);
}

#[test]
fn alias_miss_passthrough() {
    let memory = Brain::new(60_000 * MS);
    let map = aliases(&[("aaa", "a")]);
    let alias = MemorySubstitute::new(&memory, &map);
    alias.memorize("ccc", 9);
    assert_eq!(memory.retrieve("ccc"), Some(9));
    memory.memorize("ddd", 4);
    assert_eq!(alias.retrieve("ddd"), Some(4));
    assert_eq!(alias.retrieve_or_default("eee"), 0);
}

#[test]
fn alias_single_substitution() {
    let map = aliases(&[("a", "b"), ("b", "c"), ("x", "x")]);
    assert_eq!(map.resolve("a"), "b");
    assert_eq!(map.resolve("b"), "c");
    assert_eq!(map.resolve("x"), "x");
    assert_eq!(map.resolve("c"), "c");
    let mut map = map;
    map.insert(String::from("a"), String::from("z"));
    assert_eq!(map.resolve("a"), "z");
}

#[test]
fn alias_forget_sweeps_shared_store() {
    let memory = Brain::new(-1);
    let map = aliases(&[("aaa", "a")]);
    let alias = MemorySubstitute::new(&memory, &map);
    memory.memorize("b", 1);
    alias.memorize("aaa", 2);
    alias.forget();
    assert_eq!(memory.retrieve("a"), None);
    assert_eq!(memory.retrieve("b"), None);
}
