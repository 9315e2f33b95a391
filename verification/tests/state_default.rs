use c19::state::default::Entry;
use c19::state::storage::pick_behind;
use c19::state::data_seeder::{DataSeeder, SeedError};
use c19::state::CloneState;
use c19::state::State;
use c19::state::StateValue;
use std::hash::{Hash, Hasher};
use im::HashMap;

fn entry(value: &str, ts: u64, ttl: Option<u64>) -> Entry {
    Entry { value: value.into(), ts, ttl }
}

fn fresh() -> c19::state::default::Default {
    std::default::Default::default()
}

fn sorted_keys(map: &HashMap<String, Entry>) -> Vec<String> {
    let mut keys: Vec<String> = map.keys().cloned().collect();
    keys.sort();
    keys
}

#[test]
fn state_versions_should_be_equal() {
    let value = HashMap::unit("cat".to_string(), entry("garfield", 0, None));

    let mut first = fresh();
    let mut second = fresh();

    first.set(&value).unwrap();
    second.set(&value.clone()).unwrap();

    assert_eq!(first.version(), second.version());
}

#[test]
fn state_versions_should_be_different() {
    let value1 = HashMap::unit("cat".to_string(), entry("garfield", 0, None));
    let value2 = HashMap::unit("cat".to_string(), entry("garfield", 1, None));

    let mut first = fresh();
    let mut second = fresh();

    first.set(&value1).unwrap();
    second.set(&value2).unwrap();

    assert_ne!(first.version(), second.version());
}

#[test]
fn should_purge_items() {
    let value = HashMap::unit("dog".to_string(), entry("snoopy", 0, None));

    let mut state = fresh();

    // An entry that is valid at the instant 0 and expired today.
    state.set_at(&HashMap::unit("cat".to_string(), entry("garfield", 0, Some(1))), 0);
    state.set(&value).unwrap();

    assert_eq!(state.len(), 2);
    state.purge();
    assert_eq!(state.len(), 1);
}

#[test]
fn should_not_return_expired_values() {
    let value = HashMap::unit("dog".to_string(), entry("snoopy", 0, None));

    let mut state = fresh();

    state.set_at(&HashMap::unit("cat".to_string(), entry("garfield", 0, Some(1))), 0);
    state.set(&value).unwrap();

    assert!(state.get(&"dog".to_string()).is_some());
    assert!(state.get(&"cat".to_string()).is_none());
}

#[test]
fn should_be_marked_as_dirty() {
    let value = HashMap::unit("dog".to_string(), entry("snoopy", 0, None));
    let mut state = fresh();

    assert_eq!(state.is_dirty(), false);
    state.set(&value).unwrap();
    assert_eq!(state.is_dirty(), true);
}

#[test]
fn should_return_the_whole_state() {
    let value1 = HashMap::unit("cat".to_string(), entry("garfield", 0, None));
    let value2 = HashMap::unit("dog".to_string(), entry("snoopy", 0, None));
    let mut state = fresh();

    state.set(&value1).unwrap();
    state.set(&value2).unwrap();

    let keys = sorted_keys(&state.get_root().unwrap());

    assert_eq!(vec!["cat", "dog"], keys);
}

#[test]
fn should_return_diff() {
    let value1 = HashMap::unit("cat".to_string(), entry("garfield", 0, None));
    let value2 = HashMap::unit("dog".to_string(), entry("snoopy", 0, None));

    let mut state = fresh();

    state.set(&value1).unwrap();
    state.set(&value2).unwrap();

    let keys: Vec<String> = state.diff(&value2).unwrap().keys().cloned().collect();

    assert_eq!(vec!["cat"], keys);
}

fn stamp_hash(key: &str, ts: u64) -> u64 {
    let mut hasher = twox_hash::XxHash64::default();
    key.to_string().hash(&mut hasher);
    ts.hash(&mut hasher);
    hasher.finish()
}

#[test]
fn default_state_starts_empty_and_clean() {
    let mut state = fresh();
    assert_eq!(state.len(), 0);
    assert_eq!(state.is_dirty(), false);
    assert_eq!(state.ttl(), None);
    assert_eq!(state.purge_interval(), 60000);
    assert_eq!(state.version(), "");
    assert_eq!(c19::state::default::MAX_SET_OPS, 64000);
}

#[test]
fn version_is_the_decimal_digest_of_one_stamp() {
    let mut state = fresh();
    state.set_at(&HashMap::unit("cat".to_string(), entry("garfield", 7, None)), 0);
    assert_eq!(state.version_at(0), stamp_hash("cat", 7).to_string());
}

#[test]
fn version_folds_the_stamps_by_exclusive_or() {
    let mut state = fresh();
    let mut payload = HashMap::new();
    payload.insert("cat".to_string(), entry("garfield", 7, None));
    payload.insert("dog".to_string(), entry("snoopy", 9, None));
    payload.insert("bird".to_string(), entry("tweety", 11, Some(5)));
    state.set_at(&payload, 0);
    let all = stamp_hash("cat", 7) ^ stamp_hash("dog", 9) ^ stamp_hash("bird", 11);
    assert_eq!(state.version_at(16), all.to_string());
}

#[test]
fn version_leaves_expired_entries_out() {
    let mut state = fresh();
    let mut payload = HashMap::new();
    payload.insert("cat".to_string(), entry("garfield", 7, None));
    payload.insert("bird".to_string(), entry("tweety", 11, Some(5)));
    state.set_at(&payload, 0);
    assert_eq!(state.version_at(17), stamp_hash("cat", 7).to_string());
}

#[test]
fn version_of_nothing_live_is_zero() {
    let mut state = fresh();
    state.set_at(&HashMap::unit("bird".to_string(), entry("tweety", 11, Some(5))), 0);
    assert_eq!(state.version_at(100), "0");
}

#[test]
fn version_is_kept_until_the_state_changes() {
    let mut state = fresh();
    state.set_at(&HashMap::unit("bird".to_string(), entry("tweety", 11, Some(5))), 0);
    let first = state.version_at(0);
    assert_eq!(state.is_dirty(), false);
    // The entry is expired by now, but nothing marked the state dirty.
    assert_eq!(state.version_at(100), first);
    state.set_at(&HashMap::unit("cat".to_string(), entry("garfield", 7, None)), 100);
    assert_eq!(state.is_dirty(), true);
    assert_eq!(state.version_at(100), stamp_hash("cat", 7).to_string());
}

#[test]
fn version_reads_keys_and_timestamps_only() {
    let mut first = fresh();
    let mut second = fresh();
    first.set_at(&HashMap::unit("cat".to_string(), entry("garfield", 3, None)), 0);
    second.set_at(&HashMap::unit("cat".to_string(), entry("tom", 3, Some(1000))), 0);
    assert_eq!(first.version_at(5), second.version_at(5));
}

#[test]
fn newest_timestamp_wins() {
    let mut state = fresh();
    state.set_at(&HashMap::unit("cat".to_string(), entry("garfield", 10, None)), 0);
    state.set_at(&HashMap::unit("cat".to_string(), entry("nyan", 5, None)), 0);
    let held = state.get_at("cat", 0).unwrap();
    assert_eq!(held.ts, 10);
    assert_eq!(held.value, serde_json::Value::from("garfield"));
    state.set_at(&HashMap::unit("cat".to_string(), entry("tom", 20, None)), 0);
    let held = state.get_at("cat", 0).unwrap();
    assert_eq!(held.ts, 20);
    assert_eq!(held.value, serde_json::Value::from("tom"));
    assert_eq!(held.ttl, None);
}

#[test]
fn equal_timestamp_changes_nothing() {
    let mut state = fresh();
    state.set_at(&HashMap::unit("cat".to_string(), entry("garfield", 10, None)), 0);
    let _ = state.version_at(0);
    state.set_at(&HashMap::unit("cat".to_string(), entry("tom", 10, None)), 0);
    assert_eq!(state.is_dirty(), false);
    assert_eq!(state.get_at("cat", 0).unwrap().value, serde_json::Value::from("garfield"));
}

#[test]
fn older_entry_does_not_mark_dirty() {
    let mut state = fresh();
    state.set_at(&HashMap::unit("cat".to_string(), entry("garfield", 10, None)), 0);
    let _ = state.version_at(0);
    state.set_at(&HashMap::unit("cat".to_string(), entry("nyan", 5, None)), 0);
    assert_eq!(state.is_dirty(), false);
}

#[test]
fn dirty_mark_stays_through_a_merge_that_changes_nothing() {
    let mut state = fresh();
    state.set_at(&HashMap::unit("cat".to_string(), entry("garfield", 10, None)), 0);
    state.set_at(&HashMap::unit("cat".to_string(), entry("nyan", 5, None)), 0);
    assert_eq!(state.is_dirty(), true);
}

#[test]
fn expired_incoming_entry_is_passed_over() {
    let mut state = fresh();
    state.set_at(&HashMap::unit("cat".to_string(), entry("garfield", 0, Some(1))), 2);
    assert_eq!(state.len(), 0);
    assert_eq!(state.is_dirty(), false);
}

#[test]
fn incoming_entry_gets_the_default_ttl() {
    let mut state = c19::state::default::Default::new(Some(50), 1000);
    assert_eq!(state.ttl(), Some(50));
    assert_eq!(state.purge_interval(), 1000);
    let mut payload = HashMap::new();
    payload.insert("cat".to_string(), entry("garfield", 100, None));
    payload.insert("dog".to_string(), entry("snoopy", 100, Some(7)));
    // Neither is expired when offered: the first names no time to live yet.
    state.set_at(&payload, 107);
    assert_eq!(state.get_at("cat", 107).unwrap().ttl, Some(50));
    assert_eq!(state.get_at("dog", 107).unwrap().ttl, Some(7));
    assert!(state.get_at("cat", 150).is_some());
    assert!(state.get_at("cat", 151).is_none());
}

#[test]
fn entry_is_read_up_to_the_end_of_its_ttl() {
    let mut state = fresh();
    state.set_at(&HashMap::unit("cat".to_string(), entry("garfield", 100, Some(50))), 0);
    assert!(state.get_at("cat", 150).is_some());
    assert!(state.get_at("cat", 151).is_none());
    assert!(state.get_at("dog", 0).is_none());
    assert_eq!(state.len(), 1);
}

#[test]
fn expiry_does_not_overflow() {
    let e = entry("garfield", u64::MAX, Some(u64::MAX));
    assert_eq!(e.is_expired_at(u64::MAX), false);
    assert_eq!(e.is_live_at(u64::MAX), true);
    let e = entry("garfield", 1, Some(2));
    assert_eq!(e.is_expired_at(3), false);
    assert_eq!(e.is_expired_at(4), true);
    assert_eq!(entry("garfield", 1, None).is_expired_at(u64::MAX), false);
}

#[test]
fn get_or_falls_back() {
    let mut state = fresh();
    state.set_at(&HashMap::unit("cat".to_string(), entry("garfield", 1, Some(1))), 0);
    assert_eq!(state.get_or_at("cat", entry("tom", 9, None), 2).ts, 1);
    assert_eq!(state.get_or_at("cat", entry("tom", 9, None), 3).ts, 9);
    assert_eq!(state.get_or("dog", entry("snoopy", 4, None)).ts, 4);
}

#[test]
fn purge_keeps_exactly_the_live_entries() {
    let mut state = fresh();
    let mut payload = HashMap::new();
    payload.insert("a".to_string(), entry("1", 0, Some(10)));
    payload.insert("b".to_string(), entry("2", 0, Some(20)));
    payload.insert("c".to_string(), entry("3", 0, None));
    state.set_at(&payload, 0);
    let _ = state.version_at(0);
    state.purge_at(10);
    assert_eq!(state.len(), 3);
    state.purge_at(11);
    assert_eq!(state.len(), 2);
    assert_eq!(sorted_keys(&state.get_root_at(11)), vec!["b", "c"]);
    state.purge_at(21);
    assert_eq!(state.len(), 1);
    assert_eq!(state.is_dirty(), false);
}

#[test]
fn root_leaves_expired_entries_out() {
    let mut state = fresh();
    let mut payload = HashMap::new();
    payload.insert("a".to_string(), entry("1", 0, Some(10)));
    payload.insert("c".to_string(), entry("3", 0, None));
    state.set_at(&payload, 0);
    assert_eq!(sorted_keys(&state.get_root_at(10)), vec!["a", "c"]);
    assert_eq!(sorted_keys(&state.get_root_at(11)), vec!["c"]);
    // The expired entry stays in the store until the next sweep.
    assert_eq!(state.len(), 2);
}

#[test]
fn diff_with_own_root_is_empty() {
    let mut state = fresh();
    let mut payload = HashMap::new();
    payload.insert("a".to_string(), entry("1", 0, Some(10)));
    payload.insert("c".to_string(), entry("3", 5, None));
    state.set_at(&payload, 0);
    assert_eq!(state.diff_at(&state.get_root_at(3), 3).len(), 0);
    assert_eq!(state.diff_at(&state.get_root_at(50), 50).len(), 0);
    assert_eq!(state.diff(&state.get_root().unwrap()).unwrap().len(), 0);
}

#[test]
fn diff_keeps_the_side_that_lags() {
    let mut state = fresh();
    let mut mine = HashMap::new();
    mine.insert("same".to_string(), entry("s", 5, None));
    mine.insert("newer".to_string(), entry("mine", 9, None));
    mine.insert("older".to_string(), entry("mine", 1, None));
    mine.insert("only-mine".to_string(), entry("mine", 2, None));
    mine.insert("gone".to_string(), entry("mine", 0, Some(1)));
    state.set_at(&mine, 0);
    let mut theirs = HashMap::new();
    theirs.insert("same".to_string(), entry("t", 5, None));
    theirs.insert("newer".to_string(), entry("theirs", 3, None));
    theirs.insert("older".to_string(), entry("theirs", 4, None));
    theirs.insert("only-theirs".to_string(), entry("theirs", 6, None));
    theirs.insert("stale".to_string(), entry("theirs", 0, Some(1)));
    let d = state.diff_at(&theirs, 10);
    // The store's expired entry lingers and stays out; the other side's
    // expired entry is handed out as it is.
    assert_eq!(sorted_keys(&d), vec!["newer", "older", "only-mine", "only-theirs", "stale"]);
    assert_eq!(d.get("stale").unwrap().ttl, Some(1));
    assert_eq!(d.get("newer").unwrap().value, serde_json::Value::from("theirs"));
    assert_eq!(d.get("newer").unwrap().ts, 3);
    assert_eq!(d.get("older").unwrap().value, serde_json::Value::from("mine"));
    assert_eq!(d.get("older").unwrap().ts, 1);
    assert_eq!(d.get("only-mine").unwrap().ts, 2);
    assert_eq!(d.get("only-theirs").unwrap().ts, 6);
}

#[test]
fn seed_merges_or_hands_the_failure_back() {
    let mut state = fresh();
    let failed = state.seed_at(
        Err(SeedError { reason: "no such file".to_string() }),
        0,
    );
    assert_eq!(failed.unwrap_err().reason, "no such file");
    assert_eq!(state.len(), 0);
    let seeded = state.seed_at(Ok(HashMap::unit("cat".to_string(), entry("garfield", 1, None))), 0);
    assert!(seeded.is_ok());
    assert_eq!(state.len(), 1);
    assert_eq!(state.is_dirty(), true);
}

#[test]
fn ingest_drops_what_could_not_be_read() {
    let mut state = fresh();
    assert_eq!(state.ingest_at(None, 0), false);
    assert_eq!(state.len(), 0);
    assert_eq!(state.is_dirty(), false);
    let taken = state.ingest_at(Some(HashMap::unit("cat".to_string(), entry("garfield", 1, None))), 0);
    assert_eq!(taken, true);
    assert_eq!(state.len(), 1);
}

#[test]
fn entry_clone_is_the_same_entry() {
    let e = entry("garfield", 3, Some(4));
    let c = e.clone();
    assert_eq!(c.value, e.value);
    assert_eq!(c.ts, 3);
    assert_eq!(c.ttl, Some(4));
}

#[test]
fn pick_behind_takes_the_smaller_timestamp() {
    assert!(pick_behind(entry("l", 1, None), entry("r", 1, None)).is_none());
    assert_eq!(pick_behind(entry("l", 1, None), entry("r", 2, None)).unwrap().value, serde_json::Value::from("l"));
    assert_eq!(pick_behind(entry("l", 3, None), entry("r", 2, None)).unwrap().value, serde_json::Value::from("r"));
}

#[test]
fn hash_of_an_empty_map_is_zero() {
    assert_eq!(c19::state::digest::hash(&HashMap::new(), 0), 0);
}

#[test]
fn state_values_give_their_bytes() {
    assert_eq!(vec![1u8, 2, 3].as_bytes(), Some(vec![1u8, 2, 3]));
    assert_eq!(StateValue::as_bytes(&"cat"), Some(b"cat".to_vec()));
    assert_eq!(StateValue::as_bytes(&"dög".to_string()), Some("dög".as_bytes().to_vec()));
}

#[test]
fn file_seeder_keeps_its_name() {
    let file = c19::state::data_seeder::file::File::new("data.json".to_string());
    assert_eq!(file.filename, "data.json");
}

#[test]
fn two_states_converge_after_a_push_and_a_pull() {
    let mut x = fresh();
    let mut y = fresh();
    x.set_at(&HashMap::unit("a".to_string(), entry("1", 1, None)), 5);
    y.set_at(&HashMap::unit("b".to_string(), entry("2", 1, None)), 5);

    // X pushes what differs from the nothing it published so far.
    let pushed = x.diff_at(&HashMap::new(), 5);
    assert_eq!(sorted_keys(&pushed), vec!["a"]);
    y.set_at(&pushed, 5);

    // X pulls: the versions differ, so Y answers with its root.
    assert_ne!(x.version_at(5), y.version_at(5));
    x.set_at(&y.get_root_at(5), 5);

    assert_eq!(sorted_keys(&x.get_root_at(5)), vec!["a", "b"]);
    assert_eq!(sorted_keys(&y.get_root_at(5)), vec!["a", "b"]);
    assert_eq!(x.get_at("a", 5).unwrap().ts, 1);
    assert_eq!(x.get_at("b", 5).unwrap().ts, 1);
    assert_eq!(y.get_at("a", 5).unwrap().ts, 1);
    assert_eq!(y.get_at("b", 5).unwrap().ts, 1);
    assert_eq!(x.version_at(5), y.version_at(5));
}

#[test]
fn entry_of_long_ago_is_expired_today() {
    assert_eq!(entry("garfield", 0, Some(1)).is_expired(), true);
    assert_eq!(entry("garfield", 0, None).is_expired(), false);
    assert_eq!(entry("garfield", u64::MAX - 1, Some(1)).is_expired(), false);
}

#[test]
fn merging_twice_changes_nothing() {
    let mut state = c19::state::default::Default::new(Some(100), 60000);
    let mut payload = HashMap::new();
    payload.insert("a".to_string(), entry("1", 5, None));
    payload.insert("b".to_string(), entry("2", 6, Some(10)));
    state.set_at(&payload, 7);
    let version = state.version_at(7);
    state.set_at(&payload, 9);
    assert_eq!(state.is_dirty(), false);
    assert_eq!(state.version_at(9), version);
    assert_eq!(state.get_at("a", 9).unwrap().ttl, Some(100));
    assert_eq!(state.len(), 2);
}

#[test]
fn merging_in_either_order_gives_the_same_state() {
    let mut left = HashMap::new();
    left.insert("a".to_string(), entry("left", 5, None));
    left.insert("b".to_string(), entry("left", 9, None));
    left.insert("c".to_string(), entry("left", 1, None));
    let mut right = HashMap::new();
    right.insert("a".to_string(), entry("right", 6, None));
    right.insert("b".to_string(), entry("right", 8, None));
    right.insert("d".to_string(), entry("right", 2, None));

    let mut one = fresh();
    one.set_at(&left, 0);
    one.set_at(&right, 0);
    let mut other = fresh();
    other.set_at(&right, 0);
    other.set_at(&left, 0);

    assert_eq!(one.version_at(0), other.version_at(0));
    for key in ["a", "b", "c", "d"] {
        let x = one.get_at(key, 0).unwrap();
        let y = other.get_at(key, 0).unwrap();
        assert_eq!((x.value, x.ts, x.ttl), (y.value, y.ts, y.ttl));
    }
    assert_eq!(one.get_at("a", 0).unwrap().value, serde_json::Value::from("right"));
    assert_eq!(one.get_at("b", 0).unwrap().value, serde_json::Value::from("left"));
}

struct Cats;

impl DataSeeder for Cats {
    fn load(&self) -> Result<HashMap<String, Entry>, SeedError> {
        Ok(HashMap::unit("cat".to_string(), entry("garfield", 1, None)))
    }
}

struct Nothing;

impl DataSeeder for Nothing {
    fn load(&self) -> Result<HashMap<String, Entry>, SeedError> {
        Err(SeedError { reason: "no such file".to_string() })
    }
}

#[test]
fn seed_asks_the_seeder() {
    let mut state = fresh();
    assert!(state.seed(&Cats).is_ok());
    assert_eq!(state.len(), 1);
    assert_eq!(state.is_dirty(), true);
    assert_eq!(state.get("cat").unwrap().ts, 1);

    let mut state = fresh();
    assert_eq!(state.seed(&Nothing).unwrap_err().reason, "no such file");
    assert_eq!(state.len(), 0);
    assert_eq!(state.is_dirty(), false);
}

#[test]
fn init_seeds_and_a_failing_seeder_stops_nothing() {
    let mut state = fresh();
    assert!(state.init(Some(&Cats)).is_none());
    assert_eq!(state.len(), 1);

    let mut state = fresh();
    assert_eq!(state.init(Some(&Nothing)).unwrap().reason, "no such file");
    assert_eq!(state.len(), 0);
    state.set(&HashMap::unit("dog".to_string(), entry("snoopy", 0, None))).unwrap();
    assert_eq!(state.len(), 1);

    let mut state = fresh();
    assert!(state.init(None::<&Cats>).is_none());
    assert_eq!(state.len(), 0);
    assert_eq!(state.is_dirty(), false);
}

#[test]
fn diff_omits_a_key_of_equal_timestamps_though_the_other_side_is_expired() {
    let mut state = fresh();
    state.set_at(&HashMap::unit("cat".to_string(), entry("garfield", 0, None)), 0);
    let other = HashMap::unit("cat".to_string(), entry("garfield", 0, Some(1)));
    assert_eq!(state.diff_at(&other, 10).len(), 0);
}

#[test]
fn diff_names_the_older_side_as_it_is() {
    let mut state = fresh();
    state.set_at(&HashMap::unit("cat".to_string(), entry("mine", 5, None)), 0);

    // The other side is older and expired: it is still the side to name.
    let other = HashMap::unit("cat".to_string(), entry("theirs", 0, Some(1)));
    let d = state.diff_at(&other, 10);
    assert_eq!(d.get("cat").unwrap().value, serde_json::Value::from("theirs"));
    assert_eq!(d.get("cat").unwrap().ttl, Some(1));

    // An expired entry that only the other side holds comes out as it is.
    let other = HashMap::unit("dog".to_string(), entry("theirs", 0, Some(1)));
    let d = state.diff_at(&other, 10);
    assert_eq!(sorted_keys(&d), vec!["cat", "dog"]);
    assert_eq!(d.get("dog").unwrap().ts, 0);
}

#[test]
fn diff_leaves_the_lingering_entries_of_the_store_out() {
    let mut state = fresh();
    state.set_at(&HashMap::unit("cat".to_string(), entry("mine", 0, Some(1))), 0);
    assert_eq!(state.len(), 1);

    // Expired and not yet swept: the store counts as not holding the key.
    assert_eq!(state.diff_at(&HashMap::new(), 10).len(), 0);
    let other = HashMap::unit("cat".to_string(), entry("theirs", 0, None));
    let d = state.diff_at(&other, 10);
    assert_eq!(d.get("cat").unwrap().value, serde_json::Value::from("theirs"));
}

#[test]
fn clone_state_copies_and_shares_nothing() {
    let mut state = c19::state::default::Default::new(Some(9), 1234);
    state.set_at(&HashMap::unit("cat".to_string(), entry("garfield", 1, None)), 0);
    let version = state.version_at(0);
    state.set_at(&HashMap::unit("dog".to_string(), entry("snoopy", 2, None)), 0);

    let mut copy = state.clone_state();
    assert_eq!(copy.len(), 2);
    assert_eq!(copy.is_dirty(), true);
    assert_eq!(copy.ttl(), Some(9));
    assert_eq!(copy.purge_interval(), 1234);
    assert_eq!(copy.get_at("cat", 0).unwrap().value, serde_json::Value::from("garfield"));

    copy.set_at(&HashMap::unit("bird".to_string(), entry("tweety", 3, None)), 0);
    assert_eq!(copy.len(), 3);
    assert_eq!(state.len(), 2);

    let mut clean = c19::state::default::Default::new(None, 1);
    clean.set_at(&HashMap::unit("cat".to_string(), entry("garfield", 1, None)), 0);
    assert_eq!(clean.version_at(0), version);
    let mut copy = clean.clone();
    assert_eq!(copy.is_dirty(), false);
    assert_eq!(copy.version_at(99), version);
}
