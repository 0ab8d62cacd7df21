use buffr_core::telemetry::{
    UsageCounters, KEY_APP_STARTS, KEY_BOOKMARKS_ADDED, KEY_DOWNLOADS_COMPLETED, KEY_PAGES_LOADED,
    KEY_SEARCHES_RUN, KEY_TABS_OPENED,
};
use serde_json::Value;
use std::path::PathBuf;

fn path() -> PathBuf {
    PathBuf::from("/data/usage-counters.json")
}

fn count(c: &UsageCounters, key: &str) -> Option<u64> {
    c.read().unwrap().into_iter().find(|(k, _)| k == key).map(|(_, n)| n)
}

#[test]
fn disabled_increment_is_noop_no_file() {
    let mut c = UsageCounters::open(path(), false, None);
    c.increment(KEY_APP_STARTS);
    c.increment(KEY_TABS_OPENED);
    assert!(c.flush().is_none(), "disabled store must not write to disk");
    let snapshot = c.read().unwrap();
    assert!(snapshot.is_empty());
}

#[test]
fn enabled_increment_then_flush_persists() {
    let mut c = UsageCounters::open(path(), true, None);
    c.increment(KEY_APP_STARTS);
    c.increment(KEY_TABS_OPENED);
    c.increment(KEY_TABS_OPENED);
    let raw = c.flush_strict().unwrap().unwrap();
    let v: Value = serde_json::from_slice(&raw).unwrap();
    assert_eq!(v[KEY_APP_STARTS].as_u64(), Some(1));
    assert_eq!(v[KEY_TABS_OPENED].as_u64(), Some(2));
}

#[test]
fn enabled_round_trip_across_open() {
    let mut c = UsageCounters::open(path(), true, None);
    c.increment(KEY_PAGES_LOADED);
    c.increment(KEY_PAGES_LOADED);
    c.increment(KEY_SEARCHES_RUN);
    let raw = c.flush_strict().unwrap();
    let c2 = UsageCounters::open(path(), true, raw);
    assert_eq!(count(&c2, KEY_PAGES_LOADED), Some(2));
    assert_eq!(count(&c2, KEY_SEARCHES_RUN), Some(1));
}

#[test]
fn disabled_then_enabled_starts_from_existing_disk_file() {
    let mut c = UsageCounters::open(path(), true, None);
    c.increment(KEY_APP_STARTS);
    let raw = c.flush_strict().unwrap().unwrap();
    let mut c = UsageCounters::open(path(), false, Some(raw.clone()));
    c.increment(KEY_APP_STARTS);
    assert!(c.flush().is_none());
    assert!(c.read().unwrap().is_empty());
    let v: Value = serde_json::from_slice(&raw).unwrap();
    assert_eq!(v[KEY_APP_STARTS].as_u64(), Some(1));
    let c = UsageCounters::open(path(), true, Some(raw));
    assert_eq!(count(&c, KEY_APP_STARTS), Some(1));
}

#[test]
fn reset_truncates_in_memory_and_on_disk() {
    let mut c = UsageCounters::open(path(), true, None);
    c.increment(KEY_BOOKMARKS_ADDED);
    c.increment(KEY_DOWNLOADS_COMPLETED);
    c.flush_strict().unwrap();
    let raw = c.reset().unwrap().unwrap();
    assert!(c.read().unwrap().is_empty());
    assert_eq!(raw, b"{}");
    let v: Value = serde_json::from_slice(&raw).unwrap();
    assert!(v.as_object().unwrap().is_empty());
}

#[test]
fn reset_disabled_is_noop_ok() {
    let mut c = UsageCounters::open(path(), false, Some(b"{\"app_starts\": 99}".to_vec()));
    assert_eq!(c.reset().unwrap(), None);
}

#[test]
fn corrupt_json_recovers_to_empty_state() {
    let mut c = UsageCounters::open(path(), true, Some(b"{not json".to_vec()));
    assert!(c.read().unwrap().is_empty());
    c.increment(KEY_APP_STARTS);
    let raw = c.flush_strict().unwrap().unwrap();
    let v: Value = serde_json::from_slice(&raw).unwrap();
    assert_eq!(v[KEY_APP_STARTS].as_u64(), Some(1));
}

#[test]
fn multiple_increments_same_key_accumulate() {
    let mut c = UsageCounters::open(path(), true, None);
    for _ in 0..1000 {
        c.increment(KEY_APP_STARTS);
    }
    assert_eq!(count(&c, KEY_APP_STARTS), Some(1000));
}

#[test]
fn path_accessor_returns_input_path() {
    let p = PathBuf::from("/data/x.json");
    let c = UsageCounters::open(p.clone(), false, None);
    assert_eq!(c.path(), &p);
    assert!(!c.enabled());
}

#[test]
fn counts_stop_at_the_largest_number() {
    let raw = format!("{{\"{KEY_APP_STARTS}\": {}}}", u64::MAX);
    let mut c = UsageCounters::open(path(), true, Some(raw.into_bytes()));
    c.increment(KEY_APP_STARTS);
    assert_eq!(count(&c, KEY_APP_STARTS), Some(u64::MAX));
}

#[test]
fn zero_counts_are_not_written() {
    let mut c = UsageCounters::open(path(), true, Some(b"{\"a\": 0, \"b\": 2}".to_vec()));
    assert_eq!(count(&c, "a"), Some(0));
    let raw = String::from_utf8(c.flush().unwrap()).unwrap();
    assert_eq!(raw, "{\n  \"b\": 2\n}");
    c.increment("a");
    let raw = String::from_utf8(c.flush().unwrap()).unwrap();
    assert_eq!(raw, "{\n  \"a\": 1,\n  \"b\": 2\n}");
}

#[test]
fn other_files_start_empty() {
    for raw in ["", "[]", "{\"a\": -1}", "{\"a\": \"x\"}", "null"] {
        let c = UsageCounters::open(path(), true, Some(raw.as_bytes().to_vec()));
        assert!(c.read().unwrap().is_empty(), "{raw}");
    }
    let c = UsageCounters::open(path(), true, Some(b"{\"a\": 1, \"a\": 2}".to_vec()));
    assert_eq!(c.read().unwrap(), vec![("a".to_string(), 2)]);
}

#[test]
fn later_pairs_win() {
    let pairs = vec![("k".to_string(), 1), ("j".to_string(), 2), ("k".to_string(), 3)];
    let c = UsageCounters::open_with(path(), true, Some(pairs.clone()));
    assert_eq!(c.read().unwrap(), vec![("k".to_string(), 3), ("j".to_string(), 2)]);
    let c = UsageCounters::open_with(path(), false, Some(pairs));
    assert!(c.read().unwrap().is_empty());
}

#[test]
fn totals_are_carried_over_any_number_of_sessions() {
    let mut c = UsageCounters::open(path(), true, None);
    let raw = c.flush_strict().unwrap().unwrap();
    assert!(!raw.is_empty());
    c = UsageCounters::open(path(), true, Some(raw));
    for session in 1..4u64 {
        c.increment(KEY_APP_STARTS);
        c.increment("custom");
        c.increment("custom");
        let before = c.read().unwrap();
        let raw = c.flush_strict().unwrap().unwrap();
        c = UsageCounters::open(path(), true, Some(raw));
        let mut after = c.read().unwrap();
        let mut before = before;
        before.sort();
        after.sort();
        assert_eq!(after, before);
        assert_eq!(count(&c, KEY_APP_STARTS), Some(session));
        assert_eq!(count(&c, "custom"), Some(2 * session));
    }
}

#[test]
fn counts_are_pretty_printed() {
    let mut c = UsageCounters::open(path(), true, None);
    assert_eq!(c.flush_strict().unwrap().unwrap(), b"{}");
    for _ in 0..3 {
        c.increment(KEY_APP_STARTS);
    }
    assert_eq!(c.flush().unwrap(), b"{\n  \"app_starts\": 3\n}");
    for _ in 0..17 {
        c.increment(KEY_TABS_OPENED);
    }
    let raw = String::from_utf8(c.flush().unwrap()).unwrap();
    let one = "{\n  \"app_starts\": 3,\n  \"tabs_opened\": 17\n}";
    let other = "{\n  \"tabs_opened\": 17,\n  \"app_starts\": 3\n}";
    assert!(raw == one || raw == other, "{raw}");
    let mut odd = UsageCounters::open(path(), true, None);
    odd.increment("a\"\n\u{e4}");
    assert_eq!(odd.flush().unwrap(), "{\n  \"a\\\"\\n\u{e4}\": 1\n}".as_bytes());
}
