use smartos_executor::cache::{Cache, NANOS_PER_SECOND};
use smartos_executor::key::cache_key;

fn strings(items: &[&str]) -> Vec<String> {
    items.iter().map(|s| s.to_string()).collect()
}

#[test]
fn ttl_scenario_set_expire_reset() {
    let mut cache = Cache::new(1);
    let t0: i128 = 1_700_000_000 * NANOS_PER_SECOND;
    cache.set("sysinfo".to_string(), "X".to_string(), t0);
    assert_eq!(cache.get("sysinfo", t0), Some("X".to_string()));
    assert_eq!(cache.get("sysinfo", t0 + NANOS_PER_SECOND - 1), Some("X".to_string()));
    assert_eq!(cache.get("sysinfo", t0 + NANOS_PER_SECOND), None);
    let t1 = t0 + 2 * NANOS_PER_SECOND;
    cache.set("sysinfo".to_string(), "Y".to_string(), t1);
    assert_eq!(cache.get("sysinfo", t1), Some("Y".to_string()));
}

#[test]
fn two_reads_within_ttl_agree() {
    let mut cache = Cache::new(300);
    cache.set("imgadm list -j".to_string(), "[]".to_string(), 0);
    let a = cache.get("imgadm list -j", 5);
    let b = cache.get("imgadm list -j", 299 * NANOS_PER_SECOND);
    assert_eq!(a, b);
    assert_eq!(a, Some("[]".to_string()));
}

#[test]
fn expired_entry_stays_absent_after_other_writes() {
    let mut cache = Cache::new(10);
    cache.set("a".to_string(), "1".to_string(), 0);
    cache.set("b".to_string(), "2".to_string(), 20 * NANOS_PER_SECOND);
    cache.remove("c");
    assert_eq!(cache.get("a", 10 * NANOS_PER_SECOND), None);
    assert_eq!(cache.get("a", 30 * NANOS_PER_SECOND), None);
    assert_eq!(cache.get("b", 25 * NANOS_PER_SECOND), Some("2".to_string()));
}

#[test]
fn set_returns_replaced_entry_and_remove_drops() {
    let mut cache = Cache::new(5);
    assert!(cache.set("k".to_string(), "old".to_string(), 0).is_none());
    let prev = cache.set("k".to_string(), "new".to_string(), 1).unwrap();
    assert_eq!(prev.content, "old");
    assert_eq!(prev.expiry, 5 * NANOS_PER_SECOND);
    let removed = cache.remove("k").unwrap();
    assert_eq!(removed.content, "new");
    assert_eq!(removed.expiry, 1 + 5 * NANOS_PER_SECOND);
    assert_eq!(cache.get("k", 2), None);
    assert!(cache.remove("k").is_none());
}

#[test]
fn missing_key_is_absent() {
    let cache = Cache::new(300);
    assert_eq!(cache.get("sysinfo", 0), None);
    assert_eq!(cache.ttl_seconds(), 300);
}

#[test]
fn expiry_saturates_at_the_end_of_time() {
    let mut cache = Cache::new(10);
    let prev_none = cache.set("k".to_string(), "v".to_string(), i128::MAX - 1);
    assert!(prev_none.is_none());
    assert_eq!(cache.get("k", i128::MAX - 1), Some("v".to_string()));
    let entry = cache.remove("k").unwrap();
    assert_eq!(entry.expiry, i128::MAX);
}

#[test]
fn negative_ttl_expires_at_once() {
    let mut cache = Cache::new(-1);
    cache.set("k".to_string(), "v".to_string(), 0);
    assert_eq!(cache.get("k", 0), None);
}

#[test]
fn keys_of_plain_arguments_read_as_a_command_line() {
    assert_eq!(cache_key("imgadm", &strings(&["list", "-j"])), "imgadm list -j");
    assert_eq!(cache_key("sysinfo", &Vec::new()), "sysinfo");
}

#[test]
fn keys_escape_spaces_and_backslashes() {
    assert_eq!(cache_key("a b", &strings(&["c\\d"])), "a\\sb c\\\\d");
    assert_ne!(cache_key("imgadm", &strings(&["a b"])), cache_key("imgadm", &strings(&["a", "b"])));
    assert_ne!(cache_key("x", &strings(&[""])), cache_key("x", &Vec::new()));
    assert_ne!(cache_key("x", &strings(&["\\s"])), cache_key("x", &strings(&[" "])));
}

#[test]
fn remove_prefix_drops_matching_keys_only() {
    let mut cache = Cache::new(60);
    cache.set("imgadm get a".to_string(), "1".to_string(), 0);
    cache.set("imgadm get b".to_string(), "2".to_string(), 0);
    cache.set("imgadm list -j".to_string(), "3".to_string(), 0);
    cache.set("sysinfo".to_string(), "4".to_string(), 0);
    cache.remove_prefix("imgadm get ");
    assert_eq!(cache.get("imgadm get a", 1), None);
    assert_eq!(cache.get("imgadm get b", 1), None);
    assert_eq!(cache.get("imgadm list -j", 1), Some("3".to_string()));
    assert_eq!(cache.get("sysinfo", 1), Some("4".to_string()));
    cache.remove_prefix("");
    assert_eq!(cache.get("sysinfo", 1), None);
}
