use scrobble_core::cache::ResponseCache;

#[test]
fn fresh_entries_are_served_within_the_window() {
    let mut c = ResponseCache::new(100, 300);
    c.store("GET https://api.example/a", 1000, "body-a".to_string());
    assert_eq!(
        c.lookup("GET https://api.example/a", 1000, true),
        Some("body-a".to_string())
    );
    assert_eq!(
        c.lookup("GET https://api.example/a", 1300, true),
        Some("body-a".to_string())
    );
}

#[test]
fn entries_expire_after_the_window() {
    let mut c = ResponseCache::new(100, 300);
    c.store("k", 1000, "body".to_string());
    assert_eq!(c.lookup("k", 1301, true), None);
}

#[test]
fn revalidating_calls_bypass_the_cache() {
    let mut c = ResponseCache::new(100, 300);
    c.store("k", 1000, "body".to_string());
    assert_eq!(c.lookup("k", 1000, false), None);
}

#[test]
fn two_preferring_calls_issue_one_outbound_request() {
    // The outbound counter grows only on a cache miss, as the transport
    // layer behaves.
    let mut c = ResponseCache::new(100, 300);
    let mut outbound: usize = 0;
    for now in [1000u64, 1100u64] {
        if c.lookup("k", now, true).is_none() {
            outbound += 1;
            c.store("k", now, "body".to_string());
        }
    }
    assert_eq!(outbound, 1);

    // Forcing revalidation always goes out.
    let mut outbound_fresh: usize = 0;
    for now in [1000u64, 1100u64] {
        if c.lookup("k", now, false).is_none() {
            outbound_fresh += 1;
            c.store("k", now, "body".to_string());
        }
    }
    assert_eq!(outbound_fresh, 2);
}

#[test]
fn storing_replaces_an_existing_entry() {
    let mut c = ResponseCache::new(100, 300);
    c.store("k", 1000, "old".to_string());
    c.store("k", 1200, "new".to_string());
    assert_eq!(c.lookup("k", 1250, true), Some("new".to_string()));
    assert_eq!(c.entries.len(), 1);
}

#[test]
fn capacity_evicts_the_oldest_inserted_entry() {
    let mut c = ResponseCache::new(2, 300);
    c.store("a", 1000, "1".to_string());
    c.store("b", 1001, "2".to_string());
    c.store("c", 1002, "3".to_string());
    assert_eq!(c.entries.len(), 2);
    assert_eq!(c.lookup("a", 1003, true), None);
    assert_eq!(c.lookup("b", 1003, true), Some("2".to_string()));
    assert_eq!(c.lookup("c", 1003, true), Some("3".to_string()));
}

#[test]
fn unknown_keys_miss() {
    let c = ResponseCache::new(4, 300);
    assert_eq!(c.lookup("nothing", 0, true), None);
}
