use ptp_trace::correlation::SyncSenderCache;
use ptp_trace::identity::ClockIdentity;

fn identity(last: u8) -> ClockIdentity {
    ClockIdentity::new([0, 0, 0, 0, 0, 0, 0, last])
}

#[test]
fn test_latest_for_domain_age() {
    let mut cache = SyncSenderCache::new();
    cache.upsert(5, identity(1), 1000);

    let (who, age) = cache.latest_for_domain(5, 3000).unwrap();
    assert_eq!(who, identity(1));
    assert_eq!(age, 2000);

    assert!(cache.latest_for_domain(6, 3000).is_none());
}

#[test]
fn test_upsert_refreshes_existing_entry() {
    let mut cache = SyncSenderCache::new();
    cache.upsert(5, identity(1), 1000);
    cache.upsert(5, identity(1), 4000);
    assert_eq!(cache.entries.len(), 1);

    let (_, age) = cache.latest_for_domain(5, 5000).unwrap();
    assert_eq!(age, 1000);
}

#[test]
fn test_latest_prefers_most_recent() {
    let mut cache = SyncSenderCache::new();
    cache.upsert(5, identity(1), 1000);
    cache.upsert(5, identity(2), 2000);
    cache.upsert(5, identity(3), 1500);

    let (who, _) = cache.latest_for_domain(5, 2500).unwrap();
    assert_eq!(who, identity(2));
}

// An entry older than sixty seconds is absent from subsequent lookups
// (driven here by a synthetic clock).
#[test]
fn test_entries_expire_after_retention() {
    let mut cache = SyncSenderCache::new();
    cache.upsert(5, identity(1), 0);

    cache.cleanup(59_999);
    assert!(cache.latest_for_domain(5, 59_999).is_some());

    cache.cleanup(60_000);
    assert!(cache.latest_for_domain(5, 60_000).is_none());
    assert_eq!(cache.entries.len(), 0);
}

#[test]
fn test_upsert_evicts_stale_entries() {
    let mut cache = SyncSenderCache::new();
    cache.upsert(5, identity(1), 0);
    cache.upsert(6, identity(2), 30_000);
    // Upserting at 70 seconds drops the entry from time zero but keeps
    // the thirty-second-old one.
    cache.upsert(7, identity(3), 70_000);

    assert!(cache.latest_for_domain(5, 70_000).is_none());
    assert!(cache.latest_for_domain(6, 70_000).is_some());
    assert!(cache.latest_for_domain(7, 70_000).is_some());
}

#[test]
fn test_domains_are_independent() {
    let mut cache = SyncSenderCache::new();
    cache.upsert(5, identity(1), 1000);
    cache.upsert(6, identity(2), 2000);

    let (who5, _) = cache.latest_for_domain(5, 3000).unwrap();
    let (who6, _) = cache.latest_for_domain(6, 3000).unwrap();
    assert_eq!(who5, identity(1));
    assert_eq!(who6, identity(2));
}
