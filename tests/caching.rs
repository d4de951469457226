use automancy::snapshot::SnapshotCache;

#[test]
fn only_one_fetch_in_flight() {
    let mut c: SnapshotCache<u32> = SnapshotCache::new();
    assert!(c.latest().is_none());
    assert!(c.begin_refresh());
    for _ in 0..10 {
        assert!(!c.begin_refresh());
        assert!(c.is_fetching());
    }
    c.finish_refresh(Some(5));
    assert!(!c.is_fetching());
    assert_eq!(c.latest(), Some(&5));
    assert!(c.begin_refresh());
}

#[test]
fn failed_fetch_keeps_stale_snapshot() {
    let mut c: SnapshotCache<u32> = SnapshotCache::new();
    assert!(c.begin_refresh());
    c.finish_refresh(Some(1));
    assert!(c.begin_refresh());
    c.finish_refresh(None);
    assert_eq!(c.latest(), Some(&1));
    assert!(!c.is_fetching());
}
