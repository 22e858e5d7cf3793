//! Tests of the hash cache and its freshness rule.

use duplicate_photo_cleaner::cache::{CacheBackend, CacheEntry, InMemoryCache};
use duplicate_photo_cleaner::hashval::HashAlgorithmKind;
use duplicate_photo_cleaner::history::ScanStatus;

fn create_entry(path: &str) -> CacheEntry {
    CacheEntry {
        path: path.to_string(),
        hash: vec![0xDE, 0xAD, 0xBE, 0xEF],
        algorithm: HashAlgorithmKind::Difference,
        file_size: 1000,
        file_modified: 1_700_000_000,
        cached_at: 1_700_000_000,
    }
}

#[test]
fn cache_miss_returns_none() {
    let cache = InMemoryCache::new();
    let result = cache
        .get(&"/nonexistent.jpg".to_string(), 1000, 1_700_000_000)
        .unwrap();
    assert!(result.is_none());
}

#[test]
fn cache_hit_returns_entry() {
    let mut cache = InMemoryCache::new();
    let entry = create_entry("/test.jpg");
    let modified = entry.file_modified;
    cache.set(entry).unwrap();
    let result = cache.get(&"/test.jpg".to_string(), 1000, modified).unwrap();
    assert!(result.is_some());
    assert_eq!(result.unwrap().hash, vec![0xDE, 0xAD, 0xBE, 0xEF]);
}

#[test]
fn modified_file_invalidates_cache() {
    let mut cache = InMemoryCache::new();
    let entry = create_entry("/test.jpg");
    let original_modified = entry.file_modified;
    cache.set(entry).unwrap();
    let later = original_modified + 60;
    let result = cache.get(&"/test.jpg".to_string(), 1000, later).unwrap();
    assert!(result.is_none());
}

#[test]
fn clear_removes_all_entries() {
    let mut cache = InMemoryCache::new();
    cache.set(create_entry("/a.jpg")).unwrap();
    cache.set(create_entry("/b.jpg")).unwrap();
    cache.clear().unwrap();
    let stats = cache.stats().unwrap();
    assert_eq!(stats.total_entries, 0);
}

#[test]
fn stats_are_accurate() {
    let mut cache = InMemoryCache::new();
    cache.set(create_entry("/a.jpg")).unwrap();
    cache.set(create_entry("/b.jpg")).unwrap();
    let stats = cache.stats().unwrap();
    assert_eq!(stats.total_entries, 2);
    assert_eq!(stats.total_size_bytes, 8);
}

#[test]
fn remove_deletes_specific_entry() {
    let mut cache = InMemoryCache::new();
    let entry = create_entry("/test.jpg");
    let modified = entry.file_modified;
    cache.set(entry).unwrap();
    cache.remove(&"/test.jpg".to_string()).unwrap();
    let result = cache.get(&"/test.jpg".to_string(), 1000, modified).unwrap();
    assert!(result.is_none());
}

#[test]
fn cache_entry_valid_when_unchanged() {
    let entry = create_entry("/test.jpg");
    assert!(entry.is_valid_for(1000, 1_700_000_000));
}

#[test]
fn cache_entry_invalid_when_size_changed() {
    let entry = create_entry("/test.jpg");
    assert!(!entry.is_valid_for(2000, 1_700_000_000));
}

#[test]
fn cache_entry_invalid_when_modified() {
    let entry = create_entry("/test.jpg");
    assert!(!entry.is_valid_for(1000, 1_700_000_060));
}

#[test]
fn set_batch_upserts_every_entry() {
    let mut cache = InMemoryCache::new();
    let entries = vec![create_entry("/a.jpg"), create_entry("/b.jpg")];
    cache.set_batch(&entries).unwrap();
    assert!(cache.get(&"/a.jpg".to_string(), 1000, 1_700_000_000).unwrap().is_some());
    assert!(cache.get(&"/b.jpg".to_string(), 1000, 1_700_000_000).unwrap().is_some());
}

#[test]
fn touched_file_is_rehashed_and_upserted() {
    // A size change misses; upserting the refreshed entry hits again.
    let mut cache = InMemoryCache::new();
    cache.set(create_entry("/photo.jpg")).unwrap();
    assert!(cache.get(&"/photo.jpg".to_string(), 1001, 1_700_000_000).unwrap().is_none());
    let mut refreshed = create_entry("/photo.jpg");
    refreshed.file_size = 1001;
    refreshed.hash = vec![0x01];
    cache.set(refreshed).unwrap();
    let hit = cache.get(&"/photo.jpg".to_string(), 1001, 1_700_000_000).unwrap();
    assert_eq!(hit.unwrap().hash, vec![0x01]);
}

#[test]
fn prune_orphans_removes_missing_paths() {
    let mut cache = InMemoryCache::new();
    cache.set(create_entry("/a.jpg")).unwrap();
    cache.set(create_entry("/b.jpg")).unwrap();
    let removed = cache.prune_orphans(&vec!["/a.jpg".to_string()]);
    assert_eq!(removed, 1);
    assert!(cache.get(&"/a.jpg".to_string(), 1000, 1_700_000_000).unwrap().is_none());
    assert!(cache.get(&"/b.jpg".to_string(), 1000, 1_700_000_000).unwrap().is_some());
}

#[test]
fn storage_names_round_trip() {
    assert_eq!(HashAlgorithmKind::Average.storage_name(), "average");
    assert_eq!(HashAlgorithmKind::Difference.storage_name(), "difference");
    assert_eq!(HashAlgorithmKind::Perceptual.storage_name(), "perceptual");
    assert_eq!(
        HashAlgorithmKind::from_storage_name("average"),
        HashAlgorithmKind::Average
    );
    assert_eq!(
        HashAlgorithmKind::from_storage_name("anything else"),
        HashAlgorithmKind::Difference
    );
}

#[test]
fn prune_orphans_keeps_other_entries_intact() {
    let mut cache = InMemoryCache::new();
    cache.set(create_entry("/a.jpg")).unwrap();
    cache.set(create_entry("/b.jpg")).unwrap();
    cache.prune_orphans(&vec!["/c.jpg".to_string()]);
    let stats = cache.stats().unwrap();
    assert_eq!(stats.total_entries, 2);
}

#[test]
fn stats_track_oldest_and_newest() {
    let mut cache = InMemoryCache::new();
    let mut e1 = create_entry("/a.jpg");
    e1.cached_at = 100;
    let mut e2 = create_entry("/b.jpg");
    e2.cached_at = 300;
    cache.set(e1).unwrap();
    cache.set(e2).unwrap();
    let stats = cache.stats().unwrap();
    assert_eq!(stats.oldest_entry, Some(100));
    assert_eq!(stats.newest_entry, Some(300));
}

#[test]
fn unknown_status_message_names_it() {
    let status = ScanStatus::from_str("halted", None);
    match status {
        ScanStatus::Error(m) => assert_eq!(m, "Unknown status: halted"),
        _ => panic!("expected an error status"),
    }
}
