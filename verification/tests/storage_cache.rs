use crynn::storage::cache::{CacheManager, CacheRow};
use crynn::storage::error::StorageError;

fn urls(rows: &Vec<CacheRow>) -> Vec<String> {
    rows.iter().map(|r| r.url.clone()).collect()
}

#[test]
fn cache_put_then_get_round_trip() {
    let mut cache = CacheManager::new(1);
    let bytes = vec![1u8, 2, 3, 4, 5];
    let out = cache.put_at("https://example.com/a", "text/html", &bytes, None, 1000);
    assert!(out.evicted.is_empty());
    assert_eq!(Some(out.file_path.clone()), cache.blob_path("https://example.com/a"));
    let entry = cache
        .get_at("https://example.com/a", Some(bytes.clone()), 2000)
        .unwrap()
        .unwrap();
    assert_eq!(entry.content, bytes);
    assert_eq!(entry.content_type, "text/html");
    assert_eq!(entry.url, "https://example.com/a");
    assert_eq!(entry.created_at, 1000);
    assert_eq!(entry.expires_at, None);
    assert_eq!(cache.rows()[0].accessed_at, 2000);
}

#[test]
fn cache_get_of_unknown_key_is_none() {
    let mut cache = CacheManager::new(1);
    assert!(cache.get_at("nope", None, 1).unwrap().is_none());
    assert!(cache.get_at("nope", Some(vec![1]), 1).unwrap().is_none());
    assert_eq!(cache.blob_path("nope"), None);
}

#[test]
fn cache_size_accounting_is_exact() {
    let mut cache = CacheManager::new(1);
    cache.put_at("a", "t", &[0u8; 10], None, 1);
    cache.put_at("b", "t", &[0u8; 20], None, 2);
    cache.put_at("c", "t", &[0u8; 300], None, 3);
    assert_eq!(cache.get_size(), 330);
    assert_eq!(cache.count(), 3);
}

#[test]
fn cache_put_replaces_existing_key() {
    let mut cache = CacheManager::new(1);
    cache.put_at("a", "text/plain", &[0u8; 10], None, 1);
    cache.put_at("b", "text/plain", &[0u8; 5], None, 2);
    cache.put_at("a", "image/png", &[0u8; 7], Some(99), 3);
    assert_eq!(cache.count(), 2);
    assert_eq!(cache.get_size(), 12);
    assert_eq!(urls(cache.rows()), vec!["b".to_string(), "a".to_string()]);
    let row = &cache.rows()[1];
    assert_eq!(row.content_type, "image/png");
    assert_eq!(row.size, 7);
    assert_eq!(row.created_at, 3);
    assert_eq!(row.expires_at, Some(99));
}

#[test]
fn cache_eviction_post_condition() {
    let mut cache = CacheManager::new(1);
    let big = vec![0u8; 400 * 1024];
    cache.put_at("a", "t", &big, None, 1);
    cache.put_at("b", "t", &big, None, 2);
    let out = cache.put_at("c", "t", &big, None, 3);
    assert_eq!(urls(&out.evicted), vec!["a".to_string()]);
    assert!(cache.get_size() <= cache.max_size_bytes());
    assert_eq!(cache.get_size(), 800 * 1024);
    assert_eq!(urls(cache.rows()), vec!["b".to_string(), "c".to_string()]);
    cache.cleanup_at(4);
    assert!(cache.get_size() <= cache.max_size_bytes());
}

#[test]
fn cache_eviction_order_follows_access() {
    let mut cache = CacheManager::new(1);
    cache.put_at("A", "t", &[0u8; 100], None, 1);
    cache.put_at("B", "t", &[0u8; 100], None, 2);
    cache.put_at("C", "t", &[0u8; 100], None, 3);
    cache.get_at("A", Some(vec![0u8; 100]), 10).unwrap();
    cache.get_at("B", Some(vec![0u8; 100]), 11).unwrap();
    cache.get_at("C", Some(vec![0u8; 100]), 12).unwrap();
    cache.set_max_size_bytes(100);
    let gone = cache.cleanup_at(20);
    assert_eq!(urls(&gone), vec!["A".to_string(), "B".to_string()]);
    assert_eq!(urls(cache.rows()), vec!["C".to_string()]);
    assert_eq!(cache.get_size(), 100);
}

#[test]
fn cache_eviction_tie_break_by_creation() {
    let mut cache = CacheManager::new(1);
    cache.put_at("late", "t", &[0u8; 10], None, 5);
    cache.put_at("early", "t", &[0u8; 10], None, 2);
    cache.get_at("late", Some(vec![]), 50).unwrap();
    cache.get_at("early", Some(vec![]), 50).unwrap();
    cache.set_max_size_bytes(10);
    let gone = cache.cleanup_at(60);
    assert_eq!(urls(&gone), vec!["early".to_string()]);
    assert_eq!(urls(cache.rows()), vec!["late".to_string()]);
}

#[test]
fn cache_eviction_full_tie_takes_first_row() {
    let mut cache = CacheManager::new(1);
    cache.put_at("x", "t", &[0u8; 10], None, 7);
    cache.put_at("y", "t", &[0u8; 10], None, 7);
    cache.set_max_size_bytes(10);
    let gone = cache.cleanup_at(8);
    assert_eq!(urls(&gone), vec!["x".to_string()]);
}

#[test]
fn cache_entry_larger_than_budget_is_not_kept() {
    let mut cache = CacheManager::new(0);
    let out = cache.put_at("a", "t", &[0u8; 1], None, 1);
    assert_eq!(urls(&out.evicted), vec!["a".to_string()]);
    assert_eq!(cache.count(), 0);
    assert_eq!(cache.get_size(), 0);
}

#[test]
fn cache_cleanup_removes_expired_first() {
    let mut cache = CacheManager::new(1);
    cache.put_at("old", "t", &[0u8; 10], Some(100), 1);
    cache.put_at("edge", "t", &[0u8; 10], Some(200), 2);
    cache.put_at("forever", "t", &[0u8; 10], None, 3);
    let gone = cache.cleanup_at(200);
    assert_eq!(urls(&gone), vec!["old".to_string()]);
    assert_eq!(urls(cache.rows()), vec!["edge".to_string(), "forever".to_string()]);
    assert_eq!(cache.get_size(), 20);
}

#[test]
fn cache_cleanup_is_idempotent() {
    let mut cache = CacheManager::new(1);
    cache.put_at("a", "t", &[0u8; 600], Some(5), 1);
    cache.put_at("b", "t", &[0u8; 600], None, 2);
    cache.put_at("c", "t", &[0u8; 600], None, 3);
    cache.set_max_size_bytes(1000);
    let first = cache.cleanup_at(10);
    assert_eq!(urls(&first), vec!["a".to_string(), "b".to_string()]);
    let second = cache.cleanup_at(10);
    assert!(second.is_empty());
    assert_eq!(urls(cache.rows()), vec!["c".to_string()]);
}

#[test]
fn cache_missing_blob_heals_row() {
    let mut cache = CacheManager::new(1);
    cache.put_at("a", "t", &[0u8; 10], None, 1);
    cache.put_at("b", "t", &[0u8; 20], None, 2);
    let r = cache.get_at("a", None, 3);
    assert_eq!(r.err(), Some(StorageError::NotFound));
    assert_eq!(urls(cache.rows()), vec!["b".to_string()]);
    assert_eq!(cache.get_size(), 20);
    assert!(cache.get_at("a", None, 4).unwrap().is_none());
}

#[test]
fn cache_blob_name_is_md5_of_key() {
    assert_eq!(CacheManager::blob_name("hello"), "5d41402abc4b2a76b9719d911017c592");
    assert_eq!(CacheManager::blob_name(""), "d41d8cd98f00b204e9800998ecf8427e");
    let mut cache = CacheManager::new(1);
    let out = cache.put_at("hello", "t", &[1u8], None, 1);
    assert_eq!(out.file_path, "5d41402abc4b2a76b9719d911017c592");
    assert_eq!(cache.rows()[0].file_path, "5d41402abc4b2a76b9719d911017c592");
}

#[test]
fn cache_budget_is_in_mebibytes() {
    let cache = CacheManager::new(100);
    assert_eq!(cache.max_size_bytes(), 100 * 1024 * 1024);
    assert_eq!(cache.get_size(), 0);
}

#[test]
fn cache_clock_variants_work() {
    let mut cache = CacheManager::new(1);
    let out = cache.put("k", "text/plain", b"abc", None);
    assert!(out.evicted.is_empty());
    let entry = cache.get("k", Some(b"abc".to_vec())).unwrap().unwrap();
    assert_eq!(entry.content, b"abc".to_vec());
    assert!(cache.rows()[0].accessed_at >= cache.rows()[0].created_at);
    assert!(cache.rows()[0].created_at > 1_500_000_000_000);
    assert!(cache.cleanup().is_empty());
}

#[test]
fn storage_error_messages() {
    assert_eq!(StorageError::NotFound.message(), "not found");
    assert_eq!(StorageError::ParseError.message(), "Invalid Set-Cookie format");
    assert_eq!(StorageError::NoHost.message(), "URL has no host");
    assert_eq!(StorageError::IoError.message(), "I/O error");
    assert_eq!(StorageError::SchemaError.message(), "schema error");
}

#[test]
fn cache_many_puts_without_eviction_add_up() {
    let mut cache = CacheManager::new(1);
    let mut expected = 0;
    for i in 0..50usize {
        let out = cache.put_at(&format!("key-{}", i), "t", &vec![0u8; i * 7 + 1], None, i as i64);
        assert!(out.evicted.is_empty());
        expected += i * 7 + 1;
        assert_eq!(cache.get_size(), expected);
    }
    assert_eq!(cache.count(), 50);
    let sum: usize = cache.rows().iter().map(|r| r.size).sum();
    assert_eq!(sum, expected);
}
