use crynn::storage::bookmarks::BookmarkManager;
use crynn::storage::history::HistoryManager;
use crynn::storage::{StorageConfig, StorageManager};
use crynn::web_url::WebUrl;

#[test]
fn history_cap_keeps_most_recent() {
    let mut h = HistoryManager::new(2);
    h.record_visit_at("https://a.example", Some("A"), 1);
    h.record_visit_at("https://b.example", Some("B"), 2);
    h.record_visit_at("https://c.example", None, 3);
    let gone = h.cleanup();
    assert_eq!(gone.len(), 1);
    assert_eq!(gone[0].url, "https://a.example");
    let left: Vec<String> = h.list().iter().map(|i| i.url.clone()).collect();
    assert_eq!(left, vec!["https://b.example", "https://c.example"]);
    assert_eq!(h.count(), 2);
    assert!(h.cleanup().is_empty());
}

#[test]
fn history_cleanup_follows_last_visit_not_insertion() {
    let mut h = HistoryManager::new(1);
    h.record_visit_at("first", None, 1);
    h.record_visit_at("second", None, 2);
    h.record_visit_at("first", None, 3);
    let gone = h.cleanup();
    assert_eq!(gone.len(), 1);
    assert_eq!(gone[0].url, "second");
    assert_eq!(h.list()[0].url, "first");
}

#[test]
fn history_cleanup_removes_in_ascending_order_with_ties() {
    let mut h = HistoryManager::new(1);
    h.record_visit_at("x", None, 5);
    h.record_visit_at("y", None, 5);
    h.record_visit_at("z", None, 4);
    let gone: Vec<String> = h.cleanup().iter().map(|i| i.url.clone()).collect();
    assert_eq!(gone, vec!["z", "x"]);
    assert_eq!(h.list()[0].url, "y");
}

#[test]
fn history_record_visit_upserts() {
    let mut h = HistoryManager::new(10);
    h.record_visit_at("u", Some("Old"), 10);
    h.record_visit_at("u", Some("New"), 20);
    h.record_visit_at("u", None, 30);
    assert_eq!(h.count(), 1);
    let item = &h.list()[0];
    assert_eq!(item.visit_count, 3);
    assert_eq!(item.last_visit, 30);
    assert_eq!(item.created_at, 10);
    assert_eq!(item.title, None);
    assert_eq!(h.max_items(), 10);
}

#[test]
fn history_under_cap_is_untouched() {
    let mut h = HistoryManager::new(5);
    h.record_visit_at("a", None, 1);
    h.record_visit("b", Some("B"));
    assert!(h.cleanup().is_empty());
    assert_eq!(h.count(), 2);
    assert_eq!(h.list()[1].visit_count, 1);
}

#[test]
fn history_cap_of_zero_empties() {
    let mut h = HistoryManager::new(0);
    h.record_visit_at("a", None, 1);
    h.record_visit_at("b", None, 2);
    assert_eq!(h.cleanup().len(), 2);
    assert_eq!(h.count(), 0);
}

#[test]
fn bookmarks_add_list_remove() {
    let mut b = BookmarkManager::new(1000);
    b.add_at("https://a.example", "A", None, 1);
    b.add_at("https://b.example", "B", Some("work"), 2);
    b.add_at("https://c.example", "C", Some("work"), 3);
    b.add("https://a.example", "A again", None);
    assert_eq!(b.count(), 4);
    assert_eq!(b.max_items(), 1000);
    let all = b.list(None);
    assert_eq!(all.len(), 4);
    assert_eq!(all[0].folder, "default");
    assert_eq!(all[0].created_at, 1);
    let work: Vec<String> = b.list(Some("work")).iter().map(|x| x.title.clone()).collect();
    assert_eq!(work, vec!["B", "C"]);
    assert_eq!(b.list(Some("default")).len(), 2);
    assert!(b.list(Some("none")).is_empty());
    assert_eq!(b.remove("https://a.example"), 2);
    assert_eq!(b.remove("https://a.example"), 0);
    let left: Vec<String> = b.list(None).iter().map(|x| x.url.clone()).collect();
    assert_eq!(left, vec!["https://b.example", "https://c.example"]);
}

#[test]
fn bookmarks_cleanup_changes_nothing() {
    let mut b = BookmarkManager::new(1);
    b.add_at("u1", "t1", None, 1);
    b.add_at("u2", "t2", None, 2);
    b.cleanup();
    assert_eq!(b.count(), 2);
}

#[test]
fn storage_config_defaults() {
    let c = StorageConfig::new("/data/crynn".to_string());
    assert_eq!(c.data_dir, "/data/crynn");
    assert_eq!(c.cache_size_mb, 100);
    assert_eq!(c.max_history_items, 10000);
    assert_eq!(c.max_bookmarks, 1000);
    assert!(c.validate());
    let huge = StorageConfig { cache_size_mb: usize::MAX, ..StorageConfig::new(String::new()) };
    assert!(!huge.validate());
}

#[test]
fn storage_manager_stats() {
    let mut m = StorageManager::new(StorageConfig::new("d".to_string()));
    m.cache_mut().put_at("a", "t", &vec![0u8; 3 * 1024 * 1024 + 5], None, 1);
    m.history_mut().record_visit_at("h1", None, 1);
    m.history_mut().record_visit_at("h2", None, 2);
    m.bookmarks_mut().add_at("b", "B", None, 1);
    let u = WebUrl::parse("http://example.com/").unwrap();
    m.cookies_mut().set_cookie_at("a=1", &u, None, 1).unwrap();
    m.cookies_mut().set_cookie_at("b=1", &u, None, 1).unwrap();
    m.cookies_mut().set_cookie_at("c=1", &u, None, 1).unwrap();
    let stats = m.get_storage_stats(4242);
    assert_eq!(stats.cache_size_mb, 3);
    assert_eq!(stats.history_items, 2);
    assert_eq!(stats.bookmarks, 1);
    assert_eq!(stats.cookies, 3);
    assert_eq!(stats.total_size_mb, 4242);
    assert_eq!(m.config().data_dir, "d");
    assert_eq!(m.cache().count(), 1);
    assert_eq!(m.cookies().count(), 3);
    assert_eq!(m.history().count(), 2);
    assert_eq!(m.bookmarks().count(), 1);
}

#[test]
fn storage_manager_cleanup_runs_every_store() {
    let config = StorageConfig {
        data_dir: "d".to_string(),
        cache_size_mb: 1,
        max_history_items: 1,
        max_bookmarks: 1,
    };
    let mut m = StorageManager::new(config);
    m.cache_mut().put_at("gone", "t", &[0u8; 8], Some(10), 1);
    m.cache_mut().put_at("kept", "t", &[0u8; 8], None, 2);
    m.history_mut().record_visit_at("old", None, 1);
    m.history_mut().record_visit_at("new", None, 2);
    let u = WebUrl::parse("http://example.com/").unwrap();
    m.cookies_mut().set_cookie_at("dead=1", &u, Some(10), 1).unwrap();
    m.cookies_mut().set_cookie_at("live=1", &u, None, 1).unwrap();
    m.bookmarks_mut().add_at("b1", "B", None, 1);
    m.bookmarks_mut().add_at("b2", "B", None, 1);
    let report = m.cleanup_at(50);
    assert_eq!(report.cache_rows.len(), 1);
    assert_eq!(report.cache_rows[0].url, "gone");
    assert_eq!(report.history_items.len(), 1);
    assert_eq!(report.history_items[0].url, "old");
    assert_eq!(report.cookies, 1);
    assert_eq!(m.bookmarks().count(), 2);
    let again = m.cleanup_at(50);
    assert!(again.cache_rows.is_empty());
    assert!(again.history_items.is_empty());
    assert_eq!(again.cookies, 0);
    let now = m.cleanup();
    assert!(now.cache_rows.is_empty());
}
