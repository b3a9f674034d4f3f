//! The browser's local persistent data: a bounded resource cache, a cookie
//! jar that enforces security policy, and history and bookmark logs.
//!
//! Every store keeps its rows in memory and decides what is kept, returned
//! or removed. Persisting rows and blob files is the caller's part: each
//! operation reports what has to be written or deleted.

pub mod bookmarks;
pub mod cache;
pub mod cookies;
pub mod error;
pub mod history;

use vstd::prelude::*;
use crate::storage::bookmarks::{BookmarkManager, BookmarkView};
use crate::storage::cache::{CacheManager, CacheRow, CacheRowView};
use crate::storage::cookies::{CookieManager, CookieView};
use crate::storage::history::{HistoryItem, HistoryManager, HistoryView};

verus! {

/// The views of a sequence of strings.
pub open spec fn strings_view(v: Seq<String>) -> Seq<Seq<char>> {
    Seq::new(v.len(), |i: int| v[i]@)
}

/// Where the stores live and how large they may grow.
#[derive(Debug)]
pub struct StorageConfig {
    /// Directory that holds the index file and the cache directory.
    pub data_dir: String,
    /// Budget of the resource cache in mebibytes.
    pub cache_size_mb: usize,
    pub max_history_items: usize,
    pub max_bookmarks: usize,
}

impl StorageConfig {
    /// The default limits for a store under `data_dir`: a cache of 100
    /// mebibytes, 10000 history rows and 1000 bookmarks.
    pub fn new(data_dir: String) -> (config: StorageConfig)
        ensures
            config.data_dir == data_dir,
            config.cache_size_mb == 100,
            config.max_history_items == 10000,
            config.max_bookmarks == 1000,
            config.is_valid(),
    {
        StorageConfig {
            data_dir,
            cache_size_mb: 100,
            max_history_items: 10000,
            max_bookmarks: 1000,
        }
    }

    /// Whether the cache budget can be expressed in bytes.
    pub open spec fn is_valid(&self) -> bool {
        self.cache_size_mb * 1048576 <= usize::MAX
    }

    /// Checks that the cache budget can be expressed in bytes.
    pub fn validate(&self) -> (ok: bool)
        ensures
            ok == self.is_valid(),
    {
        self.cache_size_mb <= usize::MAX / 1048576
    }
}

/// Aggregate figures over all stores.
#[derive(Debug, Clone, Copy, PartialEq, Eq, Structural)]
pub struct StorageStats {
    /// Aggregate size of the cached blobs in whole mebibytes.
    pub cache_size_mb: usize,
    pub history_items: usize,
    pub bookmarks: usize,
    pub cookies: usize,
    /// On-disk footprint of index file and cache directory, as measured
    /// by the caller.
    pub total_size_mb: usize,
}

/// What a cleanup pass removed.
#[derive(Debug)]
pub struct CleanupReport {
    /// Cache rows that expired or were evicted; their blob files must be deleted.
    pub cache_rows: Vec<CacheRow>,
    /// History rows beyond the cap.
    pub history_items: Vec<HistoryItem>,
    /// Number of expired cookies that were deleted.
    pub cookies: usize,
}

/// The facade over the four stores.
#[derive(Debug)]
pub struct StorageManager {
    config: StorageConfig,
    cache: CacheManager,
    cookies: CookieManager,
    history: HistoryManager,
    bookmarks: BookmarkManager,
}

impl StorageManager {
    /// The resource cache as a value.
    pub closed spec fn cache_state(&self) -> CacheManager {
        self.cache
    }

    /// The cookie jar as a value.
    pub closed spec fn cookie_state(&self) -> CookieManager {
        self.cookies
    }

    /// The history as a value.
    pub closed spec fn history_state(&self) -> HistoryManager {
        self.history
    }

    /// The bookmark list as a value.
    pub closed spec fn bookmark_state(&self) -> BookmarkManager {
        self.bookmarks
    }

    /// The configuration as a value.
    pub closed spec fn config_state(&self) -> StorageConfig {
        self.config
    }

    /// The rows of the resource cache.
    pub open spec fn cache_rows(&self) -> Seq<CacheRowView> {
        self.cache_state()@
    }

    /// The budget of the resource cache in bytes.
    pub open spec fn cache_budget(&self) -> nat {
        self.cache_state().budget()
    }

    /// The aggregate size counter of the resource cache.
    pub open spec fn cache_size(&self) -> nat {
        self.cache_state().size()
    }

    /// The stored cookies.
    pub open spec fn cookie_rows(&self) -> Seq<CookieView> {
        self.cookie_state()@
    }

    /// The history rows.
    pub open spec fn history_rows(&self) -> Seq<HistoryView> {
        self.history_state()@
    }

    /// The cap on history rows.
    pub open spec fn history_cap(&self) -> nat {
        self.history_state().cap()
    }

    /// The bookmarks.
    pub open spec fn bookmark_rows(&self) -> Seq<BookmarkView> {
        self.bookmark_state()@
    }

    /// Every store satisfies its invariant.
    pub open spec fn wf(&self) -> bool {
        &&& self.cache_state().wf()
        &&& self.cookie_state().wf()
        &&& self.history_state().wf()
    }

    /// Four empty stores with the limits of `config`.
    pub fn new(config: StorageConfig) -> (manager: StorageManager)
        requires
            config.is_valid(),
        ensures
            manager.wf(),
            manager.cache_rows() == Seq::<CacheRowView>::empty(),
            manager.cache_budget() == config.cache_size_mb * 1048576,
            manager.cache_size() == 0,
            manager.cookie_rows() == Seq::<CookieView>::empty(),
            manager.history_rows() == Seq::<HistoryView>::empty(),
            manager.history_cap() == config.max_history_items,
            manager.bookmark_rows() == Seq::<BookmarkView>::empty(),
            manager.config_state() == config,
    {
        let cache = CacheManager::new(config.cache_size_mb);
        let cookies = CookieManager::new();
        let history = HistoryManager::new(config.max_history_items);
        let bookmarks = BookmarkManager::new(config.max_bookmarks);
        StorageManager { config, cache, cookies, history, bookmarks }
    }

    /// The configuration.
    pub fn config(&self) -> (c: &StorageConfig)
        ensures
            *c == self.config_state(),
    {
        &self.config
    }

    /// The resource cache.
    pub fn cache(&self) -> (c: &CacheManager)
        ensures
            *c == self.cache_state(),
    {
        &self.cache
    }

    /// The cookie jar.
    pub fn cookies(&self) -> (c: &CookieManager)
        ensures
            *c == self.cookie_state(),
    {
        &self.cookies
    }

    /// The visit history.
    pub fn history(&self) -> (h: &HistoryManager)
        ensures
            *h == self.history_state(),
    {
        &self.history
    }

    /// The bookmark list.
    pub fn bookmarks(&self) -> (b: &BookmarkManager)
        ensures
            *b == self.bookmark_state(),
    {
        &self.bookmarks
    }

    /// The resource cache, for writing. The other stores are untouched.
    pub fn cache_mut(&mut self) -> (c: &mut CacheManager)
        ensures
            *c == old(self).cache_state(),
            final(self).cache_state() == *final(c),
            final(self).config_state() == old(self).config_state(),
            final(self).cookie_state() == old(self).cookie_state(),
            final(self).history_state() == old(self).history_state(),
            final(self).bookmark_state() == old(self).bookmark_state(),
    {
        &mut self.cache
    }

    /// The cookie jar, for writing. The other stores are untouched.
    pub fn cookies_mut(&mut self) -> (c: &mut CookieManager)
        ensures
            *c == old(self).cookie_state(),
            final(self).cookie_state() == *final(c),
            final(self).config_state() == old(self).config_state(),
            final(self).cache_state() == old(self).cache_state(),
            final(self).history_state() == old(self).history_state(),
            final(self).bookmark_state() == old(self).bookmark_state(),
    {
        &mut self.cookies
    }

    /// The visit history, for writing. The other stores are untouched.
    pub fn history_mut(&mut self) -> (h: &mut HistoryManager)
        ensures
            *h == old(self).history_state(),
            final(self).history_state() == *final(h),
            final(self).config_state() == old(self).config_state(),
            final(self).cache_state() == old(self).cache_state(),
            final(self).cookie_state() == old(self).cookie_state(),
            final(self).bookmark_state() == old(self).bookmark_state(),
    {
        &mut self.history
    }

    /// The bookmark list, for writing. The other stores are untouched.
    pub fn bookmarks_mut(&mut self) -> (b: &mut BookmarkManager)
        ensures
            *b == old(self).bookmark_state(),
            final(self).bookmark_state() == *final(b),
            final(self).config_state() == old(self).config_state(),
            final(self).cache_state() == old(self).cache_state(),
            final(self).cookie_state() == old(self).cookie_state(),
            final(self).history_state() == old(self).history_state(),
    {
        &mut self.bookmarks
    }

    /// Aggregate figures: cache size in whole mebibytes, the number of
    /// history rows, bookmarks and cookies, and the on-disk footprint that
    /// the caller measured.
    pub fn get_storage_stats(&self, disk_footprint: usize) -> (stats: StorageStats)
        ensures
            stats.cache_size_mb == self.cache_size() / 1048576,
            stats.history_items == self.history_rows().len(),
            stats.bookmarks == self.bookmark_rows().len(),
            stats.cookies == self.cookie_rows().len(),
            stats.total_size_mb == disk_footprint,
    {
        StorageStats {
            cache_size_mb: self.cache.get_size() / 1048576,
            history_items: self.history.count(),
            bookmarks: self.bookmarks.count(),
            cookies: self.cookies.count(),
            total_size_mb: disk_footprint,
        }
    }

    /// One cleanup pass at `now`: the cache first, then the history, then
    /// the cookies. Bookmarks are left alone.
    pub fn cleanup_at(&mut self, now: i64) -> (report: CleanupReport)
        requires
            old(self).wf(),
        ensures
            final(self).wf(),
            final(self).cache_budget() == old(self).cache_budget(),
            final(self).history_cap() == old(self).history_cap(),
            final(self).cache_size() <= final(self).cache_budget(),
            final(self).cache_rows() == crate::storage::cache::evict_until(
                crate::storage::cache::without_expired(old(self).cache_rows(), now),
                old(self).cache_budget(),
            ),
            crate::storage::cache::row_views(report.cache_rows@)
                == crate::storage::cache::expired_rows(old(self).cache_rows(), now)
                + crate::storage::cache::evicted(
                crate::storage::cache::without_expired(old(self).cache_rows(), now),
                old(self).cache_budget(),
            ),
            final(self).history_rows() == crate::storage::history::keep_newest(
                old(self).history_rows(),
                old(self).history_cap(),
            ),
            crate::storage::history::item_views(report.history_items@)
                == crate::storage::history::dropped(
                old(self).history_rows(),
                old(self).history_cap(),
            ),
            final(self).cookie_rows() == crate::storage::cookies::without_expired(
                old(self).cookie_rows(),
                now,
            ),
            report.cookies == old(self).cookie_rows().len() - final(self).cookie_rows().len(),
            final(self).bookmark_rows() == old(self).bookmark_rows(),
    {
        let cache_rows = self.cache.cleanup_at(now);
        let history_items = self.history.cleanup();
        let cookies = self.cookies.cleanup_at(now);
        self.bookmarks.cleanup();
        CleanupReport { cache_rows, history_items, cookies }
    }

    /// One cleanup pass for the current time.
    pub fn cleanup(&mut self) -> (report: CleanupReport)
        requires
            old(self).wf(),
        ensures
            final(self).wf(),
            final(self).cache_budget() == old(self).cache_budget(),
            final(self).history_cap() == old(self).history_cap(),
            final(self).cache_size() <= final(self).cache_budget(),
            final(self).history_rows() == crate::storage::history::keep_newest(
                old(self).history_rows(),
                old(self).history_cap(),
            ),
            final(self).bookmark_rows() == old(self).bookmark_rows(),
            exists|now: i64|
                final(self).cache_rows() == crate::storage::cache::evict_until(
                    #[trigger] crate::storage::cache::without_expired(
                        old(self).cache_rows(),
                        now,
                    ),
                    old(self).cache_budget(),
                ) && final(self).cookie_rows() == crate::storage::cookies::without_expired(
                    old(self).cookie_rows(),
                    now,
                ),
    {
        let now = crate::clock::now_millis();
        self.cleanup_at(now)
    }
}

/// Idempotent cleanup: a second pass at the same time removes nothing
/// from the cache, the history or the cookies.
pub proof fn lemma_cleanup_twice(
    cache: Seq<CacheRowView>,
    budget: nat,
    history: Seq<HistoryView>,
    cap: nat,
    cookies: Seq<CookieView>,
    now: i64,
)
    ensures
        ({
            let once = crate::storage::cache::evict_until(
                crate::storage::cache::without_expired(cache, now),
                budget,
            );
            &&& crate::storage::cache::evict_until(
                crate::storage::cache::without_expired(once, now),
                budget,
            ) == once
            &&& crate::storage::cache::expired_rows(once, now) == Seq::<CacheRowView>::empty()
            &&& crate::storage::cache::evicted(
                crate::storage::cache::without_expired(once, now),
                budget,
            ) == Seq::<CacheRowView>::empty()
        }),
        ({
            let once = crate::storage::history::keep_newest(history, cap);
            &&& crate::storage::history::keep_newest(once, cap) == once
            &&& crate::storage::history::dropped(once, cap) == Seq::<HistoryView>::empty()
        }),
        ({
            let once = crate::storage::cookies::without_expired(cookies, now);
            crate::storage::cookies::without_expired(once, now) == once
        }),
{
    crate::storage::cache::lemma_cleanup_idempotent(cache, budget, now);
    crate::storage::cache::lemma_cleanup_removes_nothing(cache, budget, now);
    crate::storage::history::lemma_cleanup_idempotent(history, cap);
    crate::storage::cookies::lemma_sweep_idempotent(cookies, now);
}

} // verus!
