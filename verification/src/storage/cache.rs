//! The bounded resource cache.
//!
//! The cache keeps one row per resource key and the sum of the recorded
//! sizes. Blob files are written and deleted by the caller: `put` names the
//! file to write and the rows whose files must go, `get` is handed what was
//! read from disk.

use vstd::prelude::*;
use crate::clock::now_millis;
use crate::storage::error::StorageError;

verus! {

/// The index row of one cached resource.
#[derive(Debug)]
pub struct CacheRow {
    /// The resource key.
    pub url: String,
    pub content_type: String,
    /// Name of the blob file inside the cache directory.
    pub file_path: String,
    /// Recorded size of the blob in bytes.
    pub size: usize,
    pub created_at: i64,
    pub accessed_at: i64,
    pub expires_at: Option<i64>,
}

/// Mathematical value of a [`CacheRow`].
pub struct CacheRowView {
    pub url: Seq<char>,
    pub content_type: Seq<char>,
    pub file_path: Seq<char>,
    pub size: nat,
    pub created_at: i64,
    pub accessed_at: i64,
    pub expires_at: Option<i64>,
}

impl View for CacheRow {
    type V = CacheRowView;

    open spec fn view(&self) -> CacheRowView {
        CacheRowView {
            url: self.url@,
            content_type: self.content_type@,
            file_path: self.file_path@,
            size: self.size as nat,
            created_at: self.created_at,
            accessed_at: self.accessed_at,
            expires_at: self.expires_at,
        }
    }
}

/// A cached resource as handed to the caller.
#[derive(Debug)]
pub struct CacheEntry {
    pub url: String,
    pub content_type: String,
    pub content: Vec<u8>,
    pub created_at: i64,
    pub expires_at: Option<i64>,
}

/// Mathematical value of a [`CacheEntry`].
pub struct CacheEntryView {
    pub url: Seq<char>,
    pub content_type: Seq<char>,
    pub content: Seq<u8>,
    pub created_at: i64,
    pub expires_at: Option<i64>,
}

impl View for CacheEntry {
    type V = CacheEntryView;

    open spec fn view(&self) -> CacheEntryView {
        CacheEntryView {
            url: self.url@,
            content_type: self.content_type@,
            content: self.content@,
            created_at: self.created_at,
            expires_at: self.expires_at,
        }
    }
}

/// What a `put` asks of the caller.
#[derive(Debug)]
pub struct PutOutcome {
    /// Name of the blob file that holds the new content.
    pub file_path: String,
    /// Rows that were evicted to make room; their blob files must be deleted.
    pub evicted: Vec<CacheRow>,
}

/// The hexadecimal MD5 digest of a text, as `md5::compute` and the digest's
/// lower-hex formatting produce it.
pub uninterp spec fn md5_hex_digest(data: Seq<char>) -> Seq<char>;

/// Calls `md5::compute` on the UTF-8 bytes of `data` and formats the digest
/// in lower-case hexadecimal. The contract only names the outcome.
#[verifier::external_body]
fn md5_hex(data: &str) -> (r: String)
    ensures
        r@ == md5_hex_digest(data@),
{
    format!("{:x}", md5::compute(data))
}

/// The views of a sequence of rows.
pub open spec fn row_views(rows: Seq<CacheRow>) -> Seq<CacheRowView> {
    Seq::new(rows.len(), |i: int| rows[i]@)
}

/// Sum of the recorded sizes.
pub open spec fn total_size(rows: Seq<CacheRowView>) -> nat
    decreases rows.len(),
{
    if rows.len() == 0 {
        0
    } else {
        total_size(rows.drop_last()) + rows.last().size
    }
}

/// No two rows share a key.
pub open spec fn unique_urls(rows: Seq<CacheRowView>) -> bool {
    forall|i: int, j: int| 0 <= i < j < rows.len() ==> rows[i].url != rows[j].url
}

/// Eviction order: `a` goes before `b` when it was accessed earlier, or at
/// the same time and created earlier.
pub open spec fn older(a: CacheRowView, b: CacheRowView) -> bool {
    a.accessed_at < b.accessed_at || (a.accessed_at == b.accessed_at && a.created_at
        < b.created_at)
}

/// Index of the row that is evicted next: the first among those that no
/// other row precedes in eviction order.
pub open spec fn oldest_index(rows: Seq<CacheRowView>) -> int
    decreases rows.len(),
{
    if rows.len() <= 1 {
        0
    } else {
        let j = oldest_index(rows.drop_last());
        if older(rows.last(), rows[j]) {
            rows.len() - 1
        } else {
            j
        }
    }
}

/// The rows that remain when rows are evicted one at a time, oldest first,
/// until the sum of sizes is within `budget`.
pub open spec fn evict_until(rows: Seq<CacheRowView>, budget: nat) -> Seq<CacheRowView>
    decreases rows.len(),
    via evict_until_decreases
{
    if rows.len() == 0 || total_size(rows) <= budget {
        rows
    } else {
        evict_until(rows.remove(oldest_index(rows)), budget)
    }
}

/// The rows that `evict_until` removes, in the order of their eviction.
pub open spec fn evicted(rows: Seq<CacheRowView>, budget: nat) -> Seq<CacheRowView>
    decreases rows.len(),
    via evicted_decreases
{
    if rows.len() == 0 || total_size(rows) <= budget {
        Seq::empty()
    } else {
        seq![rows[oldest_index(rows)]] + evicted(rows.remove(oldest_index(rows)), budget)
    }
}

#[via_fn]
proof fn evict_until_decreases(rows: Seq<CacheRowView>, budget: nat) {
    if rows.len() > 0 {
        lemma_oldest_index(rows);
    }
}

#[via_fn]
proof fn evicted_decreases(rows: Seq<CacheRowView>, budget: nat) {
    if rows.len() > 0 {
        lemma_oldest_index(rows);
    }
}

/// A row whose expiry lies strictly before `now`.
pub open spec fn is_expired(r: CacheRowView, now: i64) -> bool {
    r.expires_at matches Some(e) && e < now
}

/// The rows that an expiry sweep at `now` keeps.
pub open spec fn without_expired(rows: Seq<CacheRowView>, now: i64) -> Seq<CacheRowView> {
    rows.filter(|r: CacheRowView| !is_expired(r, now))
}

/// The rows that an expiry sweep at `now` deletes.
pub open spec fn expired_rows(rows: Seq<CacheRowView>, now: i64) -> Seq<CacheRowView> {
    rows.filter(|r: CacheRowView| is_expired(r, now))
}

/// The rows without the one for `url`.
pub open spec fn without_url(rows: Seq<CacheRowView>, url: Seq<char>) -> Seq<CacheRowView> {
    rows.filter(|r: CacheRowView| r.url != url)
}

/// The rows after `row` has been written and before sizes are enforced.
pub open spec fn with_row(rows: Seq<CacheRowView>, row: CacheRowView) -> Seq<CacheRowView> {
    without_url(rows, row.url).push(row)
}

/// Index of the first row for `url`, or `rows.len()` when there is none.
pub open spec fn row_index(rows: Seq<CacheRowView>, url: Seq<char>) -> int
    decreases rows.len(),
{
    if rows.len() == 0 || rows[0].url == url {
        0
    } else {
        1 + row_index(rows.drop_first(), url)
    }
}

/// The row that a `put` stores.
pub open spec fn new_row(
    url: Seq<char>,
    content_type: Seq<char>,
    size: nat,
    expires_at: Option<i64>,
    now: i64,
) -> CacheRowView {
    CacheRowView {
        url,
        content_type,
        file_path: md5_hex_digest(url),
        size,
        created_at: now,
        accessed_at: now,
        expires_at,
    }
}

/// The entry returned for a row whose blob holds `content`.
pub open spec fn entry_of(row: CacheRowView, content: Seq<u8>) -> CacheEntryView {
    CacheEntryView {
        url: row.url,
        content_type: row.content_type,
        content,
        created_at: row.created_at,
        expires_at: row.expires_at,
    }
}

/// `row_index` is the first position that holds `url`, if there is one.
pub proof fn lemma_row_index(rows: Seq<CacheRowView>, url: Seq<char>)
    ensures
        0 <= row_index(rows, url) <= rows.len(),
        forall|i: int| 0 <= i < row_index(rows, url) ==> (#[trigger] rows[i]).url != url,
        row_index(rows, url) < rows.len() ==> rows[row_index(rows, url)].url == url,
    decreases rows.len(),
{
    if !(rows.len() == 0 || rows[0].url == url) {
        let t = rows.drop_first();
        lemma_row_index(t, url);
        assert forall|i: int| 0 <= i < row_index(rows, url) implies (#[trigger] rows[i]).url
            != url by {
            if i > 0 {
                assert(rows[i] == t[i - 1]);
            }
        }
        if row_index(rows, url) < rows.len() {
            assert(rows[row_index(rows, url)] == t[row_index(t, url)]);
        }
    }
}

/// The first position that holds `url`, after rows without it, is `row_index`.
pub proof fn lemma_row_index_is(rows: Seq<CacheRowView>, url: Seq<char>, n: int)
    requires
        0 <= n <= rows.len(),
        forall|i: int| 0 <= i < n ==> (#[trigger] rows[i]).url != url,
        n < rows.len() ==> rows[n].url == url,
    ensures
        row_index(rows, url) == n,
    decreases rows.len(),
{
    if n > 0 {
        let t = rows.drop_first();
        assert(rows[0].url != url);
        assert forall|i: int| 0 <= i < n - 1 implies (#[trigger] t[i]).url != url by {
            assert(t[i] == rows[i + 1]);
        }
        lemma_row_index_is(t, url, n - 1);
    }
}

/// `oldest_index` is a position of the cache: no row precedes its row in
/// eviction order, and its row precedes every row before it.
pub proof fn lemma_oldest_index(rows: Seq<CacheRowView>)
    requires
        rows.len() > 0,
    ensures
        0 <= oldest_index(rows) < rows.len(),
        forall|i: int| 0 <= i < rows.len() ==> !older(#[trigger] rows[i], rows[oldest_index(rows)]),
        forall|i: int|
            0 <= i < oldest_index(rows) ==> older(rows[oldest_index(rows)], #[trigger] rows[i]),
    decreases rows.len(),
{
    if rows.len() > 1 {
        let t = rows.drop_last();
        lemma_oldest_index(t);
        let j = oldest_index(t);
        assert(t[j] == rows[j]);
        assert forall|i: int| 0 <= i < rows.len() implies !older(
            #[trigger] rows[i],
            rows[oldest_index(rows)],
        ) by {
            if i < rows.len() - 1 {
                assert(rows[i] == t[i]);
                assert(!older(t[i], t[j]));
            }
        }
        assert forall|i: int| 0 <= i < oldest_index(rows) implies older(
            rows[oldest_index(rows)],
            #[trigger] rows[i],
        ) by {
            assert(rows[i] == t[i]);
            if oldest_index(rows) == j {
                assert(older(t[j], t[i]));
            } else {
                assert(!older(t[i], t[j]));
                if i < j {
                    assert(older(t[j], t[i]));
                }
            }
        }
    }
}

/// Removing a row lowers the sum by that row's size.
pub proof fn lemma_total_size_remove(rows: Seq<CacheRowView>, i: int)
    requires
        0 <= i < rows.len(),
    ensures
        total_size(rows.remove(i)) == total_size(rows) - rows[i].size,
    decreases rows.len(),
{
    if i == rows.len() - 1 {
        assert(rows.remove(i) =~= rows.drop_last());
    } else {
        let t = rows.drop_last();
        lemma_total_size_remove(t, i);
        assert(rows.remove(i).drop_last() =~= t.remove(i));
        assert(rows.remove(i).last() == rows.last());
    }
}

/// Appending a row raises the sum by that row's size.
pub proof fn lemma_total_size_push(rows: Seq<CacheRowView>, row: CacheRowView)
    ensures
        total_size(rows.push(row)) == total_size(rows) + row.size,
{
    assert(rows.push(row).drop_last() =~= rows);
}

/// Changing a row without changing its size keeps the sum.
pub proof fn lemma_total_size_update(rows: Seq<CacheRowView>, i: int, row: CacheRowView)
    requires
        0 <= i < rows.len(),
        row.size == rows[i].size,
    ensures
        total_size(rows.update(i, row)) == total_size(rows),
    decreases rows.len(),
{
    if i == rows.len() - 1 {
        assert(rows.update(i, row).drop_last() =~= rows.drop_last());
    } else {
        let t = rows.drop_last();
        lemma_total_size_update(t, i, row);
        assert(rows.update(i, row).drop_last() =~= t.update(i, row));
    }
}

/// Eviction ends within budget: rows are removed until the sum of the
/// recorded sizes is at most the budget.
pub proof fn lemma_evict_within_budget(rows: Seq<CacheRowView>, budget: nat)
    ensures
        total_size(evict_until(rows, budget)) <= budget,
        total_size(rows) <= budget ==> evict_until(rows, budget) == rows,
    decreases rows.len(),
{
    if !(rows.len() == 0 || total_size(rows) <= budget) {
        lemma_oldest_index(rows);
        lemma_evict_within_budget(rows.remove(oldest_index(rows)), budget);
    }
}

/// What eviction leaves are rows that were there before, in their old order;
/// unique keys stay unique and every evicted row is gone.
pub proof fn lemma_evict_keeps_rows(rows: Seq<CacheRowView>, budget: nat)
    ensures
        evict_until(rows, budget).len() + evicted(rows, budget).len() == rows.len(),
        forall|i: int|
            0 <= i < evict_until(rows, budget).len() ==> rows.contains(
                #[trigger] evict_until(rows, budget)[i],
            ),
        unique_urls(rows) ==> unique_urls(evict_until(rows, budget)),
    decreases rows.len(),
{
    if !(rows.len() == 0 || total_size(rows) <= budget) {
        lemma_oldest_index(rows);
        let k = oldest_index(rows);
        let t = rows.remove(k);
        lemma_evict_keeps_rows(t, budget);
        let e = evict_until(rows, budget);
        assert forall|i: int| 0 <= i < e.len() implies rows.contains(#[trigger] e[i]) by {
            assert(t.contains(e[i]));
            let a = choose|a: int| 0 <= a < t.len() && t[a] == e[i];
            if a < k {
                assert(rows[a] == e[i]);
            } else {
                assert(rows[a + 1] == e[i]);
            }
        }
        if unique_urls(rows) {
            assert forall|i: int, j: int| 0 <= i < j < t.len() implies t[i].url != t[j].url by {
                let a = if i < k {
                    i
                } else {
                    i + 1
                };
                let b = if j < k {
                    j
                } else {
                    j + 1
                };
                assert(rows[a].url != rows[b].url);
            }
        }
    }
}

/// Eviction order: no row that stays precedes, in eviction order, a row
/// that was evicted.
pub proof fn lemma_evicts_oldest(rows: Seq<CacheRowView>, budget: nat)
    ensures
        forall|i: int, j: int|
            0 <= i < evicted(rows, budget).len() && 0 <= j < evict_until(rows, budget).len()
                ==> !older(
                #[trigger] evict_until(rows, budget)[j],
                #[trigger] evicted(rows, budget)[i],
            ),
    decreases rows.len(),
{
    if !(rows.len() == 0 || total_size(rows) <= budget) {
        lemma_oldest_index(rows);
        let k = oldest_index(rows);
        let t = rows.remove(k);
        lemma_evicts_oldest(t, budget);
        lemma_evict_keeps_rows(rows, budget);
        let kept = evict_until(rows, budget);
        let gone = evicted(rows, budget);
        assert forall|i: int, j: int| 0 <= i < gone.len() && 0 <= j < kept.len() implies !older(
            #[trigger] kept[j],
            #[trigger] gone[i],
        ) by {
            if i == 0 {
                assert(rows.contains(kept[j]));
                let a = choose|a: int| 0 <= a < rows.len() && rows[a] == kept[j];
                assert(!older(rows[a], rows[k]));
                assert(gone[0] == rows[k]);
            } else {
                assert(gone[i] == evicted(t, budget)[i - 1]);
                assert(kept == evict_until(t, budget));
                assert(!older(evict_until(t, budget)[j], evicted(t, budget)[i - 1]));
            }
        }
    }
}

/// A cleanup pass removes nothing from rows that a cleanup pass at the
/// same time and budget has just left.
pub proof fn lemma_cleanup_idempotent(rows: Seq<CacheRowView>, budget: nat, now: i64)
    ensures
        evict_until(without_expired(evict_until(without_expired(rows, now), budget), now), budget)
            == evict_until(without_expired(rows, now), budget),
{
    let p = |r: CacheRowView| !is_expired(r, now);
    let swept = without_expired(rows, now);
    let kept = evict_until(swept, budget);
    crate::seq_lemmas::lemma_filter_origin(rows, p);
    lemma_evict_keeps_rows(swept, budget);
    assert forall|i: int| 0 <= i < kept.len() implies p(#[trigger] kept[i]) by {
        assert(swept.contains(kept[i]));
    }
    crate::seq_lemmas::lemma_filter_all(kept, p);
    lemma_evict_within_budget(swept, budget);
    lemma_evict_within_budget(kept, budget);
}

/// After a cleanup pass, a second pass at the same time finds nothing
/// expired and nothing to evict.
pub proof fn lemma_cleanup_removes_nothing(rows: Seq<CacheRowView>, budget: nat, now: i64)
    ensures
        expired_rows(evict_until(without_expired(rows, now), budget), now) == Seq::<
            CacheRowView,
        >::empty(),
        evicted(
            without_expired(evict_until(without_expired(rows, now), budget), now),
            budget,
        ) == Seq::<CacheRowView>::empty(),
{
    let keep = |r: CacheRowView| !is_expired(r, now);
    let drop = |r: CacheRowView| is_expired(r, now);
    let swept = without_expired(rows, now);
    let kept = evict_until(swept, budget);
    crate::seq_lemmas::lemma_filter_origin(rows, keep);
    lemma_evict_keeps_rows(swept, budget);
    assert forall|i: int| 0 <= i < kept.len() implies keep(#[trigger] kept[i]) by {
        assert(swept.contains(kept[i]));
    }
    crate::seq_lemmas::lemma_filter_all(kept, keep);
    lemma_evict_within_budget(swept, budget);
    crate::seq_lemmas::lemma_filter_origin(kept, drop);
    if kept.filter(drop).len() > 0 {
        assert(drop(kept.filter(drop)[0]));
        assert(kept.contains(kept.filter(drop)[0]));
        let a = choose|a: int| 0 <= a < kept.len() && kept[a] == kept.filter(drop)[0];
        assert(keep(kept[a]));
    }
    assert(kept.filter(drop) =~= Seq::<CacheRowView>::empty());
}

/// Writing a row leaves exactly one row for its key, at the end, and
/// keeps keys unique.
pub proof fn lemma_with_row(rows: Seq<CacheRowView>, row: CacheRowView)
    requires
        unique_urls(rows),
    ensures
        unique_urls(with_row(rows, row)),
        with_row(rows, row).last() == row,
        row_index(with_row(rows, row), row.url) == with_row(rows, row).len() - 1,
{
    let p = |r: CacheRowView| r.url != row.url;
    crate::seq_lemmas::lemma_filter_origin(rows, p);
    let f = rows.filter(p);
    let w = with_row(rows, row);
    assert forall|i: int, j: int| 0 <= i < j < w.len() implies w[i].url != w[j].url by {
        if j == w.len() - 1 {
            assert(p(f[i]));
        } else {
            let (a, b) = choose|a: int, b: int|
                0 <= a < b < rows.len() && rows[a] == f[i] && rows[b] == f[j];
            assert(rows[a].url != rows[b].url);
        }
    }
    assert forall|i: int| 0 <= i < w.len() - 1 implies (#[trigger] w[i]).url != row.url by {
        assert(p(f[i]));
    }
    lemma_row_index_is(w, row.url, w.len() - 1);
}

/// Puts that trigger no eviction account exactly: a new key that fits
/// into the budget is appended and the sum grows by its size.
pub proof fn lemma_put_within_budget(rows: Seq<CacheRowView>, row: CacheRowView, budget: nat)
    requires
        forall|i: int| 0 <= i < rows.len() ==> (#[trigger] rows[i]).url != row.url,
        total_size(rows) + row.size <= budget,
    ensures
        evict_until(with_row(rows, row), budget) == rows.push(row),
        evicted(with_row(rows, row), budget) == Seq::<CacheRowView>::empty(),
        total_size(evict_until(with_row(rows, row), budget)) == total_size(rows) + row.size,
{
    let p = |r: CacheRowView| r.url != row.url;
    crate::seq_lemmas::lemma_filter_all(rows, p);
    lemma_total_size_push(rows, row);
}

/// The rows after several rows were put one after the other.
pub open spec fn put_all(rows: Seq<CacheRowView>, puts: Seq<CacheRowView>, budget: nat) -> Seq<
    CacheRowView,
>
    decreases puts.len(),
{
    if puts.len() == 0 {
        rows
    } else {
        evict_until(with_row(put_all(rows, puts.drop_last(), budget), puts.last()), budget)
    }
}

/// Size accounting: when rows with new, distinct keys are put and all of
/// them fit into the budget together with what is there, nothing is
/// evicted and the sum of the sizes grows by exactly their sizes.
pub proof fn lemma_puts_within_budget(
    rows: Seq<CacheRowView>,
    puts: Seq<CacheRowView>,
    budget: nat,
)
    requires
        unique_urls(rows + puts),
        total_size(rows) + total_size(puts) <= budget,
    ensures
        put_all(rows, puts, budget) == rows + puts,
        total_size(put_all(rows, puts, budget)) == total_size(rows) + total_size(puts),
    decreases puts.len(),
{
    if puts.len() == 0 {
        assert(rows + puts =~= rows);
    } else {
        let head = puts.drop_last();
        let all = rows + puts;
        assert forall|i: int, j: int| 0 <= i < j < (rows + head).len() implies (rows + head)[i].url
            != (rows + head)[j].url by {
            assert((rows + head)[i] == all[i] && (rows + head)[j] == all[j]);
        }
        lemma_puts_within_budget(rows, head, budget);
        let before = put_all(rows, head, budget);
        assert forall|i: int| 0 <= i < before.len() implies (#[trigger] before[i]).url
            != puts.last().url by {
            assert(before[i] == all[i] && puts.last() == all[all.len() - 1]);
        }
        lemma_put_within_budget(before, puts.last(), budget);
        assert(before.push(puts.last()) =~= rows + puts);
    }
}

/// The row that was accessed last is evicted last: while other rows
/// remain, a row that none of them follows in eviction order stays.
pub proof fn lemma_newest_survives(rows: Seq<CacheRowView>, budget: nat)
    requires
        rows.len() > 0,
        rows.last().size <= budget,
        forall|i: int| 0 <= i < rows.len() - 1 ==> !older(rows.last(), #[trigger] rows[i]),
    ensures
        evict_until(rows, budget).len() > 0,
        evict_until(rows, budget).last() == rows.last(),
    decreases rows.len(),
{
    if !(total_size(rows) <= budget) {
        lemma_oldest_index(rows);
        let k = oldest_index(rows);
        if rows.len() == 1 {
            assert(rows.drop_last() =~= Seq::<CacheRowView>::empty());
            assert(total_size(rows.drop_last()) == 0);
            assert(total_size(rows) == total_size(rows.drop_last()) + rows.last().size);
        } else {
            let j = oldest_index(rows.drop_last());
            lemma_oldest_index(rows.drop_last());
            assert(rows.drop_last()[j] == rows[j]);
            assert(k == j);
            let t = rows.remove(k);
            assert(t.last() == rows.last());
            assert forall|i: int| 0 <= i < t.len() - 1 implies !older(t.last(), #[trigger] t[i]) by {
                if i < k {
                    assert(t[i] == rows[i]);
                } else {
                    assert(t[i] == rows[i + 1]);
                }
            }
            lemma_newest_survives(t, budget);
        }
    }
}

/// Round trip: after a resource that fits into the budget has been put
/// at a time that is not earlier than any recorded time, its row is
/// stored, and the entry made from it and from the bytes of its blob has
/// the content type and the content that were put.
pub proof fn lemma_put_then_get(
    rows: Seq<CacheRowView>,
    budget: nat,
    url: Seq<char>,
    content_type: Seq<char>,
    content: Seq<u8>,
    expires_at: Option<i64>,
    now: i64,
)
    requires
        unique_urls(rows),
        content.len() <= budget,
        forall|i: int|
            0 <= i < rows.len() ==> (#[trigger] rows[i]).accessed_at <= now && rows[i].created_at
                <= now,
    ensures
        ({
            let row = new_row(url, content_type, content.len(), expires_at, now);
            let stored = evict_until(with_row(rows, row), budget);
            &&& row_index(stored, url) < stored.len()
            &&& stored[row_index(stored, url)] == row
            &&& entry_of(stored[row_index(stored, url)], content) == CacheEntryView {
                url,
                content_type,
                content,
                created_at: now,
                expires_at,
            }
        }),
{
    let row = new_row(url, content_type, content.len(), expires_at, now);
    let w = with_row(rows, row);
    let p = |r: CacheRowView| r.url != row.url;
    lemma_with_row(rows, row);
    crate::seq_lemmas::lemma_filter_origin(rows, p);
    assert forall|i: int| 0 <= i < w.len() - 1 implies !older(w.last(), #[trigger] w[i]) by {
        assert(rows.contains(rows.filter(p)[i]));
    }
    lemma_newest_survives(w, budget);
    lemma_evict_keeps_rows(w, budget);
    let stored = evict_until(w, budget);
    assert forall|i: int| 0 <= i < stored.len() - 1 implies (#[trigger] stored[i]).url != url by {
        assert(stored[i].url != stored[stored.len() - 1].url);
    }
    lemma_row_index_is(stored, url, stored.len() - 1);
}

/// Index of the row to evict next.
fn find_oldest(rows: &Vec<CacheRow>) -> (k: usize)
    requires
        rows.len() > 0,
    ensures
        k == oldest_index(row_views(rows@)),
        k < rows.len(),
{
    let ghost views = row_views(rows@);
    let mut best: usize = 0;
    let mut i: usize = 1;
    assert(views.take(1).len() == 1);
    while i < rows.len()
        invariant
            1 <= i <= rows.len(),
            best < i,
            views == row_views(rows@),
            best == oldest_index(views.take(i as int)),
        decreases rows.len() - i,
    {
        proof {
            assert(views.take(i + 1).drop_last() =~= views.take(i as int));
            assert(views.take(i + 1).last() == rows@[i as int]@);
            assert(views.take(i + 1)[best as int] == rows@[best as int]@);
        }
        let a = &rows[i];
        let b = &rows[best];
        if a.accessed_at < b.accessed_at || (a.accessed_at == b.accessed_at && a.created_at
            < b.created_at) {
            best = i;
        }
        i += 1;
    }
    assert(views.take(rows.len() as int) =~= views);
    best
}

/// Evicts rows, oldest first, until `total` is within `budget`.
fn enforce_size_limits(rows: &mut Vec<CacheRow>, total: u128, budget: usize) -> (r: (Vec<CacheRow>, usize))
    requires
        total == total_size(row_views(old(rows)@)),
    ensures
        row_views(final(rows)@) == evict_until(row_views(old(rows)@), budget as nat),
        row_views(r.0@) == evicted(row_views(old(rows)@), budget as nat),
        r.1 == total_size(row_views(final(rows)@)),
{
    let ghost orig = row_views(rows@);
    let mut gone: Vec<CacheRow> = Vec::new();
    let mut total: u128 = total;
    assert(row_views(gone@) + evicted(orig, budget as nat) =~= evicted(orig, budget as nat));
    while rows.len() > 0 && total > budget as u128
        invariant
            total == total_size(row_views(rows@)),
            evict_until(row_views(rows@), budget as nat) == evict_until(orig, budget as nat),
            row_views(gone@) + evicted(row_views(rows@), budget as nat) == evicted(
                orig,
                budget as nat,
            ),
        decreases rows.len(),
    {
        let k = find_oldest(rows);
        let ghost before = row_views(rows@);
        let ghost before_gone = row_views(gone@);
        proof {
            lemma_total_size_remove(before, k as int);
        }
        let row = rows.remove(k);
        total = total - row.size as u128;
        gone.push(row);
        proof {
            assert(row_views(rows@) =~= before.remove(k as int));
            assert(row_views(gone@) =~= before_gone.push(before[k as int]));
            assert(row_views(gone@) + evicted(row_views(rows@), budget as nat) =~= before_gone
                + evicted(before, budget as nat));
        }
    }
    proof {
        if rows.len() == 0 {
            assert(total_size(row_views(rows@)) == 0);
        }
        assert(row_views(gone@) =~= evicted(orig, budget as nat));
    }
    (gone, total as usize)
}

/// The bounded cache index.
#[derive(Debug)]
pub struct CacheManager {
    max_size_bytes: usize,
    current_size: usize,
    rows: Vec<CacheRow>,
}

impl View for CacheManager {
    type V = Seq<CacheRowView>;

    closed spec fn view(&self) -> Seq<CacheRowView> {
        row_views(self.rows@)
    }
}

impl CacheManager {
    /// The configured budget in bytes.
    pub closed spec fn budget(&self) -> nat {
        self.max_size_bytes as nat
    }

    /// The value of the aggregate size counter.
    pub closed spec fn size(&self) -> nat {
        self.current_size as nat
    }

    /// The cache's invariant: keys are unique and the counter is the sum
    /// of the recorded sizes.
    pub open spec fn wf(&self) -> bool {
        &&& unique_urls(self@)
        &&& self.size() == total_size(self@)
    }

    /// An empty cache with a budget of `max_size_mb` mebibytes.
    pub fn new(max_size_mb: usize) -> (cache: CacheManager)
        requires
            max_size_mb * 1048576 <= usize::MAX,
        ensures
            cache.wf(),
            cache@ == Seq::<CacheRowView>::empty(),
            cache.budget() == max_size_mb * 1048576,
            cache.size() == 0,
    {
        let cache = CacheManager {
            max_size_bytes: max_size_mb * 1048576,
            current_size: 0,
            rows: Vec::new(),
        };
        assert(cache@ =~= Seq::<CacheRowView>::empty());
        cache
    }

    /// The aggregate size of the cached blobs in bytes.
    pub fn get_size(&self) -> (n: usize)
        ensures
            n == self.size(),
    {
        self.current_size
    }

    /// The budget in bytes.
    pub fn max_size_bytes(&self) -> (n: usize)
        ensures
            n == self.budget(),
    {
        self.max_size_bytes
    }

    /// Number of cached resources.
    pub fn count(&self) -> (n: usize)
        ensures
            n == self@.len(),
    {
        self.rows.len()
    }

    /// The index rows, in the order in which they were last written.
    pub fn rows(&self) -> (rows: &Vec<CacheRow>)
        ensures
            row_views(rows@) == self@,
    {
        &self.rows
    }

    /// Changes the budget. Nothing is evicted until the next `put` or
    /// `cleanup`.
    pub fn set_max_size_bytes(&mut self, max_size_bytes: usize)
        requires
            old(self).wf(),
        ensures
            final(self).wf(),
            final(self)@ == old(self)@,
            final(self).size() == old(self).size(),
            final(self).budget() == max_size_bytes,
    {
        self.max_size_bytes = max_size_bytes;
    }

    /// Name of the blob file for `url`: the MD5 digest of the key in
    /// hexadecimal.
    pub fn blob_name(url: &str) -> (name: String)
        ensures
            name@ == md5_hex_digest(url@),
    {
        md5_hex(url)
    }

    /// Position of the row for `url`.
    fn find(&self, url: &str) -> (i: usize)
        ensures
            i == row_index(self@, url@),
            i <= self@.len(),
    {
        let mut i: usize = 0;
        while i < self.rows.len() && !(*self.rows[i].url.as_str() == *url)
            invariant
                i <= self.rows.len(),
                forall|j: int| 0 <= j < i ==> (#[trigger] self@[j]).url != url@,
            decreases self.rows.len() - i,
        {
            i += 1;
        }
        proof {
            lemma_row_index_is(self@, url@, i as int);
        }
        i
    }

    /// Name of the blob file to read for `url`, or `None` when the key is
    /// not cached.
    pub fn blob_path(&self, url: &str) -> (r: Option<String>)
        ensures
            match r {
                Some(p) => row_index(self@, url@) < self@.len() && p@ == self@[row_index(
                    self@,
                    url@,
                )].file_path,
                None => row_index(self@, url@) == self@.len(),
            },
    {
        let i = self.find(url);
        if i < self.rows.len() {
            Some(self.rows[i].file_path.clone())
        } else {
            None
        }
    }

    /// Stores `row`, replacing the row with the same key, then evicts
    /// oldest rows until the aggregate size is within the budget. Returns
    /// the evicted rows.
    pub fn put_row(&mut self, row: CacheRow) -> (gone: Vec<CacheRow>)
        requires
            old(self).wf(),
        ensures
            final(self).wf(),
            final(self).budget() == old(self).budget(),
            final(self).size() <= final(self).budget(),
            final(self)@ == evict_until(with_row(old(self)@, row@), old(self).budget()),
            row_views(gone@) == evicted(with_row(old(self)@, row@), old(self).budget()),
    {
        let ghost rows0 = self@;
        let ghost p = |r: CacheRowView| r.url != row@.url;
        let i = self.find(row.url.as_str());
        let mut total: u128 = self.current_size as u128;
        proof {
            lemma_row_index(rows0, row@.url);
        }
        if i < self.rows.len() {
            proof {
                lemma_total_size_remove(rows0, i as int);
            }
            let old_row = self.rows.remove(i);
            total = total - old_row.size as u128;
            proof {
                assert(self@ =~= rows0.remove(i as int));
                assert forall|j: int| 0 <= j < self@.len() implies p(#[trigger] self@[j]) by {
                    if j < i {
                        assert(self@[j] == rows0[j]);
                    } else {
                        assert(self@[j] == rows0[j + 1]);
                        assert(rows0[j + 1].url != rows0[i as int].url);
                    }
                }
                lemma_without_one(rows0, row@.url, i as int);
            }
        } else {
            proof {
                crate::seq_lemmas::lemma_filter_all(rows0, p);
            }
        }
        assert(self@ == without_url(rows0, row@.url));
        let ghost kept = self@;
        let ghost r = row@;
        total = total + row.size as u128;
        self.rows.push(row);
        proof {
            assert(self@ =~= kept.push(r));
            lemma_total_size_push(kept, r);
            lemma_with_row(rows0, r);
            lemma_evict_keeps_rows(self@, self.max_size_bytes as nat);
            lemma_evict_within_budget(self@, self.max_size_bytes as nat);
        }
        let (gone, left) = enforce_size_limits(&mut self.rows, total, self.max_size_bytes);
        self.current_size = left;
        gone
    }

    /// Records that `content` was fetched for `url` at `now`: the row is
    /// written with the blob name of `url` and the length of `content`,
    /// and sizes are enforced.
    pub fn put_at(
        &mut self,
        url: &str,
        content_type: &str,
        content: &[u8],
        expires_at: Option<i64>,
        now: i64,
    ) -> (out: PutOutcome)
        requires
            old(self).wf(),
        ensures
            final(self).wf(),
            final(self).budget() == old(self).budget(),
            final(self).size() <= final(self).budget(),
            out.file_path@ == md5_hex_digest(url@),
            final(self)@ == evict_until(
                with_row(
                    old(self)@,
                    new_row(url@, content_type@, content@.len(), expires_at, now),
                ),
                old(self).budget(),
            ),
            row_views(out.evicted@) == evicted(
                with_row(
                    old(self)@,
                    new_row(url@, content_type@, content@.len(), expires_at, now),
                ),
                old(self).budget(),
            ),
    {
        let file_path = md5_hex(url);
        let row = CacheRow {
            url: url.to_owned(),
            content_type: content_type.to_owned(),
            file_path: file_path.clone(),
            size: content.len(),
            created_at: now,
            accessed_at: now,
            expires_at,
        };
        let evicted = self.put_row(row);
        PutOutcome { file_path, evicted }
    }

    /// Records a fetched resource, stamped with the current time.
    pub fn put(
        &mut self,
        url: &str,
        content_type: &str,
        content: &[u8],
        expires_at: Option<i64>,
    ) -> (out: PutOutcome)
        requires
            old(self).wf(),
        ensures
            final(self).wf(),
            final(self).budget() == old(self).budget(),
            final(self).size() <= final(self).budget(),
            out.file_path@ == md5_hex_digest(url@),
            exists|now: i64|
                final(self)@ == evict_until(
                    with_row(
                        old(self)@,
                        #[trigger] new_row(url@, content_type@, content@.len(), expires_at, now),
                    ),
                    old(self).budget(),
                ) && row_views(out.evicted@) == evicted(
                    with_row(
                        old(self)@,
                        new_row(url@, content_type@, content@.len(), expires_at, now),
                    ),
                    old(self).budget(),
                ),
    {
        let now = now_millis();
        self.put_at(url, content_type, content, expires_at, now)
    }

    /// Completes a lookup of `url` at `now`, given what was read from the
    /// blob file (`None` when the file is missing).
    ///
    /// * No row: `Ok(None)`, nothing changes.
    /// * Row and blob: the entry with the blob as content; the row's
    ///   access time becomes `now`.
    /// * Row without blob: `Err(NotFound)`, and the stale row is removed.
    pub fn get_at(&mut self, url: &str, blob: Option<Vec<u8>>, now: i64) -> (r: Result<
        Option<CacheEntry>,
        StorageError,
    >)
        requires
            old(self).wf(),
        ensures
            final(self).wf(),
            final(self).budget() == old(self).budget(),
            ({
                let rows = old(self)@;
                let i = row_index(rows, url@);
                if i == rows.len() {
                    r == Ok::<Option<CacheEntry>, StorageError>(None) && final(self)@ == rows
                } else {
                    match blob {
                        Some(content) => {
                            &&& r matches Ok(Some(entry))
                            &&& entry@ == entry_of(rows[i], content@)
                            &&& final(self)@ == rows.update(
                                i,
                                CacheRowView { accessed_at: now, ..rows[i] },
                            )
                        },
                        None => {
                            &&& r == Err::<Option<CacheEntry>, StorageError>(StorageError::NotFound)
                            &&& final(self)@ == rows.remove(i)
                        },
                    }
                }
            }),
    {
        let ghost rows = self@;
        let i = self.find(url);
        if i >= self.rows.len() {
            return Ok(None);
        }
        match blob {
            Some(content) => {
                self.rows[i].accessed_at = now;
                let row = &self.rows[i];
                let entry = CacheEntry {
                    url: row.url.clone(),
                    content_type: row.content_type.clone(),
                    content,
                    created_at: row.created_at,
                    expires_at: row.expires_at,
                };
                proof {
                    let touched = CacheRowView { accessed_at: now, ..rows[i as int] };
                    assert(self@ =~= rows.update(i as int, touched));
                    lemma_total_size_update(rows, i as int, touched);
                    assert forall|a: int, b: int| 0 <= a < b < self@.len() implies self@[a].url
                        != self@[b].url by {
                        assert(rows[a].url != rows[b].url);
                    }
                }
                Ok(Some(entry))
            },
            None => {
                proof {
                    lemma_total_size_remove(rows, i as int);
                }
                let stale = self.rows.remove(i);
                self.current_size = self.current_size - stale.size;
                proof {
                    assert(self@ =~= rows.remove(i as int));
                    assert forall|a: int, b: int| 0 <= a < b < self@.len() implies self@[a].url
                        != self@[b].url by {
                        let a0 = if a < i {
                            a
                        } else {
                            a + 1
                        };
                        let b0 = if b < i {
                            b
                        } else {
                            b + 1
                        };
                        assert(rows[a0].url != rows[b0].url);
                    }
                }
                Err(StorageError::NotFound)
            },
        }
    }

    /// Completes a lookup made now.
    pub fn get(&mut self, url: &str, blob: Option<Vec<u8>>) -> (r: Result<
        Option<CacheEntry>,
        StorageError,
    >)
        requires
            old(self).wf(),
        ensures
            final(self).wf(),
            final(self).budget() == old(self).budget(),
            ({
                let rows = old(self)@;
                let i = row_index(rows, url@);
                if i == rows.len() {
                    r == Ok::<Option<CacheEntry>, StorageError>(None) && final(self)@ == rows
                } else {
                    match blob {
                        Some(content) => {
                            &&& r matches Ok(Some(entry))
                            &&& entry@ == entry_of(rows[i], content@)
                            &&& exists|now: i64|
                                final(self)@ == rows.update(
                                    i,
                                    #[trigger] touch(rows[i], now),
                                )
                        },
                        None => {
                            &&& r == Err::<Option<CacheEntry>, StorageError>(StorageError::NotFound)
                            &&& final(self)@ == rows.remove(i)
                        },
                    }
                }
            }),
    {
        let now = now_millis();
        let r = self.get_at(url, blob, now);
        proof {
            let rows = old(self)@;
            let i = row_index(rows, url@);
            if i < rows.len() && blob is Some {
                assert(self@ == rows.update(i, touch(rows[i], now)));
            }
        }
        r
    }

    /// Deletes the rows whose expiry lies strictly before `now`, then
    /// evicts oldest rows until the aggregate size is within the budget.
    /// Returns the removed rows, expired ones first; their blob files must
    /// be deleted.
    pub fn cleanup_at(&mut self, now: i64) -> (gone: Vec<CacheRow>)
        requires
            old(self).wf(),
        ensures
            final(self).wf(),
            final(self).budget() == old(self).budget(),
            final(self).size() <= final(self).budget(),
            final(self)@ == evict_until(without_expired(old(self)@, now), old(self).budget()),
            row_views(gone@) == expired_rows(old(self)@, now) + evicted(
                without_expired(old(self)@, now),
                old(self).budget(),
            ),
    {
        let ghost rows = self@;
        let ghost keep = |r: CacheRowView| !is_expired(r, now);
        let ghost drop = |r: CacheRowView| is_expired(r, now);
        let ghost mut k: int = 0;
        let mut gone: Vec<CacheRow> = Vec::new();
        let mut total: usize = self.current_size;
        let mut i: usize = 0;
        proof {
            assert(rows.take(0).filter(keep) =~= Seq::<CacheRowView>::empty()) by {
                reveal(Seq::filter);
            }
            assert(rows.take(0).filter(drop) =~= Seq::<CacheRowView>::empty()) by {
                reveal(Seq::filter);
            }
            assert(self@ =~= rows.take(0).filter(keep) + rows.skip(0));
            assert(row_views(gone@) =~= rows.take(0).filter(drop));
        }
        while i < self.rows.len()
            invariant
                0 <= k <= rows.len(),
                i == rows.take(k).filter(keep).len(),
                self@ == rows.take(k).filter(keep) + rows.skip(k),
                row_views(gone@) == rows.take(k).filter(drop),
                total == total_size(self@),
                keep == (|r: CacheRowView| !is_expired(r, now)),
                drop == (|r: CacheRowView| is_expired(r, now)),
                self.max_size_bytes == old(self).max_size_bytes,
            decreases rows.len() - k,
        {
            proof {
                crate::seq_lemmas::lemma_filter_take_step(rows, keep, k);
                crate::seq_lemmas::lemma_filter_take_step(rows, drop, k);
                assert(self@[i as int] == rows[k]);
                assert(self.rows@[i as int]@ == rows[k]);
            }
            let expired = match self.rows[i].expires_at {
                Some(e) => e < now,
                None => false,
            };
            if expired {
                let ghost before = self@;
                let ghost before_gone = row_views(gone@);
                proof {
                    lemma_total_size_remove(before, i as int);
                }
                let row = self.rows.remove(i);
                total = total - row.size;
                gone.push(row);
                proof {
                    assert(self@ =~= before.remove(i as int));
                    assert(self@ =~= rows.take(k + 1).filter(keep) + rows.skip(k + 1));
                    assert(row_views(gone@) =~= before_gone.push(rows[k]));
                }
            } else {
                proof {
                    assert(self@ =~= rows.take(k + 1).filter(keep) + rows.skip(k + 1));
                }
                i += 1;
            }
            proof {
                k = k + 1;
            }
        }
        proof {
            assert(rows.take(k) =~= rows);
            assert(self@ =~= rows.filter(keep));
            lemma_filter_unique(rows, keep);
            lemma_evict_keeps_rows(self@, self.max_size_bytes as nat);
            lemma_evict_within_budget(self@, self.max_size_bytes as nat);
        }
        let ghost swept_gone = row_views(gone@);
        let (mut evicted_rows, left) = enforce_size_limits(&mut self.rows, total as u128, self.max_size_bytes);
        self.current_size = left;
        let ghost evicted_views = row_views(evicted_rows@);
        gone.append(&mut evicted_rows);
        proof {
            assert(row_views(gone@) =~= swept_gone + evicted_views);
        }
        gone
    }

    /// Runs a cleanup pass for the current time.
    pub fn cleanup(&mut self) -> (gone: Vec<CacheRow>)
        requires
            old(self).wf(),
        ensures
            final(self).wf(),
            final(self).budget() == old(self).budget(),
            final(self).size() <= final(self).budget(),
            exists|now: i64|
                final(self)@ == evict_until(
                    #[trigger] without_expired(old(self)@, now),
                    old(self).budget(),
                ) && row_views(gone@) == expired_rows(old(self)@, now) + evicted(
                    without_expired(old(self)@, now),
                    old(self).budget(),
                ),
    {
        let now = now_millis();
        self.cleanup_at(now)
    }
}

/// A row with its access time set to `now`.
pub open spec fn touch(row: CacheRowView, now: i64) -> CacheRowView {
    CacheRowView { accessed_at: now, ..row }
}

/// With unique keys, dropping the rows for a key removes the one row that has it.
pub proof fn lemma_without_one(rows: Seq<CacheRowView>, url: Seq<char>, i: int)
    requires
        unique_urls(rows),
        0 <= i < rows.len(),
        rows[i].url == url,
    ensures
        without_url(rows, url) == rows.remove(i),
    decreases rows.len(),
{
    reveal(Seq::filter);
    let p = |r: CacheRowView| r.url != url;
    let t = rows.drop_last();
    if i == rows.len() - 1 {
        assert forall|j: int| 0 <= j < t.len() implies p(#[trigger] t[j]) by {
            assert(rows[j].url != rows[i].url);
        }
        crate::seq_lemmas::lemma_filter_all(t, p);
        assert(rows.remove(i) =~= t);
    } else {
        assert(rows.last().url != rows[i].url);
        assert forall|a: int, b: int| 0 <= a < b < t.len() implies t[a].url != t[b].url by {
            assert(rows[a].url != rows[b].url);
        }
        lemma_without_one(t, url, i);
        assert(rows.remove(i) =~= t.remove(i).push(rows.last()));
    }
}

/// Filtering keeps keys unique.
pub proof fn lemma_filter_unique(rows: Seq<CacheRowView>, p: spec_fn(CacheRowView) -> bool)
    requires
        unique_urls(rows),
    ensures
        unique_urls(rows.filter(p)),
{
    crate::seq_lemmas::lemma_filter_origin(rows, p);
    let f = rows.filter(p);
    assert forall|i: int, j: int| 0 <= i < j < f.len() implies f[i].url != f[j].url by {
        let (a, b) = choose|a: int, b: int|
            0 <= a < b < rows.len() && rows[a] == f[i] && rows[b] == f[j];
        assert(rows[a].url != rows[b].url);
    }
}

} // verus!
