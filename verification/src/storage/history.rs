//! The visit history: one row per URL, capped at a configured number of
//! rows by removing the least recently visited.

use vstd::prelude::*;
use crate::clock::now_millis;
use crate::text::option_view;

verus! {

/// One visited URL.
#[derive(Debug)]
pub struct HistoryItem {
    pub url: String,
    pub title: Option<String>,
    pub visit_count: u64,
    pub last_visit: i64,
    pub created_at: i64,
}

/// Mathematical value of a [`HistoryItem`].
pub struct HistoryView {
    pub url: Seq<char>,
    pub title: Option<Seq<char>>,
    pub visit_count: u64,
    pub last_visit: i64,
    pub created_at: i64,
}

/// The view of an optional string slice.
pub open spec fn title_view(s: Option<&str>) -> Option<Seq<char>> {
    match s {
        Some(t) => Some(t@),
        None => None,
    }
}

impl View for HistoryItem {
    type V = HistoryView;

    open spec fn view(&self) -> HistoryView {
        HistoryView {
            url: self.url@,
            title: option_view(self.title),
            visit_count: self.visit_count,
            last_visit: self.last_visit,
            created_at: self.created_at,
        }
    }
}

/// The views of a sequence of items.
pub open spec fn item_views(items: Seq<HistoryItem>) -> Seq<HistoryView> {
    Seq::new(items.len(), |i: int| items[i]@)
}

/// No two rows share a URL.
pub open spec fn unique_urls(items: Seq<HistoryView>) -> bool {
    forall|i: int, j: int| 0 <= i < j < items.len() ==> items[i].url != items[j].url
}

/// Index of the row for `url`, or `items.len()` when there is none.
pub open spec fn item_index(items: Seq<HistoryView>, url: Seq<char>) -> int
    decreases items.len(),
{
    if items.len() == 0 || items[0].url == url {
        0
    } else {
        1 + item_index(items.drop_first(), url)
    }
}

/// A visit count raised by one; it stays at the largest value once reached.
pub open spec fn next_count(n: u64) -> u64 {
    if n < u64::MAX {
        (n + 1) as u64
    } else {
        n
    }
}

/// The rows after a visit of `url` at `now`: a known URL has its count
/// raised, its title replaced and its last visit set; a new URL gets a row
/// of its own with count one.
pub open spec fn visited(
    items: Seq<HistoryView>,
    url: Seq<char>,
    title: Option<Seq<char>>,
    now: i64,
) -> Seq<HistoryView> {
    let i = item_index(items, url);
    if i < items.len() {
        items.update(
            i,
            HistoryView {
                title,
                visit_count: next_count(items[i].visit_count),
                last_visit: now,
                ..items[i]
            },
        )
    } else {
        items.push(HistoryView { url, title, visit_count: 1, last_visit: now, created_at: now })
    }
}

/// The rows after `item` was put back: the row of the same URL is
/// replaced, a new URL is appended.
pub open spec fn restored(items: Seq<HistoryView>, item: HistoryView) -> Seq<HistoryView> {
    let i = item_index(items, item.url);
    if i < items.len() {
        items.update(i, item)
    } else {
        items.push(item)
    }
}

/// Index of the row that is removed next: the first among those with the
/// earliest last visit.
pub open spec fn oldest_visit(items: Seq<HistoryView>) -> int
    decreases items.len(),
{
    if items.len() <= 1 {
        0
    } else {
        let j = oldest_visit(items.drop_last());
        if items.last().last_visit < items[j].last_visit {
            items.len() - 1
        } else {
            j
        }
    }
}

/// The rows that remain when the least recently visited row is removed
/// until at most `max` rows are left.
pub open spec fn keep_newest(items: Seq<HistoryView>, max: nat) -> Seq<HistoryView>
    decreases items.len(),
    via keep_newest_decreases
{
    if items.len() <= max {
        items
    } else {
        keep_newest(items.remove(oldest_visit(items)), max)
    }
}

/// The rows that `keep_newest` removes, in the order of their removal.
pub open spec fn dropped(items: Seq<HistoryView>, max: nat) -> Seq<HistoryView>
    decreases items.len(),
    via dropped_decreases
{
    if items.len() <= max {
        Seq::empty()
    } else {
        seq![items[oldest_visit(items)]] + dropped(items.remove(oldest_visit(items)), max)
    }
}

#[via_fn]
proof fn keep_newest_decreases(items: Seq<HistoryView>, max: nat) {
    if items.len() > 0 {
        lemma_oldest_visit(items);
    }
}

#[via_fn]
proof fn dropped_decreases(items: Seq<HistoryView>, max: nat) {
    if items.len() > 0 {
        lemma_oldest_visit(items);
    }
}

/// `oldest_visit` is a position of the row, and no row was visited earlier.
pub proof fn lemma_oldest_visit(items: Seq<HistoryView>)
    requires
        items.len() > 0,
    ensures
        0 <= oldest_visit(items) < items.len(),
        forall|i: int|
            0 <= i < items.len() ==> items[oldest_visit(items)].last_visit <= (
            #[trigger] items[i]).last_visit,
    decreases items.len(),
{
    if items.len() > 1 {
        let t = items.drop_last();
        lemma_oldest_visit(t);
        let j = oldest_visit(t);
        assert(t[j] == items[j]);
        assert forall|i: int| 0 <= i < items.len() implies items[oldest_visit(items)].last_visit
            <= (#[trigger] items[i]).last_visit by {
            if i < items.len() - 1 {
                assert(items[i] == t[i]);
            }
        }
    }
}

/// `item_index` is the first position that holds `url`, if there is one.
pub proof fn lemma_item_index(items: Seq<HistoryView>, url: Seq<char>)
    ensures
        0 <= item_index(items, url) <= items.len(),
        forall|i: int| 0 <= i < item_index(items, url) ==> (#[trigger] items[i]).url != url,
        item_index(items, url) < items.len() ==> items[item_index(items, url)].url == url,
    decreases items.len(),
{
    if !(items.len() == 0 || items[0].url == url) {
        let t = items.drop_first();
        lemma_item_index(t, url);
        assert forall|i: int| 0 <= i < item_index(items, url) implies (#[trigger] items[i]).url
            != url by {
            if i > 0 {
                assert(items[i] == t[i - 1]);
            }
        }
        if item_index(items, url) < items.len() {
            assert(items[item_index(items, url)] == t[item_index(t, url)]);
        }
    }
}

/// The first position that holds `url`, after rows without it, is `item_index`.
pub proof fn lemma_item_index_is(items: Seq<HistoryView>, url: Seq<char>, n: int)
    requires
        0 <= n <= items.len(),
        forall|i: int| 0 <= i < n ==> (#[trigger] items[i]).url != url,
        n < items.len() ==> items[n].url == url,
    ensures
        item_index(items, url) == n,
    decreases items.len(),
{
    if n > 0 {
        let t = items.drop_first();
        assert(items[0].url != url);
        assert forall|i: int| 0 <= i < n - 1 implies (#[trigger] t[i]).url != url by {
            assert(t[i] == items[i + 1]);
        }
        lemma_item_index_is(t, url, n - 1);
    }
}

/// The history cap: after a cleanup at most `max` rows are left, exactly
/// `max` when there were more; the rows left were there before, in
/// their old order, and none of them was visited earlier than a row that
/// was removed.
pub proof fn lemma_keep_newest(items: Seq<HistoryView>, max: nat)
    ensures
        keep_newest(items, max).len() == if items.len() <= max {
            items.len()
        } else {
            max
        },
        keep_newest(items, max).len() + dropped(items, max).len() == items.len(),
        forall|i: int|
            0 <= i < keep_newest(items, max).len() ==> items.contains(
                #[trigger] keep_newest(items, max)[i],
            ),
        forall|i: int, j: int|
            0 <= i < dropped(items, max).len() && 0 <= j < keep_newest(items, max).len() ==> (
            #[trigger] dropped(items, max)[i]).last_visit <= (#[trigger] keep_newest(
                items,
                max,
            )[j]).last_visit,
        unique_urls(items) ==> unique_urls(keep_newest(items, max)),
    decreases items.len(),
{
    if items.len() > max {
        lemma_oldest_visit(items);
        let k = oldest_visit(items);
        let t = items.remove(k);
        lemma_keep_newest(t, max);
        let kept = keep_newest(items, max);
        let gone = dropped(items, max);
        assert forall|i: int| 0 <= i < kept.len() implies items.contains(#[trigger] kept[i]) by {
            assert(t.contains(kept[i]));
            let a = choose|a: int| 0 <= a < t.len() && t[a] == kept[i];
            if a < k {
                assert(items[a] == kept[i]);
            } else {
                assert(items[a + 1] == kept[i]);
            }
        }
        assert forall|i: int, j: int| 0 <= i < gone.len() && 0 <= j < kept.len() implies (
        #[trigger] gone[i]).last_visit <= (#[trigger] kept[j]).last_visit by {
            if i == 0 {
                assert(items.contains(kept[j]));
            } else {
                assert(gone[i] == dropped(t, max)[i - 1]);
            }
        }
        if unique_urls(items) {
            assert forall|i: int, j: int| 0 <= i < j < t.len() implies t[i].url != t[j].url by {
                let a = if i < k {
                    i
                } else {
                    i + 1
                };
                let b = if j < k {
                    j
                } else {
                    j + 1
                };
                assert(items[a].url != items[b].url);
            }
        }
    }
}

/// A cleanup removes nothing from rows that a cleanup has just left.
pub proof fn lemma_cleanup_idempotent(items: Seq<HistoryView>, max: nat)
    ensures
        keep_newest(keep_newest(items, max), max) == keep_newest(items, max),
        dropped(keep_newest(items, max), max) == Seq::<HistoryView>::empty(),
{
    lemma_keep_newest(items, max);
}

/// Index of the row to remove next.
fn find_oldest(items: &Vec<HistoryItem>) -> (k: usize)
    requires
        items.len() > 0,
    ensures
        k == oldest_visit(item_views(items@)),
        k < items.len(),
{
    let ghost views = item_views(items@);
    let mut best: usize = 0;
    let mut i: usize = 1;
    assert(views.take(1).len() == 1);
    while i < items.len()
        invariant
            1 <= i <= items.len(),
            best < i,
            views == item_views(items@),
            best == oldest_visit(views.take(i as int)),
        decreases items.len() - i,
    {
        proof {
            assert(views.take(i + 1).drop_last() =~= views.take(i as int));
            assert(views.take(i + 1).last() == items@[i as int]@);
            assert(views.take(i + 1)[best as int] == items@[best as int]@);
        }
        if items[i].last_visit < items[best].last_visit {
            best = i;
        }
        i += 1;
    }
    assert(views.take(items.len() as int) =~= views);
    best
}

/// The visit history.
#[derive(Debug)]
pub struct HistoryManager {
    max_items: usize,
    items: Vec<HistoryItem>,
}

impl View for HistoryManager {
    type V = Seq<HistoryView>;

    closed spec fn view(&self) -> Seq<HistoryView> {
        item_views(self.items@)
    }
}

impl HistoryManager {
    /// The configured cap on the number of rows.
    pub closed spec fn cap(&self) -> nat {
        self.max_items as nat
    }

    /// The history's invariant: one row per URL.
    pub open spec fn wf(&self) -> bool {
        unique_urls(self@)
    }

    /// An empty history that keeps at most `max_items` rows after cleanup.
    pub fn new(max_items: usize) -> (history: HistoryManager)
        ensures
            history.wf(),
            history@ == Seq::<HistoryView>::empty(),
            history.cap() == max_items,
    {
        let history = HistoryManager { max_items, items: Vec::new() };
        assert(history@ =~= Seq::<HistoryView>::empty());
        history
    }

    /// Number of rows.
    pub fn count(&self) -> (n: usize)
        ensures
            n == self@.len(),
    {
        self.items.len()
    }

    /// The configured cap.
    pub fn max_items(&self) -> (n: usize)
        ensures
            n == self.cap(),
    {
        self.max_items
    }

    /// The rows, in the order of their first visit.
    pub fn list(&self) -> (items: &Vec<HistoryItem>)
        ensures
            item_views(items@) == self@,
    {
        &self.items
    }

    /// Position of the row for `url`.
    fn find(&self, url: &str) -> (i: usize)
        ensures
            i == item_index(self@, url@),
            i <= self@.len(),
    {
        let mut i: usize = 0;
        while i < self.items.len() && !(*self.items[i].url.as_str() == *url)
            invariant
                i <= self.items.len(),
                forall|j: int| 0 <= j < i ==> (#[trigger] self@[j]).url != url@,
            decreases self.items.len() - i,
        {
            i += 1;
        }
        proof {
            lemma_item_index_is(self@, url@, i as int);
        }
        i
    }

    /// Records a visit of `url` at `now`.
    pub fn record_visit_at(&mut self, url: &str, title: Option<&str>, now: i64)
        requires
            old(self).wf(),
        ensures
            final(self).wf(),
            final(self).cap() == old(self).cap(),
            final(self)@ == visited(
                old(self)@,
                url@,
                title_view(title),
                now,
            ),
    {
        let ghost rows = self@;
        let i = self.find(url);
        let title: Option<String> = match title {
            Some(t) => Some(t.to_owned()),
            None => None,
        };
        proof {
            lemma_item_index(rows, url@);
        }
        if i < self.items.len() {
            let count = self.items[i].visit_count;
            self.items[i].visit_count = if count < u64::MAX {
                count + 1
            } else {
                count
            };
            self.items[i].last_visit = now;
            self.items[i].title = title;
            proof {
                assert(self@ =~= rows.update(
                    i as int,
                    HistoryView {
                        title: option_view(title),
                        visit_count: next_count(rows[i as int].visit_count),
                        last_visit: now,
                        ..rows[i as int]
                    },
                ));
                assert forall|a: int, b: int| 0 <= a < b < self@.len() implies self@[a].url
                    != self@[b].url by {
                    assert(rows[a].url != rows[b].url);
                }
            }
        } else {
            self.items.push(
                HistoryItem {
                    url: url.to_owned(),
                    title,
                    visit_count: 1,
                    last_visit: now,
                    created_at: now,
                },
            );
            proof {
                assert(self@ =~= rows.push(
                    HistoryView {
                        url: url@,
                        title: option_view(title),
                        visit_count: 1,
                        last_visit: now,
                        created_at: now,
                    },
                ));
                assert forall|a: int, b: int| 0 <= a < b < self@.len() implies self@[a].url
                    != self@[b].url by {
                    if b < rows.len() {
                        assert(rows[a].url != rows[b].url);
                    } else {
                        assert(rows[a].url != url@);
                    }
                }
            }
        }
    }

    /// Puts back a row that was read from the index: the row of the same
    /// URL is replaced, a new URL is appended.
    pub fn restore(&mut self, item: HistoryItem)
        requires
            old(self).wf(),
        ensures
            final(self).wf(),
            final(self).cap() == old(self).cap(),
            final(self)@ == restored(old(self)@, item@),
    {
        let ghost rows = self@;
        let ghost view = item@;
        let i = self.find(item.url.as_str());
        proof {
            lemma_item_index(rows, view.url);
        }
        if i < self.items.len() {
            self.items[i] = item;
            proof {
                assert(self@ =~= rows.update(i as int, view));
                assert forall|a: int, b: int| 0 <= a < b < self@.len() implies self@[a].url
                    != self@[b].url by {
                    assert(rows[a].url != rows[b].url);
                }
            }
        } else {
            self.items.push(item);
            proof {
                assert(self@ =~= rows.push(view));
                assert forall|a: int, b: int| 0 <= a < b < self@.len() implies self@[a].url
                    != self@[b].url by {
                    if b < rows.len() {
                        assert(rows[a].url != rows[b].url);
                    } else {
                        assert(rows[a].url != view.url);
                    }
                }
            }
        }
    }

    /// Records a visit made now.
    pub fn record_visit(&mut self, url: &str, title: Option<&str>)
        requires
            old(self).wf(),
        ensures
            final(self).wf(),
            final(self).cap() == old(self).cap(),
            exists|now: i64|
                final(self)@ == #[trigger] visited(
                    old(self)@,
                    url@,
                    title_view(title),
                    now,
                ),
    {
        let now = now_millis();
        self.record_visit_at(url, title, now);
    }

    /// Removes least recently visited rows until at most `max_items`
    /// remain. Returns the removed rows in the order of their removal.
    pub fn cleanup(&mut self) -> (gone: Vec<HistoryItem>)
        requires
            old(self).wf(),
        ensures
            final(self).wf(),
            final(self).cap() == old(self).cap(),
            final(self)@ == keep_newest(old(self)@, old(self).cap()),
            item_views(gone@) == dropped(old(self)@, old(self).cap()),
    {
        let ghost orig = self@;
        let ghost max = self.max_items as nat;
        let mut gone: Vec<HistoryItem> = Vec::new();
        assert(item_views(gone@) + dropped(orig, max) =~= dropped(orig, max));
        while self.items.len() > self.max_items
            invariant
                max == self.max_items,
                self.max_items == old(self).max_items,
                keep_newest(self@, max) == keep_newest(orig, max),
                item_views(gone@) + dropped(self@, max) == dropped(orig, max),
            decreases self.items.len(),
        {
            let k = find_oldest(&self.items);
            let ghost before = self@;
            let ghost before_gone = item_views(gone@);
            let item = self.items.remove(k);
            gone.push(item);
            proof {
                assert(self@ =~= before.remove(k as int));
                assert(item_views(gone@) =~= before_gone.push(before[k as int]));
                assert(item_views(gone@) + dropped(self@, max) =~= before_gone + dropped(
                    before,
                    max,
                ));
            }
        }
        proof {
            assert(item_views(gone@) =~= dropped(orig, max));
            lemma_keep_newest(orig, max);
        }
        gone
    }
}

} // verus!
