//! Bookmarks: an append-only list that only the user shortens.

use vstd::prelude::*;
use vstd::string::StringExecFns;
use crate::clock::now_millis;

verus! {

/// One bookmark.
#[derive(Debug)]
pub struct Bookmark {
    pub url: String,
    pub title: String,
    pub folder: String,
    pub created_at: i64,
}

/// Mathematical value of a [`Bookmark`].
pub struct BookmarkView {
    pub url: Seq<char>,
    pub title: Seq<char>,
    pub folder: Seq<char>,
    pub created_at: i64,
}

impl View for Bookmark {
    type V = BookmarkView;

    open spec fn view(&self) -> BookmarkView {
        BookmarkView {
            url: self.url@,
            title: self.title@,
            folder: self.folder@,
            created_at: self.created_at,
        }
    }
}

/// The views of a sequence of bookmarks.
pub open spec fn bookmark_views(items: Seq<Bookmark>) -> Seq<BookmarkView> {
    Seq::new(items.len(), |i: int| items[i]@)
}

/// The folder of a bookmark that names none.
pub open spec fn default_folder() -> Seq<char> {
    "default"@
}

/// The folder that a bookmark is filed under.
pub open spec fn folder_or_default(folder: Option<&str>) -> Seq<char> {
    match folder {
        Some(f) => f@,
        None => default_folder(),
    }
}

/// The bookmarks without those for `url`.
pub open spec fn without_url(items: Seq<BookmarkView>, url: Seq<char>) -> Seq<BookmarkView> {
    items.filter(|b: BookmarkView| b.url != url)
}

/// The bookmarks of one folder, or all of them when no folder is asked for.
pub open spec fn in_folder(items: Seq<BookmarkView>, folder: Option<&str>) -> Seq<BookmarkView> {
    match folder {
        Some(f) => items.filter(|b: BookmarkView| b.folder == f@),
        None => items,
    }
}

/// The bookmark list.
#[derive(Debug)]
pub struct BookmarkManager {
    max_items: usize,
    items: Vec<Bookmark>,
}

impl View for BookmarkManager {
    type V = Seq<BookmarkView>;

    closed spec fn view(&self) -> Seq<BookmarkView> {
        bookmark_views(self.items@)
    }
}

impl Bookmark {
    /// A copy of the bookmark.
    pub fn duplicate(&self) -> (b: Bookmark)
        ensures
            b@ == self@,
    {
        Bookmark {
            url: self.url.clone(),
            title: self.title.clone(),
            folder: self.folder.clone(),
            created_at: self.created_at,
        }
    }
}

impl BookmarkManager {
    /// The configured number of bookmarks the user is meant to keep.
    pub closed spec fn cap(&self) -> nat {
        self.max_items as nat
    }

    /// An empty list.
    pub fn new(max_items: usize) -> (list: BookmarkManager)
        ensures
            list@ == Seq::<BookmarkView>::empty(),
            list.cap() == max_items,
    {
        let list = BookmarkManager { max_items, items: Vec::new() };
        assert(list@ =~= Seq::<BookmarkView>::empty());
        list
    }

    /// Number of bookmarks.
    pub fn count(&self) -> (n: usize)
        ensures
            n == self@.len(),
    {
        self.items.len()
    }

    /// The configured limit.
    pub fn max_items(&self) -> (n: usize)
        ensures
            n == self.cap(),
    {
        self.max_items
    }

    /// Appends a bookmark created at `now`. Without a folder it is filed
    /// under `default`.
    pub fn add_at(&mut self, url: &str, title: &str, folder: Option<&str>, now: i64)
        ensures
            final(self).cap() == old(self).cap(),
            final(self)@ == old(self)@.push(
                BookmarkView {
                    url: url@,
                    title: title@,
                    folder: folder_or_default(folder),
                    created_at: now,
                },
            ),
    {
        let folder = match folder {
            Some(f) => f.to_owned(),
            None => String::from_str("default"),
        };
        let ghost before = self@;
        let bookmark = Bookmark { url: url.to_owned(), title: title.to_owned(), folder, created_at: now };
        let ghost view = bookmark@;
        self.items.push(bookmark);
        assert(self@ =~= before.push(view));
    }

    /// Puts back a bookmark that was read from the index.
    pub fn restore(&mut self, bookmark: Bookmark)
        ensures
            final(self).cap() == old(self).cap(),
            final(self)@ == old(self)@.push(bookmark@),
    {
        let ghost before = self@;
        let ghost view = bookmark@;
        self.items.push(bookmark);
        assert(self@ =~= before.push(view));
    }

    /// Appends a bookmark created now.
    pub fn add(&mut self, url: &str, title: &str, folder: Option<&str>)
        ensures
            final(self).cap() == old(self).cap(),
            exists|now: i64|
                final(self)@ == old(self)@.push(
                    #[trigger] stamped(url@, title@, folder_or_default(folder), now),
                ),
    {
        let now = now_millis();
        self.add_at(url, title, folder, now);
        assert(self@ == old(self)@.push(stamped(url@, title@, folder_or_default(folder), now)));
    }

    /// Removes every bookmark for `url`. Returns how many were removed.
    pub fn remove(&mut self, url: &str) -> (removed: usize)
        ensures
            final(self).cap() == old(self).cap(),
            final(self)@ == without_url(old(self)@, url@),
            removed == old(self)@.len() - final(self)@.len(),
    {
        let ghost rows = self@;
        let ghost p = |b: BookmarkView| b.url != url@;
        let ghost mut k: int = 0;
        let mut i: usize = 0;
        let mut removed: usize = 0;
        let total: usize = self.items.len();
        proof {
            assert(rows.len() == total);
            assert(rows.take(0).filter(p) =~= Seq::<BookmarkView>::empty()) by {
                reveal(Seq::filter);
            }
            assert(self@ =~= rows.take(0).filter(p) + rows.skip(0));
        }
        while i < self.items.len()
            invariant
                0 <= k <= rows.len(),
                rows.len() == total,
                i == rows.take(k).filter(p).len(),
                removed == k - i,
                self@ == rows.take(k).filter(p) + rows.skip(k),
                p == (|b: BookmarkView| b.url != url@),
                self.max_items == old(self).max_items,
            decreases rows.len() - k,
        {
            proof {
                crate::seq_lemmas::lemma_filter_take_step(rows, p, k);
                assert(self@[i as int] == rows[k]);
                assert(self.items@[i as int]@ == rows[k]);
            }
            if *self.items[i].url.as_str() == *url {
                let ghost before = self@;
                self.items.remove(i);
                removed += 1;
                proof {
                    assert(self@ =~= before.remove(i as int));
                    assert(self@ =~= rows.take(k + 1).filter(p) + rows.skip(k + 1));
                }
            } else {
                proof {
                    assert(self@ =~= rows.take(k + 1).filter(p) + rows.skip(k + 1));
                }
                i += 1;
            }
            proof {
                k = k + 1;
            }
        }
        proof {
            assert(rows.take(k) =~= rows);
            assert(self@ =~= rows.filter(p));
        }
        removed
    }

    /// Copies of the bookmarks of one folder, or of all bookmarks when no
    /// folder is given, in the order in which they were added.
    pub fn list(&self, folder: Option<&str>) -> (found: Vec<Bookmark>)
        ensures
            bookmark_views(found@) == in_folder(self@, folder),
    {
        let ghost rows = self@;
        let mut found: Vec<Bookmark> = Vec::new();
        let mut i: usize = 0;
        match folder {
            Some(f) => {
                let ghost p = |b: BookmarkView| b.folder == f@;
                proof {
                    assert(rows.take(0).filter(p) =~= Seq::<BookmarkView>::empty()) by {
                        reveal(Seq::filter);
                    }
                    assert(bookmark_views(found@) =~= rows.take(0).filter(p));
                }
                while i < self.items.len()
                    invariant
                        i <= self.items.len(),
                        rows == self@,
                        p == (|b: BookmarkView| b.folder == f@),
                        bookmark_views(found@) == rows.take(i as int).filter(p),
                    decreases self.items.len() - i,
                {
                    proof {
                        crate::seq_lemmas::lemma_filter_take_step(rows, p, i as int);
                        assert(self.items@[i as int]@ == rows[i as int]);
                    }
                    if *self.items[i].folder.as_str() == *f {
                        let ghost before = bookmark_views(found@);
                        found.push(self.items[i].duplicate());
                        assert(bookmark_views(found@) =~= before.push(rows[i as int]));
                    }
                    i += 1;
                }
                assert(rows.take(i as int) =~= rows);
            },
            None => {
                while i < self.items.len()
                    invariant
                        i <= self.items.len(),
                        rows == self@,
                        bookmark_views(found@) == rows.take(i as int),
                    decreases self.items.len() - i,
                {
                    let ghost before = bookmark_views(found@);
                    found.push(self.items[i].duplicate());
                    assert(bookmark_views(found@) =~= before.push(rows[i as int]));
                    assert(rows.take(i + 1) =~= rows.take(i as int).push(rows[i as int]));
                    i += 1;
                }
                assert(rows.take(i as int) =~= rows);
            },
        }
        found
    }

    /// Bookmarks are never removed automatically: a cleanup changes nothing.
    pub fn cleanup(&mut self)
        ensures
            *final(self) == *old(self),
    {
    }
}

/// A bookmark value with its creation time.
pub open spec fn stamped(
    url: Seq<char>,
    title: Seq<char>,
    folder: Seq<char>,
    now: i64,
) -> BookmarkView {
    BookmarkView { url, title, folder, created_at: now }
}

} // verus!
