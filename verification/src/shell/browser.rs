//! The navigation history of the address bar and the tab strip.

use vstd::prelude::*;
use vstd::string::StringExecFns;
use crate::text::{chars_of, string_of};

verus! {

/// The addresses visited in a window and the position among them.
#[derive(Debug)]
pub struct NavigationHistory {
    urls: Vec<String>,
    /// Position of the current address; `None` before the first visit.
    index: Option<usize>,
}

/// The view of a sequence of strings.
pub open spec fn url_views(urls: Seq<String>) -> Seq<Seq<char>> {
    Seq::new(urls.len(), |i: int| urls[i]@)
}

impl NavigationHistory {
    /// The visited addresses, oldest first.
    pub closed spec fn urls(&self) -> Seq<Seq<char>> {
        url_views(self.urls@)
    }

    /// Position of the current address, or -1 before the first visit.
    pub closed spec fn position(&self) -> int {
        match self.index {
            Some(i) => i as int,
            None => -1,
        }
    }

    /// The position lies within the visited addresses.
    pub open spec fn wf(&self) -> bool {
        -1 <= self.position() < self.urls().len() && (self.urls().len() > 0 ==> self.position()
            >= 0)
    }

    /// An empty history.
    pub fn new() -> (h: NavigationHistory)
        ensures
            h.wf(),
            h.urls() == Seq::<Seq<char>>::empty(),
            h.position() == -1,
    {
        let h = NavigationHistory { urls: Vec::new(), index: None };
        assert(h.urls() =~= Seq::<Seq<char>>::empty());
        h
    }

    /// Number of visited addresses.
    pub fn len(&self) -> (n: usize)
        ensures
            n == self.urls().len(),
    {
        self.urls.len()
    }

    /// The current address.
    pub fn current(&self) -> (r: Option<&str>)
        ensures
            match r {
                Some(u) => self.position() >= 0 && self.position() < self.urls().len() && u@
                    == self.urls()[self.position()],
                None => self.position() < 0 || self.position() >= self.urls().len(),
            },
    {
        match self.index {
            Some(i) => {
                if i < self.urls.len() {
                    Some(self.urls[i].as_str())
                } else {
                    None
                }
            },
            None => None,
        }
    }

    /// Visits `url`: everything after the current address is forgotten and
    /// `url` becomes the last and current address.
    pub fn add_to_history(&mut self, url: &str)
        requires
            old(self).wf(),
        ensures
            final(self).wf(),
            final(self).urls() == old(self).urls().take(old(self).position() + 1).push(url@),
            final(self).position() == old(self).position() + 1,
    {
        let count: usize = self.urls.len();
        if let Some(i) = self.index {
            assert(i < count);
            self.urls.truncate(i + 1);
        }
        let ghost kept = self.urls();
        assert(kept =~= old(self).urls().take(old(self).position() + 1));
        self.urls.push(url.to_owned());
        self.index = Some(self.urls.len() - 1);
        assert(self.urls() =~= kept.push(url@));
    }

    /// Steps back by one address, if there is an earlier one. Returns the
    /// address that is now current.
    pub fn go_back(&mut self) -> (r: Option<&str>)
        requires
            old(self).wf(),
        ensures
            final(self).wf(),
            final(self).urls() == old(self).urls(),
            final(self).position() == if old(self).position() > 0 {
                old(self).position() - 1
            } else {
                old(self).position()
            },
            match r {
                Some(u) => old(self).position() > 0 && u@ == old(self).urls()[old(self).position()
                    - 1],
                None => old(self).position() <= 0,
            },
    {
        match self.index {
            Some(i) => {
                if i > 0 {
                    self.index = Some(i - 1);
                    Some(self.urls[i - 1].as_str())
                } else {
                    None
                }
            },
            None => None,
        }
    }

    /// Steps forward by one address, if there is a later one. Returns the
    /// address that is now current.
    pub fn go_forward(&mut self) -> (r: Option<&str>)
        requires
            old(self).wf(),
        ensures
            final(self).wf(),
            final(self).urls() == old(self).urls(),
            final(self).position() == if old(self).position() + 1 < old(self).urls().len() {
                old(self).position() + 1
            } else {
                old(self).position()
            },
            match r {
                Some(u) => old(self).position() + 1 < old(self).urls().len() && u@ == old(
                    self,
                ).urls()[old(self).position() + 1],
                None => old(self).position() + 1 >= old(self).urls().len(),
            },
    {
        let count: usize = self.urls.len();
        assert(self.position() < count);
        let next: usize = match self.index {
            Some(i) => i + 1,
            None => 0,
        };
        if next < self.urls.len() {
            self.index = Some(next);
            Some(self.urls[next].as_str())
        } else {
            None
        }
    }

    /// Forgets every address.
    pub fn clear(&mut self)
        ensures
            final(self).wf(),
            final(self).urls() == Seq::<Seq<char>>::empty(),
            final(self).position() == -1,
    {
        self.urls.clear();
        self.index = None;
        assert(self.urls() =~= Seq::<Seq<char>>::empty());
    }
}

/// The active tab after the tab at `closed` has been removed from `count`
/// tabs: it stays, unless it now lies beyond the last tab.
pub open spec fn active_after_close(active: nat, count: nat) -> nat {
    if active >= count - 1 {
        (count - 2) as nat
    } else {
        active
    }
}

/// The index of the active tab after one of `count` tabs has been closed.
pub fn active_tab_after_close(active: usize, count: usize) -> (r: usize)
    requires
        count >= 2,
    ensures
        r == active_after_close(active as nat, count as nat),
        r < count - 1,
{
    if active >= count - 1 {
        count - 2
    } else {
        active
    }
}

/// The label of a tab: the title, or its first 17 characters followed by
/// three dots when it has more than 20.
pub open spec fn label_of(title: Seq<char>) -> Seq<char> {
    if title.len() > 20 {
        title.take(17) + "..."@
    } else {
        title
    }
}

/// The label under which a tab with the given title is shown.
pub fn tab_label(title: &str) -> (r: String)
    ensures
        r@ == label_of(title@),
{
    let chars = chars_of(title);
    if chars.len() > 20 {
        let head = &chars.as_slice()[0..17];
        assert(head@ =~= title@.take(17));
        let mut r = string_of(head);
        r.append("...");
        r
    } else {
        string_of(chars.as_slice())
    }
}

/// Parts of a byte count as shown in the status bar: whole mebibytes and
/// the remaining whole kibibytes.
pub fn memory_parts(bytes: usize) -> (r: (usize, usize))
    ensures
        r.0 == bytes / 1048576,
        r.1 == (bytes % 1048576) / 1024,
{
    (bytes / 1048576, (bytes % 1048576) / 1024)
}

} // verus!
