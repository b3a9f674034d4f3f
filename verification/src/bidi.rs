//! What the engine reports about its tabs.

use vstd::prelude::*;
use vstd::string::StringExecFns;
use crate::text::{decimal, decimal_digits, string_of};

verus! {

/// One tab as the engine lists it.
#[derive(Debug)]
pub struct TabInfo {
    pub id: String,
    pub title: String,
    pub url: String,
    pub audible: bool,
}

/// The port on which the engine listens for control requests.
pub const DEFAULT_BIDI_PORT: u16 = 9222;

impl TabInfo {
    /// A tab from the fields that the engine sent; a missing text is
    /// empty, a missing flag is off.
    pub fn from_fields(
        id: Option<String>,
        title: Option<String>,
        url: Option<String>,
        audible: Option<bool>,
    ) -> (t: TabInfo)
        ensures
            t.id@ == text_or_empty(id),
            t.title@ == text_or_empty(title),
            t.url@ == text_or_empty(url),
            t.audible == (audible == Some(true)),
    {
        TabInfo {
            id: match id {
                Some(s) => s,
                None => String::new(),
            },
            title: match title {
                Some(s) => s,
                None => String::new(),
            },
            url: match url {
                Some(s) => s,
                None => String::new(),
            },
            audible: match audible {
                Some(b) => b,
                None => false,
            },
        }
    }
}

/// The text of an optional string, empty when there is none.
pub open spec fn text_or_empty(s: Option<String>) -> Seq<char> {
    match s {
        Some(t) => t@,
        None => Seq::empty(),
    }
}

/// The address of a control endpoint: `http://localhost:`, the port and the path.
pub open spec fn endpoint(port: u16, path: Seq<char>) -> Seq<char> {
    "http://localhost:"@ + decimal(port as nat) + path
}

/// The address of the control endpoint `path` on `port`.
pub fn endpoint_url(port: u16, path: &str) -> (r: String)
    ensures
        r@ == endpoint(port, path@),
{
    let mut r = String::from_str("http://localhost:");
    let digits = decimal_digits(port as u64);
    let digits_text = string_of(digits.as_slice());
    r.append(digits_text.as_str());
    r.append(path);
    r
}

/// The address that opens a tab for `url`.
pub fn new_tab_url(port: u16, url: &str) -> (r: String)
    ensures
        r@ == endpoint(port, "/json/new?"@ + url@),
{
    let mut path = String::from_str("/json/new?");
    path.append(url);
    endpoint_url(port, path.as_str())
}

/// The address that closes the tab `tab_id`.
pub fn close_tab_url(port: u16, tab_id: &str) -> (r: String)
    ensures
        r@ == endpoint(port, "/json/close/"@ + tab_id@),
{
    let mut path = String::from_str("/json/close/");
    path.append(tab_id);
    endpoint_url(port, path.as_str())
}

/// The address that lists the tabs.
pub fn list_tabs_url(port: u16) -> (r: String)
    ensures
        r@ == endpoint(port, "/json/list"@),
{
    endpoint_url(port, "/json/list")
}

/// The address that reports the engine's version.
pub fn version_url(port: u16) -> (r: String)
    ensures
        r@ == endpoint(port, "/json/version"@),
{
    endpoint_url(port, "/json/version")
}

/// The script that sends a tab to `url`.
pub fn navigate_script(url: &str) -> (r: String)
    ensures
        r@ == ("window.location.href = '"@ + url@).push('\''),
{
    let mut r = String::from_str("window.location.href = '");
    r.append(url);
    r.push('\'');
    r
}

/// Index of the first tab with identifier `id`, or `tabs.len()` when there is none.
pub open spec fn tab_index(tabs: Seq<TabInfo>, id: Seq<char>) -> int
    decreases tabs.len(),
{
    if tabs.len() == 0 || tabs[0].id@ == id {
        0
    } else {
        1 + tab_index(tabs.drop_first(), id)
    }
}

/// The first position that holds `id`, after tabs without it, is `tab_index`.
pub proof fn lemma_tab_index_is(tabs: Seq<TabInfo>, id: Seq<char>, n: int)
    requires
        0 <= n <= tabs.len(),
        forall|i: int| 0 <= i < n ==> (#[trigger] tabs[i]).id@ != id,
        n < tabs.len() ==> tabs[n].id@ == id,
    ensures
        tab_index(tabs, id) == n,
    decreases tabs.len(),
{
    if n > 0 {
        let t = tabs.drop_first();
        assert(tabs[0].id@ != id);
        assert forall|i: int| 0 <= i < n - 1 implies (#[trigger] t[i]).id@ != id by {
            assert(t[i] == tabs[i + 1]);
        }
        lemma_tab_index_is(t, id, n - 1);
    }
}

/// The first of the listed tabs that has the identifier `tab_id`.
pub fn find_tab<'a>(tabs: &'a Vec<TabInfo>, tab_id: &str) -> (r: Option<&'a TabInfo>)
    ensures
        match r {
            Some(t) => tab_index(tabs@, tab_id@) < tabs@.len() && *t == tabs@[tab_index(
                tabs@,
                tab_id@,
            )],
            None => tab_index(tabs@, tab_id@) == tabs@.len(),
        },
{
    let mut i: usize = 0;
    while i < tabs.len() && !(*tabs[i].id.as_str() == *tab_id)
        invariant
            i <= tabs.len(),
            forall|j: int| 0 <= j < i ==> (#[trigger] tabs@[j]).id@ != tab_id@,
        decreases tabs.len() - i,
    {
        i += 1;
    }
    proof {
        lemma_tab_index_is(tabs@, tab_id@, i as int);
    }
    if i < tabs.len() {
        Some(&tabs[i])
    } else {
        None
    }
}

} // verus!
