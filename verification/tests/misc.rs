use crynn::bidi::{
    close_tab_url, endpoint_url, find_tab, list_tabs_url, navigate_script, new_tab_url,
    version_url, TabInfo, DEFAULT_BIDI_PORT,
};
use crynn::downloads::{Download, DownloadStatus};
use crynn::engine_bridge::Engine;
use crynn::settings::{get_settings_path, join_path, Settings};
use crynn::shell::browser::{
    active_tab_after_close, memory_parts, tab_label, NavigationHistory,
};
use crynn::text::{
    chars_of, contains, contains_char, decimal_digits, ends_with, find, same_chars, split_on,
    starts_with, string_of, to_lowercase, trim,
};

fn c(s: &str) -> Vec<char> {
    s.chars().collect()
}

fn s(v: &[char]) -> String {
    v.iter().collect()
}

#[test]
fn text_trim_and_split() {
    assert_eq!(s(trim(&c("  a b \t\n"))), "a b");
    assert_eq!(s(trim(&c(" \u{a0}\u{3000} "))), "");
    assert_eq!(s(trim(&c("x"))), "x");
    assert_eq!(s(trim(&c(""))), "");
    let parts: Vec<String> = split_on(&c("a;b;;c;"), ';').iter().map(|p| s(p)).collect();
    assert_eq!(parts, vec!["a", "b", "", "c", ""]);
    let none: Vec<String> = split_on(&c("abc"), ';').iter().map(|p| s(p)).collect();
    assert_eq!(none, vec!["abc"]);
    let empty: Vec<String> = split_on(&c(""), ';').iter().map(|p| s(p)).collect();
    assert_eq!(empty, vec![""]);
}

#[test]
fn text_search_and_compare() {
    assert_eq!(find(&c("a=b=c"), '='), 1);
    assert_eq!(find(&c("abc"), '='), 3);
    assert!(contains_char(&c("a.b"), '.'));
    assert!(!contains_char(&c("ab"), '.'));
    assert!(contains(&c("https://x"), &c("://")));
    assert!(!contains(&c("https:/x"), &c("://")));
    assert!(contains(&c("abc"), &c("")));
    assert!(!contains(&c("ab"), &c("abc")));
    assert!(starts_with(&c("about:blank"), &c("about:")));
    assert!(!starts_with(&c("abou"), &c("about:")));
    assert!(ends_with(&c("sub.example.com"), &c(".example.com")));
    assert!(!ends_with(&c("example.org"), &c(".example.com")));
    assert!(same_chars(&c("abc"), &c("abc")));
    assert!(!same_chars(&c("abc"), &c("abd")));
    assert!(!same_chars(&c("abc"), &c("ab")));
}

#[test]
fn text_conversions() {
    assert_eq!(chars_of("héllo"), c("héllo"));
    assert_eq!(string_of(&c("héllo")), "héllo");
    assert_eq!(s(&to_lowercase(&c("HeLLo-Ä1"))), "hello-Ä1");
    assert_eq!(s(&decimal_digits(0)), "0");
    assert_eq!(s(&decimal_digits(8080)), "8080");
    assert_eq!(s(&decimal_digits(u64::MAX)), "18446744073709551615");
}

#[test]
fn settings_defaults() {
    let st = Settings::default();
    assert_eq!(st.theme, "auto");
    assert_eq!(st.accent, None);
    assert_eq!(st.locale, "en");
    assert_eq!(st.default_search, "https://www.google.com/search?q=");
    assert!(!st.dnt);
    assert_eq!(st.profile_path, "");
    assert_eq!(st.keybindings.len(), 8);
    let new_tab = st.binding_for("newTab").unwrap();
    assert_eq!(new_tab.keys, vec!["Control", "KeyT"]);
    let prev = st.binding_for("prevTab").unwrap();
    assert_eq!(prev.keys, vec!["Control", "Shift", "Tab"]);
    let reopen = st.binding_for("reopenClosed").unwrap();
    assert_eq!(reopen.keys, vec!["Control", "Shift", "KeyT"]);
    assert_eq!(st.binding_for("tabSearch").unwrap().keys, vec!["Control", "KeyK"]);
    assert!(st.binding_for("unknown").is_none());
    let actions: Vec<String> = st.keybindings.iter().map(|k| k.action.clone()).collect();
    assert_eq!(
        actions,
        vec![
            "newTab",
            "closeTab",
            "nextTab",
            "prevTab",
            "reopenClosed",
            "focusAddress",
            "newWindow",
            "tabSearch"
        ]
    );
}

#[test]
fn settings_path() {
    assert_eq!(get_settings_path("/home/u/.config/crynn"), "/home/u/.config/crynn/settings.json");
    assert_eq!(get_settings_path("/cfg/"), "/cfg/settings.json");
    assert_eq!(get_settings_path(""), "settings.json");
    assert_eq!(join_path("a", "b"), "a/b");
}

#[test]
fn downloads_start_pending() {
    let d = Download::new("https://x/f.zip".to_string(), "f.zip".to_string(), "/tmp/f.zip".to_string());
    assert_eq!(d.url, "https://x/f.zip");
    assert_eq!(d.filename, "f.zip");
    assert_eq!(d.path, "/tmp/f.zip");
    assert_eq!(d.total_bytes, None);
    assert_eq!(d.received_bytes, 0);
    assert_eq!(d.status, DownloadStatus::Pending);
    assert_eq!(d.id.len(), 36);
    let e = Download::new(String::new(), String::new(), String::new());
    assert_ne!(d.id, e.id);
    let f = Download::with_id("id-1".to_string(), "u".to_string(), "n".to_string(), "p".to_string());
    assert_eq!(f.id, "id-1");
    assert_eq!(f.status, DownloadStatus::Pending);
}

#[test]
fn tabs_are_found_by_id() {
    let tabs = vec![
        TabInfo { id: "1".to_string(), title: "One".to_string(), url: "u1".to_string(), audible: false },
        TabInfo { id: "2".to_string(), title: "Two".to_string(), url: "u2".to_string(), audible: true },
        TabInfo { id: "2".to_string(), title: "Twin".to_string(), url: "u3".to_string(), audible: false },
    ];
    assert_eq!(find_tab(&tabs, "2").unwrap().title, "Two");
    assert_eq!(find_tab(&tabs, "1").unwrap().url, "u1");
    assert!(find_tab(&tabs, "3").is_none());
    assert!(find_tab(&vec![], "1").is_none());
}

#[test]
fn engine_handles() {
    let e = Engine::connect("ws://localhost:9222".to_string());
    assert_eq!(e.ws_url, "ws://localhost:9222");
    assert_eq!(e.new_tab().0, "dummy");
}

#[test]
fn navigation_history_moves() {
    let mut h = NavigationHistory::new();
    assert_eq!(h.current(), None);
    assert_eq!(h.go_back(), None);
    assert_eq!(h.go_forward(), None);
    h.add_to_history("a");
    h.add_to_history("b");
    h.add_to_history("c");
    assert_eq!(h.len(), 3);
    assert_eq!(h.current(), Some("c"));
    assert_eq!(h.go_forward(), None);
    assert_eq!(h.go_back(), Some("b"));
    assert_eq!(h.go_back(), Some("a"));
    assert_eq!(h.go_back(), None);
    assert_eq!(h.current(), Some("a"));
    assert_eq!(h.go_forward(), Some("b"));
    h.add_to_history("d");
    assert_eq!(h.len(), 3);
    assert_eq!(h.current(), Some("d"));
    assert_eq!(h.go_forward(), None);
    assert_eq!(h.go_back(), Some("b"));
    h.clear();
    assert_eq!(h.len(), 0);
    assert_eq!(h.current(), None);
}

#[test]
fn tab_strip_and_status_bar() {
    assert_eq!(active_tab_after_close(0, 3), 0);
    assert_eq!(active_tab_after_close(1, 3), 1);
    assert_eq!(active_tab_after_close(2, 3), 1);
    assert_eq!(active_tab_after_close(1, 2), 0);
    assert_eq!(memory_parts(3 * 1048576 + 5 * 1024 + 17), (3, 5));
    assert_eq!(memory_parts(1023), (0, 0));
    assert_eq!(tab_label("short"), "short");
    assert_eq!(tab_label("exactly twenty chars"), "exactly twenty chars");
    assert_eq!(tab_label("this title is too long"), "this title is too...");
    assert_eq!(tab_label("äöüäöüäöüäöüäöüäöüäöü"), "äöüäöüäöüäöüäöüäö...");
}

#[test]
fn control_endpoints() {
    assert_eq!(DEFAULT_BIDI_PORT, 9222);
    assert_eq!(endpoint_url(80, "/x"), "http://localhost:80/x");
    assert_eq!(new_tab_url(9222, "https://a.b/"), "http://localhost:9222/json/new?https://a.b/");
    assert_eq!(close_tab_url(9222, "t1"), "http://localhost:9222/json/close/t1");
    assert_eq!(list_tabs_url(65535), "http://localhost:65535/json/list");
    assert_eq!(version_url(0), "http://localhost:0/json/version");
    assert_eq!(navigate_script("https://a.b/"), "window.location.href = 'https://a.b/'");
}

#[test]
fn tab_from_fields() {
    let t = TabInfo::from_fields(Some("7".to_string()), None, Some("u".to_string()), Some(true));
    assert_eq!(t.id, "7");
    assert_eq!(t.title, "");
    assert_eq!(t.url, "u");
    assert!(t.audible);
    let e = TabInfo::from_fields(None, None, None, None);
    assert_eq!(e.id, "");
    assert!(!e.audible);
    assert!(!TabInfo::from_fields(None, None, None, Some(false)).audible);
}
