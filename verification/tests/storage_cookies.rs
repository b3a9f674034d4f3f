use crynn::storage::cookies::{
    cookie_applies, cookie_from_header, domain_covers, expires_attribute, CookieEntry,
    CookieManager, SameSite, UPGRADE_SECURE_ON_TLS,
};
use crynn::storage::error::StorageError;
use crynn::web_url::WebUrl;

fn url(text: &str) -> WebUrl {
    WebUrl::parse(text).unwrap()
}

fn chars(s: &str) -> Vec<char> {
    s.chars().collect()
}

#[test]
fn cookie_upsert_keeps_one_row() {
    let mut jar = CookieManager::new();
    let u = url("https://example.com/");
    jar.set_cookie_at("a=1; Path=/", &u, None, 10).unwrap();
    jar.set_cookie_at("a=2; Path=/", &u, None, 20).unwrap();
    assert_eq!(jar.count(), 1);
    let c = &jar.cookies()[0];
    assert_eq!(c.name, "a");
    assert_eq!(c.value, "2");
    assert_eq!(c.created_at, 20);
}

#[test]
fn cookie_upsert_key_is_name_domain_path() {
    let mut jar = CookieManager::new();
    let u = url("https://example.com/");
    jar.set_cookie_at("a=1; Path=/", &u, None, 1).unwrap();
    jar.set_cookie_at("a=2; Path=/docs", &u, None, 2).unwrap();
    jar.set_cookie_at("a=3; Path=/; Domain=.example.com", &u, None, 3).unwrap();
    jar.set_cookie_at("b=4", &u, None, 4).unwrap();
    assert_eq!(jar.count(), 4);
    jar.set_cookie_at("a=5; Path=/docs", &u, None, 5).unwrap();
    assert_eq!(jar.count(), 4);
    let values: Vec<String> = jar.cookies().iter().map(|c| c.value.clone()).collect();
    assert_eq!(values, vec!["1", "3", "4", "5"]);
}

#[test]
fn cookie_secure_upgrade_on_tls() {
    assert!(UPGRADE_SECURE_ON_TLS);
    let mut jar = CookieManager::new();
    jar.set_cookie_at("s=x", &url("https://example.com"), None, 1).unwrap();
    assert!(jar.cookies()[0].secure);
    let over_tls = jar.get_cookies_at(&url("https://example.com"), 2).unwrap();
    assert_eq!(over_tls, vec!["s=x".to_string()]);
    let plain = jar.get_cookies_at(&url("http://example.com"), 3).unwrap();
    assert!(plain.is_empty());
}

#[test]
fn cookie_not_secure_over_plain_http() {
    let mut jar = CookieManager::new();
    jar.set_cookie_at("p=1", &url("http://example.com"), None, 1).unwrap();
    assert!(!jar.cookies()[0].secure);
    assert_eq!(jar.get_cookies_at(&url("http://example.com/x"), 2).unwrap(), vec!["p=1"]);
    assert_eq!(jar.get_cookies_at(&url("https://example.com/x"), 2).unwrap(), vec!["p=1"]);
    jar.set_cookie_at("q=2; Secure", &url("http://example.com"), None, 3).unwrap();
    assert_eq!(jar.get_cookies_at(&url("http://example.com/"), 4).unwrap(), vec!["p=1"]);
}

#[test]
fn cookie_same_site_none_is_downgraded() {
    let mut jar = CookieManager::new();
    let u = url("https://example.com");
    jar.set_cookie_at("s=x; SameSite=None", &u, None, 1).unwrap();
    assert_eq!(jar.cookies()[0].same_site, SameSite::Lax);
    let parsed = cookie_from_header("s=x; SameSite=None", &u, None, 1).unwrap();
    assert_eq!(parsed.same_site, SameSite::Unrestricted);
}

#[test]
fn cookie_same_site_values() {
    let u = url("https://example.com");
    let parse = |h: &str| cookie_from_header(h, &u, None, 0).unwrap().same_site;
    assert_eq!(parse("a=b"), SameSite::Lax);
    assert_eq!(parse("a=b; SameSite=Strict"), SameSite::Strict);
    assert_eq!(parse("a=b; samesite= STRICT "), SameSite::Strict);
    assert_eq!(parse("a=b; SameSite=lax"), SameSite::Lax);
    assert_eq!(parse("a=b; SameSite=bogus"), SameSite::Lax);
    assert_eq!(parse("a=b; SameSite=Strict; SameSite=Lax"), SameSite::Lax);
}

#[test]
fn cookie_parse_all_attributes() {
    let u = url("http://shop.example.com/cart/items");
    let c = cookie_from_header(
        "  sid = abc123 ; Domain=.example.com; PATH=/cart ; Secure; HttpOnly; SameSite=Strict",
        &u,
        Some(77),
        5,
    )
    .unwrap();
    assert_eq!(c.name, "sid");
    assert_eq!(c.value, "abc123");
    assert_eq!(c.domain, ".example.com");
    assert_eq!(c.path, "/cart");
    assert_eq!(c.expires_at, Some(77));
    assert!(c.secure);
    assert!(c.http_only);
    assert_eq!(c.same_site, SameSite::Strict);
    assert_eq!(c.created_at, 5);
    assert_eq!(c.last_accessed, 5);
}

#[test]
fn cookie_parse_defaults() {
    let u = url("http://shop.example.com/cart/items");
    let c = cookie_from_header("k=v", &u, None, 9).unwrap();
    assert_eq!(c.domain, "shop.example.com");
    assert_eq!(c.path, "/");
    assert_eq!(c.expires_at, None);
    assert!(!c.secure);
    assert!(!c.http_only);
    assert_eq!(c.same_site, SameSite::Lax);
}

#[test]
fn cookie_parse_value_with_equals_and_empty_parts() {
    let u = url("http://example.com/");
    let c = cookie_from_header("token=a=b=c;;  ; HttpOnly", &u, None, 0).unwrap();
    assert_eq!(c.name, "token");
    assert_eq!(c.value, "a=b=c");
    assert!(c.http_only);
    let empty_name = cookie_from_header("=v", &u, None, 0).unwrap();
    assert_eq!(empty_name.name, "");
    assert_eq!(empty_name.value, "v");
    let empty_value = cookie_from_header("n=", &u, None, 0).unwrap();
    assert_eq!(empty_value.value, "");
}

#[test]
fn cookie_parse_rejects_malformed() {
    let u = url("http://example.com/");
    assert_eq!(cookie_from_header("novalue", &u, None, 0).err(), Some(StorageError::ParseError));
    assert_eq!(cookie_from_header("", &u, None, 0).err(), Some(StorageError::ParseError));
    assert_eq!(
        cookie_from_header("flag; a=b", &u, None, 0).err(),
        Some(StorageError::ParseError)
    );
    let mut jar = CookieManager::new();
    jar.set_cookie_at("good=1", &u, None, 1).unwrap();
    assert_eq!(jar.set_cookie_at("bad", &u, None, 2), Err(StorageError::ParseError));
    assert_eq!(jar.set_cookie("bad", &u), Err(StorageError::ParseError));
    assert_eq!(jar.count(), 1);
}

#[test]
fn cookie_last_attribute_wins() {
    let u = url("http://example.com/");
    let c = cookie_from_header("a=b; Path=/x; Path=/y; Domain=one.com; domain=two.com", &u, None, 0)
        .unwrap();
    assert_eq!(c.path, "/y");
    assert_eq!(c.domain, "two.com");
}

#[test]
fn cookie_expires_attribute_is_read_by_chrono() {
    let h = "id=7; Expires=Wed, 21 Oct 2015 07:28:00 GMT; Path=/";
    assert_eq!(expires_attribute(h), Some("Wed, 21 Oct 2015 07:28:00 GMT".to_string()));
    assert_eq!(expires_attribute("id=7; Path=/"), None);
    let mut jar = CookieManager::new();
    jar.set_cookie(h, &url("http://example.com/")).unwrap();
    assert_eq!(jar.cookies()[0].expires_at, Some(1445412480000));
    jar.set_cookie("s=1; Expires=not a date", &url("http://example.com/")).unwrap();
    assert_eq!(jar.cookies()[1].expires_at, None);
    assert!(jar.cookies()[1].created_at > 1_500_000_000_000);
}

#[test]
fn cookie_domain_matching() {
    assert!(domain_covers(&chars("example.com"), &chars("example.com")));
    assert!(domain_covers(&chars(".example.com"), &chars("sub.example.com")));
    assert!(domain_covers(&chars(".example.com"), &chars("example.com")));
    assert!(!domain_covers(&chars("example.com"), &chars("sub.example.com")));
    assert!(!domain_covers(&chars(".example.com"), &chars("badexample.org")));
    assert!(!domain_covers(&chars(".example.com"), &chars("com")));
    assert!(!domain_covers(&chars(""), &chars("example.com")));
    assert!(domain_covers(&chars(""), &chars("")));
}

#[test]
fn cookie_get_filters_by_domain_path_and_expiry() {
    let mut jar = CookieManager::new();
    let u = url("http://example.com/");
    jar.set_cookie_at("root=1", &u, None, 1).unwrap();
    jar.set_cookie_at("docs=2; Path=/docs", &u, None, 1).unwrap();
    jar.set_cookie_at("wide=3; Domain=.example.com", &u, None, 1).unwrap();
    jar.set_cookie_at("other=4; Domain=other.org", &u, None, 1).unwrap();
    jar.set_cookie_at("short=5", &u, Some(100), 1).unwrap();
    assert_eq!(
        jar.get_cookies_at(&url("http://example.com/docs/page"), 50).unwrap(),
        vec!["root=1", "docs=2", "wide=3", "short=5"]
    );
    assert_eq!(
        jar.get_cookies_at(&url("http://example.com/"), 100).unwrap(),
        vec!["root=1", "wide=3"]
    );
    assert_eq!(jar.get_cookies_at(&url("http://sub.example.com/"), 50).unwrap(), vec!["wide=3"]);
    assert!(jar.get_cookies_at(&url("http://elsewhere.net/"), 50).unwrap().is_empty());
}

#[test]
fn cookie_get_updates_last_accessed_of_returned_only() {
    let mut jar = CookieManager::new();
    let u = url("http://example.com/");
    jar.set_cookie_at("a=1", &u, None, 1).unwrap();
    jar.set_cookie_at("b=2; Path=/private", &u, None, 1).unwrap();
    jar.get_cookies_at(&url("http://example.com/public"), 500).unwrap();
    assert_eq!(jar.cookies()[0].last_accessed, 500);
    assert_eq!(jar.cookies()[1].last_accessed, 1);
    assert_eq!(jar.cookies()[0].created_at, 1);
}

#[test]
fn cookie_get_needs_a_host() {
    let mut jar = CookieManager::new();
    jar.set_cookie_at("a=1", &url("http://example.com/"), None, 1).unwrap();
    let no_host = url("data:text/plain,hi");
    assert_eq!(jar.get_cookies_at(&no_host, 2), Err(StorageError::NoHost));
    assert_eq!(jar.get_cookies(&no_host), Err(StorageError::NoHost));
    assert_eq!(jar.cookies()[0].last_accessed, 1);
}

#[test]
fn cookie_cleanup_removes_expired_only() {
    let mut jar = CookieManager::new();
    let u = url("http://example.com/");
    jar.set_cookie_at("session=1", &u, None, 1).unwrap();
    jar.set_cookie_at("past=2", &u, Some(99), 1).unwrap();
    jar.set_cookie_at("edge=3", &u, Some(100), 1).unwrap();
    jar.set_cookie_at("future=4", &u, Some(101), 1).unwrap();
    assert_eq!(jar.cleanup_at(100), 1);
    let names: Vec<String> = jar.cookies().iter().map(|c| c.name.clone()).collect();
    assert_eq!(names, vec!["session", "edge", "future"]);
    assert_eq!(jar.cleanup_at(100), 0);
    assert_eq!(jar.count(), 3);
    assert_eq!(jar.cleanup(), 2);
    assert_eq!(jar.count(), 1);
}

#[test]
fn cookie_applies_checks_every_condition() {
    let c = CookieEntry {
        name: "n".to_string(),
        value: "v".to_string(),
        domain: "example.com".to_string(),
        path: "/a".to_string(),
        expires_at: Some(10),
        secure: true,
        http_only: false,
        same_site: SameSite::Lax,
        created_at: 0,
        last_accessed: 0,
    };
    assert!(cookie_applies(&c, &chars("example.com"), &chars("/a/b"), true, 9));
    assert!(!cookie_applies(&c, &chars("example.com"), &chars("/a/b"), false, 9));
    assert!(!cookie_applies(&c, &chars("example.com"), &chars("/a/b"), true, 10));
    assert!(!cookie_applies(&c, &chars("example.com"), &chars("/b"), true, 9));
    assert!(!cookie_applies(&c, &chars("example.org"), &chars("/a"), true, 9));
}

#[test]
fn cookie_store_applies_policy() {
    let mut jar = CookieManager::new();
    jar.store(CookieEntry {
        name: "n".to_string(),
        value: "v".to_string(),
        domain: "example.com".to_string(),
        path: "/".to_string(),
        expires_at: None,
        secure: false,
        http_only: false,
        same_site: SameSite::Unrestricted,
        created_at: 0,
        last_accessed: 0,
    });
    assert_eq!(jar.cookies()[0].same_site, SameSite::Lax);
}
