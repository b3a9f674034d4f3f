use crynn::network::security::{
    check_mixed_content, check_url_security, CertificatePinner, SecurityError, SecurityPolicy,
};
use crynn::network::{
    select_protocol, DnsResolver, Http2Client, Http3Client, NetworkConfig, NetworkError,
    Protocol, ProxyConfig, ProxyManager, DNS_TTL_MILLIS,
};
use crynn::web_url::WebUrl;

#[test]
fn test_check_url_security_https() {
    let url = WebUrl::parse("https://example.com").unwrap();
    let policy = SecurityPolicy::default();
    assert!(check_url_security(&url, &policy).is_ok());
}

#[test]
fn test_check_url_security_http_blocked() {
    let url = WebUrl::parse("http://example.com").unwrap();
    let policy = SecurityPolicy::default();
    assert!(check_url_security(&url, &policy).is_err());
}

#[test]
fn test_check_mixed_content() {
    let https_page = WebUrl::parse("https://example.com").unwrap();
    let http_resource = WebUrl::parse("http://example.com/script.js").unwrap();
    assert!(check_mixed_content(&https_page, &http_resource).is_err());
}

#[test]
fn url_security_other_schemes() {
    let strict = SecurityPolicy::default();
    let lax = SecurityPolicy { require_tls: false, ..SecurityPolicy::default() };
    let http = WebUrl::parse("http://example.com").unwrap();
    assert_eq!(check_url_security(&http, &strict), Err(SecurityError::HttpBlocked));
    assert_eq!(check_url_security(&http, &lax), Ok(()));
    let data = WebUrl::parse("data:text/plain,x").unwrap();
    assert_eq!(check_url_security(&data, &strict), Ok(()));
    let about = WebUrl::parse("about:blank").unwrap();
    assert_eq!(check_url_security(&about, &strict), Ok(()));
    let ftp = WebUrl::parse("ftp://example.com").unwrap();
    assert_eq!(check_url_security(&ftp, &lax), Err(SecurityError::UnsupportedScheme));
}

#[test]
fn mixed_content_only_http_on_https() {
    let https = WebUrl::parse("https://example.com").unwrap();
    let http = WebUrl::parse("http://example.com").unwrap();
    assert_eq!(check_mixed_content(&https, &https), Ok(()));
    assert_eq!(check_mixed_content(&http, &http), Ok(()));
    assert_eq!(check_mixed_content(&http, &https), Ok(()));
    assert_eq!(check_mixed_content(&https, &http), Err(SecurityError::MixedContent));
}

#[test]
fn security_policy_defaults() {
    let p = SecurityPolicy::default();
    assert!(p.require_tls);
    assert!(p.block_mixed_content);
    assert!(p.enforce_hsts);
    assert!(p.certificate_pinning.is_none());
    assert_eq!(
        SecurityError::MixedContent.message(),
        "Mixed content blocked: HTTP resource on HTTPS page"
    );
}

#[test]
fn certificate_pinning() {
    let none = CertificatePinner::new(vec![]);
    assert_eq!(none.verify(&vec![]), Ok(true));
    assert_eq!(none.verify(&vec![vec![1, 2, 3]]), Ok(true));
    let pinner = CertificatePinner::new(vec![vec![1, 2, 3], vec![9]]);
    assert_eq!(pinner.verify(&vec![vec![7], vec![9]]), Ok(true));
    assert_eq!(pinner.verify(&vec![vec![1, 2, 3]]), Ok(true));
    assert_eq!(pinner.verify(&vec![vec![1, 2]]), Err(SecurityError::PinningFailed));
    assert_eq!(pinner.verify(&vec![vec![1, 2, 4], vec![]]), Err(SecurityError::PinningFailed));
    assert_eq!(pinner.verify(&vec![]), Err(SecurityError::PinningFailed));
}

#[test]
fn network_config_defaults() {
    let c = NetworkConfig::default();
    assert_eq!(c.user_agent, "Crynn Browser/0.1");
    assert_eq!(c.timeout_seconds, 30);
    assert_eq!(c.max_redirects, 10);
    assert!(c.enable_http2);
    assert!(!c.enable_http3);
    assert_eq!(c.dns_cache_size, 1000);
    assert!(c.proxy_config.is_none());
}

#[test]
fn protocol_selection() {
    let mut c = NetworkConfig::default();
    assert_eq!(select_protocol(&c, false, false, true, true), Protocol::Http2);
    assert_eq!(select_protocol(&c, true, true, true, true), Protocol::Http2);
    assert_eq!(select_protocol(&c, false, false, false, true), Protocol::Http1_1);
    assert_eq!(select_protocol(&c, false, false, true, false), Protocol::Http1_1);
    c.enable_http3 = true;
    assert_eq!(select_protocol(&c, true, true, true, true), Protocol::Http3);
    assert_eq!(select_protocol(&c, true, false, true, true), Protocol::Http2);
    c.enable_http2 = false;
    assert_eq!(select_protocol(&c, true, false, true, true), Protocol::Http1_1);
}

#[test]
fn unimplemented_clients_refuse() {
    assert_eq!(Http2Client::new().request(), Err(NetworkError::Http2NotImplemented));
    assert_eq!(Http3Client::new().request(), Err(NetworkError::Http3NotImplemented));
}

#[test]
fn proxy_by_scheme() {
    let none = ProxyManager::new(None);
    let https = WebUrl::parse("https://example.com").unwrap();
    let http = WebUrl::parse("http://example.com").unwrap();
    assert_eq!(none.get_proxy(&https), None);
    let m = ProxyManager::new(Some(ProxyConfig {
        http: Some("http://proxy:8080".to_string()),
        https: Some("http://secure-proxy:8443".to_string()),
        socks5: None,
    }));
    assert_eq!(m.get_proxy(&https), Some("http://secure-proxy:8443".to_string()));
    assert_eq!(m.get_proxy(&http), Some("http://proxy:8080".to_string()));
    let ftp = WebUrl::parse("ftp://example.com").unwrap();
    assert_eq!(m.get_proxy(&ftp), Some("http://proxy:8080".to_string()));
    let partial = ProxyManager::new(Some(ProxyConfig { http: None, https: None, socks5: None }));
    assert_eq!(partial.get_proxy(&http), None);
    assert!(m.test_proxy("anything"));
}

#[test]
fn dns_cache_remembers_for_five_minutes() {
    let mut r = DnsResolver::new(2);
    assert_eq!(r.cached("example.com", 0), None);
    r.remember("example.com", "93.184.216.34", 1000);
    assert_eq!(r.cached("example.com", 1000), Some("93.184.216.34".to_string()));
    assert_eq!(
        r.cached("example.com", 1000 + DNS_TTL_MILLIS - 1),
        Some("93.184.216.34".to_string())
    );
    assert_eq!(r.cached("example.com", 1000 + DNS_TTL_MILLIS), None);
    r.remember("example.com", "10.0.0.1", 2000);
    assert_eq!(r.get_cache_size(), 1);
    assert_eq!(r.cached("example.com", 2001), Some("10.0.0.1".to_string()));
}

#[test]
fn dns_cache_is_emptied_when_full() {
    let mut r = DnsResolver::new(2);
    r.remember("a", "1", 0);
    r.remember("b", "2", 0);
    assert_eq!(r.get_cache_size(), 2);
    r.remember("c", "3", 0);
    assert_eq!(r.get_cache_size(), 1);
    assert_eq!(r.cached("a", 1), None);
    assert_eq!(r.cached("c", 1), Some("3".to_string()));
    r.clear_cache();
    assert_eq!(r.get_cache_size(), 0);
    r.remember("late", "x", i64::MAX);
    assert_eq!(r.cached("late", i64::MAX - 1), Some("x".to_string()));
}

#[test]
fn dns_host_of_url() {
    let u = WebUrl::parse("https://Example.com/x").unwrap();
    assert_eq!(DnsResolver::host_of(&u), Ok("example.com".to_string()));
    let d = WebUrl::parse("data:,x").unwrap();
    assert_eq!(DnsResolver::host_of(&d), Err(NetworkError::NoHost));
}

#[test]
fn web_url_parts() {
    let u = WebUrl::parse("https://User@Example.com:8443/a/b?x=1#frag").unwrap();
    assert_eq!(u.scheme(), "https");
    assert_eq!(u.host_str(), Some("example.com"));
    assert_eq!(u.port, Some(8443));
    assert_eq!(u.path(), "/a/b");
    assert_eq!(u.query, Some("x=1".to_string()));
    assert_eq!(u.as_str(), "https://User@example.com:8443/a/b?x=1#frag");
    assert!(u.is_secure());
    let d = WebUrl::parse("https://example.com:443/").unwrap();
    assert_eq!(d.port, None);
    assert!(WebUrl::parse("no scheme").is_none());
    assert!(!WebUrl::parse("http://example.com").unwrap().is_secure());
}
