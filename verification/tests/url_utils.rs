use crynn::url_utils::{
    candidate, decide_navigation, extract_search_query, is_domain_like, normalize_url,
    plan_navigation, rebuild, search_address_for, search_url, validate_url, Candidate,
    Navigation, UrlError,
};
use crynn::web_url::WebUrl;

#[test]
fn test_normalize_url_with_protocol() {
    let result = normalize_url("https://example.com").unwrap();
    assert_eq!(result, "https://example.com/");
}

#[test]
fn test_normalize_url_without_protocol() {
    let result = normalize_url("example.com").unwrap();
    assert_eq!(result, "https://example.com/");
}

#[test]
fn test_normalize_url_removes_default_port() {
    let result = normalize_url("https://example.com:443").unwrap();
    assert_eq!(result, "https://example.com/");
}

#[test]
fn test_normalize_url_blocks_javascript() {
    assert!(normalize_url("javascript:alert('xss')").is_err());
}

#[test]
fn test_extract_search_query() {
    assert_eq!(extract_search_query("test query"), Some("test query".to_string()));
    assert_eq!(extract_search_query("example.com"), None);
}

#[test]
fn normalize_rejects_blank_input() {
    assert_eq!(normalize_url("   "), Err(UrlError::Empty));
    assert_eq!(normalize_url(""), Err(UrlError::Empty));
}

#[test]
fn normalize_keeps_about_urls() {
    assert_eq!(normalize_url("  about:blank "), Ok("about:blank".to_string()));
}

#[test]
fn normalize_detects_search_queries() {
    assert_eq!(normalize_url("rust verification"), Err(UrlError::SearchQuery));
    assert_eq!(normalize_url("localhost"), Err(UrlError::SearchQuery));
}

#[test]
fn normalize_keeps_other_ports_and_query() {
    assert_eq!(
        normalize_url("http://Example.com:8080/a/b/?x=1"),
        Ok("http://example.com:8080/a/b?x=1".to_string())
    );
    assert_eq!(normalize_url("http://example.com:80/"), Ok("http://example.com/".to_string()));
}

#[test]
fn normalize_blocks_file_and_unknown_schemes() {
    assert_eq!(normalize_url("file:///etc/passwd"), Err(UrlError::BlockedFile));
    assert_eq!(normalize_url("javascript://x"), Err(UrlError::BlockedJavascript));
    assert_eq!(normalize_url("ftp://example.com/"), Err(UrlError::UnsupportedScheme));
}

#[test]
fn normalize_reports_parse_failure() {
    assert_eq!(normalize_url("http://"), Err(UrlError::ParseFailed));
}

#[test]
fn candidate_adds_https() {
    match candidate(" example.com ") {
        Ok(Candidate::Address(t)) => assert_eq!(t, "https://example.com"),
        _ => panic!("expected an address"),
    }
    match candidate("about:config") {
        Ok(Candidate::Internal(t)) => assert_eq!(t, "about:config"),
        _ => panic!("expected an internal address"),
    }
}

#[test]
fn rebuild_lowercases_and_trims() {
    let url = WebUrl {
        scheme: "https".to_string(),
        host: Some("EXAMPLE.com".to_string()),
        port: Some(443),
        path: "/docs///".to_string(),
        query: Some("q=1".to_string()),
        href: String::new(),
    };
    assert_eq!(rebuild(&url), Ok("https://example.com/docs?q=1".to_string()));
    let other = WebUrl { port: Some(65535), query: None, path: "/".to_string(), ..url };
    assert_eq!(rebuild(&other), Ok("https://example.com:65535/".to_string()));
}

#[test]
fn validate_url_cases() {
    assert_eq!(validate_url("https://example.com/"), Ok(()));
    assert_eq!(validate_url("javascript:alert(1)"), Err(UrlError::BlockedJavascript));
    assert_eq!(validate_url("file:///tmp/x"), Err(UrlError::BlockedFile));
    assert_eq!(validate_url("data:text/plain,hello"), Ok(()));
    assert_eq!(validate_url("ftp://example.com"), Err(UrlError::UnsupportedScheme));
    assert_eq!(validate_url("not a url"), Err(UrlError::ParseFailed));
}

#[test]
fn domain_like_cases() {
    assert!(is_domain_like("example.com"));
    assert!(is_domain_like("sub-domain.example_site.org"));
    assert!(!is_domain_like("example"));
    assert!(!is_domain_like("exa mple.com"));
    assert!(!is_domain_like("example.com/path"));
}

#[test]
fn search_query_cases() {
    assert_eq!(extract_search_query("https://example.com"), None);
    assert_eq!(extract_search_query("  hello  "), Some("hello".to_string()));
    assert_eq!(extract_search_query("about:blank"), None);
    assert_eq!(extract_search_query("what is 1.5 plus 2"), Some("what is 1.5 plus 2".to_string()));
    assert_eq!(extract_search_query("a.b/c"), None);
}

#[test]
fn error_messages() {
    assert_eq!(UrlError::Empty.message(), "Empty URL");
    assert_eq!(UrlError::SearchQuery.message(), "Search query detected");
}

#[test]
fn search_url_encodes_query() {
    assert_eq!(search_url("rust verus"), "https://www.google.com/search?q=rust+verus");
    assert_eq!(search_url("a&b=c/ü"), "https://www.google.com/search?q=a%26b%3Dc%2F%C3%BC");
    assert_eq!(search_url("http://example.com"), "http://example.com");
    assert_eq!(search_address_for("q", "ENC"), "https://www.google.com/search?q=ENC");
    assert_eq!(search_address_for("https q", "ENC"), "https q");
}

#[test]
fn navigation_plan() {
    match plan_navigation("example.com") {
        Navigation::Open(u) => assert_eq!(u, "https://example.com/"),
        _ => panic!("expected an address"),
    }
    match plan_navigation("  how to verify rust ") {
        Navigation::Search(q) => assert_eq!(q, "how to verify rust"),
        _ => panic!("expected a search"),
    }
    match plan_navigation("javascript://alert.me") {
        Navigation::Refuse(e) => assert_eq!(e, UrlError::BlockedJavascript),
        _ => panic!("expected a refusal"),
    }
    match plan_navigation("javascript:alert(1)") {
        Navigation::Search(q) => assert_eq!(q, "javascript:alert(1)"),
        _ => panic!("expected a search"),
    }
    match plan_navigation("") {
        Navigation::Search(q) => assert_eq!(q, ""),
        _ => panic!("expected a search"),
    }
    match plan_navigation("ftp://example.com/") {
        Navigation::Refuse(e) => assert_eq!(e, UrlError::UnsupportedScheme),
        _ => panic!("expected a refusal"),
    }
    match decide_navigation("x", Ok("https://x/".to_string()), Err(UrlError::MissingHost)) {
        Navigation::Refuse(e) => assert_eq!(e, UrlError::MissingHost),
        _ => panic!("expected a refusal"),
    }
    match decide_navigation("a.b/c", Err(UrlError::ParseFailed), Ok(())) {
        Navigation::Refuse(e) => assert_eq!(e, UrlError::ParseFailed),
        _ => panic!("expected a refusal"),
    }
}
