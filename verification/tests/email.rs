use crynn::email::auth::{endpoints_for, AuthManager, AuthToken};
use crynn::email::cache::{EmailCache, MailCacheError, MailItem};
use crynn::email::providers::{GenericImapProvider, ProviderType};
use crynn::email::{
    needs_cleanup, Attachment, AuthConfig, EmailBody, EmailConfig, EmailHeader,
    EmailServerConfig, SecurityType,
};

fn header(uid: u32, subject: &str, date: i64, size: usize) -> EmailHeader {
    EmailHeader {
        uid,
        subject: subject.to_string(),
        from: "Alice@Example.com".to_string(),
        to: "bob@example.org".to_string(),
        date,
        size,
        flags: vec!["Seen".to_string()],
        folder: "INBOX".to_string(),
    }
}

fn body(uid: u32, sizes: &[usize]) -> EmailBody {
    EmailBody {
        uid,
        content: "text".to_string(),
        content_type: "text/plain".to_string(),
        attachments: sizes
            .iter()
            .map(|s| Attachment {
                filename: "f".to_string(),
                content_type: "application/octet-stream".to_string(),
                size: *s,
                data: vec![],
            })
            .collect(),
    }
}

fn token(expires_at: Option<i64>) -> AuthToken {
    AuthToken {
        access_token: "t".to_string(),
        refresh_token: None,
        expires_at,
        scope: None,
    }
}

#[test]
fn email_cache_accounts_sizes() {
    let mut c = EmailCache::new(1);
    c.store_header(header(1, "Hello", 10, 100), 1);
    c.store_header(header(2, "World", 20, 200), 2);
    assert_eq!(c.store_body(body(1, &[30, 40]), 3), Ok(()));
    assert_eq!(c.get_memory_usage(), 370);
    assert_eq!(c.count(), 3);
    c.store_header(header(1, "Hello again", 10, 50), 4);
    assert_eq!(c.get_memory_usage(), 320);
    assert_eq!(c.count(), 3);
    assert_eq!(c.store_body(body(1, &[]), 5), Ok(()));
    assert_eq!(c.get_memory_usage(), 250);
}

#[test]
fn email_cache_evicts_oldest_until_within_budget() {
    let mut c = EmailCache::new(1);
    let half = 512 * 1024;
    c.store_header(header(1, "a", 1, half), 10);
    c.store_header(header(2, "b", 2, half), 20);
    assert_eq!(c.count(), 2);
    c.store_header(header(3, "c", 3, half), 30);
    assert_eq!(c.count(), 2);
    assert_eq!(c.get_memory_usage(), 2 * half);
    assert!(c.search_headers("a").iter().all(|h| h.uid != 1));
    c.store_body(body(9, &[half, 1]), 40).unwrap();
    assert!(c.get_memory_usage() <= 1024 * 1024);
    assert_eq!(c.count(), 1);
    assert!(c.get_body(9).is_some());
    assert_eq!(c.cleanup(), 0);
    assert_eq!(c.enforce_size_limits(), 0);
}

#[test]
fn email_cache_get_body() {
    let mut c = EmailCache::new(1);
    assert!(c.get_body(5).is_none());
    c.store_header(header(5, "only a header", 1, 1), 1);
    assert!(c.get_body(5).is_none());
    c.store_body(body(5, &[7]), 2).unwrap();
    let b = c.get_body(5).unwrap();
    assert_eq!(b.uid, 5);
    assert_eq!(b.attachments.len(), 1);
    assert_eq!(b.content, "text");
    assert!(c.get_body(6).is_none());
}

#[test]
fn email_cache_rejects_uncountable_body() {
    let mut c = EmailCache::new(1);
    c.store_header(header(1, "h", 1, 10), 1);
    assert_eq!(c.store_body(body(2, &[usize::MAX, 1]), 2), Err(MailCacheError::TooLarge));
    assert_eq!(c.count(), 1);
    assert_eq!(c.get_memory_usage(), 10);
}

#[test]
fn email_cache_search_is_case_insensitive_and_newest_first() {
    let mut c = EmailCache::new(1);
    c.store_headers(
        vec![
            header(1, "Invoice March", 300, 1),
            header(2, "Lunch?", 500, 1),
            header(3, "invoice April", 400, 1),
            header(4, "INVOICE May", 400, 1),
        ],
        1,
    );
    let found: Vec<u32> = c.search_headers("invoice").iter().map(|h| h.uid).collect();
    assert_eq!(found, vec![3, 4, 1]);
    let by_sender: Vec<u32> = c.search_headers("alice@").iter().map(|h| h.uid).collect();
    assert_eq!(by_sender, vec![2, 3, 4, 1]);
    assert_eq!(c.search_headers("BOB@EXAMPLE.ORG").len(), 4);
    assert!(c.search_headers("nobody").is_empty());
    assert_eq!(c.search_headers("").len(), 4);
}

#[test]
fn email_config_budget() {
    let config = EmailConfig {
        provider: ProviderType::GenericImap,
        server: EmailServerConfig {
            imap_host: "imap.example.com".to_string(),
            imap_port: 993,
            imap_security: SecurityType::Tls,
            smtp_host: "smtp.example.com".to_string(),
            smtp_port: 587,
            smtp_security: SecurityType::StartTls,
        },
        auth: AuthConfig { username: Some("u".to_string()), oauth2: None },
        cache_size_mb: 50,
    };
    assert_eq!(config.cache_budget(), Some(50 * 1024 * 1024));
    let huge = EmailConfig { cache_size_mb: usize::MAX, ..config };
    assert_eq!(huge.cache_budget(), None);
    assert!(needs_cleanup(11, 10));
    assert!(!needs_cleanup(10, 10));
    assert_eq!(GenericImapProvider::new().provider_type(), ProviderType::GenericImap);
    let item = MailItem::Header(header(1, "s", 1, 1));
    assert!(matches!(item, MailItem::Header(_)));
}

#[test]
fn auth_tokens_store_and_expire() {
    let mut m = AuthManager::new();
    assert!(m.get_token("gmail").is_none());
    assert!(!m.is_token_expired_at("gmail", 100));
    m.store_token("gmail".to_string(), token(Some(100)));
    m.store_token("yahoo".to_string(), token(None));
    assert!(!m.is_token_expired_at("gmail", 99));
    assert!(m.is_token_expired_at("gmail", 100));
    assert!(m.is_token_expired_at("gmail", 101));
    assert!(!m.is_token_expired_at("yahoo", i64::MAX));
    m.store_token("gmail".to_string(), token(Some(200)));
    assert_eq!(m.get_token("gmail").unwrap().expires_at, Some(200));
    assert!(!m.is_token_expired_at("gmail", 150));
    assert!(m.is_token_expired("gmail"));
    assert!(!m.is_token_expired("outlook"));
}

#[test]
fn oauth_endpoints() {
    let g = endpoints_for("gmail").unwrap();
    assert_eq!(g.auth_url, "https://accounts.google.com/o/oauth2/v2/auth");
    assert_eq!(g.token_url, "https://oauth2.googleapis.com/token");
    let o = endpoints_for("outlook").unwrap();
    assert_eq!(o.auth_url, "https://login.microsoftonline.com/common/oauth2/v2.0/authorize");
    assert_eq!(o.token_url, "https://login.microsoftonline.com/common/oauth2/v2.0/token");
    let y = endpoints_for("yahoo").unwrap();
    assert_eq!(y.auth_url, "https://api.login.yahoo.com/oauth2/request_auth");
    assert_eq!(y.token_url, "https://api.login.yahoo.com/oauth2/get_token");
    assert!(endpoints_for("imap").is_none());
    assert!(endpoints_for("Gmail").is_none());
}
