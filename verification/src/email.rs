//! Mail accounts: configuration, message types, stored tokens and the
//! bounded cache of fetched messages.

pub mod auth;
pub mod cache;
pub mod providers;

use vstd::prelude::*;
use crate::email::providers::ProviderType;

verus! {

/// How a connection to a mail server is secured.
#[derive(Debug, Clone, Copy, PartialEq, Eq, Structural)]
pub enum SecurityType {
    /// No transport security.
    Plain,
    StartTls,
    Tls,
}

/// Hosts and ports of a mail account.
#[derive(Debug)]
pub struct EmailServerConfig {
    pub imap_host: String,
    pub imap_port: u16,
    pub imap_security: SecurityType,
    pub smtp_host: String,
    pub smtp_port: u16,
    pub smtp_security: SecurityType,
}

/// Registration of the browser with an OAuth2 provider.
#[derive(Debug)]
pub struct OAuth2Config {
    pub client_id: String,
    pub client_secret: String,
    pub auth_url: String,
    pub token_url: String,
    pub scope: String,
}

/// How an account signs in.
#[derive(Debug)]
pub struct AuthConfig {
    pub username: Option<String>,
    pub oauth2: Option<OAuth2Config>,
}

/// A mail account.
#[derive(Debug)]
pub struct EmailConfig {
    pub provider: ProviderType,
    pub server: EmailServerConfig,
    pub auth: AuthConfig,
    pub cache_size_mb: usize,
}

/// The header of a message.
#[derive(Debug)]
pub struct EmailHeader {
    pub uid: u32,
    pub subject: String,
    pub from: String,
    pub to: String,
    /// Date of the message in milliseconds since the epoch.
    pub date: i64,
    pub size: usize,
    pub flags: Vec<String>,
    pub folder: String,
}

/// A file attached to a message.
#[derive(Debug)]
pub struct Attachment {
    pub filename: String,
    pub content_type: String,
    pub size: usize,
    pub data: Vec<u8>,
}

/// The body of a message.
#[derive(Debug)]
pub struct EmailBody {
    pub uid: u32,
    pub content: String,
    pub content_type: String,
    pub attachments: Vec<Attachment>,
}

/// A message to be sent.
#[derive(Debug)]
pub struct ComposeEmail {
    pub to: Vec<String>,
    pub cc: Vec<String>,
    pub bcc: Vec<String>,
    pub subject: String,
    pub body: String,
    pub attachments: Vec<Attachment>,
}

impl EmailConfig {
    /// Whether the cache budget can be expressed in bytes.
    pub open spec fn is_valid(&self) -> bool {
        self.cache_size_mb * 1048576 <= usize::MAX
    }

    /// The cache budget in bytes, or `None` when it exceeds what can be counted.
    pub fn cache_budget(&self) -> (r: Option<usize>)
        ensures
            match r {
                Some(b) => self.is_valid() && b == self.cache_size_mb * 1048576,
                None => !self.is_valid(),
            },
    {
        if self.cache_size_mb <= usize::MAX / 1048576 {
            Some(self.cache_size_mb * 1048576)
        } else {
            None
        }
    }
}

/// Whether a cache that uses `current_usage` bytes must be cleaned for a
/// budget of `max_usage` bytes.
pub fn needs_cleanup(current_usage: usize, max_usage: usize) -> (r: bool)
    ensures
        r == (current_usage > max_usage),
{
    current_usage > max_usage
}

} // verus!
