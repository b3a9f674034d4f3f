//! The mail providers that an account can use.

use vstd::prelude::*;

verus! {

/// The supported mail providers.
#[derive(Debug, Clone, Copy, PartialEq, Eq, Hash, Structural)]
pub enum ProviderType {
    Gmail,
    Outlook,
    Yahoo,
    GenericImap,
}

/// A token handed out by a provider.
#[derive(Debug)]
pub struct AuthToken {
    pub access_token: String,
    pub refresh_token: Option<String>,
    /// Expiry in milliseconds since the epoch.
    pub expires_at: Option<i64>,
}

/// A provider reached over plain IMAP and SMTP with user name and password.
#[derive(Debug, Clone, Copy, PartialEq, Eq, Structural)]
pub struct GenericImapProvider {}

impl GenericImapProvider {
    /// The provider.
    pub fn new() -> (p: GenericImapProvider)
        ensures
            p == (GenericImapProvider {  }),
    {
        GenericImapProvider {  }
    }

    /// The kind of this provider.
    pub fn provider_type(&self) -> (t: ProviderType)
        ensures
            t == ProviderType::GenericImap,
    {
        ProviderType::GenericImap
    }
}

} // verus!
