//! Sign-in flows and the store of tokens per provider.

use vstd::prelude::*;
use vstd::string::StringExecFns;
use crate::text::option_view;

verus! {

/// A sign-in in progress.
#[derive(Debug)]
pub enum AuthFlow {
    DeviceCode { user_code: String, device_code: String, verification_url: String },
    WebFlow { auth_url: String, state: String },
    UsernamePassword { username: String, password: String },
}

/// A token with the scope it was granted for.
#[derive(Debug)]
pub struct AuthToken {
    pub access_token: String,
    pub refresh_token: Option<String>,
    /// Expiry in milliseconds since the epoch.
    pub expires_at: Option<i64>,
    pub scope: Option<String>,
}

/// Mathematical value of an [`AuthToken`].
pub struct TokenView {
    pub access_token: Seq<char>,
    pub refresh_token: Option<Seq<char>>,
    pub expires_at: Option<i64>,
    pub scope: Option<Seq<char>>,
}

impl View for AuthToken {
    type V = TokenView;

    open spec fn view(&self) -> TokenView {
        TokenView {
            access_token: self.access_token@,
            refresh_token: option_view(self.refresh_token),
            expires_at: self.expires_at,
            scope: option_view(self.scope),
        }
    }
}

/// Where a provider takes sign-in and token requests.
#[derive(Debug)]
pub struct OAuthEndpoints {
    pub auth_url: String,
    pub token_url: String,
}

/// The provider names that have OAuth2 endpoints.
pub open spec fn has_endpoints(provider: Seq<char>) -> bool {
    provider == "gmail"@ || provider == "outlook"@ || provider == "yahoo"@
}

/// The sign-in address of a provider.
pub open spec fn auth_url_of(provider: Seq<char>) -> Seq<char> {
    if provider == "gmail"@ {
        "https://accounts.google.com/o/oauth2/v2/auth"@
    } else if provider == "outlook"@ {
        "https://login.microsoftonline.com/common/oauth2/v2.0/authorize"@
    } else {
        "https://api.login.yahoo.com/oauth2/request_auth"@
    }
}

/// The token address of a provider.
pub open spec fn token_url_of(provider: Seq<char>) -> Seq<char> {
    if provider == "gmail"@ {
        "https://oauth2.googleapis.com/token"@
    } else if provider == "outlook"@ {
        "https://login.microsoftonline.com/common/oauth2/v2.0/token"@
    } else {
        "https://api.login.yahoo.com/oauth2/get_token"@
    }
}

/// The OAuth2 endpoints of `gmail`, `outlook` and `yahoo`; other
/// providers have none.
pub fn endpoints_for(provider: &str) -> (r: Option<OAuthEndpoints>)
    ensures
        match r {
            Some(e) => has_endpoints(provider@) && e.auth_url@ == auth_url_of(provider@)
                && e.token_url@ == token_url_of(provider@),
            None => !has_endpoints(provider@),
        },
{
    if *provider == *"gmail" {
        Some(
            OAuthEndpoints {
                auth_url: String::from_str("https://accounts.google.com/o/oauth2/v2/auth"),
                token_url: String::from_str("https://oauth2.googleapis.com/token"),
            },
        )
    } else if *provider == *"outlook" {
        Some(
            OAuthEndpoints {
                auth_url: String::from_str(
                    "https://login.microsoftonline.com/common/oauth2/v2.0/authorize",
                ),
                token_url: String::from_str(
                    "https://login.microsoftonline.com/common/oauth2/v2.0/token",
                ),
            },
        )
    } else if *provider == *"yahoo" {
        Some(
            OAuthEndpoints {
                auth_url: String::from_str("https://api.login.yahoo.com/oauth2/request_auth"),
                token_url: String::from_str("https://api.login.yahoo.com/oauth2/get_token"),
            },
        )
    } else {
        None
    }
}

/// A token filed under a provider's name.
#[derive(Debug)]
pub struct StoredToken {
    pub provider: String,
    pub token: AuthToken,
}

/// The tokens as pairs of provider name and token value.
pub open spec fn token_views(ts: Seq<StoredToken>) -> Seq<(Seq<char>, TokenView)> {
    Seq::new(ts.len(), |i: int| (ts[i].provider@, ts[i].token@))
}

/// Index of the token for `provider`, or `ts.len()` when there is none.
pub open spec fn token_index(ts: Seq<(Seq<char>, TokenView)>, provider: Seq<char>) -> int
    decreases ts.len(),
{
    if ts.len() == 0 || ts[0].0 == provider {
        0
    } else {
        1 + token_index(ts.drop_first(), provider)
    }
}

/// The token stored for `provider`.
pub open spec fn token_of(ts: Seq<(Seq<char>, TokenView)>, provider: Seq<char>) -> Option<
    TokenView,
> {
    let i = token_index(ts, provider);
    if i < ts.len() {
        Some(ts[i].1)
    } else {
        None
    }
}

/// The tokens after one was stored: that of the same provider is replaced.
pub open spec fn with_token(
    ts: Seq<(Seq<char>, TokenView)>,
    provider: Seq<char>,
    token: TokenView,
) -> Seq<(Seq<char>, TokenView)> {
    let i = token_index(ts, provider);
    if i < ts.len() {
        ts.update(i, (provider, token))
    } else {
        ts.push((provider, token))
    }
}

/// Whether the token stored for `provider` has expired at `now`: it has an
/// expiry, and the expiry is not later than `now`.
pub open spec fn expired(ts: Seq<(Seq<char>, TokenView)>, provider: Seq<char>, now: i64) -> bool {
    match token_of(ts, provider) {
        Some(t) => t.expires_at matches Some(e) && now >= e,
        None => false,
    }
}

/// The first position that holds `provider`, after others, is `token_index`.
pub proof fn lemma_token_index_is(ts: Seq<(Seq<char>, TokenView)>, provider: Seq<char>, n: int)
    requires
        0 <= n <= ts.len(),
        forall|i: int| 0 <= i < n ==> (#[trigger] ts[i]).0 != provider,
        n < ts.len() ==> ts[n].0 == provider,
    ensures
        token_index(ts, provider) == n,
    decreases ts.len(),
{
    if n > 0 {
        let t = ts.drop_first();
        assert(ts[0].0 != provider);
        assert forall|i: int| 0 <= i < n - 1 implies (#[trigger] t[i]).0 != provider by {
            assert(t[i] == ts[i + 1]);
        }
        lemma_token_index_is(t, provider, n - 1);
    }
}

/// A stored token is found again, and storing leaves other providers alone.
pub proof fn lemma_store_then_get(
    ts: Seq<(Seq<char>, TokenView)>,
    provider: Seq<char>,
    token: TokenView,
)
    ensures
        token_of(with_token(ts, provider, token), provider) == Some(token),
{
    let i = token_index(ts, provider);
    lemma_token_index(ts, provider);
    let w = with_token(ts, provider, token);
    assert forall|j: int| 0 <= j < i implies (#[trigger] w[j]).0 != provider by {
        assert(w[j] == ts[j]);
    }
    lemma_token_index_is(w, provider, i);
}

/// `token_index` is the first position that holds `provider`, if there is one.
pub proof fn lemma_token_index(ts: Seq<(Seq<char>, TokenView)>, provider: Seq<char>)
    ensures
        0 <= token_index(ts, provider) <= ts.len(),
        forall|i: int| 0 <= i < token_index(ts, provider) ==> (#[trigger] ts[i]).0 != provider,
        token_index(ts, provider) < ts.len() ==> ts[token_index(ts, provider)].0 == provider,
    decreases ts.len(),
{
    if !(ts.len() == 0 || ts[0].0 == provider) {
        let t = ts.drop_first();
        lemma_token_index(t, provider);
        assert forall|i: int| 0 <= i < token_index(ts, provider) implies (#[trigger] ts[i]).0
            != provider by {
            if i > 0 {
                assert(ts[i] == t[i - 1]);
            }
        }
        if token_index(ts, provider) < ts.len() {
            assert(ts[token_index(ts, provider)] == t[token_index(t, provider)]);
        }
    }
}

/// Keeps one token per provider.
#[derive(Debug)]
pub struct AuthManager {
    tokens: Vec<StoredToken>,
}

impl View for AuthManager {
    type V = Seq<(Seq<char>, TokenView)>;

    closed spec fn view(&self) -> Seq<(Seq<char>, TokenView)> {
        token_views(self.tokens@)
    }
}

/// No provider has two tokens.
pub open spec fn unique_providers(ts: Seq<(Seq<char>, TokenView)>) -> bool {
    forall|i: int, j: int| 0 <= i < j < ts.len() ==> ts[i].0 != ts[j].0
}

impl AuthManager {
    /// The manager's invariant: one token per provider.
    pub open spec fn wf(&self) -> bool {
        unique_providers(self@)
    }

    /// A manager without tokens.
    pub fn new() -> (m: AuthManager)
        ensures
            m.wf(),
            m@ == Seq::<(Seq<char>, TokenView)>::empty(),
    {
        let m = AuthManager { tokens: Vec::new() };
        assert(m@ =~= Seq::<(Seq<char>, TokenView)>::empty());
        m
    }

    /// Position of the token for `provider`.
    fn find(&self, provider: &str) -> (i: usize)
        ensures
            i == token_index(self@, provider@),
            i <= self@.len(),
    {
        let mut i: usize = 0;
        while i < self.tokens.len() && !(*self.tokens[i].provider.as_str() == *provider)
            invariant
                i <= self.tokens.len(),
                forall|j: int| 0 <= j < i ==> (#[trigger] self@[j]).0 != provider@,
            decreases self.tokens.len() - i,
        {
            i += 1;
        }
        proof {
            lemma_token_index_is(self@, provider@, i as int);
        }
        i
    }

    /// Stores the token of a provider, replacing an earlier one.
    pub fn store_token(&mut self, provider: String, token: AuthToken)
        requires
            old(self).wf(),
        ensures
            final(self).wf(),
            final(self)@ == with_token(old(self)@, provider@, token@),
    {
        let ghost before = self@;
        let ghost pair = (provider@, token@);
        let i = self.find(provider.as_str());
        let stored = StoredToken { provider, token };
        proof {
            lemma_token_index(before, pair.0);
        }
        if i < self.tokens.len() {
            self.tokens[i] = stored;
            proof {
                assert(self@ =~= before.update(i as int, pair));
                assert forall|a: int, b: int| 0 <= a < b < self@.len() implies self@[a].0
                    != self@[b].0 by {
                    assert(before[a].0 != before[b].0);
                }
            }
        } else {
            self.tokens.push(stored);
            proof {
                assert(self@ =~= before.push(pair));
                assert forall|a: int, b: int| 0 <= a < b < self@.len() implies self@[a].0
                    != self@[b].0 by {
                    if b < before.len() {
                        assert(before[a].0 != before[b].0);
                    } else {
                        assert(before[a].0 != pair.0);
                    }
                }
            }
        }
    }

    /// The token of a provider.
    pub fn get_token(&self, provider: &str) -> (r: Option<&AuthToken>)
        ensures
            match r {
                Some(t) => token_of(self@, provider@) == Some(t@),
                None => token_of(self@, provider@) is None,
            },
    {
        let i = self.find(provider);
        if i < self.tokens.len() {
            Some(&self.tokens[i].token)
        } else {
            None
        }
    }

    /// Whether the token of a provider has expired at `now`. A provider
    /// without a token, or with a token without an expiry, has not.
    pub fn is_token_expired_at(&self, provider: &str, now: i64) -> (r: bool)
        ensures
            r == expired(self@, provider@, now),
    {
        match self.get_token(provider) {
            Some(t) => match t.expires_at {
                Some(e) => now >= e,
                None => false,
            },
            None => false,
        }
    }

    /// Whether the token of a provider has expired by now.
    pub fn is_token_expired(&self, provider: &str) -> (r: bool)
        ensures
            exists|now: i64| r == #[trigger] expired(self@, provider@, now),
    {
        let now = crate::clock::now_millis();
        self.is_token_expired_at(provider, now)
    }
}

} // verus!
