//! Network configuration and the decisions of the network layer: which
//! protocol a request uses, which proxy applies, and how long a resolved
//! address is remembered.

pub mod security;

use vstd::prelude::*;
use vstd::string::StringExecFns;
use crate::text::option_view;
use crate::web_url::{is_secure_scheme, WebUrl, WebUrlView};

verus! {

/// Proxies per scheme.
#[derive(Debug)]
pub struct ProxyConfig {
    pub http: Option<String>,
    pub https: Option<String>,
    pub socks5: Option<String>,
}

/// Mathematical value of a [`ProxyConfig`].
pub struct ProxyConfigView {
    pub http: Option<Seq<char>>,
    pub https: Option<Seq<char>>,
    pub socks5: Option<Seq<char>>,
}

impl View for ProxyConfig {
    type V = ProxyConfigView;

    open spec fn view(&self) -> ProxyConfigView {
        ProxyConfigView {
            http: option_view(self.http),
            https: option_view(self.https),
            socks5: option_view(self.socks5),
        }
    }
}

/// Settings of the network layer.
#[derive(Debug)]
pub struct NetworkConfig {
    pub user_agent: String,
    pub timeout_seconds: u64,
    pub max_redirects: usize,
    pub enable_http2: bool,
    pub enable_http3: bool,
    pub dns_cache_size: usize,
    pub proxy_config: Option<ProxyConfig>,
}

impl Default for NetworkConfig {
    fn default() -> (config: NetworkConfig)
        ensures
            config.user_agent@ == "Crynn Browser/0.1"@,
            config.timeout_seconds == 30,
            config.max_redirects == 10,
            config.enable_http2,
            !config.enable_http3,
            config.dns_cache_size == 1000,
            config.proxy_config is None,
    {
        NetworkConfig {
            user_agent: String::from_str("Crynn Browser/0.1"),
            timeout_seconds: 30,
            max_redirects: 10,
            enable_http2: true,
            enable_http3: false,
            dns_cache_size: 1000,
            proxy_config: None,
        }
    }
}

/// The protocol that carries a request.
#[derive(Debug, Clone, Copy, PartialEq, Eq, Structural)]
pub enum Protocol {
    Http1_1,
    Http2,
    Http3,
}

/// The protocol for a request: HTTP/3 where it is enabled, a client
/// exists and the server supports it; else HTTP/2 under the same
/// conditions; else HTTP/1.1.
pub open spec fn selected_protocol(
    enable_http3: bool,
    has_http3_client: bool,
    server_http3: bool,
    enable_http2: bool,
    has_http2_client: bool,
    server_http2: bool,
) -> Protocol {
    if enable_http3 && has_http3_client && server_http3 {
        Protocol::Http3
    } else if enable_http2 && has_http2_client && server_http2 {
        Protocol::Http2
    } else {
        Protocol::Http1_1
    }
}

/// Chooses the protocol for a request, given which clients exist and what
/// the server was found to support.
pub fn select_protocol(
    config: &NetworkConfig,
    has_http3_client: bool,
    server_http3: bool,
    has_http2_client: bool,
    server_http2: bool,
) -> (p: Protocol)
    ensures
        p == selected_protocol(
            config.enable_http3,
            has_http3_client,
            server_http3,
            config.enable_http2,
            has_http2_client,
            server_http2,
        ),
{
    if config.enable_http3 && has_http3_client && server_http3 {
        Protocol::Http3
    } else if config.enable_http2 && has_http2_client && server_http2 {
        Protocol::Http2
    } else {
        Protocol::Http1_1
    }
}

/// Why a request could not be sent.
#[derive(Debug, Clone, Copy, PartialEq, Eq, Structural)]
pub enum NetworkError {
    /// No HTTP/2 client was created.
    Http2Unavailable,
    /// No HTTP/3 client was created.
    Http3Unavailable,
    /// HTTP/2 requests are not implemented.
    Http2NotImplemented,
    /// HTTP/3 requests are not implemented.
    Http3NotImplemented,
    /// The URL has no host to resolve.
    NoHost,
}

/// The HTTP/2 client. It cannot send requests yet.
#[derive(Debug, Clone, Copy, PartialEq, Eq, Structural)]
pub struct Http2Client {}

impl Http2Client {
    /// A client.
    pub fn new() -> Http2Client {
        Http2Client {  }
    }

    /// Requests over HTTP/2 always fail: the protocol is not implemented.
    pub fn request(&self) -> (r: Result<(), NetworkError>)
        ensures
            r == Err::<(), NetworkError>(NetworkError::Http2NotImplemented),
    {
        Err(NetworkError::Http2NotImplemented)
    }
}

/// The HTTP/3 client. It cannot send requests yet.
#[derive(Debug, Clone, Copy, PartialEq, Eq, Structural)]
pub struct Http3Client {}

impl Http3Client {
    /// A client.
    pub fn new() -> Http3Client {
        Http3Client {  }
    }

    /// Requests over HTTP/3 always fail: the protocol is not implemented.
    pub fn request(&self) -> (r: Result<(), NetworkError>)
        ensures
            r == Err::<(), NetworkError>(NetworkError::Http3NotImplemented),
    {
        Err(NetworkError::Http3NotImplemented)
    }
}

/// Chooses the proxy for a request.
#[derive(Debug)]
pub struct ProxyManager {
    config: Option<ProxyConfig>,
}

/// The proxy for a URL: the HTTPS proxy for `https` URLs, the HTTP proxy
/// for all others, none without a configuration.
pub open spec fn proxy_for(config: Option<ProxyConfigView>, url: WebUrlView) -> Option<Seq<char>> {
    match config {
        Some(c) => if is_secure_scheme(url.scheme) {
            c.https
        } else {
            c.http
        },
        None => None,
    }
}

impl ProxyManager {
    /// The configuration as a value.
    pub closed spec fn config(&self) -> Option<ProxyConfigView> {
        match self.config {
            Some(c) => Some(c@),
            None => None,
        }
    }

    /// A manager for the given configuration.
    pub fn new(config: Option<ProxyConfig>) -> (m: ProxyManager)
        ensures
            m.config() == match config {
                Some(c) => Some(c@),
                None => None,
            },
    {
        ProxyManager { config }
    }

    /// The proxy to use for `url`.
    pub fn get_proxy(&self, url: &WebUrl) -> (r: Option<String>)
        ensures
            option_view(r) == proxy_for(self.config(), url@),
    {
        match &self.config {
            Some(c) => {
                if url.is_secure() {
                    match &c.https {
                        Some(p) => Some(p.clone()),
                        None => None,
                    }
                } else {
                    match &c.http {
                        Some(p) => Some(p.clone()),
                        None => None,
                    }
                }
            },
            None => None,
        }
    }

    /// Proxy connectivity is not probed: every proxy is reported as usable.
    pub fn test_proxy(&self, proxy_url: &str) -> (r: bool)
        ensures
            r,
    {
        true
    }
}

/// How long a resolved address is remembered, in milliseconds.
pub const DNS_TTL_MILLIS: i64 = 300000;

/// One remembered address.
#[derive(Debug)]
pub struct DnsCacheEntry {
    pub host: String,
    /// The address as text.
    pub ip: String,
    pub expires_at: i64,
}

/// Mathematical value of a [`DnsCacheEntry`].
pub struct DnsEntryView {
    pub host: Seq<char>,
    pub ip: Seq<char>,
    pub expires_at: i64,
}

impl View for DnsCacheEntry {
    type V = DnsEntryView;

    open spec fn view(&self) -> DnsEntryView {
        DnsEntryView { host: self.host@, ip: self.ip@, expires_at: self.expires_at }
    }
}

/// The views of a sequence of entries.
pub open spec fn dns_views(entries: Seq<DnsCacheEntry>) -> Seq<DnsEntryView> {
    Seq::new(entries.len(), |i: int| entries[i]@)
}

/// Index of the entry for `host`, or `entries.len()` when there is none.
pub open spec fn dns_index(entries: Seq<DnsEntryView>, host: Seq<char>) -> int
    decreases entries.len(),
{
    if entries.len() == 0 || entries[0].host == host {
        0
    } else {
        1 + dns_index(entries.drop_first(), host)
    }
}

/// The address remembered for `host` at `now`, if one is and has not expired.
pub open spec fn dns_lookup(entries: Seq<DnsEntryView>, host: Seq<char>, now: i64) -> Option<
    Seq<char>,
> {
    let i = dns_index(entries, host);
    if i < entries.len() && entries[i].expires_at > now {
        Some(entries[i].ip)
    } else {
        None
    }
}

/// Expiry of an address resolved at `now`.
pub open spec fn dns_expiry(now: i64) -> i64 {
    if now <= i64::MAX - DNS_TTL_MILLIS {
        (now + DNS_TTL_MILLIS) as i64
    } else {
        i64::MAX
    }
}

/// The entries after `ip` was resolved for `host` at `now`: a full cache is
/// emptied first, an entry for the same host is replaced.
pub open spec fn dns_remember(
    entries: Seq<DnsEntryView>,
    max_size: nat,
    host: Seq<char>,
    ip: Seq<char>,
    now: i64,
) -> Seq<DnsEntryView> {
    let base = if entries.len() >= max_size {
        Seq::empty()
    } else {
        entries
    };
    let entry = DnsEntryView { host, ip, expires_at: dns_expiry(now) };
    let i = dns_index(base, host);
    if i < base.len() {
        base.update(i, entry)
    } else {
        base.push(entry)
    }
}

/// The first position that holds `host`, after entries without it, is `dns_index`.
pub proof fn lemma_dns_index_is(entries: Seq<DnsEntryView>, host: Seq<char>, n: int)
    requires
        0 <= n <= entries.len(),
        forall|i: int| 0 <= i < n ==> (#[trigger] entries[i]).host != host,
        n < entries.len() ==> entries[n].host == host,
    ensures
        dns_index(entries, host) == n,
    decreases entries.len(),
{
    if n > 0 {
        let t = entries.drop_first();
        assert(entries[0].host != host);
        assert forall|i: int| 0 <= i < n - 1 implies (#[trigger] t[i]).host != host by {
            assert(t[i] == entries[i + 1]);
        }
        lemma_dns_index_is(t, host, n - 1);
    }
}

/// Remembers resolved addresses for a while.
#[derive(Debug)]
pub struct DnsResolver {
    max_size: usize,
    entries: Vec<DnsCacheEntry>,
}

impl View for DnsResolver {
    type V = Seq<DnsEntryView>;

    closed spec fn view(&self) -> Seq<DnsEntryView> {
        dns_views(self.entries@)
    }
}

impl DnsResolver {
    /// The number of entries at which the cache is emptied.
    pub closed spec fn capacity(&self) -> nat {
        self.max_size as nat
    }

    /// The cache's invariant: one entry per host.
    pub open spec fn wf(&self) -> bool {
        forall|i: int, j: int| 0 <= i < j < self@.len() ==> self@[i].host != self@[j].host
    }

    /// An empty cache.
    pub fn new(max_size: usize) -> (r: DnsResolver)
        ensures
            r.wf(),
            r@ == Seq::<DnsEntryView>::empty(),
            r.capacity() == max_size,
    {
        let r = DnsResolver { max_size, entries: Vec::new() };
        assert(r@ =~= Seq::<DnsEntryView>::empty());
        r
    }

    /// Position of the entry for `host`.
    fn find(&self, host: &str) -> (i: usize)
        ensures
            i == dns_index(self@, host@),
            i <= self@.len(),
            forall|j: int| 0 <= j < i ==> (#[trigger] self@[j]).host != host@,
            i < self@.len() ==> self@[i as int].host == host@,
    {
        let mut i: usize = 0;
        while i < self.entries.len() && !(*self.entries[i].host.as_str() == *host)
            invariant
                i <= self.entries.len(),
                forall|j: int| 0 <= j < i ==> (#[trigger] self@[j]).host != host@,
            decreases self.entries.len() - i,
        {
            i += 1;
        }
        proof {
            lemma_dns_index_is(self@, host@, i as int);
        }
        i
    }

    /// The host to resolve for a URL.
    pub fn host_of(url: &WebUrl) -> (r: Result<String, NetworkError>)
        ensures
            match r {
                Ok(h) => url@.host == Some(h@),
                Err(e) => url@.host is None && e == NetworkError::NoHost,
            },
    {
        match &url.host {
            Some(h) => Ok(h.clone()),
            None => Err(NetworkError::NoHost),
        }
    }

    /// The address remembered for `host`, unless it has expired by `now`.
    pub fn cached(&self, host: &str, now: i64) -> (r: Option<String>)
        ensures
            option_view(r) == dns_lookup(self@, host@, now),
    {
        let i = self.find(host);
        if i < self.entries.len() && self.entries[i].expires_at > now {
            Some(self.entries[i].ip.clone())
        } else {
            None
        }
    }

    /// Remembers that `host` resolved to `ip` at `now`, for five minutes.
    pub fn remember(&mut self, host: &str, ip: &str, now: i64)
        requires
            old(self).wf(),
        ensures
            final(self).wf(),
            final(self).capacity() == old(self).capacity(),
            final(self)@ == dns_remember(old(self)@, old(self).capacity(), host@, ip@, now),
    {
        if self.entries.len() >= self.max_size {
            self.entries.clear();
            assert(self@ =~= Seq::<DnsEntryView>::empty());
        }
        let ghost base = self@;
        let expires_at = if now <= i64::MAX - DNS_TTL_MILLIS {
            now + DNS_TTL_MILLIS
        } else {
            i64::MAX
        };
        let entry = DnsCacheEntry { host: host.to_owned(), ip: ip.to_owned(), expires_at };
        let ghost view = entry@;
        let i = self.find(host);
        if i < self.entries.len() {
            self.entries[i] = entry;
            proof {
                assert(self@ =~= base.update(i as int, view));
                assert forall|a: int, b: int| 0 <= a < b < self@.len() implies self@[a].host
                    != self@[b].host by {
                    assert(base[a].host != base[b].host);
                }
            }
        } else {
            self.entries.push(entry);
            proof {
                assert(self@ =~= base.push(view));
                assert forall|a: int, b: int| 0 <= a < b < self@.len() implies self@[a].host
                    != self@[b].host by {
                    if b < base.len() {
                        assert(base[a].host != base[b].host);
                    } else {
                        assert(base[a].host != view.host);
                    }
                }
            }
        }
    }

    /// Forgets every address.
    pub fn clear_cache(&mut self)
        ensures
            final(self).wf(),
            final(self).capacity() == old(self).capacity(),
            final(self)@ == Seq::<DnsEntryView>::empty(),
    {
        self.entries.clear();
        assert(self@ =~= Seq::<DnsEntryView>::empty());
    }

    /// Number of remembered addresses.
    pub fn get_cache_size(&self) -> (n: usize)
        ensures
            n == self@.len(),
    {
        self.entries.len()
    }
}

/// Memory that the network manager itself accounts for: one mebibyte.
pub const NETWORK_BASELINE_BYTES: usize = 1048576;

} // verus!
