//! The VPN control logic: which providers are available, which
//! credentials belong to them, and the state of the one connection.
//!
//! Talking to a provider's command-line client is the caller's part. The
//! manager says what to do and records what came of it.

pub mod config;
pub mod providers;

use vstd::prelude::*;
use vstd::string::StringExecFns;
use crate::vpn::config::VpnConfig;

verus! {

/// The supported providers.
#[derive(Debug, Clone, Copy, PartialEq, Eq, Hash, Structural)]
pub enum ProviderType {
    Surfshark,
    NordVpn,
    ProtonVpn,
}

/// Login data for one provider.
#[derive(Debug)]
pub struct VpnCredentials {
    pub username: String,
    pub password: String,
    pub service: ProviderType,
}

/// Mathematical value of [`VpnCredentials`].
pub struct CredentialsView {
    pub username: Seq<char>,
    pub password: Seq<char>,
    pub service: ProviderType,
}

impl View for VpnCredentials {
    type V = CredentialsView;

    open spec fn view(&self) -> CredentialsView {
        CredentialsView {
            username: self.username@,
            password: self.password@,
            service: self.service,
        }
    }
}

/// The state of a connection.
#[derive(Debug)]
pub enum ConnectionStatus {
    Connecting,
    Connected,
    Disconnected,
    Failed(String),
}

/// Mathematical value of a [`ConnectionStatus`].
pub enum StatusView {
    Connecting,
    Connected,
    Disconnected,
    Failed(Seq<char>),
}

impl View for ConnectionStatus {
    type V = StatusView;

    open spec fn view(&self) -> StatusView {
        match *self {
            ConnectionStatus::Connecting => StatusView::Connecting,
            ConnectionStatus::Connected => StatusView::Connected,
            ConnectionStatus::Disconnected => StatusView::Disconnected,
            ConnectionStatus::Failed(m) => StatusView::Failed(m@),
        }
    }
}

impl ConnectionStatus {
    /// A copy of the status.
    pub fn duplicate(&self) -> (s: ConnectionStatus)
        ensures
            s@ == self@,
    {
        match self {
            ConnectionStatus::Connecting => ConnectionStatus::Connecting,
            ConnectionStatus::Connected => ConnectionStatus::Connected,
            ConnectionStatus::Disconnected => ConnectionStatus::Disconnected,
            ConnectionStatus::Failed(m) => ConnectionStatus::Failed(m.clone()),
        }
    }
}

/// The connection that is up or coming up.
#[derive(Debug)]
pub struct ActiveConnection {
    pub id: String,
    pub provider: ProviderType,
    /// Identifier of the server location.
    pub location_id: String,
    pub connected_at: i64,
    pub status: ConnectionStatus,
}

/// Why a VPN operation was not carried out.
#[derive(Debug, Clone, Copy, PartialEq, Eq, Structural)]
pub enum VpnError {
    /// The provider is switched off in the configuration.
    ProviderUnavailable,
    /// No credentials were set for the provider.
    NoCredentials,
}

impl VpnError {
    /// A short description.
    pub fn message(&self) -> (s: String)
        ensures
            s@ == match *self {
                VpnError::ProviderUnavailable => "Provider not available"@,
                VpnError::NoCredentials => "No credentials set for provider"@,
            },
    {
        match self {
            VpnError::ProviderUnavailable => String::from_str("Provider not available"),
            VpnError::NoCredentials => String::from_str("No credentials set for provider"),
        }
    }
}

/// The views of a sequence of credentials.
pub open spec fn credential_views(cs: Seq<VpnCredentials>) -> Seq<CredentialsView> {
    Seq::new(cs.len(), |i: int| cs[i]@)
}

/// Index of the credentials for `service`, or `cs.len()` when there are none.
pub open spec fn credentials_index(cs: Seq<CredentialsView>, service: ProviderType) -> int
    decreases cs.len(),
{
    if cs.len() == 0 || cs[0].service == service {
        0
    } else {
        1 + credentials_index(cs.drop_first(), service)
    }
}

/// The credentials after `c` was set: those of the same provider are replaced.
pub open spec fn with_credentials(cs: Seq<CredentialsView>, c: CredentialsView) -> Seq<
    CredentialsView,
> {
    let i = credentials_index(cs, c.service);
    if i < cs.len() {
        cs.update(i, c)
    } else {
        cs.push(c)
    }
}

/// Whether a provider is switched on in a configuration.
pub open spec fn enabled(
    enable_surfshark: bool,
    enable_nordvpn: bool,
    enable_protonvpn: bool,
    provider: ProviderType,
) -> bool {
    match provider {
        ProviderType::Surfshark => enable_surfshark,
        ProviderType::NordVpn => enable_nordvpn,
        ProviderType::ProtonVpn => enable_protonvpn,
    }
}

/// The first position that holds `service`, after others, is `credentials_index`.
pub proof fn lemma_credentials_index_is(cs: Seq<CredentialsView>, service: ProviderType, n: int)
    requires
        0 <= n <= cs.len(),
        forall|i: int| 0 <= i < n ==> (#[trigger] cs[i]).service != service,
        n < cs.len() ==> cs[n].service == service,
    ensures
        credentials_index(cs, service) == n,
    decreases cs.len(),
{
    if n > 0 {
        let t = cs.drop_first();
        assert(cs[0].service != service);
        assert forall|i: int| 0 <= i < n - 1 implies (#[trigger] t[i]).service != service by {
            assert(t[i] == cs[i + 1]);
        }
        lemma_credentials_index_is(t, service, n - 1);
    }
}

/// Memory that the manager itself accounts for: one mebibyte.
pub const VPN_BASELINE_BYTES: usize = 1048576;

/// The VPN manager.
#[derive(Debug)]
pub struct VpnManager {
    config: VpnConfig,
    credentials: Vec<VpnCredentials>,
    active: Option<ActiveConnection>,
}

impl VpnManager {
    /// The stored credentials.
    pub closed spec fn credentials(&self) -> Seq<CredentialsView> {
        credential_views(self.credentials@)
    }

    /// The active connection.
    pub closed spec fn active(&self) -> Option<ActiveConnection> {
        self.active
    }

    /// Whether a provider is switched on.
    pub closed spec fn available(&self, provider: ProviderType) -> bool {
        enabled(
            self.config.enable_surfshark,
            self.config.enable_nordvpn,
            self.config.enable_protonvpn,
            provider,
        )
    }

    /// The manager's invariant: one set of credentials per provider.
    pub open spec fn wf(&self) -> bool {
        forall|i: int, j: int|
            0 <= i < j < self.credentials().len() ==> self.credentials()[i].service
                != self.credentials()[j].service
    }

    /// A manager without credentials and without a connection.
    pub fn new(config: VpnConfig) -> (m: VpnManager)
        ensures
            m.wf(),
            m.credentials() == Seq::<CredentialsView>::empty(),
            m.active() is None,
            forall|p: ProviderType|
                #[trigger] m.available(p) == enabled(
                    config.enable_surfshark,
                    config.enable_nordvpn,
                    config.enable_protonvpn,
                    p,
                ),
    {
        let m = VpnManager { config, credentials: Vec::new(), active: None };
        assert(m.credentials() =~= Seq::<CredentialsView>::empty());
        m
    }

    /// Whether `provider` is switched on in the configuration.
    pub fn is_available(&self, provider: ProviderType) -> (r: bool)
        ensures
            r == self.available(provider),
    {
        match provider {
            ProviderType::Surfshark => self.config.enable_surfshark,
            ProviderType::NordVpn => self.config.enable_nordvpn,
            ProviderType::ProtonVpn => self.config.enable_protonvpn,
        }
    }

    /// Position of the credentials for `service`.
    fn find(&self, service: ProviderType) -> (i: usize)
        ensures
            i == credentials_index(self.credentials(), service),
            i <= self.credentials().len(),
            forall|j: int| 0 <= j < i ==> (#[trigger] self.credentials()[j]).service != service,
            i < self.credentials().len() ==> self.credentials()[i as int].service == service,
    {
        let mut i: usize = 0;
        while i < self.credentials.len() && self.credentials[i].service != service
            invariant
                i <= self.credentials.len(),
                forall|j: int| 0 <= j < i ==> (#[trigger] self.credentials()[j]).service != service,
            decreases self.credentials.len() - i,
        {
            i += 1;
        }
        proof {
            lemma_credentials_index_is(self.credentials(), service, i as int);
        }
        i
    }

    /// Stores credentials, replacing those of the same provider.
    pub fn set_credentials(&mut self, credentials: VpnCredentials)
        requires
            old(self).wf(),
        ensures
            final(self).wf(),
            final(self).credentials() == with_credentials(old(self).credentials(), credentials@),
            final(self).active() == old(self).active(),
            forall|p: ProviderType| #[trigger] final(self).available(p) == old(self).available(p),
    {
        let ghost before = self.credentials();
        let ghost view = credentials@;
        let i = self.find(credentials.service);
        if i < self.credentials.len() {
            self.credentials[i] = credentials;
            proof {
                assert(self.credentials() =~= before.update(i as int, view));
                assert forall|a: int, b: int|
                    0 <= a < b < self.credentials().len() implies self.credentials()[a].service
                    != self.credentials()[b].service by {
                    assert(before[a].service != before[b].service);
                }
            }
        } else {
            self.credentials.push(credentials);
            proof {
                assert(self.credentials() =~= before.push(view));
                assert forall|a: int, b: int|
                    0 <= a < b < self.credentials().len() implies self.credentials()[a].service
                    != self.credentials()[b].service by {
                    if b < before.len() {
                        assert(before[a].service != before[b].service);
                    } else {
                        assert(before[a].service != view.service);
                    }
                }
            }
        }
    }

    /// What has to be given up before a new connection: the provider of
    /// the active connection, which is forgotten.
    pub fn disconnect(&mut self) -> (r: Option<ProviderType>)
        ensures
            final(self).active() is None,
            old(self).wf() ==> final(self).wf(),
            final(self).credentials() == old(self).credentials(),
            forall|p: ProviderType| #[trigger] final(self).available(p) == old(self).available(p),
            r == match old(self).active() {
                Some(c) => Some(c.provider),
                None => None,
            },
    {
        let r = match &self.active {
            Some(c) => Some(c.provider),
            None => None,
        };
        self.active = None;
        r
    }

    /// Decides whether a connection through `provider` may be opened, and
    /// with which credentials.
    ///
    /// Fails with `ProviderUnavailable` when the provider is switched off,
    /// else with `NoCredentials` when none were set for it.
    pub fn credentials_for(&self, provider: ProviderType) -> (r: Result<
        &VpnCredentials,
        VpnError,
    >)
        ensures
            match r {
                Ok(c) => self.available(provider) && credentials_index(
                    self.credentials(),
                    provider,
                ) < self.credentials().len() && c@ == self.credentials()[credentials_index(
                    self.credentials(),
                    provider,
                )],
                Err(VpnError::ProviderUnavailable) => !self.available(provider),
                Err(VpnError::NoCredentials) => self.available(provider) && credentials_index(
                    self.credentials(),
                    provider,
                ) == self.credentials().len(),
            },
    {
        if !self.is_available(provider) {
            return Err(VpnError::ProviderUnavailable);
        }
        let i = self.find(provider);
        if i < self.credentials.len() {
            Ok(&self.credentials[i])
        } else {
            Err(VpnError::NoCredentials)
        }
    }

    /// Records the connection that a provider opened.
    pub fn set_active(&mut self, connection: ActiveConnection)
        ensures
            final(self).active() == Some(connection),
            old(self).wf() ==> final(self).wf(),
            final(self).credentials() == old(self).credentials(),
            forall|p: ProviderType| #[trigger] final(self).available(p) == old(self).available(p),
    {
        self.active = Some(connection);
    }

    /// The status of the active connection, `Disconnected` without one.
    pub fn get_status(&self) -> (s: ConnectionStatus)
        ensures
            s@ == match self.active() {
                Some(c) => c.status@,
                None => StatusView::Disconnected,
            },
    {
        match &self.active {
            Some(c) => c.status.duplicate(),
            None => ConnectionStatus::Disconnected,
        }
    }

    /// The provider of the active connection.
    pub fn active_provider(&self) -> (r: Option<ProviderType>)
        ensures
            r == match self.active() {
                Some(c) => Some(c.provider),
                None => None,
            },
    {
        match &self.active {
            Some(c) => Some(c.provider),
            None => None,
        }
    }

    /// DNS leaks are not probed: none is ever reported.
    pub fn test_dns_leak(&self) -> (no_leak: bool)
        ensures
            no_leak,
    {
        true
    }

    /// The manager's own memory use: a baseline of one mebibyte.
    pub fn get_memory_usage(&self) -> (n: usize)
        ensures
            n == VPN_BASELINE_BYTES,
    {
        VPN_BASELINE_BYTES
    }
}

} // verus!
