//! The command-line clients of the supported VPN providers.

use vstd::prelude::*;
use vstd::string::StringExecFns;
use crate::vpn::ProviderType;

verus! {

/// The Surfshark client.
#[derive(Debug)]
pub struct SurfsharkProvider {
    cli_path: String,
    connected: bool,
}

impl SurfsharkProvider {
    /// Name of the client program.
    pub closed spec fn cli(&self) -> Seq<char> {
        self.cli_path@
    }

    /// Whether a connection is recorded.
    pub closed spec fn connected(&self) -> bool {
        self.connected
    }

    /// The client `surfshark-vpn`, not connected.
    pub fn new() -> (p: SurfsharkProvider)
        ensures
            p.cli() == "surfshark-vpn"@,
            !p.connected(),
    {
        SurfsharkProvider { cli_path: String::from_str("surfshark-vpn"), connected: false }
    }

    /// Name of the client program.
    pub fn cli_path(&self) -> (s: &str)
        ensures
            s@ == self.cli(),
    {
        self.cli_path.as_str()
    }

    /// Whether a connection is recorded.
    pub fn is_connected(&self) -> (b: bool)
        ensures
            b == self.connected(),
    {
        self.connected
    }

    /// The provider that this client serves.
    pub fn provider_type(&self) -> (t: ProviderType)
        ensures
            t == ProviderType::Surfshark,
    {
        ProviderType::Surfshark
    }
}

/// The NordVPN client.
#[derive(Debug)]
pub struct NordVpnProvider {
    cli_path: String,
    connected: bool,
}

impl NordVpnProvider {
    /// Name of the client program.
    pub closed spec fn cli(&self) -> Seq<char> {
        self.cli_path@
    }

    /// Whether a connection is recorded.
    pub closed spec fn connected(&self) -> bool {
        self.connected
    }

    /// The client `nordvpn`, not connected.
    pub fn new() -> (p: NordVpnProvider)
        ensures
            p.cli() == "nordvpn"@,
            !p.connected(),
    {
        NordVpnProvider { cli_path: String::from_str("nordvpn"), connected: false }
    }

    /// Name of the client program.
    pub fn cli_path(&self) -> (s: &str)
        ensures
            s@ == self.cli(),
    {
        self.cli_path.as_str()
    }

    /// Whether a connection is recorded.
    pub fn is_connected(&self) -> (b: bool)
        ensures
            b == self.connected(),
    {
        self.connected
    }

    /// The provider that this client serves.
    pub fn provider_type(&self) -> (t: ProviderType)
        ensures
            t == ProviderType::NordVpn,
    {
        ProviderType::NordVpn
    }
}

/// The ProtonVPN client.
#[derive(Debug)]
pub struct ProtonVpnProvider {
    cli_path: String,
    connected: bool,
}

impl ProtonVpnProvider {
    /// Name of the client program.
    pub closed spec fn cli(&self) -> Seq<char> {
        self.cli_path@
    }

    /// Whether a connection is recorded.
    pub closed spec fn connected(&self) -> bool {
        self.connected
    }

    /// The client `protonvpn-cli`, not connected.
    pub fn new() -> (p: ProtonVpnProvider)
        ensures
            p.cli() == "protonvpn-cli"@,
            !p.connected(),
    {
        ProtonVpnProvider { cli_path: String::from_str("protonvpn-cli"), connected: false }
    }

    /// Name of the client program.
    pub fn cli_path(&self) -> (s: &str)
        ensures
            s@ == self.cli(),
    {
        self.cli_path.as_str()
    }

    /// Whether a connection is recorded.
    pub fn is_connected(&self) -> (b: bool)
        ensures
            b == self.connected(),
    {
        self.connected
    }

    /// The provider that this client serves.
    pub fn provider_type(&self) -> (t: ProviderType)
        ensures
            t == ProviderType::ProtonVpn,
    {
        ProviderType::ProtonVpn
    }
}

} // verus!
