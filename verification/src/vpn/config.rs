//! Which VPN providers are switched on.

use vstd::prelude::*;
use crate::text::option_view;

verus! {

/// The VPN settings.
#[derive(Debug)]
pub struct VpnConfig {
    pub enable_surfshark: bool,
    pub enable_nordvpn: bool,
    pub enable_protonvpn: bool,
    pub kill_switch_enabled: bool,
    pub auto_connect: bool,
    pub preferred_provider: Option<String>,
    /// Where the settings are kept on disk.
    pub config_path: String,
}

/// Mathematical value of a [`VpnConfig`].
pub struct VpnConfigView {
    pub enable_surfshark: bool,
    pub enable_nordvpn: bool,
    pub enable_protonvpn: bool,
    pub kill_switch_enabled: bool,
    pub auto_connect: bool,
    pub preferred_provider: Option<Seq<char>>,
    pub config_path: Seq<char>,
}

impl View for VpnConfig {
    type V = VpnConfigView;

    open spec fn view(&self) -> VpnConfigView {
        VpnConfigView {
            enable_surfshark: self.enable_surfshark,
            enable_nordvpn: self.enable_nordvpn,
            enable_protonvpn: self.enable_protonvpn,
            kill_switch_enabled: self.kill_switch_enabled,
            auto_connect: self.auto_connect,
            preferred_provider: option_view(self.preferred_provider),
            config_path: self.config_path@,
        }
    }
}

impl VpnConfig {
    /// The default settings, kept at `config_path`: every provider on, no
    /// kill switch, no automatic connection, no preferred provider.
    pub fn new(config_path: String) -> (c: VpnConfig)
        ensures
            c@ == (VpnConfigView {
                enable_surfshark: true,
                enable_nordvpn: true,
                enable_protonvpn: true,
                kill_switch_enabled: false,
                auto_connect: false,
                preferred_provider: None,
                config_path: config_path@,
            }),
    {
        VpnConfig {
            enable_surfshark: true,
            enable_nordvpn: true,
            enable_protonvpn: true,
            kill_switch_enabled: false,
            auto_connect: false,
            preferred_provider: None,
            config_path,
        }
    }

    /// The settings with Surfshark switched on or off.
    pub fn with_surfshark(self, enabled: bool) -> (c: VpnConfig)
        ensures
            c@ == (VpnConfigView { enable_surfshark: enabled, ..self@ }),
    {
        let mut c = self;
        c.enable_surfshark = enabled;
        c
    }

    /// The settings with NordVPN switched on or off.
    pub fn with_nordvpn(self, enabled: bool) -> (c: VpnConfig)
        ensures
            c@ == (VpnConfigView { enable_nordvpn: enabled, ..self@ }),
    {
        let mut c = self;
        c.enable_nordvpn = enabled;
        c
    }

    /// The settings with ProtonVPN switched on or off.
    pub fn with_protonvpn(self, enabled: bool) -> (c: VpnConfig)
        ensures
            c@ == (VpnConfigView { enable_protonvpn: enabled, ..self@ }),
    {
        let mut c = self;
        c.enable_protonvpn = enabled;
        c
    }

    /// The settings with the kill switch on or off.
    pub fn with_kill_switch(self, enabled: bool) -> (c: VpnConfig)
        ensures
            c@ == (VpnConfigView { kill_switch_enabled: enabled, ..self@ }),
    {
        let mut c = self;
        c.kill_switch_enabled = enabled;
        c
    }
}

} // verus!
