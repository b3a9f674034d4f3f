use crynn::vpn::config::VpnConfig;
use crynn::vpn::providers::{NordVpnProvider, ProtonVpnProvider, SurfsharkProvider};
use crynn::vpn::{
    ActiveConnection, ConnectionStatus, ProviderType, VpnCredentials, VpnError, VpnManager,
    VPN_BASELINE_BYTES,
};

fn credentials(user: &str, service: ProviderType) -> VpnCredentials {
    VpnCredentials { username: user.to_string(), password: "pw".to_string(), service }
}

#[test]
fn vpn_config_defaults_and_builders() {
    let c = VpnConfig::new("/cfg/vpn.json".to_string());
    assert!(c.enable_surfshark && c.enable_nordvpn && c.enable_protonvpn);
    assert!(!c.kill_switch_enabled);
    assert!(!c.auto_connect);
    assert_eq!(c.preferred_provider, None);
    assert_eq!(c.config_path, "/cfg/vpn.json");
    let c = c.with_surfshark(false).with_kill_switch(true);
    assert!(!c.enable_surfshark);
    assert!(c.enable_nordvpn);
    assert!(c.kill_switch_enabled);
    let c = c.with_nordvpn(false).with_protonvpn(false).with_surfshark(true);
    assert!(c.enable_surfshark);
    assert!(!c.enable_nordvpn);
    assert!(!c.enable_protonvpn);
    assert_eq!(c.config_path, "/cfg/vpn.json");
}

#[test]
fn vpn_providers() {
    let s = SurfsharkProvider::new();
    assert_eq!(s.cli_path(), "surfshark-vpn");
    assert!(!s.is_connected());
    assert_eq!(s.provider_type(), ProviderType::Surfshark);
    let n = NordVpnProvider::new();
    assert_eq!(n.cli_path(), "nordvpn");
    assert!(!n.is_connected());
    assert_eq!(n.provider_type(), ProviderType::NordVpn);
    let p = ProtonVpnProvider::new();
    assert_eq!(p.cli_path(), "protonvpn-cli");
    assert!(!p.is_connected());
    assert_eq!(p.provider_type(), ProviderType::ProtonVpn);
}

#[test]
fn vpn_manager_connect_decisions() {
    let config = VpnConfig::new(String::new()).with_nordvpn(false);
    let mut m = VpnManager::new(config);
    assert!(m.is_available(ProviderType::Surfshark));
    assert!(!m.is_available(ProviderType::NordVpn));
    assert_eq!(
        m.credentials_for(ProviderType::NordVpn).err(),
        Some(VpnError::ProviderUnavailable)
    );
    assert_eq!(m.credentials_for(ProviderType::Surfshark).err(), Some(VpnError::NoCredentials));
    m.set_credentials(credentials("alice", ProviderType::Surfshark));
    m.set_credentials(credentials("bob", ProviderType::ProtonVpn));
    m.set_credentials(credentials("carol", ProviderType::Surfshark));
    assert_eq!(m.credentials_for(ProviderType::Surfshark).unwrap().username, "carol");
    assert_eq!(m.credentials_for(ProviderType::ProtonVpn).unwrap().username, "bob");
    m.set_credentials(credentials("dave", ProviderType::NordVpn));
    assert_eq!(
        m.credentials_for(ProviderType::NordVpn).err(),
        Some(VpnError::ProviderUnavailable)
    );
    assert_eq!(VpnError::NoCredentials.message(), "No credentials set for provider");
}

#[test]
fn vpn_manager_connection_state() {
    let mut m = VpnManager::new(VpnConfig::new(String::new()));
    assert!(matches!(m.get_status(), ConnectionStatus::Disconnected));
    assert_eq!(m.disconnect(), None);
    m.set_active(ActiveConnection {
        id: "c1".to_string(),
        provider: ProviderType::ProtonVpn,
        location_id: "nl-free".to_string(),
        connected_at: 5,
        status: ConnectionStatus::Connected,
    });
    assert!(matches!(m.get_status(), ConnectionStatus::Connected));
    assert_eq!(m.active_provider(), Some(ProviderType::ProtonVpn));
    assert_eq!(m.disconnect(), Some(ProviderType::ProtonVpn));
    assert_eq!(m.active_provider(), None);
    m.set_active(ActiveConnection {
        id: "c2".to_string(),
        provider: ProviderType::Surfshark,
        location_id: "us-ny".to_string(),
        connected_at: 6,
        status: ConnectionStatus::Failed("timeout".to_string()),
    });
    match m.get_status() {
        ConnectionStatus::Failed(msg) => assert_eq!(msg, "timeout"),
        _ => panic!("expected a failed connection"),
    }
    assert_eq!(m.get_memory_usage(), 1024 * 1024);
    assert!(m.test_dns_leak());
    assert_eq!(VPN_BASELINE_BYTES, 1048576);
}
