use trusttunnel_core::config::{
    CredentialFile, HostAddressKind, StoredCredential, TunnelMode, VpnConfiguration,
    credential_name,
    default_dns_upstreams, default_post_quantum_group_enabled, dns_upstream_servers,
    excluded_route_for, extend_excluded_routes, host_part, parse_list_input,
    proxy_listen_address, redact_password_in_toml,
};
use trusttunnel_core::state::ConnectionState;

fn endpoint_fields(dns_enabled: bool) -> trusttunnel_core::config::EndpointFields {
    let mut credential = CredentialFile::default();
    credential.hostname = String::from("vpn.example.net");
    credential.addresses = vec![String::from("198.51.100.7:443")];
    credential.username = String::from("alice");
    credential.password = String::from("hunter2");
    credential.to_endpoint_fields(dns_enabled)
}

#[test]
fn tunnel_mode_predicates() {
    assert!(TunnelMode::Tun.is_tun());
    assert!(!TunnelMode::Proxy.is_tun());
    assert!(TunnelMode::SystemProxy.sets_system_proxy());
    assert!(!TunnelMode::Tun.sets_system_proxy());
    assert_eq!(TunnelMode::Tun.label(), "TUN");
    assert_eq!(TunnelMode::SystemProxy.label(), "System proxy");
    assert_eq!(TunnelMode::Proxy.label(), "Proxy");
}

#[test]
fn defaults_match_the_credential_schema() {
    assert!(default_post_quantum_group_enabled());
    let upstreams = default_dns_upstreams();
    assert_eq!(upstreams, vec!["tls://1.1.1.1", "tls://1.0.0.1"]);
    assert_eq!(proxy_listen_address(), "127.0.0.1:1080");
}

#[test]
fn tun_configuration_carries_the_route_split() {
    let configuration = VpnConfiguration::new(endpoint_fields(true), TunnelMode::Tun, true);
    assert_eq!(configuration.loglevel, "info");
    assert_eq!(configuration.vpn_mode, "general");
    let tun = configuration.listener.tun.as_ref().expect("tun listener");
    assert!(configuration.listener.proxy.is_none());
    assert_eq!(tun.mtu_size, 1280);
    assert_eq!(tun.included_routes, vec!["0.0.0.0/0", "2000::/3"]);
    assert_eq!(tun.excluded_routes.len(), 6);
    assert_eq!(tun.excluded_routes[0], "0.0.0.0/8");
    assert!(tun.change_system_dns);
}

#[test]
fn change_system_dns_needs_resolved_and_the_toggle() {
    let configuration = VpnConfiguration::new(endpoint_fields(true), TunnelMode::Tun, false);
    assert!(!configuration.listener.tun.unwrap().change_system_dns);
    let configuration = VpnConfiguration::new(endpoint_fields(false), TunnelMode::Tun, true);
    assert!(!configuration.listener.tun.unwrap().change_system_dns);
}

#[test]
fn proxy_modes_get_the_local_listener() {
    let configuration = VpnConfiguration::new(endpoint_fields(true), TunnelMode::Proxy, true);
    assert!(configuration.listener.tun.is_none());
    let proxy = configuration.listener.proxy.expect("proxy listener");
    assert_eq!(proxy.address, "127.0.0.1:1080");
    assert!(proxy.username.is_none());
    assert!(proxy.password.is_none());
}

#[test]
fn empty_upstream_protocol_defaults_to_http2() {
    let configuration = VpnConfiguration::new(endpoint_fields(true), TunnelMode::Tun, true);
    assert_eq!(configuration.endpoint.upstream_protocol, "http2");
    let mut fields = endpoint_fields(true);
    fields.upstream_protocol = String::from("http3");
    let configuration = VpnConfiguration::new(fields, TunnelMode::Tun, true);
    assert_eq!(configuration.endpoint.upstream_protocol, "http3");
}

#[test]
fn credential_name_prefers_user_and_host() {
    let mut credential = CredentialFile::default();
    credential.username = String::from("alice");
    credential.hostname = String::from("vpn.example.net");
    assert_eq!(credential_name(&credential, "file"), "alice@vpn.example.net");

    credential.username = String::new();
    assert_eq!(credential_name(&credential, "file"), "vpn.example.net");

    credential.username = String::from("alice");
    credential.hostname = String::new();
    assert_eq!(credential_name(&credential, "file"), "alice");

    credential.username = String::new();
    assert_eq!(credential_name(&credential, "file"), "file");
}

#[test]
fn validation_accepts_a_complete_credential() {
    let mut credential = CredentialFile::default();
    credential.hostname = String::from("h");
    credential.addresses = vec![String::from("a")];
    credential.username = String::from("u");
    credential.password = String::from("p");
    assert!(credential.validate().is_none());
    credential.password = String::new();
    let issue = credential.validate().expect("an issue");
    assert_eq!(issue.label, "Password is required");
}

#[test]
fn redaction_hides_quoted_passwords() {
    let document = "hostname = \"h\"\npassword = \"secret\"\nusername = \"u\"";
    let redacted = redact_password_in_toml(document);
    assert_eq!(
        redacted,
        "hostname = \"h\"\npassword = \"******\"\nusername = \"u\""
    );
}

#[test]
fn redaction_measures_unquoted_values() {
    let redacted = redact_password_in_toml("password = abcd");
    assert_eq!(redacted, "password = \"****\"");
}

#[test]
fn redaction_keeps_other_lines() {
    let redacted = redact_password_in_toml("loglevel = \"info\"");
    assert_eq!(redacted, "loglevel = \"info\"");
    let redacted = redact_password_in_toml("password mention without equals");
    assert_eq!(redacted, "password mention without equals");
}

#[test]
fn redaction_handles_indented_password_lines() {
    let redacted = redact_password_in_toml("  password = \"ab\"");
    assert_eq!(redacted, "  password = \"**\"");
}

#[test]
fn host_part_stops_at_the_first_colon() {
    assert_eq!(host_part("198.51.100.7:443"), "198.51.100.7");
    assert_eq!(host_part("hostname"), "hostname");
    assert_eq!(host_part(":443"), "");
}

#[test]
fn excluded_routes_cover_single_hosts() {
    assert_eq!(
        excluded_route_for("198.51.100.7", HostAddressKind::V4).as_deref(),
        Some("198.51.100.7/32")
    );
    assert_eq!(
        excluded_route_for("2001:db8::1", HostAddressKind::V6).as_deref(),
        Some("2001:db8::1/128")
    );
    assert!(excluded_route_for("not-an-ip", HostAddressKind::NotAnAddress).is_none());
}

#[test]
fn route_extension_deduplicates() {
    let mut configuration = VpnConfiguration::new(endpoint_fields(true), TunnelMode::Tun, true);
    let tun = configuration.listener.tun.as_mut().unwrap();
    extend_excluded_routes(
        tun,
        vec![
            String::from("198.51.100.7/32"),
            String::from("10.0.0.0/8"),
            String::from("198.51.100.7/32"),
        ],
    );
    assert_eq!(tun.excluded_routes.len(), 7);
    assert_eq!(tun.excluded_routes[6], "198.51.100.7/32");
}

#[test]
fn list_input_splits_on_commas_and_spaces() {
    assert_eq!(
        parse_list_input("1.2.3.4, 5.6.7.8  9.10.11.12,,"),
        vec!["1.2.3.4", "5.6.7.8", "9.10.11.12"]
    );
    assert!(parse_list_input("").is_empty());
    assert!(parse_list_input(" , ").is_empty());
}

#[test]
fn upstream_servers_lose_their_scheme() {
    assert_eq!(
        dns_upstream_servers("tls://1.1.1.1, tls://1.0.0.1"),
        vec!["1.1.1.1", "1.0.0.1"]
    );
    assert_eq!(dns_upstream_servers("8.8.8.8"), vec!["8.8.8.8"]);
    assert!(dns_upstream_servers("").is_empty());
    assert!(dns_upstream_servers(" , ").is_empty());
}

#[test]
fn draft_credentials_get_the_first_free_path() {
    let draft = StoredCredential::new_draft("/c", &vec![]);
    assert_eq!(draft.path, "/c/.draft.toml");
    assert!(draft.draft);
    assert!(draft.name.is_empty());
    assert!(draft.credential.hostname.is_empty());

    let existing = vec![draft];
    let second = StoredCredential::new_draft("/c", &existing);
    assert_eq!(second.path, "/c/.draft-1.toml");

    let existing = vec![existing.into_iter().next().unwrap(), second];
    let third = StoredCredential::new_draft("/c", &existing);
    assert_eq!(third.path, "/c/.draft-2.toml");
}

#[test]
fn state_labels_and_colors() {
    assert_eq!(ConnectionState::Disconnected.label(), "Disconnected");
    assert_eq!(ConnectionState::Connecting.label(), "Connecting...");
    assert_eq!(ConnectionState::Connected.label(), "Connected");
    assert_eq!(
        ConnectionState::Error(String::from("boom")).label(),
        "Error: boom"
    );
    assert_eq!(
        ConnectionState::Connected.color(),
        trusttunnel_core::state::COLOR_GREEN
    );
    assert_eq!(
        ConnectionState::Error(String::new()).color(),
        trusttunnel_core::state::COLOR_RED
    );
}

#[test]
fn state_predicates() {
    assert!(ConnectionState::Connected.is_connected());
    assert!(!ConnectionState::Connecting.is_connected());
    assert!(ConnectionState::Connecting.is_busy());
    assert!(ConnectionState::Disconnecting.is_busy());
    assert!(!ConnectionState::Connected.is_busy());
    assert!(ConnectionState::Connecting.is_active());
    assert!(ConnectionState::Connected.is_active());
    assert!(ConnectionState::Disconnecting.is_active());
    assert!(!ConnectionState::Disconnected.is_active());
    assert!(!ConnectionState::Error(String::new()).is_active());
}
