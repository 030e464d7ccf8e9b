use trusttunnel_core::app_state::{AppState, apply_saved_order, default_dns_enabled};
use trusttunnel_core::client_manager::{
    ClientManagerState, ReleaseAsset, client_binary_path, find_platform_asset,
    platform_asset_filter, version_sort_key,
};
use trusttunnel_core::config::{CredentialFile, StoredCredential, TunnelMode};
use trusttunnel_core::digits::{i32_to_string, u64_to_string};
use trusttunnel_core::system::dns::{
    DnsBackendKind, default_dns_servers, detect as detect_dns, effective_dns_servers,
    interface_in_line, powershell_server_argument, powershell_set_outcome,
    resolvconf_elevated_command, resolvconf_set_outcome, resolvconf_stdin, resolved_set_outcome,
    shell_single_quote_escape,
};
use trusttunnel_core::system::proxy::{
    ProxyBackendKind, combine_set_details, detect as detect_proxy, gnome_desktop_matches,
    gnome_set_detail, kde_desktop_matches, kde_set_detail, socks_proxy_url,
};
use trusttunnel_core::system::windows::{
    elevated_exit_marker_file_name, elevated_log_file_name, encode_powershell_command,
    utf16le_bytes,
};
use trusttunnel_core::system::{kwriteconfig_command, parse_host_port};

fn stored(path: &str) -> StoredCredential {
    StoredCredential {
        path: String::from(path),
        name: String::from(path),
        credential: CredentialFile::default(),
        draft: false,
    }
}

#[test]
fn parse_host_port_splits_ipv4() {
    assert_eq!(
        parse_host_port("127.0.0.1:1080"),
        (String::from("127.0.0.1"), 1080)
    );
    assert_eq!(parse_host_port("localhost"), (String::from("localhost"), 1080));
}

#[test]
fn parse_host_port_handles_ipv6() {
    assert_eq!(parse_host_port("[::1]:9050"), (String::from("::1"), 9050));
    assert_eq!(parse_host_port("[::1]"), (String::from("::1"), 1080));
    // a bare IPv6 address has no port part at all
    assert_eq!(parse_host_port("::1"), (String::from("::1"), 1080));
    assert_eq!(
        parse_host_port("2001:db8::1"),
        (String::from("2001:db8::1"), 1080)
    );
}

#[test]
fn parse_host_port_falls_back_on_bad_ports() {
    assert_eq!(parse_host_port("host:99999"), (String::from("host"), 1080));
    assert_eq!(parse_host_port("host:"), (String::from("host"), 1080));
    assert_eq!(parse_host_port("host:12x"), (String::from("host"), 1080));
    assert_eq!(parse_host_port("host:0042"), (String::from("host"), 42));
}

#[test]
fn kwriteconfig_follows_the_session_version() {
    assert_eq!(kwriteconfig_command("5"), "kwriteconfig5");
    assert_eq!(kwriteconfig_command("6"), "kwriteconfig6");
    assert_eq!(kwriteconfig_command(""), "kwriteconfig6");
}

#[test]
fn dns_backend_priority() {
    assert_eq!(detect_dns(true, true), Some(DnsBackendKind::Resolved));
    assert_eq!(detect_dns(true, false), Some(DnsBackendKind::Resolved));
    assert_eq!(detect_dns(false, true), Some(DnsBackendKind::Resolvconf));
    assert_eq!(detect_dns(false, false), None);
}

#[test]
fn proxy_backends_may_stack() {
    assert_eq!(
        detect_proxy(true, true),
        vec![ProxyBackendKind::Gnome, ProxyBackendKind::Kde]
    );
    assert_eq!(detect_proxy(false, true), vec![ProxyBackendKind::Kde]);
    assert!(detect_proxy(false, false).is_empty());
}

#[test]
fn desktop_matching_is_component_wise() {
    assert!(gnome_desktop_matches("ubuntu:GNOME"));
    assert!(gnome_desktop_matches("GNOME"));
    assert!(!gnome_desktop_matches("GNOME-like"));
    assert!(!gnome_desktop_matches("XFCE"));
    assert!(kde_desktop_matches("KDE"));
    assert!(kde_desktop_matches("something:Trinity"));
    assert!(!kde_desktop_matches("KDE5"));
}

#[test]
fn set_details_are_combined() {
    assert_eq!(combine_set_details(&vec![]), "No proxy backend available");
    assert_eq!(
        combine_set_details(&vec![String::from("one"), String::from("two")]),
        "one; two"
    );
}

#[test]
fn proxy_detail_texts() {
    assert_eq!(
        socks_proxy_url("127.0.0.1", 1080),
        "socks5://127.0.0.1:1080"
    );
    assert_eq!(
        gnome_set_detail("127.0.0.1", 1080),
        "System proxy configured via GSettings (SOCKS5 127.0.0.1:1080)"
    );
    assert_eq!(
        kde_set_detail("127.0.0.1", 1080),
        "System proxy configured via KDE KIO (SOCKS5 127.0.0.1:1080)"
    );
}

#[test]
fn dns_server_defaults_apply_when_empty() {
    assert_eq!(default_dns_servers(), vec!["1.1.1.1", "1.0.0.1"]);
    assert_eq!(
        effective_dns_servers(vec![]),
        vec!["1.1.1.1", "1.0.0.1"]
    );
    assert_eq!(
        effective_dns_servers(vec![String::from("9.9.9.9")]),
        vec!["9.9.9.9"]
    );
}

#[test]
fn resolvconf_command_text() {
    assert_eq!(
        resolvconf_stdin(&vec![String::from("1.1.1.1"), String::from("1.0.0.1")]),
        "nameserver 1.1.1.1\nnameserver 1.0.0.1"
    );
    assert_eq!(shell_single_quote_escape("a'b"), "a'\\''b");
    assert_eq!(shell_single_quote_escape("plain"), "plain");
    assert_eq!(
        resolvconf_elevated_command("nameserver 1.1.1.1"),
        "printf '%s\\n' 'nameserver 1.1.1.1' | resolvconf -a tun-trusttunnel -m 0 -x"
    );
}

#[test]
fn resolvconf_outcomes() {
    let servers = vec![String::from("1.1.1.1"), String::from("1.0.0.1")];
    assert_eq!(
        resolvconf_set_outcome(true, false, &servers),
        Ok(String::from("DNS configured via resolvconf (1.1.1.1, 1.0.0.1)"))
    );
    assert_eq!(
        resolvconf_set_outcome(false, true, &servers),
        Ok(String::from(
            "DNS configured via resolvconf with pkexec (1.1.1.1, 1.0.0.1)"
        ))
    );
    assert_eq!(
        resolvconf_set_outcome(false, false, &servers),
        Err(String::from(
            "Failed to set DNS via resolvconf (tried both direct and pkexec)"
        ))
    );
}

#[test]
fn resolved_outcomes() {
    let servers = vec![String::from("1.1.1.1")];
    assert_eq!(
        resolved_set_outcome(None, true, &servers),
        Err(String::from("DNS via systemd-resolved: no TUN interface found"))
    );
    assert_eq!(
        resolved_set_outcome(Some("tun0"), false, &servers),
        Err(String::from("Failed to set DNS servers on tun0 via resolvectl"))
    );
    assert_eq!(
        resolved_set_outcome(Some("tun0"), true, &servers),
        Ok(String::from(
            "DNS configured via systemd-resolved on tun0 (1.1.1.1)"
        ))
    );
}

#[test]
fn powershell_texts() {
    let servers = vec![String::from("1.1.1.1"), String::from("1.0.0.1")];
    assert_eq!(powershell_server_argument(&servers), "'1.1.1.1','1.0.0.1'");
    assert_eq!(
        powershell_set_outcome(true, &servers),
        Ok(String::from("DNS configured via PowerShell (1.1.1.1,1.0.0.1)"))
    );
    assert!(powershell_set_outcome(false, &servers).is_err());
}

#[test]
fn interface_names_come_from_the_second_field() {
    assert_eq!(
        interface_in_line("7: tun0: <POINTOPOINT,UP> mtu 1280").as_deref(),
        Some("tun0")
    );
    assert_eq!(interface_in_line("  12:   wg0:  state UP").as_deref(), Some("wg0"));
    assert!(interface_in_line("").is_none());
    assert!(interface_in_line("onlyone").is_none());
}

#[test]
fn utf16_and_base64_encoding() {
    assert_eq!(utf16le_bytes("ab"), vec![0x61, 0x00, 0x62, 0x00]);
    // U+1F600 needs a surrogate pair
    assert_eq!(
        utf16le_bytes("\u{1F600}"),
        vec![0x3D, 0xD8, 0x00, 0xDE]
    );
    assert_eq!(encode_powershell_command("ab"), "YQBiAA==");
    assert_eq!(encode_powershell_command(""), "");
}

#[test]
fn elevated_side_channel_names() {
    assert_eq!(
        elevated_log_file_name(4711),
        "trusttunnel_elevated_4711.log"
    );
    assert_eq!(
        elevated_exit_marker_file_name(4711),
        "trusttunnel_elevated_4711.exit"
    );
}

#[test]
fn number_rendering() {
    assert_eq!(u64_to_string(0), "0");
    assert_eq!(u64_to_string(12345), "12345");
    assert_eq!(i32_to_string(-5), "-5");
    assert_eq!(i32_to_string(i32::MIN), "-2147483648");
}

#[test]
fn version_keys_sort_numerically() {
    assert_eq!(version_sort_key("v1.2.3"), vec![1, 2, 3]);
    assert_eq!(version_sort_key("1.10"), vec![1, 10]);
    assert_eq!(version_sort_key("vv2"), vec![2]);
    assert_eq!(version_sort_key("abc"), vec![0]);
    assert_eq!(version_sort_key("v1.x.3"), vec![1, 0, 3]);
}

#[test]
fn platform_assets_are_matched_by_marker() {
    let (os, arch) = platform_asset_filter();
    assert_eq!(os, "linux");
    assert_eq!(arch, "x86_64");
    let assets = vec![
        ReleaseAsset {
            name: String::from("client-windows-x86_64.zip"),
            browser_download_url: String::from("https://example.net/win"),
            size: 10,
        },
        ReleaseAsset {
            name: String::from("client-linux-x86_64.tar.gz"),
            browser_download_url: String::from("https://example.net/linux"),
            size: 20,
        },
    ];
    let (name, url, size) = find_platform_asset(&assets).expect("an asset");
    assert_eq!(name, "client-linux-x86_64.tar.gz");
    assert_eq!(url, "https://example.net/linux");
    assert_eq!(size, 20);
    assert!(find_platform_asset(&assets[..1].to_vec()).is_none());
}

#[test]
fn client_manager_bookkeeping() {
    let mut state = ClientManagerState::new();
    assert!(!state.has_selected_client());
    state.installed.push(String::from("v1.2.3"));
    state.selected_version = Some(String::from("v1.2.3"));
    assert!(state.has_selected_client());
    assert_eq!(
        state.selected_binary_path("/opt/clients").as_deref(),
        Some("/opt/clients/v1.2.3/trusttunnel_client")
    );
    state.selected_version = Some(String::from("v9.9.9"));
    assert!(!state.has_selected_client());
    assert!(state.selected_binary_path("/opt/clients").is_none());

    assert!(!state.is_downloading("v1.2.3"));
    state.downloads.push((String::from("v1.2.3"), 40));
    assert!(state.is_downloading("v1.2.3"));
    assert_eq!(
        client_binary_path("/opt/clients", "v2"),
        "/opt/clients/v2/trusttunnel_client"
    );
}

#[test]
fn app_state_defaults_and_mode_names() {
    let state = AppState::default();
    assert!(state.dns_enabled());
    assert!(default_dns_enabled());
    assert_eq!(state.tunnel_mode(), TunnelMode::Tun);

    let mut state = AppState::default();
    state.set_tunnel_mode(TunnelMode::SystemProxy);
    assert_eq!(state.tunnel_mode(), TunnelMode::SystemProxy);
    assert_eq!(state.tunnel_mode.as_deref(), Some("system_proxy"));
    state.set_tunnel_mode(TunnelMode::Proxy);
    assert_eq!(state.tunnel_mode(), TunnelMode::Proxy);
    state.tunnel_mode = Some(String::from("garbage"));
    assert_eq!(state.tunnel_mode(), TunnelMode::Tun);

    state.set_dns_enabled(false);
    assert!(!state.dns_enabled());
    state.set_selected_client_version(Some("v1"));
    assert_eq!(state.selected_client_version(), Some("v1"));
    state.set_selected_client_version(None);
    assert!(state.selected_client_version().is_none());
}

#[test]
fn credential_order_roundtrip() {
    let credentials = vec![stored("/c/a.toml"), stored("/c/b.toml")];
    let mut state = AppState::default();
    state.set_credential_order(&credentials);
    assert_eq!(state.credential_order, vec!["/c/a.toml", "/c/b.toml"]);

    state.set_selected_credential(Some(&credentials[1]));
    assert_eq!(state.find_selected_index(&credentials), Some(1));
    state.set_selected_credential(None);
    assert_eq!(state.find_selected_index(&credentials), None);
}

#[test]
fn saved_order_is_applied_stably() {
    let mut credentials = vec![stored("/c/a"), stored("/c/b"), stored("/c/c")];
    let saved = vec![String::from("/c/c"), String::from("/c/a")];
    apply_saved_order(&mut credentials, &saved);
    let paths: Vec<&str> = credentials.iter().map(|c| c.path.as_str()).collect();
    assert_eq!(paths, vec!["/c/c", "/c/a", "/c/b"]);

    // unknown saved entries are skipped, unmentioned credentials keep order
    let mut credentials = vec![stored("/c/a"), stored("/c/b")];
    let saved = vec![String::from("/c/zz"), String::from("/c/b")];
    apply_saved_order(&mut credentials, &saved);
    let paths: Vec<&str> = credentials.iter().map(|c| c.path.as_str()).collect();
    assert_eq!(paths, vec!["/c/b", "/c/a"]);

    // an empty saved order changes nothing
    let mut credentials = vec![stored("/c/b"), stored("/c/a")];
    apply_saved_order(&mut credentials, &vec![]);
    let paths: Vec<&str> = credentials.iter().map(|c| c.path.as_str()).collect();
    assert_eq!(paths, vec!["/c/b", "/c/a"]);
}
