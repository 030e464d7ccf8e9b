use trusttunnel_core::config::{CredentialFile, TunnelMode};
use trusttunnel_core::process_log::ProcessLog;
use trusttunnel_core::session::{
    ChildExit, ConnectStep, DisconnectOutcome, Session, TerminatePlan, TickOutcome,
    terminate_plan,
};
use trusttunnel_core::state::ConnectionState;

fn valid_credential() -> CredentialFile {
    let mut credential = CredentialFile::default();
    credential.hostname = String::from("vpn.example.net");
    credential.addresses = vec![String::from("198.51.100.7:443")];
    credential.username = String::from("alice");
    credential.password = String::from("hunter2");
    credential
}

fn connecting_session(mode: TunnelMode, dns_enabled: bool) -> Session {
    let mut session = Session::new(
        String::from("trusttunnel_client"),
        true,
        mode,
        dns_enabled,
    );
    let step = session.connect_request(true, true, &valid_credential());
    assert!(matches!(step, ConnectStep::Proceed));
    session.connect_launch();
    session.spawn_succeeded(false);
    session
}

#[test]
fn connect_is_ignored_while_busy() {
    let mut session = connecting_session(TunnelMode::Tun, true);
    assert!(matches!(session.state, ConnectionState::Connecting));
    let step = session.connect_request(true, true, &valid_credential());
    assert!(matches!(step, ConnectStep::Ignored));
    assert!(matches!(session.state, ConnectionState::Connecting));
    assert!(session.child.is_some());
}

#[test]
fn disconnect_while_disconnected_is_a_no_op() {
    let mut session = Session::new(String::from("bin"), true, TunnelMode::Tun, true);
    let outcome = session.disconnect_request(None, 0);
    match outcome {
        DisconnectOutcome::NoChild(actions) => {
            assert!(!actions.clear_proxy);
            assert!(!actions.clear_dns);
            assert!(!actions.kill_child);
        }
        other => panic!("unexpected outcome: {other:?}"),
    }
    assert!(matches!(session.state, ConnectionState::Disconnected));
}

#[test]
fn exit_takes_precedence_over_connected_flag() {
    let mut session = connecting_session(TunnelMode::Tun, true);
    let outcome = session.reconcile(
        Some(ChildExit { code: Some(0) }),
        false,
        true,  // the log also says connected: the exit still wins
        0,
    );
    assert!(matches!(outcome, TickOutcome::ChildExited(_)));
    assert!(matches!(session.state, ConnectionState::Disconnected));
    assert!(session.child.is_none());
}

#[test]
fn cleanup_is_not_repeated_once_cleared() {
    let mut session = connecting_session(TunnelMode::Tun, true);
    let outcome = session.reconcile(None, false, true, 0);
    assert!(matches!(
        outcome,
        TickOutcome::Connected { apply_proxy: false, apply_dns: true }
    ));
    session.set_connected_status(false, String::new(), Some(String::from("systemd-resolved")));
    assert!(session.dns_override.is_some());

    // first disconnect clears the override exactly once
    let first = session.disconnect_request(None, 1_000);
    match first {
        DisconnectOutcome::SignalChild(actions) => {
            assert!(actions.clear_dns);
            assert!(!actions.clear_proxy);
        }
        other => panic!("unexpected outcome: {other:?}"),
    }
    assert!(session.dns_override.is_none());

    // a later exit (or emergency pass) has nothing left to clear
    let second = session.reconcile(Some(ChildExit { code: Some(0) }), false, false, 2_000);
    match second {
        TickOutcome::ChildExited(actions) => {
            assert!(!actions.clear_dns);
            assert!(!actions.clear_proxy);
        }
        other => panic!("unexpected outcome: {other:?}"),
    }
    let third = session.shutdown();
    assert!(!third.clear_dns);
    assert!(!third.clear_proxy);
    assert!(!third.kill_child);
}

#[test]
fn tunnel_connect_roundtrip() {
    let mut session = connecting_session(TunnelMode::Tun, true);
    assert!(matches!(session.state, ConnectionState::Connecting));

    // the reader thread feeds the process log; the tick reads its flags
    let mut log = ProcessLog::new();
    log.push_line(String::from("socks listener started"));
    assert!(log.connected);

    let outcome = session.reconcile(None, log.error.is_some(), log.connected, 10_000);
    assert!(matches!(
        outcome,
        TickOutcome::Connected { apply_proxy: false, apply_dns: true }
    ));
    assert!(matches!(session.state, ConnectionState::Connected));

    session.set_connected_status(false, String::new(), Some(String::from("systemd-resolved")));
    assert_eq!(
        session.status_detail,
        "TUN tunnel active (system-wide)\nDNS configured via systemd-resolved"
    );

    let outcome = session.disconnect_request(None, 20_000);
    match outcome {
        DisconnectOutcome::SignalChild(actions) => assert!(actions.clear_dns),
        other => panic!("unexpected outcome: {other:?}"),
    }
    assert!(matches!(session.state, ConnectionState::Disconnecting));

    // child exits with code 0 within the timeout
    let outcome = session.reconcile(Some(ChildExit { code: Some(0) }), false, false, 21_000);
    assert!(matches!(outcome, TickOutcome::ChildExited(_)));
    assert!(matches!(session.state, ConnectionState::Disconnected));
    assert!(session.dns_override.is_none());
    assert!(session.child.is_none());
}

#[test]
fn connect_with_missing_binary_fails_fast() {
    let mut session = Session::new(
        String::from("trusttunnel_client"),
        false,
        TunnelMode::Tun,
        true,
    );
    let step = session.connect_request(true, true, &valid_credential());
    assert!(matches!(step, ConnectStep::Rejected));
    assert!(
        matches!(&session.state, ConnectionState::Error(message) if message == "Client binary not found")
    );
    assert!(session.child.is_none());
}

#[test]
fn exit_127_reports_missing_binary() {
    let mut session = connecting_session(TunnelMode::Tun, true);
    let outcome = session.reconcile(Some(ChildExit { code: Some(127) }), false, false, 0);
    assert!(matches!(outcome, TickOutcome::ChildExited(_)));
    assert!(
        matches!(&session.state, ConnectionState::Error(message) if message == "Exited (127)")
    );
    assert!(session.status_detail.contains("Binary 'trusttunnel_client' not found"));
}

#[test]
fn exit_126_reports_dismissed_elevation() {
    let mut session = connecting_session(TunnelMode::Tun, true);
    session.reconcile(Some(ChildExit { code: Some(126) }), false, false, 0);
    assert!(
        matches!(&session.state, ConnectionState::Error(message) if message == "Exited (126)")
    );
    assert!(session.status_detail.contains("pkexec authentication was dismissed"));
}

#[test]
fn signal_exit_reports_signal() {
    let mut session = connecting_session(TunnelMode::Tun, true);
    session.reconcile(Some(ChildExit { code: None }), false, false, 0);
    assert!(
        matches!(&session.state, ConnectionState::Error(message) if message == "Exited (signal)")
    );
    assert_eq!(session.status_detail, "Client exited with code signal");
}

#[test]
fn other_exit_codes_are_reported_verbatim() {
    let mut session = connecting_session(TunnelMode::Tun, true);
    session.reconcile(Some(ChildExit { code: Some(3) }), false, false, 0);
    assert!(matches!(&session.state, ConnectionState::Error(message) if message == "Exited (3)"));
    assert_eq!(session.status_detail, "Client exited with code 3");
}

#[test]
fn connect_phase_error_tears_down_child() {
    let mut session = connecting_session(TunnelMode::Tun, true);
    let outcome = session.reconcile(None, true, false, 0);
    match outcome {
        TickOutcome::ConnectFailed(actions) => assert!(actions.kill_child),
        other => panic!("unexpected outcome: {other:?}"),
    }
    assert!(
        matches!(&session.state, ConnectionState::Error(message) if message == "Connection failed")
    );
    assert!(session.child.is_none());
}

#[test]
fn graceful_disconnect_times_out_after_three_seconds() {
    let mut session = connecting_session(TunnelMode::Tun, true);
    session.reconcile(None, false, true, 0);
    session.set_connected_status(false, String::new(), None);
    session.disconnect_request(None, 1_000);
    assert!(matches!(session.state, ConnectionState::Disconnecting));

    // not yet timed out
    let outcome = session.reconcile(None, false, false, 3_999);
    assert!(matches!(outcome, TickOutcome::Idle));
    assert!(matches!(session.state, ConnectionState::Disconnecting));

    // past the timeout the child is force-killed
    let outcome = session.reconcile(None, false, false, 4_000);
    match outcome {
        TickOutcome::ForceKill(actions) => assert!(actions.kill_child),
        other => panic!("unexpected outcome: {other:?}"),
    }
    assert!(matches!(session.state, ConnectionState::Disconnected));
    assert_eq!(
        session.status_detail,
        "Force disconnected (process did not exit in time)"
    );
}

#[test]
fn disconnect_reaps_an_already_dead_child() {
    let mut session = connecting_session(TunnelMode::Tun, true);
    let outcome = session.disconnect_request(Some(ChildExit { code: Some(0) }), 0);
    assert!(matches!(outcome, DisconnectOutcome::AlreadyExited(_)));
    assert!(matches!(session.state, ConnectionState::Disconnected));
    assert_eq!(session.status_detail, "Client already exited (exit code: 0)");
}

#[test]
fn disconnect_is_ignored_while_disconnecting() {
    let mut session = connecting_session(TunnelMode::Tun, true);
    session.disconnect_request(None, 0);
    assert!(matches!(session.state, ConnectionState::Disconnecting));
    let outcome = session.disconnect_request(None, 100);
    assert!(matches!(outcome, DisconnectOutcome::Ignored));
    assert!(matches!(session.state, ConnectionState::Disconnecting));
    assert!(session.child.is_some());
}

#[test]
fn system_proxy_mode_applies_proxy_on_connect() {
    let mut session = connecting_session(TunnelMode::SystemProxy, false);
    let outcome = session.reconcile(None, false, true, 0);
    assert!(matches!(
        outcome,
        TickOutcome::Connected { apply_proxy: true, apply_dns: false }
    ));
    session.set_connected_status(
        true,
        String::from("System proxy configured via GSettings (SOCKS5 127.0.0.1:1080)"),
        None,
    );
    assert!(session.proxy_active);
    assert!(session.status_detail.starts_with(
        "System proxy active — all apps route through VPN\nSOCKS5 on 127.0.0.1:1080"
    ));
    assert!(session
        .status_detail
        .contains("System proxy configured via GSettings (SOCKS5 127.0.0.1:1080)"));
    assert!(session
        .status_detail
        .ends_with("Proxy will be restored on disconnect or quit"));
}

#[test]
fn tick_evaluates_every_fourth_call() {
    let mut session = Session::new(String::from("bin"), true, TunnelMode::Proxy, false);
    assert!(!session.tick_should_evaluate());
    assert!(!session.tick_should_evaluate());
    assert!(!session.tick_should_evaluate());
    assert!(session.tick_should_evaluate());
    assert!(!session.tick_should_evaluate());
}

#[test]
fn validation_rejects_each_missing_field() {
    let mut session = Session::new(String::from("bin"), true, TunnelMode::Proxy, false);

    let mut credential = valid_credential();
    credential.addresses = Vec::new();
    session.connect_request(true, true, &credential);
    assert!(
        matches!(&session.state, ConnectionState::Error(m) if m == "Address list is required")
    );

    let mut credential = valid_credential();
    credential.hostname = String::new();
    session.connect_request(true, true, &credential);
    assert!(matches!(&session.state, ConnectionState::Error(m) if m == "Hostname is required"));

    let mut credential = valid_credential();
    credential.username = String::new();
    session.connect_request(true, true, &credential);
    assert!(matches!(&session.state, ConnectionState::Error(m) if m == "Username is required"));

    let mut credential = valid_credential();
    credential.password = String::new();
    session.connect_request(true, true, &credential);
    assert!(matches!(&session.state, ConnectionState::Error(m) if m == "Password is required"));
}

#[test]
fn tun_preconditions_are_checked_in_order() {
    let mut session = Session::new(String::from("bin"), true, TunnelMode::Tun, true);
    session.connect_request(false, true, &valid_credential());
    assert!(
        matches!(&session.state, ConnectionState::Error(m) if m == "TUN device not available")
    );

    let mut session = Session::new(String::from("bin"), true, TunnelMode::Tun, true);
    session.connect_request(true, false, &valid_credential());
    assert!(
        matches!(&session.state, ConnectionState::Error(m) if m == "Privilege elevation unavailable")
    );

    // proxy modes need neither
    let mut session = Session::new(String::from("bin"), true, TunnelMode::Proxy, true);
    let step = session.connect_request(false, false, &valid_credential());
    assert!(matches!(step, ConnectStep::Proceed));
}

#[test]
fn spawn_failure_reports_remediation() {
    let mut session = Session::new(String::from("bin"), true, TunnelMode::Proxy, false);
    session.connect_request(true, true, &valid_credential());
    session.connect_launch();
    session.spawn_failed(String::from("No such file or directory"));
    assert!(
        matches!(&session.state, ConnectionState::Error(m) if m == "Failed to start client")
    );
    assert!(session
        .status_detail
        .starts_with("Could not start TrustTunnel client: No such file or directory"));
    assert!(session.status_detail.contains("Install the TrustTunnel client"));
}

#[test]
fn terminate_plan_prefers_the_graceful_signal() {
    assert_eq!(terminate_plan(false, true), TerminatePlan::Signal);
    assert_eq!(terminate_plan(true, true), TerminatePlan::ForceKill);
    assert_eq!(terminate_plan(false, false), TerminatePlan::ForceKill);
}

#[test]
fn child_exit_descriptions() {
    assert!(ChildExit { code: Some(0) }.success());
    assert!(!ChildExit { code: Some(1) }.success());
    assert!(!ChildExit { code: None }.success());
    assert_eq!(ChildExit { code: Some(17) }.describe(), "exit code: 17");
    assert_eq!(ChildExit { code: None }.describe(), "terminated by signal");
}

#[test]
fn shutdown_reports_what_to_tear_down() {
    let mut session = connecting_session(TunnelMode::Tun, true);
    let actions = session.shutdown();
    assert!(actions.kill_child);
    assert!(!actions.clear_proxy);
    assert!(!actions.clear_dns);
    assert!(session.child.is_none());
    // state is untouched; the process is about to exit anyway
    assert!(matches!(session.state, ConnectionState::Connecting));
}
