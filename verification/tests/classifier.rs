use trusttunnel_core::process_log::{classify_log_line, LogLineEvent, ProcessLog};

#[test]
fn connected_line_is_detected() {
    assert_eq!(
        classify_log_line("Successfully connected to endpoint 1.2.3.4", false),
        LogLineEvent::Connected
    );
}

#[test]
fn connect_error_line_is_detected() {
    assert_eq!(
        classify_log_line("Error: failed to bind port", false),
        LogLineEvent::ConnectError
    );
}

#[test]
fn waiting_recovery_guard_suppresses_errors() {
    assert_eq!(
        classify_log_line("waiting recovery: retry in 5s", false),
        LogLineEvent::Normal
    );
    assert_eq!(
        classify_log_line("Error: connection refused, waiting recovery", false),
        LogLineEvent::Normal
    );
}

#[test]
fn classification_is_deterministic() {
    let line = "failed to initialize tunnel";
    assert_eq!(
        classify_log_line(line, false),
        classify_log_line(line, false)
    );
    assert_eq!(classify_log_line(line, false), LogLineEvent::ConnectError);
}

#[test]
fn connected_pattern_variants() {
    assert_eq!(
        classify_log_line("SOCKS listener started", false),
        LogLineEvent::Connected
    );
    assert_eq!(
        classify_log_line("now listening for socks clients", true),
        LogLineEvent::Connected
    );
    assert_eq!(
        classify_log_line("socks bound: bind on 127.0.0.1", false),
        LogLineEvent::Connected
    );
    assert_eq!(
        classify_log_line("Successfully connected", false),
        LogLineEvent::Connected
    );
}

#[test]
fn case_insensitive_matching() {
    assert_eq!(
        classify_log_line("SUCCESSFULLY CONNECTED TO ENDPOINT", false),
        LogLineEvent::Connected
    );
    assert_eq!(
        classify_log_line("Access DENIED by server", false),
        LogLineEvent::ConnectError
    );
}

#[test]
fn connect_errors_only_before_connected() {
    assert_eq!(
        classify_log_line("permission denied", true),
        LogLineEvent::Normal
    );
    assert_eq!(
        classify_log_line("permission denied", false),
        LogLineEvent::ConnectError
    );
}

#[test]
fn post_connect_errors_only_after_connected() {
    assert_eq!(
        classify_log_line("health check error: timeout", true),
        LogLineEvent::PostConnectError
    );
    assert_eq!(
        classify_log_line("health check error: timeout", false),
        LogLineEvent::Normal
    );
    assert_eq!(
        classify_log_line("response: HTTP/2.0 407", true),
        LogLineEvent::PostConnectError
    );
}

#[test]
fn authorization_required_needs_no_proxy_authenticate() {
    assert_eq!(
        classify_log_line("authorization required", true),
        LogLineEvent::PostConnectError
    );
    assert_eq!(
        classify_log_line("authorization required; proxy-authenticate header", true),
        LogLineEvent::Normal
    );
}

#[test]
fn connection_failed_needs_socks() {
    assert_eq!(
        classify_log_line("connection failed on socks stream", true),
        LogLineEvent::PostConnectError
    );
    assert_eq!(
        classify_log_line("connection failed", true),
        LogLineEvent::Normal
    );
}

#[test]
fn ordinary_lines_are_normal() {
    assert_eq!(classify_log_line("starting up", false), LogLineEvent::Normal);
    assert_eq!(classify_log_line("", false), LogLineEvent::Normal);
    assert_eq!(classify_log_line("", true), LogLineEvent::Normal);
}

#[test]
fn error_prefix_must_start_the_line() {
    assert_eq!(
        classify_log_line("error: something broke", false),
        LogLineEvent::ConnectError
    );
    assert_eq!(
        classify_log_line("an error: something broke", false),
        LogLineEvent::Normal
    );
}

#[test]
fn connected_wins_over_error_checks() {
    // a line carrying both a success and an error marker reports success
    assert_eq!(
        classify_log_line("successfully connected after refused attempt", false),
        LogLineEvent::Connected
    );
}

#[test]
fn latch_keeps_first_error() {
    let mut log = ProcessLog::new();
    log.push_line(String::from("Error: first failure"));
    log.push_line(String::from("Error: second failure"));
    assert_eq!(log.error.as_deref(), Some("Error: first failure"));
}

#[test]
fn post_connect_latch_keeps_first() {
    let mut log = ProcessLog::new();
    log.push_line(String::from("socks listener started"));
    log.push_line(String::from("health check error one"));
    log.push_line(String::from("health check error two"));
    assert_eq!(log.post_connect_error.as_deref(), Some("health check error one"));
}

#[test]
fn connected_flag_is_monotonic() {
    let mut log = ProcessLog::new();
    log.push_line(String::from("socks listener started"));
    assert!(log.connected);
    log.push_line(String::from("permission denied"));
    assert!(log.connected);
    log.push_line(String::from("plain line"));
    assert!(log.connected);
}

#[test]
fn reset_clears_everything() {
    let mut log = ProcessLog::new();
    log.push_line(String::from("socks listener started"));
    log.push_line(String::from("health check error"));
    log.reset();
    assert!(log.lines.is_empty());
    assert!(!log.connected);
    assert!(log.error.is_none());
    assert!(log.post_connect_error.is_none());
}

#[test]
fn buffer_keeps_newest_five_hundred() {
    let mut log = ProcessLog::new();
    for i in 0..600 {
        log.push_line(format!("line {i}"));
    }
    assert_eq!(log.lines.len(), 500);
    assert_eq!(log.lines[0], "line 100");
    assert_eq!(log.lines[499], "line 599");
    // order is preserved in between
    assert_eq!(log.lines[250], "line 350");
}

#[test]
fn buffer_keeps_everything_under_capacity() {
    let mut log = ProcessLog::new();
    for i in 0..42 {
        log.push_line(format!("line {i}"));
    }
    assert_eq!(log.lines.len(), 42);
    assert_eq!(log.lines[0], "line 0");
    assert_eq!(log.lines[41], "line 41");
}
