//! The session controller: the connection state machine that owns the
//! child-process handle and the active proxy/DNS overrides, and decides
//! every transition. All outside work (spawning, killing, applying system
//! settings) is returned to the caller as explicit actions; the results
//! come back as plain values.

use vstd::prelude::*;
use vstd::string::StringExecFns;
use crate::config::{CredentialFile, TunnelMode};
use crate::digits::{i32_to_string, int_str};
use crate::state::ConnectionState;

verus! {

/// How long a graceful disconnect may take before the child is killed.
pub const GRACEFUL_SHUTDOWN_TIMEOUT_MILLIS: u64 = 3000;

/// An observed child exit: the exit code, or `None` for death by signal.
#[derive(Clone, Copy, Debug)]
pub struct ChildExit {
    pub code: Option<i32>,
}

/// How a child exit is described to the user.
pub open spec fn spec_exit_describe(e: ChildExit) -> Seq<char> {
    match e.code {
        Some(c) => "exit code: "@ + int_str(c as int),
        None => "terminated by signal"@,
    }
}

impl ChildExit {
    pub fn success(&self) -> (r: bool)
        ensures
            r == (self.code == Some(0i32)),
    {
        match self.code {
            Some(c) => c == 0,
            None => false,
        }
    }

    pub fn describe(&self) -> (r: String)
        ensures
            r@ == spec_exit_describe(*self),
    {
        match self.code {
            Some(c) => {
                let digits = i32_to_string(c);
                String::from_str("exit code: ").concat(digits.as_str())
            },
            None => String::from_str("terminated by signal"),
        }
    }
}

/// The controller's record of the child it owns. The OS handle itself
/// lives with the caller; the controller tracks existence and kind.
#[derive(Clone, Copy, Debug, PartialEq, Eq, Structural)]
pub struct ChildHandle {
    pub elevated: bool,
}

/// Outside work a transition asks the caller to perform.
#[derive(Clone, Copy, Debug, PartialEq, Eq, Structural)]
pub struct CleanupActions {
    /// Restore the system proxy through every backend that was set.
    pub clear_proxy: bool,
    /// Restore DNS through the backend that was set.
    pub clear_dns: bool,
    /// Kill the owned child (backgrounded, graceful-then-forced).
    pub kill_child: bool,
}

/// Answer to a connect command.
#[derive(Clone, Copy, Debug, PartialEq, Eq, Structural)]
pub enum ConnectStep {
    /// The controller is busy; the command is a no-op.
    Ignored,
    /// A precondition or validation failed; the state carries the error.
    Rejected,
    /// Build the configuration, write it, and spawn the client.
    Proceed,
}

/// Answer to a reconciliation tick.
#[derive(Clone, Copy, Debug, PartialEq, Eq, Structural)]
pub enum TickOutcome {
    Idle,
    /// The child exited; overrides were released.
    ChildExited(CleanupActions),
    /// A connect-phase error was seen; tear the half-started child down.
    ConnectFailed(CleanupActions),
    /// The log reported success; apply the requested overrides, then
    /// report back through `set_connected_status`.
    Connected { apply_proxy: bool, apply_dns: bool },
    /// Graceful disconnect timed out; force-kill the child.
    ForceKill(CleanupActions),
}

/// Answer to a disconnect command.
#[derive(Clone, Copy, Debug, PartialEq, Eq, Structural)]
pub enum DisconnectOutcome {
    /// Already disconnecting; the command is a no-op.
    Ignored,
    /// The child had already exited; it was reaped.
    AlreadyExited(CleanupActions),
    /// Send the graceful terminate signal; the tick takes over.
    SignalChild(CleanupActions),
    /// There was no child to stop.
    NoChild(CleanupActions),
}

/// How to deliver a terminate request to a child: elevated children and
/// children without a process id can only be killed outright; the rest
/// get the graceful signal first.
#[derive(Clone, Copy, Debug, PartialEq, Eq, Structural)]
pub enum TerminatePlan {
    ForceKill,
    Signal,
}

pub fn terminate_plan(child_elevated: bool, has_process_id: bool) -> (r: TerminatePlan)
    ensures
        r == if child_elevated || !has_process_id {
            TerminatePlan::ForceKill
        } else {
            TerminatePlan::Signal
        },
{
    if child_elevated || !has_process_id {
        TerminatePlan::ForceKill
    } else {
        TerminatePlan::Signal
    }
}

pub open spec fn spec_install_hint() -> Seq<char> {
    "\n\nInstall the TrustTunnel client:\n  https://github.com/TrustTunnel/TrustTunnelClient"@
}

pub open spec fn spec_binary_missing_detail() -> Seq<char> {
    "Could not find 'trusttunnel_client' in PATH or standard locations."@ + spec_install_hint()
}

pub open spec fn spec_tun_missing_detail() -> Seq<char> {
    "/dev/net/tun not found. Load the tun kernel module:\n  sudo modprobe tun\n\nTo make it persistent, add 'tun' to /etc/modules-load.d/tun.conf"@
}

pub open spec fn spec_elevation_missing_detail() -> Seq<char> {
    "pkexec is required for TUN mode (root privileges needed).\nInstall policykit-1 or try Proxy/System Proxy mode instead."@
}

/// "signal", or the decimal exit code.
pub open spec fn spec_code_label(code: Option<i32>) -> Seq<char> {
    match code {
        Some(c) => int_str(c as int),
        None => "signal"@,
    }
}

/// The short error label after an abnormal exit.
pub open spec fn spec_exit_error_label(code: Option<i32>) -> Seq<char> {
    "Exited ("@ + spec_code_label(code) + ")"@
}

/// The remediation text after an abnormal exit: 126 is a dismissed
/// elevation prompt, 127 a missing binary, anything else is reported
/// verbatim.
pub open spec fn spec_exit_detail(code: Option<i32>, binary_path: Seq<char>) -> Seq<char> {
    if code == Some(126i32) {
        "pkexec authentication was dismissed — try again and authenticate when prompted"@
    } else if code == Some(127i32) {
        "Binary '"@ + binary_path
            + "' not found. Install TrustTunnel client:\n  https://github.com/TrustTunnel/TrustTunnelClient"@
    } else {
        "Client exited with code "@ + spec_code_label(code)
    }
}

/// The user-facing status text once the session is connected.
pub open spec fn spec_connected_status(
    mode: TunnelMode,
    dns_name: Option<Seq<char>>,
    detail: Seq<char>,
) -> Seq<char> {
    match mode {
        TunnelMode::Tun => match dns_name {
            Some(name) => "TUN tunnel active (system-wide)\nDNS configured via "@ + name,
            None => "TUN tunnel active (system-wide)"@,
        },
        TunnelMode::SystemProxy => {
            let base = "System proxy active — all apps route through VPN\nSOCKS5 on 127.0.0.1:1080"@;
            let with_detail = if detail.len() > 0 {
                base + "\n"@ + detail
            } else {
                base
            };
            with_detail + "\nProxy will be restored on disconnect or quit"@
        },
        TunnelMode::Proxy => "SOCKS5 proxy on 127.0.0.1:1080\nTerminal: export ALL_PROXY=\"socks5://127.0.0.1:1080\"\nFirefox: Settings → Network → SOCKS5 Host: 127.0.0.1  Port: 1080\nChromium: --proxy-server=\"socks5://127.0.0.1:1080\""@,
    }
}

/// The session controller.
pub struct Session {
    pub state: ConnectionState,
    pub child: Option<ChildHandle>,
    /// At least one proxy backend currently holds a system-wide setting.
    pub proxy_active: bool,
    /// Name of the DNS backend currently holding an override, if any.
    pub dns_override: Option<String>,
    pub status_detail: String,
    /// When the graceful disconnect began (caller's millisecond clock).
    pub disconnecting_since: Option<u64>,
    pub poll_tick: u32,
    pub binary_path: String,
    pub binary_found: bool,
    pub tunnel_mode: TunnelMode,
    pub dns_enabled: bool,
}

/// The fields a transition never touches.
pub open spec fn spec_same_config(a: Session, b: Session) -> bool {
    &&& a.binary_path == b.binary_path
    &&& a.binary_found == b.binary_found
    &&& a.tunnel_mode == b.tunnel_mode
    &&& a.dns_enabled == b.dns_enabled
}

impl Session {
    /// Structural invariant: states without a session own no child; a
    /// system override can only be live while connected; a graceful
    /// disconnect always has its start time.
    pub open spec fn wf(self) -> bool {
        &&& (self.state is Disconnected || self.state is Error) ==> self.child is None
        &&& (self.proxy_active || self.dns_override is Some) ==> self.state is Connected
        &&& self.state is Disconnecting ==> self.disconnecting_since is Some
    }

    pub fn new(binary_path: String, binary_found: bool, tunnel_mode: TunnelMode, dns_enabled: bool)
        -> (r: Session)
        ensures
            r.wf(),
            r.state is Disconnected,
            r.child is None,
            !r.proxy_active,
            r.dns_override is None,
            r.status_detail@ == Seq::<char>::empty(),
            r.disconnecting_since is None,
            r.poll_tick == 0,
            r.binary_path == binary_path,
            r.binary_found == binary_found,
            r.tunnel_mode == tunnel_mode,
            r.dns_enabled == dns_enabled,
    {
        Session {
            state: ConnectionState::Disconnected,
            child: None,
            proxy_active: false,
            dns_override: None,
            status_detail: String::new(),
            disconnecting_since: None,
            poll_tick: 0,
            binary_path,
            binary_found,
            tunnel_mode,
            dns_enabled,
        }
    }

    /// A connect command: a no-op while a session is active; otherwise
    /// check the preconditions and the credential, and either set the
    /// error state or tell the caller to build, write and spawn.
    pub fn connect_request(
        &mut self,
        tun_device_ok: bool,
        elevation_ok: bool,
        credential: &CredentialFile,
    ) -> (r: ConnectStep)
        requires
            old(self).wf(),
        ensures
            final(self).wf(),
            spec_same_config(*final(self), *old(self)),
            final(self).child == old(self).child,
            final(self).proxy_active == old(self).proxy_active,
            final(self).dns_override == old(self).dns_override,
            final(self).poll_tick == old(self).poll_tick,
            final(self).disconnecting_since == old(self).disconnecting_since,
            // A connect while busy changes nothing at all.
            (old(self).state is Connecting || old(self).state is Connected || old(
                self,
            ).state is Disconnecting) ==> r is Ignored && *final(self) == *old(self),
            !(old(self).state is Connecting || old(self).state is Connected || old(
                self,
            ).state is Disconnecting) ==> {
                if !old(self).binary_found {
                    &&& r is Rejected
                    &&& final(self).state matches ConnectionState::Error(m) && m@
                        == "Client binary not found"@
                    &&& final(self).status_detail@ == spec_binary_missing_detail()
                } else if old(self).tunnel_mode is Tun && !tun_device_ok {
                    &&& r is Rejected
                    &&& final(self).state matches ConnectionState::Error(m) && m@
                        == "TUN device not available"@
                    &&& final(self).status_detail@ == spec_tun_missing_detail()
                } else if old(self).tunnel_mode is Tun && !elevation_ok {
                    &&& r is Rejected
                    &&& final(self).state matches ConnectionState::Error(m) && m@
                        == "Privilege elevation unavailable"@
                    &&& final(self).status_detail@ == spec_elevation_missing_detail()
                } else if !crate::config::spec_credential_valid(*credential) {
                    &&& r is Rejected
                    &&& final(self).state matches ConnectionState::Error(m) && m@
                        == crate::config::spec_validation_label(*credential)
                    &&& final(self).status_detail@ == crate::config::spec_validation_detail(
                        *credential,
                    )
                } else {
                    r is Proceed && *final(self) == *old(self)
                }
            },
    {
        if self.state.is_active() {
            return ConnectStep::Ignored;
        }
        if !self.binary_found {
            self.state = ConnectionState::Error(String::from_str("Client binary not found"));
            let mut detail = String::from_str(
                "Could not find 'trusttunnel_client' in PATH or standard locations.",
            );
            detail.append(
                "\n\nInstall the TrustTunnel client:\n  https://github.com/TrustTunnel/TrustTunnelClient",
            );
            self.status_detail = detail;
            return ConnectStep::Rejected;
        }
        if self.tunnel_mode.is_tun() && !tun_device_ok {
            self.state = ConnectionState::Error(String::from_str("TUN device not available"));
            self.status_detail = String::from_str(
                "/dev/net/tun not found. Load the tun kernel module:\n  sudo modprobe tun\n\nTo make it persistent, add 'tun' to /etc/modules-load.d/tun.conf",
            );
            return ConnectStep::Rejected;
        }
        if self.tunnel_mode.is_tun() && !elevation_ok {
            self.state = ConnectionState::Error(
                String::from_str("Privilege elevation unavailable"),
            );
            self.status_detail = String::from_str(
                "pkexec is required for TUN mode (root privileges needed).\nInstall policykit-1 or try Proxy/System Proxy mode instead.",
            );
            return ConnectStep::Rejected;
        }
        match credential.validate() {
            Some(issue) => {
                self.state = ConnectionState::Error(issue.label);
                self.status_detail = issue.detail;
                ConnectStep::Rejected
            },
            None => ConnectStep::Proceed,
        }
    }

    /// The configuration could not be serialized; abort the attempt.
    pub fn connect_serialize_failed(&mut self, error_text: String)
        requires
            old(self).wf(),
            old(self).state is Disconnected || old(self).state is Error,
        ensures
            final(self).wf(),
            spec_same_config(*final(self), *old(self)),
            final(self).child is None,
            !final(self).proxy_active,
            final(self).dns_override is None,
            final(self).state matches ConnectionState::Error(m) && m@
                == "Configuration serialization error: "@ + error_text@,
            final(self).status_detail@ == "Configuration serialization error: "@ + error_text@,
    {
        let message = String::from_str("Configuration serialization error: ").concat(
            error_text.as_str(),
        );
        self.status_detail = message.clone();
        self.state = ConnectionState::Error(message);
    }

    /// The configuration file could not be written; abort the attempt.
    pub fn connect_write_failed(&mut self, error_text: String)
        requires
            old(self).wf(),
            old(self).state is Disconnected || old(self).state is Error,
        ensures
            final(self).wf(),
            spec_same_config(*final(self), *old(self)),
            final(self).child is None,
            !final(self).proxy_active,
            final(self).dns_override is None,
            final(self).state matches ConnectionState::Error(m) && m@ == "Failed to write config: "@
                + error_text@,
            final(self).status_detail@ == "Failed to write config: "@ + error_text@,
    {
        let message = String::from_str("Failed to write config: ").concat(error_text.as_str());
        self.status_detail = message.clone();
        self.state = ConnectionState::Error(message);
    }

    /// The configuration is on disk and the log was reset: enter
    /// `Connecting`; the caller spawns the client next.
    pub fn connect_launch(&mut self)
        requires
            old(self).wf(),
            old(self).state is Disconnected || old(self).state is Error,
        ensures
            final(self).wf(),
            spec_same_config(*final(self), *old(self)),
            final(self).state is Connecting,
            final(self).child is None,
            !final(self).proxy_active,
            final(self).dns_override is None,
            final(self).status_detail@ == Seq::<char>::empty(),
            final(self).poll_tick == old(self).poll_tick,
            final(self).disconnecting_since == old(self).disconnecting_since,
    {
        self.state = ConnectionState::Connecting;
        self.status_detail = String::new();
    }

    /// The spawn came back with a live child (direct or elevated).
    pub fn spawn_succeeded(&mut self, elevated: bool)
        requires
            old(self).wf(),
            old(self).state is Connecting,
            old(self).child is None,
        ensures
            final(self).wf(),
            spec_same_config(*final(self), *old(self)),
            final(self).state is Connecting,
            final(self).child == Some(ChildHandle { elevated }),
            final(self).proxy_active == old(self).proxy_active,
            final(self).dns_override == old(self).dns_override,
            final(self).status_detail@ == Seq::<char>::empty(),
            final(self).poll_tick == old(self).poll_tick,
            final(self).disconnecting_since == old(self).disconnecting_since,
    {
        self.child = Some(ChildHandle { elevated });
        self.status_detail = String::new();
    }

    /// The spawn failed; report it with a remediation hint.
    pub fn spawn_failed(&mut self, error_text: String)
        requires
            old(self).wf(),
            old(self).state is Connecting,
            old(self).child is None,
        ensures
            final(self).wf(),
            spec_same_config(*final(self), *old(self)),
            final(self).child is None,
            !final(self).proxy_active,
            final(self).dns_override is None,
            final(self).state matches ConnectionState::Error(m) && m@
                == "Failed to start client"@,
            final(self).status_detail@ == "Could not start TrustTunnel client: "@ + error_text@
                + spec_install_hint(),
    {
        self.state = ConnectionState::Error(String::from_str("Failed to start client"));
        let mut detail = String::from_str("Could not start TrustTunnel client: ");
        detail.append(error_text.as_str());
        detail.append(
            "\n\nInstall the TrustTunnel client:\n  https://github.com/TrustTunnel/TrustTunnelClient",
        );
        proof {
            assert(detail@ =~= "Could not start TrustTunnel client: "@ + error_text@
                + spec_install_hint());
        }
        self.status_detail = detail;
    }

    /// Advance the tick counter; the expensive reconciliation only runs on
    /// every fourth tick.
    pub fn tick_should_evaluate(&mut self) -> (r: bool)
        ensures
            *final(self) == (Session { poll_tick: final(self).poll_tick, ..*old(self) }),
            final(self).poll_tick as int == (old(self).poll_tick as int + 1) % 0x1_0000_0000,
            r == (final(self).poll_tick % 4 == 0),
    {
        self.poll_tick = self.poll_tick.wrapping_add(1);
        self.poll_tick % 4 == 0
    }

    /// One reconciliation step: an observed child exit always wins;
    /// otherwise the state decides what the log flags and the clock mean.
    pub fn reconcile(
        &mut self,
        child_exit: Option<ChildExit>,
        log_error: bool,
        log_connected: bool,
        now_millis: u64,
    ) -> (r: TickOutcome)
        requires
            old(self).wf(),
            child_exit is Some ==> old(self).child is Some,
        ensures
            final(self).wf(),
            spec_same_config(*final(self), *old(self)),
            final(self).poll_tick == old(self).poll_tick,
            // Exit precedence: a dead child is never reported as connected.
            child_exit is Some ==> !(final(self).state is Connected),
            child_exit matches Some(exit) ==> {
                &&& r == TickOutcome::ChildExited(
                    CleanupActions {
                        clear_proxy: old(self).proxy_active,
                        clear_dns: old(self).dns_override is Some,
                        kill_child: false,
                    },
                )
                &&& final(self).child is None
                &&& !final(self).proxy_active
                &&& final(self).dns_override is None
                &&& final(self).disconnecting_since == old(self).disconnecting_since
                &&& (old(self).state is Disconnecting ==> final(self).state is Disconnected
                    && final(self).status_detail@ == Seq::<char>::empty())
                &&& (!(old(self).state is Disconnecting) ==> {
                    if exit.code == Some(0i32) {
                        final(self).state is Disconnected && final(self).status_detail@
                            == Seq::<char>::empty()
                    } else {
                        (final(self).state matches ConnectionState::Error(m) && m@
                            == spec_exit_error_label(exit.code)) && final(self).status_detail@
                            == spec_exit_detail(exit.code, old(self).binary_path@)
                    }
                })
            },
            child_exit is None && old(self).state is Connecting ==> {
                if log_error {
                    &&& r == TickOutcome::ConnectFailed(
                        CleanupActions {
                            clear_proxy: old(self).proxy_active,
                            clear_dns: old(self).dns_override is Some,
                            kill_child: old(self).child is Some,
                        },
                    )
                    &&& final(self).child is None
                    &&& !final(self).proxy_active
                    &&& final(self).dns_override is None
                    &&& final(self).state matches ConnectionState::Error(m) && m@
                        == "Connection failed"@
                    &&& final(self).status_detail@ == Seq::<char>::empty()
                    &&& final(self).disconnecting_since == old(self).disconnecting_since
                } else if log_connected {
                    &&& r == (TickOutcome::Connected {
                        apply_proxy: old(self).tunnel_mode is SystemProxy && !old(
                            self,
                        ).proxy_active,
                        apply_dns: old(self).dns_enabled && old(self).tunnel_mode is Tun && old(
                            self,
                        ).dns_override is None,
                    })
                    &&& final(self).state is Connected
                    &&& final(self).child == old(self).child
                    &&& final(self).proxy_active == old(self).proxy_active
                    &&& final(self).dns_override == old(self).dns_override
                    &&& final(self).status_detail == old(self).status_detail
                    &&& final(self).disconnecting_since == old(self).disconnecting_since
                } else {
                    &&& r is Idle
                    &&& final(self).state is Connecting
                    &&& final(self).child == old(self).child
                    &&& final(self).proxy_active == old(self).proxy_active
                    &&& final(self).dns_override == old(self).dns_override
                    &&& final(self).status_detail@ == Seq::<char>::empty()
                    &&& final(self).disconnecting_since == old(self).disconnecting_since
                }
            },
            child_exit is None && old(self).state is Disconnecting ==> {
                let since = old(self).disconnecting_since->0;
                if since + GRACEFUL_SHUTDOWN_TIMEOUT_MILLIS <= now_millis {
                    &&& r == TickOutcome::ForceKill(
                        CleanupActions {
                            clear_proxy: false,
                            clear_dns: false,
                            kill_child: old(self).child is Some,
                        },
                    )
                    &&& final(self).child is None
                    &&& final(self).state is Disconnected
                    &&& final(self).status_detail@
                        == "Force disconnected (process did not exit in time)"@
                    &&& final(self).proxy_active == old(self).proxy_active
                    &&& final(self).dns_override == old(self).dns_override
                    &&& final(self).disconnecting_since == old(self).disconnecting_since
                } else {
                    r is Idle && *final(self) == *old(self)
                }
            },
            child_exit is None && !(old(self).state is Connecting) && !(old(
                self,
            ).state is Disconnecting) ==> r is Idle && *final(self) == *old(self),
    {
        if let Some(exit) = child_exit {
            let actions = CleanupActions {
                clear_proxy: self.proxy_active,
                clear_dns: self.dns_override.is_some(),
                kill_child: false,
            };
            self.child = None;
            self.proxy_active = false;
            self.dns_override = None;
            if matches!(self.state, ConnectionState::Disconnecting) {
                self.state = ConnectionState::Disconnected;
                self.status_detail = String::new();
            } else if exit.success() {
                self.state = ConnectionState::Disconnected;
                self.status_detail = String::new();
            } else {
                let code_label = match exit.code {
                    Some(c) => i32_to_string(c),
                    None => String::from_str("signal"),
                };
                let mut label = String::from_str("Exited (");
                label.append(code_label.as_str());
                label.append(")");
                proof {
                    assert(label@ =~= spec_exit_error_label(exit.code));
                }
                let is_126 = match exit.code {
                    Some(c) => c == 126,
                    None => false,
                };
                let is_127 = match exit.code {
                    Some(c) => c == 127,
                    None => false,
                };
                if is_126 {
                    self.status_detail = String::from_str(
                        "pkexec authentication was dismissed — try again and authenticate when prompted",
                    );
                } else if is_127 {
                    let mut detail = String::from_str("Binary '");
                    detail.append(self.binary_path.as_str());
                    detail.append(
                        "' not found. Install TrustTunnel client:\n  https://github.com/TrustTunnel/TrustTunnelClient",
                    );
                    proof {
                        assert(detail@ =~= spec_exit_detail(exit.code, old(self).binary_path@));
                    }
                    self.status_detail = detail;
                } else {
                    let detail = String::from_str("Client exited with code ").concat(
                        code_label.as_str(),
                    );
                    self.status_detail = detail;
                }
                self.state = ConnectionState::Error(label);
            }
            return TickOutcome::ChildExited(actions);
        }
        match self.state {
            ConnectionState::Connecting => {
                if log_error {
                    let actions = CleanupActions {
                        clear_proxy: self.proxy_active,
                        clear_dns: self.dns_override.is_some(),
                        kill_child: self.child.is_some(),
                    };
                    self.child = None;
                    self.proxy_active = false;
                    self.dns_override = None;
                    self.state = ConnectionState::Error(String::from_str("Connection failed"));
                    self.status_detail = String::new();
                    TickOutcome::ConnectFailed(actions)
                } else if log_connected {
                    self.state = ConnectionState::Connected;
                    TickOutcome::Connected {
                        apply_proxy: self.tunnel_mode.sets_system_proxy() && !self.proxy_active,
                        apply_dns: self.dns_enabled && self.tunnel_mode.is_tun()
                            && self.dns_override.is_none(),
                    }
                } else {
                    self.status_detail = String::new();
                    TickOutcome::Idle
                }
            },
            ConnectionState::Disconnecting => {
                let since = match self.disconnecting_since {
                    Some(t) => t,
                    None => 0,  // unreachable under wf
                };
                let timed_out = now_millis >= GRACEFUL_SHUTDOWN_TIMEOUT_MILLIS && since
                    <= now_millis - GRACEFUL_SHUTDOWN_TIMEOUT_MILLIS;
                if timed_out {
                    let actions = CleanupActions {
                        clear_proxy: false,
                        clear_dns: false,
                        kill_child: self.child.is_some(),
                    };
                    self.child = None;
                    self.state = ConnectionState::Disconnected;
                    self.status_detail = String::from_str(
                        "Force disconnected (process did not exit in time)",
                    );
                    TickOutcome::ForceKill(actions)
                } else {
                    TickOutcome::Idle
                }
            },
            _ => TickOutcome::Idle,
        }
    }

    /// Record the results of applying the overrides after the transition
    /// to `Connected`, and compose the status text.
    pub fn set_connected_status(
        &mut self,
        proxy_applied: bool,
        proxy_detail: String,
        dns_name: Option<String>,
    )
        requires
            old(self).wf(),
            old(self).state is Connected,
        ensures
            final(self).wf(),
            spec_same_config(*final(self), *old(self)),
            final(self).state is Connected,
            final(self).child == old(self).child,
            final(self).poll_tick == old(self).poll_tick,
            final(self).disconnecting_since == old(self).disconnecting_since,
            final(self).proxy_active == (old(self).proxy_active || proxy_applied),
            final(self).dns_override == if dns_name is Some {
                dns_name
            } else {
                old(self).dns_override
            },
            final(self).status_detail@ == spec_connected_status(
                old(self).tunnel_mode,
                final(self).dns_override.deep_view(),
                proxy_detail@,
            ),
    {
        self.proxy_active = self.proxy_active || proxy_applied;
        if dns_name.is_some() {
            self.dns_override = dns_name;
        }
        let status = match self.tunnel_mode {
            TunnelMode::Tun => {
                match &self.dns_override {
                    Some(name) => {
                        let s = String::from_str(
                            "TUN tunnel active (system-wide)\nDNS configured via ",
                        ).concat(name.as_str());
                        s
                    },
                    None => String::from_str("TUN tunnel active (system-wide)"),
                }
            },
            TunnelMode::SystemProxy => {
                let mut s = String::from_str(
                    "System proxy active — all apps route through VPN\nSOCKS5 on 127.0.0.1:1080",
                );
                if !proxy_detail.as_str().is_empty() {
                    s.append("\n");
                    s.append(proxy_detail.as_str());
                }
                s.append("\nProxy will be restored on disconnect or quit");
                proof {
                    assert(s@ =~= spec_connected_status(
                        self.tunnel_mode,
                        self.dns_override.deep_view(),
                        proxy_detail@,
                    ));
                }
                s
            },
            TunnelMode::Proxy => String::from_str(
                "SOCKS5 proxy on 127.0.0.1:1080\nTerminal: export ALL_PROXY=\"socks5://127.0.0.1:1080\"\nFirefox: Settings → Network → SOCKS5 Host: 127.0.0.1  Port: 1080\nChromium: --proxy-server=\"socks5://127.0.0.1:1080\"",
            ),
        };
        self.status_detail = status;
    }

    /// A disconnect command: a no-op while already disconnecting;
    /// otherwise release the overrides at once, then either reap the
    /// already-dead child, begin a graceful shutdown, or simply return
    /// to `Disconnected`.
    pub fn disconnect_request(&mut self, child_exit: Option<ChildExit>, now_millis: u64) -> (r:
        DisconnectOutcome)
        requires
            old(self).wf(),
            child_exit is Some ==> old(self).child is Some,
        ensures
            final(self).wf(),
            spec_same_config(*final(self), *old(self)),
            final(self).poll_tick == old(self).poll_tick,
            // A disconnect while already disconnecting changes nothing.
            old(self).state is Disconnecting ==> r is Ignored && *final(self) == *old(self),
            !(old(self).state is Disconnecting) ==> {
                &&& !final(self).proxy_active
                &&& final(self).dns_override is None
                &&& {
                    let acts = CleanupActions {
                        clear_proxy: old(self).proxy_active,
                        clear_dns: old(self).dns_override is Some,
                        kill_child: false,
                    };
                    if old(self).child is None {
                        &&& r == DisconnectOutcome::NoChild(acts)
                        &&& final(self).state is Disconnected
                        &&& final(self).child is None
                        &&& final(self).status_detail@ == Seq::<char>::empty()
                        &&& final(self).disconnecting_since == old(self).disconnecting_since
                    } else if child_exit is Some {
                        &&& r == DisconnectOutcome::AlreadyExited(acts)
                        &&& final(self).state is Disconnected
                        &&& final(self).child is None
                        &&& final(self).status_detail@ == "Client already exited ("@
                            + spec_exit_describe(child_exit->0) + ")"@
                        &&& final(self).disconnecting_since == old(self).disconnecting_since
                    } else {
                        &&& r == DisconnectOutcome::SignalChild(acts)
                        &&& final(self).state is Disconnecting
                        &&& final(self).child == old(self).child
                        &&& final(self).status_detail@ == Seq::<char>::empty()
                        &&& final(self).disconnecting_since == Some(now_millis)
                    }
                }
            },
    {
        if matches!(self.state, ConnectionState::Disconnecting) {
            return DisconnectOutcome::Ignored;
        }
        let actions = CleanupActions {
            clear_proxy: self.proxy_active,
            clear_dns: self.dns_override.is_some(),
            kill_child: false,
        };
        self.proxy_active = false;
        self.dns_override = None;
        if self.child.is_none() {
            self.state = ConnectionState::Disconnected;
            self.status_detail = String::new();
            return DisconnectOutcome::NoChild(actions);
        }
        if let Some(exit) = child_exit {
            self.child = None;
            self.state = ConnectionState::Disconnected;
            let described = exit.describe();
            let mut detail = String::from_str("Client already exited (");
            detail.append(described.as_str());
            detail.append(")");
            proof {
                assert(detail@ =~= "Client already exited ("@ + spec_exit_describe(exit) + ")"@);
            }
            self.status_detail = detail;
            return DisconnectOutcome::AlreadyExited(actions);
        }
        self.state = ConnectionState::Disconnecting;
        self.status_detail = String::new();
        self.disconnecting_since = Some(now_millis);
        DisconnectOutcome::SignalChild(actions)
    }

    /// Best-effort teardown on quit or drop: release the overrides and
    /// give up the child for the caller to kill. Safe to call in any
    /// state, and again after itself.
    pub fn shutdown(&mut self) -> (r: CleanupActions)
        requires
            old(self).wf(),
        ensures
            final(self).wf(),
            spec_same_config(*final(self), *old(self)),
            r == (CleanupActions {
                clear_proxy: old(self).proxy_active,
                clear_dns: old(self).dns_override is Some,
                kill_child: old(self).child is Some,
            }),
            final(self).child is None,
            !final(self).proxy_active,
            final(self).dns_override is None,
            final(self).state == old(self).state,
            final(self).status_detail == old(self).status_detail,
            final(self).poll_tick == old(self).poll_tick,
            final(self).disconnecting_since == old(self).disconnecting_since,
    {
        let actions = CleanupActions {
            clear_proxy: self.proxy_active,
            clear_dns: self.dns_override.is_some(),
            kill_child: self.child.is_some(),
        };
        self.proxy_active = false;
        self.dns_override = None;
        self.child = None;
        actions
    }
}

} // verus!
