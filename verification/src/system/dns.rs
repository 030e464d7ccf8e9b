//! DNS override decisions: backend selection, the resolver command text,
//! and the outcome messages. Exactly one backend is selected, in a fixed
//! priority order; running the resolver commands is the caller's side.

use vstd::prelude::*;
use vstd::string::{StrSliceExecFns, StringExecFns};
use crate::chars::{join_strings, spec_join, spec_split, split_char};

verus! {

/// The resolver managers the override can go through, in priority order.
#[derive(Clone, Copy, Debug, PartialEq, Eq, Structural)]
pub enum DnsBackendKind {
    Resolved,
    Resolvconf,
}

/// Select the DNS backend: systemd-resolved when active, else resolvconf
/// when installed, else none.
pub fn detect(resolved_available: bool, resolvconf_available: bool) -> (r: Option<DnsBackendKind>)
    ensures
        r == if resolved_available {
            Some(DnsBackendKind::Resolved)
        } else if resolvconf_available {
            Some(DnsBackendKind::Resolvconf)
        } else {
            None::<DnsBackendKind>
        },
{
    if resolved_available {
        Some(DnsBackendKind::Resolved)
    } else if resolvconf_available {
        Some(DnsBackendKind::Resolvconf)
    } else {
        None
    }
}

/// The fallback upstream servers when the user supplies none.
pub fn default_dns_servers() -> (r: Vec<String>)
    ensures
        r.deep_view() == seq!["1.1.1.1"@, "1.0.0.1"@],
{
    let mut v: Vec<String> = Vec::new();
    v.push(String::from_str("1.1.1.1"));
    v.push(String::from_str("1.0.0.1"));
    proof {
        assert(v.deep_view() =~= seq!["1.1.1.1"@, "1.0.0.1"@]);
    }
    v
}

/// The servers an override actually uses: the defaults when the caller
/// supplies none.
pub fn effective_dns_servers(upstreams: Vec<String>) -> (r: Vec<String>)
    ensures
        r.deep_view() == if upstreams.deep_view().len() == 0 {
            seq!["1.1.1.1"@, "1.0.0.1"@]
        } else {
            upstreams.deep_view()
        },
{
    if upstreams.len() == 0 {
        default_dns_servers()
    } else {
        upstreams
    }
}

/// One `nameserver` line per server, as resolvconf reads on stdin.
pub fn resolvconf_stdin(servers: &Vec<String>) -> (r: String)
    ensures
        r@ == spec_join(
            Seq::new(servers.deep_view().len(), |i: int| "nameserver "@ + servers.deep_view()[i]),
            "\n"@,
        ),
{
    let n = servers.len();
    let mut lines: Vec<String> = Vec::new();
    let mut i: usize = 0;
    while i < n
        invariant
            n == servers@.len(),
            i <= n,
            lines@.len() == i,
            forall|j: int|
                0 <= j < i ==> (#[trigger] lines@[j])@ == "nameserver "@ + servers.deep_view()[j],
        decreases n - i,
    {
        let mut line = String::from_str("nameserver ");
        line.append(servers[i].as_str());
        lines.push(line);
        i = i + 1;
    }
    proof {
        assert(lines.deep_view() =~= Seq::new(
            servers.deep_view().len(),
            |i: int| "nameserver "@ + servers.deep_view()[i],
        ));
    }
    join_strings(&lines, "\n")
}

/// The text single-quoted for a POSIX shell: every quote closed, escaped
/// and reopened.
pub fn shell_single_quote_escape(s: &str) -> (r: String)
    ensures
        r@ == spec_join(spec_split(s@, '\''), "'\\''"@),
{
    let pieces = split_char(s, '\'');
    join_strings(&pieces, "'\\''")
}

/// The pipeline that feeds resolvconf under pkexec, which passes no
/// stdin through.
pub fn resolvconf_elevated_command(stdin_content: &str) -> (r: String)
    ensures
        r@ == "printf '%s\\n' '"@ + spec_join(spec_split(stdin_content@, '\''), "'\\''"@)
            + "' | resolvconf -a tun-trusttunnel -m 0 -x"@,
{
    let escaped = shell_single_quote_escape(stdin_content);
    let mut r = String::from_str("printf '%s\\n' '");
    r.append(escaped.as_str());
    r.append("' | resolvconf -a tun-trusttunnel -m 0 -x");
    proof {
        assert(r@ =~= "printf '%s\\n' '"@ + spec_join(spec_split(stdin_content@, '\''), "'\\''"@)
            + "' | resolvconf -a tun-trusttunnel -m 0 -x"@);
    }
    r
}

/// What a resolvconf attempt reports: the direct run wins, the elevated
/// retry is second, and failure of both is an error naming them.
pub fn resolvconf_set_outcome(direct_ok: bool, elevated_ok: bool, servers: &Vec<String>) -> (r:
    Result<String, String>)
    ensures
        direct_ok ==> (r matches Ok(detail) && detail@ == "DNS configured via resolvconf ("@
            + spec_join(servers.deep_view(), ", "@) + ")"@),
        !direct_ok && elevated_ok ==> (r matches Ok(detail) && detail@
            == "DNS configured via resolvconf with pkexec ("@ + spec_join(
            servers.deep_view(),
            ", "@,
        ) + ")"@),
        !direct_ok && !elevated_ok ==> (r matches Err(detail) && detail@
            == "Failed to set DNS via resolvconf (tried both direct and pkexec)"@),
{
    let listed = join_strings(servers, ", ");
    if direct_ok {
        let mut detail = String::from_str("DNS configured via resolvconf (");
        detail.append(listed.as_str());
        detail.append(")");
        Ok(detail)
    } else if elevated_ok {
        let mut detail = String::from_str("DNS configured via resolvconf with pkexec (");
        detail.append(listed.as_str());
        detail.append(")");
        Ok(detail)
    } else {
        Err(String::from_str("Failed to set DNS via resolvconf (tried both direct and pkexec)"))
    }
}

/// What a systemd-resolved attempt reports: no interface means nothing
/// was changed; a failed resolvectl run names the interface; success
/// names the interface and the servers.
pub fn resolved_set_outcome(
    interface: Option<&str>,
    dns_command_ok: bool,
    servers: &Vec<String>,
) -> (r: Result<String, String>)
    ensures
        interface is None ==> (r matches Err(detail) && detail@
            == "DNS via systemd-resolved: no TUN interface found"@),
        interface is Some && !dns_command_ok ==> (r matches Err(detail) && detail@
            == "Failed to set DNS servers on "@ + interface->0@ + " via resolvectl"@),
        interface is Some && dns_command_ok ==> (r matches Ok(detail) && detail@
            == "DNS configured via systemd-resolved on "@ + interface->0@ + " ("@ + spec_join(
            servers.deep_view(),
            ", "@,
        ) + ")"@),
{
    match interface {
        None => Err(String::from_str("DNS via systemd-resolved: no TUN interface found")),
        Some(name) => {
            if !dns_command_ok {
                let mut detail = String::from_str("Failed to set DNS servers on ");
                detail.append(name);
                detail.append(" via resolvectl");
                Err(detail)
            } else {
                let listed = join_strings(servers, ", ");
                let mut detail = String::from_str("DNS configured via systemd-resolved on ");
                detail.append(name);
                detail.append(" (");
                detail.append(listed.as_str());
                detail.append(")");
                proof {
                    assert(detail@ =~= "DNS configured via systemd-resolved on "@ + name@ + " ("@
                        + spec_join(servers.deep_view(), ", "@) + ")"@);
                }
                Ok(detail)
            }
        },
    }
}

/// The PowerShell `-ServerAddresses` argument: the servers single-quoted
/// and comma-separated.
pub fn powershell_server_argument(servers: &Vec<String>) -> (r: String)
    ensures
        r@ == "'"@ + spec_join(servers.deep_view(), "','"@) + "'"@,
{
    let listed = join_strings(servers, "','");
    let mut r = String::from_str("'");
    r.append(listed.as_str());
    r.append("'");
    proof {
        assert(r@ =~= "'"@ + spec_join(servers.deep_view(), "','"@) + "'"@);
    }
    r
}

/// What a PowerShell attempt reports.
pub fn powershell_set_outcome(command_ok: bool, servers: &Vec<String>) -> (r: Result<
    String,
    String,
>)
    ensures
        command_ok ==> (r matches Ok(detail) && detail@ == "DNS configured via PowerShell ("@
            + spec_join(servers.deep_view(), ","@) + ")"@),
        !command_ok ==> (r matches Err(detail) && detail@
            == "Failed to set DNS via PowerShell (may require administrator privileges)"@),
{
    if command_ok {
        let listed = join_strings(servers, ",");
        let mut detail = String::from_str("DNS configured via PowerShell (");
        detail.append(listed.as_str());
        detail.append(")");
        Ok(detail)
    } else {
        Err(
            String::from_str(
                "Failed to set DNS via PowerShell (may require administrator privileges)",
            ),
        )
    }
}

/// The first non-empty piece, if any.
pub open spec fn spec_first_nonempty(pieces: Seq<Seq<char>>) -> Option<Seq<char>>
    decreases pieces.len(),
{
    if pieces.len() == 0 {
        None
    } else if pieces[0].len() == 0 {
        spec_first_nonempty(pieces.skip(1))
    } else {
        Some(pieces[0])
    }
}

/// The second non-empty piece, if any.
pub open spec fn spec_second_nonempty(pieces: Seq<Seq<char>>) -> Option<Seq<char>>
    decreases pieces.len(),
{
    if pieces.len() == 0 {
        None
    } else if pieces[0].len() == 0 {
        spec_second_nonempty(pieces.skip(1))
    } else {
        spec_first_nonempty(pieces.skip(1))
    }
}

/// The interface name in one line of `ip -o link show type tun` output:
/// the second whitespace-separated field, with trailing colons removed.
pub open spec fn spec_interface_in_line(line: Seq<char>) -> Option<Seq<char>> {
    match spec_second_nonempty(spec_split(line, ' ')) {
        Some(field) => Some(crate::chars::spec_trim_end_matching(field, ':')),
        None => None,
    }
}

/// Extract the interface name from one output line.
pub fn interface_in_line(line: &str) -> (r: Option<String>)
    ensures
        r is Some <==> spec_interface_in_line(line@) is Some,
        r matches Some(name) ==> Some(name@) == spec_interface_in_line(line@),
{
    let pieces = split_char(line, ' ');
    let ghost full = spec_split(line@, ' ');
    let n = pieces.len();
    let mut one_seen = false;
    let mut i: usize = 0;
    proof {
        assert(full.skip(0) =~= full);
    }
    while i < n
        invariant
            n == pieces@.len(),
            pieces.deep_view() == full,
            full == spec_split(line@, ' '),
            i <= n,
            !one_seen ==> spec_second_nonempty(full) == spec_second_nonempty(
                full.skip(i as int),
            ),
            one_seen ==> spec_second_nonempty(full) == spec_first_nonempty(full.skip(i as int)),
        decreases n - i,
    {
        proof {
            assert(full[i as int] == pieces@[i as int]@);
            assert(full.skip(i as int)[0] == full[i as int]);
            assert(full.skip(i as int).skip(1) =~= full.skip(i + 1));
        }
        if !pieces[i].as_str().is_empty() {
            if one_seen {
                return Some(crate::chars::trim_end_char(pieces[i].as_str(), ':'));
            }
            one_seen = true;
        }
        i = i + 1;
    }
    proof {
        assert(full.skip(n as int) =~= Seq::<Seq<char>>::empty());
    }
    None
}

} // verus!
