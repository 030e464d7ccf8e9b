//! System-proxy decisions: which configuration stores apply on this
//! desktop, and the setting and status texts. Several backends may apply
//! at once; writing the stores is the caller's side.

use vstd::prelude::*;
use vstd::string::StringExecFns;
use crate::chars::{join_strings, spec_join, spec_split, split_char, str_eq};
use crate::digits::{dec_str, u64_to_string};

verus! {

/// The proxy configuration stores the override can go through.
#[derive(Clone, Copy, Debug, PartialEq, Eq, Structural)]
pub enum ProxyBackendKind {
    Gnome,
    Kde,
}

pub open spec fn spec_is_gnome_name(piece: Seq<char>) -> bool {
    ||| piece == "GNOME"@
    ||| piece == "Unity"@
    ||| piece == "Cinnamon"@
    ||| piece == "X-Cinnamon"@
    ||| piece == "MATE"@
    ||| piece == "Budgie"@
    ||| piece == "Pantheon"@
}

pub open spec fn spec_is_kde_name(piece: Seq<char>) -> bool {
    piece == "KDE"@ || piece == "Trinity"@
}

/// Some colon-separated component of the desktop name is GNOME-based.
pub open spec fn spec_gnome_desktop(desktop: Seq<char>) -> bool {
    exists|i: int|
        0 <= i < spec_split(desktop, ':').len() && spec_is_gnome_name(
            #[trigger] spec_split(desktop, ':')[i],
        )
}

/// Some colon-separated component of the desktop name is KDE-based.
pub open spec fn spec_kde_desktop(desktop: Seq<char>) -> bool {
    exists|i: int|
        0 <= i < spec_split(desktop, ':').len() && spec_is_kde_name(
            #[trigger] spec_split(desktop, ':')[i],
        )
}

fn is_gnome_name(piece: &str) -> (r: bool)
    ensures
        r == spec_is_gnome_name(piece@),
{
    str_eq(piece, "GNOME") || str_eq(piece, "Unity") || str_eq(piece, "Cinnamon") || str_eq(
        piece,
        "X-Cinnamon",
    ) || str_eq(piece, "MATE") || str_eq(piece, "Budgie") || str_eq(piece, "Pantheon")
}

/// The GSettings backend applies on GNOME-based desktops (the value of
/// the desktop-environment variable, colon-separated).
pub fn gnome_desktop_matches(desktop: &str) -> (r: bool)
    ensures
        r == spec_gnome_desktop(desktop@),
{
    let pieces = split_char(desktop, ':');
    let n = pieces.len();
    let mut i: usize = 0;
    while i < n
        invariant
            n == pieces@.len(),
            pieces.deep_view() == spec_split(desktop@, ':'),
            i <= n,
            forall|j: int|
                0 <= j < i ==> !spec_is_gnome_name(#[trigger] spec_split(desktop@, ':')[j]),
        decreases n - i,
    {
        proof {
            assert(pieces.deep_view()[i as int] == pieces@[i as int]@);
        }
        if is_gnome_name(pieces[i].as_str()) {
            return true;
        }
        i = i + 1;
    }
    false
}

/// The KDE KIO backend applies on KDE-based desktops.
pub fn kde_desktop_matches(desktop: &str) -> (r: bool)
    ensures
        r == spec_kde_desktop(desktop@),
{
    let pieces = split_char(desktop, ':');
    let n = pieces.len();
    let mut i: usize = 0;
    while i < n
        invariant
            n == pieces@.len(),
            pieces.deep_view() == spec_split(desktop@, ':'),
            i <= n,
            forall|j: int|
                0 <= j < i ==> !spec_is_kde_name(#[trigger] spec_split(desktop@, ':')[j]),
        decreases n - i,
    {
        proof {
            assert(pieces.deep_view()[i as int] == pieces@[i as int]@);
        }
        if str_eq(pieces[i].as_str(), "KDE") || str_eq(pieces[i].as_str(), "Trinity") {
            return true;
        }
        i = i + 1;
    }
    false
}

/// The applicable proxy backends, GSettings first; both may apply.
pub fn detect(gnome_applies: bool, kde_applies: bool) -> (r: Vec<ProxyBackendKind>)
    ensures
        r@ == {
            let gnome_part: Seq<ProxyBackendKind> = if gnome_applies {
                seq![ProxyBackendKind::Gnome]
            } else {
                Seq::empty()
            };
            let kde_part: Seq<ProxyBackendKind> = if kde_applies {
                seq![ProxyBackendKind::Kde]
            } else {
                Seq::empty()
            };
            gnome_part + kde_part
        },
{
    let mut backends: Vec<ProxyBackendKind> = Vec::new();
    if gnome_applies {
        backends.push(ProxyBackendKind::Gnome);
    }
    if kde_applies {
        backends.push(ProxyBackendKind::Kde);
    }
    proof {
        let gnome_part: Seq<ProxyBackendKind> = if gnome_applies {
            seq![ProxyBackendKind::Gnome]
        } else {
            Seq::empty()
        };
        let kde_part: Seq<ProxyBackendKind> = if kde_applies {
            seq![ProxyBackendKind::Kde]
        } else {
            Seq::empty()
        };
        assert(backends@ =~= gnome_part + kde_part);
    }
    backends
}

/// The detail strings of a setting pass combined for the status text:
/// every backend's answer, success or failure, joined; or the note that
/// no backend applied.
pub fn combine_set_details(details: &Vec<String>) -> (r: String)
    ensures
        details.deep_view().len() == 0 ==> r@ == "No proxy backend available"@,
        details.deep_view().len() > 0 ==> r@ == spec_join(details.deep_view(), "; "@),
{
    if details.len() == 0 {
        String::from_str("No proxy backend available")
    } else {
        join_strings(details, "; ")
    }
}

/// The SOCKS URL a host and port denote.
pub fn socks_proxy_url(host: &str, port: u16) -> (r: String)
    ensures
        r@ == "socks5://"@ + host@ + ":"@ + dec_str(port as nat),
{
    let digits = u64_to_string(port as u64);
    let mut r = String::from_str("socks5://");
    r.append(host);
    r.append(":");
    r.append(digits.as_str());
    proof {
        assert(r@ =~= "socks5://"@ + host@ + ":"@ + dec_str(port as nat));
    }
    r
}

/// What a GSettings pass reports.
pub fn gnome_set_detail(host: &str, port: u16) -> (r: String)
    ensures
        r@ == "System proxy configured via GSettings (SOCKS5 "@ + host@ + ":"@ + dec_str(
            port as nat,
        ) + ")"@,
{
    let digits = u64_to_string(port as u64);
    let mut r = String::from_str("System proxy configured via GSettings (SOCKS5 ");
    r.append(host);
    r.append(":");
    r.append(digits.as_str());
    r.append(")");
    proof {
        assert(r@ =~= "System proxy configured via GSettings (SOCKS5 "@ + host@ + ":"@ + dec_str(
            port as nat,
        ) + ")"@);
    }
    r
}

/// What a KDE KIO pass reports.
pub fn kde_set_detail(host: &str, port: u16) -> (r: String)
    ensures
        r@ == "System proxy configured via KDE KIO (SOCKS5 "@ + host@ + ":"@ + dec_str(
            port as nat,
        ) + ")"@,
{
    let digits = u64_to_string(port as u64);
    let mut r = String::from_str("System proxy configured via KDE KIO (SOCKS5 ");
    r.append(host);
    r.append(":");
    r.append(digits.as_str());
    r.append(")");
    proof {
        assert(r@ =~= "System proxy configured via KDE KIO (SOCKS5 "@ + host@ + ":"@ + dec_str(
            port as nat,
        ) + ")"@);
    }
    r
}

} // verus!
