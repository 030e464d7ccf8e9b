//! Pure decisions and text the platform backends are built on. Running
//! commands, reading the environment and touching configuration stores is
//! the caller's side; what to run and what the answers mean is decided
//! here.

pub mod dns;
pub mod proxy;
pub mod windows;

use vstd::prelude::*;
use vstd::string::StrSliceExecFns;
use crate::chars::{
    chars_of, find_char, lemma_first_index_props, lemma_last_index_props, rfind_char,
    spec_first_index, spec_last_index, str_eq,
};
use crate::digits::{all_digits, dec_value, parse_u16_digits};

verus! {

/// The port a listen address denotes when its port text is missing or
/// unusable.
pub const DEFAULT_PROXY_PORT: u16 = 1080;

pub open spec fn spec_port_or_default(s: Seq<char>) -> u16 {
    if s.len() > 0 && all_digits(s) && dec_value(s) <= u16::MAX {
        dec_value(s) as u16
    } else {
        DEFAULT_PROXY_PORT
    }
}

/// How a listen address splits into host and port: `[v6]:port` bracket
/// form first; otherwise the last colon separates host and port, except
/// that a second colon marks a bare IPv6 address with no port at all.
/// A missing or malformed port falls back to the default.
pub open spec fn spec_parse_host_port(s: Seq<char>) -> (Seq<char>, u16) {
    if s.len() > 0 && s[0] == '[' && spec_first_index(s, ']') >= 0 {
        let e = spec_first_index(s, ']');
        let host = s.subrange(1, e);
        let rest = s.skip(e + 1);
        if rest.len() > 0 && rest[0] == ':' {
            (host, spec_port_or_default(rest.skip(1)))
        } else {
            (host, DEFAULT_PROXY_PORT)
        }
    } else if spec_last_index(s, ':') >= 0 {
        let i = spec_last_index(s, ':');
        let before = s.subrange(0, i);
        if spec_first_index(before, ':') >= 0 {
            (s, DEFAULT_PROXY_PORT)
        } else {
            (before, spec_port_or_default(s.skip(i + 1)))
        }
    } else {
        (s, DEFAULT_PROXY_PORT)
    }
}

/// Split a listen address into host and port.
pub fn parse_host_port(address: &str) -> (r: (String, u16))
    ensures
        r.0@ == spec_parse_host_port(address@).0,
        r.1 == spec_parse_host_port(address@).1,
{
    let chars = chars_of(address);
    let n = chars.len();
    if n > 0 && chars[0] == '[' {
        if let Some(e) = find_char(&chars, ']') {
            proof {
                lemma_first_index_props(address@, ']');
                if e as int == 0 {
                    assert(address@[0] == ']');
                }
            }
            let host = address.substring_char(1, e).to_owned();
            let port = if e + 1 < n && chars[e + 1] == ':' {
                proof {
                    assert(address@.skip(e + 1).len() > 0);
                    assert(address@.skip(e + 1)[0] == address@[e + 1]);
                    assert(address@.skip(e + 1).skip(1) =~= address@.subrange(e + 2, n as int));
                }
                match parse_u16_digits(&chars, e + 2, n) {
                    Some(p) => p,
                    None => DEFAULT_PROXY_PORT,
                }
            } else {
                proof {
                    if e + 1 < n {
                        assert(address@.skip(e + 1)[0] == address@[e + 1]);
                    } else {
                        assert(address@.skip(e + 1).len() == 0);
                    }
                }
                DEFAULT_PROXY_PORT
            };
            return (host, port);
        }
    }
    match rfind_char(&chars, ':') {
        Some(i) => {
            let before = address.substring_char(0, i);
            let before_chars = chars_of(before);
            proof {
                assert(before@ =~= address@.subrange(0, i as int));
            }
            if find_char(&before_chars, ':').is_some() {
                (address.to_owned(), DEFAULT_PROXY_PORT)
            } else {
                proof {
                    assert(address@.skip(i + 1) =~= address@.subrange(i + 1, n as int));
                }
                let port = match parse_u16_digits(&chars, i + 1, n) {
                    Some(p) => p,
                    None => DEFAULT_PROXY_PORT,
                };
                (before.to_owned(), port)
            }
        },
        None => (address.to_owned(), DEFAULT_PROXY_PORT),
    }
}

/// The kwriteconfig binary a KDE session version calls for; unknown
/// versions get the current one.
pub fn kwriteconfig_command(kde_session_version: &str) -> (r: &'static str)
    ensures
        r@ == if kde_session_version@ == "5"@ {
            "kwriteconfig5"@
        } else {
            "kwriteconfig6"@
        },
{
    if str_eq(kde_session_version, "5") {
        "kwriteconfig5"
    } else {
        "kwriteconfig6"
    }
}

} // verus!
