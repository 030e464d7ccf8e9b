//! Tunnel modes, stored credentials and the client configuration document.

use vstd::prelude::*;
use vstd::string::{StrSliceExecFns, StringExecFns};
use crate::chars::{
    char_repeat, chars_of, find_char, join_strings, spec_first_index, spec_join,
    spec_nonempty_pieces, spec_split, spec_trim, spec_trim_end, spec_trim_start, split_char,
    starts_with_chars, starts_with_seq, trim_blanks,
};

verus! {

/// How the tunnel presents itself to the system.
#[derive(Clone, Copy, Debug, PartialEq, Eq, Structural)]
pub enum TunnelMode {
    /// Route all traffic through a virtual network interface.
    Tun,
    /// Local SOCKS listener plus a system-wide proxy setting.
    SystemProxy,
    /// Local SOCKS listener only; applications opt in manually.
    Proxy,
}

impl TunnelMode {
    pub fn is_tun(self) -> (r: bool)
        ensures
            r == (self is Tun),
    {
        matches!(self, TunnelMode::Tun)
    }

    pub fn sets_system_proxy(self) -> (r: bool)
        ensures
            r == (self is SystemProxy),
    {
        matches!(self, TunnelMode::SystemProxy)
    }

    pub fn label(self) -> (r: &'static str)
        ensures
            r@ == match self {
                TunnelMode::Tun => "TUN"@,
                TunnelMode::SystemProxy => "System proxy"@,
                TunnelMode::Proxy => "Proxy"@,
            },
    {
        match self {
            TunnelMode::Tun => "TUN",
            TunnelMode::SystemProxy => "System proxy",
            TunnelMode::Proxy => "Proxy",
        }
    }
}

/// Address of the local SOCKS listener in the proxy modes.
pub fn proxy_listen_address() -> (r: &'static str)
    ensures
        r@ == "127.0.0.1:1080"@,
{
    "127.0.0.1:1080"
}

pub fn default_post_quantum_group_enabled() -> (r: bool)
    ensures
        r == true,
{
    true
}

pub fn default_dns_upstreams() -> (r: Vec<String>)
    ensures
        r.deep_view() == seq!["tls://1.1.1.1"@, "tls://1.0.0.1"@],
{
    let mut v: Vec<String> = Vec::new();
    v.push(String::from_str("tls://1.1.1.1"));
    v.push(String::from_str("tls://1.0.0.1"));
    proof {
        assert(v.deep_view() =~= seq!["tls://1.1.1.1"@, "tls://1.0.0.1"@]);
    }
    v
}

/// One stored credential file's contents.
#[derive(Clone, Debug)]
pub struct CredentialFile {
    pub hostname: String,
    pub addresses: Vec<String>,
    pub has_ipv6: bool,
    pub username: String,
    pub password: String,
    pub skip_verification: bool,
    pub certificate: String,
    pub upstream_protocol: String,
    pub upstream_fallback_protocol: String,
    pub anti_dpi: bool,
    pub killswitch_enabled: bool,
    pub post_quantum_group_enabled: bool,
    pub dns_upstreams: Vec<String>,
}

impl Default for CredentialFile {
    fn default() -> (r: CredentialFile)
        ensures
            r.hostname@ == Seq::<char>::empty(),
            r.addresses@ == Seq::<String>::empty(),
            !r.has_ipv6,
            r.username@ == Seq::<char>::empty(),
            r.password@ == Seq::<char>::empty(),
            !r.skip_verification,
            r.certificate@ == Seq::<char>::empty(),
            r.upstream_protocol@ == Seq::<char>::empty(),
            r.upstream_fallback_protocol@ == Seq::<char>::empty(),
            !r.anti_dpi,
            !r.killswitch_enabled,
            !r.post_quantum_group_enabled,
            r.dns_upstreams@ == Seq::<String>::empty(),
    {
        CredentialFile {
            hostname: String::new(),
            addresses: Vec::new(),
            has_ipv6: false,
            username: String::new(),
            password: String::new(),
            skip_verification: false,
            certificate: String::new(),
            upstream_protocol: String::new(),
            upstream_fallback_protocol: String::new(),
            anti_dpi: false,
            killswitch_enabled: false,
            post_quantum_group_enabled: false,
            dns_upstreams: Vec::new(),
        }
    }
}

/// A field-specific rejection of user-supplied endpoint fields.
#[derive(Clone, Debug)]
pub struct ValidationIssue {
    pub label: String,
    pub detail: String,
}

/// The endpoint fields a connection attempt requires to be non-empty.
pub open spec fn spec_credential_valid(c: CredentialFile) -> bool {
    &&& c.addresses@.len() > 0
    &&& c.hostname@.len() > 0
    &&& c.username@.len() > 0
    &&& c.password@.len() > 0
}

/// Label of the first failing field, checked in the order: address list,
/// hostname, username, password.
pub open spec fn spec_validation_label(c: CredentialFile) -> Seq<char> {
    if c.addresses@.len() == 0 {
        "Address list is required"@
    } else if c.hostname@.len() == 0 {
        "Hostname is required"@
    } else if c.username@.len() == 0 {
        "Username is required"@
    } else {
        "Password is required"@
    }
}

pub open spec fn spec_validation_detail(c: CredentialFile) -> Seq<char> {
    if c.addresses@.len() == 0 {
        "Enter at least one server address."@
    } else if c.hostname@.len() == 0 {
        "Enter the server hostname."@
    } else if c.username@.len() == 0 {
        "Enter the account username."@
    } else {
        "Enter the account password."@
    }
}

impl CredentialFile {
    /// Check the user-supplied endpoint fields; `None` means the credential
    /// may be used to connect.
    pub fn validate(&self) -> (r: Option<ValidationIssue>)
        ensures
            r is None <==> spec_credential_valid(*self),
            r matches Some(issue) ==> issue.label@ == spec_validation_label(*self)
                && issue.detail@ == spec_validation_detail(*self),
    {
        if self.addresses.len() == 0 {
            Some(ValidationIssue {
                label: String::from_str("Address list is required"),
                detail: String::from_str("Enter at least one server address."),
            })
        } else if self.hostname.as_str().is_empty() {
            Some(ValidationIssue {
                label: String::from_str("Hostname is required"),
                detail: String::from_str("Enter the server hostname."),
            })
        } else if self.username.as_str().is_empty() {
            Some(ValidationIssue {
                label: String::from_str("Username is required"),
                detail: String::from_str("Enter the account username."),
            })
        } else if self.password.as_str().is_empty() {
            Some(ValidationIssue {
                label: String::from_str("Password is required"),
                detail: String::from_str("Enter the account password."),
            })
        } else {
            None
        }
    }

    /// Merge the stored fields with the session's DNS toggle into the
    /// endpoint block handed to the configuration builder.
    pub fn to_endpoint_fields(self, dns_enabled: bool) -> (r: EndpointFields)
        ensures
            r.hostname == self.hostname,
            r.addresses == self.addresses,
            r.has_ipv6 == self.has_ipv6,
            r.username == self.username,
            r.password == self.password,
            r.skip_verification == self.skip_verification,
            r.certificate == self.certificate,
            r.upstream_protocol == self.upstream_protocol,
            r.upstream_fallback_protocol == self.upstream_fallback_protocol,
            r.anti_dpi == self.anti_dpi,
            r.killswitch_enabled == self.killswitch_enabled,
            r.post_quantum_group_enabled == self.post_quantum_group_enabled,
            r.dns_enabled == dns_enabled,
            r.dns_upstreams == self.dns_upstreams,
    {
        EndpointFields {
            hostname: self.hostname,
            addresses: self.addresses,
            has_ipv6: self.has_ipv6,
            username: self.username,
            password: self.password,
            skip_verification: self.skip_verification,
            certificate: self.certificate,
            upstream_protocol: self.upstream_protocol,
            upstream_fallback_protocol: self.upstream_fallback_protocol,
            anti_dpi: self.anti_dpi,
            killswitch_enabled: self.killswitch_enabled,
            post_quantum_group_enabled: self.post_quantum_group_enabled,
            dns_enabled,
            dns_upstreams: self.dns_upstreams,
        }
    }
}

/// The display name of a credential: `user@host`, one of the two when the
/// other is empty, or the caller-supplied fallback (the file stem) when
/// both are empty.
pub fn credential_name(credential: &CredentialFile, fallback: &str) -> (r: String)
    ensures
        r@ == ({
            let user = credential.username@;
            let host = credential.hostname@;
            if user.len() > 0 && host.len() > 0 {
                user + "@"@ + host
            } else if user.len() == 0 && host.len() > 0 {
                host
            } else if user.len() > 0 && host.len() == 0 {
                user
            } else {
                fallback@
            }
        }),
{
    let user_empty = credential.username.as_str().is_empty();
    let host_empty = credential.hostname.as_str().is_empty();
    if !user_empty && !host_empty {
        credential.username.clone().concat("@").concat(credential.hostname.as_str())
    } else if user_empty && !host_empty {
        credential.hostname.clone()
    } else if !user_empty && host_empty {
        credential.username.clone()
    } else {
        fallback.to_owned()
    }
}

/// A credential as loaded from (or destined for) its file on disk.
#[derive(Clone, Debug)]
pub struct StoredCredential {
    /// Where the file lives, as the caller's path text.
    pub path: String,
    /// Display name, derived by `credential_name`.
    pub name: String,
    pub credential: CredentialFile,
    /// A draft has not been written to disk yet.
    pub draft: bool,
}

/// Every field at its blank starting value.
pub open spec fn spec_blank_credential(c: CredentialFile) -> bool {
    &&& c.hostname@ == Seq::<char>::empty()
    &&& c.addresses@ == Seq::<String>::empty()
    &&& !c.has_ipv6
    &&& c.username@ == Seq::<char>::empty()
    &&& c.password@ == Seq::<char>::empty()
    &&& !c.skip_verification
    &&& c.certificate@ == Seq::<char>::empty()
    &&& c.upstream_protocol@ == Seq::<char>::empty()
    &&& c.upstream_fallback_protocol@ == Seq::<char>::empty()
    &&& !c.anti_dpi
    &&& !c.killswitch_enabled
    &&& !c.post_quantum_group_enabled
    &&& c.dns_upstreams@ == Seq::<String>::empty()
}

/// The path a draft file would get: the plain draft name first, then
/// numbered variants.
pub open spec fn spec_draft_path(directory: Seq<char>, k: int) -> Seq<char> {
    if k == 0 {
        directory + "/.draft.toml"@
    } else {
        directory + "/.draft-"@ + crate::digits::dec_str(k as nat) + ".toml"@
    }
}

/// Some existing credential occupies the draft path with index `k`.
pub open spec fn spec_draft_taken(
    directory: Seq<char>,
    existing: Seq<StoredCredential>,
    k: int,
) -> bool {
    exists|i: int|
        0 <= i < existing.len() && (#[trigger] existing[i]).path@ == spec_draft_path(
            directory,
            k,
        )
}

/// `path` is the draft path with index `k`, and every smaller-indexed
/// draft path is already occupied by an existing credential.
pub open spec fn spec_first_free_draft(
    directory: Seq<char>,
    existing: Seq<StoredCredential>,
    path: Seq<char>,
    k: int,
) -> bool {
    &&& 0 <= k
    &&& path == spec_draft_path(directory, k)
    &&& forall|k2: int| 0 <= k2 < k ==> #[trigger] spec_draft_taken(directory, existing, k2)
}

proof fn lemma_draft_path_distinct(directory: Seq<char>, k1: int, k2: int)
    requires
        0 <= k1 < k2,
    ensures
        spec_draft_path(directory, k1) != spec_draft_path(directory, k2),
{
    reveal_strlit("/.draft.toml");
    reveal_strlit("/.draft-");
    reveal_strlit(".toml");
    crate::digits::lemma_dec_str_len(k2 as nat);
    if k1 == 0 {
        assert(spec_draft_path(directory, k1).len() == directory.len() + 12);
        assert(spec_draft_path(directory, k2).len() >= directory.len() + 14);
    } else {
        crate::digits::lemma_dec_str_len(k1 as nat);
        let d1 = crate::digits::dec_str(k1 as nat);
        let d2 = crate::digits::dec_str(k2 as nat);
        if d1.len() != d2.len() {
            assert(spec_draft_path(directory, k1).len() == directory.len() + 13 + d1.len());
            assert(spec_draft_path(directory, k2).len() == directory.len() + 13 + d2.len());
        } else {
            if spec_draft_path(directory, k1) == spec_draft_path(directory, k2) {
                let base = directory.len() + 8;
                assert forall|j: int| 0 <= j < d1.len() implies d1[j] == d2[j] by {
                    assert(spec_draft_path(directory, k1)[base + j] == d1[j]);
                    assert(spec_draft_path(directory, k2)[base + j] == d2[j]);
                }
                assert(d1 =~= d2);
                crate::digits::lemma_dec_str_injective(k1 as nat, k2 as nat);
            }
        }
    }
}

fn draft_candidate(directory: &str, k: usize) -> (r: String)
    ensures
        r@ == spec_draft_path(directory@, k as int),
{
    if k == 0 {
        directory.to_owned().concat("/.draft.toml")
    } else {
        let digits = crate::digits::u64_to_string(k as u64);
        let mut r = directory.to_owned();
        r.append("/.draft-");
        r.append(digits.as_str());
        r.append(".toml");
        proof {
            assert(r@ =~= spec_draft_path(directory@, k as int));
        }
        r
    }
}

fn path_taken(existing: &Vec<StoredCredential>, candidate: &String) -> (r: bool)
    ensures
        r <==> exists|i: int|
            0 <= i < existing@.len() && (#[trigger] existing@[i]).path@ == candidate@,
{
    let n = existing.len();
    let mut i: usize = 0;
    while i < n
        invariant
            n == existing@.len(),
            i <= n,
            forall|j: int| 0 <= j < i ==> (#[trigger] existing@[j]).path@ != candidate@,
        decreases n - i,
    {
        if crate::chars::str_eq(existing[i].path.as_str(), candidate.as_str()) {
            return true;
        }
        i = i + 1;
    }
    false
}

impl StoredCredential {
    /// A fresh, unsaved draft whose path is the first draft name that no
    /// existing credential occupies.
    pub fn new_draft(directory: &str, existing: &Vec<StoredCredential>) -> (r: StoredCredential)
        ensures
            r.draft,
            r.name@ == Seq::<char>::empty(),
            spec_blank_credential(r.credential),
            forall|i: int| 0 <= i < existing@.len() ==> (#[trigger] existing@[i]).path@ != r.path@,
            exists|k: int| #[trigger] spec_first_free_draft(directory@, existing@, r.path@, k),
    {
        let n = existing.len();
        let mut k: usize = 0;
        loop
            invariant
                n == existing@.len(),
                k <= n,
                forall|k2: int| 0 <= k2 < k ==> #[trigger] spec_draft_taken(
                    directory@,
                    existing@,
                    k2,
                ),
            decreases n - k,
        {
            let candidate = draft_candidate(directory, k);
            if !path_taken(existing, &candidate) {
                let result = StoredCredential {
                    path: candidate,
                    name: String::new(),
                    credential: CredentialFile::default(),
                    draft: true,
                };
                proof {
                    assert(result.path@ == spec_draft_path(directory@, k as int));
                    assert(spec_first_free_draft(directory@, existing@, result.path@, k as int));
                }
                return result;
            }
            proof {
                assert(spec_draft_taken(directory@, existing@, k as int));
            }
            if k == n {
                proof {
                    // the n + 1 pairwise distinct candidates were all found
                    // among the n existing paths
                    let candidates = Seq::new(
                        (n + 1) as nat,
                        |j: int| spec_draft_path(directory@, j),
                    );
                    let paths = Seq::new(n as nat, |i: int| existing@[i].path@);
                    assert forall|i: int, j: int|
                        0 <= i < candidates.len() && 0 <= j < candidates.len() && i != j
                            implies candidates[i] != candidates[j] by {
                        if i < j {
                            lemma_draft_path_distinct(directory@, i, j);
                        } else {
                            lemma_draft_path_distinct(directory@, j, i);
                        }
                    }
                    assert(candidates.no_duplicates());
                    assert forall|x: Seq<char>| candidates.to_set().contains(x)
                        implies paths.to_set().contains(x) by {
                        assert(candidates.contains(x));
                        let j = choose|j: int|
                            0 <= j < candidates.len() && candidates[j] == x;
                        assert(candidates[j] == spec_draft_path(directory@, j));
                        assert(spec_draft_taken(directory@, existing@, j));
                        let i = choose|i: int|
                            0 <= i < existing@.len() && (#[trigger] existing@[i]).path@
                                == spec_draft_path(directory@, j);
                        assert(paths[i] == x);
                        assert(paths.contains(x));
                    }
                    assert(candidates.to_set().subset_of(paths.to_set()));
                    candidates.unique_seq_to_set();
                    paths.lemma_cardinality_of_set();
                    vstd::set_lib::lemma_len_subset(candidates.to_set(), paths.to_set());
                    assert(false);
                }
                return unreached();
            }
            k = k + 1;
        }
    }
}

/// User-entered endpoint fields merged with the session toggles.
pub struct EndpointFields {
    pub hostname: String,
    pub addresses: Vec<String>,
    pub has_ipv6: bool,
    pub username: String,
    pub password: String,
    pub skip_verification: bool,
    pub certificate: String,
    pub upstream_protocol: String,
    pub upstream_fallback_protocol: String,
    pub anti_dpi: bool,
    pub killswitch_enabled: bool,
    pub post_quantum_group_enabled: bool,
    pub dns_enabled: bool,
    pub dns_upstreams: Vec<String>,
}

/// The endpoint block of the client configuration document.
pub struct EndpointConfiguration {
    pub hostname: String,
    pub addresses: Vec<String>,
    pub has_ipv6: bool,
    pub username: String,
    pub password: String,
    pub client_random: String,
    pub skip_verification: bool,
    pub certificate: String,
    pub upstream_protocol: String,
    pub upstream_fallback_protocol: String,
    pub anti_dpi: bool,
}

/// Virtual-interface listener parameters.
pub struct TunConfiguration {
    pub bound_interface: String,
    pub included_routes: Vec<String>,
    pub excluded_routes: Vec<String>,
    pub mtu_size: u32,
    pub change_system_dns: bool,
}

/// Local SOCKS listener parameters.
pub struct ProxyConfiguration {
    pub address: String,
    pub username: Option<String>,
    pub password: Option<String>,
}

/// Exactly one of the two listener shapes is present.
pub struct ListenerConfiguration {
    pub tun: Option<TunConfiguration>,
    pub proxy: Option<ProxyConfiguration>,
}

/// The complete configuration document handed to the client binary.
pub struct VpnConfiguration {
    pub loglevel: String,
    pub vpn_mode: String,
    pub killswitch_enabled: bool,
    pub killswitch_allow_ports: Vec<u16>,
    pub post_quantum_group_enabled: bool,
    pub exclusions: Vec<String>,
    pub dns_upstreams: Vec<String>,
    pub endpoint: EndpointConfiguration,
    pub listener: ListenerConfiguration,
}

impl VpnConfiguration {
    /// Build the configuration for one connection attempt. In TUN mode the
    /// listener carries the fixed route split and delegates system DNS to
    /// the client only when the session wants DNS and systemd-resolved is
    /// active (`systemd_resolved_active` reports that probe); otherwise the
    /// listener is the fixed local SOCKS endpoint.
    pub fn new(endpoint: EndpointFields, mode: TunnelMode, systemd_resolved_active: bool) -> (r:
        VpnConfiguration)
        ensures
            r.loglevel@ == "info"@,
            r.vpn_mode@ == "general"@,
            r.killswitch_enabled == endpoint.killswitch_enabled,
            r.killswitch_allow_ports@ == Seq::<u16>::empty(),
            r.post_quantum_group_enabled == endpoint.post_quantum_group_enabled,
            r.exclusions@ == Seq::<String>::empty(),
            r.dns_upstreams == endpoint.dns_upstreams,
            r.endpoint.hostname == endpoint.hostname,
            r.endpoint.addresses == endpoint.addresses,
            r.endpoint.has_ipv6 == endpoint.has_ipv6,
            r.endpoint.username == endpoint.username,
            r.endpoint.password == endpoint.password,
            r.endpoint.client_random@ == Seq::<char>::empty(),
            r.endpoint.skip_verification == endpoint.skip_verification,
            r.endpoint.certificate == endpoint.certificate,
            r.endpoint.upstream_protocol@ == if endpoint.upstream_protocol@.len() == 0 {
                "http2"@
            } else {
                endpoint.upstream_protocol@
            },
            r.endpoint.upstream_fallback_protocol == endpoint.upstream_fallback_protocol,
            r.endpoint.anti_dpi == endpoint.anti_dpi,
            mode is Tun ==> r.listener.proxy is None && (r.listener.tun matches Some(tun) && {
                &&& tun.bound_interface@ == Seq::<char>::empty()
                &&& tun.included_routes.deep_view() == seq!["0.0.0.0/0"@, "2000::/3"@]
                &&& tun.excluded_routes.deep_view() == seq![
                    "0.0.0.0/8"@,
                    "10.0.0.0/8"@,
                    "169.254.0.0/16"@,
                    "172.16.0.0/12"@,
                    "192.168.0.0/16"@,
                    "224.0.0.0/3"@,
                ]
                &&& tun.mtu_size == 1280
                &&& tun.change_system_dns == (endpoint.dns_enabled && systemd_resolved_active)
            }),
            !(mode is Tun) ==> r.listener.tun is None && (r.listener.proxy matches Some(proxy) && {
                &&& proxy.address@ == "127.0.0.1:1080"@
                &&& proxy.username is None
                &&& proxy.password is None
            }),
    {
        let listener = if mode.is_tun() {
            let mut included_routes: Vec<String> = Vec::new();
            included_routes.push(String::from_str("0.0.0.0/0"));
            included_routes.push(String::from_str("2000::/3"));
            let mut excluded_routes: Vec<String> = Vec::new();
            excluded_routes.push(String::from_str("0.0.0.0/8"));
            excluded_routes.push(String::from_str("10.0.0.0/8"));
            excluded_routes.push(String::from_str("169.254.0.0/16"));
            excluded_routes.push(String::from_str("172.16.0.0/12"));
            excluded_routes.push(String::from_str("192.168.0.0/16"));
            excluded_routes.push(String::from_str("224.0.0.0/3"));
            proof {
                assert(included_routes.deep_view() =~= seq!["0.0.0.0/0"@, "2000::/3"@]);
                assert(excluded_routes.deep_view() =~= seq![
                    "0.0.0.0/8"@,
                    "10.0.0.0/8"@,
                    "169.254.0.0/16"@,
                    "172.16.0.0/12"@,
                    "192.168.0.0/16"@,
                    "224.0.0.0/3"@,
                ]);
            }
            ListenerConfiguration {
                tun: Some(TunConfiguration {
                    bound_interface: String::new(),
                    included_routes,
                    excluded_routes,
                    mtu_size: 1280,
                    change_system_dns: endpoint.dns_enabled && systemd_resolved_active,
                }),
                proxy: None,
            }
        } else {
            ListenerConfiguration {
                tun: None,
                proxy: Some(ProxyConfiguration {
                    address: String::from_str("127.0.0.1:1080"),
                    username: None,
                    password: None,
                }),
            }
        };
        VpnConfiguration {
            loglevel: String::from_str("info"),
            vpn_mode: String::from_str("general"),
            killswitch_enabled: endpoint.killswitch_enabled,
            killswitch_allow_ports: Vec::new(),
            post_quantum_group_enabled: endpoint.post_quantum_group_enabled,
            exclusions: Vec::new(),
            dns_upstreams: endpoint.dns_upstreams,
            endpoint: EndpointConfiguration {
                hostname: endpoint.hostname,
                addresses: endpoint.addresses,
                has_ipv6: endpoint.has_ipv6,
                username: endpoint.username,
                password: endpoint.password,
                client_random: String::new(),
                skip_verification: endpoint.skip_verification,
                certificate: endpoint.certificate,
                upstream_protocol: if endpoint.upstream_protocol.as_str().is_empty() {
                    String::from_str("http2")
                } else {
                    endpoint.upstream_protocol
                },
                upstream_fallback_protocol: endpoint.upstream_fallback_protocol,
                anti_dpi: endpoint.anti_dpi,
            },
            listener,
        }
    }
}

/// A character as it may appear in a file name: path separators and the
/// other reserved characters become underscores.
pub open spec fn spec_file_name_char(c: char) -> char {
    if c == '/' || c == '\\' || c == '\0' || c == ':' || c == '*' || c == '?' || c == '"' || c
        == '<' || c == '>' || c == '|' {
        '_'
    } else {
        c
    }
}

/// A display name made safe for use as a file or directory name.
pub fn sanitize_file_name(name: &str) -> (r: Vec<char>)
    ensures
        r@ == name@.map_values(|c: char| spec_file_name_char(c)),
{
    let chars = chars_of(name);
    let n = chars.len();
    let mut out: Vec<char> = Vec::new();
    let mut i: usize = 0;
    while i < n
        invariant
            n == name@.len(),
            chars@ == name@,
            i <= n,
            out@.len() == i,
            forall|j: int| 0 <= j < i ==> out@[j] == spec_file_name_char(name@[j]),
        decreases n - i,
    {
        let c = chars[i];
        let mapped = if c == '/' || c == '\\' || c == '\0' || c == ':' || c == '*' || c == '?'
            || c == '"' || c == '<' || c == '>' || c == '|' {
            '_'
        } else {
            c
        };
        out.push(mapped);
        i = i + 1;
    }
    proof {
        assert(out@ =~= name@.map_values(|c: char| spec_file_name_char(c)));
    }
    out
}

/// The comma pieces of `s`, each split again at spaces, concatenated.
pub open spec fn spec_space_split_all(parts: Seq<Seq<char>>) -> Seq<Seq<char>>
    decreases parts.len(),
{
    if parts.len() == 0 {
        Seq::empty()
    } else {
        spec_split(parts[0], ' ') + spec_space_split_all(parts.skip(1))
    }
}

/// The entries of a comma- or space-separated input field, empty
/// segments dropped.
pub open spec fn spec_list_items(s: Seq<char>) -> Seq<Seq<char>> {
    spec_nonempty_pieces(spec_space_split_all(spec_split(s, ',')))
}

/// Split a user-entered list on commas and spaces, dropping empty
/// segments.
pub fn parse_list_input(text: &str) -> (r: Vec<String>)
    ensures
        r.deep_view() == spec_list_items(text@),
{
    let comma_parts = split_char(text, ',');
    let ghost cv = spec_split(text@, ',');
    let n = comma_parts.len();
    let mut items: Vec<String> = Vec::new();
    let mut i: usize = 0;
    proof {
        assert(cv.skip(0) =~= cv);
        assert(items.deep_view() + spec_nonempty_pieces(spec_space_split_all(cv))
            =~= spec_nonempty_pieces(spec_space_split_all(cv)));
    }
    while i < n
        invariant
            n == comma_parts@.len(),
            comma_parts.deep_view() == cv,
            cv == spec_split(text@, ','),
            i <= n,
            spec_list_items(text@) == items.deep_view() + spec_nonempty_pieces(
                spec_space_split_all(cv.skip(i as int)),
            ),
        decreases n - i,
    {
        proof {
            assert(comma_parts.deep_view()[i as int] == comma_parts@[i as int]@);
            assert(cv.skip(i as int)[0] == cv[i as int]);
            assert(cv.skip(i as int).skip(1) =~= cv.skip(i + 1));
            crate::chars::lemma_nonempty_pieces_concat(
                spec_split(cv[i as int], ' '),
                spec_space_split_all(cv.skip(i + 1)),
            );
        }
        let pieces = split_char(comma_parts[i].as_str(), ' ');
        let ghost pv = spec_split(cv[i as int], ' ');
        let m = pieces.len();
        let mut j: usize = 0;
        proof {
            assert(pv.skip(0) =~= pv);
        }
        while j < m
            invariant
                m == pieces@.len(),
                pieces.deep_view() == pv,
                j <= m,
                spec_list_items(text@) == items.deep_view() + spec_nonempty_pieces(
                    pv.skip(j as int),
                ) + spec_nonempty_pieces(spec_space_split_all(cv.skip(i + 1))),
            decreases m - j,
        {
            proof {
                assert(pieces.deep_view()[j as int] == pieces@[j as int]@);
                assert(pv.skip(j as int)[0] == pv[j as int]);
                assert(pv.skip(j as int).skip(1) =~= pv.skip(j + 1));
            }
            if !pieces[j].as_str().is_empty() {
                let ghost dv_before = items.deep_view();
                items.push(pieces[j].clone());
                proof {
                    assert(items.deep_view() =~= dv_before.push(pv[j as int]));
                    assert(dv_before + (seq![pv[j as int]] + spec_nonempty_pieces(
                        pv.skip(j + 1),
                    )) =~= items.deep_view() + spec_nonempty_pieces(pv.skip(j + 1)));
                }
            }
            j = j + 1;
        }
        proof {
            assert(pv.skip(m as int) =~= Seq::<Seq<char>>::empty());
            assert(items.deep_view() + Seq::<Seq<char>>::empty() =~= items.deep_view());
        }
        i = i + 1;
    }
    proof {
        assert(cv.skip(n as int) =~= Seq::<Seq<char>>::empty());
        assert(items.deep_view() + Seq::<Seq<char>>::empty() =~= items.deep_view());
    }
    items
}

/// One entry of the DNS upstream field: trimmed, with a `tls://` scheme
/// marker removed.
pub open spec fn spec_upstream_entry(piece: Seq<char>) -> Seq<char> {
    let t = spec_trim(piece);
    if starts_with_seq(t, "tls://"@) {
        t.skip(6)
    } else {
        t
    }
}

/// The upstream servers a comma-separated DNS field denotes, empty
/// entries dropped.
pub open spec fn spec_upstream_servers(s: Seq<char>) -> Seq<Seq<char>> {
    let pieces = spec_split(s, ',');
    spec_nonempty_pieces(Seq::new(pieces.len(), |i: int| spec_upstream_entry(pieces[i])))
}

/// Parse the DNS upstream input field into the server list handed to the
/// DNS backend.
pub fn dns_upstream_servers(text: &str) -> (r: Vec<String>)
    ensures
        r.deep_view() == spec_upstream_servers(text@),
{
    let comma_parts = split_char(text, ',');
    let ghost cv = spec_split(text@, ',');
    let ghost entries = Seq::new(cv.len(), |i: int| spec_upstream_entry(cv[i]));
    let n = comma_parts.len();
    let mut cleaned: Vec<String> = Vec::new();
    let mut i: usize = 0;
    while i < n
        invariant
            n == comma_parts@.len(),
            comma_parts.deep_view() == cv,
            entries == Seq::new(cv.len(), |i: int| spec_upstream_entry(cv[i])),
            i <= n,
            cleaned@.len() == i,
            forall|j: int| 0 <= j < i ==> (#[trigger] cleaned@[j])@ == entries[j],
        decreases n - i,
    {
        proof {
            assert(comma_parts.deep_view()[i as int] == comma_parts@[i as int]@);
        }
        let trimmed = trim_blanks(comma_parts[i].as_str());
        let marker = chars_of("tls://");
        let trimmed_chars = chars_of(trimmed.as_str());
        let entry = if starts_with_chars(&trimmed_chars, &marker) {
            let len = trimmed_chars.len();
            proof {
                reveal_strlit("tls://");
                assert(len >= 6);
                assert(trimmed@.subrange(6, len as int) =~= trimmed@.skip(6));
            }
            trimmed.as_str().substring_char(6, len).to_owned()
        } else {
            trimmed
        };
        cleaned.push(entry);
        i = i + 1;
    }
    proof {
        assert(cleaned.deep_view() =~= entries);
    }
    let mut servers: Vec<String> = Vec::new();
    let m = cleaned.len();
    let mut k: usize = 0;
    proof {
        assert(entries.skip(0) =~= entries);
        assert(servers.deep_view() + spec_nonempty_pieces(entries) =~= spec_nonempty_pieces(
            entries,
        ));
    }
    while k < m
        invariant
            m == cleaned@.len(),
            cleaned.deep_view() == entries,
            k <= m,
            spec_nonempty_pieces(entries) == servers.deep_view() + spec_nonempty_pieces(
                entries.skip(k as int),
            ),
        decreases m - k,
    {
        proof {
            assert(cleaned.deep_view()[k as int] == cleaned@[k as int]@);
            assert(entries.skip(k as int)[0] == entries[k as int]);
            assert(entries.skip(k as int).skip(1) =~= entries.skip(k + 1));
        }
        if !cleaned[k].as_str().is_empty() {
            let ghost dv_before = servers.deep_view();
            servers.push(cleaned[k].clone());
            proof {
                assert(servers.deep_view() =~= dv_before.push(entries[k as int]));
                assert(dv_before + (seq![entries[k as int]] + spec_nonempty_pieces(
                    entries.skip(k + 1),
                )) =~= servers.deep_view() + spec_nonempty_pieces(entries.skip(k + 1)));
            }
        }
        k = k + 1;
    }
    proof {
        assert(entries.skip(m as int) =~= Seq::<Seq<char>>::empty());
        assert(servers.deep_view() + Seq::<Seq<char>>::empty() =~= servers.deep_view());
    }
    servers
}

/// A configuration line with its password value replaced by asterisks of
/// equal length: everything before the equals sign is kept, the value is
/// quoted, and a surrounding pair of quotes does not count toward the
/// length.
pub open spec fn spec_redact_line(line: Seq<char>) -> Seq<char> {
    if starts_with_seq(spec_trim_start(line), "password"@) && spec_first_index(line, '=') >= 0 {
        let e = spec_first_index(line, '=');
        let value = spec_trim(line.skip(e + 1));
        let stars: int = if value.len() >= 2 && value[0] == '"' && value.last() == '"' {
            value.len() - 2
        } else {
            value.len() as int
        };
        line.subrange(0, e) + "= \""@ + char_repeat('*', stars) + "\""@
    } else {
        line
    }
}

/// The whole document, line by line.
pub open spec fn spec_redact_toml(text: Seq<char>) -> Seq<char> {
    let lines = spec_split(text, '\n');
    spec_join(Seq::new(lines.len(), |i: int| spec_redact_line(lines[i])), "\n"@)
}

fn redact_line(line: &str) -> (r: String)
    ensures
        r@ == spec_redact_line(line@),
{
    let chars = chars_of(line);
    let n = chars.len();
    let mut ts: usize = 0;
    proof {
        assert(line@.skip(0) =~= line@);
    }
    while ts < n && (chars[ts] == ' ' || chars[ts] == '\t')
        invariant
            ts <= n,
            n == line@.len(),
            chars@ == line@,
            spec_trim_start(line@) == spec_trim_start(line@.skip(ts as int)),
        decreases n - ts,
    {
        proof {
            assert(line@.skip(ts as int)[0] == line@[ts as int]);
            assert(line@.skip(ts as int).skip(1) =~= line@.skip(ts + 1));
        }
        ts = ts + 1;
    }
    proof {
        let rest = line@.skip(ts as int);
        if rest.len() > 0 {
            assert(rest[0] == line@[ts as int]);
        }
        assert(spec_trim_start(line@) == rest);
    }
    let trimmed = line.substring_char(ts, n);
    proof {
        assert(trimmed@ =~= line@.skip(ts as int));
    }
    let trimmed_chars = chars_of(trimmed);
    let password_marker = chars_of("password");
    if !starts_with_chars(&trimmed_chars, &password_marker) {
        return line.to_owned();
    }
    let e = match find_char(&chars, '=') {
        Some(e) => e,
        None => {
            return line.to_owned();
        },
    };
    let mut vs: usize = e + 1;
    proof {
        assert(line@.skip(e + 1).skip(0) =~= line@.skip(e + 1));
    }
    while vs < n && (chars[vs] == ' ' || chars[vs] == '\t')
        invariant
            e + 1 <= vs <= n,
            n == line@.len(),
            chars@ == line@,
            spec_trim_start(line@.skip(e + 1)) == spec_trim_start(line@.skip(vs as int)),
        decreases n - vs,
    {
        proof {
            assert(line@.skip(vs as int)[0] == line@[vs as int]);
            assert(line@.skip(vs as int).skip(1) =~= line@.skip(vs + 1));
        }
        vs = vs + 1;
    }
    proof {
        let rest = line@.skip(vs as int);
        if rest.len() > 0 {
            assert(rest[0] == line@[vs as int]);
        }
        assert(spec_trim_start(line@.skip(e + 1)) == rest);
    }
    let mut ve: usize = n;
    proof {
        assert(line@.skip(vs as int) =~= line@.subrange(vs as int, n as int));
    }
    while ve > vs && (chars[ve - 1] == ' ' || chars[ve - 1] == '\t')
        invariant
            vs <= ve <= n,
            n == line@.len(),
            chars@ == line@,
            spec_trim_end(line@.skip(vs as int)) == spec_trim_end(
                line@.subrange(vs as int, ve as int),
            ),
        decreases ve,
    {
        proof {
            assert(line@.subrange(vs as int, ve as int).last() == line@[ve - 1]);
            assert(line@.subrange(vs as int, ve as int).drop_last() =~= line@.subrange(
                vs as int,
                ve - 1,
            ));
        }
        ve = ve - 1;
    }
    let ghost value = line@.subrange(vs as int, ve as int);
    proof {
        if ve > vs {
            assert(value.last() == line@[ve - 1]);
        }
        assert(spec_trim_end(value) == value);
        assert(spec_trim(line@.skip(e + 1)) == value);
    }
    let value_len = ve - vs;
    let quoted = value_len >= 2 && chars[vs] == '"' && chars[ve - 1] == '"';
    proof {
        if value_len >= 1 {
            assert(value[0] == line@[vs as int]);
            assert(value.last() == line@[ve - 1]);
        }
    }
    let stars = if quoted {
        value_len - 2
    } else {
        value_len
    };
    let mut out = line.substring_char(0, e).to_owned();
    out.append("= \"");
    let ghost base = out@;
    proof {
        reveal_strlit("*");
        assert(base + char_repeat('*', 0) =~= base);
    }
    let mut k: usize = 0;
    while k < stars
        invariant
            k <= stars,
            out@ == base + char_repeat('*', k as int),
        decreases stars - k,
    {
        out.append("*");
        proof {
            reveal_strlit("*");
            assert(base + char_repeat('*', k as int) + "*"@ =~= base + char_repeat(
                '*',
                k + 1,
            ));
        }
        k = k + 1;
    }
    out.append("\"");
    proof {
        assert(out@ =~= spec_redact_line(line@));
    }
    out
}

/// The document with every password value replaced by asterisks of equal
/// length, for diagnostic dumps.
pub fn redact_password_in_toml(toml_text: &str) -> (r: String)
    ensures
        r@ == spec_redact_toml(toml_text@),
{
    let lines = split_char(toml_text, '\n');
    let ghost line_views = spec_split(toml_text@, '\n');
    let n = lines.len();
    let mut out: Vec<String> = Vec::new();
    let mut i: usize = 0;
    while i < n
        invariant
            n == lines@.len(),
            lines.deep_view() == line_views,
            i <= n,
            out@.len() == i,
            forall|j: int|
                0 <= j < i ==> (#[trigger] out@[j])@ == spec_redact_line(line_views[j]),
        decreases n - i,
    {
        proof {
            assert(lines.deep_view()[i as int] == lines@[i as int]@);
        }
        out.push(redact_line(lines[i].as_str()));
        i = i + 1;
    }
    proof {
        assert(out.deep_view() =~= Seq::new(
            line_views.len(),
            |i: int| spec_redact_line(line_views[i]),
        ));
    }
    join_strings(&out, "\n")
}

/// What the host part of an endpoint address parsed as; determined by the
/// caller, which owns the address parser.
#[derive(Clone, Copy, Debug, PartialEq, Eq, Structural)]
pub enum HostAddressKind {
    V4,
    V6,
    NotAnAddress,
}

/// The host part of an endpoint address: everything before the first
/// colon, or the whole text without one. (A bare IPv6 address is cut at
/// its first group, as the route-exclusion pass has always done.)
pub fn host_part(address: &str) -> (r: String)
    ensures
        r@ == if spec_first_index(address@, ':') >= 0 {
            address@.subrange(0, spec_first_index(address@, ':'))
        } else {
            address@
        },
{
    let chars = chars_of(address);
    match find_char(&chars, ':') {
        Some(i) => address.substring_char(0, i).to_owned(),
        None => address.to_owned(),
    }
}

/// The exclusion route covering exactly one endpoint host, in the client's
/// route syntax: a /32 for IPv4, a /128 for IPv6, nothing otherwise.
pub fn excluded_route_for(canonical_host: &str, kind: HostAddressKind) -> (r: Option<String>)
    ensures
        match kind {
            HostAddressKind::V4 => r matches Some(s) && s@ == canonical_host@ + "/32"@,
            HostAddressKind::V6 => r matches Some(s) && s@ == canonical_host@ + "/128"@,
            HostAddressKind::NotAnAddress => r is None,
        },
{
    match kind {
        HostAddressKind::V4 => Some(canonical_host.to_owned().concat("/32")),
        HostAddressKind::V6 => Some(canonical_host.to_owned().concat("/128")),
        HostAddressKind::NotAnAddress => None,
    }
}

/// Routes after appending each candidate that is not already present,
/// in order.
pub open spec fn spec_dedup_append(routes: Seq<Seq<char>>, candidates: Seq<Seq<char>>) -> Seq<
    Seq<char>,
>
    decreases candidates.len(),
{
    if candidates.len() == 0 {
        routes
    } else {
        let next = if routes.contains(candidates[0]) {
            routes
        } else {
            routes.push(candidates[0])
        };
        spec_dedup_append(next, candidates.skip(1))
    }
}

fn routes_contain(routes: &Vec<String>, candidate: &String) -> (r: bool)
    ensures
        r == routes.deep_view().contains(candidate@),
{
    let n = routes.len();
    let mut i: usize = 0;
    while i < n
        invariant
            n == routes@.len(),
            i <= n,
            forall|j: int| 0 <= j < i ==> routes.deep_view()[j] != candidate@,
        decreases n - i,
    {
        if routes[i] == *candidate {
            proof {
                assert(routes.deep_view()[i as int] == routes@[i as int]@);
            }
            return true;
        }
        proof {
            assert(routes.deep_view()[i as int] == routes@[i as int]@);
        }
        i = i + 1;
    }
    proof {
        if routes.deep_view().contains(candidate@) {
            let j = choose|j: int|
                0 <= j < routes.deep_view().len() && routes.deep_view()[j] == candidate@;
            assert(routes.deep_view()[j] != candidate@);
        }
    }
    false
}

/// Append to the exclusion routes every candidate not already present,
/// keeping order; duplicates within the candidates are collapsed too.
pub fn extend_excluded_routes(tun: &mut TunConfiguration, candidates: Vec<String>)
    ensures
        final(tun).excluded_routes.deep_view() == spec_dedup_append(
            old(tun).excluded_routes.deep_view(),
            candidates.deep_view(),
        ),
        final(tun).bound_interface == old(tun).bound_interface,
        final(tun).included_routes == old(tun).included_routes,
        final(tun).mtu_size == old(tun).mtu_size,
        final(tun).change_system_dns == old(tun).change_system_dns,
{
    let ghost goal = spec_dedup_append(
        old(tun).excluded_routes.deep_view(),
        candidates.deep_view(),
    );
    proof {
        assert(candidates.deep_view().skip(0) =~= candidates.deep_view());
    }
    let n = candidates.len();
    for i in 0..n
        invariant
            n == candidates@.len(),
            spec_dedup_append(
                tun.excluded_routes.deep_view(),
                candidates.deep_view().skip(i as int),
            ) == goal,
            tun.bound_interface == old(tun).bound_interface,
            tun.included_routes == old(tun).included_routes,
            tun.mtu_size == old(tun).mtu_size,
            tun.change_system_dns == old(tun).change_system_dns,
    {
        let ghost dv_before = tun.excluded_routes.deep_view();
        let ghost cands = candidates.deep_view();
        proof {
            assert(cands.skip(i as int).len() > 0);
            assert(cands.skip(i as int)[0] == cands[i as int]);
            assert(cands.skip(i as int).skip(1) =~= cands.skip(i + 1));
        }
        let candidate = candidates[i].clone();
        if !routes_contain(&tun.excluded_routes, &candidate) {
            tun.excluded_routes.push(candidate);
            proof {
                assert(tun.excluded_routes.deep_view() =~= dv_before.push(cands[i as int]));
            }
        } else {
            proof {
                assert(candidate@ == cands[i as int]);
            }
        }
    }
    proof {
        assert(candidates.deep_view().skip(n as int) =~= Seq::<Seq<char>>::empty());
    }
}

} // verus!
