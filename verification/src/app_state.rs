//! Persisted UI state: credential order, selection, tunnel mode and the
//! DNS toggle. Reading and writing the state file is the caller's side;
//! the semantics of the fields live here.

use vstd::prelude::*;
use vstd::string::StringExecFns;
use crate::chars::str_eq;
use crate::config::{StoredCredential, TunnelMode};

verus! {

pub fn default_dns_enabled() -> (r: bool)
    ensures
        r == true,
{
    true
}

pub struct AppState {
    pub credential_order: Vec<String>,
    pub selected_credential: Option<String>,
    pub tunnel_mode: Option<String>,
    pub dns_enabled: bool,
    pub selected_client_version: Option<String>,
}

/// The tunnel mode a stored mode string denotes; anything unknown (or
/// absent) falls back to TUN.
pub open spec fn spec_tunnel_mode_of(stored: Option<Seq<char>>) -> TunnelMode {
    match stored {
        Some(s) => if s == "tun"@ {
            TunnelMode::Tun
        } else if s == "system_proxy"@ {
            TunnelMode::SystemProxy
        } else if s == "proxy"@ {
            TunnelMode::Proxy
        } else {
            TunnelMode::Tun
        },
        None => TunnelMode::Tun,
    }
}

/// The stored spelling of a tunnel mode.
pub open spec fn spec_tunnel_mode_name(mode: TunnelMode) -> Seq<char> {
    match mode {
        TunnelMode::Tun => "tun"@,
        TunnelMode::SystemProxy => "system_proxy"@,
        TunnelMode::Proxy => "proxy"@,
    }
}

impl Default for AppState {
    fn default() -> (r: AppState)
        ensures
            r.credential_order@ == Seq::<String>::empty(),
            r.selected_credential is None,
            r.tunnel_mode is None,
            r.dns_enabled,
            r.selected_client_version is None,
    {
        AppState {
            credential_order: Vec::new(),
            selected_credential: None,
            tunnel_mode: None,
            dns_enabled: true,
            selected_client_version: None,
        }
    }
}

impl AppState {
    pub fn dns_enabled(&self) -> (r: bool)
        ensures
            r == self.dns_enabled,
    {
        self.dns_enabled
    }

    pub fn selected_client_version(&self) -> (r: Option<&str>)
        ensures
            r is Some <==> self.selected_client_version is Some,
            r matches Some(s) ==> s@ == self.selected_client_version->0@,
    {
        match &self.selected_client_version {
            Some(version) => Some(version.as_str()),
            None => None,
        }
    }

    pub fn set_selected_client_version(&mut self, version: Option<&str>)
        ensures
            final(self).selected_client_version.deep_view() == version.deep_view(),
            final(self).credential_order == old(self).credential_order,
            final(self).selected_credential == old(self).selected_credential,
            final(self).tunnel_mode == old(self).tunnel_mode,
            final(self).dns_enabled == old(self).dns_enabled,
    {
        self.selected_client_version = match version {
            Some(v) => Some(v.to_owned()),
            None => None,
        };
    }

    pub fn set_dns_enabled(&mut self, enabled: bool)
        ensures
            final(self).dns_enabled == enabled,
            final(self).credential_order == old(self).credential_order,
            final(self).selected_credential == old(self).selected_credential,
            final(self).tunnel_mode == old(self).tunnel_mode,
            final(self).selected_client_version == old(self).selected_client_version,
    {
        self.dns_enabled = enabled;
    }

    pub fn tunnel_mode(&self) -> (r: TunnelMode)
        ensures
            r == spec_tunnel_mode_of(self.tunnel_mode.deep_view()),
    {
        match &self.tunnel_mode {
            Some(stored) => {
                if str_eq(stored.as_str(), "tun") {
                    TunnelMode::Tun
                } else if str_eq(stored.as_str(), "system_proxy") {
                    TunnelMode::SystemProxy
                } else if str_eq(stored.as_str(), "proxy") {
                    TunnelMode::Proxy
                } else {
                    TunnelMode::Tun
                }
            },
            None => TunnelMode::Tun,
        }
    }

    pub fn set_tunnel_mode(&mut self, mode: TunnelMode)
        ensures
            final(self).tunnel_mode matches Some(s) && s@ == spec_tunnel_mode_name(mode),
            final(self).credential_order == old(self).credential_order,
            final(self).selected_credential == old(self).selected_credential,
            final(self).dns_enabled == old(self).dns_enabled,
            final(self).selected_client_version == old(self).selected_client_version,
    {
        self.tunnel_mode = Some(
            match mode {
                TunnelMode::Tun => String::from_str("tun"),
                TunnelMode::SystemProxy => String::from_str("system_proxy"),
                TunnelMode::Proxy => String::from_str("proxy"),
            },
        );
    }

    /// Remember the current on-screen order of the credentials by path.
    pub fn set_credential_order(&mut self, credentials: &Vec<StoredCredential>)
        ensures
            final(self).credential_order.deep_view() == Seq::new(
                credentials@.len(),
                |i: int| credentials@[i].path@,
            ),
            final(self).selected_credential == old(self).selected_credential,
            final(self).tunnel_mode == old(self).tunnel_mode,
            final(self).dns_enabled == old(self).dns_enabled,
            final(self).selected_client_version == old(self).selected_client_version,
    {
        let n = credentials.len();
        let mut order: Vec<String> = Vec::new();
        let mut i: usize = 0;
        while i < n
            invariant
                n == credentials@.len(),
                i <= n,
                order@.len() == i,
                forall|j: int| 0 <= j < i ==> (#[trigger] order@[j])@ == credentials@[j].path@,
            decreases n - i,
        {
            order.push(credentials[i].path.clone());
            i = i + 1;
        }
        proof {
            assert(order.deep_view() =~= Seq::new(
                credentials@.len(),
                |i: int| credentials@[i].path@,
            ));
        }
        self.credential_order = order;
    }

    pub fn set_selected_credential(&mut self, credential: Option<&StoredCredential>)
        ensures
            credential matches Some(c) ==> final(self).selected_credential matches Some(p) && p@
                == c.path@,
            credential is None ==> final(self).selected_credential is None,
            final(self).credential_order == old(self).credential_order,
            final(self).tunnel_mode == old(self).tunnel_mode,
            final(self).dns_enabled == old(self).dns_enabled,
            final(self).selected_client_version == old(self).selected_client_version,
    {
        self.selected_credential = match credential {
            Some(stored) => Some(stored.path.clone()),
            None => None,
        };
    }

    /// Index of the remembered selection among the credentials: the first
    /// entry whose path matches, if any.
    pub fn find_selected_index(&self, credentials: &Vec<StoredCredential>) -> (r: Option<usize>)
        ensures
            self.selected_credential is None ==> r is None,
            self.selected_credential matches Some(sel) ==> {
                &&& r matches Some(i) ==> i < credentials@.len() && credentials@[i as int].path@
                    == sel@ && (forall|j: int|
                    0 <= j < i ==> #[trigger] credentials@[j].path@ != sel@)
                &&& r is None ==> (forall|j: int|
                    0 <= j < credentials@.len() ==> #[trigger] credentials@[j].path@ != sel@)
            },
    {
        let selected = match &self.selected_credential {
            Some(path) => path,
            None => {
                return None;
            },
        };
        let n = credentials.len();
        let mut i: usize = 0;
        while i < n
            invariant
                n == credentials@.len(),
                i <= n,
                self.selected_credential matches Some(sel) && sel == selected,
                forall|j: int| 0 <= j < i ==> #[trigger] credentials@[j].path@ != selected@,
            decreases n - i,
        {
            if str_eq(credentials[i].path.as_str(), selected.as_str()) {
                return Some(i);
            }
            i = i + 1;
        }
        None
    }
}

/// Index of the first credential whose path is `p`, or -1.
pub open spec fn spec_first_match(creds: Seq<StoredCredential>, p: Seq<char>) -> int
    decreases creds.len(),
{
    if creds.len() == 0 {
        -1
    } else if creds[0].path@ == p {
        0
    } else {
        let rest = spec_first_match(creds.skip(1), p);
        if rest < 0 {
            -1
        } else {
            1 + rest
        }
    }
}

pub proof fn lemma_first_match_props(creds: Seq<StoredCredential>, p: Seq<char>)
    ensures
        spec_first_match(creds, p) == -1 ==> (forall|j: int|
            0 <= j < creds.len() ==> #[trigger] creds[j].path@ != p),
        spec_first_match(creds, p) != -1 ==> {
            let i = spec_first_match(creds, p);
            &&& 0 <= i < creds.len()
            &&& creds[i].path@ == p
            &&& forall|j: int| 0 <= j < i ==> #[trigger] creds[j].path@ != p
        },
    decreases creds.len(),
{
    if creds.len() != 0 && creds[0].path@ != p {
        lemma_first_match_props(creds.skip(1), p);
        let rest = spec_first_match(creds.skip(1), p);
        if rest == -1 {
            assert forall|j: int| 0 <= j < creds.len() implies #[trigger] creds[j].path@ != p by {
                if j > 0 {
                    assert(creds.skip(1)[j - 1] == creds[j]);
                }
            }
        } else {
            assert(creds.skip(1)[rest] == creds[1 + rest]);
            assert forall|j: int| 0 <= j < 1 + rest implies #[trigger] creds[j].path@ != p by {
                if j > 0 {
                    assert(creds.skip(1)[j - 1] == creds[j]);
                }
            }
        }
    }
}

/// The credentials as the saved order arranges them: for each saved path
/// in turn, the first remaining credential with that path moves to the
/// end of the ordered part; everything unmentioned follows in its old
/// relative order. An empty saved order changes nothing.
pub open spec fn spec_apply_saved_order(
    creds: Seq<StoredCredential>,
    saved: Seq<Seq<char>>,
) -> Seq<StoredCredential>
    decreases saved.len(),
{
    if saved.len() == 0 {
        creds
    } else {
        let i = spec_first_match(creds, saved[0]);
        if i >= 0 {
            seq![creds[i]] + spec_apply_saved_order(creds.remove(i), saved.skip(1))
        } else {
            spec_apply_saved_order(creds, saved.skip(1))
        }
    }
}

fn position_of_path(creds: &Vec<StoredCredential>, p: &String) -> (r: Option<usize>)
    ensures
        r matches Some(i) ==> i < creds@.len() && i as int == spec_first_match(creds@, p@),
        r is None ==> spec_first_match(creds@, p@) == -1,
{
    let n = creds.len();
    let mut i: usize = 0;
    while i < n
        invariant
            n == creds@.len(),
            i <= n,
            forall|j: int| 0 <= j < i ==> #[trigger] creds@[j].path@ != p@,
        decreases n - i,
    {
        if str_eq(creds[i].path.as_str(), p.as_str()) {
            proof {
                lemma_first_match_props(creds@, p@);
                let fm = spec_first_match(creds@, p@);
                if fm == -1 {
                    assert(creds@[i as int].path@ != p@);
                } else {
                    if fm < i {
                        assert(creds@[fm].path@ != p@);
                    }
                    if fm > i {
                        assert(creds@[i as int].path@ != p@);
                    }
                }
            }
            return Some(i);
        }
        i = i + 1;
    }
    proof {
        lemma_first_match_props(creds@, p@);
        let fm = spec_first_match(creds@, p@);
        if fm != -1 {
            assert(creds@[fm].path@ != p@);
        }
    }
    None
}

/// Rearrange the credentials to the saved order; paths that are not
/// present are skipped, credentials that the saved order does not name
/// keep their relative order at the end.
pub fn apply_saved_order(credentials: &mut Vec<StoredCredential>, saved_order: &Vec<String>)
    ensures
        final(credentials)@ == spec_apply_saved_order(
            old(credentials)@,
            saved_order.deep_view(),
        ),
{
    let ghost goal = spec_apply_saved_order(old(credentials)@, saved_order.deep_view());
    if saved_order.len() == 0 {
        return ;
    }
    let mut ordered: Vec<StoredCredential> = Vec::new();
    let n = saved_order.len();
    proof {
        assert(saved_order.deep_view().skip(0) =~= saved_order.deep_view());
        assert(ordered@ + credentials@ =~= credentials@);
    }
    for k in 0..n
        invariant
            n == saved_order@.len(),
            goal == ordered@ + spec_apply_saved_order(
                credentials@,
                saved_order.deep_view().skip(k as int),
            ),
    {
        let ghost saved = saved_order.deep_view();
        proof {
            assert(saved.skip(k as int).len() > 0);
            assert(saved.skip(k as int)[0] == saved[k as int]);
            assert(saved.skip(k as int).skip(1) =~= saved.skip(k + 1));
        }
        let saved_path = &saved_order[k];
        proof {
            assert(saved_path@ == saved[k as int]);
        }
        match position_of_path(credentials, saved_path) {
            Some(position) => {
                let ghost creds_before = credentials@;
                let ghost ordered_before = ordered@;
                let entry = credentials.remove(position);
                ordered.push(entry);
                proof {
                    assert(ordered@ =~= ordered_before.push(creds_before[position as int]));
                    assert(ordered_before + (seq![creds_before[position as int]]
                        + spec_apply_saved_order(creds_before.remove(position as int), saved.skip(
                        k + 1,
                    ))) =~= ordered@ + spec_apply_saved_order(credentials@, saved.skip(k + 1)));
                }
            },
            None => {},
        }
    }
    proof {
        assert(saved_order.deep_view().skip(n as int) =~= Seq::<Seq<char>>::empty());
    }
    let ghost remaining = credentials@;
    let ghost ordered_final = ordered@;
    ordered.append(credentials);
    *credentials = ordered;
    proof {
        assert(credentials@ =~= ordered_final + remaining);
    }
}

} // verus!
