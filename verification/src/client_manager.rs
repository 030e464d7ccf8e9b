//! Managing installed client binaries: version bookkeeping, release-asset
//! selection and version ordering. Fetching, downloading and unpacking
//! belong to the caller.

use vstd::prelude::*;
use vstd::string::{StrSliceExecFns, StringExecFns};
use crate::chars::{chars_of, contains_chars, contains_seq, str_eq};
use crate::chars::{spec_split, split_char};
use crate::digits::{all_digits, dec_value, parse_u64_or_zero};

verus! {

/// One downloadable client release, reduced to its platform asset.
#[derive(Clone, Debug)]
pub struct ClientRelease {
    pub tag: String,
    pub asset_url: String,
    pub asset_name: String,
    pub asset_size: u64,
}

/// One asset of a published release, as plain values.
#[derive(Clone, Debug)]
pub struct ReleaseAsset {
    pub name: String,
    pub browser_download_url: String,
    pub size: u64,
}

/// The operating-system and architecture tokens asset names carry for
/// this build.
pub fn platform_asset_filter() -> (r: (&'static str, &'static str))
    ensures
        r.0@ == "linux"@,
        r.1@ == "x86_64"@,
{
    ("linux", "x86_64")
}

/// The marker a usable asset name contains.
pub open spec fn spec_platform_pattern() -> Seq<char> {
    "-linux-x86_64."@
}

/// The first asset whose name carries the platform marker: its name,
/// download URL and size.
pub fn find_platform_asset(assets: &Vec<ReleaseAsset>) -> (r: Option<(String, String, u64)>)
    ensures
        r is None ==> (forall|j: int|
            0 <= j < assets@.len() ==> !contains_seq(
                (#[trigger] assets@[j]).name@,
                spec_platform_pattern(),
            )),
        r matches Some(found) ==> (exists|i: int|
            {
                &&& 0 <= i < assets@.len()
                &&& contains_seq((#[trigger] assets@[i]).name@, spec_platform_pattern())
                &&& (forall|j: int|
                    0 <= j < i ==> !contains_seq(
                        (#[trigger] assets@[j]).name@,
                        spec_platform_pattern(),
                    ))
                &&& found.0 == assets@[i].name
                &&& found.1 == assets@[i].browser_download_url
                &&& found.2 == assets@[i].size
            }),
{
    let pattern = chars_of("-linux-x86_64.");
    let n = assets.len();
    let mut i: usize = 0;
    while i < n
        invariant
            n == assets@.len(),
            i <= n,
            pattern@ == spec_platform_pattern(),
            forall|j: int|
                0 <= j < i ==> !contains_seq(
                    (#[trigger] assets@[j]).name@,
                    spec_platform_pattern(),
                ),
        decreases n - i,
    {
        let name_chars = chars_of(assets[i].name.as_str());
        if contains_chars(&name_chars, &pattern) {
            return Some(
                (
                    assets[i].name.clone(),
                    assets[i].browser_download_url.clone(),
                    assets[i].size,
                ),
            );
        }
        i = i + 1;
    }
    None
}

/// Leading 'v' markers stripped from a version tag.
pub open spec fn spec_strip_leading_v(s: Seq<char>) -> Seq<char>
    decreases s.len(),
{
    if s.len() > 0 && s[0] == 'v' {
        spec_strip_leading_v(s.skip(1))
    } else {
        s
    }
}

/// The numeric value a version component sorts by: its decimal value, or
/// zero when it is empty, non-numeric or too large.
pub open spec fn spec_version_part_value(p: Seq<char>) -> u64 {
    if p.len() > 0 && all_digits(p) && dec_value(p) <= u64::MAX {
        dec_value(p) as u64
    } else {
        0
    }
}

/// The numeric components a version tag sorts by: the tag without its
/// leading 'v', split at dots, each component as a number.
pub fn version_sort_key(tag: &str) -> (r: Vec<u64>)
    ensures
        ({
            let parts = spec_split(spec_strip_leading_v(tag@), '.');
            r@ == Seq::new(parts.len(), |i: int| spec_version_part_value(parts[i]))
        }),
{
    let chars = chars_of(tag);
    let n = chars.len();
    let mut from: usize = 0;
    proof {
        assert(tag@.skip(0) =~= tag@);
    }
    while from < n && chars[from] == 'v'
        invariant
            from <= n,
            n == tag@.len(),
            chars@ == tag@,
            spec_strip_leading_v(tag@) == spec_strip_leading_v(tag@.skip(from as int)),
        decreases n - from,
    {
        proof {
            assert(tag@.skip(from as int)[0] == tag@[from as int]);
            assert(tag@.skip(from as int).skip(1) =~= tag@.skip(from + 1));
        }
        from = from + 1;
    }
    proof {
        let rest = tag@.skip(from as int);
        if rest.len() > 0 {
            assert(rest[0] == tag@[from as int]);
        }
        assert(spec_strip_leading_v(rest) == rest);
    }
    let trimmed = tag.substring_char(from, n);
    proof {
        assert(trimmed@ =~= tag@.skip(from as int));
    }
    let pieces = split_char(trimmed, '.');
    let ghost parts = spec_split(spec_strip_leading_v(tag@), '.');
    let m = pieces.len();
    let mut key: Vec<u64> = Vec::new();
    let mut i: usize = 0;
    while i < m
        invariant
            m == pieces@.len(),
            pieces.deep_view() == parts,
            i <= m,
            key@.len() == i,
            forall|j: int| 0 <= j < i ==> key@[j] == spec_version_part_value(parts[j]),
        decreases m - i,
    {
        proof {
            assert(pieces.deep_view()[i as int] == pieces@[i as int]@);
        }
        let piece_chars = chars_of(pieces[i].as_str());
        key.push(parse_u64_or_zero(&piece_chars));
        i = i + 1;
    }
    proof {
        assert(key@ =~= Seq::new(parts.len(), |i: int| spec_version_part_value(parts[i])));
    }
    key
}

/// Where an installed version's client binary lives under the clients
/// directory.
pub fn client_binary_path(clients_directory: &str, version: &str) -> (r: String)
    ensures
        r@ == clients_directory@ + "/"@ + version@ + "/trusttunnel_client"@,
{
    let mut r = clients_directory.to_owned();
    r.append("/");
    r.append(version);
    r.append("/trusttunnel_client");
    proof {
        assert(r@ =~= clients_directory@ + "/"@ + version@ + "/trusttunnel_client"@);
    }
    r
}

/// Bookkeeping of published releases, installed versions and running
/// downloads.
pub struct ClientManagerState {
    pub releases: Vec<ClientRelease>,
    pub installed: Vec<String>,
    pub selected_version: Option<String>,
    /// Tags being downloaded, with a progress percentage each.
    pub downloads: Vec<(String, u8)>,
    pub fetching_releases: bool,
    pub releases_fetched: bool,
}

/// The selected version is installed.
pub open spec fn spec_has_selected_client(s: ClientManagerState) -> bool {
    s.selected_version matches Some(version) && s.installed.deep_view().contains(version@)
}

impl ClientManagerState {
    pub fn new() -> (r: ClientManagerState)
        ensures
            r.releases@ == Seq::<ClientRelease>::empty(),
            r.installed@ == Seq::<String>::empty(),
            r.selected_version is None,
            r.downloads@ == Seq::<(String, u8)>::empty(),
            !r.fetching_releases,
            !r.releases_fetched,
    {
        ClientManagerState {
            releases: Vec::new(),
            installed: Vec::new(),
            selected_version: None,
            downloads: Vec::new(),
            fetching_releases: false,
            releases_fetched: false,
        }
    }

    /// A download for this tag is running.
    pub fn is_downloading(&self, tag: &str) -> (r: bool)
        ensures
            r == exists|i: int|
                0 <= i < self.downloads@.len() && (#[trigger] self.downloads@[i]).0@ == tag@,
    {
        let n = self.downloads.len();
        let mut i: usize = 0;
        while i < n
            invariant
                n == self.downloads@.len(),
                i <= n,
                forall|j: int| 0 <= j < i ==> (#[trigger] self.downloads@[j]).0@ != tag@,
            decreases n - i,
        {
            if str_eq(self.downloads[i].0.as_str(), tag) {
                return true;
            }
            i = i + 1;
        }
        false
    }

    /// The selected version is installed and usable.
    pub fn has_selected_client(&self) -> (r: bool)
        ensures
            r == spec_has_selected_client(*self),
    {
        let version = match &self.selected_version {
            Some(version) => version,
            None => {
                return false;
            },
        };
        let n = self.installed.len();
        let mut i: usize = 0;
        while i < n
            invariant
                n == self.installed@.len(),
                self.selected_version matches Some(v) && v == version,
                i <= n,
                forall|j: int| 0 <= j < i ==> self.installed.deep_view()[j] != version@,
            decreases n - i,
        {
            proof {
                assert(self.installed.deep_view()[i as int] == self.installed@[i as int]@);
            }
            if str_eq(self.installed[i].as_str(), version.as_str()) {
                return true;
            }
            i = i + 1;
        }
        proof {
            if self.installed.deep_view().contains(version@) {
                let j = choose|j: int|
                    0 <= j < self.installed.deep_view().len() && self.installed.deep_view()[j]
                        == version@;
                assert(self.installed.deep_view()[j] != version@);
            }
        }
        false
    }

    /// The path of the selected version's binary, when it is installed.
    pub fn selected_binary_path(&self, clients_directory: &str) -> (r: Option<String>)
        ensures
            r is Some <==> spec_has_selected_client(*self),
            r matches Some(path) ==> path@ == clients_directory@ + "/"@
                + self.selected_version->0@ + "/trusttunnel_client"@,
    {
        if !self.has_selected_client() {
            return None;
        }
        match &self.selected_version {
            Some(version) => Some(client_binary_path(clients_directory, version.as_str())),
            None => None,
        }
    }
}

} // verus!
