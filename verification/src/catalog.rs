//! The version manifest, installed instances, launcher settings and the
//! one-install-at-a-time lock.

use vstd::prelude::*;
use crate::client_json::{detect_loader, detected_loader, ClientJson};
use crate::digest::{hex_lower, sha1_digest, sha1_matches};
use crate::runtime::{join_path, path_join};
use crate::text::{chars_of, str_eq, trim, trim_white};

verus! {

/// A Minecraft version as the version manifest lists it.
#[derive(Debug, Clone, PartialEq)]
pub struct Version {
    pub id: String,
    pub url: String,
    pub sha1: String,
    pub kind: String,
}

/// The version manifest.
#[derive(Debug, Clone, PartialEq)]
pub struct VersionManifest {
    pub versions: Vec<Version>,
}

/// An installed instance.
#[derive(Debug, Clone, PartialEq)]
pub struct Instance {
    pub id: String,
    pub kind: String,
    pub installed_at: Option<String>,
    pub loader: Option<String>,
}

/// A screenshot file.
#[derive(Debug, Clone, PartialEq)]
pub struct Screenshot {
    pub name: String,
    pub path: String,
}

/// The launcher's saved settings.
#[derive(Debug, Clone, PartialEq)]
pub struct LauncherSettings {
    pub username: String,
    pub min_memory_mb: u32,
    pub max_memory_mb: u32,
    pub terminal_mode: bool,
}

/// The index of the first version in `versions` with id `id`.
pub open spec fn version_index(versions: Seq<Version>, id: Seq<char>) -> Option<int>
    decreases versions.len(),
{
    if versions.len() == 0 {
        None
    } else if versions[0].id@ == id {
        Some(0)
    } else {
        match version_index(versions.drop_first(), id) {
            Some(i) => Some(i + 1),
            None => None,
        }
    }
}

/// The version of the manifest with id `id` (the first one listed).
pub fn find_version<'a>(manifest: &'a VersionManifest, id: &str) -> (res: Option<&'a Version>)
    ensures
        res matches Some(v) ==> (version_index(manifest.versions@, id@) is Some && *v
            == manifest.versions@[version_index(manifest.versions@, id@)->0]),
        res is None ==> version_index(manifest.versions@, id@) is None,
{
    let vs = &manifest.versions;
    let n = vs.len();
    for i in 0..n
        invariant
            n == vs@.len(),
            *vs == manifest.versions,
            forall|j: int| 0 <= j < i ==> vs@[j].id@ != id@,
    {
        if str_eq(vs[i].id.as_str(), id) {
            proof {
                lemma_version_index(vs@, id@, i as int);
            }
            let r = &vs[i];
            assert(*r == manifest.versions@[i as int]);
            return Some(r);
        }
    }
    proof {
        lemma_version_index_none(vs@, id@);
    }
    None
}

/// The first match is found at `i`.
proof fn lemma_version_index(vs: Seq<Version>, id: Seq<char>, i: int)
    requires
        0 <= i < vs.len(),
        vs[i].id@ == id,
        forall|j: int| 0 <= j < i ==> vs[j].id@ != id,
    ensures
        version_index(vs, id) == Some(i),
    decreases i,
{
    if i > 0 {
        let t = vs.drop_first();
        assert forall|j: int| 0 <= j < i - 1 implies t[j].id@ != id by {
            assert(t[j] == vs[j + 1]);
        }
        lemma_version_index(t, id, i - 1);
    }
}

/// No version has the id.
proof fn lemma_version_index_none(vs: Seq<Version>, id: Seq<char>)
    requires
        forall|j: int| 0 <= j < vs.len() ==> vs[j].id@ != id,
    ensures
        version_index(vs, id) is None,
    decreases vs.len(),
{
    if vs.len() > 0 {
        let t = vs.drop_first();
        assert forall|j: int| 0 <= j < t.len() implies t[j].id@ != id by {
            assert(t[j] == vs[j + 1]);
        }
        lemma_version_index_none(t, id);
    }
}

/// The entry an installed version gets in the instance list: its type
/// (`release` when the description names none) and its mod loader.
pub fn instance_summary(version_id: &str, client_json: &ClientJson) -> (res: Instance)
    ensures
        res.id@ == version_id@,
        res.kind@ == (match client_json.kind {
            Some(k) => k@,
            None => "release"@,
        }),
        res.installed_at is None,
        res.loader matches Some(l) ==> detected_loader(client_json.libraries@) == Some(l@),
        res.loader is None ==> detected_loader(client_json.libraries@) is None,
{
    let kind = match &client_json.kind {
        Some(k) => k.clone(),
        None => "release".to_owned(),
    };
    let loader = match detect_loader(client_json) {
        Some(l) => Some(l.to_owned()),
        None => None,
    };
    Instance { id: version_id.to_owned(), kind, installed_at: None, loader }
}

/// The stored description of a version: `<minecraft_dir>/versions/<id>/<id>.json`.
pub fn version_json_path(minecraft_dir: &str, id: &str, windows: bool) -> (res: String)
    ensures
        res@ == path_join(path_join(path_join(minecraft_dir@, "versions"@, windows), id@, windows), id@ + ".json"@, windows),
{
    let a = join_path(minecraft_dir, "versions", windows);
    let b = join_path(a.as_str(), id, windows);
    let mut leaf = String::from_str(id);
    leaf.append(".json");
    join_path(b.as_str(), leaf.as_str(), windows)
}

/// A stored or fetched version description is the one the manifest lists:
/// its SHA-1 digest is the one the manifest gives.
pub fn version_json_matches(version: &Version, bytes: &[u8]) -> (res: bool)
    ensures
        res == (version.sha1@ == hex_lower(sha1_digest(bytes@))),
{
    sha1_matches(version.sha1.as_str(), bytes)
}

/// The version whose game jar an instance runs: the one its description
/// inherits from, or the instance itself.
pub fn base_version_id(inherits_from: &Option<String>, version_id: &str) -> (res: String)
    ensures
        res@ == (match inherits_from {
            Some(p) => p@,
            None => version_id@,
        }),
{
    match inherits_from {
        Some(p) => p.clone(),
        None => version_id.to_owned(),
    }
}

/// The file the launcher settings are stored in: `<minecraft_dir>/launcher_settings.json`.
pub fn settings_path(minecraft_dir: &str, windows: bool) -> (res: String)
    ensures
        res@ == path_join(minecraft_dir@, "launcher_settings.json"@, windows),
{
    join_path(minecraft_dir, "launcher_settings.json", windows)
}

/// The name a player launches with: the one given, unless it is absent or
/// blank, in which case `Player`.
pub fn effective_username(username: Option<String>) -> (res: String)
    ensures
        res@ == (match username {
            Some(u) => if trim(u@).len() > 0 {
                u@
            } else {
                "Player"@
            },
            None => "Player"@,
        }),
{
    match username {
        Some(u) => {
            let t = trim_white(chars_of(u.as_str()).as_slice());
            if t.len() > 0 {
                u
            } else {
                "Player".to_owned()
            }
        },
        None => "Player".to_owned(),
    }
}

/// The install an install lock holds, if any.
pub open spec fn lock_view(current: Option<String>) -> Option<Seq<char>> {
    match current {
        Some(r) => Some(r@),
        None => None,
    }
}

/// An attempt to start installing `id` while the lock holds `current`: the
/// lock afterwards, and whether the install started.
pub open spec fn install_started(current: Option<Seq<char>>, id: Seq<char>) -> (Option<Seq<char>>, bool) {
    match current {
        None => (Some(id), true),
        Some(running) => (Some(running), false),
    }
}

/// One install at a time: starting `a` on a free lock succeeds; starting
/// `b` while `a` runs is refused and leaves `a` running; once the lock is
/// free again (`finish_install`), `b` starts.
pub proof fn lemma_one_install_at_a_time(a: Seq<char>, b: Seq<char>)
    ensures
        install_started(None, a) == (Some(a), true),
        install_started(install_started(None, a).0, b) == (Some(a), false),
        install_started(None, b) == (Some(b), true),
{
}

/// Starts an install of `id` unless one is running: the lock then holds
/// `id`.  When one is running, the lock is left as it is and the error
/// names the running install.
pub fn try_start_install(current: &mut Option<String>, id: &str) -> (res: Result<(), String>)
    ensures
        (lock_view(*final(current)), res is Ok) == install_started(lock_view(*old(current)), id@),
        *old(current) is None ==> (res is Ok && (*final(current) matches Some(r) && r@ == id@)),
        *old(current) matches Some(running) ==> (*final(current) == *old(current) && (res matches Err(m)
            && m@ == "Already installing "@ + running@
            + " - wait for it to finish before starting another install."@)),
{
    match current {
        Some(running) => {
            let mut m = String::from_str("Already installing ");
            m.append(running.as_str());
            m.append(" - wait for it to finish before starting another install.");
            Err(m)
        },
        None => {
            *current = Some(id.to_owned());
            Ok(())
        },
    }
}

/// Ends the running install: the lock is free again.
pub fn finish_install(current: &mut Option<String>)
    ensures
        *final(current) is None,
{
    *current = None;
}

} // verus!
