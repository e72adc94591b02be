//! Java runtimes: which build Mojang publishes for this system, the files
//! of a runtime, and the message when none can be had.

use vstd::prelude::*;
use crate::download::DownloadObject;
use crate::files::download_view;
use crate::runtime::{join_path, path_join};
use crate::text::{chars_of, decimal, decimal_of, str_eq, string_of};

verus! {

/// The name Mojang's runtime index gives the system `os` / `arch`
/// (`std::env::consts` names), if it publishes builds for it.
pub open spec fn platform_key_of(os: Seq<char>, arch: Seq<char>) -> Option<Seq<char>> {
    if os == "linux"@ {
        if arch == "x86"@ {
            Some("linux-i386"@)
        } else {
            Some("linux"@)
        }
    } else if os == "macos"@ {
        if arch == "aarch64"@ {
            Some("mac-os-arm64"@)
        } else {
            Some("mac-os"@)
        }
    } else if os == "windows"@ {
        if arch == "aarch64"@ {
            Some("windows-arm64"@)
        } else if arch == "x86"@ {
            Some("windows-x86"@)
        } else {
            Some("windows-x64"@)
        }
    } else {
        None
    }
}

/// The name Mojang's runtime index gives the system `os` / `arch`.
pub fn platform_key(os: &str, arch: &str) -> (res: Option<&'static str>)
    ensures
        res matches Some(k) ==> platform_key_of(os@, arch@) == Some(k@),
        res is None ==> platform_key_of(os@, arch@) is None,
{
    if str_eq(os, "linux") {
        if str_eq(arch, "x86") {
            Some("linux-i386")
        } else {
            Some("linux")
        }
    } else if str_eq(os, "macos") {
        if str_eq(arch, "aarch64") {
            Some("mac-os-arm64")
        } else {
            Some("mac-os")
        }
    } else if str_eq(os, "windows") {
        if str_eq(arch, "aarch64") {
            Some("windows-arm64")
        } else if str_eq(arch, "x86") {
            Some("windows-x86")
        } else {
            Some("windows-x64")
        }
    } else {
        None
    }
}

/// Mojang's runtime index: platform to component to the manifest URLs of
/// its builds.
pub struct RuntimeIndex {
    pub platforms: Vec<(String, Vec<(String, Vec<String>)>)>,
}

/// The components of `platform` (its first entry).
pub open spec fn components_of(platforms: Seq<(String, Vec<(String, Vec<String>)>)>, platform: Seq<char>) -> Option<Vec<(String, Vec<String>)>>
    decreases platforms.len(),
{
    if platforms.len() == 0 {
        None
    } else if platforms[0].0@ == platform {
        Some(platforms[0].1)
    } else {
        components_of(platforms.drop_first(), platform)
    }
}

/// The builds of `component` (its first entry).
pub open spec fn builds_of(components: Seq<(String, Vec<String>)>, component: Seq<char>) -> Option<Vec<String>>
    decreases components.len(),
{
    if components.len() == 0 {
        None
    } else if components[0].0@ == component {
        Some(components[0].1)
    } else {
        builds_of(components.drop_first(), component)
    }
}

/// The manifest URL of the first build of `component` for `platform`.
pub open spec fn runtime_manifest_url_of(index: RuntimeIndex, platform: Seq<char>, component: Seq<char>) -> Option<Seq<char>> {
    match components_of(index.platforms@, platform) {
        Some(cs) => match builds_of(cs@, component) {
            Some(b) => if b@.len() > 0 {
                Some(b@[0]@)
            } else {
                None
            },
            None => None,
        },
        None => None,
    }
}

/// The manifest URL of the first build of `component` for `platform`, or
/// the error saying there is none.
pub fn runtime_manifest_url(index: &RuntimeIndex, platform: &str, component: &str) -> (res: Result<String, String>)
    ensures
        res matches Ok(u) ==> runtime_manifest_url_of(*index, platform@, component@) == Some(u@),
        res matches Err(m) ==> runtime_manifest_url_of(*index, platform@, component@) is None
            && m@ == "Mojang doesn't publish a "@ + component@ + " build for "@ + platform@,
{
    let url = match find_components(&index.platforms, platform) {
        None => None,
        Some(cs) => match find_builds(cs, component) {
            None => None,
            Some(b) => if b.len() > 0 {
                Some(b[0].clone())
            } else {
                None
            },
        },
    };
    match url {
        Some(u) => Ok(u),
        None => {
            let mut msg = String::from_str("Mojang doesn't publish a ");
            msg.append(component);
            msg.append(" build for ");
            msg.append(platform);
            Err(msg)
        },
    }
}

/// The components of `platform`.
fn find_components<'a>(ps: &'a Vec<(String, Vec<(String, Vec<String>)>)>, platform: &str) -> (res: Option<&'a Vec<(String, Vec<String>)>>)
    ensures
        res matches Some(c) ==> components_of(ps@, platform@) == Some(*c),
        res is None ==> components_of(ps@, platform@) is None,
{
    let n = ps.len();
    assert(ps@.skip(0) == ps@);
    for i in 0..n
        invariant
            n == ps@.len(),
            components_of(ps@, platform@) == components_of(ps@.skip(i as int), platform@),
    {
        let ghost t = ps@.skip(i as int);
        assert(t[0] == ps@[i as int]);
        assert(t.drop_first() == ps@.skip(i + 1));
        if str_eq(ps[i].0.as_str(), platform) {
            return Some(&ps[i].1);
        }
    }
    None
}

/// The builds of `component`.
fn find_builds<'a>(cs: &'a Vec<(String, Vec<String>)>, component: &str) -> (res: Option<&'a Vec<String>>)
    ensures
        res matches Some(b) ==> builds_of(cs@, component@) == Some(*b),
        res is None ==> builds_of(cs@, component@) is None,
{
    let n = cs.len();
    assert(cs@.skip(0) == cs@);
    for i in 0..n
        invariant
            n == cs@.len(),
            builds_of(cs@, component@) == builds_of(cs@.skip(i as int), component@),
    {
        let ghost t = cs@.skip(i as int);
        assert(t[0] == cs@[i as int]);
        assert(t.drop_first() == cs@.skip(i + 1));
        if str_eq(cs[i].0.as_str(), component) {
            return Some(&cs[i].1);
        }
    }
    None
}

/// The raw download of a runtime file.
pub struct RawDownload {
    pub sha1: String,
    pub size: u64,
    pub url: String,
}

/// An entry of a runtime's file manifest.
pub struct FileEntry {
    /// `file`, `directory` or `link`.
    pub kind: String,
    pub executable: bool,
    pub downloads: Option<RawDownload>,
}

/// The entry is a plain file (the only kind that is downloaded).
pub open spec fn is_plain_file_of(entry: FileEntry) -> bool {
    entry.kind@ == "file"@
}

/// The entry is a plain file.
pub fn is_plain_file(entry: &FileEntry) -> (res: bool)
    ensures
        res == is_plain_file_of(*entry),
{
    str_eq(entry.kind.as_str(), "file")
}

/// The bytes the plain files of a runtime declare (those with download information).
pub open spec fn runtime_bytes(files: Seq<(String, FileEntry)>) -> nat
    decreases files.len(),
{
    if files.len() == 0 {
        0
    } else {
        let e = files.last().1;
        runtime_bytes(files.drop_last()) + if is_plain_file_of(e) && e.downloads is Some {
            e.downloads->0.size as nat
        } else {
            0nat
        }
    }
}

/// The number of plain files of a runtime.
pub open spec fn runtime_file_count(files: Seq<(String, FileEntry)>) -> nat
    decreases files.len(),
{
    if files.len() == 0 {
        0
    } else {
        runtime_file_count(files.drop_last()) + if is_plain_file_of(files.last().1) {
            1nat
        } else {
            0nat
        }
    }
}

/// The bytes and the number of the plain files of a runtime, or `None`
/// when the bytes do not fit in a `u64`.
pub fn runtime_totals(files: &Vec<(String, FileEntry)>) -> (res: Option<(u64, u64)>)
    ensures
        res matches Some(t) ==> t.0 == runtime_bytes(files@) && t.1 == runtime_file_count(files@),
        res is None ==> runtime_bytes(files@) > u64::MAX,
{
    let mut bytes: u64 = 0;
    let mut count: u64 = 0;
    let n = files.len();
    for i in 0..n
        invariant
            n == files@.len(),
            bytes == runtime_bytes(files@.take(i as int)),
            count == runtime_file_count(files@.take(i as int)),
            count <= i,
    {
        assert(files@.take(i + 1).drop_last() =~= files@.take(i as int));
        assert(files@.take(i + 1).last() == files@[i as int]);
        let e = &files[i].1;
        if is_plain_file(e) {
            if let Some(d) = &e.downloads {
                if d.size > u64::MAX - bytes {
                    proof {
                        lemma_runtime_bytes_monotone(files@, i + 1);
                    }
                    return None;
                }
                bytes = bytes + d.size;
            }
            count = count + 1;
        }
    }
    assert(files@.take(n as int) =~= files@);
    Some((bytes, count))
}

/// The bytes of a prefix of the files are at most those of all.
pub proof fn lemma_runtime_bytes_monotone(files: Seq<(String, FileEntry)>, k: int)
    requires
        0 <= k <= files.len(),
    ensures
        runtime_bytes(files.take(k)) <= runtime_bytes(files),
    decreases files.len() - k,
{
    if k < files.len() {
        assert(files.take(k + 1).drop_last() =~= files.take(k));
        lemma_runtime_bytes_monotone(files, k + 1);
    } else {
        assert(files.take(k) =~= files);
    }
}

/// The download of the runtime file at `relative_path` of `component`, to
/// `runtime/<component>/<relative_path>`; an error when the entry has no
/// download information.
pub fn runtime_file_download(relative_path: &str, entry: &FileEntry, component: &str, windows: bool) -> (res: Result<DownloadObject, String>)
    ensures
        entry.downloads is None <==> res is Err,
        res matches Err(m) ==> m@ == "runtime file entry is missing its download info"@,
        res matches Ok(d) ==> download_view(d) == (entry.downloads->0.url@, Some(
            entry.downloads->0.size,
        ), Some(entry.downloads->0.sha1@), path_join(path_join("runtime"@, component@, windows), relative_path@, windows)),
{
    match &entry.downloads {
        None => Err("runtime file entry is missing its download info".to_owned()),
        Some(d) => Ok(
            DownloadObject {
                url: d.url.clone(),
                size: Some(d.size),
                sha1: Some(d.sha1.clone()),
                file_path: join_path(join_path("runtime", component, windows).as_str(), relative_path, windows),
            },
        ),
    }
}

/// The first of the probed Java candidates whose major version is
/// `required` (candidates are tried in order: the bundled runtime, then
/// `JAVA_HOME`, then `PATH`; `None` is a candidate that could not be probed).
pub fn first_matching_java(versions: &Vec<Option<u32>>, required: u32) -> (res: Option<usize>)
    ensures
        res matches Some(i) ==> i < versions@.len() && versions@[i as int] == Some(required)
            && forall|j: int| 0 <= j < i ==> #[trigger] versions@[j] != Some(required),
        res is None ==> forall|j: int| 0 <= j < versions@.len() ==> #[trigger] versions@[j] != Some(required),
{
    let n = versions.len();
    for i in 0..n
        invariant
            n == versions@.len(),
            forall|j: int| 0 <= j < i ==> #[trigger] versions@[j] != Some(required),
    {
        if let Some(v) = versions[i] {
            if v == required {
                return Some(i);
            }
        }
    }
    None
}

/// The message when no Java of the required major version is found and
/// none could be fetched (`reason` says why the fetch failed).
pub fn java_unavailable_message(required_major: u32, reason: &str) -> (res: String)
    ensures
        res@ == "This version needs Java "@ + decimal(required_major as nat)
            + ", and null-launcher couldn't fetch a matching runtime automatically ("@ + reason@
            + "). Install Java "@ + decimal(required_major as nat)
            + " yourself and make sure it's on PATH, or point JAVA_HOME at it."@,
{
    let major = string_of(decimal_of(required_major as u64).as_slice());
    let mut m = String::from_str("This version needs Java ");
    m.append(major.as_str());
    m.append(", and null-launcher couldn't fetch a matching runtime automatically (");
    m.append(reason);
    m.append("). Install Java ");
    m.append(major.as_str());
    m.append(" yourself and make sure it's on PATH, or point JAVA_HOME at it.");
    m
}

} // verus!
