//! The files an install downloads: the client jar, the libraries and their
//! native parts, the asset index and the assets, and the totals that
//! progress is measured against.

use vstd::prelude::*;
use crate::client_json::{keys_distinct, Artifact, ArtifactView, AssetIndex, ClientDownloads, ClientJson, Library, LoggingFile};
use crate::download::DownloadObject;
use crate::installer::lookup;
use crate::maven::{copy_artifact, copy_opt_string, library_artifact, resolve_library_artifact};
use crate::rules::{allowed_by, is_library_allowed};
use crate::runtime::{join_path, path_join};
use crate::text::{chars_of, has_prefix, starts_with, str_eq, string_of, slice_range};

verus! {

/// An asset index: asset name to object.
#[derive(Debug, Clone, PartialEq)]
pub struct AssetIndexJson {
    pub objects: Vec<(String, AssetObject)>,
}

/// An asset, stored under its SHA-1 digest.
#[derive(Debug, Clone, PartialEq)]
pub struct AssetObject {
    pub hash: String,
    pub size: u64,
}

/// The plain contents of a download.
pub open spec fn download_view(d: DownloadObject) -> (Seq<char>, Option<u64>, Option<Seq<char>>, Seq<char>) {
    (d.url@, d.size, match d.sha1 {
        Some(h) => Some(h@),
        None => None,
    }, d.file_path@)
}

/// The download of a library file, to `libraries/<path>`.
pub open spec fn library_download_of(a: ArtifactView, windows: bool) -> (Seq<char>, Option<u64>, Option<Seq<char>>, Seq<char>) {
    (a.url, a.size, a.sha1, path_join("libraries"@, a.path, windows))
}

/// The download of a library file.
pub fn library_download(a: &Artifact, windows: bool) -> (res: DownloadObject)
    ensures
        download_view(res) == library_download_of(a@, windows),
{
    DownloadObject {
        url: a.url.clone(),
        size: a.size,
        sha1: copy_opt_string(&a.sha1),
        file_path: join_path("libraries", a.path.as_str(), windows),
    }
}

/// The value of `key` among classifier artifacts (its first entry).
pub open spec fn classifier_artifact(map: Seq<(String, Artifact)>, key: Seq<char>) -> Option<Artifact>
    decreases map.len(),
{
    if map.len() == 0 {
        None
    } else if map[0].0@ == key {
        Some(map[0].1)
    } else {
        classifier_artifact(map.drop_first(), key)
    }
}

/// With distinct classifiers, a classifier finds its artifact wherever it stands.
pub proof fn lemma_classifier_artifact_distinct(map: Seq<(String, Artifact)>, i: int)
    requires
        keys_distinct(map),
        0 <= i < map.len(),
    ensures
        classifier_artifact(map, map[i].0@) == Some(map[i].1),
    decreases map.len(),
{
    if i > 0 {
        assert(map[0].0@ != map[i].0@);
        assert(map.drop_first()[i - 1] == map[i]);
        lemma_classifier_artifact_distinct(map.drop_first(), i - 1);
    }
}

/// The native artifact of a library for the system `os_name`: the
/// classifier its `natives` name for that system, looked up among its
/// classifier artifacts.
pub open spec fn native_artifact_of(l: Library, os_name: Seq<char>) -> Option<Artifact> {
    match l.natives {
        Some(n) => match lookup(n@, os_name) {
            Some(c) => match l.downloads {
                Some(d) => match d.classifiers {
                    Some(cs) => classifier_artifact(cs@, c),
                    None => None,
                },
                None => None,
            },
            None => None,
        },
        None => None,
    }
}

/// The artifact stored under `key`.
fn find_classifier(map: &Vec<(String, Artifact)>, key: &str) -> (res: Option<Artifact>)
    ensures
        res == classifier_artifact(map@, key@),
{
    let n = map.len();
    assert(map@.skip(0) == map@);
    for i in 0..n
        invariant
            n == map@.len(),
            classifier_artifact(map@, key@) == classifier_artifact(map@.skip(i as int), key@),
    {
        let ghost t = map@.skip(i as int);
        assert(t[0] == map@[i as int]);
        assert(t.drop_first() == map@.skip(i + 1));
        if str_eq(map[i].0.as_str(), key) {
            return Some(copy_artifact(&map[i].1));
        }
    }
    None
}

/// The native artifact of a library for the system `os_name`.
pub fn native_artifact(l: &Library, os_name: &str) -> (res: Option<Artifact>)
    ensures
        res == native_artifact_of(*l, os_name@),
{
    let n = match &l.natives {
        Some(n) => n,
        None => return None,
    };
    let c = match crate::installer::lookup_value(n, os_name) {
        Some(c) => c,
        None => return None,
    };
    match &l.downloads {
        Some(d) => match &d.classifiers {
            Some(cs) => find_classifier(cs, c.as_str()),
            None => None,
        },
        None => None,
    }
}

/// The artifact a library's download information declares, if any.
pub open spec fn declared_artifact_seq(l: Library) -> Seq<Artifact> {
    match l.downloads {
        Some(d) => match d.artifact {
            Some(a) => seq![a],
            None => Seq::empty(),
        },
        None => Seq::empty(),
    }
}

/// The native artifact of a library for `os_name`, if any.
pub open spec fn native_artifact_seq(l: Library, os_name: Seq<char>) -> Seq<Artifact> {
    match native_artifact_of(l, os_name) {
        Some(a) => seq![a],
        None => Seq::empty(),
    }
}

/// The files an install fetches for the libraries used on this system, in
/// order: for each, its declared artifact, then its native artifact.
pub open spec fn install_artifacts_of(
    libs: Seq<Library>,
    features: Seq<(String, bool)>,
    os_name: Seq<char>,
    arch: Seq<char>,
) -> Seq<Artifact>
    decreases libs.len(),
{
    if libs.len() == 0 {
        Seq::empty()
    } else {
        let before = install_artifacts_of(libs.drop_last(), features, os_name, arch);
        let l = libs.last();
        if !allowed_by(l.rules, features, os_name, arch) {
            before
        } else {
            before + declared_artifact_seq(l) + native_artifact_seq(l, os_name)
        }
    }
}

/// An install fetches, for every library used on this system, its declared
/// artifact, and also the native artifact that its `natives` name for this
/// system among its classifiers, whether or not it declares an artifact of
/// its own.
pub proof fn lemma_install_fetches_declared_and_native(
    libs: Seq<Library>,
    features: Seq<(String, bool)>,
    os_name: Seq<char>,
    arch: Seq<char>,
    i: int,
)
    requires
        0 <= i < libs.len(),
        allowed_by(libs[i].rules, features, os_name, arch),
    ensures
        ({
            let l = libs[i];
            let all = install_artifacts_of(libs, features, os_name, arch);
            &&& (l.downloads is Some && l.downloads->0.artifact is Some) ==> all.contains(
                l.downloads->0.artifact->0,
            )
            &&& (l.natives is Some && l.downloads is Some && l.downloads->0.classifiers is Some && lookup(
                l.natives->0@,
                os_name,
            ) is Some && classifier_artifact(
                l.downloads->0.classifiers->0@,
                lookup(l.natives->0@, os_name)->0,
            ) is Some) ==> all.contains(
                classifier_artifact(l.downloads->0.classifiers->0@, lookup(l.natives->0@, os_name)->0)->0,
            )
        }),
    decreases libs.len(),
{
    let before = install_artifacts_of(libs.drop_last(), features, os_name, arch);
    let all = install_artifacts_of(libs, features, os_name, arch);
    let l = libs[i];
    if i == libs.len() - 1 {
        assert(l == libs.last());
        let dl = declared_artifact_seq(l);
        let nl = native_artifact_seq(l, os_name);
        assert(all == before + dl + nl);
        if let Some(d) = l.downloads {
            if let Some(a) = d.artifact {
                assert(all[before.len() as int] == a);
                assert(all.contains(a));
            }
        }
        if native_artifact_of(l, os_name) is Some {
            let a = native_artifact_of(l, os_name)->0;
            assert(nl == seq![a]);
            assert(all[(before.len() + dl.len()) as int] == a);
            assert(all.contains(a));
        }
    } else {
        assert(libs.drop_last()[i] == l);
        lemma_install_fetches_declared_and_native(libs.drop_last(), features, os_name, arch, i);
        let last = libs.last();
        assert forall|x: Artifact| before.contains(x) implies all.contains(x) by {
            let k = choose|k: int| 0 <= k < before.len() && before[k] == x;
            if allowed_by(last.rules, features, os_name, arch) {
                let extra = declared_artifact_seq(last) + native_artifact_seq(last, os_name);
                assert(all =~= before + extra);
            }
            assert(all[k] == x);
        }
        if let Some(d) = l.downloads {
            if let Some(a) = d.artifact {
                assert(before.contains(a));
                assert(all.contains(a));
            }
        }
        if native_artifact_of(l, os_name) is Some {
            assert(before.contains(native_artifact_of(l, os_name)->0));
            assert(all.contains(native_artifact_of(l, os_name)->0));
        }
    }
}

/// The library files an install of this version fetches on this system.
pub fn install_artifacts(
    client_json: &ClientJson,
    features: &Vec<(String, bool)>,
    os_name: &str,
    arch: &str,
) -> (res: Vec<Artifact>)
    ensures
        res@ == install_artifacts_of(client_json.libraries@, features@, os_name@, arch@),
{
    let libs = &client_json.libraries;
    let mut out: Vec<Artifact> = Vec::new();
    let n = libs.len();
    for i in 0..n
        invariant
            n == libs@.len(),
            out@ == install_artifacts_of(libs@.take(i as int), features@, os_name@, arch@),
    {
        let l = &libs[i];
        assert(libs@.take(i + 1).drop_last() =~= libs@.take(i as int));
        assert(libs@.take(i + 1).last() == libs@[i as int]);
        if is_library_allowed(&l.rules, features, os_name, arch) {
            let ghost before = out@;
            if let Some(d) = &l.downloads {
                if let Some(a) = &d.artifact {
                    out.push(copy_artifact(a));
                }
            }
            let ghost with_main = out@;
            if let Some(a) = native_artifact(l, os_name) {
                out.push(a);
            }
            assert(with_main =~= before + declared_artifact_seq(*l));
            assert(out@ =~= before + declared_artifact_seq(*l) + native_artifact_seq(*l, os_name@));
        }
    }
    assert(libs@.take(n as int) =~= libs@);
    out
}

/// The artifacts (as the class path names them) of the libraries used on
/// this system, in order.
pub open spec fn allowed_artifacts_of(
    libs: Seq<Library>,
    features: Seq<(String, bool)>,
    os_name: Seq<char>,
    arch: Seq<char>,
) -> Seq<ArtifactView>
    decreases libs.len(),
{
    if libs.len() == 0 {
        Seq::empty()
    } else {
        let before = allowed_artifacts_of(libs.drop_last(), features, os_name, arch);
        let l = libs.last();
        if allowed_by(l.rules, features, os_name, arch) && library_artifact(l) is Some {
            before.push(library_artifact(l)->0)
        } else {
            before
        }
    }
}

/// The views of a list of artifacts.
pub open spec fn artifact_views(v: Seq<Artifact>) -> Seq<ArtifactView> {
    v.map_values(|a: Artifact| a@)
}

/// The artifacts of the libraries used on this system.
pub fn allowed_artifacts(
    client_json: &ClientJson,
    features: &Vec<(String, bool)>,
    os_name: &str,
    arch: &str,
) -> (res: Vec<Artifact>)
    ensures
        artifact_views(res@) == allowed_artifacts_of(client_json.libraries@, features@, os_name@, arch@),
{
    let libs = &client_json.libraries;
    let mut out: Vec<Artifact> = Vec::new();
    let n = libs.len();
    for i in 0..n
        invariant
            n == libs@.len(),
            artifact_views(out@) == allowed_artifacts_of(libs@.take(i as int), features@, os_name@, arch@),
    {
        let l = &libs[i];
        assert(libs@.take(i + 1).drop_last() =~= libs@.take(i as int));
        assert(libs@.take(i + 1).last() == libs@[i as int]);
        if is_library_allowed(&l.rules, features, os_name, arch) {
            if let Some(a) = resolve_library_artifact(l) {
                let ghost before = artifact_views(out@);
                let ghost av = a@;
                out.push(a);
                assert(artifact_views(out@) =~= before.push(av));
            }
        }
    }
    assert(libs@.take(n as int) =~= libs@);
    out
}

/// The sum of the sizes that `artifacts` declare.
pub open spec fn artifact_bytes(artifacts: Seq<ArtifactView>) -> nat
    decreases artifacts.len(),
{
    if artifacts.len() == 0 {
        0
    } else {
        artifact_bytes(artifacts.drop_last()) + match artifacts.last().size {
            Some(s) => s as nat,
            None => 0nat,
        }
    }
}

/// The sum of the sizes of the assets.
pub open spec fn asset_bytes(objects: Seq<(String, AssetObject)>) -> nat
    decreases objects.len(),
{
    if objects.len() == 0 {
        0
    } else {
        asset_bytes(objects.drop_last()) + objects.last().1.size as nat
    }
}

/// The bytes and files an install fetches: the client jar, the library
/// artifacts and the assets (`None` when a total does not fit in a `u64`).
pub open spec fn install_totals_of(
    client_size: u64,
    artifacts: Seq<ArtifactView>,
    objects: Seq<(String, AssetObject)>,
) -> Option<(u64, u64)> {
    let bytes = client_size + artifact_bytes(artifacts) + asset_bytes(objects);
    let files = 1 + artifacts.len() + objects.len();
    if bytes <= u64::MAX && files <= u64::MAX {
        Some((bytes as u64, files as u64))
    } else {
        None
    }
}

/// The bytes and files an install fetches.
pub fn install_totals(client_size: u64, artifacts: &Vec<Artifact>, objects: &Vec<(String, AssetObject)>) -> (res: Option<(u64, u64)>)
    ensures
        res == install_totals_of(client_size, artifact_views(artifacts@), objects@),
{
    let mut lib_bytes: u64 = 0;
    let n = artifacts.len();
    for i in 0..n
        invariant
            n == artifacts@.len(),
            lib_bytes == artifact_bytes(artifact_views(artifacts@).take(i as int)),
    {
        let ghost av = artifact_views(artifacts@);
        assert(av.take(i + 1).drop_last() =~= av.take(i as int));
        assert(av.take(i + 1).last() == artifacts@[i as int]@);
        let s = match artifacts[i].size {
            Some(s) => s,
            None => 0,
        };
        if s > u64::MAX - lib_bytes {
            proof {
                lemma_artifact_bytes_monotone(av, i + 1);
            }
            return None;
        }
        lib_bytes = lib_bytes + s;
    }
    assert(artifact_views(artifacts@).take(n as int) =~= artifact_views(artifacts@));
    let mut asset_total: u64 = 0;
    let m = objects.len();
    for i in 0..m
        invariant
            m == objects@.len(),
            asset_total == asset_bytes(objects@.take(i as int)),
    {
        assert(objects@.take(i + 1).drop_last() =~= objects@.take(i as int));
        assert(objects@.take(i + 1).last() == objects@[i as int]);
        let s = objects[i].1.size;
        if s > u64::MAX - asset_total {
            proof {
                lemma_asset_bytes_monotone(objects@, i + 1);
            }
            return None;
        }
        asset_total = asset_total + s;
    }
    assert(objects@.take(m as int) =~= objects@);
    if lib_bytes > u64::MAX - client_size || asset_total > u64::MAX - client_size - lib_bytes {
        return None;
    }
    if n as u64 >= u64::MAX || m as u64 > u64::MAX - 1 - n as u64 {
        return None;
    }
    Some((client_size + lib_bytes + asset_total, 1 + n as u64 + m as u64))
}

/// The sizes of a prefix of artifacts add up to at most those of all.
pub proof fn lemma_artifact_bytes_monotone(a: Seq<ArtifactView>, k: int)
    requires
        0 <= k <= a.len(),
    ensures
        artifact_bytes(a.take(k)) <= artifact_bytes(a),
    decreases a.len() - k,
{
    if k < a.len() {
        assert(a.take(k + 1).drop_last() =~= a.take(k));
        lemma_artifact_bytes_monotone(a, k + 1);
    } else {
        assert(a.take(k) =~= a);
    }
}

/// The sizes of a prefix of assets add up to at most those of all.
pub proof fn lemma_asset_bytes_monotone(o: Seq<(String, AssetObject)>, k: int)
    requires
        0 <= k <= o.len(),
    ensures
        asset_bytes(o.take(k)) <= asset_bytes(o),
    decreases o.len() - k,
{
    if k < o.len() {
        assert(o.take(k + 1).drop_last() =~= o.take(k));
        lemma_asset_bytes_monotone(o, k + 1);
    } else {
        assert(o.take(k) =~= o);
    }
}

/// The characters of `hash` that make up its first two UTF-8 bytes, when
/// a character ends there: two one-byte characters, or one two-byte
/// character.
pub open spec fn two_byte_prefix(hash: Seq<char>) -> Option<Seq<char>> {
    if hash.len() >= 1 && 0x80 <= hash[0] as u32 <= 0x7ff {
        Some(hash.take(1))
    } else if hash.len() >= 2 && (hash[0] as u32) < 0x80 && (hash[1] as u32) < 0x80 {
        Some(hash.take(2))
    } else {
        None
    }
}

/// The download of an asset: from
/// `https://resources.download.minecraft.net/<first two bytes>/<hash>` to
/// `assets/objects/<first two bytes>/<hash>`, checked against its hash.
pub open spec fn asset_download_of(hash: Seq<char>, size: u64) -> (Seq<char>, Option<u64>, Option<Seq<char>>, Seq<char>) {
    let prefix = two_byte_prefix(hash)->0;
    (
        "https://resources.download.minecraft.net/"@ + prefix + seq!['/'] + hash,
        Some(size),
        Some(hash),
        "assets/objects/"@ + prefix + seq!['/'] + hash,
    )
}

/// The download of an asset.  The first two bytes of its hash must end on
/// a character boundary (asset hashes are hexadecimal).
pub fn asset_download(object: &AssetObject) -> (res: DownloadObject)
    requires
        two_byte_prefix(object.hash@) is Some,
    ensures
        download_view(res) == asset_download_of(object.hash@, object.size),
{
    let h = chars_of(object.hash.as_str());
    let first = h[0] as u32;
    let k: usize = if 0x80 <= first && first <= 0x7ff {
        1
    } else {
        2
    };
    let prefix = string_of(slice_range(h.as_slice(), 0, k).as_slice());
    let mut url = String::from_str("https://resources.download.minecraft.net/");
    url.append(prefix.as_str());
    url.append("/");
    url.append(object.hash.as_str());
    let mut path = String::from_str("assets/objects/");
    path.append(prefix.as_str());
    path.append("/");
    path.append(object.hash.as_str());
    proof {
        reveal_strlit("/");
        assert(h@.subrange(0, k as int) == two_byte_prefix(object.hash@)->0);
    }
    DownloadObject { url, size: Some(object.size), sha1: Some(object.hash.clone()), file_path: path }
}

/// The download of an asset index, to `assets/indexes/<id>.json`.
pub fn asset_index_download(index: &AssetIndex) -> (res: DownloadObject)
    ensures
        download_view(res) == (index.url@, Some(index.size), Some(index.sha1@), "assets/indexes/"@
            + index.id@ + ".json"@),
{
    let mut path = String::from_str("assets/indexes/");
    path.append(index.id.as_str());
    path.append(".json");
    DownloadObject { url: index.url.clone(), size: Some(index.size), sha1: Some(index.sha1.clone()), file_path: path }
}

/// The download of a version's client jar, to `versions/<id>/<id>.jar`.
pub fn client_jar_download(downloads: &ClientDownloads, version_id: &str) -> (res: DownloadObject)
    ensures
        download_view(res) == (downloads.client.url@, Some(downloads.client.size), Some(
            downloads.client.sha1@,
        ), "versions/"@ + version_id@ + seq!['/'] + version_id@ + ".jar"@),
{
    let mut path = String::from_str("versions/");
    path.append(version_id);
    path.append("/");
    path.append(version_id);
    path.append(".jar");
    proof {
        reveal_strlit("/");
    }
    DownloadObject {
        url: downloads.client.url.clone(),
        size: Some(downloads.client.size),
        sha1: Some(downloads.client.sha1.clone()),
        file_path: path,
    }
}

/// The download of a logging configuration, to `assets/log_configs/<id>`.
pub fn log_config_download(file: &LoggingFile, windows: bool) -> (res: DownloadObject)
    ensures
        download_view(res) == (file.url@, Some(file.size), Some(file.sha1@), path_join(
            path_join("assets"@, "log_configs"@, windows),
            file.id@,
            windows,
        )),
{
    DownloadObject {
        url: file.url.clone(),
        size: Some(file.size),
        sha1: Some(file.sha1.clone()),
        file_path: join_path(join_path("assets", "log_configs", windows).as_str(), file.id.as_str(), windows),
    }
}

/// An archive entry named `name` is left out of native extraction: some
/// exclusion is a prefix of its name.
pub open spec fn excluded_of(name: Seq<char>, exclude: Option<Vec<String>>) -> bool {
    match exclude {
        Some(ex) => exists|i: int| 0 <= i < ex@.len() && has_prefix(name, #[trigger] ex@[i]@),
        None => false,
    }
}

/// An archive entry named `name` is left out of native extraction.
pub fn excluded_from_extraction(name: &str, exclude: &Option<Vec<String>>) -> (res: bool)
    ensures
        res == excluded_of(name@, *exclude),
{
    match exclude {
        None => false,
        Some(ex) => {
            let nm = chars_of(name);
            let n = ex.len();
            for i in 0..n
                invariant
                    n == ex@.len(),
                    nm@ == name@,
                    exclude is Some,
                    exclude->0 == *ex,
                    forall|j: int| 0 <= j < i ==> !has_prefix(name@, #[trigger] ex@[j]@),
            {
                if starts_with(nm.as_slice(), chars_of(ex[i].as_str()).as_slice()) {
                    assert(has_prefix(name@, ex@[i as int]@));
                    return true;
                }
            }
            false
        },
    }
}

} // verus!
