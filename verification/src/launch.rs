//! The command line a version is started with: the class path, the values
//! of the argument placeholders, and the JVM and game arguments.

use vstd::prelude::*;
use crate::client_json::{Argument, ClientJson, Library};
use crate::digest::{offline_uuid, offline_uuid_of};
use crate::maven::{library_artifact, resolve_library_artifact};
use crate::rules::{allowed_by, is_library_allowed};
use crate::runtime::{
    join_path, pair_views, path_join, resolve_argument, resolved, substitute, substituted,
    substituted_each,
};
use crate::text::{chars_of, decimal, decimal_of, has_suffix, extend_chars, split_words, string_of, views, vviews, words};

verus! {

/// What a launch is asked for and where it happens.
pub struct LaunchRequest {
    /// The version to start.
    pub version_id: String,
    /// The version whose game jar is used (the one a profile inherits from).
    pub base_id: String,
    pub username: String,
    pub minecraft_dir: String,
    /// The system name rules use (see `rule_os_name`).
    pub os_name: String,
    pub arch: String,
    /// The launcher runs on Windows (class path entries are then separated by `;`).
    pub windows: bool,
    pub launcher_version: String,
    pub features: Vec<(String, bool)>,
    pub min_memory_mb: Option<u32>,
    pub max_memory_mb: Option<u32>,
}

/// The command line of a launch: `java <jvm_args> <main_class> <game_args>`.
pub struct LaunchPlan {
    pub jvm_args: Vec<String>,
    pub main_class: String,
    pub game_args: Vec<String>,
}

/// The Java a version needs: its major version (8 when it names none) and
/// the runtime component that provides it (`jre-legacy` when it names none).
pub open spec fn java_requirement_of(client_json: ClientJson) -> (u32, Seq<char>) {
    match client_json.java_version {
        Some(j) => (j.major_version, j.component@),
        None => (8, "jre-legacy"@),
    }
}

/// The Java a version needs.
pub fn java_requirement(client_json: &ClientJson) -> (res: (u32, String))
    ensures
        (res.0, res.1@) == java_requirement_of(*client_json),
{
    match &client_json.java_version {
        Some(j) => (j.major_version, j.component.clone()),
        None => (8, "jre-legacy".to_owned()),
    }
}

/// The directory native libraries of a version are unpacked to:
/// `<minecraft_dir>/versions/<id>/<id>-natives`.
pub open spec fn natives_dir_of(minecraft_dir: Seq<char>, version_id: Seq<char>, windows: bool) -> Seq<char> {
    path_join(path_join(path_join(minecraft_dir, "versions"@, windows), version_id, windows), version_id + "-natives"@, windows)
}

/// The directory native libraries of a version are unpacked to.
pub fn natives_dir(minecraft_dir: &str, version_id: &str, windows: bool) -> (res: String)
    ensures
        res@ == natives_dir_of(minecraft_dir@, version_id@, windows),
{
    let a = join_path(minecraft_dir, "versions", windows);
    let b = join_path(a.as_str(), version_id, windows);
    let mut leaf = String::from_str(version_id);
    leaf.append("-natives");
    join_path(b.as_str(), leaf.as_str(), windows)
}

/// The game jar of a version: `<minecraft_dir>/versions/<id>/<id>.jar`.
pub open spec fn version_jar_of(minecraft_dir: Seq<char>, version_id: Seq<char>, windows: bool) -> Seq<char> {
    path_join(path_join(path_join(minecraft_dir, "versions"@, windows), version_id, windows), version_id + ".jar"@, windows)
}

/// The game jar of a version.
pub fn version_jar(minecraft_dir: &str, version_id: &str, windows: bool) -> (res: String)
    ensures
        res@ == version_jar_of(minecraft_dir@, version_id@, windows),
{
    let a = join_path(minecraft_dir, "versions", windows);
    let b = join_path(a.as_str(), version_id, windows);
    let mut leaf = String::from_str(version_id);
    leaf.append(".jar");
    join_path(b.as_str(), leaf.as_str(), windows)
}

/// The files of the libraries that are used on this system, in order:
/// `<minecraft_dir>/libraries/<artifact path>`.
pub open spec fn library_files_of(
    libs: Seq<Library>,
    features: Seq<(String, bool)>,
    os_name: Seq<char>,
    arch: Seq<char>,
    minecraft_dir: Seq<char>,
    windows: bool,
) -> Seq<Seq<char>>
    decreases libs.len(),
{
    if libs.len() == 0 {
        Seq::empty()
    } else {
        let before = library_files_of(libs.drop_last(), features, os_name, arch, minecraft_dir, windows);
        let l = libs.last();
        if allowed_by(l.rules, features, os_name, arch) && library_artifact(l) is Some {
            before.push(path_join(path_join(minecraft_dir, "libraries"@, windows), library_artifact(l)->0.path, windows))
        } else {
            before
        }
    }
}

/// `parts` separated by `sep`.
pub open spec fn joined(parts: Seq<Seq<char>>, sep: Seq<char>) -> Seq<char>
    decreases parts.len(),
{
    if parts.len() == 0 {
        Seq::empty()
    } else if parts.len() == 1 {
        parts[0]
    } else {
        joined(parts.drop_last(), sep) + sep + parts.last()
    }
}

/// The separator of class path entries.
pub open spec fn classpath_separator(windows: bool) -> Seq<char> {
    if windows {
        seq![';']
    } else {
        seq![':']
    }
}

/// The class path of a launch: the files of the libraries in use, then the
/// game jar of the base version.
pub open spec fn classpath_of(client_json: ClientJson, req: LaunchRequest) -> Seq<char> {
    joined(
        library_files_of(
            client_json.libraries@,
            req.features@,
            req.os_name@,
            req.arch@,
            req.minecraft_dir@,
            req.windows,
        ).push(version_jar_of(req.minecraft_dir@, req.base_id@, req.windows)),
        classpath_separator(req.windows),
    )
}

/// The values of the argument placeholders, in the order they are substituted.
pub open spec fn launch_values_of(client_json: ClientJson, req: LaunchRequest) -> Seq<(Seq<char>, Seq<char>)> {
    let mc = req.minecraft_dir@;
    seq![
        ("auth_player_name"@, req.username@),
        ("version_name"@, req.version_id@),
        ("game_directory"@, mc),
        ("assets_root"@, path_join(mc, "assets"@, req.windows)),
        ("assets_index_name"@, match client_json.asset_index {
            Some(a) => a.id@,
            None => req.version_id@,
        }),
        ("auth_uuid"@, offline_uuid_of(req.username@)),
        ("auth_access_token"@, "0"@),
        ("user_type"@, "legacy"@),
        ("user_properties"@, "{}"@),
        ("version_type"@, match client_json.kind {
            Some(k) => k@,
            None => "release"@,
        }),
        ("natives_directory"@, natives_dir_of(mc, req.version_id@, req.windows)),
        ("launcher_name"@, "null-launcher"@),
        ("launcher_version"@, req.launcher_version@),
        ("classpath"@, classpath_of(client_json, req)),
    ]
}

/// The strings a list of argument entries stands for, in order.
pub open spec fn resolved_all(
    args: Seq<Argument>,
    features: Seq<(String, bool)>,
    values: Seq<(Seq<char>, Seq<char>)>,
    os_name: Seq<char>,
    arch: Seq<char>,
) -> Seq<Seq<char>>
    decreases args.len(),
{
    if args.len() == 0 {
        Seq::empty()
    } else {
        resolved_all(args.drop_last(), features, values, os_name, arch) + resolved(
            args.last(),
            features,
            values,
            os_name,
            arch,
        )
    }
}

/// The file a logging configuration is stored in.
pub open spec fn log_config_path_of(minecraft_dir: Seq<char>, id: Seq<char>, windows: bool) -> Seq<char> {
    path_join(minecraft_dir, path_join(path_join("assets"@, "log_configs"@, windows), id, windows), windows)
}

/// The JVM arguments of a launch: those the version lists (or, for a legacy
/// version, the library path, `-cp` and the class path), then the logging
/// argument, then the memory limits.
pub open spec fn jvm_args_of(client_json: ClientJson, req: LaunchRequest) -> Seq<Seq<char>> {
    let values = launch_values_of(client_json, req);
    let listed = match client_json.arguments {
        Some(a) => resolved_all(
            crate::client_json::entries(a.jvm),
            req.features@,
            values,
            req.os_name@,
            req.arch@,
        ),
        None => seq![
            "-Djava.library.path="@ + natives_dir_of(req.minecraft_dir@, req.version_id@, req.windows),
            "-cp"@,
            classpath_of(client_json, req),
        ],
    };
    let logging = match client_json.logging {
        Some(l) => seq![
            substituted(
                l.client.argument@,
                seq![("path"@, log_config_path_of(req.minecraft_dir@, l.client.file.id@, req.windows))],
            ),
        ],
        None => Seq::empty(),
    };
    let min = match req.min_memory_mb {
        Some(m) => seq!["-Xms"@ + decimal(m as nat) + "M"@],
        None => Seq::empty(),
    };
    let max = match req.max_memory_mb {
        Some(m) => seq!["-Xmx"@ + decimal(m as nat) + "M"@],
        None => Seq::empty(),
    };
    listed + logging + min + max
}

/// The game arguments of a launch: those the version lists, or the words
/// of its legacy argument string, placeholders substituted.
pub open spec fn game_args_of(client_json: ClientJson, req: LaunchRequest) -> Seq<Seq<char>> {
    let values = launch_values_of(client_json, req);
    match client_json.arguments {
        Some(a) => resolved_all(
            crate::client_json::entries(a.game),
            req.features@,
            values,
            req.os_name@,
            req.arch@,
        ),
        None => match client_json.minecraft_arguments {
            Some(l) => substituted_each(words(l@), values),
            None => Seq::empty(),
        },
    }
}

proof fn lemma_joined_ends_with_last(parts: Seq<Seq<char>>, sep: Seq<char>)
    requires
        parts.len() > 0,
    ensures
        has_suffix(joined(parts, sep), parts.last()),
{
    let j = joined(parts, sep);
    let x = parts.last();
    if parts.len() == 1 {
        assert(j.skip(0) =~= x);
    } else {
        assert(j.skip(j.len() - x.len()) =~= x);
    }
}

/// A launch uses the game jar of the version it inherits from: its class
/// path ends with `<minecraft_dir>/versions/<base_id>/<base_id>.jar`.
pub proof fn lemma_classpath_ends_with_base_jar(client_json: ClientJson, req: LaunchRequest)
    ensures
        has_suffix(
            classpath_of(client_json, req),
            path_join(
                path_join(path_join(req.minecraft_dir@, "versions"@, req.windows), req.base_id@, req.windows),
                req.base_id@ + ".jar"@,
                req.windows,
            ),
        ),
{
    let files = library_files_of(
        client_json.libraries@,
        req.features@,
        req.os_name@,
        req.arch@,
        req.minecraft_dir@,
        req.windows,
    ).push(version_jar_of(req.minecraft_dir@, req.base_id@, req.windows));
    lemma_joined_ends_with_last(files, classpath_separator(req.windows));
}

/// The class path does not depend on the version being launched, only on
/// the one it inherits from: requests that differ only in `version_id`
/// have the same class path.
pub proof fn lemma_classpath_ignores_version_id(client_json: ClientJson, req: LaunchRequest, other: LaunchRequest)
    requires
        other == (LaunchRequest { version_id: other.version_id, ..req }),
    ensures
        classpath_of(client_json, req) == classpath_of(client_json, other),
{
}

/// The `natives_directory` placeholder names the directory natives are
/// unpacked to for the version being launched,
/// `<minecraft_dir>/versions/<version_id>/<version_id>-natives`, and
/// nothing else goes by that name.
pub proof fn lemma_natives_directory_of_launched_version(client_json: ClientJson, req: LaunchRequest)
    ensures
        ({
            let dir = path_join(
                path_join(path_join(req.minecraft_dir@, "versions"@, req.windows), req.version_id@, req.windows),
                req.version_id@ + "-natives"@,
                req.windows,
            );
            let values = launch_values_of(client_json, req);
            &&& values.contains(("natives_directory"@, dir))
            &&& forall|i: int| 0 <= i < values.len() && (#[trigger] values[i]).0 == "natives_directory"@ ==> values[i].1 == dir
        }),
{
    let values = launch_values_of(client_json, req);
    reveal_strlit("auth_player_name");
    reveal_strlit("version_name");
    reveal_strlit("game_directory");
    reveal_strlit("assets_root");
    reveal_strlit("assets_index_name");
    reveal_strlit("auth_uuid");
    reveal_strlit("auth_access_token");
    reveal_strlit("user_type");
    reveal_strlit("user_properties");
    reveal_strlit("version_type");
    reveal_strlit("natives_directory");
    reveal_strlit("launcher_name");
    reveal_strlit("launcher_version");
    reveal_strlit("classpath");
    assert(values[10] == ("natives_directory"@, natives_dir_of(req.minecraft_dir@, req.version_id@, req.windows)));
    assert forall|i: int| 0 <= i < values.len() && (#[trigger] values[i]).0 == "natives_directory"@ implies i == 10 by {
        if i != 10 {
            assert(values[i].0 != "natives_directory"@) by {
                if i == 4 || i == 6 {
                    assert(values[i].0[0] != "natives_directory"@[0]);
                } else {
                    assert(values[i].0.len() != "natives_directory"@.len());
                }
            }
        }
    }
}

/// A version with legacy arguments (no `arguments` block) is started with
/// its natives directory as the library path and the launch's class path:
/// the JVM arguments begin `-Djava.library.path=<natives dir>`, `-cp`,
/// `<class path>`, and the class path is the one the `classpath`
/// placeholder stands for.
pub proof fn lemma_legacy_jvm_arguments(client_json: ClientJson, req: LaunchRequest)
    requires
        client_json.arguments is None,
    ensures
        ({
            let args = jvm_args_of(client_json, req);
            let dir = path_join(
                path_join(path_join(req.minecraft_dir@, "versions"@, req.windows), req.version_id@, req.windows),
                req.version_id@ + "-natives"@,
                req.windows,
            );
            &&& args.len() >= 3
            &&& args[0] == "-Djava.library.path="@ + dir
            &&& args[1] == "-cp"@
            &&& args[2] == classpath_of(client_json, req)
            &&& launch_values_of(client_json, req).last() == ("classpath"@, args[2])
        }),
{
}

/// The memory limits of a request always reach the JVM, whatever form of
/// arguments the version description has: `-Xms<min>M` and `-Xmx<max>M`.
pub proof fn lemma_memory_limits_reach_the_jvm(client_json: ClientJson, req: LaunchRequest)
    ensures
        req.min_memory_mb matches Some(m) ==> jvm_args_of(client_json, req).contains("-Xms"@ + decimal(m as nat) + "M"@),
        req.max_memory_mb matches Some(m) ==> jvm_args_of(client_json, req).contains("-Xmx"@ + decimal(m as nat) + "M"@),
{
    let args = jvm_args_of(client_json, req);
    if let Some(m) = req.max_memory_mb {
        assert(args.last() == "-Xmx"@ + decimal(m as nat) + "M"@);
        assert(args[args.len() - 1] == args.last());
    }
    if let Some(m) = req.min_memory_mb {
        let k = args.len() - 1 - (if req.max_memory_mb is Some { 1int } else { 0int });
        assert(args[k] == "-Xms"@ + decimal(m as nat) + "M"@);
    }
}

/// The files of the libraries that are used on this system.
pub fn library_files(client_json: &ClientJson, req: &LaunchRequest) -> (res: Vec<String>)
    ensures
        views(res@) == library_files_of(
            client_json.libraries@,
            req.features@,
            req.os_name@,
            req.arch@,
            req.minecraft_dir@,
            req.windows,
        ),
{
    let libs = &client_json.libraries;
    let lib_dir = join_path(req.minecraft_dir.as_str(), "libraries", req.windows);
    let mut out: Vec<String> = Vec::new();
    let n = libs.len();
    for i in 0..n
        invariant
            n == libs@.len(),
            lib_dir@ == path_join(req.minecraft_dir@, "libraries"@, req.windows),
            views(out@) == library_files_of(
                libs@.take(i as int),
                req.features@,
                req.os_name@,
                req.arch@,
                req.minecraft_dir@,
                req.windows,
            ),
    {
        let l = &libs[i];
        assert(libs@.take(i + 1).drop_last() =~= libs@.take(i as int));
        assert(libs@.take(i + 1).last() == libs@[i as int]);
        if is_library_allowed(&l.rules, &req.features, req.os_name.as_str(), req.arch.as_str()) {
            if let Some(a) = resolve_library_artifact(l) {
                let ghost before = views(out@);
                let p = join_path(lib_dir.as_str(), a.path.as_str(), req.windows);
                let ghost pv = p@;
                out.push(p);
                assert(views(out@) =~= before.push(pv));
            }
        }
    }
    assert(libs@.take(n as int) =~= libs@);
    out
}

/// `parts` separated by `sep`.
pub fn join_strings(parts: &Vec<String>, sep: &str) -> (res: String)
    ensures
        res@ == joined(views(parts@), sep@),
{
    let s = chars_of(sep);
    let mut out: Vec<char> = Vec::new();
    let n = parts.len();
    for i in 0..n
        invariant
            n == parts@.len(),
            s@ == sep@,
            out@ == joined(views(parts@).take(i as int), sep@),
    {
        let ghost t = views(parts@).take(i + 1);
        assert(t.drop_last() =~= views(parts@).take(i as int));
        if i > 0 {
            extend_chars(&mut out, s.as_slice());
        } else {
            assert(out@ == Seq::<char>::empty());
        }
        extend_chars(&mut out, chars_of(parts[i].as_str()).as_slice());
        proof {
            if i == 0 {
                assert(out@ =~= t[0]);
            }
        }
    }
    assert(views(parts@).take(n as int) =~= views(parts@));
    string_of(out.as_slice())
}

/// The class path of a launch.
pub fn classpath(client_json: &ClientJson, req: &LaunchRequest) -> (res: String)
    ensures
        res@ == classpath_of(*client_json, *req),
{
    let mut entries = library_files(client_json, req);
    let ghost before = views(entries@);
    entries.push(version_jar(req.minecraft_dir.as_str(), req.base_id.as_str(), req.windows));
    assert(views(entries@) =~= before.push(version_jar_of(req.minecraft_dir@, req.base_id@, req.windows)));
    proof {
        reveal_strlit(";");
        reveal_strlit(":");
    }
    let sep = if req.windows { ";" } else { ":" };
    assert(sep@ =~= classpath_separator(req.windows));
    join_strings(&entries, sep)
}

/// A pair of owned strings.
fn pair(key: &str, value: String) -> (res: (String, String))
    ensures
        res.0@ == key@,
        res.1@ == value@,
{
    (key.to_owned(), value)
}

/// The values of the argument placeholders of a launch.
pub fn launch_values(client_json: &ClientJson, req: &LaunchRequest) -> (res: Vec<(String, String)>)
    ensures
        pair_views(res@) == launch_values_of(*client_json, *req),
{
    let mc = req.minecraft_dir.as_str();
    let mut v: Vec<(String, String)> = Vec::new();
    v.push(pair("auth_player_name", req.username.clone()));
    v.push(pair("version_name", req.version_id.clone()));
    v.push(pair("game_directory", req.minecraft_dir.clone()));
    v.push(pair("assets_root", join_path(mc, "assets", req.windows)));
    v.push(
        pair(
            "assets_index_name",
            match &client_json.asset_index {
                Some(a) => a.id.clone(),
                None => req.version_id.clone(),
            },
        ),
    );
    v.push(pair("auth_uuid", offline_uuid(req.username.as_str())));
    v.push(pair("auth_access_token", "0".to_owned()));
    v.push(pair("user_type", "legacy".to_owned()));
    v.push(pair("user_properties", "{}".to_owned()));
    v.push(
        pair(
            "version_type",
            match &client_json.kind {
                Some(k) => k.clone(),
                None => "release".to_owned(),
            },
        ),
    );
    v.push(pair("natives_directory", natives_dir(mc, req.version_id.as_str(), req.windows)));
    v.push(pair("launcher_name", "null-launcher".to_owned()));
    v.push(pair("launcher_version", req.launcher_version.clone()));
    v.push(pair("classpath", classpath(client_json, req)));
    assert(pair_views(v@) =~= launch_values_of(*client_json, *req));
    v
}

/// The strings a list of argument entries stands for.
fn resolve_all(
    args: &Vec<Argument>,
    features: &Vec<(String, bool)>,
    values: &Vec<(String, String)>,
    os_name: &str,
    arch: &str,
) -> (res: Vec<String>)
    ensures
        views(res@) == resolved_all(args@, features@, pair_views(values@), os_name@, arch@),
{
    let mut out: Vec<String> = Vec::new();
    let n = args.len();
    for i in 0..n
        invariant
            n == args@.len(),
            views(out@) == resolved_all(args@.take(i as int), features@, pair_views(values@), os_name@, arch@),
    {
        let r = resolve_argument(&args[i], features, values, os_name, arch);
        let ghost before = views(out@);
        let mut r2 = r;
        let ghost rv = views(r2@);
        out.append(&mut r2);
        assert(views(out@) =~= before + rv);
        assert(args@.take(i + 1).drop_last() =~= args@.take(i as int));
    }
    assert(args@.take(n as int) =~= args@);
    out
}

/// A memory limit argument: `<flag><megabytes>M`.
fn memory_arg(flag: &str, mb: u32) -> (res: String)
    ensures
        res@ == flag@ + decimal(mb as nat) + "M"@,
{
    let mut s = String::from_str(flag);
    let d = decimal_of(mb as u64);
    s.append(string_of(d.as_slice()).as_str());
    s.append("M");
    s
}

/// The command line of a launch, or an error when the version names no
/// main class.
pub fn launch_arguments(client_json: &ClientJson, req: &LaunchRequest) -> (res: Result<LaunchPlan, String>)
    ensures
        client_json.main_class is None <==> res is Err,
        res matches Err(e) ==> e@ == "client json has no mainClass"@,
        res matches Ok(plan) ==> {
            &&& plan.main_class@ == client_json.main_class->0@
            &&& views(plan.jvm_args@) == jvm_args_of(*client_json, *req)
            &&& views(plan.game_args@) == game_args_of(*client_json, *req)
        },
{
    let main_class = match &client_json.main_class {
        Some(m) => m.clone(),
        None => return Err("client json has no mainClass".to_owned()),
    };
    let values = launch_values(client_json, req);
    let os = req.os_name.as_str();
    let arch = req.arch.as_str();
    let mut jvm: Vec<String> = Vec::new();
    let mut game: Vec<String> = Vec::new();
    match &client_json.arguments {
        Some(a) => {
            let empty: Vec<Argument> = Vec::new();
            let jl = match &a.jvm {
                Some(l) => l,
                None => &empty,
            };
            let gl = match &a.game {
                Some(l) => l,
                None => &empty,
            };
            jvm = resolve_all(jl, &req.features, &values, os, arch);
            game = resolve_all(gl, &req.features, &values, os, arch);
        },
        None => {
            let natives = natives_dir(req.minecraft_dir.as_str(), req.version_id.as_str(), req.windows);
            let mut lib_path = String::from_str("-Djava.library.path=");
            lib_path.append(natives.as_str());
            jvm.push(lib_path);
            jvm.push("-cp".to_owned());
            jvm.push(classpath(client_json, req));
            if let Some(legacy) = &client_json.minecraft_arguments {
                let ws = split_words(chars_of(legacy.as_str()).as_slice());
                let n = ws.len();
                for i in 0..n
                    invariant
                        n == ws@.len(),
                        vviews(ws@) == words(legacy@),
                        game@.len() == i,
                        views(game@) == substituted_each(vviews(ws@).take(i as int), pair_views(values@)),
                {
                    let part = string_of(ws[i].as_slice());
                    let ghost before = views(game@);
                    game.push(substitute(part.as_str(), &values));
                    assert(vviews(ws@).take(i + 1).drop_last() =~= vviews(ws@).take(i as int));
                    assert(views(game@) =~= before.push(game@[i as int]@));
                }
                assert(vviews(ws@).take(n as int) =~= vviews(ws@));
            } else {
                assert(views(game@) =~= Seq::<Seq<char>>::empty());
            }
        },
    }
    let ghost listed = views(jvm@);
    assert(listed == match client_json.arguments {
        Some(a) => resolved_all(
            crate::client_json::entries(a.jvm),
            req.features@,
            launch_values_of(*client_json, *req),
            req.os_name@,
            req.arch@,
        ),
        None => seq![
            "-Djava.library.path="@ + natives_dir_of(req.minecraft_dir@, req.version_id@, req.windows),
            "-cp"@,
            classpath_of(*client_json, *req),
        ],
    });
    if let Some(l) = &client_json.logging {
        let rel = join_path(join_path("assets", "log_configs", req.windows).as_str(), l.client.file.id.as_str(), req.windows);
        let path = join_path(req.minecraft_dir.as_str(), rel.as_str(), req.windows);
        let mut log_values: Vec<(String, String)> = Vec::new();
        log_values.push(pair("path", path));
        assert(pair_views(log_values@) =~= seq![("path"@, log_config_path_of(req.minecraft_dir@, l.client.file.id@, req.windows))]);
        jvm.push(substitute(l.client.argument.as_str(), &log_values));
    }
    let ghost with_logging = views(jvm@);
    if let Some(m) = req.min_memory_mb {
        jvm.push(memory_arg("-Xms", m));
    }
    let ghost with_min = views(jvm@);
    if let Some(m) = req.max_memory_mb {
        jvm.push(memory_arg("-Xmx", m));
    }
    assert(views(jvm@) =~= jvm_args_of(*client_json, *req));
    Ok(LaunchPlan { jvm_args: jvm, main_class, game_args: game })
}

} // verus!
