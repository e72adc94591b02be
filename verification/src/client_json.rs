//! The version description ("client json") of a Minecraft version or of a
//! mod-loader profile, and the operations on it.
//!
//! JSON objects that map names to values are held as vectors of
//! `(name, value)` pairs.  A JSON object names each key once, so pairs read
//! from JSON have distinct names (`keys_distinct`); lookups take the first
//! pair with a name, and with distinct names that is the only one.

use vstd::prelude::*;
use crate::text::{
    chars_of, first_index_of, has_prefix, index_of, lemma_first_index_of, slice_prefix,
    slice_suffix, split_words, starts_with, string_of, vviews, words,
};

verus! {

/// The names of a list of `(name, value)` pairs are distinct, as the keys
/// of a JSON object are.
pub open spec fn keys_distinct<V>(m: Seq<(String, V)>) -> bool {
    forall|i: int, j: int| 0 <= i < j < m.len() ==> m[i].0@ != m[j].0@
}

/// A version description.
#[derive(Debug, Clone, PartialEq)]
pub struct ClientJson {
    pub id: Option<String>,
    pub kind: Option<String>,
    pub inherits_from: Option<String>,
    pub arguments: Option<Arguments>,
    pub downloads: Option<ClientDownloads>,
    pub libraries: Vec<Library>,
    pub main_class: Option<String>,
    pub asset_index: Option<AssetIndex>,
    pub minecraft_arguments: Option<String>,
    pub java_version: Option<JavaVersion>,
    pub logging: Option<Logging>,
}

/// Logging configuration of the client.
#[derive(Debug, Clone, PartialEq)]
pub struct Logging {
    pub client: LoggingClient,
}

/// The JVM argument that installs a logging configuration, and its file.
#[derive(Debug, Clone, PartialEq)]
pub struct LoggingClient {
    pub argument: String,
    pub file: LoggingFile,
}

/// A logging configuration file.
#[derive(Debug, Clone, PartialEq)]
pub struct LoggingFile {
    pub id: String,
    pub sha1: String,
    pub size: u64,
    pub url: String,
}

/// The Java runtime a version asks for.
#[derive(Debug, Clone, PartialEq)]
pub struct JavaVersion {
    pub component: String,
    pub major_version: u32,
}

/// A downloadable file with its hash and size.
#[derive(Debug, Clone, PartialEq)]
pub struct Download {
    pub sha1: String,
    pub size: u64,
    pub url: String,
}

/// The game jars of a version.
#[derive(Debug, Clone, PartialEq)]
pub struct ClientDownloads {
    pub client: Download,
    pub client_mappings: Option<Download>,
}

/// A library, named by Maven coordinates `group:artifact:version[:classifier][@ext]`.
#[derive(Debug, Clone, PartialEq)]
pub struct Library {
    pub name: String,
    pub downloads: Option<LibraryDownloads>,
    pub url: Option<String>,
    pub rules: Option<Vec<Rule>>,
    /// Operating system name to native classifier.
    pub natives: Option<Vec<(String, String)>>,
    pub extract: Option<Extract>,
}

/// Where the files of a library come from.
#[derive(Debug, Clone, PartialEq)]
pub struct LibraryDownloads {
    pub artifact: Option<Artifact>,
    /// Classifier to artifact.
    pub classifiers: Option<Vec<(String, Artifact)>>,
}

/// What not to unpack from a native library.
#[derive(Debug, Clone, PartialEq)]
pub struct Extract {
    pub exclude: Option<Vec<String>>,
}

/// A file of a library: where it goes under `libraries/` and where it comes from.
#[derive(Debug, Clone, PartialEq)]
pub struct Artifact {
    pub path: String,
    pub sha1: Option<String>,
    pub size: Option<u64>,
    pub url: String,
}

/// The asset index a version uses.
#[derive(Debug, Clone, PartialEq)]
pub struct AssetIndex {
    pub id: String,
    pub sha1: String,
    pub size: u64,
    pub url: String,
    pub total_size: u64,
}

/// Game and JVM arguments of a version.
#[derive(Debug, Clone, PartialEq)]
pub struct Arguments {
    pub game: Option<Vec<Argument>>,
    pub jvm: Option<Vec<Argument>>,
}

/// One argument entry: a plain string, or values that apply under rules.
#[derive(Debug, Clone, PartialEq)]
pub enum Argument {
    Simple(String),
    Conditional { rules: Vec<Rule>, value: ArgumentValue },
}

/// The value of a conditional argument.
#[derive(Debug, Clone, PartialEq)]
pub enum ArgumentValue {
    Single(String),
    Multiple(Vec<String>),
}

/// A rule that allows or disallows something on some systems or with some features.
#[derive(Debug, Clone, PartialEq)]
pub struct Rule {
    pub action: Option<String>,
    /// Feature name to the value the rule asks for.
    pub features: Option<Vec<(String, bool)>>,
    pub os: Option<OS>,
}

/// The system a rule is about.
#[derive(Debug, Clone, PartialEq)]
pub struct OS {
    pub name: Option<String>,
    pub version: Option<String>,
    pub arch: Option<String>,
}

/// The plain contents of an artifact.
pub struct ArtifactView {
    pub path: Seq<char>,
    pub sha1: Option<Seq<char>>,
    pub size: Option<u64>,
    pub url: Seq<char>,
}

impl View for Artifact {
    type V = ArtifactView;

    open spec fn view(&self) -> ArtifactView {
        ArtifactView {
            path: self.path@,
            sha1: match self.sha1 {
                Some(s) => Some(s@),
                None => None,
            },
            size: self.size,
            url: self.url@,
        }
    }
}

// ---------------------------------------------------------------------------
// Merging a profile into the version it inherits from
// ---------------------------------------------------------------------------

/// The identity of a library for overriding: its coordinates up to the
/// second `:` (`group:artifact`), or all of them when they have fewer parts.
pub open spec fn library_key_of(name: Seq<char>) -> Seq<char> {
    match first_index_of(name, ':') {
        None => name,
        Some(i) => match first_index_of(name.skip(i + 1), ':') {
            None => name,
            Some(j) => name.take(i + 1 + j),
        },
    }
}

/// The keys of a list of libraries.
pub open spec fn library_keys(libs: Seq<Library>) -> Seq<Seq<char>> {
    libs.map_values(|l: Library| library_key_of(l.name@))
}

/// The libraries of `libs` whose key is not among `keys`, in order.
pub open spec fn libraries_not_overridden(libs: Seq<Library>, keys: Seq<Seq<char>>) -> Seq<Library>
    decreases libs.len(),
{
    if libs.len() == 0 {
        Seq::empty()
    } else {
        let rest = libraries_not_overridden(libs.drop_first(), keys);
        if keys.contains(library_key_of(libs[0].name@)) {
            rest
        } else {
            seq![libs[0]] + rest
        }
    }
}

/// `a` when it is there, `b` otherwise.
pub open spec fn or_option<T>(a: Option<T>, b: Option<T>) -> Option<T> {
    match a {
        Some(x) => Some(x),
        None => b,
    }
}

/// The entries of an optional argument list (none when it is absent).
pub open spec fn entries(l: Option<Vec<Argument>>) -> Seq<Argument> {
    match l {
        Some(v) => v@,
        None => Seq::empty(),
    }
}

/// `args` begins with plain arguments holding `texts`, and goes on with `rest`.
pub open spec fn plain_then(args: Seq<Argument>, texts: Seq<Seq<char>>, rest: Seq<Argument>) -> bool {
    &&& args.len() == texts.len() + rest.len()
    &&& forall|i: int|
        0 <= i < texts.len() ==> (#[trigger] args[i] matches Argument::Simple(s) && s@ == texts[i])
    &&& args.skip(texts.len() as int) == rest
}

/// The JVM arguments that a version with only legacy `minecraftArguments` runs with.
pub open spec fn legacy_jvm_texts() -> Seq<Seq<char>> {
    seq!["-Djava.library.path=${natives_directory}"@, "-cp"@, "${classpath}"@]
}

/// The arguments of a merged description: the parent's (or, when it has
/// none, those its legacy argument string stands for), followed by the
/// child's.
pub open spec fn merged_arguments(res: Option<Arguments>, parent: ClientJson, child: ClientJson) -> bool {
    match parent.arguments {
        Some(pa) => match child.arguments {
            Some(ca) => res matches Some(a) && {
                &&& a.jvm matches Some(j) && j@ == entries(pa.jvm) + entries(ca.jvm)
                &&& a.game matches Some(g) && g@ == entries(pa.game) + entries(ca.game)
            },
            None => res == Some(pa),
        },
        None => match parent.minecraft_arguments {
            None => res == child.arguments,
            Some(legacy) => {
                let (cj, cg) = match child.arguments {
                    Some(ca) => (entries(ca.jvm), entries(ca.game)),
                    None => (Seq::empty(), Seq::empty()),
                };
                res matches Some(a) && {
                    &&& a.jvm matches Some(j) && plain_then(j@, legacy_jvm_texts(), cj)
                    &&& a.game matches Some(g) && plain_then(g@, words(legacy@), cg)
                }
            },
        },
    }
}

/// The key of a library name.
fn library_key(name: &str) -> (res: Vec<char>)
    ensures
        res@ == library_key_of(name@),
{
    let s = chars_of(name);
    proof {
        lemma_first_index_of(s@, ':');
    }
    match index_of(s.as_slice(), ':') {
        None => s,
        Some(i) => {
            assert(i < s.len());
            let rest = slice_suffix(s.as_slice(), i + 1);
            proof {
                lemma_first_index_of(rest@, ':');
            }
            match index_of(rest.as_slice(), ':') {
                None => s,
                Some(j) => {
                    assert(j < rest.len());
                    slice_prefix(s.as_slice(), i + 1 + j)
                },
            }
        },
    }
}

/// `keys` holds `k`.
fn contains_key(keys: &Vec<Vec<char>>, k: &Vec<char>) -> (res: bool)
    ensures
        res == vviews(keys@).contains(k@),
{
    let n = keys.len();
    for i in 0..n
        invariant
            n == keys@.len(),
            forall|j: int| 0 <= j < i ==> vviews(keys@)[j] != k@,
    {
        if crate::text::same_chars(keys[i].as_slice(), k.as_slice()) {
            assert(vviews(keys@)[i as int] == k@);
            return true;
        }
    }
    false
}

/// A plain argument holding `text`.
fn plain(text: &str) -> (res: Argument)
    ensures
        res matches Argument::Simple(s) && s@ == text@,
{
    Argument::Simple(text.to_owned())
}

/// The arguments that a legacy argument string stands for.
fn legacy_arguments(legacy: &String) -> (res: Arguments)
    ensures
        res.jvm matches Some(j) && plain_then(j@, legacy_jvm_texts(), Seq::empty()),
        res.game matches Some(g) && plain_then(g@, words(legacy@), Seq::empty()),
{
    let mut jvm: Vec<Argument> = Vec::new();
    jvm.push(plain("-Djava.library.path=${natives_directory}"));
    jvm.push(plain("-cp"));
    jvm.push(plain("${classpath}"));
    assert(jvm@.skip(3) =~= Seq::<Argument>::empty());
    let ws = split_words(chars_of(legacy.as_str()).as_slice());
    let mut game: Vec<Argument> = Vec::new();
    let n = ws.len();
    for i in 0..n
        invariant
            n == ws@.len(),
            game@.len() == i,
            forall|k: int|
                0 <= k < i ==> (#[trigger] game@[k] matches Argument::Simple(s) && s@ == vviews(ws@)[k]),
    {
        game.push(Argument::Simple(string_of(ws[i].as_slice())));
    }
    assert(game@.skip(n as int) =~= Seq::<Argument>::empty());
    Arguments { jvm: Some(jvm), game: Some(game) }
}

/// The entries of an optional argument list.
fn take_entries(l: Option<Vec<Argument>>) -> (res: Vec<Argument>)
    ensures
        res@ == entries(l),
{
    match l {
        Some(v) => v,
        None => Vec::new(),
    }
}

/// `a` followed by `b`.
fn chain(a: Vec<Argument>, b: Vec<Argument>) -> (res: Vec<Argument>)
    ensures
        res@ == a@ + b@,
{
    let mut a = a;
    let mut b = b;
    a.append(&mut b);
    a
}

/// Merges a profile (`child`) into the description it inherits from
/// (`parent`).  Parent libraries that the child overrides (same
/// `group:artifact`) are dropped; the child's libraries follow the rest.
/// Arguments are concatenated, the parent's first; a parent with only a
/// legacy argument string contributes what that string stands for.  Every
/// other field comes from the child when it has it, else from the parent.
/// The result inherits from nothing and has no legacy argument string.
pub fn merge_client_json(parent: ClientJson, child: ClientJson) -> (res: ClientJson)
    ensures
        res.libraries@ == libraries_not_overridden(
            parent.libraries@,
            library_keys(child.libraries@),
        ) + child.libraries@,
        merged_arguments(res.arguments, parent, child),
        res.id == or_option(child.id, parent.id),
        res.kind == or_option(child.kind, parent.kind),
        res.inherits_from is None,
        res.downloads == or_option(child.downloads, parent.downloads),
        res.main_class == or_option(child.main_class, parent.main_class),
        res.asset_index == or_option(child.asset_index, parent.asset_index),
        res.minecraft_arguments is None,
        res.java_version == or_option(child.java_version, parent.java_version),
        res.logging == or_option(child.logging, parent.logging),
{
    let ghost p0 = parent;
    let ghost c0 = child;
    let ClientJson {
        id: p_id,
        kind: p_kind,
        inherits_from: _,
        arguments: p_arguments,
        downloads: p_downloads,
        libraries: p_libraries,
        main_class: p_main_class,
        asset_index: p_asset_index,
        minecraft_arguments: p_legacy,
        java_version: p_java_version,
        logging: p_logging,
    } = parent;
    let ClientJson {
        id: c_id,
        kind: c_kind,
        inherits_from: _,
        arguments: c_arguments,
        downloads: c_downloads,
        libraries: c_libraries,
        main_class: c_main_class,
        asset_index: c_asset_index,
        minecraft_arguments: _,
        java_version: c_java_version,
        logging: c_logging,
    } = child;

    // Keys of the child's libraries.
    let mut keys: Vec<Vec<char>> = Vec::new();
    let nc = c_libraries.len();
    for i in 0..nc
        invariant
            nc == c_libraries@.len(),
            vviews(keys@) == library_keys(c_libraries@).take(i as int),
    {
        let k = library_key(c_libraries[i].name.as_str());
        let ghost before = vviews(keys@);
        keys.push(k);
        assert(vviews(keys@) =~= before.push(k@));
        assert(library_keys(c_libraries@).take(i + 1) =~= library_keys(c_libraries@).take(i as int).push(k@));
    }
    assert(library_keys(c_libraries@).take(nc as int) =~= library_keys(c_libraries@));

    // Parent libraries that the child does not override.
    let ghost keys_v = library_keys(c_libraries@);
    let ghost all_parent = p_libraries@;
    let mut rest = p_libraries;
    let mut libraries: Vec<Library> = Vec::new();
    while rest.len() > 0
        invariant
            vviews(keys@) == keys_v,
            libraries@ + libraries_not_overridden(rest@, keys_v) == libraries_not_overridden(all_parent, keys_v),
        decreases rest@.len(),
    {
        let ghost before = rest@;
        let lib = rest.remove(0);
        assert(rest@ == before.drop_first());
        let k = library_key(lib.name.as_str());
        if !contains_key(&keys, &k) {
            let ghost lb = libraries@;
            libraries.push(lib);
            assert(lb + (seq![before[0]] + libraries_not_overridden(rest@, keys_v)) =~= libraries@
                + libraries_not_overridden(rest@, keys_v));
        }
    }
    assert(libraries@ + Seq::<Library>::empty() == libraries@);
    let mut c_libs = c_libraries;
    libraries.append(&mut c_libs);

    // Arguments.
    let parent_args: Option<Arguments> = match p_arguments {
        Some(a) => Some(a),
        None => match &p_legacy {
            Some(legacy) => Some(legacy_arguments(legacy)),
            None => None,
        },
    };
    let arguments = match (parent_args, c_arguments) {
        (Some(p), Some(c)) => {
            let jvm = chain(take_entries(p.jvm), take_entries(c.jvm));
            let game = chain(take_entries(p.game), take_entries(c.game));
            proof {
                if p0.arguments is None {
                    assert(jvm@.skip(3) == entries(c.jvm));
                    let pw = p.game->0@;
                    assert(jvm@.take(3) == entries(p.jvm));
                    assert(game@.skip(pw.len() as int) == entries(c.game));
                    assert forall|i: int| 0 <= i < pw.len() implies game@[i] == pw[i] by {}
                    assert forall|i: int| 0 <= i < 3 implies jvm@[i] == p.jvm->0@[i] by {}
                }
            }
            Some(Arguments { jvm: Some(jvm), game: Some(game) })
        },
        (Some(p), None) => Some(p),
        (None, Some(c)) => Some(c),
        (None, None) => None,
    };

    ClientJson {
        id: match c_id {
            Some(x) => Some(x),
            None => p_id,
        },
        kind: match c_kind {
            Some(x) => Some(x),
            None => p_kind,
        },
        inherits_from: None,
        arguments,
        downloads: match c_downloads {
            Some(x) => Some(x),
            None => p_downloads,
        },
        libraries,
        main_class: match c_main_class {
            Some(x) => Some(x),
            None => p_main_class,
        },
        asset_index: match c_asset_index {
            Some(x) => Some(x),
            None => p_asset_index,
        },
        minecraft_arguments: None,
        java_version: match c_java_version {
            Some(x) => Some(x),
            None => p_java_version,
        },
        logging: match c_logging {
            Some(x) => Some(x),
            None => p_logging,
        },
    }
}

/// No parent library that stays after a merge has the key of a child
/// library: the child's version of a library always wins.
pub proof fn lemma_kept_libraries_not_overridden(libs: Seq<Library>, keys: Seq<Seq<char>>)
    ensures
        forall|i: int|
            0 <= i < libraries_not_overridden(libs, keys).len() ==> !keys.contains(
                library_key_of(#[trigger] libraries_not_overridden(libs, keys)[i].name@),
            ),
        forall|i: int|
            0 <= i < libraries_not_overridden(libs, keys).len() ==> libs.contains(
                #[trigger] libraries_not_overridden(libs, keys)[i],
            ),
    decreases libs.len(),
{
    if libs.len() > 0 {
        let rest = libs.drop_first();
        lemma_kept_libraries_not_overridden(rest, keys);
        let r = libraries_not_overridden(rest, keys);
        assert forall|i: int| 0 <= i < r.len() implies libs.contains(#[trigger] r[i]) by {
            let j = choose|j: int| 0 <= j < rest.len() && rest[j] == r[i];
            assert(libs[j + 1] == r[i]);
        }
        if !keys.contains(library_key_of(libs[0].name@)) {
            let k = seq![libs[0]] + r;
            assert forall|i: int| 0 <= i < k.len() implies libs.contains(#[trigger] k[i]) by {
                if i == 0 {
                    assert(libs[0] == k[0]);
                } else {
                    assert(k[i] == r[i - 1]);
                }
            }
            assert forall|i: int| 0 <= i < k.len() implies !keys.contains(
                library_key_of(#[trigger] k[i].name@),
            ) by {
                if i > 0 {
                    assert(k[i] == r[i - 1]);
                }
            }
        }
    }
}

proof fn lemma_not_overridden_append(a: Seq<Library>, b: Seq<Library>, keys: Seq<Seq<char>>)
    ensures
        libraries_not_overridden(a + b, keys) == libraries_not_overridden(a, keys) + libraries_not_overridden(b, keys),
    decreases a.len(),
{
    if a.len() == 0 {
        assert(a + b =~= b);
        assert(Seq::<Library>::empty() + libraries_not_overridden(b, keys) =~= libraries_not_overridden(b, keys));
    } else {
        assert((a + b).drop_first() =~= a.drop_first() + b);
        assert((a + b)[0] == a[0]);
        lemma_not_overridden_append(a.drop_first(), b, keys);
        let r = libraries_not_overridden(a.drop_first(), keys);
        let rb = libraries_not_overridden(b, keys);
        assert(seq![a[0]] + (r + rb) =~= (seq![a[0]] + r) + rb);
    }
}

proof fn lemma_not_overridden_twice(a: Seq<Library>, keys: Seq<Seq<char>>)
    ensures
        libraries_not_overridden(libraries_not_overridden(a, keys), keys) == libraries_not_overridden(a, keys),
    decreases a.len(),
{
    if a.len() > 0 {
        lemma_not_overridden_twice(a.drop_first(), keys);
        let r = libraries_not_overridden(a.drop_first(), keys);
        if !keys.contains(library_key_of(a[0].name@)) {
            let full = seq![a[0]] + r;
            assert(full[0] == a[0]);
            assert(full.drop_first() =~= r);
        }
    }
}

proof fn lemma_all_overridden(c: Seq<Library>, keys: Seq<Seq<char>>)
    requires
        forall|i: int| 0 <= i < c.len() ==> keys.contains(library_key_of(#[trigger] c[i].name@)),
    ensures
        libraries_not_overridden(c, keys) == Seq::<Library>::empty(),
    decreases c.len(),
{
    if c.len() > 0 {
        assert(keys.contains(library_key_of(c[0].name@)));
        assert forall|i: int| 0 <= i < c.drop_first().len() implies keys.contains(
            library_key_of(#[trigger] c.drop_first()[i].name@),
        ) by {
            assert(c.drop_first()[i] == c[i + 1]);
        }
        lemma_all_overridden(c.drop_first(), keys);
    }
}

/// Merging is idempotent on libraries: merging the same child into an
/// already merged list changes nothing.
pub proof fn lemma_merge_libraries_idempotent(parent: Seq<Library>, child: Seq<Library>)
    ensures
        ({
            let keys = library_keys(child);
            let once = libraries_not_overridden(parent, keys) + child;
            libraries_not_overridden(once, keys) + child == once
        }),
{
    let keys = library_keys(child);
    let kept = libraries_not_overridden(parent, keys);
    lemma_not_overridden_append(kept, child, keys);
    lemma_not_overridden_twice(parent, keys);
    assert forall|i: int| 0 <= i < child.len() implies keys.contains(library_key_of(#[trigger] child[i].name@)) by {
        assert(keys[i] == library_key_of(child[i].name@));
    }
    lemma_all_overridden(child, keys);
    assert(kept + Seq::<Library>::empty() =~= kept);
}

/// A parent library whose key no child library has stays after a merge.
pub proof fn lemma_unshadowed_parent_library_kept(libs: Seq<Library>, keys: Seq<Seq<char>>, j: int)
    requires
        0 <= j < libs.len(),
        !keys.contains(library_key_of(libs[j].name@)),
    ensures
        libraries_not_overridden(libs, keys).contains(libs[j]),
    decreases libs.len(),
{
    let rest = libs.drop_first();
    if j > 0 {
        lemma_unshadowed_parent_library_kept(rest, keys, j - 1);
        let r = libraries_not_overridden(rest, keys);
        let i = choose|i: int| 0 <= i < r.len() && r[i] == rest[j - 1];
        if !keys.contains(library_key_of(libs[0].name@)) {
            assert((seq![libs[0]] + r)[i + 1] == libs[j]);
        }
    } else {
        assert(libraries_not_overridden(libs, keys)[0] == libs[0]);
    }
}

// ---------------------------------------------------------------------------
// Detecting the mod loader of a version
// ---------------------------------------------------------------------------

/// Some library of `libs` has a name that starts with `prefix`.
pub open spec fn has_library_prefixed(libs: Seq<Library>, prefix: Seq<char>) -> bool {
    exists|i: int| 0 <= i < libs.len() && has_prefix(#[trigger] libs[i].name@, prefix)
}

/// Some library of `libs` has a name that starts with `prefix`.
fn any_library_prefixed(libs: &Vec<Library>, prefix: &str) -> (res: bool)
    ensures
        res == has_library_prefixed(libs@, prefix@),
{
    let p = chars_of(prefix);
    let n = libs.len();
    for i in 0..n
        invariant
            n == libs@.len(),
            p@ == prefix@,
            forall|j: int| 0 <= j < i ==> !has_prefix(#[trigger] libs@[j].name@, prefix@),
    {
        let name = chars_of(libs[i].name.as_str());
        if starts_with(name.as_slice(), p.as_slice()) {
            return true;
        }
    }
    false
}

/// The name of the mod loader libraries `libs` belong to: NeoForge, then
/// Forge, Fabric, Quilt and OptiFine are looked for in turn.
pub open spec fn detected_loader(libs: Seq<Library>) -> Option<Seq<char>> {
    if has_library_prefixed(libs, "net.neoforged:"@) {
        Some("neoforge"@)
    } else if has_library_prefixed(libs, "net.minecraftforge:"@) {
        Some("forge"@)
    } else if has_library_prefixed(libs, "net.fabricmc:fabric-loader"@) {
        Some("fabric"@)
    } else if has_library_prefixed(libs, "org.quiltmc:quilt-loader"@) {
        Some("quilt"@)
    } else if has_library_prefixed(libs, "optifine:OptiFine"@) {
        Some("optifine"@)
    } else {
        None
    }
}

/// The mod loader a version description uses, told by its libraries:
/// NeoForge, then Forge, Fabric, Quilt and OptiFine are looked for in turn.
pub fn detect_loader(client_json: &ClientJson) -> (res: Option<&'static str>)
    ensures
        res == (if has_library_prefixed(client_json.libraries@, "net.neoforged:"@) {
            Some("neoforge")
        } else if has_library_prefixed(client_json.libraries@, "net.minecraftforge:"@) {
            Some("forge")
        } else if has_library_prefixed(client_json.libraries@, "net.fabricmc:fabric-loader"@) {
            Some("fabric")
        } else if has_library_prefixed(client_json.libraries@, "org.quiltmc:quilt-loader"@) {
            Some("quilt")
        } else if has_library_prefixed(client_json.libraries@, "optifine:OptiFine"@) {
            Some("optifine")
        } else {
            None
        }),
        res matches Some(s) ==> detected_loader(client_json.libraries@) == Some(s@),
        res is None ==> detected_loader(client_json.libraries@) is None,
{
    let libs = &client_json.libraries;
    if any_library_prefixed(libs, "net.neoforged:") {
        Some("neoforge")
    } else if any_library_prefixed(libs, "net.minecraftforge:") {
        Some("forge")
    } else if any_library_prefixed(libs, "net.fabricmc:fabric-loader") {
        Some("fabric")
    } else if any_library_prefixed(libs, "org.quiltmc:quilt-loader") {
        Some("quilt")
    } else if any_library_prefixed(libs, "optifine:OptiFine") {
        Some("optifine")
    } else {
        None
    }
}

} // verus!
