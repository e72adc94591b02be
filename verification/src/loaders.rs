//! Mod loaders: their names, the versions their metadata lists, and the
//! fix-ups their profiles need.

use vstd::prelude::*;
use crate::client_json::Library;
use crate::text::{
    chars_of, concat, extend_chars, first_index_of, has_prefix, index_of, lemma_first_index_of,
    lemma_split_on_nonempty, replace_all, replace_chars, slice_prefix, slice_suffix, split_chars,
    split_on, starts_with, str_eq, string_of, views, vviews,
};

verus! {

/// A mod loader.
#[derive(Debug, Clone, Copy, PartialEq, Eq, Structural)]
pub enum Loader {
    Fabric,
    Quilt,
    Forge,
    NeoForge,
}

/// The lowercase form of `s` (Unicode lowercase mapping).
pub uninterp spec fn lowercase(s: Seq<char>) -> Seq<char>;

/// `s` with the ASCII letters `A` to `Z` made lowercase.
pub open spec fn ascii_lowercase(s: Seq<char>) -> Seq<char> {
    s.map_values(|c: char| if 'A' <= c && c <= 'Z' {
        ((c as u32) + 32) as char
    } else {
        c
    })
}

/// `str::to_lowercase`: the result is the Unicode lowercase mapping of `s`;
/// on ASCII text that mapping changes `A` to `Z` into `a` to `z` and keeps
/// every other character.  What it does beyond ASCII is not stated.
#[verifier::external_body]
fn to_lowercase(s: &str) -> (res: String)
    ensures
        res@ == lowercase(s@),
        vstd::utf8::is_ascii_chars(s@) ==> res@ == ascii_lowercase(s@),
{
    s.to_lowercase()
}

/// The loader a lowercase name stands for, or the error message for an unknown one.
pub open spec fn loader_named(lower: Seq<char>) -> Result<Loader, Seq<char>> {
    if lower == "fabric"@ {
        Ok(Loader::Fabric)
    } else if lower == "quilt"@ {
        Ok(Loader::Quilt)
    } else if lower == "forge"@ {
        Ok(Loader::Forge)
    } else if lower == "neoforge"@ {
        Ok(Loader::NeoForge)
    } else {
        Err("unknown loader '"@ + lower + "'"@)
    }
}

/// The name a loader is known by (and serialized as).
pub open spec fn loader_name(l: Loader) -> Seq<char> {
    match l {
        Loader::Fabric => "fabric"@,
        Loader::Quilt => "quilt"@,
        Loader::Forge => "forge"@,
        Loader::NeoForge => "neoforge"@,
    }
}

impl Loader {
    /// The loader a lowercase name stands for.
    pub fn from_lowercase(lower: &str) -> (res: Result<Loader, String>)
        ensures
            res matches Ok(l) ==> loader_named(lower@) == Ok::<Loader, Seq<char>>(l),
            res matches Err(e) ==> loader_named(lower@) == Err::<Loader, Seq<char>>(e@),
    {
        if str_eq(lower, "fabric") {
            Ok(Loader::Fabric)
        } else if str_eq(lower, "quilt") {
            Ok(Loader::Quilt)
        } else if str_eq(lower, "forge") {
            Ok(Loader::Forge)
        } else if str_eq(lower, "neoforge") {
            Ok(Loader::NeoForge)
        } else {
            let mut msg = String::from_str("unknown loader '");
            msg.append(lower);
            msg.append("'");
            Err(msg)
        }
    }

    /// The loader named `s`, in any letter case.
    pub fn from_str(s: &str) -> (res: Result<Loader, String>)
        ensures
            res matches Ok(l) ==> loader_named(lowercase(s@)) == Ok::<Loader, Seq<char>>(l),
            res matches Err(e) ==> loader_named(lowercase(s@)) == Err::<Loader, Seq<char>>(e@),
            vstd::utf8::is_ascii_chars(s@) ==> (res matches Ok(l) ==> loader_named(ascii_lowercase(s@))
                == Ok::<Loader, Seq<char>>(l)),
            vstd::utf8::is_ascii_chars(s@) ==> (res matches Err(e) ==> loader_named(ascii_lowercase(s@))
                == Err::<Loader, Seq<char>>(e@)),
    {
        let lower = to_lowercase(s);
        Loader::from_lowercase(lower.as_str())
    }

    /// The name the loader is known by.
    pub fn name(&self) -> (res: &'static str)
        ensures
            res@ == loader_name(*self),
    {
        match self {
            Loader::Fabric => "fabric",
            Loader::Quilt => "quilt",
            Loader::Forge => "forge",
            Loader::NeoForge => "neoforge",
        }
    }
}

/// A loader's name stands for the loader, and reading the name in any
/// letter case (`from_str`, which lowercases ASCII text) gives it back.
pub proof fn lemma_loader_name_round_trip(l: Loader)
    ensures
        loader_named(loader_name(l)) == Ok::<Loader, Seq<char>>(l),
        vstd::utf8::is_ascii_chars(loader_name(l)),
        ascii_lowercase(loader_name(l)) == loader_name(l),
{
    reveal_strlit("fabric");
    reveal_strlit("quilt");
    reveal_strlit("forge");
    reveal_strlit("neoforge");
    assert("quilt"@.len() != "fabric"@.len());
    assert("forge"@.len() != "fabric"@.len());
    assert("forge"@[0] != "quilt"@[0]);
    assert("neoforge"@.len() != "fabric"@.len());
    assert("neoforge"@.len() != "quilt"@.len());
    assert("neoforge"@.len() != "forge"@.len());
    assert(ascii_lowercase(loader_name(l)) =~= loader_name(l));
}

// ---------------------------------------------------------------------------
// Loader metadata
// ---------------------------------------------------------------------------

/// A loader metadata or profile URL segment: spaces become `%20`.
pub open spec fn url_part_of(s: Seq<char>) -> Seq<char> {
    replace_all(s, seq![' '], "%20"@)
}

/// A URL segment made by `url_part` holds no space.
pub proof fn lemma_url_part_has_no_space(s: Seq<char>)
    ensures
        !url_part_of(s).contains(' '),
{
    reveal_strlit("%20");
    crate::text::lemma_replace_char_removes(s, ' ', "%20"@);
}

/// `s` made fit for a URL segment (spaces become `%20`).
pub fn url_part(s: &str) -> (res: String)
    ensures
        res@ == url_part_of(s@),
{
    let space = vec![' '];
    assert(space@ == seq![' ']);
    let out = replace_chars(chars_of(s).as_slice(), space.as_slice(), chars_of("%20").as_slice());
    string_of(out.as_slice())
}

/// Fabric's metadata service.
pub const FABRIC_META_BASE: &'static str = "https://meta.fabricmc.net/v2";

/// Fabric's Maven repository.
pub const FABRIC_MAVEN_BASE: &'static str = "https://maven.fabricmc.net/";

/// Quilt's metadata service.
pub const QUILT_META_BASE: &'static str = "https://meta.quiltmc.org/v3";

/// Quilt's Maven repository.
pub const QUILT_MAVEN_BASE: &'static str = "https://maven.quiltmc.org/repository/release/";

/// Forge's Maven metadata.
pub const FORGE_METADATA_URL: &'static str = "https://maven.minecraftforge.net/net/minecraftforge/forge/maven-metadata.xml";

/// NeoForge's Maven metadata.
pub const NEOFORGE_METADATA_URL: &'static str = "https://maven.neoforged.net/releases/net/neoforged/neoforge/maven-metadata.xml";

/// The URL listing the loader versions for a game version at a metadata
/// service: `<meta_base>/versions/loader/<game_version>`.
pub fn loader_versions_url(meta_base: &str, game_version: &str) -> (res: String)
    ensures
        res@ == meta_base@ + "/versions/loader/"@ + url_part_of(game_version@),
{
    let mut u = String::from_str(meta_base);
    u.append("/versions/loader/");
    u.append(url_part(game_version).as_str());
    u
}

/// The URL of the launcher profile of a loader version for a game version:
/// `<meta_base>/versions/loader/<game_version>/<loader_version>/profile/json`.
pub fn loader_profile_url(meta_base: &str, game_version: &str, loader_version: &str) -> (res: String)
    ensures
        res@ == meta_base@ + "/versions/loader/"@ + url_part_of(game_version@) + seq!['/']
            + url_part_of(loader_version@) + "/profile/json"@,
{
    let mut u = String::from_str(meta_base);
    u.append("/versions/loader/");
    u.append(url_part(game_version).as_str());
    u.append("/");
    u.append(url_part(loader_version).as_str());
    u.append("/profile/json");
    proof {
        reveal_strlit("/");
    }
    u
}

/// The installer jar of a Forge build for a game version.
pub fn forge_installer_url(game_version: &str, build: &str) -> (res: String)
    ensures
        res@ == "https://maven.minecraftforge.net/net/minecraftforge/forge/"@ + (game_version@ + seq![
            '-',
        ] + build@) + "/forge-"@ + (game_version@ + seq!['-'] + build@) + "-installer.jar"@,
{
    let mut full = String::from_str(game_version);
    full.append("-");
    full.append(build);
    proof {
        reveal_strlit("-");
    }
    let mut u = String::from_str("https://maven.minecraftforge.net/net/minecraftforge/forge/");
    u.append(full.as_str());
    u.append("/forge-");
    u.append(full.as_str());
    u.append("-installer.jar");
    u
}

/// The installer jar of a NeoForge version.
pub fn neoforge_installer_url(version: &str) -> (res: String)
    ensures
        res@ == "https://maven.neoforged.net/releases/net/neoforged/neoforge/"@ + version@
            + "/neoforge-"@ + version@ + "-installer.jar"@,
{
    let mut u = String::from_str("https://maven.neoforged.net/releases/net/neoforged/neoforge/");
    u.append(version);
    u.append("/neoforge-");
    u.append(version);
    u.append("-installer.jar");
    u
}

/// The prefix NeoForge versions for a Minecraft version carry:
/// `1.<minor>.<patch>` gives `<minor>.<patch>.`, and `1.<minor>` gives
/// `<minor>.0.`.  `None` when the version does not start with `1.`.
pub open spec fn minor_patch_prefix_of(game_version: Seq<char>) -> Option<Seq<char>> {
    if !has_prefix(game_version, "1."@) {
        None
    } else {
        let rest = game_version.skip(2);
        match first_index_of(rest, '.') {
            Some(i) => Some(rest.take(i) + seq!['.'] + rest.skip(i + 1) + seq!['.']),
            None => Some(rest + ".0."@),
        }
    }
}

/// The prefix NeoForge versions for the Minecraft version `game_version` carry.
pub fn minor_patch_prefix(game_version: &str) -> (res: Option<String>)
    ensures
        res matches Some(p) ==> minor_patch_prefix_of(game_version@) == Some(p@),
        res is None ==> minor_patch_prefix_of(game_version@) is None,
{
    let gv = chars_of(game_version);
    let one = chars_of("1.");
    proof {
        reveal_strlit("1.");
    }
    if !starts_with(gv.as_slice(), one.as_slice()) {
        return None;
    }
    let rest = slice_suffix(gv.as_slice(), 2);
    proof {
        lemma_first_index_of(rest@, '.');
    }
    let out = match index_of(rest.as_slice(), '.') {
        Some(i) => {
            assert(i < rest.len());
            let mut o = slice_prefix(rest.as_slice(), i);
            o.push('.');
            extend_chars(&mut o, slice_suffix(rest.as_slice(), i + 1).as_slice());
            o.push('.');
            o
        },
        None => concat(rest.as_slice(), chars_of(".0.").as_slice()),
    };
    Some(string_of(out.as_slice()))
}

/// The text of each `<version>` element of Maven metadata: what follows
/// each `<version>` up to the next `</version>` (or the end), in order.
pub open spec fn metadata_versions(xml: Seq<char>) -> Seq<Seq<char>> {
    element_texts(split_on(xml, "<version>"@).skip(1))
}

/// The part of each chunk before its first `</version>`.
pub open spec fn element_texts(chunks: Seq<Seq<char>>) -> Seq<Seq<char>>
    decreases chunks.len(),
{
    if chunks.len() == 0 {
        Seq::empty()
    } else {
        element_texts(chunks.drop_last()).push(split_on(chunks.last(), "</version>"@)[0])
    }
}

/// The entries of `entries` that start with `prefix`, in order, with the
/// prefix removed when `strip` holds.
pub open spec fn with_prefix(entries: Seq<Seq<char>>, prefix: Seq<char>, strip: bool) -> Seq<Seq<char>>
    decreases entries.len(),
{
    if entries.len() == 0 {
        Seq::empty()
    } else {
        let before = with_prefix(entries.drop_last(), prefix, strip);
        let e = entries.last();
        if has_prefix(e, prefix) {
            before.push(
                if strip {
                    e.skip(prefix.len() as int)
                } else {
                    e
                },
            )
        } else {
            before
        }
    }
}

/// The Forge builds for a Minecraft version that Forge's Maven metadata
/// lists, newest first: the versions `<game_version>-<build>`, as `<build>`.
pub open spec fn forge_builds_of(xml: Seq<char>, game_version: Seq<char>) -> Seq<Seq<char>> {
    with_prefix(metadata_versions(xml), game_version + seq!['-'], true).reverse()
}

/// The NeoForge versions whose version starts with `prefix` that
/// NeoForge's Maven metadata lists, newest first.
pub open spec fn neoforge_versions_of(xml: Seq<char>, prefix: Seq<char>) -> Seq<Seq<char>> {
    with_prefix(metadata_versions(xml), prefix, false).reverse()
}

/// The texts of the `<version>` elements of Maven metadata.
fn version_elements(xml: &str) -> (res: Vec<Vec<char>>)
    ensures
        vviews(res@) == metadata_versions(xml@),
{
    let x = chars_of(xml);
    let open = chars_of("<version>");
    let close = chars_of("</version>");
    proof {
        reveal_strlit("<version>");
        reveal_strlit("</version>");
    }
    let chunks = split_chars(x.as_slice(), open.as_slice());
    let ghost rest = vviews(chunks@).skip(1);
    let mut out: Vec<Vec<char>> = Vec::new();
    let n = chunks.len();
    let mut i: usize = 1;
    proof {
        lemma_split_on_nonempty(x@, open@);
        assert(rest.take(0) =~= Seq::<Seq<char>>::empty());
    }
    while i < n
        invariant
            n == chunks@.len(),
            1 <= i <= n,
            close@ == "</version>"@,
            close@.len() > 0,
            rest == vviews(chunks@).skip(1),
            vviews(out@) == element_texts(rest.take(i - 1)),
        decreases n - i,
    {
        let pieces = split_chars(chunks[i].as_slice(), close.as_slice());
        proof {
            lemma_split_on_nonempty(chunks@[i as int]@, close@);
        }
        let first = slice_prefix(pieces[0].as_slice(), pieces[0].len());
        let ghost before = vviews(out@);
        proof {
            assert(vviews(pieces@)[0] == pieces@[0]@);
            assert(pieces@[0]@.take(pieces@[0]@.len() as int) == pieces@[0]@);
        }
        out.push(first);
        proof {
            assert(rest.take(i as int).drop_last() =~= rest.take(i - 1));
            assert(rest.take(i as int).last() == chunks@[i as int]@);
            assert(vviews(out@) =~= before.push(first@));
        }
        i = i + 1;
    }
    proof {
        if n >= 1 {
            assert(rest.take(n - 1) =~= rest);
        }
    }
    out
}

/// The entries that start with `prefix`, stripped of it when `strip` holds,
/// newest (last listed) first.
fn select_newest_first(entries: &Vec<Vec<char>>, prefix: &Vec<char>, strip: bool) -> (res: Vec<String>)
    ensures
        views(res@) == with_prefix(vviews(entries@), prefix@, strip).reverse(),
{
    let mut fwd: Vec<Vec<char>> = Vec::new();
    let n = entries.len();
    for i in 0..n
        invariant
            n == entries@.len(),
            vviews(fwd@) == with_prefix(vviews(entries@).take(i as int), prefix@, strip),
    {
        let e = &entries[i];
        assert(vviews(entries@).take(i + 1).drop_last() =~= vviews(entries@).take(i as int));
        assert(vviews(entries@).take(i + 1).last() == e@);
        if starts_with(e.as_slice(), prefix.as_slice()) {
            let item = if strip {
                slice_suffix(e.as_slice(), prefix.len())
            } else {
                slice_suffix(e.as_slice(), 0)
            };
            assert(e@.skip(0) == e@);
            let ghost before = vviews(fwd@);
            let ghost iv = item@;
            fwd.push(item);
            assert(vviews(fwd@) =~= before.push(iv));
        }
    }
    assert(vviews(entries@).take(n as int) =~= vviews(entries@));
    let ghost f = vviews(fwd@);
    let mut out: Vec<String> = Vec::new();
    let m = fwd.len();
    let mut k = m;
    while k > 0
        invariant
            k <= m,
            m == fwd@.len(),
            f == vviews(fwd@),
            views(out@).len() == m - k,
            forall|j: int| 0 <= j < m - k ==> #[trigger] views(out@)[j] == f[m - 1 - j],
        decreases k,
    {
        k = k - 1;
        let ghost before = views(out@);
        let s = string_of(fwd[k].as_slice());
        let ghost sv = s@;
        out.push(s);
        assert(views(out@) =~= before.push(sv));
    }
    assert(views(out@) =~= f.reverse());
    out
}

/// The Forge builds for `game_version` that Forge's Maven metadata `xml`
/// lists, newest first.
pub fn forge_builds(xml: &str, game_version: &str) -> (res: Vec<String>)
    ensures
        views(res@) == forge_builds_of(xml@, game_version@),
{
    let entries = version_elements(xml);
    let mut prefix = chars_of(game_version);
    prefix.push('-');
    assert(prefix@ == game_version@ + seq!['-']);
    select_newest_first(&entries, &prefix, true)
}

/// The NeoForge versions starting with `prefix` that NeoForge's Maven
/// metadata `xml` lists, newest first.
pub fn neoforge_versions(xml: &str, prefix: &str) -> (res: Vec<String>)
    ensures
        views(res@) == neoforge_versions_of(xml@, prefix@),
{
    let entries = version_elements(xml);
    let p = chars_of(prefix);
    select_newest_first(&entries, &p, false)
}

/// The versions of `entries` whose flag is `stable`, in order.
pub open spec fn versions_flagged(entries: Seq<(String, bool)>, stable: bool) -> Seq<Seq<char>>
    decreases entries.len(),
{
    if entries.len() == 0 {
        Seq::empty()
    } else {
        let before = versions_flagged(entries.drop_last(), stable);
        if entries.last().1 == stable {
            before.push(entries.last().0@)
        } else {
            before
        }
    }
}

/// Loader versions `(version, stable)` as Fabric's metadata lists them,
/// ordered stable ones first; within each group the listed order is kept.
pub fn order_loader_versions(entries: &Vec<(String, bool)>) -> (res: Vec<String>)
    ensures
        views(res@) == versions_flagged(entries@, true) + versions_flagged(entries@, false),
{
    let mut stable: Vec<String> = Vec::new();
    let mut unstable: Vec<String> = Vec::new();
    let n = entries.len();
    for i in 0..n
        invariant
            n == entries@.len(),
            views(stable@) == versions_flagged(entries@.take(i as int), true),
            views(unstable@) == versions_flagged(entries@.take(i as int), false),
    {
        assert(entries@.take(i + 1).drop_last() =~= entries@.take(i as int));
        assert(entries@.take(i + 1).last() == entries@[i as int]);
        let v = entries[i].0.clone();
        if entries[i].1 {
            let ghost before = views(stable@);
            stable.push(v);
            assert(views(stable@) =~= before.push(entries@[i as int].0@));
        } else {
            let ghost before = views(unstable@);
            unstable.push(v);
            assert(views(unstable@) =~= before.push(entries@[i as int].0@));
        }
    }
    assert(entries@.take(n as int) =~= entries@);
    let ghost a = views(stable@);
    let ghost b = views(unstable@);
    stable.append(&mut unstable);
    assert(views(stable@) =~= a + b);
    stable
}

/// Gives each library that has neither download information nor a
/// repository the repository `base`; every other library is kept as it is.
pub fn fill_missing_repositories(libraries: &mut Vec<Library>, base: &str)
    ensures
        final(libraries)@.len() == old(libraries)@.len(),
        forall|i: int|
            0 <= i < final(libraries)@.len() ==> (#[trigger] final(libraries)@[i]).downloads is Some
                || final(libraries)@[i].url is Some,
        forall|i: int|
            0 <= i < old(libraries)@.len() ==> {
                let o = #[trigger] old(libraries)@[i];
                let f = final(libraries)@[i];
                if o.downloads is None && o.url is None {
                    &&& f.url matches Some(u) && u@ == base@
                    &&& f.name == o.name
                    &&& f.downloads == o.downloads
                    &&& f.rules == o.rules
                    &&& f.natives == o.natives
                    &&& f.extract == o.extract
                } else {
                    f == o
                }
            },
{
    let ghost orig = libraries@;
    let mut rest: Vec<Library> = Vec::new();
    std::mem::swap(&mut rest, libraries);
    let mut out: Vec<Library> = Vec::new();
    let ghost total = rest@.len();
    while rest.len() > 0
        invariant
            orig.len() == total,
            out@.len() + rest@.len() == total,
            rest@ == orig.skip(out@.len() as int),
            forall|i: int|
                0 <= i < out@.len() ==> {
                    let o = #[trigger] orig[i];
                    let f = out@[i];
                    if o.downloads is None && o.url is None {
                        &&& f.url matches Some(u) && u@ == base@
                        &&& f.name == o.name
                        &&& f.downloads == o.downloads
                        &&& f.rules == o.rules
                        &&& f.natives == o.natives
                        &&& f.extract == o.extract
                    } else {
                        f == o
                    }
                },
        decreases rest@.len(),
    {
        let ghost before = rest@;
        let mut lib = rest.remove(0);
        assert(rest@ =~= orig.skip(out@.len() as int + 1));
        if lib.downloads.is_none() && lib.url.is_none() {
            lib.url = Some(base.to_owned());
        }
        out.push(lib);
    }
    assert forall|i: int| 0 <= i < out@.len() implies (#[trigger] out@[i]).downloads is Some
        || out@[i].url is Some by {
        let o = orig[i];
        if o.downloads is None && o.url is None {
        } else {
            assert(out@[i] == o);
        }
    }
    *libraries = out;
}

} // verus!
