//! Maven coordinates `group:artifact:version[:classifier][@ext]` and where
//! the files they name live.

use vstd::prelude::*;
use crate::client_json::{Artifact, ArtifactView, Library};
use crate::text::{
    chars_of, concat, extend_chars, first_index_of, has_suffix, index_of, lemma_first_index_of, replace_all,
    replace_chars, slice_prefix, slice_suffix, split_chars, split_on, string_of, trim_end_char,
    trim_end_matches, vviews,
};

verus! {

/// The coordinates without the extension part, and the extension
/// (`jar` when the coordinates name none).
pub open spec fn coords_and_extension(coords: Seq<char>) -> (Seq<char>, Seq<char>) {
    match first_index_of(coords, '@') {
        Some(i) => (coords.take(i), coords.skip(i + 1)),
        None => (coords, "jar"@),
    }
}

/// The file name of an artifact.
pub open spec fn maven_file_name(parts: Seq<Seq<char>>, ext: Seq<char>) -> Seq<char> {
    if parts.len() > 3 {
        parts[1] + seq!['-'] + parts[2] + seq!['-'] + parts[3] + seq!['.'] + ext
    } else {
        parts[1] + seq!['-'] + parts[2] + seq!['.'] + ext
    }
}

/// The path, relative to a Maven repository, of the file that `coords`
/// names; `None` when the coordinates have fewer than three parts.
pub open spec fn maven_path(coords: Seq<char>) -> Option<Seq<char>> {
    let (c, ext) = coords_and_extension(coords);
    let parts = split_on(c, seq![':']);
    if parts.len() < 3 {
        None
    } else {
        Some(
            replace_all(parts[0], seq!['.'], seq!['/']) + seq!['/'] + parts[1] + seq!['/']
                + parts[2] + seq!['/'] + maven_file_name(parts, ext),
        )
    }
}

/// The URL of the file that `coords` names in the repository at `base_url`.
pub open spec fn maven_url(coords: Seq<char>, base_url: Seq<char>) -> Option<Seq<char>> {
    match maven_path(coords) {
        Some(p) => Some(trim_end_char(base_url, '/') + seq!['/'] + p),
        None => None,
    }
}

/// The repository a library without download information comes from.
pub open spec fn default_library_repository() -> Seq<char> {
    "https://libraries.minecraft.net/"@
}

/// The artifact of a library: the one its download information names, or
/// else the one its coordinates name in its repository.
pub open spec fn library_artifact(library: Library) -> Option<ArtifactView> {
    match library.downloads {
        Some(d) if d.artifact is Some => Some(d.artifact->0@),
        _ => {
            let base = match library.url {
                Some(u) => u@,
                None => default_library_repository(),
            };
            match (maven_path(library.name@), maven_url(library.name@, base)) {
                (Some(p), Some(u)) => Some(ArtifactView { path: p, sha1: None, size: None, url: u }),
                _ => None,
            }
        },
    }
}

/// The file a Maven path names carries the extension of its coordinates:
/// it ends with `.` and the text after the first `@`, or `.jar` when there
/// is none, with or without a classifier.
pub proof fn lemma_maven_path_extension(coords: Seq<char>)
    ensures
        maven_path(coords) matches Some(p) ==> has_suffix(
            p,
            seq!['.'] + match first_index_of(coords, '@') {
                Some(i) => coords.skip(i + 1),
                None => "jar"@,
            },
        ),
{
    if maven_path(coords) is Some {
        let (c, ext) = coords_and_extension(coords);
        let parts = split_on(c, seq![':']);
        let p = maven_path(coords)->0;
        let tail = seq!['.'] + ext;
        let file = maven_file_name(parts, ext);
        if parts.len() > 3 {
            assert(file =~= (parts[1] + seq!['-'] + parts[2] + seq!['-'] + parts[3]) + tail);
        } else {
            assert(file =~= (parts[1] + seq!['-'] + parts[2]) + tail);
        }
        let dir = replace_all(parts[0], seq!['.'], seq!['/']) + seq!['/'] + parts[1] + seq!['/'] + parts[2]
            + seq!['/'];
        assert(p =~= dir + file);
        assert(p.skip(p.len() - tail.len()) =~= tail);
    }
}

proof fn lemma_split_without_sep(y: Seq<char>, c: char)
    requires
        !y.contains(c),
    ensures
        split_on(y, seq![c]) == seq![y],
    decreases y.len(),
{
    if y.len() >= 1 {
        assert(y.take(1) != seq![c]) by {
            assert(y.take(1)[0] == y[0]);
        }
        let t = y.skip(1);
        assert(!t.contains(c)) by {
            if t.contains(c) {
                let k = choose|k: int| 0 <= k < t.len() && t[k] == c;
                assert(y[k + 1] == c);
            }
        }
        lemma_split_without_sep(t, c);
        assert(seq![seq![y[0]] + t] =~= seq![y]) by {
            assert(seq![y[0]] + t =~= y);
        }
    }
}

proof fn lemma_split_at_first_sep(x: Seq<char>, c: char, y: Seq<char>)
    requires
        !x.contains(c),
    ensures
        split_on(x + seq![c] + y, seq![c]) == seq![x] + split_on(y, seq![c]),
    decreases x.len(),
{
    let s = x + seq![c] + y;
    if x.len() == 0 {
        assert(s.take(1) =~= seq![c]);
        assert(s.skip(1) =~= y);
        assert(x =~= Seq::<char>::empty());
    } else {
        assert(s.take(1) != seq![c]) by {
            assert(s.take(1)[0] == x[0]);
        }
        let t = x.skip(1);
        assert(!t.contains(c)) by {
            if t.contains(c) {
                let k = choose|k: int| 0 <= k < t.len() && t[k] == c;
                assert(x[k + 1] == c);
            }
        }
        assert(s.skip(1) =~= t + seq![c] + y);
        lemma_split_at_first_sep(t, c, y);
        assert(s[0] == x[0]);
        assert(seq![x[0]] + t =~= x);
        let rest = split_on(s.skip(1), seq![c]);
        assert(rest.update(0, seq![s[0]] + rest[0]) =~= seq![x] + split_on(y, seq![c]));
    }
}

proof fn lemma_first_at(x: Seq<char>, c: char, e: Seq<char>)
    requires
        !x.contains(c),
    ensures
        first_index_of(x + seq![c] + e, c) == Some(x.len() as int),
{
    let s = x + seq![c] + e;
    lemma_first_index_of(s, c);
    assert(s[x.len() as int] == c);
    if let Some(i) = first_index_of(s, c) {
        if i < x.len() {
            assert(s[i] == x[i]);
        }
    }
}

/// The parts of well-formed coordinates land where the Maven layout puts
/// them: `g:a:v` names `g'/a/v/a-v.jar` and `g:a:v@e` names
/// `g'/a/v/a-v.e`, where `g'` is the group with its dots made slashes.
pub proof fn lemma_maven_path_of_coordinates(g: Seq<char>, a: Seq<char>, v: Seq<char>, e: Seq<char>)
    requires
        !g.contains(':') && !a.contains(':') && !v.contains(':'),
        !g.contains('@') && !a.contains('@') && !v.contains('@'),
    ensures
        maven_path(g + ":"@ + a + ":"@ + v) == Some(
            replace_all(g, seq!['.'], seq!['/']) + "/"@ + a + "/"@ + v + "/"@ + a + "-"@ + v + ".jar"@,
        ),
        maven_path(g + ":"@ + a + ":"@ + v + "@"@ + e) == Some(
            replace_all(g, seq!['.'], seq!['/']) + "/"@ + a + "/"@ + v + "/"@ + a + "-"@ + v + "."@ + e,
        ),
{
    reveal_strlit(":");
    reveal_strlit("@");
    reveal_strlit("/");
    reveal_strlit("-");
    reveal_strlit(".");
    reveal_strlit(".jar");
    reveal_strlit("jar");
    let c = g + seq![':'] + a + seq![':'] + v;
    assert(g + ":"@ + a + ":"@ + v =~= c);
    assert(!c.contains('@')) by {
        if c.contains('@') {
            let k = choose|k: int| 0 <= k < c.len() && c[k] == '@';
            if k < g.len() {
                assert(g[k] == '@');
            } else if k == g.len() {
            } else if k < g.len() + 1 + a.len() {
                assert(a[k - g.len() - 1] == '@');
            } else if k == g.len() + 1 + a.len() {
            } else {
                assert(v[k - g.len() - 2 - a.len()] == '@');
            }
        }
    }
    lemma_first_index_of(c, '@');
    if let Some(i) = first_index_of(c, '@') {
        assert(c[i] == '@');
    }
    assert(first_index_of(c, '@') is None);
    lemma_split_without_sep(v, ':');
    lemma_split_at_first_sep(a, ':', v);
    assert(g + seq![':'] + (a + seq![':'] + v) =~= c);
    lemma_split_at_first_sep(g, ':', a + seq![':'] + v);
    let parts = split_on(c, seq![':']);
    assert(parts =~= seq![g, a, v]);
    assert(maven_path(c)->0 =~= replace_all(g, seq!['.'], seq!['/']) + "/"@ + a + "/"@ + v + "/"@ + a + "-"@ + v
        + ".jar"@);

    let ce = c + seq!['@'] + e;
    assert(g + ":"@ + a + ":"@ + v + "@"@ + e =~= ce);
    lemma_first_at(c, '@', e);
    assert(ce.take(c.len() as int) =~= c);
    assert(ce.skip(c.len() as int + 1) =~= e);
    assert(maven_path(ce)->0 =~= replace_all(g, seq!['.'], seq!['/']) + "/"@ + a + "/"@ + v + "/"@ + a + "-"@ + v
        + "."@ + e);
}

/// The path of the file that `coords` names, relative to a Maven repository.
pub fn coords_to_path(coords: &str) -> (res: Option<String>)
    ensures
        res matches Some(p) ==> maven_path(coords@) == Some(p@),
        res is None ==> maven_path(coords@) is None,
{
    let all = chars_of(coords);
    proof {
        lemma_first_index_of(all@, '@');
        assert(all@.take(all@.len() as int) == all@);
    }
    let (c, ext) = match index_of(all.as_slice(), '@') {
        Some(i) => {
            assert(i < all.len());
            (slice_prefix(all.as_slice(), i), slice_suffix(all.as_slice(), i + 1))
        },
        None => (slice_prefix(all.as_slice(), all.len()), chars_of("jar")),
    };
    assert((c@, ext@) == coords_and_extension(coords@));
    let colon = vec![':'];
    let parts = split_chars(c.as_slice(), colon.as_slice());
    assert(colon@ == seq![':']);
    if parts.len() < 3 {
        return None;
    }
    let group = &parts[0];
    let artifact = &parts[1];
    let version = &parts[2];
    let dot = vec!['.'];
    let slash = vec!['/'];
    assert(dot@ == seq!['.']);
    assert(slash@ == seq!['/']);
    let mut out = replace_chars(group.as_slice(), dot.as_slice(), slash.as_slice());
    out.push('/');
    extend_chars(&mut out, artifact.as_slice());
    out.push('/');
    extend_chars(&mut out, version.as_slice());
    out.push('/');
    extend_chars(&mut out, artifact.as_slice());
    out.push('-');
    extend_chars(&mut out, version.as_slice());
    if parts.len() > 3 {
        out.push('-');
        extend_chars(&mut out, parts[3].as_slice());
    }
    out.push('.');
    extend_chars(&mut out, ext.as_slice());
    proof {
        let ps = vviews(parts@);
        assert(ps[0] == group@);
        assert(ps[1] == artifact@);
        assert(ps[2] == version@);
        if parts@.len() > 3 {
            assert(ps[3] == parts@[3]@);
        }
        assert(out@ =~= maven_path(coords@)->0);
    }
    Some(string_of(out.as_slice()))
}

/// The URL of the file that `coords` names in the repository at `base_url`.
pub fn coords_to_url(coords: &str, base_url: &str) -> (res: Option<String>)
    ensures
        res matches Some(u) ==> maven_url(coords@, base_url@) == Some(u@),
        res is None ==> maven_url(coords@, base_url@) is None,
{
    let path = match coords_to_path(coords) {
        Some(p) => p,
        None => return None,
    };
    let base = chars_of(base_url);
    let mut out = trim_end_matches(base.as_slice(), '/');
    out.push('/');
    let p = chars_of(path.as_str());
    extend_chars(&mut out, p.as_slice());
    Some(string_of(out.as_slice()))
}

/// A copy of an optional string.
pub fn copy_opt_string(s: &Option<String>) -> (res: Option<String>)
    ensures
        res == *s,
{
    match s {
        Some(x) => Some(x.clone()),
        None => None,
    }
}

/// A copy of an artifact.
pub fn copy_artifact(a: &Artifact) -> (res: Artifact)
    ensures
        res == *a,
{
    Artifact { path: a.path.clone(), sha1: copy_opt_string(&a.sha1), size: a.size, url: a.url.clone() }
}

/// The artifact of a library: the one its download information names, or
/// else the one its coordinates name in its repository (with no hash or size).
pub fn resolve_library_artifact(library: &Library) -> (res: Option<Artifact>)
    ensures
        res matches Some(a) ==> library_artifact(*library) == Some(a@),
        res is None ==> library_artifact(*library) is None,
{
    if let Some(d) = &library.downloads {
        if let Some(a) = &d.artifact {
            return Some(copy_artifact(a));
        }
    }
    let base: &str = match &library.url {
        Some(u) => u.as_str(),
        None => "https://libraries.minecraft.net/",
    };
    let path = match coords_to_path(library.name.as_str()) {
        Some(p) => p,
        None => return None,
    };
    let url = match coords_to_url(library.name.as_str(), base) {
        Some(u) => u,
        None => return None,
    };
    Some(Artifact { path, sha1: None, size: None, url })
}

} // verus!
