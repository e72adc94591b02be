//! Installer profiles of Forge and NeoForge: the data map, the processors
//! and their arguments, and the libraries a profile brings.

use vstd::prelude::*;
use crate::client_json::{keys_distinct, ClientJson, Library};
use crate::maven::{coords_to_path, library_artifact, maven_path, resolve_library_artifact};
use crate::runtime::{join_path, pair_views, path_join};
use crate::launch::{joined, join_strings};
use crate::text::{
    chars_of, has_prefix, lemma_split_on_nonempty, slice_range, slice_suffix, split_chars,
    split_on, starts_with, str_eq, string_of, trim, trim_start_char, trim_start_matches,
    trim_white, views, vviews,
};

verus! {

/// `arg` is `open` + inner + `close`; the inner text.
pub open spec fn enclosed(arg: Seq<char>, open: char, close: char) -> Option<Seq<char>> {
    if arg.len() >= 2 && arg[0] == open && arg.last() == close {
        Some(arg.subrange(1, arg.len() - 1))
    } else {
        None
    }
}

/// The inner text of `arg` when it is `open` + inner + `close`.
fn enclosed_in(arg: &[char], open: char, close: char) -> (res: Option<Vec<char>>)
    ensures
        res matches Some(v) ==> enclosed(arg@, open, close) == Some(v@),
        res is None ==> enclosed(arg@, open, close) is None,
{
    let n = arg.len();
    if n >= 2 && arg[0] == open && arg[n - 1] == close {
        Some(slice_range(arg, 1, n - 1))
    } else {
        None
    }
}

/// The value of `key` in `map` (its first entry).
pub open spec fn lookup(map: Seq<(String, String)>, key: Seq<char>) -> Option<Seq<char>>
    decreases map.len(),
{
    if map.len() == 0 {
        None
    } else if map[0].0@ == key {
        Some(map[0].1@)
    } else {
        lookup(map.drop_first(), key)
    }
}

/// The value of `key` in `map`.
pub fn lookup_value(map: &Vec<(String, String)>, key: &str) -> (res: Option<String>)
    ensures
        res matches Some(v) ==> lookup(map@, key@) == Some(v@),
        res is None ==> lookup(map@, key@) is None,
{
    let n = map.len();
    assert(map@.skip(0) == map@);
    for i in 0..n
        invariant
            n == map@.len(),
            lookup(map@, key@) == lookup(map@.skip(i as int), key@),
    {
        let ghost t = map@.skip(i as int);
        assert(t[0] == map@[i as int]);
        assert(t.drop_first() == map@.skip(i + 1));
        if str_eq(map[i].0.as_str(), key) {
            return Some(map[i].1.clone());
        }
    }
    None
}

/// With distinct keys, `lookup` finds an entry wherever it stands.
pub proof fn lemma_lookup_distinct(map: Seq<(String, String)>, i: int)
    requires
        keys_distinct(map),
        0 <= i < map.len(),
    ensures
        lookup(map, map[i].0@) == Some(map[i].1@),
    decreases map.len(),
{
    if i > 0 {
        assert(map[0].0@ != map[i].0@);
        assert(map.drop_first()[i - 1] == map[i]);
        lemma_lookup_distinct(map.drop_first(), i - 1);
    }
}

/// `map` without the entries whose key is `key`, the others in order.
pub open spec fn without_key(map: Seq<(String, String)>, key: Seq<char>) -> Seq<(String, String)>
    decreases map.len(),
{
    if map.len() == 0 {
        Seq::empty()
    } else if map[0].0@ == key {
        without_key(map.drop_first(), key)
    } else {
        seq![map[0]] + without_key(map.drop_first(), key)
    }
}

proof fn lemma_without_key_lookup(map: Seq<(String, String)>, key: Seq<char>, k: Seq<char>, tail: Seq<(String, String)>)
    ensures
        k == key ==> lookup(without_key(map, key) + tail, k) == lookup(tail, k),
        k != key && lookup(tail, k) is None ==> lookup(without_key(map, key) + tail, k) == lookup(map, k),
    decreases map.len(),
{
    if map.len() > 0 {
        lemma_without_key_lookup(map.drop_first(), key, k, tail);
        let rest = without_key(map.drop_first(), key);
        if map[0].0@ != key {
            assert((seq![map[0]] + rest + tail).drop_first() =~= rest + tail);
            assert(seq![map[0]] + rest + tail =~= seq![map[0]] + (rest + tail));
        }
    } else {
        assert(without_key(map, key) + tail =~= tail);
        if k != key && lookup(tail, k) is None {
            assert(lookup(map, k) is None);
        }
    }
}

proof fn lemma_without_key_distinct(map: Seq<(String, String)>, key: Seq<char>)
    requires
        keys_distinct(map),
    ensures
        keys_distinct(without_key(map, key)),
        forall|i: int| 0 <= i < without_key(map, key).len() ==> (#[trigger] without_key(map, key)[i]).0@ != key
            && map.contains(without_key(map, key)[i]),
    decreases map.len(),
{
    if map.len() > 0 {
        let rest = map.drop_first();
        assert forall|i: int, j: int| 0 <= i < j < rest.len() implies rest[i].0@ != rest[j].0@ by {
            assert(map[i + 1] == rest[i] && map[j + 1] == rest[j]);
        }
        lemma_without_key_distinct(rest, key);
        let w = without_key(rest, key);
        assert forall|i: int| 0 <= i < w.len() implies map.contains(#[trigger] w[i]) by {
            let q = choose|q: int| 0 <= q < rest.len() && rest[q] == w[i];
            assert(map[q + 1] == w[i]);
        }
        if map[0].0@ != key {
            let full = seq![map[0]] + w;
            assert forall|i: int| 0 <= i < w.len() implies (#[trigger] w[i]).0@ != map[0].0@ by {
                let q = choose|q: int| 0 <= q < map.len() && map[q] == w[i];
                if q == 0 {
                    assert(w[i].0@ != key);
                } else {
                    assert(map[0].0@ != map[q].0@);
                }
            }
            assert forall|i: int, j: int| 0 <= i < j < full.len() implies full[i].0@ != full[j].0@ by {
                if i == 0 {
                    assert(full[j] == w[j - 1]);
                } else {
                    assert(full[i] == w[i - 1] && full[j] == w[j - 1]);
                }
            }
            assert forall|i: int| 0 <= i < full.len() implies (#[trigger] full[i]).0@ != key && map.contains(full[i]) by {
                if i == 0 {
                    assert(map[0] == full[0]);
                } else {
                    assert(full[i] == w[i - 1]);
                }
            }
        }
    }
}

/// Sets `key` to `value` in an installer data map: earlier entries of
/// `key` are removed and the new entry is added at the end.  Afterwards
/// `key` looks up to `value`, every other key looks up as before, and
/// distinct keys stay distinct.
pub fn set_data_value(map: &mut Vec<(String, String)>, key: &str, value: String)
    ensures
        pair_views(final(map)@) == pair_views(without_key(old(map)@, key@)).push((key@, value@)),
        lookup(final(map)@, key@) == Some(value@),
        forall|k: Seq<char>| k != key@ ==> #[trigger] lookup(final(map)@, k) == lookup(old(map)@, k),
        keys_distinct(old(map)@) ==> keys_distinct(final(map)@),
{
    let ghost old_map = map@;
    let mut out: Vec<(String, String)> = Vec::new();
    let n = map.len();
    assert(map@.skip(0) =~= map@);
    for i in 0..n
        invariant
            n == map@.len(),
            map@ == old_map,
            without_key(old_map, key@) =~= out@ + without_key(old_map.skip(i as int), key@),
    {
        let ghost t = old_map.skip(i as int);
        assert(t[0] == old_map[i as int]);
        assert(t.drop_first() =~= old_map.skip(i + 1));
        if !str_eq(map[i].0.as_str(), key) {
            let ghost before = out@;
            out.push((map[i].0.clone(), map[i].1.clone()));
            assert(out@ =~= before + seq![old_map[i as int]]);
        }
    }
    assert(old_map.skip(n as int) =~= Seq::<(String, String)>::empty());
    let entry = (key.to_owned(), value);
    let ghost e = entry;
    out.push(entry);
    let ghost w = without_key(old_map, key@);
    assert(out@ =~= w + seq![e]);
    proof {
        assert(lookup(seq![e], key@) == Some(value@));
        assert(seq![e].drop_first() =~= Seq::<(String, String)>::empty());
        lemma_without_key_lookup(old_map, key@, key@, seq![e]);
        assert forall|k: Seq<char>| k != key@ implies #[trigger] lookup(out@, k) == lookup(old_map, k) by {
            assert(lookup(seq![e], k) == lookup(seq![e].drop_first(), k));
            lemma_without_key_lookup(old_map, key@, k, seq![e]);
        }
        assert(pair_views(out@) =~= pair_views(w).push((key@, value@)));
        if keys_distinct(old_map) {
            lemma_without_key_distinct(old_map, key@);
            assert forall|i: int, j: int| 0 <= i < j < out@.len() implies out@[i].0@ != out@[j].0@ by {
                if j == out@.len() - 1 {
                    assert(out@[i] == w[i]);
                } else {
                    assert(out@[i] == w[i] && out@[j] == w[j]);
                }
            }
        }
    }
    *map = out;
}

/// The message when installer step `main_class` of `instance_id` exits
/// unsuccessfully with status `status`.
pub fn installer_step_failed(instance_id: &str, main_class: &str, status: &str) -> (res: String)
    ensures
        res@ == instance_id@ + " installer step "@ + main_class@ + " failed (exit "@ + status@ + ")"@,
{
    let mut m = String::from_str(instance_id);
    m.append(" installer step ");
    m.append(main_class);
    m.append(" failed (exit ");
    m.append(status);
    m.append(")");
    m
}

/// The file a library with coordinates `coords` is stored in:
/// `<minecraft_dir>/libraries/<maven path>`.
pub open spec fn library_file_of(minecraft_dir: Seq<char>, coords: Seq<char>, windows: bool) -> Option<Seq<char>> {
    match maven_path(coords) {
        Some(p) => Some(path_join(path_join(minecraft_dir, "libraries"@, windows), p, windows)),
        None => None,
    }
}

/// The file a library with coordinates `coords` is stored in.
pub fn library_file(minecraft_dir: &str, coords: &str, windows: bool) -> (res: Option<String>)
    ensures
        res matches Some(f) ==> library_file_of(minecraft_dir@, coords@, windows) == Some(f@),
        res is None ==> library_file_of(minecraft_dir@, coords@, windows) is None,
{
    match coords_to_path(coords) {
        Some(p) => Some(join_path(join_path(minecraft_dir, "libraries", windows).as_str(), p.as_str(), windows)),
        None => None,
    }
}

/// A processor argument with its references resolved: `{KEY}` becomes the
/// data map's value of `KEY` (when it has one), `[coords]` the file of that
/// library (when the coordinates are well formed); anything else stays.
pub open spec fn substituted_arg(
    arg: Seq<char>,
    datamap: Seq<(String, String)>,
    minecraft_dir: Seq<char>,
    windows: bool,
) -> Seq<char> {
    if enclosed(arg, '{', '}') is Some && lookup(datamap, enclosed(arg, '{', '}')->0) is Some {
        lookup(datamap, enclosed(arg, '{', '}')->0)->0
    } else if enclosed(arg, '[', ']') is Some && library_file_of(
        minecraft_dir,
        enclosed(arg, '[', ']')->0,
        windows,
    ) is Some {
        library_file_of(minecraft_dir, enclosed(arg, '[', ']')->0, windows)->0
    } else {
        arg
    }
}

/// A processor argument with its references resolved.
pub fn substitute_arg(arg: &str, datamap: &Vec<(String, String)>, minecraft_dir: &str, windows: bool) -> (res: String)
    ensures
        res@ == substituted_arg(arg@, datamap@, minecraft_dir@, windows),
{
    let a = chars_of(arg);
    if let Some(key) = enclosed_in(a.as_slice(), '{', '}') {
        let k = string_of(key.as_slice());
        if let Some(v) = lookup_value(datamap, k.as_str()) {
            return v;
        }
    }
    if let Some(coords) = enclosed_in(a.as_slice(), '[', ']') {
        let c = string_of(coords.as_slice());
        if let Some(p) = library_file(minecraft_dir, c.as_str(), windows) {
            return p;
        }
    }
    arg.to_owned()
}

/// How an entry of an installer's data map is resolved.
pub enum DataValue {
    /// `[coords]`: the file of that library.
    LibraryFile(String),
    /// `'text'`: the text itself.
    Literal(String),
    /// Anything else names a file inside the installer jar, to be unpacked;
    /// this is its name there (without leading `/`).
    Packed(String),
    /// `[coords]` with malformed coordinates: the error message.
    BadCoordinate(String),
}

/// How the data map entry `key` with client value `raw` is resolved.
pub open spec fn data_value_ok(res: DataValue, key: Seq<char>, raw: Seq<char>, minecraft_dir: Seq<char>, windows: bool) -> bool {
    if enclosed(raw, '[', ']') is Some {
        let coords = enclosed(raw, '[', ']')->0;
        match library_file_of(minecraft_dir, coords, windows) {
            Some(f) => res matches DataValue::LibraryFile(p) && p@ == f,
            None => res matches DataValue::BadCoordinate(m) && m@ == "bad maven coordinate in data."@
                + key + ": "@ + coords,
        }
    } else if enclosed(raw, '\'', '\'') is Some {
        res matches DataValue::Literal(t) && t@ == enclosed(raw, '\'', '\'')->0
    } else {
        res matches DataValue::Packed(n) && n@ == trim_start_char(raw, '/')
    }
}

/// How the data map entry `key` with client value `raw` is resolved.
pub fn resolve_data_value(key: &str, raw: &str, minecraft_dir: &str, windows: bool) -> (res: DataValue)
    ensures
        data_value_ok(res, key@, raw@, minecraft_dir@, windows),
{
    let r = chars_of(raw);
    if let Some(coords) = enclosed_in(r.as_slice(), '[', ']') {
        let c = string_of(coords.as_slice());
        return match library_file(minecraft_dir, c.as_str(), windows) {
            Some(p) => DataValue::LibraryFile(p),
            None => {
                let mut m = String::from_str("bad maven coordinate in data.");
                m.append(key);
                m.append(": ");
                m.append(c.as_str());
                DataValue::BadCoordinate(m)
            },
        };
    }
    if let Some(text) = enclosed_in(r.as_slice(), '\'', '\'') {
        return DataValue::Literal(string_of(text.as_slice()));
    }
    DataValue::Packed(string_of(trim_start_matches(r.as_slice(), '/').as_slice()))
}

/// A processor runs on the client: it names no sides, or `client` among them.
pub open spec fn runs_on_client_of(sides: Option<Vec<String>>) -> bool {
    match sides {
        None => true,
        Some(s) => exists|i: int| 0 <= i < s@.len() && #[trigger] s@[i]@ == "client"@,
    }
}

/// A processor with these sides runs on the client.
pub fn runs_on_client(sides: &Option<Vec<String>>) -> (res: bool)
    ensures
        res == runs_on_client_of(*sides),
{
    match sides {
        None => true,
        Some(s) => {
            let n = s.len();
            for i in 0..n
                invariant
                    n == s@.len(),
                    sides is Some,
                    sides->0 == *s,
                    forall|j: int| 0 <= j < i ==> s@[j]@ != "client"@,
            {
                if str_eq(s[i].as_str(), "client") {
                    assert(s@[i as int]@ == "client"@);
                    return true;
                }
            }
            false
        },
    }
}

/// The library files of a processor class path whose coordinates are well
/// formed, in order.
pub open spec fn processor_class_files(classpath: Seq<String>, minecraft_dir: Seq<char>, windows: bool) -> Seq<Seq<char>>
    decreases classpath.len(),
{
    if classpath.len() == 0 {
        Seq::empty()
    } else {
        let before = processor_class_files(classpath.drop_last(), minecraft_dir, windows);
        match library_file_of(minecraft_dir, classpath.last()@, windows) {
            Some(f) => before.push(f),
            None => before,
        }
    }
}

/// The class path a processor runs with: the files of its libraries,
/// separated by `sep`.
pub fn processor_classpath(classpath: &Vec<String>, minecraft_dir: &str, sep: &str, windows: bool) -> (res: String)
    ensures
        res@ == joined(processor_class_files(classpath@, minecraft_dir@, windows), sep@),
{
    let mut files: Vec<String> = Vec::new();
    let n = classpath.len();
    for i in 0..n
        invariant
            n == classpath@.len(),
            views(files@) == processor_class_files(classpath@.take(i as int), minecraft_dir@, windows),
    {
        assert(classpath@.take(i + 1).drop_last() =~= classpath@.take(i as int));
        assert(classpath@.take(i + 1).last() == classpath@[i as int]);
        if let Some(f) = library_file(minecraft_dir, classpath[i].as_str(), windows) {
            let ghost before = views(files@);
            let ghost fv = f@;
            files.push(f);
            assert(views(files@) =~= before.push(fv));
        }
    }
    assert(classpath@.take(n as int) =~= classpath@);
    join_strings(&files, sep)
}

/// The jar of a processor, or the error for malformed coordinates.
pub fn processor_jar(jar: &str, minecraft_dir: &str, windows: bool) -> (res: Result<String, String>)
    ensures
        res matches Ok(f) ==> library_file_of(minecraft_dir@, jar@, windows) == Some(f@),
        res matches Err(m) ==> library_file_of(minecraft_dir@, jar@, windows) is None
            && m@ == "bad processor jar coordinate: "@ + jar@,
{
    match library_file(minecraft_dir, jar, windows) {
        Some(f) => Ok(f),
        None => {
            let mut m = String::from_str("bad processor jar coordinate: ");
            m.append(jar);
            Err(m)
        },
    }
}

/// The main class a jar manifest names: the value of its first line that
/// starts with `Main-Class:`, trimmed.  Lines are the pieces between `\n`;
/// a `\r` before the `\n` is white space that trimming removes.
pub open spec fn manifest_main_class(text: Seq<char>) -> Option<Seq<char>> {
    first_attribute(split_on(text, seq!['\n']), "Main-Class:"@)
}

/// The trimmed rest of the first line starting with `name`.
pub open spec fn first_attribute(lines: Seq<Seq<char>>, name: Seq<char>) -> Option<Seq<char>>
    decreases lines.len(),
{
    if lines.len() == 0 {
        None
    } else if has_prefix(lines[0], name) {
        Some(trim(lines[0].skip(name.len() as int)))
    } else {
        first_attribute(lines.drop_first(), name)
    }
}

/// The main class a jar manifest names.
pub fn main_class_from_manifest(text: &str) -> (res: Option<String>)
    ensures
        res matches Some(m) ==> manifest_main_class(text@) == Some(m@),
        res is None ==> manifest_main_class(text@) is None,
{
    let t = chars_of(text);
    let nl = vec!['\n'];
    assert(nl@ == seq!['\n']);
    let lines = split_chars(t.as_slice(), nl.as_slice());
    let name = chars_of("Main-Class:");
    let n = lines.len();
    assert(vviews(lines@).skip(0) == vviews(lines@));
    for i in 0..n
        invariant
            n == lines@.len(),
            name@ == "Main-Class:"@,
            manifest_main_class(text@) == first_attribute(vviews(lines@).skip(i as int), name@),
            vviews(lines@) == split_on(text@, seq!['\n']),
    {
        let ghost rest = vviews(lines@).skip(i as int);
        assert(rest[0] == lines@[i as int]@);
        assert(rest.drop_first() == vviews(lines@).skip(i + 1));
        if starts_with(lines[i].as_slice(), name.as_slice()) {
            let value = trim_white(slice_suffix(lines[i].as_slice(), name.len()).as_slice());
            return Some(string_of(value.as_slice()));
        }
    }
    None
}

/// The instance an installer profile creates: the id of its version
/// description, or else the profile's version.
pub fn installer_instance_id(child: &ClientJson, profile_version: &str) -> (res: String)
    ensures
        res@ == (match child.id {
            Some(id) => id@,
            None => profile_version@,
        }),
{
    match &child.id {
        Some(id) => id.clone(),
        None => profile_version.to_owned(),
    }
}

/// The size a library's artifact declares, or nothing.
pub open spec fn declared_size(l: Library) -> nat {
    match library_artifact(l) {
        Some(a) => match a.size {
            Some(s) => s as nat,
            None => 0,
        },
        None => 0,
    }
}

/// The sum of the sizes the artifacts of `libs` declare.
pub open spec fn declared_bytes(libs: Seq<Library>) -> nat
    decreases libs.len(),
{
    if libs.len() == 0 {
        0
    } else {
        declared_bytes(libs.drop_last()) + declared_size(libs.last())
    }
}

/// The sum of the sizes the artifacts of `libs` declare, or `None` when it
/// does not fit in a `u64`.
pub fn total_library_bytes(libs: &Vec<Library>) -> (res: Option<u64>)
    ensures
        res matches Some(t) ==> t == declared_bytes(libs@),
        res is None ==> declared_bytes(libs@) > u64::MAX,
{
    let mut total: u64 = 0;
    let n = libs.len();
    for i in 0..n
        invariant
            n == libs@.len(),
            total == declared_bytes(libs@.take(i as int)),
    {
        assert(libs@.take(i + 1).drop_last() =~= libs@.take(i as int));
        assert(libs@.take(i + 1).last() == libs@[i as int]);
        let size = match resolve_library_artifact(&libs[i]) {
            Some(a) => match a.size {
                Some(s) => s,
                None => 0,
            },
            None => 0,
        };
        if size > u64::MAX - total {
            proof {
                lemma_declared_bytes_monotone(libs@, i + 1);
            }
            return None;
        }
        total = total + size;
    }
    assert(libs@.take(n as int) =~= libs@);
    Some(total)
}

/// The declared bytes of a prefix are at most those of the whole list.
pub proof fn lemma_declared_bytes_monotone(libs: Seq<Library>, k: int)
    requires
        0 <= k <= libs.len(),
    ensures
        declared_bytes(libs.take(k)) <= declared_bytes(libs),
    decreases libs.len() - k,
{
    if k < libs.len() {
        assert(libs.take(k + 1).drop_last() =~= libs.take(k));
        lemma_declared_bytes_monotone(libs, k + 1);
    } else {
        assert(libs.take(k) =~= libs);
    }
}

} // verus!
