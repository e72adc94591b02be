//! Jar (zip) archives: their entries as the `zip` crate decodes them, the
//! files a native-library jar contributes, the main class a jar's manifest
//! names, and the files an installer jar carries.  Failures are reported
//! with the text of the `zip` crate's (or the reader's) error.

use vstd::prelude::*;
use std::io::Read;
use crate::files::{excluded_from_extraction, excluded_of};
use crate::installer::{main_class_from_manifest, manifest_main_class};
use crate::text::{chars_of, string_of, trim_start_char, trim_start_matches};

verus! {

/// The text of the error `ZipArchive::new` gives for `archive`, or nothing
/// when the archive opens.
pub uninterp spec fn zip_open_error_of(archive: Seq<u8>) -> Option<Seq<char>>;

/// The number of entries of an archive that opens.
pub uninterp spec fn zip_entry_count_of(archive: Seq<u8>) -> usize;

/// The text of the error `ZipArchive::by_name` gives for the entry `name`,
/// or nothing when the entry is found.
pub uninterp spec fn zip_find_error_of(archive: Seq<u8>, name: Seq<char>) -> Option<Seq<char>>;

/// The bytes read to the end from the entry `name`, or the text of the
/// reader's error.
pub uninterp spec fn zip_read_of(archive: Seq<u8>, name: Seq<char>) -> Result<Seq<u8>, Seq<char>>;

/// The text read to the end from the entry `name`, or the text of the
/// reader's error (also when it is not UTF-8).
pub uninterp spec fn zip_read_text_of(archive: Seq<u8>, name: Seq<char>) -> Result<Seq<char>, Seq<char>>;

/// The name of entry `index` and whether it is a directory, or the text of
/// the error `ZipArchive::by_index` gives.
pub uninterp spec fn zip_header_of(archive: Seq<u8>, index: usize) -> Result<(Seq<char>, bool), Seq<char>>;

/// The bytes read to the end from entry `index`, or the text of the
/// reader's error.
pub uninterp spec fn zip_contents_of(archive: Seq<u8>, index: usize) -> Result<Seq<u8>, Seq<char>>;

/// `ZipArchive::new` of the `zip` crate over the bytes: the text of its
/// error, named `zip_open_error_of`, or nothing when the archive opens.
#[verifier::external_body]
fn zip_open_error(archive: &[u8]) -> (res: Option<String>)
    ensures
        res matches Some(e) ==> zip_open_error_of(archive@) == Some(e@),
        res is None ==> zip_open_error_of(archive@) is None,
{
    match zip::ZipArchive::new(std::io::Cursor::new(archive)) {
        Ok(_) => None,
        Err(e) => Some(e.to_string()),
    }
}

/// `ZipArchive::len` of the `zip` crate: the number of entries, named
/// `zip_entry_count_of`.
#[verifier::external_body]
fn zip_entry_count(archive: &[u8]) -> (res: usize)
    requires
        zip_open_error_of(archive@) is None,
    ensures
        res == zip_entry_count_of(archive@),
{
    match zip::ZipArchive::new(std::io::Cursor::new(archive)) {
        Ok(zip) => zip.len(),
        Err(_) => 0,
    }
}

/// `ZipArchive::by_name` of the `zip` crate: the text of its error, named
/// `zip_find_error_of`, or nothing when the entry is found.
#[verifier::external_body]
fn zip_find_error(archive: &[u8], name: &str) -> (res: Option<String>)
    requires
        zip_open_error_of(archive@) is None,
    ensures
        res matches Some(e) ==> zip_find_error_of(archive@, name@) == Some(e@),
        res is None ==> zip_find_error_of(archive@, name@) is None,
{
    let mut zip = match zip::ZipArchive::new(std::io::Cursor::new(archive)) {
        Ok(zip) => zip,
        Err(e) => return Some(e.to_string()),
    };
    let found = match zip.by_name(name) {
        Ok(_) => None,
        Err(e) => Some(e.to_string()),
    };
    found
}

/// `Read::read_to_end` on the entry `name` that `ZipArchive::by_name`
/// finds: its bytes or the text of the error, named `zip_read_of`.
#[verifier::external_body]
fn zip_read(archive: &[u8], name: &str) -> (res: Result<Vec<u8>, String>)
    requires
        zip_open_error_of(archive@) is None,
        zip_find_error_of(archive@, name@) is None,
    ensures
        res matches Ok(v) ==> (zip_read_of(archive@, name@) matches Ok(w) && w == v@),
        res matches Err(e) ==> (zip_read_of(archive@, name@) matches Err(f) && f == e@),
{
    let mut zip = zip::ZipArchive::new(std::io::Cursor::new(archive)).map_err(|e| e.to_string())?;
    let mut file = zip.by_name(name).map_err(|e| e.to_string())?;
    let mut buf = Vec::new();
    file.read_to_end(&mut buf).map_err(|e| e.to_string())?;
    Ok(buf)
}

/// `Read::read_to_string` on the entry `name` that `ZipArchive::by_name`
/// finds: its text or the text of the error, named `zip_read_text_of`.
#[verifier::external_body]
fn zip_read_text(archive: &[u8], name: &str) -> (res: Result<String, String>)
    requires
        zip_open_error_of(archive@) is None,
        zip_find_error_of(archive@, name@) is None,
    ensures
        res matches Ok(t) ==> (zip_read_text_of(archive@, name@) matches Ok(w) && w == t@),
        res matches Err(e) ==> (zip_read_text_of(archive@, name@) matches Err(f) && f == e@),
{
    let mut zip = zip::ZipArchive::new(std::io::Cursor::new(archive)).map_err(|e| e.to_string())?;
    let mut file = zip.by_name(name).map_err(|e| e.to_string())?;
    let mut text = String::new();
    file.read_to_string(&mut text).map_err(|e| e.to_string())?;
    Ok(text)
}

/// `ZipArchive::by_index` of the `zip` crate, with the entry's `name` and
/// `is_dir`, or the text of its error: named `zip_header_of`.
#[verifier::external_body]
fn zip_header(archive: &[u8], index: usize) -> (res: Result<(String, bool), String>)
    requires
        zip_open_error_of(archive@) is None,
    ensures
        res matches Ok(h) ==> (zip_header_of(archive@, index) matches Ok(w) && w == (h.0@, h.1)),
        res matches Err(e) ==> (zip_header_of(archive@, index) matches Err(f) && f == e@),
{
    let mut zip = zip::ZipArchive::new(std::io::Cursor::new(archive)).map_err(|e| e.to_string())?;
    let entry = zip.by_index(index).map_err(|e| e.to_string())?;
    Ok((entry.name().to_string(), entry.is_dir()))
}

/// `Read::read_to_end` on entry `index` that `ZipArchive::by_index` gives:
/// its bytes or the text of the error, named `zip_contents_of`.
#[verifier::external_body]
fn zip_contents(archive: &[u8], index: usize) -> (res: Result<Vec<u8>, String>)
    requires
        zip_open_error_of(archive@) is None,
        zip_header_of(archive@, index) is Ok,
    ensures
        res matches Ok(v) ==> (zip_contents_of(archive@, index) matches Ok(w) && w == v@),
        res matches Err(e) ==> (zip_contents_of(archive@, index) matches Err(f) && f == e@),
{
    let mut zip = zip::ZipArchive::new(std::io::Cursor::new(archive)).map_err(|e| e.to_string())?;
    let mut entry = zip.by_index(index).map_err(|e| e.to_string())?;
    let mut buf = Vec::new();
    entry.read_to_end(&mut buf).map_err(|e| e.to_string())?;
    Ok(buf)
}

// ---------------------------------------------------------------------------
// Native libraries
// ---------------------------------------------------------------------------

/// An archive entry is unpacked by native extraction: it is not a
/// directory and not excluded.
pub open spec fn extracts_entry_of(name: Seq<char>, is_dir: bool, exclude: Option<Vec<String>>) -> bool {
    !is_dir && !excluded_of(name, exclude)
}

/// An archive entry with this name is unpacked by native extraction.
pub fn extracts_entry(name: &str, is_dir: bool, exclude: &Option<Vec<String>>) -> (res: bool)
    ensures
        res == extracts_entry_of(name@, is_dir, *exclude),
{
    !is_dir && !excluded_from_extraction(name, exclude)
}

/// Native extraction over the first `n` entries: the files unpacked, in
/// archive order, and the error that stopped it, if any (nothing after an
/// error is read).
pub open spec fn natives_prefix(jar: Seq<u8>, exclude: Option<Vec<String>>, n: nat) -> (Seq<(Seq<char>, Seq<u8>)>, Option<Seq<char>>)
    decreases n,
{
    if n == 0 {
        (Seq::empty(), None)
    } else {
        let (files, err) = natives_prefix(jar, exclude, (n - 1) as nat);
        if err is Some {
            (files, err)
        } else {
            match zip_header_of(jar, (n - 1) as usize) {
                Err(e) => (files, Some(e)),
                Ok(h) => if extracts_entry_of(h.0, h.1, exclude) {
                    match zip_contents_of(jar, (n - 1) as usize) {
                        Err(e) => (files, Some(e)),
                        Ok(c) => (files.push((h.0, c)), None),
                    }
                } else {
                    (files, None)
                },
            }
        }
    }
}

/// Native extraction of a jar: the files unpacked (each entry that is not
/// a directory and not excluded, with its contents, in archive order) and
/// the error that stopped it, if any; an archive that does not open gives
/// no files and its error.
pub open spec fn natives_in_jar_of(jar: Seq<u8>, exclude: Option<Vec<String>>) -> (Seq<(Seq<char>, Seq<u8>)>, Option<Seq<char>>) {
    match zip_open_error_of(jar) {
        Some(e) => (Seq::empty(), Some(e)),
        None => natives_prefix(jar, exclude, zip_entry_count_of(jar) as nat),
    }
}

/// The views of a list of files.
pub open spec fn file_views(v: Seq<(String, Vec<u8>)>) -> Seq<(Seq<char>, Seq<u8>)> {
    v.map_values(|f: (String, Vec<u8>)| (f.0@, f.1@))
}

proof fn lemma_natives_error_stays(jar: Seq<u8>, exclude: Option<Vec<String>>, k: nat, n: nat)
    requires
        k <= n,
        natives_prefix(jar, exclude, k).1 is Some,
    ensures
        natives_prefix(jar, exclude, n) == natives_prefix(jar, exclude, k),
    decreases n - k,
{
    if k < n {
        lemma_natives_error_stays(jar, exclude, k, (n - 1) as nat);
    }
}

/// Native extraction of a jar: the files it contributes, in archive order,
/// and the error that stopped the extraction, if any.  The files read
/// before an error are returned with it.
pub fn natives_in_jar(jar: &[u8], exclude: &Option<Vec<String>>) -> (res: (Vec<(String, Vec<u8>)>, Option<String>))
    ensures
        file_views(res.0@) == natives_in_jar_of(jar@, *exclude).0,
        res.1 matches Some(e) ==> natives_in_jar_of(jar@, *exclude).1 == Some(e@),
        res.1 is None ==> natives_in_jar_of(jar@, *exclude).1 is None,
{
    let mut out: Vec<(String, Vec<u8>)> = Vec::new();
    assert(file_views(out@) =~= Seq::<(Seq<char>, Seq<u8>)>::empty());
    if let Some(e) = zip_open_error(jar) {
        return (out, Some(e));
    }
    let n = zip_entry_count(jar);
    for i in 0..n
        invariant
            zip_open_error_of(jar@) is None,
            n == zip_entry_count_of(jar@),
            natives_prefix(jar@, *exclude, i as nat) == (file_views(out@), None::<Seq<char>>),
    {
        let ghost before = file_views(out@);
        match zip_header(jar, i) {
            Err(e) => {
                proof {
                    lemma_natives_error_stays(jar@, *exclude, (i + 1) as nat, n as nat);
                }
                return (out, Some(e));
            },
            Ok(h) => {
                if extracts_entry(h.0.as_str(), h.1, exclude) {
                    match zip_contents(jar, i) {
                        Err(e) => {
                            proof {
                                lemma_natives_error_stays(jar@, *exclude, (i + 1) as nat, n as nat);
                            }
                            return (out, Some(e));
                        },
                        Ok(c) => {
                            let ghost fv = (h.0@, c@);
                            out.push((h.0, c));
                            assert(file_views(out@) =~= before.push(fv));
                        },
                    }
                }
            },
        }
    }
    (out, None)
}

// ---------------------------------------------------------------------------
// Manifests and installer jars
// ---------------------------------------------------------------------------

/// The main class the manifest of `jar` names (nothing when it names
/// none), or the text of the error met while opening the archive, finding
/// `META-INF/MANIFEST.MF` or reading it as UTF-8 text.
pub open spec fn jar_main_class_of(jar: Seq<u8>) -> Result<Option<Seq<char>>, Seq<char>> {
    let name = "META-INF/MANIFEST.MF"@;
    match zip_open_error_of(jar) {
        Some(e) => Err(e),
        None => match zip_find_error_of(jar, name) {
            Some(e) => Err(e),
            None => match zip_read_text_of(jar, name) {
                Ok(t) => Ok(manifest_main_class(t)),
                Err(e) => Err(e),
            },
        },
    }
}

/// The main class the manifest of a jar names.
pub fn jar_main_class(jar: &[u8]) -> (res: Result<Option<String>, String>)
    ensures
        res matches Ok(Some(c)) ==> jar_main_class_of(jar@) == Ok::<Option<Seq<char>>, Seq<char>>(Some(c@)),
        res matches Ok(None) ==> jar_main_class_of(jar@) == Ok::<Option<Seq<char>>, Seq<char>>(None),
        res matches Err(e) ==> jar_main_class_of(jar@) == Err::<Option<Seq<char>>, Seq<char>>(e@),
{
    if let Some(e) = zip_open_error(jar) {
        return Err(e);
    }
    if let Some(e) = zip_find_error(jar, "META-INF/MANIFEST.MF") {
        return Err(e);
    }
    let text = zip_read_text(jar, "META-INF/MANIFEST.MF")?;
    Ok(main_class_from_manifest(text.as_str()))
}

/// The entry of an installer jar that `name` (without leading `/`) names,
/// or the error: that of opening the archive; `'<name>' not found in
/// installer jar: ` and the error of finding the entry; or that of reading it.
pub open spec fn installer_entry_of(installer: Seq<u8>, name: Seq<char>) -> Result<Seq<u8>, Seq<char>> {
    let n = trim_start_char(name, '/');
    match zip_open_error_of(installer) {
        Some(e) => Err(e),
        None => match zip_find_error_of(installer, n) {
            Some(e) => Err("'"@ + n + "' not found in installer jar: "@ + e),
            None => zip_read_of(installer, n),
        },
    }
}

/// The entry of an installer jar that `name` names (a leading `/` is
/// dropped).
pub fn installer_entry(installer: &[u8], name: &str) -> (res: Result<Vec<u8>, String>)
    ensures
        res matches Ok(c) ==> installer_entry_of(installer@, name@) == Ok::<Seq<u8>, Seq<char>>(c@),
        res matches Err(m) ==> installer_entry_of(installer@, name@) == Err::<Seq<u8>, Seq<char>>(m@),
{
    let n = string_of(trim_start_matches(chars_of(name).as_slice(), '/').as_slice());
    if let Some(e) = zip_open_error(installer) {
        return Err(e);
    }
    if let Some(e) = zip_find_error(installer, n.as_str()) {
        let mut m = String::from_str("'");
        m.append(n.as_str());
        m.append("' not found in installer jar: ");
        m.append(e.as_str());
        return Err(m);
    }
    zip_read(installer, n.as_str())
}

} // verus!
