//! Preparing a launch: placeholders in arguments, conditional arguments,
//! the Java version banner and the file locations of a game directory.
//!
//! Paths are strings joined the way `Path::join` joins them on the system
//! the launcher runs on: with `/`, or with `\\` on Windows.

use vstd::prelude::*;
use crate::client_json::{Argument, ArgumentValue, Rule};
use crate::rules::rules_list_allows;
use crate::text::{
    chars_of, concat, digits_value, extend_chars, has_prefix, has_suffix, is_digit,
    parse_digits_u32, replace_all, replace_chars, slice_prefix, slice_suffix, split_chars,
    split_on, starts_with, ends_with, string_of, vviews, views,
};

verus! {

// ---------------------------------------------------------------------------
// Paths
// ---------------------------------------------------------------------------

/// A path separator: `/`, and on Windows also `\`.
pub open spec fn is_separator(c: char, windows: bool) -> bool {
    c == '/' || (windows && c == '\\')
}

/// `p` starts with a drive prefix such as `C:`.
pub open spec fn has_drive(p: Seq<char>) -> bool {
    p.len() >= 2 && p[1] == ':' && (('a' <= p[0] && p[0] <= 'z') || ('A' <= p[0] && p[0] <= 'Z'))
}

/// Joining `part` replaces the base path: on Unix-like systems when `part`
/// is absolute (starts with `/`); on Windows when it has a prefix (a drive
/// such as `C:`, or a leading double separator as in `\\server\share`).
pub open spec fn path_replaces(part: Seq<char>, windows: bool) -> bool {
    if windows {
        has_drive(part) || (part.len() >= 2 && is_separator(part[0], true) && is_separator(part[1], true))
    } else {
        part.len() > 0 && part[0] == '/'
    }
}

/// `part` appended to the path `base`, as `Path::join` does on the system
/// (`windows` tells which): a `part` that replaces the base is the result;
/// on Windows a `part` that starts with a separator keeps only the drive of
/// `base`; otherwise the system's separator (`/`, or `\` on Windows)
/// separates them unless `base` is empty, ends with a separator, or (on
/// Windows) is just a drive.
pub open spec fn path_join(base: Seq<char>, part: Seq<char>, windows: bool) -> Seq<char> {
    if path_replaces(part, windows) {
        part
    } else if windows && part.len() > 0 && is_separator(part[0], true) {
        (if has_drive(base) {
            base.take(2)
        } else {
            Seq::empty()
        }) + part
    } else if base.len() == 0 || is_separator(base.last(), windows) || (windows && base.len() == 2
        && has_drive(base)) {
        base + part
    } else {
        base + seq![if windows {
            '\\'
        } else {
            '/'
        }] + part
    }
}

/// Joining a relative part onto a path that does not end with a separator
/// puts the system's separator between them (`\\` on Windows, `/`
/// elsewhere); an absolute part replaces the path on Unix-like systems.
pub proof fn lemma_path_join_separator(base: Seq<char>, part: Seq<char>, windows: bool)
    ensures
        (base.len() > 0 && base.last() != '/' && base.last() != '\\' && !(base.len() == 2 && base[1] == ':')
            && part.len() > 0 && part[0] != '/' && part[0] != '\\' && !(part.len() >= 2 && part[1] == ':'))
            ==> path_join(base, part, windows) == base + seq![if windows { '\\' } else { '/' }] + part,
        (part.len() > 0 && part[0] == '/') ==> path_join(base, part, false) == part,
{
}

fn is_separator_char(c: char, windows: bool) -> (res: bool)
    ensures
        res == is_separator(c, windows),
{
    c == '/' || (windows && c == '\\')
}

fn drive_at_start(p: &[char]) -> (res: bool)
    ensures
        res == has_drive(p@),
{
    p.len() >= 2 && p[1] == ':' && (('a' <= p[0] && p[0] <= 'z') || ('A' <= p[0] && p[0] <= 'Z'))
}

/// `part` appended to the path `base`, as `Path::join` does on the system
/// `windows` tells.
pub fn join_path(base: &str, part: &str, windows: bool) -> (res: String)
    ensures
        res@ == path_join(base@, part@, windows),
{
    let b = chars_of(base);
    let p = chars_of(part);
    let replaces = if windows {
        drive_at_start(p.as_slice()) || (p.len() >= 2 && is_separator_char(p[0], true)
            && is_separator_char(p[1], true))
    } else {
        p.len() > 0 && p[0] == '/'
    };
    if replaces {
        return string_of(p.as_slice());
    }
    if windows && p.len() > 0 && is_separator_char(p[0], true) {
        let mut out: Vec<char> = if drive_at_start(b.as_slice()) {
            slice_prefix(b.as_slice(), 2)
        } else {
            Vec::new()
        };
        let ghost before = out@;
        extend_chars(&mut out, p.as_slice());
        assert(out@ =~= before + p@);
        return string_of(out.as_slice());
    }
    let n = b.len();
    if n == 0 || is_separator_char(b[n - 1], windows) || (windows && n == 2 && drive_at_start(b.as_slice())) {
        proof {
            if n > 0 {
                assert(b@.last() == b@[n - 1]);
            }
        }
        string_of(concat(b.as_slice(), p.as_slice()).as_slice())
    } else {
        assert(b@.last() == b@[n - 1]);
        let mut out = b;
        out.push(if windows {
            '\\'
        } else {
            '/'
        });
        extend_chars(&mut out, p.as_slice());
        string_of(out.as_slice())
    }
}

/// The path of the `java` binary of a bundled runtime component:
/// `<minecraft_dir>/runtime/<component>/bin/<javaw.exe or java>`.
pub open spec fn java_bin_path_of(minecraft_dir: Seq<char>, component: Seq<char>, windows: bool) -> Seq<char> {
    path_join(
        path_join(path_join(path_join(minecraft_dir, "runtime"@, windows), component, windows), "bin"@, windows),
        if windows {
            "javaw.exe"@
        } else {
            "java"@
        },
        windows,
    )
}

/// The path of the `java` binary of the bundled runtime `component`;
/// `windows` tells whether the launcher runs on Windows.
pub fn java_bin_path(minecraft_dir: &str, component: &str, windows: bool) -> (res: String)
    ensures
        res@ == java_bin_path_of(minecraft_dir@, component@, windows),
{
    let a = join_path(minecraft_dir, "runtime", windows);
    let b = join_path(a.as_str(), component, windows);
    let c = join_path(b.as_str(), "bin", windows);
    join_path(c.as_str(), if windows { "javaw.exe" } else { "java" }, windows)
}

// ---------------------------------------------------------------------------
// Placeholders
// ---------------------------------------------------------------------------

/// The placeholder `${key}`.
pub open spec fn placeholder(key: Seq<char>) -> Seq<char> {
    seq!['$', '{'] + key + seq!['}']
}

/// The views of `(key, value)` pairs.
pub open spec fn pair_views(values: Seq<(String, String)>) -> Seq<(Seq<char>, Seq<char>)> {
    values.map_values(|p: (String, String)| (p.0@, p.1@))
}

/// `input` with `${key}` replaced by `value` for each pair in turn.
pub open spec fn substituted(input: Seq<char>, values: Seq<(Seq<char>, Seq<char>)>) -> Seq<char>
    decreases values.len(),
{
    if values.len() == 0 {
        input
    } else {
        replace_all(
            substituted(input, values.drop_last()),
            placeholder(values.last().0),
            values.last().1,
        )
    }
}

/// Text without `$` holds no placeholder: substitution leaves it unchanged.
pub proof fn lemma_substitute_without_placeholders(s: Seq<char>, values: Seq<(Seq<char>, Seq<char>)>)
    requires
        !s.contains('$'),
    ensures
        substituted(s, values) == s,
    decreases values.len(),
{
    if values.len() > 0 {
        lemma_substitute_without_placeholders(s, values.drop_last());
        crate::text::lemma_replace_absent(s, placeholder(values.last().0), values.last().1);
    }
}

/// Each of `ts` with placeholders substituted.
pub open spec fn substituted_each(ts: Seq<Seq<char>>, values: Seq<(Seq<char>, Seq<char>)>) -> Seq<Seq<char>>
    decreases ts.len(),
{
    if ts.len() == 0 {
        Seq::empty()
    } else {
        substituted_each(ts.drop_last(), values).push(substituted(ts.last(), values))
    }
}

/// `input` with each placeholder `${key}` of `values` replaced by its
/// value, the pairs taken in order.
pub fn substitute(input: &str, values: &Vec<(String, String)>) -> (res: String)
    ensures
        res@ == substituted(input@, pair_views(values@)),
{
    let mut out = chars_of(input);
    let n = values.len();
    for i in 0..n
        invariant
            n == values@.len(),
            out@ == substituted(input@, pair_views(values@).take(i as int)),
    {
        let mut pat: Vec<char> = Vec::new();
        pat.push('$');
        pat.push('{');
        extend_chars(&mut pat, chars_of(values[i].0.as_str()).as_slice());
        pat.push('}');
        assert(pat@ =~= placeholder(values@[i as int].0@));
        let rep = chars_of(values[i].1.as_str());
        out = replace_chars(out.as_slice(), pat.as_slice(), rep.as_slice());
        proof {
            let pv = pair_views(values@);
            assert(pv.take(i + 1).drop_last() =~= pv.take(i as int));
            assert(pv.take(i + 1).last() == pv[i as int]);
        }
    }
    assert(pair_views(values@).take(n as int) =~= pair_views(values@));
    string_of(out.as_slice())
}

/// The strings an argument entry stands for: a plain one gives its text, a
/// conditional one its values when its rules allow it and nothing
/// otherwise; placeholders are substituted in each.
pub open spec fn resolved(
    arg: Argument,
    features: Seq<(String, bool)>,
    values: Seq<(Seq<char>, Seq<char>)>,
    os_name: Seq<char>,
    arch: Seq<char>,
) -> Seq<Seq<char>> {
    match arg {
        Argument::Simple(s) => seq![substituted(s@, values)],
        Argument::Conditional { rules, value } => if !crate::rules::rules_verdict(
            rules@,
            features,
            os_name,
            arch,
        ) {
            Seq::empty()
        } else {
            match value {
                ArgumentValue::Single(s) => seq![substituted(s@, values)],
                ArgumentValue::Multiple(list) => substituted_each(views(list@), values),
            }
        },
    }
}

/// The strings an argument entry stands for.
pub fn resolve_argument(
    arg: &Argument,
    features: &Vec<(String, bool)>,
    values: &Vec<(String, String)>,
    os_name: &str,
    arch: &str,
) -> (res: Vec<String>)
    ensures
        views(res@) == resolved(*arg, features@, pair_views(values@), os_name@, arch@),
{
    match arg {
        Argument::Simple(s) => {
            let mut out: Vec<String> = Vec::new();
            out.push(substitute(s.as_str(), values));
            assert(views(out@) =~= resolved(*arg, features@, pair_views(values@), os_name@, arch@));
            out
        },
        Argument::Conditional { rules, value } => {
            if !rules_list_allows(rules, features, os_name, arch) {
                let empty: Vec<String> = Vec::new();
                assert(views(empty@) =~= Seq::<Seq<char>>::empty());
                return empty;
            }
            let mut out: Vec<String> = Vec::new();
            match value {
                ArgumentValue::Single(s) => {
                    out.push(substitute(s.as_str(), values));
                },
                ArgumentValue::Multiple(list) => {
                    let n = list.len();
                    for i in 0..n
                        invariant
                            n == list@.len(),
                            out@.len() == i,
                            views(out@) == substituted_each(views(list@).take(i as int), pair_views(values@)),
                    {
                        let ghost before = views(out@);
                        out.push(substitute(list[i].as_str(), values));
                        assert(views(list@).take(i + 1).drop_last() =~= views(list@).take(i as int));
                        assert(views(out@) =~= before.push(out@[i as int]@));
                    }
                    assert(views(list@).take(n as int) =~= views(list@));
                },
            }
            assert(views(out@) =~= resolved(*arg, features@, pair_views(values@), os_name@, arch@));
            out
        },
    }
}

// ---------------------------------------------------------------------------
// The Java version banner
// ---------------------------------------------------------------------------

/// The leading run of ASCII digits of `s`.
pub open spec fn leading_digits(s: Seq<char>) -> Seq<char>
    decreases s.len(),
{
    if s.len() > 0 && is_digit(s[0]) {
        seq![s[0]] + leading_digits(s.drop_first())
    } else {
        Seq::empty()
    }
}

/// The major Java version a `java -version` banner names: the digits at
/// the start of the quoted text after `version "`, after a leading `1.`
/// (Java 8 and older call themselves `1.8`).  `None` when there is no such
/// text, it starts with no digit, or the number does not fit in a `u32`.
pub open spec fn java_major_of(banner: Seq<char>) -> Option<u32> {
    let pieces = split_on(banner, "version \""@);
    if pieces.len() < 2 {
        None
    } else {
        let quoted = split_on(pieces[1], seq!['"'])[0];
        let v = if has_prefix(quoted, "1."@) {
            quoted.skip(2)
        } else {
            quoted
        };
        let d = leading_digits(v);
        if d.len() == 0 || digits_value(d) > u32::MAX {
            None
        } else {
            Some(digits_value(d) as u32)
        }
    }
}

/// The major Java version a `java -version` banner names.
pub fn parse_java_major_version(banner: &str) -> (res: Option<u32>)
    ensures
        res == java_major_of(banner@),
{
    let b = chars_of(banner);
    let marker = chars_of("version \"");
    proof {
        reveal_strlit("version \"");
    }
    let pieces = split_chars(b.as_slice(), marker.as_slice());
    if pieces.len() < 2 {
        return None;
    }
    let quote = vec!['"'];
    assert(quote@ == seq!['"']);
    let inner = split_chars(pieces[1].as_slice(), quote.as_slice());
    proof {
        crate::text::lemma_split_on_nonempty(vviews(pieces@)[1], seq!['"']);
    }
    let quoted = &inner[0];
    let one_dot = chars_of("1.");
    proof {
        reveal_strlit("1.");
    }
    let v = if starts_with(quoted.as_slice(), one_dot.as_slice()) {
        slice_suffix(quoted.as_slice(), 2)
    } else {
        slice_prefix(quoted.as_slice(), quoted.len())
    };
    proof {
        assert(vviews(inner@)[0] == quoted@);
        assert(quoted@.take(quoted@.len() as int) == quoted@);
    }
    let d = leading_digit_run(v.as_slice());
    parse_digits_u32(d.as_slice())
}

/// The leading run of ASCII digits of `s`.
fn leading_digit_run(s: &[char]) -> (res: Vec<char>)
    ensures
        res@ == leading_digits(s@),
        forall|i: int| 0 <= i < res@.len() ==> is_digit(#[trigger] res@[i]),
{
    let n = s.len();
    let mut k: usize = 0;
    while k < n && '0' <= s[k] && s[k] <= '9'
        invariant
            k <= n,
            n == s@.len(),
            forall|i: int| 0 <= i < k ==> is_digit(#[trigger] s@[i]),
        decreases n - k,
    {
        k = k + 1;
    }
    proof {
        lemma_leading_digits(s@, k as int);
    }
    slice_prefix(s, k)
}

/// The leading digits of `s` end at the first non-digit.
proof fn lemma_leading_digits(s: Seq<char>, k: int)
    requires
        0 <= k <= s.len(),
        forall|i: int| 0 <= i < k ==> is_digit(#[trigger] s[i]),
        k == s.len() || !is_digit(s[k]),
    ensures
        leading_digits(s) == s.take(k),
    decreases k,
{
    if k > 0 {
        let t = s.drop_first();
        assert forall|i: int| 0 <= i < k - 1 implies is_digit(#[trigger] t[i]) by {
            assert(t[i] == s[i + 1]);
        }
        if k - 1 < t.len() {
            assert(t[k - 1] == s[k]);
        }
        lemma_leading_digits(t, k - 1);
        assert(s.take(k) =~= seq![s[0]] + t.take(k - 1));
    } else {
        assert(s.take(0) =~= Seq::<char>::empty());
    }
}

} // verus!
