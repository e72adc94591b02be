//! Character-level string toolkit used by the rest of the library.
//!
//! Every operation works on the characters of a string (`Seq<char>` in
//! specifications, `Vec<char>` at run time) and is specified by a spec
//! function that states its meaning directly.

use vstd::prelude::*;

verus! {

// ---------------------------------------------------------------------------
// Specifications
// ---------------------------------------------------------------------------

/// `p` is a prefix of `s`.
pub open spec fn has_prefix(s: Seq<char>, p: Seq<char>) -> bool {
    p.len() <= s.len() && s.take(p.len() as int) == p
}

/// `p` is a suffix of `s`.
pub open spec fn has_suffix(s: Seq<char>, p: Seq<char>) -> bool {
    p.len() <= s.len() && s.skip(s.len() - p.len()) == p
}

/// Index of the first occurrence of `c` in `s`.
pub open spec fn first_index_of(s: Seq<char>, c: char) -> Option<int>
    decreases s.len(),
{
    if s.len() == 0 {
        None
    } else {
        match first_index_of(s.drop_last(), c) {
            Some(i) => Some(i),
            None => if s.last() == c {
                Some(s.len() - 1)
            } else {
                None
            },
        }
    }
}

/// The pieces of `s` between the occurrences of `sep`, scanning from the
/// left and taking matches that do not overlap (as `str::split` does).
pub open spec fn split_on(s: Seq<char>, sep: Seq<char>) -> Seq<Seq<char>>
    recommends
        sep.len() > 0,
    decreases s.len(),
{
    if sep.len() == 0 || s.len() < sep.len() {
        seq![s]
    } else if s.take(sep.len() as int) == sep {
        seq![Seq::<char>::empty()] + split_on(s.skip(sep.len() as int), sep)
    } else {
        let rest = split_on(s.skip(1), sep);
        rest.update(0, seq![s[0]] + rest[0])
    }
}

/// `s` with every occurrence of `pat` replaced by `rep`, scanning from the
/// left and taking matches that do not overlap (as `str::replace` does).
pub open spec fn replace_all(s: Seq<char>, pat: Seq<char>, rep: Seq<char>) -> Seq<char>
    recommends
        pat.len() > 0,
    decreases s.len(),
{
    if pat.len() == 0 || s.len() < pat.len() {
        s
    } else if s.take(pat.len() as int) == pat {
        rep + replace_all(s.skip(pat.len() as int), pat, rep)
    } else {
        seq![s[0]] + replace_all(s.skip(1), pat, rep)
    }
}

/// `s` without the trailing run of `c`.
pub open spec fn trim_end_char(s: Seq<char>, c: char) -> Seq<char>
    decreases s.len(),
{
    if s.len() > 0 && s.last() == c {
        trim_end_char(s.drop_last(), c)
    } else {
        s
    }
}

/// `s` without the leading run of `c`.
pub open spec fn trim_start_char(s: Seq<char>, c: char) -> Seq<char>
    decreases s.len(),
{
    if s.len() > 0 && s[0] == c {
        trim_start_char(s.drop_first(), c)
    } else {
        s
    }
}

/// The characters with the Unicode `White_Space` property (the characters
/// for which `char::is_whitespace` holds).
pub open spec fn is_white(c: char) -> bool {
    ||| ('\u{9}' <= c && c <= '\u{d}')
    ||| c == ' '
    ||| c == '\u{85}'
    ||| c == '\u{a0}'
    ||| c == '\u{1680}'
    ||| ('\u{2000}' <= c && c <= '\u{200a}')
    ||| c == '\u{2028}'
    ||| c == '\u{2029}'
    ||| c == '\u{202f}'
    ||| c == '\u{205f}'
    ||| c == '\u{3000}'
}

/// The maximal runs of non-white characters of `s`, in order (as
/// `str::split_whitespace` yields them).
pub open spec fn words(s: Seq<char>) -> Seq<Seq<char>>
    decreases s.len(),
{
    if s.len() == 0 {
        Seq::empty()
    } else {
        let w = words(s.drop_last());
        if is_white(s.last()) {
            w
        } else if s.len() >= 2 && !is_white(s[s.len() - 2]) {
            w.update(w.len() - 1, w.last().push(s.last()))
        } else {
            w.push(seq![s.last()])
        }
    }
}

/// `s` without its leading white space.
pub open spec fn trim_start_white(s: Seq<char>) -> Seq<char>
    decreases s.len(),
{
    if s.len() > 0 && is_white(s[0]) {
        trim_start_white(s.drop_first())
    } else {
        s
    }
}

/// `s` without its trailing white space.
pub open spec fn trim_end_white(s: Seq<char>) -> Seq<char>
    decreases s.len(),
{
    if s.len() > 0 && is_white(s.last()) {
        trim_end_white(s.drop_last())
    } else {
        s
    }
}

/// `s` with surrounding white space removed (as `str::trim` does).
pub open spec fn trim(s: Seq<char>) -> Seq<char> {
    trim_end_white(trim_start_white(s))
}

/// The value of a string of decimal digits.
pub open spec fn digits_value(s: Seq<char>) -> nat
    decreases s.len(),
{
    if s.len() == 0 {
        0
    } else {
        digits_value(s.drop_last()) * 10 + (s.last() as nat - '0' as nat) as nat
    }
}

/// `c` is one of `0` to `9`.
pub open spec fn is_digit(c: char) -> bool {
    '0' <= c && c <= '9'
}

/// The digit character of `d < 10`.
pub open spec fn digit_char(d: nat) -> char {
    (d + '0' as nat) as char
}

/// The decimal notation of `n`, without leading zeros.
pub open spec fn decimal(n: nat) -> Seq<char>
    decreases n,
{
    if n < 10 {
        seq![digit_char(n)]
    } else {
        decimal(n / 10).push(digit_char(n % 10))
    }
}

/// The views of a sequence of character vectors.
pub open spec fn vviews(v: Seq<Vec<char>>) -> Seq<Seq<char>> {
    v.map_values(|w: Vec<char>| w@)
}

/// The views of a sequence of strings.
pub open spec fn views(v: Seq<String>) -> Seq<Seq<char>> {
    v.map_values(|s: String| s@)
}

// ---------------------------------------------------------------------------
// Lemmas
// ---------------------------------------------------------------------------

/// `split_on` always yields at least one piece.
pub proof fn lemma_split_on_nonempty(s: Seq<char>, sep: Seq<char>)
    ensures
        split_on(s, sep).len() >= 1,
    decreases s.len(),
{
    if sep.len() == 0 || s.len() < sep.len() {
    } else if s.take(sep.len() as int) == sep {
        lemma_split_on_nonempty(s.skip(sep.len() as int), sep);
    } else {
        lemma_split_on_nonempty(s.skip(1), sep);
    }
}

/// A non-empty string whose last character is not white has a word.
pub proof fn lemma_words_last(s: Seq<char>)
    requires
        s.len() > 0,
        !is_white(s.last()),
    ensures
        words(s).len() > 0,
    decreases s.len(),
{
    if s.len() >= 2 && !is_white(s[s.len() - 2]) {
        lemma_words_last(s.drop_last());
    }
}

/// The first index found is the position of the first occurrence.
pub proof fn lemma_first_index_of(s: Seq<char>, c: char)
    ensures
        first_index_of(s, c) matches Some(i) ==> {
            &&& 0 <= i < s.len()
            &&& s[i] == c
            &&& forall|j: int| 0 <= j < i ==> s[j] != c
        },
        first_index_of(s, c) is None ==> forall|j: int| 0 <= j < s.len() ==> s[j] != c,
    decreases s.len(),
{
    if s.len() > 0 {
        let t = s.drop_last();
        lemma_first_index_of(t, c);
        assert(forall|j: int| 0 <= j < t.len() ==> t[j] == s[j]);
    }
}

/// Replacing a pattern whose first character does not occur leaves the
/// text unchanged.
pub proof fn lemma_replace_absent(s: Seq<char>, pat: Seq<char>, rep: Seq<char>)
    requires
        pat.len() > 0,
        !s.contains(pat[0]),
    ensures
        replace_all(s, pat, rep) == s,
    decreases s.len(),
{
    if s.len() >= pat.len() {
        assert(s.take(pat.len() as int)[0] == s[0]);
        assert(s.skip(1).len() < s.len());
        assert forall|i: int| 0 <= i < s.skip(1).len() implies s.skip(1)[i] != pat[0] by {
            assert(s.skip(1)[i] == s[i + 1]);
        }
        lemma_replace_absent(s.skip(1), pat, rep);
        assert(seq![s[0]] + s.skip(1) =~= s);
    }
}

/// Replacing a one-character pattern by text without that character
/// leaves no occurrence of it.
pub proof fn lemma_replace_char_removes(s: Seq<char>, c: char, rep: Seq<char>)
    requires
        !rep.contains(c),
    ensures
        !replace_all(s, seq![c], rep).contains(c),
    decreases s.len(),
{
    if s.len() >= 1 {
        let pat = seq![c];
        if s.take(1) == pat {
            lemma_replace_char_removes(s.skip(1), c, rep);
            let r = replace_all(s.skip(1), pat, rep);
            assert forall|i: int| 0 <= i < (rep + r).len() implies (rep + r)[i] != c by {
                if i < rep.len() {
                    assert((rep + r)[i] == rep[i]);
                } else {
                    assert((rep + r)[i] == r[i - rep.len()]);
                }
            }
        } else {
            assert(s.take(1)[0] == s[0]);
            assert(s[0] != c) by {
                if s[0] == c {
                    assert(s.take(1) =~= pat);
                }
            }
            lemma_replace_char_removes(s.skip(1), c, rep);
            let r = replace_all(s.skip(1), pat, rep);
            assert forall|i: int| 0 <= i < (seq![s[0]] + r).len() implies (seq![s[0]] + r)[i] != c by {
                if i > 0 {
                    assert((seq![s[0]] + r)[i] == r[i - 1]);
                }
            }
        }
    }
}

// ---------------------------------------------------------------------------
// Run-time operations
// ---------------------------------------------------------------------------

/// The characters of `s`, in order.
pub fn chars_of(s: &str) -> (res: Vec<char>)
    ensures
        res@ == s@,
{
    let mut out: Vec<char> = Vec::new();
    for c in it: s.chars()
        invariant
            out@ == it.seq().take(it.index()),
    {
        out.push(c);
    }
    out
}

/// Appends `c` to `s` (`String::push`).
#[verifier::external_body]
fn push_char(s: &mut String, c: char)
    ensures
        final(s)@ == old(s)@.push(c),
{
    s.push(c);
}

/// The string made of the characters `v`.
pub fn string_of(v: &[char]) -> (res: String)
    ensures
        res@ == v@,
{
    let mut out = String::new();
    let n = v.len();
    for i in 0..n
        invariant
            n == v@.len(),
            out@ == v@.take(i as int),
    {
        push_char(&mut out, v[i]);
        assert(v@.take(i + 1) == v@.take(i as int).push(v@[i as int]));
    }
    assert(v@.take(n as int) == v@);
    out
}

/// A copy of `s` as an owned string.
pub fn to_owned_string(s: &str) -> (res: String)
    ensures
        res@ == s@,
{
    s.to_owned()
}

/// `a` and `b` hold the same characters.
pub fn same_chars(a: &[char], b: &[char]) -> (res: bool)
    ensures
        res == (a@ == b@),
{
    if a.len() != b.len() {
        return false;
    }
    let n = a.len();
    for i in 0..n
        invariant
            n == a@.len(),
            n == b@.len(),
            forall|j: int| 0 <= j < i ==> a@[j] == b@[j],
    {
        if a[i] != b[i] {
            return false;
        }
    }
    assert(a@ =~= b@);
    true
}

/// `a` and `b` are the same string.
pub fn str_eq(a: &str, b: &str) -> (res: bool)
    ensures
        res == (a@ == b@),
{
    let x = chars_of(a);
    let y = chars_of(b);
    same_chars(x.as_slice(), y.as_slice())
}

/// `v[start..start + p.len()]` equals `p`.
pub fn matches_at(v: &[char], start: usize, p: &[char]) -> (res: bool)
    requires
        start <= v@.len(),
    ensures
        res == (start + p@.len() <= v@.len() && v@.subrange(
            start as int,
            start + p@.len(),
        ) == p@),
{
    if v.len() - start < p.len() {
        return false;
    }
    let n = p.len();
    let end = start + n;
    for i in 0..n
        invariant
            n == p@.len(),
            end == start + n,
            start + n <= v@.len(),
            forall|j: int| 0 <= j < i ==> v@[start + j] == p@[j],
    {
        assert(start + i < v@.len());
        if v[start + i] != p[i] {
            assert(v@.subrange(start as int, start + p@.len())[i as int] != p@[i as int]);
            return false;
        }
    }
    assert(v@.subrange(start as int, start + p@.len()) =~= p@);
    true
}

/// `s` starts with `p`.
pub fn starts_with(s: &[char], p: &[char]) -> (res: bool)
    ensures
        res == has_prefix(s@, p@),
{
    let r = matches_at(s, 0, p);
    proof {
        if p@.len() <= s@.len() {
            assert(s@.subrange(0, p@.len() as int) == s@.take(p@.len() as int));
        }
    }
    r
}

/// `s` ends with `p`.
pub fn ends_with(s: &[char], p: &[char]) -> (res: bool)
    ensures
        res == has_suffix(s@, p@),
{
    if p.len() > s.len() {
        return false;
    }
    let r = matches_at(s, s.len() - p.len(), p);
    assert(s@.subrange(s@.len() - p@.len(), s@.len() as int) == s@.skip(s@.len() - p@.len()));
    r
}

/// The position of the first occurrence of `c` in `v`.
pub fn index_of(v: &[char], c: char) -> (res: Option<usize>)
    ensures
        res matches Some(i) ==> first_index_of(v@, c) == Some(i as int),
        res is None ==> first_index_of(v@, c) is None,
{
    let n = v.len();
    for i in 0..n
        invariant
            n == v@.len(),
            first_index_of(v@.take(i as int), c) is None,
    {
        assert(v@.take(i + 1).drop_last() == v@.take(i as int));
        if v[i] == c {
            proof {
                lemma_first_index_of(v@.take(i + 1), c);
                assert(first_index_of(v@.take(i + 1), c) == Some(i as int));
                lemma_first_index_prefix(v@, i + 1, c);
            }
            return Some(i);
        }
    }
    assert(v@.take(n as int) == v@);
    None
}

/// Extending a string past a found occurrence keeps the first index.
pub proof fn lemma_first_index_prefix(s: Seq<char>, k: int, c: char)
    requires
        0 <= k <= s.len(),
        first_index_of(s.take(k), c) is Some,
    ensures
        first_index_of(s, c) == first_index_of(s.take(k), c),
    decreases s.len() - k,
{
    if k < s.len() {
        assert(s.take(k + 1).drop_last() == s.take(k));
        lemma_first_index_prefix(s, k + 1, c);
    } else {
        assert(s.take(k) == s);
    }
}

/// The pieces of `s` between the occurrences of `sep`.
pub fn split_chars(s: &[char], sep: &[char]) -> (res: Vec<Vec<char>>)
    requires
        sep@.len() > 0,
    ensures
        vviews(res@) == split_on(s@, sep@),
{
    let n = s.len();
    let k = sep.len();
    let mut done: Vec<Vec<char>> = Vec::new();
    let mut cur: Vec<char> = Vec::new();
    let mut i: usize = 0;
    proof {
        lemma_split_on_nonempty(s@, sep@);
        assert(s@.skip(0) == s@);
        let r = split_on(s@, sep@);
        assert(r == seq![r[0]] + r.skip(1));
    }
    while k <= n - i
        invariant
            n == s@.len(),
            k == sep@.len(),
            k > 0,
            i <= n,
            split_on(s@, sep@) == vviews(done@) + seq![cur@ + split_on(s@.skip(i as int), sep@)[0]]
                + split_on(s@.skip(i as int), sep@).skip(1),
        decreases n - i,
    {
        let ghost t = s@.skip(i as int);
        let m = matches_at(s, i, sep);
        assert(t.take(k as int) == s@.subrange(i as int, i + k));
        if m {
            proof {
                assert(t.skip(k as int) == s@.skip(i + k));
                lemma_split_on_nonempty(t.skip(k as int), sep@);
                let r2 = split_on(t.skip(k as int), sep@);
                assert(r2 == seq![r2[0]] + r2.skip(1));
                assert((seq![Seq::<char>::empty()] + r2).skip(1) == r2);
                assert(cur@ + Seq::<char>::empty() == cur@);
            }
            let ghost old_done = vviews(done@);
            done.push(cur);
            assert(vviews(done@) =~= old_done.push(cur@));
            cur = Vec::new();
            i = i + k;
            proof {
                assert(Seq::<char>::empty() + split_on(s@.skip(i as int), sep@)[0] == split_on(s@.skip(i as int), sep@)[0]);
            }
        } else {
            proof {
                assert(t.skip(1) == s@.skip(i + 1));
                lemma_split_on_nonempty(t.skip(1), sep@);
                let r2 = split_on(t.skip(1), sep@);
                assert(r2.update(0, seq![t[0]] + r2[0]).skip(1) == r2.skip(1));
                assert(cur@ + (seq![t[0]] + r2[0]) == cur@.push(s@[i as int]) + r2[0]);
            }
            cur.push(s[i]);
            i = i + 1;
        }
    }
    proof {
        let t = s@.skip(i as int);
        assert(split_on(t, sep@) == seq![t]);
    }
    while i < n
        invariant
            n == s@.len(),
            i <= n,
            split_on(s@, sep@) == vviews(done@) + seq![cur@ + s@.skip(i as int)],
        decreases n - i,
    {
        assert(cur@ + s@.skip(i as int) == cur@.push(s@[i as int]) + s@.skip(i + 1));
        cur.push(s[i]);
        i = i + 1;
    }
    assert(cur@ + s@.skip(n as int) == cur@);
    let ghost old_done = vviews(done@);
    done.push(cur);
    assert(vviews(done@) =~= old_done.push(cur@));
    done
}

/// `s` with every occurrence of `pat` replaced by `rep`.
pub fn replace_chars(s: &[char], pat: &[char], rep: &[char]) -> (res: Vec<char>)
    requires
        pat@.len() > 0,
    ensures
        res@ == replace_all(s@, pat@, rep@),
{
    let n = s.len();
    let k = pat.len();
    let mut out: Vec<char> = Vec::new();
    let mut i: usize = 0;
    assert(s@.skip(0) == s@);
    while i < n
        invariant
            n == s@.len(),
            k == pat@.len(),
            k > 0,
            i <= n,
            out@ + replace_all(s@.skip(i as int), pat@, rep@) == replace_all(s@, pat@, rep@),
        decreases n - i,
    {
        let ghost t = s@.skip(i as int);
        if matches_at(s, i, pat) {
            assert(t.take(k as int) == s@.subrange(i as int, i + k));
            assert(t.skip(k as int) == s@.skip(i + k));
            let ghost before = out@;
            let m = rep.len();
            for j in 0..m
                invariant
                    m == rep@.len(),
                    out@ == before + rep@.take(j as int),
            {
                out.push(rep[j]);
                assert(rep@.take(j + 1) == rep@.take(j as int).push(rep@[j as int]));
            }
            assert(rep@.take(m as int) == rep@);
            assert(before + (rep@ + replace_all(s@.skip(i + k), pat@, rep@)) == (before + rep@)
                + replace_all(s@.skip(i + k), pat@, rep@));
            i = i + k;
        } else {
            proof {
                if t.len() >= pat@.len() {
                    assert(t.take(k as int) == s@.subrange(i as int, i + k));
                }
                assert(t.skip(1) == s@.skip(i + 1));
                assert(out@ + (seq![t[0]] + replace_all(t.skip(1), pat@, rep@)) == out@.push(s@[i as int])
                    + replace_all(s@.skip(i + 1), pat@, rep@));
            }
            out.push(s[i]);
            i = i + 1;
        }
    }
    assert(s@.skip(n as int).len() == 0);
    assert(out@ + Seq::<char>::empty() == out@);
    out
}

/// `s` without the trailing run of `c`.
pub fn trim_end_matches(s: &[char], c: char) -> (res: Vec<char>)
    ensures
        res@ == trim_end_char(s@, c),
{
    let mut j = s.len();
    assert(s@.take(j as int) == s@);
    while j > 0 && s[j - 1] == c
        invariant
            j <= s@.len(),
            trim_end_char(s@, c) == trim_end_char(s@.take(j as int), c),
        decreases j,
    {
        assert(s@.take(j as int).drop_last() == s@.take(j - 1));
        j = j - 1;
    }
    slice_prefix(s, j)
}

/// `s` without the leading run of `c`.
pub fn trim_start_matches(s: &[char], c: char) -> (res: Vec<char>)
    ensures
        res@ == trim_start_char(s@, c),
{
    let n = s.len();
    let mut j: usize = 0;
    assert(s@.skip(0) == s@);
    while j < n && s[j] == c
        invariant
            n == s@.len(),
            j <= n,
            trim_start_char(s@, c) == trim_start_char(s@.skip(j as int), c),
        decreases n - j,
    {
        assert(s@.skip(j as int).drop_first() == s@.skip(j + 1));
        j = j + 1;
    }
    slice_suffix(s, j)
}

/// `s` with surrounding white space removed.
pub fn trim_white(s: &[char]) -> (res: Vec<char>)
    ensures
        res@ == trim(s@),
{
    let n = s.len();
    let mut a: usize = 0;
    assert(s@.skip(0) == s@);
    while a < n && is_white_char(s[a])
        invariant
            n == s@.len(),
            a <= n,
            trim_start_white(s@) == trim_start_white(s@.skip(a as int)),
        decreases n - a,
    {
        assert(s@.skip(a as int).drop_first() == s@.skip(a + 1));
        a = a + 1;
    }
    let start = slice_suffix(s, a);
    let mut b = start.len();
    assert(start@.take(b as int) == start@);
    while b > 0 && is_white_char(start[b - 1])
        invariant
            b <= start@.len(),
            trim_end_white(start@) == trim_end_white(start@.take(b as int)),
        decreases b,
    {
        assert(start@.take(b as int).drop_last() == start@.take(b - 1));
        b = b - 1;
    }
    slice_prefix(start.as_slice(), b)
}

/// `char::is_whitespace`.
pub fn is_white_char(c: char) -> (res: bool)
    ensures
        res == is_white(c),
{
    ('\u{9}' <= c && c <= '\u{d}') || c == ' ' || c == '\u{85}' || c == '\u{a0}' || c == '\u{1680}'
        || ('\u{2000}' <= c && c <= '\u{200a}') || c == '\u{2028}' || c == '\u{2029}' || c
        == '\u{202f}' || c == '\u{205f}' || c == '\u{3000}'
}

/// The first `k` characters of `s`.
pub fn slice_prefix(s: &[char], k: usize) -> (res: Vec<char>)
    requires
        k <= s@.len(),
    ensures
        res@ == s@.take(k as int),
{
    let mut out: Vec<char> = Vec::new();
    for i in 0..k
        invariant
            k <= s@.len(),
            out@ == s@.take(i as int),
    {
        out.push(s[i]);
        assert(s@.take(i + 1) == s@.take(i as int).push(s@[i as int]));
    }
    out
}

/// The characters of `s` from position `k` on.
pub fn slice_suffix(s: &[char], k: usize) -> (res: Vec<char>)
    requires
        k <= s@.len(),
    ensures
        res@ == s@.skip(k as int),
{
    let n = s.len();
    let mut out: Vec<char> = Vec::new();
    for i in k..n
        invariant
            n == s@.len(),
            k <= n,
            out@ == s@.subrange(k as int, i as int),
    {
        out.push(s[i]);
        assert(s@.subrange(k as int, i + 1) == s@.subrange(k as int, i as int).push(s@[i as int]));
    }
    assert(s@.subrange(k as int, n as int) == s@.skip(k as int));
    out
}

/// The characters of `s` from position `a` up to position `b`.
pub fn slice_range(s: &[char], a: usize, b: usize) -> (res: Vec<char>)
    requires
        a <= b <= s@.len(),
    ensures
        res@ == s@.subrange(a as int, b as int),
{
    let mut out: Vec<char> = Vec::new();
    for i in a..b
        invariant
            b <= s@.len(),
            a <= b,
            out@ == s@.subrange(a as int, i as int),
    {
        out.push(s[i]);
        assert(s@.subrange(a as int, i + 1) == s@.subrange(a as int, i as int).push(s@[i as int]));
    }
    out
}

/// `a` followed by `b`.
pub fn concat(a: &[char], b: &[char]) -> (res: Vec<char>)
    ensures
        res@ == a@ + b@,
{
    let mut out = slice_prefix(a, a.len());
    assert(a@.take(a@.len() as int) == a@);
    let n = b.len();
    for i in 0..n
        invariant
            n == b@.len(),
            out@ == a@ + b@.take(i as int),
    {
        out.push(b[i]);
        assert(b@.take(i + 1) == b@.take(i as int).push(b@[i as int]));
    }
    assert(b@.take(n as int) == b@);
    out
}

/// Appends the characters of `b` to `out`.
pub fn extend_chars(out: &mut Vec<char>, b: &[char])
    ensures
        final(out)@ == old(out)@ + b@,
{
    let n = b.len();
    let ghost start = out@;
    for i in 0..n
        invariant
            n == b@.len(),
            out@ == start + b@.take(i as int),
    {
        out.push(b[i]);
        assert(b@.take(i + 1) == b@.take(i as int).push(b@[i as int]));
    }
    assert(b@.take(n as int) == b@);
}

/// The maximal runs of non-white characters of `s` (`str::split_whitespace`).
pub fn split_words(s: &[char]) -> (res: Vec<Vec<char>>)
    ensures
        vviews(res@) == words(s@),
{
    let n = s.len();
    let mut done: Vec<Vec<char>> = Vec::new();
    let mut cur: Vec<char> = Vec::new();
    assert(s@.take(0) == Seq::<char>::empty());
    for i in 0..n
        invariant
            n == s@.len(),
            cur@.len() > 0 <==> (i > 0 && !is_white(s@[i - 1])),
            cur@.len() > 0 ==> words(s@.take(i as int)) == vviews(done@).push(cur@),
            cur@.len() == 0 ==> words(s@.take(i as int)) == vviews(done@),
    {
        let c = s[i];
        let ghost t = s@.take(i + 1);
        assert(t.drop_last() == s@.take(i as int));
        assert(t.last() == c);
        if is_white_char(c) {
            if cur.len() > 0 {
                let ghost old_done = vviews(done@);
                done.push(cur);
                assert(vviews(done@) =~= old_done.push(cur@));
                cur = Vec::new();
            }
        } else {
            proof {
                if i > 0 {
                    assert(t[t.len() - 2] == s@[i - 1]);
                }
            }
            let ghost old_cur = cur@;
            cur.push(c);
            proof {
                if old_cur.len() > 0 {
                    let w = vviews(done@).push(old_cur);
                    assert(w.update(w.len() - 1, w.last().push(c)) =~= vviews(done@).push(cur@));
                } else {
                    assert(cur@ =~= seq![c]);
                }
            }
        }
    }
    assert(s@.take(n as int) == s@);
    if cur.len() > 0 {
        let ghost old_done = vviews(done@);
        done.push(cur);
        assert(vviews(done@) =~= old_done.push(cur@));
    }
    done
}

/// Parses a string of decimal digits as a `u32`; `None` when it is empty or
/// its value does not fit.
pub fn parse_digits_u32(s: &[char]) -> (res: Option<u32>)
    requires
        forall|i: int| 0 <= i < s@.len() ==> is_digit(#[trigger] s@[i]),
    ensures
        res matches Some(v) ==> s@.len() > 0 && v == digits_value(s@),
        res is None ==> s@.len() == 0 || digits_value(s@) > u32::MAX,
{
    if s.len() == 0 {
        return None;
    }
    let n = s.len();
    let mut acc: u32 = 0;
    for i in 0..n
        invariant
            n == s@.len(),
            forall|j: int| 0 <= j < s@.len() ==> is_digit(#[trigger] s@[j]),
            acc == digits_value(s@.take(i as int)),
    {
        let c = s[i];
        assert(s@.take(i + 1).drop_last() == s@.take(i as int));
        assert(is_digit(s@[i as int]));
        let d = (c as u32) - ('0' as u32);
        if acc > 429496729 || (acc == 429496729 && d > 5) {
            proof {
                lemma_digits_value_monotone(s@, i + 1);
            }
            return None;
        }
        acc = acc * 10 + d;
    }
    assert(s@.take(n as int) == s@);
    Some(acc)
}

/// A longer string of digits has at least the value of its prefix.
pub proof fn lemma_digits_value_monotone(s: Seq<char>, k: int)
    requires
        0 <= k <= s.len(),
        forall|i: int| 0 <= i < s.len() ==> is_digit(#[trigger] s[i]),
    ensures
        digits_value(s) >= digits_value(s.take(k)),
    decreases s.len() - k,
{
    if k < s.len() {
        assert(s.take(k + 1).drop_last() == s.take(k));
        assert(is_digit(s[k]));
        lemma_digits_value_monotone(s, k + 1);
    } else {
        assert(s.take(k) == s);
    }
}

/// The decimal notation of `n`.
pub fn decimal_of(n: u64) -> (res: Vec<char>)
    ensures
        res@ == decimal(n as nat),
    decreases n,
{
    if n < 10 {
        let mut v: Vec<char> = Vec::new();
        v.push(((n as u8) + 48u8) as char);
        v
    } else {
        let mut v = decimal_of(n / 10);
        v.push((((n % 10) as u8) + 48u8) as char);
        v
    }
}

} // verus!
