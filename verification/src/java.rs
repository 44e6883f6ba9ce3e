use vstd::prelude::*;
use crate::text::{
    chars_of, lemma_words_empty, lemma_words_range_skip, lemma_words_range_word, parse_bounded,
    lemma_trim_end_exact, lemma_trim_start_exact, parse_u32, quote_pred, skip_whitespace,
    trim_quotes, trim_quotes_range, word_end, words,
};

verus! {

// ---------------------------------------------------------------------
// Reading the major version out of `java -version`
// ---------------------------------------------------------------------

/// The index of the first '.' in `s`, or its length if there is none.
pub open spec fn dot_len(s: Seq<char>) -> nat
    decreases s.len(),
{
    if s.len() == 0 || s[0] == '.' {
        0
    } else {
        1 + dot_len(s.drop_first())
    }
}

/// The text of `s` before its first '.'.
pub open spec fn before_dot(s: Seq<char>) -> Seq<char> {
    s.take(dot_len(s) as int)
}

/// The field of a version token that names the major version: the one after
/// `1.` for the old numbering (`1.8.0_x` gives `8`), the first one otherwise.
pub open spec fn major_field(t: Seq<char>) -> Seq<char> {
    if t.len() >= 2 && t[0] == '1' && t[1] == '.' {
        before_dot(t.skip(2))
    } else {
        before_dot(t)
    }
}

/// The major version one whitespace-separated token names, if it names one above zero;
/// quotes around the token are ignored.
pub open spec fn token_major(tok: Seq<char>) -> Option<u32> {
    match parse_u32(major_field(trim_quotes(tok))) {
        Some(n) => if n > 0 { Some(n) } else { None },
        None => None,
    }
}

/// The major version of the first token that names one.
pub open spec fn first_major(toks: Seq<Seq<char>>) -> Option<u32>
    decreases toks.len(),
{
    if toks.len() == 0 {
        None
    } else {
        match token_major(toks[0]) {
            Some(n) => Some(n),
            None => first_major(toks.drop_first()),
        }
    }
}

/// The Java major version that the text of `java -version` reports.
pub open spec fn java_major_in(text: Seq<char>) -> Option<u32> {
    first_major(words(text))
}

proof fn lemma_dot_len_exact(s: Seq<char>, m: int)
    requires
        0 <= m <= s.len(),
        forall|i: int| 0 <= i < m ==> #[trigger] s[i] != '.',
        m == s.len() || s[m] == '.',
    ensures
        dot_len(s) == m,
    decreases m,
{
    if m > 0 {
        let t = s.drop_first();
        assert forall|i: int| 0 <= i < m - 1 implies #[trigger] t[i] != '.' by {
            assert(t[i] == s[i + 1]);
        }
        lemma_dot_len_exact(t, m - 1);
    }
}

/// The first index at or after `i` (and before `hi`) that holds '.', or `hi`.
fn find_dot(v: &Vec<char>, i: usize, hi: usize) -> (j: usize)
    requires
        i <= hi <= v@.len(),
    ensures
        i <= j <= hi,
        forall|k: int| i <= k < j ==> #[trigger] v@[k] != '.',
        j < hi ==> v@[j as int] == '.',
{
    let mut j = i;
    while j < hi && v[j] != '.'
        invariant
            i <= j <= hi <= v@.len(),
            forall|k: int| i <= k < j ==> #[trigger] v@[k] != '.',
        decreases hi - j,
    {
        j = j + 1;
    }
    j
}

/// `before_dot(v[lo..hi])` is `v[lo..find_dot(v, lo, hi)]`.
proof fn lemma_before_dot_range(v: Seq<char>, lo: int, j: int, hi: int)
    requires
        0 <= lo <= j <= hi <= v.len(),
        forall|k: int| lo <= k < j ==> #[trigger] v[k] != '.',
        j == hi || v[j] == '.',
    ensures
        before_dot(v.subrange(lo, hi)) == v.subrange(lo, j),
        dot_len(v.subrange(lo, hi)) == j - lo,
{
    let s = v.subrange(lo, hi);
    assert forall|k: int| 0 <= k < j - lo implies #[trigger] s[k] != '.' by {
        assert(s[k] == v[lo + k]);
    }
    if j < hi {
        assert(s[j - lo] == v[j]);
    }
    lemma_dot_len_exact(s, j - lo);
    assert(s.take(j - lo) =~= v.subrange(lo, j));
}

/// The major version that the token `v[lo..hi]` names.
fn token_major_range(v: &Vec<char>, lo: usize, hi: usize) -> (r: Option<u32>)
    requires
        lo <= hi <= v@.len(),
    ensures
        r == token_major(v@.subrange(lo as int, hi as int)),
{
    let (a, b) = trim_quotes_range(v, lo, hi);
    let ghost t = v@.subrange(a as int, b as int);
    let start = if b - a >= 2 && v[a] == '1' && v[a + 1] == '.' {
        a + 2
    } else {
        a
    };
    let end = find_dot(v, start, b);
    proof {
        lemma_before_dot_range(v@, start as int, end as int, b as int);
        if b - a >= 2 && v@[a as int] == '1' && v@[a + 1] == '.' {
            assert(t[0] == v@[a as int]);
            assert(t[1] == v@[a + 1]);
            assert(t.skip(2) =~= v@.subrange(start as int, b as int));
        } else {
            if t.len() >= 2 {
                assert(t[0] == v@[a as int]);
                assert(t[1] == v@[a + 1]);
            }
            assert(t =~= v@.subrange(start as int, b as int));
        }
        assert(major_field(t) == v@.subrange(start as int, end as int));
    }
    match parse_bounded(v, start, end, 0xffff_ffff) {
        Some(n) => {
            if n > 0 {
                Some(n as u32)
            } else {
                None
            }
        },
        None => None,
    }
}

/// Reads the major version out of the text that `java -version` prints, e.g.
/// `openjdk version "21.0.3"` gives 21 and `java version "1.8.0_392"` gives 8.
/// The first whitespace-separated token that names a version above zero decides.
pub fn parse_java_major_version(text: &str) -> (r: Option<u32>)
    ensures
        r == java_major_in(text@),
{
    let v = chars_of(text);
    let n = v.len();
    let mut i: usize = 0;
    assert(v@.subrange(0, n as int) =~= v@);
    while i < n
        invariant
            v@ == text@,
            n == v@.len(),
            i <= n,
            java_major_in(text@) == first_major(words(v@.subrange(i as int, n as int))),
        decreases n - i,
    {
        let s = skip_whitespace(&v, i, n);
        proof {
            lemma_words_range_skip(v@, i as int, s as int, n as int);
        }
        if s == n {
            proof {
                lemma_words_empty(v@, n as int);
            }
            return None;
        }
        let e = word_end(&v, s, n);
        proof {
            lemma_words_range_word(v@, s as int, e as int, n as int);
            let w = v@.subrange(s as int, e as int);
            let rest = words(v@.subrange(e as int, n as int));
            assert((seq![w] + rest)[0] == w);
            assert((seq![w] + rest).drop_first() =~= rest);
        }
        let m = token_major_range(&v, s, e);
        if m.is_some() {
            return m;
        }
        i = e;
    }
    proof {
        lemma_words_empty(v@, n as int);
    }
    None
}

/// The major version a token names when its number comes above zero.
pub open spec fn positive(n: Option<u32>) -> Option<u32> {
    match n {
        Some(v) => if v > 0 { Some(v) } else { None },
        None => None,
    }
}

proof fn lemma_trim_quotes_unquoted(t: Seq<char>)
    requires
        t.len() > 0,
        t[0] != '"',
        t.last() != '"',
    ensures
        trim_quotes(t) == t,
{
    lemma_trim_start_exact(t, quote_pred(), 0);
    assert(t.skip(0) =~= t);
    assert(!quote_pred()(t[t.len() - 1]));
    lemma_trim_end_exact(t, quote_pred(), t.len() as int);
    assert(t.take(t.len() as int) =~= t);
}

/// Old-style numbering: a token `1.<d>` or `1.<d>.<more>` (not quoted at its ends) names
/// the major version `d`, e.g. `1.8.0_392` names 8.
pub proof fn lemma_old_style_token(d: Seq<char>, rest: Seq<char>)
    requires
        forall|i: int| 0 <= i < d.len() ==> #[trigger] d[i] != '.',
        rest.len() == 0 || rest[0] == '.',
        (seq!['1', '.'] + d + rest).last() != '"',
    ensures
        token_major(seq!['1', '.'] + d + rest) == positive(parse_u32(d)),
{
    let t = seq!['1', '.'] + d + rest;
    lemma_trim_quotes_unquoted(t);
    let s = t.skip(2);
    assert(s =~= d + rest);
    assert forall|i: int| 0 <= i < d.len() implies #[trigger] s[i] != '.' by {
        assert(s[i] == d[i]);
    }
    if rest.len() > 0 {
        assert(s[d.len() as int] == rest[0]);
    }
    lemma_dot_len_exact(s, d.len() as int);
    assert(s.take(d.len() as int) =~= d);
}

/// New-style numbering: a token `<d>` or `<d>.<more>` that does not start with `1.` (and is
/// not quoted at its ends) names the major version `d`, e.g. `21.0.3` names 21.
pub proof fn lemma_new_style_token(d: Seq<char>, rest: Seq<char>)
    requires
        d.len() > 0,
        d[0] != '"',
        forall|i: int| 0 <= i < d.len() ==> #[trigger] d[i] != '.',
        rest.len() == 0 || rest[0] == '.',
        (d + rest).last() != '"',
        !((d + rest).len() >= 2 && (d + rest)[0] == '1' && (d + rest)[1] == '.'),
    ensures
        token_major(d + rest) == positive(parse_u32(d)),
{
    let t = d + rest;
    assert(t[0] == d[0]);
    lemma_trim_quotes_unquoted(t);
    assert forall|i: int| 0 <= i < d.len() implies #[trigger] t[i] != '.' by {
        assert(t[i] == d[i]);
    }
    if rest.len() > 0 {
        assert(t[d.len() as int] == rest[0]);
    }
    lemma_dot_len_exact(t, d.len() as int);
    assert(t.take(d.len() as int) =~= d);
}

/// Quotes around a token do not change the version it names.
pub proof fn lemma_quotes_ignored(t: Seq<char>)
    requires
        t.len() > 0,
        t[0] != '"',
        t.last() != '"',
    ensures
        token_major(seq!['"'] + t + seq!['"']) == token_major(t),
{
    let q = seq!['"'] + t + seq!['"'];
    let n = q.len() as int;
    assert forall|i: int| 0 <= i < 1 implies quote_pred()(#[trigger] q[i]) by {}
    assert(q[1] == t[0]);
    lemma_trim_start_exact(q, quote_pred(), 1);
    let s = q.skip(1);
    assert(s =~= t + seq!['"']);
    assert forall|i: int| s.len() - 1 <= i < s.len() implies quote_pred()(#[trigger] s[i]) by {}
    assert(s[s.len() - 2] == t.last());
    lemma_trim_end_exact(s, quote_pred(), s.len() - 1);
    assert(s.take(s.len() - 1) =~= t);
    lemma_trim_quotes_unquoted(t);
}

proof fn lemma_first_major_earliest(toks: Seq<Seq<char>>, k: int, m: u32)
    requires
        0 <= k < toks.len(),
        token_major(toks[k]) == Some(m),
        forall|j: int| 0 <= j < k ==> token_major(#[trigger] toks[j]) is None,
    ensures
        first_major(toks) == Some(m),
    decreases k,
{
    if k > 0 {
        let t = toks.drop_first();
        assert forall|j: int| 0 <= j < k - 1 implies token_major(#[trigger] t[j]) is None by {
            assert(t[j] == toks[j + 1]);
        }
        assert(t[k - 1] == toks[k]);
        lemma_first_major_earliest(t, k - 1, m);
    }
}

proof fn lemma_first_major_none(toks: Seq<Seq<char>>)
    ensures
        first_major(toks) is None <==> forall|j: int|
            0 <= j < toks.len() ==> token_major(#[trigger] toks[j]) is None,
    decreases toks.len(),
{
    if toks.len() > 0 {
        let t = toks.drop_first();
        lemma_first_major_none(t);
        if first_major(toks) is None {
            assert forall|j: int| 0 <= j < toks.len() implies token_major(#[trigger] toks[j]) is None by {
                if j > 0 {
                    assert(toks[j] == t[j - 1]);
                }
            }
        }
        if forall|j: int| 0 <= j < toks.len() ==> token_major(#[trigger] toks[j]) is None {
            assert(token_major(toks[0]) is None);
            assert forall|j: int| 0 <= j < t.len() implies token_major(#[trigger] t[j]) is None by {
                assert(t[j] == toks[j + 1]);
            }
        }
    }
}

/// The Java version guard reads the earliest version in the output: when the `k`-th
/// whitespace-separated token of `text` names the major version `m` and no earlier token
/// names one, `m` is what is read, whatever the tokens after it name (such as the build of
/// the HotSpot VM on a later line).
pub proof fn lemma_java_major_is_earliest_token(text: Seq<char>, k: int, m: u32)
    requires
        0 <= k < words(text).len(),
        token_major(words(text)[k]) == Some(m),
        forall|j: int| 0 <= j < k ==> token_major(#[trigger] words(text)[j]) is None,
    ensures
        java_major_in(text) == Some(m),
{
    lemma_first_major_earliest(words(text), k, m);
}

/// No version is read exactly when no token of the output names one.
pub proof fn lemma_java_major_none(text: Seq<char>)
    ensures
        java_major_in(text) is None <==> forall|j: int|
            0 <= j < words(text).len() ==> token_major(#[trigger] words(text)[j]) is None,
{
    lemma_first_major_none(words(text));
}

/// What is read is always named by some token of the output, and by none before it.
pub proof fn lemma_java_major_comes_from_a_token(text: Seq<char>)
    ensures
        java_major_in(text) matches Some(m) ==> exists|k: int|
            0 <= k < words(text).len() && token_major(#[trigger] words(text)[k]) == Some(m)
                && forall|j: int| 0 <= j < k ==> token_major(#[trigger] words(text)[j]) is None,
{
    let toks = words(text);
    lemma_first_major_none(toks);
    if java_major_in(text) is Some {
        let k = choose|k: int| 0 <= k < toks.len() && token_major(#[trigger] toks[k]) is Some;
        // the earliest token that names a version
        let e = lemma_earliest_index(toks, k);
        lemma_first_major_earliest(toks, e, token_major(toks[e]).unwrap());
    }
}

proof fn lemma_earliest_index(toks: Seq<Seq<char>>, k: int) -> (e: int)
    requires
        0 <= k < toks.len(),
        token_major(toks[k]) is Some,
    ensures
        0 <= e <= k,
        token_major(toks[e]) is Some,
        forall|j: int| 0 <= j < e ==> token_major(#[trigger] toks[j]) is None,
    decreases k,
{
    if exists|j: int| 0 <= j < k && token_major(#[trigger] toks[j]) is Some {
        let j = choose|j: int| 0 <= j < k && token_major(#[trigger] toks[j]) is Some;
        lemma_earliest_index(toks, j)
    } else {
        k
    }
}

// ---------------------------------------------------------------------
// Which Java a server version needs
// ---------------------------------------------------------------------

/// The Java major version that a Minecraft minor version needs:
/// 21 from 1.21 on, 17 from 1.17 on, 8 before.
pub open spec fn java_for_minor(minor: u32) -> u32 {
    if minor >= 21 {
        21
    } else if minor >= 17 {
        17
    } else {
        8
    }
}

/// The second '.'-separated field of `s`, if `s` has a '.'.
pub open spec fn second_field(s: Seq<char>) -> Option<Seq<char>> {
    if dot_len(s) < s.len() {
        Some(before_dot(s.skip((dot_len(s) + 1) as int)))
    } else {
        None
    }
}

/// The Java major version that the server version `version` needs.
pub open spec fn required_java(version: Seq<char>) -> u32 {
    match second_field(version) {
        Some(f) => match parse_u32(f) {
            Some(minor) => java_for_minor(minor),
            None => 8,
        },
        None => 8,
    }
}

/// The least Java major version for the server version `version` (e.g. `1.21.1` needs 21,
/// `1.18.2` needs 17, `1.12.2` needs 8); 8 where the second field is no number.
pub fn required_java_major(version: &str) -> (r: u32)
    ensures
        r == required_java(version@),
        r == 8 || r == 17 || r == 21,
{
    let v = chars_of(version);
    let n = v.len();
    let d = find_dot(&v, 0, n);
    proof {
        lemma_before_dot_range(v@, 0, d as int, n as int);
        assert(v@.subrange(0, n as int) =~= v@);
    }
    if d == n {
        return 8;
    }
    let e = find_dot(&v, d + 1, n);
    proof {
        lemma_before_dot_range(v@, d + 1, e as int, n as int);
        assert(v@.skip(d + 1) =~= v@.subrange(d + 1, n as int));
    }
    match parse_bounded(&v, d + 1, e, 0xffff_ffff) {
        Some(m) => {
            if m >= 21 {
                21
            } else if m >= 17 {
                17
            } else {
                8
            }
        },
        None => 8,
    }
}

/// A server version `<p>.<d>` or `<p>.<d>.<more>` (where `<p>` holds no '.') needs the Java
/// of its minor version `d`; one with no '.' at all, or whose second field is no number,
/// needs Java 8.
pub proof fn lemma_required_java_from_second_field(p: Seq<char>, d: Seq<char>, rest: Seq<char>)
    requires
        forall|i: int| 0 <= i < p.len() ==> #[trigger] p[i] != '.',
        forall|i: int| 0 <= i < d.len() ==> #[trigger] d[i] != '.',
        rest.len() == 0 || rest[0] == '.',
    ensures
        required_java(p + seq!['.'] + d + rest) == match parse_u32(d) {
            Some(m) => java_for_minor(m),
            None => 8,
        },
        required_java(p) == 8,
{
    let v = p + seq!['.'] + d + rest;
    assert forall|i: int| 0 <= i < p.len() implies #[trigger] v[i] != '.' by {
        assert(v[i] == p[i]);
    }
    assert(v[p.len() as int] == '.');
    lemma_dot_len_exact(v, p.len() as int);
    let s = v.skip((p.len() + 1) as int);
    assert(s =~= d + rest);
    assert forall|i: int| 0 <= i < d.len() implies #[trigger] s[i] != '.' by {
        assert(s[i] == d[i]);
    }
    if rest.len() > 0 {
        assert(s[d.len() as int] == rest[0]);
    }
    lemma_dot_len_exact(s, d.len() as int);
    assert(s.take(d.len() as int) =~= d);
    lemma_dot_len_exact(p, p.len() as int);
}

/// The thresholds of the Java guard: Minecraft 1.21 and later need Java 21, 1.17 to 1.20
/// need Java 17, older versions Java 8.
pub proof fn lemma_java_thresholds(minor: u32)
    ensures
        minor >= 21 ==> java_for_minor(minor) == 21,
        17 <= minor < 21 ==> java_for_minor(minor) == 17,
        minor < 17 ==> java_for_minor(minor) == 8,
{
}

/// A newer minor version never needs an older Java.
pub proof fn lemma_java_for_minor_monotone(a: u32, b: u32)
    requires
        a <= b,
    ensures
        java_for_minor(a) <= java_for_minor(b),
{
}

/// What the check of the installed Java against a required major version finds.
pub enum JavaCheck {
    /// The installed Java is new enough.
    Satisfied,
    /// The installed Java is older than needed; it holds the version found.
    TooOld(u32),
    /// No version could be read; the server is started anyway.
    Unknown,
}

/// Decides whether the detected Java major version meets `min_major`.
pub fn java_requirement(min_major: u32, detected: Option<u32>) -> (r: JavaCheck)
    ensures
        match detected {
            Some(v) => if v >= min_major { r is Satisfied } else { r == JavaCheck::TooOld(v) },
            None => r is Unknown,
        },
{
    match detected {
        Some(v) => {
            if v >= min_major {
                JavaCheck::Satisfied
            } else {
                JavaCheck::TooOld(v)
            }
        },
        None => JavaCheck::Unknown,
    }
}

} // verus!
