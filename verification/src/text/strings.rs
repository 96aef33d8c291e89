use vstd::prelude::*;

verus! {

// ---------------------------------------------------------------------------
// Character classes (std's answers are taken by name).
// ---------------------------------------------------------------------------

/// The characters outside ASCII with the Unicode `White_Space` property
/// (as listed in the Unicode Character Database's `PropList.txt`): U+0085,
/// U+00A0, U+1680, U+2000 to U+200A, U+2028, U+2029, U+202F, U+205F, U+3000.
pub open spec fn non_ascii_white_space(c: char) -> bool {
    ||| c == '\u{85}'
    ||| c == '\u{a0}'
    ||| c == '\u{1680}'
    ||| ('\u{2000}' <= c && c <= '\u{200a}')
    ||| c == '\u{2028}'
    ||| c == '\u{2029}'
    ||| c == '\u{202f}'
    ||| c == '\u{205f}'
    ||| c == '\u{3000}'
}

/// Whether a character has the Unicode `White_Space` property: in ASCII these
/// are the space and the controls U+0009 to U+000D.
pub open spec fn white_space(c: char) -> bool {
    if c <= '\x7f' {
        c == ' ' || ('\t' <= c && c <= '\r')
    } else {
        non_ascii_white_space(c)
    }
}

/// What `char::is_alphabetic` answers for a character: whether it has the
/// Unicode `Alphabetic` property.
pub uninterp spec fn alphabetic(c: char) -> bool;

/// What `char::is_alphanumeric` answers for a character: whether it is
/// alphabetic or has a numeric general category.
pub uninterp spec fn alphanumeric(c: char) -> bool;

/// What `str::to_lowercase` returns for a text: its lowercase equivalent
/// under the Unicode `Lowercase` mapping (which may change its length).
pub uninterp spec fn lowercase_text(s: Seq<char>) -> Seq<char>;

/// Wrapper of `char::is_whitespace`, whose documentation answers whether the
/// character has the Unicode `White_Space` property: in ASCII the space and
/// U+0009 to U+000D, outside it the characters of `non_ascii_white_space`.
#[verifier::external_body]
pub(crate) fn is_whitespace_char(c: char) -> (r: bool)
    ensures
        r == if c <= '\x7f' {
            c == ' ' || ('\t' <= c && c <= '\r')
        } else {
            non_ascii_white_space(c)
        },
{
    c.is_whitespace()
}

/// Wrapper of `char::is_alphabetic`; its answer is taken by name.
#[verifier::external_body]
pub(crate) fn is_alphabetic_char(c: char) -> (r: bool)
    ensures
        r == alphabetic(c),
{
    c.is_alphabetic()
}

/// Wrapper of `char::is_alphanumeric`; its answer is taken by name.
#[verifier::external_body]
pub(crate) fn is_alphanumeric_char(c: char) -> (r: bool)
    ensures
        r == alphanumeric(c),
{
    c.is_alphanumeric()
}

/// Wrapper of `str::to_lowercase`; the result is taken by name.
#[verifier::external_body]
pub(crate) fn to_lowercase(s: &str) -> (r: String)
    ensures
        r@ == lowercase_text(s@),
{
    s.to_lowercase()
}

/// Wrapper of `String::push`: appends one character.
#[verifier::external_body]
pub(crate) fn push_char(s: &mut String, c: char)
    ensures
        final(s)@ == old(s)@.push(c),
{
    s.push(c);
}

/// The character sequences of a sequence of strings.
pub open spec fn string_views(v: Seq<String>) -> Seq<Seq<char>> {
    v.map_values(|s: String| s@)
}

// ---------------------------------------------------------------------------
// Trimming.
// ---------------------------------------------------------------------------

/// `s` without its leading white space.
pub open spec fn trim_start_view(s: Seq<char>) -> Seq<char>
    decreases s.len(),
{
    if s.len() > 0 && white_space(s[0]) {
        trim_start_view(s.drop_first())
    } else {
        s
    }
}

/// `s` without its trailing white space.
pub open spec fn trim_end_view(s: Seq<char>) -> Seq<char>
    decreases s.len(),
{
    if s.len() > 0 && white_space(s.last()) {
        trim_end_view(s.drop_last())
    } else {
        s
    }
}

/// `s` without leading and trailing white space.
pub open spec fn trim_view(s: Seq<char>) -> Seq<char> {
    trim_end_view(trim_start_view(s))
}

/// Wrapper of `str::trim`, which removes leading and trailing characters
/// with the `White_Space` property.
#[verifier::external_body]
pub(crate) fn trim_str<'a>(s: &'a str) -> (r: &'a str)
    ensures
        r@ == trim_view(s@),
{
    s.trim()
}

// ---------------------------------------------------------------------------
// Conversions between strings and character vectors.
// ---------------------------------------------------------------------------

/// Copies the characters of a string slice into a vector.
pub fn chars_of(s: &str) -> (v: Vec<char>)
    ensures
        v@ == s@,
{
    let mut v: Vec<char> = Vec::new();
    for c in it: s.chars()
        invariant
            v@ == it.seq().take(it.index() as int),
            it.seq() == s@,
    {
        v.push(c);
    }
    v
}

/// Appends the characters `v[from..to]` to `out`.
pub(crate) fn push_chars(out: &mut String, v: &Vec<char>, from: usize, to: usize)
    requires
        from <= to <= v@.len(),
    ensures
        final(out)@ == old(out)@ + v@.subrange(from as int, to as int),
{
    let mut i = from;
    while i < to
        invariant
            from <= i <= to <= v@.len(),
            out@ == old(out)@ + v@.subrange(from as int, i as int),
        decreases to - i,
    {
        push_char(out, v[i]);
        assert(v@.subrange(from as int, i + 1) == v@.subrange(from as int, i as int).push(v@[i as int]));
        i = i + 1;
    }
}

/// Builds a string from the characters `v[from..to]`.
pub fn string_of_range(v: &Vec<char>, from: usize, to: usize) -> (r: String)
    requires
        from <= to <= v@.len(),
    ensures
        r@ == v@.subrange(from as int, to as int),
{
    let mut r = String::new();
    push_chars(&mut r, v, from, to);
    r
}

/// Builds a string from a vector of characters.
pub fn string_of(v: &Vec<char>) -> (r: String)
    ensures
        r@ == v@,
{
    let r = string_of_range(v, 0, v.len());
    assert(v@.subrange(0, v@.len() as int) == v@);
    r
}

/// Appends a string slice to a string.
pub fn push_str(out: &mut String, s: &str)
    ensures
        final(out)@ == old(out)@ + s@,
{
    let v = chars_of(s);
    push_chars(out, &v, 0, v.len());
    assert(v@.subrange(0, v@.len() as int) == v@);
}

/// An owned copy of a string slice.
pub fn owned(s: &str) -> (r: String)
    ensures
        r@ == s@,
{
    let mut r = String::new();
    push_str(&mut r, s);
    r
}

// ---------------------------------------------------------------------------
// Comparison and search on character sequences.
// ---------------------------------------------------------------------------

/// Whether two character vectors agree on `len` characters from the given offsets.
pub fn chars_match_at(h: &Vec<char>, at: usize, n: &Vec<char>) -> (r: bool)
    requires
        at + n@.len() <= h@.len(),
    ensures
        r == (h@.subrange(at as int, at + n@.len()) == n@),
{
    let mut j: usize = 0;
    while j < n.len()
        invariant
            at + n@.len() <= h@.len(),
            j <= n@.len(),
            forall|k: int| 0 <= k < j ==> h@[at + k] == n@[k],
        decreases n@.len() - j,
    {
        assert(at + j < h.len());
        if h[at + j] != n[j] {
            assert(h@.subrange(at as int, at + n@.len())[j as int] != n@[j as int]);
            return false;
        }
        j = j + 1;
    }
    assert(h@.subrange(at as int, at + n@.len()) =~= n@);
    true
}

/// Whether two string slices hold the same characters.
pub fn str_eq(a: &str, b: &str) -> (r: bool)
    ensures
        r == (a@ == b@),
{
    let va = chars_of(a);
    let vb = chars_of(b);
    if va.len() != vb.len() {
        return false;
    }
    let r = chars_match_at(&va, 0, &vb);
    assert(va@.subrange(0, vb@.len() as int) == va@);
    r
}

/// `n` occurs in `h` at position `k`.
pub open spec fn occurs_at(h: Seq<char>, n: Seq<char>, k: int) -> bool {
    0 <= k && k + n.len() <= h.len() && h.subrange(k, k + n.len()) == n
}

/// The first position at or after `from` where `n` occurs in `h`.
pub open spec fn first_occurrence(h: Seq<char>, n: Seq<char>, from: int) -> Option<int>
    decreases h.len() + 1 - from,
{
    if from < 0 || from + n.len() > h.len() {
        None
    } else if occurs_at(h, n, from) {
        Some(from)
    } else {
        first_occurrence(h, n, from + 1)
    }
}

/// `n` occurs somewhere in `h`.
pub open spec fn contains_seq(h: Seq<char>, n: Seq<char>) -> bool {
    exists|k: int| occurs_at(h, n, k)
}

/// The first occurrence found from `from` is the least position there where `n` occurs.
pub proof fn lemma_first_occurrence(h: Seq<char>, n: Seq<char>, from: int)
    requires
        0 <= from,
    ensures
        first_occurrence(h, n, from) matches Some(k) ==> from <= k && occurs_at(h, n, k)
            && forall|j: int| from <= j < k ==> !occurs_at(h, n, j),
        first_occurrence(h, n, from) is None ==> forall|j: int| from <= j ==> !occurs_at(h, n, j),
    decreases h.len() + 1 - from,
{
    if from + n.len() > h.len() {
    } else if occurs_at(h, n, from) {
    } else {
        lemma_first_occurrence(h, n, from + 1);
        assert forall|j: int| from <= j < from + 1 implies !occurs_at(h, n, j) by {}
    }
}

/// `n` occurs in `h` exactly when a first occurrence exists.
pub proof fn lemma_contains_first(h: Seq<char>, n: Seq<char>)
    ensures
        contains_seq(h, n) <==> first_occurrence(h, n, 0) is Some,
{
    lemma_first_occurrence(h, n, 0);
}

/// Text that neither begins nor ends with white space is its own trim.
pub proof fn lemma_trim_view_plain(s: Seq<char>)
    requires
        s.len() > 0,
        !white_space(s[0]),
        !white_space(s.last()),
    ensures
        trim_view(s) == s,
{
}

/// Positions where `n` does not occur can be skipped by the search.
pub proof fn lemma_first_occurrence_skip(h: Seq<char>, n: Seq<char>, from: int, to: int)
    requires
        0 <= from <= to,
        forall|j: int| from <= j < to ==> !occurs_at(h, n, j),
    ensures
        first_occurrence(h, n, from) == first_occurrence(h, n, to),
    decreases to - from,
{
    if from < to {
        lemma_first_occurrence_skip(h, n, from + 1, to);
    }
}

/// A search in the part of `a + b` after `a` is a search in `b`, shifted.
pub proof fn lemma_first_occurrence_suffix(a: Seq<char>, b: Seq<char>, n: Seq<char>, from: int)
    requires
        0 <= from,
    ensures
        first_occurrence(a + b, n, a.len() + from) == (match first_occurrence(b, n, from) {
            Some(k) => Some(a.len() + k),
            None => None,
        }),
    decreases b.len() + 1 - from,
{
    if from + n.len() <= b.len() {
        assert((a + b).subrange(a.len() + from, a.len() + from + n.len()) =~= b.subrange(
            from,
            from + n.len(),
        ));
        if !occurs_at(b, n, from) {
            lemma_first_occurrence_suffix(a, b, n, from + 1);
        }
    }
}

/// `c` occurs nowhere in `s` at the positions from `lo` up to `hi`.
pub open spec fn no_char_between(s: Seq<char>, c: char, lo: int, hi: int) -> bool
    decreases hi - lo,
{
    if lo >= hi {
        true
    } else {
        s[lo] != c && no_char_between(s, c, lo + 1, hi)
    }
}

/// What `no_char_between` says, for every position.
pub proof fn lemma_no_char_between(s: Seq<char>, c: char, lo: int, hi: int)
    requires
        no_char_between(s, c, lo, hi),
    ensures
        forall|i: int| lo <= i < hi ==> s[i] != c,
    decreases hi - lo,
{
    if lo < hi {
        lemma_no_char_between(s, c, lo + 1, hi);
    }
}

/// A pattern that begins with `c` starts nowhere that `c` is missing.
pub proof fn lemma_no_start_without_first(h: Seq<char>, n: Seq<char>, j: int)
    requires
        n.len() > 0,
        0 <= j < h.len(),
        h[j] != n[0],
    ensures
        !occurs_at(h, n, j),
{
    if occurs_at(h, n, j) {
        assert(h.subrange(j, j + n.len())[0] == n[0]);
    }
}

/// Finds the first position at or after `from` where `n` occurs in `h`.
pub fn find_from(h: &Vec<char>, n: &Vec<char>, from: usize) -> (r: Option<usize>)
    ensures
        r matches Some(k) ==> first_occurrence(h@, n@, from as int) == Some(k as int),
        r is None ==> first_occurrence(h@, n@, from as int) is None,
{
    if n.len() > h.len() {
        return None;
    }
    let last = h.len() - n.len();
    if from > last {
        return None;
    }
    let mut k = from;
    loop
        invariant
            last == h@.len() - n@.len(),
            from <= k <= last,
            first_occurrence(h@, n@, from as int) == first_occurrence(h@, n@, k as int),
        decreases last - k,
    {
        if chars_match_at(h, k, n) {
            return Some(k);
        }
        if k == last {
            assert(first_occurrence(h@, n@, k + 1) is None);
            return None;
        }
        k = k + 1;
    }
}

/// Whether `n` occurs in `h`.
pub fn contains_chars(h: &Vec<char>, n: &Vec<char>) -> (r: bool)
    ensures
        r == contains_seq(h@, n@),
{
    proof {
        lemma_contains_first(h@, n@);
    }
    find_from(h, n, 0).is_some()
}

/// Whether the text `h` contains the text `n`.
pub fn str_contains(h: &str, n: &str) -> (r: bool)
    ensures
        r == contains_seq(h@, n@),
{
    let hv = chars_of(h);
    let nv = chars_of(n);
    contains_chars(&hv, &nv)
}

// ---------------------------------------------------------------------------
// ASCII case folding.
// ---------------------------------------------------------------------------

/// A character with ASCII `A`..`Z` mapped to `a`..`z`.
pub open spec fn ascii_lower_char(c: char) -> char {
    if 'A' <= c && c <= 'Z' {
        ((c as u32) + 32) as char
    } else {
        c
    }
}

/// A text with ASCII upper-case letters mapped to lower case.
pub open spec fn ascii_lower(s: Seq<char>) -> Seq<char> {
    s.map_values(|c: char| ascii_lower_char(c))
}

/// Maps ASCII upper-case letters of a text to lower case (as `str::to_ascii_lowercase`).
pub fn to_ascii_lowercase(s: &str) -> (r: String)
    ensures
        r@ == ascii_lower(s@),
{
    let v = chars_of(s);
    let mut r = String::new();
    let mut i: usize = 0;
    while i < v.len()
        invariant
            i <= v@.len(),
            v@ == s@,
            r@ == ascii_lower(v@.take(i as int)),
        decreases v@.len() - i,
    {
        let c = v[i];
        let d = if 'A' <= c && c <= 'Z' {
            ((c as u8) + 32) as char
        } else {
            c
        };
        assert(d == ascii_lower_char(c)) by {
            if 'A' <= c && c <= 'Z' {
                assert((c as u8) as u32 == c as u32);
            }
        }
        push_char(&mut r, d);
        assert(ascii_lower(v@.take(i + 1)) == ascii_lower(v@.take(i as int)).push(d));
        i = i + 1;
    }
    assert(v@.take(v@.len() as int) == v@);
    r
}

} // verus!
