use vstd::prelude::*;
use vstd::utf8::encode_utf8;
use crate::text::strings::{
    lemma_first_occurrence, occurs_at,
    alphanumeric, chars_match_at, chars_of, find_from, first_occurrence, is_alphanumeric_char,
    lowercase_text, owned, push_chars, push_str, string_of_range, string_views, to_lowercase,
    trim_str, trim_view,
};
use crate::text::tokenizer::{tokenize, tokenize_spec};

verus! {

/// The snippet window used when the caller asks for a window of 0.
pub const SNIPPET_WINDOW: usize = 150;

/// The window a snippet is cut with.
pub open spec fn effective_window(window: int) -> int {
    if window == 0 {
        SNIPPET_WINDOW as int
    } else {
        window
    }
}

/// The tokens longer than one byte.
pub open spec fn long_tokens(ts: Seq<Seq<char>>) -> Seq<Seq<char>>
    decreases ts.len(),
{
    if ts.len() == 0 {
        seq![]
    } else {
        let rest = long_tokens(ts.drop_last());
        if encode_utf8(ts.last()).len() > 1 {
            rest.push(ts.last())
        } else {
            rest
        }
    }
}

/// The tokens of a query that a snippet looks for.
pub open spec fn query_tokens(query: Seq<char>) -> Seq<Seq<char>> {
    long_tokens(tokenize_spec(query, true))
}

/// The least of two optional positions.
pub open spec fn min_offset(a: Option<int>, b: Option<int>) -> Option<int> {
    match (a, b) {
        (Some(x), Some(y)) => Some(if x <= y { x } else { y }),
        (Some(x), None) => Some(x),
        (None, Some(y)) => Some(y),
        (None, None) => None,
    }
}

/// The least character position in `lower` at which one of the tokens
/// first occurs: the first match.
pub open spec fn best_offset(lower: Seq<char>, toks: Seq<Seq<char>>) -> Option<int>
    decreases toks.len(),
{
    if toks.len() == 0 {
        None
    } else {
        min_offset(best_offset(lower, toks.drop_last()), first_occurrence(lower, toks.last(), 0))
    }
}

/// The start of a text: its first `n` characters, trimmed, followed by `...`
/// when the text is longer.
pub open spec fn head_preview(content: Seq<char>, n: int) -> Seq<char> {
    let taken = if content.len() <= n {
        content
    } else {
        content.take(n)
    };
    trim_view(taken) + if content.len() > n {
        "..."@
    } else {
        seq![]
    }
}

/// The characters of `content` within `window / 2` of position `pos`, with
/// `...` where text was cut off before or after.
pub open spec fn window_text(content: Seq<char>, pos: int, window: int) -> Seq<char> {
    let half = window / 2;
    let s0 = if pos >= half {
        pos - half
    } else {
        0
    };
    let start = if s0 > content.len() {
        content.len() as int
    } else {
        s0
    };
    let end = if pos + half <= content.len() {
        pos + half
    } else {
        content.len() as int
    };
    (if start > 0 {
        "..."@
    } else {
        seq![]
    }) + content.subrange(start, end) + (if end < content.len() {
        "..."@
    } else {
        seq![]
    })
}

/// Where, if anywhere, a token match that stands on word boundaries starts at
/// character `i` of snippet `s` (trying tokens from `j` on), given the
/// characters `lc` of the lowercase snippet: the end of the match.
pub open spec fn match_end(s: Seq<char>, lc: Seq<char>, toks: Seq<Seq<char>>, i: int, j: int) -> Option<
    int,
>
    decreases toks.len() - j,
{
    if j < 0 || j >= toks.len() {
        None
    } else {
        let t = toks[j];
        let e = i + t.len();
        if t.len() > 0 && 0 <= i && e <= lc.len() && e <= s.len() && lc.subrange(i, e) == t && (i
            == 0 || !alphanumeric(s[i - 1])) && (e >= s.len() || !alphanumeric(s[e])) {
            Some(e)
        } else {
            match_end(s, lc, toks, i, j + 1)
        }
    }
}

/// A match ends after it starts and within the snippet.
pub proof fn lemma_match_end(s: Seq<char>, lc: Seq<char>, toks: Seq<Seq<char>>, i: int, j: int)
    ensures
        match_end(s, lc, toks, i, j) matches Some(e) ==> i < e <= s.len(),
    decreases toks.len() - j,
{
    if 0 <= j < toks.len() {
        lemma_match_end(s, lc, toks, i, j + 1);
    }
}

/// The snippet from character `i` on with each token match wrapped in `**`.
pub open spec fn highlight_from(s: Seq<char>, lc: Seq<char>, toks: Seq<Seq<char>>, i: int) -> Seq<
    char,
>
    decreases s.len() - i,
{
    if i < 0 || i >= s.len() {
        seq![]
    } else {
        match match_end(s, lc, toks, i, 0) {
            Some(e) => if i < e && e <= s.len() {
                "**"@ + s.subrange(i, e) + "**"@ + highlight_from(s, lc, toks, e)
            } else {
                seq![]
            },
            None => seq![s[i]] + highlight_from(s, lc, toks, i + 1),
        }
    }
}

/// The snippet of `content` for `query`: with no query tokens, or no token in
/// the lowercase content, the start of the content; otherwise the window
/// around the first match with the matches highlighted.
pub open spec fn snippet_spec(content: Seq<char>, query: Seq<char>, window: int) -> Seq<char> {
    let w = effective_window(window);
    let toks = query_tokens(query);
    if toks.len() == 0 {
        head_preview(content, w * 2)
    } else {
        match best_offset(lowercase_text(content), toks) {
            None => head_preview(content, w * 2),
            Some(pos) => {
                let snip = window_text(content, pos, w);
                highlight_from(snip, lowercase_text(snip), toks, 0)
            },
        }
    }
}

/// The first match is the least position at which any token occurs: some
/// token occurs there and none occurs before it; and there is no first match
/// exactly when no token occurs anywhere.
pub proof fn lemma_first_match_is_least(lower: Seq<char>, toks: Seq<Seq<char>>)
    ensures
        best_offset(lower, toks) matches Some(p) ==> {
            &&& exists|j: int| 0 <= j < toks.len() && occurs_at(lower, #[trigger] toks[j], p)
            &&& forall|j: int, q: int|
                0 <= j < toks.len() && 0 <= q < p ==> !#[trigger] occurs_at(lower, toks[j], q)
        },
        best_offset(lower, toks) is None ==> forall|j: int, q: int|
            0 <= j < toks.len() ==> !#[trigger] occurs_at(lower, toks[j], q),
    decreases toks.len(),
{
    if toks.len() > 0 {
        let init = toks.drop_last();
        let t = toks.last();
        lemma_first_match_is_least(lower, init);
        lemma_first_occurrence(lower, t, 0);
        assert forall|j: int| 0 <= j < init.len() implies init[j] == toks[j] by {}
        assert(toks[toks.len() - 1] == t);
        match (best_offset(lower, init), first_occurrence(lower, t, 0)) {
            (Some(x), Some(y)) => {
                if x <= y {
                    let j = choose|j: int| 0 <= j < init.len() && occurs_at(lower, #[trigger] init[j], x);
                    assert(occurs_at(lower, toks[j], x));
                } else {
                    assert(occurs_at(lower, toks[toks.len() - 1], y));
                }
            },
            (Some(x), None) => {
                let j = choose|j: int| 0 <= j < init.len() && occurs_at(lower, #[trigger] init[j], x);
                assert(occurs_at(lower, toks[j], x));
            },
            (None, Some(y)) => {
                assert(occurs_at(lower, toks[toks.len() - 1], y));
            },
            (None, None) => {},
        }
        assert forall|j: int, q: int|
            0 <= j < toks.len() && (best_offset(lower, toks) matches Some(p) && 0 <= q < p
                || best_offset(lower, toks) is None) implies !#[trigger] occurs_at(lower, toks[j], q) by {
            if j < init.len() {
                assert(toks[j] == init[j]);
            } else {
                assert(toks[j] == t);
                if q < 0 {
                    assert(!occurs_at(lower, t, q));
                }
            }
        }
    }
}

/// The window of a snippet is centred on the first match: when the window of
/// `first_match_window` is cut, it is cut around a position where a token
/// occurs in the lowercase content and before which none occurs.
pub proof fn lemma_window_around_first_match(content: Seq<char>, lower: Seq<char>, toks: Seq<Seq<char>>, w: int)
    ensures
        (exists|j: int, q: int| 0 <= j < toks.len() && #[trigger] occurs_at(lower, toks[j], q))
            ==> exists|p: int|
            best_offset(lower, toks) == Some(p) && (exists|j: int|
                0 <= j < toks.len() && occurs_at(lower, #[trigger] toks[j], p)) && (forall|j: int, q: int|
                0 <= j < toks.len() && 0 <= q < p ==> !#[trigger] occurs_at(lower, toks[j], q)),
{
    lemma_first_match_is_least(lower, toks);
    if let Some(p) = best_offset(lower, toks) {
        assert(best_offset(lower, toks) == Some(p));
    }
}

/// A window of 0 is the default window.
pub proof fn lemma_default_window(content: Seq<char>, query: Seq<char>)
    ensures
        snippet_spec(content, query, 0) == snippet_spec(content, query, SNIPPET_WINDOW as int),
{
}

/// A text without its `*` characters.
pub open spec fn strip_stars(x: Seq<char>) -> Seq<char>
    decreases x.len(),
{
    if x.len() == 0 {
        seq![]
    } else {
        (if x[0] == '*' {
            seq![]
        } else {
            seq![x[0]]
        }) + strip_stars(x.drop_first())
    }
}

/// Stripping the stars of a concatenation strips each part.
pub proof fn lemma_strip_stars_concat(a: Seq<char>, b: Seq<char>)
    ensures
        strip_stars(a + b) == strip_stars(a) + strip_stars(b),
    decreases a.len(),
{
    if a.len() == 0 {
        assert(a + b == b);
    } else {
        lemma_strip_stars_concat(a.drop_first(), b);
        assert((a + b).drop_first() == a.drop_first() + b);
        assert((a + b)[0] == a[0]);
    }
}

/// A text without stars is its own stripping.
pub proof fn lemma_strip_stars_none(x: Seq<char>)
    requires
        !x.contains('*'),
    ensures
        strip_stars(x) == x,
    decreases x.len(),
{
    if x.len() > 0 {
        assert(!x.drop_first().contains('*')) by {
            if x.drop_first().contains('*') {
                let k = choose|k: int| 0 <= k < x.drop_first().len() && x.drop_first()[k] == '*';
                assert(x[k + 1] == '*');
            }
        }
        lemma_strip_stars_none(x.drop_first());
        assert(x[0] != '*');
        assert(seq![x[0]] + x.drop_first() == x);
    }
}

/// Highlighting only adds `**` markers: with them removed, the highlighted
/// snippet is the snippet (when it holds no `*` of its own).
pub proof fn lemma_highlight_only_marks(s: Seq<char>, lc: Seq<char>, toks: Seq<Seq<char>>, i: int)
    requires
        !s.contains('*'),
        0 <= i <= s.len(),
    ensures
        strip_stars(highlight_from(s, lc, toks, i)) == s.skip(i),
    decreases s.len() - i,
{
    if i < s.len() {
        lemma_match_end(s, lc, toks, i, 0);
        reveal_strlit("**");
        match match_end(s, lc, toks, i, 0) {
            Some(e) => {
                lemma_highlight_only_marks(s, lc, toks, e);
                let mid = s.subrange(i, e);
                assert(!mid.contains('*')) by {
                    if mid.contains('*') {
                        let k = choose|k: int| 0 <= k < mid.len() && mid[k] == '*';
                        assert(s[i + k] == '*');
                    }
                }
                lemma_strip_stars_none(mid);
                lemma_strip_stars_concat("**"@ + mid + "**"@, highlight_from(s, lc, toks, e));
                lemma_strip_stars_concat("**"@ + mid, "**"@);
                lemma_strip_stars_concat("**"@, mid);
                assert(strip_stars("**"@) == Seq::<char>::empty()) by {
                    let x = "**"@;
                    let y = x.drop_first();
                    assert(x.len() == 2 && x[0] == '*' && x[1] == '*');
                    assert(y.len() == 1 && y[0] == '*');
                    assert(strip_stars(y.drop_first()) == Seq::<char>::empty());
                    assert(strip_stars(y) == Seq::<char>::empty() + Seq::<char>::empty());
                    assert(strip_stars(x) == Seq::<char>::empty() + strip_stars(y));
                }
                assert(s.skip(i) == mid + s.skip(e));
            },
            None => {
                lemma_highlight_only_marks(s, lc, toks, i + 1);
                assert(s[i] != '*');
                lemma_strip_stars_concat(seq![s[i]], highlight_from(s, lc, toks, i + 1));
                assert(strip_stars(seq![s[i]]) == seq![s[i]]) by {
                    let x = seq![s[i]];
                    assert(x.drop_first().len() == 0);
                    assert(strip_stars(x.drop_first()) == Seq::<char>::empty());
                    assert(strip_stars(x) == seq![s[i]] + Seq::<char>::empty());
                }
                assert(s.skip(i) == seq![s[i]] + s.skip(i + 1));
            },
        }
    }
}

/// Highlighting only adds `**` markers: with them removed, a highlighted
/// snippet that held no `*` of its own is the snippet again.
pub proof fn lemma_highlight_keeps_snippet(s: Seq<char>, lc: Seq<char>, toks: Seq<Seq<char>>)
    requires
        !s.contains('*'),
    ensures
        strip_stars(highlight_from(s, lc, toks, 0)) == s,
{
    lemma_highlight_only_marks(s, lc, toks, 0);
    assert(s.skip(0) =~= s);
}

/// The start of a text (see `head_preview`).
fn head_preview_exec(content: &Vec<char>, n: usize) -> (r: String)
    ensures
        r@ == head_preview(content@, n as int),
{
    let taken = if content.len() <= n {
        string_of_range(content, 0, content.len())
    } else {
        string_of_range(content, 0, n)
    };
    assert(content@.subrange(0, content@.len() as int) == content@);
    let mut r = String::new();
    push_str(&mut r, trim_str(taken.as_str()));
    if content.len() > n {
        push_str(&mut r, "...");
    } else {
        assert(r@ + seq![] == r@);
    }
    r
}

/// Wraps in `**` each match of a token in a snippet, given the snippet's
/// lowercase form (see `highlight_from`).
pub fn highlight_matches(snippet: &str, lower_snippet: &str, toks: &Vec<String>) -> (r: String)
    ensures
        r@ == highlight_from(snippet@, lower_snippet@, string_views(toks@), 0),
{
    let lc = chars_of(lower_snippet);
    let chars = chars_of(snippet);
    let ghost s = snippet@;
    let ghost lcv = lower_snippet@;
    let ghost tv = string_views(toks@);
    let mut tcs: Vec<Vec<char>> = Vec::new();
    let mut k: usize = 0;
    while k < toks.len()
        invariant
            k <= toks@.len(),
            tv == string_views(toks@),
            tcs@.len() == k,
            forall|q: int| 0 <= q < k ==> (#[trigger] tcs@[q])@ == tv[q],
        decreases toks@.len() - k,
    {
        tcs.push(chars_of(toks[k].as_str()));
        k = k + 1;
    }
    let mut out = String::new();
    let mut i: usize = 0;
    while i < chars.len()
        invariant
            s == snippet@,
            chars@ == s,
            lc@ == lcv,
            tv == string_views(toks@),
            tcs@.len() == tv.len(),
            forall|q: int| 0 <= q < tcs@.len() ==> (#[trigger] tcs@[q])@ == tv[q],
            i <= chars@.len(),
            out@ + highlight_from(s, lcv, tv, i as int) == highlight_from(s, lcv, tv, 0),
        decreases chars@.len() - i,
    {
        // The first token that matches at `i` on word boundaries.
        let mut found: Option<usize> = None;
        let mut j: usize = 0;
        while j < tcs.len()
            invariant_except_break
                chars@ == s,
                lc@ == lcv,
                tcs@.len() == tv.len(),
                forall|q: int| 0 <= q < tcs@.len() ==> (#[trigger] tcs@[q])@ == tv[q],
                i < chars@.len(),
                j <= tcs@.len(),
                found is None,
                match_end(s, lcv, tv, i as int, 0) == match_end(s, lcv, tv, i as int, j as int),
            ensures
                match found {
                    Some(e) => match_end(s, lcv, tv, i as int, 0) == Some(e as int),
                    None => match_end(s, lcv, tv, i as int, 0) is None,
                },
            decreases tcs@.len() - j,
        {
            let t = &tcs[j];
            assert(t@ == tv[j as int]);
            if t.len() > 0 && i <= lc.len() && t.len() <= lc.len() - i && t.len() <= chars.len() - i {
                let e = i + t.len();
                if chars_match_at(&lc, i, t) {
                    let start_ok = i == 0 || !is_alphanumeric_char(chars[i - 1]);
                    let end_ok = e >= chars.len() || !is_alphanumeric_char(chars[e]);
                    if start_ok && end_ok {
                        assert(match_end(s, lcv, tv, i as int, j as int) == Some(e as int));
                        found = Some(e);
                        break;
                    }
                }
            }
            j = j + 1;
        }
        proof {
            lemma_match_end(s, lcv, tv, i as int, 0);
        }
        match found {
            Some(e) => {
                let ghost before = out@;
                push_str(&mut out, "**");
                push_chars(&mut out, &chars, i, e);
                push_str(&mut out, "**");
                assert(out@ + highlight_from(s, lcv, tv, e as int) == before + highlight_from(
                    s,
                    lcv,
                    tv,
                    i as int,
                ));
                i = e;
            },
            None => {
                let ghost before = out@;
                let ghost rest = highlight_from(s, lcv, tv, i + 1);
                assert(highlight_from(s, lcv, tv, i as int) == seq![s[i as int]] + rest);
                crate::text::strings::push_char(&mut out, chars[i]);
                assert(out@ + rest =~= before + (seq![s[i as int]] + rest));
                i = i + 1;
            },
        }
    }
    assert(out@ + seq![] == out@);
    out
}

/// Wraps the token matches of a snippet in `**`.
fn highlight(snippet: &str, toks: &Vec<String>) -> (r: String)
    ensures
        r@ == highlight_from(snippet@, lowercase_text(snippet@), string_views(toks@), 0),
{
    let lower = to_lowercase(snippet);
    highlight_matches(snippet, lower.as_str(), toks)
}

/// The characters of `cv` within `w / 2` of position `pos` (see `window_text`).
fn extract_window(cv: &Vec<char>, pos: usize, w: usize) -> (r: String)
    ensures
        r@ == window_text(cv@, pos as int, w as int),
{
    let len = cv.len();
    let half = w / 2;
    let s0 = if pos >= half {
        pos - half
    } else {
        0
    };
    let start = if s0 > len {
        len
    } else {
        s0
    };
    let end = if pos <= usize::MAX - half && pos + half <= len {
        pos + half
    } else {
        len
    };
    let mut snip = String::new();
    if start > 0 {
        push_str(&mut snip, "...");
    } else {
        assert(snip@ == Seq::<char>::empty());
    }
    push_chars(&mut snip, cv, start, end);
    let ghost mid = snip@;
    if end < len {
        push_str(&mut snip, "...");
    } else {
        assert(snip@ == mid + Seq::<char>::empty());
    }
    snip
}

/// The tokens a snippet looks for: the query's tokens longer than one byte
/// (see `long_tokens`).
pub fn snippet_tokens(query_tokens: &Vec<String>) -> (r: Vec<String>)
    ensures
        string_views(r@) == long_tokens(string_views(query_tokens@)),
{
    let ghost av = string_views(query_tokens@);
    let mut toks: Vec<String> = Vec::new();
    let mut k: usize = 0;
    while k < query_tokens.len()
        invariant
            k <= query_tokens@.len(),
            av == string_views(query_tokens@),
            string_views(toks@) == long_tokens(av.take(k as int)),
        decreases query_tokens@.len() - k,
    {
        assert(av.take(k + 1).drop_last() == av.take(k as int));
        let t = query_tokens[k].as_str();
        if t.as_bytes().len() > 1 {
            let ghost before = string_views(toks@);
            toks.push(owned(t));
            assert(string_views(toks@) == before.push(t@));
        }
        k = k + 1;
    }
    assert(av.take(query_tokens@.len() as int) == av);
    toks
}

/// The window of `w` characters around the first match of a token in the
/// content, given the content's lowercase form; `None` where no token occurs
/// there (see `best_offset` and `window_text`).
pub fn first_match_window(content: &str, lower_content: &str, toks: &Vec<String>, w: usize) -> (r:
    Option<String>)
    ensures
        match best_offset(lower_content@, string_views(toks@)) {
            None => r is None,
            Some(pos) => r matches Some(snip) && snip@ == window_text(content@, pos, w as int),
        },
{
    let ghost tv = string_views(toks@);
    let lv = chars_of(lower_content);
    let mut best: Option<usize> = None;
    let mut j: usize = 0;
    while j < toks.len()
        invariant
            j <= toks@.len(),
            tv == string_views(toks@),
            lv@ == lower_content@,
            best matches Some(b) ==> best_offset(lv@, tv.take(j as int)) == Some(b as int),
            best is None ==> best_offset(lv@, tv.take(j as int)) is None,
        decreases toks@.len() - j,
    {
        assert(tv.take(j + 1).drop_last() == tv.take(j as int));
        let tc = chars_of(toks[j].as_str());
        match find_from(&lv, &tc, 0) {
            Some(pos) => {
                best = match best {
                    Some(old) => Some(
                        if old <= pos {
                            old
                        } else {
                            pos
                        },
                    ),
                    None => Some(pos),
                };
            },
            None => {},
        }
        j = j + 1;
    }
    assert(tv.take(toks@.len() as int) == tv);
    match best {
        None => None,
        Some(pos) => {
            let cv = chars_of(content);
            Some(extract_window(&cv, pos, w))
        },
    }
}

/// Builds a snippet of `content` around the first match of the query's
/// tokens, with the matches wrapped in `**` (see `snippet_spec`); a window of
/// 0 means `SNIPPET_WINDOW`.
pub fn generate_snippet(content: &str, query: &str, window: usize) -> (r: String)
    ensures
        r@ == snippet_spec(content@, query@, window as int),
{
    let w = if window == 0 {
        SNIPPET_WINDOW
    } else {
        window
    };
    let toks = snippet_tokens(&tokenize(query));
    let cv = chars_of(content);
    let clen = cv.len();
    // Twice the window, or every character where that would overflow.
    let n = if w > usize::MAX / 2 {
        usize::MAX
    } else {
        w * 2
    };
    assert(head_preview(cv@, n as int) == head_preview(cv@, w * 2)) by {
        assert(cv@.len() == clen);
    }
    if toks.len() == 0 {
        return head_preview_exec(&cv, n);
    }
    let lower = to_lowercase(content);
    match first_match_window(content, lower.as_str(), &toks, w) {
        None => head_preview_exec(&cv, n),
        Some(snip) => highlight(snip.as_str(), &toks),
    }
}

} // verus!
