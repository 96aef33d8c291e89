use unicode_segmentation::UnicodeSegmentation;
use vstd::prelude::*;
use vstd::utf8::encode_utf8;
use crate::text::strings::{
    alphabetic, contains_seq, is_alphabetic_char, lowercase_text, occurs_at, owned, str_eq,
    string_views, to_lowercase, trim_end_view, trim_start_view, trim_str, trim_view, white_space,
};

verus! {

/// The pieces of a text between UAX#29 word boundaries, as
/// `UnicodeSegmentation::split_word_bounds` yields them.
pub uninterp spec fn word_bounds(s: Seq<char>) -> Seq<Seq<char>>;

/// The pieces joined together.
pub open spec fn joined(ps: Seq<Seq<char>>) -> Seq<char>
    decreases ps.len(),
{
    if ps.len() == 0 {
        seq![]
    } else {
        joined(ps.drop_last()) + ps.last()
    }
}

/// Wrapper of `UnicodeSegmentation::split_word_bounds`; the pieces are taken
/// by name, and, as its documentation states, they join up to the text.
#[verifier::external_body]
fn split_word_bounds(s: &str) -> (r: Vec<String>)
    ensures
        string_views(r@) == word_bounds(s@),
        joined(string_views(r@)) == s@,
{
    s.split_word_bounds().map(|w| w.to_string()).collect()
}

/// The English stopwords that search ignores.
pub open spec fn stopword(w: Seq<char>) -> bool {
    ||| w == "the"@ ||| w == "a"@ ||| w == "an"@ ||| w == "is"@ ||| w == "are"@ ||| w == "was"@ ||| w == "were"@ ||| w == "be"@ ||| w == "been"@ ||| w == "being"@ ||| w == "have"@ ||| w == "has"@ ||| w == "had"@ ||| w == "do"@ ||| w == "does"@ ||| w == "did"@ ||| w == "will"@ ||| w == "would"@ ||| w == "could"@ ||| w == "should"@ ||| w == "may"@ ||| w == "might"@ ||| w == "can"@ ||| w == "shall"@ ||| w == "to"@ ||| w == "of"@ ||| w == "in"@ ||| w == "for"@ ||| w == "on"@ ||| w == "with"@ ||| w == "at"@ ||| w == "by"@ ||| w == "from"@ ||| w == "as"@ ||| w == "into"@ ||| w == "through"@ ||| w == "during"@ ||| w == "before"@ ||| w == "after"@ ||| w == "above"@ ||| w == "below"@ ||| w == "between"@ ||| w == "out"@ ||| w == "off"@ ||| w == "over"@ ||| w == "under"@ ||| w == "again"@ ||| w == "further"@ ||| w == "then"@ ||| w == "once"@ ||| w == "here"@ ||| w == "there"@ ||| w == "when"@ ||| w == "where"@ ||| w == "why"@ ||| w == "how"@ ||| w == "all"@ ||| w == "each"@ ||| w == "every"@ ||| w == "both"@ ||| w == "few"@ ||| w == "more"@ ||| w == "most"@ ||| w == "other"@ ||| w == "some"@ ||| w == "such"@ ||| w == "no"@ ||| w == "not"@ ||| w == "only"@ ||| w == "own"@ ||| w == "same"@ ||| w == "so"@ ||| w == "than"@ ||| w == "too"@ ||| w == "very"@ ||| w == "just"@ ||| w == "about"@ ||| w == "up"@ ||| w == "it"@ ||| w == "its"@ ||| w == "and"@ ||| w == "but"@ ||| w == "or"@ ||| w == "nor"@ ||| w == "because"@ ||| w == "if"@ ||| w == "that"@ ||| w == "this"@ ||| w == "which"@ ||| w == "what"@ ||| w == "who"@ ||| w == "whom"@ ||| w == "whose"@ ||| w == "me"@ ||| w == "my"@ ||| w == "we"@ ||| w == "our"@ ||| w == "you"@ ||| w == "your"@ ||| w == "he"@ ||| w == "his"@ ||| w == "she"@ ||| w == "her"@ ||| w == "they"@ ||| w == "their"@ ||| w == "them"@
}

/// Whether a word is one of the stopwords.
pub fn is_stopword(word: &str) -> (r: bool)
    ensures
        r == stopword(word@),
{
    str_eq(word, "the") || str_eq(word, "a") || str_eq(word, "an") || str_eq(word, "is") || str_eq(word, "are") || str_eq(word, "was") || str_eq(word, "were") || str_eq(word, "be") || str_eq(word, "been") || str_eq(word, "being") || str_eq(word, "have") || str_eq(word, "has") || str_eq(word, "had") || str_eq(word, "do") || str_eq(word, "does") || str_eq(word, "did") || str_eq(word, "will") || str_eq(word, "would") || str_eq(word, "could") || str_eq(word, "should") || str_eq(word, "may") || str_eq(word, "might") || str_eq(word, "can") || str_eq(word, "shall") || str_eq(word, "to") || str_eq(word, "of") || str_eq(word, "in") || str_eq(word, "for") || str_eq(word, "on") || str_eq(word, "with") || str_eq(word, "at") || str_eq(word, "by") || str_eq(word, "from") || str_eq(word, "as") || str_eq(word, "into") || str_eq(word, "through") || str_eq(word, "during") || str_eq(word, "before") || str_eq(word, "after") || str_eq(word, "above") || str_eq(word, "below") || str_eq(word, "between") || str_eq(word, "out") || str_eq(word, "off") || str_eq(word, "over") || str_eq(word, "under") || str_eq(word, "again") || str_eq(word, "further") || str_eq(word, "then") || str_eq(word, "once") || str_eq(word, "here") || str_eq(word, "there") || str_eq(word, "when") || str_eq(word, "where") || str_eq(word, "why") || str_eq(word, "how") || str_eq(word, "all") || str_eq(word, "each") || str_eq(word, "every") || str_eq(word, "both") || str_eq(word, "few") || str_eq(word, "more") || str_eq(word, "most") || str_eq(word, "other") || str_eq(word, "some") || str_eq(word, "such") || str_eq(word, "no") || str_eq(word, "not") || str_eq(word, "only") || str_eq(word, "own") || str_eq(word, "same") || str_eq(word, "so") || str_eq(word, "than") || str_eq(word, "too") || str_eq(word, "very") || str_eq(word, "just") || str_eq(word, "about") || str_eq(word, "up") || str_eq(word, "it") || str_eq(word, "its") || str_eq(word, "and") || str_eq(word, "but") || str_eq(word, "or") || str_eq(word, "nor") || str_eq(word, "because") || str_eq(word, "if") || str_eq(word, "that") || str_eq(word, "this") || str_eq(word, "which") || str_eq(word, "what") || str_eq(word, "who") || str_eq(word, "whom") || str_eq(word, "whose") || str_eq(word, "me") || str_eq(word, "my") || str_eq(word, "we") || str_eq(word, "our") || str_eq(word, "you") || str_eq(word, "your") || str_eq(word, "he") || str_eq(word, "his") || str_eq(word, "she") || str_eq(word, "her") || str_eq(word, "they") || str_eq(word, "their") || str_eq(word, "them")
}

/// A trimmed word is kept as a token: it is non-empty, longer than one byte
/// in UTF-8, holds an alphabetic character, and (when stopwords are dropped)
/// is not a stopword.
pub open spec fn keep_token(t: Seq<char>, drop_stopwords: bool) -> bool {
    &&& t.len() > 0
    &&& encode_utf8(t).len() > 1
    &&& exists|i: int| 0 <= i < t.len() && alphabetic(#[trigger] t[i])
    &&& drop_stopwords ==> !stopword(t)
}

/// The tokens of a sequence of word pieces: each piece trimmed, and kept when `keep_token` holds.
pub open spec fn tokens_of(words: Seq<Seq<char>>, drop_stopwords: bool) -> Seq<Seq<char>>
    decreases words.len(),
{
    if words.len() == 0 {
        seq![]
    } else {
        let rest = tokens_of(words.drop_last(), drop_stopwords);
        let t = trim_view(words.last());
        if keep_token(t, drop_stopwords) {
            rest.push(t)
        } else {
            rest
        }
    }
}

/// The tokens of a text: its lowercase form split on word boundaries, then filtered.
pub open spec fn tokenize_spec(text: Seq<char>, drop_stopwords: bool) -> Seq<Seq<char>> {
    tokens_of(word_bounds(lowercase_text(text)), drop_stopwords)
}

/// Whether a text holds an alphabetic character.
fn has_alphabetic(s: &str) -> (r: bool)
    ensures
        r == exists|i: int| 0 <= i < s@.len() && alphabetic(#[trigger] s@[i]),
{
    let mut found = false;
    for c in it: s.chars()
        invariant
            it.seq() == s@,
            found == exists|i: int| 0 <= i < it.index() && alphabetic(#[trigger] s@[i]),
    {
        let a = is_alphabetic_char(c);
        proof {
            if a {
                assert(alphabetic(s@[it.index() as int]));
            }
        }
        found = found || a;
    }
    found
}

/// The tokens of a sequence of word pieces (see `tokens_of`): each piece
/// trimmed, and kept when `keep_token` holds.
pub fn tokens_from_pieces(pieces: &Vec<String>, drop_stopwords: bool) -> (r: Vec<String>)
    ensures
        string_views(r@) == tokens_of(string_views(pieces@), drop_stopwords),
{
    let ghost ws = string_views(pieces@);
    let mut out: Vec<String> = Vec::new();
    let mut i: usize = 0;
    while i < pieces.len()
        invariant
            i <= pieces@.len(),
            string_views(pieces@) == ws,
            string_views(out@) == tokens_of(ws.take(i as int), drop_stopwords),
        decreases pieces@.len() - i,
    {
        let t = trim_str(pieces[i].as_str());
        assert(pieces@[i as int]@ == ws[i as int]);
        let keep = !t.is_empty() && t.as_bytes().len() > 1 && has_alphabetic(t) && !(drop_stopwords && is_stopword(t));
        assert(ws.take(i + 1).drop_last() == ws.take(i as int));
        assert(ws.take(i + 1).last() == ws[i as int]);
        if keep {
            out.push(owned(t));
        }
        proof {
            assert(keep == keep_token(t@, drop_stopwords));
        }
        assert(string_views(out@) == tokens_of(ws.take(i + 1), drop_stopwords));
        i = i + 1;
    }
    assert(ws.take(pieces@.len() as int) == ws);
    out
}

fn tokenize_impl(text: &str, drop_stopwords: bool) -> (r: Vec<String>)
    ensures
        string_views(r@) == tokenize_spec(text@, drop_stopwords),
        forall|i: int|
            0 <= i < r@.len() ==> token_shape(#[trigger] r@[i]@, lowercase_text(text@), drop_stopwords),
{
    let lower = to_lowercase(text);
    let words = split_word_bounds(lower.as_str());
    let ghost ws = string_views(words@);
    let out = tokens_from_pieces(&words, drop_stopwords);
    proof {
        lemma_tokens_of(ws, drop_stopwords);
        let lw = lowercase_text(text@);
        assert forall|i: int| 0 <= i < out@.len() implies token_shape(
            #[trigger] out@[i]@,
            lw,
            drop_stopwords,
        ) by {
            let t = out@[i]@;
            assert(string_views(out@)[i] == t);
            let j = choose|j: int| 0 <= j < ws.len() && t == trim_view(#[trigger] ws[j]);
            lemma_piece_in_joined(ws, j);
            let k = choose|k: int| occurs_at(joined(ws), ws[j], k);
            lemma_trim_view_subrange(ws[j]);
            let (a, b) = choose|a: int, b: int|
                0 <= a <= b <= ws[j].len() && trim_view(ws[j]) == ws[j].subrange(a, b);
            assert(occurs_at(lw, t, k + a)) by {
                assert(lw.subrange(k + a, k + a + t.len()) =~= ws[j].subrange(a, b));
            }
            lemma_trim_view_idempotent(ws[j]);
        }
    }
    out
}

/// What every token is: kept by `keep_token`, without surrounding white
/// space, and a piece of the lowercase text.
pub open spec fn token_shape(t: Seq<char>, lower: Seq<char>, drop_stopwords: bool) -> bool {
    &&& keep_token(t, drop_stopwords)
    &&& trim_view(t) == t
    &&& contains_seq(lower, t)
}

/// Every token is a trimmed piece that `keep_token` keeps.
proof fn lemma_tokens_of(words: Seq<Seq<char>>, d: bool)
    ensures
        forall|i: int|
            0 <= i < tokens_of(words, d).len() ==> keep_token(#[trigger] tokens_of(words, d)[i], d)
                && exists|j: int| 0 <= j < words.len() && tokens_of(words, d)[i] == trim_view(
                #[trigger] words[j],
            ),
    decreases words.len(),
{
    if words.len() > 0 {
        let init = words.drop_last();
        lemma_tokens_of(init, d);
        let rest = tokens_of(init, d);
        let r = tokens_of(words, d);
        assert forall|i: int| 0 <= i < r.len() implies keep_token(#[trigger] r[i], d) && exists|j: int|
            0 <= j < words.len() && r[i] == trim_view(#[trigger] words[j]) by {
            if i < rest.len() {
                assert(r[i] == rest[i]);
                let j = choose|j: int| 0 <= j < init.len() && rest[i] == trim_view(#[trigger] init[j]);
                assert(init[j] == words[j]);
            } else {
                assert(r[i] == trim_view(words.last()));
                assert(words[words.len() - 1] == words.last());
            }
        }
    }
}

/// Each piece lies in the joined pieces.
proof fn lemma_piece_in_joined(ps: Seq<Seq<char>>, j: int)
    requires
        0 <= j < ps.len(),
    ensures
        exists|k: int| occurs_at(joined(ps), ps[j], k),
    decreases ps.len(),
{
    let init = ps.drop_last();
    if j == ps.len() - 1 {
        let k = joined(init).len() as int;
        assert(joined(ps).subrange(k, k + ps[j].len()) =~= ps[j]);
        assert(occurs_at(joined(ps), ps[j], k));
    } else {
        lemma_piece_in_joined(init, j);
        let k = choose|k: int| occurs_at(joined(init), init[j], k);
        assert(init[j] == ps[j]);
        assert(joined(ps).subrange(k, k + ps[j].len()) =~= joined(init).subrange(k, k + ps[j].len()));
        assert(occurs_at(joined(ps), ps[j], k));
    }
}

/// Dropping leading white space leaves a suffix that does not start with white space.
proof fn lemma_trim_start_suffix(x: Seq<char>)
    ensures
        exists|a: int| 0 <= a <= x.len() && trim_start_view(x) == x.skip(a),
        trim_start_view(x).len() > 0 ==> !white_space(trim_start_view(x)[0]),
    decreases x.len(),
{
    if x.len() > 0 && white_space(x[0]) {
        lemma_trim_start_suffix(x.drop_first());
        let a = choose|a: int| 0 <= a <= x.drop_first().len() && trim_start_view(x.drop_first())
            == x.drop_first().skip(a);
        assert(x.drop_first().skip(a) =~= x.skip(a + 1));
    } else {
        assert(x.skip(0) =~= x);
    }
}

/// Dropping trailing white space leaves a prefix that does not end with white space.
proof fn lemma_trim_end_prefix(x: Seq<char>)
    ensures
        exists|b: int| 0 <= b <= x.len() && trim_end_view(x) == x.take(b),
        trim_end_view(x).len() > 0 ==> !white_space(trim_end_view(x).last()),
    decreases x.len(),
{
    if x.len() > 0 && white_space(x.last()) {
        lemma_trim_end_prefix(x.drop_last());
        let b = choose|b: int| 0 <= b <= x.drop_last().len() && trim_end_view(x.drop_last())
            == x.drop_last().take(b);
        assert(x.drop_last().take(b) =~= x.take(b));
    } else {
        assert(x.take(x.len() as int) =~= x);
    }
}

/// Trimming keeps a stretch of the text.
proof fn lemma_trim_view_subrange(x: Seq<char>)
    ensures
        exists|a: int, b: int| 0 <= a <= b <= x.len() && trim_view(x) == x.subrange(a, b),
{
    lemma_trim_start_suffix(x);
    let a = choose|a: int| 0 <= a <= x.len() && trim_start_view(x) == x.skip(a);
    lemma_trim_end_prefix(x.skip(a));
    let b = choose|b: int| 0 <= b <= x.skip(a).len() && trim_end_view(x.skip(a)) == x.skip(a).take(b);
    assert(x.skip(a).take(b) =~= x.subrange(a, a + b));
}

/// Trimming a trimmed text changes nothing.
pub proof fn lemma_trim_view_idempotent(x: Seq<char>)
    ensures
        trim_view(trim_view(x)) == trim_view(x),
{
    let s = trim_start_view(x);
    let r = trim_view(x);
    lemma_trim_start_suffix(x);
    lemma_trim_end_prefix(s);
    let b = choose|b: int| 0 <= b <= s.len() && trim_end_view(s) == s.take(b);
    if r.len() > 0 {
        assert(r[0] == s[0]);
        assert(!white_space(r[0]));
        assert(trim_start_view(r) == r);
        assert(!white_space(r.last()));
        assert(trim_end_view(r) == r);
    } else {
        assert(trim_start_view(r) == r);
        assert(trim_end_view(r) == r);
    }
}

/// The tokens with the stopwords left out.
pub open spec fn without_stopwords(ts: Seq<Seq<char>>) -> Seq<Seq<char>>
    decreases ts.len(),
{
    if ts.len() == 0 {
        seq![]
    } else {
        let rest = without_stopwords(ts.drop_last());
        if stopword(ts.last()) {
            rest
        } else {
            rest.push(ts.last())
        }
    }
}

/// Dropping stopwords while tokenizing is tokenizing with them, then
/// leaving them out.
pub proof fn lemma_tokenize_drops_stopwords(text: Seq<char>)
    ensures
        tokenize_spec(text, true) == without_stopwords(tokenize_spec(text, false)),
{
    lemma_tokens_of_drops_stopwords(word_bounds(lowercase_text(text)));
}

proof fn lemma_tokens_of_drops_stopwords(words: Seq<Seq<char>>)
    ensures
        tokens_of(words, true) == without_stopwords(tokens_of(words, false)),
    decreases words.len(),
{
    if words.len() > 0 {
        lemma_tokens_of_drops_stopwords(words.drop_last());
        let t = trim_view(words.last());
        let kept = tokens_of(words.drop_last(), false);
        if keep_token(t, false) {
            assert(tokens_of(words, false) == kept.push(t));
            assert(kept.push(t).drop_last() =~= kept);
        }
    }
}

/// Splits a text into lowercase word tokens, dropping stopwords.
pub fn tokenize(text: &str) -> (r: Vec<String>)
    ensures
        string_views(r@) == tokenize_spec(text@, true),
        forall|i: int| 0 <= i < r@.len() ==> token_shape(#[trigger] r@[i]@, lowercase_text(text@), true),
{
    tokenize_impl(text, true)
}

/// Splits a text into lowercase word tokens, keeping stopwords.
pub fn tokenize_keep_stopwords(text: &str) -> (r: Vec<String>)
    ensures
        string_views(r@) == tokenize_spec(text@, false),
        forall|i: int|
            0 <= i < r@.len() ==> token_shape(#[trigger] r@[i]@, lowercase_text(text@), false),
{
    tokenize_impl(text, false)
}

} // verus!
