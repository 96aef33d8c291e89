use vstd::prelude::*;
use crate::text::strings::{
    is_whitespace_char, push_char, trim_end_view, trim_start_view, trim_view, white_space,
};

verus! {

/// The maximal runs of non-white-space characters of `s`, in order
/// (what `str::split_whitespace` yields).
pub open spec fn ws_words(s: Seq<char>) -> Seq<Seq<char>>
    decreases s.len(),
{
    if s.len() == 0 {
        seq![]
    } else {
        let w = ws_words(s.drop_last());
        let c = s.last();
        if white_space(c) {
            w
        } else if s.len() >= 2 && !white_space(s[s.len() - 2]) {
            w.update(w.len() - 1, w.last().push(c))
        } else {
            w.push(seq![c])
        }
    }
}

/// A word with each double quote doubled.
pub open spec fn double_quotes(w: Seq<char>) -> Seq<char>
    decreases w.len(),
{
    if w.len() == 0 {
        seq![]
    } else {
        double_quotes(w.drop_last()) + if w.last() == '"' {
            seq!['"', '"']
        } else {
            seq![w.last()]
        }
    }
}

/// A word as an FTS5 string: its quotes doubled, wrapped in double quotes.
pub open spec fn quote_word(w: Seq<char>) -> Seq<char> {
    seq!['"'] + double_quotes(w) + seq!['"']
}

/// The quoted words joined by single spaces.
pub open spec fn join_quoted(ws: Seq<Seq<char>>) -> Seq<char>
    decreases ws.len(),
{
    if ws.len() == 0 {
        seq![]
    } else if ws.len() == 1 {
        quote_word(ws[0])
    } else {
        join_quoted(ws.drop_last()) + seq![' '] + quote_word(ws.last())
    }
}

/// The FTS5 query for a user query: every white-space separated word
/// quoted (inner quotes doubled), the quoted words joined by spaces.
pub open spec fn escape_fts5_spec(query: Seq<char>) -> Seq<char> {
    join_quoted(ws_words(query))
}

/// Appends `quote_word(w)` to `out`.
fn push_quoted(out: &mut String, w: &Vec<char>)
    ensures
        final(out)@ == old(out)@ + quote_word(w@),
{
    push_char(out, '"');
    let ghost start = out@;
    let mut i: usize = 0;
    while i < w.len()
        invariant
            i <= w@.len(),
            out@ == start + double_quotes(w@.take(i as int)),
        decreases w@.len() - i,
    {
        let c = w[i];
        if c == '"' {
            push_char(out, '"');
            push_char(out, '"');
        } else {
            push_char(out, c);
        }
        assert(w@.take(i + 1).drop_last() == w@.take(i as int));
        i = i + 1;
    }
    assert(w@.take(w@.len() as int) == w@);
    push_char(out, '"');
}

/// Builds the FTS5 query for a user query: each white-space separated word is
/// wrapped in double quotes (inner quotes doubled) and the words are joined by
/// single spaces; a blank query gives the empty string.
pub fn escape_fts5_query(query: &str) -> (r: String)
    ensures
        r@ == escape_fts5_spec(query@),
{
    // Split into words.
    let mut words: Vec<Vec<char>> = Vec::new();
    let mut current: Vec<char> = Vec::new();
    let mut in_word = false;
    for c in it: query.chars()
        invariant
            it.seq() == query@,
            in_word == (it.index() > 0 && !white_space(query@[it.index() - 1])),
            ws_words(query@.take(it.index() as int)) == if in_word {
                words@.map_values(|w: Vec<char>| w@).push(current@)
            } else {
                words@.map_values(|w: Vec<char>| w@)
            },
    {
        let ghost i = it.index() as int;
        let ghost pre = query@.take(i);
        let ghost now = query@.take(i + 1);
        assert(now.drop_last() == pre);
        assert(now.last() == c);
        let ws = is_whitespace_char(c);
        if ws {
            if in_word {
                words.push(current);
                current = Vec::new();
                in_word = false;
            }
        } else {
            if in_word {
                assert(now[now.len() - 2] == query@[i - 1]);
                current.push(c);
            } else {
                current = Vec::new();
                current.push(c);
                in_word = true;
            }
        }
        assert(words@.map_values(|w: Vec<char>| w@).push(current@).drop_last()
            == words@.map_values(|w: Vec<char>| w@));
    }
    if in_word {
        words.push(current);
    }
    assert(query@.take(query@.len() as int) == query@);
    let ghost all = words@.map_values(|w: Vec<char>| w@);
    assert(all == ws_words(query@));
    // Join the quoted words.
    let mut out = String::new();
    let mut j: usize = 0;
    while j < words.len()
        invariant
            j <= words@.len(),
            all == words@.map_values(|w: Vec<char>| w@),
            out@ == join_quoted(all.take(j as int)),
        decreases words@.len() - j,
    {
        if j > 0 {
            push_char(&mut out, ' ');
        }
        push_quoted(&mut out, &words[j]);
        assert(all.take(j + 1).drop_last() == all.take(j as int));
        j = j + 1;
    }
    assert(all.take(words@.len() as int) == all);
    out
}


/// A text is blank when all its characters are white space.
pub open spec fn blank(s: Seq<char>) -> bool {
    forall|i: int| 0 <= i < s.len() ==> white_space(#[trigger] s[i])
}

/// A text has words exactly when it is not blank.
proof fn lemma_ws_words_empty(s: Seq<char>)
    ensures
        ws_words(s).len() == 0 <==> blank(s),
    decreases s.len(),
{
    if s.len() > 0 {
        let t = s.drop_last();
        lemma_ws_words_empty(t);
        assert(blank(s) <==> (blank(t) && white_space(s.last()))) by {
            if blank(t) && white_space(s.last()) {
                assert forall|i: int| 0 <= i < s.len() implies white_space(#[trigger] s[i]) by {
                    if i < t.len() {
                        assert(t[i] == s[i]);
                    }
                }
            }
            if blank(s) {
                assert forall|i: int| 0 <= i < t.len() implies white_space(#[trigger] t[i]) by {
                    assert(t[i] == s[i]);
                }
                assert(white_space(s[s.len() - 1]));
            }
        }
        if !white_space(s.last()) && s.len() >= 2 && !white_space(s[s.len() - 2]) {
            assert(!blank(t)) by {
                assert(t[t.len() - 1] == s[s.len() - 2]);
            }
        }
    }
}

/// Joining quoted words gives empty text exactly when there are no words.
proof fn lemma_join_quoted_empty(ws: Seq<Seq<char>>)
    ensures
        join_quoted(ws).len() == 0 <==> ws.len() == 0,
    decreases ws.len(),
{
}

/// Dropping leading white space leaves nothing exactly for a blank text,
/// and otherwise starts at a character that is not white space.
proof fn lemma_trim_start_blank(s: Seq<char>)
    ensures
        trim_start_view(s).len() == 0 <==> blank(s),
        trim_start_view(s).len() > 0 ==> !white_space(trim_start_view(s)[0]),
    decreases s.len(),
{
    if s.len() > 0 && white_space(s[0]) {
        let t = s.drop_first();
        lemma_trim_start_blank(t);
        assert(blank(s) <==> blank(t)) by {
            if blank(t) {
                assert forall|i: int| 0 <= i < s.len() implies white_space(#[trigger] s[i]) by {
                    if i > 0 {
                        assert(t[i - 1] == s[i]);
                    }
                }
            }
            if blank(s) {
                assert forall|i: int| 0 <= i < t.len() implies white_space(#[trigger] t[i]) by {
                    assert(t[i] == s[i + 1]);
                }
            }
        }
    } else if s.len() > 0 {
        assert(!white_space(s[0]));
    }
}

/// Dropping trailing white space keeps a text that starts with a character
/// that is not white space.
proof fn lemma_trim_end_keeps(x: Seq<char>)
    requires
        x.len() > 0,
        !white_space(x[0]),
    ensures
        trim_end_view(x).len() > 0,
    decreases x.len(),
{
    if white_space(x.last()) {
        assert(x.len() > 1);
        assert(x.drop_last()[0] == x[0]);
        lemma_trim_end_keeps(x.drop_last());
    }
}

/// The escaped query is empty exactly when the query is blank.
pub proof fn lemma_escape_empty_iff_blank(query: Seq<char>)
    ensures
        escape_fts5_spec(query).len() == 0 <==> trim_view(query).len() == 0,
        escape_fts5_spec(query).len() == 0 <==> blank(query),
{
    lemma_ws_words_empty(query);
    lemma_join_quoted_empty(ws_words(query));
    lemma_trim_start_blank(query);
    if trim_start_view(query).len() > 0 {
        lemma_trim_end_keeps(trim_start_view(query));
    }
}

} // verus!
