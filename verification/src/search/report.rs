use vstd::prelude::*;
use crate::observer::prompt::{decimal, decimal_i64, decimal_string, signed_decimal};
use crate::search::smart::{mode_name, scope_name, SearchMode, SearchScope};
use crate::text::snippet::{generate_snippet, snippet_spec};
use crate::text::strings::{chars_of, owned, push_str, trim_str, trim_view};
use crate::types::Memory;

verus! {

/// What a search that found nothing answers.
pub fn no_results_message(mode: SearchMode, scope: SearchScope) -> (r: String)
    ensures
        r@ == "No results found in "@ + mode_name(mode) + " mode (scope="@ + scope_name(scope)
            + ")."@,
{
    let mut m = owned("No results found in ");
    push_str(&mut m, mode.as_str());
    push_str(&mut m, " mode (scope=");
    push_str(&mut m, scope.as_str());
    push_str(&mut m, ").");
    m
}

/// The lines that head a list of search results: mode, scope, number of
/// results, the note if there is one, and an empty line.
pub open spec fn header_text(mode: SearchMode, scope: SearchScope, count: nat, note: Option<Seq<char>>) -> Seq<
    char,
> {
    "Search mode: "@ + mode_name(mode) + "\nScope: "@ + scope_name(scope) + "\nResults: "@
        + decimal(count) + "\n"@ + match note {
        Some(n) => "Note: "@ + n + "\n"@,
        None => Seq::empty(),
    } + "\n"@
}

/// Writes the lines that head a list of search results.
pub fn results_header(mode: SearchMode, scope: SearchScope, count: usize, note: Option<&str>) -> (r:
    String)
    ensures
        r@ == header_text(
            mode,
            scope,
            count as nat,
            match note {
                Some(n) => Some(n@),
                None => None,
            },
        ),
{
    let mut m = owned("Search mode: ");
    push_str(&mut m, mode.as_str());
    push_str(&mut m, "\nScope: ");
    push_str(&mut m, scope.as_str());
    push_str(&mut m, "\nResults: ");
    push_str(&mut m, decimal_string(count as u64).as_str());
    push_str(&mut m, "\n");
    let ghost before_note = m@;
    match note {
        Some(n) => {
            push_str(&mut m, "Note: ");
            push_str(&mut m, n);
            push_str(&mut m, "\n");
        },
        None => {},
    }
    push_str(&mut m, "\n");
    proof {
        match note {
            Some(n) => {
                assert(m@ =~= before_note + ("Note: "@ + n@ + "\n"@) + "\n"@);
            },
            None => {
                assert(m@ =~= before_note + Seq::<char>::empty() + "\n"@);
            },
        }
    }
    m
}

/// The preview shown under a search result: its snippet, or, where the
/// snippet is blank, a snippet of its content around its title.
pub fn result_preview(snippet: &str, content: &str, title: &str) -> (r: String)
    ensures
        r@ == if trim_view(snippet@).len() != 0 {
            snippet@
        } else {
            snippet_spec(content@, title@, 0)
        },
{
    if chars_of(trim_str(snippet)).len() == 0 {
        generate_snippet(content, title, 0)
    } else {
        owned(snippet)
    }
}

/// The session of a memory as lists show it: its id, or `-`.
pub open spec fn session_label(m: Memory) -> Seq<char> {
    match m.session_id {
        Some(s) => s@,
        None => "-"@,
    }
}

/// One memory as a list shows it.
pub open spec fn list_line_text(m: Memory) -> Seq<char> {
    "[ID:"@ + signed_decimal(m.id as int) + "] "@ + m.title@ + " [kind="@ + m.kind@ + "] [type="@
        + m.observation_type@ + "] | tags: "@ + m.tags@ + " | session: "@ + session_label(m)
}

/// Writes one memory as a list shows it.
pub fn memory_list_line(m: &Memory) -> (r: String)
    ensures
        r@ == list_line_text(*m),
{
    let mut s = owned("[ID:");
    push_str(&mut s, decimal_i64(m.id).as_str());
    push_str(&mut s, "] ");
    push_str(&mut s, m.title.as_str());
    push_str(&mut s, " [kind=");
    push_str(&mut s, m.kind.as_str());
    push_str(&mut s, "] [type=");
    push_str(&mut s, m.observation_type.as_str());
    push_str(&mut s, "] | tags: ");
    push_str(&mut s, m.tags.as_str());
    push_str(&mut s, " | session: ");
    match &m.session_id {
        Some(id) => push_str(&mut s, id.as_str()),
        None => push_str(&mut s, "-"),
    }
    s
}

/// The lines of a list of memories, each ended by a newline.
pub open spec fn list_lines(ms: Seq<Memory>) -> Seq<char>
    decreases ms.len(),
{
    if ms.len() == 0 {
        Seq::empty()
    } else {
        list_lines(ms.drop_last()) + list_line_text(ms.last()) + "\n"@
    }
}

/// Writes a list of memories, one per line, without surrounding white space.
pub fn memory_list_text(ms: &Vec<Memory>) -> (r: String)
    ensures
        r@ == trim_view(list_lines(ms@)),
{
    let mut out = String::new();
    let mut i: usize = 0;
    while i < ms.len()
        invariant
            i <= ms@.len(),
            out@ == list_lines(ms@.take(i as int)),
        decreases ms@.len() - i,
    {
        let line = memory_list_line(&ms[i]);
        push_str(&mut out, line.as_str());
        push_str(&mut out, "\n");
        proof {
            assert(ms@.take(i + 1).drop_last() =~= ms@.take(i as int));
            assert(ms@.take(i + 1).last() == ms@[i as int]);
        }
        i = i + 1;
    }
    assert(ms@.take(ms@.len() as int) =~= ms@);
    owned(trim_str(out.as_str()))
}

} // verus!
