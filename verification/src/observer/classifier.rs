use vstd::prelude::*;
use crate::observer::config::{
    valid_concept_ids, valid_type_ids, validate_concept, validate_concept_spec, validate_type,
    validate_type_spec, ObservationOutput,
};
use crate::text::tokenizer::lemma_trim_view_idempotent;
use crate::text::strings::{
    chars_of, find_from, first_occurrence, lemma_first_occurrence, lemma_first_occurrence_skip,
    lemma_first_occurrence_suffix, occurs_at, owned, push_str,
    str_contains, contains_seq, str_eq, string_of, string_of_range, string_views, trim_str,
    trim_view,
};

verus! {

/// `<tag>`.
pub open spec fn open_tag(tag: Seq<char>) -> Seq<char> {
    seq!['<'] + tag + seq!['>']
}

/// `</tag>`.
pub open spec fn close_tag(tag: Seq<char>) -> Seq<char> {
    seq!['<', '/'] + tag + seq!['>']
}

/// The span of the body of the first `<tag>` element at or after `from`: from
/// the end of the first `<tag>` to the first `</tag>` after it.
pub open spec fn tag_span(xml: Seq<char>, tag: Seq<char>, from: int) -> Option<(int, int)> {
    match first_occurrence(xml, open_tag(tag), from) {
        Some(s) => {
            let cs = s + open_tag(tag).len();
            match first_occurrence(xml, close_tag(tag), cs) {
                Some(e) => Some((cs, e)),
                None => None,
            }
        },
        None => None,
    }
}

/// The span found by `tag_span` lies inside the text, after `from`.
pub proof fn lemma_tag_span(xml: Seq<char>, tag: Seq<char>, from: int)
    requires
        0 <= from,
    ensures
        tag_span(xml, tag, from) matches Some((a, b)) ==> from + open_tag(tag).len() <= a <= b
            && b + close_tag(tag).len() <= xml.len(),
{
    lemma_first_occurrence(xml, open_tag(tag), from);
    if let Some(s) = first_occurrence(xml, open_tag(tag), from) {
        let cs = s + open_tag(tag).len();
        lemma_first_occurrence(xml, close_tag(tag), cs);
    }
}

/// The trimmed body of the first `<tag>` element, or empty when there is none.
pub open spec fn tag_content(xml: Seq<char>, tag: Seq<char>) -> Seq<char> {
    match tag_span(xml, tag, 0) {
        Some((a, b)) => trim_view(xml.subrange(a, b)),
        None => seq![],
    }
}

/// Text in front of a reply in which no `<tag>` starts leaves the reply's
/// `<tag>` content unchanged.
pub proof fn lemma_tag_content_suffix(a: Seq<char>, b: Seq<char>, tag: Seq<char>)
    requires
        forall|j: int| 0 <= j < a.len() ==> !occurs_at(a + b, open_tag(tag), j),
    ensures
        tag_content(a + b, tag) == tag_content(b, tag),
{
    let open = open_tag(tag);
    let close = close_tag(tag);
    lemma_first_occurrence_skip(a + b, open, 0, a.len() as int);
    lemma_first_occurrence_suffix(a, b, open, 0);
    lemma_first_occurrence(b, open, 0);
    lemma_tag_span(b, tag, 0);
    if let Some(s) = first_occurrence(b, open, 0) {
        lemma_first_occurrence_suffix(a, b, close, s + open.len());
        if let Some((x, y)) = tag_span(b, tag, 0) {
            assert((a + b).subrange(a.len() + x, a.len() + y) =~= b.subrange(x, y));
        }
    }
}

/// The `<tag>` content of a text whose first `<tag>` starts at `p` and whose
/// first `</tag>` after it starts at `c`.
pub proof fn lemma_tag_content_at(xml: Seq<char>, tag: Seq<char>, p: int, c: int)
    requires
        0 <= p,
        occurs_at(xml, open_tag(tag), p),
        forall|j: int| 0 <= j < p ==> !occurs_at(xml, open_tag(tag), j),
        p + open_tag(tag).len() <= c,
        occurs_at(xml, close_tag(tag), c),
        forall|j: int| p + open_tag(tag).len() <= j < c ==> !occurs_at(xml, close_tag(tag), j),
    ensures
        tag_content(xml, tag) == trim_view(xml.subrange(p + open_tag(tag).len(), c)),
{
    lemma_first_occurrence_skip(xml, open_tag(tag), 0, p);
    lemma_first_occurrence_skip(xml, close_tag(tag), p + open_tag(tag).len(), c);
}

/// The raw body of the first `<tag>` element, or empty when there is none.
pub open spec fn block_content(xml: Seq<char>, tag: Seq<char>) -> Seq<char> {
    match tag_span(xml, tag, 0) {
        Some((a, b)) => xml.subrange(a, b),
        None => seq![],
    }
}

/// The non-empty trimmed bodies of the successive `<tag>` elements from `from`
/// on; the scan stops at an element that is never closed.
pub open spec fn tag_contents_from(xml: Seq<char>, tag: Seq<char>, from: int) -> Seq<Seq<char>>
    decreases xml.len() + 1 - from,
{
    if from < 0 {
        seq![]
    } else {
        match tag_span(xml, tag, from) {
            Some((a, b)) => {
                proof {
                    lemma_tag_span(xml, tag, from);
                }
                let c = trim_view(xml.subrange(a, b));
                let rest = tag_contents_from(xml, tag, b + close_tag(tag).len());
                if c.len() > 0 {
                    seq![c] + rest
                } else {
                    rest
                }
            },
            None => seq![],
        }
    }
}

/// The non-empty trimmed bodies of all `<tag>` elements, in order.
pub open spec fn tag_contents(xml: Seq<char>, tag: Seq<char>) -> Seq<Seq<char>> {
    tag_contents_from(xml, tag, 0)
}

/// `<tag>` and `</tag>` as character vectors.
fn tag_pair(tag: &str) -> (r: (Vec<char>, Vec<char>))
    ensures
        r.0@ == open_tag(tag@),
        r.1@ == close_tag(tag@),
{
    let t = chars_of(tag);
    let mut open: Vec<char> = Vec::new();
    open.push('<');
    let mut close: Vec<char> = Vec::new();
    close.push('<');
    close.push('/');
    let mut i: usize = 0;
    while i < t.len()
        invariant
            i <= t@.len(),
            open@ == seq!['<'] + t@.take(i as int),
            close@ == seq!['<', '/'] + t@.take(i as int),
        decreases t@.len() - i,
    {
        open.push(t[i]);
        close.push(t[i]);
        assert(t@.take(i + 1) == t@.take(i as int).push(t@[i as int]));
        i = i + 1;
    }
    open.push('>');
    close.push('>');
    assert(t@.take(t@.len() as int) == t@);
    (open, close)
}

/// Finds the body span of the first `<tag>` element at or after `from`.
fn find_tag_span(xml: &Vec<char>, open: &Vec<char>, close: &Vec<char>, from: usize, Ghost(
    tag,
): Ghost<Seq<char>>) -> (r: Option<(usize, usize)>)
    requires
        open@ == open_tag(tag),
        close@ == close_tag(tag),
    ensures
        r matches Some((a, b)) ==> tag_span(xml@, tag, from as int) == Some((a as int, b as int)),
        r is None ==> tag_span(xml@, tag, from as int) is None,
{
    match find_from(xml, open, from) {
        Some(s) => {
            proof {
                lemma_first_occurrence(xml@, open@, from as int);
            }
            assert(s + open@.len() <= xml.len());
            let cs = s + open.len();
            match find_from(xml, close, cs) {
                Some(e) => Some((cs, e)),
                None => None,
            }
        },
        None => None,
    }
}

/// The trimmed body of the first `<tag>` element of `xml`, or empty when there is none.
fn extract_tag_content(xml: &str, tag: &str) -> (r: String)
    ensures
        r@ == tag_content(xml@, tag@),
{
    let x = chars_of(xml);
    let (open, close) = tag_pair(tag);
    match find_tag_span(&x, &open, &close, 0, Ghost(tag@)) {
        Some((a, b)) => {
            proof {
                lemma_tag_span(x@, tag@, 0);
            }
            let body = string_of_range(&x, a, b);
            owned(trim_str(body.as_str()))
        },
        None => String::new(),
    }
}

/// The non-empty trimmed bodies of all `<tag>` elements of `xml`, in order.
fn extract_all_tag_contents(xml: &str, tag: &str) -> (r: Vec<String>)
    ensures
        string_views(r@) == tag_contents(xml@, tag@),
{
    let x = chars_of(xml);
    let (open, close) = tag_pair(tag);
    let mut results: Vec<String> = Vec::new();
    let mut search_from: usize = 0;
    loop
        invariant
            x@ == xml@,
            open@ == open_tag(tag@),
            close@ == close_tag(tag@),
            search_from <= x@.len() + 1,
            string_views(results@) + tag_contents_from(x@, tag@, search_from as int)
                == tag_contents(xml@, tag@),
        decreases x@.len() + 1 - search_from,
    {
        proof {
            lemma_tag_span(x@, tag@, search_from as int);
        }
        match find_tag_span(&x, &open, &close, search_from, Ghost(tag@)) {
            Some((a, b)) => {
                let body = string_of_range(&x, a, b);
                let content = trim_str(body.as_str());
                assert(tag_span(x@, tag@, search_from as int) == Some((a as int, b as int)));
                assert(b + close@.len() <= x.len());
                let ghost rest = tag_contents_from(x@, tag@, b + close@.len());
                assert(tag_contents_from(x@, tag@, search_from as int) == if content@.len() > 0 {
                    seq![content@] + rest
                } else {
                    rest
                });
                if !content.is_empty() {
                    let ghost before = string_views(results@);
                    results.push(owned(content));
                    assert(string_views(results@) == before.push(content@));
                    assert(before.push(content@) + rest == before + (seq![content@] + rest));
                }
                search_from = b + close.len();
            },
            None => {
                assert(string_views(results@) + seq![] == string_views(results@));
                return results;
            },
        }
    }
}

/// The raw body of the first `<block_tag>` element of `xml`, or empty when there is none.
fn extract_block(xml: &str, block_tag: &str) -> (r: String)
    ensures
        r@ == block_content(xml@, block_tag@),
{
    let x = chars_of(xml);
    let (open, close) = tag_pair(block_tag);
    match find_tag_span(&x, &open, &close, 0, Ghost(block_tag@)) {
        Some((a, b)) => {
            proof {
                lemma_tag_span(x@, block_tag@, 0);
            }
            string_of_range(&x, a, b)
        },
        None => String::new(),
    }
}

/// The accepted concepts among proposed ones, in order.
pub open spec fn accepted_concepts(cs: Seq<Seq<char>>) -> Seq<Seq<char>>
    decreases cs.len(),
{
    if cs.len() == 0 {
        seq![]
    } else {
        let rest = accepted_concepts(cs.drop_last());
        match validate_concept_spec(cs.last()) {
            Some(c) => rest.push(c),
            None => rest,
        }
    }
}

/// The observation that an `<observation>` reply describes.
pub open spec fn observation_from_xml(xml: Seq<char>, o: ObservationOutput) -> bool {
    &&& o.observation_type@ == validate_type_spec(tag_content(xml, "type"@))
    &&& o.title@ == if tag_content(xml, "title"@).len() == 0 {
        "Observation"@
    } else {
        tag_content(xml, "title"@)
    }
    &&& o.subtitle@ == tag_content(xml, "subtitle"@)
    &&& o.narrative@ == tag_content(xml, "narrative"@)
    &&& string_views(o.facts@) == tag_contents(xml, "fact"@)
    &&& string_views(o.concepts@) == accepted_concepts(tag_contents(xml, "concept"@))
    &&& string_views(o.files_read@) == tag_contents(block_content(xml, "files_read"@), "file"@)
    &&& string_views(o.files_modified@) == tag_contents(
        block_content(xml, "files_modified"@),
        "file"@,
    )
}

/// Reads an observation from the XML reply of the classifier. Missing elements
/// give empty fields, an invalid type gives `change`, a missing title gives
/// `Observation`, and invalid concepts are dropped.
pub fn parse_observation_xml(xml: &str) -> (r: Option<ObservationOutput>)
    ensures
        r matches Some(o) && observation_from_xml(xml@, o),
{
    let obs_type_raw = extract_tag_content(xml, "type");
    let obs_type = owned(validate_type(obs_type_raw.as_str()));
    let title_raw = extract_tag_content(xml, "title");
    let title = if title_raw.as_str().is_empty() {
        owned("Observation")
    } else {
        title_raw
    };
    let subtitle = extract_tag_content(xml, "subtitle");
    let narrative = extract_tag_content(xml, "narrative");
    let facts = extract_all_tag_contents(xml, "fact");
    let raw_concepts = extract_all_tag_contents(xml, "concept");
    let ghost rc = string_views(raw_concepts@);
    let mut concepts: Vec<String> = Vec::new();
    let mut i: usize = 0;
    while i < raw_concepts.len()
        invariant
            i <= raw_concepts@.len(),
            rc == string_views(raw_concepts@),
            string_views(concepts@) == accepted_concepts(rc.take(i as int)),
        decreases raw_concepts@.len() - i,
    {
        assert(rc.take(i + 1).drop_last() == rc.take(i as int));
        match validate_concept(raw_concepts[i].as_str()) {
            Some(c) => {
                concepts.push(owned(c));
            },
            None => {},
        }
        i = i + 1;
    }
    assert(rc.take(raw_concepts@.len() as int) == rc);
    let files_read_block = extract_block(xml, "files_read");
    let files_read = extract_all_tag_contents(files_read_block.as_str(), "file");
    let files_modified_block = extract_block(xml, "files_modified");
    let files_modified = extract_all_tag_contents(files_modified_block.as_str(), "file");
    Some(
        ObservationOutput {
            observation_type: obs_type,
            title,
            subtitle,
            facts,
            narrative,
            concepts,
            files_read,
            files_modified,
        },
    )
}

/// The end-of-session summary read from the classifier's reply.
#[derive(Debug, Clone)]
pub struct SummaryOutput {
    pub request: String,
    pub investigated: String,
    pub learned: String,
    pub completed: String,
    pub next_steps: String,
    pub notes: String,
}

/// Reads a session summary from the XML reply of the classifier; missing
/// elements give empty fields.
pub fn parse_summary_xml(xml: &str) -> (r: Option<SummaryOutput>)
    ensures
        r matches Some(s) && {
            &&& s.request@ == tag_content(xml@, "request"@)
            &&& s.investigated@ == tag_content(xml@, "investigated"@)
            &&& s.learned@ == tag_content(xml@, "learned"@)
            &&& s.completed@ == tag_content(xml@, "completed"@)
            &&& s.next_steps@ == tag_content(xml@, "next_steps"@)
            &&& s.notes@ == tag_content(xml@, "notes"@)
        },
{
    Some(
        SummaryOutput {
            request: extract_tag_content(xml, "request"),
            investigated: extract_tag_content(xml, "investigated"),
            learned: extract_tag_content(xml, "learned"),
            completed: extract_tag_content(xml, "completed"),
            next_steps: extract_tag_content(xml, "next_steps"),
            notes: extract_tag_content(xml, "notes"),
        },
    )
}

/// A text shortened for display: trimmed, and when longer than `max_chars`
/// characters, its first `max_chars` characters followed by `...`.
pub open spec fn preview_spec(text: Seq<char>, max_chars: int) -> Seq<char> {
    let t = trim_view(text);
    if t.len() <= max_chars {
        t
    } else {
        t.take(max_chars) + "..."@
    }
}

/// Shortens a text for display (see `preview_spec`).
fn preview_text(text: &str, max_chars: usize) -> (r: String)
    ensures
        r@ == preview_spec(text@, max_chars as int),
{
    let t = chars_of(trim_str(text));
    if t.len() <= max_chars {
        string_of(&t)
    } else {
        let mut r = string_of_range(&t, 0, max_chars);
        push_str(&mut r, "...");
        r
    }
}

/// The type and title that the fallback classifier gives a tool execution.
pub open spec fn fallback_type_and_title(tool_name: Seq<char>, tool_input: Seq<char>) -> (
    Seq<char>,
    Seq<char>,
) {
    if tool_name == "Read"@ || tool_name == "Glob"@ || tool_name == "Grep"@ || tool_name
        == "LS"@ {
        ("discovery"@, "Read: "@ + preview_spec(tool_input, 80))
    } else if tool_name == "Edit"@ || tool_name == "Write"@ || tool_name == "Patch"@ {
        ("change"@, "Modified file"@)
    } else if tool_name == "Bash"@ {
        if contains_seq(tool_input, "fix"@) || contains_seq(tool_input, "bug"@) || contains_seq(
            tool_input,
            "error"@,
        ) {
            ("bugfix"@, "Fix: "@ + preview_spec(tool_input, 80))
        } else if contains_seq(tool_input, "refactor"@) {
            ("refactor"@, "Refactor: "@ + preview_spec(tool_input, 80))
        } else {
            ("change"@, "Command: "@ + preview_spec(tool_input, 80))
        }
    } else {
        ("change"@, tool_name + ": "@ + preview_spec(tool_input, 60))
    }
}

/// How the fallback classifier types a tool execution: reads and searches
/// (`Read`, `Glob`, `Grep`, `LS`) are discoveries; edits (`Edit`, `Write`,
/// `Patch`) are changes to a file; a `Bash` command mentioning `fix`, `bug`
/// or `error` is a bug fix, else one mentioning `refactor` is a refactoring,
/// else a change; any other tool is a change.
pub proof fn lemma_fallback_types(tool_name: Seq<char>, tool_input: Seq<char>)
    ensures
        (tool_name == "Read"@ || tool_name == "Glob"@ || tool_name == "Grep"@ || tool_name == "LS"@)
            ==> fallback_type_and_title(tool_name, tool_input).0 == "discovery"@,
        (tool_name == "Edit"@ || tool_name == "Write"@ || tool_name == "Patch"@) ==> fallback_type_and_title(
            tool_name,
            tool_input,
        ) == ("change"@, "Modified file"@),
        tool_name == "Bash"@ && (contains_seq(tool_input, "fix"@) || contains_seq(tool_input, "bug"@)
            || contains_seq(tool_input, "error"@)) ==> fallback_type_and_title(tool_name, tool_input).0
            == "bugfix"@,
        tool_name == "Bash"@ && contains_seq(tool_input, "refactor"@) && !contains_seq(tool_input, "fix"@)
            && !contains_seq(tool_input, "bug"@) && !contains_seq(tool_input, "error"@)
            ==> fallback_type_and_title(tool_name, tool_input).0 == "refactor"@,
        tool_name == "Bash"@ && !contains_seq(tool_input, "refactor"@) && !contains_seq(tool_input, "fix"@)
            && !contains_seq(tool_input, "bug"@) && !contains_seq(tool_input, "error"@)
            ==> fallback_type_and_title(tool_name, tool_input).0 == "change"@,
        tool_name != "Read"@ && tool_name != "Glob"@ && tool_name != "Grep"@ && tool_name != "LS"@
            && tool_name != "Edit"@ && tool_name != "Write"@ && tool_name != "Patch"@ && tool_name
            != "Bash"@ ==> fallback_type_and_title(tool_name, tool_input).0 == "change"@,
        (tool_name == "Read"@ || tool_name == "Glob"@ || tool_name == "Grep"@ || tool_name == "LS"@)
            ==> fallback_type_and_title(tool_name, tool_input).1.take(6) == "Read: "@,
        tool_name == "Bash"@ && (contains_seq(tool_input, "fix"@) || contains_seq(tool_input, "bug"@)
            || contains_seq(tool_input, "error"@)) ==> fallback_type_and_title(tool_name, tool_input).1.take(5)
            == "Fix: "@,
        tool_name == "Bash"@ && contains_seq(tool_input, "refactor"@) && !contains_seq(tool_input, "fix"@)
            && !contains_seq(tool_input, "bug"@) && !contains_seq(tool_input, "error"@)
            ==> fallback_type_and_title(tool_name, tool_input).1.take(10) == "Refactor: "@,
        tool_name == "Bash"@ && !contains_seq(tool_input, "refactor"@) && !contains_seq(tool_input, "fix"@)
            && !contains_seq(tool_input, "bug"@) && !contains_seq(tool_input, "error"@)
            ==> fallback_type_and_title(tool_name, tool_input).1.take(9) == "Command: "@,
{
    let p = preview_spec(tool_input, 80);
    reveal_strlit("Read: ");
    reveal_strlit("Fix: ");
    reveal_strlit("Refactor: ");
    reveal_strlit("Command: ");
    assert(("Read: "@ + p).take(6) =~= "Read: "@);
    assert(("Fix: "@ + p).take(5) =~= "Fix: "@);
    assert(("Refactor: "@ + p).take(10) =~= "Refactor: "@);
    assert(("Command: "@ + p).take(9) =~= "Command: "@);
    reveal_strlit("Read");
    reveal_strlit("Glob");
    reveal_strlit("Grep");
    reveal_strlit("LS");
    reveal_strlit("Edit");
    reveal_strlit("Write");
    reveal_strlit("Patch");
    reveal_strlit("Bash");
    assert("Read"@[0] == 'R' && "Glob"@[0] == 'G' && "Grep"@[0] == 'G' && "LS"@[0] == 'L');
    assert("Edit"@[0] == 'E' && "Write"@[0] == 'W' && "Patch"@[0] == 'P' && "Bash"@[0] == 'B');
}

/// Classifies a tool execution without the model, from the tool's name and input.
pub fn classify_tool_fallback(tool_name: &str, tool_input: &str, _tool_output: &str) -> (r:
    ObservationOutput)
    ensures
        (r.observation_type@, r.title@) == fallback_type_and_title(tool_name@, tool_input@),
        r.subtitle@ == Seq::<char>::empty(),
        r.facts@.len() == 0,
        r.narrative@ == "Executed "@ + tool_name@,
        r.concepts@.len() == 0,
        r.files_read@.len() == 0,
        r.files_modified@.len() == 0,
{
    let (obs_type, title) = if str_eq(tool_name, "Read") || str_eq(tool_name, "Glob") || str_eq(
        tool_name,
        "Grep",
    ) || str_eq(tool_name, "LS") {
        let mut t = owned("Read: ");
        push_str(&mut t, preview_text(tool_input, 80).as_str());
        ("discovery", t)
    } else if str_eq(tool_name, "Edit") || str_eq(tool_name, "Write") || str_eq(
        tool_name,
        "Patch",
    ) {
        ("change", owned("Modified file"))
    } else if str_eq(tool_name, "Bash") {
        if str_contains(tool_input, "fix") || str_contains(tool_input, "bug") || str_contains(
            tool_input,
            "error",
        ) {
            let mut t = owned("Fix: ");
            push_str(&mut t, preview_text(tool_input, 80).as_str());
            ("bugfix", t)
        } else if str_contains(tool_input, "refactor") {
            let mut t = owned("Refactor: ");
            push_str(&mut t, preview_text(tool_input, 80).as_str());
            ("refactor", t)
        } else {
            let mut t = owned("Command: ");
            push_str(&mut t, preview_text(tool_input, 80).as_str());
            ("change", t)
        }
    } else {
        let mut t = owned(tool_name);
        push_str(&mut t, ": ");
        push_str(&mut t, preview_text(tool_input, 60).as_str());
        ("change", t)
    };
    let mut narrative = owned("Executed ");
    push_str(&mut narrative, tool_name);
    ObservationOutput {
        observation_type: owned(obs_type),
        title,
        subtitle: String::new(),
        facts: Vec::new(),
        narrative,
        concepts: Vec::new(),
        files_read: Vec::new(),
        files_modified: Vec::new(),
    }
}


/// An item of a list: non-empty and without surrounding white space.
pub open spec fn clean_item(x: Seq<char>) -> bool {
    x.len() > 0 && trim_view(x) == x
}

/// Every body that `tag_contents_from` collects is a clean item.
pub proof fn lemma_tag_contents_clean(xml: Seq<char>, tag: Seq<char>, from: int)
    ensures
        forall|i: int|
            0 <= i < tag_contents_from(xml, tag, from).len() ==> clean_item(
                #[trigger] tag_contents_from(xml, tag, from)[i],
            ),
    decreases xml.len() + 1 - from,
{
    if from >= 0 {
        lemma_tag_span(xml, tag, from);
        if let Some((a, b)) = tag_span(xml, tag, from) {
            let next = b + close_tag(tag).len();
            lemma_tag_contents_clean(xml, tag, next);
            let c = trim_view(xml.subrange(a, b));
            lemma_trim_view_idempotent(xml.subrange(a, b));
            let rest = tag_contents_from(xml, tag, next);
            let all = tag_contents_from(xml, tag, from);
            assert forall|i: int| 0 <= i < all.len() implies clean_item(#[trigger] all[i]) by {
                if c.len() > 0 {
                    if i > 0 {
                        assert(all[i] == rest[i - 1]);
                    }
                } else {
                    assert(all[i] == rest[i]);
                }
            }
        }
    }
}

/// Every accepted concept of clean proposals is a clean, valid concept id.
pub proof fn lemma_accepted_concepts_clean(cs: Seq<Seq<char>>)
    requires
        forall|i: int| 0 <= i < cs.len() ==> clean_item(#[trigger] cs[i]),
    ensures
        forall|i: int|
            0 <= i < accepted_concepts(cs).len() ==> clean_item(#[trigger] accepted_concepts(cs)[i])
                && valid_concept_ids().contains(accepted_concepts(cs)[i]),
    decreases cs.len(),
{
    if cs.len() > 0 {
        let init = cs.drop_last();
        assert forall|i: int| 0 <= i < init.len() implies clean_item(#[trigger] init[i]) by {
            assert(init[i] == cs[i]);
        }
        lemma_accepted_concepts_clean(init);
        assert(clean_item(cs[cs.len() - 1]));
        let all = accepted_concepts(cs);
        let rest = accepted_concepts(init);
        assert forall|i: int| 0 <= i < all.len() implies clean_item(#[trigger] all[i])
            && valid_concept_ids().contains(all[i]) by {
            if i < rest.len() {
                assert(all[i] == rest[i]);
            }
        }
    }
}

/// What an observation read from a reply holds: a valid type, a non-empty
/// title, valid concepts, and list items that are non-empty and trimmed.
pub proof fn lemma_observation_items_clean(xml: Seq<char>, o: ObservationOutput)
    requires
        observation_from_xml(xml, o),
    ensures
        valid_type_ids().contains(o.observation_type@),
        o.title@.len() > 0,
        forall|i: int| 0 <= i < o.facts@.len() ==> clean_item(#[trigger] o.facts@[i]@),
        forall|i: int|
            0 <= i < o.concepts@.len() ==> clean_item(#[trigger] o.concepts@[i]@)
                && valid_concept_ids().contains(o.concepts@[i]@),
        forall|i: int| 0 <= i < o.files_read@.len() ==> clean_item(#[trigger] o.files_read@[i]@),
        forall|i: int|
            0 <= i < o.files_modified@.len() ==> clean_item(#[trigger] o.files_modified@[i]@),
{
    crate::observer::config::lemma_validated_type_is_valid(tag_content(xml, "type"@));
    reveal_strlit("Observation");
    lemma_tag_contents_clean(xml, "fact"@, 0);
    lemma_tag_contents_clean(xml, "concept"@, 0);
    lemma_accepted_concepts_clean(tag_contents(xml, "concept"@));
    lemma_tag_contents_clean(block_content(xml, "files_read"@), "file"@, 0);
    lemma_tag_contents_clean(block_content(xml, "files_modified"@), "file"@, 0);
    assert forall|i: int| 0 <= i < o.facts@.len() implies clean_item(#[trigger] o.facts@[i]@) by {
        assert(string_views(o.facts@)[i] == o.facts@[i]@);
    }
    assert forall|i: int| 0 <= i < o.concepts@.len() implies clean_item(#[trigger] o.concepts@[i]@)
        && valid_concept_ids().contains(o.concepts@[i]@) by {
        assert(string_views(o.concepts@)[i] == o.concepts@[i]@);
    }
    assert forall|i: int| 0 <= i < o.files_read@.len() implies clean_item(
        #[trigger] o.files_read@[i]@,
    ) by {
        assert(string_views(o.files_read@)[i] == o.files_read@[i]@);
    }
    assert forall|i: int| 0 <= i < o.files_modified@.len() implies clean_item(
        #[trigger] o.files_modified@[i]@,
    ) by {
        assert(string_views(o.files_modified@)[i] == o.files_modified@[i]@);
    }
}

/// An empty reply reads as the default observation.
pub proof fn lemma_empty_reply_is_default(o: ObservationOutput)
    requires
        observation_from_xml(Seq::empty(), o),
    ensures
        o.observation_type@ == "change"@,
        o.title@ == "Observation"@,
        o.subtitle@.len() == 0,
        o.narrative@.len() == 0,
        o.facts@.len() == 0,
        o.concepts@.len() == 0,
        o.files_read@.len() == 0,
        o.files_modified@.len() == 0,
{
    let e = Seq::<char>::empty();
    assert forall|tag: Seq<char>| #[trigger] tag_span(e, tag, 0) is None by {
        lemma_first_occurrence(e, open_tag(tag), 0);
        assert(open_tag(tag).len() > 0);
    }
    assert forall|tag: Seq<char>| #[trigger] tag_contents(e, tag).len() == 0 by {
        assert(tag_span(e, tag, 0) is None);
    }
    assert(tag_content(e, "type"@).len() == 0);
    assert(trim_view(tag_content(e, "type"@)).len() == 0) by {
        assert(tag_content(e, "type"@) == e);
        assert(trim_view(e) == e);
    }
    reveal_strlit("bugfix");
    reveal_strlit("feature");
    reveal_strlit("refactor");
    reveal_strlit("change");
    reveal_strlit("discovery");
    reveal_strlit("decision");
    reveal_strlit("security_alert");
    reveal_strlit("security_note");
    assert(!valid_type_ids().contains(e)) by {
        if valid_type_ids().contains(e) {
            let k = choose|k: int| 0 <= k < valid_type_ids().len() && valid_type_ids()[k] == e;
            assert(valid_type_ids()[k].len() > 0);
        }
    }
    assert(block_content(e, "files_read"@) == e);
    assert(block_content(e, "files_modified"@) == e);
    assert(accepted_concepts(tag_contents(e, "concept"@)) == Seq::<Seq<char>>::empty()) by {
        assert(tag_contents(e, "concept"@).len() == 0);
    }
    assert(string_views(o.facts@).len() == o.facts@.len());
    assert(string_views(o.concepts@).len() == o.concepts@.len());
    assert(string_views(o.files_read@).len() == o.files_read@.len());
    assert(string_views(o.files_modified@).len() == o.files_modified@.len());
}

} // verus!
