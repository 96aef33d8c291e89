use vstd::prelude::*;
use crate::observer::classifier::{classify_tool_fallback, fallback_type_and_title};
use crate::observer::config::ObservationOutput;
use crate::text::strings::{owned, push_str, string_views};

verus! {

/// A hexadecimal digit as serde_json writes it: `0` to `9`, then `a` to `f`.
pub open spec fn json_hex_digit(d: u32) -> char {
    if d < 10 {
        ((d + 48) as u32) as char
    } else {
        ((d + 87) as u32) as char
    }
}

/// One character of a string as serde_json writes it between the quotes: `"`,
/// `\` and the ASCII control characters escaped, every other character as it is.
pub open spec fn json_escaped_char(c: char) -> Seq<char> {
    if c == '"' {
        seq!['\\', '"']
    } else if c == '\\' {
        seq!['\\', '\\']
    } else if c == '\x08' {
        seq!['\\', 'b']
    } else if c == '\t' {
        seq!['\\', 't']
    } else if c == '\n' {
        seq!['\\', 'n']
    } else if c == '\x0c' {
        seq!['\\', 'f']
    } else if c == '\r' {
        seq!['\\', 'r']
    } else if (c as u32) < 0x20 {
        seq!['\\', 'u', '0', '0', json_hex_digit((c as u32) / 16), json_hex_digit((c as u32) % 16)]
    } else {
        seq![c]
    }
}

/// The characters of a string, each escaped for JSON.
pub open spec fn json_escaped(s: Seq<char>) -> Seq<char>
    decreases s.len(),
{
    if s.len() == 0 {
        seq![]
    } else {
        json_escaped(s.drop_last()) + json_escaped_char(s.last())
    }
}

/// A JSON string: the escaped characters between double quotes.
pub open spec fn json_string(s: Seq<char>) -> Seq<char> {
    seq!['"'] + json_escaped(s) + seq!['"']
}

/// The JSON strings of a list, separated by commas.
pub open spec fn json_elements(items: Seq<Seq<char>>) -> Seq<char>
    decreases items.len(),
{
    if items.len() == 0 {
        seq![]
    } else if items.len() == 1 {
        json_string(items[0])
    } else {
        json_elements(items.drop_last()) + seq![','] + json_string(items.last())
    }
}

/// A list of strings as a compact JSON array: `[`, the JSON strings separated
/// by commas, `]`.
pub open spec fn json_array(items: Seq<Seq<char>>) -> Seq<char> {
    seq!['['] + json_elements(items) + seq![']']
}

/// Wrapper of `serde_json::to_string` on a list of strings. Serialising
/// strings into memory does not fail, and the compact formatter writes the
/// array as `json_array` states it (escaping as its `ESCAPE` table does).
#[verifier::external_body]
fn to_json_string_list(items: &Vec<String>) -> (r: Option<String>)
    ensures
        r is Some,
        match r {
            Some(s) => s@ == json_array(string_views(items@)),
            None => true,
        },
{
    serde_json::to_string(items).ok()
}

/// The JSON text of a list of strings (with `[]` kept as the answer to an
/// encoding error, which does not occur for strings).
fn json_list_text(items: &Vec<String>) -> (r: String)
    ensures
        r@ == json_array(string_views(items@)),
{
    match to_json_string_list(items) {
        Some(s) => s,
        None => owned("[]"),
    }
}

/// How dates and times are written: `2024-05-01 13:45:00`.
pub const TIMESTAMP_FORMAT: &'static str = "%Y-%m-%d %H:%M:%S";

/// What chrono's `DateTime::from_timestamp(epoch, 0)`, formatted with
/// `format`, gives (`None` for an epoch out of its range).
pub uninterp spec fn utc_timestamp_text(epoch: i64, format: Seq<char>) -> Option<Seq<char>>;

/// Wrapper of chrono's `DateTime::from_timestamp` and its formatting; the text
/// is taken by name. Only the library's own format is passed: chrono's
/// formatting panics on a format that it cannot read.
#[verifier::external_body]
pub(crate) fn format_utc_timestamp(epoch: i64, format: &str) -> (r: Option<String>)
    requires
        format@ == TIMESTAMP_FORMAT@,
    ensures
        match r {
            Some(s) => utc_timestamp_text(epoch, format@) == Some(s@),
            None => utc_timestamp_text(epoch, format@) is None,
        },
{
    chrono::DateTime::from_timestamp(epoch, 0).map(|dt| dt.format(format).to_string())
}

/// The timestamp written into an observation prompt for `now`: the UTC date
/// and time, or `unknown` for an epoch out of range.
pub fn ingest_timestamp(now: i64) -> (r: String)
    ensures
        r@ == match utc_timestamp_text(now, TIMESTAMP_FORMAT@) {
            Some(s) => s,
            None => "unknown"@,
        },
{
    match format_utc_timestamp(now, TIMESTAMP_FORMAT) {
        Some(s) => s,
        None => owned("unknown"),
    }
}

/// The text that is embedded for a memory.
pub fn memory_document_text(title: &str, content: &str) -> (r: String)
    ensures
        r@ == "title: "@ + title@ + "\ncontent: "@ + content@,
{
    let mut r = owned("title: ");
    push_str(&mut r, title);
    push_str(&mut r, "\ncontent: ");
    push_str(&mut r, content);
    r
}

/// A memory to be inserted: the values of its columns.
#[derive(Debug, Clone)]
pub struct NewMemory {
    pub kind: String,
    pub observation_type: String,
    pub session_id: Option<String>,
    pub source: String,
    pub project: String,
    pub title: String,
    pub content: String,
    pub tags: String,
    pub facts: String,
    pub concepts: String,
    pub files_read: String,
    pub files_modified: String,
    pub narrative: Option<String>,
}

/// The input of one observation to ingest.
pub struct IngestInput<'a> {
    pub kind: &'a str,
    pub session_id: Option<&'a str>,
    pub source: &'a str,
    pub project: &'a str,
    pub tool_name: &'a str,
    pub tool_input: &'a str,
    pub tool_output: &'a str,
    pub cwd: &'a str,
    pub user_prompt: Option<&'a str>,
    pub tags: &'a str,
    pub files_read: &'a [String],
    pub files_modified: &'a [String],
}

fn copy_strings(v: &Vec<String>) -> (r: Vec<String>)
    ensures
        string_views(r@) == string_views(v@),
{
    let mut r: Vec<String> = Vec::new();
    let mut i: usize = 0;
    while i < v.len()
        invariant
            i <= v@.len(),
            string_views(r@) == string_views(v@).take(i as int),
        decreases v@.len() - i,
    {
        r.push(owned(v[i].as_str()));
        assert(string_views(v@).take(i + 1) == string_views(v@).take(i as int).push(v@[i as int]@));
        i = i + 1;
    }
    assert(string_views(v@).take(v@.len() as int) == string_views(v@));
    r
}

/// The stored content of an observation of a tool execution.
pub open spec fn observation_content(tool_name: Seq<char>, tool_input: Seq<char>, tool_output: Seq<
    char,
>) -> Seq<char> {
    "tool: "@ + tool_name + "\ninput: "@ + tool_input + "\n\n"@ + tool_output
}

/// The memory that records a tool execution, from the observer's
/// classification, or without one from the fallback classifier: the files of
/// the classification are used when it names any, else the given files.
pub fn observation_record(
    kind: &str,
    session_id: Option<&str>,
    source: &str,
    project: &str,
    tool_name: &str,
    tool_input: &str,
    tool_output: &str,
    tags: &str,
    files_read: &Vec<String>,
    files_modified: &Vec<String>,
    classified: Option<ObservationOutput>,
) -> (r: NewMemory)
    ensures
        r.kind@ == kind@,
        r.session_id matches Some(s) ==> session_id matches Some(t) && s@ == t@,
        r.session_id is None ==> session_id is None,
        r.source@ == source@,
        r.project@ == project@,
        r.tags@ == tags@,
        r.content@ == observation_content(tool_name@, tool_input@, tool_output@),
        match classified {
            Some(o) => {
                &&& r.observation_type@ == o.observation_type@
                &&& r.title@ == o.title@
                &&& r.facts@ == json_array(string_views(o.facts@))
                &&& r.concepts@ == json_array(string_views(o.concepts@))
                &&& r.files_read@ == json_array(
                    if o.files_read@.len() == 0 {
                        string_views(files_read@)
                    } else {
                        string_views(o.files_read@)
                    },
                )
                &&& r.files_modified@ == json_array(
                    if o.files_modified@.len() == 0 {
                        string_views(files_modified@)
                    } else {
                        string_views(o.files_modified@)
                    },
                )
                &&& r.narrative matches Some(n) && n@ == o.narrative@
            },
            None => {
                &&& (r.observation_type@, r.title@) == fallback_type_and_title(
                    tool_name@,
                    tool_input@,
                )
                &&& r.facts@ == json_array(seq![])
                &&& r.concepts@ == json_array(seq![])
                &&& r.files_read@ == json_array(string_views(files_read@))
                &&& r.files_modified@ == json_array(string_views(files_modified@))
                &&& r.narrative matches Some(n) && n@ == "Executed "@ + tool_name@
            },
        },
{
    let classified = match classified {
        Some(o) => o,
        None => {
            let mut fallback = classify_tool_fallback(tool_name, tool_input, tool_output);
            if files_read.len() > 0 {
                fallback.files_read = copy_strings(files_read);
            }
            if files_modified.len() > 0 {
                fallback.files_modified = copy_strings(files_modified);
            }
            assert(string_views(fallback.facts@) == Seq::<Seq<char>>::empty());
            assert(string_views(fallback.concepts@) == Seq::<Seq<char>>::empty());
            fallback
        },
    };
    let facts = json_list_text(&classified.facts);
    let concepts = json_list_text(&classified.concepts);
    let files_read_json = if classified.files_read.len() == 0 {
        json_list_text(files_read)
    } else {
        json_list_text(&classified.files_read)
    };
    let files_modified_json = if classified.files_modified.len() == 0 {
        json_list_text(files_modified)
    } else {
        json_list_text(&classified.files_modified)
    };
    let mut content = owned("tool: ");
    push_str(&mut content, tool_name);
    push_str(&mut content, "\ninput: ");
    push_str(&mut content, tool_input);
    push_str(&mut content, "\n\n");
    push_str(&mut content, tool_output);
    NewMemory {
        kind: owned(kind),
        observation_type: classified.observation_type,
        session_id: match session_id {
            Some(s) => Some(owned(s)),
            None => None,
        },
        source: owned(source),
        project: owned(project),
        title: classified.title,
        content,
        tags: owned(tags),
        facts,
        concepts,
        files_read: files_read_json,
        files_modified: files_modified_json,
        narrative: Some(classified.narrative),
    }
}

/// The fallback summary of a session: its memories' titles as a list.
pub open spec fn titles_summary(titles: Seq<Seq<char>>) -> Seq<char>
    decreases titles.len(),
{
    if titles.len() == 0 {
        "Session summary:"@
    } else {
        titles_summary(titles.drop_last()) + "\n- "@ + titles.last()
    }
}

/// Where the line of the `k`-th title starts in a fallback summary: after
/// `Session summary:` and the lines `\n- ` + title of the titles before it.
pub open spec fn title_line_start(titles: Seq<Seq<char>>, k: int) -> int
    decreases k,
{
    if k <= 0 {
        16
    } else {
        title_line_start(titles, k - 1) + 3 + titles[k - 1].len()
    }
}

/// The fallback summary of a session is `Session summary:` followed, for each
/// title in order, by a line break, `- ` and that title: the `k`-th line
/// holds the `k`-th title, and nothing else follows.
pub proof fn lemma_titles_summary_lines(titles: Seq<Seq<char>>)
    ensures
        titles_summary(titles).len() == title_line_start(titles, titles.len() as int),
        titles_summary(titles).take(16) == "Session summary:"@,
        forall|k: int|
            0 <= k < titles.len() ==> titles_summary(titles).subrange(
                title_line_start(titles, k),
                title_line_start(titles, k + 1),
            ) == "\n- "@ + #[trigger] titles[k],
{
    lemma_titles_summary_head(titles);
    assert forall|k: int| 0 <= k < titles.len() implies titles_summary(titles).subrange(
        title_line_start(titles, k),
        title_line_start(titles, k + 1),
    ) == "\n- "@ + #[trigger] titles[k] by {
        lemma_titles_summary_line(titles, k);
    }
}

/// The length and the head of a fallback summary.
proof fn lemma_titles_summary_head(titles: Seq<Seq<char>>)
    ensures
        titles_summary(titles).len() == title_line_start(titles, titles.len() as int),
        titles_summary(titles).take(16) == "Session summary:"@,
    decreases titles.len(),
{
    reveal_strlit("Session summary:");
    reveal_strlit("\n- ");
    if titles.len() > 0 {
        let init = titles.drop_last();
        lemma_titles_summary_head(init);
        lemma_title_line_start_prefix(titles, init, init.len() as int);
        lemma_title_line_start_monotone(init, 0, init.len() as int);
        let s = titles_summary(init);
        assert(titles_summary(titles) == s + "\n- "@ + titles.last());
        assert(titles_summary(titles).take(16) =~= s.take(16));
    } else {
        assert("Session summary:"@.take(16) =~= "Session summary:"@);
    }
}

/// The `k`-th line of a fallback summary holds the `k`-th title.
proof fn lemma_titles_summary_line(titles: Seq<Seq<char>>, k: int)
    requires
        0 <= k < titles.len(),
    ensures
        titles_summary(titles).subrange(title_line_start(titles, k), title_line_start(titles, k + 1))
            == "\n- "@ + titles[k],
    decreases titles.len(),
{
    reveal_strlit("\n- ");
    let init = titles.drop_last();
    let s = titles_summary(init);
    let t = titles.last();
    lemma_titles_summary_head(init);
    assert(titles_summary(titles) == s + "\n- "@ + t);
    lemma_title_line_start_prefix(titles, init, k);
    if k == titles.len() - 1 {
        assert(titles[k] == t);
        assert(titles_summary(titles).subrange(
            title_line_start(titles, k),
            title_line_start(titles, k + 1),
        ) =~= "\n- "@ + t);
    } else {
        lemma_titles_summary_line(init, k);
        lemma_title_line_start_prefix(titles, init, k + 1);
        lemma_title_line_start_monotone(init, k + 1, init.len() as int);
        lemma_title_line_start_monotone(init, 0, k);
        lemma_title_line_start_monotone(init, k, k + 1);
        assert(titles[k] == init[k]);
        assert(titles_summary(titles).subrange(
            title_line_start(titles, k),
            title_line_start(titles, k + 1),
        ) =~= s.subrange(title_line_start(init, k), title_line_start(init, k + 1)));
    }
}

/// The line starts of the titles up to `k` do not depend on the titles from
/// `k` on.
proof fn lemma_title_line_start_prefix(titles: Seq<Seq<char>>, init: Seq<Seq<char>>, k: int)
    requires
        0 <= k <= init.len() <= titles.len(),
        forall|j: int| 0 <= j < init.len() ==> init[j] == titles[j],
    ensures
        title_line_start(titles, k) == title_line_start(init, k),
    decreases k,
{
    if k > 0 {
        lemma_title_line_start_prefix(titles, init, k - 1);
    }
}

/// Line starts grow with `k`.
proof fn lemma_title_line_start_monotone(titles: Seq<Seq<char>>, j: int, k: int)
    requires
        0 <= j <= k,
    ensures
        title_line_start(titles, j) <= title_line_start(titles, k),
    decreases k,
{
    if j < k {
        lemma_title_line_start_monotone(titles, j, k - 1);
    }
}

/// The memory that summarizes a session whose memories have the given titles
/// (in order): none for an empty session; titled after the first memory, with
/// the observer's reply as content, or without one the list of titles.
pub fn session_summary_record(
    session_id: &str,
    project: &str,
    source: &str,
    titles: &Vec<String>,
    reply: Option<String>,
) -> (r: Option<NewMemory>)
    ensures
        r is Some == (titles@.len() > 0),
        r matches Some(m) ==> {
            &&& m.kind@ == "summary"@
            &&& m.observation_type@ == "change"@
            &&& m.session_id matches Some(s) && s@ == session_id@
            &&& m.source@ == source@
            &&& m.project@ == project@
            &&& m.title@ == "Summary: "@ + titles@[0]@
            &&& m.content@ == match reply {
                Some(t) => t@,
                None => titles_summary(string_views(titles@)),
            }
            &&& m.tags@ == "auto,summary"@
            &&& m.facts@ == "[]"@
            &&& m.concepts@ == "[]"@
            &&& m.files_read@ == "[]"@
            &&& m.files_modified@ == "[]"@
            &&& m.narrative is None
        },
{
    if titles.len() == 0 {
        return None;
    }
    let content = match reply {
        Some(t) => t,
        None => {
            let ghost tv = string_views(titles@);
            let mut c = owned("Session summary:");
            let mut i: usize = 0;
            while i < titles.len()
                invariant
                    i <= titles@.len(),
                    tv == string_views(titles@),
                    c@ == titles_summary(tv.take(i as int)),
                decreases titles@.len() - i,
            {
                assert(tv.take(i + 1).drop_last() == tv.take(i as int));
                push_str(&mut c, "\n- ");
                push_str(&mut c, titles[i].as_str());
                i = i + 1;
            }
            assert(tv.take(titles@.len() as int) == tv);
            c
        },
    };
    let mut title = owned("Summary: ");
    push_str(&mut title, titles[0].as_str());
    Some(
        NewMemory {
            kind: owned("summary"),
            observation_type: owned("change"),
            session_id: Some(owned(session_id)),
            source: owned(source),
            project: owned(project),
            title,
            content,
            tags: owned("auto,summary"),
            facts: owned("[]"),
            concepts: owned("[]"),
            files_read: owned("[]"),
            files_modified: owned("[]"),
            narrative: None,
        },
    )
}

} // verus!
