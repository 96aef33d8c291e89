use vstd::prelude::*;
use crate::observer::prompt::{decimal_i64, signed_decimal};
use crate::search::smart::{parse_mode, parse_scope, SearchMode, SearchScope};
use crate::text::strings::{owned, push_str, str_eq};

verus! {

// ---------------------------------------------------------------------------
// The tools and their names.
// ---------------------------------------------------------------------------

/// A tool that the server offers.
#[derive(Debug, Clone, Copy, PartialEq, Eq, Structural)]
pub enum ToolName {
    MemorySearch,
    MemoryAdd,
    MemoryGet,
    MemoryList,
    MemoryDelete,
    IndexStats,
    MemoryObserve,
    MemorySummarize,
}

/// The name under which a tool is called.
pub open spec fn tool_name_text(t: ToolName) -> Seq<char> {
    match t {
        ToolName::MemorySearch => "memory_search"@,
        ToolName::MemoryAdd => "memory_add"@,
        ToolName::MemoryGet => "memory_get"@,
        ToolName::MemoryList => "memory_list"@,
        ToolName::MemoryDelete => "memory_delete"@,
        ToolName::IndexStats => "index_stats"@,
        ToolName::MemoryObserve => "memory_observe"@,
        ToolName::MemorySummarize => "memory_summarize"@,
    }
}

/// The tool a name calls, if any.
pub open spec fn tool_named(name: Seq<char>) -> Option<ToolName> {
    if name == "memory_search"@ {
        Some(ToolName::MemorySearch)
    } else if name == "memory_add"@ {
        Some(ToolName::MemoryAdd)
    } else if name == "memory_get"@ {
        Some(ToolName::MemoryGet)
    } else if name == "memory_list"@ {
        Some(ToolName::MemoryList)
    } else if name == "memory_delete"@ {
        Some(ToolName::MemoryDelete)
    } else if name == "memory_observe"@ {
        Some(ToolName::MemoryObserve)
    } else if name == "memory_summarize"@ {
        Some(ToolName::MemorySummarize)
    } else if name == "index_stats"@ {
        Some(ToolName::IndexStats)
    } else {
        None
    }
}

/// Decides which tool a call names; `None` for an unknown name.
pub fn route_tool(name: &str) -> (r: Option<ToolName>)
    ensures
        r == tool_named(name@),
{
    if str_eq(name, "memory_search") {
        Some(ToolName::MemorySearch)
    } else if str_eq(name, "memory_add") {
        Some(ToolName::MemoryAdd)
    } else if str_eq(name, "memory_get") {
        Some(ToolName::MemoryGet)
    } else if str_eq(name, "memory_list") {
        Some(ToolName::MemoryList)
    } else if str_eq(name, "memory_delete") {
        Some(ToolName::MemoryDelete)
    } else if str_eq(name, "memory_observe") {
        Some(ToolName::MemoryObserve)
    } else if str_eq(name, "memory_summarize") {
        Some(ToolName::MemorySummarize)
    } else if str_eq(name, "index_stats") {
        Some(ToolName::IndexStats)
    } else {
        None
    }
}

// ---------------------------------------------------------------------------
// The tool definitions that `tools/list` answers with.
// ---------------------------------------------------------------------------

/// The input schema of `memory_search`, as JSON text.
pub const MEMORY_SEARCH_SCHEMA: &'static str = "{\"type\":\"object\",\"properties\":{\"query\":{\"type\":\"string\",\"description\":\"Search query text\"},\"limit\":{\"type\":\"integer\",\"description\":\"Max results (default 10)\",\"default\":10},\"mode\":{\"type\":\"string\",\"description\":\"Search mode: hybrid, fts5, or vector\",\"enum\":[\"hybrid\",\"fts5\",\"vector\"],\"default\":\"hybrid\"},\"scope\":{\"type\":\"string\",\"description\":\"Result scope: auto, chat, tool, or all\",\"enum\":[\"auto\",\"chat\",\"tool\",\"all\"],\"default\":\"auto\"}},\"required\":[\"query\"]}";

/// The input schema of `memory_add`, as JSON text.
pub const MEMORY_ADD_SCHEMA: &'static str = "{\"type\":\"object\",\"properties\":{\"title\":{\"type\":\"string\",\"description\":\"Memory title\"},\"content\":{\"type\":\"string\",\"description\":\"Memory content body\"},\"tags\":{\"type\":\"string\",\"description\":\"Comma-separated tags\"},\"kind\":{\"type\":\"string\",\"description\":\"Memory kind: observation, summary, prompt, manual\",\"enum\":[\"observation\",\"summary\",\"prompt\",\"manual\"],\"default\":\"manual\"},\"type\":{\"type\":\"string\",\"description\":\"Observation type: bugfix, feature, refactor, change, discovery, decision, security_alert, security_note\",\"enum\":[\"bugfix\",\"feature\",\"refactor\",\"change\",\"discovery\",\"decision\",\"security_alert\",\"security_note\"],\"default\":\"change\"},\"session_id\":{\"type\":\"string\",\"description\":\"Session ID for grouping\"},\"source\":{\"type\":\"string\",\"description\":\"Memory source: opencode, api, manual\",\"default\":\"manual\"},\"project\":{\"type\":\"string\",\"description\":\"Project path\",\"default\":\"\"}},\"required\":[\"title\",\"content\"]}";

/// The input schema of `memory_get`, as JSON text.
pub const MEMORY_GET_SCHEMA: &'static str = "{\"type\":\"object\",\"properties\":{\"id\":{\"type\":\"integer\",\"description\":\"Memory ID\"}},\"required\":[\"id\"]}";

/// The input schema of `memory_list`, as JSON text.
pub const MEMORY_LIST_SCHEMA: &'static str = "{\"type\":\"object\",\"properties\":{\"limit\":{\"type\":\"integer\",\"description\":\"Max results (default 20)\",\"default\":20},\"scope\":{\"type\":\"string\",\"description\":\"List scope: all, chat, or tool\",\"enum\":[\"all\",\"chat\",\"tool\"],\"default\":\"all\"}}}";

/// The input schema of `memory_delete`, as JSON text.
pub const MEMORY_DELETE_SCHEMA: &'static str = "{\"type\":\"object\",\"properties\":{\"id\":{\"type\":\"integer\",\"description\":\"Memory ID to delete\"}},\"required\":[\"id\"]}";

/// The input schema of `index_stats`, as JSON text.
pub const INDEX_STATS_SCHEMA: &'static str = "{\"type\":\"object\",\"properties\":{}}";

/// The input schema of `memory_observe`, as JSON text.
pub const MEMORY_OBSERVE_SCHEMA: &'static str = "{\"type\":\"object\",\"properties\":{\"kind\":{\"type\":\"string\",\"description\":\"Memory kind (default: observation)\",\"default\":\"observation\"},\"tool_name\":{\"type\":\"string\",\"description\":\"Name of the tool that was executed\"},\"tool_input\":{\"type\":\"string\",\"description\":\"Tool input/arguments JSON\"},\"tool_output\":{\"type\":\"string\",\"description\":\"Tool output/result\"},\"session_id\":{\"type\":\"string\",\"description\":\"Session ID for grouping\"},\"source\":{\"type\":\"string\",\"description\":\"Memory source\",\"default\":\"opencode\"},\"project\":{\"type\":\"string\",\"description\":\"Project path\",\"default\":\"\"},\"cwd\":{\"type\":\"string\",\"description\":\"Working directory\",\"default\":\".\"},\"user_prompt\":{\"type\":\"string\",\"description\":\"User prompt that triggered this\"},\"tags\":{\"type\":\"string\",\"description\":\"Comma-separated tags\"},\"files_read\":{\"type\":\"array\",\"items\":{\"type\":\"string\"},\"description\":\"Files read during tool execution\"},\"files_modified\":{\"type\":\"array\",\"items\":{\"type\":\"string\"},\"description\":\"Files modified during tool execution\"}},\"required\":[\"tool_name\",\"tool_output\"]}";

/// The input schema of `memory_summarize`, as JSON text.
pub const MEMORY_SUMMARIZE_SCHEMA: &'static str = "{\"type\":\"object\",\"properties\":{\"session_id\":{\"type\":\"string\",\"description\":\"Session ID to summarize\"},\"project\":{\"type\":\"string\",\"description\":\"Project path\",\"default\":\"\"},\"source\":{\"type\":\"string\",\"description\":\"Source platform\",\"default\":\"opencode\"}},\"required\":[\"session_id\"]}";

/// What a tool does, as the tool list describes it.
pub open spec fn tool_description(t: ToolName) -> Seq<char> {
    match t {
        ToolName::MemorySearch => "Hybrid search BM25 + vector semantic over memory store"@,
        ToolName::MemoryAdd => "Add a new memory entry to the store"@,
        ToolName::MemoryGet => "Get a memory entry by ID"@,
        ToolName::MemoryList => "List recent memory entries"@,
        ToolName::MemoryDelete => "Delete a memory entry by ID"@,
        ToolName::IndexStats => "Get memory index statistics"@,
        ToolName::MemoryObserve => "Classify a tool execution using the observer pipeline and store"@,
        ToolName::MemorySummarize => "Summarize a session using the observer pipeline"@,
    }
}

/// The JSON text of a tool's input schema.
pub open spec fn tool_schema(t: ToolName) -> Seq<char> {
    match t {
        ToolName::MemorySearch => MEMORY_SEARCH_SCHEMA@,
        ToolName::MemoryAdd => MEMORY_ADD_SCHEMA@,
        ToolName::MemoryGet => MEMORY_GET_SCHEMA@,
        ToolName::MemoryList => MEMORY_LIST_SCHEMA@,
        ToolName::MemoryDelete => MEMORY_DELETE_SCHEMA@,
        ToolName::IndexStats => INDEX_STATS_SCHEMA@,
        ToolName::MemoryObserve => MEMORY_OBSERVE_SCHEMA@,
        ToolName::MemorySummarize => MEMORY_SUMMARIZE_SCHEMA@,
    }
}

/// The tools in the order the tool list gives them.
pub open spec fn listed_tools() -> Seq<ToolName> {
    seq![
        ToolName::MemorySearch,
        ToolName::MemoryAdd,
        ToolName::MemoryGet,
        ToolName::MemoryList,
        ToolName::MemoryDelete,
        ToolName::IndexStats,
        ToolName::MemoryObserve,
        ToolName::MemorySummarize,
    ]
}

/// A tool as `tools/list` presents it: its name, what it does, and the JSON
/// schema of its arguments (as text).
#[derive(Debug, Clone)]
pub struct ToolDefinition {
    pub name: String,
    pub description: String,
    pub input_schema: String,
}

/// Whether a definition presents tool `t`.
pub open spec fn defines(d: ToolDefinition, t: ToolName) -> bool {
    &&& d.name@ == tool_name_text(t)
    &&& d.description@ == tool_description(t)
    &&& d.input_schema@ == tool_schema(t)
}

fn definition(name: &str, description: &str, schema: &str) -> (d: ToolDefinition)
    ensures
        d.name@ == name@,
        d.description@ == description@,
        d.input_schema@ == schema@,
{
    ToolDefinition { name: owned(name), description: owned(description), input_schema: owned(schema) }
}

/// The definitions of all tools, in the order of `listed_tools`.
pub fn list_tools_definitions() -> (r: Vec<ToolDefinition>)
    ensures
        r@.len() == listed_tools().len(),
        forall|i: int| 0 <= i < r@.len() ==> defines(#[trigger] r@[i], listed_tools()[i]),
{
    let mut r: Vec<ToolDefinition> = Vec::new();
    r.push(
        definition(
            "memory_search",
            "Hybrid search BM25 + vector semantic over memory store",
            MEMORY_SEARCH_SCHEMA,
        ),
    );
    r.push(definition("memory_add", "Add a new memory entry to the store", MEMORY_ADD_SCHEMA));
    r.push(definition("memory_get", "Get a memory entry by ID", MEMORY_GET_SCHEMA));
    r.push(definition("memory_list", "List recent memory entries", MEMORY_LIST_SCHEMA));
    r.push(definition("memory_delete", "Delete a memory entry by ID", MEMORY_DELETE_SCHEMA));
    r.push(definition("index_stats", "Get memory index statistics", INDEX_STATS_SCHEMA));
    r.push(
        definition(
            "memory_observe",
            "Classify a tool execution using the observer pipeline and store",
            MEMORY_OBSERVE_SCHEMA,
        ),
    );
    r.push(
        definition(
            "memory_summarize",
            "Summarize a session using the observer pipeline",
            MEMORY_SUMMARIZE_SCHEMA,
        ),
    );
    r
}

/// Every tool that the list presents is the tool that its name calls, and
/// every tool is in the list: `tools/list` and `tools/call` agree.
pub proof fn lemma_listed_tools_are_callable(t: ToolName)
    ensures
        tool_named(tool_name_text(t)) == Some(t),
        listed_tools().contains(t),
{
    reveal_strlit("memory_search");
    reveal_strlit("memory_add");
    reveal_strlit("memory_get");
    reveal_strlit("memory_list");
    reveal_strlit("memory_delete");
    reveal_strlit("memory_observe");
    reveal_strlit("memory_summarize");
    reveal_strlit("index_stats");
    let l = listed_tools();
    assert("memory_search"@.len() == 13 && "memory_add"@.len() == 10 && "memory_get"@.len() == 10);
    assert("memory_list"@.len() == 11 && "memory_delete"@.len() == 13 && "memory_observe"@.len()
        == 14);
    assert("memory_summarize"@.len() == 16 && "index_stats"@.len() == 11);
    assert("memory_add"@[7] != "memory_get"@[7]);
    assert("memory_search"@[7] != "memory_delete"@[7]);
    assert("memory_list"@[0] != "index_stats"@[0]);
    assert(l[0] == ToolName::MemorySearch && l[1] == ToolName::MemoryAdd && l[2] == ToolName::MemoryGet);
    assert(l[3] == ToolName::MemoryList && l[4] == ToolName::MemoryDelete && l[5] == ToolName::IndexStats);
    assert(l[6] == ToolName::MemoryObserve && l[7] == ToolName::MemorySummarize);
}

/// A name that calls a tool is that tool's name.
pub proof fn lemma_tool_named_inverse(name: Seq<char>)
    ensures
        tool_named(name) matches Some(t) ==> name == tool_name_text(t),
{
}

// ---------------------------------------------------------------------------
// The answer to a tool call.
// ---------------------------------------------------------------------------

/// The text of the error answered for an unknown tool.
pub fn unknown_tool_message(name: &str) -> (r: String)
    ensures
        r@ == "Unknown tool: "@ + name@,
{
    let mut r = owned("Unknown tool: ");
    push_str(&mut r, name);
    r
}

/// The text content of a tool's answer and whether it reports an error: the
/// tool's text, or `Error: ` and the error's text.
pub fn tool_call_text(result: Result<String, String>) -> (r: (String, bool))
    ensures
        match result {
            Ok(t) => r.0@ == t@ && !r.1,
            Err(e) => r.0@ == "Error: "@ + e@ && r.1,
        },
{
    match result {
        Ok(t) => (t, false),
        Err(e) => {
            let mut m = owned("Error: ");
            push_str(&mut m, e.as_str());
            (m, true)
        },
    }
}

// ---------------------------------------------------------------------------
// The arguments of each tool, with their defaults.
// ---------------------------------------------------------------------------

/// A text argument, or `default` where it is missing.
pub open spec fn text_or(arg: Option<&str>, default: Seq<char>) -> Seq<char> {
    match arg {
        Some(s) => s@,
        None => default,
    }
}

fn text_arg(arg: Option<&str>, default: &str) -> (r: String)
    ensures
        r@ == text_or(arg, default@),
{
    match arg {
        Some(s) => owned(s),
        None => owned(default),
    }
}

fn optional_text(arg: Option<&str>) -> (r: Option<String>)
    ensures
        match arg {
            Some(s) => r matches Some(t) && t@ == s@,
            None => r is None,
        },
{
    match arg {
        Some(s) => Some(owned(s)),
        None => None,
    }
}

fn required_text(arg: Option<&str>, missing: &str) -> (r: Result<String, String>)
    ensures
        match arg {
            Some(s) => r matches Ok(t) && t@ == s@,
            None => r matches Err(e) && e@ == missing@,
        },
{
    match arg {
        Some(s) => Ok(owned(s)),
        None => Err(owned(missing)),
    }
}

/// The arguments of `memory_search`.
pub struct SearchArgs {
    pub query: String,
    pub limit: usize,
    pub mode: SearchMode,
    pub scope: SearchScope,
}

/// Reads the arguments of `memory_search`: the query is required; the limit
/// defaults to 10, the mode to `hybrid`, the scope to `auto`.
pub fn search_args(
    query: Option<&str>,
    limit: Option<u64>,
    mode: Option<&str>,
    scope: Option<&str>,
) -> (r: Result<SearchArgs, String>)
    ensures
        query is None <==> r is Err,
        r matches Err(e) ==> e@ == "Missing 'query' parameter"@,
        r matches Ok(a) ==> {
            &&& a.query@ == text_or(query, Seq::empty())
            &&& a.limit == (match limit {
                Some(n) => n,
                None => 10,
            }) as usize
            &&& a.mode == parse_mode(text_or(mode, "hybrid"@))
            &&& a.scope == parse_scope(text_or(scope, "auto"@))
        },
{
    let q = match required_text(query, "Missing 'query' parameter") {
        Ok(q) => q,
        Err(e) => return Err(e),
    };
    let n: u64 = match limit {
        Some(n) => n,
        None => 10,
    };
    let m = text_arg(mode, "hybrid");
    let s = text_arg(scope, "auto");
    Ok(SearchArgs {
        query: q,
        limit: n as usize,
        mode: SearchMode::parse(m.as_str()),
        scope: SearchScope::parse(s.as_str()),
    })
}

/// The arguments of `memory_add`.
pub struct AddArgs {
    pub title: String,
    pub content: String,
    pub tags: String,
    pub kind: String,
    pub observation_type: String,
    pub session_id: Option<String>,
    pub source: String,
    pub project: String,
}

/// Reads the arguments of `memory_add`: title and content are required
/// (the title is checked first); tags default to empty, the kind to
/// `manual`, the type to `change`, the source to `manual`, the project to
/// empty.
pub fn add_args(
    title: Option<&str>,
    content: Option<&str>,
    tags: Option<&str>,
    kind: Option<&str>,
    observation_type: Option<&str>,
    session_id: Option<&str>,
    source: Option<&str>,
    project: Option<&str>,
) -> (r: Result<AddArgs, String>)
    ensures
        (title is None || content is None) <==> r is Err,
        r matches Err(e) ==> e@ == (if title is None {
            "Missing 'title'"@
        } else {
            "Missing 'content'"@
        }),
        r matches Ok(a) ==> {
            &&& a.title@ == text_or(title, Seq::empty())
            &&& a.content@ == text_or(content, Seq::empty())
            &&& a.tags@ == text_or(tags, ""@)
            &&& a.kind@ == text_or(kind, "manual"@)
            &&& a.observation_type@ == text_or(observation_type, "change"@)
            &&& match session_id {
                Some(s) => a.session_id matches Some(t) && t@ == s@,
                None => a.session_id is None,
            }
            &&& a.source@ == text_or(source, "manual"@)
            &&& a.project@ == text_or(project, ""@)
        },
{
    let t = match required_text(title, "Missing 'title'") {
        Ok(t) => t,
        Err(e) => return Err(e),
    };
    let c = match required_text(content, "Missing 'content'") {
        Ok(c) => c,
        Err(e) => return Err(e),
    };
    Ok(AddArgs {
        title: t,
        content: c,
        tags: text_arg(tags, ""),
        kind: text_arg(kind, "manual"),
        observation_type: text_arg(observation_type, "change"),
        session_id: optional_text(session_id),
        source: text_arg(source, "manual"),
        project: text_arg(project, ""),
    })
}

/// Reads the `id` argument of `memory_get` and `memory_delete`.
pub fn id_arg(id: Option<i64>) -> (r: Result<i64, String>)
    ensures
        match id {
            Some(n) => r == Ok::<i64, String>(n),
            None => r matches Err(e) && e@ == "Missing 'id'"@,
        },
{
    match id {
        Some(n) => Ok(n),
        None => Err(owned("Missing 'id'")),
    }
}

/// The arguments of `memory_list`.
pub struct ListArgs {
    pub limit: usize,
    pub scope: SearchScope,
}

/// Reads the arguments of `memory_list`: the limit defaults to 20, the scope
/// to `all`.
pub fn list_args(limit: Option<u64>, scope: Option<&str>) -> (r: ListArgs)
    ensures
        r.limit == (match limit {
            Some(n) => n,
            None => 20,
        }) as usize,
        r.scope == parse_scope(text_or(scope, "all"@)),
{
    let n: u64 = match limit {
        Some(n) => n,
        None => 20,
    };
    let s = text_arg(scope, "all");
    ListArgs { limit: n as usize, scope: SearchScope::parse(s.as_str()) }
}

/// The arguments of `memory_observe`.
pub struct ObserveArgs {
    pub kind: String,
    pub tool_name: String,
    pub tool_input: String,
    pub tool_output: String,
    pub session_id: Option<String>,
    pub source: String,
    pub project: String,
    pub cwd: String,
    pub user_prompt: Option<String>,
    pub tags: String,
    pub files_read: Vec<String>,
    pub files_modified: Vec<String>,
}

/// Reads the arguments of `memory_observe`: the tool's name and output are
/// required (the name is checked first); the kind defaults to `observation`,
/// the input to empty, the source to `opencode`, the project to empty, the
/// working directory to `.`, the tags to empty. The file lists are the
/// texts of the given arrays.
pub fn observe_args(
    kind: Option<&str>,
    tool_name: Option<&str>,
    tool_input: Option<&str>,
    tool_output: Option<&str>,
    session_id: Option<&str>,
    source: Option<&str>,
    project: Option<&str>,
    cwd: Option<&str>,
    user_prompt: Option<&str>,
    tags: Option<&str>,
    files_read: Vec<String>,
    files_modified: Vec<String>,
) -> (r: Result<ObserveArgs, String>)
    ensures
        (tool_name is None || tool_output is None) <==> r is Err,
        r matches Err(e) ==> e@ == (if tool_name is None {
            "Missing 'tool_name'"@
        } else {
            "Missing 'tool_output'"@
        }),
        r matches Ok(a) ==> {
            &&& a.kind@ == text_or(kind, "observation"@)
            &&& a.tool_name@ == text_or(tool_name, Seq::empty())
            &&& a.tool_input@ == text_or(tool_input, ""@)
            &&& a.tool_output@ == text_or(tool_output, Seq::empty())
            &&& match session_id {
                Some(s) => a.session_id matches Some(t) && t@ == s@,
                None => a.session_id is None,
            }
            &&& a.source@ == text_or(source, "opencode"@)
            &&& a.project@ == text_or(project, ""@)
            &&& a.cwd@ == text_or(cwd, "."@)
            &&& match user_prompt {
                Some(s) => a.user_prompt matches Some(t) && t@ == s@,
                None => a.user_prompt is None,
            }
            &&& a.tags@ == text_or(tags, ""@)
            &&& a.files_read@ == files_read@
            &&& a.files_modified@ == files_modified@
        },
{
    let name = match required_text(tool_name, "Missing 'tool_name'") {
        Ok(t) => t,
        Err(e) => return Err(e),
    };
    let output = match required_text(tool_output, "Missing 'tool_output'") {
        Ok(t) => t,
        Err(e) => return Err(e),
    };
    Ok(ObserveArgs {
        kind: text_arg(kind, "observation"),
        tool_name: name,
        tool_input: text_arg(tool_input, ""),
        tool_output: output,
        session_id: optional_text(session_id),
        source: text_arg(source, "opencode"),
        project: text_arg(project, ""),
        cwd: text_arg(cwd, "."),
        user_prompt: optional_text(user_prompt),
        tags: text_arg(tags, ""),
        files_read,
        files_modified,
    })
}

/// The arguments of `memory_summarize`.
pub struct SummarizeArgs {
    pub session_id: String,
    pub project: String,
    pub source: String,
}

/// Reads the arguments of `memory_summarize`: the session is required; the
/// project defaults to empty, the source to `opencode`.
pub fn summarize_args(session_id: Option<&str>, project: Option<&str>, source: Option<&str>) -> (r:
    Result<SummarizeArgs, String>)
    ensures
        session_id is None <==> r is Err,
        r matches Err(e) ==> e@ == "Missing 'session_id'"@,
        r matches Ok(a) ==> {
            &&& a.session_id@ == text_or(session_id, Seq::empty())
            &&& a.project@ == text_or(project, ""@)
            &&& a.source@ == text_or(source, "opencode"@)
        },
{
    let s = match required_text(session_id, "Missing 'session_id'") {
        Ok(s) => s,
        Err(e) => return Err(e),
    };
    Ok(SummarizeArgs { session_id: s, project: text_arg(project, ""), source: text_arg(source, "opencode") })
}

// ---------------------------------------------------------------------------
// The texts that tools answer with.
// ---------------------------------------------------------------------------

/// What became of the embedding of a stored memory.
#[derive(Debug, Clone)]
pub enum VectorOutcome {
    /// The vector was computed and stored.
    Indexed,
    /// The vector was computed but could not be stored; the error's text.
    InsertFailed(String),
    /// No vector could be computed; the error's text.
    Skipped(String),
}

/// The status of a memory's vector as `memory_add` and the command line
/// report it.
pub open spec fn stored_vector_status(o: VectorOutcome) -> Seq<char> {
    match o {
        VectorOutcome::Indexed => "vector indexed"@,
        VectorOutcome::InsertFailed(e) => "memory stored, vector insert failed: "@ + e@,
        VectorOutcome::Skipped(e) => "memory stored, vector skipped: "@ + e@,
    }
}

/// The status of a memory's vector as `memory_observe` reports it.
pub open spec fn observed_vector_status(o: VectorOutcome) -> Seq<char> {
    match o {
        VectorOutcome::Indexed => "vector indexed"@,
        VectorOutcome::InsertFailed(e) => "vector insert failed: "@ + e@,
        VectorOutcome::Skipped(e) => "vector skipped: "@ + e@,
    }
}

/// Writes the status of a stored memory's vector.
pub fn stored_vector_text(o: &VectorOutcome) -> (r: String)
    ensures
        r@ == stored_vector_status(*o),
{
    match o {
        VectorOutcome::Indexed => owned("vector indexed"),
        VectorOutcome::InsertFailed(e) => {
            let mut m = owned("memory stored, vector insert failed: ");
            push_str(&mut m, e.as_str());
            m
        },
        VectorOutcome::Skipped(e) => {
            let mut m = owned("memory stored, vector skipped: ");
            push_str(&mut m, e.as_str());
            m
        },
    }
}

/// Writes the status of an observed memory's vector.
pub fn observed_vector_text(o: &VectorOutcome) -> (r: String)
    ensures
        r@ == observed_vector_status(*o),
{
    match o {
        VectorOutcome::Indexed => owned("vector indexed"),
        VectorOutcome::InsertFailed(e) => {
            let mut m = owned("vector insert failed: ");
            push_str(&mut m, e.as_str());
            m
        },
        VectorOutcome::Skipped(e) => {
            let mut m = owned("vector skipped: ");
            push_str(&mut m, e.as_str());
            m
        },
    }
}

/// `prefix`, the id, ` (`, the status and `)`.
fn id_with_status(prefix: &str, id: i64, status: &str) -> (r: String)
    ensures
        r@ == prefix@ + signed_decimal(id as int) + " ("@ + status@ + ")"@,
{
    let mut m = owned(prefix);
    push_str(&mut m, decimal_i64(id).as_str());
    push_str(&mut m, " (");
    push_str(&mut m, status);
    push_str(&mut m, ")");
    m
}

/// The answer of `memory_add`.
pub fn memory_added_message(id: i64, status: &str) -> (r: String)
    ensures
        r@ == "Memory added with ID: "@ + signed_decimal(id as int) + " ("@ + status@ + ")"@,
{
    id_with_status("Memory added with ID: ", id, status)
}

/// The answer of `memory_observe`.
pub fn observed_message(id: i64, status: &str) -> (r: String)
    ensures
        r@ == "Observed and stored: memory ID "@ + signed_decimal(id as int) + " ("@ + status@
            + ")"@,
{
    id_with_status("Observed and stored: memory ID ", id, status)
}

/// The answer of `memory_delete`: whether a memory was deleted.
pub fn deletion_message(id: i64, deleted: bool) -> (r: String)
    ensures
        r@ == "Memory "@ + signed_decimal(id as int) + (if deleted {
            " deleted"@
        } else {
            " not found"@
        }),
{
    let mut m = owned("Memory ");
    push_str(&mut m, decimal_i64(id).as_str());
    if deleted {
        push_str(&mut m, " deleted");
    } else {
        push_str(&mut m, " not found");
    }
    m
}

/// The answer of `memory_summarize`: the id of the stored summary, or that
/// the session had nothing to summarize.
pub fn summary_message(stored: Option<i64>) -> (r: String)
    ensures
        match stored {
            Some(id) => r@ == "Summary stored: memory ID "@ + signed_decimal(id as int),
            None => r@ == "No memories to summarize in this session"@,
        },
{
    match stored {
        Some(id) => {
            let mut m = owned("Summary stored: memory ID ");
            push_str(&mut m, decimal_i64(id).as_str());
            m
        },
        None => owned("No memories to summarize in this session"),
    }
}

} // verus!
