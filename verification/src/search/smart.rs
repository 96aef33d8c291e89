use vstd::prelude::*;
use crate::observer::classifier::preview_spec;
use crate::text::strings::{
    ascii_lower, chars_of, contains_chars, contains_seq, owned, push_str, str_eq, string_of,
    string_of_range, to_ascii_lowercase, trim_str, trim_view,
};

verus! {

// ---------------------------------------------------------------------------
// Modes and scopes.
// ---------------------------------------------------------------------------

/// The engine that a search runs on.
#[derive(Debug, Clone, Copy, PartialEq, Eq, Structural)]
pub enum SearchMode {
    Fts5,
    Vector,
    Hybrid,
}

/// The mode named by a text (trimmed, ASCII case ignored); anything unknown is `Fts5`.
pub open spec fn parse_mode(value: Seq<char>) -> SearchMode {
    let v = ascii_lower(trim_view(value));
    if v == "vector"@ {
        SearchMode::Vector
    } else if v == "hybrid"@ {
        SearchMode::Hybrid
    } else {
        SearchMode::Fts5
    }
}

/// The name of a mode.
pub open spec fn mode_name(m: SearchMode) -> Seq<char> {
    match m {
        SearchMode::Fts5 => "fts5"@,
        SearchMode::Vector => "vector"@,
        SearchMode::Hybrid => "hybrid"@,
    }
}

impl SearchMode {
    /// Reads a mode from its name; unknown names give `Fts5`.
    pub fn parse(value: &str) -> (r: Self)
        ensures
            r == parse_mode(value@),
    {
        let lowered = to_ascii_lowercase(trim_str(value));
        let v = lowered.as_str();
        if str_eq(v, "vector") {
            SearchMode::Vector
        } else if str_eq(v, "hybrid") {
            SearchMode::Hybrid
        } else {
            SearchMode::Fts5
        }
    }

    /// The name of this mode.
    pub fn as_str(&self) -> (r: &'static str)
        ensures
            r@ == mode_name(*self),
    {
        match self {
            SearchMode::Fts5 => "fts5",
            SearchMode::Vector => "vector",
            SearchMode::Hybrid => "hybrid",
        }
    }
}

/// Which memories a search looks at.
#[derive(Debug, Clone, Copy, PartialEq, Eq, Structural)]
pub enum SearchScope {
    Auto,
    Chat,
    Tool,
    All,
}

/// The scope named by a text (trimmed, ASCII case ignored; `tools` means
/// `Tool`); anything unknown is `Auto`.
pub open spec fn parse_scope(value: Seq<char>) -> SearchScope {
    let v = ascii_lower(trim_view(value));
    if v == "chat"@ {
        SearchScope::Chat
    } else if v == "tool"@ || v == "tools"@ {
        SearchScope::Tool
    } else if v == "all"@ {
        SearchScope::All
    } else {
        SearchScope::Auto
    }
}

/// The name of a scope.
pub open spec fn scope_name(s: SearchScope) -> Seq<char> {
    match s {
        SearchScope::Auto => "auto"@,
        SearchScope::Chat => "chat"@,
        SearchScope::Tool => "tool"@,
        SearchScope::All => "all"@,
    }
}

impl SearchScope {
    /// Reads a scope from its name; unknown names give `Auto`.
    pub fn parse(value: &str) -> (r: Self)
        ensures
            r == parse_scope(value@),
    {
        let lowered = to_ascii_lowercase(trim_str(value));
        let v = lowered.as_str();
        if str_eq(v, "chat") {
            SearchScope::Chat
        } else if str_eq(v, "tool") || str_eq(v, "tools") {
            SearchScope::Tool
        } else if str_eq(v, "all") {
            SearchScope::All
        } else {
            SearchScope::Auto
        }
    }

    /// The name of this scope.
    pub fn as_str(&self) -> (r: &'static str)
        ensures
            r@ == scope_name(*self),
    {
        match self {
            SearchScope::Auto => "auto",
            SearchScope::Chat => "chat",
            SearchScope::Tool => "tool",
            SearchScope::All => "all",
        }
    }
}

/// Parsing the name of a scope gives the scope back.
pub proof fn lemma_scope_name_round_trip(s: SearchScope)
    ensures
        parse_scope(scope_name(s)) == s,
{
    reveal_strlit("auto");
    reveal_strlit("chat");
    reveal_strlit("tool");
    reveal_strlit("tools");
    reveal_strlit("all");
    let n = scope_name(s);
    assert(trim_view(n) == n);
    assert(ascii_lower(n) =~= n);
}

/// Parsing the name of a mode gives the mode back.
pub proof fn lemma_mode_name_round_trip(m: SearchMode)
    ensures
        parse_mode(mode_name(m)) == m,
{
    reveal_strlit("fts5");
    reveal_strlit("vector");
    reveal_strlit("hybrid");
    let n = mode_name(m);
    assert(trim_view(n) == n);
    assert(ascii_lower(n) =~= n);
}

// ---------------------------------------------------------------------------
// Query hints.
// ---------------------------------------------------------------------------

/// Phrases that ask for earlier conversation.
pub open spec fn history_hints() -> Seq<Seq<char>> {
    seq![
        "previous chat"@,
        "chat history"@,
        "conversation history"@,
        "last chat"@,
        "last conversation"@,
        "earlier chat"@,
        "what did i say"@,
        "what did we say"@,
        "we discussed"@,
        "lần trước"@,
        "trước đó"@,
        "vừa nãy"@,
        "hồi nãy"@,
        "khi nãy"@,
        "đã nói"@,
    ]
}

/// Words that point at chat memories.
pub open spec fn chat_hints() -> Seq<Seq<char>> {
    seq![
        "chat"@,
        "conversation"@,
        "prompt"@,
        "message"@,
        "history"@,
        "assistant"@,
        "user"@,
        "lần trước"@,
        "trước đó"@,
        "đã nói"@,
    ]
}

/// Words that point at tool memories.
pub open spec fn tool_hints() -> Seq<Seq<char>> {
    seq![
        "tool"@,
        "mcp"@,
        "bash"@,
        "command"@,
        "terminal"@,
        "patch"@,
        "grep"@,
        "search_code"@,
        "github"@,
    ]
}

/// The ASCII-lowercased query contains one of the hints.
pub open spec fn mentions_any(query: Seq<char>, hints: Seq<Seq<char>>) -> bool {
    exists|i: int| 0 <= i < hints.len() && contains_seq(ascii_lower(query), #[trigger] hints[i])
}

fn history_hint_list() -> (v: Vec<&'static str>)
    ensures
        v@.map_values(|x: &str| x@) == history_hints(),
{
    let v = vec![
        "previous chat",
        "chat history",
        "conversation history",
        "last chat",
        "last conversation",
        "earlier chat",
        "what did i say",
        "what did we say",
        "we discussed",
        "lần trước",
        "trước đó",
        "vừa nãy",
        "hồi nãy",
        "khi nãy",
        "đã nói",
    ];
    assert(v@.map_values(|x: &str| x@) =~= history_hints());
    v
}

fn chat_hint_list() -> (v: Vec<&'static str>)
    ensures
        v@.map_values(|x: &str| x@) == chat_hints(),
{
    let v = vec![
        "chat",
        "conversation",
        "prompt",
        "message",
        "history",
        "assistant",
        "user",
        "lần trước",
        "trước đó",
        "đã nói",
    ];
    assert(v@.map_values(|x: &str| x@) =~= chat_hints());
    v
}

fn tool_hint_list() -> (v: Vec<&'static str>)
    ensures
        v@.map_values(|x: &str| x@) == tool_hints(),
{
    let v = vec![
        "tool",
        "mcp",
        "bash",
        "command",
        "terminal",
        "patch",
        "grep",
        "search_code",
        "github",
    ];
    assert(v@.map_values(|x: &str| x@) =~= tool_hints());
    v
}

/// Whether the ASCII-lowercased query contains one of the hints.
fn mentions(query: &str, hints: &Vec<&'static str>) -> (r: bool)
    ensures
        r == mentions_any(query@, hints@.map_values(|x: &str| x@)),
{
    let lowered = chars_of(to_ascii_lowercase(query).as_str());
    let ghost hv = hints@.map_values(|x: &str| x@);
    let mut i: usize = 0;
    while i < hints.len()
        invariant
            i <= hints@.len(),
            hv == hints@.map_values(|x: &str| x@),
            lowered@ == ascii_lower(query@),
            forall|j: int| 0 <= j < i ==> !contains_seq(ascii_lower(query@), #[trigger] hv[j]),
        decreases hints@.len() - i,
    {
        let h = chars_of(hints[i]);
        if contains_chars(&lowered, &h) {
            assert(contains_seq(ascii_lower(query@), hv[i as int]));
            return true;
        }
        i = i + 1;
    }
    false
}

fn looks_like_history_query(query: &str) -> (r: bool)
    ensures
        r == mentions_any(query@, history_hints()),
{
    mentions(query, &history_hint_list())
}

fn looks_like_chat_query(query: &str) -> (r: bool)
    ensures
        r == mentions_any(query@, chat_hints()),
{
    mentions(query, &chat_hint_list())
}

fn looks_like_tool_query(query: &str) -> (r: bool)
    ensures
        r == mentions_any(query@, tool_hints()),
{
    mentions(query, &tool_hint_list())
}

/// The scope a search runs in: the requested one, or for `Auto` a scope
/// guessed from the query (history phrases mean `Chat`, tool words `Tool`).
pub open spec fn resolve_scope_spec(query: Seq<char>, requested: SearchScope) -> SearchScope {
    if requested != SearchScope::Auto {
        requested
    } else if mentions_any(query, history_hints()) {
        SearchScope::Chat
    } else if mentions_any(query, tool_hints()) {
        SearchScope::Tool
    } else {
        SearchScope::Auto
    }
}

/// A scope asked for other than `Auto` is kept. For `Auto`, a query holding
/// a history phrase (ASCII case ignored) is a chat search; otherwise one
/// holding a tool word (`tool`, `mcp`, `bash`, `command`, `terminal`, `patch`,
/// `grep`, `search_code`, `github`; ASCII case ignored) is a tool search; any
/// other stays `Auto`.
pub proof fn lemma_resolved_scope(query: Seq<char>, requested: SearchScope)
    ensures
        requested != SearchScope::Auto ==> resolve_scope_spec(query, requested) == requested,
        requested == SearchScope::Auto && (exists|i: int|
            0 <= i < history_hints().len() && contains_seq(ascii_lower(query), #[trigger] history_hints()[i]))
            ==> resolve_scope_spec(query, requested) == SearchScope::Chat,
        requested == SearchScope::Auto && !(exists|i: int|
            0 <= i < history_hints().len() && contains_seq(ascii_lower(query), #[trigger] history_hints()[i]))
            && {
            let l = ascii_lower(query);
            ||| contains_seq(l, "tool"@)
            ||| contains_seq(l, "mcp"@)
            ||| contains_seq(l, "bash"@)
            ||| contains_seq(l, "command"@)
            ||| contains_seq(l, "terminal"@)
            ||| contains_seq(l, "patch"@)
            ||| contains_seq(l, "grep"@)
            ||| contains_seq(l, "search_code"@)
            ||| contains_seq(l, "github"@)
        } ==> resolve_scope_spec(query, requested) == SearchScope::Tool,
{
    let h = tool_hints();
    assert(h[0] == "tool"@ && h[1] == "mcp"@ && h[2] == "bash"@ && h[3] == "command"@);
    assert(h[4] == "terminal"@ && h[5] == "patch"@ && h[6] == "grep"@ && h[7] == "search_code"@);
    assert(h[8] == "github"@);
}

/// Resolves the scope of a search (see `resolve_scope_spec`).
pub fn resolve_scope(query: &str, requested: SearchScope) -> (r: SearchScope)
    ensures
        r == resolve_scope_spec(query@, requested),
{
    if requested != SearchScope::Auto {
        return requested;
    }
    if looks_like_history_query(query) {
        return SearchScope::Chat;
    }
    if looks_like_tool_query(query) {
        return SearchScope::Tool;
    }
    SearchScope::Auto
}

// ---------------------------------------------------------------------------
// Tags.
// ---------------------------------------------------------------------------

/// The pieces of `s` between commas (what `str::split(',')` yields; an empty
/// text gives one empty piece).
pub open spec fn comma_pieces(s: Seq<char>) -> Seq<Seq<char>>
    decreases s.len(),
{
    if s.len() == 0 {
        seq![seq![]]
    } else {
        let w = comma_pieces(s.drop_last());
        if s.last() == ',' {
            w.push(seq![])
        } else {
            w.update(w.len() - 1, w.last().push(s.last()))
        }
    }
}

/// Splitting on commas gives at least one piece.
pub proof fn lemma_comma_pieces_nonempty(s: Seq<char>)
    ensures
        comma_pieces(s).len() > 0,
    decreases s.len(),
{
    if s.len() > 0 {
        lemma_comma_pieces_nonempty(s.drop_last());
    }
}

/// One of the comma-separated tags, trimmed, is one of the wanted tags.
pub open spec fn has_any_tag_spec(tags: Seq<char>, wanted: Seq<Seq<char>>) -> bool {
    exists|i: int, j: int|
        0 <= i < comma_pieces(tags).len() && 0 <= j < wanted.len() && trim_view(
            #[trigger] comma_pieces(tags)[i],
        ) == #[trigger] wanted[j]
}

/// The tags that mark chat memories.
pub open spec fn chat_tags() -> Seq<Seq<char>> {
    seq!["prompt"@, "user"@, "assistant"@, "reply"@, "chat"@]
}

/// The tags that mark tool memories.
pub open spec fn tool_tags() -> Seq<Seq<char>> {
    seq!["tool"@, "mcp"@]
}

/// The tags that mark failed executions.
pub open spec fn error_tags() -> Seq<Seq<char>> {
    seq!["error"@, "failed"@]
}

/// Whether one of the comma-separated tags (trimmed) is one of the wanted tags.
fn has_any_tag(tags: &str, wanted: &Vec<&'static str>) -> (r: bool)
    ensures
        r == has_any_tag_spec(tags@, wanted@.map_values(|x: &str| x@)),
{
    let ghost wv = wanted@.map_values(|x: &str| x@);
    // Split on commas.
    let mut pieces: Vec<Vec<char>> = Vec::new();
    let mut current: Vec<char> = Vec::new();
    for c in it: tags.chars()
        invariant
            it.seq() == tags@,
            comma_pieces(tags@.take(it.index() as int)) == pieces@.map_values(
                |p: Vec<char>| p@,
            ).push(current@),
    {
        let ghost i = it.index() as int;
        assert(tags@.take(i + 1).drop_last() == tags@.take(i));
        assert(tags@.take(i + 1).last() == c);
        if c == ',' {
            pieces.push(current);
            current = Vec::new();
        } else {
            current.push(c);
        }
        assert(pieces@.map_values(|p: Vec<char>| p@).push(current@).drop_last() == pieces@.map_values(
            |p: Vec<char>| p@,
        ));
    }
    pieces.push(current);
    assert(tags@.take(tags@.len() as int) == tags@);
    let ghost pv = pieces@.map_values(|p: Vec<char>| p@);
    assert(pv == comma_pieces(tags@));
    // Compare each trimmed piece with the wanted tags.
    let mut i: usize = 0;
    while i < pieces.len()
        invariant
            i <= pieces@.len(),
            pv == pieces@.map_values(|p: Vec<char>| p@),
            pv == comma_pieces(tags@),
            wv == wanted@.map_values(|x: &str| x@),
            forall|a: int, b: int|
                0 <= a < i && 0 <= b < wv.len() ==> trim_view(#[trigger] pv[a]) != #[trigger] wv[b],
        decreases pieces@.len() - i,
    {
        let piece = string_of(&pieces[i]);
        let t = trim_str(piece.as_str());
        let mut j: usize = 0;
        while j < wanted.len()
            invariant
                i < pieces@.len(),
                pv == comma_pieces(tags@),
                pv.len() == pieces@.len(),
                j <= wanted@.len(),
                t@ == trim_view(pv[i as int]),
                wv == wanted@.map_values(|x: &str| x@),
                forall|b: int| 0 <= b < j ==> t@ != #[trigger] wv[b],
            decreases wanted@.len() - j,
        {
            if str_eq(t, wanted[j]) {
                assert(trim_view(comma_pieces(tags@)[i as int]) == wv[j as int]);
                assert(0 <= i < comma_pieces(tags@).len() && 0 <= j < wv.len());
                return true;
            }
            j = j + 1;
        }
        i = i + 1;
    }
    false
}

fn chat_tag_list() -> (v: Vec<&'static str>)
    ensures
        v@.map_values(|x: &str| x@) == chat_tags(),
{
    let v = vec!["prompt", "user", "assistant", "reply", "chat"];
    assert(v@.map_values(|x: &str| x@) =~= chat_tags());
    v
}

fn tool_tag_list() -> (v: Vec<&'static str>)
    ensures
        v@.map_values(|x: &str| x@) == tool_tags(),
{
    let v = vec!["tool", "mcp"];
    assert(v@.map_values(|x: &str| x@) =~= tool_tags());
    v
}

fn error_tag_list() -> (v: Vec<&'static str>)
    ensures
        v@.map_values(|x: &str| x@) == error_tags(),
{
    let v = vec!["error", "failed"];
    assert(v@.map_values(|x: &str| x@) =~= error_tags());
    v
}

fn is_chat_memory(tags: &str) -> (r: bool)
    ensures
        r == has_any_tag_spec(tags@, chat_tags()),
{
    has_any_tag(tags, &chat_tag_list())
}

fn is_tool_memory(tags: &str) -> (r: bool)
    ensures
        r == has_any_tag_spec(tags@, tool_tags()),
{
    has_any_tag(tags, &tool_tag_list())
}

fn is_error_memory(tags: &str) -> (r: bool)
    ensures
        r == has_any_tag_spec(tags@, error_tags()),
{
    has_any_tag(tags, &error_tag_list())
}

/// A memory with these tags belongs to the scope: `Chat` takes chat memories
/// that are neither tool nor error memories, `Tool` takes tool memories, and
/// `Auto` and `All` take everything.
pub open spec fn matches_scope_spec(tags: Seq<char>, scope: SearchScope) -> bool {
    match scope {
        SearchScope::Auto | SearchScope::All => true,
        SearchScope::Chat => has_any_tag_spec(tags, chat_tags()) && !has_any_tag_spec(
            tags,
            tool_tags(),
        ) && !has_any_tag_spec(tags, error_tags()),
        SearchScope::Tool => has_any_tag_spec(tags, tool_tags()),
    }
}

/// Whether a memory with these tags belongs to the scope.
pub fn matches_scope(tags: &str, scope: SearchScope) -> (r: bool)
    ensures
        r == matches_scope_spec(tags@, scope),
{
    match scope {
        SearchScope::Auto | SearchScope::All => true,
        SearchScope::Chat => is_chat_memory(tags) && !is_tool_memory(tags) && !is_error_memory(
            tags,
        ),
        SearchScope::Tool => is_tool_memory(tags),
    }
}

// ---------------------------------------------------------------------------
// Reranking.
// ---------------------------------------------------------------------------

/// What reranking reads of a search result.
#[derive(Debug, Clone)]
pub struct RerankCandidate {
    pub tags: String,
    pub updated_at_epoch: i64,
}

/// A kept result: its position among the candidates and its effective rank
/// (lower ranks come first).
#[derive(Debug, Clone, Copy, PartialEq, Eq, Structural)]
pub struct Ranked {
    pub index: usize,
    pub rank: i128,
}

/// The rank bonus for a memory updated at `updated_at_epoch`, seen at `now`:
/// 3 within a day, 2 within a week, 1 within thirty days, else 0 (ages in
/// whole seconds; an age of exactly a day still counts as within a day).
pub open spec fn recency_bonus_spec(now: int, updated_at_epoch: int) -> int {
    let age = now - updated_at_epoch;
    if age <= 86400 {
        3
    } else if age <= 604800 {
        2
    } else if age <= 2592000 {
        1
    } else {
        0
    }
}

/// The rank bonus for recent memories (see `recency_bonus_spec`).
pub fn recency_rank_bonus(updated_at_epoch: i64, now: i64) -> (r: i128)
    requires
        i64::MIN <= now - updated_at_epoch <= i64::MAX,
    ensures
        r == recency_bonus_spec(now as int, updated_at_epoch as int),
{
    let age: i64 = now - updated_at_epoch;
    if age <= 86400 {
        3
    } else if age <= 604800 {
        2
    } else if age <= 2592000 {
        1
    } else {
        0
    }
}

/// The effective rank of the candidate at position `idx`: its position, moved
/// back 8 for errors (outside the tool scope); in the `Auto` scope moved back 4
/// for tool memories the query does not ask for and forward 2 for chat
/// memories it asks for; forward 4 for chat memories in the chat scope and for
/// tool memories in the tool scope; and forward by the recency bonus.
pub open spec fn effective_rank(
    idx: int,
    tags: Seq<char>,
    scope: SearchScope,
    wants_chat: bool,
    wants_tool: bool,
    bonus: int,
) -> int {
    let chat = has_any_tag_spec(tags, chat_tags());
    let tool = has_any_tag_spec(tags, tool_tags());
    let error = has_any_tag_spec(tags, error_tags());
    idx + (if error && scope != SearchScope::Tool {
        8int
    } else {
        0int
    }) + (if scope == SearchScope::Auto && tool && !wants_tool {
        4int
    } else {
        0int
    }) - (if scope == SearchScope::Auto && chat && wants_chat {
        2int
    } else {
        0int
    }) - (if scope == SearchScope::Chat && chat {
        4int
    } else {
        0int
    }) - (if scope == SearchScope::Tool && tool {
        4int
    } else {
        0int
    }) - bonus
}

/// The candidates that belong to the scope, in order, with their effective ranks.
pub open spec fn rerank_pool(
    query: Seq<char>,
    scope: SearchScope,
    cands: Seq<RerankCandidate>,
    now: int,
) -> Seq<Ranked>
    decreases cands.len(),
{
    if cands.len() == 0 {
        seq![]
    } else {
        let rest = rerank_pool(query, scope, cands.drop_last(), now);
        let idx = cands.len() - 1;
        let c = cands.last();
        if matches_scope_spec(c.tags@, scope) {
            rest.push(
                Ranked {
                    index: idx as usize,
                    rank: effective_rank(
                        idx,
                        c.tags@,
                        scope,
                        mentions_any(query, chat_hints()),
                        mentions_any(query, tool_hints()),
                        recency_bonus_spec(now, c.updated_at_epoch as int),
                    ) as i128,
                },
            )
        } else {
            rest
        }
    }
}

/// `a` comes before `b`: lower rank, or equal rank and earlier position.
pub open spec fn ranked_before(a: Ranked, b: Ranked) -> bool {
    a.rank < b.rank || (a.rank == b.rank && a.index < b.index)
}

/// `r` holds, in order, the `limit` first results of `pool` under
/// `ranked_before` (all of them when there are fewer).
pub open spec fn is_top_ranked(r: Seq<Ranked>, pool: Seq<Ranked>, limit: int) -> bool {
    &&& r.len() <= limit
    &&& forall|i: int, j: int| 0 <= i < j < r.len() ==> ranked_before(#[trigger] r[i], #[trigger] r[j])
    &&& forall|i: int| 0 <= i < r.len() ==> pool.contains(#[trigger] r[i])
    &&& forall|e: Ranked| #[trigger] pool.contains(e) && !r.contains(e) ==> forall|i: int|
        0 <= i < r.len() ==> ranked_before(#[trigger] r[i], e)
    &&& (r.len() == limit || forall|e: Ranked| #[trigger] pool.contains(e) ==> r.contains(e))
}

fn ranked_before_exec(a: &Ranked, b: &Ranked) -> (r: bool)
    ensures
        r == ranked_before(*a, *b),
{
    a.rank < b.rank || (a.rank == b.rank && a.index < b.index)
}

/// Keeps the results that belong to the scope, reranks them (see
/// `effective_rank`) and returns the `limit` best; earlier results win ties.
/// The caller scores each kept result `1 / (max(rank, 0) + 1)`.
pub fn filter_and_rerank(
    query: &str,
    scope: SearchScope,
    candidates: &Vec<RerankCandidate>,
    limit: usize,
    now: i64,
) -> (r: Vec<Ranked>)
    requires
        forall|i: int|
            0 <= i < candidates@.len() ==> i64::MIN <= now - (#[trigger] candidates@[i]).updated_at_epoch
                <= i64::MAX,
    ensures
        is_top_ranked(r@, rerank_pool(query@, scope, candidates@, now as int), limit as int),
{
    let wants_chat = looks_like_chat_query(query);
    let wants_tool = looks_like_tool_query(query);
    // The candidates of the scope with their ranks.
    let mut pool: Vec<Ranked> = Vec::new();
    let mut k: usize = 0;
    while k < candidates.len()
        invariant
            k <= candidates@.len(),
            wants_chat == mentions_any(query@, chat_hints()),
            wants_tool == mentions_any(query@, tool_hints()),
            forall|i: int|
                0 <= i < candidates@.len() ==> i64::MIN <= now - (#[trigger] candidates@[i]).updated_at_epoch
                    <= i64::MAX,
            pool@ == rerank_pool(query@, scope, candidates@.take(k as int), now as int),
        decreases candidates@.len() - k,
    {
        let c = &candidates[k];
        assert(candidates@.take(k + 1).drop_last() == candidates@.take(k as int));
        assert(candidates@.take(k + 1).last() == candidates@[k as int]);
        let tags = c.tags.as_str();
        if matches_scope(tags, scope) {
            let chat = is_chat_memory(tags);
            let tool = is_tool_memory(tags);
            let error = is_error_memory(tags);
            let mut rank: i128 = k as i128;
            if error && scope != SearchScope::Tool {
                rank = rank + 8;
            }
            if scope == SearchScope::Auto {
                if tool && !wants_tool {
                    rank = rank + 4;
                }
                if chat && wants_chat {
                    rank = rank - 2;
                }
            }
            if scope == SearchScope::Chat && chat {
                rank = rank - 4;
            }
            if scope == SearchScope::Tool && tool {
                rank = rank - 4;
            }
            rank = rank - recency_rank_bonus(c.updated_at_epoch, now);
            pool.push(Ranked { index: k, rank });
        }
        k = k + 1;
    }
    assert(candidates@.take(candidates@.len() as int) == candidates@);
    let ghost pv = pool@;
    // Select the best results one after another.
    let mut out: Vec<Ranked> = Vec::new();
    while out.len() < limit
        invariant
            pv == pool@,
            pv == rerank_pool(query@, scope, candidates@, now as int),
            out@.len() <= limit,
            forall|i: int, j: int|
                0 <= i < j < out@.len() ==> ranked_before(#[trigger] out@[i], #[trigger] out@[j]),
            forall|i: int| 0 <= i < out@.len() ==> pv.contains(#[trigger] out@[i]),
            forall|e: Ranked|
                #[trigger] pv.contains(e) && out@.len() > 0 && !ranked_before(out@.last(), e)
                    ==> out@.contains(e),
        decreases limit - out@.len(),
    {
        // The best pool entry that comes after everything selected so far.
        let mut best: Option<usize> = None;
        let mut i: usize = 0;
        while i < pool.len()
            invariant
                pv == pool@,
                i <= pool@.len(),
                best matches Some(b) ==> b < i && (out@.len() == 0 || ranked_before(
                    out@.last(),
                    pv[b as int],
                )),
                forall|j: int|
                    0 <= j < i && (out@.len() == 0 || ranked_before(out@.last(), #[trigger] pv[j]))
                        ==> (best matches Some(b) && !ranked_before(pv[j], pv[b as int])),
            decreases pool@.len() - i,
        {
            let eligible = out.len() == 0 || ranked_before_exec(&out[out.len() - 1], &pool[i]);
            if eligible {
                let better = match best {
                    None => true,
                    Some(b) => ranked_before_exec(&pool[i], &pool[b]),
                };
                if better {
                    best = Some(i);
                }
            }
            i = i + 1;
        }
        match best {
            None => {
                assert forall|e: Ranked| #[trigger] pv.contains(e) implies out@.contains(e) by {
                    let j = choose|j: int| 0 <= j < pv.len() && pv[j] == e;
                    assert(out@.len() > 0);
                }
                assert forall|e: Ranked| #[trigger] pv.contains(e) && !out@.contains(e) implies forall|
                    i: int,
                | 0 <= i < out@.len() ==> ranked_before(#[trigger] out@[i], e) by {}
                return out;
            },
            Some(b) => {
                let chosen = pool[b];
                let ghost prev = out@;
                out.push(chosen);
                assert(pv.contains(chosen));
                assert forall|e: Ranked|
                    #[trigger] pv.contains(e) && out@.len() > 0 && !ranked_before(out@.last(), e)
                        implies out@.contains(e) by {
                    if prev.len() > 0 && !ranked_before(prev.last(), e) {
                        let w = choose|w: int| 0 <= w < prev.len() && prev[w] == e;
                        assert(out@[w] == e);
                    } else {
                        let j = choose|j: int| 0 <= j < pv.len() && pv[j] == e;
                        assert(!ranked_before(pv[j], pv[b as int]));
                        assert(e == chosen);
                        assert(out@[prev.len() as int] == e);
                    }
                }
                assert forall|i: int, j: int|
                    0 <= i < j < out@.len() implies ranked_before(#[trigger] out@[i], #[trigger] out@[j]) by {
                    if j == prev.len() && i < j - 1 {
                        assert(ranked_before(prev[i], prev.last()));
                    }
                }
            },
        }
    }
    assert forall|e: Ranked| #[trigger] pv.contains(e) && !out@.contains(e) implies forall|i: int|
        0 <= i < out@.len() ==> ranked_before(#[trigger] out@[i], e) by {
        assert forall|i: int| 0 <= i < out@.len() implies ranked_before(#[trigger] out@[i], e) by {
            if !ranked_before(out@.last(), e) {
            }
            if i < out@.len() - 1 {
                assert(ranked_before(out@[i], out@.last()));
            }
        }
    }
    out
}

/// Outside the tool scope an error memory is moved back: its effective rank is
/// never below its position plus 4 less its recency bonus, while any other
/// memory's is never above that.
pub proof fn lemma_error_memories_move_back(
    query: Seq<char>,
    scope: SearchScope,
    cands: Seq<RerankCandidate>,
    now: int,
    e: Ranked,
)
    requires
        cands.len() <= usize::MAX,
        rerank_pool(query, scope, cands, now).contains(e),
        scope != SearchScope::Tool,
    ensures
        has_any_tag_spec(cands[e.index as int].tags@, error_tags()) ==> e.rank >= e.index + 4
            - recency_bonus_spec(now, cands[e.index as int].updated_at_epoch as int),
        !has_any_tag_spec(cands[e.index as int].tags@, error_tags()) ==> e.rank <= e.index + 4
            - recency_bonus_spec(now, cands[e.index as int].updated_at_epoch as int),
{
    lemma_rerank_pool_entries(query, scope, cands, now);
}

/// Outside the tool scope, of two kept candidates alike in their chat and
/// tool tags and in their age, one an error memory and the other not, the
/// error memory comes after the other unless it stood at least 8 places
/// earlier: whenever the error memory is among the results, the other one is
/// too, and before it.
pub proof fn lemma_error_memory_ranked_after(
    query: Seq<char>,
    scope: SearchScope,
    cands: Seq<RerankCandidate>,
    now: int,
    limit: int,
    r: Seq<Ranked>,
    a: Ranked,
    b: Ranked,
)
    requires
        cands.len() <= usize::MAX,
        is_top_ranked(r, rerank_pool(query, scope, cands, now), limit),
        rerank_pool(query, scope, cands, now).contains(a),
        rerank_pool(query, scope, cands, now).contains(b),
        scope != SearchScope::Tool,
        !has_any_tag_spec(cands[a.index as int].tags@, error_tags()),
        has_any_tag_spec(cands[b.index as int].tags@, error_tags()),
        has_any_tag_spec(cands[a.index as int].tags@, chat_tags()) == has_any_tag_spec(
            cands[b.index as int].tags@,
            chat_tags(),
        ),
        has_any_tag_spec(cands[a.index as int].tags@, tool_tags()) == has_any_tag_spec(
            cands[b.index as int].tags@,
            tool_tags(),
        ),
        cands[a.index as int].updated_at_epoch == cands[b.index as int].updated_at_epoch,
        a.index < b.index + 8,
    ensures
        ranked_before(a, b),
        r.contains(b) ==> r.contains(a) && exists|i: int, j: int|
            0 <= i < j < r.len() && r[i] == a && r[j] == b,
{
    let pool = rerank_pool(query, scope, cands, now);
    lemma_rerank_pool_entries(query, scope, cands, now);
    assert(ranked_before(a, b));
    if r.contains(b) {
        let j = choose|j: int| 0 <= j < r.len() && r[j] == b;
        if !r.contains(a) {
            assert(ranked_before(r[j], a));
            assert(false);
        }
        let i = choose|i: int| 0 <= i < r.len() && r[i] == a;
        if j < i {
            assert(ranked_before(r[j], r[i]));
            assert(false);
        }
        assert(i != j);
        assert(0 <= i < j < r.len() && r[i] == a && r[j] == b);
    }
}

/// Each entry of the rerank pool is a candidate of the scope, at its own
/// position, with its effective rank.
pub proof fn lemma_rerank_pool_entries(
    query: Seq<char>,
    scope: SearchScope,
    cands: Seq<RerankCandidate>,
    now: int,
)
    requires
        cands.len() <= usize::MAX,
    ensures
        forall|e: Ranked| #[trigger]
            rerank_pool(query, scope, cands, now).contains(e) ==> {
                &&& 0 <= e.index < cands.len()
                &&& matches_scope_spec(cands[e.index as int].tags@, scope)
                &&& e.rank == effective_rank(
                    e.index as int,
                    cands[e.index as int].tags@,
                    scope,
                    mentions_any(query, chat_hints()),
                    mentions_any(query, tool_hints()),
                    recency_bonus_spec(now, cands[e.index as int].updated_at_epoch as int),
                )
            },
    decreases cands.len(),
{
    if cands.len() > 0 {
        let init = cands.drop_last();
        lemma_rerank_pool_entries(query, scope, init, now);
        let pool = rerank_pool(query, scope, cands, now);
        let rest = rerank_pool(query, scope, init, now);
        assert forall|e: Ranked| #[trigger] pool.contains(e) implies {
            &&& 0 <= e.index < cands.len()
            &&& matches_scope_spec(cands[e.index as int].tags@, scope)
            &&& e.rank == effective_rank(
                e.index as int,
                cands[e.index as int].tags@,
                scope,
                mentions_any(query, chat_hints()),
                mentions_any(query, tool_hints()),
                recency_bonus_spec(now, cands[e.index as int].updated_at_epoch as int),
            )
        } by {
            let k = choose|k: int| 0 <= k < pool.len() && pool[k] == e;
            if k < rest.len() {
                assert(rest[k] == e);
                assert(rest.contains(e));
                assert(cands[e.index as int] == init[e.index as int]);
            } else {
                let idx = cands.len() - 1;
                let c = cands.last();
                let er = effective_rank(
                    idx,
                    c.tags@,
                    scope,
                    mentions_any(query, chat_hints()),
                    mentions_any(query, tool_hints()),
                    recency_bonus_spec(now, c.updated_at_epoch as int),
                );
                assert(idx - 12 <= er <= idx + 12);
            }
        }
    }
}


// ---------------------------------------------------------------------------
// Routing a search.
// ---------------------------------------------------------------------------

/// How many base results a search asks for: five times the limit, saturating.
pub open spec fn candidate_limit_spec(limit: int) -> int {
    if limit * 5 <= usize::MAX {
        limit * 5
    } else {
        usize::MAX as int
    }
}

/// What a smart search does with its query.
#[derive(Debug, Clone)]
pub enum SearchRoute {
    /// The query is blank: answer with no results, echoing the mode and scope.
    NoQuery,
    /// The query asks for earlier conversation: answer with the most recent
    /// chat memories, in mode `Fts5` and scope `Chat`.
    ChatHistory,
    /// Run the base search for `candidate_limit` results of the trimmed query
    /// and rerank them in `scope`.
    Base { query: String, candidate_limit: usize, scope: SearchScope },
}

/// The route of a search for `query` (see `SearchRoute`).
pub open spec fn route_ok(r: SearchRoute, query: Seq<char>, limit: int, scope: SearchScope) -> bool {
    let q = trim_view(query);
    let resolved = resolve_scope_spec(q, scope);
    match r {
        SearchRoute::NoQuery => q.len() == 0,
        SearchRoute::ChatHistory => q.len() > 0 && resolved == SearchScope::Chat && mentions_any(
            q,
            history_hints(),
        ),
        SearchRoute::Base { query: bq, candidate_limit, scope: s } => {
            &&& q.len() > 0
            &&& !(resolved == SearchScope::Chat && mentions_any(q, history_hints()))
            &&& bq@ == q
            &&& candidate_limit == candidate_limit_spec(limit)
            &&& s == resolved
        },
    }
}

/// Decides how a search for `query` proceeds.
pub fn route_search(query: &str, limit: usize, scope: SearchScope) -> (r: SearchRoute)
    ensures
        route_ok(r, query@, limit as int, scope),
{
    let clean = trim_str(query);
    if clean.is_empty() {
        return SearchRoute::NoQuery;
    }
    let resolved = resolve_scope(clean, scope);
    if resolved == SearchScope::Chat && looks_like_history_query(clean) {
        return SearchRoute::ChatHistory;
    }
    let candidate_limit = if limit <= usize::MAX / 5 {
        limit * 5
    } else {
        usize::MAX
    };
    SearchRoute::Base { query: owned(clean), candidate_limit, scope: resolved }
}

/// Whether a chat search whose reranking kept `kept` results answers with the
/// most recent chat memories instead: exactly when nothing was kept in the chat scope.
pub fn falls_back_to_chat_history(kept: usize, scope: SearchScope) -> (r: bool)
    ensures
        r == (kept == 0 && scope == SearchScope::Chat),
{
    kept == 0 && scope == SearchScope::Chat
}

/// The mode, scope and note of an answer made of the most recent chat
/// memories.
#[derive(Debug, Clone)]
pub struct ChatHistoryAnswer {
    pub mode_used: SearchMode,
    pub scope_used: SearchScope,
    pub note: String,
}

/// How an answer made of the most recent chat memories is labelled: mode
/// `Fts5`, scope `Chat`, and the note `chat-history route` when the query
/// asked for earlier conversation, or `chat-history fallback` when a chat
/// search kept nothing.
pub fn chat_history_answer(fallback: bool) -> (r: ChatHistoryAnswer)
    ensures
        r.mode_used == SearchMode::Fts5,
        r.scope_used == SearchScope::Chat,
        r.note@ == if fallback {
            "chat-history fallback"@
        } else {
            "chat-history route"@
        },
{
    ChatHistoryAnswer {
        mode_used: SearchMode::Fts5,
        scope_used: SearchScope::Chat,
        note: if fallback {
            owned("chat-history fallback")
        } else {
            owned("chat-history route")
        },
    }
}

/// What is known of the vector index when a search needs it.
#[derive(Debug, Clone)]
pub enum VectorIndexState {
    /// Built and holding vectors.
    Ready,
    /// Built, but holding no vectors.
    Empty,
    /// Could not be built; the text says why.
    Failed(String),
}

/// How the base search runs: on which engine, with which note for the reader.
#[derive(Debug, Clone)]
pub struct BaseSearchPlan {
    pub mode_used: SearchMode,
    pub note: Option<String>,
}

/// The base search plan for a requested mode: `Fts5` runs as asked; `Vector`
/// and `Hybrid` run as asked when vectors are ready, and otherwise fall back
/// to `Fts5` with a note that says why.
pub open spec fn base_plan_ok(p: BaseSearchPlan, mode: SearchMode, vectors: VectorIndexState) -> bool {
    match mode {
        SearchMode::Fts5 => p.mode_used == SearchMode::Fts5 && p.note is None,
        _ => {
            let prefix = if mode == SearchMode::Vector {
                "vector fallback: "@
            } else {
                "hybrid fallback: "@
            };
            match vectors {
                VectorIndexState::Ready => p.mode_used == mode && p.note is None,
                VectorIndexState::Empty => p.mode_used == SearchMode::Fts5 && (p.note matches Some(n)
                    && n@ == prefix + "no vectors indexed"@),
                VectorIndexState::Failed(e) => p.mode_used == SearchMode::Fts5 && (p.note matches Some(
                    n,
                ) && n@ == prefix + e@),
            }
        },
    }
}

/// Plans the base search (see `base_plan_ok`).
pub fn plan_base_search(mode: SearchMode, vectors: &VectorIndexState) -> (r: BaseSearchPlan)
    ensures
        base_plan_ok(r, mode, *vectors),
{
    match mode {
        SearchMode::Fts5 => BaseSearchPlan { mode_used: SearchMode::Fts5, note: None },
        _ => {
            let mut note = if mode == SearchMode::Vector {
                owned("vector fallback: ")
            } else {
                owned("hybrid fallback: ")
            };
            match vectors {
                VectorIndexState::Ready => BaseSearchPlan { mode_used: mode, note: None },
                VectorIndexState::Empty => {
                    push_str(&mut note, "no vectors indexed");
                    BaseSearchPlan { mode_used: SearchMode::Fts5, note: Some(note) }
                },
                VectorIndexState::Failed(e) => {
                    push_str(&mut note, e.as_str());
                    BaseSearchPlan { mode_used: SearchMode::Fts5, note: Some(note) }
                },
            }
        },
    }
}

// ---------------------------------------------------------------------------
// Recent memories.
// ---------------------------------------------------------------------------

/// How many recent memories a scoped listing fetches: eight times the limit, saturating.
pub fn recent_fetch_limit(limit: usize) -> (r: usize)
    ensures
        r == if limit * 8 <= usize::MAX {
            limit * 8
        } else {
            usize::MAX as int
        },
{
    if limit <= usize::MAX / 8 {
        limit * 8
    } else {
        usize::MAX
    }
}

/// The positions of the memories (given by their tags) that belong to the scope, in order.
pub open spec fn in_scope_positions(tags: Seq<Seq<char>>, scope: SearchScope) -> Seq<usize>
    decreases tags.len(),
{
    if tags.len() == 0 {
        seq![]
    } else {
        let rest = in_scope_positions(tags.drop_last(), scope);
        if matches_scope_spec(tags.last(), scope) {
            rest.push((tags.len() - 1) as usize)
        } else {
            rest
        }
    }
}

/// Every kept position lies among the memories and matches the scope.
pub proof fn lemma_in_scope_positions(tags: Seq<Seq<char>>, scope: SearchScope)
    requires
        tags.len() <= usize::MAX,
    ensures
        forall|k: int|
            0 <= k < in_scope_positions(tags, scope).len() ==> #[trigger] in_scope_positions(
                tags,
                scope,
            )[k] < tags.len() && matches_scope_spec(
                tags[in_scope_positions(tags, scope)[k] as int],
                scope,
            ),
    decreases tags.len(),
{
    if tags.len() > 0 {
        let init = tags.drop_last();
        lemma_in_scope_positions(init, scope);
        let rest = in_scope_positions(init, scope);
        let r = in_scope_positions(tags, scope);
        assert forall|k: int| 0 <= k < r.len() implies #[trigger] r[k] < tags.len()
            && matches_scope_spec(tags[r[k] as int], scope) by {
            if k < rest.len() {
                assert(r[k] == rest[k]);
                assert(init[rest[k] as int] == tags[rest[k] as int]);
            } else {
                assert(r[k] == (tags.len() - 1) as usize);
                assert(tags.last() == tags[tags.len() - 1]);
            }
        }
    }
}

/// The positions of the first `limit` memories (given by their tags) that
/// belong to the scope, in order.
pub fn select_in_scope(tags: &Vec<String>, scope: SearchScope, limit: usize) -> (r: Vec<usize>)
    ensures
        r@.len() <= limit,
        forall|k: int|
            0 <= k < r@.len() ==> #[trigger] r@[k] < tags@.len() && matches_scope_spec(
                tags@[r@[k] as int]@,
                scope,
            ),
        r@ == in_scope_positions(tags@.map_values(|t: String| t@), scope).take(
            if in_scope_positions(tags@.map_values(|t: String| t@), scope).len() <= limit {
                in_scope_positions(tags@.map_values(|t: String| t@), scope).len() as int
            } else {
                limit as int
            },
        ),
{
    let ghost tv = tags@.map_values(|t: String| t@);
    let mut all: Vec<usize> = Vec::new();
    let mut i: usize = 0;
    while i < tags.len()
        invariant
            i <= tags@.len(),
            tv == tags@.map_values(|t: String| t@),
            all@ == in_scope_positions(tv.take(i as int), scope),
        decreases tags@.len() - i,
    {
        assert(tv.take(i + 1).drop_last() == tv.take(i as int));
        assert(tv.take(i + 1).last() == tags@[i as int]@);
        if matches_scope(tags[i].as_str(), scope) {
            all.push(i);
        }
        i = i + 1;
    }
    assert(tv.take(tags@.len() as int) == tv);
    proof {
        assert(tv.len() == tags@.len());
        lemma_in_scope_positions(tv, scope);
    }
    let n = if all.len() <= limit {
        all.len()
    } else {
        limit
    };
    let mut r: Vec<usize> = Vec::new();
    let mut j: usize = 0;
    while j < n
        invariant
            n <= all@.len(),
            j <= n,
            r@ == all@.take(j as int),
        decreases n - j,
    {
        r.push(all[j]);
        assert(all@.take(j + 1) == all@.take(j as int).push(all@[j as int]));
        j = j + 1;
    }
    r
}

/// Shortens a memory's text for a listing: trimmed, and when longer than
/// `max_chars` characters cut there and followed by `...`.
pub fn preview_text(text: &str, max_chars: usize) -> (r: String)
    ensures
        r@ == preview_spec(text@, max_chars as int),
{
    let trimmed = trim_str(text);
    if trimmed.is_empty() {
        return String::new();
    }
    let t = chars_of(trimmed);
    if t.len() <= max_chars {
        string_of(&t)
    } else {
        let mut r = string_of_range(&t, 0, max_chars);
        push_str(&mut r, "...");
        r
    }
}

} // verus!
