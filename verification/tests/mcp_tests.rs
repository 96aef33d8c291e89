use mem_agent::mcp::routing::{route_method, McpMethod};
use mem_agent::mcp::tools::{
    add_args, deletion_message, id_arg, list_args, list_tools_definitions, memory_added_message,
    observe_args, observed_message, observed_vector_text, route_tool, search_args,
    stored_vector_text, summarize_args, summary_message, tool_call_text, unknown_tool_message,
    ToolName, VectorOutcome,
};
use mem_agent::search::smart::{SearchMode, SearchScope};

#[test]
fn methods_are_routed() {
    assert_eq!(route_method("initialize"), McpMethod::Initialize);
    assert_eq!(route_method("tools/list"), McpMethod::ToolsList);
    assert_eq!(route_method("tools/call"), McpMethod::ToolsCall);
    assert_eq!(route_method("notifications/initialized"), McpMethod::Initialized);
    assert_eq!(route_method("unknown"), McpMethod::Unknown);
}

#[test]
fn every_listed_tool_can_be_called() {
    let defs = list_tools_definitions();
    assert_eq!(defs.len(), 8);
    for d in &defs {
        assert!(route_tool(&d.name).is_some(), "{}", d.name);
        let schema: serde_json::Value = serde_json::from_str(&d.input_schema).unwrap();
        assert_eq!(schema["type"], "object");
    }
    assert_eq!(defs[0].name, "memory_search");
    assert_eq!(defs[5].name, "index_stats");
    assert_eq!(route_tool("memory_summarize"), Some(ToolName::MemorySummarize));
    assert_eq!(route_tool("memory_fly"), None);
}

#[test]
fn schemas_name_required_arguments() {
    let defs = list_tools_definitions();
    let search: serde_json::Value = serde_json::from_str(&defs[0].input_schema).unwrap();
    assert_eq!(search["required"][0], "query");
    assert_eq!(search["properties"]["limit"]["default"], 10);
    let observe: serde_json::Value = serde_json::from_str(&defs[6].input_schema).unwrap();
    assert_eq!(observe["required"][1], "tool_output");
}

#[test]
fn tool_answers() {
    assert_eq!(unknown_tool_message("x"), "Unknown tool: x");
    assert_eq!(tool_call_text(Ok("fine".into())), ("fine".to_string(), false));
    assert_eq!(tool_call_text(Err("bad".into())), ("Error: bad".to_string(), true));
}

#[test]
fn search_arguments_and_defaults() {
    let a = search_args(Some("rust"), None, None, None).unwrap();
    assert_eq!(a.query, "rust");
    assert_eq!(a.limit, 10);
    assert_eq!(a.mode, SearchMode::Hybrid);
    assert_eq!(a.scope, SearchScope::Auto);
    let a = search_args(Some("q"), Some(3), Some("fts5"), Some("chat")).unwrap();
    assert_eq!((a.limit, a.mode, a.scope), (3, SearchMode::Fts5, SearchScope::Chat));
    assert_eq!(search_args(None, Some(3), None, None).err().unwrap(), "Missing 'query' parameter");
}

#[test]
fn add_arguments_and_defaults() {
    let a = add_args(Some("t"), Some("c"), None, None, None, None, None, None).unwrap();
    assert_eq!(
        (a.tags.as_str(), a.kind.as_str(), a.observation_type.as_str(), a.source.as_str(), a.project.as_str()),
        ("", "manual", "change", "manual", "")
    );
    assert!(a.session_id.is_none());
    assert_eq!(add_args(None, None, None, None, None, None, None, None).err().unwrap(), "Missing 'title'");
    assert_eq!(add_args(Some("t"), None, None, None, None, None, None, None).err().unwrap(), "Missing 'content'");
}

#[test]
fn other_arguments() {
    assert_eq!(id_arg(Some(7)), Ok(7));
    assert_eq!(id_arg(None), Err("Missing 'id'".to_string()));
    let l = list_args(None, None);
    assert_eq!((l.limit, l.scope), (20, SearchScope::All));
    let o = observe_args(None, Some("Bash"), None, Some("out"), None, None, None, None, None, None, vec![], vec!["f".into()]).unwrap();
    assert_eq!((o.kind.as_str(), o.source.as_str(), o.cwd.as_str()), ("observation", "opencode", "."));
    assert_eq!(o.files_modified, vec!["f".to_string()]);
    assert_eq!(
        observe_args(None, None, None, None, None, None, None, None, None, None, vec![], vec![]).err().unwrap(),
        "Missing 'tool_name'"
    );
    assert_eq!(
        observe_args(None, Some("x"), None, None, None, None, None, None, None, None, vec![], vec![]).err().unwrap(),
        "Missing 'tool_output'"
    );
    let s = summarize_args(Some("s1"), None, None).unwrap();
    assert_eq!((s.session_id.as_str(), s.project.as_str(), s.source.as_str()), ("s1", "", "opencode"));
    assert_eq!(summarize_args(None, None, None).err().unwrap(), "Missing 'session_id'");
}

#[test]
fn answer_texts() {
    assert_eq!(stored_vector_text(&VectorOutcome::Indexed), "vector indexed");
    assert_eq!(
        stored_vector_text(&VectorOutcome::Skipped("no model".into())),
        "memory stored, vector skipped: no model"
    );
    assert_eq!(
        observed_vector_text(&VectorOutcome::InsertFailed("db".into())),
        "vector insert failed: db"
    );
    assert_eq!(memory_added_message(12, "vector indexed"), "Memory added with ID: 12 (vector indexed)");
    assert_eq!(observed_message(3, "s"), "Observed and stored: memory ID 3 (s)");
    assert_eq!(deletion_message(9, true), "Memory 9 deleted");
    assert_eq!(deletion_message(9, false), "Memory 9 not found");
    assert_eq!(summary_message(Some(4)), "Summary stored: memory ID 4");
    assert_eq!(summary_message(None), "No memories to summarize in this session");
}
