use mem_agent::search::ranking::{fuse_ranks, list_rank, penalty_rank, FusedRanks};
use mem_agent::search::report::{
    memory_list_line, memory_list_text, no_results_message, result_preview, results_header,
};
use mem_agent::search::smart::{
    chat_history_answer, filter_and_rerank, matches_scope, plan_base_search, recency_rank_bonus, resolve_scope,
    route_search, select_in_scope, RerankCandidate, SearchMode, SearchRoute, SearchScope, VectorIndexState,
};
use mem_agent::types::Memory;

#[test]
fn scope_parser_handles_aliases() {
    assert_eq!(SearchScope::parse("tools"), SearchScope::Tool);
    assert_eq!(SearchScope::parse("chat"), SearchScope::Chat);
    assert_eq!(SearchScope::parse("weird"), SearchScope::Auto);
}

#[test]
fn mode_and_scope_names_round_trip() {
    for m in [SearchMode::Fts5, SearchMode::Vector, SearchMode::Hybrid] {
        assert_eq!(SearchMode::parse(m.as_str()), m);
    }
    for s in [SearchScope::Auto, SearchScope::Chat, SearchScope::Tool, SearchScope::All] {
        assert_eq!(SearchScope::parse(s.as_str()), s);
    }
    assert_eq!(SearchMode::parse("  HYBRID "), SearchMode::Hybrid);
    assert_eq!(SearchMode::parse("bm25"), SearchMode::Fts5);
}

#[test]
fn history_question_routes_to_chat_history() {
    let route = route_search("remind me what we discussed", 5, SearchScope::Chat);
    assert!(matches!(route, SearchRoute::ChatHistory));
    let route = route_search("   ", 5, SearchScope::Auto);
    assert!(matches!(route, SearchRoute::NoQuery));
    match route_search(" sqlite tips ", 4, SearchScope::All) {
        SearchRoute::Base { query, candidate_limit, scope } => {
            assert_eq!(query, "sqlite tips");
            assert_eq!(candidate_limit, 20);
            assert_eq!(scope, SearchScope::All);
        }
        _ => panic!("expected a base search"),
    }
}

#[test]
fn explicit_scope_is_kept() {
    assert_eq!(resolve_scope("anything", SearchScope::Tool), SearchScope::Tool);
}

#[test]
fn tool_rows_are_not_chat() {
    assert!(matches_scope("chat,user", SearchScope::Chat));
    assert!(!matches_scope("tool,bash", SearchScope::Chat));
    assert!(matches_scope("tool,bash", SearchScope::All));
}

#[test]
fn recency_bonus_thresholds() {
    let now = 10_000_000;
    assert_eq!(recency_rank_bonus(now - 86400, now), 3);
    assert_eq!(recency_rank_bonus(now - 86401, now), 2);
    assert_eq!(recency_rank_bonus(now - 604800, now), 2);
    assert_eq!(recency_rank_bonus(now - 2592000, now), 1);
    assert_eq!(recency_rank_bonus(now - 2592001, now), 0);
}

#[test]
fn rerank_keeps_scope_and_limit() {
    let now = 1_000_000_000;
    let candidates = vec![
        RerankCandidate { tags: "tool,bash".into(), updated_at_epoch: now },
        RerankCandidate { tags: "chat".into(), updated_at_epoch: now - 10_000_000 },
        RerankCandidate { tags: "chat".into(), updated_at_epoch: now },
    ];
    let ranked = filter_and_rerank("notes", SearchScope::Chat, &candidates, 5, now);
    let idx: Vec<usize> = ranked.iter().map(|r| r.index).collect();
    assert_eq!(idx, vec![2, 1]);
    let ranked = filter_and_rerank("notes", SearchScope::All, &candidates, 1, now);
    assert_eq!(ranked.len(), 1);
}

#[test]
fn vector_fallback_notes() {
    let p = plan_base_search(SearchMode::Hybrid, &VectorIndexState::Empty);
    assert_eq!(p.mode_used, SearchMode::Fts5);
    assert_eq!(p.note.as_deref(), Some("hybrid fallback: no vectors indexed"));
    let p = plan_base_search(SearchMode::Vector, &VectorIndexState::Failed("boom".into()));
    assert_eq!(p.note.as_deref(), Some("vector fallback: boom"));
    let p = plan_base_search(SearchMode::Vector, &VectorIndexState::Ready);
    assert_eq!(p.mode_used, SearchMode::Vector);
    assert!(p.note.is_none());
}

#[test]
fn fusion_lists_each_document_once() {
    let fused = fuse_ranks(&vec![1, 2, 3], &vec![2, 3, 4]);
    assert_eq!(fused.len(), 4);
    assert_eq!(fused[&1], FusedRanks { fts: Some(0), vec: None });
    assert_eq!(fused[&2], FusedRanks { fts: Some(1), vec: Some(0) });
    assert_eq!(fused[&3], FusedRanks { fts: Some(2), vec: Some(1) });
    assert_eq!(fused[&4], FusedRanks { fts: None, vec: Some(2) });
}

#[test]
fn fusion_takes_last_occurrence() {
    let fused = fuse_ranks(&vec![7, 8, 7], &vec![8]);
    assert_eq!(fused.len(), 2);
    assert_eq!(fused[&7], FusedRanks { fts: Some(2), vec: None });
    assert_eq!(fused[&8], FusedRanks { fts: Some(1), vec: Some(0) });
    assert!(fuse_ranks(&vec![], &vec![]).is_empty());
}

#[test]
fn penalty_and_list_ranks() {
    assert_eq!(penalty_rank(5), 15);
    assert_eq!(list_rank(Some(0), 15), 1);
    assert_eq!(list_rank(Some(4), 15), 5);
    assert_eq!(list_rank(None, 15), 15);
}

#[test]
fn report_texts() {
    assert_eq!(
        no_results_message(SearchMode::Fts5, SearchScope::Chat),
        "No results found in fts5 mode (scope=chat)."
    );
    assert_eq!(
        results_header(SearchMode::Hybrid, SearchScope::All, 3, None),
        "Search mode: hybrid\nScope: all\nResults: 3\n\n"
    );
    assert_eq!(
        results_header(SearchMode::Fts5, SearchScope::Tool, 1, Some("hybrid fallback: x")),
        "Search mode: fts5\nScope: tool\nResults: 1\nNote: hybrid fallback: x\n\n"
    );
}

#[test]
fn preview_prefers_snippet() {
    assert_eq!(result_preview("a snippet", "content", "title"), "a snippet");
    assert_eq!(result_preview("   ", "Rust title here", "title"), "Rust **title** here");
}

fn memory(id: i64, title: &str, session: Option<&str>) -> Memory {
    Memory {
        id,
        kind: "manual".into(),
        observation_type: "change".into(),
        session_id: session.map(String::from),
        source: "manual".into(),
        project: String::new(),
        title: title.into(),
        content: "c".into(),
        tags: "t".into(),
        facts: "[]".into(),
        concepts: "[]".into(),
        files_read: "[]".into(),
        files_modified: "[]".into(),
        narrative: None,
        created_at_epoch: 0,
        updated_at_epoch: 0,
    }
}

#[test]
fn list_lines() {
    let m = memory(-3, "T", None);
    assert_eq!(memory_list_line(&m), "[ID:-3] T [kind=manual] [type=change] | tags: t | session: -");
    let ms = vec![memory(1, "A", Some("s1")), memory(2, "B", None)];
    assert_eq!(
        memory_list_text(&ms),
        "[ID:1] A [kind=manual] [type=change] | tags: t | session: s1\n[ID:2] B [kind=manual] [type=change] | tags: t | session: -"
    );
    assert_eq!(memory_list_text(&vec![]), "");
}

#[test]
fn kept_rows_match_the_scope_in_order() {
    let tags: Vec<String> = vec![
        "auto,tool,github,success".to_string(),
        "auto,assistant,reply,chat".to_string(),
        "chat,user".to_string(),
        "tool,bash".to_string(),
        "chat".to_string(),
    ];
    let kept = select_in_scope(&tags, SearchScope::Chat, 2);
    assert_eq!(kept, vec![1, 2]);
    for &k in &kept {
        assert!(matches_scope(&tags[k], SearchScope::Chat));
    }
    assert_eq!(select_in_scope(&tags, SearchScope::All, 10), vec![0, 1, 2, 3, 4]);
    assert!(select_in_scope(&tags, SearchScope::Chat, 0).is_empty());
}

#[test]
fn chat_history_answers_are_labelled() {
    let a = chat_history_answer(false);
    assert_eq!(a.mode_used, SearchMode::Fts5);
    assert_eq!(a.scope_used, SearchScope::Chat);
    assert_eq!(a.note, "chat-history route");
    assert_eq!(chat_history_answer(true).note, "chat-history fallback");
}
