use mem_agent::observer::client::{choose_reply_text, opencode_key, reply_text};
use mem_agent::observer::classifier::{classify_tool_fallback, parse_observation_xml, parse_summary_xml};
use mem_agent::observer::config::{get_code_mode, validate_concept, validate_type};
use mem_agent::observer::prompt::{
    build_summary_prompt, decimal_i64, decimal_string, truncate_tool_output,
};
use mem_agent::observer::config::ObservationOutput;
use mem_agent::observer::record::{ingest_timestamp, memory_document_text, observation_record};

#[test]
fn test_parse_complete_observation() {
    let xml = r#"<observation>
  <type>bugfix</type>
  <title>Fix auth middleware null check</title>
  <subtitle>Auth middleware was crashing on null tokens</subtitle>
  <facts>
    <fact>auth middleware checked req.user but not null case</fact>
    <fact>error happened on all anonymous routes</fact>
  </facts>
  <narrative>Fixed the auth middleware by adding a null check before accessing user properties. This was causing crashes on anonymous routes.</narrative>
  <concepts>
    <concept>gotcha</concept>
    <concept>problem-solution</concept>
  </concepts>
  <files_read>
    <file>src/auth/middleware.ts</file>
    <file>src/auth/types.ts</file>
  </files_read>
  <files_modified>
    <file>src/auth/middleware.ts</file>
  </files_modified>
</observation>"#;

    let result = parse_observation_xml(xml).unwrap();
    assert_eq!(result.observation_type, "bugfix");
    assert_eq!(result.title, "Fix auth middleware null check");
    assert_eq!(result.facts.len(), 2);
    assert_eq!(result.concepts.len(), 2);
    assert_eq!(result.concepts[0], "gotcha");
    assert_eq!(result.files_read.len(), 2);
    assert_eq!(result.files_modified.len(), 1);
}

#[test]
fn test_parse_minimal_observation() {
    let xml = r#"<observation>
  <type>change</type>
  <title>Updated config</title>
  <subtitle></subtitle>
  <facts></facts>
  <narrative>Updated the database config</narrative>
  <concepts></concepts>
  <files_read></files_read>
  <files_modified>
    <file>config.yml</file>
  </files_modified>
</observation>"#;

    let result = parse_observation_xml(xml).unwrap();
    assert_eq!(result.observation_type, "change");
    assert_eq!(result.facts.len(), 0);
    assert_eq!(result.concepts.len(), 0);
}

#[test]
fn test_invalid_type_falls_back() {
    let xml = r#"<observation>
  <type>invalid_type</type>
  <title>Test</title>
  <subtitle></subtitle>
  <facts></facts>
  <narrative>Test</narrative>
  <concepts></concepts>
  <files_read></files_read>
  <files_modified></files_modified>
</observation>"#;

    let result = parse_observation_xml(xml).unwrap();
    assert_eq!(result.observation_type, "change");
}

#[test]
fn test_invalid_concept_filtered() {
    let xml = r#"<observation>
  <type>discovery</type>
  <title>Test</title>
  <subtitle></subtitle>
  <facts></facts>
  <narrative>Test</narrative>
  <concepts>
    <concept>gotcha</concept>
    <concept>invalid_concept</concept>
    <concept>how-it-works</concept>
  </concepts>
  <files_read></files_read>
  <files_modified></files_modified>
</observation>"#;

    let result = parse_observation_xml(xml).unwrap();
    assert_eq!(result.concepts.len(), 2);
    assert_eq!(result.concepts[0], "gotcha");
    assert_eq!(result.concepts[1], "how-it-works");
}

#[test]
fn test_classify_tool_fallback() {
    let result = classify_tool_fallback("Read", "src/auth.ts", "content...");
    assert_eq!(result.observation_type, "discovery");

    let result = classify_tool_fallback("Bash", "fix login bug", "output");
    assert_eq!(result.observation_type, "bugfix");

    let result = classify_tool_fallback("Edit", "src/file.ts", "output");
    assert_eq!(result.observation_type, "change");
}

#[test]
fn test_parse_summary() {
    let xml = r#"<summary>
  <request>Fix authentication bug</request>
  <investigated>Looked at middleware chain</investigated>
  <learned>Auth middleware needs null checks</learned>
  <completed>Fixed and tested the middleware</completed>
  <next_steps>Update documentation</next_steps>
  <notes>Similar pattern in payment middleware</notes>
</summary>"#;

    let result = parse_summary_xml(xml).unwrap();
    assert_eq!(result.request, "Fix authentication bug");
    assert_eq!(result.completed, "Fixed and tested the middleware");
}

#[test]
fn missing_title_defaults_to_observation() {
    let result = parse_observation_xml("<type>feature</type>").unwrap();
    assert_eq!(result.observation_type, "feature");
    assert_eq!(result.title, "Observation");
}

#[test]
fn validated_type_is_a_code_mode_type() {
    let mode = get_code_mode();
    for t in ["bugfix", "nonsense", "", "decision"] {
        let v = validate_type(t);
        assert!(mode.observation_types.iter().any(|o| o.id == v));
    }
    assert_eq!(validate_type("nonsense"), "change");
    assert_eq!(validate_type("security_note"), "security_note");
    assert_eq!(validate_concept("gotcha"), Some("gotcha"));
    assert_eq!(validate_concept("made-up"), None);
}

#[test]
fn short_tool_output_is_kept_whole() {
    assert_eq!(truncate_tool_output("short output"), "short output");
}

#[test]
fn long_tool_output_keeps_head_and_tail() {
    let text = "a".repeat(20000);
    let t = truncate_tool_output(&text);
    assert!(t.len() < text.len());
    assert!(t.starts_with(&"a".repeat(9600)));
    assert!(t.ends_with(&"a".repeat(4800)));
}

#[test]
fn summary_prompt_names_session_and_count() {
    let p = build_summary_prompt("Fix login", 3);
    assert!(p.contains("Summarize the session \"Fix login\" which has 3 observations."));
}

#[test]
fn decimal_texts() {
    assert_eq!(decimal_string(0), "0");
    assert_eq!(decimal_string(1234567890123), "1234567890123");
    assert_eq!(decimal_i64(-42), "-42");
    assert_eq!(decimal_i64(i64::MIN), "-9223372036854775808");
    assert_eq!(decimal_i64(i64::MAX), "9223372036854775807");
}

#[test]
fn ingest_timestamp_formats_utc() {
    assert_eq!(ingest_timestamp(0), "1970-01-01 00:00:00");
    assert_eq!(ingest_timestamp(86400 + 3661), "1970-01-02 01:01:01");
    assert_eq!(ingest_timestamp(i64::MAX), "unknown");
}

#[test]
fn document_text_joins_title_and_content() {
    assert_eq!(memory_document_text("T", "C"), "title: T\ncontent: C");
}

#[test]
fn observation_record_writes_json_lists() {
    let classified = ObservationOutput {
        observation_type: "bugfix".into(),
        title: "Fix".into(),
        subtitle: String::new(),
        facts: vec!["a \"quoted\" fact".into(), "b".into()],
        narrative: "n".into(),
        concepts: vec!["gotcha".into()],
        files_read: vec![],
        files_modified: vec![],
    };
    let m = observation_record(
        "observation",
        Some("s1"),
        "opencode",
        "/p",
        "Bash",
        "ls",
        "out",
        "t",
        &vec!["r.rs".to_string()],
        &vec![],
        Some(classified),
    );
    assert_eq!(m.facts, "[\"a \\\"quoted\\\" fact\",\"b\"]");
    assert_eq!(m.concepts, "[\"gotcha\"]");
    assert_eq!(m.files_read, "[\"r.rs\"]");
    assert_eq!(m.files_modified, "[]");
    assert_eq!(m.content, "tool: Bash\ninput: ls\n\nout");
    assert_eq!(m.session_id.as_deref(), Some("s1"));
    assert_eq!(m.narrative.as_deref(), Some("n"));

    let m = observation_record("observation", None, "opencode", "", "Read", "src/a.rs", "x", "", &vec![], &vec![], None);
    assert_eq!(m.observation_type, "discovery");
    assert_eq!(m.narrative.as_deref(), Some("Executed Read"));
}

#[test]
fn empty_reply_gives_the_default_observation() {
    let o = parse_observation_xml("").unwrap();
    assert_eq!(o.observation_type, "change");
    assert_eq!(o.title, "Observation");
    assert!(o.subtitle.is_empty() && o.narrative.is_empty());
    assert!(o.facts.is_empty() && o.concepts.is_empty());
    assert!(o.files_read.is_empty() && o.files_modified.is_empty());
}

#[test]
fn observation_list_items_are_trimmed_and_non_empty() {
    let xml = "<type>bugfix</type><title> T </title><facts><fact>  a fact </fact><fact>   </fact></facts><files_read><file> src/x.rs</file></files_read>";
    let o = parse_observation_xml(xml).unwrap();
    assert_eq!(o.title, "T");
    assert_eq!(o.facts, vec!["a fact".to_string()]);
    assert_eq!(o.files_read, vec!["src/x.rs".to_string()]);
}

#[test]
fn summary_prompt_reads_back_as_its_placeholders() {
    let prompt = build_summary_prompt("Refactor the <store>", 7);
    let s = parse_summary_xml(&prompt).unwrap();
    assert_eq!(s.request, "what the user asked for");
    assert_eq!(s.investigated, "what was investigated");
    assert_eq!(s.learned, "what was learned");
    assert_eq!(s.completed, "what was completed");
    assert_eq!(s.next_steps, "suggested next steps");
    assert_eq!(s.notes, "additional notes");
}

#[test]
fn observation_record_escapes_json_strings() {
    let classified = ObservationOutput {
        observation_type: "change".into(),
        title: "T".into(),
        subtitle: String::new(),
        facts: vec!["tab\there".into(), "back\\slash\u{1}".into(), "é\n".into()],
        narrative: String::new(),
        concepts: vec![],
        files_read: vec![],
        files_modified: vec![],
    };
    let m = observation_record(
        "observation",
        None,
        "opencode",
        "/p",
        "Bash",
        "ls",
        "out",
        "t",
        &vec![],
        &vec![],
        Some(classified),
    );
    assert_eq!(m.facts, "[\"tab\\there\",\"back\\\\slash\\u0001\",\"é\\n\"]");
    assert_eq!(m.concepts, "[]");
}

#[test]
fn reply_text_takes_the_message_content_then_the_text() {
    let body = r#"{"choices":[{"message":{"content":"<observation/>"},"text":"t"}]}"#;
    assert_eq!(reply_text(body), Some("<observation/>".to_string()));
    assert_eq!(reply_text(r#"{"choices":[{"text":"hi"}]}"#), Some("hi".to_string()));
    assert_eq!(reply_text(r#"{"choices":[{"message":{"content":5},"text":"t"}]}"#), Some("t".to_string()));
    assert_eq!(reply_text(r#"{"choices":{"0":{"text":"x"}}}"#), None);
    assert_eq!(reply_text(r#"{"choices":[]}"#), None);
    assert_eq!(reply_text("not json"), None);
    assert_eq!(choose_reply_text(false, Some("a".into()), None), None);
    assert_eq!(choose_reply_text(true, None, Some("b".into())), Some("b".to_string()));
    assert_eq!(opencode_key(r#"{"opencode-go":{"key":"k1"},"other":{"key":"k2"}}"#), Some("k1".to_string()));
    assert_eq!(opencode_key(r#"{"opencode-go":{}}"#), None);
    assert_eq!(opencode_key("[]"), None);
}

#[test]
fn titles_are_trimmed_of_non_ascii_white_space() {
    let o = parse_observation_xml("<title>\u{3000}T\u{a0}</title>").unwrap();
    assert_eq!(o.title, "T");
}
