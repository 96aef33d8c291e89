use mem_agent::db::fts::escape_fts5_query;
use mem_agent::text::snippet::{first_match_window, generate_snippet, highlight_matches, snippet_tokens};
use mem_agent::text::tokenizer::{is_stopword, tokenize, tokenize_keep_stopwords, tokens_from_pieces};

#[test]
fn test_escape_simple() {
    let result = escape_fts5_query("hello world");
    assert_eq!(result, "\"hello\" \"world\"");
}

#[test]
fn test_escape_with_quotes() {
    let result = escape_fts5_query("say \"hello\" now");
    assert_eq!(result, "\"say\" \"\"\"hello\"\"\" \"now\"");
}

#[test]
fn test_escape_empty() {
    assert_eq!(escape_fts5_query(""), "");
    assert_eq!(escape_fts5_query("   "), "");
}

#[test]
fn test_escape_single_token() {
    assert_eq!(escape_fts5_query("rust"), "\"rust\"");
}

#[test]
fn escape_collapses_runs_of_white_space() {
    assert_eq!(escape_fts5_query("  a\t\tb \n c  "), "\"a\" \"b\" \"c\"");
}

#[test]
fn test_snippet_match_in_middle() {
    let content = "This is a very long document that contains many words and sentences. \
                   The important keyword is right here in the middle. \
                   And then there is more text after that which is not relevant.";
    let query = "important keyword";
    let snippet = generate_snippet(content, query, 80);
    assert!(snippet.contains("**important**"));
    assert!(snippet.contains("**keyword**"));
    assert!(snippet.contains("..."));
}

#[test]
fn test_snippet_short_content() {
    let content = "Short text here";
    let snippet = generate_snippet(content, "text", 100);
    assert!(snippet.contains("**text**"));
}

#[test]
fn test_snippet_no_match() {
    let content = "this is some random text without the query term";
    let snippet = generate_snippet(content, "xyznonexistent", 50);
    assert_eq!(snippet, "this is some random text without the query term");
}

#[test]
fn test_snippet_empty_query() {
    let content = "Some content that should be previewed";
    let snippet = generate_snippet(content, "", 30);
    assert!(snippet.starts_with("Some content that"));
}

#[test]
fn test_snippet_default_window() {
    let content = "x".repeat(50) + " target " + &"y".repeat(50);
    let snippet = generate_snippet(&content, "target", 0);
    assert!(snippet.contains("**target**"));
}

#[test]
fn test_snippet_match_at_start() {
    let content = "target at the beginning of a much longer document with lots of extra words";
    let snippet = generate_snippet(content, "target", 40);
    assert!(snippet.contains("**target**"));
    assert!(!snippet.starts_with("..."));
}

#[test]
fn test_snippet_match_at_end() {
    let content = "A long document with many words at the start and the target at the very end";
    let snippet = generate_snippet(content, "target", 40);
    assert!(snippet.contains("**target**"));
}

#[test]
fn snippet_exact_short_content() {
    assert_eq!(generate_snippet("Short text here", "text", 100), "Short **text** here");
}

#[test]
fn snippet_window_is_cut_around_the_match() {
    assert_eq!(generate_snippet("Rust is fast", "rust", 10), "**Rust** ...");
}

#[test]
fn snippet_of_non_ascii_text_is_cut_around_the_match() {
    let content = "é".repeat(19) + " target " + &"é".repeat(5);
    let snippet = generate_snippet(&content, "target", 12);
    assert_eq!(snippet, "...ééééé **target**...");
}

#[test]
fn highlighting_only_adds_markers() {
    let content = "Memory safety and memory search";
    let snippet = generate_snippet(content, "memory search", 200);
    assert_eq!(snippet, "**Memory** safety and **memory** **search**");
    assert_eq!(snippet.replace("**", ""), content);
}

#[test]
fn zero_window_is_the_default_window() {
    let content = "x".repeat(400) + " target " + &"y".repeat(400);
    assert_eq!(generate_snippet(&content, "target", 0), generate_snippet(&content, "target", 150));
}

#[test]
fn test_is_stopword() {
    assert!(is_stopword("the"));
    assert!(is_stopword("and"));
    assert!(is_stopword("is"));
    assert!(!is_stopword("rust"));
    assert!(!is_stopword("memory"));
    assert!(!is_stopword("search"));
}

#[test]
fn test_tokenize_english() {
    let text = "The quick brown fox jumps over the lazy dog";
    let tokens = tokenize(text);
    assert!(tokens.contains(&"quick".to_string()));
    assert!(tokens.contains(&"brown".to_string()));
    assert!(tokens.contains(&"fox".to_string()));
    assert!(tokens.contains(&"jumps".to_string()));
    assert!(tokens.contains(&"lazy".to_string()));
    assert!(tokens.contains(&"dog".to_string()));
    assert!(!tokens.contains(&"the".to_string()));
    assert!(!tokens.contains(&"over".to_string()));
}

#[test]
fn test_stopword_filter() {
    let text = "this is a test of the stopword filter and it works well";
    let tokens = tokenize(text);
    assert!(tokens.contains(&"test".to_string()));
    assert!(tokens.contains(&"stopword".to_string()));
    assert!(tokens.contains(&"filter".to_string()));
    assert!(tokens.contains(&"works".to_string()));
    assert!(tokens.contains(&"well".to_string()));
    assert!(!tokens.contains(&"this".to_string()));
    assert!(!tokens.contains(&"is".to_string()));
    assert!(!tokens.contains(&"a".to_string()));
    assert!(!tokens.contains(&"of".to_string()));
    assert!(!tokens.contains(&"the".to_string()));
    assert!(!tokens.contains(&"and".to_string()));
    assert!(!tokens.contains(&"it".to_string()));
}

#[test]
fn test_tokenize_keep_stopwords() {
    let text = "The quick brown fox";
    let tokens = tokenize_keep_stopwords(text);
    assert!(tokens.contains(&"the".to_string()));
    assert!(tokens.contains(&"quick".to_string()));
    assert!(tokens.contains(&"brown".to_string()));
    assert!(tokens.contains(&"fox".to_string()));
}

#[test]
fn test_tokenize_empty() {
    assert!(tokenize("").is_empty());
    assert!(tokenize("   ").is_empty());
}

#[test]
fn test_tokenize_single_char() {
    let text = "a b c x y z";
    let tokens = tokenize(text);
    assert!(tokens.is_empty());
}

#[test]
fn test_tokenize_punctuation() {
    let text = "Hello, world! How are you? I'm fine.";
    let tokens = tokenize(text);
    assert!(tokens.contains(&"hello".to_string()));
    assert!(tokens.contains(&"world".to_string()));
    assert!(tokens.contains(&"fine".to_string()));
    assert!(!tokens.contains(&"you".to_string()));
}

#[test]
fn tokenize_exact_order() {
    assert_eq!(tokenize("Rust memory, SEARCH engine"), vec!["rust", "memory", "search", "engine"]);
}

#[test]
fn blank_query_escapes_to_nothing() {
    assert_eq!(escape_fts5_query("\t \n  "), "");
    assert_ne!(escape_fts5_query(" \tx "), "");
}

#[test]
fn tokens_are_trimmed_lowercase_pieces_of_the_text() {
    let text = "The Quick, brown FOX's 2nd jump: Über-fast!";
    let lower = text.to_lowercase();
    let tokens = tokenize(text);
    assert!(!tokens.is_empty());
    for t in &tokens {
        assert!(t.len() > 1);
        assert_eq!(t.trim(), t.as_str());
        assert!(t.chars().any(|c| c.is_alphabetic()));
        assert!(lower.contains(t.as_str()));
        assert!(!is_stopword(t));
    }
}

#[test]
fn tokenize_drops_exactly_the_stopwords() {
    let text = "the memory of the agent is in the database";
    let kept: Vec<String> = tokenize_keep_stopwords(text)
        .into_iter()
        .filter(|t| !is_stopword(t))
        .collect();
    assert_eq!(tokenize(text), kept);
}

fn strings(v: &[&str]) -> Vec<String> {
    v.iter().map(|s| s.to_string()).collect()
}

#[test]
fn tokens_from_word_pieces() {
    let pieces = strings(&[" Hello", "a", "the", "x1", "  ", "Rust", "42"]);
    assert_eq!(tokens_from_pieces(&pieces, true), strings(&["Hello", "x1", "Rust"]));
    assert_eq!(tokens_from_pieces(&pieces, false), strings(&["Hello", "the", "x1", "Rust"]));
}

#[test]
fn snippet_tokens_keep_those_longer_than_a_byte() {
    assert_eq!(snippet_tokens(&strings(&["a", "ab", "é"])), strings(&["ab", "é"]));
}

#[test]
fn window_around_the_first_match_of_given_lowercase_text() {
    let w = first_match_window("Hello World", "hello world", &strings(&["world", "zzz"]), 4);
    assert_eq!(w, Some("...o Wo...".to_string()));
    assert_eq!(first_match_window("abc", "abc", &strings(&["zz"]), 10), None);
}

#[test]
fn highlight_matches_whole_words_of_the_lowercase_form() {
    let out = highlight_matches("Rust and RUST, rusty", "rust and rust, rusty", &strings(&["rust"]));
    assert_eq!(out, "**Rust** and **RUST**, rusty");
}
