use mem_agent::embed::encode::{encode_text, encode_texts};
use tokenizers::Tokenizer;

const CONFIG: &str = r#"{
  "version": "1.0",
  "truncation": null,
  "padding": null,
  "added_tokens": [
    {"id": 0, "content": "[PAD]", "single_word": false, "lstrip": false, "rstrip": false, "normalized": false, "special": true},
    {"id": 1, "content": "[UNK]", "single_word": false, "lstrip": false, "rstrip": false, "normalized": false, "special": true}
  ],
  "normalizer": {"type": "Lowercase"},
  "pre_tokenizer": {"type": "Whitespace"},
  "post_processor": null,
  "decoder": null,
  "model": {"type": "WordLevel", "vocab": {"[PAD]": 0, "[UNK]": 1, "hello": 2, "world": 3, "the": 4, "rust": 5, "is": 6, "fast": 7}, "unk_token": "[UNK]"}
}"#;

fn make_test_tokenizer() -> Tokenizer {
    Tokenizer::from_bytes(CONFIG.as_bytes()).unwrap()
}

#[test]
fn test_tokenizer_encode() {
    let tok = make_test_tokenizer();
    let ids = encode_text(&tok, "hello world", 128).unwrap();
    assert!(!ids.is_empty());
}

#[test]
fn test_tokenizer_encode_batch() {
    let tok = make_test_tokenizer();
    let texts = vec!["hello world".to_string(), "rust is fast".to_string()];
    let results = encode_texts(&tok, &texts, 128).unwrap();
    assert_eq!(results.len(), 2);
}

#[test]
fn encoded_ids_are_cut_at_the_maximum_length() {
    let tok = make_test_tokenizer();
    assert_eq!(encode_text(&tok, "Hello World rust", 128).unwrap(), vec![2, 3, 5]);
    assert_eq!(encode_text(&tok, "Hello World rust", 2).unwrap(), vec![2, 3]);
    assert_eq!(encode_text(&tok, "unknown", 5).unwrap(), vec![1]);
    let texts = vec!["rust is fast".to_string(), "the".to_string(), String::new()];
    assert_eq!(encode_texts(&tok, &texts, 2).unwrap(), vec![vec![5, 6], vec![4], vec![]]);
}
