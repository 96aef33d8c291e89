pub mod strings;
pub mod tokenizer;
pub mod snippet;
pub mod bm25;
