use mem_agent::text::bm25::TermCounts;

fn toks(s: &str) -> Vec<String> {
    s.split_whitespace().map(String::from).collect()
}

#[test]
fn counts_terms_and_documents() {
    let mut c = TermCounts::new();
    c.add_document(0, &toks("rust memory rust"));
    c.add_document(1, &toks("python memory"));
    assert_eq!(c.n_docs, 2);
    assert_eq!(c.term_frequency(0, "rust"), 2);
    assert_eq!(c.term_frequency(0, "python"), 0);
    assert_eq!(c.term_frequency(5, "rust"), 0);
    assert_eq!(c.document_frequency("memory"), 2);
    assert_eq!(c.document_frequency("rust"), 1);
    assert_eq!(c.document_frequency("go"), 0);
    assert_eq!(c.doc_len, vec![3, 2]);
}

#[test]
fn adding_a_far_document_makes_room() {
    let mut c = TermCounts::new();
    c.add_document(3, &toks("a b"));
    assert_eq!(c.n_docs, 4);
    assert_eq!(c.doc_len, vec![0, 0, 0, 2]);
    assert_eq!(c.tf.len(), 4);
}

#[test]
fn re_adding_counts_only_new_terms() {
    let mut c = TermCounts::new();
    c.add_document(0, &toks("a b"));
    c.add_document(0, &toks("b c"));
    assert_eq!(c.document_frequency("b"), 1);
    assert_eq!(c.document_frequency("c"), 1);
    assert_eq!(c.document_frequency("a"), 1);
    assert_eq!(c.term_frequency(0, "a"), 0);
}

#[test]
fn build_counts_each_document() {
    let docs = vec![(0usize, toks("rust is fast")), (1, toks("rust is safe")), (2, toks("go"))];
    let c = TermCounts::build_from_documents(&docs);
    assert_eq!(c.n_docs, 3);
    assert_eq!(c.document_frequency("rust"), 2);
    assert_eq!(c.document_frequency("go"), 1);
    assert_eq!(c.term_frequency(1, "safe"), 1);
}

#[test]
fn document_frequency_counts_the_documents_holding_a_term() {
    let mut c = TermCounts::new();
    c.add_document(0, &toks("a b a"));
    c.add_document(2, &toks("b c"));
    c.add_document(1, &toks("c b"));
    assert_eq!(c.document_frequency("a"), 1);
    assert_eq!(c.document_frequency("b"), 3);
    assert_eq!(c.document_frequency("c"), 2);
    assert_eq!(c.document_frequency("d"), 0);
}
