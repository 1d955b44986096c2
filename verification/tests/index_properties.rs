use tfidf::corpus::Corpus;
use tfidf::document::Document;
use tfidf::document::DocumentId;
use tfidf::errors::DomainError;
use tfidf::errors::TfIdfError;
use tfidf::term::Term;

fn doc_with_terms(id: &str, content: &str, words: &[&str]) -> Document {
    let mut doc = Document::new(id, content);
    for w in words {
        doc.add_term(Term::new(w));
    }
    doc
}

const ALL_WORDS: [&str; 7] = ["this", "is", "a", "test", "another", "example", "yet"];

#[test]
fn incremental_updates_match_full_rebuild() {
    // Corpus `a` is indexed up front, so additions and removals take the
    // incremental path.
    let mut a = Corpus::new("a", "Incremental");
    a.build_index();
    a.add_document(doc_with_terms("doc1", "this is a test", &["this", "is", "a", "test"]))
        .unwrap();
    a.add_document(doc_with_terms(
        "doc2",
        "this is another test",
        &["this", "is", "another", "test"],
    ))
    .unwrap();
    a.add_document(doc_with_terms("doc3", "yet another example", &["yet", "another", "example"]))
        .unwrap();
    a.remove_document(&DocumentId::new("doc2")).unwrap();

    // Corpus `b` sees the same mutations unindexed and is rebuilt at the end.
    let mut b = Corpus::new("b", "Rebuilt");
    b.add_document(doc_with_terms("doc1", "this is a test", &["this", "is", "a", "test"]))
        .unwrap();
    b.add_document(doc_with_terms(
        "doc2",
        "this is another test",
        &["this", "is", "another", "test"],
    ))
    .unwrap();
    b.add_document(doc_with_terms("doc3", "yet another example", &["yet", "another", "example"]))
        .unwrap();
    b.remove_document(&DocumentId::new("doc2")).unwrap();
    b.build_index();

    for w in ALL_WORDS {
        assert_eq!(
            a.document_frequency(&Term::new(w)),
            b.document_frequency(&Term::new(w)),
            "frequencies diverge for {w}"
        );
    }
    assert_eq!(a.document_frequency(&Term::new("this")), 1);
    assert_eq!(a.document_frequency(&Term::new("another")), 1);
    assert_eq!(a.document_frequency(&Term::new("test")), 1);
}

#[test]
fn remove_then_readd_restores_frequencies() {
    let mut corpus = Corpus::new("corpus1", "Round Trip");
    corpus
        .add_document(doc_with_terms("doc1", "this is", &["this", "is"]))
        .unwrap();
    corpus
        .add_document(doc_with_terms("doc2", "this test", &["this", "test"]))
        .unwrap();
    corpus.build_index();

    assert_eq!(corpus.document_frequency(&Term::new("this")), 2);
    assert_eq!(corpus.document_frequency(&Term::new("is")), 1);
    assert_eq!(corpus.document_frequency(&Term::new("test")), 1);

    let removed = corpus.remove_document(&DocumentId::new("doc1")).unwrap();
    assert_eq!(corpus.document_frequency(&Term::new("this")), 1);
    assert_eq!(corpus.document_frequency(&Term::new("is")), 0);

    corpus.add_document(removed).unwrap();
    assert_eq!(corpus.document_frequency(&Term::new("this")), 2);
    assert_eq!(corpus.document_frequency(&Term::new("is")), 1);
    assert_eq!(corpus.document_frequency(&Term::new("test")), 1);
}

#[test]
fn shared_terms_decrement_without_pruning() {
    let mut corpus = Corpus::new("corpus1", "Shared");
    corpus
        .add_document(doc_with_terms("doc1", "apples here", &["apples"]))
        .unwrap();
    corpus
        .add_document(doc_with_terms("doc2", "apples there", &["apples"]))
        .unwrap();
    corpus.build_index();
    assert_eq!(corpus.document_frequency(&Term::new("apples")), 2);

    corpus.remove_document(&DocumentId::new("doc1")).unwrap();
    assert_eq!(corpus.document_frequency(&Term::new("apples")), 1);
}

#[test]
fn build_index_on_empty_corpus() {
    let mut corpus = Corpus::new("corpus1", "Empty");
    corpus.build_index();
    assert!(corpus.is_indexed());
    assert_eq!(corpus.document_frequency(&Term::new("anything")), 0);
    assert_eq!(corpus.document_count(), 0);
}

#[test]
fn frequencies_stay_zero_before_indexing() {
    let mut corpus = Corpus::new("corpus1", "Stale");
    corpus
        .add_document(doc_with_terms("doc1", "this", &["this"]))
        .unwrap();
    // Not indexed: the table has never been filled, so lookups count zero.
    assert!(!corpus.is_indexed());
    assert_eq!(corpus.document_frequency(&Term::new("this")), 0);
}

#[test]
fn duplicate_document_is_rejected() {
    let mut corpus = Corpus::new("corpus1", "Dup");
    corpus.add_document(Document::new("doc1", "first")).unwrap();
    let err = corpus
        .add_document(Document::new("doc1", "second"))
        .unwrap_err();
    assert!(matches!(err, DomainError::InvalidOperation(_)));
    assert_eq!(corpus.document_count(), 1);
    let found = corpus.get_document(&DocumentId::new("doc1")).unwrap();
    assert_eq!(found.content(), "first");
}

#[test]
fn removing_missing_document_fails() {
    let mut corpus = Corpus::new("corpus1", "Missing");
    let err = corpus
        .remove_document(&DocumentId::new("doc1"))
        .unwrap_err();
    assert!(matches!(err, DomainError::NotFound(_)));
}

#[test]
fn error_messages_describe_the_failure() {
    assert_eq!(TfIdfError::CorpusNotIndexed.message(), "Corpus is not indexed");
    assert_eq!(
        TfIdfError::InvalidCalculation("Term is a stopword".to_string()).message(),
        "Invalid calculation: Term is a stopword"
    );
    assert_eq!(
        TfIdfError::DocumentNotFound("doc9".to_string()).message(),
        "Document not found: doc9"
    );
    assert_eq!(
        DomainError::TfIdfError(TfIdfError::CorpusNotIndexed).message(),
        "TF-IDF calculation error: Corpus is not indexed"
    );
    let mut corpus = Corpus::new("corpus1", "Messages");
    corpus.add_document(Document::new("doc1", "text")).unwrap();
    let err = corpus
        .add_document(Document::new("doc1", "text"))
        .unwrap_err();
    assert_eq!(err.message(), "Invalid operation: Document with ID 'doc1' already exists in corpus");
}
