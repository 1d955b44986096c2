use tfidf::corpus::Corpus;
use tfidf::document::Document;
use tfidf::document::DocumentId;
use tfidf::term::Term;
use tfidf::term::TermFrequency;

#[test]
fn test_term_creation() {
    let term = Term::new("test");
    assert_eq!(term.text(), "test");
    assert_eq!(term.is_stopword(), false);
    assert_eq!(term.stem(), None);
    assert_eq!(term.canonical(), "test");
}

#[test]
fn test_term_with_stem() {
    let term = Term::with_stem("running", "run");
    assert_eq!(term.text(), "running");
    assert_eq!(term.stem(), Some("run"));
    assert_eq!(term.canonical(), "run");
}

#[test]
fn test_stopword() {
    let term = Term::stopword("the");
    assert_eq!(term.text(), "the");
    assert_eq!(term.is_stopword(), true);
}

#[test]
fn test_term_frequency() {
    let mut freq = TermFrequency::new(2);
    assert_eq!(freq.value(), 2);

    freq.increment();
    assert_eq!(freq.value(), 3);

    freq.add(5);
    assert_eq!(freq.value(), 8);
}

#[test]
fn set_and_clear_stem() {
    let mut term = Term::new("walked");
    term.set_stem("walk");
    assert_eq!(term.stem(), Some("walk"));
    assert_eq!(term.canonical(), "walk");
    term.clear_stem();
    assert_eq!(term.stem(), None);
    assert_eq!(term.canonical(), "walked");
    term.set_stopword(true);
    assert!(term.is_stopword());
}

#[test]
fn test_document_creation() {
    let doc = Document::new("doc1", "This is a test document");
    assert_eq!(doc.id().value(), "doc1");
    assert_eq!(doc.content(), "This is a test document");
    assert_eq!(doc.term_count(), 0);
}

#[test]
fn test_add_terms() {
    let mut doc = Document::new("doc1", "This is a test");

    doc.add_term(Term::new("this"));
    doc.add_term(Term::new("is"));
    doc.add_term(Term::new("a"));
    doc.add_term(Term::new("test"));
    doc.add_term(Term::new("this")); // Duplicate term

    assert_eq!(doc.term_count(), 5);
    assert_eq!(doc.term_frequency(&Term::new("this")), TermFrequency(2));
    assert_eq!(doc.term_frequency(&Term::new("unknown")), TermFrequency(0));
}

#[test]
fn add_terms_in_bulk() {
    let mut doc = Document::new("doc1", "one two two");
    doc.add_terms(vec![Term::new("one"), Term::new("two"), Term::new("two")]);
    assert_eq!(doc.term_count(), 3);
    assert_eq!(doc.term_frequency(&Term::new("one")), TermFrequency(1));
    assert_eq!(doc.term_frequency(&Term::new("two")), TermFrequency(2));
    assert_eq!(doc.term_frequencies().len(), 2);
}

#[test]
fn clear_terms_resets_the_table() {
    let mut doc = Document::new("doc1", "a a b");
    doc.add_term(Term::new("a"));
    doc.add_term(Term::new("a"));
    doc.add_term(Term::new("b"));
    assert_eq!(doc.term_count(), 3);
    doc.clear_terms();
    assert_eq!(doc.term_count(), 0);
    assert_eq!(doc.term_frequencies().len(), 0);
    assert_eq!(doc.term_frequency(&Term::new("a")), TermFrequency(0));
}

#[test]
fn document_title_and_metadata() {
    let mut doc = Document::with_title("doc1", "A Title", "Some content");
    assert_eq!(doc.title(), Some("A Title"));
    doc.set_title("Another Title");
    assert_eq!(doc.title(), Some("Another Title"));
    doc.set_metadata("lang", "en");
    doc.set_metadata("lang", "de");
    doc.set_metadata("source", "disk");
    let meta = doc.metadata();
    assert_eq!(meta.len(), 2);
    assert!(meta.iter().any(|(k, v)| k == "lang" && v == "de"));
    assert!(meta.iter().any(|(k, v)| k == "source" && v == "disk"));
}

#[test]
fn test_corpus_creation() {
    let corpus = Corpus::new("corpus1", "Test Corpus");
    assert_eq!(corpus.id().value(), "corpus1");
    assert_eq!(corpus.name(), "Test Corpus");
    assert_eq!(corpus.description(), None);
    assert_eq!(corpus.document_count(), 0);
    assert_eq!(corpus.is_indexed(), false);
}

#[test]
fn test_add_document() {
    let mut corpus = Corpus::new("corpus1", "Test Corpus");
    let doc = Document::new("doc1", "This is a test");

    corpus.add_document(doc).unwrap();
    assert_eq!(corpus.document_count(), 1);
    assert!(corpus.contains_document(&DocumentId::new("doc1")));
}

#[test]
fn test_document_frequencies() {
    let mut corpus = Corpus::new("corpus1", "Test Corpus");

    // Create first document with terms
    let mut doc1 = Document::new("doc1", "This is a test");
    doc1.add_term(Term::new("this"));
    doc1.add_term(Term::new("is"));
    doc1.add_term(Term::new("a"));
    doc1.add_term(Term::new("test"));

    // Create second document with some overlapping terms
    let mut doc2 = Document::new("doc2", "This is another example");
    doc2.add_term(Term::new("this"));
    doc2.add_term(Term::new("is"));
    doc2.add_term(Term::new("another"));
    doc2.add_term(Term::new("example"));

    // Add documents to corpus
    corpus.add_document(doc1).unwrap();
    corpus.add_document(doc2).unwrap();

    // Build index
    corpus.build_index();
    assert!(corpus.is_indexed());

    // Check document frequencies
    assert_eq!(corpus.document_frequency(&Term::new("this")), 2);
    assert_eq!(corpus.document_frequency(&Term::new("is")), 2);
    assert_eq!(corpus.document_frequency(&Term::new("a")), 1);
    assert_eq!(corpus.document_frequency(&Term::new("test")), 1);
    assert_eq!(corpus.document_frequency(&Term::new("another")), 1);
    assert_eq!(corpus.document_frequency(&Term::new("example")), 1);
    assert_eq!(corpus.document_frequency(&Term::new("unknown")), 0);
}

#[test]
fn test_remove_document() {
    let mut corpus = Corpus::new("corpus1", "Test Corpus");

    // Create and add a document
    let mut doc = Document::new("doc1", "This is a test");
    doc.add_term(Term::new("this"));
    doc.add_term(Term::new("is"));

    corpus.add_document(doc).unwrap();
    corpus.build_index();

    // Verify document frequency
    assert_eq!(corpus.document_frequency(&Term::new("this")), 1);

    // Remove the document
    let removed_doc = corpus.remove_document(&DocumentId::new("doc1")).unwrap();
    assert_eq!(removed_doc.id().value(), "doc1");
    assert_eq!(corpus.document_count(), 0);

    // Document frequency should be updated
    assert_eq!(corpus.document_frequency(&Term::new("this")), 0);
}

#[test]
fn corpus_descriptions_and_metadata() {
    let mut corpus = Corpus::with_description("corpus1", "Test Corpus", "About testing");
    assert_eq!(corpus.description(), Some("About testing"));
    corpus.set_description("Different");
    assert_eq!(corpus.description(), Some("Different"));
    corpus.clear_description();
    assert_eq!(corpus.description(), None);
    corpus.set_name("Renamed");
    assert_eq!(corpus.name(), "Renamed");
    corpus.set_metadata("owner", "me");
    assert!(corpus.metadata().iter().any(|(k, v)| k == "owner" && v == "me"));
}

#[test]
fn corpus_stopwords_are_a_set() {
    let mut corpus = Corpus::new("corpus1", "Test Corpus");
    corpus.add_stopword("the");
    corpus.add_stopword("the");
    corpus.add_stopwords(vec!["and".to_string(), "of".to_string()]);
    assert!(corpus.is_stopword("the"));
    assert!(corpus.is_stopword("and"));
    assert!(corpus.is_stopword("of"));
    assert!(!corpus.is_stopword("horse"));
    assert_eq!(corpus.stopwords().len(), 3);
    assert!(corpus.remove_stopword("the"));
    assert!(!corpus.remove_stopword("the"));
    assert!(!corpus.is_stopword("the"));
}

#[test]
fn documents_and_ids_list_members() {
    let mut corpus = Corpus::new("corpus1", "Test Corpus");
    corpus.add_document(Document::new("doc1", "first")).unwrap();
    corpus.add_document(Document::new("doc2", "second")).unwrap();
    let ids: Vec<String> = corpus
        .document_ids()
        .iter()
        .map(|id| id.value().to_string())
        .collect();
    assert_eq!(ids, vec!["doc1", "doc2"]);
    assert_eq!(corpus.documents().len(), 2);
    let found = corpus.get_document(&DocumentId::new("doc2")).unwrap();
    assert_eq!(found.content(), "second");
    assert!(corpus.get_document(&DocumentId::new("doc3")).is_none());
}
