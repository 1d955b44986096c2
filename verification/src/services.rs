//! Service interfaces of the application layer.
//!
//! These are the two surfaces a host application implements on top of the
//! domain model: corpus management and document management.  Implementations
//! coordinate a repository, a tokenizer and the corpus index; the domain
//! rules themselves live in [`crate::corpus`] and [`crate::document`].

use vstd::prelude::*;

verus! {

use crate::corpus::Corpus;
use crate::document::Document;
use crate::errors::ApplicationResult;

/// Service interface for managing corpora.
pub trait CorpusService {
    /// Create a new corpus.
    fn create_corpus(&self, id: &str, name: &str) -> ApplicationResult<Corpus>;

    /// Create a corpus with a description.
    fn create_corpus_with_description(&self, id: &str, name: &str, description: &str)
        -> ApplicationResult<Corpus>;

    /// Get a corpus by ID.
    fn get_corpus(&self, id: &str) -> ApplicationResult<Corpus>;

    /// Update a corpus's name.
    fn update_name(&self, id: &str, new_name: &str) -> ApplicationResult<Corpus>;

    /// Update a corpus's description.
    fn update_description(&self, id: &str, new_description: &str) -> ApplicationResult<Corpus>;

    /// Delete a corpus.
    fn delete_corpus(&self, id: &str) -> ApplicationResult<()>;

    /// Add a document to a corpus.
    fn add_document(&self, corpus_id: &str, document_id: &str) -> ApplicationResult<Corpus>;

    /// Remove a document from a corpus.
    fn remove_document(&self, corpus_id: &str, document_id: &str) -> ApplicationResult<Corpus>;

    /// Add a stopword to a corpus.
    fn add_stopword(&self, corpus_id: &str, word: &str) -> ApplicationResult<Corpus>;

    /// Remove a stopword from a corpus.
    fn remove_stopword(&self, corpus_id: &str, word: &str) -> ApplicationResult<Corpus>;

    /// Build the document-frequency index for a corpus.
    fn build_index(&self, corpus_id: &str) -> ApplicationResult<Corpus>;

    /// List all corpora.
    fn list_corpora(&self) -> ApplicationResult<Vec<Corpus>>;

    /// Count all corpora.
    fn count_corpora(&self) -> ApplicationResult<usize>;

    /// Get the documents in a corpus.
    fn get_corpus_documents(&self, corpus_id: &str) -> ApplicationResult<Vec<Document>>;

    /// Count the documents in a corpus.
    fn count_corpus_documents(&self, corpus_id: &str) -> ApplicationResult<usize>;
}

/// Service interface for managing documents.
pub trait DocumentService {
    /// Create a new document.
    fn create_document(&self, id: &str, content: &str) -> ApplicationResult<Document>;

    /// Create a document with a title.
    fn create_document_with_title(&self, id: &str, title: &str, content: &str)
        -> ApplicationResult<Document>;

    /// Get a document by ID.
    fn get_document(&self, id: &str) -> ApplicationResult<Document>;

    /// Update a document's content.
    fn update_content(&self, id: &str, new_content: &str) -> ApplicationResult<Document>;

    /// Update a document's title.
    fn update_title(&self, id: &str, new_title: &str) -> ApplicationResult<Document>;

    /// Delete a document.
    fn delete_document(&self, id: &str) -> ApplicationResult<()>;

    /// Re-tokenize and re-analyze a document's content.
    fn process_document(&self, id: &str) -> ApplicationResult<Document>;

    /// List all documents.
    fn list_documents(&self) -> ApplicationResult<Vec<Document>>;

    /// Count all documents.
    fn count_documents(&self) -> ApplicationResult<usize>;

    /// Find the documents containing a term.
    fn search_by_term(&self, term: &str) -> ApplicationResult<Vec<Document>>;
}

} // verus!
