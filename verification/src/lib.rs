//! Term-frequency / inverse-document-frequency relevance scoring over a
//! collection of text documents.
//!
//! The library owns the data model of the scoring engine: [`term::Term`]s,
//! `Document`s with their term-frequency tables, and `Corpus`es with a
//! corpus-wide document-frequency index that is kept consistent under
//! document insertion and removal.

pub mod assoc;
pub mod corpus;
pub mod document;
pub mod errors;
pub mod services;
pub mod term;
pub mod tokenizer;
