//! Error types of the scoring core and of the services built on it.

use vstd::prelude::*;

verus! {

use vstd::string::StringExecFns;

/// Error raised by TF-IDF scoring operations.
#[derive(Debug)]
pub enum TfIdfError {
    /// The corpus has not been indexed, so its statistics cannot be trusted.
    CorpusNotIndexed,
    /// The requested single-term calculation is not defined, for instance
    /// because the term is a stopword under the current policy.
    InvalidCalculation(String),
    /// A document id was not found among the generated vectors.
    DocumentNotFound(String),
}

impl TfIdfError {
    /// What the message says, variant by variant.
    pub open spec fn spec_message(self) -> Seq<char> {
        match self {
            TfIdfError::CorpusNotIndexed => "Corpus is not indexed"@,
            TfIdfError::InvalidCalculation(s) => "Invalid calculation: "@ + s@,
            TfIdfError::DocumentNotFound(s) => "Document not found: "@ + s@,
        }
    }

    /// A human-readable description of the error.
    pub fn message(&self) -> (r: String)
        ensures
            r@ == self.spec_message(),
    {
        match self {
            TfIdfError::CorpusNotIndexed => "Corpus is not indexed".to_owned(),
            TfIdfError::InvalidCalculation(s) => "Invalid calculation: ".to_owned().concat(
                s.as_str(),
            ),
            TfIdfError::DocumentNotFound(s) => "Document not found: ".to_owned().concat(
                s.as_str(),
            ),
        }
    }
}

/// Error raised by the domain entities.
#[derive(Debug)]
pub enum DomainError {
    /// An entity with the given identity does not exist.
    NotFound(String),
    /// The requested mutation is not allowed in the current state.
    InvalidOperation(String),
    /// A TF-IDF calculation failed.
    TfIdfError(TfIdfError),
    /// Any other domain failure.
    Other(String),
}

impl DomainError {
    /// What the message says, variant by variant.
    pub open spec fn spec_message(self) -> Seq<char> {
        match self {
            DomainError::NotFound(s) => "Entity not found: "@ + s@,
            DomainError::InvalidOperation(s) => "Invalid operation: "@ + s@,
            DomainError::TfIdfError(e) => "TF-IDF calculation error: "@ + e.spec_message(),
            DomainError::Other(s) => "Other domain error: "@ + s@,
        }
    }

    /// A human-readable description of the error.
    pub fn message(&self) -> (r: String)
        ensures
            r@ == self.spec_message(),
    {
        match self {
            DomainError::NotFound(s) => "Entity not found: ".to_owned().concat(s.as_str()),
            DomainError::InvalidOperation(s) => "Invalid operation: ".to_owned().concat(
                s.as_str(),
            ),
            DomainError::TfIdfError(e) => "TF-IDF calculation error: ".to_owned().concat(
                e.message().as_str(),
            ),
            DomainError::Other(s) => "Other domain error: ".to_owned().concat(s.as_str()),
        }
    }
}

/// Result type for domain operations.
pub type DomainResult<T> = Result<T, DomainError>;

/// Error raised by the application services.
#[derive(Debug)]
pub enum ApplicationError {
    /// A domain rule was violated.
    DomainError(DomainError),
    /// The underlying repository failed.
    RepositoryError(String),
    /// The caller's input was rejected.
    InvalidInput(String),
    /// An entity with the given identity does not exist.
    NotFound(String),
    /// The operation is not permitted.
    NotPermitted(String),
    /// Any other application failure.
    Other(String),
}

impl ApplicationError {
    /// What the message says, variant by variant.
    pub open spec fn spec_message(self) -> Seq<char> {
        match self {
            ApplicationError::DomainError(e) => "Domain error: "@ + e.spec_message(),
            ApplicationError::RepositoryError(s) => "Repository error: "@ + s@,
            ApplicationError::InvalidInput(s) => "Invalid input: "@ + s@,
            ApplicationError::NotFound(s) => "Entity not found: "@ + s@,
            ApplicationError::NotPermitted(s) => "Operation not permitted: "@ + s@,
            ApplicationError::Other(s) => "Other application error: "@ + s@,
        }
    }

    /// A human-readable description of the error.
    pub fn message(&self) -> (r: String)
        ensures
            r@ == self.spec_message(),
    {
        match self {
            ApplicationError::DomainError(e) => "Domain error: ".to_owned().concat(
                e.message().as_str(),
            ),
            ApplicationError::RepositoryError(s) => "Repository error: ".to_owned().concat(
                s.as_str(),
            ),
            ApplicationError::InvalidInput(s) => "Invalid input: ".to_owned().concat(s.as_str()),
            ApplicationError::NotFound(s) => "Entity not found: ".to_owned().concat(s.as_str()),
            ApplicationError::NotPermitted(s) => "Operation not permitted: ".to_owned().concat(
                s.as_str(),
            ),
            ApplicationError::Other(s) => "Other application error: ".to_owned().concat(
                s.as_str(),
            ),
        }
    }
}

/// Result type for application operations.
pub type ApplicationResult<T> = Result<T, ApplicationError>;

} // verus!
