//! Terms: the canonical unit of text that scoring works on.
//!
//! A term's identity is its surface text; the stopword flag and the optional
//! stem are attributes that do not take part in identity.

use vstd::prelude::*;

verus! {

/// Unique identifier for a term.
#[derive(Debug)]
pub struct TermId(pub String);

impl TermId {
    /// Create a new term ID.
    pub fn new(id: &str) -> (r: Self)
        ensures
            r.0@ == id@,
    {
        TermId(id.to_owned())
    }

    /// Get the string representation of the ID.
    pub fn value(&self) -> (r: &str)
        ensures
            r@ == self.0@,
    {
        self.0.as_str()
    }
}

impl Clone for TermId {
    fn clone(&self) -> (r: Self)
        ensures
            r == *self,
    {
        TermId(self.0.clone())
    }
}

/// A unit of text, carrying a stopword flag and an optional precomputed stem.
#[derive(Debug)]
pub struct Term {
    /// The surface text; two terms are the same term exactly when their texts
    /// are equal.
    pub text: String,
    /// Whether the term is flagged as a stopword.
    pub is_stopword: bool,
    /// Optional stem of the term (for stemming algorithms).
    pub stem: Option<String>,
}

impl Term {
    /// The stem if one is present, else the surface text.
    pub open spec fn spec_canonical(self) -> Seq<char> {
        if self.stem is Some {
            self.stem.unwrap()@
        } else {
            self.text@
        }
    }

    /// Create a plain (non-stopword, stemless) term.
    pub fn new(text: &str) -> (r: Self)
        ensures
            r.text@ == text@,
            !r.is_stopword,
            r.stem is None,
    {
        Term { text: text.to_owned(), is_stopword: false, stem: None }
    }

    /// Create a term flagged as a stopword.
    pub fn stopword(text: &str) -> (r: Self)
        ensures
            r.text@ == text@,
            r.is_stopword,
            r.stem is None,
    {
        let mut term = Self::new(text);
        term.is_stopword = true;
        term
    }

    /// Create a term with a precomputed stem.
    pub fn with_stem(text: &str, stem: &str) -> (r: Self)
        ensures
            r.text@ == text@,
            !r.is_stopword,
            r.stem is Some,
            r.stem.unwrap()@ == stem@,
    {
        Term { text: text.to_owned(), is_stopword: false, stem: Some(stem.to_owned()) }
    }

    /// Get the term text.
    pub fn text(&self) -> (r: &str)
        ensures
            r@ == self.text@,
    {
        self.text.as_str()
    }

    /// Check if the term is a stopword.
    pub fn is_stopword(&self) -> (r: bool)
        ensures
            r == self.is_stopword,
    {
        self.is_stopword
    }

    /// Mark or unmark this term as a stopword.
    pub fn set_stopword(&mut self, is_stopword: bool)
        ensures
            final(self).text == old(self).text,
            final(self).is_stopword == is_stopword,
            final(self).stem == old(self).stem,
    {
        self.is_stopword = is_stopword;
    }

    /// The stem, if one is present.
    pub fn stem(&self) -> (r: Option<&str>)
        ensures
            match r {
                Some(s) => self.stem is Some && s@ == self.stem.unwrap()@,
                None => self.stem is None,
            },
    {
        match &self.stem {
            Some(s) => Some(s.as_str()),
            None => None,
        }
    }

    /// Set the stem for this term.
    pub fn set_stem(&mut self, stem: &str)
        ensures
            final(self).text == old(self).text,
            final(self).is_stopword == old(self).is_stopword,
            final(self).stem is Some,
            final(self).stem.unwrap()@ == stem@,
    {
        self.stem = Some(stem.to_owned());
    }

    /// Clear the stem.
    pub fn clear_stem(&mut self)
        ensures
            final(self).text == old(self).text,
            final(self).is_stopword == old(self).is_stopword,
            final(self).stem is None,
    {
        self.stem = None;
    }

    /// The stem if present, else the text: the spelling callers should group
    /// by when they want stemmed grouping.
    pub fn canonical(&self) -> (r: &str)
        ensures
            r@ == self.spec_canonical(),
    {
        match &self.stem {
            Some(s) => s.as_str(),
            None => self.text.as_str(),
        }
    }
}

impl Clone for Term {
    fn clone(&self) -> (r: Self)
        ensures
            r == *self,
    {
        Term {
            text: self.text.clone(),
            is_stopword: self.is_stopword,
            stem: match &self.stem {
                Some(s) => Some(s.clone()),
                None => None,
            },
        }
    }
}

/// The frequency of a term in a document: a plain occurrence count.
#[derive(Debug, Clone, Copy, PartialEq, Eq, Structural)]
pub struct TermFrequency(pub usize);

impl TermFrequency {
    /// Wrap a raw occurrence count.
    pub fn new(count: usize) -> (r: Self)
        ensures
            r.0 == count,
    {
        TermFrequency(count)
    }

    /// The raw occurrence count.
    pub fn value(&self) -> (r: usize)
        ensures
            r == self.0,
    {
        self.0
    }

    /// Increment the frequency by one.
    pub fn increment(&mut self)
        requires
            old(self).0 < usize::MAX,
        ensures
            final(self).0 == old(self).0 + 1,
    {
        self.0 += 1;
    }

    /// Add a specific count to the frequency.
    pub fn add(&mut self, count: usize)
        requires
            old(self).0 + count <= usize::MAX,
        ensures
            final(self).0 == old(self).0 + count,
    {
        self.0 += count;
    }
}

} // verus!
