//! Corpora: collections of documents with a corpus-wide document-frequency
//! index.
//!
//! The index maps each term text to the number of *distinct* documents that
//! contain it.  [`Corpus::build_index`] recomputes it from scratch;
//! [`Corpus::add_document`] and [`Corpus::remove_document`] keep it
//! consistent incrementally when the corpus is already indexed, and the
//! lemmas at the bottom of this module state that the incremental path
//! agrees exactly with a full rebuild.

use vstd::prelude::*;

verus! {

use crate::assoc::ahas_key;
use crate::assoc::ahas_key_upto;
use crate::assoc::akeys_unique;
use crate::assoc::amap_of;
use crate::assoc::avals_ge_one;
use crate::assoc::count_list_get;
use crate::assoc::count_list_increment;
use crate::assoc::count_list_decrement_prune;
use crate::assoc::counts_view;
use crate::assoc::lemma_amap_at;
use crate::assoc::lemma_amap_contains;
use crate::assoc::lemma_amap_ge_one;
use crate::assoc::lemma_sset_push;
use crate::assoc::pair_list_set;
use crate::assoc::pairs_view;
use crate::assoc::selems_unique;
use crate::assoc::sset_of;
use crate::assoc::str_list_contains;
use crate::assoc::str_list_insert;
use crate::assoc::str_list_remove;
use crate::assoc::str_views;
use crate::document::tf_lookup;
use crate::document::Document;
use crate::document::DocumentId;
use crate::errors::DomainError;
use crate::errors::DomainResult;
use crate::term::Term;
use vstd::string::StringExecFns;

/// Unique identifier for a corpus.
#[derive(Debug)]
pub struct CorpusId(pub String);

impl CorpusId {
    /// Create a new corpus ID.
    pub fn new(id: &str) -> (r: Self)
        ensures
            r.0@ == id@,
    {
        CorpusId(id.to_owned())
    }

    /// Get the string representation of the ID.
    pub fn value(&self) -> (r: &str)
        ensures
            r@ == self.0@,
    {
        self.0.as_str()
    }
}

impl Clone for CorpusId {
    fn clone(&self) -> (r: Self)
        ensures
            r == *self,
    {
        CorpusId(self.0.clone())
    }
}

/// Document ids are pairwise distinct.
pub open spec fn doc_ids_unique(docs: Seq<Document>) -> bool {
    forall|i: int, j: int| 0 <= i < j < docs.len() ==> docs[i].id.0@ != docs[j].id.0@
}

/// How many of the documents contain the text `t`.
pub open spec fn doc_count_with(docs: Seq<Document>, t: Seq<char>) -> nat
    decreases docs.len(),
{
    if docs.len() == 0 {
        0
    } else {
        doc_count_with(docs.drop_last(), t) + (if docs.last().has_term(t) {
            1nat
        } else {
            0nat
        })
    }
}

/// The frequency table `dfm` counts, for every term text, exactly the
/// documents among `docs` that contain it.
pub open spec fn df_counts_docs(docs: Seq<Document>, dfm: Map<Seq<char>, nat>) -> bool {
    forall|t: Seq<char>| #![trigger tf_lookup(dfm, t)] tf_lookup(dfm, t) == doc_count_with(docs, t)
}

/// The first document with the given id, if any.
pub open spec fn spec_find_doc(docs: Seq<Document>, id: Seq<char>) -> Option<Document>
    decreases docs.len(),
{
    if docs.len() == 0 {
        None
    } else if docs[0].id.0@ == id {
        Some(docs[0])
    } else {
        spec_find_doc(docs.drop_first(), id)
    }
}

/// No more documents contain a text than there are documents.
pub proof fn lemma_doc_count_le_len(docs: Seq<Document>, t: Seq<char>)
    ensures
        doc_count_with(docs, t) <= docs.len(),
    decreases docs.len(),
{
    if docs.len() > 0 {
        lemma_doc_count_le_len(docs.drop_last(), t);
    }
}

/// Appending a document adds one to the count of each text it contains.
pub proof fn lemma_doc_count_push(docs: Seq<Document>, d: Document, t: Seq<char>)
    ensures
        doc_count_with(docs.push(d), t) == doc_count_with(docs, t) + (if d.has_term(t) {
            1nat
        } else {
            0nat
        }),
{
    assert(docs.push(d).drop_last() =~= docs);
}

/// Removing a document takes one from the count of each text it contains.
pub proof fn lemma_doc_count_remove(docs: Seq<Document>, i: int, t: Seq<char>)
    requires
        0 <= i < docs.len(),
    ensures
        doc_count_with(docs.remove(i), t) + (if docs[i].has_term(t) {
            1nat
        } else {
            0nat
        }) == doc_count_with(docs, t),
    decreases docs.len(),
{
    let r = docs.remove(i);
    if i == docs.len() - 1 {
        assert(r =~= docs.drop_last());
    } else {
        assert(r.drop_last() =~= docs.drop_last().remove(i));
        assert(r.last() == docs.last());
        lemma_doc_count_remove(docs.drop_last(), i, t);
    }
}

/// A document that contains a text makes its count at least one.
pub proof fn lemma_doc_count_member(docs: Seq<Document>, i: int, t: Seq<char>)
    requires
        0 <= i < docs.len(),
        docs[i].has_term(t),
    ensures
        doc_count_with(docs, t) >= 1,
{
    lemma_doc_count_remove(docs, i, t);
}

/// Counting over one more document from the front.
pub proof fn lemma_doc_count_take_step(docs: Seq<Document>, i: int, t: Seq<char>)
    requires
        0 <= i < docs.len(),
    ensures
        doc_count_with(docs.take(i + 1), t) == doc_count_with(docs.take(i), t) + (
        if docs[i].has_term(t) {
            1nat
        } else {
            0nat
        }),
{
    assert(docs.take(i + 1).drop_last() =~= docs.take(i));
    assert(docs.take(i + 1).last() == docs[i]);
}

/// A scan that stops at the first matching id finds what `spec_find_doc`
/// denotes.
pub proof fn lemma_find_doc_at(docs: Seq<Document>, i: int)
    requires
        0 <= i < docs.len(),
        forall|j: int| 0 <= j < i ==> docs[j].id.0@ != docs[i].id.0@,
    ensures
        spec_find_doc(docs, docs[i].id.0@) == Some(docs[i]),
    decreases docs.len(),
{
    if i > 0 {
        let rest = docs.drop_first();
        assert(forall|j: int| 0 <= j < i - 1 ==> rest[j].id.0@ == docs[j + 1].id.0@);
        lemma_find_doc_at(rest, i - 1);
        assert(rest[i - 1] == docs[i]);
    }
}

/// When no document matches, `spec_find_doc` finds nothing.
pub proof fn lemma_find_doc_none(docs: Seq<Document>, id: Seq<char>)
    requires
        forall|j: int| 0 <= j < docs.len() ==> docs[j].id.0@ != id,
    ensures
        spec_find_doc(docs, id) is None,
    decreases docs.len(),
{
    if docs.len() > 0 {
        let rest = docs.drop_first();
        assert(forall|j: int| 0 <= j < rest.len() ==> rest[j].id.0@ == docs[j + 1].id.0@);
        lemma_find_doc_none(rest, id);
    }
}

/// A collection of documents with a corpus-wide document-frequency index.
#[derive(Debug)]
pub struct Corpus {
    /// Unique identifier for the corpus.
    pub id: CorpusId,
    /// Name of the corpus.
    pub name: String,
    /// Optional description of the corpus.
    pub description: Option<String>,
    /// The documents, with pairwise distinct ids.
    pub documents: Vec<Document>,
    /// Document frequency for each term: in how many documents it occurs.
    pub document_frequencies: Vec<(String, usize)>,
    /// Stopwords specific to this corpus.
    pub stopwords: Vec<String>,
    /// Whether the document-frequency index is current.
    pub indexed: bool,
    /// Free-form metadata.
    pub metadata: Vec<(String, String)>,
}

impl Corpus {
    /// The keyed view of the document-frequency entries.
    pub open spec fn df_seq(self) -> Seq<(Seq<char>, nat)> {
        counts_view(self.document_frequencies@)
    }

    /// The document-frequency table as a map from term text to count.
    pub open spec fn df_map(self) -> Map<Seq<char>, nat> {
        amap_of(self.df_seq())
    }

    /// The recorded document frequency of a text, zero when absent.
    pub open spec fn spec_document_frequency(self, t: Seq<char>) -> nat {
        tf_lookup(self.df_map(), t)
    }

    /// The corpus-local stopword set.
    pub open spec fn stop_set(self) -> Set<Seq<char>> {
        sset_of(str_views(self.stopwords@))
    }

    /// Whether a document with the given id is present.
    pub open spec fn spec_contains_document(self, id: Seq<char>) -> bool {
        spec_find_doc(self.documents@, id) is Some
    }

    /// Well-formedness: distinct document ids, well-formed documents, and
    /// index, stopword and metadata tables with distinct keys and positive
    /// counts.
    pub open spec fn wf(self) -> bool {
        &&& doc_ids_unique(self.documents@)
        &&& forall|i: int| 0 <= i < self.documents@.len() ==> self.documents@[i].wf()
        &&& akeys_unique(self.df_seq())
        &&& avals_ge_one(self.df_seq())
        &&& selems_unique(str_views(self.stopwords@))
        &&& akeys_unique(pairs_view(self.metadata@))
    }

    /// When the corpus is indexed, the document-frequency table records, for
    /// every term text, exactly the number of documents that contain it.
    pub open spec fn index_ok(self) -> bool {
        self.indexed ==> df_counts_docs(self.documents@, self.df_map())
    }

    /// Everything except the document set and the frequency index is the
    /// same in both corpora.
    pub open spec fn same_shell(self, other: Corpus) -> bool {
        &&& self.id == other.id
        &&& self.name == other.name
        &&& self.description == other.description
        &&& self.stopwords@ == other.stopwords@
        &&& self.metadata@ == other.metadata@
    }

    /// Create a new, unindexed, empty corpus.
    pub fn new(id: &str, name: &str) -> (r: Self)
        ensures
            r.wf(),
            r.index_ok(),
            r.id.0@ == id@,
            r.name@ == name@,
            r.description is None,
            r.documents@.len() == 0,
            r.document_frequencies@.len() == 0,
            r.stopwords@.len() == 0,
            r.metadata@.len() == 0,
            !r.indexed,
    {
        Corpus {
            id: CorpusId(id.to_owned()),
            name: name.to_owned(),
            description: None,
            documents: Vec::new(),
            document_frequencies: Vec::new(),
            stopwords: Vec::new(),
            indexed: false,
            metadata: Vec::new(),
        }
    }

    /// Create a new corpus with a description.
    pub fn with_description(id: &str, name: &str, description: &str) -> (r: Self)
        ensures
            r.wf(),
            r.index_ok(),
            r.id.0@ == id@,
            r.name@ == name@,
            r.description is Some,
            r.description.unwrap()@ == description@,
            r.documents@.len() == 0,
            r.document_frequencies@.len() == 0,
            r.stopwords@.len() == 0,
            r.metadata@.len() == 0,
            !r.indexed,
    {
        let mut corpus = Self::new(id, name);
        corpus.description = Some(description.to_owned());
        corpus
    }

    /// Get the corpus ID.
    pub fn id(&self) -> (r: &CorpusId)
        ensures
            *r == self.id,
    {
        &self.id
    }

    /// Get the name of the corpus.
    pub fn name(&self) -> (r: &str)
        ensures
            r@ == self.name@,
    {
        self.name.as_str()
    }

    /// Set the name of the corpus.
    pub fn set_name(&mut self, name: &str)
        ensures
            final(self).name@ == name@,
            *final(self) == (Corpus { name: final(self).name, ..*old(self) }),
    {
        self.name = name.to_owned();
    }

    /// Get the description of the corpus, if available.
    pub fn description(&self) -> (r: Option<&str>)
        ensures
            match r {
                Some(d) => self.description is Some && d@ == self.description.unwrap()@,
                None => self.description is None,
            },
    {
        match &self.description {
            Some(d) => Some(d.as_str()),
            None => None,
        }
    }

    /// Set the description for this corpus.
    pub fn set_description(&mut self, description: &str)
        ensures
            final(self).description is Some,
            final(self).description.unwrap()@ == description@,
            *final(self) == (Corpus { description: final(self).description, ..*old(self) }),
    {
        self.description = Some(description.to_owned());
    }

    /// Clear the description.
    pub fn clear_description(&mut self)
        ensures
            final(self).description is None,
            *final(self) == (Corpus { description: None, ..*old(self) }),
    {
        self.description = None;
    }

    /// Get the number of documents in the corpus.
    pub fn document_count(&self) -> (r: usize)
        ensures
            r == self.documents@.len(),
    {
        self.documents.len()
    }

    /// Check if the corpus contains a document with the given ID.
    pub fn contains_document(&self, document_id: &DocumentId) -> (r: bool)
        ensures
            r == self.spec_contains_document(document_id.0@),
    {
        match find_doc_index(&self.documents, &document_id.0) {
            Some(i) => {
                proof {
                    lemma_find_doc_at(self.documents@, i as int);
                }
                true
            },
            None => {
                proof {
                    lemma_find_doc_none(self.documents@, document_id.0@);
                }
                false
            },
        }
    }

    /// Get a document by ID.
    pub fn get_document(&self, document_id: &DocumentId) -> (r: Option<&Document>)
        ensures
            match r {
                Some(d) => spec_find_doc(self.documents@, document_id.0@) == Some(*d),
                None => spec_find_doc(self.documents@, document_id.0@) is None,
            },
    {
        match find_doc_index(&self.documents, &document_id.0) {
            Some(i) => {
                proof {
                    lemma_find_doc_at(self.documents@, i as int);
                }
                Some(&self.documents[i])
            },
            None => {
                proof {
                    lemma_find_doc_none(self.documents@, document_id.0@);
                }
                None
            },
        }
    }

    /// Add a document.  Fails when a document with the same id is already
    /// present; on an indexed corpus the document-frequency index is updated
    /// incrementally: one more for each distinct term of the new document.
    pub fn add_document(&mut self, document: Document) -> (r: DomainResult<()>)
        requires
            old(self).wf(),
            old(self).index_ok(),
            document.wf(),
            old(self).documents@.len() < usize::MAX,
        ensures
            final(self).wf(),
            final(self).index_ok(),
            final(self).indexed == old(self).indexed,
            final(self).same_shell(*old(self)),
            match r {
                Ok(()) => {
                    &&& !old(self).spec_contains_document(document.id.0@)
                    &&& final(self).documents@ == old(self).documents@.push(document)
                    &&& (!old(self).indexed ==> final(self).document_frequencies@ == old(
                        self,
                    ).document_frequencies@)
                },
                Err(e) => {
                    &&& old(self).spec_contains_document(document.id.0@)
                    &&& e is InvalidOperation
                    &&& *final(self) == *old(self)
                },
            },
    {
        match find_doc_index(&self.documents, &document.id.0) {
            Some(i) => {
                proof {
                    lemma_find_doc_at(self.documents@, i as int);
                }
                let mut msg = "Document with ID '".to_owned();
                msg.append(document.id.0.as_str());
                msg.append("' already exists in corpus");
                return Err(DomainError::InvalidOperation(msg));
            },
            None => {
                proof {
                    lemma_find_doc_none(self.documents@, document.id.0@);
                }
            },
        }
        if self.indexed {
            let ghost dseq = document.tf_seq();
            let n = document.term_frequencies.len();
            let mut k: usize = 0;
            #[verifier::loop_isolation(false)]
            while k < n
                invariant
                    n == document.term_frequencies@.len(),
                    k <= n,
                    self.indexed,
                    self.documents@ == old(self).documents@,
                    self.id == old(self).id,
                    self.name == old(self).name,
                    self.description == old(self).description,
                    self.stopwords@ == old(self).stopwords@,
                    self.metadata@ == old(self).metadata@,
                    akeys_unique(self.df_seq()),
                    avals_ge_one(self.df_seq()),
                    forall|t: Seq<char>|
                        #![trigger tf_lookup(self.df_map(), t)]
                        tf_lookup(self.df_map(), t) == tf_lookup(old(self).df_map(), t) + (
                        if ahas_key_upto(dseq, k as int, t) {
                            1nat
                        } else {
                            0nat
                        }),
                decreases n - k,
            {
                let key = document.term_frequencies[k].0.text.clone();
                let ghost pre = *self;
                proof {
                    assert(dseq[k as int].0 == key@);
                    assert forall|j: int| 0 <= j < k implies dseq[j].0 != key@ by {
                        assert(akeys_unique(dseq));
                    }
                    assert(!ahas_key_upto(dseq, k as int, key@));
                    assert(doc_count_with(old(self).documents@, key@) == tf_lookup(
                        old(self).df_map(),
                        key@,
                    ));
                    lemma_doc_count_le_len(old(self).documents@, key@);
                    assert(tf_lookup(pre.df_map(), key@) < usize::MAX);
                }
                count_list_increment(&mut self.document_frequencies, &key);
                proof {
                    assert forall|t: Seq<char>|
                        tf_lookup(self.df_map(), t) == tf_lookup(old(self).df_map(), t) + (
                        if ahas_key_upto(dseq, k + 1, t) {
                            1nat
                        } else {
                            0nat
                        }) by {
                        assert(tf_lookup(pre.df_map(), t) == tf_lookup(old(self).df_map(), t) + (
                        if ahas_key_upto(dseq, k as int, t) {
                            1nat
                        } else {
                            0nat
                        }));
                        if t == key@ {
                            assert(ahas_key_upto(dseq, k + 1, t));
                        } else {
                            if ahas_key_upto(dseq, k + 1, t) {
                                let j = choose|j: int| 0 <= j < k + 1 && dseq[j].0 == t;
                                assert(j < k);
                                assert(ahas_key_upto(dseq, k as int, t));
                            }
                            if ahas_key_upto(dseq, k as int, t) {
                                assert(ahas_key_upto(dseq, k + 1, t));
                            }
                        }
                    }
                }
                k += 1;
            }
            proof {
                assert forall|t: Seq<char>|
                    #![trigger tf_lookup(self.df_map(), t)]
                    tf_lookup(self.df_map(), t) == doc_count_with(
                        self.documents@.push(document),
                        t,
                    ) by {
                    lemma_amap_contains(dseq, t);
                    assert(ahas_key_upto(dseq, n as int, t) == ahas_key(dseq, t));
                    lemma_doc_count_push(self.documents@, document, t);
                    assert(doc_count_with(old(self).documents@, t) == tf_lookup(
                        old(self).df_map(),
                        t,
                    ));
                }
                assert(df_counts_docs(self.documents@.push(document), self.df_map()));
            }
        }
        proof {
            assert forall|i: int, j: int|
                0 <= i < j < self.documents@.push(document).len() implies self.documents@.push(
                document,
            )[i].id.0@ != self.documents@.push(document)[j].id.0@ by {
                assert(self.documents@.push(document)[i] == self.documents@[i]);
                if j < self.documents@.len() {
                    assert(self.documents@.push(document)[j] == self.documents@[j]);
                } else {
                    assert(self.documents@.push(document)[j] == document);
                }
            }
        }
        self.documents.push(document);
        Ok(())
    }

    /// Remove a document by id.  Fails when no document with the id is
    /// present; on an indexed corpus the document-frequency index is updated
    /// incrementally: one less for each distinct term of the removed
    /// document, entries reaching zero being deleted.
    pub fn remove_document(&mut self, document_id: &DocumentId) -> (r: DomainResult<Document>)
        requires
            old(self).wf(),
            old(self).index_ok(),
        ensures
            final(self).wf(),
            final(self).index_ok(),
            final(self).indexed == old(self).indexed,
            final(self).same_shell(*old(self)),
            match r {
                Ok(d) => {
                    &&& spec_find_doc(old(self).documents@, document_id.0@) == Some(d)
                    &&& exists|i: int|
                        0 <= i < old(self).documents@.len() && old(self).documents@[i].id.0@
                            == document_id.0@ && final(self).documents@ == old(
                            self,
                        ).documents@.remove(i)
                    &&& (!old(self).indexed ==> final(self).document_frequencies@ == old(
                        self,
                    ).document_frequencies@)
                },
                Err(e) => {
                    &&& !old(self).spec_contains_document(document_id.0@)
                    &&& e is NotFound
                    &&& *final(self) == *old(self)
                },
            },
    {
        let i = match find_doc_index(&self.documents, &document_id.0) {
            None => {
                proof {
                    lemma_find_doc_none(self.documents@, document_id.0@);
                }
                let mut msg = "Document with ID '".to_owned();
                msg.append(document_id.0.as_str());
                msg.append("' not found in corpus");
                return Err(DomainError::NotFound(msg));
            },
            Some(i) => i,
        };
        proof {
            lemma_find_doc_at(self.documents@, i as int);
        }
        let ghost docs0 = self.documents@;
        let document = self.documents.remove(i);
        if self.indexed {
            let ghost dseq = document.tf_seq();
            let n = document.term_frequencies.len();
            let mut k: usize = 0;
            #[verifier::loop_isolation(false)]
            while k < n
                invariant
                    n == document.term_frequencies@.len(),
                    k <= n,
                    self.indexed,
                    self.documents@ == docs0.remove(i as int),
                    self.id == old(self).id,
                    self.name == old(self).name,
                    self.description == old(self).description,
                    self.stopwords@ == old(self).stopwords@,
                    self.metadata@ == old(self).metadata@,
                    akeys_unique(self.df_seq()),
                    avals_ge_one(self.df_seq()),
                    forall|t: Seq<char>|
                        #![trigger tf_lookup(self.df_map(), t)]
                        tf_lookup(self.df_map(), t) + (if ahas_key_upto(dseq, k as int, t) {
                            1nat
                        } else {
                            0nat
                        }) == tf_lookup(old(self).df_map(), t),
                decreases n - k,
            {
                let key = document.term_frequencies[k].0.text.clone();
                let ghost pre = *self;
                proof {
                    assert(dseq[k as int].0 == key@);
                    assert forall|j: int| 0 <= j < k implies dseq[j].0 != key@ by {
                        assert(akeys_unique(dseq));
                    }
                    assert(!ahas_key_upto(dseq, k as int, key@));
                    lemma_amap_at(dseq, k as int);
                    assert(document.has_term(key@));
                    lemma_doc_count_member(docs0, i as int, key@);
                    assert(doc_count_with(docs0, key@) == tf_lookup(old(self).df_map(), key@));
                    assert(tf_lookup(pre.df_map(), key@) >= 1);
                }
                count_list_decrement_prune(&mut self.document_frequencies, &key);
                proof {
                    assert forall|t: Seq<char>|
                        tf_lookup(self.df_map(), t) + (if ahas_key_upto(dseq, k + 1, t) {
                            1nat
                        } else {
                            0nat
                        }) == tf_lookup(old(self).df_map(), t) by {
                        assert(tf_lookup(pre.df_map(), t) + (if ahas_key_upto(dseq, k as int, t) {
                            1nat
                        } else {
                            0nat
                        }) == tf_lookup(old(self).df_map(), t));
                        if t == key@ {
                            assert(ahas_key_upto(dseq, k + 1, t));
                            assert(tf_lookup(pre.df_map(), t) >= 1);
                            assert(tf_lookup(self.df_map(), t) + 1 == tf_lookup(pre.df_map(), t));
                        } else {
                            if ahas_key_upto(dseq, k + 1, t) {
                                let j = choose|j: int| 0 <= j < k + 1 && dseq[j].0 == t;
                                assert(j < k);
                                assert(ahas_key_upto(dseq, k as int, t));
                            }
                            if ahas_key_upto(dseq, k as int, t) {
                                assert(ahas_key_upto(dseq, k + 1, t));
                            }
                        }
                    }
                }
                k += 1;
            }
            proof {
                assert forall|t: Seq<char>|
                    #![trigger tf_lookup(self.df_map(), t)]
                    tf_lookup(self.df_map(), t) == doc_count_with(self.documents@, t) by {
                    lemma_amap_contains(dseq, t);
                    assert(ahas_key_upto(dseq, n as int, t) == ahas_key(dseq, t));
                    lemma_doc_count_remove(docs0, i as int, t);
                    assert(doc_count_with(docs0, t) == tf_lookup(old(self).df_map(), t));
                }
                assert(df_counts_docs(self.documents@, self.df_map()));
            }
        }
        Ok(document)
    }

    /// Get all documents in the corpus.
    pub fn documents(&self) -> (r: &Vec<Document>)
        ensures
            r@ == self.documents@,
    {
        &self.documents
    }

    /// Get the ids of all documents in the corpus.
    pub fn document_ids(&self) -> (r: Vec<DocumentId>)
        ensures
            r@.len() == self.documents@.len(),
            forall|i: int| 0 <= i < r@.len() ==> r@[i] == self.documents@[i].id,
    {
        let mut ids: Vec<DocumentId> = Vec::new();
        let n = self.documents.len();
        let mut i: usize = 0;
        #[verifier::loop_isolation(false)]
        while i < n
            invariant
                i <= n,
                ids@.len() == i,
                forall|j: int| 0 <= j < i ==> ids@[j] == self.documents@[j].id,
            decreases n - i,
        {
            ids.push(self.documents[i].id.clone());
            i += 1;
        }
        ids
    }

    /// Add a stopword to the corpus.
    pub fn add_stopword(&mut self, word: &str)
        requires
            old(self).wf(),
        ensures
            final(self).wf(),
            final(self).stop_set() == old(self).stop_set().insert(word@),
            final(self).index_ok() == old(self).index_ok(),
            final(self).indexed == old(self).indexed,
            final(self).documents@ == old(self).documents@,
            final(self).document_frequencies@ == old(self).document_frequencies@,
            final(self).id == old(self).id,
            final(self).name == old(self).name,
            final(self).description == old(self).description,
            final(self).metadata@ == old(self).metadata@,
    {
        str_list_insert(&mut self.stopwords, word.to_owned());
    }

    /// Add multiple stopwords.
    pub fn add_stopwords(&mut self, words: Vec<String>)
        requires
            old(self).wf(),
        ensures
            final(self).wf(),
            final(self).stop_set() == old(self).stop_set() + sset_of(str_views(words@)),
            final(self).index_ok() == old(self).index_ok(),
            final(self).indexed == old(self).indexed,
            final(self).documents@ == old(self).documents@,
            final(self).document_frequencies@ == old(self).document_frequencies@,
            final(self).id == old(self).id,
            final(self).name == old(self).name,
            final(self).description == old(self).description,
            final(self).metadata@ == old(self).metadata@,
    {
        let n = words.len();
        let mut k: usize = 0;
        #[verifier::loop_isolation(false)]
        while k < n
            invariant
                n == words@.len(),
                k <= n,
                self.wf(),
                self.stop_set() == old(self).stop_set() + sset_of(str_views(words@.take(k as int))),
                self.index_ok() == old(self).index_ok(),
                self.indexed == old(self).indexed,
                self.documents@ == old(self).documents@,
                self.document_frequencies@ == old(self).document_frequencies@,
                self.id == old(self).id,
                self.name == old(self).name,
                self.description == old(self).description,
                self.metadata@ == old(self).metadata@,
            decreases n - k,
        {
            let w = words[k].clone();
            proof {
                assert(str_views(words@.take(k + 1)) =~= str_views(words@.take(k as int)).push(
                    words@[k as int]@,
                ));
                lemma_sset_push(str_views(words@.take(k as int)), words@[k as int]@);
                assert(old(self).stop_set() + sset_of(str_views(words@.take(k + 1))) =~= (old(
                    self,
                ).stop_set() + sset_of(str_views(words@.take(k as int)))).insert(
                    words@[k as int]@,
                ));
            }
            self.add_stopword(w.as_str());
            k += 1;
        }
        proof {
            assert(words@.take(n as int) =~= words@);
        }
    }

    /// Remove a stopword from the corpus, reporting whether it was present.
    pub fn remove_stopword(&mut self, word: &str) -> (r: bool)
        requires
            old(self).wf(),
        ensures
            final(self).wf(),
            r == old(self).stop_set().contains(word@),
            final(self).stop_set() == old(self).stop_set().remove(word@),
            final(self).index_ok() == old(self).index_ok(),
            final(self).indexed == old(self).indexed,
            final(self).documents@ == old(self).documents@,
            final(self).document_frequencies@ == old(self).document_frequencies@,
            final(self).id == old(self).id,
            final(self).name == old(self).name,
            final(self).description == old(self).description,
            final(self).metadata@ == old(self).metadata@,
    {
        let w = word.to_owned();
        str_list_remove(&mut self.stopwords, &w)
    }

    /// Check if a word is a stopword in this corpus.
    pub fn is_stopword(&self, word: &str) -> (r: bool)
        ensures
            r == self.stop_set().contains(word@),
    {
        let w = word.to_owned();
        str_list_contains(&self.stopwords, &w)
    }

    /// Get all stopwords.
    pub fn stopwords(&self) -> (r: &Vec<String>)
        ensures
            r@ == self.stopwords@,
    {
        &self.stopwords
    }

    /// The recorded number of documents containing the term; zero for an
    /// absent term, and zero for everything when the corpus has never been
    /// indexed.
    pub fn document_frequency(&self, term: &Term) -> (r: usize)
        requires
            self.wf(),
        ensures
            r == self.spec_document_frequency(term.text@),
    {
        count_list_get(&self.document_frequencies, &term.text)
    }

    /// Build or rebuild the document-frequency index from scratch and mark
    /// the corpus indexed.  Afterwards the recorded frequency of every term
    /// text equals the number of documents containing it.
    pub fn build_index(&mut self)
        requires
            old(self).wf(),
        ensures
            final(self).wf(),
            final(self).indexed,
            final(self).index_ok(),
            final(self).documents@ == old(self).documents@,
            final(self).same_shell(*old(self)),
    {
        self.document_frequencies.clear();
        proof {
            assert(self.df_seq() =~= Seq::<(Seq<char>, nat)>::empty());
            assert(self.documents@.take(0) =~= Seq::<Document>::empty());
            assert forall|t: Seq<char>|
                #![trigger tf_lookup(self.df_map(), t)]
                tf_lookup(self.df_map(), t) == doc_count_with(self.documents@.take(0), t) by {
                assert(!self.df_map().contains_key(t));
            }
        }
        let n = self.documents.len();
        let mut i: usize = 0;
        #[verifier::loop_isolation(false)]
        while i < n
            invariant
                n == self.documents@.len(),
                i <= n,
                self.documents@ == old(self).documents@,
                self.indexed == old(self).indexed,
                self.id == old(self).id,
                self.name == old(self).name,
                self.description == old(self).description,
                self.stopwords@ == old(self).stopwords@,
                self.metadata@ == old(self).metadata@,
                akeys_unique(self.df_seq()),
                avals_ge_one(self.df_seq()),
                forall|t: Seq<char>|
                    #![trigger tf_lookup(self.df_map(), t)]
                    tf_lookup(self.df_map(), t) == doc_count_with(
                        self.documents@.take(i as int),
                        t,
                    ),
            decreases n - i,
        {
            let ghost dseq = self.documents@[i as int].tf_seq();
            let m = self.documents[i].term_frequencies.len();
            let mut k: usize = 0;
            #[verifier::loop_isolation(false)]
            while k < m
                invariant
                    i < n,
                    n == self.documents@.len(),
                    m == self.documents@[i as int].term_frequencies@.len(),
                    k <= m,
                    dseq == self.documents@[i as int].tf_seq(),
                    self.documents@ == old(self).documents@,
                    self.indexed == old(self).indexed,
                    self.id == old(self).id,
                    self.name == old(self).name,
                    self.description == old(self).description,
                    self.stopwords@ == old(self).stopwords@,
                    self.metadata@ == old(self).metadata@,
                    akeys_unique(self.df_seq()),
                    avals_ge_one(self.df_seq()),
                    forall|t: Seq<char>|
                        #![trigger tf_lookup(self.df_map(), t)]
                        tf_lookup(self.df_map(), t) == doc_count_with(
                            self.documents@.take(i as int),
                            t,
                        ) + (if ahas_key_upto(dseq, k as int, t) {
                            1nat
                        } else {
                            0nat
                        }),
                decreases m - k,
            {
                let key = self.documents[i].term_frequencies[k].0.text.clone();
                let ghost pre = *self;
                proof {
                    assert(dseq[k as int].0 == key@);
                    assert(self.documents@[i as int].wf());
                    assert forall|j: int| 0 <= j < k implies dseq[j].0 != key@ by {
                        assert(akeys_unique(dseq));
                    }
                    assert(!ahas_key_upto(dseq, k as int, key@));
                    lemma_doc_count_le_len(self.documents@.take(i as int), key@);
                    assert(tf_lookup(pre.df_map(), key@) <= i);
                    assert(tf_lookup(pre.df_map(), key@) < usize::MAX);
                }
                count_list_increment(&mut self.document_frequencies, &key);
                proof {
                    assert forall|t: Seq<char>|
                        tf_lookup(self.df_map(), t) == doc_count_with(
                            self.documents@.take(i as int),
                            t,
                        ) + (if ahas_key_upto(dseq, k + 1, t) {
                            1nat
                        } else {
                            0nat
                        }) by {
                        assert(tf_lookup(pre.df_map(), t) == doc_count_with(
                            self.documents@.take(i as int),
                            t,
                        ) + (if ahas_key_upto(dseq, k as int, t) {
                            1nat
                        } else {
                            0nat
                        }));
                        if t == key@ {
                            assert(ahas_key_upto(dseq, k + 1, t));
                        } else {
                            if ahas_key_upto(dseq, k + 1, t) {
                                let j = choose|j: int| 0 <= j < k + 1 && dseq[j].0 == t;
                                assert(j < k);
                                assert(ahas_key_upto(dseq, k as int, t));
                            }
                            if ahas_key_upto(dseq, k as int, t) {
                                assert(ahas_key_upto(dseq, k + 1, t));
                            }
                        }
                    }
                }
                k += 1;
            }
            proof {
                assert forall|t: Seq<char>|
                    #![trigger tf_lookup(self.df_map(), t)]
                    tf_lookup(self.df_map(), t) == doc_count_with(
                        self.documents@.take(i + 1),
                        t,
                    ) by {
                    lemma_amap_contains(dseq, t);
                    assert(ahas_key_upto(dseq, m as int, t) == ahas_key(dseq, t));
                    lemma_doc_count_take_step(self.documents@, i as int, t);
                }
            }
            i += 1;
        }
        proof {
            assert(self.documents@.take(n as int) =~= self.documents@);
            assert(df_counts_docs(self.documents@, self.df_map()));
        }
        self.indexed = true;
    }

    /// Check if the corpus is indexed.
    pub fn is_indexed(&self) -> (r: bool)
        ensures
            r == self.indexed,
    {
        self.indexed
    }

    /// Get the corpus metadata entries.
    pub fn metadata(&self) -> (r: &Vec<(String, String)>)
        ensures
            r@ == self.metadata@,
    {
        &self.metadata
    }

    /// Set a metadata field, replacing any previous value under the key.
    pub fn set_metadata(&mut self, key: &str, value: &str)
        requires
            old(self).wf(),
        ensures
            final(self).wf(),
            amap_of(pairs_view(final(self).metadata@)) == amap_of(
                pairs_view(old(self).metadata@),
            ).insert(key@, value@),
            final(self).index_ok() == old(self).index_ok(),
            final(self).indexed == old(self).indexed,
            final(self).documents@ == old(self).documents@,
            final(self).document_frequencies@ == old(self).document_frequencies@,
            final(self).stopwords@ == old(self).stopwords@,
            final(self).id == old(self).id,
            final(self).name == old(self).name,
            final(self).description == old(self).description,
    {
        pair_list_set(&mut self.metadata, key, value);
    }
}

impl Clone for Corpus {
    fn clone(&self) -> (r: Self)
        ensures
            r.id == self.id,
            r.name == self.name,
            r.description == self.description,
            r.documents@.len() == self.documents@.len(),
            forall|i: int|
                0 <= i < self.documents@.len() ==> (#[trigger] r.documents@[i]).id
                    == self.documents@[i].id && r.documents@[i].content
                    == self.documents@[i].content && r.documents@[i].title
                    == self.documents@[i].title && r.documents@[i].term_frequencies@
                    == self.documents@[i].term_frequencies@ && r.documents@[i].term_count
                    == self.documents@[i].term_count && r.documents@[i].metadata@
                    == self.documents@[i].metadata@,
            r.document_frequencies@ == self.document_frequencies@,
            r.stopwords@ == self.stopwords@,
            r.indexed == self.indexed,
            r.metadata@ == self.metadata@,
    {
        let mut docs: Vec<Document> = Vec::new();
        let n = self.documents.len();
        let mut i: usize = 0;
        #[verifier::loop_isolation(false)]
        while i < n
            invariant
                i <= n,
                docs@.len() == i,
                forall|j: int|
                    0 <= j < i ==> (#[trigger] docs@[j]).id == self.documents@[j].id
                        && docs@[j].content == self.documents@[j].content && docs@[j].title
                        == self.documents@[j].title && docs@[j].term_frequencies@
                        == self.documents@[j].term_frequencies@ && docs@[j].term_count
                        == self.documents@[j].term_count && docs@[j].metadata@
                        == self.documents@[j].metadata@,
            decreases n - i,
        {
            docs.push(self.documents[i].clone());
            i += 1;
        }
        let mut freqs: Vec<(String, usize)> = Vec::new();
        let m = self.document_frequencies.len();
        let mut j: usize = 0;
        #[verifier::loop_isolation(false)]
        while j < m
            invariant
                j <= m,
                freqs@ =~= self.document_frequencies@.take(j as int),
            decreases m - j,
        {
            let e = &self.document_frequencies[j];
            freqs.push((e.0.clone(), e.1));
            proof {
                assert(self.document_frequencies@.take(j + 1) =~= self.document_frequencies@.take(
                    j as int,
                ).push(self.document_frequencies@[j as int]));
            }
            j += 1;
        }
        proof {
            assert(self.document_frequencies@.take(m as int) =~= self.document_frequencies@);
        }
        let mut stops: Vec<String> = Vec::new();
        let p = self.stopwords.len();
        let mut k: usize = 0;
        #[verifier::loop_isolation(false)]
        while k < p
            invariant
                k <= p,
                stops@ =~= self.stopwords@.take(k as int),
            decreases p - k,
        {
            stops.push(self.stopwords[k].clone());
            proof {
                assert(self.stopwords@.take(k + 1) =~= self.stopwords@.take(k as int).push(
                    self.stopwords@[k as int],
                ));
            }
            k += 1;
        }
        proof {
            assert(self.stopwords@.take(p as int) =~= self.stopwords@);
        }
        let mut meta: Vec<(String, String)> = Vec::new();
        let q = self.metadata.len();
        let mut w: usize = 0;
        #[verifier::loop_isolation(false)]
        while w < q
            invariant
                w <= q,
                meta@ =~= self.metadata@.take(w as int),
            decreases q - w,
        {
            let e = &self.metadata[w];
            meta.push((e.0.clone(), e.1.clone()));
            proof {
                assert(self.metadata@.take(w + 1) =~= self.metadata@.take(w as int).push(
                    self.metadata@[w as int],
                ));
            }
            w += 1;
        }
        proof {
            assert(self.metadata@.take(q as int) =~= self.metadata@);
        }
        Corpus {
            id: self.id.clone(),
            name: self.name.clone(),
            description: match &self.description {
                Some(d) => Some(d.clone()),
                None => None,
            },
            documents: docs,
            document_frequencies: freqs,
            stopwords: stops,
            indexed: self.indexed,
            metadata: meta,
        }
    }
}

/// After `build_index`, and after any run of incremental updates that keeps
/// a corpus indexed, the recorded document frequency of every term text is
/// exactly the number of documents whose term table contains it.
pub proof fn lemma_indexed_frequency_counts_documents(c: Corpus, t: Seq<char>)
    requires
        c.wf(),
        c.index_ok(),
        c.indexed,
    ensures
        c.spec_document_frequency(t) == doc_count_with(c.documents@, t),
{
    assert(tf_lookup(c.df_map(), t) == doc_count_with(c.documents@, t));
}

/// Two indexed corpora that hold the same documents have identical
/// document-frequency tables: incremental maintenance agrees with a full
/// rebuild over the same final document set.
pub proof fn lemma_incremental_matches_rebuild(a: Corpus, b: Corpus)
    requires
        a.wf(),
        a.index_ok(),
        a.indexed,
        b.wf(),
        b.index_ok(),
        b.indexed,
        a.documents@ == b.documents@,
    ensures
        a.df_map() == b.df_map(),
{
    assert forall|t: Seq<char>| #![trigger a.df_map().dom().contains(t)]
        a.df_map().dom().contains(t) implies b.df_map().dom().contains(t) && b.df_map()[t]
        == a.df_map()[t] by {
        assert(a.df_map().contains_key(t));
        lemma_amap_ge_one(a.df_seq(), t);
        assert(tf_lookup(a.df_map(), t) == doc_count_with(a.documents@, t));
        assert(tf_lookup(b.df_map(), t) == doc_count_with(b.documents@, t));
        assert(tf_lookup(b.df_map(), t) >= 1);
        assert(b.df_map().contains_key(t));
    }
    assert forall|t: Seq<char>| #![trigger b.df_map().dom().contains(t)]
        b.df_map().dom().contains(t) implies a.df_map().dom().contains(t) by {
        assert(b.df_map().contains_key(t));
        lemma_amap_ge_one(b.df_seq(), t);
        assert(tf_lookup(a.df_map(), t) == doc_count_with(a.documents@, t));
        assert(tf_lookup(b.df_map(), t) == doc_count_with(b.documents@, t));
        assert(tf_lookup(a.df_map(), t) >= 1);
        assert(a.df_map().contains_key(t));
    }
    assert(a.df_map() =~= b.df_map());
}

/// Removing a document from an indexed corpus and then re-adding an
/// identical one restores the document-frequency table exactly.
pub proof fn lemma_remove_then_readd_restores_index(before: Corpus, after: Corpus, i: int)
    requires
        before.wf(),
        before.index_ok(),
        before.indexed,
        after.wf(),
        after.index_ok(),
        after.indexed,
        0 <= i < before.documents@.len(),
        after.documents@ == before.documents@.remove(i).push(before.documents@[i]),
    ensures
        after.df_map() == before.df_map(),
{
    assert forall|t: Seq<char>|
        doc_count_with(after.documents@, t) == doc_count_with(before.documents@, t) by {
        lemma_doc_count_push(before.documents@.remove(i), before.documents@[i], t);
        lemma_doc_count_remove(before.documents@, i, t);
    }
    assert forall|t: Seq<char>| #![trigger after.df_map().dom().contains(t)]
        after.df_map().dom().contains(t) implies before.df_map().dom().contains(t)
        && before.df_map()[t] == after.df_map()[t] by {
        assert(after.df_map().contains_key(t));
        lemma_amap_ge_one(after.df_seq(), t);
        assert(tf_lookup(after.df_map(), t) == doc_count_with(after.documents@, t));
        assert(tf_lookup(before.df_map(), t) == doc_count_with(before.documents@, t));
        assert(tf_lookup(before.df_map(), t) >= 1);
        assert(before.df_map().contains_key(t));
    }
    assert forall|t: Seq<char>| #![trigger before.df_map().dom().contains(t)]
        before.df_map().dom().contains(t) implies after.df_map().dom().contains(t) by {
        assert(before.df_map().contains_key(t));
        lemma_amap_ge_one(before.df_seq(), t);
        assert(tf_lookup(after.df_map(), t) == doc_count_with(after.documents@, t));
        assert(tf_lookup(before.df_map(), t) == doc_count_with(before.documents@, t));
        assert(tf_lookup(after.df_map(), t) >= 1);
        assert(after.df_map().contains_key(t));
    }
    assert(after.df_map() =~= before.df_map());
}

/// Find the index of the first document with the given id.
fn find_doc_index(v: &Vec<Document>, id: &String) -> (r: Option<usize>)
    ensures
        match r {
            Some(i) => i < v@.len() && v@[i as int].id.0@ == id@ && (forall|j: int|
                0 <= j < i ==> v@[j].id.0@ != id@),
            None => forall|j: int| 0 <= j < v@.len() ==> v@[j].id.0@ != id@,
        },
{
    let n = v.len();
    let mut i: usize = 0;
    #[verifier::loop_isolation(false)]
    while i < n
        invariant
            n == v@.len(),
            i <= n,
            forall|j: int| 0 <= j < i ==> v@[j].id.0@ != id@,
        decreases n - i,
    {
        if v[i].id.0 == *id {
            return Some(i);
        }
        i += 1;
    }
    None
}

} // verus!
