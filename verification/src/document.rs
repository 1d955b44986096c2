//! Documents: each one owns its term-frequency table and a cached total term
//! count.
//!
//! The table maps a term (by its surface text) to a positive occurrence
//! count, and the invariant [`Document::wf`] keeps the cached total equal to
//! the sum of all counts.

use vstd::prelude::*;

verus! {

use crate::assoc::akeys_unique;
use crate::assoc::amap_of;
use crate::assoc::asum;
use crate::assoc::avals_ge_one;
use crate::assoc::lemma_akeys_unique_push;
use crate::assoc::lemma_amap_at;
use crate::assoc::lemma_amap_contains;
use crate::assoc::lemma_amap_push;
use crate::assoc::lemma_amap_update;
use crate::assoc::lemma_asum_entry_le;
use crate::assoc::lemma_asum_push;
use crate::assoc::lemma_asum_update;
use crate::assoc::pair_list_set;
use crate::assoc::pairs_view;
use crate::term::Term;
use crate::term::TermFrequency;
use vstd::pervasive::VecAdditionalExecFns;

/// Unique identifier for a document.
#[derive(Debug)]
pub struct DocumentId(pub String);

impl DocumentId {
    /// Create a new document ID.
    pub fn new(id: &str) -> (r: Self)
        ensures
            r.0@ == id@,
    {
        DocumentId(id.to_owned())
    }

    /// Get the string representation of the ID.
    pub fn value(&self) -> (r: &str)
        ensures
            r@ == self.0@,
    {
        self.0.as_str()
    }
}

impl Clone for DocumentId {
    fn clone(&self) -> (r: Self)
        ensures
            r == *self,
    {
        DocumentId(self.0.clone())
    }
}

/// The keyed view of a term-frequency table: each entry as its term's text
/// and its occurrence count.
pub open spec fn tf_entries_view(s: Seq<(Term, TermFrequency)>) -> Seq<(Seq<char>, nat)> {
    s.map_values(|e: (Term, TermFrequency)| (e.0.text@, e.1.0 as nat))
}

/// The occurrence count a term-frequency map assigns to a text, zero when
/// absent.
pub open spec fn tf_lookup(m: Map<Seq<char>, nat>, t: Seq<char>) -> nat {
    if m.contains_key(t) {
        m[t]
    } else {
        0
    }
}

/// One more occurrence of the text `t`.
pub open spec fn tf_plus(m: Map<Seq<char>, nat>, t: Seq<char>) -> Map<Seq<char>, nat> {
    m.insert(t, tf_lookup(m, t) + 1)
}

/// One more occurrence of each term in `ts`, in order.
pub open spec fn tf_plus_all(m: Map<Seq<char>, nat>, ts: Seq<Term>) -> Map<Seq<char>, nat>
    decreases ts.len(),
{
    if ts.len() == 0 {
        m
    } else {
        tf_plus_all(tf_plus(m, ts[0].text@), ts.drop_first())
    }
}

/// Adding terms one at a time, last term last, is adding the last term to
/// the result of adding the others.
pub proof fn lemma_tf_plus_all_push(m: Map<Seq<char>, nat>, ts: Seq<Term>, t: Term)
    ensures
        tf_plus_all(m, ts.push(t)) == tf_plus(tf_plus_all(m, ts), t.text@),
    decreases ts.len(),
{
    let p = ts.push(t);
    assert(tf_plus_all(m, p) == tf_plus_all(tf_plus(m, p[0].text@), p.drop_first()));
    if ts.len() == 0 {
        assert(p[0] == t);
        assert(p.drop_first() =~= Seq::<Term>::empty());
        assert(tf_plus_all(tf_plus(m, t.text@), p.drop_first()) == tf_plus(m, t.text@));
        assert(tf_plus_all(m, ts) == m);
    } else {
        assert(p[0] == ts[0]);
        assert(p.drop_first() =~= ts.drop_first().push(t));
        lemma_tf_plus_all_push(tf_plus(m, ts[0].text@), ts.drop_first(), t);
        assert(tf_plus_all(m, ts) == tf_plus_all(tf_plus(m, ts[0].text@), ts.drop_first()));
    }
}

/// A text document with its term statistics.
#[derive(Debug)]
pub struct Document {
    /// Caller-assigned identity of the document.
    pub id: DocumentId,
    /// The immutable source text.
    pub content: String,
    /// Optional title.
    pub title: Option<String>,
    /// Term-frequency table: one entry per distinct term text, with a
    /// positive occurrence count.
    pub term_frequencies: Vec<(Term, TermFrequency)>,
    /// Total number of term occurrences: the sum of all counts in the table.
    pub term_count: usize,
    /// Free-form metadata.
    pub metadata: Vec<(String, String)>,
}

impl Document {
    /// The keyed view of this document's term-frequency entries.
    pub open spec fn tf_seq(self) -> Seq<(Seq<char>, nat)> {
        tf_entries_view(self.term_frequencies@)
    }

    /// The term-frequency table as a map from term text to count.
    pub open spec fn tf(self) -> Map<Seq<char>, nat> {
        amap_of(self.tf_seq())
    }

    /// The count of a text in this document, zero when absent.
    pub open spec fn spec_term_frequency(self, t: Seq<char>) -> nat {
        tf_lookup(self.tf(), t)
    }

    /// Whether the document contains the text at all.
    pub open spec fn has_term(self, t: Seq<char>) -> bool {
        self.tf().contains_key(t)
    }

    /// Well-formedness: distinct term texts, positive counts, and a total
    /// equal to the sum of the counts.
    pub open spec fn wf(self) -> bool {
        &&& akeys_unique(self.tf_seq())
        &&& avals_ge_one(self.tf_seq())
        &&& self.term_count == asum(self.tf_seq())
        &&& akeys_unique(pairs_view(self.metadata@))
    }

    /// Create a document with the given ID and content and no terms.
    pub fn new(id: &str, content: &str) -> (r: Self)
        ensures
            r.wf(),
            r.id.0@ == id@,
            r.content@ == content@,
            r.title is None,
            r.tf() == Map::<Seq<char>, nat>::empty(),
            r.term_count == 0,
            r.metadata@.len() == 0,
    {
        let r = Document {
            id: DocumentId(id.to_owned()),
            content: content.to_owned(),
            title: None,
            term_frequencies: Vec::new(),
            term_count: 0,
            metadata: Vec::new(),
        };
        proof {
            assert(r.tf_seq() =~= Seq::<(Seq<char>, nat)>::empty());
        }
        r
    }

    /// Create a document with a title.
    pub fn with_title(id: &str, title: &str, content: &str) -> (r: Self)
        ensures
            r.wf(),
            r.id.0@ == id@,
            r.content@ == content@,
            r.title is Some,
            r.title.unwrap()@ == title@,
            r.tf() == Map::<Seq<char>, nat>::empty(),
            r.term_count == 0,
            r.metadata@.len() == 0,
    {
        let mut document = Self::new(id, content);
        document.title = Some(title.to_owned());
        document
    }

    /// Get the document ID.
    pub fn id(&self) -> (r: &DocumentId)
        ensures
            *r == self.id,
    {
        &self.id
    }

    /// Get the document content.
    pub fn content(&self) -> (r: &str)
        ensures
            r@ == self.content@,
    {
        self.content.as_str()
    }

    /// Get the document title, if available.
    pub fn title(&self) -> (r: Option<&str>)
        ensures
            match r {
                Some(t) => self.title is Some && t@ == self.title.unwrap()@,
                None => self.title is None,
            },
    {
        match &self.title {
            Some(t) => Some(t.as_str()),
            None => None,
        }
    }

    /// Set the document title.
    pub fn set_title(&mut self, title: &str)
        ensures
            final(self).title is Some,
            final(self).title.unwrap()@ == title@,
            final(self).id == old(self).id,
            final(self).content == old(self).content,
            final(self).term_frequencies == old(self).term_frequencies,
            final(self).term_count == old(self).term_count,
            final(self).metadata == old(self).metadata,
    {
        self.title = Some(title.to_owned());
    }

    /// Get the term-frequency entries of this document.
    pub fn term_frequencies(&self) -> (r: &Vec<(Term, TermFrequency)>)
        ensures
            r@ == self.term_frequencies@,
    {
        &self.term_frequencies
    }

    /// Record one more occurrence of `term`.  When the term is already in
    /// the table its first-inserted attributes are kept and only its count
    /// grows; both the count and the total grow by exactly one.
    pub fn add_term(&mut self, term: Term)
        requires
            old(self).wf(),
            old(self).term_count < usize::MAX,
        ensures
            final(self).wf(),
            final(self).tf() == tf_plus(old(self).tf(), term.text@),
            final(self).term_count == old(self).term_count + 1,
            final(self).id == old(self).id,
            final(self).content == old(self).content,
            final(self).title == old(self).title,
            final(self).metadata == old(self).metadata,
    {
        let ghost s0 = self.tf_seq();
        match find_entry(&self.term_frequencies, &term.text) {
            Some(i) => {
                proof {
                    lemma_amap_at(s0, i as int);
                    lemma_asum_entry_le(s0, i as int);
                }
                let t = self.term_frequencies[i].0.clone();
                let c = self.term_frequencies[i].1.0;
                proof {
                    lemma_amap_update(s0, i as int, (c + 1) as nat);
                    lemma_asum_update(s0, i as int, (c + 1) as nat);
                    assert(tf_entries_view(
                        self.term_frequencies@.update(i as int, (t, TermFrequency((c + 1) as usize))),
                    ) =~= s0.update(i as int, (s0[i as int].0, (c + 1) as nat)));
                }
                self.term_frequencies.set(i, (t, TermFrequency(c + 1)));
                self.term_count += 1;
                assert(self.tf() =~= tf_plus(old(self).tf(), term.text@));
            },
            None => {
                proof {
                    lemma_amap_contains(s0, term.text@);
                    lemma_amap_push(s0, (term.text@, 1nat));
                    lemma_akeys_unique_push(s0, (term.text@, 1nat));
                    lemma_asum_push(s0, (term.text@, 1nat));
                    assert(tf_entries_view(self.term_frequencies@.push((term, TermFrequency(1usize))))
                        =~= s0.push((term.text@, 1nat)));
                }
                self.term_frequencies.push((term, TermFrequency(1)));
                self.term_count += 1;
                assert(self.tf() =~= tf_plus(old(self).tf(), term.text@));
            },
        }
    }

    /// Record one more occurrence of every term in `terms`, in order.
    pub fn add_terms(&mut self, terms: Vec<Term>)
        requires
            old(self).wf(),
            old(self).term_count + terms@.len() <= usize::MAX,
        ensures
            final(self).wf(),
            final(self).tf() == tf_plus_all(old(self).tf(), terms@),
            final(self).term_count == old(self).term_count + terms@.len(),
            final(self).id == old(self).id,
            final(self).content == old(self).content,
            final(self).title == old(self).title,
            final(self).metadata == old(self).metadata,
    {
        let n = terms.len();
        let mut k: usize = 0;
        #[verifier::loop_isolation(false)]
        while k < n
            invariant
                n == terms@.len(),
                k <= n,
                self.wf(),
                self.term_count == old(self).term_count + k,
                self.tf() == tf_plus_all(old(self).tf(), terms@.take(k as int)),
                self.id == old(self).id,
                self.content == old(self).content,
                self.title == old(self).title,
                self.metadata == old(self).metadata,
            decreases n - k,
        {
            let t = terms[k].clone();
            proof {
                assert(terms@.take(k + 1) =~= terms@.take(k as int).push(terms@[k as int]));
                lemma_tf_plus_all_push(old(self).tf(), terms@.take(k as int), terms@[k as int]);
            }
            self.add_term(t);
            k += 1;
        }
        proof {
            assert(terms@.take(n as int) =~= terms@);
        }
    }

    /// The occurrence count of `term` in this document; zero when the term
    /// does not occur.
    pub fn term_frequency(&self, term: &Term) -> (r: TermFrequency)
        requires
            self.wf(),
        ensures
            r.0 == self.spec_term_frequency(term.text@),
    {
        proof {
            lemma_amap_contains(self.tf_seq(), term.text@);
        }
        match find_entry(&self.term_frequencies, &term.text) {
            Some(i) => {
                proof {
                    lemma_amap_at(self.tf_seq(), i as int);
                }
                self.term_frequencies[i].1
            },
            None => TermFrequency(0),
        }
    }

    /// Get the total number of term occurrences in the document.
    pub fn term_count(&self) -> (r: usize)
        ensures
            r == self.term_count,
    {
        self.term_count
    }

    /// Get the document metadata entries.
    pub fn metadata(&self) -> (r: &Vec<(String, String)>)
        ensures
            r@ == self.metadata@,
    {
        &self.metadata
    }

    /// Set a metadata field, replacing any previous value under the key.
    pub fn set_metadata(&mut self, key: &str, value: &str)
        requires
            old(self).wf(),
        ensures
            final(self).wf(),
            amap_of(pairs_view(final(self).metadata@)) == amap_of(
                pairs_view(old(self).metadata@),
            ).insert(key@, value@),
            final(self).id == old(self).id,
            final(self).content == old(self).content,
            final(self).title == old(self).title,
            final(self).term_frequencies == old(self).term_frequencies,
            final(self).term_count == old(self).term_count,
    {
        pair_list_set(&mut self.metadata, key, value);
    }

    /// Clear all term statistics, as before re-tokenizing the content.
    pub fn clear_terms(&mut self)
        ensures
            old(self).wf() ==> final(self).wf(),
            final(self).tf() == Map::<Seq<char>, nat>::empty(),
            final(self).term_count == 0,
            final(self).term_frequencies@.len() == 0,
            final(self).id == old(self).id,
            final(self).content == old(self).content,
            final(self).title == old(self).title,
            final(self).metadata == old(self).metadata,
    {
        self.term_frequencies.clear();
        self.term_count = 0;
        proof {
            assert(self.tf_seq() =~= Seq::<(Seq<char>, nat)>::empty());
        }
    }
}

impl Clone for Document {
    fn clone(&self) -> (r: Self)
        ensures
            r.id == self.id,
            r.content == self.content,
            r.title == self.title,
            r.term_frequencies@ == self.term_frequencies@,
            r.term_count == self.term_count,
            r.metadata@ == self.metadata@,
    {
        let mut tfs: Vec<(Term, TermFrequency)> = Vec::new();
        let n = self.term_frequencies.len();
        let mut i: usize = 0;
        #[verifier::loop_isolation(false)]
        while i < n
            invariant
                i <= n,
                tfs@ =~= self.term_frequencies@.take(i as int),
            decreases n - i,
        {
            let e = &self.term_frequencies[i];
            tfs.push((e.0.clone(), e.1));
            proof {
                assert(self.term_frequencies@.take(i + 1) =~= self.term_frequencies@.take(
                    i as int,
                ).push(self.term_frequencies@[i as int]));
            }
            i += 1;
        }
        proof {
            assert(self.term_frequencies@.take(n as int) =~= self.term_frequencies@);
        }
        let mut meta: Vec<(String, String)> = Vec::new();
        let m = self.metadata.len();
        let mut j: usize = 0;
        #[verifier::loop_isolation(false)]
        while j < m
            invariant
                j <= m,
                meta@ =~= self.metadata@.take(j as int),
            decreases m - j,
        {
            let e = &self.metadata[j];
            meta.push((e.0.clone(), e.1.clone()));
            proof {
                assert(self.metadata@.take(j + 1) =~= self.metadata@.take(j as int).push(
                    self.metadata@[j as int],
                ));
            }
            j += 1;
        }
        proof {
            assert(self.metadata@.take(m as int) =~= self.metadata@);
        }
        Document {
            id: self.id.clone(),
            content: self.content.clone(),
            title: match &self.title {
                Some(t) => Some(t.clone()),
                None => None,
            },
            term_frequencies: tfs,
            term_count: self.term_count,
            metadata: meta,
        }
    }
}

/// Find the entry whose term text equals `text`, scanning from the front.
fn find_entry(v: &Vec<(Term, TermFrequency)>, text: &String) -> (r: Option<usize>)
    ensures
        match r {
            Some(i) => i < v@.len() && tf_entries_view(v@)[i as int].0 == text@,
            None => forall|j: int| 0 <= j < v@.len() ==> tf_entries_view(v@)[j].0 != text@,
        },
{
    let n = v.len();
    let mut i: usize = 0;
    #[verifier::loop_isolation(false)]
    while i < n
        invariant
            n == v@.len(),
            i <= n,
            forall|j: int| 0 <= j < i ==> tf_entries_view(v@)[j].0 != text@,
        decreases n - i,
    {
        if v[i].0.text == *text {
            assert(tf_entries_view(v@)[i as int].0 == text@);
            return Some(i);
        }
        i += 1;
    }
    None
}

} // verus!
