//! Tokenization: turning raw text into lowercase tokens, with a mutable
//! stopword set.
//!
//! A token is a maximal run of alphanumeric characters of the lowercased
//! text; everything else separates tokens.  The splitting itself is verified
//! against [`tokens_of`]; what only the standard library can compute — case
//! folding and the alphanumeric character classes — stands behind named,
//! trusted wrappers.

use vstd::prelude::*;

verus! {

use crate::assoc::selems_unique;
use crate::assoc::sset_of;
use crate::assoc::str_list_contains;
use crate::assoc::str_list_insert;
use crate::assoc::str_list_remove;
use crate::assoc::str_views;

/// What `str::to_lowercase` returns for a given character sequence.
pub uninterp spec fn lower_of(s: Seq<char>) -> Seq<char>;

/// Whether `char::is_alphanumeric` holds of a character.
pub uninterp spec fn is_token_char(c: char) -> bool;

/// Relies on str::to_lowercase: the result depends on the characters alone,
/// and an empty string stays empty.
#[verifier::external_body]
fn lowercase(s: &str) -> (r: String)
    ensures
        r@ == lower_of(s@),
        s@.len() == 0 ==> r@.len() == 0,
{
    s.to_lowercase()
}

/// Relies on char::is_alphanumeric: the verdict depends on the character
/// alone.
#[verifier::external_body]
fn token_char(c: char) -> (r: bool)
    ensures
        r == is_token_char(c),
{
    c.is_alphanumeric()
}

/// Relies on str::chars: it yields exactly the string's characters in order.
#[verifier::external_body]
fn chars_vec(s: &str) -> (r: Vec<char>)
    ensures
        r@ == s@,
{
    s.chars().collect()
}

/// Relies on String's FromIterator: collecting characters builds the string
/// of exactly those characters in order.
#[verifier::external_body]
fn string_from_chars(v: &Vec<char>) -> (r: String)
    ensures
        r@ == v@,
{
    v.iter().collect()
}

/// The state of a left-to-right split of `s`, with `cur` the token collected
/// so far: tokens already complete come first, then what the rest of `s`
/// yields.
pub open spec fn split_state(s: Seq<char>, cur: Seq<char>) -> Seq<Seq<char>>
    decreases s.len(),
{
    if s.len() == 0 {
        if cur.len() == 0 {
            seq![]
        } else {
            seq![cur]
        }
    } else if is_token_char(s[0]) {
        split_state(s.drop_first(), cur.push(s[0]))
    } else if cur.len() == 0 {
        split_state(s.drop_first(), cur)
    } else {
        seq![cur] + split_state(s.drop_first(), seq![])
    }
}

/// The maximal runs of token characters in `s`, in order.
pub open spec fn tokens_of(s: Seq<char>) -> Seq<Seq<char>> {
    split_state(s, seq![])
}

/// A tokenizer: from raw text to normalized token strings, with a queryable
/// and mutable stopword set.
pub trait Tokenizer {
    /// Split text into normalized tokens.
    fn tokenize(&self, text: &str) -> Vec<String>;

    /// Whether the word, normalized, is a stopword.
    fn is_stopword(&self, word: &str) -> bool;

    /// All stopwords.
    fn stopwords(&self) -> Vec<String>;

    /// Add a stopword.
    fn add_stopword(&mut self, word: &str);

    /// Remove a stopword, reporting whether it was present.
    fn remove_stopword(&mut self, word: &str) -> bool;
}

/// A whitespace-and-punctuation tokenizer: tokens are maximal alphanumeric
/// runs of the lowercased text.  Stopwords are kept lowercased.
pub struct SimpleTokenizer {
    /// The stopword list, with pairwise distinct words.
    pub stopwords: Vec<String>,
}

impl SimpleTokenizer {
    /// The stopword set.
    pub open spec fn stop_set(self) -> Set<Seq<char>> {
        sset_of(str_views(self.stopwords@))
    }

    /// Well-formedness: the stopword list holds no word twice.
    pub open spec fn wf(self) -> bool {
        selems_unique(str_views(self.stopwords@))
    }

    /// Create a tokenizer with the default English stopword list.
    pub fn new() -> (r: Self)
        ensures
            r.wf(),
    {
        let words: Vec<&str> = vec![
            "a", "about", "above", "after", "again", "against", "all", "am", "an", "and", "any",
            "are", "aren't", "as", "at", "be", "because", "been", "before", "being", "below",
            "between", "both", "but", "by", "can", "cannot", "can't", "could", "couldn't", "did",
            "didn't", "do", "does", "doesn't", "doing", "don't", "down", "during", "each", "few",
            "for", "from", "further", "had", "hadn't", "has", "hasn't", "have", "haven't",
            "having", "he", "he'd", "he'll", "he's", "her", "here", "here's", "hers", "herself",
            "him", "himself", "his", "how", "how's", "i", "i'd", "i'll", "i'm", "i've", "if",
            "in", "into", "is", "isn't", "it", "it's", "its", "itself", "let's", "me", "more",
            "most", "mustn't", "my", "myself", "no", "nor", "not", "of", "off", "on", "once",
            "only", "or", "other", "ought", "our", "ours", "ourselves", "out", "over", "own",
            "same", "shan't", "she", "she'd", "she'll", "she's", "should", "shouldn't", "so",
            "some", "such", "than", "that", "that's", "the", "their", "theirs", "them",
            "themselves", "then", "there", "there's", "these", "they", "they'd", "they'll",
            "they're", "they've", "this", "those", "through", "to", "too", "under", "until",
            "up", "very", "was", "wasn't", "we", "we'd", "we'll", "we're", "we've", "were",
            "weren't", "what", "what's", "when", "when's", "where", "where's", "which", "while",
            "who", "who's", "whom", "why", "why's", "with", "won't", "would", "wouldn't", "you",
            "you'd", "you'll", "you're", "you've", "your", "yours", "yourself", "yourselves",
        ];
        let mut stopwords: Vec<String> = Vec::new();
        let n = words.len();
        let mut i: usize = 0;
        #[verifier::loop_isolation(false)]
        while i < n
            invariant
                i <= n,
                selems_unique(str_views(stopwords@)),
            decreases n - i,
        {
            let w: &str = words[i];
            str_list_insert(&mut stopwords, w.to_owned());
            i += 1;
        }
        SimpleTokenizer { stopwords }
    }

    /// Create a tokenizer with exactly the given stopwords, lowercased.
    pub fn with_stopwords(words: Vec<&str>) -> (r: Self)
        ensures
            r.wf(),
            r.stop_set() == sset_of(words@.map_values(|w: &str| lower_of(w@))),
    {
        let mut stopwords: Vec<String> = Vec::new();
        let n = words.len();
        let mut i: usize = 0;
        #[verifier::loop_isolation(false)]
        while i < n
            invariant
                n == words@.len(),
                i <= n,
                selems_unique(str_views(stopwords@)),
                sset_of(str_views(stopwords@)) == sset_of(
                    words@.take(i as int).map_values(|w: &str| lower_of(w@)),
                ),
            decreases n - i,
        {
            let w = lowercase(words[i]);
            proof {
                let mapped = words@.take(i as int).map_values(|w: &str| lower_of(w@));
                assert(words@.take(i + 1).map_values(|w: &str| lower_of(w@)) =~= mapped.push(
                    lower_of(words@[i as int]@),
                ));
                crate::assoc::lemma_sset_push(mapped, lower_of(words@[i as int]@));
            }
            str_list_insert(&mut stopwords, w);
            i += 1;
        }
        proof {
            assert(words@.take(n as int) =~= words@);
        }
        SimpleTokenizer { stopwords }
    }
}

impl Tokenizer for SimpleTokenizer {
    /// Split the text into the maximal alphanumeric runs of its lowercased
    /// form, in order.
    fn tokenize(&self, text: &str) -> (r: Vec<String>)
        ensures
            str_views(r@) == tokens_of(lower_of(text@)),
    {
        let low = lowercase(text);
        let cs = chars_vec(low.as_str());
        let mut tokens: Vec<String> = Vec::new();
        let mut cur: Vec<char> = Vec::new();
        let n = cs.len();
        let mut i: usize = 0;
        proof {
            assert(cs@.skip(0) =~= cs@);
            assert(cur@ =~= seq![]);
            assert(str_views(tokens@) + split_state(cs@, cur@) =~= split_state(cs@, seq![]));
        }
        #[verifier::loop_isolation(false)]
        while i < n
            invariant
                n == cs@.len(),
                cs@ == lower_of(text@),
                i <= n,
                tokens_of(lower_of(text@)) == str_views(tokens@) + split_state(
                    cs@.skip(i as int),
                    cur@,
                ),
            decreases n - i,
        {
            let ghost toks0 = tokens@;
            let ghost cur0 = cur@;
            let c = cs[i];
            proof {
                assert(cs@.skip(i as int)[0] == cs@[i as int]);
                assert(cs@.skip(i as int).drop_first() =~= cs@.skip(i + 1));
            }
            if token_char(c) {
                cur.push(c);
                proof {
                    assert(split_state(cs@.skip(i as int), cur0) == split_state(
                        cs@.skip(i + 1),
                        cur@,
                    ));
                }
            } else {
                if cur.len() > 0 {
                    let t = string_from_chars(&cur);
                    tokens.push(t);
                    cur = Vec::new();
                    proof {
                        assert(str_views(tokens@) =~= str_views(toks0).push(cur0));
                        assert(split_state(cs@.skip(i as int), cur0) == seq![cur0] + split_state(
                            cs@.skip(i + 1),
                            cur@,
                        ));
                        assert(str_views(toks0) + (seq![cur0] + split_state(
                            cs@.skip(i + 1),
                            cur@,
                        )) =~= str_views(tokens@) + split_state(cs@.skip(i + 1), cur@));
                    }
                } else {
                    proof {
                        assert(split_state(cs@.skip(i as int), cur0) == split_state(
                            cs@.skip(i + 1),
                            cur@,
                        ));
                    }
                }
            }
            i += 1;
        }
        proof {
            assert(cs@.skip(n as int) =~= Seq::<char>::empty());
        }
        if cur.len() > 0 {
            let ghost toks0 = tokens@;
            let t = string_from_chars(&cur);
            tokens.push(t);
            proof {
                assert(split_state(Seq::<char>::empty(), cur@) =~= seq![cur@]);
                assert(str_views(tokens@) =~= str_views(toks0).push(cur@));
                assert(str_views(toks0) + seq![cur@] =~= str_views(tokens@));
            }
        } else {
            proof {
                assert(split_state(Seq::<char>::empty(), cur@) =~= Seq::<Seq<char>>::empty());
                assert(str_views(tokens@) + Seq::<Seq<char>>::empty() =~= str_views(tokens@));
            }
        }
        tokens
    }

    /// Whether the lowercased word is in the stopword set.
    fn is_stopword(&self, word: &str) -> (r: bool)
        ensures
            r == self.stop_set().contains(lower_of(word@)),
    {
        let w = lowercase(word);
        str_list_contains(&self.stopwords, &w)
    }

    /// All stopwords, in their stored order.
    fn stopwords(&self) -> (r: Vec<String>)
        ensures
            r@ == self.stopwords@,
    {
        let mut out: Vec<String> = Vec::new();
        let n = self.stopwords.len();
        let mut i: usize = 0;
        #[verifier::loop_isolation(false)]
        while i < n
            invariant
                i <= n,
                out@ =~= self.stopwords@.take(i as int),
            decreases n - i,
        {
            out.push(self.stopwords[i].clone());
            proof {
                assert(self.stopwords@.take(i + 1) =~= self.stopwords@.take(i as int).push(
                    self.stopwords@[i as int],
                ));
            }
            i += 1;
        }
        proof {
            assert(self.stopwords@.take(n as int) =~= self.stopwords@);
        }
        out
    }

    /// Add the lowercased word to the stopword set.
    fn add_stopword(&mut self, word: &str)
        ensures
            final(self).stop_set() == old(self).stop_set().insert(lower_of(word@)),
            old(self).wf() ==> final(self).wf(),
    {
        let w = lowercase(word);
        str_list_insert(&mut self.stopwords, w);
    }

    /// Remove the lowercased word from the stopword set, reporting whether
    /// it was present.
    fn remove_stopword(&mut self, word: &str) -> (r: bool)
        ensures
            r == old(self).stop_set().contains(lower_of(word@)),
            old(self).wf() ==> final(self).stop_set() == old(self).stop_set().remove(
                lower_of(word@),
            ),
            old(self).wf() ==> final(self).wf(),
    {
        let w = lowercase(word);
        str_list_remove(&mut self.stopwords, &w)
    }
}

} // verus!
