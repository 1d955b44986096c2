//! Association lists viewed as maps and sets.
//!
//! The library keeps its term-frequency tables, its document-frequency index,
//! its stopword sets and its metadata as vectors of entries with pairwise
//! distinct keys.  The spec functions here give such a vector its mathematical
//! map or set meaning, the lemmas say how that meaning changes under the
//! operations the executable code performs, and the executable helpers carry
//! out the common lookups and updates on string-keyed lists.

use vstd::prelude::*;

verus! {

/// The map meaning of an entry sequence.  A later entry would win, though
/// with pairwise distinct keys the order never matters.
pub open spec fn amap_of<V>(s: Seq<(Seq<char>, V)>) -> Map<Seq<char>, V>
    decreases s.len(),
{
    if s.len() == 0 {
        Map::empty()
    } else {
        amap_of(s.drop_last()).insert(s.last().0, s.last().1)
    }
}

/// Entry keys are pairwise distinct.
pub open spec fn akeys_unique<V>(s: Seq<(Seq<char>, V)>) -> bool {
    forall|i: int, j: int| 0 <= i < j < s.len() ==> s[i].0 != s[j].0
}

/// Some entry among the first `n` holds the key `k`.
pub open spec fn ahas_key_upto<V>(s: Seq<(Seq<char>, V)>, n: int, k: Seq<char>) -> bool {
    exists|i: int| 0 <= i < n && s[i].0 == k
}

/// Some entry holds the key `k`.
pub open spec fn ahas_key<V>(s: Seq<(Seq<char>, V)>, k: Seq<char>) -> bool {
    ahas_key_upto(s, s.len() as int, k)
}

/// Every entry value is at least one, so that an absent key and a zero count
/// are the same thing.
pub open spec fn avals_ge_one(s: Seq<(Seq<char>, nat)>) -> bool {
    forall|i: int| 0 <= i < s.len() ==> s[i].1 >= 1
}

/// The sum of all entry values.
pub open spec fn asum(s: Seq<(Seq<char>, nat)>) -> nat
    decreases s.len(),
{
    if s.len() == 0 {
        0
    } else {
        asum(s.drop_last()) + s.last().1
    }
}

/// A key is in the map exactly when some entry holds it.
pub proof fn lemma_amap_contains<V>(s: Seq<(Seq<char>, V)>, k: Seq<char>)
    ensures
        amap_of(s).contains_key(k) <==> ahas_key(s, k),
    decreases s.len(),
{
    if s.len() > 0 {
        let s0 = s.drop_last();
        lemma_amap_contains(s0, k);
        if amap_of(s).contains_key(k) {
            if s.last().0 == k {
                assert(s[s.len() - 1].0 == k);
            } else {
                let i = choose|i: int| 0 <= i < s0.len() && s0[i].0 == k;
                assert(s[i].0 == k);
            }
        }
        if ahas_key(s, k) {
            let i = choose|i: int| 0 <= i < s.len() && s[i].0 == k;
            if i < s.len() - 1 {
                assert(s0[i].0 == k);
                assert(ahas_key(s0, k));
            }
        }
    }
}

/// With distinct keys, the map sends each entry's key to that entry's value.
pub proof fn lemma_amap_at<V>(s: Seq<(Seq<char>, V)>, i: int)
    requires
        akeys_unique(s),
        0 <= i < s.len(),
    ensures
        amap_of(s).contains_key(s[i].0),
        amap_of(s)[s[i].0] == s[i].1,
    decreases s.len(),
{
    let s0 = s.drop_last();
    assert(akeys_unique(s0));
    if i < s.len() - 1 {
        lemma_amap_at(s0, i);
        assert(s[s.len() - 1].0 != s[i].0);
    }
}

/// With distinct keys and every value at least one, the map's values are all
/// at least one.
pub proof fn lemma_amap_ge_one(s: Seq<(Seq<char>, nat)>, k: Seq<char>)
    requires
        akeys_unique(s),
        avals_ge_one(s),
        amap_of(s).contains_key(k),
    ensures
        amap_of(s)[k] >= 1,
{
    lemma_amap_contains(s, k);
    let i = choose|i: int| 0 <= i < s.len() && s[i].0 == k;
    lemma_amap_at(s, i);
}

/// Appending a fresh entry inserts its binding.
pub proof fn lemma_amap_push<V>(s: Seq<(Seq<char>, V)>, e: (Seq<char>, V))
    ensures
        amap_of(s.push(e)) == amap_of(s).insert(e.0, e.1),
{
    assert(s.push(e).drop_last() =~= s);
}

/// Appending an entry whose key no entry holds keeps the keys distinct.
pub proof fn lemma_akeys_unique_push<V>(s: Seq<(Seq<char>, V)>, e: (Seq<char>, V))
    requires
        akeys_unique(s),
        forall|i: int| 0 <= i < s.len() ==> s[i].0 != e.0,
    ensures
        akeys_unique(s.push(e)),
{
    assert forall|i: int, j: int| 0 <= i < j < s.push(e).len() implies s.push(e)[i].0 != s.push(
        e,
    )[j].0 by {
        assert(s.push(e)[i] == s[i]);
        if j < s.len() {
            assert(s.push(e)[j] == s[j]);
        } else {
            assert(s.push(e)[j] == e);
        }
    }
}

/// Replacing the value at one entry updates just that key's binding.
pub proof fn lemma_amap_update<V>(s: Seq<(Seq<char>, V)>, i: int, v: V)
    requires
        akeys_unique(s),
        0 <= i < s.len(),
    ensures
        amap_of(s.update(i, (s[i].0, v))) == amap_of(s).insert(s[i].0, v),
        akeys_unique(s.update(i, (s[i].0, v))),
    decreases s.len(),
{
    let t = s.update(i, (s[i].0, v));
    assert(akeys_unique(t));
    if i == s.len() - 1 {
        assert(t.drop_last() =~= s.drop_last());
        assert(amap_of(t) =~= amap_of(s).insert(s[i].0, v));
    } else {
        let s0 = s.drop_last();
        assert(akeys_unique(s0));
        assert(t.drop_last() =~= s0.update(i, (s[i].0, v)));
        lemma_amap_update(s0, i, v);
        assert(s.last().0 != s[i].0);
        assert(amap_of(t) =~= amap_of(s).insert(s[i].0, v));
    }
}

/// Removing one entry removes just that key's binding.
pub proof fn lemma_amap_remove<V>(s: Seq<(Seq<char>, V)>, i: int)
    requires
        akeys_unique(s),
        0 <= i < s.len(),
    ensures
        amap_of(s.remove(i)) == amap_of(s).remove(s[i].0),
        akeys_unique(s.remove(i)),
    decreases s.len(),
{
    let t = s.remove(i);
    assert(akeys_unique(t));
    let s0 = s.drop_last();
    assert(akeys_unique(s0));
    if i == s.len() - 1 {
        assert(t =~= s0);
        lemma_amap_contains(s0, s[i].0);
        assert(!amap_of(s0).contains_key(s[i].0));
        assert(amap_of(t) =~= amap_of(s).remove(s[i].0));
    } else {
        assert(t.drop_last() =~= s0.remove(i));
        assert(t.last() == s.last());
        lemma_amap_remove(s0, i);
        assert(s.last().0 != s[i].0);
        assert(amap_of(t) =~= amap_of(s).remove(s[i].0));
    }
}

/// Every entry value is bounded by the sum of all values.
pub proof fn lemma_asum_entry_le(s: Seq<(Seq<char>, nat)>, i: int)
    requires
        0 <= i < s.len(),
    ensures
        s[i].1 <= asum(s),
    decreases s.len(),
{
    if i < s.len() - 1 {
        lemma_asum_entry_le(s.drop_last(), i);
    }
}

/// Appending an entry adds its value to the sum.
pub proof fn lemma_asum_push(s: Seq<(Seq<char>, nat)>, e: (Seq<char>, nat))
    ensures
        asum(s.push(e)) == asum(s) + e.1,
{
    assert(s.push(e).drop_last() =~= s);
}

/// Replacing one entry's value changes the sum by the difference.
pub proof fn lemma_asum_update(s: Seq<(Seq<char>, nat)>, i: int, v: nat)
    requires
        0 <= i < s.len(),
    ensures
        asum(s.update(i, (s[i].0, v))) + s[i].1 == asum(s) + v,
    decreases s.len(),
{
    let t = s.update(i, (s[i].0, v));
    if i == s.len() - 1 {
        assert(t.drop_last() =~= s.drop_last());
    } else {
        assert(t.drop_last() =~= s.drop_last().update(i, (s[i].0, v)));
        lemma_asum_update(s.drop_last(), i, v);
    }
}

/// The set meaning of a sequence of words.
pub open spec fn sset_of(s: Seq<Seq<char>>) -> Set<Seq<char>>
    decreases s.len(),
{
    if s.len() == 0 {
        Set::empty()
    } else {
        sset_of(s.drop_last()).insert(s.last())
    }
}

/// Words are pairwise distinct.
pub open spec fn selems_unique(s: Seq<Seq<char>>) -> bool {
    forall|i: int, j: int| 0 <= i < j < s.len() ==> s[i] != s[j]
}

/// Some word among the first `n` is `k`.
pub open spec fn shas_upto(s: Seq<Seq<char>>, n: int, k: Seq<char>) -> bool {
    exists|i: int| 0 <= i < n && s[i] == k
}

/// Some word is `k`.
pub open spec fn shas(s: Seq<Seq<char>>, k: Seq<char>) -> bool {
    shas_upto(s, s.len() as int, k)
}

/// Appending a word the sequence does not hold keeps the words distinct.
pub proof fn lemma_selems_unique_push(s: Seq<Seq<char>>, e: Seq<char>)
    requires
        selems_unique(s),
        forall|i: int| 0 <= i < s.len() ==> s[i] != e,
    ensures
        selems_unique(s.push(e)),
{
    assert forall|i: int, j: int| 0 <= i < j < s.push(e).len() implies s.push(e)[i] != s.push(
        e,
    )[j] by {
        assert(s.push(e)[i] == s[i]);
        if j < s.len() {
            assert(s.push(e)[j] == s[j]);
        } else {
            assert(s.push(e)[j] == e);
        }
    }
}

/// A word is in the set exactly when the sequence holds it.
pub proof fn lemma_sset_contains(s: Seq<Seq<char>>, k: Seq<char>)
    ensures
        sset_of(s).contains(k) <==> shas(s, k),
    decreases s.len(),
{
    if s.len() > 0 {
        let s0 = s.drop_last();
        lemma_sset_contains(s0, k);
        if sset_of(s).contains(k) {
            if s.last() == k {
                assert(s[s.len() - 1] == k);
            } else {
                let i = choose|i: int| 0 <= i < s0.len() && s0[i] == k;
                assert(s[i] == k);
            }
        }
        if shas(s, k) {
            let i = choose|i: int| 0 <= i < s.len() && s[i] == k;
            if i < s.len() - 1 {
                assert(s0[i] == k);
                assert(shas(s0, k));
            }
        }
    }
}

/// Appending a word inserts it into the set.
pub proof fn lemma_sset_push(s: Seq<Seq<char>>, e: Seq<char>)
    ensures
        sset_of(s.push(e)) == sset_of(s).insert(e),
{
    assert(s.push(e).drop_last() =~= s);
}

/// Removing one word removes it from the set.
pub proof fn lemma_sset_remove(s: Seq<Seq<char>>, i: int)
    requires
        selems_unique(s),
        0 <= i < s.len(),
    ensures
        sset_of(s.remove(i)) == sset_of(s).remove(s[i]),
        selems_unique(s.remove(i)),
    decreases s.len(),
{
    let t = s.remove(i);
    assert(selems_unique(t));
    let s0 = s.drop_last();
    assert(selems_unique(s0));
    if i == s.len() - 1 {
        assert(t =~= s0);
        lemma_sset_contains(s0, s[i]);
        assert(!sset_of(s0).contains(s[i]));
        assert(sset_of(t) =~= sset_of(s).remove(s[i]));
    } else {
        assert(t.drop_last() =~= s0.remove(i));
        assert(t.last() == s.last());
        lemma_sset_remove(s0, i);
        assert(s.last() != s[i]);
        assert(sset_of(t) =~= sset_of(s).remove(s[i]));
    }
}

/// The character sequences of a vector of strings.
pub open spec fn str_views(s: Seq<String>) -> Seq<Seq<char>> {
    s.map_values(|x: String| x@)
}

/// The keyed view of a vector of string pairs.
pub open spec fn pairs_view(s: Seq<(String, String)>) -> Seq<(Seq<char>, Seq<char>)> {
    s.map_values(|e: (String, String)| (e.0@, e.1@))
}

/// The keyed view of a vector of string counts.
pub open spec fn counts_view(s: Seq<(String, usize)>) -> Seq<(Seq<char>, nat)> {
    s.map_values(|e: (String, usize)| (e.0@, e.1 as nat))
}

/// Whether a list of words holds the given word.
#[verifier::loop_isolation(false)]
pub fn str_list_contains(v: &Vec<String>, w: &String) -> (r: bool)
    ensures
        r == sset_of(str_views(v@)).contains(w@),
{
    proof {
        lemma_sset_contains(str_views(v@), w@);
    }
    let n = v.len();
    let mut i: usize = 0;
    while i < n
        invariant
            n == v@.len(),
            i <= n,
            forall|j: int| 0 <= j < i ==> str_views(v@)[j] != w@,
        decreases n - i,
    {
        if v[i] == *w {
            assert(str_views(v@)[i as int] == w@);
            return true;
        }
        i += 1;
    }
    false
}

/// Add a word to a list of distinct words, leaving the list unchanged when
/// the word is already there.
#[verifier::loop_isolation(false)]
pub fn str_list_insert(v: &mut Vec<String>, w: String)
    ensures
        selems_unique(str_views(old(v)@)) ==> selems_unique(str_views(final(v)@)),
        sset_of(str_views(final(v)@)) == sset_of(str_views(old(v)@)).insert(w@),
{
    proof {
        lemma_sset_contains(str_views(v@), w@);
    }
    let n = v.len();
    let mut i: usize = 0;
    while i < n
        invariant
            n == v@.len(),
            i <= n,
            forall|j: int| 0 <= j < i ==> str_views(v@)[j] != w@,
        decreases n - i,
    {
        if v[i] == w {
            assert(str_views(v@)[i as int] == w@);
            assert(sset_of(str_views(v@)).contains(w@));
            assert(sset_of(str_views(v@)) =~= sset_of(str_views(v@)).insert(w@));
            return ;
        }
        i += 1;
    }
    proof {
        lemma_sset_push(str_views(v@), w@);
        if selems_unique(str_views(v@)) {
            lemma_selems_unique_push(str_views(v@), w@);
        }
        assert(str_views(v@.push(w)) =~= str_views(v@).push(w@));
    }
    v.push(w);
}

/// Remove the word from a list of distinct words, reporting whether it was
/// there.  On a list with repeated words only the first occurrence goes.
#[verifier::loop_isolation(false)]
pub fn str_list_remove(v: &mut Vec<String>, w: &String) -> (r: bool)
    ensures
        selems_unique(str_views(old(v)@)) ==> selems_unique(str_views(final(v)@)),
        r == sset_of(str_views(old(v)@)).contains(w@),
        selems_unique(str_views(old(v)@)) ==> sset_of(str_views(final(v)@)) == sset_of(
            str_views(old(v)@),
        ).remove(w@),
{
    proof {
        lemma_sset_contains(str_views(v@), w@);
    }
    let n = v.len();
    let mut i: usize = 0;
    while i < n
        invariant
            n == v@.len(),
            i <= n,
            v@ == old(v)@,
            forall|j: int| 0 <= j < i ==> str_views(v@)[j] != w@,
        decreases n - i,
    {
        if v[i] == *w {
            assert(str_views(v@)[i as int] == w@);
            assert(sset_of(str_views(v@)).contains(w@));
            proof {
                if selems_unique(str_views(v@)) {
                    lemma_sset_remove(str_views(v@), i as int);
                }
                assert(str_views(v@.remove(i as int)) =~= str_views(v@).remove(i as int));
            }
            v.remove(i);
            return true;
        }
        i += 1;
    }
    assert(!sset_of(str_views(v@)).contains(w@));
    assert(sset_of(str_views(v@)) =~= sset_of(str_views(v@)).remove(w@));
    false
}

/// Insert or replace a binding in a list of string pairs with distinct keys.
#[verifier::loop_isolation(false)]
pub fn pair_list_set(v: &mut Vec<(String, String)>, key: &str, value: &str)
    requires
        akeys_unique(pairs_view(old(v)@)),
    ensures
        akeys_unique(pairs_view(final(v)@)),
        amap_of(pairs_view(final(v)@)) == amap_of(pairs_view(old(v)@)).insert(key@, value@),
{
    let k = key.to_owned();
    let n = v.len();
    let mut i: usize = 0;
    while i < n
        invariant
            n == v@.len(),
            i <= n,
            v@ == old(v)@,
            k@ == key@,
            forall|j: int| 0 <= j < i ==> pairs_view(v@)[j].0 != key@,
        decreases n - i,
    {
        if v[i].0 == k {
            assert(pairs_view(v@)[i as int].0 == key@);
            proof {
                lemma_amap_update(pairs_view(v@), i as int, value@);
            }
            let e = (k, value.to_owned());
            proof {
                assert(pairs_view(v@.update(i as int, e)) =~= pairs_view(v@).update(
                    i as int,
                    (key@, value@),
                ));
            }
            v.set(i, e);
            return ;
        }
        i += 1;
    }
    let e = (k, value.to_owned());
    proof {
        lemma_amap_contains(pairs_view(v@), key@);
        lemma_amap_push(pairs_view(v@), (key@, value@));
        lemma_akeys_unique_push(pairs_view(v@), (key@, value@));
        assert(pairs_view(v@.push(e)) =~= pairs_view(v@).push((key@, value@)));
    }
    v.push(e);
}

/// Look a key up in a count list with distinct keys; an absent key counts
/// zero.
#[verifier::loop_isolation(false)]
pub fn count_list_get(v: &Vec<(String, usize)>, key: &String) -> (r: usize)
    requires
        akeys_unique(counts_view(v@)),
    ensures
        amap_of(counts_view(v@)).contains_key(key@) ==> r == amap_of(counts_view(v@))[key@],
        !amap_of(counts_view(v@)).contains_key(key@) ==> r == 0,
{
    proof {
        lemma_amap_contains(counts_view(v@), key@);
    }
    let n = v.len();
    let mut i: usize = 0;
    while i < n
        invariant
            n == v@.len(),
            i <= n,
            forall|j: int| 0 <= j < i ==> counts_view(v@)[j].0 != key@,
        decreases n - i,
    {
        if v[i].0 == *key {
            assert(counts_view(v@)[i as int].0 == key@);
            proof {
                lemma_amap_at(counts_view(v@), i as int);
            }
            return v[i].1;
        }
        i += 1;
    }
    assert(!amap_of(counts_view(v@)).contains_key(key@));
    0
}

/// Increment a key's count in a count list with distinct keys, inserting the
/// key with count one when it is absent.
#[verifier::loop_isolation(false)]
pub fn count_list_increment(v: &mut Vec<(String, usize)>, key: &String)
    requires
        akeys_unique(counts_view(old(v)@)),
        amap_of(counts_view(old(v)@)).contains_key(key@) ==> amap_of(counts_view(old(v)@))[key@]
            < usize::MAX,
    ensures
        akeys_unique(counts_view(final(v)@)),
        avals_ge_one(counts_view(old(v)@)) ==> avals_ge_one(counts_view(final(v)@)),
        amap_of(counts_view(final(v)@)) == amap_of(counts_view(old(v)@)).insert(
            key@,
            (if amap_of(counts_view(old(v)@)).contains_key(key@) {
                amap_of(counts_view(old(v)@))[key@]
            } else {
                0
            }) + 1,
        ),
{
    proof {
        lemma_amap_contains(counts_view(v@), key@);
    }
    let n = v.len();
    let mut i: usize = 0;
    while i < n
        invariant
            n == v@.len(),
            i <= n,
            v@ == old(v)@,
            forall|j: int| 0 <= j < i ==> counts_view(v@)[j].0 != key@,
        decreases n - i,
    {
        if v[i].0 == *key {
            assert(counts_view(v@)[i as int].0 == key@);
            proof {
                lemma_amap_at(counts_view(v@), i as int);
            }
            let c = v[i].1;
            proof {
                lemma_amap_update(counts_view(v@), i as int, (c + 1) as nat);
            }
            let k = v[i].0.clone();
            proof {
                assert(counts_view(v@.update(i as int, (k, (c + 1) as usize))) =~= counts_view(
                    v@,
                ).update(
                    i as int,
                    (key@, (c + 1) as nat),
                ));
            }
            v.set(i, (k, c + 1));
            return ;
        }
        i += 1;
    }
    assert(!amap_of(counts_view(v@)).contains_key(key@));
    let e = (key.clone(), 1usize);
    proof {
        lemma_amap_push(counts_view(v@), (key@, 1nat));
        assert(counts_view(v@.push(e)) =~= counts_view(v@).push((key@, 1nat)));
        assert(akeys_unique(counts_view(v@).push((key@, 1nat))));
    }
    v.push(e);
}

/// Decrement a key's count in a count list with distinct keys, deleting the
/// entry when its count reaches zero and leaving an absent key absent.
#[verifier::loop_isolation(false)]
pub fn count_list_decrement_prune(v: &mut Vec<(String, usize)>, key: &String)
    requires
        akeys_unique(counts_view(old(v)@)),
    ensures
        akeys_unique(counts_view(final(v)@)),
        avals_ge_one(counts_view(old(v)@)) ==> avals_ge_one(counts_view(final(v)@)),
        amap_of(counts_view(final(v)@)) == (if amap_of(counts_view(old(v)@)).contains_key(key@) {
            if amap_of(counts_view(old(v)@))[key@] >= 2 {
                amap_of(counts_view(old(v)@)).insert(
                    key@,
                    (amap_of(counts_view(old(v)@))[key@] - 1) as nat,
                )
            } else {
                amap_of(counts_view(old(v)@)).remove(key@)
            }
        } else {
            amap_of(counts_view(old(v)@))
        }),
{
    proof {
        lemma_amap_contains(counts_view(v@), key@);
    }
    let n = v.len();
    let mut i: usize = 0;
    while i < n
        invariant
            n == v@.len(),
            i <= n,
            v@ == old(v)@,
            forall|j: int| 0 <= j < i ==> counts_view(v@)[j].0 != key@,
        decreases n - i,
    {
        if v[i].0 == *key {
            assert(counts_view(v@)[i as int].0 == key@);
            proof {
                lemma_amap_at(counts_view(v@), i as int);
            }
            let c = v[i].1;
            let reduced = if c >= 1 {
                c - 1
            } else {
                0
            };
            if reduced == 0 {
                proof {
                    lemma_amap_remove(counts_view(v@), i as int);
                    assert(counts_view(v@.remove(i as int)) =~= counts_view(v@).remove(i as int));
                }
                v.remove(i);
            } else {
                proof {
                    lemma_amap_update(counts_view(v@), i as int, reduced as nat);
                }
                let k = v[i].0.clone();
                proof {
                    assert(counts_view(v@.update(i as int, (k, reduced))) =~= counts_view(
                        v@,
                    ).update(i as int, (key@, reduced as nat)));
                }
                v.set(i, (k, reduced));
            }
            return ;
        }
        i += 1;
    }
    assert(!amap_of(counts_view(v@)).contains_key(key@));
}

} // verus!
