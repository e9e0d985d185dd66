//! An id-keyed table: an association vector with unique keys, abstracted as a
//! `Map` from each key's character sequence to its value's view. Lookups are
//! always by key; insertion order is irrelevant to the abstraction.

use vstd::prelude::*;
use crate::text::str_eq;

verus! {

/// The map denoted by an association sequence; a later pair overrides an
/// earlier one with the same key.
pub open spec fn pairs_map<V: View>(s: Seq<(String, V)>) -> Map<Seq<char>, V::V>
    decreases s.len(),
{
    if s.len() == 0 {
        Map::empty()
    } else {
        pairs_map(s.drop_last()).insert(s.last().0@, s.last().1@)
    }
}

spec fn unique_keys<V>(s: Seq<(String, V)>) -> bool {
    forall|i: int, j: int| 0 <= i < j < s.len() ==> (#[trigger] s[i]).0@ != (#[trigger] s[j]).0@
}

proof fn lemma_pairs_map_contains<V: View>(s: Seq<(String, V)>, k: Seq<char>)
    ensures
        pairs_map(s).contains_key(k) <==> exists|i: int| 0 <= i < s.len() && (#[trigger] s[i]).0@
            == k,
    decreases s.len(),
{
    if s.len() > 0 {
        lemma_pairs_map_contains(s.drop_last(), k);
        if s.last().0@ == k {
            assert(s[s.len() - 1].0@ == k);
        } else if pairs_map(s).contains_key(k) {
            let i = choose|i: int| 0 <= i < s.drop_last().len() && (#[trigger] s.drop_last()[i]).0@
                == k;
            assert(s[i].0@ == k);
        } else {
            assert(forall|i: int|
                0 <= i < s.len() - 1 ==> (#[trigger] s[i]) == s.drop_last()[i]);
        }
    }
}

proof fn lemma_pairs_map_index<V: View>(s: Seq<(String, V)>, i: int)
    requires
        unique_keys(s),
        0 <= i < s.len(),
    ensures
        pairs_map(s).contains_key(s[i].0@),
        pairs_map(s)[s[i].0@] == s[i].1@,
    decreases s.len(),
{
    if i == s.len() - 1 {
    } else {
        lemma_pairs_map_index(s.drop_last(), i);
        assert(s.drop_last()[i] == s[i]);
        assert(s.last().0@ != s[i].0@);
    }
}

proof fn lemma_pairs_map_finite<V: View>(s: Seq<(String, V)>)
    ensures
        pairs_map(s).dom().finite(),
        pairs_map(s).dom().len() <= s.len(),
        unique_keys(s) ==> pairs_map(s).dom().len() == s.len(),
    decreases s.len(),
{
    if s.len() == 0 {
    } else {
        lemma_pairs_map_finite(s.drop_last());
        if unique_keys(s) {
            assert(unique_keys(s.drop_last()));
            lemma_pairs_map_contains(s.drop_last(), s.last().0@);
            assert(forall|i: int|
                0 <= i < s.drop_last().len() ==> (#[trigger] s.drop_last()[i]).0@ != s.last().0@);
            assert(!pairs_map(s.drop_last()).contains_key(s.last().0@));
        }
    }
}

proof fn lemma_pairs_map_remove<V: View>(s: Seq<(String, V)>, i: int)
    requires
        unique_keys(s),
        0 <= i < s.len(),
    ensures
        pairs_map(s.remove(i)) == pairs_map(s).remove(s[i].0@),
    decreases s.len(),
{
    let k = s[i].0@;
    if i == s.len() - 1 {
        assert(s.remove(i) =~= s.drop_last());
        lemma_pairs_map_contains(s.drop_last(), k);
        assert(forall|j: int|
            0 <= j < s.drop_last().len() ==> (#[trigger] s.drop_last()[j]).0@ != k);
        assert(!pairs_map(s.drop_last()).contains_key(k));
        assert(pairs_map(s.drop_last()).insert(k, s.last().1@).remove(k) =~= pairs_map(
            s.drop_last(),
        ));
    } else {
        assert(unique_keys(s.drop_last()));
        lemma_pairs_map_remove(s.drop_last(), i);
        assert(s.remove(i).drop_last() =~= s.drop_last().remove(i));
        assert(s.remove(i).last() == s.last());
        assert(s.last().0@ != k);
        assert(pairs_map(s.remove(i)) == pairs_map(s.drop_last().remove(i)).insert(
            s.last().0@,
            s.last().1@,
        ));
        assert(pairs_map(s.drop_last()).remove(k).insert(s.last().0@, s.last().1@) =~= pairs_map(
            s.drop_last(),
        ).insert(s.last().0@, s.last().1@).remove(k));
    }
}

/// An id-keyed table with unique keys.
pub struct StrMap<V> {
    pairs: Vec<(String, V)>,
}

impl<V: View> View for StrMap<V> {
    type V = Map<Seq<char>, V::V>;

    closed spec fn view(&self) -> Map<Seq<char>, V::V> {
        pairs_map(self.pairs@)
    }
}

impl<V> StrMap<V> {
    #[verifier::type_invariant]
    spec fn wf(self) -> bool {
        unique_keys(self.pairs@)
    }
}

impl<V: View> StrMap<V> {
    /// The table's keys, in insertion order.
    pub closed spec fn keys(&self) -> Seq<Seq<char>> {
        self.pairs@.map_values(|p: (String, V)| p.0@)
    }

    pub fn new() -> (r: Self)
        ensures
            r@ == Map::<Seq<char>, V::V>::empty(),
            r.keys() == Seq::<Seq<char>>::empty(),
    {
        let r = StrMap { pairs: Vec::new() };
        proof {
            assert(r.keys() =~= Seq::<Seq<char>>::empty());
        }
        r
    }

    /// The number of entries. Also reports that the key enumeration lists the
    /// table's domain, each key exactly once.
    pub fn len(&self) -> (r: usize)
        ensures
            r == self@.dom().len(),
            r == self.keys().len(),
            self.keys().no_duplicates(),
            forall|k: Seq<char>| self.keys().contains(k) <==> self@.contains_key(k),
            self@.dom().finite(),
    {
        proof {
            use_type_invariant(self);
            lemma_pairs_map_finite(self.pairs@);
            assert forall|k: Seq<char>| self.keys().contains(k) <==> self@.contains_key(k) by {
                lemma_pairs_map_contains(self.pairs@, k);
                if self@.contains_key(k) {
                    let i = choose|i: int|
                        0 <= i < self.pairs@.len() && (#[trigger] self.pairs@[i]).0@ == k;
                    assert(self.keys()[i] == k);
                }
                if self.keys().contains(k) {
                    let i = choose|i: int| 0 <= i < self.keys().len() && self.keys()[i] == k;
                    assert(self.pairs@[i].0@ == k);
                }
            }
        }
        self.pairs.len()
    }

    pub fn is_empty(&self) -> (r: bool)
        ensures
            r == (self@ == Map::<Seq<char>, V::V>::empty()),
    {
        proof {
            use_type_invariant(self);
            if self.pairs@.len() == 0 {
                assert(self@ =~= Map::<Seq<char>, V::V>::empty());
            } else {
                lemma_pairs_map_index(self.pairs@, 0);
                assert(self@.contains_key(self.pairs@[0].0@));
            }
        }
        self.pairs.len() == 0
    }

    pub fn contains_key(&self, k: &str) -> (r: bool)
        ensures
            r == self@.contains_key(k@),
    {
        self.get(k).is_some()
    }

    /// The value stored under `k`, if any.
    pub fn get<'a>(&'a self, k: &str) -> (r: Option<&'a V>)
        ensures
            match r {
                Some(v) => self@.contains_key(k@) && v@ == self@[k@],
                None => !self@.contains_key(k@),
            },
    {
        proof {
            use_type_invariant(self);
        }
        let n = self.pairs.len();
        let mut i: usize = 0;
        while i < n
            invariant
                n == self.pairs@.len(),
                i <= n,
                unique_keys(self.pairs@),
                self@ == pairs_map(self.pairs@),
                forall|j: int| 0 <= j < i ==> (#[trigger] self.pairs@[j]).0@ != k@,
            decreases n - i,
        {
            if str_eq(self.pairs[i].0.as_str(), k) {
                proof {
                    lemma_pairs_map_index(self.pairs@, i as int);
                }
                return Some(&self.pairs[i].1);
            }
            i += 1;
        }
        proof {
            lemma_pairs_map_contains(self.pairs@, k@);
        }
        None
    }

    /// Stores `v` under `k`, replacing any existing entry.
    pub fn insert(&mut self, k: String, v: V)
        ensures
            final(self)@ == old(self)@.insert(k@, v@),
    {
        proof {
            use_type_invariant(&*self);
        }
        let ghost m = self@;
        let mut tmp: Vec<(String, V)> = Vec::new();
        core::mem::swap(&mut tmp, &mut self.pairs);
        let n = tmp.len();
        let mut i: usize = 0;
        let mut found = n;
        while i < n && found == n
            invariant
                n == tmp@.len(),
                i <= n,
                found == n || (found < i && tmp@[found as int].0@ == k@),
                forall|j: int| 0 <= j < i && j != found ==> (#[trigger] tmp@[j]).0@ != k@,
            decreases n - i,
        {
            if str_eq(tmp[i].0.as_str(), k.as_str()) {
                found = i;
            }
            i += 1;
        }
        if found < n {
            let ghost s = tmp@;
            proof {
                lemma_pairs_map_remove(s, found as int);
                assert(forall|a: int, b: int|
                    0 <= a < b < s.remove(found as int).len() ==> (#[trigger] s.remove(
                        found as int,
                    )[a]).0@ != (#[trigger] s.remove(found as int)[b]).0@);
            }
            tmp.remove(found);
            let ghost t = tmp@;
            tmp.push((k, v));
            proof {
                assert(tmp@.drop_last() =~= t);
                assert(pairs_map(tmp@) == pairs_map(t).insert(k@, v@));
                assert(m.remove(k@).insert(k@, v@) =~= m.insert(k@, v@));
            }
        } else {
            let ghost t = tmp@;
            proof {
                lemma_pairs_map_contains(t, k@);
            }
            tmp.push((k, v));
            proof {
                assert(tmp@.drop_last() =~= t);
                assert(pairs_map(tmp@) == pairs_map(t).insert(k@, v@));
            }
        }
        core::mem::swap(&mut tmp, &mut self.pairs);
    }

    /// Removes and returns some entry; `None` exactly on the empty table.
    pub fn pop(&mut self) -> (r: Option<(String, V)>)
        ensures
            match r {
                Some(p) => old(self)@.contains_key(p.0@) && p.1@ == old(self)@[p.0@] && final(self)@
                    == old(self)@.remove(p.0@) && final(self)@.dom().len() + 1 == old(
                    self,
                )@.dom().len(),
                None => old(self)@ == Map::<Seq<char>, V::V>::empty() && final(self)@ == old(
                    self,
                )@,
            },
            final(self)@.dom().len() <= old(self)@.dom().len(),
    {
        proof {
            use_type_invariant(&*self);
            lemma_pairs_map_finite(self.pairs@);
        }
        let mut tmp: Vec<(String, V)> = Vec::new();
        core::mem::swap(&mut tmp, &mut self.pairs);
        let ghost s = tmp@;
        let r = tmp.pop();
        match r {
            None => {
                core::mem::swap(&mut tmp, &mut self.pairs);
                proof {
                    assert(self@ =~= Map::<Seq<char>, V::V>::empty());
                }
                None
            },
            Some((k, v)) => {
                proof {
                    lemma_pairs_map_index(s, s.len() - 1);
                    assert(tmp@ =~= s.drop_last());
                    lemma_pairs_map_remove(s, s.len() - 1);
                    assert(s.remove(s.len() - 1) =~= s.drop_last());
                    lemma_pairs_map_finite(s.drop_last());
                    assert(unique_keys(s.drop_last()));
                }
                core::mem::swap(&mut tmp, &mut self.pairs);
                Some((k, v))
            },
        }
    }

    /// The entry at position `i` of the key enumeration.
    pub fn entry_at<'a>(&'a self, i: usize) -> (r: (&'a String, &'a V))
        requires
            i < self.keys().len(),
        ensures
            r.0@ == self.keys()[i as int],
            self@.contains_key(r.0@),
            r.1@ == self@[r.0@],
    {
        proof {
            use_type_invariant(self);
            lemma_pairs_map_index(self.pairs@, i as int);
        }
        let p = &self.pairs[i];
        (&p.0, &p.1)
    }
}

} // verus!
