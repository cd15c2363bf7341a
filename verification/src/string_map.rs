//! A string-keyed map backed by a vector of entries.
//!
//! The lockfile, the plan and the working-directory model all need a map
//! from a path (or name) to some record, with a deterministic iteration
//! order. `StringMap` keeps its entries in a vector whose keys are unique,
//! and is specified against a `Map<Seq<char>, _>` view.

use vstd::prelude::*;

verus! {

/// The map described by a sequence of key/value entries, later entries
/// winning on a repeated key.
pub open spec fn assoc_map<V: View>(s: Seq<(String, V)>) -> Map<Seq<char>, V::V>
    decreases s.len(),
{
    if s.len() == 0 {
        Map::empty()
    } else {
        assoc_map(s.drop_last()).insert(s.last().0@, s.last().1@)
    }
}

/// The key views of a sequence of entries, in entry order.
pub open spec fn assoc_keys<V>(s: Seq<(String, V)>) -> Seq<Seq<char>> {
    s.map_values(|e: (String, V)| e.0@)
}

/// Entry keys are pairwise distinct, compared as character sequences.
pub open spec fn assoc_unique<V>(s: Seq<(String, V)>) -> bool {
    forall|i: int, j: int| 0 <= i < j < s.len() ==> s[i].0@ != s[j].0@
}

proof fn lemma_assoc_dom<V: View>(s: Seq<(String, V)>)
    ensures
        assoc_map(s).dom() =~= assoc_keys(s).to_set(),
        assoc_map(s).dom().finite(),
    decreases s.len(),
{
    if s.len() == 0 {
        assert(assoc_keys(s).to_set() =~= Set::empty());
    } else {
        lemma_assoc_dom(s.drop_last());
        assert(assoc_keys(s.drop_last()) =~= assoc_keys(s).drop_last());
        assert forall|k: Seq<char>| assoc_map(s).dom().contains(k) implies assoc_keys(
            s,
        ).to_set().contains(k) by {
            if k == s.last().0@ {
                assert(assoc_keys(s)[s.len() - 1] == k);
            } else {
                assert(assoc_keys(s).drop_last().to_set().contains(k));
                let i = choose|i: int|
                    0 <= i < assoc_keys(s).drop_last().len() && assoc_keys(s).drop_last()[i] == k;
                assert(assoc_keys(s)[i] == k);
            }
        }
        assert forall|k: Seq<char>| assoc_keys(s).to_set().contains(k) implies assoc_map(
            s,
        ).dom().contains(k) by {
            let i = choose|i: int| 0 <= i < assoc_keys(s).len() && assoc_keys(s)[i] == k;
            if i < s.len() - 1 {
                assert(assoc_keys(s).drop_last()[i] == k);
                assert(assoc_keys(s).drop_last().to_set().contains(k));
            }
        }
    }
}

proof fn lemma_assoc_index<V: View>(s: Seq<(String, V)>, i: int)
    requires
        assoc_unique(s),
        0 <= i < s.len(),
    ensures
        assoc_map(s).contains_key(s[i].0@),
        assoc_map(s)[s[i].0@] == s[i].1@,
    decreases s.len(),
{
    if i < s.len() - 1 {
        assert(assoc_unique(s.drop_last()));
        lemma_assoc_index(s.drop_last(), i);
        assert(s[i].0@ != s.last().0@);
    }
}

proof fn lemma_assoc_remove<V: View>(s: Seq<(String, V)>, i: int)
    requires
        assoc_unique(s),
        0 <= i < s.len(),
    ensures
        assoc_unique(s.remove(i)),
        assoc_map(s.remove(i)) =~= assoc_map(s).remove(s[i].0@),
    decreases s.len(),
{
    lemma_assoc_dom(s.drop_last());
    if i == s.len() - 1 {
        assert(s.remove(i) =~= s.drop_last());
        assert(!assoc_keys(s.drop_last()).to_set().contains(s[i].0@)) by {
            if assoc_keys(s.drop_last()).to_set().contains(s[i].0@) {
                let j = choose|j: int|
                    0 <= j < assoc_keys(s.drop_last()).len()
                        && assoc_keys(s.drop_last())[j] == s[i].0@;
                assert(s[j].0@ == s[i].0@);
            }
        }
        assert(assoc_map(s.drop_last()) =~= assoc_map(s).remove(s[i].0@));
    } else {
        let t = s.remove(i);
        assert(t.drop_last() =~= s.drop_last().remove(i));
        assert(t.last() == s.last());
        assert(assoc_unique(s.drop_last()));
        lemma_assoc_remove(s.drop_last(), i);
        assert(s[i].0@ != s.last().0@);
        assert(assoc_map(t) =~= assoc_map(s.drop_last()).remove(s[i].0@).insert(
            s.last().0@,
            s.last().1@,
        ));
        assert(assoc_map(s).remove(s[i].0@) =~= assoc_map(s.drop_last()).insert(
            s.last().0@,
            s.last().1@,
        ).remove(s[i].0@));
    }
}

/// A map from strings to values, stored as a vector of entries with
/// pairwise distinct keys. Iteration order is the order in which keys were
/// (most recently) inserted.
pub struct StringMap<V> {
    entries: Vec<(String, V)>,
}

impl<V> StringMap<V> {
    #[verifier::type_invariant]
    spec fn wf(self) -> bool {
        assoc_unique(self.entries@)
    }
}

impl<V: View> View for StringMap<V> {
    type V = Map<Seq<char>, V::V>;

    closed spec fn view(&self) -> Map<Seq<char>, V::V> {
        assoc_map(self.entries@)
    }
}

impl<V: View> StringMap<V> {
    /// The key views in iteration order.
    pub closed spec fn key_seq(self) -> Seq<Seq<char>> {
        assoc_keys(self.entries@)
    }

    /// An empty map.
    pub fn new() -> (r: Self)
        ensures
            r@ == Map::<Seq<char>, V::V>::empty(),
            r.key_seq() == Seq::<Seq<char>>::empty(),
    {
        let r = StringMap { entries: Vec::new() };
        proof {
            assert(r@ =~= Map::<Seq<char>, V::V>::empty());
            assert(r.key_seq() =~= Seq::<Seq<char>>::empty());
        }
        r
    }

    /// The number of entries, which also ties the iteration order to the
    /// map view: the keys in iteration order are distinct and are exactly
    /// the domain of the view.
    pub fn len(&self) -> (n: usize)
        ensures
            n == self.key_seq().len(),
            n == self@.len(),
            self@.dom() == self.key_seq().to_set(),
            self@.dom().finite(),
            forall|i: int, j: int|
                0 <= i < j < self.key_seq().len() ==> self.key_seq()[i] != self.key_seq()[j],
            forall|i: int|
                0 <= i < self.key_seq().len() ==> self@.contains_key(self.key_seq()[i]),
    {
        proof {
            use_type_invariant(self);
            lemma_assoc_dom(self.entries@);
            assert(self@.dom() =~= self.key_seq().to_set());
            self.key_seq().unique_seq_to_set();
            assert forall|i: int|
                0 <= i < self.key_seq().len() implies self@.contains_key(self.key_seq()[i]) by {
                lemma_assoc_index(self.entries@, i);
            }
        }
        self.entries.len()
    }

    /// Whether the map holds no entry.
    pub fn is_empty(&self) -> (r: bool)
        ensures
            r == self@.is_empty(),
    {
        let n = self.len();
        proof {
            if self@.len() == 0 {
                assert(self@.dom() =~= Set::empty());
                assert(self@ =~= Map::empty());
            }
        }
        n == 0
    }

    /// The index of the entry holding a key, scanning in iteration order.
    fn index_of_key(&self, k: &String) -> (r: Option<usize>)
        ensures
            match r {
                Some(i) => i < self.key_seq().len() && self.key_seq()[i as int] == k@,
                None => !self@.contains_key(k@),
            },
    {
        proof {
            use_type_invariant(self);
        }
        let n = self.entries.len();
        for i in 0..n
            invariant
                n == self.entries@.len(),
                forall|j: int| 0 <= j < i ==> self.entries@[j].0@ != k@,
        {
            if self.entries[i].0 == *k {
                proof {
                    assert(self.key_seq()[i as int] == k@);
                }
                return Some(i);
            }
        }
        proof {
            use_type_invariant(self);
            lemma_assoc_dom(self.entries@);
            if self@.contains_key(k@) {
                let j = choose|j: int|
                    0 <= j < assoc_keys(self.entries@).len() && assoc_keys(self.entries@)[j] == k@;
                assert(self.entries@[j].0@ == k@);
            }
        }
        None
    }

    /// Looks a key up.
    pub fn get(&self, k: &String) -> (r: Option<&V>)
        ensures
            match r {
                Some(v) => self@.contains_key(k@) && v@ == self@[k@],
                None => !self@.contains_key(k@),
            },
    {
        proof {
            use_type_invariant(self);
        }
        match self.index_of_key(k) {
            Some(i) => {
                proof {
                    lemma_assoc_index(self.entries@, i as int);
                }
                Some(&self.entries[i].1)
            },
            None => None,
        }
    }

    /// Whether the map holds the key.
    pub fn contains_key(&self, k: &String) -> (r: bool)
        ensures
            r == self@.contains_key(k@),
    {
        match self.get(k) {
            Some(_) => true,
            None => false,
        }
    }

    /// Inserts or replaces the value at a key. A replaced key moves to the
    /// end of the iteration order.
    pub fn insert(&mut self, k: String, v: V)
        ensures
            final(self)@ == old(self)@.insert(k@, v@),
    {
        proof {
            use_type_invariant(&*self);
        }
        let ghost k_view = k@;
        let ghost v_view = v@;
        let found = self.index_of_key(&k);
        let mut entries: Vec<(String, V)> = Vec::new();
        std::mem::swap(&mut entries, &mut self.entries);
        let ghost before = entries@;
        match found {
            Some(i) => {
                proof {
                    lemma_assoc_remove(entries@, i as int);
                    assert(entries@[i as int].0@ == k_view);
                }
                entries.remove(i);
                entries.push((k, v));
                proof {
                    assert(entries@.drop_last() =~= before.remove(i as int));
                    assert(entries@.last().0@ == k_view);
                    assert(entries@.last().1@ == v_view);
                    assert(assoc_map(entries@) =~= assoc_map(before).insert(k_view, v_view));
                    assert forall|a: int, b: int|
                        0 <= a < b < entries@.len() implies entries@[a].0@ != entries@[b].0@ by {
                        if b == entries@.len() - 1 {
                            assert(entries@[a] == before.remove(i as int)[a]);
                        }
                    }
                }
            },
            None => {
                entries.push((k, v));
                proof {
                    lemma_assoc_dom(before);
                    assert(entries@.drop_last() =~= before);
                    assert(assoc_map(entries@) =~= assoc_map(before).insert(k_view, v_view));
                    assert forall|a: int, b: int|
                        0 <= a < b < entries@.len() implies entries@[a].0@ != entries@[b].0@ by {
                        if b == entries@.len() - 1 {
                            assert(assoc_keys(before)[a] == before[a].0@);
                            if entries@[a].0@ == k_view {
                                assert(assoc_keys(before).to_set().contains(k_view));
                            }
                        }
                    }
                }
            },
        }
        self.entries = entries;
        proof {
            assert(self@ =~= old(self)@.insert(k_view, v_view));
        }
    }

    /// Removes a key if present.
    pub fn remove(&mut self, k: &String)
        ensures
            final(self)@ == old(self)@.remove(k@),
    {
        proof {
            use_type_invariant(&*self);
        }
        let found = self.index_of_key(k);
        let mut entries: Vec<(String, V)> = Vec::new();
        std::mem::swap(&mut entries, &mut self.entries);
        match found {
            Some(i) => {
                proof {
                    lemma_assoc_remove(entries@, i as int);
                    assert(entries@[i as int].0@ == k@);
                }
                entries.remove(i);
            },
            None => {
                proof {
                    assert(assoc_map(entries@).remove(k@) =~= assoc_map(entries@));
                }
            },
        }
        self.entries = entries;
    }

    /// The key of the entry at an iteration-order index.
    pub fn key_at(&self, i: usize) -> (k: &String)
        requires
            i < self.key_seq().len(),
        ensures
            k@ == self.key_seq()[i as int],
            self@.contains_key(k@),
    {
        proof {
            use_type_invariant(self);
            lemma_assoc_index(self.entries@, i as int);
        }
        &self.entries[i].0
    }

    /// The value of the entry at an iteration-order index.
    pub fn value_at(&self, i: usize) -> (v: &V)
        requires
            i < self.key_seq().len(),
        ensures
            self@.contains_key(self.key_seq()[i as int]),
            v@ == self@[self.key_seq()[i as int]],
    {
        proof {
            use_type_invariant(self);
            lemma_assoc_index(self.entries@, i as int);
        }
        &self.entries[i].1
    }
}

} // verus!
