use vstd::prelude::*;
use crate::strutil::bytes_eq;

verus! {

/// The spec map described by an association list of byte-vector keys:
/// a later entry with the same key wins.
pub open spec fn assoc_map<V: View>(s: Seq<(Vec<u8>, V)>) -> Map<Seq<u8>, V::V>
    decreases s.len(),
{
    if s.len() == 0 {
        Map::empty()
    } else {
        assoc_map(s.drop_last()).insert(s.last().0@, s.last().1@)
    }
}

/// The key views of an association list, in entry order.
pub open spec fn key_seq<V: View>(s: Seq<(Vec<u8>, V)>) -> Seq<Seq<u8>> {
    s.map_values(|p: (Vec<u8>, V)| p.0@)
}

/// Whether the keys of an association list are pairwise distinct.
pub open spec fn distinct_keys<V: View>(s: Seq<(Vec<u8>, V)>) -> bool {
    forall|i: int, j: int| 0 <= i < j < s.len() ==> s[i].0@ != s[j].0@
}

/// A key occurs in the map exactly when some entry holds it.
pub proof fn lemma_assoc_contains<V: View>(s: Seq<(Vec<u8>, V)>, k: Seq<u8>)
    ensures
        assoc_map(s).contains_key(k) <==> exists|i: int| 0 <= i < s.len() && s[i].0@ == k,
    decreases s.len(),
{
    if s.len() > 0 {
        lemma_assoc_contains(s.drop_last(), k);
        if s.last().0@ == k {
            assert(s[s.len() - 1].0@ == k);
        } else if assoc_map(s).contains_key(k) {
            let i = choose|i: int| 0 <= i < s.drop_last().len() && s.drop_last()[i].0@ == k;
            assert(s[i].0@ == k);
        } else {
            assert(forall|i: int|
                0 <= i < s.drop_last().len() ==> s.drop_last()[i].0@ == s[i].0@);
        }
    }
}

/// With distinct keys, the map sends each entry's key to its value.
pub proof fn lemma_assoc_get<V: View>(s: Seq<(Vec<u8>, V)>, i: int)
    requires
        distinct_keys(s),
        0 <= i < s.len(),
    ensures
        assoc_map(s).contains_key(s[i].0@),
        assoc_map(s)[s[i].0@] == s[i].1@,
    decreases s.len(),
{
    if i == s.len() - 1 {
    } else {
        assert(forall|j: int| 0 <= j < s.drop_last().len() ==> s.drop_last()[j] == s[j]);
        lemma_assoc_get(s.drop_last(), i);
        assert(s[i].0@ != s.last().0@);
    }
}

/// Replacing the entry at one index, key kept, is a map insert.
pub proof fn lemma_assoc_update<V: View>(s: Seq<(Vec<u8>, V)>, i: int, e: (Vec<u8>, V))
    requires
        distinct_keys(s),
        0 <= i < s.len(),
        s[i].0@ == e.0@,
    ensures
        assoc_map(s.update(i, e)) =~= assoc_map(s).insert(e.0@, e.1@),
        distinct_keys(s.update(i, e)),
        key_seq(s.update(i, e)) =~= key_seq(s),
    decreases s.len(),
{
    let t = s.update(i, e);
    assert(forall|j: int| 0 <= j < s.len() && j != i ==> t[j] == s[j]);
    if i == s.len() - 1 {
        assert(t.drop_last() =~= s.drop_last());
        assert(t.last() == e);
    } else {
        assert(t.drop_last() =~= s.drop_last().update(i, e));
        assert(forall|j: int| 0 <= j < s.drop_last().len() ==> s.drop_last()[j] == s[j]);
        lemma_assoc_update(s.drop_last(), i, e);
        assert(t.last() == s.last());
        assert(s.last().0@ != e.0@);
        assert(assoc_map(t) =~= assoc_map(s.drop_last()).insert(e.0@, e.1@).insert(
            s.last().0@,
            s.last().1@,
        ));
    }
}

/// Appending an entry with a fresh key is a map insert.
pub proof fn lemma_assoc_push<V: View>(s: Seq<(Vec<u8>, V)>, e: (Vec<u8>, V))
    requires
        distinct_keys(s),
        forall|i: int| 0 <= i < s.len() ==> s[i].0@ != e.0@,
    ensures
        assoc_map(s.push(e)) =~= assoc_map(s).insert(e.0@, e.1@),
        distinct_keys(s.push(e)),
        key_seq(s.push(e)) =~= key_seq(s).push(e.0@),
{
    assert(s.push(e).drop_last() =~= s);
    assert(s.push(e).last() == e);
    assert(forall|i: int| 0 <= i < s.len() ==> s.push(e)[i] == s[i]);
}

/// Removing the entry at one index is a map remove.
pub proof fn lemma_assoc_remove<V: View>(s: Seq<(Vec<u8>, V)>, i: int)
    requires
        distinct_keys(s),
        0 <= i < s.len(),
    ensures
        assoc_map(s.remove(i)) =~= assoc_map(s).remove(s[i].0@),
        distinct_keys(s.remove(i)),
    decreases s.len(),
{
    let t = s.remove(i);
    assert(forall|j: int| 0 <= j < i ==> t[j] == s[j]);
    assert(forall|j: int| i <= j < t.len() ==> t[j] == s[j + 1]);
    if i == s.len() - 1 {
        assert(t =~= s.drop_last());
        lemma_assoc_contains(s.drop_last(), s[i].0@);
        assert(forall|j: int| 0 <= j < s.drop_last().len() ==> s.drop_last()[j] == s[j]);
        assert(!assoc_map(s.drop_last()).contains_key(s[i].0@));
        assert(assoc_map(t) =~= assoc_map(s.drop_last()).insert(s.last().0@, s.last().1@).remove(
            s.last().0@,
        ).remove(s[i].0@).union_prefer_right(Map::empty()).remove(s[i].0@)) by {
            assert(assoc_map(s.drop_last()).insert(s.last().0@, s.last().1@).remove(s.last().0@)
                =~= assoc_map(s.drop_last()));
            assert(assoc_map(s.drop_last()).remove(s[i].0@) =~= assoc_map(s.drop_last()));
            assert(assoc_map(s.drop_last()).union_prefer_right(Map::empty()) =~= assoc_map(
                s.drop_last(),
            ));
        }
    } else {
        assert(t.drop_last() =~= s.drop_last().remove(i));
        assert(forall|j: int| 0 <= j < s.drop_last().len() ==> s.drop_last()[j] == s[j]);
        lemma_assoc_remove(s.drop_last(), i);
        assert(t.last() == s.last());
        assert(s.last().0@ != s[i].0@);
        assert(assoc_map(t) =~= assoc_map(s.drop_last()).remove(s[i].0@).insert(
            s.last().0@,
            s.last().1@,
        ));
    }
}

/// An in-memory store keyed by byte vectors, with pairwise-distinct keys
/// kept in first-insertion order. Its model is a map from key view to
/// value view.
pub struct KvStore<V> {
    pub entries: Vec<(Vec<u8>, V)>,
}

impl<V: View> View for KvStore<V> {
    type V = Map<Seq<u8>, V::V>;

    open spec fn view(&self) -> Map<Seq<u8>, V::V> {
        assoc_map(self.entries@)
    }
}

impl<V: View> KvStore<V> {
    /// The keys of the store, in first-insertion order.
    pub open spec fn spec_keys(&self) -> Seq<Seq<u8>> {
        key_seq(self.entries@)
    }

    /// The entries of the store, in first-insertion order.
    pub open spec fn spec_entries(&self) -> Seq<(Vec<u8>, V)> {
        self.entries@
    }

    /// Well-formedness: keys are pairwise distinct.
    pub open spec fn wf(&self) -> bool {
        distinct_keys(self.entries@)
    }

    /// Creates an empty store.
    pub fn new() -> (r: KvStore<V>)
        ensures
            r.wf(),
            r@ =~= Map::<Seq<u8>, V::V>::empty(),
            r.spec_entries() =~= Seq::<(Vec<u8>, V)>::empty(),
    {
        KvStore { entries: Vec::new() }
    }

    /// The number of entries; with distinct keys, also the size of the map.
    pub fn len(&self) -> (r: usize)
        ensures
            r == self.spec_entries().len(),
    {
        self.entries.len()
    }

    /// The index of the entry holding a key, if any.
    fn find_idx(&self, k: &Vec<u8>) -> (r: Option<usize>)
        ensures
            match r {
                Some(i) => i < self.entries@.len() && self.entries@[i as int].0@ == k@,
                None => forall|i: int|
                    0 <= i < self.entries@.len() ==> (#[trigger] self.entries@[i]).0@ != k@,
            },
    {
        let mut i: usize = 0;
        while i < self.entries.len()
            invariant
                i <= self.entries@.len(),
                forall|j: int| 0 <= j < i ==> (#[trigger] self.entries@[j]).0@ != k@,
            decreases self.entries@.len() - i,
        {
            let e = &self.entries[i];
            if bytes_eq(&e.0, k) {
                return Some(i);
            }
            i += 1;
        }
        None
    }

    /// Looks a key up.
    pub fn get(&self, k: &Vec<u8>) -> (r: Option<&V>)
        requires
            self.wf(),
        ensures
            match r {
                Some(v) => self@.contains_key(k@) && self@[k@] == v@,
                None => !self@.contains_key(k@),
            },
    {
        proof {
            lemma_assoc_contains(self.entries@, k@);
        }
        match self.find_idx(k) {
            Some(i) => {
                proof {
                    lemma_assoc_get(self.entries@, i as int);
                }
                Some(&self.entries[i].1)
            },
            None => None,
        }
    }

    /// Binds a key to a value: an existing key keeps its place in entry
    /// order, a fresh key is appended.
    pub fn set(&mut self, k: Vec<u8>, v: V)
        requires
            old(self).wf(),
        ensures
            final(self).wf(),
            final(self)@ =~= old(self)@.insert(k@, v@),
            final(self).spec_keys() =~= (if old(self)@.contains_key(k@) {
                old(self).spec_keys()
            } else {
                old(self).spec_keys().push(k@)
            }),
    {
        proof {
            lemma_assoc_contains(self.entries@, k@);
        }
        match self.find_idx(&k) {
            Some(i) => {
                proof {
                    lemma_assoc_update(self.entries@, i as int, (k, v));
                }
                self.entries.set(i, (k, v));
            },
            None => {
                proof {
                    lemma_assoc_push(self.entries@, (k, v));
                }
                self.entries.push((k, v));
            },
        }
    }

    /// Unbinds a key; a store without the key is unchanged.
    pub fn unbind(&mut self, k: &Vec<u8>)
        requires
            old(self).wf(),
        ensures
            final(self).wf(),
            final(self)@ =~= old(self)@.remove(k@),
    {
        proof {
            lemma_assoc_contains(self.entries@, k@);
        }
        match self.find_idx(k) {
            Some(i) => {
                proof {
                    lemma_assoc_remove(self.entries@, i as int);
                }
                self.entries.remove(i);
            },
            None => {
                proof {
                    assert(old(self)@.remove(k@) =~= old(self)@);
                }
            },
        }
    }

    /// Takes the entries out of the store, in entry order.
    pub fn into_entries(self) -> (r: Vec<(Vec<u8>, V)>)
        ensures
            r@ == self.spec_entries(),
    {
        self.entries
    }
}

}
