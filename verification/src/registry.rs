//! A finite map from names to values, kept as two parallel vectors with no
//! name repeated; the order of the entries is the order of insertion.

use vstd::prelude::*;
use crate::names::{name_seq, str_eq};

verus! {

/// A map from names to values of type `V`.
pub struct NameMap<V> {
    keys: Vec<String>,
    vals: Vec<V>,
}

impl<V: View> NameMap<V> {
    /// The names, in the order of the entries.
    pub closed spec fn key_views(&self) -> Seq<Seq<char>> {
        name_seq(self.keys@)
    }

    /// The values, in the order of the entries, by their views.
    pub closed spec fn value_views(&self) -> Seq<V::V> {
        self.vals@.map_values(|v: V| v@)
    }

    /// No name is held twice and every name has its value.
    pub closed spec fn wf(&self) -> bool {
        &&& self.keys@.len() == self.vals@.len()
        &&& self.key_views().no_duplicates()
    }

    pub closed spec fn view(&self) -> Map<Seq<char>, V::V> {
        Map::new(
            |k: Seq<char>| self.key_views().contains(k),
            |k: Seq<char>| self.vals@[self.key_views().index_of(k)]@,
        )
    }

    /// What the entries say of the map: the names are distinct, they make up
    /// its domain, and the value at each position is the one the map gives.
    pub proof fn lemma_entries(&self)
        requires
            self.wf(),
        ensures
            self.key_views().no_duplicates(),
            self.key_views().len() == self.value_views().len(),
            forall|k: Seq<char>| #[trigger] self.view().contains_key(k) <==> self.key_views().contains(k),
            forall|i: int| 0 <= i < self.key_views().len() ==> #[trigger] self.view()[self.key_views()[i]] == self.value_views()[i],
            self.view().dom().finite(),
    {
        assert forall|i: int| 0 <= i < self.key_views().len() implies #[trigger] self.view()[self.key_views()[i]] == self.value_views()[i] by {
            lemma_index_of_distinct(self.key_views(), i);
        }
        assert(self.view().dom() =~= self.key_views().to_set());
    }

    /// The empty map.
    pub fn new() -> (m: Self)
        ensures
            m.wf(),
            m.view() == Map::<Seq<char>, V::V>::empty(),
    {
        let m = NameMap { keys: Vec::new(), vals: Vec::new() };
        assert(m.view() =~= Map::<Seq<char>, V::V>::empty());
        m
    }

    /// The number of entries.
    pub fn len(&self) -> (n: usize)
        requires
            self.wf(),
        ensures
            n == self.key_views().len(),
    {
        self.keys.len()
    }

    /// The name of the entry at position `i`.
    pub fn key_at(&self, i: usize) -> (k: &String)
        requires
            self.wf(),
            i < self.key_views().len(),
        ensures
            k@ == self.key_views()[i as int],
    {
        &self.keys[i]
    }

    /// The value of the entry at position `i`.
    pub fn value_at(&self, i: usize) -> (v: &V)
        requires
            self.wf(),
            i < self.key_views().len(),
        ensures
            v@ == self.value_views()[i as int],
            v@ == self.view()[self.key_views()[i as int]],
    {
        proof { self.lemma_entries(); }
        &self.vals[i]
    }

    /// The position of `name`, if it has an entry.
    pub fn find(&self, name: &str) -> (r: Option<usize>)
        requires
            self.wf(),
        ensures
            r is Some <==> self.view().contains_key(name@),
            r matches Some(i) ==> i < self.key_views().len() && self.key_views()[i as int] == name@,
    {
        let mut i: usize = 0;
        while i < self.keys.len()
            invariant
                self.wf(),
                i <= self.keys@.len(),
                forall|j: int| 0 <= j < i ==> self.key_views()[j] != name@,
            decreases self.keys@.len() - i,
        {
            if str_eq(self.keys[i].as_str(), name) {
                assert(self.key_views()[i as int] == name@);
                assert(self.key_views().contains(name@));
                return Some(i);
            }
            i = i + 1;
        }
        proof {
            if self.key_views().contains(name@) {
                let k = choose|k: int| 0 <= k < self.key_views().len() && self.key_views()[k] == name@;
                assert(self.key_views()[k] == name@);
            }
        }
        None
    }

    /// Whether `name` has an entry.
    pub fn contains(&self, name: &str) -> (b: bool)
        requires
            self.wf(),
        ensures
            b == self.view().contains_key(name@),
    {
        self.find(name).is_some()
    }

    /// The value of `name`, if it has an entry.
    pub fn get(&self, name: &str) -> (r: Option<&V>)
        requires
            self.wf(),
        ensures
            r is Some <==> self.view().contains_key(name@),
            r matches Some(v) ==> v@ == self.view()[name@],
    {
        match self.find(name) {
            Some(i) => Some(self.value_at(i)),
            None => None,
        }
    }

    /// Adds an entry for a name that has none.
    pub fn insert_new(&mut self, name: String, value: V)
        requires
            old(self).wf(),
            !old(self).view().contains_key(name@),
        ensures
            final(self).wf(),
            final(self).view() == old(self).view().insert(name@, value@),
    {
        proof { old(self).lemma_entries(); }
        let ghost k0 = self.key_views();
        let ghost v0 = self.vals@;
        let ghost nv = name@;
        let ghost vv = value@;
        self.keys.push(name);
        self.vals.push(value);
        proof {
            let k1 = self.key_views();
            assert(k1 =~= k0.push(nv));
            assert forall|a: int, b: int| 0 <= a < b < k1.len() implies k1[a] != k1[b] by {
                if b == k0.len() {
                    assert(k1[a] == k0[a]);
                    assert(k0.contains(k0[a]));
                } else {
                    assert(k1[a] == k0[a] && k1[b] == k0[b]);
                }
            }
            assert forall|k: Seq<char>| #[trigger] self.view().contains_key(k)
                <==> old(self).view().insert(nv, vv).contains_key(k) by {
                if k1.contains(k) {
                    let j = choose|j: int| 0 <= j < k1.len() && k1[j] == k;
                    if j < k0.len() { assert(k0[j] == k); }
                }
                if k0.contains(k) {
                    let j = choose|j: int| 0 <= j < k0.len() && k0[j] == k;
                    assert(k1[j] == k);
                }
                if k == nv { assert(k1[k0.len() as int] == k); }
            }
            assert forall|k: Seq<char>| #[trigger] self.view().contains_key(k) implies
                self.view()[k] == old(self).view().insert(nv, vv)[k] by {
                let j = choose|j: int| 0 <= j < k1.len() && k1[j] == k;
                lemma_index_of_distinct(k1, j);
                if j < k0.len() {
                    assert(k0[j] == k);
                    lemma_index_of_distinct(k0, j);
                }
            }
            assert(self.view() =~= old(self).view().insert(nv, vv));
        }
    }

    /// Puts `value` in the place of the value at position `i`; returns the value
    /// that was there.
    pub fn replace_at(&mut self, i: usize, value: V) -> (previous: V)
        requires
            old(self).wf(),
            i < old(self).key_views().len(),
        ensures
            final(self).wf(),
            final(self).key_views() == old(self).key_views(),
            previous@ == old(self).view()[old(self).key_views()[i as int]],
            final(self).view() == old(self).view().insert(old(self).key_views()[i as int], value@),
    {
        proof { old(self).lemma_entries(); }
        let ghost vv = value@;
        let mut slot = value;
        self.vals.set_and_swap(i, &mut slot);
        proof {
            let ks = self.key_views();
            assert(self.vals@ =~= old(self).vals@.update(i as int, value));
            assert forall|k: Seq<char>| #[trigger] self.view().contains_key(k) implies
                self.view()[k] == old(self).view().insert(ks[i as int], vv)[k] by {
                let j = choose|j: int| 0 <= j < ks.len() && ks[j] == k;
                lemma_index_of_distinct(ks, j);
                if j != i {
                    assert(ks[j] != ks[i as int]);
                }
            }
            assert(ks.contains(ks[i as int]));
            assert(self.view() =~= old(self).view().insert(ks[i as int], vv));
        }
        slot
    }

    /// Removes the entry of `name`, if there is one.
    pub fn remove(&mut self, name: &str)
        requires
            old(self).wf(),
        ensures
            final(self).wf(),
            final(self).view() == old(self).view().remove(name@),
    {
        proof { old(self).lemma_entries(); }
        match self.find(name) {
            Some(i) => {
                let ghost k0 = self.key_views();
                let ghost v0 = self.vals@;
                self.keys.remove(i);
                self.vals.remove(i);
                proof {
                    let k1 = self.key_views();
                    assert(k1 =~= k0.remove(i as int));
                    assert(self.vals@ =~= v0.remove(i as int));
                    assert forall|a: int, b: int| 0 <= a < b < k1.len() implies k1[a] != k1[b] by {
                        if a >= i { assert(k0[a + 1] != k0[b + 1]); }
                        else if b >= i { assert(k0[a] != k0[b + 1]); }
                        else { assert(k0[a] != k0[b]); }
                    }
                    assert forall|k: Seq<char>| #[trigger] self.view().contains_key(k)
                        <==> old(self).view().remove(name@).contains_key(k) by {
                        if k1.contains(k) {
                            let j = choose|j: int| 0 <= j < k1.len() && k1[j] == k;
                            if j < i { assert(k0[j] == k); } else { assert(k0[j + 1] == k); }
                        }
                        if k0.contains(k) && k != name@ {
                            let j = choose|j: int| 0 <= j < k0.len() && k0[j] == k;
                            if j < i { assert(k1[j] == k); } else { assert(k1[j - 1] == k); }
                        }
                    }
                    assert forall|k: Seq<char>| #[trigger] self.view().contains_key(k) implies
                        self.view()[k] == old(self).view()[k] by {
                        let j = choose|j: int| 0 <= j < k1.len() && k1[j] == k;
                        lemma_index_of_distinct(k1, j);
                        if j < i {
                            assert(k0[j] == k);
                            lemma_index_of_distinct(k0, j);
                        } else {
                            assert(k0[j + 1] == k);
                            lemma_index_of_distinct(k0, j + 1);
                        }
                    }
                    assert(self.view() =~= old(self).view().remove(name@));
                }
            },
            None => {
                assert(self.view() =~= self.view().remove(name@));
            },
        }
    }
}

/// In a sequence with no repetitions, the position of an element is the one
/// it is found at.
pub proof fn lemma_index_of_distinct<A>(s: Seq<A>, i: int)
    requires
        s.no_duplicates(),
        0 <= i < s.len(),
    ensures
        s.contains(s[i]),
        s.index_of(s[i]) == i,
{
    assert(s.contains(s[i]));
    let j = s.index_of(s[i]);
    assert(0 <= j < s.len() && s[j] == s[i]);
}

} // verus!
