//! A finite set of user names kept in a vector with no repetitions.

use vstd::prelude::*;

verus! {

/// The names held as a sequence of character sequences.
pub open spec fn name_seq(v: Seq<String>) -> Seq<Seq<char>> {
    v.map_values(|s: String| s@)
}

/// A set of names; no name occurs twice in `names`.
pub struct NameSet {
    names: Vec<String>,
}

impl NameSet {
    #[verifier::type_invariant]
    spec fn distinct(self) -> bool {
        name_seq(self.names@).no_duplicates()
    }

    pub closed spec fn view(&self) -> Set<Seq<char>> {
        name_seq(self.names@).to_set()
    }

    /// The empty set.
    pub fn new() -> (s: NameSet)
        ensures
            s.view() == Set::<Seq<char>>::empty(),
    {
        let s = NameSet { names: Vec::new() };
        assert(s.view() =~= Set::<Seq<char>>::empty());
        s
    }

    fn position(&self, name: &str) -> (r: Option<usize>)
        ensures
            match r {
                Some(i) => i < self.names@.len() && self.names@[i as int]@ == name@,
                None => !name_seq(self.names@).contains(name@),
            },
    {
        let mut i: usize = 0;
        while i < self.names.len()
            invariant
                i <= self.names@.len(),
                forall|j: int| 0 <= j < i ==> self.names@[j]@ != name@,
            decreases self.names@.len() - i,
        {
            let candidate: &str = self.names[i].as_str();
            if str_eq(candidate, name) {
                return Some(i);
            }
            i = i + 1;
        }
        proof {
            if name_seq(self.names@).contains(name@) {
                let k = choose|k: int| 0 <= k < name_seq(self.names@).len() && name_seq(self.names@)[k] == name@;
                assert(self.names@[k]@ == name@);
            }
        }
        None
    }

    /// Whether `name` belongs to the set.
    pub fn contains(&self, name: &str) -> (b: bool)
        ensures
            b == self.view().contains(name@),
    {
        match self.position(name) {
            Some(i) => {
                assert(name_seq(self.names@)[i as int] == name@);
                true
            },
            None => false,
        }
    }

    /// Adds `name`; returns whether it was absent before.
    pub fn insert(&mut self, name: String) -> (added: bool)
        ensures
            added == !old(self).view().contains(name@),
            final(self).view() == old(self).view().insert(name@),
    {
        proof { use_type_invariant(&*self); }
        let present = self.contains(name.as_str());
        if present {
            assert(self.view() =~= self.view().insert(name@));
            false
        } else {
            let ghost before = self.names@;
            let mut names: Vec<String> = Vec::new();
            std::mem::swap(&mut names, &mut self.names);
            names.push(name);
            proof {
                let s0 = name_seq(before);
                let s1 = name_seq(names@);
                assert(s1 =~= s0.push(name@));
                assert(!s0.contains(name@));
                assert forall|a: int, b: int| 0 <= a < b < s1.len() implies s1[a] != s1[b] by {
                    if b == s0.len() {
                        assert(s1[a] == s0[a]);
                    } else {
                        assert(s1[a] == s0[a] && s1[b] == s0[b]);
                    }
                }
                assert forall|x: Seq<char>| #[trigger] s1.to_set().contains(x)
                    <==> s0.to_set().insert(name@).contains(x) by {
                    if s1.contains(x) {
                        let k = choose|k: int| 0 <= k < s1.len() && s1[k] == x;
                        if k < s0.len() { assert(s0[k] == x); }
                    }
                    if s0.contains(x) {
                        let k = choose|k: int| 0 <= k < s0.len() && s0[k] == x;
                        assert(s1[k] == x);
                    }
                    if x == name@ {
                        assert(s1[s0.len() as int] == x);
                    }
                }
                assert(s1.to_set() =~= s0.to_set().insert(name@));
            }
            self.names = names;
            true
        }
    }

    /// Removes `name`; returns whether it was present before.
    pub fn remove(&mut self, name: &str) -> (removed: bool)
        ensures
            removed == old(self).view().contains(name@),
            final(self).view() == old(self).view().remove(name@),
    {
        proof { use_type_invariant(&*self); }
        match self.position(name) {
            Some(i) => {
                let ghost before = name_seq(self.names@);
                let mut names: Vec<String> = Vec::new();
                std::mem::swap(&mut names, &mut self.names);
                names.remove(i);
                proof {
                    assert(name_seq(names@) =~= before.remove(i as int));
                    assert forall|a: int, b: int| 0 <= a < b < name_seq(names@).len() implies
                        name_seq(names@)[a] != name_seq(names@)[b] by {
                        if a >= i { assert(before[a + 1] != before[b + 1]); }
                        else if b >= i { assert(before[a] != before[b + 1]); }
                        else { assert(before[a] != before[b]); }
                    }
                }
                self.names = names;
                assert(name_seq(self.names@) =~= before.remove(i as int));
                proof {
                    assert(before[i as int] == name@);
                    assert forall|x: Seq<char>| #[trigger] name_seq(self.names@).to_set().contains(x)
                        <==> before.to_set().remove(name@).contains(x) by {
                        if name_seq(self.names@).contains(x) {
                            let k = choose|k: int| 0 <= k < name_seq(self.names@).len() && name_seq(self.names@)[k] == x;
                            if k < i { assert(before[k] == x); } else { assert(before[k + 1] == x); }
                        }
                        if before.contains(x) && x != name@ {
                            let k = choose|k: int| 0 <= k < before.len() && before[k] == x;
                            if k < i { assert(name_seq(self.names@)[k] == x); } else { assert(name_seq(self.names@)[k - 1] == x); }
                        }
                    }
                }
                assert(self.view() =~= old(self).view().remove(name@));
                true
            },
            None => {
                assert(self.view() =~= self.view().remove(name@));
                false
            },
        }
    }
}

/// Character-wise equality of two string slices.
pub fn str_eq(a: &str, b: &str) -> (r: bool)
    ensures
        r == (a@ == b@),
{
    let n = a.unicode_len();
    if n != b.unicode_len() {
        return false;
    }
    let mut i: usize = 0;
    while i < n
        invariant
            n == a@.len(),
            n == b@.len(),
            i <= n,
            forall|j: int| 0 <= j < i ==> a@[j] == b@[j],
        decreases n - i,
    {
        if a.get_char(i) != b.get_char(i) {
            return false;
        }
        i = i + 1;
    }
    assert(a@ =~= b@);
    true
}

} // verus!
