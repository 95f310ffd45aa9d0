//! A set of strings kept as a duplicate-free vector.
use vstd::prelude::*;

verus! {

/// Strings held without repetition; viewed as a set of character sequences.
pub struct KeySet {
    keys: Vec<String>,
}

impl KeySet {
    /// The stored strings, in storage order.
    pub closed spec fn items(&self) -> Seq<Seq<char>> {
        self.keys@.map_values(|s: String| s@)
    }

    pub closed spec fn wf(&self) -> bool {
        self.items().no_duplicates()
    }

    pub open spec fn view(&self) -> Set<Seq<char>> {
        self.items().to_set()
    }

    pub fn new() -> (r: KeySet)
        ensures
            r.wf(),
            r.view() == Set::<Seq<char>>::empty(),
    {
        let r = KeySet { keys: Vec::new() };
        assert(r.items() =~= Seq::<Seq<char>>::empty());
        assert(r.view() =~= Set::<Seq<char>>::empty());
        r
    }

    fn find(&self, key: &String) -> (r: Option<usize>)
        ensures
            r matches Some(i) ==> i < self.items().len() && self.items()[i as int] == key@,
            r is None ==> !self.items().contains(key@),
    {
        let mut i: usize = 0;
        while i < self.keys.len()
            invariant
                i <= self.keys@.len(),
                forall|j: int| 0 <= j < i ==> self.items()[j] != key@,
            decreases self.keys@.len() - i,
        {
            if self.keys[i] == *key {
                return Some(i);
            }
            i = i + 1;
        }
        None
    }

    pub fn contains(&self, key: &String) -> (r: bool)
        ensures
            r == self.view().contains(key@),
    {
        self.find(key).is_some()
    }

    pub fn len(&self) -> (r: usize)
        requires
            self.wf(),
        ensures
            r == self.view().len(),
    {
        proof {
            self.items().unique_seq_to_set();
        }
        self.keys.len()
    }

    /// Adds `key`; a key already present is kept once.
    pub fn insert(&mut self, key: String)
        requires
            old(self).wf(),
        ensures
            final(self).wf(),
            final(self).view() == old(self).view().insert(key@),
    {
        if self.find(&key).is_none() {
            let ghost k = key@;
            let ghost before = self.items();
            self.keys.push(key);
            proof {
                assert(self.items() =~= before.push(k));
                before.lemma_push_to_set_commute(k);
            }
        } else {
            assert(self.view().insert(key@) =~= self.view());
        }
    }

    /// A copy of the stored strings, each once.
    pub fn to_vec(&self) -> (r: Vec<String>)
        requires
            self.wf(),
        ensures
            r@.map_values(|s: String| s@).no_duplicates(),
            r@.map_values(|s: String| s@).to_set() == self.view(),
    {
        let mut r: Vec<String> = Vec::new();
        let mut i: usize = 0;
        while i < self.keys.len()
            invariant
                i <= self.keys@.len(),
                r@.map_values(|s: String| s@) == self.items().subrange(0, i as int),
            decreases self.keys@.len() - i,
        {
            let ghost before = r@;
            let c = String::from_str(self.keys[i].as_str());
            r.push(c);
            proof {
                assert(r@ == before.push(c));
                assert(c@ == self.items()[i as int]);
                assert(r@.map_values(|s: String| s@) =~= before.map_values(|s: String| s@).push(c@));
                assert(self.items().subrange(0, i as int + 1) =~= self.items().subrange(0, i as int).push(
                    self.items()[i as int],
                ));
            }
            i = i + 1;
        }
        assert(self.items().subrange(0, self.keys@.len() as int) =~= self.items());
        r
    }

    /// The stored strings, each once.
    pub fn into_vec(self) -> (r: Vec<String>)
        requires
            self.wf(),
        ensures
            r@.map_values(|s: String| s@).no_duplicates(),
            r@.map_values(|s: String| s@).to_set() == self.view(),
    {
        self.keys
    }

    /// Removes `key`; tells whether it was present.
    pub fn remove(&mut self, key: &String) -> (r: bool)
        requires
            old(self).wf(),
        ensures
            final(self).wf(),
            r == old(self).view().contains(key@),
            final(self).view() == old(self).view().remove(key@),
    {
        match self.find(key) {
            None => {
                assert(self.view().remove(key@) =~= self.view());
                false
            },
            Some(i) => {
                let ghost before = self.items();
                self.keys.remove(i);
                proof {
                    let after = self.items();
                    assert(after =~= before.remove(i as int));
                    assert forall|a: int, b: int|
                        0 <= a < after.len() && 0 <= b < after.len() && a != b implies after[a]
                        != after[b] by {
                        let a0 = if a < i { a } else { a + 1 };
                        let b0 = if b < i { b } else { b + 1 };
                        assert(after[a] == before[a0]);
                        assert(after[b] == before[b0]);
                    }
                    assert forall|x: Seq<char>| after.to_set().contains(x) <==> before.to_set().remove(
                        key@,
                    ).contains(x) by {
                        if after.contains(x) {
                            let a = choose|a: int| 0 <= a < after.len() && after[a] == x;
                            let a0 = if a < i { a } else { a + 1 };
                            assert(before[a0] == x);
                            assert(a0 != i);
                        }
                        if before.contains(x) && x != key@ {
                            let a0 = choose|a: int| 0 <= a < before.len() && before[a] == x;
                            assert(a0 != i);
                            let a = if a0 < i { a0 } else { a0 - 1 };
                            assert(after[a] == x);
                        }
                    }
                    assert(after.to_set() =~= before.to_set().remove(key@));
                }
                true
            },
        }
    }
}

} // verus!
