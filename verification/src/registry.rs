//! A small table from names to values, in which a name occurs at most once.

use vstd::prelude::*;

verus! {

/// Values filed under names. The table is viewed as a map from the
/// characters of a name to the value that is filed under it.
pub struct Registry<V> {
    names: Vec<String>,
    values: Vec<V>,
}

impl<V> Registry<V> {
    /// As many names as values, and no name twice.
    pub closed spec fn wf(&self) -> bool {
        &&& self.names@.len() == self.values@.len()
        &&& forall|i: int, j: int|
            0 <= i < j < self.names@.len() ==> self.names@[i]@ != self.names@[j]@
    }

    /// Some entry is filed under `name`.
    spec fn holds(&self, name: Seq<char>) -> bool {
        exists|i: int| 0 <= i < self.names@.len() && #[trigger] self.names@[i]@ == name
    }

    /// The place of the entry filed under `name`.
    spec fn place(&self, name: Seq<char>) -> int {
        choose|i: int| 0 <= i < self.names@.len() && #[trigger] self.names@[i]@ == name
    }

    /// The map from names to the values filed under them.
    pub closed spec fn map(&self) -> Map<Seq<char>, V> {
        Map::new(
            |name: Seq<char>| self.holds(name),
            |name: Seq<char>| self.values@[self.place(name)],
        )
    }

    /// In a well-formed table the value at place `i` is what the map holds for
    /// the name at place `i`.
    proof fn lemma_entry(&self, i: int)
        requires
            self.wf(),
            0 <= i < self.names@.len(),
        ensures
            self.map().dom().contains(self.names@[i]@),
            self.map()[self.names@[i]@] == self.values@[i],
    {
        let name = self.names@[i]@;
        assert(self.holds(name));
        let p = self.place(name);
        if p < i {
            assert(self.names@[p]@ != self.names@[i]@);
        } else if i < p {
            assert(self.names@[i]@ != self.names@[p]@);
        }
    }

    /// A table in which one value has been changed in place holds the new value
    /// under the name of the old one, and is otherwise as it was.
    proof fn lemma_replaced(&self, after: Self, i: int)
        requires
            self.wf(),
            0 <= i < self.names@.len(),
            after.names@ == self.names@,
            after.values@ == self.values@.update(i, after.values@[i]),
        ensures
            after.wf(),
            after.map() == self.map().insert(self.names@[i]@, after.values@[i]),
    {
        assert forall|n: Seq<char>| after.holds(n) == self.holds(n) by {}
        assert forall|n: Seq<char>| #[trigger]
            after.map().dom().contains(n) implies after.map()[n] == self.map().insert(
            self.names@[i]@,
            after.values@[i],
        )[n] by {
            let p = after.place(n);
            after.lemma_entry(p);
            self.lemma_entry(p);
        }
        self.lemma_entry(i);
        assert(after.map() =~= self.map().insert(self.names@[i]@, after.values@[i]));
    }

    /// An empty table.
    pub fn new() -> (registry: Self)
        ensures
            registry.wf(),
            registry.map() == Map::<Seq<char>, V>::empty(),
    {
        let registry = Registry { names: Vec::new(), values: Vec::new() };
        assert(registry.map() =~= Map::<Seq<char>, V>::empty());
        registry
    }

    /// The place of `name`, if an entry is filed under it.
    fn find(&self, name: &String) -> (found: Option<usize>)
        requires
            self.wf(),
        ensures
            match found {
                Some(i) => i < self.names@.len() && self.names@[i as int]@ == name@,
                None => !self.map().dom().contains(name@),
            },
    {
        let count: usize = self.names.len();
        let mut i: usize = 0;
        while i < count
            invariant
                i <= count,
                count == self.names@.len(),
                forall|k: int| 0 <= k < i ==> self.names@[k]@ != name@,
            decreases count - i,
        {
            if self.names[i] == *name {
                return Some(i);
            }
            i += 1;
        }
        None
    }

    /// Says whether an entry is filed under `name`.
    pub fn contains(&self, name: &str) -> (found: bool)
        requires
            self.wf(),
        ensures
            found == self.map().dom().contains(name@),
    {
        let owned: String = name.to_owned();
        match self.find(&owned) {
            Some(i) => {
                proof {
                    self.lemma_entry(i as int);
                }
                true
            },
            None => false,
        }
    }

    /// The value filed under `name`, if there is one.
    pub fn get(&self, name: &str) -> (value: Option<&V>)
        requires
            self.wf(),
        ensures
            match value {
                Some(v) => self.map().dom().contains(name@) && *v == self.map()[name@],
                None => !self.map().dom().contains(name@),
            },
    {
        let owned: String = name.to_owned();
        match self.find(&owned) {
            Some(i) => {
                proof {
                    self.lemma_entry(i as int);
                }
                Some(&self.values[i])
            },
            None => None,
        }
    }

    /// The value filed under `name`, if there is one, to be changed in place:
    /// the table then holds what the caller leaves there, and is otherwise as
    /// it was.
    pub fn get_mut(&mut self, name: &str) -> (value: Option<&mut V>)
        requires
            old(self).wf(),
        ensures
            final(self).wf(),
            match value {
                Some(v) => {
                    &&& old(self).map().dom().contains(name@)
                    &&& *v == old(self).map()[name@]
                    &&& final(self).map() == old(self).map().insert(name@, *final(v))
                },
                None => {
                    &&& !old(self).map().dom().contains(name@)
                    &&& final(self).map() == old(self).map()
                },
            },
    {
        let owned: String = name.to_owned();
        match self.find(&owned) {
            Some(i) => {
                proof {
                    self.lemma_entry(i as int);
                    let before = *self;
                    assert forall|after: Self|
                        #![trigger after.wf()]
                        #![trigger after.map()]
                        after.names@ == before.names@ && after.values@ == before.values@.update(
                            i as int,
                            after.values@[i as int],
                        ) implies after.wf() && after.map() == before.map().insert(
                        name@,
                        after.values@[i as int],
                    ) by {
                        before.lemma_replaced(after, i as int);
                    }
                }
                Some(&mut self.values[i])
            },
            None => None,
        }
    }

    /// Files `value` under `name`, in place of what was filed there before.
    pub fn insert(&mut self, name: &str, value: V)
        requires
            old(self).wf(),
        ensures
            final(self).wf(),
            final(self).map() == old(self).map().insert(name@, value),
    {
        let owned: String = name.to_owned();
        let ghost before = *self;
        match self.find(&owned) {
            Some(i) => {
                self.values[i] = value;
                proof {
                    let after = *self;
                    assert(after.names@ == before.names@);
                    assert forall|n: Seq<char>| after.holds(n) == before.holds(n) by {}
                    assert forall|n: Seq<char>| #[trigger]
                        after.map().dom().contains(n) implies after.map()[n]
                        == before.map().insert(name@, value)[n] by {
                        let p = after.place(n);
                        after.lemma_entry(p);
                        before.lemma_entry(p);
                    }
                    before.lemma_entry(i as int);
                    assert(after.map() =~= before.map().insert(name@, value));
                }
            },
            None => {
                self.names.push(owned);
                self.values.push(value);
                proof {
                    let after = *self;
                    let last = before.names@.len() as int;
                    assert forall|k: int| 0 <= k < last implies before.names@[k]@ != name@ by {
                        before.lemma_entry(k);
                    }
                    assert(after.wf());
                    assert forall|n: Seq<char>| after.holds(n) == (before.holds(n) || n == name@) by {
                        if before.holds(n) {
                            let p = before.place(n);
                            assert(after.names@[p]@ == n);
                        }
                        if n == name@ {
                            assert(after.names@[last]@ == n);
                        }
                    }
                    assert forall|n: Seq<char>| #[trigger]
                        after.map().dom().contains(n) implies after.map()[n]
                        == before.map().insert(name@, value)[n] by {
                        let p = after.place(n);
                        after.lemma_entry(p);
                        if p < last {
                            before.lemma_entry(p);
                        }
                    }
                    assert(after.map() =~= before.map().insert(name@, value));
                }
            },
        }
    }

    /// Takes out the value filed under `name`, if there is one.
    pub fn remove(&mut self, name: &str) -> (value: Option<V>)
        requires
            old(self).wf(),
        ensures
            final(self).wf(),
            match value {
                Some(v) => {
                    &&& old(self).map().dom().contains(name@)
                    &&& v == old(self).map()[name@]
                    &&& final(self).map() == old(self).map().remove(name@)
                },
                None => {
                    &&& !old(self).map().dom().contains(name@)
                    &&& final(self).map() == old(self).map()
                },
            },
    {
        let owned: String = name.to_owned();
        let ghost before = *self;
        match self.find(&owned) {
            Some(i) => {
                let _gone: String = self.names.swap_remove(i);
                let value: V = self.values.swap_remove(i);
                proof {
                    let after = *self;
                    let last = before.names@.len() - 1;
                    before.lemma_entry(i as int);
                    assert forall|a: int, b: int| 0 <= a < b < after.names@.len() implies after.names@[a]@
                        != after.names@[b]@ by {
                        let pa = if a == i { last } else { a };
                        let pb = if b == i { last } else { b };
                        assert(after.names@[a] == before.names@[pa]);
                        assert(after.names@[b] == before.names@[pb]);
                        if pa < pb {
                            assert(before.names@[pa]@ != before.names@[pb]@);
                        } else {
                            assert(before.names@[pb]@ != before.names@[pa]@);
                        }
                    }
                    assert(after.wf());
                    assert forall|n: Seq<char>| after.holds(n) == (before.holds(n) && n != name@) by {
                        if after.holds(n) {
                            let p = after.place(n);
                            let q = if p == i { last } else { p };
                            assert(before.names@[q]@ == n);
                            if q < i {
                                assert(before.names@[q]@ != before.names@[i as int]@);
                            } else {
                                assert(before.names@[i as int]@ != before.names@[q]@);
                            }
                        }
                        if before.holds(n) && n != name@ {
                            let q = before.place(n);
                            let p = if q == last { i as int } else { q };
                            assert(after.names@[p]@ == n);
                        }
                    }
                    assert forall|n: Seq<char>| #[trigger]
                        after.map().dom().contains(n) implies after.map()[n] == before.map().remove(
                        name@,
                    )[n] by {
                        let p = after.place(n);
                        let q = if p == i { last } else { p };
                        after.lemma_entry(p);
                        before.lemma_entry(q);
                    }
                    assert(after.map() =~= before.map().remove(name@));
                }
                Some(value)
            },
            None => None,
        }
    }

    /// Says whether nothing is filed in the table.
    pub fn is_empty(&self) -> (empty: bool)
        requires
            self.wf(),
        ensures
            empty == self.map().dom().is_empty(),
    {
        let empty: bool = self.names.len() == 0;
        proof {
            if empty {
                assert(self.map().dom() =~= Set::<Seq<char>>::empty());
            } else {
                self.lemma_entry(0);
            }
        }
        empty
    }

    /// The names under which something is filed, each once, in no stated
    /// order.
    pub fn names(&self) -> (names: Vec<String>)
        requires
            self.wf(),
        ensures
            forall|i: int| 0 <= i < names@.len() ==> self.map().dom().contains(#[trigger] names@[i]@),
            forall|n: Seq<char>|
                self.map().dom().contains(n) ==> exists|i: int|
                    0 <= i < names@.len() && #[trigger] names@[i]@ == n,
            forall|i: int, j: int| 0 <= i < j < names@.len() ==> names@[i]@ != names@[j]@,
    {
        let count: usize = self.names.len();
        let mut names: Vec<String> = Vec::new();
        let mut i: usize = 0;
        while i < count
            invariant
                i <= count,
                count == self.names@.len(),
                names@.len() == i,
                forall|k: int| 0 <= k < i ==> #[trigger] names@[k]@ == self.names@[k]@,
            decreases count - i,
        {
            names.push(self.names[i].clone());
            i += 1;
        }
        proof {
            assert forall|k: int| 0 <= k < names@.len() implies self.map().dom().contains(
                #[trigger] names@[k]@,
            ) by {
                self.lemma_entry(k);
            }
            assert forall|n: Seq<char>| self.map().dom().contains(n) implies exists|k: int|
                0 <= k < names@.len() && #[trigger] names@[k]@ == n by {
                let p = self.place(n);
                assert(names@[p]@ == n);
            }
        }
        names
    }
}

} // verus!
