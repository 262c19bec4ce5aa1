//! A small map from names to values that keeps its entries in the order in
//! which the names first came.

use vstd::prelude::*;

verus! {

/// A map keyed by name. No name occurs twice.
pub struct NameMap<V> {
    pub names: Vec<String>,
    pub values: Vec<V>,
}

impl<V> NameMap<V> {
    /// There is a value for every name, and no name occurs twice.
    pub open spec fn wf(&self) -> bool {
        &&& self.names@.len() == self.values@.len()
        &&& forall|i: int, j: int|
            0 <= i < j < self.names@.len() ==> self.names@[i]@ != self.names@[j]@
    }

    /// Whether `name` has an entry.
    pub open spec fn contains(&self, name: Seq<char>) -> bool {
        exists|i: int| 0 <= i < self.names@.len() && self.names@[i]@ == name
    }

    /// The names that have an entry.
    pub open spec fn names(&self) -> Set<Seq<char>> {
        Set::new(|name: Seq<char>| self.contains(name))
    }

    /// The position of the entry of `name`.
    pub open spec fn position(&self, name: Seq<char>) -> int {
        choose|i: int| 0 <= i < self.names@.len() && self.names@[i]@ == name
    }

    /// The value entered for `name`.
    pub open spec fn value(&self, name: Seq<char>) -> V {
        self.values@[self.position(name)]
    }

    /// In a well-formed map, the entry at `i` is the entry of its name.
    pub proof fn lemma_position(&self, i: int)
        requires
            self.wf(),
            0 <= i < self.names@.len(),
        ensures
            self.contains(self.names@[i]@),
            self.position(self.names@[i]@) == i,
            self.value(self.names@[i]@) == self.values@[i],
    {
        let name = self.names@[i]@;
        let p = self.position(name);
        assert(0 <= p < self.names@.len() && self.names@[p]@ == name);
        if p < i {
            assert(self.names@[p]@ != self.names@[i]@);
        } else if i < p {
            assert(self.names@[i]@ != self.names@[p]@);
        }
    }

    /// A map without entries.
    pub fn new() -> (r: NameMap<V>)
        ensures
            r.wf(),
            r.names@.len() == 0,
            forall|name: Seq<char>| !r.contains(name),
    {
        NameMap { names: Vec::new(), values: Vec::new() }
    }

    /// The number of entries.
    pub fn len(&self) -> (r: usize)
        ensures
            r == self.names@.len(),
    {
        self.names.len()
    }

    /// The position of the entry of `name`, if it has one.
    pub fn find(&self, name: &str) -> (r: Option<usize>)
        requires
            self.wf(),
        ensures
            match r {
                Some(i) => self.contains(name@) && i == self.position(name@),
                None => !self.contains(name@),
            },
    {
        let key: String = name.to_owned();
        let mut i: usize = 0;
        while i < self.names.len()
            invariant
                self.wf(),
                key@ == name@,
                i <= self.names@.len(),
                forall|j: int| 0 <= j < i ==> self.names@[j]@ != name@,
            decreases self.names@.len() - i,
        {
            if self.names[i] == key {
                proof {
                    self.lemma_position(i as int);
                }
                return Some(i);
            }
            i += 1;
        }
        None
    }

    /// Whether `name` has an entry.
    pub fn contains_key(&self, name: &str) -> (r: bool)
        requires
            self.wf(),
        ensures
            r == self.contains(name@),
    {
        self.find(name).is_some()
    }

    /// The value entered for `name`, if there is one.
    pub fn get(&self, name: &str) -> (r: Option<&V>)
        requires
            self.wf(),
        ensures
            match r {
                Some(v) => self.contains(name@) && *v == self.value(name@),
                None => !self.contains(name@),
            },
    {
        match self.find(name) {
            Some(i) => Some(&self.values[i]),
            None => None,
        }
    }

    /// Enters `value` for `name`, in place of the value that `name` had, if
    /// any. Every other entry stays.
    pub fn insert(&mut self, name: &str, value: V)
        requires
            old(self).wf(),
        ensures
            final(self).wf(),
            final(self).contains(name@),
            final(self).value(name@) == value,
            forall|other: Seq<char>|
                other != name@ ==> (final(self).contains(other) == old(self).contains(other)),
            forall|other: Seq<char>|
                other != name@ && old(self).contains(other)
                    ==> final(self).value(other) == old(self).value(other),
            old(self).contains(name@) ==> final(self).names@ == old(self).names@,
            !old(self).contains(name@) ==> final(self).names@.len() == old(self).names@.len() + 1,
    {
        match self.find(name) {
            Some(i) => {
                self.values[i] = value;
                proof {
                    assert forall|other: Seq<char>|
                        other != name@ && old(self).contains(other) implies self.value(other)
                        == old(self).value(other) by {
                        let p = old(self).position(other);
                        assert(self.position(other) == p);
                    }
                }
            },
            None => {
                let key: String = name.to_owned();
                let ghost n = self.names@.len() as int;
                self.names.push(key);
                self.values.push(value);
                proof {
                    assert(self.names@[n]@ == name@);
                    assert(self.wf());
                    self.lemma_position(n);
                    assert forall|other: Seq<char>| other != name@ implies (self.contains(other)
                        == old(self).contains(other)) by {
                        if old(self).contains(other) {
                            let p = old(self).position(other);
                            assert(self.names@[p]@ == other);
                        }
                        if self.contains(other) {
                            let p = self.position(other);
                            assert(p != n);
                            assert(old(self).names@[p]@ == other);
                        }
                    }
                    assert forall|other: Seq<char>|
                        other != name@ && old(self).contains(other) implies self.value(other)
                        == old(self).value(other) by {
                        let p = old(self).position(other);
                        assert(self.names@[p]@ == other);
                        self.lemma_position(p);
                    }
                }
            },
        }
    }
}

} // verus!
