//! A small map from provider names to values, kept as two parallel vectors.
//!
//! Its model is a `Map` from the name, as a sequence of characters, to the
//! view of the value. No name occurs twice, and an entry, once made, keeps
//! its place.

use vstd::prelude::*;
use vstd::string::*;

verus! {

pub struct NameTable<V> {
    pub(crate) names: Vec<String>,
    pub(crate) values: Vec<V>,
}

impl<V: View> NameTable<V> {
    /// Validity: one value per name, and no name twice.
    pub open(crate) spec fn wf(&self) -> bool {
        &&& self.names.len() == self.values.len()
        &&& forall|i: int, j: int|
            0 <= i < j < self.names.len() ==> self.names[i]@ != self.names[j]@
    }

    /// Number of entries.
    pub open(crate) spec fn count(&self) -> nat {
        self.values.len() as nat
    }

    /// The values, in the order in which their entries were made.
    pub open(crate) spec fn items(&self) -> Seq<V> {
        self.values@
    }

    /// Whether `key` has an entry.
    pub open(crate) spec fn has(&self, key: Seq<char>) -> bool {
        exists|i: int| 0 <= i < self.names.len() && self.names[i]@ == key
    }

    /// The place of `key`'s entry.
    pub open(crate) spec fn slot(&self, key: Seq<char>) -> int {
        choose|i: int| 0 <= i < self.names.len() && self.names[i]@ == key
    }

    /// The table as a map from names to the views of their values.
    pub open(crate) spec fn views(&self) -> Map<Seq<char>, V::V> {
        Map::new(|key: Seq<char>| self.has(key), |key: Seq<char>| self.values[self.slot(key)]@)
    }

    /// The place of a name that has an entry holds that name.
    pub(crate) proof fn lemma_slot(&self, key: Seq<char>)
        requires
            self.views().dom().contains(key),
        ensures
            self.has(key),
            0 <= self.slot(key) < self.names.len(),
            self.names[self.slot(key)]@ == key,
    {
    }

    /// What holds of the entry at place `i`.
    pub(crate) proof fn lemma_entry(&self, i: int)
        requires
            self.wf(),
            0 <= i < self.names.len(),
        ensures
            self.views().dom().contains(self.names[i]@),
            self.views()[self.names[i]@] == self.values[i]@,
    {
        let key = self.names[i]@;
        assert(self.has(key));
        let s = self.slot(key);
        assert(0 <= s < self.names.len() && self.names[s]@ == key);
        if s < i {
            assert(self.names[s]@ != self.names[i]@);
        }
        if i < s {
            assert(self.names[i]@ != self.names[s]@);
        }
    }

    /// A table whose names are those of `self` and whose values differ from
    /// it at most at place `i` is `self` with that one entry replaced.
    pub(crate) proof fn lemma_entry_changed(&self, after: &NameTable<V>, i: int)
        requires
            self.wf(),
            0 <= i < self.names.len(),
            after.names@ == self.names@,
            after.values.len() == self.values.len(),
            forall|j: int| 0 <= j < self.values.len() && j != i ==> after.values[j]@ == self.values[j]@,
        ensures
            after.wf(),
            after.views() == self.views().insert(self.names[i]@, after.values[i]@),
    {
        assert forall|key: Seq<char>| after.has(key) == self.has(key) by {
            if self.has(key) {
                let s = self.slot(key);
                assert(0 <= s < after.names.len() && after.names[s]@ == key);
            }
            if after.has(key) {
                let s = after.slot(key);
                assert(0 <= s < self.names.len() && self.names[s]@ == key);
            }
        }
        assert forall|key: Seq<char>| self.has(key) implies after.slot(key) == self.slot(key) by {
            let s = self.slot(key);
            let t = after.slot(key);
            assert(0 <= s < self.names.len() && self.names[s]@ == key);
            assert(after.has(key));
            assert(0 <= t < after.names.len() && after.names[t]@ == key);
            if s < t {
                assert(self.names[s]@ != self.names[t]@);
            }
            if t < s {
                assert(self.names[t]@ != self.names[s]@);
            }
        }
        self.lemma_entry(i);
        assert(after.views() =~= self.views().insert(self.names[i]@, after.values[i]@)) by {
            assert forall|key: Seq<char>| self.has(key) && key != self.names[i]@ implies after.values[after.slot(
                key,
            )]@ == self.values[self.slot(key)]@ by {
                let s = self.slot(key);
                assert(0 <= s < self.names.len() && self.names[s]@ == key);
            }
        }
    }

    /// An empty table.
    pub fn new() -> (r: NameTable<V>)
        ensures
            r.wf(),
            r.count() == 0,
            r.views() == Map::<Seq<char>, V::V>::empty(),
    {
        let r = NameTable { names: Vec::new(), values: Vec::new() };
        assert(r.views() =~= Map::<Seq<char>, V::V>::empty());
        r
    }

    /// The place of `name`'s entry, if it has one.
    pub(crate) fn position(&self, name: &str) -> (r: Option<usize>)
        requires
            self.wf(),
        ensures
            match r {
                Some(i) => {
                    &&& i < self.values.len()
                    &&& self.names[i as int]@ == name@
                    &&& self.views().dom().contains(name@)
                    &&& self.views()[name@] == self.values[i as int]@
                },
                None => !self.views().dom().contains(name@),
            },
    {
        let key = name.to_owned();
        let mut i: usize = 0;
        while i < self.names.len()
            invariant
                self.wf(),
                key@ == name@,
                i <= self.names.len(),
                forall|j: int| 0 <= j < i ==> self.names[j]@ != name@,
            decreases self.names.len() - i,
        {
            if self.names[i] == key {
                proof {
                    self.lemma_entry(i as int);
                }
                return Some(i);
            }
            i = i + 1;
        }
        assert(!self.has(name@));
        None
    }

    /// Whether `name` has an entry.
    pub fn contains_name(&self, name: &str) -> (r: bool)
        requires
            self.wf(),
        ensures
            r == self.views().dom().contains(name@),
    {
        self.position(name).is_some()
    }

    /// Adds an entry for a name that has none, and gives its place.
    pub(crate) fn push_new(&mut self, name: &str, value: V) -> (i: usize)
        requires
            old(self).wf(),
            !old(self).views().dom().contains(name@),
        ensures
            final(self).wf(),
            final(self).views() == old(self).views().insert(name@, value@),
            i < final(self).values.len(),
            final(self).names[i as int]@ == name@,
            final(self).values[i as int] == value,
            final(self).values.len() == old(self).values.len() + 1,
            forall|j: int| 0 <= j < old(self).values.len() ==> final(self).values[j] == old(self).values[j],
            forall|j: int| 0 <= j < old(self).values.len() ==> final(self).names[j] == old(self).names[j],
    {
        let ghost before = *self;
        let i = self.values.len();
        self.names.push(name.to_owned());
        self.values.push(value);
        proof {
            assert forall|a: int, b: int| 0 <= a < b < self.names.len() implies self.names[a]@
                != self.names[b]@ by {
                if b == i {
                    if before.names[a]@ == name@ {
                        assert(before.has(name@));
                    }
                }
            }
            assert forall|key: Seq<char>| self.has(key) == (before.has(key) || key == name@) by {
                if before.has(key) {
                    let s = before.slot(key);
                    assert(0 <= s < self.names.len() && self.names[s]@ == key);
                }
                if key == name@ {
                    assert(0 <= i < self.names.len() && self.names[i as int]@ == key);
                }
                if self.has(key) {
                    let s = self.slot(key);
                    if s < i {
                        assert(0 <= s < before.names.len() && before.names[s]@ == key);
                    }
                }
            }
            assert forall|key: Seq<char>| self.has(key) implies self.values[self.slot(key)]@ == (
            if key == name@ {
                value@
            } else {
                before.values[before.slot(key)]@
            }) by {
                let s = self.slot(key);
                assert(0 <= s < self.names.len() && self.names[s]@ == key);
                if key == name@ {
                    if s < i {
                        assert(self.names[s]@ != self.names[i as int]@);
                    }
                } else {
                    assert(before.has(key));
                    let t = before.slot(key);
                    assert(0 <= t < before.names.len() && before.names[t]@ == key);
                    if s < t {
                        assert(self.names[s]@ != self.names[t]@);
                    }
                    if t < s {
                        assert(self.names[t]@ != self.names[s]@);
                    }
                }
            }
            assert(self.views() =~= before.views().insert(name@, value@));
        }
        i
    }
}

impl<V: View + Copy> NameTable<V> {
    /// The value kept for `name`, if there is one.
    pub fn get(&self, name: &str) -> (r: Option<V>)
        requires
            self.wf(),
        ensures
            match r {
                Some(v) => self.views().dom().contains(name@) && self.views()[name@] == v@,
                None => !self.views().dom().contains(name@),
            },
    {
        match self.position(name) {
            Some(i) => Some(self.values[i]),
            None => None,
        }
    }

    /// Sets the value kept for `name`, adding the entry if there is none.
    pub fn insert(&mut self, name: &str, value: V)
        requires
            old(self).wf(),
        ensures
            final(self).wf(),
            final(self).views() == old(self).views().insert(name@, value@),
            old(self).views().dom().contains(name@) ==> 0 <= old(self).slot(name@) < old(self).count()
                && final(self).items() == old(self).items().update(old(self).slot(name@), value),
            !old(self).views().dom().contains(name@) ==> final(self).items() == old(self).items().push(
                value,
            ),
    {
        let ghost before = *self;
        proof {
            if before.views().dom().contains(name@) {
                before.lemma_slot(name@);
            }
        }
        match self.position(name) {
            Some(i) => {
                proof {
                    let k = before.slot(name@);
                    if k < i {
                        assert(before.names[k]@ != before.names[i as int]@);
                    }
                    if i < k {
                        assert(before.names[i as int]@ != before.names[k]@);
                    }
                }
                self.values.set(i, value);
                proof {
                    before.lemma_entry_changed(&*self, i as int);
                    assert(self.items() =~= before.items().update(i as int, value));
                }
            },
            None => {
                let _ = self.push_new(name, value);
                assert(self.items() =~= before.items().push(value));
            },
        }
    }
}

} // verus!
