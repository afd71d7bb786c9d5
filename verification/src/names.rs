//! Values kept under names.

use crate::text::str_eq;
use vstd::prelude::*;
use vstd::string::*;

verus! {

/// Values kept under names, each name once, in the order in which the names
/// came in.
#[derive(Debug)]
pub struct Named<V> {
    entries: Vec<(String, V)>,
}

/// The position of `name` among `names`, where it is one of them.
pub open spec fn position_of(names: Seq<Seq<char>>, name: Seq<char>) -> Option<int> {
    if names.contains(name) {
        Some(names.index_of(name))
    } else {
        None
    }
}

impl<V> Named<V> {
    #[verifier::type_invariant]
    spec fn names_differ(&self) -> bool {
        forall|i: int, j: int|
            0 <= i < j < self.entries@.len() ==> (#[trigger] self.entries@[i]).0@
                != (#[trigger] self.entries@[j]).0@
    }

    /// The names, in order.
    pub closed spec fn names(&self) -> Seq<Seq<char>> {
        self.entries@.map_values(|e: (String, V)| e.0@)
    }

    /// The values, each at the position of its name.
    pub closed spec fn values(&self) -> Seq<V> {
        self.entries@.map_values(|e: (String, V)| e.1)
    }

    /// The value kept under `name`, where there is one.
    pub open spec fn value_of(&self, name: Seq<char>) -> Option<V> {
        match position_of(self.names(), name) {
            Some(at) => Some(self.values()[at]),
            None => None,
        }
    }

    /// There is one value for each name.
    pub proof fn lemma_one_value_each(&self)
        ensures
            self.names().len() == self.values().len(),
    {
    }

    /// No names and no values.
    pub fn new() -> (r: Self)
        ensures
            r.names() == Seq::<Seq<char>>::empty(),
            r.values() == Seq::<V>::empty(),
    {
        let r = Named { entries: Vec::new() };
        assert(r.names() =~= Seq::<Seq<char>>::empty());
        assert(r.values() =~= Seq::<V>::empty());
        r
    }

    /// How many names there are. No name comes twice.
    pub fn len(&self) -> (r: usize)
        ensures
            r == self.names().len(),
            r == self.values().len(),
            self.names().no_duplicates(),
    {
        proof {
            use_type_invariant(self);
        }
        self.entries.len()
    }

    /// Whether there is no name.
    pub fn is_empty(&self) -> (r: bool)
        ensures
            r == (self.names().len() == 0),
    {
        self.entries.len() == 0
    }

    /// The name at position `at`.
    pub fn name_at(&self, at: usize) -> (r: &str)
        requires
            at < self.names().len(),
        ensures
            r@ == self.names()[at as int],
    {
        self.entries[at].0.as_str()
    }

    /// The value at position `at`.
    pub fn value_at(&self, at: usize) -> (r: &V)
        requires
            at < self.values().len(),
        ensures
            *r == self.values()[at as int],
    {
        &self.entries[at].1
    }

    /// The position of `name`, where it is one of the names.
    pub fn position(&self, name: &str) -> (r: Option<usize>)
        ensures
            match r {
                Some(at) => position_of(self.names(), name@) == Some(at as int) && at
                    < self.names().len() && self.names()[at as int] == name@,
                None => position_of(self.names(), name@) is None,
            },
    {
        proof {
            use_type_invariant(self);
        }
        let mut i: usize = 0;
        while i < self.entries.len()
            invariant
                i <= self.entries@.len(),
                self.names_differ(),
                forall|k: int| 0 <= k < i ==> (#[trigger] self.names()[k]) != name@,
            decreases self.entries@.len() - i,
        {
            if str_eq(self.entries[i].0.as_str(), name) {
                proof {
                    let names = self.names();
                    assert(names[i as int] == name@);
                    assert(names.contains(name@));
                    let found = names.index_of(name@);
                    assert(names[found] == name@);
                    if found != i {
                        if found < i {
                            assert(names[found] != name@);
                        } else {
                            assert(self.entries@[i as int].0@ != self.entries@[found].0@);
                        }
                    }
                }
                return Some(i);
            }
            i += 1;
        }
        proof {
            let names = self.names();
            if names.contains(name@) {
                let found = names.index_of(name@);
                assert(names[found] == name@);
            }
        }
        None
    }

    /// Whether `name` is one of the names.
    pub fn contains_key(&self, name: &str) -> (r: bool)
        ensures
            r == self.names().contains(name@),
    {
        self.position(name).is_some()
    }

    /// The value kept under `name`, where there is one.
    pub fn get(&self, name: &str) -> (r: Option<&V>)
        ensures
            match r {
                Some(value) => self.value_of(name@) == Some(*value),
                None => self.value_of(name@) is None,
            },
    {
        match self.position(name) {
            Some(at) => Some(&self.entries[at].1),
            None => None,
        }
    }

    /// Keeps `value` under `name`. A name that is there keeps its position
    /// and gives its old value back; a new name goes to the end.
    pub fn insert(&mut self, name: String, value: V) -> (r: Option<V>)
        ensures
            match position_of(old(self).names(), name@) {
                Some(at) => {
                    &&& r == Some(old(self).values()[at])
                    &&& final(self).names() == old(self).names()
                    &&& final(self).values() == old(self).values().update(at, value)
                },
                None => {
                    &&& r is None
                    &&& final(self).names() == old(self).names().push(name@)
                    &&& final(self).values() == old(self).values().push(value)
                },
            },
    {
        proof {
            use_type_invariant(&*self);
        }
        let found = self.position(name.as_str());
        let mut entries: Vec<(String, V)> = Vec::new();
        core::mem::swap(&mut entries, &mut self.entries);
        let ghost before = entries@;
        let result = match found {
            Some(at) => {
                let (kept, old_value) = entries.remove(at);
                entries.insert(at, (kept, value));
                assert(entries@.map_values(|e: (String, V)| e.0@) =~= before.map_values(
                    |e: (String, V)| e.0@,
                ));
                assert(entries@.map_values(|e: (String, V)| e.1) =~= before.map_values(
                    |e: (String, V)| e.1,
                ).update(at as int, value));
                Some(old_value)
            },
            None => {
                entries.push((name, value));
                assert(entries@.map_values(|e: (String, V)| e.0@) =~= before.map_values(
                    |e: (String, V)| e.0@,
                ).push(name@));
                assert(entries@.map_values(|e: (String, V)| e.1) =~= before.map_values(
                    |e: (String, V)| e.1,
                ).push(value));
                proof {
                    let names = before.map_values(|e: (String, V)| e.0@);
                    assert forall|i: int, j: int| 0 <= i < j < entries@.len() implies (
                    #[trigger] entries@[i]).0@ != (#[trigger] entries@[j]).0@ by {
                        if j == before.len() {
                            if entries@[i].0@ == name@ {
                                assert(names[i] == name@);
                                assert(names.contains(name@));
                            }
                        } else {
                            assert(before[i].0@ != before[j].0@);
                        }
                    }
                }
                None
            },
        };
        self.entries = entries;
        result
    }
}

} // verus!
