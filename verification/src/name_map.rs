//! Tables by name, in the order in which the names came.

use vstd::prelude::*;

use crate::text::{chars_of, same_chars};

verus! {

/// A table by name. No name occurs twice.
#[derive(Debug)]
pub struct NameMap<V> {
    names: Vec<Vec<char>>,
    values: Vec<V>,
}

impl<V> NameMap<V> {
    /// Each name has a value, and no name occurs twice.
    pub closed spec fn well_formed(&self) -> bool {
        &&& self.names@.len() == self.values@.len()
        &&& forall|i: int, j: int|
            #![trigger self.names@[i], self.names@[j]]
            0 <= i < j < self.names@.len() ==> self.names@[i]@ != self.names@[j]@
    }

    /// The names in their order.
    pub closed spec fn keys(&self) -> Seq<Seq<char>> {
        Seq::new(self.names@.len(), |i: int| self.names@[i]@)
    }

    /// The values in the order of their names.
    pub closed spec fn items(&self) -> Seq<V> {
        self.values@
    }

    /// The name has a value.
    pub open spec fn has(&self, name: Seq<char>) -> bool {
        self.keys().contains(name)
    }

    /// The value of a name that has one.
    pub open spec fn value(&self, name: Seq<char>) -> V {
        self.items()[self.keys().index_of(name)]
    }

    /// The value of a name, if it has one.
    pub open spec fn lookup(&self, name: Seq<char>) -> Option<V> {
        if self.has(name) {
            Some(self.value(name))
        } else {
            None
        }
    }

    pub proof fn lemma_parts(&self)
        requires
            self.well_formed(),
        ensures
            self.keys().len() == self.items().len(),
            self.keys().no_duplicates(),
    {
        assert forall|i: int, j: int|
            0 <= i < self.keys().len() && 0 <= j < self.keys().len() && i
                != j implies self.keys()[i] != self.keys()[j] by {
            if i < j {
                assert(self.names@[i]@ != self.names@[j]@);
            } else {
                assert(self.names@[j]@ != self.names@[i]@);
            }
        }
    }

    /// The value at a position is the value of the name at that position.
    pub proof fn lemma_value_at(&self, i: int)
        requires
            self.well_formed(),
            0 <= i < self.keys().len(),
        ensures
            self.has(self.keys()[i]),
            self.value(self.keys()[i]) == self.items()[i],
    {
        self.lemma_parts();
        let name = self.keys()[i];
        assert(self.keys().contains(name));
        let k = self.keys().index_of(name);
        assert(self.keys()[k] == name);
    }

    pub fn new() -> (r: Self)
        ensures
            r.well_formed(),
            r.keys() == Seq::<Seq<char>>::empty(),
    {
        let r: Self = NameMap { names: Vec::new(), values: Vec::new() };
        assert(r.keys() =~= Seq::<Seq<char>>::empty());
        r
    }

    pub fn len(&self) -> (r: usize)
        ensures
            r == self.keys().len(),
    {
        self.names.len()
    }

    fn position(&self, name: &[char]) -> (r: Option<usize>)
        requires
            self.well_formed(),
        ensures
            r is Some <==> self.has(name@),
            r matches Some(i) ==> i < self.keys().len() && self.keys()[i as int] == name@,
    {
        let mut i: usize = 0;
        while i < self.names.len()
            invariant
                i <= self.names@.len(),
                forall|j: int| 0 <= j < i ==> (#[trigger] self.names@[j])@ != name@,
            decreases self.names@.len() - i,
        {
            if same_chars(&self.names[i], name) {
                assert(self.keys()[i as int] == name@);
                return Some(i);
            }
            i = i + 1;
        }
        proof {
            if self.has(name@) {
                let j = choose|j: int| 0 <= j < self.keys().len() && self.keys()[j] == name@;
                assert(self.names@[j]@ == name@);
            }
        }
        None
    }

    pub fn contains(&self, name: &str) -> (r: bool)
        requires
            self.well_formed(),
        ensures
            r == self.has(name@),
    {
        self.position(&chars_of(name)).is_some()
    }

    pub fn name_at(&self, i: usize) -> (r: &Vec<char>)
        requires
            i < self.keys().len(),
        ensures
            r@ == self.keys()[i as int],
    {
        &self.names[i]
    }

    pub fn value_at(&self, i: usize) -> (r: &V)
        requires
            self.well_formed(),
            i < self.keys().len(),
        ensures
            *r == self.items()[i as int],
    {
        &self.values[i]
    }

    pub fn get_chars(&self, name: &[char]) -> (r: Option<&V>)
        requires
            self.well_formed(),
        ensures
            r is Some <==> self.has(name@),
            r matches Some(v) ==> *v == self.value(name@),
    {
        match self.position(name) {
            Some(i) => {
                proof {
                    self.lemma_value_at(i as int);
                }
                Some(&self.values[i])
            },
            None => None,
        }
    }

    pub fn get(&self, name: &str) -> (r: Option<&V>)
        requires
            self.well_formed(),
        ensures
            r is Some <==> self.has(name@),
            r matches Some(v) ==> *v == self.value(name@),
    {
        self.get_chars(&chars_of(name))
    }

    /// Gives a name a value; a name that has one gets another.
    pub fn insert_chars(&mut self, name: Vec<char>, value: V)
        requires
            old(self).well_formed(),
        ensures
            final(self).well_formed(),
            final(self).lookup(name@) == Some(value),
            forall|other: Seq<char>|
                other != name@ ==> #[trigger] final(self).lookup(other) == old(self).lookup(other),
            old(self).has(name@) ==> final(self).keys() == old(self).keys(),
            !old(self).has(name@) ==> final(self).keys() == old(self).keys().push(name@),
    {
        let ghost before = *self;
        match self.position(&name) {
            Some(i) => {
                self.values.set(i, value);
                proof {
                    assert(self.names@ == before.names@);
                    assert(self.keys() =~= before.keys());
                    self.lemma_value_at(i as int);
                    assert forall|other: Seq<char>| other != name@ implies #[trigger] self.lookup(
                        other,
                    ) == before.lookup(other) by {
                        if self.has(other) {
                            let k = self.keys().index_of(other);
                            assert(self.keys()[k] == other);
                            self.lemma_value_at(k);
                            before.lemma_value_at(k);
                            assert(k != i);
                        }
                    }
                }
            },
            None => {
                let ghost chars = name@;
                self.names.push(name);
                self.values.push(value);
                proof {
                    assert(self.keys() =~= before.keys().push(chars));
                    let last = before.keys().len() as int;
                    assert forall|i: int, j: int|
                        #![trigger self.names@[i], self.names@[j]]
                        0 <= i < j < self.names@.len() implies self.names@[i]@ != self.names@[j]@ by {
                        if j == last {
                            assert(before.keys()[i] == self.names@[i]@);
                            assert(before.keys().contains(before.keys()[i]));
                        } else {
                            assert(before.names@[i]@ != before.names@[j]@);
                        }
                    }
                    self.lemma_value_at(last);
                    assert forall|other: Seq<char>| other != chars implies #[trigger] self.lookup(
                        other,
                    ) == before.lookup(other) by {
                        if before.has(other) {
                            let k = before.keys().index_of(other);
                            assert(before.keys()[k] == other);
                            assert(self.keys()[k] == other);
                            self.lemma_value_at(k);
                            before.lemma_value_at(k);
                        } else if self.has(other) {
                            let k = self.keys().index_of(other);
                            assert(self.keys()[k] == other);
                            assert(k < last);
                            assert(before.keys()[k] == other);
                        }
                    }
                }
            },
        }
    }

    pub fn insert(&mut self, name: &str, value: V)
        requires
            old(self).well_formed(),
        ensures
            final(self).well_formed(),
            final(self).lookup(name@) == Some(value),
            forall|other: Seq<char>|
                other != name@ ==> #[trigger] final(self).lookup(other) == old(self).lookup(other),
            old(self).has(name@) ==> final(self).keys() == old(self).keys(),
            !old(self).has(name@) ==> final(self).keys() == old(self).keys().push(name@),
    {
        self.insert_chars(chars_of(name), value);
    }
}

/// A table with the entries of another laid over its own.
pub open spec fn overlaid(base: Option<usize>, over: Option<usize>) -> Option<usize> {
    if over is Some {
        over
    } else {
        base
    }
}

impl NameMap<usize> {
    /// Takes over all entries of another table; a name that both have gets the other's value.
    pub fn insert_all(&mut self, other: &NameMap<usize>)
        requires
            old(self).well_formed(),
            other.well_formed(),
        ensures
            final(self).well_formed(),
            forall|name: Seq<char>| #[trigger]
                final(self).lookup(name) == overlaid(old(self).lookup(name), other.lookup(name)),
    {
        let ghost start = *self;
        let mut i: usize = 0;
        while i < other.len()
            invariant
                i <= other.keys().len(),
                other.well_formed(),
                self.well_formed(),
                forall|name: Seq<char>| #[trigger]
                    self.lookup(name) == (if other.keys().take(i as int).contains(name) {
                        other.lookup(name)
                    } else {
                        start.lookup(name)
                    }),
            decreases other.keys().len() - i,
        {
            let ghost before = *self;
            let ghost taken = other.keys().take(i as int);
            let ghost key = other.keys()[i as int];
            let name: Vec<char> = other.name_at(i).clone();
            assert(name@ == key);
            self.insert_chars(name, *other.value_at(i));
            i = i + 1;
            proof {
                other.lemma_value_at(i - 1);
                assert(other.keys().take(i as int) =~= taken.push(key));
                assert forall|name: Seq<char>| #[trigger] self.lookup(name) == (if taken.push(
                    key,
                ).contains(name) {
                    other.lookup(name)
                } else {
                    start.lookup(name)
                }) by {
                    assert(taken.push(key)[taken.len() as int] == key);
                    if name != key {
                        assert(self.lookup(name) == before.lookup(name));
                        if taken.contains(name) {
                            let k = taken.index_of(name);
                            assert(taken.push(key)[k] == name);
                        } else if taken.push(key).contains(name) {
                            let k = taken.push(key).index_of(name);
                            assert(taken[k] == name);
                        }
                    }
                }
            }
        }
        assert(other.keys().take(i as int) =~= other.keys());
        assert forall|name: Seq<char>| #[trigger] self.lookup(name) == overlaid(
            start.lookup(name),
            other.lookup(name),
        ) by {
            assert(other.has(name) == (other.lookup(name) is Some));
        }
    }
}

} // verus!
