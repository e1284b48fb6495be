//! A small map from names to values that keeps its entries in the order in
//! which the names were first inserted. It is a list, so that what a lookup
//! finds is proved rather than taken from a hasher on faith.

use vstd::prelude::*;
use vstd::string::*;

verus! {

/// A map from names to values.
pub struct NameMap<V> {
    entries: Vec<(String, V)>,
}

/// The index of the first of the first `n` entries whose name is `name`.
pub open spec fn first_entry<V>(entries: Seq<(String, V)>, name: Seq<char>, n: nat) -> Option<int>
    decreases n,
{
    if n == 0 || n > entries.len() {
        None
    } else {
        match first_entry(entries, name, (n - 1) as nat) {
            Some(i) => Some(i),
            None => if entries[n - 1].0@ == name {
                Some(n - 1)
            } else {
                None
            },
        }
    }
}

/// What `first_entry` finds: the first entry of that name, if there is one.
pub proof fn lemma_first_entry<V>(entries: Seq<(String, V)>, name: Seq<char>, n: nat)
    requires
        n <= entries.len(),
    ensures
        match first_entry(entries, name, n) {
            Some(i) => 0 <= i < n && entries[i].0@ == name && forall|j: int|
                0 <= j < i ==> (#[trigger] entries[j]).0@ != name,
            None => forall|j: int| 0 <= j < n ==> (#[trigger] entries[j]).0@ != name,
        },
    decreases n,
{
    if n > 0 {
        lemma_first_entry(entries, name, (n - 1) as nat);
    }
}

/// The first entry of a name is what `first_entry` finds.
pub proof fn lemma_first_entry_is<V>(entries: Seq<(String, V)>, name: Seq<char>, i: int)
    requires
        0 <= i < entries.len(),
        entries[i].0@ == name,
        forall|j: int| 0 <= j < i ==> (#[trigger] entries[j]).0@ != name,
    ensures
        first_entry(entries, name, entries.len()) == Some(i),
{
    lemma_first_entry(entries, name, entries.len());
    match first_entry(entries, name, entries.len()) {
        Some(k) => {
            if k < i {
                assert(entries[k].0@ != name);
            }
            if i < k {
                assert(entries[i].0@ == name);
            }
        },
        None => {
            assert(entries[i].0@ == name);
        },
    }
}

/// Where no entry has the name, `first_entry` finds none.
pub proof fn lemma_first_entry_none<V>(entries: Seq<(String, V)>, name: Seq<char>)
    requires
        forall|j: int| 0 <= j < entries.len() ==> (#[trigger] entries[j]).0@ != name,
    ensures
        first_entry(entries, name, entries.len()) is None,
{
    lemma_first_entry(entries, name, entries.len());
    match first_entry(entries, name, entries.len()) {
        Some(k) => {
            assert(entries[k].0@ == name);
        },
        None => {},
    }
}

/// Once an entry is found, looking further finds the same one.
pub proof fn lemma_first_entry_stable<V>(entries: Seq<(String, V)>, name: Seq<char>, n: nat, m: nat)
    requires
        n <= m <= entries.len(),
        first_entry(entries, name, n) is Some,
    ensures
        first_entry(entries, name, m) == first_entry(entries, name, n),
    decreases m,
{
    if n < m {
        lemma_first_entry_stable(entries, name, n, (m - 1) as nat);
    }
}

impl<V> NameMap<V> {
    /// The value that the map holds for `name`, if it holds one.
    pub closed spec fn find(&self, name: Seq<char>) -> Option<V> {
        match first_entry(self.entries@, name, self.entries@.len()) {
            Some(i) => Some(self.entries@[i].1),
            None => None,
        }
    }

    /// The map as a mathematical map.
    pub open spec fn as_map(&self) -> Map<Seq<char>, V> {
        Map::new(|name: Seq<char>| self.find(name) is Some, |name: Seq<char>| self.find(name)->0)
    }

    /// Whether the map holds nothing.
    pub open spec fn is_vacant(&self) -> bool {
        forall|name: Seq<char>| self.find(name) is None
    }

    /// Whether the map holds a value for `name` and for no other name.
    pub open spec fn holds_only(&self, name: Seq<char>) -> bool {
        self.find(name) is Some && forall|other: Seq<char>|
            other != name ==> self.find(other) is None
    }

    /// A map that holds nothing.
    pub fn new() -> (r: NameMap<V>)
        ensures
            r.is_vacant(),
            r.as_map() == Map::<Seq<char>, V>::empty(),
    {
        let r = NameMap { entries: Vec::new() };
        assert(r.as_map() =~= Map::<Seq<char>, V>::empty());
        r
    }

    /// The index of the first entry of `name`.
    fn position(&self, name: &str) -> (r: Option<usize>)
        ensures
            match r {
                Some(i) => first_entry(self.entries@, name@, self.entries@.len()) == Some(i as int)
                    && i < self.entries@.len(),
                None => first_entry(self.entries@, name@, self.entries@.len()) is None,
            },
    {
        let key = String::from_str(name);
        let mut i: usize = 0;
        while i < self.entries.len()
            invariant
                i <= self.entries.len(),
                key@ == name@,
                first_entry(self.entries@, name@, i as nat) is None,
            decreases self.entries.len() - i,
        {
            if self.entries[i].0 == key {
                proof {
                    lemma_first_entry_stable(
                        self.entries@,
                        name@,
                        (i + 1) as nat,
                        self.entries@.len(),
                    );
                }
                return Some(i);
            }
            i += 1;
        }
        None
    }

    /// The value for `name`.
    pub fn get(&self, name: &str) -> (r: Option<&V>)
        ensures
            match r {
                Some(v) => self.find(name@) == Some(*v),
                None => self.find(name@) is None,
            },
    {
        match self.position(name) {
            Some(i) => Some(&self.entries[i].1),
            None => None,
        }
    }

    /// Whether the map holds a value for `name`.
    pub fn contains_key(&self, name: &str) -> (r: bool)
        ensures
            r == self.find(name@) is Some,
    {
        self.position(name).is_some()
    }

    /// Whether the map holds nothing.
    pub fn is_empty(&self) -> (r: bool)
        ensures
            r == self.is_vacant(),
    {
        if self.entries.len() == 0 {
            true
        } else {
            proof {
                let name = self.entries@[0].0@;
                lemma_first_entry(self.entries@, name, self.entries@.len());
                assert(self.find(name) is Some);
            }
            false
        }
    }

    /// Whether the map holds a value for `name` and for no other name.
    pub fn has_only(&self, name: &str) -> (r: bool)
        ensures
            r == self.holds_only(name@),
    {
        if !self.contains_key(name) {
            return false;
        }
        let key = String::from_str(name);
        let mut i: usize = 0;
        while i < self.entries.len()
            invariant
                i <= self.entries.len(),
                key@ == name@,
                self.find(name@) is Some,
                forall|j: int| 0 <= j < i ==> (#[trigger] self.entries@[j]).0@ == name@,
            decreases self.entries.len() - i,
        {
            if self.entries[i].0 != key {
                proof {
                    let other = self.entries@[i as int].0@;
                    lemma_first_entry(self.entries@, other, self.entries@.len());
                    assert(self.find(other) is Some);
                }
                return false;
            }
            i += 1;
        }
        assert forall|other: Seq<char>| other != name@ implies self.find(other) is None by {
            lemma_first_entry(self.entries@, other, self.entries@.len());
        }
        true
    }

    /// Sets the value for `name`.
    pub fn insert(&mut self, name: &str, value: V)
        ensures
            forall|other: Seq<char>|
                final(self).find(other) == if other == name@ {
                    Some(value)
                } else {
                    old(self).find(other)
                },
            final(self).as_map() == old(self).as_map().insert(name@, value),
    {
        let ghost before = self.entries@;
        match self.position(name) {
            Some(i) => {
                self.entries.set(i, (String::from_str(name), value));
                assert forall|other: Seq<char>|
                    self.find(other) == if other == name@ {
                        Some(value)
                    } else {
                        old(self).find(other)
                    } by {
                    let after = self.entries@;
                    lemma_first_entry(before, name@, before.len());
                    lemma_first_entry(before, other, before.len());
                    assert(forall|j: int|
                        0 <= j < before.len() ==> (#[trigger] after[j]).0@ == before[j].0@);
                    match first_entry(before, other, before.len()) {
                        Some(k) => {
                            assert forall|j: int| 0 <= j < k implies (#[trigger] after[j]).0@
                                != other by {
                                assert(before[j].0@ != other);
                            }
                            lemma_first_entry_is(after, other, k);
                        },
                        None => {
                            assert forall|j: int| 0 <= j < after.len() implies (
                            #[trigger] after[j]).0@ != other by {
                                assert(before[j].0@ != other);
                            }
                            lemma_first_entry_none(after, other);
                        },
                    }
                }
            },
            None => {
                self.entries.push((String::from_str(name), value));
                assert forall|other: Seq<char>|
                    self.find(other) == if other == name@ {
                        Some(value)
                    } else {
                        old(self).find(other)
                    } by {
                    let after = self.entries@;
                    lemma_first_entry(before, name@, before.len());
                    lemma_first_entry(before, other, before.len());
                    match first_entry(before, other, before.len()) {
                        Some(k) => {
                            assert forall|j: int| 0 <= j < k implies (#[trigger] after[j]).0@
                                != other by {
                                assert(before[j].0@ != other);
                            }
                            lemma_first_entry_is(after, other, k);
                        },
                        None => {
                            if other == name@ {
                                assert forall|j: int| 0 <= j < before.len() implies (
                                #[trigger] after[j]).0@ != other by {
                                    assert(before[j].0@ != other);
                                }
                                lemma_first_entry_is(after, other, before.len() as int);
                            } else {
                                assert forall|j: int| 0 <= j < after.len() implies (
                                #[trigger] after[j]).0@ != other by {
                                    if j < before.len() {
                                        assert(before[j].0@ != other);
                                    }
                                }
                                lemma_first_entry_none(after, other);
                            }
                        },
                    }
                }
            },
        }
        assert(self.as_map() =~= old(self).as_map().insert(name@, value));
    }

    /// The number of names.
    pub fn len(&self) -> (r: usize)
        ensures
            r == self.count(),
    {
        self.entries.len()
    }

    /// The number of entries.
    pub closed spec fn count(&self) -> nat {
        self.entries@.len()
    }

    /// The name of the entry at `index`.
    pub closed spec fn name_at(&self, index: int) -> Seq<char> {
        self.entries@[index].0@
    }

    /// The value of the entry at `index`.
    pub closed spec fn value_at(&self, index: int) -> V {
        self.entries@[index].1
    }

    /// The name and the value of the entry at `index`, in the order in which
    /// the names were first inserted.
    pub fn entry(&self, index: usize) -> (r: (&str, &V))
        requires
            index < self.count(),
        ensures
            r.0@ == self.name_at(index as int),
            *r.1 == self.value_at(index as int),
            self.find(r.0@) is Some,
    {
        proof {
            lemma_first_entry(self.entries@, self.entries@[index as int].0@, self.entries@.len());
        }
        (self.entries[index].0.as_str(), &self.entries[index].1)
    }
}

} // verus!
