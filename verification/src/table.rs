//! A table from token names to values. It holds each name once and keeps
//! the names in the order in which they first came.

use crate::text;
use vstd::prelude::*;

verus! {

/// A table keyed by token name.
#[derive(Debug)]
pub struct TokenMap<V> {
    entries: Vec<(String, V)>,
}

/// Whether `entries` holds the name `key` at index `i`.
spec fn names_at<V>(entries: Seq<(String, V)>, key: Seq<char>, i: int) -> bool {
    0 <= i < entries.len() && entries[i].0@ == key
}

/// Whether no two of `entries` have the same name.
spec fn distinct_names<V>(entries: Seq<(String, V)>) -> bool {
    forall|i: int, j: int|
        0 <= i < j < entries.len() ==> (#[trigger] entries[i]).0@ != (#[trigger] entries[j]).0@
}

/// The map that `entries` stands for.
spec fn map_of<V>(entries: Seq<(String, V)>) -> Map<Seq<char>, V> {
    Map::new(
        |key: Seq<char>| exists|i: int| names_at(entries, key, i),
        |key: Seq<char>| entries[choose|i: int| names_at(entries, key, i)].1,
    )
}

/// With distinct names, pushing an entry under a new name inserts it into
/// the map.
proof fn lemma_push<V>(entries: Seq<(String, V)>, key: String, value: V)
    requires
        distinct_names(entries),
        !map_of(entries).contains_key(key@),
    ensures
        distinct_names(entries.push((key, value))),
        map_of(entries.push((key, value))) == map_of(entries).insert(key@, value),
{
    let next = entries.push((key, value));
    assert forall|i: int, j: int| 0 <= i < j < next.len() implies (#[trigger] next[i]).0@ != (
    #[trigger] next[j]).0@ by {
        if j == entries.len() {
            assert(names_at(entries, next[i].0@, i));
        } else {
            assert(next[i] == entries[i] && next[j] == entries[j]);
        }
    }
    lemma_map_at(next, entries.len() as int);
    assert forall|k: Seq<char>| map_of(next).contains_key(k) == map_of(entries).insert(
        key@,
        value,
    ).contains_key(k) by {
        if map_of(next).contains_key(k) {
            let i = choose|i: int| names_at(next, k, i);
            if i < entries.len() {
                assert(names_at(entries, k, i));
            }
        }
        if map_of(entries).contains_key(k) {
            let i = choose|i: int| names_at(entries, k, i);
            assert(names_at(next, k, i));
        }
        if k == key@ {
            assert(names_at(next, k, entries.len() as int));
        }
    }
    assert forall|k: Seq<char>| map_of(next).contains_key(k) implies map_of(next)[k] == map_of(
        entries,
    ).insert(key@, value)[k] by {
        if k != key@ {
            let i = choose|i: int| names_at(entries, k, i);
            assert(names_at(next, k, i));
            lemma_map_at(next, i);
            lemma_map_at(entries, i);
        }
    }
    assert(map_of(next) =~= map_of(entries).insert(key@, value));
}

/// With distinct names, the map holds under each entry's name that entry's
/// value.
proof fn lemma_map_at<V>(entries: Seq<(String, V)>, i: int)
    requires
        distinct_names(entries),
        0 <= i < entries.len(),
    ensures
        map_of(entries).contains_key(entries[i].0@),
        map_of(entries)[entries[i].0@] == entries[i].1,
{
    let key = entries[i].0@;
    assert(names_at(entries, key, i));
    let j = choose|j: int| names_at(entries, key, j);
    if j < i {
        assert(entries[j].0@ != entries[i].0@);
    } else if i < j {
        assert(entries[i].0@ != entries[j].0@);
    }
}

/// With distinct names, putting a new value under the name at index `i`
/// inserts it into the map.
proof fn lemma_update<V>(entries: Seq<(String, V)>, i: int, key: String, value: V)
    requires
        distinct_names(entries),
        0 <= i < entries.len(),
        entries[i].0@ == key@,
    ensures
        distinct_names(entries.update(i, (key, value))),
        map_of(entries.update(i, (key, value))) == map_of(entries).insert(key@, value),
{
    let next = entries.update(i, (key, value));
    assert forall|a: int, b: int| 0 <= a < b < next.len() implies (#[trigger] next[a]).0@ != (
    #[trigger] next[b]).0@ by {
        assert(next[a].0@ == entries[a].0@);
        assert(next[b].0@ == entries[b].0@);
    }
    assert forall|k: Seq<char>| map_of(next).contains_key(k) == map_of(entries).insert(
        key@,
        value,
    ).contains_key(k) by {
        if map_of(next).contains_key(k) {
            let j = choose|j: int| names_at(next, k, j);
            assert(names_at(entries, k, j));
        }
        if map_of(entries).contains_key(k) {
            let j = choose|j: int| names_at(entries, k, j);
            assert(names_at(next, k, j));
        }
        if k == key@ {
            assert(names_at(next, k, i));
        }
    }
    assert forall|k: Seq<char>| map_of(next).contains_key(k) implies map_of(next)[k] == map_of(
        entries,
    ).insert(key@, value)[k] by {
        let j = choose|j: int| names_at(next, k, j);
        lemma_map_at(next, j);
        if k != key@ {
            assert(names_at(entries, k, j));
            lemma_map_at(entries, j);
        } else {
            if j != i {
                assert(names_at(next, k, i));
                if j < i {
                    assert(next[j].0@ != next[i].0@);
                } else {
                    assert(next[i].0@ != next[j].0@);
                }
            }
        }
    }
    assert(map_of(next) =~= map_of(entries).insert(key@, value));
}

impl<V> TokenMap<V> {
    #[verifier::type_invariant]
    spec fn well_formed(self) -> bool {
        distinct_names(self.entries@)
    }

    /// The names of the table, in the order in which they first came.
    pub closed spec fn names(&self) -> Seq<Seq<char>> {
        Seq::new(self.entries@.len(), |i: int| self.entries@[i].0@)
    }

    /// A table without entries.
    pub fn new() -> (r: Self)
        ensures
            r@ == Map::<Seq<char>, V>::empty(),
            r.names() == Seq::<Seq<char>>::empty(),
    {
        let r = TokenMap { entries: Vec::new() };
        assert(r@ =~= Map::<Seq<char>, V>::empty());
        assert(r.names() =~= Seq::<Seq<char>>::empty());
        r
    }

    /// The index of the entry under `key`, if there is one.
    fn position(&self, key: &str) -> (r: Option<usize>)
        ensures
            match r {
                Some(i) => names_at(self.entries@, key@, i as int),
                None => !self@.contains_key(key@),
            },
    {
        let wanted = text::chars_of(key);
        let mut i: usize = 0;
        while i < self.entries.len()
            invariant
                i <= self.entries.len(),
                wanted@ == key@,
                forall|j: int| 0 <= j < i ==> !names_at(self.entries@, key@, j),
            decreases self.entries.len() - i,
        {
            let name = text::chars_of(self.entries[i].0.as_str());
            if text::same(&name, &wanted) {
                return Some(i);
            }
            i = i + 1;
        }
        None
    }

    /// The value under `key`, if the table holds one.
    pub fn get(&self, key: &str) -> (r: Option<&V>)
        ensures
            match r {
                Some(v) => self@.contains_key(key@) && *v == self@[key@],
                None => !self@.contains_key(key@),
            },
    {
        proof {
            use_type_invariant(self);
        }
        match self.position(key) {
            Some(i) => {
                proof {
                    lemma_map_at(self.entries@, i as int);
                }
                Some(&self.entries[i].1)
            },
            None => None,
        }
    }

    /// Whether the table holds a value under `key`.
    pub fn contains_key(&self, key: &str) -> (r: bool)
        ensures
            r == self@.contains_key(key@),
    {
        proof {
            use_type_invariant(self);
        }
        match self.position(key) {
            Some(i) => {
                proof {
                    lemma_map_at(self.entries@, i as int);
                }
                true
            },
            None => false,
        }
    }

    /// Puts `value` under `key`, in place of the value that was there. A
    /// new name goes to the end of the order; a known one keeps its place.
    pub fn insert(&mut self, key: String, value: V)
        ensures
            final(self)@ == old(self)@.insert(key@, value),
            final(self).names() == if old(self)@.contains_key(key@) {
                old(self).names()
            } else {
                old(self).names().push(key@)
            },
    {
        proof {
            use_type_invariant(&*self);
        }
        let ghost before = self.entries@;
        let found = self.position(key.as_str());
        let mut taken = TokenMap { entries: Vec::new() };
        core::mem::swap(self, &mut taken);
        let mut entries = taken.entries;
        match found {
            Some(i) => {
                proof {
                    lemma_update(before, i as int, key, value);
                    lemma_map_at(before, i as int);
                }
                entries.set(i, (key, value));
            },
            None => {
                proof {
                    lemma_push(before, key, value);
                }
                entries.push((key, value));
            },
        }
        *self = TokenMap { entries };
        assert(self.names() =~= if old(self)@.contains_key(key@) {
            old(self).names()
        } else {
            old(self).names().push(key@)
        });
    }

    /// The number of names in the table. No name stands twice in the
    /// order.
    pub fn len(&self) -> (r: usize)
        ensures
            r == self.names().len(),
            self.names().no_duplicates(),
    {
        proof {
            use_type_invariant(self);
            assert forall|i: int, j: int|
                0 <= i < self.names().len() && 0 <= j < self.names().len() && i != j implies self.names()[i]
                != self.names()[j] by {
                if i < j {
                    assert(self.entries@[i].0@ != self.entries@[j].0@);
                } else {
                    assert(self.entries@[j].0@ != self.entries@[i].0@);
                }
            }
        }
        self.entries.len()
    }

    /// The name at index `i` of the order, and the value under it.
    pub fn entry_at(&self, i: usize) -> (r: (&str, &V))
        requires
            i < self.names().len(),
        ensures
            r.0@ == self.names()[i as int],
            self@.contains_key(r.0@),
            self@[r.0@] == *r.1,
    {
        proof {
            use_type_invariant(self);
            lemma_map_at(self.entries@, i as int);
        }
        (self.entries[i].0.as_str(), &self.entries[i].1)
    }

    /// The names of the order are the names under which the map holds a
    /// value.
    pub proof fn lemma_names(&self)
        ensures
            forall|k: Seq<char>| self.names().contains(k) <==> self@.contains_key(k),
    {
        assert forall|k: Seq<char>| self.names().contains(k) <==> self@.contains_key(k) by {
            if self.names().contains(k) {
                let i = choose|i: int| 0 <= i < self.names().len() && self.names()[i] == k;
                assert(names_at(self.entries@, k, i));
            }
            if self@.contains_key(k) {
                let i = choose|i: int| names_at(self.entries@, k, i);
                assert(self.names()[i] == k);
            }
        }
    }
}

impl TokenMap<String> {
    /// The table with its values as texts.
    pub open spec fn texts(&self) -> Map<Seq<char>, Seq<char>> {
        self@.map_values(|v: String| v@)
    }
}

impl<V: Clone> Clone for TokenMap<V> {
    /// A table with the same names in the same order, under each a clone
    /// of the value.
    fn clone(&self) -> (r: Self)
        ensures
            r.names() == self.names(),
    {
        proof {
            use_type_invariant(self);
        }
        let mut entries: Vec<(String, V)> = Vec::new();
        let mut i: usize = 0;
        while i < self.entries.len()
            invariant
                i <= self.entries.len(),
                entries@.len() == i,
                distinct_names(self.entries@),
                forall|j: int| 0 <= j < i ==> (#[trigger] entries@[j]).0@ == self.entries@[j].0@,
            decreases self.entries.len() - i,
        {
            let name = self.entries[i].0.clone();
            let value = self.entries[i].1.clone();
            entries.push((name, value));
            i = i + 1;
        }
        assert forall|a: int, b: int| 0 <= a < b < entries@.len() implies (
        #[trigger] entries@[a]).0@ != (#[trigger] entries@[b]).0@ by {
            assert(self.entries@[a].0@ != self.entries@[b].0@);
        }
        let r = TokenMap { entries };
        assert(r.names() =~= self.names());
        r
    }
}

impl<V> View for TokenMap<V> {
    type V = Map<Seq<char>, V>;

    closed spec fn view(&self) -> Map<Seq<char>, V> {
        map_of(self.entries@)
    }
}

} // verus!
