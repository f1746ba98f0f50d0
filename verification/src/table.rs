//! An association table: the keyed collection that every part of the escrow
//! state is held in.

use vstd::prelude::*;

verus! {

/// A key of a [`Table`]. Two keys are the same key when they stand for the
/// same mathematical value.
pub trait TableKey: DeepView + Sized {
    fn same_key(&self, other: &Self) -> (same: bool)
        ensures
            same == (self.deep_view() == other.deep_view()),
    ;
}

impl TableKey for u128 {
    fn same_key(&self, other: &Self) -> (same: bool) {
        *self == *other
    }
}

impl TableKey for String {
    fn same_key(&self, other: &Self) -> (same: bool) {
        *self == *other
    }
}

impl TableKey for (String, u128) {
    fn same_key(&self, other: &Self) -> (same: bool) {
        self.0 == other.0 && self.1 == other.1
    }
}

/// A finite map from keys to values, kept as a list of entries in which no
/// key occurs twice. Its view is the map from each key's value to the entry's
/// value.
pub struct Table<K: TableKey, V: DeepView> {
    entries: Vec<(K, V)>,
}

/// Whether entry `i` of `entries` is the entry of key `k`.
pub open spec fn entry_of<K: TableKey, V: DeepView>(
    entries: Seq<(K, V)>,
    i: int,
    k: K::V,
) -> bool {
    0 <= i < entries.len() && entries[i].0.deep_view() == k
}

impl<K: TableKey, V: DeepView> View for Table<K, V> {
    type V = Map<K::V, V::V>;

    closed spec fn view(&self) -> Map<K::V, V::V> {
        let entries = self.entries@;
        Map::new(
            |k: K::V| exists|i: int| entry_of(entries, i, k),
            |k: K::V| entries[choose|i: int| entry_of(entries, i, k)].1.deep_view(),
        )
    }
}

impl<K: TableKey, V: DeepView> Table<K, V> {
    #[verifier::type_invariant]
    spec fn keys_are_distinct(&self) -> bool {
        forall|i: int, j: int|
            0 <= i < j < self.entries@.len() ==> #[trigger] self.entries@[i].0.deep_view()
                != #[trigger] self.entries@[j].0.deep_view()
    }

    /// The empty table.
    pub fn new() -> (table: Self)
        ensures
            table@ == Map::<K::V, V::V>::empty(),
    {
        let table = Table { entries: Vec::new() };
        assert(table@ =~= Map::<K::V, V::V>::empty());
        table
    }

    /// The position of the entry of `key`, if there is one.
    fn position(&self, key: &K) -> (at: Option<usize>)
        ensures
            match at {
                Some(i) => entry_of(self.entries@, i as int, key.deep_view()),
                None => forall|i: int| !entry_of(self.entries@, i, key.deep_view()),
            },
    {
        let mut i: usize = 0;
        while i < self.entries.len()
            invariant
                i <= self.entries@.len(),
                forall|j: int| 0 <= j < i ==> !entry_of(self.entries@, j, key.deep_view()),
            decreases self.entries@.len() - i,
        {
            if self.entries[i].0.same_key(key) {
                return Some(i);
            }
            i = i + 1;
        }
        None
    }

    /// The value stored under `key`, if any.
    pub fn get(&self, key: &K) -> (found: Option<&V>)
        ensures
            match found {
                Some(value) => self@.contains_key(key.deep_view()) && self@[key.deep_view()]
                    == value.deep_view(),
                None => !self@.contains_key(key.deep_view()),
            },
    {
        proof {
            use_type_invariant(self);
        }
        match self.position(key) {
            Some(i) => {
                let ghost k = key.deep_view();
                let ghost chosen = choose|j: int| entry_of(self.entries@, j, k);
                assert(entry_of(self.entries@, i as int, k));
                assert(chosen == i as int);
                Some(&self.entries[i].1)
            },
            None => None,
        }
    }

    /// The entries, each key once: what the table maps, and nothing else.
    pub fn entries(&self) -> (all: &Vec<(K, V)>)
        ensures
            forall|i: int|
                0 <= i < all@.len() ==> self@.contains_key(#[trigger] all@[i].0.deep_view())
                    && self@[all@[i].0.deep_view()] == all@[i].1.deep_view(),
            forall|k: K::V| #[trigger]
                self@.contains_key(k) ==> exists|i: int| entry_of(all@, i, k),
            forall|i: int, j: int|
                0 <= i < j < all@.len() ==> #[trigger] all@[i].0.deep_view()
                    != #[trigger] all@[j].0.deep_view(),
    {
        proof {
            use_type_invariant(self);
            assert forall|i: int| 0 <= i < self.entries@.len() implies self@.contains_key(
                #[trigger] self.entries@[i].0.deep_view(),
            ) && self@[self.entries@[i].0.deep_view()] == self.entries@[i].1.deep_view() by {
                let k = self.entries@[i].0.deep_view();
                assert(entry_of(self.entries@, i, k));
                let chosen = choose|j: int| entry_of(self.entries@, j, k);
                assert(chosen == i);
            }
        }
        &self.entries
    }

    /// Stores `value` under `key`, in place of what was stored there before.
    pub fn put(&mut self, key: K, value: V)
        ensures
            final(self)@ == old(self)@.insert(key.deep_view(), value.deep_view()),
    {
        proof {
            use_type_invariant(&*self);
        }
        let ghost k = key.deep_view();
        let ghost v = value.deep_view();
        let ghost before = self.entries@;
        let at = self.position(&key);
        let mut entries: Vec<(K, V)> = Vec::new();
        core::mem::swap(&mut self.entries, &mut entries);
        match at {
            Some(i) => {
                entries.set(i, (key, value));
            },
            None => {
                entries.push((key, value));
            },
        }
        let ghost after = entries@;
        proof {
            assert forall|i: int, j: int| 0 <= i < j < after.len() implies #[trigger]
                after[i].0.deep_view() != #[trigger] after[j].0.deep_view() by {
                if j < before.len() {
                    assert(before[i].0.deep_view() != before[j].0.deep_view());
                } else {
                    assert(!entry_of(before, i, k));
                }
            }
        }
        core::mem::swap(&mut self.entries, &mut entries);
        proof {
            assert forall|q: K::V| #[trigger]
                self@.contains_key(q) <==> old(self)@.insert(k, v).contains_key(q) by {
                if exists|j: int| entry_of(after, j, q) {
                    let j = choose|j: int| entry_of(after, j, q);
                    if q != k {
                        assert(entry_of(before, j, q));
                    }
                }
                if q != k && exists|j: int| entry_of(before, j, q) {
                    let j = choose|j: int| entry_of(before, j, q);
                    assert(entry_of(after, j, q));
                }
                if q == k {
                    match at {
                        Some(i) => {
                            assert(entry_of(after, i as int, q));
                        },
                        None => {
                            assert(entry_of(after, before.len() as int, q));
                        },
                    }
                }
            }
            assert forall|q: K::V| #[trigger] self@.contains_key(q) implies self@[q] == old(
                self,
            )@.insert(k, v)[q] by {
                let j = choose|j: int| entry_of(after, j, q);
                if q != k {
                    assert(entry_of(before, j, q));
                    let j0 = choose|j: int| entry_of(before, j, q);
                    assert(j0 == j);
                } else {
                    match at {
                        Some(i) => {
                            assert(entry_of(after, i as int, q));
                            assert(j == i as int);
                        },
                        None => {
                            assert(entry_of(after, before.len() as int, q));
                            assert(j == before.len() as int);
                        },
                    }
                }
            }
            assert(self@ =~= old(self)@.insert(k, v));
        }
    }

    /// Removes every entry.
    pub fn clear(&mut self)
        ensures
            final(self)@ == Map::<K::V, V::V>::empty(),
    {
        let mut entries: Vec<(K, V)> = Vec::new();
        core::mem::swap(&mut self.entries, &mut entries);
        assert(self@ =~= Map::<K::V, V::V>::empty());
    }
}

} // verus!
