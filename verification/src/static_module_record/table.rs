//! A map from names to values that keeps one entry per name, seen through
//! the sequence of its entries in the order the names were first
//! inserted.
use vstd::prelude::*;

use crate::collections::{entry_inserted, entry_value, key_position, lemma_key_position, lemma_key_position_is};
use crate::text::str_eq;

verus! {

/// The entries of a map after a key is removed: the entry with that key
/// goes, the others keep their order.
pub open spec fn entry_removed<K, V>(entries: Seq<(K, V)>, k: K) -> Seq<(K, V)> {
    match key_position(entries, k) {
        Some(i) => entries.remove(i),
        None => entries,
    }
}

/// A map from names to values.
#[derive(Debug)]
pub struct Table<V> {
    entries: Vec<(String, V)>,
}

impl<V: DeepView> Table<V> {
    /// The entries: each name and the deep view of its value, in order.
    pub closed spec fn keyed(&self) -> Seq<(Seq<char>, V::V)> {
        self.entries@.map_values(|e: (String, V)| (e.0@, e.1.deep_view()))
    }

    /// An empty map.
    pub fn new() -> (r: Table<V>)
        ensures
            r.keyed() == Seq::<(Seq<char>, V::V)>::empty(),
    {
        let r = Table { entries: Vec::new() };
        assert(r.keyed() =~= Seq::<(Seq<char>, V::V)>::empty());
        r
    }

    /// The number of entries.
    pub fn len(&self) -> (r: usize)
        ensures
            r == self.keyed().len(),
    {
        self.entries.len()
    }

    /// The entry at an index below the length.
    pub fn get_index(&self, index: usize) -> (r: (&String, &V))
        requires
            index < self.keyed().len(),
        ensures
            r.0@ == self.keyed()[index as int].0,
            r.1.deep_view() == self.keyed()[index as int].1,
    {
        let e = &self.entries[index];
        (&e.0, &e.1)
    }

    /// The position of the entry with a name, if there is one.
    fn position(&self, key: &str) -> (r: Option<usize>)
        ensures
            r matches Some(i) ==> key_position(self.keyed(), key@) == Some(i as int) && i < self.entries@.len(),
            r is None ==> key_position(self.keyed(), key@) is None,
    {
        let ghost s = self.keyed();
        let mut i: usize = 0;
        while i < self.entries.len()
            invariant
                s == self.keyed(),
                i <= s.len(),
                forall|j: int| 0 <= j < i ==> #[trigger] s[j].0 != key@,
            decreases self.entries@.len() - i,
        {
            assert(s[i as int].0 == self.entries@[i as int].0@);
            if str_eq(self.entries[i].0.as_str(), key) {
                proof {
                    lemma_key_position_is(s, key@, i as int);
                }
                return Some(i);
            }
            i = i + 1;
        }
        proof {
            lemma_key_position(s, key@);
        }
        None
    }

    /// The value stored with a name.
    pub fn get(&self, key: &str) -> (r: Option<&V>)
        ensures
            r matches Some(v) ==> entry_value(self.keyed(), key@) == Some(v.deep_view()),
            r is None ==> entry_value(self.keyed(), key@) is None,
    {
        match self.position(key) {
            Some(i) => Some(&self.entries[i].1),
            None => None,
        }
    }

    /// Insert a value with a name: the value of an entry with that name is
    /// replaced in its place, otherwise the pair is appended.
    pub fn insert(&mut self, key: String, value: V)
        ensures
            final(self).keyed() == entry_inserted(old(self).keyed(), key@, value.deep_view()),
    {
        let ghost s = self.keyed();
        let ghost kv = key@;
        let ghost vv = value.deep_view();
        match self.position(key.as_str()) {
            Some(i) => {
                self.entries.set(i, (key, value));
                assert(self.keyed() =~= s.update(i as int, (kv, vv)));
            },
            None => {
                self.entries.push((key, value));
                assert(self.keyed() =~= s.push((kv, vv)));
            },
        }
    }

    /// Remove the entry with a name, if there is one.
    pub fn remove(&mut self, key: &str)
        ensures
            final(self).keyed() == entry_removed(old(self).keyed(), key@),
    {
        let ghost s = self.keyed();
        if let Some(i) = self.position(key) {
            let _ = self.entries.remove(i);
            assert(self.keyed() =~= s.remove(i as int));
        }
    }
}

} // verus!
