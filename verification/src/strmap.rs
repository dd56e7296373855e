//! A string-keyed map with mathematical `Map` semantics.
//!
//! The import session's address map and the analyzer's frequency tables are
//! small, short-lived tables; this association list keeps them fully
//! verified: its view is a `Map<Seq<char>, V>`, later insertions shadow
//! earlier ones, and lookups walk the entries from the newest to the oldest.

use vstd::prelude::*;

use crate::text::str_eq;

verus! {

/// The value under `key`, the newest entry winning.
pub open spec fn assoc_get<V>(entries: Seq<(String, V)>, key: Seq<char>) -> Option<V>
    decreases entries.len(),
{
    if entries.len() == 0 {
        None
    } else if entries.last().0@ == key {
        Some(entries.last().1)
    } else {
        assoc_get(entries.drop_last(), key)
    }
}

/// A map from strings to values.
#[derive(Debug)]
pub struct StrMap<V> {
    entries: Vec<(String, V)>,
}

impl<V> View for StrMap<V> {
    type V = Map<Seq<char>, V>;

    closed spec fn view(&self) -> Map<Seq<char>, V> {
        Map::new(
            |k: Seq<char>| assoc_get(self.entries@, k) is Some,
            |k: Seq<char>| assoc_get(self.entries@, k).unwrap(),
        )
    }
}

impl<V> StrMap<V> {
    /// An empty map.
    pub fn new() -> (r: StrMap<V>)
        ensures
            r@ == Map::<Seq<char>, V>::empty(),
    {
        let r = StrMap::<V> { entries: Vec::new() };
        proof {
            assert(r@ =~= Map::<Seq<char>, V>::empty());
        }
        r
    }

    /// Binds `key` to `value`, shadowing any earlier binding.
    pub fn insert(&mut self, key: String, value: V)
        ensures
            final(self)@ == old(self)@.insert(key@, value),
    {
        let ghost old_entries = self.entries@;
        let ghost k = key@;
        self.entries.push((key, value));
        proof {
            assert(self.entries@.drop_last() =~= old_entries);
            assert(self@ =~= old(self)@.insert(k, value));
        }
    }

    /// Whether `key` is bound.
    pub fn contains_key(&self, key: &str) -> (r: bool)
        ensures
            r == self@.dom().contains(key@),
    {
        self.get(key).is_some()
    }

    /// The value bound to `key`, if any.
    pub fn get(&self, key: &str) -> (r: Option<&V>)
        ensures
            match r {
                Some(v) => self@.dom().contains(key@) && *v == self@[key@],
                None => !self@.dom().contains(key@),
            },
    {
        let n: usize = self.entries.len();
        let mut i: usize = n;
        proof {
            assert(self.entries@.take(n as int) =~= self.entries@);
        }
        while i > 0
            invariant
                i <= n,
                n == self.entries@.len(),
                assoc_get(self.entries@, key@) == assoc_get(
                    self.entries@.take(i as int),
                    key@,
                ),
            decreases i,
        {
            i = i - 1;
            let ghost pre = self.entries@.take(i as int + 1);
            proof {
                assert(pre.last() == self.entries@[i as int]);
                assert(pre.drop_last() =~= self.entries@.take(i as int));
            }
            let pair = &self.entries[i];
            if str_eq(pair.0.as_str(), key) {
                return Some(&self.entries[i].1);
            }
        }
        None
    }
}

} // verus!
