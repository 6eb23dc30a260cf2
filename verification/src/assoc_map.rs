//! Maps whose keys are compared by what they hold.

use vstd::prelude::*;

use crate::text::same_text;

verus! {

/// The contents of a list of keys and values as a map.
pub open spec fn map_of<A, B>(entries: Seq<(A, B)>) -> Map<A, B> {
    Map::new(
        |key: A| exists|i: int| 0 <= i < entries.len() && (#[trigger] entries[i]).0 == key,
        |key: A|
            entries[choose|i: int| 0 <= i < entries.len() && (#[trigger] entries[i]).0 == key].1,
    )
}

/// Whether no key occurs twice.
pub open spec fn keys_differ<A, B>(entries: Seq<(A, B)>) -> bool {
    forall|i: int, j: int|
        0 <= i < j < entries.len() ==> (#[trigger] entries[i]).0 != (#[trigger] entries[j]).0
}

/// A key of an [`AssocMap`].
pub trait Key: View + Sized {
    /// Whether two keys hold the same.
    fn same(&self, other: &Self) -> (r: bool)
        ensures
            r == (self@ == other@),
    ;
}

impl Key for String {
    fn same(&self, other: &Self) -> (r: bool) {
        same_text(self.as_str(), other.as_str())
    }
}

/// A value that lasts for a limited time.
pub trait Expiring {
    /// Whether the value does not last any more at a time in nanoseconds.
    spec fn has_expired(&self, now: u128) -> bool;

    /// Whether the value does not last any more.
    fn is_expired(&self, now: u128) -> (r: bool)
        ensures
            r == self.has_expired(now),
    ;
}

/// The part of a map that has not expired.
pub open spec fn unexpired<A, V: Expiring>(map: Map<A, V>, now: u128) -> Map<A, V> {
    Map::new(
        |key: A| map.contains_key(key) && !map[key].has_expired(now),
        |key: A| map[key],
    )
}

/// A map from keys to values.
#[derive(Debug)]
pub struct AssocMap<K: Key, V> {
    entries: Vec<(K, V)>,
}

/// The list of keys and values by what the keys hold.
pub closed spec fn keyed<K: Key, V>(entries: Seq<(K, V)>) -> Seq<(K::V, V)> {
    entries.map_values(|entry: (K, V)| (entry.0@, entry.1))
}

impl<K: Key, V> View for AssocMap<K, V> {
    type V = Map<K::V, V>;

    closed spec fn view(&self) -> Map<K::V, V> {
        map_of(keyed(self.entries@))
    }
}

impl<K: Key, V> AssocMap<K, V> {
    #[verifier::type_invariant]
    spec fn inv(self) -> bool {
        keys_differ(keyed(self.entries@))
    }

    /// Makes an empty map.
    pub fn new() -> (r: Self)
        ensures
            r@ == Map::<K::V, V>::empty(),
    {
        let r = AssocMap { entries: Vec::new() };
        assert(r@ =~= Map::<K::V, V>::empty());
        r
    }

    fn find(&self, key: &K) -> (r: Option<usize>)
        ensures
            keys_differ(keyed(self.entries@)),
            match r {
                Some(i) => i < self.entries@.len() && keyed(self.entries@)[i as int].0 == key@,
                None => forall|i: int|
                    0 <= i < self.entries@.len() ==> (#[trigger] keyed(self.entries@)[i]).0 != key@,
            },
    {
        proof {
            use_type_invariant(self);
        }
        for i in 0..self.entries.len()
            invariant
                keys_differ(keyed(self.entries@)),
                forall|j: int| 0 <= j < i ==> (#[trigger] keyed(self.entries@)[j]).0 != key@,
        {
            if self.entries[i].0.same(key) {
                return Some(i);
            }
        }
        None
    }

    /// The value of a key.
    pub fn get(&self, key: &K) -> (r: Option<&V>)
        ensures
            match r {
                Some(value) => self@.contains_key(key@) && *value == self@[key@],
                None => !self@.contains_key(key@),
            },
    {
        match self.find(key) {
            Some(i) => {
                assert(keyed(self.entries@)[i as int].0 == key@);
                Some(&self.entries[i].1)
            },
            None => None,
        }
    }

    /// The number of keys.
    pub fn len(&self) -> (n: usize)
        ensures
            self@.dom().finite(),
            n == self@.len(),
    {
        proof {
            use_type_invariant(self);
            lemma_map_size(keyed(self.entries@));
        }
        self.entries.len()
    }

    /// Sets the value of a key.
    pub fn insert(&mut self, key: K, value: V)
        ensures
            final(self)@ == old(self)@.insert(key@, value),
    {
        let ghost before = keyed(self.entries@);
        let found = self.find(&key);
        let mut entries: Vec<(K, V)> = Vec::new();
        std::mem::swap(&mut entries, &mut self.entries);
        let ghost added = (key@, value);
        match found {
            Some(i) => {
                entries.set(i, (key, value));
                proof {
                    assert(keyed(entries@) =~= before.update(i as int, added));
                    lemma_map_updated(before, i as int, added);
                }
            },
            None => {
                entries.push((key, value));
                proof {
                    assert(keyed(entries@) =~= before.push(added));
                    lemma_map_extended(before, added);
                }
            },
        }
        self.entries = entries;
    }
}

impl<K: Key, V: Expiring> AssocMap<K, V> {
    /// Removes the values that have expired.
    pub fn evict(&mut self, now: u128)
        ensures
            final(self)@ == unexpired(old(self)@, now),
    {
        proof {
            use_type_invariant(&*self);
        }
        let ghost before = keyed(self.entries@);
        let mut entries: Vec<(K, V)> = Vec::new();
        std::mem::swap(&mut entries, &mut self.entries);
        let mut kept: Vec<(K, V)> = Vec::new();
        assert(keyed(kept@) =~= Seq::<(K::V, V)>::empty());
        assert(map_of(before.skip(before.len() as int)) =~= Map::empty());
        while entries.len() > 0
            invariant
                keyed(entries@) == before.take(entries@.len() as int),
                entries@.len() <= before.len(),
                keys_differ(before),
                keys_differ(keyed(kept@)),
                map_of(keyed(kept@)) == unexpired(
                    map_of(before.skip(entries@.len() as int)),
                    now,
                ),
            decreases entries@.len(),
        {
            let ghost n = entries@.len() - 1;
            let ghost rest = keyed(kept@);
            let ghost last = before[n];
            assert(keyed(entries@)[n] == before.take(n + 1)[n]);
            let entry = match entries.pop() {
                Some(entry) => entry,
                None => {
                    return ;
                },
            };
            proof {
                assert(before.take(n + 1).drop_last() =~= before.take(n));
                assert(keyed(entries@) =~= before.take(n));
                assert(last == (entry.0@, entry.1));
                lemma_map_prepended(before, n);
            }
            if !entry.1.is_expired(now) {
                kept.push(entry);
                proof {
                    assert(keyed(kept@) =~= rest.push(last));
                    assert forall|i: int| 0 <= i < rest.len() implies (#[trigger] rest[i]).0
                        != last.0 by {
                        assert(map_of(rest).contains_key(rest[i].0));
                        assert(map_of(before.skip(n + 1)).contains_key(rest[i].0));
                    }
                    lemma_map_extended(rest, last);
                    assert(map_of(keyed(kept@)) =~= unexpired(map_of(before.skip(n)), now));
                }
            } else {
                assert(map_of(keyed(kept@)) =~= unexpired(map_of(before.skip(n)), now));
            }
        }
        assert(before.skip(0) =~= before);
        self.entries = kept;
    }
}

proof fn lemma_map_prepended<A, B>(entries: Seq<(A, B)>, n: int)
    requires
        keys_differ(entries),
        0 <= n < entries.len(),
    ensures
        map_of(entries.skip(n)) == map_of(entries.skip(n + 1)).insert(entries[n].0, entries[n].1),
        !map_of(entries.skip(n + 1)).contains_key(entries[n].0),
{
    let long = entries.skip(n);
    let short = entries.skip(n + 1);
    assert forall|i: int| 0 <= i < short.len() implies (#[trigger] short[i]).0 != entries[n].0 by {
        assert(short[i] == entries[n + 1 + i]);
    }
    assert forall|key: A| map_of(long).contains_key(key) == map_of(short).insert(
        entries[n].0,
        entries[n].1,
    ).contains_key(key) by {
        if map_of(long).contains_key(key) {
            let k = choose|k: int| 0 <= k < long.len() && (#[trigger] long[k]).0 == key;
            if k > 0 {
                assert(short[k - 1].0 == key);
            }
        }
        if map_of(short).contains_key(key) {
            let k = choose|k: int| 0 <= k < short.len() && (#[trigger] short[k]).0 == key;
            assert(long[k + 1].0 == key);
        }
        assert(long[0].0 == entries[n].0);
    }
    assert forall|key: A| map_of(long).contains_key(key) implies map_of(long)[key] == map_of(
        short,
    ).insert(entries[n].0, entries[n].1)[key] by {
        let k = choose|k: int| 0 <= k < long.len() && (#[trigger] long[k]).0 == key;
        if key == entries[n].0 {
            assert(k == 0) by {
                if k > 0 {
                    assert(short[k - 1].0 == key);
                }
            }
        } else {
            assert(k > 0);
            assert(short[k - 1].0 == key);
            let l = choose|l: int| 0 <= l < short.len() && (#[trigger] short[l]).0 == key;
            assert(entries[n + 1 + l].0 == entries[n + k].0);
        }
    }
    assert(map_of(long) =~= map_of(short).insert(entries[n].0, entries[n].1));
}

pub(crate) proof fn lemma_map_updated<A, B>(
    entries: Seq<(A, B)>,
    i: int,
    added: (A, B),
)
    requires
        keys_differ(entries),
        0 <= i < entries.len(),
        entries[i].0 == added.0,
    ensures
        keys_differ(entries.update(i, added)),
        map_of(entries.update(i, added)) == map_of(entries).insert(added.0, added.1),
{
    let after = entries.update(i, added);
    assert forall|a: int, b: int| 0 <= a < b < after.len() implies (#[trigger] after[a]).0 != (
    #[trigger] after[b]).0 by {
        assert(entries[a].0 != entries[b].0);
    }
    assert forall|key: A| map_of(after).contains_key(key) == map_of(entries).insert(
        added.0,
        added.1,
    ).contains_key(key) by {
        if map_of(after).contains_key(key) {
            let k = choose|k: int| 0 <= k < after.len() && (#[trigger] after[k]).0 == key;
            assert(entries[k].0 == key);
        }
        if map_of(entries).contains_key(key) {
            let k = choose|k: int| 0 <= k < entries.len() && (#[trigger] entries[k]).0 == key;
            assert(after[k].0 == key);
        }
        assert(after[i].0 == added.0);
    }
    assert forall|key: A| map_of(after).contains_key(key) implies map_of(after)[key]
        == map_of(entries).insert(added.0, added.1)[key] by {
        let k = choose|k: int| 0 <= k < after.len() && (#[trigger] after[k]).0 == key;
        assert(entries[k].0 == key);
        let l = choose|l: int| 0 <= l < entries.len() && (#[trigger] entries[l]).0 == key;
        assert(k == l);
    }
    assert(map_of(after) =~= map_of(entries).insert(added.0, added.1));
}

pub(crate) proof fn lemma_map_extended<A, B>(entries: Seq<(A, B)>, added: (A, B))
    requires
        keys_differ(entries),
        forall|i: int| 0 <= i < entries.len() ==> (#[trigger] entries[i]).0 != added.0,
    ensures
        keys_differ(entries.push(added)),
        map_of(entries.push(added)) == map_of(entries).insert(added.0, added.1),
{
    let after = entries.push(added);
    assert forall|a: int, b: int| 0 <= a < b < after.len() implies (#[trigger] after[a]).0 != (
    #[trigger] after[b]).0 by {
        assert(after[a] == entries[a]);
        if b < entries.len() {
            assert(after[b] == entries[b]);
        }
    }
    assert forall|key: A| map_of(after).contains_key(key) == map_of(entries).insert(
        added.0,
        added.1,
    ).contains_key(key) by {
        if map_of(after).contains_key(key) {
            let k = choose|k: int| 0 <= k < after.len() && (#[trigger] after[k]).0 == key;
            if k < entries.len() {
                assert(entries[k].0 == key);
            }
        }
        if map_of(entries).contains_key(key) {
            let k = choose|k: int| 0 <= k < entries.len() && (#[trigger] entries[k]).0 == key;
            assert(after[k].0 == key);
        }
        assert(after[entries.len() as int].0 == added.0);
    }
    assert forall|key: A| map_of(after).contains_key(key) implies map_of(after)[key]
        == map_of(entries).insert(added.0, added.1)[key] by {
        let k = choose|k: int| 0 <= k < after.len() && (#[trigger] after[k]).0 == key;
        if k < entries.len() {
            assert(entries[k].0 == key);
            let l = choose|l: int| 0 <= l < entries.len() && (#[trigger] entries[l]).0 == key;
            assert(k == l);
        }
    }
    assert(map_of(after) =~= map_of(entries).insert(added.0, added.1));
}

pub(crate) proof fn lemma_map_size<A, B>(entries: Seq<(A, B)>)
    requires
        keys_differ(entries),
    ensures
        map_of(entries).dom().finite(),
        map_of(entries).len() == entries.len(),
    decreases entries.len(),
{
    if entries.len() == 0 {
        assert(map_of(entries).dom() =~= Set::<A>::empty());
    } else {
        let before = entries.drop_last();
        assert forall|a: int, b: int| 0 <= a < b < before.len() implies (#[trigger] before[a]).0
            != (#[trigger] before[b]).0 by {
            assert(entries[a].0 != entries[b].0);
        }
        assert forall|a: int| 0 <= a < before.len() implies (#[trigger] before[a]).0
            != entries.last().0 by {
            assert(entries[a].0 != entries[entries.len() - 1].0);
        }
        lemma_map_size(before);
        lemma_map_extended(before, entries.last());
        assert(before.push(entries.last()) =~= entries);
        assert(!map_of(before).contains_key(entries.last().0));
        assert(map_of(entries).dom() =~= map_of(before).dom().insert(entries.last().0));
    }
}

} // verus!
