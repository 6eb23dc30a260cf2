//! Maps from text to text.

use vstd::prelude::*;

use crate::assoc_map::keys_differ;
use crate::assoc_map::lemma_map_extended;
use crate::assoc_map::lemma_map_size;
use crate::assoc_map::lemma_map_updated;
use crate::assoc_map::map_of;
use crate::text::same_text;

verus! {

/// The contents of a list of pairs of strings.
pub open spec fn pairs(list: Seq<(String, String)>) -> Seq<(Seq<char>, Seq<char>)> {
    list.map_values(|pair: (String, String)| (pair.0@, pair.1@))
}

/// A map from text to text.
#[derive(Debug)]
pub struct TextMap {
    entries: Vec<(String, String)>,
}

impl View for TextMap {
    type V = Map<Seq<char>, Seq<char>>;

    closed spec fn view(&self) -> Map<Seq<char>, Seq<char>> {
        map_of(pairs(self.entries@))
    }
}

impl Clone for TextMap {
    fn clone(&self) -> (r: Self)
        ensures
            r@ == self@,
    {
        let mut entries: Vec<(String, String)> = Vec::new();
        for i in 0..self.entries.len()
            invariant
                pairs(entries@) == pairs(self.entries@).take(i as int),
        {
            let ghost before = pairs(entries@);
            entries.push((self.entries[i].0.clone(), self.entries[i].1.clone()));
            assert(pairs(entries@) =~= before.push(pairs(self.entries@)[i as int]));
            assert(pairs(self.entries@).take(i + 1) =~= before.push(
                pairs(self.entries@)[i as int],
            ));
        }
        assert(pairs(self.entries@).take(self.entries@.len() as int) =~= pairs(self.entries@));
        proof {
            use_type_invariant(self);
        }
        TextMap { entries }
    }
}

impl TextMap {
    #[verifier::type_invariant]
    spec fn inv(self) -> bool {
        keys_differ(pairs(self.entries@))
    }

    /// Makes an empty map.
    pub fn new() -> (r: Self)
        ensures
            r@ == Map::<Seq<char>, Seq<char>>::empty(),
    {
        let r = TextMap { entries: Vec::new() };
        assert(r@ =~= Map::<Seq<char>, Seq<char>>::empty());
        r
    }

    fn find(&self, key: &str) -> (r: Option<usize>)
        ensures
            keys_differ(pairs(self.entries@)),
            match r {
                Some(i) => i < self.entries@.len() && pairs(self.entries@)[i as int].0 == key@,
                None => forall|i: int|
                    0 <= i < self.entries@.len() ==> (#[trigger] pairs(self.entries@)[i]).0 != key@,
            },
    {
        proof {
            use_type_invariant(self);
        }
        for i in 0..self.entries.len()
            invariant
                keys_differ(pairs(self.entries@)),
                forall|j: int| 0 <= j < i ==> (#[trigger] pairs(self.entries@)[j]).0 != key@,
        {
            if same_text(self.entries[i].0.as_str(), key) {
                return Some(i);
            }
        }
        None
    }

    /// The value of a key.
    pub fn get(&self, key: &str) -> (r: Option<&String>)
        ensures
            match r {
                Some(value) => self@.contains_key(key@) && value@ == self@[key@],
                None => !self@.contains_key(key@),
            },
    {
        match self.find(key) {
            Some(i) => {
                assert(pairs(self.entries@)[i as int].0 == key@);
                Some(&self.entries[i].1)
            },
            None => None,
        }
    }

    /// The number of keys.
    pub fn len(&self) -> (n: usize)
        ensures
            self@.dom().finite(),
            n == self@.len(),
    {
        proof {
            use_type_invariant(self);
            lemma_map_size(pairs(self.entries@));
        }
        self.entries.len()
    }

    /// The keys with their values. Each key occurs once.
    pub fn entries(&self) -> (r: Vec<(String, String)>)
        ensures
            keys_differ(pairs(r@)),
            map_of(pairs(r@)) == self@,
            forall|i: int|
                0 <= i < r@.len() ==> self@.contains_key((#[trigger] pairs(r@)[i]).0)
                    && self@[pairs(r@)[i].0] == pairs(r@)[i].1,
            forall|key: Seq<char>| #[trigger]
                self@.contains_key(key) ==> exists|i: int|
                    0 <= i < r@.len() && (#[trigger] pairs(r@)[i]).0 == key,
            self@.dom().finite(),
            r@.len() == self@.len(),
    {
        let copy = self.clone();
        proof {
            use_type_invariant(&copy);
            lemma_map_size(pairs(copy.entries@));
            assert forall|i: int| 0 <= i < copy.entries@.len() implies copy@.contains_key(
                (#[trigger] pairs(copy.entries@)[i]).0,
            ) && copy@[pairs(copy.entries@)[i].0] == pairs(copy.entries@)[i].1 by {
                let all = pairs(copy.entries@);
                let j = choose|j: int| 0 <= j < all.len() && (#[trigger] all[j]).0 == all[i].0;
                assert(j == i);
            }
        }
        copy.entries
    }

    /// Sets the value of a key.
    pub fn insert(&mut self, key: String, value: String)
        ensures
            final(self)@ == old(self)@.insert(key@, value@),
    {
        let ghost before = pairs(self.entries@);
        let found = self.find(key.as_str());
        let mut entries: Vec<(String, String)> = Vec::new();
        std::mem::swap(&mut entries, &mut self.entries);
        let ghost added = (key@, value@);
        match found {
            Some(i) => {
                entries.set(i, (key, value));
                proof {
                    assert(pairs(entries@) =~= before.update(i as int, added));
                    lemma_map_updated(before, i as int, added);
                }
            },
            None => {
                entries.push((key, value));
                proof {
                    assert(pairs(entries@) =~= before.push(added));
                    lemma_map_extended(before, added);
                }
            },
        }
        self.entries = entries;
    }
}

} // verus!
