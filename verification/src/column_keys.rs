//! Column names grouped by the master key that encrypts them.

use vstd::prelude::*;

use crate::text::copy_strings;
use crate::text::same_text;
use crate::text::strings;

verus! {

/// A master key identifier and the names of the columns encrypted with that key.
#[derive(Debug)]
pub struct ColumnKey {
    pub master_key_id: String,
    pub columns: Vec<String>,
}

impl View for ColumnKey {
    type V = (Seq<char>, Seq<Seq<char>>);

    open spec fn view(&self) -> (Seq<char>, Seq<Seq<char>>) {
        (self.master_key_id@, strings(self.columns@))
    }
}

impl Clone for ColumnKey {
    fn clone(&self) -> (r: Self)
        ensures
            r@ == self@,
    {
        ColumnKey {
            master_key_id: self.master_key_id.clone(),
            columns: copy_strings(&self.columns),
        }
    }
}

/// Whether some entry is for the master key `id`.
pub open spec fn has_id(entries: Seq<(Seq<char>, Seq<Seq<char>>)>, id: Seq<char>) -> bool {
    exists|i: int| 0 <= i < entries.len() && (#[trigger] entries[i]).0 == id
}

/// The position of the entry for the master key `id`.
pub open spec fn position(entries: Seq<(Seq<char>, Seq<Seq<char>>)>, id: Seq<char>) -> int {
    choose|i: int| 0 <= i < entries.len() && (#[trigger] entries[i]).0 == id
}

/// Whether every master key has at most one entry.
pub open spec fn distinct_ids(entries: Seq<(Seq<char>, Seq<Seq<char>>)>) -> bool {
    forall|i: int, j: int|
        0 <= i < j < entries.len() ==> (#[trigger] entries[i]).0 != (#[trigger] entries[j]).0
}

/// The entries with `columns` as the columns of `id`; a new entry comes last.
pub open spec fn inserted(
    entries: Seq<(Seq<char>, Seq<Seq<char>>)>,
    id: Seq<char>,
    columns: Seq<Seq<char>>,
) -> Seq<(Seq<char>, Seq<Seq<char>>)> {
    if has_id(entries, id) {
        entries.update(position(entries, id), (id, columns))
    } else {
        entries.push((id, columns))
    }
}

/// The entries with `columns` added after those that `id` has; a new entry comes last.
pub open spec fn extended(
    entries: Seq<(Seq<char>, Seq<Seq<char>>)>,
    id: Seq<char>,
    columns: Seq<Seq<char>>,
) -> Seq<(Seq<char>, Seq<Seq<char>>)> {
    if has_id(entries, id) {
        let i = position(entries, id);
        entries.update(i, (id, entries[i].1 + columns))
    } else {
        entries.push((id, columns))
    }
}

/// The entries as a map from master key identifiers to column names.
pub open spec fn as_map(entries: Seq<(Seq<char>, Seq<Seq<char>>)>) -> Map<
    Seq<char>,
    Seq<Seq<char>>,
> {
    Map::new(|id: Seq<char>| has_id(entries, id), |id: Seq<char>| entries[position(entries, id)].1)
}

/// Column names by master key identifier. Each identifier occurs once, and entries keep the order
/// in which their identifiers were added.
#[derive(Debug)]
pub struct ColumnKeys {
    entries: Vec<ColumnKey>,
}

impl View for ColumnKeys {
    type V = Seq<(Seq<char>, Seq<Seq<char>>)>;

    closed spec fn view(&self) -> Seq<(Seq<char>, Seq<Seq<char>>)> {
        self.entries@.map_values(|e: ColumnKey| e@)
    }
}

impl Clone for ColumnKeys {
    fn clone(&self) -> (r: Self)
        ensures
            r@ == self@,
    {
        proof {
            use_type_invariant(self);
        }
        let mut entries: Vec<ColumnKey> = Vec::new();
        for i in 0..self.entries.len()
            invariant
                entries@.map_values(|e: ColumnKey| e@) =~= self@.take(i as int),
                self@.len() == self.entries@.len(),
        {
            let ghost before = entries@.map_values(|e: ColumnKey| e@);
            entries.push(self.entries[i].clone());
            assert(entries@.map_values(|e: ColumnKey| e@) =~= before.push(self@[i as int]));
        }
        assert(self@.take(self@.len() as int) =~= self@);
        ColumnKeys { entries }
    }
}

impl ColumnKeys {
    #[verifier::type_invariant]
    spec fn ids_are_distinct(self) -> bool {
        distinct_ids(self@)
    }

    /// Makes an empty collection.
    pub fn new() -> (r: Self)
        ensures
            r@ == Seq::<(Seq<char>, Seq<Seq<char>>)>::empty(),
    {
        let r = ColumnKeys { entries: Vec::new() };
        assert(r@ =~= Seq::<(Seq<char>, Seq<Seq<char>>)>::empty());
        r
    }

    /// The number of master keys.
    pub fn len(&self) -> (n: usize)
        ensures
            n == self@.len(),
            distinct_ids(self@),
    {
        proof {
            use_type_invariant(self);
        }
        self.entries.len()
    }

    /// Whether there is no master key.
    pub fn is_empty(&self) -> (r: bool)
        ensures
            r == (self@.len() == 0),
    {
        self.entries.len() == 0
    }

    /// The entry at a position.
    pub fn entry(&self, i: usize) -> (r: &ColumnKey)
        requires
            i < self@.len(),
        ensures
            r@ == self@[i as int],
    {
        &self.entries[i]
    }

    fn find(&self, id: &str) -> (r: Option<usize>)
        ensures
            distinct_ids(self@),
            match r {
                Some(i) => i < self@.len() && self@[i as int].0 == id@ && has_id(self@, id@)
                    && position(self@, id@) == i,
                None => !has_id(self@, id@),
            },
    {
        proof {
            use_type_invariant(self);
        }
        for i in 0..self.entries.len()
            invariant
                distinct_ids(self@),
                self@.len() == self.entries@.len(),
                forall|j: int| 0 <= j < i ==> (#[trigger] self@[j]).0 != id@,
        {
            assert(self@[i as int] == self.entries@[i as int]@);
            if same_text(self.entries[i].master_key_id.as_str(), id) {
                return Some(i);
            }
        }
        None
    }

    /// The columns encrypted with a master key.
    pub fn get(&self, id: &str) -> (r: Option<&Vec<String>>)
        ensures
            match r {
                Some(columns) => has_id(self@, id@) && strings(columns@) == self@[position(
                    self@,
                    id@,
                )].1,
                None => !has_id(self@, id@),
            },
    {
        match self.find(id) {
            Some(i) => {
                assert(self@[i as int] == self.entries@[i as int]@);
                Some(&self.entries[i].columns)
            },
            None => None,
        }
    }

    /// Sets the columns of a master key, replacing those that it had.
    pub fn insert(&mut self, id: String, columns: Vec<String>)
        ensures
            final(self)@ == inserted(old(self)@, id@, strings(columns@)),
    {
        let ghost before = self@;
        let found = self.find(id.as_str());
        let mut entries: Vec<ColumnKey> = Vec::new();
        std::mem::swap(&mut entries, &mut self.entries);
        let entry = ColumnKey { master_key_id: id, columns };
        let ghost added = entry@;
        match found {
            Some(i) => {
                entries.set(i, entry);
                assert(entries@.map_values(|e: ColumnKey| e@) =~= before.update(i as int, added));
            },
            None => {
                entries.push(entry);
                assert(entries@.map_values(|e: ColumnKey| e@) =~= before.push(added));
            },
        }
        self.entries = entries;
    }

    /// Adds columns to a master key, after those that it has.
    pub fn extend(&mut self, id: String, columns: Vec<String>)
        ensures
            final(self)@ == extended(old(self)@, id@, strings(columns@)),
    {
        match self.find(id.as_str()) {
            Some(i) => {
                assert(self@[i as int] == self.entries@[i as int]@);
                let mut all = copy_strings(&self.entries[i].columns);
                let mut more = columns;
                let ghost first = strings(all@);
                let ghost second = strings(more@);
                all.append(&mut more);
                assert(strings(all@) =~= first + second);
                self.insert(id, all);
            },
            None => {
                self.insert(id, columns);
            },
        }
    }
}

fn same_strings(a: &Vec<String>, b: &Vec<String>) -> (r: bool)
    ensures
        r == (strings(a@) == strings(b@)),
{
    if a.len() != b.len() {
        assert(strings(a@).len() != strings(b@).len());
        return false;
    }
    for i in 0..a.len()
        invariant
            a@.len() == b@.len(),
            forall|j: int| 0 <= j < i ==> strings(a@)[j] == strings(b@)[j],
    {
        if !same_text(a[i].as_str(), b[i].as_str()) {
            assert(strings(a@)[i as int] != strings(b@)[i as int]);
            return false;
        }
    }
    assert(strings(a@) =~= strings(b@));
    true
}

/// Whether each entry of `a` is in `b`, with the same columns.
spec fn within(
    a: Seq<(Seq<char>, Seq<Seq<char>>)>,
    b: Seq<(Seq<char>, Seq<Seq<char>>)>,
) -> bool {
    forall|i: int| 0 <= i < a.len() ==> has_id(b, (#[trigger] a[i]).0) && b[position(b, a[i].0)].1
        == a[i].1
}

fn is_within(a: &ColumnKeys, b: &ColumnKeys) -> (r: bool)
    ensures
        r == within(a@, b@),
{
    let count: usize = a.len();
    for i in 0..count
        invariant
            count == a@.len(),
            forall|j: int|
                0 <= j < i ==> has_id(b@, (#[trigger] a@[j]).0) && b@[position(b@, a@[j].0)].1
                    == a@[j].1,
    {
        let entry = a.entry(i);
        match b.get(entry.master_key_id.as_str()) {
            Some(columns) => {
                if !same_strings(columns, &entry.columns) {
                    assert(a@[i as int] == entry@);
                    return false;
                }
            },
            None => {
                assert(a@[i as int] == entry@);
                return false;
            },
        }
    }
    true
}

proof fn lemma_within_both_ways(
    a: Seq<(Seq<char>, Seq<Seq<char>>)>,
    b: Seq<(Seq<char>, Seq<Seq<char>>)>,
)
    requires
        distinct_ids(a),
        distinct_ids(b),
    ensures
        (within(a, b) && within(b, a)) == (as_map(a) == as_map(b)),
{
    if within(a, b) && within(b, a) {
        assert forall|id: Seq<char>| has_id(a, id) == has_id(b, id) by {
            if has_id(a, id) {
                assert(a[position(a, id)].0 == id);
            }
            if has_id(b, id) {
                assert(b[position(b, id)].0 == id);
            }
        }
        assert(as_map(a) =~= as_map(b)) by {
            assert forall|id: Seq<char>| has_id(a, id) implies a[position(a, id)].1 == b[position(
                b,
                id,
            )].1 by {
                assert(a[position(a, id)].0 == id);
            }
        }
    }
    if as_map(a) == as_map(b) {
        lemma_same_map_within(a, b);
        lemma_same_map_within(b, a);
    }
}

proof fn lemma_same_map_within(
    a: Seq<(Seq<char>, Seq<Seq<char>>)>,
    b: Seq<(Seq<char>, Seq<Seq<char>>)>,
)
    requires
        distinct_ids(a),
        as_map(a) == as_map(b),
    ensures
        within(a, b),
{
    assert forall|i: int| 0 <= i < a.len() implies has_id(b, (#[trigger] a[i]).0) && b[position(
        b,
        a[i].0,
    )].1 == a[i].1 by {
        let id = a[i].0;
        assert(has_id(a, id));
        assert(as_map(a).contains_key(id));
        assert(as_map(b).contains_key(id));
        assert(position(a, id) == i);
        assert(as_map(a)[id] == as_map(b)[id]);
    }
}

impl PartialEq for ColumnKeys {
    fn eq(&self, other: &Self) -> (r: bool) {
        proof {
            use_type_invariant(self);
            use_type_invariant(other);
            lemma_within_both_ways(self@, other@);
        }
        is_within(self, other) && is_within(other, self)
    }
}

impl vstd::std_specs::cmp::PartialEqSpecImpl for ColumnKeys {
    open spec fn obeys_eq_spec() -> bool {
        true
    }

    open spec fn eq_spec(&self, other: &Self) -> bool {
        as_map(self@) == as_map(other@)
    }
}

/// The columns of a master key, none where there is no entry for it.
pub open spec fn columns_of(entries: Seq<(Seq<char>, Seq<Seq<char>>)>, id: Seq<char>) -> Seq<
    Seq<char>,
> {
    if has_id(entries, id) {
        as_map(entries)[id]
    } else {
        Seq::empty()
    }
}

/// What is in the list of entries is in their map.
pub proof fn law_entries_are_mapped(entries: Seq<(Seq<char>, Seq<Seq<char>>)>)
    requires
        distinct_ids(entries),
    ensures
        forall|i: int|
            0 <= i < entries.len() ==> as_map(entries).contains_key((#[trigger] entries[i]).0)
                && as_map(entries)[entries[i].0] == entries[i].1,
        forall|id: Seq<char>| #[trigger]
            as_map(entries).contains_key(id) ==> exists|i: int|
                0 <= i < entries.len() && (#[trigger] entries[i]).0 == id,
{
    assert forall|i: int| 0 <= i < entries.len() implies as_map(entries).contains_key(
        (#[trigger] entries[i]).0,
    ) && as_map(entries)[entries[i].0] == entries[i].1 by {
        assert(has_id(entries, entries[i].0));
        assert(position(entries, entries[i].0) == i);
    }
}

/// Setting the columns of a master key gives it exactly these columns and leaves those of all
/// other master keys. Each master key still has one entry, and entries keep their places.
pub proof fn law_inserted_columns_replace(
    entries: Seq<(Seq<char>, Seq<Seq<char>>)>,
    id: Seq<char>,
    columns: Seq<Seq<char>>,
)
    requires
        distinct_ids(entries),
    ensures
        as_map(inserted(entries, id, columns)) == as_map(entries).insert(id, columns),
        distinct_ids(inserted(entries, id, columns)),
        inserted(entries, id, columns).len() == (if as_map(entries).contains_key(id) {
            entries.len()
        } else {
            entries.len() + 1
        }),
        forall|i: int|
            0 <= i < entries.len() ==> (#[trigger] inserted(entries, id, columns)[i]).0
                == entries[i].0,
{
    let after = inserted(entries, id, columns);
    if has_id(entries, id) {
        let at = position(entries, id);
        assert(entries[at].0 == id);
    }
    assert(distinct_ids(after)) by {
        assert forall|i: int, j: int| 0 <= i < j < after.len() implies (#[trigger] after[i]).0 != (
        #[trigger] after[j]).0 by {
            if j < entries.len() {
                assert(entries[i].0 != entries[j].0);
            } else {
                assert(entries[i].0 != id);
            }
        }
    }
    law_entries_are_mapped(entries);
    law_entries_are_mapped(after);
    assert forall|other: Seq<char>| as_map(after).contains_key(other) == as_map(entries).insert(
        id,
        columns,
    ).contains_key(other) by {
        if as_map(after).contains_key(other) && other != id {
            let i = choose|i: int| 0 <= i < after.len() && (#[trigger] after[i]).0 == other;
            assert(entries[i].0 == other);
        }
        if as_map(entries).contains_key(other) && other != id {
            let i = choose|i: int| 0 <= i < entries.len() && (#[trigger] entries[i]).0 == other;
            assert(after[i].0 == other);
        }
        if other == id {
            if has_id(entries, id) {
                assert(after[position(entries, id)].0 == id);
            } else {
                assert(after[entries.len() as int].0 == id);
            }
        }
    }
    assert forall|other: Seq<char>| as_map(after).contains_key(other) implies as_map(after)[other]
        == as_map(entries).insert(id, columns)[other] by {
        let i = choose|i: int| 0 <= i < after.len() && (#[trigger] after[i]).0 == other;
        if other != id {
            assert(entries[i].0 == other);
            assert(after[i] == entries[i]);
        } else if has_id(entries, id) {
            assert(after[position(entries, id)].0 == id);
        } else {
            assert(after[entries.len() as int].0 == id);
        }
    }
    assert(as_map(after) =~= as_map(entries).insert(id, columns));
}

/// Adding columns to a master key gives it the columns that it had followed by all of the added
/// ones, and leaves those of all other master keys. Each master key still has one entry, and
/// entries keep their places.
pub proof fn law_added_columns_follow(
    entries: Seq<(Seq<char>, Seq<Seq<char>>)>,
    id: Seq<char>,
    columns: Seq<Seq<char>>,
)
    requires
        distinct_ids(entries),
    ensures
        as_map(extended(entries, id, columns)) == as_map(entries).insert(
            id,
            columns_of(entries, id) + columns,
        ),
        distinct_ids(extended(entries, id, columns)),
        extended(entries, id, columns).len() == (if as_map(entries).contains_key(id) {
            entries.len()
        } else {
            entries.len() + 1
        }),
        forall|i: int|
            0 <= i < entries.len() ==> (#[trigger] extended(entries, id, columns)[i]).0
                == entries[i].0,
{
    law_inserted_columns_replace(entries, id, columns_of(entries, id) + columns);
    law_entries_are_mapped(entries);
    if has_id(entries, id) {
        assert(entries[position(entries, id)].0 == id);
        assert(extended(entries, id, columns) == inserted(
            entries,
            id,
            columns_of(entries, id) + columns,
        ));
    } else {
        assert(columns_of(entries, id) + columns =~= columns);
    }
}

} // verus!
