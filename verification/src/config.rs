//! Configuration for encrypting and decrypting Parquet files using a KMS.

use std::time::Duration;
use vstd::hash_map::StringHashMap;
use vstd::prelude::*;

use crate::column_keys::ColumnKeys;
use crate::column_keys::extended;
use crate::error::Error;
use crate::error::ErrorModel;
use crate::text::strings;
use crate::text_map::pairs;
use crate::time::lifetime_nanos;

verus! {

/// How long objects are cached by default, in seconds.
pub const DEFAULT_CACHE_LIFETIME_SECS: u64 = 600;

/// The default cache lifetime, in nanoseconds.
pub open spec fn default_lifetime() -> Option<u128> {
    Some((DEFAULT_CACHE_LIFETIME_SECS * crate::time::NANOS_PER_SEC) as u128)
}

/// The settings that an encryption configuration or its builder holds. Column keys are listed in
/// the order in which their master keys were added, and the cache lifetime is in nanoseconds.
pub struct EncryptionModel {
    pub footer_key_id: Seq<char>,
    pub column_key_ids: Seq<(Seq<char>, Seq<Seq<char>>)>,
    pub plaintext_footer: bool,
    pub double_wrapping: bool,
    pub cache_lifetime: Option<u128>,
    pub internal_key_material: bool,
    pub data_key_length_bits: u32,
}

/// Every configured column with its master key, in the order of the configuration.
pub open spec fn assignments(entries: Seq<(Seq<char>, Seq<Seq<char>>)>) -> Seq<
    (Seq<char>, Seq<char>),
>
    decreases entries.len(),
{
    if entries.len() == 0 {
        Seq::empty()
    } else {
        assignments(entries.drop_last()) + assigned_to(entries.last().0, entries.last().1)
    }
}

/// The columns of one master key, each paired with the key.
pub open spec fn assigned_to(id: Seq<char>, columns: Seq<Seq<char>>) -> Seq<
    (Seq<char>, Seq<char>),
> {
    columns.map_values(|column: Seq<char>| (id, column))
}

/// Whether no column is assigned twice.
pub open spec fn no_column_twice(assigned: Seq<(Seq<char>, Seq<char>)>) -> bool {
    forall|i: int, j: int|
        0 <= i < j < assigned.len() ==> (#[trigger] assigned[i]).1 != (#[trigger] assigned[j]).1
}

/// The message about a column that is assigned to `id` after it was assigned to `previous`.
pub open spec fn column_error(column: Seq<char>, id: Seq<char>, previous: Seq<char>) -> Seq<char> {
    if id == previous {
        "Invalid encryption configuration. Column '"@ + column
            + "' is repeated multiple times for master key id '"@ + id + "'"@
    } else {
        "Invalid encryption configuration. Column '"@ + column
            + "' is configured to use multiple master key ids: '"@ + id + "' and '"@ + previous
            + "'"@
    }
}

/// Whether `error` is about the first assignment whose column was assigned before.
pub open spec fn reports_first_repeat(
    error: ErrorModel,
    assigned: Seq<(Seq<char>, Seq<char>)>,
) -> bool {
    exists|i: int, j: int|
        0 <= i < j < assigned.len() && no_column_twice(assigned.take(j)) && (
        #[trigger] assigned[i]).1 == (#[trigger] assigned[j]).1 && error == ErrorModel::General(
            column_error(assigned[j].1, assigned[j].0, assigned[i].0),
        )
}

/// Configuration for encrypting a Parquet file using a KMS
#[derive(Debug)]
pub struct EncryptionConfiguration {
    footer_key_id: String,
    column_key_ids: ColumnKeys,
    plaintext_footer: bool,
    double_wrapping: bool,
    cache_lifetime: Option<Duration>,
    internal_key_material: bool,
    data_key_length_bits: u32,
}

impl View for EncryptionConfiguration {
    type V = EncryptionModel;

    closed spec fn view(&self) -> EncryptionModel {
        EncryptionModel {
            footer_key_id: self.footer_key_id@,
            column_key_ids: self.column_key_ids@,
            plaintext_footer: self.plaintext_footer,
            double_wrapping: self.double_wrapping,
            cache_lifetime: lifetime_nanos(self.cache_lifetime),
            internal_key_material: self.internal_key_material,
            data_key_length_bits: self.data_key_length_bits,
        }
    }
}

impl Clone for EncryptionConfiguration {
    fn clone(&self) -> (r: Self)
        ensures
            r@ == self@,
    {
        proof {
            use_type_invariant(self);
        }
        EncryptionConfiguration {
            footer_key_id: self.footer_key_id.clone(),
            column_key_ids: self.column_key_ids.clone(),
            plaintext_footer: self.plaintext_footer,
            double_wrapping: self.double_wrapping,
            cache_lifetime: self.cache_lifetime,
            internal_key_material: self.internal_key_material,
            data_key_length_bits: self.data_key_length_bits,
        }
    }
}

impl EncryptionConfiguration {
    #[verifier::type_invariant]
    spec fn columns_have_one_key(self) -> bool {
        no_column_twice(assignments(self@.column_key_ids))
    }

    /// Create a new builder for an [`EncryptionConfiguration`] using the specified
    /// master key identifier for footer encryption.
    pub fn builder(footer_key_id: String) -> (r: EncryptionConfigurationBuilder)
        ensures
            r@ == default_settings(footer_key_id@),
    {
        EncryptionConfigurationBuilder::new(footer_key_id)
    }

    /// Master key identifier for footer key encryption or signing
    pub fn footer_key_id(&self) -> (r: &str)
        ensures
            r@ == self@.footer_key_id,
    {
        self.footer_key_id.as_str()
    }

    /// The master key identifiers and the names of the columns encrypted with each key. No column
    /// is encrypted with two keys.
    pub fn column_key_ids(&self) -> (r: &ColumnKeys)
        ensures
            r@ == self@.column_key_ids,
            no_column_twice(assignments(r@)),
    {
        proof {
            use_type_invariant(self);
        }
        &self.column_key_ids
    }

    /// Whether to write the footer in plaintext.
    pub fn plaintext_footer(&self) -> (r: bool)
        ensures
            r == self@.plaintext_footer,
    {
        self.plaintext_footer
    }

    /// Whether to use double wrapping, where data encryption keys (DEKs) are wrapped
    /// with key encryption keys (KEKs), which are then wrapped with the KMS.
    /// This allows reducing interactions with the KMS.
    pub fn double_wrapping(&self) -> (r: bool)
        ensures
            r == self@.double_wrapping,
    {
        self.double_wrapping
    }

    /// How long to cache objects for, including decrypted key encryption keys
    /// and KMS clients. When None, clients are cached indefinitely.
    pub fn cache_lifetime(&self) -> (r: Option<Duration>)
        ensures
            lifetime_nanos(r) == self@.cache_lifetime,
    {
        self.cache_lifetime
    }

    /// Whether to store encryption key material inside Parquet file metadata,
    /// rather than in external JSON files.
    /// Using external key material allows for re-wrapping of data keys after
    /// rotation of master keys in the KMS.
    /// Currently only internal key material is implemented.
    pub fn internal_key_material(&self) -> (r: bool)
        ensures
            r == self@.internal_key_material,
    {
        self.internal_key_material
    }

    /// Number of bits for randomly generated data encryption keys.
    /// Currently only 128-bit keys are implemented.
    pub fn data_key_length_bits(&self) -> (r: u32)
        ensures
            r == self@.data_key_length_bits,
    {
        self.data_key_length_bits
    }
}

/// The settings of a new builder.
pub open spec fn default_settings(footer_key_id: Seq<char>) -> EncryptionModel {
    EncryptionModel {
        footer_key_id,
        column_key_ids: Seq::empty(),
        plaintext_footer: false,
        double_wrapping: true,
        cache_lifetime: default_lifetime(),
        internal_key_material: true,
        data_key_length_bits: 128,
    }
}

/// Builder for a Parquet [`EncryptionConfiguration`].
pub struct EncryptionConfigurationBuilder {
    footer_key_id: String,
    column_key_ids: ColumnKeys,
    plaintext_footer: bool,
    double_wrapping: bool,
    cache_lifetime: Option<Duration>,
    internal_key_material: bool,
    data_key_length_bits: u32,
}

impl View for EncryptionConfigurationBuilder {
    type V = EncryptionModel;

    closed spec fn view(&self) -> EncryptionModel {
        EncryptionModel {
            footer_key_id: self.footer_key_id@,
            column_key_ids: self.column_key_ids@,
            plaintext_footer: self.plaintext_footer,
            double_wrapping: self.double_wrapping,
            cache_lifetime: lifetime_nanos(self.cache_lifetime),
            internal_key_material: self.internal_key_material,
            data_key_length_bits: self.data_key_length_bits,
        }
    }
}

/// Whether `seen` holds exactly the columns of `assigned`, each with its master key.
spec fn records(seen: Map<Seq<char>, String>, assigned: Seq<(Seq<char>, Seq<char>)>) -> bool {
    &&& forall|k: int|
        0 <= k < assigned.len() ==> seen.contains_key((#[trigger] assigned[k]).1)
            && seen[assigned[k].1]@ == assigned[k].0
    &&& forall|c: Seq<char>| #[trigger]
        seen.contains_key(c) ==> exists|k: int|
            0 <= k < assigned.len() && (#[trigger] assigned[k]).1 == c
}

/// Writes the message about a column that is assigned twice.
fn column_error_text(column: &str, id: &str, previous: &str) -> (r: String)
    ensures
        r@ == column_error(column@, id@, previous@),
{
    let start = "Invalid encryption configuration. Column '".to_owned().concat(column);
    if crate::text::same_text(id, previous) {
        start.concat("' is repeated multiple times for master key id '").concat(id).concat("'")
    } else {
        start.concat("' is configured to use multiple master key ids: '").concat(id).concat(
            "' and '",
        ).concat(previous).concat("'")
    }
}

/// Lists every configured column with its master key, in the order of the configuration.
pub fn column_assignments(column_key_ids: &ColumnKeys) -> (r: Vec<(String, String)>)
    ensures
        pairs(r@) == assignments(column_key_ids@),
{
    let ghost entries = column_key_ids@;
    let mut assigned: Vec<(String, String)> = Vec::new();
    let count: usize = column_key_ids.len();
    assert(entries.take(0) =~= Seq::<(Seq<char>, Seq<Seq<char>>)>::empty());
    assert(pairs(assigned@) =~= assignments(entries.take(0)));
    for i in 0..count
        invariant
            count == entries.len(),
            entries == column_key_ids@,
            pairs(assigned@) == assignments(entries.take(i as int)),
    {
        let entry = column_key_ids.entry(i);
        let ghost before = pairs(assigned@);
        let ghost here = assigned_to(entry.master_key_id@, strings(entry.columns@));
        assert(entries.take(i + 1).drop_last() =~= entries.take(i as int));
        assert(before + here.take(0) =~= before);
        for j in 0..entry.columns.len()
            invariant
                here == assigned_to(entry.master_key_id@, strings(entry.columns@)),
                pairs(assigned@) == before + here.take(j as int),
        {
            let ghost done = pairs(assigned@);
            assigned.push((entry.master_key_id.clone(), entry.columns[j].clone()));
            assert(pairs(assigned@) =~= done.push(here[j as int]));
            assert(before + here.take(j + 1) =~= done.push(here[j as int]));
        }
        assert(here.take(here.len() as int) =~= here);
    }
    assert(entries.take(entries.len() as int) =~= entries);
    assigned
}

/// Finds the first column that is assigned twice.
fn check_columns(assigned: &Vec<(String, String)>) -> (r: Result<(), Error>)
    ensures
        r is Ok <==> no_column_twice(pairs(assigned@)),
        r matches Err(e) ==> reports_first_repeat(e@, pairs(assigned@)),
{
    let ghost all = pairs(assigned@);
    let mut seen_columns: StringHashMap<String> = StringHashMap::new();
    for i in 0..assigned.len()
        invariant
            all == pairs(assigned@),
            no_column_twice(all.take(i as int)),
            records(seen_columns@, all.take(i as int)),
    {
        let id = &assigned[i].0;
        let column = &assigned[i].1;
        let ghost done = all.take(i as int);
        let ghost next = all.take(i + 1);
        assert(all[i as int] == (id@, column@));
        assert(next =~= done.push(all[i as int]));
        match seen_columns.get(column.as_str()) {
            Some(previous) => {
                let message = column_error_text(column.as_str(), id.as_str(), previous.as_str());
                proof {
                    let k = choose|k: int| 0 <= k < done.len() && (#[trigger] done[k]).1 == column@;
                    assert(all[k] == done[k]);
                    assert(all[k].1 == all[i as int].1);
                    assert(reports_first_repeat(ErrorModel::General(message@), all));
                }
                return Err(Error::General(message));
            },
            None => {
                seen_columns.insert(column.clone(), id.clone());
                proof {
                    assert forall|a: int, b: int| 0 <= a < b < next.len() implies (
                    #[trigger] next[a]).1 != (#[trigger] next[b]).1 by {
                        assert(next[a] == done[a]);
                        if b < done.len() {
                            assert(next[b] == done[b]);
                        }
                    }
                    assert forall|c: Seq<char>| #[trigger]
                        seen_columns@.contains_key(c) implies exists|k: int|
                        0 <= k < next.len() && (#[trigger] next[k]).1 == c by {
                        if c == column@ {
                            assert(next[i as int].1 == c);
                        } else {
                            let k = choose|k: int|
                                0 <= k < done.len() && (#[trigger] done[k]).1 == c;
                            assert(next[k].1 == c);
                        }
                    }
                    assert forall|k: int| 0 <= k < next.len() implies seen_columns@.contains_key(
                        (#[trigger] next[k]).1,
                    ) && seen_columns@[next[k].1]@ == next[k].0 by {
                        if k < done.len() {
                            assert(next[k] == done[k]);
                        }
                    }
                }
            },
        }
    }
    assert(all.take(all.len() as int) =~= all);
    Ok(())
}

impl EncryptionConfigurationBuilder {
    /// Create a new [`EncryptionConfigurationBuilder`] using the specified master key
    /// identifier for footer encryption and default values for other options.
    pub fn new(footer_key_id: String) -> (r: Self)
        ensures
            r@ == default_settings(footer_key_id@),
    {
        Self {
            footer_key_id,
            column_key_ids: ColumnKeys::new(),
            plaintext_footer: false,
            double_wrapping: true,
            cache_lifetime: Some(Duration::from_secs(DEFAULT_CACHE_LIFETIME_SECS)),
            internal_key_material: true,
            data_key_length_bits: 128,
        }
    }

    /// Finalizes the encryption configuration to be used
    pub fn build(self) -> (r: Result<EncryptionConfiguration, Error>)
        ensures
            r is Ok <==> no_column_twice(assignments(self@.column_key_ids)),
            r matches Ok(config) ==> config@ == self@,
            r matches Err(e) ==> reports_first_repeat(e@, assignments(self@.column_key_ids)),
    {
        match check_columns(&column_assignments(&self.column_key_ids)) {
            Ok(_) => Ok(
                EncryptionConfiguration {
                    footer_key_id: self.footer_key_id,
                    column_key_ids: self.column_key_ids,
                    plaintext_footer: self.plaintext_footer,
                    double_wrapping: self.double_wrapping,
                    cache_lifetime: self.cache_lifetime,
                    internal_key_material: self.internal_key_material,
                    data_key_length_bits: self.data_key_length_bits,
                },
            ),
            Err(e) => Err(e),
        }
    }

    /// Specify a column master key identifier and the column names to be encrypted with this key.
    /// Note that if no column keys are specified, uniform encryption is used where all columns
    /// are encrypted with the footer key.
    pub fn add_column_key(self, master_key_id: String, column_paths: Vec<String>) -> (r: Self)
        ensures
            r@ == (EncryptionModel {
                column_key_ids: extended(
                    self@.column_key_ids,
                    master_key_id@,
                    strings(column_paths@),
                ),
                ..self@
            }),
    {
        let mut builder = self;
        builder.column_key_ids.extend(master_key_id, column_paths);
        builder
    }

    /// Set whether to write the footer in plaintext.
    /// Defaults to false.
    pub fn set_plaintext_footer(self, plaintext_footer: bool) -> (r: Self)
        ensures
            r@ == (EncryptionModel { plaintext_footer, ..self@ }),
    {
        Self { plaintext_footer, ..self }
    }

    /// Set whether to use double wrapping, where data encryption keys (DEKs) are wrapped
    /// with key encryption keys (KEKs), which are then wrapped with the KMS.
    /// This allows reducing interactions with the KMS.
    /// Defaults to True.
    pub fn set_double_wrapping(self, double_wrapping: bool) -> (r: Self)
        ensures
            r@ == (EncryptionModel { double_wrapping, ..self@ }),
    {
        Self { double_wrapping, ..self }
    }

    /// Set how long to cache objects for, including decrypted key encryption keys
    /// and KMS clients. When None, clients are cached indefinitely.
    /// Defaults to 10 minutes.
    pub fn set_cache_lifetime(self, lifetime: Option<Duration>) -> (r: Self)
        ensures
            r@ == (EncryptionModel { cache_lifetime: lifetime_nanos(lifetime), ..self@ }),
    {
        Self { cache_lifetime: lifetime, ..self }
    }
}

/// Configuration for decrypting a Parquet file using a KMS. Its view is the cache lifetime in
/// nanoseconds.
#[derive(Debug)]
pub struct DecryptionConfiguration {
    cache_lifetime: Option<Duration>,
}

impl Clone for DecryptionConfiguration {
    fn clone(&self) -> (r: Self)
        ensures
            r@ == self@,
    {
        DecryptionConfiguration { cache_lifetime: self.cache_lifetime }
    }
}

impl View for DecryptionConfiguration {
    type V = Option<u128>;

    closed spec fn view(&self) -> Option<u128> {
        lifetime_nanos(self.cache_lifetime)
    }
}

impl DecryptionConfiguration {
    /// Create a new builder for a [`DecryptionConfiguration`]
    pub fn builder() -> (r: DecryptionConfigurationBuilder)
        ensures
            r@ == default_lifetime(),
    {
        DecryptionConfigurationBuilder::default()
    }

    /// How long to cache objects for, including decrypted key encryption keys
    /// and KMS clients. When None, objects are cached indefinitely.
    pub fn cache_lifetime(&self) -> (r: Option<Duration>)
        ensures
            lifetime_nanos(r) == self@,
    {
        self.cache_lifetime
    }
}

impl Default for DecryptionConfiguration {
    fn default() -> (r: Self)
        ensures
            r@ == default_lifetime(),
    {
        DecryptionConfigurationBuilder::default().build()
    }
}

/// Builder for a Parquet [`DecryptionConfiguration`]. Its view is the cache lifetime in
/// nanoseconds.
pub struct DecryptionConfigurationBuilder {
    cache_lifetime: Option<Duration>,
}

impl View for DecryptionConfigurationBuilder {
    type V = Option<u128>;

    closed spec fn view(&self) -> Option<u128> {
        lifetime_nanos(self.cache_lifetime)
    }
}

impl DecryptionConfigurationBuilder {
    /// Create a new [`DecryptionConfigurationBuilder`] with default options
    pub fn new() -> (r: Self)
        ensures
            r@ == default_lifetime(),
    {
        Self { cache_lifetime: Some(Duration::from_secs(DEFAULT_CACHE_LIFETIME_SECS)) }
    }

    /// Finalizes the decryption configuration to be used
    pub fn build(self) -> (r: DecryptionConfiguration)
        ensures
            r@ == self@,
    {
        DecryptionConfiguration { cache_lifetime: self.cache_lifetime }
    }

    /// Set how long to cache objects for, including decrypted key encryption keys
    /// and KMS clients. When None, objects are cached indefinitely.
    pub fn set_cache_lifetime(self, cache_lifetime: Option<Duration>) -> (r: Self)
        ensures
            r@ == lifetime_nanos(cache_lifetime),
    {
        Self { cache_lifetime }
    }
}

impl Default for DecryptionConfigurationBuilder {
    fn default() -> (r: Self)
        ensures
            r@ == default_lifetime(),
    {
        Self::new()
    }
}

/// The number of columns of the first entries.
pub open spec fn columns_before(entries: Seq<(Seq<char>, Seq<Seq<char>>)>, n: int) -> int
    decreases n,
{
    if n <= 0 {
        0
    } else {
        columns_before(entries, n - 1) + entries[n - 1].1.len()
    }
}

/// Each column of each entry is assigned to the master key of the entry, after the columns of the
/// entries and columns before it.
pub proof fn law_every_column_is_assigned(
    entries: Seq<(Seq<char>, Seq<Seq<char>>)>,
    i: int,
    j: int,
)
    requires
        0 <= i < entries.len(),
        0 <= j < entries[i].1.len(),
    ensures
        0 <= columns_before(entries, i) + j < assignments(entries).len(),
        assignments(entries)[columns_before(entries, i) + j] == (entries[i].0, entries[i].1[j]),
    decreases entries.len(),
{
    let first = entries.drop_last();
    let n = first.len() as int;
    let here = assigned_to(entries[n].0, entries[n].1);
    lemma_assignment_count(first);
    lemma_columns_before_of_prefix(entries, i);
    lemma_columns_before_of_prefix(entries, n);
    assert(assignments(entries) == assignments(first) + here);
    if i < n {
        law_every_column_is_assigned(first, i, j);
    } else {
        assert(here[j] == (entries[n].0, entries[n].1[j]));
    }
}

proof fn lemma_assignment_count(entries: Seq<(Seq<char>, Seq<Seq<char>>)>)
    ensures
        assignments(entries).len() == columns_before(entries, entries.len() as int),
    decreases entries.len(),
{
    if entries.len() > 0 {
        lemma_assignment_count(entries.drop_last());
        lemma_columns_before_of_prefix(entries, entries.len() - 1);
    }
}

/// There are as many assignments as columns in the entries, and each assignment is a column of an
/// entry with the master key of the entry.
pub proof fn law_nothing_else_is_assigned(
    entries: Seq<(Seq<char>, Seq<Seq<char>>)>,
    k: int,
) -> (place: (int, int))
    requires
        0 <= k < assignments(entries).len(),
    ensures
        assignments(entries).len() == columns_before(entries, entries.len() as int),
        0 <= place.0 < entries.len(),
        0 <= place.1 < entries[place.0].1.len(),
        columns_before(entries, place.0) + place.1 == k,
        assignments(entries)[k] == (entries[place.0].0, entries[place.0].1[place.1]),
    decreases entries.len(),
{
    let first = entries.drop_last();
    let n = first.len() as int;
    let here = assigned_to(entries[n].0, entries[n].1);
    lemma_assignment_count(entries);
    lemma_assignment_count(first);
    lemma_columns_before_of_prefix(entries, n);
    assert(assignments(entries) == assignments(first) + here);
    if k < assignments(first).len() {
        let place = law_nothing_else_is_assigned(first, k);
        lemma_columns_before_of_prefix(entries, place.0);
        place
    } else {
        (n, k - assignments(first).len())
    }
}

proof fn lemma_columns_before_of_prefix(entries: Seq<(Seq<char>, Seq<Seq<char>>)>, n: int)
    requires
        0 <= n < entries.len(),
    ensures
        columns_before(entries.drop_last(), n) == columns_before(entries, n),
    decreases n,
{
    if n > 0 {
        lemma_columns_before_of_prefix(entries, n - 1);
    }
}

/// Whether a column stands at no two places of the entries, be it for one master key or for two.
pub open spec fn columns_differ(entries: Seq<(Seq<char>, Seq<Seq<char>>)>) -> bool {
    forall|i: int, a: int, j: int, b: int|
        0 <= i < entries.len() && 0 <= a < entries[i].1.len() && 0 <= j < entries.len() && 0 <= b
            < entries[j].1.len() && (i != j || a != b) ==> #[trigger] entries[i].1[a]
            != #[trigger] entries[j].1[b]
}

proof fn lemma_columns_before_grow(
    entries: Seq<(Seq<char>, Seq<Seq<char>>)>,
    i: int,
    j: int,
)
    requires
        0 <= i < j <= entries.len(),
    ensures
        columns_before(entries, i) + entries[i].1.len() <= columns_before(entries, j),
    decreases j - i,
{
    if i + 1 < j {
        lemma_columns_before_grow(entries, i, j - 1);
    }
}

/// A configuration is accepted exactly where no column stands at two places of it.
pub proof fn law_columns_at_two_places_are_refused(entries: Seq<(Seq<char>, Seq<Seq<char>>)>)
    ensures
        no_column_twice(assignments(entries)) == columns_differ(entries),
{
    let all = assignments(entries);
    if no_column_twice(all) {
        assert forall|i: int, a: int, j: int, b: int|
            0 <= i < entries.len() && 0 <= a < entries[i].1.len() && 0 <= j < entries.len() && 0
                <= b < entries[j].1.len() && (i != j || a != b) implies #[trigger] entries[i].1[a]
            != #[trigger] entries[j].1[b] by {
            let k = columns_before(entries, i) + a;
            let l = columns_before(entries, j) + b;
            law_every_column_is_assigned(entries, i, a);
            law_every_column_is_assigned(entries, j, b);
            assert(all[k] == (entries[i].0, entries[i].1[a]));
            assert(all[l] == (entries[j].0, entries[j].1[b]));
            if i < j {
                lemma_columns_before_grow(entries, i, j);
            } else if j < i {
                lemma_columns_before_grow(entries, j, i);
            }
            assert(k != l);
            if k < l {
                assert(all[k].1 != all[l].1);
            } else {
                assert(all[l].1 != all[k].1);
            }
        }
    }
    if columns_differ(entries) {
        assert forall|k: int, l: int| 0 <= k < l < all.len() implies (#[trigger] all[k]).1 != (
        #[trigger] all[l]).1 by {
            let (i, a) = law_nothing_else_is_assigned(entries, k);
            let (j, b) = law_nothing_else_is_assigned(entries, l);
            assert(entries[i].1[a] != entries[j].1[b]);
        }
    }
}

/// A new configuration has no column keys, an encrypted footer, double wrapping, a cache lifetime of
/// ten minutes, internal key material and data keys of 128 bits.
pub proof fn law_new_configurations_have_the_defaults(footer_key_id: Seq<char>)
    ensures
        default_settings(footer_key_id).footer_key_id == footer_key_id,
        default_settings(footer_key_id).column_key_ids.len() == 0,
        !default_settings(footer_key_id).plaintext_footer,
        default_settings(footer_key_id).double_wrapping,
        default_settings(footer_key_id).cache_lifetime == Some(600_000_000_000u128),
        default_settings(footer_key_id).internal_key_material,
        default_settings(footer_key_id).data_key_length_bits == 128,
        default_lifetime() == Some(600_000_000_000u128),
{
}

/// The error for a refused configuration is about the first column that was assigned before, with
/// the master key to which it is assigned now and the one to which it was assigned.
pub proof fn law_first_repeat_is_reported(
    assigned: Seq<(Seq<char>, Seq<char>)>,
    i: int,
    j: int,
    error: ErrorModel,
)
    requires
        0 <= i < j < assigned.len(),
        assigned[i].1 == assigned[j].1,
        forall|a: int, b: int|
            0 <= a < b < j ==> (#[trigger] assigned[a]).1 != (#[trigger] assigned[b]).1,
        reports_first_repeat(error, assigned),
    ensures
        assigned[i].0 == assigned[j].0 ==> error == ErrorModel::General(
            "Invalid encryption configuration. Column '"@ + assigned[j].1
                + "' is repeated multiple times for master key id '"@ + assigned[j].0 + "'"@,
        ),
        assigned[i].0 != assigned[j].0 ==> error == ErrorModel::General(
            "Invalid encryption configuration. Column '"@ + assigned[j].1
                + "' is configured to use multiple master key ids: '"@ + assigned[j].0 + "' and '"@
                + assigned[i].0 + "'"@,
        ),
{
    let (a, b) = choose|a: int, b: int|
        0 <= a < b < assigned.len() && no_column_twice(assigned.take(b)) && (
        #[trigger] assigned[a]).1 == (#[trigger] assigned[b]).1 && error == ErrorModel::General(
            column_error(assigned[b].1, assigned[b].0, assigned[a].0),
        );
    let done = assigned.take(b);
    if j < b {
        assert(done[i].1 != done[j].1);
    }
    assert(b == j);
    if a < i {
        assert(assigned[a].1 != assigned[i].1);
    } else if i < a {
        assert(assigned[i].1 != assigned[a].1);
    }
}

} // verus!
