//! The key-management tools API for building file encryption and decryption properties that work
//! with a Key Management Server.

use parquet::encryption::encrypt::FileEncryptionProperties;
use std::time::Duration;
use vstd::prelude::*;
use vstd::utf8::decode_utf8;
use vstd::utf8::valid_utf8;

use crate::config::DecryptionConfiguration;
use crate::config::EncryptionConfiguration;
use crate::config::EncryptionModel;
use crate::config::assignments;
use crate::config::column_assignments;
use crate::config::no_column_twice;
use crate::crypto::KEY_LENGTH;
use crate::crypto::draw_failed;
use crate::crypto::drawn;
use crate::crypto::unspecified;
use crate::crypto::unspecified_error;
use crate::error::Error;
use crate::error::ErrorModel;
use crate::error::bytes_outcome;
use crate::kek_caches::CacheModel;
use crate::kek_caches::acquires;
use crate::kek_caches::count_shared;
use crate::kek_caches::has_passed;
use crate::kek_caches::holders_of;
use crate::kek_caches::is_held;
use crate::kek_caches::keys_of;
use crate::kek_caches::law_acquired_cache_is_held;
use crate::kek_caches::law_acquisition_keeps_one_shared;
use crate::kek_caches::law_cache_is_shared_until_it_expires;
use crate::kek_caches::law_release_undoes_acquisition;
use crate::kek_caches::lemma_new_cache_starts;
use crate::kek_caches::lemma_shared_as_before;
use crate::kek_caches::one_shared_per_token;
use crate::kek_caches::released;
use crate::kek_caches::same_but_keys;
use crate::kek_caches::shared_for;
use crate::key_material::reads_back;
use crate::key_unwrapper::KeyUnwrapper;
use crate::key_unwrapper::UnwrapperModel;
use crate::key_unwrapper::keeps_no_other_kek;
use crate::key_unwrapper::law_retrieved_key_is_the_stored_key;
use crate::key_unwrapper::retrieval_fails;
use crate::key_unwrapper::retrieves;
use crate::key_unwrapper::with_token;
use crate::key_wrapper::KeyWrapper;
use crate::key_wrapper::WrapperModel;
use crate::key_wrapper::keeps_all;
use crate::key_wrapper::kept_keks;
use crate::key_wrapper::lemma_caches_while_storing;
use crate::key_wrapper::lemma_draws_while_storing;
use crate::key_wrapper::lemma_stored_key;
use crate::key_wrapper::makes_metadata;
use crate::key_wrapper::protects;
use crate::key_wrapper::stored_location;
use crate::key_wrapper::wrapped_under;
use crate::key_wrapper::wrapper_closed;
use crate::kms::ConfigModel;
use crate::kms::KmsClientFactory;
use crate::kms::KmsConnectionConfig;
use crate::kms::is_faithful;
use crate::kms::is_reliable;
use crate::kms_manager::CacheStats;
use crate::kms_manager::KeyEncryptionKey;
use crate::kms_manager::KmsManager;
use crate::kms_manager::ManagerModel;
use crate::kms_manager::with_draw;
use crate::properties::PropertiesModel;
use crate::properties::builder_held;
use crate::properties::properties_held;
use crate::text_map::pairs;
use crate::time::duration_nanos;

verus! {

/// An encryption key, and the metadata that is stored for it.
pub struct EncryptionKey {
    pub key: Vec<u8>,
    pub metadata: Vec<u8>,
}

impl View for EncryptionKey {
    type V = (Seq<u8>, Seq<u8>);

    open spec fn view(&self) -> (Seq<u8>, Seq<u8>) {
        (self.key@, self.metadata@)
    }
}

impl EncryptionKey {
    /// Put an encryption key together with its metadata.
    pub fn new(key: Vec<u8>, metadata: Vec<u8>) -> (r: Self)
        ensures
            r@ == (key@, metadata@),
    {
        Self { key, metadata }
    }
}

/// What the generation of a key came to.
pub open spec fn key_outcome(r: Result<EncryptionKey, Error>) -> Result<
    (Seq<u8>, Seq<u8>),
    ErrorModel,
> {
    match r {
        Ok(key) => Ok(key@),
        Err(e) => Err(e@),
    }
}

/// A key, given what making its metadata came to.
pub open spec fn key_with(key: Seq<u8>, metadata: Result<Seq<u8>, ErrorModel>) -> Result<
    (Seq<u8>, Seq<u8>),
    ErrorModel,
> {
    match metadata {
        Ok(bytes) => Ok((key, bytes)),
        Err(e) => Err(e),
    }
}

/// Whether generating a key can have an outcome. The key is what the random generator gives for
/// it, where it does not fail.
pub open spec fn generates_key<F: KmsClientFactory>(
    before: ManagerModel<F>,
    after: ManagerModel<F>,
    wrapper: WrapperModel,
    request: (Seq<char>, bool),
    now: u128,
    outcome: Result<(Seq<u8>, Seq<u8>), ErrorModel>,
) -> bool {
    ||| draw_failed(KEY_LENGTH) && after == before && outcome == Err::<
        (Seq<u8>, Seq<u8>),
        ErrorModel,
    >(unspecified())
    ||| exists|key: Seq<u8>, metadata: Result<Seq<u8>, ErrorModel>|
        key.len() == KEY_LENGTH && drawn(key, KEY_LENGTH) && #[trigger] makes_metadata(
            with_draw(before, key),
            after,
            wrapper,
            key,
            request.0,
            request.1,
            now,
            metadata,
        ) && outcome == key_with(key, metadata)
}

/// Whether one more key can be generated, given what generating the keys before it came to.
pub open spec fn generates_next<F: KmsClientFactory>(
    between: ManagerModel<F>,
    after: ManagerModel<F>,
    wrapper: WrapperModel,
    request: (Seq<char>, bool),
    now: u128,
    first: Result<Seq<(Seq<u8>, Seq<u8>)>, ErrorModel>,
    outcome: Result<Seq<(Seq<u8>, Seq<u8>)>, ErrorModel>,
) -> bool {
    match first {
        Ok(keys) => exists|next: Result<(Seq<u8>, Seq<u8>), ErrorModel>| #[trigger]
            generates_key(between, after, wrapper, request, now, next) && outcome == (match next {
                Ok(key) => Ok::<Seq<(Seq<u8>, Seq<u8>)>, ErrorModel>(keys.push(key)),
                Err(e) => Err(e),
            }),
        Err(e) => after == between && outcome == first,
    }
}

/// Whether generating a key for each request, one after the other, can have an outcome. Each
/// request is a master key identifier and whether it is for a footer key. Once a key cannot be
/// generated, no more are.
pub open spec fn generates_all<F: KmsClientFactory>(
    before: ManagerModel<F>,
    after: ManagerModel<F>,
    wrapper: WrapperModel,
    requests: Seq<(Seq<char>, bool)>,
    now: u128,
    outcome: Result<Seq<(Seq<u8>, Seq<u8>)>, ErrorModel>,
) -> bool
    decreases requests.len(),
{
    if requests.len() == 0 {
        after == before && outcome == Ok::<Seq<(Seq<u8>, Seq<u8>)>, ErrorModel>(Seq::empty())
    } else {
        exists|between: ManagerModel<F>, first: Result<Seq<(Seq<u8>, Seq<u8>)>, ErrorModel>|
            generates_all(before, between, wrapper, requests.drop_last(), now, first)
                && #[trigger] generates_next(
                between,
                after,
                wrapper,
                requests.last(),
                now,
                first,
                outcome,
            )
    }
}

/// The keys that are requested for a file: a footer key, and one key for each encrypted column.
pub open spec fn key_requests(
    footer_key_id: Seq<char>,
    pairs: Seq<(Seq<char>, Seq<char>)>,
) -> Seq<(Seq<char>, bool)> {
    seq![(footer_key_id, true)] + pairs.map_values(|pair: (Seq<char>, Seq<char>)| (pair.0, false))
}

/// The column keys of a file, once the keys for its columns were generated.
pub open spec fn columns_with(
    pairs: Seq<(Seq<char>, Seq<char>)>,
    keys: Seq<(Seq<u8>, Seq<u8>)>,
) -> Map<Seq<char>, (Seq<u8>, Option<Seq<u8>>)>
    decreases pairs.len(),
{
    if pairs.len() == 0 {
        Map::empty()
    } else {
        columns_with(pairs.drop_last(), keys).insert(
            pairs.last().1,
            (keys[pairs.len() as int].0, Some(keys[pairs.len() as int].1)),
        )
    }
}

/// The properties of a file, once its keys were generated: the footer key first, and then the keys
/// of the columns in the order of the configuration.
pub open spec fn properties_with(
    plaintext_footer: bool,
    pairs: Seq<(Seq<char>, Seq<char>)>,
    keys: Seq<(Seq<u8>, Seq<u8>)>,
) -> PropertiesModel {
    PropertiesModel {
        footer_key: keys[0].0,
        footer_key_metadata: Some(keys[0].1),
        encrypt_footer: !plaintext_footer,
        column_keys: columns_with(pairs, keys),
        aad_prefix: None,
    }
}

/// The properties of a file, given what generating its keys came to.
pub open spec fn properties_from(
    settings: EncryptionModel,
    generated: Result<Seq<(Seq<u8>, Seq<u8>)>, ErrorModel>,
) -> Result<PropertiesModel, ErrorModel> {
    match generated {
        Ok(keys) => Ok(
            properties_with(
                settings.plaintext_footer,
                assignments(settings.column_key_ids),
                keys,
            ),
        ),
        Err(e) => Err(e),
    }
}

/// Whether a key is as long as it must be, and its metadata holds it in a form from which the KMS
/// can give it back.
pub open spec fn is_protected<F: KmsClientFactory>(
    factory: F,
    wrapper: WrapperModel,
    request: (Seq<char>, bool),
    key: (Seq<u8>, Seq<u8>),
) -> bool {
    &&& key.0.len() == KEY_LENGTH
    &&& protects(
        factory,
        key.1,
        stored_location(wrapper.config, request.1),
        key.0,
        request.0,
        wrapper.settings.double_wrapping,
    )
}

/// Whether there is a protected key for each request.
pub open spec fn all_protected<F: KmsClientFactory>(
    factory: F,
    wrapper: WrapperModel,
    requests: Seq<(Seq<char>, bool)>,
    keys: Seq<(Seq<u8>, Seq<u8>)>,
) -> bool {
    &&& keys.len() == requests.len()
    &&& forall|i: int|
        0 <= i < requests.len() ==> is_protected(factory, wrapper, requests[i], #[trigger] keys[i])
}

/// Why a configuration cannot be used for encryption, if it cannot.
pub open spec fn unimplemented_setting(settings: EncryptionModel) -> Option<ErrorModel> {
    if !settings.internal_key_material {
        Some(ErrorModel::Nyi("External key material is not yet implemented"@))
    } else if settings.data_key_length_bits != 128 {
        Some(ErrorModel::Nyi("Only 128 bit data keys are currently implemented"@))
    } else {
        None
    }
}

/// Whether generating the keys of a file with a key wrapper can have an outcome.
pub open spec fn generates_file_keys<F: KmsClientFactory>(
    before: ManagerModel<F>,
    after: ManagerModel<F>,
    wrapper: WrapperModel,
    now: u128,
    outcome: Result<PropertiesModel, ErrorModel>,
) -> bool {
    let requests = key_requests(
        wrapper.settings.footer_key_id,
        assignments(wrapper.settings.column_key_ids),
    );
    exists|generated: Result<Seq<(Seq<u8>, Seq<u8>)>, ErrorModel>| #[trigger]
        generates_all(before, after, wrapper, requests, now, generated) && outcome
            == properties_from(wrapper.settings, generated) && (generated matches Ok(keys)
            ==> all_protected(before.factory, wrapper, requests, keys))
}

/// Whether making encryption properties can have an outcome. The key wrapper that generates the
/// keys holds a cache of key encryption keys only for as long as it is needed.
pub open spec fn makes_properties<F: KmsClientFactory>(
    before: ManagerModel<F>,
    after: ManagerModel<F>,
    config: ConfigModel,
    settings: EncryptionModel,
    now: u128,
    outcome: Result<PropertiesModel, ErrorModel>,
) -> bool {
    match unimplemented_setting(settings) {
        Some(e) => after == before && outcome == Err::<PropertiesModel, ErrorModel>(e),
        None => exists|acquired: ManagerModel<F>, used: ManagerModel<F>, cache: int|
            acquires(
                before.write_caches,
                acquired.write_caches,
                config.key_access_token,
                settings.cache_lifetime,
                now,
                cache,
            ) && acquired == (ManagerModel { write_caches: acquired.write_caches, ..before })
                && #[trigger] generates_file_keys(
                acquired,
                used,
                WrapperModel { config, settings, cache },
                now,
                outcome,
            ) && after == wrapper_closed(used, cache),
    }
}

/// What the making of encryption properties came to.
pub open spec fn properties_outcome(r: Result<FileEncryptionProperties, Error>) -> Result<
    PropertiesModel,
    ErrorModel,
> {
    match r {
        Ok(properties) => Ok(properties_held(properties)),
        Err(e) => Err(e@),
    }
}

proof fn lemma_failure_lasts<F: KmsClientFactory>(
    before: ManagerModel<F>,
    after: ManagerModel<F>,
    wrapper: WrapperModel,
    requests: Seq<(Seq<char>, bool)>,
    n: int,
    now: u128,
    error: ErrorModel,
)
    requires
        0 <= n <= requests.len(),
        generates_all(
            before,
            after,
            wrapper,
            requests.take(n),
            now,
            Err::<Seq<(Seq<u8>, Seq<u8>)>, ErrorModel>(error),
        ),
    ensures
        generates_all(
            before,
            after,
            wrapper,
            requests,
            now,
            Err::<Seq<(Seq<u8>, Seq<u8>)>, ErrorModel>(error),
        ),
    decreases requests.len(),
{
    if n == requests.len() {
        assert(requests.take(n) =~= requests);
    } else {
        assert(requests.drop_last().take(n) =~= requests.take(n));
        lemma_failure_lasts(before, after, wrapper, requests.drop_last(), n, now, error);
        let failure = Err::<Seq<(Seq<u8>, Seq<u8>)>, ErrorModel>(error);
        assert(generates_next(after, after, wrapper, requests.last(), now, failure, failure));
    }
}

proof fn lemma_one_more_key<F: KmsClientFactory>(
    before: ManagerModel<F>,
    between: ManagerModel<F>,
    after: ManagerModel<F>,
    wrapper: WrapperModel,
    requests: Seq<(Seq<char>, bool)>,
    request: (Seq<char>, bool),
    now: u128,
    keys: Seq<(Seq<u8>, Seq<u8>)>,
    next: Result<(Seq<u8>, Seq<u8>), ErrorModel>,
)
    requires
        generates_all(
            before,
            between,
            wrapper,
            requests,
            now,
            Ok::<Seq<(Seq<u8>, Seq<u8>)>, ErrorModel>(keys),
        ),
        generates_key(between, after, wrapper, request, now, next),
    ensures
        match next {
            Ok(key) => generates_all(
                before,
                after,
                wrapper,
                requests.push(request),
                now,
                Ok::<Seq<(Seq<u8>, Seq<u8>)>, ErrorModel>(keys.push(key)),
            ),
            Err(e) => generates_all(
                before,
                after,
                wrapper,
                requests.push(request),
                now,
                Err::<Seq<(Seq<u8>, Seq<u8>)>, ErrorModel>(e),
            ),
        },
{
    assert(requests.push(request).drop_last() =~= requests);
    assert(requests.push(request).last() == request);
    let first = Ok::<Seq<(Seq<u8>, Seq<u8>)>, ErrorModel>(keys);
    match next {
        Ok(key) => {
            let all = Ok::<Seq<(Seq<u8>, Seq<u8>)>, ErrorModel>(keys.push(key));
            assert(generates_next(between, after, wrapper, request, now, first, all));
            assert(generates_all(before, after, wrapper, requests.push(request), now, all));
        },
        Err(e) => {
            let failure = Err::<Seq<(Seq<u8>, Seq<u8>)>, ErrorModel>(e);
            assert(generates_next(between, after, wrapper, request, now, first, failure));
        },
    }
}

/// Generates a key and its metadata.
fn generate_key<F: KmsClientFactory>(
    kms_manager: &mut KmsManager<F>,
    key_wrapper: &KeyWrapper<'_>,
    master_key_identifier: &str,
    is_footer_key: bool,
    now: Duration,
) -> (r: Result<EncryptionKey, Error>)
    ensures
        generates_key(
            old(kms_manager)@,
            final(kms_manager)@,
            key_wrapper@,
            (master_key_identifier@, is_footer_key),
            duration_nanos(now),
            key_outcome(r),
        ),
        r matches Ok(key) ==> is_protected(
            old(kms_manager)@.factory,
            key_wrapper@,
            (master_key_identifier@, is_footer_key),
            key@,
        ),
        final(kms_manager)@.factory == old(kms_manager)@.factory,
{
    let key = match kms_manager.draw(KEY_LENGTH) {
        Ok(key) => key,
        Err(e) => return Err(unspecified_error(e)),
    };
    let made = key_wrapper.get_key_metadata(
        kms_manager,
        key.as_slice(),
        master_key_identifier,
        is_footer_key,
        now,
    );
    let ghost metadata_outcome = bytes_outcome(made);
    let ghost request = (master_key_identifier@, is_footer_key);
    assert(makes_metadata(
        with_draw(old(kms_manager)@, key@),
        kms_manager@,
        key_wrapper@,
        key@,
        request.0,
        request.1,
        duration_nanos(now),
        metadata_outcome,
    ));
    let ghost generated = key@;
    let r = match made {
        Ok(metadata) => Ok(EncryptionKey::new(key, metadata)),
        Err(e) => Err(e),
    };
    assert(key_outcome(r) == key_with(generated, metadata_outcome));
    r
}

/// The contents of a list of keys.
pub open spec fn key_models(keys: Seq<EncryptionKey>) -> Seq<(Seq<u8>, Seq<u8>)> {
    keys.map_values(|key: EncryptionKey| key@)
}

/// What the generation of keys came to.
pub open spec fn keys_outcome(r: Result<Vec<EncryptionKey>, Error>) -> Result<
    Seq<(Seq<u8>, Seq<u8>)>,
    ErrorModel,
> {
    match r {
        Ok(keys) => Ok(key_models(keys@)),
        Err(e) => Err(e@),
    }
}

proof fn lemma_one_more_protected<F: KmsClientFactory>(
    factory: F,
    wrapper: WrapperModel,
    requests: Seq<(Seq<char>, bool)>,
    request: (Seq<char>, bool),
    keys: Seq<(Seq<u8>, Seq<u8>)>,
    key: (Seq<u8>, Seq<u8>),
)
    requires
        all_protected(factory, wrapper, requests, keys),
        is_protected(factory, wrapper, request, key),
    ensures
        all_protected(factory, wrapper, requests.push(request), keys.push(key)),
{
    let more = requests.push(request);
    assert forall|i: int| 0 <= i < more.len() implies is_protected(
        factory,
        wrapper,
        more[i],
        #[trigger] keys.push(key)[i],
    ) by {
        if i < requests.len() {
            assert(is_protected(factory, wrapper, requests[i], keys[i]));
        }
    }
}

/// Generates a footer key, and a key for each column that has a master key.
fn generate_keys<F: KmsClientFactory>(
    kms_manager: &mut KmsManager<F>,
    key_wrapper: &KeyWrapper<'_>,
    footer_key_id: &str,
    assigned: &Vec<(String, String)>,
    now: Duration,
) -> (r: Result<Vec<EncryptionKey>, Error>)
    ensures
        generates_all(
            old(kms_manager)@,
            final(kms_manager)@,
            key_wrapper@,
            key_requests(footer_key_id@, pairs(assigned@)),
            duration_nanos(now),
            keys_outcome(r),
        ),
        r matches Ok(keys) ==> all_protected(
            old(kms_manager)@.factory,
            key_wrapper@,
            key_requests(footer_key_id@, pairs(assigned@)),
            key_models(keys@),
        ),
{
    let ghost before = kms_manager@;
    let ghost factory = before.factory;
    let ghost wrapper = key_wrapper@;
    let ghost time = duration_nanos(now);
    let ghost all = pairs(assigned@);
    let ghost requests = key_requests(footer_key_id@, all);
    let ghost none = Seq::<(Seq<char>, bool)>::empty();
    let mut keys: Vec<EncryptionKey> = Vec::new();
    assert(key_models(keys@) =~= Seq::<(Seq<u8>, Seq<u8>)>::empty());
    let footer = generate_key(kms_manager, key_wrapper, footer_key_id, true, now);
    proof {
        lemma_one_more_key(
            before,
            before,
            kms_manager@,
            wrapper,
            none,
            (footer_key_id@, true),
            time,
            key_models(keys@),
            key_outcome(footer),
        );
        assert(none.push((footer_key_id@, true)) =~= requests.take(1));
    }
    match footer {
        Ok(key) => {
            proof {
                assert(all_protected(factory, wrapper, none, key_models(keys@)));
                lemma_one_more_protected(
                    factory,
                    wrapper,
                    none,
                    (footer_key_id@, true),
                    key_models(keys@),
                    key@,
                );
                assert(key_models(keys@.push(key)) =~= key_models(keys@).push(key@));
            }
            keys.push(key);
        },
        Err(e) => {
            proof {
                lemma_failure_lasts(before, kms_manager@, wrapper, requests, 1, time, e@);
            }
            return Err(e);
        },
    }
    for i in 0..assigned.len()
        invariant
            all == pairs(assigned@),
            requests == key_requests(footer_key_id@, all),
            wrapper == key_wrapper@,
            time == duration_nanos(now),
            factory == before.factory,
            kms_manager@.factory == factory,
            before == old(kms_manager)@,
            generates_all(
                before,
                kms_manager@,
                wrapper,
                requests.take(i + 1),
                time,
                Ok::<Seq<(Seq<u8>, Seq<u8>)>, ErrorModel>(key_models(keys@)),
            ),
            all_protected(factory, wrapper, requests.take(i + 1), key_models(keys@)),
    {
        let ghost between = kms_manager@;
        let ghost done = requests.take(i + 1);
        let ghost request = (assigned@[i as int].0@, false);
        let generated = generate_key(
            kms_manager,
            key_wrapper,
            assigned[i].0.as_str(),
            false,
            now,
        );
        proof {
            assert(requests[i + 1] == (all[i as int].0, false));
            assert(requests.take(i + 2) =~= done.push(request));
            lemma_one_more_key(
                before,
                between,
                kms_manager@,
                wrapper,
                done,
                request,
                time,
                key_models(keys@),
                key_outcome(generated),
            );
        }
        match generated {
            Ok(key) => {
                proof {
                    lemma_one_more_protected(
                        factory,
                        wrapper,
                        done,
                        request,
                        key_models(keys@),
                        key@,
                    );
                    assert(key_models(keys@.push(key)) =~= key_models(keys@).push(key@));
                }
                keys.push(key);
            },
            Err(e) => {
                proof {
                    lemma_failure_lasts(
                        before,
                        kms_manager@,
                        wrapper,
                        requests,
                        i + 2,
                        time,
                        e@,
                    );
                }
                return Err(e);
            },
        }
    }
    assert(requests.take(all.len() as int + 1) =~= requests);
    Ok(keys)
}

/// Takes a key out of a list, leaving an empty one.
fn take_key(keys: &mut Vec<EncryptionKey>, i: usize) -> (r: EncryptionKey)
    requires
        i < old(keys)@.len(),
    ensures
        r == old(keys)@[i as int],
        final(keys)@.len() == old(keys)@.len(),
        forall|j: int|
            0 <= j < old(keys)@.len() && j != i ==> #[trigger] final(keys)@[j] == old(keys)@[j],
{
    let mut key = EncryptionKey::new(Vec::new(), Vec::new());
    std::mem::swap(&mut key, &mut keys[i]);
    key
}

/// Makes the encryption properties of a file from its keys: the footer key first, and then a key
/// for each column that has a master key.
pub fn properties_with_keys(
    plaintext_footer: bool,
    assigned: &Vec<(String, String)>,
    keys: Vec<EncryptionKey>,
) -> (r: FileEncryptionProperties)
    requires
        keys@.len() == assigned@.len() + 1,
    ensures
        properties_held(r) == properties_with(plaintext_footer, pairs(assigned@), key_models(keys@)),
{
    let ghost all = pairs(assigned@);
    let ghost models = key_models(keys@);
    let mut keys = keys;
    let footer_key = take_key(&mut keys, 0);
    let mut builder = FileEncryptionProperties::builder(footer_key.key).with_footer_key_metadata(
        footer_key.metadata,
    ).with_plaintext_footer(plaintext_footer);
    assert(all.take(0) =~= Seq::<(Seq<char>, Seq<char>)>::empty());
    for i in 0..assigned.len()
        invariant
            all == pairs(assigned@),
            keys@.len() == assigned@.len() + 1,
            models.len() == keys@.len(),
            forall|j: int| i < j < keys@.len() ==> (#[trigger] keys@[j])@ == models[j],
            builder_held(builder) == properties_with(
                plaintext_footer,
                all.take(i as int),
                models,
            ),
    {
        let column_key = take_key(&mut keys, i + 1);
        proof {
            assert(all.take(i + 1).drop_last() =~= all.take(i as int));
            assert(all.take(i + 1).last() == all[i as int]);
            assert(column_key@ == models[i + 1]);
        }
        builder = builder.with_column_key_and_metadata(
            assigned[i].1.as_str(),
            column_key.key,
            column_key.metadata,
        );
    }
    assert(all.take(all.len() as int) =~= all);
    builder.build().unwrap()
}

/// Generates the keys for a file and makes its encryption properties.
fn generate_properties<F: KmsClientFactory>(
    kms_manager: &mut KmsManager<F>,
    key_wrapper: &KeyWrapper<'_>,
    encryption_configuration: &EncryptionConfiguration,
    now: Duration,
) -> (r: Result<FileEncryptionProperties, Error>)
    requires
        key_wrapper@.settings == encryption_configuration@,
    ensures
        generates_file_keys(
            old(kms_manager)@,
            final(kms_manager)@,
            key_wrapper@,
            duration_nanos(now),
            properties_outcome(r),
        ),
{
    let assigned = column_assignments(encryption_configuration.column_key_ids());
    let generated = generate_keys(
        kms_manager,
        key_wrapper,
        encryption_configuration.footer_key_id(),
        &assigned,
        now,
    );
    let ghost outcome = keys_outcome(generated);
    assert(generates_all(
        old(kms_manager)@,
        kms_manager@,
        key_wrapper@,
        key_requests(
            key_wrapper@.settings.footer_key_id,
            assignments(key_wrapper@.settings.column_key_ids),
        ),
        duration_nanos(now),
        outcome,
    ));
    match generated {
        Ok(keys) => Ok(
            properties_with_keys(encryption_configuration.plaintext_footer(), &assigned, keys),
        ),
        Err(e) => Err(e),
    }
}

/// A factory that produces file decryption and encryption properties using
/// configuration options and a KMS client
///
/// A `CryptoFactory` can be reused multiple times to encrypt or decrypt many files,
/// but the same encryption properties should not be reused between different files.
///
/// The `KmsClientFactory` will be used to create KMS clients as required,
/// and these will be internally cached based on the KMS instance ID and the key access token.
/// This means that if the key access token is changed using
/// [`KmsConnectionConfig::refresh_key_access_token`], new `KmsClient` instances will be created
/// using the new token rather than reusing a cached client, also for what was made before.
///
/// Each operation is given the time since a fixed moment, by which cached objects expire.
pub struct CryptoFactory<F: KmsClientFactory> {
    kms_manager: KmsManager<F>,
}

impl<F: KmsClientFactory> View for CryptoFactory<F> {
    type V = ManagerModel<F>;

    closed spec fn view(&self) -> ManagerModel<F> {
        self.kms_manager@
    }
}

impl<F: KmsClientFactory> CryptoFactory<F> {
    /// Create a new [`CryptoFactory`], providing a factory for creating KMS clients
    pub fn new(kms_client_factory: F) -> (r: Self)
        ensures
            r@ == (ManagerModel {
                factory: kms_client_factory,
                clients: Map::empty(),
                read_caches: Seq::empty(),
                write_caches: Seq::empty(),
                draws: Seq::empty(),
            }),
    {
        CryptoFactory { kms_manager: KmsManager::new(kms_client_factory) }
    }

    /// Create what retrieves the decryption keys for a Parquet file. It has to be closed with
    /// [`CryptoFactory::close`] once it is not needed any more.
    pub fn file_decryption_properties(
        &mut self,
        kms_connection_config: &KmsConnectionConfig,
        decryption_configuration: DecryptionConfiguration,
        now: Duration,
    ) -> (r: Result<KeyUnwrapper, Error>)
        ensures
            r matches Ok(key_retriever) && {
                &&& key_retriever@.config == kms_connection_config@
                &&& key_retriever@.cache_lifetime == decryption_configuration@
                &&& acquires(
                    old(self)@.read_caches,
                    final(self)@.read_caches,
                    kms_connection_config@.key_access_token,
                    decryption_configuration@,
                    duration_nanos(now),
                    key_retriever@.cache,
                )
            },
            final(self)@ == (ManagerModel { read_caches: final(self)@.read_caches, ..old(self)@ }),
            one_shared_per_token(old(self)@.read_caches),
            one_shared_per_token(final(self)@.read_caches),
    {
        Ok(
            KeyUnwrapper::new(
                &mut self.kms_manager,
                kms_connection_config,
                decryption_configuration,
                now,
            ),
        )
    }

    /// Retrieve the key for the key metadata of a Parquet file, with the access token that the
    /// connection configuration has now
    pub fn retrieve_key(
        &mut self,
        key_retriever: &mut KeyUnwrapper,
        kms_connection_config: &KmsConnectionConfig,
        key_metadata: &[u8],
        now: Duration,
    ) -> (r: Result<Vec<u8>, Error>)
        ensures
            retrieves(
                old(self)@,
                final(self)@,
                with_token(old(key_retriever)@, kms_connection_config@.key_access_token),
                final(key_retriever)@,
                key_metadata@,
                duration_nanos(now),
                bytes_outcome(r),
            ),
            valid_utf8(key_metadata@) ==> reads_back(decode_utf8(key_metadata@)),
    {
        key_retriever.retrieve_key(
            &mut self.kms_manager,
            kms_connection_config,
            key_metadata,
            now,
        )
    }

    /// Let go of what retrieved the decryption keys for a Parquet file
    pub fn close(&mut self, key_retriever: KeyUnwrapper)
        ensures
            final(self)@ == (ManagerModel {
                read_caches: released(old(self)@.read_caches, key_retriever@.cache),
                ..old(self)@
            }),
            one_shared_per_token(final(self)@.read_caches),
    {
        key_retriever.close(&mut self.kms_manager);
    }

    /// Create file encryption properties for a Parquet file
    pub fn file_encryption_properties(
        &mut self,
        kms_connection_config: &KmsConnectionConfig,
        encryption_configuration: &EncryptionConfiguration,
        now: Duration,
    ) -> (r: Result<FileEncryptionProperties, Error>)
        ensures
            makes_properties(
                old(self)@,
                final(self)@,
                kms_connection_config@,
                encryption_configuration@,
                duration_nanos(now),
                properties_outcome(r),
            ),
            one_shared_per_token(old(self)@.write_caches),
            one_shared_per_token(final(self)@.write_caches),
    {
        proof {
            use_type_invariant(&self.kms_manager);
        }
        if !encryption_configuration.internal_key_material() {
            return Err(Error::Nyi("External key material is not yet implemented".to_owned()));
        }
        if encryption_configuration.data_key_length_bits() != 128 {
            return Err(Error::Nyi("Only 128 bit data keys are currently implemented".to_owned()));
        }
        let ghost before = self.kms_manager@;
        let key_wrapper = KeyWrapper::new(
            &mut self.kms_manager,
            kms_connection_config,
            encryption_configuration,
            now,
        );
        let ghost acquired = self.kms_manager@;
        let ghost wrapper = key_wrapper@;
        let properties = generate_properties(
            &mut self.kms_manager,
            &key_wrapper,
            encryption_configuration,
            now,
        );
        let ghost used = self.kms_manager@;
        key_wrapper.close(&mut self.kms_manager);
        assert(generates_file_keys(
            acquired,
            used,
            WrapperModel { config: wrapper.config, settings: wrapper.settings, cache: wrapper.cache },
            duration_nanos(now),
            properties_outcome(properties),
        ));
        properties
    }

    /// The numbers of objects that are cached
    pub fn cache_stats(&self) -> (r: CacheStats)
        ensures
            self@.clients.dom().finite(),
            r.num_kms_clients == self@.clients.len(),
            r.num_kek_read_caches == count_shared(self@.read_caches),
            r.num_kek_write_caches == count_shared(self@.write_caches),
            one_shared_per_token(self@.read_caches),
            one_shared_per_token(self@.write_caches),
    {
        self.kms_manager.cache_stats()
    }
}

proof fn lemma_column_with(
    pairs: Seq<(Seq<char>, Seq<char>)>,
    keys: Seq<(Seq<u8>, Seq<u8>)>,
    i: int,
)
    requires
        no_column_twice(pairs),
        0 <= i < pairs.len() < keys.len(),
    ensures
        columns_with(pairs, keys).contains_key(pairs[i].1),
        columns_with(pairs, keys)[pairs[i].1] == (keys[i + 1].0, Some(keys[i + 1].1)),
    decreases pairs.len(),
{
    if i < pairs.len() - 1 {
        let first = pairs.drop_last();
        assert forall|a: int, b: int| 0 <= a < b < first.len() implies (#[trigger] first[a]).1 != (
        #[trigger] first[b]).1 by {
            assert(pairs[a].1 != pairs[b].1);
        }
        lemma_column_with(first, keys, i);
        assert(first[i] == pairs[i]);
        assert(pairs[i].1 != pairs[pairs.len() - 1].1);
    }
}

proof fn lemma_only_columns_with(
    pairs: Seq<(Seq<char>, Seq<char>)>,
    keys: Seq<(Seq<u8>, Seq<u8>)>,
    column: Seq<char>,
)
    requires
        columns_with(pairs, keys).contains_key(column),
    ensures
        exists|i: int| 0 <= i < pairs.len() && (#[trigger] pairs[i]).1 == column,
    decreases pairs.len(),
{
    if pairs.len() > 0 {
        if pairs.last().1 == column {
            assert(pairs[pairs.len() - 1].1 == column);
        } else {
            lemma_only_columns_with(pairs.drop_last(), keys, column);
            let i = choose|i: int|
                0 <= i < pairs.drop_last().len() && (#[trigger] pairs.drop_last()[i]).1 == column;
            assert(pairs[i].1 == column);
        }
    }
}

/// Whether the key of a column is protected under its master key.
pub open spec fn column_is_protected<F: KmsClientFactory>(
    factory: F,
    config: ConfigModel,
    settings: EncryptionModel,
    properties: PropertiesModel,
    pair: (Seq<char>, Seq<char>),
) -> bool {
    &&& properties.column_keys.contains_key(pair.1)
    &&& properties.column_keys[pair.1].0.len() == KEY_LENGTH
    &&& properties.column_keys[pair.1].1 matches Some(metadata) && protects(
        factory,
        metadata,
        stored_location(config, false),
        properties.column_keys[pair.1].0,
        pair.0,
        settings.double_wrapping,
    )
}

/// Encryption properties have a footer key that is protected under the footer's master key, and a
/// key for exactly the configured columns, each protected under the master key of its column. The
/// footer is encrypted unless it is configured to be in plaintext. Without configured columns
/// there are no column keys, so that everything is encrypted with the footer key.
pub proof fn law_properties_follow_the_configuration<F: KmsClientFactory>(
    before: ManagerModel<F>,
    after: ManagerModel<F>,
    config: ConfigModel,
    settings: EncryptionModel,
    now: u128,
    properties: PropertiesModel,
)
    requires
        makes_properties(
            before,
            after,
            config,
            settings,
            now,
            Ok::<PropertiesModel, ErrorModel>(properties),
        ),
        no_column_twice(assignments(settings.column_key_ids)),
    ensures
        properties.encrypt_footer == !settings.plaintext_footer,
        properties.aad_prefix is None,
        properties.footer_key.len() == KEY_LENGTH,
        properties.footer_key_metadata matches Some(metadata) && protects(
            before.factory,
            metadata,
            stored_location(config, true),
            properties.footer_key,
            settings.footer_key_id,
            settings.double_wrapping,
        ),
        forall|i: int|
            0 <= i < assignments(settings.column_key_ids).len() ==> column_is_protected(
                before.factory,
                config,
                settings,
                properties,
                #[trigger] assignments(settings.column_key_ids)[i],
            ),
        forall|column: Seq<char>| #[trigger]
            properties.column_keys.contains_key(column) ==> exists|i: int|
                0 <= i < assignments(settings.column_key_ids).len() && (
                #[trigger] assignments(settings.column_key_ids)[i]).1 == column,
{
    let pairs = assignments(settings.column_key_ids);
    let outcome = Ok::<PropertiesModel, ErrorModel>(properties);
    let (acquired, used, cache) = choose|
        acquired: ManagerModel<F>,
        used: ManagerModel<F>,
        cache: int,
    |
        acquires(
            before.write_caches,
            acquired.write_caches,
            config.key_access_token,
            settings.cache_lifetime,
            now,
            cache,
        ) && acquired == (ManagerModel { write_caches: acquired.write_caches, ..before })
            && #[trigger] generates_file_keys(
            acquired,
            used,
            WrapperModel { config, settings, cache },
            now,
            outcome,
        ) && after == wrapper_closed(used, cache);
    let wrapper = WrapperModel { config, settings, cache };
    let requests = key_requests(settings.footer_key_id, pairs);
    let generated = choose|generated: Result<Seq<(Seq<u8>, Seq<u8>)>, ErrorModel>| #[trigger]
        generates_all(acquired, used, wrapper, requests, now, generated) && outcome
            == properties_from(settings, generated) && (generated matches Ok(keys)
            ==> all_protected(acquired.factory, wrapper, requests, keys));
    let keys = generated->Ok_0;
    assert(is_protected(before.factory, wrapper, requests[0], keys[0]));
    assert forall|i: int| 0 <= i < pairs.len() implies column_is_protected(
        before.factory,
        config,
        settings,
        properties,
        #[trigger] pairs[i],
    ) by {
        lemma_column_with(pairs, keys, i);
        assert(requests[i + 1] == (pairs[i].0, false));
        assert(is_protected(before.factory, wrapper, requests[i + 1], keys[i + 1]));
    }
    assert forall|column: Seq<char>| #[trigger]
        properties.column_keys.contains_key(column) implies exists|i: int|
        0 <= i < pairs.len() && (#[trigger] pairs[i]).1 == column by {
        lemma_only_columns_with(pairs, keys, column);
    }
}

/// The footer key of a file that was written is retrieved again when the file is read with the
/// same KMS, if it is faithful. Where no key is retrieved, the KMS did not create a client, or did
/// not unwrap what it wrapped for this key. With a reliable KMS the key is retrieved.
pub proof fn law_footer_key_is_retrieved<F: KmsClientFactory>(
    written_before: ManagerModel<F>,
    written_after: ManagerModel<F>,
    writing_config: ConfigModel,
    settings: EncryptionModel,
    written_at: u128,
    properties: PropertiesModel,
    before: ManagerModel<F>,
    after: ManagerModel<F>,
    unwrapper: UnwrapperModel,
    updated: UnwrapperModel,
    now: u128,
    outcome: Result<Seq<u8>, ErrorModel>,
)
    requires
        makes_properties(
            written_before,
            written_after,
            writing_config,
            settings,
            written_at,
            Ok::<PropertiesModel, ErrorModel>(properties),
        ),
        no_column_twice(assignments(settings.column_key_ids)),
        before.factory == written_before.factory,
        is_faithful(before.factory),
        retrieves(
            before,
            after,
            unwrapper,
            updated,
            properties.footer_key_metadata->0,
            now,
            outcome,
        ),
        valid_utf8(properties.footer_key_metadata->0) ==> reads_back(
            decode_utf8(properties.footer_key_metadata->0),
        ),
        keeps_no_other_kek(
            before,
            unwrapper.cache,
            properties.footer_key_metadata->0,
            stored_location(writing_config, true),
            settings.footer_key_id,
        ),
    ensures
        match outcome {
            Ok(retrieved) => retrieved == properties.footer_key,
            Err(e) => retrieval_fails(
                before.factory,
                updated.config,
                properties.footer_key_metadata->0,
                settings.footer_key_id,
                e,
            ),
        },
        is_reliable(before.factory, updated.config) ==> outcome == Ok::<Seq<u8>, ErrorModel>(
            properties.footer_key,
        ),
{
    law_properties_follow_the_configuration(
        written_before,
        written_after,
        writing_config,
        settings,
        written_at,
        properties,
    );
    law_retrieved_key_is_the_stored_key(
        before,
        after,
        unwrapper,
        updated,
        writing_config,
        true,
        settings.double_wrapping,
        properties.footer_key,
        settings.footer_key_id,
        properties.footer_key_metadata->0,
        now,
        outcome,
    );
}

/// The key of an encrypted column of a file that was written is retrieved again when the file is
/// read with the same KMS, if it is faithful. Where no key is retrieved, the KMS did not create a
/// client, or did not unwrap what it wrapped for this key. With a reliable KMS the key is
/// retrieved.
pub proof fn law_column_key_is_retrieved<F: KmsClientFactory>(
    written_before: ManagerModel<F>,
    written_after: ManagerModel<F>,
    writing_config: ConfigModel,
    settings: EncryptionModel,
    written_at: u128,
    properties: PropertiesModel,
    i: int,
    before: ManagerModel<F>,
    after: ManagerModel<F>,
    unwrapper: UnwrapperModel,
    updated: UnwrapperModel,
    now: u128,
    outcome: Result<Seq<u8>, ErrorModel>,
)
    requires
        makes_properties(
            written_before,
            written_after,
            writing_config,
            settings,
            written_at,
            Ok::<PropertiesModel, ErrorModel>(properties),
        ),
        no_column_twice(assignments(settings.column_key_ids)),
        0 <= i < assignments(settings.column_key_ids).len(),
        before.factory == written_before.factory,
        is_faithful(before.factory),
        ({
            let (master_key_id, column) = assignments(settings.column_key_ids)[i];
            let metadata = properties.column_keys[column].1->0;
            &&& retrieves(before, after, unwrapper, updated, metadata, now, outcome)
            &&& valid_utf8(metadata) ==> reads_back(decode_utf8(metadata))
            &&& keeps_no_other_kek(
                before,
                unwrapper.cache,
                metadata,
                stored_location(writing_config, false),
                master_key_id,
            )
        }),
    ensures
        ({
            let (master_key_id, column) = assignments(settings.column_key_ids)[i];
            let (key, metadata) = properties.column_keys[column];
            &&& match outcome {
                Ok(retrieved) => retrieved == key,
                Err(e) => retrieval_fails(
                    before.factory,
                    updated.config,
                    metadata->0,
                    master_key_id,
                    e,
                ),
            }
            &&& is_reliable(before.factory, updated.config) ==> outcome == Ok::<
                Seq<u8>,
                ErrorModel,
            >(key)
        }),
{
    law_properties_follow_the_configuration(
        written_before,
        written_after,
        writing_config,
        settings,
        written_at,
        properties,
    );
    let pair = assignments(settings.column_key_ids)[i];
    assert(column_is_protected(before.factory, writing_config, settings, properties, pair));
    law_retrieved_key_is_the_stored_key(
        before,
        after,
        unwrapper,
        updated,
        writing_config,
        false,
        settings.double_wrapping,
        properties.column_keys[pair.1].0,
        pair.0,
        properties.column_keys[pair.1].1->0,
        now,
        outcome,
    );
}

/// Whether a state differs from another in nothing but the keys in one cache of generated key
/// encryption keys, which is held in both, and the clients.
spec fn only_adds_keks<F: KmsClientFactory>(
    before: ManagerModel<F>,
    after: ManagerModel<F>,
    cache: int,
) -> bool {
    &&& is_held(before.write_caches, cache)
    &&& is_held(after.write_caches, cache)
    &&& after.write_caches.len() == before.write_caches.len()
    &&& after.write_caches[cache]->0 == (CacheModel {
        keys: keys_of(after.write_caches, cache),
        ..before.write_caches[cache]->0
    })
    &&& forall|i: int|
        0 <= i < before.write_caches.len() && i != cache ==> #[trigger] after.write_caches[i]
            == before.write_caches[i]
}

/// Whether the metadata of a key holds it encrypted with the key encryption key for its master key.
spec fn uses_kek(
    keks: Map<Seq<char>, KeyEncryptionKey>,
    config: ConfigModel,
    request: (Seq<char>, bool),
    metadata: Seq<u8>,
) -> bool {
    keks.contains_key(request.0) && wrapped_under(
        metadata,
        stored_location(config, request.1),
        request.0,
        keks[request.0]@,
    )
}

/// Generating keys with double wrapping leaves the key encryption keys with which they were
/// encrypted, and changes none that is kept. Where all that are needed are kept,
/// nothing but the random generator is asked.
proof fn lemma_generated_keks<F: KmsClientFactory>(
    before: ManagerModel<F>,
    after: ManagerModel<F>,
    wrapper: WrapperModel,
    requests: Seq<(Seq<char>, bool)>,
    now: u128,
    keys: Seq<(Seq<u8>, Seq<u8>)>,
)
    requires
        wrapper.settings.double_wrapping,
        is_held(before.write_caches, wrapper.cache),
        generates_all(
            before,
            after,
            wrapper,
            requests,
            now,
            Ok::<Seq<(Seq<u8>, Seq<u8>)>, ErrorModel>(keys),
        ),
    ensures
        keys.len() == requests.len(),
        only_adds_keks(before, after, wrapper.cache),
        keeps_all(before, after, wrapper),
        forall|i: int|
            0 <= i < requests.len() ==> uses_kek(
                kept_keks(after, wrapper),
                wrapper.config,
                #[trigger] requests[i],
                keys[i].1,
            ),
        (forall|i: int|
            0 <= i < requests.len() ==> kept_keks(before, wrapper).contains_key(
                (#[trigger] requests[i]).0,
            )) ==> after == (ManagerModel { draws: after.draws, ..before }),
    decreases requests.len(),
{
    let outcome = Ok::<Seq<(Seq<u8>, Seq<u8>)>, ErrorModel>(keys);
    if requests.len() > 0 {
        let (between, first) = choose|
            between: ManagerModel<F>,
            first: Result<Seq<(Seq<u8>, Seq<u8>)>, ErrorModel>,
        |
            generates_all(before, between, wrapper, requests.drop_last(), now, first)
                && #[trigger] generates_next(
                between,
                after,
                wrapper,
                requests.last(),
                now,
                first,
                outcome,
            );
        let done = first->Ok_0;
        lemma_generated_keks(before, between, wrapper, requests.drop_last(), now, done);
        let next = choose|next: Result<(Seq<u8>, Seq<u8>), ErrorModel>| #[trigger]
            generates_key(between, after, wrapper, requests.last(), now, next) && outcome == (
            match next {
                Ok(key) => Ok::<Seq<(Seq<u8>, Seq<u8>)>, ErrorModel>(done.push(key)),
                Err(e) => Err(e),
            });
        let (key, metadata) = choose|key: Seq<u8>, metadata: Result<Seq<u8>, ErrorModel>|
            key.len() == KEY_LENGTH && drawn(key, KEY_LENGTH) && #[trigger] makes_metadata(
                with_draw(between, key),
                after,
                wrapper,
                key,
                requests.last().0,
                requests.last().1,
                now,
                metadata,
            ) && next == key_with(key, metadata);
        lemma_stored_key(
            with_draw(between, key),
            after,
            wrapper,
            key,
            requests.last().0,
            requests.last().1,
            now,
            metadata->Ok_0,
        );
        assert forall|i: int| 0 <= i < requests.len() implies uses_kek(
            kept_keks(after, wrapper),
            wrapper.config,
            #[trigger] requests[i],
            keys[i].1,
        ) by {
            if i < requests.len() - 1 {
                assert(requests.drop_last()[i] == requests[i]);
                assert(kept_keks(between, wrapper).contains_key(requests[i].0));
            }
        }
        if forall|i: int|
            0 <= i < requests.len() ==> kept_keks(before, wrapper).contains_key(
                (#[trigger] requests[i]).0,
            ) {
            assert forall|i: int| 0 <= i < requests.drop_last().len() implies kept_keks(
                before,
                wrapper,
            ).contains_key((#[trigger] requests.drop_last()[i]).0) by {
                assert(requests.drop_last()[i] == requests[i]);
            }
            assert(kept_keks(before, wrapper).contains_key(requests[requests.len() - 1].0));
        }
    }
}

/// Whether the keys of a file are encrypted with the key encryption keys for their master keys.
pub open spec fn file_uses_keks(
    keks: Map<Seq<char>, KeyEncryptionKey>,
    config: ConfigModel,
    settings: EncryptionModel,
    properties: PropertiesModel,
) -> bool {
    let pairs = assignments(settings.column_key_ids);
    &&& keks.contains_key(settings.footer_key_id)
    &&& wrapped_under(
        properties.footer_key_metadata->0,
        stored_location(config, true),
        settings.footer_key_id,
        keks[settings.footer_key_id]@,
    )
    &&& forall|i: int|
        0 <= i < pairs.len() ==> keks.contains_key((#[trigger] pairs[i]).0) && wrapped_under(
            properties.column_keys[pairs[i].1].1->0,
            stored_location(config, false),
            pairs[i].0,
            keks[pairs[i].0]@,
        )
}

/// Whether each master key of one configuration is a master key of another.
pub open spec fn has_master_keys_of(settings: EncryptionModel, other: EncryptionModel) -> bool {
    forall|i: int|
        0 <= i < key_requests(other.footer_key_id, assignments(other.column_key_ids)).len()
            ==> has_master_key(
            settings,
            (#[trigger] key_requests(other.footer_key_id, assignments(other.column_key_ids))[i]).0,
        )
}

/// Whether a configuration has a master key.
pub open spec fn has_master_key(settings: EncryptionModel, master_key_id: Seq<char>) -> bool {
    exists|i: int|
        0 <= i < key_requests(
            settings.footer_key_id,
            assignments(settings.column_key_ids),
        ).len() && (#[trigger] key_requests(
            settings.footer_key_id,
            assignments(settings.column_key_ids),
        )[i]).0 == master_key_id
}

/// The states in which the keys of a file are generated, with the cache that is used.
proof fn lemma_file_states<F: KmsClientFactory>(
    before: ManagerModel<F>,
    after: ManagerModel<F>,
    config: ConfigModel,
    settings: EncryptionModel,
    now: u128,
    properties: PropertiesModel,
) -> (states: (ManagerModel<F>, ManagerModel<F>, int))
    requires
        makes_properties(
            before,
            after,
            config,
            settings,
            now,
            Ok::<PropertiesModel, ErrorModel>(properties),
        ),
        settings.double_wrapping,
        no_column_twice(assignments(settings.column_key_ids)),
    ensures
        acquires(
            before.write_caches,
            states.0.write_caches,
            config.key_access_token,
            settings.cache_lifetime,
            now,
            states.2,
        ),
        states.0 == (ManagerModel { write_caches: states.0.write_caches, ..before }),
        only_adds_keks(states.0, states.1, states.2),
        keeps_all(states.0, states.1, WrapperModel { config, settings, cache: states.2 }),
        after == wrapper_closed(states.1, states.2),
        file_uses_keks(keys_of(states.1.write_caches, states.2), config, settings, properties),
        forall|id: Seq<char>| #[trigger]
            has_master_key(settings, id) ==> keys_of(
                states.1.write_caches,
                states.2,
            ).contains_key(id),
        (forall|id: Seq<char>| #[trigger]
            has_master_key(settings, id) ==> keys_of(
                states.0.write_caches,
                states.2,
            ).contains_key(id)) ==> states.1 == (ManagerModel {
            draws: states.1.draws,
            ..states.0
        }),
{
    let pairs = assignments(settings.column_key_ids);
    let outcome = Ok::<PropertiesModel, ErrorModel>(properties);
    let (acquired, used, cache) = choose|
        acquired: ManagerModel<F>,
        used: ManagerModel<F>,
        cache: int,
    |
        acquires(
            before.write_caches,
            acquired.write_caches,
            config.key_access_token,
            settings.cache_lifetime,
            now,
            cache,
        ) && acquired == (ManagerModel { write_caches: acquired.write_caches, ..before })
            && #[trigger] generates_file_keys(
            acquired,
            used,
            WrapperModel { config, settings, cache },
            now,
            outcome,
        ) && after == wrapper_closed(used, cache);
    let wrapper = WrapperModel { config, settings, cache };
    let requests = key_requests(settings.footer_key_id, pairs);
    let generated = choose|generated: Result<Seq<(Seq<u8>, Seq<u8>)>, ErrorModel>| #[trigger]
        generates_all(acquired, used, wrapper, requests, now, generated) && outcome
            == properties_from(settings, generated) && (generated matches Ok(keys)
            ==> all_protected(acquired.factory, wrapper, requests, keys));
    let keys = generated->Ok_0;
    law_acquired_cache_is_held(
        before.write_caches,
        acquired.write_caches,
        config.key_access_token,
        settings.cache_lifetime,
        now,
        cache,
    );
    lemma_generated_keks(acquired, used, wrapper, requests, now, keys);
    assert(uses_kek(kept_keks(used, wrapper), config, requests[0], keys[0].1));
    assert forall|i: int| 0 <= i < pairs.len() implies kept_keks(used, wrapper).contains_key(
        (#[trigger] pairs[i]).0,
    ) && wrapped_under(
        properties.column_keys[pairs[i].1].1->0,
        stored_location(config, false),
        pairs[i].0,
        kept_keks(used, wrapper)[pairs[i].0]@,
    ) by {
        lemma_column_with(pairs, keys, i);
        assert(requests[i + 1] == (pairs[i].0, false));
        assert(uses_kek(kept_keks(used, wrapper), config, requests[i + 1], keys[i + 1].1));
    }
    if forall|id: Seq<char>| #[trigger]
        has_master_key(settings, id) ==> kept_keks(acquired, wrapper).contains_key(id) {
        assert forall|i: int| 0 <= i < requests.len() implies kept_keks(
            acquired,
            wrapper,
        ).contains_key((#[trigger] requests[i]).0) by {
            assert(has_master_key(settings, requests[i].0));
        }
    }
    (acquired, used, cache)
}

/// When two files are written one after the other with the same access token, within the lifetime
/// of the cache of key encryption keys, both use the same key encryption key for each master key.
/// If the second file uses no other master keys than the first, the KMS is not asked for anything
/// for it.
pub proof fn law_next_file_reuses_keks<F: KmsClientFactory>(
    before: ManagerModel<F>,
    between: ManagerModel<F>,
    after: ManagerModel<F>,
    config: ConfigModel,
    settings: EncryptionModel,
    now: u128,
    properties: PropertiesModel,
    next_config: ConfigModel,
    next_settings: EncryptionModel,
    later: u128,
    next_properties: PropertiesModel,
)
    requires
        one_shared_per_token(before.write_caches),
        makes_properties(
            before,
            between,
            config,
            settings,
            now,
            Ok::<PropertiesModel, ErrorModel>(properties),
        ),
        makes_properties(
            between,
            after,
            next_config,
            next_settings,
            later,
            Ok::<PropertiesModel, ErrorModel>(next_properties),
        ),
        settings.double_wrapping,
        next_settings.double_wrapping,
        no_column_twice(assignments(settings.column_key_ids)),
        no_column_twice(assignments(next_settings.column_key_ids)),
        next_config.key_access_token == config.key_access_token,
        forall|cache: int| #[trigger]
            shared_for(between.write_caches, cache, config.key_access_token) ==> !has_passed(
                between.write_caches[cache]->0.expires_at,
                later,
            ),
    ensures
        exists|keks: Map<Seq<char>, KeyEncryptionKey>| #[trigger]
            file_uses_keks(keks, config, settings, properties) && file_uses_keks(
                keks,
                next_config,
                next_settings,
                next_properties,
            ),
        has_master_keys_of(settings, next_settings) ==> after == (ManagerModel {
            write_caches: after.write_caches,
            draws: after.draws,
            ..between
        }),
{
    let token = config.key_access_token;
    let (acquired, used, cache) = lemma_file_states(
        before,
        between,
        config,
        settings,
        now,
        properties,
    );
    let (next_acquired, next_used, next_cache) = lemma_file_states(
        between,
        after,
        next_config,
        next_settings,
        later,
        next_properties,
    );
    law_acquisition_keeps_one_shared(
        before.write_caches,
        acquired.write_caches,
        token,
        settings.cache_lifetime,
        now,
        cache,
    );
    lemma_shared_as_before(acquired.write_caches, between.write_caches);
    assert(shared_for(between.write_caches, cache, token));
    law_cache_is_shared_until_it_expires(
        between.write_caches,
        next_acquired.write_caches,
        token,
        next_settings.cache_lifetime,
        later,
        next_cache,
        cache,
    );
    let kept = keys_of(used.write_caches, cache);
    let keks = keys_of(next_used.write_caches, next_cache);
    let wrapper = WrapperModel { config: next_config, settings: next_settings, cache: next_cache };
    assert(kept_keks(next_acquired, wrapper) == kept);
    assert(kept_keks(next_used, wrapper) == keks);
    assert forall|id: Seq<char>| #[trigger] kept.contains_key(id) implies keks.contains_key(id)
        && keks[id] == kept[id] by {
        assert(kept_keks(next_acquired, wrapper).contains_key(id));
    }
    assert(file_uses_keks(keks, config, settings, properties));
    if has_master_keys_of(settings, next_settings) {
        assert forall|id: Seq<char>| #[trigger]
            has_master_key(next_settings, id) implies kept.contains_key(id) by {
            let requests = key_requests(
                next_settings.footer_key_id,
                assignments(next_settings.column_key_ids),
            );
            let i = choose|i: int| 0 <= i < requests.len() && (#[trigger] requests[i]).0 == id;
            assert(has_master_key(settings, requests[i].0));
        }
    }
}

/// Whether each key is a draw of the random generator of its own, made between two states: the
/// keys stand at different places in the record of draws, and all of them were added in between.
pub open spec fn keys_have_own_draws(
    before: Seq<Seq<u8>>,
    after: Seq<Seq<u8>>,
    keys: Seq<Seq<u8>>,
    at: Seq<int>,
) -> bool {
    &&& before.is_prefix_of(after)
    &&& at.len() == keys.len()
    &&& forall|i: int|
        0 <= i < keys.len() ==> before.len() <= #[trigger] at[i] < after.len() && after[at[i]]
            == keys[i] && drawn(keys[i], KEY_LENGTH)
    &&& forall|i: int, j: int| 0 <= i < j < keys.len() ==> #[trigger] at[i] < #[trigger] at[j]
}

/// The data keys of a file: the footer key, and the key of each column.
pub open spec fn file_keys(
    properties: PropertiesModel,
    pairs: Seq<(Seq<char>, Seq<char>)>,
) -> Seq<Seq<u8>> {
    seq![properties.footer_key] + pairs.map_values(
        |pair: (Seq<char>, Seq<char>)| properties.column_keys[pair.1].0,
    )
}

proof fn lemma_generated_keys_are_draws<F: KmsClientFactory>(
    before: ManagerModel<F>,
    after: ManagerModel<F>,
    wrapper: WrapperModel,
    requests: Seq<(Seq<char>, bool)>,
    now: u128,
    keys: Seq<(Seq<u8>, Seq<u8>)>,
) -> (at: Seq<int>)
    requires
        generates_all(
            before,
            after,
            wrapper,
            requests,
            now,
            Ok::<Seq<(Seq<u8>, Seq<u8>)>, ErrorModel>(keys),
        ),
    ensures
        keys.len() == requests.len(),
        keys_have_own_draws(
            before.draws,
            after.draws,
            keys.map_values(|key: (Seq<u8>, Seq<u8>)| key.0),
            at,
        ),
    decreases requests.len(),
{
    let outcome = Ok::<Seq<(Seq<u8>, Seq<u8>)>, ErrorModel>(keys);
    if requests.len() == 0 {
        Seq::empty()
    } else {
        let (between, first) = choose|
            between: ManagerModel<F>,
            first: Result<Seq<(Seq<u8>, Seq<u8>)>, ErrorModel>,
        |
            generates_all(before, between, wrapper, requests.drop_last(), now, first)
                && #[trigger] generates_next(
                between,
                after,
                wrapper,
                requests.last(),
                now,
                first,
                outcome,
            );
        let done = first->Ok_0;
        let at = lemma_generated_keys_are_draws(
            before,
            between,
            wrapper,
            requests.drop_last(),
            now,
            done,
        );
        let next = choose|next: Result<(Seq<u8>, Seq<u8>), ErrorModel>| #[trigger]
            generates_key(between, after, wrapper, requests.last(), now, next) && outcome == (
            match next {
                Ok(key) => Ok::<Seq<(Seq<u8>, Seq<u8>)>, ErrorModel>(done.push(key)),
                Err(e) => Err(e),
            });
        let (key, metadata) = choose|key: Seq<u8>, metadata: Result<Seq<u8>, ErrorModel>|
            key.len() == KEY_LENGTH && drawn(key, KEY_LENGTH) && #[trigger] makes_metadata(
                with_draw(between, key),
                after,
                wrapper,
                key,
                requests.last().0,
                requests.last().1,
                now,
                metadata,
            ) && next == key_with(key, metadata);
        lemma_draws_while_storing(
            with_draw(between, key),
            after,
            wrapper,
            key,
            requests.last().0,
            requests.last().1,
            now,
            metadata,
        );
        let all = at.push(between.draws.len() as int);
        assert(between.draws.push(key).is_prefix_of(after.draws));
        assert(after.draws[between.draws.len() as int] == between.draws.push(
            key,
        )[between.draws.len() as int]);
        let parts = keys.map_values(|key: (Seq<u8>, Seq<u8>)| key.0);
        let done_parts = done.map_values(|key: (Seq<u8>, Seq<u8>)| key.0);
        assert forall|i: int| 0 <= i < parts.len() implies before.draws.len() <= #[trigger] all[i]
            < after.draws.len() && after.draws[all[i]] == parts[i] && drawn(
            parts[i],
            KEY_LENGTH,
        ) by {
            if i < done.len() {
                assert(at[i] == all[i]);
                assert(done_parts[i] == parts[i]);
                assert(after.draws[at[i]] == between.draws.push(key)[at[i]]);
            }
        }
        assert forall|i: int, j: int| 0 <= i < j < parts.len() implies #[trigger] all[i]
            < #[trigger] all[j] by {
            assert(at[i] == all[i]);
            if j < done.len() {
                assert(at[j] == all[j]);
            }
        }
        all
    }
}

/// The footer key of a file and the key of each of its encrypted columns are each a draw of the
/// random generator that was made for this key while the properties were made, so that no two of
/// them are the same draw.
pub proof fn law_every_key_is_a_draw_of_its_own<F: KmsClientFactory>(
    before: ManagerModel<F>,
    after: ManagerModel<F>,
    config: ConfigModel,
    settings: EncryptionModel,
    now: u128,
    properties: PropertiesModel,
)
    requires
        makes_properties(
            before,
            after,
            config,
            settings,
            now,
            Ok::<PropertiesModel, ErrorModel>(properties),
        ),
        no_column_twice(assignments(settings.column_key_ids)),
    ensures
        exists|at: Seq<int>| #[trigger]
            keys_have_own_draws(
                before.draws,
                after.draws,
                file_keys(properties, assignments(settings.column_key_ids)),
                at,
            ),
{
    let pairs = assignments(settings.column_key_ids);
    let outcome = Ok::<PropertiesModel, ErrorModel>(properties);
    let (acquired, used, cache) = choose|
        acquired: ManagerModel<F>,
        used: ManagerModel<F>,
        cache: int,
    |
        acquires(
            before.write_caches,
            acquired.write_caches,
            config.key_access_token,
            settings.cache_lifetime,
            now,
            cache,
        ) && acquired == (ManagerModel { write_caches: acquired.write_caches, ..before })
            && #[trigger] generates_file_keys(
            acquired,
            used,
            WrapperModel { config, settings, cache },
            now,
            outcome,
        ) && after == wrapper_closed(used, cache);
    let wrapper = WrapperModel { config, settings, cache };
    let requests = key_requests(settings.footer_key_id, pairs);
    let generated = choose|generated: Result<Seq<(Seq<u8>, Seq<u8>)>, ErrorModel>| #[trigger]
        generates_all(acquired, used, wrapper, requests, now, generated) && outcome
            == properties_from(settings, generated) && (generated matches Ok(keys)
            ==> all_protected(acquired.factory, wrapper, requests, keys));
    let keys = generated->Ok_0;
    let at = lemma_generated_keys_are_draws(acquired, used, wrapper, requests, now, keys);
    let all = file_keys(properties, pairs);
    let parts = keys.map_values(|key: (Seq<u8>, Seq<u8>)| key.0);
    assert(parts.len() == all.len());
    assert forall|i: int| 0 <= i < all.len() implies parts[i] == all[i] by {
        if i > 0 {
            lemma_column_with(pairs, keys, i - 1);
        }
    }
    assert(parts =~= all);
    assert(keys_have_own_draws(before.draws, after.draws, all, at));
}

/// The keys of two files that were written one after the other are all different draws of the
/// random generator: each key of the second file was drawn after the first file was done.
pub proof fn law_files_share_no_key<F: KmsClientFactory>(
    before: ManagerModel<F>,
    between: ManagerModel<F>,
    after: ManagerModel<F>,
    config: ConfigModel,
    settings: EncryptionModel,
    now: u128,
    properties: PropertiesModel,
    next_config: ConfigModel,
    next_settings: EncryptionModel,
    later: u128,
    next_properties: PropertiesModel,
)
    requires
        makes_properties(
            before,
            between,
            config,
            settings,
            now,
            Ok::<PropertiesModel, ErrorModel>(properties),
        ),
        makes_properties(
            between,
            after,
            next_config,
            next_settings,
            later,
            Ok::<PropertiesModel, ErrorModel>(next_properties),
        ),
        no_column_twice(assignments(settings.column_key_ids)),
        no_column_twice(assignments(next_settings.column_key_ids)),
    ensures
        exists|at: Seq<int>| #[trigger]
            keys_have_own_draws(
                before.draws,
                after.draws,
                file_keys(properties, assignments(settings.column_key_ids)) + file_keys(
                    next_properties,
                    assignments(next_settings.column_key_ids),
                ),
                at,
            ),
{
    law_every_key_is_a_draw_of_its_own(before, between, config, settings, now, properties);
    law_every_key_is_a_draw_of_its_own(
        between,
        after,
        next_config,
        next_settings,
        later,
        next_properties,
    );
    let first = file_keys(properties, assignments(settings.column_key_ids));
    let second = file_keys(next_properties, assignments(next_settings.column_key_ids));
    let first_at = choose|at: Seq<int>| #[trigger]
        keys_have_own_draws(before.draws, between.draws, first, at);
    let second_at = choose|at: Seq<int>| #[trigger]
        keys_have_own_draws(between.draws, after.draws, second, at);
    let at = first_at + second_at;
    let keys = first + second;
    assert forall|i: int| 0 <= i < keys.len() implies before.draws.len() <= #[trigger] at[i]
        < after.draws.len() && after.draws[at[i]] == keys[i] && drawn(keys[i], KEY_LENGTH) by {
        if i < first.len() {
            assert(first_at[i] == at[i]);
            assert(after.draws[at[i]] == between.draws[at[i]]);
        } else {
            assert(second_at[i - first.len()] == at[i]);
        }
    }
    assert forall|i: int, j: int| 0 <= i < j < keys.len() implies #[trigger] at[i]
        < #[trigger] at[j] by {
        if j < first.len() {
            assert(first_at[i] == at[i] && first_at[j] == at[j]);
        } else if i < first.len() {
            assert(first_at[i] == at[i] && second_at[j - first.len()] == at[j]);
        } else {
            assert(second_at[i - first.len()] == at[i] && second_at[j - first.len()] == at[j]);
        }
    }
    assert(keys_have_own_draws(before.draws, after.draws, keys, at));
}

/// Settings that are not implemented are refused, without asking for anything: key material that
/// is not stored inside the file, and data keys that do not have 128 bits. All others are not
/// refused.
pub proof fn law_unimplemented_settings_are_refused<F: KmsClientFactory>(
    before: ManagerModel<F>,
    after: ManagerModel<F>,
    config: ConfigModel,
    settings: EncryptionModel,
    now: u128,
    outcome: Result<PropertiesModel, ErrorModel>,
)
    requires
        makes_properties(before, after, config, settings, now, outcome),
    ensures
        !settings.internal_key_material ==> after == before && outcome == Err::<
            PropertiesModel,
            ErrorModel,
        >(ErrorModel::Nyi("External key material is not yet implemented"@)),
        settings.internal_key_material && settings.data_key_length_bits != 128 ==> after == before
            && outcome == Err::<PropertiesModel, ErrorModel>(
            ErrorModel::Nyi("Only 128 bit data keys are currently implemented"@),
        ),
        settings.internal_key_material && settings.data_key_length_bits == 128
            ==> unimplemented_setting(settings) is None,
{
}

/// Where the keys of a file cannot be generated, there is a first one that cannot: all before it
/// are generated, its error is the one that is returned, and nothing is done after it.
pub proof fn law_first_failure_ends_the_generation<F: KmsClientFactory>(
    before: ManagerModel<F>,
    after: ManagerModel<F>,
    wrapper: WrapperModel,
    requests: Seq<(Seq<char>, bool)>,
    now: u128,
    error: ErrorModel,
) -> (failure: (int, ManagerModel<F>, Seq<(Seq<u8>, Seq<u8>)>))
    requires
        generates_all(
            before,
            after,
            wrapper,
            requests,
            now,
            Err::<Seq<(Seq<u8>, Seq<u8>)>, ErrorModel>(error),
        ),
    ensures
        0 <= failure.0 < requests.len(),
        generates_all(
            before,
            failure.1,
            wrapper,
            requests.take(failure.0),
            now,
            Ok::<Seq<(Seq<u8>, Seq<u8>)>, ErrorModel>(failure.2),
        ),
        generates_key(
            failure.1,
            after,
            wrapper,
            requests[failure.0],
            now,
            Err::<(Seq<u8>, Seq<u8>), ErrorModel>(error),
        ),
    decreases requests.len(),
{
    let outcome = Err::<Seq<(Seq<u8>, Seq<u8>)>, ErrorModel>(error);
    let (between, first) = choose|
        between: ManagerModel<F>,
        first: Result<Seq<(Seq<u8>, Seq<u8>)>, ErrorModel>,
    |
        generates_all(before, between, wrapper, requests.drop_last(), now, first)
            && #[trigger] generates_next(
            between,
            after,
            wrapper,
            requests.last(),
            now,
            first,
            outcome,
        );
    match first {
        Ok(keys) => {
            assert(requests.take(requests.len() - 1) =~= requests.drop_last());
            (requests.len() - 1, between, keys)
        },
        Err(e) => {
            let failure = law_first_failure_ends_the_generation(
                before,
                between,
                wrapper,
                requests.drop_last(),
                now,
                error,
            );
            assert(requests.drop_last().take(failure.0) =~= requests.take(failure.0));
            failure
        },
    }
}

proof fn lemma_caches_while_generating<F: KmsClientFactory>(
    before: ManagerModel<F>,
    after: ManagerModel<F>,
    wrapper: WrapperModel,
    requests: Seq<(Seq<char>, bool)>,
    now: u128,
    outcome: Result<Seq<(Seq<u8>, Seq<u8>)>, ErrorModel>,
    handle: int,
)
    requires
        generates_all(before, after, wrapper, requests, now, outcome),
    ensures
        same_but_keys(before.write_caches, after.write_caches, handle),
        after.read_caches == before.read_caches,
        after.factory == before.factory,
    decreases requests.len(),
{
    if requests.len() > 0 {
        let (between, first) = choose|
            between: ManagerModel<F>,
            first: Result<Seq<(Seq<u8>, Seq<u8>)>, ErrorModel>,
        |
            generates_all(before, between, wrapper, requests.drop_last(), now, first)
                && #[trigger] generates_next(
                between,
                after,
                wrapper,
                requests.last(),
                now,
                first,
                outcome,
            );
        lemma_caches_while_generating(
            before,
            between,
            wrapper,
            requests.drop_last(),
            now,
            first,
            handle,
        );
        if first is Ok {
            let next = choose|next: Result<(Seq<u8>, Seq<u8>), ErrorModel>| #[trigger]
                generates_key(between, after, wrapper, requests.last(), now, next) && outcome == (
                match next {
                    Ok(key) => Ok::<Seq<(Seq<u8>, Seq<u8>)>, ErrorModel>(first->Ok_0.push(key)),
                    Err(e) => Err(e),
                });
            if after != between {
                let (key, metadata) = choose|key: Seq<u8>, metadata: Result<Seq<u8>, ErrorModel>|
                    key.len() == KEY_LENGTH && drawn(key, KEY_LENGTH) && #[trigger] makes_metadata(
                        with_draw(between, key),
                        after,
                        wrapper,
                        key,
                        requests.last().0,
                        requests.last().1,
                        now,
                        metadata,
                    ) && next == key_with(key, metadata);
                lemma_caches_while_storing(
                    with_draw(between, key),
                    after,
                    wrapper,
                    key,
                    requests.last().0,
                    requests.last().1,
                    now,
                    metadata,
                    handle,
                );
            }
        }
    }
}

/// Making encryption properties leaves each cache with as many holders as it had, whether or not
/// the keys could be generated, as long as the holders can be counted. What is kept for reading is
/// not changed.
pub proof fn law_no_cache_stays_held<F: KmsClientFactory>(
    before: ManagerModel<F>,
    after: ManagerModel<F>,
    config: ConfigModel,
    settings: EncryptionModel,
    now: u128,
    outcome: Result<PropertiesModel, ErrorModel>,
    handle: int,
)
    requires
        makes_properties(before, after, config, settings, now, outcome),
        forall|i: int| #[trigger] holders_of(before.write_caches, i) < u64::MAX - 1,
    ensures
        holders_of(after.write_caches, handle) == holders_of(before.write_caches, handle),
        after.read_caches == before.read_caches,
        after.factory == before.factory,
{
    if unimplemented_setting(settings) is None {
        let (acquired, used, cache) = choose|
            acquired: ManagerModel<F>,
            used: ManagerModel<F>,
            cache: int,
        |
            acquires(
                before.write_caches,
                acquired.write_caches,
                config.key_access_token,
                settings.cache_lifetime,
                now,
                cache,
            ) && acquired == (ManagerModel { write_caches: acquired.write_caches, ..before })
                && #[trigger] generates_file_keys(
                acquired,
                used,
                WrapperModel { config, settings, cache },
                now,
                outcome,
            ) && after == wrapper_closed(used, cache);
        let wrapper = WrapperModel { config, settings, cache };
        let requests = key_requests(
            settings.footer_key_id,
            assignments(settings.column_key_ids),
        );
        let generated = choose|generated: Result<Seq<(Seq<u8>, Seq<u8>)>, ErrorModel>| #[trigger]
            generates_all(acquired, used, wrapper, requests, now, generated) && outcome
                == properties_from(settings, generated) && (generated matches Ok(keys)
                ==> all_protected(acquired.factory, wrapper, requests, keys));
        assert(holders_of(before.write_caches, cache) < u64::MAX - 1);
        law_release_undoes_acquisition(
            before.write_caches,
            acquired.write_caches,
            config.key_access_token,
            settings.cache_lifetime,
            now,
            cache,
            handle,
        );
        lemma_caches_while_generating(
            acquired,
            used,
            wrapper,
            requests,
            now,
            generated,
            handle,
        );
        lemma_caches_while_generating(
            acquired,
            used,
            wrapper,
            requests,
            now,
            generated,
            cache,
        );
    }
}

/// The first file for an access token starts the lifetime of the cache of key encryption keys for
/// it, as long as the settings of the file say. The next files for it share this cache until then.
pub proof fn law_first_file_starts_the_lifetime<F: KmsClientFactory>(
    before: ManagerModel<F>,
    after: ManagerModel<F>,
    config: ConfigModel,
    settings: EncryptionModel,
    now: u128,
    outcome: Result<PropertiesModel, ErrorModel>,
) -> (cache: int)
    requires
        makes_properties(before, after, config, settings, now, outcome),
        settings.internal_key_material,
        settings.data_key_length_bits == 128,
        forall|i: int| !(#[trigger] shared_for(before.write_caches, i, config.key_access_token)),
        settings.cache_lifetime matches Some(nanos) ==> now + nanos <= u128::MAX,
    ensures
        shared_for(after.write_caches, cache, config.key_access_token),
        settings.cache_lifetime is None ==> after.write_caches[cache]->0.expires_at is None,
        settings.cache_lifetime matches Some(nanos) ==> (
        after.write_caches[cache]->0.expires_at matches Some(time) && time == now + nanos),
{
    let (acquired, used, cache) = choose|
        acquired: ManagerModel<F>,
        used: ManagerModel<F>,
        cache: int,
    |
        acquires(
            before.write_caches,
            acquired.write_caches,
            config.key_access_token,
            settings.cache_lifetime,
            now,
            cache,
        ) && acquired == (ManagerModel { write_caches: acquired.write_caches, ..before })
            && #[trigger] generates_file_keys(
            acquired,
            used,
            WrapperModel { config, settings, cache },
            now,
            outcome,
        ) && after == wrapper_closed(used, cache);
    let wrapper = WrapperModel { config, settings, cache };
    let requests = key_requests(settings.footer_key_id, assignments(settings.column_key_ids));
    let generated = choose|generated: Result<Seq<(Seq<u8>, Seq<u8>)>, ErrorModel>| #[trigger]
        generates_all(acquired, used, wrapper, requests, now, generated) && outcome
            == properties_from(settings, generated) && (generated matches Ok(keys)
            ==> all_protected(acquired.factory, wrapper, requests, keys));
    lemma_new_cache_starts(
        before.write_caches,
        acquired.write_caches,
        config.key_access_token,
        settings.cache_lifetime,
        now,
        cache,
    );
    lemma_caches_while_generating(acquired, used, wrapper, requests, now, generated, cache);
    cache
}

} // verus!
