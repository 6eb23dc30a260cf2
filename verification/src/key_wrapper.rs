//! Wrapping of data encryption keys when writing files.

use std::time::Duration;
use vstd::prelude::*;
use vstd::utf8::encode_utf8;

use crate::config::EncryptionConfiguration;
use crate::config::EncryptionModel;
use crate::crypto::KEY_LENGTH;
use crate::crypto::NONCE_LENGTH;
use crate::crypto::TAG_LENGTH;
use crate::crypto::base64_encode;
use crate::crypto::base64_fits;
use crate::crypto::base64_text;
use crate::crypto::draw_failed;
use crate::crypto::drawn;
use crate::crypto::unspecified;
use crate::crypto::unspecified_error;
use crate::error::Error;
use crate::error::ErrorModel;
use crate::error::bytes_outcome;
use crate::error::text_outcome;
use crate::kek_caches::CacheModel;
use crate::kek_caches::acquires;
use crate::kek_caches::has_passed;
use crate::kek_caches::is_held;
use crate::kek_caches::keys_of;
use crate::kek_caches::law_acquired_cache_is_held;
use crate::kek_caches::law_acquisition_keeps_one_shared;
use crate::kek_caches::law_cache_is_shared_until_it_expires;
use crate::kek_caches::lemma_new_cache_starts;
use crate::kek_caches::lemma_shared_as_before;
use crate::kek_caches::one_shared_per_token;
use crate::kek_caches::released;
use crate::kek_caches::same_but_keys;
use crate::kek_caches::shared_for;
use crate::kek_caches::stored;
use crate::key_encryption::decrypted_key;
use crate::key_encryption::encrypt_encryption_key;
use crate::key_encryption::encrypts;
use crate::key_material::KeyMaterialBuilder;
use crate::key_material::MaterialModel;
use crate::key_material::WrappedKeyModel;
use crate::key_material::built_material;
use crate::key_material::material_text;
use crate::kms::ConfigModel;
use crate::kms::KmsClient;
use crate::kms::KmsClientFactory;
use crate::kms::KmsConnectionConfig;
use crate::kms::creates;
use crate::kms::is_client;
use crate::kms::wraps;
use crate::kms_manager::KekModel;
use crate::kms_manager::KeyEncryptionKey;
use crate::kms_manager::KmsManager;
use crate::kms_manager::ManagerModel;
use crate::kms_manager::gets_client;
use crate::kms_manager::sound_kek;
use crate::kms_manager::with_draw;
use crate::time::duration_nanos;
use crate::time::lifetime_nanos;

verus! {

/// The identifier or URL of a KMS instance that is stored with a key. One that was not provided is
/// replaced by a non-empty default value.
pub open spec fn or_default(text: Seq<char>) -> Seq<char> {
    if text.len() == 0 {
        "DEFAULT"@
    } else {
        text
    }
}

/// The identifier and URL of the KMS instance that are stored with a footer key, and not with a
/// column key.
pub open spec fn stored_location(config: ConfigModel, is_footer_key: bool) -> Option<
    (Seq<char>, Seq<char>),
> {
    if is_footer_key {
        Some((or_default(config.kms_instance_id), or_default(config.kms_instance_url)))
    } else {
        None
    }
}

/// The bytes that are stored for key material.
pub open spec fn metadata_bytes(m: MaterialModel) -> Seq<u8> {
    encode_utf8(material_text(m))
}

/// What is stored for a key that the KMS wrapped.
pub open spec fn single_metadata(
    location: Option<(Seq<char>, Seq<char>)>,
    master_key_id: Seq<char>,
    wrapped_dek: Seq<char>,
) -> Seq<u8> {
    metadata_bytes(built_material(location, WrappedKeyModel::Single { master_key_id, wrapped_dek }))
}

/// What is stored for a key that was encrypted with a key encryption key.
pub open spec fn double_metadata(
    location: Option<(Seq<char>, Seq<char>)>,
    master_key_id: Seq<char>,
    kek: KekModel,
    wrapped_dek: Seq<char>,
) -> Seq<u8> {
    metadata_bytes(
        built_material(
            location,
            WrappedKeyModel::Double {
                master_key_id,
                key_encryption_key_id: kek.encoded_key_id,
                wrapped_kek: kek.wrapped_key,
                wrapped_dek,
            },
        ),
    )
}

/// A key encryption key, once the KMS has wrapped it.
pub open spec fn kek_with(
    key: Seq<u8>,
    key_id: Seq<u8>,
    wrapped: Result<Seq<char>, ErrorModel>,
) -> Result<KekModel, ErrorModel> {
    match wrapped {
        Ok(wrapped_key) => Ok(
            KekModel { key_id, encoded_key_id: base64_text(key_id), key, wrapped_key },
        ),
        Err(e) => Err(e),
    }
}

/// Whether wrapping a new key encryption key can have an outcome, given what asking for a client
/// came to.
pub open spec fn kek_from<C: KmsClient>(
    client: Result<C, ErrorModel>,
    master_key_id: Seq<char>,
    key: Seq<u8>,
    key_id: Seq<u8>,
    outcome: Result<KekModel, ErrorModel>,
) -> bool {
    match client {
        Ok(c) => exists|wrapped: Result<Seq<char>, ErrorModel>| #[trigger]
            wraps(c, key, master_key_id, wrapped) && outcome == kek_with(key, key_id, wrapped),
        Err(e) => outcome == Err::<KekModel, ErrorModel>(e),
    }
}

/// Whether wrapping a new key encryption key with a given identifier can have an outcome.
pub open spec fn wraps_kek<F: KmsClientFactory>(
    before: ManagerModel<F>,
    after: ManagerModel<F>,
    config: ConfigModel,
    lifetime: Option<u128>,
    now: u128,
    master_key_id: Seq<char>,
    key: Seq<u8>,
    key_id: Seq<u8>,
    outcome: Result<KekModel, ErrorModel>,
) -> bool {
    exists|client: Result<F::Client, ErrorModel>| #[trigger]
        gets_client(before, after, config, lifetime, now, client) && kek_from(
            client,
            master_key_id,
            key,
            key_id,
            outcome,
        )
}

/// Whether generating a key encryption key can have an outcome. The key and its identifier are what
/// the random generator gives for each of them, where it does not fail.
pub open spec fn generates_kek<F: KmsClientFactory>(
    before: ManagerModel<F>,
    after: ManagerModel<F>,
    config: ConfigModel,
    lifetime: Option<u128>,
    now: u128,
    master_key_id: Seq<char>,
    outcome: Result<KekModel, ErrorModel>,
) -> bool {
    ||| draw_failed(KEY_LENGTH) && after == before && outcome == Err::<KekModel, ErrorModel>(
        unspecified(),
    )
    ||| exists|key: Seq<u8>|
        draw_failed(KEY_LENGTH) && drawn(key, KEY_LENGTH) && after == #[trigger] with_draw(
            before,
            key,
        ) && outcome == Err::<KekModel, ErrorModel>(unspecified())
    ||| exists|key: Seq<u8>, key_id: Seq<u8>|
        key.len() == KEY_LENGTH && key_id.len() == KEY_LENGTH && drawn(key, KEY_LENGTH) && drawn(
            key_id,
            KEY_LENGTH,
        ) && #[trigger] wraps_kek(
            with_draw(with_draw(before, key), key_id),
            after,
            config,
            lifetime,
            now,
            master_key_id,
            key,
            key_id,
            outcome,
        )
}

/// What the wrapping of a key encryption key came to.
pub open spec fn kek_outcome(r: Result<KeyEncryptionKey, Error>) -> Result<KekModel, ErrorModel> {
    match r {
        Ok(kek) => Ok(kek@),
        Err(e) => Err(e@),
    }
}

/// What a [`KeyWrapper`] holds.
pub struct WrapperModel {
    pub config: ConfigModel,
    pub settings: EncryptionModel,
    pub cache: int,
}

/// Whether making a key wrapper can lead from one state to another: it acquires a cache of key
/// encryption keys for its access token, and the KMS is not asked for anything.
pub open spec fn opens_wrapper<F: KmsClientFactory>(
    before: ManagerModel<F>,
    after: ManagerModel<F>,
    wrapper: WrapperModel,
    now: u128,
) -> bool {
    &&& acquires(
        before.write_caches,
        after.write_caches,
        wrapper.config.key_access_token,
        wrapper.settings.cache_lifetime,
        now,
        wrapper.cache,
    )
    &&& after == (ManagerModel { write_caches: after.write_caches, ..before })
}

/// The state after a key wrapper was closed.
pub open spec fn wrapper_closed<F: KmsClientFactory>(
    manager: ManagerModel<F>,
    cache: int,
) -> ManagerModel<F> {
    ManagerModel { write_caches: released(manager.write_caches, cache), ..manager }
}

/// What is stored for a key, given what wrapping it with the KMS came to.
pub open spec fn single_outcome(
    wrapper: WrapperModel,
    master_key_id: Seq<char>,
    is_footer_key: bool,
    wrapped: Result<Seq<char>, ErrorModel>,
) -> Result<Seq<u8>, ErrorModel> {
    match wrapped {
        Ok(wrapped_dek) => Ok(
            single_metadata(
                stored_location(wrapper.config, is_footer_key),
                master_key_id,
                wrapped_dek,
            ),
        ),
        Err(e) => Err(e),
    }
}

/// What is stored for a key, given what encrypting it with the key encryption key came to.
pub open spec fn double_outcome(
    wrapper: WrapperModel,
    master_key_id: Seq<char>,
    is_footer_key: bool,
    kek: KekModel,
    encrypted: Result<Seq<char>, ErrorModel>,
) -> Result<Seq<u8>, ErrorModel> {
    match encrypted {
        Ok(wrapped_dek) => Ok(
            double_metadata(
                stored_location(wrapper.config, is_footer_key),
                master_key_id,
                kek,
                wrapped_dek,
            ),
        ),
        Err(e) => Err(e),
    }
}

/// Whether storing a key with single wrapping can have an outcome, given what asking for a client
/// came to.
pub open spec fn single_from<C: KmsClient>(
    client: Result<C, ErrorModel>,
    wrapper: WrapperModel,
    key: Seq<u8>,
    master_key_id: Seq<char>,
    is_footer_key: bool,
    outcome: Result<Seq<u8>, ErrorModel>,
) -> bool {
    match client {
        Ok(c) => exists|wrapped: Result<Seq<char>, ErrorModel>| #[trigger]
            wraps(c, key, master_key_id, wrapped) && outcome == single_outcome(
                wrapper,
                master_key_id,
                is_footer_key,
                wrapped,
            ),
        Err(e) => outcome == Err::<Seq<u8>, ErrorModel>(e),
    }
}

/// Whether storing a key with double wrapping can have an outcome, given the key encryption key.
pub open spec fn double_from(
    kek: KekModel,
    wrapper: WrapperModel,
    key: Seq<u8>,
    master_key_id: Seq<char>,
    is_footer_key: bool,
    outcome: Result<Seq<u8>, ErrorModel>,
) -> bool {
    exists|encrypted: Result<Seq<char>, ErrorModel>| #[trigger]
        encrypts(key, kek.key_id, kek.key, encrypted) && outcome == double_outcome(
            wrapper,
            master_key_id,
            is_footer_key,
            kek,
            encrypted,
        )
}

/// The state after a key encryption key was kept for a master key.
pub open spec fn with_write_kek<F: KmsClientFactory>(
    manager: ManagerModel<F>,
    cache: int,
    master_key_id: Seq<char>,
    kek: KeyEncryptionKey,
) -> ManagerModel<F> {
    ManagerModel { write_caches: stored(manager.write_caches, cache, master_key_id, kek), ..manager }
}

/// Whether storing a key with double wrapping can have an outcome, given what generating a key
/// encryption key came to. A generated key is kept.
pub open spec fn double_generated<F: KmsClientFactory>(
    between: ManagerModel<F>,
    after: ManagerModel<F>,
    wrapper: WrapperModel,
    key: Seq<u8>,
    master_key_id: Seq<char>,
    is_footer_key: bool,
    generated: Result<KekModel, ErrorModel>,
    outcome: Result<Seq<u8>, ErrorModel>,
) -> bool {
    match generated {
        Ok(model) => exists|kek: KeyEncryptionKey|
            kek@ == model && after == #[trigger] with_write_kek(
                between,
                wrapper.cache,
                master_key_id,
                kek,
            ) && double_from(model, wrapper, key, master_key_id, is_footer_key, outcome),
        Err(e) => after == between && outcome == Err::<Seq<u8>, ErrorModel>(e),
    }
}

/// Whether storing a key with double wrapping can have an outcome where no key encryption key is
/// kept for the master key: a new one is generated, which the KMS is asked to wrap.
pub open spec fn wraps_with_new_kek<F: KmsClientFactory>(
    before: ManagerModel<F>,
    after: ManagerModel<F>,
    wrapper: WrapperModel,
    key: Seq<u8>,
    master_key_id: Seq<char>,
    is_footer_key: bool,
    now: u128,
    outcome: Result<Seq<u8>, ErrorModel>,
) -> bool {
    exists|between: ManagerModel<F>, generated: Result<KekModel, ErrorModel>| #[trigger]
        generates_kek(
            before,
            between,
            wrapper.config,
            wrapper.settings.cache_lifetime,
            now,
            master_key_id,
            generated,
        ) && double_generated(
            between,
            after,
            wrapper,
            key,
            master_key_id,
            is_footer_key,
            generated,
            outcome,
        )
}

/// Whether making the metadata to store for a key can have an outcome. With double wrapping, the
/// key encryption key that is kept for the master key is used, or else a new one is generated.
/// Otherwise the KMS wraps the key itself.
pub open spec fn makes_metadata<F: KmsClientFactory>(
    before: ManagerModel<F>,
    after: ManagerModel<F>,
    wrapper: WrapperModel,
    key: Seq<u8>,
    master_key_id: Seq<char>,
    is_footer_key: bool,
    now: u128,
    outcome: Result<Seq<u8>, ErrorModel>,
) -> bool {
    let lifetime = wrapper.settings.cache_lifetime;
    let keks = keys_of(before.write_caches, wrapper.cache);
    if !wrapper.settings.double_wrapping {
        exists|client: Result<F::Client, ErrorModel>| #[trigger]
            gets_client(before, after, wrapper.config, lifetime, now, client) && single_from(
                client,
                wrapper,
                key,
                master_key_id,
                is_footer_key,
                outcome,
            )
    } else if keks.contains_key(master_key_id) {
        after == before && double_from(
            keks[master_key_id]@,
            wrapper,
            key,
            master_key_id,
            is_footer_key,
            outcome,
        )
    } else {
        wraps_with_new_kek(
            before,
            after,
            wrapper,
            key,
            master_key_id,
            is_footer_key,
            now,
            outcome,
        )
    }
}

/// Whether metadata holds a key as a client of the factory wrapped it.
pub open spec fn protects_single<F: KmsClientFactory>(
    factory: F,
    metadata: Seq<u8>,
    location: Option<(Seq<char>, Seq<char>)>,
    key: Seq<u8>,
    master_key_id: Seq<char>,
) -> bool {
    exists|client: F::Client, wrapped: Seq<char>|
        is_client(factory, client) && #[trigger] wraps(
            client,
            key,
            master_key_id,
            Ok::<Seq<char>, ErrorModel>(wrapped),
        ) && metadata == single_metadata(location, master_key_id, wrapped)
}

/// Whether metadata holds a key that decrypts with a key encryption key, and that key encryption
/// key as a client of the factory wrapped it.
pub open spec fn protects_double<F: KmsClientFactory>(
    factory: F,
    metadata: Seq<u8>,
    location: Option<(Seq<char>, Seq<char>)>,
    key: Seq<u8>,
    master_key_id: Seq<char>,
) -> bool {
    exists|kek: KekModel, wrapped_dek: Seq<char>|
        sound_kek(factory, master_key_id, kek) && metadata == #[trigger] double_metadata(
            location,
            master_key_id,
            kek,
            wrapped_dek,
        ) && decrypted_key(wrapped_dek, kek.key_id, kek.key) == Ok::<Seq<u8>, ErrorModel>(key)
}

/// Whether metadata holds a key in a form from which the KMS can give it back.
pub open spec fn protects<F: KmsClientFactory>(
    factory: F,
    metadata: Seq<u8>,
    location: Option<(Seq<char>, Seq<char>)>,
    key: Seq<u8>,
    master_key_id: Seq<char>,
    double_wrapping: bool,
) -> bool {
    if double_wrapping {
        protects_double(factory, metadata, location, key, master_key_id)
    } else {
        protects_single(factory, metadata, location, key, master_key_id)
    }
}

/// Replaces an empty text by the default value.
fn text_or_default(text: &str) -> (r: String)
    ensures
        r@ == or_default(text@),
{
    if text.is_empty() {
        "DEFAULT".to_owned()
    } else {
        text.to_owned()
    }
}

/// Makes key material for a footer key or a column key, to which a wrapped key has to be added.
fn material_builder(config: &KmsConnectionConfig, is_footer_key: bool) -> (r: KeyMaterialBuilder)
    ensures
        r@.footer == stored_location(config@, is_footer_key),
        r@.key is None,
{
    if is_footer_key {
        // If instance ID or URL weren't provided, set them to non-empty default values
        let kms_instance_id = text_or_default(config.kms_instance_id());
        let kms_instance_url = text_or_default(config.kms_instance_url());
        KeyMaterialBuilder::for_footer_key(kms_instance_id, kms_instance_url)
    } else {
        KeyMaterialBuilder::for_column_key()
    }
}

/// Writes the key material of a builder, which has a wrapped key, as the bytes to store.
fn finish_metadata(builder: KeyMaterialBuilder) -> (r: Result<Vec<u8>, Error>)
    requires
        builder@.key is Some,
    ensures
        r matches Ok(bytes) && bytes@ == metadata_bytes(
            built_material(builder@.footer, builder@.key->0),
        ),
{
    match builder.build() {
        Ok(material) => match material.serialize() {
            Ok(text) => Ok(text.as_str().as_bytes_vec()),
            Err(e) => Err(e),
        },
        Err(e) => Err(e),
    }
}

/// Makes the metadata to store for a key that the KMS wrapped.
pub fn single_wrapped_metadata(
    config: &KmsConnectionConfig,
    master_key_id: &str,
    is_footer_key: bool,
    wrapped_dek: String,
) -> (r: Result<Vec<u8>, Error>)
    ensures
        r matches Ok(bytes) && bytes@ == single_metadata(
            stored_location(config@, is_footer_key),
            master_key_id@,
            wrapped_dek@,
        ),
{
    finish_metadata(
        material_builder(config, is_footer_key).with_single_wrapped_key(
            master_key_id.to_owned(),
            wrapped_dek,
        ),
    )
}

/// Makes the metadata to store for a key that was encrypted with a key encryption key.
pub fn double_wrapped_metadata(
    config: &KmsConnectionConfig,
    master_key_id: &str,
    is_footer_key: bool,
    kek: &KeyEncryptionKey,
    wrapped_dek: String,
) -> (r: Result<Vec<u8>, Error>)
    ensures
        r matches Ok(bytes) && bytes@ == double_metadata(
            stored_location(config@, is_footer_key),
            master_key_id@,
            kek@,
            wrapped_dek@,
        ),
{
    finish_metadata(
        material_builder(config, is_footer_key).with_double_wrapped_key(
            master_key_id.to_owned(),
            kek.encoded_key_id.clone(),
            kek.wrapped_key.clone(),
            wrapped_dek,
        ),
    )
}

/// Has a key encryption key wrapped by the KMS.
pub fn wrap_key_encryption_key<F: KmsClientFactory>(
    kms_manager: &mut KmsManager<F>,
    config: &KmsConnectionConfig,
    cache_lifetime: Option<Duration>,
    now: Duration,
    master_key_id: &str,
    key: Vec<u8>,
    key_id: Vec<u8>,
) -> (r: Result<KeyEncryptionKey, Error>)
    requires
        key@.len() == KEY_LENGTH,
        key_id@.len() == KEY_LENGTH,
    ensures
        wraps_kek(
            old(kms_manager)@,
            final(kms_manager)@,
            config@,
            lifetime_nanos(cache_lifetime),
            duration_nanos(now),
            master_key_id@,
            key@,
            key_id@,
            kek_outcome(r),
        ),
        r matches Ok(kek) ==> sound_kek(old(kms_manager)@.factory, master_key_id@, kek@),
{
    let encoded_key_id = base64_encode(key_id.as_slice());
    match kms_manager.get_client(config, cache_lifetime, now) {
        Ok(client) => {
            let wrapped = client.wrap_key(key.as_slice(), master_key_id);
            assert(wraps(*client, key@, master_key_id@, text_outcome(wrapped)));
            match wrapped {
                Ok(wrapped_key) => {
                    let kek = KeyEncryptionKey { key_id, encoded_key_id, key, wrapped_key };
                    assert(wraps(
                        *client,
                        kek@.key,
                        master_key_id@,
                        Ok::<Seq<char>, ErrorModel>(kek@.wrapped_key),
                    ));
                    Ok(kek)
                },
                Err(e) => Err(e),
            }
        },
        Err(e) => Err(e),
    }
}

/// Generates a key encryption key and has it wrapped by the KMS.
pub fn generate_key_encryption_key<F: KmsClientFactory>(
    kms_manager: &mut KmsManager<F>,
    config: &KmsConnectionConfig,
    cache_lifetime: Option<Duration>,
    now: Duration,
    master_key_id: &str,
) -> (r: Result<KeyEncryptionKey, Error>)
    ensures
        generates_kek(
            old(kms_manager)@,
            final(kms_manager)@,
            config@,
            lifetime_nanos(cache_lifetime),
            duration_nanos(now),
            master_key_id@,
            kek_outcome(r),
        ),
        r matches Ok(kek) ==> sound_kek(old(kms_manager)@.factory, master_key_id@, kek@),
{
    let key = match kms_manager.draw(KEY_LENGTH) {
        Ok(key) => key,
        Err(e) => return Err(unspecified_error(e)),
    };
    // Key ids should be globally unique to allow caching decrypted keys during reading
    let key_id = match kms_manager.draw(KEY_LENGTH) {
        Ok(key_id) => key_id,
        Err(e) => return Err(unspecified_error(e)),
    };
    wrap_key_encryption_key(kms_manager, config, cache_lifetime, now, master_key_id, key, key_id)
}

/// Creates key material for data encryption keys
pub struct KeyWrapper<'a> {
    kms_connection_config: &'a KmsConnectionConfig,
    encryption_configuration: &'a EncryptionConfiguration,
    master_key_to_kek: usize,
}

impl<'a> View for KeyWrapper<'a> {
    type V = WrapperModel;

    closed spec fn view(&self) -> WrapperModel {
        WrapperModel {
            config: self.kms_connection_config@,
            settings: self.encryption_configuration@,
            cache: self.master_key_to_kek as int,
        }
    }
}

impl<'a> KeyWrapper<'a> {
    /// Create a key wrapper, which holds the cache of key encryption keys for the access token.
    pub fn new<F: KmsClientFactory>(
        kms_manager: &mut KmsManager<F>,
        kms_connection_config: &'a KmsConnectionConfig,
        encryption_configuration: &'a EncryptionConfiguration,
        now: Duration,
    ) -> (r: Self)
        ensures
            r@.config == kms_connection_config@,
            r@.settings == encryption_configuration@,
            opens_wrapper(old(kms_manager)@, final(kms_manager)@, r@, duration_nanos(now)),
            one_shared_per_token(old(kms_manager)@.write_caches),
            one_shared_per_token(final(kms_manager)@.write_caches),
    {
        let master_key_to_kek: usize = kms_manager.get_kek_write_cache(
            kms_connection_config,
            encryption_configuration.cache_lifetime(),
            now,
        );
        KeyWrapper { kms_connection_config, encryption_configuration, master_key_to_kek }
    }

    /// Let go of the cache of key encryption keys.
    pub fn close<F: KmsClientFactory>(self, kms_manager: &mut KmsManager<F>)
        ensures
            final(kms_manager)@ == wrapper_closed(old(kms_manager)@, self@.cache),
            one_shared_per_token(final(kms_manager)@.write_caches),
    {
        kms_manager.release_kek_write_cache(self.master_key_to_kek);
    }

    /// Encrypt a key with a key encryption key and make the metadata to store for it.
    fn double_wrap(
        &self,
        kek: &KeyEncryptionKey,
        key: &[u8],
        master_key_id: &str,
        is_footer_key: bool,
    ) -> (r: Result<Vec<u8>, Error>)
        requires
            base64_fits(NONCE_LENGTH + key@.len() + TAG_LENGTH),
        ensures
            double_from(kek@, self@, key@, master_key_id@, is_footer_key, bytes_outcome(r)),
            r matches Ok(metadata) ==> exists|wrapped_dek: Seq<char>|
                metadata@ == #[trigger] double_metadata(
                    stored_location(self@.config, is_footer_key),
                    master_key_id@,
                    kek@,
                    wrapped_dek,
                ) && decrypted_key(wrapped_dek, kek@.key_id, kek@.key) == Ok::<
                    Seq<u8>,
                    ErrorModel,
                >(key@),
    {
        let encrypted = encrypt_encryption_key(key, kek.key_id.as_slice(), kek.key.as_slice());
        let ghost outcome = text_outcome(encrypted);
        assert(encrypts(key@, kek@.key_id, kek@.key, outcome));
        match encrypted {
            Ok(wrapped_dek) => double_wrapped_metadata(
                self.kms_connection_config,
                master_key_id,
                is_footer_key,
                kek,
                wrapped_dek,
            ),
            Err(e) => Err(e),
        }
    }

    /// Make the metadata to store for a key, from which the key can be retrieved with the KMS.
    pub fn get_key_metadata<F: KmsClientFactory>(
        &self,
        kms_manager: &mut KmsManager<F>,
        key: &[u8],
        master_key_id: &str,
        is_footer_key: bool,
        now: Duration,
    ) -> (r: Result<Vec<u8>, Error>)
        requires
            self@.settings.double_wrapping ==> base64_fits(NONCE_LENGTH + key@.len() + TAG_LENGTH),
        ensures
            makes_metadata(
                old(kms_manager)@,
                final(kms_manager)@,
                self@,
                key@,
                master_key_id@,
                is_footer_key,
                duration_nanos(now),
                bytes_outcome(r),
            ),
            r matches Ok(metadata) ==> protects(
                old(kms_manager)@.factory,
                metadata@,
                stored_location(self@.config, is_footer_key),
                key@,
                master_key_id@,
                self@.settings.double_wrapping,
            ),
    {
        let cache_lifetime = self.encryption_configuration.cache_lifetime();
        if self.encryption_configuration.double_wrapping() {
            if let Some(kek) = kms_manager.get_write_kek(self.master_key_to_kek, master_key_id) {
                return self.double_wrap(kek, key, master_key_id, is_footer_key);
            }
            let generated = generate_key_encryption_key(
                kms_manager,
                self.kms_connection_config,
                cache_lifetime,
                now,
                master_key_id,
            );
            let ghost between = kms_manager@;
            let ghost outcome = kek_outcome(generated);
            assert(generates_kek(
                old(kms_manager)@,
                between,
                self@.config,
                self@.settings.cache_lifetime,
                duration_nanos(now),
                master_key_id@,
                outcome,
            ));
            match generated {
                Ok(kek) => {
                    let metadata = self.double_wrap(&kek, key, master_key_id, is_footer_key);
                    let ghost added = kek;
                    kms_manager.put_write_kek(
                        self.master_key_to_kek,
                        master_key_id.to_owned(),
                        kek,
                    );
                    assert(kms_manager@ == with_write_kek(
                        between,
                        self@.cache,
                        master_key_id@,
                        added,
                    ));
                    metadata
                },
                Err(e) => Err(e),
            }
        } else {
            match kms_manager.get_client(self.kms_connection_config, cache_lifetime, now) {
                Ok(client) => {
                    let wrapped = client.wrap_key(key, master_key_id);
                    assert(wraps(*client, key@, master_key_id@, text_outcome(wrapped)));
                    match wrapped {
                        Ok(wrapped_dek) => single_wrapped_metadata(
                            self.kms_connection_config,
                            master_key_id,
                            is_footer_key,
                            wrapped_dek,
                        ),
                        Err(e) => Err(e),
                    }
                },
                Err(e) => Err(e),
            }
        }
    }
}

/// While a key encryption key is kept for a master key, keys are wrapped under this master key
/// without asking the KMS for anything, at any time.
pub proof fn law_kept_kek_wraps_without_kms<F: KmsClientFactory>(
    before: ManagerModel<F>,
    after: ManagerModel<F>,
    wrapper: WrapperModel,
    key: Seq<u8>,
    master_key_id: Seq<char>,
    is_footer_key: bool,
    now: u128,
    outcome: Result<Seq<u8>, ErrorModel>,
)
    requires
        wrapper.settings.double_wrapping,
        keys_of(before.write_caches, wrapper.cache).contains_key(master_key_id),
        makes_metadata(before, after, wrapper, key, master_key_id, is_footer_key, now, outcome),
    ensures
        after == before,
        double_from(
            keys_of(before.write_caches, wrapper.cache)[master_key_id]@,
            wrapper,
            key,
            master_key_id,
            is_footer_key,
            outcome,
        ),
{
}

/// Once a key was wrapped under a master key with double wrapping, a key encryption key for this
/// master key is kept, for as long as the cache is held.
pub proof fn law_generated_kek_is_kept<F: KmsClientFactory>(
    before: ManagerModel<F>,
    after: ManagerModel<F>,
    wrapper: WrapperModel,
    key: Seq<u8>,
    master_key_id: Seq<char>,
    is_footer_key: bool,
    now: u128,
    metadata: Seq<u8>,
)
    requires
        wrapper.settings.double_wrapping,
        is_held(before.write_caches, wrapper.cache),
        makes_metadata(
            before,
            after,
            wrapper,
            key,
            master_key_id,
            is_footer_key,
            now,
            Ok::<Seq<u8>, ErrorModel>(metadata),
        ),
    ensures
        is_held(after.write_caches, wrapper.cache),
        keys_of(after.write_caches, wrapper.cache).contains_key(master_key_id),
{
}

/// Whether metadata holds a key that was encrypted with this key encryption key.
pub open spec fn wrapped_under(
    metadata: Seq<u8>,
    location: Option<(Seq<char>, Seq<char>)>,
    master_key_id: Seq<char>,
    kek: KekModel,
) -> bool {
    exists|wrapped_dek: Seq<char>|
        metadata == #[trigger] double_metadata(location, master_key_id, kek, wrapped_dek)
}

/// The key encryption keys that a key wrapper can use, by master key.
pub open spec fn kept_keks<F: KmsClientFactory>(manager: ManagerModel<F>, wrapper: WrapperModel) -> Map<
    Seq<char>,
    KeyEncryptionKey,
> {
    keys_of(manager.write_caches, wrapper.cache)
}

/// A key that is stored: the key, its master key, whether it is a footer key, and the time.
pub struct KeyRequest {
    pub key: Seq<u8>,
    pub master_key_id: Seq<char>,
    pub is_footer_key: bool,
    pub now: u128,
}

/// Whether keys are stored one after the other with one key wrapper, with this metadata, and with
/// these states before the first, between them and after the last.
pub open spec fn makes_all_metadata<F: KmsClientFactory>(
    states: Seq<ManagerModel<F>>,
    wrapper: WrapperModel,
    requests: Seq<KeyRequest>,
    metadata: Seq<Seq<u8>>,
) -> bool {
    &&& states.len() == requests.len() + 1
    &&& metadata.len() == requests.len()
    &&& forall|i: int|
        0 <= i < requests.len() ==> makes_metadata(
            states[i],
            states[i + 1],
            wrapper,
            (#[trigger] requests[i]).key,
            requests[i].master_key_id,
            requests[i].is_footer_key,
            requests[i].now,
            Ok::<Seq<u8>, ErrorModel>(metadata[i]),
        )
}

/// Whether a key wrapper keeps all that it kept before.
pub open spec fn keeps_all<F: KmsClientFactory>(
    before: ManagerModel<F>,
    after: ManagerModel<F>,
    wrapper: WrapperModel,
) -> bool {
    forall|id: Seq<char>|
        #![trigger kept_keks(after, wrapper).contains_key(id)]
        #![trigger kept_keks(before, wrapper).contains_key(id)]
        kept_keks(before, wrapper).contains_key(id) ==> kept_keks(after, wrapper).contains_key(id)
            && kept_keks(after, wrapper)[id] == kept_keks(before, wrapper)[id]
}

/// Storing a key with double wrapping leaves a key encryption key for its master key, with which
/// it was encrypted, and changes no other that is kept.
pub(crate) proof fn lemma_stored_key<F: KmsClientFactory>(
    before: ManagerModel<F>,
    after: ManagerModel<F>,
    wrapper: WrapperModel,
    key: Seq<u8>,
    master_key_id: Seq<char>,
    is_footer_key: bool,
    now: u128,
    metadata: Seq<u8>,
)
    requires
        wrapper.settings.double_wrapping,
        is_held(before.write_caches, wrapper.cache),
        makes_metadata(
            before,
            after,
            wrapper,
            key,
            master_key_id,
            is_footer_key,
            now,
            Ok::<Seq<u8>, ErrorModel>(metadata),
        ),
    ensures
        is_held(after.write_caches, wrapper.cache),
        after.write_caches.len() == before.write_caches.len(),
        after.write_caches[wrapper.cache]->0 == (CacheModel {
            keys: kept_keks(after, wrapper),
            ..before.write_caches[wrapper.cache]->0
        }),
        forall|i: int|
            0 <= i < before.write_caches.len() && i != wrapper.cache
                ==> #[trigger] after.write_caches[i] == before.write_caches[i],
        kept_keks(after, wrapper).contains_key(master_key_id),
        wrapped_under(
            metadata,
            stored_location(wrapper.config, is_footer_key),
            master_key_id,
            kept_keks(after, wrapper)[master_key_id]@,
        ),
        keeps_all(before, after, wrapper),
        forall|id: Seq<char>| #[trigger]
            kept_keks(after, wrapper).contains_key(id) ==> id == master_key_id || kept_keks(
                before,
                wrapper,
            ).contains_key(id),
{
    if !kept_keks(before, wrapper).contains_key(master_key_id) {
        let (between, generated) = choose|
            between: ManagerModel<F>,
            generated: Result<KekModel, ErrorModel>,
        | #[trigger]
            generates_kek(
                before,
                between,
                wrapper.config,
                wrapper.settings.cache_lifetime,
                now,
                master_key_id,
                generated,
            ) && double_generated(
                between,
                after,
                wrapper,
                key,
                master_key_id,
                is_footer_key,
                generated,
                Ok::<Seq<u8>, ErrorModel>(metadata),
            );
        assert(between.write_caches == before.write_caches);
    }
}

/// From one state to a later one, all key encryption keys are kept, and those that are new are for
/// the keys that were stored in between.
proof fn lemma_keks_over_time<F: KmsClientFactory>(
    states: Seq<ManagerModel<F>>,
    wrapper: WrapperModel,
    requests: Seq<KeyRequest>,
    metadata: Seq<Seq<u8>>,
    from: int,
    to: int,
)
    requires
        wrapper.settings.double_wrapping,
        makes_all_metadata(states, wrapper, requests, metadata),
        0 <= from <= to <= requests.len(),
        is_held(states[from].write_caches, wrapper.cache),
    ensures
        is_held(states[to].write_caches, wrapper.cache),
        keeps_all(states[from], states[to], wrapper),
        forall|id: Seq<char>| #[trigger]
            kept_keks(states[to], wrapper).contains_key(id) && !kept_keks(
                states[from],
                wrapper,
            ).contains_key(id) ==> exists|i: int|
                from <= i < to && (#[trigger] requests[i]).master_key_id == id,
    decreases to - from,
{
    if from < to {
        let last = to - 1;
        lemma_keks_over_time(states, wrapper, requests, metadata, from, last);
        let request = requests[last];
        lemma_stored_key(
            states[last],
            states[to],
            wrapper,
            request.key,
            request.master_key_id,
            request.is_footer_key,
            request.now,
            metadata[last],
        );
        assert forall|id: Seq<char>| #[trigger]
            kept_keks(states[to], wrapper).contains_key(id) && !kept_keks(
                states[from],
                wrapper,
            ).contains_key(id) implies exists|i: int|
            from <= i < to && (#[trigger] requests[i]).master_key_id == id by {
            if id == request.master_key_id {
                assert(requests[last].master_key_id == id);
            } else {
                assert(kept_keks(states[last], wrapper).contains_key(id));
            }
        }
    }
}

/// Keys that are stored with double wrapping by one key wrapper use one key encryption key for
/// each master key, so that the metadata for the same master key has the same identifier and
/// wrapped form of it.
pub proof fn law_one_kek_for_each_master_key<F: KmsClientFactory>(
    states: Seq<ManagerModel<F>>,
    wrapper: WrapperModel,
    requests: Seq<KeyRequest>,
    metadata: Seq<Seq<u8>>,
)
    requires
        wrapper.settings.double_wrapping,
        makes_all_metadata(states, wrapper, requests, metadata),
        is_held(states[0].write_caches, wrapper.cache),
    ensures
        forall|i: int|
            0 <= i < requests.len() ==> kept_keks(states.last(), wrapper).contains_key(
                (#[trigger] requests[i]).master_key_id,
            ) && wrapped_under(
                metadata[i],
                stored_location(wrapper.config, requests[i].is_footer_key),
                requests[i].master_key_id,
                kept_keks(states.last(), wrapper)[requests[i].master_key_id]@,
            ),
{
    let n = requests.len() as int;
    assert forall|i: int| 0 <= i < n implies kept_keks(states.last(), wrapper).contains_key(
        (#[trigger] requests[i]).master_key_id,
    ) && wrapped_under(
        metadata[i],
        stored_location(wrapper.config, requests[i].is_footer_key),
        requests[i].master_key_id,
        kept_keks(states.last(), wrapper)[requests[i].master_key_id]@,
    ) by {
        let request = requests[i];
        lemma_keks_over_time(states, wrapper, requests, metadata, 0, i);
        lemma_stored_key(
            states[i],
            states[i + 1],
            wrapper,
            request.key,
            request.master_key_id,
            request.is_footer_key,
            request.now,
            metadata[i],
        );
        lemma_keks_over_time(states, wrapper, requests, metadata, i + 1, n);
        assert(kept_keks(states[i + 1], wrapper).contains_key(request.master_key_id));
        assert(states.last() == states[n]);
    }
}

/// When keys are stored with double wrapping by one key wrapper, the KMS is asked to wrap a key
/// encryption key for the first key under each master key that none is kept for. It is asked for
/// nothing for the next keys under the same master key, and never to wrap one of the keys.
pub proof fn law_kms_is_asked_once_for_each_master_key<F: KmsClientFactory>(
    states: Seq<ManagerModel<F>>,
    wrapper: WrapperModel,
    requests: Seq<KeyRequest>,
    metadata: Seq<Seq<u8>>,
    j: int,
)
    requires
        wrapper.settings.double_wrapping,
        makes_all_metadata(states, wrapper, requests, metadata),
        is_held(states[0].write_caches, wrapper.cache),
        0 <= j < requests.len(),
    ensures
        if kept_keks(states[0], wrapper).contains_key(requests[j].master_key_id) || exists|i: int|
            0 <= i < j && (#[trigger] requests[i]).master_key_id == requests[j].master_key_id {
            states[j + 1] == states[j] && double_from(
                kept_keks(states[j], wrapper)[requests[j].master_key_id]@,
                wrapper,
                requests[j].key,
                requests[j].master_key_id,
                requests[j].is_footer_key,
                Ok::<Seq<u8>, ErrorModel>(metadata[j]),
            )
        } else {
            wraps_with_new_kek(
                states[j],
                states[j + 1],
                wrapper,
                requests[j].key,
                requests[j].master_key_id,
                requests[j].is_footer_key,
                requests[j].now,
                Ok::<Seq<u8>, ErrorModel>(metadata[j]),
            )
        },
{
    let id = requests[j].master_key_id;
    lemma_keks_over_time(states, wrapper, requests, metadata, 0, j);
    if kept_keks(states[0], wrapper).contains_key(id) {
        assert(kept_keks(states[j], wrapper).contains_key(id));
    } else if exists|i: int| 0 <= i < j && (#[trigger] requests[i]).master_key_id == id {
        let i = choose|i: int| 0 <= i < j && (#[trigger] requests[i]).master_key_id == id;
        let request = requests[i];
        lemma_keks_over_time(states, wrapper, requests, metadata, 0, i);
        lemma_stored_key(
            states[i],
            states[i + 1],
            wrapper,
            request.key,
            request.master_key_id,
            request.is_footer_key,
            request.now,
            metadata[i],
        );
        lemma_keks_over_time(states, wrapper, requests, metadata, i + 1, j);
        assert(kept_keks(states[i + 1], wrapper).contains_key(id));
        assert(kept_keks(states[j], wrapper).contains_key(id));
    } else {
        assert(!kept_keks(states[j], wrapper).contains_key(id));
    }
    let request = requests[j];
    assert(makes_metadata(
        states[j],
        states[j + 1],
        wrapper,
        request.key,
        id,
        request.is_footer_key,
        request.now,
        Ok::<Seq<u8>, ErrorModel>(metadata[j]),
    ));
}

/// Whether an error can come from creating a client for a configuration, or from asking a client
/// of the factory to wrap a new key encryption key.
pub open spec fn kek_wrapping_fails<F: KmsClientFactory>(
    factory: F,
    config: ConfigModel,
    master_key_id: Seq<char>,
    error: ErrorModel,
) -> bool {
    ||| creates(factory, config, Err::<F::Client, ErrorModel>(error))
    ||| exists|client: F::Client, key: Seq<u8>|
        is_client(factory, client) && key.len() == KEY_LENGTH && #[trigger] wraps(
            client,
            key,
            master_key_id,
            Err::<Seq<char>, ErrorModel>(error),
        )
}

/// Where storing a key with double wrapping fails because there is no key encryption key, the
/// error is that of the KMS or of the random generator, no key encryption key is kept, and the KMS
/// is asked again for the next key. Where only the encryption of the key failed, the key encryption
/// key is kept, and is used for the next key.
pub proof fn law_failed_wrapping_is_tried_again<F: KmsClientFactory>(
    before: ManagerModel<F>,
    between: ManagerModel<F>,
    after: ManagerModel<F>,
    wrapper: WrapperModel,
    master_key_id: Seq<char>,
    key: Seq<u8>,
    is_footer_key: bool,
    now: u128,
    error: ErrorModel,
    next_key: Seq<u8>,
    next_is_footer_key: bool,
    later: u128,
    outcome: Result<Seq<u8>, ErrorModel>,
)
    requires
        wrapper.settings.double_wrapping,
        is_held(before.write_caches, wrapper.cache),
        !kept_keks(before, wrapper).contains_key(master_key_id),
        makes_metadata(
            before,
            between,
            wrapper,
            key,
            master_key_id,
            is_footer_key,
            now,
            Err::<Seq<u8>, ErrorModel>(error),
        ),
        makes_metadata(
            between,
            after,
            wrapper,
            next_key,
            master_key_id,
            next_is_footer_key,
            later,
            outcome,
        ),
    ensures
        if kept_keks(between, wrapper).contains_key(master_key_id) {
            let kek = kept_keks(between, wrapper)[master_key_id]@;
            &&& encrypts(key, kek.key_id, kek.key, Err::<Seq<char>, ErrorModel>(error))
            &&& after == between
            &&& double_from(
                kek,
                wrapper,
                next_key,
                master_key_id,
                next_is_footer_key,
                outcome,
            )
        } else {
            &&& (draw_failed(KEY_LENGTH) && error == unspecified()) || kek_wrapping_fails(
                before.factory,
                wrapper.config,
                master_key_id,
                error,
            )
            &&& between.write_caches == before.write_caches
            &&& wraps_with_new_kek(
                between,
                after,
                wrapper,
                next_key,
                master_key_id,
                next_is_footer_key,
                later,
                outcome,
            )
        },
{
    let failure = Err::<Seq<u8>, ErrorModel>(error);
    let (waiting, generated) = choose|
        waiting: ManagerModel<F>,
        generated: Result<KekModel, ErrorModel>,
    | #[trigger]
        generates_kek(
            before,
            waiting,
            wrapper.config,
            wrapper.settings.cache_lifetime,
            now,
            master_key_id,
            generated,
        ) && double_generated(
            waiting,
            between,
            wrapper,
            key,
            master_key_id,
            is_footer_key,
            generated,
            failure,
        );
    assert(waiting.write_caches == before.write_caches);
}

/// With single wrapping, an error is that of creating a client, or of asking a client to wrap this
/// key, as it is, and no key encryption key is involved.
pub proof fn law_single_wrapping_returns_the_error_of_the_kms<F: KmsClientFactory>(
    before: ManagerModel<F>,
    after: ManagerModel<F>,
    wrapper: WrapperModel,
    key: Seq<u8>,
    master_key_id: Seq<char>,
    is_footer_key: bool,
    now: u128,
    error: ErrorModel,
)
    requires
        !wrapper.settings.double_wrapping,
        makes_metadata(
            before,
            after,
            wrapper,
            key,
            master_key_id,
            is_footer_key,
            now,
            Err::<Seq<u8>, ErrorModel>(error),
        ),
    ensures
        creates(before.factory, wrapper.config, Err::<F::Client, ErrorModel>(error)) || exists|
            client: F::Client,
        |
            is_client(before.factory, client) && #[trigger] wraps(
                client,
                key,
                master_key_id,
                Err::<Seq<char>, ErrorModel>(error),
            ),
        after.write_caches == before.write_caches,
{
}

/// A key wrapper that is made within the lifetime of the cache of another with the same access
/// token, whether or not that one was closed, shares its key encryption keys: under a master key
/// for which the first has stored a key, it stores keys with the same key encryption key, without
/// asking the KMS for anything.
pub proof fn law_next_wrapper_reuses_keks<F: KmsClientFactory>(
    start: ManagerModel<F>,
    opened: ManagerModel<F>,
    used: ManagerModel<F>,
    left: ManagerModel<F>,
    reopened: ManagerModel<F>,
    after: ManagerModel<F>,
    first: WrapperModel,
    second: WrapperModel,
    master_key_id: Seq<char>,
    opened_at: u128,
    key: Seq<u8>,
    is_footer_key: bool,
    used_at: u128,
    metadata: Seq<u8>,
    reopened_at: u128,
    next_key: Seq<u8>,
    next_is_footer_key: bool,
    now: u128,
    outcome: Result<Seq<u8>, ErrorModel>,
)
    requires
        one_shared_per_token(start.write_caches),
        opens_wrapper(start, opened, first, opened_at),
        first.settings.double_wrapping,
        makes_metadata(
            opened,
            used,
            first,
            key,
            master_key_id,
            is_footer_key,
            used_at,
            Ok::<Seq<u8>, ErrorModel>(metadata),
        ),
        left == used || left == wrapper_closed(used, first.cache),
        opens_wrapper(left, reopened, second, reopened_at),
        second.config.key_access_token == first.config.key_access_token,
        second.settings.double_wrapping,
        !has_passed(opened.write_caches[first.cache]->0.expires_at, reopened_at),
        makes_metadata(
            reopened,
            after,
            second,
            next_key,
            master_key_id,
            next_is_footer_key,
            now,
            outcome,
        ),
    ensures
        second.cache == first.cache,
        kept_keks(used, first).contains_key(master_key_id),
        wrapped_under(
            metadata,
            stored_location(first.config, is_footer_key),
            master_key_id,
            kept_keks(used, first)[master_key_id]@,
        ),
        after == reopened,
        double_from(
            kept_keks(used, first)[master_key_id]@,
            second,
            next_key,
            master_key_id,
            next_is_footer_key,
            outcome,
        ),
{
    let token = first.config.key_access_token;
    law_acquisition_keeps_one_shared(
        start.write_caches,
        opened.write_caches,
        token,
        first.settings.cache_lifetime,
        opened_at,
        first.cache,
    );
    law_acquired_cache_is_held(
        start.write_caches,
        opened.write_caches,
        token,
        first.settings.cache_lifetime,
        opened_at,
        first.cache,
    );
    lemma_stored_key(
        opened,
        used,
        first,
        key,
        master_key_id,
        is_footer_key,
        used_at,
        metadata,
    );
    lemma_shared_as_before(opened.write_caches, left.write_caches);
    assert(shared_for(left.write_caches, first.cache, token));
    law_cache_is_shared_until_it_expires(
        left.write_caches,
        reopened.write_caches,
        token,
        second.settings.cache_lifetime,
        reopened_at,
        second.cache,
        first.cache,
    );
}

/// Whether a key encryption key and its identifier are two draws of the random generator, made
/// between two states, and different from each other in the record of draws.
pub open spec fn kek_has_own_draws(
    before: Seq<Seq<u8>>,
    after: Seq<Seq<u8>>,
    kek: KekModel,
    key_at: int,
    key_id_at: int,
) -> bool {
    &&& before.is_prefix_of(after)
    &&& before.len() <= key_at < after.len()
    &&& before.len() <= key_id_at < after.len()
    &&& key_at != key_id_at
    &&& after[key_at] == kek.key
    &&& after[key_id_at] == kek.key_id
    &&& drawn(kek.key, KEY_LENGTH)
    &&& drawn(kek.key_id, KEY_LENGTH)
    &&& kek.encoded_key_id == base64_text(kek.key_id)
}

/// Storing a key asks the random generator for nothing but a new key encryption key, if one is
/// needed.
pub(crate) proof fn lemma_draws_while_storing<F: KmsClientFactory>(
    before: ManagerModel<F>,
    after: ManagerModel<F>,
    wrapper: WrapperModel,
    key: Seq<u8>,
    master_key_id: Seq<char>,
    is_footer_key: bool,
    now: u128,
    outcome: Result<Seq<u8>, ErrorModel>,
)
    requires
        makes_metadata(before, after, wrapper, key, master_key_id, is_footer_key, now, outcome),
    ensures
        before.draws.is_prefix_of(after.draws),
{
}

/// The first key that is stored under a master key with double wrapping comes with a key encryption
/// key of its own: the key and its identifier are each a draw of the random generator that was made
/// for it, and the metadata names the key encryption key by this identifier.
pub proof fn law_new_kek_is_drawn<F: KmsClientFactory>(
    before: ManagerModel<F>,
    after: ManagerModel<F>,
    wrapper: WrapperModel,
    key: Seq<u8>,
    master_key_id: Seq<char>,
    is_footer_key: bool,
    now: u128,
    metadata: Seq<u8>,
)
    requires
        wrapper.settings.double_wrapping,
        is_held(before.write_caches, wrapper.cache),
        !keys_of(before.write_caches, wrapper.cache).contains_key(master_key_id),
        makes_metadata(
            before,
            after,
            wrapper,
            key,
            master_key_id,
            is_footer_key,
            now,
            Ok::<Seq<u8>, ErrorModel>(metadata),
        ),
    ensures
        keys_of(after.write_caches, wrapper.cache).contains_key(master_key_id),
        exists|key_at: int, key_id_at: int| #[trigger]
            kek_has_own_draws(
                before.draws,
                after.draws,
                keys_of(after.write_caches, wrapper.cache)[master_key_id]@,
                key_at,
                key_id_at,
            ),
        exists|m: MaterialModel|
            metadata == #[trigger] metadata_bytes(m) && m.master_key_id == master_key_id
                && m.double_wrapping && m.key_encryption_key_id == Some(
                base64_text(keys_of(after.write_caches, wrapper.cache)[master_key_id]@.key_id),
            ),
{
    let (between, generated) = choose|
        between: ManagerModel<F>,
        generated: Result<KekModel, ErrorModel>,
    | #[trigger]
        generates_kek(
            before,
            between,
            wrapper.config,
            wrapper.settings.cache_lifetime,
            now,
            master_key_id,
            generated,
        ) && double_generated(
            between,
            after,
            wrapper,
            key,
            master_key_id,
            is_footer_key,
            generated,
            Ok::<Seq<u8>, ErrorModel>(metadata),
        );
    let kek = generated->Ok_0;
    let (new_key, new_key_id) = choose|new_key: Seq<u8>, new_key_id: Seq<u8>|
        new_key.len() == KEY_LENGTH && new_key_id.len() == KEY_LENGTH && drawn(new_key, KEY_LENGTH)
            && drawn(new_key_id, KEY_LENGTH) && #[trigger] wraps_kek(
            with_draw(with_draw(before, new_key), new_key_id),
            between,
            wrapper.config,
            wrapper.settings.cache_lifetime,
            now,
            master_key_id,
            new_key,
            new_key_id,
            generated,
        );
    let at = before.draws.len() as int;
    assert(between.write_caches == before.write_caches);
    assert(after.draws == before.draws.push(new_key).push(new_key_id));
    assert(kek_has_own_draws(
        before.draws,
        after.draws,
        keys_of(after.write_caches, wrapper.cache)[master_key_id]@,
        at,
        at + 1,
    ));
    let encrypted = choose|encrypted: Result<Seq<char>, ErrorModel>| #[trigger]
        encrypts(key, kek.key_id, kek.key, encrypted) && Ok::<Seq<u8>, ErrorModel>(metadata)
            == double_outcome(wrapper, master_key_id, is_footer_key, kek, encrypted);
    let m = built_material(
        stored_location(wrapper.config, is_footer_key),
        WrappedKeyModel::Double {
            master_key_id,
            key_encryption_key_id: kek.encoded_key_id,
            wrapped_kek: kek.wrapped_key,
            wrapped_dek: encrypted->Ok_0,
        },
    );
    assert(metadata == metadata_bytes(m));
}

/// Two key encryption keys that were generated one after the other, for whatever master keys and by
/// whatever key wrappers, have identifiers and keys that are four different draws.
pub proof fn law_keks_share_no_draws(
    first_before: Seq<Seq<u8>>,
    first_after: Seq<Seq<u8>>,
    first: KekModel,
    first_key_at: int,
    first_key_id_at: int,
    second_before: Seq<Seq<u8>>,
    second_after: Seq<Seq<u8>>,
    second: KekModel,
    second_key_at: int,
    second_key_id_at: int,
)
    requires
        kek_has_own_draws(first_before, first_after, first, first_key_at, first_key_id_at),
        first_after.is_prefix_of(second_before),
        kek_has_own_draws(second_before, second_after, second, second_key_at, second_key_id_at),
    ensures
        second_after[first_key_at] == first.key,
        second_after[first_key_id_at] == first.key_id,
        second_after[second_key_at] == second.key,
        second_after[second_key_id_at] == second.key_id,
        first_key_at != first_key_id_at,
        first_key_at < second_key_at,
        first_key_at < second_key_id_at,
        first_key_id_at < second_key_at,
        first_key_id_at < second_key_id_at,
        second_key_at != second_key_id_at,
{
}

/// The metadata that is stored for a key names its master key. For a footer key it has the
/// identifier and URL of the KMS instance, or "DEFAULT" where the writer has none, and for a column
/// key it has neither. With single wrapping it has the key as a client for the connection wrapped
/// it under this master key.
pub proof fn law_single_metadata_has_the_wrapped_key<F: KmsClientFactory>(
    before: ManagerModel<F>,
    after: ManagerModel<F>,
    wrapper: WrapperModel,
    key: Seq<u8>,
    master_key_id: Seq<char>,
    is_footer_key: bool,
    now: u128,
    metadata: Seq<u8>,
)
    requires
        !wrapper.settings.double_wrapping,
        makes_metadata(
            before,
            after,
            wrapper,
            key,
            master_key_id,
            is_footer_key,
            now,
            Ok::<Seq<u8>, ErrorModel>(metadata),
        ),
    ensures
        exists|m: MaterialModel, client: F::Client|
            metadata == #[trigger] metadata_bytes(m) && has_location(
                m,
                wrapper.config,
                is_footer_key,
            ) && m.master_key_id == master_key_id && !m.double_wrapping && gets_client(
                before,
                after,
                wrapper.config,
                wrapper.settings.cache_lifetime,
                now,
                Ok::<F::Client, ErrorModel>(client),
            ) && #[trigger] wraps(
                client,
                key,
                master_key_id,
                Ok::<Seq<char>, ErrorModel>(m.wrapped_dek),
            ),
{
    let outcome = Ok::<Seq<u8>, ErrorModel>(metadata);
    let client = choose|client: Result<F::Client, ErrorModel>| #[trigger]
        gets_client(
            before,
            after,
            wrapper.config,
            wrapper.settings.cache_lifetime,
            now,
            client,
        ) && single_from(client, wrapper, key, master_key_id, is_footer_key, outcome);
    let c = client->Ok_0;
    let wrapped = choose|wrapped: Result<Seq<char>, ErrorModel>| #[trigger]
        wraps(c, key, master_key_id, wrapped) && outcome == single_outcome(
            wrapper,
            master_key_id,
            is_footer_key,
            wrapped,
        );
    let m = built_material(
        stored_location(wrapper.config, is_footer_key),
        WrappedKeyModel::Single { master_key_id, wrapped_dek: wrapped->Ok_0 },
    );
    assert(metadata == metadata_bytes(m));
    assert(wraps(c, key, master_key_id, Ok::<Seq<char>, ErrorModel>(m.wrapped_dek)));
}

/// Whether key material has the location of the KMS instance of a writer, for a footer key, and
/// none for a column key.
pub open spec fn has_location(m: MaterialModel, config: ConfigModel, is_footer_key: bool) -> bool {
    &&& m.internal_storage
    &&& m.is_footer_key == is_footer_key
    &&& is_footer_key ==> {
        &&& m.kms_instance_id == Some(
            if config.kms_instance_id.len() > 0 {
                config.kms_instance_id
            } else {
                "DEFAULT"@
            },
        )
        &&& m.kms_instance_url == Some(
            if config.kms_instance_url.len() > 0 {
                config.kms_instance_url
            } else {
                "DEFAULT"@
            },
        )
    }
    &&& !is_footer_key ==> m.kms_instance_id is None && m.kms_instance_url is None
}

/// With double wrapping, the metadata that is stored for a key has the identifier and the wrapped
/// form of the key encryption key that is kept for the master key, and the key encrypted with it.
pub proof fn law_double_metadata_has_the_encrypted_key<F: KmsClientFactory>(
    before: ManagerModel<F>,
    after: ManagerModel<F>,
    wrapper: WrapperModel,
    key: Seq<u8>,
    master_key_id: Seq<char>,
    is_footer_key: bool,
    now: u128,
    metadata: Seq<u8>,
)
    requires
        wrapper.settings.double_wrapping,
        is_held(before.write_caches, wrapper.cache),
        makes_metadata(
            before,
            after,
            wrapper,
            key,
            master_key_id,
            is_footer_key,
            now,
            Ok::<Seq<u8>, ErrorModel>(metadata),
        ),
    ensures
        exists|m: MaterialModel|
            metadata == #[trigger] metadata_bytes(m) && has_location(
                m,
                wrapper.config,
                is_footer_key,
            ) && m.master_key_id == master_key_id && m.double_wrapping && m.key_encryption_key_id
                == Some(
                keys_of(after.write_caches, wrapper.cache)[master_key_id]@.encoded_key_id,
            ) && m.wrapped_kek == Some(
                keys_of(after.write_caches, wrapper.cache)[master_key_id]@.wrapped_key,
            ) && encrypts(
                key,
                keys_of(after.write_caches, wrapper.cache)[master_key_id]@.key_id,
                keys_of(after.write_caches, wrapper.cache)[master_key_id]@.key,
                Ok::<Seq<char>, ErrorModel>(m.wrapped_dek),
            ),
{
    let outcome = Ok::<Seq<u8>, ErrorModel>(metadata);
    lemma_stored_key(
        before,
        after,
        wrapper,
        key,
        master_key_id,
        is_footer_key,
        now,
        metadata,
    );
    let kek = kept_keks(after, wrapper)[master_key_id]@;
    if !kept_keks(before, wrapper).contains_key(master_key_id) {
        let (between, generated) = choose|
            between: ManagerModel<F>,
            generated: Result<KekModel, ErrorModel>,
        | #[trigger]
            generates_kek(
                before,
                between,
                wrapper.config,
                wrapper.settings.cache_lifetime,
                now,
                master_key_id,
                generated,
            ) && double_generated(
                between,
                after,
                wrapper,
                key,
                master_key_id,
                is_footer_key,
                generated,
                outcome,
            );
        assert(between.write_caches == before.write_caches);
        assert(generated->Ok_0 == kek);
    }
    assert(double_from(kek, wrapper, key, master_key_id, is_footer_key, outcome));
    let encrypted = choose|encrypted: Result<Seq<char>, ErrorModel>| #[trigger]
        encrypts(key, kek.key_id, kek.key, encrypted) && outcome == double_outcome(
            wrapper,
            master_key_id,
            is_footer_key,
            kek,
            encrypted,
        );
    let m = built_material(
        stored_location(wrapper.config, is_footer_key),
        WrappedKeyModel::Double {
            master_key_id,
            key_encryption_key_id: kek.encoded_key_id,
            wrapped_kek: kek.wrapped_key,
            wrapped_dek: encrypted->Ok_0,
        },
    );
    assert(metadata == metadata_bytes(m));
    assert(encrypts(key, kek.key_id, kek.key, Ok::<Seq<char>, ErrorModel>(m.wrapped_dek)));
}

/// A new key encryption key is wrapped under its master key by a client for the connection of the
/// key wrapper.
pub proof fn law_new_kek_is_wrapped<F: KmsClientFactory>(
    before: ManagerModel<F>,
    after: ManagerModel<F>,
    config: ConfigModel,
    lifetime: Option<u128>,
    now: u128,
    master_key_id: Seq<char>,
    kek: KekModel,
)
    requires
        generates_kek(
            before,
            after,
            config,
            lifetime,
            now,
            master_key_id,
            Ok::<KekModel, ErrorModel>(kek),
        ),
    ensures
        exists|drew: ManagerModel<F>, client: F::Client|
            drew == (ManagerModel { draws: after.draws, ..before }) && #[trigger] gets_client(
                drew,
                after,
                config,
                lifetime,
                now,
                Ok::<F::Client, ErrorModel>(client),
            ) && wraps(
                client,
                kek.key,
                master_key_id,
                Ok::<Seq<char>, ErrorModel>(kek.wrapped_key),
            ),
{
    let outcome = Ok::<KekModel, ErrorModel>(kek);
    let (key, key_id) = choose|key: Seq<u8>, key_id: Seq<u8>|
        key.len() == KEY_LENGTH && key_id.len() == KEY_LENGTH && drawn(key, KEY_LENGTH) && drawn(
            key_id,
            KEY_LENGTH,
        ) && #[trigger] wraps_kek(
            with_draw(with_draw(before, key), key_id),
            after,
            config,
            lifetime,
            now,
            master_key_id,
            key,
            key_id,
            outcome,
        );
    let drew = with_draw(with_draw(before, key), key_id);
    let client = choose|client: Result<F::Client, ErrorModel>| #[trigger]
        gets_client(drew, after, config, lifetime, now, client) && kek_from(
            client,
            master_key_id,
            key,
            key_id,
            outcome,
        );
    assert(gets_client(
        drew,
        after,
        config,
        lifetime,
        now,
        Ok::<F::Client, ErrorModel>(client->Ok_0),
    ));
    assert(drew == (ManagerModel { draws: after.draws, ..before }));
}

/// Storing a key changes nothing of the caches but the key encryption keys in them, and nothing of
/// what is kept for reading.
pub(crate) proof fn lemma_caches_while_storing<F: KmsClientFactory>(
    before: ManagerModel<F>,
    after: ManagerModel<F>,
    wrapper: WrapperModel,
    key: Seq<u8>,
    master_key_id: Seq<char>,
    is_footer_key: bool,
    now: u128,
    outcome: Result<Seq<u8>, ErrorModel>,
    handle: int,
)
    requires
        makes_metadata(before, after, wrapper, key, master_key_id, is_footer_key, now, outcome),
    ensures
        same_but_keys(before.write_caches, after.write_caches, handle),
        after.read_caches == before.read_caches,
        after.factory == before.factory,
{
}

/// The first key that is stored under a master key with double wrapping has its key encryption key
/// wrapped under this master key by a client for the connection, which is kept as long as the
/// settings say.
pub proof fn law_new_kek_is_wrapped_for_the_connection<F: KmsClientFactory>(
    before: ManagerModel<F>,
    after: ManagerModel<F>,
    wrapper: WrapperModel,
    key: Seq<u8>,
    master_key_id: Seq<char>,
    is_footer_key: bool,
    now: u128,
    metadata: Seq<u8>,
) -> (client: F::Client)
    requires
        wrapper.settings.double_wrapping,
        is_held(before.write_caches, wrapper.cache),
        !keys_of(before.write_caches, wrapper.cache).contains_key(master_key_id),
        makes_metadata(
            before,
            after,
            wrapper,
            key,
            master_key_id,
            is_footer_key,
            now,
            Ok::<Seq<u8>, ErrorModel>(metadata),
        ),
    ensures
        gets_client(
            ManagerModel { draws: after.draws, ..before },
            ManagerModel { write_caches: before.write_caches, ..after },
            wrapper.config,
            wrapper.settings.cache_lifetime,
            now,
            Ok::<F::Client, ErrorModel>(client),
        ),
        wraps(
            client,
            keys_of(after.write_caches, wrapper.cache)[master_key_id]@.key,
            master_key_id,
            Ok::<Seq<char>, ErrorModel>(
                keys_of(after.write_caches, wrapper.cache)[master_key_id]@.wrapped_key,
            ),
        ),
{
    let outcome = Ok::<Seq<u8>, ErrorModel>(metadata);
    let (between, generated) = choose|
        between: ManagerModel<F>,
        generated: Result<KekModel, ErrorModel>,
    | #[trigger]
        generates_kek(
            before,
            between,
            wrapper.config,
            wrapper.settings.cache_lifetime,
            now,
            master_key_id,
            generated,
        ) && double_generated(
            between,
            after,
            wrapper,
            key,
            master_key_id,
            is_footer_key,
            generated,
            outcome,
        );
    let kek = generated->Ok_0;
    law_new_kek_is_wrapped(
        before,
        between,
        wrapper.config,
        wrapper.settings.cache_lifetime,
        now,
        master_key_id,
        kek,
    );
    let (drew, client) = choose|drew: ManagerModel<F>, client: F::Client|
        drew == (ManagerModel { draws: between.draws, ..before }) && #[trigger] gets_client(
            drew,
            between,
            wrapper.config,
            wrapper.settings.cache_lifetime,
            now,
            Ok::<F::Client, ErrorModel>(client),
        ) && wraps(
            client,
            kek.key,
            master_key_id,
            Ok::<Seq<char>, ErrorModel>(kek.wrapped_key),
        );
    assert(between.write_caches == before.write_caches);
    assert(after.draws == between.draws);
    assert(between == (ManagerModel { write_caches: before.write_caches, ..after }));
    client
}

/// A new key wrapper holds a cache of generated key encryption keys for its access token, which
/// starts its lifetime if there was none. Nothing else changes: no client is created, and what is
/// kept for reading stays.
pub proof fn law_new_wrapper_holds_a_cache<F: KmsClientFactory>(
    before: ManagerModel<F>,
    after: ManagerModel<F>,
    wrapper: WrapperModel,
    now: u128,
)
    requires
        opens_wrapper(before, after, wrapper, now),
    ensures
        is_held(after.write_caches, wrapper.cache),
        after.write_caches[wrapper.cache]->0.token == wrapper.config.key_access_token,
        (forall|i: int| !(#[trigger] shared_for(
            before.write_caches,
            i,
            wrapper.config.key_access_token,
        ))) ==> keys_of(after.write_caches, wrapper.cache) == Map::<
            Seq<char>,
            KeyEncryptionKey,
        >::empty() && after.write_caches[wrapper.cache]->0.expires_at == (
        match wrapper.settings.cache_lifetime {
            Some(nanos) => Some((now + nanos) as u128),
            None => None,
        }),
        after.factory == before.factory,
        after.clients == before.clients,
        after.read_caches == before.read_caches,
        after.draws == before.draws,
{
    lemma_new_cache_starts(
        before.write_caches,
        after.write_caches,
        wrapper.config.key_access_token,
        wrapper.settings.cache_lifetime,
        now,
        wrapper.cache,
    );
}

} // verus!
