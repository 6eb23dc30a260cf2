//! Unwrapping of data encryption keys when reading files.

use std::time::Duration;
use vstd::prelude::*;
use vstd::utf8::decode_utf8;
use vstd::utf8::valid_utf8;

use crate::config::DecryptionConfiguration;
use crate::crypto::base64_decode;
use crate::crypto::base64_decoded;
use crate::crypto::utf8_error;
use crate::crypto::utf8_text;
use crate::error::Error;
use crate::error::ErrorModel;
use crate::error::bytes_outcome;
use crate::kek_caches::acquires;
use crate::kek_caches::all_settled;
use crate::kek_caches::has_passed;
use crate::kek_caches::holders_of;
use crate::kek_caches::is_held;
use crate::kek_caches::keys_of;
use crate::kek_caches::law_acquired_cache_is_held;
use crate::kek_caches::law_acquisition_keeps_one_shared;
use crate::kek_caches::law_cache_is_shared_until_it_expires;
use crate::kek_caches::law_expired_cache_is_not_shared;
use crate::kek_caches::law_held_cache_survives_acquisition;
use crate::kek_caches::law_held_cache_survives_release;
use crate::kek_caches::law_release_undoes_acquisition;
use crate::kek_caches::lemma_new_cache_starts;
use crate::kek_caches::lemma_shared_as_before;
use crate::kek_caches::one_shared_per_token;
use crate::kek_caches::released;
use crate::kek_caches::shared_for;
use crate::kek_caches::stored;
use crate::key_encryption::decrypt_encryption_key;
use crate::key_encryption::decrypted_key;
use crate::key_material::KeyMaterial;
use crate::key_material::MaterialModel;
use crate::key_material::WrappedKeyModel;
use crate::key_material::built_material;
use crate::key_material::material_read;
use crate::key_material::material_text;
use crate::key_material::reads_back;
use crate::key_wrapper::double_metadata;
use crate::key_wrapper::metadata_bytes;
use crate::key_wrapper::protects;
use crate::key_wrapper::single_metadata;
use crate::key_wrapper::stored_location;
use crate::kms::ConfigModel;
use crate::kms::KmsClient;
use crate::kms::KmsClientFactory;
use crate::kms::KmsConnectionConfig;
use crate::kms::creates;
use crate::kms::is_client;
use crate::kms::is_faithful;
use crate::kms::is_reliable;
use crate::kms::unwrapping_fails;
use crate::kms::unwraps;
use crate::kms::wraps;
use crate::kms_manager::KekModel;
use crate::kms_manager::KmsManager;
use crate::kms_manager::ManagerModel;
use crate::kms_manager::gets_client;
use crate::kms_manager::shared_client_outcome;
use crate::kms_manager::sound_kek;
use crate::time::duration_nanos;

verus! {

/// What a [`KeyUnwrapper`] holds. The cache lifetime is in nanoseconds.
pub struct UnwrapperModel {
    pub config: ConfigModel,
    pub cache_lifetime: Option<u128>,
    pub cache: int,
}

/// The unwrapper with the access token that its connection configuration has now.
pub open spec fn with_token(unwrapper: UnwrapperModel, token: Seq<char>) -> UnwrapperModel {
    UnwrapperModel {
        config: ConfigModel { key_access_token: token, ..unwrapper.config },
        ..unwrapper
    }
}

/// Whether making a key unwrapper can lead from one state to another: it acquires a cache of key
/// encryption keys for its access token, and the KMS is not asked for anything.
pub open spec fn opens_unwrapper<F: KmsClientFactory>(
    before: ManagerModel<F>,
    after: ManagerModel<F>,
    unwrapper: UnwrapperModel,
    now: u128,
) -> bool {
    &&& acquires(
        before.read_caches,
        after.read_caches,
        unwrapper.config.key_access_token,
        unwrapper.cache_lifetime,
        now,
        unwrapper.cache,
    )
    &&& after == (ManagerModel { read_caches: after.read_caches, ..before })
}

/// The state after a key unwrapper was closed.
pub open spec fn unwrapper_closed<F: KmsClientFactory>(
    manager: ManagerModel<F>,
    cache: int,
) -> ManagerModel<F> {
    ManagerModel { read_caches: released(manager.read_caches, cache), ..manager }
}

/// The connection configuration after footer metadata with the identifier and URL of a KMS
/// instance was read. What the configuration does not have is taken from the metadata, up to the
/// first that neither has.
pub open spec fn updated_config(config: ConfigModel, id: Seq<char>, url: Seq<char>) -> ConfigModel {
    let with_id = ConfigModel {
        kms_instance_id: if config.kms_instance_id.len() == 0 {
            id
        } else {
            config.kms_instance_id
        },
        ..config
    };
    if with_id.kms_instance_id.len() == 0 {
        config
    } else {
        ConfigModel {
            kms_instance_url: if config.kms_instance_url.len() == 0 {
                url
            } else {
                config.kms_instance_url
            },
            ..with_id
        }
    }
}

/// What is missing after footer metadata was read, if anything is.
pub open spec fn missing_location(config: ConfigModel, id: Seq<char>, url: Seq<char>) -> Option<
    ErrorModel,
> {
    if config.kms_instance_id.len() == 0 && id.len() == 0 {
        Some(
            ErrorModel::General(
                "KMS instance ID not set in connection configuration or footer key metadata"@,
            ),
        )
    } else if config.kms_instance_url.len() == 0 && url.len() == 0 {
        Some(
            ErrorModel::General(
                "KMS instance URL not set in connection configuration or footer key metadata"@,
            ),
        )
    } else {
        None
    }
}

/// Whether unwrapping a key can have an outcome, given what asking for a client came to.
pub open spec fn unwrapped_from<C: KmsClient>(
    client: Result<C, ErrorModel>,
    wrapped_key: Seq<char>,
    master_key_id: Seq<char>,
    outcome: Result<Seq<u8>, ErrorModel>,
) -> bool {
    match client {
        Ok(c) => unwraps(c, wrapped_key, master_key_id, outcome),
        Err(e) => outcome == Err::<Seq<u8>, ErrorModel>(e),
    }
}

/// Whether unwrapping a key with the KMS can have an outcome.
pub open spec fn unwraps_with_kms<F: KmsClientFactory>(
    before: ManagerModel<F>,
    after: ManagerModel<F>,
    unwrapper: UnwrapperModel,
    wrapped_key: Seq<char>,
    master_key_id: Seq<char>,
    now: u128,
    outcome: Result<Seq<u8>, ErrorModel>,
) -> bool {
    exists|client: Result<F::Client, ErrorModel>| #[trigger]
        gets_client(before, after, unwrapper.config, unwrapper.cache_lifetime, now, client)
            && unwrapped_from(client, wrapped_key, master_key_id, outcome)
}

/// The data encryption key that was encrypted with a key encryption key.
pub open spec fn dek_from(kek_id: Seq<char>, kek: Seq<u8>, wrapped_dek: Seq<char>) -> Result<
    Seq<u8>,
    ErrorModel,
> {
    match base64_decoded(kek_id) {
        Ok(decoded_id) => decrypted_key(wrapped_dek, decoded_id, kek),
        Err(e) => Err(
            ErrorModel::General("Could not base64 decode key encryption key id: "@ + e),
        ),
    }
}

/// The state after an unwrapped key encryption key was kept.
pub open spec fn with_read_kek<F: KmsClientFactory>(
    manager: ManagerModel<F>,
    cache: int,
    kek_id: Seq<char>,
    kek: Vec<u8>,
) -> ManagerModel<F> {
    ManagerModel { read_caches: stored(manager.read_caches, cache, kek_id, kek), ..manager }
}

/// Whether unwrapping a double wrapped key can have an outcome, given what unwrapping the key
/// encryption key came to. The key encryption key is kept.
pub open spec fn double_unwrapped<F: KmsClientFactory>(
    between: ManagerModel<F>,
    after: ManagerModel<F>,
    unwrapper: UnwrapperModel,
    kek_id: Seq<char>,
    wrapped_dek: Seq<char>,
    unwrapped: Result<Seq<u8>, ErrorModel>,
    outcome: Result<Seq<u8>, ErrorModel>,
) -> bool {
    match unwrapped {
        Ok(model) => exists|kek: Vec<u8>|
            kek@ == model && after == #[trigger] with_read_kek(
                between,
                unwrapper.cache,
                kek_id,
                kek,
            ) && outcome == dek_from(kek_id, model, wrapped_dek),
        Err(e) => after == between && outcome == Err::<Seq<u8>, ErrorModel>(e),
    }
}

/// Whether unwrapping a double wrapped key can have an outcome where its key encryption key is not
/// kept: the KMS is asked to unwrap it.
pub open spec fn unwraps_with_new_kek<F: KmsClientFactory>(
    before: ManagerModel<F>,
    after: ManagerModel<F>,
    unwrapper: UnwrapperModel,
    wrapped_dek: Seq<char>,
    master_key_id: Seq<char>,
    kek_id: Seq<char>,
    wrapped_kek: Seq<char>,
    now: u128,
    outcome: Result<Seq<u8>, ErrorModel>,
) -> bool {
    exists|between: ManagerModel<F>, unwrapped: Result<Seq<u8>, ErrorModel>| #[trigger]
        unwraps_with_kms(
            before,
            between,
            unwrapper,
            wrapped_kek,
            master_key_id,
            now,
            unwrapped,
        ) && double_unwrapped(
            between,
            after,
            unwrapper,
            kek_id,
            wrapped_dek,
            unwrapped,
            outcome,
        )
}

/// Whether unwrapping a double wrapped key can have an outcome. A key encryption key that is kept
/// is used without asking the KMS.
pub open spec fn unwraps_double<F: KmsClientFactory>(
    before: ManagerModel<F>,
    after: ManagerModel<F>,
    unwrapper: UnwrapperModel,
    wrapped_dek: Seq<char>,
    master_key_id: Seq<char>,
    kek_id: Seq<char>,
    wrapped_kek: Seq<char>,
    now: u128,
    outcome: Result<Seq<u8>, ErrorModel>,
) -> bool {
    let keks = keys_of(before.read_caches, unwrapper.cache);
    if keks.contains_key(kek_id) {
        after == before && outcome == dek_from(kek_id, keks[kek_id]@, wrapped_dek)
    } else {
        unwraps_with_new_kek(
            before,
            after,
            unwrapper,
            wrapped_dek,
            master_key_id,
            kek_id,
            wrapped_kek,
            now,
            outcome,
        )
    }
}

/// Whether unwrapping the key in key material can have an outcome, once the connection
/// configuration is complete.
pub open spec fn unwraps_material<F: KmsClientFactory>(
    before: ManagerModel<F>,
    after: ManagerModel<F>,
    unwrapper: UnwrapperModel,
    m: MaterialModel,
    now: u128,
    outcome: Result<Seq<u8>, ErrorModel>,
) -> bool {
    if !m.double_wrapping {
        unwraps_with_kms(
            before,
            after,
            unwrapper,
            m.wrapped_dek,
            m.master_key_id,
            now,
            outcome,
        )
    } else {
        match (m.key_encryption_key_id, m.wrapped_kek) {
            (Some(kek_id), Some(wrapped_kek)) => unwraps_double(
                before,
                after,
                unwrapper,
                m.wrapped_dek,
                m.master_key_id,
                kek_id,
                wrapped_kek,
                now,
                outcome,
            ),
            _ => after == before && outcome == Err::<Seq<u8>, ErrorModel>(
                ErrorModel::General("Key uses double wrapping but key encryption key is not set"@),
            ),
        }
    }
}

/// The unwrapper after key material was read.
pub open spec fn updated_unwrapper(unwrapper: UnwrapperModel, m: MaterialModel) -> UnwrapperModel {
    match (m.kms_instance_id, m.kms_instance_url) {
        (Some(id), Some(url)) if m.internal_storage => UnwrapperModel {
            config: updated_config(unwrapper.config, id, url),
            ..unwrapper
        },
        _ => unwrapper,
    }
}

/// Why the key in key material is not unwrapped, if it is not.
pub open spec fn material_refused(unwrapper: UnwrapperModel, m: MaterialModel) -> Option<
    ErrorModel,
> {
    if !m.internal_storage {
        Some(
            ErrorModel::Nyi("Decryption using external key material is not yet implemented"@),
        )
    } else {
        match (m.kms_instance_id, m.kms_instance_url) {
            (Some(id), Some(url)) => missing_location(unwrapper.config, id, url),
            _ => None,
        }
    }
}

/// The key material in key metadata.
pub open spec fn material_in(metadata: Seq<u8>) -> Result<MaterialModel, ErrorModel> {
    if valid_utf8(metadata) {
        material_read(decode_utf8(metadata))
    } else {
        Err(ErrorModel::External(utf8_error(metadata)))
    }
}

/// Whether retrieving the key for key metadata can have an outcome.
pub open spec fn retrieves<F: KmsClientFactory>(
    before: ManagerModel<F>,
    after: ManagerModel<F>,
    unwrapper: UnwrapperModel,
    updated: UnwrapperModel,
    metadata: Seq<u8>,
    now: u128,
    outcome: Result<Seq<u8>, ErrorModel>,
) -> bool {
    match material_in(metadata) {
        Ok(m) => {
            &&& updated == updated_unwrapper(unwrapper, m)
            &&& match material_refused(unwrapper, m) {
                None => unwraps_material(before, after, updated, m, now, outcome),
                Some(e) => after == before && outcome == Err::<Seq<u8>, ErrorModel>(e),
            }
        },
        Err(e) => {
            &&& updated == unwrapper
            &&& after == before
            &&& outcome == Err::<Seq<u8>, ErrorModel>(e)
        },
    }
}

/// Decrypts a data encryption key with a key encryption key, given its encoded identifier.
pub fn unwrap_with_kek(kek_id: &str, kek: &[u8], wrapped_dek: &str) -> (r: Result<Vec<u8>, Error>)
    ensures
        bytes_outcome(r) == dek_from(kek_id@, kek@, wrapped_dek@),
{
    match base64_decode(kek_id) {
        Ok(decoded_kek_id) => decrypt_encryption_key(wrapped_dek, decoded_kek_id.as_slice(), kek),
        Err(e) => Err(
            Error::General(
                "Could not base64 decode key encryption key id: ".to_owned().concat(e.as_str()),
            ),
        ),
    }
}

/// Reads the key material in key metadata.
pub fn read_metadata(key_metadata: &[u8]) -> (r: Result<KeyMaterial, Error>)
    ensures
        crate::key_material::material_outcome(r) == material_in(key_metadata@),
        valid_utf8(key_metadata@) ==> reads_back(decode_utf8(key_metadata@)),
{
    match utf8_text(key_metadata) {
        Ok(text) => {
            proof {
                vstd::utf8::encode_utf8_decode_utf8(text@);
            }
            KeyMaterial::deserialize(text)
        },
        Err(e) => Err(Error::External(e)),
    }
}

/// Unwraps (decrypts) key encryption keys and data encryption keys using a KMS
pub struct KeyUnwrapper {
    kms_connection_config: KmsConnectionConfig,
    decryption_configuration: DecryptionConfiguration,
    kek_cache: usize,
}

impl View for KeyUnwrapper {
    type V = UnwrapperModel;

    closed spec fn view(&self) -> UnwrapperModel {
        UnwrapperModel {
            config: self.kms_connection_config@,
            cache_lifetime: self.decryption_configuration@,
            cache: self.kek_cache as int,
        }
    }
}

impl KeyUnwrapper {
    /// Create a key unwrapper, which holds the cache of key encryption keys for the access token.
    pub fn new<F: KmsClientFactory>(
        kms_manager: &mut KmsManager<F>,
        kms_connection_config: &KmsConnectionConfig,
        decryption_configuration: DecryptionConfiguration,
        now: Duration,
    ) -> (r: Self)
        ensures
            r@.config == kms_connection_config@,
            r@.cache_lifetime == decryption_configuration@,
            opens_unwrapper(old(kms_manager)@, final(kms_manager)@, r@, duration_nanos(now)),
            one_shared_per_token(old(kms_manager)@.read_caches),
            one_shared_per_token(final(kms_manager)@.read_caches),
    {
        let kek_cache: usize = kms_manager.get_kek_read_cache(
            kms_connection_config,
            decryption_configuration.cache_lifetime(),
            now,
        );
        KeyUnwrapper {
            kms_connection_config: kms_connection_config.snapshot(),
            decryption_configuration,
            kek_cache,
        }
    }

    /// Let go of the cache of key encryption keys.
    pub fn close<F: KmsClientFactory>(self, kms_manager: &mut KmsManager<F>)
        ensures
            final(kms_manager)@ == unwrapper_closed(old(kms_manager)@, self@.cache),
            one_shared_per_token(final(kms_manager)@.read_caches),
    {
        kms_manager.release_kek_read_cache(self.kek_cache);
    }

    /// The connection configuration, as far as it is known, with the access token that was used
    /// last.
    pub fn kms_connection_config(&self) -> (r: &KmsConnectionConfig)
        ensures
            r@ == self@.config,
    {
        &self.kms_connection_config
    }

    /// Take the access token that the connection configuration has now.
    fn use_token_of(&mut self, kms_connection_config: &KmsConnectionConfig)
        ensures
            final(self)@ == with_token(old(self)@, kms_connection_config@.key_access_token),
    {
        self.kms_connection_config.refresh_key_access_token(
            kms_connection_config.key_access_token().to_owned(),
        );
    }

    fn unwrap_single_wrapped_key<F: KmsClientFactory>(
        &self,
        kms_manager: &mut KmsManager<F>,
        wrapped_key: &str,
        master_key_id: &str,
        now: Duration,
    ) -> (r: Result<Vec<u8>, Error>)
        ensures
            unwraps_with_kms(
                old(kms_manager)@,
                final(kms_manager)@,
                self@,
                wrapped_key@,
                master_key_id@,
                duration_nanos(now),
                bytes_outcome(r),
            ),
    {
        let got = kms_manager.get_client(
            &self.kms_connection_config,
            self.decryption_configuration.cache_lifetime(),
            now,
        );
        assert(gets_client(
            old(kms_manager)@,
            kms_manager@,
            self@.config,
            self@.cache_lifetime,
            duration_nanos(now),
            shared_client_outcome(got),
        ));
        match got {
            Ok(client) => {
                let unwrapped = client.unwrap_key(wrapped_key, master_key_id);
                assert(unwraps(*client, wrapped_key@, master_key_id@, bytes_outcome(unwrapped)));
                unwrapped
            },
            Err(e) => Err(e),
        }
    }

    fn unwrap_double_wrapped_key<F: KmsClientFactory>(
        &self,
        kms_manager: &mut KmsManager<F>,
        wrapped_dek: &str,
        master_key_id: &str,
        kek_id: &str,
        wrapped_kek: &str,
        now: Duration,
    ) -> (r: Result<Vec<u8>, Error>)
        ensures
            unwraps_double(
                old(kms_manager)@,
                final(kms_manager)@,
                self@,
                wrapped_dek@,
                master_key_id@,
                kek_id@,
                wrapped_kek@,
                duration_nanos(now),
                bytes_outcome(r),
            ),
    {
        if let Some(kek) = kms_manager.get_read_kek(self.kek_cache, kek_id) {
            return unwrap_with_kek(kek_id, kek.as_slice(), wrapped_dek);
        }
        let unwrapped = self.unwrap_single_wrapped_key(
            kms_manager,
            wrapped_kek,
            master_key_id,
            now,
        );
        let ghost between = kms_manager@;
        assert(unwraps_with_kms(
            old(kms_manager)@,
            between,
            self@,
            wrapped_kek@,
            master_key_id@,
            duration_nanos(now),
            bytes_outcome(unwrapped),
        ));
        match unwrapped {
            Ok(kek) => {
                let key = unwrap_with_kek(kek_id, kek.as_slice(), wrapped_dek);
                let ghost added = kek;
                kms_manager.put_read_kek(self.kek_cache, kek_id.to_owned(), kek);
                assert(kms_manager@ == with_read_kek(between, self@.cache, kek_id@, added));
                key
            },
            Err(e) => Err(e),
        }
    }

    /// If the KMS instance ID or URL weren't provided in the connection configuration,
    /// try to read them from the footer key metadata.
    /// When a configuration value is present in both the file metadata and connection configuration,
    /// the value from the connection configuration takes precedence.
    fn update_kms_config_from_footer_metadata(
        &mut self,
        kms_instance_id: &str,
        kms_instance_url: &str,
    ) -> (r: Result<(), Error>)
        ensures
            final(self)@ == (UnwrapperModel {
                config: updated_config(old(self)@.config, kms_instance_id@, kms_instance_url@),
                ..old(self)@
            }),
            match missing_location(old(self)@.config, kms_instance_id@, kms_instance_url@) {
                None => r is Ok,
                Some(e) => r matches Err(error) && error@ == e,
            },
    {
        if self.kms_connection_config.kms_instance_id().is_empty() {
            if kms_instance_id.is_empty() {
                return Err(
                    Error::General(
                        "KMS instance ID not set in connection configuration or footer key metadata".to_owned(),
                    ),
                );
            }
            self.kms_connection_config.set_kms_instance_id(kms_instance_id.to_owned());
        }
        if self.kms_connection_config.kms_instance_url().is_empty() {
            if kms_instance_url.is_empty() {
                assert(self@.config.kms_instance_url =~= kms_instance_url@);
                return Err(
                    Error::General(
                        "KMS instance URL not set in connection configuration or footer key metadata".to_owned(),
                    ),
                );
            }
            self.kms_connection_config.set_kms_instance_url(kms_instance_url.to_owned());
        }
        Ok(())
    }

    /// Unwrap the key in key material that was read from a file, with the access token that the
    /// connection configuration has now. The cache of key encryption keys that is held stays in
    /// use when the access token changes.
    pub fn retrieve_material_key<F: KmsClientFactory>(
        &mut self,
        kms_manager: &mut KmsManager<F>,
        kms_connection_config: &KmsConnectionConfig,
        key_material: &KeyMaterial,
        now: Duration,
    ) -> (r: Result<Vec<u8>, Error>)
        ensures
            final(self)@ == updated_unwrapper(
                with_token(old(self)@, kms_connection_config@.key_access_token),
                key_material@,
            ),
            match material_refused(
                with_token(old(self)@, kms_connection_config@.key_access_token),
                key_material@,
            ) {
                None => unwraps_material(
                    old(kms_manager)@,
                    final(kms_manager)@,
                    final(self)@,
                    key_material@,
                    duration_nanos(now),
                    bytes_outcome(r),
                ),
                Some(e) => final(kms_manager)@ == old(kms_manager)@ && (r matches Err(error)
                    && error@ == e),
            },
    {
        self.use_token_of(kms_connection_config);
        if !key_material.internal_storage {
            return Err(
                Error::Nyi(
                    "Decryption using external key material is not yet implemented".to_owned(),
                ),
            );
        }
        // If unwrapping a footer key, optionally set the KMS instance ID and URL
        if let (Some(instance_id), Some(instance_url)) = (
            &key_material.kms_instance_id,
            &key_material.kms_instance_url,
        ) {
            let updated = self.update_kms_config_from_footer_metadata(
                instance_id.as_str(),
                instance_url.as_str(),
            );
            if let Err(e) = updated {
                return Err(e);
            }
        }
        if key_material.double_wrapping {
            match (&key_material.key_encryption_key_id, &key_material.wrapped_kek) {
                (Some(kek_id), Some(wrapped_kek)) => self.unwrap_double_wrapped_key(
                    kms_manager,
                    key_material.wrapped_dek.as_str(),
                    key_material.master_key_id.as_str(),
                    kek_id.as_str(),
                    wrapped_kek.as_str(),
                    now,
                ),
                _ => Err(
                    Error::General(
                        "Key uses double wrapping but key encryption key is not set".to_owned(),
                    ),
                ),
            }
        } else {
            self.unwrap_single_wrapped_key(
                kms_manager,
                key_material.wrapped_dek.as_str(),
                key_material.master_key_id.as_str(),
                now,
            )
        }
    }

    /// Retrieve the key for the key metadata that was stored with it, with the access token that
    /// the connection configuration has now. What was stored as key material reads as that key
    /// material.
    pub fn retrieve_key<F: KmsClientFactory>(
        &mut self,
        kms_manager: &mut KmsManager<F>,
        kms_connection_config: &KmsConnectionConfig,
        key_metadata: &[u8],
        now: Duration,
    ) -> (r: Result<Vec<u8>, Error>)
        ensures
            retrieves(
                old(kms_manager)@,
                final(kms_manager)@,
                with_token(old(self)@, kms_connection_config@.key_access_token),
                final(self)@,
                key_metadata@,
                duration_nanos(now),
                bytes_outcome(r),
            ),
            valid_utf8(key_metadata@) ==> reads_back(decode_utf8(key_metadata@)),
    {
        match read_metadata(key_metadata) {
            Ok(key_material) => self.retrieve_material_key(
                kms_manager,
                kms_connection_config,
                &key_material,
                now,
            ),
            Err(e) => {
                self.use_token_of(kms_connection_config);
                Err(e)
            },
        }
    }
}

/// The bytes that are stored for key material read as that key material.
proof fn lemma_stored_material(metadata: Seq<u8>, m: MaterialModel)
    requires
        metadata == metadata_bytes(m),
        valid_utf8(metadata) ==> reads_back(decode_utf8(metadata)),
    ensures
        material_in(metadata) == Ok::<MaterialModel, ErrorModel>(m),
{
    vstd::utf8::encode_utf8_valid_utf8(material_text(m));
    vstd::utf8::encode_utf8_decode_utf8(material_text(m));
}

/// What unwrapping with a faithful KMS gives.
proof fn lemma_faithful_unwrapping<F: KmsClientFactory>(
    before: ManagerModel<F>,
    after: ManagerModel<F>,
    unwrapper: UnwrapperModel,
    wrapping: F::Client,
    key: Seq<u8>,
    wrapped: Seq<char>,
    master_key_id: Seq<char>,
    now: u128,
    outcome: Result<Seq<u8>, ErrorModel>,
)
    requires
        is_faithful(before.factory),
        is_client(before.factory, wrapping),
        wraps(wrapping, key, master_key_id, Ok::<Seq<char>, ErrorModel>(wrapped)),
        unwraps_with_kms(before, after, unwrapper, wrapped, master_key_id, now, outcome),
    ensures
        match outcome {
            Ok(unwrapped) => unwrapped == key,
            Err(e) => unwrapping_fails(
                before.factory,
                unwrapper.config,
                wrapped,
                master_key_id,
                e,
            ),
        },
        is_reliable(before.factory, unwrapper.config) ==> outcome is Ok,
        after.factory == before.factory,
        after.read_caches == before.read_caches,
{
    let client = choose|client: Result<F::Client, ErrorModel>| #[trigger]
        gets_client(before, after, unwrapper.config, unwrapper.cache_lifetime, now, client)
            && unwrapped_from(client, wrapped, master_key_id, outcome);
    match client {
        Ok(c) => {
            match outcome {
                Ok(unwrapped) => {
                    assert(unwraps(c, wrapped, master_key_id, Ok::<Seq<u8>, ErrorModel>(unwrapped)));
                },
                Err(e) => {
                    assert(unwraps(c, wrapped, master_key_id, Err::<Seq<u8>, ErrorModel>(e)));
                },
            }
        },
        Err(e) => {
            assert(creates(before.factory, unwrapper.config, Err::<F::Client, ErrorModel>(e)));
        },
    }
}

/// Whether the key encryption keys that are kept under an identifier are no other than those with
/// this identifier. Identifiers are random, so that this holds unless two are generated alike.
pub open spec fn keeps_no_other_kek<F: KmsClientFactory>(
    manager: ManagerModel<F>,
    cache: int,
    metadata: Seq<u8>,
    location: Option<(Seq<char>, Seq<char>)>,
    master_key_id: Seq<char>,
) -> bool {
    forall|kek: KekModel, wrapped_dek: Seq<char>|
        metadata == #[trigger] double_metadata(location, master_key_id, kek, wrapped_dek)
            && sound_kek(manager.factory, master_key_id, kek) && keys_of(
            manager.read_caches,
            cache,
        ).contains_key(kek.encoded_key_id) ==> keys_of(
            manager.read_caches,
            cache,
        )[kek.encoded_key_id]@ == kek.key
}

/// What the KMS wrapped of key material: the key encryption key, or else the key itself.
pub open spec fn wrapped_by_kms(m: MaterialModel) -> Seq<char> {
    if m.double_wrapping {
        m.wrapped_kek->0
    } else {
        m.wrapped_dek
    }
}

/// Whether an error can come from creating a client for a configuration, or from unwrapping with
/// the master key what the KMS wrapped of the key material in the metadata.
pub open spec fn retrieval_fails<F: KmsClientFactory>(
    factory: F,
    config: ConfigModel,
    metadata: Seq<u8>,
    master_key_id: Seq<char>,
    error: ErrorModel,
) -> bool {
    material_in(metadata) matches Ok(m) && unwrapping_fails(
        factory,
        config,
        wrapped_by_kms(m),
        master_key_id,
        error,
    )
}

/// The key that is retrieved for metadata is the key for which the metadata was made, as long as
/// the KMS is faithful, whether or not a connection to the KMS was configured for reading. Where
/// no key is retrieved, the KMS did not create a client, or did not unwrap what it wrapped for
/// this metadata. With a reliable KMS the key is retrieved.
pub proof fn law_retrieved_key_is_the_stored_key<F: KmsClientFactory>(
    before: ManagerModel<F>,
    after: ManagerModel<F>,
    unwrapper: UnwrapperModel,
    updated: UnwrapperModel,
    writing_config: ConfigModel,
    is_footer_key: bool,
    double_wrapping: bool,
    key: Seq<u8>,
    master_key_id: Seq<char>,
    metadata: Seq<u8>,
    now: u128,
    outcome: Result<Seq<u8>, ErrorModel>,
)
    requires
        is_faithful(before.factory),
        protects(
            before.factory,
            metadata,
            stored_location(writing_config, is_footer_key),
            key,
            master_key_id,
            double_wrapping,
        ),
        keeps_no_other_kek(
            before,
            unwrapper.cache,
            metadata,
            stored_location(writing_config, is_footer_key),
            master_key_id,
        ),
        retrieves(before, after, unwrapper, updated, metadata, now, outcome),
        valid_utf8(metadata) ==> reads_back(decode_utf8(metadata)),
    ensures
        match outcome {
            Ok(retrieved) => retrieved == key,
            Err(e) => retrieval_fails(before.factory, updated.config, metadata, master_key_id, e),
        },
        is_reliable(before.factory, updated.config) ==> outcome == Ok::<Seq<u8>, ErrorModel>(key),
{
    reveal_strlit("DEFAULT");
    let location = stored_location(writing_config, is_footer_key);
    if double_wrapping {
        let (kek, wrapped_dek) = choose|kek: KekModel, wrapped_dek: Seq<char>|
            sound_kek(before.factory, master_key_id, kek) && metadata == #[trigger] double_metadata(
                location,
                master_key_id,
                kek,
                wrapped_dek,
            ) && decrypted_key(wrapped_dek, kek.key_id, kek.key) == Ok::<Seq<u8>, ErrorModel>(key);
        let m = built_material(
            location,
            WrappedKeyModel::Double {
                master_key_id,
                key_encryption_key_id: kek.encoded_key_id,
                wrapped_kek: kek.wrapped_key,
                wrapped_dek,
            },
        );
        lemma_stored_material(metadata, m);
        let keks = keys_of(before.read_caches, updated.cache);
        if !keks.contains_key(kek.encoded_key_id) {
            let (between, unwrapped) = choose|
                between: ManagerModel<F>,
                unwrapped: Result<Seq<u8>, ErrorModel>,
            | #[trigger]
                unwraps_with_kms(
                    before,
                    between,
                    updated,
                    kek.wrapped_key,
                    master_key_id,
                    now,
                    unwrapped,
                ) && double_unwrapped(
                    between,
                    after,
                    updated,
                    kek.encoded_key_id,
                    wrapped_dek,
                    unwrapped,
                    outcome,
                );
            let client = choose|client: F::Client|
                is_client(before.factory, client) && #[trigger] wraps(
                    client,
                    kek.key,
                    master_key_id,
                    Ok::<Seq<char>, ErrorModel>(kek.wrapped_key),
                );
            lemma_faithful_unwrapping(
                before,
                between,
                updated,
                client,
                kek.key,
                kek.wrapped_key,
                master_key_id,
                now,
                unwrapped,
            );
        }
    } else {
        let (client, wrapped) = choose|client: F::Client, wrapped: Seq<char>|
            is_client(before.factory, client) && #[trigger] wraps(
                client,
                key,
                master_key_id,
                Ok::<Seq<char>, ErrorModel>(wrapped),
            ) && metadata == single_metadata(location, master_key_id, wrapped);
        let m = built_material(
            location,
            WrappedKeyModel::Single { master_key_id, wrapped_dek: wrapped },
        );
        lemma_stored_material(metadata, m);
        lemma_faithful_unwrapping(
            before,
            after,
            updated,
            client,
            key,
            wrapped,
            master_key_id,
            now,
            outcome,
        );
    }
}

/// While a key encryption key is kept, keys that were encrypted with it are retrieved without
/// asking the KMS for anything, at any time.
pub proof fn law_kept_kek_needs_no_kms<F: KmsClientFactory>(
    before: ManagerModel<F>,
    after: ManagerModel<F>,
    unwrapper: UnwrapperModel,
    wrapped_dek: Seq<char>,
    master_key_id: Seq<char>,
    kek_id: Seq<char>,
    wrapped_kek: Seq<char>,
    now: u128,
    outcome: Result<Seq<u8>, ErrorModel>,
)
    requires
        keys_of(before.read_caches, unwrapper.cache).contains_key(kek_id),
        unwraps_double(
            before,
            after,
            unwrapper,
            wrapped_dek,
            master_key_id,
            kek_id,
            wrapped_kek,
            now,
            outcome,
        ),
    ensures
        after == before,
        outcome == dek_from(
            kek_id,
            keys_of(before.read_caches, unwrapper.cache)[kek_id]@,
            wrapped_dek,
        ),
{
}

/// A key encryption key that was unwrapped is kept for as long as the cache is held.
pub proof fn law_unwrapped_kek_is_kept<F: KmsClientFactory>(
    before: ManagerModel<F>,
    after: ManagerModel<F>,
    unwrapper: UnwrapperModel,
    wrapped_dek: Seq<char>,
    master_key_id: Seq<char>,
    kek_id: Seq<char>,
    wrapped_kek: Seq<char>,
    now: u128,
    key: Seq<u8>,
)
    requires
        is_held(before.read_caches, unwrapper.cache),
        unwraps_double(
            before,
            after,
            unwrapper,
            wrapped_dek,
            master_key_id,
            kek_id,
            wrapped_kek,
            now,
            Ok::<Seq<u8>, ErrorModel>(key),
        ),
    ensures
        is_held(after.read_caches, unwrapper.cache),
        keys_of(after.read_caches, unwrapper.cache).contains_key(kek_id),
{
}

/// The key encryption keys that a key unwrapper can use, by encoded identifier.
pub open spec fn kept_read_keks<F: KmsClientFactory>(
    manager: ManagerModel<F>,
    unwrapper: UnwrapperModel,
) -> Map<Seq<char>, Vec<u8>> {
    keys_of(manager.read_caches, unwrapper.cache)
}

/// Of two keys that were encrypted with the same key encryption key, which is not kept at first,
/// the first makes the KMS unwrap the key encryption key. If that succeeds, the key encryption key
/// is kept, and the second key is unwrapped without asking the KMS for anything. If it fails, the
/// error is returned, nothing is kept, and the KMS is asked again for the second key. Where the
/// identifier of the key encryption key cannot be decoded, neither key is unwrapped.
pub proof fn law_kek_is_unwrapped_until_it_succeeds<F: KmsClientFactory>(
    before: ManagerModel<F>,
    between: ManagerModel<F>,
    after: ManagerModel<F>,
    unwrapper: UnwrapperModel,
    master_key_id: Seq<char>,
    kek_id: Seq<char>,
    wrapped_kek: Seq<char>,
    wrapped_dek: Seq<char>,
    now: u128,
    outcome: Result<Seq<u8>, ErrorModel>,
    next_wrapped_dek: Seq<char>,
    later: u128,
    next_outcome: Result<Seq<u8>, ErrorModel>,
)
    requires
        is_held(before.read_caches, unwrapper.cache),
        !kept_read_keks(before, unwrapper).contains_key(kek_id),
        unwraps_double(
            before,
            between,
            unwrapper,
            wrapped_dek,
            master_key_id,
            kek_id,
            wrapped_kek,
            now,
            outcome,
        ),
        unwraps_double(
            between,
            after,
            unwrapper,
            next_wrapped_dek,
            master_key_id,
            kek_id,
            wrapped_kek,
            later,
            next_outcome,
        ),
    ensures
        exists|asked: ManagerModel<F>, unwrapped: Result<Seq<u8>, ErrorModel>|
            #[trigger] unwraps_with_kms(
                before,
                asked,
                unwrapper,
                wrapped_kek,
                master_key_id,
                now,
                unwrapped,
            ) && match unwrapped {
                Ok(kek) => {
                    &&& kept_read_keks(between, unwrapper).contains_key(kek_id)
                    &&& kept_read_keks(between, unwrapper)[kek_id]@ == kek
                    &&& outcome == dek_from(kek_id, kek, wrapped_dek)
                    &&& after == between
                    &&& next_outcome == dek_from(kek_id, kek, next_wrapped_dek)
                },
                Err(e) => {
                    &&& outcome == Err::<Seq<u8>, ErrorModel>(e)
                    &&& between.read_caches == before.read_caches
                    &&& unwraps_with_new_kek(
                        between,
                        after,
                        unwrapper,
                        next_wrapped_dek,
                        master_key_id,
                        kek_id,
                        wrapped_kek,
                        later,
                        next_outcome,
                    )
                },
            },
        base64_decoded(kek_id) is Err ==> outcome is Err && next_outcome is Err,
{
    let (asked, unwrapped) = choose|
        asked: ManagerModel<F>,
        unwrapped: Result<Seq<u8>, ErrorModel>,
    | #[trigger]
        unwraps_with_kms(
            before,
            asked,
            unwrapper,
            wrapped_kek,
            master_key_id,
            now,
            unwrapped,
        ) && double_unwrapped(
            asked,
            between,
            unwrapper,
            kek_id,
            wrapped_dek,
            unwrapped,
            outcome,
        );
    assert(asked.read_caches == before.read_caches);
    assert(unwraps_with_kms(
        before,
        asked,
        unwrapper,
        wrapped_kek,
        master_key_id,
        now,
        unwrapped,
    ));
}

/// What others than the holder of a cache can do: store keys, open a key unwrapper, retrieve keys,
/// and let go of what they hold themselves.
pub open spec fn others_step<F: KmsClientFactory>(
    before: ManagerModel<F>,
    after: ManagerModel<F>,
    held: int,
) -> bool {
    ||| after.read_caches == before.read_caches
    ||| exists|other: UnwrapperModel, now: u128| #[trigger]
        opens_unwrapper(before, after, other, now)
    ||| exists|
        other: UnwrapperModel,
        updated: UnwrapperModel,
        metadata: Seq<u8>,
        now: u128,
        outcome: Result<Seq<u8>, ErrorModel>,
    | #[trigger]
        retrieves(before, after, other, updated, metadata, now, outcome)
    ||| exists|cache: int|
        after == #[trigger] unwrapper_closed(before, cache) && (cache == held
            ==> before.read_caches[held]->0.holders > 1)
}

/// Retrieving a key changes no key encryption key that is kept, and keeps all caches.
proof fn lemma_retrieval_keeps_keks<F: KmsClientFactory>(
    before: ManagerModel<F>,
    after: ManagerModel<F>,
    other: UnwrapperModel,
    updated: UnwrapperModel,
    metadata: Seq<u8>,
    now: u128,
    outcome: Result<Seq<u8>, ErrorModel>,
    held: int,
    kek_id: Seq<char>,
)
    requires
        retrieves(before, after, other, updated, metadata, now, outcome),
        is_held(before.read_caches, held),
    ensures
        is_held(after.read_caches, held),
        keys_of(before.read_caches, held).contains_key(kek_id) ==> keys_of(
            after.read_caches,
            held,
        ).contains_key(kek_id) && keys_of(after.read_caches, held)[kek_id] == keys_of(
            before.read_caches,
            held,
        )[kek_id],
{
}

/// A key unwrapper keeps a key encryption key for as long as it is not closed, whatever others do
/// meanwhile, however much time passes, and whether or not its access token changes. Keys that
/// were encrypted with it are unwrapped without asking the KMS for anything.
pub proof fn law_unwrapper_keeps_its_keks<F: KmsClientFactory>(
    states: Seq<ManagerModel<F>>,
    after: ManagerModel<F>,
    unwrapper: UnwrapperModel,
    refreshed: UnwrapperModel,
    kek_id: Seq<char>,
    wrapped_dek: Seq<char>,
    master_key_id: Seq<char>,
    wrapped_kek: Seq<char>,
    now: u128,
    outcome: Result<Seq<u8>, ErrorModel>,
)
    requires
        states.len() > 0,
        is_held(states[0].read_caches, unwrapper.cache),
        kept_read_keks(states[0], unwrapper).contains_key(kek_id),
        forall|i: int|
            #![trigger states[i + 1]]
            0 <= i < states.len() - 1 ==> others_step(states[i], states[i + 1], unwrapper.cache),
        refreshed.cache == unwrapper.cache,
        unwraps_double(
            states.last(),
            after,
            refreshed,
            wrapped_dek,
            master_key_id,
            kek_id,
            wrapped_kek,
            now,
            outcome,
        ),
    ensures
        is_held(states.last().read_caches, unwrapper.cache),
        after == states.last(),
        outcome == dek_from(kek_id, kept_read_keks(states[0], unwrapper)[kek_id]@, wrapped_dek),
{
    lemma_keks_while_others_work(states, unwrapper.cache, kek_id, states.len() - 1);
}

proof fn lemma_keks_while_others_work<F: KmsClientFactory>(
    states: Seq<ManagerModel<F>>,
    held: int,
    kek_id: Seq<char>,
    n: int,
)
    requires
        0 <= n < states.len(),
        is_held(states[0].read_caches, held),
        keys_of(states[0].read_caches, held).contains_key(kek_id),
        forall|i: int|
            #![trigger states[i + 1]]
            0 <= i < states.len() - 1 ==> others_step(states[i], states[i + 1], held),
    ensures
        is_held(states[n].read_caches, held),
        keys_of(states[n].read_caches, held).contains_key(kek_id),
        keys_of(states[n].read_caches, held)[kek_id] == keys_of(
            states[0].read_caches,
            held,
        )[kek_id],
    decreases n,
{
    if n > 0 {
        lemma_keks_while_others_work(states, held, kek_id, n - 1);
        let before = states[n - 1];
        let after = states[n - 1 + 1];
        assert(others_step(before, after, held));
        if after.read_caches == before.read_caches {
        } else if exists|other: UnwrapperModel, now: u128| #[trigger]
            opens_unwrapper(before, after, other, now) {
            let (other, now) = choose|other: UnwrapperModel, now: u128| #[trigger]
                opens_unwrapper(before, after, other, now);
            law_held_cache_survives_acquisition(
                before.read_caches,
                after.read_caches,
                other.config.key_access_token,
                other.cache_lifetime,
                now,
                other.cache,
                held,
            );
        } else if exists|
            other: UnwrapperModel,
            updated: UnwrapperModel,
            metadata: Seq<u8>,
            now: u128,
            outcome: Result<Seq<u8>, ErrorModel>,
        | #[trigger]
            retrieves(before, after, other, updated, metadata, now, outcome) {
            let (other, updated, metadata, now, outcome) = choose|
                other: UnwrapperModel,
                updated: UnwrapperModel,
                metadata: Seq<u8>,
                now: u128,
                outcome: Result<Seq<u8>, ErrorModel>,
            | #[trigger]
                retrieves(before, after, other, updated, metadata, now, outcome);
            lemma_retrieval_keeps_keks(
                before,
                after,
                other,
                updated,
                metadata,
                now,
                outcome,
                held,
                kek_id,
            );
        } else {
            let cache = choose|cache: int|
                after == #[trigger] unwrapper_closed(before, cache) && (cache == held
                    ==> before.read_caches[held]->0.holders > 1);
            law_held_cache_survives_release(before.read_caches, cache, held);
        }
    }
}

/// A key unwrapper that is made within the lifetime of the cache of another with the same access
/// token, whether or not that one was closed, shares its key encryption keys: keys that were
/// encrypted with one that the first has unwrapped are unwrapped without asking the KMS for
/// anything.
pub proof fn law_next_unwrapper_reuses_keks<F: KmsClientFactory>(
    start: ManagerModel<F>,
    opened: ManagerModel<F>,
    used: ManagerModel<F>,
    left: ManagerModel<F>,
    reopened: ManagerModel<F>,
    after: ManagerModel<F>,
    first: UnwrapperModel,
    second: UnwrapperModel,
    master_key_id: Seq<char>,
    kek_id: Seq<char>,
    wrapped_kek: Seq<char>,
    opened_at: u128,
    wrapped_dek: Seq<char>,
    used_at: u128,
    key: Seq<u8>,
    reopened_at: u128,
    next_wrapped_dek: Seq<char>,
    now: u128,
    outcome: Result<Seq<u8>, ErrorModel>,
)
    requires
        one_shared_per_token(start.read_caches),
        opens_unwrapper(start, opened, first, opened_at),
        unwraps_double(
            opened,
            used,
            first,
            wrapped_dek,
            master_key_id,
            kek_id,
            wrapped_kek,
            used_at,
            Ok::<Seq<u8>, ErrorModel>(key),
        ),
        left == used || left == unwrapper_closed(used, first.cache),
        opens_unwrapper(left, reopened, second, reopened_at),
        second.config.key_access_token == first.config.key_access_token,
        !has_passed(opened.read_caches[first.cache]->0.expires_at, reopened_at),
        unwraps_double(
            reopened,
            after,
            second,
            next_wrapped_dek,
            master_key_id,
            kek_id,
            wrapped_kek,
            now,
            outcome,
        ),
    ensures
        second.cache == first.cache,
        kept_read_keks(used, first).contains_key(kek_id),
        after == reopened,
        outcome == dek_from(kek_id, kept_read_keks(used, first)[kek_id]@, next_wrapped_dek),
{
    let token = first.config.key_access_token;
    law_acquisition_keeps_one_shared(
        start.read_caches,
        opened.read_caches,
        token,
        first.cache_lifetime,
        opened_at,
        first.cache,
    );
    law_acquired_cache_is_held(
        start.read_caches,
        opened.read_caches,
        token,
        first.cache_lifetime,
        opened_at,
        first.cache,
    );
    lemma_shared_as_before(opened.read_caches, left.read_caches);
    assert(shared_for(left.read_caches, first.cache, token));
    law_cache_is_shared_until_it_expires(
        left.read_caches,
        reopened.read_caches,
        token,
        second.cache_lifetime,
        reopened_at,
        second.cache,
        first.cache,
    );
}

/// A key unwrapper that is made once the lifetime of the cache of another with the same access
/// token is over does not share its key encryption keys: the KMS is asked again. The other keeps
/// its own, if it was not closed.
pub proof fn law_later_unwrapper_asks_again<F: KmsClientFactory>(
    start: ManagerModel<F>,
    opened: ManagerModel<F>,
    used: ManagerModel<F>,
    left: ManagerModel<F>,
    reopened: ManagerModel<F>,
    after: ManagerModel<F>,
    first: UnwrapperModel,
    second: UnwrapperModel,
    nanos: u128,
    master_key_id: Seq<char>,
    kek_id: Seq<char>,
    wrapped_kek: Seq<char>,
    opened_at: u128,
    wrapped_dek: Seq<char>,
    used_at: u128,
    key: Seq<u8>,
    reopened_at: u128,
    next_wrapped_dek: Seq<char>,
    now: u128,
    outcome: Result<Seq<u8>, ErrorModel>,
)
    requires
        forall|i: int| !(#[trigger] shared_for(
            all_settled(start.read_caches, opened_at),
            i,
            first.config.key_access_token,
        )),
        opens_unwrapper(start, opened, first, opened_at),
        first.cache_lifetime == Some(nanos),
        opened_at + nanos <= reopened_at,
        unwraps_double(
            opened,
            used,
            first,
            wrapped_dek,
            master_key_id,
            kek_id,
            wrapped_kek,
            used_at,
            Ok::<Seq<u8>, ErrorModel>(key),
        ),
        left == used || left == unwrapper_closed(used, first.cache),
        opens_unwrapper(left, reopened, second, reopened_at),
        second.config.key_access_token == first.config.key_access_token,
        unwraps_double(
            reopened,
            after,
            second,
            next_wrapped_dek,
            master_key_id,
            kek_id,
            wrapped_kek,
            now,
            outcome,
        ),
    ensures
        unwraps_with_new_kek(
            reopened,
            after,
            second,
            next_wrapped_dek,
            master_key_id,
            kek_id,
            wrapped_kek,
            now,
            outcome,
        ),
        left == used ==> second.cache != first.cache && kept_read_keks(
            reopened,
            first,
        ).contains_key(kek_id),
{
    let token = first.config.key_access_token;
    let settled_start = all_settled(start.read_caches, opened_at);
    law_acquired_cache_is_held(
        start.read_caches,
        opened.read_caches,
        token,
        first.cache_lifetime,
        opened_at,
        first.cache,
    );
    assert(is_held(used.read_caches, first.cache));
    assert(kept_read_keks(used, first).contains_key(kek_id));
    assert forall|i: int| #[trigger] shared_for(left.read_caches, i, token) implies has_passed(
        left.read_caches[i]->0.expires_at,
        reopened_at,
    ) by {
        if i != first.cache {
            assert(!shared_for(settled_start, i, token));
        }
    }
    law_expired_cache_is_not_shared(
        left.read_caches,
        reopened.read_caches,
        token,
        second.cache_lifetime,
        reopened_at,
        second.cache,
    );
    if left == used {
        law_held_cache_survives_acquisition(
            left.read_caches,
            reopened.read_caches,
            token,
            second.cache_lifetime,
            reopened_at,
            second.cache,
            first.cache,
        );
    }
}

/// Once the access token of the connection configuration was refreshed, a key unwrapper that was
/// made before uses the new access token: where there is no client for it yet, one is created for
/// it, with the KMS instance that the unwrapper knows.
pub proof fn law_refreshed_token_is_used<F: KmsClientFactory>(
    before: ManagerModel<F>,
    after: ManagerModel<F>,
    unwrapper: UnwrapperModel,
    token: Seq<char>,
    wrapped_key: Seq<char>,
    master_key_id: Seq<char>,
    now: u128,
    outcome: Result<Seq<u8>, ErrorModel>,
)
    requires
        unwraps_with_kms(
            before,
            after,
            with_token(unwrapper, token),
            wrapped_key,
            master_key_id,
            now,
            outcome,
        ),
    ensures
        exists|client: Result<F::Client, ErrorModel>| #[trigger]
            unwrapped_from(client, wrapped_key, master_key_id, outcome) && gets_client(
                before,
                after,
                ConfigModel { key_access_token: token, ..unwrapper.config },
                unwrapper.cache_lifetime,
                now,
                client,
            ) && (!before.clients.contains_key((unwrapper.config.kms_instance_id, token))
                ==> creates(
                before.factory,
                ConfigModel { key_access_token: token, ..unwrapper.config },
                client,
            )),
{
    let client = choose|client: Result<F::Client, ErrorModel>| #[trigger]
        gets_client(
            before,
            after,
            with_token(unwrapper, token).config,
            unwrapper.cache_lifetime,
            now,
            client,
        ) && unwrapped_from(client, wrapped_key, master_key_id, outcome);
    assert(unwrapped_from(client, wrapped_key, master_key_id, outcome));
}

/// A KMS instance in the connection configuration takes precedence over the one in the metadata,
/// and what the configuration does not have is taken from the metadata. The access token and
/// custom options only come from the configuration.
pub proof fn law_provided_config_takes_precedence(
    config: ConfigModel,
    id: Seq<char>,
    url: Seq<char>,
)
    ensures
        config.kms_instance_id.len() > 0 ==> updated_config(config, id, url).kms_instance_id
            == config.kms_instance_id,
        config.kms_instance_url.len() > 0 ==> updated_config(config, id, url).kms_instance_url
            == config.kms_instance_url,
        missing_location(config, id, url) is None && config.kms_instance_id.len() == 0
            ==> updated_config(config, id, url).kms_instance_id == id,
        missing_location(config, id, url) is None && config.kms_instance_url.len() == 0
            ==> updated_config(config, id, url).kms_instance_url == url,
        missing_location(config, id, url) is None ==> updated_config(
            config,
            id,
            url,
        ).kms_instance_id.len() > 0 && updated_config(config, id, url).kms_instance_url.len() > 0,
        updated_config(config, id, url).key_access_token == config.key_access_token,
        updated_config(config, id, url).custom_kms_conf == config.custom_kms_conf,
{
}

/// What is stored with a footer key always completes the connection configuration.
pub proof fn law_stored_location_is_complete(reading: ConfigModel, writing: ConfigModel)
    ensures
        stored_location(writing, true) matches Some((id, url)) && missing_location(
            reading,
            id,
            url,
        ) is None,
{
    reveal_strlit("DEFAULT");
}

/// When a key is retrieved for metadata that has the identifier and URL of a KMS instance, the
/// reader's own identifier is used where there is one, and otherwise the one in the metadata, and
/// likewise the reader's own URL, whatever holds of the other. Neither is empty then. Where the KMS
/// is asked, it is asked through a client for this instance, with the reader's access token and
/// custom options. The unwrapper keeps what it has learned.
pub proof fn law_location_is_completed_from_the_metadata<F: KmsClientFactory>(
    before: ManagerModel<F>,
    after: ManagerModel<F>,
    unwrapper: UnwrapperModel,
    updated: UnwrapperModel,
    metadata: Seq<u8>,
    m: MaterialModel,
    id: Seq<char>,
    url: Seq<char>,
    now: u128,
    outcome: Result<Seq<u8>, ErrorModel>,
)
    requires
        material_in(metadata) == Ok::<MaterialModel, ErrorModel>(m),
        m.internal_storage,
        m.kms_instance_id == Some(id),
        m.kms_instance_url == Some(url),
        unwrapper.config.kms_instance_id.len() > 0 || id.len() > 0,
        unwrapper.config.kms_instance_url.len() > 0 || url.len() > 0,
        retrieves(before, after, unwrapper, updated, metadata, now, outcome),
    ensures
        unwrapper.config.kms_instance_id.len() > 0 ==> updated.config.kms_instance_id
            == unwrapper.config.kms_instance_id,
        unwrapper.config.kms_instance_id.len() == 0 ==> updated.config.kms_instance_id == id,
        unwrapper.config.kms_instance_url.len() > 0 ==> updated.config.kms_instance_url
            == unwrapper.config.kms_instance_url,
        unwrapper.config.kms_instance_url.len() == 0 ==> updated.config.kms_instance_url == url,
        updated.config.kms_instance_id.len() > 0,
        updated.config.kms_instance_url.len() > 0,
        updated.config.key_access_token == unwrapper.config.key_access_token,
        updated.config.custom_kms_conf == unwrapper.config.custom_kms_conf,
        updated.cache_lifetime == unwrapper.cache_lifetime,
        updated.cache == unwrapper.cache,
        !m.double_wrapping ==> exists|client: Result<F::Client, ErrorModel>| #[trigger]
            gets_client(before, after, updated.config, updated.cache_lifetime, now, client) && (
            match client {
                Ok(c) => unwraps(c, m.wrapped_dek, m.master_key_id, outcome),
                Err(e) => outcome == Err::<Seq<u8>, ErrorModel>(e),
            }),
        m.double_wrapping && m.key_encryption_key_id is Some && m.wrapped_kek is Some && !keys_of(
            before.read_caches,
            unwrapper.cache,
        ).contains_key(m.key_encryption_key_id->0) ==> exists|
            asked: ManagerModel<F>,
            client: Result<F::Client, ErrorModel>,
            unwrapped: Result<Seq<u8>, ErrorModel>,
        |
            #[trigger] gets_client(
                before,
                asked,
                updated.config,
                updated.cache_lifetime,
                now,
                client,
            ) && #[trigger] unwrapped_from(client, m.wrapped_kek->0, m.master_key_id, unwrapped) && (
            unwrapped matches Err(e) ==> outcome == Err::<Seq<u8>, ErrorModel>(e)),
{
    if !m.double_wrapping {
        let client = choose|client: Result<F::Client, ErrorModel>| #[trigger]
            gets_client(before, after, updated.config, updated.cache_lifetime, now, client)
                && unwrapped_from(client, m.wrapped_dek, m.master_key_id, outcome);
        assert(gets_client(before, after, updated.config, updated.cache_lifetime, now, client));
    } else if m.key_encryption_key_id is Some && m.wrapped_kek is Some && !keys_of(
        before.read_caches,
        unwrapper.cache,
    ).contains_key(m.key_encryption_key_id->0) {
        let (asked, unwrapped) = choose|
            asked: ManagerModel<F>,
            unwrapped: Result<Seq<u8>, ErrorModel>,
        | #[trigger]
            unwraps_with_kms(
                before,
                asked,
                updated,
                m.wrapped_kek->0,
                m.master_key_id,
                now,
                unwrapped,
            ) && double_unwrapped(
                asked,
                after,
                updated,
                m.key_encryption_key_id->0,
                m.wrapped_dek,
                unwrapped,
                outcome,
            );
        let client = choose|client: Result<F::Client, ErrorModel>| #[trigger]
            gets_client(before, asked, updated.config, updated.cache_lifetime, now, client)
                && unwrapped_from(client, m.wrapped_kek->0, m.master_key_id, unwrapped);
        assert(gets_client(before, asked, updated.config, updated.cache_lifetime, now, client));
        assert(unwrapped_from(client, m.wrapped_kek->0, m.master_key_id, unwrapped));
    }
}

/// Where neither the reader nor the metadata has the identifier of the KMS instance, or neither has
/// its URL, no key is retrieved and the KMS is not asked.
pub proof fn law_missing_location_is_refused<F: KmsClientFactory>(
    before: ManagerModel<F>,
    after: ManagerModel<F>,
    unwrapper: UnwrapperModel,
    updated: UnwrapperModel,
    metadata: Seq<u8>,
    m: MaterialModel,
    id: Seq<char>,
    url: Seq<char>,
    now: u128,
    outcome: Result<Seq<u8>, ErrorModel>,
)
    requires
        material_in(metadata) == Ok::<MaterialModel, ErrorModel>(m),
        m.internal_storage,
        m.kms_instance_id == Some(id),
        m.kms_instance_url == Some(url),
        (unwrapper.config.kms_instance_id.len() == 0 && id.len() == 0) || (
        unwrapper.config.kms_instance_url.len() == 0 && url.len() == 0),
        retrieves(before, after, unwrapper, updated, metadata, now, outcome),
    ensures
        after == before,
        outcome == Err::<Seq<u8>, ErrorModel>(
            ErrorModel::General(
                if unwrapper.config.kms_instance_id.len() == 0 && id.len() == 0 {
                    "KMS instance ID not set in connection configuration or footer key metadata"@
                } else {
                    "KMS instance URL not set in connection configuration or footer key metadata"@
                },
            ),
        ),
{
}

/// Metadata without the location of a KMS instance leaves the connection as it is, and its key is
/// retrieved through a client for the connection as it is. Key material that is stored elsewhere is
/// refused.
pub proof fn law_column_metadata_leaves_the_location<F: KmsClientFactory>(
    before: ManagerModel<F>,
    after: ManagerModel<F>,
    unwrapper: UnwrapperModel,
    updated: UnwrapperModel,
    metadata: Seq<u8>,
    m: MaterialModel,
    now: u128,
    outcome: Result<Seq<u8>, ErrorModel>,
)
    requires
        material_in(metadata) == Ok::<MaterialModel, ErrorModel>(m),
        retrieves(before, after, unwrapper, updated, metadata, now, outcome),
        m.kms_instance_id is None || m.kms_instance_url is None || !m.internal_storage,
    ensures
        updated == unwrapper,
        m.internal_storage && !m.double_wrapping ==> exists|client: Result<F::Client, ErrorModel>|
            #[trigger] gets_client(
                before,
                after,
                unwrapper.config,
                unwrapper.cache_lifetime,
                now,
                client,
            ) && (match client {
                Ok(c) => unwraps(c, m.wrapped_dek, m.master_key_id, outcome),
                Err(e) => outcome == Err::<Seq<u8>, ErrorModel>(e),
            }),
        !m.internal_storage ==> after == before && outcome == Err::<Seq<u8>, ErrorModel>(
            ErrorModel::Nyi("Decryption using external key material is not yet implemented"@),
        ),
{
    if m.internal_storage && !m.double_wrapping {
        let client = choose|client: Result<F::Client, ErrorModel>| #[trigger]
            gets_client(before, after, updated.config, updated.cache_lifetime, now, client)
                && unwrapped_from(client, m.wrapped_dek, m.master_key_id, outcome);
        assert(gets_client(before, after, unwrapper.config, unwrapper.cache_lifetime, now, client));
    }
}

/// Metadata that is not text, or not the text of key material, is refused with the reason. Key
/// material that is not stored inside the file is refused, and so is a double wrapped key without
/// its key encryption key. The KMS is not asked for anything then.
pub proof fn law_unusable_metadata_is_refused<F: KmsClientFactory>(
    before: ManagerModel<F>,
    after: ManagerModel<F>,
    unwrapper: UnwrapperModel,
    updated: UnwrapperModel,
    metadata: Seq<u8>,
    now: u128,
    outcome: Result<Seq<u8>, ErrorModel>,
)
    requires
        retrieves(before, after, unwrapper, updated, metadata, now, outcome),
    ensures
        !valid_utf8(metadata) ==> after == before && updated == unwrapper && outcome == Err::<
            Seq<u8>,
            ErrorModel,
        >(ErrorModel::External(utf8_error(metadata))),
        valid_utf8(metadata) ==> (material_read(decode_utf8(metadata)) matches Err(e) ==> after
            == before && updated == unwrapper && outcome == Err::<Seq<u8>, ErrorModel>(e)),
        valid_utf8(metadata) ==> (material_read(decode_utf8(metadata)) matches Ok(m) ==> {
            &&& !m.internal_storage ==> after == before && updated == unwrapper && outcome == Err::<
                Seq<u8>,
                ErrorModel,
            >(ErrorModel::Nyi("Decryption using external key material is not yet implemented"@))
            &&& m.internal_storage && m.double_wrapping && (m.key_encryption_key_id is None
                || m.wrapped_kek is None) ==> after == before && outcome is Err
            &&& m.internal_storage && m.double_wrapping && (m.key_encryption_key_id is None
                || m.wrapped_kek is None) && m.kms_instance_id is None ==> outcome == Err::<
                Seq<u8>,
                ErrorModel,
            >(ErrorModel::General("Key uses double wrapping but key encryption key is not set"@))
        }),
{
}

/// A single wrapped key is what a client for the connection unwraps it to under its master key. An
/// error of the client, or one that comes from asking for a client, is returned as it is.
pub proof fn law_single_wrapped_key_is_unwrapped_by_the_kms<F: KmsClientFactory>(
    before: ManagerModel<F>,
    after: ManagerModel<F>,
    unwrapper: UnwrapperModel,
    updated: UnwrapperModel,
    metadata: Seq<u8>,
    m: MaterialModel,
    now: u128,
    outcome: Result<Seq<u8>, ErrorModel>,
) -> (client: Result<F::Client, ErrorModel>)
    requires
        retrieves(before, after, unwrapper, updated, metadata, now, outcome),
        valid_utf8(metadata),
        material_read(decode_utf8(metadata)) == Ok::<MaterialModel, ErrorModel>(m),
        m.internal_storage,
        !m.double_wrapping,
        m.kms_instance_id is None,
    ensures
        updated == unwrapper,
        gets_client(before, after, unwrapper.config, unwrapper.cache_lifetime, now, client),
        match client {
            Ok(c) => unwraps(c, m.wrapped_dek, m.master_key_id, outcome),
            Err(e) => outcome == Err::<Seq<u8>, ErrorModel>(e),
        },
        after.read_caches == before.read_caches,
{
    choose|client: Result<F::Client, ErrorModel>| #[trigger]
        gets_client(before, after, unwrapper.config, unwrapper.cache_lifetime, now, client)
            && unwrapped_from(client, m.wrapped_dek, m.master_key_id, outcome)
}

/// A key that was encrypted with a key encryption key is decrypted with it, and with the decoded
/// identifier of the key encryption key as additional authenticated data. An identifier that cannot
/// be decoded is refused with the reason.
pub proof fn law_dek_is_decrypted_with_the_kek(
    kek_id: Seq<char>,
    kek: Seq<u8>,
    wrapped_dek: Seq<char>,
    decoded_id: Seq<u8>,
    problem: Seq<char>,
)
    ensures
        base64_decoded(kek_id) == Ok::<Seq<u8>, Seq<char>>(decoded_id) ==> dek_from(
            kek_id,
            kek,
            wrapped_dek,
        ) == decrypted_key(wrapped_dek, decoded_id, kek),
        base64_decoded(kek_id) == Err::<Seq<u8>, Seq<char>>(problem) ==> dek_from(
            kek_id,
            kek,
            wrapped_dek,
        ) == Err::<Seq<u8>, ErrorModel>(
            ErrorModel::General("Could not base64 decode key encryption key id: "@ + problem),
        ),
{
}

/// A new key unwrapper holds a cache of unwrapped key encryption keys for its access token, which
/// starts its lifetime if there was none. Closing the key unwrapper leaves each cache with as many
/// holders as it had. Nothing else changes: no client is created, and what is kept for writing stays.
pub proof fn law_new_unwrapper_holds_a_cache<F: KmsClientFactory>(
    before: ManagerModel<F>,
    after: ManagerModel<F>,
    unwrapper: UnwrapperModel,
    now: u128,
)
    requires
        opens_unwrapper(before, after, unwrapper, now),
    ensures
        is_held(after.read_caches, unwrapper.cache),
        after.read_caches[unwrapper.cache]->0.token == unwrapper.config.key_access_token,
        (forall|i: int| !(#[trigger] shared_for(
            before.read_caches,
            i,
            unwrapper.config.key_access_token,
        ))) ==> keys_of(after.read_caches, unwrapper.cache) == Map::<Seq<char>, Vec<u8>>::empty()
            && after.read_caches[unwrapper.cache]->0.expires_at == (match unwrapper.cache_lifetime {
            Some(nanos) => Some((now + nanos) as u128),
            None => None,
        }),
        after.factory == before.factory,
        after.clients == before.clients,
        after.write_caches == before.write_caches,
        after.draws == before.draws,
        holders_of(before.read_caches, unwrapper.cache) < u64::MAX - 1 ==> forall|i: int| #[trigger]
            holders_of(unwrapper_closed(after, unwrapper.cache).read_caches, i) == holders_of(
                before.read_caches,
                i,
            ),
{
    lemma_new_cache_starts(
        before.read_caches,
        after.read_caches,
        unwrapper.config.key_access_token,
        unwrapper.cache_lifetime,
        now,
        unwrapper.cache,
    );
    if holders_of(before.read_caches, unwrapper.cache) < u64::MAX - 1 {
        assert forall|i: int| #[trigger]
            holders_of(unwrapper_closed(after, unwrapper.cache).read_caches, i) == holders_of(
                before.read_caches,
                i,
            ) by {
            law_release_undoes_acquisition(
                before.read_caches,
                after.read_caches,
                unwrapper.config.key_access_token,
                unwrapper.cache_lifetime,
                now,
                unwrapper.cache,
                i,
            );
        }
    }
}

} // verus!
