//! Types for integrating with a Key Management Server to use with Parquet Modular Encryption.

use std::sync::Arc;
use vstd::prelude::*;

use crate::error::Error;
use crate::error::ErrorModel;
use crate::error::bytes_outcome;
use crate::error::text_outcome;
use crate::text_map::TextMap;

verus! {

/// API for interacting with a KMS.
/// This should be implemented by user code for integration with your KMS.
pub trait KmsClient {
    /// Wrap encryption key bytes using the KMS with the specified master key
    fn wrap_key(&self, key_bytes: &[u8], master_key_identifier: &str) -> (r: Result<String, Error>);

    /// Unwrap a wrapped encryption key using the KMS with the specified master key
    fn unwrap_key(&self, wrapped_key: &str, master_key_identifier: &str) -> (r: Result<
        Vec<u8>,
        Error,
    >);
}

/// Trait for factories that create KMS clients
pub trait KmsClientFactory {
    /// The clients that the factory creates
    type Client: KmsClient;

    /// Create a new [`KmsClient`] instance using the provided configuration
    fn create_client(&self, kms_connection_config: &KmsConnectionConfig) -> (r: Result<
        Self::Client,
        Error,
    >);
}

impl<T: KmsClientFactory> KmsClientFactory for Arc<T> {
    type Client = T::Client;

    fn create_client(&self, kms_connection_config: &KmsConnectionConfig) -> (r: Result<
        Self::Client,
        Error,
    >)
        ensures
            creates(**self, kms_connection_config@, client_outcome(r)),
    {
        (**self).create_client(kms_connection_config)
    }
}

/// Whether wrapping a key with a client can have an outcome.
pub open spec fn wraps<C: KmsClient>(
    client: C,
    key: Seq<u8>,
    master_key_id: Seq<char>,
    outcome: Result<Seq<char>, ErrorModel>,
) -> bool {
    exists|k: &[u8], m: &str, r: Result<String, Error>|
        k@ == key && m@ == master_key_id && text_outcome(r) == outcome && #[trigger] call_ensures(
            C::wrap_key,
            (&client, k, m),
            r,
        )
}

/// Whether unwrapping a key with a client can have an outcome.
pub open spec fn unwraps<C: KmsClient>(
    client: C,
    wrapped_key: Seq<char>,
    master_key_id: Seq<char>,
    outcome: Result<Seq<u8>, ErrorModel>,
) -> bool {
    exists|w: &str, m: &str, r: Result<Vec<u8>, Error>|
        w@ == wrapped_key && m@ == master_key_id && bytes_outcome(r) == outcome
            && #[trigger] call_ensures(C::unwrap_key, (&client, w, m), r)
}

/// What the creation of a client came to.
pub open spec fn client_outcome<C>(r: Result<C, Error>) -> Result<C, ErrorModel> {
    match r {
        Ok(client) => Ok(client),
        Err(error) => Err(error@),
    }
}

/// Whether creating a client for a configuration can have an outcome.
pub open spec fn creates<F: KmsClientFactory>(
    factory: F,
    config: ConfigModel,
    outcome: Result<F::Client, ErrorModel>,
) -> bool {
    exists|c: &KmsConnectionConfig, r: Result<F::Client, Error>|
        c@ == config && client_outcome(r) == outcome && #[trigger] call_ensures(
            F::create_client,
            (&factory, c),
            r,
        )
}

/// Whether the factory can create this client for some configuration.
pub open spec fn is_client<F: KmsClientFactory>(factory: F, client: F::Client) -> bool {
    exists|config: ConfigModel| #[trigger]
        creates(factory, config, Ok::<F::Client, ErrorModel>(client))
}

/// Whether no client of the factory unwraps what one of its clients wrapped to another key than the
/// one that was wrapped. A client may fail.
pub open spec fn is_faithful<F: KmsClientFactory>(factory: F) -> bool {
    forall|
        wrapping: F::Client,
        unwrapping: F::Client,
        key: Seq<u8>,
        master_key_id: Seq<char>,
        wrapped: Seq<char>,
        unwrapped: Seq<u8>,
    |
        is_client(factory, wrapping) && is_client(factory, unwrapping) && #[trigger] wraps(
            wrapping,
            key,
            master_key_id,
            Ok::<Seq<char>, ErrorModel>(wrapped),
        ) && #[trigger] unwraps(
            unwrapping,
            wrapped,
            master_key_id,
            Ok::<Seq<u8>, ErrorModel>(unwrapped),
        ) ==> unwrapped == key
}

/// Whether an error can come from creating a client for a configuration, or from unwrapping a
/// wrapped key with a client of the factory.
pub open spec fn unwrapping_fails<F: KmsClientFactory>(
    factory: F,
    config: ConfigModel,
    wrapped_key: Seq<char>,
    master_key_id: Seq<char>,
    error: ErrorModel,
) -> bool {
    ||| creates(factory, config, Err::<F::Client, ErrorModel>(error))
    ||| exists|client: F::Client|
        is_client(factory, client) && #[trigger] unwraps(
            client,
            wrapped_key,
            master_key_id,
            Err::<Seq<u8>, ErrorModel>(error),
        )
}

/// Whether the factory always creates a client for the configuration, and all of its clients
/// unwrap what one of them wrapped, to the key that was wrapped.
pub open spec fn is_reliable<F: KmsClientFactory>(factory: F, config: ConfigModel) -> bool {
    &&& is_faithful(factory)
    &&& forall|error: ErrorModel| !(#[trigger] creates(
        factory,
        config,
        Err::<F::Client, ErrorModel>(error),
    ))
    &&& forall|
        wrapping: F::Client,
        unwrapping: F::Client,
        key: Seq<u8>,
        master_key_id: Seq<char>,
        wrapped: Seq<char>,
        error: ErrorModel,
    |
        is_client(factory, wrapping) && is_client(factory, unwrapping) && #[trigger] wraps(
            wrapping,
            key,
            master_key_id,
            Ok::<Seq<char>, ErrorModel>(wrapped),
        ) ==> !(#[trigger] unwraps(
            unwrapping,
            wrapped,
            master_key_id,
            Err::<Seq<u8>, ErrorModel>(error),
        ))
}

/// The access token of a configuration that was given none.
pub const DEFAULT_ACCESS_TOKEN: &'static str = "DEFAULT";

/// What a [`KmsConnectionConfig`] holds.
pub struct ConfigModel {
    pub kms_instance_id: Seq<char>,
    pub kms_instance_url: Seq<char>,
    pub key_access_token: Seq<char>,
    pub custom_kms_conf: Map<Seq<char>, Seq<char>>,
}

/// The configuration without any options set.
pub open spec fn default_config() -> ConfigModel {
    ConfigModel {
        kms_instance_id: ""@,
        kms_instance_url: ""@,
        key_access_token: DEFAULT_ACCESS_TOKEN@,
        custom_kms_conf: Map::empty(),
    }
}

/// Options for connecting to a KMS
///
/// A configuration is shared by reference, so that a refreshed access token is used by all that
/// work with the configuration.
#[derive(Debug)]
pub struct KmsConnectionConfig {
    kms_instance_id: String,
    kms_instance_url: String,
    key_access_token: String,
    custom_kms_conf: TextMap,
}

impl View for KmsConnectionConfig {
    type V = ConfigModel;

    closed spec fn view(&self) -> ConfigModel {
        ConfigModel {
            kms_instance_id: self.kms_instance_id@,
            kms_instance_url: self.kms_instance_url@,
            key_access_token: self.key_access_token@,
            custom_kms_conf: self.custom_kms_conf@,
        }
    }
}

impl Default for KmsConnectionConfig {
    fn default() -> (r: Self)
        ensures
            r@ == default_config(),
    {
        KmsConnectionConfig {
            kms_instance_id: "".to_owned(),
            kms_instance_url: "".to_owned(),
            key_access_token: DEFAULT_ACCESS_TOKEN.to_owned(),
            custom_kms_conf: TextMap::new(),
        }
    }
}

impl KmsConnectionConfig {
    /// Create a new builder for a [`KmsConnectionConfig`] with default options
    pub fn builder() -> (r: KmsConnectionConfigBuilder)
        ensures
            r@ == default_config(),
    {
        KmsConnectionConfigBuilder { config: KmsConnectionConfig::default() }
    }

    /// Copy the configuration as it is now. The copy does not take part when the access token is
    /// refreshed.
    pub fn snapshot(&self) -> (r: Self)
        ensures
            r@ == self@,
    {
        KmsConnectionConfig {
            kms_instance_id: self.kms_instance_id.clone(),
            kms_instance_url: self.kms_instance_url.clone(),
            key_access_token: self.key_access_token.clone(),
            custom_kms_conf: self.custom_kms_conf.clone(),
        }
    }

    /// ID of the KMS instance to use for encryption, if multiple instances are available.
    /// If empty when reading a file, the ID stored in the file is used.
    pub fn kms_instance_id(&self) -> (r: &str)
        ensures
            r@ == self@.kms_instance_id,
    {
        self.kms_instance_id.as_str()
    }

    /// URL of the KMS instance to use for encryption.
    /// If empty when reading a file, the URL stored in the file is used.
    pub fn kms_instance_url(&self) -> (r: &str)
        ensures
            r@ == self@.kms_instance_url,
    {
        self.kms_instance_url.as_str()
    }

    /// Authorization token to pass to the KMS
    pub fn key_access_token(&self) -> (r: &str)
        ensures
            r@ == self@.key_access_token,
    {
        self.key_access_token.as_str()
    }

    /// Any KMS specific configuration options
    pub fn custom_kms_conf(&self) -> (r: &TextMap)
        ensures
            r@ == self@.custom_kms_conf,
    {
        &self.custom_kms_conf
    }

    /// Replace the KMS instance ID
    pub fn set_kms_instance_id(&mut self, kms_instance_id: String)
        ensures
            final(self)@ == (ConfigModel { kms_instance_id: kms_instance_id@, ..old(self)@ }),
    {
        self.kms_instance_id = kms_instance_id;
    }

    /// Replace the KMS instance URL
    pub fn set_kms_instance_url(&mut self, kms_instance_url: String)
        ensures
            final(self)@ == (ConfigModel { kms_instance_url: kms_instance_url@, ..old(self)@ }),
    {
        self.kms_instance_url = kms_instance_url;
    }

    /// Update the key access token.
    /// New KMS clients are created for the new token rather than reusing cached clients.
    pub fn refresh_key_access_token(&mut self, key_access_token: String)
        ensures
            final(self)@ == (ConfigModel { key_access_token: key_access_token@, ..old(self)@ }),
    {
        self.key_access_token = key_access_token;
    }
}

/// Builder for a [`KmsConnectionConfig`]
pub struct KmsConnectionConfigBuilder {
    config: KmsConnectionConfig,
}

impl View for KmsConnectionConfigBuilder {
    type V = ConfigModel;

    closed spec fn view(&self) -> ConfigModel {
        self.config@
    }
}

impl KmsConnectionConfigBuilder {
    /// Finalizes the connection configuration
    pub fn build(self) -> (r: KmsConnectionConfig)
        ensures
            r@ == self@,
    {
        self.config
    }

    /// Set the ID of the KMS instance to connect to
    pub fn set_kms_instance_id(self, kms_instance_id: String) -> (r: Self)
        ensures
            r@ == (ConfigModel { kms_instance_id: kms_instance_id@, ..self@ }),
    {
        let config = KmsConnectionConfig { kms_instance_id, ..self.config };
        KmsConnectionConfigBuilder { config }
    }

    /// Set the URL of the KMS instance to connect to
    pub fn set_kms_instance_url(self, kms_instance_url: String) -> (r: Self)
        ensures
            r@ == (ConfigModel { kms_instance_url: kms_instance_url@, ..self@ }),
    {
        let config = KmsConnectionConfig { kms_instance_url, ..self.config };
        KmsConnectionConfigBuilder { config }
    }

    /// Set the authorization token to pass to the KMS
    pub fn set_key_access_token(self, key_access_token: String) -> (r: Self)
        ensures
            r@ == (ConfigModel { key_access_token: key_access_token@, ..self@ }),
    {
        let config = KmsConnectionConfig { key_access_token, ..self.config };
        KmsConnectionConfigBuilder { config }
    }

    /// Set a KMS specific configuration option
    pub fn set_custom_kms_conf_option(self, key: String, value: String) -> (r: Self)
        ensures
            r@ == (ConfigModel {
                custom_kms_conf: self@.custom_kms_conf.insert(key@, value@),
                ..self@
            }),
    {
        let mut config = self.config;
        config.custom_kms_conf.insert(key, value);
        KmsConnectionConfigBuilder { config }
    }
}

/// A configuration without any options has no KMS instance and no custom options, and an access
/// token that is shared by all such configurations.
pub proof fn law_default_configuration_names_no_instance(key: Seq<char>)
    ensures
        default_config().kms_instance_id.len() == 0,
        default_config().kms_instance_url.len() == 0,
        default_config().key_access_token == "DEFAULT"@,
        !default_config().custom_kms_conf.contains_key(key),
{
    reveal_strlit("");
}

} // verus!
