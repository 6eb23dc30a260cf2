use parquet_key_management::config::DecryptionConfiguration;
use parquet_key_management::config::EncryptionConfigurationBuilder;
use parquet_key_management::crypto_factory::CryptoFactory;
use parquet_key_management::crypto_factory::EncryptionKey;
use parquet_key_management::demo_kms::DemoKmsClient;
use parquet_key_management::demo_kms::DemoKmsClientFactory;
use parquet_key_management::error::Error;
use parquet_key_management::key_material::KeyMaterial;
use parquet_key_management::key_material::KeyMaterialBuilder;
use parquet_key_management::key_unwrapper::KeyUnwrapper;
use parquet_key_management::kms::KmsClient;
use parquet_key_management::kms::KmsClientFactory;
use parquet_key_management::kms::KmsConnectionConfig;
use std::collections::HashMap;
use std::sync::Arc;
use std::sync::Mutex;
use std::time::Duration;

#[derive(Clone, Debug, PartialEq)]
struct KmsConnectionConfigDetails {
    kms_instance_id: String,
    kms_instance_url: String,
    key_access_token: String,
    custom_kms_conf: HashMap<String, String>,
}

#[derive(Default)]
struct Counts {
    invocations: Vec<KmsConnectionConfigDetails>,
    keys_wrapped: usize,
    keys_unwrapped: usize,
    refuse_clients: bool,
}

/// Creates clients of the example KMS and counts what they are used for.
#[derive(Clone)]
struct TestKmsClientFactory {
    counts: Arc<Mutex<Counts>>,
}

impl TestKmsClientFactory {
    fn with_default_keys() -> Self {
        TestKmsClientFactory {
            counts: Arc::new(Mutex::new(Counts::default())),
        }
    }

    fn invocations(&self) -> Vec<KmsConnectionConfigDetails> {
        self.counts.lock().unwrap().invocations.clone()
    }

    fn keys_wrapped(&self) -> usize {
        self.counts.lock().unwrap().keys_wrapped
    }

    fn keys_unwrapped(&self) -> usize {
        self.counts.lock().unwrap().keys_unwrapped
    }
}

struct TestKmsClient {
    inner: DemoKmsClient,
    counts: Arc<Mutex<Counts>>,
}

impl KmsClient for TestKmsClient {
    fn wrap_key(&self, key_bytes: &[u8], master_key_identifier: &str) -> Result<String, Error> {
        self.counts.lock().unwrap().keys_wrapped += 1;
        self.inner.wrap_key(key_bytes, master_key_identifier)
    }

    fn unwrap_key(&self, wrapped_key: &str, master_key_identifier: &str) -> Result<Vec<u8>, Error> {
        self.counts.lock().unwrap().keys_unwrapped += 1;
        self.inner.unwrap_key(wrapped_key, master_key_identifier)
    }
}

impl KmsClientFactory for TestKmsClientFactory {
    type Client = TestKmsClient;

    fn create_client(&self, config: &KmsConnectionConfig) -> Result<TestKmsClient, Error> {
        let mut counts = self.counts.lock().unwrap();
        if counts.refuse_clients {
            return Err(Error::General("No client".to_owned()));
        }
        let custom_kms_conf = config.custom_kms_conf().entries().into_iter().collect();
        counts.invocations.push(KmsConnectionConfigDetails {
            kms_instance_id: config.kms_instance_id().to_owned(),
            kms_instance_url: config.kms_instance_url().to_owned(),
            key_access_token: config.key_access_token().to_owned(),
            custom_kms_conf,
        });
        Ok(TestKmsClient {
            inner: DemoKmsClientFactory::with_default_keys().create_client(config)?,
            counts: self.counts.clone(),
        })
    }
}

fn secs(seconds: u64) -> Duration {
    Duration::from_secs(seconds)
}

fn demo_client() -> DemoKmsClient {
    DemoKmsClientFactory::with_default_keys()
        .create_client(&Default::default())
        .unwrap()
}

#[test]
fn test_file_decryption_properties() {
    let kms_config = KmsConnectionConfig::default();
    let config = Default::default();

    let mut crypto_factory = CryptoFactory::new(TestKmsClientFactory::with_default_keys());
    let mut decryption_props = crypto_factory
        .file_decryption_properties(&kms_config, config, secs(0))
        .unwrap();

    let expected_dek = "1234567890123450".as_bytes().to_vec();
    let kms = demo_client();

    let wrapped_key = kms.wrap_key(&expected_dek, "kc1").unwrap();
    let key_material = KeyMaterialBuilder::for_column_key()
        .with_single_wrapped_key("kc1".to_owned(), wrapped_key)
        .build()
        .unwrap();
    let serialized_key_material = key_material.serialize().unwrap();

    let dek = crypto_factory
        .retrieve_key(&mut decryption_props, &kms_config, serialized_key_material.as_bytes(), secs(0))
        .unwrap();

    assert_eq!(dek, expected_dek);
}

#[test]
fn test_kms_client_caching_with_lifetime() {
    check_kms_client_caching(Some(Duration::from_secs(6000)));
}

#[test]
fn test_kms_client_caching_no_lifetime() {
    check_kms_client_caching(None);
}

fn check_kms_client_caching(cache_lifetime: Option<Duration>) {
    let mut kms_config = KmsConnectionConfig::default();
    let config = DecryptionConfiguration::builder()
        .set_cache_lifetime(cache_lifetime)
        .build();

    let kms_factory = TestKmsClientFactory::with_default_keys();
    let mut crypto_factory = CryptoFactory::new(kms_factory.clone());
    let mut decryption_props = crypto_factory
        .file_decryption_properties(&kms_config, config, secs(0))
        .unwrap();

    let dek = "1234567890123450".as_bytes().to_vec();
    let wrapped_key = demo_client().wrap_key(&dek, "kc1").unwrap();

    let footer_key_material =
        KeyMaterialBuilder::for_footer_key("123".to_owned(), "https://example.com".to_owned())
            .with_single_wrapped_key("kc1".to_owned(), wrapped_key.clone())
            .build()
            .unwrap();
    let serialized_footer_key_material = footer_key_material.serialize().unwrap();

    let key_material = KeyMaterialBuilder::for_column_key()
        .with_single_wrapped_key("kc1".to_owned(), wrapped_key)
        .build()
        .unwrap();
    let serialized_key_material = key_material.serialize().unwrap();

    // Default config with ID and URL set from the footer key material
    let default_config = KmsConnectionConfigDetails {
        kms_instance_id: "123".to_string(),
        kms_instance_url: "https://example.com".to_string(),
        key_access_token: "DEFAULT".to_string(),
        custom_kms_conf: Default::default(),
    };

    // Expected config after the access token refresh
    let refreshed_config = KmsConnectionConfigDetails {
        kms_instance_id: "123".to_string(),
        kms_instance_url: "https://example.com".to_string(),
        key_access_token: "super_secret".to_string(),
        custom_kms_conf: Default::default(),
    };

    assert_eq!(0, kms_factory.invocations().len());

    crypto_factory
        .retrieve_key(&mut decryption_props, &kms_config, serialized_footer_key_material.as_bytes(), secs(0))
        .unwrap();
    assert_eq!(vec![default_config.clone()], kms_factory.invocations());

    crypto_factory
        .retrieve_key(&mut decryption_props, &kms_config, serialized_key_material.as_bytes(), secs(0))
        .unwrap();
    // Same client should have been reused
    assert_eq!(vec![default_config.clone()], kms_factory.invocations());

    kms_config.refresh_key_access_token("super_secret".to_owned());

    crypto_factory
        .retrieve_key(&mut decryption_props, &kms_config, serialized_key_material.as_bytes(), secs(0))
        .unwrap();
    // New key access token should have been used
    assert_eq!(
        vec![default_config.clone(), refreshed_config.clone()],
        kms_factory.invocations()
    );

    crypto_factory
        .retrieve_key(&mut decryption_props, &kms_config, serialized_key_material.as_bytes(), secs(0))
        .unwrap();
    assert_eq!(
        vec![default_config, refreshed_config],
        kms_factory.invocations()
    );
}

#[test]
fn test_kms_client_expiration() {
    let kms_config = KmsConnectionConfig::default();
    let config = DecryptionConfiguration::builder()
        .set_cache_lifetime(Some(Duration::from_secs(600)))
        .build();

    let kms_factory = TestKmsClientFactory::with_default_keys();
    let mut crypto_factory = CryptoFactory::new(kms_factory.clone());
    let mut decryption_props = crypto_factory
        .file_decryption_properties(&kms_config, config, secs(0))
        .unwrap();

    let dek = "1234567890123450".as_bytes().to_vec();
    let wrapped_key = demo_client().wrap_key(&dek, "kc1").unwrap();
    let key_material = KeyMaterialBuilder::for_column_key()
        .with_single_wrapped_key("kc1".to_owned(), wrapped_key)
        .build()
        .unwrap();
    let serialized_key_material = key_material.serialize().unwrap();

    assert_eq!(0, kms_factory.invocations().len());

    let mut do_key_retrieval = |now: Duration| {
        crypto_factory
            .retrieve_key(&mut decryption_props, &kms_config, serialized_key_material.as_bytes(), now)
            .unwrap();
        crypto_factory.cache_stats().num_kms_clients
    };

    assert_eq!(1, do_key_retrieval(secs(0)));
    assert_eq!(1, kms_factory.invocations().len());

    assert_eq!(1, do_key_retrieval(secs(599)));
    assert_eq!(1, kms_factory.invocations().len());

    // The old KMS client is expired so has been removed from the cache
    assert_eq!(1, do_key_retrieval(secs(600)));
    assert_eq!(2, kms_factory.invocations().len());

    assert_eq!(1, do_key_retrieval(secs(1199)));
    assert_eq!(2, kms_factory.invocations().len());

    assert_eq!(1, do_key_retrieval(secs(1200)));
    assert_eq!(3, kms_factory.invocations().len());
}

#[test]
fn test_uniform_encryption_properties() {
    let encryption_config = EncryptionConfigurationBuilder::new("kf".to_owned())
        .set_double_wrapping(true)
        .build()
        .unwrap();

    let mut crypto_factory = CryptoFactory::new(TestKmsClientFactory::with_default_keys());

    let file_encryption_properties = crypto_factory
        .file_encryption_properties(&KmsConnectionConfig::default(), &encryption_config, secs(0))
        .unwrap();

    let (column_names, column_keys, _) = file_encryption_properties.column_keys();
    assert!(column_names.is_empty());
    assert!(column_keys.is_empty());
}

#[test]
fn test_round_trip_double_wrapping_properties() {
    round_trip_encryption_properties(true);
}

#[test]
fn test_round_trip_single_wrapping_properties() {
    round_trip_encryption_properties(false);
}

fn round_trip_encryption_properties(double_wrapping: bool) {
    let kms_config = KmsConnectionConfig::builder()
        .set_kms_instance_id("DEFAULT".to_owned())
        .build();
    let encryption_config = EncryptionConfigurationBuilder::new("kf".to_owned())
        .set_double_wrapping(double_wrapping)
        .add_column_key("kc1".to_owned(), vec!["x0".to_owned(), "x1".to_owned()])
        .add_column_key("kc2".to_owned(), vec!["x2".to_owned(), "x3".to_owned()])
        .build()
        .unwrap();

    let kms_factory = TestKmsClientFactory::with_default_keys();
    let mut crypto_factory = CryptoFactory::new(kms_factory.clone());

    let file_encryption_properties = crypto_factory
        .file_encryption_properties(&kms_config, &encryption_config, secs(0))
        .unwrap();

    let mut decryption_properties = crypto_factory
        .file_decryption_properties(&kms_config, Default::default(), secs(0))
        .unwrap();

    assert!(file_encryption_properties.encrypt_footer());
    assert!(file_encryption_properties.aad_prefix().is_none());
    assert_eq!(16, file_encryption_properties.footer_key().len());

    let retrieved_footer_key = crypto_factory
        .retrieve_key(
            &mut decryption_properties,
            &kms_config,
            file_encryption_properties.footer_key_metadata().unwrap(),
            secs(0),
        )
        .unwrap();
    assert_eq!(file_encryption_properties.footer_key(), &retrieved_footer_key);

    let (column_names, column_keys, key_metadata) = file_encryption_properties.column_keys();
    let mut all_columns: Vec<String> = column_names.clone();
    all_columns.sort();
    assert_eq!(vec!["x0", "x1", "x2", "x3"], all_columns);
    for col_idx in 0..column_keys.len() {
        let column_key = &column_keys[col_idx];
        let key_metadata = &key_metadata[col_idx];

        assert_eq!(16, column_key.len());
        let retrieved_key = crypto_factory
            .retrieve_key(&mut decryption_properties, &kms_config, key_metadata, secs(0))
            .unwrap();
        assert_eq!(column_key, &retrieved_key);
    }

    assert_eq!(1, kms_factory.invocations().len());
    if double_wrapping {
        // With double wrapping, only need to wrap one KEK per master key id used
        assert_eq!(3, kms_factory.keys_wrapped());
        assert_eq!(3, kms_factory.keys_unwrapped());
    } else {
        // With single wrapping, need to wrap the footer key and a DEK per column
        assert_eq!(5, kms_factory.keys_wrapped());
        assert_eq!(5, kms_factory.keys_unwrapped());
    }
}

/// Test caching of key encryption keys when decrypting files
#[test]
fn test_decryption_key_encryption_key_caching() {
    let mut kms_config = KmsConnectionConfig::default();
    let encryption_config = EncryptionConfigurationBuilder::new("kf".to_owned())
        .set_double_wrapping(true)
        .add_column_key("kc1".to_owned(), vec!["x0".to_owned(), "x1".to_owned()])
        .add_column_key("kc2".to_owned(), vec!["x2".to_owned(), "x3".to_owned()])
        .build()
        .unwrap();

    let kms_factory = TestKmsClientFactory::with_default_keys();
    let mut crypto_factory = CryptoFactory::new(kms_factory.clone());
    let mut now = secs(0);

    let file_encryption_properties = crypto_factory
        .file_encryption_properties(&kms_config, &encryption_config, now)
        .unwrap();

    let footer_key_metadata = file_encryption_properties
        .footer_key_metadata()
        .cloned()
        .unwrap();

    // Key-encryption keys are cached for the lifetime of file decryption properties,
    // and when creating new file decryption properties, a previous key-encryption key cache
    // may be reused if the cache lifetime hasn't expired and the KMS access token is the same.

    fn get_new_decryption_properties(
        crypto_factory: &mut CryptoFactory<TestKmsClientFactory>,
        kms_config: &KmsConnectionConfig,
        now: Duration,
    ) -> KeyUnwrapper {
        let decryption_config = DecryptionConfiguration::builder()
            .set_cache_lifetime(Some(Duration::from_secs(600)))
            .build();
        crypto_factory
            .file_decryption_properties(kms_config, decryption_config, now)
            .unwrap()
    }

    let retrieve_key = |crypto_factory: &mut CryptoFactory<TestKmsClientFactory>,
                        props: &mut KeyUnwrapper,
                        kms_config: &KmsConnectionConfig,
                        now: Duration| {
        crypto_factory
            .retrieve_key(props, kms_config, &footer_key_metadata, now)
            .unwrap();
    };

    assert_eq!(0, kms_factory.keys_unwrapped());

    {
        let mut props = get_new_decryption_properties(&mut crypto_factory, &kms_config, now);
        retrieve_key(&mut crypto_factory, &mut props, &kms_config, now);
        now += secs(599);
        retrieve_key(&mut crypto_factory, &mut props, &kms_config, now);
        assert_eq!(1, kms_factory.keys_unwrapped());
        assert_eq!(1, crypto_factory.cache_stats().num_kek_read_caches);
        crypto_factory.close(props);
    }
    {
        let mut props = get_new_decryption_properties(&mut crypto_factory, &kms_config, now);
        retrieve_key(&mut crypto_factory, &mut props, &kms_config, now);
        assert_eq!(1, kms_factory.keys_unwrapped());
        now += secs(1);
        retrieve_key(&mut crypto_factory, &mut props, &kms_config, now);
        // Cache lifetime has expired but the key unwrapper still holds the
        // key encryption key cache.
        assert_eq!(1, kms_factory.keys_unwrapped());
        assert_eq!(1, crypto_factory.cache_stats().num_kek_read_caches);
        crypto_factory.close(props);
    }
    {
        let mut props = get_new_decryption_properties(&mut crypto_factory, &kms_config, now);
        retrieve_key(&mut crypto_factory, &mut props, &kms_config, now);
        // Newly created decryption properties use a new key encryption key cache
        assert_eq!(2, kms_factory.keys_unwrapped());
        // Old KEKs have been removed from the cache
        assert_eq!(1, crypto_factory.cache_stats().num_kek_read_caches);
        crypto_factory.close(props);
    }
    {
        now += secs(599);
        // Creating new decryption properties should re-use the more recent cache
        let mut props1 = get_new_decryption_properties(&mut crypto_factory, &kms_config, now);
        retrieve_key(&mut crypto_factory, &mut props1, &kms_config, now);
        assert_eq!(2, kms_factory.keys_unwrapped());
        assert_eq!(1, crypto_factory.cache_stats().num_kek_read_caches);

        kms_config.refresh_key_access_token("new_secret".to_owned());
        // Creating decryption properties with a different access key should require
        // creating a new key encryption key cache.
        let mut props2 = get_new_decryption_properties(&mut crypto_factory, &kms_config, now);
        retrieve_key(&mut crypto_factory, &mut props2, &kms_config, now);
        assert_eq!(3, kms_factory.keys_unwrapped());
        // KEKs for old access token are still cached as they haven't expired
        assert_eq!(2, crypto_factory.cache_stats().num_kek_read_caches);

        // But the cache used by older file encryption properties is still usable.
        retrieve_key(&mut crypto_factory, &mut props1, &kms_config, now);
        assert_eq!(3, kms_factory.keys_unwrapped());
    }
}

/// Test caching of key encryption keys when encrypting files
#[test]
fn test_encryption_key_encryption_key_caching() {
    let mut kms_config = KmsConnectionConfig::default();
    let encryption_config = EncryptionConfigurationBuilder::new("kf".to_owned())
        .set_double_wrapping(true)
        .add_column_key("kc1".to_owned(), vec!["x0".to_owned(), "x1".to_owned()])
        .add_column_key("kc2".to_owned(), vec!["x2".to_owned(), "x3".to_owned()])
        .set_cache_lifetime(Some(Duration::from_secs(600)))
        .build()
        .unwrap();

    let kms_factory = TestKmsClientFactory::with_default_keys();
    let mut crypto_factory = CryptoFactory::new(kms_factory.clone());
    let mut now = secs(0);

    let mut generate_encryption_props = |kms_config: &KmsConnectionConfig, now: Duration| {
        let _ = crypto_factory
            .file_encryption_properties(kms_config, &encryption_config, now)
            .unwrap();
        crypto_factory.cache_stats().num_kek_write_caches
    };

    assert_eq!(0, kms_factory.keys_wrapped());

    assert_eq!(1, generate_encryption_props(&kms_config, now));
    // We generate 1 KEK for each master key used and wrap it with the KMS
    assert_eq!(3, kms_factory.keys_wrapped());

    now += secs(599);
    assert_eq!(1, generate_encryption_props(&kms_config, now));
    // KEK cache hasn't yet expired, we reused it to generate new props
    assert_eq!(3, kms_factory.keys_wrapped());

    now += secs(1);
    // Old KEKs have been removed from the cache
    assert_eq!(1, generate_encryption_props(&kms_config, now));
    // The KEK cache has now expired, so we generated 3 new KEKs and wrapped them with the KMS
    assert_eq!(6, kms_factory.keys_wrapped());

    // Refreshing the access token should invalidate the KEK write cache,
    // requiring us to again generate new KEKs and wrap them with the KMS
    kms_config.refresh_key_access_token("new_secret".to_owned());
    // KEKs for old access token are still cached as they haven't expired
    assert_eq!(2, generate_encryption_props(&kms_config, now));
    assert_eq!(9, kms_factory.keys_wrapped());

    now += secs(599);
    // The KEK cache for the refreshed token is still valid, no new KEKs were generated
    assert_eq!(2, generate_encryption_props(&kms_config, now));
    assert_eq!(9, kms_factory.keys_wrapped());
}

#[test]
fn test_get_kms_client_using_provided_config() {
    // Connection configuration options provided at read time should take precedence over
    // the KMS URL and ID in the footer key material.
    let decryption_kms_config = KmsConnectionConfig::builder()
        .set_kms_instance_id("456".to_owned())
        .set_kms_instance_url("https://example.com/kms2/".to_owned())
        .set_key_access_token("secret_2".to_owned())
        .set_custom_kms_conf_option("test_key".to_owned(), "test_value_2".to_owned())
        .build();

    let details = get_kms_connection_config_for_decryption(decryption_kms_config);

    assert_eq!(details.kms_instance_id, "456");
    assert_eq!(details.kms_instance_url, "https://example.com/kms2/");
    assert_eq!(details.key_access_token, "secret_2");
    let expected_conf = HashMap::from([("test_key".to_owned(), "test_value_2".to_owned())]);
    assert_eq!(details.custom_kms_conf, expected_conf);
}

#[test]
fn test_get_kms_client_using_config_from_file() {
    // When KMS config doesn't have the instance ID and URL,
    // they should be retrieved from the file metadata.
    // Other properties like the access key and custom configuration can only be provided
    // at decryption time.
    let decryption_kms_config = KmsConnectionConfig::builder()
        .set_key_access_token("secret_2".to_owned())
        .set_custom_kms_conf_option("test_key".to_owned(), "test_value_2".to_owned())
        .build();

    let details = get_kms_connection_config_for_decryption(decryption_kms_config);

    assert_eq!(details.kms_instance_id, "123");
    assert_eq!(details.kms_instance_url, "https://example.com/kms1/");
    assert_eq!(details.key_access_token, "secret_2");
    let expected_conf = HashMap::from([("test_key".to_owned(), "test_value_2".to_owned())]);
    assert_eq!(details.custom_kms_conf, expected_conf);
}

fn get_kms_connection_config_for_decryption(
    decryption_kms_config: KmsConnectionConfig,
) -> KmsConnectionConfigDetails {
    let encryption_kms_config = KmsConnectionConfig::builder()
        .set_kms_instance_id("123".to_owned())
        .set_kms_instance_url("https://example.com/kms1/".to_owned())
        .set_key_access_token("secret_1".to_owned())
        .set_custom_kms_conf_option("test_key".to_owned(), "test_value_1".to_owned())
        .build();

    let encryption_config = EncryptionConfigurationBuilder::new("kf".to_owned())
        .set_double_wrapping(true)
        .build()
        .unwrap();

    let file_encryption_properties = {
        let mut crypto_factory = CryptoFactory::new(TestKmsClientFactory::with_default_keys());

        crypto_factory
            .file_encryption_properties(&encryption_kms_config, &encryption_config, secs(0))
            .unwrap()
    };

    let kms_factory = TestKmsClientFactory::with_default_keys();
    let mut crypto_factory = CryptoFactory::new(kms_factory.clone());

    let mut decryption_properties = crypto_factory
        .file_decryption_properties(&decryption_kms_config, Default::default(), secs(0))
        .unwrap();

    let _ = crypto_factory
        .retrieve_key(
            &mut decryption_properties,
            &decryption_kms_config,
            file_encryption_properties.footer_key_metadata().unwrap(),
            secs(0),
        )
        .unwrap();

    let mut invocations = kms_factory.invocations();
    assert_eq!(invocations.len(), 1);
    invocations.pop().unwrap()
}

#[test]
fn footer_key_material_has_default_location() {
    let mut crypto_factory = CryptoFactory::new(TestKmsClientFactory::with_default_keys());
    let encryption_config = EncryptionConfigurationBuilder::new("kf".to_owned())
        .add_column_key("kc1".to_owned(), vec!["x".to_owned()])
        .build()
        .unwrap();
    let properties = crypto_factory
        .file_encryption_properties(&KmsConnectionConfig::default(), &encryption_config, secs(0))
        .unwrap();
    let text = std::str::from_utf8(properties.footer_key_metadata().unwrap()).unwrap();
    let material = KeyMaterial::deserialize(text).unwrap();
    assert!(material.is_footer_key);
    assert!(material.internal_storage);
    assert_eq!(material.kms_instance_id, Some("DEFAULT".to_owned()));
    assert_eq!(material.kms_instance_url, Some("DEFAULT".to_owned()));
    assert_eq!(material.master_key_id, "kf");
    let (_, _, metadata) = properties.column_keys();
    let text = std::str::from_utf8(&metadata[0]).unwrap();
    let material = KeyMaterial::deserialize(text).unwrap();
    assert!(!material.is_footer_key);
    assert_eq!(material.kms_instance_id, None);
    assert_eq!(material.master_key_id, "kc1");
    assert_eq!(material.key_encryption_key_id.unwrap().len(), 24);
}

#[test]
fn failures_of_the_kms_are_reported() {
    let kms_factory = TestKmsClientFactory::with_default_keys();
    kms_factory.counts.lock().unwrap().refuse_clients = true;
    let mut crypto_factory = CryptoFactory::new(kms_factory.clone());
    let no_client = Error::General("No client".to_owned());
    for double_wrapping in [true, false] {
        let encryption_config = EncryptionConfigurationBuilder::new("kf".to_owned())
            .set_double_wrapping(double_wrapping)
            .build()
            .unwrap();
        let error = crypto_factory
            .file_encryption_properties(&KmsConnectionConfig::default(), &encryption_config, secs(0))
            .unwrap_err();
        assert_eq!(error, no_client);
    }
    let mut props = crypto_factory
        .file_decryption_properties(&KmsConnectionConfig::default(), Default::default(), secs(0))
        .unwrap();
    let single = KeyMaterialBuilder::for_column_key()
        .with_single_wrapped_key("kc1".to_owned(), "".to_owned())
        .build()
        .unwrap()
        .serialize()
        .unwrap();
    let double = KeyMaterialBuilder::for_column_key()
        .with_double_wrapped_key("kc1".to_owned(), "".to_owned(), "".to_owned(), "".to_owned())
        .build()
        .unwrap()
        .serialize()
        .unwrap();
    for metadata in [&single, &double] {
        let error = crypto_factory
            .retrieve_key(&mut props, &KmsConnectionConfig::default(), metadata.as_bytes(), secs(0))
            .unwrap_err();
        assert_eq!(error, no_client);
    }
    kms_factory.counts.lock().unwrap().refuse_clients = false;
    for metadata in [&single, &double] {
        let error = crypto_factory
            .retrieve_key(&mut props, &KmsConnectionConfig::default(), metadata.as_bytes(), secs(0))
            .unwrap_err();
        assert_eq!(
            error,
            Error::General("Wrapped key is too short to contain a nonce".to_owned())
        );
    }
    assert_eq!(crypto_factory.cache_stats().num_kms_clients, 1);
}

#[test]
fn unusable_metadata_is_reported() {
    let mut crypto_factory = CryptoFactory::new(TestKmsClientFactory::with_default_keys());
    let mut props = crypto_factory
        .file_decryption_properties(&KmsConnectionConfig::default(), Default::default(), secs(0))
        .unwrap();
    let mut retrieve = |metadata: &[u8]| {
        crypto_factory
            .retrieve_key(&mut props, &KmsConnectionConfig::default(), metadata, secs(0))
            .unwrap_err()
    };
    assert_eq!(
        retrieve(&[0xff, 0x41]),
        Error::External("invalid utf-8 sequence of 1 bytes from index 0".to_owned())
    );
    assert!(retrieve(b"kf")
        .to_string()
        .ends_with(". Perhaps this file was encrypted without using a KMS"));
    assert_eq!(
        retrieve(br#"{"keyMaterialType":"PKMT1","internalStorage":false,"isFooterKey":false,"masterKeyID":"k","wrappedDEK":"w","doubleWrapping":false}"#),
        Error::Nyi("Decryption using external key material is not yet implemented".to_owned())
    );
    assert_eq!(
        retrieve(br#"{"keyMaterialType":"PKMT1","internalStorage":true,"isFooterKey":false,"masterKeyID":"k","wrappedDEK":"w","doubleWrapping":true,"keyEncryptionKeyID":"a"}"#),
        Error::General("Key uses double wrapping but key encryption key is not set".to_owned())
    );
    assert_eq!(
        retrieve(br#"{"keyMaterialType":"PKMT1","internalStorage":true,"isFooterKey":true,"kmsInstanceID":"","kmsInstanceURL":"u","masterKeyID":"k","wrappedDEK":"w","doubleWrapping":false}"#),
        Error::General(
            "KMS instance ID not set in connection configuration or footer key metadata".to_owned()
        )
    );
    assert_eq!(
        retrieve(br#"{"keyMaterialType":"PKMT1","internalStorage":true,"isFooterKey":true,"kmsInstanceID":"i","kmsInstanceURL":"","masterKeyID":"k","wrappedDEK":"w","doubleWrapping":false}"#),
        Error::General(
            "KMS instance URL not set in connection configuration or footer key metadata".to_owned()
        )
    );
    // The instance ID has been taken from the metadata all the same
    assert_eq!(props.kms_connection_config().kms_instance_id(), "i");
    assert_eq!(props.kms_connection_config().kms_instance_url(), "");
}

#[test]
fn undecodable_kek_identifier_is_reported_after_the_kek_was_unwrapped() {
    let kms_factory = TestKmsClientFactory::with_default_keys();
    let mut crypto_factory = CryptoFactory::new(kms_factory.clone());
    let mut props = crypto_factory
        .file_decryption_properties(&KmsConnectionConfig::default(), Default::default(), secs(0))
        .unwrap();
    let wrapped_kek = demo_client().wrap_key(b"0123456789abcdef", "kc1").unwrap();
    let metadata = KeyMaterialBuilder::for_column_key()
        .with_double_wrapped_key("kc1".to_owned(), "!".to_owned(), wrapped_kek, "".to_owned())
        .build()
        .unwrap()
        .serialize()
        .unwrap();
    for _ in 0..2 {
        let error = crypto_factory
            .retrieve_key(&mut props, &KmsConnectionConfig::default(), metadata.as_bytes(), secs(0))
            .unwrap_err();
        assert!(error
            .to_string()
            .starts_with("Parquet error: Could not base64 decode key encryption key id: Invalid"));
    }
    assert_eq!(kms_factory.keys_unwrapped(), 1);
}

#[test]
fn closed_and_expired_caches_are_dropped() {
    let mut crypto_factory = CryptoFactory::new(TestKmsClientFactory::with_default_keys());
    let lifetime = DecryptionConfiguration::builder()
        .set_cache_lifetime(Some(secs(10)))
        .build();
    let config = KmsConnectionConfig::default();
    let first = crypto_factory
        .file_decryption_properties(&config, lifetime.clone(), secs(0))
        .unwrap();
    assert_eq!(crypto_factory.cache_stats().num_kek_read_caches, 1);
    let other = KmsConnectionConfig::builder()
        .set_key_access_token("other".to_owned())
        .build();
    let second = crypto_factory
        .file_decryption_properties(&other, lifetime.clone(), secs(9))
        .unwrap();
    assert_eq!(crypto_factory.cache_stats().num_kek_read_caches, 2);
    let third = crypto_factory
        .file_decryption_properties(&other, lifetime, secs(10))
        .unwrap();
    assert_eq!(crypto_factory.cache_stats().num_kek_read_caches, 1);
    crypto_factory.close(first);
    crypto_factory.close(second);
    crypto_factory.close(third);
    assert_eq!(crypto_factory.cache_stats().num_kek_read_caches, 1);
}

#[test]
fn encryption_key_keeps_its_parts() {
    let key = EncryptionKey::new(vec![1, 2], vec![3]);
    assert_eq!(key.key, vec![1, 2]);
    assert_eq!(key.metadata, vec![3]);
}
