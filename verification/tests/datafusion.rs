use datafusion_common::config::ConfigEntry;
use datafusion_common::config::ExtensionOptions;
use datafusion_common::config::ParquetEncryptionOptions;
use datafusion_common::DataFusionError;
use parquet_key_management::column_key_text::deserialize_column_keys;
use parquet_key_management::column_key_text::serialize_column_keys;
use parquet_key_management::column_keys::ColumnKeys;
use parquet_key_management::config::DecryptionConfiguration;
use parquet_key_management::config::EncryptionConfiguration;
use parquet_key_management::crypto_factory::CryptoFactory;
use parquet_key_management::datafusion::build_decryption_configuration;
use parquet_key_management::datafusion::build_encryption_configuration;
use parquet_key_management::datafusion::EncryptionOptions;
use parquet_key_management::datafusion::KmsEncryptionFactory;
use parquet_key_management::datafusion::KmsEncryptionFactoryOptions;
use parquet_key_management::demo_kms::DemoKmsClientFactory;
use parquet_key_management::error::Error;
use parquet_key_management::kms::KmsConnectionConfig;
use std::any::Any;
use std::time::Duration;

/// The options in the form in which DataFusion stores them.
#[derive(Clone, Debug, Default, PartialEq)]
struct StoredOptions(KmsEncryptionFactoryOptions);

impl ExtensionOptions for StoredOptions {
    fn as_any(&self) -> &dyn Any {
        self
    }

    fn as_any_mut(&mut self) -> &mut dyn Any {
        self
    }

    fn cloned(&self) -> Box<dyn ExtensionOptions> {
        Box::new(self.clone())
    }

    fn set(&mut self, key: &str, value: &str) -> datafusion_common::Result<()> {
        self.0
            .set(key, value)
            .map_err(|e| DataFusionError::Configuration(e.to_string()))
    }

    fn entries(&self) -> Vec<ConfigEntry> {
        self.0
            .entries()
            .into_iter()
            .map(|entry| ConfigEntry {
                key: entry.key,
                value: entry.value,
                description: entry.description,
            })
            .collect()
    }
}

fn pairs(list: &[(&str, &str)]) -> Vec<(String, String)> {
    list.iter()
        .map(|(key, value)| (key.to_string(), value.to_string()))
        .collect()
}

#[test]
fn round_trip_column_key_ids() {
    let mut column_key_ids = ColumnKeys::new();
    column_key_ids.insert("kc1".into(), vec!["x0".into(), "x2".into()]);
    column_key_ids.insert("kc2".into(), vec![]);
    column_key_ids.insert("kc3".into(), vec!["x3".into()]);

    let serialized = serialize_column_keys(&column_key_ids);

    let deserialized = deserialize_column_keys(&serialized).unwrap();

    assert_eq!(column_key_ids, deserialized);
}

#[test]
fn round_trip_empty_column_key_ids() {
    let column_key_ids = ColumnKeys::new();

    let serialized = serialize_column_keys(&column_key_ids);

    let deserialized = deserialize_column_keys(&serialized).unwrap();

    assert_eq!(deserialized.len(), 0);
}

#[test]
fn default_encryption_options_to_config() {
    let options = KmsEncryptionFactoryOptions::default();
    let encryption_config: EncryptionConfiguration = options.encryption.try_into().unwrap();

    assert_eq!(encryption_config.footer_key_id(), "");
    assert!(encryption_config.column_key_ids().is_empty());
    assert!(encryption_config.double_wrapping());
    assert!(encryption_config.internal_key_material());
    assert!(!encryption_config.plaintext_footer());
    assert_eq!(encryption_config.data_key_length_bits(), 128);
    assert_eq!(encryption_config.cache_lifetime(), None);
}

#[test]
fn default_decryption_options_to_config() {
    let options = KmsEncryptionFactoryOptions::default();

    let decryption_config: DecryptionConfiguration = options.decryption.try_into().unwrap();
    assert_eq!(decryption_config.cache_lifetime(), None);
}

#[test]
fn round_trip_default_options_through_factory_options() {
    let options = StoredOptions::default();
    let mut crypto_options = ParquetEncryptionOptions::default();
    crypto_options.configure_factory("test_factory", &options);
    let options_out: StoredOptions = crypto_options
        .factory_options
        .to_extension_options()
        .unwrap();
    assert_eq!(options, options_out);
}

#[test]
fn round_trip_built_config_through_factory_options() {
    let encryption_config = EncryptionConfiguration::builder("kf".to_owned())
        .add_column_key("kc1".to_owned(), vec!["x0".to_owned(), "x1".to_owned()])
        .set_cache_lifetime(Some(Duration::from_secs(300)))
        .set_plaintext_footer(true)
        .set_double_wrapping(false)
        .build()
        .unwrap();
    let decryption_config = DecryptionConfiguration::builder()
        .set_cache_lifetime(Some(Duration::from_secs(120)))
        .build();
    let options = StoredOptions(KmsEncryptionFactoryOptions::new(
        encryption_config,
        decryption_config,
    ));

    let mut crypto_options = ParquetEncryptionOptions::default();
    crypto_options.configure_factory("test_factory", &options);
    let options_out: StoredOptions = crypto_options
        .factory_options
        .to_extension_options()
        .unwrap();
    assert_eq!(options, options_out);

    let encryption_config_out: EncryptionConfiguration = options.0.encryption.try_into().unwrap();

    assert_eq!(encryption_config_out.footer_key_id(), "kf");
    assert_eq!(encryption_config_out.column_key_ids().len(), 1);
    assert_eq!(
        encryption_config_out.column_key_ids().get("kc1"),
        Some(&vec!["x0".to_owned(), "x1".to_owned()])
    );
    assert!(!encryption_config_out.double_wrapping());
    assert!(encryption_config_out.internal_key_material());
    assert!(encryption_config_out.plaintext_footer());
    assert_eq!(encryption_config_out.data_key_length_bits(), 128);
    assert_eq!(
        encryption_config_out.cache_lifetime(),
        Some(Duration::from_secs(300))
    );

    let decryption_config_out: DecryptionConfiguration = options.0.decryption.try_into().unwrap();

    assert_eq!(
        decryption_config_out.cache_lifetime(),
        Some(Duration::from_secs(120))
    );
}

#[test]
fn column_keys_have_an_exact_text() {
    let mut keys = ColumnKeys::new();
    keys.insert("kc1".into(), vec!["x0".into(), "x2".into()]);
    keys.insert("kc2".into(), vec![]);
    keys.insert("kc3".into(), vec!["x3".into()]);
    assert_eq!(serialize_column_keys(&keys), "kc1:x0,x2;kc2:;kc3:x3");
}

#[test]
fn column_keys_are_read_leniently() {
    let keys = deserialize_column_keys(";kc1:a,,b;;kc2:c:d;kc1:e,").unwrap();
    assert_eq!(keys.len(), 2);
    assert_eq!(keys.get("kc1"), Some(&vec!["e".to_owned()]));
    assert_eq!(keys.get("kc2"), Some(&vec!["c:d".to_owned()]));
}

#[test]
fn column_keys_need_an_identifier() {
    assert_eq!(
        deserialize_column_keys("kc1:a;b").unwrap_err(),
        Error::Configuration(
            "Invalid column_key_ids format in encryption configuration: 'kc1:a;b'".to_owned()
        )
    );
}

#[test]
fn entries_list_decryption_first() {
    let mut options = KmsEncryptionFactoryOptions::default();
    options.encryption.cache_lifetime_s = Some(30);
    let entries = options.entries();
    let listed: Vec<(String, Option<String>)> = entries
        .iter()
        .map(|entry| (entry.key.clone(), entry.value.clone()))
        .collect();
    let text = |s: &str| Some(s.to_owned());
    assert_eq!(
        listed,
        vec![
            ("decryption.cache_lifetime_s".to_owned(), None),
            ("encryption.footer_key_id".to_owned(), text("")),
            ("encryption.column_key_ids".to_owned(), text("")),
            ("encryption.plaintext_footer".to_owned(), text("false")),
            ("encryption.double_wrapping".to_owned(), text("true")),
            ("encryption.cache_lifetime_s".to_owned(), text("30")),
            ("encryption.internal_key_material".to_owned(), text("true")),
            ("encryption.data_key_length_bits".to_owned(), text("128")),
        ]
    );
    assert_eq!(
        entries[2].description,
        "List of master key ids and the columns to be encrypted with each key, formatted like \"columnKeyId1:column1,column2;columnKeyId2:column3\""
    );
    assert_eq!(options.encryption.entries()[0].key, "footer_key_id");
    assert_eq!(options.decryption.entries()[0].key, "cache_lifetime_s");
}

#[test]
fn options_are_set_by_key() {
    let mut options = KmsEncryptionFactoryOptions::default();
    options.set("encryption.footer_key_id", "kf").unwrap();
    options.set("encryption.column_key_ids", "kc1:x").unwrap();
    options.set("encryption.plaintext_footer", "TRUE").unwrap();
    options.set("encryption.double_wrapping", "False").unwrap();
    options.set("encryption.cache_lifetime_s", "+60").unwrap();
    options.set("encryption.internal_key_material", "false").unwrap();
    options.set("encryption.data_key_length_bits", "256").unwrap();
    options.set("decryption.cache_lifetime_s.ignored", "5").unwrap();
    assert_eq!(options.encryption.footer_key_id, "kf");
    assert_eq!(options.encryption.column_key_ids, "kc1:x");
    assert!(options.encryption.plaintext_footer);
    assert!(!options.encryption.double_wrapping);
    assert_eq!(options.encryption.cache_lifetime_s, Some(60));
    assert!(!options.encryption.internal_key_material);
    assert_eq!(options.encryption.data_key_length_bits, 256);
    assert_eq!(options.decryption.cache_lifetime_s, Some(5));
}

#[test]
fn unknown_options_are_rejected() {
    let mut options = KmsEncryptionFactoryOptions::default();
    assert_eq!(
        options.set("footer_key_id", "kf").unwrap_err(),
        Error::Configuration(
            "Invalid configuration key for KMS encryption: footer_key_id".to_owned()
        )
    );
    assert_eq!(
        options.set("other.footer_key_id", "kf").unwrap_err(),
        Error::Configuration("Invalid configuration key for KMS encryption: other".to_owned())
    );
    assert_eq!(
        options.set("encryption.other.x", "kf").unwrap_err(),
        Error::Configuration("Config value \"other\" not found on EncryptionOptions".to_owned())
    );
    assert_eq!(
        options.set("decryption.other", "kf").unwrap_err(),
        Error::Configuration("Config value \"other\" not found on DecryptionOptions".to_owned())
    );
    assert_eq!(options, KmsEncryptionFactoryOptions::default());
}

#[test]
fn invalid_values_are_rejected() {
    let mut options = KmsEncryptionFactoryOptions::default();
    let error = options.set("encryption.plaintext_footer", "yes").unwrap_err();
    assert!(matches!(error, Error::InvalidValue(_)));
    assert!(error.to_string().contains("Error parsing 'yes' as bool"));
    let error = options
        .set("encryption.data_key_length_bits", "18446744073709551616")
        .unwrap_err();
    assert!(error
        .to_string()
        .contains("Error parsing '18446744073709551616' as u64"));
    assert!(options.set("encryption.data_key_length_bits", "+").is_err());
    assert!(options.set("encryption.data_key_length_bits", "").is_err());
    assert!(options.set("encryption.data_key_length_bits", "-1").is_err());
    options
        .set("encryption.data_key_length_bits", "18446744073709551615")
        .unwrap();
    assert_eq!(options.encryption.data_key_length_bits, u64::MAX);
}

#[test]
fn optional_number_counts_as_zero_once_it_was_touched() {
    let mut options = KmsEncryptionFactoryOptions::default();
    assert!(options.set("decryption.cache_lifetime_s", "soon").is_err());
    assert_eq!(options.decryption.cache_lifetime_s, Some(0));
    options.set("decryption.cache_lifetime_s", "7").unwrap();
    assert!(options.set("decryption.cache_lifetime_s", "soon").is_err());
    assert_eq!(options.decryption.cache_lifetime_s, Some(7));
}

#[test]
fn configurations_are_built_from_pairs() {
    let options = pairs(&[
        ("encryption.column_key_ids", "kc1:x;kc2:y,z"),
        ("decryption.cache_lifetime_s", "9"),
        ("encryption.footer_key_id", "kf"),
    ]);
    let config = build_encryption_configuration(&options).unwrap();
    assert_eq!(config.footer_key_id(), "kf");
    assert_eq!(
        config.column_key_ids().get("kc2"),
        Some(&vec!["y".to_owned(), "z".to_owned()])
    );
    let config = build_decryption_configuration(&options).unwrap();
    assert_eq!(config.cache_lifetime(), Some(Duration::from_secs(9)));

    let options = pairs(&[("encryption.column_key_ids", "kc1:x;kc2:x")]);
    let error = build_encryption_configuration(&options).unwrap_err();
    assert!(error.to_string().contains("'kc2' and 'kc1'"));
    assert!(build_decryption_configuration(&options).is_ok());

    let options = pairs(&[("encryption.unknown", "1"), ("alsounknown", "1")]);
    let error = build_encryption_configuration(&options).unwrap_err();
    assert!(error.to_string().contains("\"unknown\""));
    assert!(build_decryption_configuration(&options).is_err());
}

#[test]
fn lifetimes_are_stored_in_whole_seconds() {
    let config = EncryptionConfiguration::builder("kf".to_owned())
        .set_cache_lifetime(Some(Duration::from_millis(2999)))
        .build()
        .unwrap();
    let options = EncryptionOptions::from(config);
    assert_eq!(options.cache_lifetime_s, Some(2));
    assert_eq!(
        options.try_into().unwrap().cache_lifetime(),
        Some(Duration::from_secs(2))
    );
}

#[test]
fn factory_makes_properties_from_table_options() {
    let mut factory = KmsEncryptionFactory::new(
        CryptoFactory::new(DemoKmsClientFactory::with_default_keys()),
        KmsConnectionConfig::default(),
    );
    let options = pairs(&[
        ("encryption.footer_key_id", "kf"),
        ("encryption.column_key_ids", "kc1:x"),
        ("encryption.plaintext_footer", "true"),
    ]);
    let now = Duration::from_secs(0);
    let properties = factory.get_file_encryption_properties(&options, now).unwrap();
    assert!(!properties.encrypt_footer());
    assert_eq!(properties.column_keys().0, vec!["x".to_owned()]);

    let mut retriever = factory.get_file_decryption_properties(&options, now).unwrap();
    let key = factory
        .retrieve_key(&mut retriever, properties.footer_key_metadata().unwrap(), now)
        .unwrap();
    assert_eq!(&key, properties.footer_key());
    // One client for writing, and one for the instance that is stored in the file
    assert_eq!(factory.crypto_factory().cache_stats().num_kms_clients, 2);
    factory.refresh_key_access_token("refreshed".to_owned());
    let (_, keys, metadata) = properties.column_keys();
    let key = factory.retrieve_key(&mut retriever, &metadata[0], now).unwrap();
    assert_eq!(key, keys[0]);
    let config = retriever.kms_connection_config();
    assert_eq!(config.key_access_token(), "refreshed");
    assert_eq!(factory.crypto_factory().cache_stats().num_kms_clients, 3);
    factory.crypto_factory().close(retriever);

    let options = pairs(&[("encryption.footer_key_id", "unknown")]);
    let error = factory.get_file_encryption_properties(&options, now).unwrap_err();
    assert_eq!(error, Error::General("Invalid master key 'unknown'".to_owned()));
    let options = pairs(&[("nothing", "")]);
    assert!(factory.get_file_encryption_properties(&options, now).is_err());
    assert!(factory.get_file_decryption_properties(&options, now).is_err());
}

#[test]
fn options_for_what_is_not_implemented_are_refused() {
    let mut options = KmsEncryptionFactoryOptions::default();
    options.set("encryption.internal_key_material", "false").unwrap();
    let external = Error::Nyi("External key material is not yet implemented".to_owned());
    assert_eq!(options.clone().encryption.try_into().err(), Some(external.clone()));
    // Also where the column keys cannot be read
    options.set("encryption.column_key_ids", "x").unwrap();
    assert_eq!(options.encryption.try_into().err(), Some(external));

    let mut options = KmsEncryptionFactoryOptions::default();
    options.set("encryption.data_key_length_bits", "256").unwrap();
    let length = Error::Nyi("Only 128 bit data keys are currently implemented".to_owned());
    assert_eq!(options.encryption.try_into().err(), Some(length.clone()));

    let pairs = vec![("encryption.data_key_length_bits".to_owned(), "4294967424".to_owned())];
    assert_eq!(build_encryption_configuration(&pairs).err(), Some(length));
    let pairs = vec![
        ("encryption.internal_key_material".to_owned(), "true".to_owned()),
        ("encryption.data_key_length_bits".to_owned(), "128".to_owned()),
    ];
    let configuration = build_encryption_configuration(&pairs).unwrap();
    assert!(configuration.internal_key_material());
    assert_eq!(configuration.data_key_length_bits(), 128);
}
