use parquet_key_management::column_keys::ColumnKeys;
use parquet_key_management::config::DecryptionConfiguration;
use parquet_key_management::config::DecryptionConfigurationBuilder;
use parquet_key_management::config::EncryptionConfiguration;
use parquet_key_management::config::EncryptionConfigurationBuilder;
use parquet_key_management::error::Error;
use std::time::Duration;

#[test]
fn encryption_configuration_with_conflicting_column() {
    let builder = EncryptionConfigurationBuilder::new("kf".to_owned())
        .add_column_key("kc1".to_owned(), vec!["x0".to_owned(), "x1".to_owned()])
        .add_column_key("kc2".to_owned(), vec!["x2".to_owned(), "x1".to_owned()]);

    let build_result = builder.build();
    assert!(build_result.is_err());
    let error_message = build_result.unwrap_err().to_string();
    assert!(error_message.contains("Invalid encryption configuration. Column 'x1' is configured to use multiple master key ids: "));
    assert!(error_message.contains("'kc1'"));
    assert!(error_message.contains("'kc2'"));
}

#[test]
fn encryption_configuration_with_repeated_column() {
    let builder = EncryptionConfigurationBuilder::new("kf".to_owned()).add_column_key(
        "kc1".to_owned(),
        vec!["x0".to_owned(), "x1".to_owned(), "x1".to_owned()],
    );

    let build_result = builder.build();
    assert!(build_result.is_err());
    let error_message = build_result.unwrap_err().to_string();
    assert!(error_message.contains("Invalid encryption configuration. Column 'x1' is repeated multiple times for master key id 'kc1'"));
}

#[test]
fn conflicting_column_names_the_later_key_first() {
    let error = EncryptionConfigurationBuilder::new("kf".to_owned())
        .add_column_key("kc1".to_owned(), vec!["x0".to_owned(), "x1".to_owned()])
        .add_column_key("kc2".to_owned(), vec!["x2".to_owned(), "x1".to_owned()])
        .build()
        .unwrap_err();
    assert_eq!(
        error,
        Error::General(
            "Invalid encryption configuration. Column 'x1' is configured to use multiple master key ids: 'kc2' and 'kc1'"
                .to_owned()
        )
    );
    assert!(error.to_string().starts_with("Parquet error: Invalid"));
}

#[test]
fn new_builder_has_defaults() {
    let config = EncryptionConfiguration::builder("kf".to_owned()).build().unwrap();
    assert_eq!(config.footer_key_id(), "kf");
    assert!(config.column_key_ids().is_empty());
    assert!(!config.plaintext_footer());
    assert!(config.double_wrapping());
    assert_eq!(config.cache_lifetime(), Some(Duration::from_secs(600)));
    assert!(config.internal_key_material());
    assert_eq!(config.data_key_length_bits(), 128);
}

#[test]
fn builder_keeps_settings() {
    let config = EncryptionConfigurationBuilder::new("kf".to_owned())
        .set_plaintext_footer(true)
        .set_double_wrapping(false)
        .set_cache_lifetime(None)
        .build()
        .unwrap();
    assert!(config.plaintext_footer());
    assert!(!config.double_wrapping());
    assert_eq!(config.cache_lifetime(), None);
    let copy = config.clone();
    assert_eq!(copy.footer_key_id(), "kf");
    assert!(copy.plaintext_footer());
}

#[test]
fn columns_added_to_one_key_are_collected() {
    let config = EncryptionConfigurationBuilder::new("kf".to_owned())
        .add_column_key("kc1".to_owned(), vec!["x0".to_owned()])
        .add_column_key("kc2".to_owned(), vec!["x2".to_owned()])
        .add_column_key("kc1".to_owned(), vec!["x1".to_owned()])
        .build()
        .unwrap();
    let keys = config.column_key_ids();
    assert_eq!(keys.len(), 2);
    assert_eq!(keys.get("kc1"), Some(&vec!["x0".to_owned(), "x1".to_owned()]));
    assert_eq!(keys.get("kc2"), Some(&vec!["x2".to_owned()]));
    assert_eq!(keys.get("kc3"), None);
    assert_eq!(keys.entry(0).master_key_id, "kc1");
}

#[test]
fn decryption_configuration_lifetimes() {
    assert_eq!(
        DecryptionConfiguration::default().cache_lifetime(),
        Some(Duration::from_secs(600))
    );
    assert_eq!(
        DecryptionConfiguration::builder().build().cache_lifetime(),
        Some(Duration::from_secs(600))
    );
    assert_eq!(
        DecryptionConfigurationBuilder::new()
            .set_cache_lifetime(Some(Duration::from_millis(1500)))
            .build()
            .cache_lifetime(),
        Some(Duration::from_millis(1500))
    );
    assert_eq!(
        DecryptionConfigurationBuilder::default()
            .set_cache_lifetime(None)
            .build()
            .cache_lifetime(),
        None
    );
}

#[test]
fn column_keys_compare_as_maps() {
    let mut a = ColumnKeys::new();
    a.insert("kc1".to_owned(), vec!["x".to_owned()]);
    a.insert("kc2".to_owned(), vec!["y".to_owned(), "z".to_owned()]);
    let mut b = ColumnKeys::new();
    b.insert("kc2".to_owned(), vec!["q".to_owned()]);
    b.insert("kc1".to_owned(), vec!["x".to_owned()]);
    assert!(a != b);
    b.insert("kc2".to_owned(), vec!["y".to_owned(), "z".to_owned()]);
    assert!(a == b);
    assert!(a.clone() == a);
    b.insert("kc3".to_owned(), vec![]);
    assert!(a != b);
}
