use base64::prelude::BASE64_STANDARD;
use base64::Engine;
use parquet_key_management::bridge::client_response;
use parquet_key_management::bridge::next_step;
use parquet_key_management::bridge::unwrap_response;
use parquet_key_management::bridge::wrap_response;
use parquet_key_management::bridge::CreateClient;
use parquet_key_management::bridge::KmsClientCommand;
use parquet_key_management::bridge::KmsClientReply;
use parquet_key_management::bridge::TaskStep;
use parquet_key_management::crypto_factory::properties_with_keys;
use parquet_key_management::crypto_factory::EncryptionKey;
use parquet_key_management::demo_kms::DemoKmsClient;
use parquet_key_management::demo_kms::DemoKmsClientFactory;
use parquet_key_management::error::Error;
use parquet_key_management::key_encryption::decrypt_encryption_key;
use parquet_key_management::key_encryption::encrypt_encryption_key;
use parquet_key_management::key_encryption::encrypt_with_nonce;
use parquet_key_management::key_unwrapper::unwrap_with_kek;
use parquet_key_management::kms::KmsClient;
use parquet_key_management::kms::KmsClientFactory;
use parquet_key_management::kms::KmsConnectionConfig;
use std::sync::Arc;

fn demo_client() -> DemoKmsClient {
    DemoKmsClientFactory::with_default_keys()
        .create_client(&KmsConnectionConfig::default())
        .unwrap()
}

fn unspecified() -> Error {
    Error::External("ring::error::Unspecified".to_owned())
}

#[test]
fn encryption_with_a_nonce_is_aes_gcm() {
    let encrypted = encrypt_with_nonce(&[0; 12], &[0; 16], &[], &[0; 16]).unwrap();
    assert_eq!(
        encrypted,
        "AAAAAAAAAAAAAAAAA4jazmC2o5LzKMK5cbL+eKtuR9Qs7BO99TpnshJXvd8="
    );
    let encrypted = encrypt_with_nonce(&[0; 12], &[], &[], &[0; 16]).unwrap();
    assert_eq!(encrypted, "AAAAAAAAAAAAAAAAWOL8zvp+MGE2fx1XpOdFWg==");
}

#[test]
fn decryption_undoes_encryption() {
    let dek = b"data encryption key of any length";
    let kek = b"0123456789abcdef";
    let encrypted = encrypt_encryption_key(dek, b"id", kek).unwrap();
    assert_eq!(decrypt_encryption_key(&encrypted, b"id", kek).unwrap(), dek);
    assert_eq!(
        BASE64_STANDARD.decode(&encrypted).unwrap().len(),
        12 + dek.len() + 16
    );
    assert_ne!(encrypted, encrypt_encryption_key(dek, b"id", kek).unwrap());
    assert_eq!(
        decrypt_encryption_key(&encrypted, b"other id", kek).unwrap_err(),
        unspecified()
    );
    assert_eq!(
        decrypt_encryption_key(&encrypted, b"id", b"fedcba9876543210").unwrap_err(),
        unspecified()
    );
}

#[test]
fn keys_and_nonces_of_other_lengths_are_rejected() {
    assert_eq!(
        encrypt_encryption_key(b"dek", b"id", &[0; 24]).unwrap_err(),
        unspecified()
    );
    assert_eq!(
        encrypt_with_nonce(&[0; 11], b"dek", b"id", &[0; 16]).unwrap_err(),
        unspecified()
    );
    assert_eq!(
        unspecified().to_string(),
        "External: ring::error::Unspecified"
    );
}

#[test]
fn malformed_encrypted_keys_are_rejected() {
    assert_eq!(
        decrypt_encryption_key("A*==", b"id", &[0; 16]).unwrap_err(),
        Error::General(
            "Error base64 decoding wrapped key: Invalid symbol 42, offset 1.".to_owned()
        )
    );
    assert_eq!(
        decrypt_encryption_key("AAAA", b"id", &[0; 16]).unwrap_err(),
        Error::General("Wrapped key is too short to contain a nonce".to_owned())
    );
    assert_eq!(
        decrypt_encryption_key("AAAAAAAAAAAAAAAA", b"id", &[0; 16]).unwrap_err(),
        unspecified()
    );
}

#[test]
fn key_encryption_key_identifiers_are_decoded() {
    let encrypted = encrypt_encryption_key(b"dek", b"id", &[7; 16]).unwrap();
    let id = BASE64_STANDARD.encode(b"id");
    assert_eq!(unwrap_with_kek(&id, &[7; 16], &encrypted).unwrap(), b"dek");
    assert_eq!(
        unwrap_with_kek("=", &[7; 16], &encrypted).unwrap_err(),
        Error::General(
            "Could not base64 decode key encryption key id: Invalid symbol 61, offset 0."
                .to_owned()
        )
    );
}

#[test]
fn demo_kms_gives_back_what_it_wrapped() {
    let client = demo_client();
    for id in ["kf", "kc1", "kc2"] {
        let wrapped = client.wrap_key(b"some key", id).unwrap();
        assert_eq!(demo_client().unwrap_key(&wrapped, id).unwrap(), b"some key");
    }
    let wrapped = client.wrap_key(b"some key", "kc1").unwrap();
    assert_eq!(client.unwrap_key(&wrapped, "kc2").unwrap_err(), unspecified());
    let invalid = Error::General("Invalid master key 'kc3'".to_owned());
    // A key that cannot be decoded is reported first
    assert_eq!(
        client.unwrap_key("not base64!", "kc3").unwrap_err(),
        client.unwrap_key("not base64!", "kf").unwrap_err()
    );
    assert_eq!(client.wrap_key(b"some key", "kc3").unwrap_err(), invalid);
    assert_eq!(client.unwrap_key(&wrapped, "kc3").unwrap_err(), invalid);
}

#[test]
fn commands_are_answered_by_the_client() {
    let client = demo_client();
    let reply = KmsClientCommand::wrap_key(b"some key", "kc1").run(&client);
    let wrapped = wrap_response(Ok(reply)).unwrap();
    let reply = KmsClientCommand::unwrap_key(&wrapped, "kc1").run(&client);
    assert_eq!(unwrap_response(Ok(reply)).unwrap(), b"some key");
    let reply = KmsClientCommand::wrap_key(b"some key", "kc3").run(&client);
    assert_eq!(
        wrap_response(Ok(reply)).unwrap_err(),
        Error::General("Invalid master key 'kc3'".to_owned())
    );
    let command = CreateClient::new(&KmsConnectionConfig::default());
    let created = command.run(&DemoKmsClientFactory::with_default_keys());
    let client = client_response(Ok(created)).ok().unwrap();
    assert_eq!(client.unwrap_key(&wrapped, "kc1").unwrap(), b"some key");
}

#[test]
fn missing_replies_are_reported() {
    let closed = || "receiving on a closed channel".to_owned();
    let client_error = Error::General(
        "Failed to receive response from KMS client: receiving on a closed channel".to_owned(),
    );
    assert_eq!(wrap_response(Err(closed())).unwrap_err(), client_error);
    assert_eq!(unwrap_response(Err(closed())).unwrap_err(), client_error);
    assert_eq!(
        client_response::<()>(Err(closed())).unwrap_err(),
        Error::General(
            "Failed to receive response from KMS client factory: receiving on a closed channel"
                .to_owned()
        )
    );
    let unexpected = Error::General(
        "Failed to receive response from KMS client: unexpected reply".to_owned(),
    );
    assert_eq!(
        wrap_response(Ok(KmsClientReply::Unwrapped(Ok(vec![])))).unwrap_err(),
        unexpected
    );
    assert_eq!(
        unwrap_response(Ok(KmsClientReply::Wrapped(Ok(String::new())))).unwrap_err(),
        unexpected
    );
}

#[test]
fn tasks_run_until_no_command_can_come() {
    assert!(matches!(next_step(Some(5)), TaskStep::Run(5)));
    assert!(matches!(next_step::<u8>(None), TaskStep::Stop));
}

#[test]
fn properties_are_assembled_from_keys() {
    let key = |n: u8| EncryptionKey::new(vec![n; 16], vec![n + 100]);
    let assigned = vec![
        ("kc1".to_owned(), "x".to_owned()),
        ("kc2".to_owned(), "y".to_owned()),
    ];
    let properties = properties_with_keys(true, &assigned, vec![key(0), key(1), key(2)]);
    assert!(!properties.encrypt_footer());
    assert_eq!(properties.footer_key(), &vec![0; 16]);
    assert_eq!(properties.footer_key_metadata(), Some(&vec![100]));
    let (names, keys, metadata) = properties.column_keys();
    let mut columns: Vec<(String, Vec<u8>, Vec<u8>)> = names
        .into_iter()
        .zip(keys)
        .zip(metadata)
        .map(|((name, key), metadata)| (name, key, metadata))
        .collect();
    columns.sort();
    assert_eq!(
        columns,
        vec![
            ("x".to_owned(), vec![1; 16], vec![101]),
            ("y".to_owned(), vec![2; 16], vec![102]),
        ]
    );
    let properties = properties_with_keys(false, &vec![], vec![key(7)]);
    assert!(properties.encrypt_footer());
    assert!(properties.column_keys().0.is_empty());
}

#[test]
fn factories_can_be_shared() {
    let factory = Arc::new(DemoKmsClientFactory::with_default_keys());
    let client = factory.create_client(&KmsConnectionConfig::default()).ok().unwrap();
    let wrapped = client.wrap_key(b"key", "kf").unwrap();
    assert_eq!(demo_client().unwrap_key(&wrapped, "kf").unwrap(), b"key");
}

#[test]
fn demo_kms_has_fixed_keys() {
    let client = demo_client();
    for (id, key) in [
        ("kf", "0123456789012345"),
        ("kc1", "1234567890123450"),
        ("kc2", "1234567890123451"),
    ] {
        let wrapped = client.wrap_key(b"some key", id).unwrap();
        let unwrapped = decrypt_encryption_key(&wrapped, id.as_bytes(), key.as_bytes());
        assert_eq!(unwrapped.unwrap(), b"some key");
    }
}
