use parquet_key_management::config::DecryptionConfiguration;
use parquet_key_management::config::EncryptionConfiguration;
use parquet_key_management::crypto_factory::CryptoFactory;
use parquet_key_management::demo_kms::DemoKmsClient;
use parquet_key_management::demo_kms::DemoKmsClientFactory;
use parquet_key_management::error::Error;
use parquet_key_management::key_material::KeyMaterial;
use parquet_key_management::key_unwrapper::read_metadata;
use parquet_key_management::key_unwrapper::KeyUnwrapper;
use parquet_key_management::key_wrapper::KeyWrapper;
use parquet_key_management::kms::KmsClient;
use parquet_key_management::kms::KmsClientFactory;
use parquet_key_management::kms::KmsConnectionConfig;
use parquet_key_management::kms_manager::KmsManager;
use std::cell::RefCell;
use std::rc::Rc;
use std::time::Duration;

fn secs(seconds: u64) -> Duration {
    Duration::from_secs(seconds)
}

#[derive(Default)]
struct Record {
    wrapped: Vec<(Vec<u8>, String)>,
    unwrapped: usize,
    fail: bool,
}

/// The example KMS, which records what it is asked for and fails when it should.
#[derive(Clone, Default)]
struct RecordingFactory {
    record: Rc<RefCell<Record>>,
}

struct RecordingClient {
    inner: DemoKmsClient,
    record: Rc<RefCell<Record>>,
}

fn unavailable() -> Error {
    Error::General("unavailable".to_owned())
}

impl KmsClient for RecordingClient {
    fn wrap_key(&self, key_bytes: &[u8], master_key_identifier: &str) -> Result<String, Error> {
        let mut record = self.record.borrow_mut();
        record
            .wrapped
            .push((key_bytes.to_vec(), master_key_identifier.to_owned()));
        if record.fail {
            return Err(unavailable());
        }
        self.inner.wrap_key(key_bytes, master_key_identifier)
    }

    fn unwrap_key(&self, wrapped_key: &str, master_key_identifier: &str) -> Result<Vec<u8>, Error> {
        let mut record = self.record.borrow_mut();
        record.unwrapped += 1;
        if record.fail {
            return Err(unavailable());
        }
        self.inner.unwrap_key(wrapped_key, master_key_identifier)
    }
}

impl KmsClientFactory for RecordingFactory {
    type Client = RecordingClient;

    fn create_client(&self, config: &KmsConnectionConfig) -> Result<RecordingClient, Error> {
        Ok(RecordingClient {
            inner: DemoKmsClientFactory::with_default_keys().create_client(config)?,
            record: self.record.clone(),
        })
    }
}

impl RecordingFactory {
    fn wrapped(&self) -> usize {
        self.record.borrow().wrapped.len()
    }

    fn unwrapped(&self) -> usize {
        self.record.borrow().unwrapped
    }

    fn fail(&self, fail: bool) {
        self.record.borrow_mut().fail = fail;
    }
}

fn configuration(double_wrapping: bool) -> EncryptionConfiguration {
    EncryptionConfiguration::builder("kf".to_owned())
        .set_double_wrapping(double_wrapping)
        .set_cache_lifetime(Some(secs(10)))
        .add_column_key("kc1".to_owned(), vec!["x".to_owned()])
        .build()
        .unwrap()
}

fn material(metadata: &[u8]) -> KeyMaterial {
    read_metadata(metadata).unwrap()
}

fn kek_of(metadata: &[u8]) -> (Option<String>, Option<String>) {
    let material = material(metadata);
    (material.key_encryption_key_id, material.wrapped_kek)
}

#[test]
fn one_kek_is_used_for_each_master_key() {
    let factory = RecordingFactory::default();
    let mut manager = KmsManager::new(factory.clone());
    let kms_config = KmsConnectionConfig::default();
    let configuration = configuration(true);
    let wrapper = KeyWrapper::new(
        &mut manager,
        &kms_config,
        &configuration,
        secs(0),
    );
    assert_eq!(manager.cache_stats().num_kms_clients, 0);
    let mut stored = Vec::new();
    for (i, id) in ["kf", "kc1", "kf", "kc2", "kc1", "kf"].iter().enumerate() {
        let key = [i as u8; 16];
        let metadata = wrapper
            .get_key_metadata(&mut manager, &key, id, i == 0, secs(i as u64))
            .unwrap();
        assert_eq!(material(&metadata).master_key_id, *id);
        stored.push(kek_of(&metadata));
    }
    assert_eq!(stored[0], stored[2]);
    assert_eq!(stored[0], stored[5]);
    assert_eq!(stored[1], stored[4]);
    assert_ne!(stored[0], stored[1]);
    assert_ne!(stored[1], stored[3]);
    let record = factory.record.borrow();
    let ids: Vec<&str> = record.wrapped.iter().map(|(_, id)| id.as_str()).collect();
    assert_eq!(ids, ["kf", "kc1", "kc2"]);
    for (kek, _) in &record.wrapped {
        assert_eq!(kek.len(), 16);
        assert!(kek.iter().any(|b| *b != kek[0]));
    }
}

#[test]
fn failed_wrapping_is_tried_again() {
    let factory = RecordingFactory::default();
    let mut manager = KmsManager::new(factory.clone());
    let kms_config = KmsConnectionConfig::default();
    for double_wrapping in [true, false] {
        let configuration = configuration(double_wrapping);
        let wrapper = KeyWrapper::new(
            &mut manager,
            &kms_config,
            &configuration,
            secs(0),
        );
        let before = factory.wrapped();
        factory.fail(true);
        let failed = wrapper.get_key_metadata(&mut manager, b"some key", "kf", true, secs(0));
        assert_eq!(failed.unwrap_err(), unavailable());
        assert_eq!(factory.wrapped(), before + 1);
        factory.fail(false);
        assert!(wrapper
            .get_key_metadata(&mut manager, b"some key", "kf", true, secs(0))
            .is_ok());
        assert_eq!(factory.wrapped(), before + 2);
    }
}

#[test]
fn next_wrapper_reuses_keks_until_they_expire() {
    let factory = RecordingFactory::default();
    let mut manager = KmsManager::new(factory.clone());
    let kms_config = KmsConnectionConfig::default();
    let configuration = configuration(true);
    let mut stored = Vec::new();
    for time in [0, 9, 10] {
        let wrapper = KeyWrapper::new(
            &mut manager,
            &kms_config,
            &configuration,
            secs(time),
        );
        let metadata = wrapper
            .get_key_metadata(&mut manager, b"some key", "kf", true, secs(time))
            .unwrap();
        stored.push(kek_of(&metadata));
        wrapper.close(&mut manager);
    }
    assert_eq!(stored[0], stored[1]);
    assert_ne!(stored[1], stored[2]);
    assert_eq!(factory.wrapped(), 2);
}

#[test]
fn next_file_reuses_keks() {
    let factory = RecordingFactory::default();
    let mut crypto_factory = CryptoFactory::new(factory.clone());
    let configuration = configuration(true);
    let mut stored = Vec::new();
    for time in [0, 5] {
        let properties = crypto_factory
            .file_encryption_properties(&KmsConnectionConfig::default(), &configuration, secs(time))
            .unwrap();
        let (_, _, metadata) = properties.column_keys();
        stored.push((
            kek_of(properties.footer_key_metadata().unwrap()),
            kek_of(&metadata[0]),
        ));
        assert_eq!(factory.wrapped(), 2);
    }
    assert_eq!(stored[0], stored[1]);
}

fn unwrapper<F: KmsClientFactory>(manager: &mut KmsManager<F>, time: u64) -> KeyUnwrapper {
    let configuration = DecryptionConfiguration::builder()
        .set_cache_lifetime(Some(secs(10)))
        .build();
    KeyUnwrapper::new(
        manager,
        &KmsConnectionConfig::default(),
        configuration.clone(),
        secs(time),
    )
}

#[test]
fn kek_is_unwrapped_until_it_succeeds() {
    let factory = RecordingFactory::default();
    let mut manager = KmsManager::new(factory.clone());
    let kms_config = KmsConnectionConfig::default();
    let configuration = configuration(true);
    let wrapper = KeyWrapper::new(
        &mut manager,
        &kms_config,
        &configuration,
        secs(0),
    );
    let first = wrapper
        .get_key_metadata(&mut manager, b"first", "kf", true, secs(0))
        .unwrap();
    let second = wrapper
        .get_key_metadata(&mut manager, b"second", "kf", true, secs(0))
        .unwrap();
    let mut reader = unwrapper(&mut manager, 0);
    factory.fail(true);
    let failed = reader.retrieve_key(&mut manager, &kms_config, &first, secs(0));
    assert_eq!(failed.unwrap_err(), unavailable());
    let failed = reader.retrieve_key(&mut manager, &kms_config, &second, secs(0));
    assert_eq!(failed.unwrap_err(), unavailable());
    assert_eq!(factory.unwrapped(), 2);
    factory.fail(false);
    let key = reader.retrieve_key(&mut manager, &kms_config, &first, secs(0)).unwrap();
    assert_eq!(key, b"first");
    let key = reader.retrieve_key(&mut manager, &kms_config, &second, secs(0)).unwrap();
    assert_eq!(key, b"second");
    assert_eq!(factory.unwrapped(), 3);
}

#[test]
fn unwrapper_keeps_its_keks() {
    let factory = RecordingFactory::default();
    let mut manager = KmsManager::new(factory.clone());
    let kms_config = KmsConnectionConfig::default();
    let mut refreshed = KmsConnectionConfig::default();
    refreshed.refresh_key_access_token("other".to_owned());
    let configuration = configuration(true);
    let wrapper = KeyWrapper::new(
        &mut manager,
        &kms_config,
        &configuration,
        secs(0),
    );
    let metadata = wrapper
        .get_key_metadata(&mut manager, b"some key", "kf", true, secs(0))
        .unwrap();
    let mut first = unwrapper(&mut manager, 0);
    assert!(first.retrieve_key(&mut manager, &kms_config, &metadata, secs(0)).is_ok());
    assert_eq!(factory.unwrapped(), 1);
    // One that is made in time shares the key encryption key
    let mut second = unwrapper(&mut manager, 9);
    assert!(second.retrieve_key(&mut manager, &kms_config, &metadata, secs(9)).is_ok());
    assert_eq!(factory.unwrapped(), 1);
    second.close(&mut manager);
    // One that is made later asks the KMS again
    let mut third = unwrapper(&mut manager, 10);
    assert!(third.retrieve_key(&mut manager, &kms_config, &metadata, secs(10)).is_ok());
    assert_eq!(factory.unwrapped(), 2);
    third.close(&mut manager);
    // The first still has it
    let key = first
        .retrieve_key(&mut manager, &refreshed, &metadata, secs(1_000_000))
        .unwrap();
    assert_eq!(key, b"some key");
    assert_eq!(factory.unwrapped(), 2);
}
