use arrow_array::ArrayRef;
use arrow_array::Float32Array;
use arrow_array::Int32Array;
use arrow_array::RecordBatch;
use bytes::Bytes;
use parquet::arrow::arrow_reader::ArrowReaderOptions;
use parquet::arrow::arrow_reader::ParquetRecordBatchReaderBuilder;
use parquet::arrow::ArrowWriter;
use parquet::encryption::decrypt::FileDecryptionProperties;
use parquet::encryption::decrypt::KeyRetriever;
use parquet::encryption::encrypt::FileEncryptionProperties;
use parquet::errors::ParquetError;
use parquet::errors::Result;
use parquet::file::column_crypto_metadata::ColumnCryptoMetaData;
use parquet::file::metadata::ParquetMetaDataReader;
use parquet::file::properties::WriterProperties;
use parquet_key_management::config::DecryptionConfiguration;
use parquet_key_management::config::EncryptionConfiguration;
use parquet_key_management::crypto_factory::CryptoFactory;
use parquet_key_management::demo_kms::DemoKmsClient;
use parquet_key_management::demo_kms::DemoKmsClientFactory;
use parquet_key_management::error::Error;
use parquet_key_management::key_material::KeyMaterial;
use parquet_key_management::key_unwrapper::KeyUnwrapper;
use parquet_key_management::kms::KmsClient;
use parquet_key_management::kms::KmsClientFactory;
use parquet_key_management::kms::KmsConnectionConfig;
use parquet_key_management::test_files::test_files_to_write;
use std::sync::atomic::AtomicUsize;
use std::sync::atomic::Ordering;
use std::sync::Arc;
use std::sync::Mutex;
use std::time::Duration;

const NOW: Duration = Duration::from_secs(1);

#[derive(Default)]
struct Counts {
    keys_wrapped: AtomicUsize,
    keys_unwrapped: AtomicUsize,
}

#[derive(Clone, Default)]
struct TestKmsClientFactory {
    counts: Arc<Counts>,
}

struct TestKmsClient {
    inner: DemoKmsClient,
    counts: Arc<Counts>,
}

impl KmsClient for TestKmsClient {
    fn wrap_key(&self, key: &[u8], id: &str) -> std::result::Result<String, Error> {
        self.counts.keys_wrapped.fetch_add(1, Ordering::SeqCst);
        self.inner.wrap_key(key, id)
    }

    fn unwrap_key(&self, key: &str, id: &str) -> std::result::Result<Vec<u8>, Error> {
        self.counts.keys_unwrapped.fetch_add(1, Ordering::SeqCst);
        self.inner.unwrap_key(key, id)
    }
}

impl KmsClientFactory for TestKmsClientFactory {
    type Client = TestKmsClient;

    fn create_client(
        &self,
        config: &KmsConnectionConfig,
    ) -> std::result::Result<TestKmsClient, Error> {
        Ok(TestKmsClient {
            inner: DemoKmsClientFactory::with_default_keys().create_client(config)?,
            counts: self.counts.clone(),
        })
    }
}

type SharedFactory = Arc<Mutex<CryptoFactory<TestKmsClientFactory>>>;

fn shared_factory(kms_client_factory: TestKmsClientFactory) -> SharedFactory {
    Arc::new(Mutex::new(CryptoFactory::new(kms_client_factory)))
}

fn parquet_error(error: Error) -> ParquetError {
    match error {
        Error::Nyi(message) => ParquetError::NYI(message),
        Error::General(message) => ParquetError::General(message),
        other => ParquetError::External(other.to_string().into()),
    }
}

struct Retriever {
    factory: SharedFactory,
    unwrapper: Mutex<KeyUnwrapper>,
}

impl KeyRetriever for Retriever {
    fn retrieve_key(&self, key_metadata: &[u8]) -> Result<Vec<u8>> {
        self.factory
            .lock()
            .unwrap()
            .retrieve_key(
                &mut self.unwrapper.lock().unwrap(),
                &KmsConnectionConfig::default(),
                key_metadata,
                NOW,
            )
            .map_err(parquet_error)
    }
}

fn decryption_properties(
    factory: &SharedFactory,
    decryption_config: DecryptionConfiguration,
) -> FileDecryptionProperties {
    let unwrapper = factory
        .lock()
        .unwrap()
        .file_decryption_properties(&KmsConnectionConfig::default(), decryption_config, NOW)
        .unwrap();
    let retriever = Retriever {
        factory: factory.clone(),
        unwrapper: Mutex::new(unwrapper),
    };
    FileDecryptionProperties::with_key_retriever(Arc::new(retriever))
        .build()
        .unwrap()
}

fn encryption_properties(
    factory: &SharedFactory,
    encryption_config: &EncryptionConfiguration,
) -> FileEncryptionProperties {
    factory
        .lock()
        .unwrap()
        .file_encryption_properties(&KmsConnectionConfig::default(), encryption_config, NOW)
        .unwrap()
}

#[test]
fn uniform_encryption_single_wrapping() {
    let encryption_config = EncryptionConfiguration::builder("kf".into())
        .set_double_wrapping(false)
        .build()
        .unwrap();
    let decryption_config = DecryptionConfiguration::builder().build();

    round_trip_parquet(encryption_config, decryption_config).unwrap();
}

#[test]
fn uniform_encryption_double_wrapping() {
    let encryption_config = EncryptionConfiguration::builder("kf".into())
        .set_double_wrapping(true)
        .build()
        .unwrap();
    let decryption_config = DecryptionConfiguration::builder().build();

    round_trip_parquet(encryption_config, decryption_config).unwrap();
}

#[test]
fn per_column_encryption_single_wrapping() {
    let encryption_config = EncryptionConfiguration::builder("kf".into())
        .set_double_wrapping(false)
        .add_column_key("kc1".into(), vec!["x".into()])
        .add_column_key("kc2".into(), vec!["y".into(), "z".into()])
        .build()
        .unwrap();
    let decryption_config = DecryptionConfiguration::builder().build();

    round_trip_parquet(encryption_config, decryption_config).unwrap();
}

#[test]
fn per_column_encryption_double_wrapping() {
    let encryption_config = EncryptionConfiguration::builder("kf".into())
        .set_double_wrapping(true)
        .add_column_key("kc1".into(), vec!["x".into()])
        .add_column_key("kc2".into(), vec!["y".into(), "z".into()])
        .build()
        .unwrap();
    let decryption_config = DecryptionConfiguration::builder().build();

    round_trip_parquet(encryption_config, decryption_config).unwrap();
}

#[test]
fn write_with_keys_and_read_with_kms() {
    let footer_key = b"0123456789012345";
    let encryption_properties = FileEncryptionProperties::builder(footer_key.to_vec())
        .build()
        .unwrap();

    let factory = shared_factory(TestKmsClientFactory::default());
    let decryption_config = DecryptionConfiguration::builder().build();
    let decryption_properties = decryption_properties(&factory, decryption_config);

    let result = round_trip_parquet_with_properties(encryption_properties, decryption_properties);

    match result {
        Ok(_) => panic!("Expected an error when reading encrypted Parquet that doesn't use a KMS"),
        Err(err) => {
            let message = err.to_string();
            assert!(message.contains(". Perhaps this file was encrypted without using a KMS"));
        }
    }
}

#[test]
fn multi_file_round_trip() {
    let encryption_config = EncryptionConfiguration::builder("kf".into())
        .set_double_wrapping(true)
        .add_column_key("kc1".into(), vec!["x".into()])
        .add_column_key("kc2".into(), vec!["y".into(), "z".into()])
        .set_cache_lifetime(None)
        .build()
        .unwrap();

    let write_client_factory = TestKmsClientFactory::default();
    let read_client_factory = TestKmsClientFactory::default();

    let write_crypto_factory = shared_factory(write_client_factory.clone());
    let read_crypto_factory = shared_factory(read_client_factory.clone());

    for _ in 0..5 {
        let encryption_properties = encryption_properties(&write_crypto_factory, &encryption_config);

        let decryption_config = DecryptionConfiguration::builder().build();
        let decryption_properties = decryption_properties(&read_crypto_factory, decryption_config);

        round_trip_parquet_with_properties(encryption_properties, decryption_properties).unwrap()
    }

    assert_eq!(write_client_factory.counts.keys_wrapped.load(Ordering::SeqCst), 3);
    assert_eq!(read_client_factory.counts.keys_unwrapped.load(Ordering::SeqCst), 3);
}

#[test]
fn planned_test_files_can_be_read() {
    let files = test_files_to_write().unwrap();
    let names: Vec<&str> = files.iter().map(|file| file.file_name.as_str()).collect();
    assert_eq!(
        names,
        vec![
            "unencrypted.parquet",
            "uniform_single_wrapped.parquet",
            "uniform_double_wrapped.parquet",
            "per_column_single_wrapped.parquet",
            "per_column_double_wrapped.parquet",
        ]
    );
    for file in files {
        if let Some(config) = file.encryption_config {
            assert_eq!(config.double_wrapping(), file.file_name.contains("double"));
            assert_eq!(
                config.column_key_ids().is_empty(),
                file.file_name.contains("uniform")
            );
            round_trip_parquet(config, DecryptionConfiguration::default()).unwrap();
        }
    }
}

#[test]
fn can_read_key_material() {
    let factory = shared_factory(TestKmsClientFactory::default());

    let encryption_config = EncryptionConfiguration::builder("kf".into())
        .set_double_wrapping(true)
        .add_column_key("kc1".into(), vec!["x".into()])
        .build()
        .unwrap();
    let x_vals = Float32Array::from(vec![0.0, 0.1, 0.2, 0.3, 0.4, 0.5]);
    let write_batch =
        RecordBatch::try_from_iter(vec![("x", Arc::new(x_vals) as ArrayRef)]).unwrap();
    let file = written(encryption_properties(&factory, &encryption_config), &write_batch).unwrap();

    let decryption_properties = decryption_properties(&factory, DecryptionConfiguration::default());
    let reader =
        ParquetMetaDataReader::new().with_decryption_properties(Some(&decryption_properties));
    let metadata = reader.parse_and_finish(&file).unwrap();
    let column_metadata = metadata.row_group(0).column(0);
    let column_crypto = column_metadata.crypto_metadata().unwrap();
    match column_crypto {
        ColumnCryptoMetaData::EncryptionWithFooterKey => {
            panic!("Expected encryption with a column key")
        }
        ColumnCryptoMetaData::EncryptionWithColumnKey(column_key) => {
            let key_material = column_key.key_metadata.as_ref().unwrap();
            let key_material = std::str::from_utf8(key_material).unwrap();
            let key_material = KeyMaterial::deserialize(key_material).unwrap();

            assert_eq!(key_material.master_key_id, "kc1");
            assert!(key_material.double_wrapping);
        }
    }
}

fn round_trip_parquet(
    encryption_config: EncryptionConfiguration,
    decryption_config: DecryptionConfiguration,
) -> Result<()> {
    let factory = shared_factory(TestKmsClientFactory::default());
    let encryption_properties = encryption_properties(&factory, &encryption_config);
    let decryption_properties = decryption_properties(&factory, decryption_config);

    round_trip_parquet_with_properties(encryption_properties, decryption_properties)
}

fn written(
    encryption_properties: FileEncryptionProperties,
    write_batch: &RecordBatch,
) -> Result<Bytes> {
    let mut file: Vec<u8> = Vec::new();
    let writer_properties = WriterProperties::builder()
        .with_file_encryption_properties(encryption_properties)
        .build();
    let mut writer =
        ArrowWriter::try_new(&mut file, write_batch.schema(), Some(writer_properties))?;
    writer.write(write_batch)?;
    writer.close()?;
    Ok(Bytes::from(file))
}

fn round_trip_parquet_with_properties(
    encryption_properties: FileEncryptionProperties,
    decryption_properties: FileDecryptionProperties,
) -> Result<()> {
    let ids = Int32Array::from(vec![0, 1, 2, 3, 4, 5]);
    let x_vals = Float32Array::from(vec![0.0, 0.1, 0.2, 0.3, 0.4, 0.5]);
    let y_vals = Float32Array::from(vec![1.0, 1.1, 1.2, 1.3, 1.4, 1.5]);
    let z_vals = Float32Array::from(vec![2.0, 2.1, 2.2, 2.3, 2.4, 2.5]);
    let write_batch = RecordBatch::try_from_iter(vec![
        ("id", Arc::new(ids) as ArrayRef),
        ("x", Arc::new(x_vals) as ArrayRef),
        ("y", Arc::new(y_vals) as ArrayRef),
        ("z", Arc::new(z_vals) as ArrayRef),
    ])?;

    let file = written(encryption_properties, &write_batch)?;

    let reader_options =
        ArrowReaderOptions::new().with_file_decryption_properties(decryption_properties);

    let builder = ParquetRecordBatchReaderBuilder::try_new_with_options(file, reader_options)?;
    let record_reader = builder.build()?;
    for batch in record_reader {
        let read_batch = batch?;
        assert_eq!(write_batch, read_batch);
    }

    Ok(())
}
