use parquet_key_management::demo_kms::DemoKmsClient;
use parquet_key_management::demo_kms::DemoKmsClientFactory;
use parquet_key_management::error::Error;
use parquet_key_management::kek_caches::KekCaches;
use parquet_key_management::kms::KmsClient;
use parquet_key_management::kms::KmsClientFactory;
use parquet_key_management::kms::KmsConnectionConfig;
use parquet_key_management::kms_manager::KmsManager;
use parquet_key_management::text::decimal_text;
use parquet_key_management::text::split_text;
use parquet_key_management::text::split_text_once;
use parquet_key_management::text_map::TextMap;
use std::cell::Cell;
use std::time::Duration;

fn secs(seconds: u64) -> Duration {
    Duration::from_secs(seconds)
}

/// Counts the clients that it creates, and fails when it should.
struct CountingFactory {
    created: Cell<usize>,
    fail: Cell<bool>,
}

impl KmsClientFactory for CountingFactory {
    type Client = DemoKmsClient;

    fn create_client(&self, config: &KmsConnectionConfig) -> Result<DemoKmsClient, Error> {
        if self.fail.get() {
            return Err(Error::General("unavailable".to_owned()));
        }
        self.created.set(self.created.get() + 1);
        DemoKmsClientFactory::with_default_keys().create_client(config)
    }
}

#[test]
fn connection_config_defaults() {
    let config = KmsConnectionConfig::default();
    assert_eq!(config.kms_instance_id(), "");
    assert_eq!(config.kms_instance_url(), "");
    assert_eq!(config.key_access_token(), "DEFAULT");
    assert_eq!(config.custom_kms_conf().len(), 0);
}

#[test]
fn connection_config_is_built_and_updated() {
    let mut config = KmsConnectionConfig::builder()
        .set_kms_instance_id("id".to_owned())
        .set_kms_instance_url("url".to_owned())
        .set_key_access_token("token".to_owned())
        .set_custom_kms_conf_option("a".to_owned(), "1".to_owned())
        .set_custom_kms_conf_option("b".to_owned(), "2".to_owned())
        .set_custom_kms_conf_option("a".to_owned(), "3".to_owned())
        .build();
    let copy = config.snapshot();
    config.set_kms_instance_id("other id".to_owned());
    config.set_kms_instance_url("other url".to_owned());
    config.refresh_key_access_token("other token".to_owned());
    assert_eq!(config.kms_instance_id(), "other id");
    assert_eq!(config.kms_instance_url(), "other url");
    assert_eq!(config.key_access_token(), "other token");
    assert_eq!(copy.kms_instance_id(), "id");
    assert_eq!(copy.kms_instance_url(), "url");
    assert_eq!(copy.key_access_token(), "token");
    assert_eq!(copy.custom_kms_conf().len(), 2);
    assert_eq!(copy.custom_kms_conf().get("a"), Some(&"3".to_owned()));
    assert_eq!(copy.custom_kms_conf().get("b"), Some(&"2".to_owned()));
    assert_eq!(copy.custom_kms_conf().get("c"), None);
}

#[test]
fn text_map_keeps_the_last_value() {
    let mut map = TextMap::new();
    map.insert("k".to_owned(), "1".to_owned());
    map.insert("k".to_owned(), "2".to_owned());
    assert_eq!(map.len(), 1);
    assert_eq!(map.clone().get("k"), Some(&"2".to_owned()));
}

#[test]
fn text_map_lists_its_entries() {
    let mut map = TextMap::new();
    assert!(map.entries().is_empty());
    map.insert("a".to_owned(), "1".to_owned());
    map.insert("b".to_owned(), "2".to_owned());
    map.insert("a".to_owned(), "3".to_owned());
    let mut entries = map.entries();
    entries.sort();
    assert_eq!(
        entries,
        vec![
            ("a".to_owned(), "3".to_owned()),
            ("b".to_owned(), "2".to_owned()),
        ]
    );
}

#[test]
fn clients_are_cached_by_instance_and_token() {
    let mut manager = KmsManager::new(CountingFactory {
        created: Cell::new(0),
        fail: Cell::new(false),
    });
    let config = KmsConnectionConfig::default();
    let other_instance = KmsConnectionConfig::builder()
        .set_kms_instance_id("other".to_owned())
        .build();
    let other_url = KmsConnectionConfig::builder()
        .set_kms_instance_url("other".to_owned())
        .build();
    assert!(manager.get_client(&config, None, secs(0)).is_ok());
    assert!(manager.get_client(&other_url, None, secs(0)).is_ok());
    assert_eq!(manager.cache_stats().num_kms_clients, 1);
    let client = manager
        .get_client(&other_instance, Some(secs(5)), secs(1))
        .ok()
        .unwrap();
    assert!(client.wrap_key(b"key", "kf").is_ok());
    assert_eq!(manager.cache_stats().num_kms_clients, 2);
    // A client without a lifetime does not expire, and one with a lifetime does
    assert!(manager.get_client(&config, None, secs(1_000_000)).is_ok());
    assert_eq!(manager.cache_stats().num_kms_clients, 1);
}

#[test]
fn failure_to_create_a_client_is_not_cached() {
    let mut manager = KmsManager::new(CountingFactory {
        created: Cell::new(0),
        fail: Cell::new(true),
    });
    let config = KmsConnectionConfig::default();
    let result = manager.get_client(&config, None, secs(0));
    assert_eq!(
        result.err().unwrap(),
        Error::General("unavailable".to_owned())
    );
    assert_eq!(manager.cache_stats().num_kms_clients, 0);
}

#[test]
fn kek_caches_are_shared_by_token() {
    let mut caches: KekCaches<u8> = KekCaches::new();
    let first = caches.acquire("token", Some(10), 0);
    assert_eq!(caches.acquire("token", Some(10), 9), first);
    let second = caches.acquire("other", Some(10), 9);
    assert_ne!(second, first);
    // The first cache has expired but is still held, so that its place is not used again
    let third = caches.acquire("token", Some(10), 10);
    assert_ne!(third, first);
    assert_ne!(third, second);
    caches.release(first);
    caches.release(first);
    caches.release(99);
    let fourth = caches.acquire("new", None, 10);
    assert_eq!(fourth, first);
    assert_eq!(caches.shared_count(), 3);
    caches.release(fourth);
    assert_eq!(caches.shared_count(), 3);
    assert_eq!(caches.acquire("new", None, u128::MAX), fourth);
}

#[test]
fn held_caches_keep_their_keys() {
    let mut caches: KekCaches<u8> = KekCaches::new();
    let first = caches.acquire("token", Some(10), 0);
    caches.put(first, "kek".to_owned(), 7);
    assert_eq!(caches.get(first, "kek"), Some(&7));
    assert_eq!(caches.get(first, "other"), None);
    assert_eq!(caches.get(99, "kek"), None);
    // One more holder lets go, and time passes
    assert_eq!(caches.acquire("token", None, 5), first);
    caches.release(first);
    let second = caches.acquire("token", Some(10), 10);
    assert_eq!(caches.get(second, "kek"), None);
    assert_eq!(caches.get(first, "kek"), Some(&7));
    caches.release(first);
    assert_eq!(caches.get(first, "kek"), None);
}

#[test]
fn errors_are_described() {
    let text = |s: &str| s.to_owned();
    assert_eq!(Error::General(text("a")).to_string(), "Parquet error: a");
    assert_eq!(Error::Nyi(text("a")).to_string(), "NYI: a");
    assert_eq!(Error::Eof(text("a")).to_string(), "EOF: a");
    assert_eq!(Error::Arrow(text("a")).to_string(), "Arrow: a");
    assert_eq!(Error::IndexOutOfBound(12, 3).to_string(), "Index 12 out of bound: 3");
    assert_eq!(Error::NeedMoreData(45).to_string(), "NeedMoreData: 45");
    assert_eq!(Error::NeedMoreDataRange(6, 78).to_string(), "NeedMoreDataRange: 6..78");
    assert_eq!(Error::External(text("a")).to_string(), "External: a");
    assert_eq!(
        Error::Configuration(text("a")).to_string(),
        "Invalid or Unsupported Configuration: a"
    );
    assert_eq!(Error::InvalidValue(text("a")).to_string(), "a");
}

#[test]
fn texts_are_split() {
    assert_eq!(split_text("", ','), vec![""]);
    assert_eq!(split_text(",a,,b", ','), vec!["", "a", "", "b"]);
    assert_eq!(split_text_once("a.b.c", '.'), Some(("a".to_owned(), "b.c".to_owned())));
    assert_eq!(split_text_once("abc", '.'), None);
    assert_eq!(decimal_text(0), "0");
    assert_eq!(decimal_text(u64::MAX), "18446744073709551615");
}
