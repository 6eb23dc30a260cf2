//! Key management for Parquet Modular Encryption.
//!
//! The library turns an encryption configuration into data encryption keys whose key metadata a
//! Key Management Server (KMS) can recover, and recovers data encryption keys from that metadata.
//!
//! [`crypto_factory`] is where to start: it makes the encryption properties of files and retrieves
//! their decryption keys. [`kms`] has what a KMS has to provide, and [`config`] the options.

pub mod assoc_map;
pub mod bridge;
pub mod column_key_text;
pub mod column_keys;
pub mod config;
pub mod crypto;
pub mod crypto_factory;
pub mod datafusion;
pub mod demo_kms;
pub mod error;
pub mod json;
pub mod kek_caches;
pub mod key_encryption;
pub mod key_material;
pub mod key_unwrapper;
pub mod key_wrapper;
pub mod kms;
pub mod kms_manager;
pub mod option_values;
pub mod properties;
pub mod test_files;
pub mod text;
pub mod text_map;
pub mod time;
