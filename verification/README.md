# Key management for Parquet Modular Encryption

Encrypted Parquet files store, next to each encrypted part, metadata from which a reader can get
the decryption key. This library makes keys and their metadata with the help of a Key Management
Server (KMS), and gets keys back from metadata. The library is written in Verus: what its
functions do is stated in their contracts and proved.

- `src/` is the verified library.
  - `config` has the options for encryption and decryption, and `kms` what a KMS has to provide.
  - `crypto_factory` makes the encryption properties of files and retrieves decryption keys. It is
    built on `key_wrapper`, `key_unwrapper`, `kms_manager`, `key_material` and `key_encryption`.
  - `datafusion` has the options in the form in which DataFusion stores them.
  - `bridge` has the messages between those who need keys and tasks that talk to a KMS.
  - `demo_kms` is an example of a KMS with keys in memory.
- `app/` is ordinary Rust around the library: thread-safe and asynchronous factories, the
  integration with DataFusion and Python, and a program that writes test files.
- `tests/` has the tests.

The contracts of functions that ask a KMS, or use random numbers, say which outcomes are possible.
Names that start with `law_` are proved statements about the library as a whole, such as that the
key retrieved for metadata is the key for which the metadata was made.

Whatever the library has from another crate or the standard library stands behind a small function
or declaration marked as external, whose contract is believed without proof. The doc comment of
each says what is claimed.
