//! The encryption properties of Parquet files, as the `parquet` crate keeps them.

use parquet::encryption::encrypt::EncryptionPropertiesBuilder;
use parquet::encryption::encrypt::FileEncryptionProperties;
use vstd::prelude::*;

verus! {

/// The properties with which a file is encrypted: the footer key and the column keys, each with
/// the metadata that is stored for it, whether the footer is encrypted, and the additional
/// authenticated data, if any.
pub struct PropertiesModel {
    pub footer_key: Seq<u8>,
    pub footer_key_metadata: Option<Seq<u8>>,
    pub encrypt_footer: bool,
    pub column_keys: Map<Seq<char>, (Seq<u8>, Option<Seq<u8>>)>,
    pub aad_prefix: Option<Seq<u8>>,
}

/// The encryption properties of the `parquet` crate.
#[verifier::external_type_specification]
#[verifier::external_body]
pub struct ExFileEncryptionProperties(parquet::encryption::encrypt::FileEncryptionProperties);

/// The builder of the `parquet` crate for encryption properties.
#[verifier::external_type_specification]
#[verifier::external_body]
pub struct ExEncryptionPropertiesBuilder(parquet::encryption::encrypt::EncryptionPropertiesBuilder);

/// The error type of the `parquet` crate.
#[verifier::external_type_specification]
#[verifier::external_body]
pub struct ExParquetError(parquet::errors::ParquetError);

/// What encryption properties hold.
pub uninterp spec fn properties_held(properties: FileEncryptionProperties) -> PropertiesModel;

/// What a builder for encryption properties holds.
pub uninterp spec fn builder_held(builder: EncryptionPropertiesBuilder) -> PropertiesModel;

/// The properties of a file that is encrypted with a footer key alone.
pub open spec fn footer_properties(footer_key: Seq<u8>) -> PropertiesModel {
    PropertiesModel {
        footer_key,
        footer_key_metadata: None,
        encrypt_footer: true,
        column_keys: Map::empty(),
        aad_prefix: None,
    }
}

/// `FileEncryptionProperties::builder` starts with a footer key, an encrypted footer and nothing
/// else.
pub assume_specification[ FileEncryptionProperties::builder ](footer_key: Vec<u8>) -> (builder:
    EncryptionPropertiesBuilder)
    ensures
        builder_held(builder) == footer_properties(footer_key@),
;

/// `EncryptionPropertiesBuilder::with_plaintext_footer` sets whether the footer is encrypted.
pub assume_specification[ EncryptionPropertiesBuilder::with_plaintext_footer ](
    builder: EncryptionPropertiesBuilder,
    plaintext_footer: bool,
) -> (r: EncryptionPropertiesBuilder)
    ensures
        builder_held(r) == (PropertiesModel {
            encrypt_footer: !plaintext_footer,
            ..builder_held(builder)
        }),
;

/// `EncryptionPropertiesBuilder::with_footer_key_metadata` sets the metadata of the footer key.
pub assume_specification[ EncryptionPropertiesBuilder::with_footer_key_metadata ](
    builder: EncryptionPropertiesBuilder,
    metadata: Vec<u8>,
) -> (r: EncryptionPropertiesBuilder)
    ensures
        builder_held(r) == (PropertiesModel {
            footer_key_metadata: Some(metadata@),
            ..builder_held(builder)
        }),
;

/// `EncryptionPropertiesBuilder::with_column_key_and_metadata` sets the key of a column and its
/// metadata, replacing those that the column had.
pub assume_specification[ EncryptionPropertiesBuilder::with_column_key_and_metadata ](
    builder: EncryptionPropertiesBuilder,
    column_name: &str,
    key: Vec<u8>,
    metadata: Vec<u8>,
) -> (r: EncryptionPropertiesBuilder)
    ensures
        builder_held(r) == (PropertiesModel {
            column_keys: builder_held(builder).column_keys.insert(
                column_name@,
                (key@, Some(metadata@)),
            ),
            ..builder_held(builder)
        }),
;

/// `EncryptionPropertiesBuilder::build` succeeds and keeps what the builder holds.
pub assume_specification[ EncryptionPropertiesBuilder::build ](
    builder: EncryptionPropertiesBuilder,
) -> (r: parquet::errors::Result<FileEncryptionProperties>)
    ensures
        r is Ok,
        properties_held(r->Ok_0) == builder_held(builder),
;

} // verus!
