//! Parquet Key Management Tools for DataFusion
//!
//! This module provides what an encryption factory for DataFusion needs to integrate with a KMS
//! when reading and writing encrypted Parquet with DataFusion.

use parquet::encryption::encrypt::FileEncryptionProperties;
use std::time::Duration;
use vstd::prelude::*;
use vstd::utf8::decode_utf8;
use vstd::utf8::valid_utf8;

use crate::column_key_text::deserialize_column_keys;
use crate::column_key_text::deserialized;
use crate::column_key_text::law_deserialization_undoes_serialization;
use crate::column_key_text::separable;
use crate::column_key_text::serialize_column_keys;
use crate::column_key_text::serialized;
use crate::column_keys::distinct_ids;
use crate::config::DecryptionConfiguration;
use crate::config::EncryptionConfiguration;
use crate::config::EncryptionModel;
use crate::config::assignments;
use crate::config::no_column_twice;
use crate::config::reports_first_repeat;
use crate::crypto_factory::CryptoFactory;
use crate::crypto_factory::makes_properties;
use crate::crypto_factory::properties_outcome;
use crate::crypto_factory::unimplemented_setting;
use crate::error::Error;
use crate::error::ErrorModel;
use crate::error::bytes_outcome;
use crate::kek_caches::acquires;
use crate::kek_caches::one_shared_per_token;
use crate::key_material::reads_back;
use crate::key_unwrapper::KeyUnwrapper;
use crate::key_unwrapper::retrieves;
use crate::key_unwrapper::with_token;
use crate::kms::ConfigModel;
use crate::kms::KmsClientFactory;
use crate::kms::KmsConnectionConfig;
use crate::kms_manager::ManagerModel;
use crate::option_values::flag_read;
use crate::option_values::flag_text;
use crate::option_values::law_written_flag_reads_back;
use crate::option_values::law_written_number_reads_back;
use crate::option_values::number_read;
use crate::option_values::read_flag;
use crate::option_values::read_number;
use crate::option_values::write_flag;
use crate::properties::PropertiesModel;
use crate::text::decimal;
use crate::text::decimal_text;
use crate::text::lacks;
use crate::text::law_split_once_undoes_concatenation;
use crate::text::lemma_lacks_all;
use crate::text::lemma_split_once_absent;
use crate::text::same_text;
use crate::text::split_once;
use crate::text::split_text_once;
use crate::time::NANOS_PER_SEC;
use crate::time::duration_nanos;

verus! {

/// What [`EncryptionOptions`] hold.
pub struct EncryptionOptionsModel {
    pub footer_key_id: Seq<char>,
    pub column_key_ids: Seq<char>,
    pub plaintext_footer: bool,
    pub double_wrapping: bool,
    pub cache_lifetime_s: Option<u64>,
    pub internal_key_material: bool,
    pub data_key_length_bits: u64,
}

/// DataFusion compatible configuration options related to file encryption
#[derive(Debug)]
pub struct EncryptionOptions {
    /// Master key identifier for footer key encryption
    pub footer_key_id: String,
    /// List of master key ids and the columns to be encrypted with each key,
    /// formatted like "columnKeyId1:column1,column2;columnKeyId2:column3"
    pub column_key_ids: String,
    /// Whether to write footer metadata unencrypted
    pub plaintext_footer: bool,
    /// Whether to encrypt data encryption keys with key encryption keys, before wrapping with the
    /// master key
    pub double_wrapping: bool,
    /// How long in seconds to cache objects used during encryption
    pub cache_lifetime_s: Option<u64>,
    /// Whether to store encryption key material inside Parquet files
    pub internal_key_material: bool,
    /// Length of data encryption keys to generate
    pub data_key_length_bits: u64,
}

impl View for EncryptionOptions {
    type V = EncryptionOptionsModel;

    open spec fn view(&self) -> EncryptionOptionsModel {
        EncryptionOptionsModel {
            footer_key_id: self.footer_key_id@,
            column_key_ids: self.column_key_ids@,
            plaintext_footer: self.plaintext_footer,
            double_wrapping: self.double_wrapping,
            cache_lifetime_s: self.cache_lifetime_s,
            internal_key_material: self.internal_key_material,
            data_key_length_bits: self.data_key_length_bits,
        }
    }
}

/// DataFusion compatible configuration options related to file decryption. Their view is the cache
/// lifetime.
#[derive(Debug)]
pub struct DecryptionOptions {
    /// How long in seconds to cache objects used during decryption
    pub cache_lifetime_s: Option<u64>,
}

impl View for DecryptionOptions {
    type V = Option<u64>;

    open spec fn view(&self) -> Option<u64> {
        self.cache_lifetime_s
    }
}

/// The options for encryption where none is set.
pub open spec fn default_encryption_options() -> EncryptionOptionsModel {
    EncryptionOptionsModel {
        footer_key_id: ""@,
        column_key_ids: ""@,
        plaintext_footer: false,
        double_wrapping: true,
        cache_lifetime_s: None,
        internal_key_material: true,
        data_key_length_bits: 128,
    }
}

/// What setting an option came to.
pub open spec fn set_outcome(r: Result<(), Error>) -> Result<(), ErrorModel> {
    match r {
        Ok(_) => Ok(()),
        Err(e) => Err(e@),
    }
}

/// The name of a field: the part of a key before the first dot, or the whole key.
pub open spec fn field_name(key: Seq<char>) -> Seq<char> {
    match split_once(key, '.') {
        Some((name, _)) => name,
        None => key,
    }
}

/// The error for an option that there is not.
pub open spec fn unknown_field(field: Seq<char>, owner: Seq<char>) -> ErrorModel {
    ErrorModel::Configuration("Config value \""@ + field + "\" not found on "@ + owner)
}

/// The value of a flag after it was set to a text.
pub open spec fn flag_set(flag: bool, text: Seq<char>) -> bool {
    match flag_read(text) {
        Ok(value) => value,
        Err(_) => flag,
    }
}

/// What setting a flag to a text came to.
pub open spec fn flag_set_outcome(text: Seq<char>) -> Result<(), ErrorModel> {
    match flag_read(text) {
        Ok(_) => Ok(()),
        Err(e) => Err(ErrorModel::InvalidValue(e)),
    }
}

/// The value of a number after it was set to a text.
pub open spec fn number_set(number: u64, text: Seq<char>) -> u64 {
    match number_read(text) {
        Ok(value) => value,
        Err(_) => number,
    }
}

/// What setting a number to a text came to.
pub open spec fn number_set_outcome(text: Seq<char>) -> Result<(), ErrorModel> {
    match number_read(text) {
        Ok(_) => Ok(()),
        Err(e) => Err(ErrorModel::InvalidValue(e)),
    }
}

/// The value of an optional number after it was set to a text. A number that was not set counts as
/// zero.
pub open spec fn optional_set(number: Option<u64>, text: Seq<char>) -> Option<u64> {
    let before = match number {
        Some(n) => n,
        None => 0,
    };
    Some(number_set(before, text))
}

/// The options for encryption after one was set, and what setting it came to.
pub open spec fn encryption_set(
    options: EncryptionOptionsModel,
    key: Seq<char>,
    value: Seq<char>,
) -> (EncryptionOptionsModel, Result<(), ErrorModel>) {
    let field = field_name(key);
    if field == "footer_key_id"@ {
        (EncryptionOptionsModel { footer_key_id: value, ..options }, Ok(()))
    } else if field == "column_key_ids"@ {
        (EncryptionOptionsModel { column_key_ids: value, ..options }, Ok(()))
    } else if field == "plaintext_footer"@ {
        (
            EncryptionOptionsModel {
                plaintext_footer: flag_set(options.plaintext_footer, value),
                ..options
            },
            flag_set_outcome(value),
        )
    } else if field == "double_wrapping"@ {
        (
            EncryptionOptionsModel {
                double_wrapping: flag_set(options.double_wrapping, value),
                ..options
            },
            flag_set_outcome(value),
        )
    } else if field == "cache_lifetime_s"@ {
        (
            EncryptionOptionsModel {
                cache_lifetime_s: optional_set(options.cache_lifetime_s, value),
                ..options
            },
            number_set_outcome(value),
        )
    } else if field == "internal_key_material"@ {
        (
            EncryptionOptionsModel {
                internal_key_material: flag_set(options.internal_key_material, value),
                ..options
            },
            flag_set_outcome(value),
        )
    } else if field == "data_key_length_bits"@ {
        (
            EncryptionOptionsModel {
                data_key_length_bits: number_set(options.data_key_length_bits, value),
                ..options
            },
            number_set_outcome(value),
        )
    } else {
        (options, Err(unknown_field(field, "EncryptionOptions"@)))
    }
}

/// The options for decryption after one was set, and what setting it came to.
pub open spec fn decryption_set(
    cache_lifetime_s: Option<u64>,
    key: Seq<char>,
    value: Seq<char>,
) -> (Option<u64>, Result<(), ErrorModel>) {
    let field = field_name(key);
    if field == "cache_lifetime_s"@ {
        (optional_set(cache_lifetime_s, value), number_set_outcome(value))
    } else {
        (cache_lifetime_s, Err(unknown_field(field, "DecryptionOptions"@)))
    }
}

/// What [`KmsEncryptionFactoryOptions`] hold.
pub struct OptionsModel {
    pub encryption: EncryptionOptionsModel,
    pub decryption: Option<u64>,
}

/// The options after one was set, and what setting it came to. Keys start with the name of the
/// group of options.
pub open spec fn option_set(options: OptionsModel, key: Seq<char>, value: Seq<char>) -> (
    OptionsModel,
    Result<(), ErrorModel>,
) {
    match split_once(key, '.') {
        Some((parent, rest)) => if parent == "decryption"@ {
            let (decryption, outcome) = decryption_set(options.decryption, rest, value);
            (OptionsModel { decryption, ..options }, outcome)
        } else if parent == "encryption"@ {
            let (encryption, outcome) = encryption_set(options.encryption, rest, value);
            (OptionsModel { encryption, ..options }, outcome)
        } else {
            (
                options,
                Err(
                    ErrorModel::Configuration(
                        "Invalid configuration key for KMS encryption: "@ + parent,
                    ),
                ),
            )
        },
        None => (
            options,
            Err(
                ErrorModel::Configuration("Invalid configuration key for KMS encryption: "@ + key),
            ),
        ),
    }
}

/// An option with its value, if it has one, and a description.
#[derive(Debug)]
pub struct OptionEntry {
    /// The key that identifies the option
    pub key: String,
    /// The value, if any
    pub value: Option<String>,
    /// What the option is for
    pub description: &'static str,
}

/// What an [`OptionEntry`] holds.
pub struct EntryModel {
    pub key: Seq<char>,
    pub value: Option<Seq<char>>,
    pub description: Seq<char>,
}

impl View for OptionEntry {
    type V = EntryModel;

    open spec fn view(&self) -> EntryModel {
        EntryModel {
            key: self.key@,
            value: crate::key_material::optional(self.value),
            description: self.description@,
        }
    }
}

/// The contents of a list of options.
pub open spec fn entry_models(entries: Seq<OptionEntry>) -> Seq<EntryModel> {
    entries.map_values(|entry: OptionEntry| entry@)
}

/// The text of an optional number.
pub open spec fn optional_number_text(number: Option<u64>) -> Option<Seq<char>> {
    match number {
        Some(n) => Some(decimal(n as nat)),
        None => None,
    }
}

/// The options for encryption in the order of their declaration, with the prefix of their keys.
pub open spec fn encryption_entries(prefix: Seq<char>, options: EncryptionOptionsModel) -> Seq<
    EntryModel,
> {
    seq![
        EntryModel {
            key: prefix + "footer_key_id"@,
            value: Some(options.footer_key_id),
            description: "Master key identifier for footer key encryption"@,
        },
        EntryModel {
            key: prefix + "column_key_ids"@,
            value: Some(options.column_key_ids),
            description: "List of master key ids and the columns to be encrypted with each key, formatted like \"columnKeyId1:column1,column2;columnKeyId2:column3\""@,
        },
        EntryModel {
            key: prefix + "plaintext_footer"@,
            value: Some(flag_text(options.plaintext_footer)),
            description: "Whether to write footer metadata unencrypted"@,
        },
        EntryModel {
            key: prefix + "double_wrapping"@,
            value: Some(flag_text(options.double_wrapping)),
            description: "Whether to encrypt data encryption keys with key encryption keys, before wrapping with the master key"@,
        },
        EntryModel {
            key: prefix + "cache_lifetime_s"@,
            value: optional_number_text(options.cache_lifetime_s),
            description: "How long in seconds to cache objects used during encryption"@,
        },
        EntryModel {
            key: prefix + "internal_key_material"@,
            value: Some(flag_text(options.internal_key_material)),
            description: "Whether to store encryption key material inside Parquet files"@,
        },
        EntryModel {
            key: prefix + "data_key_length_bits"@,
            value: Some(decimal(options.data_key_length_bits as nat)),
            description: "Length of data encryption keys to generate"@,
        },
    ]
}

/// The options for decryption, with the prefix of their keys.
pub open spec fn decryption_entries(prefix: Seq<char>, cache_lifetime_s: Option<u64>) -> Seq<
    EntryModel,
> {
    seq![
        EntryModel {
            key: prefix + "cache_lifetime_s"@,
            value: optional_number_text(cache_lifetime_s),
            description: "How long in seconds to cache objects used during decryption"@,
        },
    ]
}

/// All options: those for decryption and then those for encryption.
pub open spec fn all_entries(options: OptionsModel) -> Seq<EntryModel> {
    decryption_entries("decryption."@, options.decryption) + encryption_entries(
        "encryption."@,
        options.encryption,
    )
}

/// Finds the name of a field.
fn field_of(key: &str) -> (r: String)
    ensures
        r@ == field_name(key@),
{
    match split_text_once(key, '.') {
        Some((name, _)) => name,
        None => key.to_owned(),
    }
}

fn unknown_field_error(field: &str, owner: &str) -> (r: Error)
    ensures
        r@ == unknown_field(field@, owner@),
{
    Error::Configuration(
        "Config value \"".to_owned().concat(field).concat("\" not found on ").concat(owner),
    )
}

fn set_flag(flag: &mut bool, text: &str) -> (r: Result<(), Error>)
    ensures
        *final(flag) == flag_set(*old(flag), text@),
        set_outcome(r) == flag_set_outcome(text@),
{
    match read_flag(text) {
        Ok(value) => {
            *flag = value;
            Ok(())
        },
        Err(e) => Err(Error::InvalidValue(e)),
    }
}

fn set_number(number: &mut u64, text: &str) -> (r: Result<(), Error>)
    ensures
        *final(number) == number_set(*old(number), text@),
        set_outcome(r) == number_set_outcome(text@),
{
    match read_number(text) {
        Ok(value) => {
            *number = value;
            Ok(())
        },
        Err(e) => Err(Error::InvalidValue(e)),
    }
}

fn set_optional(number: &mut Option<u64>, text: &str) -> (r: Result<(), Error>)
    ensures
        *final(number) == optional_set(*old(number), text@),
        set_outcome(r) == number_set_outcome(text@),
{
    let mut value: u64 = match *number {
        Some(n) => n,
        None => 0,
    };
    let r = set_number(&mut value, text);
    *number = Some(value);
    r
}

fn optional_number(number: Option<u64>) -> (r: Option<String>)
    ensures
        crate::key_material::optional(r) == optional_number_text(number),
{
    match number {
        Some(n) => Some(decimal_text(n)),
        None => None,
    }
}

fn entry(prefix: &str, key: &str, value: Option<String>, description: &'static str) -> (r:
    OptionEntry)
    ensures
        r@ == (EntryModel {
            key: prefix@ + key@,
            value: crate::key_material::optional(value),
            description: description@,
        }),
{
    OptionEntry { key: prefix.to_owned().concat(key), value, description }
}

impl Clone for EncryptionOptions {
    fn clone(&self) -> (r: Self)
        ensures
            r@ == self@,
    {
        EncryptionOptions {
            footer_key_id: self.footer_key_id.clone(),
            column_key_ids: self.column_key_ids.clone(),
            plaintext_footer: self.plaintext_footer,
            double_wrapping: self.double_wrapping,
            cache_lifetime_s: self.cache_lifetime_s,
            internal_key_material: self.internal_key_material,
            data_key_length_bits: self.data_key_length_bits,
        }
    }
}

impl Default for EncryptionOptions {
    fn default() -> (r: Self)
        ensures
            r@ == default_encryption_options(),
    {
        EncryptionOptions {
            footer_key_id: "".to_owned(),
            column_key_ids: "".to_owned(),
            plaintext_footer: false,
            double_wrapping: true,
            cache_lifetime_s: None,
            internal_key_material: true,
            data_key_length_bits: 128,
        }
    }
}

impl PartialEq for EncryptionOptions {
    fn eq(&self, other: &Self) -> (r: bool) {
        same_text(self.footer_key_id.as_str(), other.footer_key_id.as_str()) && same_text(
            self.column_key_ids.as_str(),
            other.column_key_ids.as_str(),
        ) && self.plaintext_footer == other.plaintext_footer && self.double_wrapping
            == other.double_wrapping && self.cache_lifetime_s == other.cache_lifetime_s
            && self.internal_key_material == other.internal_key_material
            && self.data_key_length_bits == other.data_key_length_bits
    }
}

impl vstd::std_specs::cmp::PartialEqSpecImpl for EncryptionOptions {
    open spec fn obeys_eq_spec() -> bool {
        true
    }

    open spec fn eq_spec(&self, other: &Self) -> bool {
        self@ == other@
    }
}

/// The seconds of an optional lifetime in nanoseconds, without the fractional part.
pub open spec fn whole_seconds(lifetime: Option<u128>) -> Option<u64> {
    match lifetime {
        Some(nanos) => Some((nanos as int / NANOS_PER_SEC as int) as u64),
        None => None,
    }
}

/// An optional lifetime in seconds, in nanoseconds.
pub open spec fn seconds_lifetime(seconds: Option<u64>) -> Option<u128> {
    match seconds {
        Some(s) => Some((s * NANOS_PER_SEC) as u128),
        None => None,
    }
}

fn lifetime_seconds(lifetime: Option<Duration>) -> (r: Option<u64>)
    ensures
        r == whole_seconds(crate::time::lifetime_nanos(lifetime)),
{
    match lifetime {
        Some(duration) => Some(duration.as_secs()),
        None => None,
    }
}

fn lifetime_from_seconds(seconds: Option<u64>) -> (r: Option<Duration>)
    ensures
        crate::time::lifetime_nanos(r) == seconds_lifetime(seconds),
{
    match seconds {
        Some(s) => Some(Duration::from_secs(s)),
        None => None,
    }
}

/// The options for an encryption configuration.
pub open spec fn options_from(config: EncryptionModel) -> EncryptionOptionsModel {
    EncryptionOptionsModel {
        footer_key_id: config.footer_key_id,
        column_key_ids: serialized(config.column_key_ids),
        plaintext_footer: config.plaintext_footer,
        double_wrapping: config.double_wrapping,
        cache_lifetime_s: whole_seconds(config.cache_lifetime),
        internal_key_material: config.internal_key_material,
        data_key_length_bits: config.data_key_length_bits as u64,
    }
}

/// Why options cannot be used for encryption, if they cannot.
pub open spec fn unsupported_option(options: EncryptionOptionsModel) -> Option<ErrorModel> {
    if !options.internal_key_material {
        Some(ErrorModel::Nyi("External key material is not yet implemented"@))
    } else if options.data_key_length_bits != 128 {
        Some(ErrorModel::Nyi("Only 128 bit data keys are currently implemented"@))
    } else {
        None
    }
}

/// The encryption configuration for options, once their column keys were read.
pub open spec fn configuration_with(
    options: EncryptionOptionsModel,
    column_key_ids: Seq<(Seq<char>, Seq<Seq<char>>)>,
) -> EncryptionModel {
    EncryptionModel {
        footer_key_id: options.footer_key_id,
        column_key_ids,
        plaintext_footer: options.plaintext_footer,
        double_wrapping: options.double_wrapping,
        cache_lifetime: seconds_lifetime(options.cache_lifetime_s),
        internal_key_material: options.internal_key_material,
        data_key_length_bits: options.data_key_length_bits as u32,
    }
}

/// Whether converting options to an encryption configuration has an outcome. Options for what is
/// not implemented are refused, before the column keys are read.
pub open spec fn converts(
    options: EncryptionOptionsModel,
    r: Result<EncryptionConfiguration, Error>,
) -> bool {
    match unsupported_option(options) {
        Some(e) => r matches Err(error) && error@ == e,
        None => match deserialized(options.column_key_ids) {
            Ok(keys) => {
                &&& r is Ok <==> no_column_twice(assignments(keys))
                &&& match r {
                    Ok(config) => config@ == configuration_with(options, keys),
                    Err(e) => reports_first_repeat(e@, assignments(keys)),
                }
            },
            Err(problem) => r matches Err(e) && e@ == problem,
        },
    }
}

impl EncryptionOptions {
    /// Set an option
    pub fn set(&mut self, key: &str, value: &str) -> (r: Result<(), Error>)
        ensures
            final(self)@ == encryption_set(old(self)@, key@, value@).0,
            set_outcome(r) == encryption_set(old(self)@, key@, value@).1,
    {
        let field = field_of(key);
        let field = field.as_str();
        if same_text(field, "footer_key_id") {
            self.footer_key_id = value.to_owned();
            Ok(())
        } else if same_text(field, "column_key_ids") {
            self.column_key_ids = value.to_owned();
            Ok(())
        } else if same_text(field, "plaintext_footer") {
            set_flag(&mut self.plaintext_footer, value)
        } else if same_text(field, "double_wrapping") {
            set_flag(&mut self.double_wrapping, value)
        } else if same_text(field, "cache_lifetime_s") {
            set_optional(&mut self.cache_lifetime_s, value)
        } else if same_text(field, "internal_key_material") {
            set_flag(&mut self.internal_key_material, value)
        } else if same_text(field, "data_key_length_bits") {
            set_number(&mut self.data_key_length_bits, value)
        } else {
            Err(unknown_field_error(field, "EncryptionOptions"))
        }
    }

    /// List the options, with a prefix for their keys
    fn prefixed_entries(&self, prefix: &str) -> (r: Vec<OptionEntry>)
        ensures
            entry_models(r@) == encryption_entries(prefix@, self@),
    {
        let mut entries: Vec<OptionEntry> = Vec::new();
        entries.push(
            entry(
                prefix,
                "footer_key_id",
                Some(self.footer_key_id.clone()),
                "Master key identifier for footer key encryption",
            ),
        );
        entries.push(
            entry(
                prefix,
                "column_key_ids",
                Some(self.column_key_ids.clone()),
                "List of master key ids and the columns to be encrypted with each key, formatted like \"columnKeyId1:column1,column2;columnKeyId2:column3\"",
            ),
        );
        entries.push(
            entry(
                prefix,
                "plaintext_footer",
                Some(write_flag(self.plaintext_footer)),
                "Whether to write footer metadata unencrypted",
            ),
        );
        entries.push(
            entry(
                prefix,
                "double_wrapping",
                Some(write_flag(self.double_wrapping)),
                "Whether to encrypt data encryption keys with key encryption keys, before wrapping with the master key",
            ),
        );
        entries.push(
            entry(
                prefix,
                "cache_lifetime_s",
                optional_number(self.cache_lifetime_s),
                "How long in seconds to cache objects used during encryption",
            ),
        );
        entries.push(
            entry(
                prefix,
                "internal_key_material",
                Some(write_flag(self.internal_key_material)),
                "Whether to store encryption key material inside Parquet files",
            ),
        );
        entries.push(
            entry(
                prefix,
                "data_key_length_bits",
                Some(decimal_text(self.data_key_length_bits)),
                "Length of data encryption keys to generate",
            ),
        );
        assert(entry_models(entries@) =~= encryption_entries(prefix@, self@));
        entries
    }

    /// List the options
    pub fn entries(&self) -> (r: Vec<OptionEntry>)
        ensures
            entry_models(r@) == encryption_entries(""@, self@),
    {
        self.prefixed_entries("")
    }

    /// Make the options for an encryption configuration
    pub fn from(config: EncryptionConfiguration) -> (r: Self)
        ensures
            r@ == options_from(config@),
    {
        EncryptionOptions {
            footer_key_id: config.footer_key_id().to_owned(),
            column_key_ids: serialize_column_keys(config.column_key_ids()),
            plaintext_footer: config.plaintext_footer(),
            double_wrapping: config.double_wrapping(),
            cache_lifetime_s: lifetime_seconds(config.cache_lifetime()),
            internal_key_material: config.internal_key_material(),
            data_key_length_bits: config.data_key_length_bits() as u64,
        }
    }

    /// Convert the options to an encryption configuration
    pub fn try_into(self) -> (r: Result<EncryptionConfiguration, Error>)
        ensures
            converts(self@, r),
    {
        if !self.internal_key_material {
            return Err(Error::Nyi("External key material is not yet implemented".to_owned()));
        }
        if self.data_key_length_bits != 128 {
            return Err(Error::Nyi("Only 128 bit data keys are currently implemented".to_owned()));
        }
        let mut builder = EncryptionConfiguration::builder(
            self.footer_key_id.clone(),
        ).set_double_wrapping(self.double_wrapping).set_plaintext_footer(
            self.plaintext_footer,
        ).set_cache_lifetime(lifetime_from_seconds(self.cache_lifetime_s));
        let column_keys = match deserialize_column_keys(self.column_key_ids.as_str()) {
            Ok(keys) => keys,
            Err(e) => return Err(e),
        };
        let count: usize = column_keys.len();
        assert(builder@.column_key_ids =~= column_keys@.take(0));
        for i in 0..count
            invariant
                count == column_keys@.len(),
                unsupported_option(self@) is None,
                crate::column_keys::distinct_ids(column_keys@),
                builder@ == configuration_with(self@, column_keys@.take(i as int)),
        {
            let entry = column_keys.entry(i).clone();
            let ghost before = column_keys@.take(i as int);
            assert(!crate::column_keys::has_id(before, entry.master_key_id@)) by {
                assert forall|j: int| 0 <= j < before.len() implies (#[trigger] before[j]).0
                    != entry.master_key_id@ by {
                    assert(column_keys@[j].0 != column_keys@[i as int].0);
                }
            }
            assert(column_keys@.take(i + 1) =~= before.push(entry@));
            builder = builder.add_column_key(entry.master_key_id, entry.columns);
        }
        assert(column_keys@.take(column_keys@.len() as int) =~= column_keys@);
        builder.build()
    }
}

impl Clone for DecryptionOptions {
    fn clone(&self) -> (r: Self)
        ensures
            r@ == self@,
    {
        DecryptionOptions { cache_lifetime_s: self.cache_lifetime_s }
    }
}

impl Default for DecryptionOptions {
    fn default() -> (r: Self)
        ensures
            r@ is None,
    {
        DecryptionOptions { cache_lifetime_s: None }
    }
}

impl PartialEq for DecryptionOptions {
    fn eq(&self, other: &Self) -> (r: bool) {
        self.cache_lifetime_s == other.cache_lifetime_s
    }
}

impl vstd::std_specs::cmp::PartialEqSpecImpl for DecryptionOptions {
    open spec fn obeys_eq_spec() -> bool {
        true
    }

    open spec fn eq_spec(&self, other: &Self) -> bool {
        self@ == other@
    }
}

impl DecryptionOptions {
    /// Set an option
    pub fn set(&mut self, key: &str, value: &str) -> (r: Result<(), Error>)
        ensures
            final(self)@ == decryption_set(old(self)@, key@, value@).0,
            set_outcome(r) == decryption_set(old(self)@, key@, value@).1,
    {
        let field = field_of(key);
        if same_text(field.as_str(), "cache_lifetime_s") {
            set_optional(&mut self.cache_lifetime_s, value)
        } else {
            Err(unknown_field_error(field.as_str(), "DecryptionOptions"))
        }
    }

    /// List the options, with a prefix for their keys
    fn prefixed_entries(&self, prefix: &str) -> (r: Vec<OptionEntry>)
        ensures
            entry_models(r@) == decryption_entries(prefix@, self@),
    {
        let mut entries: Vec<OptionEntry> = Vec::new();
        entries.push(
            entry(
                prefix,
                "cache_lifetime_s",
                optional_number(self.cache_lifetime_s),
                "How long in seconds to cache objects used during decryption",
            ),
        );
        assert(entry_models(entries@) =~= decryption_entries(prefix@, self@));
        entries
    }

    /// List the options
    pub fn entries(&self) -> (r: Vec<OptionEntry>)
        ensures
            entry_models(r@) == decryption_entries(""@, self@),
    {
        self.prefixed_entries("")
    }

    /// Make the options for a decryption configuration
    pub fn from(config: DecryptionConfiguration) -> (r: Self)
        ensures
            r@ == whole_seconds(config@),
    {
        DecryptionOptions { cache_lifetime_s: lifetime_seconds(config.cache_lifetime()) }
    }

    /// Convert the options to a decryption configuration
    pub fn try_into(self) -> (r: Result<DecryptionConfiguration, Error>)
        ensures
            r matches Ok(config) && config@ == seconds_lifetime(self@),
    {
        Ok(
            DecryptionConfiguration::builder().set_cache_lifetime(
                lifetime_from_seconds(self.cache_lifetime_s),
            ).build(),
        )
    }
}

/// DataFusion compatible options used to configure generation of encryption and decryption
/// properties for a Table when using a [`KmsEncryptionFactory`].
#[derive(Debug)]
pub struct KmsEncryptionFactoryOptions {
    /// The configuration to use when writing encrypted Parquet
    pub encryption: EncryptionOptions,
    /// The configuration to use when reading encrypted Parquet
    pub decryption: DecryptionOptions,
}

impl View for KmsEncryptionFactoryOptions {
    type V = OptionsModel;

    open spec fn view(&self) -> OptionsModel {
        OptionsModel { encryption: self.encryption@, decryption: self.decryption@ }
    }
}

/// The options where none is set.
pub open spec fn default_options() -> OptionsModel {
    OptionsModel { encryption: default_encryption_options(), decryption: None }
}

impl Clone for KmsEncryptionFactoryOptions {
    fn clone(&self) -> (r: Self)
        ensures
            r@ == self@,
    {
        KmsEncryptionFactoryOptions {
            encryption: self.encryption.clone(),
            decryption: self.decryption.clone(),
        }
    }
}

impl Default for KmsEncryptionFactoryOptions {
    fn default() -> (r: Self)
        ensures
            r@ == default_options(),
    {
        KmsEncryptionFactoryOptions {
            encryption: EncryptionOptions::default(),
            decryption: DecryptionOptions::default(),
        }
    }
}

impl PartialEq for KmsEncryptionFactoryOptions {
    fn eq(&self, other: &Self) -> (r: bool) {
        self.encryption == other.encryption && self.decryption == other.decryption
    }
}

impl vstd::std_specs::cmp::PartialEqSpecImpl for KmsEncryptionFactoryOptions {
    open spec fn obeys_eq_spec() -> bool {
        true
    }

    open spec fn eq_spec(&self, other: &Self) -> bool {
        self@ == other@
    }
}

/// The options after each of a list of keys was set to its value, one after the other, up to the
/// first that cannot be set.
pub open spec fn options_with(options: OptionsModel, pairs: Seq<(Seq<char>, Seq<char>)>) -> Result<
    OptionsModel,
    ErrorModel,
>
    decreases pairs.len(),
{
    if pairs.len() == 0 {
        Ok(options)
    } else {
        match options_with(options, pairs.drop_last()) {
            Ok(before) => match option_set(before, pairs.last().0, pairs.last().1) {
                (after, Ok(_)) => Ok(after),
                (_, Err(e)) => Err(e),
            },
            Err(e) => Err(e),
        }
    }
}

/// What the reading of options came to.
pub open spec fn options_outcome(r: Result<KmsEncryptionFactoryOptions, Error>) -> Result<
    OptionsModel,
    ErrorModel,
> {
    match r {
        Ok(options) => Ok(options@),
        Err(e) => Err(e@),
    }
}

proof fn lemma_option_failure_lasts(
    options: OptionsModel,
    pairs: Seq<(Seq<char>, Seq<char>)>,
    n: int,
)
    requires
        0 <= n <= pairs.len(),
        options_with(options, pairs.take(n)) is Err,
    ensures
        options_with(options, pairs) == options_with(options, pairs.take(n)),
    decreases pairs.len(),
{
    if n == pairs.len() {
        assert(pairs.take(n) =~= pairs);
    } else {
        assert(pairs.drop_last().take(n) =~= pairs.take(n));
        lemma_option_failure_lasts(options, pairs.drop_last(), n);
    }
}

impl KmsEncryptionFactoryOptions {
    /// Create a new [`KmsEncryptionFactoryOptions`] from encryption and decryption configurations
    pub fn new(
        encryption_config: EncryptionConfiguration,
        decryption_config: DecryptionConfiguration,
    ) -> (r: Self)
        ensures
            r@ == (OptionsModel {
                encryption: options_from(encryption_config@),
                decryption: whole_seconds(decryption_config@),
            }),
    {
        KmsEncryptionFactoryOptions {
            encryption: EncryptionOptions::from(encryption_config),
            decryption: DecryptionOptions::from(decryption_config),
        }
    }

    /// Set an option, whose key starts with "encryption." or "decryption."
    pub fn set(&mut self, key: &str, value: &str) -> (r: Result<(), Error>)
        ensures
            final(self)@ == option_set(old(self)@, key@, value@).0,
            set_outcome(r) == option_set(old(self)@, key@, value@).1,
    {
        match split_text_once(key, '.') {
            Some((parent, rest)) => {
                if same_text(parent.as_str(), "decryption") {
                    self.decryption.set(rest.as_str(), value)
                } else if same_text(parent.as_str(), "encryption") {
                    self.encryption.set(rest.as_str(), value)
                } else {
                    Err(
                        Error::Configuration(
                            "Invalid configuration key for KMS encryption: ".to_owned().concat(
                                parent.as_str(),
                            ),
                        ),
                    )
                }
            },
            None => Err(
                Error::Configuration(
                    "Invalid configuration key for KMS encryption: ".to_owned().concat(key),
                ),
            ),
        }
    }

    /// List the options: those for decryption and then those for encryption
    pub fn entries(&self) -> (r: Vec<OptionEntry>)
        ensures
            entry_models(r@) == all_entries(self@),
    {
        let mut entries = self.decryption.prefixed_entries("decryption.");
        let mut encryption_entries = self.encryption.prefixed_entries("encryption.");
        let ghost first = entry_models(entries@);
        let ghost second = entry_models(encryption_entries@);
        entries.append(&mut encryption_entries);
        assert(entry_models(entries@) =~= first + second);
        entries
    }

    /// Read options from a list of keys and values
    pub fn from_pairs(pairs: &Vec<(String, String)>) -> (r: Result<Self, Error>)
        ensures
            options_outcome(r) == options_with(default_options(), crate::text_map::pairs(pairs@)),
    {
        let ghost all = crate::text_map::pairs(pairs@);
        let mut options = KmsEncryptionFactoryOptions::default();
        assert(all.take(0) =~= Seq::<(Seq<char>, Seq<char>)>::empty());
        for i in 0..pairs.len()
            invariant
                all == crate::text_map::pairs(pairs@),
                options_with(default_options(), all.take(i as int)) == Ok::<
                    OptionsModel,
                    ErrorModel,
                >(options@),
        {
            proof {
                assert(all.take(i + 1).drop_last() =~= all.take(i as int));
                assert(all.take(i + 1).last() == (pairs@[i as int].0@, pairs@[i as int].1@));
            }
            if let Err(e) = options.set(pairs[i].0.as_str(), pairs[i].1.as_str()) {
                proof {
                    lemma_option_failure_lasts(default_options(), all, i + 1);
                }
                return Err(e);
            }
        }
        assert(all.take(all.len() as int) =~= all);
        Ok(options)
    }
}

/// Whether a key with a value is among the options.
pub open spec fn is_entry(options: OptionsModel, pair: (Seq<char>, Seq<char>)) -> bool {
    exists|i: int|
        0 <= i < all_entries(options).len() && (#[trigger] all_entries(options)[i]).key == pair.0
            && all_entries(options)[i].value == Some(pair.1)
}

/// Whether a list of keys and values has a key.
pub open spec fn has_key(pairs: Seq<(Seq<char>, Seq<char>)>, key: Seq<char>) -> bool {
    exists|i: int| 0 <= i < pairs.len() && (#[trigger] pairs[i]).0 == key
}

/// The options of which some have been set, and the others have their default values.
spec fn partly_set(options: OptionsModel, pairs: Seq<(Seq<char>, Seq<char>)>) -> OptionsModel {
    let start = default_encryption_options();
    OptionsModel {
        encryption: EncryptionOptionsModel {
            footer_key_id: if has_key(pairs, "encryption."@ + "footer_key_id"@) {
                options.encryption.footer_key_id
            } else {
                start.footer_key_id
            },
            column_key_ids: if has_key(pairs, "encryption."@ + "column_key_ids"@) {
                options.encryption.column_key_ids
            } else {
                start.column_key_ids
            },
            plaintext_footer: if has_key(pairs, "encryption."@ + "plaintext_footer"@) {
                options.encryption.plaintext_footer
            } else {
                start.plaintext_footer
            },
            double_wrapping: if has_key(pairs, "encryption."@ + "double_wrapping"@) {
                options.encryption.double_wrapping
            } else {
                start.double_wrapping
            },
            cache_lifetime_s: if has_key(pairs, "encryption."@ + "cache_lifetime_s"@) {
                options.encryption.cache_lifetime_s
            } else {
                start.cache_lifetime_s
            },
            internal_key_material: if has_key(pairs, "encryption."@ + "internal_key_material"@) {
                options.encryption.internal_key_material
            } else {
                start.internal_key_material
            },
            data_key_length_bits: if has_key(pairs, "encryption."@ + "data_key_length_bits"@) {
                options.encryption.data_key_length_bits
            } else {
                start.data_key_length_bits
            },
        },
        decryption: if has_key(pairs, "decryption."@ + "cache_lifetime_s"@) {
            options.decryption
        } else {
            None
        },
    }
}

proof fn lemma_fields_differ()
    ensures
        "plaintext_footer"@ != "cache_lifetime_s"@,
        "footer_key_id"@.len() == 13,
        "column_key_ids"@.len() == 14,
        "plaintext_footer"@.len() == 16,
        "double_wrapping"@.len() == 15,
        "cache_lifetime_s"@.len() == 16,
        "internal_key_material"@.len() == 21,
        "data_key_length_bits"@.len() == 20,
        !"footer_key_id"@.contains('.'),
        !"column_key_ids"@.contains('.'),
        !"plaintext_footer"@.contains('.'),
        !"double_wrapping"@.contains('.'),
        !"cache_lifetime_s"@.contains('.'),
        !"internal_key_material"@.contains('.'),
        !"data_key_length_bits"@.contains('.'),
{
    reveal_with_fuel(lacks, 25);
    reveal_strlit("footer_key_id");
    lemma_lacks_all("footer_key_id"@, '.', 13);
    assert("footer_key_id"@.take(13) =~= "footer_key_id"@);
    reveal_strlit("column_key_ids");
    lemma_lacks_all("column_key_ids"@, '.', 14);
    assert("column_key_ids"@.take(14) =~= "column_key_ids"@);
    reveal_strlit("plaintext_footer");
    lemma_lacks_all("plaintext_footer"@, '.', 16);
    assert("plaintext_footer"@.take(16) =~= "plaintext_footer"@);
    reveal_strlit("double_wrapping");
    lemma_lacks_all("double_wrapping"@, '.', 15);
    assert("double_wrapping"@.take(15) =~= "double_wrapping"@);
    reveal_strlit("cache_lifetime_s");
    lemma_lacks_all("cache_lifetime_s"@, '.', 16);
    assert("cache_lifetime_s"@.take(16) =~= "cache_lifetime_s"@);
    reveal_strlit("internal_key_material");
    lemma_lacks_all("internal_key_material"@, '.', 21);
    assert("internal_key_material"@.take(21) =~= "internal_key_material"@);
    reveal_strlit("data_key_length_bits");
    lemma_lacks_all("data_key_length_bits"@, '.', 20);
    assert("data_key_length_bits"@.take(20) =~= "data_key_length_bits"@);
    assert("plaintext_footer"@[0] != "cache_lifetime_s"@[0]);
}

proof fn lemma_groups_differ()
    ensures
        "encryption."@ == "encryption"@.push('.'),
        "decryption."@ == "decryption"@.push('.'),
        "encryption"@ != "decryption"@,
        !"encryption"@.contains('.'),
        !"decryption"@.contains('.'),
{
    reveal_strlit("encryption");
    reveal_strlit("decryption");
    reveal_strlit("encryption.");
    reveal_strlit("decryption.");
    assert("encryption."@ =~= "encryption"@.push('.'));
    assert("decryption."@ =~= "decryption"@.push('.'));
    assert("encryption"@[0] != "decryption"@[0]);
    reveal_with_fuel(lacks, 12);
    lemma_lacks_all("encryption"@, '.', 10);
    assert("encryption"@.take(10) =~= "encryption"@);
    lemma_lacks_all("decryption"@, '.', 10);
    assert("decryption"@.take(10) =~= "decryption"@);
}

proof fn lemma_key_parts(field: Seq<char>)
    requires
        !field.contains('.'),
    ensures
        split_once("encryption."@ + field, '.') == Some(("encryption"@, field)),
        split_once("decryption."@ + field, '.') == Some(("decryption"@, field)),
        field_name(field) == field,
{
    lemma_groups_differ();
    law_split_once_undoes_concatenation("encryption"@, field, '.');
    law_split_once_undoes_concatenation("decryption"@, field, '.');
    lemma_split_once_absent(field, '.');
}

proof fn lemma_has_key_push(
    pairs: Seq<(Seq<char>, Seq<char>)>,
    pair: (Seq<char>, Seq<char>),
    key: Seq<char>,
)
    ensures
        has_key(pairs.push(pair), key) == (has_key(pairs, key) || pair.0 == key),
{
    if has_key(pairs, key) {
        let i = choose|i: int| 0 <= i < pairs.len() && (#[trigger] pairs[i]).0 == key;
        assert(pairs.push(pair)[i].0 == key);
    }
    assert(pairs.push(pair)[pairs.len() as int] == pair);
    if has_key(pairs.push(pair), key) && pair.0 != key {
        let i = choose|i: int|
            0 <= i < pairs.push(pair).len() && (#[trigger] pairs.push(pair)[i]).0 == key;
        assert(pairs[i].0 == key);
    }
}

proof fn lemma_entry_is_set(
    options: OptionsModel,
    done: Seq<(Seq<char>, Seq<char>)>,
    pair: (Seq<char>, Seq<char>),
)
    requires
        is_entry(options, pair),
    ensures
        option_set(partly_set(options, done), pair.0, pair.1) == (
            partly_set(options, done.push(pair)),
            Ok::<(), ErrorModel>(()),
        ),
{
    lemma_fields_differ();
    lemma_groups_differ();
    lemma_key_parts("footer_key_id"@);
    lemma_has_key_push(done, pair, "encryption."@ + "footer_key_id"@);
    lemma_key_parts("column_key_ids"@);
    lemma_has_key_push(done, pair, "encryption."@ + "column_key_ids"@);
    lemma_key_parts("plaintext_footer"@);
    lemma_has_key_push(done, pair, "encryption."@ + "plaintext_footer"@);
    lemma_key_parts("double_wrapping"@);
    lemma_has_key_push(done, pair, "encryption."@ + "double_wrapping"@);
    lemma_key_parts("cache_lifetime_s"@);
    lemma_has_key_push(done, pair, "encryption."@ + "cache_lifetime_s"@);
    lemma_key_parts("internal_key_material"@);
    lemma_has_key_push(done, pair, "encryption."@ + "internal_key_material"@);
    lemma_key_parts("data_key_length_bits"@);
    lemma_has_key_push(done, pair, "encryption."@ + "data_key_length_bits"@);
    lemma_has_key_push(done, pair, "decryption."@ + "cache_lifetime_s"@);
    law_written_flag_reads_back(options.encryption.plaintext_footer);
    law_written_flag_reads_back(options.encryption.double_wrapping);
    law_written_flag_reads_back(options.encryption.internal_key_material);
    law_written_number_reads_back(options.encryption.data_key_length_bits);
    if options.encryption.cache_lifetime_s is Some {
        law_written_number_reads_back(options.encryption.cache_lifetime_s->0);
    }
    if options.decryption is Some {
        law_written_number_reads_back(options.decryption->0);
    }
    let i = choose|i: int|
        0 <= i < all_entries(options).len() && (#[trigger] all_entries(options)[i]).key == pair.0
            && all_entries(options)[i].value == Some(pair.1);
    let before = partly_set(options, done);
    let after = partly_set(options, done.push(pair));
    if i == 0 {
        assert(pair.0 == "decryption."@ + "cache_lifetime_s"@);
        assert(split_once(pair.0, '.') == Some(("decryption"@, "cache_lifetime_s"@)));
        assert(after == OptionsModel { decryption: options.decryption, ..before });
    } else {
        assert(all_entries(options)[i] == encryption_entries(
            "encryption."@,
            options.encryption,
        )[i - 1]);
        if i == 1 {
            assert(pair.0 == "encryption."@ + "footer_key_id"@);
            assert(split_once(pair.0, '.') == Some(("encryption"@, "footer_key_id"@)));
            assert(after.encryption == EncryptionOptionsModel {
                footer_key_id: options.encryption.footer_key_id,
                ..before.encryption
            });
        } else if i == 2 {
            assert(pair.0 == "encryption."@ + "column_key_ids"@);
            assert(split_once(pair.0, '.') == Some(("encryption"@, "column_key_ids"@)));
            assert(after.encryption == EncryptionOptionsModel {
                column_key_ids: options.encryption.column_key_ids,
                ..before.encryption
            });
        } else if i == 3 {
            assert(pair.0 == "encryption."@ + "plaintext_footer"@);
            assert(split_once(pair.0, '.') == Some(("encryption"@, "plaintext_footer"@)));
            assert(after.encryption == EncryptionOptionsModel {
                plaintext_footer: options.encryption.plaintext_footer,
                ..before.encryption
            });
        } else if i == 4 {
            assert(pair.0 == "encryption."@ + "double_wrapping"@);
            assert(split_once(pair.0, '.') == Some(("encryption"@, "double_wrapping"@)));
            assert(after.encryption == EncryptionOptionsModel {
                double_wrapping: options.encryption.double_wrapping,
                ..before.encryption
            });
        } else if i == 5 {
            assert(pair.0 == "encryption."@ + "cache_lifetime_s"@);
            assert(split_once(pair.0, '.') == Some(("encryption"@, "cache_lifetime_s"@)));
            assert(after.encryption == EncryptionOptionsModel {
                cache_lifetime_s: options.encryption.cache_lifetime_s,
                ..before.encryption
            });
        } else if i == 6 {
            assert(pair.0 == "encryption."@ + "internal_key_material"@);
            assert(split_once(pair.0, '.') == Some(("encryption"@, "internal_key_material"@)));
            assert(after.encryption == EncryptionOptionsModel {
                internal_key_material: options.encryption.internal_key_material,
                ..before.encryption
            });
        } else if i == 7 {
            assert(pair.0 == "encryption."@ + "data_key_length_bits"@);
            assert(split_once(pair.0, '.') == Some(("encryption"@, "data_key_length_bits"@)));
            assert(after.encryption == EncryptionOptionsModel {
                data_key_length_bits: options.encryption.data_key_length_bits,
                ..before.encryption
            });
        }
    }
}

/// The options that are read from the list of their own keys and values, in whatever order, are
/// the same options.
pub proof fn law_options_read_back(options: OptionsModel, pairs: Seq<(Seq<char>, Seq<char>)>)
    requires
        forall|i: int| 0 <= i < pairs.len() ==> is_entry(options, #[trigger] pairs[i]),
        forall|i: int|
            0 <= i < all_entries(options).len() && (#[trigger] all_entries(options)[i]).value is Some
                ==> has_key(pairs, all_entries(options)[i].key),
    ensures
        options_with(default_options(), pairs) == Ok::<OptionsModel, ErrorModel>(options),
{
    lemma_options_partly_read(options, pairs);
    let decrypting = decryption_entries("decryption."@, options.decryption);
    let encrypting = encryption_entries("encryption."@, options.encryption);
    assert(all_entries(options)[0] == decrypting[0]);
    assert forall|i: int| 0 <= i < 7 implies all_entries(options)[i + 1] == #[trigger] encrypting[i] by {
    }
    assert(all_entries(options)[1] == encrypting[0]);
    assert(all_entries(options)[2] == encrypting[1]);
    assert(all_entries(options)[3] == encrypting[2]);
    assert(all_entries(options)[4] == encrypting[3]);
    assert(all_entries(options)[5] == encrypting[4]);
    assert(all_entries(options)[6] == encrypting[5]);
    assert(all_entries(options)[7] == encrypting[6]);
    assert(partly_set(options, pairs) == options);
}

proof fn lemma_options_partly_read(options: OptionsModel, pairs: Seq<(Seq<char>, Seq<char>)>)
    requires
        forall|i: int| 0 <= i < pairs.len() ==> is_entry(options, #[trigger] pairs[i]),
    ensures
        options_with(default_options(), pairs) == Ok::<OptionsModel, ErrorModel>(
            partly_set(options, pairs),
        ),
    decreases pairs.len(),
{
    if pairs.len() == 0 {
        assert(forall|key: Seq<char>| !has_key(pairs, key));
    } else {
        let front = pairs.drop_last();
        assert forall|i: int| 0 <= i < front.len() implies is_entry(options, #[trigger] front[i]) by {
            assert(front[i] == pairs[i]);
        }
        lemma_options_partly_read(options, front);
        assert(is_entry(options, pairs[pairs.len() - 1]));
        lemma_entry_is_set(options, front, pairs.last());
        assert(front.push(pairs.last()) =~= pairs);
    }
}

/// An encryption configuration that was converted to options and back is the same, except that the
/// cache lifetime is in whole seconds, as long as the column keys can be told apart in their text.
pub proof fn law_configuration_read_back(
    config: EncryptionModel,
    r: Result<EncryptionConfiguration, Error>,
)
    requires
        distinct_ids(config.column_key_ids),
        separable(config.column_key_ids),
        no_column_twice(assignments(config.column_key_ids)),
        unimplemented_setting(config) is None,
        converts(options_from(config), r),
    ensures
        r matches Ok(read) && read@ == (EncryptionModel {
            cache_lifetime: seconds_lifetime(whole_seconds(config.cache_lifetime)),
            ..config
        }),
{
    law_deserialization_undoes_serialization(config.column_key_ids);
}

/// Options for a configuration are refused for what encryption refuses the configuration for.
pub proof fn law_options_refuse_what_is_not_implemented(
    config: EncryptionModel,
    r: Result<EncryptionConfiguration, Error>,
)
    requires
        converts(options_from(config), r),
    ensures
        unimplemented_setting(config) matches Some(e) ==> (r matches Err(error) && error@ == e),
{
}

/// A cache lifetime of whole seconds is not changed by the conversion to seconds and back.
pub proof fn law_whole_seconds_read_back(seconds: Option<u64>)
    ensures
        whole_seconds(seconds_lifetime(seconds)) == seconds,
{
    if let Some(s) = seconds {
        assert(0 <= s * NANOS_PER_SEC <= u64::MAX * NANOS_PER_SEC) by (nonlinear_arith)
            requires
                s <= u64::MAX,
        ;
        assert((s * NANOS_PER_SEC) / (NANOS_PER_SEC as int) == s);
    }
}

/// Reads the decryption configuration from a list of keys and values.
pub fn build_decryption_configuration(options: &Vec<(String, String)>) -> (r: Result<
    DecryptionConfiguration,
    Error,
>)
    ensures
        match options_with(default_options(), crate::text_map::pairs(options@)) {
            Ok(read) => r matches Ok(config) && config@ == seconds_lifetime(read.decryption),
            Err(problem) => r matches Err(e) && e@ == problem,
        },
{
    match KmsEncryptionFactoryOptions::from_pairs(options) {
        Ok(kms_options) => kms_options.decryption.try_into(),
        Err(e) => Err(e),
    }
}

/// Reads the encryption configuration from a list of keys and values.
pub fn build_encryption_configuration(options: &Vec<(String, String)>) -> (r: Result<
    EncryptionConfiguration,
    Error,
>)
    ensures
        reads_configuration(crate::text_map::pairs(options@), r),
{
    match KmsEncryptionFactoryOptions::from_pairs(options) {
        Ok(kms_options) => kms_options.encryption.try_into(),
        Err(e) => Err(e),
    }
}

/// Whether reading the encryption configuration from keys and values has an outcome.
pub open spec fn reads_configuration(
    pairs: Seq<(Seq<char>, Seq<char>)>,
    r: Result<EncryptionConfiguration, Error>,
) -> bool {
    match options_with(default_options(), pairs) {
        Ok(read) => converts(read.encryption, r),
        Err(problem) => r matches Err(e) && e@ == problem,
    }
}

/// Encryption factory for DataFusion that uses a `CryptoFactory` to integrate with a KMS.
pub struct KmsEncryptionFactory<F: KmsClientFactory> {
    crypto_factory: CryptoFactory<F>,
    kms_connection_config: KmsConnectionConfig,
}

impl<F: KmsClientFactory> View for KmsEncryptionFactory<F> {
    type V = (ManagerModel<F>, ConfigModel);

    closed spec fn view(&self) -> (ManagerModel<F>, ConfigModel) {
        (self.crypto_factory@, self.kms_connection_config@)
    }
}

/// Whether making encryption properties can have an outcome, given what reading the configuration
/// came to.
pub open spec fn makes_configured_properties<F: KmsClientFactory>(
    before: ManagerModel<F>,
    after: ManagerModel<F>,
    config: ConfigModel,
    configuration: Result<EncryptionConfiguration, Error>,
    now: u128,
    outcome: Result<PropertiesModel, ErrorModel>,
) -> bool {
    match configuration {
        Ok(c) => makes_properties(before, after, config, c@, now, outcome),
        Err(e) => after == before && outcome == Err::<PropertiesModel, ErrorModel>(e@),
    }
}

impl<F: KmsClientFactory> KmsEncryptionFactory<F> {
    /// Create a new [`KmsEncryptionFactory`] with the provided [`CryptoFactory`] and
    /// [`KmsConnectionConfig`].
    pub fn new(
        crypto_factory: CryptoFactory<F>,
        kms_connection_config: KmsConnectionConfig,
    ) -> (r: Self)
        ensures
            r@ == (crypto_factory@, kms_connection_config@),
    {
        KmsEncryptionFactory { crypto_factory, kms_connection_config }
    }

    /// Update the key access token, also for what retrieves the keys of files already
    pub fn refresh_key_access_token(&mut self, key_access_token: String)
        ensures
            final(self)@ == (
                old(self)@.0,
                ConfigModel { key_access_token: key_access_token@, ..old(self)@.1 },
            ),
    {
        self.kms_connection_config.refresh_key_access_token(key_access_token);
    }

    /// Create file encryption properties using the options of a table
    pub fn get_file_encryption_properties(
        &mut self,
        options: &Vec<(String, String)>,
        now: Duration,
    ) -> (r: Result<FileEncryptionProperties, Error>)
        ensures
            final(self)@.1 == old(self)@.1,
            exists|configuration: Result<EncryptionConfiguration, Error>| #[trigger]
                reads_configuration(crate::text_map::pairs(options@), configuration)
                    && makes_configured_properties(
                    old(self)@.0,
                    final(self)@.0,
                    old(self)@.1,
                    configuration,
                    duration_nanos(now),
                    properties_outcome(r),
                ),
            r is Ok ==> one_shared_per_token(old(self)@.0.write_caches) && one_shared_per_token(
                final(self)@.0.write_caches,
            ),
    {
        let configuration = build_encryption_configuration(options);
        let ghost read = configuration;
        assert(reads_configuration(crate::text_map::pairs(options@), read));
        match configuration {
            Ok(encryption_configuration) => self.crypto_factory.file_encryption_properties(
                &self.kms_connection_config,
                &encryption_configuration,
                now,
            ),
            Err(e) => Err(e),
        }
    }

    /// Create what retrieves the decryption keys for a file using the options of a table
    pub fn get_file_decryption_properties(
        &mut self,
        options: &Vec<(String, String)>,
        now: Duration,
    ) -> (r: Result<KeyUnwrapper, Error>)
        ensures
            final(self)@.1 == old(self)@.1,
            match options_with(default_options(), crate::text_map::pairs(options@)) {
                Ok(read) => {
                    &&& r matches Ok(key_retriever) && {
                        &&& key_retriever@.config == old(self)@.1
                        &&& key_retriever@.cache_lifetime == seconds_lifetime(read.decryption)
                        &&& acquires(
                            old(self)@.0.read_caches,
                            final(self)@.0.read_caches,
                            old(self)@.1.key_access_token,
                            seconds_lifetime(read.decryption),
                            duration_nanos(now),
                            key_retriever@.cache,
                        )
                    }
                    &&& one_shared_per_token(old(self)@.0.read_caches)
                    &&& one_shared_per_token(final(self)@.0.read_caches)
                    &&& final(self)@.0 == (ManagerModel {
                        read_caches: final(self)@.0.read_caches,
                        ..old(self)@.0
                    })
                },
                Err(problem) => final(self)@ == old(self)@ && (r matches Err(e) && e@ == problem),
            },
    {
        match build_decryption_configuration(options) {
            Ok(decryption_configuration) => self.crypto_factory.file_decryption_properties(
                &self.kms_connection_config,
                decryption_configuration,
                now,
            ),
            Err(e) => Err(e),
        }
    }

    /// Retrieve the key for the key metadata of a file, with the access token of the factory
    pub fn retrieve_key(
        &mut self,
        key_retriever: &mut KeyUnwrapper,
        key_metadata: &[u8],
        now: Duration,
    ) -> (r: Result<Vec<u8>, Error>)
        ensures
            final(self)@.1 == old(self)@.1,
            retrieves(
                old(self)@.0,
                final(self)@.0,
                with_token(old(key_retriever)@, old(self)@.1.key_access_token),
                final(key_retriever)@,
                key_metadata@,
                duration_nanos(now),
                bytes_outcome(r),
            ),
            valid_utf8(key_metadata@) ==> reads_back(decode_utf8(key_metadata@)),
    {
        self.crypto_factory.retrieve_key(
            key_retriever,
            &self.kms_connection_config,
            key_metadata,
            now,
        )
    }

    /// The factory that makes the properties
    pub fn crypto_factory(&mut self) -> (r: &mut CryptoFactory<F>)
        ensures
            r@ == old(self)@.0,
            final(self)@ == (final(r)@, old(self)@.1),
    {
        &mut self.crypto_factory
    }
}

proof fn lemma_full_keys()
    ensures
        "encryption.footer_key_id"@ == "encryption."@ + "footer_key_id"@,
        split_once("encryption.footer_key_id"@, '.') == Some(("encryption"@, "footer_key_id"@)),
        field_name("footer_key_id"@) == "footer_key_id"@,
        "encryption.column_key_ids"@ == "encryption."@ + "column_key_ids"@,
        split_once("encryption.column_key_ids"@, '.') == Some(("encryption"@, "column_key_ids"@)),
        field_name("column_key_ids"@) == "column_key_ids"@,
        "encryption.plaintext_footer"@ == "encryption."@ + "plaintext_footer"@,
        split_once("encryption.plaintext_footer"@, '.') == Some(("encryption"@, "plaintext_footer"@)),
        field_name("plaintext_footer"@) == "plaintext_footer"@,
        "encryption.double_wrapping"@ == "encryption."@ + "double_wrapping"@,
        split_once("encryption.double_wrapping"@, '.') == Some(("encryption"@, "double_wrapping"@)),
        field_name("double_wrapping"@) == "double_wrapping"@,
        "encryption.cache_lifetime_s"@ == "encryption."@ + "cache_lifetime_s"@,
        split_once("encryption.cache_lifetime_s"@, '.') == Some(("encryption"@, "cache_lifetime_s"@)),
        field_name("cache_lifetime_s"@) == "cache_lifetime_s"@,
        "encryption.internal_key_material"@ == "encryption."@ + "internal_key_material"@,
        split_once("encryption.internal_key_material"@, '.') == Some(("encryption"@, "internal_key_material"@)),
        field_name("internal_key_material"@) == "internal_key_material"@,
        "encryption.data_key_length_bits"@ == "encryption."@ + "data_key_length_bits"@,
        split_once("encryption.data_key_length_bits"@, '.') == Some(("encryption"@, "data_key_length_bits"@)),
        field_name("data_key_length_bits"@) == "data_key_length_bits"@,
        "decryption.cache_lifetime_s"@ == "decryption."@ + "cache_lifetime_s"@,
        split_once("decryption.cache_lifetime_s"@, '.') == Some(
            ("decryption"@, "cache_lifetime_s"@),
        ),
{
    lemma_fields_differ();
    lemma_groups_differ();
    reveal_strlit("encryption.");
    reveal_strlit("decryption.");
    reveal_strlit("encryption.footer_key_id");
    reveal_strlit("footer_key_id");
    assert("encryption.footer_key_id"@ =~= "encryption."@ + "footer_key_id"@);
    lemma_key_parts("footer_key_id"@);
    reveal_strlit("encryption.column_key_ids");
    reveal_strlit("column_key_ids");
    assert("encryption.column_key_ids"@ =~= "encryption."@ + "column_key_ids"@);
    lemma_key_parts("column_key_ids"@);
    reveal_strlit("encryption.plaintext_footer");
    reveal_strlit("plaintext_footer");
    assert("encryption.plaintext_footer"@ =~= "encryption."@ + "plaintext_footer"@);
    lemma_key_parts("plaintext_footer"@);
    reveal_strlit("encryption.double_wrapping");
    reveal_strlit("double_wrapping");
    assert("encryption.double_wrapping"@ =~= "encryption."@ + "double_wrapping"@);
    lemma_key_parts("double_wrapping"@);
    reveal_strlit("encryption.cache_lifetime_s");
    reveal_strlit("cache_lifetime_s");
    assert("encryption.cache_lifetime_s"@ =~= "encryption."@ + "cache_lifetime_s"@);
    lemma_key_parts("cache_lifetime_s"@);
    reveal_strlit("encryption.internal_key_material");
    reveal_strlit("internal_key_material");
    assert("encryption.internal_key_material"@ =~= "encryption."@ + "internal_key_material"@);
    lemma_key_parts("internal_key_material"@);
    reveal_strlit("encryption.data_key_length_bits");
    reveal_strlit("data_key_length_bits");
    assert("encryption.data_key_length_bits"@ =~= "encryption."@ + "data_key_length_bits"@);
    lemma_key_parts("data_key_length_bits"@);
    reveal_strlit("decryption.cache_lifetime_s");
    assert("decryption.cache_lifetime_s"@ =~= "decryption."@ + "cache_lifetime_s"@);
}

/// Setting an option that is a text gives it this text, whatever it was before, and leaves all
/// other options.
pub proof fn law_set_replaces_texts(options: OptionsModel, value: Seq<char>)
    ensures
        option_set(options, "encryption.footer_key_id"@, value) == (
            OptionsModel {
                encryption: EncryptionOptionsModel { footer_key_id: value, ..options.encryption },
                ..options
            },
            Ok::<(), ErrorModel>(()),
        ),
        option_set(options, "encryption.column_key_ids"@, value) == (
            OptionsModel {
                encryption: EncryptionOptionsModel { column_key_ids: value, ..options.encryption },
                ..options
            },
            Ok::<(), ErrorModel>(()),
        ),
{
    lemma_full_keys();
    lemma_fields_differ();
    lemma_groups_differ();
}

/// Setting an option that is a flag to a text that reads as a flag gives it this flag, whatever it
/// was before, and leaves all other options.
pub proof fn law_set_replaces_flags(options: OptionsModel, value: Seq<char>, flag: bool)
    requires
        flag_read(value) == Ok::<bool, Seq<char>>(flag),
    ensures
        option_set(options, "encryption.plaintext_footer"@, value) == (
            OptionsModel {
                encryption: EncryptionOptionsModel { plaintext_footer: flag, ..options.encryption },
                ..options
            },
            Ok::<(), ErrorModel>(()),
        ),
        option_set(options, "encryption.double_wrapping"@, value) == (
            OptionsModel {
                encryption: EncryptionOptionsModel { double_wrapping: flag, ..options.encryption },
                ..options
            },
            Ok::<(), ErrorModel>(()),
        ),
        option_set(options, "encryption.internal_key_material"@, value) == (
            OptionsModel {
                encryption: EncryptionOptionsModel { internal_key_material: flag, ..options.encryption },
                ..options
            },
            Ok::<(), ErrorModel>(()),
        ),
{
    lemma_full_keys();
    lemma_fields_differ();
    lemma_groups_differ();
}

/// Setting an option that is a number to a text that reads as a number gives it this number,
/// whatever it was before, and leaves all other options.
pub proof fn law_set_replaces_numbers(options: OptionsModel, value: Seq<char>, number: u64)
    requires
        number_read(value) == Ok::<u64, Seq<char>>(number),
    ensures
        option_set(options, "encryption.cache_lifetime_s"@, value) == (
            OptionsModel {
                encryption: EncryptionOptionsModel { cache_lifetime_s: Some(number), ..options.encryption },
                ..options
            },
            Ok::<(), ErrorModel>(()),
        ),
        option_set(options, "encryption.data_key_length_bits"@, value) == (
            OptionsModel {
                encryption: EncryptionOptionsModel { data_key_length_bits: number, ..options.encryption },
                ..options
            },
            Ok::<(), ErrorModel>(()),
        ),
        option_set(options, "decryption.cache_lifetime_s"@, value) == (
            OptionsModel { decryption: Some(number), ..options },
            Ok::<(), ErrorModel>(()),
        ),
{
    lemma_full_keys();
    lemma_fields_differ();
    lemma_groups_differ();
}

/// Setting a flag to a text that does not read as a flag is an error that says why, and changes
/// nothing.
pub proof fn law_set_refuses_other_flags(
    options: OptionsModel,
    value: Seq<char>,
    problem: Seq<char>,
)
    requires
        flag_read(value) == Err::<bool, Seq<char>>(problem),
    ensures
        option_set(options, "encryption.plaintext_footer"@, value) == (
            options,
            Err::<(), ErrorModel>(ErrorModel::InvalidValue(problem)),
        ),
        option_set(options, "encryption.double_wrapping"@, value) == (
            options,
            Err::<(), ErrorModel>(ErrorModel::InvalidValue(problem)),
        ),
        option_set(options, "encryption.internal_key_material"@, value) == (
            options,
            Err::<(), ErrorModel>(ErrorModel::InvalidValue(problem)),
        ),
{
    lemma_full_keys();
    lemma_fields_differ();
    lemma_groups_differ();
}

/// Setting a number to a text that does not read as a number is an error that says why. It changes
/// nothing, except that a lifetime that was not set counts as zero then.
pub proof fn law_set_refuses_other_numbers(
    options: OptionsModel,
    value: Seq<char>,
    problem: Seq<char>,
)
    requires
        number_read(value) == Err::<u64, Seq<char>>(problem),
    ensures
        option_set(options, "encryption.data_key_length_bits"@, value) == (
            options,
            Err::<(), ErrorModel>(ErrorModel::InvalidValue(problem)),
        ),
        option_set(options, "encryption.cache_lifetime_s"@, value) == (
            OptionsModel {
                encryption: EncryptionOptionsModel {
                    cache_lifetime_s: if options.encryption.cache_lifetime_s is Some {
                        options.encryption.cache_lifetime_s
                    } else {
                        Some(0)
                    },
                    ..options.encryption
                },
                ..options
            },
            Err::<(), ErrorModel>(ErrorModel::InvalidValue(problem)),
        ),
        option_set(options, "decryption.cache_lifetime_s"@, value) == (
            OptionsModel {
                decryption: if options.decryption is Some {
                    options.decryption
                } else {
                    Some(0)
                },
                ..options
            },
            Err::<(), ErrorModel>(ErrorModel::InvalidValue(problem)),
        ),
{
    lemma_full_keys();
    lemma_fields_differ();
    lemma_groups_differ();
}

/// Setting what is not an option is an error and changes nothing: a key without a dot, one that is
/// in neither group of options, and one whose field is in none of them.
pub proof fn law_set_refuses_unknown_keys(
    options: OptionsModel,
    key: Seq<char>,
    group: Seq<char>,
    field: Seq<char>,
    value: Seq<char>,
)
    requires
        !group.contains('.'),
        !field.contains('.'),
        !key.contains('.'),
    ensures
        option_set(options, key, value) == (
            options,
            Err::<(), ErrorModel>(
                ErrorModel::Configuration("Invalid configuration key for KMS encryption: "@ + key),
            ),
        ),
        group != "encryption"@ && group != "decryption"@ ==> option_set(
            options,
            group.push('.') + field,
            value,
        ) == (
            options,
            Err::<(), ErrorModel>(
                ErrorModel::Configuration(
                    "Invalid configuration key for KMS encryption: "@ + group,
                ),
            ),
        ),
        field != "footer_key_id"@ && field != "column_key_ids"@ && field != "plaintext_footer"@
            && field != "double_wrapping"@ && field != "cache_lifetime_s"@ && field
            != "internal_key_material"@ && field != "data_key_length_bits"@ ==> option_set(
            options,
            "encryption."@ + field,
            value,
        ).0 == options && option_set(options, "encryption."@ + field, value).1 is Err,
        field != "cache_lifetime_s"@ ==> option_set(options, "decryption."@ + field, value).0
            == options && option_set(options, "decryption."@ + field, value).1 is Err,
{
    lemma_groups_differ();
    lemma_key_parts(field);
    lemma_split_once_absent(key, '.');
    law_split_once_undoes_concatenation(group, field, '.');
}

/// The list of options has each option under its key, with its value as a text.
pub proof fn law_entries_show_the_options(options: OptionsModel)
    ensures
        all_entries(options).len() == 8,
        all_entries(options)[0].key == "decryption.cache_lifetime_s"@,
        all_entries(options)[0].value == optional_number_text(options.decryption),
        all_entries(options)[1].key == "encryption.footer_key_id"@,
        all_entries(options)[1].value == Some(options.encryption.footer_key_id),
        all_entries(options)[2].key == "encryption.column_key_ids"@,
        all_entries(options)[2].value == Some(options.encryption.column_key_ids),
        all_entries(options)[3].key == "encryption.plaintext_footer"@,
        all_entries(options)[3].value == Some(flag_text(options.encryption.plaintext_footer)),
        all_entries(options)[4].key == "encryption.double_wrapping"@,
        all_entries(options)[4].value == Some(flag_text(options.encryption.double_wrapping)),
        all_entries(options)[5].key == "encryption.cache_lifetime_s"@,
        all_entries(options)[5].value == optional_number_text(options.encryption.cache_lifetime_s),
        all_entries(options)[6].key == "encryption.internal_key_material"@,
        all_entries(options)[6].value == Some(flag_text(options.encryption.internal_key_material)),
        all_entries(options)[7].key == "encryption.data_key_length_bits"@,
        all_entries(options)[7].value == Some(
            decimal(options.encryption.data_key_length_bits as nat),
        ),
{
    lemma_full_keys();
}

/// Setting the option of an entry successfully changes this entry alone, and what the entry shows
/// then is what setting any other options to the same text shows, whatever they were before.
pub proof fn law_set_changes_one_entry(
    options: OptionsModel,
    other: OptionsModel,
    i: int,
    value: Seq<char>,
)
    requires
        0 <= i < all_entries(options).len(),
        option_set(options, all_entries(options)[i].key, value).1 is Ok,
    ensures
        forall|j: int|
            0 <= j < all_entries(options).len() && j != i ==> #[trigger] all_entries(
                option_set(options, all_entries(options)[i].key, value).0,
            )[j] == all_entries(options)[j],
        option_set(other, all_entries(options)[i].key, value).1 is Ok,
        all_entries(option_set(options, all_entries(options)[i].key, value).0)[i] == all_entries(
            option_set(other, all_entries(options)[i].key, value).0,
        )[i],
        i == 1 || i == 2 ==> all_entries(
            option_set(options, all_entries(options)[i].key, value).0,
        )[i].value == Some(value),
{
    lemma_full_keys();
    lemma_fields_differ();
    lemma_groups_differ();
    law_entries_show_the_options(options);
    let after = option_set(options, all_entries(options)[i].key, value).0;
    assert forall|j: int| 0 <= j < 8 && j != i implies #[trigger] all_entries(after)[j]
        == all_entries(options)[j] by {
    }
}

/// The options for a configuration have each of its settings, with the cache lifetime in whole
/// seconds.
pub proof fn law_options_have_the_settings(config: EncryptionModel)
    ensures
        options_from(config).footer_key_id == config.footer_key_id,
        options_from(config).plaintext_footer == config.plaintext_footer,
        options_from(config).double_wrapping == config.double_wrapping,
        options_from(config).internal_key_material == config.internal_key_material,
        options_from(config).data_key_length_bits == config.data_key_length_bits,
        config.cache_lifetime is None ==> options_from(config).cache_lifetime_s is None,
        config.cache_lifetime matches Some(nanos) ==> options_from(config).cache_lifetime_s == Some(
            (nanos / 1_000_000_000) as u64,
        ),
        separable(config.column_key_ids) && distinct_ids(config.column_key_ids) ==> deserialized(
            options_from(config).column_key_ids,
        ) == Ok::<Seq<(Seq<char>, Seq<Seq<char>>)>, ErrorModel>(config.column_key_ids),
{
    if separable(config.column_key_ids) && distinct_ids(config.column_key_ids) {
        law_deserialization_undoes_serialization(config.column_key_ids);
    }
}

/// The configuration for options has each of their settings, and the column keys in their text.
pub proof fn law_configuration_has_the_options(
    options: EncryptionOptionsModel,
    config: EncryptionConfiguration,
)
    requires
        converts(options, Ok::<EncryptionConfiguration, Error>(config)),
    ensures
        config@.footer_key_id == options.footer_key_id,
        config@.plaintext_footer == options.plaintext_footer,
        config@.double_wrapping == options.double_wrapping,
        config@.internal_key_material == options.internal_key_material,
        config@.data_key_length_bits == options.data_key_length_bits,
        options.cache_lifetime_s is None ==> config@.cache_lifetime is None,
        options.cache_lifetime_s matches Some(seconds) ==> config@.cache_lifetime == Some(
            (seconds * 1_000_000_000) as u128,
        ),
        deserialized(options.column_key_ids) == Ok::<
            Seq<(Seq<char>, Seq<Seq<char>>)>,
            ErrorModel,
        >(config@.column_key_ids),
{
}

/// Cache lifetimes in options are in seconds. A fraction of a second is left out, and without a
/// lifetime there is none.
pub proof fn law_lifetimes_are_in_seconds(seconds: u64, fraction: u128)
    requires
        fraction < 1_000_000_000,
    ensures
        seconds_lifetime(Some(seconds)) == Some((seconds * 1_000_000_000) as u128),
        whole_seconds(Some((seconds * 1_000_000_000 + fraction) as u128)) == Some(seconds),
        seconds_lifetime(None) is None,
        whole_seconds(None) is None,
{
    assert((seconds * 1_000_000_000 + fraction) / 1_000_000_000 == seconds);
}

/// Options are set one after the other: those in the second part of a list are set in the options
/// that the first part leaves. The first that cannot be set gives the error.
pub proof fn law_options_are_set_in_turn(
    options: OptionsModel,
    first: Seq<(Seq<char>, Seq<char>)>,
    second: Seq<(Seq<char>, Seq<char>)>,
    key: Seq<char>,
    value: Seq<char>,
)
    ensures
        options_with(options, Seq::empty()) == Ok::<OptionsModel, ErrorModel>(options),
        option_set(options, key, value).1 is Ok ==> options_with(options, seq![(key, value)])
            == Ok::<OptionsModel, ErrorModel>(option_set(options, key, value).0),
        option_set(options, key, value).1 matches Err(e) ==> options_with(
            options,
            seq![(key, value)],
        ) == Err::<OptionsModel, ErrorModel>(e),
        options_with(options, first + second) == (match options_with(options, first) {
            Ok(between) => options_with(between, second),
            Err(e) => Err(e),
        }),
    decreases second.len(),
{
    let one = seq![(key, value)];
    assert(one.drop_last() =~= Seq::<(Seq<char>, Seq<char>)>::empty());
    assert(options_with(options, one.drop_last()) == Ok::<OptionsModel, ErrorModel>(options));
    if second.len() == 0 {
        assert(first + second =~= first);
    } else {
        assert((first + second).drop_last() =~= first + second.drop_last());
        law_options_are_set_in_turn(options, first, second.drop_last(), key, value);
    }
}

/// Where no option is set, there are no master keys and no lifetimes, the footer is encrypted, keys
/// are double wrapped and stored inside the file, and have 128 bits.
pub proof fn law_options_have_defaults()
    ensures
        default_options().decryption is None,
        default_options().encryption.footer_key_id.len() == 0,
        default_options().encryption.column_key_ids.len() == 0,
        !default_options().encryption.plaintext_footer,
        default_options().encryption.double_wrapping,
        default_options().encryption.cache_lifetime_s is None,
        default_options().encryption.internal_key_material,
        default_options().encryption.data_key_length_bits == 128,
{
    reveal_strlit("");
}

/// Options for key material outside of the file are refused, and those for data keys that do not
/// have 128 bits, before the column keys are read. Column keys that cannot be read are refused with
/// the reason, and so are columns with more than one key.
pub proof fn law_unusable_options_are_refused(
    options: EncryptionOptionsModel,
    r: Result<EncryptionConfiguration, Error>,
)
    requires
        converts(options, r),
    ensures
        !options.internal_key_material ==> (r matches Err(e) && e@ == ErrorModel::Nyi(
            "External key material is not yet implemented"@,
        )),
        options.internal_key_material && options.data_key_length_bits != 128 ==> (r matches Err(e)
            && e@ == ErrorModel::Nyi("Only 128 bit data keys are currently implemented"@)),
        options.internal_key_material && options.data_key_length_bits == 128 ==> (deserialized(
            options.column_key_ids,
        ) matches Err(problem) ==> (r matches Err(e) && e@ == problem)),
        options.internal_key_material && options.data_key_length_bits == 128 ==> (deserialized(
            options.column_key_ids,
        ) matches Ok(keys) ==> (r is Ok <==> no_column_twice(assignments(keys)))),
{
}

/// What follows a further dot in a key does not count.
pub proof fn law_rest_of_a_key_does_not_count(
    options: EncryptionOptionsModel,
    cache_lifetime_s: Option<u64>,
    field: Seq<char>,
    rest: Seq<char>,
    value: Seq<char>,
)
    requires
        !field.contains('.'),
    ensures
        encryption_set(options, field + seq!['.'] + rest, value) == encryption_set(
            options,
            field,
            value,
        ),
        decryption_set(cache_lifetime_s, field + seq!['.'] + rest, value) == decryption_set(
            cache_lifetime_s,
            field,
            value,
        ),
{
    assert(field + seq!['.'] + rest =~= field.push('.') + rest);
    law_split_once_undoes_concatenation(field, rest, '.');
    lemma_split_once_absent(field, '.');
}

/// The error for an option that there is not names it, and where it was looked for.
pub proof fn law_unknown_options_are_named(
    options: OptionsModel,
    group: Seq<char>,
    field: Seq<char>,
    value: Seq<char>,
)
    requires
        !field.contains('.'),
    ensures
        group == "encryption"@ && field != "footer_key_id"@ && field != "column_key_ids"@ && field
            != "plaintext_footer"@ && field != "double_wrapping"@ && field != "cache_lifetime_s"@
            && field != "internal_key_material"@ && field != "data_key_length_bits"@
            ==> option_set(options, group + seq!['.'] + field, value).1 == Err::<(), ErrorModel>(
            ErrorModel::Configuration(
                "Config value \""@ + field + "\" not found on "@ + "EncryptionOptions"@,
            ),
        ),
        group == "decryption"@ && field != "cache_lifetime_s"@ ==> option_set(
            options,
            group + seq!['.'] + field,
            value,
        ).1 == Err::<(), ErrorModel>(
            ErrorModel::Configuration(
                "Config value \""@ + field + "\" not found on "@ + "DecryptionOptions"@,
            ),
        ),
{
    lemma_groups_differ();
    lemma_split_once_absent(field, '.');
    if group == "encryption"@ || group == "decryption"@ {
        assert(group + seq!['.'] + field =~= group.push('.') + field);
        law_split_once_undoes_concatenation(group, field, '.');
    }
}

/// The list of options describes each option.
pub proof fn law_entries_are_described(options: OptionsModel)
    ensures
        all_entries(options)[0].description
            == "How long in seconds to cache objects used during decryption"@,
        all_entries(options)[1].description == "Master key identifier for footer key encryption"@,
        all_entries(options)[2].description
            == "List of master key ids and the columns to be encrypted with each key, formatted like \"columnKeyId1:column1,column2;columnKeyId2:column3\""@,
        all_entries(options)[3].description == "Whether to write footer metadata unencrypted"@,
        all_entries(options)[4].description
            == "Whether to encrypt data encryption keys with key encryption keys, before wrapping with the master key"@,
        all_entries(options)[5].description
            == "How long in seconds to cache objects used during encryption"@,
        all_entries(options)[6].description
            == "Whether to store encryption key material inside Parquet files"@,
        all_entries(options)[7].description == "Length of data encryption keys to generate"@,
{
}

/// A table with the options for a configuration gives files this configuration, with the cache
/// lifetime in whole seconds, as long as the column keys can be told apart in their text.
pub proof fn law_table_options_give_the_configuration(
    config: EncryptionModel,
    decryption: Option<u64>,
    pairs: Seq<(Seq<char>, Seq<char>)>,
    r: Result<EncryptionConfiguration, Error>,
)
    requires
        distinct_ids(config.column_key_ids),
        separable(config.column_key_ids),
        no_column_twice(assignments(config.column_key_ids)),
        config.internal_key_material,
        config.data_key_length_bits == 128,
        forall|i: int|
            0 <= i < pairs.len() ==> is_entry(
                OptionsModel { encryption: options_from(config), decryption },
                #[trigger] pairs[i],
            ),
        forall|i: int|
            0 <= i < 8 && (#[trigger] all_entries(
                OptionsModel { encryption: options_from(config), decryption },
            )[i]).value is Some ==> has_key(
                pairs,
                all_entries(OptionsModel { encryption: options_from(config), decryption })[i].key,
            ),
        reads_configuration(pairs, r),
    ensures
        r matches Ok(read) && read@ == (EncryptionModel {
            cache_lifetime: seconds_lifetime(whole_seconds(config.cache_lifetime)),
            ..config
        }),
{
    law_options_read_back(OptionsModel { encryption: options_from(config), decryption }, pairs);
    law_configuration_read_back(config, r);
}

/// Options that are refused make no file: the error is returned, and nothing is asked for or kept.
/// Others make the file that the configuration makes.
pub proof fn law_refused_options_make_no_file<F: KmsClientFactory>(
    before: ManagerModel<F>,
    after: ManagerModel<F>,
    config: ConfigModel,
    pairs: Seq<(Seq<char>, Seq<char>)>,
    configuration: Result<EncryptionConfiguration, Error>,
    now: u128,
    outcome: Result<PropertiesModel, ErrorModel>,
)
    requires
        reads_configuration(pairs, configuration),
        makes_configured_properties(before, after, config, configuration, now, outcome),
    ensures
        options_with(default_options(), pairs) matches Err(e) ==> after == before && outcome
            == Err::<PropertiesModel, ErrorModel>(e),
        configuration matches Err(e) ==> after == before && outcome == Err::<
            PropertiesModel,
            ErrorModel,
        >(e@),
        configuration matches Ok(c) ==> makes_properties(before, after, config, c@, now, outcome),
{
}

} // verus!
