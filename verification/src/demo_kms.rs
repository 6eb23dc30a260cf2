//! An example of a KMS that uses in-memory AES keys. A real KMS client should interact with a Key
//! Management Server to encrypt and decrypt keys.

use std::sync::Arc;
use vstd::prelude::*;
use vstd::utf8::encode_utf8;

use crate::assoc_map::AssocMap;
use crate::crypto::KEY_LENGTH;
use crate::crypto::NONCE_LENGTH;
use crate::crypto::TAG_LENGTH;
use crate::crypto::base64_decoded;
use crate::crypto::base64_fits;
use crate::crypto::fits_in_base64;
use crate::error::Error;
use crate::error::ErrorModel;
use crate::error::bytes_outcome;
use crate::error::text_outcome;
use crate::key_encryption::decode_encrypted_key;
use crate::key_encryption::decrypted_key;
use crate::key_encryption::encrypt_encryption_key;
use crate::key_encryption::encrypted_bytes;
use crate::key_encryption::encrypts;
use crate::key_encryption::open_encrypted_key;
use crate::key_encryption::opened_key;
use crate::kms::ConfigModel;
use crate::kms::KmsClient;
use crate::kms::KmsClientFactory;
use crate::kms::KmsConnectionConfig;
use crate::kms::is_client;
use crate::kms::is_faithful;
use crate::kms::is_reliable;
use crate::kms::unwraps;
use crate::kms::wraps;
use crate::kms_manager::share;

verus! {

/// Why a master key cannot be used, if it cannot.
pub open spec fn master_key_problem(
    keys: Map<Seq<char>, Vec<u8>>,
    master_key_identifier: Seq<char>,
) -> Option<ErrorModel> {
    if !keys.contains_key(master_key_identifier) {
        Some(ErrorModel::General("Invalid master key '"@ + master_key_identifier + "'"@))
    } else if keys[master_key_identifier]@.len() != KEY_LENGTH {
        Some(ErrorModel::General("Error creating AES key 'ring::error::Unspecified'"@))
    } else {
        None
    }
}

/// The key that a wrapped key unwraps to. A key that cannot be decoded is reported before the
/// master key is looked up.
pub open spec fn demo_unwrapped(
    keys: Map<Seq<char>, Vec<u8>>,
    wrapped_key: Seq<char>,
    master_key_identifier: Seq<char>,
) -> Result<Seq<u8>, ErrorModel> {
    match encrypted_bytes(wrapped_key) {
        Err(e) => Err(e),
        Ok(bytes) => match master_key_problem(keys, master_key_identifier) {
            Some(e) => Err(e),
            None => opened_key(
                bytes,
                encode_utf8(master_key_identifier),
                keys[master_key_identifier]@,
            ),
        },
    }
}

/// Whether wrapping a key can have an outcome.
pub open spec fn demo_wraps(
    keys: Map<Seq<char>, Vec<u8>>,
    key: Seq<u8>,
    master_key_identifier: Seq<char>,
    outcome: Result<Seq<char>, ErrorModel>,
) -> bool {
    match master_key_problem(keys, master_key_identifier) {
        Some(e) => outcome == Err::<Seq<char>, ErrorModel>(e),
        None => if !base64_fits(NONCE_LENGTH + key.len() + TAG_LENGTH) {
            outcome == Err::<Seq<char>, ErrorModel>(
                ErrorModel::General("Key is too long to be wrapped"@),
            )
        } else {
            encrypts(
                key,
                encode_utf8(master_key_identifier),
                keys[master_key_identifier]@,
                outcome,
            )
        },
    }
}

/// Example KMS client that uses in-memory AES keys.
pub struct DemoKmsClient {
    key_map: Arc<AssocMap<String, Vec<u8>>>,
}

impl View for DemoKmsClient {
    type V = Map<Seq<char>, Vec<u8>>;

    closed spec fn view(&self) -> Map<Seq<char>, Vec<u8>> {
        (*self.key_map)@
    }
}

impl DemoKmsClient {
    /// Get the AES key corresponding to a key identifier
    fn get_key(&self, master_key_identifier: &str) -> (r: Result<&Vec<u8>, Error>)
        ensures
            match r {
                Ok(key) => master_key_problem(self@, master_key_identifier@) is None && *key
                    == self@[master_key_identifier@],
                Err(e) => master_key_problem(self@, master_key_identifier@) == Some(e@),
            },
    {
        match self.key_map.get(&master_key_identifier.to_owned()) {
            Some(key) => {
                if key.len() == KEY_LENGTH {
                    Ok(key)
                } else {
                    Err(
                        Error::General(
                            "Error creating AES key 'ring::error::Unspecified'".to_owned(),
                        ),
                    )
                }
            },
            None => Err(
                Error::General(
                    "Invalid master key '".to_owned().concat(master_key_identifier).concat("'"),
                ),
            ),
        }
    }
}

impl KmsClient for DemoKmsClient {
    /// Take a randomly generated key and encrypt it using the specified master key
    fn wrap_key(&self, key_bytes: &[u8], master_key_identifier: &str) -> (r: Result<String, Error>)
        ensures
            demo_wraps(self@, key_bytes@, master_key_identifier@, text_outcome(r)),
            r matches Ok(wrapped) ==> demo_unwrapped(self@, wrapped@, master_key_identifier@)
                == Ok::<Seq<u8>, ErrorModel>(key_bytes@),
    {
        let master_key = match self.get_key(master_key_identifier) {
            Ok(key) => key,
            Err(e) => return Err(e),
        };
        let length: u128 = key_bytes.len() as u128;
        if !fits_in_base64(NONCE_LENGTH as u128 + length + TAG_LENGTH as u128) {
            return Err(Error::General("Key is too long to be wrapped".to_owned()));
        }
        let aad = master_key_identifier.as_bytes_vec();
        encrypt_encryption_key(key_bytes, aad.as_slice(), master_key.as_slice())
    }

    /// Take an encrypted key and decrypt it using the specified master key identifier
    fn unwrap_key(&self, wrapped_key: &str, master_key_identifier: &str) -> (r: Result<
        Vec<u8>,
        Error,
    >)
        ensures
            bytes_outcome(r) == demo_unwrapped(self@, wrapped_key@, master_key_identifier@),
    {
        let bytes = match decode_encrypted_key(wrapped_key) {
            Ok(bytes) => bytes,
            Err(e) => return Err(e),
        };
        let master_key = match self.get_key(master_key_identifier) {
            Ok(key) => key,
            Err(e) => return Err(e),
        };
        let aad = master_key_identifier.as_bytes_vec();
        open_encrypted_key(bytes.as_slice(), aad.as_slice(), master_key.as_slice())
    }
}

/// Creates [`DemoKmsClient`] instances.
pub struct DemoKmsClientFactory {
    key_map: Arc<AssocMap<String, Vec<u8>>>,
}

impl View for DemoKmsClientFactory {
    type V = Map<Seq<char>, Vec<u8>>;

    closed spec fn view(&self) -> Map<Seq<char>, Vec<u8>> {
        (*self.key_map)@
    }
}

impl DemoKmsClientFactory {
    /// Creates a factory for clients with the master keys "kf", "kc1" and "kc2".
    pub fn with_default_keys() -> (r: Self)
        ensures
            r@.dom() == set!["kf"@, "kc1"@, "kc2"@],
            r@["kf"@]@ == encode_utf8("0123456789012345"@),
            r@["kc1"@]@ == encode_utf8("1234567890123450"@),
            r@["kc2"@]@ == encode_utf8("1234567890123451"@),
            master_key_problem(r@, "kf"@) is None,
            master_key_problem(r@, "kc1"@) is None,
            master_key_problem(r@, "kc2"@) is None,
    {
        let mut key_map: AssocMap<String, Vec<u8>> = AssocMap::new();
        proof {
            reveal_strlit("kf");
            reveal_strlit("kc1");
            reveal_strlit("kc2");
            assert("kc1"@[2] != "kc2"@[2]);
            assert("kf"@.len() == 2 && "kc1"@.len() == 3 && "kc2"@.len() == 3);
            reveal_strlit("0123456789012345");
            reveal_strlit("1234567890123450");
            reveal_strlit("1234567890123451");
            vstd::utf8::is_ascii_chars_encode_utf8("0123456789012345"@);
            vstd::utf8::is_ascii_chars_encode_utf8("1234567890123450"@);
            vstd::utf8::is_ascii_chars_encode_utf8("1234567890123451"@);
        }
        key_map.insert("kf".to_owned(), "0123456789012345".as_bytes_vec());
        key_map.insert("kc1".to_owned(), "1234567890123450".as_bytes_vec());
        key_map.insert("kc2".to_owned(), "1234567890123451".as_bytes_vec());
        assert(key_map@.dom() =~= set!["kf"@, "kc1"@, "kc2"@]);
        DemoKmsClientFactory { key_map: Arc::new(key_map) }
    }
}

impl KmsClientFactory for DemoKmsClientFactory {
    type Client = DemoKmsClient;

    fn create_client(&self, kms_connection_config: &KmsConnectionConfig) -> (r: Result<
        DemoKmsClient,
        Error,
    >)
        ensures
            r matches Ok(client) && client@ == self@,
    {
        Ok(DemoKmsClient { key_map: share(&self.key_map) })
    }
}

/// The example KMS never gives back another key than the one that it wrapped.
pub proof fn law_demo_kms_is_faithful(factory: DemoKmsClientFactory)
    ensures
        is_faithful(factory),
{
    assert forall|
        wrapping: DemoKmsClient,
        unwrapping: DemoKmsClient,
        key: Seq<u8>,
        master_key_id: Seq<char>,
        wrapped: Seq<char>,
        unwrapped: Seq<u8>,
    |
        is_client(factory, wrapping) && is_client(factory, unwrapping) && #[trigger] wraps(
            wrapping,
            key,
            master_key_id,
            Ok::<Seq<char>, ErrorModel>(wrapped),
        ) && #[trigger] unwraps(
            unwrapping,
            wrapped,
            master_key_id,
            Ok::<Seq<u8>, ErrorModel>(unwrapped),
        ) implies unwrapped == key by {
        assert(wrapping@ == factory@ && unwrapping@ == factory@);
        assert(demo_unwrapped(factory@, wrapped, master_key_id) == Ok::<Seq<u8>, ErrorModel>(key));
    }
}

/// The example KMS gives back every key that it wrapped, whatever the configuration.
pub proof fn law_demo_kms_is_reliable(factory: DemoKmsClientFactory, config: ConfigModel)
    ensures
        is_reliable(factory, config),
{
    law_demo_kms_is_faithful(factory);
    assert forall|
        wrapping: DemoKmsClient,
        unwrapping: DemoKmsClient,
        key: Seq<u8>,
        master_key_id: Seq<char>,
        wrapped: Seq<char>,
        error: ErrorModel,
    |
        is_client(factory, wrapping) && is_client(factory, unwrapping) && #[trigger] wraps(
            wrapping,
            key,
            master_key_id,
            Ok::<Seq<char>, ErrorModel>(wrapped),
        ) implies !(#[trigger] unwraps(
        unwrapping,
        wrapped,
        master_key_id,
        Err::<Seq<u8>, ErrorModel>(error),
    )) by {
        assert(wrapping@ == factory@ && unwrapping@ == factory@);
        assert(demo_unwrapped(factory@, wrapped, master_key_id) == Ok::<Seq<u8>, ErrorModel>(key));
    }
}

/// The example KMS decrypts a wrapped key with the master key that was asked for, and with the
/// bytes of its identifier as additional authenticated data. It refuses master keys that it does
/// not have and those that do not have sixteen bytes.
pub proof fn law_demo_kms_unwraps_with_the_master_key(
    keys: Map<Seq<char>, Vec<u8>>,
    wrapped_key: Seq<char>,
    id: Seq<char>,
)
    ensures
        base64_decoded(wrapped_key) is Ok ==> if !keys.contains_key(id) {
            demo_unwrapped(keys, wrapped_key, id) == Err::<Seq<u8>, ErrorModel>(
                ErrorModel::General("Invalid master key '"@ + id + "'"@),
            )
        } else if keys[id]@.len() != 16 {
            demo_unwrapped(keys, wrapped_key, id) == Err::<Seq<u8>, ErrorModel>(
                ErrorModel::General("Error creating AES key 'ring::error::Unspecified'"@),
            )
        } else {
            demo_unwrapped(keys, wrapped_key, id) == decrypted_key(
                wrapped_key,
                encode_utf8(id),
                keys[id]@,
            )
        },
        base64_decoded(wrapped_key) matches Err(problem) ==> demo_unwrapped(keys, wrapped_key, id)
            == Err::<Seq<u8>, ErrorModel>(
            ErrorModel::General("Error base64 decoding wrapped key: "@ + problem),
        ),
{
}

/// The example KMS encrypts a key with the master key that was asked for, and with the bytes of its
/// identifier as additional authenticated data. It refuses master keys that it does not have and
/// those that do not have sixteen bytes.
pub proof fn law_demo_kms_wraps_with_the_master_key(
    keys: Map<Seq<char>, Vec<u8>>,
    key: Seq<u8>,
    id: Seq<char>,
    outcome: Result<Seq<char>, ErrorModel>,
)
    requires
        demo_wraps(keys, key, id, outcome),
    ensures
        if !keys.contains_key(id) {
            outcome == Err::<Seq<char>, ErrorModel>(
                ErrorModel::General("Invalid master key '"@ + id + "'"@),
            )
        } else if keys[id]@.len() != 16 {
            outcome == Err::<Seq<char>, ErrorModel>(
                ErrorModel::General("Error creating AES key 'ring::error::Unspecified'"@),
            )
        } else if (12 + key.len() + 16 + 2) / 3 * 4 > isize::MAX {
            outcome == Err::<Seq<char>, ErrorModel>(
                ErrorModel::General("Key is too long to be wrapped"@),
            )
        } else {
            encrypts(key, encode_utf8(id), keys[id]@, outcome)
        },
{
}

} // verus!
