//! Encryption of data encryption keys with key encryption keys.

use vstd::prelude::*;

use crate::crypto::Generator;
use crate::crypto::NONCE_LENGTH;
use crate::crypto::TAG_LENGTH;
use crate::crypto::aes_gcm_open;
use crate::crypto::aes_gcm_opened;
use crate::crypto::aes_gcm_seal;
use crate::crypto::aes_gcm_sealed;
use crate::crypto::base64_decode;
use crate::crypto::base64_decoded;
use crate::crypto::base64_encode;
use crate::crypto::base64_fits;
use crate::crypto::base64_text;
use crate::crypto::draw_failed;
use crate::crypto::drawn;
use crate::crypto::sealable;
use crate::crypto::unspecified;
use crate::crypto::unspecified_error;
use crate::error::Error;
use crate::error::ErrorModel;
use crate::error::bytes_outcome;
use crate::error::text_outcome;

verus! {

/// The text of a key encrypted with a given nonce: the base64 encoding of the nonce followed by
/// the sealed key.
pub open spec fn encrypted_key(
    nonce: Seq<u8>,
    dek: Seq<u8>,
    kek_id: Seq<u8>,
    kek: Seq<u8>,
) -> Result<Seq<char>, ErrorModel> {
    if sealable(kek, nonce, kek_id, dek) {
        Ok(base64_text(nonce + aes_gcm_sealed(kek, nonce, kek_id, dek)))
    } else {
        Err(unspecified())
    }
}

/// The key that the bytes of an encrypted key decrypt to.
pub open spec fn opened_key(bytes: Seq<u8>, kek_id: Seq<u8>, kek: Seq<u8>) -> Result<
    Seq<u8>,
    ErrorModel,
> {
    if bytes.len() < NONCE_LENGTH {
        Err(ErrorModel::General("Wrapped key is too short to contain a nonce"@))
    } else {
        match aes_gcm_opened(
            kek,
            bytes.take(NONCE_LENGTH as int),
            kek_id,
            bytes.skip(NONCE_LENGTH as int),
        ) {
            Some(dek) => Ok(dek),
            None => Err(unspecified()),
        }
    }
}

/// The bytes of an encrypted key.
pub open spec fn encrypted_bytes(encrypted: Seq<char>) -> Result<Seq<u8>, ErrorModel> {
    match base64_decoded(encrypted) {
        Ok(bytes) => Ok(bytes),
        Err(e) => Err(ErrorModel::General("Error base64 decoding wrapped key: "@ + e)),
    }
}

/// The key that an encrypted key decrypts to.
pub open spec fn decrypted_key(encrypted: Seq<char>, kek_id: Seq<u8>, kek: Seq<u8>) -> Result<
    Seq<u8>,
    ErrorModel,
> {
    match encrypted_bytes(encrypted) {
        Ok(bytes) => opened_key(bytes, kek_id, kek),
        Err(e) => Err(e),
    }
}

/// Whether an outcome is possible for the encryption of a key with a random nonce.
pub open spec fn encrypts(
    dek: Seq<u8>,
    kek_id: Seq<u8>,
    kek: Seq<u8>,
    outcome: Result<Seq<char>, ErrorModel>,
) -> bool {
    ||| draw_failed(NONCE_LENGTH) && outcome == Err::<Seq<char>, ErrorModel>(unspecified())
    ||| exists|nonce: Seq<u8>|
        nonce.len() == NONCE_LENGTH && drawn(nonce, NONCE_LENGTH) && outcome
            == #[trigger] encrypted_key(nonce, dek, kek_id, kek)
}

/// Encrypts a key using a given nonce. An encrypted key decrypts to the same key.
pub fn encrypt_with_nonce(nonce: &[u8], dek: &[u8], kek_id: &[u8], kek: &[u8]) -> (r: Result<
    String,
    Error,
>)
    requires
        base64_fits(NONCE_LENGTH + dek@.len() + TAG_LENGTH),
    ensures
        text_outcome(r) == encrypted_key(nonce@, dek@, kek_id@, kek@),
        r matches Ok(encrypted) ==> decrypted_key(encrypted@, kek_id@, kek@) == Ok::<
            Seq<u8>,
            ErrorModel,
        >(dek@),
{
    match aes_gcm_seal(kek, nonce, kek_id, dek) {
        Ok(sealed) => {
            let mut bytes: Vec<u8> = Vec::new();
            bytes.extend_from_slice(nonce);
            bytes.extend_from_slice(sealed.as_slice());
            assert(bytes@ =~= nonce@ + sealed@);
            assert(bytes@.take(NONCE_LENGTH as int) =~= nonce@);
            assert(bytes@.skip(NONCE_LENGTH as int) =~= sealed@);
            Ok(base64_encode(bytes.as_slice()))
        },
        Err(e) => Err(unspecified_error(e)),
    }
}

/// Encrypts a data encryption key with a key encryption key, using AES-GCM with a random nonce and
/// the key encryption key's id as additional authenticated data. An encrypted key decrypts to the
/// same key.
pub fn encrypt_encryption_key(dek: &[u8], kek_id: &[u8], kek: &[u8]) -> (r: Result<String, Error>)
    requires
        base64_fits(NONCE_LENGTH + dek@.len() + TAG_LENGTH),
    ensures
        encrypts(dek@, kek_id@, kek@, text_outcome(r)),
        r matches Ok(encrypted) ==> decrypted_key(encrypted@, kek_id@, kek@) == Ok::<
            Seq<u8>,
            ErrorModel,
        >(dek@),
{
    match Generator::new().draw(NONCE_LENGTH) {
        Ok(nonce) => encrypt_with_nonce(nonce.as_slice(), dek, kek_id, kek),
        Err(e) => Err(unspecified_error(e)),
    }
}

/// Decodes the bytes of an encrypted key.
pub fn decode_encrypted_key(encrypted: &str) -> (r: Result<Vec<u8>, Error>)
    ensures
        bytes_outcome(r) == encrypted_bytes(encrypted@),
{
    match base64_decode(encrypted) {
        Ok(bytes) => Ok(bytes),
        Err(e) => Err(
            Error::General("Error base64 decoding wrapped key: ".to_owned().concat(e.as_str())),
        ),
    }
}

/// Decrypts a key, given the bytes of the encrypted key.
pub fn open_encrypted_key(bytes: &[u8], kek_id: &[u8], kek: &[u8]) -> (r: Result<Vec<u8>, Error>)
    ensures
        bytes_outcome(r) == opened_key(bytes@, kek_id@, kek@),
{
    if bytes.len() < NONCE_LENGTH {
        return Err(Error::General("Wrapped key is too short to contain a nonce".to_owned()));
    }
    let nonce = vstd::slice::slice_subrange(bytes, 0, NONCE_LENGTH);
    let sealed = vstd::slice::slice_subrange(bytes, NONCE_LENGTH, bytes.len());
    assert(nonce@ =~= bytes@.take(NONCE_LENGTH as int));
    assert(sealed@ =~= bytes@.skip(NONCE_LENGTH as int));
    match aes_gcm_open(kek, nonce, kek_id, sealed) {
        Ok(dek) => Ok(dek),
        Err(e) => Err(unspecified_error(e)),
    }
}

/// Decrypts a data encryption key that was encrypted with a key encryption key.
pub fn decrypt_encryption_key(encrypted: &str, kek_id: &[u8], kek: &[u8]) -> (r: Result<
    Vec<u8>,
    Error,
>)
    ensures
        bytes_outcome(r) == decrypted_key(encrypted@, kek_id@, kek@),
{
    match decode_encrypted_key(encrypted) {
        Ok(bytes) => open_encrypted_key(bytes.as_slice(), kek_id, kek),
        Err(e) => Err(e),
    }
}

/// An encrypted key is the base64 text of a nonce followed by what AES-GCM seals the key to with
/// this nonce, under the key encryption key and with its identifier as additional authenticated
/// data. The nonce is what the random generator gave for it.
pub proof fn law_nonce_is_drawn(
    dek: Seq<u8>,
    kek_id: Seq<u8>,
    kek: Seq<u8>,
    encrypted: Seq<char>,
)
    requires
        encrypts(dek, kek_id, kek, Ok::<Seq<char>, ErrorModel>(encrypted)),
    ensures
        exists|nonce: Seq<u8>| #[trigger]
            drawn(nonce, NONCE_LENGTH) && nonce.len() == NONCE_LENGTH && encrypted == base64_text(
                nonce + aes_gcm_sealed(kek, nonce, kek_id, dek),
            ),
{
}

/// Decrypting the base64 text of a nonce and a sealed key opens the sealed key with this nonce,
/// under the key encryption key and with its identifier as additional authenticated data.
pub proof fn law_decryption_opens_what_follows_the_nonce(
    encrypted: Seq<char>,
    nonce: Seq<u8>,
    sealed: Seq<u8>,
    kek_id: Seq<u8>,
    kek: Seq<u8>,
)
    requires
        base64_decoded(encrypted) == Ok::<Seq<u8>, Seq<char>>(nonce + sealed),
        nonce.len() == NONCE_LENGTH,
    ensures
        match aes_gcm_opened(kek, nonce, kek_id, sealed) {
            Some(dek) => decrypted_key(encrypted, kek_id, kek) == Ok::<Seq<u8>, ErrorModel>(dek),
            None => decrypted_key(encrypted, kek_id, kek) is Err,
        },
{
    assert((nonce + sealed).take(NONCE_LENGTH as int) =~= nonce);
    assert((nonce + sealed).skip(NONCE_LENGTH as int) =~= sealed);
}

/// An encrypted key that cannot be decoded, that is too short or that AES-GCM rejects is refused
/// with an error that says so.
pub proof fn law_bad_encrypted_key_is_refused(
    encrypted: Seq<char>,
    kek_id: Seq<u8>,
    kek: Seq<u8>,
)
    ensures
        match base64_decoded(encrypted) {
            Err(problem) => decrypted_key(encrypted, kek_id, kek) == Err::<Seq<u8>, ErrorModel>(
                ErrorModel::General("Error base64 decoding wrapped key: "@ + problem),
            ),
            Ok(bytes) => if bytes.len() < 12 {
                decrypted_key(encrypted, kek_id, kek) == Err::<Seq<u8>, ErrorModel>(
                    ErrorModel::General("Wrapped key is too short to contain a nonce"@),
                )
            } else {
                aes_gcm_opened(kek, bytes.take(12), kek_id, bytes.skip(12)) is None
                    ==> decrypted_key(encrypted, kek_id, kek) == Err::<Seq<u8>, ErrorModel>(
                    ErrorModel::External("ring::error::Unspecified"@),
                )
            },
        },
{
}

/// Encrypting a key only fails where the random generator does, the key encryption key does not
/// have sixteen bytes, or there is too much to encrypt.
pub proof fn law_failed_encryption_has_a_cause(
    dek: Seq<u8>,
    kek_id: Seq<u8>,
    kek: Seq<u8>,
    error: ErrorModel,
)
    requires
        encrypts(dek, kek_id, kek, Err::<Seq<char>, ErrorModel>(error)),
    ensures
        error == ErrorModel::External("ring::error::Unspecified"@),
        draw_failed(12) || kek.len() != 16 || dek.len() > 68_719_476_704 || kek_id.len() * 8
            > u64::MAX,
{
}

} // verus!
