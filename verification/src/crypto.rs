//! The cryptographic and encoding operations that key management is built on.

use base64::Engine;
use base64::prelude::BASE64_STANDARD;
use ring::aead::AES_128_GCM;
use ring::aead::Aad;
use ring::aead::LessSafeKey;
use ring::aead::Nonce;
use ring::aead::UnboundKey;
use ring::error::Unspecified;
use ring::rand::SecureRandom;
use ring::rand::SystemRandom;
use vstd::prelude::*;
use vstd::utf8::encode_utf8;
use vstd::utf8::valid_utf8;

use crate::error::Error;
use crate::error::ErrorModel;

verus! {

/// The number of bytes in an AES-128 key.
pub const KEY_LENGTH: usize = 16;

/// The number of bytes in an AES-GCM nonce.
pub const NONCE_LENGTH: usize = 12;

/// The number of bytes in an AES-GCM authentication tag.
pub const TAG_LENGTH: usize = 16;

/// The largest number of bytes that AES-GCM seals with one nonce.
pub const MAX_SEALED_LENGTH: u64 = 68_719_476_704;

/// The error type of `ring`, which carries no details.
#[verifier::external_type_specification]
#[verifier::external_body]
pub struct ExUnspecified(ring::error::Unspecified);

/// The error for a failed operation of `ring`.
pub open spec fn unspecified() -> ErrorModel {
    ErrorModel::External("ring::error::Unspecified"@)
}

/// Makes the error for a failed operation of `ring`.
pub(crate) fn unspecified_error(_error: Unspecified) -> (r: Error)
    ensures
        r@ == unspecified(),
{
    Error::External("ring::error::Unspecified".to_owned())
}

/// `ring::rand::SecureRandom::fill` on the system's generator, with a buffer of `length` bytes.
/// The bytes differ from call to call, and the generator may fail, so only their number is
/// claimed.
#[verifier::external_body]
pub(crate) fn random_bytes(length: usize) -> (r: Result<Vec<u8>, Unspecified>)
    requires
        length <= isize::MAX,
    ensures
        r matches Ok(bytes) ==> bytes@.len() == length,
{
    let mut bytes = vec![0u8; length];
    SystemRandom::new().fill(&mut bytes)?;
    Ok(bytes)
}

/// Whether the random generator gave these bytes when it was asked for this many.
pub closed spec fn drawn(bytes: Seq<u8>, length: usize) -> bool {
    exists|v: Vec<u8>|
        v@ == bytes && #[trigger] call_ensures(
            random_bytes,
            (length,),
            Ok::<Vec<u8>, Unspecified>(v),
        )
}

/// Whether the random generator failed when it was asked for this many bytes.
pub closed spec fn draw_failed(length: usize) -> bool {
    exists|e: Unspecified|
        #[trigger] call_ensures(random_bytes, (length,), Err::<Vec<u8>, Unspecified>(e))
}

/// The random generator, with the record of what it gave. The record only exists in proofs, and
/// nothing but a draw adds to it.
pub struct Generator {
    draws: Ghost<Seq<Seq<u8>>>,
}

impl View for Generator {
    type V = Seq<Seq<u8>>;

    closed spec fn view(&self) -> Seq<Seq<u8>> {
        self.draws@
    }
}

impl Generator {
    /// Starts without any draws.
    pub fn new() -> (r: Self)
        ensures
            r@ == Seq::<Seq<u8>>::empty(),
    {
        Generator { draws: Ghost(Seq::empty()) }
    }

    /// Draws random bytes.
    pub(crate) fn draw(&mut self, length: usize) -> (r: Result<Vec<u8>, Unspecified>)
        requires
            length <= isize::MAX,
        ensures
            match r {
                Ok(bytes) => {
                    &&& bytes@.len() == length
                    &&& drawn(bytes@, length)
                    &&& final(self)@ == old(self)@.push(bytes@)
                },
                Err(_) => draw_failed(length) && final(self)@ == old(self)@,
            },
    {
        let r = random_bytes(length);
        proof {
            if r is Ok {
                self.draws@ = self.draws@.push(r->Ok_0@);
            } else {
                assert(call_ensures(
                    random_bytes,
                    (length,),
                    Err::<Vec<u8>, Unspecified>(r->Err_0),
                ));
            }
        }
        r
    }
}

/// What AES-128-GCM seals a message to: the encrypted message followed by the tag.
pub uninterp spec fn aes_gcm_sealed(
    key: Seq<u8>,
    nonce: Seq<u8>,
    aad: Seq<u8>,
    message: Seq<u8>,
) -> Seq<u8>;

/// What AES-128-GCM opens a sealed message to, or nothing where it rejects it.
pub uninterp spec fn aes_gcm_opened(
    key: Seq<u8>,
    nonce: Seq<u8>,
    aad: Seq<u8>,
    sealed: Seq<u8>,
) -> Option<Seq<u8>>;

/// Whether AES-128-GCM can seal a message.
pub open spec fn sealable(key: Seq<u8>, nonce: Seq<u8>, aad: Seq<u8>, message: Seq<u8>) -> bool {
    &&& key.len() == KEY_LENGTH
    &&& nonce.len() == NONCE_LENGTH
    &&& message.len() <= MAX_SEALED_LENGTH
    &&& aad.len() * 8 <= u64::MAX
}

/// `ring::aead::LessSafeKey::seal_in_place_append_tag` with `AES_128_GCM`, on a copy of the
/// message. It fails exactly where the key or nonce has the wrong length or the input is too long.
/// Otherwise the tag makes the result sixteen bytes longer than the message, and opening the
/// result with the same key, nonce and additional data gives back the message.
#[verifier::external_body]
pub(crate) fn aes_gcm_seal(key: &[u8], nonce: &[u8], aad: &[u8], message: &[u8]) -> (r: Result<
    Vec<u8>,
    Unspecified,
>)
    requires
        message@.len() + TAG_LENGTH <= isize::MAX,
    ensures
        r is Ok <==> sealable(key@, nonce@, aad@, message@),
        r matches Ok(sealed) ==> {
            &&& sealed@ == aes_gcm_sealed(key@, nonce@, aad@, message@)
            &&& sealed@.len() == message@.len() + TAG_LENGTH
            &&& aes_gcm_opened(key@, nonce@, aad@, sealed@) == Some(message@)
        },
{
    let key = LessSafeKey::new(UnboundKey::new(&AES_128_GCM, key)?);
    let nonce = Nonce::try_assume_unique_for_key(nonce)?;
    let mut buffer = message.to_vec();
    key.seal_in_place_append_tag(nonce, Aad::from(aad), &mut buffer)?;
    Ok(buffer)
}

/// `ring::aead::LessSafeKey::open_in_place` with `AES_128_GCM`, on a copy of the sealed message.
/// The result depends on the arguments alone. A message that opens is sixteen bytes shorter than
/// what was sealed, and nothing opens with a key or nonce of the wrong length.
#[verifier::external_body]
pub(crate) fn aes_gcm_open(key: &[u8], nonce: &[u8], aad: &[u8], sealed: &[u8]) -> (r: Result<
    Vec<u8>,
    Unspecified,
>)
    ensures
        match r {
            Ok(message) => {
                &&& aes_gcm_opened(key@, nonce@, aad@, sealed@) == Some(message@)
                &&& sealed@.len() == message@.len() + TAG_LENGTH
                &&& key@.len() == KEY_LENGTH
                &&& nonce@.len() == NONCE_LENGTH
            },
            Err(_) => aes_gcm_opened(key@, nonce@, aad@, sealed@) is None,
        },
{
    let key = LessSafeKey::new(UnboundKey::new(&AES_128_GCM, key)?);
    let nonce = Nonce::try_assume_unique_for_key(nonce)?;
    let mut buffer = sealed.to_vec();
    let message = key.open_in_place(nonce, Aad::from(aad), &mut buffer)?;
    Ok(message.to_vec())
}

/// The character of the standard base64 alphabet for a group of six bits.
pub open spec fn base64_letter(bits: int) -> char {
    if bits < 26 {
        ('A' as int + bits) as char
    } else if bits < 52 {
        ('a' as int + bits - 26) as char
    } else if bits < 62 {
        ('0' as int + bits - 52) as char
    } else if bits == 62 {
        '+'
    } else {
        '/'
    }
}

/// The standard base64 encoding, with padding: three bytes make four characters.
pub open spec fn base64_text(bytes: Seq<u8>) -> Seq<char>
    decreases bytes.len(),
{
    if bytes.len() == 0 {
        Seq::empty()
    } else if bytes.len() == 1 {
        let group = bytes[0] * 16;
        seq![base64_letter(group / 64), base64_letter(group % 64), '=', '=']
    } else if bytes.len() == 2 {
        let group = (bytes[0] * 256 + bytes[1]) * 4;
        seq![
            base64_letter(group / 4096),
            base64_letter(group / 64 % 64),
            base64_letter(group % 64),
            '=',
        ]
    } else {
        let group = bytes[0] * 65536 + bytes[1] * 256 + bytes[2];
        seq![
            base64_letter(group / 262144),
            base64_letter(group / 4096 % 64),
            base64_letter(group / 64 % 64),
            base64_letter(group % 64),
        ] + base64_text(bytes.skip(3))
    }
}

/// Whether the base64 encoding of `length` bytes fits in memory.
pub open spec fn base64_fits(length: int) -> bool {
    (length + 2) / 3 * 4 <= isize::MAX
}

/// Finds whether the base64 encoding of this many bytes fits in memory.
pub(crate) fn fits_in_base64(length: u128) -> (r: bool)
    requires
        length <= 2 * usize::MAX,
    ensures
        r == base64_fits(length as int),
{
    (length + 2) / 3 * 4 <= isize::MAX as u128
}

/// What standard base64 decoding gives: the bytes, or the description of the error.
pub uninterp spec fn base64_decoded(text: Seq<char>) -> Result<Seq<u8>, Seq<char>>;

/// The outcome of decoding that gives `bytes`.
pub open spec fn well_decoded(bytes: Seq<u8>) -> Result<Seq<u8>, Seq<char>> {
    Ok(bytes)
}

/// `base64::Engine::encode` with the standard engine. The result is the padded standard encoding,
/// and it decodes to the same bytes.
#[verifier::external_body]
pub(crate) fn base64_encode(bytes: &[u8]) -> (r: String)
    requires
        base64_fits(bytes@.len() as int),
    ensures
        r@ == base64_text(bytes@),
        base64_decoded(r@) == well_decoded(bytes@),
{
    BASE64_STANDARD.encode(bytes)
}

/// `base64::Engine::decode` with the standard engine. The bytes, or the text of the error, depend
/// on the text alone.
#[verifier::external_body]
pub(crate) fn base64_decode(text: &str) -> (r: Result<Vec<u8>, String>)
    ensures
        match r {
            Ok(bytes) => base64_decoded(text@) == well_decoded(bytes@),
            Err(e) => base64_decoded(text@) == Err::<Seq<u8>, Seq<char>>(e@),
        },
{
    BASE64_STANDARD.decode(text).map_err(|e| e.to_string())
}

/// How the standard library describes why bytes are not UTF-8.
pub uninterp spec fn utf8_error(bytes: Seq<u8>) -> Seq<char>;

/// `std::str::from_utf8`: bytes that are valid UTF-8 become the text that they encode. The
/// description of the error depends on the bytes alone.
#[verifier::external_body]
pub(crate) fn utf8_text(bytes: &[u8]) -> (r: Result<&str, String>)
    ensures
        r is Ok <==> valid_utf8(bytes@),
        match r {
            Ok(text) => encode_utf8(text@) == bytes@,
            Err(e) => e@ == utf8_error(bytes@),
        },
{
    std::str::from_utf8(bytes).map_err(|e| e.to_string())
}

/// The base64 encoding fits in memory exactly if the length of its text does.
pub proof fn law_base64_fits_by_its_length(bytes: Seq<u8>)
    ensures
        base64_text(bytes).len() == (bytes.len() + 2) / 3 * 4,
        base64_fits(bytes.len() as int) == (base64_text(bytes).len() <= isize::MAX),
    decreases bytes.len(),
{
    if bytes.len() > 2 {
        law_base64_fits_by_its_length(bytes.skip(3));
    }
}

/// Bytes that were drawn are what the system's generator gave for a buffer of this length, and a
/// draw only failed where the generator did.
pub(crate) proof fn law_draws_come_from_the_system(bytes: Seq<u8>, length: usize)
    ensures
        drawn(bytes, length) ==> bytes.len() == length && exists|v: Vec<u8>|
            v@ == bytes && #[trigger] call_ensures(
                random_bytes,
                (length,),
                Ok::<Vec<u8>, Unspecified>(v),
            ),
        draw_failed(length) ==> exists|e: Unspecified|
            #[trigger] call_ensures(random_bytes, (length,), Err::<Vec<u8>, Unspecified>(e)),
{
}

} // verus!
