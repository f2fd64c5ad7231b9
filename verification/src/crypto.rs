//! Encryption of secrets at rest, and key hashes.

use vstd::prelude::*;
use vstd::utf8::*;

use aes_gcm::aead::{Aead, KeyInit};
use aes_gcm::{Aes256Gcm, Nonce};
use hmac::{Hmac, Mac};
use sha2::{Digest, Sha256};

use crate::hexadecimal;
use crate::hexadecimal::{hex_bytes, hex_roundtrip, hex_text, is_hex_text};
use crate::ids::{is_lower_hex, random_bytes};
use crate::text::{is_hex_digit, starts_with, utf8_text};

verus! {

/// Length of a nonce in bytes.
pub const NONCE_LEN: usize = 12;

/// Length of an encryption key in bytes.
pub const KEY_LEN: usize = 32;

/// Longest plaintext, in bytes, that the cipher accepts.
pub const MAX_PLAINTEXT: u64 = 0x10_0000_0000;

/// Why a text could not be encrypted or decrypted.
#[derive(Debug, Clone, Copy, PartialEq, Eq, Structural)]
pub enum CryptoError {
    KeyNotHex,
    KeyLength,
    EncryptionFailed,
    DataNotHex,
    DataTooShort,
    DecryptionFailed,
    NotUtf8,
}

impl CryptoError {
    /// The message of an error.
    pub open spec fn spec_message(self) -> Seq<char> {
        match self {
            CryptoError::KeyNotHex => "ENCRYPTION_KEY must be 64 hex characters (32 bytes)"@,
            CryptoError::KeyLength => "ENCRYPTION_KEY must be 32 bytes (64 hex chars)"@,
            CryptoError::EncryptionFailed => "Encryption failed: aead::Error"@,
            CryptoError::DataNotHex => "Invalid encrypted data (not hex)"@,
            CryptoError::DataTooShort => "Encrypted data too short"@,
            CryptoError::DecryptionFailed => "Decryption failed (wrong key or corrupted data)"@,
            CryptoError::NotUtf8 => "Decrypted data is not valid UTF-8"@,
        }
    }

    /// The message of an error.
    pub fn message(&self) -> (r: &'static str)
        ensures
            r@ == self.spec_message(),
    {
        match self {
            CryptoError::KeyNotHex => "ENCRYPTION_KEY must be 64 hex characters (32 bytes)",
            CryptoError::KeyLength => "ENCRYPTION_KEY must be 32 bytes (64 hex chars)",
            CryptoError::EncryptionFailed => "Encryption failed: aead::Error",
            CryptoError::DataNotHex => "Invalid encrypted data (not hex)",
            CryptoError::DataTooShort => "Encrypted data too short",
            CryptoError::DecryptionFailed => "Decryption failed (wrong key or corrupted data)",
            CryptoError::NotUtf8 => "Decrypted data is not valid UTF-8",
        }
    }
}

/// The ciphertext, authentication tag included, that AES-256-GCM gives for a
/// key, a nonce and a plaintext without associated data; `None` where the
/// cipher refuses the plaintext.
pub uninterp spec fn aes256_gcm_sealed(key: Seq<u8>, nonce: Seq<u8>, plaintext: Seq<u8>) -> Option<
    Seq<u8>,
>;

/// The plaintext that AES-256-GCM recovers from a key, a nonce and a
/// ciphertext without associated data; `None` where the tag does not match.
pub uninterp spec fn aes256_gcm_opened(key: Seq<u8>, nonce: Seq<u8>, ciphertext: Seq<u8>) -> Option<
    Seq<u8>,
>;

/// The SHA-256 digest of a byte string.
pub uninterp spec fn sha256(message: Seq<u8>) -> Seq<u8>;

/// Calls `Aes256Gcm::encrypt`. The ciphertext is a function of key, nonce and
/// plaintext. It is refused only where the plaintext is longer than the cipher
/// allows; otherwise it is the plaintext's length and a tag of sixteen bytes
/// long, and decrypting it under the same key and nonce gives the plaintext
/// back.
#[verifier::external_body]
fn aes256_gcm_seal(key: &Vec<u8>, nonce: &Vec<u8>, plaintext: &[u8]) -> (r: Option<Vec<u8>>)
    requires
        key@.len() == KEY_LEN,
        nonce@.len() == NONCE_LEN,
    ensures
        match r {
            Some(c) => {
                &&& aes256_gcm_sealed(key@, nonce@, plaintext@) == Some(c@)
                &&& plaintext@.len() <= MAX_PLAINTEXT
                &&& c@.len() == plaintext@.len() + 16
                &&& aes256_gcm_opened(key@, nonce@, c@) == Some(plaintext@)
            },
            None => {
                &&& aes256_gcm_sealed(key@, nonce@, plaintext@) is None
                &&& plaintext@.len() > MAX_PLAINTEXT
            },
        },
{
    let cipher = Aes256Gcm::new_from_slice(key).ok()?;
    cipher.encrypt(Nonce::from_slice(nonce), plaintext).ok()
}

/// Calls `Aes256Gcm::decrypt`. The result is a function of key, nonce and
/// ciphertext. A plaintext is as long as the ciphertext without its tag of
/// sixteen bytes; a ciphertext that is shorter than the tag is refused.
#[verifier::external_body]
fn aes256_gcm_open(key: &Vec<u8>, nonce: &[u8], ciphertext: &[u8]) -> (r: Option<Vec<u8>>)
    requires
        key@.len() == KEY_LEN,
        nonce@.len() == NONCE_LEN,
    ensures
        match r {
            Some(p) => {
                &&& aes256_gcm_opened(key@, nonce@, ciphertext@) == Some(p@)
                &&& ciphertext@.len() == p@.len() + 16
            },
            None => aes256_gcm_opened(key@, nonce@, ciphertext@) is None,
        },
{
    let cipher = Aes256Gcm::new_from_slice(key).ok()?;
    cipher.decrypt(Nonce::from_slice(nonce), ciphertext).ok()
}

/// Calls `Sha256::digest`. The digest is a function of the message and is 32
/// bytes long.
#[verifier::external_body]
pub(crate) fn sha256_digest(message: &[u8]) -> (r: Vec<u8>)
    ensures
        r@ == sha256(message@),
        r@.len() == 32,
{
    Sha256::digest(message).to_vec()
}

/// Why a key text is no key, if it is none.
pub open spec fn key_error(key_hex: Seq<char>) -> Option<CryptoError> {
    if !is_hex_text(key_hex) {
        Some(CryptoError::KeyNotHex)
    } else if key_hex.len() != 64 {
        Some(CryptoError::KeyLength)
    } else {
        None
    }
}

/// The error with which encryption fails under a key text, if it fails.
pub open spec fn encryption_error(key_hex: Seq<char>) -> CryptoError {
    match key_error(key_hex) {
        Some(e) => e,
        None => CryptoError::EncryptionFailed,
    }
}

/// What encryption gives for a plaintext, a key text and a nonce: the
/// hexadecimal notation of the nonce followed by the ciphertext.
pub open spec fn encrypted(plaintext: Seq<char>, key_hex: Seq<char>, nonce: Seq<u8>) -> Result<
    Seq<char>,
    CryptoError,
> {
    match key_error(key_hex) {
        Some(e) => Err(e),
        None => match aes256_gcm_sealed(hex_bytes(key_hex), nonce, encode_utf8(plaintext)) {
            Some(c) => Ok(hex_text(nonce + c)),
            None => Err(CryptoError::EncryptionFailed),
        },
    }
}

/// What decryption gives for an encrypted text and a key text.
pub open spec fn decrypted(encrypted_hex: Seq<char>, key_hex: Seq<char>) -> Result<
    Seq<char>,
    CryptoError,
> {
    match key_error(key_hex) {
        Some(e) => Err(e),
        None => if !is_hex_text(encrypted_hex) {
            Err(CryptoError::DataNotHex)
        } else if encrypted_hex.len() < 26 {
            Err(CryptoError::DataTooShort)
        } else {
            let combined = hex_bytes(encrypted_hex);
            match aes256_gcm_opened(
                hex_bytes(key_hex),
                combined.take(NONCE_LEN as int),
                combined.skip(NONCE_LEN as int),
            ) {
                None => Err(CryptoError::DecryptionFailed),
                Some(p) => if valid_utf8(p) {
                    Ok(decode_utf8(p))
                } else {
                    Err(CryptoError::NotUtf8)
                },
            }
        },
    }
}

/// The characters of a result of encryption or decryption.
pub open spec fn text_result(r: Result<String, CryptoError>) -> Result<Seq<char>, CryptoError> {
    match r {
        Ok(s) => Ok(s@),
        Err(e) => Err(e),
    }
}

fn parse_key(key_hex: &str) -> (r: Result<Vec<u8>, CryptoError>)
    ensures
        match r {
            Ok(k) => key_error(key_hex@) is None && k@ == hex_bytes(key_hex@) && k@.len()
                == KEY_LEN,
            Err(e) => key_error(key_hex@) == Some(e),
        },
{
    match hexadecimal::decode(key_hex) {
        None => Err(CryptoError::KeyNotHex),
        Some(k) => if k.len() != KEY_LEN {
            Err(CryptoError::KeyLength)
        } else {
            Ok(k)
        },
    }
}

/// Whether a text looks like the encryption of a plaintext: two lowercase
/// hexadecimal digits for each byte of the nonce, the plaintext and the tag.
pub open spec fn looks_encrypted(s: Seq<char>, plaintext: Seq<char>) -> bool {
    &&& s.len() == 2 * encode_utf8(plaintext).len() + 56
    &&& forall|i: int| 0 <= i < s.len() ==> is_lower_hex(#[trigger] s[i])
    &&& s != plaintext
}

/// A text has no more characters than bytes.
proof fn characters_take_bytes(s: Seq<char>)
    ensures
        s.len() <= encode_utf8(s).len(),
    decreases s.len(),
{
    if s.len() > 0 {
        characters_take_bytes(s.drop_first());
    }
}

/// Encrypts a text under a key given in hexadecimal, with the given nonce.
pub fn encrypt_with_nonce(plaintext: &str, key_hex: &str, nonce: &Vec<u8>) -> (r: Result<
    String,
    CryptoError,
>)
    requires
        nonce@.len() == NONCE_LEN,
    ensures
        text_result(r) == encrypted(plaintext@, key_hex@, nonce@),
        r is Err <==> key_error(key_hex@) is Some || encode_utf8(plaintext@).len() > MAX_PLAINTEXT,
        r matches Ok(s) ==> {
            &&& decrypted(s@, key_hex@) == Ok::<Seq<char>, CryptoError>(plaintext@)
            &&& revealed_viewing_key(s@, key_hex@) == Ok::<Seq<char>, CryptoError>(plaintext@)
            &&& revealed_webhook_secret(s@, key_hex@) == Ok::<Seq<char>, CryptoError>(plaintext@)
            &&& looks_encrypted(s@, plaintext@)
        },
{
    let key: Vec<u8> = match parse_key(key_hex) {
        Ok(k) => k,
        Err(e) => {
            return Err(e);
        },
    };
    match aes256_gcm_seal(&key, nonce, plaintext.as_bytes()) {
        None => Err(CryptoError::EncryptionFailed),
        Some(ciphertext) => {
            let mut combined: Vec<u8> = nonce.clone();
            combined.extend_from_slice(ciphertext.as_slice());
            assert(combined@ =~= nonce@ + ciphertext@);
            proof {
                hex_roundtrip(combined@);
                hex_is_not_plain(combined@);
                assert(combined@.take(NONCE_LEN as int) =~= nonce@);
                assert(combined@.skip(NONCE_LEN as int) =~= ciphertext@);
                encode_utf8_valid_utf8(plaintext@);
                encode_utf8_decode_utf8(plaintext@);
                characters_take_bytes(plaintext@);
                let s = hex_text(combined@);
                assert forall|i: int| 0 <= i < s.len() implies is_lower_hex(#[trigger] s[i]) by {
                    let d = combined@[i / 2] as int;
                    assert(0 <= d / 16 < 16 && 0 <= d % 16 < 16);
                }
            }
            Ok(hexadecimal::encode(combined.as_slice()))
        },
    }
}

/// Encrypts a text under a key given in hexadecimal, with a random nonce.
pub fn encrypt(plaintext: &str, key_hex: &str) -> (r: Result<String, CryptoError>)
    ensures
        exists|nonce: Seq<u8>|
            nonce.len() == NONCE_LEN && text_result(r) == #[trigger] encrypted(
                plaintext@,
                key_hex@,
                nonce,
            ),
        r is Err <==> key_error(key_hex@) is Some || encode_utf8(plaintext@).len() > MAX_PLAINTEXT,
        r matches Err(e) ==> e == encryption_error(key_hex@),
        r matches Ok(s) ==> {
            &&& decrypted(s@, key_hex@) == Ok::<Seq<char>, CryptoError>(plaintext@)
            &&& revealed_viewing_key(s@, key_hex@) == Ok::<Seq<char>, CryptoError>(plaintext@)
            &&& revealed_webhook_secret(s@, key_hex@) == Ok::<Seq<char>, CryptoError>(plaintext@)
            &&& looks_encrypted(s@, plaintext@)
        },
{
    let nonce: Vec<u8> = random_bytes(NONCE_LEN);
    encrypt_with_nonce(plaintext, key_hex, &nonce)
}

/// Decrypts what `encrypt` gave. What is decrypted takes two digits for each
/// byte, and 56 more for nonce and tag; a shorter text is refused.
pub fn decrypt(encrypted_hex: &str, key_hex: &str) -> (r: Result<String, CryptoError>)
    ensures
        text_result(r) == decrypted(encrypted_hex@, key_hex@),
        r matches Ok(s) ==> {
            &&& key_error(key_hex@) is None
            &&& is_hex_text(encrypted_hex@)
            &&& encrypted_hex@.len() == 2 * encode_utf8(s@).len() + 56
        },
        encrypted_hex@.len() < 56 ==> r is Err,
{
    let key: Vec<u8> = match parse_key(key_hex) {
        Ok(k) => k,
        Err(e) => {
            return Err(e);
        },
    };
    let combined: Vec<u8> = match hexadecimal::decode(encrypted_hex) {
        Some(b) => b,
        None => {
            return Err(CryptoError::DataNotHex);
        },
    };
    if combined.len() < NONCE_LEN + 1 {
        return Err(CryptoError::DataTooShort);
    }
    let (nonce, ciphertext) = combined.as_slice().split_at(NONCE_LEN);
    assert(nonce@ =~= combined@.take(NONCE_LEN as int));
    assert(ciphertext@ =~= combined@.skip(NONCE_LEN as int));
    match aes256_gcm_open(&key, nonce, ciphertext) {
        None => Err(CryptoError::DecryptionFailed),
        Some(p) => {
            let ghost bytes = p@;
            match utf8_text(p) {
                Some(s) => {
                    proof {
                        decode_utf8_encode_utf8(bytes);
                    }
                    Ok(s)
                },
                None => Err(CryptoError::NotUtf8),
            }
        },
    }
}

/// Whether a stored viewing key is plain text: an unencrypted one is known by
/// its prefix.
pub open spec fn is_plain_viewing_key(data: Seq<char>) -> bool {
    "uview"@.is_prefix_of(data) || "utest"@.is_prefix_of(data)
}

/// Whether a value is stored as it has to be: encrypted, where an encryption
/// key is set, and as it is where none is.
pub open spec fn is_stored_form(stored: Seq<char>, value: Seq<char>, key_hex: Seq<char>) -> bool {
    if key_hex.len() == 0 {
        stored == value
    } else {
        decrypted(stored, key_hex) == Ok::<Seq<char>, CryptoError>(value)
    }
}

/// What a stored viewing key stands for under a key text, which is empty where
/// nothing is encrypted.
pub open spec fn revealed_viewing_key(data: Seq<char>, key_hex: Seq<char>) -> Result<
    Seq<char>,
    CryptoError,
> {
    if key_hex.len() == 0 || is_plain_viewing_key(data) {
        Ok(data)
    } else {
        decrypted(data, key_hex)
    }
}

/// Gives a stored viewing key back: as it is where no encryption key is set or
/// where it was stored as plain text, otherwise decrypted.
pub fn decrypt_or_plaintext(data: &str, key_hex: &str) -> (r: Result<String, CryptoError>)
    ensures
        text_result(r) == revealed_viewing_key(data@, key_hex@),
{
    if key_hex.is_empty() {
        return Ok(data.to_string());
    }
    if starts_with(data, "uview") || starts_with(data, "utest") {
        return Ok(data.to_string());
    }
    decrypt(data, key_hex)
}

/// What a stored webhook secret stands for under a key text.
pub open spec fn revealed_webhook_secret(data: Seq<char>, key_hex: Seq<char>) -> Result<
    Seq<char>,
    CryptoError,
> {
    if key_hex.len() == 0 || "whsec_"@.is_prefix_of(data) {
        Ok(data)
    } else {
        decrypted(data, key_hex)
    }
}

/// Gives a stored webhook secret back: as it is where no encryption key is set
/// or where it carries the prefix of a plain secret, otherwise decrypted.
pub fn decrypt_webhook_secret(data: &str, key_hex: &str) -> (r: Result<String, CryptoError>)
    ensures
        text_result(r) == revealed_webhook_secret(data@, key_hex@),
{
    if key_hex.is_empty() || starts_with(data, "whsec_") {
        return Ok(data.to_string());
    }
    decrypt(data, key_hex)
}

/// A text in hexadecimal notation is never taken for a plain viewing key or a
/// plain webhook secret.
proof fn hex_is_not_plain(bytes: Seq<u8>)
    ensures
        !is_plain_viewing_key(hex_text(bytes)),
        !"whsec_"@.is_prefix_of(hex_text(bytes)),
{
    let s = hex_text(bytes);
    hex_roundtrip(bytes);
    reveal_strlit("whsec_");
    reveal_strlit("uview");
    reveal_strlit("utest");
    if s.len() > 0 {
        assert(is_hex_digit(s[0]));
        assert(s[0] != 'w' && s[0] != 'u');
    }
    if "whsec_"@.is_prefix_of(s) {
        assert(s[0] == "whsec_"@[0]);
    }
    if "uview"@.is_prefix_of(s) {
        assert(s[0] == "uview"@[0]);
    }
    if "utest"@.is_prefix_of(s) {
        assert(s[0] == "utest"@[0]);
    }
}

// ---------------------------------------------------------------------------
// Keyed digests
// ---------------------------------------------------------------------------

/// The keyed digest of a message (HMAC with SHA-256).
pub uninterp spec fn hmac_sha256(key: Seq<u8>, message: Seq<u8>) -> Seq<u8>;

/// Calls `Hmac::<Sha256>::new_from_slice`, `update` and `finalize`. The digest
/// is a function of key and message and is 32 bytes long.
#[verifier::external_body]
pub(crate) fn hmac_digest(key: &[u8], message: &[u8]) -> (r: Vec<u8>)
    ensures
        r@ == hmac_sha256(key@, message@),
        r@.len() == 32,
{
    let mut mac = <Hmac<Sha256> as Mac>::new_from_slice(key).expect("HMAC accepts any key length");
    mac.update(message);
    mac.finalize().into_bytes().to_vec()
}

/// The index under which a text can be found where it is stored encrypted.
pub open spec fn index_text(text: Seq<char>, key_hex: Seq<char>) -> Seq<char> {
    hex_text(hmac_sha256(encode_utf8(key_hex), encode_utf8(text)))
}

/// The index under which a text can be found where it is stored encrypted: its
/// digest under the encryption key, in hexadecimal.
pub fn blind_index(text: &str, key_hex: &str) -> (r: String)
    ensures
        r@ == index_text(text@, key_hex@),
        r@.len() == 64,
{
    let digest: Vec<u8> = hmac_digest(key_hex.as_bytes(), text.as_bytes());
    hexadecimal::encode(digest.as_slice())
}

// ---------------------------------------------------------------------------
// Laws
// ---------------------------------------------------------------------------

/// A key is 64 hexadecimal digits.
pub proof fn key_is_64_hex_digits(key_hex: Seq<char>)
    ensures
        key_error(key_hex) is None <==> is_hex_text(key_hex) && key_hex.len() == 64,
        !is_hex_text(key_hex) <==> key_error(key_hex) == Some(CryptoError::KeyNotHex),
        is_hex_text(key_hex) && key_hex.len() != 64 <==> key_error(key_hex) == Some(
            CryptoError::KeyLength,
        ),
        key_error(key_hex) is None ==> encryption_error(key_hex) == CryptoError::EncryptionFailed,
        key_error(key_hex) is Some ==> encryption_error(key_hex) == key_error(key_hex)->0,
{
}

/// What is stored begins with the nonce, twelve bytes of it, and what follows is
/// opened with that nonce and the key. The first thing amiss is the error.
pub proof fn stored_text_begins_with_its_nonce(
    nonce: Seq<u8>,
    sealed: Seq<u8>,
    key_hex: Seq<char>,
)
    requires
        is_hex_text(key_hex) && key_hex.len() == 64,
        nonce.len() == 12,
        sealed.len() > 0,
    ensures
        ({
            let r = decrypted(hex_text(nonce + sealed), key_hex);
            match aes256_gcm_opened(hex_bytes(key_hex), nonce, sealed) {
                None => r == Err::<Seq<char>, CryptoError>(CryptoError::DecryptionFailed),
                Some(p) => (valid_utf8(p) ==> r == Ok::<Seq<char>, CryptoError>(decode_utf8(p)))
                    && (!valid_utf8(p) ==> r == Err::<Seq<char>, CryptoError>(
                    CryptoError::NotUtf8,
                )),
            }
        }),
{
    let all = nonce + sealed;
    hex_roundtrip(all);
    assert(all.take(12) =~= nonce);
    assert(all.skip(12) =~= sealed);
}

/// What is no encrypted text at all is told apart: not hexadecimal, or shorter
/// than a nonce and one byte.
pub proof fn bad_data_is_told_apart(data: Seq<char>, key_hex: Seq<char>)
    ensures
        key_error(key_hex) matches Some(e) ==> decrypted(data, key_hex) == Err::<
            Seq<char>,
            CryptoError,
        >(e),
        key_error(key_hex) is None && !is_hex_text(data) ==> decrypted(data, key_hex) == Err::<
            Seq<char>,
            CryptoError,
        >(CryptoError::DataNotHex),
        key_error(key_hex) is None && is_hex_text(data) && data.len() < 26 ==> decrypted(
            data,
            key_hex,
        ) == Err::<Seq<char>, CryptoError>(CryptoError::DataTooShort),
{
}

/// Encrypting gives the nonce and what was sealed with it, or the key's error.
pub proof fn encrypted_text_is_nonce_and_sealed(
    plaintext: Seq<char>,
    key_hex: Seq<char>,
    nonce: Seq<u8>,
)
    ensures
        key_error(key_hex) matches Some(e) ==> encrypted(plaintext, key_hex, nonce) == Err::<
            Seq<char>,
            CryptoError,
        >(e),
        key_error(key_hex) is None ==> (match aes256_gcm_sealed(
            hex_bytes(key_hex),
            nonce,
            encode_utf8(plaintext),
        ) {
            Some(c) => encrypted(plaintext, key_hex, nonce) == Ok::<Seq<char>, CryptoError>(
                hex_text(nonce + c),
            ),
            None => encrypted(plaintext, key_hex, nonce) == Err::<Seq<char>, CryptoError>(
                CryptoError::EncryptionFailed,
            ),
        }),
{
}

/// Without a key a value is stored and read as it is. With one it is read by
/// decrypting, unless it is plainly not encrypted.
pub proof fn plain_values_are_read_as_they_are(data: Seq<char>, key_hex: Seq<char>)
    ensures
        key_hex.len() == 0 ==> revealed_viewing_key(data, key_hex) == Ok::<Seq<char>, CryptoError>(
            data,
        ) && revealed_webhook_secret(data, key_hex) == Ok::<Seq<char>, CryptoError>(data),
        "uview"@.is_prefix_of(data) || "utest"@.is_prefix_of(data) ==> revealed_viewing_key(
            data,
            key_hex,
        ) == Ok::<Seq<char>, CryptoError>(data),
        "whsec_"@.is_prefix_of(data) ==> revealed_webhook_secret(data, key_hex) == Ok::<
            Seq<char>,
            CryptoError,
        >(data),
        key_hex.len() > 0 && !"uview"@.is_prefix_of(data) && !"utest"@.is_prefix_of(data)
            ==> revealed_viewing_key(data, key_hex) == decrypted(data, key_hex),
        key_hex.len() > 0 && !"whsec_"@.is_prefix_of(data) ==> revealed_webhook_secret(
            data,
            key_hex,
        ) == decrypted(data, key_hex),
{
}

/// A stored value is the value itself without a key, and opens to it with one.
pub proof fn stored_value_opens_to_itself(stored: Seq<char>, value: Seq<char>, key_hex: Seq<char>)
    ensures
        key_hex.len() == 0 ==> (is_stored_form(stored, value, key_hex) <==> stored == value),
        key_hex.len() > 0 ==> (is_stored_form(stored, value, key_hex) <==> decrypted(
            stored,
            key_hex,
        ) == Ok::<Seq<char>, CryptoError>(value)),
{
}

/// An encrypted text is hexadecimal in lower case: the nonce, the text and the
/// tag, two digits for each byte. It is not the text itself.
pub proof fn encrypted_text_is_as_long_as_it_has_to_be(s: Seq<char>, plaintext: Seq<char>)
    requires
        looks_encrypted(s, plaintext),
    ensures
        s.len() == 2 * (12 + encode_utf8(plaintext).len() + 16),
        s != plaintext,
        forall|i: int|
            0 <= i < s.len() ==> ('0' <= #[trigger] s[i] <= '9' || 'a' <= s[i] <= 'f'),
{
    assert(forall|i: int| 0 <= i < s.len() ==> is_lower_hex(#[trigger] s[i]));
}

/// An address is indexed by its code under the key, so that each key has an
/// index of its own.
pub proof fn index_is_made_under_the_key(text: Seq<char>, key_hex: Seq<char>)
    ensures
        index_text(text, key_hex) == hex_text(
            hmac_sha256(encode_utf8(key_hex), encode_utf8(text)),
        ),
{
}

} // verus!
