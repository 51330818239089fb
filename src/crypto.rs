//! Password-based authenticated encryption: an Argon2id key and AES-256-GCM.

use aes_gcm::aead::generic_array::GenericArray;
use aes_gcm::aead::{Aead, KeyInit};
use vstd::prelude::*;
use vstd::string::StringSliceAdditionalSpecFns;

verus! {

/// argon2::Error, carried opaque as the failure of key derivation.
#[verifier::external_type_specification]
#[verifier::external_body]
pub struct ExArgon2Error(argon2::Error);

/// aes_gcm's aead::Error, carried opaque as the failure of sealing or opening.
#[verifier::external_type_specification]
#[verifier::external_body]
pub struct ExAeadError(aes_gcm::aead::Error);

/// rand::Error, carried opaque as the failure of the OS generator.
#[verifier::external_type_specification]
#[verifier::external_body]
pub struct ExRandError(rand::Error);

/// password_hash::Error, carried opaque as the failure of salt encoding.
#[verifier::external_type_specification]
#[verifier::external_body]
pub struct ExPasswordHashError(password_hash::Error);

/// Number of random bytes behind a salt.
pub const SALT_RANDOM_LEN: usize = 16;

/// Length of the salt that `encrypt` draws: 16 random bytes written as 22
/// B64 characters.
pub const SALT_LEN: usize = 22;

/// Length of an AES-GCM nonce (96 bits).
pub const NONCE_LEN: usize = 12;

/// Length of the key that Argon2id derives (256 bits).
pub const KEY_LEN: usize = 32;

/// Length of the authentication tag appended to the ciphertext.
pub const TAG_LEN: usize = 16;

/// Largest plaintext that AES-GCM seals (2^36 bytes).
pub const MAX_PLAINTEXT_LEN: u64 = 68719476736;

/// Largest input length, password or salt, that Argon2 takes.
pub const MAX_KDF_INPUT_LEN: u64 = 4294967295;

/// Why an encryption or decryption did not go through.
#[derive(Debug, Clone, Copy, PartialEq, Eq, Structural)]
pub enum CryptoError {
    /// Argon2 refused the password or the salt.
    KeyDerivation,
    /// AES-GCM refused to seal the data (too long).
    Cipher,
    /// The tag did not verify: wrong password, salt or nonce, or altered data.
    Authentication,
    /// The nonce does not have the length of an AES-GCM nonce.
    InvalidNonce,
    /// The OS random generator failed.
    Rng,
}

/// The key that Argon2id, with its default costs, derives from a password and a salt.
pub uninterp spec fn argon2id_key(password: Seq<u8>, salt: Seq<u8>) -> Seq<u8>;

/// What AES-256-GCM, without associated data, makes of a plaintext: the
/// ciphertext followed by the tag.
pub uninterp spec fn gcm_seal(key: Seq<u8>, nonce: Seq<u8>, plaintext: Seq<u8>) -> Seq<u8>;

/// Password and salt lengths that Argon2 accepts.
pub open spec fn kdf_accepts(password: Seq<u8>, salt: Seq<u8>) -> bool {
    8 <= salt.len() <= MAX_KDF_INPUT_LEN && password.len() <= MAX_KDF_INPUT_LEN
}

/// The ciphertext that sealing `data` gives under the key of `password` and `salt`.
pub open spec fn sealed(data: Seq<u8>, password: Seq<u8>, salt: Seq<u8>, nonce: Seq<u8>) -> Seq<u8> {
    gcm_seal(argon2id_key(password, salt), nonce, data)
}

/// `(salt, nonce, ciphertext)` is what encrypting `data` under `password` gives
/// for that salt and nonce.
pub open spec fn is_envelope_of(
    data: Seq<u8>,
    password: Seq<u8>,
    salt: Seq<u8>,
    nonce: Seq<u8>,
    ciphertext: Seq<u8>,
) -> bool {
    &&& salt.len() == SALT_LEN
    &&& nonce.len() == NONCE_LEN
    &&& data.len() <= MAX_PLAINTEXT_LEN
    &&& kdf_accepts(password, salt)
    &&& ciphertext == sealed(data, password, salt, nonce)
}

/// `ciphertext` authenticates, under `password`, `salt` and `nonce`, as the
/// sealing of `data`.
pub open spec fn opens_to(
    salt: Seq<u8>,
    nonce: Seq<u8>,
    ciphertext: Seq<u8>,
    password: Seq<u8>,
    data: Seq<u8>,
) -> bool {
    &&& nonce.len() == NONCE_LEN
    &&& kdf_accepts(password, salt)
    &&& ciphertext == sealed(data, password, salt, nonce)
}

/// Relies on argon2::Argon2::hash_password_into with the default settings
/// (Argon2id): 32 bytes that depend on password and salt alone; it fails only
/// on a salt under 8 bytes or an input over u32::MAX bytes.
#[verifier::external_body]
fn argon2_derive(password: &[u8], salt: &[u8]) -> (r: Result<Vec<u8>, argon2::Error>)
    ensures
        r is Ok <==> kdf_accepts(password@, salt@),
        r is Ok ==> r->Ok_0@ == argon2id_key(password@, salt@) && r->Ok_0@.len() == KEY_LEN,
{
    let mut key = [0u8; 32];
    argon2::Argon2::default().hash_password_into(password, salt, &mut key).map(|_| key.to_vec())
}

/// Relies on Aead::encrypt of aes_gcm::Aes256Gcm without associated data: the
/// ciphertext with its 16-byte tag, fixed by key, nonce and plaintext; it fails
/// only on a plaintext over 2^36 bytes.
#[verifier::external_body]
fn gcm_encrypt(key: &[u8], nonce: &[u8], plaintext: &[u8]) -> (r: Result<Vec<u8>, aes_gcm::aead::Error>)
    requires
        key@.len() == KEY_LEN,
        nonce@.len() == NONCE_LEN,
    ensures
        r is Ok <==> plaintext@.len() <= MAX_PLAINTEXT_LEN,
        r is Ok ==> r->Ok_0@ == gcm_seal(key@, nonce@, plaintext@),
        r is Ok ==> r->Ok_0@.len() == plaintext@.len() + TAG_LEN,
{
    let cipher = aes_gcm::Aes256Gcm::new(GenericArray::from_slice(key));
    cipher.encrypt(GenericArray::from_slice(nonce), plaintext)
}

/// Relies on Aead::decrypt of aes_gcm::Aes256Gcm without associated data: it
/// hands back a plaintext only when the tag verifies, so that sealing that
/// plaintext again gives the same bytes; a sealed plaintext always opens.
#[verifier::external_body]
fn gcm_decrypt(key: &[u8], nonce: &[u8], ciphertext: &[u8]) -> (r: Result<Vec<u8>, aes_gcm::aead::Error>)
    requires
        key@.len() == KEY_LEN,
        nonce@.len() == NONCE_LEN,
    ensures
        r is Ok ==> ciphertext@ == gcm_seal(key@, nonce@, r->Ok_0@),
        r is Ok ==> r->Ok_0@.len() + TAG_LEN == ciphertext@.len(),
        ciphertext@.len() < TAG_LEN ==> r is Err,
        forall|p: Seq<u8>|
            p.len() <= MAX_PLAINTEXT_LEN && ciphertext@ == #[trigger] gcm_seal(key@, nonce@, p)
                ==> (r is Ok && r->Ok_0@ == p),
{
    let cipher = aes_gcm::Aes256Gcm::new(GenericArray::from_slice(key));
    cipher.decrypt(GenericArray::from_slice(nonce), ciphertext)
}

/// Relies on rand_core's OsRng::try_fill_bytes: `len` bytes from the OS
/// generator, or the generator's error.
#[verifier::external_body]
fn os_random_bytes(len: usize) -> (r: Result<Vec<u8>, rand::Error>)
    ensures
        r is Ok ==> r->Ok_0@.len() == len,
{
    let mut bytes = vec![0u8; len];
    rand::RngCore::try_fill_bytes(&mut aes_gcm::aead::OsRng, &mut bytes).map(|_| bytes)
}

/// Relies on password_hash::SaltString::encode_b64: the bytes in unpadded B64,
/// ceil(4n/3) characters, whose bytes are the salt; it fails only on more
/// than 48 input bytes.
#[verifier::external_body]
fn b64_salt(bytes: &[u8]) -> (r: Result<Vec<u8>, password_hash::Error>)
    ensures
        bytes@.len() <= 48 ==> r is Ok,
        r is Ok ==> r->Ok_0@.len() == (4 * bytes@.len() + 2) / 3,
{
    password_hash::SaltString::encode_b64(bytes).map(|s| s.as_str().as_bytes().to_vec())
}

/// Encrypts `data` under the key of `password` and `salt`, with `nonce`;
/// returns the ciphertext followed by the tag.
pub fn encrypt_with(data: &[u8], password: &str, salt: &[u8], nonce: &[u8]) -> (r: Result<
    Vec<u8>,
    CryptoError,
>)
    ensures
        r == Err::<Vec<u8>, CryptoError>(CryptoError::InvalidNonce) <==> nonce@.len() != NONCE_LEN,
        r == Err::<Vec<u8>, CryptoError>(CryptoError::KeyDerivation) <==> (nonce@.len() == NONCE_LEN
            && !kdf_accepts(password.spec_bytes(), salt@)),
        r == Err::<Vec<u8>, CryptoError>(CryptoError::Cipher) <==> (nonce@.len() == NONCE_LEN
            && kdf_accepts(password.spec_bytes(), salt@) && data@.len() > MAX_PLAINTEXT_LEN),
        r is Ok <==> (nonce@.len() == NONCE_LEN && kdf_accepts(password.spec_bytes(), salt@)
            && data@.len() <= MAX_PLAINTEXT_LEN),
        r matches Ok(ct) ==> ct@ == sealed(data@, password.spec_bytes(), salt@, nonce@)
            && ct@.len() == data@.len() + TAG_LEN,
{
    if nonce.len() != NONCE_LEN {
        return Err(CryptoError::InvalidNonce);
    }
    let key = match argon2_derive(password.as_bytes(), salt) {
        Ok(k) => k,
        Err(_) => {
            return Err(CryptoError::KeyDerivation);
        },
    };
    match gcm_encrypt(key.as_slice(), nonce, data) {
        Ok(c) => Ok(c),
        Err(_) => Err(CryptoError::Cipher),
    }
}

/// Encrypts `data` under a key derived from `password` and a fresh random
/// salt, with a fresh random nonce; returns `(salt, nonce, ciphertext)`.
/// A failure of the OS generator is reported as `Rng`.
pub fn encrypt(data: &[u8], password: &str) -> (r: Result<(Vec<u8>, Vec<u8>, Vec<u8>), CryptoError>)
    ensures
        r matches Err(e) ==> (e == CryptoError::Rng || (e == CryptoError::KeyDerivation
            && password.spec_bytes().len() > MAX_KDF_INPUT_LEN) || (e == CryptoError::Cipher
            && password.spec_bytes().len() <= MAX_KDF_INPUT_LEN && data@.len() > MAX_PLAINTEXT_LEN)),
        !(r matches Err(CryptoError::Rng)) ==> (r is Ok <==> (password.spec_bytes().len()
            <= MAX_KDF_INPUT_LEN && data@.len() <= MAX_PLAINTEXT_LEN)),
        r matches Ok((salt, nonce, ct)) ==> is_envelope_of(
            data@,
            password.spec_bytes(),
            salt@,
            nonce@,
            ct@,
        ) && ct@.len() == data@.len() + TAG_LEN,
{
    let salt_bytes = match os_random_bytes(SALT_RANDOM_LEN) {
        Ok(b) => b,
        Err(_) => {
            return Err(CryptoError::Rng);
        },
    };
    let salt = match b64_salt(salt_bytes.as_slice()) {
        Ok(s) => s,
        Err(_) => {
            return Err(CryptoError::Rng);
        },
    };
    let nonce = match os_random_bytes(NONCE_LEN) {
        Ok(n) => n,
        Err(_) => {
            return Err(CryptoError::Rng);
        },
    };
    match encrypt_with(data, password, salt.as_slice(), nonce.as_slice()) {
        Ok(ct) => Ok((salt, nonce, ct)),
        Err(e) => Err(e),
    }
}

/// Decrypts `ciphertext` with the key of `password` and `salt` and the given
/// nonce. Returns the plaintext only when it authenticates.
pub fn decrypt(salt: &[u8], nonce: &[u8], ciphertext: &[u8], password: &str) -> (r: Result<
    Vec<u8>,
    CryptoError,
>)
    ensures
        r == Err::<Vec<u8>, CryptoError>(CryptoError::InvalidNonce) <==> nonce@.len() != NONCE_LEN,
        r == Err::<Vec<u8>, CryptoError>(CryptoError::KeyDerivation) <==> (nonce@.len() == NONCE_LEN
            && !kdf_accepts(password.spec_bytes(), salt@)),
        r is Ok ==> opens_to(salt@, nonce@, ciphertext@, password.spec_bytes(), r->Ok_0@),
        r is Ok ==> ciphertext@.len() >= TAG_LEN && r->Ok_0@.len() == ciphertext@.len() - TAG_LEN,
        ciphertext@.len() < TAG_LEN ==> r is Err,
        (nonce@.len() == NONCE_LEN && kdf_accepts(password.spec_bytes(), salt@) && r is Err) ==> r
            == Err::<Vec<u8>, CryptoError>(CryptoError::Authentication),
        forall|d: Seq<u8>|
            d.len() <= MAX_PLAINTEXT_LEN && #[trigger] opens_to(
                salt@,
                nonce@,
                ciphertext@,
                password.spec_bytes(),
                d,
            ) ==> (r is Ok && r->Ok_0@ == d),
{
    if nonce.len() != NONCE_LEN {
        return Err(CryptoError::InvalidNonce);
    }
    let key = match argon2_derive(password.as_bytes(), salt) {
        Ok(k) => k,
        Err(_) => {
            return Err(CryptoError::KeyDerivation);
        },
    };
    match gcm_decrypt(key.as_slice(), nonce, ciphertext) {
        Ok(p) => Ok(p),
        Err(_) => Err(CryptoError::Authentication),
    }
}

/// An envelope that `encrypt` made from `data` and `password` authenticates,
/// under the same password, as the sealing of `data`: `decrypt` gives `data`
/// back, the empty payload included.
pub proof fn lemma_decrypt_inverts_encrypt(
    data: Seq<u8>,
    password: Seq<u8>,
    salt: Seq<u8>,
    nonce: Seq<u8>,
    ciphertext: Seq<u8>,
)
    requires
        is_envelope_of(data, password, salt, nonce, ciphertext),
    ensures
        opens_to(salt, nonce, ciphertext, password, data),
        data.len() <= MAX_PLAINTEXT_LEN,
{
}

} // verus!
