//! The calls into the cryptographic libraries, the random number generators,
//! the identifier generator and the clock. Every function here is believed,
//! not proved: its contract says what the rest of the crate takes from the
//! library it calls.

use vstd::prelude::*;
use crate::models::Timestamp;

verus! {

/// The number of bytes in a nonce of the cipher.
pub const NONCE_LENGTH: usize = 12;

/// The number of bytes in a key of the cipher.
pub const KEY_LENGTH: usize = 32;

/// The shortest salt that the key derivation function takes.
pub const MIN_SALT_LENGTH: usize = 8;

/// The raw output of Argon2id, version 0x13, with the default cost parameters
/// and a 32-byte tag, for a password and a salt; `None` where the function
/// refuses its input.
pub uninterp spec fn argon2id_hash(password: Seq<u8>, salt: Seq<u8>) -> Option<Seq<u8>>;

/// The AES-256-GCM ciphertext of a plaintext without associated data, the
/// 16-byte tag appended; `None` where the cipher refuses the plaintext.
pub uninterp spec fn aes_gcm_sealed(key: Seq<u8>, nonce: Seq<u8>, plaintext: Seq<u8>) -> Option<
    Seq<u8>,
>;

/// The plaintext that AES-256-GCM recovers from a ciphertext with appended
/// tag; `None` where the tag does not authenticate the ciphertext.
pub uninterp spec fn aes_gcm_opened(key: Seq<u8>, nonce: Seq<u8>, ciphertext: Seq<u8>) -> Option<
    Seq<u8>,
>;

/// The SHA-256 digest of some bytes.
pub uninterp spec fn sha256_digest(bytes: Seq<u8>) -> Seq<u8>;

/// The error type of the `password-hash` crate, carried as an opaque value.
#[verifier::external_type_specification]
#[verifier::external_body]
pub struct ExPasswordHashError(argon2::password_hash::Error);

/// The error type of the `aead` crate, carried as an opaque value.
#[verifier::external_type_specification]
#[verifier::external_body]
pub struct ExAeadError(aes_gcm::Error);

/// Calls `OsRng.fill_bytes` on a buffer of `len` bytes. Nothing is known of
/// the bytes but their number.
#[verifier::external_body]
pub(crate) fn os_random_bytes(len: usize) -> (bytes: Vec<u8>)
    ensures
        bytes@.len() == len,
{
    let mut bytes = vec![0u8; len];
    rand::RngCore::fill_bytes(&mut aes_gcm::aead::OsRng, &mut bytes);
    bytes
}

/// Calls `SaltString::encode_b64` and `Argon2::default().hash_password`, and
/// copies the raw hash out of the result. The contract names the hash. Both
/// calls can fail, and a result may carry no hash: the name is `None` in each
/// of these cases. A salt that encodes to fewer than four characters makes the
/// salt string panic when it is borrowed, so `requires` asks for the eight
/// bytes that Argon2 itself demands.
#[verifier::external_body]
pub(crate) fn argon2_hash(password: &[u8], salt: &[u8]) -> (r: Result<
    Option<Vec<u8>>,
    argon2::password_hash::Error,
>)
    requires
        salt@.len() >= MIN_SALT_LENGTH,
    ensures
        match r {
            Ok(Some(hash)) => argon2id_hash(password@, salt@) == Some(hash@),
            _ => argon2id_hash(password@, salt@) is None,
        },
{
    let salt_string = argon2::password_hash::SaltString::encode_b64(salt)?;
    let hasher = argon2::Argon2::default();
    let hash = argon2::PasswordHasher::hash_password(&hasher, password, &salt_string)?;
    match hash.hash {
        Some(output) => Ok(Some(output.as_bytes().to_vec())),
        None => Ok(None),
    }
}

/// Calls `Aes256Gcm::new` and `Aead::encrypt`. The contract names the
/// ciphertext, gives its length (the plaintext and a 16-byte tag) and says
/// that it opens to the plaintext under the same key and nonce. Key and nonce
/// of another length make the crate panic, which `requires` leaves out.
#[verifier::external_body]
pub(crate) fn aes_gcm_seal(key: &[u8], nonce: &[u8], plaintext: &[u8]) -> (r: Result<
    Vec<u8>,
    aes_gcm::Error,
>)
    requires
        key@.len() == KEY_LENGTH,
        nonce@.len() == NONCE_LENGTH,
    ensures
        match r {
            Ok(sealed) => {
                &&& aes_gcm_sealed(key@, nonce@, plaintext@) == Some(sealed@)
                &&& sealed@.len() == plaintext@.len() + 16
                &&& aes_gcm_opened(key@, nonce@, sealed@) == Some(plaintext@)
            },
            Err(_) => aes_gcm_sealed(key@, nonce@, plaintext@) is None,
        },
{
    let key = aes_gcm::Key::<aes_gcm::Aes256Gcm>::from_slice(key);
    let cipher = <aes_gcm::Aes256Gcm as aes_gcm::KeyInit>::new(key);
    aes_gcm::aead::Aead::encrypt(&cipher, aes_gcm::Nonce::from_slice(nonce), plaintext)
}

/// Calls `Aes256Gcm::new` and `Aead::decrypt`; the contract names what it
/// returns. Key and nonce of another length make the crate panic, which
/// `requires` leaves out.
#[verifier::external_body]
pub(crate) fn aes_gcm_open(key: &[u8], nonce: &[u8], ciphertext: &[u8]) -> (r: Result<
    Vec<u8>,
    aes_gcm::Error,
>)
    requires
        key@.len() == KEY_LENGTH,
        nonce@.len() == NONCE_LENGTH,
    ensures
        match r {
            Ok(plaintext) => aes_gcm_opened(key@, nonce@, ciphertext@) == Some(plaintext@),
            Err(_) => aes_gcm_opened(key@, nonce@, ciphertext@) is None,
        },
{
    let key = aes_gcm::Key::<aes_gcm::Aes256Gcm>::from_slice(key);
    let cipher = <aes_gcm::Aes256Gcm as aes_gcm::KeyInit>::new(key);
    aes_gcm::aead::Aead::decrypt(&cipher, aes_gcm::Nonce::from_slice(nonce), ciphertext)
}

/// Calls `Sha256::digest`; the contract names the digest and gives its
/// length.
#[verifier::external_body]
pub(crate) fn sha256(bytes: &[u8]) -> (digest: Vec<u8>)
    ensures
        digest@ == sha256_digest(bytes@),
        digest@.len() == 32,
{
    <sha2::Sha256 as sha2::Digest>::digest(bytes).to_vec()
}

/// Calls `SliceRandom::choose` with `OsRng`: `None` for an empty list, else
/// one of its items, no matter which.
#[verifier::external_body]
pub(crate) fn choose_with_os_rng<T>(items: &Vec<T>) -> (r: Option<&T>)
    ensures
        match r {
            Some(item) => items@.contains(*item),
            None => items@.len() == 0,
        },
{
    rand::seq::SliceRandom::choose(items.as_slice(), &mut aes_gcm::aead::OsRng)
}

/// Calls `SliceRandom::choose` with the generator of the current thread:
/// `None` for an empty list, else one of its items, no matter which.
#[verifier::external_body]
pub(crate) fn choose_with_thread_rng<T>(items: &Vec<T>) -> (r: Option<&T>)
    ensures
        match r {
            Some(item) => items@.contains(*item),
            None => items@.len() == 0,
        },
{
    rand::seq::SliceRandom::choose(items.as_slice(), &mut rand::thread_rng())
}

/// Calls `Uuid::new_v4` and formats the identifier, which comes out in the
/// hyphenated form of 36 characters. Which identifier it is depends on chance.
#[verifier::external_body]
pub(crate) fn new_entry_id() -> (id: String)
    ensures
        id@.len() == 36,
{
    uuid::Uuid::new_v4().to_string()
}

/// Calls `Utc::now` and splits the instant into the seconds since the epoch
/// and the nanoseconds within the second. Nothing is known of the instant.
#[verifier::external_body]
pub(crate) fn utc_now() -> Timestamp {
    let now = chrono::Utc::now();
    Timestamp { secs: now.timestamp(), nanos: now.timestamp_subsec_nanos() }
}

} // verus!
