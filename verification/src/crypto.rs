//! Password-derived authenticated encryption, password scoring and content
//! hashing.

use vstd::prelude::*;
use crate::encoding::{
    base64_bytes, base64_decode, base64_encode, base64_fits, base64_text, can_encode, hex_encode,
    hex_text, lemma_hex_text_injective,
};
use crate::error::StoreError;
use crate::primitives::{
    aes_gcm_open, aes_gcm_opened, aes_gcm_seal, aes_gcm_sealed, argon2_hash, argon2id_hash,
    choose_with_os_rng, os_random_bytes, sha256, sha256_digest, KEY_LENGTH, MIN_SALT_LENGTH,
    NONCE_LENGTH,
};
use crate::text::{
    ascii_digit, ascii_lower, ascii_upper, is_alphanumeric, replace_all, same_text, str_replace,
    string_from_chars, string_from_utf8, unicode_alphanumeric,
};

verus! {

/// A sealed payload: ciphertext, nonce and salt, each as standard base64.
#[derive(Debug)]
pub struct EncryptionResult {
    pub encrypted_data: String,
    pub nonce: String,
    pub salt: String,
}

/// What an [`EncryptionResult`] holds, as sequences of characters.
pub struct EncryptionResultView {
    pub encrypted_data: Seq<char>,
    pub nonce: Seq<char>,
    pub salt: Seq<char>,
}

impl View for EncryptionResult {
    type V = EncryptionResultView;

    open spec fn view(&self) -> EncryptionResultView {
        EncryptionResultView {
            encrypted_data: self.encrypted_data@,
            nonce: self.nonce@,
            salt: self.salt@,
        }
    }
}

impl Clone for EncryptionResult {
    fn clone(&self) -> (r: Self)
        ensures
            r@ == self@,
    {
        EncryptionResult {
            encrypted_data: self.encrypted_data.clone(),
            nonce: self.nonce.clone(),
            salt: self.salt.clone(),
        }
    }
}

/// A sealed payload together with the password that should open it.
#[derive(Debug)]
pub struct DecryptionParams {
    pub encrypted_data: String,
    pub nonce: String,
    pub salt: String,
    pub password: String,
}

/// What a [`DecryptionParams`] holds, as sequences of characters.
pub struct DecryptionParamsView {
    pub encrypted_data: Seq<char>,
    pub nonce: Seq<char>,
    pub salt: Seq<char>,
    pub password: Seq<char>,
}

impl View for DecryptionParams {
    type V = DecryptionParamsView;

    open spec fn view(&self) -> DecryptionParamsView {
        DecryptionParamsView {
            encrypted_data: self.encrypted_data@,
            nonce: self.nonce@,
            salt: self.salt@,
            password: self.password@,
        }
    }
}

impl Clone for DecryptionParams {
    fn clone(&self) -> (r: Self)
        ensures
            r@ == self@,
    {
        DecryptionParams {
            encrypted_data: self.encrypted_data.clone(),
            nonce: self.nonce.clone(),
            salt: self.salt.clone(),
            password: self.password.clone(),
        }
    }
}

/// The cipher, the key derivation, the scorer and the hasher, as associated
/// functions.
pub struct BackendEncryption;

/// The number of bytes in a salt that `encrypt` draws.
pub const SALT_LENGTH: usize = 32;

/// The key that a password and a salt give: the first 32 bytes of the
/// Argon2id hash of the password's UTF-8 bytes, or `None` where the salt is
/// too short, the function fails or its output is shorter than a key.
pub open spec fn derived_key(password: Seq<char>, salt: Seq<u8>) -> Option<Seq<u8>> {
    if salt.len() < MIN_SALT_LENGTH {
        None
    } else {
        match argon2id_hash(vstd::utf8::encode_utf8(password), salt) {
            Some(hash) => if hash.len() >= KEY_LENGTH {
                Some(hash.subrange(0, KEY_LENGTH as int))
            } else {
                None
            },
            None => None,
        }
    }
}

/// The container that sealing `data` under `password` gives once the salt and
/// the nonce are drawn, or the reason why there is none.
pub open spec fn sealed_container(
    data: Seq<char>,
    password: Seq<char>,
    salt: Seq<u8>,
    nonce: Seq<u8>,
) -> Result<EncryptionResultView, StoreError> {
    if data.len() == 0 || password.len() == 0 {
        Err(StoreError::Validation)
    } else if nonce.len() != NONCE_LENGTH {
        Err(StoreError::NonceLength)
    } else {
        match derived_key(password, salt) {
            None => Err(StoreError::Derivation),
            Some(key) => match aes_gcm_sealed(key, nonce, vstd::utf8::encode_utf8(data)) {
                None => Err(StoreError::Encryption),
                Some(sealed) => if base64_fits(sealed.len()) && base64_fits(salt.len()) {
                    Ok(
                        EncryptionResultView {
                            encrypted_data: base64_text(sealed),
                            nonce: base64_text(nonce),
                            salt: base64_text(salt),
                        },
                    )
                } else {
                    Err(StoreError::Encryption)
                },
            },
        }
    }
}

/// The text that opening a container with a password gives, or the reason why
/// there is none. The checks come in this order: no field is empty; the three
/// container fields are base64; the nonce has its length; the key derives; the
/// tag authenticates; the plaintext is UTF-8.
pub open spec fn opened_text(params: DecryptionParamsView) -> Result<Seq<char>, StoreError> {
    if params.encrypted_data.len() == 0 || params.nonce.len() == 0 || params.salt.len() == 0
        || params.password.len() == 0 {
        Err(StoreError::Validation)
    } else {
        match (
            base64_bytes(params.encrypted_data),
            base64_bytes(params.nonce),
            base64_bytes(params.salt),
        ) {
            (Some(sealed), Some(nonce), Some(salt)) => if nonce.len() != NONCE_LENGTH {
                Err(StoreError::NonceLength)
            } else {
                match derived_key(params.password, salt) {
                    None => Err(StoreError::Derivation),
                    Some(key) => match aes_gcm_opened(key, nonce, sealed) {
                        None => Err(StoreError::AuthenticationFailure),
                        Some(plaintext) => if vstd::utf8::valid_utf8(plaintext) {
                            Ok(vstd::utf8::decode_utf8(plaintext))
                        } else {
                            Err(StoreError::InvalidText)
                        },
                    },
                }
            },
            _ => Err(StoreError::Encoding),
        }
    }
}

/// The outcome of a sealing with the container as its model.
pub open spec fn container_outcome(r: Result<EncryptionResult, StoreError>) -> Result<
    EncryptionResultView,
    StoreError,
> {
    match r {
        Ok(container) => Ok(container@),
        Err(e) => Err(e),
    }
}

/// The outcome of an opening with the text as a sequence of characters.
pub open spec fn text_outcome(r: Result<String, StoreError>) -> Result<Seq<char>, StoreError> {
    match r {
        Ok(text) => Ok(text@),
        Err(e) => Err(e),
    }
}

/// `outcome` is what sealing `data` under `password` gives for some salt of
/// 32 bytes and some nonce of 12 bytes.
pub open spec fn is_sealing(
    data: Seq<char>,
    password: Seq<char>,
    outcome: Result<EncryptionResultView, StoreError>,
) -> bool {
    exists|salt: Seq<u8>, nonce: Seq<u8>|
        salt.len() == SALT_LENGTH && nonce.len() == NONCE_LENGTH && #[trigger] sealed_container(
            data,
            password,
            salt,
            nonce,
        ) == outcome
}

/// A container together with a password.
pub open spec fn with_password(
    container: EncryptionResultView,
    password: Seq<char>,
) -> DecryptionParamsView {
    DecryptionParamsView {
        encrypted_data: container.encrypted_data,
        nonce: container.nonce,
        salt: container.salt,
        password,
    }
}

/// The characters a generated password is drawn from.
pub const PASSWORD_CHARSET: &'static str =
    "ABCDEFGHIJKLMNOPQRSTUVWXYZabcdefghijklmnopqrstuvwxyz0123456789!@#$%^&*";

/// The hash of a text: the SHA-256 digest of its UTF-8 bytes in lowercase
/// hexadecimal.
pub open spec fn content_hash(data: Seq<char>) -> Seq<char> {
    hex_text(sha256_digest(vstd::utf8::encode_utf8(data)))
}

/// `expected` is the hash of `data`.
pub open spec fn integrity_holds(data: Seq<char>, expected: Seq<char>) -> bool {
    content_hash(data) == expected
}

/// Points given for the length of a password, counted in UTF-8 bytes.
pub open spec fn length_points(bytes: nat) -> nat {
    (if bytes >= 8 { 25nat } else { 0 }) + (if bytes >= 12 { 15nat } else { 0 }) + (if bytes >= 16 {
        10nat
    } else {
        0
    })
}

/// Points given for the kinds of character found in a password: 10 each for
/// lowercase letters, uppercase letters and digits, 20 for anything that is
/// not alphanumeric.
pub open spec fn kind_points(lower: bool, upper: bool, digit: bool, other: bool) -> nat {
    (if lower {
        10nat
    } else {
        0
    }) + (if upper {
        10nat
    } else {
        0
    }) + (if digit {
        10nat
    } else {
        0
    }) + (if other {
        20nat
    } else {
        0
    })
}

/// Points given for the kinds of character a password holds.
pub open spec fn variety_points(password: Seq<char>) -> nat {
    kind_points(
        exists|i: int| 0 <= i < password.len() && ascii_lower(#[trigger] password[i]),
        exists|i: int| 0 <= i < password.len() && ascii_upper(#[trigger] password[i]),
        exists|i: int| 0 <= i < password.len() && ascii_digit(#[trigger] password[i]),
        exists|i: int| 0 <= i < password.len() && !unicode_alphanumeric(#[trigger] password[i]),
    )
}

/// The strength of a password on a scale from 0 to 100: the points for its
/// length and for its variety, and 0 for the empty password.
pub open spec fn strength_score(password: Seq<char>) -> nat {
    if password.len() == 0 {
        0
    } else {
        length_points(vstd::utf8::encode_utf8(password).len()) + variety_points(password)
    }
}

impl BackendEncryption {
    /// A fresh random salt.
    pub fn generate_salt() -> (salt: Vec<u8>)
        ensures
            salt@.len() == SALT_LENGTH,
    {
        os_random_bytes(SALT_LENGTH)
    }

    /// A fresh random nonce.
    pub fn generate_nonce() -> (nonce: Vec<u8>)
        ensures
            nonce@.len() == NONCE_LENGTH,
    {
        os_random_bytes(NONCE_LENGTH)
    }

    /// Derives the key for a password and a salt. The same password and salt
    /// always give the same key.
    pub fn derive_key(password: &str, salt: &[u8]) -> (r: Result<[u8; 32], StoreError>)
        ensures
            match r {
                Ok(key) => derived_key(password@, salt@) == Some(key@),
                Err(e) => e == StoreError::Derivation && derived_key(password@, salt@) is None,
            },
    {
        if salt.len() < MIN_SALT_LENGTH {
            return Err(StoreError::Derivation);
        }
        let hash = match argon2_hash(password.as_bytes(), salt) {
            Ok(Some(hash)) => hash,
            Ok(None) => {
                return Err(StoreError::Derivation);
            },
            Err(_) => {
                return Err(StoreError::Derivation);
            },
        };
        Self::key_from_hash(hash.as_slice())
    }

    /// The key that a hash gives: its first 32 bytes, and a failure where it
    /// has fewer.
    pub fn key_from_hash(hash: &[u8]) -> (r: Result<[u8; 32], StoreError>)
        ensures
            match r {
                Ok(key) => hash@.len() >= KEY_LENGTH && key@ == hash@.subrange(0, KEY_LENGTH as int),
                Err(e) => e == StoreError::Derivation && hash@.len() < KEY_LENGTH,
            },
    {
        if hash.len() < KEY_LENGTH {
            return Err(StoreError::Derivation);
        }
        let mut key = [0u8; 32];
        let mut i: usize = 0;
        while i < KEY_LENGTH
            invariant
                i <= KEY_LENGTH,
                hash@.len() >= KEY_LENGTH,
                forall|j: int| 0 <= j < i ==> key@[j] == hash@[j],
            decreases KEY_LENGTH - i,
        {
            key[i] = hash[i];
            i += 1;
        }
        assert(key@ =~= hash@.subrange(0, KEY_LENGTH as int));
        Ok(key)
    }

    /// Seals `data` under `password` with the salt and the nonce given. The
    /// result is the container that [`sealed_container`] describes, and that
    /// container opens to `data` again under the same password.
    pub fn encrypt_with(data: &str, password: &str, salt: &[u8], nonce: &[u8]) -> (r: Result<
        EncryptionResult,
        StoreError,
    >)
        ensures
            container_outcome(r) == sealed_container(data@, password@, salt@, nonce@),
            r matches Ok(container) ==> opened_text(with_password(container@, password@)) == Ok::<
                Seq<char>,
                StoreError,
            >(data@),
    {
        if data.is_empty() || password.is_empty() {
            return Err(StoreError::Validation);
        }
        if nonce.len() != NONCE_LENGTH {
            return Err(StoreError::NonceLength);
        }
        let key = match Self::derive_key(password, salt) {
            Ok(key) => key,
            Err(e) => {
                return Err(e);
            },
        };
        let sealed = match aes_gcm_seal(key.as_slice(), nonce, data.as_bytes()) {
            Ok(sealed) => sealed,
            Err(_) => {
                return Err(StoreError::Encryption);
            },
        };
        if !can_encode(sealed.len()) || !can_encode(salt.len()) {
            return Err(StoreError::Encryption);
        }
        let encrypted_data = base64_encode(sealed.as_slice());
        let nonce_b64 = base64_encode(nonce);
        let salt_b64 = base64_encode(salt);
        proof {
            vstd::utf8::encode_utf8_valid_utf8(data@);
            vstd::utf8::encode_utf8_decode_utf8(data@);
        }
        Ok(EncryptionResult { encrypted_data, nonce: nonce_b64, salt: salt_b64 })
    }

    /// Seals `data` under `password` with a fresh random salt and a fresh
    /// random nonce. Empty data or an empty password is refused. Whatever
    /// salt and nonce were drawn, the result is what [`sealed_container`]
    /// gives for them, and a container that comes back opens to `data` again
    /// under `password`.
    pub fn encrypt(data: &str, password: &str) -> (r: Result<EncryptionResult, StoreError>)
        ensures
            is_sealing(data@, password@, container_outcome(r)),
            data@.len() == 0 || password@.len() == 0 ==> r == Err::<EncryptionResult, StoreError>(
                StoreError::Validation,
            ),
            r matches Ok(container) ==> opened_text(with_password(container@, password@)) == Ok::<
                Seq<char>,
                StoreError,
            >(data@),
    {
        if data.is_empty() || password.is_empty() {
            assert(sealed_container(
                data@,
                password@,
                Seq::new(SALT_LENGTH as nat, |i: int| 0u8),
                Seq::new(NONCE_LENGTH as nat, |i: int| 0u8),
            ) == container_outcome(Err(StoreError::Validation)));
            return Err(StoreError::Validation);
        }
        let salt = Self::generate_salt();
        let nonce_bytes = Self::generate_nonce();
        let r = Self::encrypt_with(data, password, salt.as_slice(), nonce_bytes.as_slice());
        assert(sealed_container(data@, password@, salt@, nonce_bytes@) == container_outcome(r));
        r
    }

    /// Opens a container with a password and returns the text it holds, or
    /// the first reason in the order of [`opened_text`] why it cannot.
    pub fn decrypt(params: &DecryptionParams) -> (r: Result<String, StoreError>)
        ensures
            text_outcome(r) == opened_text(params@),
    {
        if params.encrypted_data.as_str().is_empty() || params.nonce.as_str().is_empty()
            || params.salt.as_str().is_empty() || params.password.as_str().is_empty() {
            return Err(StoreError::Validation);
        }
        let encrypted_bytes = match base64_decode(params.encrypted_data.as_str()) {
            Ok(bytes) => bytes,
            Err(_) => {
                return Err(StoreError::Encoding);
            },
        };
        let nonce_bytes = match base64_decode(params.nonce.as_str()) {
            Ok(bytes) => bytes,
            Err(_) => {
                return Err(StoreError::Encoding);
            },
        };
        let salt_bytes = match base64_decode(params.salt.as_str()) {
            Ok(bytes) => bytes,
            Err(_) => {
                return Err(StoreError::Encoding);
            },
        };
        if nonce_bytes.len() != NONCE_LENGTH {
            return Err(StoreError::NonceLength);
        }
        let key = match Self::derive_key(params.password.as_str(), salt_bytes.as_slice()) {
            Ok(key) => key,
            Err(e) => {
                return Err(e);
            },
        };
        let decrypted_bytes = match aes_gcm_open(
            key.as_slice(),
            nonce_bytes.as_slice(),
            encrypted_bytes.as_slice(),
        ) {
            Ok(bytes) => bytes,
            Err(_) => {
                return Err(StoreError::AuthenticationFailure);
            },
        };
        match string_from_utf8(decrypted_bytes) {
            Ok(text) => Ok(text),
            Err(_) => Err(StoreError::InvalidText),
        }
    }

    /// The characters of [`PASSWORD_CHARSET`] as a list.
    pub fn password_charset() -> (charset: Vec<char>)
        ensures
            charset@ == PASSWORD_CHARSET@,
    {
        let mut charset: Vec<char> = Vec::new();
        for c in it: PASSWORD_CHARSET.chars()
            invariant
                it.seq() == PASSWORD_CHARSET@,
                charset@ == PASSWORD_CHARSET@.subrange(0, it.index() as int),
        {
            charset.push(c);
            assert(charset@ =~= PASSWORD_CHARSET@.subrange(0, it.index() + 1));
        }
        assert(charset@ =~= PASSWORD_CHARSET@);
        charset
    }

    /// A random password of `length` characters, each drawn from
    /// [`PASSWORD_CHARSET`].
    pub fn generate_secure_password(length: usize) -> (password: String)
        ensures
            password@.len() == length,
            forall|i: int| 0 <= i < length ==> PASSWORD_CHARSET@.contains(#[trigger] password@[i]),
    {
        let charset = Self::password_charset();
        let mut chars: Vec<char> = Vec::new();
        let mut i: usize = 0;
        while i < length
            invariant
                i <= length,
                chars@.len() == i,
                charset@ == PASSWORD_CHARSET@,
                forall|j: int| 0 <= j < i ==> PASSWORD_CHARSET@.contains(#[trigger] chars@[j]),
            decreases length - i,
        {
            proof {
                reveal_strlit(
                    "ABCDEFGHIJKLMNOPQRSTUVWXYZabcdefghijklmnopqrstuvwxyz0123456789!@#$%^&*",
                );
            }
            assert(charset@.len() > 0);
            let c: char = match choose_with_os_rng(&charset) {
                Some(c) => *c,
                None => vstd::pervasive::unreached(),
            };
            chars.push(c);
            i += 1;
        }
        string_from_chars(&chars)
    }

    /// The SHA-256 digest of a text in lowercase hexadecimal.
    pub fn hash_sha256(data: &str) -> (hash: String)
        ensures
            hash@ == content_hash(data@),
    {
        let digest = sha256(data.as_bytes());
        hex_encode(digest.as_slice())
    }

    /// Tells whether `expected_hash` is the hash of `data`.
    pub fn verify_integrity(data: &str, expected_hash: &str) -> (r: bool)
        ensures
            r == integrity_holds(data@, expected_hash@),
    {
        let actual_hash = Self::hash_sha256(data);
        same_text(actual_hash.as_str(), expected_hash)
    }

    /// Scores a password. The points add up to 100 at most, so no clamp is
    /// left to apply.
    pub fn validate_password_strength(password: &str) -> (score: u8)
        ensures
            score == strength_score(password@),
            score <= 100,
    {
        if password.is_empty() {
            return 0;
        }
        let bytes: usize = password.as_bytes().len();
        let mut lower = false;
        let mut upper = false;
        let mut digit = false;
        let mut other = false;
        for c in it: password.chars()
            invariant
                it.seq() == password@,
                password@.len() > 0,
                bytes == vstd::utf8::encode_utf8(password@).len(),
                lower == (exists|i: int| 0 <= i < it.index() && ascii_lower(#[trigger] password@[i])),
                upper == (exists|i: int| 0 <= i < it.index() && ascii_upper(#[trigger] password@[i])),
                digit == (exists|i: int| 0 <= i < it.index() && ascii_digit(#[trigger] password@[i])),
                other == (exists|i: int| 0 <= i < it.index() && !unicode_alphanumeric(#[trigger] password@[i])),
        {
            if 'a' <= c && c <= 'z' {
                lower = true;
            }
            if 'A' <= c && c <= 'Z' {
                upper = true;
            }
            if '0' <= c && c <= '9' {
                digit = true;
            }
            if !is_alphanumeric(c) {
                other = true;
            }
        }
        Self::score_points(bytes, lower, upper, digit, other)
    }

    /// The points of a password that is not empty, from its length in bytes
    /// and from the kinds of character found in it.
    pub fn score_points(bytes: usize, lower: bool, upper: bool, digit: bool, other: bool) -> (score:
        u8)
        ensures
            score == length_points(bytes as nat) + kind_points(lower, upper, digit, other),
            score <= 100,
    {
        let mut score: u8 = 0;
        if bytes >= 8 {
            score += 25;
        }
        if bytes >= 12 {
            score += 15;
        }
        if bytes >= 16 {
            score += 10;
        }
        if lower {
            score += 10;
        }
        if upper {
            score += 10;
        }
        if digit {
            score += 10;
        }
        if other {
            score += 20;
        }
        score
    }
}

/// Sealing and opening of whole files. The caller reads the file and writes
/// the result; these functions decide what is written and where.
pub struct FileEncryption;

/// What is appended to the path of a file to name its sealed form.
pub const ENCRYPTED_SUFFIX: &'static str = ".encrypted";

/// What replaces [`ENCRYPTED_SUFFIX`] in the path of an opened file.
pub const DECRYPTED_SUFFIX: &'static str = ".decrypted";

impl FileEncryption {
    /// Seals the content of the file at `file_path`. Returns the path to
    /// write to, which is `file_path` followed by [`ENCRYPTED_SUFFIX`], and
    /// the container to write there.
    pub fn encrypt_file(file_path: &str, content: &str, password: &str) -> (r: Result<
        (String, EncryptionResult),
        StoreError,
    >)
        ensures
            is_sealing(
                content@,
                password@,
                match r {
                    Ok(out) => Ok(out.1@),
                    Err(e) => Err(e),
                },
            ),
            content@.len() == 0 || password@.len() == 0 ==> r == Err::<
                (String, EncryptionResult),
                StoreError,
            >(StoreError::Validation),
            r matches Ok(out) ==> {
                &&& out.0@ == file_path@ + ENCRYPTED_SUFFIX@
                &&& opened_text(with_password(out.1@, password@)) == Ok::<Seq<char>, StoreError>(
                    content@,
                )
            },
    {
        let encrypted = match BackendEncryption::encrypt(content, password) {
            Ok(encrypted) => encrypted,
            Err(e) => {
                return Err(e);
            },
        };
        let encrypted_path = file_path.to_owned().concat(ENCRYPTED_SUFFIX);
        Ok((encrypted_path, encrypted))
    }

    /// Opens the container read from the file at `encrypted_file_path`;
    /// `container` is `None` where the file did not hold one. Returns the path
    /// to write to, which is `encrypted_file_path` with every
    /// [`ENCRYPTED_SUFFIX`] replaced by [`DECRYPTED_SUFFIX`], and the text to
    /// write there.
    pub fn decrypt_file(
        encrypted_file_path: &str,
        container: Option<EncryptionResult>,
        password: &str,
    ) -> (r: Result<(String, String), StoreError>)
        ensures
            match container {
                None => r == Err::<(String, String), StoreError>(StoreError::Serialization),
                Some(c) => match r {
                    Ok(out) => {
                        &&& opened_text(with_password(c@, password@)) == Ok::<
                            Seq<char>,
                            StoreError,
                        >(out.1@)
                        &&& out.0@ == replace_all(
                            encrypted_file_path@,
                            ENCRYPTED_SUFFIX@,
                            DECRYPTED_SUFFIX@,
                        )
                    },
                    Err(e) => opened_text(with_password(c@, password@)) == Err::<
                        Seq<char>,
                        StoreError,
                    >(e),
                },
            },
    {
        let encrypted_result = match container {
            Some(c) => c,
            None => {
                return Err(StoreError::Serialization);
            },
        };
        let decrypt_params = DecryptionParams {
            encrypted_data: encrypted_result.encrypted_data,
            nonce: encrypted_result.nonce,
            salt: encrypted_result.salt,
            password: password.to_owned(),
        };
        let decrypted_content = match BackendEncryption::decrypt(&decrypt_params) {
            Ok(text) => text,
            Err(e) => {
                return Err(e);
            },
        };
        proof {
            reveal_strlit(".encrypted");
        }
        let decrypted_path = str_replace(encrypted_file_path, ENCRYPTED_SUFFIX, DECRYPTED_SUFFIX);
        Ok((decrypted_path, decrypted_content))
    }
}

/// No password scores more than 100. The empty password scores nothing. A
/// password of sixteen bytes or more that holds a lowercase letter, an
/// uppercase letter, a digit and a character that is not alphanumeric scores
/// 100.
pub proof fn lemma_score_bounds(password: Seq<char>)
    ensures
        strength_score(password) <= 100,
        password.len() == 0 ==> strength_score(password) == 0,
        vstd::utf8::encode_utf8(password).len() >= 16 && variety_points(password) == 50
            ==> strength_score(password) == 100,
{
    if vstd::utf8::encode_utf8(password).len() >= 16 && password.len() == 0 {
        assert(vstd::utf8::encode_utf8(password) =~= Seq::<u8>::empty()) by {
            reveal_with_fuel(vstd::utf8::encode_utf8, 1);
        }
    }
}

/// A text verifies against its own hash.
pub proof fn lemma_hash_verifies(data: Seq<char>)
    ensures
        integrity_holds(data, content_hash(data)),
{
}

/// A text does not verify against the hash of a text with another digest.
/// Two texts with the same digest verify against each other's hash, so the
/// digests are what has to differ.
pub proof fn lemma_other_hash_fails(data: Seq<char>, other: Seq<char>)
    requires
        sha256_digest(vstd::utf8::encode_utf8(data)) != sha256_digest(
            vstd::utf8::encode_utf8(other),
        ),
    ensures
        !integrity_holds(data, content_hash(other)),
{
    lemma_hex_text_injective(
        sha256_digest(vstd::utf8::encode_utf8(data)),
        sha256_digest(vstd::utf8::encode_utf8(other)),
    );
}

} // verus!
