//! The failure reasons the library reports.

use vstd::prelude::*;

verus! {

/// Why an operation of the store or of the cipher did not succeed.
#[derive(Clone, Copy, Debug, PartialEq, Eq, Structural)]
pub enum StoreError {
    /// A directory or a file could not be created, read or written.
    Io,
    /// A document on disk, or a decrypted payload, is not the JSON expected.
    Serialization,
    /// The entries file holds a sealed container and no password was given.
    DecryptionRequired,
    /// The authentication tag did not match: wrong password or altered data.
    AuthenticationFailure,
    /// The key derivation function refused its input or gave no usable output.
    Derivation,
    /// A required text (payload, password or container field) was empty.
    Validation,
    /// A container field is not canonical standard base64.
    Encoding,
    /// The decoded nonce does not have the length the cipher needs.
    NonceLength,
    /// The cipher refused the payload.
    Encryption,
    /// The opened payload is not UTF-8 text.
    InvalidText,
}

impl StoreError {
    /// The text shown to a person for this failure.
    pub fn message(&self) -> (text: String)
        ensures
            text@ == self.message_text(),
    {
        match self {
            StoreError::Io => "Failed to access the data files".to_string(),
            StoreError::Serialization => "Failed to parse or serialize data".to_string(),
            StoreError::DecryptionRequired => "Entries are encrypted, password required".to_string(),
            StoreError::AuthenticationFailure => "Decryption failed (possibly wrong password)".to_string(),
            StoreError::Derivation => "Failed to hash password".to_string(),
            StoreError::Validation => "Data and password cannot be empty".to_string(),
            StoreError::Encoding => "Failed to decode encrypted data".to_string(),
            StoreError::NonceLength => "Invalid nonce length".to_string(),
            StoreError::Encryption => "Encryption failed".to_string(),
            StoreError::InvalidText => "Failed to convert decrypted data to string".to_string(),
        }
    }

    /// The message of each failure, as a sequence of characters.
    pub open spec fn message_text(&self) -> Seq<char> {
        match self {
            StoreError::Io => "Failed to access the data files"@,
            StoreError::Serialization => "Failed to parse or serialize data"@,
            StoreError::DecryptionRequired => "Entries are encrypted, password required"@,
            StoreError::AuthenticationFailure => "Decryption failed (possibly wrong password)"@,
            StoreError::Derivation => "Failed to hash password"@,
            StoreError::Validation => "Data and password cannot be empty"@,
            StoreError::Encoding => "Failed to decode encrypted data"@,
            StoreError::NonceLength => "Invalid nonce length"@,
            StoreError::Encryption => "Encryption failed"@,
            StoreError::InvalidText => "Failed to convert decrypted data to string"@,
        }
    }
}

} // verus!
