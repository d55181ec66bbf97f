use aes_gcm::aead::{Aead, KeyInit};
use aes_gcm::{Aes256Gcm, Key, Nonce};
use base64::engine::general_purpose::STANDARD;
use base64::Engine;
use memory_vault::crypto::{
    BackendEncryption, DecryptionParams, EncryptionResult, FileEncryption, PASSWORD_CHARSET,
};
use memory_vault::error::StoreError;

fn params_of(container: &EncryptionResult, password: &str) -> DecryptionParams {
    DecryptionParams {
        encrypted_data: container.encrypted_data.clone(),
        nonce: container.nonce.clone(),
        salt: container.salt.clone(),
        password: password.to_string(),
    }
}

fn flip_first_byte(field: &str) -> String {
    let mut bytes = STANDARD.decode(field).unwrap();
    bytes[0] ^= 0x01;
    STANDARD.encode(bytes)
}

#[test]
fn test_encryption_decryption() {
    let data = "这是一段测试数据";
    let password = "test_password_123";

    let encrypted = BackendEncryption::encrypt(data, password).unwrap();

    let decrypt_params = DecryptionParams {
        encrypted_data: encrypted.encrypted_data,
        nonce: encrypted.nonce,
        salt: encrypted.salt,
        password: password.to_string(),
    };

    let decrypted = BackendEncryption::decrypt(&decrypt_params).unwrap();

    assert_eq!(data, decrypted);
}

#[test]
fn test_password_strength() {
    assert_eq!(BackendEncryption::validate_password_strength(""), 0);
    // Four lowercase letters: nothing for the length, ten for the letters.
    assert_eq!(BackendEncryption::validate_password_strength("weak"), 10);
    assert!(BackendEncryption::validate_password_strength("StrongP@ssw0rd123") > 80);
}

#[test]
fn test_hash_integrity() {
    let data = "test data";
    let hash = BackendEncryption::hash_sha256(data);
    assert!(BackendEncryption::verify_integrity(data, &hash));
    assert!(!BackendEncryption::verify_integrity("modified data", &hash));
}

#[test]
fn round_trip_returns_the_payload() {
    let cases = [
        ("a", "p"),
        ("[{\"id\":\"1\",\"title\":\"日记\"}]", "密码🔑"),
        ("line one\nline two\n", " "),
    ];
    for (data, password) in cases {
        let container = BackendEncryption::encrypt(data, password).unwrap();
        let opened = BackendEncryption::decrypt(&params_of(&container, password)).unwrap();
        assert_eq!(opened, data);
    }
}

#[test]
fn container_fields_have_the_exact_lengths() {
    let container = BackendEncryption::encrypt("payload", "password").unwrap();
    assert_eq!(STANDARD.decode(&container.salt).unwrap().len(), 32);
    assert_eq!(STANDARD.decode(&container.nonce).unwrap().len(), 12);
    // The ciphertext is the payload followed by a tag of 16 bytes.
    assert_eq!(STANDARD.decode(&container.encrypted_data).unwrap().len(), 7 + 16);
}

#[test]
fn encrypt_with_encodes_salt_and_nonce_in_base64() {
    let salt = [0u8; 32];
    let nonce = [0u8; 12];
    let container = BackendEncryption::encrypt_with("payload", "password", &salt, &nonce).unwrap();
    assert_eq!(container.salt, "AAAAAAAAAAAAAAAAAAAAAAAAAAAAAAAAAAAAAAAAAAA=");
    assert_eq!(container.nonce, "AAAAAAAAAAAAAAAA");
    let salt: Vec<u8> = (1u8..=32).collect();
    let nonce = [0xffu8; 12];
    let container = BackendEncryption::encrypt_with("payload", "password", &salt, &nonce).unwrap();
    assert_eq!(container.salt, "AQIDBAUGBwgJCgsMDQ4PEBESExQVFhcYGRobHB0eHyA=");
    assert_eq!(container.nonce, "////////////////");
}

#[test]
fn encrypt_with_is_a_function_of_its_arguments() {
    let salt = [7u8; 32];
    let nonce = [9u8; 12];
    let first = BackendEncryption::encrypt_with("payload", "password", &salt, &nonce).unwrap();
    let second = BackendEncryption::encrypt_with("payload", "password", &salt, &nonce).unwrap();
    assert_eq!(first.encrypted_data, second.encrypted_data);
    assert_eq!(first.nonce, second.nonce);
    assert_eq!(first.salt, second.salt);
    let opened = BackendEncryption::decrypt(&params_of(&first, "password")).unwrap();
    assert_eq!(opened, "payload");
}

#[test]
fn ciphertext_is_aes_256_gcm_under_the_derived_key() {
    let salt = [3u8; 32];
    let nonce = [5u8; 12];
    let container = BackendEncryption::encrypt_with("payload", "password", &salt, &nonce).unwrap();
    let key = BackendEncryption::derive_key("password", &salt).unwrap();
    let cipher = Aes256Gcm::new(Key::<Aes256Gcm>::from_slice(&key));
    let expected = cipher.encrypt(Nonce::from_slice(&nonce), "payload".as_bytes()).unwrap();
    assert_eq!(STANDARD.decode(&container.encrypted_data).unwrap(), expected);
    assert_ne!(&expected[..7], "payload".as_bytes());
    let sealed = STANDARD.decode(&container.encrypted_data).unwrap();
    let opened = cipher.decrypt(Nonce::from_slice(&nonce), sealed.as_slice()).unwrap();
    assert_eq!(opened, "payload".as_bytes());
}

#[test]
fn encrypt_with_rejects_a_nonce_of_another_length() {
    let salt = [0u8; 32];
    let short = BackendEncryption::encrypt_with("payload", "password", &salt, &[0u8; 11]);
    assert_eq!(short.unwrap_err(), StoreError::NonceLength);
    let long = BackendEncryption::encrypt_with("payload", "password", &salt, &[0u8; 13]);
    assert_eq!(long.unwrap_err(), StoreError::NonceLength);
}

#[test]
fn derive_key_is_argon2id_with_default_parameters() {
    let salt = [11u8; 32];
    let key = BackendEncryption::derive_key("password", &salt).unwrap();
    let mut expected = [0u8; 32];
    argon2::Argon2::default().hash_password_into(b"password", &salt, &mut expected).unwrap();
    assert_eq!(key, expected);
    assert_ne!(key, salt);
}

#[test]
fn derive_key_is_deterministic_and_salted() {
    let salt_a = [1u8; 32];
    let salt_b = [2u8; 32];
    let first = BackendEncryption::derive_key("password", &salt_a).unwrap();
    let again = BackendEncryption::derive_key("password", &salt_a).unwrap();
    let other_salt = BackendEncryption::derive_key("password", &salt_b).unwrap();
    let other_password = BackendEncryption::derive_key("Password", &salt_a).unwrap();
    assert_eq!(first, again);
    assert_ne!(first, other_salt);
    assert_ne!(first, other_password);
}

#[test]
fn derive_key_refuses_a_short_salt() {
    assert_eq!(BackendEncryption::derive_key("password", &[]).unwrap_err(), StoreError::Derivation);
    assert_eq!(
        BackendEncryption::derive_key("password", &[1u8; 2]).unwrap_err(),
        StoreError::Derivation
    );
    assert_eq!(
        BackendEncryption::derive_key("password", &[1u8; 7]).unwrap_err(),
        StoreError::Derivation
    );
    assert!(BackendEncryption::derive_key("password", &[1u8; 8]).is_ok());
}

#[test]
fn derive_key_refuses_a_salt_too_long_to_encode() {
    assert!(BackendEncryption::derive_key("password", &[1u8; 48]).is_ok());
    assert_eq!(
        BackendEncryption::derive_key("password", &[1u8; 49]).unwrap_err(),
        StoreError::Derivation
    );
}

#[test]
fn key_from_hash_takes_the_first_32_bytes() {
    let hash: Vec<u8> = (0u8..40).collect();
    let key = BackendEncryption::key_from_hash(&hash).unwrap();
    assert_eq!(key.to_vec(), (0u8..32).collect::<Vec<u8>>());
    assert_eq!(
        BackendEncryption::key_from_hash(&hash[..31]).unwrap_err(),
        StoreError::Derivation
    );
    assert!(BackendEncryption::key_from_hash(&hash[..32]).is_ok());
}

#[test]
fn tampered_ciphertext_fails_authentication() {
    let container = BackendEncryption::encrypt("secret payload", "password").unwrap();
    let sealed = STANDARD.decode(&container.encrypted_data).unwrap();
    // The first byte, a byte in the middle, the first byte of the tag and the last byte.
    for index in [0, 7, sealed.len() - 16, sealed.len() - 1] {
        let mut altered = sealed.clone();
        altered[index] ^= 0x80;
        let mut params = params_of(&container, "password");
        params.encrypted_data = STANDARD.encode(altered);
        assert_eq!(
            BackendEncryption::decrypt(&params).unwrap_err(),
            StoreError::AuthenticationFailure
        );
    }
}

#[test]
fn truncated_ciphertext_fails_authentication() {
    let container = BackendEncryption::encrypt("secret payload", "password").unwrap();
    let sealed = STANDARD.decode(&container.encrypted_data).unwrap();
    let mut params = params_of(&container, "password");
    params.encrypted_data = STANDARD.encode(&sealed[..sealed.len() - 1]);
    assert_eq!(BackendEncryption::decrypt(&params).unwrap_err(), StoreError::AuthenticationFailure);
    params.encrypted_data = STANDARD.encode(&sealed[..3]);
    assert_eq!(BackendEncryption::decrypt(&params).unwrap_err(), StoreError::AuthenticationFailure);
}

#[test]
fn tampered_nonce_fails_authentication() {
    let container = BackendEncryption::encrypt("secret payload", "password").unwrap();
    let mut params = params_of(&container, "password");
    params.nonce = flip_first_byte(&container.nonce);
    assert_eq!(BackendEncryption::decrypt(&params).unwrap_err(), StoreError::AuthenticationFailure);
}

#[test]
fn tampered_salt_fails_authentication() {
    let container = BackendEncryption::encrypt("secret payload", "password").unwrap();
    let mut params = params_of(&container, "password");
    params.salt = flip_first_byte(&container.salt);
    assert_eq!(BackendEncryption::decrypt(&params).unwrap_err(), StoreError::AuthenticationFailure);
}

#[test]
fn wrong_password_fails_authentication() {
    let container = BackendEncryption::encrypt("secret payload", "password one").unwrap();
    let params = params_of(&container, "password two");
    assert_eq!(BackendEncryption::decrypt(&params).unwrap_err(), StoreError::AuthenticationFailure);
}

#[test]
fn every_encryption_draws_a_new_salt_and_nonce() {
    let mut salts = Vec::new();
    let mut nonces = Vec::new();
    let mut ciphertexts = Vec::new();
    for _ in 0..3 {
        let container = BackendEncryption::encrypt("same payload", "same password").unwrap();
        assert!(!salts.contains(&container.salt));
        assert!(!nonces.contains(&container.nonce));
        assert!(!ciphertexts.contains(&container.encrypted_data));
        salts.push(container.salt);
        nonces.push(container.nonce);
        ciphertexts.push(container.encrypted_data);
    }
}

#[test]
fn generated_salt_and_nonce_have_their_lengths() {
    let salt = BackendEncryption::generate_salt();
    let nonce = BackendEncryption::generate_nonce();
    assert_eq!(salt.len(), 32);
    assert_eq!(nonce.len(), 12);
    assert_ne!(salt, BackendEncryption::generate_salt());
    assert_ne!(nonce, BackendEncryption::generate_nonce());
}

#[test]
fn encrypt_refuses_empty_input() {
    assert_eq!(BackendEncryption::encrypt("", "password").unwrap_err(), StoreError::Validation);
    assert_eq!(BackendEncryption::encrypt("data", "").unwrap_err(), StoreError::Validation);
    assert_eq!(BackendEncryption::encrypt("", "").unwrap_err(), StoreError::Validation);
}

#[test]
fn decrypt_refuses_an_empty_field() {
    let container = BackendEncryption::encrypt("payload", "password").unwrap();
    let mut params = params_of(&container, "password");
    params.encrypted_data = String::new();
    assert_eq!(BackendEncryption::decrypt(&params).unwrap_err(), StoreError::Validation);
    let mut params = params_of(&container, "password");
    params.nonce = String::new();
    assert_eq!(BackendEncryption::decrypt(&params).unwrap_err(), StoreError::Validation);
    let mut params = params_of(&container, "password");
    params.salt = String::new();
    assert_eq!(BackendEncryption::decrypt(&params).unwrap_err(), StoreError::Validation);
    let params = params_of(&container, "");
    assert_eq!(BackendEncryption::decrypt(&params).unwrap_err(), StoreError::Validation);
}

#[test]
fn decrypt_refuses_text_that_is_not_base64() {
    let container = BackendEncryption::encrypt("payload", "password").unwrap();
    let mut params = params_of(&container, "password");
    params.encrypted_data = "not base64!".to_string();
    assert_eq!(BackendEncryption::decrypt(&params).unwrap_err(), StoreError::Encoding);
    let mut params = params_of(&container, "password");
    params.nonce = "AAAA AAAA AAAA AAAA".to_string();
    assert_eq!(BackendEncryption::decrypt(&params).unwrap_err(), StoreError::Encoding);
    let mut params = params_of(&container, "password");
    // Canonical padding is required.
    params.salt = container.salt.trim_end_matches('=').to_string();
    assert_eq!(BackendEncryption::decrypt(&params).unwrap_err(), StoreError::Encoding);
}

#[test]
fn decrypt_checks_the_encoding_before_the_nonce_length() {
    let container = BackendEncryption::encrypt("payload", "password").unwrap();
    let mut params = params_of(&container, "password");
    params.nonce = STANDARD.encode([0u8; 8]);
    params.salt = "***".to_string();
    assert_eq!(BackendEncryption::decrypt(&params).unwrap_err(), StoreError::Encoding);
}

#[test]
fn decrypt_refuses_a_nonce_of_another_length() {
    let container = BackendEncryption::encrypt("payload", "password").unwrap();
    let mut params = params_of(&container, "password");
    params.nonce = STANDARD.encode([0u8; 11]);
    assert_eq!(BackendEncryption::decrypt(&params).unwrap_err(), StoreError::NonceLength);
    params.nonce = STANDARD.encode([0u8; 16]);
    assert_eq!(BackendEncryption::decrypt(&params).unwrap_err(), StoreError::NonceLength);
}

#[test]
fn decrypt_refuses_a_salt_the_derivation_cannot_take() {
    let container = BackendEncryption::encrypt("payload", "password").unwrap();
    let mut params = params_of(&container, "password");
    params.salt = STANDARD.encode([1u8; 1]);
    assert_eq!(BackendEncryption::decrypt(&params).unwrap_err(), StoreError::Derivation);
    params.salt = STANDARD.encode([1u8; 7]);
    assert_eq!(BackendEncryption::decrypt(&params).unwrap_err(), StoreError::Derivation);
    params.salt = STANDARD.encode([1u8; 64]);
    assert_eq!(BackendEncryption::decrypt(&params).unwrap_err(), StoreError::Derivation);
}

#[test]
fn decrypt_refuses_a_payload_that_is_not_text() {
    let salt = [4u8; 32];
    let nonce = [6u8; 12];
    let key = BackendEncryption::derive_key("password", &salt).unwrap();
    let cipher = Aes256Gcm::new(Key::<Aes256Gcm>::from_slice(&key));
    let sealed = cipher.encrypt(Nonce::from_slice(&nonce), [0xffu8, 0xfe, 0x80].as_slice()).unwrap();
    let params = DecryptionParams {
        encrypted_data: STANDARD.encode(sealed),
        nonce: STANDARD.encode(nonce),
        salt: STANDARD.encode(salt),
        password: "password".to_string(),
    };
    assert_eq!(BackendEncryption::decrypt(&params).unwrap_err(), StoreError::InvalidText);
}

#[test]
fn decrypt_opens_a_container_sealed_elsewhere() {
    let salt = [8u8; 16];
    let nonce = [1u8; 12];
    let key = BackendEncryption::derive_key("pw", &salt).unwrap();
    let cipher = Aes256Gcm::new(Key::<Aes256Gcm>::from_slice(&key));
    let sealed = cipher.encrypt(Nonce::from_slice(&nonce), "hello".as_bytes()).unwrap();
    let params = DecryptionParams {
        encrypted_data: STANDARD.encode(sealed),
        nonce: STANDARD.encode(nonce),
        salt: STANDARD.encode(salt),
        password: "pw".to_string(),
    };
    assert_eq!(BackendEncryption::decrypt(&params).unwrap(), "hello");
}

#[test]
fn password_score_follows_the_rubric() {
    let score = BackendEncryption::validate_password_strength;
    assert_eq!(score(""), 0);
    assert_eq!(score("a"), 10);
    assert_eq!(score("A"), 10);
    assert_eq!(score("1"), 10);
    assert_eq!(score("!"), 20);
    assert_eq!(score(" "), 20);
    assert_eq!(score("aA1!"), 50);
    // Length alone: 25 from 8 bytes, 40 from 12, 50 from 16.
    assert_eq!(score("aaaaaaa"), 10);
    assert_eq!(score("aaaaaaaa"), 35);
    assert_eq!(score("aaaaaaaaaaa"), 35);
    assert_eq!(score("aaaaaaaaaaaa"), 50);
    assert_eq!(score("aaaaaaaaaaaaaaa"), 50);
    assert_eq!(score("aaaaaaaaaaaaaaaa"), 60);
    assert_eq!(score("1234567890123456"), 60);
    assert_eq!(score("abcdefgh1234ABCD"), 80);
    // Seventeen characters of all four kinds: 25+15+10+10+10+10+20.
    assert_eq!(score("StrongP@ssw0rd123"), 100);
    assert_eq!(score("Aa1!Aa1!Aa1!Aa1!Aa1!Aa1!"), 100);
}

#[test]
fn password_score_counts_bytes_and_unicode_letters() {
    let score = BackendEncryption::validate_password_strength;
    // A letter outside ASCII is alphanumeric, yet neither ASCII lowercase nor uppercase.
    assert_eq!(score("é"), 0);
    assert_eq!(score("٣"), 0);
    // Four characters of two bytes each reach the first length step.
    assert_eq!(score("éééé"), 25);
    // A symbol outside ASCII is not alphanumeric.
    assert_eq!(score("€"), 20);
    assert_eq!(score("密码"), 0);
    assert_eq!(score("密码密"), 25);
}

#[test]
fn score_points_adds_length_and_kinds() {
    assert_eq!(BackendEncryption::score_points(0, false, false, false, false), 0);
    assert_eq!(BackendEncryption::score_points(7, true, false, false, false), 10);
    assert_eq!(BackendEncryption::score_points(8, false, false, false, false), 25);
    assert_eq!(BackendEncryption::score_points(12, false, true, false, false), 50);
    assert_eq!(BackendEncryption::score_points(16, false, false, true, false), 60);
    assert_eq!(BackendEncryption::score_points(16, false, false, false, true), 70);
    assert_eq!(BackendEncryption::score_points(usize::MAX, true, true, true, true), 100);
}

#[test]
fn sha256_matches_known_digests() {
    assert_eq!(
        BackendEncryption::hash_sha256(""),
        "e3b0c44298fc1c149afbf4c8996fb92427ae41e4649b934ca495991b7852b855"
    );
    assert_eq!(
        BackendEncryption::hash_sha256("abc"),
        "ba7816bf8f01cfea414140de5dae2223b00361a396177a9cb410ff61f20015ad"
    );
}

#[test]
fn verify_integrity_accepts_only_the_exact_hash() {
    let hash = BackendEncryption::hash_sha256("abc");
    assert!(BackendEncryption::verify_integrity("abc", &hash));
    assert!(!BackendEncryption::verify_integrity("abd", &hash));
    assert!(!BackendEncryption::verify_integrity("abc", &hash.to_uppercase()));
    assert!(!BackendEncryption::verify_integrity("abc", &hash[..63]));
    assert!(!BackendEncryption::verify_integrity("abc", ""));
    let empty = BackendEncryption::hash_sha256("");
    assert!(BackendEncryption::verify_integrity("", &empty));
    assert!(!BackendEncryption::verify_integrity("", &hash));
}

#[test]
fn generated_password_has_the_length_and_the_charset() {
    assert_eq!(BackendEncryption::generate_secure_password(0), "");
    for length in [1usize, 16, 64] {
        let password = BackendEncryption::generate_secure_password(length);
        assert_eq!(password.chars().count(), length);
        assert!(password.chars().all(|c| PASSWORD_CHARSET.contains(c)));
    }
    let first = BackendEncryption::generate_secure_password(32);
    let second = BackendEncryption::generate_secure_password(32);
    assert_ne!(first, second);
}

#[test]
fn password_charset_lists_the_seventy_characters() {
    let charset = BackendEncryption::password_charset();
    assert_eq!(charset.len(), 70);
    assert_eq!(charset.iter().collect::<String>(), PASSWORD_CHARSET);
}

#[test]
fn encrypt_file_names_the_sealed_file() {
    let (path, container) =
        FileEncryption::encrypt_file("/tmp/notes.txt", "file content", "password").unwrap();
    assert_eq!(path, "/tmp/notes.txt.encrypted");
    let opened = BackendEncryption::decrypt(&params_of(&container, "password")).unwrap();
    assert_eq!(opened, "file content");
    assert_eq!(
        FileEncryption::encrypt_file("/tmp/notes.txt", "", "password").unwrap_err(),
        StoreError::Validation
    );
}

#[test]
fn decrypt_file_names_the_opened_file() {
    let container = BackendEncryption::encrypt("file content", "password").unwrap();
    let (path, content) =
        FileEncryption::decrypt_file("/tmp/notes.txt.encrypted", Some(container.clone()), "password")
            .unwrap();
    assert_eq!(path, "/tmp/notes.txt.decrypted");
    assert_eq!(content, "file content");
    let (path, _) = FileEncryption::decrypt_file(
        "/a.encrypted/b.encrypted.encrypted",
        Some(container.clone()),
        "password",
    )
    .unwrap();
    assert_eq!(path, "/a.decrypted/b.decrypted.decrypted");
    let (path, _) =
        FileEncryption::decrypt_file("/tmp/plain.bin", Some(container.clone()), "password").unwrap();
    assert_eq!(path, "/tmp/plain.bin");
    assert_eq!(
        FileEncryption::decrypt_file("/tmp/x.encrypted", None, "password").unwrap_err(),
        StoreError::Serialization
    );
    assert_eq!(
        FileEncryption::decrypt_file("/tmp/x.encrypted", Some(container), "wrong").unwrap_err(),
        StoreError::AuthenticationFailure
    );
}

#[test]
fn every_failure_has_its_message() {
    let all = [
        StoreError::Io,
        StoreError::Serialization,
        StoreError::DecryptionRequired,
        StoreError::AuthenticationFailure,
        StoreError::Derivation,
        StoreError::Validation,
        StoreError::Encoding,
        StoreError::NonceLength,
        StoreError::Encryption,
        StoreError::InvalidText,
    ];
    let mut seen: Vec<String> = Vec::new();
    for error in all {
        let message = error.message();
        assert!(!message.is_empty());
        assert!(!seen.contains(&message));
        seen.push(message);
    }
    assert_eq!(StoreError::DecryptionRequired.message(), "Entries are encrypted, password required");
    assert_eq!(StoreError::NonceLength.message(), "Invalid nonce length");
}
