//! Encryption, hashing and the secrets that are made with it.

use cipherpay::crypto::{
    blind_index, decrypt, decrypt_or_plaintext, decrypt_webhook_secret, encrypt,
    encrypt_with_nonce, CryptoError,
};
use cipherpay::db::{
    email_index_change, migrate_recovery_email, migrate_viewing_key, migrate_webhook_secret,
    plan_email_migration, read_email, EmailMigration,
};
use cipherpay::merchants::{
    generate_api_key, generate_dashboard_token, generate_webhook_secret, hash_key, stored_secret,
};

#[test]
fn test_encrypt_decrypt_roundtrip() {
    let key = "a".repeat(64);
    let plaintext = "uviewtest1somefakeufvkdata";
    let encrypted = encrypt(plaintext, &key).unwrap();
    assert_ne!(encrypted, plaintext);
    let decrypted = decrypt(&encrypted, &key).unwrap();
    assert_eq!(decrypted, plaintext);
}

#[test]
fn test_decrypt_or_plaintext_no_key() {
    let result = decrypt_or_plaintext("uviewtest1abc", "").unwrap();
    assert_eq!(result, "uviewtest1abc");
}

#[test]
fn test_decrypt_or_plaintext_plaintext_ufvk() {
    let key = "b".repeat(64);
    let result = decrypt_or_plaintext("uviewtest1abc", &key).unwrap();
    assert_eq!(result, "uviewtest1abc");
}

#[test]
fn nonce_decides_the_ciphertext() {
    let key = "0".repeat(64);
    let one = encrypt_with_nonce("text", &key, &vec![1; 12]).unwrap();
    let two = encrypt_with_nonce("text", &key, &vec![2; 12]).unwrap();
    assert!(one.starts_with("010101010101010101010101"));
    assert_ne!(one, two);
    assert_eq!(one, encrypt_with_nonce("text", &key, &vec![1; 12]).unwrap());
    assert_eq!(one.len(), 2 * (12 + 4 + 16));
    assert_eq!(decrypt(&two, &key).unwrap(), "text");
}

#[test]
fn wrong_keys_and_data_are_refused() {
    let key = "a".repeat(64);
    assert_eq!(encrypt("x", "zz"), Err(CryptoError::KeyNotHex));
    assert_eq!(encrypt("x", "aabb"), Err(CryptoError::KeyLength));
    assert_eq!(decrypt("zz", &key), Err(CryptoError::DataNotHex));
    assert_eq!(decrypt("aabb", &key), Err(CryptoError::DataTooShort));
    assert_eq!(decrypt(&"00".repeat(40), &key), Err(CryptoError::DecryptionFailed));
    let sealed = encrypt("secret", &key).unwrap();
    assert_eq!(decrypt(&sealed, &"b".repeat(64)), Err(CryptoError::DecryptionFailed));
    assert_eq!(
        CryptoError::DecryptionFailed.message(),
        "Decryption failed (wrong key or corrupted data)"
    );
}

#[test]
fn stored_secrets_are_read_back() {
    let key = "c".repeat(64);
    let stored = stored_secret("whsec_abc", &key).unwrap();
    assert_ne!(stored, "whsec_abc");
    assert_eq!(decrypt_webhook_secret(&stored, &key).unwrap(), "whsec_abc");
    assert_eq!(stored_secret("whsec_abc", "").unwrap(), "whsec_abc");
    assert_eq!(decrypt_webhook_secret("whsec_abc", &key).unwrap(), "whsec_abc");
}

#[test]
fn keys_are_hashed_with_sha256() {
    assert_eq!(
        hash_key("abc"),
        "ba7816bf8f01cfea414140de5dae2223b00361a396177a9cb410ff61f20015ad"
    );
}

#[test]
fn secrets_are_drawn_with_their_prefix() {
    for (secret, prefix) in [
        (generate_api_key(), "cpay_sk_"),
        (generate_dashboard_token(), "cpay_dash_"),
        (generate_webhook_secret(), "whsec_"),
    ] {
        assert!(secret.starts_with(prefix));
        assert!(secret[prefix.len()..].chars().all(|c| c.is_ascii_hexdigit()));
    }
    assert_ne!(generate_api_key(), generate_api_key());
}

#[test]
fn stored_rows_are_brought_into_their_present_form() {
    let key = "d".repeat(64);
    let secret = migrate_webhook_secret("whsec_1", &key).unwrap().unwrap();
    assert_eq!(decrypt_webhook_secret(&secret, &key).unwrap(), "whsec_1");
    assert_eq!(decrypt(&secret, &key).unwrap(), "whsec_1");
    assert_eq!(migrate_webhook_secret(&secret, &key).unwrap(), None);
    assert_eq!(migrate_webhook_secret("whsec_1", "").unwrap(), None);
    assert!(migrate_webhook_secret("whsec_1", "bad").is_err());
    let viewing = migrate_viewing_key("uivk1abc", &key).unwrap().unwrap();
    assert_eq!(decrypt_or_plaintext(&viewing, &key).unwrap(), "uivk1abc");
    assert_eq!(migrate_viewing_key(&viewing, &key).unwrap(), None);
    let viewing = migrate_viewing_key("uviewtest1abc", &key).unwrap().unwrap();
    assert_eq!(decrypt(&viewing, &key).unwrap(), "uviewtest1abc");
    let email = migrate_recovery_email("a@b.c", &key).unwrap();
    assert!(!email.contains('@'));
    assert_eq!(read_email(&email, &key), "a@b.c");
    assert_eq!(read_email("nonsense", &key), "nonsense");
    assert_eq!(migrate_recovery_email("a@b.c", "").unwrap(), "a@b.c");
}

#[test]
fn ciphertext_takes_nonce_and_tag() {
    let key = "0123456789abcdef".repeat(4);
    let c = encrypt("caf\u{e9}", &key).unwrap();
    assert_eq!(c.len(), 2 * 5 + 56);
    assert!(c.chars().all(|x| x.is_ascii_digit() || ('a'..='f').contains(&x)));
    assert_eq!(decrypt(&c[..54], &key), Err(CryptoError::DecryptionFailed));
    assert_eq!(decrypt(&c[..24], &key), Err(CryptoError::DataTooShort));
}

#[test]
fn recovery_addresses_are_indexed_under_the_key() {
    let index = blind_index("The quick brown fox jumps over the lazy dog", "key");
    assert_eq!(index, "f7bc83f430538424b13298e6aa6fb143ef4d59a14946175997479dbc2d1a3cd8");
    assert_ne!(blind_index("a@b.c", "key"), blind_index("a@b.c", "other"));
    assert_eq!(email_index_change(Some("old"), "new"), Some("new".to_string()));
    assert_eq!(email_index_change(None, "new"), Some("new".to_string()));
    assert_eq!(email_index_change(Some("new"), "new"), None);
    assert_eq!(plan_email_migration(None, None, "k"), EmailMigration::Skip);
    assert_eq!(plan_email_migration(Some(""), None, "k"), EmailMigration::Skip);
    assert_eq!(plan_email_migration(Some("a@b.c"), None, ""), EmailMigration::Encrypt);
    assert_eq!(plan_email_migration(Some("a@b.c"), Some(""), "k"), EmailMigration::Encrypt);
    assert_eq!(plan_email_migration(Some("x"), Some("i"), ""), EmailMigration::Skip);
    assert_eq!(plan_email_migration(Some("x"), Some("i"), "k"), EmailMigration::Reindex);
}
