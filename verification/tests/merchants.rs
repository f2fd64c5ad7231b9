//! Merchants, their keys and their tokens, and the texts they are made of.

use cipherpay::api_keys::{generate_raw_key, prefix_of, KeyRing, KeyType, RevokeOutcome};
use cipherpay::ids::{new_simple_id, remove_hyphens};
use cipherpay::crypto::decrypt;
use cipherpay::merchants::{
    create_merchant, create_recovery_token, hash_key, next_diversifier_index,
    regenerate_api_key, regenerate_webhook_secret, row_to_merchant, CreateMerchantError, CreateMerchantRequest,
};
use cipherpay::scanner::detection::{refresh_key_cache, KeyCache};
use cipherpay::text::{
    ascii_lowercase, contains, decimal_signed_text, decimal_text, parse_i64, parse_u64,
    strip_prefix, text_less, trim,
};

use orchard::keys::{FullViewingKey, SpendingKey};
use zcash_address::unified::{Encoding, Fvk, Revision, Ufvk, Uitem};
use zcash_protocol::consensus::NetworkType;

fn viewing_key(seed: u8) -> String {
    let sk = SpendingKey::from_bytes([seed; 32]).unwrap();
    let item = Uitem::Data(Fvk::Orchard(FullViewingKey::from(&sk).to_bytes()));
    Ufvk::try_from_items(Revision::R0, vec![item]).unwrap().encode(&NetworkType::Test)
}

fn registration(ufvk: &str) -> CreateMerchantRequest {
    CreateMerchantRequest {
        name: Some("Shop".to_string()),
        ufvk: ufvk.to_string(),
        webhook_url: None,
        email: Some("a@b.c".to_string()),
    }
}

#[test]
fn merchants_are_registered_with_their_secrets() {
    let key = "a".repeat(64);
    let req = registration(&viewing_key(1));
    let (m, resp) = create_merchant(&req, &key, 1_767_225_600).unwrap_or_else(|_| panic!());
    assert_eq!(m.id, resp.merchant_id);
    assert_eq!(m.api_key_hash, hash_key(&resp.api_key));
    assert_eq!(m.dashboard_token_hash, hash_key(&resp.dashboard_token));
    assert!(m.payment_address.starts_with("utest1"));
    let row = (
        m.id.clone(),
        m.name.clone(),
        m.api_key_hash.clone(),
        m.dashboard_token_hash.clone(),
        m.ufvk.clone(),
        m.payment_address.clone(),
        m.webhook_url.clone(),
        m.webhook_secret.clone(),
        m.recovery_email.clone(),
        m.created_at.clone(),
        m.diversifier_index,
    );
    let read = row_to_merchant(row, &key);
    assert_eq!(read.ufvk, req.ufvk);
    assert_eq!(read.webhook_secret, resp.webhook_secret);
    assert_eq!(decrypt(&m.ufvk, &key).unwrap(), req.ufvk);
    assert_eq!(decrypt(&m.webhook_secret, &key).unwrap(), resp.webhook_secret);
    let e = create_merchant(&registration("bad"), &key, 0).err();
    assert!(matches!(e, Some(CreateMerchantError::InvalidUfvk(_))));
    let e = create_merchant(&req, "short", 0).err();
    assert!(matches!(e, Some(CreateMerchantError::Crypto(_))));
}

#[test]
fn tokens_and_indices_are_used_up() {
    let mut index = 4;
    assert_eq!(next_diversifier_index(&mut index), 4);
    assert_eq!(next_diversifier_index(&mut index), 5);
    let (token, record) = create_recovery_token("m", 1_767_225_600);
    assert_eq!(record.token_hash, hash_key(&token));
    assert_eq!(record.expires_at, "2026-01-01T01:00:00Z");
    let (merchant, fresh) = record.confirm(&token, "2026-01-01T00:59:59Z").unwrap_or_else(|| panic!());
    assert_eq!(merchant, "m");
    assert_eq!(fresh.stored, hash_key(&fresh.secret));
    assert!(record.confirm(&token, "2026-01-01T01:00:01Z").is_none());
    assert!(record.confirm("other", "2026-01-01T00:00:00Z").is_none());
    let fresh = regenerate_api_key();
    assert_eq!(fresh.stored, hash_key(&fresh.secret));
    assert!(regenerate_webhook_secret("bad").is_err());
    assert!(regenerate_webhook_secret("").is_ok());
    let key = "b".repeat(64);
    let fresh = regenerate_webhook_secret(&key).unwrap_or_else(|_| panic!());
    assert_eq!(decrypt(&fresh.stored, &key).unwrap(), fresh.secret);
}

#[test]
fn last_full_key_cannot_be_revoked() {
    let mut ring = KeyRing { legacy_hash: String::new(), keys: vec![] };
    let full = ring.create_key(KeyType::Full, "main", "t1");
    let restricted = ring.create_key(KeyType::Restricted, "till", "t2");
    assert!(full.key.starts_with("cpay_sk_") && restricted.key.starts_with("cpay_rk_"));
    assert_eq!(full.key_prefix, prefix_of(&full.key));
    let third = ring.create_key(KeyType::Restricted, "shop", "t2");
    let labels = |r: &KeyRing| -> Vec<String> {
        r.list_keys().into_iter().map(|k| k.label).collect()
    };
    assert_eq!(labels(&ring), vec!["shop", "till", "main"]);
    assert_eq!(ring.revoke_key(&third.id, "t3"), RevokeOutcome::Revoked);
    assert_eq!(labels(&ring), vec!["till", "main"]);
    ring.keys.reverse();
    assert_eq!(labels(&ring), vec!["till", "main"]);
    assert_eq!(ring.revoke_key(&full.id, "t3"), RevokeOutcome::LastFullKey);
    assert_eq!(ring.revoke_key("nothing", "t3"), RevokeOutcome::NotFound);
    let second = ring.create_key(KeyType::Full, "second", "t4");
    assert_eq!(ring.revoke_key(&full.id, "t5"), RevokeOutcome::Revoked);
    assert_eq!(ring.revoke_key(&full.id, "t5"), RevokeOutcome::NotFound);
    assert_eq!(ring.revoke_key(&second.id, "t6"), RevokeOutcome::LastFullKey);
    assert_eq!(ring.revoke_key(&restricted.id, "t7"), RevokeOutcome::Revoked);
    assert!(generate_raw_key(KeyType::Restricted).starts_with("cpay_rk_"));
}

#[test]
fn keys_are_prepared_once() {
    let (m, _) = create_merchant(&registration(&viewing_key(1)), "", 0).unwrap_or_else(|_| panic!());
    let merchants = vec![m];
    let mut cache: Option<KeyCache> = None;
    refresh_key_cache(&mut cache, &merchants, Some(&viewing_key(2)));
    let c = cache.as_ref().unwrap_or_else(|| panic!());
    assert_eq!(c.keys.len(), 2);
    assert_eq!(c.merchant_ids, vec![merchants[0].id.clone()]);
}

#[test]
fn identifiers_are_lowercase_hexadecimal() {
    let id = new_simple_id();
    assert_eq!(id.len(), 32);
    assert!(id.chars().all(|c| c.is_ascii_digit() || ('a'..='f').contains(&c)));
    assert_eq!(remove_hyphens("a-b--c"), "abc");
}

#[test]
fn texts_are_read_and_written() {
    assert_eq!(trim(" \t a b \u{a0}\n"), "a b");
    assert_eq!(ascii_lowercase("ABC\u{c4}"), "abc\u{c4}");
    assert_eq!(decimal_text(0), "0");
    assert_eq!(decimal_text(18_446_744_073_709_551_615), "18446744073709551615");
    assert_eq!(decimal_signed_text(-9_223_372_036_854_775_808), "-9223372036854775808");
    assert_eq!(parse_u64("+18446744073709551615"), Some(u64::MAX));
    assert_eq!(parse_u64("18446744073709551616"), None);
    assert_eq!(parse_u64(""), None);
    assert_eq!(parse_i64("-9223372036854775808"), Some(i64::MIN));
    assert_eq!(parse_i64("-9223372036854775809"), None);
    assert_eq!(parse_i64("-"), None);
    assert!(contains("abcabd", "abd") && !contains("abc", "abd"));
    assert_eq!(strip_prefix("Bearer x", "Bearer "), Some("x"));
    assert!(text_less("2026-01-01", "2026-01-02") && !text_less("b", "a") && !text_less("a", "a"));
}
