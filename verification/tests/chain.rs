//! Payments in transactions: what is decrypted, counted and accepted.

use cipherpay::addresses::{derive_invoice_address, orchard_receiver};
use cipherpay::api::deposits::{memo_total, receiver_total, sum_outputs_for_receiver};
use cipherpay::api::sessions::{
    appraise_deposit, open, DepositMark, Depositary, OpenFacts, OpenRefusal, OpenRequest,
};
use cipherpay::api::x402::{
    appraise, conclude, judge, verify, Payee, Shortfall, Verdict, VerifyFacts, VerifyRefusal,
    VerifyRequest,
};
use cipherpay::api::x402_v2::{verify_core_v2, Finding, PaymentFacts, V2Problem};
use cipherpay::api::Lookup;
use cipherpay::billing::Block;
use cipherpay::db::{reduce_viewing_key, KeyReduction};
use cipherpay::scanner::decrypt::{
    derive_uivk_from_ufvk, parse_key_with_network, parse_orchard_fvk, parse_orchard_ivk,
    prepare_keys, try_decrypt_all_outputs, try_decrypt_all_outputs_ivk, try_decrypt_memo,
    try_decrypt_outputs, try_decrypt_with_keys, DecryptedOutput, KeyError,
};
use cipherpay::invoices::matching::InvoiceIndex;
use cipherpay::invoices::{create_draft_invoice, Invoice, InvoiceDraw};
use cipherpay::scanner::detection::{collect_mempool_invoice_totals, detect_fee};
use cipherpay::session_ledger::{RequestError, SessionLedger};
use cipherpay::sessions::{Opening, SessionError};
use cipherpay::zcash::Network;

use orchard::keys::{FullViewingKey, Scope, SpendingKey};
use orchard::note::{ExtractedNoteCommitment, Note, NoteVersion, RandomSeed, Rho};
use orchard::note_encryption::{OrchardDomain, OrchardNoteEncryption};
use orchard::value::NoteValue;
use orchard::Address;
use zcash_address::unified::{Encoding, Fvk, Revision, Ufvk, Uitem};
use zcash_note_encryption::Domain;
use zcash_protocol::consensus::NetworkType;

fn viewing_key(seed: u8) -> FullViewingKey {
    let sk = SpendingKey::from_bytes([seed; 32]).unwrap();
    FullViewingKey::from(&sk)
}

fn ufvk_text(key: &FullViewingKey) -> String {
    let item = Uitem::Data(Fvk::Orchard(key.to_bytes()));
    Ufvk::try_from_items(Revision::R0, vec![item]).unwrap().encode(&NetworkType::Test)
}

fn receiver(key: &FullViewingKey, index: u32) -> Address {
    key.address_at(index, Scope::External)
}

fn receiver_hex(key: &FullViewingKey, index: u32) -> String {
    hex::encode(receiver(key, index).to_raw_address_bytes())
}

/// An action that pays an amount to an address, with a memo.
fn action(to: Address, zatoshis: u64, memo: &str, place: u8) -> Vec<u8> {
    let mut nullifier = [0u8; 32];
    nullifier[0] = place + 1;
    let rho = Rho::from_bytes(&nullifier).unwrap();
    let seed = RandomSeed::from_bytes([place + 7; 32], &rho).unwrap();
    let value = NoteValue::from_raw(zatoshis);
    let note = Note::from_parts(to, value, rho, seed, NoteVersion::V2).unwrap();
    let mut text = [0u8; 512];
    text[..memo.len()].copy_from_slice(memo.as_bytes());
    let sealed = OrchardNoteEncryption::new(None, note, text);
    let epk = OrchardDomain::epk_bytes(sealed.epk());
    let cmx = ExtractedNoteCommitment::from(note.commitment());
    let mut bytes = Vec::new();
    bytes.extend_from_slice(&[0u8; 32]);
    bytes.extend_from_slice(&nullifier);
    bytes.extend_from_slice(&epk.0);
    bytes.extend_from_slice(&cmx.to_bytes());
    bytes.extend_from_slice(&epk.0);
    bytes.extend_from_slice(sealed.encrypt_note_plaintext().as_ref());
    bytes.extend_from_slice(&[0u8; 80]);
    bytes
}

/// A transaction of version five with nothing but the given actions.
fn transaction(actions: &[Vec<u8>]) -> String {
    let mut bytes = Vec::new();
    bytes.extend_from_slice(&0x8000_0005u32.to_le_bytes());
    bytes.extend_from_slice(&0x26A7_270Au32.to_le_bytes());
    bytes.extend_from_slice(&0xC2D6_D0B4u32.to_le_bytes());
    bytes.extend_from_slice(&[0u8; 8]);
    bytes.extend_from_slice(&[0u8; 4]);
    bytes.push(actions.len() as u8);
    for a in actions {
        bytes.extend_from_slice(a);
    }
    bytes.push(3);
    bytes.extend_from_slice(&[0u8; 8]);
    bytes.extend_from_slice(&[0u8; 32]);
    bytes.push(0);
    bytes.extend_from_slice(&vec![0u8; 64 * actions.len()]);
    bytes.extend_from_slice(&[0u8; 64]);
    hex::encode(bytes)
}

fn opening(n: u32) -> Opening {
    Opening {
        id: format!("session-{}", n),
        bearer_token: format!("cps_{}", n),
        now: "2026-01-01T00:00:00Z".to_string(),
        expires_at: "2026-01-02T00:00:00Z".to_string(),
    }
}

fn txid() -> String {
    "AB".repeat(32)
}

#[test]
fn test_derive_different_indices_produce_different_addresses() {
    let test_ufvk = ufvk_text(&viewing_key(1));
    let addr0 = derive_invoice_address(&test_ufvk, 0).unwrap();
    let addr1 = derive_invoice_address(&test_ufvk, 1).unwrap();
    assert_ne!(addr0.ua_string, addr1.ua_string);
    assert_ne!(addr0.orchard_receiver_hex, addr1.orchard_receiver_hex);
}

#[test]
fn derived_address_holds_its_receiver() {
    let key = viewing_key(1);
    let derived = derive_invoice_address(&ufvk_text(&key), 5).unwrap();
    assert_eq!(derived.orchard_receiver_hex, receiver_hex(&key, 5));
    assert_eq!(orchard_receiver(&derived.ua_string), Some(derived.orchard_receiver_hex.clone()));
    assert!(derived.ua_string.starts_with("utest1"));
    assert_eq!(orchard_receiver("invalid"), None);
    assert!(matches!(derive_invoice_address("uviewtest1bad", 0), Err(KeyError::UfvkDecode)));
}

#[test]
fn full_key_is_reduced_to_the_same_incoming_key() {
    let key = viewing_key(1);
    let ufvk = ufvk_text(&key);
    assert!(ufvk.starts_with("uviewtest1"));
    let uivk = derive_uivk_from_ufvk(&ufvk).unwrap();
    assert!(uivk.starts_with("uivktest1"));
    assert_eq!(parse_orchard_fvk(&ufvk).unwrap(), key.to_bytes().to_vec());
    let ivk = key.to_ivk(Scope::External).to_bytes().to_vec();
    assert_eq!(parse_orchard_ivk(&ufvk).unwrap(), ivk);
    assert_eq!(parse_orchard_ivk(&uivk).unwrap(), ivk);
    let (network, parsed) = parse_key_with_network(&uivk).unwrap();
    assert_eq!(network, Network::Test);
    assert_eq!(parsed, ivk);
    assert!(parse_orchard_fvk(&uivk).is_err());
    assert!(derive_uivk_from_ufvk("nonsense").is_err());
}

#[test]
fn stored_keys_are_reduced_once() {
    let ufvk = ufvk_text(&viewing_key(2));
    let uivk = derive_uivk_from_ufvk(&ufvk).unwrap();
    let key = "c".repeat(64);
    let replaced = match reduce_viewing_key(&ufvk, &key).unwrap() {
        KeyReduction::Replaced(s) => s,
        _ => panic!("the key has to be replaced"),
    };
    assert_eq!(cipherpay::crypto::decrypt(&replaced, &key).unwrap(), uivk);
    assert!(matches!(reduce_viewing_key(&replaced, &key), Ok(KeyReduction::Kept)));
    assert!(matches!(reduce_viewing_key("other", ""), Ok(KeyReduction::Unrecognized)));
    assert!(matches!(
        reduce_viewing_key("uviewbroken", ""),
        Ok(KeyReduction::NotDerivable(KeyError::UfvkDecode))
    ));
    assert!(reduce_viewing_key("other", &key).is_err());
}

#[test]
fn payments_are_decrypted_with_either_key() {
    let key = viewing_key(3);
    let ufvk = ufvk_text(&key);
    let uivk = derive_uivk_from_ufvk(&ufvk).unwrap();
    let raw = transaction(&[
        action(receiver(&key, 0), 25_000, "CP-12345678", 0),
        action(receiver(&viewing_key(4), 0), 9, "elsewhere", 1),
        action(receiver(&key, 7), 1_000, "second", 2),
    ]);
    for k in [ufvk.as_str(), uivk.as_str()] {
        let outputs = try_decrypt_all_outputs_ivk(&raw, k).unwrap();
        assert_eq!(outputs.len(), 2);
        assert_eq!(outputs[0].memo, "CP-12345678");
        assert_eq!(outputs[0].amount_zatoshis, 25_000);
        assert_eq!(hex::encode(&outputs[0].recipient_raw), receiver_hex(&key, 0));
        assert_eq!(outputs[1].memo, "second");
        assert_eq!(hex::encode(&outputs[1].recipient_raw), receiver_hex(&key, 7));
        let keys = prepare_keys(k).unwrap();
        assert_eq!(try_decrypt_with_keys(&raw, &keys).unwrap().len(), 2);
        assert_eq!(try_decrypt_outputs(&raw, k).unwrap().unwrap().amount_zatoshis, 25_000);
        assert_eq!(try_decrypt_memo(&raw, k).unwrap(), Some("CP-12345678".to_string()));
    }
    assert_eq!(try_decrypt_all_outputs(&raw, &ufvk).unwrap().len(), 2);
    let other = ufvk_text(&viewing_key(5));
    assert!(try_decrypt_all_outputs_ivk(&raw, &other).unwrap().is_empty());
    assert!(try_decrypt_all_outputs_ivk("not hex", &ufvk).is_err());
}

#[test]
fn internal_payments_are_seen_with_the_full_key_only() {
    let key = viewing_key(3);
    let change = key.address_at(0u32, Scope::Internal);
    let raw = transaction(&[action(change, 77, "change", 0)]);
    assert!(try_decrypt_all_outputs_ivk(&raw, &ufvk_text(&key)).unwrap().is_empty());
    let outputs = try_decrypt_all_outputs(&raw, &ufvk_text(&key)).unwrap();
    assert_eq!(outputs.len(), 1);
    assert_eq!(outputs[0].amount_zatoshis, 77);
}

#[test]
fn test_try_decrypt_stub_returns_none() {
    let result = try_decrypt_memo("deadbeef", "uviewtest1dummy").unwrap();
    assert_eq!(result, None);
}

#[test]
fn sums_only_outputs_for_expected_receiver() {
    let matching_receiver = [7u8; 43];
    let other_receiver = [9u8; 43];
    let expected_receiver_hex = hex::encode(matching_receiver);
    let outputs = vec![
        DecryptedOutput {
            memo: String::new(),
            amount_zatoshis: 10_000,
            recipient_raw: matching_receiver.to_vec(),
        },
        DecryptedOutput {
            memo: String::new(),
            amount_zatoshis: 20_000,
            recipient_raw: other_receiver.to_vec(),
        },
        DecryptedOutput {
            memo: String::new(),
            amount_zatoshis: 30_000,
            recipient_raw: matching_receiver.to_vec(),
        },
    ];
    assert_eq!(sum_outputs_for_receiver(&outputs, &expected_receiver_hex), 40_000);
    assert_eq!(receiver_total(&outputs, "other"), 0);
}

#[test]
fn memos_are_compared_without_white_space() {
    let outputs = vec![
        DecryptedOutput {
            memo: "  zipher:session:m \n".to_string(),
            amount_zatoshis: 3,
            recipient_raw: vec![0; 43],
        },
        DecryptedOutput {
            memo: "zipher:session:m2".to_string(),
            amount_zatoshis: 4,
            recipient_raw: vec![0; 43],
        },
    ];
    assert_eq!(memo_total(&outputs, "zipher:session:m"), Some(3));
    assert_eq!(memo_total(&outputs, "zipher:session:x"), None);
}

fn verify_request(expected: Option<u64>) -> VerifyRequest {
    VerifyRequest {
        txid: txid(),
        amount_is_positive: true,
        expected_zatoshis: expected,
        protocol: "x402".to_string(),
    }
}

fn verify_facts(raw: Option<String>) -> VerifyFacts {
    let ufvk = ufvk_text(&viewing_key(3));
    let payment_address = derive_invoice_address(&ufvk, 0).unwrap().ua_string;
    VerifyFacts {
        has_key: true,
        merchant: Lookup::Found(Payee { ufvk, payment_address }),
        billing_status: None,
        verified: None,
        confirmed: true,
        raw_hex: raw,
    }
}

fn paying(zatoshis: u64) -> String {
    transaction(&[
        action(receiver(&viewing_key(3), 0), zatoshis, "", 0),
        action(receiver(&viewing_key(3), 1), 500_000, "", 1),
    ])
}

#[test]
fn payment_is_accepted_once() {
    let mut ledger = SessionLedger::new();
    let req = verify_request(Some(25_000));
    let facts = verify_facts(Some(paying(25_000)));
    assert_eq!(verify(&mut ledger, &req, &facts), Some(Verdict::Accepted(25_000)));
    assert!(ledger.txid_already_used(&txid().to_lowercase()));
    assert_eq!(ledger.consumptions[0].purpose, "legacy-x402");
    assert_eq!(
        verify(&mut ledger, &req, &facts),
        Some(Verdict::Refused(VerifyRefusal::Replayed))
    );
}

#[test]
fn verification_is_judged_in_order() {
    let req = verify_request(Some(25_001));
    let facts = verify_facts(Some(paying(25_000)));
    assert_eq!(
        judge(&req, &facts),
        Some(Verdict::Rejected(Shortfall::Insufficient, 25_000))
    );
    let refused = |f: &VerifyFacts, r: &VerifyRequest, e: VerifyRefusal| {
        assert_eq!(judge(r, f), Some(Verdict::Refused(e)));
    };
    let mut f = verify_facts(None);
    f.has_key = false;
    refused(&f, &req, VerifyRefusal::MissingKey);
    let mut f = verify_facts(None);
    f.merchant = Lookup::Missing;
    refused(&f, &req, VerifyRefusal::InvalidKey);
    f.merchant = Lookup::Failed;
    refused(&f, &req, VerifyRefusal::AuthFailed);
    let mut f = verify_facts(None);
    f.billing_status = Some("past_due".to_string());
    refused(&f, &req, VerifyRefusal::BillingBlocked(Block::PastDue));
    let f = verify_facts(None);
    let mut r = verify_request(Some(1));
    r.txid = "ab".to_string();
    refused(&f, &r, VerifyRefusal::InvalidTxid);
    let mut r = verify_request(Some(1));
    r.amount_is_positive = false;
    refused(&f, &r, VerifyRefusal::AmountNotPositive);
    let rejected = |f: &VerifyFacts, s: Shortfall| {
        assert_eq!(judge(&verify_request(Some(1)), f), Some(Verdict::Rejected(s, 0)));
    };
    rejected(&verify_facts(None), Shortfall::NotFound);
    rejected(&verify_facts(Some("zz".to_string())), Shortfall::DecryptionFailed);
    rejected(&verify_facts(Some("00".to_string())), Shortfall::NoOutputs);
    let mut f = verify_facts(None);
    f.confirmed = false;
    rejected(&f, Shortfall::NotConfirmed);
    let paid = verify_facts(Some(paying(10)));
    refused(&paid, &verify_request(None), VerifyRefusal::AmountNotRepresentable);
    let ufvk = ufvk_text(&viewing_key(3));
    assert_eq!(
        appraise(Some(&paying(10)), &ufvk, "invalid", Some(1)),
        Some(Verdict::Refused(VerifyRefusal::NoReceiver))
    );
}

#[test]
fn earlier_verification_is_not_accepted_again() {
    let mut f = verify_facts(Some(paying(25_000)));
    f.verified = Some(25_000);
    let first = judge(&verify_request(Some(25_000)), &f).unwrap();
    assert_eq!(first, Verdict::Rejected(Shortfall::AlreadyVerified, 25_000));
    assert!(first.previously_verified());
    assert_eq!(
        judge(&verify_request(Some(25_001)), &f),
        Some(Verdict::Rejected(Shortfall::PreviouslyInsufficient, 25_000))
    );
    f.verified = Some(-5);
    assert_eq!(
        judge(&verify_request(Some(1)), &f),
        Some(Verdict::Rejected(Shortfall::PreviouslyInsufficient, 0))
    );
}

#[test]
fn consumption_decides_an_accepted_payment() {
    let v = Verdict::Accepted(7);
    assert_eq!(conclude(v, Lookup::Found(true)), v);
    assert_eq!(conclude(v, Lookup::Found(false)), Verdict::Refused(VerifyRefusal::Replayed));
    assert_eq!(conclude(v, Lookup::Failed), Verdict::Refused(VerifyRefusal::StoreFailed));
}

#[test]
fn v2_payment_goes_to_the_merchants_own_address() {
    let ufvk = ufvk_text(&viewing_key(3));
    let address = derive_invoice_address(&ufvk, 0).unwrap().ua_string;
    let facts = |raw: Option<String>| PaymentFacts {
        merchant: Lookup::Found(Payee { ufvk: ufvk.clone(), payment_address: address.clone() }),
        is_testnet: true,
        billing_status: None,
        confirmed: true,
        raw_hex: raw,
    };
    let net = "zcash:testnet";
    let paid = facts(Some(paying(1_000)));
    assert_eq!(verify_core_v2(&paid, 1_000, net, &address), Some(Ok(Finding::Paid(1_000))));
    assert_eq!(
        verify_core_v2(&paid, 1_001, net, &address),
        Some(Ok(Finding::Insufficient(1_000)))
    );
    assert_eq!(
        verify_core_v2(&paid, 1, "zcash:mainnet", &address),
        Some(Err(V2Problem::WrongMerchant))
    );
    let other = derive_invoice_address(&ufvk, 1).unwrap().ua_string;
    assert_eq!(verify_core_v2(&paid, 1, net, &other), Some(Err(V2Problem::WrongMerchant)));
    assert_eq!(
        verify_core_v2(&facts(None), 1, net, &address),
        Some(Ok(Finding::NotFound))
    );
    assert_eq!(
        verify_core_v2(&facts(Some("xx".to_string())), 1, net, &address),
        Some(Ok(Finding::DecryptionFailed))
    );
    assert_eq!(
        verify_core_v2(&facts(Some("00".to_string())), 1, net, &address),
        Some(Ok(Finding::NoOutputs))
    );
    let mut f = facts(None);
    f.confirmed = false;
    assert_eq!(verify_core_v2(&f, 1, net, &address), Some(Ok(Finding::NotConfirmed)));
    f.billing_status = Some("suspended".to_string());
    assert_eq!(verify_core_v2(&f, 1, net, &address), Some(Err(V2Problem::BillingBlocked)));
    f.merchant = Lookup::Found(Payee { ufvk: ufvk.clone(), payment_address: "x".to_string() });
    assert_eq!(verify_core_v2(&f, 1, net, "x"), Some(Err(V2Problem::NoReceiver)));
    f.merchant = Lookup::Missing;
    assert_eq!(verify_core_v2(&f, 1, net, "x"), Some(Err(V2Problem::InvalidKey)));
    f.merchant = Lookup::Failed;
    assert_eq!(verify_core_v2(&f, 1, net, "x"), Some(Err(V2Problem::AuthFailed)));
}

fn open_facts(raw: Option<String>) -> OpenFacts {
    OpenFacts {
        refund_valid: true,
        merchant: Lookup::Found(Depositary {
            id: "m".to_string(),
            ufvk: ufvk_text(&viewing_key(6)),
        }),
        billing_status: None,
        raw_hex: raw,
    }
}

fn deposit(index: u32, zatoshis: u64, memo: &str) -> String {
    transaction(&[action(receiver(&viewing_key(6), index), zatoshis, memo, 0)])
}

#[test]
fn deposit_on_a_request_opens_a_session() {
    let ufvk = ufvk_text(&viewing_key(6));
    let mut ledger = SessionLedger::new();
    let mut next: i64 = 4;
    let q = ledger.create_session_request("sr_1", &mut next, "m", &ufvk, 1_767_225_600).unwrap();
    assert_eq!(next, 5);
    assert_eq!(q.diversifier_index, 4);
    assert_eq!(orchard_receiver(&q.deposit_address), Some(receiver_hex(&viewing_key(6), 4)));
    assert_eq!(ledger.requests[0].expires_at, "2026-01-01T00:30:00Z");
    assert!(matches!(
        ledger.create_session_request("sr_1", &mut next, "m", &ufvk, 1_767_225_600),
        Err(RequestError::IdentifierTaken)
    ));
    assert!(matches!(
        ledger.create_session_request("sr_2", &mut next, "m", "bad", 1_767_225_600),
        Err(RequestError::Key(KeyError::UfvkDecode))
    ));
    let req = OpenRequest {
        txid: txid(),
        merchant_id: None,
        refund_address: None,
        session_request_id: Some("sr_1".to_string()),
    };
    let wrong = open(&mut ledger, &opening(1), &req, &open_facts(Some(deposit(3, 10_000, ""))));
    assert!(matches!(wrong, Some(Err(OpenRefusal::NoDeposit))));
    let small = open(&mut ledger, &opening(1), &req, &open_facts(Some(deposit(4, 9_999, ""))));
    assert!(matches!(small, Some(Err(OpenRefusal::TooSmall))));
    assert!(!ledger.txid_already_used(&txid()));
    let s = match open(&mut ledger, &opening(1), &req, &open_facts(Some(deposit(4, 10_000, "")))) {
        Some(Ok(s)) => s,
        _ => panic!("the deposit has to open a session"),
    };
    assert_eq!(s.balance_remaining, 10_000);
    assert_eq!(s.merchant_id, "m");
    assert_eq!(ledger.requests[0].status, "used");
    let again = open(&mut ledger, &opening(2), &req, &open_facts(Some(deposit(4, 10_000, ""))));
    assert!(matches!(again, Some(Err(OpenRefusal::AlreadyUsed))));
    let mut other = req;
    other.txid = "cd".repeat(32);
    let used = open(&mut ledger, &opening(2), &other, &open_facts(Some(deposit(4, 10_000, ""))));
    assert!(matches!(used, Some(Err(OpenRefusal::RequestUnavailable))));
}

#[test]
fn deposit_with_a_memo_opens_a_session() {
    let mut ledger = SessionLedger::new();
    let mut req = OpenRequest {
        txid: txid(),
        merchant_id: Some("m".to_string()),
        refund_address: None,
        session_request_id: None,
    };
    let good = open_facts(Some(deposit(0, 20_000, "zipher:session:m")));
    let bad = open_facts(Some(deposit(0, 20_000, "zipher:session:n")));
    assert!(matches!(
        open(&mut ledger, &opening(1), &req, &bad),
        Some(Err(OpenRefusal::NoMemo))
    ));
    req.txid = "nope".to_string();
    assert!(matches!(
        open(&mut ledger, &opening(1), &req, &good),
        Some(Err(OpenRefusal::InvalidTxid))
    ));
    req.txid = txid();
    req.refund_address = Some("u1bad".to_string());
    let mut invalid = open_facts(None);
    invalid.refund_valid = false;
    assert!(matches!(
        open(&mut ledger, &opening(1), &req, &invalid),
        Some(Err(OpenRefusal::InvalidRefundAddress))
    ));
    let s = match open(&mut ledger, &opening(1), &req, &good) {
        Some(Ok(s)) => s,
        _ => panic!("the deposit has to open a session"),
    };
    assert_eq!(s.refund_address, Some("u1bad".to_string()));
    assert_eq!(ledger.consumptions[0].purpose, "session");
    req.txid = "cd".repeat(32);
    assert!(matches!(
        open(&mut ledger, &opening(1), &req, &good),
        Some(Err(OpenRefusal::CreationFailed))
    ));
    req.merchant_id = None;
    assert!(matches!(
        open(&mut ledger, &opening(2), &req, &good),
        Some(Err(OpenRefusal::RequestRequired))
    ));
}

#[test]
fn deposit_is_appraised_in_order() {
    let refused = |f: &OpenFacts, mark: DepositMark, e: OpenRefusal| {
        assert!(matches!(appraise_deposit(f, &mark), Some(Err(x)) if x == e));
    };
    let mut f = open_facts(None);
    refused(&f, DepositMark::Address(0), OpenRefusal::TransactionNotFound);
    f.billing_status = Some("suspended".to_string());
    refused(&f, DepositMark::Address(0), OpenRefusal::BillingBlocked(Block::Suspended));
    f.merchant = Lookup::Missing;
    refused(&f, DepositMark::Address(0), OpenRefusal::MerchantNotFound);
    let f = open_facts(Some("zz".to_string()));
    refused(&f, DepositMark::Address(0), OpenRefusal::DecryptionFailed);
    let f = open_facts(Some("00".to_string()));
    refused(&f, DepositMark::Address(0), OpenRefusal::NoOutputs);
    let mut f = open_facts(Some(deposit(0, 1, "")));
    f.merchant = Lookup::Found(Depositary { id: "m".to_string(), ufvk: "bad".to_string() });
    refused(&f, DepositMark::Address(0), OpenRefusal::NoReceiver);
}

#[test]
fn consumed_payment_opens_no_session_anywhere() {
    let mut ledger = SessionLedger::new();
    let req = verify_request(Some(1));
    let facts = verify_facts(Some(paying(25_000)));
    assert_eq!(verify(&mut ledger, &req, &facts), Some(Verdict::Accepted(25_000)));
    assert!(matches!(
        ledger.create_session(&opening(1), "m", &txid(), 25_000, None),
        Err(SessionError::AlreadyConsumed)
    ));
}

#[test]
fn fee_is_detected_by_its_memo() {
    let fee = ufvk_text(&viewing_key(8));
    let memo = "FEE-inv-1";
    let raw = transaction(&[action(receiver(&viewing_key(8), 0), 100, memo, 0)]);
    assert!(detect_fee(&raw, Some(&fee), "inv-1"));
    assert!(!detect_fee(&raw, Some(&fee), "inv-2"));
    assert!(!detect_fee(&raw, None, "inv-1"));
}

fn draft(id: &str, index: u32) -> Invoice {
    let draw = InvoiceDraw { id: id.to_string(), memo_code: format!("CP-{}", id) };
    let ufvk = ufvk_text(&viewing_key(9));
    match create_draft_invoice(
        &draw, "m", &ufvk, "sub", Some("Plan"), "EUR", None, "2026-02-01T00:00:00Z", index, 0,
    ) {
        Ok(i) => i,
        Err(_) => panic!("the draft has to be made"),
    }
}

#[test]
fn payments_are_added_up_for_each_invoice() {
    let invoices = vec![draft("one", 1), draft("two", 2)];
    assert_eq!(invoices[0].status, "draft");
    assert_eq!(invoices[0].subscription_id, Some("sub".to_string()));
    let index = InvoiceIndex::build(&invoices);
    let key = viewing_key(9);
    let raw = transaction(&[
        action(receiver(&key, 1), 300, "", 0),
        action(receiver(&key, 2), 5, "", 1),
        action(receiver(&key, 1), 400, "", 2),
        action(receiver(&key, 3), 1_000, "", 3),
    ]);
    let keys = vec![("m".to_string(), prepare_keys(&ufvk_text(&key)).unwrap())];
    let totals = collect_mempool_invoice_totals(&raw, &keys, &index).unwrap_or_else(|| panic!());
    let mut found: Vec<(&str, i64)> =
        totals.iter().map(|t| (t.invoice.id.as_str(), t.tx_total)).collect();
    found.sort();
    assert_eq!(found, vec![("one", 700), ("two", 5)]);
    let other = vec![("n".to_string(), prepare_keys(&ufvk_text(&key)).unwrap())];
    let none = collect_mempool_invoice_totals(&raw, &other, &index).unwrap_or_else(|| panic!());
    assert!(none.is_empty());
}
