//! Prepaid sessions, settlement, and the record of consumed payments.

use cipherpay::api::sessions::{
    check_deduction, check_validation, enforce_session_billing, require_session_owner,
    resolve_prepare_merchant, DeductRequest, SessionAccess,
};
use cipherpay::api::settlement::{
    request_digest, settle_v2, CacheError, CommitError, SettleReply, SettleResponseV2,
    SettlementBook,
};
use cipherpay::api::x402_v2::{
    parse_settle_request, parse_v2_request, verify_v2, PaymentFacts, PaymentPayloadV2,
    PaymentRequirementsV2, SettleRequestV2, SettleSessionConfig, V2Problem, VerifyRequestV2,
    ZcashPayload,
};
use cipherpay::api::Lookup;
use cipherpay::billing::Block;
use cipherpay::json::Json;
use cipherpay::session_ledger::{RequestRecord, SessionLedger};
use cipherpay::sessions::{
    check_charge, generate_request_id, generate_token, session_from_row, Opening, SessionError,
};

const NOW: &str = "2026-01-01T00:00:00Z";

fn opening(n: u32) -> Opening {
    Opening {
        id: format!("session-{}", n),
        bearer_token: format!("cps_{}", n),
        now: NOW.to_string(),
        expires_at: "2026-01-02T00:00:00Z".to_string(),
    }
}

fn render(r: &SettleResponseV2) -> String {
    format!("{} {} cps_", r.transaction, r.network)
}

#[test]
fn session_spending_is_tenant_price_and_request_bound() {
    let mut ledger = SessionLedger::new();
    let s = ledger.create_session(&opening(1), "a", "deposit", 10_000, None).unwrap_or_else(|_| panic!());
    let t = s.bearer_token.as_str();
    let none = |r: Result<Option<cipherpay::sessions::Session>, SessionError>| {
        assert!(matches!(r, Ok(None)));
    };
    none(ledger.charge("b", t, 5000, "/expensive", "r1", NOW));
    none(ledger.charge("a", t, 20_000, "/expensive", "r1", NOW));
    let paid = match ledger.charge("a", t, 6000, "/expensive", "r1", NOW) {
        Ok(Some(s)) => s,
        _ => panic!(),
    };
    assert_eq!(paid.balance_remaining, 4000);
    none(ledger.charge("a", t, 1000, "/cheap", "r1", NOW));
    assert_eq!(ledger.get_session(&s.id).unwrap().balance_remaining, 4000);
    let a = ledger.charge("a", t, 3000, "/x", "r2", NOW);
    let b = ledger.charge("a", t, 3000, "/x", "r3", NOW);
    let paid = |r: Result<Option<cipherpay::sessions::Session>, SessionError>| {
        r.unwrap_or_else(|_| panic!()).is_some() as u8
    };
    assert_eq!(paid(a) + paid(b), 1);
}

#[test]
fn consumed_deposit_survives_the_session() {
    let mut ledger = SessionLedger::new();
    assert!(ledger.create_session(&opening(1), "a", "ABCDEF", 10_000, None).is_ok());
    ledger.purge("2027-01-01T00:00:00Z", NOW);
    assert!(ledger.sessions.is_empty());
    assert!(matches!(
        ledger.create_session(&opening(2), "a", "abcdef", 10_000, None),
        Err(SessionError::AlreadyConsumed)
    ));
    assert!(ledger.txid_already_used("ABCDEF"));
}

#[test]
fn prepared_session_consumption_rolls_back_and_cannot_be_reused() {
    let mut ledger = SessionLedger::new();
    ledger.requests.push(RequestRecord {
        id: "request".to_string(),
        merchant_id: "a".to_string(),
        deposit_address: "address".to_string(),
        diversifier_index: 1,
        status: "pending".to_string(),
        expires_at: "2099-01-01T00:00:00Z".to_string(),
    });
    assert!(ledger.create_prepared_session(&opening(1), "a", "request", "tx", 1, None).is_err());
    assert_eq!(ledger.requests[0].status, "pending");
    assert!(!ledger.txid_already_used("tx"));
    assert!(ledger.create_prepared_session(&opening(1), "a", "request", "tx", 10000, None).is_ok());
    assert!(ledger
        .create_prepared_session(&opening(2), "a", "request", "other", 10000, None)
        .is_err());
    assert!(!ledger.txid_already_used("other"));
}

#[test]
fn sessions_end_with_what_is_left() {
    let mut ledger = SessionLedger::new();
    let s = ledger
        .create_session_with_cost(&opening(1), "a", "tx", 10_000, Some("u1refund"), Some(500))
        .unwrap_or_else(|_| panic!());
    assert_eq!(s.cost_per_request, 500);
    assert!(matches!(ledger.charge("a", "cps_1", 2_500, "/r", "q", NOW), Ok(Some(_))));
    assert_eq!(ledger.get_session_by_token("cps_1").unwrap().balance_remaining, 7_500);
    assert!(ledger.get_session_by_token("cps_2").is_none());
    let summary = ledger.close_session("session-1", NOW).unwrap();
    assert_eq!((summary.balance_used, summary.balance_remaining), (2_500, 7_500));
    assert_eq!(summary.status, "closed");
    let closed = ledger.get_session("session-1").unwrap();
    assert_eq!(closed.refund_on_close(), Some(("u1refund".to_string(), 7_500)));
    assert!(matches!(ledger.charge("a", "cps_1", 1, "/r", "q2", NOW), Ok(None)));
    assert!(ledger.get_summary("nothing").is_none());
}

#[test]
fn openings_and_charges_are_checked() {
    let mut ledger = SessionLedger::new();
    let open = |l: &mut SessionLedger, n: u32, tx: &str, balance: i64, cost: Option<i64>| {
        l.create_session_with_cost(&opening(n), "a", tx, balance, None, cost).err()
    };
    assert_eq!(open(&mut ledger, 1, "t", 999, None), Some(SessionError::InvalidBalanceOrPrice));
    assert_eq!(open(&mut ledger, 1, "t", 999, Some(0)), Some(SessionError::InvalidBalanceOrPrice));
    assert_eq!(open(&mut ledger, 1, "t", 1000, None), None);
    assert_eq!(open(&mut ledger, 2, "T", 1000, None), Some(SessionError::AlreadyConsumed));
    assert_eq!(open(&mut ledger, 1, "u", 1000, None), Some(SessionError::IdentifierTaken));
    assert!(!ledger.txid_already_used("u"));
    assert!(matches!(
        ledger.charge("a", "cps_1", 0, "/r", "q", NOW),
        Err(SessionError::InvalidCharge)
    ));
    assert!(check_charge(1, &"r".repeat(2048), &"q".repeat(128)));
    assert!(!check_charge(1, &"r".repeat(2049), "q"));
    assert!(!check_charge(1, "r", &"q".repeat(129)));
    assert!(!check_charge(1, "", "q"));
    assert_eq!(SessionError::InvalidCharge.message(), "Invalid charge");
    assert!(generate_token().starts_with("cps_"));
    assert_eq!(generate_token().len(), 68);
    assert_eq!(generate_request_id().len(), 35);
}

#[test]
fn rows_become_sessions() {
    let row = (
        "id".to_string(),
        "m".to_string(),
        "tx".to_string(),
        "cps_1".to_string(),
        10,
        4,
        2,
        3,
        None,
        "active".to_string(),
        "e".to_string(),
        "c".to_string(),
        None,
    );
    let s = session_from_row(row);
    assert_eq!((s.balance_zatoshis, s.balance_remaining), (10, 4));
    assert_eq!((s.cost_per_request, s.requests_made), (2, 3));
    assert_eq!(s.refund_in_history(), None);
}

#[test]
fn settlement_consumption_and_cache_are_tenant_bound() {
    let mut book = SettlementBook::new();
    let encryption_key = "11".repeat(32);
    let config = SettleSessionConfig { cost_per_request: Some(1000), refund_address: None };
    let cutoff = "2025-12-31T00:00:00Z";
    let first = book
        .commit_settlement(
            &opening(1),
            "a",
            "tx",
            1000,
            5000,
            "zcash:mainnet",
            Some(&config),
            Some("key"),
            "digest",
            &encryption_key,
            cutoff,
            render,
        )
        .unwrap_or_else(|_| panic!())
        .unwrap_or_else(|| panic!());
    assert_eq!(first.session.unwrap_or_else(|| panic!()).balance_remaining, 4000);
    assert_eq!(first.amount, Some("5000".to_string()));
    let second = book.commit_settlement(
        &opening(2),
        "a",
        "tx",
        1000,
        5000,
        "zcash:mainnet",
        None,
        None,
        "digest",
        &encryption_key,
        cutoff,
        render,
    );
    assert!(matches!(second, Ok(None)));
    assert!(matches!(
        book.cached_settlement("b", "key", "digest", &encryption_key, cutoff),
        Ok(None)
    ));
    assert!(book.cached_settlement("a", "key", "different-body", &encryption_key, cutoff).is_err());
    assert_eq!(
        book.cached_settlement("a", "key", "digest", &encryption_key, cutoff),
        Ok(Some("tx zcash:mainnet cps_".to_string()))
    );
    assert!(!book.replies[0].response.contains("cps_"));
    assert!(book.ledger.create_session(&opening(3), "a", "tx", 5000, None).is_err());
    assert_eq!(
        book.cached_settlement("a", "key", "digest", &encryption_key, "2026-01-02T00:00:00Z"),
        Ok(None)
    );
    assert!(matches!(
        book.cached_settlement("a", "key", "digest", &"22".repeat(32), cutoff),
        Err(CacheError::Crypto(_))
    ));
}

#[test]
fn failed_settlement_rolls_back_consumption() {
    let mut book = SettlementBook::new();
    let r = book.commit_settlement(
        &opening(1),
        "a",
        "tx",
        1000,
        1000,
        "zcash:mainnet",
        None,
        Some("key"),
        "digest",
        "",
        NOW,
        render,
    );
    assert!(r.is_err());
    assert!(!book.ledger.txid_already_used("tx"));
}

#[test]
fn settlement_is_all_or_nothing() {
    let mut book = SettlementBook::new();
    let key = "11".repeat(32);
    let commit = |b: &mut SettlementBook, n: u32, tx: &str, total: u64, cost: Option<i64>, k: &str| {
        let cfg = SettleSessionConfig { cost_per_request: cost, refund_address: None };
        b.commit_settlement(
            &opening(n),
            "a",
            tx,
            1000,
            total,
            "zcash:mainnet",
            Some(&cfg),
            Some(k),
            "d",
            &key,
            NOW,
            render,
        )
    };
    assert!(matches!(commit(&mut book, 1, "t1", 5000, Some(0), "k"), Err(CommitError::InvalidCost)));
    let small = commit(&mut book, 1, "t1", 1999, None, "k").unwrap_or_else(|_| panic!());
    assert!(small.unwrap_or_else(|| panic!()).session.is_none());
    assert!(matches!(commit(&mut book, 2, "t2", 5000, None, "k"), Err(CommitError::KeyTaken)));
    assert!(!book.ledger.txid_already_used("t2"));
    assert!(book.ledger.sessions.is_empty());
    assert!(matches!(commit(&mut book, 2, "t2", 2000, None, "k2"), Ok(Some(_))));
    assert_eq!(book.ledger.sessions[0].balance_zatoshis, 1000);
    assert!(matches!(
        commit(&mut book, 2, "t3", 5000, None, "k3"),
        Err(CommitError::Session(SessionError::IdentifierTaken))
    ));
}

fn requirements() -> PaymentRequirementsV2 {
    PaymentRequirementsV2 {
        scheme: Some("exact".to_string()),
        network: Some("zcash:mainnet".to_string()),
        amount: Some("1000".to_string()),
        pay_to: Some("address".to_string()),
        max_timeout_seconds: Some(300),
        asset: Some("ZEC".to_string()),
        extra: None,
    }
}

fn payload() -> PaymentPayloadV2 {
    PaymentPayloadV2 {
        x402_version: Some(2),
        resource: None,
        accepted: None,
        payload: Some(ZcashPayload { txid: Some("A".repeat(64)) }),
        extensions: None,
    }
}

fn verify_body() -> VerifyRequestV2 {
    VerifyRequestV2 {
        x402_version: Some(2),
        payment_payload: payload(),
        payment_requirements: requirements(),
    }
}

fn settle_body() -> SettleRequestV2 {
    SettleRequestV2 {
        x402_version: Some(2),
        payment_payload: payload(),
        payment_requirements: requirements(),
        session: None,
        idempotency_key: None,
    }
}

fn no_facts() -> PaymentFacts {
    PaymentFacts {
        merchant: Lookup::Missing,
        is_testnet: false,
        billing_status: None,
        confirmed: false,
        raw_hex: None,
    }
}

#[test]
fn unauthenticated_settle_cannot_read_cached_credentials() {
    let mut book = SettlementBook::new();
    let key = "11".repeat(32);
    let r = book.commit_settlement(
        &opening(1), "a", "tx", 1, 1, "zcash:mainnet", None, Some("known-key"), "hash", &key, NOW,
        render,
    );
    assert!(matches!(r, Ok(Some(_))));
    let reply = settle_v2(
        &mut book,
        &opening(2),
        true,
        &Lookup::Missing,
        Some("known-key"),
        &settle_body(),
        "hash",
        &no_facts(),
        &key,
        NOW,
        render,
    );
    let problem = match reply {
        Some(SettleReply::Problem(p)) => p,
        _ => panic!(),
    };
    assert_eq!(problem, V2Problem::InvalidKey);
    assert_eq!(problem.details().status, 401);
    assert_eq!(problem.details().kind, "https://cipherpay.app/errors/unauthorized");
}

#[test]
fn settlement_requests_are_answered_in_order() {
    let mut book = SettlementBook::new();
    let key = "11".repeat(32);
    let me = Lookup::Found("a".to_string());
    let settle = |b: &mut SettlementBook, has_key: bool, header: Option<&str>, body: &SettleRequestV2| {
        settle_v2(
            b, &opening(9), has_key, &me, header, body, "hash", &no_facts(), &key, NOW, render,
        )
    };
    let problem = |r: Option<SettleReply>, p: V2Problem| {
        assert!(matches!(r, Some(SettleReply::Problem(x)) if x == p));
    };
    problem(settle(&mut book, false, None, &settle_body()), V2Problem::MissingKey);
    problem(settle(&mut book, true, Some(""), &settle_body()), V2Problem::InvalidIdempotencyKey);
    let long = "k".repeat(129);
    problem(settle(&mut book, true, Some(&long), &settle_body()), V2Problem::InvalidIdempotencyKey);
    let mut body = settle_body();
    body.payment_requirements.scheme = None;
    problem(settle(&mut book, true, None, &body), V2Problem::InvalidRequirements);
    problem(settle(&mut book, true, None, &settle_body()), V2Problem::InvalidKey);
    let kept = book.commit_settlement(
        &opening(1), "a", "tx", 1, 1, "n", None, Some("kept"), "hash", &key, NOW, render,
    );
    assert!(matches!(kept, Ok(Some(_))));
    let mut body = settle_body();
    body.idempotency_key = Some("kept".to_string());
    let again = settle(&mut book, true, None, &body);
    assert!(matches!(again, Some(SettleReply::Repeated(s)) if s == "tx n cps_"));
    let other = settle_v2(
        &mut book, &opening(9), true, &me, Some("kept"), &body, "other", &no_facts(), &key, NOW,
        render,
    );
    problem(other, V2Problem::IdempotencyConflict);
    let unpaid_facts = PaymentFacts {
        merchant: Lookup::Found(cipherpay::api::x402::Payee {
            ufvk: "k".to_string(),
            payment_address: "address".to_string(),
        }),
        is_testnet: false,
        billing_status: None,
        confirmed: false,
        raw_hex: None,
    };
    let reply = settle_v2(
        &mut book, &opening(9), true, &me, None, &settle_body(), "h", &unpaid_facts, &key, NOW,
        render,
    );
    problem(reply, V2Problem::NoReceiver);
}

#[test]
fn v2_fields_are_read_and_checked() {
    let (txid, amount, network) = parse_v2_request(&verify_body()).unwrap();
    assert_eq!(txid, "a".repeat(64));
    assert_eq!(amount, 1000);
    assert_eq!(network, "zcash:mainnet");
    assert!(parse_settle_request(&settle_body()).is_ok());
    let fails = |change: &dyn Fn(&mut VerifyRequestV2), p: V2Problem| {
        let mut body = verify_body();
        change(&mut body);
        assert_eq!(parse_v2_request(&body), Err(p));
    };
    fails(&|b| b.payment_payload.x402_version = Some(1), V2Problem::InvalidRequirements);
    fails(&|b| b.payment_requirements.asset = None, V2Problem::InvalidRequirements);
    fails(
        &|b| b.payment_requirements.pay_to = Some(String::new()),
        V2Problem::InvalidRequirements,
    );
    fails(&|b| b.payment_requirements.max_timeout_seconds = Some(0), V2Problem::InvalidRequirements);
    fails(&|b| b.payment_payload.payload = None, V2Problem::InvalidTxid);
    fails(
        &|b| b.payment_requirements.amount = Some("1.5".to_string()),
        V2Problem::AmountNotInteger,
    );
    fails(&|b| b.payment_requirements.amount = None, V2Problem::AmountZero);
    fails(
        &|b| b.payment_requirements.amount = Some("2100000000000001".to_string()),
        V2Problem::AmountZero,
    );
    fails(
        &|b| b.payment_payload.accepted = Some(Json::Object(vec![])),
        V2Problem::AcceptedDiffers,
    );
    let mut body = verify_body();
    let members = [
        ("scheme", "exact"),
        ("network", "zcash:mainnet"),
        ("amount", "1000"),
        ("payTo", "address"),
        ("asset", "ZEC"),
    ];
    body.payment_payload.accepted = Some(Json::Object(
        members.iter().map(|(k, v)| (k.to_string(), Json::Text(v.to_string()))).collect(),
    ));
    assert!(parse_v2_request(&body).is_ok());
    assert_eq!(verify_v2(false, &body, &no_facts()), Some(Err(V2Problem::MissingKey)));
    assert_eq!(verify_v2(true, &body, &no_facts()), Some(Err(V2Problem::InvalidKey)));
}

#[test]
fn requests_are_known_by_their_digest() {
    assert_eq!(
        request_digest(b"abc"),
        "ba7816bf8f01cfea414140de5dae2223b00361a396177a9cb410ff61f20015ad"
    );
}

#[test]
fn sessions_are_used_by_their_owners() {
    let m = Lookup::Found("m".to_string());
    assert!(require_session_owner(&m, Some("m"), None).is_ok());
    assert!(require_session_owner(&m, Some("n"), Some("m")).is_ok());
    assert_eq!(require_session_owner(&m, Some("n"), None), Err(SessionAccess::NotOwner));
    assert_eq!(
        require_session_owner(&Lookup::Missing, None, None),
        Err(SessionAccess::SessionNotFound)
    );
    assert_eq!(
        require_session_owner(&Lookup::Failed, None, None),
        Err(SessionAccess::LookupFailed)
    );
    assert!(resolve_prepare_merchant("m", Some("m"), &None).is_ok());
    assert_eq!(
        resolve_prepare_merchant("m", Some("n"), &Some(Lookup::Found("m".to_string()))),
        Err(SessionAccess::OtherMerchant)
    );
    assert_eq!(
        resolve_prepare_merchant("m", None, &None),
        Err(SessionAccess::AuthenticationRequired)
    );
    assert!(resolve_prepare_merchant("m", None, &Some(Lookup::Found("m".to_string()))).is_ok());
    assert_eq!(
        resolve_prepare_merchant("m", None, &Some(Lookup::Failed)),
        Err(SessionAccess::LookupFailed)
    );
    assert!(enforce_session_billing(false, &Lookup::Failed, None).is_ok());
    assert_eq!(
        enforce_session_billing(true, &Lookup::Found(()), Some("past_due")),
        Err(SessionAccess::BillingBlocked(Block::PastDue))
    );
    assert!(enforce_session_billing(true, &Lookup::Missing, Some("past_due")).is_ok());
    assert_eq!(
        enforce_session_billing(true, &Lookup::Failed, None),
        Err(SessionAccess::LookupFailed)
    );
}

#[test]
fn session_tokens_come_in_the_bearer_form() {
    let body = DeductRequest { amount_zatoshis: 5 };
    assert_eq!(check_deduction(Some("Bearer  cps_x "), &body), Ok("cps_x".to_string()));
    assert_eq!(check_deduction(Some("cps_x"), &body), Err(SessionAccess::TokenRequired));
    assert_eq!(
        check_deduction(Some("Bearer cps_x"), &DeductRequest { amount_zatoshis: 0 }),
        Err(SessionAccess::AmountNotPositive)
    );
    assert_eq!(check_validation(Some("Bearer other")), Err(SessionAccess::ValidTokenRequired));
    assert_eq!(check_validation(Some("Bearer cps_y")), Ok("cps_y".to_string()));
}
