//! Blocks, the mempool, and what payments do to invoices.

use cipherpay::invoices::matching::InvoiceIndex;
use cipherpay::invoices::Invoice;
use cipherpay::json::{Json, JsonNumber};
use cipherpay::invoices::payments::PaymentLedger;
use cipherpay::scanner::blocks::{
    chain_height, extract_block_txids, merge_block_txids, next_scan_range, retry_delay_ms,
    tx_confirmed, CircuitBreaker, COOLDOWN_SECS, FAILURE_THRESHOLD,
};
use cipherpay::scanner::decrypt::memo_bytes_to_text;
use cipherpay::scanner::detection::{
    apply_payment, on_invoice_confirmed, ConfirmationStep, EventLink, PaymentEffect, Thresholds,
};
use cipherpay::scanner::mempool::{mempool_poll_secs, raw_tx_hex, SeenTxids};
use cipherpay::scanner::metrics::ScannerMetrics;
use cipherpay::scanner::ws::{api_url_to_ws, next_reconnect_delay, parse_mempool_tx};

use zcash_address::unified::{Address, Encoding, Receiver, Revision, Uitem};
use zcash_protocol::consensus::NetworkType;

fn text(s: &str) -> Json {
    Json::Text(s.to_string())
}

fn number(n: u64) -> Json {
    Json::Number(JsonNumber { unsigned: Some(n), signed: Some(n as i64) })
}

fn object(members: Vec<(&str, Json)>) -> Json {
    Json::Object(members.into_iter().map(|(k, v)| (k.to_string(), v)).collect())
}

fn invoice(merchant: &str, receiver: Option<&str>) -> Invoice {
    Invoice {
        id: "invoice".to_string(),
        merchant_id: merchant.to_string(),
        memo_code: "CP-12345678".to_string(),
        product_id: None,
        product_name: None,
        size: None,
        currency: None,
        price_id: None,
        payment_address: "invalid".to_string(),
        zcash_uri: String::new(),
        merchant_name: None,
        refund_address: None,
        status: "pending".to_string(),
        detected_txid: None,
        detected_at: None,
        confirmed_at: None,
        refunded_at: None,
        refund_txid: None,
        expires_at: String::new(),
        purge_after: None,
        created_at: String::new(),
        orchard_receiver_hex: receiver.map(str::to_string),
        diversifier_index: None,
        price_zatoshis: 1_000_000,
        received_zatoshis: 0,
        subscription_id: None,
        payment_link_id: None,
        is_donation: 0,
        campaign_counted: 0,
    }
}

#[test]
fn test_memo_bytes_to_text() {
    let mut memo = vec![0u8; 512];
    let text = b"CP-A7F3B2C1";
    memo[..text.len()].copy_from_slice(text);
    assert_eq!(memo_bytes_to_text(&memo), Some("CP-A7F3B2C1".to_string()));

    let memo = vec![0xF6; 512];
    assert_eq!(memo_bytes_to_text(&memo), None);

    let mut memo = vec![0u8; 512];
    memo[0] = 0xFF;
    assert_eq!(memo_bytes_to_text(&memo), None);
}

#[test]
fn extracts_txids_from_transactions_shape() {
    let resp = object(vec![(
        "transactions",
        Json::Array(vec![
            object(vec![("txid", text("abc"))]),
            object(vec![("txid", text("def"))]),
        ]),
    )]);
    let txids = extract_block_txids(&resp, 100).unwrap();
    assert_eq!(txids, vec!["abc".to_string(), "def".to_string()]);
}

#[test]
fn errors_when_transaction_list_missing() {
    let resp = object(vec![("height", number(100))]);
    let err = extract_block_txids(&resp, 100).unwrap_err();
    assert!(err.message().contains("missing transaction list"));
}

#[test]
fn errors_when_transaction_list_empty() {
    let resp = object(vec![("transactions", Json::Array(vec![]))]);
    let err = extract_block_txids(&resp, 100).unwrap_err();
    assert!(err.message().contains("empty transaction list"));
}

#[test]
fn allows_empty_genesis_block() {
    let resp = object(vec![("transactions", Json::Array(vec![]))]);
    let txids = extract_block_txids(&resp, 0).unwrap();
    assert!(txids.is_empty());
}

#[test]
fn diversified_invoice_requires_merchant_and_receiver() {
    let invoices = vec![invoice("merchant-a", Some("receiver-a"))];
    let index = InvoiceIndex::build(&invoices);
    assert!(index.find("merchant-b", "receiver-b", "CP-12345678").is_none());
    assert!(index.find("merchant-a", "receiver-b", "CP-12345678").is_none());
    assert!(index.find("merchant-b", "receiver-a", "CP-12345678").is_none());
    assert!(index.find("merchant-a", "receiver-a", "unrelated").is_some());
}

#[test]
fn legacy_requires_exact_memo_and_valid_receiver() {
    let raw = [7u8; 43];
    let item = Uitem::Data(Receiver::Orchard(raw));
    let ua = Address::try_from_items(Revision::R0, vec![item]).unwrap();
    let mut inv = invoice("a", None);
    inv.payment_address = ua.encode(&NetworkType::Main);
    let invoices = vec![inv];
    let index = InvoiceIndex::build(&invoices);
    let receiver = hex::encode(raw);
    assert!(index.find("a", &receiver, "CP-12345678").is_some());
    assert!(index.find("b", &receiver, "CP-12345678").is_none());
    assert!(index.find("a", "wrong", "CP-12345678").is_none());
    assert!(index.find("a", &receiver, "prefix CP-12345678").is_none());
}

#[test]
fn blocks_are_merged_unless_one_failed() {
    let good = vec![Ok(vec!["a".to_string()]), Ok(vec![]), Ok(vec!["b".to_string()])];
    assert_eq!(merge_block_txids(&good).unwrap(), vec!["a".to_string(), "b".to_string()]);
    let bad = vec![Ok(vec!["a".to_string()]), Err("first".to_string()), Err("second".to_string())];
    assert_eq!(merge_block_txids(&bad), Err("second".to_string()));
}

#[test]
fn confirmation_is_read_from_any_of_its_forms() {
    assert!(tx_confirmed(&object(vec![("block_height", number(7))])));
    assert!(tx_confirmed(&object(vec![("blockHeight", number(7))])));
    assert!(tx_confirmed(&object(vec![("confirmations", number(1))])));
    assert!(!tx_confirmed(&object(vec![("confirmations", number(0))])));
    assert!(!tx_confirmed(&Json::Null));
}

#[test]
fn scans_leave_no_gap_on_a_long_way() {
    let mut last = Some(99);
    let mut covered = 99;
    while covered < 450 {
        let range = next_scan_range(last, 450);
        assert_eq!(range.start, covered + 1);
        assert!(range.end - range.start < 100);
        covered = range.end;
        last = Some(covered);
    }
    assert_eq!(covered, 450);
    let first = next_scan_range(None, 450);
    assert_eq!((first.start, first.end), (450, 450));
}

#[test]
fn breaker_opens_and_recovers() {
    let mut b = CircuitBreaker::new();
    assert!(!b.is_open());
    for _ in 0..FAILURE_THRESHOLD {
        b.record_failure_at(1_000);
    }
    assert!(b.is_open_at(1_000));
    assert!(b.is_open_at(1_000 + COOLDOWN_SECS - 1));
    assert!(!b.is_open_at(1_000 + COOLDOWN_SECS));
    assert!(b.is_open_at(1_000 + COOLDOWN_SECS));
    assert!(b.is_open_at(9_000));
    b.record_failure_at(9_000);
    assert!(b.is_open_at(9_000 + COOLDOWN_SECS - 1));
    assert!(!b.is_open_at(9_000 + COOLDOWN_SECS));
    assert!(b.is_open_at(9_000 + COOLDOWN_SECS));
    b.record_success();
    assert!(!b.is_open_at(9_000 + COOLDOWN_SECS));
    assert!(!b.is_open_at(1_000));
    for _ in 0..FAILURE_THRESHOLD {
        b.record_failure();
    }
    assert!(b.is_open());
}

#[test]
fn mempool_is_polled_as_configured() {
    assert_eq!(mempool_poll_secs(5, false), 5);
    assert_eq!(mempool_poll_secs(0, false), 1);
    assert_eq!(mempool_poll_secs(5, true), 30);
}

#[test]
fn fetches_are_repeated_twice() {
    assert_eq!(retry_delay_ms(0), Some(0));
    assert_eq!(retry_delay_ms(1), Some(1000));
    assert_eq!(retry_delay_ms(2), Some(2000));
    assert_eq!(retry_delay_ms(3), None);
    assert_eq!(chain_height(Some(5), Some(6)), Some(5));
    assert_eq!(chain_height(None, Some(6)), Some(6));
}

#[test]
fn scanner_state_is_told_by_its_lag() {
    let mut m = ScannerMetrics::new();
    assert_eq!(m.snapshot().status(), "starting");
    m.set_last_block_height(100);
    m.set_chain_tip(100);
    assert_eq!(m.snapshot().status(), "healthy");
    m.set_chain_tip(10_000);
    assert_eq!(m.snapshot().status(), "behind");
    assert_eq!(m.snapshot().blocks_behind(), 9_900);
    m.set_chain_tip(99);
    assert_eq!(m.snapshot().blocks_behind(), 0);
    m.record_scan_error("broken", 50);
    assert_eq!(m.recent_errors(60), 1);
    assert_eq!(m.last_error(60), Some(("broken".to_string(), 10)));
    assert_eq!(m.total_errors(), 1);
}

#[test]
fn seen_transactions_are_looked_at_once() {
    let mut seen = SeenTxids::new();
    seen.insert("a", 10);
    seen.insert("b", 20);
    let txids = vec!["a".to_string(), "c".to_string()];
    assert_eq!(seen.new_txids(&txids), vec!["c".to_string()]);
    seen.evict(15);
    assert!(!seen.contains("a"));
    assert!(seen.contains("b"));
}

#[test]
fn pushes_are_read() {
    assert_eq!(api_url_to_ws("https://api.x"), "wss://api.x");
    assert_eq!(api_url_to_ws("http://api.x"), "ws://api.x");
    assert_eq!(api_url_to_ws("api.x"), "ws://api.x");
    assert_eq!(raw_tx_hex(&object(vec![("hex", text("00"))])), Some("00".to_string()));
    assert!(parse_mempool_tx(&object(vec![("type", text("other"))])).is_none());
    assert_eq!(next_reconnect_delay(1), 2);
}

fn thresholds() -> Thresholds {
    Thresholds { dust_fraction: 10_000, min_accepted: 995_000 }
}

#[test]
fn payments_complete_an_invoice_in_parts() {
    let now = 1_767_225_600;
    let mut inv = invoice("m", None);
    let mut ledger = PaymentLedger::new();
    let mut pay = |inv: &mut Invoice, txid: &str, zatoshis: i64, in_block: bool| {
        apply_payment(inv, &mut ledger, txid, zatoshis, thresholds(), in_block, now)
    };
    assert_eq!(pay(&mut inv, "t0", 9_999, false), PaymentEffect::Dust);
    assert_eq!(inv.status, "pending");
    assert_eq!(
        pay(&mut inv, "t1", 400_000, false),
        PaymentEffect::Underpaid(400_000)
    );
    assert_eq!(inv.status, "underpaid");
    assert_eq!(inv.expires_at, "2026-01-01T00:10:00Z");
    assert_eq!(pay(&mut inv, "t1", 400_000, false), PaymentEffect::Unchanged);
    assert_eq!(pay(&mut inv, "t1", 400_000, true), PaymentEffect::Unchanged);
    assert_eq!(inv.received_zatoshis, 400_000);
    assert_eq!(
        pay(&mut inv, "t2", 100_000, false),
        PaymentEffect::PartAdded(500_000)
    );
    assert_eq!(
        pay(&mut inv, "t3", 502_000, false),
        PaymentEffect::Detected(1_002_000, true)
    );
    assert_eq!(inv.status, "detected");
    assert_eq!(inv.detected_at.as_deref(), Some("2026-01-01T00:00:00Z"));
    assert_eq!((inv.confirmed_at.clone(), inv.expires_at.as_str()), (None, "2026-01-01T00:30:00Z"));
    assert_eq!(
        pay(&mut inv, "t4", 1_000_000, true),
        PaymentEffect::Unchanged
    );
    assert_eq!(inv.received_zatoshis, 1_002_000);
    assert_eq!(ledger.payments.len(), 3);
}

#[test]
fn payment_in_a_block_confirms() {
    let mut inv = invoice("m", None);
    let mut ledger = PaymentLedger::new();
    assert_eq!(
        apply_payment(&mut inv, &mut ledger, "t", 995_000, thresholds(), true, 1_767_225_600),
        PaymentEffect::Confirmed(995_000, false)
    );
    assert_eq!(inv.status, "confirmed");
    assert_eq!(inv.confirmed_at, Some("2026-01-01T00:00:00Z".to_string()));
}

#[test]
fn confirmed_invoice_leads_to_its_steps() {
    let mut inv = invoice("m", None);
    assert!(on_invoice_confirmed(&inv, &EventLink::Ticketed, false, true).is_empty());
    inv.product_id = Some("p".to_string());
    inv.is_donation = 1;
    inv.payment_link_id = Some("l".to_string());
    inv.subscription_id = Some("s".to_string());
    let steps = on_invoice_confirmed(&inv, &EventLink::Ticketed, true, true);
    assert_eq!(steps.len(), 4);
    assert!(matches!(&steps[0], ConfirmationStep::CountDonation(l) if l == "l"));
    assert!(matches!(&steps[1], ConfirmationStep::CreateTicket(p, None) if p == "p"));
    assert!(matches!(&steps[2], ConfirmationStep::AdvanceSubscription(s) if s == "s"));
    assert!(matches!(&steps[3], ConfirmationStep::ChargeFee));
    inv.campaign_counted = 1;
    inv.subscription_id = None;
    let luma = EventLink::Luma("evt".to_string(), None);
    let steps = on_invoice_confirmed(&inv, &luma, true, false);
    assert_eq!(steps.len(), 1);
    assert!(matches!(&steps[0], ConfirmationStep::RegisterGuest(e, None) if e == "evt"));
}
