//! Invoices: their states, their addresses, and requests about them.

use cipherpay::api::invoices::{
    cancel_invoice, check_creation, create_ledger_token, export_csv, ledger_of_token,
    merchant_webhook_origin, refund_address_of, refund_invoice, refund_txid_of, resolve_merchant,
    validate_invoice_request, ExportQuery, ExportRow, InvoiceRefusal, InvoiceWatch, LedgerToken,
    WatchStep,
};
use cipherpay::api::Lookup;
use cipherpay::billing::Block;
use cipherpay::clock::Moment;
use cipherpay::invoices::payments::PaymentLedger;
use cipherpay::invoices::pricing::{choose_rates, rates_needed, RateChoice};
use cipherpay::invoices::{
    create_invoice, create_settlement_invoice, draw_invoice, draw_settlement, generate_memo_code,
    overpaid, payment_uri, qr_uri, Capacity, CreateInvoiceRequest, FeeOutput, Invoice,
    InvoiceDraw, InvoiceError, InvoiceStatus, Quote, Rate,
};
use cipherpay::json::{Json, JsonNumber};
use cipherpay::qr::generate_qr_png;
use cipherpay::validation::{FieldCheck, ValidationError};

use orchard::keys::{FullViewingKey, SpendingKey};
use zcash_address::unified::{Encoding, Fvk, Revision, Ufvk, Uitem};
use zcash_protocol::consensus::NetworkType;

const NOW: i64 = 1_767_225_600;

fn viewing_key() -> String {
    let sk = SpendingKey::from_bytes([11; 32]).unwrap();
    let item = Uitem::Data(Fvk::Orchard(FullViewingKey::from(&sk).to_bytes()));
    Ufvk::try_from_items(Revision::R0, vec![item]).unwrap().encode(&NetworkType::Main)
}

fn request() -> CreateInvoiceRequest {
    CreateInvoiceRequest {
        product_id: Some("prod".to_string()),
        price_id: Some("price".to_string()),
        product_name: Some("Tea, green".to_string()),
        size: None,
        currency: Some("EUR".to_string()),
        refund_address: None,
    }
}

fn quote() -> Rate {
    Rate::Quoted(Quote {
        price_zatoshis: 1_000_000,
        amount: "0.01000000".to_string(),
        fee: None,
    })
}

fn draw() -> InvoiceDraw {
    InvoiceDraw { id: "inv".to_string(), memo_code: "CP-12345678".to_string() }
}

fn new_invoice() -> Invoice {
    let room = Some(Capacity { sold: 4, max_quantity: Some(5) });
    match create_invoice(&draw(), "m", &viewing_key(), &request(), &quote(), 3, room, 30, NOW) {
        Ok(i) => i,
        Err(_) => panic!("the invoice has to be made"),
    }
}

fn object(members: Vec<(&str, Json)>) -> Json {
    Json::Object(members.into_iter().map(|(k, v)| (k.to_string(), v)).collect())
}

fn text(s: &str) -> Json {
    Json::Text(s.to_string())
}

fn accept(_: &FieldCheck) -> Result<(), ValidationError> {
    Ok(())
}

#[test]
fn invoice_has_an_address_of_its_own() {
    let i = new_invoice();
    assert_eq!(i.status, "pending");
    assert_eq!(i.expires_at, "2026-01-01T00:30:00Z");
    assert!(i.payment_address.starts_with("u1"));
    assert_eq!(i.diversifier_index, Some(3));
    // "CP-12345678" in the alphabet for addresses of the web
    assert_eq!(
        i.zcash_uri,
        format!("zcash:{}?amount=0.01000000&memo=Q1AtMTIzNDU2Nzg", i.payment_address)
    );
    assert_eq!(qr_uri(&i, "1"), i.zcash_uri);
}

#[test]
fn creation_is_refused_with_a_reason() {
    let fails = |rate: Rate, key: &str, room: Option<Capacity>, e: InvoiceError| {
        let r = create_invoice(&draw(), "m", key, &request(), &rate, 0, room, 30, NOW);
        assert_eq!(r.err(), Some(e));
    };
    fails(Rate::Unsupported, &viewing_key(), None, InvoiceError::UnsupportedCurrency);
    fails(Rate::Unavailable, &viewing_key(), None, InvoiceError::NoExchangeRate);
    let full = Some(Capacity { sold: 5, max_quantity: Some(5) });
    fails(quote(), &viewing_key(), full, InvoiceError::SoldOut);
    fails(quote(), &viewing_key(), None, InvoiceError::SoldOut);
    let r = create_invoice(&draw(), "m", "bad", &request(), &quote(), 0, None, 30, NOW);
    assert!(matches!(r, Err(InvoiceError::Key(_))));
    assert_eq!(
        InvoiceError::UnsupportedCurrency.message("XXX"),
        "Unsupported currency: XXX"
    );
}

#[test]
fn fee_goes_into_the_payment_request() {
    let fee = Some(FeeOutput { address: "u1fee".to_string(), amount: "0.00010000".to_string() });
    let uri = payment_uri("u1pay", "0.01000000", "CP-1", &fee, "inv");
    assert!(uri.contains("u1pay") && uri.contains("u1fee") && uri.contains("0.00010000"));
    assert!(overpaid(2_001, 1_000));
    assert!(!overpaid(2_000, 1_000));
    assert!(!overpaid(5_000, 0));
}

#[test]
fn codes_are_drawn() {
    let code = generate_memo_code();
    assert!(code.starts_with("CP-"));
    assert_eq!(code.len(), 11);
    assert_ne!(draw_invoice().id, draw_invoice().id);
    let i = create_settlement_invoice(&draw_settlement(), "m", 6_000_000, "0.06", "u1fee", NOW);
    assert_eq!(i.product_name, Some("Fee Settlement".to_string()));
    assert_eq!(i.payment_address, "u1fee");
}

#[test]
fn states_follow_one_another() {
    let mut i = new_invoice();
    assert!(!i.mark_confirmed(NOW));
    assert!(i.mark_detected("tx", 1_000_000, NOW));
    assert!(!i.mark_detected("tx", 1_000_000, NOW));
    assert!(!i.mark_expired());
    assert!(i.mark_confirmed(NOW));
    assert!(i.mark_refunded(None, NOW));
    assert!(!i.mark_refunded(None, NOW));
    let mut i = new_invoice();
    assert!(i.watched("2026-01-01T00:10:00Z"));
    assert!(!i.watched("2026-01-01T00:30:00Z"));
    assert!(i.expire_if_old("2026-01-01T00:31:00Z"));
    assert_eq!(i.status, "expired");
    assert_eq!(i.finalize_invoice(None, &quote(), NOW + 60), Ok(()));
    assert_eq!(i.status, "pending");
    assert_eq!(
        i.finalize_invoice(None, &quote(), NOW),
        Err(InvoiceError::NotFinalizable)
    );
    assert_eq!(InvoiceError::NotFinalizable.finalize_status(), 409);
    assert_eq!(i.accumulate_payment(5, NOW), Err(InvoiceError::NotUnderpaid));
    assert!(i.update_refund_address("u1a"));
    assert!(!i.update_refund_address("u1b"));
    assert_eq!(i.refund_address, Some("u1a".to_string()));
}

#[test]
fn each_transaction_counts_once_for_an_invoice() {
    let mut ledger = PaymentLedger::new();
    assert_eq!(ledger.record_payment("one", "part1", 400), 400);
    assert_eq!(ledger.record_payment("one", "part1", 400), 400);
    assert_eq!(ledger.record_payment("one", "part2", 600), 1000);
    assert_eq!(ledger.record_payment("two", "part1", 5), 5);
    assert_eq!(ledger.record_payment("one", "part2", 600), 1000);
    assert_eq!(ledger.payments.len(), 3);
}

#[test]
fn rates_are_fetched_when_they_are_old() {
    assert!(rates_needed(None, 300));
    assert!(!rates_needed(Some(299), 300));
    assert!(rates_needed(Some(300), 300));
    assert!(rates_needed(Some(-1), 300));
    assert_eq!(choose_rates(Some(299), 300, false), RateChoice::Cached);
    assert_eq!(choose_rates(Some(300), 300, true), RateChoice::Fetched);
    assert_eq!(choose_rates(Some(3_000), 300, false), RateChoice::Cached);
    assert_eq!(choose_rates(None, 300, false), RateChoice::Unavailable);
}

#[test]
fn qr_code_is_a_png_image() {
    let png = generate_qr_png("zcash:u1pay?amount=1").unwrap();
    assert_eq!(&png[..8], &[0x89, b'P', b'N', b'G', 0x0d, 0x0a, 0x1a, 0x0a]);
    let width = u32::from_be_bytes([png[16], png[17], png[18], png[19]]);
    assert!(width >= 250);
    assert_ne!(png, generate_qr_png("zcash:u1pay?amount=2").unwrap());
    assert!(generate_qr_png(&"x".repeat(5_000)).is_none());
}

#[test]
fn origin_of_the_webhook_is_told() {
    let origin = |u: &str| merchant_webhook_origin(Some(u));
    assert_eq!(origin("https://shop.example/hook?x=1"), Some("https://shop.example".to_string()));
    assert_eq!(origin("http://shop.example:8080/"), Some("http://shop.example:8080".to_string()));
    assert_eq!(origin("no address"), None);
    assert_eq!(merchant_webhook_origin(None), None);
    assert_eq!(origin("blob:https://shop.example/1"), Some("https://shop.example".to_string()));
    assert_eq!(origin("data:text/plain,x"), Some("null".to_string()));
    let many = format!("https://shop.example/{}", ":".repeat(2_000));
    assert_eq!(origin(&many), Some("https://shop.example".to_string()));
    assert_eq!(origin(&format!("{}x", "blob:".repeat(1_000))), Some("null".to_string()));
    assert_eq!(origin(&"blob:".repeat(100_000)), None);
}

#[test]
fn only_pending_invoices_are_cancelled() {
    let cancelled = cancel_invoice(Lookup::Found(new_invoice()), "m");
    assert!(matches!(cancelled, Ok(i) if i.status == "expired"));
    let refused = |l: Lookup<Invoice>, m: &str, e: InvoiceRefusal| {
        assert_eq!(cancel_invoice(l, m).err(), Some(e));
    };
    refused(Lookup::Found(new_invoice()), "n", InvoiceRefusal::NotPending);
    let mut i = new_invoice();
    i.status = "detected".to_string();
    refused(Lookup::Found(i), "m", InvoiceRefusal::NotPending);
    let mut i = new_invoice();
    i.product_name = Some("Fee Settlement".to_string());
    refused(Lookup::Found(i), "m", InvoiceRefusal::IsSettlement);
    refused(Lookup::Missing, "m", InvoiceRefusal::NotFound);
    assert_eq!(InvoiceRefusal::IsSettlement.reply().0, 403);
}

#[test]
fn only_confirmed_invoices_are_refunded() {
    let mut i = new_invoice();
    i.status = "confirmed".to_string();
    let done = refund_invoice(Lookup::Found(i), "m", Some("tx"), NOW);
    assert!(matches!(done, Ok(x) if x.status == "refunded" && x.refund_txid.is_some()));
    let e = refund_invoice(Lookup::Found(new_invoice()), "m", None, NOW).err();
    assert_eq!(e, Some(InvoiceRefusal::NotConfirmed));
    let e = refund_invoice(Lookup::Failed, "m", None, NOW).err();
    assert_eq!(e, Some(InvoiceRefusal::NotFound));
    assert_eq!(refund_txid_of(&object(vec![("refund_txid", text(""))])), None);
    assert_eq!(
        refund_txid_of(&object(vec![("refund_txid", text("t"))])),
        Some("t".to_string())
    );
    assert_eq!(
        refund_address_of(&object(vec![("refund_address", text("u1"))])),
        Ok("u1".to_string())
    );
    assert_eq!(refund_address_of(&Json::Null), Err(InvoiceRefusal::AddressRequired));
}

#[test]
fn requests_for_invoices_are_checked() {
    let r = validate_invoice_request(&request(), true, accept);
    assert!(matches!(r, Err(e) if e.field == "amount" && e.message == "must be non-negative"));
    assert!(validate_invoice_request(&request(), false, accept).is_ok());
    let refuse = |c: &FieldCheck| -> Result<(), ValidationError> {
        Err(ValidationError::invalid(c.field, "no"))
    };
    let r = validate_invoice_request(&request(), true, refuse);
    assert!(matches!(r, Err(e) if e.field == "product_id"));
    assert!(check_creation(true, None, true).is_ok());
    assert_eq!(check_creation(false, None, true), Err(InvoiceRefusal::NoMerchant));
    assert_eq!(
        check_creation(true, Some("suspended"), true),
        Err(InvoiceRefusal::BillingBlocked(Block::Suspended))
    );
    let blocked = InvoiceRefusal::BillingBlocked(Block::Suspended);
    assert_eq!(blocked.billing_status(), Some("suspended"));
    assert_eq!(InvoiceRefusal::NoRates.billing_status(), None);
    assert_eq!(check_creation(true, None, false), Err(InvoiceRefusal::NoRates));
}

#[test]
fn key_decides_before_the_session() {
    let key = Some("Bearer cpay_sk_x");
    assert_eq!(resolve_merchant(key, None, Some(2), true, vec![3]), None);
    assert_eq!(resolve_merchant(key, Some(1), Some(2), true, vec![3]), Some(1));
    assert_eq!(resolve_merchant(Some("other"), Some(1), Some(2), true, vec![3]), Some(2));
    assert_eq!(resolve_merchant(None, Some(1), None, true, vec![3]), Some(3));
    assert_eq!(resolve_merchant(None, Some(1), None, true, vec![3, 4]), None);
    assert_eq!(resolve_merchant(None, Some(1), None, false, vec![3]), None);
}

fn status(s: &str, received: i64) -> InvoiceStatus {
    InvoiceStatus {
        invoice_id: "inv".to_string(),
        status: s.to_string(),
        detected_txid: None,
        received_zatoshis: received,
        price_zatoshis: 10,
    }
}

#[test]
fn changes_are_announced_until_the_end() {
    let (mut w, announced) = InvoiceWatch::start(Some(&status("pending", 0)));
    assert!(announced);
    assert_eq!(w.look(Some(&status("pending", 0))), WatchStep::Wait);
    assert_eq!(w.look(Some(&status("underpaid", 4))), WatchStep::Announce);
    assert_eq!(w.look(Some(&status("underpaid", 6))), WatchStep::Announce);
    assert_eq!(w.look(Some(&status("confirmed", 10))), WatchStep::AnnounceAndStop);
    assert_eq!(w.look(None), WatchStep::Stop);
    assert!(!InvoiceWatch::start(None).1);
}

#[test]
fn export_has_a_line_for_each_invoice() {
    let row = ExportRow {
        id: "i".to_string(),
        memo_code: "CP-1".to_string(),
        product_name: Some("Tea, green".to_string()),
        currency: None,
        amount_fiat: "1.00".to_string(),
        price_zec: "0.01000000".to_string(),
        zec_rate: "100.0000".to_string(),
        confirmed_rate: None,
        confirmed_fiat_amount: Some("1.01".to_string()),
        received_zec: "0.01000000".to_string(),
        status: "confirmed".to_string(),
        txid: None,
        created_at: "c".to_string(),
        confirmed_at: None,
    };
    let csv = export_csv(&vec![row]);
    let lines: Vec<&str> = csv.lines().collect();
    assert_eq!(lines.len(), 2);
    assert_eq!(
        lines[1],
        "i,CP-1,Tea  green,EUR,1.00,0.01000000,100.0000,,1.01,0.01000000,confirmed,,c,"
    );
    assert_eq!(lines[0].matches(',').count(), lines[1].matches(',').count());
    let q = ExportQuery { from: None, to: None, status: None };
    assert_eq!(q.status_filter(), "confirmed");
}

#[test]
fn shared_ledger_ends_with_its_link() {
    let days = |d: i64| {
        object(vec![("expires_days", Json::Number(JsonNumber { unsigned: None, signed: Some(d) }))])
    };
    let t = create_ledger_token("m", &Json::Null, 9, NOW).unwrap_or_else(|| panic!());
    assert_eq!(t.label, "Accountant");
    assert_eq!(t.expires_at, Some("2026-04-01T00:00:00Z".to_string()));
    assert!(create_ledger_token("m", &Json::Null, 10, NOW).is_none());
    let t = create_ledger_token("m", &days(-3), 0, NOW).unwrap_or_else(|| panic!());
    assert_eq!(t.expires_at, Some("2026-01-02T00:00:00Z".to_string()));
    let mut t: LedgerToken = create_ledger_token("m", &days(999), 0, NOW).unwrap_or_else(|| panic!());
    assert_eq!(t.expires_at, Some("2027-01-01T00:00:00Z".to_string()));
    let at = |secs: i64| Moment { secs, nanos: 0 };
    assert!(t.valid(at(NOW + 365 * 86_400)));
    assert!(!t.valid(at(NOW + 365 * 86_400 + 1)));
    assert!(!t.revoke("n", "now"));
    assert!(t.revoke("m", "now"));
    assert!(!t.revoke("m", "now"));
    assert!(!t.valid(at(NOW)));
    assert_eq!(ledger_of_token(&Lookup::Found(t), at(NOW)), None);
    assert_eq!(ledger_of_token(&Lookup::Missing, at(NOW)), None);
}
