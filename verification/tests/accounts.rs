//! Accounts with what belongs to them, what was sold, and what merchants are
//! told.

use cipherpay::accounts::Accounts;
use cipherpay::api::account::simulated_period_end;
use cipherpay::api::auth::{check_recovery, DashboardSession, RecoverRequest, RecoveryRefusal};
use cipherpay::api::invoices::{shown_in_ledger, ExportQuery};
use cipherpay::api::passkey::{
    delete_passkey, login_begin, login_complete, reauth, register_complete, require_reauth,
    Ceremony, ChallengeRecord, PasskeyRefusal, Proof, StoredPasskey,
};
use cipherpay::api::Lookup;
use cipherpay::clock::Moment;
use cipherpay::events::{mark_past_events, Event, EventError, EventFile, Ticket, UpdateEventRequest};
use cipherpay::invoices::book::InvoiceBook;
use cipherpay::invoices::payments::{InvoicePayment, PaymentLedger};
use cipherpay::invoices::Invoice;
use cipherpay::luma::{follow, SyncOutcome, SyncPlan};
use cipherpay::maintenance::{Attendee, Purge};
use cipherpay::merchants::{hash_key, Merchant};
use cipherpay::payment_links::{count_donation, delete_payment_link, PaymentLink};
use cipherpay::prices::Price;
use cipherpay::products::Product;
use cipherpay::sales::{
    get_event_detail, get_event_tier_stats, sold_so_far, total_capacity, EventSales, Tally,
    TierSales,
};
use cipherpay::scanner::detection::{confirm_detected, PaymentEffect, Thresholds};
use cipherpay::session_ledger::SessionLedger;
use cipherpay::sessions::Opening;
use cipherpay::validation::{FieldCheck, ValidationError};

const NOW: &str = "2026-01-01T00:00:00Z";

const SECONDS: i64 = 1_767_225_600;

fn some(s: &str) -> Option<String> {
    Some(s.to_string())
}

fn texts(items: &[&str]) -> Vec<String> {
    items.iter().map(|s| s.to_string()).collect()
}

fn merchant(id: &str) -> Merchant {
    Merchant {
        id: id.to_string(),
        name: String::new(),
        api_key_hash: format!("hash-{}", id),
        dashboard_token_hash: hash_key(&format!("token-{}", id)),
        ufvk: format!("key-{}", id),
        payment_address: "test-address".to_string(),
        webhook_url: some("https://example.com/webhook"),
        webhook_secret: String::new(),
        recovery_email: None,
        created_at: NOW.to_string(),
        diversifier_index: 1,
    }
}

fn invoice(id: &str, merchant: &str) -> Invoice {
    Invoice {
        id: id.to_string(),
        merchant_id: merchant.to_string(),
        memo_code: format!("CP-{}", id),
        product_id: None,
        product_name: None,
        size: None,
        currency: None,
        price_id: None,
        payment_address: String::new(),
        zcash_uri: String::new(),
        merchant_name: None,
        refund_address: None,
        status: "pending".to_string(),
        detected_txid: None,
        detected_at: None,
        confirmed_at: None,
        refunded_at: None,
        refund_txid: None,
        expires_at: "2099-01-01T00:00:00Z".to_string(),
        purge_after: None,
        created_at: NOW.to_string(),
        orchard_receiver_hex: None,
        diversifier_index: None,
        price_zatoshis: 1000,
        received_zatoshis: 0,
        subscription_id: None,
        payment_link_id: None,
        is_donation: 0,
        campaign_counted: 0,
    }
}

fn product(id: &str, merchant: &str) -> Product {
    Product {
        id: id.to_string(),
        merchant_id: merchant.to_string(),
        slug: id.to_string(),
        name: "Night".to_string(),
        description: some("old"),
        default_price_id: None,
        metadata: None,
        active: 1,
        created_at: NOW.to_string(),
    }
}

fn session(id: &str, merchant: &str) -> DashboardSession {
    DashboardSession {
        id: id.to_string(),
        merchant_id: merchant.to_string(),
        expires_at: "2026-01-02T00:00:00Z".to_string(),
    }
}

fn accounts() -> Accounts {
    Accounts {
        merchants: vec![merchant("a"), merchant("b")],
        sessions: vec![session("s1", "a"), session("s2", "b"), session("s3", "a")],
        recovery_tokens: Vec::new(),
        fees: Vec::new(),
        cycles: Vec::new(),
        products: vec![product("p", "a"), product("q", "b")],
        invoices: vec![invoice("one", "a"), invoice("two", "b")],
        payments: PaymentLedger::new(),
        ledger: SessionLedger::new(),
    }
}

fn opening(n: u32) -> Opening {
    Opening {
        id: format!("session-{}", n),
        bearer_token: format!("cps_{}", n),
        now: NOW.to_string(),
        expires_at: "2026-01-02T00:00:00Z".to_string(),
    }
}

#[test]
fn consumed_deposit_survives_session_and_account_deletion() {
    let mut all = accounts();
    let s = all.ledger.create_session(&opening(1), "a", "ABCDEF", 10_000, None);
    let s = s.unwrap_or_else(|_| panic!());
    all.ledger.sessions.retain(|x| x.id != s.id);
    assert!(all.ledger.create_session(&opening(2), "a", "abcdef", 10_000, None).is_err());
    all.delete_merchant("a");
    assert!(all.ledger.txid_already_used("ABCDEF"));
}

#[test]
fn deleted_account_leaves_those_of_others() {
    let mut all = accounts();
    all.payments.payments.push(InvoicePayment {
        invoice_id: "one".to_string(),
        txid: "tx".to_string(),
        zatoshis: 1000,
    });
    all.payments.payments.push(InvoicePayment {
        invoice_id: "two".to_string(),
        txid: "tx".to_string(),
        zatoshis: 5,
    });
    all.delete_merchant("a");
    assert_eq!(all.merchants.iter().map(|m| m.id.as_str()).collect::<Vec<_>>(), vec!["b"]);
    assert_eq!(all.sessions.len(), 1);
    assert_eq!(all.invoices.iter().map(|i| i.id.as_str()).collect::<Vec<_>>(), vec!["two"]);
    assert_eq!(all.payments.payments.len(), 1);
    assert_eq!(all.payments.payments[0].invoice_id, "two");
    assert_eq!((all.products[0].active, all.products[1].active), (0, 1));
    assert_eq!(all.get_by_session("s1", NOW), None);
    assert_eq!(all.get_by_session("s2", NOW), Some(0));
}

#[test]
fn new_token_ends_the_sessions_of_a_merchant() {
    let mut all = accounts();
    assert_eq!(all.get_by_session("s1", NOW), Some(0));
    assert_eq!(all.get_by_session("s1", "2026-01-02T00:00:00Z"), None);
    assert_eq!(all.authenticate_dashboard("token-b"), Some(1));
    assert_eq!(all.authenticate_dashboard("token-c"), None);
    let token = all.regenerate_dashboard_token("a");
    assert!(token.starts_with("cpay_dash_"));
    assert_eq!(all.authenticate_dashboard(&token), Some(0));
    assert_eq!(all.authenticate_dashboard("token-a"), None);
    assert_eq!(all.get_by_session("s1", NOW), None);
    assert_eq!(all.get_by_session("s3", NOW), None);
    assert_eq!(all.get_by_session("s2", NOW), Some(1));
}

#[test]
fn recovery_token_is_used_up() {
    let mut all = accounts();
    let first = all.create_recovery_token("a", SECONDS);
    let token = all.create_recovery_token("a", SECONDS);
    assert_eq!(all.recovery_tokens.len(), 1);
    assert!(all.confirm_recovery_token(&first, NOW).is_none());
    assert!(all.confirm_recovery_token(&token, "2026-01-01T01:00:00Z").is_none());
    let fresh = all.confirm_recovery_token(&token, NOW).unwrap();
    assert_eq!(all.authenticate_dashboard(&fresh), Some(0));
    assert!(all.recovery_tokens.is_empty());
    assert!(all.confirm_recovery_token(&token, NOW).is_none());
    assert_eq!(all.get_by_session("s1", NOW), None);
}

#[test]
fn abandoned_attendee_details_are_purged() {
    let p = Purge::at(SECONDS, 30);
    let mut one = Attendee {
        invoice_status: "expired".to_string(),
        created_at: "2020-01-01T00:00:00Z".to_string(),
        name: some("encrypted"),
        email: some("encrypted"),
    };
    assert!(p.clear_attendee(&mut one));
    assert!(one.email.is_none());
}

#[test]
fn payment_ledger_and_outbox_are_idempotent_and_atomic() {
    let mut book = InvoiceBook {
        invoices: vec![invoice("one", "a")],
        ledger: PaymentLedger::new(),
        outbox: Vec::new(),
    };
    assert_eq!(book.record_payment("one", "part1", 400), 400);
    book.mark_underpaid("one", 400, "part1", SECONDS);
    assert_eq!(book.record_payment("one", "part1", 400), 400);
    assert_eq!(book.record_payment("one", "part2", 600), 1000);
    assert!(book.mark_detected("one", "part2", 1000, SECONDS));
    assert!(!book.mark_detected("one", "part2", 1000, SECONDS));
    let mut contributions: Vec<i64> = book.ledger.payments.iter().map(|p| p.zatoshis).collect();
    contributions.sort();
    assert_eq!(contributions, vec![400, 600]);
    let txids: Vec<&str> = book.ledger.payments.iter().map(|p| p.txid.as_str()).collect();
    assert_eq!(txids, vec!["part1", "part2"]);
    let told = |b: &InvoiceBook| {
        b.outbox.iter().filter(|m| m.event_type == "confirmed" && m.attempts == 0).count()
    };
    assert_eq!(told(&book), 0);
    assert!(book.mark_confirmed("one", SECONDS));
    assert_eq!(told(&book), 1);
    assert!(!book.mark_confirmed("one", SECONDS));
    assert!(!book.mark_confirmed("other", SECONDS));
    assert_eq!(told(&book), 1);
    assert_eq!(book.outbox.len(), 3);
    assert_eq!(book.invoices[0].received_zatoshis, 1000);
}

#[test]
fn detected_payment_is_confirmed_in_a_block() {
    let mut i = invoice("one", "a");
    assert!(i.mark_detected("tx", 2_500, SECONDS));
    assert_eq!(confirm_detected(&mut i, false, SECONDS), None);
    assert_eq!(confirm_detected(&mut i, true, SECONDS), Some((2_500, true)));
    assert_eq!(i.confirmed_at, some(NOW));
    assert_eq!(confirm_detected(&mut i, true, SECONDS), None);
    let mut exact = invoice("two", "a");
    assert!(exact.mark_detected("tx", 2_000, SECONDS));
    assert_eq!(confirm_detected(&mut exact, true, SECONDS), Some((2_000, false)));
}

fn event(status: &str, date: Option<&str>) -> Event {
    Event {
        id: "e".to_string(),
        merchant_id: "a".to_string(),
        product_id: "p".to_string(),
        title: "Night".to_string(),
        description: some("old"),
        event_date: date.map(str::to_string),
        event_location: some("Hall"),
        status: status.to_string(),
        created_at: NOW.to_string(),
    }
}

fn file(status: &str, date: Option<&str>) -> EventFile {
    let ticket = |id: &str, status: &str| Ticket { id: id.to_string(), status: status.to_string() };
    EventFile {
        event: event(status, date),
        product: product("p", "a"),
        tickets: vec![ticket("t1", "valid"), ticket("t2", "used"), ticket("t3", "void")],
    }
}

fn states(f: &EventFile) -> Vec<&str> {
    f.tickets.iter().map(|t| t.status.as_str()).collect()
}

#[test]
fn events_change_with_their_products() {
    let mut f = file("active", None);
    let change = |title: Option<&str>| UpdateEventRequest {
        title: title.map(str::to_string),
        description: some("new"),
        event_date: None,
        event_location: None,
    };
    assert_eq!(f.update_event("b", &change(Some("Day"))).ok(), Some(false));
    assert_eq!(f.product.name, "Night");
    assert_eq!(f.update_event("a", &change(Some("Day"))).ok(), Some(true));
    assert_eq!((f.event.title.as_str(), f.product.name.as_str()), ("Day", "Day"));
    assert_eq!(f.product.description, some("new"));
    assert!(matches!(f.update_event("a", &change(Some(" "))), Err(EventError::TitleRequired)));
    assert!(!f.archive_event("b"));
    assert_eq!(f.product.active, 1);
    assert!(f.archive_event("a"));
    assert_eq!((f.event.status.as_str(), f.product.active), ("cancelled", 0));
    assert_eq!(states(&f), vec!["void", "used", "void"]);
    assert!(matches!(f.update_event("a", &change(None)), Err(EventError::Cancelled)));
}

#[test]
fn events_that_are_over_are_no_longer_sold() {
    let mut files = vec![
        file("active", Some("2025-12-31T20:00:00")),
        file("active", Some("2026-01-31T20:00:00")),
        file("cancelled", Some("2025-12-31T20:00:00")),
        file("active", None),
    ];
    assert_eq!(mark_past_events(&mut files, NOW), 1);
    let seen: Vec<(&str, i32)> =
        files.iter().map(|f| (f.event.status.as_str(), f.product.active)).collect();
    assert_eq!(seen, vec![("past", 0), ("active", 1), ("cancelled", 1), ("active", 1)]);
    assert_eq!(states(&files[0]), vec!["valid", "used", "void"]);
}

#[test]
fn followed_events_change_with_their_products() {
    let mut f = file("active", None);
    follow(&mut f, &SyncOutcome::NotLinked);
    assert_eq!(f.product.active, 1);
    let plan = SyncPlan {
        title: "Late Night".to_string(),
        event_date: some("2026-02-01T20:00:00"),
        event_location: None,
        url: None,
        tiers: Vec::new(),
        deactivate: Vec::new(),
        synced: 0,
        added: 0,
        deactivated: 0,
    };
    follow(&mut f, &SyncOutcome::Apply(plan));
    assert_eq!((f.event.title.as_str(), f.product.name.as_str()), ("Late Night", "Late Night"));
    assert_eq!(f.event.event_location, None);
    assert_eq!(f.event.description, some("old"));
    follow(&mut f, &SyncOutcome::MarkPast);
    assert_eq!((f.event.status.as_str(), f.product.active), ("past", 0));
    assert_eq!(states(&f), vec!["valid", "used", "void"]);
    follow(&mut f, &SyncOutcome::Cancel);
    assert_eq!(f.event.status, "cancelled");
    assert_eq!(states(&f), vec!["void", "used", "void"]);
    follow(&mut f, &SyncOutcome::MarkPast);
    assert_eq!(f.event.status, "cancelled");
}

fn price(id: &str, active: i32) -> Price {
    Price {
        id: id.to_string(),
        product_id: "p".to_string(),
        currency: "EUR".to_string(),
        label: some("Door"),
        max_quantity: Some(10),
        price_type: "one_time".to_string(),
        billing_interval: None,
        interval_count: None,
        active,
        created_at: NOW.to_string(),
    }
}

#[test]
fn sales_are_counted_by_their_states() {
    let invoices = texts(&["pending", "expired", "draft", "refunded", "confirmed", "detected"]);
    let tickets = texts(&["valid", "used", "void", "used"]);
    assert_eq!(Tally::Held.count(&invoices), 4);
    assert_eq!(Tally::Registered.count(&invoices), 4);
    assert_eq!(Tally::Confirmed.count(&invoices), 1);
    assert_eq!(Tally::Issued.count(&tickets), 3);
    assert_eq!(Tally::Used.count(&tickets), 2);
    assert_eq!(sold_so_far(true, &invoices, &tickets), 4);
    assert_eq!(sold_so_far(false, &invoices, &tickets), 3);
    assert_eq!(total_capacity(&vec![Some(3), Some(4)]), Some(7));
    assert_eq!(total_capacity(&vec![Some(3), None]), None);
    assert_eq!(total_capacity(&Vec::new()), None);
}

#[test]
fn event_shows_its_sales() {
    let sales = |luma: Option<&str>| EventSales {
        luma_event_id: luma.map(str::to_string),
        invoices: texts(&["confirmed", "pending"]),
        tickets: texts(&["valid", "used", "used", "void"]),
        caps: vec![Some(10)],
    };
    let e = event("active", None);
    let own = sales(None).list_entry(&e);
    assert_eq!((own.sold_count, own.used_count, own.total_capacity), (3, 2, Some(10)));
    let listed = sales(Some("evt")).list_entry(&e);
    assert_eq!((listed.sold_count, listed.used_count), (1, 0));
    assert_eq!(listed.luma_event_id, some("evt"));
    let tiers = || {
        let tier = |id: &str, active: i32| TierSales {
            price: price(id, active),
            invoices: texts(&["confirmed"]),
            tickets: texts(&["used", "valid"]),
        };
        vec![tier("x", 1), tier("y", 0), tier("z", 1)]
    };
    let d = get_event_detail(Some(&e), "a", &sales(Some("evt")), &tiers()).unwrap();
    assert_eq!((d.summary.sold_count, d.summary.used_count), (3, 2));
    let ids: Vec<&str> = d.tiers.iter().map(|t| t.price_id.as_str()).collect();
    assert_eq!(ids, vec!["x", "z"]);
    assert_eq!((d.tiers[0].sold_count, d.tiers[0].used_count), (1, 0));
    let plain = get_event_tier_stats(&tiers(), false);
    assert_eq!((plain[0].sold_count, plain[0].used_count), (2, 1));
    assert!(get_event_detail(Some(&e), "b", &sales(None), &tiers()).is_none());
    assert!(get_event_detail(None, "a", &sales(None), &tiers()).is_none());
}

fn link(id: &str, merchant: &str) -> PaymentLink {
    PaymentLink {
        id: id.to_string(),
        merchant_id: merchant.to_string(),
        price_id: None,
        slug: id.to_string(),
        name: None,
        success_url: None,
        metadata: None,
        active: 1,
        total_created: 0,
        mode: "payment".to_string(),
        donation_config: None,
        total_raised: 0,
        created_at: NOW.to_string(),
    }
}

#[test]
fn links_are_removed_by_their_merchant() {
    let mut links = vec![link("x", "a"), link("y", "a")];
    assert!(!delete_payment_link(&mut links, "x", "b"));
    assert_eq!(links.len(), 2);
    assert!(delete_payment_link(&mut links, "x", "a"));
    assert_eq!(links.iter().map(|l| l.id.as_str()).collect::<Vec<_>>(), vec!["y"]);
}

fn challenge(merchant: Option<&str>) -> Lookup<ChallengeRecord> {
    Lookup::Found(ChallengeRecord {
        merchant_id: merchant.map(str::to_string),
        flow_type: "register".to_string(),
        state_json: "{}".to_string(),
    })
}

#[test]
fn passkeys_are_registered_by_their_merchant() {
    let proved = Ceremony::Proved(vec![0xfb, 0xff, 0x01]);
    let fails = |c: Lookup<ChallengeRecord>, outcome: Ceremony, e: PasskeyRefusal| {
        assert_eq!(register_complete(&c, "a", &outcome, None).err(), Some(e));
    };
    fails(Lookup::Missing, Ceremony::Rejected, PasskeyRefusal::InvalidChallenge);
    fails(Lookup::Failed, Ceremony::Rejected, PasskeyRefusal::Failed);
    fails(challenge(Some("b")), Ceremony::Rejected, PasskeyRefusal::ForeignChallenge);
    fails(challenge(None), Ceremony::Rejected, PasskeyRefusal::ForeignChallenge);
    fails(challenge(Some("a")), Ceremony::Rejected, PasskeyRefusal::RegistrationFailed);
    fails(challenge(Some("a")), Ceremony::NotConfigured, PasskeyRefusal::NotConfigured);
    fails(challenge(Some("a")), Ceremony::StateUnreadable, PasskeyRefusal::Failed);
    let p = register_complete(&challenge(Some("a")), "a", &proved, Some("Phone"));
    let p = p.unwrap_or_else(|_| panic!());
    assert_eq!((p.id.as_str(), p.merchant_id.as_str(), p.label.as_str()), ("-_8B", "a", "Phone"));
}

#[test]
fn passkeys_open_the_account_of_their_owner() {
    assert_eq!(login_begin(false, 1), Err(PasskeyRefusal::NotConfigured));
    assert_eq!(login_begin(true, 0), Err(PasskeyRefusal::NoPasskeys));
    assert_eq!(login_begin(true, 1), Ok(()));
    let proved = Ceremony::Proved(vec![1]);
    let owner = Lookup::Found("a".to_string());
    let s = login_complete(&challenge(None), &proved, &owner, SECONDS);
    let s = s.unwrap_or_else(|_| panic!());
    assert_eq!((s.merchant_id.as_str(), s.expires_at.as_str()), ("a", "2026-01-02T00:00:00Z"));
    let e = |o: &Ceremony, owner: &Lookup<String>| {
        login_complete(&challenge(None), o, owner, SECONDS).err()
    };
    assert_eq!(e(&Ceremony::Rejected, &owner), Some(PasskeyRefusal::AuthenticationFailed));
    assert_eq!(e(&proved, &Lookup::Missing), Some(PasskeyRefusal::UnknownCredential));
    assert_eq!(e(&proved, &Lookup::Failed), Some(PasskeyRefusal::Failed));
    assert_eq!(PasskeyRefusal::UnknownCredential.reply(), (401, "Credential not found"));
}

#[test]
fn identity_is_proved_by_token_or_passkey() {
    let by = |p: Proof| reauth(&p, "a", SECONDS);
    let own = || Lookup::Found("a".to_string());
    let other = || Lookup::Found("b".to_string());
    let proved = || Ceremony::Proved(vec![1]);
    assert_eq!(by(Proof::Token(own())), Ok(NOW.to_string()));
    assert_eq!(by(Proof::Token(other())), Err(PasskeyRefusal::InvalidToken));
    assert_eq!(by(Proof::Token(Lookup::Missing)), Err(PasskeyRefusal::InvalidToken));
    assert_eq!(by(Proof::Passkey(challenge(None), proved(), own())), Ok(NOW.to_string()));
    assert_eq!(
        by(Proof::Passkey(challenge(None), proved(), other())),
        Err(PasskeyRefusal::ForeignCredential)
    );
    assert_eq!(
        by(Proof::Passkey(challenge(None), Ceremony::Rejected, own())),
        Err(PasskeyRefusal::VerificationFailed)
    );
    assert_eq!(
        by(Proof::Passkey(Lookup::Missing, proved(), own())),
        Err(PasskeyRefusal::InvalidChallenge)
    );
    assert_eq!(by(Proof::Nothing), Err(PasskeyRefusal::NothingGiven));
}

#[test]
fn passkeys_are_removed_after_a_recent_proof() {
    let now = Moment { secs: SECONDS, nanos: 0 };
    let key = |id: &str, m: &str| StoredPasskey { id: id.to_string(), merchant_id: m.to_string() };
    let mut keys = vec![key("x", "a"), key("y", "b")];
    let recent = Some("2025-12-31T23:59:00Z");
    assert_eq!(require_reauth(None, now), Err(PasskeyRefusal::ReauthRequired));
    assert_eq!(
        delete_passkey(&mut keys, "x", "a", None, now),
        Err(PasskeyRefusal::ReauthRequired)
    );
    assert_eq!(
        delete_passkey(&mut keys, "y", "a", recent, now),
        Err(PasskeyRefusal::PasskeyNotFound)
    );
    assert_eq!(keys.len(), 2);
    assert_eq!(delete_passkey(&mut keys, "x", "a", recent, now), Ok(()));
    assert_eq!(keys.len(), 1);
    assert_eq!(keys[0].id, "y");
}

fn only_x(c: &FieldCheck) -> Result<(), ValidationError> {
    if c.value == "x@y" {
        Ok(())
    } else {
        Err(ValidationError::invalid(c.field, "no"))
    }
}

#[test]
fn recovery_needs_mail_and_an_address() {
    let ask = |smtp: bool, email: &str| {
        check_recovery(smtp, &RecoverRequest { email: email.to_string() }, only_x)
    };
    assert!(ask(true, "x@y").is_ok());
    assert!(matches!(ask(false, "x@y"), Err(RecoveryRefusal::NotConfigured)));
    match ask(true, "z") {
        Err(RecoveryRefusal::Invalid(e)) => assert_eq!(e.field, "email"),
        _ => panic!("the address has to be refused"),
    }
}

#[test]
fn exports_and_ledgers_show_what_was_asked_for() {
    let q = |status: Option<&str>| ExportQuery {
        from: some("2026-01-01"),
        to: some("2026-02-01"),
        status: status.map(str::to_string),
    };
    assert!(q(None).includes("confirmed", "2026-01-01T00:00:00Z"));
    assert!(!q(None).includes("confirmed", "2025-12-31T00:00:00Z"));
    assert!(!q(None).includes("confirmed", "2026-02-01T00:00:00Z"));
    assert!(!q(None).includes("refunded", "2026-01-05T00:00:00Z"));
    assert!(q(Some("refunded")).includes("refunded", "2026-01-05T00:00:00Z"));
    let all = ExportQuery { from: None, to: None, status: None };
    assert!(all.includes("confirmed", ""));
    assert!(shown_in_ledger("confirmed") && shown_in_ledger("refunded"));
    assert!(!shown_in_ledger("pending"));
    assert_eq!(simulated_period_end(SECONDS), "2025-12-31T23:00:00Z");
}

#[test]
fn donation_counts_once_for_its_campaign() {
    let mut i = invoice("one", "a");
    let mut l = link("x", "a");
    assert!(count_donation(&mut i, &mut l, 2_500));
    assert_eq!((i.campaign_counted, l.total_raised), (1, 2_500));
    assert!(!count_donation(&mut i, &mut l, 2_500));
    assert_eq!(l.total_raised, 2_500);
}

#[test]
fn payments_are_taken_in_one_step() {
    let mut book = InvoiceBook {
        invoices: vec![invoice("zero", "a"), invoice("one", "a")],
        ledger: PaymentLedger::new(),
        outbox: Vec::new(),
    };
    book.invoices[1].price_zatoshis = 100_000;
    let limits = Thresholds { dust_fraction: 1_000, min_accepted: 99_500 };
    let mut take = |txid: &str, zatoshis: i64, in_block: bool| {
        let r = book.take_payment("one", txid, zatoshis, limits, in_block, SECONDS);
        (r, book.outbox.len(), book.ledger.payments.len())
    };
    assert_eq!(take("a", 50, false), (Some(PaymentEffect::Dust), 0, 0));
    assert_eq!(take("b", 40_000, false), (Some(PaymentEffect::Underpaid(40_000)), 1, 1));
    assert_eq!(take("b", 40_000, true), (Some(PaymentEffect::Unchanged), 1, 1));
    assert_eq!(take("c", 20_000, false), (Some(PaymentEffect::PartAdded(60_000)), 1, 2));
    assert_eq!(take("d", 40_000, false), (Some(PaymentEffect::Detected(100_000, false)), 2, 3));
    assert_eq!(book.take_payment("two", "e", 1, limits, false, SECONDS), None);
    assert_eq!(book.confirm_detected("one", false, SECONDS), None);
    assert_eq!(book.confirm_detected("one", true, SECONDS), Some((100_000, false)));
    assert_eq!(book.confirm_detected("one", true, SECONDS), None);
    let told: Vec<&str> = book.outbox.iter().map(|m| m.event_type.as_str()).collect();
    assert_eq!(told, vec!["underpaid", "detected", "confirmed"]);
    assert_eq!(book.ledger.payments[1].txid, "c");
    assert_eq!(book.invoices[0].status, "pending");
}
