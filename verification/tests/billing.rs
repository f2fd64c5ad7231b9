//! Billing of merchants, and the mail that goes with it.

use cipherpay::billing::{
    close_decision, grace_days, merchant_billing_blocked, settle_decision, suspension_days,
    upgraded_tier, BillingAccount, BillingCycle, BillingTerms, Closing, SettleDecision,
};
use cipherpay::clock::{parse_timestamp, timestamp, Moment};
use cipherpay::config::{Config, ConfigError, Variables};
use cipherpay::email::{
    billing_reminder_mail, discount_expired_mail, discount_expiry_warning_mail, past_due_mail,
    payment_confirmed_mail, recovery_mail, settlement_invoice_mail, suspended_mail, MailError,
    MailLog,
};
use cipherpay::maintenance::{Attendee, Purge};

const DAY: i64 = 86_400;
const START: i64 = 1_767_225_600;

fn account() -> BillingAccount {
    BillingAccount {
        merchant_id: "m".to_string(),
        trust_tier: Some("new".to_string()),
        billing_status: Some("active".to_string()),
        billing_started_at: None,
        fee_discount_until: None,
        cycles: vec![],
    }
}

fn terms() -> BillingTerms {
    BillingTerms { cycle_days_new: 7, cycle_days_standard: 30, has_fee_address: true }
}

fn moment(secs: i64) -> Moment {
    Moment { secs, nanos: 0 }
}

fn outstanding(a: &BillingAccount) -> i64 {
    a.cycles.iter().map(|c: &BillingCycle| c.outstanding_zatoshis).sum()
}

#[test]
fn rules_depend_on_tier_and_balance() {
    assert!(merchant_billing_blocked("past_due"));
    assert!(merchant_billing_blocked("suspended"));
    assert!(!merchant_billing_blocked("active"));
    assert_eq!((grace_days("new"), grace_days("trusted")), (7, 14));
    assert_eq!(suspension_days("new"), 7);
    assert_eq!(suspension_days("standard"), 14);
    assert_eq!(suspension_days("trusted"), 30);
    assert_eq!(close_decision(0, "new", true), Closing::Paid);
    assert_eq!(close_decision(4_999_999, "new", true), Closing::CarriedOver);
    assert_eq!(close_decision(5_000_000, "trusted", true), Closing::Invoiced(14));
    assert_eq!(close_decision(5_000_000, "new", false), Closing::LeftOpen);
    assert_eq!(upgraded_tier("new", 3, 0), Some("standard"));
    assert_eq!(upgraded_tier("standard", 3, 0), Some("trusted"));
    assert_eq!(upgraded_tier("trusted", 3, 0), None);
    assert_eq!(upgraded_tier("new", 3, 1), None);
    assert_eq!(upgraded_tier("new", 2, 0), None);
    assert!(matches!(settle_decision(false, 9_000_000), SettleDecision::BillingNotEnabled));
    assert!(matches!(settle_decision(true, 0), SettleDecision::NothingOutstanding));
    assert!(matches!(settle_decision(true, 4_999_999), SettleDecision::BelowMinimum));
    assert!(matches!(settle_decision(true, 5_000_000), SettleDecision::CreateInvoice));
}

#[test]
fn fees_are_charged_and_collected() {
    let mut a = account();
    a.ensure_billing_cycle(&terms(), START);
    assert_eq!(a.cycles[0].period_end, timestamp(START + 7 * DAY));
    let entry = a.create_fee_entry("inv", 700, &timestamp(START));
    assert_eq!(outstanding(&a), 700);
    assert_eq!(entry.billing_cycle_id, Some(a.cycles[0].id.clone()));
    let collected = a.mark_fee_collected(&entry, &timestamp(START + 1)).unwrap();
    assert_eq!(collected.auto_collected, 1);
    assert_eq!(outstanding(&a), 0);
    assert_eq!(a.cycles[0].auto_collected_zatoshis, 700);
    assert!(a.mark_fee_collected(&collected, &timestamp(START + 2)).is_none());
}

#[test]
fn small_balance_is_carried_over() {
    let mut a = account();
    a.ensure_billing_cycle(&terms(), START);
    a.create_fee_entry("inv", 4_000_000, &timestamp(START));
    let run = a.process_billing_cycles(&terms(), moment(START + 8 * DAY));
    assert!(run.settlements.is_empty() && run.past_due.is_empty());
    assert_eq!(a.cycles.len(), 2);
    assert_eq!(a.cycles[0].status, "carried_over");
    assert_eq!(a.cycles[1].status, "open");
    assert_eq!(a.cycles[1].outstanding_zatoshis, 4_000_000);
    assert_eq!(outstanding(&a), 4_000_000);
    assert_eq!(a.billing_status, Some("active".to_string()));
}

#[test]
fn unpaid_balance_leads_to_suspension() {
    let mut a = account();
    a.ensure_billing_cycle(&terms(), START);
    a.create_fee_entry("inv", 6_000_000, &timestamp(START));
    let run = a.process_billing_cycles(&terms(), moment(START + 8 * DAY));
    assert_eq!(run.settlements.len(), 1);
    assert_eq!(run.settlements[0].outstanding_zatoshis, 6_000_000);
    assert_eq!(run.settlements[0].grace_days, 7);
    assert_eq!(a.cycles[0].status, "invoiced");
    let run = a.process_billing_cycles(&terms(), moment(START + 13 * DAY));
    assert_eq!(run.reminders.len(), 1);
    let run = a.process_billing_cycles(&terms(), moment(START + 16 * DAY));
    assert_eq!(run.past_due.len(), 1);
    assert_eq!(a.billing_status, Some("past_due".to_string()));
    let run = a.process_billing_cycles(&terms(), moment(START + 24 * DAY));
    assert_eq!(run.suspended.len(), 1);
    assert_eq!(a.billing_status, Some("suspended".to_string()));
    assert!(a.check_settlement_payment(0, "confirmed"));
    assert_eq!(a.cycles[0].status, "paid");
    assert_eq!(a.billing_status, Some("active".to_string()));
    assert_eq!(a.summary(None).billing_status, "active");
}

#[test]
fn open_cycle_can_be_settled_early() {
    let mut a = account();
    a.ensure_billing_cycle(&terms(), START);
    a.create_fee_entry("inv", 6_000_000, &timestamp(START));
    assert!(a.cycles[0].invoice_early("settlement", START));
    assert_eq!(a.cycles[0].status, "invoiced");
    assert_eq!(a.cycles[0].grace_until, Some("2026-01-08T00:00:00Z".to_string()));
    assert!(!a.cycles[0].invoice_early("again", START));
    assert_eq!(a.cycles[0].settlement_invoice_id, Some("settlement".to_string()));
}

#[test]
fn discounts_end() {
    let mut a = account();
    assert!(!a.discount_expired(START) && !a.discount_ends_soon(START));
    a.fee_discount_until = Some(timestamp(START + 3 * DAY));
    assert!(a.discount_ends_soon(START));
    assert!(!a.discount_ends_soon(START - 5 * DAY));
    assert!(!a.discount_expired(START));
    assert!(a.discount_expired(START + 4 * DAY));
}

#[test]
fn timestamps_are_written_and_read() {
    assert_eq!(timestamp(START), "2026-01-01T00:00:00Z");
    assert_eq!(parse_timestamp("2026-01-01T00:00:00Z"), Some(moment(START)));
    assert_eq!(parse_timestamp("nonsense"), None);
    assert_eq!(moment(START).add_days(2), moment(START + 2 * DAY));
    assert_eq!(moment(START + 2 * DAY + 5).days_since(moment(START)), 2);
    assert!(moment(START + 299).is_within(moment(START), 300));
    assert!(!moment(START + 300).is_within(moment(START), 300));
}

fn variables(pairs: &[(&str, &str)]) -> Variables {
    Variables { entries: pairs.iter().map(|(k, v)| (k.to_string(), v.to_string())).collect() }
}

#[test]
fn configuration_has_defaults() {
    let c = Config::from_variables(&variables(&[]), Some(true)).unwrap();
    assert_eq!(c.database_url, "sqlite:cipherpay.db");
    assert_eq!(c.api_port, 3080);
    assert_eq!(c.invoice_expiry_minutes, 30);
    assert_eq!(c.price_cache_secs, 300);
    assert!(c.is_testnet());
    assert!(c.allowed_origins.is_empty());
    assert!(c.any_origin_allowed());
    assert!(!c.smtp_configured());
    assert!(!c.fee_enabled());
    let c = Config::from_variables(
        &variables(&[
            ("NETWORK", "mainnet"),
            ("ALLOWED_ORIGINS", " https://a , ,https://b"),
            ("FEE_ADDRESS", "u1"),
            ("FEE_UFVK", "uview1"),
            ("SMTP_HOST", "h"),
            ("SMTP_FROM", "f"),
            ("COOKIE_DOMAIN", ""),
        ]),
        Some(true),
    )
    .unwrap();
    assert_eq!(c.allowed_origins, vec!["https://a".to_string(), "https://b".to_string()]);
    assert!(!c.any_origin_allowed());
    assert!(c.fee_enabled() && c.smtp_configured());
    assert_eq!(c.cookie_domain, None);
}

#[test]
fn malformed_variables_are_refused() {
    let fails = |name: &str, value: &str, e: ConfigError| {
        assert_eq!(Config::from_variables(&variables(&[(name, value)]), Some(true)).err(), Some(e));
    };
    fails("API_PORT", "65536", ConfigError::ApiPort);
    fails("MEMPOOL_POLL_INTERVAL_SECS", "-1", ConfigError::MempoolPollInterval);
    fails("BLOCK_POLL_INTERVAL_SECS", "", ConfigError::BlockPollInterval);
    fails("INVOICE_EXPIRY_MINUTES", "x", ConfigError::InvoiceExpiry);
    fails("DATA_PURGE_DAYS", "-+1", ConfigError::DataPurgeDays);
    fails("PRICE_CACHE_SECS", "1.5", ConfigError::PriceCache);
    fails("BILLING_CYCLE_DAYS_NEW", "9223372036854775808", ConfigError::BillingCycleNew);
    fails("BILLING_CYCLE_DAYS_STANDARD", "--1", ConfigError::BillingCycleStandard);
    assert_eq!(Config::from_variables(&variables(&[]), None).err(), Some(ConfigError::FeeRate));
    let c = Config::from_variables(&variables(&[("DATA_PURGE_DAYS", "-5")]), Some(false)).unwrap();
    assert_eq!(c.data_purge_days, -5);
}

#[test]
fn mails_say_what_happened() {
    let mut c = Config::from_variables(&variables(&[]), Some(true)).unwrap();
    assert_eq!(recovery_mail(&c, "t").err(), Some(MailError::NoSender));
    c.smtp_from = Some("f".to_string());
    assert_eq!(recovery_mail(&c, "t").err(), Some(MailError::NoKey));
    c.smtp_pass = Some("p".to_string());
    let body = recovery_mail(&c, "tok").unwrap();
    assert!(body.contains("\nhttp://localhost:3000/dashboard/recover/confirm?token=tok\n"));
    let m = settlement_invoice_mail(&c, "cycle", "0.06000000", "2026-01-15", 7);
    assert_eq!(m.template, "settlement_invoice");
    assert!(m.body.contains("Outstanding balance: 0.06000000 ZEC\nDue by: 2026-01-15 (7 days)\n"));
    assert!(m.body.ends_with("https://cipherpay.app/dashboard\n\n\u{2014} CipherPay"));
    let m = billing_reminder_mail(&c, "cycle", "0.06", "2026-01-15", 2);
    assert!(m.body.contains("balance of 0.06 ZEC is due in 2 days (2026-01-15)."));
    assert_eq!(past_due_mail(&c, "cycle", "1").subject, "CipherPay: Account Past Due");
    assert!(suspended_mail(&c, "cycle", "1").body.contains("unpaid balance of 1 ZEC.\nAll"));
    assert_eq!(payment_confirmed_mail("cycle").entity_id, "cycle");
    assert!(discount_expiry_warning_mail("m", "1.0", "soon").body.contains("standard 1.0%."));
    assert!(discount_expired_mail("m", "1.0").body.contains("now 1.0% (standard rate)"));
}

#[test]
fn each_mail_is_sent_once() {
    let mut c = Config::from_variables(&variables(&[]), Some(true)).unwrap();
    let mut log = MailLog::new();
    let mail = payment_confirmed_mail("cycle");
    assert!(!log.to_be_sent(&c, "m", &mail));
    c.smtp_host = Some("h".to_string());
    c.smtp_from = Some("f".to_string());
    assert!(log.to_be_sent(&c, "m", &mail));
    log.record_email_sent("m", mail.template, &mail.entity_id, "now");
    log.record_email_sent("m", mail.template, &mail.entity_id, "later");
    assert_eq!(log.sent.len(), 1);
    assert!(!log.to_be_sent(&c, "m", &mail));
    assert!(log.to_be_sent(&c, "n", &mail));
    assert!(log.to_be_sent(&c, "m", &payment_confirmed_mail("other")));
}

#[test]
fn old_rows_are_cleaned_up() {
    let p = Purge::at(START, 30);
    assert_eq!(p.cutoff, "2025-12-02T00:00:00Z");
    assert!(p.is_expired("2025-12-31T23:59:59Z"));
    assert!(!p.is_expired("2026-01-01T00:00:00Z"));
    assert!(p.drops_delivery("failed", "2025-12-01T00:00:00Z"));
    assert!(!p.drops_delivery("pending", "2025-12-01T00:00:00Z"));
    assert!(p.drops_ticket("void", "2025-12-01T00:00:00Z"));
    assert!(!p.drops_ticket("void", "2025-12-03T00:00:00Z"));
    let mut abandoned = Attendee {
        invoice_status: "expired".to_string(),
        created_at: "2020-01-01T00:00:00Z".to_string(),
        name: Some("encrypted".to_string()),
        email: Some("encrypted".to_string()),
    };
    assert!(p.clear_attendee(&mut abandoned));
    assert!(abandoned.name.is_none() && abandoned.email.is_none());
    let mut paid = Attendee {
        invoice_status: "confirmed".to_string(),
        created_at: "2020-01-01T00:00:00Z".to_string(),
        name: None,
        email: Some("encrypted".to_string()),
    };
    assert!(!p.clear_attendee(&mut paid));
    assert!(paid.email.is_some());
}

#[test]
fn trifling_balance_is_no_debt() {
    let mut a = account();
    assert!(!a.has_outstanding_balance());
    a.ensure_billing_cycle(&terms(), START);
    a.create_fee_entry("one", 10_000, "2026-01-01T00:00:00Z");
    assert!(!a.has_outstanding_balance());
    a.create_fee_entry("two", 1, "2026-01-01T00:00:00Z");
    assert!(a.has_outstanding_balance());
}

#[test]
fn cycles_may_have_any_length() {
    let long = |days: i64| BillingTerms {
        cycle_days_new: days,
        cycle_days_standard: days,
        has_fee_address: true,
    };
    let mut a = account();
    a.ensure_billing_cycle(&long(1_000_000), START);
    assert_eq!(a.cycles[0].period_end, "4763-11-29T00:00:00Z");
    let mut b = account();
    b.ensure_billing_cycle(&long(-1), START);
    assert_eq!(b.cycles[0].period_end, "2025-12-31T00:00:00Z");
    b.create_fee_entry("one", 9_000_000, &timestamp(START));
    let run = b.process_billing_cycles(&long(-1), Moment { secs: START, nanos: 0 });
    assert_eq!(run.settlements.len(), 1);
    assert!(run.past_due.is_empty());
    assert_eq!(b.cycles[0].status, "invoiced");
}

#[test]
fn stored_times_sort_as_the_times_do() {
    let times = [-1, 0, 86_399, 86_400, START, 253_402_300_799];
    for w in times.windows(2) {
        assert!(timestamp(w[0]) < timestamp(w[1]));
    }
}

#[test]
fn three_settled_cycles_lead_up_a_tier() {
    let cycle = |end: &str, status: &str| BillingCycle {
        id: end.to_string(),
        merchant_id: "m".to_string(),
        period_start: "2025-01-01T00:00:00Z".to_string(),
        period_end: end.to_string(),
        total_fees_zatoshis: 0,
        auto_collected_zatoshis: 0,
        outstanding_zatoshis: 0,
        settlement_invoice_id: None,
        status: status.to_string(),
        grace_until: None,
        created_at: "2025-01-01T00:00:00Z".to_string(),
    };
    let mut a = account();
    a.cycles = vec![
        cycle("2025-12-30T00:00:00Z", "paid"),
        cycle("2025-12-10T00:00:00Z", "suspended"),
        cycle("2025-12-20T00:00:00Z", "carried_over"),
    ];
    assert_eq!(a.upgrade_tier(START), None);
    a.cycles.push(cycle("2025-12-25T00:00:00Z", "paid"));
    assert_eq!(a.upgrade_tier(START), None);
    a.cycles[1].period_end = "2025-10-03T00:00:00Z".to_string();
    assert_eq!(a.upgrade_tier(START), None);
    a.cycles[1].period_end = "2025-10-02T23:59:59Z".to_string();
    assert_eq!(a.upgrade_tier(START), Some("standard"));
    assert_eq!(a.upgrade_tier(START), Some("trusted"));
    assert_eq!(a.upgrade_tier(START), None);
    assert_eq!(a.trust_tier.as_deref(), Some("trusted"));
    let mut b = account();
    b.trust_tier = None;
    b.cycles = vec![
        cycle("2025-12-20T00:00:00Z", "paid"),
        cycle("2025-12-21T00:00:00Z", "paid"),
        cycle("2025-12-22T00:00:00Z", "paid"),
        cycle("2026-01-22T00:00:00Z", "open"),
    ];
    assert_eq!(b.upgrade_tier(START), None);
    b.cycles.pop();
    assert_eq!(b.upgrade_tier(START), Some("standard"));
}
