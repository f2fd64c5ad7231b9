//! What the HTTP interface decides.

use cipherpay::api::account::{
    announces_cancellation, check_deletion, check_simulation, scan_result, scanned_code,
    CancelBody, DeletionRefusal, ScanRequest, ScanResult, SimulationRefusal,
};
use cipherpay::api::auth::{
    authenticate_admin, build_session_cookie, extract_api_key, extract_session_id, mask_email,
    mask_secret, page, recovery_wait_millis, require_api_key_or_session, require_full,
    require_full_or_session, stored_or_cleared, update_checks, validate_registration,
    validate_update, AccessError, AccountProfile, DashboardSession, KeyKind,
    UpdateMerchantRequest,
};
use cipherpay::api::catalog::{
    active_prices, check_price_change, check_price_creation, own_product, public_product,
    validate_product_create, validate_product_update, CatalogRefusal,
};
use cipherpay::api::checkout::{
    checkout, checkout_url, escape, stored_attendee, validate_checkout, CheckoutFacts,
    CheckoutRefusal, CheckoutRequest,
};
use cipherpay::api::keys::{read_key_request, revocation_reply, CreateKeyRequest, KeyRequestError};
use cipherpay::api::passkey::{
    check_reauth, friendly_name, passkey_label, Challenges,
};
use cipherpay::api::payment_links::{
    create_donation_checks, describe_link, link_url, open_link, resolve_donation, resolve_payment,
    update_checks as link_update_checks, validate_create, LinkRefusal, SellerFacts,
};
use cipherpay::api::pos::{check_pos_session, has_pin, set_pin, PosFacts, PosRefusal, SetPinRequest, VerifyPinRequest};
use cipherpay::api::system::{health, rates_health, well_known_payment, Health, RatesHealth};
use cipherpay::api::x402::{default_protocol, protocol_of, HistoryQuery};
use cipherpay::api::Lookup;
use cipherpay::api_keys::{KeyType, RevokeOutcome};
use cipherpay::billing::Block;
use cipherpay::clock::Moment;
use cipherpay::crypto::{decrypt, decrypt_webhook_secret};
use cipherpay::db::{
    interrupted_message, plan_migration, validate_schema_state, MigrationPlan, MigrationRecord,
    SchemaError, TableInfo,
};
use cipherpay::json::{Json, JsonNumber};
use cipherpay::merchants::{hash_key, CreateMerchantRequest};
use cipherpay::payment_links::{
    CreateDonationLinkRequest, CreatePaymentLinkRequest, DonationConfig, PaymentLink,
    UpdatePaymentLinkRequest,
};
use cipherpay::prices::Price;
use cipherpay::products::{CreateProductRequest, Product, UpdateProductRequest};
use cipherpay::scanner::metrics::ScannerMetrics;
use cipherpay::validation::{CheckKind, FieldCheck, ValidationError};

fn accept(_: &FieldCheck) -> Result<(), ValidationError> {
    Ok(())
}

fn refuse(c: &FieldCheck) -> Result<(), ValidationError> {
    Err(ValidationError::invalid(c.field, "refused"))
}

fn some(s: &str) -> Option<String> {
    Some(s.to_string())
}

fn fields(checks: &[FieldCheck]) -> Vec<(&'static str, CheckKind)> {
    checks.iter().map(|c| (c.field, c.kind)).collect()
}

// ---------------------------------------------------------------------------
// Authentication
// ---------------------------------------------------------------------------

#[test]
fn keys_are_read_from_headers() {
    assert_eq!(extract_api_key(Some("Bearer  cpay_x ")), some("cpay_x"));
    assert_eq!(extract_api_key(Some(" cpay_x")), some("cpay_x"));
    assert_eq!(extract_api_key(Some("Bearer  ")), None);
    assert_eq!(extract_api_key(None), None);
    assert_eq!(extract_session_id(Some("a"), Some("b")), some("a"));
    assert_eq!(extract_session_id(None, Some("b")), some("b"));
    assert_eq!(extract_session_id(Some(""), Some("b")), None);
    assert_eq!(default_protocol(), "x402");
    assert_eq!(protocol_of("mpp"), "mpp");
    assert_eq!(protocol_of("else"), "x402");
}

#[test]
fn restricted_keys_manage_no_account() {
    assert!(require_full(Some(KeyKind::Session)).is_ok());
    assert!(require_full(Some(KeyKind::Full)).is_ok());
    assert_eq!(require_full(Some(KeyKind::Restricted)), Err(AccessError::RestrictedKey));
    assert_eq!(require_full(None), Err(AccessError::NotAuthenticated));
    let key = Some("Bearer cpay_rk_1");
    assert_eq!(
        require_full_or_session(key, Some((1, KeyKind::Restricted)), Some(2)),
        Err(AccessError::RestrictedKey)
    );
    assert_eq!(require_full_or_session(key, Some((1, KeyKind::Full)), None), Ok(1));
    assert_eq!(require_full_or_session(key, None, Some(2)), Err(AccessError::NotAuthenticated));
    assert_eq!(require_full_or_session(None, Some((1, KeyKind::Full)), Some(2)), Ok(2));
    assert_eq!(require_api_key_or_session(true, Some(1), Some(2)), Ok(2));
    assert_eq!(require_api_key_or_session(true, Some(1), None), Ok(1));
    assert_eq!(
        require_api_key_or_session::<i32>(true, None, None),
        Err(AccessError::InvalidApiKey)
    );
    assert_eq!(
        require_api_key_or_session(false, Some(1), None),
        Err(AccessError::NotAuthenticated)
    );
    assert_eq!(AccessError::RestrictedKey.reply().0, 403);
}

#[test]
fn admin_key_has_to_be_the_same() {
    assert!(authenticate_admin(Some("secret"), Some("secret")));
    assert!(!authenticate_admin(Some("secret"), Some("Secret")));
    assert!(!authenticate_admin(Some(""), Some("")));
    assert!(!authenticate_admin(None, Some("secret")));
    assert!(!authenticate_admin(Some("secret"), None));
}

#[test]
fn cookies_are_bound_to_the_host_where_they_can_be() {
    let c = build_session_cookie("v", false, None, None, false);
    assert_eq!((c.name, c.secure, c.max_age_secs), ("__Host-cpay_session", true, 86_400));
    let c = build_session_cookie("v", true, None, Some("http://localhost"), true);
    assert_eq!((c.name, c.secure, c.max_age_secs), ("cpay_session", false, 0));
    let c = build_session_cookie("v", true, Some("x.app"), None, false);
    assert_eq!((c.name, c.secure, c.domain), ("cpay_session", true, some("x.app")));
    let c = build_session_cookie("v", true, None, Some("https://x.app"), false);
    assert_eq!((c.name, c.domain), ("__Host-cpay_session", None));
    let s = DashboardSession::open("m", 24, 1_767_225_600);
    assert_eq!(s.expires_at, "2026-01-02T00:00:00Z");
    assert!(s.is_live("2026-01-01T23:59:59Z"));
    assert!(!s.is_live("2026-01-02T00:00:00Z"));
    assert_eq!(s.id.len(), 36);
}

#[test]
fn secrets_are_masked() {
    assert_eq!(mask_secret("whsec_1234567890"), "whsec_123456...");
    assert_eq!(mask_secret("short"), "***");
    assert_eq!(mask_secret(""), "");
    assert_eq!(mask_email("alice@example.com"), "al***@example.com");
    assert_eq!(mask_email("a@example.com"), "a@example.com");
    assert_eq!(mask_email("nonsense"), "***");
    assert_eq!(page(None, None), (50, 0));
    assert_eq!(page(Some(500), Some(7)), (200, 7));
    assert_eq!(HistoryQuery { limit: Some(900), offset: Some(-4) }.page(), (200, 0));
    assert_eq!(HistoryQuery { limit: None, offset: Some(4) }.page(), (50, 4));
    assert_eq!(recovery_wait_millis(500), 1_500);
    assert_eq!(recovery_wait_millis(2_500), 0);
}

fn no_update() -> UpdateMerchantRequest {
    UpdateMerchantRequest {
        name: None,
        webhook_url: None,
        recovery_email: None,
        luma_api_key: None,
    }
}

#[test]
fn account_is_changed_as_asked() {
    let key = "e".repeat(64);
    let mut p = AccountProfile {
        name: "old".to_string(),
        webhook_url: some("https://old"),
        recovery_email: some("stored"),
        recovery_email_hash: some("index"),
        luma_api_key: some("stored"),
    };
    let mut req = no_update();
    req.name = some("new");
    req.webhook_url = some("");
    req.recovery_email = some("a@b.c");
    assert!(p.update(&req, &key, "index1").is_ok());
    assert_eq!(p.recovery_email_hash, some("index1"));
    assert_eq!((p.name.as_str(), p.webhook_url.clone()), ("new", None));
    assert_eq!(decrypt_webhook_secret(&p.recovery_email.clone().unwrap(), &key).unwrap(), "a@b.c");
    assert_eq!(p.luma_api_key, some("stored"));
    let mut req = no_update();
    req.name = some("newer");
    req.recovery_email = some("x@y.z");
    req.luma_api_key = some("");
    assert!(p.update(&req, "bad key", "index2").is_err());
    assert_eq!(p.recovery_email_hash, some("index1"));
    assert_eq!(p.name, "newer");
    assert_eq!(p.luma_api_key, some("stored"));
    assert!(p.update(&req, "", "index2").is_ok());
    assert_eq!((p.recovery_email.clone(), p.luma_api_key.clone()), (some("x@y.z"), None));
    assert_eq!(p.recovery_email_hash, some("index2"));
    assert!(p.update(&no_update(), "", "index3").is_ok());
    assert_eq!(p.recovery_email_hash, some("index2"));
    req.recovery_email = some("");
    assert!(p.update(&req, "", "index3").is_ok());
    assert_eq!((p.recovery_email, p.recovery_email_hash), (None, None));
    let stored = stored_or_cleared("whsec_1", &key).unwrap().unwrap();
    assert_eq!(decrypt(&stored, &key).unwrap(), "whsec_1");
    assert_eq!(stored_or_cleared("", "bad key"), Ok(None));
}

#[test]
fn account_requests_are_checked_field_by_field() {
    let mut req = no_update();
    assert!(update_checks(&req, true).is_empty());
    req.name = some("n");
    req.webhook_url = some("");
    req.recovery_email = some("e");
    assert_eq!(
        fields(&update_checks(&req, true)),
        vec![("name", CheckKind::MaxLength(100)), ("recovery_email", CheckKind::Email)]
    );
    assert!(validate_update(&req, true, accept).is_ok());
    assert!(matches!(validate_update(&req, true, refuse), Err(e) if e.field == "name"));
    let reg = CreateMerchantRequest {
        name: None,
        ufvk: "k".to_string(),
        webhook_url: None,
        email: None,
    };
    assert!(validate_registration(&reg, true, accept).is_ok());
    let network = |c: &FieldCheck| -> Result<(), ValidationError> {
        match c.kind {
            CheckKind::ViewingKeyNetwork(true) => Err(ValidationError::invalid(c.field, "net")),
            _ => Ok(()),
        }
    };
    let r = validate_registration(&reg, true, network);
    assert!(matches!(r, Err(e) if e.field == "ufvk" && e.message == "net"));
}

// ---------------------------------------------------------------------------
// Checkout
// ---------------------------------------------------------------------------

fn price() -> Price {
    Price {
        id: "price".to_string(),
        product_id: "prod".to_string(),
        currency: "EUR".to_string(),
        label: None,
        max_quantity: Some(10),
        price_type: "one_time".to_string(),
        billing_interval: None,
        interval_count: None,
        active: 1,
        created_at: String::new(),
    }
}

fn product() -> Product {
    Product {
        id: "prod".to_string(),
        merchant_id: "m".to_string(),
        slug: "tea".to_string(),
        name: "Tea".to_string(),
        description: None,
        default_price_id: some("price"),
        metadata: None,
        active: 1,
        created_at: String::new(),
    }
}

fn checkout_request() -> CheckoutRequest {
    CheckoutRequest {
        product_id: None,
        price_id: some("price"),
        variant: some("L"),
        refund_address: None,
        attendee_name: None,
        attendee_email: None,
        success_url: None,
    }
}

fn checkout_facts() -> CheckoutFacts {
    CheckoutFacts {
        price: Lookup::Found(price()),
        product: Lookup::Found(product()),
        is_luma_event: false,
        sold: 9,
        event: None,
        merchant: Lookup::Found(()),
        billing_status: None,
        has_rates: true,
        now: Moment { secs: 1_767_225_600, nanos: 0 },
    }
}

#[test]
fn checkout_orders_what_is_on_sale() {
    let order = checkout(&checkout_request(), &checkout_facts()).unwrap_or_else(|_| panic!());
    assert_eq!(order.product_id, some("prod"));
    assert_eq!(order.price_id, some("price"));
    assert_eq!(order.size, some("L"));
    assert_eq!(order.currency, some("EUR"));
}

#[test]
fn checkout_is_refused_with_a_reason() {
    let refused = |change: &dyn Fn(&mut CheckoutRequest, &mut CheckoutFacts), e: CheckoutRefusal| {
        let mut req = checkout_request();
        let mut facts = checkout_facts();
        change(&mut req, &mut facts);
        assert_eq!(checkout(&req, &facts).err(), Some(e));
    };
    let inactive_price = || Lookup::Found(Price { active: 0, ..price() });
    let inactive_product = || Lookup::Found(Product { active: 0, ..product() });
    let by_product = |r: &mut CheckoutRequest| {
        r.price_id = None;
        r.product_id = some("prod");
    };
    refused(&|_, f| f.price = inactive_price(), CheckoutRefusal::PriceInactive);
    refused(&|_, f| f.price = Lookup::Failed, CheckoutRefusal::PriceNotFound);
    refused(&|_, f| f.product = inactive_product(), CheckoutRefusal::ProductGone);
    refused(
        &|r, f| {
            by_product(r);
            f.product = inactive_product();
        },
        CheckoutRefusal::ProductInactive,
    );
    refused(
        &|r, f| {
            by_product(r);
            f.product = Lookup::Missing;
        },
        CheckoutRefusal::ProductNotFound,
    );
    refused(
        &|r, f| {
            by_product(r);
            f.product = Lookup::Found(Product { default_price_id: None, ..product() });
        },
        CheckoutRefusal::NoDefaultPrice,
    );
    refused(
        &|r, f| {
            by_product(r);
            f.price = inactive_price();
        },
        CheckoutRefusal::DefaultPriceInactive,
    );
    refused(
        &|r, f| {
            by_product(r);
            f.price = Lookup::Missing;
        },
        CheckoutRefusal::DefaultPriceNotFound,
    );
    refused(&|r, _| r.price_id = None, CheckoutRefusal::NothingNamed);
    refused(&|_, f| f.sold = 10, CheckoutRefusal::SoldOut);
    refused(
        &|_, f| f.event = Some(("cancelled".to_string(), None)),
        CheckoutRefusal::EventUnavailable,
    );
    refused(
        &|_, f| f.event = Some(("active".to_string(), some("2025-12-31T23:59"))),
        CheckoutRefusal::EventEnded,
    );
    refused(&|_, f| f.is_luma_event = true, CheckoutRefusal::EmailRequired);
    refused(
        &|r, f| {
            f.is_luma_event = true;
            r.attendee_email = some("nobody");
        },
        CheckoutRefusal::EmailInvalid,
    );
    refused(
        &|r, f| {
            f.is_luma_event = true;
            r.attendee_email = some("a@b");
            r.attendee_name = Some("n".repeat(201));
        },
        CheckoutRefusal::NameTooLong,
    );
    refused(&|_, f| f.merchant = Lookup::Missing, CheckoutRefusal::MerchantNotFound);
    refused(&|_, f| f.merchant = Lookup::Failed, CheckoutRefusal::MerchantLookupFailed);
    refused(
        &|_, f| f.billing_status = some("past_due"),
        CheckoutRefusal::BillingBlocked(Block::PastDue),
    );
    refused(&|_, f| f.has_rates = false, CheckoutRefusal::NoRates);
    let mut facts = checkout_facts();
    facts.event = Some(("active".to_string(), some("2026-01-01T00:00:00")));
    assert!(checkout(&checkout_request(), &facts).is_ok());
    assert_eq!(CheckoutRefusal::SoldOut.reply(), (409, "Sold out"));
    let detail = "This ticket tier has reached its maximum capacity";
    assert_eq!(CheckoutRefusal::SoldOut.detail(), Some(detail));
    assert_eq!(CheckoutRefusal::EventEnded.detail(), None);
    let blocked = CheckoutRefusal::BillingBlocked(Block::PastDue);
    assert_eq!(blocked.billing_status(), Some("past_due"));
}

#[test]
fn checkout_requests_are_checked() {
    let mut req = checkout_request();
    req.success_url = some("ftp://x");
    let r = validate_checkout(&req, accept);
    assert!(matches!(r, Err(e) if e.field == "success_url"));
    req.success_url = some("https://x");
    assert!(validate_checkout(&req, accept).is_ok());
    assert!(matches!(validate_checkout(&req, refuse), Err(e) if e.field == "price_id"));
    req.price_id = None;
    assert!(matches!(validate_checkout(&req, accept), Err(e) if e.field == "product_id"));
}

#[test]
fn buyer_returns_to_the_shop() {
    assert_eq!(
        escape("https://s/?a=1&b=2#c d"),
        "https://s/%3Fa%3D1%26b%3D2%23c%20d"
    );
    assert_eq!(checkout_url(None, "inv", None), "https://cipherpay.app/pay/inv");
    assert_eq!(
        checkout_url(Some("https://f"), "inv", Some("https://s?x")),
        "https://f/pay/inv?return_url=https://s%3Fx"
    );
    let key = "f".repeat(64);
    let stored = stored_attendee(Some("Ann"), &key).unwrap();
    assert_eq!(decrypt_webhook_secret(&stored, &key).unwrap(), "Ann");
    assert_eq!(stored_attendee(Some("Ann"), ""), some("Ann"));
    let stored = stored_attendee(Some("whsec_1"), &key).unwrap();
    assert_eq!(decrypt(&stored, &key).unwrap(), "whsec_1");
    assert_eq!(stored_attendee(Some(""), &key), None);
    assert_eq!(stored_attendee(Some("Ann"), "bad"), None);
    assert_eq!(stored_attendee(None, &key), None);
}

// ---------------------------------------------------------------------------
// Catalog
// ---------------------------------------------------------------------------

#[test]
fn catalog_requests_are_checked() {
    let mut req = CreateProductRequest {
        slug: None,
        name: "Tea".to_string(),
        description: None,
        amount_is_positive: true,
        currency: None,
        metadata: None,
        price_type: None,
        billing_interval: None,
        interval_count: None,
    };
    assert!(validate_product_create(&req, true, accept).is_ok());
    assert!(matches!(
        validate_product_create(&req, false, accept),
        Err(e) if e.message == "exceeds maximum of 1000000"
    ));
    req.amount_is_positive = false;
    assert!(matches!(
        validate_product_create(&req, true, accept),
        Err(e) if e.message == "must be greater than 0"
    ));
    assert!(matches!(validate_product_create(&req, true, refuse), Err(e) if e.field == "name"));
    let update = |name: Option<String>| UpdateProductRequest {
        name,
        description: None,
        default_price_id: None,
        metadata: None,
        active: None,
    };
    assert!(matches!(
        validate_product_update(&update(some("")), accept),
        Err(e) if e.message == "must not be empty"
    ));
    assert!(validate_product_update(&update(None), refuse).is_ok());
    assert!(check_price_creation(&Lookup::Found(false), true).is_ok());
    assert_eq!(
        check_price_creation(&Lookup::Found(false), false),
        Err(CatalogRefusal::AmountNotPositive)
    );
    assert_eq!(
        check_price_creation(&Lookup::Found(true), false),
        Err(CatalogRefusal::ManagedByEvent)
    );
    assert_eq!(
        check_price_change(&Lookup::Missing, &Lookup::Found(false)),
        Err(CatalogRefusal::PriceNotFound)
    );
    assert_eq!(
        check_price_change(&Lookup::Found(price()), &Lookup::Failed),
        Err(CatalogRefusal::LookupFailed)
    );
    assert!(own_product(Lookup::Found(product()), "m").is_ok());
    assert_eq!(
        own_product(Lookup::Found(product()), "n").err(),
        Some(CatalogRefusal::ProductNotFound)
    );
}

#[test]
fn buyers_see_what_is_on_sale() {
    let hidden = Product { active: 0, ..product() };
    let other = Product { id: "other".to_string(), ..product() };
    let shown = public_product(Lookup::Found(hidden), Lookup::Found(other));
    assert!(matches!(shown, Some(p) if p.id == "other"));
    assert!(public_product(Lookup::Missing, Lookup::Missing).is_none());
    let named = |id: &str, active: i32| Price { id: id.to_string(), active, ..price() };
    let kept = active_prices(vec![named("a", 1), named("b", 0), named("c", 1)]);
    let ids: Vec<&str> = kept.iter().map(|p| p.id.as_str()).collect();
    assert_eq!(ids, vec!["a", "c"]);
}

fn link(mode: &str) -> PaymentLink {
    PaymentLink {
        id: "l".to_string(),
        merchant_id: "m".to_string(),
        price_id: some("price"),
        slug: "abc".to_string(),
        name: some("Fund"),
        success_url: None,
        metadata: None,
        active: 1,
        total_created: 0,
        mode: mode.to_string(),
        donation_config: None,
        total_raised: 0,
        created_at: String::new(),
    }
}

fn donation_config() -> DonationConfig {
    DonationConfig {
        mission: None,
        thank_you: None,
        suggested_amounts: None,
        currency: "USD".to_string(),
        min_amount: Some(200),
        max_amount: Some(500),
        campaign_name: None,
        campaign_goal: None,
        cover_image_url: some(""),
        cover_image_position: None,
        contact_email: None,
        website_url: some("https://w"),
        social_share_text: None,
    }
}

fn seller(name: &str) -> SellerFacts {
    SellerFacts {
        merchant: Lookup::Found(name.to_string()),
        billing_status: None,
        has_rates: true,
    }
}

fn donation(amount: i64, currency: Option<&str>) -> Json {
    let number = Json::Number(JsonNumber { unsigned: None, signed: Some(amount) });
    let mut members = vec![("amount".to_string(), number)];
    if let Some(c) = currency {
        members.push(("currency".to_string(), Json::Text(c.to_string())));
    }
    Json::Object(members)
}

#[test]
fn donations_are_taken_within_limits() {
    let config = Some(donation_config());
    let take = |body: &Json, s: &SellerFacts| {
        resolve_donation(&link("donation"), &config, body, s)
    };
    let (amount, order) = take(&donation(250, Some("EUR")), &seller("")).unwrap_or_else(|_| panic!());
    assert_eq!(amount, 250);
    assert_eq!(order.product_name, some("Donation to Fund"));
    assert_eq!(order.currency, some("EUR"));
    let (_, order) = take(&donation(500, None), &seller("Org")).unwrap_or_else(|_| panic!());
    assert_eq!(order.product_name, some("Donation to Org"));
    assert_eq!(order.currency, some("USD"));
    let low = take(&donation(199, None), &seller("")).err().unwrap();
    assert_eq!(low.reply(), (400, "Minimum donation is 200 cents".to_string()));
    let high = take(&donation(501, None), &seller("")).err();
    assert_eq!(high, Some(LinkRefusal::AboveMaximum(500)));
    assert_eq!(take(&Json::Null, &seller("")).err(), Some(LinkRefusal::AmountRequired));
    let none = resolve_donation(&link("donation"), &None, &Json::Null, &seller(""));
    assert_eq!(none.err(), Some(LinkRefusal::InvalidConfig));
    let mut s = seller("");
    s.has_rates = false;
    assert_eq!(take(&donation(250, None), &s).err(), Some(LinkRefusal::NoRates));
    s.billing_status = some("suspended");
    assert_eq!(take(&donation(250, None), &s).err(), Some(LinkRefusal::BillingBlocked));
    s.merchant = Lookup::Missing;
    assert_eq!(take(&donation(250, None), &s).err(), Some(LinkRefusal::MerchantNotFound));
}

#[test]
fn payment_links_sell_their_price() {
    let found = Lookup::Found(price());
    let tea = Lookup::Found(product());
    let order = resolve_payment(&link("payment"), &found, &tea, &seller("")).unwrap_or_else(|_| panic!());
    assert_eq!((order.price_id, order.currency), (some("price"), some("EUR")));
    let bare = PaymentLink { price_id: None, ..link("payment") };
    assert_eq!(
        resolve_payment(&bare, &found, &tea, &seller("")).err(),
        Some(LinkRefusal::NoPrice)
    );
    assert_eq!(
        resolve_payment(&link("payment"), &Lookup::Missing, &tea, &seller("")).err(),
        Some(LinkRefusal::PriceInactive)
    );
    assert_eq!(
        resolve_payment(&link("payment"), &found, &Lookup::Failed, &seller("")).err(),
        Some(LinkRefusal::ProductUnavailable)
    );
    assert!(open_link(Lookup::Found(link("payment"))).is_ok());
    let inactive = || Lookup::Found(PaymentLink { active: 0, ..link("payment") });
    assert_eq!(open_link(inactive()).err(), Some(LinkRefusal::Inactive));
    assert_eq!(open_link(Lookup::Missing).err(), Some(LinkRefusal::NotFound));
    assert_eq!(describe_link(inactive()).err(), Some(LinkRefusal::InfoInactive));
    assert_eq!(describe_link(Lookup::Missing).err(), Some(LinkRefusal::InfoNotFound));
    assert_eq!(describe_link(Lookup::Failed).err(), Some(LinkRefusal::LookupFailed));
    assert_eq!(link_url(None, &link("donation")), "https://cipherpay.app/en/donate/abc");
    assert_eq!(link_url(Some("https://f"), &link("payment")), "https://f/link/abc");
}

#[test]
fn link_requests_are_checked_field_by_field() {
    let req = CreatePaymentLinkRequest {
        price_id: "p".to_string(),
        name: None,
        success_url: some("u"),
        metadata: None,
    };
    assert!(validate_create(&req, accept).is_ok());
    assert!(matches!(validate_create(&req, refuse), Err(e) if e.field == "price_id"));
    let donation = CreateDonationLinkRequest {
        name: "n".to_string(),
        mission: None,
        thank_you: None,
        suggested_amounts: None,
        currency: None,
        min_amount: None,
        max_amount: None,
        campaign_name: None,
        campaign_goal: None,
        cover_image_url: some("c"),
        cover_image_position: some("top"),
        contact_email: None,
        website_url: None,
        social_share_text: None,
        success_url: None,
    };
    assert_eq!(
        fields(&create_donation_checks(&donation)),
        vec![
            ("name", CheckKind::MaxLength(200)),
            ("cover_image_url", CheckKind::MaxLength(2000)),
            ("cover_image_url", CheckKind::UrlProtocol(false)),
            ("cover_image_position", CheckKind::ImagePosition),
        ]
    );
    let update = UpdatePaymentLinkRequest {
        name: None,
        success_url: some(""),
        active: None,
        metadata: None,
        donation_config: None,
    };
    assert_eq!(
        fields(&link_update_checks(&update, &Some(donation_config()))),
        vec![
            ("success_url", CheckKind::MaxLength(2000)),
            ("cover_image_url", CheckKind::MaxLength(2000)),
            ("website_url", CheckKind::MaxLength(2000)),
            ("website_url", CheckKind::UrlProtocol(true)),
        ]
    );
}

// ---------------------------------------------------------------------------
// Points of sale, keys and passkeys
// ---------------------------------------------------------------------------

#[test]
fn point_of_sale_asks_for_its_pin() {
    let set = |p: &str| set_pin(&SetPinRequest { pin: p.to_string() });
    assert_eq!(set("1234"), Ok(Some(hash_key("1234"))));
    assert_eq!(set(""), Ok(None));
    assert_eq!(set("12a4"), Err(PosRefusal::PinNotFourDigits));
    assert_eq!(set("12345"), Err(PosRefusal::PinNotFourDigits));
    assert!(has_pin(&some("h")) && !has_pin(&some("")) && !has_pin(&None));
    let check = |pin: &str, dash: bool, by_pin: Lookup<bool>, any: bool, hash: Option<String>| {
        check_pos_session(
            &VerifyPinRequest { pin: pin.to_string() },
            &PosFacts { has_dashboard: dash, by_pin, any_pin_set: any, stored_hash: hash },
        )
    };
    let hash = Some(hash_key("1234"));
    assert!(check("1234", false, Lookup::Found(true), true, hash.clone()).is_ok());
    assert!(check("1234", true, Lookup::Missing, true, hash.clone()).is_ok());
    assert!(check("1234", true, Lookup::Missing, false, None).is_ok());
    let e = check("9999", true, Lookup::Missing, true, hash.clone());
    assert_eq!(e, Err(PosRefusal::InvalidPin));
    assert_eq!(check("12", true, Lookup::Missing, true, hash), Err(PosRefusal::PinMalformed));
    let e = check("1234", false, Lookup::Missing, true, None);
    assert_eq!(e, Err(PosRefusal::InvalidPin));
    let e = check("1234", false, Lookup::Missing, false, None);
    assert_eq!(e, Err(PosRefusal::PinNotSet));
    let e = check("1234", false, Lookup::Failed, true, None);
    assert_eq!(e, Err(PosRefusal::LookupFailed));
    let e = check("1234", false, Lookup::Found(false), true, None);
    assert_eq!(e, Err(PosRefusal::InvalidPin));
    let e = check("1234", false, Lookup::Found(true), true, None);
    assert_eq!(e, Err(PosRefusal::PinNotSet));
}

#[test]
fn key_requests_are_read() {
    let req = |t: &str, l: &str| CreateKeyRequest { key_type: t.to_string(), label: l.to_string() };
    let (t, label) = read_key_request(&req("restricted", "  till "), accept).unwrap();
    assert_eq!((t, label.as_str()), (KeyType::Restricted, "till"));
    assert!(matches!(
        read_key_request(&req("other", "x"), accept),
        Err(KeyRequestError::UnknownType)
    ));
    assert!(matches!(
        read_key_request(&req("full", " "), accept),
        Err(KeyRequestError::LabelRequired)
    ));
    let invalid = read_key_request(&req("full", "x"), refuse).unwrap_err();
    assert_eq!(invalid.message(), "refused");
    assert_eq!(revocation_reply(RevokeOutcome::Revoked), (200, "revoked"));
    assert_eq!(revocation_reply(RevokeOutcome::LastFullKey).0, 409);
    assert_eq!(revocation_reply(RevokeOutcome::NotFound).0, 404);
}

#[test]
fn challenges_are_answered_once() {
    let mut c = Challenges::new();
    let now = 1_767_225_600;
    let id = c.store_challenge(Some("m"), "register", "state", now).unwrap();
    assert_eq!(c.pending[0].expires_at, "2026-01-01T00:01:00Z");
    assert!(!c.add_challenge(&id, None, "login", "s", now));
    assert!(c.consume_challenge(&id, "login", "2026-01-01T00:00:30Z").is_none());
    assert!(c.consume_challenge(&id, "register", "2026-01-01T00:01:00Z").is_none());
    let r = c.consume_challenge(&id, "register", "2026-01-01T00:00:30Z").unwrap_or_else(|| panic!());
    assert_eq!((r.merchant_id, r.state_json.as_str()), (some("m"), "state"));
    assert!(c.consume_challenge(&id, "register", "2026-01-01T00:00:30Z").is_none());
}

#[test]
fn identity_is_proved_lately() {
    let now = Moment { secs: 1_767_225_600, nanos: 5 };
    assert!(check_reauth(Some("2025-12-31T23:55:01Z"), now));
    assert!(!check_reauth(Some("2025-12-31T23:55:00Z"), now));
    assert!(!check_reauth(Some("nonsense"), now));
    assert!(!check_reauth(None, now));
    assert_eq!(passkey_label(None), "Passkey");
    assert_eq!(passkey_label(Some(&"x".repeat(70))), "x".repeat(64));
    assert_eq!(friendly_name(""), "CipherPay Merchant");
    assert_eq!(friendly_name("Shop"), "Shop");
}

// ---------------------------------------------------------------------------
// The service
// ---------------------------------------------------------------------------

#[test]
fn health_is_the_worst_of_its_parts() {
    let mut m = ScannerMetrics::new();
    m.set_last_block_height(100);
    m.set_chain_tip(100);
    let s = m.snapshot();
    assert_eq!(health(true, &s, 0, RatesHealth::Fresh), Health::Good);
    assert_eq!(health(true, &s, 3, RatesHealth::Fresh), Health::Good);
    assert_eq!(health(true, &s, 0, RatesHealth::Stale), Health::Degraded);
    assert_eq!(health(false, &s, 0, RatesHealth::Fresh), Health::Unhealthy);
    m.set_chain_tip(106);
    assert_eq!(health(true, &m.snapshot(), 0, RatesHealth::Fresh), Health::Degraded);
    m.set_chain_tip(99_999);
    assert_eq!(health(true, &m.snapshot(), 0, RatesHealth::Fresh), Health::Unhealthy);
    let fresh = ScannerMetrics::new().snapshot();
    assert_eq!(health(true, &fresh, 1, RatesHealth::Fresh), Health::Unhealthy);
    assert_eq!((Health::Unhealthy.word(), Health::Unhealthy.status()), ("unhealthy", 503));
    assert_eq!(rates_health(Some(600)), RatesHealth::Fresh);
    assert_eq!(rates_health(Some(601)), RatesHealth::Stale);
    assert_eq!(rates_health(None), RatesHealth::Unavailable);
    let d = well_known_payment(true);
    assert_eq!(d.network, "zcash:testnet");
    assert_eq!(d.settle, "https://testnet.api.cipherpay.app/api/x402/v2/settle");
}

#[test]
fn migrations_run_once() {
    assert_eq!(plan_migration(None), MigrationPlan::Run);
    let mut r = MigrationRecord::begin("x");
    assert_eq!(plan_migration(Some(&r.status)), MigrationPlan::Refuse);
    r.finish(Some("broken"));
    assert_eq!(plan_migration(Some(&r.status)), MigrationPlan::Run);
    assert_eq!(r.error_message, some("broken"));
    r.finish(None);
    assert_eq!(plan_migration(Some(&r.status)), MigrationPlan::Skip);
    assert!(interrupted_message("x").starts_with("Migration 'x' is marked as running"));
}

#[test]
fn schema_is_checked() {
    let tables = [
        "merchants", "invoices", "products", "prices", "webhook_deliveries", "fee_ledger",
        "billing_cycles", "x402_verifications", "agent_sessions", "session_requests",
        "recovery_tokens", "email_events",
    ];
    let columns = [
        "webhook_secret", "dashboard_token_hash", "recovery_email", "name", "diversifier_index",
        "trust_tier", "billing_status", "billing_started_at", "recovery_email_hash", "fee_rate",
        "fee_discount_until", "payment_address", "zcash_uri", "product_id", "refund_address",
        "price_usd", "refunded_at", "refund_txid", "currency", "orchard_receiver_hex",
        "price_zatoshis", "received_zatoshis", "event_type", "merchant_id", "response_status",
        "response_error", "fee_amount_zatoshis", "fee_rate_applied", "total_fees_zatoshis",
        "auto_collected_zatoshis", "outstanding_zatoshis", "protocol",
    ];
    let mut schema: Vec<TableInfo> = tables
        .iter()
        .map(|t| TableInfo {
            name: t.to_string(),
            columns: columns.iter().map(|c| c.to_string()).collect(),
        })
        .collect();
    assert!(validate_schema_state(&schema, "invoice_id TEXT").is_ok());
    let e = validate_schema_state(&schema, "x invoice_id TEXT NOT NULL y").unwrap_err();
    assert!(matches!(e, SchemaError::WebhookInvoiceRequired));
    schema[7].columns.pop();
    let e = validate_schema_state(&schema, "").unwrap_err();
    assert_eq!(
        e.message(),
        "Required column 'x402_verifications.protocol' is missing after migrations"
    );
    schema.pop();
    let e = validate_schema_state(&schema, "").unwrap_err();
    assert_eq!(e.message(), "Required table 'email_events' is missing after migrations");
}

#[test]
fn small_requests_are_decided() {
    assert_eq!(scanned_code(&ScanRequest { code: " T1 ".to_string() }), some("T1"));
    assert_eq!(scanned_code(&ScanRequest { code: "  ".to_string() }), None);
    assert_eq!(scan_result("m", "n", "valid", true), None);
    assert_eq!(
        scan_result("m", "m", "used", false),
        Some(ScanResult { valid: false, already_used: true, voided: false })
    );
    assert_eq!(
        scan_result("m", "m", "used", true),
        Some(ScanResult { valid: true, already_used: false, voided: false })
    );
    assert!(announces_cancellation(&CancelBody { at_period_end: None }, "canceled"));
    assert!(!announces_cancellation(&CancelBody { at_period_end: Some(true) }, "canceled"));
    let sub = |m: &str, s: &str| Lookup::Found((m.to_string(), s.to_string()));
    assert!(check_simulation(true, &sub("m", "active"), "m").is_ok());
    let e = check_simulation(true, &sub("m", "canceled"), "m").unwrap_err();
    assert_eq!(e.reply(), (400, "Subscription is canceled, not active".to_string()));
    assert!(matches!(
        check_simulation(true, &sub("n", "active"), "m"),
        Err(SimulationRefusal::ForeignSubscription)
    ));
    assert!(matches!(
        check_simulation(false, &sub("m", "active"), "m"),
        Err(SimulationRefusal::NotTestnet)
    ));
    assert!(matches!(
        check_simulation(true, &Lookup::Missing, "m"),
        Err(SimulationRefusal::NotFound)
    ));
    assert!(matches!(
        check_simulation(true, &Lookup::Failed, "m"),
        Err(SimulationRefusal::LookupFailed)
    ));
    assert!(check_deletion(false, &Lookup::Failed).is_ok());
    assert!(check_deletion(true, &Lookup::Found(false)).is_ok());
    assert_eq!(
        check_deletion(true, &Lookup::Found(true)),
        Err(DeletionRefusal::OutstandingBalance)
    );
    assert_eq!(check_deletion(true, &Lookup::Missing), Err(DeletionRefusal::LookupFailed));
}
