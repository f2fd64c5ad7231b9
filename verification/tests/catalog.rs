//! Products, prices, events, payment links, and events of the guest-list
//! service.

use cipherpay::catalog::{slugify, supported_currency, web_url};
use cipherpay::clock::Moment;
use cipherpay::crypto::encrypt;
use cipherpay::events::{
    create_event_with_product_and_prices, date_has_passed, parse_event_datetime,
    CreateEventPrice, CreateEventRequest, EventError, UpdateEventRequest,
};
use cipherpay::luma::{
    backoff_minutes, events_from_list, find_event, import_event, importable,
    is_transient_luma_error, normalize_luma_date, sync_event, ticket_type_for, ImportError,
    LumaEvent, LumaRawEvent, LumaRegistration, LumaTicketType, RegistrationStart, SyncOutcome,
    TierRow, TierStep,
};
use cipherpay::payment_links::{
    create_donation_link, create_payment_link, generate_slug, CreateDonationLinkRequest,
    CreatePaymentLinkRequest, LinkError, UpdatePaymentLinkRequest,
};
use cipherpay::prices::{
    create_price, deactivate_price, default_price_type, CreatePriceRequest, Deactivation, Price,
    PriceError, UnitAmount, UpdatePriceRequest,
};
use cipherpay::products::{
    create_product, delete_product, CreateProductRequest, DeleteOutcome, PriceRef, Product,
    ProductError, UpdateProductRequest,
};

const NOW: &str = "2026-01-01T00:00:00Z";

fn some(s: &str) -> Option<String> {
    Some(s.to_string())
}

fn moment() -> Moment {
    Moment { secs: 1_767_225_600, nanos: 0 }
}

#[test]
fn slugs_are_made_of_words() {
    assert_eq!(slugify("  Green Tea & MORE!  "), "green-tea-more");
    assert_eq!(slugify("green-tea-more"), "green-tea-more");
    assert_eq!(slugify("a -- b"), "a-b");
    assert_eq!(slugify("--"), "");
    assert_eq!(slugify("\u{c4}pfel 3"), "pfel-3");
    assert!(supported_currency("EUR"));
    assert!(!supported_currency("eur"));
    assert!(!supported_currency("XXX"));
    assert!(web_url("http://x") && web_url("https://x") && !web_url("ftp://x"));
}

fn product_request() -> CreateProductRequest {
    CreateProductRequest {
        slug: None,
        name: "Green Tea".to_string(),
        description: None,
        amount_is_positive: true,
        currency: None,
        metadata: None,
        price_type: None,
        billing_interval: None,
        interval_count: None,
    }
}

fn product() -> Product {
    create_product("m", &product_request(), NOW).unwrap_or_else(|_| panic!())
}

fn product_change() -> UpdateProductRequest {
    UpdateProductRequest {
        name: None,
        description: None,
        default_price_id: None,
        metadata: None,
        active: None,
    }
}

#[test]
fn products_are_made_and_changed() {
    let mut p = product();
    assert_eq!((p.slug.as_str(), p.active), ("green-tea", 1));
    let fails = |change: &dyn Fn(&mut CreateProductRequest), e: ProductError| {
        let mut req = product_request();
        change(&mut req);
        assert_eq!(create_product("m", &req, NOW).err(), Some(e));
    };
    fails(&|r| r.name = String::new(), ProductError::NameOrPriceMissing);
    fails(&|r| r.amount_is_positive = false, ProductError::NameOrPriceMissing);
    fails(&|r| r.slug = some("bad slug"), ProductError::InvalidSlug);
    fails(&|r| r.currency = some("XXX"), ProductError::UnsupportedCurrency);
    let mut change = product_change();
    change.name = some("Black Tea");
    assert_eq!(p.update("n", &change, &None), Err(ProductError::ForeignProduct));
    assert!(p.update("m", &change, &None).is_ok());
    assert_eq!(p.name, "Black Tea");
    change.default_price_id = some("price");
    assert_eq!(p.update("m", &change, &None), Err(ProductError::UnknownDefaultPrice));
    let foreign = Some(PriceRef { product_id: "other".to_string(), active: 1 });
    assert_eq!(p.update("m", &change, &foreign), Err(ProductError::ForeignDefaultPrice));
    let own = Some(PriceRef { product_id: p.id.clone(), active: 1 });
    assert!(p.update("m", &change, &own).is_ok());
    assert_eq!(p.default_price_id, some("price"));
    assert_eq!(delete_product(Some(&p), "m", 0), Ok(DeleteOutcome::Deleted));
    assert_eq!(delete_product(Some(&p), "m", 1), Ok(DeleteOutcome::Archived));
    assert_eq!(delete_product(None, "m", 0), Ok(DeleteOutcome::NotFound));
}

fn price_request() -> CreatePriceRequest {
    CreatePriceRequest {
        product_id: "p".to_string(),
        currency: "eur".to_string(),
        unit_amount: UnitAmount::Valid,
        label: None,
        max_quantity: None,
        price_type: None,
        billing_interval: None,
        interval_count: None,
    }
}

fn price(p: &Product) -> Price {
    create_price("m", &price_request(), Some(p), false, false, NOW).unwrap_or_else(|_| panic!())
}

#[test]
fn prices_are_made_with_a_reason_for_refusal() {
    let p = product();
    let made = price(&p);
    assert_eq!((made.currency.as_str(), made.price_type.as_str()), ("EUR", "one_time"));
    assert_eq!(default_price_type(), "one_time");
    let fails = |change: &dyn Fn(&mut CreatePriceRequest), e: PriceError| {
        let mut req = price_request();
        change(&mut req);
        assert_eq!(create_price("m", &req, Some(&p), false, false, NOW).err(), Some(e));
    };
    fails(&|r| r.currency = "xxx".to_string(), PriceError::UnsupportedCurrency);
    fails(&|r| r.unit_amount = UnitAmount::NotPositive, PriceError::AmountNotPositive);
    fails(&|r| r.unit_amount = UnitAmount::AboveMaximum, PriceError::AmountTooLarge);
    fails(&|r| r.max_quantity = Some(0), PriceError::QuantityNotPositive);
    fails(&|r| r.price_type = some("rent"), PriceError::InvalidType);
    fails(&|r| r.price_type = some("recurring"), PriceError::IntervalRequired);
    fails(
        &|r| {
            r.price_type = some("recurring");
            r.billing_interval = some("hour");
        },
        PriceError::InvalidInterval,
    );
    fails(
        &|r| {
            r.price_type = some("recurring");
            r.billing_interval = some("month");
            r.interval_count = Some(366);
        },
        PriceError::InvalidIntervalCount,
    );
    let e = create_price("n", &price_request(), Some(&p), false, false, NOW).err();
    assert_eq!(e, Some(PriceError::ForeignProduct));
    let e = create_price("m", &price_request(), None, false, false, NOW).err();
    assert_eq!(e, Some(PriceError::ProductNotFound));
    let e = create_price("m", &price_request(), Some(&p), true, false, NOW).err();
    assert_eq!(e, Some(PriceError::AlreadyPriced));
    assert!(create_price("m", &price_request(), Some(&p), true, true, NOW).is_ok());
}

#[test]
fn last_price_stays() {
    let mut p = product();
    let mut it = price(&p);
    p.set_default_price(&it.id);
    let take = |it: Option<&Price>, p: &Product, n: i64, other: Option<String>| {
        deactivate_price(it, Some(p), "m", n, other)
    };
    assert!(matches!(take(Some(&it), &p, 1, None), Err(PriceError::LastActivePrice)));
    assert!(matches!(take(Some(&it), &p, 2, None), Err(PriceError::OnlyActivePrice)));
    let d = take(Some(&it), &p, 2, some("next"));
    assert!(matches!(d, Ok(Deactivation::Deactivate(Some(n))) if n == "next"));
    assert!(matches!(take(None, &p, 2, None), Ok(Deactivation::NotFound)));
    p.default_price_id = None;
    assert!(matches!(take(Some(&it), &p, 2, None), Ok(Deactivation::Deactivate(None))));
    it.active = 0;
    assert!(matches!(take(Some(&it), &p, 2, None), Ok(Deactivation::AlreadyInactive)));
    let change = UpdatePriceRequest {
        unit_amount: UnitAmount::Valid,
        currency: some("usd"),
        label: None,
        max_quantity: Some(5),
        price_type: None,
        billing_interval: None,
        interval_count: None,
    };
    assert!(it.update("m", &change, Some(&p), false, false).is_ok());
    assert_eq!((it.currency.as_str(), it.max_quantity), ("USD", Some(5)));
    assert_eq!(
        it.update("n", &change, Some(&p), false, false),
        Err(PriceError::ForeignPrice)
    );
}

fn event_request() -> CreateEventRequest {
    CreateEventRequest {
        title: "  Concert ".to_string(),
        description: None,
        event_date: some("2026-05-01T20:00"),
        event_location: None,
        prices: vec![CreateEventPrice {
            currency: "eur".to_string(),
            amount_is_positive: true,
            label: some("Early"),
            max_quantity: Some(100),
        }],
    }
}

#[test]
fn events_come_with_product_and_prices() {
    let plan = create_event_with_product_and_prices("m", &event_request(), NOW)
        .unwrap_or_else(|_| panic!());
    assert_eq!(plan.event.title, "  Concert ");
    assert_eq!(plan.slug, "concert");
    assert_eq!(plan.tiers[0].currency, "EUR");
    assert_eq!(plan.default_price_id, plan.tiers[0].price_id);
    assert_eq!(plan.event.status, "active");
    let fails = |change: &dyn Fn(&mut CreateEventRequest), e: EventError| {
        let mut req = event_request();
        change(&mut req);
        assert_eq!(create_event_with_product_and_prices("m", &req, NOW).err(), Some(e));
    };
    fails(&|r| r.title = "  ".to_string(), EventError::TitleRequired);
    fails(&|r| r.title = "x".repeat(201), EventError::TitleTooLong);
    fails(&|r| r.event_date = some("tomorrow"), EventError::DateInvalid);
    fails(&|r| r.prices.clear(), EventError::PriceRequired);
    fails(&|r| r.prices[0].currency = "xx".to_string(), EventError::UnsupportedCurrency(0));
    fails(&|r| r.prices[0].amount_is_positive = false, EventError::AmountNotPositive(0));
    fails(&|r| r.prices[0].max_quantity = Some(0), EventError::QuantityNotPositive(0));
    assert_eq!(EventError::TitleRequired.create_status(), 400);
    let mut e = plan.event;
    let change = UpdateEventRequest {
        title: some("Opera"),
        description: None,
        event_date: None,
        event_location: some("Hall"),
    };
    assert!(e.update(&change).is_ok());
    assert_eq!(e.title, "Opera");
    assert_eq!(e.context().unwrap_or_else(|| panic!()).event_location, some("Hall"));
    assert!(!e.mark_past("2026-04-30T00:00:00"));
    assert!(e.mark_past("2026-05-02T00:00:00"));
    assert_eq!(e.status, "past");
    e.archive();
    assert_eq!(e.update(&change), Err(EventError::Cancelled));
}

#[test]
fn event_dates_are_read_in_several_forms() {
    let midnight = parse_event_datetime("2026-01-01T00:00:00Z");
    assert_eq!(midnight, Some(moment()));
    assert_eq!(parse_event_datetime("2026-01-01T00:00"), midnight);
    assert_eq!(parse_event_datetime("2026-01-01T00:00:00.000Z"), midnight);
    assert_eq!(parse_event_datetime("soon"), None);
    assert!(date_has_passed(Some("2025-12-31T23:59"), moment()));
    assert!(!date_has_passed(Some("2026-01-01T00:00"), moment()));
    assert!(!date_has_passed(None, moment()));
    assert_eq!(normalize_luma_date("2026-04-01T15:00:00.000Z"), some("2026-04-01T15:00"));
}

fn donation_request() -> CreateDonationLinkRequest {
    CreateDonationLinkRequest {
        name: "Fund".to_string(),
        mission: None,
        thank_you: None,
        suggested_amounts: None,
        currency: None,
        min_amount: None,
        max_amount: None,
        campaign_name: None,
        campaign_goal: None,
        cover_image_url: None,
        cover_image_position: None,
        contact_email: None,
        website_url: None,
        social_share_text: None,
        success_url: None,
    }
}

#[test]
fn links_are_made_with_a_reason_for_refusal() {
    let mut p = product();
    let req = CreatePaymentLinkRequest {
        price_id: "price".to_string(),
        name: None,
        success_url: None,
        metadata: None,
    };
    let mut link = create_payment_link("m", &req, Some(1), Some(&p), NOW).unwrap_or_else(|_| panic!());
    assert_eq!(link.name, some("Green Tea"));
    assert!(!link.is_donation());
    assert!(generate_slug().starts_with("pl_"));
    assert_eq!(link.slug.len(), 15);
    let fails = |active: Option<i32>, p: Option<&Product>, m: &str, e: LinkError| {
        assert_eq!(create_payment_link(m, &req, active, p, NOW).err(), Some(e));
    };
    fails(None, Some(&p), "m", LinkError::PriceNotFound);
    fails(Some(0), Some(&p), "m", LinkError::PriceInactive);
    fails(Some(1), None, "m", LinkError::ProductNotFound);
    fails(Some(1), Some(&p), "n", LinkError::ForeignPrice);
    p.active = 0;
    fails(Some(1), Some(&p), "m", LinkError::ProductInactive);
    link.increment_created();
    link.increment_raised(250);
    assert_eq!((link.total_created, link.total_raised), (1, 250));
    let change = UpdatePaymentLinkRequest {
        name: some("Tea link"),
        success_url: None,
        active: Some(false),
        metadata: None,
        donation_config: None,
    };
    assert_eq!(link.update("n", &change), Err(LinkError::ForeignLink));
    assert!(link.update("m", &change).is_ok());
    assert_eq!(link.active, 0);
    let (d, config) = create_donation_link("m", &donation_request(), NOW).unwrap_or_else(|_| panic!());
    assert!(d.is_donation());
    assert!(config.effective_min() <= config.effective_max());
    let fails = |change: &dyn Fn(&mut CreateDonationLinkRequest), e: LinkError| {
        let mut req = donation_request();
        change(&mut req);
        assert_eq!(create_donation_link("m", &req, NOW).err(), Some(e));
    };
    fails(&|r| r.name = " ".to_string(), LinkError::NameRequired);
    fails(&|r| r.cover_image_url = some("http://x"), LinkError::InvalidCoverUrl);
    fails(&|r| r.website_url = some("x"), LinkError::InvalidWebsiteUrl);
    fails(&|r| r.success_url = some("x"), LinkError::InvalidSuccessUrl);
    fails(&|r| r.campaign_name = some("c"), LinkError::GoalRequired);
}

fn luma_event(id: &str, start: Option<&str>) -> LumaEvent {
    LumaEvent {
        api_id: id.to_string(),
        name: "Meetup".to_string(),
        start_at: start.map(str::to_string),
        end_at: None,
        cover_url: None,
        url: some("https://lu.ma/x"),
        timezone: None,
        full_address: some("Hall"),
    }
}

fn ticket_type(id: &str, name: &str) -> LumaTicketType {
    LumaTicketType {
        api_id: id.to_string(),
        name: some(name),
        currency: some("eur"),
        max_capacity: Some(10),
    }
}

#[test]
fn guest_list_events_are_imported_once() {
    let events = vec![luma_event("a", Some("2026-04-01T15:00:00.000Z"))];
    let types = vec![ticket_type("t1", "Early")];
    let req = import_event(false, &events, "a", &types).unwrap_or_else(|_| panic!());
    assert_eq!(req.title, "Meetup");
    assert_eq!(req.event_date, some("2026-04-01T15:00"));
    assert_eq!(req.prices.len(), 1);
    assert_eq!(req.prices[0].currency, "EUR");
    let e = import_event(true, &events, "a", &types).err();
    assert_eq!(e, Some(ImportError::AlreadyImported));
    let e = import_event(false, &events, "b", &types).err();
    assert_eq!(e, Some(ImportError::NotFound));
    let e = import_event(false, &events, "a", &vec![]).err();
    assert_eq!(e, Some(ImportError::NoTicketTypes));
    assert!(importable(&events[0], &vec![], moment()));
    assert!(!importable(&events[0], &vec!["a".to_string()], moment()));
    assert!(!importable(&luma_event("b", Some("2025-12-01T00:00")), &vec![], moment()));
    assert_eq!(find_event(&events, "a"), Some(0));
    let raw = LumaRawEvent {
        api_id: some("a"),
        name: None,
        start_at: None,
        end_at: None,
        cover_url: None,
        url: None,
        timezone: None,
        full_address: None,
    };
    assert_eq!(events_from_list(&vec![Some(raw), None]).len(), 1);
}

#[test]
fn guest_list_events_are_kept_in_step() {
    let events = vec![luma_event("a", Some("2026-04-01T15:00:00Z"))];
    let types = vec![ticket_type("t1", "Early"), ticket_type("t2", "Late")];
    let tier = |id: &str, ticket: Option<&str>| TierRow {
        price_id: id.to_string(),
        label: None,
        luma_ticket_type_id: ticket.map(str::to_string),
    };
    let tiers = vec![tier("p1", Some("t1")), tier("p2", Some("gone"))];
    match sync_event(Some("a"), &events, &types, &tiers, moment()) {
        SyncOutcome::Apply(plan) => {
            assert!(matches!(plan.tiers[0], TierStep::Update(0)));
            assert!(matches!(plan.tiers[1], TierStep::Add));
            assert_eq!(plan.deactivate, vec![false, true]);
            assert_eq!((plan.synced, plan.added, plan.deactivated), (1, 1, 1));
        }
        _ => panic!("the event has to be brought in step"),
    }
    assert!(matches!(
        sync_event(None, &events, &types, &tiers, moment()),
        SyncOutcome::NotLinked
    ));
    assert!(matches!(
        sync_event(Some("b"), &events, &types, &tiers, moment()),
        SyncOutcome::Cancel
    ));
    let past = vec![luma_event("a", Some("2025-04-01T15:00:00Z"))];
    assert!(matches!(
        sync_event(Some("a"), &past, &types, &tiers, moment()),
        SyncOutcome::MarkPast
    ));
    let named = TierRow { label: some("Late"), ..tier("p", None) };
    assert_eq!(ticket_type_for(&named, &types), some("t2"));
    assert_eq!(ticket_type_for(&tier("p", Some("t2")), &types), None);
}

#[test]
fn registrations_are_tried_again() {
    let key = "a".repeat(64);
    let mut r = LumaRegistration {
        status: some("pending"),
        attendee_name: None,
        attendee_email: Some(encrypt("a@b.c", &key).unwrap()),
        guest_data: None,
        retry_count: None,
        retry_at: None,
    };
    let api_key = Some(encrypt("luma-key", &key).unwrap());
    match r.begin(&api_key, &key) {
        RegistrationStart::Call(k, email, name) => {
            assert_eq!((k.as_str(), email.as_str(), name), ("luma-key", "a@b.c", None));
        }
        _ => panic!("the service has to be called"),
    }
    assert!(matches!(r.begin(&None, &key), RegistrationStart::Impossible));
    r.after_error("HTTP 503", 1_767_225_600);
    assert_eq!(r.retry_at, some("2026-01-01T00:05:00"));
    assert_eq!(r.public_status(), "pending");
    assert!(r.due("confirmed", "2026-01-01T00:05:00"));
    assert!(!r.due("confirmed", "2026-01-01T00:04:59"));
    r.after_error("Connection reset", 1_767_225_600);
    assert_eq!(r.retry_at, some("2026-01-01T00:10:00"));
    r.after_error("forbidden", 1_767_225_600);
    assert_eq!(r.public_status(), "failed");
    r.complete(Some("{\"id\":1}"));
    assert!(r.attendee_email.is_none());
    assert!(matches!(r.begin(&api_key, &key), RegistrationStart::AlreadyRegistered));
    assert!(is_transient_luma_error("TIMEOUT"));
    assert!(!is_transient_luma_error("not found"));
    assert_eq!((backoff_minutes(1), backoff_minutes(4), backoff_minutes(5)), (5, 40, 60));
}
