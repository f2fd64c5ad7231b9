//! Requests about payment links: what they have to hold, and what a link leads
//! to.

use vstd::prelude::*;

use crate::api::checkout::{orders, DEFAULT_FRONTEND};
use crate::api::Lookup;
use crate::billing::{is_blocking, merchant_billing_blocked};
use crate::invoices::CreateInvoiceRequest;
use crate::json::Json;
use crate::payment_links::{
    CreateDonationLinkRequest, CreatePaymentLinkRequest, DonationConfig, PaymentLink,
    UpdatePaymentLinkRequest,
};
use crate::prices::Price;
use crate::products::Product;
use crate::text::{decimal_signed, decimal_signed_text, join2, join3, opt_str, opt_text};
use crate::validation::{
    add_given, add_if_filled, add_if_given, checks_view, given, if_filled, if_given, judged,
    no_checks, run_checks, CheckKind, CheckView, FieldCheck, ValidationError,
};

verus! {

// ---------------------------------------------------------------------------
// What requests have to hold
// ---------------------------------------------------------------------------

/// The checks that the fields of a new link have to pass.
pub open spec fn create_checks_of(req: &CreatePaymentLinkRequest) -> Seq<CheckView> {
    given("price_id"@, req.price_id@, CheckKind::MaxLength(100)) + if_given(
        "name"@,
        opt_text(req.name),
        CheckKind::MaxLength(200),
    ) + if_given("success_url"@, opt_text(req.success_url), CheckKind::MaxLength(2000))
}

/// The checks that the fields of a new link have to pass.
pub fn create_checks(req: &CreatePaymentLinkRequest) -> (r: Vec<FieldCheck>)
    ensures
        checks_view(r@) == create_checks_of(req),
{
    let mut checks: Vec<FieldCheck> = no_checks();
    add_given(&mut checks, "price_id", &req.price_id, CheckKind::MaxLength(100));
    add_if_given(&mut checks, "name", &req.name, CheckKind::MaxLength(200));
    add_if_given(&mut checks, "success_url", &req.success_url, CheckKind::MaxLength(2000));
    assert(checks_view(checks@) =~= create_checks_of(req));
    checks
}

/// Checks a request for a new link.
pub fn validate_create<F: Fn(&FieldCheck) -> Result<(), ValidationError>>(
    req: &CreatePaymentLinkRequest,
    validator: F,
) -> (r: Result<(), ValidationError>)
    requires
        forall|c: &FieldCheck| validator.requires((c,)),
    ensures
        exists|checks: Seq<FieldCheck>| #[trigger]
            checks_view(checks) == create_checks_of(req) && judged(checks, validator, r),
{
    let checks: Vec<FieldCheck> = create_checks(req);
    run_checks(&checks, validator)
}

/// The checks that the fields of a new donation link have to pass.
pub open spec fn create_donation_checks_of(req: &CreateDonationLinkRequest) -> Seq<CheckView> {
    given("name"@, req.name@, CheckKind::MaxLength(200)) + if_given(
        "mission"@,
        opt_text(req.mission),
        CheckKind::MaxLength(2000),
    ) + if_given("thank_you"@, opt_text(req.thank_you), CheckKind::MaxLength(2000)) + if_given(
        "campaign_name"@,
        opt_text(req.campaign_name),
        CheckKind::MaxLength(200),
    ) + if_given("cover_image_url"@, opt_text(req.cover_image_url), CheckKind::MaxLength(2000))
        + if_given(
        "cover_image_url"@,
        opt_text(req.cover_image_url),
        CheckKind::UrlProtocol(false),
    ) + if_given(
        "cover_image_position"@,
        opt_text(req.cover_image_position),
        CheckKind::ImagePosition,
    ) + if_given("contact_email"@, opt_text(req.contact_email), CheckKind::MaxLength(200))
        + if_given("website_url"@, opt_text(req.website_url), CheckKind::MaxLength(2000))
        + if_given("website_url"@, opt_text(req.website_url), CheckKind::UrlProtocol(true))
        + if_given(
        "social_share_text"@,
        opt_text(req.social_share_text),
        CheckKind::MaxLength(500),
    ) + if_given("success_url"@, opt_text(req.success_url), CheckKind::MaxLength(2000)) + if_given(
        "success_url"@,
        opt_text(req.success_url),
        CheckKind::UrlProtocol(true),
    )
}

/// The checks that the fields of a new donation link have to pass.
pub fn create_donation_checks(req: &CreateDonationLinkRequest) -> (r: Vec<FieldCheck>)
    ensures
        checks_view(r@) == create_donation_checks_of(req),
{
    let mut checks: Vec<FieldCheck> = no_checks();
    add_given(&mut checks, "name", &req.name, CheckKind::MaxLength(200));
    add_if_given(&mut checks, "mission", &req.mission, CheckKind::MaxLength(2000));
    add_if_given(&mut checks, "thank_you", &req.thank_you, CheckKind::MaxLength(2000));
    add_if_given(&mut checks, "campaign_name", &req.campaign_name, CheckKind::MaxLength(200));
    add_if_given(&mut checks, "cover_image_url", &req.cover_image_url, CheckKind::MaxLength(2000));
    add_if_given(
        &mut checks,
        "cover_image_url",
        &req.cover_image_url,
        CheckKind::UrlProtocol(false),
    );
    add_if_given(
        &mut checks,
        "cover_image_position",
        &req.cover_image_position,
        CheckKind::ImagePosition,
    );
    add_if_given(&mut checks, "contact_email", &req.contact_email, CheckKind::MaxLength(200));
    add_if_given(&mut checks, "website_url", &req.website_url, CheckKind::MaxLength(2000));
    add_if_given(&mut checks, "website_url", &req.website_url, CheckKind::UrlProtocol(true));
    add_if_given(
        &mut checks,
        "social_share_text",
        &req.social_share_text,
        CheckKind::MaxLength(500),
    );
    add_if_given(&mut checks, "success_url", &req.success_url, CheckKind::MaxLength(2000));
    add_if_given(&mut checks, "success_url", &req.success_url, CheckKind::UrlProtocol(true));
    assert(checks_view(checks@) =~= create_donation_checks_of(req));
    checks
}

/// Checks a request for a new donation link.
pub fn validate_create_donation<F: Fn(&FieldCheck) -> Result<(), ValidationError>>(
    req: &CreateDonationLinkRequest,
    validator: F,
) -> (r: Result<(), ValidationError>)
    requires
        forall|c: &FieldCheck| validator.requires((c,)),
    ensures
        exists|checks: Seq<FieldCheck>| #[trigger]
            checks_view(checks) == create_donation_checks_of(req) && judged(checks, validator, r),
{
    let checks: Vec<FieldCheck> = create_donation_checks(req);
    run_checks(&checks, validator)
}

/// The checks that changed donation settings have to pass.
pub open spec fn config_checks_of(config: Option<DonationConfig>) -> Seq<CheckView> {
    match config {
        None => Seq::empty(),
        Some(c) => if_given("mission"@, opt_text(c.mission), CheckKind::MaxLength(2000)) + if_given(
            "thank_you"@,
            opt_text(c.thank_you),
            CheckKind::MaxLength(2000),
        ) + if_given("campaign_name"@, opt_text(c.campaign_name), CheckKind::MaxLength(200))
            + if_given("cover_image_url"@, opt_text(c.cover_image_url), CheckKind::MaxLength(2000))
            + if_filled(
            "cover_image_url"@,
            opt_text(c.cover_image_url),
            CheckKind::UrlProtocol(false),
        ) + if_given(
            "cover_image_position"@,
            opt_text(c.cover_image_position),
            CheckKind::ImagePosition,
        ) + if_given("contact_email"@, opt_text(c.contact_email), CheckKind::MaxLength(200))
            + if_given("website_url"@, opt_text(c.website_url), CheckKind::MaxLength(2000))
            + if_filled("website_url"@, opt_text(c.website_url), CheckKind::UrlProtocol(true))
            + if_given(
            "social_share_text"@,
            opt_text(c.social_share_text),
            CheckKind::MaxLength(500),
        ),
    }
}

/// The checks that changed donation settings have to pass.
pub fn config_checks(config: &Option<DonationConfig>) -> (r: Vec<FieldCheck>)
    ensures
        checks_view(r@) == config_checks_of(*config),
{
    let mut checks: Vec<FieldCheck> = no_checks();
    match config {
        None => {},
        Some(c) => {
            add_if_given(&mut checks, "mission", &c.mission, CheckKind::MaxLength(2000));
            add_if_given(&mut checks, "thank_you", &c.thank_you, CheckKind::MaxLength(2000));
            add_if_given(&mut checks, "campaign_name", &c.campaign_name, CheckKind::MaxLength(200));
            add_if_given(
                &mut checks,
                "cover_image_url",
                &c.cover_image_url,
                CheckKind::MaxLength(2000),
            );
            add_if_filled(
                &mut checks,
                "cover_image_url",
                &c.cover_image_url,
                CheckKind::UrlProtocol(false),
            );
            add_if_given(
                &mut checks,
                "cover_image_position",
                &c.cover_image_position,
                CheckKind::ImagePosition,
            );
            add_if_given(&mut checks, "contact_email", &c.contact_email, CheckKind::MaxLength(200));
            add_if_given(&mut checks, "website_url", &c.website_url, CheckKind::MaxLength(2000));
            add_if_filled(&mut checks, "website_url", &c.website_url, CheckKind::UrlProtocol(true));
            add_if_given(
                &mut checks,
                "social_share_text",
                &c.social_share_text,
                CheckKind::MaxLength(500),
            );
        },
    }
    assert(checks_view(checks@) =~= config_checks_of(*config));
    checks
}

/// The checks that a change of a link has to pass; `config` are the donation
/// settings of the request.
pub open spec fn update_checks_of(
    req: &UpdatePaymentLinkRequest,
    config: Option<DonationConfig>,
) -> Seq<CheckView> {
    if_given("name"@, opt_text(req.name), CheckKind::MaxLength(200)) + if_given(
        "success_url"@,
        opt_text(req.success_url),
        CheckKind::MaxLength(2000),
    ) + if_filled("success_url"@, opt_text(req.success_url), CheckKind::UrlProtocol(true))
        + config_checks_of(config)
}

/// The checks that a change of a link has to pass.
pub fn update_checks(req: &UpdatePaymentLinkRequest, config: &Option<DonationConfig>) -> (r: Vec<
    FieldCheck,
>)
    ensures
        checks_view(r@) == update_checks_of(req, *config),
{
    let mut checks: Vec<FieldCheck> = no_checks();
    add_if_given(&mut checks, "name", &req.name, CheckKind::MaxLength(200));
    add_if_given(&mut checks, "success_url", &req.success_url, CheckKind::MaxLength(2000));
    add_if_filled(&mut checks, "success_url", &req.success_url, CheckKind::UrlProtocol(true));
    let mut rest: Vec<FieldCheck> = config_checks(config);
    let ghost first = checks@;
    let ghost second = rest@;
    checks.append(&mut rest);
    assert(checks_view(checks@) =~= checks_view(first) + checks_view(second));
    assert(checks_view(checks@) =~= update_checks_of(req, *config));
    checks
}

/// Checks a change of a link.
pub fn validate_update<F: Fn(&FieldCheck) -> Result<(), ValidationError>>(
    req: &UpdatePaymentLinkRequest,
    config: &Option<DonationConfig>,
    validator: F,
) -> (r: Result<(), ValidationError>)
    requires
        forall|c: &FieldCheck| validator.requires((c,)),
    ensures
        exists|checks: Seq<FieldCheck>| #[trigger]
            checks_view(checks) == update_checks_of(req, *config) && judged(checks, validator, r),
{
    let checks: Vec<FieldCheck> = update_checks(req, config);
    run_checks(&checks, validator)
}

// ---------------------------------------------------------------------------
// What a link leads to
// ---------------------------------------------------------------------------

/// Why a link leads to no invoice.
#[derive(Debug, Clone, Copy, PartialEq, Eq, Structural)]
pub enum LinkRefusal {
    Inactive,
    NotFound,
    InfoInactive,
    InfoNotFound,
    LookupFailed,
    InvalidConfig,
    AmountRequired,
    BelowMinimum(i64),
    AboveMaximum(i64),
    NoPrice,
    PriceInactive,
    ProductUnavailable,
    MerchantNotFound,
    BillingBlocked,
    NoRates,
}

impl LinkRefusal {
    pub open spec fn spec_reply(self) -> (u16, Seq<char>) {
        match self {
            LinkRefusal::Inactive => (410, "This payment link is no longer active"@),
            LinkRefusal::NotFound => (404, "Payment link not found"@),
            LinkRefusal::InfoInactive => (410, "This link is no longer active"@),
            LinkRefusal::InfoNotFound => (404, "Link not found"@),
            LinkRefusal::LookupFailed => (500, "Internal error"@),
            LinkRefusal::InvalidConfig => (500, "Donation link has invalid configuration"@),
            LinkRefusal::AmountRequired => (400, "amount is required (in cents)"@),
            LinkRefusal::BelowMinimum(m) => (
                400,
                "Minimum donation is "@ + decimal_signed(m as int) + " cents"@,
            ),
            LinkRefusal::AboveMaximum(m) => (
                400,
                "Maximum donation is "@ + decimal_signed(m as int) + " cents"@,
            ),
            LinkRefusal::NoPrice => (410, "Payment link has no price configured"@),
            LinkRefusal::PriceInactive => (
                410,
                "Price associated with this link is no longer active"@,
            ),
            LinkRefusal::ProductUnavailable => (
                410,
                "Product associated with this link is no longer available"@,
            ),
            LinkRefusal::MerchantNotFound => (500, "Merchant not found"@),
            LinkRefusal::BillingBlocked => (402, "Merchant account has outstanding fees"@),
            LinkRefusal::NoRates => (503, "Price feed unavailable"@),
        }
    }

    /// The HTTP status and the message.
    pub fn reply(&self) -> (r: (u16, String))
        ensures
            (r.0, r.1@) == self.spec_reply(),
    {
        match self {
            LinkRefusal::Inactive => (410, "This payment link is no longer active".to_string()),
            LinkRefusal::NotFound => (404, "Payment link not found".to_string()),
            LinkRefusal::InfoInactive => (410, "This link is no longer active".to_string()),
            LinkRefusal::InfoNotFound => (404, "Link not found".to_string()),
            LinkRefusal::LookupFailed => (500, "Internal error".to_string()),
            LinkRefusal::InvalidConfig => (
                500,
                "Donation link has invalid configuration".to_string(),
            ),
            LinkRefusal::AmountRequired => (400, "amount is required (in cents)".to_string()),
            LinkRefusal::BelowMinimum(m) => {
                let n: String = decimal_signed_text(*m);
                (400, join3("Minimum donation is ", n.as_str(), " cents"))
            },
            LinkRefusal::AboveMaximum(m) => {
                let n: String = decimal_signed_text(*m);
                (400, join3("Maximum donation is ", n.as_str(), " cents"))
            },
            LinkRefusal::NoPrice => (410, "Payment link has no price configured".to_string()),
            LinkRefusal::PriceInactive => (
                410,
                "Price associated with this link is no longer active".to_string(),
            ),
            LinkRefusal::ProductUnavailable => (
                410,
                "Product associated with this link is no longer available".to_string(),
            ),
            LinkRefusal::MerchantNotFound => (500, "Merchant not found".to_string()),
            LinkRefusal::BillingBlocked => (
                402,
                "Merchant account has outstanding fees".to_string(),
            ),
            LinkRefusal::NoRates => (503, "Price feed unavailable".to_string()),
        }
    }
}

/// The link that is to be resolved, where it is active.
pub fn open_link(link: Lookup<PaymentLink>) -> (r: Result<PaymentLink, LinkRefusal>)
    ensures
        match link {
            Lookup::Found(l) => if l.active == 1 {
                r == Ok::<PaymentLink, LinkRefusal>(l)
            } else {
                r == Err::<PaymentLink, LinkRefusal>(LinkRefusal::Inactive)
            },
            Lookup::Missing => r == Err::<PaymentLink, LinkRefusal>(LinkRefusal::NotFound),
            Lookup::Failed => r == Err::<PaymentLink, LinkRefusal>(LinkRefusal::LookupFailed),
        },
{
    match link {
        Lookup::Found(l) => if l.active == 1 {
            Ok(l)
        } else {
            Err(LinkRefusal::Inactive)
        },
        Lookup::Missing => Err(LinkRefusal::NotFound),
        Lookup::Failed => Err(LinkRefusal::LookupFailed),
    }
}

/// The link that is to be described, where it is active.
pub fn describe_link(link: Lookup<PaymentLink>) -> (r: Result<PaymentLink, LinkRefusal>)
    ensures
        match link {
            Lookup::Found(l) => if l.active == 1 {
                r == Ok::<PaymentLink, LinkRefusal>(l)
            } else {
                r == Err::<PaymentLink, LinkRefusal>(LinkRefusal::InfoInactive)
            },
            Lookup::Missing => r == Err::<PaymentLink, LinkRefusal>(LinkRefusal::InfoNotFound),
            Lookup::Failed => r == Err::<PaymentLink, LinkRefusal>(LinkRefusal::LookupFailed),
        },
{
    match link {
        Lookup::Found(l) => if l.active == 1 {
            Ok(l)
        } else {
            Err(LinkRefusal::InfoInactive)
        },
        Lookup::Missing => Err(LinkRefusal::InfoNotFound),
        Lookup::Failed => Err(LinkRefusal::LookupFailed),
    }
}

/// The page of a link on the site.
pub fn link_url(frontend_url: Option<&str>, link: &PaymentLink) -> (r: String)
    ensures
        r@ == (match opt_str(frontend_url) {
            Some(u) => u,
            None => "https://cipherpay.app"@,
        }) + (if link.donates() {
            "/en/donate/"@
        } else {
            "/link/"@
        }) + link.slug@,
{
    let site: &str = match frontend_url {
        Some(u) => u,
        None => DEFAULT_FRONTEND,
    };
    let path: &str = if link.is_donation() {
        "/en/donate/"
    } else {
        "/link/"
    };
    join3(site, path, link.slug.as_str())
}

/// What was found out about the merchant of a link: the name of the merchant,
/// the billing status where fees are charged and it could be read, and whether
/// there are exchange rates.
pub struct SellerFacts {
    pub merchant: Lookup<String>,
    pub billing_status: Option<String>,
    pub has_rates: bool,
}

/// Why the merchant of a link cannot sell, if the merchant cannot.
pub open spec fn seller_error(facts: &SellerFacts) -> Option<LinkRefusal> {
    if !(facts.merchant is Found) {
        Some(LinkRefusal::MerchantNotFound)
    } else if opt_text(facts.billing_status) matches Some(s) && is_blocking(s) {
        Some(LinkRefusal::BillingBlocked)
    } else if !facts.has_rates {
        Some(LinkRefusal::NoRates)
    } else {
        None
    }
}

fn check_seller(facts: &SellerFacts) -> (r: Result<&String, LinkRefusal>)
    ensures
        match r {
            Ok(name) => seller_error(facts) is None && facts.merchant == Lookup::Found(*name),
            Err(e) => seller_error(facts) == Some(e),
        },
{
    let name: &String = match &facts.merchant {
        Lookup::Found(n) => n,
        _ => {
            return Err(LinkRefusal::MerchantNotFound);
        },
    };
    let blocked: bool = match &facts.billing_status {
        Some(s) => merchant_billing_blocked(s.as_str()),
        None => false,
    };
    if blocked {
        Err(LinkRefusal::BillingBlocked)
    } else if !facts.has_rates {
        Err(LinkRefusal::NoRates)
    } else {
        Ok(name)
    }
}

/// To whom a donation goes, in words.
pub open spec fn organization(merchant_name: Seq<char>, link_name: Option<Seq<char>>) -> Seq<char> {
    if merchant_name.len() > 0 {
        merchant_name
    } else {
        match link_name {
            Some(n) => n,
            None => "Organization"@,
        }
    }
}

/// Why a donation is refused, if it is. The amount is in cents and has to be
/// within the limits of the link.
pub open spec fn donation_refusal(
    config: Option<DonationConfig>,
    body: Json,
    facts: &SellerFacts,
) -> Option<LinkRefusal> {
    match config {
        None => Some(LinkRefusal::InvalidConfig),
        Some(c) => match body.member_i64("amount"@) {
            None => Some(LinkRefusal::AmountRequired),
            Some(a) => if a < c.spec_min() {
                Some(LinkRefusal::BelowMinimum(c.spec_min()))
            } else if a > c.spec_max() {
                Some(LinkRefusal::AboveMaximum(c.spec_max()))
            } else {
                seller_error(facts)
            },
        },
    }
}

/// Decides a donation: the amount in cents and the invoice to make, or why none
/// is made.
pub fn resolve_donation(
    link: &PaymentLink,
    config: &Option<DonationConfig>,
    body: &Json,
    facts: &SellerFacts,
) -> (r: Result<(i64, CreateInvoiceRequest), LinkRefusal>)
    ensures
        match r {
            Err(e) => donation_refusal(*config, *body, facts) == Some(e),
            Ok((amount, req)) => {
                &&& donation_refusal(*config, *body, facts) is None
                &&& body.member_i64("amount"@) == Some(amount)
                &&& req.product_id is None
                &&& req.price_id is None
                &&& opt_text(req.product_name) == Some(
                    "Donation to "@ + organization(facts.merchant->Found_0@, opt_text(link.name)),
                )
                &&& req.size is None
                &&& opt_text(req.currency) == Some(
                    match body.member_text("currency"@) {
                        Some(c) => c,
                        None => (config->0).currency@,
                    },
                )
                &&& req.refund_address is None
            },
        },
{
    let c: &DonationConfig = match config {
        Some(c) => c,
        None => {
            return Err(LinkRefusal::InvalidConfig);
        },
    };
    let amount: i64 = match body.get_i64("amount") {
        Some(a) => a,
        None => {
            return Err(LinkRefusal::AmountRequired);
        },
    };
    if amount < c.effective_min() {
        return Err(LinkRefusal::BelowMinimum(c.effective_min()));
    }
    if amount > c.effective_max() {
        return Err(LinkRefusal::AboveMaximum(c.effective_max()));
    }
    let merchant_name: &String = match check_seller(facts) {
        Ok(n) => n,
        Err(e) => {
            return Err(e);
        },
    };
    let to: &str = if merchant_name.as_str().is_empty() {
        match &link.name {
            Some(n) => n.as_str(),
            None => "Organization",
        }
    } else {
        merchant_name.as_str()
    };
    let currency: String = match body.get_text("currency") {
        Some(s) => s.clone(),
        None => c.currency.clone(),
    };
    Ok(
        (
            amount,
            CreateInvoiceRequest {
                product_id: None,
                price_id: None,
                product_name: Some(join2("Donation to ", to)),
                size: None,
                currency: Some(currency),
                refund_address: None,
            },
        ),
    )
}

/// Why a payment through a link is refused, if it is.
pub open spec fn payment_refusal(
    link: &PaymentLink,
    price: Lookup<Price>,
    product: Lookup<Product>,
    facts: &SellerFacts,
) -> Option<LinkRefusal> {
    if link.price_id is None {
        Some(LinkRefusal::NoPrice)
    } else if !(price matches Lookup::Found(p) && p.active == 1) {
        Some(LinkRefusal::PriceInactive)
    } else if !(product matches Lookup::Found(q) && q.active == 1) {
        Some(LinkRefusal::ProductUnavailable)
    } else {
        seller_error(facts)
    }
}

/// Decides a payment through a link: the invoice to make, or why none is made.
/// `price` is the price of the link and `product` the product of the price.
pub fn resolve_payment(
    link: &PaymentLink,
    price: &Lookup<Price>,
    product: &Lookup<Product>,
    facts: &SellerFacts,
) -> (r: Result<CreateInvoiceRequest, LinkRefusal>)
    ensures
        match r {
            Err(e) => payment_refusal(link, *price, *product, facts) == Some(e),
            Ok(req) => {
                &&& payment_refusal(link, *price, *product, facts) is None
                &&& orders(&req, price->Found_0, product->Found_0)
                &&& req.size is None
                &&& req.refund_address is None
            },
        },
{
    if link.price_id.is_none() {
        return Err(LinkRefusal::NoPrice);
    }
    let p: &Price = match price {
        Lookup::Found(p) => p,
        _ => {
            return Err(LinkRefusal::PriceInactive);
        },
    };
    if p.active != 1 {
        return Err(LinkRefusal::PriceInactive);
    }
    let q: &Product = match product {
        Lookup::Found(q) => q,
        _ => {
            return Err(LinkRefusal::ProductUnavailable);
        },
    };
    if q.active != 1 {
        return Err(LinkRefusal::ProductUnavailable);
    }
    match check_seller(facts) {
        Ok(_) => {},
        Err(e) => {
            return Err(e);
        },
    }
    Ok(
        CreateInvoiceRequest {
            product_id: Some(q.id.clone()),
            price_id: Some(p.id.clone()),
            product_name: Some(q.name.clone()),
            size: None,
            currency: Some(p.currency.clone()),
            refund_address: None,
        },
    )
}

/// A donation that is taken is within the limits that the link sets.
pub proof fn donation_is_within_limits(config: DonationConfig, body: Json, facts: SellerFacts)
    requires
        donation_refusal(Some(config), body, &facts) is None,
    ensures
        body.member_i64("amount"@) matches Some(a) && config.spec_min() <= a <= config.spec_max(),
{
}

// ---------------------------------------------------------------------------
// Laws on what is asked and what is refused
// ---------------------------------------------------------------------------

/// The texts of a new payment link are held to their limits.
pub proof fn link_texts_are_limited(req: &CreatePaymentLinkRequest, c: CheckView)
    ensures
        create_checks_of(req).contains(c) <==> {
            ||| c == (CheckView {
                field: "price_id"@,
                value: req.price_id@,
                kind: CheckKind::MaxLength(100),
            })
            ||| req.name matches Some(t) && c == (CheckView {
                field: "name"@,
                value: t@,
                kind: CheckKind::MaxLength(200),
            })
            ||| req.success_url matches Some(t) && c == (CheckView {
                field: "success_url"@,
                value: t@,
                kind: CheckKind::MaxLength(2000),
            })
        },
{
    crate::validation::checks_add_up();
}

/// The texts of a new donation link are held to their limits, and its addresses
/// to their protocols: an image has to come over a secure connection.
pub proof fn donation_texts_are_limited(req: &CreateDonationLinkRequest, c: CheckView)
    ensures
        create_donation_checks_of(req).contains(c) <==> {
            ||| c == (CheckView {
                field: "name"@,
                value: req.name@,
                kind: CheckKind::MaxLength(200),
            })
            ||| req.mission matches Some(t) && c == (CheckView {
                field: "mission"@,
                value: t@,
                kind: CheckKind::MaxLength(2000),
            })
            ||| req.thank_you matches Some(t) && c == (CheckView {
                field: "thank_you"@,
                value: t@,
                kind: CheckKind::MaxLength(2000),
            })
            ||| req.campaign_name matches Some(t) && c == (CheckView {
                field: "campaign_name"@,
                value: t@,
                kind: CheckKind::MaxLength(200),
            })
            ||| req.cover_image_url matches Some(t) && c.field == "cover_image_url"@ && c.value
                == t@ && (c.kind == CheckKind::MaxLength(2000) || c.kind
                == CheckKind::UrlProtocol(false))
            ||| req.cover_image_position matches Some(t) && c == (CheckView {
                field: "cover_image_position"@,
                value: t@,
                kind: CheckKind::ImagePosition,
            })
            ||| req.contact_email matches Some(t) && c == (CheckView {
                field: "contact_email"@,
                value: t@,
                kind: CheckKind::MaxLength(200),
            })
            ||| req.website_url matches Some(t) && c.field == "website_url"@ && c.value == t@ && (
            c.kind == CheckKind::MaxLength(2000) || c.kind == CheckKind::UrlProtocol(true))
            ||| req.social_share_text matches Some(t) && c == (CheckView {
                field: "social_share_text"@,
                value: t@,
                kind: CheckKind::MaxLength(500),
            })
            ||| req.success_url matches Some(t) && c.field == "success_url"@ && c.value == t@ && (
            c.kind == CheckKind::MaxLength(2000) || c.kind == CheckKind::UrlProtocol(true))
        },
{
    crate::validation::checks_add_up();
}

/// A change of a link is held to the same limits as a new one. An address that
/// is emptied is not held to a protocol.
pub proof fn changed_texts_are_limited(
    req: &UpdatePaymentLinkRequest,
    config: Option<DonationConfig>,
    c: CheckView,
)
    ensures
        update_checks_of(req, config).contains(c) <==> {
            ||| req.name matches Some(t) && c == (CheckView {
                field: "name"@,
                value: t@,
                kind: CheckKind::MaxLength(200),
            })
            ||| req.success_url matches Some(t) && c.field == "success_url"@ && c.value == t@ && (
            c.kind == CheckKind::MaxLength(2000) || t@.len() > 0 && c.kind
                == CheckKind::UrlProtocol(true))
            ||| config_checks_of(config).contains(c)
        },
        config_checks_of(None).len() == 0,
        config matches Some(d) ==> (config_checks_of(config).contains(c) <==> {
            ||| d.mission matches Some(t) && c == (CheckView {
                field: "mission"@,
                value: t@,
                kind: CheckKind::MaxLength(2000),
            })
            ||| d.thank_you matches Some(t) && c == (CheckView {
                field: "thank_you"@,
                value: t@,
                kind: CheckKind::MaxLength(2000),
            })
            ||| d.campaign_name matches Some(t) && c == (CheckView {
                field: "campaign_name"@,
                value: t@,
                kind: CheckKind::MaxLength(200),
            })
            ||| d.cover_image_url matches Some(t) && c.field == "cover_image_url"@ && c.value == t@
                && (c.kind == CheckKind::MaxLength(2000) || t@.len() > 0 && c.kind
                == CheckKind::UrlProtocol(false))
            ||| d.cover_image_position matches Some(t) && c == (CheckView {
                field: "cover_image_position"@,
                value: t@,
                kind: CheckKind::ImagePosition,
            })
            ||| d.contact_email matches Some(t) && c == (CheckView {
                field: "contact_email"@,
                value: t@,
                kind: CheckKind::MaxLength(200),
            })
            ||| d.website_url matches Some(t) && c.field == "website_url"@ && c.value == t@ && (
            c.kind == CheckKind::MaxLength(2000) || t@.len() > 0 && c.kind
                == CheckKind::UrlProtocol(true))
            ||| d.social_share_text matches Some(t) && c == (CheckView {
                field: "social_share_text"@,
                value: t@,
                kind: CheckKind::MaxLength(500),
            })
        }),
{
    crate::validation::checks_add_up();
}

/// A seller has to be there, in good standing, and to have rates.
pub proof fn seller_is_in_good_standing(facts: &SellerFacts)
    ensures
        ({
            let e = seller_error(facts);
            let blocked = facts.billing_status matches Some(s) && (s@ == "past_due"@ || s@
                == "suspended"@);
            &&& !(facts.merchant is Found) <==> e == Some(LinkRefusal::MerchantNotFound)
            &&& facts.merchant is Found && blocked <==> e == Some(LinkRefusal::BillingBlocked)
            &&& facts.merchant is Found && !blocked && !facts.has_rates <==> e == Some(
                LinkRefusal::NoRates,
            )
            &&& facts.merchant is Found && !blocked && facts.has_rates <==> e is None
        }),
{
}

/// A donation is taken from the smallest amount to the largest, both included:
/// one unit of currency and ten thousand where nothing else is set up. It names
/// the limit that it misses.
pub proof fn donation_lies_between_its_limits(
    config: DonationConfig,
    body: Json,
    facts: &SellerFacts,
)
    ensures
        ({
            let e = donation_refusal(Some(config), body, facts);
            let amount = body.member_i64("amount"@);
            let least = if config.min_amount is Some {
                config.min_amount->0
            } else {
                100
            };
            let most = if config.max_amount is Some {
                config.max_amount->0
            } else {
                1_000_000
            };
            &&& amount is None <==> e == Some(LinkRefusal::AmountRequired)
            &&& amount matches Some(a) ==> {
                &&& a < least ==> e == Some(LinkRefusal::BelowMinimum(least))
                &&& a >= least && a > most ==> e == Some(LinkRefusal::AboveMaximum(most))
                &&& least <= a <= most ==> e == seller_error(facts)
            }
        }),
        donation_refusal(None, body, facts) == Some(LinkRefusal::InvalidConfig),
{
}

/// A link sells what it was made for as long as its price and its product are on
/// sale.
pub proof fn link_sells_what_is_on_sale(
    link: &PaymentLink,
    price: Lookup<Price>,
    product: Lookup<Product>,
    facts: &SellerFacts,
)
    ensures
        ({
            let e = payment_refusal(link, price, product, facts);
            let priced = price is Found && price->Found_0.active == 1;
            let sold = product is Found && product->Found_0.active == 1;
            &&& link.price_id is None <==> e == Some(LinkRefusal::NoPrice)
            &&& link.price_id is Some && !priced <==> e == Some(LinkRefusal::PriceInactive)
            &&& link.price_id is Some && priced && !sold <==> e == Some(
                LinkRefusal::ProductUnavailable,
            )
            &&& link.price_id is Some && priced && sold ==> e == seller_error(facts)
        }),
{
}

/// A donation goes to the merchant by name, else to the link by name, else to an
/// organization without one.
pub proof fn organization_has_a_name(merchant_name: Seq<char>, link_name: Option<Seq<char>>)
    ensures
        merchant_name.len() > 0 ==> organization(merchant_name, link_name) == merchant_name,
        merchant_name.len() == 0 && link_name is Some ==> organization(merchant_name, link_name)
            == link_name->0,
        merchant_name.len() == 0 && link_name is None ==> organization(merchant_name, link_name)
            == "Organization"@,
{
}

/// A request is refused with 400 where the request is at fault, with 402 where
/// the merchant owes fees, with 404 where something is not there, with 410
/// where something was there and is gone, with 500 where the service is at
/// fault, with 503 where there are no rates.
pub proof fn link_refusals_have_their_status(e: LinkRefusal)
    ensures
        e.spec_reply().0 == 400 <==> e is AmountRequired || e is BelowMinimum || e is AboveMaximum,
        e.spec_reply().0 == 402 <==> e is BillingBlocked,
        e.spec_reply().0 == 404 <==> e is NotFound || e is InfoNotFound,
        e.spec_reply().0 == 410 <==> e is Inactive || e is InfoInactive || e is NoPrice || e is PriceInactive || e is ProductUnavailable,
        e.spec_reply().0 == 500 <==> e is LookupFailed || e is InvalidConfig || e is MerchantNotFound,
        e.spec_reply().0 == 503 <==> e is NoRates,
{
}

} // verus!
