//! Checkout by the buyer: what can be bought, what a request has to hold, and
//! where the buyer goes on.

use vstd::prelude::*;

use crate::api::Lookup;
use crate::billing::{block_of, is_blocking, stored_block, Block};
use crate::catalog::{is_web_url, web_url};
use crate::clock::{parse_datetime, parsed_datetime, Moment, MINUTES_FORMAT, SECONDS_FORMAT};
use crate::crypto::is_stored_form;
use crate::invoices::CreateInvoiceRequest;
use crate::merchants::{storage_fails, stored_secret};
use crate::prices::Price;
use crate::products::Product;
use crate::text::{
    byte_len, byte_length, chars_of, contains_char, join2, join3, opt_str, opt_text, text_eq,
};
use crate::validation::{
    add_if_filled, add_if_given, checks_view, if_filled, if_given, judged, no_checks, run_checks,
    CheckKind, CheckView, FieldCheck, ValidationError,
};

verus! {

/// Where the site is, unless it is configured otherwise.
pub const DEFAULT_FRONTEND: &'static str = "https://cipherpay.app";

/// Bytes of an attendee's e-mail address at most.
pub const MAX_ATTENDEE_EMAIL: usize = 254;

/// Bytes of an attendee's name at most.
pub const MAX_ATTENDEE_NAME: usize = 200;

#[derive(Debug)]
pub struct CheckoutRequest {
    pub product_id: Option<String>,
    pub price_id: Option<String>,
    pub variant: Option<String>,
    pub refund_address: Option<String>,
    pub attendee_name: Option<String>,
    pub attendee_email: Option<String>,
    pub success_url: Option<String>,
}

// ---------------------------------------------------------------------------
// What a request has to hold
// ---------------------------------------------------------------------------

/// The checks that the fields of a checkout have to pass.
pub open spec fn checkout_checks_of(req: &CheckoutRequest) -> Seq<CheckView> {
    if_given("product_id"@, opt_text(req.product_id), CheckKind::MaxLength(100)) + if_given(
        "price_id"@,
        opt_text(req.price_id),
        CheckKind::MaxLength(100),
    ) + if_given("variant"@, opt_text(req.variant), CheckKind::MaxLength(100)) + if_filled(
        "refund_address"@,
        opt_text(req.refund_address),
        CheckKind::ZcashAddress,
    ) + if_given("success_url"@, opt_text(req.success_url), CheckKind::MaxLength(2000))
}

/// The checks that the fields of a checkout have to pass.
pub fn checkout_checks(req: &CheckoutRequest) -> (r: Vec<FieldCheck>)
    ensures
        checks_view(r@) == checkout_checks_of(req),
{
    let mut checks: Vec<FieldCheck> = no_checks();
    add_if_given(&mut checks, "product_id", &req.product_id, CheckKind::MaxLength(100));
    add_if_given(&mut checks, "price_id", &req.price_id, CheckKind::MaxLength(100));
    add_if_given(&mut checks, "variant", &req.variant, CheckKind::MaxLength(100));
    add_if_filled(&mut checks, "refund_address", &req.refund_address, CheckKind::ZcashAddress);
    add_if_given(&mut checks, "success_url", &req.success_url, CheckKind::MaxLength(2000));
    assert(checks_view(checks@) =~= checkout_checks_of(req));
    checks
}

/// Whether the address to return to, where one is given, is one of the web.
pub open spec fn return_is_web(req: &CheckoutRequest) -> bool {
    match opt_text(req.success_url) {
        Some(u) => is_web_url(u),
        None => true,
    }
}

/// Checks the fields of a checkout: a product or a price has to be named, each
/// field has to pass its check, and the address to return to has to be one of
/// the web.
pub fn validate_checkout<F: Fn(&FieldCheck) -> Result<(), ValidationError>>(
    req: &CheckoutRequest,
    validator: F,
) -> (r: Result<(), ValidationError>)
    requires
        forall|c: &FieldCheck| validator.requires((c,)),
    ensures
        if req.product_id is None && req.price_id is None {
            r matches Err(e) && e.field@ == "product_id"@ && e.message@
                == "either product_id or price_id is required"@
        } else {
            exists|checks: Seq<FieldCheck>, j: Result<(), ValidationError>|
                checks_view(checks) == checkout_checks_of(req) && #[trigger] judged(
                    checks,
                    validator,
                    j,
                ) && match j {
                    Err(e) => r == Err::<(), ValidationError>(e),
                    Ok(_) => if return_is_web(req) {
                        r is Ok
                    } else {
                        r matches Err(e) && e.field@ == "success_url"@ && e.message@
                            == "must be a valid HTTP(S) URL"@
                    },
                }
        },
{
    if req.product_id.is_none() && req.price_id.is_none() {
        return Err(
            ValidationError::invalid("product_id", "either product_id or price_id is required"),
        );
    }
    let checks: Vec<FieldCheck> = checkout_checks(req);
    let judgement: Result<(), ValidationError> = run_checks(&checks, validator);
    assert(judged(checks@, validator, judgement));
    match judgement {
        Err(e) => Err(e),
        Ok(_) => {
            let web: bool = match &req.success_url {
                Some(u) => web_url(u.as_str()),
                None => true,
            };
            if web {
                Ok(())
            } else {
                Err(ValidationError::invalid("success_url", "must be a valid HTTP(S) URL"))
            }
        },
    }
}

// ---------------------------------------------------------------------------
// What can be bought
// ---------------------------------------------------------------------------

/// Why nothing is sold.
#[derive(Debug, Clone, Copy, PartialEq, Eq, Structural)]
pub enum CheckoutRefusal {
    PriceInactive,
    PriceNotFound,
    ProductGone,
    ProductInactive,
    ProductNotFound,
    NoDefaultPrice,
    DefaultPriceInactive,
    DefaultPriceNotFound,
    NothingNamed,
    SoldOut,
    EventUnavailable,
    EventEnded,
    EmailInvalid,
    EmailRequired,
    NameTooLong,
    MerchantNotFound,
    MerchantLookupFailed,
    BillingBlocked(Block),
    NoRates,
}

impl CheckoutRefusal {
    pub open spec fn spec_reply(self) -> (u16, Seq<char>) {
        match self {
            CheckoutRefusal::PriceInactive => (400, "Price is no longer active"@),
            CheckoutRefusal::PriceNotFound => (404, "Price not found"@),
            CheckoutRefusal::ProductGone => (404, "Product not found or inactive"@),
            CheckoutRefusal::ProductInactive => (400, "Product is no longer available"@),
            CheckoutRefusal::ProductNotFound => (404, "Product not found"@),
            CheckoutRefusal::NoDefaultPrice => (400, "Product has no default price"@),
            CheckoutRefusal::DefaultPriceInactive => (
                400,
                "Product default price is no longer active"@,
            ),
            CheckoutRefusal::DefaultPriceNotFound => (400, "Product default price not found"@),
            CheckoutRefusal::NothingNamed => (400, "product_id or price_id is required"@),
            CheckoutRefusal::SoldOut => (409, "Sold out"@),
            CheckoutRefusal::EventUnavailable => (410, "Event is no longer available"@),
            CheckoutRefusal::EventEnded => (410, "Event has ended"@),
            CheckoutRefusal::EmailInvalid => (
                400,
                "Valid email is required for Luma event registration"@,
            ),
            CheckoutRefusal::EmailRequired => (
                400,
                "attendee_email is required for Luma event registration"@,
            ),
            CheckoutRefusal::NameTooLong => (400, "attendee_name must be 200 characters or fewer"@),
            CheckoutRefusal::MerchantNotFound => (500, "Merchant not found"@),
            CheckoutRefusal::MerchantLookupFailed => (500, "Internal error"@),
            CheckoutRefusal::BillingBlocked(_) => (402, "Merchant account has outstanding fees"@),
            CheckoutRefusal::NoRates => (503, "Price feed unavailable"@),
        }
    }

    /// The HTTP status and the message.
    pub fn reply(&self) -> (r: (u16, &'static str))
        ensures
            (r.0, r.1@) == self.spec_reply(),
    {
        match self {
            CheckoutRefusal::PriceInactive => (400, "Price is no longer active"),
            CheckoutRefusal::PriceNotFound => (404, "Price not found"),
            CheckoutRefusal::ProductGone => (404, "Product not found or inactive"),
            CheckoutRefusal::ProductInactive => (400, "Product is no longer available"),
            CheckoutRefusal::ProductNotFound => (404, "Product not found"),
            CheckoutRefusal::NoDefaultPrice => (400, "Product has no default price"),
            CheckoutRefusal::DefaultPriceInactive => (
                400,
                "Product default price is no longer active",
            ),
            CheckoutRefusal::DefaultPriceNotFound => (400, "Product default price not found"),
            CheckoutRefusal::NothingNamed => (400, "product_id or price_id is required"),
            CheckoutRefusal::SoldOut => (409, "Sold out"),
            CheckoutRefusal::EventUnavailable => (410, "Event is no longer available"),
            CheckoutRefusal::EventEnded => (410, "Event has ended"),
            CheckoutRefusal::EmailInvalid => (
                400,
                "Valid email is required for Luma event registration",
            ),
            CheckoutRefusal::EmailRequired => (
                400,
                "attendee_email is required for Luma event registration",
            ),
            CheckoutRefusal::NameTooLong => (400, "attendee_name must be 200 characters or fewer"),
            CheckoutRefusal::MerchantNotFound => (500, "Merchant not found"),
            CheckoutRefusal::MerchantLookupFailed => (500, "Internal error"),
            CheckoutRefusal::BillingBlocked(_) => (402, "Merchant account has outstanding fees"),
            CheckoutRefusal::NoRates => (503, "Price feed unavailable"),
        }
    }

    /// The billing status that is answered along with the refusal, if one is.
    pub fn billing_status(&self) -> (r: Option<&'static str>)
        ensures
            match (*self, r) {
                (CheckoutRefusal::BillingBlocked(b), Some(s)) => s@ == b.spec_status(),
                (CheckoutRefusal::BillingBlocked(_), None) => false,
                (_, x) => x is None,
            },
    {
        match self {
            CheckoutRefusal::BillingBlocked(b) => Some(b.status()),
            _ => None,
        }
    }

    /// What is said of the refusal beside the message, if anything is.
    pub fn detail(&self) -> (r: Option<&'static str>)
        ensures
            match (*self, r) {
                (CheckoutRefusal::SoldOut, Some(d)) => d@
                    == "This ticket tier has reached its maximum capacity"@,
                (CheckoutRefusal::SoldOut, None) => false,
                (_, x) => x is None,
            },
    {
        match self {
            CheckoutRefusal::SoldOut => Some("This ticket tier has reached its maximum capacity"),
            _ => None,
        }
    }
}

/// What was found out about a checkout. Where the request names a price,
/// `price` is that price and `product` the one it belongs to; otherwise
/// `product` is the one that is named and `price` its default price. `sold` is
/// how much of the price was sold, and `event` the status and the date of the
/// event whose tickets the product sells. The billing status is given where
/// fees are charged and it could be read.
pub struct CheckoutFacts {
    pub price: Lookup<Price>,
    pub product: Lookup<Product>,
    pub is_luma_event: bool,
    pub sold: i64,
    pub event: Option<(String, Option<String>)>,
    pub merchant: Lookup<()>,
    pub billing_status: Option<String>,
    pub has_rates: bool,
    pub now: Moment,
}

/// Why the item that a request names cannot be bought, if it cannot.
pub open spec fn item_error(
    req: &CheckoutRequest,
    price: Lookup<Price>,
    product: Lookup<Product>,
) -> Option<CheckoutRefusal> {
    if req.price_id is Some {
        match price {
            Lookup::Found(p) => if p.active != 1 {
                Some(CheckoutRefusal::PriceInactive)
            } else {
                match product {
                    Lookup::Found(q) => if q.active == 1 {
                        None
                    } else {
                        Some(CheckoutRefusal::ProductGone)
                    },
                    _ => Some(CheckoutRefusal::ProductGone),
                }
            },
            _ => Some(CheckoutRefusal::PriceNotFound),
        }
    } else if req.product_id is Some {
        match product {
            Lookup::Found(q) => if q.active != 1 {
                Some(CheckoutRefusal::ProductInactive)
            } else if q.default_price_id is None {
                Some(CheckoutRefusal::NoDefaultPrice)
            } else {
                match price {
                    Lookup::Found(p) => if p.active == 1 {
                        None
                    } else {
                        Some(CheckoutRefusal::DefaultPriceInactive)
                    },
                    _ => Some(CheckoutRefusal::DefaultPriceNotFound),
                }
            },
            _ => Some(CheckoutRefusal::ProductNotFound),
        }
    } else {
        Some(CheckoutRefusal::NothingNamed)
    }
}

/// The item that a request names, with its price.
fn choose_item<'a>(
    req: &CheckoutRequest,
    price: &'a Lookup<Price>,
    product: &'a Lookup<Product>,
) -> (r: Result<(&'a Price, &'a Product), CheckoutRefusal>)
    ensures
        match r {
            Ok(x) => item_error(req, *price, *product) is None && *price == Lookup::Found(*x.0)
                && *product == Lookup::Found(*x.1),
            Err(e) => item_error(req, *price, *product) == Some(e),
        },
{
    if req.price_id.is_some() {
        match price {
            Lookup::Found(p) => if p.active != 1 {
                Err(CheckoutRefusal::PriceInactive)
            } else {
                match product {
                    Lookup::Found(q) => if q.active == 1 {
                        Ok((p, q))
                    } else {
                        Err(CheckoutRefusal::ProductGone)
                    },
                    _ => Err(CheckoutRefusal::ProductGone),
                }
            },
            _ => Err(CheckoutRefusal::PriceNotFound),
        }
    } else if req.product_id.is_some() {
        match product {
            Lookup::Found(q) => if q.active != 1 {
                Err(CheckoutRefusal::ProductInactive)
            } else if q.default_price_id.is_none() {
                Err(CheckoutRefusal::NoDefaultPrice)
            } else {
                match price {
                    Lookup::Found(p) => if p.active == 1 {
                        Ok((p, q))
                    } else {
                        Err(CheckoutRefusal::DefaultPriceInactive)
                    },
                    _ => Err(CheckoutRefusal::DefaultPriceNotFound),
                }
            },
            _ => Err(CheckoutRefusal::ProductNotFound),
        }
    } else {
        Err(CheckoutRefusal::NothingNamed)
    }
}

/// The moment of a date with or without seconds.
pub open spec fn sale_moment(date: Seq<char>) -> Option<Moment> {
    match parsed_datetime(date, SECONDS_FORMAT@) {
        Some(m) => Some(m),
        None => parsed_datetime(date, MINUTES_FORMAT@),
    }
}

/// Why tickets of an event are no longer sold, if they are not.
pub open spec fn event_error(event: Option<(String, Option<String>)>, now: Moment) -> Option<
    CheckoutRefusal,
> {
    match event {
        None => None,
        Some(e) => if e.0@ == "cancelled"@ || e.0@ == "past"@ {
            Some(CheckoutRefusal::EventUnavailable)
        } else if opt_text(e.1) matches Some(d) && (sale_moment(d) matches Some(m) && m.before(
            now,
        )) {
            Some(CheckoutRefusal::EventEnded)
        } else {
            None
        },
    }
}

/// Whether an event is over, or called off. Where it has ended only now, the
/// event is to be marked as past and its product taken from sale.
pub fn check_event(event: &Option<(String, Option<String>)>, now: Moment) -> (r: Option<
    CheckoutRefusal,
>)
    ensures
        r == event_error(*event, now),
{
    match event {
        None => None,
        Some(e) => {
            if text_eq(e.0.as_str(), "cancelled") || text_eq(e.0.as_str(), "past") {
                return Some(CheckoutRefusal::EventUnavailable);
            }
            let ended: bool = match &e.1 {
                Some(d) => {
                    let moment: Option<Moment> = match parse_datetime(d.as_str(), SECONDS_FORMAT) {
                        Some(m) => Some(m),
                        None => parse_datetime(d.as_str(), MINUTES_FORMAT),
                    };
                    match moment {
                        Some(m) => m.is_before(now),
                        None => false,
                    }
                },
                None => false,
            };
            if ended {
                Some(CheckoutRefusal::EventEnded)
            } else {
                None
            }
        },
    }
}

/// What is wrong with the attendee of a guest-list event, if anything is.
pub open spec fn attendee_error(req: &CheckoutRequest) -> Option<CheckoutRefusal> {
    match opt_text(req.attendee_email) {
        None => Some(CheckoutRefusal::EmailRequired),
        Some(e) => if e.len() == 0 {
            Some(CheckoutRefusal::EmailRequired)
        } else if !e.contains('@') || byte_len(e) > MAX_ATTENDEE_EMAIL {
            Some(CheckoutRefusal::EmailInvalid)
        } else if opt_text(req.attendee_name) matches Some(n) && byte_len(n) > MAX_ATTENDEE_NAME {
            Some(CheckoutRefusal::NameTooLong)
        } else {
            None
        },
    }
}

/// What is wrong with the attendee of a guest-list event, if anything is.
pub fn check_attendee(req: &CheckoutRequest) -> (r: Option<CheckoutRefusal>)
    ensures
        r == attendee_error(req),
{
    match &req.attendee_email {
        None => Some(CheckoutRefusal::EmailRequired),
        Some(e) => {
            if e.as_str().is_empty() {
                return Some(CheckoutRefusal::EmailRequired);
            }
            if !contains_char(e.as_str(), '@') || byte_length(e.as_str()) > MAX_ATTENDEE_EMAIL {
                return Some(CheckoutRefusal::EmailInvalid);
            }
            let long: bool = match &req.attendee_name {
                Some(n) => byte_length(n.as_str()) > MAX_ATTENDEE_NAME,
                None => false,
            };
            if long {
                Some(CheckoutRefusal::NameTooLong)
            } else {
                None
            }
        },
    }
}

/// Why a checkout is refused, if it is.
pub open spec fn checkout_error(req: &CheckoutRequest, facts: &CheckoutFacts) -> Option<
    CheckoutRefusal,
> {
    if item_error(req, facts.price, facts.product) is Some {
        item_error(req, facts.price, facts.product)
    } else if facts.price->Found_0.max_quantity matches Some(m) && facts.sold >= m {
        Some(CheckoutRefusal::SoldOut)
    } else if event_error(facts.event, facts.now) is Some {
        event_error(facts.event, facts.now)
    } else if facts.is_luma_event && attendee_error(req) is Some {
        attendee_error(req)
    } else if facts.merchant is Missing {
        Some(CheckoutRefusal::MerchantNotFound)
    } else if facts.merchant is Failed {
        Some(CheckoutRefusal::MerchantLookupFailed)
    } else if block_of(opt_text(facts.billing_status)) is Some {
        Some(CheckoutRefusal::BillingBlocked(block_of(opt_text(facts.billing_status))->0))
    } else if !facts.has_rates {
        Some(CheckoutRefusal::NoRates)
    } else {
        None
    }
}

/// Whether an invoice is asked for a product at a price.
pub open spec fn orders(r: &CreateInvoiceRequest, price: Price, product: Product) -> bool {
    &&& opt_text(r.product_id) == Some(product.id@)
    &&& opt_text(r.price_id) == Some(price.id@)
    &&& opt_text(r.product_name) == Some(product.name@)
    &&& opt_text(r.currency) == Some(price.currency@)
}

/// Decides a checkout: the invoice to make, or why none is made.
pub fn checkout(req: &CheckoutRequest, facts: &CheckoutFacts) -> (r: Result<
    CreateInvoiceRequest,
    CheckoutRefusal,
>)
    ensures
        match r {
            Ok(x) => {
                &&& checkout_error(req, facts) is None
                &&& orders(&x, facts.price->Found_0, facts.product->Found_0)
                &&& opt_text(x.size) == opt_text(req.variant)
                &&& opt_text(x.refund_address) == opt_text(req.refund_address)
            },
            Err(e) => checkout_error(req, facts) == Some(e),
        },
{
    let (price, product) = match choose_item(req, &facts.price, &facts.product) {
        Ok(x) => x,
        Err(e) => {
            return Err(e);
        },
    };
    let sold_out: bool = match price.max_quantity {
        Some(m) => facts.sold >= m,
        None => false,
    };
    if sold_out {
        return Err(CheckoutRefusal::SoldOut);
    }
    match check_event(&facts.event, facts.now) {
        Some(e) => {
            return Err(e);
        },
        None => {},
    }
    if facts.is_luma_event {
        match check_attendee(req) {
            Some(e) => {
                return Err(e);
            },
            None => {},
        }
    }
    match &facts.merchant {
        Lookup::Missing => {
            return Err(CheckoutRefusal::MerchantNotFound);
        },
        Lookup::Failed => {
            return Err(CheckoutRefusal::MerchantLookupFailed);
        },
        Lookup::Found(_) => {},
    }
    match stored_block(&facts.billing_status) {
        Some(b) => {
            return Err(CheckoutRefusal::BillingBlocked(b));
        },
        None => {},
    }
    if !facts.has_rates {
        return Err(CheckoutRefusal::NoRates);
    }
    Ok(
        CreateInvoiceRequest {
            product_id: Some(product.id.clone()),
            price_id: Some(price.id.clone()),
            product_name: Some(product.name.clone()),
            size: req.variant.clone(),
            currency: Some(price.currency.clone()),
            refund_address: req.refund_address.clone(),
        },
    )
}

/// The stored form of what an attendee tells: nothing where nothing is told or
/// it cannot be encrypted.
pub fn stored_attendee(value: Option<&str>, encryption_key: &str) -> (r: Option<String>)
    ensures
        match (opt_str(value), r) {
            (Some(v), Some(s)) => v.len() > 0 && !storage_fails(v, encryption_key@)
                && is_stored_form(s@, v, encryption_key@),
            (None, Some(_)) => false,
            (Some(v), None) => v.len() == 0 || storage_fails(v, encryption_key@),
            (None, None) => true,
        },
{
    match value {
        None => None,
        Some(v) => {
            if v.is_empty() {
                return None;
            }
            match stored_secret(v, encryption_key) {
                Ok(s) => Some(s),
                Err(_) => None,
            }
        },
    }
}

// ---------------------------------------------------------------------------
// Where the buyer goes on
// ---------------------------------------------------------------------------

/// A character as it stands in the address to return to.
pub open spec fn escaped_char(c: char) -> Seq<char> {
    if c == '&' {
        "%26"@
    } else if c == '=' {
        "%3D"@
    } else if c == '?' {
        "%3F"@
    } else if c == '#' {
        "%23"@
    } else if c == ' ' {
        "%20"@
    } else {
        seq![c]
    }
}

/// An address as it stands in another one.
pub open spec fn escaped(s: Seq<char>) -> Seq<char>
    decreases s.len(),
{
    if s.len() == 0 {
        Seq::empty()
    } else {
        escaped(s.drop_last()) + escaped_char(s.last())
    }
}

/// Writes an address as it stands in another one.
pub fn escape(s: &str) -> (r: String)
    ensures
        r@ == escaped(s@),
{
    let x: Vec<char> = chars_of(s);
    let mut r: String = String::new();
    let mut i: usize = 0;
    assert(r@ =~= escaped(x@.take(0)));
    while i < x.len()
        invariant
            i <= x@.len(),
            x@ == s@,
            r@ == escaped(x@.take(i as int)),
        decreases x@.len() - i,
    {
        assert(x@.take(i + 1).drop_last() =~= x@.take(i as int));
        let ghost before = r@;
        let c: char = x[i];
        if c == '&' {
            r = join2(r.as_str(), "%26");
        } else if c == '=' {
            r = join2(r.as_str(), "%3D");
        } else if c == '?' {
            r = join2(r.as_str(), "%3F");
        } else if c == '#' {
            r = join2(r.as_str(), "%23");
        } else if c == ' ' {
            r = join2(r.as_str(), "%20");
        } else {
            r.push(c);
            assert(r@ =~= before + seq![c]);
        }
        i = i + 1;
    }
    assert(x@.take(i as int) =~= x@);
    r
}

/// The page on which an invoice is paid.
pub open spec fn checkout_page(
    frontend_url: Option<Seq<char>>,
    invoice_id: Seq<char>,
    success_url: Option<Seq<char>>,
) -> Seq<char> {
    let site = match frontend_url {
        Some(u) => u,
        None => DEFAULT_FRONTEND@,
    };
    let page = site + "/pay/"@ + invoice_id;
    match success_url {
        Some(u) => page + "?return_url="@ + escaped(u),
        None => page,
    }
}

/// The page on which an invoice is paid, with the address to return to.
pub fn checkout_url(frontend_url: Option<&str>, invoice_id: &str, success_url: Option<&str>) -> (r:
    String)
    ensures
        r@ == checkout_page(opt_str(frontend_url), invoice_id@, opt_str(success_url)),
{
    let site: &str = match frontend_url {
        Some(u) => u,
        None => DEFAULT_FRONTEND,
    };
    let page: String = join3(site, "/pay/", invoice_id);
    match success_url {
        Some(u) => {
            let back: String = escape(u);
            join3(page.as_str(), "?return_url=", back.as_str())
        },
        None => page,
    }
}

// ---------------------------------------------------------------------------
// Laws
// ---------------------------------------------------------------------------

/// Nothing is sold beyond its quantity, nothing that is not on sale, and no
/// ticket of an event that is over or called off.
pub proof fn only_what_is_on_sale(req: CheckoutRequest, facts: CheckoutFacts)
    requires
        checkout_error(&req, &facts) is None,
    ensures
        facts.price matches Lookup::Found(p) && p.active == 1 && (p.max_quantity matches Some(m)
            ==> facts.sold < m),
        facts.product matches Lookup::Found(q) && q.active == 1,
        facts.event matches Some(e) ==> e.0@ != "cancelled"@ && e.0@ != "past"@,
        opt_text(facts.billing_status) matches Some(s) ==> !is_blocking(s),
{
}

/// What stands in an address does not end it: no character that separates the
/// parts of an address is left in it.
pub proof fn escaped_is_one_part(s: Seq<char>)
    ensures
        forall|i: int|
            0 <= i < escaped(s).len() ==> {
                let c = #[trigger] escaped(s)[i];
                c != '&' && c != '=' && c != '?' && c != '#' && c != ' '
            },
    decreases s.len(),
{
    reveal_strlit("%26");
    reveal_strlit("%3D");
    reveal_strlit("%3F");
    reveal_strlit("%23");
    reveal_strlit("%20");
    if s.len() > 0 {
        escaped_is_one_part(s.drop_last());
        let a = escaped(s.drop_last());
        let b = escaped_char(s.last());
        assert forall|i: int| 0 <= i < escaped(s).len() implies ({
            let c = #[trigger] escaped(s)[i];
            c != '&' && c != '=' && c != '?' && c != '#' && c != ' '
        }) by {
            if i < a.len() {
                assert(escaped(s)[i] == a[i]);
            } else {
                assert(escaped(s)[i] == b[i - a.len()]);
            }
        }
    }
}

// ---------------------------------------------------------------------------
// Laws on what is asked and what is refused
// ---------------------------------------------------------------------------

/// Each text of a checkout that is given is held to its limit, and nothing else
/// is asked.
pub proof fn checkout_texts_are_limited(req: &CheckoutRequest, c: CheckView)
    ensures
        checkout_checks_of(req).contains(c) <==> {
            ||| req.product_id matches Some(t) && c == (CheckView {
                field: "product_id"@,
                value: t@,
                kind: CheckKind::MaxLength(100),
            })
            ||| req.price_id matches Some(t) && c == (CheckView {
                field: "price_id"@,
                value: t@,
                kind: CheckKind::MaxLength(100),
            })
            ||| req.variant matches Some(t) && c == (CheckView {
                field: "variant"@,
                value: t@,
                kind: CheckKind::MaxLength(100),
            })
            ||| req.refund_address matches Some(t) && t@.len() > 0 && c == (CheckView {
                field: "refund_address"@,
                value: t@,
                kind: CheckKind::ZcashAddress,
            })
            ||| req.success_url matches Some(t) && c == (CheckView {
                field: "success_url"@,
                value: t@,
                kind: CheckKind::MaxLength(2000),
            })
        },
{
    crate::validation::checks_add_up();
}

/// A buyer is sent back to a web address, or to none.
pub proof fn return_address_is_a_web_address(req: &CheckoutRequest)
    ensures
        return_is_web(req) <==> (req.success_url matches Some(u) ==> ("https://"@.is_prefix_of(u@)
            || "http://"@.is_prefix_of(u@))),
{
}

/// What is named by its price needs that price and its product, and what is
/// named by its product needs that product and its default price; each has to
/// be there and on sale. The first of these that fails is answered.
pub proof fn item_is_on_sale(
    req: &CheckoutRequest,
    price: Lookup<Price>,
    product: Lookup<Product>,
)
    ensures
        ({
            let e = item_error(req, price, product);
            let by_price = req.price_id is Some;
            let by_product = !by_price && req.product_id is Some;
            let priced = price is Found && price->Found_0.active == 1;
            let sold = product is Found && product->Found_0.active == 1;
            let default = product is Found && product->Found_0.default_price_id is Some;
            &&& e is None <==> priced && sold && (by_price || by_product && default)
            &&& !by_price && !by_product <==> e == Some(CheckoutRefusal::NothingNamed)
            &&& by_price && !(price is Found) <==> e == Some(CheckoutRefusal::PriceNotFound)
            &&& by_price && price is Found && !priced <==> e == Some(CheckoutRefusal::PriceInactive)
            &&& by_price && priced && !sold <==> e == Some(CheckoutRefusal::ProductGone)
            &&& by_product && !(product is Found) <==> e == Some(CheckoutRefusal::ProductNotFound)
            &&& by_product && product is Found && !sold <==> e == Some(
                CheckoutRefusal::ProductInactive,
            )
            &&& by_product && sold && !default <==> e == Some(CheckoutRefusal::NoDefaultPrice)
            &&& by_product && sold && default && !(price is Found) <==> e == Some(
                CheckoutRefusal::DefaultPriceNotFound,
            )
            &&& by_product && sold && default && price is Found && !priced <==> e == Some(
                CheckoutRefusal::DefaultPriceInactive,
            )
        }),
{
}

/// Places are sold up to the last one. An event sells until it is cancelled, is
/// marked as past or has begun.
pub proof fn event_sells_until_it_begins(
    event: (String, Option<String>),
    begin: Moment,
    now: Moment,
)
    requires
        event.1 matches Some(d) ==> sale_moment(d@) == Some(begin),
    ensures
        ({
            let e = event_error(Some(event), now);
            let off = event.0@ == "cancelled"@ || event.0@ == "past"@;
            let begun = event.1 is Some && (begin.secs < now.secs || begin.secs == now.secs
                && begin.nanos < now.nanos);
            &&& off <==> e == Some(CheckoutRefusal::EventUnavailable)
            &&& !off && begun <==> e == Some(CheckoutRefusal::EventEnded)
            &&& !off && !begun <==> e is None
        }),
        event_error(None, now) is None,
{
}

/// A date that cannot be read ends no sale, and of the two forms that can the
/// one with seconds goes first.
pub proof fn sale_date_has_two_forms(date: Seq<char>)
    ensures
        parsed_datetime(date, "%Y-%m-%dT%H:%M:%S"@) is Some ==> sale_moment(date)
            == parsed_datetime(date, "%Y-%m-%dT%H:%M:%S"@),
        parsed_datetime(date, "%Y-%m-%dT%H:%M:%S"@) is None ==> sale_moment(date)
            == parsed_datetime(date, "%Y-%m-%dT%H:%M"@),
{
}

/// A guest gives an address with an at sign and of 254 bytes at most, and a name
/// of 200 at most, or none.
pub proof fn guest_gives_an_address(req: &CheckoutRequest)
    ensures
        ({
            let e = attendee_error(req);
            let given = req.attendee_email is Some && req.attendee_email->0@.len() > 0;
            let valid = given && req.attendee_email->0@.contains('@') && byte_len(
                req.attendee_email->0@,
            ) <= 254;
            let short = req.attendee_name is None || byte_len(req.attendee_name->0@) <= 200;
            &&& !given <==> e == Some(CheckoutRefusal::EmailRequired)
            &&& given && !valid <==> e == Some(CheckoutRefusal::EmailInvalid)
            &&& valid && !short <==> e == Some(CheckoutRefusal::NameTooLong)
            &&& valid && short <==> e is None
        }),
{
}

/// A checkout is refused for the first of these that fails: the item, the places
/// that are left, the event, the guest, the merchant, its standing, the rates.
/// It is taken exactly where none does.
pub proof fn checkout_is_screened_in_order(req: &CheckoutRequest, facts: &CheckoutFacts)
    ensures
        ({
            let e = checkout_error(req, facts);
            let item = item_error(req, facts.price, facts.product);
            let event = event_error(facts.event, facts.now);
            let guest = attendee_error(req);
            let full = facts.price->Found_0.max_quantity is Some && facts.sold
                >= facts.price->Found_0.max_quantity->0;
            let past_due = facts.billing_status matches Some(s) && s@ == "past_due"@;
            let suspended = facts.billing_status matches Some(s) && s@ == "suspended"@;
            let sells = item is None && !full && event is None;
            let asked = sells && (!facts.is_luma_event || guest is None);
            &&& item is Some ==> e == item
            &&& item is None && full ==> e == Some(CheckoutRefusal::SoldOut)
            &&& item is None && !full && event is Some ==> e == event
            &&& sells && facts.is_luma_event && guest is Some ==> e == guest
            &&& asked && facts.merchant is Missing ==> e == Some(CheckoutRefusal::MerchantNotFound)
            &&& asked && facts.merchant is Failed ==> e == Some(
                CheckoutRefusal::MerchantLookupFailed,
            )
            &&& asked && facts.merchant is Found && past_due ==> e == Some(
                CheckoutRefusal::BillingBlocked(Block::PastDue),
            )
            &&& asked && facts.merchant is Found && suspended ==> e == Some(
                CheckoutRefusal::BillingBlocked(Block::Suspended),
            )
            &&& asked && facts.merchant is Found && !past_due && !suspended && !facts.has_rates
                ==> e == Some(CheckoutRefusal::NoRates)
            &&& e is None <==> asked && facts.merchant is Found && !past_due && !suspended
                && facts.has_rates
        }),
{
    reveal_strlit("past_due");
    reveal_strlit("suspended");
    assert("past_due"@.len() != "suspended"@.len());
}

/// What is ordered is the product and the price that were found.
pub proof fn order_names_the_item(r: &CreateInvoiceRequest, price: Price, product: Product)
    requires
        orders(r, price, product),
    ensures
        opt_text(r.product_id) == Some(product.id@),
        opt_text(r.price_id) == Some(price.id@),
        opt_text(r.product_name) == Some(product.name@),
        opt_text(r.currency) == Some(price.currency@),
{
}

/// The page for a payment is named after its invoice, at the site that is set up
/// or else at the service's own, with the address to return to where one is
/// given.
pub proof fn payment_page_is_named_after_its_invoice(
    frontend_url: Option<Seq<char>>,
    invoice_id: Seq<char>,
    success_url: Option<Seq<char>>,
)
    ensures
        ({
            let site = if frontend_url is Some {
                frontend_url->0
            } else {
                "https://cipherpay.app"@
            };
            let page = site + "/pay/"@ + invoice_id;
            &&& success_url is None ==> checkout_page(frontend_url, invoice_id, success_url) == page
            &&& success_url matches Some(u) ==> checkout_page(
                frontend_url,
                invoice_id,
                success_url,
            ) == page + "?return_url="@ + escaped(u)
        }),
{
}

/// The five characters that would end or split a part of an address are escaped
/// by their codes, and every other is kept.
pub proof fn escaping_keeps_the_rest(s: Seq<char>, c: char)
    ensures
        escaped(Seq::<char>::empty()).len() == 0,
        c != '&' && c != '=' && c != '?' && c != '#' && c != ' ' ==> escaped(s.push(c)) == escaped(
            s,
        ).push(c),
        escaped(s.push('&')) == escaped(s) + "%26"@,
        escaped(s.push('=')) == escaped(s) + "%3D"@,
        escaped(s.push('?')) == escaped(s) + "%3F"@,
        escaped(s.push('#')) == escaped(s) + "%23"@,
        escaped(s.push(' ')) == escaped(s) + "%20"@,
{
    assert(s.push(c).drop_last() =~= s);
    assert(s.push('&').drop_last() =~= s);
    assert(s.push('=').drop_last() =~= s);
    assert(s.push('?').drop_last() =~= s);
    assert(s.push('#').drop_last() =~= s);
    assert(s.push(' ').drop_last() =~= s);
    assert(escaped(s) + seq![c] =~= escaped(s).push(c));
}

/// A request is refused with 400 where the request is at fault, with 402 where
/// the merchant owes fees, with 404 where something is not there, with 409
/// where it conflicts with what was done before, with 410 where something was
/// there and is gone, with 500 where the service is at fault, with 503 where
/// there are no rates.
pub proof fn checkout_refusals_have_their_status(e: CheckoutRefusal)
    ensures
        e.spec_reply().0 == 400 <==> e is PriceInactive || e is ProductInactive || e is NoDefaultPrice || e is DefaultPriceInactive || e is DefaultPriceNotFound || e is NothingNamed || e is EmailInvalid || e is EmailRequired || e is NameTooLong,
        e.spec_reply().0 == 402 <==> e is BillingBlocked,
        e.spec_reply().0 == 404 <==> e is PriceNotFound || e is ProductGone || e is ProductNotFound,
        e.spec_reply().0 == 409 <==> e is SoldOut,
        e.spec_reply().0 == 410 <==> e is EventUnavailable || e is EventEnded,
        e.spec_reply().0 == 500 <==> e is MerchantNotFound || e is MerchantLookupFailed,
        e.spec_reply().0 == 503 <==> e is NoRates,
{
}

} // verus!
