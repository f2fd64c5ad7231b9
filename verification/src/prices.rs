//! Prices of products.

use vstd::prelude::*;

use crate::catalog::{is_supported_currency, supported_currency, supported_list};
use crate::events::{generate_price_id, is_price_id};
use crate::products::Product;
use crate::text::{join2, opt_text, text_eq, to_uppercase, uppercased};

verus! {

/// What is known of an amount: whether it is positive and not above the
/// maximum of a million.
#[derive(Debug, Clone, Copy, PartialEq, Eq, Structural)]
pub enum UnitAmount {
    NotPositive,
    AboveMaximum,
    Valid,
}

/// A price without its amount.
#[derive(Debug)]
pub struct Price {
    pub id: String,
    pub product_id: String,
    pub currency: String,
    pub label: Option<String>,
    pub max_quantity: Option<i64>,
    pub price_type: String,
    pub billing_interval: Option<String>,
    pub interval_count: Option<i32>,
    pub active: i32,
    pub created_at: String,
}

#[derive(Debug)]
pub struct CreatePriceRequest {
    pub product_id: String,
    pub currency: String,
    pub unit_amount: UnitAmount,
    pub label: Option<String>,
    pub max_quantity: Option<i64>,
    pub price_type: Option<String>,
    pub billing_interval: Option<String>,
    pub interval_count: Option<i32>,
}

/// A request to change a price; the amount is the new one, or the old one
/// where none is given.
#[derive(Debug)]
pub struct UpdatePriceRequest {
    pub unit_amount: UnitAmount,
    pub currency: Option<String>,
    pub label: Option<String>,
    pub max_quantity: Option<i64>,
    pub price_type: Option<String>,
    pub billing_interval: Option<String>,
    pub interval_count: Option<i32>,
}

/// Why a price is not made, changed or removed.
#[derive(Debug, Clone, Copy, PartialEq, Eq, Structural)]
pub enum PriceError {
    UnsupportedCurrency,
    AmountNotPositive,
    AmountTooLarge,
    QuantityNotPositive,
    ForeignProduct,
    ProductNotFound,
    ForeignPrice,
    AlreadyPriced,
    InvalidType,
    IntervalRequired,
    InvalidInterval,
    InvalidIntervalCount,
    LastActivePrice,
    OnlyActivePrice,
}

impl PriceError {
    /// The message with which a new price is refused.
    pub open spec fn creation_message(self, currency: Seq<char>) -> Seq<char> {
        match self {
            PriceError::UnsupportedCurrency => "Unsupported currency: "@ + currency
                + ". Supported: "@ + supported_list(),
            PriceError::AlreadyPriced => "An active price for "@ + currency
                + " already exists on this product. Deactivate it first or update it."@,
            _ => self.update_message(currency),
        }
    }

    /// The message with which a change of a price is refused.
    pub open spec fn update_message(self, currency: Seq<char>) -> Seq<char> {
        match self {
            PriceError::UnsupportedCurrency => "Unsupported currency: "@ + currency,
            PriceError::AmountNotPositive => "unit_amount must be > 0"@,
            PriceError::AmountTooLarge => "unit_amount exceeds maximum of 1000000"@,
            PriceError::QuantityNotPositive => "max_quantity must be > 0"@,
            PriceError::ForeignProduct => "Product does not belong to this merchant"@,
            PriceError::ProductNotFound => "Product not found"@,
            PriceError::ForeignPrice => "Price not found or does not belong to this merchant"@,
            PriceError::AlreadyPriced => "An active price for "@ + currency
                + " already exists on this product. Deactivate it first."@,
            PriceError::InvalidType => "price_type must be one_time or recurring"@,
            PriceError::IntervalRequired => "billing_interval required for recurring prices"@,
            PriceError::InvalidInterval => "billing_interval must be day, week, month, or year"@,
            PriceError::InvalidIntervalCount => "interval_count must be between 1 and 365"@,
            PriceError::LastActivePrice =>
                "Cannot remove the last active price. A product must have at least one price."@,
            PriceError::OnlyActivePrice =>
                "Cannot deactivate the default price when it is the only active price."@,
        }
    }

    /// The message with which a change of a price is refused.
    pub fn message_on_update(&self, currency: &str) -> (r: String)
        ensures
            r@ == self.update_message(currency@),
    {
        match self {
            PriceError::UnsupportedCurrency => join2("Unsupported currency: ", currency),
            PriceError::AmountNotPositive => "unit_amount must be > 0".to_string(),
            PriceError::AmountTooLarge => "unit_amount exceeds maximum of 1000000".to_string(),
            PriceError::QuantityNotPositive => "max_quantity must be > 0".to_string(),
            PriceError::ForeignProduct => "Product does not belong to this merchant".to_string(),
            PriceError::ProductNotFound => "Product not found".to_string(),
            PriceError::ForeignPrice =>
                "Price not found or does not belong to this merchant".to_string(),
            PriceError::AlreadyPriced => {
                let mut r: String = join2("An active price for ", currency);
                r.append(" already exists on this product. Deactivate it first.");
                r
            },
            PriceError::InvalidType => "price_type must be one_time or recurring".to_string(),
            PriceError::IntervalRequired =>
                "billing_interval required for recurring prices".to_string(),
            PriceError::InvalidInterval =>
                "billing_interval must be day, week, month, or year".to_string(),
            PriceError::InvalidIntervalCount =>
                "interval_count must be between 1 and 365".to_string(),
            PriceError::LastActivePrice =>
                "Cannot remove the last active price. A product must have at least one price.".to_string(),
            PriceError::OnlyActivePrice =>
                "Cannot deactivate the default price when it is the only active price.".to_string(),
        }
    }

    /// The message with which a new price is refused.
    pub fn message_on_creation(&self, currency: &str) -> (r: String)
        ensures
            r@ == self.creation_message(currency@),
    {
        match self {
            PriceError::UnsupportedCurrency => {
                let mut r: String = join2("Unsupported currency: ", currency);
                r.append(". Supported: ");
                r.append("EUR, USD, BRL, GBP, CAD, JPY, MXN, ARS, NGN, CHF, INR");
                r
            },
            PriceError::AlreadyPriced => {
                let mut r: String = join2("An active price for ", currency);
                r.append(" already exists on this product. Deactivate it first or update it.");
                r
            },
            _ => self.message_on_update(currency),
        }
    }
}

/// The type of a price where none is given.
pub fn default_price_type() -> (r: String)
    ensures
        r@ == "one_time"@,
{
    "one_time".to_string()
}

pub open spec fn is_interval(s: Seq<char>) -> bool {
    s == "day"@ || s == "week"@ || s == "month"@ || s == "year"@
}

/// The type, interval and count of a price: an interval belongs to a recurring
/// price only.
pub open spec fn recurrence_of(
    price_type: Seq<char>,
    interval: Option<Seq<char>>,
    count: Option<i32>,
) -> Result<(Option<Seq<char>>, Option<i32>), PriceError> {
    if price_type != "one_time"@ && price_type != "recurring"@ {
        Err(PriceError::InvalidType)
    } else if price_type == "recurring"@ {
        match interval {
            None => Err(PriceError::IntervalRequired),
            Some(i) => {
                let n = match count {
                    Some(c) => c,
                    None => 1i32,
                };
                if !is_interval(i) {
                    Err(PriceError::InvalidInterval)
                } else if n < 1 || n > 365 {
                    Err(PriceError::InvalidIntervalCount)
                } else {
                    Ok((Some(i), Some(n)))
                }
            },
        }
    } else {
        Ok((None, None))
    }
}

fn recurrence(price_type: &str, interval: &Option<String>, count: Option<i32>) -> (r: Result<
    (Option<String>, Option<i32>),
    PriceError,
>)
    ensures
        match r {
            Ok(x) => recurrence_of(price_type@, opt_text(*interval), count) == Ok::<
                (Option<Seq<char>>, Option<i32>),
                PriceError,
            >((opt_text(x.0), x.1)),
            Err(e) => recurrence_of(price_type@, opt_text(*interval), count) == Err::<
                (Option<Seq<char>>, Option<i32>),
                PriceError,
            >(e),
        },
{
    let recurring: bool = text_eq(price_type, "recurring");
    if !text_eq(price_type, "one_time") && !recurring {
        return Err(PriceError::InvalidType);
    }
    if !recurring {
        return Ok((None, None));
    }
    match interval {
        None => Err(PriceError::IntervalRequired),
        Some(i) => {
            if !(text_eq(i.as_str(), "day") || text_eq(i.as_str(), "week") || text_eq(
                i.as_str(),
                "month",
            ) || text_eq(i.as_str(), "year")) {
                return Err(PriceError::InvalidInterval);
            }
            let n: i32 = match count {
                Some(c) => c,
                None => 1,
            };
            if n < 1 || n > 365 {
                return Err(PriceError::InvalidIntervalCount);
            }
            Ok((Some(i.clone()), Some(n)))
        },
    }
}

/// Why an amount or a quantity is refused, if one is.
pub open spec fn amounts_error(unit_amount: UnitAmount, max_quantity: Option<i64>) -> Option<
    PriceError,
> {
    if unit_amount == UnitAmount::NotPositive {
        Some(PriceError::AmountNotPositive)
    } else if unit_amount == UnitAmount::AboveMaximum {
        Some(PriceError::AmountTooLarge)
    } else if max_quantity matches Some(q) && q <= 0 {
        Some(PriceError::QuantityNotPositive)
    } else {
        None
    }
}

fn check_amounts(unit_amount: UnitAmount, max_quantity: Option<i64>) -> (r: Option<PriceError>)
    ensures
        r == amounts_error(unit_amount, max_quantity),
{
    match unit_amount {
        UnitAmount::NotPositive => Some(PriceError::AmountNotPositive),
        UnitAmount::AboveMaximum => Some(PriceError::AmountTooLarge),
        UnitAmount::Valid => match max_quantity {
            Some(q) => if q <= 0 {
                Some(PriceError::QuantityNotPositive)
            } else {
                None
            },
            None => None,
        },
    }
}

pub open spec fn type_of(price_type: Option<String>) -> Seq<char> {
    match price_type {
        Some(t) => t@,
        None => "one_time"@,
    }
}

/// Why a new price is refused, if it is. `product_owner` is the merchant of
/// the product, `already_priced` tells whether the product has an active price
/// in the currency.
pub open spec fn creation_error(
    merchant_id: Seq<char>,
    req: &CreatePriceRequest,
    product_owner: Option<Seq<char>>,
    already_priced: bool,
    event_backed: bool,
) -> Option<PriceError> {
    if !is_supported_currency(uppercased(req.currency@)) {
        Some(PriceError::UnsupportedCurrency)
    } else {
        match amounts_error(req.unit_amount, req.max_quantity) {
            Some(e) => Some(e),
            None => match product_owner {
                None => Some(PriceError::ProductNotFound),
                Some(owner) => if owner != merchant_id {
                    Some(PriceError::ForeignProduct)
                } else if already_priced && !event_backed {
                    Some(PriceError::AlreadyPriced)
                } else {
                    match recurrence_of(
                        type_of(req.price_type),
                        opt_text(req.billing_interval),
                        req.interval_count,
                    ) {
                        Err(e) => Some(e),
                        Ok(_) => None,
                    }
                },
            },
        }
    }
}

pub open spec fn owner_of(product: Option<&Product>) -> Option<Seq<char>> {
    match product {
        Some(p) => Some(p.merchant_id@),
        None => None,
    }
}

/// Makes a new price of a product.
pub fn create_price(
    merchant_id: &str,
    req: &CreatePriceRequest,
    product: Option<&Product>,
    already_priced: bool,
    event_backed: bool,
    now: &str,
) -> (r: Result<Price, PriceError>)
    ensures
        match r {
            Err(e) => creation_error(
                merchant_id@,
                req,
                owner_of(product),
                already_priced,
                event_backed,
            ) == Some(e),
            Ok(p) => {
                &&& creation_error(
                    merchant_id@,
                    req,
                    owner_of(product),
                    already_priced,
                    event_backed,
                ) is None
                &&& is_price_id(p.id@)
                &&& p.product_id@ == req.product_id@
                &&& p.currency@ == uppercased(req.currency@)
                &&& opt_text(p.label) == opt_text(req.label)
                &&& p.max_quantity == req.max_quantity
                &&& p.price_type@ == type_of(req.price_type)
                &&& Ok::<(Option<Seq<char>>, Option<i32>), PriceError>(
                    (opt_text(p.billing_interval), p.interval_count),
                ) == recurrence_of(
                    type_of(req.price_type),
                    opt_text(req.billing_interval),
                    req.interval_count,
                )
                &&& p.active == 1
                &&& p.created_at@ == now@
            },
        },
{
    let currency: String = to_uppercase(req.currency.as_str());
    if !supported_currency(currency.as_str()) {
        return Err(PriceError::UnsupportedCurrency);
    }
    match check_amounts(req.unit_amount, req.max_quantity) {
        Some(e) => {
            return Err(e);
        },
        None => {},
    }
    match product {
        None => {
            return Err(PriceError::ProductNotFound);
        },
        Some(p) => {
            if !text_eq(p.merchant_id.as_str(), merchant_id) {
                return Err(PriceError::ForeignProduct);
            }
        },
    }
    if already_priced && !event_backed {
        return Err(PriceError::AlreadyPriced);
    }
    let price_type: String = match &req.price_type {
        Some(t) => t.clone(),
        None => default_price_type(),
    };
    match recurrence(price_type.as_str(), &req.billing_interval, req.interval_count) {
        Err(e) => Err(e),
        Ok((billing_interval, interval_count)) => Ok(
            Price {
                id: generate_price_id(),
                product_id: req.product_id.clone(),
                currency,
                label: req.label.clone(),
                max_quantity: req.max_quantity,
                price_type,
                billing_interval,
                interval_count,
                active: 1,
                created_at: now.to_string(),
            },
        ),
    }
}

impl Price {
    /// The currency after a change.
    pub open spec fn new_currency(&self, req: &UpdatePriceRequest) -> Seq<char> {
        match req.currency {
            Some(c) => uppercased(c@),
            None => self.currency@,
        }
    }

    pub open spec fn new_type(&self, req: &UpdatePriceRequest) -> Seq<char> {
        match req.price_type {
            Some(t) => t@,
            None => self.price_type@,
        }
    }

    /// The recurrence after a change.
    pub open spec fn new_recurrence(&self, req: &UpdatePriceRequest) -> Result<
        (Option<Seq<char>>, Option<i32>),
        PriceError,
    > {
        recurrence_of(
            self.new_type(req),
            match req.billing_interval {
                Some(i) => Some(i@),
                None => opt_text(self.billing_interval),
            },
            match req.interval_count {
                Some(c) => Some(c),
                None => self.interval_count,
            },
        )
    }

    /// Why a change is refused, if it is. `taken` tells whether the product
    /// has another active price in the new currency.
    pub open spec fn update_error(
        &self,
        merchant_id: Seq<char>,
        req: &UpdatePriceRequest,
        product_owner: Option<Seq<char>>,
        taken: bool,
        event_backed: bool,
    ) -> Option<PriceError> {
        if product_owner != Some(merchant_id) {
            Some(PriceError::ForeignPrice)
        } else {
            match amounts_error(req.unit_amount, req.max_quantity) {
                Some(e) => Some(e),
                None => if req.currency is Some && !is_supported_currency(self.new_currency(req)) {
                    Some(PriceError::UnsupportedCurrency)
                } else if req.currency is Some && self.new_currency(req) != self.currency@ && taken
                    && !event_backed {
                    Some(PriceError::AlreadyPriced)
                } else {
                    match self.new_recurrence(req) {
                        Err(e) => Some(e),
                        Ok(_) => None,
                    }
                },
            }
        }
    }

    /// Changes the fields that are given.
    pub fn update(
        &mut self,
        merchant_id: &str,
        req: &UpdatePriceRequest,
        product: Option<&Product>,
        taken: bool,
        event_backed: bool,
    ) -> (r: Result<(), PriceError>)
        ensures
            match r {
                Err(e) => old(self).update_error(
                    merchant_id@,
                    req,
                    owner_of(product),
                    taken,
                    event_backed,
                ) == Some(e) && *final(self) == *old(self),
                Ok(_) => {
                    &&& old(self).update_error(
                        merchant_id@,
                        req,
                        owner_of(product),
                        taken,
                        event_backed,
                    ) is None
                    &&& final(self).currency@ == old(self).new_currency(req)
                    &&& opt_text(final(self).label) == match req.label {
                        Some(l) => Some(l@),
                        None => opt_text(old(self).label),
                    }
                    &&& final(self).max_quantity == match req.max_quantity {
                        Some(q) => Some(q),
                        None => old(self).max_quantity,
                    }
                    &&& final(self).price_type@ == old(self).new_type(req)
                    &&& Ok::<(Option<Seq<char>>, Option<i32>), PriceError>(
                        (opt_text(final(self).billing_interval), final(self).interval_count),
                    ) == old(self).new_recurrence(req)
                    &&& *final(self) == (Price {
                        currency: final(self).currency,
                        label: final(self).label,
                        max_quantity: final(self).max_quantity,
                        price_type: final(self).price_type,
                        billing_interval: final(self).billing_interval,
                        interval_count: final(self).interval_count,
                        ..*old(self)
                    })
                },
            },
    {
        match product {
            Some(p) => {
                if !text_eq(p.merchant_id.as_str(), merchant_id) {
                    return Err(PriceError::ForeignPrice);
                }
            },
            None => {
                return Err(PriceError::ForeignPrice);
            },
        }
        match check_amounts(req.unit_amount, req.max_quantity) {
            Some(e) => {
                return Err(e);
            },
            None => {},
        }
        let currency: String = match &req.currency {
            Some(c) => {
                let c: String = to_uppercase(c.as_str());
                if !supported_currency(c.as_str()) {
                    return Err(PriceError::UnsupportedCurrency);
                }
                if !text_eq(c.as_str(), self.currency.as_str()) && taken && !event_backed {
                    return Err(PriceError::AlreadyPriced);
                }
                c
            },
            None => self.currency.clone(),
        };
        let price_type: String = match &req.price_type {
            Some(t) => t.clone(),
            None => self.price_type.clone(),
        };
        let interval: Option<String> = match &req.billing_interval {
            Some(i) => Some(i.clone()),
            None => self.billing_interval.clone(),
        };
        let count: Option<i32> = match req.interval_count {
            Some(c) => Some(c),
            None => self.interval_count,
        };
        match recurrence(price_type.as_str(), &interval, count) {
            Err(e) => Err(e),
            Ok((billing_interval, interval_count)) => {
                self.currency = currency;
                self.price_type = price_type;
                self.billing_interval = billing_interval;
                self.interval_count = interval_count;
                match &req.label {
                    Some(l) => {
                        self.label = Some(l.clone());
                    },
                    None => {},
                }
                match req.max_quantity {
                    Some(q) => {
                        self.max_quantity = Some(q);
                    },
                    None => {},
                }
                Ok(())
            },
        }
    }
}

/// What a request to deactivate a price leads to.
pub enum Deactivation {
    /// There is no such price of the merchant.
    NotFound,
    /// The price was inactive already.
    AlreadyInactive,
    /// The price is deactivated; where it was the default one, another price
    /// takes its place first.
    Deactivate(Option<String>),
}

/// What a request to deactivate a price leads to. A product keeps at least one
/// active price: `active_count` counts them, `other` is the oldest other one.
pub open spec fn deactivation_of(
    price: Option<&Price>,
    product: Option<&Product>,
    merchant_id: Seq<char>,
    active_count: i64,
    other: Option<Seq<char>>,
) -> Result<Option<Option<Seq<char>>>, PriceError> {
    match price {
        None => Ok(None),
        Some(p) => if p.active == 0 {
            Ok(Some(None))
        } else {
            match product {
                None => Ok(None),
                Some(d) => if d.merchant_id@ != merchant_id {
                    Ok(None)
                } else if active_count <= 1 {
                    Err(PriceError::LastActivePrice)
                } else if opt_text(d.default_price_id) == Some(p.id@) {
                    match other {
                        Some(o) => Ok(Some(Some(o))),
                        None => Err(PriceError::OnlyActivePrice),
                    }
                } else {
                    Ok(Some(None))
                },
            }
        },
    }
}

/// Decides on a request to deactivate a price.
pub fn deactivate_price(
    price: Option<&Price>,
    product: Option<&Product>,
    merchant_id: &str,
    active_count: i64,
    other: Option<String>,
) -> (r: Result<Deactivation, PriceError>)
    ensures
        match r {
            Err(e) => deactivation_of(
                price,
                product,
                merchant_id@,
                active_count,
                opt_text(other),
            ) == Err::<Option<Option<Seq<char>>>, PriceError>(e),
            Ok(Deactivation::NotFound) => deactivation_of(
                price,
                product,
                merchant_id@,
                active_count,
                opt_text(other),
            ) == Ok::<Option<Option<Seq<char>>>, PriceError>(None),
            Ok(Deactivation::AlreadyInactive) => price matches Some(p) && p.active == 0,
            Ok(Deactivation::Deactivate(d)) => {
                &&& price matches Some(p)
                &&& p.active != 0
                &&& deactivation_of(
                    price,
                    product,
                    merchant_id@,
                    active_count,
                    opt_text(other),
                ) == Ok::<Option<Option<Seq<char>>>, PriceError>(Some(opt_text(d)))
            },
        },
{
    let p: &Price = match price {
        None => {
            return Ok(Deactivation::NotFound);
        },
        Some(p) => p,
    };
    if p.active == 0 {
        return Ok(Deactivation::AlreadyInactive);
    }
    let d: &Product = match product {
        None => {
            return Ok(Deactivation::NotFound);
        },
        Some(d) => d,
    };
    if !text_eq(d.merchant_id.as_str(), merchant_id) {
        return Ok(Deactivation::NotFound);
    }
    if active_count <= 1 {
        return Err(PriceError::LastActivePrice);
    }
    let is_default: bool = match &d.default_price_id {
        Some(x) => text_eq(x.as_str(), p.id.as_str()),
        None => false,
    };
    if is_default {
        match other {
            Some(o) => Ok(Deactivation::Deactivate(Some(o))),
            None => Err(PriceError::OnlyActivePrice),
        }
    } else {
        Ok(Deactivation::Deactivate(None))
    }
}

/// No request deactivates the last active price of a product.
pub proof fn last_price_stays(
    price: Price,
    product: Product,
    merchant_id: Seq<char>,
    other: Option<Seq<char>>,
)
    requires
        price.active != 0,
        product.merchant_id@ == merchant_id,
    ensures
        deactivation_of(Some(&price), Some(&product), merchant_id, 1, other) == Err::<
            Option<Option<Seq<char>>>,
            PriceError,
        >(PriceError::LastActivePrice),
{
}

// ---------------------------------------------------------------------------
// Laws
// ---------------------------------------------------------------------------

/// A price is taken once, or again every so many days, weeks, months or years:
/// one where no number is named, and 365 at most. A price that is taken once has
/// no interval.
pub proof fn price_recurs_or_not(
    price_type: Seq<char>,
    interval: Option<Seq<char>>,
    count: Option<i32>,
)
    ensures
        ({
            let r = recurrence_of(price_type, interval, count);
            let once = price_type == "one_time"@;
            let again = price_type == "recurring"@;
            let unit = interval is Some && (interval->0 == "day"@ || interval->0 == "week"@
                || interval->0 == "month"@ || interval->0 == "year"@);
            let n = if count is Some {
                count->0
            } else {
                1
            };
            &&& once ==> r == Ok::<(Option<Seq<char>>, Option<i32>), PriceError>((None, None))
            &&& !once && !again <==> r == Err::<(Option<Seq<char>>, Option<i32>), PriceError>(
                PriceError::InvalidType,
            )
            &&& again && interval is None <==> r == Err::<
                (Option<Seq<char>>, Option<i32>),
                PriceError,
            >(PriceError::IntervalRequired)
            &&& again && interval is Some && !unit <==> r == Err::<
                (Option<Seq<char>>, Option<i32>),
                PriceError,
            >(PriceError::InvalidInterval)
            &&& again && unit && !(1 <= n <= 365) <==> r == Err::<
                (Option<Seq<char>>, Option<i32>),
                PriceError,
            >(PriceError::InvalidIntervalCount)
            &&& again && unit && 1 <= n <= 365 ==> r == Ok::<
                (Option<Seq<char>>, Option<i32>),
                PriceError,
            >((interval, Some(n)))
        }),
{
    types_differ();
}

proof fn types_differ()
    ensures
        "one_time"@ != "recurring"@,
{
    reveal_strlit("one_time");
    reveal_strlit("recurring");
    assert("one_time"@[0] != "recurring"@[0]);
}

/// An amount is above zero and not too large, and a number of places, where
/// there is one, is above zero.
pub proof fn amounts_are_positive(unit_amount: UnitAmount, max_quantity: Option<i64>)
    ensures
        ({
            let e = amounts_error(unit_amount, max_quantity);
            let places = max_quantity is None || max_quantity->0 > 0;
            &&& unit_amount is NotPositive <==> e == Some(PriceError::AmountNotPositive)
            &&& unit_amount is AboveMaximum <==> e == Some(PriceError::AmountTooLarge)
            &&& unit_amount is Valid && !places <==> e == Some(PriceError::QuantityNotPositive)
            &&& unit_amount is Valid && places <==> e is None
        }),
{
}

/// A price is made exactly in a supported currency, whatever its case, with
/// amounts above zero, for the merchant's own product that has no active price
/// in that currency yet, unless an event stands behind it, and with an interval
/// that makes sense. The first of these that fails is the error.
pub proof fn price_is_made_where_nothing_fails(
    merchant_id: Seq<char>,
    req: &CreatePriceRequest,
    product_owner: Option<Seq<char>>,
    already_priced: bool,
    event_backed: bool,
)
    ensures
        ({
            let e = creation_error(merchant_id, req, product_owner, already_priced, event_backed);
            let supported = is_supported_currency(uppercased(req.currency@));
            let amounts = amounts_error(req.unit_amount, req.max_quantity);
            let valid = supported && amounts is None;
            let own = product_owner == Some(merchant_id);
            let taken = already_priced && !event_backed;
            let kind = if req.price_type is Some {
                req.price_type->0@
            } else {
                "one_time"@
            };
            let recurs = recurrence_of(kind, opt_text(req.billing_interval), req.interval_count);
            &&& !supported <==> e == Some(PriceError::UnsupportedCurrency)
            &&& supported && amounts is Some ==> e == amounts
            &&& valid && product_owner is None <==> e == Some(PriceError::ProductNotFound)
            &&& valid && product_owner is Some && !own <==> e == Some(PriceError::ForeignProduct)
            &&& valid && own && taken <==> e == Some(PriceError::AlreadyPriced)
            &&& valid && own && !taken && recurs is Err ==> e == Some(recurs->Err_0)
            &&& valid && own && !taken && recurs is Ok <==> e is None
        }),
{
}

/// A change keeps what it does not name.
pub proof fn change_keeps_the_rest(price: &Price, req: &UpdatePriceRequest)
    ensures
        req.currency is None ==> price.new_currency(req) == price.currency@,
        req.currency matches Some(c) ==> price.new_currency(req) == uppercased(c@),
        req.price_type is None ==> price.new_type(req) == price.price_type@,
        req.price_type matches Some(t) ==> price.new_type(req) == t@,
        req.price_type is None && req.billing_interval is None && req.interval_count is None
            ==> price.new_recurrence(req) == recurrence_of(
            price.price_type@,
            opt_text(price.billing_interval),
            price.interval_count,
        ),
        req.billing_interval is Some && req.interval_count is Some ==> price.new_recurrence(req)
            == recurrence_of(
            price.new_type(req),
            opt_text(req.billing_interval),
            req.interval_count,
        ),
{
}

/// A price is changed by its own merchant only, to amounts above zero, to a
/// supported currency that is not taken, unless an event stands behind it, and
/// to an interval that makes sense.
pub proof fn price_is_changed_where_nothing_fails(
    price: &Price,
    merchant_id: Seq<char>,
    req: &UpdatePriceRequest,
    product_owner: Option<Seq<char>>,
    taken: bool,
    event_backed: bool,
)
    ensures
        ({
            let e = price.update_error(merchant_id, req, product_owner, taken, event_backed);
            let own = product_owner == Some(merchant_id);
            let amounts = amounts_error(req.unit_amount, req.max_quantity);
            let valid = own && amounts is None;
            let asked = req.currency is Some;
            let currency = uppercased(req.currency->0@);
            let supported = !asked || is_supported_currency(currency);
            let collides = asked && currency != price.currency@ && taken && !event_backed;
            let recurs = price.new_recurrence(req);
            &&& !own <==> e == Some(PriceError::ForeignPrice)
            &&& own && amounts is Some ==> e == amounts
            &&& valid && !supported <==> e == Some(PriceError::UnsupportedCurrency)
            &&& valid && supported && collides <==> e == Some(PriceError::AlreadyPriced)
            &&& valid && supported && !collides && recurs is Err ==> e == Some(recurs->Err_0)
            &&& valid && supported && !collides && recurs is Ok <==> e is None
        }),
{
}

/// A price is deactivated only where another of the product stays active. Where
/// it was the default one, another has to take its place. A price that is not
/// there, is inactive already or is another merchant's stays as it is.
pub proof fn another_price_stays_active(
    price: &Price,
    product: &Product,
    merchant_id: Seq<char>,
    active_count: i64,
    other: Option<Seq<char>>,
)
    ensures
        ({
            let r = deactivation_of(Some(price), Some(product), merchant_id, active_count, other);
            let own = price.active != 0 && product.merchant_id@ == merchant_id;
            let default = product.default_price_id is Some && product.default_price_id->0@
                == price.id@;
            &&& price.active == 0 ==> r == Ok::<Option<Option<Seq<char>>>, PriceError>(Some(None))
            &&& price.active != 0 && !own <==> r == Ok::<Option<Option<Seq<char>>>, PriceError>(
                None,
            )
            &&& own && active_count <= 1 <==> r == Err::<Option<Option<Seq<char>>>, PriceError>(
                PriceError::LastActivePrice,
            )
            &&& own && active_count > 1 && default && other is None <==> r == Err::<
                Option<Option<Seq<char>>>,
                PriceError,
            >(PriceError::OnlyActivePrice)
            &&& own && active_count > 1 && default && other is Some ==> r == Ok::<
                Option<Option<Seq<char>>>,
                PriceError,
            >(Some(other))
            &&& own && active_count > 1 && !default ==> r == Ok::<
                Option<Option<Seq<char>>>,
                PriceError,
            >(Some(None))
        }),
        deactivation_of(None, Some(product), merchant_id, active_count, other) == Ok::<
            Option<Option<Seq<char>>>,
            PriceError,
        >(None),
{
}

} // verus!
