//! Events: their dates, how they are made, changed and ended.

use vstd::prelude::*;

use crate::catalog::{is_supported_currency, slug_of, slugify, supported_currency};
use crate::clock::{parse_datetime, parsed_datetime, Moment, MINUTES_FORMAT, SECONDS_FORMAT};
use crate::ids::{is_hyphenated, is_simple, new_id, new_simple_id};
use crate::products::Product;
use crate::text::{
    byte_len, byte_length, chars_of, join2, lex_less, opt_text, text_between, text_eq, text_less,
    to_uppercase, trim, trimmed, uppercased,
};

verus! {

pub const MAX_TITLE_LEN: usize = 200;

pub const MAX_DESCRIPTION_LEN: usize = 2000;

pub const MAX_LOCATION_LEN: usize = 300;

pub const MAX_DATE_LEN: usize = 30;

pub const MAX_LABEL_LEN: usize = 100;

pub const MAX_PRICE_TIERS: usize = 20;

#[derive(Debug)]
pub struct Event {
    pub id: String,
    pub merchant_id: String,
    pub product_id: String,
    pub title: String,
    pub description: Option<String>,
    pub event_date: Option<String>,
    pub event_location: Option<String>,
    pub status: String,
    pub created_at: String,
}

#[derive(Debug)]
pub struct EventContext {
    pub event_title: String,
    pub event_date: Option<String>,
    pub event_location: Option<String>,
}

#[derive(Debug)]
pub struct EventSummary {
    pub id: String,
    pub product_id: String,
    pub title: String,
    pub description: Option<String>,
    pub event_date: Option<String>,
    pub event_location: Option<String>,
    pub status: String,
    pub created_at: String,
    pub sold_count: i64,
    pub used_count: i64,
    pub total_capacity: Option<i64>,
    pub luma_event_id: Option<String>,
}

#[derive(Debug)]
pub struct UpdateEventRequest {
    pub title: Option<String>,
    pub description: Option<String>,
    pub event_date: Option<String>,
    pub event_location: Option<String>,
}

/// A price of a new event; of the amount it is known whether it is positive.
#[derive(Debug)]
pub struct CreateEventPrice {
    pub currency: String,
    pub amount_is_positive: bool,
    pub label: Option<String>,
    pub max_quantity: Option<i64>,
}

#[derive(Debug)]
pub struct CreateEventRequest {
    pub title: String,
    pub description: Option<String>,
    pub event_date: Option<String>,
    pub event_location: Option<String>,
    pub prices: Vec<CreateEventPrice>,
}

/// Why an event is not made or changed. The errors on prices name the place of
/// the price.
#[derive(Debug, Clone, Copy, PartialEq, Eq, Structural)]
pub enum EventError {
    Cancelled,
    TitleRequired,
    TitleTooLong,
    DescriptionTooLong,
    LocationTooLong,
    DateTooLong,
    DateInvalid,
    PriceRequired,
    TooManyPrices,
    UnsupportedCurrency(usize),
    AmountNotPositive(usize),
    LabelTooLong(usize),
    QuantityNotPositive(usize),
}

impl EventError {
    /// The message of an error; `currency` is that of the price at fault.
    pub open spec fn spec_message(self, currency: Seq<char>) -> Seq<char> {
        match self {
            EventError::Cancelled => "cannot edit a cancelled event"@,
            EventError::TitleRequired => "title is required"@,
            EventError::TitleTooLong => "title must be 200 characters or fewer"@,
            EventError::DescriptionTooLong => "description must be 2000 characters or fewer"@,
            EventError::LocationTooLong => "event_location must be 300 characters or fewer"@,
            EventError::DateTooLong => "event_date must be 30 characters or fewer"@,
            EventError::DateInvalid => "event_date must be a valid date (YYYY-MM-DDTHH:MM)"@,
            EventError::PriceRequired => "at least one price is required"@,
            EventError::TooManyPrices => "maximum 20 price tiers per event"@,
            EventError::UnsupportedCurrency(_) => "Unsupported currency: "@ + currency,
            EventError::AmountNotPositive(_) => "unit_amount must be > 0"@,
            EventError::LabelTooLong(_) => "price label must be 100 characters or fewer"@,
            EventError::QuantityNotPositive(_) => "max_quantity must be > 0"@,
        }
    }

    pub fn message(&self, currency: &str) -> (r: String)
        ensures
            r@ == self.spec_message(currency@),
    {
        match self {
            EventError::Cancelled => "cannot edit a cancelled event".to_string(),
            EventError::TitleRequired => "title is required".to_string(),
            EventError::TitleTooLong => "title must be 200 characters or fewer".to_string(),
            EventError::DescriptionTooLong =>
                "description must be 2000 characters or fewer".to_string(),
            EventError::LocationTooLong =>
                "event_location must be 300 characters or fewer".to_string(),
            EventError::DateTooLong => "event_date must be 30 characters or fewer".to_string(),
            EventError::DateInvalid =>
                "event_date must be a valid date (YYYY-MM-DDTHH:MM)".to_string(),
            EventError::PriceRequired => "at least one price is required".to_string(),
            EventError::TooManyPrices => "maximum 20 price tiers per event".to_string(),
            EventError::UnsupportedCurrency(_) => join2("Unsupported currency: ", currency),
            EventError::AmountNotPositive(_) => "unit_amount must be > 0".to_string(),
            EventError::LabelTooLong(_) =>
                "price label must be 100 characters or fewer".to_string(),
            EventError::QuantityNotPositive(_) => "max_quantity must be > 0".to_string(),
        }
    }

    /// The HTTP status with which a refused creation is answered.
    pub fn create_status(&self) -> (r: u16)
        ensures
            r == match *self {
                EventError::TitleRequired => 400u16,
                EventError::PriceRequired => 400u16,
                EventError::UnsupportedCurrency(_) => 400u16,
                EventError::AmountNotPositive(_) => 400u16,
                EventError::QuantityNotPositive(_) => 400u16,
                _ => 500u16,
            },
    {
        match self {
            EventError::TitleRequired => 400,
            EventError::PriceRequired => 400,
            EventError::UnsupportedCurrency(_) => 400,
            EventError::AmountNotPositive(_) => 400,
            EventError::QuantityNotPositive(_) => 400,
            _ => 500,
        }
    }

    /// The HTTP status with which a refused change is answered.
    pub fn update_status(&self) -> (r: u16)
        ensures
            r == match *self {
                EventError::Cancelled => 400u16,
                EventError::TitleRequired => 400u16,
                EventError::TitleTooLong => 400u16,
                EventError::DescriptionTooLong => 400u16,
                EventError::LocationTooLong => 400u16,
                EventError::DateTooLong => 400u16,
                EventError::LabelTooLong(_) => 400u16,
                EventError::PriceRequired => 400u16,
                _ => 500u16,
            },
    {
        match self {
            EventError::Cancelled => 400,
            EventError::TitleRequired => 400,
            EventError::TitleTooLong => 400,
            EventError::DescriptionTooLong => 400,
            EventError::LocationTooLong => 400,
            EventError::DateTooLong => 400,
            EventError::LabelTooLong(_) => 400,
            EventError::PriceRequired => 400,
            _ => 500,
        }
    }
}

// ---------------------------------------------------------------------------
// Dates
// ---------------------------------------------------------------------------

/// The text without the letters `Z` at its end.
pub open spec fn without_zone(s: Seq<char>) -> Seq<char>
    decreases s.len(),
{
    if s.len() > 0 && s.last() == 'Z' {
        without_zone(s.drop_last())
    } else {
        s
    }
}

/// What stands before the last full stop, if there is one.
pub open spec fn until_last_stop(s: Seq<char>) -> Option<Seq<char>>
    decreases s.len(),
{
    if s.len() == 0 {
        None
    } else if s.last() == '.' {
        Some(s.drop_last())
    } else {
        until_last_stop(s.drop_last())
    }
}

/// What stands before the last full stop; the whole text where there is none.
pub open spec fn before_last_stop(s: Seq<char>) -> Seq<char> {
    match until_last_stop(s) {
        Some(t) => t,
        None => s,
    }
}

/// The moment that the date of an event stands for: a mark of the zone and
/// parts of a second are left out, and seconds may be missing.
pub open spec fn event_moment(s: Seq<char>) -> Option<Moment> {
    let t = before_last_stop(without_zone(s));
    match parsed_datetime(t, SECONDS_FORMAT@) {
        Some(m) => Some(m),
        None => parsed_datetime(t, MINUTES_FORMAT@),
    }
}

/// Reads the date of an event.
pub fn parse_event_datetime(s: &str) -> (r: Option<Moment>)
    ensures
        r == event_moment(s@),
        r matches Some(m) ==> m.wf(),
{
    let x: Vec<char> = chars_of(s);
    let mut end: usize = x.len();
    assert(x@.take(end as int) =~= x@);
    while end > 0 && x[end - 1] == 'Z'
        invariant
            end <= x@.len(),
            x@ == s@,
            without_zone(s@) == without_zone(x@.take(end as int)),
        ensures
            end <= x@.len(),
            x@ == s@,
            without_zone(s@) == x@.take(end as int),
        decreases end,
    {
        assert(x@.take(end as int).drop_last() =~= x@.take(end - 1));
        assert(x@.take(end as int).last() == x@[end - 1]);
        end = end - 1;
    }
    let ghost t = x@.take(end as int);
    let mut stop: usize = end;
    while stop > 0 && x[stop - 1] != '.'
        invariant
            stop <= end <= x@.len(),
            until_last_stop(t) == until_last_stop(x@.take(stop as int)),
        ensures
            stop <= end <= x@.len(),
            until_last_stop(t) == if stop > 0 {
                Some(x@.take(stop - 1))
            } else {
                None
            },
        decreases stop,
    {
        assert(x@.take(stop as int).drop_last() =~= x@.take(stop - 1));
        assert(x@.take(stop as int).last() == x@[stop - 1]);
        stop = stop - 1;
        proof {
            if stop > 0 {
                assert(x@.take(stop as int).drop_last() =~= x@.take(stop - 1));
                assert(x@.take(stop as int).last() == x@[stop - 1]);
            }
        }
    }
    let cut: usize = if stop > 0 {
        stop - 1
    } else {
        end
    };
    assert(x@.subrange(0, cut as int) =~= x@.take(cut as int));
    let text: String = text_between(&x, 0, cut);
    match parse_datetime(text.as_str(), SECONDS_FORMAT) {
        Some(m) => Some(m),
        None => parse_datetime(text.as_str(), MINUTES_FORMAT),
    }
}

/// Whether an event with the date lies in the past; one without a date that
/// can be read does not.
pub open spec fn is_past_date(date: Option<Seq<char>>, now: Moment) -> bool {
    date matches Some(d) && (event_moment(d) matches Some(m) && m.before(now))
}

/// Whether an event with the date lies in the past.
pub fn date_has_passed(date: Option<&str>, now: Moment) -> (r: bool)
    ensures
        r == is_past_date(crate::text::opt_str(date), now),
{
    match date {
        Some(d) => match parse_event_datetime(d) {
            Some(m) => m.is_before(now),
            None => false,
        },
        None => false,
    }
}

// ---------------------------------------------------------------------------
// Checks
// ---------------------------------------------------------------------------

/// Why a title is refused, if it is.
pub open spec fn title_error(title: String) -> Option<EventError> {
    if trimmed(title@).len() == 0 {
        Some(EventError::TitleRequired)
    } else if byte_len(title@) > MAX_TITLE_LEN {
        Some(EventError::TitleTooLong)
    } else {
        None
    }
}

/// Why the description, the place or the date of an event is refused, if one
/// is.
pub open spec fn details_error(
    description: Option<String>,
    location: Option<String>,
    date: Option<String>,
) -> Option<EventError> {
    if description matches Some(d) && byte_len(d@) > MAX_DESCRIPTION_LEN {
        Some(EventError::DescriptionTooLong)
    } else if location matches Some(l) && byte_len(l@) > MAX_LOCATION_LEN {
        Some(EventError::LocationTooLong)
    } else if date matches Some(d) && byte_len(d@) > MAX_DATE_LEN {
        Some(EventError::DateTooLong)
    } else if date matches Some(d) && event_moment(d@) is None {
        Some(EventError::DateInvalid)
    } else {
        None
    }
}

fn check_title(title: &String) -> (r: Option<EventError>)
    ensures
        r == title_error(*title),
{
    if trim(title.as_str()).as_str().is_empty() {
        Some(EventError::TitleRequired)
    } else if byte_length(title.as_str()) > MAX_TITLE_LEN {
        Some(EventError::TitleTooLong)
    } else {
        None
    }
}

fn check_details(
    description: &Option<String>,
    location: &Option<String>,
    date: &Option<String>,
) -> (r: Option<EventError>)
    ensures
        r == details_error(*description, *location, *date),
{
    match description {
        Some(d) => {
            if byte_length(d.as_str()) > MAX_DESCRIPTION_LEN {
                return Some(EventError::DescriptionTooLong);
            }
        },
        None => {},
    }
    match location {
        Some(l) => {
            if byte_length(l.as_str()) > MAX_LOCATION_LEN {
                return Some(EventError::LocationTooLong);
            }
        },
        None => {},
    }
    match date {
        Some(d) => {
            if byte_length(d.as_str()) > MAX_DATE_LEN {
                return Some(EventError::DateTooLong);
            }
            if parse_event_datetime(d.as_str()).is_none() {
                return Some(EventError::DateInvalid);
            }
        },
        None => {},
    }
    None
}

/// Why a price of a new event is refused, if it is.
pub open spec fn price_error(p: CreateEventPrice, i: usize) -> Option<EventError> {
    if !is_supported_currency(uppercased(p.currency@)) {
        Some(EventError::UnsupportedCurrency(i))
    } else if !p.amount_is_positive {
        Some(EventError::AmountNotPositive(i))
    } else if p.label matches Some(l) && byte_len(l@) > MAX_LABEL_LEN {
        Some(EventError::LabelTooLong(i))
    } else if p.max_quantity matches Some(q) && q <= 0 {
        Some(EventError::QuantityNotPositive(i))
    } else {
        None
    }
}

/// The first error among the first `n` prices.
pub open spec fn prices_error(prices: Seq<CreateEventPrice>, n: int) -> Option<EventError>
    decreases n,
{
    if n <= 0 {
        None
    } else {
        match prices_error(prices, n - 1) {
            Some(e) => Some(e),
            None => price_error(prices[n - 1], (n - 1) as usize),
        }
    }
}

/// Why an event is not made, if it is not.
pub open spec fn creation_error(req: CreateEventRequest) -> Option<EventError> {
    match title_error(req.title) {
        Some(e) => Some(e),
        None => match details_error(req.description, req.event_location, req.event_date) {
            Some(e) => Some(e),
            None => if req.prices@.len() == 0 {
                Some(EventError::PriceRequired)
            } else if req.prices@.len() > MAX_PRICE_TIERS {
                Some(EventError::TooManyPrices)
            } else {
                prices_error(req.prices@, req.prices@.len() as int)
            },
        },
    }
}

fn check_price(p: &CreateEventPrice, i: usize) -> (r: Option<EventError>)
    ensures
        r == price_error(*p, i),
{
    let currency: String = to_uppercase(p.currency.as_str());
    if !supported_currency(currency.as_str()) {
        return Some(EventError::UnsupportedCurrency(i));
    }
    if !p.amount_is_positive {
        return Some(EventError::AmountNotPositive(i));
    }
    match &p.label {
        Some(l) => {
            if byte_length(l.as_str()) > MAX_LABEL_LEN {
                return Some(EventError::LabelTooLong(i));
            }
        },
        None => {},
    }
    match p.max_quantity {
        Some(q) => {
            if q <= 0 {
                return Some(EventError::QuantityNotPositive(i));
            }
        },
        None => {},
    }
    None
}

// ---------------------------------------------------------------------------
// Making, changing and ending events
// ---------------------------------------------------------------------------

/// A price to store for a new event.
pub struct EventTier {
    pub price_id: String,
    pub currency: String,
    pub label: Option<String>,
    pub max_quantity: Option<i64>,
}

/// Everything to store for a new event: its product, its prices and itself.
pub struct EventPlan {
    pub product_id: String,
    pub slug: String,
    pub default_price_id: String,
    pub tiers: Vec<EventTier>,
    pub event: Event,
}

/// Whether an identifier is one of a price.
pub open spec fn is_price_id(s: Seq<char>) -> bool {
    exists|a: Seq<char>| is_simple(a) && s == #[trigger] ("cprice_"@ + a)
}

/// Draws the identifier of a price.
pub fn generate_price_id() -> (r: String)
    ensures
        is_price_id(r@),
{
    let a: String = new_simple_id();
    join2("cprice_", a.as_str())
}

/// Whether a tier is the one to store for a price.
pub open spec fn tier_of(t: &EventTier, p: &CreateEventPrice) -> bool {
    &&& is_price_id(t.price_id@)
    &&& t.currency@ == uppercased(p.currency@)
    &&& opt_text(t.label) == opt_text(p.label)
    &&& t.max_quantity == p.max_quantity
}

/// Whether a plan is the one for a request.
pub open spec fn planned(
    plan: &EventPlan,
    merchant_id: Seq<char>,
    req: &CreateEventRequest,
    now: Seq<char>,
) -> bool {
    &&& is_hyphenated(plan.product_id@)
    &&& plan.slug@ == slug_of(req.title@)
    &&& plan.tiers@.len() == req.prices@.len()
    &&& forall|i: int|
        0 <= i < plan.tiers@.len() ==> tier_of(#[trigger] &plan.tiers@[i], &req.prices@[i])
    &&& plan.default_price_id@ == plan.tiers@[0].price_id@
    &&& is_hyphenated(plan.event.id@)
    &&& plan.event.merchant_id@ == merchant_id
    &&& plan.event.product_id@ == plan.product_id@
    &&& plan.event.title@ == req.title@
    &&& opt_text(plan.event.description) == opt_text(req.description)
    &&& opt_text(plan.event.event_date) == opt_text(req.event_date)
    &&& opt_text(plan.event.event_location) == opt_text(req.event_location)
    &&& plan.event.status@ == "active"@
    &&& plan.event.created_at@ == now
}

/// Plans a new event with its product and prices. The first price is the
/// default one.
pub fn create_event_with_product_and_prices(
    merchant_id: &str,
    req: &CreateEventRequest,
    now: &str,
) -> (r: Result<EventPlan, EventError>)
    ensures
        match r {
            Ok(plan) => creation_error(*req) is None && planned(&plan, merchant_id@, req, now@),
            Err(e) => creation_error(*req) == Some(e),
        },
{
    match check_title(&req.title) {
        Some(e) => {
            return Err(e);
        },
        None => {},
    }
    match check_details(&req.description, &req.event_location, &req.event_date) {
        Some(e) => {
            return Err(e);
        },
        None => {},
    }
    if req.prices.len() == 0 {
        return Err(EventError::PriceRequired);
    }
    if req.prices.len() > MAX_PRICE_TIERS {
        return Err(EventError::TooManyPrices);
    }
    let mut tiers: Vec<EventTier> = Vec::new();
    let mut i: usize = 0;
    while i < req.prices.len()
        invariant
            i <= req.prices@.len() <= MAX_PRICE_TIERS,
            title_error(req.title) is None,
            details_error(req.description, req.event_location, req.event_date) is None,
            req.prices@.len() > 0,
            prices_error(req.prices@, i as int) is None,
            tiers@.len() == i,
            forall|k: int| 0 <= k < i ==> tier_of(#[trigger] &tiers@[k], &req.prices@[k]),
        decreases req.prices@.len() - i,
    {
        match check_price(&req.prices[i], i) {
            Some(e) => {
                proof {
                    first_price_error(req.prices@, i as int, req.prices@.len() as int);
                }
                return Err(e);
            },
            None => {},
        }
        let tier: EventTier = EventTier {
            price_id: generate_price_id(),
            currency: to_uppercase(req.prices[i].currency.as_str()),
            label: req.prices[i].label.clone(),
            max_quantity: req.prices[i].max_quantity,
        };
        tiers.push(tier);
        i = i + 1;
    }
    let product_id: String = new_id();
    let plan: EventPlan = EventPlan {
        slug: slugify(req.title.as_str()),
        default_price_id: tiers[0].price_id.clone(),
        tiers,
        event: Event {
            id: new_id(),
            merchant_id: merchant_id.to_string(),
            product_id: product_id.clone(),
            title: req.title.clone(),
            description: req.description.clone(),
            event_date: req.event_date.clone(),
            event_location: req.event_location.clone(),
            status: "active".to_string(),
            created_at: now.to_string(),
        },
        product_id,
    };
    Ok(plan)
}

proof fn first_price_error(prices: Seq<CreateEventPrice>, i: int, n: int)
    requires
        0 <= i < n,
        prices_error(prices, i) is None,
        price_error(prices[i], i as usize) is Some,
    ensures
        prices_error(prices, n) == price_error(prices[i], i as usize),
    decreases n,
{
    if n > i + 1 {
        first_price_error(prices, i, n - 1);
    }
}

/// The new value of a field, or the old one where none is given.
pub open spec fn or_else_text(new: Option<String>, old_value: Option<String>) -> Option<Seq<char>> {
    match new {
        Some(t) => Some(t@),
        None => opt_text(old_value),
    }
}

impl Event {
    /// Why a change is refused, if it is.
    pub open spec fn update_error(&self, req: UpdateEventRequest) -> Option<EventError> {
        if self.status@ == "cancelled"@ {
            Some(EventError::Cancelled)
        } else {
            match req.title {
                Some(t) => match title_error(t) {
                    Some(e) => Some(e),
                    None => details_error(req.description, req.event_location, req.event_date),
                },
                None => details_error(req.description, req.event_location, req.event_date),
            }
        }
    }

    /// Whether `after` is the event with the fields that are given.
    pub open spec fn updated_to(&self, after: &Event, req: &UpdateEventRequest) -> bool {
        &&& after.title@ == match req.title {
            Some(t) => t@,
            None => self.title@,
        }
        &&& opt_text(after.description) == or_else_text(req.description, self.description)
        &&& opt_text(after.event_date) == or_else_text(req.event_date, self.event_date)
        &&& opt_text(after.event_location) == or_else_text(req.event_location, self.event_location)
        &&& *after == (Event {
            title: after.title,
            description: after.description,
            event_date: after.event_date,
            event_location: after.event_location,
            ..*self
        })
    }

    /// Changes the fields that are given. A cancelled event cannot be changed.
    pub fn update(&mut self, req: &UpdateEventRequest) -> (r: Result<(), EventError>)
        ensures
            match r {
                Err(e) => old(self).update_error(*req) == Some(e) && *final(self) == *old(self),
                Ok(_) => {
                    &&& old(self).update_error(*req) is None
                    &&& old(self).updated_to(final(self), req)
                },
            },
    {
        if text_eq(self.status.as_str(), "cancelled") {
            return Err(EventError::Cancelled);
        }
        match &req.title {
            Some(t) => match check_title(t) {
                Some(e) => {
                    return Err(e);
                },
                None => {},
            },
            None => {},
        }
        match check_details(&req.description, &req.event_location, &req.event_date) {
            Some(e) => {
                return Err(e);
            },
            None => {},
        }
        match &req.title {
            Some(t) => {
                self.title = t.clone();
            },
            None => {},
        }
        match &req.description {
            Some(d) => {
                self.description = Some(d.clone());
            },
            None => {},
        }
        match &req.event_date {
            Some(d) => {
                self.event_date = Some(d.clone());
            },
            None => {},
        }
        match &req.event_location {
            Some(l) => {
                self.event_location = Some(l.clone());
            },
            None => {},
        }
        Ok(())
    }

    /// Cancels the event.
    pub fn archive(&mut self)
        ensures
            final(self).status@ == "cancelled"@,
            *final(self) == (Event { status: final(self).status, ..*old(self) }),
    {
        self.status = "cancelled".to_string();
    }

    /// Whether the event is active though its date has passed; dates are
    /// compared as texts.
    pub open spec fn is_over(&self, now: Seq<char>) -> bool {
        self.status@ == "active"@ && (opt_text(self.event_date) matches Some(d) && lex_less(d, now))
    }

    /// Marks an active event whose date has passed. Gives whether it was one;
    /// its product is then no longer sold.
    pub fn mark_past(&mut self, now: &str) -> (r: bool)
        ensures
            r == old(self).is_over(now@),
            if r {
                final(self).status@ == "past"@ && *final(self) == (Event {
                    status: final(self).status,
                    ..*old(self)
                })
            } else {
                *final(self) == *old(self)
            },
    {
        let over: bool = text_eq(self.status.as_str(), "active") && match &self.event_date {
            Some(d) => text_less(d.as_str(), now),
            None => false,
        };
        if over {
            self.status = "past".to_string();
        }
        over
    }

    /// The part of the event that a ticket shows; a cancelled event shows
    /// nothing.
    pub fn context(&self) -> (r: Option<EventContext>)
        ensures
            match r {
                Some(c) => {
                    &&& self.status@ == "draft"@ || self.status@ == "active"@ || self.status@
                        == "past"@
                    &&& c.event_title@ == self.title@
                    &&& opt_text(c.event_date) == opt_text(self.event_date)
                    &&& opt_text(c.event_location) == opt_text(self.event_location)
                },
                None => self.status@ != "draft"@ && self.status@ != "active"@ && self.status@
                    != "past"@,
            },
    {
        if text_eq(self.status.as_str(), "draft") || text_eq(self.status.as_str(), "active")
            || text_eq(self.status.as_str(), "past") {
            Some(
                EventContext {
                    event_title: self.title.clone(),
                    event_date: self.event_date.clone(),
                    event_location: self.event_location.clone(),
                },
            )
        } else {
            None
        }
    }
}

// ---------------------------------------------------------------------------
// Events with what they sell
// ---------------------------------------------------------------------------

/// A ticket that was issued.
pub struct Ticket {
    pub id: String,
    pub status: String,
}

/// An event with the product under which it is sold, and the tickets that were
/// issued.
pub struct EventFile {
    pub event: Event,
    pub product: Product,
    pub tickets: Vec<Ticket>,
}

/// The ticket once it can no longer be used, where it was not used before.
pub open spec fn voided(before: &Ticket, after: &Ticket) -> bool {
    &&& after.id == before.id
    &&& after.status@ == if before.status@ == "valid"@ {
        "void"@
    } else {
        before.status@
    }
}

/// Whether all tickets are voided.
pub open spec fn all_voided(before: Seq<Ticket>, after: Seq<Ticket>) -> bool {
    &&& after.len() == before.len()
    &&& forall|i: int| 0 <= i < before.len() ==> voided(&before[i], #[trigger] &after[i])
}

/// Whether a product is taken from sale.
pub open spec fn off_sale(before: &Product, after: &Product) -> bool {
    *after == (Product { active: 0, ..*before })
}

impl EventFile {
    /// The product is the one under which the event is sold.
    pub open spec fn wf(&self) -> bool {
        self.product.id@ == self.event.product_id@ && self.product.merchant_id@
            == self.event.merchant_id@
    }

    /// Whether tickets can still be bought.
    pub open spec fn sells(&self) -> bool {
        self.product.active == 1
    }

    /// Changes an event of a merchant, and with its title and description those
    /// of its product. Gives whether it is an event of the merchant.
    pub fn update_event(&mut self, merchant_id: &str, req: &UpdateEventRequest) -> (r: Result<
        bool,
        EventError,
    >)
        requires
            old(self).wf(),
        ensures
            final(self).wf(),
            match r {
                Ok(false) => old(self).event.merchant_id@ != merchant_id@ && *final(self) == *old(
                    self,
                ),
                Err(e) => {
                    &&& old(self).event.merchant_id@ == merchant_id@
                    &&& old(self).event.update_error(*req) == Some(e)
                    &&& *final(self) == *old(self)
                },
                Ok(true) => {
                    &&& old(self).event.merchant_id@ == merchant_id@
                    &&& old(self).event.update_error(*req) is None
                    &&& old(self).event.updated_to(&final(self).event, req)
                    &&& final(self).product.name@ == match req.title {
                        Some(t) => t@,
                        None => old(self).product.name@,
                    }
                    &&& opt_text(final(self).product.description) == or_else_text(
                        req.description,
                        old(self).product.description,
                    )
                    &&& final(self).product == (Product {
                        name: final(self).product.name,
                        description: final(self).product.description,
                        ..old(self).product
                    })
                    &&& final(self).tickets == old(self).tickets
                },
            },
    {
        if !text_eq(self.event.merchant_id.as_str(), merchant_id) {
            return Ok(false);
        }
        match self.event.update(req) {
            Err(e) => Err(e),
            Ok(_) => {
                match &req.title {
                    Some(t) => {
                        self.product.name = t.clone();
                    },
                    None => {},
                }
                match &req.description {
                    Some(d) => {
                        self.product.description = Some(d.clone());
                    },
                    None => {},
                }
                Ok(true)
            },
        }
    }

    fn void_tickets(&mut self)
        ensures
            final(self).event == old(self).event,
            final(self).product == old(self).product,
            all_voided(old(self).tickets@, final(self).tickets@),
    {
        let ghost before = self.tickets@;
        let n: usize = self.tickets.len();
        let mut i: usize = 0;
        while i < n
            invariant
                i <= n,
                n == before.len(),
                self.event == old(self).event,
                self.product == old(self).product,
                self.tickets@.len() == n,
                forall|k: int| 0 <= k < i ==> voided(&before[k], #[trigger] &self.tickets@[k]),
                forall|k: int| i <= k < n ==> #[trigger] self.tickets@[k] == before[k],
            decreases n - i,
        {
            if text_eq(self.tickets[i].status.as_str(), "valid") {
                let id: String = self.tickets[i].id.clone();
                self.tickets.set(i, Ticket { id, status: "void".to_string() });
            }
            i = i + 1;
        }
    }

    /// Cancels an event of a merchant: it is no longer sold, and tickets that
    /// were not used are void. Gives whether it is an event of the merchant.
    pub fn archive_event(&mut self, merchant_id: &str) -> (r: bool)
        requires
            old(self).wf(),
        ensures
            final(self).wf(),
            r == (old(self).event.merchant_id@ == merchant_id@),
            !r ==> *final(self) == *old(self),
            r ==> {
                &&& final(self).event.status@ == "cancelled"@
                &&& final(self).event == (Event {
                    status: final(self).event.status,
                    ..old(self).event
                })
                &&& off_sale(&old(self).product, &final(self).product)
                &&& all_voided(old(self).tickets@, final(self).tickets@)
            },
    {
        if !text_eq(self.event.merchant_id.as_str(), merchant_id) {
            return false;
        }
        self.event.archive();
        self.product.active = 0;
        self.void_tickets();
        true
    }

    /// Marks the event where it is over, and takes its product from sale.
    pub fn mark_past(&mut self, now: &str) -> (r: bool)
        requires
            old(self).wf(),
        ensures
            final(self).wf(),
            r == old(self).event.is_over(now@),
            !r ==> *final(self) == *old(self),
            r ==> {
                &&& final(self).event.status@ == "past"@
                &&& final(self).event == (Event {
                    status: final(self).event.status,
                    ..old(self).event
                })
                &&& off_sale(&old(self).product, &final(self).product)
                &&& final(self).tickets == old(self).tickets
            },
    {
        if self.event.mark_past(now) {
            self.product.active = 0;
            true
        } else {
            false
        }
    }
}

/// Whether `after` is the file of an event once it was looked at whether the
/// event is over.
pub open spec fn looked_over(before: &EventFile, after: &EventFile, now: Seq<char>) -> bool {
    if before.event.is_over(now) {
        &&& after.event.status@ == "past"@
        &&& after.event == (Event { status: after.event.status, ..before.event })
        &&& off_sale(&before.product, &after.product)
        &&& after.tickets == before.tickets
    } else {
        *after == *before
    }
}

/// How many events are over though they are active.
pub open spec fn count_over(files: Seq<EventFile>, now: Seq<char>) -> nat
    decreases files.len(),
{
    if files.len() == 0 {
        0
    } else {
        count_over(files.drop_last(), now) + if files.last().event.is_over(now) {
            1nat
        } else {
            0nat
        }
    }
}

/// Marks all events that are over, and takes their products from sale. Gives
/// how many there were.
pub fn mark_past_events(files: &mut Vec<EventFile>, now: &str) -> (r: usize)
    requires
        forall|i: int| 0 <= i < old(files)@.len() ==> (#[trigger] old(files)@[i]).wf(),
    ensures
        r == count_over(old(files)@, now@),
        final(files)@.len() == old(files)@.len(),
        forall|i: int|
            0 <= i < old(files)@.len() ==> looked_over(
                &old(files)@[i],
                #[trigger] &final(files)@[i],
                now@,
            ),
{
    let ghost before = files@;
    let n: usize = files.len();
    let mut r: usize = 0;
    let mut i: usize = 0;
    let mut done: Vec<EventFile> = Vec::new();
    while i < n
        invariant
            i <= n,
            n == before.len(),
            r <= i,
            r == count_over(before.take(i as int), now@),
            done@.len() == i,
            files@ == before.skip(i as int),
            forall|k: int| 0 <= k < before.len() ==> (#[trigger] before[k]).wf(),
            forall|k: int| 0 <= k < i ==> looked_over(&before[k], #[trigger] &done@[k], now@),
        decreases n - i,
    {
        let mut file: EventFile = files.remove(0);
        assert(file == before[i as int]);
        assert(files@ =~= before.skip(i + 1));
        assert(before.take(i + 1).drop_last() =~= before.take(i as int));
        if file.mark_past(now) {
            r = r + 1;
        }
        done.push(file);
        i = i + 1;
    }
    assert(before.take(n as int) =~= before);
    *files = done;
    r
}

/// An event that was cancelled or has ended is not sold any more.
pub proof fn ended_event_sells_nothing(before: EventFile, after: EventFile, now: Seq<char>)
    requires
        before.event.is_over(now),
        looked_over(&before, &after, now),
    ensures
        !after.sells(),
{
}

/// No ticket of a cancelled event lets anybody in.
pub proof fn cancelled_event_has_no_valid_ticket(before: Seq<Ticket>, after: Seq<Ticket>, i: int)
    requires
        all_voided(before, after),
        0 <= i < after.len(),
    ensures
        after[i].status@ != "valid"@,
{
    reveal_strlit("valid");
    reveal_strlit("void");
    assert("valid"@.len() != "void"@.len());
    assert(voided(&before[i], &after[i]));
}

// ---------------------------------------------------------------------------
// Laws on what is accepted
// ---------------------------------------------------------------------------

/// A title is not blank and has 200 bytes at most.
pub proof fn title_is_not_blank(title: String)
    ensures
        trimmed(title@).len() == 0 <==> title_error(title) == Some(EventError::TitleRequired),
        trimmed(title@).len() > 0 && byte_len(title@) > 200 <==> title_error(title) == Some(
            EventError::TitleTooLong,
        ),
        trimmed(title@).len() > 0 && byte_len(title@) <= 200 <==> title_error(title) is None,
{
}

/// The texts about an event are held to their limits, and its date can be read.
pub proof fn details_are_limited(
    description: Option<String>,
    location: Option<String>,
    date: Option<String>,
)
    ensures
        ({
            let e = details_error(description, location, date);
            let described = description is None || byte_len(description->0@) <= 2000;
            let placed = location is None || byte_len(location->0@) <= 300;
            let short = date is None || byte_len(date->0@) <= 30;
            let dated = date is None || event_moment(date->0@) is Some;
            &&& !described <==> e == Some(EventError::DescriptionTooLong)
            &&& described && !placed <==> e == Some(EventError::LocationTooLong)
            &&& described && placed && !short <==> e == Some(EventError::DateTooLong)
            &&& described && placed && short && !dated <==> e == Some(EventError::DateInvalid)
            &&& described && placed && short && dated <==> e is None
        }),
{
}

/// A price of an event is in a supported currency, whatever its case, above
/// zero, with a label of 100 bytes at most and places above zero where they are
/// limited.
pub proof fn event_price_is_valid(p: CreateEventPrice, i: usize)
    ensures
        ({
            let e = price_error(p, i);
            let supported = is_supported_currency(uppercased(p.currency@));
            let label = p.label is None || byte_len(p.label->0@) <= 100;
            let places = p.max_quantity is None || p.max_quantity->0 > 0;
            &&& !supported <==> e == Some(EventError::UnsupportedCurrency(i))
            &&& supported && !p.amount_is_positive <==> e == Some(EventError::AmountNotPositive(i))
            &&& supported && p.amount_is_positive && !label <==> e == Some(
                EventError::LabelTooLong(i),
            )
            &&& supported && p.amount_is_positive && label && !places <==> e == Some(
                EventError::QuantityNotPositive(i),
            )
            &&& supported && p.amount_is_positive && label && places <==> e is None
        }),
{
}

/// The prices of an event are accepted where each is, and the first that is not
/// is named.
pub proof fn first_bad_price_is_named(prices: Seq<CreateEventPrice>, n: int)
    requires
        0 <= n <= prices.len(),
        prices.len() <= usize::MAX,
    ensures
        match prices_error(prices, n) {
            None => forall|i: int|
                0 <= i < n ==> price_error(#[trigger] prices[i], i as usize) is None,
            Some(e) => exists|i: int|
                0 <= i < n && price_error(#[trigger] prices[i], i as usize) == Some(e)
                    && forall|k: int|
                    0 <= k < i ==> price_error(#[trigger] prices[k], k as usize) is None,
        },
    decreases n,
{
    if n > 0 {
        first_bad_price_is_named(prices, n - 1);
        match prices_error(prices, n - 1) {
            Some(e) => {
                let i = choose|i: int|
                    0 <= i < n - 1 && price_error(#[trigger] prices[i], i as usize) == Some(e)
                        && forall|k: int|
                        0 <= k < i ==> price_error(#[trigger] prices[k], k as usize) is None;
                assert(price_error(prices[i], i as usize) == Some(e));
            },
            None => {
                assert(prices[n - 1] == prices[n - 1]);
            },
        }
    }
}

/// An event is made with a title, details and at least one price, 20 at most;
/// the first thing amiss is the error.
pub proof fn event_is_made_where_nothing_fails(req: CreateEventRequest)
    ensures
        ({
            let e = creation_error(req);
            let title = title_error(req.title);
            let details = details_error(req.description, req.event_location, req.event_date);
            let texts = title is None && details is None;
            let n = req.prices@.len();
            &&& title is Some ==> e == title
            &&& title is None && details is Some ==> e == details
            &&& texts && n == 0 ==> e == Some(EventError::PriceRequired)
            &&& texts && n > 20 ==> e == Some(EventError::TooManyPrices)
            &&& texts && 1 <= n <= 20 ==> e == prices_error(req.prices@, n as int)
        }),
{
}

/// A cancelled event is not changed any more. Otherwise what is asked for is
/// held to the same limits as a new event.
pub proof fn cancelled_event_stays(event: &Event, req: UpdateEventRequest)
    ensures
        ({
            let e = event.update_error(req);
            let details = details_error(req.description, req.event_location, req.event_date);
            let off = event.status@ == "cancelled"@;
            let title = req.title is Some && title_error(req.title->0) is Some;
            &&& off ==> e == Some(EventError::Cancelled)
            &&& !off && title ==> e == title_error(req.title->0)
            &&& !off && !title ==> e == details
        }),
{
}

/// A change takes over what it names and keeps the rest; it moves no event to
/// another merchant and changes no status.
pub proof fn event_keeps_what_is_not_changed(
    before: &Event,
    after: &Event,
    req: &UpdateEventRequest,
)
    requires
        before.updated_to(after, req),
    ensures
        req.title matches Some(t) ==> after.title@ == t@,
        req.title is None ==> after.title@ == before.title@,
        req.description is Some ==> opt_text(after.description) == opt_text(req.description),
        req.description is None ==> opt_text(after.description) == opt_text(before.description),
        req.event_date is Some ==> opt_text(after.event_date) == opt_text(req.event_date),
        req.event_date is None ==> opt_text(after.event_date) == opt_text(before.event_date),
        req.event_location is Some ==> opt_text(after.event_location) == opt_text(
            req.event_location,
        ),
        req.event_location is None ==> opt_text(after.event_location) == opt_text(
            before.event_location,
        ),
        after.status == before.status && after.id == before.id && after.merchant_id
            == before.merchant_id && after.product_id == before.product_id,
{
}

/// An event that is planned has the product, the prices and the texts that were
/// asked for. It is active, and its first price is the default one.
pub proof fn event_is_planned_as_asked(
    plan: &EventPlan,
    merchant_id: Seq<char>,
    req: &CreateEventRequest,
    now: Seq<char>,
    i: int,
)
    requires
        planned(plan, merchant_id, req, now),
        0 <= i < req.prices@.len(),
    ensures
        plan.event.status@ == "active"@,
        plan.event.merchant_id@ == merchant_id,
        plan.event.product_id@ == plan.product_id@,
        plan.event.title@ == req.title@,
        opt_text(plan.event.event_date) == opt_text(req.event_date),
        opt_text(plan.event.event_location) == opt_text(req.event_location),
        opt_text(plan.event.description) == opt_text(req.description),
        plan.event.created_at@ == now,
        plan.tiers@.len() == req.prices@.len(),
        plan.tiers@[i].currency@ == uppercased(req.prices@[i].currency@),
        plan.tiers@[i].max_quantity == req.prices@[i].max_quantity,
        opt_text(plan.tiers@[i].label) == opt_text(req.prices@[i].label),
        plan.default_price_id@ == plan.tiers@[0].price_id@,
{
    assert(tier_of(&plan.tiers@[i], &req.prices@[i]));
}

/// An event is over once its date has passed, if it is active. Looking after it
/// then marks it as past and takes its product off sale, and its tickets stay
/// valid. Any other event stays as it is.
pub proof fn passed_event_is_marked(before: &EventFile, after: &EventFile, now: Seq<char>)
    requires
        looked_over(before, after, now),
    ensures
        ({
            let passed = before.event.status@ == "active"@ && before.event.event_date is Some
                && lex_less(before.event.event_date->0@, now);
            &&& before.event.is_over(now) <==> passed
            &&& passed ==> after.event.status@ == "past"@ && after.product.active == 0
                && after.tickets == before.tickets
            &&& !passed ==> *after == *before
        }),
        after.event.id == before.event.id && after.product.id == before.product.id,
{
}

/// Voiding takes each valid ticket, and leaves a ticket that was used as it is.
pub proof fn valid_ticket_is_voided(before: &Ticket, after: &Ticket)
    requires
        voided(before, after),
    ensures
        before.status@ == "valid"@ ==> after.status@ == "void"@,
        before.status@ != "valid"@ ==> after.status@ == before.status@,
        after.status@ != "valid"@,
        after.id == before.id,
{
    reveal_strlit("valid");
    reveal_strlit("void");
    assert("valid"@.len() != "void"@.len());
}

/// A date has passed where it can be read and lies before the moment.
pub proof fn date_passes(date: Seq<char>, at: Moment, now: Moment)
    requires
        event_moment(date) == Some(at),
    ensures
        is_past_date(Some(date), now) <==> at.secs < now.secs || at.secs == now.secs && at.nanos
            < now.nanos,
        !is_past_date(None, now),
{
}

/// A date that cannot be read never passes. What stands behind the last full
/// stop, and a sign for the zone, are left aside, and of the two forms the one
/// with seconds goes first.
pub proof fn event_date_has_two_forms(date: Seq<char>, now: Moment)
    requires
        !date.contains('.'),
        date.len() > 0 ==> date.last() != 'Z',
    ensures
        ({
            let seconds = parsed_datetime(date, "%Y-%m-%dT%H:%M:%S"@);
            let minutes = parsed_datetime(date, "%Y-%m-%dT%H:%M"@);
            &&& seconds is Some ==> event_moment(date) == seconds && event_moment(date.push('Z'))
                == seconds
            &&& seconds is None ==> event_moment(date) == minutes && event_moment(date.push('Z'))
                == minutes
            &&& seconds is None && minutes is None ==> !is_past_date(Some(date), now)
        }),
{
    no_stop_to_cut_at(date);
    let zoned = date.push('Z');
    assert(zoned.drop_last() =~= date);
    assert(without_zone(zoned) == without_zone(date));
}

proof fn no_stop_to_cut_at(s: Seq<char>)
    requires
        !s.contains('.'),
    ensures
        until_last_stop(s) is None,
    decreases s.len(),
{
    if s.len() > 0 {
        let rest = s.drop_last();
        assert(s[s.len() - 1] == s.last());
        assert(!rest.contains('.')) by {
            if rest.contains('.') {
                let i = choose|i: int| 0 <= i < rest.len() && rest[i] == '.';
                assert(s[i] == '.');
            }
        }
        no_stop_to_cut_at(rest);
    }
}

/// A fraction of a second behind a full stop is left aside.
pub proof fn fraction_is_left_aside(date: Seq<char>, fraction: Seq<char>)
    requires
        !date.contains('.'),
        !fraction.contains('.'),
        fraction.len() > 0,
        fraction.last() != 'Z',
    ensures
        ({
            let dated = date + seq!['.'] + fraction;
            let seconds = parsed_datetime(date, "%Y-%m-%dT%H:%M:%S"@);
            &&& seconds is Some ==> event_moment(dated) == seconds
            &&& seconds is None ==> event_moment(dated) == parsed_datetime(date, "%Y-%m-%dT%H:%M"@)
        }),
{
    let dated = date + seq!['.'] + fraction;
    assert(dated.last() == fraction.last());
    assert(without_zone(dated) == dated);
    cut_at_the_stop(date, fraction);
}

proof fn cut_at_the_stop(date: Seq<char>, fraction: Seq<char>)
    requires
        !fraction.contains('.'),
    ensures
        until_last_stop(date + seq!['.'] + fraction) == Some(date),
    decreases fraction.len(),
{
    let dated = date + seq!['.'] + fraction;
    if fraction.len() == 0 {
        assert(dated.drop_last() =~= date);
        assert(dated.last() == '.');
    } else {
        let rest = fraction.drop_last();
        assert(fraction[fraction.len() - 1] == fraction.last());
        assert(!rest.contains('.')) by {
            if rest.contains('.') {
                let i = choose|i: int| 0 <= i < rest.len() && rest[i] == '.';
                assert(fraction[i] == '.');
            }
        }
        cut_at_the_stop(date, rest);
        assert(dated.drop_last() =~= date + seq!['.'] + rest);
        assert(dated.last() == fraction.last());
    }
}

/// One more event counts as over where it is.
pub proof fn passed_events_are_counted(files: Seq<EventFile>, f: EventFile, now: Seq<char>)
    ensures
        count_over(Seq::<EventFile>::empty(), now) == 0,
        f.event.is_over(now) ==> count_over(files.push(f), now) == count_over(files, now) + 1,
        !f.event.is_over(now) ==> count_over(files.push(f), now) == count_over(files, now),
{
    assert(files.push(f).drop_last() =~= files);
}

} // verus!
