//! The guest-list service: importing and following its events, and registering
//! the guests who paid.

use vstd::prelude::*;

use crate::clock::{format_datetime, formatted_datetime, Moment, MINUTES_FORMAT, SECONDS_FORMAT};
use crate::crypto::{decrypt, decrypted, is_stored_form, CryptoError};
use crate::events::{
    all_voided, date_has_passed, event_moment, is_past_date, off_sale, parse_event_datetime,
    CreateEventPrice, CreateEventRequest, Event, EventFile,
};
use crate::products::Product;
use crate::text::{
    contains, lex_less, lowercased, occurs_in, opt_str, opt_text, text_eq, text_less, to_lowercase,
    to_uppercase, uppercased,
};

verus! {

/// How often a registration is tried again.
pub const MAX_LUMA_RETRIES: i64 = 5;

/// Longest wait, in minutes, before a registration is tried again.
pub const MAX_BACKOFF_MINUTES: i64 = 60;

/// An event of the service; of its place the full address is kept.
#[derive(Debug)]
pub struct LumaEvent {
    pub api_id: String,
    pub name: String,
    pub start_at: Option<String>,
    pub end_at: Option<String>,
    pub cover_url: Option<String>,
    pub url: Option<String>,
    pub timezone: Option<String>,
    pub full_address: Option<String>,
}

/// An event as the service lists it, where anything may be missing.
#[derive(Debug)]
pub struct LumaRawEvent {
    pub api_id: Option<String>,
    pub name: Option<String>,
    pub start_at: Option<String>,
    pub end_at: Option<String>,
    pub cover_url: Option<String>,
    pub url: Option<String>,
    pub timezone: Option<String>,
    pub full_address: Option<String>,
}

/// A ticket type of the service, without its amount.
#[derive(Debug)]
pub struct LumaTicketType {
    pub api_id: String,
    pub name: Option<String>,
    pub currency: Option<String>,
    pub max_capacity: Option<i64>,
}

#[derive(Debug)]
pub struct AddGuestResponse {
    pub api_id: Option<String>,
    pub approval_status: Option<String>,
}

// ---------------------------------------------------------------------------
// Lists
// ---------------------------------------------------------------------------

/// Whether an event is what a listed one gives; one without an identifier
/// gives none.
pub open spec fn cleaned(raw: LumaRawEvent, e: LumaEvent) -> bool {
    &&& opt_text(raw.api_id) == Some(e.api_id@)
    &&& e.name@ == match raw.name {
        Some(n) => n@,
        None => Seq::empty(),
    }
    &&& opt_text(e.start_at) == opt_text(raw.start_at)
    &&& opt_text(e.end_at) == opt_text(raw.end_at)
    &&& opt_text(e.cover_url) == opt_text(raw.cover_url)
    &&& opt_text(e.url) == opt_text(raw.url)
    &&& opt_text(e.timezone) == opt_text(raw.timezone)
    &&& opt_text(e.full_address) == opt_text(raw.full_address)
}

/// Whether the events are those that the first `n` listed entries give.
pub open spec fn listed(
    entries: Seq<Option<LumaRawEvent>>,
    out: Seq<LumaEvent>,
    n: int,
) -> bool
    decreases n,
{
    if n <= 0 {
        out.len() == 0
    } else if entries[n - 1] matches Some(raw) && raw.api_id is Some {
        &&& out.len() > 0
        &&& cleaned(entries[n - 1]->0, out.last())
        &&& listed(entries, out.drop_last(), n - 1)
    } else {
        listed(entries, out, n - 1)
    }
}

/// Takes the events out of a list, leaving out what has no identifier.
pub fn events_from_list(entries: &Vec<Option<LumaRawEvent>>) -> (r: Vec<LumaEvent>)
    ensures
        listed(entries@, r@, entries@.len() as int),
{
    let mut out: Vec<LumaEvent> = Vec::new();
    let mut i: usize = 0;
    while i < entries.len()
        invariant
            i <= entries@.len(),
            listed(entries@, out@, i as int),
        decreases entries@.len() - i,
    {
        match &entries[i] {
            Some(raw) => match &raw.api_id {
                Some(id) => {
                    let ghost before = out@;
                    let name: String = match &raw.name {
                        Some(n) => n.clone(),
                        None => String::new(),
                    };
                    out.push(
                        LumaEvent {
                            api_id: id.clone(),
                            name,
                            start_at: raw.start_at.clone(),
                            end_at: raw.end_at.clone(),
                            cover_url: raw.cover_url.clone(),
                            url: raw.url.clone(),
                            timezone: raw.timezone.clone(),
                            full_address: raw.full_address.clone(),
                        },
                    );
                    assert(out@.drop_last() =~= before);
                },
                None => {},
            },
            None => {},
        }
        i = i + 1;
    }
    out
}

/// The place of the first event with an identifier among the first `n`.
pub open spec fn event_place(events: Seq<LumaEvent>, id: Seq<char>, n: int) -> Option<int>
    decreases n,
{
    if n <= 0 {
        None
    } else {
        match event_place(events, id, n - 1) {
            Some(i) => Some(i),
            None => if events[n - 1].api_id@ == id {
                Some(n - 1)
            } else {
                None
            },
        }
    }
}

/// Finds the event with an identifier.
pub fn find_event(events: &Vec<LumaEvent>, id: &str) -> (r: Option<usize>)
    ensures
        match r {
            Some(i) => i < events@.len() && events@[i as int].api_id@ == id@ && event_place(
                events@,
                id@,
                events@.len() as int,
            ) == Some(i as int),
            None => event_place(events@, id@, events@.len() as int) is None,
        },
{
    let mut found: Option<usize> = None;
    let mut i: usize = 0;
    while i < events.len()
        invariant
            i <= events@.len(),
            match found {
                Some(k) => k < i && events@[k as int].api_id@ == id@ && event_place(
                    events@,
                    id@,
                    i as int,
                ) == Some(k as int),
                None => event_place(events@, id@, i as int) is None,
            },
        decreases events@.len() - i,
    {
        if found.is_none() && text_eq(events[i].api_id.as_str(), id) {
            found = Some(i);
        }
        i = i + 1;
    }
    found
}

/// Whether an event can be imported: it was not yet, and has not begun.
pub open spec fn is_importable(
    e: &LumaEvent,
    imported: Seq<String>,
    now: Moment,
) -> bool {
    &&& forall|i: int| 0 <= i < imported.len() ==> (#[trigger] imported[i])@ != e.api_id@
    &&& !is_past_date(opt_text(e.start_at), now)
}

/// Whether an event can be imported: it was not yet, and has not begun.
pub fn importable(e: &LumaEvent, imported: &Vec<String>, now: Moment) -> (r: bool)
    ensures
        r == is_importable(e, imported@, now),
{
    let mut i: usize = 0;
    while i < imported.len()
        invariant
            i <= imported@.len(),
            forall|k: int| 0 <= k < i ==> (#[trigger] imported@[k])@ != e.api_id@,
        decreases imported@.len() - i,
    {
        if text_eq(imported[i].as_str(), e.api_id.as_str()) {
            return false;
        }
        i = i + 1;
    }
    match &e.start_at {
        Some(s) => !date_has_passed(Some(s.as_str()), now),
        None => true,
    }
}

/// The date of an event in the form in which it is stored: without seconds and
/// without a zone.
pub open spec fn normalized_date(s: Seq<char>) -> Option<Seq<char>> {
    match event_moment(s) {
        Some(m) => formatted_datetime(m, MINUTES_FORMAT@),
        None => None,
    }
}

/// Puts the date of an event into the form in which it is stored.
pub fn normalize_luma_date(s: &str) -> (r: Option<String>)
    ensures
        opt_text(r) == normalized_date(s@),
{
    match parse_event_datetime(s) {
        Some(m) => format_datetime(m, MINUTES_FORMAT),
        None => None,
    }
}

/// The stored date of an event of the service.
pub open spec fn stored_date(e: &LumaEvent) -> Option<Seq<char>> {
    match e.start_at {
        Some(s) => normalized_date(s@),
        None => None,
    }
}

fn date_to_store(e: &LumaEvent) -> (r: Option<String>)
    ensures
        opt_text(r) == stored_date(e),
{
    match &e.start_at {
        Some(s) => normalize_luma_date(s.as_str()),
        None => None,
    }
}

/// The currency of a ticket type, by default the dollar.
pub open spec fn ticket_currency(t: &LumaTicketType) -> Seq<char> {
    match t.currency {
        Some(c) => uppercased(c@),
        None => "USD"@,
    }
}

/// The currency of a ticket type, by default the dollar.
pub fn currency_of_ticket(t: &LumaTicketType) -> (r: String)
    ensures
        r@ == ticket_currency(t),
{
    match &t.currency {
        Some(c) => to_uppercase(c.as_str()),
        None => "USD".to_string(),
    }
}

// ---------------------------------------------------------------------------
// Import
// ---------------------------------------------------------------------------

/// Why an event is not imported.
#[derive(Debug, Clone, Copy, PartialEq, Eq, Structural)]
pub enum ImportError {
    AlreadyImported,
    NotFound,
    NoTicketTypes,
}

impl ImportError {
    pub open spec fn spec_reply(self) -> (u16, Seq<char>) {
        match self {
            ImportError::AlreadyImported => (409, "Event already imported"@),
            ImportError::NotFound => (404, "Luma event not found"@),
            ImportError::NoTicketTypes => (400, "No ticket types found for this Luma event"@),
        }
    }

    /// The HTTP status and the message with which the import is refused.
    pub fn reply(&self) -> (r: (u16, &'static str))
        ensures
            (r.0, r.1@) == self.spec_reply(),
    {
        match self {
            ImportError::AlreadyImported => (409, "Event already imported"),
            ImportError::NotFound => (404, "Luma event not found"),
            ImportError::NoTicketTypes => (400, "No ticket types found for this Luma event"),
        }
    }
}

/// Whether a price is the one that a ticket type gives. A free ticket is sold
/// for the smallest amount, so every amount is positive.
pub open spec fn price_of_ticket(p: &CreateEventPrice, t: &LumaTicketType) -> bool {
    &&& p.currency@ == ticket_currency(t)
    &&& p.amount_is_positive
    &&& opt_text(p.label) == opt_text(t.name)
    &&& p.max_quantity == t.max_capacity
}

/// Whether a request is the one that an event and its ticket types give.
pub open spec fn request_of(
    req: &CreateEventRequest,
    e: &LumaEvent,
    types: Seq<LumaTicketType>,
) -> bool {
    &&& req.title@ == e.name@
    &&& req.description is None
    &&& opt_text(req.event_date) == stored_date(e)
    &&& opt_text(req.event_location) == opt_text(e.full_address)
    &&& req.prices@.len() == types.len()
    &&& forall|i: int|
        0 <= i < types.len() ==> price_of_ticket(#[trigger] &req.prices@[i], &types[i])
}

/// Why an event is not imported, if it is not.
pub open spec fn import_error(
    already_imported: bool,
    events: Seq<LumaEvent>,
    id: Seq<char>,
    types: Seq<LumaTicketType>,
) -> Option<ImportError> {
    if already_imported {
        Some(ImportError::AlreadyImported)
    } else if event_place(events, id, events.len() as int) is None {
        Some(ImportError::NotFound)
    } else if types.len() == 0 {
        Some(ImportError::NoTicketTypes)
    } else {
        None
    }
}

/// Turns an event of the service into a request for one of our own.
pub fn import_event(
    already_imported: bool,
    events: &Vec<LumaEvent>,
    id: &str,
    types: &Vec<LumaTicketType>,
) -> (r: Result<CreateEventRequest, ImportError>)
    ensures
        match r {
            Err(e) => import_error(already_imported, events@, id@, types@) == Some(e),
            Ok(req) => {
                &&& import_error(already_imported, events@, id@, types@) is None
                &&& event_place(events@, id@, events@.len() as int) matches Some(i)
                &&& request_of(&req, &events@[i], types@)
            },
        },
{
    if already_imported {
        return Err(ImportError::AlreadyImported);
    }
    let i: usize = match find_event(events, id) {
        Some(i) => i,
        None => {
            return Err(ImportError::NotFound);
        },
    };
    if types.len() == 0 {
        return Err(ImportError::NoTicketTypes);
    }
    let e: &LumaEvent = &events[i];
    let mut prices: Vec<CreateEventPrice> = Vec::new();
    let mut k: usize = 0;
    while k < types.len()
        invariant
            k <= types@.len(),
            prices@.len() == k,
            forall|m: int| 0 <= m < k ==> price_of_ticket(#[trigger] &prices@[m], &types@[m]),
        decreases types@.len() - k,
    {
        let p: CreateEventPrice = CreateEventPrice {
            currency: currency_of_ticket(&types[k]),
            amount_is_positive: true,
            label: types[k].name.clone(),
            max_quantity: types[k].max_capacity,
        };
        prices.push(p);
        k = k + 1;
    }
    Ok(
        CreateEventRequest {
            title: e.name.clone(),
            description: None,
            event_date: date_to_store(e),
            event_location: e.full_address.clone(),
            prices,
        },
    )
}

/// A stored price of an event: its identifier, its label and the ticket type
/// that it follows.
pub struct TierRow {
    pub price_id: String,
    pub label: Option<String>,
    pub luma_ticket_type_id: Option<String>,
}

/// The first of the first `n` ticket types with a name.
pub open spec fn type_named(
    types: Seq<LumaTicketType>,
    name: Option<Seq<char>>,
    n: int,
) -> Option<int>
    decreases n,
{
    if n <= 0 {
        None
    } else {
        match type_named(types, name, n - 1) {
            Some(i) => Some(i),
            None => if opt_text(types[n - 1].name) == name {
                Some(n - 1)
            } else {
                None
            },
        }
    }
}

/// The ticket type that a price of an imported event follows: the first one
/// whose name is the label of the price.
pub fn ticket_type_for(row: &TierRow, types: &Vec<LumaTicketType>) -> (r: Option<String>)
    ensures
        match r {
            Some(id) => type_named(types@, opt_text(row.label), types@.len() as int) matches Some(i)
                && id@ == types@[i].api_id@,
            None => type_named(types@, opt_text(row.label), types@.len() as int) is None,
        },
{
    let mut found: Option<usize> = None;
    let mut i: usize = 0;
    while i < types.len()
        invariant
            i <= types@.len(),
            match found {
                Some(k) => k < i && type_named(types@, opt_text(row.label), i as int) == Some(
                    k as int,
                ),
                None => type_named(types@, opt_text(row.label), i as int) is None,
            },
        decreases types@.len() - i,
    {
        if found.is_none() && same_text(&types[i].name, &row.label) {
            found = Some(i);
        }
        i = i + 1;
    }
    match found {
        Some(k) => Some(types[k].api_id.clone()),
        None => None,
    }
}

fn same_text(a: &Option<String>, b: &Option<String>) -> (r: bool)
    ensures
        r == (opt_text(*a) == opt_text(*b)),
{
    match (a, b) {
        (Some(x), Some(y)) => text_eq(x.as_str(), y.as_str()),
        (None, None) => true,
        _ => false,
    }
}

// ---------------------------------------------------------------------------
// Following an event
// ---------------------------------------------------------------------------

/// The first of the first `n` stored prices that follows a ticket type.
pub open spec fn tier_linked(tiers: Seq<TierRow>, id: Seq<char>, n: int) -> Option<int>
    decreases n,
{
    if n <= 0 {
        None
    } else {
        match tier_linked(tiers, id, n - 1) {
            Some(i) => Some(i),
            None => if opt_text(tiers[n - 1].luma_ticket_type_id) == Some(id) {
                Some(n - 1)
            } else {
                None
            },
        }
    }
}

/// The first of the first `n` stored prices with a label.
pub open spec fn tier_labelled(tiers: Seq<TierRow>, label: Option<Seq<char>>, n: int) -> Option<int>
    decreases n,
{
    if n <= 0 {
        None
    } else {
        match tier_labelled(tiers, label, n - 1) {
            Some(i) => Some(i),
            None => if opt_text(tiers[n - 1].label) == label {
                Some(n - 1)
            } else {
                None
            },
        }
    }
}

/// The stored price that a ticket type updates: the one that follows it, or
/// else one with its name as the label.
pub open spec fn tier_for(tiers: Seq<TierRow>, t: &LumaTicketType) -> Option<int> {
    match tier_linked(tiers, t.api_id@, tiers.len() as int) {
        Some(i) => Some(i),
        None => tier_labelled(tiers, opt_text(t.name), tiers.len() as int),
    }
}

fn find_tier(tiers: &Vec<TierRow>, t: &LumaTicketType) -> (r: Option<usize>)
    ensures
        match r {
            Some(i) => i < tiers@.len() && tier_for(tiers@, t) == Some(i as int),
            None => tier_for(tiers@, t) is None,
        },
{
    let mut linked: Option<usize> = None;
    let mut labelled: Option<usize> = None;
    let mut i: usize = 0;
    while i < tiers.len()
        invariant
            i <= tiers@.len(),
            match linked {
                Some(k) => k < i && tier_linked(tiers@, t.api_id@, i as int) == Some(k as int),
                None => tier_linked(tiers@, t.api_id@, i as int) is None,
            },
            match labelled {
                Some(k) => k < i && tier_labelled(tiers@, opt_text(t.name), i as int) == Some(
                    k as int,
                ),
                None => tier_labelled(tiers@, opt_text(t.name), i as int) is None,
            },
        decreases tiers@.len() - i,
    {
        let follows: bool = match &tiers[i].luma_ticket_type_id {
            Some(id) => text_eq(id.as_str(), t.api_id.as_str()),
            None => false,
        };
        if linked.is_none() && follows {
            linked = Some(i);
        }
        if labelled.is_none() && same_text(&tiers[i].label, &t.name) {
            labelled = Some(i);
        }
        i = i + 1;
    }
    match linked {
        Some(k) => Some(k),
        None => labelled,
    }
}

/// What is to be done for a ticket type: a stored price is updated, or a new
/// one is added.
#[derive(Debug, Clone, Copy, PartialEq, Eq, Structural)]
pub enum TierStep {
    Update(usize),
    Add,
}

/// What is to be stored when an event is followed.
pub struct SyncPlan {
    pub title: String,
    pub event_date: Option<String>,
    pub event_location: Option<String>,
    pub url: Option<String>,
    /// For each ticket type, what is to be done.
    pub tiers: Vec<TierStep>,
    /// For each stored price, whether it is no longer sold.
    pub deactivate: Vec<bool>,
    pub synced: u32,
    pub added: u32,
    pub deactivated: u32,
}

/// What following an event leads to.
pub enum SyncOutcome {
    /// The event is not linked to the service.
    NotLinked,
    /// The service no longer has the event: it is cancelled here.
    Cancel,
    /// The event has begun: it is over here.
    MarkPast,
    Apply(SyncPlan),
}

/// Whether a ticket type with an identifier is among the first `n`.
pub open spec fn type_exists(types: Seq<LumaTicketType>, id: Seq<char>) -> bool {
    exists|i: int| 0 <= i < types.len() && (#[trigger] types[i]).api_id@ == id
}

/// Whether a stored price is no longer sold: it follows a ticket type that is
/// gone.
pub open spec fn is_dropped(tier: &TierRow, types: Seq<LumaTicketType>) -> bool {
    opt_text(tier.luma_ticket_type_id) matches Some(id) && !type_exists(types, id)
}

pub open spec fn step_for(tiers: Seq<TierRow>, t: &LumaTicketType) -> TierStep {
    match tier_for(tiers, t) {
        Some(i) => TierStep::Update(i as usize),
        None => TierStep::Add,
    }
}

/// How many of the first `n` steps update a price.
pub open spec fn updates_among(steps: Seq<TierStep>, n: int) -> int
    decreases n,
{
    if n <= 0 {
        0
    } else {
        updates_among(steps, n - 1) + if steps[n - 1] is Update {
            1int
        } else {
            0
        }
    }
}

/// How many of the first `n` marks are set.
pub open spec fn marks_among(marks: Seq<bool>, n: int) -> int
    decreases n,
{
    if n <= 0 {
        0
    } else {
        marks_among(marks, n - 1) + if marks[n - 1] {
            1int
        } else {
            0
        }
    }
}

/// Whether a plan is the one to follow an event with.
pub open spec fn follows(
    plan: &SyncPlan,
    e: &LumaEvent,
    types: Seq<LumaTicketType>,
    tiers: Seq<TierRow>,
) -> bool {
    &&& plan.title@ == e.name@
    &&& opt_text(plan.event_date) == stored_date(e)
    &&& opt_text(plan.event_location) == opt_text(e.full_address)
    &&& opt_text(plan.url) == opt_text(e.url)
    &&& plan.tiers@.len() == types.len()
    &&& forall|i: int|
        0 <= i < types.len() ==> #[trigger] plan.tiers@[i] == step_for(tiers, &types[i])
    &&& plan.deactivate@.len() == tiers.len()
    &&& forall|i: int|
        0 <= i < tiers.len() ==> #[trigger] plan.deactivate@[i] == is_dropped(&tiers[i], types)
    &&& plan.synced == updates_among(plan.tiers@, types.len() as int)
    &&& plan.added == types.len() - plan.synced
    &&& plan.deactivated == marks_among(plan.deactivate@, tiers.len() as int)
}

fn ticket_type_exists(types: &Vec<LumaTicketType>, id: &str) -> (r: bool)
    ensures
        r == type_exists(types@, id@),
{
    let mut i: usize = 0;
    while i < types.len()
        invariant
            i <= types@.len(),
            forall|k: int| 0 <= k < i ==> (#[trigger] types@[k]).api_id@ != id@,
        decreases types@.len() - i,
    {
        if text_eq(types[i].api_id.as_str(), id) {
            return true;
        }
        i = i + 1;
    }
    false
}

/// Plans how an event is followed: its details are taken over, each ticket
/// type updates its price or adds one, and a price whose ticket type is gone
/// is no longer sold.
pub fn sync_event(
    luma_event_id: Option<&str>,
    events: &Vec<LumaEvent>,
    types: &Vec<LumaTicketType>,
    tiers: &Vec<TierRow>,
    now: Moment,
) -> (r: SyncOutcome)
    requires
        types@.len() <= u32::MAX,
        tiers@.len() <= u32::MAX,
    ensures
        match opt_str(luma_event_id) {
            None => r is NotLinked,
            Some(id) => if id.len() == 0 {
                r is NotLinked
            } else {
                match event_place(events@, id, events@.len() as int) {
                    None => r is Cancel,
                    Some(i) => if is_past_date(opt_text(events@[i].start_at), now) {
                        r is MarkPast
                    } else {
                        r matches SyncOutcome::Apply(plan) && follows(
                            &plan,
                            &events@[i],
                            types@,
                            tiers@,
                        )
                    },
                }
            },
        },
{
    let id: &str = match luma_event_id {
        None => {
            return SyncOutcome::NotLinked;
        },
        Some(id) => id,
    };
    if id.is_empty() {
        return SyncOutcome::NotLinked;
    }
    let place: usize = match find_event(events, id) {
        None => {
            return SyncOutcome::Cancel;
        },
        Some(i) => i,
    };
    let e: &LumaEvent = &events[place];
    match &e.start_at {
        Some(s) => {
            if date_has_passed(Some(s.as_str()), now) {
                return SyncOutcome::MarkPast;
            }
        },
        None => {},
    }
    let mut steps: Vec<TierStep> = Vec::new();
    let mut synced: u32 = 0;
    let mut added: u32 = 0;
    let mut i: usize = 0;
    while i < types.len()
        invariant
            i <= types@.len() <= u32::MAX,
            steps@.len() == i,
            forall|k: int| 0 <= k < i ==> #[trigger] steps@[k] == step_for(tiers@, &types@[k]),
            synced == updates_among(steps@, i as int),
            synced + added == i,
        decreases types@.len() - i,
    {
        let ghost before = steps@;
        match find_tier(tiers, &types[i]) {
            Some(k) => {
                steps.push(TierStep::Update(k));
                synced = synced + 1;
            },
            None => {
                steps.push(TierStep::Add);
                added = added + 1;
            },
        }
        proof {
            updates_of_prefix(before, steps@, i as int);
        }
        i = i + 1;
    }
    let mut deactivate: Vec<bool> = Vec::new();
    let mut deactivated: u32 = 0;
    let mut j: usize = 0;
    while j < tiers.len()
        invariant
            j <= tiers@.len() <= u32::MAX,
            deactivate@.len() == j,
            forall|k: int|
                0 <= k < j ==> #[trigger] deactivate@[k] == is_dropped(&tiers@[k], types@),
            deactivated == marks_among(deactivate@, j as int),
            deactivated <= j,
        decreases tiers@.len() - j,
    {
        let ghost before = deactivate@;
        let gone: bool = match &tiers[j].luma_ticket_type_id {
            Some(x) => !ticket_type_exists(types, x.as_str()),
            None => false,
        };
        deactivate.push(gone);
        proof {
            marks_of_prefix(before, deactivate@, j as int);
        }
        if gone {
            deactivated = deactivated + 1;
        }
        j = j + 1;
    }
    SyncOutcome::Apply(
        SyncPlan {
            title: e.name.clone(),
            event_date: date_to_store(e),
            event_location: e.full_address.clone(),
            url: e.url.clone(),
            tiers: steps,
            deactivate,
            synced,
            added,
            deactivated,
        },
    )
}

/// Whether `after` is the file of an event once it was followed: it is
/// cancelled where it is gone, is past where it is over, and otherwise takes
/// over title, date and place.
pub open spec fn followed(before: &EventFile, after: &EventFile, outcome: &SyncOutcome) -> bool {
    match outcome {
        SyncOutcome::NotLinked => *after == *before,
        SyncOutcome::Cancel => {
            &&& after.event.status@ == "cancelled"@
            &&& after.event == (Event { status: after.event.status, ..before.event })
            &&& off_sale(&before.product, &after.product)
            &&& all_voided(before.tickets@, after.tickets@)
        },
        SyncOutcome::MarkPast => {
            &&& after.event.status@ == if before.event.status@ == "cancelled"@ {
                "cancelled"@
            } else {
                "past"@
            }
            &&& after.event == (Event { status: after.event.status, ..before.event })
            &&& off_sale(&before.product, &after.product)
            &&& after.tickets == before.tickets
        },
        SyncOutcome::Apply(plan) => {
            &&& after.event.title@ == plan.title@
            &&& opt_text(after.event.event_date) == opt_text(plan.event_date)
            &&& opt_text(after.event.event_location) == opt_text(plan.event_location)
            &&& after.event == (Event {
                title: after.event.title,
                event_date: after.event.event_date,
                event_location: after.event.event_location,
                ..before.event
            })
            &&& after.product.name@ == plan.title@
            &&& after.product == (Product { name: after.product.name, ..before.product })
            &&& after.tickets == before.tickets
        },
    }
}

/// Carries out what following an event came to. The prices are left to the
/// caller.
pub fn follow(file: &mut EventFile, outcome: &SyncOutcome)
    requires
        old(file).wf(),
    ensures
        final(file).wf(),
        followed(old(file), final(file), outcome),
{
    match outcome {
        SyncOutcome::NotLinked => {},
        SyncOutcome::Cancel => {
            let merchant_id: String = file.event.merchant_id.clone();
            let _archived: bool = file.archive_event(merchant_id.as_str());
        },
        SyncOutcome::MarkPast => {
            if !text_eq(file.event.status.as_str(), "cancelled") {
                file.event.status = "past".to_string();
            }
            file.product.active = 0;
        },
        SyncOutcome::Apply(plan) => {
            file.event.title = plan.title.clone();
            file.event.event_date = plan.event_date.clone();
            file.event.event_location = plan.event_location.clone();
            file.product.name = plan.title.clone();
        },
    }
}

proof fn updates_of_prefix(a: Seq<TierStep>, b: Seq<TierStep>, n: int)
    requires
        n <= a.len() <= b.len(),
        forall|k: int| 0 <= k < n ==> a[k] == #[trigger] b[k],
    ensures
        updates_among(a, n) == updates_among(b, n),
    decreases n,
{
    if n > 0 {
        updates_of_prefix(a, b, n - 1);
        assert(a[n - 1] == b[n - 1]);
    }
}

proof fn marks_of_prefix(a: Seq<bool>, b: Seq<bool>, n: int)
    requires
        n <= a.len() <= b.len(),
        forall|k: int| 0 <= k < n ==> a[k] == #[trigger] b[k],
    ensures
        marks_among(a, n) == marks_among(b, n),
    decreases n,
{
    if n > 0 {
        marks_of_prefix(a, b, n - 1);
        assert(a[n - 1] == b[n - 1]);
    }
}

// ---------------------------------------------------------------------------
// Registration
// ---------------------------------------------------------------------------

/// What a stored secret stands for: as it is where no encryption key is set,
/// otherwise decrypted; nothing where none is stored.
pub open spec fn opened(stored: Option<Seq<char>>, key: Seq<char>) -> Result<
    Option<Seq<char>>,
    CryptoError,
> {
    match stored {
        None => Ok(None),
        Some(s) => if s.len() == 0 {
            Ok(None)
        } else if key.len() == 0 {
            Ok(Some(s))
        } else {
            match decrypted(s, key) {
                Ok(t) => Ok(Some(t)),
                Err(e) => Err(e),
            }
        },
    }
}

/// What is stored of a value that is not empty stands for the value.
pub proof fn stored_value_is_opened(stored: Seq<char>, value: Seq<char>, key: Seq<char>)
    requires
        is_stored_form(stored, value, key),
        value.len() > 0,
    ensures
        opened(Some(stored), key) == Ok::<Option<Seq<char>>, CryptoError>(Some(value)),
{
}

/// Reads a stored secret: the key of the service, or what a guest left.
pub fn open_secret(stored: &Option<String>, key: &str) -> (r: Result<Option<String>, CryptoError>)
    ensures
        match r {
            Ok(x) => opened(opt_text(*stored), key@) == Ok::<Option<Seq<char>>, CryptoError>(
                opt_text(x),
            ),
            Err(e) => opened(opt_text(*stored), key@) == Err::<Option<Seq<char>>, CryptoError>(e),
        },
{
    match stored {
        None => Ok(None),
        Some(s) => if s.as_str().is_empty() {
            Ok(None)
        } else if key.is_empty() {
            Ok(Some(s.clone()))
        } else {
            match decrypt(s.as_str(), key) {
                Ok(t) => Ok(Some(t)),
                Err(e) => Err(e),
            }
        },
    }
}

/// The registration of a guest, as it is stored with the invoice.
pub struct LumaRegistration {
    pub status: Option<String>,
    pub attendee_name: Option<String>,
    pub attendee_email: Option<String>,
    pub guest_data: Option<String>,
    pub retry_count: Option<i64>,
    pub retry_at: Option<String>,
}

/// How a registration begins.
pub enum RegistrationStart {
    AlreadyRegistered,
    /// Something that is needed is missing or cannot be read.
    Impossible,
    /// The service is to be called: its key, the guest's address and name.
    Call(String, String, Option<String>),
}

/// Whether an error of the service passes by itself: a broken connection, too
/// many calls, or a fault of the server.
pub open spec fn is_transient(err: Seq<char>) -> bool {
    let low = lowercased(err);
    ||| occurs_in(low, "timeout"@)
    ||| occurs_in(low, "timed out"@)
    ||| occurs_in(low, "connection"@)
    ||| occurs_in(low, "429"@)
    ||| occurs_in(low, "500"@)
    ||| occurs_in(low, "502"@)
    ||| occurs_in(low, "503"@)
    ||| occurs_in(low, "504"@)
}

/// Whether an error of the service passes by itself.
pub fn is_transient_luma_error(err: &str) -> (r: bool)
    ensures
        r == is_transient(err@),
{
    let low: String = to_lowercase(err);
    contains(low.as_str(), "timeout") || contains(low.as_str(), "timed out") || contains(
        low.as_str(),
        "connection",
    ) || contains(low.as_str(), "429") || contains(low.as_str(), "500") || contains(
        low.as_str(),
        "502",
    ) || contains(low.as_str(), "503") || contains(low.as_str(), "504")
}

/// Minutes to wait before an attempt: five at first, twice as long each time,
/// up to an hour.
pub open spec fn backoff_of(attempt: int) -> int {
    if attempt == 1 {
        5
    } else if attempt == 2 {
        10
    } else if attempt == 3 {
        20
    } else if attempt == 4 {
        40
    } else {
        60
    }
}

/// Minutes to wait before an attempt.
pub fn backoff_minutes(attempt: i64) -> (r: i64)
    requires
        1 <= attempt <= MAX_LUMA_RETRIES,
    ensures
        r == backoff_of(attempt as int),
        5 <= r <= 60,
{
    if attempt == 1 {
        5
    } else if attempt == 2 {
        10
    } else if attempt == 3 {
        20
    } else if attempt == 4 {
        40
    } else {
        MAX_BACKOFF_MINUTES
    }
}

impl LumaRegistration {
    pub open spec fn attempts(&self) -> int {
        match self.retry_count {
            Some(n) => n as int,
            None => 0,
        }
    }

    /// Whether nothing is stored of the guest any more.
    pub open spec fn forgot_guest(&self) -> bool {
        self.attendee_name is None && self.attendee_email is None
    }

    /// Begins the registration: reads what is needed for the call.
    pub fn begin(&self, api_key: &Option<String>, encryption_key: &str) -> (r: RegistrationStart)
        ensures
            match r {
                RegistrationStart::AlreadyRegistered => opt_text(self.status) == Some(
                    "registered"@,
                ),
                RegistrationStart::Impossible => {
                    &&& opt_text(self.status) != Some("registered"@)
                    &&& !(opened(opt_text(self.attendee_email), encryption_key@) matches Ok(
                        Some(_),
                    )) || !(opened(opt_text(*api_key), encryption_key@) matches Ok(Some(_)))
                },
                RegistrationStart::Call(key, email, name) => {
                    &&& opt_text(self.status) != Some("registered"@)
                    &&& opened(opt_text(*api_key), encryption_key@) == Ok::<
                        Option<Seq<char>>,
                        CryptoError,
                    >(Some(key@))
                    &&& opened(opt_text(self.attendee_email), encryption_key@) == Ok::<
                        Option<Seq<char>>,
                        CryptoError,
                    >(Some(email@))
                    &&& opt_text(name) == match opened(
                        opt_text(self.attendee_name),
                        encryption_key@,
                    ) {
                        Ok(n) => n,
                        Err(_) => None,
                    }
                },
            },
    {
        let done: bool = match &self.status {
            Some(s) => text_eq(s.as_str(), "registered"),
            None => false,
        };
        if done {
            return RegistrationStart::AlreadyRegistered;
        }
        let email: String = match open_secret(&self.attendee_email, encryption_key) {
            Ok(Some(e)) => e,
            Ok(None) => {
                return RegistrationStart::Impossible;
            },
            Err(_) => {
                return RegistrationStart::Impossible;
            },
        };
        let name: Option<String> = match open_secret(&self.attendee_name, encryption_key) {
            Ok(n) => n,
            Err(_) => None,
        };
        match open_secret(api_key, encryption_key) {
            Ok(Some(k)) => RegistrationStart::Call(k, email, name),
            Ok(None) => RegistrationStart::Impossible,
            Err(_) => RegistrationStart::Impossible,
        }
    }

    /// Gives the registration up.
    pub fn mark_failed(&mut self)
        ensures
            opt_text(final(self).status) == Some("failed"@),
            final(self).retry_at is None,
            *final(self) == (LumaRegistration {
                status: final(self).status,
                retry_at: final(self).retry_at,
                ..*old(self)
            }),
    {
        self.status = Some("failed".to_string());
        self.retry_at = None;
    }

    /// Plans another attempt, or gives up after the last one.
    pub fn schedule_retry(&mut self, now: i64)
        requires
            old(self).attempts() >= 0,
            old(self).attempts() < i64::MAX,
            0 <= now < 5_000_000_000_000,
        ensures
            if old(self).attempts() >= 5 {
                &&& opt_text(final(self).status) == Some("failed"@)
                &&& final(self).retry_at is None
                &&& final(self).retry_count == old(self).retry_count
            } else {
                &&& opt_text(final(self).status) == Some("retry"@)
                &&& final(self).retry_count == Some((old(self).attempts() + 1) as i64)
                &&& opt_text(final(self).retry_at) == formatted_datetime(
                    (Moment {
                        secs: (now + 60 * backoff_of(old(self).attempts() + 1)) as i64,
                        nanos: 0,
                    }),
                    SECONDS_FORMAT@,
                )
                &&& final(self).retry_at is Some
                &&& final(self).attempts() <= 5
            },
            *final(self) == (LumaRegistration {
                status: final(self).status,
                retry_count: final(self).retry_count,
                retry_at: final(self).retry_at,
                ..*old(self)
            }),
    {
        let count: i64 = match self.retry_count {
            Some(n) => n,
            None => 0,
        };
        let next: i64 = count + 1;
        if next > MAX_LUMA_RETRIES {
            self.mark_failed();
            return ;
        }
        let at: i64 = now + backoff_minutes(next) * 60;
        self.retry_at = format_datetime(Moment { secs: at, nanos: 0 }, SECONDS_FORMAT);
        self.retry_count = Some(next);
        self.status = Some("retry".to_string());
    }

    /// Takes note of an error of the service: one that passes by itself is
    /// tried again.
    pub fn after_error(&mut self, err: &str, now: i64)
        requires
            old(self).attempts() >= 0,
            old(self).attempts() < i64::MAX,
            0 <= now < 5_000_000_000_000,
        ensures
            opt_text(final(self).status) == if is_transient(err@) && old(self).attempts()
                < 5 {
                Some("retry"@)
            } else {
                Some("failed"@)
            },
            is_transient(err@) && old(self).attempts() < 5 ==> {
                &&& final(self).retry_count == Some((old(self).attempts() + 1) as i64)
                &&& opt_text(final(self).retry_at) == formatted_datetime(
                    (Moment {
                        secs: (now + 60 * backoff_of(old(self).attempts() + 1)) as i64,
                        nanos: 0,
                    }),
                    SECONDS_FORMAT@,
                )
            },
            !(is_transient(err@) && old(self).attempts() < MAX_LUMA_RETRIES) ==> {
                &&& final(self).retry_count == old(self).retry_count
                &&& final(self).retry_at is None
            },
            *final(self) == (LumaRegistration {
                status: final(self).status,
                retry_count: final(self).retry_count,
                retry_at: final(self).retry_at,
                ..*old(self)
            }),
    {
        if is_transient_luma_error(err) {
            self.schedule_retry(now);
        } else {
            self.mark_failed();
        }
    }

    /// Takes note of the registration: what the service knows of the guest is
    /// kept, what the guest left here is forgotten.
    pub fn complete(&mut self, guest_data: Option<&str>)
        ensures
            opt_text(final(self).status) == Some("registered"@),
            opt_text(final(self).guest_data) == Some(
                match opt_str(guest_data) {
                    Some(d) => d,
                    None => "{}"@,
                },
            ),
            final(self).forgot_guest(),
            final(self).retry_at is None,
            final(self).retry_count == old(self).retry_count,
    {
        self.status = Some("registered".to_string());
        self.guest_data = Some(
            match guest_data {
                Some(d) => d.to_string(),
                None => "{}".to_string(),
            },
        );
        self.attendee_name = None;
        self.attendee_email = None;
        self.retry_at = None;
    }

    /// Whether another attempt is due for a paid invoice.
    pub open spec fn is_due(&self, invoice_status: Seq<char>, now: Seq<char>) -> bool {
        &&& opt_text(self.status) == Some("retry"@)
        &&& opt_text(self.retry_at) matches Some(at)
        &&& !lex_less(now, at)
        &&& invoice_status == "detected"@ || invoice_status == "confirmed"@
    }

    /// Whether another attempt is due for a paid invoice.
    pub fn due(&self, invoice_status: &str, now: &str) -> (r: bool)
        ensures
            r == self.is_due(invoice_status@, now@),
    {
        let waiting: bool = match &self.status {
            Some(s) => text_eq(s.as_str(), "retry"),
            None => false,
        };
        let reached: bool = match &self.retry_at {
            Some(at) => !text_less(now, at.as_str()),
            None => false,
        };
        waiting && reached && (text_eq(invoice_status, "detected") || text_eq(
            invoice_status,
            "confirmed",
        ))
    }

    /// The state of the registration that a buyer sees: another attempt looks
    /// like one that is still running.
    pub open spec fn spec_public_status(&self) -> Seq<char> {
        match self.status {
            None => "not_luma"@,
            Some(s) => if s@ == "none"@ {
                "not_luma"@
            } else if s@ == "retry"@ {
                "pending"@
            } else {
                s@
            },
        }
    }

    /// The state of the registration that a buyer sees.
    pub fn public_status(&self) -> (r: String)
        ensures
            r@ == self.spec_public_status(),
    {
        match &self.status {
            None => "not_luma".to_string(),
            Some(s) => if text_eq(s.as_str(), "none") {
                "not_luma".to_string()
            } else if text_eq(s.as_str(), "retry") {
                "pending".to_string()
            } else {
                s.clone()
            },
        }
    }
}

// ---------------------------------------------------------------------------
// Laws
// ---------------------------------------------------------------------------

/// What the service lists is taken over field by field; an event without a name
/// has an empty one.
pub proof fn listed_event_is_taken_over(raw: LumaRawEvent, e: LumaEvent)
    requires
        cleaned(raw, e),
    ensures
        raw.api_id is Some && e.api_id@ == raw.api_id->0@,
        raw.name matches Some(n) ==> e.name@ == n@,
        raw.name is None ==> e.name@.len() == 0,
        opt_text(e.start_at) == opt_text(raw.start_at) && opt_text(e.end_at) == opt_text(
            raw.end_at,
        ),
        opt_text(e.url) == opt_text(raw.url) && opt_text(e.cover_url) == opt_text(raw.cover_url),
        opt_text(e.full_address) == opt_text(raw.full_address),
        opt_text(e.timezone) == opt_text(raw.timezone),
{
}

/// Every entry that has an id is listed, and no other.
pub proof fn every_event_with_an_id_is_listed(
    entries: Seq<Option<LumaRawEvent>>,
    out: Seq<LumaEvent>,
    n: int,
    i: int,
)
    requires
        listed(entries, out, n),
        0 <= i < n <= entries.len(),
    ensures
        out.len() <= n,
        entries[i] is Some && entries[i]->0.api_id is Some ==> exists|k: int|
            0 <= k < out.len() && cleaned(entries[i]->0, #[trigger] out[k]),
        (forall|j: int|
            0 <= j < n ==> (#[trigger] entries[j]) is None || entries[j]->0.api_id is None)
            ==> out.len() == 0,
    decreases n,
{
    let taken = entries[n - 1] is Some && entries[n - 1]->0.api_id is Some;
    let rest = if taken {
        out.drop_last()
    } else {
        out
    };
    if taken {
        assert(cleaned(entries[n - 1]->0, out[out.len() - 1]));
    }
    if n > 1 {
        every_event_with_an_id_is_listed(
            entries,
            rest,
            n - 1,
            if i < n - 1 {
                i
            } else {
                0
            },
        );
        if i < n - 1 && entries[i] is Some && entries[i]->0.api_id is Some {
            let k = choose|k: int|
                0 <= k < rest.len() && cleaned(entries[i]->0, #[trigger] rest[k]);
            assert(out[k] == rest[k]);
        }
    } else {
        assert(listed(entries, rest, 0));
        assert(rest.len() == 0);
    }
}

/// An event is found by its id, the first one where several have it.
pub proof fn event_is_found_by_its_id(events: Seq<LumaEvent>, id: Seq<char>, n: int)
    requires
        0 <= n <= events.len(),
    ensures
        match event_place(events, id, n) {
            Some(i) => 0 <= i < n && events[i].api_id@ == id && forall|k: int|
                0 <= k < i ==> (#[trigger] events[k]).api_id@ != id,
            None => forall|k: int| 0 <= k < n ==> (#[trigger] events[k]).api_id@ != id,
        },
    decreases n,
{
    if n > 0 {
        event_is_found_by_its_id(events, id, n - 1);
    }
}

/// An event can be imported once, and before it begins.
pub proof fn event_is_imported_once(
    e: &LumaEvent,
    imported: Seq<String>,
    now: Moment,
    k: int,
)
    requires
        0 <= k < imported.len(),
    ensures
        imported[k]@ == e.api_id@ ==> !is_importable(e, imported, now),
        is_past_date(opt_text(e.start_at), now) ==> !is_importable(e, imported, now),
        !is_past_date(opt_text(e.start_at), now) && (forall|i: int|
            0 <= i < imported.len() ==> (#[trigger] imported[i])@ != e.api_id@) ==> is_importable(
            e,
            imported,
            now,
        ),
{
}

/// An import is refused for the first of these that fails: the event was not
/// imported before, the service has it, and it sells tickets.
pub proof fn import_is_screened_in_order(
    already_imported: bool,
    events: Seq<LumaEvent>,
    id: Seq<char>,
    types: Seq<LumaTicketType>,
)
    ensures
        ({
            let e = import_error(already_imported, events, id, types);
            let known = exists|k: int|
                0 <= k < events.len() && (#[trigger] events[k]).api_id@ == id;
            &&& already_imported <==> e == Some(ImportError::AlreadyImported)
            &&& !already_imported && !known <==> e == Some(ImportError::NotFound)
            &&& !already_imported && known && types.len() == 0 <==> e == Some(
                ImportError::NoTicketTypes,
            )
            &&& !already_imported && known && types.len() > 0 <==> e is None
        }),
{
    event_is_found_by_its_id(events, id, events.len() as int);
}

/// An imported event has the title, the place and the date of the one at the
/// service, to the minute, and a price for each ticket type with its name, its
/// places and its currency in upper case, or in dollars.
pub proof fn import_takes_over_the_event(
    req: &CreateEventRequest,
    e: &LumaEvent,
    types: Seq<LumaTicketType>,
    i: int,
)
    requires
        request_of(req, e, types),
        0 <= i < types.len(),
    ensures
        req.title@ == e.name@,
        opt_text(req.event_location) == opt_text(e.full_address),
        req.description is None,
        e.start_at is None ==> req.event_date is None,
        e.start_at matches Some(s) && event_moment(s@) is None ==> req.event_date is None,
        e.start_at matches Some(s) && (event_moment(s@) matches Some(m)) ==> opt_text(
            req.event_date,
        ) == formatted_datetime(event_moment(e.start_at->0@)->0, "%Y-%m-%dT%H:%M"@),
        req.prices@.len() == types.len(),
        opt_text(req.prices@[i].label) == opt_text(types[i].name),
        req.prices@[i].max_quantity == types[i].max_capacity,
        req.prices@[i].amount_is_positive,
        types[i].currency matches Some(c) ==> req.prices@[i].currency@ == uppercased(c@),
        types[i].currency is None ==> req.prices@[i].currency@ == "USD"@,
{
    assert(price_of_ticket(&req.prices@[i], &types[i]));
}

/// A ticket type is kept at the price that is linked to it, else at the one
/// with its name, the first of each; where there is none a price is added.
pub proof fn ticket_type_finds_its_price(tiers: Seq<TierRow>, t: &LumaTicketType, k: int)
    requires
        0 <= k < tiers.len() <= usize::MAX,
    ensures
        opt_text(tiers[k].luma_ticket_type_id) == Some(t.api_id@) ==> (tier_for(
            tiers,
            t,
        ) matches Some(i) && i <= k && opt_text(tiers[i].luma_ticket_type_id) == Some(t.api_id@)),
        (forall|j: int|
            0 <= j < tiers.len() ==> opt_text((#[trigger] tiers[j]).luma_ticket_type_id) != Some(
                t.api_id@,
            )) && opt_text(tiers[k].label) == opt_text(t.name) ==> (tier_for(
            tiers,
            t,
        ) matches Some(i) && i <= k && opt_text(tiers[i].label) == opt_text(t.name)),
        tier_for(tiers, t) matches Some(i) ==> 0 <= i < tiers.len() && step_for(tiers, t)
            == TierStep::Update(i as usize) && (opt_text(tiers[i].luma_ticket_type_id) == Some(
            t.api_id@,
        ) || opt_text(tiers[i].label) == opt_text(t.name)),
        tier_for(tiers, t) is None ==> step_for(tiers, t) == TierStep::Add,
{
    link_is_the_first(tiers, t.api_id@, tiers.len() as int);
    label_is_the_first(tiers, opt_text(t.name), tiers.len() as int);
}

proof fn link_is_the_first(tiers: Seq<TierRow>, id: Seq<char>, n: int)
    requires
        0 <= n <= tiers.len(),
    ensures
        match tier_linked(tiers, id, n) {
            Some(i) => 0 <= i < n && opt_text(tiers[i].luma_ticket_type_id) == Some(id)
                && forall|k: int|
                0 <= k < i ==> opt_text((#[trigger] tiers[k]).luma_ticket_type_id) != Some(id),
            None => forall|k: int|
                0 <= k < n ==> opt_text((#[trigger] tiers[k]).luma_ticket_type_id) != Some(id),
        },
    decreases n,
{
    if n > 0 {
        link_is_the_first(tiers, id, n - 1);
    }
}

proof fn label_is_the_first(tiers: Seq<TierRow>, label: Option<Seq<char>>, n: int)
    requires
        0 <= n <= tiers.len(),
    ensures
        match tier_labelled(tiers, label, n) {
            Some(i) => 0 <= i < n && opt_text(tiers[i].label) == label && forall|k: int|
                0 <= k < i ==> opt_text((#[trigger] tiers[k]).label) != label,
            None => forall|k: int| 0 <= k < n ==> opt_text((#[trigger] tiers[k]).label) != label,
        },
    decreases n,
{
    if n > 0 {
        label_is_the_first(tiers, label, n - 1);
    }
}

/// A ticket type is found by its name, the first one where several share it.
pub proof fn ticket_type_is_found_by_its_name(
    types: Seq<LumaTicketType>,
    name: Option<Seq<char>>,
    n: int,
)
    requires
        0 <= n <= types.len(),
    ensures
        match type_named(types, name, n) {
            Some(i) => 0 <= i < n && opt_text(types[i].name) == name && forall|k: int|
                0 <= k < i ==> opt_text((#[trigger] types[k]).name) != name,
            None => forall|k: int| 0 <= k < n ==> opt_text((#[trigger] types[k]).name) != name,
        },
    decreases n,
{
    if n > 0 {
        ticket_type_is_found_by_its_name(types, name, n - 1);
    }
}

/// A price is dropped where it was linked to a ticket type that is gone. A price
/// that was never linked stays.
pub proof fn price_without_its_ticket_type_is_dropped(tier: &TierRow, types: Seq<LumaTicketType>)
    ensures
        tier.luma_ticket_type_id is None ==> !is_dropped(tier, types),
        tier.luma_ticket_type_id matches Some(id) ==> (is_dropped(tier, types) <==> forall|i: int|
            0 <= i < types.len() ==> (#[trigger] types[i]).api_id@ != id@),
{
}

/// A plan follows the event at the service: its title, place, date and address,
/// a step for each ticket type and a mark for each price; and it counts them.
pub proof fn plan_follows_the_event(
    plan: &SyncPlan,
    e: &LumaEvent,
    types: Seq<LumaTicketType>,
    tiers: Seq<TierRow>,
    i: int,
    k: int,
)
    requires
        follows(plan, e, types, tiers),
        0 <= i < types.len(),
        0 <= k < tiers.len(),
    ensures
        plan.title@ == e.name@,
        opt_text(plan.event_location) == opt_text(e.full_address),
        opt_text(plan.url) == opt_text(e.url),
        opt_text(plan.event_date) == stored_date(e),
        plan.tiers@.len() == types.len() && plan.tiers@[i] == step_for(tiers, &types[i]),
        plan.deactivate@.len() == tiers.len() && plan.deactivate@[k] == is_dropped(
            &tiers[k],
            types,
        ),
        plan.synced + plan.added == types.len(),
        plan.synced == updates_among(plan.tiers@, types.len() as int),
        plan.deactivated == marks_among(plan.deactivate@, tiers.len() as int),
{
}

/// Each step that updates a price counts as one, and so does each mark.
pub proof fn steps_are_counted(steps: Seq<TierStep>, marks: Seq<bool>, n: int, m: int)
    requires
        0 < n <= steps.len(),
        0 < m <= marks.len(),
    ensures
        steps[n - 1] is Update ==> updates_among(steps, n) == updates_among(steps, n - 1) + 1,
        steps[n - 1] is Add ==> updates_among(steps, n) == updates_among(steps, n - 1),
        marks[m - 1] ==> marks_among(marks, m) == marks_among(marks, m - 1) + 1,
        !marks[m - 1] ==> marks_among(marks, m) == marks_among(marks, m - 1),
        updates_among(steps, 0) == 0 && marks_among(marks, 0) == 0,
{
}

/// What becomes of an event here: one that is gone at the service is cancelled,
/// its product is off sale and no ticket stays valid; one that has begun is past
/// and off sale, unless it was cancelled; one that goes on takes over the new
/// texts; one that is not linked stays.
pub proof fn event_follows_its_service(
    before: &EventFile,
    after: &EventFile,
    outcome: &SyncOutcome,
    i: int,
)
    requires
        followed(before, after, outcome),
        0 <= i < before.tickets@.len(),
    ensures
        outcome is NotLinked ==> *after == *before,
        outcome is Cancel ==> after.event.status@ == "cancelled"@ && after.product.active == 0
            && after.tickets@[i].status@ != "valid"@,
        outcome is MarkPast ==> after.product.active == 0 && after.tickets == before.tickets && (
        before.event.status@ == "cancelled"@ ==> after.event.status@ == "cancelled"@) && (
        before.event.status@ != "cancelled"@ ==> after.event.status@ == "past"@),
        outcome matches SyncOutcome::Apply(plan) ==> after.event.title@ == plan.title@
            && after.product.name@ == plan.title@ && after.product.active == before.product.active
            && after.event.status == before.event.status && after.tickets == before.tickets
            && opt_text(after.event.event_date) == opt_text(plan.event_date) && opt_text(
            after.event.event_location,
        ) == opt_text(plan.event_location),
        after.event.id == before.event.id && after.product.id == before.product.id,
{
    if outcome is Cancel {
        assert(crate::events::voided(&before.tickets@[i], &after.tickets@[i]));
        crate::events::valid_ticket_is_voided(&before.tickets@[i], &after.tickets@[i]);
    }
}

/// A stored key that is missing or empty is none; without an encryption key it
/// is stored as it is; otherwise it is what it decrypts to, or cannot be read.
pub proof fn stored_key_is_opened(stored: Seq<char>, key: Seq<char>)
    ensures
        opened(None, key) == Ok::<Option<Seq<char>>, CryptoError>(None),
        stored.len() == 0 ==> opened(Some(stored), key) == Ok::<Option<Seq<char>>, CryptoError>(
            None,
        ),
        stored.len() > 0 && key.len() == 0 ==> opened(Some(stored), key) == Ok::<
            Option<Seq<char>>,
            CryptoError,
        >(Some(stored)),
        stored.len() > 0 && key.len() > 0 ==> (match decrypted(stored, key) {
            Ok(t) => opened(Some(stored), key) == Ok::<Option<Seq<char>>, CryptoError>(Some(t)),
            Err(e) => opened(Some(stored), key) == Err::<Option<Seq<char>>, CryptoError>(e),
        }),
{
}

/// A registration is tried again after five minutes, then after twice as long
/// each time, and after an hour at most.
pub proof fn waiting_doubles_up_to_an_hour(attempt: int)
    requires
        attempt >= 1,
    ensures
        backoff_of(1) == 5,
        attempt < 4 ==> backoff_of(attempt + 1) == 2 * backoff_of(attempt),
        attempt >= 5 ==> backoff_of(attempt) == 60,
        backoff_of(attempt) <= backoff_of(attempt + 1) <= 60,
{
}

/// A failure passes by where its text names a timeout, the connection, too many
/// requests or a fault of the server, in any case.
pub proof fn passing_failures_are_told_by_their_text(err: Seq<char>)
    ensures
        is_transient(err) <==> {
            let low = lowercased(err);
            occurs_in(low, "timeout"@) || occurs_in(low, "timed out"@) || occurs_in(
                low,
                "connection"@,
            ) || occurs_in(low, "429"@) || occurs_in(low, "500"@) || occurs_in(low, "502"@)
                || occurs_in(low, "503"@) || occurs_in(low, "504"@)
        },
{
}

/// A registration is due again once its moment has come, the moment itself
/// included, and while its payment stands.
pub proof fn registration_is_due_in_time(
    r: LumaRegistration,
    invoice_status: Seq<char>,
    now: Seq<char>,
)
    ensures
        r.is_due(invoice_status, now) <==> r.status is Some && r.status->0@ == "retry"@
            && r.retry_at is Some && !lex_less(now, r.retry_at->0@) && (invoice_status
            == "detected"@ || invoice_status == "confirmed"@),
        r.retry_count is None ==> r.attempts() == 0,
        r.retry_count matches Some(n) ==> r.attempts() == n,
        r.forgot_guest() <==> r.attendee_name is None && r.attendee_email is None,
{
}

/// The buyer sees a registration that is tried again as pending, and none where
/// there is none to make.
pub proof fn buyer_sees_the_registration(r: LumaRegistration)
    ensures
        r.status is None ==> r.spec_public_status() == "not_luma"@,
        r.status matches Some(s) ==> {
            &&& s@ == "none"@ ==> r.spec_public_status() == "not_luma"@
            &&& s@ == "retry"@ ==> r.spec_public_status() == "pending"@
            &&& s@ != "none"@ && s@ != "retry"@ ==> r.spec_public_status() == s@
        },
{
    reveal_strlit("none");
    reveal_strlit("retry");
    assert("none"@.len() != "retry"@.len());
}

/// A request is refused with 400 where the request is at fault, with 404 where
/// something is not there, with 409 where it conflicts with what was done
/// before.
pub proof fn import_refusals_have_their_status(e: ImportError)
    ensures
        e.spec_reply().0 == 400 <==> e is NoTicketTypes,
        e.spec_reply().0 == 404 <==> e is NotFound,
        e.spec_reply().0 == 409 <==> e is AlreadyImported,
{
}

} // verus!
