//! Requests about invoices: what they have to hold, who may change what, how
//! changes are announced, and the records for accounting.

use vstd::prelude::*;

use url::Url;

use crate::api::auth::{header_key, is_api_key, key_of_header, looks_like_api_key};
use crate::api::Lookup;
use crate::billing::{block_of, find_block, Block};
use crate::clock::{
    parse_timestamp, parsed_datetime, timestamp, timestamp_text, Moment, TIMESTAMP_FORMAT,
};
use crate::ids::{is_hyphenated, new_id};
use crate::invoices::{CreateInvoiceRequest, Invoice, InvoiceStatus, SETTLEMENT_PRODUCT};
use crate::json::Json;
use crate::text::{
    chars_of, join3, lex_less, opt_str, opt_text, starts_with, text_eq, text_less, text_of,
};
use crate::validation::{
    add_if_filled, add_if_given, checks_view, if_filled, if_given, judged, no_checks, run_checks,
    CheckKind, CheckView, FieldCheck, ValidationError,
};

verus! {

/// Shared ledger links that a merchant may have at a time.
pub const MAX_LEDGER_TOKENS: i64 = 10;

// ---------------------------------------------------------------------------
// New invoices
// ---------------------------------------------------------------------------

/// The checks that the fields of a new invoice have to pass.
pub open spec fn invoice_checks_of(req: &CreateInvoiceRequest) -> Seq<CheckView> {
    if_given("product_id"@, opt_text(req.product_id), CheckKind::MaxLength(100)) + if_given(
        "price_id"@,
        opt_text(req.price_id),
        CheckKind::MaxLength(100),
    ) + if_given("product_name"@, opt_text(req.product_name), CheckKind::MaxLength(200)) + if_given(
        "size"@,
        opt_text(req.size),
        CheckKind::MaxLength(100),
    ) + if_given("currency"@, opt_text(req.currency), CheckKind::MaxLength(10)) + if_filled(
        "refund_address"@,
        opt_text(req.refund_address),
        CheckKind::ZcashAddress,
    )
}

/// The checks that the fields of a new invoice have to pass.
pub fn invoice_checks(req: &CreateInvoiceRequest) -> (r: Vec<FieldCheck>)
    ensures
        checks_view(r@) == invoice_checks_of(req),
{
    let mut checks: Vec<FieldCheck> = no_checks();
    add_if_given(&mut checks, "product_id", &req.product_id, CheckKind::MaxLength(100));
    add_if_given(&mut checks, "price_id", &req.price_id, CheckKind::MaxLength(100));
    add_if_given(&mut checks, "product_name", &req.product_name, CheckKind::MaxLength(200));
    add_if_given(&mut checks, "size", &req.size, CheckKind::MaxLength(100));
    add_if_given(&mut checks, "currency", &req.currency, CheckKind::MaxLength(10));
    add_if_filled(&mut checks, "refund_address", &req.refund_address, CheckKind::ZcashAddress);
    assert(checks_view(checks@) =~= invoice_checks_of(req));
    checks
}

/// Checks a request for an invoice: its fields, and then its amount, of which it
/// is known whether it is negative.
pub fn validate_invoice_request<F: Fn(&FieldCheck) -> Result<(), ValidationError>>(
    req: &CreateInvoiceRequest,
    amount_is_negative: bool,
    validator: F,
) -> (r: Result<(), ValidationError>)
    requires
        forall|c: &FieldCheck| validator.requires((c,)),
    ensures
        exists|checks: Seq<FieldCheck>, j: Result<(), ValidationError>|
            checks_view(checks) == invoice_checks_of(req) && #[trigger] judged(
                checks,
                validator,
                j,
            ) && match j {
                Err(e) => r == Err::<(), ValidationError>(e),
                Ok(_) => if amount_is_negative {
                    r matches Err(e) && e.field@ == "amount"@ && e.message@
                        == "must be non-negative"@
                } else {
                    r is Ok
                },
            },
{
    let checks: Vec<FieldCheck> = invoice_checks(req);
    let judgement: Result<(), ValidationError> = run_checks(&checks, validator);
    assert(judged(checks@, validator, judgement));
    match judgement {
        Err(e) => Err(e),
        Ok(_) => if amount_is_negative {
            Err(ValidationError::invalid("amount", "must be non-negative"))
        } else {
            Ok(())
        },
    }
}

/// The merchant for whom a request makes an invoice. A key of ours in the
/// header decides alone; otherwise the dashboard session does; and on the test
/// network the only merchant there is serves for lack of both.
pub open spec fn invoicing_merchant<T>(
    header: Option<Seq<char>>,
    by_key: Option<T>,
    by_session: Option<T>,
    is_testnet: bool,
    all: Seq<T>,
) -> Option<T> {
    if header matches Some(h) && is_api_key(header_key(h)) {
        by_key
    } else if by_session is Some {
        by_session
    } else if is_testnet && all.len() == 1 {
        Some(all[0])
    } else {
        None
    }
}

/// The merchant for whom a request makes an invoice.
pub fn resolve_merchant<T>(
    header: Option<&str>,
    by_key: Option<T>,
    by_session: Option<T>,
    is_testnet: bool,
    all: Vec<T>,
) -> (r: Option<T>)
    ensures
        r == invoicing_merchant(opt_str(header), by_key, by_session, is_testnet, all@),
{
    let ours: bool = match header {
        Some(h) => looks_like_api_key(key_of_header(h).as_str()),
        None => false,
    };
    if ours {
        return by_key;
    }
    if by_session.is_some() {
        return by_session;
    }
    let mut all: Vec<T> = all;
    if is_testnet && all.len() == 1 {
        all.pop()
    } else {
        None
    }
}

/// Why a request about invoices is refused.
#[derive(Debug, Clone, Copy, PartialEq, Eq, Structural)]
pub enum InvoiceRefusal {
    NoMerchant,
    BillingBlocked(Block),
    NoRates,
    NotFound,
    NotPending,
    IsSettlement,
    NotConfirmed,
    AddressRequired,
    AddressNotTaken,
    LookupFailed,
}

impl InvoiceRefusal {
    pub open spec fn spec_reply(self) -> (u16, Seq<char>) {
        match self {
            InvoiceRefusal::NoMerchant => (
                401,
                "Invalid API key or no merchant configured. Register via POST /api/merchants first."@,
            ),
            InvoiceRefusal::BillingBlocked(_) => (402, "Merchant account has outstanding fees"@),
            InvoiceRefusal::NoRates => (503, "Price feed unavailable"@),
            InvoiceRefusal::NotFound => (404, "Invoice not found"@),
            InvoiceRefusal::NotPending => (400, "Only pending invoices can be cancelled"@),
            InvoiceRefusal::IsSettlement => (403, "Settlement invoices cannot be cancelled"@),
            InvoiceRefusal::NotConfirmed => (400, "Only confirmed invoices can be refunded"@),
            InvoiceRefusal::AddressRequired => (400, "refund_address is required"@),
            InvoiceRefusal::AddressNotTaken => (
                409,
                "Refund address is already set or invoice status does not allow changes"@,
            ),
            InvoiceRefusal::LookupFailed => (500, "Internal error"@),
        }
    }

    /// The HTTP status and the message.
    pub fn reply(&self) -> (r: (u16, &'static str))
        ensures
            (r.0, r.1@) == self.spec_reply(),
    {
        match self {
            InvoiceRefusal::NoMerchant => (
                401,
                "Invalid API key or no merchant configured. Register via POST /api/merchants first.",
            ),
            InvoiceRefusal::BillingBlocked(_) => (402, "Merchant account has outstanding fees"),
            InvoiceRefusal::NoRates => (503, "Price feed unavailable"),
            InvoiceRefusal::NotFound => (404, "Invoice not found"),
            InvoiceRefusal::NotPending => (400, "Only pending invoices can be cancelled"),
            InvoiceRefusal::IsSettlement => (403, "Settlement invoices cannot be cancelled"),
            InvoiceRefusal::NotConfirmed => (400, "Only confirmed invoices can be refunded"),
            InvoiceRefusal::AddressRequired => (400, "refund_address is required"),
            InvoiceRefusal::AddressNotTaken => (
                409,
                "Refund address is already set or invoice status does not allow changes",
            ),
            InvoiceRefusal::LookupFailed => (500, "Internal error"),
        }
    }

    /// The billing status that is answered along with the refusal, if one is.
    pub fn billing_status(&self) -> (r: Option<&'static str>)
        ensures
            match (*self, r) {
                (InvoiceRefusal::BillingBlocked(b), Some(s)) => s@ == b.spec_status(),
                (InvoiceRefusal::BillingBlocked(_), None) => false,
                (_, x) => x is None,
            },
    {
        match self {
            InvoiceRefusal::BillingBlocked(b) => Some(b.status()),
            _ => None,
        }
    }
}

/// Whether an invoice may be made. The billing status is given where fees are
/// charged and it could be read.
pub fn check_creation(
    has_merchant: bool,
    billing_status: Option<&str>,
    has_rates: bool,
) -> (r: Result<(), InvoiceRefusal>)
    ensures
        if !has_merchant {
            r == Err::<(), InvoiceRefusal>(InvoiceRefusal::NoMerchant)
        } else if block_of(opt_str(billing_status)) is Some {
            r == Err::<(), InvoiceRefusal>(
                InvoiceRefusal::BillingBlocked(block_of(opt_str(billing_status))->0),
            )
        } else if !has_rates {
            r == Err::<(), InvoiceRefusal>(InvoiceRefusal::NoRates)
        } else {
            r is Ok
        },
{
    if !has_merchant {
        return Err(InvoiceRefusal::NoMerchant);
    }
    match find_block(billing_status) {
        Some(b) => {
            return Err(InvoiceRefusal::BillingBlocked(b));
        },
        None => {},
    }
    if !has_rates {
        Err(InvoiceRefusal::NoRates)
    } else {
        Ok(())
    }
}

// ---------------------------------------------------------------------------
// Where an invoice comes from
// ---------------------------------------------------------------------------

/// The origin of a web address: its scheme, its host, and its port where it is
/// not the usual one; `null` where the address has no such origin, and `None`
/// where the text is no address.
pub uninterp spec fn url_origin(text: Seq<char>) -> Option<Seq<char>>;

/// Colons that an address may have where one address can hold another.
pub const MAX_COLONS: usize = 1_000;

/// The number of colons in a text.
pub open spec fn colons(text: Seq<char>) -> nat
    decreases text.len(),
{
    if text.len() == 0 {
        0
    } else {
        colons(text.drop_last()) + if text.last() == ':' {
            1nat
        } else {
            0nat
        }
    }
}

/// Whether addresses are not held in one another too deeply. A web address
/// holds no other; each address that holds another takes a colon.
pub open spec fn is_shallow(text: Seq<char>) -> bool {
    "https://"@.is_prefix_of(text) || "http://"@.is_prefix_of(text) || colons(text) <= MAX_COLONS
}

fn shallow(text: &str) -> (r: bool)
    ensures
        r == is_shallow(text@),
{
    if starts_with(text, "https://") || starts_with(text, "http://") {
        return true;
    }
    let chars: Vec<char> = chars_of(text);
    let mut count: usize = 0;
    let mut i: usize = 0;
    while i < chars.len()
        invariant
            i <= chars@.len(),
            chars@ == text@,
            count <= i,
            count == colons(text@.take(i as int)),
        decreases chars@.len() - i,
    {
        proof {
            assert(text@.take(i + 1).drop_last() =~= text@.take(i as int));
        }
        if chars[i] == ':' {
            count = count + 1;
        }
        i = i + 1;
    }
    assert(text@.take(i as int) =~= text@);
    count <= MAX_COLONS
}

/// Calls `Url::parse`, and `origin` and `ascii_serialization` on what it gives.
/// The result is a function of the text. How addresses are read is not stated.
/// `origin` calls itself for each `blob:` address that holds another, so the
/// depth is bounded.
#[verifier::external_body]
fn origin_of_url(text: &str) -> (r: Option<String>)
    requires
        is_shallow(text@),
    ensures
        opt_text(r) == url_origin(text@),
{
    Url::parse(text).ok().map(|u| u.origin().ascii_serialization())
}

/// The origin of a merchant's webhook address, where there is one. Addresses
/// that hold one another too deeply have none.
pub fn merchant_webhook_origin(webhook_url: Option<&str>) -> (r: Option<String>)
    ensures
        opt_text(r) == match opt_str(webhook_url) {
            Some(u) => if is_shallow(u) {
                url_origin(u)
            } else {
                None
            },
            None => None,
        },
{
    match webhook_url {
        Some(u) => if shallow(u) {
            origin_of_url(u)
        } else {
            None
        },
        None => None,
    }
}

// ---------------------------------------------------------------------------
// Changes
// ---------------------------------------------------------------------------

/// Cancels an invoice of a merchant, where it is pending. Invoices for fees
/// cannot be cancelled.
pub fn cancel_invoice(invoice: Lookup<Invoice>, merchant_id: &str) -> (r: Result<
    Invoice,
    InvoiceRefusal,
>)
    ensures
        match invoice {
            Lookup::Found(i) => if i.merchant_id@ != merchant_id@ || !i.is("pending"@) {
                r == Err::<Invoice, InvoiceRefusal>(InvoiceRefusal::NotPending)
            } else if opt_text(i.product_name) == Some("Fee Settlement"@) {
                r == Err::<Invoice, InvoiceRefusal>(InvoiceRefusal::IsSettlement)
            } else {
                r matches Ok(x) && x.is("expired"@) && x == (Invoice { status: x.status, ..i })
            },
            _ => r == Err::<Invoice, InvoiceRefusal>(InvoiceRefusal::NotFound),
        },
{
    let mut i: Invoice = match invoice {
        Lookup::Found(i) => i,
        _ => {
            return Err(InvoiceRefusal::NotFound);
        },
    };
    if !text_eq(i.merchant_id.as_str(), merchant_id) || !text_eq(i.status.as_str(), "pending") {
        return Err(InvoiceRefusal::NotPending);
    }
    let settlement: bool = match &i.product_name {
        Some(n) => text_eq(n.as_str(), SETTLEMENT_PRODUCT),
        None => false,
    };
    if settlement {
        return Err(InvoiceRefusal::IsSettlement);
    }
    let _: bool = i.mark_expired();
    Ok(i)
}

/// The transaction of a refund that a request names, unless it is empty.
pub fn refund_txid_of(body: &Json) -> (r: Option<String>)
    ensures
        opt_text(r) == match body.member_text("refund_txid"@) {
            Some(t) => if t.len() > 0 {
                Some(t)
            } else {
                None
            },
            None => None,
        },
{
    match body.get_text("refund_txid") {
        Some(t) => if t.as_str().is_empty() {
            None
        } else {
            Some(t.clone())
        },
        None => None,
    }
}

/// Notes the refund of an invoice of a merchant, where it is confirmed.
pub fn refund_invoice(
    invoice: Lookup<Invoice>,
    merchant_id: &str,
    refund_txid: Option<&str>,
    now: i64,
) -> (r: Result<Invoice, InvoiceRefusal>)
    requires
        0 <= now < 5_000_000_000_000,
    ensures
        match invoice {
            Lookup::Found(i) => if i.merchant_id@ != merchant_id@ || !i.is("confirmed"@) {
                r == Err::<Invoice, InvoiceRefusal>(InvoiceRefusal::NotConfirmed)
            } else {
                r matches Ok(x) && {
                    &&& x.is("refunded"@)
                    &&& opt_text(x.refunded_at) == Some(timestamp_text(now as int))
                    &&& opt_text(x.refund_txid) == opt_str(refund_txid)
                    &&& x == (Invoice {
                        status: x.status,
                        refunded_at: x.refunded_at,
                        refund_txid: x.refund_txid,
                        ..i
                    })
                }
            },
            _ => r == Err::<Invoice, InvoiceRefusal>(InvoiceRefusal::NotFound),
        },
{
    let mut i: Invoice = match invoice {
        Lookup::Found(i) => i,
        _ => {
            return Err(InvoiceRefusal::NotFound);
        },
    };
    if !text_eq(i.merchant_id.as_str(), merchant_id) || !text_eq(i.status.as_str(), "confirmed") {
        return Err(InvoiceRefusal::NotConfirmed);
    }
    let _: bool = i.mark_refunded(refund_txid, now);
    Ok(i)
}

/// The refund address that a request leaves.
pub fn refund_address_of(body: &Json) -> (r: Result<String, InvoiceRefusal>)
    ensures
        match body.member_text("refund_address"@) {
            Some(a) => if a.len() > 0 {
                r matches Ok(s) && s@ == a
            } else {
                r == Err::<String, InvoiceRefusal>(InvoiceRefusal::AddressRequired)
            },
            None => r == Err::<String, InvoiceRefusal>(InvoiceRefusal::AddressRequired),
        },
{
    match body.get_text("refund_address") {
        Some(a) => if a.as_str().is_empty() {
            Err(InvoiceRefusal::AddressRequired)
        } else {
            Ok(a.clone())
        },
        None => Err(InvoiceRefusal::AddressRequired),
    }
}

// ---------------------------------------------------------------------------
// Announcements
// ---------------------------------------------------------------------------

/// What was last announced of an invoice.
pub struct InvoiceWatch {
    pub last_status: String,
    pub last_received: i64,
}

/// What is to be done after a look at an invoice.
#[derive(Debug, Clone, Copy, PartialEq, Eq, Structural)]
pub enum WatchStep {
    Wait,
    Announce,
    AnnounceAndStop,
    Stop,
}

impl InvoiceWatch {
    /// Starts to watch an invoice; its state, where it is known, is announced
    /// at once.
    pub fn start(first: Option<&InvoiceStatus>) -> (r: (InvoiceWatch, bool))
        ensures
            r.0.last_received == 0,
            match first {
                Some(s) => r.0.last_status@ == s.status@ && r.1,
                None => r.0.last_status@.len() == 0 && !r.1,
            },
    {
        match first {
            Some(s) => (InvoiceWatch { last_status: s.status.clone(), last_received: 0 }, true),
            None => (InvoiceWatch { last_status: String::new(), last_received: 0 }, false),
        }
    }

    /// Takes a look at the invoice: a change of its status or of what was
    /// received is announced, and the watch ends where nothing more can change
    /// or the invoice cannot be read.
    pub fn look(&mut self, current: Option<&InvoiceStatus>) -> (r: WatchStep)
        ensures
            match current {
                None => r == WatchStep::Stop && *final(self) == *old(self),
                Some(s) => if s.status@ == old(self).last_status@ && s.received_zatoshis == old(
                    self,
                ).last_received {
                    r == WatchStep::Wait && *final(self) == *old(self)
                } else {
                    &&& final(self).last_status@ == s.status@
                    &&& final(self).last_received == s.received_zatoshis
                    &&& r == if s.status@ == "confirmed"@ || s.status@ == "expired"@ {
                        WatchStep::AnnounceAndStop
                    } else {
                        WatchStep::Announce
                    }
                },
            },
    {
        match current {
            None => WatchStep::Stop,
            Some(s) => {
                if text_eq(s.status.as_str(), self.last_status.as_str()) && s.received_zatoshis
                    == self.last_received {
                    return WatchStep::Wait;
                }
                self.last_status = s.status.clone();
                self.last_received = s.received_zatoshis;
                if text_eq(s.status.as_str(), "confirmed") || text_eq(s.status.as_str(), "expired") {
                    WatchStep::AnnounceAndStop
                } else {
                    WatchStep::Announce
                }
            },
        }
    }
}

// ---------------------------------------------------------------------------
// Accounting
// ---------------------------------------------------------------------------

/// Which invoices are exported.
pub struct ExportQuery {
    pub from: Option<String>,
    pub to: Option<String>,
    pub status: Option<String>,
}

impl ExportQuery {
    /// The status of the invoices that are exported.
    pub fn status_filter(&self) -> (r: String)
        ensures
            r@ == match opt_text(self.status) {
                Some(s) => s,
                None => "confirmed"@,
            },
    {
        match &self.status {
            Some(s) => s.clone(),
            None => "confirmed".to_string(),
        }
    }

    /// Whether an invoice with a status that was made at a time is among those
    /// that are asked for; times are compared as texts.
    pub open spec fn selects(&self, status: Seq<char>, created_at: Seq<char>) -> bool {
        &&& status == match opt_text(self.status) {
            Some(s) => s,
            None => "confirmed"@,
        }
        &&& opt_text(self.from) matches Some(f) ==> !lex_less(created_at, f)
        &&& opt_text(self.to) matches Some(t) ==> !lex_less(t, created_at)
    }

    /// Whether an invoice is exported.
    pub fn includes(&self, status: &str, created_at: &str) -> (r: bool)
        ensures
            r == self.selects(status@, created_at@),
    {
        let early: bool = match &self.from {
            Some(f) => text_less(created_at, f.as_str()),
            None => false,
        };
        let late: bool = match &self.to {
            Some(t) => text_less(t.as_str(), created_at),
            None => false,
        };
        text_eq(status, self.status_filter().as_str()) && !early && !late
    }
}

/// Whether an invoice is shown in the ledger that a merchant shares: what was
/// paid, and what was paid back.
pub fn shown_in_ledger(status: &str) -> (r: bool)
    ensures
        r == (status@ == "confirmed"@ || status@ == "refunded"@),
{
    text_eq(status, "confirmed") || text_eq(status, "refunded")
}

/// An invoice as it is exported; the amounts and the rates are given as they
/// are printed.
pub struct ExportRow {
    pub id: String,
    pub memo_code: String,
    pub product_name: Option<String>,
    pub currency: Option<String>,
    pub amount_fiat: String,
    pub price_zec: String,
    pub zec_rate: String,
    pub confirmed_rate: Option<String>,
    pub confirmed_fiat_amount: Option<String>,
    pub received_zec: String,
    pub status: String,
    pub txid: Option<String>,
    pub created_at: String,
    pub confirmed_at: Option<String>,
}

/// A text without commas: each becomes a space.
pub open spec fn without_commas(s: Seq<char>) -> Seq<char> {
    Seq::new(
        s.len(),
        |i: int|
            if s[i] == ',' {
                ' '
            } else {
                s[i]
            },
    )
}

/// A text without commas: each becomes a space.
pub fn remove_commas(s: &str) -> (r: String)
    ensures
        r@ == without_commas(s@),
{
    let x: Vec<char> = chars_of(s);
    let mut y: Vec<char> = Vec::new();
    let mut i: usize = 0;
    while i < x.len()
        invariant
            i <= x@.len(),
            x@ == s@,
            y@ == without_commas(s@).take(i as int),
        decreases x@.len() - i,
    {
        let c: char = if x[i] == ',' {
            ' '
        } else {
            x[i]
        };
        y.push(c);
        i = i + 1;
        assert(y@ =~= without_commas(s@).take(i as int));
    }
    assert(y@ =~= without_commas(s@));
    text_of(&y)
}

/// Texts with commas between them.
pub open spec fn comma_separated(fields: Seq<Seq<char>>) -> Seq<char>
    decreases fields.len(),
{
    if fields.len() == 0 {
        Seq::empty()
    } else if fields.len() == 1 {
        fields[0]
    } else {
        comma_separated(fields.drop_last()) + ","@ + fields.last()
    }
}

pub open spec fn or_empty(s: Option<String>) -> Seq<char> {
    match s {
        Some(x) => x@,
        None => Seq::empty(),
    }
}

/// The columns of an exported invoice.
pub open spec fn export_fields(row: ExportRow) -> Seq<Seq<char>> {
    seq![
        row.id@,
        row.memo_code@,
        without_commas(or_empty(row.product_name)),
        match opt_text(row.currency) {
            Some(c) => c,
            None => "EUR"@,
        },
        row.amount_fiat@,
        row.price_zec@,
        row.zec_rate@,
        or_empty(row.confirmed_rate),
        or_empty(row.confirmed_fiat_amount),
        row.received_zec@,
        row.status@,
        or_empty(row.txid),
        row.created_at@,
        or_empty(row.confirmed_at),
    ]
}

/// The heading of the export.
pub const EXPORT_HEADING: &'static str = "id,memo_code,product_name,currency,amount_fiat,price_zec,zec_rate_at_creation,confirmed_rate,confirmed_fiat_amount,received_zec,status,txid,created_at,confirmed_at\n";

/// The export of invoices: the heading, and a line for each of them.
pub open spec fn export_of(rows: Seq<ExportRow>) -> Seq<char>
    decreases rows.len(),
{
    if rows.len() == 0 {
        EXPORT_HEADING@
    } else {
        export_of(rows.drop_last()) + comma_separated(export_fields(rows.last())) + "\n"@
    }
}

fn text_or_empty(s: &Option<String>) -> (r: String)
    ensures
        r@ == or_empty(*s),
{
    match s {
        Some(x) => x.clone(),
        None => String::new(),
    }
}

fn join_commas(fields: &Vec<String>) -> (r: String)
    ensures
        r@ == comma_separated(fields@.map_values(|s: String| s@)),
{
    let ghost all = fields@.map_values(|s: String| s@);
    let mut r: String = String::new();
    let mut i: usize = 0;
    assert(r@ =~= comma_separated(all.take(0)));
    while i < fields.len()
        invariant
            i <= fields@.len(),
            all == fields@.map_values(|s: String| s@),
            r@ == comma_separated(all.take(i as int)),
        decreases fields@.len() - i,
    {
        assert(all.take(i + 1).drop_last() =~= all.take(i as int));
        assert(all.take(i + 1).last() == fields@[i as int]@);
        if i == 0 {
            r = fields[i].clone();
        } else {
            r = join3(r.as_str(), ",", fields[i].as_str());
        }
        i = i + 1;
    }
    assert(all.take(i as int) =~= all);
    r
}

fn export_line(row: &ExportRow) -> (r: String)
    ensures
        r@ == comma_separated(export_fields(*row)),
{
    let product: String = text_or_empty(&row.product_name);
    let mut fields: Vec<String> = Vec::new();
    fields.push(row.id.clone());
    fields.push(row.memo_code.clone());
    fields.push(remove_commas(product.as_str()));
    fields.push(
        match &row.currency {
            Some(c) => c.clone(),
            None => "EUR".to_string(),
        },
    );
    fields.push(row.amount_fiat.clone());
    fields.push(row.price_zec.clone());
    fields.push(row.zec_rate.clone());
    fields.push(text_or_empty(&row.confirmed_rate));
    fields.push(text_or_empty(&row.confirmed_fiat_amount));
    fields.push(row.received_zec.clone());
    fields.push(row.status.clone());
    fields.push(text_or_empty(&row.txid));
    fields.push(row.created_at.clone());
    fields.push(text_or_empty(&row.confirmed_at));
    assert(fields@.map_values(|s: String| s@) =~= export_fields(*row));
    join_commas(&fields)
}

/// Writes the export of invoices.
pub fn export_csv(rows: &Vec<ExportRow>) -> (r: String)
    ensures
        r@ == export_of(rows@),
{
    let mut csv: String = EXPORT_HEADING.to_string();
    let mut i: usize = 0;
    while i < rows.len()
        invariant
            i <= rows@.len(),
            csv@ == export_of(rows@.take(i as int)),
        decreases rows@.len() - i,
    {
        assert(rows@.take(i + 1).drop_last() =~= rows@.take(i as int));
        let line: String = export_line(&rows[i]);
        csv = join3(csv.as_str(), line.as_str(), "\n");
        i = i + 1;
    }
    assert(rows@.take(i as int) =~= rows@);
    csv
}

/// A link with which a merchant shares the ledger.
pub struct LedgerToken {
    pub id: String,
    pub merchant_id: String,
    pub label: String,
    pub expires_at: Option<String>,
    pub created_at: String,
    pub revoked_at: Option<String>,
}

impl LedgerToken {
    /// Whether the link still shows the ledger. One whose end cannot be read
    /// does not end.
    pub open spec fn is_valid(&self, now: Moment) -> bool {
        self.revoked_at is None && !(opt_text(self.expires_at) matches Some(e) && (parsed_datetime(
            e,
            TIMESTAMP_FORMAT@,
        ) matches Some(m) && m.before(now)))
    }

    /// Whether the link still shows the ledger.
    pub fn valid(&self, now: Moment) -> (r: bool)
        ensures
            r == self.is_valid(now),
    {
        if self.revoked_at.is_some() {
            return false;
        }
        match &self.expires_at {
            Some(e) => match parse_timestamp(e.as_str()) {
                Some(m) => !m.is_before(now),
                None => true,
            },
            None => true,
        }
    }

    /// Takes the link back, where it is the merchant's and was not taken back
    /// before. Gives whether it was.
    pub fn revoke(&mut self, merchant_id: &str, now: &str) -> (r: bool)
        ensures
            r == (old(self).merchant_id@ == merchant_id@ && old(self).revoked_at is None),
            r ==> opt_text(final(self).revoked_at) == Some(now@) && *final(self) == (LedgerToken {
                revoked_at: final(self).revoked_at,
                ..*old(self)
            }),
            !r ==> *final(self) == *old(self),
    {
        if text_eq(self.merchant_id.as_str(), merchant_id) && self.revoked_at.is_none() {
            self.revoked_at = Some(now.to_string());
            true
        } else {
            false
        }
    }
}

/// The merchant whose ledger a link shows.
pub fn ledger_of_token(token: &Lookup<LedgerToken>, now: Moment) -> (r: Option<String>)
    ensures
        opt_text(r) == match *token {
            Lookup::Found(t) => if t.is_valid(now) {
                Some(t.merchant_id@)
            } else {
                None
            },
            _ => None,
        },
{
    match token {
        Lookup::Found(t) => if t.valid(now) {
            Some(t.merchant_id.clone())
        } else {
            None
        },
        _ => None,
    }
}

/// Days for which a link is made, from what is asked for.
pub open spec fn token_days(asked: Option<i64>) -> int {
    match asked {
        Some(d) => if d < 1 {
            1
        } else if d > 365 {
            365
        } else {
            d as int
        },
        None => 90,
    }
}

/// Makes a link to the ledger of a merchant, unless there are as many as may
/// be; `active` is how many of them were not taken back.
pub fn create_ledger_token(merchant_id: &str, body: &Json, active: i64, now: i64) -> (r: Option<
    LedgerToken,
>)
    requires
        0 <= now < 5_000_000_000_000,
    ensures
        match r {
            None => active >= 10,
            Some(t) => {
                &&& active < 10
                &&& is_hyphenated(t.id@)
                &&& t.merchant_id@ == merchant_id@
                &&& t.label@ == match body.member_text("label"@) {
                    Some(l) => l,
                    None => "Accountant"@,
                }
                &&& opt_text(t.expires_at) == Some(
                    timestamp_text(now + token_days(body.member_i64("expires_days"@)) * 86_400),
                )
                &&& t.created_at@ == timestamp_text(now as int)
                &&& t.revoked_at is None
            },
        },
{
    if active >= MAX_LEDGER_TOKENS {
        return None;
    }
    let label: String = match body.get_text("label") {
        Some(l) => l.clone(),
        None => "Accountant".to_string(),
    };
    let days: i64 = match body.get_i64("expires_days") {
        Some(d) => if d < 1 {
            1
        } else if d > 365 {
            365
        } else {
            d
        },
        None => 90,
    };
    Some(
        LedgerToken {
            id: new_id(),
            merchant_id: merchant_id.to_string(),
            label,
            expires_at: Some(timestamp(now + days * 86_400)),
            created_at: timestamp(now),
            revoked_at: None,
        },
    )
}

// ---------------------------------------------------------------------------
// Laws
// ---------------------------------------------------------------------------

/// A link that was taken back shows no ledger, at no time.
pub proof fn revoked_link_shows_nothing(token: LedgerToken, now: Moment)
    requires
        token.revoked_at is Some,
    ensures
        !token.is_valid(now),
{
}

/// The product's name adds no column to the line of an invoice.
pub proof fn name_adds_no_column(s: Seq<char>)
    ensures
        !without_commas(s).contains(','),
        without_commas(s).len() == s.len(),
{
    if without_commas(s).contains(',') {
        let i = choose|i: int| 0 <= i < s.len() && without_commas(s)[i] == ',';
        assert(without_commas(s)[i] != ',');
    }
}

// ---------------------------------------------------------------------------
// Laws on what is asked and what is shown
// ---------------------------------------------------------------------------

/// The texts of an invoice are held to their limits.
pub proof fn invoice_texts_are_limited(req: &CreateInvoiceRequest, c: CheckView)
    ensures
        invoice_checks_of(req).contains(c) <==> {
            ||| req.product_id matches Some(t) && c == (CheckView {
                field: "product_id"@,
                value: t@,
                kind: CheckKind::MaxLength(100),
            })
            ||| req.price_id matches Some(t) && c == (CheckView {
                field: "price_id"@,
                value: t@,
                kind: CheckKind::MaxLength(100),
            })
            ||| req.product_name matches Some(t) && c == (CheckView {
                field: "product_name"@,
                value: t@,
                kind: CheckKind::MaxLength(200),
            })
            ||| req.size matches Some(t) && c == (CheckView {
                field: "size"@,
                value: t@,
                kind: CheckKind::MaxLength(100),
            })
            ||| req.currency matches Some(t) && c == (CheckView {
                field: "currency"@,
                value: t@,
                kind: CheckKind::MaxLength(10),
            })
            ||| req.refund_address matches Some(t) && t@.len() > 0 && c == (CheckView {
                field: "refund_address"@,
                value: t@,
                kind: CheckKind::ZcashAddress,
            })
        },
{
    crate::validation::checks_add_up();
}

/// A key that is shown decides who invoices; else a session does. Only on the
/// test network may the one merchant there is invoice without either.
pub proof fn invoicing_needs_a_merchant<T>(
    header: Option<Seq<char>>,
    by_key: Option<T>,
    by_session: Option<T>,
    is_testnet: bool,
    all: Seq<T>,
)
    ensures
        ({
            let r = invoicing_merchant(header, by_key, by_session, is_testnet, all);
            let keyed = header is Some && is_api_key(header_key(header->0));
            &&& keyed ==> r == by_key
            &&& !keyed && by_session is Some ==> r == by_session
            &&& !keyed && by_session is None && !is_testnet ==> r is None
            &&& !keyed && by_session is None && all.len() != 1 ==> r is None
            &&& !keyed && by_session is None && is_testnet && all.len() == 1 ==> r == Some(all[0])
        }),
{
}

/// An export selects the invoices of a status, the confirmed ones where none is
/// named, from one moment to another, both included.
pub proof fn export_selects_a_period(q: ExportQuery, status: Seq<char>, created_at: Seq<char>)
    ensures
        ({
            let wanted = if q.status is Some {
                q.status->0@
            } else {
                "confirmed"@
            };
            let after = q.from is None || !lex_less(created_at, q.from->0@);
            let before = q.to is None || !lex_less(q.to->0@, created_at);
            q.selects(status, created_at) <==> status == wanted && after && before
        }),
{
}

/// One more row adds one line behind the others, and the heading comes first.
pub proof fn row_adds_a_line(rows: Seq<ExportRow>, row: ExportRow)
    ensures
        export_of(rows.push(row)) == export_of(rows) + comma_separated(export_fields(row)) + "\n"@,
        export_of(Seq::<ExportRow>::empty()) == EXPORT_HEADING@,
{
    assert(rows.push(row).drop_last() =~= rows);
}

/// A line has fourteen columns, those of the heading: what an invoice is for,
/// what it asked, what was received, and when.
pub proof fn line_has_the_columns_of_the_heading(row: ExportRow)
    ensures
        ({
            let f = export_fields(row);
            &&& f.len() == 14
            &&& f[0] == row.id@ && f[1] == row.memo_code@
            &&& row.product_name is None ==> f[2].len() == 0
            &&& row.product_name matches Some(n) ==> f[2] == without_commas(n@)
            &&& row.currency is None ==> f[3] == "EUR"@
            &&& row.currency matches Some(c) ==> f[3] == c@
            &&& f[4] == row.amount_fiat@ && f[5] == row.price_zec@ && f[6] == row.zec_rate@
            &&& f[7] == or_empty(row.confirmed_rate) && f[8] == or_empty(row.confirmed_fiat_amount)
            &&& f[9] == row.received_zec@ && f[10] == row.status@
            &&& f[11] == or_empty(row.txid)
            &&& f[12] == row.created_at@ && f[13] == or_empty(row.confirmed_at)
        }),
{
}

/// Fields are set apart by commas, and one more comes behind the others.
pub proof fn commas_set_fields_apart(fields: Seq<Seq<char>>, f: Seq<char>)
    ensures
        comma_separated(seq![f]) == f,
        fields.len() > 0 ==> comma_separated(fields.push(f)) == comma_separated(fields) + ","@ + f,
        or_empty(None).len() == 0,
{
    assert(fields.push(f).drop_last() =~= fields);
}

/// A link to the ledger is valid until it is revoked or its time is up. One
/// without an end stays valid.
pub proof fn ledger_link_is_valid_until_its_end(t: LedgerToken, end: Moment, now: Moment)
    ensures
        t.revoked_at is Some ==> !t.is_valid(now),
        t.revoked_at is None && t.expires_at is None ==> t.is_valid(now),
        t.revoked_at is None && t.expires_at is Some && parsed_datetime(
            t.expires_at->0@,
            "%Y-%m-%dT%H:%M:%SZ"@,
        ) == Some(end) ==> (t.is_valid(now) <==> !(end.secs < now.secs || end.secs == now.secs
            && end.nanos < now.nanos)),
{
}

/// A link lasts as many days as were asked for, one at least and 365 at most,
/// and 90 where nothing was asked.
pub proof fn ledger_link_lasts_days(asked: Option<i64>)
    ensures
        asked is None ==> token_days(asked) == 90,
        asked matches Some(d) && 1 <= d <= 365 ==> token_days(asked) == asked->0,
        asked matches Some(d) && d > 365 ==> token_days(asked) == 365,
        1 <= token_days(asked) <= 365,
{
}

/// A text is read as an address where it is a web address, or has no more than a
/// thousand colons; each colon counts.
pub proof fn colons_are_counted(text: Seq<char>, c: char)
    ensures
        colons(Seq::<char>::empty()) == 0,
        colons(text.push(':')) == colons(text) + 1,
        c != ':' ==> colons(text.push(c)) == colons(text),
        is_shallow(text) <==> ("https://"@.is_prefix_of(text) || "http://"@.is_prefix_of(text)
            || colons(text) <= 1_000),
{
    assert(text.push(':').drop_last() =~= text);
    assert(text.push(c).drop_last() =~= text);
}

/// A request is refused with 400 where the request is at fault, with 401 where
/// the caller is not known, with 402 where the merchant owes fees, with 403
/// where the caller may not do it, with 404 where something is not there, with
/// 409 where it conflicts with what was done before, with 500 where the
/// service is at fault, with 503 where there are no rates.
pub proof fn invoice_refusals_have_their_status(e: InvoiceRefusal)
    ensures
        e.spec_reply().0 == 400 <==> e is NotPending || e is NotConfirmed || e is AddressRequired,
        e.spec_reply().0 == 401 <==> e is NoMerchant,
        e.spec_reply().0 == 402 <==> e is BillingBlocked,
        e.spec_reply().0 == 403 <==> e is IsSettlement,
        e.spec_reply().0 == 404 <==> e is NotFound,
        e.spec_reply().0 == 409 <==> e is AddressNotTaken,
        e.spec_reply().0 == 500 <==> e is LookupFailed,
        e.spec_reply().0 == 503 <==> e is NoRates,
{
}

} // verus!
