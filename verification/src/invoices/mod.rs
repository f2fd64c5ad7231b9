//! Invoices: how they are made, and the states that they pass through.

use vstd::prelude::*;
use vstd::utf8::*;

use crate::addresses::{derive_invoice_address, derived_address, DerivedAddress};
use crate::base64url::{self, base64_char, base64_text, byte_at, sextet};
use crate::clock::{is_storable, timestamp, timestamp_text};
use crate::hexadecimal;
use crate::hexadecimal::hex_roundtrip;
use crate::ids::{is_hyphenated, new_id, random_bytes};
use crate::scanner::decrypt::KeyError;
use crate::text::{
    ascii_upper, copy_text, join2, join3, lex_less, opt_str, opt_text, text_eq, text_less,
    to_uppercase,
};

pub mod book;
pub mod matching;
pub mod payments;
pub mod pricing;

verus! {

/// Minutes that a payment window is prolonged by once a payment was seen.
pub const DETECTED_EXPIRY_MINUTES: i64 = 30;

/// Minutes that a payment window is prolonged by once a part was paid.
pub const UNDERPAID_EXPIRY_MINUTES: i64 = 10;

/// Minutes of the payment window that opens when an invoice is finalized.
pub const FINALIZE_EXPIRY_MINUTES: i64 = 15;

/// Days until a settlement invoice expires.
pub const SETTLEMENT_EXPIRY_DAYS: i64 = 7;

/// Zatoshis above the price from which a payment counts as too much.
pub const OVERPAYMENT_SLACK: i64 = 1000;

/// The product name that marks the settlement of fees.
pub const SETTLEMENT_PRODUCT: &'static str = "Fee Settlement";

pub struct Invoice {
    pub id: String,
    pub merchant_id: String,
    pub memo_code: String,
    pub product_id: Option<String>,
    pub product_name: Option<String>,
    pub size: Option<String>,
    pub currency: Option<String>,
    pub price_id: Option<String>,
    pub payment_address: String,
    pub zcash_uri: String,
    pub merchant_name: Option<String>,
    pub refund_address: Option<String>,
    pub status: String,
    pub detected_txid: Option<String>,
    pub detected_at: Option<String>,
    pub confirmed_at: Option<String>,
    pub refunded_at: Option<String>,
    pub refund_txid: Option<String>,
    pub expires_at: String,
    pub purge_after: Option<String>,
    pub created_at: String,
    pub orchard_receiver_hex: Option<String>,
    pub diversifier_index: Option<i64>,
    pub price_zatoshis: i64,
    pub received_zatoshis: i64,
    pub subscription_id: Option<String>,
    pub payment_link_id: Option<String>,
    pub is_donation: i32,
    pub campaign_counted: i32,
}

pub struct InvoiceStatus {
    pub invoice_id: String,
    pub status: String,
    pub detected_txid: Option<String>,
    pub received_zatoshis: i64,
    pub price_zatoshis: i64,
}

pub struct CreateInvoiceRequest {
    pub product_id: Option<String>,
    pub price_id: Option<String>,
    pub product_name: Option<String>,
    pub size: Option<String>,
    pub currency: Option<String>,
    pub refund_address: Option<String>,
}

/// The part of a payment that goes to the platform: where to, and the amount
/// with eight decimals.
pub struct FeeOutput {
    pub address: String,
    pub amount: String,
}

/// An amount in ZEC at the rate of the moment: in zatoshis, with eight
/// decimals, and with the fee to be paid along, if it is worth an output.
pub struct Quote {
    pub price_zatoshis: i64,
    pub amount: String,
    pub fee: Option<FeeOutput>,
}

/// What is known of the rate for a currency.
pub enum Rate {
    Unsupported,
    Unavailable,
    Quoted(Quote),
}

/// How much of a capped price was sold.
#[derive(Debug, Clone, Copy, PartialEq, Eq, Structural)]
pub struct Capacity {
    pub sold: i64,
    pub max_quantity: Option<i64>,
}

/// The random parts of an invoice.
pub struct InvoiceDraw {
    pub id: String,
    pub memo_code: String,
}

/// Why an invoice could not be made or changed.
#[derive(Debug, Clone, Copy, PartialEq, Eq, Structural)]
pub enum InvoiceError {
    UnsupportedCurrency,
    NoExchangeRate,
    Key(KeyError),
    SoldOut,
    NotFinalizable,
    PaymentDetected,
    PeriodEnded,
    NotUnderpaid,
}

impl InvoiceError {
    /// The message of an error; `detail` is the currency or the status that it
    /// names.
    pub open spec fn spec_message(self, detail: Seq<char>) -> Seq<char> {
        match self {
            InvoiceError::UnsupportedCurrency => "Unsupported currency: "@ + detail,
            InvoiceError::NoExchangeRate => "No exchange rate available for "@ + detail,
            InvoiceError::Key(e) => e.spec_message(),
            InvoiceError::SoldOut => "Sold out"@,
            InvoiceError::NotFinalizable =>
                "Invoice must be in draft or expired status to finalize (current: "@ + detail
                + ")"@,
            InvoiceError::PaymentDetected =>
                "Payment already detected for this invoice, awaiting confirmation"@,
            InvoiceError::PeriodEnded => "Subscription billing period has ended"@,
            InvoiceError::NotUnderpaid => "invoice not in underpaid status"@,
        }
    }

    pub fn message(&self, detail: &str) -> (r: String)
        ensures
            r@ == self.spec_message(detail@),
    {
        match self {
            InvoiceError::UnsupportedCurrency => join2("Unsupported currency: ", detail),
            InvoiceError::NoExchangeRate => join2("No exchange rate available for ", detail),
            InvoiceError::Key(e) => e.message().to_string(),
            InvoiceError::SoldOut => "Sold out".to_string(),
            InvoiceError::NotFinalizable => join3(
                "Invoice must be in draft or expired status to finalize (current: ",
                detail,
                ")",
            ),
            InvoiceError::PaymentDetected =>
                "Payment already detected for this invoice, awaiting confirmation".to_string(),
            InvoiceError::PeriodEnded => "Subscription billing period has ended".to_string(),
            InvoiceError::NotUnderpaid => "invoice not in underpaid status".to_string(),
        }
    }

    /// The HTTP status with which a refused finalization is answered.
    pub fn finalize_status(&self) -> (r: u16)
        ensures
            r == match *self {
                InvoiceError::NotFinalizable => 409u16,
                InvoiceError::PaymentDetected => 409u16,
                InvoiceError::PeriodEnded => 409u16,
                _ => 500u16,
            },
    {
        match self {
            InvoiceError::NotFinalizable => 409,
            InvoiceError::PaymentDetected => 409,
            InvoiceError::PeriodEnded => 409,
            _ => 500,
        }
    }
}

// ---------------------------------------------------------------------------
// Random parts
// ---------------------------------------------------------------------------

/// Whether a text is `prefix` and uppercase hexadecimal digits of a number.
pub open spec fn is_code(s: Seq<char>, prefix: Seq<char>, digits: nat) -> bool {
    &&& s.len() == prefix.len() + digits
    &&& prefix.is_prefix_of(s)
    &&& forall|i: int|
        prefix.len() <= i < s.len() ==> ('0' <= #[trigger] s[i] <= '9' || 'A' <= s[i] <= 'F')
}

proof fn code_of(prefix: Seq<char>, low: Seq<char>)
    requires
        forall|i: int|
            0 <= i < low.len() ==> ('0' <= #[trigger] low[i] <= '9' || 'a' <= low[i] <= 'f'),
    ensures
        is_code(
            prefix + low.map_values(|c: char| ascii_upper(c)),
            prefix,
            low.len(),
        ),
{
    let s = prefix + low.map_values(|c: char| ascii_upper(c));
    assert(s.subrange(0, prefix.len() as int) =~= prefix);
    assert forall|i: int| prefix.len() <= i < s.len() implies ('0' <= #[trigger] s[i] <= '9' || 'A'
        <= s[i] <= 'F') by {
        let c = low[i - prefix.len()];
        assert('0' <= c <= '9' || 'a' <= c <= 'f');
        assert(s[i] == ascii_upper(c));
    }
}

/// Draws the code by which a payment names its invoice.
pub fn generate_memo_code() -> (r: String)
    ensures
        is_code(r@, "CP-"@, 8),
{
    let bytes: Vec<u8> = random_bytes(4);
    let low: String = hexadecimal::encode(bytes.as_slice());
    proof {
        hex_roundtrip(bytes@);
        assert forall|i: int| 0 <= i < low@.len() implies ('0' <= #[trigger] low@[i] <= '9' || 'a'
            <= low@[i] <= 'f') by {
            let d = bytes@[i / 2] as int;
            assert(0 <= d / 16 < 16 && 0 <= d % 16 < 16);
        }
        code_of("CP-"@, low@);
        assert(is_ascii_chars(low@));
    }
    let high: String = to_uppercase(low.as_str());
    join2("CP-", high.as_str())
}

/// Draws the code of a settlement.
pub fn generate_settlement_code() -> (r: String)
    ensures
        is_code(r@, "SETTLE-"@, 8),
{
    let id: String = new_id();
    let chars: Vec<char> = crate::text::chars_of(id.as_str());
    let low: String = crate::text::text_between(&chars, 0, 8);
    proof {
        assert forall|i: int| 0 <= i < low@.len() implies ('0' <= #[trigger] low@[i] <= '9' || 'a'
            <= low@[i] <= 'f') by {
            assert(low@[i] == id@[i]);
        }
        code_of("SETTLE-"@, low@);
        assert(is_ascii_chars(low@));
    }
    let high: String = to_uppercase(low.as_str());
    join2("SETTLE-", high.as_str())
}

/// Draws the random parts of an invoice.
pub fn draw_invoice() -> (r: InvoiceDraw)
    ensures
        is_hyphenated(r.id@),
        is_code(r.memo_code@, "CP-"@, 8),
{
    InvoiceDraw { id: new_id(), memo_code: generate_memo_code() }
}

/// Draws the random parts of a settlement invoice.
pub fn draw_settlement() -> (r: InvoiceDraw)
    ensures
        is_hyphenated(r.id@),
        is_code(r.memo_code@, "SETTLE-"@, 8),
{
    InvoiceDraw { id: new_id(), memo_code: generate_settlement_code() }
}

// ---------------------------------------------------------------------------
// Payment requests
// ---------------------------------------------------------------------------

/// The payment request of an invoice: one output for the merchant and, where a
/// fee is paid along, a second one that names the invoice.
pub open spec fn payment_uri_of(
    address: Seq<char>,
    amount: Seq<char>,
    memo_code: Seq<char>,
    fee: Option<(Seq<char>, Seq<char>)>,
    invoice_id: Seq<char>,
) -> Seq<char> {
    let memo = base64_text(encode_utf8(memo_code));
    match fee {
        Some(f) => "zcash:?address="@ + address + "&amount="@ + amount + "&memo="@ + memo
            + "&address.1="@ + f.0 + "&amount.1="@ + f.1 + "&memo.1="@ + base64_text(
            encode_utf8("FEE-"@ + invoice_id),
        ),
        None => "zcash:"@ + address + "?amount="@ + amount + "&memo="@ + memo,
    }
}

pub open spec fn fee_view(fee: Option<FeeOutput>) -> Option<(Seq<char>, Seq<char>)> {
    match fee {
        Some(f) => Some((f.address@, f.amount@)),
        None => None,
    }
}

/// Writes the payment request of an invoice.
pub fn payment_uri(
    address: &str,
    amount: &str,
    memo_code: &str,
    fee: &Option<FeeOutput>,
    invoice_id: &str,
) -> (r: String)
    ensures
        r@ == payment_uri_of(address@, amount@, memo_code@, fee_view(*fee), invoice_id@),
{
    let memo: String = base64url::encode(memo_code.as_bytes());
    match fee {
        Some(f) => {
            let fee_code: String = join2("FEE-", invoice_id);
            let fee_memo: String = base64url::encode(fee_code.as_str().as_bytes());
            let mut r: String = join2("zcash:?address=", address);
            r.append("&amount=");
            r.append(amount);
            r.append("&memo=");
            r.append(memo.as_str());
            r.append("&address.1=");
            r.append(f.address.as_str());
            r.append("&amount.1=");
            r.append(f.amount.as_str());
            r.append("&memo.1=");
            r.append(fee_memo.as_str());
            r
        },
        None => {
            let mut r: String = join2("zcash:", address);
            r.append("?amount=");
            r.append(amount);
            r.append("&memo=");
            r.append(memo.as_str());
            r
        },
    }
}

/// The payment request that a code picture shows: the stored one, or a plain
/// one where none was stored.
pub fn qr_uri(invoice: &Invoice, amount: &str) -> (r: String)
    ensures
        r@ == if invoice.zcash_uri@.len() == 0 {
            payment_uri_of(
                invoice.payment_address@,
                amount@,
                invoice.memo_code@,
                None,
                invoice.id@,
            )
        } else {
            invoice.zcash_uri@
        },
{
    if invoice.zcash_uri.as_str().is_empty() {
        payment_uri(
            invoice.payment_address.as_str(),
            amount,
            invoice.memo_code.as_str(),
            &None,
            invoice.id.as_str(),
        )
    } else {
        invoice.zcash_uri.clone()
    }
}

/// Whether more was paid than the price and some slack.
pub open spec fn is_overpaid(received: int, price: int) -> bool {
    received > price + OVERPAYMENT_SLACK && price > 0
}

/// Whether more was paid than the price and some slack.
pub fn overpaid(received_zatoshis: i64, price_zatoshis: i64) -> (r: bool)
    ensures
        r == is_overpaid(received_zatoshis as int, price_zatoshis as int),
{
    received_zatoshis as i128 > price_zatoshis as i128 + OVERPAYMENT_SLACK as i128
        && price_zatoshis > 0
}

// ---------------------------------------------------------------------------
// Making invoices
// ---------------------------------------------------------------------------

/// Whether one more may be sold. A price that is unknown sells nothing.
pub open spec fn has_room(price_given: bool, capacity: Option<Capacity>) -> bool {
    price_given ==> match capacity {
        Some(c) => match c.max_quantity {
            Some(m) => c.sold < m,
            None => c.sold < i64::MAX,
        },
        None => false,
    }
}

fn room_left(price_given: bool, capacity: Option<Capacity>) -> (r: bool)
    ensures
        r == has_room(price_given, capacity),
{
    if !price_given {
        return true;
    }
    match capacity {
        Some(c) => match c.max_quantity {
            Some(m) => c.sold < m,
            None => c.sold < i64::MAX,
        },
        None => false,
    }
}

/// The currency of a request.
pub open spec fn currency_of(currency: Option<String>) -> Seq<char> {
    match currency {
        Some(c) => c@,
        None => "EUR"@,
    }
}

/// The currency of a request, by default the euro.
pub fn currency_or_default(currency: &Option<String>) -> (r: String)
    ensures
        r@ == currency_of(*currency),
{
    match currency {
        Some(c) => c.clone(),
        None => "EUR".to_string(),
    }
}

/// Whether a time leaves room for a payment window.
pub open spec fn is_window(now: i64, minutes: i64) -> bool {
    0 <= now < 5_000_000_000_000 && 0 <= minutes <= 100_000_000
}

/// Why an invoice is not made, if it is not.
pub open spec fn creation_error(
    rate: Rate,
    address: Result<(Seq<char>, Seq<char>), KeyError>,
    room: bool,
) -> Option<InvoiceError> {
    match rate {
        Rate::Unsupported => Some(InvoiceError::UnsupportedCurrency),
        Rate::Unavailable => Some(InvoiceError::NoExchangeRate),
        Rate::Quoted(_) => match address {
            Err(e) => Some(InvoiceError::Key(e)),
            Ok(_) => if room {
                None
            } else {
                Some(InvoiceError::SoldOut)
            },
        },
    }
}

/// Whether an invoice is new: nothing was paid, detected or refunded.
pub open spec fn is_fresh(i: &Invoice) -> bool {
    &&& i.merchant_name is None
    &&& i.detected_txid is None
    &&& i.detected_at is None
    &&& i.confirmed_at is None
    &&& i.refunded_at is None
    &&& i.refund_txid is None
    &&& i.purge_after is None
    &&& i.received_zatoshis == 0
    &&& i.payment_link_id is None
    &&& i.is_donation == 0
    &&& i.campaign_counted == 0
}

/// Makes a pending invoice on an address of its own. `capacity` is what is
/// known of the price that is sold, if the request names one.
pub fn create_invoice(
    draw: &InvoiceDraw,
    merchant_id: &str,
    merchant_ufvk: &str,
    req: &CreateInvoiceRequest,
    rate: &Rate,
    diversifier_index: u32,
    capacity: Option<Capacity>,
    expiry_minutes: i64,
    now: i64,
) -> (r: Result<Invoice, InvoiceError>)
    requires
        is_window(now, expiry_minutes),
    ensures
        match r {
            Err(e) => creation_error(
                *rate,
                derived_address(merchant_ufvk@, diversifier_index),
                has_room(req.price_id is Some, capacity),
            ) == Some(e),
            Ok(i) => {
                &&& creation_error(
                    *rate,
                    derived_address(merchant_ufvk@, diversifier_index),
                    has_room(req.price_id is Some, capacity),
                ) is None
                &&& rate matches Rate::Quoted(q)
                &&& derived_address(merchant_ufvk@, diversifier_index) matches Ok(a)
                &&& is_fresh(&i)
                &&& i.id@ == draw.id@
                &&& i.merchant_id@ == merchant_id@
                &&& i.memo_code@ == draw.memo_code@
                &&& opt_text(i.product_id) == opt_text(req.product_id)
                &&& opt_text(i.product_name) == opt_text(req.product_name)
                &&& opt_text(i.size) == opt_text(req.size)
                &&& opt_text(i.currency) == Some(currency_of(req.currency))
                &&& opt_text(i.price_id) == opt_text(req.price_id)
                &&& i.payment_address@ == a.0
                &&& opt_text(i.orchard_receiver_hex) == Some(a.1)
                &&& i.zcash_uri@ == payment_uri_of(
                    a.0,
                    q.amount@,
                    draw.memo_code@,
                    fee_view(q.fee),
                    draw.id@,
                )
                &&& opt_text(i.refund_address) == opt_text(req.refund_address)
                &&& i.status@ == "pending"@
                &&& i.expires_at@ == timestamp_text(now + expiry_minutes * 60)
                &&& i.created_at@ == timestamp_text(now as int)
                &&& i.diversifier_index == Some(diversifier_index as i64)
                &&& i.price_zatoshis == q.price_zatoshis
                &&& i.subscription_id is None
            },
        },
{
    let quote: &Quote = match rate {
        Rate::Unsupported => {
            return Err(InvoiceError::UnsupportedCurrency);
        },
        Rate::Unavailable => {
            return Err(InvoiceError::NoExchangeRate);
        },
        Rate::Quoted(q) => q,
    };
    let derived: DerivedAddress = match derive_invoice_address(merchant_ufvk, diversifier_index) {
        Ok(d) => d,
        Err(e) => {
            return Err(InvoiceError::Key(e));
        },
    };
    if !room_left(req.price_id.is_some(), capacity) {
        return Err(InvoiceError::SoldOut);
    }
    let zcash_uri: String = payment_uri(
        derived.ua_string.as_str(),
        quote.amount.as_str(),
        draw.memo_code.as_str(),
        &quote.fee,
        draw.id.as_str(),
    );
    Ok(
        Invoice {
            id: draw.id.clone(),
            merchant_id: merchant_id.to_string(),
            memo_code: draw.memo_code.clone(),
            product_id: req.product_id.clone(),
            product_name: req.product_name.clone(),
            size: req.size.clone(),
            currency: Some(currency_or_default(&req.currency)),
            price_id: req.price_id.clone(),
            payment_address: derived.ua_string,
            zcash_uri,
            merchant_name: None,
            refund_address: req.refund_address.clone(),
            status: "pending".to_string(),
            detected_txid: None,
            detected_at: None,
            confirmed_at: None,
            refunded_at: None,
            refund_txid: None,
            expires_at: timestamp(now + expiry_minutes * 60),
            purge_after: None,
            created_at: timestamp(now),
            orchard_receiver_hex: Some(derived.orchard_receiver_hex),
            diversifier_index: Some(diversifier_index as i64),
            price_zatoshis: quote.price_zatoshis,
            received_zatoshis: 0,
            subscription_id: None,
            payment_link_id: None,
            is_donation: 0,
            campaign_counted: 0,
        },
    )
}

/// Makes a draft for the renewal of a subscription. The amount in ZEC is fixed
/// when the customer opens it.
pub fn create_draft_invoice(
    draw: &InvoiceDraw,
    merchant_id: &str,
    merchant_ufvk: &str,
    subscription_id: &str,
    product_name: Option<&str>,
    currency: &str,
    price_id: Option<&str>,
    expires_at: &str,
    diversifier_index: u32,
    now: i64,
) -> (r: Result<Invoice, InvoiceError>)
    requires
        is_storable(now as int),
    ensures
        match r {
            Err(e) => derived_address(merchant_ufvk@, diversifier_index) matches Err(k) && e
                == InvoiceError::Key(k),
            Ok(i) => {
                &&& derived_address(merchant_ufvk@, diversifier_index) matches Ok(a)
                &&& is_fresh(&i)
                &&& i.id@ == draw.id@
                &&& i.merchant_id@ == merchant_id@
                &&& i.memo_code@ == draw.memo_code@
                &&& i.product_id is None
                &&& opt_text(i.product_name) == opt_str(product_name)
                &&& i.size is None
                &&& opt_text(i.currency) == Some(currency@)
                &&& opt_text(i.price_id) == opt_str(price_id)
                &&& i.payment_address@ == a.0
                &&& opt_text(i.orchard_receiver_hex) == Some(a.1)
                &&& i.zcash_uri@.len() == 0
                &&& i.refund_address is None
                &&& i.status@ == "draft"@
                &&& i.expires_at@ == expires_at@
                &&& i.created_at@ == timestamp_text(now as int)
                &&& i.diversifier_index == Some(diversifier_index as i64)
                &&& i.price_zatoshis == 0
                &&& opt_text(i.subscription_id) == Some(subscription_id@)
            },
        },
{
    let derived: DerivedAddress = match derive_invoice_address(merchant_ufvk, diversifier_index) {
        Ok(d) => d,
        Err(e) => {
            return Err(InvoiceError::Key(e));
        },
    };
    Ok(
        Invoice {
            id: draw.id.clone(),
            merchant_id: merchant_id.to_string(),
            memo_code: draw.memo_code.clone(),
            product_id: None,
            product_name: copy_text(product_name),
            size: None,
            currency: Some(currency.to_string()),
            price_id: copy_text(price_id),
            payment_address: derived.ua_string,
            zcash_uri: String::new(),
            merchant_name: None,
            refund_address: None,
            status: "draft".to_string(),
            detected_txid: None,
            detected_at: None,
            confirmed_at: None,
            refunded_at: None,
            refund_txid: None,
            expires_at: expires_at.to_string(),
            purge_after: None,
            created_at: timestamp(now),
            orchard_receiver_hex: Some(derived.orchard_receiver_hex),
            diversifier_index: Some(diversifier_index as i64),
            price_zatoshis: 0,
            received_zatoshis: 0,
            subscription_id: Some(subscription_id.to_string()),
            payment_link_id: None,
            is_donation: 0,
            campaign_counted: 0,
        },
    )
}

/// Makes the invoice over which a merchant settles the fees of a cycle.
pub fn create_settlement_invoice(
    draw: &InvoiceDraw,
    merchant_id: &str,
    outstanding_zatoshis: i64,
    amount: &str,
    fee_address: &str,
    now: i64,
) -> (i: Invoice)
    requires
        0 <= now < 5_000_000_000_000,
    ensures
        is_fresh(&i),
        i.id@ == draw.id@,
        i.merchant_id@ == merchant_id@,
        i.memo_code@ == draw.memo_code@,
        i.product_id is None,
        opt_text(i.product_name) == Some("Fee Settlement"@),
        i.size is None,
        opt_text(i.currency) == Some("EUR"@),
        i.price_id is None,
        i.payment_address@ == fee_address@,
        i.zcash_uri@ == payment_uri_of(fee_address@, amount@, draw.memo_code@, None, draw.id@),
        i.refund_address is None,
        i.status@ == "pending"@,
        i.expires_at@ == timestamp_text(now + 604_800),
        i.created_at@ == timestamp_text(now as int),
        i.orchard_receiver_hex is None,
        i.diversifier_index is None,
        i.price_zatoshis == outstanding_zatoshis,
        i.subscription_id is None,
{
    Invoice {
        id: draw.id.clone(),
        merchant_id: merchant_id.to_string(),
        memo_code: draw.memo_code.clone(),
        product_id: None,
        product_name: Some(SETTLEMENT_PRODUCT.to_string()),
        size: None,
        currency: Some("EUR".to_string()),
        price_id: None,
        payment_address: fee_address.to_string(),
        zcash_uri: payment_uri(
            fee_address,
            amount,
            draw.memo_code.as_str(),
            &None,
            draw.id.as_str(),
        ),
        merchant_name: None,
        refund_address: None,
        status: "pending".to_string(),
        detected_txid: None,
        detected_at: None,
        confirmed_at: None,
        refunded_at: None,
        refund_txid: None,
        expires_at: timestamp(now + SETTLEMENT_EXPIRY_DAYS * 86_400),
        purge_after: None,
        created_at: timestamp(now),
        orchard_receiver_hex: None,
        diversifier_index: None,
        price_zatoshis: outstanding_zatoshis,
        received_zatoshis: 0,
        subscription_id: None,
        payment_link_id: None,
        is_donation: 0,
        campaign_counted: 0,
    }
}

// ---------------------------------------------------------------------------
// States
// ---------------------------------------------------------------------------

impl Invoice {
    pub open spec fn is(&self, status: Seq<char>) -> bool {
        self.status@ == status
    }

    /// A copy of the invoice.
    pub fn copy(&self) -> (r: Invoice)
        ensures
            r == *self,
    {
        Invoice {
            id: self.id.clone(),
            merchant_id: self.merchant_id.clone(),
            memo_code: self.memo_code.clone(),
            product_id: self.product_id.clone(),
            product_name: self.product_name.clone(),
            size: self.size.clone(),
            currency: self.currency.clone(),
            price_id: self.price_id.clone(),
            payment_address: self.payment_address.clone(),
            zcash_uri: self.zcash_uri.clone(),
            merchant_name: self.merchant_name.clone(),
            refund_address: self.refund_address.clone(),
            status: self.status.clone(),
            detected_txid: self.detected_txid.clone(),
            detected_at: self.detected_at.clone(),
            confirmed_at: self.confirmed_at.clone(),
            refunded_at: self.refunded_at.clone(),
            refund_txid: self.refund_txid.clone(),
            expires_at: self.expires_at.clone(),
            purge_after: self.purge_after.clone(),
            created_at: self.created_at.clone(),
            orchard_receiver_hex: self.orchard_receiver_hex.clone(),
            diversifier_index: self.diversifier_index,
            price_zatoshis: self.price_zatoshis,
            received_zatoshis: self.received_zatoshis,
            subscription_id: self.subscription_id.clone(),
            payment_link_id: self.payment_link_id.clone(),
            is_donation: self.is_donation,
            campaign_counted: self.campaign_counted,
        }
    }

    /// Whether `after` is the invoice once it was paid by a transaction.
    pub open spec fn detected_as(
        &self,
        after: &Invoice,
        txid: Seq<char>,
        received: i64,
        now: i64,
    ) -> bool {
        &&& after.is("detected"@)
        &&& opt_text(after.detected_txid) == Some(txid)
        &&& opt_text(after.detected_at) == Some(timestamp_text(now as int))
        &&& after.received_zatoshis == received
        &&& after.expires_at@ == timestamp_text(now + 1800)
        &&& *after == (Invoice {
            status: after.status,
            detected_txid: after.detected_txid,
            detected_at: after.detected_at,
            received_zatoshis: after.received_zatoshis,
            expires_at: after.expires_at,
            ..*self
        })
    }

    /// Whether `after` is the invoice once a part of it was paid.
    pub open spec fn underpaid_as(
        &self,
        after: &Invoice,
        txid: Seq<char>,
        received: i64,
        now: i64,
    ) -> bool {
        &&& after.is("underpaid"@)
        &&& after.received_zatoshis == received
        &&& opt_text(after.detected_txid) == Some(txid)
        &&& opt_text(after.detected_at) == Some(timestamp_text(now as int))
        &&& after.expires_at@ == timestamp_text(now + 600)
        &&& *after == (Invoice {
            status: after.status,
            detected_txid: after.detected_txid,
            detected_at: after.detected_at,
            received_zatoshis: after.received_zatoshis,
            expires_at: after.expires_at,
            ..*self
        })
    }

    /// Whether `after` is the invoice once its payment is in the chain.
    pub open spec fn confirmed_as(&self, after: &Invoice, now: i64) -> bool {
        &&& after.is("confirmed"@)
        &&& opt_text(after.confirmed_at) == Some(timestamp_text(now as int))
        &&& *after == (Invoice {
            status: after.status,
            confirmed_at: after.confirmed_at,
            ..*self
        })
    }

    fn has_status(&self, status: &str) -> (r: bool)
        ensures
            r == self.is(status@),
    {
        text_eq(self.status.as_str(), status)
    }

    /// Whether payments of the invoice are looked for.
    pub open spec fn is_watched(&self, now: Seq<char>) -> bool {
        (self.is("pending"@) || self.is("underpaid"@) || self.is("detected"@)) && lex_less(
            now,
            self.expires_at@,
        )
    }

    /// Whether payments of the invoice are looked for.
    pub fn watched(&self, now: &str) -> (r: bool)
        ensures
            r == self.is_watched(now@),
    {
        (self.has_status("pending") || self.has_status("underpaid") || self.has_status("detected"))
            && text_less(now, self.expires_at.as_str())
    }

    /// Notes a payment in full. Gives whether the status changed.
    pub fn mark_detected(&mut self, txid: &str, received_zatoshis: i64, now: i64) -> (r: bool)
        requires
            is_window(now, DETECTED_EXPIRY_MINUTES),
        ensures
            may_follow(old(self).status@, final(self).status@),
            r == (old(self).is("pending"@) || old(self).is("underpaid"@)),
            if r {
                old(self).detected_as(final(self), txid@, received_zatoshis, now)
            } else {
                *final(self) == *old(self)
            },
    {
        if self.has_status("pending") || self.has_status("underpaid") {
            self.status = "detected".to_string();
            self.detected_txid = Some(txid.to_string());
            self.detected_at = Some(timestamp(now));
            self.received_zatoshis = received_zatoshis;
            self.expires_at = timestamp(now + DETECTED_EXPIRY_MINUTES * 60);
            true
        } else {
            false
        }
    }

    /// Notes that a detected payment is in the chain. Gives whether the status
    /// changed.
    pub fn mark_confirmed(&mut self, now: i64) -> (r: bool)
        requires
            is_storable(now as int),
        ensures
            may_follow(old(self).status@, final(self).status@),
            r == old(self).is("detected"@),
            if r {
                old(self).confirmed_as(final(self), now)
            } else {
                *final(self) == *old(self)
            },
    {
        if self.has_status("detected") {
            self.status = "confirmed".to_string();
            self.confirmed_at = Some(timestamp(now));
            true
        } else {
            false
        }
    }

    /// Notes that a confirmed payment was sent back. Gives whether the status
    /// changed.
    pub fn mark_refunded(&mut self, refund_txid: Option<&str>, now: i64) -> (r: bool)
        requires
            is_storable(now as int),
        ensures
            may_follow(old(self).status@, final(self).status@),
            r == old(self).is("confirmed"@),
            if r {
                &&& final(self).is("refunded"@)
                &&& opt_text(final(self).refunded_at) == Some(timestamp_text(now as int))
                &&& opt_text(final(self).refund_txid) == opt_str(refund_txid)
                &&& *final(self) == (Invoice {
                    status: final(self).status,
                    refunded_at: final(self).refunded_at,
                    refund_txid: final(self).refund_txid,
                    ..*old(self)
                })
            } else {
                *final(self) == *old(self)
            },
    {
        if self.has_status("confirmed") {
            self.status = "refunded".to_string();
            self.refunded_at = Some(timestamp(now));
            self.refund_txid = copy_text(refund_txid);
            true
        } else {
            false
        }
    }

    /// Cancels a pending invoice. Gives whether the status changed.
    pub fn mark_expired(&mut self) -> (r: bool)
        ensures
            may_follow(old(self).status@, final(self).status@),
            r == old(self).is("pending"@),
            if r {
                &&& final(self).is("expired"@)
                &&& *final(self) == (Invoice { status: final(self).status, ..*old(self) })
            } else {
                *final(self) == *old(self)
            },
    {
        if self.has_status("pending") {
            self.status = "expired".to_string();
            true
        } else {
            false
        }
    }

    /// Whether the payment window of the invoice is over without full payment.
    pub open spec fn is_over(&self, now: Seq<char>) -> bool {
        (self.is("pending"@) || self.is("underpaid"@)) && lex_less(self.expires_at@, now)
    }

    /// Expires an invoice whose payment window is over. Gives whether the
    /// status changed.
    pub fn expire_if_old(&mut self, now: &str) -> (r: bool)
        ensures
            may_follow(old(self).status@, final(self).status@),
            r == old(self).is_over(now@),
            if r {
                &&& final(self).is("expired"@)
                &&& *final(self) == (Invoice { status: final(self).status, ..*old(self) })
            } else {
                *final(self) == *old(self)
            },
    {
        if (self.has_status("pending") || self.has_status("underpaid")) && text_less(
            self.expires_at.as_str(),
            now,
        ) {
            self.status = "expired".to_string();
            true
        } else {
            false
        }
    }

    /// Notes a payment in part. Gives whether the status changed.
    pub fn mark_underpaid(&mut self, received_zatoshis: i64, txid: &str, now: i64) -> (r: bool)
        requires
            is_window(now, UNDERPAID_EXPIRY_MINUTES),
        ensures
            may_follow(old(self).status@, final(self).status@),
            r == old(self).is("pending"@),
            if r {
                old(self).underpaid_as(final(self), txid@, received_zatoshis, now)
            } else {
                *final(self) == *old(self)
            },
    {
        if self.has_status("pending") {
            self.status = "underpaid".to_string();
            self.received_zatoshis = received_zatoshis;
            self.detected_txid = Some(txid.to_string());
            self.detected_at = Some(timestamp(now));
            self.expires_at = timestamp(now + UNDERPAID_EXPIRY_MINUTES * 60);
            true
        } else {
            false
        }
    }

    /// Adds a payment to an underpaid invoice and prolongs its window. Gives
    /// the new total.
    pub fn accumulate_payment(&mut self, additional_zatoshis: i64, now: i64) -> (r: Result<
        i64,
        InvoiceError,
    >)
        requires
            is_window(now, UNDERPAID_EXPIRY_MINUTES),
            i64::MIN <= old(self).received_zatoshis + additional_zatoshis <= i64::MAX,
        ensures
            may_follow(old(self).status@, final(self).status@),
            match r {
                Ok(total) => {
                    &&& old(self).is("underpaid"@)
                    &&& total == old(self).received_zatoshis + additional_zatoshis
                    &&& final(self).received_zatoshis == total
                    &&& final(self).expires_at@ == timestamp_text(now + 600)
                    &&& *final(self) == (Invoice {
                        received_zatoshis: final(self).received_zatoshis,
                        expires_at: final(self).expires_at,
                        ..*old(self)
                    })
                },
                Err(e) => {
                    &&& !old(self).is("underpaid"@)
                    &&& e == InvoiceError::NotUnderpaid
                    &&& *final(self) == *old(self)
                },
            },
    {
        if self.has_status("underpaid") {
            self.received_zatoshis = self.received_zatoshis + additional_zatoshis;
            self.expires_at = timestamp(now + UNDERPAID_EXPIRY_MINUTES * 60);
            Ok(self.received_zatoshis)
        } else {
            Err(InvoiceError::NotUnderpaid)
        }
    }

    /// Whether a refund address may be left: none was left before, and nothing
    /// was paid in full yet.
    pub open spec fn takes_refund_address(&self) -> bool {
        (self.is("pending"@) || self.is("underpaid"@) || self.is("expired"@))
            && match self.refund_address {
            Some(a) => a@.len() == 0,
            None => true,
        }
    }

    /// Leaves a refund address, once. Gives whether it was taken.
    pub fn update_refund_address(&mut self, address: &str) -> (r: bool)
        ensures
            may_follow(old(self).status@, final(self).status@),
            r == old(self).takes_refund_address(),
            if r {
                &&& opt_text(final(self).refund_address) == Some(address@)
                &&& *final(self) == (Invoice {
                    refund_address: final(self).refund_address,
                    ..*old(self)
                })
            } else {
                *final(self) == *old(self)
            },
    {
        let unset: bool = match &self.refund_address {
            Some(a) => a.as_str().is_empty(),
            None => true,
        };
        if (self.has_status("pending") || self.has_status("underpaid") || self.has_status(
            "expired",
        )) && unset {
            self.refund_address = Some(address.to_string());
            true
        } else {
            false
        }
    }

    /// Why the invoice cannot be finalized, if it cannot.
    pub open spec fn finalize_error(
        &self,
        period_end: Option<Seq<char>>,
        rate: Rate,
        now: Seq<char>,
    ) -> Option<InvoiceError> {
        if !self.is("draft"@) && !self.is("expired"@) {
            Some(InvoiceError::NotFinalizable)
        } else if self.received_zatoshis > 0 || self.detected_txid is Some {
            Some(InvoiceError::PaymentDetected)
        } else if self.subscription_id is Some && (period_end matches Some(end) && lex_less(
            end,
            now,
        )) {
            Some(InvoiceError::PeriodEnded)
        } else {
            match rate {
                Rate::Unsupported => Some(InvoiceError::UnsupportedCurrency),
                Rate::Unavailable => Some(InvoiceError::NoExchangeRate),
                Rate::Quoted(_) => None,
            }
        }
    }

    /// Fixes the price of a draft, or of an expired invoice, at the rate of
    /// the moment and opens its payment window. `period_end` is the end of the
    /// current period of the subscription that the invoice renews.
    pub fn finalize_invoice(&mut self, period_end: Option<&str>, rate: &Rate, now: i64) -> (r:
        Result<(), InvoiceError>)
        requires
            is_window(now, FINALIZE_EXPIRY_MINUTES),
        ensures
            may_follow(old(self).status@, final(self).status@),
            match r {
                Err(e) => old(self).finalize_error(
                    opt_str(period_end),
                    *rate,
                    timestamp_text(now as int),
                ) == Some(e) && *final(self) == *old(self),
                Ok(_) => {
                    &&& old(self).finalize_error(
                        opt_str(period_end),
                        *rate,
                        timestamp_text(now as int),
                    ) is None
                    &&& rate matches Rate::Quoted(q)
                    &&& final(self).is("pending"@)
                    &&& final(self).price_zatoshis == q.price_zatoshis
                    &&& final(self).expires_at@ == timestamp_text(now + 900)
                    &&& final(self).zcash_uri@ == payment_uri_of(
                        old(self).payment_address@,
                        q.amount@,
                        old(self).memo_code@,
                        fee_view(q.fee),
                        old(self).id@,
                    )
                    &&& *final(self) == (Invoice {
                        status: final(self).status,
                        price_zatoshis: final(self).price_zatoshis,
                        zcash_uri: final(self).zcash_uri,
                        expires_at: final(self).expires_at,
                        ..*old(self)
                    })
                },
            },
    {
        if !self.has_status("draft") && !self.has_status("expired") {
            return Err(InvoiceError::NotFinalizable);
        }
        if self.received_zatoshis > 0 || self.detected_txid.is_some() {
            return Err(InvoiceError::PaymentDetected);
        }
        if self.subscription_id.is_some() {
            match period_end {
                Some(end) => {
                    if text_less(end, timestamp(now).as_str()) {
                        return Err(InvoiceError::PeriodEnded);
                    }
                },
                None => {},
            }
        }
        match rate {
            Rate::Unsupported => Err(InvoiceError::UnsupportedCurrency),
            Rate::Unavailable => Err(InvoiceError::NoExchangeRate),
            Rate::Quoted(q) => {
                self.zcash_uri = payment_uri(
                    self.payment_address.as_str(),
                    q.amount.as_str(),
                    self.memo_code.as_str(),
                    &q.fee,
                    self.id.as_str(),
                );
                self.price_zatoshis = q.price_zatoshis;
                self.expires_at = timestamp(now + FINALIZE_EXPIRY_MINUTES * 60);
                self.status = "pending".to_string();
                Ok(())
            },
        }
    }
}

/// Whether one status may follow another one. Every operation on an invoice
/// keeps to this.
pub open spec fn may_follow(before: Seq<char>, after: Seq<char>) -> bool {
    ||| before == after
    ||| before == "draft"@ && after == "pending"@
    ||| before == "expired"@ && after == "pending"@
    ||| before == "pending"@ && (after == "underpaid"@ || after == "detected"@ || after
        == "expired"@)
    ||| before == "underpaid"@ && (after == "detected"@ || after == "expired"@)
    ||| before == "detected"@ && after == "confirmed"@
    ||| before == "confirmed"@ && after == "refunded"@
}

/// A status is confirmed only where it was detected, or confirmed already; and
/// what was refunded stays so.
pub proof fn confirmation_follows_detection(before: Seq<char>, after: Seq<char>)
    requires
        may_follow(before, after),
    ensures
        after == "confirmed"@ ==> before == "detected"@ || before == "confirmed"@,
        after == "detected"@ ==> before == "pending"@ || before == "underpaid"@ || before
            == "detected"@,
        before == "refunded"@ ==> after == "refunded"@,
        before == "confirmed"@ ==> after == "confirmed"@ || after == "refunded"@,
{
    reveal_strlit("draft");
    reveal_strlit("pending");
    reveal_strlit("underpaid");
    reveal_strlit("detected");
    reveal_strlit("confirmed");
    reveal_strlit("expired");
    reveal_strlit("refunded");
    assert("draft"@[0] == 'd' && "draft"@.len() == 5);
    assert("pending"@[0] == 'p' && "pending"@.len() == 7);
    assert("underpaid"@[0] == 'u' && "underpaid"@.len() == 9);
    assert("detected"@[0] == 'd' && "detected"@.len() == 8);
    assert("confirmed"@[0] == 'c' && "confirmed"@.len() == 9);
    assert("expired"@[0] == 'e' && "expired"@.len() == 7);
    assert("refunded"@[0] == 'r' && "refunded"@.len() == 8);
}

// ---------------------------------------------------------------------------
// Reading payment requests
// ---------------------------------------------------------------------------

/// The place of the first occurrence of a character, or the length where there
/// is none.
pub open spec fn first_of(s: Seq<char>, c: char) -> int
    decreases s.len(),
{
    if s.len() == 0 {
        0
    } else if s[0] == c {
        0
    } else {
        1 + first_of(s.skip(1), c)
    }
}

/// The value of a parameter in a query, whose parts are separated by `&`: what
/// follows the name and `=` in the first part that begins so.
pub open spec fn query_value(query: Seq<char>, name: Seq<char>) -> Option<Seq<char>>
    decreases query.len(),
{
    let end = first_of(query, '&');
    if 0 <= end <= query.len() && (name + seq!['=']).is_prefix_of(query.take(end)) {
        Some(query.take(end).skip(name.len() as int + 1))
    } else if 0 <= end < query.len() {
        query_value(query.skip(end + 1), name)
    } else {
        None
    }
}

/// What follows the first question mark of a payment request (ZIP 321).
pub open spec fn query_of(uri: Seq<char>) -> Seq<char> {
    uri.skip(first_of(uri, '?') + 1)
}

/// The address of the first output of a payment request: it stands before the
/// question mark, or in the query where nothing stands there.
pub open spec fn recipient_of(uri: Seq<char>) -> Option<Seq<char>> {
    let path = uri.subrange("zcash:"@.len() as int, first_of(uri, '?'));
    if path.len() > 0 {
        Some(path)
    } else {
        query_value(query_of(uri), "address"@)
    }
}

/// Whether a text can stand in a payment request as it is.
pub open spec fn is_plain_part(s: Seq<char>) -> bool {
    !s.contains('&') && !s.contains('?') && !s.contains('=')
}

proof fn first_of_absent(s: Seq<char>, c: char)
    requires
        !s.contains(c),
    ensures
        first_of(s, c) == s.len(),
    decreases s.len(),
{
    if s.len() > 0 {
        assert(s.contains(s[0]));
        assert forall|x: char| s.skip(1).contains(x) implies s.contains(x) by {
            let i = s.skip(1).index_of(x);
            assert(s[i + 1] == x);
        }
        first_of_absent(s.skip(1), c);
    }
}

proof fn first_of_after(a: Seq<char>, b: Seq<char>, c: char)
    requires
        !a.contains(c),
        b.len() > 0,
        b[0] == c,
    ensures
        first_of(a + b, c) == a.len(),
    decreases a.len(),
{
    if a.len() == 0 {
        assert(a + b =~= b);
    } else {
        assert(a.contains(a[0]));
        assert((a + b)[0] == a[0]);
        assert((a + b).skip(1) =~= a.skip(1) + b);
        assert forall|x: char| a.skip(1).contains(x) implies a.contains(x) by {
            let i = a.skip(1).index_of(x);
            assert(a[i + 1] == x);
        }
        first_of_after(a.skip(1), b, c);
    }
}

proof fn plain_sum(a: Seq<char>, b: Seq<char>)
    requires
        is_plain_part(a),
        is_plain_part(b),
    ensures
        is_plain_part(a + b),
{
    assert forall|x: char| (a + b).contains(x) implies a.contains(x) || b.contains(x) by {
        let i = (a + b).index_of(x);
        if i < a.len() {
            assert(a[i] == x);
        } else {
            assert(b[i - a.len()] == x);
        }
    }
}

/// Reading a query whose first part is `name=value`.
proof fn reads_part(name: Seq<char>, value: Seq<char>, rest: Seq<char>, wanted: Seq<char>)
    requires
        is_plain_part(name),
        is_plain_part(value),
        is_plain_part(wanted),
        rest.len() == 0 || rest[0] == '&',
    ensures
        wanted == name ==> query_value(name + seq!['='] + value + rest, wanted) == Some(value),
        wanted != name && rest.len() == 0 ==> query_value(
            name + seq!['='] + value + rest,
            wanted,
        ) is None,
        wanted != name && rest.len() > 0 ==> query_value(name + seq!['='] + value + rest, wanted)
            == query_value(rest.skip(1), wanted),
{
    let part = name + seq!['='] + value;
    let query = part + rest;
    assert(query =~= name + seq!['='] + value + rest);
    assert(!part.contains('&')) by {
        if part.contains('&') {
            let i = part.index_of('&');
            if i < name.len() {
                assert(name[i] == '&');
                assert(name.contains('&'));
            } else if i > name.len() {
                assert(value[i - name.len() - 1] == '&');
                assert(value.contains('&'));
            }
        }
    }
    if rest.len() == 0 {
        assert(query =~= part);
        first_of_absent(part, '&');
    } else {
        first_of_after(part, rest, '&');
    }
    assert(query.take(part.len() as int) =~= part);
    let key = wanted + seq!['='];
    if wanted == name {
        assert(key.is_prefix_of(part));
        assert(part.skip(name.len() as int + 1) =~= value);
    } else if key.is_prefix_of(part) {
        assert(key =~= part.take(key.len() as int));
        if wanted.len() < name.len() {
            assert(part[wanted.len() as int] == key[wanted.len() as int]);
            assert(name[wanted.len() as int] == '=');
            assert(name.contains('='));
        } else if wanted.len() > name.len() {
            assert(key[name.len() as int] == part[name.len() as int]);
            assert(wanted[name.len() as int] == '=');
            assert(wanted.contains('='));
        } else {
            assert forall|i: int| 0 <= i < name.len() implies wanted[i] == name[i] by {
                assert(key[i] == part[i]);
            }
            assert(wanted =~= name);
        }
    }
    if wanted != name && rest.len() > 0 {
        assert(query.skip(part.len() as int + 1) =~= rest.skip(1));
    }
}

proof fn base64_is_plain(bytes: Seq<u8>)
    ensures
        is_plain_part(base64_text(bytes)),
{
    let s = base64_text(bytes);
    assert forall|i: int| 0 <= i < s.len() implies s[i] != '&' && s[i] != '?' && s[i] != '=' by {
        let v = sextet(bytes, i);
        assert(s[i] == base64_char(v));
        sextet_range(bytes, i);
    }
}

proof fn sextet_range(bytes: Seq<u8>, i: int)
    requires
        i >= 0,
    ensures
        0 <= sextet(bytes, i) < 64,
{
    let k = 3 * (i / 4);
    let group = byte_at(bytes, k) * 65536 + byte_at(bytes, k + 1) * 256 + byte_at(bytes, k + 2);
    assert(0 <= group < 16_777_216);
}

/// Who reads the payment request of an invoice without a fee finds one output:
/// the address, the price, and the memo code.
pub proof fn request_asks_for_the_price(
    address: Seq<char>,
    amount: Seq<char>,
    memo_code: Seq<char>,
    invoice_id: Seq<char>,
)
    requires
        is_plain_part(address),
        address.len() > 0,
        is_plain_part(amount),
    ensures
        ({
            let uri = payment_uri_of(address, amount, memo_code, None, invoice_id);
            let query = query_of(uri);
            &&& "zcash:"@.is_prefix_of(uri)
            &&& recipient_of(uri) == Some(address)
            &&& query_value(query, "amount"@) == Some(amount)
            &&& query_value(query, "memo"@) == Some(base64_text(encode_utf8(memo_code)))
            &&& query_value(query, "address.1"@) is None
            &&& query_value(query, "amount.1"@) is None
            &&& query_value(query, "memo.1"@) is None
        }),
{
    names_of_parts();
    let memo = base64_text(encode_utf8(memo_code));
    base64_is_plain(encode_utf8(memo_code));
    let uri = payment_uri_of(address, amount, memo_code, None, invoice_id);
    let last = "memo"@ + seq!['='] + memo;
    let rest = seq!['&'] + last;
    let query = "amount"@ + seq!['='] + amount + rest;
    let head = "zcash:"@ + address;
    plain_sum("zcash:"@, address);
    assert(uri =~= head + (seq!['?'] + query));
    first_of_after(head, seq!['?'] + query, '?');
    assert(query_of(uri) =~= query);
    assert(uri.subrange("zcash:"@.len() as int, head.len() as int) =~= address);
    assert(rest.skip(1) =~= last + Seq::<char>::empty());
    let wanted = seq!["amount"@, "memo"@, "address.1"@, "amount.1"@, "memo.1"@];
    assert forall|k: int| 0 <= k < 5 implies is_plain_part(#[trigger] wanted[k]) by {}
    assert forall|k: int| 0 <= k < 5 implies query_value(query, #[trigger] wanted[k]) == if k == 0 {
        Some(amount)
    } else if k == 1 {
        Some(memo)
    } else {
        None
    } by {
        reads_part("amount"@, amount, rest, wanted[k]);
        reads_part("memo"@, memo, Seq::empty(), wanted[k]);
    }
    assert(wanted[0] == "amount"@ && wanted[1] == "memo"@ && wanted[2] == "address.1"@);
    assert(wanted[3] == "amount.1"@ && wanted[4] == "memo.1"@);
}

/// Who reads the payment request of an invoice with a fee finds two outputs:
/// the merchant's with the price and the memo code, and the platform's with
/// the fee and the memo that names the invoice.
pub proof fn request_with_fee_asks_for_both(
    address: Seq<char>,
    amount: Seq<char>,
    memo_code: Seq<char>,
    output: FeeOutput,
    invoice_id: Seq<char>,
)
    requires
        is_plain_part(address),
        is_plain_part(amount),
        is_plain_part(output.address@),
        is_plain_part(output.amount@),
    ensures
        ({
            let fee = fee_view(Some(output));
            let uri = payment_uri_of(address, amount, memo_code, fee, invoice_id);
            let query = query_of(uri);
            &&& "zcash:"@.is_prefix_of(uri)
            &&& recipient_of(uri) == Some(address)
            &&& query_value(query, "amount"@) == Some(amount)
            &&& query_value(query, "memo"@) == Some(base64_text(encode_utf8(memo_code)))
            &&& query_value(query, "address.1"@) == Some(output.address@)
            &&& query_value(query, "amount.1"@) == Some(output.amount@)
            &&& query_value(query, "memo.1"@) == Some(
                base64_text(encode_utf8("FEE-"@ + invoice_id)),
            )
        }),
{
    names_of_parts();
    let fee_address = output.address@;
    let fee_amount = output.amount@;
    let memo = base64_text(encode_utf8(memo_code));
    let fee_memo = base64_text(encode_utf8("FEE-"@ + invoice_id));
    base64_is_plain(encode_utf8(memo_code));
    base64_is_plain(encode_utf8("FEE-"@ + invoice_id));
    let uri = payment_uri_of(address, amount, memo_code, Some((fee_address, fee_amount)), invoice_id);
    let names = seq!["address"@, "amount"@, "memo"@, "address.1"@, "amount.1"@, "memo.1"@];
    let values = seq![address, amount, memo, fee_address, fee_amount, fee_memo];
    let query = query_text(names, values);
    request_is_written(address, amount, memo, fee_address, fee_amount, fee_memo);
    assert(uri =~= "zcash:"@ + (seq!['?'] + query));
    first_of_after("zcash:"@, seq!['?'] + query, '?');
    assert(query_of(uri) =~= query);
    assert(uri.subrange(6, 6).len() == 0);
    assert forall|a: int, b: int| 0 <= a < b < 6 implies names[a] != names[b] by {}
    assert forall|k: int| 0 <= k < 6 implies query_value(query, #[trigger] names[k]) == Some(
        values[k],
    ) by {
        reads_query(names, values, k);
    }
    assert(names[0] == "address"@ && names[1] == "amount"@ && names[2] == "memo"@);
    assert(names[3] == "address.1"@ && names[4] == "amount.1"@ && names[5] == "memo.1"@);
}

/// A query that is written part by part.
spec fn query_text(names: Seq<Seq<char>>, values: Seq<Seq<char>>) -> Seq<char>
    decreases names.len(),
{
    if names.len() == 0 {
        Seq::empty()
    } else if names.len() == 1 {
        names[0] + seq!['='] + values[0]
    } else {
        names[0] + seq!['='] + values[0] + (seq!['&'] + query_text(names.skip(1), values.skip(1)))
    }
}

/// What was written as a part of a query is read from it.
proof fn reads_query(names: Seq<Seq<char>>, values: Seq<Seq<char>>, k: int)
    requires
        names.len() == values.len(),
        0 <= k < names.len(),
        forall|a: int| 0 <= a < names.len() ==> is_plain_part(#[trigger] names[a]),
        forall|a: int| 0 <= a < names.len() ==> is_plain_part(#[trigger] values[a]),
        forall|a: int, b: int|
            0 <= a < b < names.len() ==> #[trigger] names[a] != #[trigger] names[b],
    ensures
        query_value(query_text(names, values), names[k]) == Some(values[k]),
    decreases names.len(),
{
    if names.len() == 1 {
        reads_part(names[0], values[0], Seq::empty(), names[k]);
        assert(query_text(names, values) =~= names[0] + seq!['='] + values[0]
            + Seq::<char>::empty());
    } else {
        let rest = seq!['&'] + query_text(names.skip(1), values.skip(1));
        reads_part(names[0], values[0], rest, names[k]);
        if k > 0 {
            assert(rest.skip(1) =~= query_text(names.skip(1), values.skip(1)));
            assert(names.skip(1)[k - 1] == names[k]);
            assert(values.skip(1)[k - 1] == values[k]);
            assert forall|a: int| 0 <= a < names.skip(1).len() implies is_plain_part(
                #[trigger] names.skip(1)[a],
            ) by {
                assert(names.skip(1)[a] == names[a + 1]);
            }
            assert forall|a: int| 0 <= a < names.skip(1).len() implies is_plain_part(
                #[trigger] values.skip(1)[a],
            ) by {
                assert(values.skip(1)[a] == values[a + 1]);
            }
            assert forall|a: int, b: int| 0 <= a < b < names.skip(1).len() implies
                #[trigger] names.skip(1)[a] != #[trigger] names.skip(1)[b] by {
                assert(names.skip(1)[a] == names[a + 1]);
                assert(names.skip(1)[b] == names[b + 1]);
            }
            reads_query(names.skip(1), values.skip(1), k - 1);
        }
    }
}

/// The query of a request with a fee is written part by part.
proof fn request_is_written(
    a: Seq<char>,
    b: Seq<char>,
    c: Seq<char>,
    d: Seq<char>,
    e: Seq<char>,
    f: Seq<char>,
)
    ensures
        ({
            let names = seq!["address"@, "amount"@, "memo"@, "address.1"@, "amount.1"@, "memo.1"@];
            "zcash:?address="@ + a + "&amount="@ + b + "&memo="@ + c + "&address.1="@ + d
                + "&amount.1="@ + e + "&memo.1="@ + f == "zcash:"@ + (seq!['?'] + query_text(
                names,
                seq![a, b, c, d, e, f],
            ))
        }),
{
    names_of_parts();
    let names = seq!["address"@, "amount"@, "memo"@, "address.1"@, "amount.1"@, "memo.1"@];
    let values = seq![a, b, c, d, e, f];
    let n5 = seq!["memo.1"@];
    let n4 = seq!["amount.1"@, "memo.1"@];
    let n3 = seq!["address.1"@, "amount.1"@, "memo.1"@];
    let n2 = seq!["memo"@, "address.1"@, "amount.1"@, "memo.1"@];
    let n1 = seq!["amount"@, "memo"@, "address.1"@, "amount.1"@, "memo.1"@];
    let t5 = query_text(n5, seq![f]);
    let t4 = query_text(n4, seq![e, f]);
    let t3 = query_text(n3, seq![d, e, f]);
    let t2 = query_text(n2, seq![c, d, e, f]);
    let t1 = query_text(n1, seq![b, c, d, e, f]);
    let t0 = query_text(names, values);
    assert(n4.skip(1) =~= n5 && seq![e, f].skip(1) =~= seq![f]);
    assert(n3.skip(1) =~= n4 && seq![d, e, f].skip(1) =~= seq![e, f]);
    assert(n2.skip(1) =~= n3 && seq![c, d, e, f].skip(1) =~= seq![d, e, f]);
    assert(n1.skip(1) =~= n2 && seq![b, c, d, e, f].skip(1) =~= seq![c, d, e, f]);
    assert(names.skip(1) =~= n1 && values.skip(1) =~= seq![b, c, d, e, f]);
    let s5 = "&memo.1="@ + f;
    let s4 = "&amount.1="@ + e + s5;
    let s3 = "&address.1="@ + d + s4;
    let s2 = "&memo="@ + c + s3;
    let s1 = "&amount="@ + b + s2;
    assert(s5 =~= seq!['&'] + t5);
    assert(s4 =~= seq!['&'] + t4);
    assert(s3 =~= seq!['&'] + t3);
    assert(s2 =~= seq!['&'] + t2);
    assert(s1 =~= seq!['&'] + t1);
    assert("zcash:?address="@ + a + s1 =~= "zcash:"@ + (seq!['?'] + t0));
    assert("zcash:?address="@ + a + "&amount="@ + b + "&memo="@ + c + "&address.1="@ + d
        + "&amount.1="@ + e + "&memo.1="@ + f =~= "zcash:?address="@ + a + s1);
}

/// The names of the parameters are plain and differ.
proof fn names_of_parts()
    ensures
        "zcash:"@.len() == 6,
        is_plain_part("zcash:"@),
        is_plain_part("address"@),
        is_plain_part("amount"@),
        is_plain_part("memo"@),
        is_plain_part("address.1"@),
        is_plain_part("amount.1"@),
        is_plain_part("memo.1"@),
        "address"@.len() == 7,
        "amount"@.len() == 6,
        "memo"@.len() == 4,
        "address.1"@.len() == 9,
        "amount.1"@.len() == 8,
        "memo.1"@.len() == 6,
        "amount"@ != "memo.1"@,
        "zcash:?address="@ =~= "zcash:"@ + seq!['?'] + "address"@ + seq!['='],
        "?amount="@ =~= seq!['?'] + "amount"@ + seq!['='],
        "&amount="@ =~= seq!['&'] + "amount"@ + seq!['='],
        "&memo="@ =~= seq!['&'] + "memo"@ + seq!['='],
        "&address.1="@ =~= seq!['&'] + "address.1"@ + seq!['='],
        "&amount.1="@ =~= seq!['&'] + "amount.1"@ + seq!['='],
        "&memo.1="@ =~= seq!['&'] + "memo.1"@ + seq!['='],
{
    reveal_strlit("zcash:");
    reveal_strlit("address");
    reveal_strlit("amount");
    reveal_strlit("memo");
    reveal_strlit("address.1");
    reveal_strlit("amount.1");
    reveal_strlit("memo.1");
    reveal_strlit("zcash:?address=");
    reveal_strlit("?amount=");
    reveal_strlit("&amount=");
    reveal_strlit("&memo=");
    reveal_strlit("&address.1=");
    reveal_strlit("&amount.1=");
    reveal_strlit("&memo.1=");
    assert("amount"@[0] != "memo.1"@[0]);
}

// ---------------------------------------------------------------------------
// Laws on an invoice's life
// ---------------------------------------------------------------------------

/// A payment is too much from 1000 zatoshis above the price on, and never where
/// the price is not known.
pub proof fn small_overpayment_is_let_pass(received: int, price: int)
    ensures
        price > 0 && received - price > 1_000 ==> is_overpaid(received, price),
        received - price <= 1_000 ==> !is_overpaid(received, price),
        price <= 0 ==> !is_overpaid(received, price),
{
}

/// The last place is sold, and no place beyond it: there is room as long as
/// fewer were sold than there are. What has no price needs no room, and a price
/// that is not known has none.
pub proof fn last_place_is_sold(capacity: Capacity, places: i64)
    requires
        capacity.max_quantity == Some(places),
    ensures
        capacity.sold < places ==> has_room(true, Some(capacity)),
        capacity.sold >= places ==> !has_room(true, Some(capacity)),
        !has_room(true, None),
        has_room(false, Some(capacity)),
        has_room(false, None),
{
}

/// An invoice is made exactly where its currency is supported, a rate is at
/// hand, an address can be derived and there is room. The first of these that
/// fails is the error.
pub proof fn invoice_is_made_where_nothing_fails(
    rate: Rate,
    address: Result<(Seq<char>, Seq<char>), KeyError>,
    room: bool,
)
    ensures
        ({
            let e = creation_error(rate, address, room);
            &&& rate is Unsupported <==> e == Some(InvoiceError::UnsupportedCurrency)
            &&& rate is Unavailable <==> e == Some(InvoiceError::NoExchangeRate)
            &&& rate is Quoted && address is Err <==> e is Some && e->0 is Key
            &&& rate is Quoted && address is Err ==> e == Some(
                InvoiceError::Key(address->Err_0),
            )
            &&& rate is Quoted && address is Ok && !room <==> e == Some(InvoiceError::SoldOut)
            &&& rate is Quoted && address is Ok && room <==> e is None
        }),
{
}

/// Only a draft or an expired invoice is finalized, and only one that nothing
/// was paid for. A renewal needs its period to last. Then it needs a rate.
pub proof fn only_unpaid_is_finalized(
    inv: Invoice,
    period_end: Option<Seq<char>>,
    rate: Rate,
    now: Seq<char>,
)
    ensures
        ({
            let e = inv.finalize_error(period_end, rate, now);
            let idle = inv.status@ == "draft"@ || inv.status@ == "expired"@;
            let unpaid = inv.received_zatoshis <= 0 && inv.detected_txid is None;
            let ended = inv.subscription_id is Some && period_end is Some && lex_less(
                period_end->0,
                now,
            );
            &&& !idle <==> e == Some(InvoiceError::NotFinalizable)
            &&& idle && !unpaid <==> e == Some(InvoiceError::PaymentDetected)
            &&& idle && unpaid && ended <==> e == Some(InvoiceError::PeriodEnded)
            &&& idle && unpaid && !ended && rate is Unsupported <==> e == Some(
                InvoiceError::UnsupportedCurrency,
            )
            &&& idle && unpaid && !ended && rate is Unavailable <==> e == Some(
                InvoiceError::NoExchangeRate,
            )
            &&& idle && unpaid && !ended && rate is Quoted <==> e is None
        }),
{
}

/// An invoice is watched while it waits for a payment or a confirmation and has
/// time left. It is over once its time is up and no payment was detected. It is
/// never both, and one that was detected is never over.
pub proof fn watched_until_its_time_is_up(inv: Invoice, now: Seq<char>)
    ensures
        ({
            let waits = inv.status@ == "pending"@ || inv.status@ == "underpaid"@;
            &&& (waits || inv.status@ == "detected"@) && lex_less(now, inv.expires_at@)
                <==> inv.is_watched(now)
            &&& waits && lex_less(inv.expires_at@, now) <==> inv.is_over(now)
            &&& !(inv.is_watched(now) && inv.is_over(now))
            &&& inv.status@ == "detected"@ ==> !inv.is_over(now)
            &&& waits && inv.expires_at@ != now ==> inv.is_watched(now) || inv.is_over(now)
        }),
{
    invoice_statuses_differ();
    if lex_less(now, inv.expires_at@) && lex_less(inv.expires_at@, now) {
        crate::text::lex_less_transitive(now, inv.expires_at@, now);
        crate::text::lex_less_irreflexive(now);
    }
    crate::text::lex_less_total(now, inv.expires_at@);
}

/// A refund address is taken once, from an invoice that is not paid yet or has
/// expired.
pub proof fn refund_address_is_taken_once(inv: Invoice)
    ensures
        inv.takes_refund_address() <==> (inv.status@ == "pending"@ || inv.status@ == "underpaid"@
            || inv.status@ == "expired"@) && (inv.refund_address is None
            || inv.refund_address->0@.len() == 0),
        inv.status@ == "confirmed"@ || inv.status@ == "detected"@ ==> !inv.takes_refund_address(),
{
    invoice_statuses_differ();
}

/// Prices are in euro where no currency is named.
pub proof fn euro_is_the_default(currency: Option<String>)
    ensures
        currency is None ==> currency_of(currency) == "EUR"@,
        currency matches Some(c) ==> currency_of(currency) == c@,
{
}

/// A detected payment has half an hour to be confirmed, and an underpaid one ten
/// minutes to be completed. Either way the transaction, the moment and the
/// amount are on record, and what was ordered stays. A confirmation keeps all of
/// that.
pub proof fn payment_is_put_on_record(
    before: Invoice,
    detected: Invoice,
    underpaid: Invoice,
    confirmed: Invoice,
    txid: Seq<char>,
    received: i64,
    now: i64,
)
    requires
        before.detected_as(&detected, txid, received, now),
        before.underpaid_as(&underpaid, txid, received, now),
        detected.confirmed_as(&confirmed, now),
    ensures
        detected.status@ == "detected"@,
        underpaid.status@ == "underpaid"@,
        confirmed.status@ == "confirmed"@,
        detected.expires_at@ == timestamp_text(now + 30 * 60),
        underpaid.expires_at@ == timestamp_text(now + 10 * 60),
        detected.received_zatoshis == received && underpaid.received_zatoshis == received,
        opt_text(detected.detected_txid) == Some(txid) && opt_text(underpaid.detected_txid) == Some(
            txid,
        ),
        opt_text(confirmed.confirmed_at) == Some(timestamp_text(now as int)),
        confirmed.received_zatoshis == received,
        confirmed.detected_txid == detected.detected_txid,
        confirmed.price_zatoshis == before.price_zatoshis,
        underpaid.price_zatoshis == before.price_zatoshis,
        confirmed.id == before.id && underpaid.id == before.id,
        confirmed.memo_code == before.memo_code && confirmed.payment_address
            == before.payment_address,
{
}

/// A new invoice knows of no payment, refund or campaign.
pub proof fn new_invoice_is_blank(inv: Invoice)
    requires
        is_fresh(&inv),
    ensures
        inv.received_zatoshis == 0,
        inv.detected_txid is None && inv.detected_at is None && inv.confirmed_at is None,
        inv.refunded_at is None && inv.refund_txid is None,
        inv.is_donation == 0 && inv.campaign_counted == 0 && inv.payment_link_id is None,
        inv.merchant_name is None && inv.purge_after is None,
{
}

/// A memo code is its prefix and as many upper-case hexadecimal digits as were
/// asked for.
pub proof fn code_is_prefix_and_digits(s: Seq<char>, prefix: Seq<char>, digits: nat)
    requires
        is_code(s, prefix, digits),
    ensures
        s.len() == prefix.len() + digits,
        s.take(prefix.len() as int) =~= prefix,
        forall|i: int|
            prefix.len() <= i < s.len() ==> ('0' <= #[trigger] s[i] <= '9' || 'A' <= s[i] <= 'F'),
{
}

/// An invoice moves on and not back: from a draft or an expired one to pending,
/// through underpaid and detected to confirmed, and from there only to refunded.
pub proof fn invoice_moves_on(before: Seq<char>, after: Seq<char>)
    requires
        may_follow(before, after),
        before != after,
    ensures
        after == "confirmed"@ ==> before == "detected"@,
        after == "refunded"@ ==> before == "confirmed"@,
        after == "detected"@ ==> before == "pending"@ || before == "underpaid"@,
        after == "underpaid"@ ==> before == "pending"@,
        after == "expired"@ ==> before == "pending"@ || before == "underpaid"@,
        after == "pending"@ ==> before == "draft"@ || before == "expired"@,
        after != "draft"@,
        before != "refunded"@,
{
    invoice_statuses_differ();
}

proof fn invoice_statuses_differ()
    ensures
        "draft"@ != "pending"@,
        "draft"@ != "expired"@,
        "draft"@ != "underpaid"@,
        "draft"@ != "detected"@,
        "draft"@ != "confirmed"@,
        "draft"@ != "refunded"@,
        "pending"@ != "expired"@,
        "pending"@ != "underpaid"@,
        "pending"@ != "detected"@,
        "pending"@ != "confirmed"@,
        "pending"@ != "refunded"@,
        "expired"@ != "underpaid"@,
        "expired"@ != "detected"@,
        "expired"@ != "confirmed"@,
        "expired"@ != "refunded"@,
        "underpaid"@ != "detected"@,
        "underpaid"@ != "confirmed"@,
        "underpaid"@ != "refunded"@,
        "detected"@ != "confirmed"@,
        "detected"@ != "refunded"@,
        "confirmed"@ != "refunded"@,
{
    reveal_strlit("draft");
    reveal_strlit("pending");
    reveal_strlit("expired");
    reveal_strlit("underpaid");
    reveal_strlit("detected");
    reveal_strlit("confirmed");
    reveal_strlit("refunded");
    assert("draft"@[1] == 'r' && "pending"@[0] == 'p' && "expired"@[0] == 'e');
    assert("underpaid"@[0] == 'u' && "detected"@[0] == 'd' && "detected"@[1] == 'e');
    assert("confirmed"@[0] == 'c' && "refunded"@[0] == 'r' && "draft"@[0] == 'd');
}

} // verus!
