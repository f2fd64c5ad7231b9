//! Proof of payment over HTTP: whether a transaction pays for a resource, and
//! how a payment is settled exactly once.

use vstd::prelude::*;

use crate::addresses::{orchard_receiver, receiver_of};
use crate::api::deposits::{is_txid, received, receiver_total, valid_txid};
use crate::api::Lookup;
use crate::billing::{block_of, stored_block, Block};
use crate::hexadecimal::{hex_bytes, is_hex_text};
use crate::scanner::decrypt::{incoming_outputs, try_decrypt_all_outputs_ivk};
use crate::session_ledger::SessionLedger;
use crate::text::{ascii_lowercased, opt_str, opt_text, text_eq};

verus! {

/// Zatoshis that can ever exist.
pub const MAX_ZATOSHIS: u64 = 2_100_000_000_000_000;

/// The price of a request in a session that a settlement opens, where none is
/// given.
pub const DEFAULT_SESSION_COST: i64 = 1000;

// ---------------------------------------------------------------------------
// Plain verification
// ---------------------------------------------------------------------------

/// A request for verification. `expected_zatoshis` is the expected amount
/// where it can be represented, and `amount_is_positive` says whether it is a
/// finite number above zero.
pub struct VerifyRequest {
    pub txid: String,
    pub amount_is_positive: bool,
    pub expected_zatoshis: Option<u64>,
    pub protocol: String,
}

/// The protocol where a request names none.
pub fn default_protocol() -> (r: String)
    ensures
        r@ == "x402"@,
{
    "x402".to_string()
}

/// The protocol under which a verification is recorded.
pub open spec fn recorded_protocol(protocol: Seq<char>) -> Seq<char> {
    if protocol == "mpp"@ {
        "mpp"@
    } else {
        "x402"@
    }
}

/// The protocol under which a verification is recorded.
pub fn protocol_of(protocol: &str) -> (r: &'static str)
    ensures
        r@ == recorded_protocol(protocol@),
{
    if text_eq(protocol, "mpp") {
        "mpp"
    } else {
        "x402"
    }
}

/// The merchant to whom a payment has to go.
pub struct Payee {
    pub ufvk: String,
    pub payment_address: String,
}

/// What was found out about a request before the payment itself is examined.
/// The billing status is given where fees are charged and it could be read;
/// `verified` is the amount of an earlier verification of the same payment.
pub struct VerifyFacts {
    pub has_key: bool,
    pub merchant: Lookup<Payee>,
    pub billing_status: Option<String>,
    pub verified: Option<i64>,
    pub confirmed: bool,
    pub raw_hex: Option<String>,
}

/// Why a request for verification is not looked into.
#[derive(Debug, Clone, Copy, PartialEq, Eq, Structural)]
pub enum VerifyRefusal {
    MissingKey,
    InvalidKey,
    AuthFailed,
    BillingBlocked(Block),
    InvalidTxid,
    AmountNotPositive,
    AmountNotRepresentable,
    NoReceiver,
    Replayed,
    StoreFailed,
}

impl VerifyRefusal {
    pub open spec fn spec_reply(self) -> (u16, Seq<char>) {
        match self {
            VerifyRefusal::MissingKey => (401, "Missing or invalid Authorization header"@),
            VerifyRefusal::InvalidKey => (401, "Invalid API key"@),
            VerifyRefusal::AuthFailed => (500, "Internal error"@),
            VerifyRefusal::BillingBlocked(_) => (402, "Merchant account has outstanding fees"@),
            VerifyRefusal::InvalidTxid => (
                400,
                "Invalid txid format \u{2014} expected 64 hex characters"@,
            ),
            VerifyRefusal::AmountNotPositive => (400, "expected_amount_zec must be positive"@),
            VerifyRefusal::AmountNotRepresentable => (
                400,
                "expected_amount_zec must be representable in zatoshis"@,
            ),
            VerifyRefusal::NoReceiver => (400, ""@),
            VerifyRefusal::Replayed => (409, "Transaction already consumed"@),
            VerifyRefusal::StoreFailed => (500, ""@),
        }
    }

    /// The HTTP status and the message; no message where the answer is empty.
    pub fn reply(&self) -> (r: (u16, &'static str))
        ensures
            (r.0, r.1@) == self.spec_reply(),
    {
        match self {
            VerifyRefusal::MissingKey => (401, "Missing or invalid Authorization header"),
            VerifyRefusal::InvalidKey => (401, "Invalid API key"),
            VerifyRefusal::AuthFailed => (500, "Internal error"),
            VerifyRefusal::BillingBlocked(_) => (402, "Merchant account has outstanding fees"),
            VerifyRefusal::InvalidTxid => (
                400,
                "Invalid txid format \u{2014} expected 64 hex characters",
            ),
            VerifyRefusal::AmountNotPositive => (400, "expected_amount_zec must be positive"),
            VerifyRefusal::AmountNotRepresentable => (
                400,
                "expected_amount_zec must be representable in zatoshis",
            ),
            VerifyRefusal::NoReceiver => (400, ""),
            VerifyRefusal::Replayed => (409, "Transaction already consumed"),
            VerifyRefusal::StoreFailed => (500, ""),
        }
    }

    /// The billing status that is answered along with the refusal, if one is.
    pub fn billing_status(&self) -> (r: Option<&'static str>)
        ensures
            match (*self, r) {
                (VerifyRefusal::BillingBlocked(b), Some(s)) => s@ == b.spec_status(),
                (VerifyRefusal::BillingBlocked(_), None) => false,
                (_, x) => x is None,
            },
    {
        match self {
            VerifyRefusal::BillingBlocked(b) => Some(b.status()),
            _ => None,
        }
    }
}

/// Why a payment is not accepted.
#[derive(Debug, Clone, Copy, PartialEq, Eq, Structural)]
pub enum Shortfall {
    AlreadyVerified,
    PreviouslyInsufficient,
    NotConfirmed,
    NotFound,
    DecryptionFailed,
    NoOutputs,
    Insufficient,
}

impl Shortfall {
    pub open spec fn spec_text(self) -> Seq<char> {
        match self {
            Shortfall::AlreadyVerified => "Payment already verified; use a new payment"@,
            Shortfall::PreviouslyInsufficient => "Previously verified amount insufficient"@,
            Shortfall::NotConfirmed => "Payment is not confirmed"@,
            Shortfall::NotFound => "Transaction not found"@,
            Shortfall::DecryptionFailed => "Decryption failed"@,
            Shortfall::NoOutputs => "No outputs addressed to this merchant"@,
            Shortfall::Insufficient => "Insufficient amount"@,
        }
    }

    /// The reason in words; where an amount is insufficient, the two amounts
    /// follow it.
    pub fn text(&self) -> (r: &'static str)
        ensures
            r@ == self.spec_text(),
    {
        match self {
            Shortfall::AlreadyVerified => "Payment already verified; use a new payment",
            Shortfall::PreviouslyInsufficient => "Previously verified amount insufficient",
            Shortfall::NotConfirmed => "Payment is not confirmed",
            Shortfall::NotFound => "Transaction not found",
            Shortfall::DecryptionFailed => "Decryption failed",
            Shortfall::NoOutputs => "No outputs addressed to this merchant",
            Shortfall::Insufficient => "Insufficient amount",
        }
    }

    /// Whether the rejection is recorded: only one that rests on a look at the
    /// transaction is.
    pub open spec fn spec_is_recorded(self) -> bool {
        match self {
            Shortfall::NotFound | Shortfall::DecryptionFailed | Shortfall::NoOutputs
            | Shortfall::Insufficient => true,
            _ => false,
        }
    }

    /// Whether the rejection is recorded.
    pub fn is_recorded(&self) -> (r: bool)
        ensures
            r == self.spec_is_recorded(),
    {
        match self {
            Shortfall::NotFound | Shortfall::DecryptionFailed | Shortfall::NoOutputs
            | Shortfall::Insufficient => true,
            _ => false,
        }
    }
}

/// What came of a verification.
#[derive(Debug, Clone, Copy, PartialEq, Eq, Structural)]
pub enum Verdict {
    Refused(VerifyRefusal),
    /// The payment is not accepted, with the zatoshis that were received.
    Rejected(Shortfall, u64),
    /// The payment is enough, with the zatoshis that were received.
    Accepted(u64),
}

impl Verdict {
    /// Whether the answer says that the payment was verified before.
    pub fn previously_verified(&self) -> (r: bool)
        ensures
            r == match *self {
                Verdict::Rejected(s, _) => s == Shortfall::AlreadyVerified || s
                    == Shortfall::PreviouslyInsufficient,
                _ => false,
            },
    {
        match self {
            Verdict::Rejected(Shortfall::AlreadyVerified, _) => true,
            Verdict::Rejected(Shortfall::PreviouslyInsufficient, _) => true,
            _ => false,
        }
    }
}

/// The error that a request meets before any payment is looked at, if any.
pub open spec fn screening(req: &VerifyRequest, facts: &VerifyFacts) -> Option<VerifyRefusal> {
    if !facts.has_key {
        Some(VerifyRefusal::MissingKey)
    } else if facts.merchant is Missing {
        Some(VerifyRefusal::InvalidKey)
    } else if facts.merchant is Failed {
        Some(VerifyRefusal::AuthFailed)
    } else if block_of(opt_text(facts.billing_status)) is Some {
        Some(VerifyRefusal::BillingBlocked(block_of(opt_text(facts.billing_status))->0))
    } else if !is_txid(req.txid@) {
        Some(VerifyRefusal::InvalidTxid)
    } else if !req.amount_is_positive {
        Some(VerifyRefusal::AmountNotPositive)
    } else {
        None
    }
}

/// What a look at the transaction itself gives, for a merchant with this key
/// and this address.
pub open spec fn appraisal(
    raw_hex: Option<Seq<char>>,
    ufvk: Seq<char>,
    payment_address: Seq<char>,
    expected: Option<u64>,
) -> Verdict {
    match raw_hex {
        None => Verdict::Rejected(Shortfall::NotFound, 0),
        Some(raw) => if !is_hex_text(raw) {
            Verdict::Rejected(Shortfall::DecryptionFailed, 0)
        } else if incoming_outputs(hex_bytes(raw), ufvk).len() == 0 {
            Verdict::Rejected(Shortfall::NoOutputs, 0)
        } else {
            match (receiver_of(payment_address), expected) {
                (None, _) => Verdict::Refused(VerifyRefusal::NoReceiver),
                (Some(_), None) => Verdict::Refused(VerifyRefusal::AmountNotRepresentable),
                (Some(receiver), Some(e)) => {
                    let total = received(incoming_outputs(hex_bytes(raw), ufvk), receiver);
                    if total >= e {
                        Verdict::Accepted(total as u64)
                    } else {
                        Verdict::Rejected(Shortfall::Insufficient, total as u64)
                    }
                },
            }
        },
    }
}

/// Whether the zatoshis that a transaction pays to an address can be counted
/// in 64 bits. Those of every transaction that the network accepts can.
pub open spec fn is_countable(
    raw_hex: Option<Seq<char>>,
    ufvk: Seq<char>,
    payment_address: Seq<char>,
) -> bool {
    match (raw_hex, receiver_of(payment_address)) {
        (Some(raw), Some(receiver)) => is_hex_text(raw) ==> received(
            incoming_outputs(hex_bytes(raw), ufvk),
            receiver,
        ) <= u64::MAX,
        _ => true,
    }
}

/// Whether a verdict rests on the zatoshis that a transaction pays.
pub open spec fn rests_on_amounts(v: Verdict) -> bool {
    match v {
        Verdict::Accepted(_) => true,
        Verdict::Rejected(s, _) => s == Shortfall::Insufficient,
        Verdict::Refused(_) => false,
    }
}

/// Looks at the transaction itself. Nothing comes back where the verdict rests
/// on amounts that cannot be counted.
pub fn appraise(
    raw_hex: Option<&str>,
    ufvk: &str,
    payment_address: &str,
    expected: Option<u64>,
) -> (r: Option<Verdict>)
    ensures
        r matches Some(v) ==> v == appraisal(opt_str(raw_hex), ufvk@, payment_address@, expected),
        r is None <==> rests_on_amounts(
            appraisal(opt_str(raw_hex), ufvk@, payment_address@, expected),
        ) && !is_countable(opt_str(raw_hex), ufvk@, payment_address@),
{
    let raw: &str = match raw_hex {
        Some(s) => s,
        None => {
            return Some(Verdict::Rejected(Shortfall::NotFound, 0));
        },
    };
    match try_decrypt_all_outputs_ivk(raw, ufvk) {
        Err(_) => Some(Verdict::Rejected(Shortfall::DecryptionFailed, 0)),
        Ok(outputs) => {
            if outputs.len() == 0 {
                return Some(Verdict::Rejected(Shortfall::NoOutputs, 0));
            }
            let receiver: String = match orchard_receiver(payment_address) {
                Some(s) => s,
                None => {
                    return Some(Verdict::Refused(VerifyRefusal::NoReceiver));
                },
            };
            let e: u64 = match expected {
                Some(e) => e,
                None => {
                    return Some(Verdict::Refused(VerifyRefusal::AmountNotRepresentable));
                },
            };
            let total: u128 = receiver_total(&outputs, receiver.as_str());
            if total > u64::MAX as u128 {
                return None;
            }
            if total >= e as u128 {
                Some(Verdict::Accepted(total as u64))
            } else {
                Some(Verdict::Rejected(Shortfall::Insufficient, total as u64))
            }
        },
    }
}

/// What is answered to a request, up to the point where an accepted payment is
/// consumed. A payment that was verified before is never accepted again.
pub open spec fn verdict_of(req: &VerifyRequest, facts: &VerifyFacts) -> Verdict {
    match screening(req, facts) {
        Some(e) => Verdict::Refused(e),
        None => match facts.verified {
            Some(amount) => {
                let received = if amount > 0 {
                    amount as u64
                } else {
                    0
                };
                match req.expected_zatoshis {
                    None => Verdict::Refused(VerifyRefusal::AmountNotRepresentable),
                    Some(e) => if received >= e {
                        Verdict::Rejected(Shortfall::AlreadyVerified, received)
                    } else {
                        Verdict::Rejected(Shortfall::PreviouslyInsufficient, received)
                    },
                }
            },
            None => if !facts.confirmed {
                Verdict::Rejected(Shortfall::NotConfirmed, 0)
            } else {
                appraisal(
                    opt_text(facts.raw_hex),
                    facts.merchant->Found_0.ufvk@,
                    facts.merchant->Found_0.payment_address@,
                    req.expected_zatoshis,
                )
            },
        },
    }
}

/// Whether the amounts can be counted that a request makes us count.
pub open spec fn facts_countable(facts: &VerifyFacts) -> bool {
    facts.merchant matches Lookup::Found(m) ==> is_countable(
        opt_text(facts.raw_hex),
        m.ufvk@,
        m.payment_address@,
    )
}

fn screen(req: &VerifyRequest, facts: &VerifyFacts) -> (r: Option<VerifyRefusal>)
    ensures
        r == screening(req, facts),
{
    if !facts.has_key {
        return Some(VerifyRefusal::MissingKey);
    }
    match &facts.merchant {
        Lookup::Missing => {
            return Some(VerifyRefusal::InvalidKey);
        },
        Lookup::Failed => {
            return Some(VerifyRefusal::AuthFailed);
        },
        Lookup::Found(_) => {},
    }
    match stored_block(&facts.billing_status) {
        Some(b) => {
            return Some(VerifyRefusal::BillingBlocked(b));
        },
        None => {},
    }
    if !valid_txid(req.txid.as_str()) {
        Some(VerifyRefusal::InvalidTxid)
    } else if !req.amount_is_positive {
        Some(VerifyRefusal::AmountNotPositive)
    } else {
        None
    }
}

/// Judges a request. Nothing comes back where the verdict rests on amounts that
/// cannot be counted.
pub fn judge(req: &VerifyRequest, facts: &VerifyFacts) -> (r: Option<Verdict>)
    ensures
        r matches Some(v) ==> v == verdict_of(req, facts),
        r is None <==> rests_on_amounts(verdict_of(req, facts)) && !facts_countable(facts),
{
    match screen(req, facts) {
        Some(e) => {
            return Some(Verdict::Refused(e));
        },
        None => {},
    }
    match facts.verified {
        Some(amount) => {
            let received: u64 = if amount > 0 {
                amount as u64
            } else {
                0
            };
            return Some(
                match req.expected_zatoshis {
                    None => Verdict::Refused(VerifyRefusal::AmountNotRepresentable),
                    Some(e) => if received >= e {
                        Verdict::Rejected(Shortfall::AlreadyVerified, received)
                    } else {
                        Verdict::Rejected(Shortfall::PreviouslyInsufficient, received)
                    },
                },
            );
        },
        None => {},
    }
    if !facts.confirmed {
        return Some(Verdict::Rejected(Shortfall::NotConfirmed, 0));
    }
    match &facts.merchant {
        Lookup::Found(m) => {
            let raw: Option<&str> = match &facts.raw_hex {
                Some(s) => Some(s.as_str()),
                None => None,
            };
            appraise(raw, m.ufvk.as_str(), m.payment_address.as_str(), req.expected_zatoshis)
        },
        _ => None,
    }
}

/// What is answered once the store was asked to consume an accepted payment:
/// `Found(true)` where it did, `Found(false)` where the payment was consumed
/// before.
pub fn conclude(verdict: Verdict, consumed: Lookup<bool>) -> (r: Verdict)
    ensures
        r == match (verdict, consumed) {
            (Verdict::Accepted(t), Lookup::Found(true)) => Verdict::Accepted(t),
            (Verdict::Accepted(_), Lookup::Found(false)) => Verdict::Refused(
                VerifyRefusal::Replayed,
            ),
            (Verdict::Accepted(_), _) => Verdict::Refused(VerifyRefusal::StoreFailed),
            (v, _) => v,
        },
{
    match verdict {
        Verdict::Accepted(t) => match consumed {
            Lookup::Found(true) => Verdict::Accepted(t),
            Lookup::Found(false) => Verdict::Refused(VerifyRefusal::Replayed),
            _ => Verdict::Refused(VerifyRefusal::StoreFailed),
        },
        v => v,
    }
}

/// Verifies a payment against a ledger, and consumes it where it is accepted.
pub fn verify(ledger: &mut SessionLedger, req: &VerifyRequest, facts: &VerifyFacts) -> (r: Option<
    Verdict,
>)
    ensures
        r is None <==> rests_on_amounts(verdict_of(req, facts)) && !facts_countable(facts),
        old(ledger).wf() ==> final(ledger).wf(),
        final(ledger).remembers(old(ledger)),
        match r {
            None => *final(ledger) == *old(ledger),
            Some(v) => match verdict_of(req, facts) {
                Verdict::Accepted(t) => if old(ledger).is_consumed(req.txid@) {
                    v == Verdict::Refused(VerifyRefusal::Replayed) && *final(ledger) == *old(ledger)
                } else {
                    &&& v == Verdict::Accepted(t)
                    &&& old(ledger).consumed_into(final(ledger), req.txid@, "legacy-x402"@)
                    &&& final(ledger).is_consumed(req.txid@)
                    &&& final(ledger).sessions == old(ledger).sessions
                    &&& final(ledger).charges == old(ledger).charges
                    &&& final(ledger).requests == old(ledger).requests
                },
                other => v == other && *final(ledger) == *old(ledger),
            },
        },
{
    match judge(req, facts) {
        None => None,
        Some(Verdict::Accepted(t)) => {
            let fresh: bool = ledger.consume_payment(req.txid.as_str(), "legacy-x402");
            Some(conclude(Verdict::Accepted(t), Lookup::Found(fresh)))
        },
        Some(v) => Some(v),
    }
}

/// Which verifications are listed.
#[derive(Debug)]
pub struct HistoryQuery {
    pub limit: Option<i64>,
    pub offset: Option<i64>,
}

impl HistoryQuery {
    /// The number of entries and how many to leave out before them.
    pub fn page(&self) -> (r: (i64, i64))
        ensures
            r.0 == match self.limit {
                Some(l) => if l < 200 {
                    l as int
                } else {
                    200
                },
                None => 50,
            },
            r.1 == match self.offset {
                Some(o) => if o > 0 {
                    o as int
                } else {
                    0
                },
                None => 0,
            },
    {
        let limit: i64 = match self.limit {
            Some(l) => if l < 200 {
                l
            } else {
                200
            },
            None => 50,
        };
        let offset: i64 = match self.offset {
            Some(o) => if o > 0 {
                o
            } else {
                0
            },
            None => 0,
        };
        (limit, offset)
    }
}

/// A payment that was accepted once is refused from then on, whoever asks and
/// for whatever amount.
pub proof fn accepted_once(
    before: SessionLedger,
    after: SessionLedger,
    first: VerifyRequest,
    second: VerifyRequest,
)
    requires
        before.consumed_into(&after, first.txid@, "legacy-x402"@),
        ascii_lowercased(second.txid@) == ascii_lowercased(first.txid@),
    ensures
        after.is_consumed(second.txid@),
{
    let n = after.consumptions@.len() - 1;
    assert(after.consumptions@[n].txid@ == ascii_lowercased(second.txid@));
}

// ---------------------------------------------------------------------------
// Laws on the verdict
// ---------------------------------------------------------------------------

/// Whatever reaches the merchant's receiver in a confirmed transaction that was
/// not verified before is weighed: as much as was expected, or more, is
/// accepted, and less is not. Either way the answer says how much it was.
pub proof fn enough_is_accepted(
    req: &VerifyRequest,
    facts: &VerifyFacts,
    payee: Payee,
    expected: u64,
    total: u64,
)
    requires
        facts.has_key,
        facts.merchant == Lookup::Found(payee),
        facts.billing_status matches Some(s) ==> s@ != "past_due"@ && s@ != "suspended"@,
        req.txid@.len() == 64,
        forall|i: int|
            0 <= i < 64 ==> ('0' <= #[trigger] req.txid@[i] <= '9' || 'a' <= req.txid@[i] <= 'f'
                || 'A' <= req.txid@[i] <= 'F'),
        req.amount_is_positive,
        req.expected_zatoshis == Some(expected),
        facts.verified is None,
        facts.confirmed,
        facts.raw_hex is Some,
        is_hex_text(facts.raw_hex->0@),
        incoming_outputs(hex_bytes(facts.raw_hex->0@), payee.ufvk@).len() > 0,
        receiver_of(payee.payment_address@) is Some,
        received(
            incoming_outputs(hex_bytes(facts.raw_hex->0@), payee.ufvk@),
            receiver_of(payee.payment_address@)->0,
        ) == total,
    ensures
        total >= expected ==> verdict_of(req, facts) == Verdict::Accepted(total),
        total < expected ==> verdict_of(req, facts) == Verdict::Rejected(
            Shortfall::Insufficient,
            total,
        ),
{
    crate::api::deposits::txid_is_64_hex_digits(req.txid@);
}

/// Nothing is accepted without a key of a merchant in good standing, an amount
/// that was asked for, a confirmed transaction that was not verified before, and
/// at least that amount at the merchant's own receiver.
pub proof fn accepted_was_paid(req: &VerifyRequest, facts: &VerifyFacts, amount: u64)
    requires
        verdict_of(req, facts) == Verdict::Accepted(amount),
        facts_countable(facts),
    ensures
        facts.has_key,
        facts.merchant is Found,
        facts.billing_status matches Some(s) ==> s@ != "past_due"@ && s@ != "suspended"@,
        req.txid@.len() == 64,
        req.amount_is_positive,
        req.expected_zatoshis matches Some(e) && amount >= e,
        facts.verified is None,
        facts.confirmed,
        facts.raw_hex is Some,
        ({
            let payee = facts.merchant->Found_0;
            &&& receiver_of(payee.payment_address@) is Some
            &&& amount == received(
                incoming_outputs(hex_bytes(facts.raw_hex->0@), payee.ufvk@),
                receiver_of(payee.payment_address@)->0,
            )
        }),
{
}

/// A request is refused for the first of these that it lacks: a key, the
/// merchant that the key belongs to, a merchant in good standing, a transaction
/// id, and an amount above zero. One that lacks none is not refused by any.
pub proof fn request_is_screened_in_order(req: &VerifyRequest, facts: &VerifyFacts)
    ensures
        ({
            let v = verdict_of(req, facts);
            let past_due = facts.billing_status matches Some(s) && s@ == "past_due"@;
            let suspended = facts.billing_status matches Some(s) && s@ == "suspended"@;
            let known = facts.has_key && facts.merchant is Found;
            let good = known && !past_due && !suspended;
            let named = good && is_txid(req.txid@);
            &&& !facts.has_key <==> v == Verdict::Refused(VerifyRefusal::MissingKey)
            &&& facts.has_key && facts.merchant is Missing <==> v == Verdict::Refused(
                VerifyRefusal::InvalidKey,
            )
            &&& facts.has_key && facts.merchant is Failed <==> v == Verdict::Refused(
                VerifyRefusal::AuthFailed,
            )
            &&& known && past_due <==> v == Verdict::Refused(
                VerifyRefusal::BillingBlocked(Block::PastDue),
            )
            &&& known && suspended <==> v == Verdict::Refused(
                VerifyRefusal::BillingBlocked(Block::Suspended),
            )
            &&& good && !is_txid(req.txid@) <==> v == Verdict::Refused(VerifyRefusal::InvalidTxid)
            &&& named && !req.amount_is_positive <==> v == Verdict::Refused(
                VerifyRefusal::AmountNotPositive,
            )
        }),
{
    reveal_strlit("past_due");
    reveal_strlit("suspended");
    assert("past_due"@.len() != "suspended"@.len());
}

/// A transaction that was verified before is never accepted again: the answer
/// says whether it was enough. One that is not confirmed has to wait.
pub proof fn verified_once_is_not_accepted_again(
    req: &VerifyRequest,
    facts: &VerifyFacts,
    expected: u64,
)
    requires
        !(verdict_of(req, facts) is Refused),
        req.expected_zatoshis == Some(expected),
    ensures
        match facts.verified {
            Some(a) => {
                let known = if a > 0 {
                    a as u64
                } else {
                    0
                };
                &&& known >= expected ==> verdict_of(req, facts) == Verdict::Rejected(
                    Shortfall::AlreadyVerified,
                    known,
                )
                &&& known < expected ==> verdict_of(req, facts) == Verdict::Rejected(
                    Shortfall::PreviouslyInsufficient,
                    known,
                )
            },
            None => !facts.confirmed <==> verdict_of(req, facts) == Verdict::Rejected(
                Shortfall::NotConfirmed,
                0,
            ),
        },
{
}

/// What cannot be weighed is rejected, and the answer says why: a transaction
/// that is not there, one that is not hexadecimal, one with no output for this
/// merchant.
pub proof fn unreadable_payment_is_rejected(
    req: &VerifyRequest,
    facts: &VerifyFacts,
    payee: Payee,
)
    requires
        screening(req, facts) is None,
        facts.merchant == Lookup::Found(payee),
        facts.verified is None,
        facts.confirmed,
    ensures
        facts.raw_hex is None <==> verdict_of(req, facts) == Verdict::Rejected(
            Shortfall::NotFound,
            0,
        ),
        facts.raw_hex matches Some(raw) && !is_hex_text(raw@) <==> verdict_of(req, facts)
            == Verdict::Rejected(Shortfall::DecryptionFailed, 0),
        facts.raw_hex matches Some(raw) && is_hex_text(raw@) && incoming_outputs(
            hex_bytes(raw@),
            payee.ufvk@,
        ).len() == 0 <==> verdict_of(req, facts) == Verdict::Rejected(Shortfall::NoOutputs, 0),
{
}

/// Only what was looked at on the chain and found wanting is put on record.
pub proof fn looked_up_payments_are_recorded(s: Shortfall)
    ensures
        s.spec_is_recorded() <==> s == Shortfall::NotFound || s == Shortfall::DecryptionFailed
            || s == Shortfall::NoOutputs || s == Shortfall::Insufficient,
        !Shortfall::AlreadyVerified.spec_is_recorded(),
        !Shortfall::PreviouslyInsufficient.spec_is_recorded(),
        !Shortfall::NotConfirmed.spec_is_recorded(),
{
}

/// Of the two protocols the one that was named is recorded, and anything else
/// counts as x402.
pub proof fn protocol_is_one_of_two(protocol: Seq<char>)
    ensures
        recorded_protocol(protocol) == "mpp"@ <==> protocol == "mpp"@,
        recorded_protocol(protocol) == "x402"@ <==> protocol != "mpp"@,
{
    reveal_strlit("mpp");
    reveal_strlit("x402");
    assert("mpp"@.len() != "x402"@.len());
}

/// A request is refused with 400 where the request is at fault, with 401 where
/// the caller is not known, with 402 where the merchant owes fees, with 409
/// where it conflicts with what was done before, with 500 where the service is
/// at fault.
pub proof fn verify_refusals_have_their_status(e: VerifyRefusal)
    ensures
        e.spec_reply().0 == 400 <==> e is InvalidTxid || e is AmountNotPositive || e is AmountNotRepresentable || e is NoReceiver,
        e.spec_reply().0 == 401 <==> e is MissingKey || e is InvalidKey,
        e.spec_reply().0 == 402 <==> e is BillingBlocked,
        e.spec_reply().0 == 409 <==> e is Replayed,
        e.spec_reply().0 == 500 <==> e is AuthFailed || e is StoreFailed,
{
}

/// A verdict rests on the amounts where the payment is accepted, or rejected for
/// too little.
pub proof fn verdict_rests_on_the_amounts(v: Verdict)
    ensures
        v is Accepted ==> rests_on_amounts(v),
        v is Refused ==> !rests_on_amounts(v),
        v matches Verdict::Rejected(s, _) ==> (rests_on_amounts(v) <==> s is Insufficient),
{
}

} // verus!
