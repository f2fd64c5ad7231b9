//! Prepaid sessions over HTTP: how a deposit opens one, and who may use it.

use vstd::prelude::*;

use crate::addresses::{derive_invoice_address, derived_address};
use crate::api::auth::{extract_session_token, header_session_token};
use crate::api::deposits::{
    has_memo, is_txid, memo_total, received, received_with_memo, receiver_total, valid_txid,
};
use crate::api::Lookup;
use crate::billing::{block_of, find_block, stored_block, Block};
use crate::hexadecimal::{hex_bytes, is_hex_text};
use crate::scanner::decrypt::{
    incoming_outputs, outputs_view, try_decrypt_all_outputs_ivk, DecryptedOutput, OutputView,
};
use crate::session_ledger::{used_request, SessionLedger};
use crate::sessions::{opened_as, Opening, Session, SessionError, SessionRequest};
use crate::text::{join2, lex_less, opt_str, opt_text, text_eq};

verus! {

/// What the memo of a deposit begins with.
pub const SESSION_MEMO_PREFIX: &'static str = "zipher:session:";

/// Zatoshis that open a session at least.
pub const MIN_DEPOSIT: i64 = 10_000;

/// Seconds for which a deposit request is open.
pub const REQUEST_SECONDS: i64 = 1800;

/// A request to open a session on a deposit. The merchant is that of the
/// deposit request where one is named.
#[derive(Debug)]
pub struct OpenRequest {
    pub txid: String,
    pub merchant_id: Option<String>,
    pub refund_address: Option<String>,
    pub session_request_id: Option<String>,
}

#[derive(Debug)]
pub struct PrepareRequest {
    pub merchant_id: String,
}

#[derive(Debug)]
pub struct DeductRequest {
    pub amount_zatoshis: i64,
}

/// The merchant to whom a deposit goes.
pub struct Depositary {
    pub id: String,
    pub ufvk: String,
}

/// What was found out about a deposit. `refund_valid` says whether the refund
/// address, where one is given, is a Zcash address. The billing status is given
/// where fees are charged and it could be read.
pub struct OpenFacts {
    pub refund_valid: bool,
    pub merchant: Lookup<Depositary>,
    pub billing_status: Option<String>,
    pub raw_hex: Option<String>,
}

/// Why no session is opened.
#[derive(Debug, Clone, Copy, PartialEq, Eq, Structural)]
pub enum OpenRefusal {
    InvalidTxid,
    InvalidRefundAddress,
    AlreadyUsed,
    RequestUnavailable,
    RequestLookupFailed,
    RequestRequired,
    MerchantNotFound,
    BillingBlocked(Block),
    NoReceiver,
    TransactionNotFound,
    DecryptionFailed,
    NoOutputs,
    NoDeposit,
    NoMemo,
    TooSmall,
    CreationFailed,
}

impl OpenRefusal {
    pub open spec fn spec_reply(self) -> (u16, Seq<char>) {
        match self {
            OpenRefusal::InvalidTxid => (400, "Invalid txid format"@),
            OpenRefusal::InvalidRefundAddress => (400, ""@),
            OpenRefusal::AlreadyUsed => (
                409,
                "This transaction has already been used to open a session"@,
            ),
            OpenRefusal::RequestUnavailable => (
                400,
                "Session request not found, already used, or expired"@,
            ),
            OpenRefusal::RequestLookupFailed => (500, "Internal error"@),
            OpenRefusal::RequestRequired => (
                400,
                "session_request_id is required. Use POST /api/sessions/prepare to get one."@,
            ),
            OpenRefusal::MerchantNotFound => (404, "Merchant not found"@),
            OpenRefusal::BillingBlocked(_) => (402, "Merchant account has outstanding fees"@),
            OpenRefusal::NoReceiver => (500, "Internal error"@),
            OpenRefusal::TransactionNotFound => (400, "Transaction not found"@),
            OpenRefusal::DecryptionFailed => (
                400,
                "Could not decrypt transaction outputs for this merchant"@,
            ),
            OpenRefusal::NoOutputs => (400, "No outputs addressed to this merchant"@),
            OpenRefusal::NoDeposit => (400, "No outputs to the expected deposit address"@),
            OpenRefusal::NoMemo => (
                400,
                "No output with matching session memo found in transaction"@,
            ),
            OpenRefusal::TooSmall => (
                400,
                "Deposit too small \u{2014} minimum 10,000 zatoshis (0.0001 ZEC)"@,
            ),
            OpenRefusal::CreationFailed => (500, "Failed to create session"@),
        }
    }

    /// The HTTP status and the message; that of an invalid address is the
    /// business of whoever found it invalid.
    pub fn reply(&self) -> (r: (u16, &'static str))
        ensures
            (r.0, r.1@) == self.spec_reply(),
    {
        match self {
            OpenRefusal::InvalidTxid => (400, "Invalid txid format"),
            OpenRefusal::InvalidRefundAddress => (400, ""),
            OpenRefusal::AlreadyUsed => (
                409,
                "This transaction has already been used to open a session",
            ),
            OpenRefusal::RequestUnavailable => (
                400,
                "Session request not found, already used, or expired",
            ),
            OpenRefusal::RequestLookupFailed => (500, "Internal error"),
            OpenRefusal::RequestRequired => (
                400,
                "session_request_id is required. Use POST /api/sessions/prepare to get one.",
            ),
            OpenRefusal::MerchantNotFound => (404, "Merchant not found"),
            OpenRefusal::BillingBlocked(_) => (402, "Merchant account has outstanding fees"),
            OpenRefusal::NoReceiver => (500, "Internal error"),
            OpenRefusal::TransactionNotFound => (400, "Transaction not found"),
            OpenRefusal::DecryptionFailed => (
                400,
                "Could not decrypt transaction outputs for this merchant",
            ),
            OpenRefusal::NoOutputs => (400, "No outputs addressed to this merchant"),
            OpenRefusal::NoDeposit => (400, "No outputs to the expected deposit address"),
            OpenRefusal::NoMemo => (
                400,
                "No output with matching session memo found in transaction",
            ),
            OpenRefusal::TooSmall => (
                400,
                "Deposit too small \u{2014} minimum 10,000 zatoshis (0.0001 ZEC)",
            ),
            OpenRefusal::CreationFailed => (500, "Failed to create session"),
        }
    }

    /// The billing status that is answered along with the refusal, if one is.
    pub fn billing_status(&self) -> (r: Option<&'static str>)
        ensures
            match (*self, r) {
                (OpenRefusal::BillingBlocked(b), Some(s)) => s@ == b.spec_status(),
                (OpenRefusal::BillingBlocked(_), None) => false,
                (_, x) => x is None,
            },
    {
        match self {
            OpenRefusal::BillingBlocked(b) => Some(b.status()),
            _ => None,
        }
    }
}

/// How a deposit is recognized: by the address that was handed out for it, or
/// by its memo.
pub enum DepositMark {
    Address(u32),
    Memo(String),
}

/// A mark by what it holds.
pub enum MarkView {
    Address(u32),
    Memo(Seq<char>),
}

impl DepositMark {
    pub open spec fn view(&self) -> MarkView {
        match *self {
            DepositMark::Address(i) => MarkView::Address(i),
            DepositMark::Memo(m) => MarkView::Memo(m@),
        }
    }
}

/// The error that a request to open a session meets before the merchant is
/// looked up; otherwise the merchant and the mark of the deposit.
pub open spec fn opening_of(
    req: &OpenRequest,
    refund_valid: bool,
    already_used: bool,
    request: Lookup<SessionRequest>,
) -> Result<(Seq<char>, MarkView), OpenRefusal> {
    if !is_txid(req.txid@) {
        Err(OpenRefusal::InvalidTxid)
    } else if opt_text(req.refund_address) matches Some(a) && a.len() > 0 && !refund_valid {
        Err(OpenRefusal::InvalidRefundAddress)
    } else if already_used {
        Err(OpenRefusal::AlreadyUsed)
    } else if req.session_request_id is Some {
        match request {
            Lookup::Found(q) => Ok((q.merchant_id@, MarkView::Address(q.diversifier_index))),
            Lookup::Missing => Err(OpenRefusal::RequestUnavailable),
            Lookup::Failed => Err(OpenRefusal::RequestLookupFailed),
        }
    } else {
        match opt_text(req.merchant_id) {
            Some(m) => Ok((m, MarkView::Memo(SESSION_MEMO_PREFIX@ + m))),
            None => Err(OpenRefusal::RequestRequired),
        }
    }
}

/// Reads a request to open a session: the merchant and the mark of the deposit.
pub fn read_opening(
    req: &OpenRequest,
    refund_valid: bool,
    already_used: bool,
    request: &Lookup<SessionRequest>,
) -> (r: Result<(String, DepositMark), OpenRefusal>)
    ensures
        match r {
            Ok(x) => opening_of(req, refund_valid, already_used, *request) == Ok::<
                (Seq<char>, MarkView),
                OpenRefusal,
            >((x.0@, x.1.view())),
            Err(e) => opening_of(req, refund_valid, already_used, *request) == Err::<
                (Seq<char>, MarkView),
                OpenRefusal,
            >(e),
        },
{
    if !valid_txid(req.txid.as_str()) {
        return Err(OpenRefusal::InvalidTxid);
    }
    let given: bool = match &req.refund_address {
        Some(a) => !a.as_str().is_empty(),
        None => false,
    };
    if given && !refund_valid {
        return Err(OpenRefusal::InvalidRefundAddress);
    }
    if already_used {
        return Err(OpenRefusal::AlreadyUsed);
    }
    if req.session_request_id.is_some() {
        return match request {
            Lookup::Found(q) => Ok(
                (q.merchant_id.clone(), DepositMark::Address(q.diversifier_index)),
            ),
            Lookup::Missing => Err(OpenRefusal::RequestUnavailable),
            Lookup::Failed => Err(OpenRefusal::RequestLookupFailed),
        };
    }
    match &req.merchant_id {
        Some(m) => Ok(
            (m.clone(), DepositMark::Memo(join2(SESSION_MEMO_PREFIX, m.as_str()))),
        ),
        None => Err(OpenRefusal::RequestRequired),
    }
}

/// The zatoshis that outputs deposit under a mark; `receiver` is the one that
/// the address of the mark stands for.
pub open spec fn marked_total(
    outputs: Seq<OutputView>,
    mark: MarkView,
    receiver: Seq<char>,
) -> Result<int, OpenRefusal> {
    match mark {
        MarkView::Address(_) => if received(outputs, receiver) == 0 {
            Err(OpenRefusal::NoDeposit)
        } else {
            Ok(received(outputs, receiver))
        },
        MarkView::Memo(m) => if has_memo(outputs, m) {
            Ok(received_with_memo(outputs, m))
        } else {
            Err(OpenRefusal::NoMemo)
        },
    }
}

/// What a deposit is worth, or why it opens no session.
pub open spec fn deposit_of(facts: &OpenFacts, mark: MarkView) -> Result<int, OpenRefusal> {
    match facts.merchant {
        Lookup::Found(m) => if block_of(opt_text(facts.billing_status)) is Some {
            Err(OpenRefusal::BillingBlocked(block_of(opt_text(facts.billing_status))->0))
        } else if mark matches MarkView::Address(i) && derived_address(m.ufvk@, i) is Err {
            Err(OpenRefusal::NoReceiver)
        } else {
            match opt_text(facts.raw_hex) {
                None => Err(OpenRefusal::TransactionNotFound),
                Some(raw) => if !is_hex_text(raw) {
                    Err(OpenRefusal::DecryptionFailed)
                } else if incoming_outputs(hex_bytes(raw), m.ufvk@).len() == 0 {
                    Err(OpenRefusal::NoOutputs)
                } else {
                    match marked_total(
                        incoming_outputs(hex_bytes(raw), m.ufvk@),
                        mark,
                        match mark {
                            MarkView::Address(i) => (derived_address(m.ufvk@, i)->Ok_0).1,
                            MarkView::Memo(_) => Seq::empty(),
                        },
                    ) {
                        Err(e) => Err(e),
                        Ok(total) => if total < MIN_DEPOSIT {
                            Err(OpenRefusal::TooSmall)
                        } else {
                            Ok(total)
                        },
                    }
                },
            }
        },
        _ => Err(OpenRefusal::MerchantNotFound),
    }
}

fn sum_marked(outputs: &Vec<DecryptedOutput>, mark: &DepositMark, receiver: &str) -> (r: Result<
    u128,
    OpenRefusal,
>)
    ensures
        match r {
            Ok(t) => marked_total(outputs_view(outputs@), mark.view(), receiver@) == Ok::<
                int,
                OpenRefusal,
            >(t as int),
            Err(e) => marked_total(outputs_view(outputs@), mark.view(), receiver@) == Err::<
                int,
                OpenRefusal,
            >(e),
        },
{
    match mark {
        DepositMark::Address(_) => {
            let total: u128 = receiver_total(outputs, receiver);
            if total == 0 {
                Err(OpenRefusal::NoDeposit)
            } else {
                Ok(total)
            }
        },
        DepositMark::Memo(m) => match memo_total(outputs, m.as_str()) {
            Some(total) => Ok(total),
            None => Err(OpenRefusal::NoMemo),
        },
    }
}

/// Appraises a deposit: its zatoshis, or why it opens no session. Nothing comes
/// back where they are more than a session can hold.
pub fn appraise_deposit(facts: &OpenFacts, mark: &DepositMark) -> (r: Option<
    Result<i64, OpenRefusal>,
>)
    ensures
        match r {
            Some(Ok(t)) => deposit_of(facts, mark.view()) == Ok::<int, OpenRefusal>(t as int),
            Some(Err(e)) => deposit_of(facts, mark.view()) == Err::<int, OpenRefusal>(e),
            None => deposit_of(facts, mark.view()) matches Ok(t) && t > i64::MAX,
        },
{
    let m: &Depositary = match &facts.merchant {
        Lookup::Found(m) => m,
        _ => {
            return Some(Err(OpenRefusal::MerchantNotFound));
        },
    };
    match stored_block(&facts.billing_status) {
        Some(b) => {
            return Some(Err(OpenRefusal::BillingBlocked(b)));
        },
        None => {},
    }
    let receiver: String = match mark {
        DepositMark::Address(i) => match derive_invoice_address(m.ufvk.as_str(), *i) {
            Ok(d) => d.orchard_receiver_hex,
            Err(_) => {
                return Some(Err(OpenRefusal::NoReceiver));
            },
        },
        DepositMark::Memo(_) => String::new(),
    };
    assert(mark.view() is Memo ==> receiver@ =~= Seq::<char>::empty());
    let raw: &str = match &facts.raw_hex {
        Some(s) => s.as_str(),
        None => {
            return Some(Err(OpenRefusal::TransactionNotFound));
        },
    };
    match try_decrypt_all_outputs_ivk(raw, m.ufvk.as_str()) {
        Err(_) => Some(Err(OpenRefusal::DecryptionFailed)),
        Ok(outputs) => {
            if outputs.len() == 0 {
                return Some(Err(OpenRefusal::NoOutputs));
            }
            match sum_marked(&outputs, mark, receiver.as_str()) {
                Err(e) => Some(Err(e)),
                Ok(total) => if total < MIN_DEPOSIT as u128 {
                    Some(Err(OpenRefusal::TooSmall))
                } else if total > i64::MAX as u128 {
                    None
                } else {
                    Some(Ok(total as i64))
                },
            }
        },
    }
}

/// Whether a request of the ledger is the one that a request to open a session
/// names, as far as it still is open.
pub open spec fn names_request(
    ledger: &SessionLedger,
    req: &OpenRequest,
    now: Seq<char>,
    q: Lookup<SessionRequest>,
) -> bool {
    match opt_text(req.session_request_id) {
        None => q is Missing,
        Some(id) => match q {
            Lookup::Found(x) => exists|i: int|
                0 <= i < ledger.requests@.len() && (#[trigger] ledger.requests@[i]).id@ == id
                    && ledger.requests@[i].is_pending(now) && x.id@ == id && x.merchant_id@
                    == ledger.requests@[i].merchant_id@ && x.deposit_address@
                    == ledger.requests@[i].deposit_address@ && x.diversifier_index
                    == ledger.requests@[i].diversifier_index,
            Lookup::Missing => forall|i: int|
                0 <= i < ledger.requests@.len() ==> (#[trigger] ledger.requests@[i]).id@ != id
                    || !ledger.requests@[i].is_pending(now),
            Lookup::Failed => false,
        },
    }
}

/// Opens a session on a deposit. Where the deposit was made on a request, the
/// request is used up along with it. Nothing comes back where the deposit is
/// more than a session can hold.
pub fn open(ledger: &mut SessionLedger, opening: &Opening, req: &OpenRequest, facts: &OpenFacts) -> (r:
    Option<Result<Session, OpenRefusal>>)
    requires
        old(ledger).wf(),
    ensures
        final(ledger).wf(),
        final(ledger).remembers(old(ledger)),
        !(r matches Some(Ok(_))) ==> *final(ledger) == *old(ledger),
        exists|q: Lookup<SessionRequest>| #[trigger]
            names_request(old(ledger), req, opening.now@, q) && match opening_of(
                req,
                facts.refund_valid,
                old(ledger).is_consumed(req.txid@),
                q,
            ) {
                Err(e) => r == Some(Err::<Session, OpenRefusal>(e)),
                Ok(x) => match deposit_of(facts, x.1) {
                    Err(e) => r == Some(Err::<Session, OpenRefusal>(e)),
                    Ok(total) => match r {
                        None => total > i64::MAX,
                        Some(Err(e)) => e == OpenRefusal::CreationFailed && total <= i64::MAX && (
                        old(ledger).has_id(opening.id@) || old(ledger).has_token(
                            opening.bearer_token@,
                        )),
                        Some(Ok(s)) => {
                            &&& total <= i64::MAX
                            &&& opened_as(
                                &s,
                                opening,
                                x.0,
                                req.txid@,
                                total as i64,
                                opt_text(req.refund_address),
                                None,
                            )
                            &&& final(ledger).sessions@ == old(ledger).sessions@.push(s)
                            &&& old(ledger).consumed_into(final(ledger), req.txid@, "session"@)
                            &&& final(ledger).charges == old(ledger).charges
                            &&& match opt_text(req.session_request_id) {
                                None => final(ledger).requests == old(ledger).requests,
                                Some(id) => exists|i: int| #[trigger]
                                    old(ledger).request_available(i, id, x.0, opening.now@)
                                        && used_request(
                                        &old(ledger).requests@[i],
                                        &final(ledger).requests@[i],
                                    ) && final(ledger).requests@ == old(ledger).requests@.update(
                                        i,
                                        final(ledger).requests@[i],
                                    ),
                            }
                        },
                    },
                },
            },
{
    let now: &str = opening.now.as_str();
    let request: Lookup<SessionRequest> = match &req.session_request_id {
        None => Lookup::Missing,
        Some(id) => match ledger.get_session_request(id.as_str(), now) {
            Some(q) => Lookup::Found(q),
            None => Lookup::Missing,
        },
    };
    assert(names_request(ledger, req, opening.now@, request));
    let used: bool = ledger.txid_already_used(req.txid.as_str());
    let (merchant_id, mark) = match read_opening(req, facts.refund_valid, used, &request) {
        Ok(x) => x,
        Err(e) => {
            return Some(Err(e));
        },
    };
    let total: i64 = match appraise_deposit(facts, &mark) {
        None => {
            return None;
        },
        Some(Err(e)) => {
            return Some(Err(e));
        },
        Some(Ok(t)) => t,
    };
    let refund: Option<&str> = match &req.refund_address {
        Some(a) => Some(a.as_str()),
        None => None,
    };
    let created: Result<Session, SessionError> = match &req.session_request_id {
        Some(id) => {
            proof {
                let x = request->Found_0;
                let i = choose|i: int|
                    0 <= i < ledger.requests@.len() && (#[trigger] ledger.requests@[i]).id@ == id@
                        && ledger.requests@[i].is_pending(opening.now@) && x.id@ == id@
                        && x.merchant_id@ == ledger.requests@[i].merchant_id@ && x.deposit_address@
                        == ledger.requests@[i].deposit_address@ && x.diversifier_index
                        == ledger.requests@[i].diversifier_index;
                assert(ledger.request_available(i, id@, merchant_id@, opening.now@));
            }
            ledger.create_prepared_session(
                opening,
                merchant_id.as_str(),
                id.as_str(),
                req.txid.as_str(),
                total,
                refund,
            )
        },
        None => ledger.create_session(
            opening,
            merchant_id.as_str(),
            req.txid.as_str(),
            total,
            refund,
        ),
    };
    match created {
        Ok(s) => Some(Ok(s)),
        Err(_) => Some(Err(OpenRefusal::CreationFailed)),
    }
}

// ---------------------------------------------------------------------------
// Who may use a session
// ---------------------------------------------------------------------------

/// Why a request about sessions is not let through.
#[derive(Debug, Clone, Copy, PartialEq, Eq, Structural)]
pub enum SessionAccess {
    LookupFailed,
    SessionNotFound,
    NotOwner,
    OtherMerchant,
    AuthenticationRequired,
    TokenRequired,
    ValidTokenRequired,
    AmountNotPositive,
    /// Answered as a charge that is not valid.
    BillingBlocked(Block),
}

impl SessionAccess {
    pub open spec fn spec_reply(self) -> (u16, Seq<char>) {
        match self {
            SessionAccess::LookupFailed => (500, "Internal error"@),
            SessionAccess::SessionNotFound => (404, "Session not found"@),
            SessionAccess::NotOwner => (401, "Not authorized for this session"@),
            SessionAccess::OtherMerchant => (403, "Not authorized for this merchant"@),
            SessionAccess::AuthenticationRequired => (401, "Authentication required"@),
            SessionAccess::TokenRequired => (400, "Bearer token required"@),
            SessionAccess::ValidTokenRequired => (
                400,
                "Bearer token required \u{2014} use Authorization: Bearer cps_... header"@,
            ),
            SessionAccess::AmountNotPositive => (400, "amount_zatoshis must be positive"@),
            SessionAccess::BillingBlocked(_) => (200, "Merchant account has outstanding fees"@),
        }
    }

    /// The HTTP status and the message.
    pub fn reply(&self) -> (r: (u16, &'static str))
        ensures
            (r.0, r.1@) == self.spec_reply(),
    {
        match self {
            SessionAccess::LookupFailed => (500, "Internal error"),
            SessionAccess::SessionNotFound => (404, "Session not found"),
            SessionAccess::NotOwner => (401, "Not authorized for this session"),
            SessionAccess::OtherMerchant => (403, "Not authorized for this merchant"),
            SessionAccess::AuthenticationRequired => (401, "Authentication required"),
            SessionAccess::TokenRequired => (400, "Bearer token required"),
            SessionAccess::ValidTokenRequired => (
                400,
                "Bearer token required \u{2014} use Authorization: Bearer cps_... header",
            ),
            SessionAccess::AmountNotPositive => (400, "amount_zatoshis must be positive"),
            SessionAccess::BillingBlocked(_) => (200, "Merchant account has outstanding fees"),
        }
    }

    /// The billing status that is answered along with the refusal, if one is.
    pub fn billing_status(&self) -> (r: Option<&'static str>)
        ensures
            match (*self, r) {
                (SessionAccess::BillingBlocked(b), Some(s)) => s@ == b.spec_status(),
                (SessionAccess::BillingBlocked(_), None) => false,
                (_, x) => x is None,
            },
    {
        match self {
            SessionAccess::BillingBlocked(b) => Some(b.status()),
            _ => None,
        }
    }
}

/// Whether a session may be looked at or closed: by its own merchant, known by
/// the dashboard or by a key.
pub fn require_session_owner(
    session_merchant: &Lookup<String>,
    dashboard: Option<&str>,
    by_key: Option<&str>,
) -> (r: Result<(), SessionAccess>)
    ensures
        match *session_merchant {
            Lookup::Failed => r == Err::<(), SessionAccess>(SessionAccess::LookupFailed),
            Lookup::Missing => r == Err::<(), SessionAccess>(SessionAccess::SessionNotFound),
            Lookup::Found(m) => if opt_str(dashboard) == Some(m@) || opt_str(by_key) == Some(m@) {
                r is Ok
            } else {
                r == Err::<(), SessionAccess>(SessionAccess::NotOwner)
            },
        },
{
    let owner: &str = match session_merchant {
        Lookup::Failed => {
            return Err(SessionAccess::LookupFailed);
        },
        Lookup::Missing => {
            return Err(SessionAccess::SessionNotFound);
        },
        Lookup::Found(m) => m.as_str(),
    };
    let by_dashboard: bool = match dashboard {
        Some(m) => text_eq(m, owner),
        None => false,
    };
    let by_api_key: bool = match by_key {
        Some(m) => text_eq(m, owner),
        None => false,
    };
    if by_dashboard || by_api_key {
        Ok(())
    } else {
        Err(SessionAccess::NotOwner)
    }
}

/// Whether a deposit may be prepared for a merchant: by that merchant alone. A
/// dashboard session decides where there is one; otherwise the key does, which
/// is `None` where no header can be read.
pub fn resolve_prepare_merchant(
    merchant_id: &str,
    dashboard: Option<&str>,
    by_key: &Option<Lookup<String>>,
) -> (r: Result<(), SessionAccess>)
    ensures
        match (opt_str(dashboard), *by_key) {
            (Some(m), _) => if m == merchant_id@ {
                r is Ok
            } else {
                r == Err::<(), SessionAccess>(SessionAccess::OtherMerchant)
            },
            (None, None) => r == Err::<(), SessionAccess>(SessionAccess::AuthenticationRequired),
            (None, Some(Lookup::Found(m))) => if m@ == merchant_id@ {
                r is Ok
            } else {
                r == Err::<(), SessionAccess>(SessionAccess::OtherMerchant)
            },
            (None, Some(Lookup::Missing)) => r == Err::<(), SessionAccess>(
                SessionAccess::AuthenticationRequired,
            ),
            (None, Some(Lookup::Failed)) => r == Err::<(), SessionAccess>(
                SessionAccess::LookupFailed,
            ),
        },
{
    match dashboard {
        Some(m) => {
            return if text_eq(m, merchant_id) {
                Ok(())
            } else {
                Err(SessionAccess::OtherMerchant)
            };
        },
        None => {},
    }
    match by_key {
        None => Err(SessionAccess::AuthenticationRequired),
        Some(Lookup::Found(m)) => if text_eq(m.as_str(), merchant_id) {
            Ok(())
        } else {
            Err(SessionAccess::OtherMerchant)
        },
        Some(Lookup::Missing) => Err(SessionAccess::AuthenticationRequired),
        Some(Lookup::Failed) => Err(SessionAccess::LookupFailed),
    }
}

/// Whether billing lets a session be charged. Of an unknown session nothing is
/// said here, and a status that cannot be read blocks nobody.
pub fn enforce_session_billing(
    fee_enabled: bool,
    session: &Lookup<()>,
    billing_status: Option<&str>,
) -> (r: Result<(), SessionAccess>)
    ensures
        if fee_enabled && *session is Failed {
            r == Err::<(), SessionAccess>(SessionAccess::LookupFailed)
        } else if fee_enabled && *session is Found && block_of(opt_str(billing_status)) is Some {
            r == Err::<(), SessionAccess>(
                SessionAccess::BillingBlocked(block_of(opt_str(billing_status))->0),
            )
        } else {
            r is Ok
        },
{
    if !fee_enabled {
        return Ok(());
    }
    match session {
        Lookup::Failed => Err(SessionAccess::LookupFailed),
        Lookup::Missing => Ok(()),
        Lookup::Found(_) => match find_block(billing_status) {
            Some(b) => Err(SessionAccess::BillingBlocked(b)),
            None => Ok(()),
        },
    }
}

/// Reads a request to deduct an amount: the token of the session.
pub fn check_deduction(header: Option<&str>, body: &DeductRequest) -> (r: Result<
    String,
    SessionAccess,
>)
    ensures
        match r {
            Ok(t) => header_session_token(opt_str(header)) == Some(t@) && body.amount_zatoshis > 0,
            Err(e) => if header_session_token(opt_str(header)) is None {
                e == SessionAccess::TokenRequired
            } else {
                e == SessionAccess::AmountNotPositive && body.amount_zatoshis <= 0
            },
        },
{
    match extract_session_token(header) {
        None => Err(SessionAccess::TokenRequired),
        Some(t) => if body.amount_zatoshis <= 0 {
            Err(SessionAccess::AmountNotPositive)
        } else {
            Ok(t)
        },
    }
}

/// Reads a request to validate a session: its token.
pub fn check_validation(header: Option<&str>) -> (r: Result<String, SessionAccess>)
    ensures
        match r {
            Ok(t) => header_session_token(opt_str(header)) == Some(t@),
            Err(e) => header_session_token(opt_str(header)) is None && e
                == SessionAccess::ValidTokenRequired,
        },
{
    match extract_session_token(header) {
        None => Err(SessionAccess::ValidTokenRequired),
        Some(t) => Ok(t),
    }
}

// ---------------------------------------------------------------------------
// Laws
// ---------------------------------------------------------------------------

/// A deposit on a request counts only as far as it arrived at the address that
/// the request handed out, whatever the transaction pays elsewhere.
pub proof fn deposit_counts_at_its_address(facts: OpenFacts, index: u32, total: int)
    requires
        deposit_of(&facts, MarkView::Address(index)) == Ok::<int, OpenRefusal>(total),
    ensures
        total >= MIN_DEPOSIT,
        facts.merchant matches Lookup::Found(m) && derived_address(m.ufvk@, index) matches Ok(d)
            && facts.raw_hex matches Some(raw) && total == received(
            incoming_outputs(hex_bytes(raw@), m.ufvk@),
            d.1,
        ),
{
}

/// An opening is read exactly where it names a transaction that was not used
/// before, a refund address that is valid or none, and a request that is known
/// or, without one, a merchant. It is refused for the first of these that fails.
pub proof fn opening_names_its_mark(
    req: &OpenRequest,
    refund_valid: bool,
    already_used: bool,
    request: Lookup<SessionRequest>,
)
    ensures
        ({
            let r = opening_of(req, refund_valid, already_used, request);
            let txid = is_txid(req.txid@);
            let refund = req.refund_address is None || req.refund_address->0@.len() == 0
                || refund_valid;
            let fresh = txid && refund && !already_used;
            let asked = req.session_request_id is Some;
            &&& !txid <==> r == Err::<(Seq<char>, MarkView), OpenRefusal>(OpenRefusal::InvalidTxid)
            &&& txid && !refund <==> r == Err::<(Seq<char>, MarkView), OpenRefusal>(
                OpenRefusal::InvalidRefundAddress,
            )
            &&& txid && refund && already_used <==> r == Err::<(Seq<char>, MarkView), OpenRefusal>(
                OpenRefusal::AlreadyUsed,
            )
            &&& fresh && asked && request is Missing <==> r == Err::<
                (Seq<char>, MarkView),
                OpenRefusal,
            >(OpenRefusal::RequestUnavailable)
            &&& fresh && asked && request is Failed <==> r == Err::<
                (Seq<char>, MarkView),
                OpenRefusal,
            >(OpenRefusal::RequestLookupFailed)
            &&& fresh && !asked && req.merchant_id is None <==> r == Err::<
                (Seq<char>, MarkView),
                OpenRefusal,
            >(OpenRefusal::RequestRequired)
            &&& fresh && asked && request is Found ==> r == Ok::<(Seq<char>, MarkView), OpenRefusal>(
                (
                    request->Found_0.merchant_id@,
                    MarkView::Address(request->Found_0.diversifier_index),
                ),
            )
            &&& fresh && !asked && req.merchant_id is Some ==> r == Ok::<
                (Seq<char>, MarkView),
                OpenRefusal,
            >(
                (
                    req.merchant_id->0@,
                    MarkView::Memo("zipher:session:"@ + req.merchant_id->0@),
                ),
            )
        }),
{
}

/// A deposit counts exactly where it reached its mark, with 10,000 zatoshis or
/// more: at the address that was prepared for it, or under the memo that names
/// the merchant. It counts in full.
pub proof fn deposit_counts_from_the_minimum(
    facts: &OpenFacts,
    mark: MarkView,
    holder: Depositary,
    raw: Seq<char>,
)
    requires
        facts.merchant == Lookup::Found(holder),
        facts.billing_status matches Some(s) ==> s@ != "past_due"@ && s@ != "suspended"@,
        opt_text(facts.raw_hex) == Some(raw),
        is_hex_text(raw),
        incoming_outputs(hex_bytes(raw), holder.ufvk@).len() > 0,
        mark matches MarkView::Address(i) ==> derived_address(holder.ufvk@, i) is Ok,
    ensures
        ({
            let outputs = incoming_outputs(hex_bytes(raw), holder.ufvk@);
            let r = deposit_of(facts, mark);
            match mark {
                MarkView::Address(i) => {
                    let total = received(outputs, (derived_address(holder.ufvk@, i)->Ok_0).1);
                    &&& total >= 10_000 <==> r is Ok
                    &&& r matches Ok(t) ==> t == total
                    &&& total == 0 <==> r == Err::<int, OpenRefusal>(OpenRefusal::NoDeposit)
                    &&& total != 0 && total < 10_000 <==> r == Err::<int, OpenRefusal>(
                        OpenRefusal::TooSmall,
                    )
                },
                MarkView::Memo(m) => {
                    let total = received_with_memo(outputs, m);
                    &&& has_memo(outputs, m) && total >= 10_000 <==> r is Ok
                    &&& r matches Ok(t) ==> t == total
                    &&& !has_memo(outputs, m) <==> r == Err::<int, OpenRefusal>(OpenRefusal::NoMemo)
                    &&& has_memo(outputs, m) && total < 10_000 <==> r == Err::<int, OpenRefusal>(
                        OpenRefusal::TooSmall,
                    )
                },
            }
        }),
{
}

/// Before a deposit is counted the first thing amiss is answered: the merchant,
/// its standing, the address, and the transaction.
pub proof fn deposit_is_screened_in_order(facts: &OpenFacts, mark: MarkView)
    ensures
        ({
            let r = deposit_of(facts, mark);
            let past_due = facts.billing_status matches Some(s) && s@ == "past_due"@;
            let suspended = facts.billing_status matches Some(s) && s@ == "suspended"@;
            let known = facts.merchant is Found;
            let ufvk = facts.merchant->Found_0.ufvk@;
            let good = known && !past_due && !suspended;
            let placed = mark matches MarkView::Address(i) ==> derived_address(ufvk, i) is Ok;
            let raw = facts.raw_hex;
            &&& !known <==> r == Err::<int, OpenRefusal>(OpenRefusal::MerchantNotFound)
            &&& known && past_due <==> r == Err::<int, OpenRefusal>(
                OpenRefusal::BillingBlocked(Block::PastDue),
            )
            &&& known && suspended <==> r == Err::<int, OpenRefusal>(
                OpenRefusal::BillingBlocked(Block::Suspended),
            )
            &&& good && !placed <==> r == Err::<int, OpenRefusal>(OpenRefusal::NoReceiver)
            &&& good && placed && raw is None <==> r == Err::<int, OpenRefusal>(
                OpenRefusal::TransactionNotFound,
            )
            &&& good && placed && raw is Some && !is_hex_text(raw->0@) <==> r == Err::<
                int,
                OpenRefusal,
            >(OpenRefusal::DecryptionFailed)
            &&& good && placed && raw is Some && is_hex_text(raw->0@) && incoming_outputs(
                hex_bytes(raw->0@),
                ufvk,
            ).len() == 0 <==> r == Err::<int, OpenRefusal>(OpenRefusal::NoOutputs)
        }),
{
    reveal_strlit("past_due");
    reveal_strlit("suspended");
    assert("past_due"@.len() != "suspended"@.len());
}

/// A request is refused with 400 where the request is at fault, with 402 where
/// the merchant owes fees, with 404 where something is not there, with 409
/// where it conflicts with what was done before, with 500 where the service is
/// at fault.
pub proof fn open_refusals_have_their_status(e: OpenRefusal)
    ensures
        e.spec_reply().0 == 400 <==> e is InvalidTxid || e is InvalidRefundAddress || e is RequestUnavailable || e is RequestRequired || e is TransactionNotFound || e is DecryptionFailed || e is NoOutputs || e is NoDeposit || e is NoMemo || e is TooSmall,
        e.spec_reply().0 == 402 <==> e is BillingBlocked,
        e.spec_reply().0 == 404 <==> e is MerchantNotFound,
        e.spec_reply().0 == 409 <==> e is AlreadyUsed,
        e.spec_reply().0 == 500 <==> e is RequestLookupFailed || e is NoReceiver || e is CreationFailed,
{
}

/// A request is refused as an answer like any other, with 400 where the
/// request is at fault, with 401 where the caller is not known, with 403 where
/// the caller may not do it, with 404 where something is not there, with 500
/// where the service is at fault.
pub proof fn session_refusals_have_their_status(e: SessionAccess)
    ensures
        e.spec_reply().0 == 200 <==> e is BillingBlocked,
        e.spec_reply().0 == 400 <==> e is TokenRequired || e is ValidTokenRequired || e is AmountNotPositive,
        e.spec_reply().0 == 401 <==> e is NotOwner || e is AuthenticationRequired,
        e.spec_reply().0 == 403 <==> e is OtherMerchant,
        e.spec_reply().0 == 404 <==> e is SessionNotFound,
        e.spec_reply().0 == 500 <==> e is LookupFailed,
{
}

/// The request that an opening names is one of the ledger that is pending and
/// has not expired, with its merchant and its address; there is none where none
/// is named.
pub proof fn named_request_is_pending(
    ledger: &SessionLedger,
    req: &OpenRequest,
    now: Seq<char>,
    q: Lookup<SessionRequest>,
    k: int,
)
    requires
        names_request(ledger, req, now, q),
        0 <= k < ledger.requests@.len(),
    ensures
        req.session_request_id is None ==> q is Missing,
        !(q is Failed),
        q matches Lookup::Found(x) ==> req.session_request_id is Some && x.id@
            == req.session_request_id->0@ && exists|i: int|
            0 <= i < ledger.requests@.len() && (#[trigger] ledger.requests@[i]).id@ == x.id@
                && ledger.requests@[i].status@ == "pending"@ && !lex_less(
                ledger.requests@[i].expires_at@,
                now,
            ) && ledger.requests@[i].merchant_id@ == x.merchant_id@
                && ledger.requests@[i].diversifier_index == x.diversifier_index
                && ledger.requests@[i].deposit_address@ == x.deposit_address@,
        req.session_request_id is Some && q is Missing && ledger.requests@[k].id@
            == req.session_request_id->0@ ==> ledger.requests@[k].status@ != "pending"@
            || lex_less(ledger.requests@[k].expires_at@, now),
{
    match q {
        Lookup::Found(x) => {
            let id = req.session_request_id->0@;
            let i = choose|i: int|
                0 <= i < ledger.requests@.len() && (#[trigger] ledger.requests@[i]).id@ == id
                    && ledger.requests@[i].is_pending(now) && x.id@ == id && x.merchant_id@
                    == ledger.requests@[i].merchant_id@ && x.deposit_address@
                    == ledger.requests@[i].deposit_address@ && x.diversifier_index
                    == ledger.requests@[i].diversifier_index;
            assert(ledger.requests@[i].id@ == x.id@);
        },
        _ => {},
    }
}

} // verus!
