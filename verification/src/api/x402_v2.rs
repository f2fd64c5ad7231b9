//! The second version of the payment protocol: what a request has to say, how
//! a payment is judged, and how it is settled exactly once, with a remembered
//! answer for whoever repeats the request.

use vstd::prelude::*;

use crate::addresses::{orchard_receiver, receiver_of};
use crate::api::deposits::{is_txid, received, receiver_total, valid_txid};
use crate::api::x402::{is_countable, Payee, MAX_ZATOSHIS};
use crate::api::Lookup;
use crate::billing::{is_blocking, merchant_billing_blocked};
use crate::hexadecimal::{hex_bytes, is_hex_text};
use crate::json::Json;
use crate::scanner::decrypt::{incoming_outputs, try_decrypt_all_outputs_ivk};
use crate::text::{
    ascii_lowercase, ascii_lowercased, join2, opt_str, opt_text, parse_u64, parsed_u64, text_eq,
};

verus! {

/// What the resource asks for.
pub struct PaymentRequirementsV2 {
    pub scheme: Option<String>,
    pub network: Option<String>,
    pub amount: Option<String>,
    pub pay_to: Option<String>,
    pub max_timeout_seconds: Option<u64>,
    pub asset: Option<String>,
    pub extra: Option<Json>,
}

pub struct ZcashPayload {
    pub txid: Option<String>,
}

/// What the payer offers.
pub struct PaymentPayloadV2 {
    pub x402_version: Option<u32>,
    pub resource: Option<Json>,
    pub accepted: Option<Json>,
    pub payload: Option<ZcashPayload>,
    pub extensions: Option<Json>,
}

pub struct VerifyRequestV2 {
    pub x402_version: Option<u32>,
    pub payment_payload: PaymentPayloadV2,
    pub payment_requirements: PaymentRequirementsV2,
}

/// The session that a settlement is to open with what is left over.
pub struct SettleSessionConfig {
    pub cost_per_request: Option<i64>,
    pub refund_address: Option<String>,
}

pub struct SettleRequestV2 {
    pub x402_version: Option<u32>,
    pub payment_payload: PaymentPayloadV2,
    pub payment_requirements: PaymentRequirementsV2,
    pub session: Option<SettleSessionConfig>,
    pub idempotency_key: Option<String>,
}

/// A problem with which a request is answered.
#[derive(Debug, Clone, Copy, PartialEq, Eq, Structural)]
pub enum V2Problem {
    MissingKey,
    InvalidKey,
    AuthFailed,
    InvalidRequirements,
    AcceptedDiffers,
    InvalidTxid,
    AmountNotInteger,
    AmountZero,
    WrongMerchant,
    NoReceiver,
    BillingBlocked,
    InvalidIdempotencyKey,
    IdempotencyConflict,
    Replayed,
}

/// What is said of a problem: the status, the kind, the title and the detail.
pub struct ProblemView {
    pub status: u16,
    pub kind: Seq<char>,
    pub title: Seq<char>,
    pub detail: Seq<char>,
}

/// What is said of a problem, as it is sent.
pub struct ProblemDetails {
    pub kind: String,
    pub title: &'static str,
    pub status: u16,
    pub detail: &'static str,
}

impl ProblemDetails {
    pub open spec fn view(&self) -> ProblemView {
        ProblemView {
            status: self.status,
            kind: self.kind@,
            title: self.title@,
            detail: self.detail@,
        }
    }
}

/// The address of a kind of problem.
pub open spec fn problem_address(kind: Seq<char>) -> Seq<char> {
    "https://cipherpay.app/errors/"@ + kind
}

/// What is said of a problem.
pub fn problem_details(
    status: u16,
    error_type: &str,
    title: &'static str,
    detail: &'static str,
) -> (r: ProblemDetails)
    ensures
        r.view() == (ProblemView {
            status,
            kind: problem_address(error_type@),
            title: title@,
            detail: detail@,
        }),
{
    ProblemDetails {
        kind: join2("https://cipherpay.app/errors/", error_type),
        title,
        status,
        detail,
    }
}

impl V2Problem {
    pub open spec fn spec_parts(self) -> (u16, Seq<char>, Seq<char>, Seq<char>) {
        match self {
            V2Problem::MissingKey => (
                401,
                "unauthorized"@,
                "Unauthorized"@,
                "Missing or invalid Authorization header"@,
            ),
            V2Problem::InvalidKey => (401, "unauthorized"@, "Unauthorized"@, "Invalid API key"@),
            V2Problem::AuthFailed => (
                500,
                "internal-error"@,
                "Internal Error"@,
                "Unexpected verification error"@,
            ),
            V2Problem::InvalidRequirements => (
                400,
                "invalid-payment-requirements"@,
                "Invalid Payment Requirements"@,
                "Require V2 exact ZEC payment, payTo and positive timeout"@,
            ),
            V2Problem::AcceptedDiffers => (
                400,
                "requirements-mismatch"@,
                "Requirements Mismatch"@,
                "Accepted payment differs from resource requirements"@,
            ),
            V2Problem::InvalidTxid => (
                400,
                "invalid-payload"@,
                "Invalid Payment Payload"@,
                "txid must be a 64-character hex string"@,
            ),
            V2Problem::AmountNotInteger => (
                400,
                "invalid-payment-requirements"@,
                "Invalid Payment Requirements"@,
                "amount must be a valid integer string (zatoshis)"@,
            ),
            V2Problem::AmountZero => (
                400,
                "invalid-payment-requirements"@,
                "Invalid Payment Requirements"@,
                "amount must be greater than zero"@,
            ),
            V2Problem::WrongMerchant => (
                400,
                "requirements-mismatch"@,
                "Requirements Mismatch"@,
                "Network and payTo must match this merchant"@,
            ),
            V2Problem::NoReceiver => (
                400,
                "invalid-pay-to"@,
                "Invalid Recipient"@,
                "Orchard receiver required"@,
            ),
            V2Problem::BillingBlocked => (
                402,
                "merchant-billing-blocked"@,
                "Merchant Billing Blocked"@,
                "Merchant account has outstanding fees"@,
            ),
            V2Problem::InvalidIdempotencyKey => (
                400,
                "invalid-idempotency-key"@,
                "Invalid Key"@,
                "Use 1-128 characters"@,
            ),
            V2Problem::IdempotencyConflict => (
                409,
                "idempotency-conflict"@,
                "Idempotency Conflict"@,
                "Key belongs to another request or cannot be recovered"@,
            ),
            V2Problem::Replayed => (
                409,
                "payment-replayed"@,
                "Payment Replayed"@,
                "This transaction has already been consumed"@,
            ),
        }
    }

    /// What is said of the problem.
    pub fn details(&self) -> (r: ProblemDetails)
        ensures
            ({
                let p = self.spec_parts();
                r.view() == (ProblemView {
                    status: p.0,
                    kind: problem_address(p.1),
                    title: p.2,
                    detail: p.3,
                })
            }),
    {
        match self {
            V2Problem::MissingKey => problem_details(
                401,
                "unauthorized",
                "Unauthorized",
                "Missing or invalid Authorization header",
            ),
            V2Problem::InvalidKey => problem_details(
                401,
                "unauthorized",
                "Unauthorized",
                "Invalid API key",
            ),
            V2Problem::AuthFailed => problem_details(
                500,
                "internal-error",
                "Internal Error",
                "Unexpected verification error",
            ),
            V2Problem::InvalidRequirements => problem_details(
                400,
                "invalid-payment-requirements",
                "Invalid Payment Requirements",
                "Require V2 exact ZEC payment, payTo and positive timeout",
            ),
            V2Problem::AcceptedDiffers => problem_details(
                400,
                "requirements-mismatch",
                "Requirements Mismatch",
                "Accepted payment differs from resource requirements",
            ),
            V2Problem::InvalidTxid => problem_details(
                400,
                "invalid-payload",
                "Invalid Payment Payload",
                "txid must be a 64-character hex string",
            ),
            V2Problem::AmountNotInteger => problem_details(
                400,
                "invalid-payment-requirements",
                "Invalid Payment Requirements",
                "amount must be a valid integer string (zatoshis)",
            ),
            V2Problem::AmountZero => problem_details(
                400,
                "invalid-payment-requirements",
                "Invalid Payment Requirements",
                "amount must be greater than zero",
            ),
            V2Problem::WrongMerchant => problem_details(
                400,
                "requirements-mismatch",
                "Requirements Mismatch",
                "Network and payTo must match this merchant",
            ),
            V2Problem::NoReceiver => problem_details(
                400,
                "invalid-pay-to",
                "Invalid Recipient",
                "Orchard receiver required",
            ),
            V2Problem::BillingBlocked => problem_details(
                402,
                "merchant-billing-blocked",
                "Merchant Billing Blocked",
                "Merchant account has outstanding fees",
            ),
            V2Problem::InvalidIdempotencyKey => problem_details(
                400,
                "invalid-idempotency-key",
                "Invalid Key",
                "Use 1-128 characters",
            ),
            V2Problem::IdempotencyConflict => problem_details(
                409,
                "idempotency-conflict",
                "Idempotency Conflict",
                "Key belongs to another request or cannot be recovered",
            ),
            V2Problem::Replayed => problem_details(
                409,
                "payment-replayed",
                "Payment Replayed",
                "This transaction has already been consumed",
            ),
        }
    }
}

/// The text, or the default where there is none.
pub open spec fn or_default(s: Option<Seq<char>>, default: Seq<char>) -> Seq<char> {
    match s {
        Some(x) => x,
        None => default,
    }
}

fn text_or<'a>(s: &'a Option<String>, default: &'a str) -> (r: &'a str)
    ensures
        r@ == or_default(opt_text(*s), default@),
{
    match s {
        Some(x) => x.as_str(),
        None => default,
    }
}

fn is_text(s: &Option<String>, expected: &str) -> (r: bool)
    ensures
        r == (opt_text(*s) == Some(expected@)),
{
    match s {
        Some(x) => text_eq(x.as_str(), expected),
        None => false,
    }
}

/// Whether a member of what was accepted repeats what was asked for: the same
/// text, or null where nothing was asked.
pub open spec fn repeats(accepted: Json, key: Seq<char>, asked: Option<Seq<char>>) -> bool {
    match asked {
        Some(s) => accepted.member_text(key) == Some(s),
        None => accepted.spec_get(key) == Some(Json::Null),
    }
}

fn member_repeats(accepted: &Json, key: &str, asked: &Option<String>) -> (r: bool)
    ensures
        r == repeats(*accepted, key@, opt_text(*asked)),
{
    match asked {
        Some(s) => match accepted.get_text(key) {
            Some(t) => text_eq(t.as_str(), s.as_str()),
            None => false,
        },
        None => match accepted.get(key) {
            Some(Json::Null) => true,
            _ => false,
        },
    }
}

/// Whether what was accepted is what was asked for.
pub open spec fn accepts(accepted: Json, requirements: &PaymentRequirementsV2) -> bool {
    &&& repeats(accepted, "scheme"@, opt_text(requirements.scheme))
    &&& repeats(accepted, "network"@, opt_text(requirements.network))
    &&& repeats(accepted, "amount"@, opt_text(requirements.amount))
    &&& repeats(accepted, "payTo"@, opt_text(requirements.pay_to))
    &&& repeats(accepted, "asset"@, opt_text(requirements.asset))
}

/// Whether a request asks for a payment of the kind that can be verified.
pub open spec fn is_supported(
    payload: &PaymentPayloadV2,
    requirements: &PaymentRequirementsV2,
) -> bool {
    &&& payload.x402_version == Some(2u32)
    &&& opt_text(requirements.scheme) == Some("exact"@)
    &&& opt_text(requirements.asset) == Some("ZEC"@)
    &&& or_default(opt_text(requirements.pay_to), ""@).len() > 0
    &&& requirements.max_timeout_seconds matches Some(t) && t > 0
}

/// The transaction that a payload names, or an empty text.
pub open spec fn named_txid(payload: &PaymentPayloadV2) -> Seq<char> {
    match payload.payload {
        Some(p) => or_default(opt_text(p.txid), ""@),
        None => ""@,
    }
}

/// The transaction in lower case, the amount and the network of a request.
pub open spec fn fields_of(
    payload: &PaymentPayloadV2,
    requirements: &PaymentRequirementsV2,
) -> Result<(Seq<char>, u64, Seq<char>), V2Problem> {
    if !is_supported(payload, requirements) {
        Err(V2Problem::InvalidRequirements)
    } else if payload.accepted matches Some(a) && !accepts(a, requirements) {
        Err(V2Problem::AcceptedDiffers)
    } else if !is_txid(named_txid(payload)) {
        Err(V2Problem::InvalidTxid)
    } else {
        match parsed_u64(or_default(opt_text(requirements.amount), "0"@)) {
            None => Err(V2Problem::AmountNotInteger),
            Some(n) => if n == 0 || n > MAX_ZATOSHIS {
                Err(V2Problem::AmountZero)
            } else {
                Ok(
                    (
                        ascii_lowercased(named_txid(payload)),
                        n,
                        or_default(opt_text(requirements.network), "zcash:mainnet"@),
                    ),
                )
            },
        }
    }
}

/// The fields of a request by what they hold.
pub open spec fn fields_result(r: Result<(String, u64, String), V2Problem>) -> Result<
    (Seq<char>, u64, Seq<char>),
    V2Problem,
> {
    match r {
        Ok(f) => Ok((f.0@, f.1, f.2@)),
        Err(e) => Err(e),
    }
}

/// Reads and checks what requests for verification and for settlement have in
/// common.
pub fn parse_v2_fields(
    payload: &PaymentPayloadV2,
    requirements: &PaymentRequirementsV2,
) -> (r: Result<(String, u64, String), V2Problem>)
    ensures
        fields_result(r) == fields_of(payload, requirements),
{
    proof {
        reveal_strlit("");
    }
    let version_two: bool = match payload.x402_version {
        Some(v) => v == 2,
        None => false,
    };
    let has_time: bool = match requirements.max_timeout_seconds {
        Some(t) => t > 0,
        None => false,
    };
    if !version_two || !is_text(&requirements.scheme, "exact") || !is_text(
        &requirements.asset,
        "ZEC",
    ) || text_or(&requirements.pay_to, "").is_empty() || !has_time {
        return Err(V2Problem::InvalidRequirements);
    }
    match &payload.accepted {
        Some(a) => {
            if !(member_repeats(a, "scheme", &requirements.scheme) && member_repeats(
                a,
                "network",
                &requirements.network,
            ) && member_repeats(a, "amount", &requirements.amount) && member_repeats(
                a,
                "payTo",
                &requirements.pay_to,
            ) && member_repeats(a, "asset", &requirements.asset)) {
                return Err(V2Problem::AcceptedDiffers);
            }
        },
        None => {},
    }
    let txid: &str = match &payload.payload {
        Some(p) => text_or(&p.txid, ""),
        None => "",
    };
    if !valid_txid(txid) {
        return Err(V2Problem::InvalidTxid);
    }
    match parse_u64(text_or(&requirements.amount, "0")) {
        None => Err(V2Problem::AmountNotInteger),
        Some(n) => if n == 0 || n > MAX_ZATOSHIS {
            Err(V2Problem::AmountZero)
        } else {
            Ok(
                (
                    ascii_lowercase(txid),
                    n,
                    text_or(&requirements.network, "zcash:mainnet").to_string(),
                ),
            )
        },
    }
}

/// Reads and checks a request for verification.
pub fn parse_v2_request(body: &VerifyRequestV2) -> (r: Result<(String, u64, String), V2Problem>)
    ensures
        fields_result(r) == fields_of(&body.payment_payload, &body.payment_requirements),
{
    parse_v2_fields(&body.payment_payload, &body.payment_requirements)
}

/// Reads and checks a request for settlement.
pub fn parse_settle_request(body: &SettleRequestV2) -> (r: Result<(String, u64, String), V2Problem>)
    ensures
        fields_result(r) == fields_of(&body.payment_payload, &body.payment_requirements),
{
    parse_v2_fields(&body.payment_payload, &body.payment_requirements)
}

/// The name of the network.
pub open spec fn network_name(is_testnet: bool) -> Seq<char> {
    if is_testnet {
        "zcash:testnet"@
    } else {
        "zcash:mainnet"@
    }
}

/// The name of the network, as it is announced and expected.
pub fn network_id(is_testnet: bool) -> (r: &'static str)
    ensures
        r@ == network_name(is_testnet),
{
    if is_testnet {
        "zcash:testnet"
    } else {
        "zcash:mainnet"
    }
}

/// What was found out about a payment. The billing status is given where fees
/// are charged and it could be read.
pub struct PaymentFacts {
    pub merchant: Lookup<Payee>,
    pub is_testnet: bool,
    pub billing_status: Option<String>,
    pub confirmed: bool,
    pub raw_hex: Option<String>,
}

/// How a payment was judged.
#[derive(Debug, Clone, Copy, PartialEq, Eq, Structural)]
pub enum Finding {
    NotConfirmed,
    NotFound,
    DecryptionFailed,
    NoOutputs,
    Insufficient(u64),
    Paid(u64),
}

impl Finding {
    pub open spec fn spec_reason(self) -> Option<Seq<char>> {
        match self {
            Finding::NotConfirmed => Some("payment_not_confirmed"@),
            Finding::NotFound => Some("invalid_transaction_state"@),
            Finding::DecryptionFailed => Some("invalid_transaction_state"@),
            Finding::NoOutputs => Some("invalid_payload"@),
            Finding::Insufficient(_) => Some("insufficient_funds"@),
            Finding::Paid(_) => None,
        }
    }

    /// The reason that the answer gives; none where the payment is valid.
    pub fn reason(&self) -> (r: Option<&'static str>)
        ensures
            opt_str(r) == self.spec_reason(),
    {
        match self {
            Finding::NotConfirmed => Some("payment_not_confirmed"),
            Finding::NotFound => Some("invalid_transaction_state"),
            Finding::DecryptionFailed => Some("invalid_transaction_state"),
            Finding::NoOutputs => Some("invalid_payload"),
            Finding::Insufficient(_) => Some("insufficient_funds"),
            Finding::Paid(_) => None,
        }
    }

    pub open spec fn spec_record(self) -> Option<(Seq<char>, u64, Option<Seq<char>>)> {
        match self {
            Finding::NotConfirmed => None,
            Finding::NotFound => Some(("rejected"@, 0, Some("Transaction not found"@))),
            Finding::DecryptionFailed => Some(("rejected"@, 0, Some("Decryption failed"@))),
            Finding::NoOutputs => Some(
                ("rejected"@, 0, Some("No outputs addressed to this merchant"@)),
            ),
            Finding::Insufficient(t) => Some(("rejected"@, t, Some("Insufficient amount"@))),
            Finding::Paid(t) => Some(("verified"@, t, None)),
        }
    }

    /// What is recorded of the finding: status, zatoshis and reason.
    pub fn record(&self) -> (r: Option<(&'static str, u64, Option<&'static str>)>)
        ensures
            match r {
                Some(x) => self.spec_record() == Some((x.0@, x.1, opt_str(x.2))),
                None => self.spec_record() is None,
            },
    {
        match self {
            Finding::NotConfirmed => None,
            Finding::NotFound => Some(("rejected", 0, Some("Transaction not found"))),
            Finding::DecryptionFailed => Some(("rejected", 0, Some("Decryption failed"))),
            Finding::NoOutputs => Some(
                ("rejected", 0, Some("No outputs addressed to this merchant")),
            ),
            Finding::Insufficient(t) => Some(("rejected", *t, Some("Insufficient amount"))),
            Finding::Paid(t) => Some(("verified", *t, None)),
        }
    }
}

/// What a look at the transaction gives.
pub open spec fn transaction_finding(
    raw_hex: Option<Seq<char>>,
    ufvk: Seq<char>,
    receiver: Seq<char>,
    expected: u64,
) -> Finding {
    match raw_hex {
        None => Finding::NotFound,
        Some(raw) => if !is_hex_text(raw) {
            Finding::DecryptionFailed
        } else if incoming_outputs(hex_bytes(raw), ufvk).len() == 0 {
            Finding::NoOutputs
        } else {
            let total = received(incoming_outputs(hex_bytes(raw), ufvk), receiver);
            if total >= expected {
                Finding::Paid(total as u64)
            } else {
                Finding::Insufficient(total as u64)
            }
        },
    }
}

/// How a payment is judged.
pub open spec fn finding_of(
    facts: &PaymentFacts,
    expected: u64,
    network: Seq<char>,
    pay_to: Seq<char>,
) -> Result<Finding, V2Problem> {
    match facts.merchant {
        Lookup::Missing => Err(V2Problem::InvalidKey),
        Lookup::Failed => Err(V2Problem::AuthFailed),
        Lookup::Found(m) => if network != network_name(facts.is_testnet) || pay_to
            != m.payment_address@ {
            Err(V2Problem::WrongMerchant)
        } else if receiver_of(pay_to) is None {
            Err(V2Problem::NoReceiver)
        } else if opt_text(facts.billing_status) matches Some(s) && is_blocking(s) {
            Err(V2Problem::BillingBlocked)
        } else if !facts.confirmed {
            Ok(Finding::NotConfirmed)
        } else {
            Ok(
                transaction_finding(
                    opt_text(facts.raw_hex),
                    m.ufvk@,
                    receiver_of(pay_to)->0,
                    expected,
                ),
            )
        },
    }
}

/// Whether the amounts that the transaction pays can be counted.
pub open spec fn payment_countable(facts: &PaymentFacts) -> bool {
    facts.merchant matches Lookup::Found(m) ==> is_countable(
        opt_text(facts.raw_hex),
        m.ufvk@,
        m.payment_address@,
    )
}

/// Whether an answer rests on the zatoshis that the transaction pays.
pub open spec fn finding_rests_on_amounts(f: Result<Finding, V2Problem>) -> bool {
    match f {
        Ok(Finding::Paid(_)) => true,
        Ok(Finding::Insufficient(_)) => true,
        _ => false,
    }
}

/// Judges a payment. Nothing comes back where the answer rests on amounts that
/// cannot be counted.
pub fn verify_core_v2(
    facts: &PaymentFacts,
    expected_zatoshis: u64,
    network: &str,
    pay_to: &str,
) -> (r: Option<Result<Finding, V2Problem>>)
    ensures
        r matches Some(f) ==> f == finding_of(facts, expected_zatoshis, network@, pay_to@),
        r is None <==> finding_rests_on_amounts(
            finding_of(facts, expected_zatoshis, network@, pay_to@),
        ) && !payment_countable(facts),
{
    let m: &Payee = match &facts.merchant {
        Lookup::Missing => {
            return Some(Err(V2Problem::InvalidKey));
        },
        Lookup::Failed => {
            return Some(Err(V2Problem::AuthFailed));
        },
        Lookup::Found(m) => m,
    };
    if !text_eq(network, network_id(facts.is_testnet)) || !text_eq(
        pay_to,
        m.payment_address.as_str(),
    ) {
        return Some(Err(V2Problem::WrongMerchant));
    }
    let receiver: String = match orchard_receiver(pay_to) {
        Some(s) => s,
        None => {
            return Some(Err(V2Problem::NoReceiver));
        },
    };
    let blocked: bool = match &facts.billing_status {
        Some(s) => merchant_billing_blocked(s.as_str()),
        None => false,
    };
    if blocked {
        return Some(Err(V2Problem::BillingBlocked));
    }
    if !facts.confirmed {
        return Some(Ok(Finding::NotConfirmed));
    }
    let raw: &str = match &facts.raw_hex {
        Some(s) => s.as_str(),
        None => {
            return Some(Ok(Finding::NotFound));
        },
    };
    match try_decrypt_all_outputs_ivk(raw, m.ufvk.as_str()) {
        Err(_) => Some(Ok(Finding::DecryptionFailed)),
        Ok(outputs) => {
            if outputs.len() == 0 {
                return Some(Ok(Finding::NoOutputs));
            }
            let total: u128 = receiver_total(&outputs, receiver.as_str());
            if total > u64::MAX as u128 {
                return None;
            }
            if total >= expected_zatoshis as u128 {
                Some(Ok(Finding::Paid(total as u64)))
            } else {
                Some(Ok(Finding::Insufficient(total as u64)))
            }
        },
    }
}

/// What a request for verification is answered.
pub open spec fn verification_of(
    has_key: bool,
    body: &VerifyRequestV2,
    facts: &PaymentFacts,
) -> Result<Finding, V2Problem> {
    if !has_key {
        Err(V2Problem::MissingKey)
    } else {
        match fields_of(&body.payment_payload, &body.payment_requirements) {
            Err(e) => Err(e),
            Ok(f) => finding_of(
                facts,
                f.1,
                f.2,
                or_default(opt_text(body.payment_requirements.pay_to), ""@),
            ),
        }
    }
}

/// Answers a request for verification, from what was found out about the
/// payment. Nothing comes back where the answer rests on amounts that cannot be
/// counted.
pub fn verify_v2(has_key: bool, body: &VerifyRequestV2, facts: &PaymentFacts) -> (r: Option<
    Result<Finding, V2Problem>,
>)
    ensures
        r matches Some(f) ==> f == verification_of(has_key, body, facts),
        r is None <==> finding_rests_on_amounts(verification_of(has_key, body, facts))
            && !payment_countable(facts),
{
    if !has_key {
        return Some(Err(V2Problem::MissingKey));
    }
    match parse_v2_request(body) {
        Err(e) => Some(Err(e)),
        Ok(f) => verify_core_v2(
            facts,
            f.1,
            f.2.as_str(),
            text_or(&body.payment_requirements.pay_to, ""),
        ),
    }
}

/// A payment counts as made only where at least the price arrived at the very
/// receiver of the address that was asked for, which is the merchant's own, in
/// a confirmed transaction, on the network that is served.
pub proof fn paid_in_full(
    facts: PaymentFacts,
    expected: u64,
    network: Seq<char>,
    pay_to: Seq<char>,
    total: u64,
)
    requires
        finding_of(&facts, expected, network, pay_to) == Ok::<Finding, V2Problem>(
            Finding::Paid(total),
        ),
        payment_countable(&facts),
    ensures
        total >= expected,
        network == network_name(facts.is_testnet),
        facts.confirmed,
        facts.merchant matches Lookup::Found(m) && {
            &&& m.payment_address@ == pay_to
            &&& facts.raw_hex matches Some(raw) && total == received(
                incoming_outputs(hex_bytes(raw@), m.ufvk@),
                receiver_of(pay_to)->0,
            )
        },
{
    reception_is_counted(
        incoming_outputs(hex_bytes(facts.raw_hex->0@), facts.merchant->Found_0.ufvk@),
        receiver_of(pay_to)->0,
    );
}

proof fn reception_is_counted(
    outputs: Seq<crate::scanner::decrypt::OutputView>,
    receiver: Seq<char>,
)
    ensures
        received(outputs, receiver) >= 0,
    decreases outputs.len(),
{
    if outputs.len() > 0 {
        reception_is_counted(outputs.drop_last(), receiver);
    }
}

/// A payment to the right address on the right network, in a confirmed
/// transaction with outputs for the merchant, is valid where at least the
/// required amount arrived, however much more, and insufficient where less did.
pub proof fn required_amount_is_enough(
    facts: PaymentFacts,
    expected: u64,
    network: Seq<char>,
    pay_to: Seq<char>,
    m: Payee,
    raw: String,
    total: u64,
)
    requires
        facts.merchant == Lookup::Found(m),
        network == if facts.is_testnet {
            "zcash:testnet"@
        } else {
            "zcash:mainnet"@
        },
        pay_to == m.payment_address@,
        receiver_of(pay_to) is Some,
        facts.billing_status matches Some(s) ==> s@ != "past_due"@ && s@ != "suspended"@,
        facts.confirmed,
        facts.raw_hex == Some(raw),
        is_hex_text(raw@),
        incoming_outputs(hex_bytes(raw@), m.ufvk@).len() > 0,
        total == received(incoming_outputs(hex_bytes(raw@), m.ufvk@), receiver_of(pay_to)->0),
    ensures
        total >= expected ==> finding_of(&facts, expected, network, pay_to) == Ok::<
            Finding,
            V2Problem,
        >(Finding::Paid(total)),
        total < expected ==> finding_of(&facts, expected, network, pay_to) == Ok::<
            Finding,
            V2Problem,
        >(Finding::Insufficient(total)),
{
}

/// What pays a requirement pays every smaller one, and what falls short of one
/// falls short of every larger one.
pub proof fn paid_is_monotone(
    facts: PaymentFacts,
    less: u64,
    more: u64,
    network: Seq<char>,
    pay_to: Seq<char>,
    total: u64,
)
    requires
        less <= more,
        payment_countable(&facts),
    ensures
        finding_of(&facts, more, network, pay_to) == Ok::<Finding, V2Problem>(Finding::Paid(total))
            ==> finding_of(&facts, less, network, pay_to) == Ok::<Finding, V2Problem>(
            Finding::Paid(total),
        ),
        finding_of(&facts, less, network, pay_to) == Ok::<Finding, V2Problem>(
            Finding::Insufficient(total),
        ) ==> finding_of(&facts, more, network, pay_to) == Ok::<Finding, V2Problem>(
            Finding::Insufficient(total),
        ),
{
}

/// A payment is looked at only where its terms are the merchant's own: the
/// network it runs on and the address it is paid at. The first thing amiss is
/// answered: the merchant, the terms, the address, the merchant's standing, and
/// last the confirmation.
pub proof fn terms_are_the_merchants_own(
    facts: &PaymentFacts,
    expected: u64,
    network: Seq<char>,
    pay_to: Seq<char>,
    payee: Payee,
)
    requires
        facts.merchant == Lookup::Found(payee),
    ensures
        ({
            let r = finding_of(facts, expected, network, pay_to);
            let here = if facts.is_testnet {
                network == "zcash:testnet"@
            } else {
                network == "zcash:mainnet"@
            };
            let own = here && pay_to == payee.payment_address@;
            let blocked = facts.billing_status matches Some(s) && (s@ == "past_due"@ || s@
                == "suspended"@);
            &&& !own <==> r == Err::<Finding, V2Problem>(V2Problem::WrongMerchant)
            &&& own && receiver_of(pay_to) is None <==> r == Err::<Finding, V2Problem>(
                V2Problem::NoReceiver,
            )
            &&& own && receiver_of(pay_to) is Some && blocked <==> r == Err::<Finding, V2Problem>(
                V2Problem::BillingBlocked,
            )
            &&& own && receiver_of(pay_to) is Some && !blocked <==> r is Ok
            &&& r is Ok ==> (!facts.confirmed <==> r == Ok::<Finding, V2Problem>(
                Finding::NotConfirmed,
            ))
        }),
{
}

/// A caller whose key is unknown, or could not be looked up, learns nothing
/// else.
pub proof fn unknown_caller_learns_nothing(
    facts: &PaymentFacts,
    expected: u64,
    network: Seq<char>,
    pay_to: Seq<char>,
)
    ensures
        facts.merchant is Missing <==> finding_of(facts, expected, network, pay_to) == Err::<
            Finding,
            V2Problem,
        >(V2Problem::InvalidKey),
        facts.merchant is Failed <==> finding_of(facts, expected, network, pay_to) == Err::<
            Finding,
            V2Problem,
        >(V2Problem::AuthFailed),
{
}

/// A confirmed transaction is read or it is not: one that is not there, one
/// that is not hexadecimal, and one with no output for this merchant are told
/// apart, and none of them is paid.
pub proof fn unreadable_transaction_is_not_paid(
    facts: &PaymentFacts,
    expected: u64,
    network: Seq<char>,
    pay_to: Seq<char>,
    payee: Payee,
)
    requires
        facts.merchant == Lookup::Found(payee),
        finding_of(facts, expected, network, pay_to) is Ok,
        facts.confirmed,
    ensures
        ({
            let r = finding_of(facts, expected, network, pay_to)->Ok_0;
            let raw = facts.raw_hex;
            &&& raw is None <==> r == Finding::NotFound
            &&& raw is Some && !is_hex_text(raw->0@) <==> r == Finding::DecryptionFailed
            &&& raw is Some && is_hex_text(raw->0@) && incoming_outputs(
                hex_bytes(raw->0@),
                payee.ufvk@,
            ).len() == 0 <==> r == Finding::NoOutputs
            &&& raw is Some && is_hex_text(raw->0@) && incoming_outputs(
                hex_bytes(raw->0@),
                payee.ufvk@,
            ).len() > 0 <==> (r is Paid || r is Insufficient)
        }),
{
}

/// Only what was paid is free of a reason, and only what was looked up is
/// recorded: as verified exactly where it was paid, with what was received.
pub proof fn only_paid_is_verified(f: Finding)
    ensures
        f is Paid <==> f.spec_reason() is None,
        f is NotConfirmed <==> f.spec_record() is None,
        f is NotConfirmed <==> f.spec_reason() == Some("payment_not_confirmed"@),
        f is NotFound || f is DecryptionFailed <==> f.spec_reason() == Some(
            "invalid_transaction_state"@,
        ),
        f is NoOutputs <==> f.spec_reason() == Some("invalid_payload"@),
        f is Insufficient <==> f.spec_reason() == Some("insufficient_funds"@),
        f.spec_record() matches Some(r) ==> {
            &&& r.0 == "verified"@ <==> f is Paid
            &&& r.0 == "rejected"@ <==> !(f is Paid)
            &&& r.2 is None <==> f is Paid
            &&& r.1 == match f {
                Finding::Paid(t) => t,
                Finding::Insufficient(t) => t,
                _ => 0,
            }
        },
{
    reveal_strlit("payment_not_confirmed");
    reveal_strlit("invalid_transaction_state");
    reveal_strlit("invalid_payload");
    reveal_strlit("insufficient_funds");
    reveal_strlit("verified");
    reveal_strlit("rejected");
    assert("payment_not_confirmed"@.len() == 21);
    assert("invalid_transaction_state"@.len() == 25);
    assert("invalid_payload"@.len() == 15);
    assert("insufficient_funds"@.len() == 18);
    assert("verified"@[0] != "rejected"@[0]);
}

/// The terms of a payment are taken exactly where the second version of the
/// protocol is spoken, ZEC is to be paid exactly, with an address, a time limit
/// above zero, a transaction id, and an amount above zero that is no more than
/// all the money there is. The id is put in lower case, and the main network is
/// meant where none is named.
pub proof fn terms_are_taken(payload: &PaymentPayloadV2, requirements: &PaymentRequirementsV2)
    requires
        payload.accepted is None,
    ensures
        ({
            let r = fields_of(payload, requirements);
            let supported = payload.x402_version == Some(2u32) && opt_text(requirements.scheme)
                == Some("exact"@) && opt_text(requirements.asset) == Some("ZEC"@) && (
            requirements.pay_to matches Some(p) && p@.len() > 0) && (
            requirements.max_timeout_seconds matches Some(t) && t > 0);
            let txid = payload.payload matches Some(p) && (p.txid matches Some(t) && is_txid(t@));
            let amount = requirements.amount;
            &&& !supported <==> r == Err::<(Seq<char>, u64, Seq<char>), V2Problem>(
                V2Problem::InvalidRequirements,
            )
            &&& supported && !txid <==> r == Err::<(Seq<char>, u64, Seq<char>), V2Problem>(
                V2Problem::InvalidTxid,
            )
            &&& r matches Ok(f) ==> {
                &&& supported && txid
                &&& f.0 == ascii_lowercased(payload.payload->0.txid->0@)
                &&& amount is Some && parsed_u64(amount->0@) == Some(f.1)
                &&& 0 < f.1 <= 2_100_000_000_000_000
                &&& requirements.network matches Some(n) ==> f.2 == n@
                &&& requirements.network is None ==> f.2 == "zcash:mainnet"@
            }
            &&& supported && txid && (amount matches Some(a) && (parsed_u64(a@) matches Some(n)
                && 0 < n <= 2_100_000_000_000_000)) ==> r is Ok
            &&& supported && txid && (amount matches Some(a) && parsed_u64(a@) is None) ==> r
                == Err::<(Seq<char>, u64, Seq<char>), V2Problem>(V2Problem::AmountNotInteger)
        }),
{
    reveal_strlit("");
    reveal_strlit("0");
    assert(""@.len() == 0);
    assert("0"@.len() == 1 && "0"@[0] == '0');
    let zero = "0"@;
    assert(crate::text::without_plus(zero) == zero);
    assert(crate::text::all_digits(zero));
    assert(zero.drop_last().len() == 0);
    assert(crate::text::digits_value(zero.drop_last()) == 0);
    assert(crate::text::digits_value(zero) == 0);
}

/// Where a payment says what it accepted, each of the five terms has to be the
/// one that was asked for.
pub proof fn accepted_terms_agree(
    payload: &PaymentPayloadV2,
    requirements: &PaymentRequirementsV2,
    accepted: Json,
)
    requires
        payload.accepted == Some(accepted),
        fields_of(payload, requirements) is Ok,
    ensures
        accepted.member_text("scheme"@) == Some("exact"@),
        accepted.member_text("asset"@) == Some("ZEC"@),
        accepted.member_text("payTo"@) == opt_text(requirements.pay_to),
        requirements.network matches Some(n) ==> accepted.member_text("network"@) == Some(n@),
        requirements.amount matches Some(a) ==> accepted.member_text("amount"@) == Some(a@),
{
    reveal_strlit("");
    assert(""@.len() == 0);
}

/// Without a key nothing of a request is looked at, and with one the terms come
/// before the payment.
pub proof fn key_comes_before_the_terms(has_key: bool, body: &VerifyRequestV2, facts: &PaymentFacts)
    ensures
        !has_key <==> verification_of(has_key, body, facts) == Err::<Finding, V2Problem>(
            V2Problem::MissingKey,
        ),
        has_key && fields_of(&body.payment_payload, &body.payment_requirements) is Err
            ==> verification_of(has_key, body, facts) == Err::<Finding, V2Problem>(
            fields_of(&body.payment_payload, &body.payment_requirements)->Err_0,
        ),
        has_key && fields_of(&body.payment_payload, &body.payment_requirements) is Ok
            && facts.merchant is Missing ==> verification_of(has_key, body, facts) == Err::<
            Finding,
            V2Problem,
        >(V2Problem::InvalidKey),
        verification_of(has_key, body, facts) is Ok ==> facts.merchant is Found
            && body.payment_requirements.pay_to is Some && body.payment_requirements.pay_to->0@
            == facts.merchant->Found_0.payment_address@,
{
    reveal_strlit("");
    assert(""@.len() == 0);
}

/// A request is refused with 400 where the request is at fault, with 401 where
/// the caller is not known, with 402 where the merchant owes fees, with 409
/// where it conflicts with what was done before, with 500 where the service is
/// at fault.
pub proof fn problems_have_their_status(e: V2Problem)
    ensures
        e.spec_parts().0 == 400 <==> e is InvalidRequirements || e is AcceptedDiffers || e is InvalidTxid || e is AmountNotInteger || e is AmountZero || e is WrongMerchant || e is NoReceiver || e is InvalidIdempotencyKey,
        e.spec_parts().0 == 401 <==> e is MissingKey || e is InvalidKey,
        e.spec_parts().0 == 402 <==> e is BillingBlocked,
        e.spec_parts().0 == 409 <==> e is IdempotencyConflict || e is Replayed,
        e.spec_parts().0 == 500 <==> e is AuthFailed,
{
}

/// A finding rests on the amounts where the payment was weighed. Every problem
/// has a page of its own.
pub proof fn finding_rests_on_the_amounts(f: Result<Finding, V2Problem>, kind: Seq<char>)
    ensures
        finding_rests_on_amounts(f) <==> f is Ok && (f->Ok_0 is Paid || f->Ok_0 is Insufficient),
        problem_address(kind) == "https://cipherpay.app/errors/"@ + kind,
{
}

} // verus!
